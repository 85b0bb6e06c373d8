use montecarlo_pricer::timeline::{Timeline, TimelineError};

#[test]
fn collate_sorts_and_removes_duplicates() {
    let mut t = Timeline::new(10);
    t.add_date(30).unwrap();
    t.add_date(12).unwrap();
    t.add_dates(&vec![30, 10, 25, 12]).unwrap();
    assert_eq!(t.dates(), &vec![30, 12, 30, 10, 25, 12]);
    assert_eq!(t.collate(), Ok(()));
    assert!(t.is_collated());
    assert_eq!(t.dates(), &vec![10, 12, 25, 30]);
    assert_eq!(t.len(), 4);
    assert_eq!(t.spot_date(), 10);
}

#[test]
fn collate_refuses_an_empty_timeline() {
    let mut t = Timeline::new(0);
    assert_eq!(t.collate(), Err(TimelineError::Empty));
    assert!(!t.is_collated());
    assert_eq!(t.len(), 0);
}

#[test]
fn collate_reports_the_first_date_before_spot() {
    let mut t = Timeline::new(100);
    t.add_dates(&vec![150, 99, 120, 42]).unwrap();
    assert_eq!(t.collate(), Err(TimelineError::Unreachable(99)));
    assert!(!t.is_collated());
    assert_eq!(t.dates(), &vec![150, 99, 120, 42]);
}

#[test]
fn collated_timeline_refuses_new_dates() {
    let mut t = Timeline::new(5);
    t.add_date(7).unwrap();
    t.collate().unwrap();
    assert_eq!(t.add_date(9), Err(TimelineError::Frozen));
    assert_eq!(t.add_dates(&vec![9, 11]), Err(TimelineError::Frozen));
    assert_eq!(t.dates(), &vec![7]);
}

#[test]
fn collate_twice_changes_nothing() {
    let mut t = Timeline::new(-3);
    t.add_dates(&vec![4, -3, 4, 0]).unwrap();
    t.collate().unwrap();
    let first = t.dates().clone();
    assert_eq!(t.collate(), Ok(()));
    assert_eq!(t.dates(), &first);
    assert_eq!(first, vec![-3, 0, 4]);
}

#[test]
fn contains_finds_declared_dates_only() {
    let mut t = Timeline::new(0);
    t.add_dates(&vec![3, 1, 2]).unwrap();
    t.collate().unwrap();
    assert!(t.contains(1));
    assert!(t.contains(2));
    assert!(t.contains(3));
    assert!(!t.contains(0));
    assert!(!t.contains(4));
}

#[test]
fn extreme_dates_are_kept() {
    let mut t = Timeline::new(i64::MIN);
    t.add_dates(&vec![i64::MAX, i64::MIN, 0]).unwrap();
    t.collate().unwrap();
    assert_eq!(t.dates(), &vec![i64::MIN, 0, i64::MAX]);
}

#[test]
fn substeps_run_from_spot_to_the_latest_date() {
    let mut t = Timeline::new(0);
    t.add_dates(&vec![10, 3]).unwrap();
    assert_eq!(t.add_substeps(4), Ok(()));
    assert_eq!(t.dates(), &vec![10, 3, 4, 8]);
    t.collate().unwrap();
    assert_eq!(t.dates(), &vec![3, 4, 8, 10]);
}

#[test]
fn substep_does_not_reach_the_latest_date_itself() {
    let mut t = Timeline::new(0);
    t.add_date(12).unwrap();
    t.add_substeps(4).unwrap();
    assert_eq!(t.dates(), &vec![12, 4, 8]);
}

#[test]
fn zero_step_declares_nothing() {
    let mut t = Timeline::new(0);
    t.add_date(12).unwrap();
    t.add_substeps(0).unwrap();
    assert_eq!(t.dates(), &vec![12]);
}

#[test]
fn substeps_of_an_empty_timeline_are_none() {
    let mut t = Timeline::new(0);
    t.add_substeps(1).unwrap();
    assert_eq!(t.len(), 0);
}

#[test]
fn substeps_with_dates_before_spot_are_none() {
    let mut t = Timeline::new(50);
    t.add_dates(&vec![10, 50]).unwrap();
    t.add_substeps(5).unwrap();
    assert_eq!(t.dates(), &vec![10, 50]);
}

#[test]
fn substeps_near_the_ends_of_the_range() {
    let mut t = Timeline::new(i64::MAX - 10);
    t.add_date(i64::MAX).unwrap();
    t.add_substeps(4).unwrap();
    assert_eq!(t.dates(), &vec![i64::MAX, i64::MAX - 6, i64::MAX - 2]);

    let mut t = Timeline::new(i64::MIN);
    t.add_date(i64::MIN + 5).unwrap();
    t.add_substeps(u32::MAX).unwrap();
    assert_eq!(t.dates(), &vec![i64::MIN + 5]);
}

#[test]
fn collated_timeline_refuses_substeps() {
    let mut t = Timeline::new(0);
    t.add_date(12).unwrap();
    t.collate().unwrap();
    assert_eq!(t.add_substeps(4), Err(TimelineError::Frozen));
    assert_eq!(t.dates(), &vec![12]);
}
