use montecarlo_pricer::instrument::{resolve_fixings, Leg, Weighted};

fn leg(id: &str, dates: Option<Vec<i64>>) -> Leg {
    Leg { id: id.to_string(), observation_dates: dates }
}

#[test]
fn unfixed_instrument_is_one_entry_of_unit_weight() {
    let list = resolve_fixings(None, leg("OPT", Some(vec![516])), 1.0_f64);
    assert_eq!(list.len(), 1);
    assert_eq!(list[0].weight, 1.0);
    assert_eq!(list[0].leg.id, "OPT");
    assert_eq!(list[0].leg.observation_dates, Some(vec![516]));
}

#[test]
fn decomposition_is_kept_as_given() {
    let fixed = vec![
        Weighted { weight: 0.25_f64, leg: leg("A", Some(vec![3, 1])) },
        Weighted { weight: 0.75_f64, leg: leg("B", None) },
    ];
    let list = resolve_fixings(Some(fixed), leg("BASKET", Some(vec![9])), 1.0_f64);
    assert_eq!(list.len(), 2);
    assert_eq!(list[0].weight, 0.25);
    assert_eq!(list[0].leg.id, "A");
    assert_eq!(list[0].leg.observation_dates, Some(vec![3, 1]));
    assert_eq!(list[1].weight, 0.75);
    assert_eq!(list[1].leg.id, "B");
    assert_eq!(list[1].leg.observation_dates, None);
}

#[test]
fn empty_decomposition_stays_empty() {
    let list = resolve_fixings(Some(Vec::new()), leg("X", Some(vec![1])), 1.0_f64);
    assert!(list.is_empty());
}
