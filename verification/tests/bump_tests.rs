use montecarlo_pricer::bump::{Bump, BumpKind, BumpTime, SpotDynamics, SpotShift};
use montecarlo_pricer::saveable::Saveable;

#[test]
fn bumps_name_their_target_and_kind() {
    let spot = Bump::new_spot("BP.L", SpotShift::Relative(0.01_f64));
    assert_eq!(spot.target(), "BP.L");
    assert_eq!(spot.kind(), BumpKind::Spot);
    assert_eq!(spot, Bump::Spot { id: "BP.L".to_string(), shift: SpotShift::Relative(0.01) });

    let vol = Bump::new_vol("BP.L", 0.01_f64);
    assert_eq!(vol.target(), "BP.L");
    assert_eq!(vol.kind(), BumpKind::Vol);
    assert_eq!(vol, Bump::Vol { id: "BP.L".to_string(), flat_additive: 0.01 });

    let divs = Bump::new_divs("BP.L", 0.01_f64);
    assert_eq!(divs.target(), "BP.L");
    assert_eq!(divs.kind(), BumpKind::Dividends);
    assert_eq!(divs, Bump::Dividends { id: "BP.L".to_string(), all_relative: 0.01 });

    let lse = Bump::new_yield("LSE", 0.01_f64);
    assert_eq!(lse.target(), "LSE");
    assert_eq!(lse.kind(), BumpKind::Yield);
    assert_eq!(lse, Bump::Yield { id: "LSE".to_string(), flat_annualised: 0.01 });
}

#[test]
fn absolute_and_relative_spot_shifts_differ() {
    let a = Bump::new_spot("BP.L", SpotShift::Absolute(2_i32));
    let r = Bump::new_spot("BP.L", SpotShift::Relative(2_i32));
    assert_ne!(a, r);
}

#[test]
fn bump_time_holds_what_it_was_given() {
    let b = BumpTime::new(17169, 17168, SpotDynamics::StickyForward);
    assert_eq!(b.spot_date, 17169);
    assert_eq!(b.old_spot_date, 17168);
    assert_eq!(b.spot_dynamics, SpotDynamics::StickyForward);
    assert_ne!(b, BumpTime::new(17169, 17168, SpotDynamics::StickySpot));
}

#[test]
fn fresh_saveable_is_empty() {
    let save: Saveable<u32> = Saveable::new();
    assert!(save.is_empty());
    assert_eq!(save.peek(), None);
}

#[test]
fn saveable_keeps_the_earliest_state() {
    let mut save = Saveable::new();
    save.capture(10_u32);
    assert!(!save.is_empty());
    save.capture(20);
    save.capture(30);
    assert_eq!(save.peek(), Some(&10));
    assert_eq!(save.take(), Some(10));
    assert!(save.is_empty());
    assert_eq!(save.take(), None);
}

#[test]
fn cleared_saveable_starts_again() {
    let mut save = Saveable::new();
    save.capture(1.5_f64);
    save.clear();
    assert!(save.is_empty());
    save.capture(2.5);
    assert_eq!(save.peek(), Some(&2.5));
}
