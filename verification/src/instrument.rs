//! What the pricer reads of an instrument, and the weighted list that fixing
//! resolution produces.

use vstd::prelude::*;

verus! {

/// One instrument as the pricer sees it: its identifier and, where it can be
/// valued by Monte-Carlo, the dates on which it needs an observation.
#[derive(Clone, Debug)]
pub struct Leg {
    pub id: String,
    /// `None` where the instrument has no Monte-Carlo valuation.
    pub observation_dates: Option<Vec<i64>>,
}

/// An instrument with the weight at which it enters the price.
#[derive(Clone, Debug)]
pub struct Weighted<W> {
    pub weight: W,
    pub leg: Leg,
}

/// The instrument can be valued by Monte-Carlo.
pub open spec fn eligible(leg: Leg) -> bool {
    leg.observation_dates is Some
}

/// The dates that the instrument declares; none where it is not eligible.
pub open spec fn leg_dates(leg: Leg) -> Seq<i64> {
    match leg.observation_dates {
        Some(dates) => dates@,
        None => Seq::empty(),
    }
}

/// Every instrument of the list can be valued by Monte-Carlo.
pub open spec fn all_eligible<W>(legs: Seq<Weighted<W>>) -> bool {
    forall|k: int| 0 <= k < legs.len() ==> eligible(#[trigger] legs[k].leg)
}

/// `k` is the place of the first instrument that cannot be valued by Monte-Carlo.
pub open spec fn first_ineligible<W>(legs: Seq<Weighted<W>>, k: int) -> bool {
    &&& 0 <= k < legs.len()
    &&& !eligible(legs[k].leg)
    &&& all_eligible(legs.take(k))
}

/// The dates that the instruments declare, list order first, then each
/// instrument's own order.
pub open spec fn declared_dates<W>(legs: Seq<Weighted<W>>) -> Seq<i64>
    decreases legs.len(),
{
    if legs.len() == 0 {
        Seq::empty()
    } else {
        declared_dates(legs.drop_last()) + leg_dates(legs.last().leg)
    }
}

/// Every date that some instrument of the list declares is in `schedule`.
pub open spec fn covers<W>(schedule: Seq<i64>, legs: Seq<Weighted<W>>) -> bool {
    forall|i: int, j: int|
        0 <= i < legs.len() && 0 <= j < leg_dates(legs[i].leg).len() ==> schedule.contains(
            #[trigger] leg_dates(legs[i].leg)[j],
        )
}

/// Every date that the instrument declares is in `schedule`.
pub open spec fn leg_covered(schedule: Seq<i64>, leg: Leg) -> bool {
    forall|j: int|
        0 <= j < leg_dates(leg).len() ==> schedule.contains(#[trigger] leg_dates(leg)[j])
}

/// The instrument can be valued on a model built on `schedule`: it has a
/// Monte-Carlo valuation and `schedule` holds every date that it declares.
pub open spec fn fits(schedule: Seq<i64>, leg: Leg) -> bool {
    eligible(leg) && leg_covered(schedule, leg)
}

/// Every instrument of the list fits `schedule`.
pub open spec fn all_fit<W>(schedule: Seq<i64>, legs: Seq<Weighted<W>>) -> bool {
    forall|k: int| 0 <= k < legs.len() ==> fits(schedule, #[trigger] legs[k].leg)
}

/// `k` is the place of the first instrument that does not fit `schedule`.
pub open spec fn first_unfit<W>(schedule: Seq<i64>, legs: Seq<Weighted<W>>, k: int) -> bool {
    &&& 0 <= k < legs.len()
    &&& !fits(schedule, legs[k].leg)
    &&& all_fit(schedule, legs.take(k))
}

/// A list whose instruments all fit `schedule` is eligible throughout and
/// covered by `schedule`.
pub proof fn lemma_fit_list_is_covered<W>(schedule: Seq<i64>, legs: Seq<Weighted<W>>)
    requires
        all_fit(schedule, legs),
    ensures
        all_eligible(legs),
        covers(schedule, legs),
{
    assert forall|i: int, j: int|
        0 <= i < legs.len() && 0 <= j < leg_dates(legs[i].leg).len() implies schedule.contains(
        #[trigger] leg_dates(legs[i].leg)[j],
    ) by {
        assert(fits(schedule, legs[i].leg));
    }
}

/// The list that fixing resolution leaves: the decomposition where there is
/// one, else the instrument itself at the unit weight.
pub open spec fn resolved<W>(fixed: Option<Vec<Weighted<W>>>, instrument: Leg, unit: W) -> Seq<
    Weighted<W>,
> {
    match fixed {
        Some(list) => list@,
        None => seq![Weighted { weight: unit, leg: instrument }],
    }
}

/// A date declared by an instrument of the list is among the list's declared dates.
pub proof fn lemma_declared_holds_each<W>(legs: Seq<Weighted<W>>, i: int, j: int)
    requires
        0 <= i < legs.len(),
        0 <= j < leg_dates(legs[i].leg).len(),
    ensures
        declared_dates(legs).contains(leg_dates(legs[i].leg)[j]),
    decreases legs.len(),
{
    let head = declared_dates(legs.drop_last());
    let tail = leg_dates(legs.last().leg);
    let d = leg_dates(legs[i].leg)[j];
    if i == legs.len() - 1 {
        assert((head + tail)[head.len() + j] == d);
    } else {
        assert(legs.drop_last()[i] == legs[i]);
        lemma_declared_holds_each(legs.drop_last(), i, j);
        let k = choose|k: int| 0 <= k < head.len() && head[k] == d;
        assert((head + tail)[k] == d);
    }
}

/// A schedule that holds the list's declared dates covers every instrument.
pub proof fn lemma_declared_covers<W>(schedule: Seq<i64>, legs: Seq<Weighted<W>>)
    requires
        forall|d: i64| declared_dates(legs).contains(d) ==> schedule.contains(d),
    ensures
        covers(schedule, legs),
{
    assert forall|i: int, j: int|
        0 <= i < legs.len() && 0 <= j < leg_dates(legs[i].leg).len() implies schedule.contains(
        #[trigger] leg_dates(legs[i].leg)[j],
    ) by {
        lemma_declared_holds_each(legs, i, j);
    }
}

/// Fixing resolution: the decomposition as it is, or the instrument alone at
/// the unit weight.
pub fn resolve_fixings<W>(fixed: Option<Vec<Weighted<W>>>, instrument: Leg, unit: W) -> (legs: Vec<
    Weighted<W>,
>)
    ensures
        legs@ == resolved(fixed, instrument, unit),
{
    match fixed {
        Some(list) => list,
        None => {
            let mut list: Vec<Weighted<W>> = Vec::new();
            list.push(Weighted { weight: unit, leg: instrument });
            list
        },
    }
}

} // verus!
