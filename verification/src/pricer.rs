//! The pricer factory's validation and scheduling, and the pricer's own state.

use vstd::prelude::*;
use crate::bump::BumpTime;
use crate::instrument::{
    all_eligible, all_fit, covers, declared_dates, eligible, first_ineligible, first_unfit, fits,
    leg_covered, leg_dates, lemma_declared_covers, lemma_fit_list_is_covered, resolve_fixings,
    resolved, Leg, Weighted,
};
use crate::saveable::{captured, restored, Saveable};
use crate::timeline::{
    first_before, lemma_substeps_are_reachable, none_before, same_dates, scheduled_dates,
    strictly_increasing, Timeline, TimelineError,
};

verus! {

/// Why the pricer refused an operation.
#[derive(Clone, Debug, PartialEq, Eq)]
pub enum PricerError {
    /// The instrument with this identifier has no Monte-Carlo valuation.
    Ineligible(String),
    /// The declared dates do not make a schedule.
    Timeline(TimelineError),
    /// The instrument with this identifier needs a date that the timeline
    /// does not hold.
    Unscheduled(String),
    /// The valuation date was asked to go back.
    TimeReversal { current: i64, requested: i64 },
}

/// `String::push_str`: the string afterwards is the string before, followed
/// by the characters of `tail`.
#[verifier::external_body]
fn append(text: &mut String, tail: &str)
    ensures
        final(text)@ == old(text)@ + tail@,
{
    text.push_str(tail)
}

impl PricerError {
    /// What the message says, for each error.
    pub open spec fn message_text(&self) -> Seq<char> {
        match self {
            PricerError::Ineligible(id) => "Instrument "@ + id@
                + " is not priceable by MonteCarlo"@,
            PricerError::Timeline(TimelineError::Empty) => "Timeline has no dates"@,
            PricerError::Timeline(TimelineError::Unreachable(_)) =>
                "Timeline holds a date before the spot date"@,
            PricerError::Timeline(TimelineError::Frozen) => "Timeline is already collated"@,
            PricerError::Unscheduled(id) => "Instrument "@ + id@
                + " needs a date that is not on the timeline"@,
            PricerError::TimeReversal { .. } => "Valuation date cannot move backwards"@,
        }
    }

    /// A message for a human reader.
    pub fn message(&self) -> (text: String)
        ensures
            text@ == self.message_text(),
    {
        match self {
            PricerError::Ineligible(id) => {
                let mut text = "Instrument ".to_owned();
                append(&mut text, id.as_str());
                append(&mut text, " is not priceable by MonteCarlo");
                text
            },
            PricerError::Timeline(TimelineError::Empty) => "Timeline has no dates".to_owned(),
            PricerError::Timeline(TimelineError::Unreachable(_)) =>
                "Timeline holds a date before the spot date".to_owned(),
            PricerError::Timeline(TimelineError::Frozen) => "Timeline is already collated".to_owned(),
            PricerError::Unscheduled(id) => {
                let mut text = "Instrument ".to_owned();
                append(&mut text, id.as_str());
                append(&mut text, " needs a date that is not on the timeline");
                text
            },
            PricerError::TimeReversal { .. } => "Valuation date cannot move backwards".to_owned(),
        }
    }
}

/// The outcome of validation and scheduling: the weighted list and the
/// collated timeline, ready for a model to be built on.
#[derive(Debug)]
pub struct Prepared<W> {
    instruments: Vec<Weighted<W>>,
    timeline: Timeline,
}

impl<W> Prepared<W> {
    /// The weighted list.
    pub closed spec fn legs(&self) -> Seq<Weighted<W>> {
        self.instruments@
    }

    /// The timeline.
    pub closed spec fn schedule(&self) -> Timeline {
        self.timeline
    }

    /// Every instrument can be valued, and the timeline is collated and holds
    /// every date that they declare.
    pub open spec fn wf(&self) -> bool {
        &&& all_eligible(self.legs())
        &&& self.schedule().frozen()
        &&& self.schedule().wf()
        &&& covers(self.schedule()@, self.legs())
    }

    /// The weighted list.
    pub fn instruments(&self) -> (list: &Vec<Weighted<W>>)
        ensures
            list@ == self.legs(),
    {
        &self.instruments
    }

    /// The collated timeline.
    pub fn timeline(&self) -> (t: &Timeline)
        ensures
            *t == self.schedule(),
    {
        &self.timeline
    }
}

/// Makes Monte-Carlo pricers; it holds the factory of the model that they run on.
pub struct MonteCarloPricerFactory<F> {
    model_factory: F,
}

impl<F> MonteCarloPricerFactory<F> {
    /// The model factory held.
    pub closed spec fn held(&self) -> F {
        self.model_factory
    }

    /// A factory of pricers that run on the models of `model_factory`.
    pub fn new(model_factory: F) -> (factory: MonteCarloPricerFactory<F>)
        ensures
            factory.held() == model_factory,
    {
        MonteCarloPricerFactory { model_factory }
    }

    /// The factory of the models.
    pub fn model_factory(&self) -> (f: &F)
        ensures
            *f == self.held(),
    {
        &self.model_factory
    }

    /// Resolves the fixings, checks that every instrument can be valued by
    /// Monte-Carlo, and collates the dates that they declare, together with
    /// the substeps every `substep` days from the spot date up to the latest
    /// of them (none for a `substep` of 0).
    ///
    /// The first instrument that cannot be valued fails the whole
    /// construction, under its identifier. Otherwise the timeline's own
    /// refusals come through: no date declared, or one before the spot date.
    pub fn prepare<W>(
        &self,
        fixed: Option<Vec<Weighted<W>>>,
        instrument: Leg,
        unit: W,
        spot_date: i64,
        substep: u32,
    ) -> (r: Result<Prepared<W>, PricerError>)
        ensures
            ({
                let legs = resolved(fixed, instrument, unit);
                let declared = declared_dates(legs);
                match r {
                    Ok(p) => {
                        &&& all_eligible(legs)
                        &&& declared.len() > 0
                        &&& none_before(declared, spot_date)
                        &&& p.legs() == legs
                        &&& p.schedule().spot() == spot_date
                        &&& p.schedule().frozen()
                        &&& strictly_increasing(p.schedule()@)
                        &&& same_dates(
                            p.schedule()@,
                            scheduled_dates(declared, spot_date, substep),
                        )
                        &&& covers(p.schedule()@, legs)
                        &&& p.wf()
                    },
                    Err(PricerError::Ineligible(id)) => exists|k: int|
                        #[trigger] first_ineligible(legs, k) && id@ == legs[k].leg.id@,
                    Err(PricerError::Timeline(TimelineError::Empty)) => all_eligible(legs)
                        && declared.len() == 0,
                    Err(PricerError::Timeline(TimelineError::Unreachable(d))) => all_eligible(legs)
                        && declared.len() > 0 && first_before(declared, spot_date, d),
                    Err(PricerError::Timeline(TimelineError::Frozen)) => false,
                    Err(PricerError::Unscheduled(_)) => false,
                    Err(PricerError::TimeReversal { .. }) => false,
                }
            }),
    {
        let ghost legs = resolved(fixed, instrument, unit);
        let instruments = resolve_fixings(fixed, instrument, unit);
        let mut timeline = Timeline::new(spot_date);
        let mut i: usize = 0;
        while i < instruments.len()
            invariant
                i <= instruments.len(),
                instruments@ == legs,
                legs == resolved(fixed, instrument, unit),
                all_eligible(legs.take(i as int)),
                !timeline.frozen(),
                timeline.spot() == spot_date,
                timeline@ == declared_dates(legs.take(i as int)),
            decreases instruments.len() - i,
        {
            let leg = &instruments[i].leg;
            match &leg.observation_dates {
                None => {
                    let id = leg.id.clone();
                    proof {
                        assert(first_ineligible(legs, i as int));
                        assert(id@ == legs[i as int].leg.id@);
                    }
                    return Err(PricerError::Ineligible(id));
                },
                Some(dates) => {
                    let _ = timeline.add_dates(dates);
                },
            }
            proof {
                let next = legs.take(i as int + 1);
                assert(next.drop_last() == legs.take(i as int));
                assert(next.last() == legs[i as int]);
                assert forall|k: int| 0 <= k < next.len() implies eligible(
                    #[trigger] next[k].leg,
                ) by {
                    if k < i {
                        assert(legs.take(i as int)[k] == next[k]);
                    }
                }
            }
            i += 1;
        }
        proof {
            assert(legs.take(legs.len() as int) == legs);
        }
        let ghost declared = declared_dates(legs);
        let _ = timeline.add_substeps(substep);
        let ghost all = timeline@;
        match timeline.collate() {
            Ok(_) => {
                proof {
                    assert forall|k: int| 0 <= k < declared.len() implies declared[k]
                        >= spot_date by {
                        assert(all[k] == declared[k]);
                    }
                    assert forall|d: i64| declared.contains(d) implies timeline@.contains(d) by {
                        let k = choose|k: int| 0 <= k < declared.len() && declared[k] == d;
                        assert(all[k] == d);
                    }
                    lemma_declared_covers(timeline@, legs);
                }
                Ok(Prepared { instruments, timeline })
            },
            Err(e) => {
                proof {
                    if let TimelineError::Unreachable(d) = e {
                        lemma_substeps_are_reachable(declared, spot_date, substep, d);
                    }
                }
                Err(PricerError::Timeline(e))
            },
        }
    }
}

/// `e` reports the first instrument of the list that does not fit
/// `schedule`: as ineligible where it has no Monte-Carlo valuation, else as
/// unscheduled.
pub open spec fn reports_unfit<W>(schedule: Seq<i64>, legs: Seq<Weighted<W>>, e: PricerError) -> bool {
    exists|k: int| #[trigger]
        first_unfit(schedule, legs, k) && match e {
            PricerError::Ineligible(id) => !eligible(legs[k].leg) && id@ == legs[k].leg.id@,
            PricerError::Unscheduled(id) => eligible(legs[k].leg) && id@ == legs[k].leg.id@,
            _ => false,
        }
}

/// Checks that every instrument of the list has a Monte-Carlo valuation and
/// declares only dates that the timeline holds; the first that does not is
/// reported.
pub fn check_instruments<W>(list: &Vec<Weighted<W>>, timeline: &Timeline) -> (r: Result<
    (),
    PricerError,
>)
    ensures
        match r {
            Ok(_) => all_fit(timeline@, list@),
            Err(e) => reports_unfit(timeline@, list@, e),
        },
{
    let mut i: usize = 0;
    while i < list.len()
        invariant
            i <= list.len(),
            all_fit(timeline@, list@.take(i as int)),
        decreases list.len() - i,
    {
        let leg = &list[i].leg;
        match &leg.observation_dates {
            None => {
                let id = leg.id.clone();
                proof {
                    assert(first_unfit(timeline@, list@, i as int));
                }
                return Err(PricerError::Ineligible(id));
            },
            Some(dates) => {
                let mut j: usize = 0;
                while j < dates.len()
                    invariant
                        j <= dates.len(),
                        i < list.len(),
                        *leg == list@[i as int].leg,
                        leg.observation_dates == Some(*dates),
                        all_fit(timeline@, list@.take(i as int)),
                        forall|m: int| 0 <= m < j ==> timeline@.contains(#[trigger] dates@[m]),
                    decreases dates.len() - j,
                {
                    if !timeline.contains(dates[j]) {
                        let id = leg.id.clone();
                        proof {
                            assert(leg_dates(*leg)[j as int] == dates@[j as int]);
                            assert(!leg_covered(timeline@, *leg));
                            assert(first_unfit(timeline@, list@, i as int));
                        }
                        return Err(PricerError::Unscheduled(id));
                    }
                    j += 1;
                }
                proof {
                    assert(leg_dates(*leg) == dates@);
                    assert(fits(timeline@, *leg));
                }
            },
        }
        proof {
            let next = list@.take(i as int + 1);
            assert forall|k: int| 0 <= k < next.len() implies fits(
                timeline@,
                #[trigger] next[k].leg,
            ) by {
                if k < i {
                    assert(list@.take(i as int)[k] == next[k]);
                }
            }
        }
        i += 1;
    }
    proof {
        assert(list@.take(list@.len() as int) == list@);
    }
    Ok(())
}

/// A pricer: the weighted list of instruments, the model that they share, the
/// timeline that the model was built on, and the valuation date.
///
/// The model is the caller's to run: the pricer carries it and never looks
/// inside.
pub struct MonteCarloPricer<W, M> {
    instruments: Vec<Weighted<W>>,
    timeline: Timeline,
    valuation_date: i64,
    model: M,
}

impl<W, M> MonteCarloPricer<W, M> {
    /// The weighted list.
    pub closed spec fn legs(&self) -> Seq<Weighted<W>> {
        self.instruments@
    }

    /// The timeline that the model was built on.
    pub closed spec fn schedule(&self) -> Timeline {
        self.timeline
    }

    /// The date as of which the pricer values.
    pub closed spec fn valuation(&self) -> i64 {
        self.valuation_date
    }

    /// The model carried.
    pub closed spec fn carried(&self) -> M {
        self.model
    }

    /// Every instrument can be valued, the timeline is collated and holds
    /// every date that they declare, and the valuation date is not before the
    /// spot date.
    pub open spec fn wf(&self) -> bool {
        &&& all_eligible(self.legs())
        &&& self.schedule().frozen()
        &&& self.schedule().wf()
        &&& covers(self.schedule()@, self.legs())
        &&& self.valuation() >= self.schedule().spot()
    }

    /// The pricer over what was prepared, with the model built on it. It
    /// values as of the spot date.
    pub fn from_parts(prepared: Prepared<W>, model: M) -> (pricer: MonteCarloPricer<W, M>)
        ensures
            pricer.legs() == prepared.legs(),
            pricer.schedule() == prepared.schedule(),
            pricer.valuation() == prepared.schedule().spot(),
            pricer.carried() == model,
            prepared.wf() ==> pricer.wf(),
    {
        let Prepared { instruments, timeline } = prepared;
        let valuation_date = timeline.spot_date();
        MonteCarloPricer { instruments, timeline, valuation_date, model }
    }

    /// The instruments to value, in the order in which their weighted values
    /// are summed.
    pub fn instruments(&self) -> (list: &Vec<Weighted<W>>)
        ensures
            list@ == self.legs(),
    {
        &self.instruments
    }

    /// The timeline that the model was built on.
    pub fn timeline(&self) -> (t: &Timeline)
        ensures
            *t == self.schedule(),
    {
        &self.timeline
    }

    /// The model, to value the instruments on.
    pub fn model(&self) -> (m: &M)
        ensures
            *m == self.carried(),
    {
        &self.model
    }

    /// The model, to bump or restore it. Whatever is done to it, the rest of
    /// the pricer stays as it is.
    pub fn model_mut(&mut self) -> (m: &mut M)
        ensures
            *m == old(self).carried(),
            final(self).carried() == *final(m),
            final(self).legs() == old(self).legs(),
            final(self).schedule() == old(self).schedule(),
            final(self).valuation() == old(self).valuation(),
    {
        &mut self.model
    }

    /// The date as of which the pricer values.
    pub fn valuation_date(&self) -> (d: i64)
        ensures
            d == self.valuation(),
    {
        self.valuation_date
    }

    /// A fresh, empty snapshot for this pricer's bumps.
    pub fn new_saveable(&self) -> (save: Saveable<M>)
        ensures
            save.held() is None,
    {
        Saveable::new()
    }

    /// Takes in the model's answer to a bump: the bumped model, or `None`
    /// where the bump touched nothing that the model holds.
    ///
    /// Returns whether the bump had an effect. Where it had, the model before
    /// it is offered to `save`, which keeps the earliest state it was offered.
    pub fn bump(&mut self, bumped: Option<M>, save: &mut Saveable<M>) -> (affected: bool)
        ensures
            affected == (bumped is Some),
            final(self).legs() == old(self).legs(),
            final(self).schedule() == old(self).schedule(),
            final(self).valuation() == old(self).valuation(),
            match bumped {
                Some(model) => final(self).carried() == model && final(save).held() == captured(
                    old(save).held(),
                    old(self).carried(),
                ),
                None => final(self).carried() == old(self).carried() && final(save).held() == old(
                    save,
                ).held(),
            },
    {
        match bumped {
            Some(model) => {
                let mut before = model;
                core::mem::swap(&mut self.model, &mut before);
                save.capture(before);
                true
            },
            None => false,
        }
    }

    /// Puts back the model that `save` holds and empties `save`. Returns
    /// whether there was one; where there was none, nothing changes.
    pub fn restore(&mut self, save: &mut Saveable<M>) -> (done: bool)
        ensures
            done == (old(save).held() is Some),
            final(save).held() is None,
            final(self).legs() == old(self).legs(),
            final(self).schedule() == old(self).schedule(),
            final(self).valuation() == old(self).valuation(),
            final(self).carried() == restored(old(save).held(), old(self).carried()),
    {
        match save.take() {
            Some(model) => {
                self.model = model;
                true
            },
            None => false,
        }
    }

    /// Moves the valuation date forward to the date that `bump` names, or
    /// leaves it where it is when that is the date already reached. `rolled`
    /// is the weighted list as the instruments became on the way, or `None`
    /// where none of them changed.
    ///
    /// A date before the current one is refused: the valuation date never
    /// goes back. A rolled list is refused where one of its instruments has
    /// no Monte-Carlo valuation or needs a date that the timeline does not
    /// hold. A refusal changes nothing.
    pub fn bump_time(&mut self, bump: &BumpTime, rolled: Option<Vec<Weighted<W>>>) -> (r: Result<
        (),
        PricerError,
    >)
        ensures
            old(self).wf() ==> final(self).wf(),
            final(self).valuation() >= old(self).valuation(),
            final(self).schedule() == old(self).schedule(),
            final(self).carried() == old(self).carried(),
            match r {
                Ok(_) => {
                    &&& bump.spot_date >= old(self).valuation()
                    &&& final(self).valuation() == bump.spot_date
                    &&& match rolled {
                        Some(list) => all_fit(old(self).schedule()@, list@) && final(self).legs()
                            == list@,
                        None => final(self).legs() == old(self).legs(),
                    }
                },
                Err(e) => {
                    &&& final(self).valuation() == old(self).valuation()
                    &&& final(self).legs() == old(self).legs()
                    &&& if bump.spot_date < old(self).valuation() {
                        e == (PricerError::TimeReversal {
                            current: old(self).valuation(),
                            requested: bump.spot_date,
                        })
                    } else {
                        rolled matches Some(list) && reports_unfit(
                            old(self).schedule()@,
                            list@,
                            e,
                        )
                    }
                },
            },
    {
        if bump.spot_date < self.valuation_date {
            return Err(
                PricerError::TimeReversal {
                    current: self.valuation_date,
                    requested: bump.spot_date,
                },
            );
        }
        match rolled {
            Some(list) => {
                match check_instruments(&list, &self.timeline) {
                    Ok(_) => {
                        proof {
                            lemma_fit_list_is_covered(self.timeline@, list@);
                        }
                        self.instruments = list;
                    },
                    Err(e) => {
                        return Err(e);
                    },
                }
            },
            None => {},
        }
        self.valuation_date = bump.spot_date;
        Ok(())
    }
}

} // verus!
