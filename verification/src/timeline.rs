//! The simulation timeline: dates are declared in any order, then collated into
//! one strictly increasing schedule.

use vstd::prelude::*;

verus! {

/// Why a timeline operation was refused.
#[derive(Clone, Copy, Debug, PartialEq, Eq, Structural)]
pub enum TimelineError {
    /// Collation was asked for before any date was declared.
    Empty,
    /// A declared date lies before the spot date; the first such date in
    /// declaration order is reported.
    Unreachable(i64),
    /// A date was declared after collation.
    Frozen,
}

/// Every element is smaller than each one after it.
pub open spec fn strictly_increasing(s: Seq<i64>) -> bool {
    forall|i: int, j: int| 0 <= i < j < s.len() ==> s[i] < s[j]
}

/// The two sequences hold the same dates, whatever their order and multiplicity.
pub open spec fn same_dates(a: Seq<i64>, b: Seq<i64>) -> bool {
    forall|d: i64| a.contains(d) <==> b.contains(d)
}

/// No date of `s` lies before `spot`.
pub open spec fn none_before(s: Seq<i64>, spot: i64) -> bool {
    forall|k: int| 0 <= k < s.len() ==> s[k] >= spot
}

/// `d` is the first date of `s`, in order of declaration, that lies before `spot`.
pub open spec fn first_before(s: Seq<i64>, spot: i64, d: i64) -> bool {
    exists|k: int|
        0 <= k < s.len() && #[trigger] s[k] == d && d < spot && none_before(s.take(k), spot)
}

/// The latest of the dates; the least date there is where there are none.
pub open spec fn latest(s: Seq<i64>) -> i64
    decreases s.len(),
{
    if s.len() == 0 {
        i64::MIN
    } else {
        let rest = latest(s.drop_last());
        if s.last() > rest {
            s.last()
        } else {
            rest
        }
    }
}

/// The dates that lie a whole number of steps after `from` and before
/// `horizon`, in order; none where the step is 0.
pub open spec fn substeps(from: int, horizon: int, step: int) -> Seq<i64>
    decreases horizon - from,
{
    if step <= 0 || from + step >= horizon {
        Seq::empty()
    } else {
        seq![(from + step) as i64] + substeps(from + step, horizon, step)
    }
}

/// Substeps lie strictly between the date they start from and the horizon.
pub proof fn lemma_substeps_between(from: int, horizon: int, step: int)
    requires
        i64::MIN <= from,
        horizon <= i64::MAX,
    ensures
        forall|j: int|
            0 <= j < substeps(from, horizon, step).len() ==> from < (#[trigger] substeps(
                from,
                horizon,
                step,
            )[j]) < horizon,
    decreases horizon - from,
{
    if step > 0 && from + step < horizon {
        lemma_substeps_between(from + step, horizon, step);
        let rest = substeps(from + step, horizon, step);
        let all = substeps(from, horizon, step);
        assert forall|j: int| 0 <= j < all.len() implies from < (#[trigger] all[j]) < horizon by {
            if j > 0 {
                assert(all[j] == rest[j - 1]);
            }
        }
    }
}

/// The dates that collation works on: those declared, then the substeps from
/// the spot date up to the latest of them.
pub open spec fn scheduled_dates(declared: Seq<i64>, spot: i64, step: u32) -> Seq<i64> {
    declared + substeps(spot as int, latest(declared) as int, step as int)
}

/// Substeps are never the first date before the spot date: where the
/// scheduled dates hold one, it is a declared date.
pub proof fn lemma_substeps_are_reachable(declared: Seq<i64>, spot: i64, step: u32, d: i64)
    requires
        first_before(scheduled_dates(declared, spot, step), spot, d),
    ensures
        first_before(declared, spot, d),
{
    let grid = substeps(spot as int, latest(declared) as int, step as int);
    let all = scheduled_dates(declared, spot, step);
    lemma_substeps_between(spot as int, latest(declared) as int, step as int);
    let k = choose|k: int|
        0 <= k < all.len() && #[trigger] all[k] == d && d < spot && none_before(all.take(k), spot);
    if k >= declared.len() {
        assert(all[k] == grid[k - declared.len()]);
    }
    assert(declared[k] == d);
    assert(all.take(k) == declared.take(k));
}

/// The latest date bounds every date, and is one of them where there is any.
pub proof fn lemma_latest_is_maximum(s: Seq<i64>)
    ensures
        forall|k: int| 0 <= k < s.len() ==> #[trigger] s[k] <= latest(s),
        s.len() > 0 ==> s.contains(latest(s)),
    decreases s.len(),
{
    if s.len() > 0 {
        let head = s.drop_last();
        lemma_latest_is_maximum(head);
        assert forall|k: int| 0 <= k < s.len() implies #[trigger] s[k] <= latest(s) by {
            if k < head.len() {
                assert(head[k] == s[k]);
            }
        }
        if s.last() > latest(head) || head.len() == 0 {
            assert(s[s.len() - 1] == latest(s));
        } else {
            let k = choose|k: int| 0 <= k < head.len() && head[k] == latest(head);
            assert(s[k] == latest(s));
        }
    }
}

/// From any date `x` short of the horizon, a substep or the horizon itself
/// lies at most one step ahead; the date found is returned.
pub proof fn lemma_next_within_step(from: int, horizon: i64, step: int, x: i64) -> (y: i64)
    requires
        step > 0,
        i64::MIN <= from <= x < horizon,
    ensures
        substeps(from, horizon as int, step).contains(y) || y == horizon,
        x < y <= x + step,
    decreases horizon - from,
{
    if from + step >= horizon {
        horizon
    } else if x < from + step {
        let y = (from + step) as i64;
        assert(substeps(from, horizon as int, step)[0] == y);
        y
    } else {
        let rest = substeps(from + step, horizon as int, step);
        let y = lemma_next_within_step(from + step, horizon, step, x);
        if rest.contains(y) {
            let k = choose|k: int| 0 <= k < rest.len() && rest[k] == y;
            assert(substeps(from, horizon as int, step)[k + 1] == y);
        }
        y
    }
}

/// Substeps bound the gaps: in the collation of declared dates and their
/// substeps, the first date is at most one step after the spot date, and each
/// later date at most one step after the date before it.
pub proof fn lemma_substeps_bound_gaps(schedule: Seq<i64>, declared: Seq<i64>, spot: i64, step: u32)
    requires
        step > 0,
        declared.len() > 0,
        none_before(declared, spot),
        strictly_increasing(schedule),
        same_dates(schedule, scheduled_dates(declared, spot, step)),
    ensures
        schedule.len() > 0,
        schedule[0] - spot <= step,
        forall|i: int| 0 <= i < schedule.len() - 1 ==> #[trigger] schedule[i + 1] - schedule[i] <= step,
{
    let horizon = latest(declared);
    let grid = substeps(spot as int, horizon as int, step as int);
    let all = scheduled_dates(declared, spot, step);
    lemma_latest_is_maximum(declared);
    lemma_substeps_between(spot as int, horizon as int, step as int);
    let top = choose|k: int| 0 <= k < declared.len() && declared[k] == horizon;
    assert(all[top] == horizon);
    assert(all.contains(horizon));
    assert(schedule.contains(horizon));
    assert(spot <= horizon);
    // every date of the schedule lies between the spot date and the horizon
    assert forall|i: int| 0 <= i < schedule.len() implies spot <= #[trigger] schedule[i]
        <= horizon by {
        assert(schedule.contains(schedule[i]));
        let k = choose|k: int| 0 <= k < all.len() && all[k] == schedule[i];
        if k < declared.len() {
            assert(all[k] == declared[k]);
        } else {
            assert(all[k] == grid[k - declared.len()]);
        }
    }
    // a date found by the lemma above is a date of the schedule
    assert forall|y: i64| grid.contains(y) || y == horizon implies schedule.contains(y) by {
        if grid.contains(y) {
            let k = choose|k: int| 0 <= k < grid.len() && grid[k] == y;
            assert(all[declared.len() + k] == y);
        }
    }
    if schedule[0] > spot {
        let y = lemma_next_within_step(spot as int, horizon, step as int, spot);
        let j = choose|j: int| 0 <= j < schedule.len() && schedule[j] == y;
        if j > 0 {
            assert(schedule[0] < schedule[j]);
        }
    }
    assert forall|i: int| 0 <= i < schedule.len() - 1 implies #[trigger] schedule[i + 1]
        - schedule[i] <= step by {
        let x = schedule[i];
        assert(schedule[i] < schedule[i + 1]);
        let y = lemma_next_within_step(spot as int, horizon, step as int, x);
        let j = choose|j: int| 0 <= j < schedule.len() && schedule[j] == y;
        if j <= i {
            if j < i {
                assert(schedule[j] < schedule[i]);
            }
        } else if j > i + 1 {
            assert(schedule[i + 1] < schedule[j]);
        }
    }
}

/// Collation has one outcome: two strictly increasing schedules that hold the
/// same dates are the same schedule.
pub proof fn lemma_collation_unique(a: Seq<i64>, b: Seq<i64>)
    requires
        strictly_increasing(a),
        strictly_increasing(b),
        same_dates(a, b),
    ensures
        a == b,
    decreases a.len(),
{
    if a.len() == 0 {
        if b.len() > 0 {
            assert(b.contains(b[0]));
            assert(a.contains(b[0]));
        }
        assert(a =~= b);
    } else {
        let la = a.last();
        assert(a.contains(la));
        assert(b.contains(la));
        let lb = b.last();
        assert(b.contains(lb));
        assert(a.contains(lb));
        let k = choose|k: int| 0 <= k < b.len() && b[k] == la;
        let m = choose|m: int| 0 <= m < a.len() && a[m] == lb;
        assert(la <= lb) by {
            if k < b.len() - 1 {
                assert(b[k] < b[b.len() - 1]);
            }
        }
        assert(lb <= la) by {
            if m < a.len() - 1 {
                assert(a[m] < a[a.len() - 1]);
            }
        }
        let a0 = a.drop_last();
        let b0 = b.drop_last();
        assert forall|x: i64| a0.contains(x) <==> b0.contains(x) by {
            if a0.contains(x) {
                let i = choose|i: int| 0 <= i < a0.len() && a0[i] == x;
                assert(a[i] == x);
                assert(a[i] < a[a.len() - 1]);
                assert(a.contains(x));
                let j = choose|j: int| 0 <= j < b.len() && b[j] == x;
                assert(b0[j] == x);
            }
            if b0.contains(x) {
                let j = choose|j: int| 0 <= j < b0.len() && b0[j] == x;
                assert(b[j] == x);
                assert(b[j] < b[b.len() - 1]);
                assert(b.contains(x));
                let i = choose|i: int| 0 <= i < a.len() && a[i] == x;
                assert(a0[i] == x);
            }
        }
        assert(strictly_increasing(a0)) by {
            assert forall|i: int, j: int| 0 <= i < j < a0.len() implies a0[i] < a0[j] by {
                assert(a[i] < a[j]);
            }
        }
        assert(strictly_increasing(b0)) by {
            assert forall|i: int, j: int| 0 <= i < j < b0.len() implies b0[i] < b0[j] by {
                assert(b[i] < b[j]);
            }
        }
        lemma_collation_unique(a0, b0);
        assert(a =~= a0.push(la));
        assert(b =~= b0.push(lb));
    }
}

/// Inserts `d` at its place in a strictly increasing vector, unless it is there already.
fn insert_sorted(v: &mut Vec<i64>, d: i64)
    requires
        strictly_increasing(old(v)@),
    ensures
        strictly_increasing(final(v)@),
        forall|x: i64| final(v)@.contains(x) <==> (old(v)@.contains(x) || x == d),
{
    let mut i: usize = 0;
    while i < v.len() && v[i] < d
        invariant
            i <= v.len(),
            v@ == old(v)@,
            forall|k: int| 0 <= k < i ==> v@[k] < d,
        decreases v.len() - i,
    {
        i += 1;
    }
    if i < v.len() && v[i] == d {
        assert(v@.contains(d));
        return ;
    }
    let ghost a = v@;
    v.insert(i, d);
    proof {
        let b = v@;
        a.insert_ensures(i as int, d);
        assert(forall|k: int| i <= k < a.len() ==> a[k] > d) by {
            assert forall|k: int| i <= k < a.len() implies a[k] > d by {
                if k > i {
                    assert(a[i as int] < a[k]);
                }
            }
        }
        assert forall|p: int, q: int| 0 <= p < q < b.len() implies b[p] < b[q] by {
            if q < i {
                assert(b[p] == a[p] && b[q] == a[q]);
            } else if q == i {
                assert(b[p] == a[p]);
            } else {
                assert(b[q] == a[q - 1]);
                if p < i {
                    assert(b[p] == a[p]);
                } else if p > i {
                    assert(b[p] == a[p - 1]);
                }
            }
        }
        assert forall|x: i64| b.contains(x) <==> (a.contains(x) || x == d) by {
            if b.contains(x) {
                let k = choose|k: int| 0 <= k < b.len() && b[k] == x;
                if k < i {
                    assert(a[k] == x);
                } else if k > i {
                    assert(a[k - 1] == x);
                }
            }
            if a.contains(x) {
                let k = choose|k: int| 0 <= k < a.len() && a[k] == x;
                if k < i {
                    assert(b[k] == x);
                } else {
                    assert(b[k + 1] == x);
                }
            }
            if x == d {
                assert(b[i as int] == x);
            }
        }
    }
}

/// The dates at which some instrument needs an observation, with the spot date
/// from which they must be reachable.
#[derive(Debug)]
pub struct Timeline {
    spot_date: i64,
    dates: Vec<i64>,
    collated: bool,
}

impl View for Timeline {
    type V = Seq<i64>;

    /// The dates held: as declared before collation, the schedule after it.
    closed spec fn view(&self) -> Seq<i64> {
        self.dates@
    }
}

impl Timeline {
    /// The spot date that the timeline was made with.
    pub closed spec fn spot(&self) -> i64 {
        self.spot_date
    }

    /// Whether the timeline has been collated.
    pub closed spec fn frozen(&self) -> bool {
        self.collated
    }

    /// A collated timeline is a non-empty strictly increasing schedule that
    /// starts no earlier than the spot date.
    pub open spec fn wf(&self) -> bool {
        self.frozen() ==> self@.len() > 0 && strictly_increasing(self@) && none_before(
            self@,
            self.spot(),
        )
    }

    /// An empty timeline that accepts dates.
    pub fn new(spot_date: i64) -> (t: Timeline)
        ensures
            t.spot() == spot_date,
            t@ == Seq::<i64>::empty(),
            !t.frozen(),
            t.wf(),
    {
        Timeline { spot_date, dates: Vec::new(), collated: false }
    }

    /// The spot date that the timeline was made with.
    pub fn spot_date(&self) -> (d: i64)
        ensures
            d == self.spot(),
    {
        self.spot_date
    }

    /// Whether the timeline has been collated.
    pub fn is_collated(&self) -> (b: bool)
        ensures
            b == self.frozen(),
    {
        self.collated
    }

    /// The dates held, in order.
    pub fn dates(&self) -> (d: &Vec<i64>)
        ensures
            d@ == self@,
    {
        &self.dates
    }

    /// How many dates are held.
    pub fn len(&self) -> (n: usize)
        ensures
            n == self@.len(),
    {
        self.dates.len()
    }

    /// Whether `date` is among the dates held.
    pub fn contains(&self, date: i64) -> (b: bool)
        ensures
            b == self@.contains(date),
    {
        let mut i: usize = 0;
        while i < self.dates.len()
            invariant
                i <= self.dates.len(),
                forall|k: int| 0 <= k < i ==> self.dates@[k] != date,
            decreases self.dates.len() - i,
        {
            if self.dates[i] == date {
                return true;
            }
            i += 1;
        }
        false
    }

    /// Declares one date. A collated timeline refuses it and stays as it is.
    pub fn add_date(&mut self, date: i64) -> (r: Result<(), TimelineError>)
        ensures
            match r {
                Ok(_) => !old(self).frozen() && final(self)@ == old(self)@.push(date)
                    && final(self).spot() == old(self).spot() && !final(self).frozen(),
                Err(e) => old(self).frozen() && e == TimelineError::Frozen && *final(self) == *old(
                    self,
                ),
            },
    {
        if self.collated {
            return Err(TimelineError::Frozen);
        }
        self.dates.push(date);
        Ok(())
    }

    /// Declares every date of `dates`, in order. A collated timeline refuses
    /// them all and stays as it is.
    pub fn add_dates(&mut self, dates: &Vec<i64>) -> (r: Result<(), TimelineError>)
        ensures
            match r {
                Ok(_) => !old(self).frozen() && final(self)@ == old(self)@ + dates@
                    && final(self).spot() == old(self).spot() && !final(self).frozen(),
                Err(e) => old(self).frozen() && e == TimelineError::Frozen && *final(self) == *old(
                    self,
                ),
            },
    {
        if self.collated {
            return Err(TimelineError::Frozen);
        }
        let mut i: usize = 0;
        while i < dates.len()
            invariant
                i <= dates.len(),
                !self.collated,
                self.spot_date == old(self).spot_date,
                self.dates@ == old(self).dates@ + dates@.take(i as int),
            decreases dates.len() - i,
        {
            self.dates.push(dates[i]);
            proof {
                assert(dates@.take(i as int + 1) == dates@.take(i as int).push(dates@[i as int]));
                assert(self.dates@ == old(self).dates@ + dates@.take(i as int + 1));
            }
            i += 1;
        }
        proof {
            assert(dates@.take(dates@.len() as int) == dates@);
        }
        Ok(())
    }

    /// Declares the substeps of the timeline: the dates a whole number of
    /// `step` days after the spot date and before the latest date declared so
    /// far. A step of 0 declares nothing. A collated timeline refuses and
    /// stays as it is.
    pub fn add_substeps(&mut self, step: u32) -> (r: Result<(), TimelineError>)
        ensures
            match r {
                Ok(_) => !old(self).frozen() && final(self)@ == old(self)@ + substeps(
                    old(self).spot() as int,
                    latest(old(self)@) as int,
                    step as int,
                ) && final(self).spot() == old(self).spot() && !final(self).frozen(),
                Err(e) => old(self).frozen() && e == TimelineError::Frozen && *final(self) == *old(
                    self,
                ),
            },
    {
        if self.collated {
            return Err(TimelineError::Frozen);
        }
        let mut horizon: i64 = i64::MIN;
        let mut i: usize = 0;
        while i < self.dates.len()
            invariant
                i <= self.dates.len(),
                *self == *old(self),
                horizon == latest(self.dates@.take(i as int)),
            decreases self.dates.len() - i,
        {
            proof {
                let next = self.dates@.take(i as int + 1);
                assert(next.drop_last() == self.dates@.take(i as int));
                assert(next.last() == self.dates@[i as int]);
            }
            if self.dates[i] > horizon {
                horizon = self.dates[i];
            }
            i += 1;
        }
        proof {
            assert(self.dates@.take(self.dates@.len() as int) == self.dates@);
        }
        let ghost all = substeps(self.spot_date as int, horizon as int, step as int);
        let mut cur: i64 = self.spot_date;
        if step == 0 {
            assert(self.dates@ + all == self.dates@);
            return Ok(());
        }
        while (horizon as i128) - (cur as i128) > (step as i128)
            invariant
                step > 0,
                !self.collated,
                self.spot_date == old(self).spot_date,
                self.dates@ + substeps(cur as int, horizon as int, step as int) == old(self).dates@
                    + all,
            decreases horizon - cur,
        {
            let next: i64 = cur + (step as i64);
            let ghost before = self.dates@;
            self.dates.push(next);
            proof {
                let rest = substeps(next as int, horizon as int, step as int);
                assert(substeps(cur as int, horizon as int, step as int) == seq![next] + rest);
                assert(before.push(next) + rest == before + (seq![next] + rest));
            }
            cur = next;
        }
        proof {
            assert(substeps(cur as int, horizon as int, step as int) == Seq::<i64>::empty());
            assert(self.dates@ + Seq::<i64>::empty() == self.dates@);
        }
        Ok(())
    }

    /// Freezes the timeline: the declared dates, sorted, each held once.
    ///
    /// Fails, and leaves the timeline as it was, where no date was declared or
    /// where a declared date lies before the spot date. Collating a collated
    /// timeline changes nothing.
    pub fn collate(&mut self) -> (r: Result<(), TimelineError>)
        ensures
            match r {
                Ok(_) => {
                    &&& old(self)@.len() > 0
                    &&& none_before(old(self)@, old(self).spot())
                    &&& final(self).frozen()
                    &&& final(self).spot() == old(self).spot()
                    &&& strictly_increasing(final(self)@)
                    &&& same_dates(final(self)@, old(self)@)
                    &&& final(self).wf()
                },
                Err(TimelineError::Empty) => old(self)@.len() == 0 && *final(self) == *old(self),
                Err(TimelineError::Unreachable(d)) => old(self)@.len() > 0 && first_before(
                    old(self)@,
                    old(self).spot(),
                    d,
                ) && *final(self) == *old(self),
                Err(TimelineError::Frozen) => false,
            },
    {
        if self.dates.len() == 0 {
            return Err(TimelineError::Empty);
        }
        let mut k: usize = 0;
        while k < self.dates.len()
            invariant
                k <= self.dates.len(),
                *self == *old(self),
                none_before(self.dates@.take(k as int), self.spot_date),
            decreases self.dates.len() - k,
        {
            let d: i64 = self.dates[k];
            if d < self.spot_date {
                proof {
                    assert(self.dates@[k as int] == d);
                }
                return Err(TimelineError::Unreachable(d));
            }
            proof {
                let s = self.dates@;
                let t = s.take(k as int + 1);
                assert forall|j: int| 0 <= j < t.len() implies #[trigger] t[j]
                    >= self.spot_date by {
                    if j < k {
                        assert(s.take(k as int)[j] == s[j]);
                    }
                }
            }
            k += 1;
        }
        proof {
            assert(self.dates@.take(self.dates@.len() as int) == self.dates@);
        }
        let mut sorted: Vec<i64> = Vec::new();
        let mut i: usize = 0;
        while i < self.dates.len()
            invariant
                i <= self.dates.len(),
                *self == *old(self),
                strictly_increasing(sorted@),
                same_dates(sorted@, self.dates@.take(i as int)),
            decreases self.dates.len() - i,
        {
            let d: i64 = self.dates[i];
            insert_sorted(&mut sorted, d);
            proof {
                let t0 = self.dates@.take(i as int);
                let t1 = self.dates@.take(i as int + 1);
                assert(t1 == t0.push(d));
                assert forall|x: i64| sorted@.contains(x) <==> t1.contains(x) by {
                    if t1.contains(x) {
                        let j = choose|j: int| 0 <= j < t1.len() && t1[j] == x;
                        if j < i {
                            assert(t0[j] == x);
                        }
                    }
                    if t0.contains(x) {
                        let j = choose|j: int| 0 <= j < t0.len() && t0[j] == x;
                        assert(t1[j] == x);
                    }
                    if x == d {
                        assert(t1[i as int] == x);
                    }
                }
            }
            i += 1;
        }
        proof {
            let s = self.dates@;
            assert(s.take(s.len() as int) == s);
            assert(sorted@.contains(s[0]));
            assert forall|j: int| 0 <= j < sorted@.len() implies sorted@[j] >= self.spot_date by {
                assert(sorted@.contains(sorted@[j]));
                let m = choose|m: int| 0 <= m < s.len() && s[m] == sorted@[j];
            }
        }
        self.dates = sorted;
        self.collated = true;
        Ok(())
    }
}

} // verus!
