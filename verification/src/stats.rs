//! The stats aggregator: one pair of decision counters per lane, written by
//! that lane alone and summed by whoever reads them.

use vstd::prelude::*;
use crate::verdict::Verdict;

verus! {

/// The decision counters of one lane.
#[derive(Clone, Copy, Debug, PartialEq, Eq, Structural)]
pub struct LaneCounters {
    /// Frames this lane has dropped.
    pub drop: u64,
    /// Frames this lane has passed.
    pub pass: u64,
}

impl LaneCounters {
    /// The counter of `verdict`.
    pub open spec fn of(self, verdict: Verdict) -> u64 {
        match verdict {
            Verdict::Drop => self.drop,
            Verdict::Pass => self.pass,
        }
    }

    /// These counters after one more frame with `verdict`.
    pub open spec fn counted(self, verdict: Verdict) -> LaneCounters
        recommends
            self.of(verdict) < u64::MAX,
    {
        match verdict {
            Verdict::Drop => LaneCounters { drop: (self.drop + 1) as u64, pass: self.pass },
            Verdict::Pass => LaneCounters { drop: self.drop, pass: (self.pass + 1) as u64 },
        }
    }

    /// The counter of `verdict`.
    pub fn get(&self, verdict: Verdict) -> (count: u64)
        ensures
            count == self.of(verdict),
    {
        match verdict {
            Verdict::Drop => self.drop,
            Verdict::Pass => self.pass,
        }
    }
}

/// Whether lane `lane` exists in `stats` and its counter of `verdict` can be
/// raised.
pub open spec fn spec_can_count(stats: Seq<LaneCounters>, lane: int, verdict: Verdict) -> bool {
    0 <= lane < stats.len() && stats[lane].of(verdict) < u64::MAX
}

/// The counters after lane `lane` has counted one frame with `verdict`: one
/// counter of that lane is one higher, and all else is as it was.
pub open spec fn spec_counted(stats: Seq<LaneCounters>, lane: int, verdict: Verdict) -> Seq<
    LaneCounters,
>
    recommends
        spec_can_count(stats, lane, verdict),
{
    stats.update(lane, stats[lane].counted(verdict))
}

/// What each lane has counted for `verdict`, lane by lane.
pub open spec fn spec_per_lane(stats: Seq<LaneCounters>, verdict: Verdict) -> Seq<u64> {
    Seq::new(stats.len(), |lane: int| stats[lane].of(verdict))
}

/// The sum of `values`.
pub open spec fn spec_total(values: Seq<u64>) -> nat
    decreases values.len(),
{
    if values.len() == 0 {
        0
    } else {
        spec_total(values.drop_last()) + values.last() as nat
    }
}

/// A sum of `values` is at most as many times `u64::MAX` as there are
/// values.
pub proof fn lemma_total_bound(values: Seq<u64>)
    ensures
        spec_total(values) <= values.len() * u64::MAX,
    decreases values.len(),
{
    if values.len() > 0 {
        lemma_total_bound(values.drop_last());
        assert(values.len() * u64::MAX == values.drop_last().len() * u64::MAX + u64::MAX)
            by (nonlinear_arith)
            requires
                values.drop_last().len() == values.len() - 1,
        ;
    }
}

/// Raising one value by one raises the sum by one.
pub proof fn lemma_total_update(values: Seq<u64>, lane: int)
    requires
        0 <= lane < values.len(),
        values[lane] < u64::MAX,
    ensures
        spec_total(values.update(lane, (values[lane] + 1) as u64)) == spec_total(values) + 1,
    decreases values.len(),
{
    let raised = values.update(lane, (values[lane] + 1) as u64);
    if lane == values.len() - 1 {
        assert(raised.drop_last() == values.drop_last());
    } else {
        lemma_total_update(values.drop_last(), lane);
        assert(raised.drop_last() == values.drop_last().update(
            lane,
            (values[lane] + 1) as u64,
        ));
    }
}

/// The sum of `values`, as the reader of per-lane counters forms it.
pub fn total(values: &[u64]) -> (sum: u128)
    ensures
        sum == spec_total(values@),
{
    let mut sum: u128 = 0;
    let mut lane: usize = 0;
    while lane < values.len()
        invariant
            lane <= values@.len(),
            sum == spec_total(values@.take(lane as int)),
        decreases values@.len() - lane,
    {
        proof {
            let next = values@.take(lane + 1);
            assert(next.drop_last() == values@.take(lane as int));
            lemma_total_bound(values@.take(lane as int));
            assert(lane * u64::MAX + u64::MAX <= u128::MAX) by (nonlinear_arith)
                requires
                    lane <= usize::MAX,
                    usize::MAX <= u64::MAX,
            ;
        }
        sum = sum + values[lane] as u128;
        lane = lane + 1;
    }
    proof {
        assert(values@.take(lane as int) == values@);
    }
    sum
}

/// The decision counters of all lanes.
pub struct Stats {
    lanes: Vec<LaneCounters>,
}

impl Stats {
    /// The counters of each lane.
    pub closed spec fn view(&self) -> Seq<LaneCounters> {
        self.lanes@
    }

    /// Counters for `lanes` lanes, all at zero.
    pub fn new(lanes: usize) -> (stats: Self)
        ensures
            stats@ == Seq::new(lanes as nat, |lane: int| LaneCounters { drop: 0, pass: 0 }),
    {
        let mut counters: Vec<LaneCounters> = Vec::new();
        let mut lane: usize = 0;
        while lane < lanes
            invariant
                lane <= lanes,
                counters@ == Seq::new(lane as nat, |lane: int| LaneCounters { drop: 0, pass: 0 }),
            decreases lanes - lane,
        {
            counters.push(LaneCounters { drop: 0, pass: 0 });
            lane = lane + 1;
        }
        Stats { lanes: counters }
    }

    /// The number of lanes.
    pub fn lanes(&self) -> (count: usize)
        ensures
            count == self@.len(),
    {
        self.lanes.len()
    }

    /// The counters of lane `lane`.
    pub fn lane(&self, lane: usize) -> (counters: LaneCounters)
        requires
            lane < self@.len(),
        ensures
            counters == self@[lane as int],
    {
        self.lanes[lane]
    }

    /// Counts one frame with `verdict` on lane `lane`. No other lane and no
    /// other counter changes.
    pub fn increment(&mut self, lane: usize, verdict: Verdict)
        requires
            spec_can_count(old(self)@, lane as int, verdict),
        ensures
            final(self)@ == spec_counted(old(self)@, lane as int, verdict),
    {
        let counters = self.lanes[lane];
        let counted = match verdict {
            Verdict::Drop => LaneCounters { drop: counters.drop + 1, pass: counters.pass },
            Verdict::Pass => LaneCounters { drop: counters.drop, pass: counters.pass + 1 },
        };
        self.lanes.set(lane, counted);
    }

    /// What each lane has counted for `verdict`, lane by lane.
    pub fn get(&self, verdict: Verdict) -> (values: Vec<u64>)
        ensures
            values@ == spec_per_lane(self@, verdict),
    {
        let mut values: Vec<u64> = Vec::new();
        let mut lane: usize = 0;
        while lane < self.lanes.len()
            invariant
                lane <= self.lanes@.len(),
                values@ == spec_per_lane(self.lanes@.take(lane as int), verdict),
            decreases self.lanes@.len() - lane,
        {
            values.push(self.lanes[lane].get(verdict));
            lane = lane + 1;
        }
        proof {
            assert(self.lanes@.take(lane as int) == self.lanes@);
        }
        values
    }
}

} // verus!
