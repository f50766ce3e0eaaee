//! The admission decision engine: one decision per received frame.
//!
//! A frame is parsed, its source address is looked up in the blocklist, and
//! a packet that is not banned is counted by the rate limiter. Every frame
//! that gets a verdict is counted once, on the lane that judged it, under
//! that verdict. A frame that cannot be judged changes nothing.
//!
//! The decision is written twice over the same stages. `try_xdp_api_guard`
//! and `xdp_api_guard` run them on a `Guard`, whose tables are in memory.
//! A caller whose tables live elsewhere walks through the `Stage`s itself:
//! it begins with `start`, does the lookup that each stage names, and hands
//! the answer to the function for that stage, until the frame is `Judged`
//! or `Aborted`.

use vstd::prelude::*;
use crate::blocklist::Blocklist;
use crate::frame::source_address;
use crate::frame::spec_source_address;
use crate::rate_limit::can_count;
use crate::rate_limit::has_room;
use crate::rate_limit::next_window;
use crate::rate_limit::spec_check;
use crate::rate_limit::spec_lookup;
use crate::rate_limit::spec_next_window;
use crate::rate_limit::spec_verdict;
use crate::rate_limit::spec_windows_after;
use crate::rate_limit::PacketLog;
use crate::rate_limit::RateLimiter;
use crate::rate_limit::RATE_LIMIT_CAPACITY;
use crate::stats::spec_can_count;
use crate::stats::spec_counted;
use crate::stats::LaneCounters;
use crate::stats::Stats;
use crate::verdict::action_of;
use crate::verdict::spec_action_of;
use crate::verdict::GuardError;
use crate::verdict::Verdict;

verus! {

/// The tables that the engine works on.
pub struct Guard {
    /// The banned source addresses. The engine only reads them.
    pub blocklist: Blocklist,
    /// The window of each source address seen.
    pub rate_limit: RateLimiter,
    /// The decision counters of each lane.
    pub stats: Stats,
}

/// What the tables of a guard hold.
pub struct GuardState {
    /// The banned source addresses.
    pub blocklist: Set<u32>,
    /// The window of each source address seen.
    pub windows: Map<u32, PacketLog>,
    /// The decision counters of each lane.
    pub stats: Seq<LaneCounters>,
}

/// The source address that the rate limiter is asked about for `frame`: that
/// of an IPv4 frame whose source is not banned.
pub open spec fn spec_rated_source(blocklist: Set<u32>, frame: Seq<u8>) -> Option<u32> {
    match spec_source_address(frame) {
        Ok(Some(source)) if !blocklist.contains(source) => Some(source),
        _ => None,
    }
}

/// The outcome of the decision on `frame` at time `now`:
/// a frame that ends inside a header it announces is `Truncated`;
/// a frame that is not IPv4 passes;
/// a frame from a banned source is dropped;
/// any other frame gets what the rate limiter answers.
pub open spec fn spec_outcome(state: GuardState, frame: Seq<u8>, now: u64) -> Result<
    Verdict,
    GuardError,
> {
    match spec_source_address(frame) {
        Err(error) => Err(error),
        Ok(None) => Ok(Verdict::Pass),
        Ok(Some(source)) => if state.blocklist.contains(source) {
            Ok(Verdict::Drop)
        } else {
            spec_check(state.windows, source, now)
        },
    }
}

/// What the tables hold after lane `lane` has decided on `frame` at time
/// `now`: the blocklist as before, the windows as the rate limiter leaves
/// them if it was asked, and the verdict counted once on that lane.
pub open spec fn spec_step(state: GuardState, lane: int, frame: Seq<u8>, now: u64) -> GuardState {
    GuardState {
        blocklist: state.blocklist,
        windows: match spec_rated_source(state.blocklist, frame) {
            Some(source) => spec_windows_after(state.windows, source, now),
            None => state.windows,
        },
        stats: match spec_outcome(state, frame, now) {
            Ok(verdict) => spec_counted(state.stats, lane, verdict),
            Err(_) => state.stats,
        },
    }
}

/// Whether lane `lane` exists and the counters that a decision on `frame`
/// at time `now` raises can hold the new counts.
pub open spec fn can_step(state: GuardState, lane: int, frame: Seq<u8>, now: u64) -> bool {
    &&& 0 <= lane < state.stats.len()
    &&& match spec_rated_source(state.blocklist, frame) {
        Some(source) => can_count(spec_lookup(state.windows, source), now),
        None => true,
    }
    &&& match spec_outcome(state, frame, now) {
        Ok(verdict) => spec_can_count(state.stats, lane, verdict),
        Err(_) => true,
    }
}

impl Guard {
    /// What the tables hold.
    pub open spec fn view(&self) -> GuardState {
        GuardState {
            blocklist: self.blocklist@,
            windows: self.rate_limit@,
            stats: self.stats@,
        }
    }

    /// A guard with an empty blocklist, no windows, and counters for `lanes`
    /// lanes at zero.
    pub fn new(lanes: usize) -> (guard: Self)
        ensures
            guard@.blocklist == Set::<u32>::empty(),
            guard@.windows == Map::<u32, PacketLog>::empty(),
            guard@.stats == Seq::new(lanes as nat, |lane: int| LaneCounters { drop: 0, pass: 0 }),
    {
        Guard { blocklist: Blocklist::new(), rate_limit: RateLimiter::new(), stats: Stats::new(lanes) }
    }

    /// Whether lane `lane` exists and the counters that a decision on
    /// `frame` at time `now` raises can hold the new counts: what
    /// `try_xdp_api_guard` and `xdp_api_guard` require.
    pub fn can_decide(&self, lane: usize, frame: &[u8], now: u64) -> (ready: bool)
        ensures
            ready == can_step(self@, lane as int, frame@, now),
    {
        if lane >= self.stats.lanes() {
            return false;
        }
        let counters = self.stats.lane(lane);
        match source_address(frame) {
            Err(_) => true,
            Ok(None) => counters.pass < u64::MAX,
            Ok(Some(source)) => {
                if self.blocklist.contains(source) {
                    return counters.drop < u64::MAX;
                }
                let previous = self.rate_limit.get(source);
                if !has_room(previous, now) {
                    return false;
                }
                if previous.is_none() && self.rate_limit.len() >= RATE_LIMIT_CAPACITY {
                    return true;
                }
                counters.get(next_window(previous, now).verdict()) < u64::MAX
            },
        }
    }
}

/// Where the decision on one frame stands: what the engine needs from the
/// tables next, or how the decision ended.
#[derive(Clone, Copy, Debug, PartialEq, Eq, Structural)]
pub enum Stage {
    /// The frame is IPv4: `source` is to be looked up in the blocklist.
    BlocklistCheck { source: u32 },
    /// The source is not banned: the clock and the window of `source` are
    /// to be read.
    RateLimitCheck { source: u32 },
    /// The packet is counted: `log` is to be stored as the window of
    /// `source`.
    Store { source: u32, log: PacketLog },
    /// The frame has its verdict, which its lane counts once.
    Judged { verdict: Verdict },
    /// The frame could not be judged. Nothing is counted.
    Aborted { error: GuardError },
}

/// The stage that the headers of `frame` lead to: a frame that ends inside a
/// header it announces is not judged, a frame that is not IPv4 passes, and
/// the source of an IPv4 frame goes to the blocklist.
pub open spec fn spec_start(frame: Seq<u8>) -> Stage {
    match spec_source_address(frame) {
        Err(error) => Stage::Aborted { error },
        Ok(None) => Stage::Judged { verdict: Verdict::Pass },
        Ok(Some(source)) => Stage::BlocklistCheck { source },
    }
}

/// The stage after the blocklist was asked about `source`: a banned source
/// is dropped, any other goes to the rate limiter.
pub open spec fn spec_after_blocklist(source: u32, banned: bool) -> Stage {
    if banned {
        Stage::Judged { verdict: Verdict::Drop }
    } else {
        Stage::RateLimitCheck { source }
    }
}

/// The stage after the window of `source` was read at time `now`: the
/// window that counts this packet is to be stored.
pub open spec fn spec_after_window(source: u32, previous: Option<PacketLog>, now: u64) -> Stage {
    Stage::Store { source, log: spec_next_window(previous, now) }
}

/// The stage after the table was asked to store `log`: the packet has the
/// verdict of its window, or is not judged where the table refused.
pub open spec fn spec_after_store(log: PacketLog, stored: Result<(), GuardError>) -> Stage {
    match stored {
        Ok(_) => Stage::Judged { verdict: spec_verdict(log) },
        Err(error) => Stage::Aborted { error },
    }
}

/// Parses `frame` and names the first stage of its decision.
pub fn start(frame: &[u8]) -> (stage: Stage)
    ensures
        stage == spec_start(frame@),
{
    match source_address(frame) {
        Err(error) => Stage::Aborted { error },
        Ok(None) => Stage::Judged { verdict: Verdict::Pass },
        Ok(Some(source)) => Stage::BlocklistCheck { source },
    }
}

/// The stage after the blocklist was asked about `source` and answered
/// `banned`.
pub fn after_blocklist(source: u32, banned: bool) -> (stage: Stage)
    ensures
        stage == spec_after_blocklist(source, banned),
{
    if banned {
        Stage::Judged { verdict: Verdict::Drop }
    } else {
        Stage::RateLimitCheck { source }
    }
}

/// The stage after the clock read `now` and the table gave `previous` as
/// the window of `source`.
pub fn after_window(source: u32, previous: Option<PacketLog>, now: u64) -> (stage: Stage)
    requires
        can_count(previous, now),
    ensures
        stage == spec_after_window(source, previous, now),
{
    Stage::Store { source, log: next_window(previous, now) }
}

/// The stage after the table answered `stored` to the request to store
/// `log`.
pub fn after_store(log: PacketLog, stored: Result<(), GuardError>) -> (stage: Stage)
    ensures
        stage == spec_after_store(log, stored),
{
    match stored {
        Ok(_) => Stage::Judged { verdict: log.verdict() },
        Err(error) => Stage::Aborted { error },
    }
}

/// Decides on `frame`, received by lane `lane` at time `now`, and counts the
/// verdict. An error leaves the tables as they were.
pub fn try_xdp_api_guard(guard: &mut Guard, lane: usize, frame: &[u8], now: u64) -> (outcome:
    Result<Verdict, GuardError>)
    requires
        can_step(old(guard)@, lane as int, frame@, now),
    ensures
        outcome == spec_outcome(old(guard)@, frame@, now),
        final(guard)@ == spec_step(old(guard)@, lane as int, frame@, now),
{
    let mut stage = start(frame);
    if let Stage::BlocklistCheck { source } = stage {
        stage = after_blocklist(source, guard.blocklist.contains(source));
    }
    if let Stage::RateLimitCheck { source } = stage {
        stage = after_window(source, guard.rate_limit.get(source), now);
    }
    if let Stage::Store { source, log } = stage {
        stage = after_store(log, guard.rate_limit.store(source, log));
    }
    match stage {
        Stage::Judged { verdict } => {
            guard.stats.increment(lane, verdict);
            Ok(verdict)
        },
        Stage::Aborted { error } => Err(error),
        _ => unreached(),
    }
}

/// The action for `frame`, received by lane `lane` at time `now`:
/// `XDP_PASS` or `XDP_DROP` as the engine decides, `XDP_ABORTED` where it
/// cannot decide. The guard fails closed: a frame that is cut short, and a
/// frame of a new source that finds the rate limiter full, is never passed.
pub fn xdp_api_guard(guard: &mut Guard, lane: usize, frame: &[u8], now: u64) -> (action: u32)
    requires
        can_step(old(guard)@, lane as int, frame@, now),
    ensures
        action == spec_action_of(spec_outcome(old(guard)@, frame@, now)),
        final(guard)@ == spec_step(old(guard)@, lane as int, frame@, now),
{
    action_of(try_xdp_api_guard(guard, lane, frame, now))
}

} // verus!
