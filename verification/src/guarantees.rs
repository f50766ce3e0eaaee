//! What holds of the guard on every input: statements about the decision,
//! the tables and the counters, each proved from the definitions that the
//! contracts of the library are written in.

use vstd::prelude::*;
use crate::blocklist::spec_insert;
use crate::blocklist::BLOCKLIST_CAPACITY;
use crate::blocklist::spec_insert_result;
use crate::engine::can_step;
use crate::engine::spec_outcome;
use crate::engine::spec_rated_source;
use crate::engine::spec_step;
use crate::engine::GuardState;
use crate::frame::spec_ether_type;
use crate::frame::spec_source_address;
use crate::frame::ETHERTYPE_IPV4;
use crate::frame::ETH_HDR_LEN;
use crate::rate_limit::spec_check;
use crate::rate_limit::spec_lookup;
use crate::rate_limit::spec_next_window;
use crate::rate_limit::spec_table_full;
use crate::rate_limit::spec_verdict;
use crate::rate_limit::spec_windows_after;
use crate::rate_limit::window_expired;
use crate::rate_limit::PacketLog;
use crate::rate_limit::LIMIT;
use crate::rate_limit::RATE_LIMIT_CAPACITY;
use crate::stats::lemma_total_update;
use crate::stats::spec_can_count;
use crate::stats::spec_counted;
use crate::stats::spec_per_lane;
use crate::stats::spec_total;
use crate::verdict::spec_action_of;
use crate::verdict::GuardError;
use crate::verdict::Verdict;
use crate::verdict::XDP_ABORTED;

verus! {

/// A frame shorter than an Ethernet header is never judged: the action is
/// `XDP_ABORTED` and no table changes.
pub proof fn lemma_short_frame_aborts(state: GuardState, lane: int, frame: Seq<u8>, now: u64)
    requires
        frame.len() < ETH_HDR_LEN,
    ensures
        spec_outcome(state, frame, now) == Err::<Verdict, GuardError>(GuardError::Truncated),
        spec_action_of(spec_outcome(state, frame, now)) == XDP_ABORTED,
        spec_step(state, lane, frame, now) == state,
{
}

/// A frame with a whole Ethernet header whose protocol is not IPv4 passes,
/// whatever the blocklist and the rate limiter hold, and leaves both as
/// they were. It is counted as passed on its lane.
pub proof fn lemma_other_protocol_passes(state: GuardState, lane: int, frame: Seq<u8>, now: u64)
    requires
        frame.len() >= ETH_HDR_LEN,
        spec_ether_type(frame) != ETHERTYPE_IPV4,
    ensures
        spec_outcome(state, frame, now) == Ok::<Verdict, GuardError>(Verdict::Pass),
        spec_step(state, lane, frame, now).blocklist == state.blocklist,
        spec_step(state, lane, frame, now).windows == state.windows,
        spec_step(state, lane, frame, now).stats == spec_counted(state.stats, lane, Verdict::Pass),
{
}

/// A frame from a banned source is dropped whatever the rate limiter holds.
/// The drop counter of its lane goes up by exactly one, and no window and no
/// other counter changes.
pub proof fn lemma_banned_source_drops(
    state: GuardState,
    lane: int,
    frame: Seq<u8>,
    now: u64,
    source: u32,
)
    requires
        spec_source_address(frame) == Ok::<Option<u32>, GuardError>(Some(source)),
        state.blocklist.contains(source),
        spec_can_count(state.stats, lane, Verdict::Drop),
    ensures
        spec_outcome(state, frame, now) == Ok::<Verdict, GuardError>(Verdict::Drop),
        spec_step(state, lane, frame, now).blocklist == state.blocklist,
        spec_step(state, lane, frame, now).windows == state.windows,
        spec_step(state, lane, frame, now).stats.len() == state.stats.len(),
        spec_step(state, lane, frame, now).stats[lane].drop == state.stats[lane].drop + 1,
        spec_step(state, lane, frame, now).stats[lane].pass == state.stats[lane].pass,
        forall|other: int|
            0 <= other < state.stats.len() && other != lane ==> spec_step(
                state,
                lane,
                frame,
                now,
            ).stats[other] == state.stats[other],
{
}

/// Banning an address twice is banning it once: the second insert answers
/// as the first did and changes nothing, and after a first insert that
/// succeeded the address is banned.
pub proof fn lemma_insert_twice(banned: Set<u32>, addr: u32)
    ensures
        spec_insert(spec_insert(banned, addr), addr) == spec_insert(banned, addr),
        spec_insert_result(spec_insert(banned, addr), addr) == spec_insert_result(banned, addr),
        spec_insert_result(banned, addr) is Ok ==> spec_insert(banned, addr).contains(addr),
{
    if banned.contains(addr) || banned.len() < BLOCKLIST_CAPACITY {
        assert(banned.insert(addr).insert(addr) =~= banned.insert(addr));
    }
}

/// An insert never unbans an address and never grows a blocklist past its
/// capacity.
pub proof fn lemma_insert_within_capacity(banned: Set<u32>, addr: u32)
    requires
        banned.finite(),
        banned.len() <= BLOCKLIST_CAPACITY,
    ensures
        spec_insert(banned, addr).finite(),
        spec_insert(banned, addr).len() <= BLOCKLIST_CAPACITY,
        banned.subset_of(spec_insert(banned, addr)),
{
}

/// The window of a source after packets at the times `times`, in order,
/// where `previous` is its window before the first of them.
pub open spec fn spec_after_burst(previous: Option<PacketLog>, times: Seq<u64>) -> Option<
    PacketLog,
>
    decreases times.len(),
{
    if times.len() == 0 {
        previous
    } else {
        Some(spec_next_window(spec_after_burst(previous, times.drop_last()), times.last()))
    }
}

/// Packets of a new source that all arrive within `WINDOW_NS` of the first
/// are counted in one window that opened with the first. The last of them
/// passes if they are at most `LIMIT`, and is dropped if they are more.
pub proof fn lemma_burst_in_one_window(times: Seq<u64>)
    requires
        1 <= times.len() <= u64::MAX,
        forall|i: int| 0 <= i < times.len() ==> !window_expired(times[0], #[trigger] times[i]),
    ensures
        spec_after_burst(None, times) == Some(
            PacketLog { count: times.len() as u64, last_seen: times[0] },
        ),
        spec_verdict(spec_after_burst(None, times)->0) == if times.len() <= LIMIT {
            Verdict::Pass
        } else {
            Verdict::Drop
        },
    decreases times.len(),
{
    let earlier = times.drop_last();
    if earlier.len() == 0 {
        assert(spec_after_burst(None, earlier) == None::<PacketLog>);
    } else {
        assert forall|i: int| 0 <= i < earlier.len() implies !window_expired(
            earlier[0],
            #[trigger] earlier[i],
        ) by {
            assert(earlier[i] == times[i]);
        }
        lemma_burst_in_one_window(earlier);
        assert(!window_expired(times[0], times.last()));
    }
}

/// The table after packets of `addr` at the times `times`, in order.
pub open spec fn spec_windows_after_burst(
    windows: Map<u32, PacketLog>,
    addr: u32,
    times: Seq<u64>,
) -> Map<u32, PacketLog>
    decreases times.len(),
{
    if times.len() == 0 {
        windows
    } else {
        spec_windows_after(
            spec_windows_after_burst(windows, addr, times.drop_last()),
            addr,
            times.last(),
        )
    }
}

/// A table with room for `addr` takes a burst of its packets as the window
/// of `addr` alone does: after the burst the table differs from the one
/// before only in that window, and the last packet has the verdict of that
/// window.
pub proof fn lemma_burst_through_table(windows: Map<u32, PacketLog>, addr: u32, times: Seq<u64>)
    requires
        !spec_table_full(windows, addr),
        times.len() >= 1,
    ensures
        spec_after_burst(spec_lookup(windows, addr), times) is Some,
        spec_windows_after_burst(windows, addr, times) == windows.insert(
            addr,
            spec_after_burst(spec_lookup(windows, addr), times)->0,
        ),
        spec_check(
            spec_windows_after_burst(windows, addr, times.drop_last()),
            addr,
            times.last(),
        ) == Ok::<Verdict, GuardError>(
            spec_verdict(spec_after_burst(spec_lookup(windows, addr), times)->0),
        ),
    decreases times.len(),
{
    let earlier = times.drop_last();
    if earlier.len() >= 1 {
        lemma_burst_through_table(windows, addr, earlier);
        let window = spec_after_burst(spec_lookup(windows, addr), earlier)->0;
        let last = spec_next_window(Some(window), times.last());
        assert(windows.insert(addr, window).insert(addr, last) =~= windows.insert(addr, last));
    }
}

/// The first packet that arrives more than `WINDOW_NS` after a window
/// opened starts a new window of one packet and passes, however many
/// packets the old window counted.
pub proof fn lemma_expired_window_resets(log: PacketLog, now: u64)
    requires
        window_expired(log.last_seen, now),
    ensures
        spec_next_window(Some(log), now) == (PacketLog { count: 1, last_seen: now }),
        spec_verdict(spec_next_window(Some(log), now)) == Verdict::Pass,
{
}

/// A full table refuses a new source and loses nothing: the packet gets
/// `TableFull` and every window is as it was.
pub proof fn lemma_full_table_refuses(windows: Map<u32, PacketLog>, addr: u32, now: u64)
    requires
        !windows.contains_key(addr),
        windows.len() >= RATE_LIMIT_CAPACITY,
    ensures
        spec_check(windows, addr, now) == Err::<Verdict, GuardError>(GuardError::TableFull),
        spec_windows_after(windows, addr, now) == windows,
{
}

/// The rate limiter never drops a window and never grows past its capacity:
/// every source that had a window has one after any packet, and a table
/// within `RATE_LIMIT_CAPACITY` stays within it.
pub proof fn lemma_windows_kept(windows: Map<u32, PacketLog>, addr: u32, now: u64)
    requires
        windows.dom().finite(),
        windows.len() <= RATE_LIMIT_CAPACITY,
    ensures
        spec_windows_after(windows, addr, now).dom().finite(),
        spec_windows_after(windows, addr, now).len() <= RATE_LIMIT_CAPACITY,
        forall|source: u32| #[trigger]
            windows.contains_key(source) ==> spec_windows_after(windows, addr, now).contains_key(
                source,
            ),
        forall|source: u32|
            source != addr && #[trigger] windows.contains_key(source) ==> spec_windows_after(
                windows,
                addr,
                now,
            )[source] == windows[source],
{
    if !spec_table_full(windows, addr) && windows.contains_key(addr) {
        assert(windows.dom().insert(addr) =~= windows.dom());
    }
}

/// A frame of an unbanned IPv4 source that meets a full table without a
/// window of that source is not judged: the action is `XDP_ABORTED` and no
/// table changes.
pub proof fn lemma_full_table_aborts(
    state: GuardState,
    lane: int,
    frame: Seq<u8>,
    now: u64,
    source: u32,
)
    requires
        spec_source_address(frame) == Ok::<Option<u32>, GuardError>(Some(source)),
        !state.blocklist.contains(source),
        !state.windows.contains_key(source),
        state.windows.len() >= RATE_LIMIT_CAPACITY,
    ensures
        spec_outcome(state, frame, now) == Err::<Verdict, GuardError>(GuardError::TableFull),
        spec_action_of(spec_outcome(state, frame, now)) == XDP_ABORTED,
        spec_step(state, lane, frame, now) == state,
{
}

/// One frame as a lane receives it.
pub struct Arrival {
    /// The lane that receives the frame.
    pub lane: int,
    /// The bytes of the frame.
    pub frame: Seq<u8>,
    /// The time at which the lane reads its clock.
    pub now: u64,
}

/// What the tables hold after the frames of `arrivals` were decided on, one
/// after the other.
pub open spec fn spec_run(state: GuardState, arrivals: Seq<Arrival>) -> GuardState
    decreases arrivals.len(),
{
    if arrivals.len() == 0 {
        state
    } else {
        let last = arrivals.last();
        spec_step(spec_run(state, arrivals.drop_last()), last.lane, last.frame, last.now)
    }
}

/// Whether every decision of a run can be made: each frame arrives on a
/// lane that exists, and no counter it raises is at `u64::MAX`.
pub open spec fn can_run(state: GuardState, arrivals: Seq<Arrival>) -> bool
    decreases arrivals.len(),
{
    arrivals.len() == 0 || {
        let last = arrivals.last();
        &&& can_run(state, arrivals.drop_last())
        &&& can_step(spec_run(state, arrivals.drop_last()), last.lane, last.frame, last.now)
    }
}

/// How many frames of a run got `verdict`.
pub open spec fn spec_judged(state: GuardState, arrivals: Seq<Arrival>, verdict: Verdict) -> nat
    decreases arrivals.len(),
{
    if arrivals.len() == 0 {
        0
    } else {
        let last = arrivals.last();
        let before = spec_run(state, arrivals.drop_last());
        let judged = spec_judged(state, arrivals.drop_last(), verdict);
        if spec_outcome(before, last.frame, last.now) == Ok::<Verdict, GuardError>(verdict) {
            judged + 1
        } else {
            judged
        }
    }
}

/// How many frames of a run got `verdict` on lane `lane`.
pub open spec fn spec_judged_on(
    state: GuardState,
    arrivals: Seq<Arrival>,
    lane: int,
    verdict: Verdict,
) -> nat
    decreases arrivals.len(),
{
    if arrivals.len() == 0 {
        0
    } else {
        let last = arrivals.last();
        let before = spec_run(state, arrivals.drop_last());
        let judged = spec_judged_on(state, arrivals.drop_last(), lane, verdict);
        if last.lane == lane && spec_outcome(before, last.frame, last.now) == Ok::<
            Verdict,
            GuardError,
        >(verdict) {
            judged + 1
        } else {
            judged
        }
    }
}

/// No run changes the blocklist, drops a window or grows the table of
/// windows past its capacity.
pub proof fn lemma_run_keeps_tables(state: GuardState, arrivals: Seq<Arrival>)
    requires
        state.windows.dom().finite(),
        state.windows.len() <= RATE_LIMIT_CAPACITY,
    ensures
        spec_run(state, arrivals).blocklist == state.blocklist,
        spec_run(state, arrivals).windows.dom().finite(),
        spec_run(state, arrivals).windows.len() <= RATE_LIMIT_CAPACITY,
        forall|source: u32| #[trigger]
            state.windows.contains_key(source) ==> spec_run(state, arrivals).windows.contains_key(
                source,
            ),
    decreases arrivals.len(),
{
    if arrivals.len() > 0 {
        let last = arrivals.last();
        let before = spec_run(state, arrivals.drop_last());
        lemma_run_keeps_tables(state, arrivals.drop_last());
        match spec_rated_source(before.blocklist, last.frame) {
            Some(source) => {
                lemma_windows_kept(before.windows, source, last.now);
            },
            None => {},
        }
    }
}

/// After any run, each counter of a lane has grown by the number of frames
/// to which this lane gave that verdict, so a lane that passed N frames and
/// dropped M reads N and M more than before. The number of lanes does not
/// change.
pub proof fn lemma_lane_counts(
    state: GuardState,
    arrivals: Seq<Arrival>,
    lane: int,
    verdict: Verdict,
)
    requires
        can_run(state, arrivals),
        0 <= lane < state.stats.len(),
    ensures
        spec_run(state, arrivals).stats.len() == state.stats.len(),
        spec_run(state, arrivals).stats[lane].of(verdict) == state.stats[lane].of(verdict)
            + spec_judged_on(state, arrivals, lane, verdict),
    decreases arrivals.len(),
{
    if arrivals.len() > 0 {
        lemma_lane_counts(state, arrivals.drop_last(), lane, verdict);
    }
}

/// After any run, in whatever order the lanes took their frames, the sum
/// over all lanes of the counters of a verdict has grown by the number of
/// frames that got that verdict.
pub proof fn lemma_total_counts(state: GuardState, arrivals: Seq<Arrival>, verdict: Verdict)
    requires
        can_run(state, arrivals),
    ensures
        spec_total(spec_per_lane(spec_run(state, arrivals).stats, verdict)) == spec_total(
            spec_per_lane(state.stats, verdict),
        ) + spec_judged(state, arrivals, verdict),
    decreases arrivals.len(),
{
    if arrivals.len() > 0 {
        let last = arrivals.last();
        let before = spec_run(state, arrivals.drop_last());
        lemma_total_counts(state, arrivals.drop_last(), verdict);
        match spec_outcome(before, last.frame, last.now) {
            Ok(given) => {
                let after = spec_counted(before.stats, last.lane, given);
                if given == verdict {
                    lemma_total_update(spec_per_lane(before.stats, verdict), last.lane);
                    assert(spec_per_lane(after, verdict) == spec_per_lane(
                        before.stats,
                        verdict,
                    ).update(last.lane, (before.stats[last.lane].of(verdict) + 1) as u64));
                } else {
                    assert(spec_per_lane(after, verdict) == spec_per_lane(before.stats, verdict));
                }
            },
            Err(_) => {},
        }
    }
}

} // verus!
