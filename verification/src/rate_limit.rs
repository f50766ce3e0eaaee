//! The rate limiter: fixed-window packet counting per source address, in a
//! table of bounded size.
//!
//! A window opens with the first packet of a source and is replaced by a new
//! one with the first packet that arrives more than `WINDOW_NS` after it
//! opened. Within a window every packet is counted, and the packets after
//! the first `LIMIT` are dropped. The count is never clamped.

use std::collections::HashMap;
use vstd::prelude::*;
use crate::verdict::GuardError;
use crate::verdict::Verdict;

verus! {

/// Packets admitted per window before a source is dropped.
pub const LIMIT: u64 = 10;

/// Length of one accounting window, in nanoseconds.
pub const WINDOW_NS: u64 = 1_000_000_000;

/// The most source addresses a rate limiter keeps a window for.
pub const RATE_LIMIT_CAPACITY: usize = 1024;

/// The accounting window of one source address.
#[derive(Clone, Copy, Debug, PartialEq, Eq, Structural)]
pub struct PacketLog {
    /// Packets counted in the current window.
    pub count: u64,
    /// Monotonic time at which the current window opened, in nanoseconds.
    pub last_seen: u64,
}

/// Whether a window that opened at `start` is over at time `now`: more than
/// `WINDOW_NS` have passed. A clock reading before `start` is inside the
/// window.
pub open spec fn window_expired(start: u64, now: u64) -> bool {
    now - start > WINDOW_NS
}

/// Whether a packet at time `now` is counted in the window `previous`.
pub open spec fn continues_window(previous: Option<PacketLog>, now: u64) -> bool {
    previous matches Some(log) && !window_expired(log.last_seen, now)
}

/// Whether the counter that a packet at time `now` raises can hold the new
/// count.
pub open spec fn can_count(previous: Option<PacketLog>, now: u64) -> bool {
    continues_window(previous, now) ==> previous->0.count < u64::MAX
}

/// The window of a source after a packet at time `now`, where `previous` is
/// its window before, if it had one.
pub open spec fn spec_next_window(previous: Option<PacketLog>, now: u64) -> PacketLog
    recommends
        can_count(previous, now),
{
    if continues_window(previous, now) {
        PacketLog { count: (previous->0.count + 1) as u64, last_seen: previous->0.last_seen }
    } else {
        PacketLog { count: 1, last_seen: now }
    }
}

/// The verdict on the packet that brought a window to `log`.
pub open spec fn spec_verdict(log: PacketLog) -> Verdict {
    if log.count > LIMIT {
        Verdict::Drop
    } else {
        Verdict::Pass
    }
}

/// The window that `windows` keeps for `addr`, if any.
pub open spec fn spec_lookup(windows: Map<u32, PacketLog>, addr: u32) -> Option<PacketLog> {
    if windows.contains_key(addr) {
        Some(windows[addr])
    } else {
        None
    }
}

/// Whether `windows` has no room for a window of `addr`: the address is new
/// and the table holds `RATE_LIMIT_CAPACITY` entries.
pub open spec fn spec_table_full(windows: Map<u32, PacketLog>, addr: u32) -> bool {
    !windows.contains_key(addr) && windows.len() >= RATE_LIMIT_CAPACITY
}

/// What `RateLimiter::store` answers for a window of `addr`: `TableFull`
/// where the table has no room for it.
pub open spec fn spec_store_result(windows: Map<u32, PacketLog>, addr: u32) -> Result<
    (),
    GuardError,
> {
    if spec_table_full(windows, addr) {
        Err(GuardError::TableFull)
    } else {
        Ok(())
    }
}

/// The table that `RateLimiter::store` leaves: `log` is the window of `addr`,
/// unless the table has no room for it.
pub open spec fn spec_stored(windows: Map<u32, PacketLog>, addr: u32, log: PacketLog) -> Map<
    u32,
    PacketLog,
> {
    if spec_table_full(windows, addr) {
        windows
    } else {
        windows.insert(addr, log)
    }
}

/// What `RateLimiter::check` answers for a packet of `addr` at time `now`.
pub open spec fn spec_check(windows: Map<u32, PacketLog>, addr: u32, now: u64) -> Result<
    Verdict,
    GuardError,
> {
    if spec_table_full(windows, addr) {
        Err(GuardError::TableFull)
    } else {
        Ok(spec_verdict(spec_next_window(spec_lookup(windows, addr), now)))
    }
}

/// The table that `RateLimiter::check` leaves for a packet of `addr` at time
/// `now`: only the window of `addr` changes, and nothing changes where the
/// table is full.
pub open spec fn spec_windows_after(windows: Map<u32, PacketLog>, addr: u32, now: u64) -> Map<
    u32,
    PacketLog,
> {
    if spec_table_full(windows, addr) {
        windows
    } else {
        windows.insert(addr, spec_next_window(spec_lookup(windows, addr), now))
    }
}

/// Whether a window that opened at `start` is over at time `now`.
pub fn is_expired(start: u64, now: u64) -> (expired: bool)
    ensures
        expired == window_expired(start, now),
{
    now > start && now - start > WINDOW_NS
}

/// Whether the counter that a packet at time `now` raises can hold the new
/// count: what `next_window` requires.
pub fn has_room(previous: Option<PacketLog>, now: u64) -> (room: bool)
    ensures
        room == can_count(previous, now),
{
    match previous {
        Some(log) => is_expired(log.last_seen, now) || log.count < u64::MAX,
        None => true,
    }
}

/// The window of a source after a packet at time `now`: a window of one
/// packet opened at `now` where the source had none or its window is over,
/// else the same window with one packet more.
pub fn next_window(previous: Option<PacketLog>, now: u64) -> (log: PacketLog)
    requires
        can_count(previous, now),
    ensures
        log == spec_next_window(previous, now),
{
    match previous {
        Some(log) => {
            if is_expired(log.last_seen, now) {
                PacketLog { count: 1, last_seen: now }
            } else {
                PacketLog { count: log.count + 1, last_seen: log.last_seen }
            }
        },
        None => PacketLog { count: 1, last_seen: now },
    }
}

impl PacketLog {
    /// The verdict on the packet that brought the window to this count:
    /// `Drop` once more than `LIMIT` packets were counted.
    pub fn verdict(&self) -> (verdict: Verdict)
        ensures
            verdict == spec_verdict(*self),
    {
        if self.count > LIMIT {
            Verdict::Drop
        } else {
            Verdict::Pass
        }
    }
}

/// The windows of the source addresses seen so far, at most
/// `RATE_LIMIT_CAPACITY` of them.
pub struct RateLimiter {
    windows: HashMap<u32, PacketLog>,
}

impl RateLimiter {
    #[verifier::type_invariant]
    spec fn within_capacity(self) -> bool {
        self.windows@.dom().finite() && self.windows@.len() <= RATE_LIMIT_CAPACITY
    }

    /// The window of each source address that has one.
    pub closed spec fn view(&self) -> Map<u32, PacketLog> {
        self.windows@
    }

    /// A rate limiter that has seen no packet.
    pub fn new() -> (limiter: Self)
        ensures
            limiter@ == Map::<u32, PacketLog>::empty(),
    {
        RateLimiter { windows: HashMap::new() }
    }

    /// The number of source addresses that have a window.
    pub fn len(&self) -> (count: usize)
        ensures
            self@.dom().finite(),
            count == self@.len(),
            count <= RATE_LIMIT_CAPACITY,
    {
        proof {
            use_type_invariant(self);
        }
        self.windows.len()
    }

    /// The window of `addr`, if it has one.
    pub fn get(&self, addr: u32) -> (window: Option<PacketLog>)
        ensures
            window == spec_lookup(self@, addr),
    {
        match self.windows.get(&addr) {
            Some(log) => Some(*log),
            None => None,
        }
    }

    /// Makes `log` the window of `addr`. A source without a window gets one,
    /// unless the table is full: then `TableFull` is returned and no window
    /// is lost or changed.
    pub fn store(&mut self, addr: u32, log: PacketLog) -> (result: Result<(), GuardError>)
        ensures
            result == spec_store_result(old(self)@, addr),
            final(self)@ == spec_stored(old(self)@, addr, log),
    {
        proof {
            use_type_invariant(&*self);
        }
        if !self.windows.contains_key(&addr) && self.windows.len() >= RATE_LIMIT_CAPACITY {
            return Err(GuardError::TableFull);
        }
        let mut windows = HashMap::new();
        std::mem::swap(&mut windows, &mut self.windows);
        windows.insert(addr, log);
        self.windows = windows;
        Ok(())
    }

    /// Counts a packet of `addr` at time `now` and judges it. A source
    /// without a window gets one, unless the table is full: then the packet
    /// is not judged, `TableFull` is returned and no window is lost or
    /// changed.
    pub fn check(&mut self, addr: u32, now: u64) -> (result: Result<Verdict, GuardError>)
        requires
            can_count(spec_lookup(old(self)@, addr), now),
        ensures
            result == spec_check(old(self)@, addr, now),
            final(self)@ == spec_windows_after(old(self)@, addr, now),
    {
        let log = next_window(self.get(addr), now);
        match self.store(addr, log) {
            Ok(()) => Ok(log.verdict()),
            Err(error) => Err(error),
        }
    }
}

} // verus!
