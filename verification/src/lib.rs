//! A packet admission filter for the receive path of a network interface.
//!
//! For every frame the guard answers pass, drop or aborted. It reads the
//! Ethernet and IPv4 headers with checked bounds ([`frame`]), refuses banned
//! source addresses ([`blocklist`]), counts the packets of every other source
//! in windows of one second ([`rate_limit`]) and counts its verdicts per lane
//! ([`stats`]). The decision itself is in [`engine`], both as one call on
//! tables in memory and as single stages for a caller that keeps the tables
//! elsewhere. What holds of the guard on every input is proved in
//! [`guarantees`].

pub mod blocklist;
pub mod engine;
pub mod frame;
pub mod guarantees;
pub mod rate_limit;
pub mod stats;
pub mod verdict;
