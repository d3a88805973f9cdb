//! Energy metering core: the integer side of a zero-cross gated sampling
//! window, a fixed-layout binary record codec for readings, and a
//! size-bounded shard store that rotates append-only log files.
pub mod codec;
pub mod reading;
pub mod store;
pub mod window;

