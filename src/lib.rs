//! An ICMP echo ("ping") engine: wire codecs for IPv4 and ICMP, the
//! decisions of the echo loop, and the statistics kept over its results.
//!
//! Everything that touches the network, the clock or the terminal lives
//! outside this library; the engine is driven step by step by its caller.

pub mod packet;
pub mod ping;
pub mod stats;
