//! Core of a live-session recorder: per-track routing of discovered streams,
//! segmented output with size and duration rollover, and the session
//! lifecycle with its drain protocol. Media transport, codecs and container
//! writing stay with the caller; this crate decides what they are asked to do.

pub mod routing;
pub mod segment;
pub mod supervisor;
pub mod session;
pub mod naming;
pub mod status;
