//! Verified core of a bridge between a multi-speaker network voice stream and
//! a local playback device: per-source decode state, FIFO sample queues, the
//! mix-down into the device buffer, the device supervisor's decisions and the
//! fixed-point conversion of the played buffer.
pub mod bridge;
pub mod codec;
pub mod convert;
pub mod queue;
pub mod registry;
pub mod supervisor;
