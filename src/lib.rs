//! Relay of pool shares and weak blocks to downstream receivers: the frame
//! codec, the per-receiver connection proxy and the failover router, the
//! start-up settings, and the proof-of-work target check for weak blocks.

pub mod codec;
pub mod relay;
pub mod settings;
pub mod target;
