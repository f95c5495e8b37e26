//! Synchronization engine for replicated, structured documents: a reliable,
//! mergeable outbound delivery queue, a remote sync coordinator, an ephemeral
//! presence (awareness) engine, and a translator from raw structural deltas to
//! typed domain events.

pub mod awareness;
pub mod codec;
pub mod coordinator;
pub mod counter;
pub mod folder;
pub mod message;
pub mod sink;
pub mod translator;
pub mod views;
