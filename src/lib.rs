use vstd::prelude::*;

/// Batches of payloads: decoding, the dedup cache gate, merging, and the verdict.
pub mod batch;
/// Decisions of the delivery loop: when to pull, when to flush, which lane
/// takes a message, and which messages are still unacknowledged.
pub mod delivery;
/// The binary encoding of graphs.
/// Reading graphs back from their encoding.
pub mod decode;
pub mod encode;
/// The typed events and their decoding from untyped payloads.
pub mod event;
/// The graph fragment that each kind of event gives.
pub mod fragment;
/// Property graphs keyed by entity identity, and their merge.
pub mod graph;
/// Storage keys for emitted artifacts.
pub mod key;
/// Untyped payloads and the reading of their fields.
pub mod payload;
/// Emission of merged subgraphs as compressed artifacts.
pub mod serialize;

verus! {

} // verus!
