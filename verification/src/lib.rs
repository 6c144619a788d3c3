//! Per-core voltage curve offsets for a processor's management controller.
//!
//! The controller is driven through two small control files: a six-word
//! argument block and a single status word that doubles as the command
//! trigger.  This crate verifies the logic of that exchange: the
//! little-endian word codec, the bit-level encoding of core selectors and
//! signed offsets, the polling command protocol, and the per-core get/set
//! operations.  The actual file transfers sit behind the [`channel::Channel`]
//! trait, so the protocol can be exercised against a scripted in-memory
//! controller as well as the real control files.

pub mod api;
pub mod channel;
pub mod codec;
pub mod offset;
pub mod protocol;
