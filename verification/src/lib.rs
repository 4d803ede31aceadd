//! A string search service driven by binary messages.
//!
//! The worker keeps a list of searchable strings, takes commands as serialized
//! envelopes and answers with serialized envelopes. Searches are debounced:
//! a search waits for a timer that the host runs, and a later search or an
//! explicit cancel replaces it before it runs.
//!
//! The crate does no input or output itself. The host hands every event to the
//! [`worker::SearchWorker`] and carries out the [`worker::Actions`] it gets back.

use vstd::prelude::*;

pub mod laws;
pub mod messages;
pub mod payloads;
pub mod scheduler;
pub mod search;
pub mod store;
pub mod text;
pub mod varint;
pub mod wire;
pub mod worker;

pub use crate::messages::{decode, encode, Envelope, MessageKind};
pub use crate::wire::DecodeError;
pub use crate::worker::{Actions, SearchWorker};

verus! {

/// Adds two numbers whose sum fits in 64 bits.
pub fn add(left: u64, right: u64) -> (sum: u64)
    requires
        left + right <= u64::MAX,
    ensures
        sum == left + right,
{
    left + right
}

} // verus!
