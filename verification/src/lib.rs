//! A durable, typed, transactional FIFO queue over a single backing file.
//!
//! Values of a user-chosen type are serialized on enqueue, appended to a
//! crash-resilient on-disk log, and handed back in FIFO order. A dequeue may
//! be made cancellable: the caller's decision function inspects the next
//! value and only a commit removes its record from the log. The log itself
//! is an outside collaborator reached through a narrow trusted boundary; the
//! typed protocol around it is verified.

mod codec;
mod durable_log;
mod person;
mod queue;

pub use codec::encode_decode_round_trip;
pub use codec::IBincodeSerializable;
pub use person::Person;
pub use queue::encodings_of;
pub use queue::lemma_commit_removes_exactly_one;
pub use queue::lemma_fifo_order;
pub use queue::PQBincode;
pub use queue::QueueError;
