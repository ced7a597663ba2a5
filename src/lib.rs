//! Attestation of a contract event inside a committed block.
//!
//! The library takes a verified view of one block (its commitment and the
//! event records it emitted, in emission order), selects one occurrence of a
//! declared event emitted by a given contract, canonicalizes the contract's
//! address into a 32-byte universal form, and encodes the journal that binds
//! the three together.

mod error;
pub mod address;
pub mod attest;
pub mod event;
pub mod journal;

pub use address::{parse_address, to_universal_address};
pub use attest::{attest, attest_with_signature, VerifiedView};
pub use error::AttestError;
pub use event::{query_events, select_event, transfer_sent_topic, EventRecord};
pub use journal::{encode_journal, Commitment, Journal};
