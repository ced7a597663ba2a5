use vstd::prelude::*;

use alloy_sol_types::SolValue;

verus! {

/// The value that names a committed block: the Solidity struct
/// `Commitment { uint256 id; bytes32 digest; bytes32 configID; }`, each
/// field held as its 32-byte ABI word (the id big-endian).
#[derive(Debug, Clone, Copy, PartialEq, Eq)]
pub struct Commitment {
    pub id: [u8; 32],
    pub digest: [u8; 32],
    pub config_id: [u8; 32],
}

/// The attestation record: the commitment of the block, the digest of the
/// selected event, and the universal address of its emitter.
#[derive(Debug, Clone, Copy, PartialEq, Eq)]
pub struct Journal {
    pub commitment: Commitment,
    pub message_digest: [u8; 32],
    pub emitter: [u8; 32],
}

/// Length of an encoded journal: five 32-byte words.
pub const JOURNAL_LEN: usize = 160;

/// The ABI encoding of a commitment: its three words in declaration order.
pub open spec fn commitment_bytes(c: Commitment) -> Seq<u8> {
    c.id@ + c.digest@ + c.config_id@
}

/// The ABI encoding of a journal: the commitment's words, then the message
/// digest, then the emitter's universal address.
pub open spec fn journal_bytes(j: Journal) -> Seq<u8> {
    commitment_bytes(j.commitment) + j.message_digest@ + j.emitter@
}

/// Relies on alloy_sol_types::SolValue::abi_encode for the static tuple
/// `((bytes32, bytes32, bytes32), bytes32, bytes32)`: a static tuple is
/// encoded as the head words of its members in order, with no offsets, and a
/// `bytes32` member is its own word.
#[verifier::external_body]
fn abi_encode_words(a: &[u8; 32], b: &[u8; 32], c: &[u8; 32], d: &[u8; 32], e: &[u8; 32]) -> (r: Vec<u8>)
    ensures
        r@ == a@ + b@ + c@ + d@ + e@,
{
    ((*a, *b, *c), *d, *e).abi_encode()
}

/// Encodes a journal in its published fixed layout.
pub fn encode_journal(j: &Journal) -> (r: Vec<u8>)
    ensures
        r@ == journal_bytes(*j),
        r@.len() == JOURNAL_LEN,
{
    abi_encode_words(&j.commitment.id, &j.commitment.digest, &j.commitment.config_id, &j.message_digest, &j.emitter)
}

} // verus!
