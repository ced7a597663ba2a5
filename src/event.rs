use vstd::prelude::*;

use crate::error::AttestError;

verus! {

/// The declaration of the one event this library attests.
pub const TRANSFER_SENT_DECLARATION: &'static str = "TransferSent(bytes32)";

/// One decoded event occurrence read from a verified view of a block.
#[derive(Debug, Clone, Copy, PartialEq, Eq)]
pub struct EventRecord {
    /// Native address of the contract that emitted the event.
    pub emitter: [u8; 20],
    /// The event's signature topic (the hash of its declaration).
    pub signature: [u8; 32],
    /// Content digest carried by the event.
    pub digest: [u8; 32],
}

/// The Keccak-256 digest of a text's UTF-8 bytes.
pub uninterp spec fn keccak_text(s: Seq<char>) -> Seq<u8>;

/// Relies on alloy_primitives::keccak256: the 32-byte Keccak-256 digest of
/// the text's UTF-8 bytes, a function of the text alone.
#[verifier::external_body]
fn keccak_of_text(s: &str) -> (r: [u8; 32])
    ensures
        r@ == keccak_text(s@),
{
    alloy_primitives::keccak256(s.as_bytes()).0
}

/// The signature topic of the event that the library attests.
pub open spec fn transfer_sent_topic_spec() -> Seq<u8> {
    keccak_text(TRANSFER_SENT_DECLARATION@)
}

/// Computes the signature topic of the attested event from its declaration.
pub fn transfer_sent_topic() -> (r: [u8; 32])
    ensures
        r@ == transfer_sent_topic_spec(),
{
    keccak_of_text(TRANSFER_SENT_DECLARATION)
}

/// Whether a record was emitted by `address` with the signature topic `signature`.
pub open spec fn is_match(e: EventRecord, address: Seq<u8>, signature: Seq<u8>) -> bool {
    e.emitter@ == address && e.signature@ == signature
}

/// The records that match `{address, signature}`, in the order in which they
/// appear in `logs`.
pub open spec fn matching(logs: Seq<EventRecord>, address: Seq<u8>, signature: Seq<u8>) -> Seq<EventRecord>
    decreases logs.len(),
{
    if logs.len() == 0 {
        Seq::empty()
    } else {
        let earlier = matching(logs.drop_last(), address, signature);
        if is_match(logs.last(), address, signature) {
            earlier.push(logs.last())
        } else {
            earlier
        }
    }
}

/// The positions in `logs` of the matching records, in order.
pub open spec fn match_positions(logs: Seq<EventRecord>, address: Seq<u8>, signature: Seq<u8>) -> Seq<int>
    decreases logs.len(),
{
    if logs.len() == 0 {
        Seq::empty()
    } else {
        let earlier = match_positions(logs.drop_last(), address, signature);
        if is_match(logs.last(), address, signature) {
            earlier.push(logs.len() - 1)
        } else {
            earlier
        }
    }
}

/// The occurrence at `index` of an ordered sequence of records, if there is one.
pub open spec fn selected(records: Seq<EventRecord>, index: int) -> Result<EventRecord, AttestError> {
    if 0 <= index < records.len() {
        Ok(records[index])
    } else {
        Err(AttestError::EventNotFound)
    }
}

proof fn lemma_positions(logs: Seq<EventRecord>, address: Seq<u8>, signature: Seq<u8>)
    ensures
        ({
            let m = matching(logs, address, signature);
            let p = match_positions(logs, address, signature);
            &&& p.len() == m.len()
            &&& forall|i: int|
                0 <= i < p.len() ==> 0 <= #[trigger] p[i] < logs.len() && logs[p[i]] == m[i]
                    && is_match(m[i], address, signature)
            &&& forall|i: int, j: int| 0 <= i < j < p.len() ==> #[trigger] p[i] < #[trigger] p[j]
            &&& forall|k: int|
                0 <= k < logs.len() && #[trigger] is_match(logs[k], address, signature)
                    ==> p.contains(k)
        }),
    decreases logs.len(),
{
    if logs.len() > 0 {
        let prefix = logs.drop_last();
        lemma_positions(prefix, address, signature);
        let p0 = match_positions(prefix, address, signature);
        let p = match_positions(logs, address, signature);
        assert forall|k: int|
            0 <= k < logs.len() && #[trigger] is_match(logs[k], address, signature) implies p.contains(k) by {
            if k < logs.len() - 1 {
                assert(prefix[k] == logs[k]);
                assert(p0.contains(k));
                let w = choose|w: int| 0 <= w < p0.len() && p0[w] == k;
                assert(p[w] == k);
            } else {
                assert(p[p.len() - 1] == k);
            }
        }
    }
}

/// When exactly `k` records of `logs` match `{address,
/// signature}`, each index below `k` selects the matching record at its own
/// position in `logs`, a later index selects a later record, every matching
/// record is counted, and every index from `k` on is `EventNotFound`.
pub proof fn lemma_index_boundary(logs: Seq<EventRecord>, address: Seq<u8>, signature: Seq<u8>)
    ensures
        ({
            let m = matching(logs, address, signature);
            let p = match_positions(logs, address, signature);
            &&& p.len() == m.len()
            &&& forall|i: int|
                0 <= i < m.len() ==> #[trigger] selected(m, i) == Ok::<EventRecord, AttestError>(
                    m[i],
                ) && 0 <= p[i] < logs.len() && logs[p[i]] == m[i] && is_match(m[i], address, signature)
            &&& forall|i: int, j: int| 0 <= i < j < m.len() ==> #[trigger] p[i] < #[trigger] p[j]
            &&& forall|k: int|
                0 <= k < logs.len() && #[trigger] is_match(logs[k], address, signature)
                    ==> p.contains(k)
            &&& forall|i: int| i >= m.len() ==> #[trigger] selected(m, i) == Err::<EventRecord, AttestError>(
                AttestError::EventNotFound,
            )
        }),
{
    lemma_positions(logs, address, signature);
}

/// Whether two byte strings are equal, byte for byte.
fn same_bytes(a: &[u8], b: &[u8]) -> (r: bool)
    ensures
        r == (a@ == b@),
{
    if a.len() != b.len() {
        return false;
    }
    let mut i: usize = 0;
    while i < a.len()
        invariant
            0 <= i <= a@.len(),
            a@.len() == b@.len(),
            forall|j: int| 0 <= j < i ==> a@[j] == b@[j],
        decreases a@.len() - i,
    {
        if a[i] != b[i] {
            return false;
        }
        i += 1;
    }
    assert(a@ =~= b@);
    true
}

/// All records of `logs` emitted by `address` with signature topic
/// `signature`, in emission order.
pub fn query_events(logs: &Vec<EventRecord>, address: &[u8; 20], signature: &[u8; 32]) -> (r: Vec<EventRecord>)
    ensures
        r@ == matching(logs@, address@, signature@),
{
    let mut out: Vec<EventRecord> = Vec::new();
    let mut i: usize = 0;
    while i < logs.len()
        invariant
            0 <= i <= logs@.len(),
            out@ == matching(logs@.subrange(0, i as int), address@, signature@),
        decreases logs@.len() - i,
    {
        let e = logs[i];
        assert(logs@.subrange(0, i + 1).drop_last() =~= logs@.subrange(0, i as int));
        if same_bytes(e.emitter.as_slice(), address.as_slice()) && same_bytes(e.signature.as_slice(), signature.as_slice()) {
            out.push(e);
        }
        i += 1;
    }
    assert(logs@.subrange(0, logs@.len() as int) =~= logs@);
    out
}

/// Picks the occurrence at `index` of an ordered sequence of records; an
/// index at or past its end is `EventNotFound`, never clamped.
pub fn select_event(records: &Vec<EventRecord>, index: u32) -> (r: Result<EventRecord, AttestError>)
    ensures
        r == selected(records@, index as int),
        r is Ok <==> (index as int) < records@.len(),
{
    let i = index as usize;
    if i < records.len() {
        Ok(records[i])
    } else {
        Err(AttestError::EventNotFound)
    }
}

} // verus!
