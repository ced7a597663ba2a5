use vstd::prelude::*;

use crate::address::{to_universal_address, universal_of};
use crate::error::AttestError;
use crate::event::{
    matching, query_events, select_event, selected, transfer_sent_topic, transfer_sent_topic_spec,
    EventRecord,
};
use crate::journal::{commitment_bytes, encode_journal, Commitment, Journal};

verus! {

/// A view of one block that has been verified against its commitment: every
/// record in `logs` is part of the block that `commitment` names, in
/// emission order.
#[derive(Debug)]
pub struct VerifiedView {
    pub commitment: Commitment,
    pub logs: Vec<EventRecord>,
}

/// The journal bytes, or the error, for the occurrence at `index` of the
/// events matching `{address, signature}`, given the outcome of rebuilding
/// the view (`None` when the state-proof bundle could not be verified).
pub open spec fn attestation(
    view: Option<VerifiedView>,
    address: Seq<u8>,
    signature: Seq<u8>,
    index: int,
) -> Result<Seq<u8>, AttestError> {
    match view {
        None => Err(AttestError::ViewReconstruction),
        Some(v) => match selected(matching(v.logs@, address, signature), index) {
            Ok(e) => Ok(commitment_bytes(v.commitment) + e.digest@ + universal_of(address)),
            Err(err) => Err(err),
        },
    }
}

/// The bytes of an executable result, for comparison with `attestation`.
pub open spec fn bytes_result(r: Result<Vec<u8>, AttestError>) -> Result<Seq<u8>, AttestError> {
    match r {
        Ok(b) => Ok(b@),
        Err(e) => Err(e),
    }
}

/// Attests the occurrence at `log_index` of the events with signature topic
/// `signature` emitted by `address` in the verified view, producing the
/// encoded journal.
pub fn attest_with_signature(
    view: &Option<VerifiedView>,
    address: &[u8; 20],
    signature: &[u8; 32],
    log_index: u32,
) -> (r: Result<Vec<u8>, AttestError>)
    ensures
        bytes_result(r) == attestation(*view, address@, signature@, log_index as int),
{
    match view {
        None => Err(AttestError::ViewReconstruction),
        Some(v) => {
            let events = query_events(&v.logs, address, signature);
            match select_event(&events, log_index) {
                Err(e) => Err(e),
                Ok(event) => {
                    let journal = Journal {
                        commitment: v.commitment,
                        message_digest: event.digest,
                        emitter: to_universal_address(address),
                    };
                    Ok(encode_journal(&journal))
                },
            }
        },
    }
}

/// Attests the occurrence at `log_index` of the `TransferSent` events emitted
/// by `address` in the verified view, producing the encoded journal.
pub fn attest(view: &Option<VerifiedView>, address: &[u8; 20], log_index: u32) -> (r: Result<Vec<u8>, AttestError>)
    ensures
        bytes_result(r) == attestation(*view, address@, transfer_sent_topic_spec(), log_index as int),
{
    let signature = transfer_sent_topic();
    attest_with_signature(view, address, &signature, log_index)
}

/// Two attestations of views with the same commitment and the
/// same records, for the same address, signature and index, give the same
/// bytes or the same error.
pub proof fn lemma_deterministic(
    v1: VerifiedView,
    v2: VerifiedView,
    address: Seq<u8>,
    signature: Seq<u8>,
    index: int,
)
    requires
        v1.commitment == v2.commitment,
        v1.logs@ == v2.logs@,
    ensures
        attestation(Some(v1), address, signature, index) == attestation(
            Some(v2),
            address,
            signature,
            index,
        ),
{
}

/// A journal produced from a view begins with the
/// encoding of that view's own commitment, and is followed by the digest of
/// the selected record and the universal form of the address.
pub proof fn lemma_commitment_binding(view: VerifiedView, address: Seq<u8>, signature: Seq<u8>, index: int)
    requires
        address.len() == 20,
        attestation(Some(view), address, signature, index) is Ok,
    ensures
        ({
            let bytes = attestation(Some(view), address, signature, index)->Ok_0;
            let e = matching(view.logs@, address, signature)[index];
            &&& bytes.len() == 160
            &&& bytes.subrange(0, 96) == commitment_bytes(view.commitment)
            &&& bytes.subrange(96, 128) == e.digest@
            &&& bytes.subrange(128, 160) == universal_of(address)
        }),
{
    let bytes = attestation(Some(view), address, signature, index)->Ok_0;
    let e = matching(view.logs@, address, signature)[index];
    assert(bytes.subrange(0, 96) =~= commitment_bytes(view.commitment));
    assert(bytes.subrange(96, 128) =~= e.digest@);
    assert(bytes.subrange(128, 160) =~= universal_of(address));
}

/// When the state-proof bundle could not be verified
/// into a view, the result is `ViewReconstruction` for every address,
/// signature and index.
pub proof fn lemma_failed_reconstruction(address: Seq<u8>, signature: Seq<u8>, index: int)
    ensures
        attestation(None, address, signature, index) == Err::<Seq<u8>, AttestError>(
            AttestError::ViewReconstruction,
        ),
{
}

} // verus!
