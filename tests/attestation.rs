use event_attest::{
    attest, attest_with_signature, encode_journal, parse_address, query_events, select_event,
    to_universal_address, transfer_sent_topic, AttestError, Commitment, EventRecord, Journal,
    VerifiedView,
};

fn hex32(s: &str) -> [u8; 32] {
    let mut out = [0u8; 32];
    for i in 0..32 {
        out[i] = u8::from_str_radix(&s[2 * i..2 * i + 2], 16).unwrap();
    }
    out
}

fn word(b: u8) -> [u8; 32] {
    [b; 32]
}

fn record(emitter: [u8; 20], signature: [u8; 32], digest: [u8; 32]) -> EventRecord {
    EventRecord { emitter, signature, digest }
}

fn commitment() -> Commitment {
    let mut id = [0u8; 32];
    id[31] = 0x2a;
    id[0] = 0x01;
    Commitment { id, digest: word(0xB0), config_id: word(0xC0) }
}

const CONTRACT: [u8; 20] = [0xAA; 20];
const OTHER: [u8; 20] = [0xBB; 20];

/// A block with three matching events (digests D0, D1, D2) interleaved with
/// events of another contract and of another signature.
fn scenario_view() -> VerifiedView {
    let topic = transfer_sent_topic();
    let other_topic = word(0x77);
    VerifiedView {
        commitment: commitment(),
        logs: vec![
            record(OTHER, topic, word(0x01)),
            record(CONTRACT, topic, word(0xD0)),
            record(CONTRACT, other_topic, word(0x02)),
            record(CONTRACT, topic, word(0xD1)),
            record(OTHER, topic, word(0x03)),
            record(CONTRACT, topic, word(0xD2)),
        ],
    }
}

fn expected_journal(c: &Commitment, digest: [u8; 32], emitter: [u8; 32]) -> Vec<u8> {
    let mut v = Vec::new();
    v.extend_from_slice(&c.id);
    v.extend_from_slice(&c.digest);
    v.extend_from_slice(&c.config_id);
    v.extend_from_slice(&digest);
    v.extend_from_slice(&emitter);
    v
}

#[test]
fn universal_address_pads_left_with_zeros() {
    let u = to_universal_address(&CONTRACT);
    assert_eq!(&u[..12], &[0u8; 12]);
    assert_eq!(&u[12..], &CONTRACT);
}

#[test]
fn universal_address_keeps_byte_order() {
    let mut a = [0u8; 20];
    for (i, b) in a.iter_mut().enumerate() {
        *b = i as u8 + 1;
    }
    let u = to_universal_address(&a);
    let mut expected = [0u8; 32];
    for i in 0..20 {
        expected[12 + i] = i as u8 + 1;
    }
    assert_eq!(u, expected);
}

#[test]
fn universal_address_distinguishes_addresses() {
    let mut a = CONTRACT;
    a[19] = 0xAB;
    assert_ne!(to_universal_address(&a), to_universal_address(&CONTRACT));
    assert_eq!(to_universal_address(&[0u8; 20]), [0u8; 32]);
}

#[test]
fn parse_address_accepts_exactly_twenty_bytes() {
    let bytes: Vec<u8> = (0u8..20).collect();
    let a = parse_address(&bytes).unwrap();
    assert_eq!(&a[..], &bytes[..]);
}

#[test]
fn parse_address_rejects_other_lengths() {
    assert_eq!(parse_address(&[0u8; 19]), Err(AttestError::InputDecoding));
    assert_eq!(parse_address(&[0u8; 21]), Err(AttestError::InputDecoding));
    assert_eq!(parse_address(&[]), Err(AttestError::InputDecoding));
}

#[test]
fn transfer_sent_topic_is_the_declared_hash() {
    assert_eq!(
        transfer_sent_topic(),
        hex32("3e6ae56314c6da8b461d872f41c6d0bb69317b9d0232805aaccfa45df1a16fa0")
    );
}

#[test]
fn query_keeps_emission_order_and_filters_exactly() {
    let view = scenario_view();
    let found = query_events(&view.logs, &CONTRACT, &transfer_sent_topic());
    let digests: Vec<[u8; 32]> = found.iter().map(|e| e.digest).collect();
    assert_eq!(digests, vec![word(0xD0), word(0xD1), word(0xD2)]);
    assert!(found.iter().all(|e| e.emitter == CONTRACT));
}

#[test]
fn query_requires_exact_signature_equality() {
    let view = scenario_view();
    let found = query_events(&view.logs, &CONTRACT, &word(0x77));
    assert_eq!(found.len(), 1);
    assert_eq!(found[0].digest, word(0x02));
    let none = query_events(&view.logs, &[0x11; 20], &transfer_sent_topic());
    assert!(none.is_empty());
}

#[test]
fn select_event_index_boundary() {
    let view = scenario_view();
    let found = query_events(&view.logs, &CONTRACT, &transfer_sent_topic());
    for (i, d) in [0xD0u8, 0xD1, 0xD2].iter().enumerate() {
        assert_eq!(select_event(&found, i as u32).unwrap().digest, word(*d));
    }
    assert_eq!(select_event(&found, 3), Err(AttestError::EventNotFound));
    assert_eq!(select_event(&found, u32::MAX), Err(AttestError::EventNotFound));
}

#[test]
fn select_event_on_no_matches_is_not_found() {
    let empty: Vec<EventRecord> = Vec::new();
    assert_eq!(select_event(&empty, 0), Err(AttestError::EventNotFound));
    assert_eq!(select_event(&empty, 1), Err(AttestError::EventNotFound));
}

#[test]
fn journal_encoding_is_five_words_in_order() {
    let c = commitment();
    let j = Journal { commitment: c, message_digest: word(0xD1), emitter: to_universal_address(&CONTRACT) };
    let bytes = encode_journal(&j);
    assert_eq!(bytes.len(), 160);
    assert_eq!(bytes, expected_journal(&c, word(0xD1), to_universal_address(&CONTRACT)));
    assert_eq!(bytes[0], 0x01);
    assert_eq!(bytes[31], 0x2a);
}

#[test]
fn scenario_index_one_gives_second_digest() {
    let view = Some(scenario_view());
    let journal = attest(&view, &CONTRACT, 1).unwrap();
    assert_eq!(journal, expected_journal(&commitment(), word(0xD1), to_universal_address(&CONTRACT)));
}

#[test]
fn scenario_index_three_is_not_found() {
    let view = Some(scenario_view());
    assert_eq!(attest(&view, &CONTRACT, 3), Err(AttestError::EventNotFound));
}

#[test]
fn every_index_below_count_is_attested() {
    let view = Some(scenario_view());
    let mut seen = Vec::new();
    for i in 0..3u32 {
        let j = attest(&view, &CONTRACT, i).unwrap();
        assert_eq!(&j[..96], &expected_journal(&commitment(), word(0), word(0))[..96]);
        seen.push(j[96..128].to_vec());
    }
    assert_eq!(seen, vec![vec![0xD0; 32], vec![0xD1; 32], vec![0xD2; 32]]);
}

#[test]
fn failed_reconstruction_yields_no_journal() {
    for i in [0u32, 1, 3, u32::MAX] {
        assert_eq!(attest(&None, &CONTRACT, i), Err(AttestError::ViewReconstruction));
        assert_eq!(attest(&None, &[0u8; 20], i), Err(AttestError::ViewReconstruction));
    }
}

#[test]
fn attestation_is_deterministic() {
    let a = attest(&Some(scenario_view()), &CONTRACT, 2).unwrap();
    let b = attest(&Some(scenario_view()), &CONTRACT, 2).unwrap();
    assert_eq!(a, b);
}

#[test]
fn journal_carries_the_view_commitment() {
    let mut view = scenario_view();
    view.commitment.digest = word(0x5E);
    let c = view.commitment;
    let j = attest(&Some(view), &CONTRACT, 0).unwrap();
    assert_eq!(&j[..96], &expected_journal(&c, word(0), word(0))[..96]);
    assert_eq!(&j[32..64], &[0x5E; 32]);
}

#[test]
fn attest_with_other_signature_selects_those_events() {
    let view = Some(scenario_view());
    let j = attest_with_signature(&view, &CONTRACT, &word(0x77), 0).unwrap();
    assert_eq!(&j[96..128], &[0x02; 32]);
    assert_eq!(attest_with_signature(&view, &CONTRACT, &word(0x77), 1), Err(AttestError::EventNotFound));
}
