use collapse_messenger::content::{Content, StatusEvent};
use collapse_messenger::phi::{assemble_message, collapse_evidence, Evidence};
use collapse_messenger::types::{bytes_digest, zero_digest, PubKey, Timestamp};
use collapse_messenger::wire::{decode_message, encode_message};

fn round_trip_and_check(content: Content) {
    let pk = PubKey("sender-α".into());
    let parent = zero_digest();
    let msg = assemble_message(&pk, parent, content, Timestamp(123456789));
    let bytes = encode_message(&msg);
    let back = decode_message(bytes.as_slice()).expect("canonical encoding must decode");
    assert!(back.sender == msg.sender);
    assert!(back.parent == msg.parent);
    assert!(back.digest == msg.digest);
    assert!(back.signature == msg.signature);
    assert_eq!(back.timestamp.0, msg.timestamp.0);
    match (&back.content, &msg.content) {
        (Content::Text(t1), Content::Text(t2)) => {
            assert_eq!(t1.canonical_text, t2.canonical_text)
        },
        (Content::Retina(r1), Content::Retina(r2)) => {
            assert_eq!(r1.omega_id, r2.omega_id);
            assert_eq!(r1.a_hat, r2.a_hat);
            assert_eq!(r1.lambda, r2.lambda);
            assert_eq!(r1.cert.fused_variance_drop, r2.cert.fused_variance_drop);
            assert_eq!(r1.cert.deterministic_hash, r2.cert.deterministic_hash);
        },
        (Content::Status(s1), Content::Status(s2)) => match (s1, s2) {
            (
                StatusEvent::Delivered { digest_ack: d1, at: t1 },
                StatusEvent::Delivered { digest_ack: d2, at: t2 },
            ) => {
                assert!(d1 == d2);
                assert_eq!(t1.0, t2.0);
            },
            (StatusEvent::TypingStart, StatusEvent::TypingStop) => {
                panic!("variant changed in flight")
            },
            _ => {},
        },
        (Content::Blob(b1), Content::Blob(b2)) => {
            assert_eq!(b1.mime, b2.mime);
            assert_eq!(b1.len, b2.len);
            assert!(b1.object_digest == b2.object_digest);
        },
        _ => panic!("content kind changed in flight"),
    }
}

#[test]
fn wire_round_trip_text() {
    round_trip_and_check(collapse_evidence(Evidence::DraftText {
        raw: "hello   wire\u{2028}world".into(),
    }));
}

#[test]
fn wire_round_trip_retina() {
    round_trip_and_check(collapse_evidence(Evidence::RawRetinaCapture {
        samples: vec![(500, 500, 900)],
        lambda: 100,
        foveation_cfg: (-150, 500, -500),
        basis_cfg: (32, 16),
        cert_seed: 42,
    }));
}

#[test]
fn wire_round_trip_status() {
    let ack = bytes_digest(&vec![42u8; 3]);
    round_trip_and_check(collapse_evidence(Evidence::StatusIntent(StatusEvent::Delivered {
        digest_ack: ack,
        at: Timestamp(77),
    })));
}

#[test]
fn wire_round_trip_blob() {
    round_trip_and_check(collapse_evidence(Evidence::Blob {
        bytes: vec![0u8, 255, 17, 3],
        mime: "application/octet-stream".into(),
    }));
}

#[test]
fn decode_rejects_malformed_input() {
    // junk
    assert!(decode_message(&[1, 2, 3]).is_none());
    // empty
    assert!(decode_message(&[]).is_none());
    // a valid encoding, truncated
    let msg = assemble_message(
        &PubKey("A".into()),
        zero_digest(),
        collapse_evidence(Evidence::DraftText { raw: "x".into() }),
        Timestamp(1),
    );
    let bytes = encode_message(&msg);
    assert!(decode_message(&bytes[..bytes.len() - 1]).is_none());
    // a valid encoding with trailing garbage
    let mut padded = bytes.clone();
    padded.push(0);
    assert!(decode_message(padded.as_slice()).is_none());
    // the untouched encoding still decodes
    assert!(decode_message(bytes.as_slice()).is_some());
}
