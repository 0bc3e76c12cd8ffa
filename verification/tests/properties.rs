use collapse_messenger::codec::compute_digest;
use collapse_messenger::content::Content;
use collapse_messenger::fuse::fuse_fixations;
use collapse_messenger::node::{AcceptOutcome, NodeMessenger};
use collapse_messenger::phi::{assemble_message, canonicalize_text, collapse_evidence, Evidence};
use collapse_messenger::reputation::ReputationBook;
use collapse_messenger::transport_mem::MemoryTransport;
use collapse_messenger::types::{digest_to_hex, zero_digest, bytes_digest, PubKey, Timestamp};
use collapse_messenger::verify::verify_digest;

fn text_content(raw: &str) -> Content {
    collapse_evidence(Evidence::DraftText { raw: raw.to_string() })
}

fn demo_capture(seed: u64) -> Evidence {
    Evidence::RawRetinaCapture {
        samples: vec![(500, 500, 900)],
        lambda: 100,
        foveation_cfg: (150, 500, 500),
        basis_cfg: (32, 32),
        cert_seed: seed,
    }
}

#[test]
fn digest_is_deterministic_and_separating() {
    let c1 = text_content("same   content");
    let c2 = text_content("same content");
    let c3 = text_content("other content");
    // identical logical content (after canonicalization) digests identically
    assert!(compute_digest(&c1) == compute_digest(&c2));
    // distinct content digests differently
    assert!(!(compute_digest(&c1) == compute_digest(&c3)));
}

#[test]
fn text_canonicalization_collapses_whitespace() {
    let c = canonicalize_text(&"hello   world".to_string());
    assert_eq!(c.as_str(), "hello world");
    let c2 = canonicalize_text(&"  hello\t\n  world \r\n".to_string());
    assert_eq!(c2.as_str(), "hello world");
    let c3 = canonicalize_text(&"   \t ".to_string());
    assert_eq!(c3.as_str(), "");
}

#[test]
fn sha_wrapper_matches_published_vector() {
    // SHA-256("abc"), the classic test vector
    let d = bytes_digest(&vec![b'a', b'b', b'c']);
    assert_eq!(
        digest_to_hex(&d).as_str(),
        "ba7816bf8f01cfea414140de5dae2223b00361a396177a9cb410ff61f20015ad"
    );
}

#[test]
fn zero_digest_spells_sixty_four_zeros() {
    let hex = digest_to_hex(&zero_digest());
    assert_eq!(hex.len(), 64);
    assert!(hex.chars().all(|ch| ch == '0'));
}

#[test]
fn tampering_breaks_integrity() {
    let pk = PubKey("A".into());
    let msg = assemble_message(&pk, zero_digest(), text_content("original"), Timestamp(1));
    assert!(verify_digest(&msg));
    // content changed, digest left stale
    let mut tampered = msg.clone();
    tampered.content = text_content("forged");
    assert!(!verify_digest(&tampered));
}

#[test]
fn wrong_sender_breaks_integrity() {
    let pk = PubKey("A".into());
    let msg = assemble_message(&pk, zero_digest(), text_content("original"), Timestamp(1));
    let mut stolen = msg.clone();
    stolen.sender = PubKey("B".into());
    assert!(!verify_digest(&stolen));
}

#[test]
fn orphan_is_rejected_with_causality_failure_and_punished() {
    let mut bus = MemoryTransport::new();
    let mut a = NodeMessenger::new(PubKey("A".into()), &mut bus);
    let c = PubKey("C".into());
    let bogus_parent = bytes_digest(&vec![9u8; 7]);
    let orphan = assemble_message(&c, bogus_parent, text_content("i am chaos"), Timestamp(2));
    let outcome = a.receive_internal(&orphan);
    assert_eq!(outcome, AcceptOutcome::CausalityFailure);
    assert_eq!(a.inbox.len(), 0);
    // one punish step from neutral: 500 - 200, in thousandths
    assert_eq!(a.rep.get(&c), 300);
}

#[test]
fn tampered_message_is_rejected_with_integrity_failure() {
    let mut bus = MemoryTransport::new();
    let mut a = NodeMessenger::new(PubKey("A".into()), &mut bus);
    let b = PubKey("B".into());
    let mut msg = assemble_message(&b, zero_digest(), text_content("valid"), Timestamp(3));
    msg.content = text_content("forged");
    let outcome = a.receive_internal(&msg);
    assert_eq!(outcome, AcceptOutcome::IntegrityFailure);
    assert_eq!(a.inbox.len(), 0);
    assert_eq!(a.rep.get(&b), 300);
}

#[test]
fn distrusted_sender_is_rejected_with_trust_failure() {
    let mut bus = MemoryTransport::new();
    let mut a = NodeMessenger::new(PubKey("A".into()), &mut bus);
    let c = PubKey("C".into());
    // two punish steps push C below the admission threshold: 500 -> 300 -> 100
    a.rep.punish(&c);
    a.rep.punish(&c);
    assert_eq!(a.rep.get(&c), 100);
    let msg = assemble_message(&c, zero_digest(), text_content("valid root"), Timestamp(4));
    let outcome = a.receive_internal(&msg);
    assert_eq!(outcome, AcceptOutcome::TrustFailure);
    assert_eq!(a.inbox.len(), 0);
    // punished further, saturating at the floor
    assert_eq!(a.rep.get(&c), 0);
}

#[test]
fn accepted_root_rewards_sender() {
    let mut bus = MemoryTransport::new();
    let mut a = NodeMessenger::new(PubKey("A".into()), &mut bus);
    let b = PubKey("B".into());
    let msg = assemble_message(&b, zero_digest(), text_content("hello"), Timestamp(5));
    let outcome = a.receive_internal(&msg);
    assert_eq!(outcome, AcceptOutcome::Accepted);
    assert_eq!(a.inbox.len(), 1);
    assert_eq!(a.rep.get(&b), 600);
}

#[test]
fn reward_saturates_at_ceiling() {
    let mut book = ReputationBook::new();
    let b = PubKey("B".into());
    for _ in 0..6 {
        book.reward(&b);
    }
    assert_eq!(book.get(&b), 1000);
    book.reward(&b);
    assert_eq!(book.get(&b), 1000);
}

#[test]
fn punish_saturates_at_floor() {
    let mut book = ReputationBook::new();
    let c = PubKey("C".into());
    book.punish(&c);
    book.punish(&c);
    book.punish(&c);
    assert_eq!(book.get(&c), 0);
    book.punish(&c);
    assert_eq!(book.get(&c), 0);
}

#[test]
fn decay_rehabilitates_only_scores_below_neutral() {
    let mut book = ReputationBook::new();
    let low = PubKey("low".into());
    let high = PubKey("high".into());
    book.punish(&low); // 300
    book.reward(&high); // 600
    book.decay();
    // a tenth of the remaining gap toward neutral: 300 + (500-300)/10
    assert_eq!(book.get(&low), 320);
    // at or above neutral: untouched
    assert_eq!(book.get(&high), 600);
    // unseen identities stay neutral
    assert_eq!(book.get(&PubKey("unseen".into())), 500);
}

#[test]
fn admit_threshold_is_point_three() {
    let book = ReputationBook::new();
    assert_eq!(book.admit_threshold(), 300);
}

#[test]
fn fuse_of_nothing_is_nothing() {
    assert!(fuse_fixations(&Vec::new()).is_none());
}

#[test]
fn fuse_certifies_exact_unit_fraction() {
    let mut retinas = Vec::new();
    for seed in 0..3u64 {
        if let Content::Retina(r) = collapse_evidence(demo_capture(seed)) {
            retinas.push(r);
        }
    }
    assert_eq!(retinas.len(), 3);
    let fused = fuse_fixations(&retinas).expect("non-empty fusion");
    assert_eq!(fused.fused.cert.fused_variance_drop.num, 1);
    assert_eq!(fused.fused.cert.fused_variance_drop.den, 3);
    // the fused certificate changes the canonical bytes, so the digest
    // moves deterministically with the fixation count
    let alone = fuse_fixations(&retinas[..1].to_vec()).expect("single fusion");
    assert_eq!(alone.fused.cert.fused_variance_drop.den, 1);
    assert!(!(alone.fused_digest == fused.fused_digest));
}

#[test]
fn blob_collapse_is_content_addressed() {
    let bytes = vec![1u8, 2, 3, 4, 5];
    let c = collapse_evidence(Evidence::Blob { bytes: bytes.clone(), mime: "image/png".into() });
    match c {
        Content::Blob(body) => {
            assert_eq!(body.len, 5);
            assert_eq!(body.mime.as_str(), "image/png");
            assert!(body.object_digest == bytes_digest(&bytes));
            assert_eq!(body.object_digest.0.len(), 32);
        },
        _ => panic!("blob evidence must collapse to a blob descriptor"),
    }
}

#[test]
fn heal_is_a_no_op() {
    let mut bus = MemoryTransport::new();
    let mut a = NodeMessenger::new(PubKey("A".into()), &mut bus);
    a.send(&mut bus, zero_digest(), Evidence::DraftText { raw: "x".into() });
    let before = a.inbox.len();
    a.heal();
    assert_eq!(a.inbox.len(), before);
}
