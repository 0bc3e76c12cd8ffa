use collapse_messenger::content::Content;
use collapse_messenger::node::NodeMessenger;
use collapse_messenger::phi::Evidence;
use collapse_messenger::transport_mem::MemoryTransport;
use collapse_messenger::types::{zero_digest, Digest, PubKey};

fn three_nodes(bus: &mut MemoryTransport) -> (NodeMessenger, NodeMessenger, NodeMessenger) {
    let a = NodeMessenger::new(PubKey("A".into()), bus);
    let b = NodeMessenger::new(PubKey("B".into()), bus);
    let c = NodeMessenger::new(PubKey("C".into()), bus);
    (a, b, c)
}

#[test]
fn root_text_reaches_every_observer() {
    let mut bus = MemoryTransport::new();
    let (mut a, mut b, mut c) = three_nodes(&mut bus);

    // A sends a root text whose whitespace is not canonical
    a.send(&mut bus, zero_digest(), Evidence::DraftText { raw: "hello   world".into() });
    b.poll(&mut bus);
    c.poll(&mut bus);

    // each observer independently accepted it
    assert_eq!(a.inbox.len(), 1);
    assert_eq!(b.inbox.len(), 1);
    assert_eq!(c.inbox.len(), 1);

    // the stored content is canonical
    match &b.inbox[0].content {
        Content::Text(t) => assert_eq!(t.canonical_text.as_str(), "hello world"),
        _ => panic!("expected text content"),
    }

    // each accepter's local view rewards A by exactly one step from neutral
    let a_id = PubKey("A".into());
    assert_eq!(a.rep.get(&a_id), 600);
    assert_eq!(b.rep.get(&a_id), 600);
    assert_eq!(c.rep.get(&a_id), 600);
}

#[test]
fn retina_reply_rewards_sender_in_each_view() {
    let mut bus = MemoryTransport::new();
    let (mut a, mut b, mut c) = three_nodes(&mut bus);

    a.send(&mut bus, zero_digest(), Evidence::DraftText { raw: "root".into() });
    b.poll(&mut bus);
    c.poll(&mut bus);
    let root_digest = a.inbox.last().unwrap().digest.clone();

    // B replies to A's root with a retinal capture
    b.send(
        &mut bus,
        root_digest,
        Evidence::RawRetinaCapture {
            samples: vec![(500, 500, 900)],
            lambda: 100,
            foveation_cfg: (150, 500, 500),
            basis_cfg: (32, 32),
            cert_seed: 1,
        },
    );
    a.poll(&mut bus);
    c.poll(&mut bus);

    // both other inboxes gain the retinal message
    assert_eq!(a.inbox.len(), 2);
    assert_eq!(c.inbox.len(), 2);
    assert!(matches!(a.inbox[1].content, Content::Retina(_)));
    assert!(matches!(c.inbox[1].content, Content::Retina(_)));

    // each locally rewards B by one step from neutral
    let b_id = PubKey("B".into());
    assert_eq!(a.rep.get(&b_id), 600);
    assert_eq!(c.rep.get(&b_id), 600);
}

#[test]
fn unobserved_parent_is_rejected_by_every_observer() {
    let mut bus = MemoryTransport::new();
    let (mut a, mut b, mut c) = three_nodes(&mut bus);

    // C sends a message whose parent digest was never observed by A or B
    let bogus_parent = Digest(vec![9u8; 32]);
    c.send(&mut bus, bogus_parent, Evidence::DraftText { raw: "orphan".into() });
    a.poll(&mut bus);
    b.poll(&mut bus);

    // both reject it: no inbox growth
    assert_eq!(a.inbox.len(), 0);
    assert_eq!(b.inbox.len(), 0);

    // each independently drops C's reputation by exactly one punish step
    let c_id = PubKey("C".into());
    assert_eq!(a.rep.get(&c_id), 300);
    assert_eq!(b.rep.get(&c_id), 300);

    // C also rejected its own orphan locally and punished itself
    assert_eq!(c.inbox.len(), 0);
    assert_eq!(c.rep.get(&c_id), 300);
}
