use collapse_messenger::content::Content;
use collapse_messenger::node::NodeMessenger;
use collapse_messenger::phi::Evidence;
use collapse_messenger::transport_mem::MemoryTransport;
use collapse_messenger::types::{zero_digest, Digest, PubKey};

#[test]
fn basic_flow_demo() {
    // shared in-memory bus
    let mut bus = MemoryTransport::new();

    // three nodes registered on the same bus
    let mut a = NodeMessenger::new(PubKey("A".into()), &mut bus);
    let mut b = NodeMessenger::new(PubKey("B".into()), &mut bus);
    let mut c = NodeMessenger::new(PubKey("C".into()), &mut bus);

    // note: we record "peers" for social knowledge; delivery is via bus.broadcast()
    a.add_peer(PubKey("B".into()));
    a.add_peer(PubKey("C".into()));
    b.add_peer(PubKey("A".into()));
    b.add_peer(PubKey("C".into()));
    c.add_peer(PubKey("A".into()));
    c.add_peer(PubKey("B".into()));

    // 1. A sends a root canonical text message (parent = zero_digest)
    let root_parent = zero_digest();
    a.send(
        &mut bus,
        root_parent,
        Evidence::DraftText { raw: "hello    world   from A".into() },
    );

    // At this instant:
    //  - A accepted its own message
    //  - bus queued copies for B and C
    // So deliver them:
    b.poll(&mut bus);
    c.poll(&mut bus);

    // Get the digest of A's last message to use as the parent for replies
    let root_digest = a.inbox.last().unwrap().digest.clone();

    // 2. B replies with a retinal witness message to A's message
    // (fractional quantities are in thousandths)
    b.send(
        &mut bus,
        root_digest.clone(),
        Evidence::RawRetinaCapture {
            samples: vec![(500, 500, 900)], // stub sample
            lambda: 100,
            foveation_cfg: (150, 500, 500),
            basis_cfg: (32, 32),
            cert_seed: 42,
        },
    );

    // Now bus has B's retinal message queued for A and C
    a.poll(&mut bus);
    c.poll(&mut bus);

    // 3. C attempts to send an orphan reply to a digest nobody has
    let bogus_parent = Digest(vec![9u8; 32]);
    c.send(
        &mut bus,
        bogus_parent,
        Evidence::DraftText { raw: "malicious fork attempt".into() },
    );

    // That bogus message got broadcast too. Let others poll:
    a.poll(&mut bus);
    b.poll(&mut bus);

    // After that:
    // - A should have accepted legit messages
    // - A should have punished C for orphan injection
    // - Retinal content from B should be in A's inbox

    println!("A inbox len         = {}", a.inbox.len());
    println!("A rep(A)            = {}", a.rep.get(&PubKey("A".into())));
    println!("A rep(B)            = {}", a.rep.get(&PubKey("B".into())));
    println!("A rep(C)            = {}", a.rep.get(&PubKey("C".into())));

    assert!(a.inbox.len() >= 2, "A should have at least its own text + B's retinal");

    // B should have been rewarded for good behavior (0.6 in thousandths)
    assert!(a.rep.get(&PubKey("B".into())) >= 600, "B should be rewarded");

    // C should have been punished for orphan injection (0.5 in thousandths)
    assert!(a.rep.get(&PubKey("C".into())) <= 500, "C should be punished/quarantined");

    // sanity: A saw retinal content
    let a_saw_retina = a.inbox.iter().any(|m| matches!(m.content, Content::Retina(_)));
    println!("A saw retinal content? {}", a_saw_retina);
    assert!(a_saw_retina, "A should have received at least one Retina message from B");
}
