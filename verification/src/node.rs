//! The per-participant orchestrator: send, receive, acceptance,
//! rejection, and status acknowledgements.
//!
//! A node owns its inbox, reputation book, and retinal cache exclusively;
//! every state change goes through the acceptance path, which runs the
//! integrity check, then the causal check, then the trust gate, in that
//! fixed order: an unverifiable forgery must never perturb causal state
//! or trust beyond punishing its claimed sender. A node runs its own
//! freshly minted messages through the same path before broadcasting
//! them.

use vstd::prelude::*;
use vstd::pervasive::VecAdditionalExecFns;
use crate::assoc::{
    lemma_pairs_map_contains, lemma_pairs_map_push, lemma_pairs_map_update, pairs_map,
    pairs_unique,
};
use crate::content::{Content, ContentV, Message, MessageV, RetinaBody, RetinaV, StatusEvent, StatusV};
use crate::phi::{assemble_message, phi_collapse, spec_assemble, spec_collapse, Evidence, EvidenceV};
use crate::reputation::{
    punish_val, reward_val, score_of, ReputationBook, ADMIT_THRESHOLD,
};
use crate::transport::Transport;
use crate::transport_mem::MemoryTransport;
use crate::types::{now_timestamp, Digest, PubKey, Timestamp};
use crate::verify::{causality_ok, integrity_ok, verify_digest, verify_thread};

verus! {

/// The judgment the acceptance path passes on one message: admitted, or
/// rejected for exactly one attributable reason.
#[derive(Clone, Copy, Debug, PartialEq, Eq, Structural)]
pub enum AcceptOutcome {
    /// Appended to the inbox; the sender is rewarded.
    Accepted,
    /// Digest or signature mismatch; the claimed sender is punished.
    IntegrityFailure,
    /// The parent digest is unknown to this observer; the sender is
    /// punished.
    CausalityFailure,
    /// The sender sits below the admission threshold; it is punished
    /// further.
    TrustFailure,
}

/// The mathematical value of a [`NodeMessenger`].
pub struct NodeV {
    pub id: Seq<char>,
    pub inbox: Seq<MessageV>,
    pub scores: Map<Seq<char>, u32>,
    pub retinas: Map<Seq<u8>, RetinaV>,
    pub peers: Seq<Seq<char>>,
}

/// The judgment the acceptance path passes on `m` in state `n`: the
/// integrity check runs first, then the causal check against the inbox,
/// then the trust gate.
pub open spec fn spec_outcome(m: MessageV, n: NodeV) -> AcceptOutcome {
    if !integrity_ok(m) {
        AcceptOutcome::IntegrityFailure
    } else if !causality_ok(m, n.inbox) {
        AcceptOutcome::CausalityFailure
    } else if score_of(n.scores, m.sender) < ADMIT_THRESHOLD {
        AcceptOutcome::TrustFailure
    } else {
        AcceptOutcome::Accepted
    }
}

/// What one message does to a node's state: an admitted message is
/// appended to the inbox, its retinal content (if any) is cached under
/// its digest, and its sender is rewarded; a rejected message changes
/// nothing but the claimed sender's score, which is punished.
pub open spec fn accept_step(n: NodeV, m: MessageV) -> NodeV {
    if spec_outcome(m, n) is Accepted {
        NodeV {
            inbox: n.inbox.push(m),
            scores: n.scores.insert(m.sender, reward_val(score_of(n.scores, m.sender))),
            retinas: (match m.content {
                ContentV::Retina(r) => n.retinas.insert(m.digest, r),
                _ => n.retinas,
            }),
            ..n
        }
    } else {
        NodeV {
            scores: n.scores.insert(m.sender, punish_val(score_of(n.scores, m.sender))),
            ..n
        }
    }
}

/// Messages drained from the bus run through the acceptance path one by
/// one, in delivery order.
pub open spec fn accept_fold(n: NodeV, ms: Seq<MessageV>) -> NodeV
    decreases ms.len(),
{
    if ms.len() == 0 {
        n
    } else {
        accept_fold(accept_step(n, ms[0]), ms.drop_first())
    }
}

pub proof fn lemma_accept_fold_snoc(n: NodeV, ms: Seq<MessageV>, m: MessageV)
    ensures
        accept_fold(n, ms.push(m)) == accept_step(accept_fold(n, ms), m),
    decreases ms.len(),
{
    let e = ms.push(m);
    if ms.len() == 0 {
        assert(e.drop_first() =~= Seq::<MessageV>::empty());
        assert(accept_fold(n, e) == accept_fold(accept_step(n, m), e.drop_first()));
    } else {
        assert(e.drop_first() =~= ms.drop_first().push(m));
        lemma_accept_fold_snoc(accept_step(n, ms[0]), ms.drop_first(), m);
        assert(accept_fold(n, e) == accept_fold(accept_step(n, e[0]), e.drop_first()));
        assert(e[0] == ms[0]);
    }
}

/// What a completed send leaves behind, for the timestamp `ts` the clock
/// returned: the assembled message ran through the sender's own
/// acceptance path, and one copy was appended to every registered queue
/// but the sender's own.
pub open spec fn send_post(
    n0: NodeV,
    n1: NodeV,
    b0: Map<Seq<char>, Seq<MessageV>>,
    b1: Map<Seq<char>, Seq<MessageV>>,
    parent: Seq<u8>,
    content: ContentV,
    ts: u64,
) -> bool {
    let m = spec_assemble(n0.id, parent, content, ts);
    &&& n1 == accept_step(n0, m)
    &&& b1.dom() == b0.dom()
    &&& forall|k: Seq<char>| #[trigger] b0.contains_key(k) ==> b1[k] == (if k != n0.id {
        b0[k].push(m)
    } else {
        b0[k]
    })
}

/// A participant: its identity, its append-only inbox of accepted
/// messages, its reputation book, its cache of accepted retinal content
/// by digest, and the peers it knows socially. Delivery itself goes
/// through the shared bus, which is passed to each operation.
pub struct NodeMessenger {
    pub id: PubKey,
    pub inbox: Vec<Message>,
    pub rep: ReputationBook,
    pub retina_store: Vec<(Digest, RetinaBody)>,
    pub peers: Vec<PubKey>,
}

impl View for NodeMessenger {
    type V = NodeV;

    open spec fn view(&self) -> NodeV {
        NodeV {
            id: self.id@,
            inbox: self.inbox.deep_view(),
            scores: self.rep@,
            retinas: pairs_map(self.retina_store@),
            peers: self.peers.deep_view(),
        }
    }
}

impl NodeMessenger {
    /// Well-formed: the reputation book is, and the retinal cache holds
    /// one entry per digest.
    pub open spec fn wf(&self) -> bool {
        self.rep.wf() && pairs_unique(self.retina_store@)
    }

    /// A fresh participant, registered on the bus, with an empty inbox,
    /// a neutral reputation book, and an empty retinal cache.
    pub fn new(id: PubKey, bus: &mut MemoryTransport) -> (r: NodeMessenger)
        requires
            old(bus).wf(),
        ensures
            final(bus).wf(),
            final(bus)@ == (if old(bus)@.contains_key(id@) {
                old(bus)@
            } else {
                old(bus)@.insert(id@, Seq::<MessageV>::empty())
            }),
            r.wf(),
            r@ == (NodeV {
                id: id@,
                inbox: Seq::<MessageV>::empty(),
                scores: Map::<Seq<char>, u32>::empty(),
                retinas: Map::<Seq<u8>, RetinaV>::empty(),
                peers: Seq::<Seq<char>>::empty(),
            }),
    {
        bus.register_peer(id.clone());
        let r = NodeMessenger {
            id,
            inbox: Vec::new(),
            rep: ReputationBook::new(),
            retina_store: Vec::new(),
            peers: Vec::new(),
        };
        proof {
            assert(r.inbox.deep_view() =~= Seq::<MessageV>::empty());
            assert(r.peers.deep_view() =~= Seq::<Seq<char>>::empty());
        }
        r
    }

    /// Record a peer identity. This is social knowledge only; delivery
    /// goes by the bus's own registry.
    pub fn add_peer(&mut self, peer_id: PubKey)
        requires
            old(self).wf(),
        ensures
            final(self).wf(),
            final(self)@ == (NodeV { peers: old(self)@.peers.push(peer_id@), ..old(self)@ }),
    {
        self.peers.push(peer_id);
        proof {
            assert(self.peers.deep_view() =~= old(self).peers.deep_view().push(peer_id@));
        }
    }

    /// Cache retinal content under its message digest, replacing any
    /// earlier entry for the same digest.
    fn cache_retina(&mut self, digest: &Digest, body: &RetinaBody)
        requires
            old(self).wf(),
        ensures
            final(self).wf(),
            final(self)@ == (NodeV {
                retinas: old(self)@.retinas.insert(digest@, body@),
                ..old(self)@
            }),
            final(self).id == old(self).id,
            final(self).inbox == old(self).inbox,
    {
        let entry = (digest.clone(), body.clone());
        match self.find_retina(digest) {
            Some(i) => {
                proof {
                    lemma_pairs_map_update(self.retina_store@, i as int, entry);
                }
                self.retina_store.set(i, entry);
            },
            None => {
                proof {
                    lemma_pairs_map_contains::<Digest, RetinaBody>(self.retina_store@, digest@);
                    lemma_pairs_map_push(self.retina_store@, entry);
                }
                self.retina_store.push(entry);
            },
        }
    }

    /// The index of the cached retinal entry for a digest, if any.
    fn find_retina(&self, digest: &Digest) -> (r: Option<usize>)
        ensures
            match r {
                Some(i) => i < self.retina_store@.len() && self.retina_store@[i as int].0@
                    == digest@,
                None => forall|j: int| 0 <= j < self.retina_store@.len()
                    ==> self.retina_store@[j].0@ != digest@,
            },
    {
        let mut i: usize = 0;
        while i < self.retina_store.len()
            invariant
                i <= self.retina_store@.len(),
                forall|j: int| 0 <= j < i ==> self.retina_store@[j].0@ != digest@,
            decreases self.retina_store@.len() - i,
        {
            if self.retina_store[i].0 == *digest {
                return Some(i);
            }
            i = i + 1;
        }
        None
    }

    /// The core intake, applied to every inbound or self-originated
    /// message: integrity first, then causality against the local inbox,
    /// then the reputation gate; accept and reward, or drop and punish.
    /// A rejected message is terminal: not retried, not stored, and
    /// attributable to exactly one failure kind.
    pub fn receive_internal(&mut self, msg: &Message) -> (r: AcceptOutcome)
        requires
            old(self).wf(),
        ensures
            final(self).wf(),
            r == spec_outcome(msg@, old(self)@),
            final(self)@ == accept_step(old(self)@, msg@),
            r == AcceptOutcome::Accepted <==> spec_outcome(msg@, old(self)@) is Accepted,
    {
        if !verify_digest(msg) {
            self.rep.punish(&msg.sender);
            return AcceptOutcome::IntegrityFailure;
        }
        if !verify_thread(msg, &self.inbox) {
            self.rep.punish(&msg.sender);
            return AcceptOutcome::CausalityFailure;
        }
        let sender_rep = self.rep.get(&msg.sender);
        if sender_rep < self.rep.admit_threshold() {
            self.rep.punish(&msg.sender);
            return AcceptOutcome::TrustFailure;
        }
        let ghost n0 = self@;
        self.inbox.push(msg.clone());
        proof {
            assert(self.inbox.deep_view() =~= n0.inbox.push(msg@));
        }
        if let Content::Retina(r) = &msg.content {
            let digest = msg.digest.clone();
            self.cache_retina(&digest, r);
        }
        self.rep.reward(&msg.sender);
        AcceptOutcome::Accepted
    }

    /// Drain everything the bus queued for this participant and run each
    /// message, in delivery order, through the acceptance path.
    pub fn poll(&mut self, bus: &mut MemoryTransport)
        requires
            old(self).wf(),
            old(bus).wf(),
        ensures
            final(self).wf(),
            final(bus).wf(),
            final(self)@ == accept_fold(
                old(self)@,
                (if old(bus)@.contains_key(old(self)@.id) {
                    old(bus)@[old(self)@.id]
                } else {
                    Seq::<MessageV>::empty()
                }),
            ),
            final(bus)@ == (if old(bus)@.contains_key(old(self)@.id) {
                old(bus)@.insert(old(self)@.id, Seq::<MessageV>::empty())
            } else {
                old(bus)@
            }),
    {
        let inbound = bus.drain_inbound(&self.id);
        let ghost ms = inbound.deep_view();
        proof {
            assert(ms.take(0) =~= Seq::<MessageV>::empty());
        }
        let mut i: usize = 0;
        while i < inbound.len()
            invariant
                i <= inbound@.len(),
                ms == inbound.deep_view(),
                self.wf(),
                self@ == accept_fold(old(self)@, ms.take(i as int)),
            decreases inbound@.len() - i,
        {
            let m = &inbound[i];
            proof {
                assert(m@ == ms[i as int]);
            }
            self.receive_internal(m);
            proof {
                lemma_accept_fold_snoc(old(self)@, ms.take(i as int), ms[i as int]);
                assert(ms.take(i + 1 as int) =~= ms.take(i as int).push(ms[i as int]));
            }
            i = i + 1;
        }
        proof {
            assert(ms.take(inbound@.len() as int) =~= ms);
        }
    }

    /// Produce evidence, collapse it, assemble a signed message with the
    /// given timestamp, apply the local acceptance path, and broadcast to
    /// every registered peer.
    pub fn send_at(&mut self, bus: &mut MemoryTransport, parent: Digest, ev: Evidence, now: Timestamp)
        requires
            old(self).wf(),
            old(bus).wf(),
            parent.wf(),
            ev@.wf(),
        ensures
            final(self).wf(),
            final(bus).wf(),
            send_post(old(self)@, final(self)@, old(bus)@, final(bus)@, parent@, spec_collapse(ev@), now@),
    {
        let content = phi_collapse(ev);
        let msg = assemble_message(&self.id, parent, content, now);
        self.receive_internal(&msg);
        bus.broadcast(&self.id, &msg);
    }

    /// As [`Self::send_at`], with the timestamp read from the clock.
    pub fn send(&mut self, bus: &mut MemoryTransport, parent: Digest, ev: Evidence)
        requires
            old(self).wf(),
            old(bus).wf(),
            parent.wf(),
            ev@.wf(),
        ensures
            final(self).wf(),
            final(bus).wf(),
            exists|ts: u64|
                send_post(old(self)@, final(self)@, old(bus)@, final(bus)@, parent@, spec_collapse(ev@), ts),
    {
        let now = now_timestamp();
        self.send_at(bus, parent, ev, now);
        proof {
            assert(send_post(
                old(self)@,
                self@,
                old(bus)@,
                bus@,
                parent@,
                spec_collapse(ev@),
                now@,
            ));
        }
    }

    /// Send a Delivered receipt for the given digest, as an ordinary
    /// message whose parent is the acknowledged digest: receipts are
    /// first-class causal messages, not a side channel.
    pub fn ack_delivered_at(&mut self, bus: &mut MemoryTransport, parent_digest: Digest, now: Timestamp)
        requires
            old(self).wf(),
            old(bus).wf(),
            parent_digest.wf(),
        ensures
            final(self).wf(),
            final(bus).wf(),
            send_post(
                old(self)@,
                final(self)@,
                old(bus)@,
                final(bus)@,
                parent_digest@,
                ContentV::Status(StatusV::Delivered { digest_ack: parent_digest@, at: now@ }),
                now@,
            ),
    {
        let evt = StatusEvent::Delivered { digest_ack: parent_digest.clone(), at: now };
        self.send_at(bus, parent_digest, Evidence::StatusIntent(evt), now);
    }

    /// As [`Self::ack_delivered_at`], with the timestamp read from the
    /// clock.
    pub fn ack_delivered(&mut self, bus: &mut MemoryTransport, parent_digest: Digest)
        requires
            old(self).wf(),
            old(bus).wf(),
            parent_digest.wf(),
        ensures
            final(self).wf(),
            final(bus).wf(),
            exists|ts: u64|
                send_post(
                    old(self)@,
                    final(self)@,
                    old(bus)@,
                    final(bus)@,
                    parent_digest@,
                    ContentV::Status(StatusV::Delivered { digest_ack: parent_digest@, at: ts }),
                    ts,
                ),
    {
        let now = now_timestamp();
        self.ack_delivered_at(bus, parent_digest, now);
    }

    /// Send a Read receipt for the given digest, as an ordinary message
    /// whose parent is the acknowledged digest.
    pub fn ack_read_at(&mut self, bus: &mut MemoryTransport, parent_digest: Digest, now: Timestamp)
        requires
            old(self).wf(),
            old(bus).wf(),
            parent_digest.wf(),
        ensures
            final(self).wf(),
            final(bus).wf(),
            send_post(
                old(self)@,
                final(self)@,
                old(bus)@,
                final(bus)@,
                parent_digest@,
                ContentV::Status(StatusV::Read { digest_ack: parent_digest@, at: now@ }),
                now@,
            ),
    {
        let evt = StatusEvent::Read { digest_ack: parent_digest.clone(), at: now };
        self.send_at(bus, parent_digest, Evidence::StatusIntent(evt), now);
    }

    /// As [`Self::ack_read_at`], with the timestamp read from the clock.
    pub fn ack_read(&mut self, bus: &mut MemoryTransport, parent_digest: Digest)
        requires
            old(self).wf(),
            old(bus).wf(),
            parent_digest.wf(),
        ensures
            final(self).wf(),
            final(bus).wf(),
            exists|ts: u64|
                send_post(
                    old(self)@,
                    final(self)@,
                    old(bus)@,
                    final(bus)@,
                    parent_digest@,
                    ContentV::Status(StatusV::Read { digest_ack: parent_digest@, at: ts }),
                    ts,
                ),
    {
        let now = now_timestamp();
        self.ack_read_at(bus, parent_digest, now);
    }

    /// Deliberately a no-op: re-running causal acceptance as messages
    /// arrive through polling is the only healing this design has. There
    /// is no request-missing-ancestry recovery path; whether causal gaps
    /// should be actively repaired is an open question, left open here.
    pub fn heal(&mut self)
        ensures
            final(self)@ == old(self)@,
            old(self).wf() ==> final(self).wf(),
    {
    }

    /// Apply one decay round to the reputation book.
    pub fn decay_reputation(&mut self)
        requires
            old(self).wf(),
        ensures
            final(self).wf(),
            final(self)@.id == old(self)@.id,
            final(self)@.inbox == old(self)@.inbox,
            final(self)@.retinas == old(self)@.retinas,
            final(self)@.peers == old(self)@.peers,
            final(self)@.scores.dom() == old(self)@.scores.dom(),
            forall|id: Seq<char>|
                score_of(final(self)@.scores, id) == crate::reputation::decay_val(
                    score_of(old(self)@.scores, id),
                ),
    {
        self.rep.decay();
    }
}

} // verus!
