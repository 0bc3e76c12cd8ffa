//! A shared in-memory message bus: one queue per registered identity.
//! `send_to` enqueues to one queue, `broadcast` to every queue but the
//! sender's, `drain_inbound` hands a participant its queued messages and
//! clears them.

use vstd::prelude::*;
use vstd::pervasive::VecAdditionalExecFns;
use crate::assoc::{
    lemma_pairs_map_contains, lemma_pairs_map_push, lemma_pairs_map_transform,
    lemma_pairs_map_update, lemma_pairs_map_value, pairs_map, pairs_unique,
};
use crate::content::{Message, MessageV};
use crate::transport::Transport;
use crate::types::PubKey;

verus! {

/// The shared in-memory bus. Its mathematical value is the map from each
/// registered identity to its queued messages in arrival order.
pub struct MemoryTransport {
    queues: Vec<(PubKey, Vec<Message>)>,
}

impl View for MemoryTransport {
    type V = Map<Seq<char>, Seq<MessageV>>;

    closed spec fn view(&self) -> Map<Seq<char>, Seq<MessageV>> {
        pairs_map(self.queues@)
    }
}

impl MemoryTransport {
    /// Well-formed: one queue per identity.
    pub closed spec fn wf(&self) -> bool {
        pairs_unique(self.queues@)
    }

    /// An empty bus with no registered identity.
    pub fn new() -> (r: MemoryTransport)
        ensures
            r.wf(),
            r@ == Map::<Seq<char>, Seq<MessageV>>::empty(),
    {
        MemoryTransport { queues: Vec::new() }
    }

    /// The index of the identity's queue, if it is registered.
    fn find(&self, who: &PubKey) -> (r: Option<usize>)
        ensures
            match r {
                Some(i) => i < self.queues@.len() && self.queues@[i as int].0@ == who@,
                None => forall|i: int| 0 <= i < self.queues@.len()
                    ==> self.queues@[i].0@ != who@,
            },
    {
        let mut i: usize = 0;
        while i < self.queues.len()
            invariant
                i <= self.queues@.len(),
                forall|j: int| 0 <= j < i ==> self.queues@[j].0@ != who@,
            decreases self.queues@.len() - i,
        {
            if self.queues[i].0 == *who {
                return Some(i);
            }
            i = i + 1;
        }
        None
    }

    /// Register an identity: give it an empty queue unless it already has
    /// one.
    pub fn register_peer(&mut self, who: PubKey)
        requires
            old(self).wf(),
        ensures
            final(self).wf(),
            final(self)@ == (if old(self)@.contains_key(who@) {
                old(self)@
            } else {
                old(self)@.insert(who@, Seq::<MessageV>::empty())
            }),
    {
        proof {
            lemma_pairs_map_contains::<PubKey, Vec<Message>>(self.queues@, who@);
        }
        match self.find(&who) {
            Some(_) => {
            },
            None => {
                let entry = (who, Vec::<Message>::new());
                proof {
                    lemma_pairs_map_push(self.queues@, entry);
                    assert(entry.1.deep_view() =~= Seq::<MessageV>::empty());
                }
                self.queues.push(entry);
            },
        }
    }
}

impl Transport for MemoryTransport {
    open spec fn bus_view(&self) -> Map<Seq<char>, Seq<MessageV>> {
        self@
    }

    open spec fn bus_wf(&self) -> bool {
        self.wf()
    }

    fn send_to(&mut self, to: &PubKey, msg: &Message) {
        proof {
            lemma_pairs_map_contains::<PubKey, Vec<Message>>(self.queues@, to@);
        }
        match self.find(to) {
            Some(i) => {
                proof {
                    lemma_pairs_map_value(self.queues@, i as int);
                }
                let ghost qs0 = self.queues@;
                let mut pair = (PubKey(String::new()), Vec::<Message>::new());
                self.queues.set_and_swap(i, &mut pair);
                let (key, mut q) = pair;
                let ghost q0 = q.deep_view();
                q.push(msg.clone());
                proof {
                    assert(q.deep_view() =~= q0.push(msg@));
                    lemma_pairs_map_update(qs0, i as int, (key, q));
                    assert(self.queues@.update(i as int, (key, q)) =~= qs0.update(
                        i as int,
                        (key, q),
                    ));
                }
                self.queues.set(i, (key, q));
            },
            None => {
            },
        }
    }

    fn broadcast(&mut self, from: &PubKey, msg: &Message) {
        let ghost qs0 = self.queues@;
        let ghost f = |k: Seq<char>, v: Seq<MessageV>|
            if k != from@ {
                v.push(msg@)
            } else {
                v
            };
        let n = self.queues.len();
        let mut i: usize = 0;
        while i < n
            invariant
                i <= n,
                n == self.queues@.len(),
                self.queues@.len() == qs0.len(),
                pairs_unique(qs0),
                forall|j: int| 0 <= j < i ==> self.queues@[j].0.deep_view() == qs0[j].0.deep_view()
                    && self.queues@[j].1.deep_view() == (if qs0[j].0.deep_view() != from@ {
                    qs0[j].1.deep_view().push(msg@)
                } else {
                    qs0[j].1.deep_view()
                }),
                forall|j: int| i <= j < n ==> self.queues@[j] == qs0[j],
            decreases n - i,
        {
            let mut pair = (PubKey(String::new()), Vec::<Message>::new());
            proof {
                assert(self.queues@[i as int] == qs0[i as int]);
            }
            self.queues.set_and_swap(i, &mut pair);
            let (key, mut q) = pair;
            let ghost q0 = q.deep_view();
            proof {
                assert(key == qs0[i as int].0);
                assert(q0 == qs0[i as int].1.deep_view());
            }
            if !(key == *from) {
                q.push(msg.clone());
                proof {
                    assert(q.deep_view() =~= q0.push(msg@));
                }
            }
            self.queues.set(i, (key, q));
            proof {
                assert(self.queues@[i as int] == (key, q));
                assert(self.queues@[i as int].0.deep_view() == qs0[i as int].0.deep_view());
            }
            i = i + 1;
        }
        proof {
            assert(forall|j: int|
                0 <= j < qs0.len() ==> self.queues@[j].0.deep_view() == qs0[j].0.deep_view()
                    && self.queues@[j].1.deep_view() == f(
                    qs0[j].0.deep_view(),
                    qs0[j].1.deep_view(),
                ));
            lemma_pairs_map_transform(qs0, self.queues@, f);
        }
    }

    fn drain_inbound(&mut self, me: &PubKey) -> (r: Vec<Message>) {
        proof {
            lemma_pairs_map_contains::<PubKey, Vec<Message>>(self.queues@, me@);
        }
        match self.find(me) {
            Some(i) => {
                proof {
                    lemma_pairs_map_value(self.queues@, i as int);
                }
                let ghost qs0 = self.queues@;
                let mut pair = (PubKey(String::new()), Vec::<Message>::new());
                self.queues.set_and_swap(i, &mut pair);
                let (key, q) = pair;
                let empty_q = Vec::<Message>::new();
                proof {
                    assert(empty_q.deep_view() =~= Seq::<MessageV>::empty());
                    lemma_pairs_map_update(qs0, i as int, (key, empty_q));
                    assert(self.queues@.update(i as int, (key, empty_q)) =~= qs0.update(
                        i as int,
                        (key, empty_q),
                    ));
                }
                self.queues.set(i, (key, empty_q));
                q
            },
            None => {
                let r = Vec::<Message>::new();
                proof {
                    assert(r.deep_view() =~= Seq::<MessageV>::empty());
                }
                r
            },
        }
    }
}

} // verus!
