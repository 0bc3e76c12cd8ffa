//! The delivery bus contract: how nodes hand messages to peers. The bus
//! is modelled as a map from each registered identity to its inbound
//! queue, in arrival order.

use vstd::prelude::*;
use crate::content::{Message, MessageV};
use crate::types::PubKey;

verus! {

/// A message delivery bus. Broadcast excludes the sender; draining is
/// destructive and first-in first-out, at most once per message.
pub trait Transport {
    /// The queued messages of every registered identity, in arrival order.
    spec fn bus_view(&self) -> Map<Seq<char>, Seq<MessageV>>;

    /// The implementation's internal well-formedness.
    spec fn bus_wf(&self) -> bool;

    /// Enqueue one message for one recipient: appended to the recipient's
    /// queue if it is registered, a no-op otherwise.
    fn send_to(&mut self, to: &PubKey, msg: &Message)
        requires
            old(self).bus_wf(),
        ensures
            final(self).bus_wf(),
            final(self).bus_view() == (if old(self).bus_view().contains_key(to@) {
                old(self).bus_view().insert(to@, old(self).bus_view()[to@].push(msg@))
            } else {
                old(self).bus_view()
            }),
    ;

    /// Enqueue one message for every registered identity except the
    /// sender.
    fn broadcast(&mut self, from: &PubKey, msg: &Message)
        requires
            old(self).bus_wf(),
        ensures
            final(self).bus_wf(),
            final(self).bus_view().dom() == old(self).bus_view().dom(),
            forall|k: Seq<char>| #[trigger]
                old(self).bus_view().contains_key(k) ==> final(self).bus_view()[k] == (if k
                    != from@ {
                    old(self).bus_view()[k].push(msg@)
                } else {
                    old(self).bus_view()[k]
                }),
    ;

    /// Return and clear everything queued for `me`, in first-in first-out
    /// order. Nothing is redelivered: delivery is at most once per drain.
    fn drain_inbound(&mut self, me: &PubKey) -> (r: Vec<Message>)
        requires
            old(self).bus_wf(),
        ensures
            final(self).bus_wf(),
            r.deep_view() == (if old(self).bus_view().contains_key(me@) {
                old(self).bus_view()[me@]
            } else {
                Seq::<MessageV>::empty()
            }),
            final(self).bus_view() == (if old(self).bus_view().contains_key(me@) {
                old(self).bus_view().insert(me@, Seq::<MessageV>::empty())
            } else {
                old(self).bus_view()
            }),
    ;
}

} // verus!
