//! The verification pipeline: two independent pure predicates over a
//! message and an acceptor's known history, composed in a fixed order by
//! the orchestrator.

use vstd::prelude::*;
use crate::codec::{compute_digest, spec_digest_of};
use crate::content::{Message, MessageV};
use crate::types::{sign_digest, spec_sign, spec_zero_digest, zero_digest};

verus! {

/// Integrity holds when the stored digest is the hash of the content's
/// canonical bytes and the stored signature is the binding of the sender
/// to that digest.
pub open spec fn integrity_ok(m: MessageV) -> bool {
    &&& m.digest == spec_digest_of(m.content)
    &&& m.signature == spec_sign(m.sender, m.digest)
}

/// Causality holds when the message is a root (all-zero parent), or its
/// parent digest already stands among the digests of the observer's
/// accepted history. The check is local and shallow: only the immediate
/// parent is examined.
pub open spec fn causality_ok(m: MessageV, inbox: Seq<MessageV>) -> bool {
    ||| m.parent == spec_zero_digest()
    ||| exists|i: int| 0 <= i < inbox.len() && inbox[i].digest == m.parent
}

/// Recompute the digest of the message's content and compare byte-exact;
/// then recompute the signature against (sender, digest). Both must pass.
pub fn verify_digest(msg: &Message) -> (r: bool)
    ensures
        r == integrity_ok(msg@),
{
    let d_local = compute_digest(&msg.content);
    if !(d_local == msg.digest) {
        return false;
    }
    let expected_sig = sign_digest(&msg.sender, &msg.digest);
    msg.signature == expected_sig
}

/// A root message always passes; otherwise the parent digest must be
/// present among the digests already in the observer's inbox.
pub fn verify_thread(msg: &Message, inbox: &Vec<Message>) -> (r: bool)
    ensures
        r == causality_ok(msg@, inbox.deep_view()),
{
    let z = zero_digest();
    if msg.parent == z {
        return true;
    }
    let mut i: usize = 0;
    while i < inbox.len()
        invariant
            i <= inbox@.len(),
            forall|j: int| 0 <= j < i ==> inbox.deep_view()[j].digest != msg@.parent,
        decreases inbox@.len() - i,
    {
        if inbox[i].digest == msg.parent {
            proof {
                assert(inbox.deep_view()[i as int].digest == msg@.parent);
            }
            return true;
        }
        i = i + 1;
    }
    false
}

} // verus!
