//! The properties that hold across components, stated and proved once:
//! digest determinism and separation, tamper detection, orphan rejection,
//! reward and punish saturation, decay's one-sidedness, fusion's exact
//! certificate, and the wire round trip.

use vstd::prelude::*;
use crate::codec::{
    content_bytes, content_enc_ok, lemma_content_bytes_injective, lemma_parse_message_enc,
    message_bytes, message_enc_ok, parse_message, spec_digest_of,
};
use crate::content::{ContentV, MessageV, Ratio, RetinaV};
use crate::fuse::spec_fuse_body;
use crate::node::{accept_fold, accept_step, spec_outcome, AcceptOutcome, NodeV};
use crate::phi::spec_assemble;
use crate::reputation::{
    decay_val, punish_val, reward_val, score_of, ADMIT_THRESHOLD, CEILING_SCORE, FLOOR_SCORE,
    NEUTRAL_SCORE,
};
use crate::types::spec_zero_digest;
use crate::verify::integrity_ok;

verus! {

/// Digesting is deterministic: the digest is a function of the content's
/// canonical bytes alone, so identical logical content digests
/// identically, in any process.
pub proof fn lemma_digest_deterministic(c1: ContentV, c2: ContentV)
    requires
        c1 == c2,
    ensures
        spec_digest_of(c1) == spec_digest_of(c2),
{
}

/// Distinct well-formed contents have distinct canonical bytes: their
/// digests coincide only if the hash itself collides on those bytes.
/// Collision-freedom of the digest proper is the hash's to provide; this
/// is the codec's half of that bargain.
pub proof fn lemma_digest_collision_free(c1: ContentV, c2: ContentV)
    requires
        content_enc_ok(c1),
        content_enc_ok(c2),
        c1 != c2,
    ensures
        content_bytes(c1) != content_bytes(c2),
{
    if content_bytes(c1) == content_bytes(c2) {
        lemma_content_bytes_injective(c1, c2);
    }
}

/// Tampering with a message's content after assembly, with the digest
/// left stale, makes the integrity check fail — whenever the hash of the
/// replacement content differs from the stale digest, which is what the
/// hash's collision resistance provides for distinct contents.
pub proof fn lemma_tamper_detected(m: MessageV, c2: ContentV)
    requires
        integrity_ok(m),
        spec_digest_of(c2) != m.digest,
    ensures
        !integrity_ok(MessageV { content: c2, ..m }),
{
}

/// A message whose parent digest is non-zero and unknown to the observer
/// is rejected — with the causality failure kind when its integrity
/// holds — and the claimed sender is punished by one step; the inbox and
/// retinal cache are untouched.
pub proof fn lemma_orphan_rejected(m: MessageV, n: NodeV)
    requires
        m.parent != spec_zero_digest(),
        forall|i: int| 0 <= i < n.inbox.len() ==> n.inbox[i].digest != m.parent,
    ensures
        spec_outcome(m, n) != AcceptOutcome::Accepted,
        integrity_ok(m) ==> spec_outcome(m, n) == AcceptOutcome::CausalityFailure,
        accept_step(n, m).inbox == n.inbox,
        accept_step(n, m).retinas == n.retinas,
        score_of(accept_step(n, m).scores, m.sender) == punish_val(score_of(n.scores, m.sender)),
{
}

/// One reward or punishment never leaves the bounded range, and a second
/// identical call is absorbed at the boundary: reward saturates at the
/// ceiling, punish at the floor.
pub proof fn lemma_reward_punish_saturate(v: u32)
    requires
        v <= CEILING_SCORE,
    ensures
        reward_val(v) <= CEILING_SCORE,
        reward_val(reward_val(v)) <= CEILING_SCORE,
        v == CEILING_SCORE ==> reward_val(v) == CEILING_SCORE,
        punish_val(v) >= FLOOR_SCORE,
        punish_val(punish_val(v)) >= FLOOR_SCORE,
        v == FLOOR_SCORE ==> punish_val(v) == FLOOR_SCORE,
{
}

/// Two successive rewards of the same identity, through the book's own
/// update shape: the score stays within the ceiling, and once the
/// ceiling is reached a further reward changes nothing.
pub proof fn lemma_reward_twice(m: Map<Seq<char>, u32>, id: Seq<char>)
    requires
        score_of(m, id) <= CEILING_SCORE,
    ensures
        ({
            let m1 = m.insert(id, reward_val(score_of(m, id)));
            let m2 = m1.insert(id, reward_val(score_of(m1, id)));
            &&& score_of(m2, id) <= CEILING_SCORE
            &&& score_of(m1, id) == CEILING_SCORE ==> score_of(m2, id) == CEILING_SCORE
        }),
{
}

/// Decay is one-sided rehabilitation: a score below neutral moves toward
/// neutral without ever passing it or falling, and a score at or above
/// neutral is untouched.
pub proof fn lemma_decay_bounded(v: u32)
    ensures
        v < NEUTRAL_SCORE ==> v <= decay_val(v) <= NEUTRAL_SCORE,
        v >= NEUTRAL_SCORE ==> decay_val(v) == v,
{
}

/// Fusing `j` observations certifies the variance-reduction estimate as
/// exactly the unit fraction `1 / j`; the rest of the certificate and
/// every other field carry over from the representative.
pub proof fn lemma_fuse_variance_drop(first: RetinaV, j: u64)
    requires
        j > 0,
    ensures
        spec_fuse_body(first, j).cert.fused_variance_drop == (Ratio { num: 1u64, den: j }),
        spec_fuse_body(first, j).a_hat == first.a_hat,
        spec_fuse_body(first, j).cert.psnr_equiv_db == first.cert.psnr_equiv_db,
{
}

/// The wire form round-trips: the canonical encoding of a well-formed
/// message parses back to exactly that message, consuming every byte. In
/// particular decoding an encoded message can return nothing but the
/// original.
pub proof fn lemma_wire_round_trip(m: MessageV)
    requires
        message_enc_ok(m),
    ensures
        parse_message(message_bytes(m)) == Some((m, Seq::<u8>::empty())),
{
    lemma_parse_message_enc(m, Seq::<u8>::empty());
    assert(message_bytes(m) + Seq::<u8>::empty() =~= message_bytes(m));
}

/// Acceptance is owed: a freshly assembled message from a sender at or
/// above the admission threshold, whose parent is the zero digest or
/// already stands in the observer's inbox, is accepted, appended, and
/// its sender rewarded by one step. Assembly always passes the integrity
/// check, because the digest and signature are recomputed from the
/// content and sender themselves.
pub proof fn lemma_assembled_message_accepted(
    sender: Seq<char>,
    parent: Seq<u8>,
    c: ContentV,
    ts: u64,
    n: NodeV,
)
    requires
        score_of(n.scores, sender) >= ADMIT_THRESHOLD,
        parent == spec_zero_digest() || exists|i: int|
            0 <= i < n.inbox.len() && n.inbox[i].digest == parent,
    ensures
        ({
            let m = spec_assemble(sender, parent, c, ts);
            &&& integrity_ok(m)
            &&& spec_outcome(m, n) is Accepted
            &&& accept_step(n, m).inbox == n.inbox.push(m)
            &&& score_of(accept_step(n, m).scores, sender) == reward_val(
                score_of(n.scores, sender),
            )
        }),
{
}

/// The inbox is append-only: no admission judgment ever rewrites or
/// drops what an observer has already accepted.
pub proof fn lemma_inbox_append_only(n: NodeV, m: MessageV)
    ensures
        accept_step(n, m).inbox.len() >= n.inbox.len(),
        forall|i: int| 0 <= i < n.inbox.len() ==> accept_step(n, m).inbox[i] == n.inbox[i],
{
}

/// Append-only extends over a whole drained batch: polling can only grow
/// the inbox, never disturb its prefix.
pub proof fn lemma_inbox_append_only_fold(n: NodeV, ms: Seq<MessageV>)
    ensures
        accept_fold(n, ms).inbox.len() >= n.inbox.len(),
        forall|i: int| 0 <= i < n.inbox.len() ==> accept_fold(n, ms).inbox[i] == n.inbox[i],
    decreases ms.len(),
{
    if ms.len() == 0 {
    } else {
        lemma_inbox_append_only(n, ms[0]);
        lemma_inbox_append_only_fold(accept_step(n, ms[0]), ms.drop_first());
    }
}

} // verus!
