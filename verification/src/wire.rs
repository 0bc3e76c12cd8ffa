//! The wire form: one enclosing envelope around the canonical message
//! structure, encoded with the canonical byte codec. Decoding fails
//! cleanly (no panic, no partial state) on any malformed input.

use vstd::prelude::*;
use vstd::bytes::{u32_from_le_bytes, u64_from_le_bytes};
use vstd::slice::{slice_index_get, slice_subrange, slice_to_vec};
use crate::blob::BlobBody;
use crate::codec::{
    message_bytes, parse_chars, parse_content, parse_fixed, parse_i64, parse_i64_vec, parse_i64s,
    parse_message, parse_retina, parse_status, parse_str, parse_u32, parse_u64, push_bytes,
    push_content, push_str, push_u64, zigzag_dec,
};
use crate::content::{
    BasisSpec, CertBundle, Content, Message, Ratio, RetinaBody, FoveationSpec, StatusEvent,
    TextBody,
};
use crate::types::{chars_to_string, Digest, PubKey, Signature, Timestamp};

verus! {

/// The single enclosing envelope for transport or storage.
pub struct WireMessage {
    pub message: Message,
}

/// Serialize a message for transport: its canonical byte encoding.
pub fn encode_message(msg: &Message) -> (r: Vec<u8>)
    ensures
        r@ == message_bytes(msg@),
{
    let mut out: Vec<u8> = Vec::new();
    push_str(&mut out, &msg.sender.0);
    push_bytes(&mut out, &msg.parent.0);
    push_content(&mut out, &msg.content);
    push_bytes(&mut out, &msg.digest.0);
    push_str(&mut out, &msg.signature.signer.0);
    push_bytes(&mut out, &msg.signature.digest.0);
    push_u64(&mut out, msg.timestamp.0);
    proof {
        assert(out@ =~= message_bytes(msg@));
    }
    out
}

/// Relies on char::from_u32: `Some` exactly for Unicode scalar values,
/// and the returned character casts back to the given value.
#[verifier::external_body]
fn char_from_u32(v: u32) -> (r: Option<char>)
    ensures
        r is Some <==> vstd::utf8::is_scalar(v),
        r matches Some(c) ==> c as u32 == v,
{
    char::from_u32(v)
}

fn read_u64(s: &[u8], pos: usize) -> (r: Option<(u64, usize)>)
    requires
        pos <= s@.len(),
    ensures
        match r {
            Some(p) => parse_u64(s@.skip(pos as int)) == Some((p.0, s@.skip(p.1 as int)))
                && pos <= p.1 <= s@.len(),
            None => parse_u64(s@.skip(pos as int)) is None,
        },
{
    if s.len() - pos >= 8 {
        let sub = slice_subrange(s, pos, pos + 8);
        let x = u64_from_le_bytes(sub);
        proof {
            assert(s@.skip(pos as int).take(8) =~= s@.subrange(pos as int, pos + 8));
            assert(s@.skip(pos as int).skip(8) =~= s@.skip(pos + 8 as int));
        }
        Some((x, pos + 8))
    } else {
        None
    }
}

fn read_u32(s: &[u8], pos: usize) -> (r: Option<(u32, usize)>)
    requires
        pos <= s@.len(),
    ensures
        match r {
            Some(p) => parse_u32(s@.skip(pos as int)) == Some((p.0, s@.skip(p.1 as int)))
                && pos <= p.1 <= s@.len(),
            None => parse_u32(s@.skip(pos as int)) is None,
        },
{
    if s.len() - pos >= 4 {
        let sub = slice_subrange(s, pos, pos + 4);
        let x = u32_from_le_bytes(sub);
        proof {
            assert(s@.skip(pos as int).take(4) =~= s@.subrange(pos as int, pos + 4));
            assert(s@.skip(pos as int).skip(4) =~= s@.skip(pos + 4 as int));
        }
        Some((x, pos + 4))
    } else {
        None
    }
}

fn read_i64(s: &[u8], pos: usize) -> (r: Option<(i64, usize)>)
    requires
        pos <= s@.len(),
    ensures
        match r {
            Some(p) => parse_i64(s@.skip(pos as int)) == Some((p.0, s@.skip(p.1 as int)))
                && pos <= p.1 <= s@.len(),
            None => parse_i64(s@.skip(pos as int)) is None,
        },
{
    match read_u64(s, pos) {
        Some((u, p2)) => Some((zigzag_dec(u), p2)),
        None => None,
    }
}

fn read_digest(s: &[u8], pos: usize) -> (r: Option<(Digest, usize)>)
    requires
        pos <= s@.len(),
    ensures
        match r {
            Some(p) => parse_fixed(32, s@.skip(pos as int)) == Some((p.0@, s@.skip(p.1 as int)))
                && pos <= p.1 <= s@.len() && p.0.wf(),
            None => parse_fixed(32, s@.skip(pos as int)) is None,
        },
{
    if s.len() - pos >= 32 {
        let sub = slice_subrange(s, pos, pos + 32);
        let v = slice_to_vec(sub);
        proof {
            assert(s@.skip(pos as int).take(32) =~= s@.subrange(pos as int, pos + 32));
            assert(s@.skip(pos as int).skip(32) =~= s@.skip(pos + 32 as int));
        }
        Some((Digest(v), pos + 32))
    } else {
        None
    }
}

fn read_str(s: &[u8], pos: usize) -> (r: Option<(String, usize)>)
    requires
        pos <= s@.len(),
    ensures
        match r {
            Some(p) => parse_str(s@.skip(pos as int)) == Some((p.0@, s@.skip(p.1 as int)))
                && pos <= p.1 <= s@.len(),
            None => parse_str(s@.skip(pos as int)) is None,
        },
{
    match read_u64(s, pos) {
        None => None,
        Some((n, start)) => {
            let mut chars: Vec<char> = Vec::new();
            let mut p: usize = start;
            let mut k: u64 = 0;
            proof {
                assert(chars@ + Seq::<char>::empty() =~= chars@);
            }
            while k < n
                invariant
                    k <= n,
                    pos <= p <= s@.len(),
                    parse_u64(s@.skip(pos as int)) == Some((n, s@.skip(start as int))),
                    ({
                        match parse_chars((n - k) as nat, s@.skip(p as int)) {
                            Some(q) => parse_chars(n as nat, s@.skip(start as int)) == Some(
                                (chars@ + q.0, q.1),
                            ),
                            None => parse_chars(n as nat, s@.skip(start as int)) is None,
                        }
                    }),
                decreases n - k,
            {
                match read_u32(s, p) {
                    None => {
                        return None;
                    },
                    Some((w, p2)) => {
                        match char_from_u32(w) {
                            None => {
                                return None;
                            },
                            Some(c) => {
                                proof {
                                    vstd::utf8::char_u32_cast(c, w);
                                    let ghost rem = (n - k) as nat;
                                    assert(parse_chars(rem, s@.skip(p as int)) == (match parse_chars(
                                        (rem - 1) as nat,
                                        s@.skip(p2 as int),
                                    ) {
                                        Some(q) => Some((seq![c] + q.0, q.1)),
                                        None => None,
                                    }));
                                    if parse_chars((rem - 1) as nat, s@.skip(p2 as int)) is Some {
                                        let q = parse_chars(
                                            (rem - 1) as nat,
                                            s@.skip(p2 as int),
                                        )->Some_0;
                                        assert(chars@ + (seq![c] + q.0) =~= chars@.push(c) + q.0);
                                    }
                                }
                                chars.push(c);
                                p = p2;
                                k = k + 1;
                            },
                        }
                    },
                }
            }
            proof {
                assert(parse_chars(0, s@.skip(p as int)) == Some(
                    (Seq::<char>::empty(), s@.skip(p as int)),
                ));
                assert(chars@ + Seq::<char>::empty() =~= chars@);
            }
            Some((chars_to_string(&chars), p))
        },
    }
}

fn read_i64_vec(s: &[u8], pos: usize) -> (r: Option<(Vec<i64>, usize)>)
    requires
        pos <= s@.len(),
    ensures
        match r {
            Some(p) => parse_i64_vec(s@.skip(pos as int)) == Some((p.0@, s@.skip(p.1 as int)))
                && pos <= p.1 <= s@.len(),
            None => parse_i64_vec(s@.skip(pos as int)) is None,
        },
{
    match read_u64(s, pos) {
        None => None,
        Some((n, start)) => {
            let mut xs: Vec<i64> = Vec::new();
            let mut p: usize = start;
            let mut k: u64 = 0;
            while k < n
                invariant
                    k <= n,
                    pos <= p <= s@.len(),
                    parse_u64(s@.skip(pos as int)) == Some((n, s@.skip(start as int))),
                    ({
                        match parse_i64s((n - k) as nat, s@.skip(p as int)) {
                            Some(q) => parse_i64s(n as nat, s@.skip(start as int)) == Some(
                                (xs@ + q.0, q.1),
                            ),
                            None => parse_i64s(n as nat, s@.skip(start as int)) is None,
                        }
                    }),
                decreases n - k,
            {
                match read_i64(s, p) {
                    None => {
                        return None;
                    },
                    Some((x, p2)) => {
                        proof {
                            let ghost rem = (n - k) as nat;
                            assert(parse_i64s(rem, s@.skip(p as int)) == (match parse_i64s(
                                (rem - 1) as nat,
                                s@.skip(p2 as int),
                            ) {
                                Some(q) => Some((seq![x] + q.0, q.1)),
                                None => None,
                            }));
                            if parse_i64s((rem - 1) as nat, s@.skip(p2 as int)) is Some {
                                let q = parse_i64s((rem - 1) as nat, s@.skip(p2 as int))->Some_0;
                                assert(xs@ + (seq![x] + q.0) =~= xs@.push(x) + q.0);
                            }
                        }
                        xs.push(x);
                        p = p2;
                        k = k + 1;
                    },
                }
            }
            proof {
                assert(parse_i64s(0, s@.skip(p as int)) == Some(
                    (Seq::<i64>::empty(), s@.skip(p as int)),
                ));
                assert(xs@ + Seq::<i64>::empty() =~= xs@);
            }
            Some((xs, p))
        },
    }
}

fn read_tag(s: &[u8], pos: usize) -> (r: Option<(u8, usize)>)
    requires
        pos <= s@.len(),
    ensures
        match r {
            Some(p) => s@.skip(pos as int).len() > 0 && s@.skip(pos as int)[0] == p.0 && p.1
                == pos + 1 && pos < p.1 <= s@.len() && s@.skip(pos as int).skip(1) == s@.skip(
                p.1 as int,
            ),
            None => s@.skip(pos as int).len() == 0,
        },
{
    if pos < s.len() {
        let b = *slice_index_get(s, pos);
        proof {
            assert(s@.skip(pos as int)[0] == s@[pos as int]);
            assert(s@.skip(pos as int).skip(1) =~= s@.skip(pos + 1 as int));
        }
        Some((b, pos + 1))
    } else {
        None
    }
}

fn read_status(s: &[u8], pos: usize) -> (r: Option<(StatusEvent, usize)>)
    requires
        pos <= s@.len(),
    ensures
        match r {
            Some(p) => parse_status(s@.skip(pos as int)) == Some((p.0@, s@.skip(p.1 as int)))
                && pos <= p.1 <= s@.len(),
            None => parse_status(s@.skip(pos as int)) is None,
        },
{
    match read_tag(s, pos) {
        None => None,
        Some((tag, p1)) => {
            if tag == 0 || tag == 1 {
                match read_digest(s, p1) {
                    None => None,
                    Some((ack, p2)) => match read_u64(s, p2) {
                        None => None,
                        Some((at, p3)) => {
                            if tag == 0 {
                                Some((
                                    StatusEvent::Delivered {
                                        digest_ack: ack,
                                        at: Timestamp(at),
                                    },
                                    p3,
                                ))
                            } else {
                                Some((
                                    StatusEvent::Read { digest_ack: ack, at: Timestamp(at) },
                                    p3,
                                ))
                            }
                        },
                    },
                }
            } else if tag == 2 {
                Some((StatusEvent::TypingStart, p1))
            } else if tag == 3 {
                Some((StatusEvent::TypingStop, p1))
            } else {
                None
            }
        },
    }
}

fn read_retina(s: &[u8], pos: usize) -> (r: Option<(RetinaBody, usize)>)
    requires
        pos <= s@.len(),
    ensures
        match r {
            Some(p) => parse_retina(s@.skip(pos as int)) == Some((p.0@, s@.skip(p.1 as int)))
                && pos <= p.1 <= s@.len(),
            None => parse_retina(s@.skip(pos as int)) is None,
        },
{
    let omega = match read_str(s, pos) {
        None => {
            return None;
        },
        Some(v) => v,
    };
    let nx = match read_u32(s, omega.1) {
        None => {
            return None;
        },
        Some(v) => v,
    };
    let ny = match read_u32(s, nx.1) {
        None => {
            return None;
        },
        Some(v) => v,
    };
    let fp = match read_str(s, ny.1) {
        None => {
            return None;
        },
        Some(v) => v,
    };
    let a_hat = match read_i64_vec(s, fp.1) {
        None => {
            return None;
        },
        Some(v) => v,
    };
    let lambda = match read_i64(s, a_hat.1) {
        None => {
            return None;
        },
        Some(v) => v,
    };
    let sigma = match read_i64(s, lambda.1) {
        None => {
            return None;
        },
        Some(v) => v,
    };
    let cx = match read_i64(s, sigma.1) {
        None => {
            return None;
        },
        Some(v) => v,
    };
    let cy = match read_i64(s, cx.1) {
        None => {
            return None;
        },
        Some(v) => v,
    };
    let psnr = match read_i64(s, cy.1) {
        None => {
            return None;
        },
        Some(v) => v,
    };
    let num = match read_u64(s, psnr.1) {
        None => {
            return None;
        },
        Some(v) => v,
    };
    let den = match read_u64(s, num.1) {
        None => {
            return None;
        },
        Some(v) => v,
    };
    let align = match read_i64(s, den.1) {
        None => {
            return None;
        },
        Some(v) => v,
    };
    let dh = match read_str(s, align.1) {
        None => {
            return None;
        },
        Some(v) => v,
    };
    let body = RetinaBody {
        omega_id: omega.0,
        basis_spec: BasisSpec { nx: nx.0, ny: ny.0, basis_fingerprint: fp.0 },
        a_hat: a_hat.0,
        lambda: lambda.0,
        foveation: FoveationSpec { sigma: sigma.0, center_x: cx.0, center_y: cy.0 },
        cert: CertBundle {
            psnr_equiv_db: psnr.0,
            fused_variance_drop: Ratio { num: num.0, den: den.0 },
            foveation_alignment_score: align.0,
            deterministic_hash: dh.0,
        },
    };
    Some((body, dh.1))
}

fn read_content(s: &[u8], pos: usize) -> (r: Option<(Content, usize)>)
    requires
        pos <= s@.len(),
    ensures
        match r {
            Some(p) => parse_content(s@.skip(pos as int)) == Some((p.0@, s@.skip(p.1 as int)))
                && pos <= p.1 <= s@.len(),
            None => parse_content(s@.skip(pos as int)) is None,
        },
{
    match read_tag(s, pos) {
        None => None,
        Some((tag, p1)) => {
            if tag == 0 {
                match read_str(s, p1) {
                    None => None,
                    Some((t, p2)) => Some((Content::Text(TextBody { canonical_text: t }), p2)),
                }
            } else if tag == 1 {
                match read_retina(s, p1) {
                    None => None,
                    Some((rb, p2)) => Some((Content::Retina(rb), p2)),
                }
            } else if tag == 2 {
                match read_status(s, p1) {
                    None => None,
                    Some((st, p2)) => Some((Content::Status(st), p2)),
                }
            } else if tag == 3 {
                match read_str(s, p1) {
                    None => None,
                    Some((mime, p2)) => match read_u64(s, p2) {
                        None => None,
                        Some((len, p3)) => match read_digest(s, p3) {
                            None => None,
                            Some((object, p4)) => Some((
                                Content::Blob(
                                    BlobBody { mime, len, object_digest: object },
                                ),
                                p4,
                            )),
                        },
                    },
                }
            } else {
                None
            }
        },
    }
}

fn read_message(s: &[u8], pos: usize) -> (r: Option<(Message, usize)>)
    requires
        pos <= s@.len(),
    ensures
        match r {
            Some(p) => parse_message(s@.skip(pos as int)) == Some((p.0@, s@.skip(p.1 as int)))
                && pos <= p.1 <= s@.len(),
            None => parse_message(s@.skip(pos as int)) is None,
        },
{
    let sender = match read_str(s, pos) {
        None => {
            return None;
        },
        Some(v) => v,
    };
    let parent = match read_digest(s, sender.1) {
        None => {
            return None;
        },
        Some(v) => v,
    };
    let content = match read_content(s, parent.1) {
        None => {
            return None;
        },
        Some(v) => v,
    };
    let digest = match read_digest(s, content.1) {
        None => {
            return None;
        },
        Some(v) => v,
    };
    let signer = match read_str(s, digest.1) {
        None => {
            return None;
        },
        Some(v) => v,
    };
    let sig_digest = match read_digest(s, signer.1) {
        None => {
            return None;
        },
        Some(v) => v,
    };
    let ts = match read_u64(s, sig_digest.1) {
        None => {
            return None;
        },
        Some(v) => v,
    };
    let msg = Message {
        sender: PubKey(sender.0),
        parent: parent.0,
        content: content.0,
        digest: digest.0,
        signature: Signature { signer: PubKey(signer.0), digest: sig_digest.0 },
        timestamp: Timestamp(ts.0),
    };
    Some((msg, ts.1))
}

/// Deserialize a message received over transport. Succeeds exactly when
/// the whole input is one well-formed canonical encoding, and then
/// returns the one message it encodes; any malformed input yields `None`
/// and nothing else.
pub fn decode_message(s: &[u8]) -> (r: Option<Message>)
    ensures
        match parse_message(s@) {
            Some(q) => if q.1.len() == 0 {
                r matches Some(m) && m@ == q.0
            } else {
                r is None
            },
            None => r is None,
        },
{
    proof {
        assert(s@.skip(0) =~= s@);
    }
    match read_message(s, 0) {
        None => None,
        Some((m, p)) => {
            if p == s.len() {
                proof {
                    assert(s@.skip(p as int).len() == 0);
                }
                Some(m)
            } else {
                proof {
                    assert(s@.skip(p as int).len() > 0);
                }
                None
            }
        },
    }
}

} // verus!
