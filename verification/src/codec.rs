//! The canonical byte encoding of content and messages.
//!
//! Digesting and the wire form both rest on this encoding, so it is
//! deliberately canonical: fixed field order, fixed-width little-endian
//! integers, length-prefixed variable fields, one tag byte per variant.
//! Signed fixed-point values are mapped to unsigned ones by the usual
//! zig-zag fold so that every integer travels as a plain `u64`.

use vstd::prelude::*;
use vstd::bytes::*;
use crate::blob::BlobV;
use crate::content::{BasisV, CertV, Content, ContentV, FoveationSpec, MessageV, Ratio, RetinaV, StatusV};
use crate::types::{sha256_of, sha256_bytes, Digest};

verus! {

/// The zig-zag fold of a signed value: non-negative `x` to `2x`, negative
/// `x` to `-2x - 1`.
pub open spec fn zigzag(x: i64) -> u64 {
    if x >= 0 {
        (2 * (x as int)) as u64
    } else {
        ((-2 * (x as int)) - 1) as u64
    }
}

/// The inverse of [`zigzag`].
pub open spec fn unzigzag(u: u64) -> i64 {
    if u % 2 == 0 {
        ((u / 2) as int) as i64
    } else {
        (-(((u as int) + 1) / 2)) as i64
    }
}

pub proof fn lemma_zigzag_roundtrip(x: i64)
    ensures
        unzigzag(zigzag(x)) == x,
{
}

/// A `u64` as eight little-endian bytes.
pub open spec fn enc_u64(x: u64) -> Seq<u8> {
    spec_u64_to_le_bytes(x)
}

/// A `u32` as four little-endian bytes.
pub open spec fn enc_u32(x: u32) -> Seq<u8> {
    spec_u32_to_le_bytes(x)
}

/// An `i64` as the eight bytes of its zig-zag fold.
pub open spec fn enc_i64(x: i64) -> Seq<u8> {
    enc_u64(zigzag(x))
}

/// Characters as four bytes each, in order.
pub open spec fn enc_chars(s: Seq<char>) -> Seq<u8>
    decreases s.len(),
{
    if s.len() == 0 {
        Seq::empty()
    } else {
        enc_u32(s[0] as u32) + enc_chars(s.drop_first())
    }
}

/// A string: its character count, then four bytes per character.
pub open spec fn enc_str(s: Seq<char>) -> Seq<u8> {
    enc_u64(s.len() as u64) + enc_chars(s)
}

/// Signed values as eight bytes each, in order.
pub open spec fn enc_i64s(s: Seq<i64>) -> Seq<u8>
    decreases s.len(),
{
    if s.len() == 0 {
        Seq::empty()
    } else {
        enc_i64(s[0]) + enc_i64s(s.drop_first())
    }
}

/// A signed vector: its count, then eight bytes per value.
pub open spec fn enc_i64_vec(s: Seq<i64>) -> Seq<u8> {
    enc_u64(s.len() as u64) + enc_i64s(s)
}

/// A ratio: numerator, then denominator.
pub open spec fn enc_ratio(r: Ratio) -> Seq<u8> {
    enc_u64(r.num) + enc_u64(r.den)
}

/// A basis descriptor: grid sizes, then the fingerprint string.
pub open spec fn basis_bytes(b: BasisV) -> Seq<u8> {
    enc_u32(b.nx) + enc_u32(b.ny) + enc_str(b.basis_fingerprint)
}

/// Foveation parameters: spread, then the center coordinates.
pub open spec fn fove_bytes(f: FoveationSpec) -> Seq<u8> {
    enc_i64(f.sigma) + enc_i64(f.center_x) + enc_i64(f.center_y)
}

/// A certificate bundle, field by field.
pub open spec fn cert_bytes(c: CertV) -> Seq<u8> {
    enc_i64(c.psnr_equiv_db) + enc_ratio(c.fused_variance_drop)
        + enc_i64(c.foveation_alignment_score) + enc_str(c.deterministic_hash)
}

/// A retinal observation, field by field.
pub open spec fn retina_bytes(r: RetinaV) -> Seq<u8> {
    enc_str(r.omega_id) + basis_bytes(r.basis_spec) + enc_i64_vec(r.a_hat) + enc_i64(r.lambda)
        + fove_bytes(r.foveation) + cert_bytes(r.cert)
}

/// A status event: one tag byte, then the acknowledged digest and time
/// where the variant carries them.
pub open spec fn status_bytes(s: StatusV) -> Seq<u8> {
    match s {
        StatusV::Delivered { digest_ack, at } => seq![0u8] + digest_ack + enc_u64(at),
        StatusV::Read { digest_ack, at } => seq![1u8] + digest_ack + enc_u64(at),
        StatusV::TypingStart => seq![2u8],
        StatusV::TypingStop => seq![3u8],
    }
}

/// A blob descriptor: MIME string, byte length, store digest.
pub open spec fn blob_bytes(b: BlobV) -> Seq<u8> {
    enc_str(b.mime) + enc_u64(b.len) + b.object_digest
}

/// Content: one tag byte per payload kind, then the kind's own encoding.
pub open spec fn content_bytes(c: ContentV) -> Seq<u8> {
    match c {
        ContentV::Text(t) => seq![0u8] + enc_str(t),
        ContentV::Retina(r) => seq![1u8] + retina_bytes(r),
        ContentV::Status(s) => seq![2u8] + status_bytes(s),
        ContentV::Blob(b) => seq![3u8] + blob_bytes(b),
    }
}

/// A signature: the signer string, then the bound digest.
pub open spec fn sig_bytes(s: (Seq<char>, Seq<u8>)) -> Seq<u8> {
    enc_str(s.0) + s.1
}

/// A whole message envelope, field by field in declaration order.
pub open spec fn message_bytes(m: MessageV) -> Seq<u8> {
    enc_str(m.sender) + m.parent + content_bytes(m.content) + m.digest + sig_bytes(m.signature)
        + enc_u64(m.timestamp)
}

/// The digest of content: the hash of its canonical byte encoding.
pub open spec fn spec_digest_of(c: ContentV) -> Seq<u8> {
    sha256_of(content_bytes(c))
}

/// The digest a fused retinal observation is re-certified under.
pub open spec fn spec_retina_digest(r: RetinaV) -> Seq<u8> {
    sha256_of(retina_bytes(r))
}

proof fn lemma_enc_chars_snoc(s: Seq<char>, c: char)
    ensures
        enc_chars(s.push(c)) == enc_chars(s) + enc_u32(c as u32),
    decreases s.len(),
{
    let e = s.push(c);
    if s.len() == 0 {
        assert(e.drop_first() =~= Seq::<char>::empty());
        assert(enc_chars(e) == enc_u32(e[0] as u32) + enc_chars(e.drop_first()));
        assert(enc_chars(Seq::<char>::empty()) == Seq::<u8>::empty());
        assert(enc_chars(s) == Seq::<u8>::empty());
        assert(enc_chars(e) =~= enc_chars(s) + enc_u32(c as u32));
    } else {
        assert(e.drop_first() =~= s.drop_first().push(c));
        lemma_enc_chars_snoc(s.drop_first(), c);
        assert(enc_chars(e) == enc_u32(e[0] as u32) + enc_chars(e.drop_first()));
        assert(enc_chars(s) == enc_u32(s[0] as u32) + enc_chars(s.drop_first()));
        assert(enc_chars(e) =~= enc_chars(s) + enc_u32(c as u32));
    }
}

proof fn lemma_enc_i64s_snoc(s: Seq<i64>, x: i64)
    ensures
        enc_i64s(s.push(x)) == enc_i64s(s) + enc_i64(x),
    decreases s.len(),
{
    let e = s.push(x);
    if s.len() == 0 {
        assert(e.drop_first() =~= Seq::<i64>::empty());
        assert(enc_i64s(e) == enc_i64(e[0]) + enc_i64s(e.drop_first()));
        assert(enc_i64s(Seq::<i64>::empty()) == Seq::<u8>::empty());
        assert(enc_i64s(s) == Seq::<u8>::empty());
        assert(enc_i64s(e) =~= enc_i64s(s) + enc_i64(x));
    } else {
        assert(e.drop_first() =~= s.drop_first().push(x));
        lemma_enc_i64s_snoc(s.drop_first(), x);
        assert(enc_i64s(e) == enc_i64(e[0]) + enc_i64s(e.drop_first()));
        assert(enc_i64s(s) == enc_i64(s[0]) + enc_i64s(s.drop_first()));
        assert(enc_i64s(e) =~= enc_i64s(s) + enc_i64(x));
    }
}

/// The exec side of [`zigzag`].
fn zigzag_enc(x: i64) -> (r: u64)
    ensures
        r == zigzag(x),
{
    if x >= 0 {
        (x as u64) * 2
    } else {
        ((-(x + 1)) as u64) * 2 + 1
    }
}

/// The exec side of [`unzigzag`].
pub(crate) fn zigzag_dec(u: u64) -> (r: i64)
    ensures
        r == unzigzag(u),
{
    if u % 2 == 0 {
        (u / 2) as i64
    } else {
        -(((u - 1) / 2) as i64) - 1
    }
}

pub(crate) fn push_u64(out: &mut Vec<u8>, x: u64)
    ensures
        final(out)@ == old(out)@ + enc_u64(x),
{
    let mut b = u64_to_le_bytes(x);
    out.append(&mut b);
}

pub(crate) fn push_u32(out: &mut Vec<u8>, x: u32)
    ensures
        final(out)@ == old(out)@ + enc_u32(x),
{
    let mut b = u32_to_le_bytes(x);
    out.append(&mut b);
}

pub(crate) fn push_i64(out: &mut Vec<u8>, x: i64)
    ensures
        final(out)@ == old(out)@ + enc_i64(x),
{
    push_u64(out, zigzag_enc(x));
}

pub(crate) fn push_byte(out: &mut Vec<u8>, b: u8)
    ensures
        final(out)@ == old(out)@ + seq![b],
{
    out.push(b);
    proof {
        assert(out@ =~= old(out)@ + seq![b]);
    }
}

pub(crate) fn push_bytes(out: &mut Vec<u8>, b: &Vec<u8>)
    ensures
        final(out)@ == old(out)@ + b@,
{
    let mut i: usize = 0;
    while i < b.len()
        invariant
            i <= b.len(),
            out@ == old(out)@ + b@.take(i as int),
        decreases b.len() - i,
    {
        out.push(b[i]);
        proof {
            assert(old(out)@ + b@.take(i + 1 as int) =~= (old(out)@ + b@.take(i as int)).push(
                b@[i as int],
            ));
        }
        i = i + 1;
    }
    proof {
        assert(b@.take(b@.len() as int) =~= b@);
    }
}

pub(crate) fn push_str(out: &mut Vec<u8>, s: &String)
    ensures
        final(out)@ == old(out)@ + enc_str(s@),
{
    let n = s.as_str().unicode_len();
    push_u64(out, n as u64);
    let mut i: usize = 0;
    while i < n
        invariant
            i <= n,
            n as nat == s@.len(),
            out@ == old(out)@ + enc_u64(n as u64) + enc_chars(s@.take(i as int)),
        decreases n - i,
    {
        let c = s.as_str().get_char(i);
        push_u32(out, c as u32);
        proof {
            assert(s@.take(i + 1 as int) =~= s@.take(i as int).push(s@[i as int]));
            lemma_enc_chars_snoc(s@.take(i as int), s@[i as int]);
            assert(old(out)@ + enc_u64(n as u64) + enc_chars(s@.take(i as int)) + enc_u32(
                s@[i as int] as u32,
            ) =~= old(out)@ + enc_u64(n as u64) + enc_chars(s@.take(i + 1 as int)));
        }
        i = i + 1;
    }
    proof {
        assert(s@.take(n as int) =~= s@);
        assert(old(out)@ + enc_u64(n as u64) + enc_chars(s@) =~= old(out)@ + enc_str(s@));
    }
}

pub(crate) fn push_i64_vec(out: &mut Vec<u8>, v: &Vec<i64>)
    ensures
        final(out)@ == old(out)@ + enc_i64_vec(v@),
{
    push_u64(out, v.len() as u64);
    let mut i: usize = 0;
    while i < v.len()
        invariant
            i <= v.len(),
            out@ == old(out)@ + enc_u64(v@.len() as u64) + enc_i64s(v@.take(i as int)),
        decreases v.len() - i,
    {
        push_i64(out, v[i]);
        proof {
            assert(v@.take(i + 1 as int) =~= v@.take(i as int).push(v@[i as int]));
            lemma_enc_i64s_snoc(v@.take(i as int), v@[i as int]);
            assert(old(out)@ + enc_u64(v@.len() as u64) + enc_i64s(v@.take(i as int)) + enc_i64(
                v@[i as int],
            ) =~= old(out)@ + enc_u64(v@.len() as u64) + enc_i64s(v@.take(i + 1 as int)));
        }
        i = i + 1;
    }
    proof {
        assert(v@.take(v@.len() as int) =~= v@);
        assert(old(out)@ + enc_u64(v@.len() as u64) + enc_i64s(v@) =~= old(out)@ + enc_i64_vec(v@));
    }
}

#[verifier::rlimit(60)]
pub(crate) fn push_content(out: &mut Vec<u8>, c: &Content)
    ensures
        final(out)@ == old(out)@ + content_bytes(c@),
{
    match c {
        Content::Text(t) => {
            push_byte(out, 0);
            push_str(out, &t.canonical_text);
            proof {
                assert(out@ =~= old(out)@ + content_bytes(c@));
            }
        },
        Content::Retina(r) => {
            push_byte(out, 1);
            push_str(out, &r.omega_id);
            push_u32(out, r.basis_spec.nx);
            push_u32(out, r.basis_spec.ny);
            push_str(out, &r.basis_spec.basis_fingerprint);
            push_i64_vec(out, &r.a_hat);
            push_i64(out, r.lambda);
            push_i64(out, r.foveation.sigma);
            push_i64(out, r.foveation.center_x);
            push_i64(out, r.foveation.center_y);
            push_i64(out, r.cert.psnr_equiv_db);
            push_u64(out, r.cert.fused_variance_drop.num);
            push_u64(out, r.cert.fused_variance_drop.den);
            push_i64(out, r.cert.foveation_alignment_score);
            push_str(out, &r.cert.deterministic_hash);
            proof {
                assert(out@ =~= old(out)@ + content_bytes(c@));
            }
        },
        Content::Status(s) => {
            push_byte(out, 2);
            match s {
                crate::content::StatusEvent::Delivered { digest_ack, at } => {
                    push_byte(out, 0);
                    push_bytes(out, &digest_ack.0);
                    push_u64(out, at.0);
                },
                crate::content::StatusEvent::Read { digest_ack, at } => {
                    push_byte(out, 1);
                    push_bytes(out, &digest_ack.0);
                    push_u64(out, at.0);
                },
                crate::content::StatusEvent::TypingStart => {
                    push_byte(out, 2);
                },
                crate::content::StatusEvent::TypingStop => {
                    push_byte(out, 3);
                },
            }
            proof {
                assert(out@ =~= old(out)@ + content_bytes(c@));
            }
        },
        Content::Blob(b) => {
            push_byte(out, 3);
            push_str(out, &b.mime);
            push_u64(out, b.len as u64);
            push_bytes(out, &b.object_digest.0);
            proof {
                assert(out@ =~= old(out)@ + content_bytes(c@));
            }
        },
    }
}

/// The canonical byte encoding of content, as digesting hashes it.
pub fn encode_content(c: &Content) -> (r: Vec<u8>)
    ensures
        r@ == content_bytes(c@),
{
    let mut out: Vec<u8> = Vec::new();
    push_content(&mut out, c);
    proof {
        assert(out@ =~= content_bytes(c@));
    }
    out
}

/// The digest of content: canonicalize to bytes, hash. Stable across
/// processes for identical logical content, because the byte encoding is
/// canonical rather than incidental.
pub fn compute_digest(c: &Content) -> (r: Digest)
    ensures
        r@ == spec_digest_of(c@),
        r.wf(),
{
    let bytes = encode_content(c);
    Digest(sha256_bytes(bytes.as_slice()))
}

/// The canonical byte encoding of one retinal observation.
pub fn encode_retina(r: &crate::content::RetinaBody) -> (out: Vec<u8>)
    ensures
        out@ == retina_bytes(r@),
{
    let mut out: Vec<u8> = Vec::new();
    push_str(&mut out, &r.omega_id);
    push_u32(&mut out, r.basis_spec.nx);
    push_u32(&mut out, r.basis_spec.ny);
    push_str(&mut out, &r.basis_spec.basis_fingerprint);
    push_i64_vec(&mut out, &r.a_hat);
    push_i64(&mut out, r.lambda);
    push_i64(&mut out, r.foveation.sigma);
    push_i64(&mut out, r.foveation.center_x);
    push_i64(&mut out, r.foveation.center_y);
    push_i64(&mut out, r.cert.psnr_equiv_db);
    push_u64(&mut out, r.cert.fused_variance_drop.num);
    push_u64(&mut out, r.cert.fused_variance_drop.den);
    push_i64(&mut out, r.cert.foveation_alignment_score);
    push_str(&mut out, &r.cert.deterministic_hash);
    proof {
        assert(out@ =~= retina_bytes(r@));
    }
    out
}

/// The digest a retinal observation is certified under.
pub fn retina_digest(r: &crate::content::RetinaBody) -> (d: Digest)
    ensures
        d@ == spec_retina_digest(r@),
        d.wf(),
{
    let bytes = encode_retina(r);
    Digest(sha256_bytes(bytes.as_slice()))
}

/// Read eight bytes as a `u64`; what remains follows.
pub open spec fn parse_u64(s: Seq<u8>) -> Option<(u64, Seq<u8>)> {
    if s.len() >= 8 {
        Some((spec_u64_from_le_bytes(s.take(8)), s.skip(8)))
    } else {
        None
    }
}

/// Read four bytes as a `u32`.
pub open spec fn parse_u32(s: Seq<u8>) -> Option<(u32, Seq<u8>)> {
    if s.len() >= 4 {
        Some((spec_u32_from_le_bytes(s.take(4)), s.skip(4)))
    } else {
        None
    }
}

/// Read eight bytes as the zig-zag fold of an `i64`.
pub open spec fn parse_i64(s: Seq<u8>) -> Option<(i64, Seq<u8>)> {
    match parse_u64(s) {
        Some((u, r)) => Some((unzigzag(u), r)),
        None => None,
    }
}

/// Read `n` characters, four bytes each; a group that is not a Unicode
/// scalar value fails the parse.
pub open spec fn parse_chars(n: nat, s: Seq<u8>) -> Option<(Seq<char>, Seq<u8>)>
    decreases n,
{
    if n == 0 {
        Some((Seq::empty(), s))
    } else {
        match parse_u32(s) {
            Some((w, r)) => if vstd::utf8::is_scalar(w) {
                match parse_chars((n - 1) as nat, r) {
                    Some((cs, r2)) => Some((seq![w as char] + cs, r2)),
                    None => None,
                }
            } else {
                None
            },
            None => None,
        }
    }
}

/// Read a length-prefixed string.
pub open spec fn parse_str(s: Seq<u8>) -> Option<(Seq<char>, Seq<u8>)> {
    match parse_u64(s) {
        Some((n, r)) => parse_chars(n as nat, r),
        None => None,
    }
}

/// Read exactly `n` raw bytes.
pub open spec fn parse_fixed(n: nat, s: Seq<u8>) -> Option<(Seq<u8>, Seq<u8>)> {
    if s.len() >= n {
        Some((s.take(n as int), s.skip(n as int)))
    } else {
        None
    }
}

/// Read `n` signed values, eight bytes each.
pub open spec fn parse_i64s(n: nat, s: Seq<u8>) -> Option<(Seq<i64>, Seq<u8>)>
    decreases n,
{
    if n == 0 {
        Some((Seq::empty(), s))
    } else {
        match parse_i64(s) {
            Some((x, r)) => match parse_i64s((n - 1) as nat, r) {
                Some((xs, r2)) => Some((seq![x] + xs, r2)),
                None => None,
            },
            None => None,
        }
    }
}

/// Read a length-prefixed signed vector.
pub open spec fn parse_i64_vec(s: Seq<u8>) -> Option<(Seq<i64>, Seq<u8>)> {
    match parse_u64(s) {
        Some((n, r)) => parse_i64s(n as nat, r),
        None => None,
    }
}

/// Read a ratio: numerator, then denominator.
pub open spec fn parse_ratio(s: Seq<u8>) -> Option<(Ratio, Seq<u8>)> {
    match parse_u64(s) {
        Some((num, r)) => match parse_u64(r) {
            Some((den, r2)) => Some((Ratio { num, den }, r2)),
            None => None,
        },
        None => None,
    }
}

/// Read a basis descriptor.
pub open spec fn parse_basis(s: Seq<u8>) -> Option<(BasisV, Seq<u8>)> {
    match parse_u32(s) {
        Some((nx, r)) => match parse_u32(r) {
            Some((ny, r2)) => match parse_str(r2) {
                Some((fp, r3)) => Some((BasisV { nx, ny, basis_fingerprint: fp }, r3)),
                None => None,
            },
            None => None,
        },
        None => None,
    }
}

/// Read foveation parameters.
pub open spec fn parse_fove(s: Seq<u8>) -> Option<(FoveationSpec, Seq<u8>)> {
    match parse_i64(s) {
        Some((sigma, r)) => match parse_i64(r) {
            Some((cx, r2)) => match parse_i64(r2) {
                Some((cy, r3)) => Some(
                    (FoveationSpec { sigma, center_x: cx, center_y: cy }, r3),
                ),
                None => None,
            },
            None => None,
        },
        None => None,
    }
}

/// Read a certificate bundle.
pub open spec fn parse_cert(s: Seq<u8>) -> Option<(CertV, Seq<u8>)> {
    match parse_i64(s) {
        Some((psnr, r)) => match parse_ratio(r) {
            Some((drop, r2)) => match parse_i64(r2) {
                Some((align, r3)) => match parse_str(r3) {
                    Some((dh, r4)) => Some(
                        (
                            CertV {
                                psnr_equiv_db: psnr,
                                fused_variance_drop: drop,
                                foveation_alignment_score: align,
                                deterministic_hash: dh,
                            },
                            r4,
                        ),
                    ),
                    None => None,
                },
                None => None,
            },
            None => None,
        },
        None => None,
    }
}

/// Read a retinal observation.
pub open spec fn parse_retina(s: Seq<u8>) -> Option<(RetinaV, Seq<u8>)> {
    match parse_str(s) {
        Some((omega, r)) => match parse_basis(r) {
            Some((basis, r2)) => match parse_i64_vec(r2) {
                Some((a_hat, r3)) => match parse_i64(r3) {
                    Some((lambda, r4)) => match parse_fove(r4) {
                        Some((fove, r5)) => match parse_cert(r5) {
                            Some((cert, r6)) => Some(
                                (
                                    RetinaV {
                                        omega_id: omega,
                                        basis_spec: basis,
                                        a_hat: a_hat,
                                        lambda: lambda,
                                        foveation: fove,
                                        cert: cert,
                                    },
                                    r6,
                                ),
                            ),
                            None => None,
                        },
                        None => None,
                    },
                    None => None,
                },
                None => None,
            },
            None => None,
        },
        None => None,
    }
}

/// Read a status event: a tag byte, then what the variant carries.
pub open spec fn parse_status(s: Seq<u8>) -> Option<(StatusV, Seq<u8>)> {
    if s.len() == 0 {
        None
    } else if s[0] == 0u8 {
        match parse_fixed(32, s.skip(1)) {
            Some((ack, r)) => match parse_u64(r) {
                Some((at, r2)) => Some((StatusV::Delivered { digest_ack: ack, at }, r2)),
                None => None,
            },
            None => None,
        }
    } else if s[0] == 1u8 {
        match parse_fixed(32, s.skip(1)) {
            Some((ack, r)) => match parse_u64(r) {
                Some((at, r2)) => Some((StatusV::Read { digest_ack: ack, at }, r2)),
                None => None,
            },
            None => None,
        }
    } else if s[0] == 2u8 {
        Some((StatusV::TypingStart, s.skip(1)))
    } else if s[0] == 3u8 {
        Some((StatusV::TypingStop, s.skip(1)))
    } else {
        None
    }
}

/// Read content: a tag byte, then the payload kind's own encoding.
pub open spec fn parse_content(s: Seq<u8>) -> Option<(ContentV, Seq<u8>)> {
    if s.len() == 0 {
        None
    } else if s[0] == 0u8 {
        match parse_str(s.skip(1)) {
            Some((t, r)) => Some((ContentV::Text(t), r)),
            None => None,
        }
    } else if s[0] == 1u8 {
        match parse_retina(s.skip(1)) {
            Some((rb, r)) => Some((ContentV::Retina(rb), r)),
            None => None,
        }
    } else if s[0] == 2u8 {
        match parse_status(s.skip(1)) {
            Some((st, r)) => Some((ContentV::Status(st), r)),
            None => None,
        }
    } else if s[0] == 3u8 {
        match parse_str(s.skip(1)) {
            Some((mime, r)) => match parse_u64(r) {
                Some((len, r2)) => match parse_fixed(32, r2) {
                    Some((object, r3)) => Some(
                        (ContentV::Blob(BlobV { mime, len, object_digest: object }), r3),
                    ),
                    None => None,
                },
                None => None,
            },
            None => None,
        }
    } else {
        None
    }
}

/// Read a whole message envelope, field by field in declaration order.
pub open spec fn parse_message(s: Seq<u8>) -> Option<(MessageV, Seq<u8>)> {
    match parse_str(s) {
        Some((sender, r)) => match parse_fixed(32, r) {
            Some((parent, r2)) => match parse_content(r2) {
                Some((content, r3)) => match parse_fixed(32, r3) {
                    Some((digest, r4)) => match parse_str(r4) {
                        Some((signer, r5)) => match parse_fixed(32, r5) {
                            Some((sig_digest, r6)) => match parse_u64(r6) {
                                Some((ts, r7)) => Some(
                                    (
                                        MessageV {
                                            sender: sender,
                                            parent: parent,
                                            content: content,
                                            digest: digest,
                                            signature: (signer, sig_digest),
                                            timestamp: ts,
                                        },
                                        r7,
                                    ),
                                ),
                                None => None,
                            },
                            None => None,
                        },
                        None => None,
                    },
                    None => None,
                },
                None => None,
            },
            None => None,
        },
        None => None,
    }
}

/// A string short enough for its length prefix.
pub open spec fn str_enc_ok(s: Seq<char>) -> bool {
    s.len() <= u64::MAX
}

/// A retinal observation whose variable fields fit their prefixes.
pub open spec fn retina_enc_ok(r: RetinaV) -> bool {
    &&& str_enc_ok(r.omega_id)
    &&& str_enc_ok(r.basis_spec.basis_fingerprint)
    &&& r.a_hat.len() <= u64::MAX
    &&& str_enc_ok(r.cert.deterministic_hash)
}

/// Content whose variable fields fit their prefixes and whose digests
/// have the fixed hash width.
pub open spec fn content_enc_ok(c: ContentV) -> bool {
    match c {
        ContentV::Text(t) => str_enc_ok(t),
        ContentV::Retina(r) => retina_enc_ok(r),
        ContentV::Status(s) => s.wf(),
        ContentV::Blob(b) => str_enc_ok(b.mime) && b.wf(),
    }
}

/// A message whose every variable field fits its prefix and whose every
/// digest has the fixed hash width.
pub open spec fn message_enc_ok(m: MessageV) -> bool {
    &&& str_enc_ok(m.sender)
    &&& m.parent.len() == 32
    &&& content_enc_ok(m.content)
    &&& m.digest.len() == 32
    &&& str_enc_ok(m.signature.0)
    &&& m.signature.1.len() == 32
}

pub proof fn lemma_parse_u64_enc(x: u64, rest: Seq<u8>)
    ensures
        parse_u64(enc_u64(x) + rest) == Some((x, rest)),
{
    lemma_auto_spec_u64_to_from_le_bytes();
    assert(enc_u64(x).len() == 8);
    assert((enc_u64(x) + rest).take(8) =~= enc_u64(x));
    assert((enc_u64(x) + rest).skip(8) =~= rest);
}

pub proof fn lemma_parse_u32_enc(x: u32, rest: Seq<u8>)
    ensures
        parse_u32(enc_u32(x) + rest) == Some((x, rest)),
{
    lemma_auto_spec_u32_to_from_le_bytes();
    assert(enc_u32(x).len() == 4);
    assert((enc_u32(x) + rest).take(4) =~= enc_u32(x));
    assert((enc_u32(x) + rest).skip(4) =~= rest);
}

pub proof fn lemma_parse_i64_enc(x: i64, rest: Seq<u8>)
    ensures
        parse_i64(enc_i64(x) + rest) == Some((x, rest)),
{
    lemma_parse_u64_enc(zigzag(x), rest);
    lemma_zigzag_roundtrip(x);
}

pub proof fn lemma_parse_chars_enc(s: Seq<char>, rest: Seq<u8>)
    ensures
        parse_chars(s.len(), enc_chars(s) + rest) == Some((s, rest)),
    decreases s.len(),
{
    if s.len() == 0 {
        assert(enc_chars(s) + rest =~= rest);
        assert(parse_chars(0, rest) == Some((Seq::<char>::empty(), rest)));
        assert(Seq::<char>::empty() =~= s);
    } else {
        let w = s[0] as u32;
        assert(enc_chars(s) == enc_u32(w) + enc_chars(s.drop_first()));
        assert(enc_chars(s) + rest =~= enc_u32(w) + (enc_chars(s.drop_first()) + rest));
        lemma_parse_u32_enc(w, enc_chars(s.drop_first()) + rest);
        vstd::utf8::char_is_scalar(s[0]);
        vstd::utf8::char_u32_cast(s[0], w);
        lemma_parse_chars_enc(s.drop_first(), rest);
        assert(seq![w as char] + s.drop_first() =~= s);
    }
}

pub proof fn lemma_parse_str_enc(s: Seq<char>, rest: Seq<u8>)
    requires
        str_enc_ok(s),
    ensures
        parse_str(enc_str(s) + rest) == Some((s, rest)),
{
    let n = s.len() as u64;
    assert(enc_str(s) + rest =~= enc_u64(n) + (enc_chars(s) + rest));
    lemma_parse_u64_enc(n, enc_chars(s) + rest);
    lemma_parse_chars_enc(s, rest);
    assert(n as nat == s.len());
}

pub proof fn lemma_parse_fixed_enc(b: Seq<u8>, rest: Seq<u8>)
    ensures
        parse_fixed(b.len(), b + rest) == Some((b, rest)),
{
    assert((b + rest).take(b.len() as int) =~= b);
    assert((b + rest).skip(b.len() as int) =~= rest);
}

pub proof fn lemma_parse_i64s_enc(s: Seq<i64>, rest: Seq<u8>)
    ensures
        parse_i64s(s.len(), enc_i64s(s) + rest) == Some((s, rest)),
    decreases s.len(),
{
    if s.len() == 0 {
        assert(enc_i64s(s) + rest =~= rest);
        assert(Seq::<i64>::empty() =~= s);
    } else {
        assert(enc_i64s(s) == enc_i64(s[0]) + enc_i64s(s.drop_first()));
        assert(enc_i64s(s) + rest =~= enc_i64(s[0]) + (enc_i64s(s.drop_first()) + rest));
        lemma_parse_i64_enc(s[0], enc_i64s(s.drop_first()) + rest);
        lemma_parse_i64s_enc(s.drop_first(), rest);
        assert(seq![s[0]] + s.drop_first() =~= s);
    }
}

pub proof fn lemma_parse_i64_vec_enc(s: Seq<i64>, rest: Seq<u8>)
    requires
        s.len() <= u64::MAX,
    ensures
        parse_i64_vec(enc_i64_vec(s) + rest) == Some((s, rest)),
{
    let n = s.len() as u64;
    assert(enc_i64_vec(s) + rest =~= enc_u64(n) + (enc_i64s(s) + rest));
    lemma_parse_u64_enc(n, enc_i64s(s) + rest);
    lemma_parse_i64s_enc(s, rest);
    assert(n as nat == s.len());
}

pub proof fn lemma_parse_ratio_enc(r: Ratio, rest: Seq<u8>)
    ensures
        parse_ratio(enc_ratio(r) + rest) == Some((r, rest)),
{
    assert(enc_ratio(r) + rest =~= enc_u64(r.num) + (enc_u64(r.den) + rest));
    lemma_parse_u64_enc(r.num, enc_u64(r.den) + rest);
    lemma_parse_u64_enc(r.den, rest);
}

pub proof fn lemma_parse_basis_enc(b: BasisV, rest: Seq<u8>)
    requires
        str_enc_ok(b.basis_fingerprint),
    ensures
        parse_basis(basis_bytes(b) + rest) == Some((b, rest)),
{
    assert(basis_bytes(b) + rest =~= enc_u32(b.nx) + (enc_u32(b.ny) + (enc_str(
        b.basis_fingerprint,
    ) + rest)));
    lemma_parse_u32_enc(b.nx, enc_u32(b.ny) + (enc_str(b.basis_fingerprint) + rest));
    lemma_parse_u32_enc(b.ny, enc_str(b.basis_fingerprint) + rest);
    lemma_parse_str_enc(b.basis_fingerprint, rest);
}

pub proof fn lemma_parse_fove_enc(f: FoveationSpec, rest: Seq<u8>)
    ensures
        parse_fove(fove_bytes(f) + rest) == Some((f, rest)),
{
    assert(fove_bytes(f) + rest =~= enc_i64(f.sigma) + (enc_i64(f.center_x) + (enc_i64(
        f.center_y,
    ) + rest)));
    lemma_parse_i64_enc(f.sigma, enc_i64(f.center_x) + (enc_i64(f.center_y) + rest));
    lemma_parse_i64_enc(f.center_x, enc_i64(f.center_y) + rest);
    lemma_parse_i64_enc(f.center_y, rest);
}

pub proof fn lemma_parse_cert_enc(c: CertV, rest: Seq<u8>)
    requires
        str_enc_ok(c.deterministic_hash),
    ensures
        parse_cert(cert_bytes(c) + rest) == Some((c, rest)),
{
    assert(cert_bytes(c) + rest =~= enc_i64(c.psnr_equiv_db) + (enc_ratio(
        c.fused_variance_drop,
    ) + (enc_i64(c.foveation_alignment_score) + (enc_str(c.deterministic_hash) + rest))));
    lemma_parse_i64_enc(
        c.psnr_equiv_db,
        enc_ratio(c.fused_variance_drop) + (enc_i64(c.foveation_alignment_score) + (enc_str(
            c.deterministic_hash,
        ) + rest)),
    );
    lemma_parse_ratio_enc(
        c.fused_variance_drop,
        enc_i64(c.foveation_alignment_score) + (enc_str(c.deterministic_hash) + rest),
    );
    lemma_parse_i64_enc(c.foveation_alignment_score, enc_str(c.deterministic_hash) + rest);
    lemma_parse_str_enc(c.deterministic_hash, rest);
}

pub proof fn lemma_parse_retina_enc(r: RetinaV, rest: Seq<u8>)
    requires
        retina_enc_ok(r),
    ensures
        parse_retina(retina_bytes(r) + rest) == Some((r, rest)),
{
    let t5 = cert_bytes(r.cert) + rest;
    let t4 = fove_bytes(r.foveation) + t5;
    let t3 = enc_i64(r.lambda) + t4;
    let t2 = enc_i64_vec(r.a_hat) + t3;
    let t1 = basis_bytes(r.basis_spec) + t2;
    assert(retina_bytes(r) + rest =~= enc_str(r.omega_id) + t1);
    lemma_parse_str_enc(r.omega_id, t1);
    lemma_parse_basis_enc(r.basis_spec, t2);
    lemma_parse_i64_vec_enc(r.a_hat, t3);
    lemma_parse_i64_enc(r.lambda, t4);
    lemma_parse_fove_enc(r.foveation, t5);
    lemma_parse_cert_enc(r.cert, rest);
}

pub proof fn lemma_parse_status_enc(s: StatusV, rest: Seq<u8>)
    requires
        s.wf(),
    ensures
        parse_status(status_bytes(s) + rest) == Some((s, rest)),
{
    match s {
        StatusV::Delivered { digest_ack, at } => {
            let t = status_bytes(s) + rest;
            assert(t[0] == 0u8);
            assert(t.skip(1) =~= digest_ack + (enc_u64(at) + rest));
            lemma_parse_fixed_enc(digest_ack, enc_u64(at) + rest);
            lemma_parse_u64_enc(at, rest);
        },
        StatusV::Read { digest_ack, at } => {
            let t = status_bytes(s) + rest;
            assert(t[0] == 1u8);
            assert(t.skip(1) =~= digest_ack + (enc_u64(at) + rest));
            lemma_parse_fixed_enc(digest_ack, enc_u64(at) + rest);
            lemma_parse_u64_enc(at, rest);
        },
        StatusV::TypingStart => {
            let t = status_bytes(s) + rest;
            assert(t[0] == 2u8);
            assert(t.skip(1) =~= rest);
        },
        StatusV::TypingStop => {
            let t = status_bytes(s) + rest;
            assert(t[0] == 3u8);
            assert(t.skip(1) =~= rest);
        },
    }
}

pub proof fn lemma_parse_content_enc(c: ContentV, rest: Seq<u8>)
    requires
        content_enc_ok(c),
    ensures
        parse_content(content_bytes(c) + rest) == Some((c, rest)),
{
    match c {
        ContentV::Text(txt) => {
            let t = content_bytes(c) + rest;
            assert(t[0] == 0u8);
            assert(t.skip(1) =~= enc_str(txt) + rest);
            lemma_parse_str_enc(txt, rest);
        },
        ContentV::Retina(r) => {
            let t = content_bytes(c) + rest;
            assert(t[0] == 1u8);
            assert(t.skip(1) =~= retina_bytes(r) + rest);
            lemma_parse_retina_enc(r, rest);
        },
        ContentV::Status(st) => {
            let t = content_bytes(c) + rest;
            assert(t[0] == 2u8);
            assert(t.skip(1) =~= status_bytes(st) + rest);
            lemma_parse_status_enc(st, rest);
        },
        ContentV::Blob(b) => {
            let t = content_bytes(c) + rest;
            assert(t[0] == 3u8);
            assert(t.skip(1) =~= enc_str(b.mime) + (enc_u64(b.len) + (b.object_digest + rest)));
            lemma_parse_str_enc(b.mime, enc_u64(b.len) + (b.object_digest + rest));
            lemma_parse_u64_enc(b.len, b.object_digest + rest);
            lemma_parse_fixed_enc(b.object_digest, rest);
        },
    }
}

pub proof fn lemma_parse_message_enc(m: MessageV, rest: Seq<u8>)
    requires
        message_enc_ok(m),
    ensures
        parse_message(message_bytes(m) + rest) == Some((m, rest)),
{
    let t6 = enc_u64(m.timestamp) + rest;
    let t5 = m.signature.1 + t6;
    let t4 = enc_str(m.signature.0) + t5;
    let t3 = m.digest + t4;
    let t2 = content_bytes(m.content) + t3;
    let t1 = m.parent + t2;
    assert(message_bytes(m) + rest =~= enc_str(m.sender) + t1);
    lemma_parse_str_enc(m.sender, t1);
    lemma_parse_fixed_enc(m.parent, t2);
    lemma_parse_content_enc(m.content, t3);
    lemma_parse_fixed_enc(m.digest, t4);
    lemma_parse_str_enc(m.signature.0, t5);
    lemma_parse_fixed_enc(m.signature.1, t6);
    lemma_parse_u64_enc(m.timestamp, rest);
}

/// The canonical encoding separates content: two well-formed contents
/// with the same bytes are the same content. Digest collision-freedom is
/// the hash's to provide; this is the codec's half of that bargain.
pub proof fn lemma_content_bytes_injective(c1: ContentV, c2: ContentV)
    requires
        content_enc_ok(c1),
        content_enc_ok(c2),
        content_bytes(c1) == content_bytes(c2),
    ensures
        c1 == c2,
{
    let empty = Seq::<u8>::empty();
    lemma_parse_content_enc(c1, empty);
    lemma_parse_content_enc(c2, empty);
}

/// The canonical encoding separates whole messages as well.
pub proof fn lemma_message_bytes_injective(m1: MessageV, m2: MessageV)
    requires
        message_enc_ok(m1),
        message_enc_ok(m2),
        message_bytes(m1) == message_bytes(m2),
    ensures
        m1 == m2,
{
    let empty = Seq::<u8>::empty();
    lemma_parse_message_enc(m1, empty);
    lemma_parse_message_enc(m2, empty);
}

} // verus!
