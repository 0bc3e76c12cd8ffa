//! Evidence collapse: the deterministic mapping from raw, possibly noisy
//! evidence into canonical content, and the assembly of a signed, digested
//! message around that content.

use vstd::prelude::*;
use vstd::pervasive::VecAdditionalExecFns;
use crate::blob::{BlobBody, BlobV};
use crate::codec::{compute_digest, spec_digest_of};
use crate::content::{
    BasisSpec, BasisV, CertBundle, CertV, Content, ContentV, FoveationSpec, Message, MessageV,
    Ratio, RetinaBody, RetinaV, StatusEvent, StatusV, TextBody,
};
use crate::types::{
    bytes_digest, chars_to_string, sign_digest, spec_bytes_digest, spec_sign, Digest, PubKey,
    Timestamp,
};

verus! {

/// The raw evidence kinds that collapse turns into canonical content.
pub enum Evidence {
    /// Free-form text to canonicalize: whitespace runs collapse to single
    /// spaces, the ends are trimmed.
    DraftText { raw: String },
    /// A raw retinal capture, in thousandths: samples, wavelength,
    /// foveation (spread, center x, center y), basis grid sizes, and a
    /// seed for the certificate.
    RawRetinaCapture {
        samples: Vec<(i64, i64, i64)>,
        lambda: i64,
        foveation_cfg: (i64, i64, i64),
        basis_cfg: (u32, u32),
        cert_seed: u64,
    },
    /// A status event passed through unchanged.
    StatusIntent(StatusEvent),
    /// A binary payload with its MIME type, destined for the external
    /// content-addressed byte store.
    Blob { bytes: Vec<u8>, mime: String },
}

/// The mathematical value of an [`Evidence`].
pub enum EvidenceV {
    DraftText { raw: Seq<char> },
    RawRetinaCapture {
        samples: Seq<(i64, i64, i64)>,
        lambda: i64,
        foveation_cfg: (i64, i64, i64),
        basis_cfg: (u32, u32),
        cert_seed: u64,
    },
    StatusIntent(StatusV),
    Blob { bytes: Seq<u8>, mime: Seq<char> },
}

impl EvidenceV {
    /// Well-formed: a status event passed through must reference a digest
    /// of the fixed hash width; every other kind is unconstrained.
    pub open spec fn wf(self) -> bool {
        match self {
            EvidenceV::StatusIntent(s) => s.wf(),
            _ => true,
        }
    }
}

impl View for Evidence {
    type V = EvidenceV;

    open spec fn view(&self) -> EvidenceV {
        match self {
            Evidence::DraftText { raw } => EvidenceV::DraftText { raw: raw@ },
            Evidence::RawRetinaCapture { samples, lambda, foveation_cfg, basis_cfg, cert_seed } =>
                EvidenceV::RawRetinaCapture {
                samples: samples@,
                lambda: *lambda,
                foveation_cfg: *foveation_cfg,
                basis_cfg: *basis_cfg,
                cert_seed: *cert_seed,
            },
            Evidence::StatusIntent(evt) => EvidenceV::StatusIntent(evt@),
            Evidence::Blob { bytes, mime } => EvidenceV::Blob { bytes: bytes@, mime: mime@ },
        }
    }
}

/// Whether a character carries the Unicode white-space property, the set
/// that ordinary whitespace splitting goes by.
pub open spec fn spec_is_space(c: char) -> bool {
    let u = c as u32;
    ||| u == 9
    ||| u == 10
    ||| u == 11
    ||| u == 12
    ||| u == 13
    ||| u == 32
    ||| u == 0x85
    ||| u == 0xA0
    ||| u == 0x1680
    ||| (0x2000 <= u && u <= 0x200A)
    ||| u == 0x2028
    ||| u == 0x2029
    ||| u == 0x202F
    ||| u == 0x205F
    ||| u == 0x3000
}

fn is_space(c: char) -> (r: bool)
    ensures
        r == spec_is_space(c),
{
    let u = c as u32;
    u == 9 || u == 10 || u == 11 || u == 12 || u == 13 || u == 32 || u == 0x85 || u == 0xA0
        || u == 0x1680 || (0x2000 <= u && u <= 0x200A) || u == 0x2028 || u == 0x2029 || u == 0x202F
        || u == 0x205F || u == 0x3000
}

/// One left-to-right pass over the remaining characters: `out` is what is
/// already canonical, `pending` records a whitespace run seen since the
/// last kept character.
pub open spec fn canon_step(s: Seq<char>, out: Seq<char>, pending: bool) -> Seq<char>
    decreases s.len(),
{
    if s.len() == 0 {
        out
    } else {
        let c = s[0];
        if spec_is_space(c) {
            canon_step(s.drop_first(), out, pending || out.len() > 0)
        } else if pending {
            canon_step(s.drop_first(), out + seq![' '] + seq![c], false)
        } else {
            canon_step(s.drop_first(), out.push(c), false)
        }
    }
}

/// The canonical form of a text: whitespace runs collapsed to single
/// spaces, leading and trailing whitespace removed. Two texts that differ
/// only in whitespace layout canonicalize identically.
pub open spec fn canon_text(s: Seq<char>) -> Seq<char> {
    canon_step(s, Seq::empty(), false)
}

/// Canonicalize a text: collapse each whitespace run to one space and
/// trim both ends.
pub fn canonicalize_text(raw: &String) -> (r: String)
    ensures
        r@ == canon_text(raw@),
{
    let n = raw.as_str().unicode_len();
    let mut out: Vec<char> = Vec::new();
    let mut pending: bool = false;
    let mut i: usize = 0;
    proof {
        assert(raw@.skip(0) =~= raw@);
        assert(out@ =~= Seq::<char>::empty());
    }
    while i < n
        invariant
            i <= n,
            n as nat == raw@.len(),
            canon_step(raw@.skip(i as int), out@, pending) == canon_text(raw@),
        decreases n - i,
    {
        proof {
            assert(raw@.skip(i as int)[0] == raw@[i as int]);
            assert(raw@.skip(i as int).drop_first() =~= raw@.skip(i + 1 as int));
        }
        let ghost prev = out@;
        let c = raw.as_str().get_char(i);
        if is_space(c) {
            pending = pending || out.len() > 0;
        } else if pending {
            out.push(' ');
            out.push(c);
            pending = false;
            proof {
                assert(out@ =~= prev + seq![' '] + seq![c]);
            }
        } else {
            out.push(c);
        }
        i = i + 1;
    }
    proof {
        assert(raw@.skip(n as int) =~= Seq::<char>::empty());
    }
    chars_to_string(&out)
}

/// The placeholder solve for a raw capture: a fixed seven-component
/// coefficient vector, a certificate with a fixed fidelity estimate, a
/// zero variance drop, a unit alignment score, and fixed identifiers. It
/// is deterministic given identical inputs, which is the contract a
/// production solver must keep, since downstream digesting depends on it.
pub open spec fn spec_demo_retina(
    lambda: i64,
    foveation_cfg: (i64, i64, i64),
    basis_cfg: (u32, u32),
) -> RetinaV {
    RetinaV {
        omega_id: "omega/0"@,
        basis_spec: BasisV { nx: basis_cfg.0, ny: basis_cfg.1, basis_fingerprint: "basis/demo"@ },
        a_hat: seq![100i64, 200i64, 50i64, 0i64, -30i64, 70i64, 120i64],
        lambda: lambda,
        foveation: FoveationSpec {
            sigma: foveation_cfg.0,
            center_x: foveation_cfg.1,
            center_y: foveation_cfg.2,
        },
        cert: CertV {
            psnr_equiv_db: 80000,
            fused_variance_drop: Ratio { num: 0, den: 1 },
            foveation_alignment_score: 1000,
            deterministic_hash: "demo-cert"@,
        },
    }
}

/// What collapse produces for each evidence kind: canonical text, the
/// placeholder retinal solve, the status event unchanged, or a blob
/// descriptor whose store digest is the hash of the bytes.
pub open spec fn spec_collapse(e: EvidenceV) -> ContentV {
    match e {
        EvidenceV::DraftText { raw } => ContentV::Text(canon_text(raw)),
        EvidenceV::RawRetinaCapture { samples, lambda, foveation_cfg, basis_cfg, cert_seed } =>
            ContentV::Retina(spec_demo_retina(lambda, foveation_cfg, basis_cfg)),
        EvidenceV::StatusIntent(s) => ContentV::Status(s),
        EvidenceV::Blob { bytes, mime } => ContentV::Blob(
            BlobV { mime: mime, len: bytes.len() as u64, object_digest: spec_bytes_digest(bytes) },
        ),
    }
}

/// Collapse evidence into canonical content. Pure and deterministic; for
/// blob evidence the descriptor's store digest is computed here, and the
/// idempotent write of the bytes under that digest is the byte store's
/// affair.
pub fn collapse_evidence(e: Evidence) -> (r: Content)
    ensures
        r@ == spec_collapse(e@),
        e@.wf() ==> r@.wf(),
{
    match e {
        Evidence::DraftText { raw } => {
            let canonical = canonicalize_text(&raw);
            Content::Text(TextBody { canonical_text: canonical })
        },
        Evidence::RawRetinaCapture { samples, lambda, foveation_cfg, basis_cfg, cert_seed } => {
            let (sigma, cx, cy) = foveation_cfg;
            let (nx, ny) = basis_cfg;
            let mut a_hat: Vec<i64> = Vec::new();
            a_hat.push(100);
            a_hat.push(200);
            a_hat.push(50);
            a_hat.push(0);
            a_hat.push(-30);
            a_hat.push(70);
            a_hat.push(120);
            proof {
                assert(a_hat@ =~= seq![100i64, 200i64, 50i64, 0i64, -30i64, 70i64, 120i64]);
            }
            let cert = CertBundle {
                psnr_equiv_db: 80000,
                fused_variance_drop: Ratio::zero(),
                foveation_alignment_score: 1000,
                deterministic_hash: "demo-cert".to_owned(),
            };
            let retina = RetinaBody {
                omega_id: "omega/0".to_owned(),
                basis_spec: BasisSpec { nx, ny, basis_fingerprint: "basis/demo".to_owned() },
                a_hat,
                lambda,
                foveation: FoveationSpec { sigma, center_x: cx, center_y: cy },
                cert,
            };
            Content::Retina(retina)
        },
        Evidence::StatusIntent(evt) => Content::Status(evt),
        Evidence::Blob { bytes, mime } => {
            let len = bytes.len() as u64;
            let object_digest = bytes_digest(&bytes);
            Content::Blob(BlobBody { mime, len, object_digest })
        },
    }
}

/// The public collapse entry the orchestrator uses.
pub fn phi_collapse(e: Evidence) -> (r: Content)
    ensures
        r@ == spec_collapse(e@),
        e@.wf() ==> r@.wf(),
{
    collapse_evidence(e)
}

/// The message that assembly produces: the content's digest is computed,
/// the signature binds the sender to that digest, and the given parent
/// and timestamp are attached.
pub open spec fn spec_assemble(
    sender: Seq<char>,
    parent: Seq<u8>,
    content: ContentV,
    ts: u64,
) -> MessageV {
    MessageV {
        sender: sender,
        parent: parent,
        content: content,
        digest: spec_digest_of(content),
        signature: spec_sign(sender, spec_digest_of(content)),
        timestamp: ts,
    }
}

/// Assemble a signed, digested message around canonical content.
pub fn assemble_message(
    sender: &PubKey,
    parent: Digest,
    content: Content,
    timestamp: Timestamp,
) -> (m: Message)
    requires
        parent.wf(),
    ensures
        m@ == spec_assemble(sender@, parent@, content@, timestamp@),
        content@.wf() ==> m@.wf(),
{
    let digest = compute_digest(&content);
    let signature = sign_digest(sender, &digest);
    Message { sender: sender.clone(), parent, content, digest, signature, timestamp }
}

} // verus!
