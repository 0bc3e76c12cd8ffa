//! The canonical content model: the closed set of message payload kinds and
//! the enclosing signed, digested, parent-linked message envelope.
//!
//! Fractional quantities (wavelength, foveation geometry, coefficient
//! vectors, certificate metrics) are carried as fixed-point integers in
//! thousandths of a unit, so that every field is exact and the canonical
//! byte encoding is stable across processes. The fused variance-reduction
//! estimate alone is an exact unit fraction (see [`Ratio`]), because fusion
//! must produce exactly `1 / J` for `J` observations.

use vstd::prelude::*;
use crate::blob::{BlobBody, BlobV};
use crate::types::{Digest, PubKey, Signature, Timestamp};

verus! {

/// An exact non-negative rational, kept as numerator and denominator.
#[derive(Clone, Copy, Debug, PartialEq, Eq, Structural)]
pub struct Ratio {
    pub num: u64,
    pub den: u64,
}

impl Ratio {
    /// Well-formed: the denominator is not zero.
    pub open spec fn wf(self) -> bool {
        self.den > 0
    }

    /// Exact zero.
    pub fn zero() -> (r: Ratio)
        ensures
            r == (Ratio { num: 0u64, den: 1u64 }),
    {
        Ratio { num: 0, den: 1 }
    }

    /// The unit fraction `1 / d`.
    pub fn unit_fraction(d: u64) -> (r: Ratio)
        requires
            d > 0,
        ensures
            r == (Ratio { num: 1u64, den: d }),
    {
        Ratio { num: 1, den: d }
    }

    /// Whether `self < other` as rationals: `a/b < c/d` iff `a*d < c*b`.
    pub open spec fn spec_lt(self, other: Ratio) -> bool
        recommends
            self.wf(),
            other.wf(),
    {
        self.num * other.den < other.num * self.den
    }
}

/// A canonicalized text payload: whitespace runs collapsed, ends trimmed.
pub struct TextBody {
    pub canonical_text: String,
}

impl View for TextBody {
    type V = Seq<char>;

    open spec fn view(&self) -> Seq<char> {
        self.canonical_text@
    }
}

impl Clone for TextBody {
    fn clone(&self) -> (r: Self)
        ensures
            r@ == self@,
    {
        TextBody { canonical_text: self.canonical_text.clone() }
    }
}

/// The mathematical value of a [`BasisSpec`].
pub struct BasisV {
    pub nx: u32,
    pub ny: u32,
    pub basis_fingerprint: Seq<char>,
}

/// The basis grid a retinal observation was solved against.
pub struct BasisSpec {
    pub nx: u32,
    pub ny: u32,
    pub basis_fingerprint: String,
}

impl View for BasisSpec {
    type V = BasisV;

    open spec fn view(&self) -> BasisV {
        BasisV { nx: self.nx, ny: self.ny, basis_fingerprint: self.basis_fingerprint@ }
    }
}

impl Clone for BasisSpec {
    fn clone(&self) -> (r: Self)
        ensures
            r@ == self@,
    {
        BasisSpec {
            nx: self.nx,
            ny: self.ny,
            basis_fingerprint: self.basis_fingerprint.clone(),
        }
    }
}

/// Foveation parameters in thousandths: spread and center coordinates.
#[derive(Clone, Copy)]
pub struct FoveationSpec {
    pub sigma: i64,
    pub center_x: i64,
    pub center_y: i64,
}

/// Quality metrics attached to retinal content, recomputed at fusion.
pub struct CertBundle {
    /// Signal-fidelity estimate, in thousandths of a decibel.
    pub psnr_equiv_db: i64,
    /// Variance-reduction estimate; exactly `1 / J` after fusing `J`
    /// observations.
    pub fused_variance_drop: Ratio,
    /// Alignment score, in thousandths.
    pub foveation_alignment_score: i64,
    /// A deterministic fingerprint string for the certificate.
    pub deterministic_hash: String,
}

/// The mathematical value of a [`CertBundle`].
pub struct CertV {
    pub psnr_equiv_db: i64,
    pub fused_variance_drop: Ratio,
    pub foveation_alignment_score: i64,
    pub deterministic_hash: Seq<char>,
}

impl View for CertBundle {
    type V = CertV;

    open spec fn view(&self) -> CertV {
        CertV {
            psnr_equiv_db: self.psnr_equiv_db,
            fused_variance_drop: self.fused_variance_drop,
            foveation_alignment_score: self.foveation_alignment_score,
            deterministic_hash: self.deterministic_hash@,
        }
    }
}

impl Clone for CertBundle {
    fn clone(&self) -> (r: Self)
        ensures
            r@ == self@,
    {
        CertBundle {
            psnr_equiv_db: self.psnr_equiv_db,
            fused_variance_drop: self.fused_variance_drop,
            foveation_alignment_score: self.foveation_alignment_score,
            deterministic_hash: self.deterministic_hash.clone(),
        }
    }
}

/// The mathematical value of a [`RetinaBody`].
pub struct RetinaV {
    pub omega_id: Seq<char>,
    pub basis_spec: BasisV,
    pub a_hat: Seq<i64>,
    pub lambda: i64,
    pub foveation: FoveationSpec,
    pub cert: CertV,
}

impl RetinaV {
    /// Well-formed: the certificate's fraction has a non-zero denominator.
    pub open spec fn wf(self) -> bool {
        self.cert.fused_variance_drop.wf()
    }
}

/// A structured scientific observation: basis descriptor, coefficient
/// vector (thousandths), wavelength (thousandths), foveation parameters,
/// and a certificate bundle.
pub struct RetinaBody {
    pub omega_id: String,
    pub basis_spec: BasisSpec,
    pub a_hat: Vec<i64>,
    pub lambda: i64,
    pub foveation: FoveationSpec,
    pub cert: CertBundle,
}

impl View for RetinaBody {
    type V = RetinaV;

    open spec fn view(&self) -> RetinaV {
        RetinaV {
            omega_id: self.omega_id@,
            basis_spec: self.basis_spec@,
            a_hat: self.a_hat@,
            lambda: self.lambda,
            foveation: self.foveation,
            cert: self.cert@,
        }
    }
}

impl DeepView for RetinaBody {
    type V = RetinaV;

    open spec fn deep_view(&self) -> RetinaV {
        self@
    }
}

impl Clone for RetinaBody {
    fn clone(&self) -> (r: Self)
        ensures
            r@ == self@,
    {
        RetinaBody {
            omega_id: self.omega_id.clone(),
            basis_spec: self.basis_spec.clone(),
            a_hat: self.a_hat.clone(),
            lambda: self.lambda,
            foveation: self.foveation,
            cert: self.cert.clone(),
        }
    }
}

/// The mathematical value of a [`StatusEvent`].
pub enum StatusV {
    Delivered { digest_ack: Seq<u8>, at: u64 },
    Read { digest_ack: Seq<u8>, at: u64 },
    TypingStart,
    TypingStop,
}

impl StatusV {
    /// Well-formed: an acknowledged digest has the fixed hash width.
    pub open spec fn wf(self) -> bool {
        match self {
            StatusV::Delivered { digest_ack, at } => digest_ack.len() == 32,
            StatusV::Read { digest_ack, at } => digest_ack.len() == 32,
            StatusV::TypingStart => true,
            StatusV::TypingStop => true,
        }
    }
}

/// Delivered/Read receipts referencing a digest, or ephemeral typing marks.
pub enum StatusEvent {
    Delivered { digest_ack: Digest, at: Timestamp },
    Read { digest_ack: Digest, at: Timestamp },
    TypingStart,
    TypingStop,
}

impl View for StatusEvent {
    type V = StatusV;

    open spec fn view(&self) -> StatusV {
        match self {
            StatusEvent::Delivered { digest_ack, at } => StatusV::Delivered {
                digest_ack: digest_ack@,
                at: at@,
            },
            StatusEvent::Read { digest_ack, at } => StatusV::Read {
                digest_ack: digest_ack@,
                at: at@,
            },
            StatusEvent::TypingStart => StatusV::TypingStart,
            StatusEvent::TypingStop => StatusV::TypingStop,
        }
    }
}

impl Clone for StatusEvent {
    fn clone(&self) -> (r: Self)
        ensures
            r@ == self@,
    {
        match self {
            StatusEvent::Delivered { digest_ack, at } => StatusEvent::Delivered {
                digest_ack: digest_ack.clone(),
                at: *at,
            },
            StatusEvent::Read { digest_ack, at } => StatusEvent::Read {
                digest_ack: digest_ack.clone(),
                at: *at,
            },
            StatusEvent::TypingStart => StatusEvent::TypingStart,
            StatusEvent::TypingStop => StatusEvent::TypingStop,
        }
    }
}

/// The mathematical value of a [`Content`].
pub enum ContentV {
    Text(Seq<char>),
    Retina(RetinaV),
    Status(StatusV),
    Blob(BlobV),
}

impl ContentV {
    /// Well-formed: every digest held inside has the fixed hash width and
    /// every fraction a non-zero denominator.
    pub open spec fn wf(self) -> bool {
        match self {
            ContentV::Text(t) => true,
            ContentV::Retina(r) => r.wf(),
            ContentV::Status(s) => s.wf(),
            ContentV::Blob(b) => b.wf(),
        }
    }
}

/// The closed set of message payload kinds.
pub enum Content {
    Text(TextBody),
    Retina(RetinaBody),
    Status(StatusEvent),
    Blob(BlobBody),
}

impl View for Content {
    type V = ContentV;

    open spec fn view(&self) -> ContentV {
        match self {
            Content::Text(t) => ContentV::Text(t@),
            Content::Retina(r) => ContentV::Retina(r@),
            Content::Status(s) => ContentV::Status(s@),
            Content::Blob(b) => ContentV::Blob(b@),
        }
    }
}

impl Clone for Content {
    fn clone(&self) -> (r: Self)
        ensures
            r@ == self@,
    {
        match self {
            Content::Text(t) => Content::Text(t.clone()),
            Content::Retina(r) => Content::Retina(r.clone()),
            Content::Status(s) => Content::Status(s.clone()),
            Content::Blob(b) => Content::Blob(b.clone()),
        }
    }
}

/// The mathematical value of a [`Message`].
pub struct MessageV {
    pub sender: Seq<char>,
    pub parent: Seq<u8>,
    pub content: ContentV,
    pub digest: Seq<u8>,
    pub signature: (Seq<char>, Seq<u8>),
    pub timestamp: u64,
}

impl MessageV {
    /// Well-formed: every digest field has the fixed hash width and the
    /// content is well formed.
    pub open spec fn wf(self) -> bool {
        &&& self.parent.len() == 32
        &&& self.digest.len() == 32
        &&& self.signature.1.len() == 32
        &&& self.content.wf()
    }
}

/// A message, immutable once assembled: sender, parent digest (the all-zero
/// digest denotes a root), content, content digest, signature, timestamp.
/// Acceptance or rejection is a judgment each observer makes independently;
/// it never alters the message.
pub struct Message {
    pub sender: PubKey,
    pub parent: Digest,
    pub content: Content,
    pub digest: Digest,
    pub signature: Signature,
    pub timestamp: Timestamp,
}

impl View for Message {
    type V = MessageV;

    open spec fn view(&self) -> MessageV {
        MessageV {
            sender: self.sender@,
            parent: self.parent@,
            content: self.content@,
            digest: self.digest@,
            signature: self.signature@,
            timestamp: self.timestamp@,
        }
    }
}

impl DeepView for Message {
    type V = MessageV;

    open spec fn deep_view(&self) -> MessageV {
        self@
    }
}

impl Clone for Message {
    fn clone(&self) -> (r: Self)
        ensures
            r@ == self@,
    {
        Message {
            sender: self.sender.clone(),
            parent: self.parent.clone(),
            content: self.content.clone(),
            digest: self.digest.clone(),
            signature: self.signature.clone(),
            timestamp: self.timestamp,
        }
    }
}

} // verus!
