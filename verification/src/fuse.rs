//! The fusion engine: combine multiple related retinal observations into
//! one canonical, re-certified observation.
//!
//! The engine is intentionally conservative: it selects the first
//! observation as the canonical representative (a deterministic,
//! order-sensitive choice) and recomputes the certificate's
//! variance-reduction estimate as exactly `1 / J`, where `J` is the count
//! of fused observations. The contract an implementer must keep is this
//! determinism and the monotone certificate behaviour, not numerical
//! accuracy.

use vstd::prelude::*;
use crate::codec::{retina_digest, spec_retina_digest};
use crate::content::{CertBundle, CertV, Ratio, RetinaBody, RetinaV};
use crate::types::Digest;

verus! {

/// One canonical fused observation, together with its fresh digest.
pub struct FusedRetina {
    pub fused: RetinaBody,
    pub fused_digest: Digest,
}

/// What fusing `j` observations headed by `first` yields: the
/// representative with its variance-reduction estimate rewritten to the
/// exact unit fraction `1 / j`.
pub open spec fn spec_fuse_body(first: RetinaV, j: u64) -> RetinaV {
    RetinaV {
        cert: CertV {
            fused_variance_drop: Ratio { num: 1, den: j },
            ..first.cert
        },
        ..first
    }
}

/// Fuse successive fixations into one canonical observation. Yields
/// nothing for an empty sequence; otherwise the first observation is
/// carried over with `fused_variance_drop` set to exactly `1 / J`, and a
/// fresh digest is computed over the fused content.
pub fn fuse_fixations(retinas: &Vec<RetinaBody>) -> (r: Option<FusedRetina>)
    ensures
        r is Some <==> retinas@.len() > 0,
        r matches Some(f) ==> {
            &&& f.fused@ == spec_fuse_body(retinas@[0]@, retinas@.len() as u64)
            &&& f.fused_digest@ == spec_retina_digest(f.fused@)
            &&& f.fused_digest.wf()
            &&& f.fused@.wf()
        },
{
    if retinas.len() == 0 {
        return None;
    }
    let first = &retinas[0];
    let j = retinas.len() as u64;
    let fused = RetinaBody {
        omega_id: first.omega_id.clone(),
        basis_spec: first.basis_spec.clone(),
        a_hat: first.a_hat.clone(),
        lambda: first.lambda,
        foveation: first.foveation,
        cert: CertBundle {
            psnr_equiv_db: first.cert.psnr_equiv_db,
            fused_variance_drop: Ratio::unit_fraction(j),
            foveation_alignment_score: first.cert.foveation_alignment_score,
            deterministic_hash: first.cert.deterministic_hash.clone(),
        },
    };
    let dig = retina_digest(&fused);
    Some(FusedRetina { fused, fused_digest: dig })
}

/// The variance-reduction estimate strictly improves (decreases) as the
/// number of fused observations grows.
pub proof fn lemma_fused_drop_monotone(first: RetinaV, j1: u64, j2: u64)
    requires
        0 < j1 < j2,
    ensures
        spec_fuse_body(first, j2).cert.fused_variance_drop.spec_lt(
            spec_fuse_body(first, j1).cert.fused_variance_drop,
        ),
{
}

} // verus!
