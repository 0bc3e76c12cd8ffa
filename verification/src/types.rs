//! Identity and digest primitives: opaque identity, content digest,
//! signature value, timestamp, and the hashing entry point they share.

use vstd::prelude::*;

verus! {

/// A content fingerprint: the 32 bytes of a cryptographic hash over the
/// canonical byte encoding of some content. Equality is byte-exact.
pub struct Digest(pub Vec<u8>);

impl View for Digest {
    type V = Seq<u8>;

    open spec fn view(&self) -> Seq<u8> {
        self.0@
    }
}

impl DeepView for Digest {
    type V = Seq<u8>;

    open spec fn deep_view(&self) -> Seq<u8> {
        self@
    }
}

impl Digest {
    /// A digest is well formed when it holds exactly 32 bytes.
    pub open spec fn wf(&self) -> bool {
        self@.len() == 32
    }
}

impl Clone for Digest {
    fn clone(&self) -> (r: Self)
        ensures
            r@ == self@,
    {
        Digest(self.0.clone())
    }
}

impl PartialEq for Digest {
    fn eq(&self, other: &Digest) -> (r: bool) {
        let r = self.0 == other.0;
        proof {
            if r {
                assert(self.0@ =~= other.0@);
            }
        }
        r
    }
}

impl Eq for Digest {

}

impl vstd::std_specs::cmp::PartialEqSpecImpl for Digest {
    open spec fn obeys_eq_spec() -> bool {
        true
    }

    open spec fn eq_spec(&self, other: &Digest) -> bool {
        self@ == other@
    }
}

/// An opaque principal identifier, stable for the lifetime of a participant.
pub struct PubKey(pub String);

impl View for PubKey {
    type V = Seq<char>;

    open spec fn view(&self) -> Seq<char> {
        self.0@
    }
}

impl DeepView for PubKey {
    type V = Seq<char>;

    open spec fn deep_view(&self) -> Seq<char> {
        self@
    }
}

impl Clone for PubKey {
    fn clone(&self) -> (r: Self)
        ensures
            r == *self,
    {
        PubKey(self.0.clone())
    }
}

impl PartialEq for PubKey {
    fn eq(&self, other: &PubKey) -> (r: bool) {
        self.0 == other.0
    }
}

impl Eq for PubKey {

}

impl vstd::std_specs::cmp::PartialEqSpecImpl for PubKey {
    open spec fn obeys_eq_spec() -> bool {
        true
    }

    open spec fn eq_spec(&self, other: &PubKey) -> bool {
        self@ == other@
    }
}

/// A placeholder signature: a deterministic binding of a signer identity to
/// a digest, verified by recomputation. A production system may substitute
/// real asymmetric cryptography without changing any caller's contract.
pub struct Signature {
    pub signer: PubKey,
    pub digest: Digest,
}

impl View for Signature {
    type V = (Seq<char>, Seq<u8>);

    open spec fn view(&self) -> (Seq<char>, Seq<u8>) {
        (self.signer@, self.digest@)
    }
}

impl Clone for Signature {
    fn clone(&self) -> (r: Self)
        ensures
            r@ == self@,
    {
        Signature { signer: self.signer.clone(), digest: self.digest.clone() }
    }
}

impl PartialEq for Signature {
    fn eq(&self, other: &Signature) -> (r: bool) {
        self.signer == other.signer && self.digest == other.digest
    }
}

impl Eq for Signature {

}

impl vstd::std_specs::cmp::PartialEqSpecImpl for Signature {
    open spec fn obeys_eq_spec() -> bool {
        true
    }

    open spec fn eq_spec(&self, other: &Signature) -> bool {
        self@ == other@
    }
}

/// A wall-clock value in milliseconds, attached at message assembly. It is
/// never used for ordering decisions (causal links are), only for audit.
#[derive(Clone, Copy)]
pub struct Timestamp(pub u64);

impl View for Timestamp {
    type V = u64;

    open spec fn view(&self) -> u64 {
        self.0
    }
}

/// The 32 bytes of the hash that the outside crate computes over the given
/// bytes. Deterministic: a function of the input bytes alone.
pub uninterp spec fn sha256_of(bytes: Seq<u8>) -> Seq<u8>;

/// Relies on sha2::Sha256 (through the digest crate's `Digest::digest`):
/// the result is a 32-byte hash and a function of the input bytes alone.
#[verifier::external_body]
pub fn sha256_bytes(bytes: &[u8]) -> (r: Vec<u8>)
    ensures
        r@ == sha256_of(bytes@),
        r@.len() == 32,
{
    <sha2::Sha256 as sha2::Digest>::digest(bytes).to_vec()
}

/// The digest of a raw byte payload, as the content-addressed byte store
/// computes it: the hash of the bytes themselves.
pub open spec fn spec_bytes_digest(bytes: Seq<u8>) -> Seq<u8> {
    sha256_of(bytes)
}

/// Hash a raw byte payload into its content-addressed digest.
pub fn bytes_digest(bytes: &Vec<u8>) -> (r: Digest)
    ensures
        r@ == spec_bytes_digest(bytes@),
        r.wf(),
{
    Digest(sha256_bytes(bytes.as_slice()))
}

/// Relies on std::time::SystemTime: the milliseconds elapsed since the Unix
/// epoch, saturated into a `u64`; zero if the clock sits before the epoch.
/// Nothing is promised of the value: it depends on the machine's clock.
#[verifier::external_body]
pub fn now_timestamp() -> (r: Timestamp) {
    let millis = std::time::SystemTime::now()
        .duration_since(std::time::UNIX_EPOCH)
        .map(|d| d.as_millis())
        .unwrap_or(0);
    Timestamp(if millis > u64::MAX as u128 { u64::MAX } else { millis as u64 })
}

/// What `sign_digest` binds: the signer's identity and the signed digest.
pub open spec fn spec_sign(signer: Seq<char>, digest: Seq<u8>) -> (Seq<char>, Seq<u8>) {
    (signer, digest)
}

/// Bind a signer identity to a digest. The binding is a pure function of
/// the pair, so any tampering with content, sender, or digest is detectable
/// by recomputation.
pub fn sign_digest(pk: &PubKey, d: &Digest) -> (r: Signature)
    ensures
        r@ == spec_sign(pk@, d@),
{
    Signature { signer: pk.clone(), digest: d.clone() }
}

/// The distinguished all-zero digest that marks a root message.
pub open spec fn spec_zero_digest() -> Seq<u8> {
    Seq::new(32, |i: int| 0u8)
}

/// The distinguished all-zero digest that marks a root message.
pub fn zero_digest() -> (r: Digest)
    ensures
        r@ == spec_zero_digest(),
        r.wf(),
{
    let mut bytes: Vec<u8> = Vec::new();
    let mut i: usize = 0;
    while i < 32
        invariant
            i <= 32,
            bytes@.len() == i,
            forall|j: int| 0 <= j < i ==> bytes@[j] == 0u8,
        decreases 32 - i,
    {
        bytes.push(0u8);
        i = i + 1;
    }
    proof {
        assert(bytes@ =~= spec_zero_digest());
    }
    Digest(bytes)
}

/// The lower-case hex digit for a value below sixteen.
pub open spec fn spec_hex_digit(v: u8) -> char
    recommends
        v < 16,
{
    if v < 10 {
        (v + 48) as char
    } else {
        (v + 87) as char
    }
}

/// The lower-case hexadecimal spelling of a byte sequence, two digits per
/// byte, high nibble first.
pub open spec fn spec_hex_of(bytes: Seq<u8>) -> Seq<char>
    decreases bytes.len(),
{
    if bytes.len() == 0 {
        Seq::empty()
    } else {
        spec_hex_of(bytes.drop_last())
            + seq![spec_hex_digit(bytes.last() / 16), spec_hex_digit(bytes.last() % 16)]
    }
}

fn hex_digit(v: u8) -> (r: char)
    requires
        v < 16,
    ensures
        r == spec_hex_digit(v),
{
    if v < 10 {
        (v + 48) as char
    } else {
        (v + 87) as char
    }
}

/// Relies on std's `FromIterator<char> for String` (via `Iterator::collect`):
/// the collected string holds exactly the given characters in order.
#[verifier::external_body]
pub fn chars_to_string(chars: &Vec<char>) -> (r: String)
    ensures
        r@ == chars@,
{
    chars.iter().collect()
}

/// The lower-case hexadecimal spelling of a digest, as the byte store uses
/// it for content addressing.
pub fn digest_to_hex(d: &Digest) -> (r: String)
    ensures
        r@ == spec_hex_of(d@),
{
    let mut out: Vec<char> = Vec::new();
    let mut i: usize = 0;
    while i < d.0.len()
        invariant
            i <= d.0.len(),
            out@ == spec_hex_of(d@.take(i as int)),
        decreases d.0.len() - i,
    {
        let b = d.0[i];
        out.push(hex_digit(b / 16));
        out.push(hex_digit(b % 16));
        proof {
            assert(d@.take(i + 1 as int).drop_last() =~= d@.take(i as int));
            assert(d@.take(i + 1 as int).last() == d@[i as int]);
        }
        i = i + 1;
    }
    proof {
        assert(d@.take(d@.len() as int) =~= d@);
    }
    chars_to_string(&out)
}

} // verus!
