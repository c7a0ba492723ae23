use vstd::prelude::*;
use vstd::std_specs::cmp::PartialEqSpecImpl;
use crate::collections::{Dated, Key};

verus! {

/// Width in bytes of a content address.
pub const DIGEST_LEN: usize = 32;

/// A fixed-width content address of a serialised entity.
#[derive(Clone, Copy, Eq, Debug, Hash)]
pub struct Digest(pub [u8; 32]);

/// The identity of a replica: an Ed25519 verifying key in compressed form.
#[derive(Clone, Copy, Eq, Debug, Hash)]
pub struct PublicKey(pub [u8; 32]);

/// An Ed25519 signature, `R` followed by `s`.
#[derive(Clone, Copy, Eq, Debug)]
pub struct Signature(pub [u8; 64]);

/// Byte-wise equality of two arrays of the same length.
pub fn bytes_equal<const N: usize>(a: &[u8; N], b: &[u8; N]) -> (r: bool)
    ensures
        r == (*a == *b),
{
    let mut i: usize = 0;
    while i < N
        invariant
            i <= N,
            forall|j: int| 0 <= j < i ==> a[j] == b[j],
        decreases N - i,
    {
        if a[i] != b[i] {
            return false;
        }
        i += 1;
    }
    assert(a =~= b);
    true
}

impl PartialEq for Digest {
    fn eq(&self, other: &Self) -> (r: bool) {
        bytes_equal(&self.0, &other.0)
    }
}

impl PartialEqSpecImpl for Digest {
    open spec fn obeys_eq_spec() -> bool {
        true
    }

    open spec fn eq_spec(&self, other: &Self) -> bool {
        *self == *other
    }
}

impl PartialEq for PublicKey {
    fn eq(&self, other: &Self) -> (r: bool) {
        bytes_equal(&self.0, &other.0)
    }
}

impl PartialEqSpecImpl for PublicKey {
    open spec fn obeys_eq_spec() -> bool {
        true
    }

    open spec fn eq_spec(&self, other: &Self) -> bool {
        *self == *other
    }
}

impl PartialEq for Signature {
    fn eq(&self, other: &Self) -> (r: bool) {
        bytes_equal(&self.0, &other.0)
    }
}

impl PartialEqSpecImpl for Signature {
    open spec fn obeys_eq_spec() -> bool {
        true
    }

    open spec fn eq_spec(&self, other: &Self) -> bool {
        *self == *other
    }
}

/// Whether every byte is zero.
pub open spec fn all_zero(s: Seq<u8>) -> bool {
    forall|i: int| 0 <= i < s.len() ==> s[i] == 0u8
}

impl Digest {
    /// The digest of all zeroes, which stands where no content is addressed.
    pub open spec fn zero() -> Digest {
        choose|d: Digest| all_zero(d.0@)
    }

    /// The width of a digest in bytes.
    pub fn size(&self) -> (n: usize)
        ensures
            n == DIGEST_LEN,
    {
        DIGEST_LEN
    }
}

impl Default for Digest {
    fn default() -> (d: Self)
        ensures
            d == Digest::zero(),
    {
        let d = Digest([0u8; 32]);
        assert(all_zero(d.0@));
        assert(d.0 =~= Digest::zero().0);
        d
    }
}

impl Signature {
    /// The signature of all zeroes, which stands where nothing was signed.
    pub open spec fn zero() -> Signature {
        choose|s: Signature| all_zero(s.0@)
    }
}

impl Default for Signature {
    fn default() -> (s: Self)
        ensures
            s == Signature::zero(),
    {
        let s = Signature([0u8; 64]);
        assert(all_zero(s.0@));
        assert(s.0 =~= Signature::zero().0);
        s
    }
}

impl Key for Digest {
    fn same(&self, other: &Self) -> (r: bool) {
        *self == *other
    }
}

impl Key for PublicKey {
    fn same(&self, other: &Self) -> (r: bool) {
        *self == *other
    }
}

/// A height in an author's chain of headers.
pub type Height = u64;

/// The number of an agreement instance.
pub type Slot = u64;

/// The number of an attempt within a slot.
pub type ViewNumber = u64;

/// The weight of a replica's vote.
pub type Stake = u32;

/// A slot together with one of its views.
#[derive(Clone, Copy, PartialEq, Eq, Structural, Debug, Hash)]
pub struct Round {
    pub slot: Slot,
    pub view: ViewNumber,
}

impl Key for Round {
    fn same(&self, other: &Self) -> (r: bool) {
        self.slot == other.slot && self.view == other.view
    }
}

impl Dated for Round {
    open spec fn date(self) -> u64 {
        self.slot
    }

    fn dated(&self) -> (d: u64) {
        self.slot
    }
}

/// A height together with the author of a header at that height.
#[derive(Clone, Copy, Eq, Debug, Hash)]
pub struct Ballot {
    pub height: Height,
    pub author: PublicKey,
}

impl PartialEq for Ballot {
    fn eq(&self, other: &Self) -> (r: bool) {
        self.height == other.height && self.author == other.author
    }
}

impl PartialEqSpecImpl for Ballot {
    open spec fn obeys_eq_spec() -> bool {
        true
    }

    open spec fn eq_spec(&self, other: &Self) -> bool {
        *self == *other
    }
}

impl Dated for Ballot {
    open spec fn date(self) -> u64 {
        self.height
    }

    fn dated(&self) -> (d: u64) {
        self.height
    }
}

impl Key for Ballot {
    fn same(&self, other: &Self) -> (r: bool) {
        *self == *other
    }
}

/// Lexicographic order on byte strings of one length: whether `a` comes
/// strictly before `b`.
pub open spec fn lex_less(a: Seq<u8>, b: Seq<u8>) -> bool {
    exists|i: int|
        0 <= i < a.len() && i < b.len() && a[i] < b[i] && forall|j: int|
            0 <= j < i ==> a[j] == b[j]
}

impl PublicKey {
    /// Whether this key sorts strictly before `other`.
    pub fn precedes(&self, other: &PublicKey) -> (r: bool)
        ensures
            r == lex_less(self.0@, other.0@),
    {
        let mut i: usize = 0;
        while i < 32
            invariant
                i <= 32,
                forall|j: int| 0 <= j < i ==> self.0[j] == other.0[j],
            decreases 32 - i,
        {
            if self.0[i] < other.0[i] {
                return true;
            }
            if self.0[i] > other.0[i] {
                assert forall|k: int|
                    0 <= k < 32 && self.0[k] < other.0[k] implies !(forall|j: int|
                    0 <= j < k ==> self.0[j] == other.0[j]) by {
                    if k < i {
                    } else {
                        assert(self.0[i as int] != other.0[i as int]);
                    }
                }
                return false;
            }
            i += 1;
        }
        false
    }
}

/// Whether Ed25519 strict verification accepts `signature` on `message`
/// under the key encoded by `key`.
pub uninterp spec fn ed25519_accepts(key: Seq<u8>, message: Seq<u8>, signature: Seq<u8>) -> bool;

/// Calls `ed25519_dalek::VerifyingKey::verify_strict` on the key decoded by
/// `VerifyingKey::from_bytes`. The outcome is a pure function of the three
/// byte strings; bytes that decode to no key verify nothing.
#[verifier::external_body]
fn verify_strict(key: &[u8; 32], message: &[u8; 32], signature: &[u8; 64]) -> (ok: bool)
    ensures
        ok == ed25519_accepts(key@, message@, signature@),
{
    match ed25519_dalek::VerifyingKey::from_bytes(key) {
        Ok(k) => k.verify_strict(message, &ed25519_dalek::Signature::from_bytes(signature)).is_ok(),
        Err(_) => false,
    }
}

impl Signature {
    /// The signature's statement: `signer` signed `digest`.
    pub open spec fn signs(&self, digest: Digest, signer: PublicKey) -> bool {
        ed25519_accepts(signer.0@, digest.0@, self.0@)
    }

    /// Checks the signature over `digest` under `signer`.
    pub fn verify(&self, digest: &Digest, signer: &PublicKey) -> (ok: bool)
        ensures
            ok == self.signs(*digest, *signer),
    {
        verify_strict(&signer.0, &digest.0, &self.0)
    }
}

} // verus!
