//! The Ristretto group seen through a narrow trusted boundary.
//!
//! A group element is carried together with its canonical 32-byte
//! encoding, and every contract speaks only of encodings. The curve
//! arithmetic itself is done by `curve25519_dalek` behind a handful of
//! trusted wrappers; the names `pt_add`, `pt_sub`, `pt_mul` and
//! `pt_mul_base` stand for the encodings those operations return.

use vstd::prelude::*;
use curve25519_dalek::ristretto::CompressedRistretto;
use curve25519_dalek::ristretto::RistrettoPoint;
use curve25519_dalek::scalar::Scalar;

verus! {

#[verifier::external_type_specification]
#[verifier::external_body]
pub struct ExRistrettoPoint(RistrettoPoint);

#[verifier::external_type_specification]
#[verifier::external_body]
pub struct ExScalar(Scalar);

/// Whether `b` is the canonical 32-byte encoding of a Ristretto point;
/// exactly the inputs `CompressedRistretto::decompress` accepts.
pub uninterp spec fn is_canonical_encoding(b: Seq<u8>) -> bool;

/// The canonical encoding of the sum of the points encoded by `a` and `b`.
pub uninterp spec fn pt_add(a: Seq<u8>, b: Seq<u8>) -> Seq<u8>;

/// The canonical encoding of the difference of the points encoded by `a` and `b`.
pub uninterp spec fn pt_sub(a: Seq<u8>, b: Seq<u8>) -> Seq<u8>;

/// The canonical encoding of the point encoded by `p` multiplied by the
/// scalar with canonical representation `s`.
pub uninterp spec fn pt_mul(s: Seq<u8>, p: Seq<u8>) -> Seq<u8>;

/// The canonical encoding of `n` times the Ristretto base point.
pub uninterp spec fn pt_mul_base(n: u64) -> Seq<u8>;

/// A Ristretto group element together with its canonical encoding.
#[derive(Clone, Copy)]
pub struct GroupElement {
    point: RistrettoPoint,
    repr: [u8; 32],
}

impl View for GroupElement {
    type V = Seq<u8>;

    closed spec fn view(&self) -> Seq<u8> {
        self.repr@
    }
}

impl GroupElement {
    #[verifier::type_invariant]
    spec fn canonical(self) -> bool {
        self.repr@.len() == 32 && is_canonical_encoding(self.repr@)
    }

    /// The canonical 32-byte encoding of this element.
    pub fn bytes(&self) -> (r: [u8; 32])
        ensures
            r@ == self@,
    {
        self.repr
    }

    /// Equality of group elements, decided on their canonical encodings.
    pub fn equals(&self, other: &GroupElement) -> (r: bool)
        ensures
            r == (self@ == other@),
    {
        proof {
            use_type_invariant(&*self);
            use_type_invariant(&*other);
        }
        let mut i: usize = 0;
        while i < 32
            invariant
                0 <= i <= 32,
                self.repr@.len() == 32,
                other.repr@.len() == 32,
                forall|j: int| 0 <= j < i ==> self.repr@[j] == other.repr@[j],
            decreases 32 - i,
        {
            if self.repr[i] != other.repr[i] {
                return false;
            }
            i = i + 1;
        }
        proof {
            assert(self.repr@ =~= other.repr@);
        }
        true
    }
}

/// Relies on `CompressedRistretto::decompress` (`curve25519_dalek`): it
/// returns a point exactly when the 32 bytes are the canonical encoding
/// of one, and that encoding is the point's own.
#[verifier::external_body]
pub(crate) fn decompress(b: &[u8]) -> (r: Option<GroupElement>)
    requires
        b@.len() == 32,
    ensures
        r is Some <==> is_canonical_encoding(b@),
        r matches Some(g) ==> g@ == b@,
{
    let compressed = CompressedRistretto::from_slice(b).ok()?;
    let point = compressed.decompress()?;
    Some(GroupElement { point, repr: compressed.to_bytes() })
}

/// Relies on Ristretto point addition (`curve25519_dalek`) and canonical
/// compression of its result: compression always yields the canonical
/// 32-byte encoding, and the group is abelian, so the sum is the same
/// with the arguments either way round.
#[verifier::external_body]
pub(crate) fn point_add(a: &GroupElement, b: &GroupElement) -> (r: GroupElement)
    ensures
        r@ == pt_add(a@, b@),
        r@ == pt_add(b@, a@),
        r@.len() == 32,
        is_canonical_encoding(r@),
{
    let point = &a.point + &b.point;
    GroupElement { point, repr: point.compress().to_bytes() }
}

/// Relies on Ristretto point subtraction (`curve25519_dalek`) and
/// canonical compression of its result: compression always yields the
/// canonical 32-byte encoding.
#[verifier::external_body]
pub(crate) fn point_sub(a: &GroupElement, b: &GroupElement) -> (r: GroupElement)
    ensures
        r@ == pt_sub(a@, b@),
        r@.len() == 32,
        is_canonical_encoding(r@),
{
    let point = &a.point - &b.point;
    GroupElement { point, repr: point.compress().to_bytes() }
}

/// A secret scalar together with its canonical 32-byte representation.
#[derive(Clone, Copy)]
pub struct SecretScalar {
    scalar: Scalar,
    repr: [u8; 32],
}

impl View for SecretScalar {
    type V = Seq<u8>;

    closed spec fn view(&self) -> Seq<u8> {
        self.repr@
    }
}

/// Relies on Ristretto scalar multiplication (`curve25519_dalek`) and
/// canonical compression of its result: compression always yields the
/// canonical 32-byte encoding.
#[verifier::external_body]
pub(crate) fn point_mul(s: &SecretScalar, p: &GroupElement) -> (r: GroupElement)
    ensures
        r@ == pt_mul(s@, p@),
        r@.len() == 32,
        is_canonical_encoding(r@),
{
    let point = &s.scalar * &p.point;
    GroupElement { point, repr: point.compress().to_bytes() }
}

/// Relies on `RistrettoPoint::mul_base` (`curve25519_dalek`): fixed-base
/// multiplication of the Ristretto base point by `Scalar::from(n)`,
/// followed by canonical compression. The group's prime order exceeds
/// `2^252`, so distinct `u64` values give distinct base multiples, and
/// compression always yields the canonical 32-byte encoding.
#[verifier::external_body]
pub(crate) fn base_mul(n: u64) -> (r: GroupElement)
    ensures
        r@ == pt_mul_base(n),
        r@.len() == 32,
        is_canonical_encoding(r@),
        forall|m: u64| m != n ==> r@ != pt_mul_base(m),
{
    let point = RistrettoPoint::mul_base(&Scalar::from(n));
    GroupElement { point, repr: point.compress().to_bytes() }
}

/// Relies on `elastic_elgamal::Keypair::<Ristretto>::generate` over
/// `rand::thread_rng`: a freshly sampled ElGamal keypair whose public
/// half is the secret scalar times the base point (`elastic_elgamal`
/// builds it as `mul_generator(secret)`). Beyond that pairing the
/// result is random, and nothing more is promised of its value.
#[verifier::external_body]
pub(crate) fn generate_keypair() -> (r: (GroupElement, SecretScalar))
    ensures
        r.0@ == pt_mul(r.1@, pt_mul_base(1)),
{
    let (pk, sk) = elastic_elgamal::Keypair::<elastic_elgamal::group::Ristretto>::generate(
        &mut rand::thread_rng(),
    )
    .into_tuple();
    let pk_point = pk.as_element();
    let sk_scalar = *sk.expose_scalar();
    (
        GroupElement { point: pk_point, repr: pk_point.compress().to_bytes() },
        SecretScalar { scalar: sk_scalar, repr: sk_scalar.to_bytes() },
    )
}

/// An ElGamal ciphertext: a pair of group elements `(c1, c2)` with
/// `c1 = r*G` and `c2 = r*pk + m*G` for the encryptor's randomness `r`.
#[derive(Clone, Copy)]
pub struct Ciphertext {
    c1: GroupElement,
    c2: GroupElement,
}

/// The mathematical image of a ciphertext: the canonical encodings of
/// its two components.
#[verifier::ext_equal]
pub ghost struct CtView {
    pub c1: Seq<u8>,
    pub c2: Seq<u8>,
}

/// Whether a ciphertext image is well formed: both components are
/// canonical 32-byte encodings of group elements.
pub open spec fn ct_view_wf(c: CtView) -> bool {
    &&& c.c1.len() == 32
    &&& c.c2.len() == 32
    &&& is_canonical_encoding(c.c1)
    &&& is_canonical_encoding(c.c2)
}

impl View for Ciphertext {
    type V = CtView;

    closed spec fn view(&self) -> CtView {
        CtView { c1: self.c1@, c2: self.c2@ }
    }
}

impl Ciphertext {
    #[verifier::type_invariant]
    pub(crate) open spec fn well_formed(self) -> bool {
        ct_view_wf(self@)
    }

    /// Pair two group elements into a ciphertext.
    pub fn new(c1: GroupElement, c2: GroupElement) -> (r: Ciphertext)
        ensures
            r@ == (CtView { c1: c1@, c2: c2@ }),
    {
        proof {
            use_type_invariant(&c1);
            use_type_invariant(&c2);
        }
        let r = Ciphertext { c1, c2 };
        proof {
            assert(r@ =~= (CtView { c1: c1@, c2: c2@ }));
        }
        r
    }

    /// The first component.
    pub fn c1(&self) -> (r: &GroupElement)
        ensures
            r@ == self@.c1,
    {
        &self.c1
    }

    /// The second component.
    pub fn c2(&self) -> (r: &GroupElement)
        ensures
            r@ == self@.c2,
    {
        &self.c2
    }
}

/// Component-wise homomorphic sum at the specification level.
pub open spec fn ct_add_spec(a: CtView, b: CtView) -> CtView {
    CtView { c1: pt_add(a.c1, b.c1), c2: pt_add(a.c2, b.c2) }
}

/// Commutativity of the point-addition name. The Ristretto group is
/// abelian, so this holds of the operation the name stands for, but no
/// contract of this crate can witness it for the uninterpreted name:
/// laws that need it take it as an explicit hypothesis.
pub open spec fn pt_add_commutative() -> bool {
    forall|x: Seq<u8>, y: Seq<u8>| #[trigger] pt_add(x, y) == pt_add(y, x)
}

/// Associativity of the point-addition name; see `pt_add_commutative`.
pub open spec fn pt_add_associative() -> bool {
    forall|x: Seq<u8>, y: Seq<u8>, z: Seq<u8>|
        #[trigger] pt_add(pt_add(x, y), z) == pt_add(x, pt_add(y, z))
}

/// Homomorphic addition of two ciphertexts: component-wise group
/// addition, `(a1, a2) + (b1, b2) = (a1 + b1, a2 + b2)`.
pub fn ct_add(a: &Ciphertext, b: &Ciphertext) -> (r: Ciphertext)
    ensures
        r@ == ct_add_spec(a@, b@),
        ct_view_wf(r@),
{
    let r = Ciphertext { c1: point_add(&a.c1, &b.c1), c2: point_add(&a.c2, &b.c2) };
    proof {
        assert(r@ =~= ct_add_spec(a@, b@));
    }
    r
}

} // verus!
