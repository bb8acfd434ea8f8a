//! Keypair manager: owns the aggregator's keypair, generated once,
//! exposing the public key for publication and the secret scalar only
//! to the decryption engine.

use vstd::prelude::*;
use crate::group::GroupElement;
use crate::group::SecretScalar;
use crate::group::generate_keypair;
use crate::group::pt_mul;
use crate::group::pt_mul_base;

verus! {

/// The aggregator's ElGamal keypair.
pub struct Keypair {
    pk: GroupElement,
    sk: SecretScalar,
}

impl Keypair {
    /// The canonical encoding of the public key.
    pub closed spec fn public_view(&self) -> Seq<u8> {
        self.pk@
    }

    /// The canonical representation of the secret scalar.
    pub closed spec fn secret_view(&self) -> Seq<u8> {
        self.sk@
    }

    /// Sample a fresh keypair. The result is random, but the halves
    /// are a matched pair: the public key is the secret scalar times
    /// the base point.
    pub fn generate() -> (r: Keypair)
        ensures
            r.public_view() == pt_mul(r.secret_view(), pt_mul_base(1)),
    {
        let (pk, sk) = generate_keypair();
        Keypair { pk, sk }
    }

    /// The public key's canonical 32-byte encoding, for publication.
    pub fn public_key(&self) -> (r: [u8; 32])
        ensures
            r@ == self.public_view(),
    {
        self.pk.bytes()
    }

    /// The secret scalar, handed only to the decryption engine.
    pub(crate) fn secret(&self) -> (r: &SecretScalar)
        ensures
            r@ == self.secret_view(),
    {
        &self.sk
    }
}

} // verus!
