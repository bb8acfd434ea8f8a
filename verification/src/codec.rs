//! Wire codec: deterministic conversion between the fixed-width byte
//! representation of a ciphertext and the internal group-element pair.

use vstd::prelude::*;
use crate::DecodeError;
use crate::group::Ciphertext;
use crate::group::CtView;
use crate::group::ct_view_wf;
use crate::group::decompress;
use crate::group::is_canonical_encoding;

verus! {

/// What decoding a pair of byte strings yields: the ciphertext made of
/// both components when each is a canonical 32-byte encoding, and the
/// first applicable error otherwise. Length errors take precedence.
pub open spec fn decode_spec(b1: Seq<u8>, b2: Seq<u8>) -> Result<CtView, DecodeError> {
    if b1.len() != 32 || b2.len() != 32 {
        Err(DecodeError::InvalidLength)
    } else if !is_canonical_encoding(b1) || !is_canonical_encoding(b2) {
        Err(DecodeError::InvalidEncoding)
    } else {
        Ok(CtView { c1: b1, c2: b2 })
    }
}

/// What encoding a ciphertext yields: the canonical encodings of its
/// two components, in order.
pub open spec fn encode_spec(c: CtView) -> (Seq<u8>, Seq<u8>) {
    (c.c1, c.c2)
}

/// Decode the two 32-byte components of a wire-format ciphertext.
/// Fails with `InvalidLength` if either input is not exactly 32 bytes,
/// and with `InvalidEncoding` if a 32-byte input is not the canonical
/// encoding of a group element; no partial success.
pub fn decode(c1_bytes: &[u8], c2_bytes: &[u8]) -> (r: Result<Ciphertext, DecodeError>)
    ensures
        r matches Ok(c) ==> decode_spec(c1_bytes@, c2_bytes@) == Ok::<CtView, DecodeError>(c@),
        r matches Err(e) ==> decode_spec(c1_bytes@, c2_bytes@) == Err::<CtView, DecodeError>(e),
{
    if c1_bytes.len() != 32 || c2_bytes.len() != 32 {
        return Err(DecodeError::InvalidLength);
    }
    let g1 = match decompress(c1_bytes) {
        Some(g) => g,
        None => {
            return Err(DecodeError::InvalidEncoding);
        },
    };
    let g2 = match decompress(c2_bytes) {
        Some(g) => g,
        None => {
            return Err(DecodeError::InvalidEncoding);
        },
    };
    let c = Ciphertext::new(g1, g2);
    proof {
        assert(decode_spec(c1_bytes@, c2_bytes@).unwrap() =~= c@);
    }
    Ok(c)
}

impl Ciphertext {
    /// Canonical wire encoding: the 32-byte encodings of the two
    /// components, in order. Total, and the same bytes every time.
    pub fn encode(&self) -> (r: ([u8; 32], [u8; 32]))
        ensures
            (r.0@, r.1@) == encode_spec(self@),
    {
        let r = (self.c1().bytes(), self.c2().bytes());
        proof {
            assert(r.0@ =~= encode_spec(self@).0);
            assert(r.1@ =~= encode_spec(self@).1);
        }
        r
    }
}

/// Law: decoding inverts encoding on all accepted inputs: a decoded
/// ciphertext re-encodes to exactly the bytes it was decoded from.
pub proof fn lemma_decode_then_encode(b1: Seq<u8>, b2: Seq<u8>)
    ensures
        decode_spec(b1, b2) matches Ok(c) ==> encode_spec(c) == (b1, b2),
{
}

/// Law: the codec round-trips. Decoding the canonical encoding of any
/// well-formed ciphertext returns exactly that ciphertext.
pub proof fn lemma_codec_round_trip(c: CtView)
    ensures
        ct_view_wf(c) ==> decode_spec(encode_spec(c).0, encode_spec(c).1) == Ok::<
            CtView,
            DecodeError,
        >(c),
{
    if ct_view_wf(c) {
        assert(decode_spec(encode_spec(c).0, encode_spec(c).1).unwrap() =~= c);
    }
}

} // verus!
