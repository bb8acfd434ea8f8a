use curve25519_dalek::constants::RISTRETTO_BASEPOINT_POINT;
use curve25519_dalek::ristretto::RistrettoPoint;
use curve25519_dalek::scalar::Scalar;
use gary::codec::decode;
use gary::DecodeError;

fn valid_point_bytes(n: u64) -> [u8; 32] {
    RistrettoPoint::mul_base(&Scalar::from(n)).compress().to_bytes()
}

#[test]
fn decode_rejects_31_byte_component() {
    let short = [0u8; 31];
    let valid = valid_point_bytes(1);
    assert!(matches!(decode(&short, &valid), Err(DecodeError::InvalidLength)));
    assert!(matches!(decode(&valid, &short), Err(DecodeError::InvalidLength)));
}

#[test]
fn decode_rejects_33_byte_component() {
    let long = [0u8; 33];
    let valid = valid_point_bytes(2);
    assert!(matches!(decode(&long, &valid), Err(DecodeError::InvalidLength)));
    assert!(matches!(decode(&valid, &long), Err(DecodeError::InvalidLength)));
}

#[test]
fn decode_rejects_noncanonical_encoding() {
    // 32 bytes of 0xff encode a field element far above the modulus:
    // not the canonical encoding of any point.
    let bad = [0xffu8; 32];
    let valid = valid_point_bytes(3);
    assert!(matches!(decode(&bad, &valid), Err(DecodeError::InvalidEncoding)));
    assert!(matches!(decode(&valid, &bad), Err(DecodeError::InvalidEncoding)));
    assert!(matches!(decode(&bad, &bad), Err(DecodeError::InvalidEncoding)));
}

#[test]
fn decode_length_error_takes_precedence() {
    let short = [0u8; 31];
    let bad = [0xffu8; 32];
    assert!(matches!(decode(&short, &bad), Err(DecodeError::InvalidLength)));
}

#[test]
fn round_trip_decode_then_encode() {
    let b1 = RISTRETTO_BASEPOINT_POINT.compress().to_bytes();
    let b2 = valid_point_bytes(42);
    let c = decode(&b1, &b2).expect("both components are canonical");
    let (e1, e2) = c.encode();
    assert_eq!(e1, b1);
    assert_eq!(e2, b2);
}

#[test]
fn encoding_is_deterministic() {
    let b1 = valid_point_bytes(7);
    let b2 = valid_point_bytes(9);
    let c = decode(&b1, &b2).unwrap();
    let d = decode(&b1, &b2).unwrap();
    assert_eq!(c.encode(), d.encode());
}
