use curve25519_dalek::ristretto::CompressedRistretto;
use curve25519_dalek::ristretto::RistrettoPoint;
use curve25519_dalek::scalar::Scalar;
use gary::aggregate::AggregationState;
use gary::codec::decode;
use gary::session::Aggregator;
use gary::CoreError;
use gary::DecodeError;
use gary::DecryptError;

/// ElGamal-encrypt `m` under the public key encoded in `pk_bytes`,
/// with fresh randomness, yielding the two wire components.
fn encrypt(pk_bytes: &[u8; 32], m: u64) -> ([u8; 32], [u8; 32]) {
    let pk = CompressedRistretto::from_slice(pk_bytes)
        .unwrap()
        .decompress()
        .expect("public key must be a canonical encoding");
    let r = Scalar::from(rand::random::<u64>());
    let c1 = RistrettoPoint::mul_base(&r);
    let c2 = pk * r + RistrettoPoint::mul_base(&Scalar::from(m));
    (c1.compress().to_bytes(), c2.compress().to_bytes())
}

fn submit_value(agg: &mut Aggregator, pk: &[u8; 32], m: u64) {
    let (c1, c2) = encrypt(pk, m);
    agg.submit_contribution(&c1, &c2).expect("valid contribution");
}

#[test]
fn aggregate_decrypts_sum() {
    let mut agg = Aggregator::new(100);
    let pk = agg.public_key();
    for m in [3u64, 5, 7] {
        submit_value(&mut agg, &pk, m);
    }
    assert_eq!(agg.contribution_count(), 3);
    assert_eq!(agg.request_reveal(), Ok(15));
}

#[test]
fn aggregate_decrypts_sum_of_elastic_elgamal_ciphertexts() {
    let mut agg = Aggregator::new(50);
    let pk_bytes = agg.public_key();
    let pk = elastic_elgamal::PublicKey::<elastic_elgamal::group::Ristretto>::from_bytes(
        &pk_bytes,
    )
    .expect("the published key is a valid Ristretto encoding");
    let mut rng = rand::thread_rng();
    for m in [2u64, 4, 6] {
        let ct = pk.encrypt(m, &mut rng);
        let bytes = ct.to_bytes();
        agg.submit_contribution(&bytes[..32], &bytes[32..]).expect("valid contribution");
    }
    assert_eq!(agg.request_reveal(), Ok(12));
}

#[test]
fn empty_aggregate_is_distinguished() {
    let mut agg = Aggregator::new(10);
    assert_eq!(agg.request_reveal(), Err(CoreError::EmptyAggregate));
}

#[test]
fn sum_beyond_table_range_is_out_of_range() {
    let mut agg = Aggregator::new(10);
    let pk = agg.public_key();
    submit_value(&mut agg, &pk, 12);
    submit_value(&mut agg, &pk, 8);
    assert_eq!(
        agg.request_reveal(),
        Err(CoreError::Decrypt(DecryptError::OutOfRange))
    );
}

#[test]
fn sum_at_table_bound_is_recovered() {
    let mut agg = Aggregator::new(10);
    let pk = agg.public_key();
    submit_value(&mut agg, &pk, 4);
    submit_value(&mut agg, &pk, 6);
    assert_eq!(agg.request_reveal(), Ok(10));
}

#[test]
fn contributions_after_reveal_are_rejected() {
    let mut agg = Aggregator::new(20);
    let pk = agg.public_key();
    submit_value(&mut agg, &pk, 9);
    assert_eq!(agg.request_reveal(), Ok(9));
    let (c1, c2) = encrypt(&pk, 5);
    assert_eq!(
        agg.submit_contribution(&c1, &c2),
        Err(CoreError::AlreadyRevealed)
    );
    assert_eq!(agg.contribution_count(), 1);
    assert_eq!(agg.request_reveal(), Err(CoreError::AlreadyRevealed));
}

#[test]
fn malformed_contributions_are_rejected_and_not_counted() {
    let mut agg = Aggregator::new(10);
    let pk = agg.public_key();
    let (c1, _) = encrypt(&pk, 1);
    assert_eq!(
        agg.submit_contribution(&c1[..31], &c1),
        Err(CoreError::Decode(DecodeError::InvalidLength))
    );
    assert_eq!(
        agg.submit_contribution(&c1, &[0xffu8; 32]),
        Err(CoreError::Decode(DecodeError::InvalidEncoding))
    );
    assert_eq!(agg.contribution_count(), 0);
    assert_eq!(agg.request_reveal(), Err(CoreError::EmptyAggregate));
}

#[test]
fn folding_order_does_not_change_the_sum_encoding() {
    let mut agg = Aggregator::new(10);
    let pk = agg.public_key();
    let encs: Vec<([u8; 32], [u8; 32])> = [1u64, 2, 3].iter().map(|&m| encrypt(&pk, m)).collect();
    let cts: Vec<gary::group::Ciphertext> = encs
        .iter()
        .map(|(c1, c2)| decode(c1, c2).unwrap())
        .collect();

    let mut forward = AggregationState::new();
    for c in &cts {
        forward.add(*c);
    }
    let mut backward = AggregationState::new();
    for c in cts.iter().rev() {
        backward.add(*c);
    }
    let mut shuffled = AggregationState::new();
    for i in [1usize, 0, 2] {
        shuffled.add(cts[i]);
    }

    let f = forward.finalize().unwrap().encode();
    let b = backward.finalize().unwrap().encode();
    let s = shuffled.finalize().unwrap().encode();
    assert_eq!(f, b);
    assert_eq!(f, s);
}

#[test]
fn interleaved_submissions_are_all_counted_once() {
    // Two simulated sources, their submissions interleaved in several
    // different serialization orders: every order must reflect each
    // contribution exactly once in the final sum.
    let sums: Vec<u64> = (0..3)
        .map(|phase| {
            let mut agg = Aggregator::new(100);
            let pk = agg.public_key();
            let source_a = [1u64, 2, 3, 4];
            let source_b = [5u64, 6, 7, 8];
            let order: Vec<u64> = match phase {
                0 => source_a.iter().chain(source_b.iter()).copied().collect(),
                1 => source_b.iter().chain(source_a.iter()).copied().collect(),
                _ => source_a
                    .iter()
                    .zip(source_b.iter())
                    .flat_map(|(&a, &b)| [a, b])
                    .collect(),
            };
            for m in order {
                submit_value(&mut agg, &pk, m);
            }
            assert_eq!(agg.contribution_count(), 8);
            agg.request_reveal().unwrap()
        })
        .collect();
    assert_eq!(sums, vec![36, 36, 36]);
}

#[test]
fn public_key_is_a_canonical_point_encoding() {
    let agg = Aggregator::new(1);
    let pk = agg.public_key();
    assert!(decode(&pk, &pk).is_ok());
}
