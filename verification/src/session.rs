//! Aggregator session controller: sequences codec, aggregation state,
//! keypair and decryption engine behind one exclusive-access entry
//! point, and triggers finalize-and-decrypt exactly once per epoch.

use vstd::prelude::*;
use crate::CoreError;
use crate::DecryptError;
use crate::aggregate::AggregationState;
use crate::aggregate::fold_ciphertexts;
use crate::aggregate::lemma_fold_order_independent;
use crate::codec::decode;
use crate::codec::decode_spec;
use crate::dlog::DiscreteLogTable;
use crate::dlog::absent;
use crate::dlog::decrypt;
use crate::dlog::decrypted_point;
use crate::dlog::found_at;
use crate::dlog::table_exact;
use crate::group::CtView;
use crate::group::pt_mul;
use crate::group::pt_mul_base;
use crate::keys::Keypair;

verus! {

/// Where an epoch stands: accepting contributions, executing its one
/// reveal, or terminally settled.
#[derive(Clone, Copy, Debug, PartialEq, Eq, Structural)]
pub enum EpochStatus {
    Collecting,
    Revealing,
    Settled,
}

/// The session-visible image of an aggregator: the epoch's stage, the
/// contributions accepted so far, and the settled outcome, if any.
#[verifier::ext_equal]
pub ghost struct SessionView {
    pub epoch: EpochStatus,
    pub log: Seq<CtView>,
    pub outcome: Option<Result<u64, CoreError>>,
}

/// What one contribution submission does to a session: rejected once
/// the epoch has left `Collecting`, rejected when the bytes do not
/// decode, and otherwise appended to the accepted log.
pub open spec fn submit_spec(v: SessionView, b1: Seq<u8>, b2: Seq<u8>) -> (
    SessionView,
    Result<(), CoreError>,
) {
    if !(v.epoch is Collecting) {
        (v, Err(CoreError::AlreadyRevealed))
    } else {
        match decode_spec(b1, b2) {
            Err(e) => (v, Err(CoreError::Decode(e))),
            Ok(c) => (
                SessionView { epoch: v.epoch, log: v.log.push(c), outcome: v.outcome },
                Ok(()),
            ),
        }
    }
}

/// The group element a reveal decrypts: the homomorphic fold of the
/// accepted log, shifted by the secret scalar.
pub open spec fn aggregate_point(log: Seq<CtView>, sk: Seq<u8>) -> Seq<u8> {
    decrypted_point(sk, fold_ciphertexts(log).unwrap())
}

/// One aggregation epoch under a single exclusive owner: calls must be
/// serialized by the surrounding layer (one `&mut` handle), so no two
/// submissions ever interleave their read-modify-write of the sum.
pub struct Aggregator {
    keypair: Keypair,
    table: DiscreteLogTable,
    state: AggregationState,
    epoch: EpochStatus,
    outcome: Option<Result<u64, CoreError>>,
}

impl View for Aggregator {
    type V = SessionView;

    closed spec fn view(&self) -> SessionView {
        SessionView { epoch: self.epoch, log: self.state.log(), outcome: self.outcome }
    }
}

impl Aggregator {
    /// The lookup table's image: entry `m` encodes `m` base points.
    pub closed spec fn table_view(&self) -> Seq<Seq<u8>> {
        self.table@
    }

    /// The public key's canonical encoding.
    pub closed spec fn public_view(&self) -> Seq<u8> {
        self.keypair.public_view()
    }

    /// The secret scalar's canonical representation.
    pub closed spec fn secret_view(&self) -> Seq<u8> {
        self.keypair.secret_view()
    }

    /// Start an epoch: fresh keypair, empty accumulator, and a lookup
    /// table covering the closed plaintext range `[0, max_sum]`.
    pub fn new(max_sum: u64) -> (r: Aggregator)
        requires
            max_sum + 1 <= usize::MAX,
        ensures
            r@.epoch is Collecting,
            r@.log == Seq::<CtView>::empty(),
            r@.outcome is None,
            r.table_view().len() == max_sum + 1,
            forall|i: int| 0 <= i <= max_sum ==> #[trigger] r.table_view()[i] == pt_mul_base(
                i as u64,
            ),
            table_exact(r.table_view()),
            r.public_view() == pt_mul(r.secret_view(), pt_mul_base(1)),
    {
        Aggregator {
            keypair: Keypair::generate(),
            table: DiscreteLogTable::new(max_sum),
            state: AggregationState::new(),
            epoch: EpochStatus::Collecting,
            outcome: None,
        }
    }

    /// The public key's canonical 32-byte encoding, for publication.
    pub fn public_key(&self) -> (r: [u8; 32])
        ensures
            r@ == self.public_view(),
    {
        self.keypair.public_key()
    }

    /// How many contributions this epoch has accepted so far.
    pub fn contribution_count(&self) -> (r: u64)
        ensures
            r == self@.log.len(),
    {
        self.state.contribution_count()
    }

    /// Accept one contribution event: decode the two components and
    /// fold the ciphertext into the running sum, or reject it exactly
    /// as `submit_spec` says, leaving the session unchanged.
    pub fn submit_contribution(&mut self, c1_bytes: &[u8], c2_bytes: &[u8]) -> (r: Result<
        (),
        CoreError,
    >)
        requires
            old(self)@.log.len() < u64::MAX,
        ensures
            final(self)@ == submit_spec(old(self)@, c1_bytes@, c2_bytes@).0,
            r == submit_spec(old(self)@, c1_bytes@, c2_bytes@).1,
            final(self).table_view() == old(self).table_view(),
            final(self).public_view() == old(self).public_view(),
            final(self).secret_view() == old(self).secret_view(),
    {
        match self.epoch {
            EpochStatus::Collecting => {},
            _ => {
                return Err(CoreError::AlreadyRevealed);
            },
        }
        match decode(c1_bytes, c2_bytes) {
            Err(e) => Err(CoreError::Decode(e)),
            Ok(c) => {
                proof {
                    use_type_invariant(&self.state);
                }
                self.state.add(c);
                proof {
                    assert(final(self)@ =~= submit_spec(old(self)@, c1_bytes@, c2_bytes@).0);
                }
                Ok(())
            },
        }
    }

    /// Trigger the epoch's one reveal: snapshot the sum, decrypt it,
    /// and settle the epoch with the outcome attached. An empty
    /// aggregate settles with `EmptyAggregate` instead of attempting
    /// decryption; a sum beyond the table's range settles with
    /// `OutOfRange`; a repeated call is rejected and changes nothing.
    pub fn request_reveal(&mut self) -> (r: Result<u64, CoreError>)
        ensures
            !(old(self)@.epoch is Collecting) ==> r == Err::<u64, CoreError>(
                CoreError::AlreadyRevealed,
            ) && *final(self) == *old(self),
            old(self)@.epoch is Collecting ==> {
                &&& final(self)@.epoch is Settled
                &&& final(self)@.log == old(self)@.log
                &&& final(self)@.outcome == Some(r)
                &&& final(self).table_view() == old(self).table_view()
                &&& final(self).public_view() == old(self).public_view()
                &&& final(self).secret_view() == old(self).secret_view()
                &&& (old(self)@.log.len() == 0 <==> r == Err::<u64, CoreError>(
                    CoreError::EmptyAggregate,
                ))
                &&& (old(self)@.log.len() > 0 ==> (r matches Ok(m) ==> found_at(
                    old(self).table_view(),
                    aggregate_point(old(self)@.log, old(self).secret_view()),
                    m as int,
                )))
                &&& (old(self)@.log.len() > 0 ==> (r matches Ok(m) ==> (forall|s: u64|
                    aggregate_point(old(self)@.log, old(self).secret_view()) == pt_mul_base(s)
                        ==> m == s)))
                &&& (old(self)@.log.len() > 0 ==> (r matches Err(e) ==> e
                    == CoreError::Decrypt(DecryptError::OutOfRange) && absent(
                    old(self).table_view(),
                    aggregate_point(old(self)@.log, old(self).secret_view()),
                )))
                &&& (old(self)@.log.len() > 0 && r is Err ==> (forall|s: u64|
                    aggregate_point(old(self)@.log, old(self).secret_view()) == pt_mul_base(s)
                        ==> s >= old(self).table_view().len()))
            },
    {
        match self.epoch {
            EpochStatus::Collecting => {},
            _ => {
                return Err(CoreError::AlreadyRevealed);
            },
        }
        proof {
            use_type_invariant(&self.state);
        }
        self.epoch = EpochStatus::Revealing;
        let snapshot = self.state.finalize();
        let r: Result<u64, CoreError> = match snapshot {
            None => Err(CoreError::EmptyAggregate),
            Some(ct) => match decrypt(self.keypair.secret(), &self.table, &ct) {
                Ok(m) => Ok(m),
                Err(DecryptError::OutOfRange) => Err(
                    CoreError::Decrypt(DecryptError::OutOfRange),
                ),
            },
        };
        self.epoch = EpochStatus::Settled;
        self.outcome = Some(r);
        r
    }
}

/// Law: once an epoch has left `Collecting`, a contribution submission
/// is rejected with `AlreadyRevealed` and changes nothing.
pub proof fn lemma_post_reveal_rejection(v: SessionView, b1: Seq<u8>, b2: Seq<u8>)
    ensures
        !(v.epoch is Collecting) ==> submit_spec(v, b1, b2) == (
            v,
            Err::<(), CoreError>(CoreError::AlreadyRevealed),
        ),
{
}

/// One submission after another, at the specification level.
pub open spec fn submit_all_spec(v: SessionView, subs: Seq<(Seq<u8>, Seq<u8>)>) -> SessionView
    decreases subs.len(),
{
    if subs.len() == 0 {
        v
    } else {
        submit_all_spec(submit_spec(v, subs[0].0, subs[0].1).0, subs.drop_first())
    }
}

/// The decoded image of a sequence of submitted byte pairs.
pub open spec fn decoded_log(subs: Seq<(Seq<u8>, Seq<u8>)>) -> Seq<CtView> {
    subs.map(|k: int, s: (Seq<u8>, Seq<u8>)| decode_spec(s.0, s.1).unwrap())
}

/// Law: serialized submissions lose nothing and duplicate nothing.
/// While the epoch collects and every pair of byte strings decodes,
/// submitting them one after another extends the accepted log by
/// exactly their decoded ciphertexts, in submission order.
pub proof fn lemma_no_lost_contributions(v: SessionView, subs: Seq<(Seq<u8>, Seq<u8>)>)
    ensures
        (v.epoch is Collecting && (forall|k: int|
            0 <= k < subs.len() ==> (#[trigger] decode_spec(subs[k].0, subs[k].1)) is Ok)) ==> {
            &&& submit_all_spec(v, subs).epoch is Collecting
            &&& submit_all_spec(v, subs).log == v.log + decoded_log(subs)
        },
    decreases subs.len(),
{
    if v.epoch is Collecting && (forall|k: int|
        0 <= k < subs.len() ==> (#[trigger] decode_spec(subs[k].0, subs[k].1)) is Ok) {
        if subs.len() == 0 {
            assert(v.log + decoded_log(subs) =~= v.log);
        } else {
            let tail = subs.drop_first();
            let c0 = decode_spec(subs[0].0, subs[0].1).unwrap();
            let v1 = submit_spec(v, subs[0].0, subs[0].1).0;
            assert(v1.log == v.log.push(c0));
            assert forall|k: int| 0 <= k < tail.len() implies (#[trigger] decode_spec(
                tail[k].0,
                tail[k].1,
            )) is Ok by {
                assert(tail[k] == subs[k + 1]);
            }
            lemma_no_lost_contributions(v1, tail);
            assert(submit_all_spec(v, subs).log == v1.log + decoded_log(tail));
            assert(v.log.push(c0) + decoded_log(tail) =~= v.log + decoded_log(subs)) by {
                assert forall|i: int| 0 <= i < tail.len() implies decoded_log(tail)[i]
                    == decoded_log(subs)[i + 1] by {
                    assert(tail[i] == subs[i + 1]);
                }
            }
        }
    }
}

/// Law: the aggregate does not depend on submission order. Submitting
/// the same finite multiset of decodable contributions in any two
/// serialization orders leaves accepted logs that fold to the same
/// running sum, wherever point addition is commutative and associative
/// -- as it is in the abelian Ristretto group, though no contract of
/// this crate can witness those laws for the uninterpreted name.
pub proof fn lemma_order_independent_aggregate(
    v: SessionView,
    subs1: Seq<(Seq<u8>, Seq<u8>)>,
    subs2: Seq<(Seq<u8>, Seq<u8>)>,
)
    ensures
        ({
            &&& crate::group::pt_add_commutative()
            &&& crate::group::pt_add_associative()
            &&& v.epoch is Collecting
            &&& forall|k: int|
                0 <= k < subs1.len() ==> (#[trigger] decode_spec(subs1[k].0, subs1[k].1)) is Ok
            &&& forall|k: int|
                0 <= k < subs2.len() ==> (#[trigger] decode_spec(subs2[k].0, subs2[k].1)) is Ok
            &&& decoded_log(subs1).to_multiset() == decoded_log(subs2).to_multiset()
        }) ==> fold_ciphertexts(submit_all_spec(v, subs1).log) == fold_ciphertexts(
            submit_all_spec(v, subs2).log,
        ),
{
    if crate::group::pt_add_commutative() && crate::group::pt_add_associative() && v.epoch
        is Collecting && (forall|k: int|
        0 <= k < subs1.len() ==> (#[trigger] decode_spec(subs1[k].0, subs1[k].1)) is Ok) && (
    forall|k: int|
        0 <= k < subs2.len() ==> (#[trigger] decode_spec(subs2[k].0, subs2[k].1)) is Ok)
        && decoded_log(subs1).to_multiset() == decoded_log(subs2).to_multiset() {
        lemma_no_lost_contributions(v, subs1);
        lemma_no_lost_contributions(v, subs2);
        vstd::seq_lib::lemma_multiset_commutative(v.log, decoded_log(subs1));
        vstd::seq_lib::lemma_multiset_commutative(v.log, decoded_log(subs2));
        lemma_fold_order_independent(
            submit_all_spec(v, subs1).log,
            submit_all_spec(v, subs2).log,
        );
    }
}

} // verus!
