//! Decryption engine: a bounded discrete-log lookup table over the
//! expected value range, and aggregate decryption through it.

use vstd::prelude::*;
use crate::DecryptError;
use crate::group::Ciphertext;
use crate::group::CtView;
use crate::group::GroupElement;
use crate::group::SecretScalar;
use crate::group::base_mul;
use crate::group::point_mul;
use crate::group::point_sub;
use crate::group::pt_mul;
use crate::group::pt_mul_base;
use crate::group::pt_sub;

verus! {

/// Whether `p` first occurs at index `m` of the table image `t`.
pub open spec fn found_at(t: Seq<Seq<u8>>, p: Seq<u8>, m: int) -> bool {
    &&& 0 <= m < t.len()
    &&& t[m] == p
    &&& forall|j: int| 0 <= j < m ==> t[j] != p
}

/// Whether `p` occurs nowhere in the table image `t`.
pub open spec fn absent(t: Seq<Seq<u8>>, p: Seq<u8>) -> bool {
    forall|j: int| 0 <= j < t.len() ==> t[j] != p
}

/// Whether `t` is an exact table of base multiples: entry `i` is the
/// encoding of `i` base points, and equals no other base multiple that
/// fits in a `u64`.
pub open spec fn table_exact(t: Seq<Seq<u8>>) -> bool {
    forall|i: int, m: u64|
        #![trigger t[i], pt_mul_base(m)]
        0 <= i < t.len() ==> (t[i] == pt_mul_base(m) <==> i == m)
}

/// A precomputed reverse lookup from group elements to small integers:
/// entry `m` is the encoding of `m` times the base point, for every `m`
/// in the configured closed range `[0, max_sum]`.
pub struct DiscreteLogTable {
    entries: Vec<GroupElement>,
}

impl View for DiscreteLogTable {
    type V = Seq<Seq<u8>>;

    closed spec fn view(&self) -> Seq<Seq<u8>> {
        self.entries@.map(|i: int, g: GroupElement| g@)
    }
}

impl DiscreteLogTable {
    #[verifier::type_invariant]
    spec fn wf(self) -> bool {
        table_exact(self@)
    }

    /// Build the table covering the closed plaintext range `[0, max_sum]`.
    pub fn new(max_sum: u64) -> (r: DiscreteLogTable)
        requires
            max_sum + 1 <= usize::MAX,
        ensures
            r@.len() == max_sum + 1,
            forall|i: int| 0 <= i <= max_sum ==> #[trigger] r@[i] == pt_mul_base(i as u64),
            table_exact(r@),
    {
        let mut entries: Vec<GroupElement> = Vec::new();
        let mut n: u64 = 0;
        while n <= max_sum
            invariant
                max_sum + 1 <= usize::MAX,
                n <= max_sum + 1,
                entries@.len() == n,
                forall|i: int, m: u64|
                    #![trigger entries@[i]@, pt_mul_base(m)]
                    0 <= i < n ==> (entries@[i]@ == pt_mul_base(m) <==> i == m),
            decreases max_sum + 1 - n,
        {
            entries.push(base_mul(n));
            n = n + 1;
        }
        proof {
            let v = entries@.map(|i: int, g: GroupElement| g@);
            assert(forall|i: int| 0 <= i < v.len() ==> #[trigger] v[i] == entries@[i]@);
        }
        let r = DiscreteLogTable { entries };
        r
    }

    /// The number of table entries, `max_sum + 1`.
    pub fn len(&self) -> (r: usize)
        ensures
            r == self@.len(),
    {
        self.entries.len()
    }

    /// Look `target` up: the plaintext whose base-point multiple it
    /// encodes, if that lies in the covered range.
    pub fn lookup(&self, target: &GroupElement) -> (r: Option<u64>)
        ensures
            r matches Some(m) ==> found_at(self@, target@, m as int),
            r is None ==> absent(self@, target@),
    {
        let mut i: usize = 0;
        while i < self.entries.len()
            invariant
                i <= self.entries@.len(),
                forall|j: int| 0 <= j < i ==> self@[j] != target@,
            decreases self.entries@.len() - i,
        {
            if self.entries[i].equals(target) {
                proof {
                    use_type_invariant(&*self);
                    assert(self@[i as int] == self.entries@[i as int]@);
                }
                return Some(i as u64);
            }
            proof {
                assert(self@[i as int] == self.entries@[i as int]@);
            }
            i = i + 1;
        }
        None
    }
}

/// The group element whose discrete log is the aggregate plaintext:
/// `c2 - sk * c1`.
pub open spec fn decrypted_point(sk: Seq<u8>, c: CtView) -> Seq<u8> {
    pt_sub(c.c2, pt_mul(sk, c.c1))
}

/// Recover the plaintext sum of an aggregate ciphertext: compute
/// `c2 - sk * c1` and look it up in the bounded table. Fails with
/// `OutOfRange` exactly when the element lies outside the covered
/// range, and never misattributes: a returned number is the one whose
/// base multiple is the decrypted element, and a failure means that
/// number, if any, lies beyond the covered range.
pub fn decrypt(sk: &SecretScalar, table: &DiscreteLogTable, c: &Ciphertext) -> (r: Result<
    u64,
    DecryptError,
>)
    ensures
        r matches Ok(m) ==> found_at(table@, decrypted_point(sk@, c@), m as int),
        r matches Ok(m) ==> (forall|s: u64|
            decrypted_point(sk@, c@) == pt_mul_base(s) ==> m == s),
        r matches Err(e) ==> e == DecryptError::OutOfRange && absent(
            table@,
            decrypted_point(sk@, c@),
        ),
        r is Err ==> (forall|s: u64|
            decrypted_point(sk@, c@) == pt_mul_base(s) ==> s >= table@.len()),
{
    proof {
        use_type_invariant(&*table);
    }
    let shared = point_mul(sk, c.c1());
    let m_point = point_sub(c.c2(), &shared);
    let ghost p = decrypted_point(sk@, c@);
    match table.lookup(&m_point) {
        Some(m) => {
            proof {
                assert forall|s: u64| p == pt_mul_base(s) implies m == s by {
                    assert(table@[m as int] == pt_mul_base(s));
                }
            }
            Ok(m)
        },
        None => {
            proof {
                assert forall|s: u64| p == pt_mul_base(s) implies s >= table@.len() by {
                    if s < table@.len() {
                        assert(table@[s as int] == pt_mul_base(s));
                    }
                }
            }
            Err(DecryptError::OutOfRange)
        },
    }
}

/// Law: an exact table of base multiples never misattributes a value:
/// a lookup that finds the encoding of `s` base points returns
/// exactly `s`.
pub proof fn lemma_lookup_is_discrete_log(t: Seq<Seq<u8>>, s: u64, m: int)
    ensures
        (table_exact(t) && found_at(t, pt_mul_base(s), m)) ==> m == s,
{
    if table_exact(t) && found_at(t, pt_mul_base(s), m) {
        assert(t[m] == pt_mul_base(s));
    }
}

} // verus!
