//! Aggregation state: the exclusively-owned accumulator holding the
//! running homomorphic sum of all ciphertexts folded in so far.

use vstd::prelude::*;
use crate::group::Ciphertext;
use crate::group::CtView;
use crate::group::ct_add;
use crate::group::ct_add_spec;
use crate::group::ct_view_wf;
use crate::group::pt_add_associative;
use crate::group::pt_add_commutative;

verus! {

broadcast use vstd::seq_lib::group_to_multiset_ensures, vstd::multiset::group_multiset_axioms;

/// One step of the running sum: fold `c` into an accumulator that is
/// `None` before the first contribution.
pub open spec fn fold_step(acc: Option<CtView>, c: CtView) -> Option<CtView> {
    match acc {
        None => Some(c),
        Some(p) => Some(ct_add_spec(p, c)),
    }
}

/// The running homomorphic sum of a sequence of ciphertexts: a fold by
/// component-wise group addition, `None` when the sequence is empty.
pub open spec fn fold_ciphertexts(s: Seq<CtView>) -> Option<CtView>
    decreases s.len(),
{
    if s.len() == 0 {
        None
    } else {
        fold_step(fold_ciphertexts(s.drop_last()), s.last())
    }
}

proof fn lemma_ct_add_spec_comm(a: CtView, b: CtView)
    requires
        pt_add_commutative(),
    ensures
        ct_add_spec(a, b) == ct_add_spec(b, a),
{
    assert(ct_add_spec(a, b) =~= ct_add_spec(b, a));
}

proof fn lemma_ct_add_spec_assoc(a: CtView, b: CtView, c: CtView)
    requires
        pt_add_associative(),
    ensures
        ct_add_spec(ct_add_spec(a, b), c) == ct_add_spec(a, ct_add_spec(b, c)),
{
    assert(ct_add_spec(ct_add_spec(a, b), c) =~= ct_add_spec(a, ct_add_spec(b, c)));
}

proof fn lemma_fold_step_swap(acc: Option<CtView>, a: CtView, b: CtView)
    requires
        pt_add_commutative(),
        pt_add_associative(),
    ensures
        fold_step(fold_step(acc, a), b) == fold_step(fold_step(acc, b), a),
{
    match acc {
        None => {
            lemma_ct_add_spec_comm(a, b);
        },
        Some(p) => {
            lemma_ct_add_spec_assoc(p, a, b);
            lemma_ct_add_spec_assoc(p, b, a);
            lemma_ct_add_spec_comm(a, b);
        },
    }
}

proof fn lemma_fold_pull_to_last(s: Seq<CtView>, j: int)
    requires
        pt_add_commutative(),
        pt_add_associative(),
        0 <= j < s.len(),
    ensures
        fold_ciphertexts(s) == fold_step(fold_ciphertexts(s.remove(j)), s[j]),
    decreases s.len(),
{
    if j == s.len() - 1 {
        assert(s.remove(j) =~= s.drop_last());
    } else {
        let t = s.drop_last();
        let x = s.last();
        lemma_fold_pull_to_last(t, j);
        lemma_fold_step_swap(fold_ciphertexts(t.remove(j)), t[j], x);
        assert(s.remove(j) =~= t.remove(j).push(x));
        assert(t.remove(j).push(x).drop_last() =~= t.remove(j));
    }
}

/// Law: the running sum does not depend on arrival order wherever
/// point addition is commutative and associative -- as it is in the
/// abelian Ristretto group, though no contract of this crate can
/// witness those laws for the uninterpreted name: any two arrangements
/// of the same finite multiset of ciphertexts fold to the same sum.
pub proof fn lemma_fold_order_independent(s1: Seq<CtView>, s2: Seq<CtView>)
    ensures
        (pt_add_commutative() && pt_add_associative() && s1.to_multiset() == s2.to_multiset())
            ==> fold_ciphertexts(s1) == fold_ciphertexts(s2),
    decreases s1.len(),
{
    if pt_add_commutative() && pt_add_associative() && s1.to_multiset() == s2.to_multiset() {
        s1.to_multiset_ensures();
        s2.to_multiset_ensures();
        if s1.len() == 0 {
            assert(s2.len() == 0);
        } else {
            let x = s1.last();
            let t1 = s1.drop_last();
            assert(s1.contains(x)) by {
                assert(s1[s1.len() - 1] == x);
            }
            assert(s1.to_multiset().count(x) > 0);
            assert(s2.to_multiset().count(x) > 0);
            assert(s2.contains(x));
            let j = choose|i: int| 0 <= i < s2.len() && s2[i] == x;
            let t2 = s2.remove(j);
            assert(s1 =~= t1.push(x));
            t1.to_multiset_ensures();
            assert(t1.push(x).to_multiset() =~= t1.to_multiset().insert(x));
            assert(t2.to_multiset() == s2.to_multiset().remove(x));
            assert(t2.to_multiset() =~= t1.to_multiset());
            lemma_fold_order_independent(t1, t2);
            lemma_fold_pull_to_last(s2, j);
        }
    }
}

/// The accumulator for one epoch: the running sum, the count of
/// contributions folded in, and the one-way reveal latch.
pub struct AggregationState {
    running_sum: Option<Ciphertext>,
    contributions_folded: u64,
    revealed: bool,
    log: Ghost<Seq<CtView>>,
}

impl AggregationState {
    /// The ciphertexts folded in so far, in arrival order.
    pub closed spec fn log(&self) -> Seq<CtView> {
        self.log@
    }

    /// How many contributions have been folded in.
    pub closed spec fn count(&self) -> u64 {
        self.contributions_folded
    }

    /// Whether the reveal latch has been set.
    pub closed spec fn revealed(&self) -> bool {
        self.revealed
    }

    /// The running sum's image, `None` before the first contribution.
    pub closed spec fn sum(&self) -> Option<CtView> {
        match self.running_sum {
            Some(c) => Some(c@),
            None => None,
        }
    }

    #[verifier::type_invariant]
    pub(crate) open spec fn consistent(self) -> bool {
        &&& self.sum() == fold_ciphertexts(self.log())
        &&& self.log().len() == self.count()
    }

    /// A fresh accumulator: no sum, no contributions, latch open.
    pub fn new() -> (r: AggregationState)
        ensures
            r.log() == Seq::<CtView>::empty(),
            r.count() == 0,
            !r.revealed(),
            r.sum() is None,
    {
        AggregationState {
            running_sum: None,
            contributions_folded: 0,
            revealed: false,
            log: Ghost(Seq::empty()),
        }
    }

    /// How many contributions have been folded in so far.
    pub fn contribution_count(&self) -> (r: u64)
        ensures
            r == self.count(),
            r == self.log().len(),
    {
        proof {
            use_type_invariant(&*self);
        }
        self.contributions_folded
    }

    /// Fold one ciphertext into the running sum: `None` becomes
    /// `Some(c)`, `Some(prev)` becomes `Some(prev + c)` component-wise,
    /// and the counter advances by exactly one.
    pub fn add(&mut self, c: Ciphertext)
        requires
            old(self).count() < u64::MAX,
        ensures
            final(self).log() == old(self).log().push(c@),
            final(self).count() == old(self).count() + 1,
            final(self).revealed() == old(self).revealed(),
            final(self).sum() == fold_ciphertexts(final(self).log()),
    {
        proof {
            use_type_invariant(&*self);
        }
        let new_sum = match &self.running_sum {
            None => c,
            Some(prev) => ct_add(prev, &c),
        };
        let ghost new_log = self.log@.push(c@);
        proof {
            assert(new_log.drop_last() =~= self.log@);
        }
        *self = AggregationState {
            running_sum: Some(new_sum),
            contributions_folded: self.contributions_folded + 1,
            revealed: self.revealed,
            log: Ghost(new_log),
        };
    }

    /// Snapshot the running sum and set the reveal latch; `None` marks
    /// the distinguishable empty aggregate.
    pub fn finalize(&mut self) -> (r: Option<Ciphertext>)
        ensures
            final(self).revealed(),
            final(self).log() == old(self).log(),
            final(self).count() == old(self).count(),
            final(self).sum() == old(self).sum(),
            r matches Some(c) ==> old(self).sum() == Some(c@) && ct_view_wf(c@),
            r is None <==> old(self).sum() is None,
            r is None <==> old(self).count() == 0,
    {
        proof {
            use_type_invariant(&*self);
        }
        self.revealed = true;
        match self.running_sum {
            Some(c) => {
                proof {
                    use_type_invariant(&c);
                }
                Some(c)
            },
            None => None,
        }
    }
}

} // verus!
