//! Algebraic identities of the modular operations, stated over the same
//! spec-level arithmetic that the operations' contracts use.
use crate::curve::Curve;
use crate::scalar::ScalarPrimitive;
use vstd::arithmetic::div_mod::lemma_mod_self_0;
use vstd::arithmetic::div_mod::lemma_small_mod;
use vstd::prelude::*;
use vstd::std_specs::cmp::PartialEqSpec;
use vstd::std_specs::cmp::PartialOrdSpec;

verus! {

/// Adding zero is the identity: for every well-formed scalar `a`, the value
/// that `add` against the zero scalar returns, `(a + 0) mod N`, is `a`
/// itself.
pub proof fn lemma_add_zero<C: Curve>(a: ScalarPrimitive<C>)
    requires
        a.wf(),
    ensures
        (a@ + 0) % C::spec_order() == a@,
{
    C::order_in_range();
    a.lemma_in_range();
    lemma_small_mod(a@, C::spec_order());
}

/// A scalar plus its negation is zero: with `m == (N - a) mod N` — the value
/// that `neg` returns — the value that `add` returns, `(a + m) mod N`, is
/// zero.
pub proof fn lemma_add_neg<C: Curve>(a: ScalarPrimitive<C>)
    requires
        a.wf(),
    ensures
        (a@ + ((C::spec_order() - a@) as nat) % C::spec_order()) % C::spec_order() == 0,
{
    C::order_in_range();
    a.lemma_in_range();
    let n = C::spec_order();
    if a@ == 0 {
        lemma_mod_self_0(n as int);
        lemma_small_mod(0, n);
    } else {
        lemma_small_mod((n - a@) as nat, n);
        lemma_mod_self_0(n as int);
        assert(a@ + ((n - a@) as nat) == n);
    }
}

/// The constant-time comparisons and the conventional wrappers agree: the
/// meaning of `==` (`eq_spec`) holds exactly when the values are equal —
/// which is what the tag `ct_eq` returns carries — and `partial_cmp`'s
/// meaning orders by the values, as `ct_lt` and `ct_gt` do.
pub proof fn lemma_comparisons_agree<C: Curve>(a: ScalarPrimitive<C>, b: ScalarPrimitive<C>)
    requires
        a.wf(),
        b.wf(),
    ensures
        a.eq_spec(&b) == (a@ == b@),
        (a.partial_cmp_spec(&b) == Some(core::cmp::Ordering::Less)) <==> (a@ < b@),
        (a.partial_cmp_spec(&b) == Some(core::cmp::Ordering::Greater)) <==> (a@ > b@),
        (a.partial_cmp_spec(&b) == Some(core::cmp::Ordering::Equal)) <==> (a@ == b@),
{
}

} // verus!
