//! Base-256 positional interpretation of byte sequences, and the lemmas
//! the limb-level arithmetic is proved against.
use vstd::prelude::*;

verus! {

/// 256 raised to the power `n`: the weight of the `n`-th little-endian digit.
pub open spec fn pow256(n: nat) -> nat
    decreases n,
{
    if n == 0 {
        1
    } else {
        256 * pow256((n - 1) as nat)
    }
}

/// The value of a byte sequence read as a little-endian base-256 integer.
pub open spec fn le_val(s: Seq<u8>) -> nat
    decreases s.len(),
{
    if s.len() == 0 {
        0
    } else {
        s[0] as nat + 256 * le_val(s.drop_first())
    }
}

/// The byte sequence reversed.
pub open spec fn rev_bytes(s: Seq<u8>) -> Seq<u8> {
    Seq::new(s.len(), |i: int| s[s.len() - 1 - i])
}

/// The value of a byte sequence read as a big-endian base-256 integer.
pub open spec fn be_val(s: Seq<u8>) -> nat {
    le_val(rev_bytes(s))
}

pub proof fn lemma_pow256_pos(n: nat)
    ensures
        pow256(n) >= 1,
    decreases n,
{
    if n > 0 {
        lemma_pow256_pos((n - 1) as nat);
    }
}

/// Appending a digit at the most significant end adds its weighted value.
pub proof fn lemma_le_val_push(s: Seq<u8>, x: u8)
    ensures
        le_val(s.push(x)) == le_val(s) + x * pow256(s.len()),
    decreases s.len(),
{
    if s.len() == 0 {
        assert(s.push(x).drop_first() =~= Seq::<u8>::empty());
        assert(s.push(x)[0] == x);
        assert(le_val(s.push(x)) == x as nat + 256 * le_val(Seq::<u8>::empty()));
        assert(pow256(0) == 1);
        assert(x * pow256(s.len()) == x) by (nonlinear_arith)
            requires
                pow256(s.len()) == 1,
        ;
        assert(le_val(s.push(x)) == le_val(s) + x * pow256(s.len()));
    } else {
        assert(s.push(x).drop_first() =~= s.drop_first().push(x));
        lemma_le_val_push(s.drop_first(), x);
        assert(s.push(x)[0] == s[0]);
        assert(le_val(s.push(x)) == s[0] as nat + 256 * le_val(s.drop_first().push(x)));
        assert(le_val(s.push(x)) == s[0] as nat + 256 * (le_val(s.drop_first()) + x * pow256(
            (s.len() - 1) as nat,
        )));
        assert(256 * (le_val(s.drop_first()) + x * pow256((s.len() - 1) as nat)) == 256 * le_val(
            s.drop_first(),
        ) + x * (256 * pow256((s.len() - 1) as nat))) by (nonlinear_arith);
        assert(pow256(s.len()) == 256 * pow256((s.len() - 1) as nat));
        assert(x * (256 * pow256((s.len() - 1) as nat)) == x * pow256(s.len()));
        assert(le_val(s.push(x)) == le_val(s) + x * pow256(s.len()));
    }
}

/// A sequence of `n` digits holds a value below `256^n`.
pub proof fn lemma_le_val_bound(s: Seq<u8>)
    ensures
        le_val(s) < pow256(s.len()),
    decreases s.len(),
{
    if s.len() == 0 {
    } else {
        lemma_le_val_bound(s.drop_first());
        assert(le_val(s.drop_first()) + 1 <= pow256((s.len() - 1) as nat));
        assert(256 * le_val(s.drop_first()) + 256 <= 256 * pow256((s.len() - 1) as nat))
            by (nonlinear_arith)
            requires
                le_val(s.drop_first()) + 1 <= pow256((s.len() - 1) as nat),
        ;
    }
}

/// The most significant digit alone gives a lower bound on the value.
pub proof fn lemma_le_val_lower_bound(s: Seq<u8>)
    requires
        s.len() > 0,
    ensures
        le_val(s) >= s[s.len() - 1] * pow256((s.len() - 1) as nat),
        le_val(s) >= s[0],
{
    assert(s =~= s.drop_last().push(s.last()));
    lemma_le_val_push(s.drop_last(), s.last());
}

/// The parity of the value is the parity of the least significant digit.
pub proof fn lemma_le_val_parity(s: Seq<u8>)
    requires
        s.len() > 0,
    ensures
        le_val(s) % 2 == s[0] % 2,
{
    let r = le_val(s.drop_first());
    assert(le_val(s) == s[0] as nat + 2 * (128 * r));
    assert((s[0] as nat + 2 * (128 * r)) % 2 == s[0] as nat % 2) by (nonlinear_arith);
}

/// Reversing twice gives the sequence back.
pub proof fn lemma_rev_rev(s: Seq<u8>)
    ensures
        rev_bytes(rev_bytes(s)) =~= s,
{
}

/// A value has one little-endian encoding per width: equal-length byte
/// strings with the same value are the same string. With this, decoding
/// inverts encoding exactly — the `W`-byte string an encoder returns is the
/// only one its value decodes from.
pub proof fn lemma_le_val_injective(s: Seq<u8>, t: Seq<u8>)
    requires
        s.len() == t.len(),
        le_val(s) == le_val(t),
    ensures
        s =~= t,
    decreases s.len(),
{
    if s.len() > 0 {
        vstd::arithmetic::div_mod::lemma_mod_multiples_vanish(
            le_val(s.drop_first()) as int,
            s[0] as int,
            256,
        );
        vstd::arithmetic::div_mod::lemma_mod_multiples_vanish(
            le_val(t.drop_first()) as int,
            t[0] as int,
            256,
        );
        vstd::arithmetic::div_mod::lemma_small_mod(s[0] as nat, 256);
        vstd::arithmetic::div_mod::lemma_small_mod(t[0] as nat, 256);
        assert(s[0] == t[0]);
        assert(256 * le_val(s.drop_first()) == 256 * le_val(t.drop_first()));
        lemma_le_val_injective(s.drop_first(), t.drop_first());
        assert(forall|i: int| 1 <= i < s.len() ==> s[i] == s.drop_first()[i - 1]);
    }
}

/// The big-endian form of the same uniqueness: equal-length byte strings
/// with the same big-endian value are the same string.
pub proof fn lemma_be_val_injective(s: Seq<u8>, t: Seq<u8>)
    requires
        s.len() == t.len(),
        be_val(s) == be_val(t),
    ensures
        s =~= t,
{
    lemma_le_val_injective(rev_bytes(s), rev_bytes(t));
    lemma_rev_rev(s);
    lemma_rev_rev(t);
}

} // verus!
