//! Concrete curve parameter sets.
//!
//! `Secp256k1` carries the order of the secp256k1 scalar field. The two
//! `Tiny*` sets are two-byte moduli — one odd, one even — small enough to
//! compare every operation against plain integer arithmetic; the scalar type
//! itself asks only that the modulus be at least two, not that it be prime.
use crate::curve::Curve;
use crate::digits::le_val;
use crate::digits::lemma_le_val_bound;
use crate::digits::lemma_le_val_lower_bound;
use crate::digits::pow256;
use vstd::prelude::*;

verus! {

/// The little-endian bytes of the secp256k1 scalar-field order.
pub open spec fn secp256k1_order_le() -> Seq<u8> {
    seq![
        0x41u8, 0x41, 0x36, 0xd0, 0x8c, 0x5e, 0xd2, 0xbf, 0x3b, 0xa0, 0x48, 0xaf, 0xe6, 0xdc,
        0xae, 0xba, 0xfe, 0xff, 0xff, 0xff, 0xff, 0xff, 0xff, 0xff, 0xff, 0xff, 0xff, 0xff, 0xff,
        0xff, 0xff, 0xff,
    ]
}

/// The secp256k1 curve: 32-byte scalars modulo its group order.
#[derive(Debug)]
pub struct Secp256k1;

impl Curve for Secp256k1 {
    open spec fn spec_width() -> nat {
        32
    }

    open spec fn spec_order() -> nat {
        le_val(secp256k1_order_le())
    }

    proof fn order_in_range() {
        let s = secp256k1_order_le();
        lemma_le_val_bound(s);
        lemma_le_val_lower_bound(s);
        assert(s[31] == 0xffu8);
        assert(le_val(s) >= 0xff * pow256(31));
    }

    fn width() -> (w: usize) {
        32
    }

    fn order_le_limbs() -> (v: Vec<u8>) {
        let mut v: Vec<u8> = Vec::new();
        v.push(0x41);
        v.push(0x41);
        v.push(0x36);
        v.push(0xd0);
        v.push(0x8c);
        v.push(0x5e);
        v.push(0xd2);
        v.push(0xbf);
        v.push(0x3b);
        v.push(0xa0);
        v.push(0x48);
        v.push(0xaf);
        v.push(0xe6);
        v.push(0xdc);
        v.push(0xae);
        v.push(0xba);
        v.push(0xfe);
        let mut i: usize = 17;
        while i < 32
            invariant
                17 <= i <= 32,
                v@.len() == i,
                forall|j: int| 0 <= j < 17 ==> v@[j] == secp256k1_order_le()[j],
                forall|j: int| 17 <= j < i ==> v@[j] == 0xffu8,
            decreases 32 - i,
        {
            v.push(0xff);
            i = i + 1;
        }
        proof {
            assert(v@ =~= secp256k1_order_le());
        }
        v
    }
}

/// The little-endian bytes of the `TinyOdd` modulus, 61453.
pub open spec fn tiny_odd_order_le() -> Seq<u8> {
    seq![0x0du8, 0xf0]
}

/// A two-byte odd modulus for exercising the scalar type exhaustively.
#[derive(Debug)]
pub struct TinyOdd;

impl Curve for TinyOdd {
    open spec fn spec_width() -> nat {
        2
    }

    open spec fn spec_order() -> nat {
        le_val(tiny_odd_order_le())
    }

    proof fn order_in_range() {
        let s = tiny_odd_order_le();
        lemma_le_val_bound(s);
        lemma_le_val_lower_bound(s);
        assert(le_val(s) >= 0xf0 * pow256(1));
    }

    fn width() -> (w: usize) {
        2
    }

    fn order_le_limbs() -> (v: Vec<u8>) {
        let mut v: Vec<u8> = Vec::new();
        v.push(0x0d);
        v.push(0xf0);
        proof {
            assert(v@ =~= tiny_odd_order_le());
        }
        v
    }
}

/// The little-endian bytes of the `TinyEven` modulus, 48878.
pub open spec fn tiny_even_order_le() -> Seq<u8> {
    seq![0xeeu8, 0xbe]
}

/// A two-byte even modulus: the scalar type itself never asks for primality,
/// and the high-half predicate behaves differently around an even modulus.
#[derive(Debug)]
pub struct TinyEven;

impl Curve for TinyEven {
    open spec fn spec_width() -> nat {
        2
    }

    open spec fn spec_order() -> nat {
        le_val(tiny_even_order_le())
    }

    proof fn order_in_range() {
        let s = tiny_even_order_le();
        lemma_le_val_bound(s);
        lemma_le_val_lower_bound(s);
        assert(le_val(s) >= 0xbe * pow256(1));
    }

    fn width() -> (w: usize) {
        2
    }

    fn order_le_limbs() -> (v: Vec<u8>) {
        let mut v: Vec<u8> = Vec::new();
        v.push(0xee);
        v.push(0xbe);
        proof {
            assert(v@ =~= tiny_even_order_le());
        }
        v
    }
}

} // verus!
