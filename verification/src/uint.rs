//! A fixed-width unsigned integer held as little-endian base-256 limbs.
//!
//! This is the engine underneath the scalar type: carry-chain addition and
//! subtraction, modular reduction by conditional subtraction, comparison
//! without early exit, a one-bit right shift, and byte codecs. Every
//! operation is specified against [`le_val`], the mathematical value of the
//! limb sequence.
use crate::digits::be_val;
use crate::digits::le_val;
use crate::digits::lemma_le_val_bound;
use crate::digits::lemma_le_val_parity;
use crate::digits::lemma_le_val_push;
use crate::digits::lemma_pow256_pos;
use crate::digits::lemma_rev_rev;
use crate::digits::pow256;
use crate::digits::rev_bytes;
use vstd::prelude::*;

verus! {

/// A fixed-width unsigned integer: little-endian base-256 limbs.
///
/// The width (the number of limbs) is part of the value; all arithmetic
/// demands operands of one width and preserves it.
#[derive(Debug)]
pub struct Uint {
    limbs: Vec<u8>,
}

impl View for Uint {
    type V = nat;

    /// The mathematical value of the limbs.
    closed spec fn view(&self) -> nat {
        le_val(self.limbs@)
    }
}

/// One step of a carry or borrow chain, moved to the weighted sums.
proof fn lemma_chain_step(lo: nat, i: nat, d: u8, cin: nat, cout: nat, extra: int)
    requires
        d + 256 * cout == extra + cin,
        pow256((i + 1) as nat) == 256 * pow256(i),
    ensures
        lo + d * pow256(i) + cout * pow256((i + 1) as nat) == lo + cin * pow256(i) + extra * pow256(
            i,
        ),
{
    assert(d * pow256(i) + cout * (256 * pow256(i)) == (extra + cin) * pow256(i))
        by (nonlinear_arith)
        requires
            d + 256 * cout == extra + cin,
    ;
    assert((extra + cin) * pow256(i) == extra * pow256(i) + cin * pow256(i)) by (nonlinear_arith);
}

/// Limb-wise sum with the final carry. The carry chain is proved to realise
/// ordinary addition: value(out) + carry * 256^w == value(a) + value(b).
fn add_carry(a: &Vec<u8>, b: &Vec<u8>) -> (r: (Vec<u8>, bool))
    requires
        a@.len() == b@.len(),
    ensures
        r.0@.len() == a@.len(),
        le_val(r.0@) + (if r.1 {
            pow256(a@.len())
        } else {
            0
        }) == le_val(a@) + le_val(b@),
{
    let w = a.len();
    let mut out: Vec<u8> = Vec::new();
    let mut carry: u8 = 0;
    let mut i: usize = 0;
    while i < w
        invariant
            i <= w,
            w == a@.len() == b@.len(),
            out@.len() == i,
            carry <= 1,
            le_val(out@) + carry * pow256(i as nat) == le_val(a@.take(i as int)) + le_val(
                b@.take(i as int),
            ),
        decreases w - i,
    {
        let t: u16 = a[i] as u16 + b[i] as u16 + carry as u16;
        let d: u8 = (t % 256) as u8;
        proof {
            let gout = out@;
            let ta = a@.take(i as int);
            let tb = b@.take(i as int);
            assert(a@.take(i + 1) =~= ta.push(a@[i as int]));
            assert(b@.take(i + 1) =~= tb.push(b@[i as int]));
            lemma_le_val_push(gout, d);
            lemma_le_val_push(ta, a@[i as int]);
            lemma_le_val_push(tb, b@[i as int]);
            assert(pow256((i + 1) as nat) == 256 * pow256(i as nat));
            assert(d + 256 * (t / 256) == a@[i as int] + b@[i as int] + carry);
            lemma_chain_step(
                le_val(gout),
                i as nat,
                d,
                carry as nat,
                (t / 256) as nat,
                a@[i as int] + b@[i as int],
            );
            assert((a@[i as int] + b@[i as int]) * pow256(i as nat) == a@[i as int] * pow256(
                i as nat,
            ) + b@[i as int] * pow256(i as nat)) by (nonlinear_arith);
        }
        out.push(d);
        carry = (t / 256) as u8;
        i = i + 1;
    }
    proof {
        assert(a@.take(w as int) =~= a@);
        assert(b@.take(w as int) =~= b@);
    }
    (out, carry == 1)
}

/// One step of a borrow chain, moved to the weighted sums.
proof fn lemma_sub_step(lo: int, p: int, d: int, bin: int, bout: int, ai: int, bi: int, va: int, vb: int)
    requires
        lo == va - vb + bin * p,
        d == ai - bi - bin + 256 * bout,
    ensures
        lo + d * p == (va + ai * p) - (vb + bi * p) + bout * (256 * p),
{
    assert(lo + d * p == (va + ai * p) - (vb + bi * p) + bout * (256 * p)) by (nonlinear_arith)
        requires
            lo == va - vb + bin * p,
            d == ai - bi - bin + 256 * bout,
    ;
}

/// Limb-wise difference with the final borrow:
/// value(out) == value(a) - value(b) + borrow * 256^w, and the borrow comes
/// out exactly when value(a) < value(b).
fn sub_borrow(a: &Vec<u8>, b: &Vec<u8>) -> (r: (Vec<u8>, bool))
    requires
        a@.len() == b@.len(),
    ensures
        r.0@.len() == a@.len(),
        le_val(r.0@) as int == le_val(a@) - le_val(b@) + (if r.1 {
            pow256(a@.len()) as int
        } else {
            0
        }),
        r.1 == (le_val(a@) < le_val(b@)),
{
    let w = a.len();
    let mut out: Vec<u8> = Vec::new();
    let mut borrow: u8 = 0;
    let mut i: usize = 0;
    while i < w
        invariant
            i <= w,
            w == a@.len() == b@.len(),
            out@.len() == i,
            borrow <= 1,
            le_val(out@) as int == le_val(a@.take(i as int)) - le_val(b@.take(i as int)) + borrow
                * pow256(i as nat),
        decreases w - i,
    {
        let t: u16 = 256 + a[i] as u16 - b[i] as u16 - borrow as u16;
        let d: u8 = (t % 256) as u8;
        let nb: u8 = 1 - (t / 256) as u8;
        proof {
            let gout = out@;
            let ta = a@.take(i as int);
            let tb = b@.take(i as int);
            assert(a@.take(i + 1) =~= ta.push(a@[i as int]));
            assert(b@.take(i + 1) =~= tb.push(b@[i as int]));
            lemma_le_val_push(gout, d);
            lemma_le_val_push(ta, a@[i as int]);
            lemma_le_val_push(tb, b@[i as int]);
            assert(pow256((i + 1) as nat) == 256 * pow256(i as nat));
            assert(t / 256 <= 1);
            assert(d + 256 * (t / 256) == t);
            assert(d == a@[i as int] - b@[i as int] - borrow + 256 * nb);
            lemma_sub_step(
                le_val(gout) as int,
                pow256(i as nat) as int,
                d as int,
                borrow as int,
                nb as int,
                a@[i as int] as int,
                b@[i as int] as int,
                le_val(ta) as int,
                le_val(tb) as int,
            );
        }
        out.push(d);
        borrow = nb;
        i = i + 1;
    }
    proof {
        assert(a@.take(w as int) =~= a@);
        assert(b@.take(w as int) =~= b@);
        lemma_le_val_bound(out@);
        lemma_le_val_bound(b@);
        lemma_pow256_pos(w as nat);
    }
    (out, borrow == 1)
}

/// Selects one of two equal-length limb vectors through a full-width byte
/// mask, so that the choice costs the same memory walk either way.
fn select_limbs(flag: bool, t: &Vec<u8>, f: &Vec<u8>) -> (r: Vec<u8>)
    requires
        t@.len() == f@.len(),
    ensures
        r@ == if flag {
            t@
        } else {
            f@
        },
{
    let mask: u8 = if flag {
        255
    } else {
        0
    };
    let w = t.len();
    let mut out: Vec<u8> = Vec::new();
    let mut i: usize = 0;
    while i < w
        invariant
            i <= w,
            w == t@.len() == f@.len(),
            out@.len() == i,
            mask == if flag {
                255u8
            } else {
                0u8
            },
            forall|j: int|
                0 <= j < i ==> out@[j] == if flag {
                    t@[j]
                } else {
                    f@[j]
                },
        decreases w - i,
    {
        let d: u8 = (t[i] & mask) | (f[i] & !mask);
        proof {
            let x = t@[i as int];
            let y = f@[i as int];
            assert(mask == 255 ==> (x & mask) | (y & !mask) == x) by (bit_vector);
            assert(mask == 0 ==> (x & mask) | (y & !mask) == y) by (bit_vector);
        }
        out.push(d);
        i = i + 1;
    }
    proof {
        if flag {
            assert(out@ =~= t@);
        } else {
            assert(out@ =~= f@);
        }
    }
    out
}

impl Uint {
    /// The width in limbs, i.e. in bytes of the canonical encoding.
    pub closed spec fn spec_width(&self) -> nat {
        self.limbs@.len()
    }

    /// The width in limbs.
    pub fn width(&self) -> (w: usize)
        ensures
            w == self.spec_width(),
    {
        self.limbs.len()
    }

    /// The value zero at the given width.
    pub fn zero(w: usize) -> (r: Self)
        ensures
            r.spec_width() == w,
            r@ == 0,
    {
        let mut limbs: Vec<u8> = Vec::new();
        let mut i: usize = 0;
        while i < w
            invariant
                i <= w,
                limbs@.len() == i,
                le_val(limbs@) == 0,
            decreases w - i,
        {
            proof {
                lemma_le_val_push(limbs@, 0);
            }
            limbs.push(0);
            i = i + 1;
        }
        Uint { limbs }
    }

    /// The value one at the given width.
    pub fn one(w: usize) -> (r: Self)
        requires
            w >= 1,
        ensures
            r.spec_width() == w,
            r@ == 1,
    {
        let mut limbs: Vec<u8> = Vec::new();
        proof {
            lemma_le_val_push(limbs@, 1);
        }
        limbs.push(1);
        let mut i: usize = 1;
        while i < w
            invariant
                1 <= i <= w,
                limbs@.len() == i,
                le_val(limbs@) == 1,
            decreases w - i,
        {
            proof {
                lemma_le_val_push(limbs@, 0);
            }
            limbs.push(0);
            i = i + 1;
        }
        Uint { limbs }
    }

    /// A small constant, spread over the given width.
    pub fn from_u64(w: usize, n: u64) -> (r: Self)
        requires
            (n as nat) < pow256(w as nat),
        ensures
            r.spec_width() == w,
            r@ == n,
    {
        let mut limbs: Vec<u8> = Vec::new();
        let mut x: u64 = n;
        let mut i: usize = 0;
        proof {
            assert(x * pow256(0) == x) by (nonlinear_arith)
                requires
                    pow256(0) == 1,
            ;
        }
        while i < w
            invariant
                i <= w,
                limbs@.len() == i,
                le_val(limbs@) + x * pow256(i as nat) == n,
            decreases w - i,
        {
            let d: u8 = (x % 256) as u8;
            proof {
                lemma_le_val_push(limbs@, d);
                assert(pow256((i + 1) as nat) == 256 * pow256(i as nat));
                assert(d + 256 * (x / 256) == x);
                lemma_chain_step(le_val(limbs@), i as nat, d, x as nat, (x / 256) as nat, 0);
            }
            limbs.push(d);
            x = x / 256;
            i = i + 1;
        }
        proof {
            lemma_le_val_bound(limbs@);
            if x > 0 {
                assert(x * pow256(w as nat) >= pow256(w as nat)) by (nonlinear_arith)
                    requires
                        x >= 1,
                        pow256(w as nat) >= 0,
                ;
                lemma_pow256_pos(w as nat);
            }
            assert(x * pow256(w as nat) == 0) by (nonlinear_arith)
                requires
                    x == 0,
            ;
        }
        Uint { limbs }
    }

    /// Wraps little-endian bytes; the width is the byte length.
    pub fn from_le_bytes(bytes: Vec<u8>) -> (r: Self)
        ensures
            r.spec_width() == bytes@.len(),
            r@ == le_val(bytes@),
    {
        Uint { limbs: bytes }
    }

    /// Wraps big-endian bytes; the width is the byte length.
    pub fn from_be_bytes(bytes: Vec<u8>) -> (r: Self)
        ensures
            r.spec_width() == bytes@.len(),
            r@ == be_val(bytes@),
    {
        Uint { limbs: rev_limbs(&bytes) }
    }

    /// The canonical little-endian encoding, exactly the width in bytes.
    pub fn to_le_bytes(&self) -> (r: Vec<u8>)
        ensures
            r@.len() == self.spec_width(),
            le_val(r@) == self@,
    {
        copy_limbs(&self.limbs)
    }

    /// The canonical big-endian encoding, exactly the width in bytes.
    pub fn to_be_bytes(&self) -> (r: Vec<u8>)
        ensures
            r@.len() == self.spec_width(),
            be_val(r@) == self@,
    {
        let r = rev_limbs(&self.limbs);
        proof {
            lemma_rev_rev(self.limbs@);
        }
        r
    }

    /// Strict comparison, scanning every limb whatever the values hold.
    pub fn is_lt(&self, other: &Self) -> (r: bool)
        requires
            self.spec_width() == other.spec_width(),
        ensures
            r == (self@ < other@),
    {
        let (_, borrow) = sub_borrow(&self.limbs, &other.limbs);
        borrow
    }

    /// Equality, scanning every limb whatever the values hold.
    pub fn is_eq(&self, other: &Self) -> (r: bool)
        requires
            self.spec_width() == other.spec_width(),
        ensures
            r == (self@ == other@),
    {
        let (_, below) = sub_borrow(&self.limbs, &other.limbs);
        let (_, above) = sub_borrow(&other.limbs, &self.limbs);
        !below && !above
    }

    /// Picks `b` when `flag` holds, else `a`, through a byte mask.
    pub fn select(a: &Self, b: &Self, flag: bool) -> (r: Self)
        requires
            a.spec_width() == b.spec_width(),
        ensures
            r.spec_width() == a.spec_width(),
            r@ == if flag {
                b@
            } else {
                a@
            },
    {
        Uint { limbs: select_limbs(flag, &b.limbs, &a.limbs) }
    }

    /// `(self + rhs) mod m`, by full addition then conditional subtraction.
    pub fn add_mod(&self, rhs: &Self, m: &Self) -> (r: Self)
        requires
            self.spec_width() == m.spec_width(),
            rhs.spec_width() == m.spec_width(),
            self@ < m@,
            rhs@ < m@,
        ensures
            r.spec_width() == m.spec_width(),
            r@ == (self@ + rhs@) % m@,
            r@ < m@,
    {
        let (sum, carry) = add_carry(&self.limbs, &rhs.limbs);
        let (diff, borrow) = sub_borrow(&sum, &m.limbs);
        let use_diff = carry || !borrow;
        let limbs = select_limbs(use_diff, &diff, &sum);
        proof {
            let a = self@;
            let b = rhs@;
            let n = le_val(m.limbs@);
            let w = m.limbs@.len();
            lemma_le_val_bound(m.limbs@);
            lemma_le_val_bound(sum@);
            lemma_le_val_bound(diff@);
            if use_diff {
                if carry {
                    assert(le_val(sum@) == a + b - pow256(w));
                    assert(le_val(sum@) < n);
                }
                assert(le_val(diff@) == a + b - n);
                vstd::arithmetic::div_mod::lemma_mod_multiples_vanish(-1, (a + b) as int, n as int);
                vstd::arithmetic::div_mod::lemma_small_mod((a + b - n) as nat, n);
            } else {
                assert(le_val(sum@) == a + b);
                vstd::arithmetic::div_mod::lemma_small_mod((a + b) as nat, n);
            }
        }
        Uint { limbs }
    }

    /// `(self - rhs) mod m`, by full subtraction then conditional
    /// re-addition of the modulus.
    pub fn sub_mod(&self, rhs: &Self, m: &Self) -> (r: Self)
        requires
            self.spec_width() == m.spec_width(),
            rhs.spec_width() == m.spec_width(),
            self@ < m@,
            rhs@ < m@,
        ensures
            r.spec_width() == m.spec_width(),
            r@ == (((self@ + m@) - rhs@) as nat) % m@,
            r@ < m@,
    {
        let (diff, borrow) = sub_borrow(&self.limbs, &rhs.limbs);
        let (readd, c2) = add_carry(&diff, &m.limbs);
        let limbs = select_limbs(borrow, &readd, &diff);
        proof {
            let a = self@;
            let b = rhs@;
            let n = le_val(m.limbs@);
            let w = m.limbs@.len();
            lemma_le_val_bound(m.limbs@);
            lemma_le_val_bound(diff@);
            lemma_le_val_bound(readd@);
            if borrow {
                assert(le_val(diff@) == a - b + pow256(w));
                if !c2 {
                    assert(le_val(readd@) == a - b + pow256(w) + n);
                    assert(le_val(readd@) >= pow256(w));
                }
                assert(le_val(readd@) == a + n - b);
                vstd::arithmetic::div_mod::lemma_small_mod((a + n - b) as nat, n);
            } else {
                assert(le_val(diff@) == a - b);
                vstd::arithmetic::div_mod::lemma_mod_multiples_vanish(
                    -1,
                    ((a + n) - b) as int,
                    n as int,
                );
                vstd::arithmetic::div_mod::lemma_small_mod((a - b) as nat, n);
            }
        }
        Uint { limbs }
    }

    /// `(m - self) mod m`: the additive inverse, with zero fixed.
    pub fn neg_mod(&self, m: &Self) -> (r: Self)
        requires
            self.spec_width() == m.spec_width(),
            self@ < m@,
        ensures
            r.spec_width() == m.spec_width(),
            r@ == ((m@ - self@) as nat) % m@,
            r@ < m@,
    {
        let z = Uint::zero(m.width());
        z.sub_mod(self, m)
    }

    /// The raw one-bit right shift: halves the value, dropping the low bit.
    pub fn shr1(&self) -> (r: Self)
        ensures
            r.spec_width() == self.spec_width(),
            r@ == self@ / 2,
    {
        let w = self.limbs.len();
        let mut out: Vec<u8> = Vec::new();
        let mut i: usize = 0;
        proof {
            if w > 0 {
                assert((self.limbs@[0] % 2) * pow256(0) == (self.limbs@[0] % 2))
                    by (nonlinear_arith)
                    requires
                        pow256(0) == 1,
                ;
            }
        }
        while i < w
            invariant
                i <= w,
                w == self.limbs@.len(),
                out@.len() == i,
                i < w ==> 2 * le_val(out@) + (self.limbs@[0] % 2) == le_val(
                    self.limbs@.take(i as int),
                ) + (self.limbs@[i as int] % 2) * pow256(i as nat),
                i == w && w > 0 ==> 2 * le_val(out@) + (self.limbs@[0] % 2) == le_val(self.limbs@),
                w == 0 ==> le_val(out@) == 0,
            decreases w - i,
        {
            let s = &self.limbs;
            let hi: u8 = if i + 1 < w {
                (s[i + 1] % 2) * 128
            } else {
                0
            };
            let d: u8 = s[i] / 2 + hi;
            proof {
                let ta = s@.take(i as int);
                assert(s@.take(i + 1) =~= ta.push(s@[i as int]));
                lemma_le_val_push(out@, d);
                lemma_le_val_push(ta, s@[i as int]);
                assert(pow256((i + 1) as nat) == 256 * pow256(i as nat));
                let ai = s@[i as int];
                let lift = if i + 1 < w {
                    s@[i + 1] % 2
                } else {
                    0
                };
                assert(d == ai / 2 + 128 * lift);
                assert(ai == 2 * (ai / 2) + ai % 2);
                assert(2 * (le_val(out@) + d * pow256(i as nat)) + (s@[0] % 2) == le_val(
                    ta.push(ai),
                ) + lift * pow256((i + 1) as nat)) by (nonlinear_arith)
                    requires
                        2 * le_val(out@) + (s@[0] % 2) == le_val(ta) + (ai % 2) * pow256(i as nat),
                        d == ai / 2 + 128 * lift,
                        ai == 2 * (ai / 2) + ai % 2,
                        le_val(ta.push(ai)) == le_val(ta) + ai * pow256(i as nat),
                        pow256((i + 1) as nat) == 256 * pow256(i as nat),
                ;
                if i + 1 == w {
                    assert(s@.take(w as int) =~= s@);
                }
            }
            out.push(d);
            i = i + 1;
        }
        proof {
            if w > 0 {
                lemma_le_val_parity(self.limbs@);
                vstd::arithmetic::div_mod::lemma_fundamental_div_mod_converse(
                    le_val(self.limbs@) as int,
                    2,
                    le_val(out@) as int,
                    (self.limbs@[0] % 2) as int,
                );
            }
        }
        Uint { limbs: out }
    }

    /// The limbs, least significant first.
    pub fn as_limbs(&self) -> (r: &[u8])
        ensures
            r@.len() == self.spec_width(),
            le_val(r@) == self@,
    {
        self.limbs.as_slice()
    }

    /// Strict comparison of the values alone: operands of unequal widths are
    /// compared as if zero-extended.
    pub fn val_lt(&self, other: &Self) -> (r: bool)
        ensures
            r == (self@ < other@),
    {
        let w = if self.limbs.len() < other.limbs.len() {
            other.limbs.len()
        } else {
            self.limbs.len()
        };
        let a = pad_limbs(&self.limbs, w);
        let b = pad_limbs(&other.limbs, w);
        let (_, borrow) = sub_borrow(&a, &b);
        borrow
    }

    /// Value equality alone: operands of unequal widths are compared as if
    /// zero-extended.
    pub fn val_eq(&self, other: &Self) -> (r: bool)
        ensures
            r == (self@ == other@),
    {
        let below = self.val_lt(other);
        let above = other.val_lt(self);
        !below && !above
    }

    /// Whether the value is even, read off the least significant limb.
    pub fn is_even(&self) -> (r: bool)
        requires
            self.spec_width() >= 1,
        ensures
            r == (self@ % 2 == 0),
    {
        proof {
            lemma_le_val_parity(self.limbs@);
        }
        self.limbs[0] % 2 == 0
    }
}

impl Clone for Uint {
    /// An identical copy: same width, same value.
    fn clone(&self) -> (r: Self)
        ensures
            r.spec_width() == self.spec_width(),
            r@ == self@,
    {
        Uint { limbs: copy_limbs(&self.limbs) }
    }
}

/// Copies a limb vector, appending zero limbs up to width `w`; the value is
/// unchanged.
fn pad_limbs(v: &Vec<u8>, w: usize) -> (r: Vec<u8>)
    requires
        v@.len() <= w,
    ensures
        r@.len() == w,
        le_val(r@) == le_val(v@),
{
    let mut out = copy_limbs(v);
    let mut i: usize = v.len();
    while i < w
        invariant
            v@.len() <= i <= w,
            out@.len() == i,
            le_val(out@) == le_val(v@),
        decreases w - i,
    {
        proof {
            lemma_le_val_push(out@, 0);
        }
        out.push(0);
        i = i + 1;
    }
    out
}

/// Copies a limb vector.
fn copy_limbs(v: &Vec<u8>) -> (r: Vec<u8>)
    ensures
        r@ == v@,
{
    let mut out: Vec<u8> = Vec::new();
    let mut i: usize = 0;
    while i < v.len()
        invariant
            i <= v@.len(),
            out@ == v@.take(i as int),
        decreases v@.len() - i,
    {
        proof {
            assert(v@.take(i + 1) =~= v@.take(i as int).push(v@[i as int]));
        }
        out.push(v[i]);
        i = i + 1;
    }
    proof {
        assert(v@.take(v@.len() as int) =~= v@);
    }
    out
}

/// Reverses a limb vector.
fn rev_limbs(v: &Vec<u8>) -> (r: Vec<u8>)
    ensures
        r@ == rev_bytes(v@),
{
    let w = v.len();
    let mut out: Vec<u8> = Vec::new();
    let mut i: usize = 0;
    while i < w
        invariant
            i <= w,
            w == v@.len(),
            out@.len() == i,
            forall|j: int| 0 <= j < i ==> out@[j] == v@[w - 1 - j],
        decreases w - i,
    {
        out.push(v[w - 1 - i]);
        i = i + 1;
    }
    proof {
        assert(out@ =~= rev_bytes(v@));
    }
    out
}

} // verus!
