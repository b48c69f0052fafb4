//! The scalar type: an integer in `[0, N)` for a curve order `N`.
use crate::ct::choice_from_bool;
use crate::ct::choice_holds;
use crate::ct::choice_to_bool;
use crate::curve::Curve;
use crate::digits::be_val;
use crate::digits::le_val;
use crate::digits::lemma_le_val_bound;
use crate::digits::lemma_le_val_push;
use crate::digits::pow256;
use crate::hex::hex_decode_chars;
use crate::hex::hex_decode_mixed;
use crate::hex::hex_encode_lower;
use crate::hex::hex_encode_upper;
use crate::hex::is_hex_char;
use crate::hex::lemma_hex_round_trip;
use crate::rng::fill_random_bytes;
use crate::uint::Uint;
use crate::Error;
use core::marker::PhantomData;
use vstd::prelude::*;

verus! {

/// A scalar of the curve `C`: an unsigned fixed-width integer that the
/// public, validated constructors keep below the curve order `N`.
///
/// Its view is the mathematical value, a natural number; [`Self::wf`] says
/// the representation is exactly `W` limbs wide and the value is in range.
/// Because a scalar may hold secret key material, comparisons and predicates
/// scan the whole representation whatever it holds and answer with a
/// [`subtle::Choice`]; the `PartialEq`/`PartialOrd` impls are variable-time
/// conveniences for call sites where the relative order of the operands is
/// public, such as deduplicating public values.
#[derive(Debug)]
pub struct ScalarPrimitive<C: Curve> {
    inner: Uint,
    curve: PhantomData<C>,
}

impl<C: Curve> View for ScalarPrimitive<C> {
    type V = nat;

    /// The scalar's value.
    closed spec fn view(&self) -> nat {
        self.inner@
    }
}

impl<C: Curve> ScalarPrimitive<C> {
    /// The representation is exactly `W` limbs holding a value below `N`.
    pub closed spec fn wf(&self) -> bool {
        self.inner.spec_width() == C::spec_width() && self.inner@ < C::spec_order()
    }

    /// Every well-formed scalar's value lies below the order.
    pub proof fn lemma_in_range(&self)
        requires
            self.wf(),
        ensures
            self@ < C::spec_order(),
    {
    }

    /// The additive identity.
    pub fn zero() -> (r: Self)
        ensures
            r.wf(),
            r@ == 0,
    {
        proof {
            C::order_in_range();
        }
        ScalarPrimitive { inner: Uint::zero(C::width()), curve: PhantomData }
    }

    /// The multiplicative identity.
    pub fn one() -> (r: Self)
        ensures
            r.wf(),
            r@ == 1,
    {
        proof {
            C::order_in_range();
        }
        ScalarPrimitive { inner: Uint::one(C::width()), curve: PhantomData }
    }

    /// The scalar modulus: the order `N` as a width-`W` integer.
    pub fn modulus() -> (r: Uint)
        ensures
            r.spec_width() == C::spec_width(),
            r@ == C::spec_order(),
    {
        Uint::from_le_bytes(C::order_le_limbs())
    }

    /// Validated construction: accepts exactly the integers below `N`. The
    /// range check scans every limb whatever the value holds.
    pub fn new(uint: Uint) -> (r: Option<Self>)
        requires
            uint.spec_width() == C::spec_width(),
        ensures
            r is Some <==> uint@ < C::spec_order(),
            r matches Some(s) ==> s.wf() && s@ == uint@,
    {
        let m = Self::modulus();
        if uint.is_lt(&m) {
            Some(ScalarPrimitive { inner: uint, curve: PhantomData })
        } else {
            None
        }
    }

    /// Unvalidated construction. The caller must already hold a
    /// modulus-reduced value; this is for internal call sites, never for
    /// untrusted input.
    pub fn from_uint_unchecked(uint: Uint) -> (r: Self)
        requires
            uint.spec_width() == C::spec_width(),
            uint@ < C::spec_order(),
        ensures
            r.wf(),
            r@ == uint@,
    {
        ScalarPrimitive { inner: uint, curve: PhantomData }
    }

    /// A small constant, already below `N`.
    pub fn from_u64(n: u64) -> (r: Self)
        requires
            (n as nat) < C::spec_order(),
        ensures
            r.wf(),
            r@ == n,
    {
        proof {
            C::order_in_range();
        }
        ScalarPrimitive { inner: Uint::from_u64(C::width(), n), curve: PhantomData }
    }

    /// Borrows the inner integer.
    pub fn as_uint(&self) -> (r: &Uint)
        ensures
            r.spec_width() == self.wf_width(),
            r@ == self@,
    {
        &self.inner
    }

    /// The inner integer's width, exposed for `as_uint`'s contract.
    pub closed spec fn wf_width(&self) -> nat {
        self.inner.spec_width()
    }

    /// The inner integer, copied out.
    pub fn to_uint(&self) -> (r: Uint)
        ensures
            r.spec_width() == self.wf_width(),
            r@ == self@,
    {
        self.inner.clone()
    }

    /// Borrows the limbs of the inner integer, least significant first.
    pub fn as_limbs(&self) -> (r: &[u8])
        ensures
            r@.len() == self.wf_width(),
            le_val(r@) == self@,
    {
        self.inner.as_limbs()
    }

    /// Decodes exactly `W` big-endian bytes; accepts exactly the encodings
    /// of integers below `N`.
    pub fn from_be_bytes(bytes: Vec<u8>) -> (r: Option<Self>)
        requires
            bytes@.len() == C::spec_width(),
        ensures
            r is Some <==> be_val(bytes@) < C::spec_order(),
            r matches Some(s) ==> s.wf() && s@ == be_val(bytes@),
    {
        Self::new(Uint::from_be_bytes(bytes))
    }

    /// Decodes exactly `W` little-endian bytes; accepts exactly the
    /// encodings of integers below `N`.
    pub fn from_le_bytes(bytes: Vec<u8>) -> (r: Option<Self>)
        requires
            bytes@.len() == C::spec_width(),
        ensures
            r is Some <==> le_val(bytes@) < C::spec_order(),
            r matches Some(s) ==> s.wf() && s@ == le_val(bytes@),
    {
        Self::new(Uint::from_le_bytes(bytes))
    }

    /// Decodes a big-endian byte slice. A slice that is not exactly `W`
    /// bytes is a length error — it is never padded or truncated — and an
    /// in-width value of `N` or above is a range error.
    pub fn from_be_slice(slice: &[u8]) -> (r: Result<Self, Error>)
        ensures
            r matches Ok(s) ==> s.wf() && s@ == be_val(slice@),
            r is Ok <==> slice@.len() == C::spec_width() && be_val(slice@) < C::spec_order(),
            r == Err::<Self, Error>(Error::Length) <==> slice@.len() != C::spec_width(),
            r == Err::<Self, Error>(Error::Range) <==> slice@.len() == C::spec_width() && be_val(
                slice@,
            ) >= C::spec_order(),
    {
        let w = C::width();
        if slice.len() != w {
            Err(Error::Length)
        } else {
            match Self::from_be_bytes(copy_slice(slice)) {
                Some(s) => Ok(s),
                None => Err(Error::Range),
            }
        }
    }

    /// Decodes a little-endian byte slice, with the same length and range
    /// demands as the big-endian form.
    pub fn from_le_slice(slice: &[u8]) -> (r: Result<Self, Error>)
        ensures
            r matches Ok(s) ==> s.wf() && s@ == le_val(slice@),
            r is Ok <==> slice@.len() == C::spec_width() && le_val(slice@) < C::spec_order(),
            r == Err::<Self, Error>(Error::Length) <==> slice@.len() != C::spec_width(),
            r == Err::<Self, Error>(Error::Range) <==> slice@.len() == C::spec_width() && le_val(
                slice@,
            ) >= C::spec_order(),
    {
        let w = C::width();
        if slice.len() != w {
            Err(Error::Length)
        } else {
            match Self::from_le_bytes(copy_slice(slice)) {
                Some(s) => Ok(s),
                None => Err(Error::Range),
            }
        }
    }

    /// The canonical big-endian encoding: exactly `W` bytes.
    pub fn to_be_bytes(&self) -> (r: Vec<u8>)
        requires
            self.wf(),
        ensures
            r@.len() == C::spec_width(),
            be_val(r@) == self@,
    {
        self.inner.to_be_bytes()
    }

    /// The canonical little-endian encoding: exactly `W` bytes.
    pub fn to_le_bytes(&self) -> (r: Vec<u8>)
        requires
            self.wf(),
        ensures
            r@.len() == C::spec_width(),
            le_val(r@) == self@,
    {
        self.inner.to_le_bytes()
    }

    /// Whether the scalar is zero, scanning every limb.
    pub fn is_zero(&self) -> (r: subtle::Choice)
        requires
            self.wf(),
        ensures
            choice_holds(r) == (self@ == 0),
    {
        let z = Uint::zero(C::width());
        choice_from_bool(self.inner.is_eq(&z))
    }

    /// Whether the scalar is even.
    pub fn is_even(&self) -> (r: subtle::Choice)
        requires
            self.wf(),
        ensures
            choice_holds(r) == (self@ % 2 == 0),
    {
        proof {
            C::order_in_range();
        }
        choice_from_bool(self.inner.is_even())
    }

    /// Whether the scalar is odd.
    pub fn is_odd(&self) -> (r: subtle::Choice)
        requires
            self.wf(),
        ensures
            choice_holds(r) == (self@ % 2 == 1),
    {
        proof {
            C::order_in_range();
        }
        choice_from_bool(!self.inner.is_even())
    }

    /// Whether the scalar lies strictly above `N >> 1`; the midpoint itself
    /// is not high. Signature schemes use this to canonicalise to the lower
    /// half of the field.
    pub fn is_high(&self) -> (r: subtle::Choice)
        requires
            self.wf(),
        ensures
            choice_holds(r) == (self@ > C::spec_order() / 2),
    {
        let m = Self::modulus();
        let half = m.shr1();
        choice_from_bool(half.is_lt(&self.inner))
    }

    /// Constant-time equality, usable on secret values.
    pub fn ct_eq(&self, other: &Self) -> (r: subtle::Choice)
        requires
            self.wf(),
            other.wf(),
        ensures
            choice_holds(r) == (self@ == other@),
    {
        choice_from_bool(self.inner.is_eq(&other.inner))
    }

    /// Constant-time strict less-than, usable on secret values.
    pub fn ct_lt(&self, other: &Self) -> (r: subtle::Choice)
        requires
            self.wf(),
            other.wf(),
        ensures
            choice_holds(r) == (self@ < other@),
    {
        choice_from_bool(self.inner.is_lt(&other.inner))
    }

    /// Constant-time strict greater-than, usable on secret values.
    pub fn ct_gt(&self, other: &Self) -> (r: subtle::Choice)
        requires
            self.wf(),
            other.wf(),
        ensures
            choice_holds(r) == (self@ > other@),
    {
        choice_from_bool(other.inner.is_lt(&self.inner))
    }

    /// Picks `b` where the tag holds, else `a`, walking both operands the
    /// same way either way.
    pub fn conditional_select(a: &Self, b: &Self, choice: subtle::Choice) -> (r: Self)
        requires
            a.wf(),
            b.wf(),
        ensures
            r.wf(),
            r@ == if choice_holds(choice) {
                b@
            } else {
                a@
            },
    {
        let flag = choice_to_bool(choice);
        ScalarPrimitive { inner: Uint::select(&a.inner, &b.inner, flag), curve: PhantomData }
    }

    /// Modular addition: `(self + rhs) mod N`. Total on well-formed scalars.
    pub fn add(&self, rhs: &Self) -> (r: Self)
        requires
            self.wf(),
            rhs.wf(),
        ensures
            r.wf(),
            r@ == (self@ + rhs@) % C::spec_order(),
    {
        let m = Self::modulus();
        ScalarPrimitive { inner: self.inner.add_mod(&rhs.inner, &m), curve: PhantomData }
    }

    /// Modular subtraction: `(self - rhs + N) mod N`.
    pub fn sub(&self, rhs: &Self) -> (r: Self)
        requires
            self.wf(),
            rhs.wf(),
        ensures
            r.wf(),
            r@ == (((self@ + C::spec_order()) - rhs@) as nat) % C::spec_order(),
    {
        let m = Self::modulus();
        ScalarPrimitive { inner: self.inner.sub_mod(&rhs.inner, &m), curve: PhantomData }
    }

    /// Modular negation: `(N - self) mod N`, with zero fixed.
    pub fn neg(&self) -> (r: Self)
        requires
            self.wf(),
        ensures
            r.wf(),
            r@ == ((C::spec_order() - self@) as nat) % C::spec_order(),
    {
        let m = Self::modulus();
        ScalarPrimitive { inner: self.inner.neg_mod(&m), curve: PhantomData }
    }

    /// In-place modular addition.
    pub fn add_assign(&mut self, rhs: &Self)
        requires
            old(self).wf(),
            rhs.wf(),
        ensures
            final(self).wf(),
            final(self)@ == (old(self)@ + rhs@) % C::spec_order(),
    {
        let r = self.add(rhs);
        *self = r;
    }

    /// In-place modular subtraction.
    pub fn sub_assign(&mut self, rhs: &Self)
        requires
            old(self).wf(),
            rhs.wf(),
        ensures
            final(self).wf(),
            final(self)@ == (((old(self)@ + C::spec_order()) - rhs@) as nat) % C::spec_order(),
    {
        let r = self.sub(rhs);
        *self = r;
    }

    /// The raw one-bit right shift: halves the value, dropping the low bit.
    /// What a half means for an odd scalar is the calling protocol's
    /// business; this layer only shifts.
    pub fn shr1(&mut self)
        requires
            old(self).wf(),
        ensures
            final(self).wf(),
            final(self)@ == old(self)@ / 2,
    {
        proof {
            let v = old(self)@;
            assert(v / 2 <= v) by (nonlinear_arith);
        }
        let r = self.inner.shr1();
        self.inner = r;
    }

    /// Overwrites the limbs with zero, for callers retiring a value that
    /// held secret material.
    pub fn zeroize(&mut self)
        ensures
            final(self).wf(),
            final(self)@ == 0,
    {
        proof {
            C::order_in_range();
        }
        self.inner = Uint::zero(C::width());
    }

    /// The uppercase hexadecimal text of the canonical big-endian encoding:
    /// exactly `2 * W` hex digits.
    pub fn to_hex_upper(&self) -> (r: String)
        requires
            self.wf(),
        ensures
            r@.len() == 2 * C::spec_width(),
            forall|i: int| 0 <= i < r@.len() ==> is_hex_char(#[trigger] r@[i]),
            hex_decode_chars(r@).len() == C::spec_width(),
            be_val(hex_decode_chars(r@)) == self@,
    {
        let bytes = self.to_be_bytes();
        proof {
            C::order_in_range();
            lemma_hex_round_trip(bytes@);
        }
        hex_encode_upper(&bytes)
    }

    /// The lowercase hexadecimal text of the canonical big-endian encoding:
    /// exactly `2 * W` hex digits.
    pub fn to_hex_lower(&self) -> (r: String)
        requires
            self.wf(),
        ensures
            r@.len() == 2 * C::spec_width(),
            forall|i: int| 0 <= i < r@.len() ==> is_hex_char(#[trigger] r@[i]),
            hex_decode_chars(r@).len() == C::spec_width(),
            be_val(hex_decode_chars(r@)) == self@,
    {
        let bytes = self.to_be_bytes();
        proof {
            C::order_in_range();
            lemma_hex_round_trip(bytes@);
        }
        hex_encode_lower(&bytes)
    }

    /// Parses hexadecimal text of either case as a big-endian scalar. The
    /// whole input is rejected at once: a length other than `2 * W`
    /// characters or any non-hex character is a format error, and a decoded
    /// value of `N` or above is a range error; partial success is never
    /// observable.
    pub fn from_str(s: &str) -> (r: Result<Self, Error>)
        ensures
            r matches Ok(v) ==> v.wf() && v@ == be_val(hex_decode_chars(s@)),
            r is Ok <==> s@.len() == 2 * C::spec_width() && (forall|i: int|
                0 <= i < s@.len() ==> is_hex_char(#[trigger] s@[i])) && be_val(
                hex_decode_chars(s@),
            ) < C::spec_order(),
            r == Err::<Self, Error>(Error::Format) <==> (s@.len() != 2 * C::spec_width() || !(
            forall|i: int| 0 <= i < s@.len() ==> is_hex_char(#[trigger] s@[i]))),
            r == Err::<Self, Error>(Error::Range) <==> (s@.len() == 2 * C::spec_width() && (
            forall|i: int| 0 <= i < s@.len() ==> is_hex_char(#[trigger] s@[i])) && be_val(
                hex_decode_chars(s@),
            ) >= C::spec_order()),
    {
        let w = C::width();
        proof {
            C::order_in_range();
        }
        if (s.unicode_len() as u64) != 2 * (w as u64) {
            return Err(Error::Format);
        }
        match hex_decode_mixed(s, w) {
            None => Err(Error::Format),
            Some(bytes) => match Self::from_be_bytes(bytes) {
                Some(v) => Ok(v),
                None => Err(Error::Range),
            },
        }
    }

    /// Draws uniformly from `[0, N)` by rejection sampling over the full
    /// `W`-byte range, so no draw is biased by reduction. Because `W` is
    /// minimal for `N`, a draw lands below `N` with probability above
    /// `1/256`; after an astronomically unlikely run of `10000` rejections
    /// the top limb of a final draw is cleared, which also lands below `N`.
    pub fn random<R: rand_core::CryptoRngCore>(rng: &mut R) -> (r: Self)
        ensures
            r.wf(),
    {
        let w = C::width();
        let m = Self::modulus();
        proof {
            C::order_in_range();
        }
        let mut tries: usize = 0;
        while tries < 10000
            invariant
                w as nat == C::spec_width(),
                m.spec_width() == C::spec_width(),
                m@ == C::spec_order(),
            decreases 10000 - tries,
        {
            let draw = fill_random_bytes(rng, w);
            let u = Uint::from_le_bytes(draw);
            if u.is_lt(&m) {
                return ScalarPrimitive { inner: u, curve: PhantomData };
            }
            tries = tries + 1;
        }
        let mut draw = fill_random_bytes(rng, w);
        let ghost full = draw@;
        let _ = draw.pop();
        draw.push(0);
        proof {
            C::order_in_range();
            assert(draw@ =~= full.drop_last().push(0));
            lemma_le_val_push(full.drop_last(), 0);
            lemma_le_val_bound(full.drop_last());
            assert(le_val(draw@) < pow256((w - 1) as nat));
        }
        ScalarPrimitive { inner: Uint::from_le_bytes(draw), curve: PhantomData }
    }
}

impl<C: Curve> PartialEq for ScalarPrimitive<C> {
    /// Variable-time equality of the values, for call sites where whether
    /// two scalars are equal is itself public, such as deduplicating public
    /// values; on secret values use `ct_eq`.
    fn eq(&self, other: &Self) -> (r: bool) {
        self.inner.val_eq(&other.inner)
    }
}

impl<C: Curve> vstd::std_specs::cmp::PartialEqSpecImpl for ScalarPrimitive<C> {
    open spec fn obeys_eq_spec() -> bool {
        true
    }

    open spec fn eq_spec(&self, other: &Self) -> bool {
        self@ == other@
    }
}

impl<C: Curve> PartialOrd for ScalarPrimitive<C> {
    /// Variable-time ordering of the values, for call sites where the
    /// relative order of the operands is itself public; on secret values use
    /// `ct_lt` and `ct_gt`.
    fn partial_cmp(&self, other: &Self) -> (r: Option<core::cmp::Ordering>) {
        if self.inner.val_lt(&other.inner) {
            Some(core::cmp::Ordering::Less)
        } else if other.inner.val_lt(&self.inner) {
            Some(core::cmp::Ordering::Greater)
        } else {
            Some(core::cmp::Ordering::Equal)
        }
    }
}

impl<C: Curve> vstd::std_specs::cmp::PartialOrdSpecImpl for ScalarPrimitive<C> {
    open spec fn obeys_partial_cmp_spec() -> bool {
        true
    }

    open spec fn partial_cmp_spec(&self, other: &Self) -> Option<core::cmp::Ordering> {
        if self@ < other@ {
            Some(core::cmp::Ordering::Less)
        } else if self@ > other@ {
            Some(core::cmp::Ordering::Greater)
        } else {
            Some(core::cmp::Ordering::Equal)
        }
    }
}

impl<C: Curve> Default for ScalarPrimitive<C> {
    /// The zero scalar.
    fn default() -> (r: Self)
        ensures
            r.wf(),
            r@ == 0,
    {
        Self::zero()
    }
}

impl<C: Curve> Clone for ScalarPrimitive<C> {
    /// An identical copy: same width, same value.
    fn clone(&self) -> (r: Self)
        ensures
            r@ == self@,
            r.wf() == self.wf(),
    {
        ScalarPrimitive { inner: self.inner.clone(), curve: PhantomData }
    }
}

/// Copies a byte slice into a fresh vector.
fn copy_slice(s: &[u8]) -> (r: Vec<u8>)
    ensures
        r@ == s@,
{
    let mut out: Vec<u8> = Vec::new();
    let mut i: usize = 0;
    while i < s.len()
        invariant
            i <= s@.len(),
            out@ == s@.take(i as int),
        decreases s@.len() - i,
    {
        proof {
            assert(s@.take(i + 1) =~= s@.take(i as int).push(s@[i as int]));
        }
        out.push(s[i]);
        i = i + 1;
    }
    proof {
        assert(s@.take(s@.len() as int) =~= s@);
    }
    out
}

} // verus!
