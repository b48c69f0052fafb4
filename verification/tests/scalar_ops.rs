use scalar_primitive::curves::Secp256k1;
use scalar_primitive::curves::TinyEven;
use scalar_primitive::curves::TinyOdd;
use scalar_primitive::Error;
use scalar_primitive::ScalarPrimitive;
use scalar_primitive::Uint;

const TINY_ODD_N: u64 = 61453;

fn val(s: &ScalarPrimitive<TinyOdd>) -> u64 {
    let b = s.to_le_bytes();
    b[0] as u64 + 256 * b[1] as u64
}

fn tiny(n: u64) -> ScalarPrimitive<TinyOdd> {
    assert!(n < TINY_ODD_N);
    ScalarPrimitive::<TinyOdd>::from_u64(n)
}

#[test]
fn constants_and_predicates() {
    let z = ScalarPrimitive::<TinyOdd>::zero();
    let o = ScalarPrimitive::<TinyOdd>::one();
    assert_eq!(val(&z), 0);
    assert_eq!(val(&o), 1);
    assert!(bool::from(z.is_zero()));
    assert!(!bool::from(o.is_zero()));
    assert!(bool::from(z.is_even()));
    assert!(!bool::from(z.is_odd()));
    assert!(bool::from(o.is_odd()));
    assert!(!bool::from(o.is_even()));
    let m = ScalarPrimitive::<TinyOdd>::modulus();
    assert_eq!(m.to_be_bytes(), vec![0xf0, 0x0d]);
}

#[test]
fn be_le_round_trip_tiny() {
    let mut n: u64 = 0;
    while n < TINY_ODD_N {
        let s = tiny(n);
        let be = s.to_be_bytes();
        assert_eq!(be.len(), 2);
        let back = ScalarPrimitive::<TinyOdd>::from_be_bytes(be).unwrap();
        assert!(back == s);
        let le = s.to_le_bytes();
        assert_eq!(le.len(), 2);
        let back = ScalarPrimitive::<TinyOdd>::from_le_bytes(le).unwrap();
        assert!(back == s);
        n += 97;
    }
    let top = tiny(TINY_ODD_N - 1);
    let back = ScalarPrimitive::<TinyOdd>::from_be_bytes(top.to_be_bytes()).unwrap();
    assert_eq!(val(&back), TINY_ODD_N - 1);
}

#[test]
fn be_round_trip_secp256k1() {
    let one = ScalarPrimitive::<Secp256k1>::one();
    let be = one.to_be_bytes();
    assert_eq!(be.len(), 32);
    assert_eq!(be[31], 1);
    assert_eq!(be[0], 0);
    let back = ScalarPrimitive::<Secp256k1>::from_be_bytes(be).unwrap();
    assert!(back == one);
    let le = one.to_le_bytes();
    assert_eq!(le[0], 1);
    let back = ScalarPrimitive::<Secp256k1>::from_le_bytes(le).unwrap();
    assert!(back == one);
}

#[test]
fn arithmetic_matches_reference() {
    let mut a: u64 = 0;
    while a < TINY_ODD_N {
        let sa = tiny(a);
        let mut b: u64 = 1;
        while b < TINY_ODD_N {
            let sb = tiny(b);
            assert_eq!(val(&sa.add(&sb)), (a + b) % TINY_ODD_N);
            assert_eq!(val(&sa.sub(&sb)), (a + TINY_ODD_N - b) % TINY_ODD_N);
            b += 4703;
        }
        assert_eq!(val(&sa.neg()), (TINY_ODD_N - a) % TINY_ODD_N);
        a += 523;
    }
}

#[test]
fn add_zero_and_add_neg() {
    let z = ScalarPrimitive::<TinyOdd>::zero();
    let mut a: u64 = 0;
    while a < TINY_ODD_N {
        let sa = tiny(a);
        assert_eq!(val(&sa.add(&z)), a);
        assert_eq!(val(&sa.add(&sa.neg())), 0);
        a += 131;
    }
}

#[test]
fn assign_forms() {
    let mut s = tiny(100);
    s.add_assign(&tiny(61400));
    assert_eq!(val(&s), (100 + 61400) % TINY_ODD_N);
    s.sub_assign(&tiny(61400));
    assert_eq!(val(&s), 100);
}

#[test]
fn shr1_halves() {
    let mut s = tiny(13);
    s.shr1();
    assert_eq!(val(&s), 6);
    let mut s = tiny(61452);
    s.shr1();
    assert_eq!(val(&s), 30726);
}

#[test]
fn is_high_around_half_odd_modulus() {
    // N = 61453 is odd; HALF = N >> 1 = 30726.
    let half = tiny(30726);
    assert!(!bool::from(half.is_high()));
    let above = tiny(30727);
    assert!(bool::from(above.is_high()));
    assert!(!bool::from(ScalarPrimitive::<TinyOdd>::zero().is_high()));
    assert!(bool::from(tiny(TINY_ODD_N - 1).is_high()));
}

#[test]
fn is_high_around_half_even_modulus() {
    // N = 48878 is even; HALF = N >> 1 = 24439.
    let half = ScalarPrimitive::<TinyEven>::from_u64(24439);
    assert!(!bool::from(half.is_high()));
    let above = ScalarPrimitive::<TinyEven>::from_u64(24440);
    assert!(bool::from(above.is_high()));
}

#[test]
fn modulus_encoding_is_rejected_with_range_error() {
    // The W-byte big-endian encoding of N itself must fail as out of range.
    let r = ScalarPrimitive::<TinyOdd>::from_be_slice(&[0xf0, 0x0d]);
    assert_eq!(r.unwrap_err(), Error::Range);
    let n_be: [u8; 32] = [
        0xff, 0xff, 0xff, 0xff, 0xff, 0xff, 0xff, 0xff, 0xff, 0xff, 0xff, 0xff, 0xff, 0xff, 0xff,
        0xfe, 0xba, 0xae, 0xdc, 0xe6, 0xaf, 0x48, 0xa0, 0x3b, 0xbf, 0xd2, 0x5e, 0x8c, 0xd0, 0x36,
        0x41, 0x41,
    ];
    let r = ScalarPrimitive::<Secp256k1>::from_be_slice(&n_be);
    assert_eq!(r.unwrap_err(), Error::Range);
    // One below N decodes.
    let mut below = n_be;
    below[31] = 0x40;
    assert!(ScalarPrimitive::<Secp256k1>::from_be_slice(&below).is_ok());
}

#[test]
fn wrong_width_slices_are_length_errors() {
    let r = ScalarPrimitive::<TinyOdd>::from_be_slice(&[1]);
    assert_eq!(r.unwrap_err(), Error::Length);
    let r = ScalarPrimitive::<TinyOdd>::from_be_slice(&[0, 0, 1]);
    assert_eq!(r.unwrap_err(), Error::Length);
    let r = ScalarPrimitive::<TinyOdd>::from_le_slice(&[1]);
    assert_eq!(r.unwrap_err(), Error::Length);
    let r = ScalarPrimitive::<TinyOdd>::from_le_slice(&[1, 0, 0]);
    assert_eq!(r.unwrap_err(), Error::Length);
    let r = ScalarPrimitive::<Secp256k1>::from_be_slice(&[0u8; 31]);
    assert_eq!(r.unwrap_err(), Error::Length);
    let r = ScalarPrimitive::<Secp256k1>::from_be_slice(&[0u8; 33]);
    assert_eq!(r.unwrap_err(), Error::Length);
}

#[test]
fn slice_decoding_round_trips() {
    let s = tiny(0x1234);
    let be = s.to_be_bytes();
    let back = ScalarPrimitive::<TinyOdd>::from_be_slice(&be).unwrap();
    assert_eq!(val(&back), 0x1234);
    let le = s.to_le_bytes();
    let back = ScalarPrimitive::<TinyOdd>::from_le_slice(&le).unwrap();
    assert_eq!(val(&back), 0x1234);
}

#[test]
fn ordering_wrapper_and_ct_comparisons_agree() {
    let a = tiny(100);
    let b = tiny(30000);
    let c = tiny(61452);
    assert!(a < b && b < c && a < c);
    assert!(c > a);
    assert!(a.partial_cmp(&b) == Some(std::cmp::Ordering::Less));
    assert!(b.partial_cmp(&b) == Some(std::cmp::Ordering::Equal));
    assert!(c.partial_cmp(&b) == Some(std::cmp::Ordering::Greater));
    let mut x: u64 = 0;
    while x < TINY_ODD_N {
        let sx = tiny(x);
        let mut y: u64 = 0;
        while y < TINY_ODD_N {
            let sy = tiny(y);
            assert_eq!(bool::from(sx.ct_eq(&sy)), sx == sy);
            assert_eq!(bool::from(sx.ct_lt(&sy)), sx < sy);
            assert_eq!(bool::from(sx.ct_gt(&sy)), sx > sy);
            y += 6421;
        }
        x += 5443;
    }
}

#[test]
fn conditional_select_picks_by_tag() {
    let a = tiny(7);
    let b = tiny(8);
    let keep = ScalarPrimitive::conditional_select(&a, &b, subtle::Choice::from(0));
    assert_eq!(val(&keep), 7);
    let swap = ScalarPrimitive::conditional_select(&a, &b, subtle::Choice::from(1));
    assert_eq!(val(&swap), 8);
}

#[test]
fn uint_construction_and_views() {
    let u = Uint::from_u64(4, 0x01020304);
    assert_eq!(u.to_be_bytes(), vec![1, 2, 3, 4]);
    assert_eq!(u.to_le_bytes(), vec![4, 3, 2, 1]);
    assert_eq!(u.as_limbs().to_vec(), vec![4u8, 3, 2, 1]);
    assert_eq!(u.width(), 4);
    let narrow = Uint::from_u64(2, 0x0304);
    assert!(narrow.val_lt(&u));
    assert!(!u.val_lt(&narrow));
    let wide = Uint::from_u64(6, 0x01020304);
    assert!(wide.val_eq(&u));
    assert!(!wide.val_eq(&narrow));
}

#[test]
fn new_and_unchecked_constructors() {
    let ok = Uint::from_u64(2, TINY_ODD_N - 1);
    let s = ScalarPrimitive::<TinyOdd>::new(ok).unwrap();
    assert_eq!(val(&s), TINY_ODD_N - 1);
    let bad = Uint::from_u64(2, TINY_ODD_N);
    assert!(ScalarPrimitive::<TinyOdd>::new(bad).is_none());
    let trusted = ScalarPrimitive::<TinyOdd>::from_uint_unchecked(Uint::from_u64(2, 42));
    assert_eq!(val(&trusted), 42);
    assert_eq!(trusted.as_uint().to_le_bytes(), vec![42, 0]);
    assert_eq!(trusted.to_uint().to_be_bytes(), vec![0, 42]);
    assert_eq!(trusted.as_limbs().to_vec(), vec![42u8, 0]);
}

#[test]
fn zeroize_clears_the_value() {
    let mut s = tiny(0x3039);
    s.zeroize();
    assert_eq!(val(&s), 0);
    assert_eq!(s.to_le_bytes(), vec![0, 0]);
}

#[test]
fn clone_copies_the_value() {
    let s = tiny(321);
    let t = s.clone();
    assert!(s == t);
    assert_eq!(val(&t), 321);
}
