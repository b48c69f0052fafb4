use scalar_primitive::curves::Secp256k1;
use scalar_primitive::curves::TinyOdd;
use scalar_primitive::Error;
use scalar_primitive::ScalarPrimitive;

const TINY_ODD_N: u64 = 61453;

fn val(s: &ScalarPrimitive<TinyOdd>) -> u64 {
    let b = s.to_le_bytes();
    b[0] as u64 + 256 * b[1] as u64
}

fn tiny(n: u64) -> ScalarPrimitive<TinyOdd> {
    assert!(n < TINY_ODD_N);
    ScalarPrimitive::<TinyOdd>::from_u64(n)
}

#[test]
fn hex_text_has_expected_form() {
    let s = tiny(0xab);
    assert_eq!(s.to_hex_upper(), "00AB");
    assert_eq!(s.to_hex_lower(), "00ab");
    let one = ScalarPrimitive::<Secp256k1>::one();
    assert_eq!(
        one.to_hex_upper(),
        "0000000000000000000000000000000000000000000000000000000000000001"
    );
}

#[test]
fn parse_round_trips_both_cases() {
    let mut n: u64 = 0;
    while n < TINY_ODD_N {
        let s = tiny(n);
        let up = ScalarPrimitive::<TinyOdd>::from_str(&s.to_hex_upper()).unwrap();
        assert!(up == s);
        let lo = ScalarPrimitive::<TinyOdd>::from_str(&s.to_hex_lower()).unwrap();
        assert!(lo == s);
        n += 211;
    }
    let big = ScalarPrimitive::<Secp256k1>::from_str(
        "00FFFFFFFFFFFFFFFFFFFFFFFFFFFFFEBAAEDCE6AF48A03BBFD25E8CD0364141",
    )
    .unwrap();
    let back = ScalarPrimitive::<Secp256k1>::from_str(&big.to_hex_lower()).unwrap();
    assert!(back == big);
}

#[test]
fn parse_rejects_malformed_text() {
    // Wrong length: never padded or truncated.
    assert_eq!(
        ScalarPrimitive::<TinyOdd>::from_str("abc").unwrap_err(),
        Error::Format
    );
    assert_eq!(
        ScalarPrimitive::<TinyOdd>::from_str("00abcd").unwrap_err(),
        Error::Format
    );
    assert_eq!(
        ScalarPrimitive::<TinyOdd>::from_str("").unwrap_err(),
        Error::Format
    );
    // Non-hex characters, anywhere.
    assert_eq!(
        ScalarPrimitive::<TinyOdd>::from_str("zzzz").unwrap_err(),
        Error::Format
    );
    assert_eq!(
        ScalarPrimitive::<TinyOdd>::from_str("0g00").unwrap_err(),
        Error::Format
    );
    assert_eq!(
        ScalarPrimitive::<TinyOdd>::from_str("00é0").unwrap_err(),
        Error::Format
    );
    // Well-formed hex at or above N.
    assert_eq!(
        ScalarPrimitive::<TinyOdd>::from_str("F00D").unwrap_err(),
        Error::Range
    );
    assert_eq!(
        ScalarPrimitive::<TinyOdd>::from_str("ffff").unwrap_err(),
        Error::Range
    );
    // One below N parses.
    assert_eq!(
        val(&ScalarPrimitive::<TinyOdd>::from_str("F00C").unwrap()),
        TINY_ODD_N - 1
    );
}

struct TestRng(u64);

impl rand_core::RngCore for TestRng {
    fn next_u32(&mut self) -> u32 {
        self.next_u64() as u32
    }

    fn next_u64(&mut self) -> u64 {
        let mut x = self.0;
        x ^= x << 13;
        x ^= x >> 7;
        x ^= x << 17;
        self.0 = x;
        x
    }

    fn fill_bytes(&mut self, dest: &mut [u8]) {
        for chunk in dest.chunks_mut(8) {
            let v = self.next_u64().to_le_bytes();
            for (d, s) in chunk.iter_mut().zip(v.iter()) {
                *d = *s;
            }
        }
    }

    fn try_fill_bytes(&mut self, dest: &mut [u8]) -> Result<(), rand_core::Error> {
        self.fill_bytes(dest);
        Ok(())
    }
}

impl rand_core::CryptoRng for TestRng {}

#[test]
fn random_is_in_range_and_roughly_uniform() {
    let mut rng = TestRng(0x1234_5678_9abc_def1);
    let trials = 10000usize;
    let buckets = 16usize;
    let mut counts = vec![0u64; buckets];
    for _ in 0..trials {
        let s = ScalarPrimitive::<TinyOdd>::random(&mut rng);
        let v = val(&s);
        assert!(v < TINY_ODD_N);
        let b = (v as usize * buckets) / TINY_ODD_N as usize;
        counts[b] += 1;
    }
    // Chi-square against uniform over 16 buckets: 15 degrees of freedom,
    // 99.9th percentile is about 37.7.
    let expected = trials as f64 / buckets as f64;
    let mut stat = 0.0f64;
    for c in counts {
        let d = c as f64 - expected;
        stat += d * d / expected;
    }
    assert!(stat < 37.7, "chi-square statistic too large: {stat}");
}

#[test]
fn random_is_in_range_on_secp256k1() {
    let mut rng = TestRng(42);
    let m = ScalarPrimitive::<Secp256k1>::modulus();
    for _ in 0..100 {
        let s = ScalarPrimitive::<Secp256k1>::random(&mut rng);
        assert!(s.to_uint().val_lt(&m));
    }
}
