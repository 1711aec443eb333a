//! A 256-bit unsigned integer held as four 64-bit little-endian limbs, with
//! checked arithmetic, comparison, little-endian byte encoding and decimal
//! rendering, all specified against the number the limbs denote.

use vstd::prelude::*;
use vstd::bytes::{spec_u64_to_le_bytes, u64_to_le_bytes};
use vstd::string::StringExecFns;

verus! {

/// 2^64, the weight of one limb.
pub const LIMB_BOUND: u128 = 0x10000000000000000;

/// A 256-bit unsigned integer; limb 0 is least significant.
#[derive(Clone, Copy, Debug, PartialEq, Eq)]
pub struct U256(pub [u64; 4]);

/// 2^256, the first value a `U256` cannot hold.
pub open spec fn u256_bound() -> nat {
    0x10000000000000000000000000000000000000000000000000000000000000000nat
}

/// The number four little-endian 64-bit limbs denote.
pub open spec fn limbs_nat(a0: u64, a1: u64, a2: u64, a3: u64) -> int {
    a0 + 0x10000000000000000 * (a1 + 0x10000000000000000 * (a2 + 0x10000000000000000 * (
    a3 as int)))
}

impl U256 {
    /// The number these limbs denote.
    pub open spec fn as_nat(self) -> nat {
        limbs_nat(self.0@[0], self.0@[1], self.0@[2], self.0@[3]) as nat
    }

    pub fn zero() -> (r: U256)
        ensures
            r.as_nat() == 0,
    {
        U256([0, 0, 0, 0])
    }

    pub fn from_u64(n: u64) -> (r: U256)
        ensures
            r.as_nat() == n,
    {
        U256([n, 0, 0, 0])
    }

    pub fn is_zero(&self) -> (r: bool)
        ensures
            r == (self.as_nat() == 0),
    {
        self.0[0] == 0 && self.0[1] == 0 && self.0[2] == 0 && self.0[3] == 0
    }

    /// Limb-wise equality; limbs denote their number uniquely, so this is
    /// equality of the denoted numbers.
    pub fn equals(&self, other: &U256) -> (r: bool)
        ensures
            r == (self.as_nat() == other.as_nat()),
    {
        proof {
            lemma_limbs_unique(*self, *other);
        }
        self.0[0] == other.0[0] && self.0[1] == other.0[1] && self.0[2] == other.0[2]
            && self.0[3] == other.0[3]
    }

    /// The sum, or `None` when it does not fit in 256 bits.
    pub fn checked_add(&self, other: &U256) -> (r: Option<U256>)
        ensures
            match r {
                Some(v) => v.as_nat() == self.as_nat() + other.as_nat(),
                None => self.as_nat() + other.as_nat() >= u256_bound(),
            },
    {
        let a = &self.0;
        let b = &other.0;
        let s0: u128 = a[0] as u128 + b[0] as u128;
        let (r0, c0): (u64, u64) = if s0 >= LIMB_BOUND {
            ((s0 - LIMB_BOUND) as u64, 1)
        } else {
            (s0 as u64, 0)
        };
        let s1: u128 = a[1] as u128 + b[1] as u128 + c0 as u128;
        let (r1, c1): (u64, u64) = if s1 >= LIMB_BOUND {
            ((s1 - LIMB_BOUND) as u64, 1)
        } else {
            (s1 as u64, 0)
        };
        let s2: u128 = a[2] as u128 + b[2] as u128 + c1 as u128;
        let (r2, c2): (u64, u64) = if s2 >= LIMB_BOUND {
            ((s2 - LIMB_BOUND) as u64, 1)
        } else {
            (s2 as u64, 0)
        };
        let s3: u128 = a[3] as u128 + b[3] as u128 + c2 as u128;
        let (r3, c3): (u64, u64) = if s3 >= LIMB_BOUND {
            ((s3 - LIMB_BOUND) as u64, 1)
        } else {
            (s3 as u64, 0)
        };
        let sum = U256([r0, r1, r2, r3]);
        if c3 == 1 {
            None
        } else {
            Some(sum)
        }
    }

    /// The difference, or `None` when `other` exceeds `self`.
    pub fn checked_sub(&self, other: &U256) -> (r: Option<U256>)
        ensures
            match r {
                Some(v) => self.as_nat() >= other.as_nat() && v.as_nat() == self.as_nat()
                    - other.as_nat(),
                None => self.as_nat() < other.as_nat(),
            },
    {
        let a = &self.0;
        let b = &other.0;
        let m0: u128 = b[0] as u128;
        let (r0, w0): (u64, u64) = if a[0] as u128 >= m0 {
            ((a[0] as u128 - m0) as u64, 0)
        } else {
            ((a[0] as u128 + LIMB_BOUND - m0) as u64, 1)
        };
        let m1: u128 = b[1] as u128 + w0 as u128;
        let (r1, w1): (u64, u64) = if a[1] as u128 >= m1 {
            ((a[1] as u128 - m1) as u64, 0)
        } else {
            ((a[1] as u128 + LIMB_BOUND - m1) as u64, 1)
        };
        let m2: u128 = b[2] as u128 + w1 as u128;
        let (r2, w2): (u64, u64) = if a[2] as u128 >= m2 {
            ((a[2] as u128 - m2) as u64, 0)
        } else {
            ((a[2] as u128 + LIMB_BOUND - m2) as u64, 1)
        };
        let m3: u128 = b[3] as u128 + w2 as u128;
        let (r3, w3): (u64, u64) = if a[3] as u128 >= m3 {
            ((a[3] as u128 - m3) as u64, 0)
        } else {
            ((a[3] as u128 + LIMB_BOUND - m3) as u64, 1)
        };
        let diff = U256([r0, r1, r2, r3]);
        if w3 == 1 {
            None
        } else {
            Some(diff)
        }
    }

    /// Whether `self` is at least `other`.
    pub fn ge(&self, other: &U256) -> (r: bool)
        ensures
            r == (self.as_nat() >= other.as_nat()),
    {
        self.checked_sub(other).is_some()
    }

    /// The 32 little-endian bytes of the value: each limb's 8 bytes in turn,
    /// least-significant limb first.
    pub open spec fn spec_le_bytes(self) -> Seq<u8> {
        spec_u64_to_le_bytes(self.0@[0]) + spec_u64_to_le_bytes(self.0@[1]) + spec_u64_to_le_bytes(
            self.0@[2],
        ) + spec_u64_to_le_bytes(self.0@[3])
    }

    pub fn le_bytes(&self) -> (r: Vec<u8>)
        ensures
            r@ == self.spec_le_bytes(),
            r@.len() == 32,
    {
        let mut out = u64_to_le_bytes(self.0[0]);
        let mut b1 = u64_to_le_bytes(self.0[1]);
        let mut b2 = u64_to_le_bytes(self.0[2]);
        let mut b3 = u64_to_le_bytes(self.0[3]);
        out.append(&mut b1);
        out.append(&mut b2);
        out.append(&mut b3);
        out
    }

    /// Quotient and remainder of division by ten.
    fn div10(&self) -> (r: (U256, u64))
        ensures
            r.1 < 10,
            r.0.as_nat() * 10 + r.1 == self.as_nat(),
    {
        let a = &self.0;
        let c3: u128 = a[3] as u128;
        let q3: u64 = (c3 / 10) as u64;
        let t3: u64 = (c3 % 10) as u64;
        let c2: u128 = (t3 as u128) * LIMB_BOUND + a[2] as u128;
        let q2: u64 = (c2 / 10) as u64;
        let t2: u64 = (c2 % 10) as u64;
        let c1: u128 = (t2 as u128) * LIMB_BOUND + a[1] as u128;
        let q1: u64 = (c1 / 10) as u64;
        let t1: u64 = (c1 % 10) as u64;
        let c0: u128 = (t1 as u128) * LIMB_BOUND + a[0] as u128;
        let q0: u64 = (c0 / 10) as u64;
        let t0: u64 = (c0 % 10) as u64;
        let q = U256([q0, q1, q2, q3]);
        (q, t0)
    }

    /// Appends the decimal digits of the value to `out`.
    fn push_decimal(&self, out: &mut String)
        ensures
            final(out)@ == old(out)@ + spec_decimal(self.as_nat()),
        decreases self.as_nat(),
    {
        let (q, d) = self.div10();
        if q.is_zero() {
            out.append(decimal_digit_str(d));
        } else {
            q.push_decimal(out);
            out.append(decimal_digit_str(d));
        }
    }

    /// The value written in decimal, with no leading zeros (a lone zero for
    /// the value zero).
    pub fn to_decimal_string(&self) -> (s: String)
        ensures
            s@ == spec_decimal(self.as_nat()),
    {
        let mut s = String::new();
        self.push_decimal(&mut s);
        s
    }
}

/// The decimal digit character for `d`.
pub open spec fn spec_digit_char(d: nat) -> char {
    if d == 0 {
        '0'
    } else if d == 1 {
        '1'
    } else if d == 2 {
        '2'
    } else if d == 3 {
        '3'
    } else if d == 4 {
        '4'
    } else if d == 5 {
        '5'
    } else if d == 6 {
        '6'
    } else if d == 7 {
        '7'
    } else if d == 8 {
        '8'
    } else {
        '9'
    }
}

/// The decimal digits of `n`, most significant first.
pub open spec fn spec_decimal(n: nat) -> Seq<char>
    decreases n,
{
    if n < 10 {
        seq![spec_digit_char(n)]
    } else {
        spec_decimal(n / 10).push(spec_digit_char(n % 10))
    }
}

fn decimal_digit_str(d: u64) -> (s: &'static str)
    requires
        d < 10,
    ensures
        s@ == seq![spec_digit_char(d as nat)],
{
    proof {
        reveal_strlit("0");
        reveal_strlit("1");
        reveal_strlit("2");
        reveal_strlit("3");
        reveal_strlit("4");
        reveal_strlit("5");
        reveal_strlit("6");
        reveal_strlit("7");
        reveal_strlit("8");
        reveal_strlit("9");
    }
    let r = match d {
        0 => "0",
        1 => "1",
        2 => "2",
        3 => "3",
        4 => "4",
        5 => "5",
        6 => "6",
        7 => "7",
        8 => "8",
        _ => "9",
    };
    proof {
        assert(r@ =~= seq![spec_digit_char(d as nat)]);
    }
    r
}

proof fn lemma_digit_char_injective(a: nat, b: nat)
    requires
        a < 10,
        b < 10,
        spec_digit_char(a) == spec_digit_char(b),
    ensures
        a == b,
{
}

/// The decimal rendering has at least one digit, and at least two for
/// values of ten or more.
pub proof fn lemma_spec_decimal_len(n: nat)
    ensures
        spec_decimal(n).len() >= 1,
        n >= 10 ==> spec_decimal(n).len() >= 2,
    decreases n,
{
    if n >= 10 {
        lemma_spec_decimal_len(n / 10);
    }
}

/// Decimal renderings are unique: equal digit strings denote equal numbers.
pub proof fn lemma_spec_decimal_injective(a: nat, b: nat)
    requires
        spec_decimal(a) == spec_decimal(b),
    ensures
        a == b,
    decreases a,
{
    lemma_spec_decimal_len(a);
    lemma_spec_decimal_len(b);
    if a < 10 && b < 10 {
        assert(spec_decimal(a) == seq![spec_digit_char(a)]);
        assert(spec_decimal(b) == seq![spec_digit_char(b)]);
        assert(spec_digit_char(a) == spec_decimal(a)[0]);
        assert(spec_digit_char(b) == spec_decimal(b)[0]);
        lemma_digit_char_injective(a, b);
    } else if a >= 10 && b >= 10 {
        assert(spec_decimal(a) == spec_decimal(a / 10).push(spec_digit_char(a % 10)));
        assert(spec_decimal(b) == spec_decimal(b / 10).push(spec_digit_char(b % 10)));
        assert(spec_digit_char(a % 10) == spec_decimal(a).last());
        assert(spec_digit_char(b % 10) == spec_decimal(b).last());
        lemma_digit_char_injective(a % 10, b % 10);
        assert(spec_decimal(a).drop_last() =~= spec_decimal(a / 10));
        assert(spec_decimal(b).drop_last() =~= spec_decimal(b / 10));
        assert(spec_decimal(a).drop_last() == spec_decimal(b).drop_last());
        lemma_spec_decimal_injective(a / 10, b / 10);
        vstd::arithmetic::div_mod::lemma_fundamental_div_mod(a as int, 10);
        vstd::arithmetic::div_mod::lemma_fundamental_div_mod(b as int, 10);
    }
    // the remaining cases pit a one-digit string against a longer one,
    // contradicting the hypothesis
}

/// Two limb vectors denoting the same number are limb-wise equal: the
/// base-2^64 representation is unique.
pub proof fn lemma_limbs_unique(x: U256, y: U256)
    ensures
        x.as_nat() == y.as_nat() <==> x.0@ =~= y.0@,
{
    if x.as_nat() == y.as_nat() {
        assert(x.0@[0] == y.0@[0] && x.0@[1] == y.0@[1] && x.0@[2] == y.0@[2] && x.0@[3]
            == y.0@[3]) by {
            lemma_limb_split(x.0@[0], x.0@[1], x.0@[2], x.0@[3], y.0@[0], y.0@[1], y.0@[2], y.0@[3]);
        }
        assert(x.0@ =~= y.0@);
    }
}

/// Uniqueness of the base-2^64 representation, limb by limb.
proof fn lemma_limb_split(a0: u64, a1: u64, a2: u64, a3: u64, b0: u64, b1: u64, b2: u64, b3: u64)
    requires
        limbs_nat(a0, a1, a2, a3) == limbs_nat(b0, b1, b2, b3),
    ensures
        a0 == b0 && a1 == b1 && a2 == b2 && a3 == b3,
{
    let ra: int = a1 + 0x10000000000000000 * (a2 + 0x10000000000000000 * (a3 as int));
    let rb: int = b1 + 0x10000000000000000 * (b2 + 0x10000000000000000 * (b3 as int));
    assert(a0 + 0x10000000000000000 * ra == b0 + 0x10000000000000000 * rb);
    assert(ra == rb && a0 == b0) by {
        lemma_digit_unique(a0 as int, ra, b0 as int, rb);
    }
    let sa: int = a2 + 0x10000000000000000 * a3;
    let sb: int = b2 + 0x10000000000000000 * b3;
    assert(sa == sb && a1 == b1) by {
        lemma_digit_unique(a1 as int, sa, b1 as int, sb);
    }
    assert(a3 == b3 && a2 == b2) by {
        lemma_digit_unique(a2 as int, a3 as int, b2 as int, b3 as int);
    }
}

/// If `lo + 2^64 * hi == lo' + 2^64 * hi'` with both low parts below 2^64,
/// the parts agree.
proof fn lemma_digit_unique(lo_a: int, hi_a: int, lo_b: int, hi_b: int)
    requires
        0 <= lo_a < 0x10000000000000000,
        0 <= lo_b < 0x10000000000000000,
        lo_a + 0x10000000000000000 * hi_a == lo_b + 0x10000000000000000 * hi_b,
    ensures
        lo_a == lo_b,
        hi_a == hi_b,
{
    let d: int = hi_a - hi_b;
    assert(lo_b - lo_a == 0x10000000000000000 * d) by (nonlinear_arith)
        requires
            lo_a + 0x10000000000000000 * hi_a == lo_b + 0x10000000000000000 * hi_b,
            d == hi_a - hi_b,
    ;
    assert(-0x10000000000000000 < lo_b - lo_a < 0x10000000000000000);
    assert(d == 0) by (nonlinear_arith)
        requires
            lo_b - lo_a == 0x10000000000000000 * d,
            -0x10000000000000000 < lo_b - lo_a < 0x10000000000000000,
    ;
}

} // verus!
