//! Account balances: fixed-point decimals serialized as ASCII bytes such as
//! `100.0`. A balance keeps the written scale (number of fractional digits,
//! one to nine); its value is modelled as an integer count of nano-units
//! (the value scaled by ten to the ninth). Zero is canonically `0.0`.

use vstd::prelude::*;

use vstd::arithmetic::mul::{
    lemma_mul_inequality,
    lemma_mul_is_distributive_add_other_way,
    lemma_mul_is_distributive_sub_other_way,
    lemma_mul_is_associative,
    lemma_mul_strictly_positive,
};

verus! {

/// The ASCII minus sign.
pub const MINUS_BYTE: u8 = 0x2d;

/// The ASCII decimal point.
pub const DOT_BYTE: u8 = 0x2e;

/// The ASCII digit zero.
pub const DIGIT_ZERO: u8 = 0x30;

/// Ten to the `n`th power.
pub open spec fn pow10(n: nat) -> int
    decreases n,
{
    if n == 0 {
        1
    } else {
        10 * pow10((n - 1) as nat)
    }
}

pub proof fn lemma_pow10_pos(n: nat)
    ensures
        pow10(n) >= 1,
    decreases n,
{
    if n > 0 {
        lemma_pow10_pos((n - 1) as nat);
    }
}

pub proof fn lemma_pow10_mono(a: nat, b: nat)
    requires
        a <= b,
    ensures
        pow10(a) <= pow10(b),
    decreases b,
{
    if a < b {
        lemma_pow10_mono(a, (b - 1) as nat);
        lemma_pow10_pos(a);
    }
}

pub proof fn lemma_pow10_adds(a: nat, b: nat)
    ensures
        pow10(a + b) == pow10(a) * pow10(b),
    decreases a,
{
    if a == 0 {
    } else {
        lemma_pow10_adds((a - 1) as nat, b);
        assert(pow10((a + b - 1) as nat) == pow10((a - 1) as nat) * pow10(b));
        assert(10 * (pow10((a - 1) as nat) * pow10(b)) == (10 * pow10((a - 1) as nat)) * pow10(
            b,
        )) by {
            lemma_mul_is_associative(10, pow10((a - 1) as nat), pow10(b));
        }
    }
}

/// The concrete values of the powers of ten that the proofs lean on.
pub proof fn lemma_pow10_values()
    ensures
        pow10(8) == 0x5f5e100,
        pow10(9) == 0x3b9aca00,
        pow10(26) == 0x52b7d2dcc80cd2e4000000,
        pow10(27) == 0x33b2e3c9fd0803ce8000000,
        pow10(35) == 0x13426172c74d822b878fe800000000,
        pow10(36) == 0xc097ce7bc90715b34b9f1000000000,
        pow10(36) < u128::MAX,
{
    reveal_with_fuel(pow10, 37);
}

/// Ten to the `n`th power, executable for small exponents.
#[verifier::rlimit(60)]
pub fn pow10_u128(n: u8) -> (r: u128)
    requires
        n <= 36,
    ensures
        r == pow10(n as nat),
{
    let mut r: u128 = 1;
    let mut i: u8 = 0;
    while i < n
        invariant
            0 <= i <= n <= 36,
            r == pow10(i as nat),
        decreases n - i,
    {
        proof {
            lemma_pow10_mono(i as nat, 35);
            lemma_pow10_values();
        }
        r = r * 10;
        i = i + 1;
    }
    r
}

/// The difference of two balances as a value: the result sign, the
/// magnitude at the coarser of the two scales, and that scale.
pub open spec fn spec_balance_sub(a: Balance, b: Balance) -> Balance {
    let smax = if a.scale >= b.scale {
        a.scale
    } else {
        b.scale
    };
    let diff = a.as_int() - b.as_int();
    let mag = if diff < 0 {
        -diff
    } else {
        diff
    };
    Balance {
        neg: diff < 0,
        mantissa: (mag / pow10((9 - smax) as nat)) as u128,
        scale: smax,
    }
}

/// A fixed-point decimal: sign, mantissa and scale. The represented value
/// is `mantissa / 10^scale`, negated when `neg` is set.
#[derive(Clone, Debug, PartialEq, Eq)]
pub struct Balance {
    pub neg: bool,
    pub mantissa: u128,
    pub scale: u8,
}

impl Balance {
    /// Well-formed: scale between one and nine, value strictly below ten to
    /// the twenty-seventh in magnitude, zero never negative.
    pub open spec fn wf(&self) -> bool {
        &&& 1 <= self.scale <= 9
        &&& self.mantissa * pow10((9 - self.scale) as nat) < pow10(36)
        &&& (self.mantissa == 0 ==> !self.neg)
    }

    /// The value in nano-units: the value scaled by ten to the ninth.
    pub open spec fn as_int(&self) -> int {
        let mag = self.mantissa * pow10((9 - self.scale) as nat);
        if self.neg {
            -mag
        } else {
            mag
        }
    }

    /// The canonical zero, `0.0`.
    pub fn zero() -> (r: Balance)
        ensures
            r.wf(),
            r.as_int() == 0,
            r == (Balance { neg: false, mantissa: 0u128, scale: 1u8 }),
    {
        proof {
            lemma_pow10_pos(36);
        }
        Balance { neg: false, mantissa: 0, scale: 1 }
    }

    /// The balance holding a whole number of units.
    pub fn from_u64(n: u64) -> (r: Balance)
        ensures
            r.wf(),
            r.as_int() == n * pow10(9),
            r == (Balance { neg: false, mantissa: (n * 10) as u128, scale: 1u8 }),
    {
        let mantissa: u128 = (n as u128) * 10;
        proof {
            lemma_pow10_values();
            assert(mantissa * pow10(8) == n * pow10(9)) by (nonlinear_arith)
                requires mantissa == n * 10, pow10(8) == 0x5f5e100, pow10(9) == 0x3b9aca00;
            assert((n as int) * pow10(9) < pow10(36)) by (nonlinear_arith)
                requires n <= 0xffffffffffffffffu64, pow10(9) == 0x3b9aca00, pow10(36)
                    == 0xc097ce7bc90715b34b9f1000000000u128;
        }
        Balance { neg: false, mantissa, scale: 1 }
    }

    /// Whether the value is negative.
    pub fn is_negative(&self) -> (r: bool)
        requires
            self.wf(),
        ensures
            r == (self.as_int() < 0),
    {
        proof {
            if self.neg {
                lemma_pow10_pos((9 - self.scale) as nat);
                lemma_mul_strictly_positive(self.mantissa as int, pow10((9 - self.scale) as nat));
            } else {
                lemma_pow10_pos((9 - self.scale) as nat);
                vstd::arithmetic::mul::lemma_mul_nonnegative(
                    self.mantissa as int,
                    pow10((9 - self.scale) as nat),
                );
            }
        }
        self.neg
    }

    /// The mantissa rescaled to nine fractional digits.
    fn magnitude_nano(&self) -> (r: u128)
        requires
            self.wf(),
        ensures
            r == self.mantissa * pow10((9 - self.scale) as nat),
            r < pow10(36),
    {
        proof {
            lemma_pow10_pos((9 - self.scale) as nat);
            lemma_pow10_values();
        }
        self.mantissa * pow10_u128(9 - self.scale)
    }

    /// Whether this value is at least the other.
    pub fn ge(&self, other: &Balance) -> (r: bool)
        requires
            self.wf(),
            other.wf(),
        ensures
            r == (self.as_int() >= other.as_int()),
    {
        let a = self.magnitude_nano();
        let b = other.magnitude_nano();
        proof {
            if self.neg {
                lemma_pow10_pos((9 - self.scale) as nat);
                lemma_mul_strictly_positive(self.mantissa as int, pow10((9 - self.scale) as nat));
            }
            if other.neg {
                lemma_pow10_pos((9 - other.scale) as nat);
                lemma_mul_strictly_positive(
                    other.mantissa as int,
                    pow10((9 - other.scale) as nat),
                );
            }
        }
        if self.neg && other.neg {
            a <= b
        } else if self.neg {
            false
        } else if other.neg {
            true
        } else {
            a >= b
        }
    }

    /// The difference of the two values, at the larger of the two scales.
    /// The difference must stay below ten to the twenty-seventh in
    /// magnitude, the machine limit of this representation.
    pub fn sub(&self, other: &Balance) -> (r: Balance)
        requires
            self.wf(),
            other.wf(),
            -pow10(36) < self.as_int() - other.as_int() < pow10(36),
        ensures
            r.wf(),
            r.as_int() == self.as_int() - other.as_int(),
            r == spec_balance_sub(*self, *other),
    {
        let smax = if self.scale >= other.scale {
            self.scale
        } else {
            other.scale
        };
        let am = self.rescaled_mantissa(smax);
        let bm = other.rescaled_mantissa(smax);
        let ghost p = pow10((9 - smax) as nat);
        proof {
            lemma_pow10_pos((9 - smax) as nat);
            lemma_mul_is_distributive_add_other_way(p, am as int, bm as int);
            lemma_mul_is_distributive_sub_other_way(p, am as int, bm as int);
            lemma_mul_is_distributive_sub_other_way(p, bm as int, am as int);
            vstd::arithmetic::mul::lemma_mul_nonnegative(am as int, p);
            vstd::arithmetic::mul::lemma_mul_nonnegative(bm as int, p);
            lemma_pow10_values();
        }
        let (rneg, rmag): (bool, u128) = if self.neg == other.neg {
            if am >= bm {
                proof {
                    lemma_mul_inequality(am as int - bm as int, am as int, p);
                }
                (self.neg, am - bm)
            } else {
                proof {
                    lemma_mul_inequality(bm as int - am as int, bm as int, p);
                }
                (!self.neg, bm - am)
            }
        } else {
            proof {
                assert((am + bm) * p < pow10(36));
                if am + bm > 0 {
                    vstd::arithmetic::mul::lemma_mul_left_inequality((am + bm) as int, 1, p);
                }
            }
            (self.neg, am + bm)
        };
        proof {
            assert(rmag * p < pow10(36));
            let diff = self.as_int() - other.as_int();
            let mag = if diff < 0 {
                -diff
            } else {
                diff
            };
            assert(mag == rmag * p);
            assert(mag / p == rmag) by {
                vstd::arithmetic::div_mod::lemma_div_by_multiple(rmag as int, p);
            }
            if rmag > 0 {
                lemma_mul_strictly_positive(rmag as int, p);
            }
        }
        Balance { neg: rneg && rmag > 0, mantissa: rmag, scale: smax }
    }

    /// The sum of the two values, at the larger of the two scales. The sum
    /// must stay below ten to the twenty-seventh in magnitude, the machine
    /// limit of this representation.
    pub fn add(&self, other: &Balance) -> (r: Balance)
        requires
            self.wf(),
            other.wf(),
            -pow10(36) < self.as_int() + other.as_int() < pow10(36),
        ensures
            r.wf(),
            r.as_int() == self.as_int() + other.as_int(),
            r.scale == if self.scale >= other.scale {
                self.scale
            } else {
                other.scale
            },
    {
        let flipped = Balance {
            neg: !other.neg && other.mantissa > 0,
            mantissa: other.mantissa,
            scale: other.scale,
        };
        proof {
            vstd::arithmetic::mul::lemma_mul_by_zero_is_zero(
                pow10((9 - other.scale) as nat),
            );
            assert(flipped.as_int() == -other.as_int());
        }
        self.sub(&flipped)
    }

    /// The mantissa rescaled from `self.scale` to the coarser scale `smax`.
    fn rescaled_mantissa(&self, smax: u8) -> (r: u128)
        requires
            self.wf(),
            self.scale <= smax <= 9,
        ensures
            r == self.mantissa * pow10((smax - self.scale) as nat),
            r * pow10((9 - smax) as nat) == self.mantissa * pow10((9 - self.scale) as nat),
            r * pow10((9 - smax) as nat) < pow10(36),
            r < pow10(36),
    {
        let d: u8 = smax - self.scale;
        proof {
            let m = self.mantissa as int;
            let pd = pow10(d as nat);
            let pr = pow10((9 - smax) as nat);
            let pf = pow10((9 - self.scale) as nat);
            assert(pd * pr == pf) by {
                lemma_pow10_adds(d as nat, (9 - smax) as nat);
            }
            assert((m * pd) * pr == m * pf) by {
                lemma_mul_is_associative(m, pd, pr);
            }
            lemma_pow10_pos(d as nat);
            lemma_pow10_pos((9 - smax) as nat);
            assert(m * pd <= (m * pd) * pr) by {
                vstd::arithmetic::mul::lemma_mul_nonnegative(m, pd);
                if m * pd > 0 {
                    vstd::arithmetic::mul::lemma_mul_left_inequality(m * pd, 1, pr);
                }
            }
            lemma_pow10_values();
        }
        self.mantissa * pow10_u128(d)
    }

    /// Parses ASCII decimal bytes: an optional minus sign, one to
    /// twenty-seven integer digits, a decimal point, and one to nine
    /// fractional digits.
    #[verifier::rlimit(100)]
    pub fn from_bytes(s: &[u8]) -> (r: Option<Balance>)
        ensures
            r == spec_balance_from_bytes(s@),
            r is Some ==> r->0.wf(),
    {
        proof {
            if spec_balance_from_bytes(s@) is Some {
                lemma_parsed_balance_wf(s@);
            }
        }
        let start: usize = if s.len() > 0 && s[0] == MINUS_BYTE {
            1
        } else {
            0
        };
        let negsign = start == 1;
        let ghost body = if negsign {
            s@.skip(1)
        } else {
            s@
        };
        proof {
            assert(forall|j: int| 0 <= j < body.len() ==> body[j] == s@[j + start]);
            assert(body.len() == s@.len() - start);
        }
        // Find the decimal point.
        let mut dot: usize = start;
        while dot < s.len() && s[dot] != DOT_BYTE
            invariant
                start <= dot <= s@.len(),
                forall|j: int| start <= j < dot ==> s@[j] != DOT_BYTE,
            decreases s@.len() - dot,
        {
            dot = dot + 1;
        }
        proof {
            assert forall|j: int| 0 <= j < dot - start implies body[j] != DOT_BYTE by {
                assert(body[j] == s@[j + start]);
            }
            if dot < s@.len() {
                assert(body[dot - start] == s@[dot as int]);
            }
            lemma_find_byte_from(body, DOT_BYTE, 0, dot - start);
            assert(find_byte(body, DOT_BYTE, 0) == if dot == s@.len() {
                -1
            } else {
                dot - start
            });
        }
        if dot == s.len() || dot == start || s.len() - dot - 1 < 1 {
            return None;
        }
        let ghost d = dot - start;
        let ip_len = dot - start;
        let fp_len = s.len() - dot - 1;
        if ip_len > 27 || fp_len > 9 {
            return None;
        }
        proof {
            assert(body.subrange(0, d) =~= s@.subrange(start as int, dot as int));
            assert(body.subrange(d + 1, body.len() as int) =~= s@.subrange(
                dot + 1,
                s@.len() as int,
            ));
        }
        // Read the integer digits.
        let ip_val = match read_digits(s, start, dot) {
            Some(v) => v,
            None => {
                return None;
            },
        };
        // Read the fractional digits.
        let fp_val = match read_digits(s, dot + 1, s.len()) {
            Some(v) => v,
            None => {
                return None;
            },
        };
        proof {
            lemma_digits_value_bound(s@.subrange(start as int, dot as int));
            lemma_digits_value_bound(s@.subrange(dot + 1, s@.len() as int));
            lemma_pow10_mono(ip_len as nat, 27);
            lemma_decimal_combine_bound(ip_val as int, fp_val as int, 27, fp_len as nat);
            lemma_pow10_mono((27 + fp_len) as nat, 36);
            lemma_pow10_values();
            lemma_pow10_pos(fp_len as nat);
        }
        let m: u128 = ip_val * pow10_u128(fp_len as u8) + fp_val;
        Some(Balance { neg: negsign && m > 0, mantissa: m, scale: fp_len as u8 })
    }

    /// Serializes the balance as ASCII decimal bytes: the canonical print
    /// of the value at this balance's scale.
    pub fn to_bytes(&self) -> (r: Vec<u8>)
        requires
            self.wf(),
        ensures
            r@ == spec_balance_to_bytes(*self),
    {
        let p = pow10_u128(self.scale);
        proof {
            lemma_pow10_pos(self.scale as nat);
        }
        let ip = self.mantissa / p;
        let fp = self.mantissa % p;
        let mut v: Vec<u8> = Vec::new();
        if self.neg {
            v.push(MINUS_BYTE);
        }
        let ipd = print_digits(ip);
        crate::codec::extend_bytes(&mut v, ipd.as_slice());
        v.push(DOT_BYTE);
        let fpd = print_digits_padded(fp, self.scale);
        crate::codec::extend_bytes(&mut v, fpd.as_slice());
        proof {
            let sign: Seq<u8> = if self.neg {
                seq![MINUS_BYTE]
            } else {
                Seq::empty()
            };
            assert(v@ =~= sign + dec_digits((self.mantissa as int / pow10(self.scale as nat)) as nat)
                + seq![DOT_BYTE] + dec_digits_padded(
                (self.mantissa as int % pow10(self.scale as nat)) as nat,
                self.scale as nat,
            ));
        }
        v
    }
}

/// An ASCII decimal digit.
pub open spec fn is_digit(b: u8) -> bool {
    DIGIT_ZERO <= b <= 0x39
}

/// All bytes of the string are ASCII decimal digits.
pub open spec fn all_digits(s: Seq<u8>) -> bool {
    forall|i: int| 0 <= i < s.len() ==> is_digit(#[trigger] s[i])
}

/// The value of a decimal digit string, most significant digit first.
pub open spec fn digits_value(s: Seq<u8>) -> int
    decreases s.len(),
{
    if s.len() == 0 {
        0
    } else {
        digits_value(s.drop_last()) * 10 + (s.last() - DIGIT_ZERO)
    }
}

/// A digit string's value is below ten to its length.
pub proof fn lemma_digits_value_bound(s: Seq<u8>)
    requires
        all_digits(s),
    ensures
        0 <= digits_value(s) < pow10(s.len()),
    decreases s.len(),
{
    if s.len() > 0 {
        assert(all_digits(s.drop_last())) by {
            assert(forall|i: int| 0 <= i < s.len() - 1 ==> s.drop_last()[i] == s[i]);
        }
        lemma_digits_value_bound(s.drop_last());
    }
}

/// The shortest decimal print of `n`, most significant digit first.
pub open spec fn dec_digits(n: nat) -> Seq<u8>
    decreases n,
{
    if n < 10 {
        seq![(DIGIT_ZERO + n) as u8]
    } else {
        dec_digits(n / 10).push((DIGIT_ZERO + n % 10) as u8)
    }
}

/// The decimal print of `n mod 10^w`, zero-padded to exactly `w` digits.
pub open spec fn dec_digits_padded(n: nat, w: nat) -> Seq<u8>
    decreases w,
{
    if w == 0 {
        Seq::empty()
    } else {
        dec_digits_padded(n / 10, (w - 1) as nat).push((DIGIT_ZERO + n % 10) as u8)
    }
}

/// The position of the first occurrence of `b` in `s` at or after `i`, or
/// minus one if there is none.
pub open spec fn find_byte(s: Seq<u8>, b: u8, i: int) -> int
    decreases s.len() - i,
{
    if i < 0 || i >= s.len() {
        -1
    } else if s[i] == b {
        i
    } else {
        find_byte(s, b, i + 1)
    }
}

/// What `Balance::from_bytes` accepts and returns: an optional minus sign,
/// one to twenty-seven integer digits, a decimal point, one to nine
/// fractional digits; zero is never negative.
pub open spec fn spec_balance_from_bytes(s: Seq<u8>) -> Option<Balance> {
    let negsign = s.len() > 0 && s[0] == MINUS_BYTE;
    let body = if negsign {
        s.skip(1)
    } else {
        s
    };
    let d = find_byte(body, DOT_BYTE, 0);
    if d >= 1 && d + 1 < body.len() {
        let ip = body.subrange(0, d);
        let fp = body.subrange(d + 1, body.len() as int);
        if all_digits(ip) && all_digits(fp) && ip.len() <= 27 && fp.len() <= 9 {
            let m = digits_value(ip) * pow10(fp.len()) + digits_value(fp);
            Some(
                Balance {
                    neg: negsign && m != 0,
                    mantissa: m as u128,
                    scale: fp.len() as u8,
                },
            )
        } else {
            None
        }
    } else {
        None
    }
}

/// What `Balance::to_bytes` produces: sign, integer digits, point,
/// zero-padded fractional digits.
pub open spec fn spec_balance_to_bytes(b: Balance) -> Seq<u8> {
    let p = pow10(b.scale as nat);
    let sign: Seq<u8> = if b.neg {
        seq![MINUS_BYTE]
    } else {
        Seq::empty()
    };
    sign + dec_digits((b.mantissa as int / p) as nat) + seq![DOT_BYTE] + dec_digits_padded(
        (b.mantissa as int % p) as nat,
        b.scale as nat,
    )
}

/// A successfully parsed balance is well-formed.
pub proof fn lemma_parsed_balance_wf(s: Seq<u8>)
    requires
        spec_balance_from_bytes(s) is Some,
    ensures
        spec_balance_from_bytes(s)->0.wf(),
{
    let negsign = s.len() > 0 && s[0] == MINUS_BYTE;
    let body = if negsign {
        s.skip(1)
    } else {
        s
    };
    let d = find_byte(body, DOT_BYTE, 0);
    let ip = body.subrange(0, d);
    let fp = body.subrange(d + 1, body.len() as int);
    let m = digits_value(ip) * pow10(fp.len()) + digits_value(fp);
    lemma_digits_value_bound(ip);
    lemma_digits_value_bound(fp);
    lemma_pow10_mono(ip.len(), 27);
    lemma_decimal_combine_bound(digits_value(ip), digits_value(fp), 27, fp.len());
    lemma_scaled_value_bound(m, fp.len());
    lemma_pow10_mono(27 + fp.len(), 36);
    lemma_pow10_values();
}

/// Composing digit blocks: a value below ten to the `i` shifted left by
/// `j` digits plus a value below ten to the `j` stays below ten to the
/// `i + j`.
pub proof fn lemma_decimal_combine_bound(a: int, b: int, i: nat, j: nat)
    requires
        0 <= a < pow10(i),
        0 <= b < pow10(j),
    ensures
        0 <= a * pow10(j) + b < pow10(i + j),
{
    lemma_pow10_pos(j);
    lemma_pow10_adds(i, j);
    lemma_mul_inequality(a, pow10(i) - 1, pow10(j));
    lemma_mul_is_distributive_sub_other_way(pow10(j), pow10(i), 1);
    vstd::arithmetic::mul::lemma_mul_nonnegative(a, pow10(j));
}

/// A mantissa below ten to the `27 + s` rescaled from scale `s` to scale
/// nine stays below ten to the thirty-sixth.
pub proof fn lemma_scaled_value_bound(m: int, s: nat)
    requires
        0 <= m < pow10((27 + s) as nat),
        s <= 9,
    ensures
        0 <= m * pow10((9 - s) as nat) < pow10(36),
{
    let p = pow10((9 - s) as nat);
    lemma_pow10_pos((9 - s) as nat);
    lemma_mul_inequality(m, pow10((27 + s) as nat) - 1, p);
    lemma_mul_is_distributive_sub_other_way(p, pow10((27 + s) as nat), 1);
    lemma_pow10_adds((27 + s) as nat, (9 - s) as nat);
    vstd::arithmetic::mul::lemma_mul_nonnegative(m, p);
}

/// Relates the byte-by-byte scan to `find_byte`: if no byte in `[i, k)`
/// matches and `k` is a match or the end, the first match from `i` is `k`
/// respectively absent.
pub proof fn lemma_find_byte_from(s: Seq<u8>, b: u8, i: int, k: int)
    requires
        0 <= i <= k <= s.len(),
        forall|j: int| i <= j < k ==> s[j] != b,
        k == s.len() || s[k] == b,
    ensures
        find_byte(s, b, i) == if k == s.len() {
            -1
        } else {
            k
        },
    decreases k - i,
{
    if i < k {
        lemma_find_byte_from(s, b, i + 1, k);
    }
}

/// Reads the decimal digits of `s` between `from` and `to`; `None` when a
/// byte there is not a digit.
fn read_digits(s: &[u8], from: usize, to: usize) -> (r: Option<u128>)
    requires
        0 <= from <= to <= s@.len(),
        to - from <= 27,
    ensures
        r is Some <==> all_digits(s@.subrange(from as int, to as int)),
        r is Some ==> r->0 == digits_value(s@.subrange(from as int, to as int)),
{
    let ghost whole = s@.subrange(from as int, to as int);
    let mut acc: u128 = 0;
    let mut i: usize = from;
    while i < to
        invariant
            from <= i <= to <= s@.len(),
            to - from <= 27,
            whole == s@.subrange(from as int, to as int),
            all_digits(s@.subrange(from as int, i as int)),
            acc == digits_value(s@.subrange(from as int, i as int)),
            acc < pow10((i - from) as nat),
        decreases to - i,
    {
        let c = s[i];
        if c < DIGIT_ZERO || c > 0x39 {
            proof {
                assert(whole[i - from] == c);
            }
            return None;
        }
        proof {
            let pre = s@.subrange(from as int, i + 1);
            assert(pre.drop_last() =~= s@.subrange(from as int, i as int));
            assert(pre.last() == s@[i as int]);
            assert(forall|j: int| 0 <= j < pre.len() - 1 ==> pre[j] == s@.subrange(
                from as int,
                i as int,
            )[j]);
            lemma_pow10_mono((i - from) as nat, 26);
            lemma_pow10_values();
        }
        acc = acc * 10 + ((c - DIGIT_ZERO) as u128);
        i = i + 1;
    }
    proof {
        assert(s@.subrange(from as int, i as int) =~= whole);
    }
    Some(acc)
}

/// Prints the decimal digits of `n`, most significant first.
fn print_digits(n: u128) -> (r: Vec<u8>)
    ensures
        r@ == dec_digits(n as nat),
    decreases n,
{
    if n < 10 {
        let mut v: Vec<u8> = Vec::new();
        v.push(DIGIT_ZERO + (n as u8));
        proof {
            assert(v@ =~= dec_digits(n as nat));
        }
        v
    } else {
        proof {
            vstd::arithmetic::div_mod::lemma_div_decreases(n as int, 10);
            vstd::arithmetic::div_mod::lemma_div_pos_is_pos(n as int, 10);
            vstd::arithmetic::div_mod::lemma_mod_division_less_than_divisor(n as int, 10);
        }
        let mut v = print_digits(n / 10);
        v.push(DIGIT_ZERO + ((n % 10) as u8));
        v
    }
}

/// Prints the low `w` decimal digits of `n`, zero-padded to width `w`.
fn print_digits_padded(n: u128, w: u8) -> (r: Vec<u8>)
    ensures
        r@ == dec_digits_padded(n as nat, w as nat),
    decreases w,
{
    if w == 0 {
        let v: Vec<u8> = Vec::new();
        proof {
            assert(v@ =~= dec_digits_padded(n as nat, 0));
        }
        v
    } else {
        proof {
            vstd::arithmetic::div_mod::lemma_div_pos_is_pos(n as int, 10);
            vstd::arithmetic::div_mod::lemma_mod_division_less_than_divisor(n as int, 10);
        }
        let mut v = print_digits_padded(n / 10, w - 1);
        v.push(DIGIT_ZERO + ((n % 10) as u8));
        v
    }
}

/// The shortest decimal print is all digits, nonempty, and prints the
/// value it was built from.
pub proof fn lemma_dec_digits_props(n: nat)
    ensures
        all_digits(dec_digits(n)),
        dec_digits(n).len() >= 1,
        digits_value(dec_digits(n)) == n,
    decreases n,
{
    if n < 10 {
        let s = dec_digits(n);
        assert(s.drop_last() =~= Seq::<u8>::empty());
        assert(digits_value(Seq::<u8>::empty()) == 0);
        assert(s.last() == (DIGIT_ZERO + n) as u8);
    } else {
        vstd::arithmetic::div_mod::lemma_div_decreases(n as int, 10);
        vstd::arithmetic::div_mod::lemma_div_pos_is_pos(n as int, 10);
        vstd::arithmetic::div_mod::lemma_mod_division_less_than_divisor(n as int, 10);
        lemma_dec_digits_props(n / 10);
        let pre = dec_digits(n / 10);
        let s = dec_digits(n);
        assert(s =~= pre.push((DIGIT_ZERO + n % 10) as u8));
        assert(s.drop_last() =~= pre);
        vstd::arithmetic::div_mod::lemma_fundamental_div_mod(n as int, 10);
        assert(forall|i: int| 0 <= i < s.len() ==> is_digit(#[trigger] s[i])) by {
            assert(forall|i: int| 0 <= i < pre.len() ==> s[i] == pre[i]);
        }
    }
}

/// A value below ten to the `w` prints in at most `w` digits.
pub proof fn lemma_dec_digits_len(n: nat, w: nat)
    requires
        n < pow10(w),
        w >= 1,
    ensures
        dec_digits(n).len() <= w,
    decreases n,
{
    if n < 10 {
    } else {
        vstd::arithmetic::div_mod::lemma_div_decreases(n as int, 10);
        vstd::arithmetic::div_mod::lemma_div_pos_is_pos(n as int, 10);
        vstd::arithmetic::div_mod::lemma_fundamental_div_mod(n as int, 10);
        assert(w >= 2) by {
            reveal_with_fuel(pow10, 3);
        }
        assert((n / 10) < pow10((w - 1) as nat));
        lemma_dec_digits_len(n / 10, (w - 1) as nat);
    }
}

/// The zero-padded print of a value below ten to the `w` has exactly `w`
/// digit bytes and prints that value.
pub proof fn lemma_dec_digits_padded_props(n: nat, w: nat)
    requires
        n < pow10(w),
    ensures
        all_digits(dec_digits_padded(n, w)),
        dec_digits_padded(n, w).len() == w,
        digits_value(dec_digits_padded(n, w)) == n,
    decreases w,
{
    if w == 0 {
        assert(dec_digits_padded(n, 0) =~= Seq::<u8>::empty());
    } else {
        vstd::arithmetic::div_mod::lemma_div_pos_is_pos(n as int, 10);
        vstd::arithmetic::div_mod::lemma_mod_division_less_than_divisor(n as int, 10);
        vstd::arithmetic::div_mod::lemma_fundamental_div_mod(n as int, 10);
        assert((n / 10) < pow10((w - 1) as nat));
        lemma_dec_digits_padded_props(n / 10, (w - 1) as nat);
        let pre = dec_digits_padded(n / 10, (w - 1) as nat);
        let s = dec_digits_padded(n, w);
        assert(s =~= pre.push((DIGIT_ZERO + n % 10) as u8));
        assert(s.drop_last() =~= pre);
        assert(forall|i: int| 0 <= i < s.len() ==> is_digit(#[trigger] s[i])) by {
            assert(forall|i: int| 0 <= i < pre.len() ==> s[i] == pre[i]);
        }
    }
}

/// Parsing inverts printing: the serialized bytes of a well-formed balance
/// parse back to the same balance.
pub proof fn lemma_balance_round_trip(b: Balance)
    requires
        b.wf(),
    ensures
        spec_balance_from_bytes(spec_balance_to_bytes(b)) == Some(b),
{
    let scale = b.scale as nat;
    let p = pow10(scale);
    let m = b.mantissa as int;
    lemma_pow10_pos(scale);
    let ival = (m / p) as nat;
    let fval = (m % p) as nat;
    vstd::arithmetic::div_mod::lemma_div_pos_is_pos(m, p);
    vstd::arithmetic::div_mod::lemma_mod_division_less_than_divisor(m, p);
    vstd::arithmetic::div_mod::lemma_fundamental_div_mod(m, p);
    // The mantissa is below ten to the `27 + scale`.
    assert(m < pow10((27 + scale) as nat)) by {
        lemma_pow10_pos((9 - scale) as nat);
        if m >= pow10((27 + scale) as nat) {
            lemma_mul_inequality(
                pow10((27 + scale) as nat),
                m,
                pow10((9 - scale) as nat),
            );
            lemma_pow10_adds((27 + scale) as nat, (9 - scale) as nat);
        }
    }
    // So the integer part is below ten to the twenty-seventh.
    assert(ival < pow10(27)) by {
        if m / p >= pow10(27) {
            lemma_mul_inequality(pow10(27), m / p, p);
            lemma_pow10_adds(27, scale);
            vstd::arithmetic::mul::lemma_mul_is_commutative(m / p, p);
            vstd::arithmetic::div_mod::lemma_mod_division_less_than_divisor(m, p);
        }
    }
    lemma_dec_digits_props(ival);
    lemma_dec_digits_len(ival, 27);
    lemma_dec_digits_padded_props(fval, scale);
    let ip = dec_digits(ival);
    let fp = dec_digits_padded(fval, scale);
    let sign: Seq<u8> = if b.neg {
        seq![MINUS_BYTE]
    } else {
        Seq::empty()
    };
    let s = spec_balance_to_bytes(b);
    assert(s =~= sign + ip + seq![DOT_BYTE] + fp);
    let negsign = s.len() > 0 && s[0] == MINUS_BYTE;
    assert(negsign == b.neg) by {
        if b.neg {
            assert(s[0] == MINUS_BYTE);
        } else {
            assert(s[0] == ip[0]);
            assert(is_digit(ip[0]));
        }
    }
    let body = if negsign {
        s.skip(1)
    } else {
        s
    };
    assert(body =~= ip + seq![DOT_BYTE] + fp);
    let d = ip.len() as int;
    assert(find_byte(body, DOT_BYTE, 0) == d) by {
        assert(forall|j: int| 0 <= j < d ==> body[j] == ip[j]);
        assert(forall|j: int| 0 <= j < d ==> is_digit(#[trigger] ip[j]));
        assert(body[d] == DOT_BYTE);
        lemma_find_byte_from(body, DOT_BYTE, 0, d);
    }
    assert(body.subrange(0, d) =~= ip);
    assert(body.subrange(d + 1, body.len() as int) =~= fp);
    // The parsed mantissa is the original mantissa.
    assert(digits_value(ip) * pow10(fp.len()) + digits_value(fp) == m) by {
        vstd::arithmetic::mul::lemma_mul_is_commutative(m / p, p);
    }
    assert(spec_balance_from_bytes(s)->0 == b);
}

/// The serialized form of a well-formed balance has between three and
/// thirty-eight bytes: an optional sign, at most twenty-seven integer
/// digits, the point, and one to nine fractional digits.
pub proof fn lemma_balance_bytes_len(b: Balance)
    requires
        b.wf(),
    ensures
        3 <= spec_balance_to_bytes(b).len() <= 38,
{
    let scale = b.scale as nat;
    let p = pow10(scale);
    let m = b.mantissa as int;
    lemma_pow10_pos(scale);
    vstd::arithmetic::div_mod::lemma_div_pos_is_pos(m, p);
    vstd::arithmetic::div_mod::lemma_mod_division_less_than_divisor(m, p);
    assert(m < pow10((27 + scale) as nat)) by {
        lemma_pow10_pos((9 - scale) as nat);
        if m >= pow10((27 + scale) as nat) {
            lemma_mul_inequality(
                pow10((27 + scale) as nat),
                m,
                pow10((9 - scale) as nat),
            );
            lemma_pow10_adds((27 + scale) as nat, (9 - scale) as nat);
        }
    }
    assert((m / p) < pow10(27)) by {
        if m / p >= pow10(27) {
            lemma_mul_inequality(pow10(27), m / p, p);
            lemma_pow10_adds(27, scale);
            vstd::arithmetic::mul::lemma_mul_is_commutative(m / p, p);
            vstd::arithmetic::div_mod::lemma_fundamental_div_mod(m, p);
        }
    }
    lemma_dec_digits_props((m / p) as nat);
    lemma_dec_digits_len((m / p) as nat, 27);
    lemma_dec_digits_padded_props((m % p) as nat, scale);
}

} // verus!
