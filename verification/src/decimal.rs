use vstd::prelude::*;
use vstd::arithmetic::div_mod::{lemma_fundamental_div_mod, lemma_small_mod};
use crate::config::{Multiplier, MULTIPLIER_SCALE};

verus! {

/// Whether a byte is one of the digits `0` to `9`.
pub open spec fn is_digit(b: u8) -> bool {
    48 <= b <= 57
}

/// The number that a string of decimal digits writes.
pub open spec fn digits_value(s: Seq<u8>) -> nat
    decreases s.len(),
{
    if s.len() == 0 {
        0
    } else {
        digits_value(s.drop_last()) * 10 + (s.last() - 48) as nat
    }
}

/// Ten to the power of `n`.
pub open spec fn pow10(n: nat) -> nat
    decreases n,
{
    if n == 0 {
        1
    } else {
        10 * pow10((n - 1) as nat)
    }
}

/// Where the run of digits that starts at `from` ends: the index of the first
/// byte at or after `from` that is no digit, or the length of `s`.
pub open spec fn digits_end(s: Seq<u8>, from: int) -> int
    decreases s.len() - from,
{
    if 0 <= from < s.len() && is_digit(s[from]) {
        digits_end(s, from + 1)
    } else {
        from
    }
}

/// A number in decimal notation, taken apart: it is `mantissa` times ten to
/// the power of `exponent - fraction_len`.
pub ghost struct DecimalParts {
    /// The digits before the exponent, read as one number without the point.
    pub mantissa: nat,
    /// How many of those digits follow the point.
    pub fraction_len: nat,
    /// The exponent, zero where none is written.
    pub exponent: int,
}

/// The parts of `s`, where `s` is decimal notation: one or more digits; then,
/// if at all, a point and one or more digits; then, if at all, `e` or `E`, a
/// sign if any, and one or more digits. No sign in front and no blank.
pub open spec fn decimal_parts(s: Seq<u8>) -> Option<DecimalParts> {
    let a = digits_end(s, 0);
    let pointed = a < s.len() && s[a] == 46;
    let b = if pointed {
        digits_end(s, a + 1)
    } else {
        a
    };
    let fraction = if pointed {
        s.subrange(a + 1, b)
    } else {
        Seq::empty()
    };
    let mantissa = digits_value(s.subrange(0, a) + fraction);
    if a == 0 || (pointed && b == a + 1) {
        None
    } else if b == s.len() {
        Some(DecimalParts { mantissa, fraction_len: fraction.len(), exponent: 0 })
    } else if s[b] == 101 || s[b] == 69 {
        let signed = b + 1 < s.len() && (s[b + 1] == 43 || s[b + 1] == 45);
        let c = if signed {
            b + 2
        } else {
            b + 1
        };
        let d = digits_end(s, c);
        let magnitude = digits_value(s.subrange(c, d)) as int;
        if d == c || d != s.len() {
            None
        } else {
            Some(
                DecimalParts {
                    mantissa,
                    fraction_len: fraction.len(),
                    exponent: if signed && s[b + 1] == 45 {
                        -magnitude
                    } else {
                        magnitude
                    },
                },
            )
        }
    } else {
        None
    }
}

/// The number `mantissa` times ten to the power of `shift`, where it is whole.
pub open spec fn shifted(mantissa: nat, shift: int) -> Option<nat> {
    if shift >= 0 {
        Some(mantissa * pow10(shift as nat))
    } else if mantissa % pow10((-shift) as nat) == 0 {
        Some(mantissa / pow10((-shift) as nat))
    } else {
        None
    }
}

/// The multiplier that `s` writes, in millionths: `s` is decimal notation
/// whose digits before the exponent, read as one number, fit in 64 bits, and
/// the number it writes is greater than zero, a whole number of millionths,
/// and no more than the largest multiplier.
pub open spec fn multiplier_of(s: Seq<u8>) -> Option<u64> {
    match decimal_parts(s) {
        Some(parts) => match shifted(parts.mantissa, parts.exponent - parts.fraction_len + 6) {
            Some(m) => if parts.mantissa <= u64::MAX && 0 < m <= u64::MAX {
                Some(m as u64)
            } else {
                None
            },
            None => None,
        },
        None => None,
    }
}

/// One is a million millionths: a shift by six places turns a number into
/// its millionths.
pub proof fn lemma_six_places()
    ensures
        pow10(6) == MULTIPLIER_SCALE,
{
    reveal_with_fuel(pow10, 8);
}

proof fn lemma_pow10_positive(n: nat)
    ensures
        pow10(n) > 0,
    decreases n,
{
    if n > 0 {
        lemma_pow10_positive((n - 1) as nat);
    }
}

proof fn lemma_pow10_monotone(a: nat, b: nat)
    requires
        a <= b,
    ensures
        pow10(a) <= pow10(b),
    decreases b,
{
    if a < b {
        lemma_pow10_monotone(a, (b - 1) as nat);
        lemma_pow10_positive((b - 1) as nat);
    }
}

proof fn lemma_pow10_20()
    ensures
        pow10(19) == 10_000_000_000_000_000_000,
        pow10(20) == 100_000_000_000_000_000_000,
{
    reveal_with_fuel(pow10, 22);
}

/// The number of a shift by twenty places or more is either not whole or
/// beyond 64 bits, whatever the mantissa, unless the mantissa is zero.
proof fn lemma_far_shift(mantissa: nat, shift: int)
    requires
        0 < mantissa <= u64::MAX,
        shift >= 20 || shift <= -20,
    ensures
        match shifted(mantissa, shift) {
            Some(m) => m > u64::MAX,
            None => true,
        },
{
    lemma_pow10_20();
    if shift >= 20 {
        lemma_pow10_monotone(20, shift as nat);
        assert(mantissa * pow10(shift as nat) >= pow10(shift as nat)) by (nonlinear_arith)
            requires
                mantissa >= 1,
                pow10(shift as nat) >= 0,
        ;
    } else {
        lemma_pow10_monotone(20, (-shift) as nat);
        lemma_small_mod(mantissa, pow10((-shift) as nat));
    }
}

/// Reads the run of digits of `s` that starts at `from`, going on from the
/// number `start` that the digits `before` write. Gives the index where the
/// run ends and the number read, or nothing where it is beyond 128 bits.
fn read_digits(s: &[u8], from: usize, start: Option<u128>, Ghost(before): Ghost<Seq<u8>>) -> (r: (
    usize,
    Option<u128>,
))
    requires
        from <= s@.len(),
        start matches Some(v) ==> v == digits_value(before),
        start is None ==> digits_value(before) > u128::MAX,
    ensures
        from <= r.0 <= s@.len(),
        r.0 == digits_end(s@, from as int),
        r.1 matches Some(v) ==> v == digits_value(before + s@.subrange(from as int, r.0 as int)),
        r.1 is None ==> digits_value(before + s@.subrange(from as int, r.0 as int)) > u128::MAX,
{
    let mut i: usize = from;
    let mut value: Option<u128> = start;
    proof {
        assert(before + s@.subrange(from as int, i as int) == before);
    }
    while i < s.len() && s[i] >= 48 && s[i] <= 57
        invariant
            from <= i <= s@.len(),
            digits_end(s@, from as int) == digits_end(s@, i as int),
            value matches Some(v) ==> v == digits_value(
                before + s@.subrange(from as int, i as int),
            ),
            value is None ==> digits_value(before + s@.subrange(from as int, i as int))
                > u128::MAX,
        decreases s@.len() - i,
    {
        let d: u128 = (s[i] - 48) as u128;
        proof {
            let next = before + s@.subrange(from as int, i + 1);
            assert(next.drop_last() == before + s@.subrange(from as int, i as int));
            assert(next.last() == s@[i as int]);
        }
        value = match value {
            Some(v) => match v.checked_mul(10) {
                Some(t) => t.checked_add(d),
                None => None,
            },
            None => None,
        };
        i = i + 1;
    }
    (i, value)
}

/// The number `m` times ten to the power of `up`, or nothing where it is
/// beyond 64 bits.
fn scale_up(m: u64, up: u8) -> (r: Option<u64>)
    requires
        up < 20,
    ensures
        match r {
            Some(v) => v == m * pow10(up as nat),
            None => m * pow10(up as nat) > u64::MAX,
        },
{
    let mut value: u64 = m;
    let mut j: u8 = 0;
    assert(pow10(0) == 1);
    while j < up
        invariant
            j <= up < 20,
            value == m * pow10(j as nat),
        decreases up - j,
    {
        proof {
            assert(pow10((j + 1) as nat) == 10 * pow10(j as nat));
            assert(m * pow10((j + 1) as nat) == 10 * (m * pow10(j as nat))) by (nonlinear_arith)
                requires
                    pow10((j + 1) as nat) == 10 * pow10(j as nat),
            ;
        }
        match value.checked_mul(10) {
            Some(v) => {
                value = v;
            },
            None => {
                proof {
                    lemma_pow10_monotone((j + 1) as nat, up as nat);
                    assert(m * pow10(up as nat) >= m * pow10((j + 1) as nat)) by (nonlinear_arith)
                        requires
                            pow10(up as nat) >= pow10((j + 1) as nat),
                            m >= 0,
                    ;
                }
                return None;
            },
        }
        j = j + 1;
    }
    Some(value)
}

/// The number `m` divided by ten to the power of `down`, or nothing where
/// that is no whole number.
fn scale_down(m: u64, down: u8) -> (r: Option<u64>)
    requires
        down < 20,
    ensures
        match shifted(m as nat, -(down as int)) {
            Some(v) => r == Some(v as u64) && v <= m,
            None => r is None,
        },
{
    let mut divisor: u64 = 1;
    let mut j: u8 = 0;
    assert(pow10(0) == 1);
    while j < down
        invariant
            j <= down < 20,
            divisor == pow10(j as nat),
        decreases down - j,
    {
        proof {
            lemma_pow10_monotone((j + 1) as nat, 19);
            lemma_pow10_20();
        }
        divisor = divisor * 10;
        j = j + 1;
    }
    proof {
        lemma_pow10_positive(down as nat);
    }
    if down == 0 {
        proof {
            assert(m as nat * pow10(0) == m);
        }
        Some(m)
    } else if m % divisor == 0 {
        proof {
            assert(m as nat / divisor as nat <= m) by (nonlinear_arith)
                requires
                    divisor > 0,
            ;
        }
        Some(m / divisor)
    } else {
        None
    }
}

/// The power of ten that a number in parts has to be shifted by to count
/// millionths.
spec fn millionths_shift(negative: bool, magnitude: nat, fraction_len: nat) -> int {
    (if negative {
        -(magnitude as int)
    } else {
        magnitude as int
    }) - fraction_len + 6
}

/// A shift as far as it matters: by how many places up or down, where that
/// is fewer than twenty.
enum Shift {
    Up(u8),
    Down(u8),
    Far,
}

fn shift_of(negative: bool, magnitude: Option<u128>, fraction_len: usize, Ghost(e): Ghost<nat>) -> (r:
    Shift)
    requires
        magnitude matches Some(v) ==> v == e,
        magnitude is None ==> e > u128::MAX,
    ensures
        match r {
            Shift::Up(up) => up < 20 && up == millionths_shift(negative, e, fraction_len as nat),
            Shift::Down(down) => 0 < down < 20 && down == -millionths_shift(
                negative,
                e,
                fraction_len as nat,
            ),
            Shift::Far => millionths_shift(negative, e, fraction_len as nat) >= 20
                || millionths_shift(negative, e, fraction_len as nat) <= -20,
        },
{
    let e: u128 = match magnitude {
        Some(e) => e,
        None => {
            return Shift::Far;
        },
    };
    let f: u128 = fraction_len as u128;
    // The shift is `gain - loss`.
    let (gain, loss): (u128, u128) = if negative {
        match e.checked_add(f) {
            Some(l) => (6, l),
            None => {
                return Shift::Far;
            },
        }
    } else {
        match e.checked_add(6) {
            Some(g) => (g, f),
            None => {
                return Shift::Far;
            },
        }
    };
    if gain >= loss {
        if gain - loss < 20 {
            Shift::Up((gain - loss) as u8)
        } else {
            Shift::Far
        }
    } else if loss - gain < 20 {
        Shift::Down((loss - gain) as u8)
    } else {
        Shift::Far
    }
}

impl Multiplier {
    /// Reads a multiplier from decimal notation, such as `2`, `2.0`, `0.75` or `5e-6`.
    ///
    /// Gives nothing where the text is no such notation, where its digits
    /// before the exponent go beyond 64 bits, where the number is zero or no
    /// whole number of millionths, and where its millionths go beyond 64 bits.
    /// So `0.1234567` and `1e14` are refused, though they are positive
    /// numbers: the number read is never rounded.
    pub fn parse(text: &[u8]) -> (r: Option<Multiplier>)
        ensures
            r matches Some(m) ==> multiplier_of(text@) == Some(m.millionths),
            r is None ==> multiplier_of(text@) is None,
    {
        let ghost s = text@;
        let (a, whole) = read_digits(text, 0, Some(0), Ghost(Seq::empty()));
        proof {
            assert(Seq::<u8>::empty() + s.subrange(0, a as int) == s.subrange(0, a as int));
        }
        if a == 0 {
            return None;
        }
        let pointed: bool = a < text.len() && text[a] == 46;
        let (b, mantissa) = if pointed {
            read_digits(text, a + 1, whole, Ghost(s.subrange(0, a as int)))
        } else {
            proof {
                assert(s.subrange(0, a as int) + Seq::<u8>::empty() == s.subrange(0, a as int));
            }
            (a, whole)
        };
        if pointed && b == a + 1 {
            return None;
        }
        let fraction_len: usize = if pointed {
            b - (a + 1)
        } else {
            0
        };
        let mut negative: bool = false;
        let mut magnitude: Option<u128> = Some(0);
        let ghost mut e: nat = 0;
        if b < text.len() {
            if text[b] != 101 && text[b] != 69 {
                return None;
            }
            let signed: bool = b + 1 < text.len() && (text[b + 1] == 43 || text[b + 1] == 45);
            negative = signed && text[b + 1] == 45;
            let c: usize = if signed {
                b + 2
            } else {
                b + 1
            };
            let (d, read) = read_digits(text, c, Some(0), Ghost(Seq::empty()));
            proof {
                assert(Seq::<u8>::empty() + s.subrange(c as int, d as int) == s.subrange(
                    c as int,
                    d as int,
                ));
                e = digits_value(s.subrange(c as int, d as int));
            }
            if d == c || d != text.len() {
                return None;
            }
            magnitude = read;
        }
        let ghost parts = decimal_parts(s)->0;
        assert(decimal_parts(s) is Some);
        assert(parts.fraction_len == fraction_len);
        assert(parts.exponent - parts.fraction_len + 6 == millionths_shift(
            negative,
            e,
            fraction_len as nat,
        ));
        let m: u64 = match mantissa {
            Some(m) => if m <= u64::MAX as u128 {
                m as u64
            } else {
                return None;
            },
            None => {
                return None;
            },
        };
        if m == 0 {
            proof {
                let k = parts.exponent - parts.fraction_len + 6;
                if k >= 0 {
                    assert(0 * pow10(k as nat) == 0);
                } else {
                    lemma_pow10_positive((-k) as nat);
                    lemma_fundamental_div_mod(0, pow10((-k) as nat) as int);
                    assert(0nat / pow10((-k) as nat) == 0) by (nonlinear_arith)
                        requires
                            pow10((-k) as nat) > 0,
                    ;
                }
            }
            return None;
        }
        let millionths: Option<u64> = match shift_of(negative, magnitude, fraction_len, Ghost(e)) {
            Shift::Up(up) => scale_up(m, up),
            Shift::Down(down) => scale_down(m, down),
            Shift::Far => {
                proof {
                    lemma_far_shift(m as nat, parts.exponent - parts.fraction_len + 6);
                }
                None
            },
        };
        match millionths {
            Some(v) => if v == 0 {
                None
            } else {
                Some(Multiplier { millionths: v })
            },
            None => None,
        }
    }
}

} // verus!
