use vstd::prelude::*;
use crate::color::FIXED_ONE;

verus! {

/// Most digits accepted in the whole part of a coordinate.
pub const MAX_WHOLE_DIGITS: usize = 12;

/// Most digits accepted in an index.
pub const MAX_INDEX_DIGITS: usize = 18;

/// Fraction digits kept in a fixed-point value; later ones are dropped.
pub const FRACTION_DIGITS: usize = 6;

pub open spec fn is_space(b: u8) -> bool {
    b == 32 || b == 9 || b == 13
}

pub open spec fn is_digit(b: u8) -> bool {
    48 <= b <= 57
}

/// The first position at or after `i` that is not a space.
pub open spec fn skip_spaces(s: Seq<u8>, i: int) -> int
    decreases s.len() - i,
{
    if 0 <= i < s.len() && is_space(s[i]) {
        skip_spaces(s, i + 1)
    } else {
        i
    }
}

/// The first position at or after `i` that is not a digit.
pub open spec fn digits_end(s: Seq<u8>, i: int) -> int
    decreases s.len() - i,
{
    if 0 <= i < s.len() && is_digit(s[i]) {
        digits_end(s, i + 1)
    } else {
        i
    }
}

/// The decimal value of the digits `s[i..j]`.
pub open spec fn digits_value(s: Seq<u8>, i: int, j: int) -> int
    decreases j - i,
{
    if j <= i {
        0
    } else {
        digits_value(s, i, j - 1) * 10 + (s[j - 1] - 48)
    }
}

pub open spec fn pow10(n: nat) -> int
    decreases n,
{
    if n == 0 {
        1
    } else {
        10 * pow10((n - 1) as nat)
    }
}

/// A decimal number at `i` (optional sign, digits, optional `.` and digits,
/// at least one digit in all), as a fixed-point value and the position after it.
pub open spec fn number_at(s: Seq<u8>, i: int) -> Option<(int, int)> {
    let neg = 0 <= i < s.len() && s[i] == 45;
    let a = if 0 <= i < s.len() && (s[i] == 45 || s[i] == 43) { i + 1 } else { i };
    let b = digits_end(s, a);
    let has_dot = b < s.len() && s[b] == 46;
    let c = if has_dot { b + 1 } else { b };
    let d = if has_dot { digits_end(s, c) } else { b };
    let kept = if d - c > FRACTION_DIGITS { c + FRACTION_DIGITS } else { d };
    let mag = digits_value(s, a, b) * FIXED_ONE + digits_value(s, c, kept) * pow10(
        (FRACTION_DIGITS - (kept - c)) as nat,
    );
    if (b - a) + (d - c) == 0 || b - a > MAX_WHOLE_DIGITS {
        None
    } else {
        match exponent_at(s, d) {
            None => None,
            Some((e, end)) => {
                let scaled = if e >= 0 { scale_up(mag, e as nat) } else { scale_down(mag, (-e) as nat) };
                if scaled > MAX_MAGNITUDE {
                    None
                } else {
                    Some((if neg { -scaled } else { scaled }, end))
                }
            },
        }
    }
}

/// Largest magnitude of a parsed fixed-point number.
pub const MAX_MAGNITUDE: i64 = 1_000_000_000_000_000_000;

/// Most digits accepted in an exponent.
pub const MAX_EXPONENT_DIGITS: usize = 2;

/// `m` with the decimal point moved `e` places right.
pub open spec fn scale_up(m: int, e: nat) -> int
    decreases e,
{
    if e == 0 {
        m
    } else {
        scale_up(m, (e - 1) as nat) * 10
    }
}

/// `m` with the decimal point moved `e` places left, dropping digits.
pub open spec fn scale_down(m: int, e: nat) -> int
    decreases e,
{
    if e == 0 {
        m
    } else {
        scale_down(m, (e - 1) as nat) / 10
    }
}

/// An optional exponent at `d` (`e` or `E`, an optional sign, one or two
/// digits): its value and the position after it; `(0, d)` where none
/// starts at `d`, `None` where one starts but does not fit.
pub open spec fn exponent_at(s: Seq<u8>, d: int) -> Option<(int, int)> {
    if 0 <= d < s.len() && (s[d] == 101 || s[d] == 69) {
        let f = d + 1;
        let neg = f < s.len() && s[f] == 45;
        let g = if f < s.len() && (s[f] == 45 || s[f] == 43) { f + 1 } else { f };
        let h = digits_end(s, g);
        if h == g || h - g > MAX_EXPONENT_DIGITS {
            None
        } else {
            let v = digits_value(s, g, h);
            Some((if neg { -v } else { v }, h))
        }
    } else {
        Some((0, d))
    }
}

proof fn lemma_scale_up_grows(m: int, k: nat, e: nat)
    requires
        m >= 0,
        k <= e,
    ensures
        scale_up(m, k) <= scale_up(m, e),
        scale_up(m, k) >= 0,
    decreases e,
{
    if k < e {
        lemma_scale_up_grows(m, k, (e - 1) as nat);
    } else if e > 0 {
        lemma_scale_up_grows(m, (e - 1) as nat, (e - 1) as nat);
    }
}

proof fn lemma_scale_down_bounds(m: int, e: nat)
    requires
        m >= 0,
    ensures
        0 <= scale_down(m, e) <= m,
    decreases e,
{
    if e > 0 {
        lemma_scale_down_bounds(m, (e - 1) as nat);
    }
}

fn read_exponent(s: &[u8], d: usize) -> (r: Option<(i64, usize)>)
    requires
        d <= s@.len(),
    ensures
        r is None <==> exponent_at(s@, d as int) is None,
        r matches Some((e, end)) ==> exponent_at(s@, d as int) == Some((e as int, end as int))
            && -99 <= e <= 99 && d <= end <= s@.len(),
{
    if !(d < s.len() && (s[d] == 101 || s[d] == 69)) {
        return Some((0, d));
    }
    let f = d + 1;
    let neg = f < s.len() && s[f] == 45;
    let g = if f < s.len() && (s[f] == 45 || s[f] == 43) { f + 1 } else { f };
    match read_digits(s, g, MAX_EXPONENT_DIGITS) {
        None => None,
        Some((v, h)) => {
            if h == g {
                return None;
            }
            proof {
                lemma_digits_end_bounds(s@, g as int);
                lemma_digits_value_bound(s@, g as int, h as int);
                lemma_pow10_mono((h - g) as nat, 2);
                assert(pow10(2) == 100) by {
                    reveal_with_fuel(pow10, 3);
                }
            }
            let e: i64 = if neg { -(v as i64) } else { v as i64 };
            Some((e, h))
        },
    }
}

fn scale_exec(m: i64, e: i64) -> (r: Option<i64>)
    requires
        0 <= m <= MAX_MAGNITUDE,
        -99 <= e <= 99,
    ensures
        r is None <==> (e >= 0 && scale_up(m as int, e as nat) > MAX_MAGNITUDE),
        r matches Some(v) ==> v == (if e >= 0 {
            scale_up(m as int, e as nat)
        } else {
            scale_down(m as int, (-e) as nat)
        }) && 0 <= v <= MAX_MAGNITUDE,
{
    let mut acc: i64 = m;
    let mut k: i64 = 0;
    if e >= 0 {
        while k < e
            invariant
                0 <= k <= e,
                0 <= m <= MAX_MAGNITUDE,
                0 <= acc <= MAX_MAGNITUDE,
                acc == scale_up(m as int, k as nat),
            decreases e - k,
        {
            if acc > MAX_MAGNITUDE / 10 {
                proof {
                    lemma_scale_up_grows(m as int, (k + 1) as nat, e as nat);
                }
                return None;
            }
            acc = acc * 10;
            k = k + 1;
        }
    } else {
        while k < -e
            invariant
                -99 <= e < 0,
                0 <= k <= -e,
                0 <= m <= MAX_MAGNITUDE,
                acc == scale_down(m as int, k as nat),
                0 <= acc <= m,
            decreases -e - k,
        {
            proof {
                lemma_scale_down_bounds(m as int, (k + 1) as nat);
            }
            acc = acc / 10;
            k = k + 1;
        }
    }
    Some(acc)
}

/// An index (one or more digits) at `i` and the position after it.
pub open spec fn index_at(s: Seq<u8>, i: int) -> Option<(int, int)> {
    let e = digits_end(s, i);
    if e == i || e - i > MAX_INDEX_DIGITS {
        None
    } else {
        Some((digits_value(s, i, e), e))
    }
}

proof fn lemma_digits_end_bounds(s: Seq<u8>, i: int)
    requires
        0 <= i <= s.len(),
    ensures
        i <= digits_end(s, i) <= s.len(),
        forall|k: int| i <= k < digits_end(s, i) ==> is_digit(#[trigger] s[k]),
    decreases s.len() - i,
{
    if i < s.len() && is_digit(s[i]) {
        lemma_digits_end_bounds(s, i + 1);
    }
}

proof fn lemma_digits_value_bound(s: Seq<u8>, i: int, j: int)
    requires
        i <= j,
        forall|k: int| i <= k < j ==> is_digit(#[trigger] s[k]),
    ensures
        0 <= digits_value(s, i, j) < pow10((j - i) as nat),
    decreases j - i,
{
    if j > i {
        lemma_digits_value_bound(s, i, j - 1);
        assert(is_digit(s[j - 1]));
    }
}

/// Moves past spaces.
pub fn skip_spaces_exec(s: &[u8], i: usize) -> (r: usize)
    requires
        i <= s@.len(),
    ensures
        r == skip_spaces(s@, i as int),
        i <= r <= s@.len(),
{
    let mut k = i;
    while k < s.len() && (s[k] == 32 || s[k] == 9 || s[k] == 13)
        invariant
            i <= k <= s@.len(),
            skip_spaces(s@, k as int) == skip_spaces(s@, i as int),
        decreases s@.len() - k,
    {
        k = k + 1;
    }
    k
}

/// Reads the digits starting at `i`: their value and where they end, or
/// `None` where there are more than `max` of them.
pub fn read_digits(s: &[u8], i: usize, max: usize) -> (r: Option<(u64, usize)>)
    requires
        i <= s@.len(),
        max <= 18,
    ensures
        r is Some <==> digits_end(s@, i as int) - i <= max,
        r matches Some((v, e)) ==> e == digits_end(s@, i as int) && v == digits_value(
            s@,
            i as int,
            e as int,
        ),
        r matches Some((v, e)) ==> i <= e <= s@.len(),
{
    let mut k = i;
    let mut v: u64 = 0;
    proof {
        lemma_digits_end_bounds(s@, i as int);
        assert(pow10(18) == 1_000_000_000_000_000_000) by {
            reveal_with_fuel(pow10, 19);
        }
    }
    while k < s.len() && 48 <= s[k] && s[k] <= 57
        invariant
            i <= k <= s@.len(),
            k - i <= max,
            max <= 18,
            digits_end(s@, k as int) == digits_end(s@, i as int),
            v as int == digits_value(s@, i as int, k as int),
            v < pow10((k - i) as nat),
            pow10(18) == 1_000_000_000_000_000_000,
        decreases s@.len() - k,
    {
        if k - i == max {
            proof {
                lemma_digits_end_bounds(s@, (k + 1) as int);
            }
            return None;
        }
        proof {
            lemma_pow10_mono(((k - i) + 1) as nat, 18);
        }
        v = v * 10 + (s[k] - 48) as u64;
        k = k + 1;
    }
    Some((v, k))
}

proof fn lemma_pow10_mono(a: nat, b: nat)
    requires
        a <= b,
    ensures
        1 <= pow10(a) <= pow10(b),
    decreases b,
{
    if a < b {
        lemma_pow10_mono(a, (b - 1) as nat);
    } else if b > 0 {
        lemma_pow10_mono((b - 1) as nat, (b - 1) as nat);
    }
}

/// Reads a decimal number at `i` as a fixed-point value.
pub fn read_number(s: &[u8], i: usize) -> (r: Option<(i64, usize)>)
    requires
        i <= s@.len(),
    ensures
        r is None <==> number_at(s@, i as int) is None,
        r matches Some((v, e)) ==> number_at(s@, i as int) == Some((v as int, e as int)),
        r matches Some((v, e)) ==> i <= e <= s@.len(),
{
    let neg = i < s.len() && s[i] == 45;
    let a = if i < s.len() && (s[i] == 45 || s[i] == 43) { i + 1 } else { i };
    let (w, b) = match read_digits(s, a, MAX_WHOLE_DIGITS) {
        None => return None,
        Some(p) => p,
    };
    proof {
        lemma_digits_end_bounds(s@, a as int);
        lemma_digits_value_bound(s@, a as int, b as int);
        lemma_pow10_mono((b - a) as nat, 12);
        assert(pow10(12) == 1_000_000_000_000) by {
            reveal_with_fuel(pow10, 13);
        }
        assert(pow10(6) == 1_000_000) by {
            reveal_with_fuel(pow10, 7);
        }
    }
    let has_dot = b < s.len() && s[b] == 46;
    let c = if has_dot { b + 1 } else { b };
    let mut k = c;
    let mut f: u64 = 0;
    proof {
        lemma_digits_end_bounds(s@, c as int);
    }
    if has_dot {
        while k < s.len() && 48 <= s[k] && s[k] <= 57 && k - c < FRACTION_DIGITS
            invariant
                c <= k <= s@.len(),
                k - c <= FRACTION_DIGITS,
                digits_end(s@, k as int) == digits_end(s@, c as int),
                f as int == digits_value(s@, c as int, k as int),
                f < pow10((k - c) as nat),
                pow10(6) == 1_000_000,
            decreases s@.len() - k,
        {
            proof {
                lemma_pow10_mono(((k - c) + 1) as nat, 6);
            }
            f = f * 10 + (s[k] - 48) as u64;
            k = k + 1;
        }
    }
    let kept = k;
    if has_dot {
        while k < s.len() && 48 <= s[k] && s[k] <= 57
            invariant
                kept <= k <= s@.len(),
                digits_end(s@, k as int) == digits_end(s@, c as int),
            decreases s@.len() - k,
        {
            k = k + 1;
        }
    }
    let d = k;
    let mut m: u64 = f;
    let mut n: usize = kept - c;
    assert(pow10(0) == 1);
    assert(f * pow10(0) == f);
    while n < FRACTION_DIGITS
        invariant
            kept - c <= n <= FRACTION_DIGITS,
            m as int == f * pow10((n - (kept - c)) as nat),
            m < pow10(n as nat),
            pow10(6) == 1_000_000,
        decreases FRACTION_DIGITS - n,
    {
        proof {
            lemma_pow10_mono((n + 1) as nat, 6);
            let e = (n - (kept - c)) as nat;
            assert(pow10(e + 1) == 10 * pow10(e));
            assert(pow10((n + 1) as nat) == 10 * pow10(n as nat));
            assert(f * (10 * pow10(e)) == (f * pow10(e)) * 10) by (nonlinear_arith);
        }
        m = m * 10;
        n = n + 1;
    }
    if (b - a) + (d - c) == 0 {
        return None;
    }
    let mag: i64 = (w as i64) * FIXED_ONE + m as i64;
    let (e, end) = match read_exponent(s, d) {
        None => return None,
        Some(x) => x,
    };
    let scaled = match scale_exec(mag, e) {
        None => return None,
        Some(x) => x,
    };
    let v: i64 = if neg { -scaled } else { scaled };
    Some((v, end))
}

/// Reads an index (one or more digits) at `i`.
pub fn read_index(s: &[u8], i: usize) -> (r: Option<(u64, usize)>)
    requires
        i <= s@.len(),
    ensures
        r is None <==> index_at(s@, i as int) is None,
        r matches Some((v, e)) ==> index_at(s@, i as int) == Some((v as int, e as int)),
        r matches Some((v, e)) ==> i <= e <= s@.len(),
{
    match read_digits(s, i, MAX_INDEX_DIGITS) {
        None => None,
        Some((v, e)) => {
            if e == i {
                None
            } else {
                Some((v, e))
            }
        },
    }
}

} // verus!
