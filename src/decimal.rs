//! Decimal text, as the exchange and bar files write prices and volumes,
//! read into fixed-point values.

use vstd::prelude::*;
use crate::fixed::SCALE;
use vstd::string::StringSliceAdditionalSpecFns;

verus! {

/// The most digits before the decimal point.
pub const MAX_INT_DIGITS: usize = 18;

/// The most digits after the decimal point.
pub const MAX_FRAC_DIGITS: usize = 8;

/// An ASCII digit.
pub open spec fn is_digit(b: u8) -> bool {
    48 <= b <= 57
}

/// Every byte of `s` is a digit.
pub open spec fn all_digits(s: Seq<u8>) -> bool {
    forall|i: int| 0 <= i < s.len() ==> is_digit(#[trigger] s[i])
}

/// The number that the digits `s` write in base ten.
pub open spec fn digits_value(s: Seq<u8>) -> int
    decreases s.len(),
{
    if s.len() == 0 {
        0
    } else {
        digits_value(s.drop_last()) * 10 + (s.last() - 48)
    }
}

/// Ten to the power `n`.
pub open spec fn pow10(n: nat) -> int
    decreases n,
{
    if n == 0 {
        1
    } else {
        10 * pow10((n - 1) as nat)
    }
}

/// The index of the first `.` in `s`, or its length when there is none.
pub open spec fn dot_index(s: Seq<u8>) -> int
    decreases s.len(),
{
    if s.len() == 0 {
        0
    } else {
        let d = dot_index(s.drop_last());
        if d < s.len() - 1 {
            d
        } else if s.last() == 46 {
            s.len() - 1
        } else {
            s.len() as int
        }
    }
}

/// The fixed-point value of an unsigned decimal text: one to 18 digits,
/// optionally a point and one to eight digits; none for any other text.
pub open spec fn unsigned_value(s: Seq<u8>) -> Option<int> {
    let d = dot_index(s);
    let whole = s.subrange(0, d);
    let frac = if d < s.len() { s.subrange(d + 1, s.len() as int) } else { Seq::empty() };
    if 1 <= whole.len() <= MAX_INT_DIGITS && all_digits(whole) && (d == s.len() || (1 <= frac.len()
        <= MAX_FRAC_DIGITS && all_digits(frac))) {
        Some(digits_value(whole) * SCALE + digits_value(frac) * pow10((MAX_FRAC_DIGITS - frac.len()) as nat))
    } else {
        None
    }
}

/// The fixed-point value of a decimal text, with an optional leading `-`.
pub open spec fn decimal_value(s: Seq<u8>) -> Option<int> {
    if s.len() > 0 && s[0] == 45 {
        match unsigned_value(s.drop_first()) {
            Some(v) => Some(-v),
            None => None,
        }
    } else {
        unsigned_value(s)
    }
}

proof fn lemma_digits_bound(s: Seq<u8>)
    requires
        all_digits(s),
    ensures
        0 <= digits_value(s) < pow10(s.len()),
    decreases s.len(),
{
    if s.len() > 0 {
        assert(all_digits(s.drop_last())) by {
            assert forall|i: int| 0 <= i < s.drop_last().len() implies is_digit(#[trigger] s.drop_last()[i]) by {
                assert(s.drop_last()[i] == s[i]);
            }
        }
        lemma_digits_bound(s.drop_last());
        assert(is_digit(s[s.len() - 1]));
        let p = pow10((s.len() - 1) as nat);
        let v = digits_value(s.drop_last());
        assert(v * 10 + 9 < 10 * p) by (nonlinear_arith)
            requires 0 <= v < p;
    }
}

proof fn lemma_pow10_facts()
    ensures
        pow10(8) == SCALE,
        pow10(18) == 1_000_000_000_000_000_000,
{
    reveal_with_fuel(pow10, 19);
}

/// Reads the digits `b[lo..hi]` as a number.
fn read_digits(b: &[u8], lo: usize, hi: usize) -> (r: Option<i128>)
    requires
        lo <= hi <= b@.len(),
        hi - lo <= MAX_INT_DIGITS,
    ensures
        r is Some <==> all_digits(b@.subrange(lo as int, hi as int)),
        r matches Some(v) ==> v == digits_value(b@.subrange(lo as int, hi as int)) && 0 <= v
            < pow10((hi - lo) as nat),
{
    let mut v: i128 = 0;
    let mut j: usize = lo;
    while j < hi
        invariant
            lo <= j <= hi <= b@.len(),
            hi - lo <= MAX_INT_DIGITS,
            all_digits(b@.subrange(lo as int, j as int)),
            v == digits_value(b@.subrange(lo as int, j as int)),
            0 <= v < pow10((j - lo) as nat),
            pow10((j - lo) as nat) <= 1_000_000_000_000_000_000,
        decreases hi - j,
    {
        let c = b[j];
        let ghost t = b@.subrange(lo as int, j as int + 1);
        proof {
            assert(t.drop_last() =~= b@.subrange(lo as int, j as int));
            assert(t.last() == c);
        }
        if c < 48 || c > 57 {
            proof {
                assert(!is_digit(b@.subrange(lo as int, hi as int)[j - lo]));
            }
            return None;
        }
        proof {
            let p = pow10((j - lo) as nat);
            assert(pow10((j + 1 - lo) as nat) == 10 * p);
            assert(v * 10 + 9 < 10 * p) by (nonlinear_arith)
                requires 0 <= v < p;
            assert(all_digits(t)) by {
                assert forall|i: int| 0 <= i < t.len() implies is_digit(#[trigger] t[i]) by {
                    if i < t.len() - 1 {
                        assert(t[i] == b@.subrange(lo as int, j as int)[i]);
                    }
                }
            }
            lemma_pow10_facts();
            if j + 1 - lo <= 18 {
                lemma_pow10_monotone((j + 1 - lo) as nat, 18);
            }
        }
        v = v * 10 + (c - 48) as i128;
        j = j + 1;
    }
    Some(v)
}

proof fn lemma_pow10_monotone(a: nat, b: nat)
    requires
        a <= b,
    ensures
        1 <= pow10(a) <= pow10(b),
    decreases b,
{
    if a < b {
        lemma_pow10_monotone(a, (b - 1) as nat);
    } else if a > 0 {
        lemma_pow10_monotone((a - 1) as nat, (a - 1) as nat);
    }
}

proof fn lemma_dot_index(s: Seq<u8>, k: int)
    requires
        0 <= k <= s.len(),
        forall|i: int| 0 <= i < k ==> s[i] != 46,
        k == s.len() || s[k] == 46,
    ensures
        dot_index(s) == k,
    decreases s.len(),
{
    if s.len() > 0 {
        let t = s.drop_last();
        if k < s.len() - 1 {
            assert(t[k] == s[k]);
            lemma_dot_index(t, k);
        } else {
            assert forall|i: int| 0 <= i < t.len() implies t[i] != 46 by {
                assert(t[i] == s[i]);
            }
            lemma_dot_index(t, t.len() as int);
        }
    }
}

/// Ten to the power `n`, for `n` up to eight.
fn pow10_exec(n: usize) -> (r: i128)
    requires
        n <= MAX_FRAC_DIGITS,
    ensures
        r == pow10(n as nat),
        1 <= r <= SCALE,
{
    proof {
        lemma_pow10_facts();
        lemma_pow10_monotone(n as nat, 8);
    }
    let mut r: i128 = 1;
    let mut i: usize = 0;
    while i < n
        invariant
            i <= n <= MAX_FRAC_DIGITS,
            r == pow10(i as nat),
            pow10(n as nat) <= SCALE,
            1 <= r,
        decreases n - i,
    {
        proof {
            lemma_pow10_monotone((i + 1) as nat, n as nat);
        }
        r = r * 10;
        i = i + 1;
    }
    r
}

/// Reads a decimal text (an optional `-`, one to 18 digits, and optionally a
/// point and one to eight digits) into a fixed-point value; none for any
/// other text.
pub fn parse_decimal(text: &str) -> (r: Option<i128>)
    ensures
        match decimal_value(text.spec_bytes()) {
            Some(v) => r == Some(v as i128),
            None => r is None,
        },
{
    let b = text.as_bytes();
    let len = b.len();
    let neg = len > 0 && b[0] == 45;
    let start: usize = if neg { 1 } else { 0 };
    let ghost body = if neg { b@.drop_first() } else { b@ };
    assert(body =~= b@.subrange(start as int, len as int));
    let mut j: usize = start;
    while j < len && b[j] != 46
        invariant
            start <= j <= len,
            len == b@.len(),
            forall|i: int| start <= i < j ==> b@[i] != 46,
        decreases len - j,
    {
        j = j + 1;
    }
    proof {
        assert forall|i: int| 0 <= i < j - start implies body[i] != 46 by {
            assert(body[i] == b@[start + i]);
        }
        if j < len {
            assert(body[j - start] == b@[j as int]);
        }
        lemma_dot_index(body, j - start);
    }
    let whole_len: usize = j - start;
    if whole_len < 1 || whole_len > MAX_INT_DIGITS {
        return None;
    }
    assert(body.subrange(0, whole_len as int) =~= b@.subrange(start as int, j as int));
    let whole = match read_digits(b, start, j) {
        Some(v) => v,
        None => return None,
    };
    let mut frac: i128 = 0;
    let mut frac_len: usize = 0;
    if j < len {
        frac_len = len - j - 1;
        if frac_len < 1 || frac_len > MAX_FRAC_DIGITS {
            return None;
        }
        assert(body.subrange(j - start + 1, body.len() as int) =~= b@.subrange(j as int + 1, len as int));
        frac = match read_digits(b, j + 1, len) {
            Some(v) => v,
            None => return None,
        };
    } else {
        assert(digits_value(Seq::<u8>::empty()) == 0);
    }
    let p = pow10_exec(MAX_FRAC_DIGITS - frac_len);
    proof {
        lemma_pow10_facts();
        lemma_pow10_monotone(whole_len as nat, 18);
        lemma_pow10_monotone(frac_len as nat, 8);
        assert(0 <= whole * SCALE <= 1_000_000_000_000_000_000 * SCALE) by (nonlinear_arith)
            requires 0 <= whole <= 1_000_000_000_000_000_000;
        assert(0 <= frac * p <= SCALE * SCALE) by (nonlinear_arith)
            requires 0 <= frac <= SCALE, 1 <= p <= SCALE;
    }
    let v: i128 = whole * SCALE + frac * p;
    if neg {
        Some(-v)
    } else {
        Some(v)
    }
}

} // verus!
