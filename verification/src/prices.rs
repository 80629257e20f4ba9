//! Parsing of decimal price strings into fixed-point values.
//!
//! Both upstream feeds transmit prices as ASCII decimal strings.  A valid
//! price text is one or more digits, optionally followed by a dot and any
//! number of further digits.  Its value is stored scaled by `PRICE_SCALE`;
//! fractional digits beyond the sixth are truncated.  Malformed text, or a
//! value above `PX_MAX`, is rejected so that the caller can drop the tick.

use vstd::prelude::*;
use crate::{PRICE_SCALE, PX_MAX};

verus! {

pub open spec fn is_digit(b: u8) -> bool {
    48 <= b <= 57
}

pub open spec fn all_digits(s: Seq<u8>) -> bool {
    forall|i: int| 0 <= i < s.len() ==> is_digit(#[trigger] s[i])
}

/// Value of a string of decimal digits, most significant first.
pub open spec fn digits_val(s: Seq<u8>) -> int
    decreases s.len(),
{
    if s.len() == 0 {
        0
    } else {
        digits_val(s.drop_last()) * 10 + (s.last() - 48)
    }
}

/// Index of the first dot, or the length when there is none.
pub open spec fn dot_split(s: Seq<u8>) -> int
    decreases s.len(),
{
    if s.len() == 0 {
        0
    } else if s[0] == 46 {
        0
    } else {
        1 + dot_split(s.drop_first())
    }
}

/// A non-empty digit string, optionally followed by a dot and digits.
pub open spec fn is_price_text(s: Seq<u8>) -> bool {
    let d = dot_split(s);
    &&& 1 <= d
    &&& all_digits(s.subrange(0, d))
    &&& (d == s.len() || all_digits(s.subrange(d + 1, s.len() as int)))
}

/// The fractional digits padded or truncated to exactly six places.
pub open spec fn pad6(f: Seq<u8>) -> Seq<u8> {
    Seq::new(6, |k: int| if k < f.len() { f[k] } else { 48u8 })
}

/// Value contributed by the fractional part, in `PRICE_SCALE` ticks.
pub open spec fn frac_val(f: Seq<u8>) -> int {
    digits_val(pad6(f))
}

/// The scaled value of a well-formed price text.
pub open spec fn px_value(s: Seq<u8>) -> int {
    let d = dot_split(s);
    digits_val(s.subrange(0, d)) * (PRICE_SCALE as int) + if d == s.len() {
        0
    } else {
        frac_val(s.subrange(d + 1, s.len() as int))
    }
}

proof fn lemma_dot_split_char(s: Seq<u8>)
    ensures
        0 <= dot_split(s) <= s.len(),
        dot_split(s) < s.len() ==> s[dot_split(s)] == 46,
        forall|k: int| 0 <= k < dot_split(s) ==> s[k] != 46,
    decreases s.len(),
{
    if s.len() > 0 && s[0] != 46 {
        lemma_dot_split_char(s.drop_first());
        assert forall|k: int| 0 <= k < dot_split(s) implies s[k] != 46 by {
            if k > 0 {
                assert(s.drop_first()[k - 1] == s[k]);
                assert(s.drop_first()[k - 1] != 46);
            }
        }
    }
}

proof fn lemma_digits_push(t: Seq<u8>, b: u8)
    ensures
        digits_val(t.push(b)) == digits_val(t) * 10 + (b - 48),
{
    assert(t.push(b).drop_last() =~= t);
    assert(t.push(b).last() == b);
}

proof fn lemma_digits_nonneg(s: Seq<u8>)
    requires
        all_digits(s),
    ensures
        digits_val(s) >= 0,
    decreases s.len(),
{
    if s.len() > 0 {
        let t = s.drop_last();
        assert(forall|i: int| 0 <= i < t.len() ==> t[i] == #[trigger] s[i]);
        lemma_digits_nonneg(t);
    }
}

proof fn lemma_digits_prefix_le(s: Seq<u8>, i: int, j: int)
    requires
        0 <= i <= j <= s.len(),
        all_digits(s.subrange(0, j)),
    ensures
        digits_val(s.subrange(0, i)) <= digits_val(s.subrange(0, j)),
    decreases j - i,
{
    if i < j {
        let t = s.subrange(0, j - 1);
        assert(forall|k: int| 0 <= k < t.len() ==> t[k] == #[trigger] s.subrange(0, j)[k]);
        lemma_digits_prefix_le(s, i, j - 1);
        assert(s.subrange(0, j) =~= t.push(s[j - 1]));
        lemma_digits_push(t, s[j - 1]);
        lemma_digits_nonneg(t);
        assert(is_digit(s.subrange(0, j)[j - 1]));
    }
}

/// Upper bound on the value of `k` decimal digits, written out so that it
/// needs no recursion.
pub open spec fn ten_to(k: int) -> int {
    if k <= 0 {
        1
    } else if k == 1 {
        10
    } else if k == 2 {
        100
    } else if k == 3 {
        1_000
    } else if k == 4 {
        10_000
    } else if k == 5 {
        100_000
    } else {
        1_000_000
    }
}

/// Returns the byte at `base + off`, or an ASCII zero once past the end.
fn padded_digit(text: &Vec<u8>, base: usize, off: usize) -> (b: u8)
    requires
        base <= text@.len(),
    ensures
        b == if base + off < text@.len() {
            text@[base + off]
        } else {
            48u8
        },
{
    if off < text.len() - base {
        text[base + off]
    } else {
        48
    }
}

/// Parses an ASCII decimal price into its scaled fixed-point value.
/// Returns the value exactly when the text is well formed and the value
/// fits below `PX_MAX`; malformed or oversized prices are rejected.
pub fn parse_px(text: &Vec<u8>) -> (r: Option<i64>)
    ensures
        match r {
            Option::Some(v) => is_price_text(text@) && v == px_value(text@) && 0 <= v <= PX_MAX,
            Option::None => !is_price_text(text@) || px_value(text@) > PX_MAX,
        },
{
    let n = text.len();
    if n == 0 {
        return None;
    }
    let mut i: usize = 0;
    // units of the integer part; capped at PX_MAX / PRICE_SCALE
    let mut units: i64 = 0;
    while i < n
        invariant
            n == text@.len(),
            0 <= i <= n,
            forall|k: int| 0 <= k < i ==> text@[k] != 46,
            all_digits(text@.subrange(0, i as int)),
            units == digits_val(text@.subrange(0, i as int)),
            0 <= units <= 1_000_000_000,
        ensures
            n == text@.len(),
            0 <= i <= n,
            forall|k: int| 0 <= k < i ==> text@[k] != 46,
            all_digits(text@.subrange(0, i as int)),
            units == digits_val(text@.subrange(0, i as int)),
            0 <= units <= 1_000_000_000,
            i == n || text@[i as int] == 46,
        decreases n - i,
    {
        let b = text[i];
        if b == 46 {
            break;
        }
        if b < 48 || b > 57 {
            proof {
                lemma_dot_split_char(text@);
                let dp = dot_split(text@);
                if dp < i as int {
                    assert(text@[dp] == 46);
                    assert(false);
                }
                if dp == i as int {
                    assert(false);
                }
                if is_price_text(text@) {
                    assert(text@.subrange(0, dp)[i as int] == text@[i as int]);
                    assert(is_digit(text@[i as int]));
                    assert(false);
                }
            }
            return None;
        }
        proof {
            assert(text@.subrange(0, i + 1) =~= text@.subrange(0, i as int).push(text@[i as int]));
            lemma_digits_push(text@.subrange(0, i as int), text@[i as int]);
        }
        let next = units * 10 + (b - 48) as i64;
        if next > 1_000_000_000 {
            proof {
                lemma_dot_split_char(text@);
                let dp = dot_split(text@);
                if dp < i as int {
                    assert(text@[dp] == 46);
                    assert(false);
                }
                if dp == i as int {
                    assert(false);
                }
                if is_price_text(text@) {
                    assert(all_digits(text@.subrange(0, dp)));
                    lemma_digits_prefix_le(text@, i + 1, dp);
                    assert(digits_val(text@.subrange(0, dp)) >= next);
                    if dp < text@.len() {
                        let f = text@.subrange(dp + 1, text@.len() as int);
                        assert(all_digits(pad6(f))) by {
                            assert(forall|k: int|
                                0 <= k < 6 ==> is_digit(#[trigger] pad6(f)[k]));
                        }
                        lemma_digits_nonneg(pad6(f));
                    }
                    assert(px_value(text@) > PX_MAX);
                }
            }
            return None;
        }
        units = next;
        i = i + 1;
    }
    // integer part ran to the end: no fractional digits
    if i == n {
        proof {
            lemma_dot_split_char(text@);
            let dp = dot_split(text@);
            if dp < n as int {
                assert(text@[dp] == 46);
                assert(false);
            }
            assert(dp == n as int);
            assert(text@.subrange(0, n as int) =~= text@);
        }
        let v = units * PRICE_SCALE;
        return Some(v);
    }
    // a dot at position i
    proof {
        lemma_dot_split_char(text@);
        let dp = dot_split(text@);
        if dp < i as int {
            assert(text@[dp] == 46);
            assert(false);
        }
        if dp > i as int {
            assert(text@[i as int] != 46);
            assert(false);
        }
    }
    if i == 0 {
        return None;
    }
    // validate every fractional digit, however many there are
    let mut j: usize = i + 1;
    while j < n
        invariant
            n == text@.len(),
            0 < i < n,
            dot_split(text@) == i as int,
            i + 1 <= j <= n,
            all_digits(text@.subrange(i + 1, j as int)),
        decreases n - j,
    {
        let b = text[j];
        if b < 48 || b > 57 {
            proof {
                if is_price_text(text@) {
                    let f = text@.subrange(i + 1, n as int);
                    assert(f[j - i - 1] == text@[j as int]);
                    assert(is_digit(text@[j as int]));
                    assert(false);
                }
            }
            return None;
        }
        proof {
            assert(text@.subrange(i + 1, j + 1) =~= text@.subrange(i + 1, j as int).push(
                text@[j as int]));
        }
        j = j + 1;
    }
    let ghost f = text@.subrange(i + 1, n as int);
    proof {
        assert(f =~= text@.subrange(i + 1, j as int));
    }
    // accumulate exactly six fractional places, padding with zeros
    let mut fv: i64 = 0;
    let mut k: usize = 0;
    while k < 6
        invariant
            n == text@.len(),
            0 < i < n,
            f == text@.subrange(i + 1, n as int),
            all_digits(f),
            0 <= k <= 6,
            fv == digits_val(pad6(f).subrange(0, k as int)),
            0 <= fv < ten_to(k as int),
        decreases 6 - k,
    {
        let b = padded_digit(text, i + 1, k);
        proof {
            assert(pad6(f)[k as int] == b);
            assert(is_digit(b));
            assert(pad6(f).subrange(0, k + 1) =~= pad6(f).subrange(0, k as int).push(
                pad6(f)[k as int]));
            lemma_digits_push(pad6(f).subrange(0, k as int), pad6(f)[k as int]);
        }
        fv = fv * 10 + (b - 48) as i64;
        k = k + 1;
    }
    proof {
        assert(pad6(f).subrange(0, 6) =~= pad6(f));
    }
    let v = units * PRICE_SCALE + fv;
    if v > PX_MAX {
        return None;
    }
    Some(v)
}

} // verus!
