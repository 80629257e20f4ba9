//! Exact z-score classification of the current deviation against the
//! rolling window.
//!
//! All statistics are computed over fixed-point integers, and the z-score
//! comparison `z > Z_THRESHOLD` is evaluated in cross-multiplied form so
//! that no division or square root is ever taken: with `n` entries, sum
//! `S`, sum of squares `Q`, Bessel-corrected variance `(n*Q - S*S) /
//! (n*(n-1))` and current deviation `d`, the comparison `(d - mean) /
//! stddev > Z_THRESHOLD` holds exactly when `n*d - S > 0` and
//! `(n-1)*(n*d - S)^2 > Z_THRESHOLD^2 * n * (n*Q - S*S)`.

use vstd::prelude::*;
use crate::window::DeviationWindow;
use crate::{DEV_LIMIT, PX_MAX, WINDOW_SIZE, Z_THRESHOLD};

verus! {

/// The scaled relative deviation `(mid - reference) / reference`,
/// truncated toward zero at `PRICE_SCALE` precision and clamped to
/// `DEV_LIMIT`.
pub open spec fn dev_spec(m: int, r: int) -> int {
    let raw = if m >= r {
        ((m - r) * 1_000_000) / r
    } else {
        -(((r - m) * 1_000_000) / r)
    };
    if raw > DEV_LIMIT as int {
        DEV_LIMIT as int
    } else if raw < -(DEV_LIMIT as int) {
        -(DEV_LIMIT as int)
    } else {
        raw
    }
}

/// Computes the scaled relative deviation of the mid price from the
/// reference price.
pub fn scaled_deviation(mid: i64, reference: i64) -> (d: i64)
    requires
        0 <= mid <= PX_MAX,
        1 <= reference <= PX_MAX,
    ensures
        d == dev_spec(mid as int, reference as int),
        -DEV_LIMIT <= d <= DEV_LIMIT,
{
    if mid >= reference {
        let num = ((mid - reference) as u128) * 1_000_000;
        let q = num / (reference as u128);
        if q > DEV_LIMIT as u128 {
            DEV_LIMIT
        } else {
            q as i64
        }
    } else {
        let num = ((reference - mid) as u128) * 1_000_000;
        let q = num / (reference as u128);
        if q > DEV_LIMIT as u128 {
            -DEV_LIMIT
        } else {
            -(q as i64)
        }
    }
}

/// The trade decision recomputed on every tick.
#[derive(PartialEq, Eq, Structural, Clone, Copy, Debug)]
pub enum Directive {
    Buy,
    Sell,
    Hold,
}

/// Sum of a sequence of deviations.
pub open spec fn sum_of(s: Seq<int>) -> int
    decreases s.len(),
{
    if s.len() == 0 {
        0
    } else {
        sum_of(s.drop_last()) + s.last()
    }
}

/// Sum of squared deviations.
pub open spec fn sumsq_of(s: Seq<int>) -> int
    decreases s.len(),
{
    if s.len() == 0 {
        0
    } else {
        sumsq_of(s.drop_last()) + s.last() * s.last()
    }
}

/// Numerator of the Bessel-corrected sample variance: the variance of `w`
/// equals `var_num(w) / (len * (len - 1))`.
pub open spec fn var_num(w: Seq<int>) -> int {
    w.len() * sumsq_of(w) - sum_of(w) * sum_of(w)
}

/// The directive for current deviation `d` against window `w`: `Sell` iff
/// the z-score exceeds `Z_THRESHOLD`, `Buy` iff it is below
/// `-Z_THRESHOLD`, `Hold` otherwise — and always `Hold` when the sample
/// standard deviation is degenerate (exactly zero at the stored
/// precision).
pub open spec fn classify(w: Seq<int>, d: int) -> Directive {
    let n = w.len() as int;
    let dn = n * d - sum_of(w);
    if n < 2 || var_num(w) == 0 {
        Directive::Hold
    } else if dn > 0 && (n - 1) * dn * dn > Z_THRESHOLD * Z_THRESHOLD * (n * var_num(w)) {
        Directive::Sell
    } else if dn < 0 && (n - 1) * dn * dn > Z_THRESHOLD * Z_THRESHOLD * (n * var_num(w)) {
        Directive::Buy
    } else {
        Directive::Hold
    }
}

proof fn lemma_sumsq_bound(s: Seq<int>, b: int)
    requires
        0 <= b,
        forall|i: int| 0 <= i < s.len() ==> -b <= #[trigger] s[i] <= b,
    ensures
        0 <= sumsq_of(s) <= (s.len() as int) * (b * b),
    decreases s.len(),
{
    if s.len() > 0 {
        let t = s.drop_last();
        assert(forall|i: int| 0 <= i < t.len() ==> -b <= #[trigger] t[i] <= b);
        lemma_sumsq_bound(t, b);
        let x = s.last();
        assert(0 <= x * x <= b * b) by (nonlinear_arith)
            requires -b <= x <= b;
        assert((t.len() as int) * (b * b) + b * b == (s.len() as int) * (b * b))
            by (nonlinear_arith)
            requires t.len() + 1 == s.len();
    }
}

/// The sample variance is never negative: `len * sumsq >= sum^2`.
pub proof fn lemma_variance_nonneg(w: Seq<int>)
    ensures
        var_num(w) >= 0,
    decreases w.len(),
{
    if w.len() == 0 {
    } else {
        let t = w.drop_last();
        let x = w.last();
        lemma_variance_nonneg(t);
        lemma_seq_abs_bound(t);
        lemma_sumsq_bound(t, seq_abs_bound(t));
        let n = t.len() as int;
        let s = sum_of(t);
        let q = sumsq_of(t);
        assert((n + 1) * (q + x * x) - (s + x) * (s + x) >= 0) by (nonlinear_arith)
            requires
                n >= 0,
                n * q - s * s >= 0,
                q >= 0;
    }
}

/// Some bound on the magnitudes of a sequence's entries, used only to
/// establish that sums of squares are nonnegative.
spec fn seq_abs_bound(s: Seq<int>) -> int
    decreases s.len(),
{
    if s.len() == 0 {
        0
    } else {
        let r = seq_abs_bound(s.drop_last());
        let a = if s.last() >= 0 { s.last() } else { -s.last() };
        if a > r { a } else { r }
    }
}

proof fn lemma_seq_abs_bound(s: Seq<int>)
    ensures
        0 <= seq_abs_bound(s),
        forall|i: int| 0 <= i < s.len() ==> -seq_abs_bound(s) <= #[trigger] s[i] <= seq_abs_bound(s),
    decreases s.len(),
{
    if s.len() > 0 {
        lemma_seq_abs_bound(s.drop_last());
        assert(forall|i: int| 0 <= i < s.len() - 1 ==> s.drop_last()[i] == #[trigger] s[i]);
    }
}

/// A window whose entries are all equal has zero sample variance, so no
/// directive ever fires against it, however extreme the raw deviation.
pub proof fn lemma_flat_history_no_signal(w: Seq<int>, d: int)
    requires
        forall|i: int| 0 <= i < w.len() ==> #[trigger] w[i] == w[0],
    ensures
        var_num(w) == 0,
        classify(w, d) == Directive::Hold,
{
    lemma_const_sums(w);
    let n = w.len() as int;
    let c = if w.len() == 0 { 0int } else { w[0] };
    assert(n * (n * (c * c)) - (n * c) * (n * c) == 0) by (nonlinear_arith);
}

proof fn lemma_const_sums(w: Seq<int>)
    requires
        forall|i: int| 0 <= i < w.len() ==> #[trigger] w[i] == w[0],
    ensures
        w.len() > 0 ==> sum_of(w) == (w.len() as int) * w[0],
        w.len() > 0 ==> sumsq_of(w) == (w.len() as int) * (w[0] * w[0]),
    decreases w.len(),
{
    if w.len() == 1 {
        let c = w[0];
        assert(w.drop_last().len() == 0);
        assert(sum_of(w.drop_last()) == 0);
        assert(sumsq_of(w.drop_last()) == 0);
        assert(w.last() == c);
        assert(sum_of(w) == c);
        assert(sumsq_of(w) == c * c);
        assert((w.len() as int) * c == c) by (nonlinear_arith)
            requires w.len() == 1;
        assert((w.len() as int) * (c * c) == c * c) by (nonlinear_arith)
            requires w.len() == 1;
    } else if w.len() > 1 {
        let t = w.drop_last();
        assert(forall|i: int| 0 <= i < t.len() ==> #[trigger] t[i] == t[0]);
        lemma_const_sums(t);
        let n = t.len() as int;
        let c = w[0];
        assert(t[0] == c);
        assert(w.last() == c);
        assert(n * c + c == (n + 1) * c) by (nonlinear_arith);
        assert(n * (c * c) + c * c == (n + 1) * (c * c)) by (nonlinear_arith);
    }
}

/// The classification in terms of the cross-multiplied z-score: with a
/// full window and non-degenerate variance, `Sell` fires exactly when the
/// z-score strictly exceeds the threshold, `Buy` exactly when it is
/// strictly below its negation, and a z-score exactly at the boundary
/// yields `Hold`.
pub proof fn lemma_directive_thresholds(w: Seq<int>, d: int)
    requires
        w.len() >= 2,
        var_num(w) != 0,
    ensures
        classify(w, d) == Directive::Sell <==> {
            let n = w.len() as int;
            let dn = n * d - sum_of(w);
            dn > 0 && (n - 1) * dn * dn > Z_THRESHOLD * Z_THRESHOLD * (n * var_num(w))
        },
        classify(w, d) == Directive::Buy <==> {
            let n = w.len() as int;
            let dn = n * d - sum_of(w);
            dn < 0 && (n - 1) * dn * dn > Z_THRESHOLD * Z_THRESHOLD * (n * var_num(w))
        },
        ({
            let n = w.len() as int;
            let dn = n * d - sum_of(w);
            (n - 1) * dn * dn == Z_THRESHOLD * Z_THRESHOLD * (n * var_num(w))
        }) ==> classify(w, d) == Directive::Hold,
{
}

proof fn lemma_take_sums(s: Seq<int>, i: int)
    requires
        0 <= i < s.len(),
    ensures
        sum_of(s.take(i + 1)) == sum_of(s.take(i)) + s[i],
        sumsq_of(s.take(i + 1)) == sumsq_of(s.take(i)) + s[i] * s[i],
{
    assert(s.take(i + 1).drop_last() =~= s.take(i));
    assert(s.take(i + 1).last() == s[i]);
}

/// Computes the directive for the current deviation `d` against the
/// window, exactly as `classify` states it; with fewer than two entries
/// there is no sample variance and the result is always `Hold`.
pub fn evaluate(w: &DeviationWindow, d: i64) -> (dir: Directive)
    requires
        w.wf(),
        -DEV_LIMIT <= d <= DEV_LIMIT,
    ensures
        dir == classify(w@, d as int),
{
    let n = w.len();
    if n < 2 {
        return Directive::Hold;
    }
    let mut i: usize = 0;
    let mut s: i128 = 0;
    let mut q: i128 = 0;
    while i < n
        invariant
            w.wf(),
            n == w@.len(),
            2 <= n <= WINDOW_SIZE,
            0 <= i <= n,
            s == sum_of(w@.take(i as int)),
            q == sumsq_of(w@.take(i as int)),
            -(i as int) * (DEV_LIMIT as int) <= s <= (i as int) * (DEV_LIMIT as int),
            0 <= q <= (i as int) * ((DEV_LIMIT as int) * (DEV_LIMIT as int)),
        decreases n - i,
    {
        let x = w.get(i);
        proof {
            lemma_take_sums(w@, i as int);
            assert(-(DEV_LIMIT as int) <= w@[i as int] <= DEV_LIMIT as int);
            assert(-((i + 1) as int) * (DEV_LIMIT as int) <= s + w@[i as int] <= ((i + 1) as int)
                * (DEV_LIMIT as int)) by (nonlinear_arith)
                requires
                    -(i as int) * (DEV_LIMIT as int) <= s <= (i as int) * (DEV_LIMIT as int),
                    -(DEV_LIMIT as int) <= w@[i as int] <= DEV_LIMIT as int;
            assert(0 <= q + w@[i as int] * w@[i as int] <= ((i + 1) as int) * ((DEV_LIMIT as int)
                * (DEV_LIMIT as int))) by (nonlinear_arith)
                requires
                    0 <= q <= (i as int) * ((DEV_LIMIT as int) * (DEV_LIMIT as int)),
                    -(DEV_LIMIT as int) <= w@[i as int] <= DEV_LIMIT as int;
        }
        s = s + x as i128;
        q = q + (x as i128) * (x as i128);
        i = i + 1;
    }
    proof {
        assert(w@.take(n as int) =~= w@);
        assert(-100_000_000_000_000_000 <= s <= 100_000_000_000_000_000) by (nonlinear_arith)
            requires
                2 <= n <= 100,
                -(n as int) * (DEV_LIMIT as int) <= s <= (n as int) * (DEV_LIMIT as int),
                (DEV_LIMIT as int) == 1_000_000_000_000_000;
        assert(0 <= q <= 100_000_000_000_000_000_000_000_000_000_000) by (nonlinear_arith)
            requires
                2 <= n <= 100,
                0 <= q <= (n as int) * ((DEV_LIMIT as int) * (DEV_LIMIT as int)),
                (DEV_LIMIT as int) == 1_000_000_000_000_000;
        assert(-100_000_000_000_000_000 <= (n as int) * (d as int) <= 100_000_000_000_000_000)
            by (nonlinear_arith)
            requires
                2 <= n <= 100,
                -1_000_000_000_000_000 <= d as int <= 1_000_000_000_000_000;
        assert(0 <= (n as int) * q <= 10_000_000_000_000_000_000_000_000_000_000_000)
            by (nonlinear_arith)
            requires
                2 <= n <= 100,
                0 <= q <= 100_000_000_000_000_000_000_000_000_000_000;
        assert(0 <= s * s <= 10_000_000_000_000_000_000_000_000_000_000_000)
            by (nonlinear_arith)
            requires
                -100_000_000_000_000_000 <= s <= 100_000_000_000_000_000;
    }
    let nn = n as i128;
    let dn: i128 = nn * (d as i128) - s;
    let vn: i128 = nn * q - s * s;
    proof {
        assert(var_num(w@) == (n as int) * q - s * s);
    }
    if vn == 0 {
        return Directive::Hold;
    }
    proof {
        assert(-19_800_000_000_000_000_000 <= (nn - 1) * dn <= 19_800_000_000_000_000_000)
            by (nonlinear_arith)
            requires
                2 <= nn <= 100,
                -200_000_000_000_000_000 <= dn <= 200_000_000_000_000_000;
        assert({
            let m = (nn - 1) * dn;
            -3_960_000_000_000_000_000_000_000_000_000_000_000 <= m * dn
                <= 3_960_000_000_000_000_000_000_000_000_000_000_000
        }) by (nonlinear_arith)
            requires
                -19_800_000_000_000_000_000 <= (nn - 1) * dn <= 19_800_000_000_000_000_000,
                -200_000_000_000_000_000 <= dn <= 200_000_000_000_000_000;
        assert(-10_000_000_000_000_000_000_000_000_000_000_000 <= vn
            <= 10_000_000_000_000_000_000_000_000_000_000_000);
        assert(-1_000_000_000_000_000_000_000_000_000_000_000_000 <= nn * vn
            <= 1_000_000_000_000_000_000_000_000_000_000_000_000) by (nonlinear_arith)
            requires
                2 <= nn <= 100,
                -10_000_000_000_000_000_000_000_000_000_000_000 <= vn
                    <= 10_000_000_000_000_000_000_000_000_000_000_000;
    }
    let lhs: i128 = (nn - 1) * dn * dn;
    let rhs: i128 = (Z_THRESHOLD as i128) * (Z_THRESHOLD as i128) * (nn * vn);
    if dn > 0 && lhs > rhs {
        Directive::Sell
    } else if dn < 0 && lhs > rhs {
        Directive::Buy
    } else {
        Directive::Hold
    }
}

} // verus!
