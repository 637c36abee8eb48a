//! Performance analytics: a report of metrics over a run's trades and its
//! equity curve. Ratios and percentages are fixed-point values too; a
//! division by a non-positive amount, or one whose result would not fit,
//! yields zero.

use vstd::prelude::*;
use crate::fixed::{bounded, fmul, tdiv, tdiv_exec, lemma_fmul_nonneg, MAX_FX, SCALE};
use crate::types::{EquityPoint, Trade};
use crate::backtester::trades_wf;

verus! {

/// The most trades a report is computed over.
pub const MAX_TRADES: usize = 1_000_000;

/// The most equity points a report is computed over.
pub const MAX_POINTS: usize = 1_000_000;

/// The largest numerator `ratio` divides.
pub const RATIO_LIMIT: i128 = 1_000_000_000_000_000_000_000_000_000_000;

/// `a / b` in fixed point; zero when `b` is not positive or `a` is too large.
pub open spec fn ratio(a: int, b: int) -> int {
    if b <= 0 || a < -RATIO_LIMIT || a > RATIO_LIMIT {
        0
    } else {
        tdiv(a * SCALE, b)
    }
}

/// `a / b` in fixed point; zero when `b` is not positive or `a` is too large.
pub fn fx_ratio(a: i128, b: i128) -> (r: i128)
    ensures
        r == ratio(a as int, b as int),
{
    if b <= 0 || a < -RATIO_LIMIT || a > RATIO_LIMIT {
        return 0;
    }
    assert(-100_000_000_000_000_000_000_000_000_000_000_000_000 <= (a as int) * SCALE
        <= 100_000_000_000_000_000_000_000_000_000_000_000_000) by (nonlinear_arith)
        requires
            -RATIO_LIMIT <= a <= RATIO_LIMIT,
    ;
    tdiv_exec(a * SCALE, b)
}

/// Running totals over a sequence of trades.
pub struct TradeTotals {
    pub net: int,
    pub profit: int,
    pub loss: int,
    pub wins: int,
    pub duration_secs: int,
    pub leverage: int,
    pub margin: int,
}

/// The margin a trade used: its notional over its leverage.
pub open spec fn margin_of(t: Trade) -> int {
    fmul(t.entry_price as int, t.quantity as int) / (t.leverage as int)
}

/// Sums over `ts`: net profit, gross profit, gross loss (as a positive
/// amount), winning trades, holding time in whole seconds, leverage and margin.
pub open spec fn totals(ts: Seq<Trade>) -> TradeTotals
    decreases ts.len(),
{
    if ts.len() == 0 {
        TradeTotals { net: 0, profit: 0, loss: 0, wins: 0, duration_secs: 0, leverage: 0, margin: 0 }
    } else {
        let p = totals(ts.drop_last());
        let t = ts.last();
        TradeTotals {
            net: p.net + t.pnl,
            profit: p.profit + if t.pnl > 0 { t.pnl as int } else { 0 },
            loss: p.loss + if t.pnl < 0 { -t.pnl } else { 0 },
            wins: p.wins + if t.pnl > 0 { 1int } else { 0 },
            duration_secs: p.duration_secs + (t.exit_time - t.entry_time) / 1000,
            leverage: p.leverage + t.leverage,
            margin: p.margin + margin_of(t),
        }
    }
}

/// Largest notional of a trade: 10^28 fixed-point units.
pub const MAX_NOTIONAL: i128 = 10_000_000_000_000_000_000_000_000_000;

/// Largest holding time of a trade in seconds.
pub const MAX_SECS: i128 = 20_000_000_000_000_000;

proof fn lemma_margin_bounds(t: Trade)
    requires
        t.wf(),
    ensures
        0 <= margin_of(t) <= MAX_NOTIONAL,
        0 <= fmul(t.entry_price as int, t.quantity as int) <= MAX_NOTIONAL,
{
    let a = t.entry_price as int;
    let b = t.quantity as int;
    assert(0 < a * b <= MAX_FX * MAX_FX) by (nonlinear_arith)
        requires 0 < a <= MAX_FX, 0 < b <= MAX_FX;
    assert((a * b) / SCALE as int <= MAX_NOTIONAL) by (nonlinear_arith)
        requires 0 < a * b <= MAX_FX * MAX_FX;
    lemma_fmul_nonneg(a, b);
    let n = fmul(a, b);
    assert(n / (t.leverage as int) <= n) by (nonlinear_arith)
        requires n >= 0, t.leverage >= 1;
    assert(n / (t.leverage as int) >= 0) by (nonlinear_arith)
        requires n >= 0, t.leverage >= 1;
}

/// Computes `totals` of the trades.
pub fn trade_totals(trades: &[Trade]) -> (r: (i128, i128, i128, i128, i128, i128, i128))
    requires
        trades_wf(trades@),
        trades@.len() <= MAX_TRADES,
    ensures
        ({
            let t = totals(trades@);
            &&& r.0 == t.net
            &&& r.1 == t.profit
            &&& r.2 == t.loss
            &&& r.3 == t.wins
            &&& r.4 == t.duration_secs
            &&& r.5 == t.leverage
            &&& r.6 == t.margin
        }),
        0 <= r.1,
        0 <= r.2,
        0 <= r.3 <= trades@.len(),
        0 <= r.5,
        0 <= r.6,
        -(MAX_TRADES as int) * MAX_FX <= r.0 <= (MAX_TRADES as int) * MAX_FX,
        r.1 <= (MAX_TRADES as int) * MAX_FX,
        r.2 <= (MAX_TRADES as int) * MAX_FX,
        r.6 <= (MAX_TRADES as int) * MAX_NOTIONAL,
        r.6 <= trades@.len() * MAX_NOTIONAL,
        r.4 <= (MAX_TRADES as int) * MAX_SECS,
        0 <= r.4,
        trades@.len() > 0 ==> r.5 >= trades@.len(),
        r.5 <= 255 * trades@.len(),
{
    let mut net: i128 = 0;
    let mut profit: i128 = 0;
    let mut loss: i128 = 0;
    let mut wins: i128 = 0;
    let mut dur: i128 = 0;
    let mut lev: i128 = 0;
    let mut margin: i128 = 0;
    let mut i: usize = 0;
    while i < trades.len()
        invariant
            i <= trades@.len() <= MAX_TRADES,
            trades_wf(trades@),
            ({
                let t = totals(trades@.subrange(0, i as int));
                &&& net == t.net
                &&& profit == t.profit
                &&& loss == t.loss
                &&& wins == t.wins
                &&& dur == t.duration_secs
                &&& lev == t.leverage
                &&& margin == t.margin
            }),
            -(i as int) * MAX_FX <= net <= (i as int) * MAX_FX,
            0 <= profit <= (i as int) * MAX_FX,
            0 <= loss <= (i as int) * MAX_FX,
            0 <= wins <= i,
            0 <= dur <= (i as int) * MAX_SECS,
            i <= lev <= (i as int) * 255,
            0 <= margin <= (i as int) * MAX_NOTIONAL,
        decreases trades@.len() - i,
    {
        let t = &trades[i];
        proof {
            let s = trades@.subrange(0, i as int + 1);
            assert(s.drop_last() =~= trades@.subrange(0, i as int));
            assert(s.last() == trades@[i as int]);
            assert(trades@[i as int].wf());
            lemma_margin_bounds(*t);
        }
        net = net + t.pnl;
        if t.pnl > 0 {
            profit = profit + t.pnl;
            wins = wins + 1;
        }
        if t.pnl < 0 {
            loss = loss - t.pnl;
        }
        let span: i128 = t.exit_time as i128 - t.entry_time as i128;
        assert(span / 1000 <= MAX_SECS) by (nonlinear_arith)
            requires 0 <= span <= 20_000_000_000_000_000_000;
        dur = dur + span / 1000;
        lev = lev + t.leverage as i128;
        let product: i128 = t.entry_price * t.quantity;
        let notional = tdiv_exec(product, SCALE);
        margin = margin + notional / (t.leverage as i128);
        i = i + 1;
    }
    assert(trades@.subrange(0, trades@.len() as int) =~= trades@);
    (net, profit, loss, wins, dur, lev, margin)
}

/// Running state of the drawdown scan over an equity curve.
pub struct DrawdownState {
    pub peak: int,
    pub max_dd: int,
    pub peak_at_dd: int,
    pub in_drawdown: bool,
    pub start: int,
    pub max_duration: int,
}

/// The drawdown scan before any point, from the initial capital.
pub open spec fn drawdown_start(initial: int) -> DrawdownState {
    DrawdownState {
        peak: initial,
        max_dd: 0,
        peak_at_dd: initial,
        in_drawdown: false,
        start: 0,
        max_duration: 0,
    }
}

/// One point of the drawdown scan: the running peak, the deepest fall below
/// it and the peak it fell from, and the longest span (in milliseconds) from
/// the first point below a peak to the point that regains it.
pub open spec fn drawdown_step(st: DrawdownState, p: EquityPoint) -> DrawdownState {
    let v = p.value as int;
    let peak = if v > st.peak { v } else { st.peak };
    let dd = peak - v;
    let (max_dd, peak_at_dd) = if dd > st.max_dd { (dd, peak) } else { (st.max_dd, st.peak_at_dd) };
    let t = p.timestamp as int;
    if v >= st.peak {
        let d = t - st.start;
        DrawdownState {
            peak,
            max_dd,
            peak_at_dd,
            in_drawdown: false,
            start: st.start,
            max_duration: if st.in_drawdown && d > st.max_duration { d } else { st.max_duration },
        }
    } else {
        DrawdownState {
            peak,
            max_dd,
            peak_at_dd,
            in_drawdown: true,
            start: if st.in_drawdown { st.start } else { t },
            max_duration: st.max_duration,
        }
    }
}

/// The drawdown scan after all of `pts`.
pub open spec fn drawdown(initial: int, pts: Seq<EquityPoint>) -> DrawdownState
    decreases pts.len(),
{
    if pts.len() == 0 {
        drawdown_start(initial)
    } else {
        drawdown_step(drawdown(initial, pts.drop_last()), pts.last())
    }
}

/// The longest span (in milliseconds) during which the equity stayed below
/// a prior peak, a drawdown still open at the last point included.
pub open spec fn drawdown_span(initial: int, pts: Seq<EquityPoint>) -> int {
    let st = drawdown(initial, pts);
    if st.in_drawdown && pts.len() > 0 {
        let d = pts.last().timestamp - st.start;
        if d > st.max_duration {
            d
        } else {
            st.max_duration
        }
    } else {
        st.max_duration
    }
}

/// Every equity value lies within the stored range.
pub open spec fn points_wf(pts: Seq<EquityPoint>) -> bool {
    forall|i: int| 0 <= i < pts.len() ==> bounded((#[trigger] pts[i]).value as int)
}

/// Scans the equity curve: returns the deepest drawdown, the peak it fell
/// from, and the longest drawdown span in milliseconds (`drawdown_span`).
pub fn drawdown_scan(initial: i128, pts: &[EquityPoint]) -> (r: (i128, i128, i128))
    requires
        bounded(initial as int),
        points_wf(pts@),
    ensures
        ({
            let st = drawdown(initial as int, pts@);
            r.0 == st.max_dd && r.1 == st.peak_at_dd && r.2 == drawdown_span(initial as int, pts@)
        }),
        0 <= r.0 <= 2 * MAX_FX,
        bounded(r.1 as int),
        0 <= r.2 <= 20_000_000_000_000_000_000,
{
    let mut peak: i128 = initial;
    let mut max_dd: i128 = 0;
    let mut peak_at_dd: i128 = initial;
    let mut in_dd = false;
    let mut start: i128 = 0;
    let mut max_dur: i128 = 0;
    let mut i: usize = 0;
    while i < pts.len()
        invariant
            i <= pts@.len(),
            points_wf(pts@),
            bounded(initial as int),
            ({
                let st = drawdown(initial as int, pts@.subrange(0, i as int));
                &&& peak == st.peak
                &&& max_dd == st.max_dd
                &&& peak_at_dd == st.peak_at_dd
                &&& in_dd == st.in_drawdown
                &&& start == st.start
                &&& max_dur == st.max_duration
            }),
            bounded(peak as int),
            bounded(peak_at_dd as int),
            0 <= max_dd <= 2 * MAX_FX,
            0 <= max_dur <= 20_000_000_000_000_000_000,
            i64::MIN <= start <= i64::MAX,
        decreases pts@.len() - i,
    {
        let p = pts[i];
        proof {
            let s = pts@.subrange(0, i as int + 1);
            assert(s.drop_last() =~= pts@.subrange(0, i as int));
            assert(s.last() == pts@[i as int]);
            assert(bounded(pts@[i as int].value as int));
        }
        let v = p.value;
        let old_peak = peak;
        if v > peak {
            peak = v;
        }
        let dd: i128 = peak - v;
        if dd > max_dd {
            max_dd = dd;
            peak_at_dd = peak;
        }
        let t = p.timestamp as i128;
        if v >= old_peak {
            let d: i128 = t - start;
            if in_dd && d > max_dur {
                max_dur = d;
            }
            in_dd = false;
        } else {
            if !in_dd {
                start = t;
            }
            in_dd = true;
        }
        i = i + 1;
    }
    assert(pts@.subrange(0, pts@.len() as int) =~= pts@);
    let span: i128 = if in_dd && pts.len() > 0 {
        let d: i128 = pts[pts.len() - 1].timestamp as i128 - start;
        if d > max_dur { d } else { max_dur }
    } else {
        max_dur
    };
    (max_dd, peak_at_dd, span)
}

/// The largest sum of squares the volatility measures are computed from.
pub const SQUARES_LIMIT: i128 = 100_000_000_000_000_000_000_000_000_000_000_000_000;

/// The largest magnitude whose square is within `SQUARES_LIMIT`.
pub const ROOT_LIMIT: i128 = 10_000_000_000_000_000_000;

/// The integer square root of `n`.
pub fn isqrt(n: i128) -> (r: i128)
    requires
        0 <= n <= SQUARES_LIMIT,
    ensures
        0 <= r <= ROOT_LIMIT,
        r * r <= n < (r + 1) * (r + 1),
{
    let mut lo: i128 = 0;
    let mut hi: i128 = ROOT_LIMIT + 1;
    assert(n < hi * hi) by (nonlinear_arith)
        requires n <= SQUARES_LIMIT, hi == ROOT_LIMIT + 1;
    while hi - lo > 1
        invariant
            0 <= lo < hi <= ROOT_LIMIT + 1,
            lo * lo <= n,
            n < hi * hi,
        decreases hi - lo,
    {
        let mid: i128 = lo + (hi - lo) / 2;
        assert(mid * mid <= SQUARES_LIMIT) by (nonlinear_arith)
            requires 0 <= mid <= ROOT_LIMIT;
        if mid * mid <= n {
            lo = mid;
        } else {
            hi = mid;
        }
    }
    assert(hi == lo + 1);
    lo
}

/// `r` is the integer square root of `n`.
pub open spec fn is_sqrt(n: int, r: int) -> bool {
    0 <= r && r * r <= n < (r + 1) * (r + 1)
}

/// The integer square root of a non-negative `n`.
pub open spec fn int_sqrt(n: int) -> int {
    choose|r: int| #[trigger] is_sqrt(n, r)
}

pub(crate) proof fn lemma_int_sqrt_unique(n: int, r: int)
    requires
        0 <= r,
        r * r <= n < (r + 1) * (r + 1),
    ensures
        int_sqrt(n) == r,
{
    assert(is_sqrt(n, r));
    let q = int_sqrt(n);
    assert(is_sqrt(n, q));
    if q < r {
        assert((q + 1) * (q + 1) <= r * r) by (nonlinear_arith)
            requires 0 <= q < r;
    } else if q > r {
        assert((r + 1) * (r + 1) <= q * q) by (nonlinear_arith)
            requires 0 <= r < q;
    }
}

/// The return from equity `v0` to `v1`, `v1 / v0 − 1`; zero when `v0` is not positive.
pub open spec fn step_return(v0: int, v1: int) -> int {
    if v0 <= 0 {
        0
    } else {
        ratio(v1, v0) - SCALE
    }
}

/// The returns between consecutive points of an equity curve.
pub open spec fn period_returns(pts: Seq<EquityPoint>) -> Seq<int> {
    if pts.len() == 0 {
        Seq::empty()
    } else {
        Seq::new((pts.len() - 1) as nat, |i: int| step_return(pts[i].value as int, pts[i + 1].value as int))
    }
}

/// The sum of `s`.
pub open spec fn sum(s: Seq<int>) -> int
    decreases s.len(),
{
    if s.len() == 0 {
        0
    } else {
        sum(s.drop_last()) + s.last()
    }
}

/// The sum of squared deviations of `s` from `mean`.
pub open spec fn squared_deviation(s: Seq<int>, mean: int) -> int
    decreases s.len(),
{
    if s.len() == 0 {
        0
    } else {
        squared_deviation(s.drop_last(), mean) + (s.last() - mean) * (s.last() - mean)
    }
}

/// The sum of squares of the negative elements of `s`.
pub open spec fn downside_squares(s: Seq<int>) -> int
    decreases s.len(),
{
    if s.len() == 0 {
        0
    } else {
        downside_squares(s.drop_last()) + if s.last() < 0 { s.last() * s.last() } else { 0 }
    }
}

/// The number of negative elements of `s`.
pub open spec fn downside_count(s: Seq<int>) -> int
    decreases s.len(),
{
    if s.len() == 0 {
        0
    } else {
        downside_count(s.drop_last()) + if s.last() < 0 { 1int } else { 0 }
    }
}

/// The mean of `s`, truncated; zero for an empty `s`.
pub open spec fn mean(s: Seq<int>) -> int {
    if s.len() == 0 {
        0
    } else {
        tdiv(sum(s), s.len() as int)
    }
}

/// A ratio that may be unbounded.
#[derive(Clone, Copy, Debug, PartialEq, Eq, Structural)]
pub enum Ratio {
    Finite(i128),
    Infinite,
}

/// Mean return over its standard deviation; zero when the deviation is zero
/// or the squares leave the computed range.
pub open spec fn sharpe(rs: Seq<int>) -> int {
    if rs.len() == 0 {
        0
    } else {
        let m = mean(rs);
        let sq = squared_deviation(rs, m);
        if sq > SQUARES_LIMIT {
            0
        } else {
            ratio(m, int_sqrt(tdiv(sq, rs.len() as int)))
        }
    }
}

/// Mean return over the root mean square of the negative returns; unbounded
/// when no return is negative or that root is zero, zero when the squares
/// leave the computed range or there are no returns.
pub open spec fn sortino(rs: Seq<int>) -> Ratio {
    if rs.len() == 0 {
        Ratio::Finite(0)
    } else {
        let n = downside_count(rs);
        let sq = downside_squares(rs);
        if n == 0 {
            Ratio::Infinite
        } else if sq > SQUARES_LIMIT {
            Ratio::Finite(0)
        } else {
            let dd = int_sqrt(tdiv(sq, n));
            if dd > 0 {
                Ratio::Finite(ratio(mean(rs), dd) as i128)
            } else {
                Ratio::Infinite
            }
        }
    }
}

/// The largest magnitude of a return.
pub const MAX_RETURN: i128 = 200_000_000_000_000_000_000_000_000;

fn step_return_exec(v0: i128, v1: i128) -> (r: i128)
    requires
        bounded(v1 as int),
    ensures
        r == step_return(v0 as int, v1 as int),
        -MAX_RETURN <= r <= MAX_RETURN,
{
    if v0 <= 0 {
        return 0;
    }
    let q = fx_ratio(v1, v0);
    assert(-MAX_FX * SCALE <= q <= MAX_FX * SCALE) by (nonlinear_arith)
        requires
            q == tdiv(v1 * SCALE, v0 as int),
            v0 >= 1,
            -MAX_FX <= v1 <= MAX_FX,
    {
        let a = v1 * SCALE;
        if a >= 0 {
            assert(a / (v0 as int) <= a) by (nonlinear_arith) requires a >= 0, v0 >= 1;
            assert(a / (v0 as int) >= 0) by (nonlinear_arith) requires a >= 0, v0 >= 1;
        } else {
            assert((-a) / (v0 as int) <= -a) by (nonlinear_arith) requires -a >= 0, v0 >= 1;
            assert((-a) / (v0 as int) >= 0) by (nonlinear_arith) requires -a >= 0, v0 >= 1;
        }
    }
    q - SCALE
}

/// Mean return, Sharpe ratio and Sortino ratio of an equity curve.
pub fn return_ratios(pts: &[EquityPoint]) -> (r: (i128, i128, Ratio))
    requires
        points_wf(pts@),
        pts@.len() <= MAX_POINTS,
    ensures
        r.0 == mean(period_returns(pts@)),
        r.1 == sharpe(period_returns(pts@)),
        r.2 == sortino(period_returns(pts@)),
{
    let ghost rs = period_returns(pts@);
    if pts.len() <= 1 {
        assert(rs.len() == 0);
        return (0, 0, Ratio::Finite(0));
    }
    let m: usize = pts.len() - 1;
    let mut total: i128 = 0;
    let mut neg_sq: i128 = 0;
    let mut neg_over = false;
    let mut neg_n: i128 = 0;
    let mut i: usize = 0;
    while i < m
        invariant
            m == pts@.len() - 1,
            rs == period_returns(pts@),
            rs.len() == m,
            m <= MAX_POINTS,
            points_wf(pts@),
            i <= m,
            total == sum(rs.subrange(0, i as int)),
            -(i as int) * MAX_RETURN <= total <= (i as int) * MAX_RETURN,
            neg_n == downside_count(rs.subrange(0, i as int)),
            0 <= neg_n <= i,
            !neg_over ==> neg_sq == downside_squares(rs.subrange(0, i as int)),
            neg_over ==> downside_squares(rs.subrange(0, i as int)) > SQUARES_LIMIT,
            0 <= neg_sq <= SQUARES_LIMIT,
            downside_squares(rs.subrange(0, i as int)) >= 0,
        decreases m - i,
    {
        let x = step_return_exec(pts[i].value, pts[i + 1].value);
        proof {
            assert(bounded(pts@[i as int + 1].value as int));
            let s = rs.subrange(0, i as int + 1);
            assert(s.drop_last() =~= rs.subrange(0, i as int));
            assert(s.last() == rs[i as int]);
            assert(rs[i as int] == x);
            assert(x * x >= 0) by (nonlinear_arith);
        }
        total = total + x;
        if x < 0 {
            neg_n = neg_n + 1;
            if !neg_over {
                if x < -ROOT_LIMIT {
                    assert(x * x > SQUARES_LIMIT) by (nonlinear_arith)
                        requires x < -ROOT_LIMIT;
                    neg_over = true;
                } else {
                    assert(x * x <= SQUARES_LIMIT) by (nonlinear_arith)
                        requires -ROOT_LIMIT <= x < 0;
                    let sq: i128 = x * x;
                    if sq > SQUARES_LIMIT - neg_sq {
                        neg_over = true;
                    } else {
                        neg_sq = neg_sq + sq;
                    }
                }
            }
        }
        i = i + 1;
    }
    assert(rs.subrange(0, m as int) =~= rs);
    let mean_r: i128 = tdiv_exec(total, m as i128);
    proof {
        let a = total as int;
        let b = m as int;
        if a >= 0 {
            assert(a / b <= a) by (nonlinear_arith) requires a >= 0, b >= 1;
            assert(a / b >= 0) by (nonlinear_arith) requires a >= 0, b >= 1;
        } else {
            assert((-a) / b <= -a) by (nonlinear_arith) requires -a >= 0, b >= 1;
            assert((-a) / b >= 0) by (nonlinear_arith) requires -a >= 0, b >= 1;
        }
    }
    let mut dev: i128 = 0;
    let mut dev_over = false;
    let mut j: usize = 0;
    while j < m
        invariant
            m == pts@.len() - 1,
            rs == period_returns(pts@),
            rs.len() == m,
            m <= MAX_POINTS,
            points_wf(pts@),
            j <= m,
            mean_r == mean(rs),
            -(MAX_POINTS as int) * MAX_RETURN <= mean_r <= (MAX_POINTS as int) * MAX_RETURN,
            !dev_over ==> dev == squared_deviation(rs.subrange(0, j as int), mean_r as int),
            dev_over ==> squared_deviation(rs.subrange(0, j as int), mean_r as int) > SQUARES_LIMIT,
            0 <= dev <= SQUARES_LIMIT,
            squared_deviation(rs.subrange(0, j as int), mean_r as int) >= 0,
        decreases m - j,
    {
        let x = step_return_exec(pts[j].value, pts[j + 1].value);
        proof {
            assert(bounded(pts@[j as int + 1].value as int));
            let s = rs.subrange(0, j as int + 1);
            assert(s.drop_last() =~= rs.subrange(0, j as int));
            assert(s.last() == rs[j as int]);
            assert(rs[j as int] == x);
            assert((x - mean_r) * (x - mean_r) >= 0) by (nonlinear_arith);
        }
        if !dev_over {
            let d: i128 = x - mean_r;
            if d < -ROOT_LIMIT || d > ROOT_LIMIT {
                assert(d * d > SQUARES_LIMIT) by (nonlinear_arith)
                    requires d < -ROOT_LIMIT || d > ROOT_LIMIT;
                dev_over = true;
            } else {
                assert(d * d <= SQUARES_LIMIT) by (nonlinear_arith)
                    requires -ROOT_LIMIT <= d <= ROOT_LIMIT;
                let sq: i128 = d * d;
                if sq > SQUARES_LIMIT - dev {
                    dev_over = true;
                } else {
                    dev = dev + sq;
                }
            }
        }
        j = j + 1;
    }
    assert(rs.subrange(0, m as int) =~= rs);
    let sharpe_r: i128 = if dev_over {
        0
    } else {
        let var: i128 = dev / (m as i128);
        assert(var <= dev) by (nonlinear_arith) requires var as int == (dev as int) / (m as int), dev >= 0, m >= 1;
        let sd = isqrt(var);
        proof {
            lemma_int_sqrt_unique(var as int, sd as int);
        }
        fx_ratio(mean_r, sd)
    };
    let sortino_r: Ratio = if neg_n == 0 {
        Ratio::Infinite
    } else if neg_over {
        Ratio::Finite(0)
    } else {
        let var: i128 = neg_sq / neg_n;
        assert(var <= neg_sq) by (nonlinear_arith) requires var as int == (neg_sq as int) / (neg_n as int), neg_sq >= 0, neg_n >= 1;
        let dd = isqrt(var);
        proof {
            lemma_int_sqrt_unique(var as int, dd as int);
        }
        if dd > 0 {
            Ratio::Finite(fx_ratio(mean_r, dd))
        } else {
            Ratio::Infinite
        }
    };
    (mean_r, sharpe_r, sortino_r)
}

/// A band of signal confidence for the per-band breakdown.
#[derive(Clone, Copy, Debug, PartialEq, Eq, Structural)]
pub enum ConfidenceBucket {
    /// 0 to 59 percent.
    UpTo59,
    /// 60 to 69 percent.
    From60To69,
    /// 70 to 79 percent.
    From70To79,
    /// 80 to 89 percent.
    From80To89,
    /// 90 to 100 percent.
    From90To100,
    /// Above 100 percent.
    Other,
}

impl ConfidenceBucket {
    /// The band's label, as reports print it.
    pub fn label(&self) -> &'static str {
        match self {
            ConfidenceBucket::UpTo59 => "0-59%",
            ConfidenceBucket::From60To69 => "60-69%",
            ConfidenceBucket::From70To79 => "70-79%",
            ConfidenceBucket::From80To89 => "80-89%",
            ConfidenceBucket::From90To100 => "90-100%",
            ConfidenceBucket::Other => "Other",
        }
    }
}

/// The whole percent of a fixed-point confidence, truncated; zero when negative.
pub open spec fn percent_of(c: int) -> int {
    if c <= 0 {
        0
    } else {
        (c * 100) / (SCALE as int)
    }
}

/// The band of a confidence.
pub open spec fn bucket_of(c: int) -> ConfidenceBucket {
    let p = percent_of(c);
    if p <= 59 {
        ConfidenceBucket::UpTo59
    } else if p <= 69 {
        ConfidenceBucket::From60To69
    } else if p <= 79 {
        ConfidenceBucket::From70To79
    } else if p <= 89 {
        ConfidenceBucket::From80To89
    } else if p <= 100 {
        ConfidenceBucket::From90To100
    } else {
        ConfidenceBucket::Other
    }
}

/// The band of a confidence.
pub fn bucket_for(c: i128) -> (r: ConfidenceBucket)
    ensures
        r == bucket_of(c as int),
{
    let p: i128 = if c <= 0 {
        0
    } else if c > 1_000_000_000_000_000_000_000_000_000_000 {
        101
    } else {
        (c * 100) / SCALE
    };
    assert(c > 1_000_000_000_000_000_000_000_000_000_000 ==> percent_of(c as int) > 100) by (nonlinear_arith)
        requires c > 1_000_000_000_000_000_000_000_000_000_000 ==> c * 100 > 101 * SCALE;
    if p <= 59 {
        ConfidenceBucket::UpTo59
    } else if p <= 69 {
        ConfidenceBucket::From60To69
    } else if p <= 79 {
        ConfidenceBucket::From70To79
    } else if p <= 89 {
        ConfidenceBucket::From80To89
    } else if p <= 100 {
        ConfidenceBucket::From90To100
    } else {
        ConfidenceBucket::Other
    }
}

/// Trade count, net profit and winning trades of the trades of `ts` in band `b`.
pub open spec fn bucket_totals(ts: Seq<Trade>, b: ConfidenceBucket) -> (int, int, int)
    decreases ts.len(),
{
    if ts.len() == 0 {
        (0, 0, 0)
    } else {
        let p = bucket_totals(ts.drop_last(), b);
        let t = ts.last();
        if bucket_of(t.signal_confidence as int) == b {
            (p.0 + 1, p.1 + t.pnl, p.2 + if t.pnl > 0 { 1int } else { 0 })
        } else {
            p
        }
    }
}

/// The bands in report order.
pub open spec fn bucket_at(k: int) -> ConfidenceBucket {
    if k == 0 {
        ConfidenceBucket::UpTo59
    } else if k == 1 {
        ConfidenceBucket::From60To69
    } else if k == 2 {
        ConfidenceBucket::From70To79
    } else if k == 3 {
        ConfidenceBucket::From80To89
    } else if k == 4 {
        ConfidenceBucket::From90To100
    } else {
        ConfidenceBucket::Other
    }
}

/// Trade count, net profit and win rate of one band.
#[derive(Clone, Copy, Debug, PartialEq, Eq, Structural)]
pub struct BucketReport {
    pub bucket: ConfidenceBucket,
    pub total_trades: u32,
    pub net_pnl_absolute: i128,
    pub win_rate: i128,
}

/// The report of band `b` over `ts`.
pub open spec fn bucket_report(ts: Seq<Trade>, b: ConfidenceBucket) -> BucketReport {
    let (n, net, wins) = bucket_totals(ts, b);
    BucketReport {
        bucket: b,
        total_trades: n as u32,
        net_pnl_absolute: net as i128,
        win_rate: ratio(100 * wins, n) as i128,
    }
}

/// Reports of the first `k` bands that hold a trade of `ts`, in band order.
pub open spec fn bucket_reports(ts: Seq<Trade>, k: int) -> Seq<BucketReport>
    decreases k,
{
    if k <= 0 {
        Seq::empty()
    } else {
        let prev = bucket_reports(ts, k - 1);
        if bucket_totals(ts, bucket_at(k - 1)).0 > 0 {
            prev.push(bucket_report(ts, bucket_at(k - 1)))
        } else {
            prev
        }
    }
}

/// Number of bands.
pub const BUCKETS: usize = 6;

fn bucket_at_exec(k: usize) -> (r: ConfidenceBucket)
    ensures
        r == bucket_at(k as int),
{
    if k == 0 {
        ConfidenceBucket::UpTo59
    } else if k == 1 {
        ConfidenceBucket::From60To69
    } else if k == 2 {
        ConfidenceBucket::From70To79
    } else if k == 3 {
        ConfidenceBucket::From80To89
    } else if k == 4 {
        ConfidenceBucket::From90To100
    } else {
        ConfidenceBucket::Other
    }
}

/// Totals of one band.
fn band_totals(trades: &[Trade], b: ConfidenceBucket) -> (r: (i128, i128, i128))
    requires
        trades_wf(trades@),
        trades@.len() <= MAX_TRADES,
    ensures
        r.0 == bucket_totals(trades@, b).0,
        r.1 == bucket_totals(trades@, b).1,
        r.2 == bucket_totals(trades@, b).2,
        0 <= r.2 <= r.0 <= trades@.len(),
        -(MAX_TRADES as int) * MAX_FX <= r.1 <= (MAX_TRADES as int) * MAX_FX,
{
    let mut n: i128 = 0;
    let mut net: i128 = 0;
    let mut wins: i128 = 0;
    let mut i: usize = 0;
    while i < trades.len()
        invariant
            i <= trades@.len() <= MAX_TRADES,
            trades_wf(trades@),
            bucket_totals(trades@.subrange(0, i as int), b) == (n as int, net as int, wins as int),
            0 <= wins <= n <= i,
            -(i as int) * MAX_FX <= net <= (i as int) * MAX_FX,
        decreases trades@.len() - i,
    {
        let t = &trades[i];
        proof {
            let s = trades@.subrange(0, i as int + 1);
            assert(s.drop_last() =~= trades@.subrange(0, i as int));
            assert(s.last() == trades@[i as int]);
            assert(trades@[i as int].wf());
        }
        if bucket_for(t.signal_confidence) == b {
            n = n + 1;
            net = net + t.pnl;
            if t.pnl > 0 {
                wins = wins + 1;
            }
        }
        i = i + 1;
    }
    assert(trades@.subrange(0, trades@.len() as int) =~= trades@);
    (n, net, wins)
}

/// The per-band breakdown, for the bands that hold a trade.
pub fn confidence_breakdown(trades: &[Trade]) -> (r: Vec<BucketReport>)
    requires
        trades_wf(trades@),
        trades@.len() <= MAX_TRADES,
    ensures
        r@ == bucket_reports(trades@, BUCKETS as int),
{
    let mut out: Vec<BucketReport> = Vec::new();
    let mut k: usize = 0;
    while k < BUCKETS
        invariant
            k <= BUCKETS,
            trades_wf(trades@),
            trades@.len() <= MAX_TRADES,
            out@ == bucket_reports(trades@, k as int),
        decreases BUCKETS - k,
    {
        let b = bucket_at_exec(k);
        let (n, net, wins) = band_totals(trades, b);
        if n > 0 {
            let rate = fx_ratio(100 * wins, n);
            out.push(BucketReport { bucket: b, total_trades: n as u32, net_pnl_absolute: net, win_rate: rate });
        }
        k = k + 1;
    }
    out
}

/// The metrics of a run.
#[derive(Debug)]
pub struct PerformanceReport {
    pub run_id: i64,
    pub net_pnl_absolute: i128,
    pub net_pnl_percentage: i128,
    pub max_drawdown_absolute: i128,
    pub max_drawdown_percentage: i128,
    pub sharpe_ratio: i128,
    pub win_rate: i128,
    pub profit_factor: Ratio,
    pub total_trades: u32,
    pub sortino_ratio: Ratio,
    pub calmar_ratio: i128,
    pub avg_trade_duration_secs: i128,
    pub expectancy: i128,
    pub confidence_performance: Vec<BucketReport>,
    pub larom: i128,
    pub funding_pnl: i128,
    pub drawdown_duration_secs: i64,
}

impl PerformanceReport {
    /// Every metric is zero and no band is reported.
    pub open spec fn is_zero(&self) -> bool {
        &&& self.run_id == 0
        &&& self.net_pnl_absolute == 0
        &&& self.net_pnl_percentage == 0
        &&& self.max_drawdown_absolute == 0
        &&& self.max_drawdown_percentage == 0
        &&& self.sharpe_ratio == 0
        &&& self.win_rate == 0
        &&& self.profit_factor == Ratio::Finite(0)
        &&& self.total_trades == 0
        &&& self.sortino_ratio == Ratio::Finite(0)
        &&& self.calmar_ratio == 0
        &&& self.avg_trade_duration_secs == 0
        &&& self.expectancy == 0
        &&& self.confidence_performance@.len() == 0
        &&& self.larom == 0
        &&& self.funding_pnl == 0
        &&& self.drawdown_duration_secs == 0
    }

    /// The zero report.
    pub fn new() -> (r: PerformanceReport)
        ensures
            r.is_zero(),
    {
        PerformanceReport {
            run_id: 0,
            net_pnl_absolute: 0,
            net_pnl_percentage: 0,
            max_drawdown_absolute: 0,
            max_drawdown_percentage: 0,
            sharpe_ratio: 0,
            win_rate: 0,
            profit_factor: Ratio::Finite(0),
            total_trades: 0,
            sortino_ratio: Ratio::Finite(0),
            calmar_ratio: 0,
            avg_trade_duration_secs: 0,
            expectancy: 0,
            confidence_performance: Vec::new(),
            larom: 0,
            funding_pnl: 0,
            drawdown_duration_secs: 0,
        }
    }
}

/// Gross profit over gross loss; unbounded without losses.
pub open spec fn profit_factor(t: TradeTotals) -> Ratio {
    if t.loss > 0 {
        Ratio::Finite(ratio(t.profit, t.loss) as i128)
    } else {
        Ratio::Infinite
    }
}

/// Net profit over the product of average margin and average leverage.
pub open spec fn larom(t: TradeTotals, n: int) -> int {
    let avg_margin = tdiv(t.margin, n);
    let denom = tdiv(avg_margin * t.leverage, n);
    if avg_margin > 0 {
        ratio(t.net, denom)
    } else {
        0
    }
}

/// What the report over a non-empty list of trades holds.
pub open spec fn report_matches(
    r: PerformanceReport,
    initial_capital: int,
    ts: Seq<Trade>,
    pts: Seq<EquityPoint>,
) -> bool {
    let n = ts.len() as int;
    let t = totals(ts);
    let dd = drawdown(initial_capital, pts);
    let rs = period_returns(pts);
    let net_pct = ratio(100 * t.net, initial_capital);
    let dd_pct = ratio(100 * dd.max_dd, dd.peak_at_dd);
    &&& r.run_id == 0
    &&& r.total_trades == n
    &&& r.net_pnl_absolute == t.net
    &&& r.net_pnl_percentage == net_pct
    &&& r.win_rate == ratio(100 * t.wins, n)
    &&& r.profit_factor == profit_factor(t)
    &&& r.max_drawdown_absolute == dd.max_dd
    &&& r.max_drawdown_percentage == dd_pct
    &&& r.sharpe_ratio == sharpe(rs)
    &&& r.sortino_ratio == sortino(rs)
    &&& r.calmar_ratio == ratio(net_pct, dd_pct)
    &&& r.avg_trade_duration_secs == ratio(t.duration_secs, n)
    &&& r.expectancy == tdiv(t.net, n)
    &&& r.confidence_performance@ == bucket_reports(ts, BUCKETS as int)
    &&& r.larom == larom(t, n)
    &&& r.funding_pnl == 0
    &&& r.drawdown_duration_secs == drawdown_span(initial_capital, pts) / 1000
}

/// Computes performance reports.
#[derive(Debug)]
pub struct AnalyticsEngine {}

impl AnalyticsEngine {
    pub fn new() -> (r: AnalyticsEngine) {
        AnalyticsEngine {  }
    }

    /// The report over `trades` and `equity_curve`: the zero report when
    /// there is no trade.
    pub fn calculate(
        &self,
        initial_capital: i128,
        trades: &[Trade],
        equity_curve: &[EquityPoint],
    ) -> (r: PerformanceReport)
        requires
            bounded(initial_capital as int),
            trades_wf(trades@),
            trades@.len() <= MAX_TRADES,
            points_wf(equity_curve@),
            equity_curve@.len() <= MAX_POINTS,
        ensures
            trades@.len() == 0 ==> r.is_zero(),
            trades@.len() > 0 ==> report_matches(r, initial_capital as int, trades@, equity_curve@),
    {
        let mut report = PerformanceReport::new();
        if trades.len() == 0 {
            return report;
        }
        let n: i128 = trades.len() as i128;
        let (net, profit, loss, wins, dur, lev, margin) = trade_totals(trades);
        report.total_trades = trades.len() as u32;
        report.net_pnl_absolute = net;
        let net_pct = fx_ratio(100 * net, initial_capital);
        report.net_pnl_percentage = net_pct;
        report.win_rate = fx_ratio(100 * wins, n);
        report.profit_factor = if loss > 0 {
            Ratio::Finite(fx_ratio(profit, loss))
        } else {
            Ratio::Infinite
        };
        let (max_dd, peak_at_dd, max_dur) = drawdown_scan(initial_capital, equity_curve);
        report.max_drawdown_absolute = max_dd;
        let dd_pct = fx_ratio(100 * max_dd, peak_at_dd);
        report.max_drawdown_percentage = dd_pct;
        let (_mean, sharpe_r, sortino_r) = return_ratios(equity_curve);
        report.sharpe_ratio = sharpe_r;
        report.sortino_ratio = sortino_r;
        report.calmar_ratio = fx_ratio(net_pct, dd_pct);
        report.avg_trade_duration_secs = fx_ratio(dur, n);
        report.expectancy = tdiv_exec(net, n);
        report.confidence_performance = confidence_breakdown(trades);
        let avg_margin = margin / n;
        assert(0 <= avg_margin <= MAX_NOTIONAL) by (nonlinear_arith)
            requires
                avg_margin as int == (margin as int) / (n as int),
                0 <= margin <= (n as int) * MAX_NOTIONAL,
                n >= 1,
        {
            assert((margin as int) / (n as int) <= ((n as int) * MAX_NOTIONAL) / (n as int)) by (nonlinear_arith)
                requires 0 <= margin <= (n as int) * MAX_NOTIONAL, n >= 1;
            assert(((n as int) * MAX_NOTIONAL) / (n as int) == MAX_NOTIONAL) by (nonlinear_arith)
                requires n >= 1;
        }
        assert(0 <= avg_margin * lev <= MAX_NOTIONAL * 255 * (MAX_TRADES as int)) by (nonlinear_arith)
            requires 0 <= avg_margin <= MAX_NOTIONAL, 0 <= lev <= 255 * (MAX_TRADES as int);
        let denom = (avg_margin * lev) / n;
        report.larom = if avg_margin > 0 {
            fx_ratio(net, denom)
        } else {
            0
        };
        report.funding_pnl = 0;
        report.drawdown_duration_secs = (max_dur / 1000) as i64;
        report
    }
}

proof fn lemma_totals_bounds(ts: Seq<Trade>)
    requires
        trades_wf(ts),
    ensures
        0 <= totals(ts).profit <= ts.len() * MAX_FX,
        0 <= totals(ts).loss <= ts.len() * MAX_FX,
    decreases ts.len(),
{
    if ts.len() > 0 {
        assert(trades_wf(ts.drop_last())) by {
            assert forall|i: int| 0 <= i < ts.drop_last().len() implies (#[trigger] ts.drop_last()[i]).wf() by {
                assert(ts.drop_last()[i] == ts[i]);
            }
        }
        lemma_totals_bounds(ts.drop_last());
        assert(ts.last() == ts[ts.len() - 1]);
        assert(ts.last().wf());
    }
}

/// Where the trades have both gains and losses, the profit factor times the
/// gross loss gives back the gross profit, up to the last fixed-point digit:
/// `pf · loss ≤ profit · 10^8 < (pf + 1) · loss`.
pub proof fn lemma_profit_factor(ts: Seq<Trade>)
    requires
        trades_wf(ts),
        ts.len() <= MAX_TRADES,
        totals(ts).loss > 0,
        totals(ts).profit > 0,
    ensures
        profit_factor(totals(ts)) matches Ratio::Finite(pf) && pf * totals(ts).loss <= totals(ts).profit
            * SCALE < (pf + 1) * totals(ts).loss,
{
    lemma_totals_bounds(ts);
    let t = totals(ts);
    assert(t.profit <= RATIO_LIMIT) by (nonlinear_arith)
        requires t.profit <= ts.len() * MAX_FX, ts.len() <= MAX_TRADES;
    let a = t.profit * SCALE;
    let q = a / t.loss;
    assert(q * t.loss <= a < (q + 1) * t.loss) by (nonlinear_arith)
        requires q == a / t.loss, t.loss > 0, a >= 0;
    assert(ratio(t.profit, t.loss) == q);
    assert(q <= a) by (nonlinear_arith)
        requires q == a / t.loss, t.loss > 0, a >= 0;
    assert(a <= RATIO_LIMIT * SCALE);
}

} // verus!
