//! Indicator kernels of the probabilistic-reversion strategy: RSI with
//! Wilder smoothing, simple moving averages, Bollinger bands and ADX, each
//! computed over a whole history.

use vstd::prelude::*;
use crate::analytics::{int_sqrt, isqrt, ratio, fx_ratio, ROOT_LIMIT, SQUARES_LIMIT};
use crate::fixed::{fmul, tdiv, tdiv_exec, MAX_FX, SCALE};
use crate::strategy::history_wf;
use crate::types::Kline;

verus! {

/// Running state of an RSI: deltas seen, their gain and loss sums while
/// seeding, the smoothed averages and the last close.
pub struct RsiState {
    pub count: int,
    pub gain_sum: int,
    pub loss_sum: int,
    pub avg_gain: int,
    pub avg_loss: int,
    pub prev: Option<int>,
}

/// The RSI state before any close.
pub open spec fn rsi_start() -> RsiState {
    RsiState { count: 0, gain_sum: 0, loss_sum: 0, avg_gain: 0, avg_loss: 0, prev: None }
}

/// How far `b` lies above `a`; zero when it does not.
pub open spec fn rise(a: int, b: int) -> int {
    if b > a {
        b - a
    } else {
        0
    }
}

/// One close of an RSI of period `n`: gains and losses are averaged over the
/// first `n` deltas, then smoothed as `a' = (a·(n − 1) + x) / n`.
pub open spec fn rsi_step(st: RsiState, x: int, n: int) -> RsiState {
    match st.prev {
        None => RsiState {
            count: st.count,
            gain_sum: st.gain_sum,
            loss_sum: st.loss_sum,
            avg_gain: st.avg_gain,
            avg_loss: st.avg_loss,
            prev: Some(x),
        },
        Some(p) => {
            let gain = rise(p, x);
            let loss = rise(x, p);
            let count = st.count + 1;
            if count <= n {
                RsiState {
                    count,
                    gain_sum: st.gain_sum + gain,
                    loss_sum: st.loss_sum + loss,
                    avg_gain: tdiv(st.gain_sum + gain, count),
                    avg_loss: tdiv(st.loss_sum + loss, count),
                    prev: Some(x),
                }
            } else {
                RsiState {
                    count,
                    gain_sum: st.gain_sum,
                    loss_sum: st.loss_sum,
                    avg_gain: tdiv(st.avg_gain * (n - 1) + gain, n),
                    avg_loss: tdiv(st.avg_loss * (n - 1) + loss, n),
                    prev: Some(x),
                }
            }
        },
    }
}

proof fn lemma_rsi_step(st: RsiState, x: int, n: int, p: int)
    requires
        st.prev == Some(p),
    ensures
        rsi_step(st, x, n).count == st.count + 1,
        rsi_step(st, x, n).prev == Some(x),
        st.count + 1 <= n ==> rsi_step(st, x, n).gain_sum == st.gain_sum + rise(p, x),
        st.count + 1 <= n ==> rsi_step(st, x, n).loss_sum == st.loss_sum + rise(x, p),
        st.count + 1 <= n ==> rsi_step(st, x, n).avg_gain == tdiv(st.gain_sum + rise(p, x), st.count + 1),
        st.count + 1 <= n ==> rsi_step(st, x, n).avg_loss == tdiv(st.loss_sum + rise(x, p), st.count + 1),
        st.count + 1 > n ==> rsi_step(st, x, n).gain_sum == st.gain_sum,
        st.count + 1 > n ==> rsi_step(st, x, n).loss_sum == st.loss_sum,
        st.count + 1 > n ==> rsi_step(st, x, n).avg_gain == tdiv(st.avg_gain * (n - 1) + rise(p, x), n),
        st.count + 1 > n ==> rsi_step(st, x, n).avg_loss == tdiv(st.avg_loss * (n - 1) + rise(x, p), n),
{
}

/// The RSI of a state, in fixed-point percent: `100·g/(g + l)`, which is
/// `100 − 100/(1 + g/l)`; 50 when there is neither gain nor loss.
pub open spec fn rsi_value(st: RsiState) -> int {
    if st.avg_gain + st.avg_loss <= 0 {
        50 * SCALE
    } else {
        ratio(100 * st.avg_gain, st.avg_gain + st.avg_loss)
    }
}

/// The RSI state after the closes of `ks`.
pub open spec fn rsi_state(ks: Seq<Kline>, n: int) -> RsiState
    decreases ks.len(),
{
    if ks.len() == 0 {
        rsi_start()
    } else {
        rsi_step(rsi_state(ks.drop_last(), n), ks.last().close as int, n)
    }
}

/// The RSI after each close of `ks`.
pub open spec fn rsi_series(ks: Seq<Kline>, n: int) -> Seq<int> {
    Seq::new(ks.len(), |i: int| rsi_value(rsi_state(ks.subrange(0, i + 1), n)))
}

/// The sum of `xs`.
pub open spec fn total(xs: Seq<int>) -> int
    decreases xs.len(),
{
    if xs.len() == 0 {
        0
    } else {
        total(xs.drop_last()) + xs.last()
    }
}

/// The number of elements a moving average of period `n` reads from `len` values.
pub open spec fn window_len(len: int, n: int) -> int {
    if len < n {
        len
    } else {
        n
    }
}

/// The last `window_len` elements of `xs`.
pub open spec fn window(xs: Seq<int>, n: int) -> Seq<int> {
    xs.subrange(xs.len() - window_len(xs.len() as int, n), xs.len() as int)
}

/// The simple moving average of period `n` after all of `xs`: the mean of the
/// last `n` values, or of all when fewer; zero for none.
pub open spec fn sma_last(xs: Seq<int>, n: int) -> int {
    if xs.len() == 0 {
        0
    } else {
        tdiv(total(window(xs, n)), window_len(xs.len() as int, n))
    }
}

/// The closes of `ks`.
pub open spec fn closes(ks: Seq<Kline>) -> Seq<int> {
    Seq::new(ks.len(), |i: int| ks[i].close as int)
}

/// The sum of squared deviations of `xs` from `m`.
pub open spec fn deviations(xs: Seq<int>, m: int) -> int
    decreases xs.len(),
{
    if xs.len() == 0 {
        0
    } else {
        deviations(xs.drop_last(), m) + (xs.last() - m) * (xs.last() - m)
    }
}

/// Middle and lower Bollinger bands of period `n` and width `k` after the
/// closes of `ks`: the moving average, less `k` population standard deviations.
pub open spec fn bollinger(ks: Seq<Kline>, n: int, k: int) -> (int, int) {
    let xs = closes(ks);
    let w = window(xs, n);
    let mid = sma_last(xs, n);
    let sd = int_sqrt(tdiv(deviations(w, mid), w.len() as int));
    (mid, mid - fmul(k, sd))
}

/// The values of `v` as integers.
pub open spec fn ints(v: Seq<i128>) -> Seq<int> {
    v.map_values(|x: i128| x as int)
}

/// The RSI of period `n` after each close of `klines`.
pub fn rsi_values(klines: &[Kline], n: u32) -> (r: Vec<i128>)
    requires
        n >= 1,
        history_wf(klines@),
    ensures
        ints(r@) == rsi_series(klines@, n as int),
        forall|i: int| 0 <= i < r@.len() ==> 0 <= #[trigger] r@[i] <= 100 * SCALE,
{
    let mut out: Vec<i128> = Vec::new();
    let mut count: u64 = 0;
    let mut gain_sum: i128 = 0;
    let mut loss_sum: i128 = 0;
    let mut avg_gain: i128 = 0;
    let mut avg_loss: i128 = 0;
    let mut prev: Option<i128> = None;
    let ghost nn = n as int;
    let mut i: usize = 0;
    while i < klines.len()
        invariant
            n >= 1,
            nn == n as int,
            i <= klines@.len(),
            history_wf(klines@),
            count <= i,
            ({
                let st = rsi_state(klines@.subrange(0, i as int), nn);
                &&& st.count == count
                &&& st.gain_sum == gain_sum
                &&& st.loss_sum == loss_sum
                &&& st.avg_gain == avg_gain
                &&& st.avg_loss == avg_loss
                &&& st.prev == (match prev { Some(p) => Some(p as int), None => None::<int> })
            }),
            0 <= gain_sum <= (if count <= n { count as int } else { nn }) * MAX_FX,
            0 <= loss_sum <= (if count <= n { count as int } else { nn }) * MAX_FX,
            0 <= avg_gain <= MAX_FX,
            0 <= avg_loss <= MAX_FX,
            prev matches Some(p) ==> 0 < p <= MAX_FX,
            out@.len() == i,
            forall|t: int| 0 <= t < i ==> #[trigger] ints(out@)[t] == rsi_series(klines@, nn)[t],
            forall|t: int| 0 <= t < out@.len() ==> 0 <= #[trigger] out@[t] <= 100 * SCALE,
        decreases klines@.len() - i,
    {
        let x = klines[i].close;
        proof {
            let t = klines@.subrange(0, i as int + 1);
            assert(t.drop_last() =~= klines@.subrange(0, i as int));
            assert(t.last() == klines@[i as int]);
            assert(klines@[i as int].wf());
        }
        match prev {
            None => {},
            Some(p) => {
                let gain: i128 = if x > p { x - p } else { 0 };
                let loss: i128 = if x < p { p - x } else { 0 };
                count = count + 1;
                if count <= n as u64 {
                    gain_sum = gain_sum + gain;
                    loss_sum = loss_sum + loss;
                    proof {
                        assert(gain_sum <= (count as int) * MAX_FX);
                        assert(loss_sum <= (count as int) * MAX_FX);
                        assert((gain_sum as int) / (count as int) <= MAX_FX) by (nonlinear_arith)
                            requires 0 <= gain_sum <= (count as int) * MAX_FX, count >= 1;
                        assert((loss_sum as int) / (count as int) <= MAX_FX) by (nonlinear_arith)
                            requires 0 <= loss_sum <= (count as int) * MAX_FX, count >= 1;
                        assert((gain_sum as int) / (count as int) >= 0) by (nonlinear_arith)
                            requires 0 <= gain_sum, count >= 1;
                        assert((loss_sum as int) / (count as int) >= 0) by (nonlinear_arith)
                            requires 0 <= loss_sum, count >= 1;
                    }
                    avg_gain = tdiv_exec(gain_sum, count as i128);
                    avg_loss = tdiv_exec(loss_sum, count as i128);
                } else {
                    let m: i128 = n as i128;
                    assert(0 <= avg_gain * (m - 1) <= MAX_FX * (m - 1)) by (nonlinear_arith)
                        requires 0 <= avg_gain <= MAX_FX, m >= 1;
                    assert(0 <= avg_loss * (m - 1) <= MAX_FX * (m - 1)) by (nonlinear_arith)
                        requires 0 <= avg_loss <= MAX_FX, m >= 1;
                    let ga: i128 = avg_gain * (m - 1) + gain;
                    let la: i128 = avg_loss * (m - 1) + loss;
                    proof {
                        assert((ga as int) / (m as int) <= MAX_FX) by (nonlinear_arith)
                            requires 0 <= ga <= MAX_FX * m, m >= 1;
                        assert((la as int) / (m as int) <= MAX_FX) by (nonlinear_arith)
                            requires 0 <= la <= MAX_FX * m, m >= 1;
                        assert((ga as int) / (m as int) >= 0) by (nonlinear_arith)
                            requires 0 <= ga, m >= 1;
                        assert((la as int) / (m as int) >= 0) by (nonlinear_arith)
                            requires 0 <= la, m >= 1;
                    }
                    avg_gain = tdiv_exec(ga, m);
                    avg_loss = tdiv_exec(la, m);
                }
                proof {
                    let st0 = rsi_state(klines@.subrange(0, i as int), nn);
                    lemma_rsi_step(st0, x as int, nn, p as int);
                }
            },
        }
        prev = Some(x);
        proof {
            let st0 = rsi_state(klines@.subrange(0, i as int), nn);
            let st1 = rsi_state(klines@.subrange(0, i as int + 1), nn);
            assert(st1 == rsi_step(st0, x as int, nn));
        }
        let v: i128 = if avg_gain + avg_loss <= 0 {
            50 * SCALE
        } else {
            let q = fx_ratio(100 * avg_gain, avg_gain + avg_loss);
            assert(0 <= q <= 100 * SCALE) by (nonlinear_arith)
                requires
                    q == tdiv(100 * avg_gain * SCALE, avg_gain + avg_loss),
                    0 <= avg_gain,
                    0 <= avg_loss,
                    avg_gain + avg_loss > 0,
            {
                let a = 100 * avg_gain * SCALE;
                let b = avg_gain + avg_loss;
                assert(a <= 100 * SCALE * b) by (nonlinear_arith) requires a == 100 * avg_gain * SCALE, 0 <= avg_loss, b == avg_gain + avg_loss;
                assert(a / b <= 100 * SCALE) by (nonlinear_arith) requires 0 <= a <= 100 * SCALE * b, b > 0;
                assert(a / b >= 0) by (nonlinear_arith) requires 0 <= a, b > 0;
            }
            q
        };
        let ghost before = out@;
        out.push(v);
        proof {
            assert forall|t: int| 0 <= t < i + 1 implies #[trigger] ints(out@)[t] == rsi_series(klines@, nn)[t] by {
                if t < i {
                    assert(out@[t] == before[t]);
                    assert(ints(before)[t] == rsi_series(klines@, nn)[t]);
                }
            }
        }
        i = i + 1;
    }
    assert(ints(out@) =~= rsi_series(klines@, nn));
    out
}

/// The simple moving average of period `n` after all of `xs`.
pub fn sma_of(xs: &Vec<i128>, n: u32) -> (r: i128)
    requires
        n >= 1,
        forall|i: int| 0 <= i < xs@.len() ==> 0 <= #[trigger] xs@[i] <= MAX_FX,
    ensures
        r == sma_last(ints(xs@), n as int),
        0 <= r <= MAX_FX,
{
    let len = xs.len();
    if len == 0 {
        return 0;
    }
    let m: usize = if len < n as usize { len } else { n as usize };
    let start: usize = len - m;
    let ghost w = window(ints(xs@), n as int);
    assert(w =~= ints(xs@).subrange(start as int, len as int));
    let mut acc: i128 = 0;
    let mut j: usize = start;
    while j < len
        invariant
            start <= j <= len,
            len == xs@.len(),
            forall|i: int| 0 <= i < xs@.len() ==> 0 <= #[trigger] xs@[i] <= MAX_FX,
            acc == total(ints(xs@).subrange(start as int, j as int)),
            0 <= acc <= (j - start) * MAX_FX,
            len - start <= u32::MAX,
        decreases len - j,
    {
        proof {
            let t = ints(xs@).subrange(start as int, j as int + 1);
            assert(t.drop_last() =~= ints(xs@).subrange(start as int, j as int));
            assert(t.last() == xs@[j as int] as int);
        }
        acc = acc + xs[j];
        j = j + 1;
    }
    proof {
        assert((acc as int) / (m as int) <= MAX_FX) by (nonlinear_arith)
            requires 0 <= acc <= (m as int) * MAX_FX, m >= 1;
        assert((acc as int) / (m as int) >= 0) by (nonlinear_arith)
            requires 0 <= acc, m >= 1;
    }
    tdiv_exec(acc, m as i128)
}

/// Middle and lower Bollinger bands of period `n` and width `k` after the
/// closes of `klines`.
pub fn bollinger_bands(klines: &[Kline], n: u32, k: i128) -> (r: (i128, i128))
    requires
        1 <= n,
        0 <= k <= MAX_FX,
        klines@.len() >= 1,
        history_wf(klines@),
    ensures
        r.0 == bollinger(klines@, n as int, k as int).0,
        r.1 == bollinger(klines@, n as int, k as int).1,
{
    let len = klines.len();
    let m: usize = if len < n as usize { len } else { n as usize };
    let start: usize = len - m;
    let ghost xs = closes(klines@);
    let ghost w = window(xs, n as int);
    assert(w =~= xs.subrange(start as int, len as int));
    let mut acc: i128 = 0;
    let mut j: usize = start;
    while j < len
        invariant
            start <= j <= len,
            len == klines@.len(),
            m == len - start,
            1 <= m <= u32::MAX,
            xs == closes(klines@),
            history_wf(klines@),
            acc == total(xs.subrange(start as int, j as int)),
            0 <= acc <= (j - start) * MAX_FX,
        decreases len - j,
    {
        proof {
            let t = xs.subrange(start as int, j as int + 1);
            assert(t.drop_last() =~= xs.subrange(start as int, j as int));
            assert(t.last() == klines@[j as int].close as int);
            assert(klines@[j as int].wf());
        }
        acc = acc + klines[j].close;
        j = j + 1;
    }
    proof {
        assert((acc as int) / (m as int) <= MAX_FX) by (nonlinear_arith)
            requires 0 <= acc <= (m as int) * MAX_FX, m >= 1;
        assert((acc as int) / (m as int) >= 0) by (nonlinear_arith)
            requires 0 <= acc, m >= 1;
    }
    let mid = tdiv_exec(acc, m as i128);
    assert(mid == sma_last(xs, n as int));
    // The sum of squared deviations can exceed the machine range for long
    // windows, so it is kept as a quotient and remainder by the window length.
    let mi: i128 = m as i128;
    let mut q: i128 = 0;
    let mut rem: i128 = 0;
    let mut j: usize = start;
    while j < len
        invariant
            start <= j <= len,
            len == klines@.len(),
            m == len - start,
            1 <= m <= u32::MAX,
            mi == m,
            xs == closes(klines@),
            history_wf(klines@),
            0 <= mid <= MAX_FX,
            q * mi + rem == deviations(xs.subrange(start as int, j as int), mid as int),
            0 <= rem < mi,
            0 <= q <= MAX_FX * MAX_FX,
            q * mi + rem <= (j - start) * (MAX_FX * MAX_FX),
        decreases len - j,
    {
        proof {
            let t = xs.subrange(start as int, j as int + 1);
            assert(t.drop_last() =~= xs.subrange(start as int, j as int));
            assert(t.last() == klines@[j as int].close as int);
            assert(klines@[j as int].wf());
        }
        let d: i128 = klines[j].close - mid;
        assert(0 <= d * d <= MAX_FX * MAX_FX) by (nonlinear_arith)
            requires -MAX_FX <= d <= MAX_FX;
        let t: i128 = d * d;
        let tq: i128 = t / mi;
        let tr: i128 = t % mi;
        let ghost q0 = q;
        let ghost r0 = rem;
        proof {
            assert(t == tq * mi + tr && 0 <= tr < mi && 0 <= tq) by (nonlinear_arith)
                requires tq == t / mi, tr == t % mi, t >= 0, mi >= 1;
            assert(tq * mi <= t) by (nonlinear_arith)
                requires t == tq * mi + tr, 0 <= tr;
            assert((q0 + tq) * mi == q0 * mi + tq * mi) by (nonlinear_arith);
            assert(((j - start) as int) * (MAX_FX * MAX_FX) + MAX_FX * MAX_FX == ((j + 1 - start) as int) * (
                MAX_FX * MAX_FX)) by (nonlinear_arith);
            assert(((j + 1 - start) as int) * (MAX_FX * MAX_FX) <= (m as int) * (MAX_FX * MAX_FX)) by (nonlinear_arith)
                requires j + 1 - start <= m;
            assert(q0 * mi + r0 + t <= ((j + 1 - start) as int) * (MAX_FX * MAX_FX));
            assert((q0 + tq) * mi <= (m as int) * (MAX_FX * MAX_FX));
            assert(q0 + tq <= MAX_FX * MAX_FX) by (nonlinear_arith)
                requires (q0 + tq) * mi <= (m as int) * (MAX_FX * MAX_FX), mi == m, mi >= 1;
        }
        q = q + tq;
        rem = rem + tr;
        if rem >= mi {
            proof {
                assert((q0 + tq + 1) * mi == (q0 + tq) * mi + mi) by (nonlinear_arith);
                assert((q0 + tq) * mi + r0 + tr == q0 * mi + r0 + t);
                assert((q0 + tq + 1) * mi <= q0 * mi + r0 + t);
                assert((q0 + tq + 1) * mi <= ((j + 1 - start) as int) * (MAX_FX * MAX_FX));
                assert(q0 + tq + 1 <= MAX_FX * MAX_FX) by (nonlinear_arith)
                    requires (q0 + tq + 1) * mi <= ((j + 1 - start) as int) * (MAX_FX * MAX_FX), j + 1 - start <= m, mi == m, mi >= 1;
            }
            q = q + 1;
            rem = rem - mi;
        }
        j = j + 1;
    }
    assert(xs.subrange(start as int, len as int) == w);
    let var: i128 = q;
    proof {
        vstd::arithmetic::div_mod::lemma_fundamental_div_mod_converse(
            deviations(w, mid as int),
            m as int,
            q as int,
            rem as int,
        );
    }
    assert(0 <= var <= SQUARES_LIMIT);
    let sd = isqrt(var);
    proof {
        crate::analytics::lemma_int_sqrt_unique(var as int, sd as int);
    }
    assert(0 <= k * sd <= MAX_FX * ROOT_LIMIT) by (nonlinear_arith)
        requires 0 <= k <= MAX_FX, 0 <= sd <= ROOT_LIMIT;
    let off = tdiv_exec(k * sd, SCALE);
    (mid, mid - off)
}

/// Running state of an ADX of period `p`: the index of the next bar, the
/// previous bar, the seeding sums, the smoothed true range and directional
/// movements, the sum of the first DX values and the ADX.
pub struct AdxState {
    pub i: int,
    pub prev: Option<Kline>,
    pub tr_sum: int,
    pub pdm_sum: int,
    pub mdm_sum: int,
    pub atr: int,
    pub pdm: int,
    pub mdm: int,
    pub dx_sum: int,
    pub adx: int,
}

/// The ADX state before any bar.
pub open spec fn adx_start() -> AdxState {
    AdxState { i: 0, prev: None, tr_sum: 0, pdm_sum: 0, mdm_sum: 0, atr: 0, pdm: 0, mdm: 0, dx_sum: 0, adx: 0 }
}

/// Upward and downward directional movement from bar `q` to bar `k`.
pub open spec fn directional(q: Kline, k: Kline) -> (int, int) {
    let hd = k.high - q.high;
    let ld = q.low - k.low;
    (if hd > 0 && hd > ld { hd } else { 0 }, if ld > 0 && ld > hd { ld } else { 0 })
}

/// The DX from smoothed movements and true range: `100·|+DI − −DI| / (+DI + −DI)`
/// with `±DI = 100·DM / ATR`, zero where a divisor is zero.
pub open spec fn dx_of(atr: int, pdm: int, mdm: int) -> int {
    let pdi = ratio(100 * pdm, atr);
    let mdi = ratio(100 * mdm, atr);
    let d = if pdi >= mdi { pdi - mdi } else { mdi - pdi };
    ratio(100 * d, pdi + mdi)
}

/// One bar of the ADX: true range and directional movements are averaged
/// over bars 1 to `p` and then Wilder-smoothed; DX is defined from bar `p`
/// on; the ADX is the mean of the first `p` DX values, then Wilder-smoothed.
pub open spec fn adx_step(st: AdxState, k: Kline, p: int) -> AdxState {
    let i = st.i;
    let (tr, up, down) = match st.prev {
        None => (0, 0, 0),
        Some(q) => {
            let (u, d) = directional(q, k);
            (crate::indicators::true_range(k.high as int, k.low as int, Some(q.close as int)), u, d)
        },
    };
    let seeding = 1 <= i && i <= p;
    let tr_sum = if seeding { st.tr_sum + tr } else { st.tr_sum };
    let pdm_sum = if seeding { st.pdm_sum + up } else { st.pdm_sum };
    let mdm_sum = if seeding { st.mdm_sum + down } else { st.mdm_sum };
    let (atr, pdm, mdm) = if i == p {
        (tdiv(tr_sum, p), tdiv(pdm_sum, p), tdiv(mdm_sum, p))
    } else if i > p {
        (tdiv(st.atr * (p - 1) + tr, p), tdiv(st.pdm * (p - 1) + up, p), tdiv(st.mdm * (p - 1) + down, p))
    } else {
        (0, 0, 0)
    };
    let dx = if i >= p { dx_of(atr, pdm, mdm) } else { 0 };
    let dx_sum = if p <= i && i < 2 * p { st.dx_sum + dx } else { st.dx_sum };
    let adx = if i == 2 * p - 1 {
        tdiv(dx_sum, p)
    } else if i > 2 * p - 1 {
        tdiv(st.adx * (p - 1) + dx, p)
    } else {
        0
    };
    AdxState { i: i + 1, prev: Some(k), tr_sum, pdm_sum, mdm_sum, atr, pdm, mdm, dx_sum, adx }
}

/// The ADX state after all of `ks`.
pub open spec fn adx_state(ks: Seq<Kline>, p: int) -> AdxState
    decreases ks.len(),
{
    if ks.len() == 0 {
        adx_start()
    } else {
        adx_step(adx_state(ks.drop_last(), p), ks.last(), p)
    }
}

proof fn lemma_dx_bound(atr: int, pdm: int, mdm: int)
    requires
        0 <= pdm <= MAX_FX,
        0 <= mdm <= MAX_FX,
        0 <= atr,
    ensures
        0 <= dx_of(atr, pdm, mdm) <= 100 * SCALE,
{
    let pdi = ratio(100 * pdm, atr);
    let mdi = ratio(100 * mdm, atr);
    if atr > 0 {
        assert(0 <= (100 * pdm * SCALE) / atr <= 100 * pdm * SCALE) by (nonlinear_arith)
            requires 0 <= pdm, atr >= 1;
        assert(0 <= (100 * mdm * SCALE) / atr <= 100 * mdm * SCALE) by (nonlinear_arith)
            requires 0 <= mdm, atr >= 1;
    }
    assert(0 <= pdi <= 100 * MAX_FX * SCALE);
    assert(0 <= mdi <= 100 * MAX_FX * SCALE);
    let d = if pdi >= mdi { pdi - mdi } else { mdi - pdi };
    let b = pdi + mdi;
    if b > 0 {
        let a = 100 * d * SCALE;
        assert(a <= 100 * SCALE * b) by (nonlinear_arith)
            requires a == 100 * d * SCALE, 0 <= d <= b;
        assert(a / b <= 100 * SCALE) by (nonlinear_arith)
            requires 0 <= a <= 100 * SCALE * b, b > 0;
        assert(a / b >= 0) by (nonlinear_arith)
            requires 0 <= a, b > 0;
    }
}

/// The DX from smoothed movements and true range.
fn dx_exec(atr: i128, pdm: i128, mdm: i128) -> (r: i128)
    requires
        0 <= pdm <= MAX_FX,
        0 <= mdm <= MAX_FX,
        0 <= atr <= MAX_FX,
    ensures
        r == dx_of(atr as int, pdm as int, mdm as int),
        0 <= r <= 100 * SCALE,
{
    proof {
        lemma_dx_bound(atr as int, pdm as int, mdm as int);
    }
    let pdi = fx_ratio(100 * pdm, atr);
    let mdi = fx_ratio(100 * mdm, atr);
    proof {
        if atr > 0 {
            assert(0 <= (100 * pdm * SCALE) / (atr as int) <= 100 * pdm * SCALE) by (nonlinear_arith)
                requires 0 <= pdm, atr >= 1;
            assert(0 <= (100 * mdm * SCALE) / (atr as int) <= 100 * mdm * SCALE) by (nonlinear_arith)
                requires 0 <= mdm, atr >= 1;
        }
    }
    let d: i128 = if pdi >= mdi { pdi - mdi } else { mdi - pdi };
    fx_ratio(100 * d, pdi + mdi)
}

proof fn lemma_mean_bound(sum: int, p: int, cap: int)
    requires
        p >= 1,
        0 <= sum <= p * cap,
    ensures
        0 <= tdiv(sum, p) <= cap,
{
    assert(sum / p <= cap) by (nonlinear_arith)
        requires p >= 1, 0 <= sum <= p * cap;
    assert(sum / p >= 0) by (nonlinear_arith)
        requires p >= 1, 0 <= sum;
}

proof fn lemma_wilder_bound(v: int, x: int, p: int, cap: int)
    requires
        p >= 1,
        0 <= v <= cap,
        0 <= x <= cap,
    ensures
        0 <= v * (p - 1) <= cap * (p - 1),
        0 <= v * (p - 1) + x <= p * cap,
        0 <= tdiv(v * (p - 1) + x, p) <= cap,
{
    assert(0 <= v * (p - 1) <= cap * (p - 1)) by (nonlinear_arith)
        requires 0 <= v <= cap, p >= 1;
    assert(cap * (p - 1) + cap == p * cap) by (nonlinear_arith);
    lemma_mean_bound(v * (p - 1) + x, p, cap);
}

/// The running ADX computation.
#[derive(Clone, Copy)]
struct AdxRun {
    i: u64,
    prev: Option<Kline>,
    tr_sum: i128,
    pdm_sum: i128,
    mdm_sum: i128,
    atr: i128,
    pdm: i128,
    mdm: i128,
    dx_sum: i128,
    adx: i128,
}

impl AdxRun {
    spec fn view(&self) -> AdxState {
        AdxState {
            i: self.i as int,
            prev: self.prev,
            tr_sum: self.tr_sum as int,
            pdm_sum: self.pdm_sum as int,
            mdm_sum: self.mdm_sum as int,
            atr: self.atr as int,
            pdm: self.pdm as int,
            mdm: self.mdm as int,
            dx_sum: self.dx_sum as int,
            adx: self.adx as int,
        }
    }

    spec fn wf(&self, p: int) -> bool {
        let i = self.i as int;
        &&& (self.prev matches Some(q) ==> q.wf())
        &&& (i == 0 <==> self.prev is None)
        &&& 0 <= self.tr_sum <= p * MAX_FX
        &&& 0 <= self.pdm_sum <= p * MAX_FX
        &&& 0 <= self.mdm_sum <= p * MAX_FX
        &&& (i <= p + 1 ==> ({
            let c = if i == 0 { 0 } else { i - 1 };
            self.tr_sum <= c * MAX_FX && self.pdm_sum <= c * MAX_FX && self.mdm_sum <= c * MAX_FX
        }))
        &&& 0 <= self.atr <= MAX_FX
        &&& 0 <= self.pdm <= MAX_FX
        &&& 0 <= self.mdm <= MAX_FX
        &&& 0 <= self.dx_sum <= p * (100 * SCALE)
        &&& (i <= 2 * p ==> self.dx_sum <= (if i <= p { 0 } else { i - p }) * (100 * SCALE))
        &&& 0 <= self.adx <= 100 * SCALE
    }

    fn seed_sums(&mut self, tr: i128, up: i128, down: i128, p: i128)
        requires
            1 <= p <= u32::MAX,
            old(self).wf(p as int),
            1 <= old(self).i <= p,
            0 <= tr <= MAX_FX,
            0 <= up <= MAX_FX,
            0 <= down <= MAX_FX,
        ensures
            *final(self) == (AdxRun {
                tr_sum: (old(self).tr_sum + tr) as i128,
                pdm_sum: (old(self).pdm_sum + up) as i128,
                mdm_sum: (old(self).mdm_sum + down) as i128,
                ..*old(self)
            }),
            final(self).tr_sum == old(self).tr_sum + tr,
            final(self).pdm_sum == old(self).pdm_sum + up,
            final(self).mdm_sum == old(self).mdm_sum + down,
            final(self).tr_sum <= (old(self).i as int) * MAX_FX,
            final(self).pdm_sum <= (old(self).i as int) * MAX_FX,
            final(self).mdm_sum <= (old(self).i as int) * MAX_FX,
    {
        let ii = self.i;
        assert((ii as int) * MAX_FX == ((ii - 1) as int) * MAX_FX + MAX_FX) by (nonlinear_arith);
        assert((ii as int) * MAX_FX <= p * MAX_FX) by (nonlinear_arith) requires ii <= p;
        self.tr_sum = self.tr_sum + tr;
        self.pdm_sum = self.pdm_sum + up;
        self.mdm_sum = self.mdm_sum + down;
    }

    fn step(&mut self, k: &Kline, p: i128)
        requires
            1 <= p <= u32::MAX,
            old(self).wf(p as int),
            k.wf(),
            old(self).i < u64::MAX,
        ensures
            final(self).wf(p as int),
            final(self)@ == adx_step(old(self)@, *k, p as int),
    {
        let (tr, up, down): (i128, i128, i128) = match self.prev {
            None => (0, 0, 0),
            Some(q) => {
                let hd: i128 = k.high - q.high;
                let ld: i128 = q.low - k.low;
                let u: i128 = if hd > 0 && hd > ld { hd } else { 0 };
                let d: i128 = if ld > 0 && ld > hd { ld } else { 0 };
                let span: i128 = k.high - k.low;
                let a: i128 = if k.high - q.close >= 0 { k.high - q.close } else { q.close - k.high };
                let b: i128 = if k.low - q.close >= 0 { k.low - q.close } else { q.close - k.low };
                let mm = if span >= a { span } else { a };
                let t = if mm >= b { mm } else { b };
                (t, u, d)
            },
        };
        assert(0 <= tr <= MAX_FX && 0 <= up <= MAX_FX && 0 <= down <= MAX_FX);
        let ii: i128 = self.i as i128;
        if 1 <= ii && ii <= p {
            self.seed_sums(tr, up, down, p);
        }
        if ii == p {
            proof {
                lemma_mean_bound(self.tr_sum as int, p as int, MAX_FX as int);
                lemma_mean_bound(self.pdm_sum as int, p as int, MAX_FX as int);
                lemma_mean_bound(self.mdm_sum as int, p as int, MAX_FX as int);
            }
            self.atr = tdiv_exec(self.tr_sum, p);
            self.pdm = tdiv_exec(self.pdm_sum, p);
            self.mdm = tdiv_exec(self.mdm_sum, p);
        } else if ii > p {
            proof {
                lemma_wilder_bound(self.atr as int, tr as int, p as int, MAX_FX as int);
                lemma_wilder_bound(self.pdm as int, up as int, p as int, MAX_FX as int);
                lemma_wilder_bound(self.mdm as int, down as int, p as int, MAX_FX as int);
            }
            self.atr = tdiv_exec(self.atr * (p - 1) + tr, p);
            self.pdm = tdiv_exec(self.pdm * (p - 1) + up, p);
            self.mdm = tdiv_exec(self.mdm * (p - 1) + down, p);
        } else {
            self.atr = 0;
            self.pdm = 0;
            self.mdm = 0;
        }
        let dx: i128 = if ii >= p { dx_exec(self.atr, self.pdm, self.mdm) } else { 0 };
        if p <= ii && ii < 2 * p {
            assert(((ii + 1 - p) as int) * (100 * SCALE) == ((ii - p) as int) * (100 * SCALE) + 100 * SCALE) by (nonlinear_arith);
            assert(((ii + 1 - p) as int) * (100 * SCALE) <= p * (100 * SCALE)) by (nonlinear_arith)
                requires ii + 1 - p <= p;
            self.dx_sum = self.dx_sum + dx;
        }
        if ii == 2 * p - 1 {
            proof {
                lemma_mean_bound(self.dx_sum as int, p as int, 100 * SCALE);
            }
            self.adx = tdiv_exec(self.dx_sum, p);
        } else if ii > 2 * p - 1 {
            proof {
                lemma_wilder_bound(self.adx as int, dx as int, p as int, 100 * SCALE);
            }
            self.adx = tdiv_exec(self.adx * (p - 1) + dx, p);
        } else {
            self.adx = 0;
        }
        self.i = self.i + 1;
        self.prev = Some(*k);
    }
}

/// The ADX of period `period` after each bar of `klines`.
pub fn calculate_adx(klines: &[Kline], period: u32) -> (r: Vec<i128>)
    requires
        period >= 1,
        history_wf(klines@),
    ensures
        r@.len() == klines@.len(),
        forall|i: int| 0 <= i < r@.len() ==> #[trigger] r@[i] == adx_state(klines@.subrange(0, i + 1), period as int).adx,
        forall|i: int| 0 <= i < r@.len() ==> 0 <= #[trigger] r@[i] <= 100 * SCALE,
{
    let p: i128 = period as i128;
    let mut run = AdxRun { i: 0, prev: None, tr_sum: 0, pdm_sum: 0, mdm_sum: 0, atr: 0, pdm: 0, mdm: 0, dx_sum: 0, adx: 0 };
    let mut out: Vec<i128> = Vec::new();
    let mut i: usize = 0;
    while i < klines.len()
        invariant
            p == period as int,
            1 <= p <= u32::MAX,
            i <= klines@.len(),
            history_wf(klines@),
            run.wf(p as int),
            run.i == i,
            run@ == adx_state(klines@.subrange(0, i as int), p as int),
            out@.len() == i,
            forall|t: int| 0 <= t < i ==> #[trigger] out@[t] == adx_state(klines@.subrange(0, t + 1), p as int).adx,
            forall|t: int| 0 <= t < i ==> 0 <= #[trigger] out@[t] <= 100 * SCALE,
        decreases klines@.len() - i,
    {
        proof {
            let t = klines@.subrange(0, i as int + 1);
            assert(t.drop_last() =~= klines@.subrange(0, i as int));
            assert(t.last() == klines@[i as int]);
            assert(klines@[i as int].wf());
        }
        run.step(&klines[i], p);
        let ghost before = out@;
        out.push(run.adx);
        proof {
            assert forall|t: int| 0 <= t < i + 1 implies #[trigger] out@[t] == adx_state(
                klines@.subrange(0, t + 1),
                p as int,
            ).adx && 0 <= out@[t] <= 100 * SCALE by {
                if t < i {
                    assert(out@[t] == before[t]);
                }
            }
        }
        i = i + 1;
    }
    out
}

} // verus!
