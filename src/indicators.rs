//! Incremental indicator kernels over fixed-point inputs.

use vstd::prelude::*;
use crate::fixed::{bounded, tdiv, tdiv_exec, MAX_FX};
use crate::types::Kline;

verus! {

/// One step of an exponential moving average of period `n`, from the previous
/// value (none before the first input): the first output is the first input,
/// then `v' = v + 2·(x − v)/(n + 1)`.
pub open spec fn ema_step(prev: Option<int>, x: int, n: int) -> int {
    match prev {
        None => x,
        Some(v) => v + tdiv(2 * (x - v), n + 1),
    }
}

/// The exponential moving average of period `n` after the closes of `ks`.
pub open spec fn ema_of_closes(ks: Seq<Kline>, n: int) -> Option<int>
    decreases ks.len(),
{
    if ks.len() == 0 {
        None
    } else {
        Some(ema_step(ema_of_closes(ks.drop_last(), n), ks.last().close as int, n))
    }
}

proof fn lemma_ema_step_between(v: int, x: int, n: int)
    requires
        n >= 1,
    ensures
        v <= x ==> v <= ema_step(Some(v), x, n) <= x,
        x <= v ==> x <= ema_step(Some(v), x, n) <= v,
{
    let d = 2 * (x - v);
    if d >= 0 {
        assert(d / (n + 1) <= x - v) by (nonlinear_arith)
            requires d == 2 * (x - v), d >= 0, n >= 1;
        assert(d / (n + 1) >= 0) by (nonlinear_arith)
            requires d >= 0, n >= 1;
    } else {
        assert((-d) / (n + 1) <= v - x) by (nonlinear_arith)
            requires d == 2 * (x - v), d < 0, n >= 1;
        assert((-d) / (n + 1) >= 0) by (nonlinear_arith)
            requires -d >= 0, n >= 1;
    }
}

/// An exponential moving average.
#[derive(Clone, Copy, Debug)]
pub struct Ema {
    pub period: u32,
    pub value: i128,
    pub started: bool,
}

impl Ema {
    /// The current value, none before the first input.
    pub open spec fn current(&self) -> Option<int> {
        if self.started {
            Some(self.value as int)
        } else {
            None
        }
    }

    pub open spec fn wf(&self) -> bool {
        self.period >= 1 && bounded(self.value as int)
    }

    pub fn new(period: u32) -> (r: Ema)
        requires
            period >= 1,
        ensures
            r.wf(),
            r.period == period,
            r.current() is None,
    {
        Ema { period, value: 0, started: false }
    }

    /// Feeds one input and returns the updated average.
    pub fn next(&mut self, x: i128) -> (r: i128)
        requires
            old(self).wf(),
            bounded(x as int),
        ensures
            final(self).wf(),
            final(self).period == old(self).period,
            r == ema_step(old(self).current(), x as int, old(self).period as int),
            final(self).current() == Some(r as int),
    {
        if !self.started {
            self.value = x;
            self.started = true;
            return x;
        }
        let v = self.value;
        proof {
            lemma_ema_step_between(v as int, x as int, self.period as int);
        }
        let d: i128 = 2 * (x - v);
        let n: i128 = self.period as i128 + 1;
        let r = v + tdiv_exec(d, n);
        self.value = r;
        r
    }

    /// Feeds the closes of `klines` in order and returns the last output.
    pub fn feed_closes(&mut self, klines: &[Kline]) -> (r: Option<i128>)
        requires
            old(self).wf(),
            old(self).current() is None,
            forall|i: int| 0 <= i < klines@.len() ==> (#[trigger] klines@[i]).wf(),
        ensures
            final(self).wf(),
            final(self).period == old(self).period,
            final(self).current() == ema_of_closes(klines@, old(self).period as int),
            r matches Some(v) ==> final(self).current() == Some(v as int),
            r is None <==> klines@.len() == 0,
    {
        let mut last: Option<i128> = None;
        let mut i: usize = 0;
        while i < klines.len()
            invariant
                i <= klines@.len(),
                self.wf(),
                self.period == old(self).period,
                self.current() == ema_of_closes(klines@.subrange(0, i as int), self.period as int),
                forall|k: int| 0 <= k < klines@.len() ==> (#[trigger] klines@[k]).wf(),
                last matches Some(v) ==> self.current() == Some(v as int),
                last is None <==> i == 0,
            decreases klines@.len() - i,
        {
            proof {
                let s = klines@.subrange(0, i as int + 1);
                assert(s.drop_last() =~= klines@.subrange(0, i as int));
                assert(s.last() == klines@[i as int]);
            }
            let v = self.next(klines[i].close);
            last = Some(v);
            i = i + 1;
        }
        assert(klines@.subrange(0, klines@.len() as int) =~= klines@);
        last
    }
}

/// The true range of a bar: its high–low span, widened to the previous close
/// when there is one.
pub open spec fn true_range(high: int, low: int, prev_close: Option<int>) -> int {
    let span = high - low;
    match prev_close {
        None => span,
        Some(pc) => {
            let up = if high - pc >= 0 { high - pc } else { pc - high };
            let down = if low - pc >= 0 { low - pc } else { pc - low };
            let m = if span >= up { span } else { up };
            if m >= down { m } else { down }
        },
    }
}

/// State of an average true range: bars seen, the sum of the first true
/// ranges, the current value and the last close.
pub struct AtrState {
    pub count: int,
    pub sum: int,
    pub value: int,
    pub prev_close: Option<int>,
}

/// The average true range before any bar.
pub open spec fn atr_start() -> AtrState {
    AtrState { count: 0, sum: 0, value: 0, prev_close: None }
}

/// One bar of an average true range of period `n`: the mean of the true
/// ranges while at most `n` are known, then Wilder smoothing
/// `v' = (v·(n − 1) + tr) / n`.
pub open spec fn atr_step(st: AtrState, k: Kline, n: int) -> AtrState {
    let tr = true_range(k.high as int, k.low as int, st.prev_close);
    let count = st.count + 1;
    if count <= n {
        AtrState { count, sum: st.sum + tr, value: tdiv(st.sum + tr, count), prev_close: Some(k.close as int) }
    } else {
        AtrState { count, sum: st.sum, value: tdiv(st.value * (n - 1) + tr, n), prev_close: Some(k.close as int) }
    }
}

/// An average true range with Wilder smoothing.
#[derive(Clone, Copy, Debug)]
pub struct Atr {
    pub period: u32,
    pub count: u64,
    pub sum: i128,
    pub value: i128,
    pub prev_close: Option<i128>,
}

impl Atr {
    /// The state as a mathematical value.
    pub open spec fn state(&self) -> AtrState {
        AtrState {
            count: self.count as int,
            sum: self.sum as int,
            value: self.value as int,
            prev_close: match self.prev_close {
                Some(c) => Some(c as int),
                None => None,
            },
        }
    }

    pub open spec fn wf(&self) -> bool {
        &&& self.period >= 1
        &&& 0 <= self.value <= MAX_FX
        &&& 0 <= self.sum <= (self.period as int) * MAX_FX
        &&& (self.count <= self.period ==> self.sum <= (self.count as int) * MAX_FX)
        &&& (self.prev_close matches Some(c) ==> 0 < c <= MAX_FX)
    }

    pub fn new(period: u32) -> (r: Atr)
        requires
            period >= 1,
        ensures
            r.wf(),
            r.period == period,
            r.state() == atr_start(),
    {
        Atr { period, count: 0, sum: 0, value: 0, prev_close: None }
    }

    /// Feeds one bar and returns the updated average.
    pub fn next(&mut self, k: &Kline) -> (r: i128)
        requires
            old(self).wf(),
            k.wf(),
            old(self).count < u64::MAX,
        ensures
            final(self).wf(),
            final(self).period == old(self).period,
            final(self).state() == atr_step(old(self).state(), *k, old(self).period as int),
            r == final(self).state().value,
    {
        let span: i128 = k.high - k.low;
        let tr: i128 = match self.prev_close {
            None => span,
            Some(pc) => {
                let up: i128 = if k.high - pc >= 0 { k.high - pc } else { pc - k.high };
                let down: i128 = if k.low - pc >= 0 { k.low - pc } else { pc - k.low };
                let m = if span >= up { span } else { up };
                if m >= down { m } else { down }
            },
        };
        let ghost tr_spec = true_range(k.high as int, k.low as int, self.state().prev_close);
        assert(tr == tr_spec);
        let n = self.period as i128;
        assert(0 <= tr <= MAX_FX);
        let count = self.count + 1;
        if count <= self.period as u64 {
            let sum: i128 = self.sum + tr;
            assert(sum <= (count as int) * MAX_FX) by (nonlinear_arith)
                requires sum == self.sum + tr, self.sum <= (self.count as int) * MAX_FX, tr <= MAX_FX, count == self.count + 1;
            let v = tdiv_exec(sum, count as i128);
            proof {
                if sum >= 0 {
                    assert((sum as int) / (count as int) <= MAX_FX) by (nonlinear_arith)
                        requires 0 <= sum <= (count as int) * MAX_FX, count >= 1;
                    assert((sum as int) / (count as int) >= 0) by (nonlinear_arith)
                        requires 0 <= sum, count >= 1;
                }
            }
            self.sum = sum;
            self.value = v;
        } else {
            assert(0 <= self.value * (n - 1) <= MAX_FX * (n - 1)) by (nonlinear_arith)
                requires 0 <= self.value <= MAX_FX, n >= 1;
            let acc: i128 = self.value * (n - 1) + tr;
            assert(0 <= acc <= n * MAX_FX) by (nonlinear_arith)
                requires acc == self.value * (n - 1) + tr, 0 <= self.value <= MAX_FX, 0 <= tr <= MAX_FX, n >= 1;
            let v = tdiv_exec(acc, n);
            assert(0 <= v <= MAX_FX) by (nonlinear_arith)
                requires v == acc / n, 0 <= acc <= n * MAX_FX, n >= 1;
            self.value = v;
        }
        self.count = count;
        self.prev_close = Some(k.close);
        self.value
    }
}

} // verus!
