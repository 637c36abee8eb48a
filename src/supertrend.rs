//! SuperTrend: ATR bands around the bar midpoint that trail the price, a
//! trend that must persist before it is acted on, an EMA confirmation of
//! entries and a tighter band for exits.

use vstd::prelude::*;
use crate::fixed::{bounded, fmul, tdiv, tdiv_exec, MAX_FX, SCALE};
use crate::indicators::{atr_start, atr_step, ema_of_closes, Atr, AtrState, Ema};
use crate::strategy::{history_wf, signal_wf, Strategy};
use crate::types::{Kline, Side, Signal};

verus! {

/// Parameters of the SuperTrend strategy; multipliers, the volume threshold
/// and the confidence are fixed-point values.
#[derive(Clone, Copy, Debug)]
pub struct SuperTrendSettings {
    pub period: u32,
    pub multiplier: i128,
    pub exit_multiplier: i128,
    pub volume_threshold: i128,
    pub confirmation_bars: u32,
    pub ema_confirmation_period: u32,
    pub confidence: i128,
}

impl SuperTrendSettings {
    /// Periods are positive, multipliers positive, the confidence in [0, 1].
    pub open spec fn wf(&self) -> bool {
        &&& self.period >= 1
        &&& self.confirmation_bars >= 1
        &&& self.ema_confirmation_period >= 1
        &&& 0 < self.multiplier <= MAX_FX
        &&& 0 < self.exit_multiplier <= MAX_FX
        &&& bounded(self.volume_threshold as int)
        &&& 0 <= self.confidence <= SCALE
    }

    /// Whether the settings are well formed.
    pub fn is_valid(&self) -> (r: bool)
        ensures
            r == self.wf(),
    {
        self.period >= 1 && self.confirmation_bars >= 1 && self.ema_confirmation_period >= 1 && 0
            < self.multiplier && self.multiplier <= MAX_FX && 0 < self.exit_multiplier && self.exit_multiplier
            <= MAX_FX && -MAX_FX <= self.volume_threshold && self.volume_threshold <= MAX_FX && 0
            <= self.confidence && self.confidence <= SCALE
    }
}

/// Direction of the trend.
#[derive(Clone, Copy, Debug, PartialEq, Eq, Structural)]
pub enum TrendDirection {
    Sideways,
    Uptrend,
    Downtrend,
}

/// The band state after a bar: the average true range, the trailing bands,
/// the trend, and for how many bars in a row the trend has held.
pub struct BandState {
    pub atr: int,
    pub upper: int,
    pub lower: int,
    pub trend: TrendDirection,
    pub count: int,
}

/// The band state before any bar.
pub open spec fn band_start() -> BandState {
    BandState { atr: 0, upper: 0, lower: 0, trend: TrendDirection::Sideways, count: 0 }
}

/// The midpoint of a bar.
pub open spec fn hl2(k: Kline) -> int {
    tdiv(k.high + k.low, 2)
}

/// One bar of the bands: `hl2 ± m·ATR`; a band keeps its level unless the new
/// one is tighter or the previous close broke it; the close above the upper
/// band makes the trend up, below the lower band down, else it carries on.
pub open spec fn band_step(last: BandState, atr: int, k: Kline, prev_close: int, m: int) -> BandState {
    let mid = hl2(k);
    let bu = mid + fmul(m, atr);
    let bl = mid - fmul(m, atr);
    let upper = if bu < last.upper || prev_close > last.upper { bu } else { last.upper };
    let lower = if bl > last.lower || prev_close < last.lower { bl } else { last.lower };
    let c = k.close as int;
    let trend = if c > upper {
        TrendDirection::Uptrend
    } else if c < lower {
        TrendDirection::Downtrend
    } else {
        last.trend
    };
    BandState {
        atr,
        upper,
        lower,
        trend,
        count: if trend == last.trend { last.count + 1 } else { 1 },
    }
}

/// The average true range, the band state and the one before it after all of `ks`.
pub open spec fn bands(ks: Seq<Kline>, s: SuperTrendSettings) -> (AtrState, BandState, BandState)
    decreases ks.len(),
{
    if ks.len() == 0 {
        (atr_start(), band_start(), band_start())
    } else {
        let (a, cur, _) = bands(ks.drop_last(), s);
        let k = ks.last();
        let a2 = atr_step(a, k, s.period as int);
        let pc = if ks.len() > 1 { ks[ks.len() - 2].close as int } else { k.close as int };
        (a2, band_step(cur, a2.value, k, pc, s.multiplier as int), cur)
    }
}

/// The SuperTrend strategy and the side of its last entry signal.
#[derive(Debug)]
pub struct SuperTrend {
    pub settings: SuperTrendSettings,
    pub last_signal_side: Option<Side>,
}

/// The largest magnitude of a band.
pub const BAND_LIMIT: i128 = 20_000_000_000_000_000_000_000_000_000;

#[derive(Clone, Copy)]
struct Bands {
    atr: i128,
    upper: i128,
    lower: i128,
    trend: TrendDirection,
    count: u64,
}

impl Bands {
    spec fn view(&self) -> BandState {
        BandState {
            atr: self.atr as int,
            upper: self.upper as int,
            lower: self.lower as int,
            trend: self.trend,
            count: self.count as int,
        }
    }

    spec fn wf(&self) -> bool {
        &&& 0 <= self.atr <= MAX_FX
        &&& -BAND_LIMIT <= self.upper <= BAND_LIMIT
        &&& -BAND_LIMIT <= self.lower <= BAND_LIMIT
    }
}

proof fn lemma_offset_bound(m: int, atr: int)
    requires
        0 < m <= MAX_FX,
        0 <= atr <= MAX_FX,
    ensures
        0 <= fmul(m, atr) <= 10_000_000_000_000_000_000_000_000_000,
{
    assert(0 <= m * atr <= MAX_FX * MAX_FX) by (nonlinear_arith)
        requires 0 < m <= MAX_FX, 0 <= atr <= MAX_FX;
    assert((m * atr) / (SCALE as int) <= 10_000_000_000_000_000_000_000_000_000) by (nonlinear_arith)
        requires 0 <= m * atr <= MAX_FX * MAX_FX;
    assert((m * atr) / (SCALE as int) >= 0) by (nonlinear_arith)
        requires 0 <= m * atr;
}

fn band_next(last: Bands, atr: i128, k: &Kline, prev_close: i128, m: i128) -> (r: Bands)
    requires
        last.wf(),
        0 <= atr <= MAX_FX,
        k.wf(),
        0 < prev_close <= MAX_FX,
        0 < m <= MAX_FX,
        last.count < u64::MAX,
    ensures
        r.wf(),
        r@ == band_step(last@, atr as int, *k, prev_close as int, m as int),
        r.count <= last.count + 1,
{
    proof {
        lemma_offset_bound(m as int, atr as int);
    }
    let mid = tdiv_exec(k.high + k.low, 2);
    let off = tdiv_exec(m * atr, SCALE);
    let bu: i128 = mid + off;
    let bl: i128 = mid - off;
    let upper = if bu < last.upper || prev_close > last.upper { bu } else { last.upper };
    let lower = if bl > last.lower || prev_close < last.lower { bl } else { last.lower };
    let trend = if k.close > upper {
        TrendDirection::Uptrend
    } else if k.close < lower {
        TrendDirection::Downtrend
    } else {
        last.trend
    };
    let count = if trend == last.trend { last.count + 1 } else { 1 };
    Bands { atr, upper, lower, trend, count }
}

impl SuperTrend {
    /// A strategy that has signalled nothing yet.
    pub fn new(settings: SuperTrendSettings) -> (r: SuperTrend)
        requires
            settings.wf(),
        ensures
            r.inv(),
            r.settings == settings,
            r.last_signal_side is None,
    {
        SuperTrend { settings, last_signal_side: None }
    }

    /// The number of bars needed before a signal.
    pub open spec fn required_bars(&self) -> int {
        if self.settings.period >= self.settings.ema_confirmation_period {
            self.settings.period as int
        } else {
            self.settings.ema_confirmation_period as int
        }
    }

    /// What one call of `assess` does. The bands are recomputed over the
    /// whole history; nothing happens with too short a history. On the bar
    /// where an uptrend becomes confirmed (it has held for exactly
    /// `confirmation_bars` bars), a close above the EMA of the closes and a
    /// volume at least the threshold enter long; a downtrend below the EMA,
    /// short. Otherwise an open long whose close falls under the tighter exit
    /// band closes (a short, above).
    pub open spec fn assess_spec(self, ks: Seq<Kline>) -> (SuperTrend, Signal) {
        let s = self.settings;
        if ks.len() < self.required_bars() || ks.len() < 2 {
            (self, Signal::Hold)
        } else {
            let (_, cur, _) = bands(ks, s);
            let k = ks.last();
            let c = k.close as int;
            let ema = ema_of_closes(ks, s.ema_confirmation_period as int).unwrap();
            let exit_upper = hl2(k) + fmul(s.exit_multiplier as int, cur.atr);
            let exit_lower = hl2(k) - fmul(s.exit_multiplier as int, cur.atr);
            let entry = k.volume >= s.volume_threshold && cur.count == s.confirmation_bars;
            if entry && cur.trend == TrendDirection::Uptrend && c > ema {
                (SuperTrend { last_signal_side: Some(Side::Long), ..self }, Signal::GoLong { confidence: s.confidence })
            } else if entry && cur.trend == TrendDirection::Downtrend && c < ema {
                (SuperTrend { last_signal_side: Some(Side::Short), ..self }, Signal::GoShort { confidence: s.confidence })
            } else if self.last_signal_side == Some(Side::Long) && c < exit_lower {
                (SuperTrend { last_signal_side: None, ..self }, Signal::Close)
            } else if self.last_signal_side == Some(Side::Short) && c > exit_upper {
                (SuperTrend { last_signal_side: None, ..self }, Signal::Close)
            } else {
                (self, Signal::Hold)
            }
        }
    }

    /// Assesses the history exactly as `assess_spec` describes.
    pub fn assess_bars(&mut self, klines: &[Kline]) -> (r: Signal)
        requires
            old(self).inv(),
            history_wf(klines@),
        ensures
            final(self).inv(),
            signal_wf(r),
            (*final(self), r) == old(self).assess_spec(klines@),
    {
        let s = self.settings;
        let required: usize = if s.period >= s.ema_confirmation_period {
            s.period as usize
        } else {
            s.ema_confirmation_period as usize
        };
        if klines.len() < required || klines.len() < 2 {
            return Signal::Hold;
        }
        let mut atr = Atr::new(s.period);
        let mut cur = Bands { atr: 0, upper: 0, lower: 0, trend: TrendDirection::Sideways, count: 0 };
        let mut i: usize = 0;
        while i < klines.len()
            invariant
                i <= klines@.len(),
                s == self.settings,
                s.wf(),
                history_wf(klines@),
                atr.wf(),
                atr.period == s.period,
                atr.count == i,
                cur.wf(),
                cur.count <= i,
                ({
                    let (a, c, p) = bands(klines@.subrange(0, i as int), s);
                    &&& atr.state() == a
                    &&& cur@ == c
                }),
            decreases klines@.len() - i,
        {
            let k = &klines[i];
            proof {
                let t = klines@.subrange(0, i as int + 1);
                assert(t.drop_last() =~= klines@.subrange(0, i as int));
                assert(t.last() == klines@[i as int]);
                assert(klines@[i as int].wf());
                if i > 0 {
                    assert(t[t.len() - 2] == klines@[i - 1]);
                    assert(klines@[i - 1].wf());
                }
            }
            let a = atr.next(k);
            let pc = if i > 0 { klines[i - 1].close } else { k.close };
            let next = band_next(cur, a, k, pc, s.multiplier);
            cur = next;
            i = i + 1;
        }
        assert(klines@.subrange(0, klines@.len() as int) =~= klines@);
        let k = &klines[klines.len() - 1];
        let entry = k.volume >= s.volume_threshold && cur.count == s.confirmation_bars as u64;
        let mut ema = Ema::new(s.ema_confirmation_period);
        let ema_val = ema.feed_closes(klines).unwrap();
        if entry && cur.trend == TrendDirection::Uptrend && k.close > ema_val {
            self.last_signal_side = Some(Side::Long);
            return Signal::GoLong { confidence: s.confidence };
        }
        if entry && cur.trend == TrendDirection::Downtrend && k.close < ema_val {
            self.last_signal_side = Some(Side::Short);
            return Signal::GoShort { confidence: s.confidence };
        }
        proof {
            lemma_offset_bound(s.exit_multiplier as int, cur.atr as int);
        }
        let mid = tdiv_exec(k.high + k.low, 2);
        let off = tdiv_exec(s.exit_multiplier * cur.atr, SCALE);
        let exit_upper: i128 = mid + off;
        let exit_lower: i128 = mid - off;
        match self.last_signal_side {
            Some(Side::Long) => if k.close < exit_lower {
                self.last_signal_side = None;
                return Signal::Close;
            },
            Some(Side::Short) => if k.close > exit_upper {
                self.last_signal_side = None;
                return Signal::Close;
            },
            None => {},
        }
        Signal::Hold
    }
}

impl Strategy for SuperTrend {
    open spec fn inv(&self) -> bool {
        self.settings.wf()
    }

    open spec fn step(&self, ks: Seq<Kline>) -> (Self, Signal) {
        self.assess_spec(ks)
    }

    open spec fn label(&self) -> Seq<char> {
        "EnhancedSuperTrend"@
    }

    fn name(&self) -> (r: &'static str) {
        "EnhancedSuperTrend"
    }

    fn assess(&mut self, klines: &[Kline]) -> (r: Signal) {
        self.assess_bars(klines)
    }
}

} // verus!
