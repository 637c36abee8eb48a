//! Probabilistic reversion: in a ranging market (low ADX), a close at or
//! under the lower Bollinger band with an oversold but recovering RSI arms a
//! setup; a higher close on the next bar enters long; a return to the middle
//! band exits.

use vstd::prelude::*;
use crate::fixed::{MAX_FX, SCALE};
use crate::reversion_indicators::{
    adx_state, bollinger, bollinger_bands, calculate_adx, ints, rsi_series, rsi_values, sma_last, sma_of,
};
use crate::strategy::{history_wf, signal_wf, Strategy};
use crate::types::{Kline, Signal};

verus! {

/// Parameters of the reversion strategy; the band width, thresholds and
/// confidence are fixed-point values (RSI and ADX thresholds in percent).
#[derive(Clone, Copy, Debug)]
pub struct ProbReversionSettings {
    pub bband_period: u32,
    pub bband_stddev: i128,
    pub adx_period: u32,
    pub adx_range_threshold: i128,
    pub rsi_period: u32,
    pub rsi_oversold: i128,
    pub rsi_smoothing: u32,
    pub confidence: i128,
}

impl ProbReversionSettings {
    /// Periods are positive, the band width
    /// is not negative and the confidence lies in [0, 1].
    pub open spec fn wf(&self) -> bool {
        &&& 1 <= self.bband_period
        &&& 0 <= self.bband_stddev <= MAX_FX
        &&& self.adx_period >= 1
        &&& self.rsi_period >= 1
        &&& self.rsi_smoothing >= 1
        &&& 0 <= self.confidence <= SCALE
    }

    /// Whether the settings are well formed.
    pub fn is_valid(&self) -> (r: bool)
        ensures
            r == self.wf(),
    {
        1 <= self.bband_period && 0 <= self.bband_stddev && self.bband_stddev <= MAX_FX && self.adx_period >= 1
            && self.rsi_period >= 1 && self.rsi_smoothing >= 1 && 0 <= self.confidence && self.confidence <= SCALE
    }

    /// The number of bars needed before a signal.
    pub open spec fn longest_lookback(&self) -> int {
        let a = 2 * self.adx_period;
        let b = self.bband_period as int;
        let c = self.rsi_period + self.rsi_smoothing;
        let ab = if a >= b { a } else { b };
        if ab >= c { ab } else { c }
    }
}

/// The reversion strategy and its state between bars.
#[derive(Debug)]
pub struct ProbReversion {
    pub settings: ProbReversionSettings,
    pub prev_rsi_sma: i128,
    pub pending_buy_signal_close: Option<i128>,
    pub in_position: bool,
}

impl ProbReversion {
    /// A strategy with no setup and no position.
    pub fn new(settings: ProbReversionSettings) -> (r: ProbReversion)
        requires
            settings.wf(),
        ensures
            r.inv(),
            r.settings == settings,
            r.prev_rsi_sma == 0,
            r.pending_buy_signal_close is None,
            !r.in_position,
    {
        ProbReversion { settings, prev_rsi_sma: 0, pending_buy_signal_close: None, in_position: false }
    }

    /// What one call of `assess` does, with the indicators computed over the
    /// whole history. Holding a position, a close at or above the middle band
    /// exits. An armed setup is consumed: a close above the setup's close
    /// enters long. Otherwise, with ADX under the threshold, a low at or under
    /// the lower band and an RSI under the oversold level whose moving average
    /// rose arm a setup at this close.
    pub open spec fn assess_spec(self, ks: Seq<Kline>) -> (ProbReversion, Signal) {
        let s = self.settings;
        if ks.len() < s.longest_lookback() {
            (self, Signal::Hold)
        } else {
            let adx = adx_state(ks, s.adx_period as int).adx;
            let (mid, lower) = bollinger(ks, s.bband_period as int, s.bband_stddev as int);
            let rs = rsi_series(ks, s.rsi_period as int);
            let rsi_sma = sma_last(rs, s.rsi_smoothing as int);
            let rsi = rs.last();
            let k = ks.last();
            let close = k.close as int;
            if self.in_position && close >= mid {
                (ProbReversion { in_position: false, pending_buy_signal_close: None, ..self }, Signal::Close)
            } else if self.pending_buy_signal_close matches Some(sc) && close > sc {
                (ProbReversion { in_position: true, pending_buy_signal_close: None, ..self }, Signal::GoLong {
                    confidence: s.confidence,
                })
            } else if adx >= s.adx_range_threshold {
                (ProbReversion { prev_rsi_sma: rsi_sma as i128, pending_buy_signal_close: None, ..self }, Signal::Hold)
            } else {
                let armed = k.low <= lower && rsi < s.rsi_oversold && rsi_sma > self.prev_rsi_sma;
                (
                    ProbReversion {
                        prev_rsi_sma: rsi_sma as i128,
                        pending_buy_signal_close: if armed { Some(k.close) } else { None },
                        ..self
                    },
                    Signal::Hold,
                )
            }
        }
    }

    /// Assesses the history exactly as `assess_spec` describes.
    pub fn assess_bars(&mut self, klines: &[Kline]) -> (r: Signal)
        requires
            old(self).inv(),
            history_wf(klines@),
        ensures
            final(self).inv(),
            signal_wf(r),
            (*final(self), r) == old(self).assess_spec(klines@),
    {
        let s = self.settings;
        let a: u64 = 2 * s.adx_period as u64;
        let b: u64 = s.bband_period as u64;
        let c: u64 = s.rsi_period as u64 + s.rsi_smoothing as u64;
        let ab = if a >= b { a } else { b };
        let longest = if ab >= c { ab } else { c };
        if (klines.len() as u64) < longest {
            return Signal::Hold;
        }
        let len = klines.len();
        let adx_values = calculate_adx(klines, s.adx_period);
        let current_adx = adx_values[len - 1];
        assert(klines@.subrange(0, len as int) =~= klines@);
        let (middle, lower) = bollinger_bands(klines, s.bband_period, s.bband_stddev);
        let rsis = rsi_values(klines, s.rsi_period);
        let rsi_sma = sma_of(&rsis, s.rsi_smoothing);
        let current_rsi = rsis[len - 1];
        proof {
            let rs = rsi_series(klines@, s.rsi_period as int);
            assert(ints(rsis@) == rs);
            assert(rs.last() == ints(rsis@)[len - 1]);
        }
        let k = &klines[len - 1];
        if self.in_position && k.close >= middle {
            self.in_position = false;
            self.pending_buy_signal_close = None;
            return Signal::Close;
        }
        if let Some(setup_close) = self.pending_buy_signal_close {
            self.pending_buy_signal_close = None;
            if k.close > setup_close {
                self.in_position = true;
                return Signal::GoLong { confidence: s.confidence };
            }
        }
        if current_adx >= s.adx_range_threshold {
            self.prev_rsi_sma = rsi_sma;
            return Signal::Hold;
        }
        let location = k.low <= lower;
        let momentum = current_rsi < s.rsi_oversold && rsi_sma > self.prev_rsi_sma;
        self.pending_buy_signal_close = if location && momentum { Some(k.close) } else { None };
        self.prev_rsi_sma = rsi_sma;
        Signal::Hold
    }
}

/// The reversion strategy only ever enters long, and holds on a history
/// shorter than its longest lookback.
pub proof fn lemma_long_only(s: ProbReversion, ks: Seq<Kline>)
    ensures
        !(s.assess_spec(ks).1 is GoShort),
        ks.len() < s.settings.longest_lookback() ==> s.assess_spec(ks).1 == Signal::Hold,
{
}

impl Strategy for ProbReversion {
    open spec fn inv(&self) -> bool {
        self.settings.wf()
    }

    open spec fn step(&self, ks: Seq<Kline>) -> (Self, Signal) {
        self.assess_spec(ks)
    }

    open spec fn label(&self) -> Seq<char> {
        "ProbabilisticReversion"@
    }

    fn name(&self) -> (r: &'static str) {
        "ProbabilisticReversion"
    }

    fn assess(&mut self, klines: &[Kline]) -> (r: Signal) {
        self.assess_bars(klines)
    }
}

} // verus!
