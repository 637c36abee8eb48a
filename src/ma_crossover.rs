//! Moving-average crossover: two exponential moving averages of the close.

use vstd::prelude::*;
use crate::fixed::SCALE;
use crate::indicators::{ema_of_closes, ema_step, Ema};
use crate::strategy::{history_wf, signal_wf, Strategy};
use crate::types::{Kline, Signal};

verus! {

/// The trend regime of the higher timeframe; kept in the state for a future
/// filter, not consulted by the signal rule.
#[derive(Clone, Copy, Debug, PartialEq, Eq, Structural)]
pub enum MarketRegime {
    Sideways,
    Bullish,
    Bearish,
}

/// Parameters of the crossover strategy.
#[derive(Clone, Copy, Debug)]
pub struct MACrossoverSettings {
    pub h1_fast_period: u32,
    pub h1_slow_period: u32,
    pub m5_fast_period: u32,
    pub m5_slow_period: u32,
    pub confidence: i128,
}

impl MACrossoverSettings {
    /// Fast periods are positive and shorter than slow ones; the confidence lies in [0, 1].
    pub open spec fn wf(&self) -> bool {
        &&& 1 <= self.m5_fast_period < self.m5_slow_period
        &&& 1 <= self.h1_fast_period < self.h1_slow_period
        &&& 0 <= self.confidence <= SCALE
    }

    /// Whether the settings are well formed.
    pub fn is_valid(&self) -> (r: bool)
        ensures
            r == self.wf(),
    {
        1 <= self.m5_fast_period && self.m5_fast_period < self.m5_slow_period && 1 <= self.h1_fast_period
            && self.h1_fast_period < self.h1_slow_period && 0 <= self.confidence && self.confidence <= SCALE
    }
}

/// The signal for a move of the averages from `(lf, ls)` to `(cf, cs)`:
/// long when the fast one crosses strictly above the slow one, short on the
/// opposite cross, else hold.
pub open spec fn crossover(lf: int, ls: int, cf: int, cs: int, confidence: i128) -> Signal {
    if cf > cs && lf <= ls {
        Signal::GoLong { confidence }
    } else if cf < cs && lf >= ls {
        Signal::GoShort { confidence }
    } else {
        Signal::Hold
    }
}

/// The crossover strategy and its running averages.
#[derive(Debug)]
pub struct MACrossover {
    pub settings: MACrossoverSettings,
    pub fast_ema: Ema,
    pub slow_ema: Ema,
    pub regime: MarketRegime,
}

impl MACrossover {
    /// A strategy with averages that have seen no input.
    pub fn new(settings: MACrossoverSettings) -> (r: MACrossover)
        requires
            settings.wf(),
        ensures
            r.inv(),
            r.settings == settings,
            !r.fast_ema.started,
    {
        MACrossover {
            settings,
            fast_ema: Ema::new(settings.m5_fast_period),
            slow_ema: Ema::new(settings.m5_slow_period),
            regime: MarketRegime::Sideways,
        }
    }

    /// What one call of `assess` does: too short a history changes nothing;
    /// the first long enough one warms both averages on all its closes and
    /// holds; after that, the last close moves both averages and the
    /// crossover rule decides.
    pub open spec fn assess_spec(self, ks: Seq<Kline>) -> (MACrossover, Signal) {
        let s = self.settings;
        if ks.len() < s.m5_slow_period {
            (self, Signal::Hold)
        } else if !self.fast_ema.started {
            let f = ema_of_closes(ks, s.m5_fast_period as int).unwrap();
            let l = ema_of_closes(ks, s.m5_slow_period as int).unwrap();
            (
                MACrossover {
                    fast_ema: Ema { value: f as i128, started: true, ..self.fast_ema },
                    slow_ema: Ema { value: l as i128, started: true, ..self.slow_ema },
                    ..self
                },
                Signal::Hold,
            )
        } else {
            let x = ks.last().close as int;
            let cf = ema_step(self.fast_ema.current(), x, s.m5_fast_period as int);
            let cs = ema_step(self.slow_ema.current(), x, s.m5_slow_period as int);
            (
                MACrossover {
                    fast_ema: Ema { value: cf as i128, ..self.fast_ema },
                    slow_ema: Ema { value: cs as i128, ..self.slow_ema },
                    ..self
                },
                crossover(
                    self.fast_ema.value as int,
                    self.slow_ema.value as int,
                    cf,
                    cs,
                    s.confidence,
                ),
            )
        }
    }

    /// Assesses the history exactly as `assess_spec` describes.
    pub fn assess_bars(&mut self, klines: &[Kline]) -> (r: Signal)
        requires
            old(self).inv(),
            history_wf(klines@),
        ensures
            final(self).inv(),
            signal_wf(r),
            (*final(self), r) == old(self).assess_spec(klines@),
    {
        if klines.len() < self.settings.m5_slow_period as usize {
            return Signal::Hold;
        }
        if !self.fast_ema.started {
            let mut fast = Ema::new(self.settings.m5_fast_period);
            let mut slow = Ema::new(self.settings.m5_slow_period);
            fast.feed_closes(klines);
            slow.feed_closes(klines);
            self.fast_ema = fast;
            self.slow_ema = slow;
            return Signal::Hold;
        }
        let last_fast = self.fast_ema.value;
        let last_slow = self.slow_ema.value;
        let close = klines[klines.len() - 1].close;
        let current_fast = self.fast_ema.next(close);
        let current_slow = self.slow_ema.next(close);
        if current_fast > current_slow && last_fast <= last_slow {
            Signal::GoLong { confidence: self.settings.confidence }
        } else if current_fast < current_slow && last_fast >= last_slow {
            Signal::GoShort { confidence: self.settings.confidence }
        } else {
            Signal::Hold
        }
    }
}

/// The signals a crossover strategy in state `s` emits when assessing the
/// histories `hs` in turn.
pub open spec fn replay(s: MACrossover, hs: Seq<Seq<Kline>>) -> Seq<Signal>
    decreases hs.len(),
{
    if hs.len() == 0 {
        Seq::empty()
    } else {
        let (next, signal) = s.assess_spec(hs[0]);
        seq![signal] + replay(next, hs.drop_first())
    }
}

/// Two states that agree on everything the crossover rule reads.
pub open spec fn same_course(a: MACrossover, b: MACrossover) -> bool {
    &&& a.settings == b.settings
    &&& a.fast_ema.period == b.fast_ema.period
    &&& a.slow_ema.period == b.slow_ema.period
    &&& a.fast_ema.current() == b.fast_ema.current()
    &&& a.slow_ema.current() == b.slow_ema.current()
    &&& a.fast_ema.started == b.fast_ema.started
    &&& a.slow_ema.started == a.fast_ema.started
}

proof fn lemma_replay_same_course(a: MACrossover, b: MACrossover, hs: Seq<Seq<Kline>>)
    requires
        same_course(a, b),
    ensures
        replay(a, hs) == replay(b, hs),
    decreases hs.len(),
{
    if hs.len() > 0 {
        let (na, _) = a.assess_spec(hs[0]);
        let (nb, _) = b.assess_spec(hs[0]);
        assert(same_course(na, nb));
        assert(a.assess_spec(hs[0]).1 == b.assess_spec(hs[0]).1);
        lemma_replay_same_course(na, nb, hs.drop_first());
        assert(replay(a, hs) == seq![a.assess_spec(hs[0]).1] + replay(na, hs.drop_first()));
    }
}

/// Two fresh strategies with the same settings emit the same signals for the
/// same sequence of histories.
pub proof fn lemma_fresh_instances_agree(a: MACrossover, b: MACrossover, hs: Seq<Seq<Kline>>)
    requires
        a.inv(),
        b.inv(),
        a.settings == b.settings,
        !a.fast_ema.started,
        !b.fast_ema.started,
    ensures
        replay(a, hs) == replay(b, hs),
{
    lemma_replay_same_course(a, b, hs);
}

impl Strategy for MACrossover {
    open spec fn inv(&self) -> bool {
        &&& self.settings.wf()
        &&& self.fast_ema.wf()
        &&& self.slow_ema.wf()
        &&& self.fast_ema.period == self.settings.m5_fast_period
        &&& self.slow_ema.period == self.settings.m5_slow_period
        &&& self.fast_ema.started == self.slow_ema.started
    }

    open spec fn step(&self, ks: Seq<Kline>) -> (Self, Signal) {
        self.assess_spec(ks)
    }

    open spec fn label(&self) -> Seq<char> {
        "MultiTimeframeMACrossover"@
    }

    fn name(&self) -> (r: &'static str) {
        "MultiTimeframeMACrossover"
    }

    fn assess(&mut self, klines: &[Kline]) -> (r: Signal) {
        self.assess_bars(klines)
    }
}

} // verus!
