//! One factory for the strategies: parameters as a tagged variant, the
//! strategy built from them, and the worker step of an optimisation job.

use vstd::prelude::*;
use crate::analytics::{PerformanceReport, MAX_POINTS};
use crate::backtester::{ascending, replay, trades_wf, Backtester, RunConfig, RunState, DEFAULT_INITIAL_CAPITAL, KLINE_HISTORY_SIZE};
use crate::analytics::report_matches;
use crate::execution::{SimulatedExecutor, SimulationSettings};
use crate::ma_crossover::{MACrossover, MACrossoverSettings};
use crate::prob_reversion::{ProbReversion, ProbReversionSettings};
use crate::risk::{SimpleRiskManager, SimpleRiskSettings};
use crate::strategy::{history_wf, Strategy};
use crate::supertrend::{SuperTrend, SuperTrendSettings};
use crate::types::{EquityPoint, Kline, Position, Signal, Trade};
use crate::bot::Bot;
use crate::config::{BotConfig, LiveConfig};

verus! {

/// The parameters of one of the strategies.
#[derive(Clone, Copy, Debug)]
pub enum StrategyParams {
    MaCrossover(MACrossoverSettings),
    SuperTrend(SuperTrendSettings),
    ProbReversion(ProbReversionSettings),
}

impl StrategyParams {
    pub open spec fn wf(&self) -> bool {
        match *self {
            StrategyParams::MaCrossover(s) => s.wf(),
            StrategyParams::SuperTrend(s) => s.wf(),
            StrategyParams::ProbReversion(s) => s.wf(),
        }
    }

    /// The parameters, when they are well formed.
    pub fn validated(&self) -> (r: Option<StrategyParams>)
        ensures
            r == (if self.wf() { Some(*self) } else { None::<StrategyParams> }),
    {
        let ok = match self {
            StrategyParams::MaCrossover(s) => s.is_valid(),
            StrategyParams::SuperTrend(s) => s.is_valid(),
            StrategyParams::ProbReversion(s) => s.is_valid(),
        };
        if ok {
            Some(*self)
        } else {
            None
        }
    }

    /// The strategy these parameters describe, with fresh state.
    pub fn build(&self) -> (r: AnyStrategy)
        requires
            self.wf(),
        ensures
            r.inv(),
            built_from(*self, r),
    {
        match *self {
            StrategyParams::MaCrossover(s) => AnyStrategy::MaCrossover(MACrossover::new(s)),
            StrategyParams::SuperTrend(s) => AnyStrategy::SuperTrend(SuperTrend::new(s)),
            StrategyParams::ProbReversion(s) => AnyStrategy::ProbReversion(ProbReversion::new(s)),
        }
    }
}

/// `a` is the strategy `p` describes, with fresh state.
pub open spec fn built_from(p: StrategyParams, a: AnyStrategy) -> bool {
    match (p, a) {
        (StrategyParams::MaCrossover(s), AnyStrategy::MaCrossover(m)) => m.settings == s && !m.fast_ema.started,
        (StrategyParams::SuperTrend(s), AnyStrategy::SuperTrend(m)) => m.settings == s && m.last_signal_side is None,
        (StrategyParams::ProbReversion(s), AnyStrategy::ProbReversion(m)) => m.settings == s
            && m.pending_buy_signal_close is None && !m.in_position && m.prev_rsi_sma == 0,
        _ => false,
    }
}

/// One of the strategies.
#[derive(Debug)]
pub enum AnyStrategy {
    MaCrossover(MACrossover),
    SuperTrend(SuperTrend),
    ProbReversion(ProbReversion),
}

impl Strategy for AnyStrategy {
    open spec fn inv(&self) -> bool {
        match self {
            AnyStrategy::MaCrossover(s) => s.inv(),
            AnyStrategy::SuperTrend(s) => s.inv(),
            AnyStrategy::ProbReversion(s) => s.inv(),
        }
    }

    open spec fn step(&self, ks: Seq<Kline>) -> (Self, Signal) {
        match *self {
            AnyStrategy::MaCrossover(s) => {
                let (n, sig) = s.step(ks);
                (AnyStrategy::MaCrossover(n), sig)
            },
            AnyStrategy::SuperTrend(s) => {
                let (n, sig) = s.step(ks);
                (AnyStrategy::SuperTrend(n), sig)
            },
            AnyStrategy::ProbReversion(s) => {
                let (n, sig) = s.step(ks);
                (AnyStrategy::ProbReversion(n), sig)
            },
        }
    }

    open spec fn label(&self) -> Seq<char> {
        match self {
            AnyStrategy::MaCrossover(s) => s.label(),
            AnyStrategy::SuperTrend(s) => s.label(),
            AnyStrategy::ProbReversion(s) => s.label(),
        }
    }

    fn name(&self) -> (r: &'static str) {
        match self {
            AnyStrategy::MaCrossover(s) => s.name(),
            AnyStrategy::SuperTrend(s) => s.name(),
            AnyStrategy::ProbReversion(s) => s.name(),
        }
    }

    fn assess(&mut self, klines: &[Kline]) -> (r: Signal) {
        match self {
            AnyStrategy::MaCrossover(s) => s.assess_bars(klines),
            AnyStrategy::SuperTrend(s) => s.assess_bars(klines),
            AnyStrategy::ProbReversion(s) => s.assess_bars(klines),
        }
    }
}

/// The fixed inputs of an optimisation run: no fees and no slippage.
pub open spec fn zero_cost_config(symbol: String, risk: SimpleRiskSettings) -> RunConfig {
    RunConfig {
        symbol: symbol@,
        symbol_text: symbol,
        risk,
        sim: SimulationSettings { maker_fee: 0, taker_fee: 0, slippage_percent: 0 },
    }
}

/// Fewer bars than this and a parameter set is skipped.
pub const MIN_BARS: usize = 100;

/// Runs one parameter set of an optimisation job on `klines`, without fees or
/// slippage, from the default capital: nothing when there are fewer than
/// `MIN_BARS` bars, else the report, trades and equity curve of the run.
pub fn run_single_backtest(
    params: &StrategyParams,
    symbol: String,
    interval: String,
    risk: SimpleRiskSettings,
    klines: Vec<Kline>,
) -> (r: Option<(PerformanceReport, Vec<Trade>, Vec<EquityPoint>)>)
    requires
        params.wf(),
        risk.wf(),
        history_wf(klines@),
        ascending(klines@),
        klines@.len() <= MAX_POINTS + KLINE_HISTORY_SIZE,
    ensures
        r is None <==> klines@.len() < MIN_BARS,
        r matches Some((report, trades, equity)) ==> {
            &&& equity@.len() == klines@.len() - KLINE_HISTORY_SIZE
            &&& forall|j: int| 0 <= j < equity@.len()
                ==> (#[trigger] equity@[j]).timestamp == klines@[j + KLINE_HISTORY_SIZE].open_time
            &&& trades_wf(trades@)
            &&& (trades@.len() == 0 ==> report.is_zero())
            &&& (trades@.len() > 0 ==> report_matches(report, DEFAULT_INITIAL_CAPITAL as int, trades@, equity@))
            &&& exists|s: AnyStrategy| #[trigger] built_from(*params, s) && ({
                let fin = replay(
                    zero_cost_config(symbol, risk),
                    RunState {
                        strategy: s,
                        cash: DEFAULT_INITIAL_CAPITAL as int,
                        positions: Seq::empty(),
                        trades: Seq::empty(),
                        equity: Seq::empty(),
                    },
                    klines@,
                    klines@.len() as int,
                );
                trades@ == fin.trades && equity@ == fin.equity
            })
        },
{
    if klines.len() < MIN_BARS {
        return None;
    }
    let strategy = params.build();
    let ghost s0 = strategy;
    let ghost sym = symbol;
    let executor = SimulatedExecutor::new(SimulationSettings { maker_fee: 0, taker_fee: 0, slippage_percent: 0 });
    let mut backtester = Backtester::new(symbol, interval, strategy, SimpleRiskManager::new(risk), executor);
    proof {
        assert(backtester.config() == zero_cost_config(sym, risk));
        assert(backtester.logger.trades@ =~= Seq::<Trade>::empty());
        assert(backtester.logger.equity_curve@ =~= Seq::<EquityPoint>::empty());
        assert(backtester.portfolio.open_positions@ =~= Seq::<Position>::empty());
    }
    let r = backtester.run(klines);
    assert(built_from(*params, s0));
    Some(r)
}

/// The parameter blocks of the configuration, each optional.
#[derive(Clone, Copy, Debug)]
pub struct StrategySettings {
    pub ma_crossover: Option<MACrossoverSettings>,
    pub supertrend: Option<SuperTrendSettings>,
    pub prob_reversion: Option<ProbReversionSettings>,
}

impl StrategySettings {
    /// Every block present is well formed.
    pub open spec fn wf(&self) -> bool {
        &&& (self.ma_crossover matches Some(s) ==> s.wf())
        &&& (self.supertrend matches Some(s) ==> s.wf())
        &&& (self.prob_reversion matches Some(s) ==> s.wf())
    }
}

/// The strategies, by the name configuration files use.
#[derive(Clone, Copy, Debug, PartialEq, Eq, Structural)]
pub enum StrategyKind {
    MaCrossover,
    SuperTrend,
    ProbReversion,
}

/// The strategy a name stands for: `ma_crossover`, `supertrend` or `prob_reversion`.
pub open spec fn kind_named(name: Seq<char>) -> Option<StrategyKind> {
    if name == "ma_crossover"@ {
        Some(StrategyKind::MaCrossover)
    } else if name == "supertrend"@ {
        Some(StrategyKind::SuperTrend)
    } else if name == "prob_reversion"@ {
        Some(StrategyKind::ProbReversion)
    } else {
        None
    }
}

/// The strategy a name stands for.
pub fn strategy_kind(name: &str) -> (r: Option<StrategyKind>)
    ensures
        r == kind_named(name@),
{
    let n = name.to_owned();
    if n == "ma_crossover".to_owned() {
        Some(StrategyKind::MaCrossover)
    } else if n == "supertrend".to_owned() {
        Some(StrategyKind::SuperTrend)
    } else if n == "prob_reversion".to_owned() {
        Some(StrategyKind::ProbReversion)
    } else {
        None
    }
}

/// The configured parameters of a strategy, if its block is present.
pub open spec fn params_of(kind: StrategyKind, s: StrategySettings) -> Option<StrategyParams> {
    match kind {
        StrategyKind::MaCrossover => match s.ma_crossover {
            Some(p) => Some(StrategyParams::MaCrossover(p)),
            None => None,
        },
        StrategyKind::SuperTrend => match s.supertrend {
            Some(p) => Some(StrategyParams::SuperTrend(p)),
            None => None,
        },
        StrategyKind::ProbReversion => match s.prob_reversion {
            Some(p) => Some(StrategyParams::ProbReversion(p)),
            None => None,
        },
    }
}

/// The configured parameters of a strategy, if its block is present.
pub fn params_for(kind: StrategyKind, s: &StrategySettings) -> (r: Option<StrategyParams>)
    ensures
        r == params_of(kind, *s),
{
    match kind {
        StrategyKind::MaCrossover => match s.ma_crossover {
            Some(p) => Some(StrategyParams::MaCrossover(p)),
            None => None,
        },
        StrategyKind::SuperTrend => match s.supertrend {
            Some(p) => Some(StrategyParams::SuperTrend(p)),
            None => None,
        },
        StrategyKind::ProbReversion => match s.prob_reversion {
            Some(p) => Some(StrategyParams::ProbReversion(p)),
            None => None,
        },
    }
}

/// The parameters of the strategies named in `names`, in order, skipping a
/// name that stands for no strategy or whose block is absent.
pub open spec fn live_params(names: Seq<String>, s: StrategySettings) -> Seq<StrategyParams>
    decreases names.len(),
{
    if names.len() == 0 {
        Seq::empty()
    } else {
        let prev = live_params(names.drop_last(), s);
        match kind_named(names.last()@) {
            Some(k) => match params_of(k, s) {
                Some(p) => prev.push(p),
                None => prev,
            },
            None => prev,
        }
    }
}

/// Builds the strategies named for a live pair, skipping unknown names and
/// those whose parameters are not configured.
pub fn create_strategies_for_live_run(names: &[String], settings: &StrategySettings) -> (r: Vec<AnyStrategy>)
    requires
        settings.wf(),
    ensures
        r@.len() == live_params(names@, *settings).len(),
        forall|i: int| 0 <= i < r@.len() ==> built_from(live_params(names@, *settings)[i], #[trigger] r@[i]),
        forall|i: int| 0 <= i < r@.len() ==> (#[trigger] r@[i]).inv(),
{
    let mut out: Vec<AnyStrategy> = Vec::new();
    let mut i: usize = 0;
    while i < names.len()
        invariant
            i <= names@.len(),
            settings.wf(),
            out@.len() == live_params(names@.subrange(0, i as int), *settings).len(),
            forall|t: int| 0 <= t < out@.len() ==> built_from(live_params(names@.subrange(0, i as int), *settings)[t], #[trigger] out@[t]),
            forall|t: int| 0 <= t < out@.len() ==> (#[trigger] out@[t]).inv(),
        decreases names@.len() - i,
    {
        let ghost sub = names@.subrange(0, i as int + 1);
        proof {
            assert(sub.drop_last() =~= names@.subrange(0, i as int));
            assert(sub.last() == names@[i as int]);
        }
        if let Some(kind) = strategy_kind(names[i].as_str()) {
            if let Some(p) = params_for(kind, settings) {
                let built = p.build();
                let ghost before = out@;
                out.push(built);
                proof {
                    assert forall|t: int| 0 <= t < out@.len() implies built_from(live_params(sub, *settings)[t], #[trigger] out@[t]) by {
                        if t < before.len() {
                            assert(out@[t] == before[t]);
                        }
                    }
                    assert forall|t: int| 0 <= t < out@.len() implies (#[trigger] out@[t]).inv() by {
                        if t < before.len() {
                            assert(out@[t] == before[t]);
                        }
                    }
                }
            }
        }
        i = i + 1;
    }
    assert(names@.subrange(0, names@.len() as int) =~= names@);
    out
}

/// Builds every strategy whose parameters are configured, in the order
/// crossover, SuperTrend, reversion.
pub fn create_strategies_from_settings(settings: &StrategySettings) -> (r: Vec<AnyStrategy>)
    requires
        settings.wf(),
    ensures
        r@.len() == (if settings.ma_crossover is Some { 1int } else { 0 }) + (if settings.supertrend is Some {
            1int
        } else {
            0
        }) + (if settings.prob_reversion is Some { 1int } else { 0 }),
        forall|i: int| 0 <= i < r@.len() ==> (#[trigger] r@[i]).inv(),
        settings.ma_crossover matches Some(s) ==> built_from(StrategyParams::MaCrossover(s), r@[0]),
{
    let mut out: Vec<AnyStrategy> = Vec::new();
    if let Some(s) = settings.ma_crossover {
        out.push(StrategyParams::MaCrossover(s).build());
    }
    if let Some(s) = settings.supertrend {
        out.push(StrategyParams::SuperTrend(s).build());
    }
    if let Some(s) = settings.prob_reversion {
        out.push(StrategyParams::ProbReversion(s).build());
    }
    out
}

/// Why the bots of a live configuration could not be set up.
#[derive(Clone, Copy, Debug, PartialEq, Eq, Structural)]
pub enum ConfigError {
    /// An enabled bot names a strategy whose parameter block is absent.
    MissingParameters,
}

/// The bots an enabled configuration entry yields: skipped when disabled or
/// when its key names no strategy; an error when the block is absent.
pub open spec fn bot_plan(cfgs: Seq<BotConfig>, s: StrategySettings) -> Result<Seq<(BotConfig, StrategyParams)>, ConfigError>
    decreases cfgs.len(),
{
    if cfgs.len() == 0 {
        Ok(Seq::empty())
    } else {
        match bot_plan(cfgs.drop_last(), s) {
            Err(e) => Err(e),
            Ok(prev) => {
                let c = cfgs.last();
                if !c.enabled {
                    Ok(prev)
                } else {
                    match kind_named(c.strategy_params@) {
                        None => Ok(prev),
                        Some(k) => match params_of(k, s) {
                            None => Err(ConfigError::MissingParameters),
                            Some(p) => Ok(prev.push((c, p))),
                        },
                    }
                }
            },
        }
    }
}

/// One bot per enabled entry of the live configuration, with the strategy
/// its parameter key names; entries whose key names no strategy are skipped.
pub fn bots_from_config(live: &LiveConfig, settings: &StrategySettings) -> (r: Result<Vec<Bot<AnyStrategy>>, ConfigError>)
    requires
        settings.wf(),
    ensures
        match (r, bot_plan(live.bot@, *settings)) {
            (Ok(bots), Ok(plan)) => bots@.len() == plan.len() && forall|i: int| 0 <= i < bots@.len() ==> {
                let b = #[trigger] bots@[i];
                &&& b.wf()
                &&& b.symbol == plan[i].0.symbol
                &&& b.interval == plan[i].0.interval
                &&& b.klines@.len() == 0
                &&& built_from(plan[i].1, b.strategy)
            },
            (Err(e), Err(f)) => e == f,
            _ => false,
        },
{
    let mut out: Vec<Bot<AnyStrategy>> = Vec::new();
    let mut i: usize = 0;
    while i < live.bot.len()
        invariant
            i <= live.bot@.len(),
            settings.wf(),
            bot_plan(live.bot@.subrange(0, i as int), *settings) is Ok,
            ({
                let plan = bot_plan(live.bot@.subrange(0, i as int), *settings)->Ok_0;
                &&& out@.len() == plan.len()
                &&& forall|t: int| 0 <= t < out@.len() ==> {
                    let b = #[trigger] out@[t];
                    &&& b.wf()
                    &&& b.symbol == plan[t].0.symbol
                    &&& b.interval == plan[t].0.interval
                    &&& b.klines@.len() == 0
                    &&& built_from(plan[t].1, b.strategy)
                }
            }),
        decreases live.bot@.len() - i,
    {
        let ghost sub = live.bot@.subrange(0, i as int + 1);
        proof {
            assert(sub.drop_last() =~= live.bot@.subrange(0, i as int));
            assert(sub.last() == live.bot@[i as int]);
        }
        let c = &live.bot[i];
        if c.enabled {
            if let Some(kind) = strategy_kind(c.strategy_params.as_str()) {
                match params_for(kind, settings) {
                    None => {
                        proof {
                            lemma_plan_error_sticks(live.bot@, *settings, i as int + 1);
                            assert(live.bot@.subrange(0, live.bot@.len() as int) =~= live.bot@);
                        }
                        return Err(ConfigError::MissingParameters);
                    },
                    Some(p) => {
                        let strategy = p.build();
                        let bot = Bot::new(c.symbol.clone(), c.interval.clone(), strategy);
                        let ghost before = out@;
                        out.push(bot);
                        proof {
                            let plan = bot_plan(sub, *settings)->Ok_0;
                            assert forall|t: int| 0 <= t < out@.len() implies {
                                let b = #[trigger] out@[t];
                                &&& b.wf()
                                &&& b.symbol == plan[t].0.symbol
                                &&& b.interval == plan[t].0.interval
                                &&& b.klines@.len() == 0
                                &&& built_from(plan[t].1, b.strategy)
                            } by {
                                if t < before.len() {
                                    assert(out@[t] == before[t]);
                                }
                            }
                        }
                    },
                }
            }
        }
        i = i + 1;
    }
    assert(live.bot@.subrange(0, live.bot@.len() as int) =~= live.bot@);
    Ok(out)
}

proof fn lemma_plan_error_sticks(cfgs: Seq<BotConfig>, s: StrategySettings, k: int)
    requires
        0 <= k <= cfgs.len(),
        bot_plan(cfgs.subrange(0, k), s) is Err,
    ensures
        bot_plan(cfgs, s) == bot_plan(cfgs.subrange(0, k), s),
    decreases cfgs.len() - k,
{
    if k < cfgs.len() {
        let t = cfgs.subrange(0, k + 1);
        assert(t.drop_last() =~= cfgs.subrange(0, k));
        lemma_plan_error_sticks(cfgs, s, k + 1);
    } else {
        assert(cfgs.subrange(0, k) =~= cfgs);
    }
}

} // verus!
