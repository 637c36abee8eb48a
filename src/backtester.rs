//! The backtest driver: replays bars through stop-loss check, strategy, risk
//! and execution, and records trades and the equity curve.

use vstd::prelude::*;
use crate::execution::{execute_outcome, index_of, keys, pnl_of, ExecError, Portfolio, SimulatedExecutor, SimulationSettings};
use crate::fixed::{bounded, fmul, fx_mul, fx_sub, lemma_fmul_fraction, lemma_fmul_nonneg, MAX_FX, SCALE};
use crate::risk::{evaluate_outcome, SimpleRiskManager, SimpleRiskSettings};
use crate::analytics::{points_wf, report_matches, AnalyticsEngine, PerformanceReport, MAX_POINTS};
use crate::strategy::{history_wf, Strategy};
use crate::types::{
    confidence_of, copy_position, opposite, opposite_side, signal_confidence, EquityPoint, Execution, Kline,
    OrderRequest, Position, Side, Signal, Trade,
};

verus! {

/// Number of leading bars used only to build strategy state.
pub const KLINE_HISTORY_SIZE: usize = 100;

/// The capital a backtest starts with unless told otherwise (10 000 units).
pub const DEFAULT_INITIAL_CAPITAL: i128 = 1_000_000_000_000;

/// The entry fee of a position, recomputed from the taker rate.
pub open spec fn entry_fee(p: Position, taker: int) -> int {
    fmul(fmul(p.quantity as int, p.entry_price as int), taker)
}

/// The trade that closing `pos` with a fill at `price` and fee `fee` at
/// `exit_time` produces.
pub open spec fn trade_of(pos: Position, price: int, fee: int, exit_time: i64, confidence: i128, taker: int) -> Trade {
    Trade {
        symbol: pos.symbol,
        side: pos.side,
        entry_time: pos.entry_time,
        exit_time,
        entry_price: pos.entry_price,
        exit_price: price as i128,
        quantity: pos.quantity,
        pnl: pnl_of(pos.side, pos.entry_price as int, price, pos.quantity as int) as i128,
        fees: (entry_fee(pos, taker) + fee) as i128,
        signal_confidence: confidence,
        leverage: pos.leverage,
    }
}

/// Total profit less fees over `ts`.
pub open spec fn net_of(ts: Seq<Trade>) -> int
    decreases ts.len(),
{
    if ts.len() == 0 {
        0
    } else {
        net_of(ts.drop_last()) + ts.last().pnl - ts.last().fees
    }
}

/// Total profit over `ts`.
pub open spec fn pnl_total(ts: Seq<Trade>) -> int
    decreases ts.len(),
{
    if ts.len() == 0 {
        0
    } else {
        pnl_total(ts.drop_last()) + ts.last().pnl
    }
}

/// Total fees over `ts`.
pub open spec fn fee_total(ts: Seq<Trade>) -> int
    decreases ts.len(),
{
    if ts.len() == 0 {
        0
    } else {
        fee_total(ts.drop_last()) + ts.last().fees
    }
}

/// Profit less fees, summed trade by trade, is total profit less total fees.
pub proof fn lemma_net_splits(ts: Seq<Trade>)
    ensures
        net_of(ts) == pnl_total(ts) - fee_total(ts),
    decreases ts.len(),
{
    if ts.len() > 0 {
        lemma_net_splits(ts.drop_last());
    }
}

/// Total entry fees of the open positions `ps`.
pub open spec fn open_fees(ps: Seq<Position>, taker: int) -> int
    decreases ps.len(),
{
    if ps.len() == 0 {
        0
    } else {
        open_fees(ps.drop_last(), taker) + entry_fee(ps.last(), taker)
    }
}

/// Every trade in `ts` is well formed.
pub open spec fn trades_wf(ts: Seq<Trade>) -> bool {
    forall|i: int| 0 <= i < ts.len() ==> (#[trigger] ts[i]).wf()
}

/// Bars in strictly increasing order of opening time.
pub open spec fn ascending(ks: Seq<Kline>) -> bool {
    forall|i: int, j: int| 0 <= i < j < ks.len() ==> ks[i].open_time < ks[j].open_time
}

/// The fixed inputs of a run: its symbol, risk rules and fill model.
pub struct RunConfig {
    pub symbol: Seq<char>,
    pub symbol_text: String,
    pub risk: SimpleRiskSettings,
    pub sim: SimulationSettings,
}

/// What a run holds as it goes: the strategy, the cash, the open positions,
/// the trades and the equity curve.
pub struct RunState<S> {
    pub strategy: S,
    pub cash: int,
    pub positions: Seq<Position>,
    pub trades: Seq<Trade>,
    pub equity: Seq<EquityPoint>,
}

/// The open position on `sym` among `ps`, if there is one.
pub open spec fn position_on(ps: Seq<Position>, sym: Seq<char>) -> Option<Position> {
    if keys(ps).contains(sym) {
        Some(ps[index_of(ps, sym)])
    } else {
        None
    }
}

/// Bar `k` reaches the stop of `p`.
pub open spec fn stop_hit(p: Position, k: Kline) -> bool {
    match p.side {
        Side::Long => k.low <= p.sl_price,
        Side::Short => k.high >= p.sl_price,
    }
}

/// The state after a fill with result `res` left cash `cash` and positions
/// `ps`: a fill that closed a position adds its trade, exiting at `exit_time`.
pub open spec fn after_fill<S>(
    st: RunState<S>,
    res: Result<(Execution, Option<Position>), ExecError>,
    cash: int,
    ps: Seq<Position>,
    exit_time: i64,
    taker: int,
) -> RunState<S> {
    RunState {
        strategy: st.strategy,
        cash,
        positions: ps,
        trades: match res {
            Ok((e, Some(c))) => st.trades.push(
                trade_of(c, e.price as int, e.fee as int, exit_time, signal_confidence(e.source_request.originating_signal), taker),
            ),
            _ => st.trades,
        },
        equity: st.equity,
    }
}

/// The order that closes `p` at its stop.
pub open spec fn stop_order(p: Position) -> OrderRequest {
    OrderRequest {
        symbol: p.symbol,
        side: opposite(p.side),
        quantity: p.quantity,
        leverage: p.leverage,
        sl_price: 0,
        originating_signal: Signal::Close,
    }
}

/// A stop-out on bar `k`: the full position closes at its stop price.
pub open spec fn stop_step<S>(c: RunConfig, st: RunState<S>, p: Position, k: Kline) -> RunState<S> {
    let (res, cash, ps) = execute_outcome(c.sim, stop_order(p), p.sl_price as int, k.open_time, st.cash, st.positions);
    after_fill(st, res, cash, ps, k.open_time, c.sim.taker_fee as int)
}

/// Bar `i` without a stop-out: the strategy assesses the bars before it; a
/// signal other than `Hold` is sized against bar `i − 1` with the current
/// cash, and an approved order fills at that bar's close and opening time.
pub open spec fn signal_step<S: Strategy>(c: RunConfig, st: RunState<S>, ks: Seq<Kline>, i: int) -> RunState<S> {
    let (s2, sig) = st.strategy.step(ks.subrange(i - KLINE_HISTORY_SIZE, i));
    let st2 = RunState { strategy: s2, ..st };
    if sig is Hold {
        st2
    } else {
        let calc = ks[i - 1];
        match evaluate_outcome(c.risk, sig, c.symbol_text, st.cash, calc, position_on(st.positions, c.symbol)) {
            Ok(Some(o)) => {
                let (res, cash, ps) = execute_outcome(c.sim, o, calc.close as int, calc.open_time, st.cash, st.positions);
                after_fill(st2, res, cash, ps, calc.open_time, c.sim.taker_fee as int)
            },
            _ => st2,
        }
    }
}

/// Bar `i`: the cash is recorded as an equity point at the bar's opening
/// time; then a position whose stop the bar reaches is closed, and nothing
/// else happens on that bar; otherwise the strategy is consulted.
pub open spec fn bar_step<S: Strategy>(c: RunConfig, st: RunState<S>, ks: Seq<Kline>, i: int) -> RunState<S> {
    let k = ks[i];
    let st1 = RunState { equity: st.equity.push(EquityPoint { timestamp: k.open_time, value: st.cash as i128 }), ..st };
    let pos = position_on(st.positions, c.symbol);
    if pos is Some && stop_hit(pos->Some_0, k) {
        stop_step(c, st1, pos->Some_0, k)
    } else {
        signal_step(c, st1, ks, i)
    }
}

/// The state after bars `KLINE_HISTORY_SIZE` to `hi − 1`, from `st`.
pub open spec fn replay<S: Strategy>(c: RunConfig, st: RunState<S>, ks: Seq<Kline>, hi: int) -> RunState<S>
    decreases hi,
{
    if hi <= KLINE_HISTORY_SIZE {
        st
    } else {
        bar_step(c, replay(c, st, ks, hi - 1), ks, hi - 1)
    }
}

/// Records the closed trades and the equity curve of a run.
#[derive(Debug)]
pub struct TradeLogger {
    pub trades: Vec<Trade>,
    pub equity_curve: Vec<EquityPoint>,
}

impl TradeLogger {
    pub fn new() -> (r: TradeLogger)
        ensures
            r.trades@.len() == 0,
            r.equity_curve@.len() == 0,
    {
        TradeLogger { trades: Vec::new(), equity_curve: Vec::new() }
    }

    /// Appends a point to the equity curve.
    pub fn record_equity(&mut self, timestamp: i64, value: i128)
        ensures
            final(self).equity_curve@ == old(self).equity_curve@.push(EquityPoint { timestamp, value }),
            final(self).trades@ == old(self).trades@,
    {
        self.equity_curve.push(EquityPoint { timestamp, value });
    }

    /// Records the trade that closing `open_pos` with `close_exec` at
    /// `exit_time` produced; its fees are the entry fee, recomputed from
    /// `taker_fee`, and the closing fee, and its confidence is that of the
    /// closing order's signal.
    pub fn record_trade(&mut self, open_pos: &Position, close_exec: &Execution, exit_time: i64, taker_fee: i128)
        requires
            open_pos.wf(),
            0 <= taker_fee <= SCALE,
            0 < close_exec.price,
            bounded(close_exec.price as int),
            bounded(close_exec.price - open_pos.entry_price),
            bounded(pnl_of(open_pos.side, open_pos.entry_price as int, close_exec.price as int, open_pos.quantity as int)),
            0 <= close_exec.fee <= MAX_FX,
            exit_time >= open_pos.entry_time,
        ensures
            final(self).equity_curve@ == old(self).equity_curve@,
            final(self).trades@ == old(self).trades@.push(
                trade_of(
                    *open_pos,
                    close_exec.price as int,
                    close_exec.fee as int,
                    exit_time,
                    signal_confidence(close_exec.source_request.originating_signal),
                    taker_fee as int,
                ),
            ),
            final(self).trades@.last().wf(),
    {
        let notional = fx_mul(open_pos.quantity, open_pos.entry_price).unwrap();
        proof {
            lemma_fmul_nonneg(open_pos.quantity as int, open_pos.entry_price as int);
            lemma_fmul_fraction(notional as int, taker_fee as int);
        }
        let entry_fee = fx_mul(notional, taker_fee).unwrap();
        let fees: i128 = entry_fee + close_exec.fee;
        let diff = fx_sub(close_exec.price, open_pos.entry_price).unwrap();
        let gross = fx_mul(diff, open_pos.quantity).unwrap();
        let pnl: i128 = match open_pos.side {
            Side::Long => gross,
            Side::Short => -gross,
        };
        let confidence = confidence_of(&close_exec.source_request.originating_signal);
        let trade = Trade {
            symbol: open_pos.symbol.clone(),
            side: open_pos.side,
            entry_time: open_pos.entry_time,
            exit_time,
            entry_price: open_pos.entry_price,
            exit_price: close_exec.price,
            quantity: open_pos.quantity,
            pnl,
            fees,
            signal_confidence: confidence,
            leverage: open_pos.leverage,
        };
        self.trades.push(trade);
    }
}

/// Replays bars for one symbol through a strategy, the risk rules and the
/// simulated executor.
pub struct Backtester<S: Strategy> {
    pub symbol: String,
    pub interval: String,
    pub strategy: S,
    pub risk_manager: SimpleRiskManager,
    pub executor: SimulatedExecutor,
    pub logger: TradeLogger,
    pub portfolio: Portfolio,
}

impl<S: Strategy> Backtester<S> {
    /// What holds before and after every bar.
    pub open spec fn wf(&self) -> bool {
        &&& self.strategy.inv()
        &&& self.risk_manager.settings.wf()
        &&& self.executor.settings.wf()
        &&& self.portfolio.wf()
        &&& self.portfolio.open_positions@.len() <= 1
        &&& forall|i: int| 0 <= i < self.portfolio.open_positions@.len()
            ==> (#[trigger] self.portfolio.open_positions@[i]).symbol@ == self.symbol@
        &&& trades_wf(self.logger.trades@)
        &&& self.portfolio.cash == self.portfolio.initial_capital + net_of(self.logger.trades@)
            - open_fees(self.portfolio.open_positions@, self.executor.settings.taker_fee as int)
    }

    /// A backtester with the default initial capital.
    pub fn new(
        symbol: String,
        interval: String,
        strategy: S,
        risk_manager: SimpleRiskManager,
        executor: SimulatedExecutor,
    ) -> (r: Backtester<S>)
        requires
            strategy.inv(),
            risk_manager.settings.wf(),
            executor.settings.wf(),
        ensures
            r.wf(),
            r.symbol == symbol,
            r.portfolio.initial_capital == DEFAULT_INITIAL_CAPITAL,
            r.logger.trades@.len() == 0,
            r.logger.equity_curve@.len() == 0,
            r.portfolio.open_positions@.len() == 0,
            r.strategy == strategy,
            r.risk_manager == risk_manager,
            r.executor == executor,
            r.portfolio.cash == r.portfolio.initial_capital,
    {
        Self::with_capital(symbol, interval, strategy, risk_manager, executor, DEFAULT_INITIAL_CAPITAL)
    }

    /// A backtester starting with `initial_capital`.
    pub fn with_capital(
        symbol: String,
        interval: String,
        strategy: S,
        risk_manager: SimpleRiskManager,
        executor: SimulatedExecutor,
        initial_capital: i128,
    ) -> (r: Backtester<S>)
        requires
            strategy.inv(),
            risk_manager.settings.wf(),
            executor.settings.wf(),
            bounded(initial_capital as int),
        ensures
            r.wf(),
            r.symbol == symbol,
            r.portfolio.initial_capital == initial_capital,
            r.logger.trades@.len() == 0,
            r.logger.equity_curve@.len() == 0,
            r.portfolio.open_positions@.len() == 0,
            r.strategy == strategy,
            r.risk_manager == risk_manager,
            r.executor == executor,
            r.portfolio.cash == r.portfolio.initial_capital,
    {
        let r = Backtester {
            symbol,
            interval,
            strategy,
            risk_manager,
            executor,
            logger: TradeLogger::new(),
            portfolio: Portfolio::new(initial_capital),
        };
        assert(net_of(r.logger.trades@) == 0);
        assert(open_fees(r.portfolio.open_positions@, r.executor.settings.taker_fee as int) == 0);
        r
    }

    /// The fixed inputs of this run.
    pub open spec fn config(&self) -> RunConfig {
        RunConfig {
            symbol: self.symbol@,
            symbol_text: self.symbol,
            risk: self.risk_manager.settings,
            sim: self.executor.settings,
        }
    }

    /// The current state of this run.
    pub open spec fn state(&self) -> RunState<S> {
        RunState {
            strategy: self.strategy,
            cash: self.portfolio.cash as int,
            positions: self.portfolio.open_positions@,
            trades: self.logger.trades@,
            equity: self.logger.equity_curve@,
        }
    }

    /// Positions open on the backtest's symbol were entered no later than `t`.
    pub open spec fn entered_by(&self, t: i64) -> bool {
        forall|k: int| 0 <= k < self.portfolio.open_positions@.len()
            ==> (#[trigger] self.portfolio.open_positions@[k]).entry_time <= t
    }

    /// Closes the open position when `bar` reaches its stop price, at that
    /// price, and records the trade. Returns whether the stop fired.
    fn check_stop_loss(&mut self, bar: &Kline) -> (fired: bool)
        requires
            old(self).wf(),
            bar.wf(),
            old(self).entered_by(bar.open_time),
        ensures
            final(self).wf(),
            final(self).entered_by(bar.open_time),
            final(self).symbol == old(self).symbol,
            final(self).portfolio.initial_capital == old(self).portfolio.initial_capital,
            final(self).logger.equity_curve@ == old(self).logger.equity_curve@,
            final(self).logger.trades@.len() <= old(self).logger.trades@.len() + 1,
            !fired ==> final(self).portfolio == old(self).portfolio,
            !fired ==> final(self).logger.trades@ == old(self).logger.trades@,
            final(self).config() == old(self).config(),
            ({
                let pos = position_on(old(self).portfolio.open_positions@, old(self).symbol@);
                &&& fired == (pos is Some && stop_hit(pos->Some_0, *bar))
                &&& fired ==> final(self).state() == stop_step(old(self).config(), old(self).state(), pos->Some_0, *bar)
                &&& !fired ==> final(self).state() == old(self).state()
            }),
    {
        let taker = self.executor.settings.taker_fee;
        let idx = match self.portfolio.position_index(&self.symbol) {
            None => return false,
            Some(i) => i,
        };
        let pos = copy_position(&self.portfolio.open_positions[idx]);
        let triggered = match pos.side {
            Side::Long => bar.low <= pos.sl_price,
            Side::Short => bar.high >= pos.sl_price,
        };
        if !triggered {
            return false;
        }
        let order = OrderRequest {
            symbol: pos.symbol.clone(),
            side: opposite_side(pos.side),
            quantity: pos.quantity,
            leverage: pos.leverage,
            sl_price: 0,
            originating_signal: Signal::Close,
        };
        let ghost before = self.portfolio;
        proof {
            assert(keys(before.open_positions@).contains(order.symbol@));
            let j = index_of(before.open_positions@, order.symbol@);
            assert(j == 0);
        }
        let res = self.executor.execute(&order, pos.sl_price, bar.open_time, &mut self.portfolio);
        match res {
            Ok((exec, Some(closed))) => {
                proof {
                    lemma_fmul_nonneg(pos.quantity as int, exec.price as int);
                    lemma_fmul_nonneg(fmul(pos.quantity as int, exec.price as int), taker as int);
                    lemma_fmul_nonneg(pos.quantity as int, pos.entry_price as int);
                    lemma_fmul_fraction(fmul(pos.quantity as int, pos.entry_price as int), taker as int);
                }
                self.logger.record_trade(&closed, &exec, bar.open_time, taker);
                proof {
                    let ts = self.logger.trades@;
                    assert(ts.drop_last() =~= old(self).logger.trades@);
                    let ps = before.open_positions@;
                    assert(ps.len() == 1);
                    assert(ps.drop_last() =~= Seq::<Position>::empty());
                    assert(open_fees(ps.drop_last(), taker as int) == 0);
                    assert(ps.last() == ps[0]);
                    assert(self.portfolio.open_positions@ =~= Seq::<Position>::empty());
                    assert(open_fees(ps, taker as int) == entry_fee(ps[0], taker as int));
                    assert(net_of(ts) == net_of(old(self).logger.trades@) + ts.last().pnl - ts.last().fees);
                    assert(trades_wf(ts));
                    assert(self.portfolio.cash == self.portfolio.initial_capital + net_of(ts));
                }
            },
            _ => {},
        }
        true
    }

    /// Asks the strategy about the bars before `klines[i]`, sizes its signal
    /// against `klines[i − 1]`, fills the order at that bar's close and time,
    /// and records the trade if a position closed.
    fn act_on_signal(&mut self, klines: &[Kline], i: usize)
        requires
            old(self).wf(),
            history_wf(klines@),
            KLINE_HISTORY_SIZE <= i < klines@.len(),
            old(self).entered_by(klines@[i - 1].open_time),
        ensures
            final(self).wf(),
            final(self).entered_by(klines@[i - 1].open_time),
            final(self).symbol == old(self).symbol,
            final(self).portfolio.initial_capital == old(self).portfolio.initial_capital,
            final(self).logger.equity_curve@ == old(self).logger.equity_curve@,
            final(self).logger.trades@.len() <= old(self).logger.trades@.len() + 1,
            final(self).config() == old(self).config(),
            final(self).state() == signal_step(old(self).config(), old(self).state(), klines@, i as int),
    {
        let taker = self.executor.settings.taker_fee;
        let history = &klines[i - KLINE_HISTORY_SIZE..i];
        assert(history_wf(history@));
        let signal = self.strategy.assess(history);
        if let Signal::Hold = signal {
            return;
        }
        let calc = &klines[i - 1];
        let cash = self.portfolio.cash;
        let found = self.portfolio.position_index(&self.symbol);
        let open_position = match found {
            Some(j) => Some(&self.portfolio.open_positions[j]),
            None => None,
        };
        let decision = self.risk_manager.evaluate(&signal, &self.symbol, cash, calc, open_position);
        let order = match decision {
            Ok(Some(o)) => o,
            _ => return,
        };
        let ghost before = self.portfolio;
        proof {
            assert(order.symbol@ == self.symbol@);
            let ps = before.open_positions@;
            if keys(ps).contains(order.symbol@) {
                let j = index_of(ps, order.symbol@);
                assert(j == 0);
                assert(ps.len() == 1);
                assert(ps.drop_last() =~= Seq::<Position>::empty());
                assert(open_fees(ps.drop_last(), taker as int) == 0);
                assert(ps.last() == ps[0]);
            } else {
                assert(ps.len() == 0) by {
                    if ps.len() > 0 {
                        assert(keys(ps).contains(ps[0].symbol@));
                    }
                }
            }
        }
        let res = self.executor.execute(&order, calc.close, calc.open_time, &mut self.portfolio);
        match res {
            Ok((exec, Some(closed))) => {
                proof {
                    let pos = before.open_positions@[0];
                    lemma_fmul_nonneg(pos.quantity as int, exec.price as int);
                    lemma_fmul_nonneg(fmul(pos.quantity as int, exec.price as int), taker as int);
                    lemma_fmul_nonneg(pos.quantity as int, pos.entry_price as int);
                    lemma_fmul_fraction(fmul(pos.quantity as int, pos.entry_price as int), taker as int);
                }
                self.logger.record_trade(&closed, &exec, calc.open_time, taker);
                proof {
                    let ts = self.logger.trades@;
                    assert(ts.drop_last() =~= old(self).logger.trades@);
                    assert(self.portfolio.open_positions@ =~= Seq::<Position>::empty());
                    assert(net_of(ts) == net_of(old(self).logger.trades@) + ts.last().pnl - ts.last().fees);
                }
            },
            Ok((_, None)) => {
                proof {
                    let ps = self.portfolio.open_positions@;
                    assert(ps.len() == 1);
                    assert(ps.drop_last() =~= Seq::<Position>::empty());
                    assert(open_fees(ps.drop_last(), taker as int) == 0);
                    assert(ps.last() == ps[0]);
                    lemma_fmul_nonneg(ps[0].quantity as int, ps[0].entry_price as int);
                    lemma_fmul_fraction(fmul(ps[0].quantity as int, ps[0].entry_price as int), taker as int);
                }
            },
            Err(_) => {},
        }
    }

    /// Replays `klines`: the first `KLINE_HISTORY_SIZE` bars only build
    /// state; for each later bar the driver records the cash as an equity
    /// point at the bar's opening time, closes the position at its stop price
    /// when the bar reaches it (and does nothing else on that bar), and
    /// otherwise acts on the strategy's signal for the bars before it. Returns
    /// the report, the trades in the order they closed, and the equity curve.
    pub fn run(&mut self, klines: Vec<Kline>) -> (r: (PerformanceReport, Vec<Trade>, Vec<EquityPoint>))
        requires
            old(self).wf(),
            old(self).logger.trades@.len() == 0,
            old(self).logger.equity_curve@.len() == 0,
            old(self).portfolio.open_positions@.len() == 0,
            history_wf(klines@),
            ascending(klines@),
            klines@.len() <= MAX_POINTS + KLINE_HISTORY_SIZE,
        ensures
            r.2@.len() == if klines@.len() > KLINE_HISTORY_SIZE {
                klines@.len() - KLINE_HISTORY_SIZE
            } else {
                0
            },
            forall|j: int| 0 <= j < r.2@.len()
                ==> (#[trigger] r.2@[j]).timestamp == klines@[j + KLINE_HISTORY_SIZE].open_time,
            forall|j: int, k: int| 0 <= j < k < r.2@.len() ==> r.2@[j].timestamp < r.2@[k].timestamp,
            trades_wf(r.1@),
            r.1@.len() <= r.2@.len(),
            final(self).portfolio.initial_capital == old(self).portfolio.initial_capital,
            final(self).portfolio.cash == final(self).portfolio.initial_capital + net_of(r.1@)
                - open_fees(final(self).portfolio.open_positions@, final(self).executor.settings.taker_fee as int),
            final(self).portfolio.open_positions@.len() == 0 ==> pnl_total(r.1@) - fee_total(r.1@)
                == final(self).portfolio.cash - final(self).portfolio.initial_capital,
            ({
                let fin = replay(old(self).config(), old(self).state(), klines@, klines@.len() as int);
                &&& r.1@ == fin.trades
                &&& r.2@ == fin.equity
                &&& final(self).strategy == fin.strategy
                &&& final(self).portfolio.cash == fin.cash
                &&& final(self).portfolio.open_positions@ == fin.positions
            }),
            r.1@.len() == 0 ==> r.0.is_zero(),
            r.1@.len() > 0 ==> report_matches(r.0, final(self).portfolio.initial_capital as int, r.1@, r.2@),
    {
        let mut i: usize = KLINE_HISTORY_SIZE;
        while i < klines.len()
            invariant
                KLINE_HISTORY_SIZE <= i,
                klines@.len() > KLINE_HISTORY_SIZE ==> i <= klines@.len(),
                klines@.len() <= KLINE_HISTORY_SIZE ==> i == KLINE_HISTORY_SIZE,
                self.wf(),
                history_wf(klines@),
                ascending(klines@),
                self.symbol == old(self).symbol,
                self.portfolio.initial_capital == old(self).portfolio.initial_capital,
                i == KLINE_HISTORY_SIZE ==> self.portfolio.open_positions@.len() == 0,
                i > KLINE_HISTORY_SIZE ==> self.entered_by(klines@[i - 1].open_time),
                self.logger.equity_curve@.len() == i - KLINE_HISTORY_SIZE,
                self.logger.trades@.len() <= i - KLINE_HISTORY_SIZE,
                forall|j: int| 0 <= j < self.logger.equity_curve@.len()
                    ==> (#[trigger] self.logger.equity_curve@[j]).timestamp == klines@[j + KLINE_HISTORY_SIZE].open_time,
                points_wf(self.logger.equity_curve@),
                self.config() == old(self).config(),
                self.state() == replay(old(self).config(), old(self).state(), klines@, i as int),
            decreases klines@.len() - i,
        {
            let bar = klines[i];
            assert(klines@[i as int].wf());
            let cash = self.portfolio.cash;
            self.logger.record_equity(bar.open_time, cash);
            proof {
                if i > KLINE_HISTORY_SIZE {
                    assert(klines@[i - 1].open_time < klines@[i as int].open_time);
                }
            }
            let ghost st0 = replay(old(self).config(), old(self).state(), klines@, i as int);
            let fired = self.check_stop_loss(&bar);
            if !fired {
                proof {
                    if i > KLINE_HISTORY_SIZE {
                        assert(self.entered_by(klines@[i - 1].open_time));
                    }
                }
                self.act_on_signal(&klines, i);
            }
            proof {
                assert(replay(old(self).config(), old(self).state(), klines@, i as int + 1) == bar_step(
                    old(self).config(),
                    st0,
                    klines@,
                    i as int,
                ));
            }
            i = i + 1;
        }
        assert(klines@.len() > KLINE_HISTORY_SIZE ==> i == klines@.len());
        assert(klines@.len() <= KLINE_HISTORY_SIZE ==> i == KLINE_HISTORY_SIZE);
        let mut trades: Vec<Trade> = Vec::new();
        let mut equity: Vec<EquityPoint> = Vec::new();
        std::mem::swap(&mut trades, &mut self.logger.trades);
        std::mem::swap(&mut equity, &mut self.logger.equity_curve);
        assert(equity@.len() <= MAX_POINTS);
        assert(trades@.len() <= equity@.len());
        assert(net_of(self.logger.trades@) == 0);
        proof {
            lemma_net_splits(trades@);
            if self.portfolio.open_positions@.len() == 0 {
                assert(open_fees(self.portfolio.open_positions@, self.executor.settings.taker_fee as int) == 0);
            }
        }
        let engine = AnalyticsEngine::new();
        let report = engine.calculate(self.portfolio.initial_capital, &trades, &equity);
        (report, trades, equity)
    }
}

} // verus!
