use futures_backtest::analytics::{PerformanceReport, Ratio};
use futures_backtest::backtester::{Backtester, TradeLogger};
use futures_backtest::execution::{ExecError, Portfolio, SimulatedExecutor, SimulationSettings};
use futures_backtest::fixed::SCALE;
use futures_backtest::ma_crossover::{MACrossover, MACrossoverSettings};
use futures_backtest::risk::{RiskError, SimpleRiskManager, SimpleRiskSettings};
use futures_backtest::strategy::Strategy;
use futures_backtest::types::{Kline, OrderRequest, Position, Side, Signal};

fn units(x: i128) -> i128 {
    x * SCALE
}

fn bar(t: i64, close: i128, low: i128) -> Kline {
    Kline {
        open_time: t * 60_000,
        close_time: t * 60_000 + 59_999,
        open: units(close),
        high: units(close),
        low: units(low),
        close: units(close),
        volume: units(1),
    }
}

fn ma_settings(confidence: i128) -> MACrossoverSettings {
    MACrossoverSettings {
        h1_fast_period: 5,
        h1_slow_period: 20,
        m5_fast_period: 5,
        m5_slow_period: 20,
        confidence,
    }
}

fn risk_settings() -> SimpleRiskSettings {
    SimpleRiskSettings {
        risk_per_trade_percent: SCALE / 100,
        stop_loss_percent: SCALE / 20,
        minimum_confidence_threshold: 0,
        leverage: 1,
    }
}

fn no_costs() -> SimulationSettings {
    SimulationSettings { maker_fee: 0, taker_fee: 0, slippage_percent: 0 }
}

fn backtester(confidence: i128, sim: SimulationSettings) -> Backtester<MACrossover> {
    Backtester::new(
        "BTCUSDT".to_string(),
        "5m".to_string(),
        MACrossover::new(ma_settings(confidence)),
        SimpleRiskManager::new(risk_settings()),
        SimulatedExecutor::new(sim),
    )
}

/// 100 bars at 90, then a bar at 100 (the cross up), then bars at 100.
fn crossing_bars(extra: usize) -> Vec<Kline> {
    let mut v = Vec::new();
    for t in 0..100 {
        v.push(bar(t, 90, 90));
    }
    v.push(bar(100, 100, 100));
    for k in 0..extra {
        v.push(bar(101 + k as i64, 100, 100));
    }
    v
}

#[test]
fn empty_input_gives_zero_report() {
    let mut bt = backtester(SCALE, no_costs());
    let (report, trades, equity) = bt.run(Vec::new());
    assert!(trades.is_empty());
    assert!(equity.is_empty());
    assert_eq!(report.total_trades, 0);
    assert_eq!(report.net_pnl_absolute, 0);
    assert_eq!(report.profit_factor, Ratio::Finite(0));
    assert_eq!(report.sortino_ratio, Ratio::Finite(0));
    assert!(report.confidence_performance.is_empty());
}

#[test]
fn warmup_only_gives_no_trades() {
    let mut bt = backtester(SCALE / 2, no_costs());
    let bars: Vec<Kline> = (0..50).map(|t| bar(t, 100, 100)).collect();
    let (report, trades, equity) = bt.run(bars);
    assert!(trades.is_empty());
    assert!(equity.is_empty());
    assert_eq!(report.total_trades, 0);
}

#[test]
fn forced_long_entry_without_costs() {
    let mut bt = backtester(SCALE, no_costs());
    let (report, trades, equity) = bt.run(crossing_bars(10));
    assert!(trades.is_empty());
    assert_eq!(report.total_trades, 0);
    assert_eq!(equity.len(), 11);
    assert_eq!(bt.portfolio.open_positions.len(), 1);
    let p = &bt.portfolio.open_positions[0];
    assert_eq!(p.side, Side::Long);
    assert_eq!(p.entry_price, units(100));
    assert_eq!(p.quantity, units(20));
    assert_eq!(p.sl_price, units(95));
    assert_eq!(p.entry_time, 100 * 60_000);
    assert_eq!(bt.portfolio.cash, units(10_000));
}

#[test]
fn stop_out_closes_at_stop_price() {
    let mut bars = crossing_bars(3);
    bars[102].low = units(94);
    let mut bt = backtester(SCALE, no_costs());
    let (report, trades, _equity) = bt.run(bars);
    assert_eq!(trades.len(), 1);
    let t = &trades[0];
    assert_eq!(t.exit_price, units(95));
    assert_eq!(t.pnl, units(-100));
    assert_eq!(t.quantity, units(20));
    assert_eq!(t.entry_time, 100 * 60_000);
    assert_eq!(t.exit_time, 102 * 60_000);
    assert_eq!(t.signal_confidence, 0);
    assert_eq!(bt.portfolio.cash, units(9_900));
    assert!(bt.portfolio.open_positions.is_empty());
    assert_eq!(report.total_trades, 1);
    assert_eq!(report.net_pnl_absolute, units(-100));
    assert_eq!(report.profit_factor, Ratio::Finite(0));
}

#[test]
fn equity_curve_has_one_point_per_bar_in_time_order() {
    let mut bt = backtester(SCALE, no_costs());
    let bars = crossing_bars(19);
    let n = bars.len();
    let times: Vec<i64> = bars.iter().map(|k| k.open_time).collect();
    let (_, _, equity) = bt.run(bars);
    assert_eq!(equity.len(), n - 100);
    for (j, p) in equity.iter().enumerate() {
        assert_eq!(p.timestamp, times[100 + j]);
    }
    for w in equity.windows(2) {
        assert!(w[0].timestamp < w[1].timestamp);
    }
}

#[test]
fn cash_change_equals_trade_pnl_less_fees() {
    let mut bars = crossing_bars(3);
    bars[102].low = units(94);
    let sim = SimulationSettings { maker_fee: 0, taker_fee: SCALE / 2500, slippage_percent: SCALE / 2000 };
    let mut bt = backtester(SCALE, sim);
    let (_, trades, _) = bt.run(bars);
    assert_eq!(trades.len(), 1);
    assert!(bt.portfolio.open_positions.is_empty());
    let net: i128 = trades.iter().map(|t| t.pnl - t.fees).sum();
    assert_eq!(bt.portfolio.cash - bt.portfolio.initial_capital, net);
    assert!(trades[0].fees > 0);
    for t in &trades {
        assert!(t.exit_time >= t.entry_time);
        assert!(t.quantity > 0 && t.entry_price > 0 && t.exit_price > 0);
    }
}

#[test]
fn fresh_strategies_give_the_same_signals() {
    let bars = crossing_bars(30);
    let mut a = MACrossover::new(ma_settings(SCALE));
    let mut b = MACrossover::new(ma_settings(SCALE));
    let mut sa = Vec::new();
    let mut sb = Vec::new();
    for i in 100..bars.len() {
        sa.push(a.assess(&bars[i - 100..i]));
        sb.push(b.assess(&bars[i - 100..i]));
    }
    assert_eq!(sa, sb);
    assert_eq!(sa[0], Signal::Hold);
    assert_eq!(sa[1], Signal::GoLong { confidence: SCALE });
    assert_eq!(a.name(), "MultiTimeframeMACrossover");
}

#[test]
fn short_history_holds() {
    let mut s = MACrossover::new(ma_settings(SCALE));
    let bars: Vec<Kline> = (0..10).map(|t| bar(t, 100, 100)).collect();
    assert_eq!(s.assess(&bars), Signal::Hold);
    assert!(!s.fast_ema.started);
}

fn order(side: Side, qty: i128, sl: i128) -> OrderRequest {
    OrderRequest {
        symbol: "BTCUSDT".to_string(),
        side,
        quantity: qty,
        leverage: 1,
        sl_price: sl,
        originating_signal: Signal::GoLong { confidence: SCALE },
    }
}

#[test]
fn entry_and_close_add_and_remove_one_position() {
    let ex = SimulatedExecutor::new(SimulationSettings {
        maker_fee: 0,
        taker_fee: SCALE / 1000,
        slippage_percent: SCALE / 100,
    });
    let mut pf = Portfolio::new(units(1000));
    let (e, closed) = ex.execute(&order(Side::Long, units(2), units(90)), units(100), 5, &mut pf).unwrap();
    assert!(closed.is_none());
    assert_eq!(e.price, units(101));
    assert_eq!(e.fee, 20_200_000);
    assert_eq!(pf.open_positions.len(), 1);
    assert_eq!(pf.cash, units(1000) - 20_200_000);
    let (e2, closed) = ex.execute(&order(Side::Short, units(2), 0), units(110), 6, &mut pf).unwrap();
    let p = closed.unwrap();
    assert_eq!(p.entry_price, units(101));
    assert_eq!(e2.price, 10_890_000_000);
    assert_eq!(e2.fee, 21_780_000);
    assert!(pf.open_positions.is_empty());
    // pnl = (108.9 − 101) · 2 = 15.8
    assert_eq!(pf.cash, units(1000) - 20_200_000 + 1_580_000_000 - 21_780_000);
}

#[test]
fn short_entry_moves_price_down() {
    let ex = SimulatedExecutor::new(SimulationSettings { maker_fee: 0, taker_fee: 0, slippage_percent: SCALE / 100 });
    let mut pf = Portfolio::new(units(1000));
    let (e, _) = ex.execute(&order(Side::Short, units(1), units(110)), units(100), 1, &mut pf).unwrap();
    assert_eq!(e.price, units(99));
}

#[test]
fn entry_fee_above_cash_is_refused() {
    let ex = SimulatedExecutor::new(SimulationSettings { maker_fee: 0, taker_fee: SCALE / 10, slippage_percent: 0 });
    let mut pf = Portfolio::new(units(5));
    let r = ex.execute(&order(Side::Long, units(1), 0), units(100), 1, &mut pf);
    assert_eq!(r.err(), Some(ExecError::InsufficientCash));
    assert!(pf.open_positions.is_empty());
    assert_eq!(pf.cash, units(5));
}

#[test]
fn out_of_range_fill_is_refused() {
    let ex = SimulatedExecutor::new(SimulationSettings { maker_fee: 0, taker_fee: 0, slippage_percent: 0 });
    let mut pf = Portfolio::new(units(5));
    let big = 1_000_000_000_000_000_000;
    let r = ex.execute(&order(Side::Long, big, 0), big, 1, &mut pf);
    assert_eq!(r.err(), Some(ExecError::Arithmetic));
}

fn kline_at(close: i128) -> Kline {
    bar(0, close, close)
}

#[test]
fn risk_sizes_entry_from_stop_distance() {
    let rm = SimpleRiskManager::new(risk_settings());
    let sym = "BTCUSDT".to_string();
    let o = rm
        .evaluate(&Signal::GoLong { confidence: SCALE }, &sym, units(10_000), &kline_at(100), None)
        .unwrap()
        .unwrap();
    assert_eq!(o.quantity, units(20));
    assert_eq!(o.sl_price, units(95));
    assert_eq!(o.side, Side::Long);
    let o = rm
        .evaluate(&Signal::GoShort { confidence: SCALE / 2 }, &sym, units(10_000), &kline_at(100), None)
        .unwrap()
        .unwrap();
    assert_eq!(o.quantity, units(10));
    assert_eq!(o.sl_price, units(105));
    assert_eq!(o.side, Side::Short);
}

fn position(side: Side) -> Position {
    Position {
        symbol: "BTCUSDT".to_string(),
        side,
        quantity: units(3),
        entry_price: units(100),
        leverage: 4,
        sl_price: units(95),
        entry_time: 0,
    }
}

#[test]
fn risk_hold_close_and_vetoes() {
    let mut s = risk_settings();
    s.minimum_confidence_threshold = SCALE / 2;
    let rm = SimpleRiskManager::new(s);
    let sym = "BTCUSDT".to_string();
    let k = kline_at(100);
    assert!(rm.evaluate(&Signal::Hold, &sym, units(1), &k, None).unwrap().is_none());
    assert!(rm.evaluate(&Signal::Close, &sym, units(1), &k, None).unwrap().is_none());
    let pos = position(Side::Long);
    let c = rm.evaluate(&Signal::Close, &sym, units(1), &k, Some(&pos)).unwrap().unwrap();
    assert_eq!(c.side, Side::Short);
    assert_eq!(c.quantity, units(3));
    assert_eq!(c.leverage, 4);
    assert_eq!(c.sl_price, 0);
    assert_eq!(
        rm.evaluate(&Signal::GoLong { confidence: SCALE }, &sym, units(1), &k, Some(&pos)).err(),
        Some(RiskError::PositionAlreadyOpen)
    );
    assert_eq!(
        rm.evaluate(&Signal::GoLong { confidence: SCALE / 4 }, &sym, units(1), &k, None).err(),
        Some(RiskError::ConfidenceTooLow)
    );
    assert_eq!(
        rm.evaluate(&Signal::GoLong { confidence: SCALE }, &sym, 0, &k, None).err(),
        Some(RiskError::SizeNotPositive)
    );
    let mut tiny = kline_at(1);
    tiny.close = 1;
    assert_eq!(
        rm.evaluate(&Signal::GoLong { confidence: SCALE }, &sym, 1_000_000_000_000_000_000, &tiny, None).err(),
        Some(RiskError::Arithmetic)
    );
}

#[test]
fn trade_logger_builds_trade_from_position_and_fill() {
    let ex = SimulatedExecutor::new(SimulationSettings { maker_fee: 0, taker_fee: SCALE / 100, slippage_percent: 0 });
    let mut pf = Portfolio::new(units(1000));
    ex.execute(&order(Side::Short, units(2), units(110)), units(100), 10, &mut pf).unwrap();
    let mut close = order(Side::Long, units(2), 0);
    close.originating_signal = Signal::GoLong { confidence: SCALE * 7 / 10 };
    let (e, p) = ex.execute(&close, units(90), 20, &mut pf).unwrap();
    let p = p.unwrap();
    let mut log = TradeLogger::new();
    log.record_equity(20, pf.cash);
    log.record_trade(&p, &e, 20_000, SCALE / 100);
    let t = &log.trades[0];
    assert_eq!(t.side, Side::Short);
    assert_eq!(t.pnl, units(20));
    assert_eq!(t.fees, units(2) + 180_000_000);
    assert_eq!(t.signal_confidence, SCALE * 7 / 10);
    assert_eq!(log.equity_curve.len(), 1);
    let report = PerformanceReport::new();
    assert_eq!(report.total_trades, 0);
}

#[test]
fn tiny_positive_size_still_gets_an_order() {
    let mut s = risk_settings();
    s.minimum_confidence_threshold = SCALE / 2;
    let rm = SimpleRiskManager::new(s);
    let sym = "BTCUSDT".to_string();
    let o = rm.evaluate(&Signal::GoLong { confidence: SCALE }, &sym, 1, &kline_at(100), None).unwrap().unwrap();
    assert_eq!(o.quantity, 1);
    assert_eq!(o.sl_price, units(95));
    let z = SimpleRiskManager::new(risk_settings());
    assert_eq!(
        z.evaluate(&Signal::GoShort { confidence: 0 }, &sym, units(10_000), &kline_at(100), None).err(),
        Some(RiskError::SizeNotPositive)
    );
    // 10000 · 0.01 · 0.3 / 0.05 / 7 = 85.71428571…
    let o = z.evaluate(&Signal::GoLong { confidence: SCALE * 3 / 10 }, &sym, units(10_000), &kline_at(7), None).unwrap().unwrap();
    assert_eq!(o.quantity, 8_571_428_571);
}
