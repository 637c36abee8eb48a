use futures_backtest::bot::{Bot, BotAction};
use futures_backtest::config::default_as_true;
use futures_backtest::exchange::LiveConnector;
use futures_backtest::execution::Portfolio;
use futures_backtest::fixed::SCALE;
use futures_backtest::ma_crossover::{MACrossover, MACrossoverSettings};
use futures_backtest::optimizer::{
    cartesian_product, expand_value, generate_generic_parameter_sets, GridError, ParamSpec, ParamValue,
};
use futures_backtest::risk::{SimpleRiskManager, SimpleRiskSettings};
use futures_backtest::types::{Kline, Position, Side, Signal};
use futures_backtest::web::{default_page, default_page_size};

#[test]
fn grid_expansion_of_three_parameters() {
    let params = vec![
        ParamSpec::Range { start: ParamValue::Integer(5), end: ParamValue::Integer(10), step: Some(ParamValue::Integer(5)) },
        ParamSpec::Range { start: ParamValue::Integer(20), end: ParamValue::Integer(30), step: Some(ParamValue::Integer(5)) },
        ParamSpec::Fixed(ParamValue::Float(80_000_000)),
    ];
    let sets = generate_generic_parameter_sets(&params).unwrap();
    assert_eq!(sets.len(), 6);
    assert_eq!(sets[0], vec![ParamValue::Integer(5), ParamValue::Integer(20), ParamValue::Float(80_000_000)]);
    assert_eq!(sets[1], vec![ParamValue::Integer(5), ParamValue::Integer(25), ParamValue::Float(80_000_000)]);
    assert_eq!(sets[5], vec![ParamValue::Integer(10), ParamValue::Integer(30), ParamValue::Float(80_000_000)]);
    assert!(sets.iter().all(|s| matches!(s[0], ParamValue::Integer(_)) && matches!(s[2], ParamValue::Float(_))));
}

#[test]
fn fractional_range_yields_floats() {
    let p = ParamSpec::Range {
        start: ParamValue::Float(SCALE / 2),
        end: ParamValue::Integer(1),
        step: Some(ParamValue::Float(SCALE / 4)),
    };
    assert_eq!(
        expand_value(&p).unwrap(),
        vec![ParamValue::Float(50_000_000), ParamValue::Float(75_000_000), ParamValue::Float(100_000_000)]
    );
    let whole = ParamSpec::Range { start: ParamValue::Integer(1), end: ParamValue::Integer(3), step: None };
    assert_eq!(
        expand_value(&whole).unwrap(),
        vec![ParamValue::Integer(1), ParamValue::Integer(2), ParamValue::Integer(3)]
    );
    let empty = ParamSpec::Range { start: ParamValue::Integer(5), end: ParamValue::Integer(3), step: None };
    assert!(expand_value(&empty).unwrap().is_empty());
}

#[test]
fn non_positive_step_is_refused() {
    let p = ParamSpec::Range { start: ParamValue::Integer(1), end: ParamValue::Integer(3), step: Some(ParamValue::Integer(0)) };
    assert_eq!(expand_value(&p).err(), Some(GridError::NonPositiveStep));
    assert_eq!(generate_generic_parameter_sets(&vec![p]).err(), Some(GridError::NonPositiveStep));
}

#[test]
fn product_size_is_product_of_list_sizes() {
    let lists = vec![
        vec![ParamValue::Integer(1), ParamValue::Integer(2)],
        vec![ParamValue::Integer(3), ParamValue::Integer(4), ParamValue::Integer(5)],
        vec![ParamValue::Integer(6), ParamValue::Integer(7)],
    ];
    assert_eq!(cartesian_product(&lists).len(), 12);
    assert_eq!(cartesian_product(&vec![]).len(), 1);
    assert_eq!(cartesian_product(&vec![vec![ParamValue::Integer(1)], vec![]]).len(), 0);
}

fn k(t: i64, open: i128, close: i128) -> Kline {
    Kline { open_time: t, close_time: t + 1, open, high: close.max(open), low: close.min(open), close, volume: SCALE }
}

fn bot() -> Bot<MACrossover> {
    let s = MACrossoverSettings { h1_fast_period: 1, h1_slow_period: 2, m5_fast_period: 1, m5_slow_period: 2, confidence: SCALE };
    Bot::new("ETHUSDT".to_string(), "1m".to_string(), MACrossover::new(s))
}

fn risk() -> SimpleRiskManager {
    SimpleRiskManager::new(SimpleRiskSettings {
        risk_per_trade_percent: SCALE / 100,
        stop_loss_percent: SCALE / 20,
        minimum_confidence_threshold: 0,
        leverage: 2,
    })
}

#[test]
fn bot_waits_for_history_then_closes_on_stop() {
    let mut b = bot();
    assert_eq!(b.id, "ETHUSDT_1m_MultiTimeframeMACrossover");
    let mut pf = Portfolio::new(1_000 * SCALE);
    pf.open_positions.push(Position {
        symbol: "ETHUSDT".to_string(),
        side: Side::Long,
        quantity: SCALE,
        entry_price: 100 * SCALE,
        leverage: 1,
        sl_price: 95 * SCALE,
        entry_time: 0,
    });
    assert!(matches!(b.on_kline(k(1, 100 * SCALE, 100 * SCALE), &risk(), &pf), BotAction::Nothing));
    assert!(!b.strategy.fast_ema.started);
    match b.on_kline(k(2, 100 * SCALE, 94 * SCALE), &risk(), &pf) {
        BotAction::Execute { order, price, time } => {
            assert_eq!(order.side, Side::Short);
            assert_eq!(order.originating_signal, Signal::Close);
            assert_eq!(price, 94 * SCALE);
            assert_eq!(time, 2);
        }
        BotAction::Nothing => panic!("stop reached"),
    }
    assert_eq!(b.klines.len(), 2);
}

#[test]
fn bot_fills_signals_at_the_open() {
    let mut b = bot();
    let pf = Portfolio::new(10_000 * SCALE);
    let r = risk();
    assert!(matches!(b.on_kline(k(1, 100 * SCALE, 100 * SCALE), &r, &pf), BotAction::Nothing));
    assert!(matches!(b.on_kline(k(2, 100 * SCALE, 100 * SCALE), &r, &pf), BotAction::Nothing));
    match b.on_kline(k(3, 101 * SCALE, 110 * SCALE), &r, &pf) {
        BotAction::Execute { order, price, time } => {
            assert_eq!(order.side, Side::Long);
            assert_eq!(order.symbol, "ETHUSDT");
            assert_eq!(order.leverage, 2);
            assert_eq!(price, 101 * SCALE);
            assert_eq!(time, 3);
        }
        BotAction::Nothing => panic!("cross up"),
    }
}

#[test]
fn defaults() {
    assert!(default_as_true());
    assert_eq!(default_page(), 1);
    assert_eq!(default_page_size(), 50);
    let _ = LiveConnector::new();
}

use futures_backtest::config::{BotConfig, LiveConfig};
use futures_backtest::factory::{
    bots_from_config, create_strategies_for_live_run, create_strategies_from_settings, strategy_kind, AnyStrategy,
    ConfigError, StrategyKind, StrategySettings,
};
use futures_backtest::strategy::Strategy;

fn only_ma() -> StrategySettings {
    StrategySettings {
        ma_crossover: Some(MACrossoverSettings { h1_fast_period: 5, h1_slow_period: 20, m5_fast_period: 5, m5_slow_period: 20, confidence: SCALE }),
        supertrend: None,
        prob_reversion: None,
    }
}

#[test]
fn strategy_names() {
    assert_eq!(strategy_kind("ma_crossover"), Some(StrategyKind::MaCrossover));
    assert_eq!(strategy_kind("supertrend"), Some(StrategyKind::SuperTrend));
    assert_eq!(strategy_kind("prob_reversion"), Some(StrategyKind::ProbReversion));
    assert_eq!(strategy_kind("rsi"), None);
}

#[test]
fn live_factory_skips_unknown_and_unconfigured() {
    let names = vec!["ma_crossover".to_string(), "unknown".to_string(), "supertrend".to_string()];
    let built = create_strategies_for_live_run(&names, &only_ma());
    assert_eq!(built.len(), 1);
    assert!(matches!(built[0], AnyStrategy::MaCrossover(_)));
    let all = create_strategies_from_settings(&only_ma());
    assert_eq!(all.len(), 1);
    assert_eq!(all[0].name(), "MultiTimeframeMACrossover");
}

fn bot_cfg(enabled: bool, key: &str) -> BotConfig {
    BotConfig {
        enabled,
        symbol: "BTCUSDT".to_string(),
        interval: "1m".to_string(),
        strategy_name: key.to_string(),
        strategy_params: key.to_string(),
    }
}

#[test]
fn bots_from_live_configuration() {
    let live = LiveConfig { bot: vec![bot_cfg(true, "ma_crossover"), bot_cfg(false, "ma_crossover"), bot_cfg(true, "other")] };
    let bots = bots_from_config(&live, &only_ma()).unwrap();
    assert_eq!(bots.len(), 1);
    assert_eq!(bots[0].symbol, "BTCUSDT");
    assert_eq!(bots[0].id, "BTCUSDT_1m_MultiTimeframeMACrossover");
    let missing = LiveConfig { bot: vec![bot_cfg(true, "supertrend")] };
    assert_eq!(bots_from_config(&missing, &only_ma()).err(), Some(ConfigError::MissingParameters));
}
