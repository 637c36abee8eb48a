use futures_backtest::decimal::parse_decimal;
use futures_backtest::exchange::{kline_from_raw, RawKline};
use futures_backtest::factory::{run_single_backtest, AnyStrategy, StrategyParams};
use futures_backtest::fixed::SCALE;
use futures_backtest::indicators::Atr;
use futures_backtest::ma_crossover::MACrossoverSettings;
use futures_backtest::prob_reversion::{ProbReversion, ProbReversionSettings};
use futures_backtest::reversion_indicators::{bollinger_bands, calculate_adx, rsi_values, sma_of};
use futures_backtest::risk::SimpleRiskSettings;
use futures_backtest::strategy::Strategy;
use futures_backtest::supertrend::{SuperTrend, SuperTrendSettings};
use futures_backtest::types::{Kline, Side, Signal};

fn units(x: i128) -> i128 {
    x * SCALE
}

fn k3(t: i64, close: i128, high: i128, low: i128) -> Kline {
    Kline { open_time: t, close_time: t + 1, open: units(close), high: units(high), low: units(low), close: units(close), volume: units(1) }
}

fn st_settings() -> SuperTrendSettings {
    SuperTrendSettings {
        period: 3,
        multiplier: SCALE,
        exit_multiplier: SCALE / 2,
        volume_threshold: 0,
        confirmation_bars: 1,
        ema_confirmation_period: 3,
        confidence: 80_000_000,
    }
}

fn breakout() -> Vec<Kline> {
    let mut v: Vec<Kline> = (0..10).map(|t| k3(t, 100, 101, 99)).collect();
    v.push(k3(10, 120, 121, 119));
    v
}

#[test]
fn supertrend_enters_on_confirmed_breakout() {
    let mut s = SuperTrend::new(st_settings());
    assert_eq!(s.assess(&breakout()), Signal::GoLong { confidence: 80_000_000 });
    assert_eq!(s.last_signal_side, Some(Side::Long));
    let mut calm = breakout();
    calm.push(k3(11, 119, 121, 118));
    assert_eq!(s.assess(&calm), Signal::Hold);
    assert_eq!(s.name(), "EnhancedSuperTrend");
}

#[test]
fn supertrend_exits_under_tight_band() {
    let mut s = SuperTrend::new(st_settings());
    s.assess(&breakout());
    let mut h = breakout();
    h.push(k3(11, 112, 125, 112));
    assert_eq!(s.assess(&h), Signal::Close);
    assert_eq!(s.last_signal_side, None);
}

#[test]
fn supertrend_reverses_to_short() {
    let mut s = SuperTrend::new(st_settings());
    s.assess(&breakout());
    let mut h = breakout();
    h.push(k3(11, 100, 101, 99));
    assert_eq!(s.assess(&h), Signal::GoShort { confidence: 80_000_000 });
    assert_eq!(s.last_signal_side, Some(Side::Short));
}

#[test]
fn supertrend_volume_filter_and_short_history() {
    let mut st = st_settings();
    st.volume_threshold = units(5);
    let mut s = SuperTrend::new(st);
    assert_eq!(s.assess(&breakout()), Signal::Hold);
    let mut s = SuperTrend::new(st_settings());
    assert_eq!(s.assess(&breakout()[..2]), Signal::Hold);
}

fn pr_settings() -> ProbReversionSettings {
    ProbReversionSettings {
        bband_period: 5,
        bband_stddev: units(2),
        adx_period: 2,
        adx_range_threshold: units(101),
        rsi_period: 3,
        rsi_oversold: units(101),
        rsi_smoothing: 2,
        confidence: 90_000_000,
    }
}

#[test]
fn reversion_arms_enters_and_exits() {
    let mut s = ProbReversion::new(pr_settings());
    let mut h: Vec<Kline> = (0..4).map(|t| k3(t, 100, 100, 100)).collect();
    h.push(k3(4, 95, 95, 80));
    assert_eq!(s.assess(&h), Signal::Hold);
    assert_eq!(s.pending_buy_signal_close, Some(units(95)));
    assert!(s.prev_rsi_sma > 0);
    h.push(k3(5, 97, 97, 96));
    assert_eq!(s.assess(&h), Signal::GoLong { confidence: 90_000_000 });
    assert!(s.in_position);
    h.push(k3(6, 101, 101, 100));
    assert_eq!(s.assess(&h), Signal::Close);
    assert!(!s.in_position);
    assert_eq!(s.name(), "ProbabilisticReversion");
}

#[test]
fn reversion_trending_market_holds() {
    let mut st = pr_settings();
    st.adx_range_threshold = 0;
    let mut s = ProbReversion::new(st);
    let mut h: Vec<Kline> = (0..4).map(|t| k3(t, 100, 100, 100)).collect();
    h.push(k3(4, 95, 95, 80));
    assert_eq!(s.assess(&h), Signal::Hold);
    assert_eq!(s.pending_buy_signal_close, None);
    assert_eq!(s.assess(&h[..3]), Signal::Hold);
}

#[test]
fn indicator_values() {
    let h: Vec<Kline> = vec![k3(0, 100, 100, 100), k3(1, 100, 100, 100), k3(2, 100, 100, 100), k3(3, 100, 100, 100), k3(4, 95, 95, 80)];
    let (mid, lower) = bollinger_bands(&h, 5, units(2));
    assert_eq!(mid, units(99));
    assert_eq!(lower, units(95));
    let r = rsi_values(&h, 3);
    assert_eq!(r, vec![units(50), units(50), units(50), units(50), 0]);
    assert_eq!(sma_of(&r, 2), units(25));
    assert_eq!(sma_of(&vec![], 2), 0);
    let a: Vec<Kline> = [(10, 9, 9), (11, 10, 11), (12, 10, 12), (12, 9, 10), (13, 11, 12)]
        .iter()
        .enumerate()
        .map(|(t, (hi, lo, c))| k3(t as i64, *c, *hi, *lo))
        .collect();
    assert_eq!(calculate_adx(&a, 2), vec![0, 0, 0, units(50), units(50)]);
    let mut atr = Atr::new(2);
    assert_eq!(atr.next(&a[0]), units(1));
    assert_eq!(atr.next(&a[1]), units(3) / 2);
    assert_eq!(atr.next(&a[2]), units(7) / 4);
}

#[test]
fn decimal_text() {
    assert_eq!(parse_decimal("123.45"), Some(12_345_000_000));
    assert_eq!(parse_decimal("-0.5"), Some(-50_000_000));
    assert_eq!(parse_decimal("7"), Some(700_000_000));
    assert_eq!(parse_decimal("0.00000001"), Some(1));
    assert_eq!(parse_decimal("999999999999999999"), Some(999_999_999_999_999_999 * SCALE));
    assert_eq!(parse_decimal("1."), None);
    assert_eq!(parse_decimal(".5"), None);
    assert_eq!(parse_decimal("1.123456789"), None);
    assert_eq!(parse_decimal("1000000000000000000"), None);
    assert_eq!(parse_decimal("12a"), None);
    assert_eq!(parse_decimal(""), None);
    assert_eq!(parse_decimal("-"), None);
    assert_eq!(parse_decimal("1.2.3"), None);
}

#[test]
fn raw_bar_conversion() {
    let s = |x: &str| x.to_string();
    let raw = RawKline(1, s("100.5"), s("101"), s("99.25"), s("100"), s("12.5"), 59_999, s("0"), 3, s("0"), s("0"), s("0"));
    let k = kline_from_raw(&raw).unwrap();
    assert_eq!(k.open, 10_050_000_000);
    assert_eq!(k.high, units(101));
    assert_eq!(k.low, 9_925_000_000);
    assert_eq!(k.close_time, 59_999);
    let bad = RawKline(1, s("x"), s("101"), s("99"), s("100"), s("1"), 2, s("0"), 3, s("0"), s("0"), s("0"));
    assert!(kline_from_raw(&bad).is_none());
}

fn ma_params() -> StrategyParams {
    StrategyParams::MaCrossover(MACrossoverSettings {
        h1_fast_period: 5,
        h1_slow_period: 20,
        m5_fast_period: 5,
        m5_slow_period: 20,
        confidence: SCALE,
    })
}

fn risk() -> SimpleRiskSettings {
    SimpleRiskSettings { risk_per_trade_percent: SCALE / 100, stop_loss_percent: SCALE / 20, minimum_confidence_threshold: 0, leverage: 1 }
}

#[test]
fn worker_skips_short_data_and_runs_otherwise() {
    let few: Vec<Kline> = (0..99).map(|t| k3(t, 100, 100, 100)).collect();
    assert!(run_single_backtest(&ma_params(), "BTCUSDT".to_string(), "5m".to_string(), risk(), few).is_none());
    let many: Vec<Kline> = (0..130).map(|t| k3(t, 100, 100, 100)).collect();
    let (report, trades, equity) =
        run_single_backtest(&ma_params(), "BTCUSDT".to_string(), "5m".to_string(), risk(), many).unwrap();
    assert_eq!(equity.len(), 30);
    assert!(trades.is_empty());
    assert_eq!(report.total_trades, 0);
}

#[test]
fn factory_builds_each_strategy() {
    let mut a = ma_params().build();
    assert_eq!(a.name(), "MultiTimeframeMACrossover");
    assert!(matches!(a, AnyStrategy::MaCrossover(_)));
    assert_eq!(a.assess(&breakout()), Signal::Hold);
    let mut b = StrategyParams::SuperTrend(st_settings()).build();
    assert_eq!(b.name(), "EnhancedSuperTrend");
    assert_eq!(b.assess(&breakout()), Signal::GoLong { confidence: 80_000_000 });
    let c = StrategyParams::ProbReversion(pr_settings()).build();
    assert_eq!(c.name(), "ProbabilisticReversion");
}

#[test]
fn fresh_supertrends_agree_on_a_replay() {
    let mut bars = breakout();
    for t in 11..30 {
        bars.push(k3(t, 100 + (t as i128 % 7) * 3, 125, 95));
    }
    let mut a = SuperTrend::new(st_settings());
    let mut b = SuperTrend::new(st_settings());
    let sa: Vec<Signal> = (5..bars.len()).map(|i| a.assess(&bars[..i])).collect();
    let sb: Vec<Signal> = (5..bars.len()).map(|i| b.assess(&bars[..i])).collect();
    assert_eq!(sa, sb);
}

#[test]
fn supertrend_enters_when_the_trend_becomes_confirmed() {
    let mut st = st_settings();
    st.confirmation_bars = 2;
    let mut s = SuperTrend::new(st);
    let mut h = breakout();
    assert_eq!(s.assess(&h), Signal::Hold);
    h.push(k3(11, 122, 123, 121));
    assert_eq!(s.assess(&h), Signal::GoLong { confidence: 80_000_000 });
}

#[test]
fn bollinger_over_a_long_window() {
    let h: Vec<Kline> = (0..150).map(|t| if t % 2 == 0 { k3(t, 100, 100, 100) } else { k3(t, 102, 102, 102) }).collect();
    assert_eq!(bollinger_bands(&h, 150, units(2)), (units(101), units(99)));
}

#[test]
fn settings_validation() {
    let mut bad = st_settings();
    bad.multiplier = 0;
    assert!(!bad.is_valid());
    assert!(st_settings().is_valid());
    assert!(StrategyParams::SuperTrend(bad).validated().is_none());
    assert!(StrategyParams::ProbReversion(pr_settings()).validated().is_some());
    let mut ma = MACrossoverSettings { h1_fast_period: 5, h1_slow_period: 20, m5_fast_period: 20, m5_slow_period: 20, confidence: SCALE };
    assert!(!ma.is_valid());
    ma.m5_fast_period = 5;
    assert!(ma.is_valid());
    assert!(risk().is_valid());
}
