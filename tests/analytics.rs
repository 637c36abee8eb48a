use futures_backtest::analytics::{
    bucket_for, isqrt, AnalyticsEngine, ConfidenceBucket, PerformanceReport, Ratio,
};
use futures_backtest::fixed::{fx_div, fx_mul, SCALE};
use futures_backtest::indicators::Ema;
use futures_backtest::ranker::{calculate_score, analyze_and_rank_results};
use futures_backtest::types::{EquityPoint, Kline, Side, Trade};

fn units(x: i128) -> i128 {
    x * SCALE
}

fn trade(pnl: i128, confidence: i128, secs: i64) -> Trade {
    Trade {
        symbol: "BTCUSDT".to_string(),
        side: Side::Long,
        entry_time: 0,
        exit_time: secs * 1000,
        entry_price: units(100),
        exit_price: units(100) + pnl,
        quantity: units(1),
        pnl,
        fees: 0,
        signal_confidence: confidence,
        leverage: 2,
    }
}

fn sample_trades() -> Vec<Trade> {
    vec![
        trade(units(300), SCALE / 2, 60),
        trade(units(-100), SCALE * 65 / 100, 120),
        trade(units(200), SCALE * 95 / 100, 180),
    ]
}

fn sample_curve() -> Vec<EquityPoint> {
    [10_000, 10_300, 10_200, 10_400]
        .iter()
        .enumerate()
        .map(|(i, v)| EquityPoint { timestamp: i as i64 * 1000, value: units(*v) })
        .collect()
}

#[test]
fn report_over_sample_run() {
    let r = AnalyticsEngine::new().calculate(units(10_000), &sample_trades(), &sample_curve());
    assert_eq!(r.total_trades, 3);
    assert_eq!(r.net_pnl_absolute, units(400));
    assert_eq!(r.net_pnl_percentage, units(4));
    assert_eq!(r.win_rate, 6_666_666_666);
    assert_eq!(r.profit_factor, Ratio::Finite(units(5)));
    assert_eq!(r.max_drawdown_absolute, units(100));
    assert_eq!(r.max_drawdown_percentage, 97_087_378);
    assert_eq!(r.sharpe_ratio, 79_101_364);
    assert_eq!(r.sortino_ratio, Ratio::Finite(136_986_879));
    assert_eq!(r.calmar_ratio, 412_000_002);
    assert_eq!(r.avg_trade_duration_secs, units(120));
    assert_eq!(r.expectancy, 13_333_333_333);
    assert_eq!(r.larom, units(4));
    assert_eq!(r.funding_pnl, 0);
    assert_eq!(r.drawdown_duration_secs, 1);
    let b = &r.confidence_performance;
    assert_eq!(b.len(), 3);
    assert_eq!(b[0].bucket, ConfidenceBucket::UpTo59);
    assert_eq!(b[0].net_pnl_absolute, units(300));
    assert_eq!(b[0].win_rate, units(100));
    assert_eq!(b[1].bucket, ConfidenceBucket::From60To69);
    assert_eq!(b[1].win_rate, 0);
    assert_eq!(b[2].bucket, ConfidenceBucket::From90To100);
    assert_eq!(b[2].total_trades, 1);
}

#[test]
fn profit_factor_times_loss_is_profit() {
    let ts = vec![trade(units(250), 0, 1), trade(units(-100), 0, 1), trade(units(50), 0, 1)];
    let r = AnalyticsEngine::new().calculate(units(10_000), &ts, &[]);
    match r.profit_factor {
        Ratio::Finite(pf) => assert_eq!(pf * units(100) / SCALE, units(300)),
        Ratio::Infinite => panic!("losses exist"),
    }
}

#[test]
fn no_losses_give_unbounded_profit_factor() {
    let ts = vec![trade(units(10), 0, 1)];
    let r = AnalyticsEngine::new().calculate(units(10_000), &ts, &[]);
    assert_eq!(r.profit_factor, Ratio::Infinite);
    assert_eq!(r.sharpe_ratio, 0);
    assert_eq!(r.sortino_ratio, Ratio::Finite(0));
}

#[test]
fn rising_curve_has_unbounded_sortino() {
    let pts: Vec<EquityPoint> =
        [100, 110, 130].iter().enumerate().map(|(i, v)| EquityPoint { timestamp: i as i64, value: units(*v) }).collect();
    let r = AnalyticsEngine::new().calculate(units(100), &[trade(units(30), 0, 1)], &pts);
    assert_eq!(r.sortino_ratio, Ratio::Infinite);
    assert_eq!(r.max_drawdown_absolute, 0);
    assert_eq!(r.calmar_ratio, 0);
}

#[test]
fn empty_trades_give_zero_report() {
    let r = AnalyticsEngine::new().calculate(units(10_000), &[], &sample_curve());
    assert_eq!(r.total_trades, 0);
    assert_eq!(r.max_drawdown_absolute, 0);
    assert_eq!(r.profit_factor, Ratio::Finite(0));
}

#[test]
fn confidence_bands() {
    assert_eq!(bucket_for(0), ConfidenceBucket::UpTo59);
    assert_eq!(bucket_for(SCALE * 59 / 100), ConfidenceBucket::UpTo59);
    assert_eq!(bucket_for(SCALE * 6 / 10), ConfidenceBucket::From60To69);
    assert_eq!(bucket_for(SCALE * 79 / 100), ConfidenceBucket::From70To79);
    assert_eq!(bucket_for(SCALE * 8 / 10), ConfidenceBucket::From80To89);
    assert_eq!(bucket_for(SCALE), ConfidenceBucket::From90To100);
    assert_eq!(bucket_for(SCALE * 2), ConfidenceBucket::Other);
    assert_eq!(bucket_for(-5), ConfidenceBucket::UpTo59);
    assert_eq!(ConfidenceBucket::From90To100.label(), "90-100%");
    assert_eq!(ConfidenceBucket::UpTo59.label(), "0-59%");
}

#[test]
fn integer_square_root() {
    assert_eq!(isqrt(0), 0);
    assert_eq!(isqrt(15), 3);
    assert_eq!(isqrt(16), 4);
    assert_eq!(isqrt(10_000_000_000_000_000), 100_000_000);
}

#[test]
fn fixed_point_arithmetic() {
    assert_eq!(fx_mul(units(3), SCALE / 2), Some(150_000_000));
    assert_eq!(fx_mul(-units(3), SCALE / 2), Some(-150_000_000));
    assert_eq!(fx_div(units(1), units(3)), Some(33_333_333));
    assert_eq!(fx_div(units(1), 0), Some(0));
    assert_eq!(fx_mul(1_000_000_000_000_000_000, 1_000_000_000_000_000_000), None);
}

#[test]
fn ema_first_value_then_smoothing() {
    let mut e = Ema::new(2);
    assert_eq!(e.next(units(1)), units(1));
    assert_eq!(e.next(units(2)), 166_666_666);
    let k = Kline { open_time: 0, close_time: 0, open: 1, high: 1, low: 1, close: units(4), volume: 0 };
    let mut f = Ema::new(3);
    assert_eq!(f.feed_closes(&[k, k]), Some(units(4)));
    let mut g = Ema::new(3);
    assert_eq!(g.feed_closes(&[]), None);
}

fn scored(pf: i128, sharpe: i128, dd_pct: i128, calmar: i128, trades: u32) -> PerformanceReport {
    let mut r = PerformanceReport::new();
    r.profit_factor = Ratio::Finite(pf);
    r.sharpe_ratio = sharpe;
    r.max_drawdown_percentage = dd_pct;
    r.calmar_ratio = calmar;
    r.total_trades = trades;
    r
}

#[test]
fn scoring_ranks_b_first() {
    let a = scored(units(3), units(2), units(10), units(2), 50);
    let b = scored(units(5), units(4), units(30), units(3), 40);
    assert_eq!(calculate_score(&a), 20_650_000_000);
    assert_eq!(calculate_score(&b), 35_450_000_000);
    let ranked = analyze_and_rank_results(&[a, b]);
    assert_eq!(ranked.len(), 2);
    assert_eq!(ranked[0].index, 1);
    assert_eq!(ranked[0].score, 35_450_000_000);
    assert_eq!(ranked[1].index, 0);
}

#[test]
fn ranking_caps_filters_and_keeps_ties_in_order() {
    let mut unbounded = scored(0, units(9), 0, 0, 30);
    unbounded.profit_factor = Ratio::Infinite;
    assert_eq!(calculate_score(&unbounded), units(40 * 5 + 30 * 5));
    let reports = [
        scored(units(1), 0, 0, 0, 30),
        scored(units(2), 0, 0, 0, 29),
        scored(units(1), 0, 0, 0, 100),
        scored(units(4), 0, 0, 0, 31),
    ];
    let ranked = analyze_and_rank_results(&reports);
    let order: Vec<usize> = ranked.iter().map(|r| r.index).collect();
    assert_eq!(order, vec![3, 0, 2]);
    for w in ranked.windows(2) {
        assert!(w[0].score >= w[1].score);
    }
}

#[test]
fn drawdown_still_open_at_the_end_counts() {
    let pts: Vec<EquityPoint> = [(0, 10_000), (1000, 9_000), (5000, 8_000)]
        .iter()
        .map(|(t, v)| EquityPoint { timestamp: *t, value: units(*v) })
        .collect();
    let r = AnalyticsEngine::new().calculate(units(10_000), &[trade(units(-2000), 0, 1)], &pts);
    assert_eq!(r.drawdown_duration_secs, 4);
    assert_eq!(r.max_drawdown_absolute, units(2000));
}

#[test]
fn extreme_metrics_are_still_ranked() {
    let huge = scored(units(1), 0, 0, i128::MAX / 2, 40);
    let small = scored(units(1), 0, 0, 0, 40);
    let ranked = analyze_and_rank_results(&[small, huge]);
    assert_eq!(ranked.len(), 2);
    assert_eq!(ranked[0].index, 1);
}
