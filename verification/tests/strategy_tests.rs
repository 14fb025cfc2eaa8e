use rust_decimal::prelude::ToPrimitive;
use rust_decimal::Decimal;
use sentinel::decimal::Dec;
use sentinel::strategy::{
    checked_trading_zones, checked_window_moments, checked_z_score_context, compute_trading_zones,
    signal_from_z_score, window_moments, z_score_context, SignalContext, StrategyKind,
    TradeSignal,
};

fn d(text: &str) -> Dec {
    let v: rust_decimal::Decimal = text.parse().unwrap();
    Dec::new(v.mantissa(), v.scale()).unwrap()
}

fn value(x: Dec) -> Decimal {
    Decimal::from_i128_with_scale(x.mantissa(), x.scale())
}

fn dv(text: &str) -> Decimal {
    text.parse::<Decimal>().unwrap()
}

/// The rolling z-score of the latest price: the library's moments, the square
/// root of the variance taken in floating point, then the library's context.
fn calculate_z_score(window: &[Dec], min_window: usize) -> Option<SignalContext> {
    let moments = checked_window_moments(window, min_window).expect("no overflow")?;
    let std_dev_f = value(moments.variance).to_f64()?.sqrt();
    let std_dev = Decimal::from_f64_retain(std_dev_f)?;
    let std_dev = Dec::new(std_dev.mantissa(), std_dev.scale())?;
    let current_price = *window.last()?;
    checked_z_score_context(current_price, moments.mean, std_dev).expect("no overflow")
}

#[test]
fn computes_buy_signal_on_large_negative_deviation() {
    let mut prices = vec![d("100"); 19];
    prices.push(d("90"));
    let ctx = calculate_z_score(&prices, 20).expect("zscore");
    assert_eq!(signal_from_z_score(&ctx, d("-2"), d("2")), TradeSignal::Buy);
}

#[test]
fn returns_none_for_small_window() {
    let prices = vec![d("100"); 5];
    assert!(calculate_z_score(&prices, 20).is_none());
}

#[test]
fn parses_supported_strategy_kinds() {
    assert_eq!(
        "mean_reversion".parse::<StrategyKind>().unwrap(),
        StrategyKind::MeanReversion
    );
    assert_eq!(
        "breakout".parse::<StrategyKind>().unwrap(),
        StrategyKind::Breakout
    );
    assert_eq!(
        "momentum".parse::<StrategyKind>().unwrap(),
        StrategyKind::Momentum
    );
}

#[test]
fn computes_trading_zones_for_buy_signal() {
    let zones =
        compute_trading_zones(TradeSignal::Buy, d("100"), d("10"), d("2"), d("2")).unwrap();
    assert_eq!(value(zones.stop_loss), dv("95"));
    assert_eq!(value(zones.take_profit), dv("110"));
}

#[test]
fn computes_trading_zones_for_sell_signal() {
    let zones =
        compute_trading_zones(TradeSignal::Sell, d("100"), d("10"), d("2"), d("2")).unwrap();
    assert_eq!(value(zones.stop_loss), dv("105"));
    assert_eq!(value(zones.take_profit), dv("90"));
}

#[test]
fn trading_zones_keep_reward_to_risk_ratio() {
    let entry = d("250.5");
    let ratio = d("3");
    let zones = compute_trading_zones(TradeSignal::Buy, entry, d("12"), d("4"), ratio).unwrap();
    let risk = value(entry) - value(zones.stop_loss);
    let reward = value(zones.take_profit) - value(entry);
    assert_eq!(risk, dv("3"));
    assert_eq!(reward, value(ratio) * risk);
    assert!(value(zones.stop_loss) <= value(entry) && value(entry) <= value(zones.take_profit));
}

#[test]
fn no_trading_zones_for_hold_or_non_positive_inputs() {
    assert!(compute_trading_zones(TradeSignal::Hold, d("100"), d("10"), d("2"), d("2")).is_none());
    assert!(compute_trading_zones(TradeSignal::Buy, d("0"), d("10"), d("2"), d("2")).is_none());
    assert!(compute_trading_zones(TradeSignal::Buy, d("100"), d("-1"), d("2"), d("2")).is_none());
    assert!(compute_trading_zones(TradeSignal::Sell, d("100"), d("10"), d("0"), d("2")).is_none());
    assert!(compute_trading_zones(TradeSignal::Sell, d("100"), d("10"), d("2"), d("0")).is_none());
}

#[test]
fn checked_trading_zones_reports_overflow() {
    let max = d("79228162514264337593543950335");
    let tiny = d("0.0000000000000000000000000001");
    assert!(checked_trading_zones(TradeSignal::Buy, d("100"), max, tiny, d("2")).is_err());
    let ok = checked_trading_zones(TradeSignal::Buy, d("100"), d("10"), d("2"), d("2")).unwrap();
    assert_eq!(value(ok.unwrap().stop_loss), dv("95"));
    assert_eq!(
        checked_trading_zones(TradeSignal::Hold, d("100"), max, tiny, d("2")).unwrap().is_none(),
        true
    );
}

#[test]
fn parses_strategy_names_ignoring_space_and_case() {
    assert_eq!(StrategyKind::parse("  Mean-Reversion\t"), Ok(StrategyKind::MeanReversion));
    assert_eq!(StrategyKind::parse("MEANREVERSION"), Ok(StrategyKind::MeanReversion));
    assert_eq!(StrategyKind::parse("\u{3000}Momentum "), Ok(StrategyKind::Momentum));
    assert_eq!(
        StrategyKind::parse(" scalping "),
        Err("unsupported strategy:  scalping ".to_string())
    );
    assert!("mean reversion".parse::<StrategyKind>().is_err());
}

fn ctx_with_z(z: &str) -> SignalContext {
    SignalContext { current_price: d("1"), mean: d("1"), std_dev: d("1"), z_score: d(z) }
}

#[test]
fn signal_follows_thresholds() {
    let (buy, sell) = (d("-2.0"), d("2.0"));
    assert_eq!(signal_from_z_score(&ctx_with_z("-2"), buy, sell), TradeSignal::Buy);
    assert_eq!(signal_from_z_score(&ctx_with_z("-3.5"), buy, sell), TradeSignal::Buy);
    assert_eq!(signal_from_z_score(&ctx_with_z("-1.99"), buy, sell), TradeSignal::Hold);
    assert_eq!(signal_from_z_score(&ctx_with_z("0"), buy, sell), TradeSignal::Hold);
    assert_eq!(signal_from_z_score(&ctx_with_z("2.00"), buy, sell), TradeSignal::Sell);
    assert_eq!(signal_from_z_score(&ctx_with_z("7"), buy, sell), TradeSignal::Sell);
}

#[test]
fn signal_is_monotone_in_z_score() {
    let (buy, sell) = (d("-1"), d("1"));
    let zs = ["-5", "-1", "-0.5", "0", "0.5", "1", "5"];
    for (i, lo) in zs.iter().enumerate() {
        for hi in zs.iter().skip(i) {
            let s_lo = signal_from_z_score(&ctx_with_z(lo), buy, sell);
            let s_hi = signal_from_z_score(&ctx_with_z(hi), buy, sell);
            if s_hi == TradeSignal::Buy {
                assert_eq!(s_lo, TradeSignal::Buy);
            }
            if s_lo == TradeSignal::Sell {
                assert_eq!(s_hi, TradeSignal::Sell);
            }
        }
    }
}

#[test]
fn window_moments_of_small_window() {
    let window = vec![d("1"), d("2"), d("3"), d("4")];
    let m = window_moments(&window, 4).unwrap();
    assert_eq!(value(m.mean), dv("2.5"));
    assert_eq!(value(m.variance), dv("5") / dv("3"));
    assert!(window_moments(&window, 5).is_none());
    assert!(window_moments(&window[..1], 0).is_none());
}

#[test]
fn variance_is_never_negative() {
    let window = vec![d("-7.25"), d("3"), d("0.001"), d("-100"), d("42")];
    let m = window_moments(&window, 2).unwrap();
    assert!(value(m.variance) >= Decimal::ZERO);
    let flat = vec![d("5"); 6];
    assert_eq!(value(window_moments(&flat, 2).unwrap().variance), Decimal::ZERO);
}

#[test]
fn checked_window_moments_reports_overflow() {
    let max = d("79228162514264337593543950335");
    assert!(checked_window_moments(&[max, max, max], 2).is_err());
    assert!(checked_window_moments(&[max, max, max], 4).unwrap().is_none());
}

#[test]
fn z_score_has_sign_of_deviation() {
    let ctx = z_score_context(d("110"), d("100"), d("5")).unwrap();
    assert_eq!(value(ctx.z_score), dv("2"));
    let ctx = z_score_context(d("90"), d("100"), d("4")).unwrap();
    assert_eq!(value(ctx.z_score), dv("-2.5"));
    let ctx = z_score_context(d("100"), d("100"), d("4")).unwrap();
    assert_eq!(value(ctx.z_score), Decimal::ZERO);
    assert!(z_score_context(d("100"), d("90"), d("0.00")).is_none());
}

#[test]
fn buy_and_sell_zones_mirror_around_the_entry() {
    let entry = d("1234.56");
    let buy = compute_trading_zones(TradeSignal::Buy, entry, d("7.5"), d("0.3"), d("2.5")).unwrap();
    let sell =
        compute_trading_zones(TradeSignal::Sell, entry, d("7.5"), d("0.3"), d("2.5")).unwrap();
    assert_eq!(value(buy.stop_loss) + value(sell.stop_loss), dv("2") * value(entry));
    assert_eq!(value(buy.take_profit) + value(sell.take_profit), dv("2") * value(entry));
    assert_eq!(value(buy.stop_loss), dv("1209.56"));
    assert_eq!(value(sell.take_profit), dv("1172.06"));
}

#[test]
fn stop_distance_times_size_is_the_risk_budget() {
    let entry = d("50.25");
    let size = d("0.125");
    let zones = compute_trading_zones(TradeSignal::Sell, entry, d("10"), size, d("2")).unwrap();
    assert_eq!((value(zones.stop_loss) - value(entry)) * value(size), dv("10"));
}

#[test]
fn exact_window_moments_succeed() {
    let m = checked_window_moments(&[d("1"), d("3"), d("5")], 2).unwrap().unwrap();
    assert_eq!(value(m.mean), dv("3"));
    assert_eq!(value(m.variance), dv("4"));
    assert_eq!((m.mean.mantissa(), m.mean.scale()), (3, 0));
    let ctx = checked_z_score_context(d("7"), m.mean, d("2")).unwrap().unwrap();
    assert_eq!(value(ctx.z_score), dv("2"));
}

#[test]
fn an_exact_mean_keeps_at_most_one_extra_digit() {
    let m = checked_window_moments(&[d("0"), d("1")], 2).unwrap().unwrap();
    assert_eq!(value(m.mean), dv("0.5"));
    assert!(m.mean.scale() <= 2);
    assert_eq!(value(m.variance), dv("0.5"));
}
