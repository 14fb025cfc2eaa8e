use rust_decimal::Decimal;
use sentinel::configuration::Settings;
use sentinel::decimal::Dec;
use sentinel::storage::trade_key;
use sentinel::strategy::{SignalContext, TradeSignal};
use sentinel::trading::{checked_plan_trade, plan_trade, trade_record, OrderSide, TradePlan};

fn d(text: &str) -> Dec {
    let v: rust_decimal::Decimal = text.parse().unwrap();
    Dec::new(v.mantissa(), v.scale()).unwrap()
}

fn value(x: Dec) -> Decimal {
    Decimal::from_i128_with_scale(x.mantissa(), x.scale())
}

fn ctx(price: &str) -> SignalContext {
    SignalContext { current_price: d(price), mean: d("105"), std_dev: d("2.5"), z_score: d("-2") }
}

#[test]
fn plans_a_capped_buy() {
    let settings = Settings::default();
    match plan_trade(TradeSignal::Buy, &ctx("100"), d("10000"), &settings) {
        TradePlan::Execute { side, volume, zones } => {
            assert_eq!(side, OrderSide::Buy);
            assert_eq!(value(volume), "5".parse::<Decimal>().unwrap());
            let zones = zones.unwrap();
            assert_eq!(value(zones.stop_loss), "98".parse::<Decimal>().unwrap());
            assert_eq!(value(zones.take_profit), "104".parse::<Decimal>().unwrap());
        }
        other => panic!("unexpected plan {other:?}"),
    }
}

#[test]
fn plans_a_sell_hold_and_skip() {
    let settings = Settings::default();
    match plan_trade(TradeSignal::Sell, &ctx("50"), d("1000"), &settings) {
        TradePlan::Execute { side, volume, .. } => {
            assert_eq!(side, OrderSide::Sell);
            assert_eq!(value(volume), "1".parse::<Decimal>().unwrap());
        }
        other => panic!("unexpected plan {other:?}"),
    }
    assert!(matches!(plan_trade(TradeSignal::Hold, &ctx("50"), d("1000"), &settings), TradePlan::Hold));
    assert!(matches!(
        plan_trade(TradeSignal::Buy, &ctx("0"), d("1000"), &settings),
        TradePlan::SkipZeroVolume
    ));
    assert!(matches!(
        plan_trade(TradeSignal::Buy, &ctx("100"), d("0"), &settings),
        TradePlan::SkipZeroVolume
    ));
}

#[test]
fn checked_plan_reports_overflow() {
    let settings = Settings::default();
    let max = d("79228162514264337593543950335");
    let mut big = settings.clone();
    big.max_exposure_pct = d("2");
    assert!(checked_plan_trade(TradeSignal::Buy, &ctx("100"), max, &big).is_err());
    assert!(matches!(
        checked_plan_trade(TradeSignal::Buy, &ctx("0"), d("1000"), &settings),
        Ok(TradePlan::SkipZeroVolume)
    ));
}

#[test]
fn records_a_trade() {
    let c = SignalContext {
        current_price: d("90.50"),
        mean: d("99.5"),
        std_dev: d("2.236"),
        z_score: d("-4.025"),
    };
    let r = trade_record(1700000000123, "BTC/USD", OrderSide::Sell, &c);
    assert_eq!(r.timestamp_ms, 1700000000123);
    assert_eq!(r.pair, "BTC/USD");
    assert_eq!(r.side, "sell");
    assert_eq!(r.price, "90.50");
    assert_eq!(r.z_score, "-4.025");
    assert_eq!(r.reason, "z=-4.025 mean=99.5 std=2.236");
    assert_eq!(OrderSide::Buy.as_str(), "buy");
}

#[test]
fn journal_keys() {
    assert_eq!(trade_key(0), "trade:0");
    assert_eq!(trade_key(1700000000123), "trade:1700000000123");
    assert_eq!(trade_key(u128::MAX), format!("trade:{}", u128::MAX));
}

#[test]
fn decimal_text_matches_display() {
    for (m, s) in [(5i128, 3u32), (-5, 3), (0, 0), (0, 2), (950, 1), (-123456789, 0), (1, 28)] {
        let x = Dec::new(m, s).unwrap();
        let c = SignalContext { current_price: x, mean: x, std_dev: x, z_score: x };
        let r = trade_record(0, "BTC/USD", OrderSide::Buy, &c);
        assert_eq!(r.price, Decimal::from_i128_with_scale(m, s).to_string());
    }
    let x = Dec::new(5, 3).unwrap();
    let c = SignalContext { current_price: x, mean: x, std_dev: x, z_score: x };
    assert_eq!(trade_record(0, "X", OrderSide::Buy, &c).price, "0.005");
    assert!(Dec::new(1, 29).is_none());
    assert!(Dec::new(1i128 << 96, 0).is_none());
    assert!(Dec::new((1i128 << 96) - 1, 0).is_some());
}
