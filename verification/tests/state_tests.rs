use sentinel::decimal::Dec;
use sentinel::kraken_ws::{apply_ticker_update, ticker_subscription};
use sentinel::state::MarketState;

fn d(text: &str) -> Dec {
    let v: rust_decimal::Decimal = text.parse().unwrap();
    Dec::new(v.mantissa(), v.scale()).unwrap()
}

fn values(state: &MarketState) -> Vec<(i128, u32)> {
    state.price_window().iter().map(|p| (p.mantissa(), p.scale())).collect()
}

#[test]
fn window_keeps_latest_prices() {
    let mut state = MarketState::new("BTC/USD".to_string(), 3);
    assert!(state.latest_price.is_none() && state.prices.is_empty());
    for p in ["1", "2", "3", "4", "5"] {
        state.push_price(d(p), 3);
    }
    assert_eq!(values(&state), vec![(3, 0), (4, 0), (5, 0)]);
    assert_eq!(state.latest_price.map(|p| p.mantissa()), Some(5));
    assert_eq!(state.pair, "BTC/USD");
    state.push_price(d("6"), 1);
    assert_eq!(values(&state), vec![(6, 0)]);
    state.push_price(d("7"), 0);
    assert!(values(&state).is_empty());
    assert_eq!(state.latest_price.map(|p| p.mantissa()), Some(7));
}

fn one(last: &str) -> Option<Vec<Option<String>>> {
    Some(vec![Some(last.to_string())])
}

#[test]
fn ticker_updates_join_the_window() {
    let mut state = MarketState::new("ETH/USD".to_string(), 2);
    assert!(apply_ticker_update(&mut state, Some("ticker".into()), one("3012.55"), 2));
    assert_eq!(values(&state), vec![(301255, 2)]);
    assert!(!apply_ticker_update(&mut state, Some("heartbeat".into()), one("1"), 2));
    assert!(!apply_ticker_update(&mut state, Some("ticker".into()), one("n/a"), 2));
    assert!(!apply_ticker_update(&mut state, None, one("1"), 2));
    assert!(!apply_ticker_update(&mut state, Some("ticker".into()), None, 2));
    assert!(!apply_ticker_update(&mut state, Some("ticker".into()), Some(vec![]), 2));
    assert!(!apply_ticker_update(&mut state, Some("ticker".into()), Some(vec![None]), 2));
    assert_eq!(values(&state), vec![(301255, 2)]);
    assert!(apply_ticker_update(&mut state, Some("ticker".into()), one("1"), 2));
    assert!(apply_ticker_update(&mut state, Some("ticker".into()), one("2"), 2));
    assert_eq!(values(&state), vec![(1, 0), (2, 0)]);
}

#[test]
fn only_the_first_ticker_entry_counts() {
    let mut state = MarketState::new("ETH/USD".to_string(), 3);
    let entries = Some(vec![Some("5".to_string()), Some("9".to_string())]);
    assert!(apply_ticker_update(&mut state, Some("ticker".into()), entries, 3));
    assert_eq!(values(&state), vec![(5, 0)]);
    let entries = Some(vec![None, Some("9".to_string())]);
    assert!(!apply_ticker_update(&mut state, Some("ticker".into()), entries, 3));
    assert_eq!(values(&state), vec![(5, 0)]);
}

#[test]
fn builds_ticker_subscription() {
    assert_eq!(
        ticker_subscription("BTC/USD"),
        r#"{"method":"subscribe","params":{"channel":"ticker","symbol":["BTC/USD"]}}"#
    );
    assert_eq!(
        ticker_subscription("a\"b"),
        r#"{"method":"subscribe","params":{"channel":"ticker","symbol":["a\"b"]}}"#
    );
    assert_eq!(
        ticker_subscription("x\u{1f}\n\\\u{e9}"),
        "{\"method\":\"subscribe\",\"params\":{\"channel\":\"ticker\",\"symbol\":[\"x\\u001f\\n\\\\\u{e9}\"]}}"
    );
}
