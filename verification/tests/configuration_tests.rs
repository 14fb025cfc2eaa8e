use sentinel::configuration::{
    is_supported_analysis_pair, normalize_pair_symbol, parse_strategy, resolve_trade_pair,
    supported_analysis_pairs, Settings,
};
use sentinel::strategy::StrategyKind;

#[test]
fn normalizes_pair_symbols() {
    assert_eq!(normalize_pair_symbol(" btc-usd "), "BTC/USD");
    assert_eq!(normalize_pair_symbol("Eth/Usd"), "ETH/USD");
    assert_eq!(normalize_pair_symbol("\u{3000}sol-usd\t\n"), "SOL/USD");
    assert_eq!(normalize_pair_symbol("   "), "");
    assert_eq!(normalize_pair_symbol("x-y-z"), "X/Y/Z");
    assert_eq!(normalize_pair_symbol("é-a"), "é/A");
}

#[test]
fn normalizing_twice_changes_nothing() {
    for pair in [" btc-usd ", "hype-usd", "\tx y-z ", "ÿ-b", ""] {
        let once = normalize_pair_symbol(pair);
        assert_eq!(normalize_pair_symbol(&once), once);
    }
}

#[test]
fn recognizes_supported_pairs() {
    for pair in ["UNI/USD", "hype-usd", " xmr/usd", "Sol-Usd", "ETH/USD", "btc/usd\n"] {
        assert!(is_supported_analysis_pair(pair), "{pair}");
        assert!(is_supported_analysis_pair(&normalize_pair_symbol(pair)));
    }
    for pair in ["DOGE/USD", "BTC/EUR", "BTCUSD", ""] {
        assert!(!is_supported_analysis_pair(pair), "{pair}");
    }
    assert_eq!(
        supported_analysis_pairs(),
        vec!["UNI/USD", "HYPE/USD", "XMR/USD", "SOL/USD", "ETH/USD", "BTC/USD"]
    );
}

#[test]
fn parse_strategy_reports_unknown_names() {
    assert_eq!(parse_strategy("breakout"), Ok(StrategyKind::Breakout));
    assert_eq!(
        parse_strategy("grid"),
        Err("unsupported strategy: grid".to_string())
    );
}

#[test]
fn default_settings() {
    let s = Settings::default();
    assert!(s.api_key.is_none() && s.api_secret.is_none() && s.trade_pair.is_none());
    assert_eq!(s.rest_base_url, "https://api.kraken.com");
    assert_eq!(s.ws_url, "wss://ws.kraken.com/v2");
    assert_eq!(s.analysis_pairs, vec!["SOL/USD".to_string(), "ETH/USD".to_string()]);
    assert_eq!(s.strategy, "mean_reversion");
    assert_eq!(s.window_size, 20);
    assert_eq!((s.z_buy_threshold.mantissa(), s.z_buy_threshold.scale()), (-20, 1));
    assert_eq!((s.z_sell_threshold.mantissa(), s.z_sell_threshold.scale()), (20, 1));
    assert_eq!((s.max_exposure_pct.mantissa(), s.max_exposure_pct.scale()), (5, 2));
    assert!(s.dry_run);
    assert_eq!(s.db_path, "./sentinel_db");
    assert_eq!((s.risk_amount_usd.mantissa(), s.risk_amount_usd.scale()), (10, 0));
    assert_eq!((s.reward_to_risk.mantissa(), s.reward_to_risk.scale()), (2, 0));
}

#[test]
fn resolves_the_trade_pair() {
    assert_eq!(resolve_trade_pair(None, None), Ok("BTC/USD".to_string()));
    assert_eq!(
        resolve_trade_pair(None, Some("eth-usd".to_string())),
        Ok("ETH/USD".to_string())
    );
    assert_eq!(
        resolve_trade_pair(Some(" sol-usd".to_string()), Some("eth-usd".to_string())),
        Ok("SOL/USD".to_string())
    );
    assert_eq!(
        resolve_trade_pair(Some("doge-usd".to_string()), None),
        Err("Unsupported pair 'DOGE/USD'. Supported analysis pairs: [\"UNI/USD\", \"HYPE/USD\", \"XMR/USD\", \"SOL/USD\", \"ETH/USD\", \"BTC/USD\"]".to_string())
    );
    let supported = ["UNI/USD", "HYPE/USD", "XMR/USD", "SOL/USD", "ETH/USD", "BTC/USD"];
    assert_eq!(
        resolve_trade_pair(Some("x".to_string()), None).unwrap_err(),
        format!("Unsupported pair '{}'. Supported analysis pairs: {:?}", "X", supported)
    );
}
