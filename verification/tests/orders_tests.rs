use base64::Engine;
use sentinel::configuration::Settings;
use sentinel::decimal::Dec;
use sentinel::orders::{
    account_balance, kraken_signature, order_credentials, signed_market_order, Credentials,
    OrderError,
};

fn d(text: &str) -> Dec {
    let v: rust_decimal::Decimal = text.parse().unwrap();
    Dec::new(v.mantissa(), v.scale()).unwrap()
}

fn base64_error_text(text: &str) -> String {
    base64::engine::general_purpose::STANDARD.decode(text).unwrap_err().to_string()
}

const SECRET: &str =
    "kQH5HW/8p1uGOVjbgWA7FunAmGO8lsSUXNsu3eow76sz84Q18fWxnyRzBHCd3pd5nE9qa99HAZtuZuj6F1huXg==";

#[test]
fn signs_like_kraken_documents() {
    let sig = kraken_signature(
        "/0/private/AddOrder",
        1616492376594,
        "nonce=1616492376594&ordertype=limit&pair=XBTUSD&price=37500&type=buy&volume=1.25",
        SECRET,
    )
    .unwrap();
    assert_eq!(sig.len(), 88);
    assert_eq!(
        sig,
        "4/dpxb3iT4tp/ZCVEwSnEsLxx0bqyhLpdfOpc6fn7OR8+UClSV5n9E6aSS8MPtnRfp32bAb0nmbRn6H8ndwLUQ=="
    );
}

#[test]
fn refuses_a_secret_that_is_not_base64() {
    let expected = base64_error_text("not base64!");
    assert_eq!(expected, "Invalid symbol 32, offset 3.");
    let err = kraken_signature("/0/private/AddOrder", 1, "nonce=1", "not base64!").unwrap_err();
    assert_eq!(err, OrderError::InvalidSecret(expected.clone()));
    assert_eq!(err.message(), expected);
    assert_eq!(OrderError::InvalidKeyLength.message(), "Invalid Length");
}

#[test]
fn credentials_needed_for_live_orders() {
    let mut settings = Settings::default();
    assert_eq!(order_credentials(&settings).unwrap().is_none(), true);
    settings.dry_run = false;
    assert_eq!(order_credentials(&settings).unwrap_err(), OrderError::MissingApiKey);
    assert_eq!(OrderError::MissingApiKey.message(), "KRAKEN_API_KEY missing");
    settings.api_key = Some("key".to_string());
    assert_eq!(order_credentials(&settings).unwrap_err(), OrderError::MissingApiSecret);
    assert_eq!(OrderError::MissingApiSecret.message(), "KRAKEN_API_SECRET missing");
    settings.api_secret = Some(SECRET.to_string());
    let c = order_credentials(&settings).unwrap().unwrap();
    assert_eq!((c.api_key.as_str(), c.api_secret.as_str()), ("key", SECRET));
}

#[test]
fn builds_a_signed_market_order() {
    let settings = Settings::default();
    let creds = Credentials { api_key: "key".to_string(), api_secret: SECRET.to_string() };
    let order = signed_market_order(&settings, &creds, "BTC/USD", "buy", d("0.0500"), 42).unwrap();
    assert_eq!(order.url, "https://api.kraken.com/0/private/AddOrder");
    assert_eq!(order.api_key, "key");
    assert_eq!(
        order.body,
        "nonce=42&ordertype=market&type=buy&pair=BTC/USD&volume=0.0500"
    );
    assert_eq!(
        order.signature,
        kraken_signature("/0/private/AddOrder", 42, &order.body, SECRET).unwrap()
    );
    let bad = Credentials { api_key: "key".to_string(), api_secret: "%%%".to_string() };
    assert_eq!(
        signed_market_order(&settings, &bad, "BTC/USD", "buy", d("1"), 42).unwrap_err(),
        OrderError::InvalidSecret(base64_error_text("%%%"))
    );
}

#[test]
fn balance_is_fixed() {
    let mut settings = Settings::default();
    let b = account_balance(&settings);
    assert_eq!((b.mantissa(), b.scale()), (10000, 0));
    settings.dry_run = false;
    assert_eq!(account_balance(&settings).mantissa(), 10000);
}
