//! The trade journal's records and their keys.
use vstd::prelude::*;
use crate::decimal::nat_text;
use crate::text::u128_text;

verus! {

/// One executed trade, as the journal stores it.
#[derive(Clone, Debug)]
pub struct TradeRecord {
    pub timestamp_ms: u128,
    pub pair: String,
    pub side: String,
    pub price: String,
    pub z_score: String,
    pub reason: String,
}

/// The journal key of a trade made at `timestamp_ms`.
pub open spec fn trade_key_text(timestamp_ms: u128) -> Seq<char> {
    "trade:"@ + nat_text(timestamp_ms as nat)
}

/// The journal key of a trade made at `timestamp_ms`: `trade:<timestamp_ms>`.
pub fn trade_key(timestamp_ms: u128) -> (r: String)
    ensures
        r@ == trade_key_text(timestamp_ms),
        r@ == "trade:"@ + nat_text(timestamp_ms as nat),
{
    let mut key = "trade:".to_owned();
    let digits = u128_text(timestamp_ms);
    key.append(digits.as_str());
    key
}

} // verus!
