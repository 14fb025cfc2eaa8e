//! The market-data side of Kraken's WebSocket API: the ticker subscription
//! request, and how a ticker update changes the market state.
use vstd::prelude::*;
use crate::decimal::{decimal_parsed, parse};
use crate::state::{MarketState, last_n};
use crate::text::text_equals;

verus! {

/// The lower-case hexadecimal digit of a value `0..16`.
pub open spec fn hex_digit(v: int) -> char {
    if v < 10 {
        (48 + v) as char
    } else {
        (87 + v) as char
    }
}

/// How `serde_json` escapes one character inside a string literal: `"` and
/// `\` with a backslash, backspace, tab, line feed, form feed and carriage
/// return as `\b`, `\t`, `\n`, `\f`, `\r`, the other control characters
/// below `0x20` as `\u00` and two lower-case hex digits, and everything else
/// as it is.
pub open spec fn json_escaped_char(c: char) -> Seq<char> {
    let v = c as int;
    if c == '"' {
        seq!['\\', '"']
    } else if c == '\\' {
        seq!['\\', '\\']
    } else if v == 8 {
        seq!['\\', 'b']
    } else if v == 9 {
        seq!['\\', 't']
    } else if v == 10 {
        seq!['\\', 'n']
    } else if v == 12 {
        seq!['\\', 'f']
    } else if v == 13 {
        seq!['\\', 'r']
    } else if v < 32 {
        seq!['\\', 'u', '0', '0', hex_digit(v / 16), hex_digit(v % 16)]
    } else {
        seq![c]
    }
}

/// The escaped contents of a JSON string literal for a text.
pub open spec fn json_escaped(text: Seq<char>) -> Seq<char>
    decreases text.len(),
{
    if text.len() == 0 {
        Seq::empty()
    } else {
        json_escaped(text.drop_last()) + json_escaped_char(text.last())
    }
}

/// The JSON string literal that `serde_json` writes for a text: the escaped
/// text between double quotes.
pub open spec fn json_string_text(text: Seq<char>) -> Seq<char> {
    seq!['"'] + json_escaped(text) + seq!['"']
}

/// `serde_json::Value::String(..).to_string()`: the contract claims the
/// result is the JSON literal `json_string_text` of the text (serde_json's
/// compact formatter and its escape table).
#[verifier::external_body]
fn json_string(text: &str) -> (r: String)
    ensures
        r@ == json_string_text(text@),
{
    serde_json::Value::String(text.to_string()).to_string()
}

/// The subscription request for the ticker of `pair`, as compact JSON.
pub open spec fn ticker_subscription_text(pair: Seq<char>) -> Seq<char> {
    "{\"method\":\"subscribe\",\"params\":{\"channel\":\"ticker\",\"symbol\":["@
        + json_string_text(pair) + "]}}"@
}

/// The request that subscribes to the ticker of `pair`:
/// `{"method":"subscribe","params":{"channel":"ticker","symbol":[<pair>]}}`.
pub fn ticker_subscription(pair: &str) -> (r: String)
    ensures
        r@ == ticker_subscription_text(pair@),
        r@ == "{\"method\":\"subscribe\",\"params\":{\"channel\":\"ticker\",\"symbol\":[\""@
            + json_escaped(pair@) + "\"]}}"@,
{
    let mut out = "{\"method\":\"subscribe\",\"params\":{\"channel\":\"ticker\",\"symbol\":[".to_owned();
    let literal = json_string(pair);
    out.append(literal.as_str());
    out.append("]}}");
    proof {
        reveal_strlit("{\"method\":\"subscribe\",\"params\":{\"channel\":\"ticker\",\"symbol\":[");
        reveal_strlit("{\"method\":\"subscribe\",\"params\":{\"channel\":\"ticker\",\"symbol\":[\"");
        reveal_strlit("]}}");
        reveal_strlit("\"]}}");
        assert(out@ =~= "{\"method\":\"subscribe\",\"params\":{\"channel\":\"ticker\",\"symbol\":[\""@
            + json_escaped(pair@) + "\"]}}"@);
    }
    out
}

/// The text of an optional string.
pub open spec fn text_of(s: Option<String>) -> Option<Seq<char>> {
    match s {
        Some(t) => Some(t@),
        None => None,
    }
}

/// The last-trade price text of the first data entry of a message, if any.
pub open spec fn first_entry_last(entries: Option<Vec<Option<String>>>) -> Option<Seq<char>> {
    match entries {
        Some(v) => if v@.len() > 0 {
            text_of(v@[0])
        } else {
            None
        },
        None => None,
    }
}

/// The price that a message carries: one on the `ticker` channel whose first
/// entry has a last-trade price that parses as a decimal.
pub open spec fn ticker_price(channel: Option<Seq<char>>, last: Option<Seq<char>>) -> Option<
    crate::decimal::Dec,
> {
    match (channel, last) {
        (Some(c), Some(l)) => if c == "ticker"@ {
            decimal_parsed(l)
        } else {
            None
        },
        _ => None,
    }
}

/// Applies one WebSocket message, given its channel and the last-trade price
/// of each of its data entries: the price of the first entry, on the ticker
/// channel, joins the market state (see `MarketState::push_price`); anything
/// else leaves the state as it was.  Returns whether a price was recorded.
pub fn apply_ticker_update(
    state: &mut MarketState,
    channel: Option<String>,
    entries: Option<Vec<Option<String>>>,
    window_size: usize,
) -> (r: bool)
    ensures
        r == ticker_price(text_of(channel), first_entry_last(entries)) is Some,
        r ==> channel is Some && channel->0@ == "ticker"@ && entries is Some && entries->0@.len() > 0
            && entries->0@[0] is Some && decimal_parsed(entries->0@[0]->0@) is Some
            && final(state).latest_price == decimal_parsed(entries->0@[0]->0@),
        channel is Some && channel->0@ == "ticker"@ && entries is Some && entries->0@.len() > 0
            && entries->0@[0] is Some && decimal_parsed(entries->0@[0]->0@) is Some ==> r,
        !r ==> *final(state) == *old(state),
        match ticker_price(text_of(channel), first_entry_last(entries)) {
            Some(price) => final(state).pair == old(state).pair && final(state).latest_price
                == Some(price) && final(state).prices@ == last_n(
                old(state).prices@.push(price),
                window_size as nat,
            ),
            None => *final(state) == *old(state),
        },
{
    let last: Option<String> = match entries {
        Some(mut v) => if v.len() > 0 {
            v.remove(0)
        } else {
            None
        },
        None => None,
    };
    match (channel, last) {
        (Some(c), Some(l)) => {
            if text_equals(&c, "ticker") {
                match parse(l.as_str()) {
                    Ok(price) => {
                        state.push_price(price, window_size);
                        true
                    },
                    Err(_) => false,
                }
            } else {
                false
            }
        },
        _ => false,
    }
}

} // verus!
