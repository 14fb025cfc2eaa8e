//! Settings of the agent, and the rules on trading pairs and strategy names.
use vstd::prelude::*;
use vstd::string::*;
use crate::decimal::Dec;
use crate::strategy::{StrategyKind, strategy_of, unsupported_strategy_message};
use crate::text::{
    trimmed, ascii_upper, trim_bounds, to_ascii_upper, push_char, lemma_trimmed_ends,
    lemma_trimmed_fixed, text_equals,
};

verus! {

/// The agent's settings.
#[derive(Clone, Debug)]
pub struct Settings {
    pub api_key: Option<String>,
    pub api_secret: Option<String>,
    pub rest_base_url: String,
    pub ws_url: String,
    pub trade_pair: Option<String>,
    pub analysis_pairs: Vec<String>,
    pub strategy: String,
    pub window_size: usize,
    pub z_buy_threshold: Dec,
    pub z_sell_threshold: Dec,
    pub max_exposure_pct: Dec,
    pub dry_run: bool,
    pub db_path: String,
    pub risk_amount_usd: Dec,
    pub reward_to_risk: Dec,
}

impl Default for Settings {
    /// Dry run against Kraken's public endpoints, mean reversion over a window
    /// of 20 prices with thresholds -2.0 and 2.0, at most 5% of the balance per
    /// trade, a risk budget of 10 USD and a reward-to-risk ratio of 2.
    fn default() -> (r: Settings)
        ensures
            r.api_key is None,
            r.api_secret is None,
            r.rest_base_url@ == "https://api.kraken.com"@,
            r.ws_url@ == "wss://ws.kraken.com/v2"@,
            r.trade_pair is None,
            r.analysis_pairs@.len() == 2,
            r.analysis_pairs@[0]@ == "SOL/USD"@,
            r.analysis_pairs@[1]@ == "ETH/USD"@,
            r.strategy@ == "mean_reversion"@,
            r.window_size == 20,
            r.z_buy_threshold.spec_mantissa() == -20 && r.z_buy_threshold.spec_scale() == 1,
            r.z_sell_threshold.spec_mantissa() == 20 && r.z_sell_threshold.spec_scale() == 1,
            r.max_exposure_pct.spec_mantissa() == 5 && r.max_exposure_pct.spec_scale() == 2,
            r.dry_run,
            r.db_path@ == "./sentinel_db"@,
            r.risk_amount_usd.spec_mantissa() == 10 && r.risk_amount_usd.spec_scale() == 0,
            r.reward_to_risk.spec_mantissa() == 2 && r.reward_to_risk.spec_scale() == 0,
    {
        let mut analysis_pairs: Vec<String> = Vec::new();
        analysis_pairs.push("SOL/USD".to_owned());
        analysis_pairs.push("ETH/USD".to_owned());
        Settings {
            api_key: None,
            api_secret: None,
            rest_base_url: "https://api.kraken.com".to_owned(),
            ws_url: "wss://ws.kraken.com/v2".to_owned(),
            trade_pair: None,
            analysis_pairs,
            strategy: "mean_reversion".to_owned(),
            window_size: 20,
            z_buy_threshold: Dec::new(-20, 1).unwrap(),
            z_sell_threshold: Dec::new(20, 1).unwrap(),
            max_exposure_pct: Dec::new(5, 2).unwrap(),
            dry_run: true,
            db_path: "./sentinel_db".to_owned(),
            risk_amount_usd: Dec::new(10, 0).unwrap(),
            reward_to_risk: Dec::new(2, 0).unwrap(),
        }
    }
}

/// The pairs the agent analyses.
pub open spec fn supported_pairs() -> Seq<Seq<char>> {
    seq!["UNI/USD"@, "HYPE/USD"@, "XMR/USD"@, "SOL/USD"@, "ETH/USD"@, "BTC/USD"@]
}

/// The pairs the agent analyses, in the order of `supported_pairs`.
pub fn supported_analysis_pairs() -> (r: Vec<&'static str>)
    ensures
        r@.len() == supported_pairs().len(),
        forall|i: int| 0 <= i < r@.len() ==> #[trigger] r@[i]@ == supported_pairs()[i],
{
    let r = vec!["UNI/USD", "HYPE/USD", "XMR/USD", "SOL/USD", "ETH/USD", "BTC/USD"];
    assert(r@[0]@ == supported_pairs()[0]);
    assert(r@[5]@ == supported_pairs()[5]);
    r
}

/// How a pair symbol is normalised, character by character: `-` becomes `/`,
/// ASCII letters become upper case.
pub open spec fn symbol_char(c: char) -> char {
    if c == '-' {
        '/'
    } else {
        ascii_upper(c)
    }
}

/// A pair symbol, trimmed of white space, upper-cased (ASCII) and with `-`
/// written as `/`.
pub open spec fn normalized_symbol(pair: Seq<char>) -> Seq<char> {
    trimmed(pair).map_values(|c: char| symbol_char(c))
}

/// Whether a symbol names one of the analysed pairs once normalised.
pub open spec fn is_supported_symbol(pair: Seq<char>) -> bool {
    supported_pairs().contains(normalized_symbol(pair))
}

/// Parses the configured strategy name (see `StrategyKind::parse`).
pub fn parse_strategy(value: &str) -> (r: Result<StrategyKind, String>)
    ensures
        match strategy_of(value@) {
            Some(k) => r == Ok::<StrategyKind, String>(k),
            None => r matches Err(msg) && msg@ == unsupported_strategy_message(value@),
        },
{
    StrategyKind::parse(value)
}

/// Normalises a pair symbol: `" btc-usd "` becomes `"BTC/USD"`.
pub fn normalize_pair_symbol(pair: &str) -> (r: String)
    ensures
        r@ == normalized_symbol(pair@),
{
    let (start, end) = trim_bounds(pair);
    let mut out = String::new();
    let mut i = start;
    while i < end
        invariant
            start <= i <= end <= pair@.len(),
            pair@.subrange(start as int, end as int) == trimmed(pair@),
            out@ == pair@.subrange(start as int, i as int).map_values(|c: char| symbol_char(c)),
        decreases end - i,
    {
        let c = pair.get_char(i);
        let d = if c == '-' {
            '/'
        } else {
            to_ascii_upper(c)
        };
        push_char(&mut out, d);
        i = i + 1;
        assert(pair@.subrange(start as int, i as int).map_values(|c: char| symbol_char(c))
            =~= pair@.subrange(start as int, (i - 1) as int).map_values(
            |c: char| symbol_char(c),
        ).push(symbol_char(c)));
    }
    out
}

/// Whether the pair, once normalised, is one the agent analyses.
pub fn is_supported_analysis_pair(pair: &str) -> (r: bool)
    ensures
        r == is_supported_symbol(pair@),
{
    let normalized = normalize_pair_symbol(pair);
    let pairs = supported_analysis_pairs();
    let mut i: usize = 0;
    while i < pairs.len()
        invariant
            i <= pairs@.len(),
            pairs@.len() == supported_pairs().len(),
            forall|k: int| 0 <= k < pairs@.len() ==> #[trigger] pairs@[k]@ == supported_pairs()[k],
            normalized@ == normalized_symbol(pair@),
            forall|k: int| 0 <= k < i ==> supported_pairs()[k] != normalized@,
        decreases pairs@.len() - i,
    {
        if text_equals(&normalized, pairs[i]) {
            assert(supported_pairs()[i as int] == normalized@);
            return true;
        }
        i = i + 1;
    }
    false
}

/// Normalising a pair symbol twice gives what normalising it once gives.
pub proof fn lemma_normalize_idempotent(pair: Seq<char>)
    ensures
        normalized_symbol(normalized_symbol(pair)) == normalized_symbol(pair),
{
    let t = trimmed(pair);
    let n = normalized_symbol(pair);
    lemma_trimmed_ends(pair);
    if n.len() > 0 {
        assert(n[0] == symbol_char(t[0]));
        assert(n.last() == symbol_char(t.last()));
    }
    lemma_trimmed_fixed(n);
    assert(normalized_symbol(n) =~= n);
}

/// Whether a pair is supported does not change when it is normalised first.
pub proof fn lemma_supported_after_normalize(pair: Seq<char>)
    ensures
        is_supported_symbol(normalized_symbol(pair)) == is_supported_symbol(pair),
{
    lemma_normalize_idempotent(pair);
}

/// The pair the agent trades before normalisation: the one given on the
/// command line, else the configured one, else `BTC/USD`.
pub open spec fn chosen_pair(cli_pair: Option<Seq<char>>, configured_pair: Option<Seq<char>>) -> Seq<
    char,
> {
    match cli_pair {
        Some(p) => p,
        None => match configured_pair {
            Some(p) => p,
            None => "BTC/USD"@,
        },
    }
}

/// Which pair is chosen: the command-line pair wins over the configured one,
/// and `BTC/USD` is taken only when neither is given.
pub proof fn law_chosen_pair_priority(cli_pair: Option<Seq<char>>, configured_pair: Option<Seq<char>>)
    ensures
        cli_pair matches Some(p) ==> chosen_pair(cli_pair, configured_pair) == p,
        cli_pair is None && configured_pair is Some ==> chosen_pair(cli_pair, configured_pair)
            == configured_pair->0,
        cli_pair is None && configured_pair is None ==> chosen_pair(cli_pair, configured_pair)
            == "BTC/USD"@,
{
}

/// What normalising does to each character of the trimmed symbol: `-` becomes
/// `/`, a lower-case ASCII letter becomes its upper-case letter, and any other
/// character stays; nothing is added or dropped.
pub proof fn law_normalized_symbol_chars(pair: Seq<char>)
    ensures
        normalized_symbol(pair).len() == trimmed(pair).len(),
        forall|i: int|
            0 <= i < trimmed(pair).len() ==> {
                let c = #[trigger] trimmed(pair)[i];
                let d = normalized_symbol(pair)[i];
                &&& c == '-' ==> d == '/'
                &&& 'a' <= c <= 'z' ==> d as u32 == c as u32 - 32
                &&& c != '-' && !('a' <= c <= 'z') ==> d == c
            },
{
}

/// The message for a pair the agent does not analyse.
pub open spec fn unsupported_pair_message(pair: Seq<char>) -> Seq<char> {
    "Unsupported pair '"@ + pair
        + "'. Supported analysis pairs: [\"UNI/USD\", \"HYPE/USD\", \"XMR/USD\", \"SOL/USD\", \"ETH/USD\", \"BTC/USD\"]"@
}

/// The text of an optional string.
pub open spec fn optional_text(s: Option<String>) -> Option<Seq<char>> {
    match s {
        Some(t) => Some(t@),
        None => None,
    }
}

/// The pair to trade: the command-line pair, else the configured one, else
/// `BTC/USD`, normalised; refused with a message when it is not analysed.
pub fn resolve_trade_pair(cli_pair: Option<String>, configured_pair: Option<String>) -> (r: Result<
    String,
    String,
>)
    ensures
        ({
            let pair = normalized_symbol(
                chosen_pair(optional_text(cli_pair), optional_text(configured_pair)),
            );
            &&& supported_pairs().contains(pair) ==> (r matches Ok(p) && p@ == pair)
            &&& !supported_pairs().contains(pair) ==> (r matches Err(msg) && msg@
                == unsupported_pair_message(pair))
        }),
{
    let chosen = match cli_pair {
        Some(p) => p,
        None => match configured_pair {
            Some(p) => p,
            None => "BTC/USD".to_owned(),
        },
    };
    let pair = normalize_pair_symbol(chosen.as_str());
    if is_supported_analysis_pair(pair.as_str()) {
        proof {
            lemma_normalize_idempotent(chosen@);
        }
        Ok(pair)
    } else {
        proof {
            lemma_normalize_idempotent(chosen@);
        }
        let mut msg = "Unsupported pair '".to_owned();
        msg.append(pair.as_str());
        msg.append(
            "'. Supported analysis pairs: [\"UNI/USD\", \"HYPE/USD\", \"XMR/USD\", \"SOL/USD\", \"ETH/USD\", \"BTC/USD\"]",
        );
        Err(msg)
    }
}

} // verus!
