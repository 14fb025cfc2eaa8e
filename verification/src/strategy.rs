//! The mean-reversion strategy: signals, strategy kinds, z-scores and the
//! stop-loss / take-profit zones of a trade.
use vstd::prelude::*;
use vstd::string::*;
use crate::text::{
    trimmed, lowercased, trim_bounds, to_ascii_lower, push_char, ascii_lower, lemma_trimmed_ends,
    lemma_trimmed_fixed, text_equals,
};
use crate::decimal::{
    Dec, DecimalOverflow, checked_add, checked_sub, checked_mul, checked_div, is_le,
    decimal_checked_add, decimal_checked_sub, decimal_checked_mul, decimal_checked_div,
    mantissa_limit, pow10, lemma_quotient_units, lemma_valid, lemma_units_sign, lemma_units_of_value, lemma_le_units,
    lemma_exact_units, lemma_pow10_add, lemma_pow10_positive, within, fits_at, max_scale,
    product_units, quotient_units, divides_units, least_scale, lemma_add_within, lemma_sub_within,
    lemma_mul_within, lemma_div_within,
};

verus! {

/// What the strategy advises for the latest price.
#[derive(Clone, Copy, Debug, PartialEq, Eq, Structural)]
pub enum TradeSignal {
    Buy,
    Sell,
    Hold,
}

/// The strategies a configuration may name.
#[derive(Clone, Copy, Debug, PartialEq, Eq, Structural)]
pub enum StrategyKind {
    MeanReversion,
    Breakout,
    Momentum,
}

/// The strategy that a trimmed, lower-cased name denotes.
pub open spec fn strategy_named(name: Seq<char>) -> Option<StrategyKind> {
    if name == "mean_reversion"@ || name == "mean-reversion"@ || name == "meanreversion"@ {
        Some(StrategyKind::MeanReversion)
    } else if name == "breakout"@ {
        Some(StrategyKind::Breakout)
    } else if name == "momentum"@ {
        Some(StrategyKind::Momentum)
    } else {
        None
    }
}

/// The strategy a configured text selects: its name, trimmed of white space and
/// lower-cased (ASCII letters only).
pub open spec fn strategy_of(text: Seq<char>) -> Option<StrategyKind> {
    strategy_named(lowercased(trimmed(text)))
}

/// The message for a text that names no strategy.
pub open spec fn unsupported_strategy_message(text: Seq<char>) -> Seq<char> {
    "unsupported strategy: "@ + text
}

impl StrategyKind {
    /// Parses a strategy name: surrounding white space and ASCII case are
    /// ignored; `mean_reversion`, `mean-reversion` and `meanreversion` select
    /// mean reversion.  Any other text is refused with a message that quotes it.
    pub fn parse(value: &str) -> (r: Result<StrategyKind, String>)
        ensures
            match strategy_of(value@) {
                Some(k) => r == Ok::<StrategyKind, String>(k),
                None => r matches Err(msg) && msg@ == unsupported_strategy_message(value@),
            },
            (r == Ok::<StrategyKind, String>(StrategyKind::MeanReversion)) == (lowercased(
                trimmed(value@),
            ) == "mean_reversion"@ || lowercased(trimmed(value@)) == "mean-reversion"@
                || lowercased(trimmed(value@)) == "meanreversion"@),
            (r == Ok::<StrategyKind, String>(StrategyKind::Breakout)) == (lowercased(
                trimmed(value@),
            ) == "breakout"@),
            (r == Ok::<StrategyKind, String>(StrategyKind::Momentum)) == (lowercased(
                trimmed(value@),
            ) == "momentum"@),
    {
        proof {
            reveal_strlit("mean_reversion");
            reveal_strlit("mean-reversion");
            reveal_strlit("meanreversion");
            reveal_strlit("breakout");
            reveal_strlit("momentum");
            assert("momentum"@[0] != "breakout"@[0]);
            assert("momentum"@.len() != "mean_reversion"@.len());
            assert("momentum"@.len() != "mean-reversion"@.len());
            assert("momentum"@.len() != "meanreversion"@.len());
            assert("breakout"@.len() != "mean_reversion"@.len());
            assert("breakout"@.len() != "mean-reversion"@.len());
            assert("breakout"@.len() != "meanreversion"@.len());
        }
        let (start, end) = trim_bounds(value);
        let mut lower = String::new();
        let mut i = start;
        while i < end
            invariant
                start <= i <= end <= value@.len(),
                value@.subrange(start as int, end as int) == trimmed(value@),
                lower@ == lowercased(value@.subrange(start as int, i as int)),
            decreases end - i,
        {
            let c = value.get_char(i);
            push_char(&mut lower, to_ascii_lower(c));
            i = i + 1;
            assert(lowercased(value@.subrange(start as int, i as int)) =~= lowercased(
                value@.subrange(start as int, (i - 1) as int),
            ).push(crate::text::ascii_lower(c)));
        }
        if text_equals(&lower, "mean_reversion") || text_equals(&lower, "mean-reversion")
            || text_equals(&lower, "meanreversion") {
            Ok(StrategyKind::MeanReversion)
        } else if text_equals(&lower, "breakout") {
            Ok(StrategyKind::Breakout)
        } else if text_equals(&lower, "momentum") {
            Ok(StrategyKind::Momentum)
        } else {
            let mut msg = "unsupported strategy: ".to_owned();
            msg.append(value);
            Err(msg)
        }
    }
}

impl std::str::FromStr for StrategyKind {
    type Err = String;

    fn from_str(value: &str) -> (r: Result<StrategyKind, String>)
        ensures
            match strategy_of(value@) {
                Some(k) => r == Ok::<StrategyKind, String>(k),
                None => r matches Err(msg) && msg@ == unsupported_strategy_message(value@),
            },
            (r == Ok::<StrategyKind, String>(StrategyKind::MeanReversion)) == (lowercased(
                trimmed(value@),
            ) == "mean_reversion"@ || lowercased(trimmed(value@)) == "mean-reversion"@
                || lowercased(trimmed(value@)) == "meanreversion"@),
            (r == Ok::<StrategyKind, String>(StrategyKind::Breakout)) == (lowercased(
                trimmed(value@),
            ) == "breakout"@),
            (r == Ok::<StrategyKind, String>(StrategyKind::Momentum)) == (lowercased(
                trimmed(value@),
            ) == "momentum"@),
    {
        StrategyKind::parse(value)
    }
}

/// The statistics behind a signal: the latest price, the mean and standard
/// deviation of the window, and the z-score of the latest price.
#[derive(Clone, Copy, Debug)]
pub struct SignalContext {
    pub current_price: Dec,
    pub mean: Dec,
    pub std_dev: Dec,
    pub z_score: Dec,
}

/// Where a position is closed: at a loss, and in profit.
#[derive(Clone, Copy, Debug)]
pub struct TradingZones {
    pub stop_loss: Dec,
    pub take_profit: Dec,
}

/// The mean and sample variance of a window of prices.
#[derive(Clone, Copy, Debug)]
pub struct WindowMoments {
    pub mean: Dec,
    pub variance: Dec,
}

/// Whether the inputs of `compute_trading_zones` call for zones at all: all
/// amounts positive and a signal other than `Hold`.
pub open spec fn zones_wanted(
    signal: TradeSignal,
    entry_price: Dec,
    risk_amount_usd: Dec,
    position_size: Dec,
    reward_to_risk: Dec,
) -> bool {
    &&& entry_price.is_positive()
    &&& risk_amount_usd.is_positive()
    &&& position_size.is_positive()
    &&& reward_to_risk.is_positive()
    &&& signal != TradeSignal::Hold
}

/// What `compute_trading_zones` computes, with `rust_decimal` arithmetic:
/// `None` where an operation overflows (where the arithmetic would panic),
/// otherwise `Some` of the zones, if any.  With `q = risk / size` and
/// `w = q * reward_to_risk`, a buy has stop loss `entry - q` and take profit
/// `entry + w`; a sell has stop loss `entry + q` and take profit `entry - w`.
pub open spec fn trading_zones_outcome(
    signal: TradeSignal,
    entry_price: Dec,
    risk_amount_usd: Dec,
    position_size: Dec,
    reward_to_risk: Dec,
) -> Option<Option<TradingZones>> {
    if !zones_wanted(signal, entry_price, risk_amount_usd, position_size, reward_to_risk) {
        Some(None)
    } else {
        match decimal_checked_div(risk_amount_usd, position_size) {
            None => None,
            Some(risk_per_unit) => match decimal_checked_mul(risk_per_unit, reward_to_risk) {
                None => None,
                Some(reward_per_unit) => {
                    let (stop, take) = if signal == TradeSignal::Buy {
                        (
                            decimal_checked_sub(entry_price, risk_per_unit),
                            decimal_checked_add(entry_price, reward_per_unit),
                        )
                    } else {
                        (
                            decimal_checked_add(entry_price, risk_per_unit),
                            decimal_checked_sub(entry_price, reward_per_unit),
                        )
                    };
                    match (stop, take) {
                        (Some(stop_loss), Some(take_profit)) => Some(
                            Some(TradingZones { stop_loss, take_profit }),
                        ),
                        _ => None,
                    }
                },
            },
        }
    }
}

/// Whether a mantissa fits in 96 bits.
pub open spec fn fits(m: int) -> bool {
    -mantissa_limit() < m < mantissa_limit()
}

/// Whether the arithmetic of the zones is exact: the per-unit reward
/// `q * reward_to_risk` fits at its natural scale, and so do the stop loss and
/// take profit at the scales of their operands (the quotient `q = risk / size`
/// itself may be rounded).
pub open spec fn zones_exact(
    signal: TradeSignal,
    entry_price: Dec,
    risk_amount_usd: Dec,
    position_size: Dec,
    reward_to_risk: Dec,
) -> bool {
    match decimal_checked_div(risk_amount_usd, position_size) {
        Some(q) => match decimal_checked_mul(q, reward_to_risk) {
            Some(w) => {
                &&& Dec::representable(
                    q.spec_mantissa() * reward_to_risk.spec_mantissa(),
                    q.spec_scale() + reward_to_risk.spec_scale(),
                )
                &&& if signal == TradeSignal::Buy {
                    fits(Dec::exact_difference(entry_price, q)) && fits(Dec::exact_sum(entry_price, w))
                } else {
                    fits(Dec::exact_sum(entry_price, q)) && fits(Dec::exact_difference(entry_price, w))
                }
            },
            None => false,
        },
        None => false,
    }
}

/// Where the zones lie: for a buy the stop loss is at or below the entry and
/// the take profit at or above it, for a sell the other way round; and the
/// take profit is `reward_to_risk` times as far from the entry as the stop
/// loss, on the other side (in units of `10^-56`).
pub open spec fn zones_placed(signal: TradeSignal, entry_price: Dec, reward_to_risk: Dec, zones: TradingZones) -> bool {
    &&& signal == TradeSignal::Buy ==> zones.stop_loss.le(entry_price) && entry_price.le(zones.take_profit)
    &&& signal == TradeSignal::Sell ==> entry_price.le(zones.stop_loss) && zones.take_profit.le(entry_price)
    &&& (zones.take_profit.units() - entry_price.units()) * pow10(reward_to_risk.spec_scale())
        == reward_to_risk.spec_mantissa() * (entry_price.units() - zones.stop_loss.units())
}

/// How far the stop loss lies from the entry, against the trade, times the
/// position size equals the risk budget (in units of `10^-56`, scaled by
/// `10^size.scale`).
pub open spec fn zones_match_risk(
    signal: TradeSignal,
    entry_price: Dec,
    risk_amount_usd: Dec,
    position_size: Dec,
    zones: TradingZones,
) -> bool {
    (if signal == TradeSignal::Buy {
        entry_price.units() - zones.stop_loss.units()
    } else {
        zones.stop_loss.units() - entry_price.units()
    }) * position_size.spec_mantissa() == risk_amount_usd.units() * pow10(
        position_size.spec_scale(),
    )
}

/// The inputs on which the arithmetic of the zones is exact and fits, for a
/// position size of `size_units` (in units of `10^-56`): the risk per unit
/// `risk / size` is a whole decimal, and it, the reward per unit, the stop
/// loss and the take profit fit in 96 bits at the scales that `rust_decimal`
/// gives them at most (for a quotient, the larger of the dividend's scale and
/// one more than its least exact scale; the larger scale of a sum or
/// difference; the sum of the scales of a product).
pub open spec fn zones_fit_units(
    signal: TradeSignal,
    entry_price: Dec,
    risk_amount_usd: Dec,
    size_units: int,
    reward_to_risk: Dec,
) -> bool {
    let uq = quotient_units(risk_amount_usd.units(), size_units);
    let sq = max_scale(risk_amount_usd.spec_scale(), least_scale(uq) + 1);
    let uw = product_units(uq, reward_to_risk.units());
    let sw = sq + reward_to_risk.spec_scale();
    let ue = entry_price.units();
    let se = entry_price.spec_scale();
    &&& divides_units(risk_amount_usd.units(), size_units)
    &&& fits_at(uq, least_scale(uq))
    &&& fits_at(uw, sw)
    &&& if signal == TradeSignal::Buy {
        fits_at(ue - uq, max_scale(se, sq)) && fits_at(ue + uw, max_scale(se, sw))
    } else {
        fits_at(ue + uq, max_scale(se, sq)) && fits_at(ue - uw, max_scale(se, sw))
    }
}

/// `zones_fit_units` for a position size given as a decimal.
pub open spec fn zones_fit(
    signal: TradeSignal,
    entry_price: Dec,
    risk_amount_usd: Dec,
    position_size: Dec,
    reward_to_risk: Dec,
) -> bool {
    zones_fit_units(signal, entry_price, risk_amount_usd, position_size.units(), reward_to_risk)
}

/// Where exact arithmetic puts the zones, in units of `10^-56`: with
/// `q = risk / size` and `w = q * reward_to_risk` as `rust_decimal` computes
/// them, the stop loss lies `q` from the entry against the trade and the take
/// profit `w` from it with the trade.
pub open spec fn zones_offsets(
    signal: TradeSignal,
    entry_price: Dec,
    risk_amount_usd: Dec,
    position_size: Dec,
    reward_to_risk: Dec,
    zones: TradingZones,
) -> bool {
    match decimal_checked_div(risk_amount_usd, position_size) {
        Some(q) => match decimal_checked_mul(q, reward_to_risk) {
            Some(w) => if signal == TradeSignal::Buy {
                &&& zones.stop_loss.units() == entry_price.units() - q.units()
                &&& zones.take_profit.units() == entry_price.units() + w.units()
            } else {
                &&& zones.stop_loss.units() == entry_price.units() + q.units()
                &&& zones.take_profit.units() == entry_price.units() - w.units()
            },
            None => false,
        },
        None => false,
    }
}

/// The zones are made from the risk per unit `q = risk / size` and the reward
/// per unit `w = q * reward_to_risk`, both as `rust_decimal` computes them: a
/// buy's stop loss is `entry - q` and its take profit `entry + w`, a sell's
/// stop loss `entry + q` and its take profit `entry - w`; there are no zones
/// for `Hold`.
pub proof fn law_zones_from_risk_per_unit(
    signal: TradeSignal,
    entry_price: Dec,
    risk_amount_usd: Dec,
    position_size: Dec,
    reward_to_risk: Dec,
    z: TradingZones,
)
    requires
        trading_zones_outcome(signal, entry_price, risk_amount_usd, position_size, reward_to_risk)
            == Some(Some(z)),
    ensures
        ({
            let q = decimal_checked_div(risk_amount_usd, position_size);
            let w = decimal_checked_mul(q->0, reward_to_risk);
            &&& signal != TradeSignal::Hold
            &&& q is Some
            &&& w is Some
            &&& signal == TradeSignal::Buy ==> decimal_checked_sub(entry_price, q->0) == Some(
                z.stop_loss,
            ) && decimal_checked_add(entry_price, w->0) == Some(z.take_profit)
            &&& signal == TradeSignal::Sell ==> decimal_checked_add(entry_price, q->0) == Some(
                z.stop_loss,
            ) && decimal_checked_sub(entry_price, w->0) == Some(z.take_profit)
        }),
{
}

/// The buy zones and the sell zones of one entry, budget, size and ratio
/// mirror each other around the entry: their stop losses add up to twice the
/// entry, and so do their take profits.
pub proof fn law_zones_mirror(
    entry_price: Dec,
    risk_amount_usd: Dec,
    position_size: Dec,
    reward_to_risk: Dec,
    buy: TradingZones,
    sell: TradingZones,
)
    requires
        zones_offsets(TradeSignal::Buy, entry_price, risk_amount_usd, position_size, reward_to_risk, buy),
        zones_offsets(TradeSignal::Sell, entry_price, risk_amount_usd, position_size, reward_to_risk, sell),
    ensures
        buy.stop_loss.units() + sell.stop_loss.units() == 2 * entry_price.units(),
        buy.take_profit.units() + sell.take_profit.units() == 2 * entry_price.units(),
{
}

proof fn lemma_reward_units(q: Dec, ratio: Dec, w: Dec)
    requires
        q.valid(),
        ratio.valid(),
        w.valid(),
        w.has_value(q.spec_mantissa() * ratio.spec_mantissa(), q.spec_scale() + ratio.spec_scale()),
    ensures
        w.units() * pow10(ratio.spec_scale()) == ratio.spec_mantissa() * q.units(),
        q.spec_mantissa() >= 0 && ratio.spec_mantissa() >= 0 ==> w.units() >= 0,
{
    let qs = q.spec_scale();
    let rs = ratio.spec_scale();
    let k = (56 - qs - rs) as nat;
    lemma_units_of_value(w, q.spec_mantissa() * ratio.spec_mantissa(), qs + rs);
    assert(((56 - (qs + rs)) as nat) == k);
    lemma_pow10_add(k, rs);
    assert((k + rs) as nat == (56 - qs) as nat);
    lemma_pow10_positive(k);
    let qm = q.spec_mantissa();
    let rm = ratio.spec_mantissa();
    assert(w.units() * pow10(rs) == rm * q.units()) by (nonlinear_arith)
        requires
            w.units() == qm * rm * pow10(k),
            q.units() == qm * pow10((56 - qs) as nat),
            pow10((56 - qs) as nat) == pow10(k) * pow10(rs),
    ;
    if qm >= 0 && rm >= 0 {
        assert(qm * rm * pow10(k) >= 0) by (nonlinear_arith)
            requires
                qm >= 0,
                rm >= 0,
                pow10(k) > 0,
        ;
    }
}

proof fn lemma_zones_placed(
    signal: TradeSignal,
    entry: Dec,
    q: Dec,
    w: Dec,
    ratio: Dec,
    z: TradingZones,
)
    requires
        signal != TradeSignal::Hold,
        entry.valid(),
        q.valid(),
        w.valid(),
        ratio.valid(),
        z.stop_loss.valid(),
        z.take_profit.valid(),
        q.spec_mantissa() >= 0,
        ratio.spec_mantissa() > 0,
        w.units() * pow10(ratio.spec_scale()) == ratio.spec_mantissa() * q.units(),
        w.units() >= 0,
        signal == TradeSignal::Buy ==> z.stop_loss.has_value(
            Dec::exact_difference(entry, q),
            Dec::common_scale(entry, q),
        ) && z.take_profit.has_value(Dec::exact_sum(entry, w), Dec::common_scale(entry, w)),
        signal == TradeSignal::Sell ==> z.stop_loss.has_value(
            Dec::exact_sum(entry, q),
            Dec::common_scale(entry, q),
        ) && z.take_profit.has_value(Dec::exact_difference(entry, w), Dec::common_scale(entry, w)),
    ensures
        zones_placed(signal, entry, ratio, z),
        signal == TradeSignal::Buy ==> z.stop_loss.units() == entry.units() - q.units()
            && z.take_profit.units() == entry.units() + w.units(),
        signal == TradeSignal::Sell ==> z.stop_loss.units() == entry.units() + q.units()
            && z.take_profit.units() == entry.units() - w.units(),
{
    lemma_exact_units(entry, q);
    lemma_exact_units(entry, w);
    lemma_units_sign(q);
    let s1 = Dec::common_scale(entry, q);
    let s2 = Dec::common_scale(entry, w);
    if signal == TradeSignal::Buy {
        lemma_units_of_value(z.stop_loss, Dec::exact_difference(entry, q), s1);
        lemma_units_of_value(z.take_profit, Dec::exact_sum(entry, w), s2);
        assert(z.stop_loss.units() == entry.units() - q.units());
        assert(z.take_profit.units() == entry.units() + w.units());
        assert((z.take_profit.units() - entry.units()) * pow10(ratio.spec_scale())
            == ratio.spec_mantissa() * (entry.units() - z.stop_loss.units()));
    } else {
        lemma_units_of_value(z.stop_loss, Dec::exact_sum(entry, q), s1);
        lemma_units_of_value(z.take_profit, Dec::exact_difference(entry, w), s2);
        assert(z.stop_loss.units() == entry.units() + q.units());
        assert(z.take_profit.units() == entry.units() - w.units());
        let p = pow10(ratio.spec_scale());
        let rm = ratio.spec_mantissa();
        assert((z.take_profit.units() - entry.units()) * p == rm * (entry.units()
            - z.stop_loss.units())) by (nonlinear_arith)
            requires
                z.take_profit.units() - entry.units() == -w.units(),
                entry.units() - z.stop_loss.units() == -q.units(),
                w.units() * p == rm * q.units(),
        ;
    }
    lemma_le_units(z.stop_loss, entry);
    lemma_le_units(entry, z.take_profit);
    lemma_le_units(entry, z.stop_loss);
    lemma_le_units(z.take_profit, entry);
}

/// Stop loss and take profit for a trade: the stop loss lies `risk / size`
/// away from the entry price, against the trade, and the take profit
/// `reward_to_risk` times that distance away, with the trade.  No zones for a
/// `Hold` or a non-positive amount.  (Inputs on which the decimal arithmetic
/// overflows are left out: see `checked_trading_zones`.)
pub fn compute_trading_zones(
    signal: TradeSignal,
    entry_price: Dec,
    risk_amount_usd: Dec,
    position_size: Dec,
    reward_to_risk: Dec,
) -> (r: Option<TradingZones>)
    requires
        trading_zones_outcome(signal, entry_price, risk_amount_usd, position_size, reward_to_risk)
            is Some,
    ensures
        Some(r) == trading_zones_outcome(
            signal,
            entry_price,
            risk_amount_usd,
            position_size,
            reward_to_risk,
        ),
        r is None <==> !zones_wanted(
            signal,
            entry_price,
            risk_amount_usd,
            position_size,
            reward_to_risk,
        ),
        r is None <==> (signal == TradeSignal::Hold || !entry_price.is_positive()
            || !risk_amount_usd.is_positive() || !position_size.is_positive()
            || !reward_to_risk.is_positive()),
        r matches Some(z) ==> zones_exact(
            signal,
            entry_price,
            risk_amount_usd,
            position_size,
            reward_to_risk,
        ) ==> zones_placed(signal, entry_price, reward_to_risk, z),
        r matches Some(z) ==> zones_exact(
            signal,
            entry_price,
            risk_amount_usd,
            position_size,
            reward_to_risk,
        ) && Dec::quotient_representable(risk_amount_usd, position_size) ==> zones_match_risk(
            signal,
            entry_price,
            risk_amount_usd,
            position_size,
            z,
        ),
        r matches Some(z) ==> zones_exact(
            signal,
            entry_price,
            risk_amount_usd,
            position_size,
            reward_to_risk,
        ) ==> zones_offsets(signal, entry_price, risk_amount_usd, position_size, reward_to_risk, z),
        r matches Some(z) ==> ({
            let q = decimal_checked_div(risk_amount_usd, position_size);
            let w = decimal_checked_mul(q->0, reward_to_risk);
            &&& signal != TradeSignal::Hold
            &&& q is Some
            &&& w is Some
            &&& signal == TradeSignal::Buy ==> decimal_checked_sub(entry_price, q->0) == Some(
                z.stop_loss,
            ) && decimal_checked_add(entry_price, w->0) == Some(z.take_profit)
            &&& signal == TradeSignal::Sell ==> decimal_checked_add(entry_price, q->0) == Some(
                z.stop_loss,
            ) && decimal_checked_sub(entry_price, w->0) == Some(z.take_profit)
        }),
{
    let zero = Dec::zero();
    if is_le(entry_price, zero) || is_le(risk_amount_usd, zero) || is_le(position_size, zero) || is_le(
        reward_to_risk,
        zero,
    ) || signal == TradeSignal::Hold {
        return None;
    }
    let risk_per_unit = checked_div(risk_amount_usd, position_size).unwrap();
    let reward_per_unit = checked_mul(risk_per_unit, reward_to_risk).unwrap();
    proof {
        use_type_invariant(&entry_price);
        use_type_invariant(&risk_amount_usd);
        use_type_invariant(&position_size);
        use_type_invariant(&reward_to_risk);
        use_type_invariant(&risk_per_unit);
        use_type_invariant(&reward_per_unit);
        lemma_valid(entry_price);
        lemma_valid(risk_amount_usd);
        lemma_valid(position_size);
        lemma_valid(reward_to_risk);
        lemma_valid(risk_per_unit);
        lemma_valid(reward_per_unit);
        assert(risk_amount_usd.spec_mantissa() * position_size.spec_mantissa() >= 0) by (
        nonlinear_arith)
            requires
                risk_amount_usd.spec_mantissa() > 0,
                position_size.spec_mantissa() > 0,
        ;
        lemma_units_sign(entry_price);
        lemma_units_sign(risk_per_unit);
        lemma_units_sign(reward_per_unit);
        if zones_exact(signal, entry_price, risk_amount_usd, position_size, reward_to_risk) {
            lemma_reward_units(risk_per_unit, reward_to_risk, reward_per_unit);
        }
        if Dec::quotient_representable(risk_amount_usd, position_size) {
            let (m, sc) = choose|m: int, sc: nat|
                #![trigger Dec::is_quotient(risk_amount_usd, position_size, m, sc)]
                Dec::representable(m, sc) && Dec::is_quotient(
                    risk_amount_usd,
                    position_size,
                    m,
                    sc,
                );
            lemma_quotient_units(risk_amount_usd, position_size, risk_per_unit, m, sc);
        }
    }
    match signal {
        TradeSignal::Buy => {
            let stop_loss = checked_sub(entry_price, risk_per_unit).unwrap();
            let take_profit = checked_add(entry_price, reward_per_unit).unwrap();
            proof {
                use_type_invariant(&stop_loss);
                use_type_invariant(&take_profit);
                lemma_valid(stop_loss);
                lemma_valid(take_profit);
                if zones_exact(signal, entry_price, risk_amount_usd, position_size, reward_to_risk) {
                    lemma_zones_placed(
                        signal,
                        entry_price,
                        risk_per_unit,
                        reward_per_unit,
                        reward_to_risk,
                        TradingZones { stop_loss, take_profit },
                    );
                }
            }
            Some(TradingZones { stop_loss, take_profit })
        },
        TradeSignal::Sell => {
            let stop_loss = checked_add(entry_price, risk_per_unit).unwrap();
            let take_profit = checked_sub(entry_price, reward_per_unit).unwrap();
            proof {
                use_type_invariant(&stop_loss);
                use_type_invariant(&take_profit);
                lemma_valid(stop_loss);
                lemma_valid(take_profit);
                if zones_exact(signal, entry_price, risk_amount_usd, position_size, reward_to_risk) {
                    lemma_zones_placed(
                        signal,
                        entry_price,
                        risk_per_unit,
                        reward_per_unit,
                        reward_to_risk,
                        TradingZones { stop_loss, take_profit },
                    );
                }
            }
            Some(TradingZones { stop_loss, take_profit })
        },
        TradeSignal::Hold => None,
    }
}

/// `compute_trading_zones` for every input: `Err` exactly where its decimal
/// arithmetic overflows.
pub fn checked_trading_zones(
    signal: TradeSignal,
    entry_price: Dec,
    risk_amount_usd: Dec,
    position_size: Dec,
    reward_to_risk: Dec,
) -> (r: Result<Option<TradingZones>, DecimalOverflow>)
    ensures
        match trading_zones_outcome(
            signal,
            entry_price,
            risk_amount_usd,
            position_size,
            reward_to_risk,
        ) {
            Some(z) => r == Ok::<Option<TradingZones>, DecimalOverflow>(z),
            None => r is Err,
        },
        r matches Ok(Some(z)) ==> zones_exact(
            signal,
            entry_price,
            risk_amount_usd,
            position_size,
            reward_to_risk,
        ) ==> zones_placed(signal, entry_price, reward_to_risk, z),
        r matches Ok(Some(z)) ==> zones_exact(
            signal,
            entry_price,
            risk_amount_usd,
            position_size,
            reward_to_risk,
        ) && Dec::quotient_representable(risk_amount_usd, position_size) ==> zones_match_risk(
            signal,
            entry_price,
            risk_amount_usd,
            position_size,
            z,
        ),
        r matches Ok(Some(z)) ==> zones_exact(
            signal,
            entry_price,
            risk_amount_usd,
            position_size,
            reward_to_risk,
        ) ==> zones_offsets(signal, entry_price, risk_amount_usd, position_size, reward_to_risk, z),
        zones_wanted(signal, entry_price, risk_amount_usd, position_size, reward_to_risk) && zones_fit(
            signal,
            entry_price,
            risk_amount_usd,
            position_size,
            reward_to_risk,
        ) ==> r matches Ok(Some(_)),
        r matches Ok(None) <==> (signal == TradeSignal::Hold || !entry_price.is_positive()
            || !risk_amount_usd.is_positive() || !position_size.is_positive()
            || !reward_to_risk.is_positive()),
        r matches Ok(Some(z)) ==> ({
            let q = decimal_checked_div(risk_amount_usd, position_size);
            let w = decimal_checked_mul(q->0, reward_to_risk);
            &&& signal != TradeSignal::Hold
            &&& q is Some
            &&& w is Some
            &&& signal == TradeSignal::Buy ==> decimal_checked_sub(entry_price, q->0) == Some(
                z.stop_loss,
            ) && decimal_checked_add(entry_price, w->0) == Some(z.take_profit)
            &&& signal == TradeSignal::Sell ==> decimal_checked_add(entry_price, q->0) == Some(
                z.stop_loss,
            ) && decimal_checked_sub(entry_price, w->0) == Some(z.take_profit)
        }),
{
    let zero = Dec::zero();
    if !(is_le(entry_price, zero) || is_le(risk_amount_usd, zero) || is_le(position_size, zero) || is_le(
        reward_to_risk,
        zero,
    ) || signal == TradeSignal::Hold) {
        proof {
            use_type_invariant(&entry_price);
            use_type_invariant(&risk_amount_usd);
            use_type_invariant(&position_size);
            use_type_invariant(&reward_to_risk);
            lemma_valid(entry_price);
            lemma_valid(risk_amount_usd);
            lemma_valid(position_size);
            lemma_valid(reward_to_risk);
        }
        let ghost fit = zones_fit(
            signal,
            entry_price,
            risk_amount_usd,
            position_size,
            reward_to_risk,
        );
        let ghost ur = risk_amount_usd.units();
        let ghost uz = position_size.units();
        let ghost uk = reward_to_risk.units();
        let ghost ue = entry_price.units();
        let ghost uq = quotient_units(ur, uz);
        let ghost sq = max_scale(risk_amount_usd.spec_scale(), least_scale(uq) + 1);
        let ghost uw = product_units(uq, uk);
        let ghost sw = sq + reward_to_risk.spec_scale();
        let ghost se = entry_price.spec_scale();
        let qo = checked_div(risk_amount_usd, position_size);
        let risk_per_unit = match qo {
            Some(q) => q,
            None => {
                proof {
                    if fit {
                        lemma_div_within(
                            risk_amount_usd,
                            position_size,
                            qo,
                            ur,
                            risk_amount_usd.spec_scale(),
                            uz,
                            position_size.spec_scale(),
                            least_scale(uq),
                        );
                    }
                }
                return Err(DecimalOverflow);
            },
        };
        proof {
            use_type_invariant(&risk_per_unit);
            lemma_valid(risk_per_unit);
            if fit {
                lemma_div_within(
                    risk_amount_usd,
                    position_size,
                    qo,
                    ur,
                    risk_amount_usd.spec_scale(),
                    uz,
                    position_size.spec_scale(),
                    least_scale(uq),
                );
            }
        }
        let wo = checked_mul(risk_per_unit, reward_to_risk);
        let reward_per_unit = match wo {
            Some(w) => w,
            None => {
                proof {
                    if fit {
                        lemma_mul_within(risk_per_unit, reward_to_risk, wo, uq, sq, uk, reward_to_risk.spec_scale());
                    }
                }
                return Err(DecimalOverflow);
            },
        };
        proof {
            use_type_invariant(&reward_per_unit);
            lemma_valid(reward_per_unit);
            if fit {
                lemma_mul_within(risk_per_unit, reward_to_risk, wo, uq, sq, uk, reward_to_risk.spec_scale());
            }
        }
        let (stop, take) = if signal == TradeSignal::Buy {
            (checked_sub(entry_price, risk_per_unit), checked_add(entry_price, reward_per_unit))
        } else {
            (checked_add(entry_price, risk_per_unit), checked_sub(entry_price, reward_per_unit))
        };
        if stop.is_none() || take.is_none() {
            proof {
                if fit {
                    if signal == TradeSignal::Buy {
                        if stop is None {
                            lemma_sub_within(entry_price, risk_per_unit, stop, ue, se, uq, sq);
                        } else {
                            lemma_add_within(entry_price, reward_per_unit, take, ue, se, uw, sw);
                        }
                    } else {
                        if stop is None {
                            lemma_add_within(entry_price, risk_per_unit, stop, ue, se, uq, sq);
                        } else {
                            lemma_sub_within(entry_price, reward_per_unit, take, ue, se, uw, sw);
                        }
                    }
                }
            }
            return Err(DecimalOverflow);
        }
    }
    Ok(compute_trading_zones(signal, entry_price, risk_amount_usd, position_size, reward_to_risk))
}

/// The signal for a z-score: `Buy` at or below the buy threshold, otherwise
/// `Sell` at or above the sell threshold, otherwise `Hold`.
pub open spec fn signal_for(z_score: Dec, buy_threshold: Dec, sell_threshold: Dec) -> TradeSignal {
    if z_score.le(buy_threshold) {
        TradeSignal::Buy
    } else if sell_threshold.le(z_score) {
        TradeSignal::Sell
    } else {
        TradeSignal::Hold
    }
}

/// The signal for the z-score of a context (see `signal_for`): `Buy` at or
/// below the buy threshold; above it, `Sell` at or above the sell threshold
/// and `Hold` below it.
pub fn signal_from_z_score(ctx: &SignalContext, buy_threshold: Dec, sell_threshold: Dec) -> (r:
    TradeSignal)
    ensures
        r == signal_for(ctx.z_score, buy_threshold, sell_threshold),
        (r == TradeSignal::Buy) == ctx.z_score.le(buy_threshold),
        (r == TradeSignal::Sell) == (!ctx.z_score.le(buy_threshold) && sell_threshold.le(
            ctx.z_score,
        )),
        (r == TradeSignal::Hold) == (!ctx.z_score.le(buy_threshold) && !sell_threshold.le(
            ctx.z_score,
        )),
{
    if is_le(ctx.z_score, buy_threshold) {
        TradeSignal::Buy
    } else if is_le(sell_threshold, ctx.z_score) {
        TradeSignal::Sell
    } else {
        TradeSignal::Hold
    }
}

/// The sum of decimals, added one after another from zero with `rust_decimal`
/// (as `Iterator::sum` does); `None` where an addition overflows.
pub open spec fn decimal_sum(values: Seq<Dec>) -> Option<Dec>
    decreases values.len(),
{
    if values.len() == 0 {
        Some(Dec::spec_zero())
    } else {
        match decimal_sum(values.drop_last()) {
            Some(acc) => decimal_checked_add(acc, values.last()),
            None => None,
        }
    }
}

/// The exact sum of the values, in units of `10^-56`.
pub open spec fn units_sum(values: Seq<Dec>) -> int
    decreases values.len(),
{
    if values.len() == 0 {
        0
    } else {
        units_sum(values.drop_last()) + values.last().units()
    }
}

/// The largest scale among the values (0 for none).
pub open spec fn scale_bound(values: Seq<Dec>) -> nat
    decreases values.len(),
{
    if values.len() == 0 {
        0
    } else {
        max_scale(scale_bound(values.drop_last()), values.last().spec_scale())
    }
}

/// Whether each running sum of the values fits at the largest scale so far.
pub open spec fn sums_fit(values: Seq<Dec>) -> bool
    decreases values.len(),
{
    if values.len() == 0 {
        true
    } else {
        sums_fit(values.drop_last()) && fits_at(units_sum(values), scale_bound(values))
    }
}

/// The scale that exact arithmetic gives the deviation of `v` from a mean
/// whose scale is at most `mean_scale`.
pub open spec fn deviation_scale(v: Dec, mean_scale: nat) -> nat {
    max_scale(v.spec_scale(), mean_scale)
}

/// The exact square of the deviation of `v` from the mean `mean_units`, in
/// units.
pub open spec fn square_units(v: Dec, mean_units: int) -> int {
    product_units(v.units() - mean_units, v.units() - mean_units)
}

/// The exact sum of the squared deviations, in units.
pub open spec fn squares_units(values: Seq<Dec>, mean_units: int) -> int
    decreases values.len(),
{
    if values.len() == 0 {
        0
    } else {
        squares_units(values.drop_last(), mean_units) + square_units(values.last(), mean_units)
    }
}

/// The scale that exact arithmetic gives the sum of the squared deviations.
pub open spec fn squares_scale(values: Seq<Dec>, mean_scale: nat) -> nat
    decreases values.len(),
{
    if values.len() == 0 {
        0
    } else {
        max_scale(
            squares_scale(values.drop_last(), mean_scale),
            2 * deviation_scale(values.last(), mean_scale),
        )
    }
}

/// Whether each deviation, each square and each running sum of squares fits
/// at the scale exact arithmetic gives it.
pub open spec fn squares_fit(values: Seq<Dec>, mean_units: int, mean_scale: nat) -> bool
    decreases values.len(),
{
    if values.len() == 0 {
        true
    } else {
        let v = values.last();
        let sd = deviation_scale(v, mean_scale);
        &&& squares_fit(values.drop_last(), mean_units, mean_scale)
        &&& fits_at(v.units() - mean_units, sd)
        &&& fits_at(square_units(v, mean_units), sd + sd)
        &&& fits_at(squares_units(values, mean_units), squares_scale(values, mean_scale))
    }
}

/// The exact mean of a window, in units.
pub open spec fn mean_units(window: Seq<Dec>) -> int {
    quotient_units(units_sum(window), window.len() * pow10(56))
}

/// The largest scale `rust_decimal` gives the mean where it is exact.
pub open spec fn mean_scale(window: Seq<Dec>) -> nat {
    max_scale(scale_bound(window), least_scale(mean_units(window)) + 1)
}

/// The windows on which the arithmetic of the moments is exact and fits: the
/// running sums fit, the mean and the variance are whole decimals that fit,
/// and so does every deviation, square and running sum of squares, each at
/// the scale exact decimal arithmetic gives it.
pub open spec fn window_fit(window: Seq<Dec>) -> bool {
    let n = window.len();
    let um = mean_units(window);
    let sq = squares_units(window, um);
    let uv = quotient_units(sq, (n - 1) * pow10(56));
    &&& sums_fit(window)
    &&& divides_units(units_sum(window), n * pow10(56))
    &&& fits_at(um, least_scale(um))
    &&& squares_fit(window, um, mean_scale(window))
    &&& divides_units(sq, (n - 1) * pow10(56))
    &&& fits_at(uv, least_scale(uv))
}

proof fn lemma_sums_fit_prefix(values: Seq<Dec>, k: nat)
    requires
        k <= values.len(),
        sums_fit(values),
    ensures
        sums_fit(values.subrange(0, k as int)),
    decreases values.len(),
{
    if k == values.len() {
        assert(values.subrange(0, k as int) =~= values);
    } else {
        assert(values.drop_last().subrange(0, k as int) =~= values.subrange(0, k as int));
        lemma_sums_fit_prefix(values.drop_last(), k);
    }
}

proof fn lemma_squares_fit_prefix(values: Seq<Dec>, um: int, sm: nat, k: nat)
    requires
        k <= values.len(),
        squares_fit(values, um, sm),
    ensures
        squares_fit(values.subrange(0, k as int), um, sm),
    decreases values.len(),
{
    if k == values.len() {
        assert(values.subrange(0, k as int) =~= values);
    } else {
        assert(values.drop_last().subrange(0, k as int) =~= values.subrange(0, k as int));
        lemma_squares_fit_prefix(values.drop_last(), um, sm, k);
    }
}

/// `(v - mean) * (v - mean)` with `rust_decimal`; `None` on overflow.
pub open spec fn squared_deviation(v: Dec, mean: Dec) -> Option<Dec> {
    match decimal_checked_sub(v, mean) {
        Some(d) => decimal_checked_mul(d, d),
        None => None,
    }
}

/// The sum of the squared deviations from `mean`, added one after another
/// from zero; `None` where an operation overflows.
pub open spec fn squared_deviation_sum(values: Seq<Dec>, mean: Dec) -> Option<Dec>
    decreases values.len(),
{
    if values.len() == 0 {
        Some(Dec::spec_zero())
    } else {
        match (squared_deviation_sum(values.drop_last(), mean), squared_deviation(values.last(), mean)) {
            (Some(acc), Some(x)) => decimal_checked_add(acc, x),
            _ => None,
        }
    }
}

/// What `window_moments` computes: no moments for a window shorter than
/// `min_window` or than 2; otherwise the mean `sum / n` and the sample
/// variance `sum((v - mean)^2) / (n - 1)`.  `None` where an operation overflows.
pub open spec fn window_moments_outcome(window: Seq<Dec>, min_window: nat) -> Option<
    Option<WindowMoments>,
> {
    if window.len() < min_window || window.len() < 2 {
        Some(None)
    } else {
        match decimal_sum(window) {
            None => None,
            Some(sum) => match decimal_checked_div(sum, Dec::spec_whole(window.len())) {
                None => None,
                Some(mean) => match squared_deviation_sum(window, mean) {
                    None => None,
                    Some(sq) => match decimal_checked_div(
                        sq,
                        Dec::spec_whole((window.len() - 1) as nat),
                    ) {
                        None => None,
                        Some(variance) => Some(Some(WindowMoments { mean, variance })),
                    },
                },
            },
        }
    }
}

/// The sum of a window, with `Err` where an addition overflows.
fn sum_window(window: &[Dec]) -> (r: Result<Dec, DecimalOverflow>)
    ensures
        match decimal_sum(window@) {
            Some(s) => r == Ok::<Dec, DecimalOverflow>(s),
            None => r is Err,
        },
        sums_fit(window@) ==> (r matches Ok(s) && within(s, units_sum(window@), scale_bound(window@))),
{
    let mut acc = Dec::zero();
    let mut i: usize = 0;
    assert(window@.subrange(0, 0) =~= Seq::<Dec>::empty());
    proof {
        lemma_pow10_positive(56);
        assert(acc.units() == 0);
    }
    while i < window.len()
        invariant
            i <= window@.len(),
            decimal_sum(window@.subrange(0, i as int)) == Some(acc),
            sums_fit(window@) ==> within(
                acc,
                units_sum(window@.subrange(0, i as int)),
                scale_bound(window@.subrange(0, i as int)),
            ),
        decreases window@.len() - i,
    {
        let ghost prefix = window@.subrange(0, (i + 1) as int);
        assert(prefix.drop_last() =~= window@.subrange(0, i as int));
        let v = window[i];
        let next = checked_add(acc, v);
        proof {
            use_type_invariant(&acc);
            use_type_invariant(&v);
            lemma_valid(acc);
            lemma_valid(v);
            if sums_fit(window@) {
                lemma_sums_fit_prefix(window@, (i + 1) as nat);
            }
        }
        match next {
            Some(n) => {
                proof {
                    use_type_invariant(&n);
                    lemma_valid(n);
                    if sums_fit(window@) {
                        lemma_add_within(
                            acc,
                            v,
                            next,
                            units_sum(window@.subrange(0, i as int)),
                            scale_bound(window@.subrange(0, i as int)),
                            v.units(),
                            v.spec_scale(),
                        );
                    }
                }
                acc = n;
            },
            None => {
                proof {
                    if sums_fit(window@) {
                        lemma_add_within(
                            acc,
                            v,
                            next,
                            units_sum(window@.subrange(0, i as int)),
                            scale_bound(window@.subrange(0, i as int)),
                            v.units(),
                            v.spec_scale(),
                        );
                    }
                    lemma_sum_none_extends(window@, (i + 1) as nat);
                }
                return Err(DecimalOverflow);
            },
        }
        i = i + 1;
    }
    assert(window@.subrange(0, window@.len() as int) =~= window@);
    Ok(acc)
}

proof fn lemma_sum_none_extends(values: Seq<Dec>, k: nat)
    requires
        k <= values.len(),
        decimal_sum(values.subrange(0, k as int)) is None,
    ensures
        decimal_sum(values) is None,
    decreases values.len() - k,
{
    if k < values.len() {
        let next = values.subrange(0, k + 1 as int);
        assert(next.drop_last() =~= values.subrange(0, k as int));
        lemma_sum_none_extends(values, k + 1);
    } else {
        assert(values.subrange(0, k as int) =~= values);
    }
}

proof fn lemma_squares_none_extends(values: Seq<Dec>, mean: Dec, k: nat)
    requires
        k <= values.len(),
        squared_deviation_sum(values.subrange(0, k as int), mean) is None,
    ensures
        squared_deviation_sum(values, mean) is None,
    decreases values.len() - k,
{
    if k < values.len() {
        let next = values.subrange(0, k + 1 as int);
        assert(next.drop_last() =~= values.subrange(0, k as int));
        lemma_squares_none_extends(values, mean, k + 1);
    } else {
        assert(values.subrange(0, k as int) =~= values);
    }
}

/// The sum of squared deviations of a window from `mean`, with `Err` where an
/// operation overflows.  A mean within `(um, sm)` on which `squares_fit`
/// holds gives the exact sum.
fn sum_squared_deviations(
    window: &[Dec],
    mean: Dec,
    Ghost(um): Ghost<int>,
    Ghost(sm): Ghost<nat>,
) -> (r: Result<Dec, DecimalOverflow>)
    ensures
        match squared_deviation_sum(window@, mean) {
            Some(s) => r == Ok::<Dec, DecimalOverflow>(s),
            None => r is Err,
        },
        r matches Ok(s) ==> s.spec_mantissa() >= 0,
        squares_fit(window@, um, sm) && within(mean, um, sm) ==> (r matches Ok(s) && within(
            s,
            squares_units(window@, um),
            squares_scale(window@, sm),
        )),
{
    let ghost fit = squares_fit(window@, um, sm) && within(mean, um, sm);
    let mut acc = Dec::zero();
    let mut i: usize = 0;
    assert(window@.subrange(0, 0) =~= Seq::<Dec>::empty());
    proof {
        lemma_pow10_positive(56);
        assert(acc.units() == 0);
        use_type_invariant(&mean);
        lemma_valid(mean);
    }
    while i < window.len()
        invariant
            i <= window@.len(),
            squared_deviation_sum(window@.subrange(0, i as int), mean) == Some(acc),
            acc.spec_mantissa() >= 0,
            mean.valid(),
            fit == (squares_fit(window@, um, sm) && within(mean, um, sm)),
            fit ==> within(
                acc,
                squares_units(window@.subrange(0, i as int), um),
                squares_scale(window@.subrange(0, i as int), sm),
            ),
        decreases window@.len() - i,
    {
        let ghost prefix = window@.subrange(0, (i + 1) as int);
        let ghost before = window@.subrange(0, i as int);
        assert(prefix.drop_last() =~= before);
        let v = window[i];
        assert(prefix.last() == v);
        let ghost sd = deviation_scale(v, sm);
        let ghost ud = v.units() - um;
        proof {
            use_type_invariant(&acc);
            use_type_invariant(&v);
            lemma_valid(acc);
            lemma_valid(v);
            if fit {
                lemma_squares_fit_prefix(window@, um, sm, (i + 1) as nat);
            }
        }
        let dopt = checked_sub(v, mean);
        let d = match dopt {
            Some(d) => d,
            None => {
                proof {
                    if fit {
                        lemma_sub_within(v, mean, dopt, v.units(), v.spec_scale(), um, sm);
                    }
                    lemma_squares_none_extends(window@, mean, (i + 1) as nat);
                }
                return Err(DecimalOverflow);
            },
        };
        proof {
            use_type_invariant(&d);
            lemma_valid(d);
            if fit {
                lemma_sub_within(v, mean, dopt, v.units(), v.spec_scale(), um, sm);
            }
        }
        let xopt = checked_mul(d, d);
        let x = match xopt {
            Some(x) => x,
            None => {
                proof {
                    if fit {
                        lemma_mul_within(d, d, xopt, ud, sd, ud, sd);
                    }
                    lemma_squares_none_extends(window@, mean, (i + 1) as nat);
                }
                return Err(DecimalOverflow);
            },
        };
        proof {
            use_type_invariant(&x);
            lemma_valid(x);
            if fit {
                lemma_mul_within(d, d, xopt, ud, sd, ud, sd);
            }
            assert(d.spec_mantissa() * d.spec_mantissa() >= 0) by (nonlinear_arith);
            assert(x.spec_mantissa() >= 0);
            lemma_units_sign(acc);
            lemma_units_sign(x);
            lemma_exact_units(acc, x);
            let k = pow10((56 - Dec::common_scale(acc, x)) as nat);
            lemma_pow10_positive((56 - Dec::common_scale(acc, x)) as nat);
            let e = Dec::exact_sum(acc, x);
            assert(e >= 0) by (nonlinear_arith)
                requires
                    e * k >= 0,
                    k > 0,
            ;
        }
        let next = checked_add(acc, x);
        match next {
            Some(n) => {
                proof {
                    use_type_invariant(&n);
                    lemma_valid(n);
                    if fit {
                        lemma_add_within(
                            acc,
                            x,
                            next,
                            squares_units(before, um),
                            squares_scale(before, sm),
                            square_units(v, um),
                            sd + sd,
                        );
                    }
                }
                acc = n;
            },
            None => {
                proof {
                    if fit {
                        lemma_add_within(
                            acc,
                            x,
                            next,
                            squares_units(before, um),
                            squares_scale(before, sm),
                            square_units(v, um),
                            sd + sd,
                        );
                    }
                    lemma_squares_none_extends(window@, mean, (i + 1) as nat);
                }
                return Err(DecimalOverflow);
            },
        }
        i = i + 1;
    }
    assert(window@.subrange(0, window@.len() as int) =~= window@);
    Ok(acc)
}

/// The mean and sample variance of a window of prices, or `None` for a window
/// shorter than `min_window` or than 2.  (Windows on which the decimal
/// arithmetic overflows are left out: see `checked_window_moments`.)
pub fn window_moments(window: &[Dec], min_window: usize) -> (r: Option<WindowMoments>)
    requires
        window_moments_outcome(window@, min_window as nat) is Some,
    ensures
        Some(r) == window_moments_outcome(window@, min_window as nat),
        r is None <==> window@.len() < min_window || window@.len() < 2,
        r matches Some(m) ==> m.variance.spec_mantissa() >= 0,
{
    let len = window.len();
    if len < min_window || len < 2 {
        return None;
    }
    let sum = match sum_window(window) {
        Ok(s) => s,
        Err(_) => return None,
    };
    let mean = checked_div(sum, Dec::from_u64(len as u64)).unwrap();
    let squares = match sum_squared_deviations(window, mean, Ghost(mean_units(window@)), Ghost(mean_scale(window@))) {
        Ok(s) => s,
        Err(_) => return None,
    };
    let divisor = Dec::from_u64((len - 1) as u64);
    let variance = checked_div(squares, divisor).unwrap();
    proof {
        let a = squares.spec_mantissa();
        let b = divisor.spec_mantissa();
        assert(a * b >= 0) by (nonlinear_arith)
            requires
                a >= 0,
                b >= 0,
        ;
    }
    Some(WindowMoments { mean, variance })
}

/// `window_moments` for every window: `Err` exactly where its decimal
/// arithmetic overflows.
pub fn checked_window_moments(window: &[Dec], min_window: usize) -> (r: Result<
    Option<WindowMoments>,
    DecimalOverflow,
>)
    ensures
        match window_moments_outcome(window@, min_window as nat) {
            Some(m) => r == Ok::<Option<WindowMoments>, DecimalOverflow>(m),
            None => r is Err,
        },
        r matches Ok(Some(m)) ==> m.variance.spec_mantissa() >= 0,
        window@.len() >= min_window && window@.len() >= 2 && window_fit(window@) ==> r matches Ok(
            Some(_),
        ),
        window@.len() >= min_window && window@.len() >= 2 && window_fit(window@) ==> (r matches Ok(
            Some(m),
        ) && m.mean.units() == mean_units(window@) && m.variance.units() == quotient_units(
            squares_units(window@, mean_units(window@)),
            (window@.len() - 1) * pow10(56),
        )),
{
    let len = window.len();
    if len >= min_window && len >= 2 {
        let ghost fit = window_fit(window@);
        let ghost p = pow10(56);
        let sum = match sum_window(window) {
            Ok(s) => s,
            Err(e) => return Err(e),
        };
        let count = Dec::from_u64(len as u64);
        proof {
            use_type_invariant(&sum);
            use_type_invariant(&count);
            lemma_valid(sum);
            lemma_valid(count);
            assert(count.units() == len * p);
        }
        let mopt = checked_div(sum, count);
        let mean = match mopt {
            Some(m) => m,
            None => {
                proof {
                    if fit {
                        lemma_div_within(
                            sum,
                            count,
                            mopt,
                            units_sum(window@),
                            scale_bound(window@),
                            len * p,
                            0,
                            least_scale(mean_units(window@)),
                        );
                    }
                }
                return Err(DecimalOverflow);
            },
        };
        proof {
            use_type_invariant(&mean);
            lemma_valid(mean);
            if fit {
                lemma_div_within(
                    sum,
                    count,
                    mopt,
                    units_sum(window@),
                    scale_bound(window@),
                    len * p,
                    0,
                    least_scale(mean_units(window@)),
                );
            }
        }
        let squares = match sum_squared_deviations(window, mean, Ghost(mean_units(window@)), Ghost(mean_scale(window@))) {
            Ok(s) => s,
            Err(e) => return Err(e),
        };
        let divisor = Dec::from_u64((len - 1) as u64);
        proof {
            use_type_invariant(&squares);
            use_type_invariant(&divisor);
            lemma_valid(squares);
            lemma_valid(divisor);
            assert(divisor.units() == (len - 1) * p);
        }
        let vopt = checked_div(squares, divisor);
        let ghost sq = squares_units(window@, mean_units(window@));
        let variance = match vopt {
            Some(v) => v,
            None => {
                proof {
                    if fit {
                        lemma_div_within(
                            squares,
                            divisor,
                            vopt,
                            sq,
                            squares_scale(window@, mean_scale(window@)),
                            (len - 1) * p,
                            0,
                            least_scale(quotient_units(sq, (len - 1) * p)),
                        );
                    }
                }
                return Err(DecimalOverflow);
            },
        };
        proof {
            use_type_invariant(&variance);
            lemma_valid(variance);
            if fit {
                lemma_div_within(
                    squares,
                    divisor,
                    vopt,
                    sq,
                    squares_scale(window@, mean_scale(window@)),
                    (len - 1) * p,
                    0,
                    least_scale(quotient_units(sq, (len - 1) * p)),
                );
            }
        }
        let r = window_moments(window, min_window);
        assert(r == Some(WindowMoments { mean, variance }));
        return Ok(r);
    }
    Ok(window_moments(window, min_window))
}

/// What `z_score_context` computes: no context for a zero standard deviation;
/// otherwise the z-score `(current - mean) / std_dev`.  `None` where an
/// operation overflows.
pub open spec fn z_score_outcome(current_price: Dec, mean: Dec, std_dev: Dec) -> Option<
    Option<SignalContext>,
> {
    if std_dev.is_zero() {
        Some(None)
    } else {
        match decimal_checked_sub(current_price, mean) {
            None => None,
            Some(deviation) => match decimal_checked_div(deviation, std_dev) {
                None => None,
                Some(z_score) => Some(Some(SignalContext { current_price, mean, std_dev, z_score })),
            },
        }
    }
}

/// The signal context of the latest price, given the window's mean and
/// standard deviation: `None` for a zero standard deviation.  (Inputs on which
/// the decimal arithmetic overflows are left out: see `checked_z_score_context`.)
pub fn z_score_context(current_price: Dec, mean: Dec, std_dev: Dec) -> (r: Option<SignalContext>)
    requires
        z_score_outcome(current_price, mean, std_dev) is Some,
    ensures
        Some(r) == z_score_outcome(current_price, mean, std_dev),
        r is None <==> std_dev.is_zero(),
        r matches Some(ctx) ==> std_dev.is_positive() ==> (mean.le(current_price)
            ==> ctx.z_score.spec_mantissa() >= 0) && (current_price.le(mean)
            ==> ctx.z_score.spec_mantissa() <= 0),
        r matches Some(ctx) ==> (ctx.current_price == current_price && ctx.mean == mean
            && ctx.std_dev == std_dev && (decimal_checked_sub(current_price, mean) matches Some(d)
            && decimal_checked_div(d, std_dev) == Some(ctx.z_score))),
{
    if std_dev.is_zero_value() {
        return None;
    }
    let deviation = checked_sub(current_price, mean).unwrap();
    let z_score = checked_div(deviation, std_dev).unwrap();
    proof {
        use_type_invariant(&current_price);
        use_type_invariant(&mean);
        lemma_valid(current_price);
        lemma_valid(mean);
        lemma_exact_units(current_price, mean);
        lemma_le_units(mean, current_price);
        lemma_le_units(current_price, mean);
        let k = pow10((56 - Dec::common_scale(current_price, mean)) as nat);
        lemma_pow10_positive((56 - Dec::common_scale(current_price, mean)) as nat);
        let e = Dec::exact_difference(current_price, mean);
        assert((e >= 0) == (e * k >= 0) && (e <= 0) == (e * k <= 0)) by (nonlinear_arith)
            requires
                k > 0,
        ;
        let dm = deviation.spec_mantissa();
        let sm = std_dev.spec_mantissa();
        if sm > 0 {
            assert((dm >= 0 ==> dm * sm >= 0) && (dm <= 0 ==> dm * sm <= 0)) by (nonlinear_arith)
                requires
                    sm > 0,
            ;
        }
    }
    Some(SignalContext { current_price, mean, std_dev, z_score })
}

/// The inputs on which the arithmetic of the z-score is exact and fits: the
/// deviation `current - mean` fits at the larger of the two scales, and the
/// z-score `deviation / std_dev` is a whole decimal that fits.
pub open spec fn z_score_fit(current_price: Dec, mean: Dec, std_dev: Dec) -> bool {
    let ud = current_price.units() - mean.units();
    let uz = quotient_units(ud, std_dev.units());
    &&& fits_at(ud, max_scale(current_price.spec_scale(), mean.spec_scale()))
    &&& divides_units(ud, std_dev.units())
    &&& fits_at(uz, least_scale(uz))
}

/// `z_score_context` for every input: `Err` exactly where its decimal
/// arithmetic overflows.
pub fn checked_z_score_context(current_price: Dec, mean: Dec, std_dev: Dec) -> (r: Result<
    Option<SignalContext>,
    DecimalOverflow,
>)
    ensures
        match z_score_outcome(current_price, mean, std_dev) {
            Some(c) => r == Ok::<Option<SignalContext>, DecimalOverflow>(c),
            None => r is Err,
        },
        r matches Ok(Some(ctx)) ==> std_dev.is_positive() ==> (mean.le(current_price)
            ==> ctx.z_score.spec_mantissa() >= 0) && (current_price.le(mean)
            ==> ctx.z_score.spec_mantissa() <= 0),
        z_score_fit(current_price, mean, std_dev) ==> r is Ok,
        r matches Ok(Some(ctx)) ==> (ctx.current_price == current_price && ctx.mean == mean
            && ctx.std_dev == std_dev && (decimal_checked_sub(current_price, mean) matches Some(d)
            && decimal_checked_div(d, std_dev) == Some(ctx.z_score))),
        r matches Ok(None) ==> std_dev.is_zero(),
{
    if !std_dev.is_zero_value() {
        let ghost fit = z_score_fit(current_price, mean, std_dev);
        let ghost ud = current_price.units() - mean.units();
        let ghost sd = max_scale(current_price.spec_scale(), mean.spec_scale());
        proof {
            use_type_invariant(&current_price);
            use_type_invariant(&mean);
            use_type_invariant(&std_dev);
            lemma_valid(current_price);
            lemma_valid(mean);
            lemma_valid(std_dev);
        }
        let dopt = checked_sub(current_price, mean);
        let deviation = match dopt {
            Some(d) => d,
            None => {
                proof {
                    if fit {
                        lemma_sub_within(
                            current_price,
                            mean,
                            dopt,
                            current_price.units(),
                            current_price.spec_scale(),
                            mean.units(),
                            mean.spec_scale(),
                        );
                    }
                }
                return Err(DecimalOverflow);
            },
        };
        proof {
            use_type_invariant(&deviation);
            lemma_valid(deviation);
            if fit {
                lemma_sub_within(
                    current_price,
                    mean,
                    dopt,
                    current_price.units(),
                    current_price.spec_scale(),
                    mean.units(),
                    mean.spec_scale(),
                );
            }
        }
        let zopt = checked_div(deviation, std_dev);
        if zopt.is_none() {
            proof {
                if fit {
                    let uz = quotient_units(ud, std_dev.units());
                    lemma_div_within(
                        deviation,
                        std_dev,
                        zopt,
                        ud,
                        sd,
                        std_dev.units(),
                        std_dev.spec_scale(),
                        least_scale(uz),
                    );
                }
            }
            return Err(DecimalOverflow);
        }
    }
    Ok(z_score_context(current_price, mean, std_dev))
}

/// A signal context keeps the price, mean and standard deviation it was made
/// from, and its z-score is `rust_decimal`'s `(current_price - mean) / std_dev`.
pub proof fn law_z_score_context_keeps_inputs(
    current_price: Dec,
    mean: Dec,
    std_dev: Dec,
    ctx: SignalContext,
)
    requires
        z_score_outcome(current_price, mean, std_dev) == Some(Some(ctx)),
    ensures
        ctx.current_price == current_price,
        ctx.mean == mean,
        ctx.std_dev == std_dev,
        decimal_checked_sub(current_price, mean) matches Some(d) && decimal_checked_div(d, std_dev)
            == Some(ctx.z_score),
        !std_dev.is_zero(),
{
}

/// Surrounding white space and ASCII case do not matter to which strategy a
/// name selects: the trimmed, lower-cased name selects the same one.
pub proof fn lemma_strategy_name_normal_form(text: Seq<char>)
    ensures
        strategy_of(lowercased(trimmed(text))) == strategy_of(text),
{
    let t = trimmed(text);
    let l = lowercased(t);
    lemma_trimmed_ends(text);
    if l.len() > 0 {
        assert(l[0] == ascii_lower(t[0]));
        assert(l.last() == ascii_lower(t.last()));
    }
    lemma_trimmed_fixed(l);
    assert(lowercased(l) =~= l);
}

/// How the two thresholds decide the signal: `Buy` exactly at or below the buy
/// threshold; `Sell` exactly above the buy threshold and at or above the sell
/// threshold; `Hold` exactly strictly between them.
pub proof fn law_signal_thresholds(z_score: Dec, buy_threshold: Dec, sell_threshold: Dec)
    ensures
        (signal_for(z_score, buy_threshold, sell_threshold) == TradeSignal::Buy) == z_score.le(
            buy_threshold,
        ),
        (signal_for(z_score, buy_threshold, sell_threshold) == TradeSignal::Sell) == (!z_score.le(
            buy_threshold,
        ) && sell_threshold.le(z_score)),
        (signal_for(z_score, buy_threshold, sell_threshold) == TradeSignal::Hold) == (!z_score.le(
            buy_threshold,
        ) && !sell_threshold.le(z_score)),
{
}

/// The signal is monotone in the z-score: a lower z-score never turns a buy
/// into something else, and a higher one never turns a sell into something
/// else.
pub proof fn lemma_signal_monotone(low: Dec, high: Dec, buy_threshold: Dec, sell_threshold: Dec)
    requires
        low.valid(),
        high.valid(),
        buy_threshold.valid(),
        sell_threshold.valid(),
        low.le(high),
    ensures
        signal_for(high, buy_threshold, sell_threshold) == TradeSignal::Buy ==> signal_for(
            low,
            buy_threshold,
            sell_threshold,
        ) == TradeSignal::Buy,
        signal_for(low, buy_threshold, sell_threshold) == TradeSignal::Sell ==> signal_for(
            high,
            buy_threshold,
            sell_threshold,
        ) == TradeSignal::Sell,
{
    lemma_le_units(low, high);
    lemma_le_units(low, buy_threshold);
    lemma_le_units(high, buy_threshold);
    lemma_le_units(sell_threshold, low);
    lemma_le_units(sell_threshold, high);
}

} // verus!
