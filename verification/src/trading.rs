//! One round of the trading loop: from a signal, the account balance and the
//! settings to the order to place, and the journal record of a trade.
use vstd::prelude::*;
use crate::configuration::Settings;
use crate::decimal::{
    Dec, DecimalOverflow, checked_mul, checked_div, is_le, decimal_checked_mul,
    decimal_checked_div, to_text, pow10, lemma_quotient_units, lemma_valid, lemma_units_sign, fits_at,
    product_units, quotient_units, divides_units, least_scale, lemma_mul_within,
    lemma_div_within,
};
use crate::storage::TradeRecord;
use crate::strategy::{
    SignalContext, TradeSignal, TradingZones, trading_zones_outcome, compute_trading_zones,
    zones_exact, zones_placed,
    checked_trading_zones, zones_fit_units,
};

verus! {

/// The side of a market order.
#[derive(Clone, Copy, Debug, PartialEq, Eq, Structural)]
pub enum OrderSide {
    Buy,
    Sell,
}

impl OrderSide {
    /// How Kraken names the side.
    pub open spec fn name(self) -> Seq<char> {
        match self {
            OrderSide::Buy => "buy"@,
            OrderSide::Sell => "sell"@,
        }
    }

    /// How Kraken names the side: `buy` or `sell`.
    pub fn as_str(&self) -> (r: &'static str)
        ensures
            r@ == self.name(),
            *self == OrderSide::Buy ==> r@ == "buy"@,
            *self == OrderSide::Sell ==> r@ == "sell"@,
    {
        match self {
            OrderSide::Buy => "buy",
            OrderSide::Sell => "sell",
        }
    }
}

/// What one round of the loop does with a signal.
#[derive(Clone, Copy, Debug)]
pub enum TradePlan {
    /// The signal is `Hold`: nothing to do.
    Hold,
    /// The position would have no volume after the risk cap: no order.
    SkipZeroVolume,
    /// Place a market order of `volume` on `side`; `zones` are its stop loss
    /// and take profit, where they could be computed.
    Execute { side: OrderSide, volume: Dec, zones: Option<TradingZones> },
}

/// The volume a trade may have: the capped notional
/// `balance * max_exposure_pct` in units of the current price (zero where the
/// price is not positive).  `None` where the arithmetic overflows.
pub open spec fn capped_volume(balance: Dec, max_exposure_pct: Dec, current_price: Dec) -> Option<
    Dec,
> {
    match decimal_checked_mul(balance, max_exposure_pct) {
        None => None,
        Some(notional) => if current_price.is_positive() {
            decimal_checked_div(notional, current_price)
        } else {
            Some(Dec::spec_zero())
        },
    }
}

/// What `plan_trade` decides; `None` where the decimal arithmetic overflows.
pub open spec fn trade_plan_outcome(
    signal: TradeSignal,
    ctx: SignalContext,
    balance: Dec,
    settings: Settings,
) -> Option<TradePlan> {
    if signal == TradeSignal::Hold {
        Some(TradePlan::Hold)
    } else {
        match capped_volume(balance, settings.max_exposure_pct, ctx.current_price) {
            None => None,
            Some(volume) => if !volume.is_positive() {
                Some(TradePlan::SkipZeroVolume)
            } else {
                match trading_zones_outcome(
                    signal,
                    ctx.current_price,
                    settings.risk_amount_usd,
                    volume,
                    settings.reward_to_risk,
                ) {
                    None => None,
                    Some(zones) => Some(
                        TradePlan::Execute {
                            side: if signal == TradeSignal::Buy {
                                OrderSide::Buy
                            } else {
                                OrderSide::Sell
                            },
                            volume,
                            zones,
                        },
                    ),
                }
            },
        }
    }
}

/// The risk cap: where the capped notional `balance * max_exposure_pct`
/// divided by the price is a quotient a decimal holds exactly, the volume
/// times the price is that notional (in units of `10^-56`, scaled by
/// `10^price.scale`).
pub open spec fn volume_within_cap(
    balance: Dec,
    max_exposure_pct: Dec,
    current_price: Dec,
    volume: Dec,
) -> bool {
    match decimal_checked_mul(balance, max_exposure_pct) {
        Some(notional) => Dec::quotient_representable(notional, current_price)
            ==> volume.units() * current_price.spec_mantissa() == notional.units() * pow10(
            current_price.spec_scale(),
        ),
        None => true,
    }
}

/// Decides a round of the loop: a `Buy` or `Sell` signal leads to a market
/// order whose notional is at most `max_exposure_pct` of the balance, with its
/// trading zones; no order where that volume is not positive.  (Inputs on
/// which the decimal arithmetic overflows are left out: see
/// `checked_plan_trade`.)
pub fn plan_trade(signal: TradeSignal, ctx: &SignalContext, balance: Dec, settings: &Settings) -> (r:
    TradePlan)
    requires
        trade_plan_outcome(signal, *ctx, balance, *settings) is Some,
    ensures
        Some(r) == trade_plan_outcome(signal, *ctx, balance, *settings),
        r matches TradePlan::Execute { volume, .. } ==> volume_within_cap(
            balance,
            settings.max_exposure_pct,
            ctx.current_price,
            volume,
        ),
        (r == TradePlan::Hold) == (signal == TradeSignal::Hold),
        r matches TradePlan::Execute { side, volume, zones } ==> ({
            &&& (side == OrderSide::Buy) == (signal == TradeSignal::Buy)
            &&& signal != TradeSignal::Hold
            &&& volume.is_positive()
            &&& decimal_checked_mul(balance, settings.max_exposure_pct) matches Some(n)
                && decimal_checked_div(n, ctx.current_price) == Some(volume)
            &&& Some(zones) == trading_zones_outcome(
                signal,
                ctx.current_price,
                settings.risk_amount_usd,
                volume,
                settings.reward_to_risk,
            )
            &&& zones matches Some(z) ==> (zones_exact(
                signal,
                ctx.current_price,
                settings.risk_amount_usd,
                volume,
                settings.reward_to_risk,
            ) ==> zones_placed(signal, ctx.current_price, settings.reward_to_risk, z))
        }),
{
    if signal == TradeSignal::Hold {
        return TradePlan::Hold;
    }
    let notional = checked_mul(balance, settings.max_exposure_pct).unwrap();
    let zero = Dec::zero();
    let volume = if !is_le(ctx.current_price, zero) {
        let v = checked_div(notional, ctx.current_price).unwrap();
        proof {
            if Dec::quotient_representable(notional, ctx.current_price) {
                let (m, sc) = choose|m: int, sc: nat|
                    #![trigger Dec::is_quotient(notional, ctx.current_price, m, sc)]
                    Dec::representable(m, sc) && Dec::is_quotient(
                        notional,
                        ctx.current_price,
                        m,
                        sc,
                    );
                use_type_invariant(&notional);
                use_type_invariant(&ctx.current_price);
                use_type_invariant(&v);
                lemma_valid(notional);
                lemma_valid(ctx.current_price);
                lemma_valid(v);
                lemma_quotient_units(notional, ctx.current_price, v, m, sc);
            }
        }
        v
    } else {
        zero
    };
    if is_le(volume, zero) {
        return TradePlan::SkipZeroVolume;
    }
    let zones = compute_trading_zones(
        signal,
        ctx.current_price,
        settings.risk_amount_usd,
        volume,
        settings.reward_to_risk,
    );
    let side = if signal == TradeSignal::Buy {
        OrderSide::Buy
    } else {
        OrderSide::Sell
    };
    TradePlan::Execute { side, volume, zones }
}

/// The inputs on which the arithmetic of a round is exact and fits: for a
/// `Buy` or `Sell`, the capped notional `balance * max_exposure_pct` fits at
/// the sum of the scales; for a positive price, the volume `notional / price`
/// is a whole decimal that fits; and for a positive volume with a positive
/// risk budget and ratio, the zones fit (`zones_fit_units`).
pub open spec fn plan_fit(signal: TradeSignal, ctx: SignalContext, balance: Dec, settings: Settings) -> bool {
    let pct = settings.max_exposure_pct;
    let price = ctx.current_price;
    let un = product_units(balance.units(), pct.units());
    let uv = quotient_units(un, price.units());
    signal == TradeSignal::Hold || {
        &&& fits_at(un, balance.spec_scale() + pct.spec_scale())
        &&& price.is_positive() ==> {
            &&& divides_units(un, price.units())
            &&& fits_at(uv, least_scale(uv))
            &&& uv > 0 && settings.risk_amount_usd.is_positive()
                && settings.reward_to_risk.is_positive() ==> zones_fit_units(
                signal,
                price,
                settings.risk_amount_usd,
                uv,
                settings.reward_to_risk,
            )
        }
    }
}

/// `plan_trade` for every input: `Err` exactly where its decimal arithmetic
/// overflows.
pub fn checked_plan_trade(
    signal: TradeSignal,
    ctx: &SignalContext,
    balance: Dec,
    settings: &Settings,
) -> (r: Result<TradePlan, DecimalOverflow>)
    ensures
        match trade_plan_outcome(signal, *ctx, balance, *settings) {
            Some(p) => r == Ok::<TradePlan, DecimalOverflow>(p),
            None => r is Err,
        },
        plan_fit(signal, *ctx, balance, *settings) ==> r is Ok,
        r matches Ok(p) ==> (p is Hold) == (signal == TradeSignal::Hold),
        r matches Ok(TradePlan::Execute { side, volume, zones }) ==> ({
            &&& (side == OrderSide::Buy) == (signal == TradeSignal::Buy)
            &&& signal != TradeSignal::Hold
            &&& volume.is_positive()
            &&& decimal_checked_mul(balance, settings.max_exposure_pct) matches Some(n)
                && decimal_checked_div(n, ctx.current_price) == Some(volume)
            &&& Some(zones) == trading_zones_outcome(
                signal,
                ctx.current_price,
                settings.risk_amount_usd,
                volume,
                settings.reward_to_risk,
            )
            &&& zones matches Some(z) ==> (zones_exact(
                signal,
                ctx.current_price,
                settings.risk_amount_usd,
                volume,
                settings.reward_to_risk,
            ) ==> zones_placed(signal, ctx.current_price, settings.reward_to_risk, z))
        }),
{
    if signal != TradeSignal::Hold {
        let ghost fit = plan_fit(signal, *ctx, balance, *settings);
        let pct = settings.max_exposure_pct;
        let price = ctx.current_price;
        let ghost un = product_units(balance.units(), pct.units());
        let ghost sn = balance.spec_scale() + pct.spec_scale();
        let ghost uv = quotient_units(un, price.units());
        proof {
            use_type_invariant(&balance);
            use_type_invariant(&pct);
            use_type_invariant(&price);
            lemma_valid(balance);
            lemma_valid(pct);
            lemma_valid(price);
        }
        let nopt = checked_mul(balance, pct);
        let notional = match nopt {
            Some(n) => n,
            None => {
                proof {
                    if fit {
                        lemma_mul_within(balance, pct, nopt, balance.units(), balance.spec_scale(), pct.units(), pct.spec_scale());
                    }
                }
                return Err(DecimalOverflow);
            },
        };
        proof {
            use_type_invariant(&notional);
            lemma_valid(notional);
            if fit {
                lemma_mul_within(balance, pct, nopt, balance.units(), balance.spec_scale(), pct.units(), pct.spec_scale());
            }
        }
        let zero = Dec::zero();
        let volume = if !is_le(price, zero) {
            let vopt = checked_div(notional, price);
            match vopt {
                Some(v) => {
                    proof {
                        use_type_invariant(&v);
                        lemma_valid(v);
                        if fit {
                            lemma_div_within(notional, price, vopt, un, sn, price.units(), price.spec_scale(), least_scale(uv));
                        }
                    }
                    v
                },
                None => {
                    proof {
                        if fit {
                            lemma_div_within(notional, price, vopt, un, sn, price.units(), price.spec_scale(), least_scale(uv));
                        }
                    }
                    return Err(DecimalOverflow);
                },
            }
        } else {
            assert(pow10(0) == 1);
            assert(0 * pow10(price.spec_scale()) == 0);
            zero
        };
        assert(nopt == decimal_checked_mul(balance, settings.max_exposure_pct));
        assert(capped_volume(balance, settings.max_exposure_pct, ctx.current_price) == Some(volume));
        if !is_le(volume, zero) {
            let zones = checked_trading_zones(
                signal,
                ctx.current_price,
                settings.risk_amount_usd,
                volume,
                settings.reward_to_risk,
            );
            if zones.is_err() {
                proof {
                    if fit {
                        use_type_invariant(&volume);
                        lemma_valid(volume);
                        lemma_units_sign(volume);
                        assert(volume.units() == uv);
                    }
                }
                return Err(DecimalOverflow);
            }
            assert(trading_zones_outcome(
                signal,
                ctx.current_price,
                settings.risk_amount_usd,
                volume,
                settings.reward_to_risk,
            ) is Some);
            assert(trade_plan_outcome(signal, *ctx, balance, *settings) is Some);
        } else {
            assert(trade_plan_outcome(signal, *ctx, balance, *settings) is Some);
        }
    }
    Ok(plan_trade(signal, ctx, balance, settings))
}

/// An `Execute` plan trades on the signal's side a positive volume, the capped
/// notional `balance * max_exposure_pct` divided by the price, and carries the
/// zones `compute_trading_zones` gives for the price, the risk budget, that
/// volume and the reward-to-risk ratio (so that, where their arithmetic is
/// exact, a sell's stop loss lies at or above the price and its take profit at
/// or below, and a buy's the other way round: see `plan_trade`).
pub proof fn law_execute_plan(
    signal: TradeSignal,
    ctx: SignalContext,
    balance: Dec,
    settings: Settings,
    side: OrderSide,
    volume: Dec,
    zones: Option<TradingZones>,
)
    requires
        trade_plan_outcome(signal, ctx, balance, settings) == Some(
            TradePlan::Execute { side, volume, zones },
        ),
    ensures
        (side == OrderSide::Buy) == (signal == TradeSignal::Buy),
        signal != TradeSignal::Hold,
        volume.is_positive(),
        decimal_checked_mul(balance, settings.max_exposure_pct) matches Some(n)
            && decimal_checked_div(n, ctx.current_price) == Some(volume),
        Some(zones) == trading_zones_outcome(
            signal,
            ctx.current_price,
            settings.risk_amount_usd,
            volume,
            settings.reward_to_risk,
        ),
{
    broadcast use crate::decimal::group_dec_constants;
}

/// The reason a trade is journaled with: its z-score, mean and standard
/// deviation.
pub open spec fn trade_reason(ctx: SignalContext) -> Seq<char> {
    "z="@ + ctx.z_score.text() + " mean="@ + ctx.mean.text() + " std="@ + ctx.std_dev.text()
}

/// The journal record of a trade on `pair` and `side` at `timestamp_ms`.
pub fn trade_record(timestamp_ms: u128, pair: &str, side: OrderSide, ctx: &SignalContext) -> (r:
    TradeRecord)
    ensures
        r.timestamp_ms == timestamp_ms,
        r.pair@ == pair@,
        r.side@ == side.name(),
        r.price@ == ctx.current_price.text(),
        r.z_score@ == ctx.z_score.text(),
        r.reason@ == trade_reason(*ctx),
        r.reason@ == "z="@ + ctx.z_score.text() + " mean="@ + ctx.mean.text() + " std="@
            + ctx.std_dev.text(),
        side == OrderSide::Buy ==> r.side@ == "buy"@,
        side == OrderSide::Sell ==> r.side@ == "sell"@,
{
    let z_text = to_text(ctx.z_score);
    let mean_text = to_text(ctx.mean);
    let std_text = to_text(ctx.std_dev);
    let mut reason = "z=".to_owned();
    reason.append(z_text.as_str());
    reason.append(" mean=");
    reason.append(mean_text.as_str());
    reason.append(" std=");
    reason.append(std_text.as_str());
    TradeRecord {
        timestamp_ms,
        pair: pair.to_owned(),
        side: side.as_str().to_owned(),
        price: to_text(ctx.current_price),
        z_score: z_text,
        reason,
    }
}

} // verus!
