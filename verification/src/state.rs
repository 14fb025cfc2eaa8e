//! The market state of one trading pair: its latest price and a rolling
//! window of its most recent prices.
use vstd::prelude::*;
use std::collections::VecDeque;
use crate::decimal::Dec;

verus! {

/// The last `n` elements of `s` (all of `s` when it is shorter).
pub open spec fn last_n(s: Seq<Dec>, n: nat) -> Seq<Dec> {
    if s.len() > n {
        s.subrange(s.len() - n, s.len() as int)
    } else {
        s
    }
}

/// The window after pushing `new_prices` one by one into a window holding
/// `prices`, each push keeping the latest `window_size` prices.
pub open spec fn window_after_pushes(prices: Seq<Dec>, new_prices: Seq<Dec>, window_size: nat) -> Seq<
    Dec,
>
    decreases new_prices.len(),
{
    if new_prices.len() == 0 {
        prices
    } else {
        last_n(
            window_after_pushes(prices, new_prices.drop_last(), window_size).push(new_prices.last()),
            window_size,
        )
    }
}

/// The latest price of a pair and its rolling window of recent prices,
/// oldest first.
#[derive(Clone, Debug)]
pub struct MarketState {
    pub pair: String,
    pub latest_price: Option<Dec>,
    pub prices: VecDeque<Dec>,
}

impl MarketState {
    /// A state for `pair` with no price yet.
    pub fn new(pair: String, window_size: usize) -> (r: MarketState)
        ensures
            r.pair == pair,
            r.latest_price is None,
            r.prices@ == Seq::<Dec>::empty(),
    {
        MarketState { pair, latest_price: None, prices: VecDeque::with_capacity(window_size) }
    }

    /// Records a new price: it becomes the latest price and joins the window,
    /// from which the oldest prices leave until at most `window_size` remain.
    pub fn push_price(&mut self, price: Dec, window_size: usize)
        ensures
            final(self).pair == old(self).pair,
            final(self).latest_price == Some(price),
            final(self).prices@ == last_n(old(self).prices@.push(price), window_size as nat),
            final(self).prices@.len() == if old(self).prices@.len() + 1 <= window_size {
                old(self).prices@.len() + 1
            } else {
                window_size as nat
            },
            forall|i: int|
                0 <= i < final(self).prices@.len() ==> #[trigger] final(self).prices@[i]
                    == old(self).prices@.push(price)[old(self).prices@.len() + 1
                    - final(self).prices@.len() + i],
            window_size > 0 ==> final(self).prices@.last() == price,
    {
        self.latest_price = Some(price);
        self.prices.push_back(price);
        let ghost full = old(self).prices@.push(price);
        while self.prices.len() > window_size
            invariant
                full.len() >= self.prices@.len(),
                self.prices@.len() >= window_size || self.prices@.len() == full.len(),
                self.prices@ == full.subrange(full.len() - self.prices@.len(), full.len() as int),
                self.pair == old(self).pair,
                self.latest_price == Some(price),
            decreases self.prices@.len(),
        {
            self.prices.pop_front();
        }
        assert(self.prices@ =~= last_n(full, window_size as nat));
    }

    /// The prices of the window, oldest first.
    pub fn price_window(&self) -> (r: Vec<Dec>)
        ensures
            r@ == self.prices@,
    {
        let mut out: Vec<Dec> = Vec::new();
        let mut i: usize = 0;
        while i < self.prices.len()
            invariant
                i <= self.prices@.len(),
                out@ == self.prices@.subrange(0, i as int),
            decreases self.prices@.len() - i,
        {
            out.push(self.prices[i]);
            i = i + 1;
            assert(out@ =~= self.prices@.subrange(0, i as int));
        }
        assert(out@ =~= self.prices@);
        out
    }
}

/// The rolling window holds exactly the latest prices: pushing a sequence of
/// prices, one by one, into a window of at most `window_size` prices leaves
/// the last `window_size` prices of everything seen, in order.
pub proof fn lemma_window_keeps_latest(prices: Seq<Dec>, new_prices: Seq<Dec>, window_size: nat)
    requires
        prices.len() <= window_size,
    ensures
        window_after_pushes(prices, new_prices, window_size) == last_n(
            prices + new_prices,
            window_size,
        ),
    decreases new_prices.len(),
{
    if new_prices.len() == 0 {
        assert(prices + new_prices =~= prices);
    } else {
        let init = new_prices.drop_last();
        lemma_window_keeps_latest(prices, init, window_size);
        let all = prices + new_prices;
        let before = prices + init;
        assert(all =~= before.push(new_prices.last()));
        let w = last_n(before, window_size);
        assert(last_n(w.push(new_prices.last()), window_size) =~= last_n(all, window_size));
    }
}

} // verus!
