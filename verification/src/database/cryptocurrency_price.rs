use vstd::prelude::*;

use crate::database::client::{Recorder, RecorderResult};

verus! {

/// A price observation for one instrument at one moment.
#[derive(Debug)]
pub struct CryptocurrencyPrice {
    pub symbol: String,
    pub price: String,
    pub timestamp: i64,
}

/// The mathematical value of a `CryptocurrencyPrice`.
pub struct CryptocurrencyPriceView {
    pub symbol: Seq<char>,
    pub price: Seq<char>,
    pub timestamp: i64,
}

impl View for CryptocurrencyPrice {
    type V = CryptocurrencyPriceView;

    open spec fn view(&self) -> CryptocurrencyPriceView {
        CryptocurrencyPriceView {
            symbol: self.symbol@,
            price: self.price@,
            timestamp: self.timestamp,
        }
    }
}

impl Clone for CryptocurrencyPrice {
    fn clone(&self) -> (r: Self)
        ensures
            r@ == self@,
    {
        CryptocurrencyPrice {
            symbol: self.symbol.clone(),
            price: self.price.clone(),
            timestamp: self.timestamp,
        }
    }
}

/// Whether some observation in `s` concerns `symbol`.
pub open spec fn has_price_with_symbol(s: Seq<CryptocurrencyPriceView>, symbol: Seq<char>) -> bool {
    exists|j: int| 0 <= j < s.len() && s[j].symbol == symbol
}

/// The operations the price-inventory table offers.
pub trait Interface {
    fn insert(&mut self, item: &CryptocurrencyPrice) -> RecorderResult<()>;

    fn select_latest_by_symbol(&self, symbol: &String) -> RecorderResult<
        Option<CryptocurrencyPrice>,
    >;
}

impl Interface for Recorder<CryptocurrencyPrice> {
    /// Appends the observation.
    fn insert(&mut self, item: &CryptocurrencyPrice) -> (r: RecorderResult<()>)
        ensures
            r is Ok,
            final(self)@ == old(self)@.push(item@),
    {
        self.items.push(item.clone());
        proof {
            assert(self@ =~= old(self)@.push(item@));
        }
        Ok(())
    }

    /// Hands out an observation of `symbol` whose timestamp no other
    /// observation of `symbol` exceeds; `None` exactly when there is none.
    fn select_latest_by_symbol(&self, symbol: &String) -> (r: RecorderResult<
        Option<CryptocurrencyPrice>,
    >)
        ensures
            r matches Ok(o) && (o is Some <==> has_price_with_symbol(self@, symbol@)),
            r matches Ok(Some(p)) ==> exists|j: int|
                0 <= j < self@.len() && p@ == self@[j] && self@[j].symbol == symbol@,
            r matches Ok(Some(p)) ==> forall|k: int|
                0 <= k < self@.len() && self@[k].symbol == symbol@ ==> self@[k].timestamp
                    <= p@.timestamp,
    {
        let mut best: Option<CryptocurrencyPrice> = None;
        let mut i: usize = 0;
        let n = self.items.len();
        while i < n
            invariant
                0 <= i <= n,
                n == self.items.len(),
                best is Some <==> exists|j: int| 0 <= j < i && self@[j].symbol == symbol@,
                best matches Some(p) ==> exists|j: int|
                    0 <= j < i && p@ == self@[j] && self@[j].symbol == symbol@,
                best matches Some(p) ==> forall|k: int|
                    0 <= k < i && self@[k].symbol == symbol@ ==> self@[k].timestamp <= p@.timestamp,
            decreases n - i,
        {
            if self.items[i].symbol.eq(symbol) {
                let better = match &best {
                    None => true,
                    Some(b) => b.timestamp < self.items[i].timestamp,
                };
                if better {
                    best = Some(self.items[i].clone());
                }
                proof {
                    assert(0 <= i < self@.len() && self@[i as int].symbol == symbol@);
                    assert(best matches Some(p) ==> p@ == self@[i as int] || (exists|j: int|
                        0 <= j < i && p@ == self@[j] && self@[j].symbol == symbol@));
                }
            }
            i += 1;
        }
        Ok(best)
    }
}

} // verus!
