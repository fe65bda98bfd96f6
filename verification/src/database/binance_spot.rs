use vstd::prelude::*;

use crate::database::client::{views_of, Recorder, RecorderResult};
use crate::database::person::PersonIdentifier;

verus! {

/// The trading parameters an account has configured for one instrument:
/// precisions, commissions and the smallest transaction it allows.
#[derive(Debug)]
pub struct BinanceSpot {
    pub owner: PersonIdentifier,
    pub symbol: String,
    pub transaction_quantity_precision: u32,
    pub quantity_precision: u32,
    pub amount_precision: u32,
    pub buying_commission: String,
    pub selling_commission: String,
    pub minimum_transaction_amount: String,
}

/// The mathematical value of a `BinanceSpot`.
pub struct BinanceSpotView {
    pub owner: Seq<char>,
    pub symbol: Seq<char>,
    pub transaction_quantity_precision: u32,
    pub quantity_precision: u32,
    pub amount_precision: u32,
    pub buying_commission: Seq<char>,
    pub selling_commission: Seq<char>,
    pub minimum_transaction_amount: Seq<char>,
}

impl View for BinanceSpot {
    type V = BinanceSpotView;

    open spec fn view(&self) -> BinanceSpotView {
        BinanceSpotView {
            owner: self.owner@,
            symbol: self.symbol@,
            transaction_quantity_precision: self.transaction_quantity_precision,
            quantity_precision: self.quantity_precision,
            amount_precision: self.amount_precision,
            buying_commission: self.buying_commission@,
            selling_commission: self.selling_commission@,
            minimum_transaction_amount: self.minimum_transaction_amount@,
        }
    }
}

impl Clone for BinanceSpot {
    fn clone(&self) -> (r: Self)
        ensures
            r@ == self@,
    {
        BinanceSpot {
            owner: self.owner.clone(),
            symbol: self.symbol.clone(),
            transaction_quantity_precision: self.transaction_quantity_precision,
            quantity_precision: self.quantity_precision,
            amount_precision: self.amount_precision,
            buying_commission: self.buying_commission.clone(),
            selling_commission: self.selling_commission.clone(),
            minimum_transaction_amount: self.minimum_transaction_amount.clone(),
        }
    }
}

/// Whether some configuration in `s` belongs to `owner` for `symbol`.
pub open spec fn has_spot_with_owner_symbol(
    s: Seq<BinanceSpotView>,
    owner: Seq<char>,
    symbol: Seq<char>,
) -> bool {
    exists|j: int| 0 <= j < s.len() && s[j].owner == owner && s[j].symbol == symbol
}

/// The configurations that belong to `owner`.
pub open spec fn spot_owned_by(owner: Seq<char>) -> spec_fn(BinanceSpotView) -> bool {
    |p: BinanceSpotView| p.owner == owner
}

/// The operations the instrument-configuration table offers.
pub trait Interface {
    fn insert(&mut self, item: &BinanceSpot) -> RecorderResult<()>;

    fn select_all(&self) -> RecorderResult<Vec<BinanceSpot>>;

    fn select_all_by_owner(&self, owner: &PersonIdentifier) -> RecorderResult<Vec<BinanceSpot>>;

    fn select_one_by_owner_and_symbol(&self, owner: &PersonIdentifier, symbol: &String)
        -> RecorderResult<Option<BinanceSpot>>;
}

impl Interface for Recorder<BinanceSpot> {
    /// Appends the configuration.
    fn insert(&mut self, item: &BinanceSpot) -> (r: RecorderResult<()>)
        ensures
            r is Ok,
            final(self)@ == old(self)@.push(item@),
    {
        self.items.push(item.clone());
        proof {
            assert(self@ =~= old(self)@.push(item@));
        }
        Ok(())
    }

    /// Hands out every configuration, in insertion order.
    fn select_all(&self) -> (r: RecorderResult<Vec<BinanceSpot>>)
        ensures
            r matches Ok(v) && views_of(v@) == self@,
    {
        let mut out: Vec<BinanceSpot> = Vec::new();
        let mut i: usize = 0;
        let n = self.items.len();
        while i < n
            invariant
                0 <= i <= n,
                n == self.items.len(),
                out@.len() == i,
                forall|k: int| 0 <= k < i ==> out@[k]@ == self@[k],
            decreases n - i,
        {
            out.push(self.items[i].clone());
            i += 1;
        }
        proof {
            assert(views_of(out@) =~= self@);
        }
        Ok(out)
    }

    /// Hands out every configuration of `owner`, in insertion order.
    fn select_all_by_owner(&self, owner: &PersonIdentifier) -> (r: RecorderResult<Vec<BinanceSpot>>)
        ensures
            r matches Ok(v) && views_of(v@) == self@.filter(spot_owned_by(owner@)),
    {
        let mut out: Vec<BinanceSpot> = Vec::new();
        let mut i: usize = 0;
        let n = self.items.len();
        while i < n
            invariant
                0 <= i <= n,
                n == self.items.len(),
                views_of(out@) =~= self@.take(i as int).filter(spot_owned_by(owner@)),
            decreases n - i,
        {
            proof {
                assert(self@.take(i as int + 1) =~= self@.take(i as int).push(self@[i as int]));
                self@.take(i as int).lemma_filter_push(self@[i as int], spot_owned_by(owner@));
                assert(spot_owned_by(owner@)(self@[i as int]) == (self@[i as int].owner == owner@));
            }
            let ghost prev = out@;
            if self.items[i].owner.eq(owner) {
                out.push(self.items[i].clone());
                proof {
                    assert(views_of(out@) =~= views_of(prev).push(self@[i as int]));
                }
            }
            i += 1;
        }
        proof {
            assert(self@.take(n as int) =~= self@);
        }
        Ok(out)
    }

    /// Hands out the first configuration of `owner` for `symbol`; `None`
    /// exactly when there is none.
    fn select_one_by_owner_and_symbol(&self, owner: &PersonIdentifier, symbol: &String) -> (r:
        RecorderResult<Option<BinanceSpot>>)
        ensures
            r matches Ok(o) && (o is Some <==> has_spot_with_owner_symbol(self@, owner@, symbol@)),
            r matches Ok(Some(p)) ==> exists|j: int|
                0 <= j < self@.len() && p@ == self@[j] && self@[j].owner == owner@
                    && self@[j].symbol == symbol@,
    {
        let mut i: usize = 0;
        let n = self.items.len();
        while i < n
            invariant
                0 <= i <= n,
                n == self.items.len(),
                forall|k: int|
                    0 <= k < i ==> !(self@[k].owner == owner@ && self@[k].symbol == symbol@),
            decreases n - i,
        {
            if self.items[i].owner.eq(owner) && self.items[i].symbol.eq(symbol) {
                let found = self.items[i].clone();
                proof {
                    assert(0 <= i < self@.len() && found@ == self@[i as int] && self@[
                        i as int
                    ].owner == owner@ && self@[i as int].symbol == symbol@);
                }
                return Ok(Some(found));
            }
            i += 1;
        }
        Ok(None)
    }
}

} // verus!
