use vstd::prelude::*;

use crate::database::client::{views_of, Recorder, RecorderResult};
use crate::database::person::PersonIdentifier;
use crate::time;

verus! {

/// A completed spot sale: what was sold, what it earned, and when.
#[derive(Debug)]
pub struct BinanceSpotSellingOrder {
    pub owner: PersonIdentifier,
    pub symbol: String,
    /// Selling price.
    pub price: String,
    /// Selling quantity.
    pub quantity: String,
    /// Amount earned by selling.
    pub income: String,
    /// Income after commission, also the actual amount received.
    pub income_after_commission: String,
    pub timestamp: i64,
}

/// The mathematical value of a `BinanceSpotSellingOrder`.
pub struct BinanceSpotSellingOrderView {
    pub owner: Seq<char>,
    pub symbol: Seq<char>,
    pub price: Seq<char>,
    pub quantity: Seq<char>,
    pub income: Seq<char>,
    pub income_after_commission: Seq<char>,
    pub timestamp: i64,
}

impl View for BinanceSpotSellingOrder {
    type V = BinanceSpotSellingOrderView;

    open spec fn view(&self) -> BinanceSpotSellingOrderView {
        BinanceSpotSellingOrderView {
            owner: self.owner@,
            symbol: self.symbol@,
            price: self.price@,
            quantity: self.quantity@,
            income: self.income@,
            income_after_commission: self.income_after_commission@,
            timestamp: self.timestamp,
        }
    }
}

impl Clone for BinanceSpotSellingOrder {
    fn clone(&self) -> (r: Self)
        ensures
            r@ == self@,
    {
        BinanceSpotSellingOrder {
            owner: self.owner.clone(),
            symbol: self.symbol.clone(),
            price: self.price.clone(),
            quantity: self.quantity.clone(),
            income: self.income.clone(),
            income_after_commission: self.income_after_commission.clone(),
            timestamp: self.timestamp,
        }
    }
}

impl Default for BinanceSpotSellingOrder {
    /// An empty order stamped with the current wall clock.
    fn default() -> (r: Self)
        ensures
            r@.owner.len() == 0,
            r@.symbol.len() == 0,
            r@.price.len() == 0,
            r@.quantity.len() == 0,
            r@.income.len() == 0,
            r@.income_after_commission.len() == 0,
    {
        BinanceSpotSellingOrder {
            owner: String::new(),
            symbol: String::new(),
            price: String::new(),
            quantity: String::new(),
            income: String::new(),
            income_after_commission: String::new(),
            timestamp: time::timestamp_millis(),
        }
    }
}

/// The orders that belong to `owner`.
pub open spec fn selling_order_owned_by(owner: Seq<char>) -> spec_fn(BinanceSpotSellingOrderView) -> bool {
    |p: BinanceSpotSellingOrderView| p.owner == owner
}

/// The operations the sale-order table offers.
pub trait Interface {
    fn insert(&mut self, item: &BinanceSpotSellingOrder) -> RecorderResult<()>;

    fn select_all(&self) -> RecorderResult<Vec<BinanceSpotSellingOrder>>;

    fn select_all_by_owner(&self, owner: &PersonIdentifier) -> RecorderResult<
        Vec<BinanceSpotSellingOrder>,
    >;
}

impl Interface for Recorder<BinanceSpotSellingOrder> {
    /// Appends the order.
    fn insert(&mut self, item: &BinanceSpotSellingOrder) -> (r: RecorderResult<()>)
        ensures
            r is Ok,
            final(self)@ == old(self)@.push(item@),
    {
        self.items.push(item.clone());
        proof {
            assert(self@ =~= old(self)@.push(item@));
        }
        Ok(())
    }

    /// Hands out every order, in insertion order.
    fn select_all(&self) -> (r: RecorderResult<Vec<BinanceSpotSellingOrder>>)
        ensures
            r matches Ok(v) && views_of(v@) == self@,
    {
        let mut out: Vec<BinanceSpotSellingOrder> = Vec::new();
        let mut i: usize = 0;
        let n = self.items.len();
        while i < n
            invariant
                0 <= i <= n,
                n == self.items.len(),
                out@.len() == i,
                forall|k: int| 0 <= k < i ==> out@[k]@ == self@[k],
            decreases n - i,
        {
            out.push(self.items[i].clone());
            i += 1;
        }
        proof {
            assert(views_of(out@) =~= self@);
        }
        Ok(out)
    }

    /// Hands out every order of `owner`, in insertion order.
    fn select_all_by_owner(&self, owner: &PersonIdentifier) -> (r: RecorderResult<
        Vec<BinanceSpotSellingOrder>,
    >)
        ensures
            r matches Ok(v) && views_of(v@) == self@.filter(selling_order_owned_by(owner@)),
    {
        let mut out: Vec<BinanceSpotSellingOrder> = Vec::new();
        let mut i: usize = 0;
        let n = self.items.len();
        while i < n
            invariant
                0 <= i <= n,
                n == self.items.len(),
                views_of(out@) =~= self@.take(i as int).filter(selling_order_owned_by(owner@)),
            decreases n - i,
        {
            proof {
                assert(self@.take(i as int + 1) =~= self@.take(i as int).push(self@[i as int]));
                self@.take(i as int).lemma_filter_push(self@[i as int], selling_order_owned_by(owner@));
                assert(selling_order_owned_by(owner@)(self@[i as int]) == (self@[i as int].owner == owner@));
            }
            let ghost prev = out@;
            if self.items[i].owner.eq(owner) {
                out.push(self.items[i].clone());
                proof {
                    assert(views_of(out@) =~= views_of(prev).push(self@[i as int]));
                }
            }
            i += 1;
        }
        proof {
            assert(self@.take(n as int) =~= self@);
        }
        Ok(out)
    }
}

} // verus!
