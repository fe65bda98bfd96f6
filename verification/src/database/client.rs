use vstd::prelude::*;

use crate::database::binance_secret::BinanceSecret;
use crate::database::binance_spot::BinanceSpot;
use crate::database::binance_spot_buying_order::BinanceSpotBuyingOrder;
use crate::database::binance_spot_selling_order::BinanceSpotSellingOrder;
use crate::database::cryptocurrency_price::CryptocurrencyPrice;
use crate::database::person::Person;
use crate::database::promise::Promise;
use crate::database::promise_logging::PromiseLogging;

verus! {

/// A failure of the record store, with the backend's message.
#[derive(Debug)]
pub enum RecorderError {
    Sqlite(String),
    Mutex(String),
    Serde(String),
}

impl RecorderError {
    /// The message the failure carries.
    pub fn message(&self) -> (r: String)
        ensures
            *self matches RecorderError::Sqlite(m) ==> r@ == m@,
            *self matches RecorderError::Mutex(m) ==> r@ == m@,
            *self matches RecorderError::Serde(m) ==> r@ == m@,
    {
        match self {
            RecorderError::Sqlite(m) => m.clone(),
            RecorderError::Mutex(m) => m.clone(),
            RecorderError::Serde(m) => m.clone(),
        }
    }
}

pub type RecorderResult<T> = Result<T, RecorderError>;

/// The mathematical values of a sequence of records.
pub open spec fn views_of<T: View>(s: Seq<T>) -> Seq<T::V> {
    s.map_values(|t: T| t@)
}

/// One table of records, held in insertion order. Which lookups it offers
/// depends on the record type; each record module gives its own operations.
pub struct Recorder<T> {
    pub items: Vec<T>,
}

impl<T: View> View for Recorder<T> {
    type V = Seq<T::V>;

    open spec fn view(&self) -> Seq<T::V> {
        views_of(self.items@)
    }
}

impl<T: View> Recorder<T> {
    /// An empty table.
    pub fn new() -> (r: Self)
        ensures
            r@ == Seq::<T::V>::empty(),
    {
        let r = Recorder { items: Vec::new() };
        proof {
            assert(r@ =~= Seq::<T::V>::empty());
        }
        r
    }
}

/// A record that is addressed by a unique token.
pub trait Uniquer {
    type Sign;

    fn identifier(&self) -> &Self::Sign;
}

/// Where the durable stores would live on disk.
pub struct DatabaseOptions {
    pub normal_name: &'static str,
    pub crypto_name: &'static str,
}

impl DatabaseOptions {
    /// The file the ordinary records go to.
    pub fn normal_name(&self) -> (r: &'static str)
        ensures
            r == self.normal_name,
    {
        self.normal_name
    }

    /// The file the price inventory goes to.
    pub fn crypto_name(&self) -> (r: &'static str)
        ensures
            r == self.crypto_name,
    {
        self.crypto_name
    }
}

impl Default for DatabaseOptions {
    fn default() -> (r: Self)
        ensures
            r.normal_name@ == "harmony.db"@,
            r.crypto_name@ == "cryptocurrency.db"@,
    {
        DatabaseOptions { normal_name: "harmony.db", crypto_name: "cryptocurrency.db" }
    }
}

/// Every table of the system, one field per record kind.
pub struct Database {
    pub person: Recorder<Person>,
    pub binance_secret: Recorder<BinanceSecret>,
    pub binance_spot: Recorder<BinanceSpot>,
    pub binance_spot_buying_order: Recorder<BinanceSpotBuyingOrder>,
    pub binance_spot_selling_order: Recorder<BinanceSpotSellingOrder>,
    pub promise: Recorder<Promise>,
    pub promise_logging: Recorder<PromiseLogging>,
    pub cryptocurrency: Recorder<CryptocurrencyPrice>,
}

impl Database {
    /// A database with every table empty.
    pub fn new() -> (r: Self)
        ensures
            r.person@.len() == 0,
            r.binance_secret@.len() == 0,
            r.binance_spot@.len() == 0,
            r.binance_spot_buying_order@.len() == 0,
            r.binance_spot_selling_order@.len() == 0,
            r.promise@.len() == 0,
            r.promise_logging@.len() == 0,
            r.cryptocurrency@.len() == 0,
    {
        Database {
            person: Recorder::new(),
            binance_secret: Recorder::new(),
            binance_spot: Recorder::new(),
            binance_spot_buying_order: Recorder::new(),
            binance_spot_selling_order: Recorder::new(),
            promise: Recorder::new(),
            promise_logging: Recorder::new(),
            cryptocurrency: Recorder::new(),
        }
    }
}

} // verus!
