use harmony::database::binance_secret::{
    BinanceSecret, BinanceSecretPurview, Interface as SecretInterface,
};
use harmony::database::binance_spot::{BinanceSpot, Interface as SpotInterface};
use harmony::database::binance_spot_buying_order::{
    BinanceSpotBuyingOrder, Interface as BuyingInterface,
};
use harmony::database::binance_spot_selling_order::{
    BinanceSpotSellingOrder, Interface as SellingInterface,
};
use harmony::database::client::{Database, DatabaseOptions, Recorder, RecorderError, Uniquer};
use harmony::database::cryptocurrency_price::{CryptocurrencyPrice, Interface as PriceInterface};
use harmony::database::person::{Interface as PersonInterface, Person, PersonRole};
use harmony::database::promise::{
    Interface as PromiseInterface, Promise, PromiseProcessCategory, PromiseProcessStatus,
};
use harmony::database::promise_logging::{
    Interface as LoggingInterface, PromiseLogging, PromiseLoggingLevel,
};
use harmony::database::tables::{sqlite_table_inventory_cryptocurrency, sqlite_table_normal};

fn plain_promise(identifier: &str, owner: &str) -> Promise {
    Promise {
        identifier: String::from(identifier),
        owner: String::from(owner),
        process: String::from("SYM"),
        category: PromiseProcessCategory::BinanceSpotLimit,
        status: PromiseProcessStatus::Stopped,
        total_runs: 0,
        interval: 3,
        timeout: 1800,
        max_concurrent: 1,
    }
}

#[test]
fn person_insert_rejects_duplicates() {
    let mut store: Recorder<Person> = Recorder::new();
    let alice = Person::new(String::from("alice"), PersonRole::Administrator, String::from("pw"));
    assert!(store.insert(&alice).is_ok());
    assert!(store.insert(&alice).is_err());
    let same_name = Person::with_normal(String::from("alice"), String::from("other"));
    assert!(store.insert(&same_name).is_err());
}

#[test]
fn person_lookups() {
    let mut store: Recorder<Person> = Recorder::new();
    let alice = Person::with_normal(String::from("alice"), String::from("pw"));
    let identifier = alice.identifier().clone();
    store.insert(&alice).unwrap();
    let by_id = store.select_one_by_identifier(&identifier).unwrap().unwrap();
    assert_eq!(by_id.name, "alice");
    assert!(matches!(by_id.role, PersonRole::Normal));
    let by_name = store.select_one_by_name(&String::from("alice")).unwrap().unwrap();
    assert_eq!(by_name.identifier, identifier);
    let found = store
        .select_identifier_by_name_and_password(&String::from("alice"), &String::from("pw"))
        .unwrap();
    assert_eq!(found, Some(identifier));
    let missed = store
        .select_identifier_by_name_and_password(&String::from("alice"), &String::from("wrong"))
        .unwrap();
    assert!(missed.is_none());
    assert_eq!(store.select_all().unwrap().len(), 1);
}

#[test]
fn secret_selection_by_purview() {
    let mut store: Recorder<BinanceSecret> = Recorder::new();
    let owner = String::from("owner-1");
    store
        .insert(&BinanceSecret::with_read(owner.clone(), String::from("rk"), String::from("rs")))
        .unwrap();
    assert!(store.select_one_spot_by_owner(&owner).unwrap().is_none());
    store
        .insert(&BinanceSecret::with_spot(owner.clone(), String::from("sk"), String::from("ss")))
        .unwrap();
    let spot = store.select_one_spot_by_owner(&owner).unwrap().unwrap();
    assert!(matches!(spot.purview, BinanceSecretPurview::Spot));
    assert_eq!(spot.api_key, "sk");
    let read = store
        .select_one_by_owner_and_purview(&owner, &BinanceSecretPurview::Read)
        .unwrap()
        .unwrap();
    assert_eq!(read.api_key, "rk");
    assert_eq!(store.select_all_by_owner(&owner).unwrap().len(), 2);
    assert_eq!(store.select_all_by_owner(&String::from("other")).unwrap().len(), 0);
}

#[test]
fn spot_selection_by_symbol() {
    let mut store: Recorder<BinanceSpot> = Recorder::new();
    let spot = BinanceSpot {
        owner: String::from("owner-1"),
        symbol: String::from("BTCUSDT"),
        transaction_quantity_precision: 5,
        quantity_precision: 8,
        amount_precision: 8,
        buying_commission: String::from("0.001"),
        selling_commission: String::from("0.001"),
        minimum_transaction_amount: String::from("5"),
    };
    store.insert(&spot).unwrap();
    let found = store
        .select_one_by_owner_and_symbol(&String::from("owner-1"), &String::from("BTCUSDT"))
        .unwrap()
        .unwrap();
    assert_eq!(found.quantity_precision, 8);
    assert!(store
        .select_one_by_owner_and_symbol(&String::from("owner-1"), &String::from("ETHUSDT"))
        .unwrap()
        .is_none());
    assert_eq!(store.select_all().unwrap().len(), 1);
    assert_eq!(store.select_all_by_owner(&String::from("owner-1")).unwrap().len(), 1);
}

#[test]
fn orders_by_owner() {
    let mut buying: Recorder<BinanceSpotBuyingOrder> = Recorder::new();
    let mut order = BinanceSpotBuyingOrder::default();
    order.owner = String::from("owner-1");
    order.symbol = String::from("BTCUSDT");
    buying.insert(&order).unwrap();
    assert_eq!(buying.select_all_by_owner(&String::from("owner-1")).unwrap().len(), 1);
    assert_eq!(buying.select_all_by_owner(&String::from("owner-2")).unwrap().len(), 0);

    let mut selling: Recorder<BinanceSpotSellingOrder> = Recorder::new();
    let mut order = BinanceSpotSellingOrder::default();
    order.owner = String::from("owner-1");
    selling.insert(&order).unwrap();
    assert_eq!(selling.select_all().unwrap().len(), 1);
}

#[test]
fn latest_price_wins() {
    let mut store: Recorder<CryptocurrencyPrice> = Recorder::new();
    let mk = |price: &str, timestamp: i64| CryptocurrencyPrice {
        symbol: String::from("BTCUSDT"),
        price: String::from(price),
        timestamp,
    };
    store.insert(&mk("10", 100)).unwrap();
    store.insert(&mk("30", 300)).unwrap();
    store.insert(&mk("20", 200)).unwrap();
    let latest = store.select_latest_by_symbol(&String::from("BTCUSDT")).unwrap().unwrap();
    assert_eq!(latest.price, "30");
    assert_eq!(latest.timestamp, 300);
    assert!(store.select_latest_by_symbol(&String::from("ETHUSDT")).unwrap().is_none());
}

#[test]
fn promise_updates_are_identifier_keyed() {
    let mut store: Recorder<Promise> = Recorder::new();
    store.insert(&plain_promise("p-1", "owner-1")).unwrap();
    store.insert(&plain_promise("p-2", "owner-1")).unwrap();
    assert!(store.insert(&plain_promise("p-1", "owner-2")).is_err());

    store
        .update_status_by_identifier(&PromiseProcessStatus::Running, &String::from("p-1"))
        .unwrap();
    let one = store.select_one_by_identifier(&String::from("p-1")).unwrap().unwrap();
    assert!(matches!(one.status, PromiseProcessStatus::Running));
    let two = store.select_one_by_identifier(&String::from("p-2")).unwrap().unwrap();
    assert!(matches!(two.status, PromiseProcessStatus::Stopped));

    store
        .update_process_by_identifier_category(
            &String::from("NEW"),
            &String::from("p-2"),
            &PromiseProcessCategory::BinanceSpotLimit,
        )
        .unwrap();
    let two = store.select_one_by_identifier(&String::from("p-2")).unwrap().unwrap();
    assert_eq!(two.process, "NEW");

    store.update_one_total_runs_by_identifier(&String::from("p-1")).unwrap();
    store.update_one_total_runs_by_identifier(&String::from("p-1")).unwrap();
    let one = store.select_one_by_identifier(&String::from("p-1")).unwrap().unwrap();
    assert_eq!(one.total_runs, 2);
    let two = store.select_one_by_identifier(&String::from("p-2")).unwrap().unwrap();
    assert_eq!(two.total_runs, 0);

    let running = store.select_all_by_status(&PromiseProcessStatus::Running).unwrap();
    assert_eq!(running.len(), 1);
    assert_eq!(running[0].identifier, "p-1");

    let by_owner = store
        .select_all_by_owner_category(
            &String::from("owner-1"),
            &PromiseProcessCategory::BinanceSpotLimit,
        )
        .unwrap();
    assert_eq!(by_owner.len(), 2);

    let found = store
        .select_one_by_identifier_owner(&String::from("p-1"), &String::from("owner-1"))
        .unwrap();
    assert!(found.is_some());
    let missed = store
        .select_one_by_identifier_owner(&String::from("p-1"), &String::from("owner-2"))
        .unwrap();
    assert!(missed.is_none());
    let by_all = store
        .select_one_by_identifier_owner_category(
            &String::from("p-2"),
            &String::from("owner-1"),
            &PromiseProcessCategory::BinanceSpotLimit,
        )
        .unwrap();
    assert!(by_all.is_some());
}

#[test]
fn run_counter_refuses_overflow() {
    let mut store: Recorder<Promise> = Recorder::new();
    let mut promise = plain_promise("p-1", "owner-1");
    promise.total_runs = u64::MAX;
    store.insert(&promise).unwrap();
    assert!(store.update_one_total_runs_by_identifier(&String::from("p-1")).is_err());
    let kept = store.select_one_by_identifier(&String::from("p-1")).unwrap().unwrap();
    assert_eq!(kept.total_runs, u64::MAX);
}

#[test]
fn logging_rows_are_appended_and_filtered() {
    let mut store: Recorder<PromiseLogging> = Recorder::new();
    store
        .insert_by_promise_owner_level_message(
            &String::from("p-1"),
            &String::from("owner-1"),
            &PromiseLoggingLevel::Info,
            &String::from("started"),
        )
        .unwrap();
    store
        .insert(&PromiseLogging::with_error(
            String::from("p-2"),
            String::from("owner-1"),
            String::from("boom"),
        ))
        .unwrap();
    assert_eq!(store.select_all().unwrap().len(), 2);
    let rows = store
        .select_all_by_promise_and_owner(&String::from("p-1"), &String::from("owner-1"))
        .unwrap();
    assert_eq!(rows.len(), 1);
    assert!(matches!(rows[0].level, PromiseLoggingLevel::Info));
    assert_eq!(rows[0].message, "started");
    let info = PromiseLogging::with_info(
        String::from("p"),
        String::from("o"),
        String::from("hello"),
    );
    assert!(matches!(info.level, PromiseLoggingLevel::Info));
}

#[test]
fn database_starts_empty_and_tables_enumerate() {
    let database = Database::new();
    assert_eq!(database.person.items.len(), 0);
    assert_eq!(database.promise.items.len(), 0);
    assert_eq!(database.promise_logging.items.len(), 0);
    assert_eq!(sqlite_table_normal().len(), 8);
    assert_eq!(sqlite_table_inventory_cryptocurrency().len(), 1);
    let options = DatabaseOptions::default();
    assert_eq!(options.normal_name(), "harmony.db");
    assert_eq!(options.crypto_name(), "cryptocurrency.db");
    let err = RecorderError::Serde(String::from("bad"));
    assert_eq!(err.message(), "bad");
}
