use vstd::prelude::*;

verus! {

/// The table definitions of the ordinary store, one statement per record
/// kind, in the order they must be created.
pub fn sqlite_table_normal() -> (r: Vec<&'static str>)
    ensures
        r@.len() == 8,
{
    let mut r: Vec<&'static str> = Vec::new();
    r.push(
        "
CREATE TABLE IF NOT EXISTS Person
(
    serial      INTEGER PRIMARY KEY NOT NULL,
    identifier  TEXT                NOT NULL  UNIQUE,
    name        TEXT                NOT NULL  UNIQUE,
    role        INTEGER             NOT NULL,
    password    TEXT                NOT NULL
)",
    );
    r.push(
        "
CREATE TABLE IF NOT EXISTS Promise
(
    serial          INTEGER PRIMARY KEY NOT NULL,
    identifier      TEXT                NOT NULL  UNIQUE,
    owner           TEXT                NOT NULL,
    process         TEXT                NOT NULL,
    category        INTEGER             NOT NULL,
    status          INTEGER             NOT NULL,
    total_runs      INTEGER             NOT NULL,
    interval        INTEGER             NOT NULL,
    timeout         INTEGER             NOT NULL,
    max_concurrent  INTEGER             NOT NULL,
    FOREIGN KEY(owner) REFERENCES Person(identifier) ON DELETE CASCADE ON UPDATE CASCADE
)",
    );
    r.push(
        "
CREATE TABLE IF NOT EXISTS PromiseLogging
(
    serial          INTEGER PRIMARY KEY NOT NULL,
    promise         TEXT                NOT NULL,
    owner           TEXT                NOT NULL,
    message         TEXT                NOT NULL,
    level           INTEGER             NOT NULL,
    timestamp       INTEGER             NOT NULL,
    FOREIGN KEY(owner) REFERENCES Person(identifier) ON DELETE CASCADE ON UPDATE CASCADE,
    FOREIGN KEY(promise)  REFERENCES Promise(identifier) ON DELETE CASCADE ON UPDATE CASCADE
)",
    );
    r.push(
        "
CREATE TABLE IF NOT EXISTS PromiseBinanceSpotLimit
(
    serial          INTEGER PRIMARY KEY NOT NULL,
    promise         TEXT                NOT NULL,
    owner           TEXT                NOT NULL,
    symbol          TEXT                NOT NULL,
    buying_low      TEXT                NOT NULL,
    buying_high     TEXT                NOT NULL,
    selling_low     TEXT                NOT NULL,
    selling_high    TEXT                NOT NULL,
    investment      TEXT                NOT NULL,
    position        TEXT                NOT NULL,
    FOREIGN KEY(owner) REFERENCES Person(identifier) ON DELETE CASCADE ON UPDATE CASCADE,
    FOREIGN KEY(promise)  REFERENCES Promise(identifier) ON DELETE CASCADE ON UPDATE CASCADE
)",
    );
    r.push(
        "
CREATE TABLE IF NOT EXISTS BinanceSecret
(
    serial      INTEGER PRIMARY KEY NOT NULL,
    owner       TEXT                NOT NULL,
    purview     INTEGER             NOT NULL,
    api_key     TEXT                NOT NULL,
    secret_key  TEXT                NOT NULL,
    FOREIGN KEY(owner) REFERENCES Person(identifier) ON DELETE CASCADE ON UPDATE CASCADE
)",
    );
    r.push(
        "
CREATE TABLE IF NOT EXISTS BinanceSpot
(
    serial                          INTEGER PRIMARY KEY NOT NULL,
    owner                           TEXT                NOT NULL,
    symbol                          TEXT                NOT NULL,
    transaction_quantity_precision  INTEGER             NOT NULL,
    quantity_precision              INTEGER             NOT NULL,
    amount_precision                INTEGER             NOT NULL,
    buying_commission               TEXT                NOT NULL,
    selling_commission              TEXT                NOT NULL,
    minimum_transaction_amount      TEXT                NOT NULL,
    FOREIGN KEY(owner) REFERENCES Person(identifier) ON DELETE CASCADE ON UPDATE CASCADE
)",
    );
    r.push(
        "
CREATE TABLE IF NOT EXISTS BinanceSpotBuyingOrder
(
    serial                     INTEGER PRIMARY KEY NOT NULL,
    owner                      TEXT                NOT NULL,
    symbol                     TEXT                NOT NULL,
    price                      TEXT                NOT NULL,
    quantity                   TEXT                NOT NULL,
    spent                      TEXT                NOT NULL,
    quantity_after_commission  TEXT                NOT NULL,
    timestamp                  INTEGER             NOT NULL,
    FOREIGN KEY(owner) REFERENCES Person(identifier) ON DELETE CASCADE ON UPDATE CASCADE
)",
    );
    r.push(
        "
CREATE TABLE IF NOT EXISTS BinanceSpotSellingOrder
(
    serial                   INTEGER PRIMARY KEY NOT NULL,
    owner                    TEXT                NOT NULL,
    symbol                   TEXT                NOT NULL,
    price                    TEXT                NOT NULL,
    quantity                 TEXT                NOT NULL,
    income                   TEXT                NOT NULL,
    income_after_commission  TEXT                NOT NULL,
    timestamp                INTEGER             NOT NULL,
    FOREIGN KEY(owner) REFERENCES Person(identifier) ON DELETE CASCADE ON UPDATE CASCADE
)",
    );
    r
}

/// The table definitions of the price inventory.
pub fn sqlite_table_inventory_cryptocurrency() -> (r: Vec<&'static str>)
    ensures
        r@.len() == 1,
{
    let mut r: Vec<&'static str> = Vec::new();
    r.push(
        "
CREATE TABLE IF NOT EXISTS CryptocurrencyPrice
(
    serial      INTEGER PRIMARY KEY NOT NULL,
    symbol      TEXT                NOT NULL,
    price       TEXT                NOT NULL,
    timestamp   INTEGER             NOT NULL
)",
    );
    r
}

} // verus!
