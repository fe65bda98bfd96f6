pub mod binance_secret;
pub mod binance_spot;
pub mod binance_spot_buying_order;
pub mod binance_spot_selling_order;
pub mod client;
pub mod cryptocurrency_price;
pub mod person;
pub mod process;
pub mod promise;
pub mod tables;
pub mod promise_logging;
