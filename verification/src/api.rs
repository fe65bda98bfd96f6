pub mod admin;
pub mod binance_secret;
pub mod claim;
pub mod response;
