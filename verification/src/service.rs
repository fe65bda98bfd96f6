pub mod binance_spot_limit;
pub mod logging;
pub mod promise;
pub mod scheduler;
