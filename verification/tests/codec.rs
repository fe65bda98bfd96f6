use harmony::database::process::{
    deserialize_process_binance_spot_limit, serialize_process_binance_spot_limit, LimitPosition,
    PromiseProcessBinanceSpotLimit,
};
use harmony::database::promise::{Promise, PromiseProcessCategory, PromiseProcessStatus};
use harmony::text::{join_commas, split_str};

fn sample_config() -> PromiseProcessBinanceSpotLimit {
    PromiseProcessBinanceSpotLimit {
        symbol: String::from("BTCUSDT"),
        positions: vec![
            LimitPosition {
                investment: String::from("100.0"),
                buying_low: String::from("50.0"),
                buying_high: String::from("60.5"),
                selling_low: String::from("80.0"),
                selling_high: String::from("90.0"),
                position: None,
            },
            LimitPosition {
                investment: String::from("25"),
                buying_low: String::from("1.5"),
                buying_high: String::from("2.5"),
                selling_low: String::from("3.5"),
                selling_high: String::from("4.5"),
                position: Some(String::from("0.125")),
            },
        ],
    }
}

#[test]
fn serialize_sample_exactly() {
    let encoded = serialize_process_binance_spot_limit(&sample_config());
    assert_eq!(
        encoded,
        "BTCUSDT,100.0,50.0,60.5,80.0,90.0,_,25,1.5,2.5,3.5,4.5,0.125"
    );
}

#[test]
fn round_trip_sample() {
    let config = sample_config();
    let encoded = serialize_process_binance_spot_limit(&config);
    let decoded = deserialize_process_binance_spot_limit(encoded.as_str()).expect("must decode");
    assert_eq!(decoded.symbol, config.symbol);
    assert_eq!(decoded.positions.len(), config.positions.len());
    for (a, b) in decoded.positions.iter().zip(config.positions.iter()) {
        assert_eq!(a.investment, b.investment);
        assert_eq!(a.buying_low, b.buying_low);
        assert_eq!(a.buying_high, b.buying_high);
        assert_eq!(a.selling_low, b.selling_low);
        assert_eq!(a.selling_high, b.selling_high);
        assert_eq!(a.position, b.position);
    }
}

#[test]
fn round_trip_no_positions() {
    let config = PromiseProcessBinanceSpotLimit { symbol: String::from("X9y"), positions: vec![] };
    let encoded = serialize_process_binance_spot_limit(&config);
    assert_eq!(encoded, "X9y");
    let decoded = deserialize_process_binance_spot_limit(encoded.as_str()).expect("must decode");
    assert_eq!(decoded.symbol, "X9y");
    assert!(decoded.positions.is_empty());
}

#[test]
fn decode_rejects_bad_symbol() {
    assert!(deserialize_process_binance_spot_limit("!!").is_none());
    assert!(deserialize_process_binance_spot_limit("").is_none());
}

#[test]
fn decode_rejects_bad_field_count() {
    assert!(deserialize_process_binance_spot_limit("BTCUSDT,1,2").is_none());
}

#[test]
fn decode_rejects_bad_decimal() {
    assert!(deserialize_process_binance_spot_limit("BTCUSDT,a,2,3,4,5,_").is_none());
    assert!(deserialize_process_binance_spot_limit("BTCUSDT,1,2,3,4,5,x").is_none());
    assert!(deserialize_process_binance_spot_limit("BTCUSDT,,2,3,4,5,_").is_none());
}

#[test]
fn promise_carries_its_configuration() {
    let config = sample_config();
    let promise = Promise::with_process_binance_spot_limit(String::from("owner-1"), &config);
    assert_eq!(promise.owner, "owner-1");
    assert!(matches!(promise.category, PromiseProcessCategory::BinanceSpotLimit));
    assert!(matches!(promise.status, PromiseProcessStatus::Stopped));
    assert_eq!(promise.total_runs, 0);
    assert_eq!(promise.interval, 3);
    assert_eq!(promise.timeout, 1800);
    assert_eq!(promise.max_concurrent, 1);
    assert_eq!(promise.identifier.len(), 36);
    let recovered = promise.process_binance_spot_limit().expect("must decode");
    assert_eq!(recovered.symbol, config.symbol);
    assert_eq!(recovered.positions.len(), 2);
}

#[test]
fn split_and_join_are_inverse() {
    let pieces = split_str("a,b,,c", ',');
    assert_eq!(pieces, vec!["a", "b", "", "c"]);
    let joined = join_commas(&pieces);
    assert_eq!(joined, "a,b,,c");
    let lone = split_str("", ',');
    assert_eq!(lone, vec![""]);
}
