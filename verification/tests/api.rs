use harmony::api::admin::require_administrator_role;
use harmony::api::binance_secret::plan_secret_deposit;
use harmony::api::claim::{Claim, ClaimError, CLAIM_LIFETIME_MILLIS};
use harmony::api::response::{require_request_payload, response_access_denied, Response};
use harmony::database::binance_secret::BinanceSecretPurview;
use harmony::database::person::{Person, PersonRole};
use harmony::database::promise::{PromiseProcessCategory, PromiseProcessStatus};
use harmony::database::promise_logging::PromiseLoggingLevel;
use harmony::service::binance_spot_limit::{buy_log, price_error_log, sell_log};
use harmony::service::promise::SchedulingError;
use harmony::time::{is_expired_at, millis_after_days, timestamp_millis};
use harmony::unique::uuid;

#[test]
fn response_constructors_carry_their_codes() {
    let ok: Response<u32> = Response::ok(7);
    assert!(ok.ok);
    assert_eq!(ok.code, 200);
    assert_eq!(ok.data, Some(7));
    assert!(ok.error.is_none());

    let forbidden: Response<u32> = Response::fobidden(String::from("no"));
    assert_eq!(forbidden.code, 403);
    let incompatible: Response<u32> = Response::incompatible(String::from("no"));
    assert_eq!(incompatible.code, 400);
    let internal: Response<u32> = Response::internal(String::from("no"));
    assert_eq!(internal.code, 500);
    let strange: Response<u32> = Response::strange(String::from("no"));
    assert_eq!(strange.code, 401);
    assert_eq!(strange.error, Some(String::from("no")));
    assert!(!strange.ok);
}

#[test]
fn missing_payload_is_rejected() {
    assert_eq!(require_request_payload(Some(3)).ok(), Some(3));
    let rejected = require_request_payload::<u32>(None).err().unwrap();
    assert_eq!(rejected.code, 400);
    assert_eq!(rejected.error, Some(String::from("please provide valid request payload")));
    let denied = response_access_denied();
    assert_eq!(denied.code, 403);
    assert_eq!(denied.error, Some(String::from("Access denied")));
}

#[test]
fn only_administrators_pass_the_gate() {
    let admin = Person::new(
        String::from("root"),
        PersonRole::Administrator,
        String::from("pw"),
    );
    assert!(require_administrator_role(Some(admin)).is_ok());
    let normal = Person::with_normal(String::from("user"), String::from("pw"));
    let refused = require_administrator_role(Some(normal)).err().unwrap();
    assert_eq!(refused.code, 403);
    let unknown = require_administrator_role(None).err().unwrap();
    assert_eq!(unknown.error, Some(String::from("Access denied")));
}

#[test]
fn claims_expire_one_lifetime_after_issue() {
    let claim = Claim::with_identifier_at(String::from("subject-1"), 1_000);
    assert_eq!(claim.subject().as_str(), "subject-1");
    assert_eq!(claim.issued_at(), 1_000);
    assert_eq!(claim.expires_at(), 1_000 + CLAIM_LIFETIME_MILLIS);
    assert!(!claim.is_expired_at(claim.expires_at()));
    assert!(claim.is_expired_at(claim.expires_at() + 1));

    let fresh = Claim::with_identifier(String::from("subject-2"));
    assert_eq!(fresh.expires_at(), fresh.issued_at() + CLAIM_LIFETIME_MILLIS);
    assert!(!fresh.is_expired());

    let parts = Claim::with_parts(String::from("s"), 5, 9);
    assert_eq!(parts.issued_at(), 5);
    assert_eq!(parts.expires_at(), 9);
}

#[test]
fn error_messages_are_fixed() {
    assert_eq!(ClaimError::TokenCreation.message(), "Token creation error");
    assert_eq!(ClaimError::InvalidToken.message(), "Invalid token");
    assert_eq!(ClaimError::ExpiredToken.message(), "Expired token");
    assert_eq!(SchedulingError::Pursue(String::from("x")).message(), "x");
    let mapped = SchedulingError::with_recorder(
        harmony::database::client::RecorderError::Sqlite(String::from("locked")),
    );
    assert!(matches!(&mapped, SchedulingError::Database(m) if m.as_str() == "locked"));
}

#[test]
fn stored_codes_round_trip() {
    assert_eq!(PersonRole::Normal.code(), 1);
    assert_eq!(PersonRole::Administrator.code(), 2);
    assert_eq!(PersonRole::from_code(2), Some(PersonRole::Administrator));
    assert_eq!(PersonRole::from_code(9), None);

    assert_eq!(BinanceSecretPurview::Read.code(), 1);
    assert_eq!(BinanceSecretPurview::Spot.code(), 2);
    assert_eq!(BinanceSecretPurview::from_code(1), Some(BinanceSecretPurview::Read));
    assert_eq!(BinanceSecretPurview::from_code(0), None);
    assert_eq!(BinanceSecretPurview::Spot.to_string(), "2");

    assert_eq!(PromiseProcessCategory::BinanceSpotLimit.code(), 1);
    assert_eq!(
        PromiseProcessCategory::from_code(1),
        Some(PromiseProcessCategory::BinanceSpotLimit)
    );
    assert_eq!(PromiseProcessCategory::from_code(2), None);

    assert_eq!(PromiseProcessStatus::Stopped.code(), 0);
    assert_eq!(PromiseProcessStatus::Running.code(), 1);
    assert_eq!(PromiseProcessStatus::from_code(1), Some(PromiseProcessStatus::Running));
    assert_eq!(PromiseProcessStatus::from_code(7), None);

    assert_eq!(PromiseLoggingLevel::Fatal.code(), 1);
    assert_eq!(PromiseLoggingLevel::Trace.code(), 6);
    assert_eq!(PromiseLoggingLevel::from_code(4), Some(PromiseLoggingLevel::Info));
    assert_eq!(PromiseLoggingLevel::from_code(0), None);
}

#[test]
fn time_arithmetic_is_exact() {
    assert_eq!(millis_after_days(1_000, 2), 1_000 + 2 * 86_400_000);
    assert!(is_expired_at(5, 6));
    assert!(!is_expired_at(6, 6));
    let now = timestamp_millis();
    assert!(now > 1_600_000_000_000);
}

#[test]
fn identifiers_are_hyphenated_and_fresh() {
    let a = uuid();
    let b = uuid();
    assert_eq!(a.len(), 36);
    assert_eq!(b.len(), 36);
    assert_ne!(a, b);
}

#[test]
fn wrapped_calls_are_logged_with_their_outcome() {
    let priced = price_error_log(&String::from("down"));
    assert!(matches!(priced.level, PromiseLoggingLevel::Error));
    assert_eq!(priced.message, "price error down");

    let bought = buy_log(&String::from("10"), &String::from("5"), &Ok(String::from("filled")));
    assert!(matches!(bought.level, PromiseLoggingLevel::Info));
    assert_eq!(bought.message, "buying filled");
    let failed = buy_log(&String::from("10"), &String::from("5"), &Err(String::from("refused")));
    assert!(matches!(failed.level, PromiseLoggingLevel::Error));
    assert_eq!(failed.message, "buying price: 10 amount: 5 error: refused");

    let sold = sell_log(&String::from("9"), &String::from("2"), &Ok(String::from("done")));
    assert_eq!(sold.message, "selling done");
    let unsold = sell_log(&String::from("9"), &String::from("2"), &Err(String::from("halt")));
    assert_eq!(unsold.message, "selling price: 9 quantity: 2 error: halt");
}

#[test]
fn secret_deposits_respect_the_purview() {
    let owner = String::from("owner-1");
    let planned = plan_secret_deposit(
        owner.clone(),
        2,
        String::from("ak"),
        String::from("sk"),
        false,
    )
    .unwrap()
    .unwrap();
    assert!(matches!(planned.purview, BinanceSecretPurview::Spot));
    assert_eq!(planned.api_key, "ak");

    let duplicate = plan_secret_deposit(
        owner.clone(),
        1,
        String::from("ak"),
        String::from("sk"),
        true,
    )
    .unwrap();
    assert!(duplicate.is_none());

    let refused = plan_secret_deposit(owner, 9, String::from("ak"), String::from("sk"), false)
        .err()
        .unwrap();
    assert_eq!(refused.code, 400);
    assert_eq!(refused.error, Some(String::from("Purview parameter error")));
}
