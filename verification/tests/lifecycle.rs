use harmony::database::client::Database;
use harmony::database::process::{LimitPosition, PromiseProcessBinanceSpotLimit};
use harmony::database::promise::{
    Interface as PromiseInterface, Promise, PromiseProcessCategory, PromiseProcessStatus,
};
use harmony::database::promise_logging::{Interface as LoggingInterface, PromiseLoggingLevel};
use harmony::service::binance_spot_limit::{classify_trap, is_unrecoverable, require_secret};
use harmony::service::logging::{LogChannel, LOGGING_CHANNEL_CAPACITY};
use harmony::service::promise::{finish_invocation, initial_service_promise, SchedulingError};
use harmony::service::scheduler::Scheduler;

fn spot_limit_config() -> PromiseProcessBinanceSpotLimit {
    PromiseProcessBinanceSpotLimit {
        symbol: String::from("BTCUSDT"),
        positions: vec![LimitPosition {
            investment: String::from("100"),
            buying_low: String::from("50"),
            buying_high: String::from("60"),
            selling_low: String::from("80"),
            selling_high: String::from("90"),
            position: None,
        }],
    }
}

/// One invocation of a promise whose owner never deposited a credential:
/// the error is logged, the run is counted, the promise stops and leaves
/// the scheduler.
#[test]
fn missing_credentials_stop_the_promise() {
    let mut database = Database::new();
    let mut scheduler = Scheduler::new();
    let owner = String::from("owner-1");

    let mut promise = Promise::with_process_binance_spot_limit(owner.clone(), &spot_limit_config());
    assert_eq!(promise.interval, 3);
    assert_eq!(promise.max_concurrent, 1);
    promise.status = PromiseProcessStatus::Running;
    let identifier = promise.identifier.clone();
    let serialized = promise.process.clone();
    database.promise.insert(&promise).unwrap();
    let task = promise.make().unwrap();
    scheduler.insert(task).unwrap();
    assert!(scheduler.contains(&identifier));

    // One invocation: resolving the credential fails, which is the
    // unrecoverable configuration error; the bookkeeping then runs anyway.
    let mut channel = LogChannel::new(LOGGING_CHANNEL_CAPACITY);
    let secret = harmony::database::binance_secret::Interface::select_one_spot_by_owner(
        &database.binance_secret,
        &owner,
    )
    .unwrap();
    assert!(secret.is_none());
    let outcome = match require_secret(secret, &mut channel) {
        Ok(_) => Ok(()),
        Err(e) => Err(e),
    };
    assert!(is_unrecoverable(&outcome));
    channel.close();
    channel
        .drain_into(&mut database.promise_logging, &identifier, &owner)
        .unwrap();
    finish_invocation(
        &mut database.promise,
        &mut scheduler,
        &identifier,
        &PromiseProcessCategory::BinanceSpotLimit,
        &serialized,
        &outcome,
    )
    .unwrap();

    let rows = database
        .promise_logging
        .select_all_by_promise_and_owner(&identifier, &owner)
        .unwrap();
    assert_eq!(rows.len(), 1);
    assert!(matches!(rows[0].level, PromiseLoggingLevel::Error));
    assert!(rows[0].message.contains("not found"));

    let stored = database.promise.select_one_by_identifier(&identifier).unwrap().unwrap();
    assert_eq!(stored.total_runs, 1);
    assert!(matches!(stored.status, PromiseProcessStatus::Stopped));
    assert!(!scheduler.contains(&identifier));
}

/// Two completed invocations, one successful and one recoverable failure,
/// each add exactly one to the run counter and keep the promise running.
#[test]
fn run_counter_grows_once_per_invocation() {
    let mut database = Database::new();
    let mut scheduler = Scheduler::new();
    let mut promise = Promise::with_process_binance_spot_limit(
        String::from("owner-1"),
        &spot_limit_config(),
    );
    promise.status = PromiseProcessStatus::Running;
    promise.total_runs = 5;
    let identifier = promise.identifier.clone();
    let serialized = promise.process.clone();
    database.promise.insert(&promise).unwrap();
    scheduler.insert(promise.make().unwrap()).unwrap();

    let success: Result<(), SchedulingError> = classify_trap(Ok(()));
    finish_invocation(
        &mut database.promise,
        &mut scheduler,
        &identifier,
        &PromiseProcessCategory::BinanceSpotLimit,
        &serialized,
        &success,
    )
    .unwrap();
    let recoverable = classify_trap(Err(String::from("exchange timed out")));
    assert!(!is_unrecoverable(&recoverable));
    finish_invocation(
        &mut database.promise,
        &mut scheduler,
        &identifier,
        &PromiseProcessCategory::BinanceSpotLimit,
        &serialized,
        &recoverable,
    )
    .unwrap();

    let stored = database.promise.select_one_by_identifier(&identifier).unwrap().unwrap();
    assert_eq!(stored.total_runs, 7);
    assert!(matches!(stored.status, PromiseProcessStatus::Running));
    assert!(scheduler.contains(&identifier));
}

/// Restarting re-registers exactly the promises persisted as running whose
/// configuration still deserializes, and reports the one that does not.
#[test]
fn recovery_restores_exactly_the_running_promises() {
    let mut database = Database::new();
    let owner = String::from("owner-1");

    let mut running = Promise::with_process_binance_spot_limit(owner.clone(), &spot_limit_config());
    running.status = PromiseProcessStatus::Running;
    let running_id = running.identifier.clone();
    database.promise.insert(&running).unwrap();

    let stopped = Promise::with_process_binance_spot_limit(owner.clone(), &spot_limit_config());
    let stopped_id = stopped.identifier.clone();
    database.promise.insert(&stopped).unwrap();

    let mut broken = Promise::with_process_binance_spot_limit(owner.clone(), &spot_limit_config());
    broken.status = PromiseProcessStatus::Running;
    broken.process = String::from("!!not a configuration!!");
    let broken_id = broken.identifier.clone();
    database.promise.insert(&broken).unwrap();

    let mut scheduler = Scheduler::new();
    let failed = initial_service_promise(&database.promise, &mut scheduler);

    assert!(scheduler.contains(&running_id));
    assert!(!scheduler.contains(&stopped_id));
    assert!(!scheduler.contains(&broken_id));
    assert_eq!(scheduler.tasks.len(), 1);
    assert_eq!(scheduler.tasks[0].interval, 3);
    assert_eq!(scheduler.tasks[0].in_flight, 0);
    assert_eq!(failed, vec![broken_id]);
}

/// The drain loop hands queued events to the store in order and leaves the
/// channel empty.
#[test]
fn drain_preserves_event_order() {
    let mut database = Database::new();
    let mut channel = LogChannel::new(LOGGING_CHANNEL_CAPACITY);
    channel
        .send(harmony::service::logging::LogEvent {
            level: PromiseLoggingLevel::Info,
            message: String::from("first"),
        })
        .unwrap();
    channel
        .send(harmony::service::logging::LogEvent {
            level: PromiseLoggingLevel::Error,
            message: String::from("second"),
        })
        .unwrap();
    channel
        .drain_into(
            &mut database.promise_logging,
            &String::from("p-1"),
            &String::from("owner-1"),
        )
        .unwrap();
    assert_eq!(channel.entries.len(), 0);
    let rows = database.promise_logging.select_all().unwrap();
    assert_eq!(rows.len(), 2);
    assert_eq!(rows[0].message, "first");
    assert!(matches!(rows[0].level, PromiseLoggingLevel::Info));
    assert_eq!(rows[1].message, "second");
    assert!(matches!(rows[1].level, PromiseLoggingLevel::Error));
}

/// A promise whose stored configuration no longer deserializes cannot be
/// materialized into a task.
#[test]
fn make_refuses_undecodable_configuration() {
    let mut promise = Promise::with_process_binance_spot_limit(
        String::from("owner-1"),
        &spot_limit_config(),
    );
    promise.process = String::from(",,,");
    let refused = promise.make();
    assert!(matches!(refused, Err(SchedulingError::Database(_))));
}
