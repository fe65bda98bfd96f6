use harmony::service::logging::{LogChannel, LogEvent, LogSendError};
use harmony::database::promise_logging::PromiseLoggingLevel;
use harmony::service::scheduler::{Scheduler, Task};

fn task(identifier: &str, max_concurrent: usize) -> Task {
    Task {
        identifier: String::from(identifier),
        interval: 3,
        timeout: 1800,
        max_concurrent,
        in_flight: 0,
    }
}

#[test]
fn insert_is_identifier_unique_and_remove_is_best_effort() {
    let mut scheduler = Scheduler::new();
    scheduler.insert(task("t-1", 1)).unwrap();
    assert!(scheduler.insert(task("t-1", 1)).is_err());
    assert!(scheduler.contains(&String::from("t-1")));
    scheduler.remove(&String::from("t-1")).unwrap();
    assert!(!scheduler.contains(&String::from("t-1")));
    // Removing what was never registered is no fault.
    scheduler.remove(&String::from("t-1")).unwrap();
}

/// With a cap of two, a third concurrent invocation of the same task never
/// starts.
#[test]
fn concurrency_stays_under_the_cap() {
    let mut scheduler = Scheduler::new();
    scheduler.insert(task("t-1", 2)).unwrap();
    let identifier = String::from("t-1");
    assert!(scheduler.begin_invocation(&identifier));
    assert!(scheduler.begin_invocation(&identifier));
    assert!(!scheduler.begin_invocation(&identifier));
    assert_eq!(scheduler.tasks[0].in_flight, 2);
    scheduler.end_invocation(&identifier);
    assert!(scheduler.begin_invocation(&identifier));
    assert_eq!(scheduler.tasks[0].in_flight, 2);
    // An identifier nobody registered never starts anything.
    assert!(!scheduler.begin_invocation(&String::from("t-9")));
}

/// Two promises of one owner, each capped at one: neither ever runs twice
/// at once, but both run at the same time as each other.
#[test]
fn two_promises_run_side_by_side() {
    let mut scheduler = Scheduler::new();
    scheduler.insert(task("p-1", 1)).unwrap();
    scheduler.insert(task("p-2", 1)).unwrap();
    let one = String::from("p-1");
    let two = String::from("p-2");
    assert!(scheduler.begin_invocation(&one));
    assert!(scheduler.begin_invocation(&two));
    assert_eq!(scheduler.tasks[0].in_flight, 1);
    assert_eq!(scheduler.tasks[1].in_flight, 1);
    assert!(!scheduler.begin_invocation(&one));
    assert!(!scheduler.begin_invocation(&two));
    scheduler.end_invocation(&one);
    assert!(scheduler.begin_invocation(&one));
}

#[test]
fn channel_is_bounded_and_ordered() {
    let mut channel = LogChannel::new(2);
    let event = |m: &str| LogEvent { level: PromiseLoggingLevel::Info, message: String::from(m) };
    channel.send(event("a")).unwrap();
    channel.send(event("b")).unwrap();
    assert_eq!(channel.send(event("c")), Err(LogSendError::Full));
    let first = channel.recv().unwrap();
    assert_eq!(first.message, "a");
    channel.send(event("c")).unwrap();
    let second = channel.recv().unwrap();
    assert_eq!(second.message, "b");
    let third = channel.recv().unwrap();
    assert_eq!(third.message, "c");
    assert!(channel.recv().is_none());
}

#[test]
fn closed_channel_refuses_sends_but_still_drains() {
    let mut channel = LogChannel::new(4);
    let event = LogEvent { level: PromiseLoggingLevel::Warn, message: String::from("left over") };
    channel.send(event).unwrap();
    channel.close();
    let refused = channel.send(LogEvent {
        level: PromiseLoggingLevel::Info,
        message: String::from("late"),
    });
    assert_eq!(refused, Err(LogSendError::Closed));
    let drained = channel.recv().unwrap();
    assert_eq!(drained.message, "left over");
    assert!(channel.recv().is_none());
}
