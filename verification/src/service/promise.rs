use vstd::prelude::*;

use crate::database::client::{views_of, Recorder, RecorderError};
use crate::database::process::decode_spec;
use crate::database::promise::{
    lemma_filter_elem_origin, lemma_promises_wf_filter, promise_with_status_pred, promises_wf,
    promises_process_updated, promises_run_counted, promises_status_updated, Interface, Promise,
    PromiseIdentifier, PromiseProcessCategory, PromiseProcessStatus, PromiseView,
};
use crate::service::scheduler::{
    scheduler_has_identifier, scheduler_wf, task_not_identified, Scheduler, Task, TaskView,
};

verus! {

/// What can go wrong while scheduling or running a promise.
#[derive(Debug)]
pub enum SchedulingError {
    /// The process itself failed while running: recoverable, the task stays
    /// scheduled and is retried on its next interval.
    Pursue(String),
    /// The owner's required configuration is missing: unrecoverable, the
    /// task is deregistered and the promise stopped.
    Person(String),
    /// The record store failed.
    Database(String),
}

impl SchedulingError {
    /// The message the failure carries.
    pub fn message(&self) -> (r: String)
        ensures
            *self matches SchedulingError::Pursue(m) ==> r@ == m@,
            *self matches SchedulingError::Person(m) ==> r@ == m@,
            *self matches SchedulingError::Database(m) ==> r@ == m@,
    {
        match self {
            SchedulingError::Pursue(m) => m.clone(),
            SchedulingError::Person(m) => m.clone(),
            SchedulingError::Database(m) => m.clone(),
        }
    }

    /// A store failure, carried over with its message.
    pub fn with_recorder(err: RecorderError) -> (r: Self)
        ensures
            r matches SchedulingError::Database(m) && (err matches RecorderError::Sqlite(e) ==> m@
                == e@) && (err matches RecorderError::Mutex(e) ==> m@ == e@) && (
            err matches RecorderError::Serde(e) ==> m@ == e@),
    {
        SchedulingError::Database(err.message())
    }
}

pub type SchedulingResult<T> = Result<T, SchedulingError>;

impl Promise {
    /// Materializes the promise into a scheduler task: its configuration
    /// must deserialize for its category, and the task carries the
    /// promise's identifier and scheduling parameters, with nothing in
    /// flight yet.
    pub fn make(&self) -> (r: SchedulingResult<Task>)
        ensures
            r is Ok <==> decode_spec(self@.process) is Some,
            r matches Ok(t) ==> t@.identifier == self@.identifier && t@.interval == self@.interval
                && t@.timeout == self@.timeout && t@.max_concurrent == self@.max_concurrent
                && t@.in_flight == 0,
            r matches Err(e) ==> e is Database,
    {
        let parsed = match self.category {
            PromiseProcessCategory::BinanceSpotLimit => self.process_binance_spot_limit(),
        };
        match parsed {
            Some(_) => Ok(
                Task {
                    identifier: self.identifier.clone(),
                    interval: self.interval,
                    timeout: self.timeout,
                    max_concurrent: self.max_concurrent,
                    in_flight: 0,
                },
            ),
            None => Err(
                SchedulingError::Database(
                    String::from_str("promise process does not deserialize"),
                ),
            ),
        }
    }
}


/// Whether an invocation outcome is the unrecoverable configuration error.
pub open spec fn outcome_unrecoverable(outcome: SchedulingResult<()>) -> bool {
    outcome matches Err(SchedulingError::Person(_))
}

/// The promise records after the bookkeeping of one completed invocation:
/// the run counted, the configuration persisted, and, on the unrecoverable
/// error, the status set to stopped.
pub open spec fn promises_after_invocation(
    s: Seq<PromiseView>,
    identifier: Seq<char>,
    category: PromiseProcessCategory,
    process: Seq<char>,
    unrecoverable: bool,
) -> Seq<PromiseView> {
    let counted = promises_run_counted(s, identifier);
    let persisted = promises_process_updated(counted, process, identifier, category);
    if unrecoverable {
        promises_status_updated(persisted, identifier, PromiseProcessStatus::Stopped)
    } else {
        persisted
    }
}

/// The bookkeeping that closes every invocation, whatever the category's
/// logic did: count the run, persist the configuration, and, when the
/// outcome was the unrecoverable configuration error, deregister the task
/// and stop the promise. It is refused, with nothing changed, only when a
/// matching run counter cannot grow any further.
pub fn finish_invocation(
    promises: &mut Recorder<Promise>,
    scheduler: &mut Scheduler,
    identifier: &PromiseIdentifier,
    category: &PromiseProcessCategory,
    process: &String,
    outcome: &SchedulingResult<()>,
) -> (r: Result<(), RecorderError>)
    ensures
        r is Ok <==> (forall|j: int|
            0 <= j < old(promises)@.len() && (#[trigger] old(promises)@[j]).identifier
                == identifier@ ==> old(promises)@[j].total_runs < u64::MAX),
        r is Ok ==> final(promises)@ == promises_after_invocation(
            old(promises)@,
            identifier@,
            *category,
            process@,
            outcome_unrecoverable(*outcome),
        ),
        r is Ok && outcome_unrecoverable(*outcome) ==> final(scheduler)@ == old(scheduler)@.filter(task_not_identified(identifier@)) && !scheduler_has_identifier(
            final(scheduler)@,
            identifier@,
        ),
        !outcome_unrecoverable(*outcome) || r is Err ==> final(scheduler)@ == old(scheduler)@,
        r is Err ==> final(promises)@ == old(promises)@,
        r is Ok ==> forall|j: int|
            0 <= j < old(promises)@.len() && (#[trigger] old(promises)@[j]).identifier
                == identifier@ ==> final(promises)@[j].total_runs == old(promises)@[j].total_runs
                + 1,
        r is Ok && outcome_unrecoverable(*outcome) ==> forall|j: int|
            0 <= j < old(promises)@.len() && (#[trigger] old(promises)@[j]).identifier
                == identifier@ ==> final(promises)@[j].status is Stopped,
        r is Ok && !outcome_unrecoverable(*outcome) ==> forall|j: int|
            0 <= j < old(promises)@.len() ==> (#[trigger] final(promises)@[j]).status == old(promises)@[j].status,
{
    match promises.update_one_total_runs_by_identifier(identifier) {
        Ok(()) => {},
        Err(e) => {
            return Err(e);
        },
    }
    match promises.update_process_by_identifier_category(process, identifier, category) {
        Ok(()) => {},
        Err(e) => {
            return Err(e);
        },
    }
    let ghost counted = promises_run_counted(old(promises)@, identifier@);
    let ghost persisted = promises_process_updated(counted, process@, identifier@, *category);
    let unrecoverable = match outcome {
        Err(SchedulingError::Person(_)) => true,
        _ => false,
    };
    if unrecoverable {
        match scheduler.remove(identifier) {
            Ok(()) => {},
            Err(_) => {},
        }
        match promises.update_status_by_identifier(&PromiseProcessStatus::Stopped, identifier) {
            Ok(()) => {},
            Err(e) => {
                return Err(e);
            },
        }
        proof {
            assert forall|m: int|
                0 <= m < final(scheduler)@.len() implies (#[trigger] final(scheduler)@[m]).identifier != identifier@ by {
                old(scheduler)@.lemma_filter_pred(task_not_identified(identifier@), m);
            }
        }
    }
    proof {
        assert forall|j: int|
            0 <= j < old(promises)@.len() && (#[trigger] old(promises)@[j]).identifier
                == identifier@ implies final(promises)@[j].total_runs == old(promises)@[j].total_runs + 1 by {
            assert(counted[j].total_runs == old(promises)@[j].total_runs + 1);
            assert(persisted[j].total_runs == counted[j].total_runs);
        }
    }
    Ok(())
}


/// Law: the bookkeeping of an invocation never touches identifiers, so a
/// store whose identifiers are distinct keeps them distinct.
pub proof fn lemma_after_invocation_preserves_wf(
    s: Seq<PromiseView>,
    identifier: Seq<char>,
    category: PromiseProcessCategory,
    process: Seq<char>,
    unrecoverable: bool,
)
    requires
        promises_wf(s),
    ensures
        promises_after_invocation(s, identifier, category, process, unrecoverable).len()
            == s.len(),
        forall|j: int|
            0 <= j < s.len() ==> #[trigger] promises_after_invocation(
                s,
                identifier,
                category,
                process,
                unrecoverable,
            )[j].identifier == s[j].identifier,
        promises_wf(promises_after_invocation(s, identifier, category, process, unrecoverable)),
{
    let post = promises_after_invocation(s, identifier, category, process, unrecoverable);
    assert forall|j: int| 0 <= j < s.len() implies #[trigger] post[j].identifier
        == s[j].identifier by {
        assert(promises_run_counted(s, identifier)[j].identifier == s[j].identifier);
        assert(promises_process_updated(
            promises_run_counted(s, identifier),
            process,
            identifier,
            category,
        )[j].identifier == s[j].identifier);
    }
}

/// A task as a promise materializes it: same identifier and scheduling
/// parameters, nothing in flight yet.
pub open spec fn task_of_promise(p: PromiseView) -> TaskView {
    TaskView {
        identifier: p.identifier,
        interval: p.interval,
        timeout: p.timeout,
        max_concurrent: p.max_concurrent,
        in_flight: 0,
    }
}

/// The promises whose persisted configuration deserializes for their
/// category.
pub open spec fn promise_decodable_pred() -> spec_fn(PromiseView) -> bool {
    |p: PromiseView| decode_spec(p.process) is Some
}

/// The promises whose persisted configuration does not deserialize.
pub open spec fn promise_undecodable_pred() -> spec_fn(PromiseView) -> bool {
    |p: PromiseView| !(decode_spec(p.process) is Some)
}

/// The projection from a promise to its materialized task.
pub open spec fn task_projection() -> spec_fn(PromiseView) -> TaskView {
    |p: PromiseView| task_of_promise(p)
}

/// The projection from a promise to its identifier.
pub open spec fn identifier_projection() -> spec_fn(PromiseView) -> Seq<char> {
    |p: PromiseView| p.identifier
}

/// The startup recovery pass: re-registers with the scheduler exactly the
/// promises persisted as running whose configuration still deserializes,
/// and reports, in order, the identifiers of the running promises it had to
/// skip because their configuration does not.
pub fn initial_service_promise(promises: &Recorder<Promise>, scheduler: &mut Scheduler) -> (failed:
    Vec<PromiseIdentifier>)
    requires
        promises_wf(promises@),
        old(scheduler)@.len() == 0,
    ensures
        final(scheduler)@ == promises@.filter(
            promise_with_status_pred(PromiseProcessStatus::Running),
        ).filter(promise_decodable_pred()).map_values(task_projection()),
        views_of(failed@) == promises@.filter(
            promise_with_status_pred(PromiseProcessStatus::Running),
        ).filter(promise_undecodable_pred()).map_values(identifier_projection()),
        scheduler_wf(final(scheduler)@),
{
    let running = match promises.select_all_by_status(&PromiseProcessStatus::Running) {
        Ok(v) => v,
        Err(_) => {
            proof {
                assert(false);
            }
            return Vec::new();
        },
    };
    let ghost rv = views_of(running@);
    proof {
        lemma_promises_wf_filter(promises@, promise_with_status_pred(PromiseProcessStatus::Running));
        assert(promises_wf(rv));
        assert(rv.take(0) =~= Seq::<PromiseView>::empty());
        assert(Seq::<PromiseView>::empty().filter(promise_decodable_pred()).map_values(
            task_projection(),
        ) =~= Seq::<TaskView>::empty());
        assert(Seq::<PromiseView>::empty().filter(promise_undecodable_pred()).map_values(
            identifier_projection(),
        ) =~= Seq::<Seq<char>>::empty());
    }
    let mut failed: Vec<PromiseIdentifier> = Vec::new();
    let mut i: usize = 0;
    let n = running.len();
    while i < n
        invariant
            0 <= i <= n,
            n == running@.len(),
            rv == views_of(running@),
            promises_wf(rv),
            scheduler@ == rv.take(i as int).filter(promise_decodable_pred()).map_values(
                task_projection(),
            ),
            views_of(failed@) == rv.take(i as int).filter(promise_undecodable_pred()).map_values(
                identifier_projection(),
            ),
            scheduler_wf(scheduler@),
        decreases n - i,
    {
        proof {
            assert(rv.take(i as int + 1) =~= rv.take(i as int).push(rv[i as int]));
            rv.take(i as int).lemma_filter_push(rv[i as int], promise_decodable_pred());
            rv.take(i as int).lemma_filter_push(rv[i as int], promise_undecodable_pred());
        }
        let ghost pre_sched = scheduler@;
        let ghost pre_failed = views_of(failed@);
        match running[i].make() {
            Ok(task) => {
                proof {
                    assert(task@ == task_of_promise(rv[i as int]));
                    assert(promise_decodable_pred()(rv[i as int]));
                    assert(!scheduler_has_identifier(pre_sched, task@.identifier)) by {
                        if scheduler_has_identifier(pre_sched, task@.identifier) {
                            let m = choose|m: int|
                                0 <= m < pre_sched.len() && pre_sched[m].identifier
                                    == task@.identifier;
                            let fseq = rv.take(i as int).filter(promise_decodable_pred());
                            assert(pre_sched[m] == task_of_promise(fseq[m]));
                            lemma_filter_elem_origin(
                                rv.take(i as int),
                                promise_decodable_pred(),
                                m,
                            );
                            let k = choose|k: int|
                                0 <= k < rv.take(i as int).len() && rv.take(i as int)[k] == fseq[m];
                            assert(rv[k].identifier == rv[i as int].identifier);
                            assert(false);
                        }
                    }
                }
                match scheduler.insert(task) {
                    Ok(()) => {},
                    Err(_) => {},
                }
                proof {
                    assert(scheduler@ =~= rv.take(i as int + 1).filter(
                        promise_decodable_pred(),
                    ).map_values(task_projection()));
                    assert(views_of(failed@) =~= rv.take(i as int + 1).filter(
                        promise_undecodable_pred(),
                    ).map_values(identifier_projection()));
                }
            },
            Err(_) => {
                failed.push(running[i].identifier.clone());
                proof {
                    assert(promise_undecodable_pred()(rv[i as int]));
                    assert(views_of(failed@) =~= pre_failed.push(rv[i as int].identifier));
                    assert(views_of(failed@) =~= rv.take(i as int + 1).filter(
                        promise_undecodable_pred(),
                    ).map_values(identifier_projection()));
                    assert(scheduler@ =~= rv.take(i as int + 1).filter(
                        promise_decodable_pred(),
                    ).map_values(task_projection()));
                }
            },
        }
        i += 1;
    }
    proof {
        assert(rv.take(n as int) =~= rv);
    }
    failed
}

} // verus!
