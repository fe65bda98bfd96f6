use vstd::prelude::*;

use crate::database::client::{views_of, Recorder, RecorderError, RecorderResult, Uniquer};
use crate::database::person::PersonIdentifier;
use crate::unique;

verus! {

pub type PromiseIdentifier = String;

pub type PromiseProcess = String;

/// How many seconds pass between two invocations of a fresh promise.
pub const PROMISE_DEFAULT_INTERVAL: u64 = 3;

/// How many seconds one invocation of a fresh promise may take.
pub const PROMISE_DEFAULT_TIMEOUT: u64 = 1800;

/// How many invocations of a fresh promise may be in flight at once.
pub const PROMISE_DEFAULT_MAX_CONCURRENT: usize = 1;

/// A persisted, schedulable automation task: its identity, its owner, the
/// serialized configuration of its category, its scheduling parameters and
/// its run statistics.
#[derive(Debug)]
pub struct Promise {
    pub identifier: PromiseIdentifier,
    pub owner: PersonIdentifier,
    pub process: PromiseProcess,
    pub category: PromiseProcessCategory,
    pub status: PromiseProcessStatus,
    pub total_runs: u64,
    pub interval: u64,
    pub timeout: u64,
    pub max_concurrent: usize,
}

/// The mathematical value of a `Promise`.
pub struct PromiseView {
    pub identifier: Seq<char>,
    pub owner: Seq<char>,
    pub process: Seq<char>,
    pub category: PromiseProcessCategory,
    pub status: PromiseProcessStatus,
    pub total_runs: u64,
    pub interval: u64,
    pub timeout: u64,
    pub max_concurrent: usize,
}

impl View for Promise {
    type V = PromiseView;

    open spec fn view(&self) -> PromiseView {
        PromiseView {
            identifier: self.identifier@,
            owner: self.owner@,
            process: self.process@,
            category: self.category,
            status: self.status,
            total_runs: self.total_runs,
            interval: self.interval,
            timeout: self.timeout,
            max_concurrent: self.max_concurrent,
        }
    }
}

impl Clone for Promise {
    fn clone(&self) -> (r: Self)
        ensures
            r@ == self@,
    {
        Promise {
            identifier: self.identifier.clone(),
            owner: self.owner.clone(),
            process: self.process.clone(),
            category: self.category,
            status: self.status,
            total_runs: self.total_runs,
            interval: self.interval,
            timeout: self.timeout,
            max_concurrent: self.max_concurrent,
        }
    }
}

impl Promise {
    /// A fresh promise around an already-serialized configuration: stopped,
    /// never run, with the default scheduling parameters, under a newly drawn
    /// identifier.
    pub fn with_process(
        owner: PersonIdentifier,
        category: PromiseProcessCategory,
        process: PromiseProcess,
    ) -> (r: Self)
        ensures
            r@.identifier.len() == 36,
            r@.owner == owner@,
            r@.process == process@,
            r@.category == category,
            r@.status is Stopped,
            r@.total_runs == 0,
            r@.interval == PROMISE_DEFAULT_INTERVAL,
            r@.timeout == PROMISE_DEFAULT_TIMEOUT,
            r@.max_concurrent == PROMISE_DEFAULT_MAX_CONCURRENT,
    {
        Promise {
            identifier: unique::uuid(),
            owner,
            process,
            category,
            status: PromiseProcessStatus::Stopped,
            total_runs: 0,
            interval: PROMISE_DEFAULT_INTERVAL,
            timeout: PROMISE_DEFAULT_TIMEOUT,
            max_concurrent: PROMISE_DEFAULT_MAX_CONCURRENT,
        }
    }
}

impl Uniquer for Promise {
    type Sign = PromiseIdentifier;

    fn identifier(&self) -> (r: &PromiseIdentifier)
        ensures
            r@ == self@.identifier,
    {
        &self.identifier
    }
}

/// Which process implementation interprets a promise's configuration.
#[derive(Clone, Copy, Debug, PartialEq, Eq, Structural)]
pub enum PromiseProcessCategory {
    BinanceSpotLimit,
}

impl PromiseProcessCategory {
    /// The numeric code a category is stored under.
    pub fn code(&self) -> (r: u8)
        ensures
            *self is BinanceSpotLimit ==> r == 1,
    {
        match self {
            PromiseProcessCategory::BinanceSpotLimit => 1,
        }
    }

    /// The category a stored numeric code stands for, if any.
    pub fn from_code(code: u8) -> (r: Option<PromiseProcessCategory>)
        ensures
            code == 1 ==> r == Some(PromiseProcessCategory::BinanceSpotLimit),
            code != 1 ==> r is None,
    {
        match code {
            1 => Some(PromiseProcessCategory::BinanceSpotLimit),
            _ => None,
        }
    }
}

/// Whether a promise is registered with the scheduler (`Running`) or not
/// (`Stopped`, which may mean resumable, done, or failed for good).
#[derive(Clone, Copy, Debug, PartialEq, Eq, Structural)]
pub enum PromiseProcessStatus {
    Stopped,
    Running,
}

impl PromiseProcessStatus {
    /// The numeric code a status is stored under.
    pub fn code(&self) -> (r: u8)
        ensures
            *self is Stopped ==> r == 0,
            *self is Running ==> r == 1,
    {
        match self {
            PromiseProcessStatus::Stopped => 0,
            PromiseProcessStatus::Running => 1,
        }
    }

    /// The status a stored numeric code stands for, if any.
    pub fn from_code(code: u8) -> (r: Option<PromiseProcessStatus>)
        ensures
            code == 0 ==> r == Some(PromiseProcessStatus::Stopped),
            code == 1 ==> r == Some(PromiseProcessStatus::Running),
            code != 0 && code != 1 ==> r is None,
    {
        match code {
            0 => Some(PromiseProcessStatus::Stopped),
            1 => Some(PromiseProcessStatus::Running),
            _ => None,
        }
    }
}

/// The same promise with another status.
pub open spec fn promise_with_status(p: PromiseView, status: PromiseProcessStatus) -> PromiseView {
    PromiseView {
        identifier: p.identifier,
        owner: p.owner,
        process: p.process,
        category: p.category,
        status: status,
        total_runs: p.total_runs,
        interval: p.interval,
        timeout: p.timeout,
        max_concurrent: p.max_concurrent,
    }
}

/// The same promise with another serialized configuration.
pub open spec fn promise_with_process(p: PromiseView, process: Seq<char>) -> PromiseView {
    PromiseView {
        identifier: p.identifier,
        owner: p.owner,
        process: process,
        category: p.category,
        status: p.status,
        total_runs: p.total_runs,
        interval: p.interval,
        timeout: p.timeout,
        max_concurrent: p.max_concurrent,
    }
}

/// The same promise after one more completed invocation.
pub open spec fn promise_with_one_more_run(p: PromiseView) -> PromiseView {
    PromiseView {
        identifier: p.identifier,
        owner: p.owner,
        process: p.process,
        category: p.category,
        status: p.status,
        total_runs: (p.total_runs + 1) as u64,
        interval: p.interval,
        timeout: p.timeout,
        max_concurrent: p.max_concurrent,
    }
}

/// Whether some promise in `s` carries this identifier.
pub open spec fn has_promise_with_identifier(s: Seq<PromiseView>, identifier: Seq<char>) -> bool {
    exists|j: int| 0 <= j < s.len() && s[j].identifier == identifier
}

/// No two promises in `s` share an identifier.
pub open spec fn promises_wf(s: Seq<PromiseView>) -> bool {
    forall|i: int, j: int|
        0 <= i < j < s.len() ==> s[i].identifier != s[j].identifier
}

/// `s` with the status of every promise carrying `identifier` replaced.
pub open spec fn promises_status_updated(
    s: Seq<PromiseView>,
    identifier: Seq<char>,
    status: PromiseProcessStatus,
) -> Seq<PromiseView> {
    Seq::new(
        s.len(),
        |j: int|
            if s[j].identifier == identifier {
                promise_with_status(s[j], status)
            } else {
                s[j]
            },
    )
}

/// `s` with the configuration of every promise carrying `identifier` under
/// `category` replaced.
pub open spec fn promises_process_updated(
    s: Seq<PromiseView>,
    process: Seq<char>,
    identifier: Seq<char>,
    category: PromiseProcessCategory,
) -> Seq<PromiseView> {
    Seq::new(
        s.len(),
        |j: int|
            if s[j].identifier == identifier && s[j].category == category {
                promise_with_process(s[j], process)
            } else {
                s[j]
            },
    )
}

/// `s` with one more completed invocation counted on every promise carrying
/// `identifier`.
pub open spec fn promises_run_counted(s: Seq<PromiseView>, identifier: Seq<char>) -> Seq<
    PromiseView,
> {
    Seq::new(
        s.len(),
        |j: int|
            if s[j].identifier == identifier {
                promise_with_one_more_run(s[j])
            } else {
                s[j]
            },
    )
}

/// Re-applying a status update changes nothing: the update is idempotent.
pub proof fn lemma_update_status_idempotent(
    s: Seq<PromiseView>,
    identifier: Seq<char>,
    status: PromiseProcessStatus,
)
    ensures
        promises_status_updated(promises_status_updated(s, identifier, status), identifier, status)
            == promises_status_updated(s, identifier, status),
{
    assert(promises_status_updated(
        promises_status_updated(s, identifier, status),
        identifier,
        status,
    ) =~= promises_status_updated(s, identifier, status));
}

/// Re-applying a configuration update changes nothing: the update is
/// idempotent.
pub proof fn lemma_update_process_idempotent(
    s: Seq<PromiseView>,
    process: Seq<char>,
    identifier: Seq<char>,
    category: PromiseProcessCategory,
)
    ensures
        promises_process_updated(
            promises_process_updated(s, process, identifier, category),
            process,
            identifier,
            category,
        ) == promises_process_updated(s, process, identifier, category),
{
    assert(promises_process_updated(
        promises_process_updated(s, process, identifier, category),
        process,
        identifier,
        category,
    ) =~= promises_process_updated(s, process, identifier, category));
}

/// The promises that carry `status`.
pub open spec fn promise_with_status_pred(status: PromiseProcessStatus) -> spec_fn(
    PromiseView,
) -> bool {
    |p: PromiseView| p.status == status
}

/// The promises of `owner` under `category`.
pub open spec fn promise_owned_by_category(owner: Seq<char>, category: PromiseProcessCategory)
    -> spec_fn(PromiseView) -> bool {
    |p: PromiseView| p.owner == owner && p.category == category
}

/// The operations the promise table offers.
pub trait Interface {
    fn insert(&mut self, item: &Promise) -> RecorderResult<()>;

    fn select_all(&self) -> RecorderResult<Vec<Promise>>;

    fn select_all_by_status(&self, status: &PromiseProcessStatus) -> RecorderResult<Vec<Promise>>;

    fn select_one_by_identifier(&self, identifier: &PromiseIdentifier) -> RecorderResult<
        Option<Promise>,
    >;

    fn select_one_by_identifier_owner(
        &self,
        identifier: &PromiseIdentifier,
        owner: &PersonIdentifier,
    ) -> RecorderResult<Option<Promise>>;

    fn select_one_by_identifier_owner_category(
        &self,
        identifier: &PromiseIdentifier,
        owner: &PersonIdentifier,
        category: &PromiseProcessCategory,
    ) -> RecorderResult<Option<Promise>>;

    fn select_all_by_owner_category(
        &self,
        owner: &PersonIdentifier,
        category: &PromiseProcessCategory,
    ) -> RecorderResult<Vec<Promise>>;

    fn update_process_by_identifier_category(
        &mut self,
        process: &String,
        identifier: &PromiseIdentifier,
        category: &PromiseProcessCategory,
    ) -> RecorderResult<()>;

    fn update_status_by_identifier(
        &mut self,
        status: &PromiseProcessStatus,
        identifier: &PromiseIdentifier,
    ) -> RecorderResult<()>;

    fn update_one_total_runs_by_identifier(&mut self, identifier: &PromiseIdentifier)
        -> RecorderResult<()>;
}

impl Interface for Recorder<Promise> {
    /// Appends the promise; refused when its identifier is taken.
    fn insert(&mut self, item: &Promise) -> (r: RecorderResult<()>)
        ensures
            r is Ok <==> !has_promise_with_identifier(old(self)@, item@.identifier),
            r is Ok ==> final(self)@ == old(self)@.push(item@),
            r is Err ==> final(self)@ == old(self)@,
    {
        let mut i: usize = 0;
        let n = self.items.len();
        while i < n
            invariant
                0 <= i <= n,
                n == self.items.len(),
                forall|j: int| 0 <= j < i ==> self@[j].identifier != item@.identifier,
            decreases n - i,
        {
            if self.items[i].identifier.eq(&item.identifier) {
                proof {
                    assert(0 <= i < self@.len() && self@[i as int].identifier == item@.identifier);
                }
                return Err(
                    RecorderError::Sqlite(String::from_str("UNIQUE constraint failed: Promise")),
                );
            }
            i += 1;
        }
        self.items.push(item.clone());
        proof {
            assert(self@ =~= old(self)@.push(item@));
        }
        Ok(())
    }

    /// Hands out every promise, in insertion order.
    fn select_all(&self) -> (r: RecorderResult<Vec<Promise>>)
        ensures
            r matches Ok(v) && views_of(v@) == self@,
    {
        let mut out: Vec<Promise> = Vec::new();
        let mut i: usize = 0;
        let n = self.items.len();
        while i < n
            invariant
                0 <= i <= n,
                n == self.items.len(),
                out@.len() == i,
                forall|k: int| 0 <= k < i ==> out@[k]@ == self@[k],
            decreases n - i,
        {
            out.push(self.items[i].clone());
            i += 1;
        }
        proof {
            assert(views_of(out@) =~= self@);
        }
        Ok(out)
    }

    /// Hands out every promise carrying `status`, in insertion order.
    fn select_all_by_status(&self, status: &PromiseProcessStatus) -> (r: RecorderResult<
        Vec<Promise>,
    >)
        ensures
            r matches Ok(v) && views_of(v@) == self@.filter(promise_with_status_pred(*status)),
    {
        let mut out: Vec<Promise> = Vec::new();
        let mut i: usize = 0;
        let n = self.items.len();
        while i < n
            invariant
                0 <= i <= n,
                n == self.items.len(),
                views_of(out@) =~= self@.take(i as int).filter(promise_with_status_pred(*status)),
            decreases n - i,
        {
            proof {
                assert(self@.take(i as int + 1) =~= self@.take(i as int).push(self@[i as int]));
                self@.take(i as int).lemma_filter_push(
                    self@[i as int],
                    promise_with_status_pred(*status),
                );
                assert(promise_with_status_pred(*status)(self@[i as int]) == (self@[
                    i as int
                ].status == *status));
            }
            let ghost prev = out@;
            if self.items[i].status == *status {
                out.push(self.items[i].clone());
                proof {
                    assert(views_of(out@) =~= views_of(prev).push(self@[i as int]));
                }
            }
            i += 1;
        }
        proof {
            assert(self@.take(n as int) =~= self@);
        }
        Ok(out)
    }

    /// Hands out the first promise carrying the identifier; `None` exactly
    /// when there is none.
    fn select_one_by_identifier(&self, identifier: &PromiseIdentifier) -> (r: RecorderResult<
        Option<Promise>,
    >)
        ensures
            r matches Ok(o) && (o is Some <==> has_promise_with_identifier(self@, identifier@)),
            r matches Ok(Some(p)) ==> exists|j: int|
                0 <= j < self@.len() && p@ == self@[j] && self@[j].identifier == identifier@,
    {
        let mut i: usize = 0;
        let n = self.items.len();
        while i < n
            invariant
                0 <= i <= n,
                n == self.items.len(),
                forall|k: int| 0 <= k < i ==> self@[k].identifier != identifier@,
            decreases n - i,
        {
            if self.items[i].identifier.eq(identifier) {
                let found = self.items[i].clone();
                proof {
                    assert(0 <= i < self@.len() && found@ == self@[i as int] && self@[
                        i as int
                    ].identifier == identifier@);
                }
                return Ok(Some(found));
            }
            i += 1;
        }
        Ok(None)
    }

    /// Hands out the first promise carrying the identifier that belongs to
    /// `owner`; `None` exactly when there is none.
    fn select_one_by_identifier_owner(
        &self,
        identifier: &PromiseIdentifier,
        owner: &PersonIdentifier,
    ) -> (r: RecorderResult<Option<Promise>>)
        ensures
            r matches Ok(o) && (o is Some <==> exists|j: int|
                0 <= j < self@.len() && self@[j].identifier == identifier@ && self@[j].owner
                    == owner@),
            r matches Ok(Some(p)) ==> exists|j: int|
                0 <= j < self@.len() && p@ == self@[j] && self@[j].identifier == identifier@
                    && self@[j].owner == owner@,
    {
        let mut i: usize = 0;
        let n = self.items.len();
        while i < n
            invariant
                0 <= i <= n,
                n == self.items.len(),
                forall|k: int|
                    0 <= k < i ==> !(self@[k].identifier == identifier@ && self@[k].owner
                        == owner@),
            decreases n - i,
        {
            if self.items[i].identifier.eq(identifier) && self.items[i].owner.eq(owner) {
                let found = self.items[i].clone();
                proof {
                    assert(0 <= i < self@.len() && found@ == self@[i as int] && self@[
                        i as int
                    ].identifier == identifier@ && self@[i as int].owner == owner@);
                }
                return Ok(Some(found));
            }
            i += 1;
        }
        Ok(None)
    }

    /// Hands out the first promise carrying the identifier that belongs to
    /// `owner` under `category`; `None` exactly when there is none.
    fn select_one_by_identifier_owner_category(
        &self,
        identifier: &PromiseIdentifier,
        owner: &PersonIdentifier,
        category: &PromiseProcessCategory,
    ) -> (r: RecorderResult<Option<Promise>>)
        ensures
            r matches Ok(o) && (o is Some <==> exists|j: int|
                0 <= j < self@.len() && self@[j].identifier == identifier@ && self@[j].owner
                    == owner@ && self@[j].category == *category),
            r matches Ok(Some(p)) ==> exists|j: int|
                0 <= j < self@.len() && p@ == self@[j] && self@[j].identifier == identifier@
                    && self@[j].owner == owner@ && self@[j].category == *category,
    {
        let mut i: usize = 0;
        let n = self.items.len();
        while i < n
            invariant
                0 <= i <= n,
                n == self.items.len(),
                forall|k: int|
                    0 <= k < i ==> !(self@[k].identifier == identifier@ && self@[k].owner == owner@
                        && self@[k].category == *category),
            decreases n - i,
        {
            if self.items[i].identifier.eq(identifier) && self.items[i].owner.eq(owner)
                && self.items[i].category == *category {
                let found = self.items[i].clone();
                proof {
                    assert(0 <= i < self@.len() && found@ == self@[i as int] && self@[
                        i as int
                    ].identifier == identifier@ && self@[i as int].owner == owner@ && self@[
                        i as int
                    ].category == *category);
                }
                return Ok(Some(found));
            }
            i += 1;
        }
        Ok(None)
    }

    /// Hands out every promise of `owner` under `category`, in insertion
    /// order.
    fn select_all_by_owner_category(
        &self,
        owner: &PersonIdentifier,
        category: &PromiseProcessCategory,
    ) -> (r: RecorderResult<Vec<Promise>>)
        ensures
            r matches Ok(v) && views_of(v@) == self@.filter(
                promise_owned_by_category(owner@, *category),
            ),
    {
        let mut out: Vec<Promise> = Vec::new();
        let mut i: usize = 0;
        let n = self.items.len();
        while i < n
            invariant
                0 <= i <= n,
                n == self.items.len(),
                views_of(out@) =~= self@.take(i as int).filter(
                    promise_owned_by_category(owner@, *category),
                ),
            decreases n - i,
        {
            proof {
                assert(self@.take(i as int + 1) =~= self@.take(i as int).push(self@[i as int]));
                self@.take(i as int).lemma_filter_push(
                    self@[i as int],
                    promise_owned_by_category(owner@, *category),
                );
                assert(promise_owned_by_category(owner@, *category)(self@[i as int]) == (self@[
                    i as int
                ].owner == owner@ && self@[i as int].category == *category));
            }
            let ghost prev = out@;
            if self.items[i].owner.eq(owner) && self.items[i].category == *category {
                out.push(self.items[i].clone());
                proof {
                    assert(views_of(out@) =~= views_of(prev).push(self@[i as int]));
                }
            }
            i += 1;
        }
        proof {
            assert(self@.take(n as int) =~= self@);
        }
        Ok(out)
    }

    /// Replaces the serialized configuration of every promise carrying the
    /// identifier under `category`.
    fn update_process_by_identifier_category(
        &mut self,
        process: &String,
        identifier: &PromiseIdentifier,
        category: &PromiseProcessCategory,
    ) -> (r: RecorderResult<()>)
        ensures
            r is Ok,
            final(self)@ == promises_process_updated(old(self)@, process@, identifier@, *category),
    {
        let n = self.items.len();
        let mut out: Vec<Promise> = Vec::new();
        let mut i: usize = 0;
        while i < n
            invariant
                0 <= i <= n,
                n == self.items.len(),
                self@ == old(self)@,
                out@.len() == i,
                forall|j: int|
                    0 <= j < i ==> out@[j]@ == promises_process_updated(
                        old(self)@,
                        process@,
                        identifier@,
                        *category,
                    )[j],
            decreases n - i,
        {
            let mut item = self.items[i].clone();
            if item.identifier.eq(identifier) && item.category == *category {
                item.process = process.clone();
            }
            proof {
                assert(item@ == promises_process_updated(
                    old(self)@,
                    process@,
                    identifier@,
                    *category,
                )[i as int]);
            }
            out.push(item);
            i += 1;
        }
        self.items = out;
        proof {
            assert(self@ =~= promises_process_updated(
                old(self)@,
                process@,
                identifier@,
                *category,
            ));
        }
        Ok(())
    }

    /// Replaces the status of every promise carrying the identifier.
    fn update_status_by_identifier(
        &mut self,
        status: &PromiseProcessStatus,
        identifier: &PromiseIdentifier,
    ) -> (r: RecorderResult<()>)
        ensures
            r is Ok,
            final(self)@ == promises_status_updated(old(self)@, identifier@, *status),
    {
        let n = self.items.len();
        let mut out: Vec<Promise> = Vec::new();
        let mut i: usize = 0;
        while i < n
            invariant
                0 <= i <= n,
                n == self.items.len(),
                self@ == old(self)@,
                out@.len() == i,
                forall|j: int|
                    0 <= j < i ==> out@[j]@ == promises_status_updated(
                        old(self)@,
                        identifier@,
                        *status,
                    )[j],
            decreases n - i,
        {
            let mut item = self.items[i].clone();
            if item.identifier.eq(identifier) {
                item.status = *status;
            }
            proof {
                assert(item@ == promises_status_updated(old(self)@, identifier@, *status)[i as int]);
            }
            out.push(item);
            i += 1;
        }
        self.items = out;
        proof {
            assert(self@ =~= promises_status_updated(old(self)@, identifier@, *status));
        }
        Ok(())
    }

    /// Counts one more completed invocation on every promise carrying the
    /// identifier; refused, with nothing changed, when some matching counter
    /// cannot grow any further.
    fn update_one_total_runs_by_identifier(&mut self, identifier: &PromiseIdentifier) -> (r:
        RecorderResult<()>)
        ensures
            r is Ok <==> (forall|j: int|
                0 <= j < old(self)@.len() && old(self)@[j].identifier == identifier@ ==> old(self)@[j].total_runs < u64::MAX),
            r is Ok ==> final(self)@ == promises_run_counted(old(self)@, identifier@),
            r is Err ==> final(self)@ == old(self)@,
    {
        let n = self.items.len();
        let mut i: usize = 0;
        while i < n
            invariant
                0 <= i <= n,
                n == self.items.len(),
                forall|j: int|
                    0 <= j < i && self@[j].identifier == identifier@ ==> self@[j].total_runs
                        < u64::MAX,
            decreases n - i,
        {
            if self.items[i].identifier.eq(identifier) && self.items[i].total_runs == u64::MAX {
                proof {
                    assert(0 <= i < self@.len() && self@[i as int].identifier == identifier@
                        && self@[i as int].total_runs == u64::MAX);
                }
                return Err(
                    RecorderError::Sqlite(String::from_str("total_runs overflow: Promise")),
                );
            }
            i += 1;
        }
        let mut out: Vec<Promise> = Vec::new();
        let mut i: usize = 0;
        while i < n
            invariant
                0 <= i <= n,
                n == self.items.len(),
                self@ == old(self)@,
                forall|j: int|
                    0 <= j < old(self)@.len() && old(self)@[j].identifier == identifier@ ==> old(self)@[j].total_runs < u64::MAX,
                out@.len() == i,
                forall|j: int|
                    0 <= j < i ==> out@[j]@ == promises_run_counted(old(self)@, identifier@)[j],
            decreases n - i,
        {
            let mut item = self.items[i].clone();
            if item.identifier.eq(identifier) {
                proof {
                    assert(0 <= i < old(self)@.len() && old(self)@[i as int].identifier
                        == identifier@);
                }
                item.total_runs = item.total_runs + 1;
            }
            proof {
                assert(item@ == promises_run_counted(old(self)@, identifier@)[i as int]);
            }
            out.push(item);
            i += 1;
        }
        self.items = out;
        proof {
            assert(self@ =~= promises_run_counted(old(self)@, identifier@));
        }
        Ok(())
    }
}


/// Every record of a filtered sequence comes from the sequence itself.
pub proof fn lemma_filter_elem_origin(
    s: Seq<PromiseView>,
    pred: spec_fn(PromiseView) -> bool,
    m: int,
)
    requires
        0 <= m < s.filter(pred).len(),
    ensures
        exists|i: int| 0 <= i < s.len() && s[i] == s.filter(pred)[m],
    decreases s.len(),
{
    reveal(Seq::filter);
    let dl = s.drop_last();
    if s.len() == 0 {
    } else {
        if m < dl.filter(pred).len() {
            lemma_filter_elem_origin(dl, pred, m);
            let i = choose|i: int| 0 <= i < dl.len() && dl[i] == dl.filter(pred)[m];
            assert(s[i] == s.filter(pred)[m]);
        } else {
            assert(pred(s.last()));
            assert(s.filter(pred)[m] == s.last());
            assert(s[s.len() - 1] == s.filter(pred)[m]);
        }
    }
}

/// Filtering keeps identifiers distinct.
pub proof fn lemma_promises_wf_filter(s: Seq<PromiseView>, pred: spec_fn(PromiseView) -> bool)
    requires
        promises_wf(s),
    ensures
        promises_wf(s.filter(pred)),
    decreases s.len(),
{
    reveal(Seq::filter);
    if s.len() > 0 {
        let dl = s.drop_last();
        assert(promises_wf(dl)) by {
            assert(forall|i: int| 0 <= i < dl.len() ==> dl[i] == s[i]);
        }
        lemma_promises_wf_filter(dl, pred);
        if pred(s.last()) {
            let f = dl.filter(pred).push(s.last());
            assert(s.filter(pred) == f);
            assert forall|i: int, j: int|
                0 <= i < j < f.len() implies f[i].identifier != f[j].identifier by {
                if j < f.len() - 1 {
                    assert(f[i] == dl.filter(pred)[i] && f[j] == dl.filter(pred)[j]);
                } else {
                    assert(f[j] == s.last());
                    assert(f[i] == dl.filter(pred)[i]);
                    lemma_filter_elem_origin(dl, pred, i);
                    let k = choose|k: int| 0 <= k < dl.len() && dl[k] == dl.filter(pred)[i];
                    assert(s[k] == f[i]);
                    assert(s[k].identifier != s[s.len() - 1].identifier);
                }
            }
        }
    }
}

/// The promise records after `n` completed invocations have been counted on
/// every record carrying `identifier`.
pub open spec fn promises_run_counted_n(s: Seq<PromiseView>, identifier: Seq<char>, n: nat) -> Seq<
    PromiseView,
>
    decreases n,
{
    if n == 0 {
        s
    } else {
        promises_run_counted(promises_run_counted_n(s, identifier, (n - 1) as nat), identifier)
    }
}

/// Law: after `n` completed invocations, a promise's run counter has grown
/// by exactly `n`, and nothing else about any record has changed.
pub proof fn lemma_run_count_monotonic(s: Seq<PromiseView>, identifier: Seq<char>, n: nat)
    requires
        forall|j: int|
            0 <= j < s.len() && (#[trigger] s[j]).identifier == identifier ==> s[j].total_runs + n
                <= u64::MAX,
    ensures
        promises_run_counted_n(s, identifier, n).len() == s.len(),
        forall|j: int|
            0 <= j < s.len() && (#[trigger] s[j]).identifier == identifier
                ==> promises_run_counted_n(s, identifier, n)[j] == promise_with_total_runs(
                s[j],
                (s[j].total_runs + n) as u64,
            ),
        forall|j: int|
            0 <= j < s.len() && (#[trigger] s[j]).identifier != identifier
                ==> promises_run_counted_n(s, identifier, n)[j] == s[j],
    decreases n,
{
    if n == 0 {
        assert forall|j: int|
            0 <= j < s.len() && (#[trigger] s[j]).identifier == identifier implies
            promises_run_counted_n(s, identifier, n)[j] == promise_with_total_runs(
            s[j],
            (s[j].total_runs + n) as u64,
        ) by {
            assert(promise_with_total_runs(s[j], s[j].total_runs) =~= s[j]);
        }
    } else {
        lemma_run_count_monotonic(s, identifier, (n - 1) as nat);
        let prev = promises_run_counted_n(s, identifier, (n - 1) as nat);
        assert forall|j: int|
            0 <= j < s.len() && (#[trigger] s[j]).identifier == identifier implies
            promises_run_counted_n(s, identifier, n)[j] == promise_with_total_runs(
            s[j],
            (s[j].total_runs + n) as u64,
        ) by {
            assert(prev[j] == promise_with_total_runs(s[j], (s[j].total_runs + n - 1) as u64));
            assert(promises_run_counted_n(s, identifier, n)[j] == promise_with_one_more_run(
                prev[j],
            ));
            assert(promise_with_one_more_run(prev[j]) =~= promise_with_total_runs(
                s[j],
                (s[j].total_runs + n) as u64,
            ));
        }
    }
}

/// The same promise with another run counter.
pub open spec fn promise_with_total_runs(p: PromiseView, total_runs: u64) -> PromiseView {
    PromiseView {
        identifier: p.identifier,
        owner: p.owner,
        process: p.process,
        category: p.category,
        status: p.status,
        total_runs: total_runs,
        interval: p.interval,
        timeout: p.timeout,
        max_concurrent: p.max_concurrent,
    }
}

} // verus!
