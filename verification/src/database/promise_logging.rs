use vstd::prelude::*;

use crate::database::client::{views_of, Recorder, RecorderResult};
use crate::database::person::PersonIdentifier;
use crate::database::promise::PromiseIdentifier;
use crate::time;

verus! {

/// One immutable log entry of a promise: which promise and owner it concerns,
/// its severity, its message and the moment it was recorded.
#[derive(Debug)]
pub struct PromiseLogging {
    pub promise: PromiseIdentifier,
    pub owner: PersonIdentifier,
    pub level: PromiseLoggingLevel,
    pub message: String,
    pub timestamp: i64,
}

/// The mathematical value of a `PromiseLogging`.
pub struct PromiseLoggingView {
    pub promise: Seq<char>,
    pub owner: Seq<char>,
    pub level: PromiseLoggingLevel,
    pub message: Seq<char>,
    pub timestamp: i64,
}

impl View for PromiseLogging {
    type V = PromiseLoggingView;

    open spec fn view(&self) -> PromiseLoggingView {
        PromiseLoggingView {
            promise: self.promise@,
            owner: self.owner@,
            level: self.level,
            message: self.message@,
            timestamp: self.timestamp,
        }
    }
}

impl Clone for PromiseLogging {
    fn clone(&self) -> (r: Self)
        ensures
            r@ == self@,
    {
        PromiseLogging {
            promise: self.promise.clone(),
            owner: self.owner.clone(),
            level: self.level,
            message: self.message.clone(),
            timestamp: self.timestamp,
        }
    }
}

impl PromiseLogging {
    /// An entry with the given parts, exactly as handed in.
    pub fn with_level_at(
        promise: PromiseIdentifier,
        owner: PersonIdentifier,
        level: PromiseLoggingLevel,
        message: String,
        timestamp: i64,
    ) -> (r: Self)
        ensures
            r@.promise == promise@,
            r@.owner == owner@,
            r@.level == level,
            r@.message == message@,
            r@.timestamp == timestamp,
    {
        PromiseLogging { promise, owner, level, message, timestamp }
    }

    /// An informational entry stamped with the current wall clock.
    pub fn with_info(promise: PromiseIdentifier, owner: PersonIdentifier, message: String) -> (r:
        Self)
        ensures
            r@.promise == promise@,
            r@.owner == owner@,
            r@.level is Info,
            r@.message == message@,
            -time::TIMESTAMP_MILLIS_BOUND < r@.timestamp < time::TIMESTAMP_MILLIS_BOUND,
    {
        let now = time::timestamp_millis();
        PromiseLogging { promise, owner, level: PromiseLoggingLevel::Info, message, timestamp: now }
    }

    /// An error entry stamped with the current wall clock.
    pub fn with_error(promise: PromiseIdentifier, owner: PersonIdentifier, message: String) -> (r:
        Self)
        ensures
            r@.promise == promise@,
            r@.owner == owner@,
            r@.level is Error,
            r@.message == message@,
            -time::TIMESTAMP_MILLIS_BOUND < r@.timestamp < time::TIMESTAMP_MILLIS_BOUND,
    {
        let now = time::timestamp_millis();
        PromiseLogging {
            promise,
            owner,
            level: PromiseLoggingLevel::Error,
            message,
            timestamp: now,
        }
    }
}

/// How grave a log entry is.
#[derive(Clone, Copy, Debug, PartialEq, Eq, Structural)]
pub enum PromiseLoggingLevel {
    Fatal,
    Error,
    Warn,
    Info,
    Debug,
    Trace,
}

impl PromiseLoggingLevel {
    /// The numeric code a level is stored under.
    pub fn code(&self) -> (r: u8)
        ensures
            *self is Fatal ==> r == 1,
            *self is Error ==> r == 2,
            *self is Warn ==> r == 3,
            *self is Info ==> r == 4,
            *self is Debug ==> r == 5,
            *self is Trace ==> r == 6,
    {
        match self {
            PromiseLoggingLevel::Fatal => 1,
            PromiseLoggingLevel::Error => 2,
            PromiseLoggingLevel::Warn => 3,
            PromiseLoggingLevel::Info => 4,
            PromiseLoggingLevel::Debug => 5,
            PromiseLoggingLevel::Trace => 6,
        }
    }

    /// The level a stored numeric code stands for, if any.
    pub fn from_code(code: u8) -> (r: Option<PromiseLoggingLevel>)
        ensures
            code == 1 ==> r == Some(PromiseLoggingLevel::Fatal),
            code == 2 ==> r == Some(PromiseLoggingLevel::Error),
            code == 3 ==> r == Some(PromiseLoggingLevel::Warn),
            code == 4 ==> r == Some(PromiseLoggingLevel::Info),
            code == 5 ==> r == Some(PromiseLoggingLevel::Debug),
            code == 6 ==> r == Some(PromiseLoggingLevel::Trace),
            code == 0 || code > 6 ==> r is None,
    {
        match code {
            1 => Some(PromiseLoggingLevel::Fatal),
            2 => Some(PromiseLoggingLevel::Error),
            3 => Some(PromiseLoggingLevel::Warn),
            4 => Some(PromiseLoggingLevel::Info),
            5 => Some(PromiseLoggingLevel::Debug),
            6 => Some(PromiseLoggingLevel::Trace),
            _ => None,
        }
    }
}

/// The entries that concern `promise` and `owner`.
pub open spec fn logging_for(promise: Seq<char>, owner: Seq<char>) -> spec_fn(
    PromiseLoggingView,
) -> bool {
    |p: PromiseLoggingView| p.promise == promise && p.owner == owner
}

/// The operations the log table offers.
pub trait Interface {
    fn insert(&mut self, item: &PromiseLogging) -> RecorderResult<()>;

    fn insert_by_promise_owner_level_message(
        &mut self,
        promise: &PromiseIdentifier,
        owner: &PersonIdentifier,
        level: &PromiseLoggingLevel,
        message: &String,
    ) -> RecorderResult<()>;

    fn select_all(&self) -> RecorderResult<Vec<PromiseLogging>>;

    fn select_all_by_promise_and_owner(
        &self,
        promise: &PromiseIdentifier,
        owner: &PersonIdentifier,
    ) -> RecorderResult<Vec<PromiseLogging>>;
}

impl Interface for Recorder<PromiseLogging> {
    /// Appends the entry.
    fn insert(&mut self, item: &PromiseLogging) -> (r: RecorderResult<()>)
        ensures
            r is Ok,
            final(self)@ == old(self)@.push(item@),
    {
        self.items.push(item.clone());
        proof {
            assert(self@ =~= old(self)@.push(item@));
        }
        Ok(())
    }

    /// Appends an entry built from the parts, stamped with the current wall
    /// clock.
    fn insert_by_promise_owner_level_message(
        &mut self,
        promise: &PromiseIdentifier,
        owner: &PersonIdentifier,
        level: &PromiseLoggingLevel,
        message: &String,
    ) -> (r: RecorderResult<()>)
        ensures
            r is Ok,
            final(self)@.len() == old(self)@.len() + 1,
            final(self)@.drop_last() == old(self)@,
            final(self)@.last().promise == promise@,
            final(self)@.last().owner == owner@,
            final(self)@.last().level == *level,
            final(self)@.last().message == message@,
            -time::TIMESTAMP_MILLIS_BOUND < final(self)@.last().timestamp
                < time::TIMESTAMP_MILLIS_BOUND,
    {
        let entry = PromiseLogging::with_level_at(
            promise.clone(),
            owner.clone(),
            *level,
            message.clone(),
            time::timestamp_millis(),
        );
        self.items.push(entry);
        proof {
            assert(self@ =~= old(self)@.push(self@.last()));
            assert(self@.drop_last() =~= old(self)@);
        }
        Ok(())
    }

    /// Hands out every entry, in insertion order.
    fn select_all(&self) -> (r: RecorderResult<Vec<PromiseLogging>>)
        ensures
            r matches Ok(v) && views_of(v@) == self@,
    {
        let mut out: Vec<PromiseLogging> = Vec::new();
        let mut i: usize = 0;
        let n = self.items.len();
        while i < n
            invariant
                0 <= i <= n,
                n == self.items.len(),
                out@.len() == i,
                forall|k: int| 0 <= k < i ==> out@[k]@ == self@[k],
            decreases n - i,
        {
            out.push(self.items[i].clone());
            i += 1;
        }
        proof {
            assert(views_of(out@) =~= self@);
        }
        Ok(out)
    }

    /// Hands out every entry concerning `promise` and `owner`, in insertion
    /// order.
    fn select_all_by_promise_and_owner(
        &self,
        promise: &PromiseIdentifier,
        owner: &PersonIdentifier,
    ) -> (r: RecorderResult<Vec<PromiseLogging>>)
        ensures
            r matches Ok(v) && views_of(v@) == self@.filter(logging_for(promise@, owner@)),
    {
        let mut out: Vec<PromiseLogging> = Vec::new();
        let mut i: usize = 0;
        let n = self.items.len();
        while i < n
            invariant
                0 <= i <= n,
                n == self.items.len(),
                views_of(out@) =~= self@.take(i as int).filter(logging_for(promise@, owner@)),
            decreases n - i,
        {
            proof {
                assert(self@.take(i as int + 1) =~= self@.take(i as int).push(self@[i as int]));
                self@.take(i as int).lemma_filter_push(
                    self@[i as int],
                    logging_for(promise@, owner@),
                );
                assert(logging_for(promise@, owner@)(self@[i as int]) == (self@[i as int].promise
                    == promise@ && self@[i as int].owner == owner@));
            }
            let ghost prev = out@;
            if self.items[i].promise.eq(promise) && self.items[i].owner.eq(owner) {
                out.push(self.items[i].clone());
                proof {
                    assert(views_of(out@) =~= views_of(prev).push(self@[i as int]));
                }
            }
            i += 1;
        }
        proof {
            assert(self@.take(n as int) =~= self@);
        }
        Ok(out)
    }
}

} // verus!
