use vstd::prelude::*;

use crate::database::client::{Recorder, RecorderError};
use crate::database::person::PersonIdentifier;
use crate::database::promise::PromiseIdentifier;
use crate::database::promise_logging::{Interface, PromiseLogging, PromiseLoggingLevel};
use crate::time;

verus! {

/// How many log events one channel holds before senders must wait.
pub const LOGGING_CHANNEL_CAPACITY: usize = 8;

/// How many seconds a sender waits on a full channel before the send fails
/// loudly.
pub const LOGGING_SEND_TIMEOUT: u64 = 5;

/// One log event on its way to the store: a severity and a message.
#[derive(Debug)]
pub struct LogEvent {
    pub level: PromiseLoggingLevel,
    pub message: String,
}

/// The mathematical value of a `LogEvent`.
pub struct LogEventView {
    pub level: PromiseLoggingLevel,
    pub message: Seq<char>,
}

impl View for LogEvent {
    type V = LogEventView;

    open spec fn view(&self) -> LogEventView {
        LogEventView { level: self.level, message: self.message@ }
    }
}

impl Clone for LogEvent {
    fn clone(&self) -> (r: Self)
        ensures
            r@ == self@,
    {
        LogEvent { level: self.level, message: self.message.clone() }
    }
}

/// Why a send did not go through: the channel stayed full for the whole
/// bounded wait, or it was already closed.
#[derive(Clone, Copy, Debug, PartialEq, Eq, Structural)]
pub enum LogSendError {
    Full,
    Closed,
}

/// The bounded channel that decouples log production inside a task's body
/// from log persistence: producers send events, a drain loop hands them to
/// the store in order.
#[derive(Debug)]
pub struct LogChannel {
    pub entries: Vec<LogEvent>,
    pub capacity: usize,
    pub closed: bool,
}

/// The channel never holds more events than its capacity.
pub open spec fn channel_wf(c: &LogChannel) -> bool {
    c.entries@.len() <= c.capacity
}

impl LogChannel {
    /// An open, empty channel of the given capacity.
    pub fn new(capacity: usize) -> (r: Self)
        ensures
            r.entries@.len() == 0,
            r.capacity == capacity,
            r.closed == false,
            channel_wf(&r),
    {
        LogChannel { entries: Vec::new(), capacity, closed: false }
    }

    /// Queues the event at the back. On a closed channel, or on one that is
    /// full after the bounded wait, the send fails and nothing changes.
    pub fn send(&mut self, event: LogEvent) -> (r: Result<(), LogSendError>)
        requires
            channel_wf(old(self)),
        ensures
            channel_wf(final(self)),
            old(self).closed ==> (r == Err::<(), LogSendError>(LogSendError::Closed) && *final(self)
                == *old(self)),
            !old(self).closed && old(self).entries@.len() >= old(self).capacity ==> (r == Err::<
                (),
                LogSendError,
            >(LogSendError::Full) && *final(self) == *old(self)),
            !old(self).closed && old(self).entries@.len() < old(self).capacity ==> (r == Ok::<
                (),
                LogSendError,
            >(()) && final(self).entries@ == old(self).entries@.push(event) && final(self).capacity
                == old(self).capacity && final(self).closed == false),
    {
        if self.closed {
            return Err(LogSendError::Closed);
        }
        if self.entries.len() >= self.capacity {
            return Err(LogSendError::Full);
        }
        self.entries.push(event);
        Ok(())
    }

    /// Takes the oldest queued event, if any.
    pub fn recv(&mut self) -> (r: Option<LogEvent>)
        ensures
            final(self).capacity == old(self).capacity,
            final(self).closed == old(self).closed,
            old(self).entries@.len() == 0 ==> r is None && *final(self) == *old(self),
            old(self).entries@.len() > 0 ==> (r matches Some(e) && e == old(self).entries@[0]
                && final(self).entries@ == old(self).entries@.skip(1)),
    {
        if self.entries.len() == 0 {
            return None;
        }
        let e = self.entries.remove(0);
        proof {
            assert(self.entries@ =~= old(self).entries@.skip(1));
        }
        Some(e)
    }

    /// Closes the channel: later sends fail, queued events stay drainable.
    pub fn close(&mut self)
        ensures
            final(self).closed == true,
            final(self).entries@ == old(self).entries@,
            final(self).capacity == old(self).capacity,
    {
        self.closed = true;
    }

    /// Drains every queued event into the store, in order, as log rows of
    /// the given promise and owner, each stamped with the wall clock at the
    /// moment it is written.
    pub fn drain_into(
        &mut self,
        store: &mut Recorder<PromiseLogging>,
        promise: &PromiseIdentifier,
        owner: &PersonIdentifier,
    ) -> (r: Result<(), RecorderError>)
        ensures
            r is Ok,
            final(self).entries@.len() == 0,
            final(self).capacity == old(self).capacity,
            final(self).closed == old(self).closed,
            final(store)@.len() == old(store)@.len() + old(self).entries@.len(),
            forall|k: int| 0 <= k < old(store)@.len() ==> final(store)@[k] == old(store)@[k],
            forall|k: int|
                0 <= k < old(self).entries@.len() ==> {
                    let row = #[trigger] final(store)@[old(store)@.len() + k];
                    &&& row.promise == promise@
                    &&& row.owner == owner@
                    &&& row.level == old(self).entries@[k]@.level
                    &&& row.message == old(self).entries@[k]@.message
                    &&& -time::TIMESTAMP_MILLIS_BOUND < row.timestamp
                        < time::TIMESTAMP_MILLIS_BOUND
                },
    {
        let total = self.entries.len();
        let mut done: usize = 0;
        loop
            invariant
                total == old(self).entries@.len(),
                0 <= done <= old(self).entries@.len(),
                self.entries@ == old(self).entries@.skip(done as int),
                self.capacity == old(self).capacity,
                self.closed == old(self).closed,
                store@.len() == old(store)@.len() + done,
                forall|k: int| 0 <= k < old(store)@.len() ==> store@[k] == old(store)@[k],
                forall|k: int|
                    0 <= k < done ==> {
                        let row = #[trigger] store@[old(store)@.len() + k];
                        &&& row.promise == promise@
                        &&& row.owner == owner@
                        &&& row.level == old(self).entries@[k]@.level
                        &&& row.message == old(self).entries@[k]@.message
                        &&& -time::TIMESTAMP_MILLIS_BOUND < row.timestamp
                            < time::TIMESTAMP_MILLIS_BOUND
                    },
            decreases self.entries@.len(),
        {
            let next = self.recv();
            match next {
                None => {
                    proof {
                        assert(old(self).entries@.skip(done as int).len() == 0);
                        assert(done == old(self).entries@.len());
                    }
                    return Ok(());
                },
                Some(event) => {
                    proof {
                        assert(event@ == old(self).entries@[done as int]@);
                        assert(old(self).entries@.skip(done as int).skip(1) =~= old(self).entries@.skip(done as int + 1));
                    }
                    let insert_result = store.insert_by_promise_owner_level_message(
                        promise,
                        owner,
                        &event.level,
                        &event.message,
                    );
                    match insert_result {
                        Ok(()) => {},
                        Err(e) => {
                            return Err(e);
                        },
                    }
                    proof {
                        assert(store@.drop_last() == store@.take(store@.len() - 1));
                        assert(forall|k: int|
                            0 <= k < store@.len() - 1 ==> store@[k] == store@.drop_last()[k]);
                    }
                    done = done + 1;
                },
            }
        }
    }
}

} // verus!
