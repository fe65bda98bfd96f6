use vstd::prelude::*;

use crate::database::client::views_of;
use crate::database::promise::PromiseIdentifier;
use crate::service::promise::SchedulingError;

verus! {

/// One schedulable unit of work as the scheduler sees it: which promise it
/// runs, how it is paced, and how many of its invocations are in flight.
#[derive(Debug)]
pub struct Task {
    pub identifier: PromiseIdentifier,
    /// Seconds between two starts of the unit of work.
    pub interval: u64,
    /// Seconds an invocation may take before it is abandoned.
    pub timeout: u64,
    /// How many invocations may be in flight at once.
    pub max_concurrent: usize,
    /// How many invocations are in flight now.
    pub in_flight: usize,
}

/// The mathematical value of a `Task`.
pub struct TaskView {
    pub identifier: Seq<char>,
    pub interval: u64,
    pub timeout: u64,
    pub max_concurrent: usize,
    pub in_flight: usize,
}

impl View for Task {
    type V = TaskView;

    open spec fn view(&self) -> TaskView {
        TaskView {
            identifier: self.identifier@,
            interval: self.interval,
            timeout: self.timeout,
            max_concurrent: self.max_concurrent,
            in_flight: self.in_flight,
        }
    }
}

impl Clone for Task {
    fn clone(&self) -> (r: Self)
        ensures
            r@ == self@,
    {
        Task {
            identifier: self.identifier.clone(),
            interval: self.interval,
            timeout: self.timeout,
            max_concurrent: self.max_concurrent,
            in_flight: self.in_flight,
        }
    }
}

/// A task never exceeds its concurrency cap.
pub open spec fn task_wf(t: TaskView) -> bool {
    t.in_flight <= t.max_concurrent
}

/// No two registered tasks share an identifier, and none exceeds its cap.
pub open spec fn scheduler_wf(s: Seq<TaskView>) -> bool {
    &&& forall|i: int, j: int|
        0 <= i < j < s.len() ==> s[i].identifier != s[j].identifier
    &&& forall|i: int| 0 <= i < s.len() ==> task_wf(#[trigger] s[i])
}

/// Whether some registered task carries this identifier.
pub open spec fn scheduler_has_identifier(s: Seq<TaskView>, identifier: Seq<char>) -> bool {
    exists|j: int| 0 <= j < s.len() && s[j].identifier == identifier
}

/// The tasks that do not carry `identifier`.
pub open spec fn task_not_identified(identifier: Seq<char>) -> spec_fn(TaskView) -> bool {
    |t: TaskView| t.identifier != identifier
}

/// The same task with another number of in-flight invocations.
pub open spec fn task_with_in_flight(t: TaskView, in_flight: usize) -> TaskView {
    TaskView {
        identifier: t.identifier,
        interval: t.interval,
        timeout: t.timeout,
        max_concurrent: t.max_concurrent,
        in_flight: in_flight,
    }
}

/// The model of the external scheduler: the set of registered tasks, each
/// invoked on its interval under its timeout and concurrency cap.
pub struct Scheduler {
    pub tasks: Vec<Task>,
}

impl View for Scheduler {
    type V = Seq<TaskView>;

    open spec fn view(&self) -> Seq<TaskView> {
        views_of(self.tasks@)
    }
}

impl Scheduler {
    /// A scheduler with nothing registered.
    pub fn new() -> (r: Self)
        ensures
            r@ == Seq::<TaskView>::empty(),
    {
        let r = Scheduler { tasks: Vec::new() };
        proof {
            assert(r@ =~= Seq::<TaskView>::empty());
        }
        r
    }

    /// Whether a task carrying the identifier is registered.
    pub fn contains(&self, identifier: &PromiseIdentifier) -> (r: bool)
        ensures
            r == scheduler_has_identifier(self@, identifier@),
    {
        let mut i: usize = 0;
        let n = self.tasks.len();
        while i < n
            invariant
                0 <= i <= n,
                n == self.tasks@.len(),
                forall|k: int| 0 <= k < i ==> self@[k].identifier != identifier@,
            decreases n - i,
        {
            if self.tasks[i].identifier.eq(identifier) {
                proof {
                    assert(0 <= i < self@.len() && self@[i as int].identifier == identifier@);
                }
                return true;
            }
            i += 1;
        }
        false
    }

    /// Registers the task; refused when its identifier is already
    /// registered.
    pub fn insert(&mut self, task: Task) -> (r: Result<(), SchedulingError>)
        ensures
            r is Ok <==> !scheduler_has_identifier(old(self)@, task@.identifier),
            r is Ok ==> final(self)@ == old(self)@.push(task@),
            r is Err ==> final(self)@ == old(self)@ && (r matches Err(e) && e is Pursue),
    {
        if self.contains(&task.identifier) {
            return Err(SchedulingError::Pursue(String::from_str("task already registered")));
        }
        self.tasks.push(task);
        proof {
            assert(self@ =~= old(self)@.push(self.tasks@.last()@));
        }
        Ok(())
    }

    /// Unregisters every task carrying the identifier; registering never
    /// happened is no fault.
    pub fn remove(&mut self, identifier: &PromiseIdentifier) -> (r: Result<(), SchedulingError>)
        ensures
            r is Ok,
            final(self)@ == old(self)@.filter(task_not_identified(identifier@)),
    {
        let n = self.tasks.len();
        let mut out: Vec<Task> = Vec::new();
        let mut i: usize = 0;
        while i < n
            invariant
                0 <= i <= n,
                n == self.tasks@.len(),
                self@ == old(self)@,
                views_of(out@) == self@.take(i as int).filter(task_not_identified(identifier@)),
            decreases n - i,
        {
            proof {
                assert(self@.take(i as int + 1) =~= self@.take(i as int).push(self@[i as int]));
                self@.take(i as int).lemma_filter_push(
                    self@[i as int],
                    task_not_identified(identifier@),
                );
                assert(task_not_identified(identifier@)(self@[i as int]) == (self@[
                    i as int
                ].identifier != identifier@));
            }
            let ghost prev = views_of(out@);
            if !self.tasks[i].identifier.eq(identifier) {
                out.push(self.tasks[i].clone());
                proof {
                    assert(views_of(out@) =~= prev.push(self@[i as int]));
                }
            }
            i += 1;
        }
        proof {
            assert(self@.take(n as int) =~= self@);
        }
        self.tasks = out;
        Ok(())
    }

    /// Starts one invocation of the task carrying the identifier, when it is
    /// registered and below its concurrency cap; reports whether it started.
    pub fn begin_invocation(&mut self, identifier: &PromiseIdentifier) -> (r: bool)
        requires
            scheduler_wf(old(self)@),
        ensures
            scheduler_wf(final(self)@),
            begin_invocation_post(old(self)@, final(self)@, identifier@, r),
    {
        let n = self.tasks.len();
        let mut i: usize = 0;
        while i < n
            invariant
                0 <= i <= n,
                n == self.tasks@.len(),
                self@ == old(self)@,
                scheduler_wf(old(self)@),
                forall|k: int| 0 <= k < i ==> self@[k].identifier != identifier@,
            decreases n - i,
        {
            if self.tasks[i].identifier.eq(identifier) {
                proof {
                    assert(0 <= i < self@.len() && self@[i as int].identifier == identifier@);
                    assert(forall|j: int|
                        0 <= j < self@.len() && j != i ==> self@[j].identifier != identifier@);
                    assert(task_wf(self@[i as int]));
                }
                if self.tasks[i].in_flight < self.tasks[i].max_concurrent {
                    let ghost pre = self.tasks@;
                    self.tasks[i].in_flight = self.tasks[i].in_flight + 1;
                    proof {
                        assert(forall|j: int|
                            0 <= j < pre.len() && j != i ==> self.tasks@[j] == pre[j]);
                        assert(self@[i as int] == task_with_in_flight(
                            views_of(pre)[i as int],
                            (views_of(pre)[i as int].in_flight + 1) as usize,
                        ));
                        assert(begin_invocation_post(views_of(pre), self@, identifier@, true));
                        assert(scheduler_wf(self@)) by {
                            assert(forall|j: int|
                                0 <= j < self@.len() && j != i ==> self@[j] == views_of(pre)[j]);
                            assert(forall|j: int|
                                0 <= j < self@.len() ==> (#[trigger] self@[j]).identifier
                                    == views_of(pre)[j].identifier);
                            assert(forall|j: int|
                                0 <= j < self@.len() ==> task_wf(#[trigger] self@[j]));
                        }
                    }
                    return true;
                } else {
                    return false;
                }
            }
            i += 1;
        }
        false
    }

    /// Finishes one invocation of the task carrying the identifier; nothing
    /// changes when none is registered or none is in flight.
    pub fn end_invocation(&mut self, identifier: &PromiseIdentifier)
        requires
            scheduler_wf(old(self)@),
        ensures
            scheduler_wf(final(self)@),
            end_invocation_post(old(self)@, final(self)@, identifier@),
    {
        let n = self.tasks.len();
        let mut i: usize = 0;
        while i < n
            invariant
                0 <= i <= n,
                n == self.tasks@.len(),
                self@ == old(self)@,
                scheduler_wf(old(self)@),
                forall|k: int| 0 <= k < i ==> self@[k].identifier != identifier@,
            decreases n - i,
        {
            if self.tasks[i].identifier.eq(identifier) {
                proof {
                    assert(0 <= i < self@.len() && self@[i as int].identifier == identifier@);
                    assert(forall|j: int|
                        0 <= j < self@.len() && j != i ==> self@[j].identifier != identifier@);
                    assert(task_wf(self@[i as int]));
                }
                if self.tasks[i].in_flight > 0 {
                    let ghost pre = self.tasks@;
                    self.tasks[i].in_flight = self.tasks[i].in_flight - 1;
                    proof {
                        assert(forall|j: int|
                            0 <= j < pre.len() && j != i ==> self.tasks@[j] == pre[j]);
                        assert(self@[i as int] == task_with_in_flight(
                            views_of(pre)[i as int],
                            (views_of(pre)[i as int].in_flight - 1) as usize,
                        ));
                        assert(end_invocation_post(views_of(pre), self@, identifier@));
                        assert(scheduler_wf(self@)) by {
                            assert(forall|j: int|
                                0 <= j < self@.len() && j != i ==> self@[j] == views_of(pre)[j]);
                            assert(forall|j: int|
                                0 <= j < self@.len() ==> (#[trigger] self@[j]).identifier
                                    == views_of(pre)[j].identifier);
                            assert(forall|j: int|
                                0 <= j < self@.len() ==> task_wf(#[trigger] self@[j]));
                        }
                    }
                }
                return ;
            }
            i += 1;
        }
    }
}

/// How starting an invocation changes the registered tasks: the matching
/// task below its cap gains one in-flight invocation and the start is
/// reported; a matching task at its cap, and every other task, stays as it
/// was; with no matching task nothing starts.
pub open spec fn begin_invocation_post(
    pre: Seq<TaskView>,
    post: Seq<TaskView>,
    identifier: Seq<char>,
    r: bool,
) -> bool {
    &&& post.len() == pre.len()
    &&& forall|j: int|
        0 <= j < pre.len() && (#[trigger] pre[j]).identifier != identifier ==> post[j] == pre[j]
    &&& forall|j: int|
        0 <= j < pre.len() && (#[trigger] pre[j]).identifier == identifier && pre[j].in_flight
            < pre[j].max_concurrent ==> post[j] == task_with_in_flight(
            pre[j],
            (pre[j].in_flight + 1) as usize,
        ) && r == true
    &&& forall|j: int|
        0 <= j < pre.len() && (#[trigger] pre[j]).identifier == identifier && pre[j].in_flight
            >= pre[j].max_concurrent ==> post[j] == pre[j] && r == false
    &&& !scheduler_has_identifier(pre, identifier) ==> post == pre && r == false
}

/// How finishing an invocation changes the registered tasks: the matching
/// task with something in flight loses one in-flight invocation; everything
/// else stays as it was.
pub open spec fn end_invocation_post(
    pre: Seq<TaskView>,
    post: Seq<TaskView>,
    identifier: Seq<char>,
) -> bool {
    &&& post.len() == pre.len()
    &&& forall|j: int|
        0 <= j < pre.len() && (#[trigger] pre[j]).identifier != identifier ==> post[j] == pre[j]
    &&& forall|j: int|
        0 <= j < pre.len() && (#[trigger] pre[j]).identifier == identifier && pre[j].in_flight > 0
            ==> post[j] == task_with_in_flight(pre[j], (pre[j].in_flight - 1) as usize)
    &&& forall|j: int|
        0 <= j < pre.len() && (#[trigger] pre[j]).identifier == identifier && pre[j].in_flight == 0
            ==> post[j] == pre[j]
    &&& !scheduler_has_identifier(pre, identifier) ==> post == pre
}

/// Law: in a well-formed scheduler no task ever has more invocations in
/// flight than its concurrency cap allows.
pub proof fn lemma_concurrency_bound(s: Seq<TaskView>)
    requires
        scheduler_wf(s),
    ensures
        forall|i: int| 0 <= i < s.len() ==> #[trigger] s[i].in_flight <= s[i].max_concurrent,
{
}

} // verus!
