//! Round-robin execution: a task runs for at most one quantum at a time and
//! goes back to the queue with what is left of its work.
use vstd::prelude::*;
use crate::task::Task;
use crate::load::{dispatched, finished, fits, LoadCounter};
use crate::task::TaskKind;

verus! {

/// The lengths of the bursts in which a task of duration `d` runs when each
/// burst lasts at most `q`: full quanta while more than a quantum is left,
/// then the rest.
pub open spec fn bursts(d: nat, q: nat) -> Seq<nat>
    decreases d,
{
    if d <= q || q == 0 {
        seq![d]
    } else {
        seq![q] + bursts((d - q) as nat, q)
    }
}

/// The sum of a sequence of burst lengths.
pub open spec fn total(s: Seq<nat>) -> nat
    decreases s.len(),
{
    if s.len() == 0 {
        0
    } else {
        s[0] + total(s.drop_first())
    }
}

/// The task as it goes back to the queue after one full quantum of work.
pub open spec fn after_quantum(task: Task, q: u64) -> Task {
    Task { duration: (task.duration - q) as u64, ..task }
}

/// What the worker does with a task handed to it: which quantum it runs, and
/// what it hands back.
#[derive(Clone, Copy, Debug, PartialEq, Eq, Structural)]
pub struct TaskMediator {
    pub quanta: u64,
}

/// A task taken by a worker, with the mediator through which it reports.
pub struct TaskHandle {
    pub task: Task,
    pub mediator: TaskMediator,
}

/// One burst of work, decided by [`TaskHandle::do_work`]: the worker runs for
/// `run_for` nanoseconds, sends `requeue` back to the queue when it is set,
/// and then takes the load of a task of kind `release` off the system, with
/// [`TaskMediator::update_load`].
pub struct Burst {
    pub run_for: u64,
    pub requeue: Option<Task>,
    pub release: TaskKind,
    pub is_last_burst: bool,
}

impl TaskMediator {
    /// A mediator whose bursts last at most `quanta` nanoseconds.
    pub fn new(quanta: u64) -> (m: Self)
        ensures
            m.quanta == quanta,
    {
        TaskMediator { quanta }
    }

    /// Turns what the task channel delivered into a handle: a task becomes a
    /// handle bound to this mediator; the end-of-work message becomes `None`.
    pub fn get_pending_task(&self, received: Option<Task>) -> (handle: Option<TaskHandle>)
        ensures
            match received {
                Some(task) => handle == Some(TaskHandle { task, mediator: *self }),
                None => handle is None,
            },
    {
        match received {
            Some(task) => Some(TaskHandle::new(task, *self)),
            None => None,
        }
    }

    /// The message that sends an unfinished task back to the queue.
    pub fn return_task(&self, task: Task) -> (message: Option<Task>)
        ensures
            message == Some(task),
    {
        Some(task)
    }

    /// Takes the load of `task`, whose burst has ended, off the shared load,
    /// whenever the load is at least that; otherwise nothing changes and the
    /// result says so. The counter's record of running tasks follows as in
    /// [`LoadCounter::release`].
    pub fn update_load(&self, load: &mut LoadCounter, task: Task) -> (released: bool)
        ensures
            released == (old(load)@ >= task.kind.spec_load()),
            released ==> final(load)@ == finished(old(load)@ as int, task.kind),
            released && old(load).running().contains(task.kind) ==> {
                &&& exists|i: int|
                    0 <= i < old(load).running().len() && old(load).running()[i] == task.kind
                        && final(load).running() == old(load).running().remove(i)
                &&& final(load).exact() == old(load).exact()
            },
            released && !old(load).running().contains(task.kind) ==> {
                &&& final(load).running() == old(load).running()
                &&& !final(load).exact()
            },
            !released ==> *final(load) == *old(load),
    {
        load.release(task.kind)
    }

    /// The longest burst, in nanoseconds.
    pub fn quanta(&self) -> (q: u64)
        ensures
            q == self.quanta,
    {
        self.quanta
    }
}

impl TaskHandle {
    pub fn new(task: Task, mediator: TaskMediator) -> (handle: Self)
        ensures
            handle.task == task,
            handle.mediator == mediator,
    {
        TaskHandle { task, mediator }
    }

    /// Decides the next burst of the task. When more than a quantum of work is
    /// left, the burst is one quantum, the task's duration shrinks by it and the
    /// task goes back to the queue; otherwise the burst is the rest of the work
    /// and it is the last one.
    pub fn do_work(&mut self) -> (burst: Burst)
        ensures
            burst.is_last_burst == (old(self).task.duration <= old(self).mediator.quanta),
            burst.release == old(self).task.kind,
            final(self).task.kind == old(self).task.kind,
            final(self).mediator == old(self).mediator,
            burst.is_last_burst ==> {
                &&& burst.run_for == old(self).task.duration
                &&& burst.requeue is None
                &&& final(self).task == old(self).task
            },
            !burst.is_last_burst ==> {
                &&& burst.run_for == old(self).mediator.quanta
                &&& final(self).task == after_quantum(old(self).task, old(self).mediator.quanta)
                &&& burst.requeue == Some(final(self).task)
            },
            old(self).mediator.quanta > 0 ==> burst.run_for == bursts(
                old(self).task.duration as nat,
                old(self).mediator.quanta as nat,
            ).first(),
            old(self).mediator.quanta > 0 ==> (burst.is_last_burst <==> bursts(
                old(self).task.duration as nat,
                old(self).mediator.quanta as nat,
            ).len() == 1),
            old(self).mediator.quanta > 0 && !burst.is_last_burst ==> bursts(
                old(self).task.duration as nat,
                old(self).mediator.quanta as nat,
            ) == seq![burst.run_for as nat] + bursts(
                final(self).task.duration as nat,
                final(self).mediator.quanta as nat,
            ),
    {
        let q = self.mediator.quanta();
        let is_last_burst = self.task.duration <= q;
        proof {
            let d = self.task.duration as nat;
            if !is_last_burst && q > 0 {
                assert(bursts(d, q as nat) == seq![q as nat] + bursts((d - q) as nat, q as nat));
                lemma_bursts_nonempty((d - q) as nat, q as nat);
            }
        }
        if !is_last_burst {
            self.task.duration = self.task.duration - q;
            let requeue = self.mediator.return_task(self.task);
            Burst { run_for: q, requeue, release: self.task.kind, is_last_burst }
        } else {
            Burst { run_for: self.task.duration, requeue: None, release: self.task.kind, is_last_burst }
        }
    }
}

/// Every burst, the last one or not, gives back the load that dispatching the
/// task added: the burst releases the task's own kind, so dispatching the task
/// and then releasing what its burst names leaves the load where it was.
pub proof fn lemma_burst_gives_back_its_load(before: int, task: Task, burst: Burst)
    requires
        fits(before, task.kind),
        burst.release == task.kind,
    ensures
        finished(dispatched(before, task.kind), burst.release) == before,
{
}

/// A task always runs in at least one burst.
pub proof fn lemma_bursts_nonempty(d: nat, q: nat)
    ensures
        bursts(d, q).len() >= 1,
    decreases d,
{
    if !(d <= q || q == 0) {
        lemma_bursts_nonempty((d - q) as nat, q);
    }
}

/// Round robin does all of a task's work and no more: with a positive quantum,
/// the bursts add up to the task's duration, none is longer than a quantum,
/// every burst but the last is a full quantum, and a task with `d > 0` runs in
/// `ceil(d / q)` bursts.
pub proof fn lemma_bursts_cover_duration(d: nat, q: nat)
    requires
        q > 0,
    ensures
        total(bursts(d, q)) == d,
        forall|i: int| 0 <= i < bursts(d, q).len() ==> #[trigger] bursts(d, q)[i] <= q,
        forall|i: int| 0 <= i < bursts(d, q).len() - 1 ==> #[trigger] bursts(d, q)[i] == q,
        d > 0 ==> bursts(d, q).len() == (d + q - 1) / (q as int),
    decreases d,
{
    let s = bursts(d, q);
    if d <= q {
        assert(s.drop_first() =~= Seq::<nat>::empty());
        assert(total(s.drop_first()) == 0);
        if d > 0 {
            assert((d + q - 1) / (q as int) == 1) by (nonlinear_arith)
                requires
                    0 < d <= q,
            ;
        }
    } else {
        let r = (d - q) as nat;
        lemma_bursts_cover_duration(r, q);
        assert(s.drop_first() =~= bursts(r, q));
        assert(total(s) == q + total(bursts(r, q)));
        assert forall|i: int| 0 <= i < s.len() implies #[trigger] s[i] <= q by {
            if i > 0 {
                assert(s[i] == bursts(r, q)[i - 1]);
            }
        }
        assert forall|i: int| 0 <= i < s.len() - 1 implies #[trigger] s[i] == q by {
            if i > 0 {
                assert(s[i] == bursts(r, q)[i - 1]);
            }
        }
        assert((d + q - 1) / (q as int) == (r + q - 1) / (q as int) + 1) by (nonlinear_arith)
            requires
                r == d - q,
                q > 0,
        ;
    }
}

} // verus!
