//! The shared system load: the sum of the loads of the tasks that are running.
use vstd::prelude::*;
use crate::task::TaskKind;

verus! {

/// The capacity of the system: a task is dispatched only while the load,
/// with the task's own load added, stays at or below it.
pub const MAX_LOAD: usize = 100;

/// Whether a task of `kind` fits beside a running load of `load`.
pub open spec fn fits(load: int, kind: TaskKind) -> bool {
    load + kind.spec_load() <= MAX_LOAD
}

/// The load after a task of `kind` is dispatched.
pub open spec fn dispatched(load: int, kind: TaskKind) -> int {
    load + kind.spec_load()
}

/// The load after a task of `kind` has run.
pub open spec fn finished(load: int, kind: TaskKind) -> int {
    load - kind.spec_load()
}

/// The total load of a collection of running tasks, given by their kinds.
pub open spec fn in_flight_load(kinds: Seq<TaskKind>) -> int
    decreases kinds.len(),
{
    if kinds.len() == 0 {
        0
    } else {
        in_flight_load(kinds.drop_last()) + kinds.last().spec_load()
    }
}

/// The shared load counter. Besides the load it keeps, as ghost state, the
/// kinds of the tasks dispatched and not yet released, and whether every
/// release so far was that of such a task. While that holds, the load is
/// exactly the load of those tasks.
pub struct LoadCounter {
    load: usize,
    running: Ghost<Seq<TaskKind>>,
    exact: Ghost<bool>,
}

impl LoadCounter {
    /// The load stays within the capacity and, while every release matched a
    /// running task, equals the load of the running tasks.
    #[verifier::type_invariant]
    closed spec fn wf(&self) -> bool {
        &&& self.load <= MAX_LOAD
        &&& self.exact@ ==> self.load == in_flight_load(self.running@)
    }

    /// The load.
    pub closed spec fn view(&self) -> nat {
        self.load as nat
    }

    /// The kinds of the tasks dispatched and not yet released, in the order
    /// they were dispatched.
    pub closed spec fn running(&self) -> Seq<TaskKind> {
        self.running@
    }

    /// Whether every release so far was that of a running task.
    pub closed spec fn exact(&self) -> bool {
        self.exact@
    }

    /// A counter at zero with nothing running.
    pub fn new() -> (counter: Self)
        ensures
            counter@ == 0,
            counter.running() == Seq::<TaskKind>::empty(),
            counter.exact(),
    {
        LoadCounter { load: 0, running: Ghost(Seq::empty()), exact: Ghost(true) }
    }

    /// The current load: never above the capacity, and the load of the running
    /// tasks while every release matched one of them.
    pub fn value(&self) -> (v: usize)
        ensures
            v == self@,
            v <= MAX_LOAD,
            self.exact() ==> v == in_flight_load(self.running()),
    {
        proof {
            use_type_invariant(self);
        }
        self.load
    }

    /// Dispatches a task of `kind` if it fits: adds its load and says so, or
    /// leaves the counter as it is and says that the task has to wait.
    pub fn try_dispatch(&mut self, kind: TaskKind) -> (dispatched_now: bool)
        ensures
            dispatched_now == fits(old(self)@ as int, kind),
            dispatched_now ==> {
                &&& final(self)@ == dispatched(old(self)@ as int, kind)
                &&& final(self).running() == old(self).running().push(kind)
                &&& final(self).exact() == old(self).exact()
            },
            !dispatched_now ==> *final(self) == *old(self),
    {
        proof {
            use_type_invariant(&*self);
        }
        if self.load + kind.get_load() <= MAX_LOAD {
            proof {
                lemma_dispatch_adds_to_in_flight(self.running@, kind);
            }
            *self = LoadCounter {
                load: self.load + kind.get_load(),
                running: Ghost(self.running@.push(kind)),
                exact: Ghost(self.exact@),
            };
            true
        } else {
            false
        }
    }

    /// Takes the load of a task of `kind` off the counter, whenever the load is
    /// at least that; otherwise leaves the counter as it is and says so. When a
    /// task of that kind is running, one of them stops counting as running;
    /// otherwise the record of running tasks is no longer exact.
    pub fn release(&mut self, kind: TaskKind) -> (released: bool)
        ensures
            released == (old(self)@ >= kind.spec_load()),
            released ==> final(self)@ == finished(old(self)@ as int, kind),
            released && old(self).running().contains(kind) ==> {
                &&& exists|i: int|
                    0 <= i < old(self).running().len() && old(self).running()[i] == kind
                        && final(self).running() == old(self).running().remove(i)
                &&& final(self).exact() == old(self).exact()
            },
            released && !old(self).running().contains(kind) ==> {
                &&& final(self).running() == old(self).running()
                &&& !final(self).exact()
            },
            !released ==> *final(self) == *old(self),
    {
        proof {
            use_type_invariant(&*self);
        }
        if self.load < kind.get_load() {
            return false;
        }
        let ghost is_running = self.running@.contains(kind);
        let ghost i: int = if is_running {
            choose|i: int| 0 <= i < self.running@.len() && self.running@[i] == kind
        } else {
            0
        };
        let ghost running = if is_running { self.running@.remove(i) } else { self.running@ };
        let ghost exact = self.exact@ && is_running;
        proof {
            if is_running {
                lemma_finish_removes_from_in_flight(self.running@, i);
            }
        }
        *self = LoadCounter {
            load: self.load - kind.get_load(),
            running: Ghost(running),
            exact: Ghost(exact),
        };
        proof {
            if is_running {
                assert(0 <= i < old(self).running().len() && old(self).running()[i] == kind
                    && self.running() == old(self).running().remove(i));
            }
        }
        true
    }
}

/// A task that fits and then runs leaves the load as it found it.
pub proof fn lemma_finish_undoes_dispatch(load: int, kind: TaskKind)
    requires
        fits(load, kind),
    ensures
        finished(dispatched(load, kind), kind) == load,
        dispatched(load, kind) <= MAX_LOAD,
{
}

/// Dispatching one more task adds its load to the load of the running tasks.
pub proof fn lemma_dispatch_adds_to_in_flight(kinds: Seq<TaskKind>, kind: TaskKind)
    ensures
        in_flight_load(kinds.push(kind)) == dispatched(in_flight_load(kinds), kind),
{
    assert(kinds.push(kind).drop_last() =~= kinds);
}

/// The load of the running tasks is never negative.
pub proof fn lemma_in_flight_nonnegative(kinds: Seq<TaskKind>)
    ensures
        in_flight_load(kinds) >= 0,
    decreases kinds.len(),
{
    if kinds.len() > 0 {
        lemma_in_flight_nonnegative(kinds.drop_last());
    }
}

/// Any running task, whichever finishes first, leaves behind the load of the
/// others; and its own load never exceeds the load of all of them.
pub proof fn lemma_finish_removes_from_in_flight(kinds: Seq<TaskKind>, i: int)
    requires
        0 <= i < kinds.len(),
    ensures
        in_flight_load(kinds.remove(i)) == finished(in_flight_load(kinds), kinds[i]),
        kinds[i].spec_load() <= in_flight_load(kinds),
    decreases kinds.len(),
{
    lemma_in_flight_nonnegative(kinds.remove(i));
    if i == kinds.len() - 1 {
        assert(kinds.remove(i) =~= kinds.drop_last());
    } else {
        let rest = kinds.drop_last();
        lemma_finish_removes_from_in_flight(rest, i);
        assert(kinds.remove(i).drop_last() =~= rest.remove(i));
        assert(kinds.remove(i).last() == kinds.last());
    }
}

/// The load never exceeds the capacity: starting within it, a dispatch that
/// fits keeps the running load within it.
pub proof fn lemma_dispatch_stays_capped(kinds: Seq<TaskKind>, kind: TaskKind)
    requires
        0 <= in_flight_load(kinds) <= MAX_LOAD,
        fits(in_flight_load(kinds), kind),
    ensures
        0 <= in_flight_load(kinds.push(kind)) <= MAX_LOAD,
{
    lemma_dispatch_adds_to_in_flight(kinds, kind);
}

/// Nor does it fall below zero: starting within the capacity, the end of any
/// running task keeps the running load within it.
pub proof fn lemma_finish_stays_capped(kinds: Seq<TaskKind>, i: int)
    requires
        0 <= in_flight_load(kinds) <= MAX_LOAD,
        0 <= i < kinds.len(),
    ensures
        0 <= in_flight_load(kinds.remove(i)) <= MAX_LOAD,
{
    lemma_finish_removes_from_in_flight(kinds, i);
}

} // verus!
