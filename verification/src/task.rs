//! Simulated tasks and their kinds.
use vstd::prelude::*;

verus! {

/// Identifier of a task.
pub type TaskId = i32;

/// What a task keeps busy. `IO` is declared before `CPU`, so the derived order
/// ranks `CPU` above `IO`, as their priorities (see [`TaskKind::priority`]) do.
#[derive(Clone, Copy, Debug, PartialEq, Eq, Hash, PartialOrd, Ord, Structural)]
pub enum TaskKind {
    IO,
    CPU,
}

impl TaskKind {
    /// The share of the system's capacity that a running task of this kind takes.
    pub open spec fn spec_load(self) -> nat {
        match self {
            TaskKind::CPU => 35,
            TaskKind::IO => 10,
        }
    }

    /// The scheduling priority of the kind: the larger, the sooner.
    pub open spec fn spec_priority(self) -> u8 {
        match self {
            TaskKind::CPU => 2,
            TaskKind::IO => 1,
        }
    }

    /// The kind whose priority is `p`, if any.
    pub open spec fn spec_from_priority(p: u8) -> Option<TaskKind> {
        if p == 2 {
            Some(TaskKind::CPU)
        } else if p == 1 {
            Some(TaskKind::IO)
        } else {
            None
        }
    }

    /// The load that a running task of this kind adds to the system.
    pub fn get_load(&self) -> (load: usize)
        ensures
            load == self.spec_load(),
    {
        match self {
            TaskKind::CPU => 35,
            TaskKind::IO => 10,
        }
    }

    /// The scheduling priority of the kind.
    pub fn priority(&self) -> (p: u8)
        ensures
            p == self.spec_priority(),
    {
        match self {
            TaskKind::CPU => 2,
            TaskKind::IO => 1,
        }
    }

    /// The kind whose priority is `p`, if any.
    pub fn from_priority(p: u8) -> (kind: Option<TaskKind>)
        ensures
            kind == Self::spec_from_priority(p),
            kind matches Some(k) ==> k.spec_priority() == p,
    {
        if p == 2 {
            Some(TaskKind::CPU)
        } else if p == 1 {
            Some(TaskKind::IO)
        } else {
            None
        }
    }
}

/// A unit of simulated work.
///
/// Points in time are nanoseconds since the Unix epoch (negative before it);
/// the duration is in nanoseconds.
#[derive(Clone, Copy, Debug, Hash, PartialEq, Eq, Structural)]
pub struct Task {
    pub id: TaskId,
    pub arrival_time: i128,
    pub kind: TaskKind,
    pub duration: u64,
    pub time_queued: i128,
}

} // verus!
