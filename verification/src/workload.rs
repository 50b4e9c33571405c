//! The benchmark workload: tasks of random kinds, one every 20 ms, drawn from a
//! seeded generator; which task is due for dispatch; and the average load.
use vstd::prelude::*;
use rand::distr::weighted::WeightedIndex;
use crate::draws::{Draw, DrawSource};
use crate::task::{Task, TaskKind};

verus! {

/// Why weights of task kinds were refused.
#[derive(Clone, Copy, Debug, PartialEq, Eq, Structural)]
pub enum WeightError {
    /// No weights were given.
    InvalidInput,
    /// A weight is negative.
    InvalidWeight,
    /// Every weight is zero.
    InsufficientNonZero,
    /// The weights add up to more than an `i32` holds.
    Overflow,
    /// An error that this version of the sampler does not name.
    Other,
}

/// The error that `WeightedIndex::new` gives for the weights `[cpu, io]`, if any.
pub open spec fn weight_error(cpu: i32, io: i32) -> Option<WeightError> {
    if cpu < 0 || io < 0 {
        Some(WeightError::InvalidWeight)
    } else if cpu + io > i32::MAX {
        Some(WeightError::Overflow)
    } else if cpu + io == 0 {
        Some(WeightError::InsufficientNonZero)
    } else {
        None
    }
}

/// `WeightedIndex::new(&[cpu, io])`, for its verdict on the weights: refuses a
/// negative weight, a sum that overflows and a zero sum, in that order, and
/// accepts everything else.
#[verifier::external_body]
fn check_weights(cpu: i32, io: i32) -> (r: Result<(), WeightError>)
    ensures
        match weight_error(cpu, io) {
            Some(e) => r == Err::<(), WeightError>(e),
            None => r == Ok::<(), WeightError>(()),
        },
{
    match WeightedIndex::new(&[cpu, io]) {
        Ok(_) => Ok(()),
        Err(rand::distr::weighted::Error::InvalidInput) => Err(WeightError::InvalidInput),
        Err(rand::distr::weighted::Error::InvalidWeight) => Err(WeightError::InvalidWeight),
        Err(rand::distr::weighted::Error::InsufficientNonZero) => Err(WeightError::InsufficientNonZero),
        Err(rand::distr::weighted::Error::Overflow) => Err(WeightError::Overflow),
        Err(_) => Err(WeightError::Other),
    }
}

/// The seed of the workload's generator.
pub const SEED: u64 = 123456;

/// One millisecond, in nanoseconds.
pub const MILLI: u64 = 1_000_000;

/// The duration of every task when durations are uniform: 200 ms.
pub const UNIFORM_TASK_DURATION: u64 = 200_000_000;

/// The time between the arrivals of two consecutive tasks: 20 ms.
pub const ARRIVAL_SPACING: i128 = 20_000_000;

/// The arrival time of the task with identifier `id`.
pub open spec fn arrival_of(arrival_time_0: i128, id: int) -> int {
    arrival_time_0 + ARRIVAL_SPACING * (id - 1)
}

/// What holds of the task generated with identifier `id`, whatever the
/// generator produced.
pub open spec fn generated_task(
    task: Task,
    id: int,
    cpu: i32,
    io: i32,
    uniform: bool,
    arrival_time_0: i128,
    now: i128,
) -> bool {
    &&& task.id == id
    &&& task.arrival_time == arrival_of(arrival_time_0, id)
    &&& task.time_queued == now
    &&& uniform ==> task.duration == UNIFORM_TASK_DURATION
    &&& !uniform ==> {
        &&& 100 * MILLI <= task.duration < 1000 * MILLI
        &&& task.duration % MILLI == 0
    }
    &&& task.kind == TaskKind::CPU ==> cpu > 0
    &&& task.kind == TaskKind::IO ==> io > 0
}

/// The task with identifier `id`, from what was drawn for it: the kind by its
/// index in `[CPU, IO]`, and, when durations are not uniform, a duration of
/// `millis` milliseconds.
pub fn make_task(
    id: i32,
    kind_index: usize,
    millis: u64,
    uniform: bool,
    arrival_time_0: i128,
    now: i128,
) -> (task: Task)
    requires
        1 <= id,
        kind_index < 2,
        !uniform ==> 100 <= millis < 1000,
        arrival_time_0 + ARRIVAL_SPACING * id <= i128::MAX,
    ensures
        task.id == id,
        task.kind == (if kind_index == 0 { TaskKind::CPU } else { TaskKind::IO }),
        task.duration == (if uniform { UNIFORM_TASK_DURATION as int } else { millis * MILLI }),
        task.arrival_time == arrival_of(arrival_time_0, id as int),
        task.time_queued == now,
{
    let kind = if kind_index == 0 { TaskKind::CPU } else { TaskKind::IO };
    let duration = if uniform { UNIFORM_TASK_DURATION } else { millis * MILLI };
    let arrival_time = arrival_time_0 + ARRIVAL_SPACING * (id - 1) as i128;
    Task { id, arrival_time, kind, duration, time_queued: now }
}

/// Generates the workload: tasks `1..=total`, arriving every 20 ms from
/// `arrival_time_0`, each of a kind drawn with the weights `cpu : io` from a
/// generator seeded with `seed`, and lasting 200 ms when `uniform`, else a
/// whole number of milliseconds drawn from `100..1000`. The kind is drawn
/// before the duration, task by task. The tasks come last-arriving first, so
/// that the next one due is at the end. Refused when the weights are.
pub fn generate_tasks(
    seed: u64,
    total: i32,
    cpu: i32,
    io: i32,
    uniform: bool,
    arrival_time_0: i128,
    now: i128,
) -> (r: Result<Vec<Task>, WeightError>)
    requires
        arrival_time_0 + ARRIVAL_SPACING * total <= i128::MAX,
    ensures
        match weight_error(cpu, io) {
            Some(e) => r == Err::<Vec<Task>, WeightError>(e),
            None => r matches Ok(tasks) && {
                &&& tasks@.len() == (if total > 0 { total as int } else { 0 })
                &&& forall|i: int| 0 <= i < tasks@.len() ==> #[trigger] generated_task(
                    tasks@[i],
                    total - i,
                    cpu,
                    io,
                    uniform,
                    arrival_time_0,
                    now,
                )
            },
        },
{
    match check_weights(cpu, io) {
        Ok(()) => {},
        Err(e) => return Err(e),
    }
    let mut source = DrawSource::seeded(seed);
    let tasks = draw_workload(&mut source, total, cpu, io, uniform, arrival_time_0, now);
    Ok(tasks)
}

/// How many draws the workload makes for each task: the kind, then, unless
/// durations are uniform, the number of milliseconds.
pub open spec fn draws_per_task(uniform: bool) -> int {
    if uniform {
        1
    } else {
        2
    }
}

/// Whether `task` is what the draws from position `at` on gave: its kind is
/// CPU exactly when the kind index drawn from the weights `[cpu, io]` is 0,
/// and, unless durations are uniform, it lasts exactly the number of
/// milliseconds drawn next, from the range `100..1000`.
pub open spec fn task_drawn(draws: Seq<Draw>, at: int, task: Task, cpu: i32, io: i32, uniform: bool) -> bool {
    &&& draws[at] matches Draw::Kind { cpu: c, io: w, index } && c == cpu && w == io && (
    task.kind == TaskKind::CPU <==> index == 0)
    &&& !uniform ==> (draws[at + 1] matches Draw::Number { low, high, value } && low == 100
        && high == 1000 && task.duration == value * MILLI)
}

/// Whether the draws went from `before` to `after` in making the workload
/// `tasks`: the draws for each task, in arrival order, were appended, and
/// nothing else.
pub open spec fn drawn_workload(
    before: Seq<Draw>,
    after: Seq<Draw>,
    tasks: Seq<Task>,
    cpu: i32,
    io: i32,
    uniform: bool,
) -> bool {
    &&& after.len() == before.len() + draws_per_task(uniform) * tasks.len()
    &&& after.subrange(0, before.len() as int) == before
    &&& forall|k: int|
        0 <= k < tasks.len() ==> #[trigger] task_drawn(
            after,
            before.len() + draws_per_task(uniform) * k,
            tasks[tasks.len() - 1 - k],
            cpu,
            io,
            uniform,
        )
}

/// Draws the workload from `source`: for each task, in arrival order, a kind
/// from the weights `cpu : io`, then, unless durations are uniform, a duration
/// from `100..1000` ms; each task is made from its own draws. The tasks come
/// last-arriving first.
pub fn draw_workload(
    source: &mut DrawSource,
    total: i32,
    cpu: i32,
    io: i32,
    uniform: bool,
    arrival_time_0: i128,
    now: i128,
) -> (tasks: Vec<Task>)
    requires
        weight_error(cpu, io) is None,
        arrival_time_0 + ARRIVAL_SPACING * total <= i128::MAX,
    ensures
        tasks@.len() == (if total > 0 { total as int } else { 0 }),
        forall|i: int| 0 <= i < tasks@.len() ==> #[trigger] generated_task(
            tasks@[i],
            total - i,
            cpu,
            io,
            uniform,
            arrival_time_0,
            now,
        ),
        drawn_workload(old(source).draws(), final(source).draws(), tasks@, cpu, io, uniform),
{
    let ghost before = source.draws();
    let ghost per = draws_per_task(uniform);
    let mut in_order: Vec<Task> = Vec::new();
    let mut next: i64 = 1;
    while next <= total as i64
        invariant
            1 <= next,
            total >= 0 ==> next <= total + 1,
            total < 0 ==> next == 1,
            in_order@.len() == next - 1,
            arrival_time_0 + ARRIVAL_SPACING * total <= i128::MAX,
            weight_error(cpu, io) is None,
            per == draws_per_task(uniform),
            source.draws().len() == before.len() + per * in_order@.len(),
            source.draws().subrange(0, before.len() as int) == before,
            forall|i: int| 0 <= i < in_order@.len() ==> #[trigger] generated_task(
                in_order@[i],
                i + 1,
                cpu,
                io,
                uniform,
                arrival_time_0,
                now,
            ),
            forall|k: int| 0 <= k < in_order@.len() ==> #[trigger] task_drawn(
                source.draws(),
                before.len() + per * k,
                in_order@[k],
                cpu,
                io,
                uniform,
            ),
        decreases total + 1 - next,
    {
        let ghost draws0 = source.draws();
        let id = next as i32;
        let index = source.sample_kind(cpu, io);
        let millis = if uniform { 0 } else { source.random_number(100, 1000) };
        assert(ARRIVAL_SPACING * id <= ARRIVAL_SPACING * total) by (nonlinear_arith)
            requires
                1 <= id <= total,
        ;
        let task = make_task(id, index, millis, uniform, arrival_time_0, now);
        proof {
            let n = in_order@.len() as int;
            let draws1 = source.draws();
            assert(per * (n + 1) == per * n + per) by (nonlinear_arith);
            assert(draws1.len() == draws0.len() + per);
            assert forall|j: int| 0 <= j < draws0.len() implies draws1[j] == draws0[j] by {
                if uniform {
                    assert(draws1 == draws0.push(draws1.last()));
                } else {
                    assert(draws1 =~= draws0.push(draws1[draws0.len() as int]).push(draws1.last()));
                }
            }
            assert(draws1.subrange(0, before.len() as int) =~= before) by {
                assert forall|j: int| 0 <= j < before.len() implies draws1[j] == before[j] by {
                    assert(draws0.subrange(0, before.len() as int)[j] == before[j]);
                }
            }
            assert forall|k: int| 0 <= k < n implies #[trigger] task_drawn(
                draws1,
                before.len() + per * k,
                in_order@[k],
                cpu,
                io,
                uniform,
            ) by {
                assert(task_drawn(draws0, before.len() + per * k, in_order@[k], cpu, io, uniform));
                assert(per * k + per <= per * n) by (nonlinear_arith)
                    requires
                        0 <= k < n,
                        per >= 1,
                ;
            }
            assert(before.len() + per * n == draws0.len());
            assert(task_drawn(draws1, before.len() + per * n, task, cpu, io, uniform));
        }
        in_order.push(task);
        next = next + 1;
    }
    assert(in_order@.len() == (if total > 0 { total as int } else { 0 }));
    let mut tasks: Vec<Task> = Vec::new();
    let mut k = in_order.len();
    while k > 0
        invariant
            k <= in_order@.len(),
            tasks@.len() == in_order@.len() - k,
            forall|i: int| 0 <= i < tasks@.len() ==> #[trigger] tasks@[i] == in_order@[in_order@.len() - 1 - i],
        decreases k,
    {
        k = k - 1;
        tasks.push(in_order[k]);
    }
    proof {
        assert forall|i: int| 0 <= i < tasks@.len() implies #[trigger] generated_task(
            tasks@[i],
            total - i,
            cpu,
            io,
            uniform,
            arrival_time_0,
            now,
        ) by {
            let j = in_order@.len() - 1 - i;
            assert(tasks@[i] == in_order@[j]);
            assert(generated_task(in_order@[j], j + 1, cpu, io, uniform, arrival_time_0, now));
            assert(j + 1 == total - i);
        }
        let n = tasks@.len() as int;
        assert forall|k: int| 0 <= k < n implies #[trigger] task_drawn(
            source.draws(),
            before.len() + per * k,
            tasks@[n - 1 - k],
            cpu,
            io,
            uniform,
        ) by {
            assert(tasks@[n - 1 - k] == in_order@[k]);
        }
    }
    tasks
}

/// Every task of a drawn workload has the kind that its own draw from exactly
/// the weights `[cpu, io]` gave (CPU for index 0, IO for index 1) and, unless
/// durations are uniform, lasts exactly the number of milliseconds that its own
/// draw from exactly `100..1000` gave; distinct tasks have distinct draws.
pub proof fn lemma_tasks_follow_their_draws(
    before: Seq<Draw>,
    after: Seq<Draw>,
    tasks: Seq<Task>,
    cpu: i32,
    io: i32,
    uniform: bool,
    i: int,
) -> (at: int)
    requires
        drawn_workload(before, after, tasks, cpu, io, uniform),
        0 <= i < tasks.len(),
    ensures
        before.len() <= at,
        at + draws_per_task(uniform) <= after.len(),
        at == before.len() + draws_per_task(uniform) * (tasks.len() - 1 - i),
        after[at] matches Draw::Kind { cpu: c, io: w, index } && c == cpu && w == io
            && tasks[i].kind == (if index == 0 { TaskKind::CPU } else { TaskKind::IO }),
        !uniform ==> (after[at + 1] matches Draw::Number { low, high, value } && low == 100
            && high == 1000 && tasks[i].duration == value * MILLI),
{
    let n = tasks.len() as int;
    let k = n - 1 - i;
    let per = draws_per_task(uniform);
    let at = before.len() + per * k;
    assert(tasks[n - 1 - k] == tasks[i]);
    assert(task_drawn(after, at, tasks[n - 1 - k], cpu, io, uniform));
    assert(per * k + per <= per * n) by (nonlinear_arith)
        requires
            0 <= k < n,
            per >= 1,
    ;
    match tasks[i].kind {
        TaskKind::CPU => {},
        TaskKind::IO => {},
    }
    at
}

/// The workload comes in arrival order from the end: along the list, every
/// task arrives 20 ms after the one that follows it, so the last task of the
/// list is the first to arrive and tasks are dispatched in the order of their
/// identifiers.
pub proof fn lemma_workload_in_arrival_order(
    tasks: Seq<Task>,
    total: int,
    cpu: i32,
    io: i32,
    uniform: bool,
    arrival_time_0: i128,
    now: i128,
    i: int,
    j: int,
)
    requires
        tasks.len() == total,
        forall|k: int| 0 <= k < tasks.len() ==> #[trigger] generated_task(
            tasks[k],
            total - k,
            cpu,
            io,
            uniform,
            arrival_time_0,
            now,
        ),
        0 <= i < j < tasks.len(),
    ensures
        tasks[i].arrival_time == tasks[j].arrival_time + ARRIVAL_SPACING * (j - i),
        tasks[j].arrival_time < tasks[i].arrival_time,
        tasks[j].id < tasks[i].id,
{
    assert(generated_task(tasks[i], total - i, cpu, io, uniform, arrival_time_0, now));
    assert(generated_task(tasks[j], total - j, cpu, io, uniform, arrival_time_0, now));
    assert(ARRIVAL_SPACING * (total - i - 1) == ARRIVAL_SPACING * (total - j - 1) + ARRIVAL_SPACING * (j - i)) by (nonlinear_arith);
}

/// The task to dispatch now, if any: the last task of the list, when it has
/// arrived by `now`, stamped as queued at `now`.
pub fn next_due(tasks: &Vec<Task>, now: i128) -> (due: Option<Task>)
    ensures
        match due {
            Some(task) => {
                &&& tasks@.len() > 0
                &&& tasks@.last().arrival_time <= now
                &&& task == Task { time_queued: now, ..tasks@.last() }
            },
            None => tasks@.len() == 0 || tasks@.last().arrival_time > now,
        },
{
    if tasks.len() == 0 {
        return None;
    }
    let last = tasks[tasks.len() - 1];
    if last.arrival_time <= now {
        Some(Task { time_queued: now, ..last })
    } else {
        None
    }
}

/// The sum of a sequence of load samples.
pub open spec fn sum_of(s: Seq<usize>) -> int
    decreases s.len(),
{
    if s.len() == 0 {
        0
    } else {
        sum_of(s.drop_last()) + s.last()
    }
}

proof fn lemma_sum_of_prefix_bounded(s: Seq<usize>, i: int)
    requires
        0 <= i <= s.len(),
    ensures
        0 <= sum_of(s.take(i)) <= sum_of(s),
    decreases s.len() - i,
{
    if i < s.len() {
        lemma_sum_of_prefix_bounded(s, i + 1);
        assert(s.take(i + 1).drop_last() =~= s.take(i));
        assert(sum_of(s.take(i + 1)) == sum_of(s.take(i)) + s[i]);
        lemma_sum_of_nonnegative(s.take(i));
    } else {
        assert(s.take(i) =~= s);
        lemma_sum_of_nonnegative(s);
    }
}

proof fn lemma_sum_of_nonnegative(s: Seq<usize>)
    ensures
        sum_of(s) >= 0,
    decreases s.len(),
{
    if s.len() > 0 {
        lemma_sum_of_nonnegative(s.drop_last());
    }
}

/// The average of the load samples, rounded down.
pub fn average_load(samples: &Vec<usize>) -> (avg: usize)
    requires
        samples@.len() > 0,
        sum_of(samples@) <= usize::MAX,
    ensures
        avg == sum_of(samples@) / (samples@.len() as int),
{
    let mut sum: usize = 0;
    let mut i: usize = 0;
    while i < samples.len()
        invariant
            i <= samples@.len(),
            sum == sum_of(samples@.take(i as int)),
            sum_of(samples@) <= usize::MAX,
        decreases samples@.len() - i,
    {
        proof {
            assert(samples@.take(i + 1).drop_last() =~= samples@.take(i as int));
            lemma_sum_of_prefix_bounded(samples@, i + 1);
        }
        sum = sum + samples[i];
        i = i + 1;
    }
    assert(samples@.take(i as int) =~= samples@);
    sum / samples.len()
}

} // verus!
