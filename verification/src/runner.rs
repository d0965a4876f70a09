//! The decision logic of the concurrent worker-pool runner.
//!
//! The pool itself suspends on I/O and so is driven by the (unverified)
//! binary around this library; everything the pool decides is here, as pure
//! functions and state machines: which action a worker takes after each
//! init/task outcome (retry in place, reinitialise its session, emit, or
//! stop), and how out-of-order task completions are buffered so that
//! outputs are emitted in strictly increasing task-number order.

use vstd::prelude::*;

verus! {

/// How many times a task is retried in place against the same session
/// before the session is discarded and initialisation runs again.
pub const MAX_TASK_RETRIES: usize = 5;

/// Holds the pieces a worker pool is built from: a shared read-only seed,
/// a per-worker session initialiser, the task body, and the output sink.
pub struct Runner<State, InitFn, TaskFn, OutputFn> {
    pub initial_state: State,
    pub init_fn: InitFn,
    pub task_fn: TaskFn,
    pub output_fn: OutputFn,
}

impl<State, InitFn, TaskFn, OutputFn> Runner<State, InitFn, TaskFn, OutputFn> {
    pub fn new(state: State, init_fn: InitFn, task_fn: TaskFn, output_fn: OutputFn) -> (r: Self)
        ensures
            r.initial_state == state,
            r.init_fn == init_fn,
            r.task_fn == task_fn,
            r.output_fn == output_fn,
    {
        Runner { initial_state: state, init_fn, task_fn, output_fn }
    }
}

/// A helper which returns the next item from some list each time it's asked
/// for one, cycling round the list; the shared cursor wraps on overflow.
#[derive(Debug)]
pub struct RoundRobin<T> {
    pub items: Vec<T>,
    pub idx: usize,
}

impl<T> RoundRobin<T> {
    pub fn new(items: Vec<T>) -> (r: Self)
        ensures
            r.items == items,
            r.idx == 0usize,
    {
        RoundRobin { items, idx: 0 }
    }

    pub fn get(&mut self) -> (r: &T)
        requires
            old(self).items.len() > 0,
        ensures
            final(self).items == old(self).items,
            final(self).idx == vstd::wrapping::usize_specs::wrapping_add(old(self).idx, 1),
            r == &old(self).items[old(self).idx as int % old(self).items.len() as int],
    {
        let idx = self.idx;
        self.idx = self.idx.wrapping_add(1);
        let n = idx % self.items.len();
        &self.items[n]
    }
}

/// Where one worker of the pool stands.
#[derive(Debug, PartialEq, Eq, Structural, Clone, Copy)]
pub enum WorkerMode {
    /// The worker has no session and must run the init step next.
    Initialising,
    /// The worker holds a session; `retries` counts the consecutive
    /// failures of the task it is currently attempting.
    Working { retries: usize },
    /// The worker has seen "no more work" and has exited.
    Finished,
}

/// The outcome of the init or task step a worker just ran.
#[derive(Debug, PartialEq, Eq, Structural, Clone, Copy)]
pub enum WorkerEvent {
    /// Init produced a session.
    InitDone,
    /// Init said there is no more work.
    InitEmpty,
    /// Init failed (retryable).
    InitFailed,
    /// The task produced an output.
    TaskDone,
    /// The task said there is no more work.
    TaskEmpty,
    /// The task failed (retryable).
    TaskFailed,
}

/// What the driver must do next for this worker.
#[derive(Debug, PartialEq, Eq, Structural, Clone, Copy)]
pub enum WorkerAction {
    /// Run the init step (again).
    RetryInit,
    /// Run the next task against the fresh session.
    StartTask,
    /// Send the task's output for ordered emission, then claim the next
    /// task number and run it.
    EmitAndContinue,
    /// Run the same task number again against the same session.
    RetryTask,
    /// Discard the session and run init again.
    Reinitialise,
    /// The worker exits.
    Stop,
}

/// A worker's retry counter never exceeds the ceiling.
pub open spec fn worker_mode_wf(mode: WorkerMode) -> bool {
    match mode {
        WorkerMode::Working { retries } => retries <= MAX_TASK_RETRIES,
        _ => true,
    }
}

/// The worker state machine: given where a worker stands and what its last
/// step produced, the mode it moves to and the action the driver takes.
/// A task failure is retried in place up to [`MAX_TASK_RETRIES`] times;
/// one more failure discards the session and reinitialises. Success resets
/// the retry counter; "no more work" from either step stops the worker.
pub open spec fn worker_step_spec(mode: WorkerMode, event: WorkerEvent) -> (WorkerMode, WorkerAction) {
    match (mode, event) {
        (WorkerMode::Initialising, WorkerEvent::InitDone) => (
            WorkerMode::Working { retries: 0 },
            WorkerAction::StartTask,
        ),
        (WorkerMode::Initialising, WorkerEvent::InitEmpty) => (
            WorkerMode::Finished,
            WorkerAction::Stop,
        ),
        (WorkerMode::Initialising, WorkerEvent::InitFailed) => (
            WorkerMode::Initialising,
            WorkerAction::RetryInit,
        ),
        (WorkerMode::Working { .. }, WorkerEvent::TaskDone) => (
            WorkerMode::Working { retries: 0 },
            WorkerAction::EmitAndContinue,
        ),
        (WorkerMode::Working { .. }, WorkerEvent::TaskEmpty) => (
            WorkerMode::Finished,
            WorkerAction::Stop,
        ),
        (WorkerMode::Working { retries }, WorkerEvent::TaskFailed) => {
            if retries + 1 > MAX_TASK_RETRIES {
                (WorkerMode::Initialising, WorkerAction::Reinitialise)
            } else {
                (WorkerMode::Working { retries: (retries + 1) as usize }, WorkerAction::RetryTask)
            }
        },
        // An event from a step the worker cannot have run changes nothing.
        (m, _) => (m, WorkerAction::Stop),
    }
}

/// Executable form of [`worker_step_spec`].
pub fn worker_step(mode: WorkerMode, event: WorkerEvent) -> (r: (WorkerMode, WorkerAction))
    requires
        worker_mode_wf(mode),
    ensures
        r == worker_step_spec(mode, event),
        worker_mode_wf(r.0),
{
    match (mode, event) {
        (WorkerMode::Initialising, WorkerEvent::InitDone) => (
            WorkerMode::Working { retries: 0 },
            WorkerAction::StartTask,
        ),
        (WorkerMode::Initialising, WorkerEvent::InitEmpty) => (
            WorkerMode::Finished,
            WorkerAction::Stop,
        ),
        (WorkerMode::Initialising, WorkerEvent::InitFailed) => (
            WorkerMode::Initialising,
            WorkerAction::RetryInit,
        ),
        (WorkerMode::Working { .. }, WorkerEvent::TaskDone) => (
            WorkerMode::Working { retries: 0 },
            WorkerAction::EmitAndContinue,
        ),
        (WorkerMode::Working { .. }, WorkerEvent::TaskEmpty) => (
            WorkerMode::Finished,
            WorkerAction::Stop,
        ),
        (WorkerMode::Working { retries }, WorkerEvent::TaskFailed) => {
            if retries + 1 > MAX_TASK_RETRIES {
                (WorkerMode::Initialising, WorkerAction::Reinitialise)
            } else {
                (WorkerMode::Working { retries: retries + 1 }, WorkerAction::RetryTask)
            }
        },
        (m, _) => (m, WorkerAction::Stop),
    }
}

/// [`worker_step_spec`] folded over a sequence of events, collecting the
/// actions taken along the way.
pub open spec fn worker_run_spec(mode: WorkerMode, events: Seq<WorkerEvent>) -> (
    WorkerMode,
    Seq<WorkerAction>,
)
    decreases events.len(),
{
    if events.len() == 0 {
        (mode, Seq::empty())
    } else {
        let (m1, a1) = worker_step_spec(mode, events[0]);
        let (m2, rest) = worker_run_spec(m1, events.skip(1));
        (m2, seq![a1] + rest)
    }
}

/// `k` consecutive task failures, then a success.
pub open spec fn fail_then_succeed(k: int) -> Seq<WorkerEvent> {
    Seq::new(k as nat, |i: int| WorkerEvent::TaskFailed).push(WorkerEvent::TaskDone)
}

/// Law (retry below the ceiling): a task that fails `k` times with
/// `k <= MAX_TASK_RETRIES - r` retries already used, and then succeeds, is
/// retried in place `k` times and its output emitted exactly once; the
/// session is never reinitialised and the retry counter ends at zero.
pub proof fn lemma_worker_retry_then_success(r: int, k: int)
    requires
        0 <= r,
        0 <= k,
        r + k <= MAX_TASK_RETRIES,
    ensures
        ({
            let (m, actions) = worker_run_spec(
                WorkerMode::Working { retries: r as usize },
                fail_then_succeed(k),
            );
            &&& m == WorkerMode::Working { retries: 0usize }
            &&& actions.len() == k + 1
            &&& forall|i: int| 0 <= i < k ==> actions[i] == WorkerAction::RetryTask
            &&& actions[k] == WorkerAction::EmitAndContinue
            &&& forall|i: int| 0 <= i <= k ==> actions[i] != WorkerAction::Reinitialise
        }),
    decreases k,
{
    let events = fail_then_succeed(k);
    let mode = WorkerMode::Working { retries: r as usize };
    if k == 0 {
        assert(events[0] == WorkerEvent::TaskDone);
        assert(worker_step_spec(mode, WorkerEvent::TaskDone) == (
            WorkerMode::Working { retries: 0usize },
            WorkerAction::EmitAndContinue,
        ));
        assert(events.skip(1) =~= Seq::<WorkerEvent>::empty());
        let (m2, rest) = worker_run_spec(WorkerMode::Working { retries: 0usize }, events.skip(1));
        assert(rest =~= Seq::<WorkerAction>::empty());
        assert(worker_run_spec(mode, events).1 =~= seq![WorkerAction::EmitAndContinue]);
    } else {
        assert(events[0] == WorkerEvent::TaskFailed);
        let m1 = WorkerMode::Working { retries: (r + 1) as usize };
        assert(worker_step_spec(mode, WorkerEvent::TaskFailed) == (m1, WorkerAction::RetryTask));
        assert(events.skip(1) =~= fail_then_succeed(k - 1));
        lemma_worker_retry_then_success(r + 1, k - 1);
        let (m2, rest) = worker_run_spec(m1, events.skip(1));
        let actions = worker_run_spec(mode, events).1;
        assert(actions =~= seq![WorkerAction::RetryTask] + rest);
        assert(forall|i: int| 1 <= i <= k ==> actions[i] == rest[i - 1]);
    }
}

/// Law (retry beyond the ceiling): a task that keeps failing is retried in
/// place until the ceiling is used up, and the next failure produces exactly
/// one `Reinitialise` action — one extra init call for that worker — after
/// which the worker is initialising again.
pub proof fn lemma_worker_retry_exhausted(r: int)
    requires
        0 <= r <= MAX_TASK_RETRIES,
    ensures
        ({
            let n = MAX_TASK_RETRIES - r + 1;
            let events = Seq::new(n as nat, |i: int| WorkerEvent::TaskFailed);
            let (m, actions) = worker_run_spec(WorkerMode::Working { retries: r as usize }, events);
            &&& m == WorkerMode::Initialising
            &&& actions.len() == n
            &&& forall|i: int| 0 <= i < n - 1 ==> actions[i] == WorkerAction::RetryTask
            &&& actions[n - 1] == WorkerAction::Reinitialise
        }),
    decreases MAX_TASK_RETRIES - r,
{
    let n = MAX_TASK_RETRIES - r + 1;
    let events = Seq::new(n as nat, |i: int| WorkerEvent::TaskFailed);
    let mode = WorkerMode::Working { retries: r as usize };
    assert(events[0] == WorkerEvent::TaskFailed);
    if r == MAX_TASK_RETRIES {
        assert(worker_step_spec(mode, WorkerEvent::TaskFailed) == (
            WorkerMode::Initialising,
            WorkerAction::Reinitialise,
        ));
        assert(events.skip(1) =~= Seq::<WorkerEvent>::empty());
        let (m2, rest) = worker_run_spec(WorkerMode::Initialising, events.skip(1));
        assert(rest =~= Seq::<WorkerAction>::empty());
        assert(worker_run_spec(mode, events).1 =~= seq![WorkerAction::Reinitialise]);
    } else {
        let m1 = WorkerMode::Working { retries: (r + 1) as usize };
        assert(worker_step_spec(mode, WorkerEvent::TaskFailed) == (m1, WorkerAction::RetryTask));
        let n2 = MAX_TASK_RETRIES - (r + 1) + 1;
        assert(events.skip(1) =~= Seq::new(n2 as nat, |i: int| WorkerEvent::TaskFailed));
        lemma_worker_retry_exhausted(r + 1);
        let (m2, rest) = worker_run_spec(m1, events.skip(1));
        let actions = worker_run_spec(mode, events).1;
        assert(actions =~= seq![WorkerAction::RetryTask] + rest);
        assert(forall|i: int| 1 <= i <= n - 1 ==> actions[i] == rest[i - 1]);
    }
}

// ---------------------------------------------------------------------------
// Ordered-output reassembly
// ---------------------------------------------------------------------------
/// Task numbers a buffer can hold lie strictly below this bound, so that the
/// next-to-emit counter can always move one past an emitted number.
pub open spec fn task_number_bound() -> int {
    u64::MAX as int
}

/// The keys present in a pending-output list.
pub open spec fn seq_keys<T>(s: Seq<(u64, T)>) -> Set<int> {
    Set::new(|k: int| exists|i: int| 0 <= i < s.len() && (#[trigger] s[i]).0 as int == k)
}

/// The output stored under key `k` (meaningful when `k` is present and keys
/// are distinct).
pub open spec fn seq_val<T>(s: Seq<(u64, T)>, k: int) -> T {
    let i = choose|i: int| 0 <= i < s.len() && (#[trigger] s[i]).0 as int == k;
    s[i].1
}

/// No key occurs twice.
pub open spec fn seq_keys_distinct<T>(s: Seq<(u64, T)>) -> bool {
    forall|i: int, j: int|
        0 <= i < j < s.len() ==> (#[trigger] s[i]).0 != (#[trigger] s[j]).0
}

proof fn lemma_seq_val_unique<T>(s: Seq<(u64, T)>, i: int)
    requires
        seq_keys_distinct(s),
        0 <= i < s.len(),
    ensures
        seq_keys(s).contains(s[i].0 as int),
        seq_val(s, s[i].0 as int) == s[i].1,
{
    let k = s[i].0 as int;
    assert(seq_keys(s).contains(k));
    let j = choose|j: int| 0 <= j < s.len() && (#[trigger] s[j]).0 as int == k;
    if i != j {
        assert(s[i].0 == s[j].0);
    }
}

proof fn lemma_seq_push_key<T>(s: Seq<(u64, T)>, p: (u64, T))
    requires
        seq_keys_distinct(s),
        !seq_keys(s).contains(p.0 as int),
    ensures
        seq_keys_distinct(s.push(p)),
        seq_keys(s.push(p)) =~= seq_keys(s).insert(p.0 as int),
        seq_val(s.push(p), p.0 as int) == p.1,
        forall|k: int| seq_keys(s).contains(k) ==> seq_val(s.push(p), k) == seq_val(s, k),
{
    let s2 = s.push(p);
    assert forall|i: int, j: int| 0 <= i < j < s2.len() implies (#[trigger] s2[i]).0 != (
    #[trigger] s2[j]).0 by {
        if j == s.len() {
            // p's key is fresh, so it differs from every existing key.
            assert(s2[i] == s[i]);
            if s[i].0 == p.0 {
                lemma_seq_val_unique(s, i);
            }
        }
    }
    assert(s2[s.len() as int] == p);
    lemma_seq_val_unique(s2, s.len() as int);
    assert forall|k: int| seq_keys(s).contains(k) implies seq_val(s2, k) == seq_val(s, k) by {
        let i = choose|i: int| 0 <= i < s.len() && (#[trigger] s[i]).0 as int == k;
        assert(s2[i] == s[i]);
        lemma_seq_val_unique(s, i);
        lemma_seq_val_unique(s2, i);
    }
    assert forall|k: int| seq_keys(s2).contains(k) implies seq_keys(s).insert(p.0 as int).contains(
        k,
    ) by {
        let i = choose|i: int| 0 <= i < s2.len() && (#[trigger] s2[i]).0 as int == k;
        if i < s.len() {
            assert(s[i].0 as int == k);
        }
    }
    assert forall|k: int| seq_keys(s).insert(p.0 as int).contains(k) implies seq_keys(s2).contains(
        k,
    ) by {
        if k == p.0 as int {
            assert(s2[s.len() as int].0 as int == k);
        } else {
            let i = choose|i: int| 0 <= i < s.len() && (#[trigger] s[i]).0 as int == k;
            assert(s2[i].0 as int == k);
        }
    }
}

proof fn lemma_seq_remove_key<T>(s: Seq<(u64, T)>, i: int)
    requires
        seq_keys_distinct(s),
        0 <= i < s.len(),
    ensures
        seq_keys_distinct(s.remove(i)),
        seq_keys(s.remove(i)) =~= seq_keys(s).remove(s[i].0 as int),
        forall|k: int|
            seq_keys(s.remove(i)).contains(k) ==> seq_val(s.remove(i), k) == seq_val(s, k),
{
    let s2 = s.remove(i);
    let key = s[i].0 as int;
    assert forall|a: int, b: int| 0 <= a < b < s2.len() implies (#[trigger] s2[a]).0 != (
    #[trigger] s2[b]).0 by {
        let a0 = if a < i { a } else { a + 1 };
        let b0 = if b < i { b } else { b + 1 };
        assert(s2[a] == s[a0] && s2[b] == s[b0]);
    }
    assert forall|k: int| seq_keys(s2).contains(k) implies seq_keys(s).remove(key).contains(k) by {
        let a = choose|a: int| 0 <= a < s2.len() && (#[trigger] s2[a]).0 as int == k;
        let a0 = if a < i { a } else { a + 1 };
        assert(s2[a] == s[a0]);
        assert(s[a0].0 as int == k);
        if k == key {
            assert(s[a0].0 == s[i].0 && a0 != i);
        }
    }
    assert forall|k: int| seq_keys(s).remove(key).contains(k) implies seq_keys(s2).contains(k) by {
        let a0 = choose|a0: int| 0 <= a0 < s.len() && (#[trigger] s[a0]).0 as int == k;
        if a0 != i {
            let a = if a0 < i { a0 } else { a0 - 1 };
            assert(s2[a] == s[a0]);
            assert(s2[a].0 as int == k);
        } else {
            assert(false);
        }
    }
    assert forall|k: int| seq_keys(s2).contains(k) implies seq_val(s2, k) == seq_val(s, k) by {
        let a = choose|a: int| 0 <= a < s2.len() && (#[trigger] s2[a]).0 as int == k;
        let a0 = if a < i { a } else { a + 1 };
        assert(s2[a] == s[a0]);
        lemma_seq_val_unique(s2, a);
        lemma_seq_val_unique(s, a0);
    }
}

/// The first position at or after `n` (and at most `bound`) that is absent
/// from `pend`: the point where a consecutive emission run must stop.
pub open spec fn run_end(pend: Set<int>, n: int, bound: int) -> int
    decreases bound - n,
        when n <= bound
{
    if n >= bound || !pend.contains(n) {
        n
    } else {
        run_end(pend, n + 1, bound)
    }
}

proof fn lemma_run_end_props(pend: Set<int>, n: int, bound: int)
    requires
        n <= bound,
    ensures
        n <= run_end(pend, n, bound) <= bound,
        forall|k: int| n <= k < run_end(pend, n, bound) ==> pend.contains(k),
        run_end(pend, n, bound) < bound ==> !pend.contains(run_end(pend, n, bound)),
    decreases bound - n,
{
    if !(n >= bound || !pend.contains(n)) {
        lemma_run_end_props(pend, n + 1, bound);
    }
}

/// One push into the reordering buffer, at the model level. An output whose
/// task number is not the next to emit is parked; the output for the next
/// task number is emitted together with the whole consecutive run already
/// parked behind it.
pub open spec fn buffer_push_spec(next: int, pend: Set<int>, t: int) -> (int, Set<int>, Seq<int>) {
    if t != next {
        (next, pend.insert(t), Seq::empty())
    } else {
        let e = run_end(pend, next + 1, task_number_bound());
        (
            e,
            pend.difference(vstd::set_lib::set_int_range(next, e)),
            Seq::new((e - next) as nat, |i: int| next + i),
        )
    }
}

/// [`buffer_push_spec`] folded over a series of task completions, collecting
/// everything emitted along the way.
pub open spec fn buffer_run_spec(next: int, pend: Set<int>, pushes: Seq<int>) -> (
    int,
    Set<int>,
    Seq<int>,
)
    decreases pushes.len(),
{
    if pushes.len() == 0 {
        (next, pend, Seq::empty())
    } else {
        let (n1, p1, em1) = buffer_push_spec(next, pend, pushes[0]);
        let (n2, p2, em2) = buffer_run_spec(n1, p1, pushes.skip(1));
        (n2, p2, em1 + em2)
    }
}

/// What holds of a buffer that started emitting at `n0` after the tasks in
/// `pushed` have completed: everything from `n0` up to the next-to-emit
/// number has been emitted, and exactly the completions above that are
/// still parked.
pub open spec fn buffer_inv(n0: int, next: int, pend: Set<int>, pushed: Set<int>) -> bool {
    &&& n0 <= next <= task_number_bound()
    &&& pend == pushed.difference(vstd::set_lib::set_int_range(n0, next))
    &&& vstd::set_lib::set_int_range(n0, next).subset_of(pushed)
    &&& !pushed.contains(next)
    &&& forall|k: int| #[trigger] pushed.contains(k) ==> n0 <= k < task_number_bound()
}

proof fn lemma_buffer_push_inv(n0: int, next: int, pend: Set<int>, pushed: Set<int>, t: int)
    requires
        buffer_inv(n0, next, pend, pushed),
        n0 <= t < task_number_bound(),
        !pushed.contains(t),
    ensures
        ({
            let (n1, p1, em) = buffer_push_spec(next, pend, t);
            &&& buffer_inv(n0, n1, p1, pushed.insert(t))
            &&& next <= n1
            &&& em =~= Seq::new((n1 - next) as nat, |i: int| next + i)
        }),
{
    let bound = task_number_bound();
    if t < next {
        assert(vstd::set_lib::set_int_range(n0, next).contains(t));
    }
    if t != next {
        let p1 = pend.insert(t);
        assert(p1 =~= pushed.insert(t).difference(vstd::set_lib::set_int_range(n0, next)));
        assert(buffer_push_spec(next, pend, t).2 =~= Seq::new(0nat, |i: int| next + i));
    } else {
        let e = run_end(pend, next + 1, bound);
        lemma_run_end_props(pend, next + 1, bound);
        let p1 = pend.difference(vstd::set_lib::set_int_range(next, e));
        assert(p1 =~= pushed.insert(t).difference(vstd::set_lib::set_int_range(n0, e)));
        assert forall|k: int| n0 <= k < e implies pushed.insert(t).contains(k) by {
            if k > next {
                assert(pend.contains(k));
            }
        }
        // The run's end is not among the completions: it is neither parked
        // nor below the next-to-emit number.
        if pushed.insert(t).contains(e) {
            assert(pushed.contains(e));
            assert(pend.contains(e));
        }
    }
}

proof fn lemma_buffer_run_inv(n0: int, next: int, pend: Set<int>, pushed: Set<int>, pushes: Seq<int>)
    requires
        buffer_inv(n0, next, pend, pushed),
        pushes.no_duplicates(),
        forall|i: int|
            0 <= i < pushes.len() ==> n0 <= #[trigger] pushes[i] < task_number_bound()
                && !pushed.contains(pushes[i]),
    ensures
        ({
            let (n2, p2, ems) = buffer_run_spec(next, pend, pushes);
            &&& buffer_inv(n0, n2, p2, pushed.union(pushes.to_set()))
            &&& next <= n2
            &&& ems =~= Seq::new((n2 - next) as nat, |i: int| next + i)
        }),
    decreases pushes.len(),
{
    if pushes.len() == 0 {
        assert(pushed.union(pushes.to_set()) =~= pushed);
        assert(buffer_run_spec(next, pend, pushes).2 =~= Seq::new(0nat, |i: int| next + i));
    } else {
        let t = pushes[0];
        lemma_buffer_push_inv(n0, next, pend, pushed, t);
        let (n1, p1, em1) = buffer_push_spec(next, pend, t);
        let rest = pushes.skip(1);
        assert(forall|i: int| 0 <= i < rest.len() ==> rest[i] == pushes[i + 1]);
        assert forall|i: int|
            0 <= i < rest.len() implies n0 <= #[trigger] rest[i] < task_number_bound()
            && !pushed.insert(t).contains(rest[i]) by {
            assert(rest[i] == pushes[i + 1]);
        }
        lemma_buffer_run_inv(n0, n1, p1, pushed.insert(t), rest);
        let (n2, p2, em2) = buffer_run_spec(n1, p1, rest);
        assert(em1 + em2 =~= Seq::new((n2 - next) as nat, |i: int| next + i));
        assert(pushed.insert(t).union(rest.to_set()) =~= pushed.union(pushes.to_set())) by {
            assert forall|k: int| pushes.to_set().contains(k) implies k == t
                || rest.to_set().contains(k) by {
                let i = choose|i: int| 0 <= i < pushes.len() && pushes[i] == k;
                if i > 0 {
                    assert(rest[i - 1] == k);
                }
            }
            assert(forall|k: int|
                rest.to_set().contains(k) ==> pushes.to_set().contains(k));
            assert(pushes.to_set().contains(t));
        }
    }
}

/// Law (runner ordering): starting from task number `n0` with nothing yet
/// emitted, feeding the buffer the outputs of tasks `n0 .. n0 + n` in any
/// order — any permutation, as produced by any number of workers — emits
/// exactly `n` outputs, numbered `n0, n0 + 1, ..., n0 + n - 1` in that
/// order, with no gaps and no duplicates, and leaves nothing parked.
pub proof fn lemma_runner_ordered_emission(n0: int, n: int, pushes: Seq<int>)
    requires
        0 <= n0,
        n0 + n <= task_number_bound(),
        pushes.len() == n,
        pushes.no_duplicates(),
        forall|i: int| 0 <= i < n ==> n0 <= #[trigger] pushes[i] < n0 + n,
    ensures
        ({
            let (n2, p2, ems) = buffer_run_spec(n0, Set::empty(), pushes);
            &&& n2 == n0 + n
            &&& p2 =~= Set::<int>::empty()
            &&& ems =~= Seq::new(n as nat, |i: int| n0 + i)
        }),
{
    broadcast use vstd::seq_lib::seq_to_set_is_finite;

    let empty = Set::<int>::empty();
    assert(empty =~= empty.difference(vstd::set_lib::set_int_range(n0, n0)));
    assert(vstd::set_lib::set_int_range(n0, n0).subset_of(empty));
    assert(buffer_inv(n0, n0, empty, empty));
    lemma_buffer_run_inv(n0, n0, empty, empty, pushes);
    let (n2, p2, ems) = buffer_run_spec(n0, empty, pushes);
    let completed = empty.union(pushes.to_set());
    assert(completed =~= pushes.to_set());
    // `n` distinct task numbers drawn from `[n0, n0 + n)` are all of them.
    pushes.unique_seq_to_set();
    vstd::set_lib::lemma_int_range(n0, n0 + n);
    assert(pushes.to_set().subset_of(vstd::set_lib::set_int_range(n0, n0 + n)));
    vstd::set_lib::lemma_subset_equality(
        pushes.to_set(),
        vstd::set_lib::set_int_range(n0, n0 + n),
    );
    assert(completed == pushes.to_set());
    if n2 < n0 + n {
        assert(vstd::set_lib::set_int_range(n0, n0 + n).contains(n2));
        assert(completed.contains(n2));
    }
    assert(vstd::set_lib::set_int_range(n0, n2).subset_of(completed));
    if n2 > n0 + n {
        assert(vstd::set_lib::set_int_range(n0, n2).contains(n0 + n));
        assert(completed.contains(n0 + n));
        assert(vstd::set_lib::set_int_range(n0, n0 + n).contains(n0 + n));
    }
    assert(n2 == n0 + n);
    assert(p2 =~= Set::<int>::empty());
}

/// Buffers task outputs that complete out of order and hands them back in
/// strictly increasing task-number order, exactly as [`buffer_push_spec`]
/// says.
pub struct OrderedOutputs<T> {
    next: u64,
    pending: Vec<(u64, T)>,
}

impl<T> OrderedOutputs<T> {
    /// The number of the next task whose output will be emitted.
    pub closed spec fn next_to_emit(self) -> int {
        self.next as int
    }

    /// The task numbers parked while their predecessors are still running.
    pub closed spec fn pending_keys(self) -> Set<int> {
        seq_keys(self.pending@)
    }

    /// The parked output for task number `k`.
    pub closed spec fn pending_val(self, k: int) -> T {
        seq_val(self.pending@, k)
    }

    /// Keys are distinct, above the next-to-emit number, and small enough
    /// that emitting one leaves room to advance past it.
    pub closed spec fn wf(self) -> bool {
        &&& seq_keys_distinct(self.pending@)
        &&& forall|i: int|
            0 <= i < self.pending@.len() ==> (#[trigger] self.pending@[i]).0 > self.next
        &&& forall|i: int|
            0 <= i < self.pending@.len() ==> (#[trigger] self.pending@[i]).0 < u64::MAX
    }

    pub fn new(starting_task_number: u64) -> (r: Self)
        ensures
            r.wf(),
            r.next_to_emit() == starting_task_number as int,
            r.pending_keys() =~= Set::<int>::empty(),
    {
        let r = OrderedOutputs { next: starting_task_number, pending: Vec::new() };
        proof {
            assert(r.pending_keys() =~= Set::<int>::empty());
        }
        r
    }

    /// The number of the next task whose output will be emitted.
    pub fn next_task_number(&self) -> (r: u64)
        ensures
            r as int == self.next_to_emit(),
    {
        self.next
    }

    /// Whether an output for task `task_num` is already parked.
    pub fn is_pending(&self, task_num: u64) -> (r: bool)
        requires
            self.wf(),
        ensures
            r == self.pending_keys().contains(task_num as int),
    {
        let mut i: usize = 0;
        while i < self.pending.len()
            invariant
                seq_keys_distinct(self.pending@),
                i <= self.pending@.len(),
                forall|j: int| 0 <= j < i ==> (#[trigger] self.pending@[j]).0 != task_num,
            decreases self.pending@.len() - i,
        {
            if self.pending[i].0 == task_num {
                proof {
                    lemma_seq_val_unique(self.pending@, i as int);
                }
                return true;
            }
            i += 1;
        }
        proof {
            if seq_keys(self.pending@).contains(task_num as int) {
                let j = choose|j: int|
                    0 <= j < self.pending@.len() && (#[trigger] self.pending@[j]).0 as int
                        == task_num as int;
                assert(self.pending@[j].0 != task_num);
            }
        }
        false
    }

    /// Accept the output of task `task_num` and return the outputs that are
    /// now ready, as `(task number, output)` pairs in strictly increasing,
    /// gap-free task-number order.
    pub fn push(&mut self, task_num: u64, output: T) -> (emitted: Vec<(u64, T)>)
        requires
            old(self).wf(),
            old(self).next_to_emit() <= task_num < u64::MAX,
            !old(self).pending_keys().contains(task_num as int),
        ensures
            final(self).wf(),
            ({
                let (n2, p2, em) = buffer_push_spec(
                    old(self).next_to_emit(),
                    old(self).pending_keys(),
                    task_num as int,
                );
                &&& final(self).next_to_emit() == n2
                &&& final(self).pending_keys() =~= p2
                &&& emitted@.len() == em.len()
                &&& forall|i: int| 0 <= i < em.len() ==> (#[trigger] emitted@[i]).0 as int == em[i]
                &&& em.len() > 0 ==> emitted@[0].1 == output
                &&& forall|i: int|
                    1 <= i < em.len() ==> (#[trigger] emitted@[i]).1 == old(self).pending_val(em[i])
                &&& forall|k: int|
                    p2.contains(k) ==> final(self).pending_val(k) == (if k == task_num as int {
                        output
                    } else {
                        old(self).pending_val(k)
                    })
            }),
    {
        if task_num != self.next {
            proof {
                lemma_seq_push_key(self.pending@, (task_num, output));
            }
            self.pending.push((task_num, output));
            Vec::new()
        } else {
            let ghost s0 = self.pending@;
            let ghost pend0 = seq_keys(s0);
            let ghost start = task_num as int;
            let ghost e = run_end(pend0, start + 1, task_number_bound());
            proof {
                lemma_run_end_props(pend0, start + 1, task_number_bound());
                assert forall|k: int| pend0.contains(k) implies start < k < task_number_bound() by {
                    let i = choose|i: int| 0 <= i < s0.len() && (#[trigger] s0[i]).0 as int == k;
                }
            }
            let mut emitted: Vec<(u64, T)> = Vec::new();
            emitted.push((task_num, output));
            self.next = task_num + 1;
            loop
                invariant
                    seq_keys_distinct(self.pending@),
                    start + 1 <= self.next as int <= e,
                    e == run_end(pend0, start + 1, task_number_bound()),
                    forall|k: int| #[trigger] pend0.contains(k) ==> start < k < task_number_bound(),
                    seq_keys(self.pending@) =~= pend0.difference(
                        vstd::set_lib::set_int_range(start, self.next as int),
                    ),
                    forall|k: int|
                        seq_keys(self.pending@).contains(k) ==> seq_val(self.pending@, k)
                            == seq_val(s0, k),
                    forall|k: int| start + 1 <= k < self.next as int ==> pend0.contains(k),
                    emitted@.len() == self.next as int - start,
                    forall|i: int|
                        0 <= i < emitted@.len() ==> (#[trigger] emitted@[i]).0 as int == start + i,
                    emitted@[0].1 == output,
                    forall|i: int|
                        1 <= i < emitted@.len() ==> (#[trigger] emitted@[i]).1 == seq_val(
                            s0,
                            start + i,
                        ),
                ensures
                    self.next as int == e,
                decreases self.pending.len(),
            {
                let n = self.next;
                match self.take_pending(n) {
                    Some(v) => {
                        proof {
                            // The key was present, so the run has not ended yet.
                            lemma_run_end_props(pend0, start + 1, task_number_bound());
                            assert(pend0.contains(n as int));
                            assert((n as int) < e);
                        }
                        emitted.push((n, v));
                        self.next = n + 1;
                    },
                    None => {
                        proof {
                            lemma_run_end_props(pend0, start + 1, task_number_bound());
                            if (n as int) < e {
                                assert(pend0.contains(n as int));
                                assert(seq_keys(self.pending@).contains(n as int));
                            }
                        }
                        break ;
                    },
                }
            }
            proof {
                lemma_run_end_props(pend0, start + 1, task_number_bound());
                assert(seq_keys(self.pending@) =~= pend0.difference(
                    vstd::set_lib::set_int_range(start, e),
                ));
                // Every remaining key lies strictly above the new next-to-emit
                // number: it is above start, outside the emitted run, and not
                // equal to the run's end, which is absent from the buffer.
                assert forall|i: int| 0 <= i < self.pending@.len() implies (
                #[trigger] self.pending@[i]).0 > self.next && (#[trigger] self.pending@[i]).0
                    < u64::MAX by {
                    lemma_seq_val_unique(self.pending@, i);
                    let k = self.pending@[i].0 as int;
                    assert(pend0.contains(k) && !(start <= k < e));
                    if k == e {
                        assert(seq_keys(self.pending@).contains(e));
                    }
                }
            }
            emitted
        }
    }

    /// Remove and return the parked output for key `k`, if present.
    fn take_pending(&mut self, k: u64) -> (r: Option<T>)
        requires
            seq_keys_distinct(old(self).pending@),
        ensures
            final(self).next == old(self).next,
            seq_keys_distinct(final(self).pending@),
            seq_keys(old(self).pending@).contains(k as int) ==> {
                &&& r matches Some(v) && v == seq_val(old(self).pending@, k as int)
                &&& seq_keys(final(self).pending@) =~= seq_keys(old(self).pending@).remove(
                    k as int,
                )
                &&& forall|k2: int|
                    seq_keys(final(self).pending@).contains(k2) ==> seq_val(
                        final(self).pending@,
                        k2,
                    ) == seq_val(old(self).pending@, k2)
            },
            !seq_keys(old(self).pending@).contains(k as int) ==> r is None && final(self).pending@
                == old(self).pending@,
            final(self).pending@.len() >= old(self).pending@.len() - 1,
            seq_keys(old(self).pending@).contains(k as int) ==> final(self).pending@.len() < old(
                self,
            ).pending@.len(),
    {
        let ghost s = self.pending@;
        let mut i: usize = 0;
        while i < self.pending.len()
            invariant
                s == self.pending@,
                s == old(self).pending@,
                self.next == old(self).next,
                seq_keys_distinct(s),
                i <= self.pending.len(),
                forall|j: int| 0 <= j < i ==> (#[trigger] s[j]).0 != k,
            decreases self.pending.len() - i,
        {
            if self.pending[i].0 == k {
                proof {
                    lemma_seq_val_unique(s, i as int);
                    lemma_seq_remove_key(s, i as int);
                }
                let (_, v) = self.pending.remove(i);
                return Some(v);
            }
            i += 1;
        }
        proof {
            if seq_keys(s).contains(k as int) {
                let j = choose|j: int| 0 <= j < s.len() && (#[trigger] s[j]).0 as int == k as int;
                assert(s[j].0 != k);
            }
        }
        None
    }
}

} // verus!
