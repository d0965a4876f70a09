use historic_decode::runner::{
    OrderedOutputs, RoundRobin, Runner, WorkerAction, WorkerEvent, WorkerMode, MAX_TASK_RETRIES,
};

#[test]
fn ordered_outputs_in_order_pass_straight_through() {
    let mut buf: OrderedOutputs<&str> = OrderedOutputs::new(0);
    assert_eq!(buf.push(0, "a"), vec![(0, "a")]);
    assert_eq!(buf.push(1, "b"), vec![(1, "b")]);
    assert_eq!(buf.push(2, "c"), vec![(2, "c")]);
}

#[test]
fn ordered_outputs_buffer_until_predecessor_arrives() {
    let mut buf: OrderedOutputs<&str> = OrderedOutputs::new(0);
    assert_eq!(buf.push(2, "c"), vec![]);
    assert_eq!(buf.push(1, "b"), vec![]);
    assert_eq!(buf.push(0, "a"), vec![(0, "a"), (1, "b"), (2, "c")]);
}

#[test]
fn ordered_outputs_start_elsewhere() {
    let mut buf: OrderedOutputs<u32> = OrderedOutputs::new(100);
    assert_eq!(buf.push(101, 1), vec![]);
    assert_eq!(buf.push(100, 0), vec![(100, 0), (101, 1)]);
}

// Task numbers 0..9 completing in an arbitrary permutation across three
// workers: emission happens exactly ten times, in order 0..9, with no gaps
// and no duplicates.
#[test]
fn ordered_outputs_permutation_emits_in_order() {
    // Interleaved completions from three notional workers 'a', 'b', 'c'.
    let completions = vec![
        (3u64, "b3"),
        (0u64, "a0"),
        (5u64, "c5"),
        (2u64, "a2"),
        (1u64, "b1"),
        (8u64, "c8"),
        (4u64, "a4"),
        (7u64, "b7"),
        (9u64, "a9"),
        (6u64, "c6"),
    ];
    let mut buf: OrderedOutputs<&str> = OrderedOutputs::new(0);
    let mut emitted = vec![];
    for (task, out) in completions {
        emitted.extend(buf.push(task, out));
    }
    assert_eq!(
        emitted,
        vec![
            (0, "a0"),
            (1, "b1"),
            (2, "a2"),
            (3, "b3"),
            (4, "a4"),
            (5, "c5"),
            (6, "c6"),
            (7, "b7"),
            (8, "c8"),
            (9, "a9"),
        ]
    );
}

// A task that fails twice (below the ceiling) and then succeeds is retried
// in place and its output emitted exactly once, with no reinitialisation.
#[test]
fn worker_retries_below_ceiling_then_emits_once() {
    let mut mode = WorkerMode::Working { retries: 0 };
    let mut actions = vec![];
    for event in [WorkerEvent::TaskFailed, WorkerEvent::TaskFailed, WorkerEvent::TaskDone] {
        let (next, action) = historic_decode::runner::worker_step(mode, event);
        mode = next;
        actions.push(action);
    }
    assert_eq!(
        actions,
        vec![WorkerAction::RetryTask, WorkerAction::RetryTask, WorkerAction::EmitAndContinue]
    );
    assert_eq!(mode, WorkerMode::Working { retries: 0 });
    assert_eq!(actions.iter().filter(|a| **a == WorkerAction::Reinitialise).count(), 0);
    assert_eq!(actions.iter().filter(|a| **a == WorkerAction::EmitAndContinue).count(), 1);
}

// A task failing beyond the ceiling triggers exactly one reinitialisation.
#[test]
fn worker_exhausted_retries_reinitialise_once() {
    let mut mode = WorkerMode::Working { retries: 0 };
    let mut actions = vec![];
    for _ in 0..(MAX_TASK_RETRIES + 1) {
        let (next, action) = historic_decode::runner::worker_step(mode, WorkerEvent::TaskFailed);
        mode = next;
        actions.push(action);
    }
    assert_eq!(mode, WorkerMode::Initialising);
    assert_eq!(actions.iter().filter(|a| **a == WorkerAction::Reinitialise).count(), 1);
    assert_eq!(actions[MAX_TASK_RETRIES], WorkerAction::Reinitialise);
    for a in &actions[..MAX_TASK_RETRIES] {
        assert_eq!(*a, WorkerAction::RetryTask);
    }
}

#[test]
fn worker_init_transitions() {
    let (m, a) = historic_decode::runner::worker_step(
        WorkerMode::Initialising,
        WorkerEvent::InitFailed,
    );
    assert_eq!((m, a), (WorkerMode::Initialising, WorkerAction::RetryInit));
    let (m, a) = historic_decode::runner::worker_step(
        WorkerMode::Initialising,
        WorkerEvent::InitDone,
    );
    assert_eq!((m, a), (WorkerMode::Working { retries: 0 }, WorkerAction::StartTask));
    let (m, a) = historic_decode::runner::worker_step(
        WorkerMode::Initialising,
        WorkerEvent::InitEmpty,
    );
    assert_eq!((m, a), (WorkerMode::Finished, WorkerAction::Stop));
    let (m, a) = historic_decode::runner::worker_step(
        WorkerMode::Working { retries: 2 },
        WorkerEvent::TaskEmpty,
    );
    assert_eq!((m, a), (WorkerMode::Finished, WorkerAction::Stop));
}

#[test]
fn round_robin_cycles_through_items() {
    let mut rr = RoundRobin::new(vec!["a", "b", "c"]);
    assert_eq!(*rr.get(), "a");
    assert_eq!(*rr.get(), "b");
    assert_eq!(*rr.get(), "c");
    assert_eq!(*rr.get(), "a");
}

#[test]
fn runner_holds_its_pieces() {
    let runner = Runner::new(7u32, "init", "task", "output");
    assert_eq!(runner.initial_state, 7);
    assert_eq!(runner.init_fn, "init");
    assert_eq!(runner.task_fn, "task");
    assert_eq!(runner.output_fn, "output");
}
