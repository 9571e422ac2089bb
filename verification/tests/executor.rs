//! Behavior tests for the chunk scheduler's decisions, driven through a
//! fake, virtual-time environment.

use std::collections::VecDeque;

use dora_openarm_actions_executor_rust::{
    run_steps, ChunkOutcome, Environment, ExecutorState, PendingSignal, Recorded, RunChunkError,
    StepDecision, StepSchedule, StepTrace, StepsEnd,
};

struct FakeEnvironment {
    now_ns: i64,
    poll_script: VecDeque<PendingSignal>,
}

impl FakeEnvironment {
    fn new(poll_script: impl IntoIterator<Item = PendingSignal>) -> Self {
        Self { now_ns: 0, poll_script: poll_script.into_iter().collect() }
    }
}

impl Environment for FakeEnvironment {
    fn now_ns(&mut self) -> i64 {
        self.now_ns
    }

    fn sleep_ns(&mut self, duration_ns: i64) {
        self.now_ns += duration_ns;
    }

    fn poll(&mut self) -> PendingSignal {
        self.poll_script.pop_front().unwrap_or(PendingSignal::NoEvent)
    }
}

fn linear(canceled_row: &Vec<f32>, next_row: &Vec<f32>, i: usize, n: usize) -> Vec<f32> {
    let weight = if n == 1 { 1.0 } else { 1.0 - (i as f32) / ((n - 1) as f32) };
    canceled_row.iter().zip(next_row.iter()).map(|(&c, &x)| c * weight + x * (1.0 - weight)).collect()
}

/// Runs one raw (not upsampled) chunk the way the node does, collecting the
/// emitted `(position, timestamp)` pairs.
fn run_raw_chunk(
    state: &mut ExecutorState<Vec<f32>>,
    positions: Vec<Vec<f32>>,
    interval_ns: i64,
    reset: bool,
    env: &mut Recorded<FakeEnvironment>,
) -> (ChunkOutcome, Vec<(f32, i64)>) {
    let positions = state.prepare_chunk(positions, reset, linear).expect("blend succeeds");
    let mut steps = Vec::new();
    let start = env.now_ns();
    let mut schedule = StepSchedule::start(positions.len(), interval_ns, start);
    let rows = positions.clone();
    // A stand-in for the node's low-pass filter, applied only when the state
    // has filtering on: it halves each value.
    let use_filter = state.use_filter();
    let mut prepare = |i: usize| if use_filter { rows[i][0] / 2.0 } else { rows[i][0] };
    let mut emit = |value: f32, timestamp: i64| steps.push((value, timestamp));
    let end = run_steps(&mut schedule, env, &mut prepare, &mut emit).end;
    let outcome = state.conclude(end, positions, |i: usize| i).expect("clock in range");
    (outcome, steps)
}

#[test]
fn without_upsampling_each_raw_row_is_sent_once_at_the_raw_interval() {
    let mut state = ExecutorState::new(false, false);
    let mut env = Recorded::new(FakeEnvironment::new(vec![PendingSignal::NoEvent; 3]));
    let (outcome, steps) = run_raw_chunk(&mut state, vec![vec![1.0], vec![2.0], vec![3.0]], 1000, false, &mut env);
    assert_eq!(outcome, ChunkOutcome::Completed);
    assert_eq!(steps, vec![(1.0, 0), (2.0, 1000), (3.0, 2000)]);
}

#[test]
fn cancellation_without_upsampling_carries_over_the_remaining_raw_rows() {
    let mut state = ExecutorState::new(false, false);
    let mut env = Recorded::new(FakeEnvironment::new(vec![PendingSignal::NoEvent, PendingSignal::NewChunk]));
    let (outcome, steps) =
        run_raw_chunk(&mut state, vec![vec![1.0], vec![2.0], vec![3.0], vec![4.0]], 1000, false, &mut env);
    assert_eq!(outcome, ChunkOutcome::CancelledForNextChunk);
    assert_eq!(steps.len(), 1);
    assert_eq!(steps[0].0, 1.0);
    assert_eq!(state.canceled_positions(), Some(&[vec![2.0], vec![3.0], vec![4.0]][..]));
}

#[test]
fn terminate_signal_stops_immediately_without_sending_that_step() {
    let mut state = ExecutorState::new(false, false);
    let mut env = Recorded::new(FakeEnvironment::new(vec![PendingSignal::NoEvent, PendingSignal::Terminate]));
    let (outcome, steps) = run_raw_chunk(&mut state, vec![vec![1.0], vec![2.0], vec![3.0]], 1000, false, &mut env);
    assert_eq!(outcome, ChunkOutcome::Terminated);
    assert_eq!(steps.len(), 1);
    assert_eq!(state.canceled_positions(), None);
}

#[test]
fn reset_discards_any_previously_canceled_trajectory() {
    let mut state = ExecutorState::new(false, false);
    let mut env = Recorded::new(FakeEnvironment::new(vec![PendingSignal::NoEvent, PendingSignal::NewChunk]));
    run_raw_chunk(&mut state, vec![vec![1.0], vec![2.0], vec![3.0]], 1000, false, &mut env);
    assert!(state.canceled_positions().is_some());

    let mut env = Recorded::new(FakeEnvironment::new(vec![PendingSignal::NoEvent; 2]));
    let (outcome, steps) = run_raw_chunk(&mut state, vec![vec![100.0], vec![200.0]], 1000, true, &mut env);
    assert_eq!(outcome, ChunkOutcome::Completed);
    let positions: Vec<f32> = steps.iter().map(|step| step.0).collect();
    assert_eq!(positions, vec![100.0, 200.0]);
}

#[test]
fn a_non_reset_chunk_blends_in_the_canceled_trajectory() {
    let mut state = ExecutorState::new(false, false);
    let mut env = Recorded::new(FakeEnvironment::new(vec![PendingSignal::NoEvent, PendingSignal::NewChunk]));
    run_raw_chunk(&mut state, vec![vec![1.0], vec![2.0], vec![3.0]], 1000, false, &mut env);
    assert_eq!(state.canceled_positions(), Some(&[vec![2.0], vec![3.0]][..]));

    let mut env = Recorded::new(FakeEnvironment::new(vec![PendingSignal::NoEvent; 3]));
    let (outcome, steps) =
        run_raw_chunk(&mut state, vec![vec![100.0], vec![200.0], vec![300.0]], 1000, false, &mut env);
    assert_eq!(outcome, ChunkOutcome::Completed);
    let positions: Vec<f32> = steps.iter().map(|step| step.0).collect();
    assert_eq!(positions, vec![2.0, 200.0, 300.0]);
    assert_eq!(state.canceled_positions(), None);
}

#[test]
fn filter_is_forced_off_when_upsampling_is_disabled() {
    let mut state = ExecutorState::new(false, true);
    let mut env = Recorded::new(FakeEnvironment::new(vec![PendingSignal::NoEvent; 2]));
    let (_, steps) = run_raw_chunk(&mut state, vec![vec![0.0], vec![100.0]], 1000, false, &mut env);
    let positions: Vec<f32> = steps.iter().map(|step| step.0).collect();
    assert_eq!(positions, vec![0.0, 100.0]);

    let state = ExecutorState::<Vec<f32>>::new(false, true);
    assert!(!state.use_filter());
    assert!(!state.use_upsample());
    assert!(!state.needs_lazy_init());

    let state = ExecutorState::<Vec<f32>>::new(true, true);
    assert!(state.use_filter());
    assert!(state.use_upsample());
}

#[test]
fn shaping_stages_are_due_only_on_the_very_first_chunk() {
    let mut state = ExecutorState::<Vec<f32>>::new(true, true);
    assert!(state.needs_lazy_init());
    state.mark_initialized();
    assert!(!state.needs_lazy_init());
    let rows = state.prepare_chunk(vec![vec![1.0]], true, linear).unwrap();
    state.cancel(rows, 0);
    assert!(!state.needs_lazy_init());
}

#[test]
fn a_chunk_shorter_than_the_carried_trajectory_is_an_error() {
    let mut state = ExecutorState::new(false, false);
    state.cancel(vec![vec![1.0_f32], vec![2.0], vec![3.0]], 0);
    let error = state.prepare_chunk(vec![vec![9.0]], false, linear).unwrap_err();
    assert_eq!(
        RunChunkError::from(error),
        RunChunkError::Blend(dora_openarm_actions_executor_rust::BlendError::InsufficientNextPositions {
            canceled_len: 3,
            next_len: 1,
        })
    );
    assert_eq!(state.canceled_positions(), None);
}

#[test]
fn cancelling_past_the_last_raw_row_carries_nothing() {
    let mut state = ExecutorState::new(true, false);
    state.cancel(vec![vec![1.0_f32], vec![2.0]], 5);
    assert_eq!(state.canceled_positions(), Some(&[][..]));
    let rows = state.prepare_chunk(vec![vec![7.0]], false, linear).unwrap();
    assert_eq!(rows, vec![vec![7.0]]);
}

#[test]
fn late_steps_are_not_slept_for_and_do_not_shift_the_schedule() {
    let mut schedule = StepSchedule::start(3, 100, 1000);
    assert_eq!(schedule.wait(1000), Some(None));
    assert_eq!(schedule.after_poll(PendingSignal::NoEvent), StepDecision::Emit(0));
    // The clock jumped well past step 1's due time (1100).
    assert_eq!(schedule.wait(1250), Some(None));
    assert_eq!(schedule.after_poll(PendingSignal::NoEvent), StepDecision::Emit(1));
    // Step 2 is still due at 1200, not 1350.
    assert_eq!(schedule.wait(1150), Some(Some(50)));
    assert!(schedule.has_next());
    assert_eq!(schedule.after_poll(PendingSignal::NewChunk), StepDecision::Cancel(2));
}

#[test]
fn schedule_arithmetic_limits_are_reported() {
    assert!(StepSchedule::can_start(1000, 0));
    assert!(!StepSchedule::can_start(1, i64::MIN));
    let mut schedule = StepSchedule::start(1, i64::MAX, i64::MAX);
    assert_eq!(schedule.wait(i64::MIN), None);
    assert_eq!(schedule.wait(0), Some(Some(i64::MAX)));
}

#[test]
fn run_chunk_error_messages() {
    let error = RunChunkError::Upsample(dora_openarm_actions_executor_rust::UpsampleError::ChunkLengthMismatch {
        expected: 10,
        got: 7,
    });
    assert_eq!(error.message(), "expected chunk length 10, got 7");
    let error = RunChunkError::Blend(dora_openarm_actions_executor_rust::BlendError::InsufficientNextPositions {
        canceled_len: 4,
        next_len: 2,
    });
    assert_eq!(error.message(), "cannot blend 4 canceled rows with only 2 next rows");
}

/// An environment whose clock jumps forward on every read.
struct JumpyEnvironment {
    now_ns: i64,
    jump_ns: i64,
}

impl Environment for JumpyEnvironment {
    fn now_ns(&mut self) -> i64 {
        self.now_ns += self.jump_ns;
        self.now_ns
    }

    fn sleep_ns(&mut self, duration_ns: i64) {
        self.now_ns += duration_ns;
    }

    fn poll(&mut self) -> PendingSignal {
        PendingSignal::NoEvent
    }
}

#[test]
fn a_slow_clock_does_not_shift_the_schedule() {
    // Every clock read advances 70ns and steps are 100ns apart, so the run
    // falls behind: no step is slept for, and each is stamped when it is
    // reached, while the steps stay due at 100, 200 and 300.
    let mut env = Recorded::new(JumpyEnvironment { now_ns: 30, jump_ns: 70 });
    let start = env.now_ns();
    assert_eq!(start, 100);
    let mut schedule = StepSchedule::start(3, 100, start);
    let mut stamps = Vec::new();
    let mut prepare = |i: usize| i;
    let mut emit = |i: usize, t: i64| stamps.push((i, t));
    assert_eq!(run_steps(&mut schedule, &mut env, &mut prepare, &mut emit).end, StepsEnd::Completed);
    assert_eq!(stamps, vec![(0, 240), (1, 380), (2, 520)]);
}

#[test]
fn a_run_cancelled_at_the_first_step_sends_nothing() {
    let mut env = Recorded::new(FakeEnvironment::new(vec![PendingSignal::NewChunk]));
    let mut schedule = StepSchedule::start(4, 10, 0);
    let mut sent = 0;
    let mut prepare = |_: usize| ();
    let mut emit = |_: (), _: i64| sent += 1;
    assert_eq!(run_steps(&mut schedule, &mut env, &mut prepare, &mut emit).end, StepsEnd::Cancelled(0));
    assert_eq!(sent, 0);
}

#[test]
fn a_clock_too_far_from_the_schedule_is_reported() {
    let mut fake = FakeEnvironment::new(vec![]);
    fake.now_ns = i64::MIN;
    let mut env = Recorded::new(fake);
    let mut schedule = StepSchedule::start(2, i64::MAX, i64::MAX);
    let mut prepare = |_: usize| ();
    let mut emit = |_: (), _: i64| {};
    assert_eq!(run_steps(&mut schedule, &mut env, &mut prepare, &mut emit).end, StepsEnd::ClockOverflow(0));
}

#[test]
fn the_run_records_each_step_it_timed() {
    let mut fake = FakeEnvironment::new(vec![PendingSignal::NoEvent, PendingSignal::NoEvent, PendingSignal::Terminate]);
    fake.now_ns = 50;
    let mut env = Recorded::new(fake);
    let mut schedule = StepSchedule::start(5, 100, 50);
    let mut prepare = |i: usize| i * 10;
    let mut emit = |p: usize, t: i64| (p, t);
    let run = run_steps(&mut schedule, &mut env, &mut prepare, &mut emit);
    assert_eq!(run.end, StepsEnd::Terminated(2));
    assert_eq!(run.sent, vec![(0, 50), (10, 150)]);
    assert_eq!(run.trace.len(), 3);
    assert_eq!(
        run.trace[0],
        StepTrace { now_ns: 50, sleep_ns: None, timestamp_ns: 50, signal: PendingSignal::NoEvent }
    );
    assert_eq!(
        run.trace[1],
        StepTrace { now_ns: 50, sleep_ns: Some(100), timestamp_ns: 150, signal: PendingSignal::NoEvent }
    );
    assert_eq!(
        run.trace[2],
        StepTrace { now_ns: 150, sleep_ns: Some(100), timestamp_ns: 250, signal: PendingSignal::Terminate }
    );
}

#[test]
fn a_reset_re_anchors_the_filter_to_the_first_raw_row() {
    let rows = vec![vec![7.0_f32], vec![8.0]];
    let mut state: ExecutorState<Vec<f32>> = ExecutorState::new(true, true);
    // Before the filter exists there is nothing to re-anchor.
    assert_eq!(state.filter_anchor(&rows, true), None);
    state.mark_initialized();
    assert_eq!(state.filter_anchor(&rows, true), Some(&vec![7.0]));
    assert_eq!(state.filter_anchor(&rows, false), None);

    let mut unfiltered: ExecutorState<Vec<f32>> = ExecutorState::new(true, false);
    unfiltered.mark_initialized();
    assert_eq!(unfiltered.filter_anchor(&rows, true), None);
}
