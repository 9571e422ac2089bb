//! The decisions of the per-chunk trajectory scheduler.
//!
//! Running one chunk alternates real-time work (reading the clock, sleeping,
//! peeking at the event stream) with decisions. The decisions live here:
//! which configuration is in force, when the lazily built shaping stages are
//! due, how a reset or a carried-over canceled trajectory shapes the next
//! chunk's rows, when each step is due, and what a polled signal means for
//! the current step. The real-time work goes through the caller's
//! [`Environment`], wrapped in a [`Recorded`] so that the contracts can say
//! which calls were made and what they returned.

use vstd::prelude::*;

use crate::blend::{blend, BlendError};
use crate::callbacks::{EmitCalls, PrepareCalls};
use crate::environment::{EnvCall, Environment, PendingSignal, Recorded};
use crate::upsample::UpsampleError;

verus! {

/// The calls one timed step makes on the environment: the clock reading it
/// is checked against, the sleep when it asked for one, the clock reading
/// taken as its timestamp, and the poll.
pub open spec fn step_calls(step: StepTrace) -> Seq<EnvCall> {
    seq![EnvCall::Now(step.now_ns)] + match step.sleep_ns {
        Some(d) => seq![EnvCall::Sleep(d)],
        None => Seq::<EnvCall>::empty(),
    } + seq![EnvCall::Now(step.timestamp_ns), EnvCall::Poll(step.signal)]
}

/// The calls a sequence of timed steps makes on the environment, in order.
pub open spec fn trace_calls(trace: Seq<StepTrace>) -> Seq<EnvCall>
    decreases trace.len(),
{
    if trace.len() == 0 {
        Seq::empty()
    } else {
        trace_calls(trace.drop_last()) + step_calls(trace.last())
    }
}

/// The signals the polls among `calls` returned, in order.
pub open spec fn polled(calls: Seq<EnvCall>) -> Seq<PendingSignal>
    decreases calls.len(),
{
    if calls.len() == 0 {
        Seq::empty()
    } else {
        polled(calls.drop_last()) + match calls.last() {
            EnvCall::Poll(signal) => seq![signal],
            _ => Seq::<PendingSignal>::empty(),
        }
    }
}

/// The polls among concatenated calls are those of each part, in order.
pub proof fn lemma_polled_concat(a: Seq<EnvCall>, b: Seq<EnvCall>)
    ensures
        polled(a + b) == polled(a) + polled(b),
    decreases b.len(),
{
    if b.len() == 0 {
        assert(a + b =~= a);
        assert(polled(a) + polled(b) =~= polled(a));
    } else {
        lemma_polled_concat(a, b.drop_last());
        assert((a + b).drop_last() =~= a + b.drop_last());
        assert((a + b).last() == b.last());
    }
}

/// The polls in a single call.
proof fn lemma_polled_single(call: EnvCall)
    ensures
        polled(seq![call]) == match call {
            EnvCall::Poll(signal) => seq![signal],
            _ => Seq::<PendingSignal>::empty(),
        },
{
    assert(seq![call].drop_last() =~= Seq::<EnvCall>::empty());
    assert(seq![call].last() == call);
    assert(polled(Seq::<EnvCall>::empty()) =~= Seq::<PendingSignal>::empty());
    match call {
        EnvCall::Poll(signal) => {
            assert(Seq::<PendingSignal>::empty() + seq![signal] =~= seq![signal]);
        },
        _ => {
            assert(Seq::<PendingSignal>::empty() + Seq::<PendingSignal>::empty()
                =~= Seq::<PendingSignal>::empty());
        },
    }
}

/// A run's polls are its trace: the environment is polled exactly once per
/// traced step, and the signals it returned are, in order, the signals the
/// trace records, so a run polls until the first signal other than
/// [`PendingSignal::NoEvent`] and no further.
pub proof fn law_polls_follow_trace(trace: Seq<StepTrace>)
    ensures
        polled(trace_calls(trace)) == trace.map_values(|step: StepTrace| step.signal),
    decreases trace.len(),
{
    if trace.len() > 0 {
        let rest = trace.drop_last();
        let step = trace.last();
        law_polls_follow_trace(rest);
        lemma_polled_concat(trace_calls(rest), step_calls(step));
        let first = seq![EnvCall::Now(step.now_ns)];
        let head = first + match step.sleep_ns {
            Some(d) => seq![EnvCall::Sleep(d)],
            None => Seq::<EnvCall>::empty(),
        };
        let stamp = seq![EnvCall::Now(step.timestamp_ns)];
        let poll = seq![EnvCall::Poll(step.signal)];
        assert(step_calls(step) =~= head + (stamp + poll));
        lemma_polled_concat(head, stamp + poll);
        lemma_polled_concat(stamp, poll);
        lemma_polled_single(EnvCall::Now(step.timestamp_ns));
        lemma_polled_single(EnvCall::Poll(step.signal));
        lemma_polled_single(EnvCall::Now(step.now_ns));
        match step.sleep_ns {
            Some(d) => {
                lemma_polled_single(EnvCall::Sleep(d));
                lemma_polled_concat(first, seq![EnvCall::Sleep(d)]);
            },
            None => {
                assert(head =~= first);
            },
        }
        assert(trace.map_values(|step: StepTrace| step.signal) =~= rest.map_values(
            |step: StepTrace| step.signal,
        ).push(step.signal));
    }
}

/// How one chunk's run ended.
#[derive(Debug, Clone, Copy, PartialEq, Eq, Structural)]
pub enum ChunkOutcome {
    /// Every step in the chunk was sent.
    Completed,
    /// A new chunk had already arrived; the caller should fetch it next.
    CancelledForNextChunk,
    /// The node should terminate.
    Terminated,
}

/// An error running one chunk's trajectory.
#[derive(Debug, Clone, Copy, PartialEq, Eq, Structural)]
pub enum RunChunkError {
    /// Blending the canceled trajectory into the next chunk failed.
    Blend(BlendError),
    /// Upsampling the chunk failed.
    Upsample(UpsampleError),
}

impl RunChunkError {
    /// The text that describes the error: that of the stage that failed.
    pub open spec fn description(&self) -> Seq<char> {
        match *self {
            RunChunkError::Blend(e) => e.description(),
            RunChunkError::Upsample(e) => e.description(),
        }
    }

    /// A human-readable description of the error.
    pub fn message(&self) -> (text: String)
        ensures
            text@ == self.description(),
    {
        match self {
            RunChunkError::Blend(error) => error.message(),
            RunChunkError::Upsample(error) => error.message(),
        }
    }
}

impl From<BlendError> for RunChunkError {
    fn from(error: BlendError) -> (wrapped: Self) {
        RunChunkError::Blend(error)
    }
}

impl vstd::std_specs::convert::FromSpecImpl<BlendError> for RunChunkError {
    open spec fn obeys_from_spec() -> bool {
        true
    }

    open spec fn from_spec(v: BlendError) -> Self {
        RunChunkError::Blend(v)
    }
}

impl From<UpsampleError> for RunChunkError {
    fn from(error: UpsampleError) -> (wrapped: Self) {
        RunChunkError::Upsample(error)
    }
}

impl vstd::std_specs::convert::FromSpecImpl<UpsampleError> for RunChunkError {
    open spec fn obeys_from_spec() -> bool {
        true
    }

    open spec fn from_spec(v: UpsampleError) -> Self {
        RunChunkError::Upsample(v)
    }
}

/// What one step does once the event stream has been polled.
#[derive(Debug, Clone, Copy, PartialEq, Eq, Structural)]
pub enum StepDecision {
    /// Send step `i`.
    Emit(usize),
    /// A new chunk has arrived at step `i`: carry the rest over and stop.
    Cancel(usize),
    /// Stop at once, sending nothing more.
    Terminate,
}

/// The rows of the next chunk once a carried-over canceled trajectory has
/// been crossfaded into its leading rows: row `i < canceled.len()` is the
/// crossfade of `canceled[i]` and `next[i]`, and every later row is `next`'s
/// own.
pub open spec fn blended_chunk<R, F: Fn(&R, &R, usize, usize) -> R>(
    canceled: Seq<R>,
    next: Seq<R>,
    crossfade: F,
    rows: Seq<R>,
) -> bool {
    &&& rows.len() == next.len()
    &&& forall|i: int|
        0 <= i < canceled.len() ==> call_ensures(
            crossfade,
            (&canceled[i], &next[i], i as usize, canceled.len() as usize),
            #[trigger] rows[i],
        )
    &&& forall|i: int| canceled.len() <= i < next.len() ==> #[trigger] rows[i] == next[i]
}

/// What shaping a new chunk's rows `next` yields, given the carried-over
/// trajectory: with a reset or nothing carried over, the rows themselves;
/// otherwise the carried-over rows crossfaded into the leading rows, or an
/// error when the chunk is shorter than what is carried over.
pub open spec fn shaped_rows<R, F: Fn(&R, &R, usize, usize) -> R>(
    carried: Option<Seq<R>>,
    reset: bool,
    next: Seq<R>,
    crossfade: F,
    rows: Result<Vec<R>, BlendError>,
) -> bool {
    if reset || carried is None {
        rows matches Ok(r) && r@ == next
    } else {
        let canceled = carried->0;
        &&& rows is Err <==> next.len() < canceled.len()
        &&& rows matches Err(e) ==> e == (BlendError::InsufficientNextPositions {
            canceled_len: canceled.len() as usize,
            next_len: next.len() as usize,
        })
        &&& rows matches Ok(r) ==> blended_chunk(canceled, next, crossfade, r@)
    }
}

/// The rows a canceled chunk carries over: those from the first raw step
/// not yet consumed on, or none when every row was consumed.
pub open spec fn carried_rows<R>(positions: Seq<R>, consumed_raw_steps: int) -> Seq<R> {
    if consumed_raw_steps < positions.len() {
        positions.skip(consumed_raw_steps)
    } else {
        Seq::<R>::empty()
    }
}

/// Per-run state carried across chunks: the configuration in force, whether
/// the lazily built shaping stages (upsampler and filter) exist yet, and any
/// trajectory canceled by an already-arrived chunk.
#[derive(Debug)]
pub struct ExecutorState<R> {
    use_upsample: bool,
    use_filter: bool,
    shaping_ready: bool,
    canceled_positions: Option<Vec<R>>,
}

impl<R> ExecutorState<R> {
    /// Whether chunks are upsampled.
    pub closed spec fn upsampling(&self) -> bool {
        self.use_upsample
    }

    /// Whether upsampled rows are low-pass filtered.
    pub closed spec fn filtering(&self) -> bool {
        self.use_filter
    }

    /// Whether the lazily built shaping stages exist yet.
    pub closed spec fn initialized(&self) -> bool {
        self.shaping_ready
    }

    /// The trajectory carried over from a canceled chunk, if any.
    pub closed spec fn carried(&self) -> Option<Seq<R>> {
        match self.canceled_positions {
            Some(rows) => Some(rows@),
            None => None,
        }
    }

    /// `after` follows `before` by one of the state's operations: the
    /// configuration never changes, and the shaping stages, once built, stay
    /// built.
    pub open spec fn follows(before: Self, after: Self) -> bool {
        &&& after.upsampling() == before.upsampling()
        &&& after.filtering() == before.filtering()
        &&& before.initialized() ==> after.initialized()
    }

    /// The shaping stages are due: upsampling is on and they do not exist
    /// yet.
    pub open spec fn lazy_init_due(&self) -> bool {
        self.upsampling() && !self.initialized()
    }

    /// Creates the state for the given upsample/filter configuration.
    ///
    /// A filter request without upsampling has no effect (raw chunks are
    /// sent as they are), so filtering is forced off in that case.
    pub fn new(use_upsample: bool, use_filter: bool) -> (state: Self)
        ensures
            state.upsampling() == use_upsample,
            state.filtering() == (use_upsample && use_filter),
            !state.initialized(),
            state.carried() is None,
    {
        ExecutorState {
            use_upsample,
            use_filter: use_upsample && use_filter,
            shaping_ready: false,
            canceled_positions: None,
        }
    }

    /// Whether chunks are upsampled.
    pub fn use_upsample(&self) -> (enabled: bool)
        ensures
            enabled == self.upsampling(),
    {
        self.use_upsample
    }

    /// Whether upsampled rows are low-pass filtered.
    pub fn use_filter(&self) -> (enabled: bool)
        ensures
            enabled == self.filtering(),
    {
        self.use_filter
    }

    /// Whether the shaping stages must be built now: upsampling is on and
    /// this is the first chunk ever processed.
    pub fn needs_lazy_init(&self) -> (due: bool)
        ensures
            due == self.lazy_init_due(),
    {
        self.use_upsample && !self.shaping_ready
    }

    /// The row the low-pass filter is re-anchored to before a chunk is
    /// shaped: a reset chunk, once the filter exists, restarts it from the
    /// chunk's first raw row; otherwise the filter keeps its state.
    pub fn filter_anchor<'a>(&self, positions: &'a [R], reset: bool) -> (anchor: Option<&'a R>)
        requires
            reset && self.filtering() && self.initialized() ==> positions@.len() > 0,
        ensures
            anchor is Some <==> (reset && self.filtering() && self.initialized()),
            anchor matches Some(row) ==> *row == positions@[0],
    {
        if reset && self.use_filter && self.shaping_ready {
            Some(&positions[0])
        } else {
            None
        }
    }

    /// Records that the shaping stages have been built; they are never
    /// built again.
    pub fn mark_initialized(&mut self)
        ensures
            Self::follows(*old(self), *final(self)),
            final(self).initialized(),
            final(self).upsampling() == old(self).upsampling(),
            final(self).filtering() == old(self).filtering(),
            final(self).carried() == old(self).carried(),
    {
        self.shaping_ready = true;
    }

    /// The trajectory tail carried over from a canceled chunk, if any.
    pub fn canceled_positions(&self) -> (rows: Option<&[R]>)
        ensures
            rows is Some <==> self.carried() is Some,
            rows matches Some(r) ==> self.carried() == Some(r@),
    {
        match &self.canceled_positions {
            Some(rows) => Some(rows.as_slice()),
            None => None,
        }
    }

    /// Shapes a new chunk's rows from the carried-over state.
    ///
    /// A reset chunk discards any carried-over trajectory. Otherwise a
    /// carried-over trajectory is crossfaded into the chunk's leading rows
    /// (see [`blend`]), and the rest of the chunk follows unchanged. Either
    /// way nothing stays carried over afterwards, so a canceled trajectory
    /// is blended in at most once.
    pub fn prepare_chunk<F: Fn(&R, &R, usize, usize) -> R>(
        &mut self,
        positions: Vec<R>,
        reset: bool,
        crossfade: F,
    ) -> (rows: Result<Vec<R>, BlendError>)
        requires
            forall|a: &R, b: &R, i: usize, n: usize| call_requires(crossfade, (a, b, i, n)),
        ensures
            Self::follows(*old(self), *final(self)),
            final(self).carried() is None,
            final(self).upsampling() == old(self).upsampling(),
            final(self).filtering() == old(self).filtering(),
            final(self).initialized() == old(self).initialized(),
            (reset || old(self).carried() is None) ==> rows == Ok::<Vec<R>, BlendError>(positions),
            old(self).carried() matches Some(c) ==> (!reset && c.len() <= positions@.len() ==> {
                &&& rows matches Ok(r)
                &&& r@.len() == positions@.len()
                &&& forall|i: int|
                    0 <= i < c.len() ==> call_ensures(
                        crossfade,
                        (&c[i], &positions@[i], i as usize, c.len() as usize),
                        #[trigger] r@[i],
                    )
                &&& forall|i: int| c.len() <= i < positions@.len() ==> #[trigger] r@[i] == positions@[i]
            }),
            shaped_rows(old(self).carried(), reset, positions@, crossfade, rows),
    {
        let carried = if reset {
            None
        } else {
            self.canceled_positions.take()
        };
        self.canceled_positions = None;
        match carried {
            None => Ok(positions),
            Some(canceled) => {
                let ghost next = positions@;
                let (mut combined, n) = blend(canceled.as_slice(), positions.as_slice(), crossfade)?;
                let mut positions = positions;
                let mut tail = positions.split_off(n);
                let ghost rest = tail@;
                combined.append(&mut tail);
                assert forall|i: int| canceled@.len() <= i < next.len() implies #[trigger] combined@[i]
                    == next[i] by {
                    assert(combined@[i] == rest[i - n]);
                }
                Ok(combined)
            },
        }
    }

    /// Concludes a chunk's run from how its steps ended: completed or
    /// terminated runs carry nothing new over; a run cancelled at step `i`
    /// carries the chunk's rows over from raw step `raw_step(i)` on (the
    /// caller maps a step back to a raw row). A clock overflow at step `i`
    /// is handed back as `Err(i)`.
    pub fn conclude<F: Fn(usize) -> usize>(
        &mut self,
        end: StepsEnd,
        positions: Vec<R>,
        raw_step: F,
    ) -> (outcome: Result<ChunkOutcome, usize>)
        requires
            forall|i: usize| call_requires(raw_step, (i,)),
        ensures
            Self::follows(*old(self), *final(self)),
            final(self).initialized() == old(self).initialized(),
            end == StepsEnd::Completed ==> outcome == Ok::<ChunkOutcome, usize>(ChunkOutcome::Completed)
                && final(self).carried() == old(self).carried(),
            end matches StepsEnd::Terminated(_) ==> outcome == Ok::<ChunkOutcome, usize>(
                ChunkOutcome::Terminated,
            ) && final(self).carried() == old(self).carried(),
            end matches StepsEnd::ClockOverflow(i) ==> outcome == Err::<ChunkOutcome, usize>(i)
                && final(self).carried() == old(self).carried(),
            end matches StepsEnd::Cancelled(i) ==> {
                &&& outcome == Ok::<ChunkOutcome, usize>(ChunkOutcome::CancelledForNextChunk)
                &&& exists|r: usize|
                    call_ensures(raw_step, (i,), r) && final(self).carried() == Some(
                        carried_rows(positions@, r as int),
                    )
            },
    {
        match end {
            StepsEnd::Completed => Ok(ChunkOutcome::Completed),
            StepsEnd::Terminated(_) => Ok(ChunkOutcome::Terminated),
            StepsEnd::ClockOverflow(i) => Err(i),
            StepsEnd::Cancelled(i) => {
                let consumed_raw_steps = raw_step(i);
                self.cancel(positions, consumed_raw_steps);
                Ok(ChunkOutcome::CancelledForNextChunk)
            },
        }
    }

    /// Carries a canceled chunk's rows over, from the first raw step not yet
    /// consumed on (or nothing, when every row was consumed).
    pub fn cancel(&mut self, positions: Vec<R>, consumed_raw_steps: usize)
        ensures
            Self::follows(*old(self), *final(self)),
            final(self).carried() == Some(carried_rows(positions@, consumed_raw_steps as int)),
            final(self).upsampling() == old(self).upsampling(),
            final(self).filtering() == old(self).filtering(),
            final(self).initialized() == old(self).initialized(),
    {
        let mut positions = positions;
        let carry = if consumed_raw_steps < positions.len() {
            positions.split_off(consumed_raw_steps)
        } else {
            Vec::new()
        };
        self.canceled_positions = Some(carry);
    }
}

/// A carried-over tail is crossfaded whole: when the next chunk (not a
/// reset) is at least as long as the carried-over rows `carried`, shaping
/// succeeds with as many rows as the chunk has; every row `i` below
/// `carried.len()` is the crossfade of `carried[i]` with the chunk's row `i`,
/// at index `i` of `carried.len()` overlapping rows, so no carried row is
/// dropped; and every later row is the chunk's own.
pub proof fn law_carried_tail_is_crossfaded_whole<R, F: Fn(&R, &R, usize, usize) -> R>(
    carried: Seq<R>,
    next: Seq<R>,
    crossfade: F,
    rows: Result<Vec<R>, BlendError>,
)
    requires
        shaped_rows(Some(carried), false, next, crossfade, rows),
        carried.len() <= next.len(),
    ensures
        rows matches Ok(r) && r@.len() == next.len(),
        rows matches Ok(r) ==> forall|i: int|
            0 <= i < carried.len() ==> call_ensures(
                crossfade,
                (&carried[i], &next[i], i as usize, carried.len() as usize),
                #[trigger] r@[i],
            ),
        rows matches Ok(r) ==> forall|i: int| carried.len() <= i < next.len() ==> #[trigger] r@[i] == next[i],
{
}

/// A canceled chunk's remaining raw rows are what the next chunk blends in:
/// after a cancel at raw step `k`, the next chunk without a reset is
/// crossfaded with exactly `positions[k..]` (its own rows from there on
/// unchanged), and one with a reset is taken as it is.
pub proof fn law_canceled_tail_feeds_next_chunk<R, F: Fn(&R, &R, usize, usize) -> R>(
    state: ExecutorState<R>,
    positions: Seq<R>,
    k: int,
    reset: bool,
    next: Seq<R>,
    crossfade: F,
    rows: Result<Vec<R>, BlendError>,
)
    requires
        state.carried() == Some(carried_rows(positions, k)),
        shaped_rows(state.carried(), reset, next, crossfade, rows),
    ensures
        reset ==> (rows matches Ok(r) && r@ == next),
        !reset ==> (rows is Ok <==> carried_rows(positions, k).len() <= next.len()),
        !reset ==> (rows matches Ok(r) ==> blended_chunk(carried_rows(positions, k), next, crossfade, r@)),
        !reset && k < positions.len() ==> carried_rows(positions, k) == positions.skip(k),
        !reset && k >= positions.len() ==> (rows matches Ok(r) && r@ == next),
{
    if !reset && k >= positions.len() {
        let empty = carried_rows(positions, k);
        assert(empty.len() == 0);
        if let Ok(r) = rows {
            assert(r@ =~= next);
        }
    }
}

/// Over any run of an executor's state, started fresh by
/// [`ExecutorState::new`] and advanced by its operations: filtering is on
/// only when upsampling is, and once the shaping stages are built they are
/// never due again, so they are built at most once, from the first chunk.
pub proof fn law_shaping_built_at_most_once<R>(states: Seq<ExecutorState<R>>, i: int, j: int)
    requires
        states.len() > 0,
        !states[0].initialized(),
        states[0].filtering() ==> states[0].upsampling(),
        forall|k: int|
            0 < k < states.len() ==> #[trigger] ExecutorState::follows(states[k - 1], states[k]),
        0 <= i <= j < states.len(),
        states[i].initialized(),
    ensures
        states[j].initialized(),
        !states[j].lazy_init_due(),
        states[j].filtering() ==> states[j].upsampling(),
    decreases j - i,
{
    if j > i {
        law_shaping_built_at_most_once(states, i, j - 1);
        assert(ExecutorState::follows(states[j - 1], states[j]));
    } else {
        lemma_configuration_fixed(states, j);
    }
}

/// Every state of a run keeps the configuration the run started with.
proof fn lemma_configuration_fixed<R>(states: Seq<ExecutorState<R>>, j: int)
    requires
        0 <= j < states.len(),
        forall|k: int|
            0 < k < states.len() ==> #[trigger] ExecutorState::follows(states[k - 1], states[k]),
    ensures
        states[j].upsampling() == states[0].upsampling(),
        states[j].filtering() == states[0].filtering(),
    decreases j,
{
    if j > 0 {
        lemma_configuration_fixed(states, j - 1);
        assert(ExecutorState::follows(states[j - 1], states[j]));
    }
}

/// The timing and progress of one chunk's steps.
///
/// Step `k` is due one interval after step `k - 1` was due, whatever the
/// clock read when it was checked: a late step does not push later steps
/// back.
#[derive(Debug, Clone, Copy)]
pub struct StepSchedule {
    n_steps: usize,
    next_step: usize,
    base_time_ns: i64,
    interval_ns: i64,
}

impl StepSchedule {
    /// The number of steps in the chunk.
    pub closed spec fn steps(&self) -> nat {
        self.n_steps as nat
    }

    /// The index of the next step to run.
    pub closed spec fn next(&self) -> nat {
        self.next_step as nat
    }

    /// The time, in nanoseconds, the most recently checked step was due
    /// (one interval before the first step, before any step is checked).
    pub closed spec fn base(&self) -> int {
        self.base_time_ns as int
    }

    /// The interval, in nanoseconds, between successive steps.
    pub closed spec fn interval(&self) -> int {
        self.interval_ns as int
    }

    /// Whether `v` fits in an `i64`.
    pub open spec fn fits_i64(v: int) -> bool {
        i64::MIN <= v <= i64::MAX
    }

    /// Checking the next step against clock reading `now_ns` stays within
    /// `i64` arithmetic.
    pub open spec fn wait_fits(&self, now_ns: i64) -> bool {
        &&& Self::fits_i64(self.base() + self.interval())
        &&& Self::fits_i64(self.base() + self.interval() - now_ns)
    }

    /// One check of the next step: `after` is `before` with the step's due
    /// time as the new base, and `sleep` is how long to sleep to reach that
    /// due time from `now_ns` (nothing when it is already due or late).
    pub open spec fn waited(before: Self, now_ns: i64, after: Self, sleep: Option<i64>) -> bool {
        &&& after.base() == before.base() + before.interval()
        &&& after.interval() == before.interval()
        &&& after.steps() == before.steps()
        &&& after.next() == before.next()
        &&& Self::fits_i64(after.base() - now_ns)
        &&& sleep == if after.base() - now_ns > 0 {
            Some((after.base() - now_ns) as i64)
        } else {
            None::<i64>
        }
    }

    /// Starts the schedule of a chunk of `n_steps` steps, `interval_ns`
    /// apart, with the first step due at `now_ns`.
    pub fn start(n_steps: usize, interval_ns: i64, now_ns: i64) -> (schedule: Self)
        requires
            Self::fits_i64(now_ns - interval_ns),
        ensures
            schedule.steps() == n_steps,
            schedule.next() == 0,
            schedule.interval() == interval_ns,
            schedule.base() == now_ns - interval_ns,
    {
        StepSchedule { n_steps, next_step: 0, base_time_ns: now_ns - interval_ns, interval_ns }
    }

    /// Whether a schedule can start at `now_ns` within `i64` arithmetic.
    pub fn can_start(interval_ns: i64, now_ns: i64) -> (fits: bool)
        ensures
            fits == Self::fits_i64(now_ns - interval_ns),
    {
        if interval_ns >= 0 {
            now_ns >= i64::MIN + interval_ns
        } else {
            now_ns <= i64::MAX + interval_ns
        }
    }

    /// The index of the next step to run.
    pub fn current(&self) -> (i: usize)
        ensures
            i == self.next(),
    {
        self.next_step
    }

    /// Whether steps remain.
    pub fn has_next(&self) -> (remaining: bool)
        ensures
            remaining == (self.next() < self.steps()),
    {
        self.next_step < self.n_steps
    }

    /// Checks the next step against clock reading `now_ns`: the step's due
    /// time becomes the new base, and the result is how long to sleep
    /// before running it (nothing when it is already due or late). When the
    /// due time or the sleep would not fit in an `i64`, the schedule is left
    /// as it was and the result is `None`.
    pub fn wait(&mut self, now_ns: i64) -> (checked: Option<Option<i64>>)
        ensures
            checked is Some <==> old(self).wait_fits(now_ns),
            checked matches Some(sleep) ==> Self::waited(*old(self), now_ns, *final(self), sleep),
            checked is None ==> *final(self) == *old(self),
    {
        let base = self.base_time_ns as i128;
        let due = base + self.interval_ns as i128;
        let sleep = due - now_ns as i128;
        if !(i64::MIN as i128 <= due && due <= i64::MAX as i128 && i64::MIN as i128 <= sleep && sleep
            <= i64::MAX as i128) {
            return None;
        }
        let due = self.base_time_ns + self.interval_ns;
        let sleep = due - now_ns;
        self.base_time_ns = due;
        if sleep > 0 {
            Some(Some(sleep))
        } else {
            Some(None)
        }
    }

    /// Decides what the current step does once the event stream has been
    /// polled: nothing new sends it, a new chunk cancels it, and a request
    /// to stop terminates the run.
    pub fn after_poll(&mut self, signal: PendingSignal) -> (decision: StepDecision)
        requires
            old(self).next() < old(self).steps(),
        ensures
            final(self).base() == old(self).base(),
            final(self).interval() == old(self).interval(),
            final(self).steps() == old(self).steps(),
            signal == PendingSignal::NoEvent ==> decision == StepDecision::Emit(old(self).next() as usize)
                && final(self).next() == old(self).next() + 1,
            signal == PendingSignal::NewChunk ==> decision == StepDecision::Cancel(
                old(self).next() as usize,
            ) && final(self).next() == old(self).next(),
            signal == PendingSignal::Terminate ==> decision == StepDecision::Terminate
                && final(self).next() == old(self).next(),
    {
        match signal {
            PendingSignal::NoEvent => {
                let i = self.next_step;
                self.next_step = i + 1;
                StepDecision::Emit(i)
            },
            PendingSignal::NewChunk => StepDecision::Cancel(self.next_step),
            PendingSignal::Terminate => StepDecision::Terminate,
        }
    }
}

/// How a chunk's steps ended, and at which step.
#[derive(Debug, Clone, Copy, PartialEq, Eq, Structural)]
pub enum StepsEnd {
    /// Every step was sent.
    Completed,
    /// A new chunk arrived when step `i` was due; steps before `i` were sent.
    Cancelled(usize),
    /// The node is to stop; it was observed when step `i` was due, and
    /// steps before `i` were sent.
    Terminated(usize),
    /// The clock read at step `i` lies so far from the schedule that the
    /// step's due time or sleep does not fit in an `i64`.
    ClockOverflow(usize),
}

/// What one checked step observed: the clock reading it was checked
/// against, the sleep it asked for, the clock reading taken as its
/// timestamp, and the signal polled afterwards.
#[derive(Debug, Clone, Copy, PartialEq, Eq, Structural)]
pub struct StepTrace {
    /// The clock reading the step was checked against.
    pub now_ns: i64,
    /// How long the step asked to sleep (nothing when it was due or late).
    pub sleep_ns: Option<i64>,
    /// The clock reading taken after the sleep: the step's timestamp.
    pub timestamp_ns: i64,
    /// The signal polled once the step was timed.
    pub signal: PendingSignal,
}

/// What a run of steps did.
pub struct StepsRun<'a, P, O, S, T> {
    /// How the run ended.
    pub end: StepsEnd,
    /// One entry per step that was timed and polled, in order.
    pub trace: Vec<StepTrace>,
    /// What each call of the send callback returned, in order.
    pub sent: Vec<O>,
    /// The position prepared for each step the run reached, in order.
    pub positions: Ghost<Seq<P>>,
    /// The prepare callback, with the record of every call the run made on
    /// it.
    pub prepare_calls: PrepareCalls<P, &'a mut S>,
    /// The send callback, with the record of every call the run made on it.
    pub emit_calls: EmitCalls<P, O, &'a mut T>,
}

/// How long a step due at `due` asks to sleep when the clock reads `now`.
pub open spec fn sleep_for(due: int, now: int) -> Option<i64> {
    if due - now > 0 {
        Some((due - now) as i64)
    } else {
        None::<i64>
    }
}

/// The number of steps a run that ended with `end` timed and polled, given
/// that it stopped with `next` as the schedule's next step and started at
/// `first`.
pub open spec fn traced_steps(end: StepsEnd, first: int, next: int) -> int {
    match end {
        StepsEnd::Cancelled(_) => next - first + 1,
        StepsEnd::Terminated(_) => next - first + 1,
        _ => next - first,
    }
}

/// Runs the remaining steps of `schedule` through `env`.
///
/// For each step `i`: `prepare(i)` produces the step's position first; then
/// the step is checked against the clock and, if it is not yet due, slept
/// for; the clock is read again for the step's timestamp; then the event
/// stream is polled. Nothing new sends the step's position and timestamp
/// through `emit`; a new chunk cancels the run at step `i`, and a request to
/// stop ends it at step `i`, in both cases without sending step `i`.
///
/// The result records, per step, what the clock read, how long the step
/// slept, its timestamp and the polled signal; the position prepared for
/// each step; and what each send returned. Step `k` of the run is due one
/// interval after step `k - 1`, whatever the clock read. The calls made on
/// `env` are exactly those the trace describes (see [`trace_calls`]), plus,
/// when the clock lies too far from the schedule, the one reading that
/// showed it. `prepare` and `emit` are reached only through the records
/// handed back in the result: `prepare` is called exactly once per step the
/// run reached, with that step's index, and each sent step is sent, once,
/// with the position that call returned and the step's timestamp.
pub fn run_steps<'a, P, E: Environment, S: FnMut(usize) -> P, O, T: FnMut(P, i64) -> O>(
    schedule: &mut StepSchedule,
    env: &mut Recorded<E>,
    prepare: &'a mut S,
    emit: &'a mut T,
) -> (run: StepsRun<'a, P, O, S, T>)
    requires
        old(schedule).next() <= old(schedule).steps(),
        forall|i: usize| call_requires(*old(prepare), (i,)),
        forall|p: P, t: i64| call_requires(*old(emit), (p, t)),
    ensures
        final(schedule).steps() == old(schedule).steps(),
        final(schedule).interval() == old(schedule).interval(),
        final(schedule).next() >= old(schedule).next(),
        run.end == StepsEnd::Completed ==> final(schedule).next() == old(schedule).steps(),
        run.end matches StepsEnd::Cancelled(i) ==> i == final(schedule).next() < final(schedule).steps(),
        run.end matches StepsEnd::Terminated(i) ==> i == final(schedule).next() < final(schedule).steps(),
        run.end matches StepsEnd::ClockOverflow(i) ==> i == final(schedule).next()
            < final(schedule).steps(),
        run.trace@.len() == traced_steps(run.end, old(schedule).next() as int, final(schedule).next() as int),
        final(schedule).base() == old(schedule).base() + run.trace@.len() * old(schedule).interval(),
        run.sent@.len() == final(schedule).next() - old(schedule).next(),
        run.end is ClockOverflow ==> exists|t: i64|
            final(env).calls() == old(env).calls() + trace_calls(run.trace@) + seq![EnvCall::Now(t)],
        !(run.end is ClockOverflow) ==> final(env).calls() == old(env).calls() + trace_calls(
            run.trace@,
        ),
        run.positions@.len() == if run.end is ClockOverflow {
            run.trace@.len() + 1int
        } else {
            run.trace@.len() as int
        },
        forall|k: int|
            0 <= k < run.trace@.len() ==> #[trigger] run.trace@[k].sleep_ns == sleep_for(
                old(schedule).base() + (k + 1) * old(schedule).interval(),
                run.trace@[k].now_ns as int,
            ),
        forall|k: int| 0 <= k < run.sent@.len() ==> #[trigger] run.trace@[k].signal == PendingSignal::NoEvent,
        run.end matches StepsEnd::Cancelled(_) ==> run.trace@.last().signal == PendingSignal::NewChunk,
        run.end matches StepsEnd::Terminated(_) ==> run.trace@.last().signal == PendingSignal::Terminate,
        run.prepare_calls.calls().len() == run.positions@.len(),
        forall|k: int|
            0 <= k < run.positions@.len() ==> #[trigger] run.prepare_calls.calls()[k] == (
                (old(schedule).next() + k) as usize,
                run.positions@[k],
            ),
        run.emit_calls.calls().len() == run.sent@.len(),
        forall|k: int|
            0 <= k < run.sent@.len() ==> #[trigger] run.emit_calls.calls()[k] == (
                run.positions@[k],
                run.trace@[k].timestamp_ns,
                run.sent@[k],
            ),
        forall|k: int|
            0 <= k < run.positions@.len() ==> call_ensures(
                *old(prepare),
                ((old(schedule).next() + k) as usize,),
                #[trigger] run.positions@[k],
            ),
        forall|k: int|
            0 <= k < run.sent@.len() ==> call_ensures(
                *old(emit),
                (run.positions@[k], run.trace@[k].timestamp_ns),
                #[trigger] run.sent@[k],
            ),
{
    let ghost first = old(schedule).next();
    let ghost base0 = old(schedule).base();
    let ghost interval = old(schedule).interval();
    let ghost prepare0 = *old(prepare);
    let ghost emit0 = *old(emit);
    let mut trace: Vec<StepTrace> = Vec::new();
    let mut sent: Vec<O> = Vec::new();
    let ghost mut positions: Seq<P> = Seq::empty();
    let mut prep = PrepareCalls::new(prepare);
    let mut send = EmitCalls::new(emit);
    while schedule.has_next()
        invariant
            first == old(schedule).next(),
            base0 == old(schedule).base(),
            interval == old(schedule).interval(),
            prepare0 == *old(prepare),
            emit0 == *old(emit),
            *prep.callback() == prepare0,
            *send.callback() == emit0,
            prep.calls().len() == positions.len(),
            forall|k: int|
                0 <= k < positions.len() ==> #[trigger] prep.calls()[k] == (
                    (first + k) as usize,
                    positions[k],
                ),
            send.calls().len() == sent@.len(),
            forall|k: int|
                0 <= k < sent@.len() ==> #[trigger] send.calls()[k] == (
                    positions[k],
                    trace@[k].timestamp_ns,
                    sent@[k],
                ),
            env.calls() == old(env).calls() + trace_calls(trace@),
            schedule.steps() == old(schedule).steps(),
            schedule.interval() == interval,
            first <= schedule.next() <= schedule.steps(),
            trace@.len() == schedule.next() - first,
            sent@.len() == schedule.next() - first,
            positions.len() == schedule.next() - first,
            schedule.base() == base0 + (schedule.next() - first) * interval,
            forall|i: usize| call_requires(prepare0, (i,)),
            forall|p: P, t: i64| call_requires(emit0, (p, t)),
            forall|k: int|
                0 <= k < trace@.len() ==> #[trigger] trace@[k].sleep_ns == sleep_for(
                    base0 + (k + 1) * interval,
                    trace@[k].now_ns as int,
                ),
            forall|k: int| 0 <= k < trace@.len() ==> #[trigger] trace@[k].signal == PendingSignal::NoEvent,
            forall|k: int|
                0 <= k < positions.len() ==> call_ensures(
                    prepare0,
                    ((first + k) as usize,),
                    #[trigger] positions[k],
                ),
            forall|k: int|
                0 <= k < sent@.len() ==> call_ensures(
                    emit0,
                    (positions[k], trace@[k].timestamp_ns),
                    #[trigger] sent@[k],
                ),
        decreases schedule.steps() - schedule.next(),
    {
        let ghost before = *schedule;
        let i = schedule.current();
        let position = prep.call(i);
        proof {
            positions = positions.push(position);
        }
        let ghost calls_before = env.calls();
        let ghost trace_before = trace@;
        let now_ns = env.now_ns();
        let sleep_ns = match schedule.wait(now_ns) {
            None => {
                assert(env.calls() =~= old(env).calls() + trace_calls(trace@) + seq![EnvCall::Now(now_ns)]);
                return StepsRun { end: StepsEnd::ClockOverflow(i), trace, sent, positions: Ghost(positions), prepare_calls: prep, emit_calls: send };
            },
            Some(sleep) => sleep,
        };
        if let Some(d) = sleep_ns {
            env.sleep_ns(d);
        }
        let timestamp_ns = env.now_ns();
        let signal = env.poll();
        assert(schedule.base() == base0 + (i + 1 - first) * interval) by (nonlinear_arith)
            requires
                schedule.base() == before.base() + interval,
                before.base() == base0 + (i - first) * interval,
        ;
        let step = StepTrace { now_ns, sleep_ns, timestamp_ns, signal };
        trace.push(step);
        proof {
            assert(trace@.drop_last() =~= trace_before);
            assert(env.calls() =~= calls_before + step_calls(step));
            assert(env.calls() =~= old(env).calls() + trace_calls(trace@));
        }
        match schedule.after_poll(signal) {
            StepDecision::Emit(_) => {
                let out = send.call(position, timestamp_ns);
                sent.push(out);
            },
            StepDecision::Cancel(at) => {
                return StepsRun { end: StepsEnd::Cancelled(at), trace, sent, positions: Ghost(positions), prepare_calls: prep, emit_calls: send };
            },
            StepDecision::Terminate => {
                return StepsRun { end: StepsEnd::Terminated(i), trace, sent, positions: Ghost(positions), prepare_calls: prep, emit_calls: send };
            },
        }
    }
    StepsRun { end: StepsEnd::Completed, trace, sent, positions: Ghost(positions), prepare_calls: prep, emit_calls: send }
}

/// No step is prepared twice: in a record of prepare calls whose `k`-th
/// call was given step `first + k` (as [`run_steps`] hands back), no two
/// calls were given the same step.
pub proof fn law_each_step_prepared_once<P>(calls: Seq<(usize, P)>, first: int)
    requires
        forall|k: int| 0 <= k < calls.len() ==> #[trigger] calls[k].0 == first + k,
    ensures
        forall|j: int, k: int|
            0 <= j < calls.len() && 0 <= k < calls.len() && #[trigger] calls[j].0 == #[trigger] calls[k].0
                ==> j == k,
{
}

/// Steps stay on their schedule: after `k` checks, whatever the clock read
/// at each of them, the latest step's due time is exactly `k` intervals
/// after the schedule's base.
pub proof fn law_steps_do_not_drift(
    states: Seq<StepSchedule>,
    nows: Seq<i64>,
    sleeps: Seq<Option<i64>>,
    k: int,
)
    requires
        0 <= k < states.len(),
        nows.len() + 1 >= states.len(),
        sleeps.len() + 1 >= states.len(),
        forall|j: int|
            0 < j <= k ==> #[trigger] StepSchedule::waited(
                states[j - 1],
                nows[j - 1],
                states[j],
                sleeps[j - 1],
            ),
    ensures
        states[k].base() == states[0].base() + k * states[0].interval(),
        states[k].interval() == states[0].interval(),
    decreases k,
{
    if k > 0 {
        law_steps_do_not_drift(states, nows, sleeps, k - 1);
        assert(StepSchedule::waited(states[k - 1], nows[k - 1], states[k], sleeps[k - 1]));
        assert(states[0].base() + (k - 1) * states[0].interval() + states[0].interval()
            == states[0].base() + k * states[0].interval()) by (nonlinear_arith);
    }
}

/// A step checked on time lands on its due time: when the clock reads no
/// later than the step's due time and the caller sleeps exactly as long as
/// asked, the clock then reads the due time; a step checked late is not
/// slept for at all.
pub proof fn law_sleep_lands_on_due_time(
    before: StepSchedule,
    now_ns: i64,
    after: StepSchedule,
    sleep: Option<i64>,
)
    requires
        StepSchedule::waited(before, now_ns, after, sleep),
    ensures
        now_ns < after.base() ==> (sleep matches Some(d) && now_ns + d == after.base()),
        now_ns >= after.base() ==> sleep is None,
{
}

} // verus!
