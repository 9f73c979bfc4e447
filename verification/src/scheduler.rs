//! The frame scheduler: throttling to a target rate and counting frames per
//! second.
//!
//! Instants and durations are unsigned numbers of nanoseconds. An instant
//! counts from an origin that the caller picks once, such as the start of
//! the process on a monotonic clock.

use vstd::prelude::*;

verus! {

/// Nanoseconds in one millisecond.
pub const NANOS_PER_MILLI: u64 = 1_000_000;

/// Nanoseconds in one second, the length of a frame-counting window.
pub const NANOS_PER_SECOND: u64 = 1_000_000_000;

/// Milliseconds in one second.
pub const MILLIS_PER_SECOND: u64 = 1_000;

/// The time from `earlier` to `later`, and zero where `later` lies before
/// `earlier`.
pub open spec fn elapsed_between(earlier: nat, later: nat) -> nat {
    if later >= earlier {
        (later - earlier) as nat
    } else {
        0
    }
}

/// The frame interval, in whole milliseconds, of a target rate given in
/// frames per second: a second divided by the rate, rounded down.
pub open spec fn interval_millis(target_fps: nat) -> nat
    recommends
        target_fps > 0,
{
    MILLIS_PER_SECOND as nat / target_fps
}

/// The mathematical state of a scheduler.
pub struct SchedulerState {
    /// The least time between two executed frames, in nanoseconds.
    pub frame_interval: nat,
    /// The frames executed in the current counting window.
    pub frame_count: nat,
    /// The instant of the last executed frame.
    pub previous_instant: nat,
    /// The instant at which the current counting window began.
    pub previous_second: nat,
}

impl SchedulerState {
    /// The state of a scheduler made at `now` for `target_fps` frames per
    /// second.
    pub open spec fn initial(target_fps: nat, now: nat) -> SchedulerState
        recommends
            target_fps > 0,
    {
        SchedulerState {
            frame_interval: interval_millis(target_fps) * NANOS_PER_MILLI as nat,
            frame_count: 0,
            previous_instant: now,
            previous_second: now,
        }
    }

    /// The time since the last executed frame.
    pub open spec fn elapsed(self, now: nat) -> nat {
        elapsed_between(self.previous_instant, now)
    }

    /// Whether an iteration at `now` comes too soon to run a frame.
    pub open spec fn throttles(self, now: nat) -> bool {
        self.elapsed(now) < self.frame_interval
    }

    /// How long an iteration at `now` that comes too soon has to sleep.
    pub open spec fn remaining(self, now: nat) -> nat
        recommends
            self.throttles(now),
    {
        (self.frame_interval - self.elapsed(now)) as nat
    }

    /// Whether a frame executed at `now` closes the counting window.
    pub open spec fn window_elapsed(self, now: nat) -> bool {
        elapsed_between(self.previous_second, now) >= NANOS_PER_SECOND as nat
    }

    /// The state after a frame executed at `now` was counted: the count
    /// goes up by one, and where the window has elapsed a new window begins
    /// at `now` with a count of zero.
    pub open spec fn counted(self, now: nat) -> SchedulerState {
        if self.window_elapsed(now) {
            SchedulerState { frame_count: 0, previous_second: now, ..self }
        } else {
            SchedulerState { frame_count: self.frame_count + 1, ..self }
        }
    }

    /// The frame count that a frame executed at `now` reports, if it closes
    /// the counting window: the frames counted in that window, itself
    /// included.
    pub open spec fn report(self, now: nat) -> Option<nat> {
        if self.window_elapsed(now) {
            Some(self.frame_count + 1)
        } else {
            None
        }
    }

    /// The state after a frame was executed at `now` and the loop goes on.
    pub open spec fn after_frame(self, now: nat) -> SchedulerState {
        SchedulerState { previous_instant: now, ..self }.counted(now)
    }

    /// One iteration of the loop: the state it leaves and what it did. An
    /// iteration that comes too soon sleeps and changes nothing. Otherwise
    /// the frame runs; if it asks to stop, the loop ends with the state as
    /// it was, else the frame is recorded.
    pub open spec fn step(self, tick: Tick) -> (SchedulerState, Outcome) {
        let now = tick.now as nat;
        if self.throttles(now) {
            (self, Outcome::Skipped { sleep: self.remaining(now) })
        } else if tick.keep_running {
            (
                self.after_frame(now),
                Outcome::Executed { elapsed: self.elapsed(now), fps: self.report(now) },
            )
        } else {
            (self, Outcome::Stopped { elapsed: self.elapsed(now) })
        }
    }

    /// The loop over a timeline: the state it ends in and what each
    /// iteration did. Iterations follow the timeline one by one until a
    /// frame asks to stop or the timeline ends.
    pub open spec fn run(self, ticks: Seq<Tick>) -> (SchedulerState, Seq<Outcome>)
        decreases ticks.len(),
    {
        if ticks.len() == 0 {
            (self, Seq::empty())
        } else {
            let (state, outcomes) = self.run(ticks.drop_last());
            if has_stopped(outcomes) {
                (state, outcomes)
            } else {
                let (next, outcome) = state.step(ticks.last());
                (next, outcomes.push(outcome))
            }
        }
    }
}

/// What one iteration of the loop observes.
#[derive(Debug, Clone, Copy, PartialEq, Eq, Structural)]
pub struct Tick {
    /// The clock as sampled at the start of the iteration.
    pub now: u64,
    /// The answer of the frame body if the iteration runs it: whether the
    /// loop goes on.
    pub keep_running: bool,
}

/// What one iteration of the loop did, as a mathematical value.
pub enum Outcome {
    /// It came too soon and slept.
    Skipped { sleep: nat },
    /// It ran the frame `elapsed` after the last one, and the loop went on.
    /// `fps` is the frame count it reported, if it closed a counting window.
    Executed { elapsed: nat, fps: Option<nat> },
    /// It ran the frame `elapsed` after the last one, and the frame ended
    /// the loop.
    Stopped { elapsed: nat },
}

impl Outcome {
    /// Whether the iteration ran the frame body.
    pub open spec fn ran_frame(self) -> bool {
        self is Executed || self is Stopped
    }

    /// Whether the iteration reported a frame count.
    pub open spec fn reported(self) -> bool {
        self matches Outcome::Executed { fps, .. } && fps is Some
    }
}

/// Whether the last of these iterations ended the loop.
pub open spec fn has_stopped(outcomes: Seq<Outcome>) -> bool {
    outcomes.len() > 0 && outcomes.last() is Stopped
}

/// What one iteration of the loop did.
#[derive(Debug, Clone, Copy, PartialEq, Eq, Structural)]
pub enum Iteration {
    /// It came too soon and slept for `sleep`.
    Skipped { sleep: u64 },
    /// It ran the frame `elapsed` after the last one, and the loop went on.
    /// `fps` is the frame count it reported, if it closed a counting window.
    Executed { elapsed: u64, fps: Option<u64> },
    /// It ran the frame `elapsed` after the last one, and the frame ended
    /// the loop.
    Stopped { elapsed: u64 },
}

impl View for Iteration {
    type V = Outcome;

    open spec fn view(&self) -> Outcome {
        match *self {
            Iteration::Skipped { sleep } => Outcome::Skipped { sleep: sleep as nat },
            Iteration::Executed { elapsed, fps } => Outcome::Executed {
                elapsed: elapsed as nat,
                fps: match fps {
                    Some(frames) => Some(frames as nat),
                    None => None,
                },
            },
            Iteration::Stopped { elapsed } => Outcome::Stopped { elapsed: elapsed as nat },
        }
    }
}

/// The mathematical values of a sequence of iterations.
pub open spec fn outcomes_of(iterations: Seq<Iteration>) -> Seq<Outcome> {
    iterations.map_values(|iteration: Iteration| iteration@)
}

/// The record of a run of the loop.
#[derive(Debug, PartialEq, Eq)]
pub struct RunLog {
    /// The scheduler as the run left it.
    pub game_loop: GameLoop,
    /// What each iteration did, in order.
    pub iterations: Vec<Iteration>,
}

/// Why a scheduler could not be made.
#[derive(Debug, Clone, Copy, PartialEq, Eq, Structural)]
pub enum ConstructionError {
    /// The target rate was zero frames per second, which gives no frame
    /// interval.
    ZeroFrameRate,
}

/// What the scheduler decides for one iteration of the loop.
#[derive(Debug, Clone, Copy, PartialEq, Eq, Structural)]
pub enum FrameThrottler {
    /// The iteration comes too soon: sleep for this long, then sample the
    /// clock again.
    Skip(u64),
    /// Run the frame, and hand it the time since the last executed frame.
    Run(u64),
}

/// A frame scheduler for one loop.
#[derive(Debug, Clone, Copy, PartialEq, Eq, Structural)]
pub struct GameLoop {
    frame_interval: u64,
    frame_count: u64,
    previous_instant: u64,
    previous_second: u64,
}

impl View for GameLoop {
    type V = SchedulerState;

    closed spec fn view(&self) -> SchedulerState {
        SchedulerState {
            frame_interval: self.frame_interval as nat,
            frame_count: self.frame_count as nat,
            previous_instant: self.previous_instant as nat,
            previous_second: self.previous_second as nat,
        }
    }
}

impl GameLoop {
    /// Makes a scheduler at the instant `now` for a target rate of
    /// `target_fps` whole frames per second. The frame interval is a second
    /// divided by the rate, rounded down to whole milliseconds. A rate of
    /// zero has no frame interval: the caller keeps it out, or calls
    /// `try_new`, which rejects it.
    pub fn new(target_fps: u64, now: u64) -> (game_loop: GameLoop)
        requires
            target_fps > 0,
        ensures
            game_loop@ == SchedulerState::initial(target_fps as nat, now as nat),
            game_loop@.frame_interval == (MILLIS_PER_SECOND / target_fps) * NANOS_PER_MILLI,
    {
        let millis: u64 = MILLIS_PER_SECOND / target_fps;
        GameLoop {
            frame_interval: millis * NANOS_PER_MILLI,
            frame_count: 0,
            previous_instant: now,
            previous_second: now,
        }
    }

    /// Makes a scheduler as `new` does, and rejects a target rate of zero.
    pub fn try_new(target_fps: u64, now: u64) -> (made: Result<GameLoop, ConstructionError>)
        ensures
            match made {
                Ok(game_loop) => target_fps > 0 && game_loop@ == SchedulerState::initial(
                    target_fps as nat,
                    now as nat,
                ),
                Err(error) => target_fps == 0 && error == ConstructionError::ZeroFrameRate,
            },
    {
        if target_fps == 0 {
            Err(ConstructionError::ZeroFrameRate)
        } else {
            Ok(GameLoop::new(target_fps, now))
        }
    }

    /// The least time between two executed frames, in nanoseconds.
    pub fn frame_interval(&self) -> (nanos: u64)
        ensures
            nanos == self@.frame_interval,
    {
        self.frame_interval
    }

    /// The least time between two executed frames, in whole milliseconds.
    pub fn frame_interval_millis(&self) -> (millis: u64)
        ensures
            millis == self@.frame_interval / NANOS_PER_MILLI as nat,
    {
        self.frame_interval / NANOS_PER_MILLI
    }

    /// The frames executed in the current counting window.
    pub fn frame_count(&self) -> (frames: u64)
        ensures
            frames == self@.frame_count,
    {
        self.frame_count
    }

    /// The instant of the last executed frame, or of the making of the
    /// scheduler if none was executed yet.
    pub fn previous_instant(&self) -> (instant: u64)
        ensures
            instant == self@.previous_instant,
    {
        self.previous_instant
    }

    /// The instant at which the current counting window began.
    pub fn previous_second(&self) -> (instant: u64)
        ensures
            instant == self@.previous_second,
    {
        self.previous_second
    }

    /// Decides whether an iteration that sampled the clock at `now` runs a
    /// frame. Less than a frame interval after the last executed frame it
    /// does not, and the caller sleeps for the rest of the interval. A clock
    /// that reads less than it did at the last executed frame counts as no
    /// time passed. The scheduler itself is left as it is.
    pub fn throttle(&self, now: u64) -> (decision: FrameThrottler)
        ensures
            match decision {
                FrameThrottler::Skip(sleep) => self@.throttles(now as nat) && sleep
                    == self@.remaining(now as nat),
                FrameThrottler::Run(elapsed) => !self@.throttles(now as nat) && elapsed
                    == self@.elapsed(now as nat),
            },
    {
        let delta: u64 = now.saturating_sub(self.previous_instant);
        if delta < self.frame_interval {
            FrameThrottler::Skip(self.frame_interval - delta)
        } else {
            FrameThrottler::Run(delta)
        }
    }

    /// Counts a frame executed at `now`. Where a second or more has passed
    /// since the counting window began, returns the frames counted in it,
    /// this one included, and begins a new window at `now`.
    pub fn update_fps_display(&mut self, now: u64) -> (fps: Option<u64>)
        requires
            old(self)@.frame_count < u64::MAX,
        ensures
            final(self)@ == old(self)@.counted(now as nat),
            match fps {
                Some(frames) => old(self)@.report(now as nat) == Some(frames as nat),
                None => old(self)@.report(now as nat) is None,
            },
    {
        self.frame_count = self.frame_count + 1;
        if now.saturating_sub(self.previous_second) >= NANOS_PER_SECOND {
            let frames: u64 = self.frame_count;
            self.previous_second = now;
            self.frame_count = 0;
            Some(frames)
        } else {
            None
        }
    }

    /// Records that the frame of an iteration at `now` was executed and
    /// that the loop goes on: `now` becomes the instant of the last executed
    /// frame, and the frame is counted as `update_fps_display` counts it.
    pub fn complete_frame(&mut self, now: u64) -> (fps: Option<u64>)
        requires
            old(self)@.frame_count < u64::MAX,
        ensures
            final(self)@ == old(self)@.after_frame(now as nat),
            match fps {
                Some(frames) => old(self)@.report(now as nat) == Some(frames as nat),
                None => old(self)@.report(now as nat) is None,
            },
    {
        self.previous_instant = now;
        self.update_fps_display(now)
    }

    /// One iteration of the loop: throttles, and where the frame runs and
    /// `tick.keep_running` says that the loop goes on, records the frame.
    pub fn step(&mut self, tick: Tick) -> (iteration: Iteration)
        requires
            old(self)@.frame_count < u64::MAX,
        ensures
            (final(self)@, iteration@) == old(self)@.step(tick),
    {
        match self.throttle(tick.now) {
            FrameThrottler::Skip(sleep) => Iteration::Skipped { sleep },
            FrameThrottler::Run(elapsed) => {
                if tick.keep_running {
                    let fps: Option<u64> = self.complete_frame(tick.now);
                    Iteration::Executed { elapsed, fps }
                } else {
                    Iteration::Stopped { elapsed }
                }
            },
        }
    }

    /// Runs the loop over a timeline: one iteration for each tick, in order,
    /// until a frame asks to stop or the timeline ends. Returns the
    /// scheduler as the last iteration left it and what each iteration did.
    pub fn run(self, ticks: &Vec<Tick>) -> (log: RunLog)
        requires
            self@.frame_count + ticks@.len() <= u64::MAX,
        ensures
            (log.game_loop@, outcomes_of(log.iterations@)) == self@.run(ticks@),
    {
        let mut game_loop: GameLoop = self;
        let mut iterations: Vec<Iteration> = Vec::new();
        let mut stopped: bool = false;
        let mut i: usize = 0;
        while i < ticks.len() && !stopped
            invariant
                i <= ticks@.len(),
                self@.frame_count + ticks@.len() <= u64::MAX,
                game_loop@.frame_count <= self@.frame_count + i,
                (game_loop@, outcomes_of(iterations@)) == self@.run(ticks@.take(i as int)),
                stopped == has_stopped(outcomes_of(iterations@)),
            decreases ticks@.len() - i,
        {
            let tick: Tick = ticks[i];
            let iteration: Iteration = game_loop.step(tick);
            iterations.push(iteration);
            if let Iteration::Stopped { .. } = iteration {
                stopped = true;
            }
            proof {
                lemma_run_extends(self@, ticks@.take(i as int), tick);
                assert(ticks@.take(i as int + 1) == ticks@.take(i as int).push(tick));
            }
            i = i + 1;
        }
        proof {
            lemma_run_ends_when_stopped(self@, ticks@, i as int);
        }
        RunLog { game_loop, iterations }
    }
}

/// The frame interval in milliseconds is the largest whole number of
/// milliseconds that fits `target_fps` times into a second: the exact
/// quotient of a second by the rate, rounded down.
pub proof fn lemma_interval_is_rounded_down(target_fps: nat)
    requires
        target_fps > 0,
    ensures
        interval_millis(target_fps) * target_fps <= 1000,
        1000 < (interval_millis(target_fps) + 1) * target_fps,
{
    let quotient = 1000nat / target_fps;
    assert(1000 == quotient * target_fps + 1000nat % target_fps) by (nonlinear_arith)
        requires
            target_fps > 0,
            quotient == 1000nat / target_fps,
    ;
    assert((quotient + 1) * target_fps == quotient * target_fps + target_fps)
        by (nonlinear_arith);
}

/// A run over nothing does nothing, and a run over a timeline with one
/// more tick at its end is the run over the timeline, followed by one step
/// at that tick unless the run has stopped.
pub proof fn lemma_run_extends(state: SchedulerState, ticks: Seq<Tick>, tick: Tick)
    ensures
        state.run(Seq::empty()) == (state, Seq::<Outcome>::empty()),
        has_stopped(state.run(ticks).1) ==> state.run(ticks.push(tick)) == state.run(ticks),
        !has_stopped(state.run(ticks).1) ==> state.run(ticks.push(tick)) == (
            state.run(ticks).0.step(tick).0,
            state.run(ticks).1.push(state.run(ticks).0.step(tick).1),
        ),
{
    assert(ticks.push(tick).drop_last() == ticks);
}

/// Once a frame has asked to stop, the rest of the timeline changes
/// nothing.
pub proof fn lemma_run_ends_when_stopped(state: SchedulerState, ticks: Seq<Tick>, n: int)
    requires
        0 <= n <= ticks.len(),
        n == ticks.len() || has_stopped(state.run(ticks.take(n)).1),
    ensures
        state.run(ticks) == state.run(ticks.take(n)),
    decreases ticks.len(),
{
    if n == ticks.len() {
        assert(ticks.take(n) == ticks);
    } else {
        assert(ticks.drop_last().take(n) == ticks.take(n));
        lemma_run_ends_when_stopped(state, ticks.drop_last(), n);
    }
}

/// The number of iterations among `outcomes[from..to]` whose frame was
/// executed and recorded.
pub open spec fn frames_between(outcomes: Seq<Outcome>, from: int, to: int) -> nat
    decreases to - from,
{
    if to <= from {
        0
    } else if outcomes[to - 1] is Executed {
        frames_between(outcomes, from, to - 1) + 1
    } else {
        frames_between(outcomes, from, to - 1)
    }
}

/// How a run is built up: iteration `i` of a run starts in the state that
/// the run over the first `i` ticks ends in, and does what one step from
/// that state does at tick `i`. Only the last iteration of a run can be one
/// that stopped, and the frame interval never changes.
pub proof fn lemma_run_unfolds(state: SchedulerState, ticks: Seq<Tick>, i: int)
    requires
        0 <= i < state.run(ticks).1.len(),
    ensures
        i < ticks.len(),
        state.run(ticks.take(i)).1 == state.run(ticks).1.take(i),
        !has_stopped(state.run(ticks.take(i)).1),
        state.run(ticks.take(i)).0.frame_interval == state.frame_interval,
        state.run(ticks).1[i] == state.run(ticks.take(i)).0.step(ticks[i]).1,
        state.run(ticks.take(i + 1)).0 == state.run(ticks.take(i)).0.step(ticks[i]).0,
        state.run(ticks).1[i] is Stopped ==> i + 1 == state.run(ticks).1.len(),
    decreases ticks.len(),
{
    lemma_run_shape(state, ticks);
    if ticks.len() > 0 {
        let front = ticks.drop_last();
        lemma_run_shape(state, front);
        if i < state.run(front).1.len() {
            lemma_run_unfolds(state, front, i);
            assert(front.take(i) == ticks.take(i));
            if i + 1 <= front.len() {
                assert(front.take(i + 1) == ticks.take(i + 1));
            }
        } else {
            assert(ticks.take(i + 1) == ticks);
        }
    }
}

/// The shape of a run: it has at most one iteration for each tick, exactly
/// one unless it stopped, and it keeps the frame interval.
pub proof fn lemma_run_shape(state: SchedulerState, ticks: Seq<Tick>)
    ensures
        state.run(ticks).1.len() <= ticks.len(),
        !has_stopped(state.run(ticks).1) ==> state.run(ticks).1.len() == ticks.len(),
        state.run(ticks).0.frame_interval == state.frame_interval,
    decreases ticks.len(),
{
    if ticks.len() > 0 {
        lemma_run_shape(state, ticks.drop_last());
    }
}

/// An iteration that sleeps leaves the scheduler as it was: neither the
/// instant of the last executed frame nor the frame count changes.
pub proof fn lemma_skip_changes_nothing(state: SchedulerState, ticks: Seq<Tick>, i: int)
    requires
        0 <= i < state.run(ticks).1.len(),
        state.run(ticks).1[i] is Skipped,
    ensures
        state.run(ticks.take(i + 1)).0 == state.run(ticks.take(i)).0,
{
    lemma_run_unfolds(state, ticks, i);
}

/// A frame runs only when at least a frame interval has passed since the
/// scheduler was made, as long as no frame ran before it.
pub proof fn lemma_first_frame_is_spaced(state: SchedulerState, ticks: Seq<Tick>, j: int)
    requires
        0 <= j < state.run(ticks).1.len(),
        state.run(ticks).1[j].ran_frame(),
        forall|k: int| 0 <= k < j ==> !(#[trigger] state.run(ticks).1[k]).ran_frame(),
    ensures
        elapsed_between(state.previous_instant, ticks[j].now as nat) >= state.frame_interval,
        state.run(ticks).1[j] matches Outcome::Executed { elapsed, .. } ==> elapsed
            == elapsed_between(state.previous_instant, ticks[j].now as nat),
        state.run(ticks).1[j] matches Outcome::Stopped { elapsed } ==> elapsed == elapsed_between(
            state.previous_instant,
            ticks[j].now as nat,
        ),
{
    lemma_idle_keeps_state(state, ticks, j);
    lemma_run_unfolds(state, ticks, j);
}

/// The throttle invariant: two frames that run one after the other, with
/// none between them, lie at least a frame interval apart, and the later
/// one is handed the time between them.
pub proof fn lemma_frames_are_spaced(state: SchedulerState, ticks: Seq<Tick>, i: int, j: int)
    requires
        0 <= i < j < state.run(ticks).1.len(),
        state.run(ticks).1[i].ran_frame(),
        state.run(ticks).1[j].ran_frame(),
        forall|k: int| i < k < j ==> !(#[trigger] state.run(ticks).1[k]).ran_frame(),
    ensures
        elapsed_between(ticks[i].now as nat, ticks[j].now as nat) >= state.frame_interval,
        state.run(ticks).1[j] matches Outcome::Executed { elapsed, .. } ==> elapsed
            == elapsed_between(ticks[i].now as nat, ticks[j].now as nat),
        state.run(ticks).1[j] matches Outcome::Stopped { elapsed } ==> elapsed == elapsed_between(
            ticks[i].now as nat,
            ticks[j].now as nat,
        ),
{
    lemma_last_frame_instant(state, ticks, i, j);
    lemma_run_unfolds(state, ticks, j);
}

/// Before any frame has run, the scheduler is as it was made.
proof fn lemma_idle_keeps_state(state: SchedulerState, ticks: Seq<Tick>, m: int)
    requires
        0 <= m < state.run(ticks).1.len(),
        forall|k: int| 0 <= k < m ==> !(#[trigger] state.run(ticks).1[k]).ran_frame(),
    ensures
        state.run(ticks.take(m)).0 == state,
    decreases m,
{
    if m > 0 {
        lemma_idle_keeps_state(state, ticks, m - 1);
        lemma_run_unfolds(state, ticks, m - 1);
    }
}

/// From one executed frame up to the next, the scheduler holds the instant
/// of that frame as the instant of the last executed frame.
proof fn lemma_last_frame_instant(state: SchedulerState, ticks: Seq<Tick>, i: int, m: int)
    requires
        0 <= i < m < state.run(ticks).1.len(),
        state.run(ticks).1[i].ran_frame(),
        forall|k: int| i < k < m ==> !(#[trigger] state.run(ticks).1[k]).ran_frame(),
    ensures
        state.run(ticks.take(m)).0.previous_instant == ticks[i].now as nat,
    decreases m - i,
{
    if m == i + 1 {
        lemma_run_unfolds(state, ticks, i);
    } else {
        lemma_last_frame_instant(state, ticks, i, m - 1);
        lemma_run_unfolds(state, ticks, m - 1);
    }
}

/// The first report of a run comes with the first executed frame that lies
/// a second or more after the instant at which the scheduler's counting
/// window began, and it counts the frames executed up to and with that
/// frame, on top of those that the scheduler had counted before the run.
pub proof fn lemma_first_report_counts_frames(state: SchedulerState, ticks: Seq<Tick>, j: int)
    requires
        0 <= j < state.run(ticks).1.len(),
        state.run(ticks).1[j].reported(),
        forall|k: int| 0 <= k < j ==> !(#[trigger] state.run(ticks).1[k]).reported(),
    ensures
        state.run(ticks).1[j]->fps == Some(
            state.frame_count + frames_between(state.run(ticks).1, 0, j + 1),
        ),
        elapsed_between(state.previous_second, ticks[j].now as nat) >= NANOS_PER_SECOND,
        forall|k: int|
            0 <= k < j && (#[trigger] state.run(ticks).1[k]) is Executed ==> elapsed_between(
                state.previous_second,
                ticks[k].now as nat,
            ) < NANOS_PER_SECOND,
{
    let outcomes = state.run(ticks).1;
    lemma_first_window(state, ticks, j);
    lemma_run_unfolds(state, ticks, j);
    assert forall|k: int| 0 <= k < j && (#[trigger] outcomes[k]) is Executed implies elapsed_between(
        state.previous_second,
        ticks[k].now as nat,
    ) < NANOS_PER_SECOND by {
        lemma_first_window(state, ticks, k);
        lemma_run_unfolds(state, ticks, k);
    }
}

/// Frame counts are reported once for each second that has passed: a
/// report comes with the first executed frame that lies a second or more
/// after the frame of the report before it, and it counts the frames
/// executed after that earlier frame, up to and with its own.
pub proof fn lemma_report_counts_frames(state: SchedulerState, ticks: Seq<Tick>, i: int, j: int)
    requires
        0 <= i < j < state.run(ticks).1.len(),
        state.run(ticks).1[i].reported(),
        state.run(ticks).1[j].reported(),
        forall|k: int| i < k < j ==> !(#[trigger] state.run(ticks).1[k]).reported(),
    ensures
        state.run(ticks).1[j]->fps == Some(frames_between(state.run(ticks).1, i + 1, j + 1)),
        elapsed_between(ticks[i].now as nat, ticks[j].now as nat) >= NANOS_PER_SECOND,
        forall|k: int|
            i < k < j && (#[trigger] state.run(ticks).1[k]) is Executed ==> elapsed_between(
                ticks[i].now as nat,
                ticks[k].now as nat,
            ) < NANOS_PER_SECOND,
{
    let outcomes = state.run(ticks).1;
    lemma_window(state, ticks, i, j);
    lemma_run_unfolds(state, ticks, j);
    assert forall|k: int| i < k < j && (#[trigger] outcomes[k]) is Executed implies elapsed_between(
        ticks[i].now as nat,
        ticks[k].now as nat,
    ) < NANOS_PER_SECOND by {
        lemma_window(state, ticks, i, k);
        lemma_run_unfolds(state, ticks, k);
    }
}

/// Until the first report, the counting window is the one that the run
/// began with, and the count has grown by the frames executed so far.
proof fn lemma_first_window(state: SchedulerState, ticks: Seq<Tick>, m: int)
    requires
        0 <= m < state.run(ticks).1.len(),
        forall|k: int| 0 <= k < m ==> !(#[trigger] state.run(ticks).1[k]).reported(),
    ensures
        state.run(ticks.take(m)).0.previous_second == state.previous_second,
        state.run(ticks.take(m)).0.frame_count == state.frame_count + frames_between(
            state.run(ticks).1,
            0,
            m,
        ),
    decreases m,
{
    if m > 0 {
        lemma_first_window(state, ticks, m - 1);
        lemma_run_unfolds(state, ticks, m - 1);
    }
}

/// From a report up to the next, the counting window begins at the frame
/// of that report, and the count is that of the frames executed since.
proof fn lemma_window(state: SchedulerState, ticks: Seq<Tick>, i: int, m: int)
    requires
        0 <= i < m < state.run(ticks).1.len(),
        state.run(ticks).1[i].reported(),
        forall|k: int| i < k < m ==> !(#[trigger] state.run(ticks).1[k]).reported(),
    ensures
        state.run(ticks.take(m)).0.previous_second == ticks[i].now as nat,
        state.run(ticks.take(m)).0.frame_count == frames_between(state.run(ticks).1, i + 1, m),
    decreases m - i,
{
    if m == i + 1 {
        lemma_run_unfolds(state, ticks, i);
    } else {
        lemma_window(state, ticks, i, m - 1);
        lemma_run_unfolds(state, ticks, m - 1);
    }
}

/// A frame that asks to stop ends the run with its own iteration, whatever
/// the timeline holds after it, and leaves the scheduler as it found it.
pub proof fn lemma_stop_ends_run(state: SchedulerState, ticks: Seq<Tick>, i: int)
    requires
        0 <= i < state.run(ticks).1.len(),
        state.run(ticks).1[i].ran_frame(),
        !ticks[i].keep_running,
    ensures
        state.run(ticks).1.len() == i + 1,
        state.run(ticks).0 == state.run(ticks.take(i)).0,
{
    lemma_run_unfolds(state, ticks, i);
    lemma_run_extends(state, ticks.take(i), ticks[i]);
    assert(ticks.take(i + 1) == ticks.take(i).push(ticks[i]));
    lemma_run_ends_when_stopped(state, ticks, i + 1);
}

} // verus!
