//! The background progress task: an ordered run of progress updates followed
//! by one completion notice.
//!
//! The task itself is a small state machine. Whoever drives it performs the
//! action that each step hands out (push an event to the listener, wait) and
//! then asks for the next step. Delivery is best effort: whether a push
//! succeeded never changes what the task does next.

use crate::text::append_decimal;
use crate::text::decimal_digits;
use vstd::prelude::*;

verus! {

/// Number of progress updates in one run.
pub const TOTAL_STEPS: u32 = 10;

/// Pause after each progress update, in milliseconds.
pub const STEP_DELAY_MS: u64 = 500;

/// Status pushed to the listener at each step of a run.
#[derive(Debug, Clone, PartialEq, Eq)]
pub struct ProgressUpdate {
    /// One-based index of the step.
    pub current: u32,
    /// Number of steps in the run.
    pub total: u32,
    /// Human-readable status line.
    pub message: String,
}

/// Where a task stands in its run.
#[derive(Debug, Clone, Copy, PartialEq, Eq, Structural)]
pub enum ProgressState {
    /// Nothing has been emitted yet.
    NotStarted,
    /// The update numbered `step` was the last one handed out.
    Running { step: u32 },
    /// The completion notice has been handed out.
    Completed,
}

/// What happened to the event that the previous step handed out.
#[derive(Debug, Clone, Copy, PartialEq, Eq, Structural)]
pub enum Delivery {
    /// The task has only just been scheduled; nothing was handed out before.
    Scheduled,
    /// The listener received the event.
    Delivered,
    /// The push failed, for instance because the listener is gone.
    Failed,
}

/// What the driver is to do for one step of the task.
#[derive(Debug, Clone, PartialEq, Eq)]
pub enum ProgressAction {
    /// Push `update` on the update channel, then wait `delay_ms` milliseconds.
    Report { update: ProgressUpdate, delay_ms: u64 },
    /// Push `message` on the completion channel.
    Complete { message: String },
    /// The run is over; there is nothing left to do.
    Stop,
}

/// The mathematical content of an action.
pub enum Emission {
    Update { current: int, total: int, message: Seq<char>, delay_ms: int },
    Completion { message: Seq<char> },
    Nothing,
}

impl View for ProgressAction {
    type V = Emission;

    open spec fn view(&self) -> Emission {
        match self {
            ProgressAction::Report { update, delay_ms } => Emission::Update {
                current: update.current as int,
                total: update.total as int,
                message: update.message@,
                delay_ms: *delay_ms as int,
            },
            ProgressAction::Complete { message } => Emission::Completion { message: message@ },
            ProgressAction::Stop => Emission::Nothing,
        }
    }
}

/// The status line of step `current` out of `total`.
pub open spec fn progress_message(current: nat, total: nat) -> Seq<char> {
    "Processing step "@ + decimal_digits(current) + " of "@ + decimal_digits(total)
}

/// The text of the completion notice.
pub open spec fn completion_message() -> Seq<char> {
    "Task completed successfully!"@
}

/// The acknowledgement returned to whoever starts a task.
pub open spec fn acknowledgement() -> Seq<char> {
    "Progress task started"@
}

/// Name of the channel that carries progress updates.
pub open spec fn update_channel() -> Seq<char> {
    "progress-update"@
}

/// Name of the channel that carries the completion notice.
pub open spec fn completion_channel() -> Seq<char> {
    "progress-complete"@
}

/// The channel on which an emission travels, if it is one.
pub open spec fn channel_of(emission: Emission) -> Option<Seq<char>> {
    match emission {
        Emission::Update { .. } => Some(update_channel()),
        Emission::Completion { .. } => Some(completion_channel()),
        Emission::Nothing => None,
    }
}

/// The state that follows `state` after one step.
pub open spec fn next_state(state: ProgressState) -> ProgressState {
    match state {
        ProgressState::NotStarted => ProgressState::Running { step: 1 },
        ProgressState::Running { step } => if step < TOTAL_STEPS {
            ProgressState::Running { step: (step + 1) as u32 }
        } else {
            ProgressState::Completed
        },
        ProgressState::Completed => ProgressState::Completed,
    }
}

/// The update numbered `step`, as an emission.
pub open spec fn update_emission(step: int) -> Emission {
    Emission::Update {
        current: step,
        total: TOTAL_STEPS as int,
        message: progress_message(step as nat, TOTAL_STEPS as nat),
        delay_ms: STEP_DELAY_MS as int,
    }
}

/// What the step taken in `state` emits.
pub open spec fn emission(state: ProgressState) -> Emission {
    match state {
        ProgressState::NotStarted => update_emission(1),
        ProgressState::Running { step } => if step < TOTAL_STEPS {
            update_emission(step + 1)
        } else {
            Emission::Completion { message: completion_message() }
        },
        ProgressState::Completed => Emission::Nothing,
    }
}

/// Builds the update for step `current` of `total`.
pub fn make_update(current: u32, total: u32) -> (update: ProgressUpdate)
    ensures
        update.current == current,
        update.total == total,
        update.message@ == progress_message(current as nat, total as nat),
{
    let mut message = "Processing step ".to_string();
    append_decimal(&mut message, current as u64);
    message.append(" of ");
    append_decimal(&mut message, total as u64);
    ProgressUpdate { current, total, message }
}

/// One run of the progress task.
#[derive(Debug, Clone, Copy, PartialEq, Eq)]
pub struct ProgressTask {
    /// Where the run stands.
    pub state: ProgressState,
}

impl ProgressTask {
    /// Takes one step: moves to the next state and hands out what to do.
    ///
    /// The outcome of the previous push is reported in `last`; the step taken
    /// is the same for every value of it.
    pub fn advance(&mut self, last: Delivery) -> (action: ProgressAction)
        ensures
            final(self).state == next_state(old(self).state),
            action@ == emission(old(self).state),
    {
        match self.state {
            ProgressState::NotStarted => {
                self.state = ProgressState::Running { step: 1 };
                ProgressAction::Report {
                    update: make_update(1, TOTAL_STEPS),
                    delay_ms: STEP_DELAY_MS,
                }
            },
            ProgressState::Running { step } => {
                if step < TOTAL_STEPS {
                    self.state = ProgressState::Running { step: step + 1 };
                    ProgressAction::Report {
                        update: make_update(step + 1, TOTAL_STEPS),
                        delay_ms: STEP_DELAY_MS,
                    }
                } else {
                    self.state = ProgressState::Completed;
                    ProgressAction::Complete { message: "Task completed successfully!".to_string() }
                }
            },
            ProgressState::Completed => ProgressAction::Stop,
        }
    }
}

impl ProgressAction {
    /// The channel on which the action's event is pushed, if it pushes one.
    pub fn channel(&self) -> (name: Option<&'static str>)
        ensures
            match name {
                Some(text) => channel_of(self@) == Some(text@),
                None => channel_of(self@) is None,
            },
    {
        match self {
            ProgressAction::Report { .. } => Some("progress-update"),
            ProgressAction::Complete { .. } => Some("progress-complete"),
            ProgressAction::Stop => None,
        }
    }
}

/// Starts a run: returns a task that has not emitted anything yet, together
/// with the acknowledgement for the caller.
pub fn start_progress_task() -> (started: (ProgressTask, String))
    ensures
        started.0.state == ProgressState::NotStarted,
        started.1@ == acknowledgement(),
{
    (ProgressTask { state: ProgressState::NotStarted }, "Progress task started".to_string())
}

/// The state that a task starting in `start` reaches after `steps` steps.
pub open spec fn state_after(start: ProgressState, steps: nat) -> ProgressState
    decreases steps,
{
    if steps == 0 {
        start
    } else {
        next_state(state_after(start, (steps - 1) as nat))
    }
}

/// What a task starting in `start` emits over `steps` steps, in order.
pub open spec fn emissions(start: ProgressState, steps: nat) -> Seq<Emission> {
    Seq::new(steps, |i: int| emission(state_after(start, i as nat)))
}

/// A fresh task is in step `n` after `n` steps, up to the last step, and
/// completed from then on.
proof fn lemma_state_of_fresh_task(steps: nat)
    ensures
        state_after(ProgressState::NotStarted, steps) == if steps == 0 {
            ProgressState::NotStarted
        } else if steps <= TOTAL_STEPS {
            ProgressState::Running { step: steps as u32 }
        } else {
            ProgressState::Completed
        },
    decreases steps,
{
    if steps > 0 {
        lemma_state_of_fresh_task((steps - 1) as nat);
    }
}

/// A single run emits the updates numbered one to `TOTAL_STEPS` in
/// increasing order, then exactly one completion notice, then nothing more.
pub proof fn single_run_is_ordered(steps: nat)
    ensures
        emissions(ProgressState::NotStarted, steps).len() == steps,
        forall|i: int|
            0 <= i < steps && i < TOTAL_STEPS ==> #[trigger] emissions(
                ProgressState::NotStarted,
                steps,
            )[i] == update_emission(i + 1),
        steps > TOTAL_STEPS ==> emissions(ProgressState::NotStarted, steps)[TOTAL_STEPS as int]
            == (Emission::Completion { message: completion_message() }),
        forall|i: int|
            TOTAL_STEPS < i < steps ==> #[trigger] emissions(ProgressState::NotStarted, steps)[i]
                == Emission::Nothing,
{
    let run = emissions(ProgressState::NotStarted, steps);
    assert forall|i: int| 0 <= i < steps implies #[trigger] run[i] == (if i < TOTAL_STEPS {
        update_emission(i + 1)
    } else if i == TOTAL_STEPS {
        Emission::Completion { message: completion_message() }
    } else {
        Emission::Nothing
    }) by {
        lemma_state_of_fresh_task(i as nat);
    }
}

/// Two tasks driven in an arbitrary interleaving: what each has emitted and
/// where each stands.
pub struct PairRun {
    pub first_emissions: Seq<Emission>,
    pub second_emissions: Seq<Emission>,
    pub first_state: ProgressState,
    pub second_state: ProgressState,
}

/// Runs two tasks side by side. Each entry of `schedule` says whose turn it
/// is: `true` lets the first task take a step, `false` the second.
pub open spec fn interleave(first: ProgressState, second: ProgressState, schedule: Seq<bool>)
    -> PairRun
    decreases schedule.len(),
{
    if schedule.len() == 0 {
        PairRun {
            first_emissions: Seq::empty(),
            second_emissions: Seq::empty(),
            first_state: first,
            second_state: second,
        }
    } else {
        let before = interleave(first, second, schedule.drop_last());
        if schedule.last() {
            PairRun {
                first_emissions: before.first_emissions.push(emission(before.first_state)),
                first_state: next_state(before.first_state),
                ..before
            }
        } else {
            PairRun {
                second_emissions: before.second_emissions.push(emission(before.second_state)),
                second_state: next_state(before.second_state),
                ..before
            }
        }
    }
}

/// How many turns of `schedule` go to the task selected by `whose`.
pub open spec fn turns(schedule: Seq<bool>, whose: bool) -> nat
    decreases schedule.len(),
{
    if schedule.len() == 0 {
        0
    } else {
        turns(schedule.drop_last(), whose) + if schedule.last() == whose {
            1nat
        } else {
            0nat
        }
    }
}

/// Concurrent runs do not disturb each other: however the steps of two tasks
/// interleave, each task emits exactly what it would emit on its own.
pub proof fn concurrent_runs_are_independent(
    first: ProgressState,
    second: ProgressState,
    schedule: Seq<bool>,
)
    ensures
        interleave(first, second, schedule).first_emissions == emissions(
            first,
            turns(schedule, true),
        ),
        interleave(first, second, schedule).second_emissions == emissions(
            second,
            turns(schedule, false),
        ),
        interleave(first, second, schedule).first_state == state_after(
            first,
            turns(schedule, true),
        ),
        interleave(first, second, schedule).second_state == state_after(
            second,
            turns(schedule, false),
        ),
    decreases schedule.len(),
{
    if schedule.len() > 0 {
        concurrent_runs_are_independent(first, second, schedule.drop_last());
    }
    let run = interleave(first, second, schedule);
    assert(run.first_emissions =~= emissions(first, turns(schedule, true)));
    assert(run.second_emissions =~= emissions(second, turns(schedule, false)));
}

} // verus!
