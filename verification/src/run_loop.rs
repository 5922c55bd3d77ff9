//! What the scheduler's loop decides around its ticks.

use vstd::prelude::*;

use crate::app_status::{AppStatus, StatusView};
use crate::millis::sat_sub;
use crate::scheduler::{become_idle, Board, SchedulerState, StateView};
#[allow(unused_imports)]
use crate::{millis, scheduler};

verus! {

/// How often the loop ticks.
pub const TICK_MS: u64 = 50;

/// The configuration is copied anew once in this many ticks.
pub const TICKS_PER_SNAPSHOT: u64 = 20;

/// An error is given up on after this long.
pub const ERROR_HOLD_MS: i64 = 10_000;

/// What the loop keeps from tick to tick.
#[derive(Debug, Clone, Copy)]
pub struct LoopState {
    /// Ticks since the configuration was copied.
    pub ticks: u64,
    /// Whether the scheduler was driving after the last tick.
    pub was_active: bool,
    /// When the machine was first seen in its present error.
    pub error_since_ms: Option<i64>,
}

impl Default for LoopState {
    fn default() -> (r: Self)
        ensures
            r == (LoopState { ticks: 0, was_active: false, error_since_ms: None }),
    {
        LoopState { ticks: 0, was_active: false, error_since_ms: None }
    }
}

/// Whether the scheduler is to drive the scene: it is switched on and OBS is there.
pub fn wants_running(enabled: bool, connected: bool) -> (r: bool)
    ensures
        r == (enabled && connected),
{
    enabled && connected
}

/// Counts a tick. True where the configuration is to be copied anew.
pub fn snapshot_due(state: &mut LoopState) -> (r: bool)
    ensures
        r == (old(state).ticks >= TICKS_PER_SNAPSHOT - 1),
        *final(state) == (LoopState {
            ticks: if r {
                0
            } else {
                (old(state).ticks + 1) as u64
            },
            ..*old(state)
        }),
{
    if state.ticks >= TICKS_PER_SNAPSHOT - 1 {
        state.ticks = 0;
        true
    } else {
        state.ticks = state.ticks + 1;
        false
    }
}

/// The board once the scheduler has stood down.
pub open spec fn standing_down(b: Board, wall: i64) -> Board {
    let idle = if scheduler::drives(b.state) {
        scheduler::idling(b, wall)
    } else {
        b
    };
    let shown = idle.status;
    if shown.scheduler_running || shown.current_program_id is Some || shown.current_program_name
        is Some {
        Board {
            status: StatusView {
                scheduler_running: false,
                scheduler_state: "Idle"@,
                current_program_id: None,
                current_program_name: None,
                current_remaining_ms: None,
                paused: false,
                ..shown
            },
            ..idle
        }
    } else {
        idle
    }
}

/// Stands down: where the scheduler is not to drive the scene, the machine idles and
/// the UI shows nothing on air.
pub fn stand_down(
    state: &mut LoopState,
    machine: &mut SchedulerState,
    status: &mut AppStatus,
    wall_ms: i64,
)
    ensures
        scheduler::board(*final(machine), *final(status)) == standing_down(
            scheduler::board(*old(machine), *old(status)),
            wall_ms,
        ),
        *final(state) == (LoopState { was_active: false, ..*old(state) }),
{
    if machine.is_active() {
        become_idle(machine, status, wall_ms);
    }
    if status.scheduler_running || status.current_program_id.is_some()
        || status.current_program_name.is_some() {
        status.scheduler_running = false;
        status.scheduler_state = "Idle".to_string();
        status.current_program_id = None;
        status.current_program_name = None;
        status.current_remaining_ms = None;
        status.paused = false;
    }
    state.was_active = false;
}

/// The board with the activity light brought in step.
pub open spec fn lighting(b: Board, was_active: bool) -> Board {
    if scheduler::drives(b.state) != was_active {
        Board {
            status: StatusView {
                scheduler_running: scheduler::drives(b.state),
                scheduler_state: scheduler::label_of(b.state),
                ..b.status
            },
            ..b
        }
    } else {
        b
    }
}

/// Shows in the UI whether the scheduler drives the scene, when that changed.
pub fn mirror_activity(state: &mut LoopState, machine: &SchedulerState, status: &mut AppStatus)
    ensures
        scheduler::board(*machine, *final(status)) == lighting(
            scheduler::board(*machine, *old(status)),
            old(state).was_active,
        ),
        *final(state) == (LoopState { was_active: scheduler::drives(machine@), ..*old(state) }),
{
    let active: bool = machine.is_active();
    if active != state.was_active {
        state.was_active = active;
        status.scheduler_running = active;
        status.scheduler_state = machine.label().to_string();
    }
}

/// Since when the machine has been in its error, seen at `wall`.
pub open spec fn error_start(s: LoopState, wall: i64) -> i64 {
    match s.error_since_ms {
        Some(since) => since,
        None => wall,
    }
}

/// Whether an error seen at `wall` has lasted long enough to be given up on. One that is
/// left to the operator never has.
pub open spec fn error_is_stale(s: LoopState, b: Board, wall: i64) -> bool {
    b.state is Error && !b.state->until_cleared && wall - error_start(s, wall) > ERROR_HOLD_MS
}

/// Leaves an error behind after a while, so that one failure does not freeze the
/// broadcast for good. An error that is left to the operator stays.
pub fn recover_from_error(
    state: &mut LoopState,
    machine: &mut SchedulerState,
    status: &mut AppStatus,
    wall_ms: i64,
)
    ensures
        ({
            let before = scheduler::board(*old(machine), *old(status));
            let after = scheduler::board(*final(machine), *final(status));
            if error_is_stale(*old(state), before, wall_ms) {
                &&& after == (Board {
                    state: StateView::Idle,
                    status: StatusView {
                        scheduler_running: false,
                        scheduler_state: "Idle"@,
                        ..before.status
                    },
                })
                &&& *final(state) == (LoopState {
                    was_active: false,
                    error_since_ms: None,
                    ..*old(state)
                })
            } else {
                &&& after == before
                &&& *final(state) == (LoopState {
                    error_since_ms: if before.state is Error {
                        Some(error_start(*old(state), wall_ms))
                    } else {
                        None
                    },
                    ..*old(state)
                })
            }
        }),
{
    match machine {
        SchedulerState::Error { until_cleared, .. } => {
            let stays: bool = *until_cleared;
            let since: i64 = match state.error_since_ms {
                Some(since) => since,
                None => wall_ms,
            };
            if !stays && sat_sub(wall_ms, since) > ERROR_HOLD_MS {
                *machine = SchedulerState::Idle;
                state.error_since_ms = None;
                status.scheduler_running = false;
                status.scheduler_state = "Idle".to_string();
                state.was_active = false;
            } else {
                state.error_since_ms = Some(since);
            }
        },
        _ => {
            state.error_since_ms = None;
        },
    }
}

/// A scheduler that stopped waits for the operator: however long its error lasts, it is
/// not left behind, while any other is after a while.
pub proof fn a_stop_waits_for_the_operator(s: LoopState, b: Board, wall: i64)
    requires
        b.state is Error,
    ensures
        b.state->until_cleared ==> !error_is_stale(s, b, wall),
        !b.state->until_cleared && wall - error_start(s, wall) > ERROR_HOLD_MS ==> error_is_stale(
            s,
            b,
            wall,
        ),
{
}

/// After standing down nothing is shown as being on air, and the machine is at rest.
pub proof fn standing_down_clears_the_air(b: Board, wall: i64)
    ensures
        !scheduler::drives(standing_down(b, wall).state),
        !standing_down(b, wall).status.scheduler_running,
        standing_down(b, wall).status.current_program_id is None,
        standing_down(b, wall).status.current_program_name is None,
{
}

} // verus!
