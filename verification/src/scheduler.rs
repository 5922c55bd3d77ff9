//! The scheduler's state machine: its states, and the one way each is entered.
//!
//! Every transition writes the machine *and* mirrors its label into the status
//! that the UI shows. The decisions when to take one are in `tick` (the timeline),
//! `transport` (the operator) and `run_loop` (arming and recovery).

use vstd::prelude::*;

use crate::app_status::{AppStatus, StatusView};
use crate::config::ProgramEntry;
use crate::millis::sat_sub;
use crate::playlist::end_at_ms;
#[allow(unused_imports)]
use crate::{millis, playlist};

verus! {

/// A bumper that was on air when the operator pressed Pause, and its offset inside the
/// program.
#[derive(Debug, PartialEq, Eq)]
pub struct HeldBumper {
    pub bumper_id: String,
    pub return_to_ms: u64,
}

/// The id and the offset of a held bumper.
pub open spec fn held_view(h: Option<HeldBumper>) -> Option<(Seq<char>, u64)> {
    match h {
        Some(h) => Some((h.bumper_id@, h.return_to_ms)),
        None => None,
    }
}

/// What the scheduler is doing.
#[derive(Debug, PartialEq, Eq)]
pub enum SchedulerState {
    /// Not armed. No timeline progression.
    Idle,
    /// Will hand the next file to OBS at `fire_at_ms`.
    Armed {
        target_id: String,
        fire_at_ms: i64,
        /// Set once the file has been handed over, so that it is not re-opened on
        /// every tick of the lead-in.
        preloaded: bool,
    },
    /// Currently driving a program. `started_at_ms` is when it began playing and
    /// `end_at_ms` the moment it is considered over.
    Playing { program_id: String, started_at_ms: i64, end_at_ms: i64 },
    /// The operator pressed Pause at `paused_at_ms`: the timeline is frozen with
    /// `remaining_ms` of the program left. `bumper` is the one that was on air in the
    /// middle of it.
    Paused {
        program_id: String,
        remaining_ms: i64,
        paused_at_ms: i64,
        bumper: Option<HeldBumper>,
    },
    /// A bumper is on air in the middle of `primary_id`; `return_to_ms` is its
    /// offset inside the primary.
    InterstitialPlaying { primary_id: String, bumper_id: String, return_to_ms: u64 },
    /// Something failed. `until_cleared` is set where only the operator may go on.
    Error { message: String, until_cleared: bool },
}

impl Clone for SchedulerState {
    fn clone(&self) -> (r: Self)
        ensures
            r == *self,
    {
        match self {
            SchedulerState::Idle => SchedulerState::Idle,
            SchedulerState::Armed { target_id, fire_at_ms, preloaded } => SchedulerState::Armed {
                target_id: target_id.clone(),
                fire_at_ms: *fire_at_ms,
                preloaded: *preloaded,
            },
            SchedulerState::Playing {
                program_id,
                started_at_ms,
                end_at_ms,
            } => SchedulerState::Playing {
                program_id: program_id.clone(),
                started_at_ms: *started_at_ms,
                end_at_ms: *end_at_ms,
            },
            SchedulerState::Paused {
                program_id,
                remaining_ms,
                paused_at_ms,
                bumper,
            } => SchedulerState::Paused {
                program_id: program_id.clone(),
                remaining_ms: *remaining_ms,
                paused_at_ms: *paused_at_ms,
                bumper: match bumper {
                    Some(h) => Some(
                        HeldBumper { bumper_id: h.bumper_id.clone(), return_to_ms: h.return_to_ms },
                    ),
                    None => None,
                },
            },
            SchedulerState::InterstitialPlaying {
                primary_id,
                bumper_id,
                return_to_ms,
            } => SchedulerState::InterstitialPlaying {
                primary_id: primary_id.clone(),
                bumper_id: bumper_id.clone(),
                return_to_ms: *return_to_ms,
            },
            SchedulerState::Error { message, until_cleared } => SchedulerState::Error {
                message: message.clone(),
                until_cleared: *until_cleared,
            },
        }
    }
}

/// The mathematical counterpart of `SchedulerState`.
pub enum StateView {
    Idle,
    Armed { target: Seq<char>, fire_at: i64, preloaded: bool },
    Playing { program: Seq<char>, started_at: i64, end_at: i64 },
    Paused { program: Seq<char>, remaining: i64, paused_at: i64, held: Option<(Seq<char>, u64)> },
    Interstitial { primary: Seq<char>, bumper: Seq<char>, return_to: u64 },
    Error { message: Seq<char>, until_cleared: bool },
}

impl View for SchedulerState {
    type V = StateView;

    open spec fn view(&self) -> StateView {
        match *self {
            SchedulerState::Idle => StateView::Idle,
            SchedulerState::Armed { target_id, fire_at_ms, preloaded } => StateView::Armed {
                target: target_id@,
                fire_at: fire_at_ms,
                preloaded,
            },
            SchedulerState::Playing { program_id, started_at_ms, end_at_ms } => StateView::Playing {
                program: program_id@,
                started_at: started_at_ms,
                end_at: end_at_ms,
            },
            SchedulerState::Paused {
                program_id,
                remaining_ms,
                paused_at_ms,
                bumper,
            } => StateView::Paused {
                program: program_id@,
                remaining: remaining_ms,
                paused_at: paused_at_ms,
                held: held_view(bumper),
            },
            SchedulerState::InterstitialPlaying {
                primary_id,
                bumper_id,
                return_to_ms,
            } => StateView::Interstitial {
                primary: primary_id@,
                bumper: bumper_id@,
                return_to: return_to_ms,
            },
            SchedulerState::Error { message, until_cleared } => StateView::Error {
                message: message@,
                until_cleared,
            },
        }
    }
}

/// The label of a state.
pub open spec fn label_of(s: StateView) -> Seq<char> {
    match s {
        StateView::Idle => "Idle"@,
        StateView::Armed { .. } => "Armed"@,
        StateView::Playing { .. } => "Playing"@,
        StateView::Paused { .. } => "Paused"@,
        StateView::Interstitial { .. } => "Interstitial"@,
        StateView::Error { .. } => "Error"@,
    }
}

/// Whether the scheduler drives the scene in this state.
pub open spec fn drives(s: StateView) -> bool {
    !(s is Idle || s is Error)
}

/// The program that a state is about.
pub open spec fn program_of(s: StateView) -> Option<Seq<char>> {
    match s {
        StateView::Idle => None,
        StateView::Armed { target, .. } => Some(target),
        StateView::Playing { program, .. } => Some(program),
        StateView::Paused { program, .. } => Some(program),
        StateView::Interstitial { primary, .. } => Some(primary),
        StateView::Error { .. } => None,
    }
}

impl SchedulerState {
    /// The label that the UI shows.
    pub fn label(&self) -> (r: &'static str)
        ensures
            r@ == label_of(self@),
    {
        match self {
            SchedulerState::Idle => "Idle",
            SchedulerState::Armed { .. } => "Armed",
            SchedulerState::Playing { .. } => "Playing",
            SchedulerState::Paused { .. } => "Paused",
            SchedulerState::InterstitialPlaying { .. } => "Interstitial",
            SchedulerState::Error { .. } => "Error",
        }
    }

    /// Whether the scheduler drives the scene.
    pub fn is_active(&self) -> (r: bool)
        ensures
            r == drives(self@),
    {
        match self {
            SchedulerState::Idle => false,
            SchedulerState::Error { .. } => false,
            _ => true,
        }
    }

    /// The program that the state is about.
    pub fn current_program_id(&self) -> (r: Option<&str>)
        ensures
            match r {
                Some(id) => program_of(self@) == Some(id@),
                None => program_of(self@) is None,
            },
    {
        match self {
            SchedulerState::Playing { program_id, .. } => Some(program_id.as_str()),
            SchedulerState::Paused { program_id, .. } => Some(program_id.as_str()),
            SchedulerState::Armed { target_id, .. } => Some(target_id.as_str()),
            SchedulerState::InterstitialPlaying { primary_id, .. } => Some(primary_id.as_str()),
            SchedulerState::Idle => None,
            SchedulerState::Error { .. } => None,
        }
    }
}

// ----------------------------------------------------------------- transitions

/// The machine together with what the UI shows of it.
pub struct Board {
    pub state: StateView,
    pub status: StatusView,
}

/// The board that a machine and a status make up.
pub open spec fn board(machine: SchedulerState, status: AppStatus) -> Board {
    Board { state: machine@, status: status@ }
}

/// Enters `s` at the wall-clock moment `wall`.
pub open spec fn entering(b: Board, s: StateView, wall: i64) -> Board {
    Board {
        state: s,
        status: StatusView {
            scheduler_state: label_of(s),
            last_changed_at: Some(wall),
            ..b.status
        },
    }
}

/// Waits for the program `p`, whose file is due at `fire_at`.
pub open spec fn arming(b: Board, p: ProgramEntry, fire_at: i64, wall: i64) -> Board {
    entering(b, StateView::Armed { target: p.id@, fire_at, preloaded: false }, wall)
}

/// Shows `id` as being on air with `remaining` ms left.
pub open spec fn showing(b: Board, id: Seq<char>, name: Seq<char>, remaining: i64) -> Board {
    Board {
        status: StatusView {
            current_program_id: Some(id),
            current_program_name: Some(name),
            current_remaining_ms: Some(remaining),
            ..b.status
        },
        ..b
    }
}

/// Plays `id` from `now` until `end_at`.
pub open spec fn playing(
    b: Board,
    id: Seq<char>,
    name: Seq<char>,
    remaining: i64,
    now: i64,
    end_at: i64,
    wall: i64,
) -> Board {
    showing(
        entering(b, StateView::Playing { program: id, started_at: now, end_at }, wall),
        id,
        name,
        remaining,
    )
}

/// Plays the bumper `bumper` inside the program `primary`.
pub open spec fn interrupting(
    b: Board,
    primary: Seq<char>,
    bumper: Seq<char>,
    return_to: u64,
    name: Seq<char>,
    wall: i64,
) -> Board {
    let e = entering(b, StateView::Interstitial { primary, bumper, return_to }, wall);
    Board { status: StatusView { current_program_name: Some(name), ..e.status }, ..e }
}

/// Stops driving the scene.
pub open spec fn idling(b: Board, wall: i64) -> Board {
    entering(b, StateView::Idle, wall)
}

/// Stops with an error, for good where only the operator may go on.
pub open spec fn failing(b: Board, message: Seq<char>, until_cleared: bool, wall: i64) -> Board {
    let e = entering(b, StateView::Error { message, until_cleared }, wall);
    Board { status: StatusView { last_error: Some(message), ..e.status }, ..e }
}

/// Plays `p` in its own slot: until its scheduled end.
pub open spec fn beginning(b: Board, p: ProgramEntry, now: i64, wall: i64) -> Board {
    let end = playlist::end_of(p);
    playing(b, p.id@, p.name@, millis::clamp(end - now), now, end, wall)
}

/// Plays `p` at full length from `now` on.
pub open spec fn playing_whole(b: Board, p: ProgramEntry, now: i64, wall: i64) -> Board {
    let dur = millis::signed(playlist::effective_ms(p)) as i64;
    playing(b, p.id@, p.name@, dur, now, millis::clamp(now + dur), wall)
}

/// Single write path: changes the machine, then mirrors the label.
pub fn apply_state(
    machine: &mut SchedulerState,
    status: &mut AppStatus,
    new_state: SchedulerState,
    wall_ms: i64,
)
    ensures
        board(*final(machine), *final(status)) == entering(
            board(*old(machine), *old(status)),
            new_state@,
            wall_ms,
        ),
        *final(machine) == new_state,
{
    *machine = new_state;
    status.scheduler_state = machine.label().to_string();
    status.last_changed_at = Some(wall_ms);
}

/// Arms for `p`.
pub fn transition_to_armed(
    machine: &mut SchedulerState,
    status: &mut AppStatus,
    p: &ProgramEntry,
    fire_at_ms: i64,
    wall_ms: i64,
)
    ensures
        board(*final(machine), *final(status)) == arming(
            board(*old(machine), *old(status)),
            *p,
            fire_at_ms,
            wall_ms,
        ),
{
    let armed = SchedulerState::Armed { target_id: p.id.clone(), fire_at_ms, preloaded: false };
    apply_state(machine, status, armed, wall_ms);
}

/// Goes on air with a bumper.
pub fn transition_to_interstitial(
    machine: &mut SchedulerState,
    status: &mut AppStatus,
    primary_id: &str,
    bumper_id: &str,
    return_to_ms: u64,
    bumper_name: &str,
    wall_ms: i64,
)
    ensures
        board(*final(machine), *final(status)) == interrupting(
            board(*old(machine), *old(status)),
            primary_id@,
            bumper_id@,
            return_to_ms,
            bumper_name@,
            wall_ms,
        ),
{
    let s = SchedulerState::InterstitialPlaying {
        primary_id: primary_id.to_owned(),
        bumper_id: bumper_id.to_owned(),
        return_to_ms,
    };
    apply_state(machine, status, s, wall_ms);
    status.current_program_name = Some(bumper_name.to_owned());
}

/// Goes on air with a program.
pub fn transition_to_playing(
    machine: &mut SchedulerState,
    status: &mut AppStatus,
    program_id: &str,
    program_name: &str,
    remaining_ms: i64,
    now_ms: i64,
    end_at_ms: i64,
    wall_ms: i64,
)
    ensures
        board(*final(machine), *final(status)) == playing(
            board(*old(machine), *old(status)),
            program_id@,
            program_name@,
            remaining_ms,
            now_ms,
            end_at_ms,
            wall_ms,
        ),
{
    let s = SchedulerState::Playing {
        program_id: program_id.to_owned(),
        started_at_ms: now_ms,
        end_at_ms,
    };
    apply_state(machine, status, s, wall_ms);
    status.current_program_id = Some(program_id.to_owned());
    status.current_program_name = Some(program_name.to_owned());
    status.current_remaining_ms = Some(remaining_ms);
}

/// Stops driving the scene.
pub fn become_idle(machine: &mut SchedulerState, status: &mut AppStatus, wall_ms: i64)
    ensures
        board(*final(machine), *final(status)) == idling(
            board(*old(machine), *old(status)),
            wall_ms,
        ),
{
    apply_state(machine, status, SchedulerState::Idle, wall_ms);
}

/// Stops with an error, for good where only the operator may go on.
pub fn transition_to_error(
    machine: &mut SchedulerState,
    status: &mut AppStatus,
    msg: &str,
    until_cleared: bool,
    wall_ms: i64,
)
    ensures
        board(*final(machine), *final(status)) == failing(
            board(*old(machine), *old(status)),
            msg@,
            until_cleared,
            wall_ms,
        ),
{
    let s = SchedulerState::Error { message: msg.to_owned(), until_cleared };
    apply_state(machine, status, s, wall_ms);
    status.last_error = Some(msg.to_owned());
}

/// Goes on air with `p` in its own slot.
pub fn begin_playing(
    machine: &mut SchedulerState,
    status: &mut AppStatus,
    p: &ProgramEntry,
    now_ms: i64,
    wall_ms: i64,
)
    ensures
        board(*final(machine), *final(status)) == beginning(
            board(*old(machine), *old(status)),
            *p,
            now_ms,
            wall_ms,
        ),
{
    let end: i64 = end_at_ms(p);
    transition_to_playing(
        machine,
        status,
        p.id.as_str(),
        p.name.as_str(),
        sat_sub(end, now_ms),
        now_ms,
        end,
        wall_ms,
    );
}

/// Goes on air with `p` at full length.
pub fn play_whole(
    machine: &mut SchedulerState,
    status: &mut AppStatus,
    p: &ProgramEntry,
    now_ms: i64,
    wall_ms: i64,
)
    ensures
        board(*final(machine), *final(status)) == playing_whole(
            board(*old(machine), *old(status)),
            *p,
            now_ms,
            wall_ms,
        ),
{
    let dur: i64 = crate::millis::to_signed(crate::playlist::effective_duration_ms(p));
    transition_to_playing(
        machine,
        status,
        p.id.as_str(),
        p.name.as_str(),
        dur,
        now_ms,
        crate::millis::sat_add(now_ms, dur),
        wall_ms,
    );
}

/// Shows what is left of `p`.
pub fn refresh_remaining(status: &mut AppStatus, p: &ProgramEntry, remaining_ms: i64)
    ensures
        final(status)@ == (StatusView {
            current_program_id: Some(p.id@),
            current_program_name: Some(p.name@),
            current_remaining_ms: Some(remaining_ms),
            ..old(status)@
        }),
{
    status.current_program_id = Some(p.id.clone());
    status.current_program_name = Some(p.name.clone());
    status.current_remaining_ms = Some(remaining_ms);
}

/// Whether the UI shows the label of the machine's state.
pub open spec fn mirrored(b: Board) -> bool {
    b.status.scheduler_state == label_of(b.state)
}

/// Every transition mirrors the state that it enters.
pub proof fn transitions_mirror(b: Board, s: StateView, wall: i64)
    ensures
        mirrored(entering(b, s, wall)),
        entering(b, s, wall).state == s,
        entering(b, s, wall).status.last_changed_at == Some(wall),
{
}

} // verus!
