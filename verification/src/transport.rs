//! The transport panel: pause, resume, skip and reload.
//!
//! The buttons only ask. The scheduler owns the state machine and takes their
//! commands between ticks, so a press can never race with a tick.

use vstd::prelude::*;

use crate::app_status::{AppStatus, StatusView};
use crate::config::{BumperEntry, Config, ProgramEntry};
use crate::cut::{CutOutcome, CutView};
use crate::interrupt::remaining_from;
use crate::millis::{sat_add, sat_sub, to_signed};
use crate::playlist::{
    effective_duration_ms, index_of, next_index, program_after, resequence_from, shift_from,
};
use crate::scheduler::{
    apply_state, become_idle, play_whole, transition_to_armed, transition_to_interstitial,
    transition_to_playing, Board, HeldBumper, SchedulerState, StateView,
};
use crate::text::cat;
use crate::tick::bumper_index;
use crate::ControlCommand;
#[allow(unused_imports)]
use crate::{interrupt, millis, playlist, scheduler, seqs, tick};

verus! {

/// The board with the pause light on or off.
pub open spec fn with_pause(b: Board, paused: bool) -> Board {
    Board { status: StatusView { paused, ..b.status }, ..b }
}

// ----------------------------------------------------------------------- pause

/// What is left of the program that a state is about. Behind a bumper that is what comes
/// after the point where the bumper cut in.
pub open spec fn left_of(items: Seq<ProgramEntry>, s: StateView, now: i64) -> i64 {
    let left = match s {
        StateView::Playing { end_at, .. } => millis::clamp(end_at - now),
        StateView::Interstitial { primary, return_to, .. } => match playlist::position_of(
            items,
            primary,
        ) {
            Some(i) => interrupt::left_from(items[i], return_to),
            None => 0,
        },
        _ => match scheduler::program_of(s) {
            Some(id) => match playlist::position_of(items, id) {
                Some(i) => millis::signed(playlist::effective_ms(items[i])) as i64,
                None => 0,
            },
            None => 0,
        },
    };
    if left < 0 {
        0
    } else {
        left
    }
}

/// Whether a pause means anything in this state.
pub open spec fn can_pause(s: StateView) -> bool {
    scheduler::program_of(s) is Some && !(s is Paused)
}

/// The bumper that is on air in a state, and its offset inside the program.
pub open spec fn bumper_of(s: StateView) -> Option<(Seq<char>, u64)> {
    match s {
        StateView::Interstitial { bumper, return_to, .. } => Some((bumper, return_to)),
        _ => None,
    }
}

/// Freezes the timeline at `now`.
pub open spec fn pausing(items: Seq<ProgramEntry>, b: Board, now: i64, wall: i64) -> Board {
    if can_pause(b.state) {
        with_pause(
            scheduler::entering(
                b,
                StateView::Paused {
                    program: scheduler::program_of(b.state)->0,
                    remaining: left_of(items, b.state, now),
                    paused_at: now,
                    held: bumper_of(b.state),
                },
                wall,
            ),
            true,
        )
    } else {
        b
    }
}

/// Whether OBS has to be told to pause.
pub fn pausable(machine: &SchedulerState) -> (r: bool)
    ensures
        r == can_pause(machine@),
{
    match machine {
        SchedulerState::Paused { .. } => false,
        _ => machine.current_program_id().is_some(),
    }
}

/// Freezes the timeline: what was left of the program at this moment is kept, so that
/// resuming can run it to its end. Does nothing where nothing is on air.
pub fn pause(
    cfg: &Config,
    now_ms: i64,
    wall_ms: i64,
    machine: &mut SchedulerState,
    status: &mut AppStatus,
)
    ensures
        scheduler::board(*final(machine), *final(status)) == pausing(
            cfg.playlist.items@,
            scheduler::board(*old(machine), *old(status)),
            now_ms,
            wall_ms,
        ),
{
    if !pausable(machine) {
        return;
    }
    let id: String = match machine.current_program_id() {
        Some(id) => id.to_owned(),
        None => {
            return;
        },
    };
    let left: i64 = match machine {
        SchedulerState::Playing { end_at_ms, .. } => sat_sub(*end_at_ms, now_ms),
        SchedulerState::InterstitialPlaying { return_to_ms, .. } => match index_of(
            &cfg.playlist.items,
            id.as_str(),
        ) {
            Some(i) => remaining_from(&cfg.playlist.items[i], *return_to_ms),
            None => 0,
        },
        _ => match index_of(&cfg.playlist.items, id.as_str()) {
            Some(i) => to_signed(effective_duration_ms(&cfg.playlist.items[i])),
            None => 0,
        },
    };
    let remaining_ms: i64 = if left < 0 {
        0
    } else {
        left
    };
    let bumper: Option<HeldBumper> = match machine {
        SchedulerState::InterstitialPlaying { bumper_id, return_to_ms, .. } => Some(
            HeldBumper { bumper_id: bumper_id.clone(), return_to_ms: *return_to_ms },
        ),
        _ => None,
    };
    let paused = SchedulerState::Paused {
        program_id: id,
        remaining_ms,
        paused_at_ms: now_ms,
        bumper,
    };
    apply_state(machine, status, paused, wall_ms);
    status.paused = true;
}

// ---------------------------------------------------------------------- resume

/// The name of the program called `id`; nothing where it is gone.
pub open spec fn name_of(items: Seq<ProgramEntry>, id: Seq<char>) -> Seq<char> {
    match playlist::position_of(items, id) {
        Some(i) => items[i].name@,
        None => Seq::empty(),
    }
}

/// How long the transport was held.
pub open spec fn held_ms(paused_at: i64, now: i64) -> i64 {
    let d = millis::clamp(now - paused_at);
    if d < 0 {
        0
    } else {
        d
    }
}

/// The bumper that a paused state goes back to: it was on air, and it and its program are
/// still there.
pub open spec fn bumper_to_resume(
    items: Seq<ProgramEntry>,
    bumpers: Seq<BumperEntry>,
    s: StateView,
) -> Option<int> {
    match s {
        StateView::Paused { program, held: Some((id, _)), .. } => {
            if playlist::position_of(items, program) is Some {
                seqs::first_index(bumpers, tick::bumper_called(id))
            } else {
                None
            }
        },
        _ => None,
    }
}

/// Undoes a pause at `now`: goes back to the bumper that was on air, or runs what was left
/// of the program.
pub open spec fn resuming(
    items: Seq<ProgramEntry>,
    bumpers: Seq<BumperEntry>,
    b: Board,
    now: i64,
    wall: i64,
) -> Board {
    match b.state {
        StateView::Paused { program, remaining, held, .. } => with_pause(
            match bumper_to_resume(items, bumpers, b.state) {
                Some(k) => {
                    let (id, return_to) = held->0;
                    let name = bumpers[k].content.name@;
                    scheduler::interrupting(b, program, id, return_to, name, wall)
                },
                None => scheduler::playing(
                    b,
                    program,
                    name_of(items, program),
                    remaining,
                    now,
                    millis::clamp(now + remaining),
                    wall,
                ),
            },
            false,
        ),
        _ => b,
    }
}

/// What was resumed, and for how long it had been held.
#[derive(Debug)]
pub struct Resumed {
    pub program_id: String,
    pub held_ms: i64,
    /// A bumper in the middle of the program is on air again.
    pub in_bumper: bool,
}

/// Undoes a pause. Returns what everything still to come has to slide by (see `slide`);
/// `None` where nothing was paused.
pub fn resume(
    cfg: &Config,
    now_ms: i64,
    wall_ms: i64,
    machine: &mut SchedulerState,
    status: &mut AppStatus,
) -> (r: Option<Resumed>)
    ensures
        scheduler::board(*final(machine), *final(status)) == resuming(
            cfg.playlist.items@,
            cfg.playlist.bumpers@,
            scheduler::board(*old(machine), *old(status)),
            now_ms,
            wall_ms,
        ),
        match r {
            Some(h) => {
                &&& old(machine)@ is Paused
                &&& h.program_id@ == old(machine)@->Paused_program
                &&& h.held_ms == held_ms(old(machine)@->paused_at, now_ms)
                &&& h.in_bumper == (bumper_to_resume(
                    cfg.playlist.items@,
                    cfg.playlist.bumpers@,
                    old(machine)@,
                ) is Some)
            },
            None => !(old(machine)@ is Paused),
        },
{
    let (id, remaining_ms, paused_at_ms, bumper): (String, i64, i64, Option<(String, u64)>) =
        match machine {
        SchedulerState::Paused { program_id, remaining_ms, paused_at_ms, bumper } => (
            program_id.clone(),
            *remaining_ms,
            *paused_at_ms,
            match bumper {
                Some(h) => Some((h.bumper_id.clone(), h.return_to_ms)),
                None => None,
            },
        ),
        _ => {
            return None;
        },
    };
    let d: i64 = sat_sub(now_ms, paused_at_ms);
    let held_ms: i64 = if d < 0 {
        0
    } else {
        d
    };
    let found: Option<usize> = index_of(&cfg.playlist.items, id.as_str());
    if let Some((bumper_id, return_to_ms)) = bumper {
        if found.is_some() {
            if let Some(k) = bumper_index(&cfg.playlist.bumpers, bumper_id.as_str()) {
                transition_to_interstitial(
                    machine,
                    status,
                    id.as_str(),
                    bumper_id.as_str(),
                    return_to_ms,
                    cfg.playlist.bumpers[k].content.name.as_str(),
                    wall_ms,
                );
                status.paused = false;
                return Some(Resumed { program_id: id, held_ms, in_bumper: true });
            }
        }
    }
    let name: String = match found {
        Some(i) => cfg.playlist.items[i].name.clone(),
        None => String::new(),
    };
    assert(name@ =~= name_of(cfg.playlist.items@, id@));
    transition_to_playing(
        machine,
        status,
        id.as_str(),
        name.as_str(),
        remaining_ms,
        now_ms,
        sat_add(now_ms, remaining_ms),
        wall_ms,
    );
    status.paused = false;
    Some(Resumed { program_id: id, held_ms, in_bumper: false })
}

/// The playlist with everything behind `id` moved by `held`, and the row of `id` itself
/// where a bumper in the middle of it is on air.
pub open spec fn slid(
    items: Seq<ProgramEntry>,
    id: Seq<char>,
    held: i64,
    in_bumper: bool,
) -> Seq<ProgramEntry> {
    match playlist::position_of(items, id) {
        Some(i) => playlist::shifted(
            items,
            if in_bumper {
                i
            } else {
                i + 1
            },
            held as int,
        ),
        None => items,
    }
}

/// Slides everything still to come by the time that the transport was held, so that a
/// pause leaves no dead air. A bumper goes by the start of its program, so that this one
/// slides along with it.
pub fn slide(items: &mut Vec<ProgramEntry>, r: &Resumed)
    ensures
        final(items)@ == slid(old(items)@, r.program_id@, r.held_ms, r.in_bumper),
{
    match index_of(items, r.program_id.as_str()) {
        Some(i) => {
            assert(i < items.len());
            let from: usize = if r.in_bumper {
                i
            } else {
                i + 1
            };
            shift_from(items, from, r.held_ms);
        },
        None => {},
    }
}

/// A pause costs nothing but time. The program that was on air runs on for exactly
/// what was left of it, and a row behind it keeps its distance to the program's end:
/// nothing is cut off and no gap opens.
pub proof fn a_pause_only_delays(
    items: Seq<ProgramEntry>,
    bumpers: Seq<BumperEntry>,
    b: Board,
    now: i64,
    later: i64,
    wall: i64,
    wall_later: i64,
    row: int,
)
    requires
        b.state is Playing,
        now <= b.state->Playing_end_at,
        now <= later,
        later + (b.state->Playing_end_at - now) <= i64::MAX,
        later - now <= i64::MAX,
        playlist::position_of(items, b.state->Playing_program) matches Some(i) && i < row
            < items.len(),
        items[row].start_at_ms + (later - now) <= i64::MAX,
        b.state->Playing_end_at - now <= i64::MAX,
    ensures
        ({
            let end = b.state->Playing_end_at;
            let paused = pausing(items, b, now, wall);
            let resumed = resuming(items, bumpers, paused, later, wall_later);
            let rows = slid(items, b.state->Playing_program, held_ms(now, later), false);
            let back = bumper_to_resume(items, bumpers, paused.state);
            &&& paused.state == (StateView::Paused {
                program: b.state->Playing_program,
                remaining: (end - now) as i64,
                paused_at: now,
                held: None,
            })
            &&& back is None
            &&& resumed.state == (StateView::Playing {
                program: b.state->Playing_program,
                started_at: later,
                end_at: (end + (later - now)) as i64,
            })
            &&& !resumed.status.paused
            &&& rows[row].start_at_ms - (end + (later - now)) == items[row].start_at_ms - end
        }),
{
    seqs::first_index_means(items, playlist::called(b.state->Playing_program));
}

// ------------------------------------------------------------------------ skip

/// Where a skip goes: to the program that follows in playlist order, or, where there
/// is none, to the next one by the clock.
pub open spec fn skip_at(items: Seq<ProgramEntry>, s: StateView, now: i64) -> Option<int> {
    match scheduler::program_of(s) {
        Some(id) => match playlist::after_at(items, id) {
            Some(i) => Some(i),
            None => playlist::next_at(items, now),
        },
        None => playlist::next_at(items, now),
    }
}

/// The program that a skip goes to.
pub fn skip_target(cfg: &Config, now_ms: i64, machine: &SchedulerState) -> (r: Option<usize>)
    ensures
        playlist::pos(r) == skip_at(cfg.playlist.items@, machine@, now_ms),
        r matches Some(i) ==> i < cfg.playlist.items@.len(),
{
    if let Some(id) = machine.current_program_id() {
        if let Some(i) = program_after(&cfg.playlist.items, id) {
            return Some(i);
        }
    }
    next_index(&cfg.playlist.items, now_ms)
}

/// Says that there is nothing to skip to.
pub fn nothing_to_skip_to(status: &mut AppStatus)
    ensures
        final(status)@ == (StatusView {
            last_error: Some("已经在最后一档，没有下一档可跳"@),
            ..old(status)@
        }),
{
    status.last_error = Some("已经在最后一档，没有下一档可跳".to_string());
}

/// Says that a skip failed; what is on air stays.
pub open spec fn refusing(b: Board, e: Seq<char>) -> Board {
    Board {
        status: StatusView { last_error: Some("跳到下一档失败："@ + e), ..b.status },
        ..b
    }
}

/// What became of a skip to the program at `index`.
pub open spec fn after_skipping(
    c: tick::Scene,
    b: Board,
    index: usize,
    outcome: CutView,
) -> Board {
    let p = c.items[index as int];
    match outcome {
        CutView::Cut => {
            let on = with_pause(scheduler::playing_whole(b, p, c.now, c.wall), false);
            Board { status: StatusView { last_error: None, ..on.status }, ..on }
        },
        CutView::SkipMissing => tick::arming_or_idling(
            c,
            b,
            playlist::next_at(c.items, millis::clamp(p.start_at_ms + 1)),
        ),
        CutView::Failed(e) => refusing(b, e),
        CutView::Stopped(e) => refusing(b, e),
    }
}

/// Ends a skip, knowing how the cut went. True where the program is on air, and the
/// rest of the day has to close up behind it (see `close_up`).
pub fn after_skip(
    cfg: &Config,
    now_ms: i64,
    wall_ms: i64,
    machine: &mut SchedulerState,
    status: &mut AppStatus,
    index: usize,
    outcome: CutOutcome,
) -> (r: bool)
    requires
        index < cfg.playlist.items@.len(),
    ensures
        scheduler::board(*final(machine), *final(status)) == after_skipping(
            tick::scene(*cfg, now_ms, wall_ms),
            scheduler::board(*old(machine), *old(status)),
            index,
            outcome@,
        ),
        r == (outcome@ is Cut),
{
    let p = &cfg.playlist.items[index];
    match outcome {
        CutOutcome::Cut => {
            play_whole(machine, status, p, now_ms, wall_ms);
            status.paused = false;
            status.last_error = None;
            true
        },
        CutOutcome::SkipMissing => {
            // Don't land on a black source: arm past it.
            match next_index(&cfg.playlist.items, sat_add(p.start_at_ms, 1)) {
                Some(n) => {
                    let next = &cfg.playlist.items[n];
                    let fire: i64 = sat_sub(next.start_at_ms, to_signed(cfg.scheduler.lead_in_ms));
                    transition_to_armed(machine, status, next, fire, wall_ms);
                },
                None => become_idle(machine, status, wall_ms),
            }
            false
        },
        CutOutcome::Failed(e) => {
            status.last_error = Some(cat("跳到下一档失败：", e.as_str()));
            false
        },
        CutOutcome::Stopped(e) => {
            status.last_error = Some(cat("跳到下一档失败：", e.as_str()));
            false
        },
    }
}

/// The playlist with `id` at `now` and everything behind it back to back.
pub open spec fn closed_up(items: Seq<ProgramEntry>, id: Seq<char>, now: i64) -> Seq<ProgramEntry> {
    match playlist::position_of(items, id) {
        Some(i) => playlist::laid_out(items, i, now),
        None => items,
    }
}

/// Closes the rest of the day up behind a skip to `id`, so that what was discarded
/// leaves no hole.
pub fn close_up(items: &mut Vec<ProgramEntry>, id: &str, now_ms: i64)
    ensures
        final(items)@ == closed_up(old(items)@, id@, now_ms),
{
    match index_of(items, id) {
        Some(i) => resequence_from(items, i, now_ms),
        None => {},
    }
}

/// A skip leaves no hole: the program it cut to starts now, and each row behind it
/// starts where the one before it ends.
pub proof fn a_skip_leaves_no_hole(items: Seq<ProgramEntry>, id: Seq<char>, now: i64, row: int)
    requires
        playlist::position_of(items, id) matches Some(i) && i < row < items.len(),
    ensures
        ({
            let at = playlist::position_of(items, id)->0;
            let rows = closed_up(items, id, now);
            &&& rows[at].start_at_ms == now
            &&& rows[row].start_at_ms == millis::clamp(
                rows[row - 1].start_at_ms + playlist::slot_ms(rows[row - 1]),
            )
        }),
{
    seqs::first_index_means(items, playlist::called(id));
}

// -------------------------------------------------------------------- commands

/// What the loop has to do about a command.
#[derive(Debug, Clone, Copy, PartialEq, Eq, Structural)]
pub enum TransportStep {
    /// Nothing.
    Ignore,
    /// Tell OBS to pause, then `pause`.
    TellPause,
    /// Tell OBS to play, then `resume`.
    TellPlay,
    /// Cut to the program at `index`, then `after_skip`.
    CutTo { index: usize },
    /// Read the configuration, then `reload_done` or `reload_failed`.
    Reread,
}

/// What a command comes to: a pause without anything on air and a resume without a
/// pause are ignored, and so is a skip without anywhere to go, which says so.
pub open spec fn commanding(
    items: Seq<ProgramEntry>,
    b: Board,
    cmd: ControlCommand,
    now: i64,
) -> (Board, TransportStep) {
    match cmd {
        ControlCommand::Pause => (
            b,
            if can_pause(b.state) {
                TransportStep::TellPause
            } else {
                TransportStep::Ignore
            },
        ),
        ControlCommand::Resume => (
            b,
            if b.state is Paused {
                TransportStep::TellPlay
            } else {
                TransportStep::Ignore
            },
        ),
        ControlCommand::Next => match skip_at(items, b.state, now) {
            Some(i) => (b, TransportStep::CutTo { index: i as usize }),
            None => (
                Board {
                    status: StatusView {
                        last_error: Some("已经在最后一档，没有下一档可跳"@),
                        ..b.status
                    },
                    ..b
                },
                TransportStep::Ignore,
            ),
        },
        ControlCommand::Reload => (b, TransportStep::Reread),
    }
}

/// Takes a command of the transport panel.
pub fn handle_command(
    cmd: ControlCommand,
    cfg: &Config,
    now_ms: i64,
    machine: &SchedulerState,
    status: &mut AppStatus,
) -> (r: TransportStep)
    ensures
        (scheduler::board(*machine, *final(status)), r) == commanding(
            cfg.playlist.items@,
            scheduler::board(*machine, *old(status)),
            cmd,
            now_ms,
        ),
        r matches TransportStep::CutTo { index } ==> index < cfg.playlist.items@.len(),
{
    match cmd {
        ControlCommand::Pause => if pausable(machine) {
            TransportStep::TellPause
        } else {
            TransportStep::Ignore
        },
        ControlCommand::Resume => match machine {
            SchedulerState::Paused { .. } => TransportStep::TellPlay,
            _ => TransportStep::Ignore,
        },
        ControlCommand::Next => match skip_target(cfg, now_ms, machine) {
            Some(index) => TransportStep::CutTo { index },
            None => {
                nothing_to_skip_to(status);
                TransportStep::Ignore
            },
        },
        ControlCommand::Reload => TransportStep::Reread,
    }
}

/// A pause in the middle of a bumper only delays as well. What comes after the bumper's
/// point in the program is kept; OBS is told to play on, the same bumper is on air again,
/// and it ends later by exactly the time that the transport was held. So the rest of the
/// bumper airs, and the way back to the program is the one it was.
pub proof fn a_pause_in_a_bumper_only_delays(
    items: Seq<ProgramEntry>,
    bumpers: Seq<BumperEntry>,
    b: Board,
    now: i64,
    later: i64,
    wall: i64,
    wall_later: i64,
)
    requires
        b.state is Interstitial,
        playlist::position_of(items, b.state->primary) is Some,
        seqs::first_index(bumpers, tick::bumper_called(b.state->bumper)) is Some,
        now <= later,
        later - now <= i64::MAX,
        ({
            let i = playlist::position_of(items, b.state->primary)->0;
            let k = seqs::first_index(bumpers, tick::bumper_called(b.state->bumper))->0;
            let at = items[i].start_at_ms + millis::signed(bumpers[k].at_into_program_ms);
            let dur = millis::signed(playlist::effective_ms(bumpers[k].content));
            let held = later - now;
            &&& items[i].start_at_ms + held <= i64::MAX
            &&& i64::MIN <= at
            &&& at + held <= i64::MAX
            &&& i64::MIN <= at + dur
            &&& at + dur + held <= i64::MAX
        }),
    ensures
        ({
            let i = playlist::position_of(items, b.state->primary)->0;
            let k = seqs::first_index(bumpers, tick::bumper_called(b.state->bumper))->0;
            let paused = pausing(items, b, now, wall);
            let resumed = resuming(items, bumpers, paused, later, wall_later);
            let rows = slid(items, b.state->primary, held_ms(now, later), true);
            &&& paused.state == (StateView::Paused {
                program: b.state->primary,
                remaining: interrupt::left_from(items[i], b.state->return_to),
                paused_at: now,
                held: Some((b.state->bumper, b.state->return_to)),
            })
            &&& commanding(items, paused, ControlCommand::Resume, later).1
                == TransportStep::TellPlay
            &&& bumper_to_resume(items, bumpers, paused.state) == Some(k)
            &&& resumed.state == b.state
            &&& !resumed.status.paused
            &&& rows[i].id == items[i].id
            &&& tick::bumper_end(rows[i], bumpers[k]) == tick::bumper_end(items[i], bumpers[k]) + (
            later - now)
        }),
{
    seqs::first_index_means(items, playlist::called(b.state->primary));
}

// ---------------------------------------------------------------------- reload

/// The board once another configuration is in place: idle, with nothing shown.
pub open spec fn reloading(b: Board, wall: i64) -> Board {
    scheduler::idling(
        Board {
            status: StatusView {
                paused: false,
                last_error: None,
                current_program_id: None,
                current_program_name: None,
                current_remaining_ms: None,
                ..b.status
            },
            ..b
        },
        wall,
    )
}

/// Drops back to idle once the configuration was read again: the next tick re-anchors
/// onto the new timeline.
pub fn reload_done(machine: &mut SchedulerState, status: &mut AppStatus, wall_ms: i64)
    ensures
        scheduler::board(*final(machine), *final(status)) == reloading(
            scheduler::board(*old(machine), *old(status)),
            wall_ms,
        ),
{
    status.paused = false;
    status.last_error = None;
    status.current_program_id = None;
    status.current_program_name = None;
    status.current_remaining_ms = None;
    become_idle(machine, status, wall_ms);
}

/// Says that the configuration could not be read.
pub fn reload_failed(status: &mut AppStatus, e: &str)
    ensures
        final(status)@ == (StatusView {
            last_error: Some("重新载入失败："@ + e@),
            ..old(status)@
        }),
{
    status.last_error = Some(cat("重新载入失败：", e));
}

/// No command of the transport panel puts the label out of step with the machine.
pub proof fn the_transport_mirrors(
    c: tick::Scene,
    b: Board,
    now: i64,
    wall: i64,
    index: usize,
    outcome: CutView,
)
    requires
        scheduler::mirrored(b),
    ensures
        scheduler::mirrored(pausing(c.items, b, now, wall)),
        scheduler::mirrored(resuming(c.items, c.bumpers, b, now, wall)),
        scheduler::mirrored(after_skipping(c, b, index, outcome)),
        scheduler::mirrored(reloading(b, wall)),
{
}

} // verus!
