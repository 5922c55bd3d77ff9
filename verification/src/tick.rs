//! One tick of the timeline, as decisions.
//!
//! A tick looks at the schedule and the clock and decides. Where the decision is to
//! do something with OBS, it returns a `TickStep` that names it; the loop does it
//! and hands the outcome to the matching `after_*` function, which decides on. The
//! steps of one tick all go by the same configuration and the same moment.

use vstd::prelude::*;

use crate::app_status::AppStatus;
use crate::config::{BumperEntry, Config, MissingFilePolicy, ProgramEntry};
use crate::cut::{CutOutcome, CutView, PreloadOutcome, PreloadView};
use crate::interrupt::{due_bumper, pick_bumper_content, remaining_from, return_to_ms};
use crate::millis::{sat_add, sat_sub, to_signed};
use crate::playlist::{current_index, index_of, next_index, program_after};
use crate::scheduler::{
    become_idle, begin_playing, play_whole, refresh_remaining, transition_to_armed,
    transition_to_error, transition_to_interstitial, transition_to_playing, Board, SchedulerState,
    StateView,
};
use crate::text::cat;
#[allow(unused_imports)]
use crate::{config, cut, interrupt, millis, playlist, scheduler, seqs};

verus! {

/// When OBS was last asked, so that it is not asked on every tick.
#[derive(Debug, Clone, Copy)]
pub struct Throttle {
    pub last_watchdog_ms: i64,
    pub last_probe_ms: i64,
}

impl Default for Throttle {
    fn default() -> (r: Self)
        ensures
            r.last_watchdog_ms == 0,
            r.last_probe_ms == 0,
    {
        Throttle { last_watchdog_ms: 0, last_probe_ms: 0 }
    }
}

/// The program on air as the tick found it.
#[derive(Debug, Clone, Copy, PartialEq, Eq, Structural)]
pub struct OnAir {
    pub index: usize,
    pub started_ms: i64,
    pub end_ms: i64,
}

/// What the loop has to do next.
#[derive(Debug, Clone, Copy, PartialEq, Eq, Structural)]
pub enum TickStep {
    /// The tick is over.
    Done,
    /// Hand the file of this program to OBS.
    Preload { index: usize },
    /// Cut to this program: its time has come. Where part of its slot is over already,
    /// the file is to go on from `seek_ms`.
    Air { index: usize, seek_ms: u64 },
    /// Ask OBS how long the file really is.
    Probe { on_air: OnAir },
    /// Ask OBS whether it is really playing.
    Watch { on_air: OnAir },
    /// Look whether the file of this bumper is there.
    BumperFile { on_air: OnAir, bumper: usize },
    /// Cut to this bumper.
    BumperFire { on_air: OnAir, bumper: usize },
    /// Cut to this program, which follows the one that ended.
    Advance { index: usize },
    /// Cut back to this program after a bumper, `return_to_ms` into it.
    ResumePrimary { index: usize, return_to_ms: u64 },
}

/// Probing waits until the file has been on air this long.
pub const PROBE_AFTER_MS: i64 = 1_500;

/// At most one probe in this time.
pub const PROBE_EVERY_MS: i64 = 5_000;

/// The watchdog waits until the program has been on air this long.
pub const WATCH_AFTER_MS: i64 = 2_000;

/// At most one look in this time.
pub const WATCH_EVERY_MS: i64 = 1_000;

/// What one tick goes by.
pub struct Scene {
    pub items: Seq<ProgramEntry>,
    pub bumpers: Seq<BumperEntry>,
    pub lead_in_ms: u64,
    /// The scheduler's moment.
    pub now: i64,
    /// The wall clock's.
    pub wall: i64,
}

/// What a tick at `now` goes by.
pub open spec fn scene(cfg: Config, now: i64, wall: i64) -> Scene {
    Scene {
        items: cfg.playlist.items@,
        bumpers: cfg.playlist.bumpers@,
        lead_in_ms: cfg.scheduler.lead_in_ms,
        now,
        wall,
    }
}

/// What a decision comes to.
pub struct Verdict {
    pub board: Board,
    pub throttle: Throttle,
    pub step: TickStep,
}

/// When the file of `p` is handed to OBS: the lead-in before its start.
pub open spec fn fire_at(p: ProgramEntry, lead_in_ms: u64) -> i64 {
    millis::clamp(p.start_at_ms - millis::signed(lead_in_ms))
}

/// Arms for the program at `at`; idles where there is none.
pub open spec fn arming_or_idling(c: Scene, b: Board, at: Option<int>) -> Board {
    match at {
        Some(i) => scheduler::arming(b, c.items[i], fire_at(c.items[i], c.lead_in_ms), c.wall),
        None => scheduler::idling(b, c.wall),
    }
}

/// How far `now` lies in the slot of `p`.
pub open spec fn into_program(p: ProgramEntry, now: i64) -> i64 {
    let d = millis::clamp(now - p.start_at_ms);
    if d < 0 {
        0
    } else {
        d
    }
}

/// Whether a step speaks of rows and bumpers that exist.
pub open spec fn step_fits(step: TickStep, items: nat, bumpers: nat) -> bool {
    match step {
        TickStep::Done => true,
        TickStep::Preload { index } => index < items,
        TickStep::Air { index, .. } => index < items,
        TickStep::Probe { on_air } => on_air.index < items,
        TickStep::Watch { on_air } => on_air.index < items,
        TickStep::BumperFile { on_air, bumper } => on_air.index < items && bumper < bumpers,
        TickStep::BumperFire { on_air, bumper } => on_air.index < items && bumper < bumpers,
        TickStep::Advance { index } => index < items,
        TickStep::ResumePrimary { index, .. } => index < items,
    }
}

/// What happens at the end of a tick on a playing program: it is over and the one
/// that follows it *in playlist order* is due (cut), not yet due (arm) or missing
/// (idle); or it goes on, and the UI shows what is left of it.
pub open spec fn advancing(c: Scene, b: Board, t: Throttle, on_air: OnAir) -> Verdict {
    let p = c.items[on_air.index as int];
    if c.now < on_air.started_ms {
        // The clock went backwards: stay put.
        Verdict { board: b, throttle: t, step: TickStep::Done }
    } else if c.now >= on_air.end_ms {
        match playlist::after_at(c.items, p.id@) {
            Some(n) => if c.items[n].start_at_ms > c.now {
                Verdict {
                    board: arming_or_idling(c, b, Some(n)),
                    throttle: t,
                    step: TickStep::Done,
                }
            } else {
                Verdict { board: b, throttle: t, step: TickStep::Advance { index: n as usize } }
            },
            None => Verdict {
                board: scheduler::idling(b, c.wall),
                throttle: t,
                step: TickStep::Done,
            },
        }
    } else {
        Verdict {
            board: scheduler::showing(b, p.id@, p.name@, millis::clamp(on_air.end_ms - c.now)),
            throttle: t,
            step: TickStep::Done,
        }
    }
}

/// A bumper that is due comes before the end of the tick.
pub open spec fn interrupting(c: Scene, b: Board, t: Throttle, on_air: OnAir) -> Verdict {
    let p = c.items[on_air.index as int];
    match interrupt::due_at(c.bumpers, p.id@, into_program(p, c.now), c.lead_in_ms) {
        Some(k) => Verdict {
            board: b,
            throttle: t,
            step: TickStep::BumperFile { on_air, bumper: k as usize },
        },
        None => advancing(c, b, t, on_air),
    }
}

/// A look at OBS, where one is due, comes before the bumpers.
pub open spec fn watching(c: Scene, b: Board, t: Throttle, on_air: OnAir) -> Verdict {
    let p = c.items[on_air.index as int];
    if into_program(p, c.now) > WATCH_AFTER_MS && millis::clamp(c.wall - t.last_watchdog_ms)
        >= WATCH_EVERY_MS {
        Verdict {
            board: b,
            throttle: Throttle { last_watchdog_ms: c.wall, ..t },
            step: TickStep::Watch { on_air },
        }
    } else {
        interrupting(c, b, t, on_air)
    }
}

/// A probe, where one is due, comes first.
pub open spec fn probing(c: Scene, b: Board, t: Throttle, on_air: OnAir) -> Verdict {
    let p = c.items[on_air.index as int];
    if p.detected_duration_ms is None && into_program(p, c.now) > PROBE_AFTER_MS && millis::clamp(
        c.wall - t.last_probe_ms,
    ) >= PROBE_EVERY_MS {
        Verdict {
            board: b,
            throttle: Throttle { last_probe_ms: c.wall, ..t },
            step: TickStep::Probe { on_air },
        }
    } else {
        watching(c, b, t, on_air)
    }
}

/// When a bumper inside `p` is over.
pub open spec fn bumper_end(p: ProgramEntry, k: BumperEntry) -> i64 {
    millis::clamp(
        millis::clamp(p.start_at_ms + millis::signed(k.at_into_program_ms)) + millis::signed(
            playlist::effective_ms(k.content),
        ),
    )
}

/// The bumpers called `id`.
pub open spec fn bumper_called(id: Seq<char>) -> spec_fn(BumperEntry) -> bool {
    |k: BumperEntry| k.id@ == id
}

/// What a tick decides first.
pub open spec fn deciding(c: Scene, b: Board, t: Throttle) -> Verdict {
    let still = Verdict { board: b, throttle: t, step: TickStep::Done };
    match b.state {
        StateView::Idle => match playlist::current_at(c.items, c.now) {
            Some(i) => Verdict {
                step: TickStep::Air {
                    index: i as usize,
                    seek_ms: into_program(c.items[i], c.now) as u64,
                },
                ..still
            },
            None => match playlist::next_at(c.items, c.now) {
                Some(i) => Verdict { board: arming_or_idling(c, b, Some(i)), ..still },
                None => still,
            },
        },
        StateView::Armed { target, fire_at, preloaded } => match playlist::position_of(
            c.items,
            target,
        ) {
            Some(i) => if c.now >= fire_at && !preloaded {
                Verdict { step: TickStep::Preload { index: i as usize }, ..still }
            } else if c.now >= c.items[i].start_at_ms {
                Verdict { step: TickStep::Air { index: i as usize, seek_ms: 0 }, ..still }
            } else {
                still
            },
            None => Verdict { board: scheduler::idling(b, c.wall), ..still },
        },
        StateView::Playing { program, started_at, end_at } => match playlist::position_of(
            c.items,
            program,
        ) {
            Some(i) => probing(
                c,
                b,
                t,
                OnAir { index: i as usize, started_ms: started_at, end_ms: end_at },
            ),
            None => still,
        },
        StateView::Paused { .. } => still,
        StateView::Interstitial { primary, bumper, return_to } => match (
            playlist::position_of(c.items, primary),
            seqs::first_index(c.bumpers, bumper_called(bumper)),
        ) {
            (Some(i), Some(k)) => {
                let end = bumper_end(c.items[i], c.bumpers[k]);
                if c.now >= end {
                    Verdict {
                        step: TickStep::ResumePrimary {
                            index: i as usize,
                            return_to_ms: return_to,
                        },
                        ..still
                    }
                } else {
                    let p = c.items[i];
                    Verdict {
                        board: scheduler::showing(b, p.id@, p.name@, millis::clamp(end - c.now)),
                        ..still
                    }
                }
            },
            _ => Verdict { board: scheduler::idling(b, c.wall), ..still },
        },
        StateView::Error { .. } => still,
    }
}

// ------------------------------------------------------------------- decisions

fn arm_or_idle(
    cfg: &Config,
    at: Option<usize>,
    Ghost(now): Ghost<i64>,
    wall_ms: i64,
    machine: &mut SchedulerState,
    status: &mut AppStatus,
)
    requires
        at matches Some(i) ==> i < cfg.playlist.items@.len(),
    ensures
        scheduler::board(*final(machine), *final(status)) == arming_or_idling(
            scene(*cfg, now, wall_ms),
            scheduler::board(*old(machine), *old(status)),
            playlist::pos(at),
        ),
{
    match at {
        Some(i) => {
            let p = &cfg.playlist.items[i];
            let fire: i64 = sat_sub(p.start_at_ms, to_signed(cfg.scheduler.lead_in_ms));
            transition_to_armed(machine, status, p, fire, wall_ms);
        },
        None => become_idle(machine, status, wall_ms),
    }
}

/// How far `now_ms` lies in the slot of `p`.
pub fn ms_into_program(p: &ProgramEntry, now_ms: i64) -> (r: i64)
    ensures
        r == into_program(*p, now_ms),
{
    let d: i64 = sat_sub(now_ms, p.start_at_ms);
    if d < 0 {
        0
    } else {
        d
    }
}

fn advance(
    cfg: &Config,
    now_ms: i64,
    wall_ms: i64,
    machine: &mut SchedulerState,
    status: &mut AppStatus,
    Ghost(t): Ghost<Throttle>,
    on_air: OnAir,
) -> (r: TickStep)
    requires
        on_air.index < cfg.playlist.items@.len(),
    ensures
        (Verdict {
            board: scheduler::board(*final(machine), *final(status)),
            throttle: t,
            step: r,
        }) == advancing(
            scene(*cfg, now_ms, wall_ms),
            scheduler::board(*old(machine), *old(status)),
            t,
            on_air,
        ),
        step_fits(r, cfg.playlist.items@.len(), cfg.playlist.bumpers@.len()),
{
    let p = &cfg.playlist.items[on_air.index];
    if now_ms < on_air.started_ms {
        TickStep::Done
    } else if now_ms >= on_air.end_ms {
        match program_after(&cfg.playlist.items, p.id.as_str()) {
            Some(n) => if cfg.playlist.items[n].start_at_ms > now_ms {
                arm_or_idle(cfg, Some(n), Ghost(now_ms), wall_ms, machine, status);
                TickStep::Done
            } else {
                TickStep::Advance { index: n }
            },
            None => {
                become_idle(machine, status, wall_ms);
                TickStep::Done
            },
        }
    } else {
        refresh_remaining(status, p, sat_sub(on_air.end_ms, now_ms));
        TickStep::Done
    }
}

fn interrupt_or_advance(
    cfg: &Config,
    now_ms: i64,
    wall_ms: i64,
    machine: &mut SchedulerState,
    status: &mut AppStatus,
    Ghost(t): Ghost<Throttle>,
    on_air: OnAir,
) -> (r: TickStep)
    requires
        on_air.index < cfg.playlist.items@.len(),
    ensures
        (Verdict {
            board: scheduler::board(*final(machine), *final(status)),
            throttle: t,
            step: r,
        }) == interrupting(
            scene(*cfg, now_ms, wall_ms),
            scheduler::board(*old(machine), *old(status)),
            t,
            on_air,
        ),
        step_fits(r, cfg.playlist.items@.len(), cfg.playlist.bumpers@.len()),
{
    let p = &cfg.playlist.items[on_air.index];
    let into: i64 = ms_into_program(p, now_ms);
    match due_bumper(&cfg.playlist.bumpers, p, into, cfg.scheduler.lead_in_ms) {
        Some(k) => TickStep::BumperFile { on_air, bumper: k },
        None => advance(cfg, now_ms, wall_ms, machine, status, Ghost(t), on_air),
    }
}

fn watch_or_on(
    cfg: &Config,
    now_ms: i64,
    wall_ms: i64,
    machine: &mut SchedulerState,
    status: &mut AppStatus,
    throttle: &mut Throttle,
    on_air: OnAir,
) -> (r: TickStep)
    requires
        on_air.index < cfg.playlist.items@.len(),
    ensures
        (Verdict {
            board: scheduler::board(*final(machine), *final(status)),
            throttle: *final(throttle),
            step: r,
        }) == watching(
            scene(*cfg, now_ms, wall_ms),
            scheduler::board(*old(machine), *old(status)),
            *old(throttle),
            on_air,
        ),
        step_fits(r, cfg.playlist.items@.len(), cfg.playlist.bumpers@.len()),
{
    let p = &cfg.playlist.items[on_air.index];
    let into: i64 = ms_into_program(p, now_ms);
    if into > WATCH_AFTER_MS && sat_sub(wall_ms, throttle.last_watchdog_ms) >= WATCH_EVERY_MS {
        throttle.last_watchdog_ms = wall_ms;
        TickStep::Watch { on_air }
    } else {
        interrupt_or_advance(cfg, now_ms, wall_ms, machine, status, Ghost(*throttle), on_air)
    }
}

/// Position of the bumper called `id`.
pub fn bumper_index(bumpers: &Vec<BumperEntry>, id: &str) -> (r: Option<usize>)
    ensures
        playlist::pos(r) == seqs::first_index(bumpers@, bumper_called(id@)),
        r matches Some(i) ==> i < bumpers@.len(),
{
    let mut i: usize = 0;
    while i < bumpers.len()
        invariant
            i <= bumpers@.len(),
            forall|j: int| 0 <= j < i ==> !bumper_called(id@)(#[trigger] bumpers@[j]),
        decreases bumpers@.len() - i,
    {
        if crate::text::same(bumpers[i].id.as_str(), id) {
            proof {
                seqs::first_index_is(bumpers@, bumper_called(id@), i as int);
            }
            return Some(i);
        }
        i = i + 1;
    }
    proof {
        seqs::first_index_is(bumpers@, bumper_called(id@), bumpers@.len() as int);
    }
    None
}

/// What the state holds, copied out of it.
enum Held {
    Idle,
    Armed(String, i64, bool),
    Playing(String, i64, i64),
    Interstitial(String, String, u64),
    Still,
}

fn held(machine: &SchedulerState) -> (r: Held)
    ensures
        match machine@ {
            StateView::Idle => r is Idle,
            StateView::Armed { target, fire_at, preloaded } => r matches Held::Armed(a, f, p)
                && a@ == target && f == fire_at && p == preloaded,
            StateView::Playing { program, started_at, end_at } => r matches Held::Playing(a, s, e)
                && a@ == program && s == started_at && e == end_at,
            StateView::Interstitial { primary, bumper, return_to } => r matches Held::Interstitial(
                a,
                k,
                at,
            ) && a@ == primary && k@ == bumper && at == return_to,
            _ => r is Still,
        },
{
    match machine {
        SchedulerState::Idle => Held::Idle,
        SchedulerState::Armed { target_id, fire_at_ms, preloaded } => Held::Armed(
            target_id.clone(),
            *fire_at_ms,
            *preloaded,
        ),
        SchedulerState::Playing { program_id, started_at_ms, end_at_ms } => Held::Playing(
            program_id.clone(),
            *started_at_ms,
            *end_at_ms,
        ),
        SchedulerState::InterstitialPlaying {
            primary_id,
            bumper_id,
            return_to_ms,
        } => Held::Interstitial(primary_id.clone(), bumper_id.clone(), *return_to_ms),
        _ => Held::Still,
    }
}

/// Starts a tick at the moment `now_ms`.
pub fn tick_begin(
    cfg: &Config,
    now_ms: i64,
    wall_ms: i64,
    machine: &mut SchedulerState,
    status: &mut AppStatus,
    throttle: &mut Throttle,
) -> (r: TickStep)
    ensures
        (Verdict {
            board: scheduler::board(*final(machine), *final(status)),
            throttle: *final(throttle),
            step: r,
        }) == deciding(
            scene(*cfg, now_ms, wall_ms),
            scheduler::board(*old(machine), *old(status)),
            *old(throttle),
        ),
        step_fits(r, cfg.playlist.items@.len(), cfg.playlist.bumpers@.len()),
{
    let items = &cfg.playlist.items;
    match held(machine) {
        Held::Idle => match current_index(items, now_ms) {
            Some(i) => TickStep::Air {
                index: i,
                seek_ms: ms_into_program(&items[i], now_ms) as u64,
            },
            None => {
                match next_index(items, now_ms) {
                    Some(i) => {
                        arm_or_idle(cfg, Some(i), Ghost(now_ms), wall_ms, machine, status);
                    },
                    None => {},
                }
                TickStep::Done
            },
        },
        Held::Armed(target, fire_at_ms, preloaded) => match index_of(items, target.as_str()) {
            Some(i) => if now_ms >= fire_at_ms && !preloaded {
                TickStep::Preload { index: i }
            } else if now_ms >= items[i].start_at_ms {
                TickStep::Air { index: i, seek_ms: 0 }
            } else {
                TickStep::Done
            },
            None => {
                // Target disappeared from the playlist.
                become_idle(machine, status, wall_ms);
                TickStep::Done
            },
        },
        Held::Playing(program, started_ms, end_ms) => match index_of(items, program.as_str()) {
            Some(i) => {
                let on_air = OnAir { index: i, started_ms, end_ms };
                let into: i64 = ms_into_program(&items[i], now_ms);
                if items[i].detected_duration_ms.is_none() && into > PROBE_AFTER_MS && sat_sub(
                    wall_ms,
                    throttle.last_probe_ms,
                ) >= PROBE_EVERY_MS {
                    throttle.last_probe_ms = wall_ms;
                    TickStep::Probe { on_air }
                } else {
                    watch_or_on(cfg, now_ms, wall_ms, machine, status, throttle, on_air)
                }
            },
            // Deleted from the playlist while on air: hold.
            None => TickStep::Done,
        },
        Held::Interstitial(primary, bumper, return_to_ms) => {
            match (
                index_of(items, primary.as_str()),
                bumper_index(&cfg.playlist.bumpers, bumper.as_str()),
            ) {
                (Some(i), Some(k)) => {
                    let p = &items[i];
                    let b = &cfg.playlist.bumpers[k];
                    let start: i64 = sat_add(p.start_at_ms, to_signed(b.at_into_program_ms));
                    let dur: i64 = to_signed(crate::playlist::effective_duration_ms(&b.content));
                    let end: i64 = sat_add(start, dur);
                    if now_ms >= end {
                        TickStep::ResumePrimary { index: i, return_to_ms }
                    } else {
                        refresh_remaining(status, p, sat_sub(end, now_ms));
                        TickStep::Done
                    }
                },
                (_, _) => {
                    // Bumper or primary vanished from the playlist.
                    become_idle(machine, status, wall_ms);
                    TickStep::Done
                },
            }
        },
        Held::Still => TickStep::Done,
    }
}

// ------------------------------------------------------------------- outcomes

/// What became of handing a file to OBS: on with it, past it, or the error.
pub open spec fn after_preloading(
    c: Scene,
    b: Board,
    t: Throttle,
    index: usize,
    outcome: PreloadView,
) -> Verdict {
    let over = |board: Board| Verdict { board, throttle: t, step: TickStep::Done };
    match outcome {
        PreloadView::Failed(e) => over(scheduler::failing(b, "preload: "@ + e, false, c.wall)),
        PreloadView::Stopped(e) => over(scheduler::failing(b, "preload: "@ + e, true, c.wall)),
        PreloadView::SkipMissing => over(skipping(c, b, index)),
        PreloadView::Ready => Verdict {
            board: Board {
                state: match b.state {
                    StateView::Armed { target, fire_at, .. } => StateView::Armed {
                        target,
                        fire_at,
                        preloaded: true,
                    },
                    other => other,
                },
                ..b
            },
            throttle: t,
            step: if c.now >= c.items[index as int].start_at_ms {
                TickStep::Air { index, seek_ms: 0 }
            } else {
                TickStep::Done
            },
        },
    }
}

/// Passes over the program at `index`: arms for the next one by the clock.
pub open spec fn skipping(c: Scene, b: Board, index: usize) -> Board {
    arming_or_idling(
        c,
        b,
        playlist::next_at(c.items, millis::clamp(c.items[index as int].start_at_ms + 1)),
    )
}

/// What became of cutting to a program whose time has come.
pub open spec fn after_airing(c: Scene, b: Board, index: usize, outcome: CutView) -> Board {
    let p = c.items[index as int];
    match outcome {
        CutView::Cut => scheduler::beginning(b, p, c.now, c.wall),
        CutView::SkipMissing => skipping(c, b, index),
        CutView::Failed(e) => scheduler::failing(b, "cut: "@ + e, false, c.wall),
        CutView::Stopped(e) => scheduler::failing(b, "cut: "@ + e, true, c.wall),
    }
}

/// What became of cutting to the program that follows.
pub open spec fn after_advancing(c: Scene, b: Board, index: usize, outcome: CutView) -> Board {
    let p = c.items[index as int];
    match outcome {
        CutView::Cut => scheduler::playing_whole(b, p, c.now, c.wall),
        CutView::SkipMissing => arming_or_idling(c, b, playlist::after_at(c.items, p.id@)),
        CutView::Failed(e) => scheduler::failing(b, "cut: "@ + e, false, c.wall),
        CutView::Stopped(e) => scheduler::failing(b, "cut: "@ + e, true, c.wall),
    }
}

/// Moves the end of the program on air.
pub open spec fn ending_at(b: Board, end: Option<i64>) -> Board {
    match (b.state, end) {
        (StateView::Playing { program, started_at, .. }, Some(at)) => Board {
            state: StateView::Playing { program, started_at, end_at: at },
            ..b
        },
        _ => b,
    }
}

/// How cutting to a bumper ended.
#[derive(Debug, Clone, Copy, PartialEq, Eq, Structural)]
pub enum BumperOutcome {
    Fired,
    /// There is no connection to OBS.
    Offline,
    /// OBS refused.
    Failed,
}

/// What became of cutting to a bumper.
pub open spec fn after_firing(
    c: Scene,
    b: Board,
    t: Throttle,
    on_air: OnAir,
    bumper: usize,
    outcome: BumperOutcome,
) -> Verdict {
    let k = c.bumpers[bumper as int];
    match outcome {
        BumperOutcome::Fired => Verdict {
            board: scheduler::interrupting(
                b,
                c.items[on_air.index as int].id@,
                k.id@,
                k.at_into_program_ms,
                k.content.name@,
                c.wall,
            ),
            throttle: t,
            step: TickStep::Done,
        },
        BumperOutcome::Offline => Verdict { board: b, throttle: t, step: TickStep::Done },
        BumperOutcome::Failed => advancing(c, b, t, on_air),
    }
}

/// Goes on after a `Preload` step.
pub fn after_preload(
    cfg: &Config,
    now_ms: i64,
    wall_ms: i64,
    machine: &mut SchedulerState,
    status: &mut AppStatus,
    index: usize,
    outcome: PreloadOutcome,
) -> (r: TickStep)
    requires
        index < cfg.playlist.items@.len(),
    ensures
        forall|t: Throttle|
            (Verdict {
                board: scheduler::board(*final(machine), *final(status)),
                throttle: t,
                step: r,
            }) == #[trigger] after_preloading(
                scene(*cfg, now_ms, wall_ms),
                scheduler::board(*old(machine), *old(status)),
                t,
                index,
                outcome@,
            ),
        step_fits(r, cfg.playlist.items@.len(), cfg.playlist.bumpers@.len()),
{
    match outcome {
        PreloadOutcome::Failed(e) => {
            let msg = cat("preload: ", e.as_str());
            transition_to_error(machine, status, msg.as_str(), false, wall_ms);
            TickStep::Done
        },
        PreloadOutcome::Stopped(e) => {
            let msg = cat("preload: ", e.as_str());
            transition_to_error(machine, status, msg.as_str(), true, wall_ms);
            TickStep::Done
        },
        PreloadOutcome::SkipMissing => {
            let start: i64 = cfg.playlist.items[index].start_at_ms;
            let next = next_index(&cfg.playlist.items, sat_add(start, 1));
            arm_or_idle(cfg, next, Ghost(now_ms), wall_ms, machine, status);
            TickStep::Done
        },
        PreloadOutcome::Ready => {
            match machine {
                SchedulerState::Armed { preloaded, .. } => {
                    *preloaded = true;
                },
                _ => {},
            }
            if now_ms >= cfg.playlist.items[index].start_at_ms {
                TickStep::Air { index, seek_ms: 0 }
            } else {
                TickStep::Done
            }
        },
    }
}

/// Ends a tick after an `Air` step. True where OBS should be asked, a moment later,
/// whether the program really started.
pub fn after_air(
    cfg: &Config,
    now_ms: i64,
    wall_ms: i64,
    machine: &mut SchedulerState,
    status: &mut AppStatus,
    index: usize,
    outcome: CutOutcome,
) -> (r: bool)
    requires
        index < cfg.playlist.items@.len(),
    ensures
        scheduler::board(*final(machine), *final(status)) == after_airing(
            scene(*cfg, now_ms, wall_ms),
            scheduler::board(*old(machine), *old(status)),
            index,
            outcome@,
        ),
        r == (outcome@ is Cut),
{
    let p = &cfg.playlist.items[index];
    match outcome {
        CutOutcome::Cut => {
            begin_playing(machine, status, p, now_ms, wall_ms);
            true
        },
        CutOutcome::SkipMissing => {
            let next = next_index(&cfg.playlist.items, sat_add(p.start_at_ms, 1));
            arm_or_idle(cfg, next, Ghost(now_ms), wall_ms, machine, status);
            false
        },
        CutOutcome::Failed(e) => {
            let msg = cat("cut: ", e.as_str());
            transition_to_error(machine, status, msg.as_str(), false, wall_ms);
            false
        },
        CutOutcome::Stopped(e) => {
            let msg = cat("cut: ", e.as_str());
            transition_to_error(machine, status, msg.as_str(), true, wall_ms);
            false
        },
    }
}

/// Goes on after a `Probe` step.
pub fn after_probe(
    cfg: &Config,
    now_ms: i64,
    wall_ms: i64,
    machine: &mut SchedulerState,
    status: &mut AppStatus,
    throttle: &mut Throttle,
    on_air: OnAir,
) -> (r: TickStep)
    requires
        on_air.index < cfg.playlist.items@.len(),
    ensures
        (Verdict {
            board: scheduler::board(*final(machine), *final(status)),
            throttle: *final(throttle),
            step: r,
        }) == watching(
            scene(*cfg, now_ms, wall_ms),
            scheduler::board(*old(machine), *old(status)),
            *old(throttle),
            on_air,
        ),
        step_fits(r, cfg.playlist.items@.len(), cfg.playlist.bumpers@.len()),
{
    watch_or_on(cfg, now_ms, wall_ms, machine, status, throttle, on_air)
}

/// Goes on after a `Watch` step. `new_end_ms` is the end that the watchdog pulled the
/// program in to, which the next tick goes by.
pub fn after_watch(
    cfg: &Config,
    now_ms: i64,
    wall_ms: i64,
    machine: &mut SchedulerState,
    status: &mut AppStatus,
    on_air: OnAir,
    new_end_ms: Option<i64>,
) -> (r: TickStep)
    requires
        on_air.index < cfg.playlist.items@.len(),
    ensures
        forall|t: Throttle|
            (Verdict {
                board: scheduler::board(*final(machine), *final(status)),
                throttle: t,
                step: r,
            }) == #[trigger] interrupting(
                scene(*cfg, now_ms, wall_ms),
                ending_at(scheduler::board(*old(machine), *old(status)), new_end_ms),
                t,
                on_air,
            ),
        step_fits(r, cfg.playlist.items@.len(), cfg.playlist.bumpers@.len()),
{
    if let Some(at) = new_end_ms {
        match machine {
            SchedulerState::Playing { end_at_ms, .. } => {
                *end_at_ms = at;
            },
            _ => {},
        }
    }
    let ghost any: Throttle = arbitrary();
    interrupt_or_advance(cfg, now_ms, wall_ms, machine, status, Ghost(any), on_air)
}

/// Goes on after a `BumperFile` step: a bumper that cannot be played is passed over.
pub fn after_bumper_file(
    cfg: &Config,
    now_ms: i64,
    wall_ms: i64,
    machine: &mut SchedulerState,
    status: &mut AppStatus,
    on_air: OnAir,
    bumper: usize,
    file_exists: bool,
) -> (r: TickStep)
    requires
        on_air.index < cfg.playlist.items@.len(),
        bumper < cfg.playlist.bumpers@.len(),
    ensures
        forall|t: Throttle|
            (Verdict {
                board: scheduler::board(*final(machine), *final(status)),
                throttle: t,
                step: r,
            }) == #[trigger] after_looking(
                scene(*cfg, now_ms, wall_ms),
                scheduler::board(*old(machine), *old(status)),
                t,
                on_air,
                bumper,
                file_exists,
            ),
        step_fits(r, cfg.playlist.items@.len(), cfg.playlist.bumpers@.len()),
{
    match pick_bumper_content(&cfg.playlist.bumpers[bumper], file_exists) {
        Some(_) => TickStep::BumperFire { on_air, bumper },
        None => {
            let ghost any: Throttle = arbitrary();
            advance(cfg, now_ms, wall_ms, machine, status, Ghost(any), on_air)
        },
    }
}

/// What became of looking for the file of a bumper.
pub open spec fn after_looking(
    c: Scene,
    b: Board,
    t: Throttle,
    on_air: OnAir,
    bumper: usize,
    file_exists: bool,
) -> Verdict {
    if file_exists && c.bumpers[bumper as int].content.kind != config::ProgramKind::Primary {
        Verdict { board: b, throttle: t, step: TickStep::BumperFire { on_air, bumper } }
    } else {
        advancing(c, b, t, on_air)
    }
}

/// Goes on after a `BumperFire` step.
pub fn after_bumper_fire(
    cfg: &Config,
    now_ms: i64,
    wall_ms: i64,
    machine: &mut SchedulerState,
    status: &mut AppStatus,
    on_air: OnAir,
    bumper: usize,
    outcome: BumperOutcome,
) -> (r: TickStep)
    requires
        on_air.index < cfg.playlist.items@.len(),
        bumper < cfg.playlist.bumpers@.len(),
    ensures
        forall|t: Throttle|
            (Verdict {
                board: scheduler::board(*final(machine), *final(status)),
                throttle: t,
                step: r,
            }) == #[trigger] after_firing(
                scene(*cfg, now_ms, wall_ms),
                scheduler::board(*old(machine), *old(status)),
                t,
                on_air,
                bumper,
                outcome,
            ),
        step_fits(r, cfg.playlist.items@.len(), cfg.playlist.bumpers@.len()),
{
    match outcome {
        BumperOutcome::Fired => {
            let p = &cfg.playlist.items[on_air.index];
            let k = &cfg.playlist.bumpers[bumper];
            transition_to_interstitial(
                machine,
                status,
                p.id.as_str(),
                k.id.as_str(),
                return_to_ms(k),
                k.content.name.as_str(),
                wall_ms,
            );
            TickStep::Done
        },
        BumperOutcome::Offline => TickStep::Done,
        BumperOutcome::Failed => {
            let ghost any: Throttle = arbitrary();
            advance(cfg, now_ms, wall_ms, machine, status, Ghost(any), on_air)
        },
    }
}

/// Ends a tick after an `Advance` step. True where OBS should be asked, a moment
/// later, whether the program really started.
pub fn after_advance(
    cfg: &Config,
    now_ms: i64,
    wall_ms: i64,
    machine: &mut SchedulerState,
    status: &mut AppStatus,
    index: usize,
    outcome: CutOutcome,
) -> (r: bool)
    requires
        index < cfg.playlist.items@.len(),
    ensures
        scheduler::board(*final(machine), *final(status)) == after_advancing(
            scene(*cfg, now_ms, wall_ms),
            scheduler::board(*old(machine), *old(status)),
            index,
            outcome@,
        ),
        r == (outcome@ is Cut),
{
    let p = &cfg.playlist.items[index];
    match outcome {
        CutOutcome::Cut => {
            play_whole(machine, status, p, now_ms, wall_ms);
            true
        },
        CutOutcome::SkipMissing => {
            let next = program_after(&cfg.playlist.items, p.id.as_str());
            arm_or_idle(cfg, next, Ghost(now_ms), wall_ms, machine, status);
            false
        },
        CutOutcome::Failed(e) => {
            let msg = cat("cut: ", e.as_str());
            transition_to_error(machine, status, msg.as_str(), false, wall_ms);
            false
        },
        CutOutcome::Stopped(e) => {
            let msg = cat("cut: ", e.as_str());
            transition_to_error(machine, status, msg.as_str(), true, wall_ms);
            false
        },
    }
}

/// Plays what is left of `p` from `return_to_ms` into it on.
pub open spec fn playing_rest(
    b: Board,
    p: ProgramEntry,
    return_to_ms: u64,
    now: i64,
    wall: i64,
) -> Board {
    let rest = interrupt::left_from(p, return_to_ms);
    scheduler::playing(b, p.id@, p.name@, rest, now, millis::clamp(now + rest), wall)
}

/// Ends a tick after a `ResumePrimary` step: the program goes on where the bumper cut in
/// on it, and ends that much later. Where there was no connection nothing was done, and
/// nothing changes.
pub fn after_resume_primary(
    cfg: &Config,
    now_ms: i64,
    wall_ms: i64,
    machine: &mut SchedulerState,
    status: &mut AppStatus,
    index: usize,
    return_to_ms: u64,
    online: bool,
)
    requires
        index < cfg.playlist.items@.len(),
    ensures
        scheduler::board(*final(machine), *final(status)) == (if online {
            playing_rest(
                scheduler::board(*old(machine), *old(status)),
                cfg.playlist.items@[index as int],
                return_to_ms,
                now_ms,
                wall_ms,
            )
        } else {
            scheduler::board(*old(machine), *old(status))
        }),
{
    if online {
        let p = &cfg.playlist.items[index];
        let rest: i64 = remaining_from(p, return_to_ms);
        transition_to_playing(
            machine,
            status,
            p.id.as_str(),
            p.name.as_str(),
            rest,
            now_ms,
            sat_add(now_ms, rest),
            wall_ms,
        );
    }
}

/// The playlist with the duration of `id` as it was detected.
pub open spec fn with_duration(
    items: Seq<ProgramEntry>,
    id: Seq<char>,
    duration_ms: u64,
) -> Seq<ProgramEntry> {
    match playlist::position_of(items, id) {
        Some(i) => items.update(
            i,
            (ProgramEntry { detected_duration_ms: Some(duration_ms), ..items[i] }),
        ),
        None => items,
    }
}

/// Stores what a probe found on the entry called `id`, if it is still there.
pub fn store_duration(items: &mut Vec<ProgramEntry>, id: &str, duration_ms: u64) -> (r: bool)
    ensures
        final(items)@ == with_duration(old(items)@, id@, duration_ms),
        r == (playlist::position_of(old(items)@, id@) is Some),
{
    match index_of(items, id) {
        Some(i) => {
            items[i].detected_duration_ms = Some(duration_ms);
            true
        },
        None => false,
    }
}

// ------------------------------------------------------------------------ laws

/// How many more steps a tick can take after `step`.
pub open spec fn steps_left(step: TickStep) -> nat {
    match step {
        TickStep::Done => 0,
        TickStep::Air { .. } => 1,
        TickStep::Advance { .. } => 1,
        TickStep::ResumePrimary { .. } => 1,
        TickStep::Preload { .. } => 2,
        TickStep::BumperFire { .. } => 2,
        TickStep::BumperFile { .. } => 3,
        TickStep::Watch { .. } => 4,
        TickStep::Probe { .. } => 5,
    }
}

/// Every tick comes to an end: whatever OBS answers, each step leads to one with less
/// ahead of it.
pub proof fn a_tick_ends(
    c: Scene,
    b: Board,
    t: Throttle,
    on_air: OnAir,
    index: usize,
    bumper: usize,
    preload: PreloadView,
    file_exists: bool,
    outcome: BumperOutcome,
)
    ensures
        steps_left(after_preloading(c, b, t, index, preload).step) < steps_left(
            TickStep::Preload { index },
        ),
        steps_left(watching(c, b, t, on_air).step) < steps_left(TickStep::Probe { on_air }),
        steps_left(interrupting(c, b, t, on_air).step) < steps_left(TickStep::Watch { on_air }),
        steps_left(after_looking(c, b, t, on_air, bumper, file_exists).step) < steps_left(
            TickStep::BumperFile { on_air, bumper },
        ),
        steps_left(after_firing(c, b, t, on_air, bumper, outcome).step) < steps_left(
            TickStep::BumperFire { on_air, bumper },
        ),
{
}

/// While the transport is paused a tick changes nothing and does nothing.
pub proof fn pause_freezes(c: Scene, b: Board, t: Throttle)
    requires
        b.state is Paused,
    ensures
        deciding(c, b, t) == (Verdict { board: b, throttle: t, step: TickStep::Done }),
{
}

/// A program that is over is followed by the next one in playlist order, whatever
/// their times: it is cut to, or waited for until its own start.
pub proof fn advances_in_playlist_order(c: Scene, b: Board, t: Throttle, on_air: OnAir)
    requires
        on_air.index + 1 < c.items.len() <= usize::MAX,
        playlist::position_of(c.items, c.items[on_air.index as int].id@) == Some(
            on_air.index as int,
        ),
        c.now >= on_air.started_ms,
        c.now >= on_air.end_ms,
    ensures
        ({
            let next = c.items[on_air.index + 1];
            let v = advancing(c, b, t, on_air);
            if c.now >= next.start_at_ms {
                v.step == (TickStep::Advance { index: (on_air.index + 1) as usize }) && v.board == b
            } else {
                &&& v.step == TickStep::Done
                &&& v.board.state == (StateView::Armed {
                    target: next.id@,
                    fire_at: fire_at(next, c.lead_in_ms),
                    preloaded: false,
                })
            }
        }),
{
}

/// Nothing is aired before its slot: a tick that cuts to a program does so at its
/// start or later.
pub proof fn nothing_airs_early(c: Scene, b: Board, t: Throttle)
    requires
        c.items.len() <= usize::MAX,
        c.bumpers.len() <= usize::MAX,
    ensures
        deciding(c, b, t).step matches TickStep::Air { index, .. }
            ==> c.items[index as int].start_at_ms <= c.now,
        deciding(c, b, t).step matches TickStep::Advance { index }
            ==> c.items[index as int].start_at_ms <= c.now,
{
    seqs::first_index_means(c.items, playlist::airing(c.now));
    match b.state {
        StateView::Armed { target, .. } => {
            seqs::first_index_means(c.items, playlist::called(target));
        },
        StateView::Playing { program, .. } => {
            seqs::first_index_means(c.items, playlist::called(program));
            match playlist::position_of(c.items, program) {
                Some(i) => {
                    seqs::first_index_means(c.items, playlist::called(c.items[i].id@));
                },
                None => {},
            }
        },
        _ => {},
    }
}

/// An idle scheduler takes over at once: it cuts to the program whose slot is running, at
/// the point that the clock has reached, until the slot ends; else it waits for the next
/// one, else it stays idle. So a restart of OBS or of the engine in the middle of a program
/// leads back to where it would have been.
pub proof fn an_idle_scheduler_takes_over(c: Scene, b: Board, t: Throttle)
    requires
        b.state is Idle,
        c.items.len() <= usize::MAX,
    ensures
        match (playlist::current_at(c.items, c.now), playlist::next_at(c.items, c.now)) {
            (Some(i), _) => {
                &&& deciding(c, b, t).step == (TickStep::Air {
                    index: i as usize,
                    seek_ms: (c.now - c.items[i].start_at_ms) as u64,
                })
                &&& playlist::airs_at(c.items[i], c.now)
                &&& after_airing(c, b, i as usize, CutView::Cut).state == (StateView::Playing {
                    program: c.items[i].id@,
                    started_at: c.now,
                    end_at: playlist::end_of(c.items[i]),
                })
            },
            (None, Some(i)) => {
                &&& deciding(c, b, t).step == TickStep::Done
                &&& deciding(c, b, t).board.state == (StateView::Armed {
                    target: c.items[i].id@,
                    fire_at: fire_at(c.items[i], c.lead_in_ms),
                    preloaded: false,
                })
                &&& c.items[i].start_at_ms > c.now
            },
            (None, None) => deciding(c, b, t) == (Verdict {
                board: b,
                throttle: t,
                step: TickStep::Done,
            }),
        },
{
    seqs::first_index_means(c.items, playlist::airing(c.now));
    seqs::first_index_means(c.items, playlist::upcoming(c.now));
}

/// A program that was waited for is cut to as soon as its start is reached: at once where
/// its file has been handed over, and right after handing it over where not.
pub proof fn a_due_program_is_cut_to(c: Scene, b: Board, t: Throttle)
    requires
        b.state is Armed,
        c.items.len() <= usize::MAX,
        playlist::position_of(c.items, b.state->target) is Some,
        c.now >= c.items[playlist::position_of(c.items, b.state->target)->0].start_at_ms,
    ensures
        ({
            let index = playlist::position_of(c.items, b.state->target)->0 as usize;
            if b.state->preloaded || c.now < b.state->fire_at {
                deciding(c, b, t).step == (TickStep::Air { index, seek_ms: 0 })
            } else {
                &&& deciding(c, b, t).step == TickStep::Preload { index }
                &&& after_preloading(c, b, t, index, PreloadView::Ready).step == (TickStep::Air {
                    index,
                    seek_ms: 0,
                })
            }
        }),
{
    seqs::first_index_means(c.items, playlist::called(b.state->target));
}

/// A bumper gives the air back: it is fired with its own point in the program to return
/// to, and once it is over the program goes on from there, for exactly what was left of
/// it.
pub proof fn a_bumper_gives_back(
    c: Scene,
    later: Scene,
    b: Board,
    t: Throttle,
    on_air: OnAir,
    bumper: usize,
)
    requires
        c.items.len() <= usize::MAX,
        later.items == c.items,
        later.bumpers == c.bumpers,
        on_air.index < c.items.len(),
        bumper < c.bumpers.len(),
        playlist::position_of(c.items, c.items[on_air.index as int].id@) == Some(
            on_air.index as int,
        ),
        seqs::first_index(c.bumpers, bumper_called(c.bumpers[bumper as int].id@)) == Some(
            bumper as int,
        ),
        later.now >= bumper_end(c.items[on_air.index as int], c.bumpers[bumper as int]),
    ensures
        ({
            let p = c.items[on_air.index as int];
            let k = c.bumpers[bumper as int];
            let fired = after_firing(c, b, t, on_air, bumper, BumperOutcome::Fired).board;
            let back = playing_rest(fired, p, k.at_into_program_ms, later.now, later.wall);
            let rest = interrupt::left_from(p, k.at_into_program_ms);
            &&& deciding(later, fired, t).step == (TickStep::ResumePrimary {
                index: on_air.index,
                return_to_ms: k.at_into_program_ms,
            })
            &&& back.state == (StateView::Playing {
                program: p.id@,
                started_at: later.now,
                end_at: millis::clamp(later.now + rest),
            })
            &&& back.status.current_program_name == Some(p.name@)
        }),
{
}

/// A missing file goes by the policy, at the lead-in as well as at the cut: it is passed
/// over for the next program, or it is an error, which only the operator ends where the
/// scheduler is to stop.
pub proof fn missing_files_go_by_the_policy(
    c: Scene,
    b: Board,
    t: Throttle,
    index: usize,
    policy: MissingFilePolicy,
    file_path: Seq<char>,
    online: bool,
)
    requires
        index < c.items.len(),
    ensures
        ({
            let at_lead_in = cut::preload_verdict(policy, file_path, false, online);
            let at_cut = cut::cut_verdict(policy, file_path, false, online);
            let preloaded = after_preloading(c, b, t, index, at_lead_in->0);
            let aired = after_airing(c, b, index, at_cut->0);
            let followed = after_advancing(c, b, index, at_cut->0);
            &&& at_lead_in is Some
            &&& at_cut is Some
            &&& preloaded.step == TickStep::Done
            &&& match policy {
                MissingFilePolicy::SkipToNext => {
                    &&& preloaded.board == skipping(c, b, index)
                    &&& aired == skipping(c, b, index)
                    &&& followed == arming_or_idling(
                        c,
                        b,
                        playlist::after_at(c.items, c.items[index as int].id@),
                    )
                },
                MissingFilePolicy::HoldFrame => {
                    &&& fails(preloaded.board, false)
                    &&& fails(aired, false)
                    &&& fails(followed, false)
                },
                MissingFilePolicy::StopScheduler => {
                    &&& fails(preloaded.board, true)
                    &&& fails(aired, true)
                    &&& fails(followed, true)
                },
            }
        }),
{
}

/// Whether the machine is in an error, one that only the operator ends or not.
pub open spec fn fails(b: Board, until_cleared: bool) -> bool {
    b.state matches StateView::Error { until_cleared: u, .. } && u == until_cleared
}

/// A file is handed to OBS once: a successful preload is remembered, and no tick
/// preloads again while it is.
pub proof fn preloads_once(c: Scene, b: Board, t: Throttle, index: usize)
    requires
        b.state is Armed,
    ensures
        after_preloading(c, b, t, index, PreloadView::Ready).board.state matches StateView::Armed {
            preloaded,
            ..
        } && preloaded,
        b.state->preloaded ==> !(deciding(c, b, t).step is Preload),
{
}

/// Nothing is preloaded before the lead-in of the target has begun.
pub proof fn preloads_within_the_lead_in(c: Scene, b: Board, t: Throttle)
    ensures
        deciding(c, b, t).step is Preload ==> b.state is Armed && c.now >= b.state->fire_at,
{
}

/// Every decision keeps the label of the UI in step with the machine.
pub proof fn ticks_mirror(
    c: Scene,
    b: Board,
    t: Throttle,
    on_air: OnAir,
    index: usize,
    bumper: usize,
    preload: PreloadView,
    outcome: CutView,
    file_exists: bool,
    fired: BumperOutcome,
    end: Option<i64>,
)
    requires
        scheduler::mirrored(b),
    ensures
        scheduler::mirrored(deciding(c, b, t).board),
        scheduler::mirrored(after_preloading(c, b, t, index, preload).board),
        scheduler::mirrored(after_airing(c, b, index, outcome)),
        scheduler::mirrored(watching(c, b, t, on_air).board),
        scheduler::mirrored(interrupting(c, ending_at(b, end), t, on_air).board),
        scheduler::mirrored(after_looking(c, b, t, on_air, bumper, file_exists).board),
        scheduler::mirrored(after_firing(c, b, t, on_air, bumper, fired).board),
        scheduler::mirrored(after_advancing(c, b, index, outcome)),
{
}

} // verus!
