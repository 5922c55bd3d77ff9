//! What a tick does with the program on air, the one that is waited for, and the bumpers.

use vstd::prelude::*;

#[allow(unused_imports)]
use crate::config::{Config, ProgramEntry, ProgramKind};
#[allow(unused_imports)]
use crate::cut::{CutView, PreloadView};
#[allow(unused_imports)]
use crate::scheduler::{Board, SchedulerState, StateView};
#[allow(unused_imports)]
use crate::tick::{BumperOutcome, OnAir, Scene, Throttle, TickStep, Verdict};
#[allow(unused_imports)]
use crate::{interrupt, laws, millis, playlist, scheduler, seqs, tick, transport};

verus! {

/// A tick goes by the rows, the bumpers and the lead-in of the configuration and by the two
/// clocks as they are.
pub proof fn a_tick_goes_by_the_configuration(cfg: Config, now: i64, wall: i64)
    ensures
        tick::scene(cfg, now, wall).items == cfg.playlist.items@,
        tick::scene(cfg, now, wall).bumpers == cfg.playlist.bumpers@,
        tick::scene(cfg, now, wall).lead_in_ms == cfg.scheduler.lead_in_ms,
        tick::scene(cfg, now, wall).now == now,
        tick::scene(cfg, now, wall).wall == wall,
{
}

// ------------------------------------------------------------------ going on air

/// A program that is cut to, because the one before it ended or the operator skipped to it,
/// is on air from now on for its whole length: the measured one, or the declared one where
/// nothing has been measured.
pub proof fn a_program_that_is_cut_to_airs_for_its_length(
    c: Scene,
    b: Board,
    index: usize,
    len: int,
)
    requires
        index < c.items.len(),
        laws::runs(c.items[index as int], len),
        len <= i64::MAX,
    ensures
        laws::on_air(
            tick::after_advancing(c, b, index, CutView::Cut),
            c.items[index as int],
            c.now as int,
            laws::held_sum(c.now as int, len),
            len,
        ),
        laws::on_air(
            transport::after_skipping(c, b, index, CutView::Cut),
            c.items[index as int],
            c.now as int,
            laws::held_sum(c.now as int, len),
            len,
        ),
        !transport::after_skipping(c, b, index, CutView::Cut).status.paused,
        transport::after_skipping(c, b, index, CutView::Cut).status.last_error is None,
        tick::after_advancing(c, b, index, CutView::Cut).status.paused == b.status.paused,
        tick::after_advancing(c, b, index, CutView::Cut).status.last_error == b.status.last_error,
{
}

/// A program whose time has come is on air until the end of its own slot, however late in
/// it the cut was.
pub proof fn a_due_program_airs_until_the_end_of_its_slot(
    c: Scene,
    b: Board,
    index: usize,
    len: int,
)
    requires
        index < c.items.len(),
        laws::runs(c.items[index as int], len),
        len <= i64::MAX,
        c.items[index as int].start_at_ms + len <= i64::MAX,
        i64::MIN <= c.items[index as int].start_at_ms + len - c.now <= i64::MAX,
    ensures
        ({
            let p = c.items[index as int];
            laws::on_air(
                tick::after_airing(c, b, index, CutView::Cut),
                p,
                c.now as int,
                p.start_at_ms + len,
                p.start_at_ms + len - c.now,
            )
        }),
        tick::after_airing(c, b, index, CutView::Cut).status.last_error == b.status.last_error,
{
}

/// A program goes on after a bumper from the bumper's point on, for exactly what was left
/// of it there.
pub proof fn the_rest_airs_after_a_bumper(
    b: Board,
    p: ProgramEntry,
    return_to_ms: u64,
    now: i64,
    wall: i64,
    len: int,
)
    requires
        laws::runs(p, len),
        len <= i64::MAX,
        return_to_ms <= i64::MAX,
    ensures
        return_to_ms <= len ==> laws::on_air(
            tick::playing_rest(b, p, return_to_ms, now, wall),
            p,
            now as int,
            laws::held_sum(now as int, len - return_to_ms),
            len - return_to_ms,
        ),
        return_to_ms > len ==> laws::on_air(
            tick::playing_rest(b, p, return_to_ms, now, wall),
            p,
            now as int,
            now as int,
            0,
        ),
{
}

// ------------------------------------------------------------------- idle, armed

/// An idle scheduler waits for the first row to start where no slot is running, and does
/// nothing where no row is left.
pub proof fn an_idle_scheduler_waits_for_the_next_row(c: Scene, b: Board, t: Throttle, n: int)
    requires
        b.state is Idle,
        c.lead_in_ms <= i64::MAX,
        forall|j: int|
            0 <= j < c.items.len() ==> c.now < (#[trigger] c.items[j]).start_at_ms || c.now
                >= playlist::end_of(c.items[j]),
    ensures
        laws::starts_next(c.items, c.now as int, n) ==> {
            &&& laws::waits_for(tick::deciding(c, b, t).board, c.items[n], c.lead_in_ms as int)
            &&& tick::deciding(c, b, t).step == TickStep::Done
            &&& tick::deciding(c, b, t).throttle == t
        },
        laws::none_starts(c.items, c.now as int) ==> tick::deciding(c, b, t) == (Verdict {
            board: b,
            throttle: t,
            step: TickStep::Done,
        }),
{
    laws::rows::nothing_is_on_air_between_slots(c.items, c.now);
    laws::the_next_row_is_found(c.items, c.now, n);
}

/// An idle scheduler cuts to the row whose slot is running, at the point that the clock has
/// reached in it.
pub proof fn an_idle_scheduler_joins_the_running_slot(
    c: Scene,
    b: Board,
    t: Throttle,
    i: int,
    len: int,
)
    requires
        b.state is Idle,
        0 <= i < c.items.len() <= usize::MAX,
        laws::runs(c.items[i], len),
        len <= i64::MAX,
        c.items[i].start_at_ms <= c.now < c.items[i].start_at_ms + len <= i64::MAX,
        forall|j: int|
            0 <= j < i ==> (#[trigger] c.items[j]).start_at_ms > c.now || c.now
                >= playlist::end_of(c.items[j]),
    ensures
        tick::deciding(c, b, t) == (Verdict {
            board: b,
            throttle: t,
            step: TickStep::Air {
                index: i as usize,
                seek_ms: (c.now - c.items[i].start_at_ms) as u64,
            },
        }),
{
    laws::rows::the_program_on_air_is_found(c.items, c.now, i, len);
}

/// A program that is waited for has its file handed over as soon as it is due, is cut to as
/// soon as it starts, and until then nothing happens. Where its row is gone the scheduler
/// rests.
pub proof fn a_program_is_waited_for_until_its_start(c: Scene, b: Board, t: Throttle, i: int)
    requires
        b.state is Armed,
    ensures
        ({
            let v = tick::deciding(c, b, t);
            let due = c.now >= b.state->fire_at && !b.state->preloaded;
            &&& v.throttle == t
            &&& laws::is_row(c.items, b.state->target, i) ==> {
                &&& v.board == b
                &&& due ==> v.step == (TickStep::Preload { index: i as usize })
                &&& !due && c.now >= c.items[i].start_at_ms ==> v.step == (TickStep::Air {
                    index: i as usize,
                    seek_ms: 0,
                })
                &&& !due && c.now < c.items[i].start_at_ms ==> v.step == TickStep::Done
            }
            &&& laws::no_row(c.items, b.state->target) ==> laws::rests(v.board) && v.step == TickStep::Done
        }),
{
    laws::rows_are_found_by_name(c.items, b.state->target, i);
}

/// Once its file has been handed over, a program that has started is cut to in the same
/// tick, and one that has not goes on being waited for, with the file remembered as handed
/// over.
pub proof fn a_handed_over_file_is_remembered(c: Scene, b: Board, t: Throttle, index: usize)
    requires
        index < c.items.len(),
        b.state is Armed,
    ensures
        ({
            let v = tick::after_preloading(c, b, t, index, PreloadView::Ready);
            &&& v.board.state == (StateView::Armed {
                target: b.state->target,
                fire_at: b.state->fire_at,
                preloaded: true,
            })
            &&& v.board.status == b.status
            &&& v.throttle == t
            &&& c.items[index as int].start_at_ms <= c.now ==> v.step == (TickStep::Air {
                index,
                seek_ms: 0,
            })
            &&& c.items[index as int].start_at_ms > c.now ==> v.step == TickStep::Done
        }),
{
}

/// A program whose file is missing is passed over for the first row that starts more than a
/// millisecond after it, at the lead-in, at the cut and on a skip; where there is none the
/// scheduler rests.
pub proof fn a_missing_program_is_passed_over(c: Scene, b: Board, t: Throttle, index: usize, n: int)
    requires
        index < c.items.len(),
        c.lead_in_ms <= i64::MAX,
        c.items[index as int].start_at_ms < i64::MAX,
    ensures
        ({
            let after = c.items[index as int].start_at_ms + 1;
            let at_lead_in = tick::after_preloading(c, b, t, index, PreloadView::SkipMissing);
            let at_cut = tick::after_airing(c, b, index, CutView::SkipMissing);
            let on_skip = transport::after_skipping(c, b, index, CutView::SkipMissing);
            &&& at_lead_in.step == TickStep::Done
            &&& at_lead_in.throttle == t
            &&& laws::starts_next(c.items, after, n) ==> {
                &&& laws::waits_for(at_lead_in.board, c.items[n], c.lead_in_ms as int)
                &&& laws::waits_for(at_cut, c.items[n], c.lead_in_ms as int)
                &&& laws::waits_for(on_skip, c.items[n], c.lead_in_ms as int)
            }
            &&& laws::none_starts(c.items, after) ==> laws::rests(at_lead_in.board) && laws::rests(at_cut) && laws::rests(
                on_skip,
            )
        }),
{
    laws::the_next_row_is_found(c.items, (c.items[index as int].start_at_ms + 1) as i64, n);
}

/// Where the file of a program that was to follow is missing, the row below it is waited
/// for; behind the last row the scheduler rests.
pub proof fn a_missing_follower_is_passed_over(c: Scene, b: Board, i: int)
    requires
        0 <= i < c.items.len(),
        laws::is_row(c.items, c.items[i].id@, i),
        c.lead_in_ms <= i64::MAX,
    ensures
        ({
            let after = tick::after_advancing(c, b, i as usize, CutView::SkipMissing);
            &&& i + 1 < c.items.len() ==> laws::waits_for(after, c.items[i + 1], c.lead_in_ms as int)
            &&& i + 1 == c.items.len() ==> laws::rests(after)
        }),
{
    laws::rows_are_found_by_name(c.items, c.items[i].id@, i);
}

/// A cut or a preload that failed stops with its own words, for good only where the
/// scheduler is to stop.
pub proof fn a_failure_says_what_failed(c: Scene, b: Board, t: Throttle, index: usize, e: Seq<char>)
    ensures
        ({
            let said = |after: Board, words: Seq<char>, for_good: bool|
                {
                    &&& after.state == (StateView::Error {
                        message: words,
                        until_cleared: for_good,
                    })
                    &&& after.status.last_error == Some(words)
                    &&& after.status.scheduler_state == "Error"@
                };
            let preload = "preload: "@ + e;
            let cut = "cut: "@ + e;
            &&& said(
                tick::after_preloading(c, b, t, index, PreloadView::Failed(e)).board,
                preload,
                false,
            )
            &&& said(
                tick::after_preloading(c, b, t, index, PreloadView::Stopped(e)).board,
                preload,
                true,
            )
            &&& said(tick::after_airing(c, b, index, CutView::Failed(e)), cut, false)
            &&& said(tick::after_airing(c, b, index, CutView::Stopped(e)), cut, true)
            &&& said(tick::after_advancing(c, b, index, CutView::Failed(e)), cut, false)
            &&& said(tick::after_advancing(c, b, index, CutView::Stopped(e)), cut, true)
            &&& tick::after_preloading(c, b, t, index, PreloadView::Failed(e)).step
                == TickStep::Done
            &&& tick::after_preloading(c, b, t, index, PreloadView::Stopped(e)).step
                == TickStep::Done
        }),
{
}

// ----------------------------------------------------------------------- playing

/// While a program is on air OBS is asked how long the file is, as long as that is not
/// known: once it has run for more than a second and a half, and at most every five
/// seconds.
pub proof fn a_program_is_measured(c: Scene, b: Board, t: Throttle, i: int)
    requires
        b.state is Playing,
        laws::is_row(c.items, b.state->Playing_program, i),
    ensures
        ({
            let v = tick::deciding(c, b, t);
            let p = c.items[i];
            let here = OnAir {
                index: i as usize,
                started_ms: b.state->started_at,
                end_ms: b.state->Playing_end_at,
            };
            &&& v.step is Probe <==> p.detected_duration_ms is None && c.now - p.start_at_ms > 1_500
                && c.wall - t.last_probe_ms >= 5_000
            &&& v.step is Probe ==> v == (Verdict {
                board: b,
                throttle: Throttle {
                    last_probe_ms: c.wall,
                    last_watchdog_ms: t.last_watchdog_ms,
                },
                step: TickStep::Probe { on_air: here },
            })
            &&& !(v.step is Probe) ==> v == tick::watching(c, b, t, here)
        }),
{
    laws::rows_are_found_by_name(c.items, b.state->Playing_program, i);
}

/// OBS is asked whether it is really playing once a program has run for more than two
/// seconds, and at most every second.
pub proof fn a_program_is_watched(c: Scene, b: Board, t: Throttle, on_air: OnAir)
    ensures
        ({
            let v = tick::watching(c, b, t, on_air);
            let p = c.items[on_air.index as int];
            &&& v.step is Watch <==> c.now - p.start_at_ms > 2_000 && c.wall - t.last_watchdog_ms
                >= 1_000
            &&& v.step is Watch ==> v == (Verdict {
                board: b,
                throttle: Throttle {
                    last_probe_ms: t.last_probe_ms,
                    last_watchdog_ms: c.wall,
                },
                step: TickStep::Watch { on_air },
            })
            &&& !(v.step is Watch) ==> v == tick::interrupting(c, b, t, on_air)
        }),
{
}

/// Whether a bumper of `p` is due at `now`: in the lead-in before its point, the time before
/// the program's start counting as its start.
pub open spec fn point_is_near(c: Scene, p: ProgramEntry, k: int) -> bool {
    let into = if c.now < p.start_at_ms {
        0
    } else {
        c.now - p.start_at_ms
    };
    let at = c.bumpers[k].at_into_program_ms;
    c.bumpers[k].target_program_id@ == p.id@ && at - c.lead_in_ms <= into < at
}

/// A bumper of the program on air is looked for in the lead-in before its point, and at no
/// other time; of several the first in the list.
pub proof fn a_bumper_is_fired_before_its_point(
    c: Scene,
    b: Board,
    t: Throttle,
    on_air: OnAir,
    k: int,
)
    requires
        on_air.index < c.items.len(),
        c.lead_in_ms <= i64::MAX,
        c.bumpers.len() <= usize::MAX,
        c.now - c.items[on_air.index as int].start_at_ms <= i64::MAX,
        forall|j: int|
            0 <= j < c.bumpers.len() ==> (#[trigger] c.bumpers[j]).at_into_program_ms <= i64::MAX,
    ensures
        ({
            let p = c.items[on_air.index as int];
            let v = tick::interrupting(c, b, t, on_air);
            &&& 0 <= k < c.bumpers.len() && point_is_near(c, p, k) && (forall|j: int|
                0 <= j < k ==> !#[trigger] point_is_near(c, p, j)) ==> v == (Verdict {
                board: b,
                throttle: t,
                step: TickStep::BumperFile { on_air, bumper: k as usize },
            })
            &&& (forall|j: int| 0 <= j < c.bumpers.len() ==> !#[trigger] point_is_near(c, p, j))
                ==> v == tick::advancing(c, b, t, on_air)
        }),
{
    let p = c.items[on_air.index as int];
    let into = tick::into_program(p, c.now);
    laws::rows::bumpers_are_due_before_their_point(c.bumpers, p.id@, into, c.lead_in_ms, k);
    let found = interrupt::due_at(c.bumpers, p.id@, into, c.lead_in_ms);
    if 0 <= k < c.bumpers.len() && point_is_near(c, p, k) && (forall|j: int|
        0 <= j < k ==> !#[trigger] point_is_near(c, p, j)) {
        assert forall|j: int|
            0 <= j < k && (#[trigger] c.bumpers[j]).target_program_id@ == p.id@ implies into
            < c.bumpers[j].at_into_program_ms - c.lead_in_ms || into
            >= c.bumpers[j].at_into_program_ms by {
            assert(!point_is_near(c, p, j));
        }
        assert(found == Some(k));
    }
    if found is Some {
        laws::rows::bumpers_are_due_before_their_point(
            c.bumpers,
            p.id@,
            into,
            c.lead_in_ms,
            found->0,
        );
        assert(point_is_near(c, p, found->0));
    }
}

/// A program that is not over goes on: its state is kept and what is left of it is shown.
/// One that is over gives way to the row below it, which is cut to where it has started and
/// waited for where it has not; behind the last row the scheduler rests.
pub proof fn a_program_gives_way_when_it_is_over(
    c: Scene,
    b: Board,
    t: Throttle,
    on_air: OnAir,
    i: int,
)
    requires
        i == on_air.index,
        laws::is_row(c.items, c.items[i].id@, i),
        c.lead_in_ms <= i64::MAX,
        c.now >= on_air.started_ms,
    ensures
        ({
            let v = tick::advancing(c, b, t, on_air);
            &&& v.throttle == t
            &&& c.now < on_air.end_ms ==> {
                &&& v.step == TickStep::Done
                &&& v.board.state == b.state
                &&& v.board.status.current_program_id == Some(c.items[i].id@)
                &&& v.board.status.current_program_name == Some(c.items[i].name@)
                &&& v.board.status.current_remaining_ms matches Some(left) && (on_air.end_ms - c.now
                    <= i64::MAX ==> left == on_air.end_ms - c.now)
            }
            &&& c.now >= on_air.end_ms && i + 1 == c.items.len() ==> v.step == TickStep::Done
                && laws::rests(v.board)
            &&& c.now >= on_air.end_ms && i + 1 < c.items.len() && c.items[i + 1].start_at_ms
                <= c.now ==> v.step == (TickStep::Advance { index: (i + 1) as usize }) && v.board
                == b
            &&& c.now >= on_air.end_ms && i + 1 < c.items.len() && c.items[i + 1].start_at_ms
                > c.now ==> v.step == TickStep::Done && laws::waits_for(
                v.board,
                c.items[i + 1],
                c.lead_in_ms as int,
            )
        }),
{
    laws::rows_are_found_by_name(c.items, c.items[i].id@, i);
}

/// No program is cut away before its end: until then a tick leaves it on air, and only a
/// bumper of its own may interrupt it.
pub proof fn no_program_is_cut_away_early(c: Scene, b: Board, t: Throttle)
    requires
        b.state is Playing,
        c.now < b.state->Playing_end_at,
    ensures
        tick::deciding(c, b, t).board.state == b.state,
        !(tick::deciding(c, b, t).step is Advance),
        !(tick::deciding(c, b, t).step is Air),
        !(tick::deciding(c, b, t).step is Preload),
        !(tick::deciding(c, b, t).step is ResumePrimary),
{
}

/// A program whose row is gone stays on air as it is; so does one that began later than the
/// clock now says.
pub proof fn a_program_is_held(c: Scene, b: Board, t: Throttle, on_air: OnAir)
    ensures
        b.state is Playing && laws::no_row(c.items, b.state->Playing_program) ==> tick::deciding(c, b, t)
            == (Verdict { board: b, throttle: t, step: TickStep::Done }),
        c.now < on_air.started_ms ==> tick::advancing(c, b, t, on_air) == (Verdict {
            board: b,
            throttle: t,
            step: TickStep::Done,
        }),
{
    if b.state is Playing {
        laws::rows_are_found_by_name(c.items, b.state->Playing_program, 0);
    }
}

/// While the machine is paused or in an error a tick changes nothing.
pub proof fn a_stopped_machine_is_left_alone(c: Scene, b: Board, t: Throttle)
    requires
        b.state is Paused || b.state is Error,
    ensures
        tick::deciding(c, b, t) == (Verdict { board: b, throttle: t, step: TickStep::Done }),
{
}

/// The watchdog moves the end of the program on air, and nothing else.
pub proof fn the_end_is_pulled_in(b: Board, at: i64)
    ensures
        b.state is Playing ==> tick::ending_at(b, Some(at)) == (Board {
            state: StateView::Playing {
                program: b.state->Playing_program,
                started_at: b.state->started_at,
                end_at: at,
            },
            status: b.status,
        }),
        !(b.state is Playing) ==> tick::ending_at(b, Some(at)) == b,
        tick::ending_at(b, None) == b,
{
}

// ----------------------------------------------------------------------- bumpers

/// A bumper stays on air for its whole length, the measured one or the declared one where
/// nothing has been measured, counted from its point in the program. From that moment on, and
/// not before, the program is gone back to, where the bumper was to return to.
pub proof fn a_bumper_airs_for_its_length(
    c: Scene,
    b: Board,
    t: Throttle,
    i: int,
    k: int,
    len: int,
)
    requires
        b.state is Interstitial,
        laws::is_row(c.items, b.state->primary, i),
        laws::is_bumper(c.bumpers, b.state->bumper, k),
        laws::runs(c.bumpers[k].content, len),
        len <= i64::MAX,
        c.bumpers[k].at_into_program_ms <= i64::MAX,
        c.items[i].start_at_ms + c.bumpers[k].at_into_program_ms + len <= i64::MAX,
    ensures
        ({
            let over = c.items[i].start_at_ms + c.bumpers[k].at_into_program_ms + len;
            let v = tick::deciding(c, b, t);
            &&& v.throttle == t
            &&& c.now < over ==> {
                &&& v.step == TickStep::Done
                &&& v.board.state == b.state
                &&& v.board.status.current_program_id == Some(c.items[i].id@)
                &&& v.board.status.current_remaining_ms matches Some(left) && (over - c.now
                    <= i64::MAX ==> left == over - c.now)
            }
            &&& c.now >= over ==> v.board == b && v.step == (TickStep::ResumePrimary {
                index: i as usize,
                return_to_ms: b.state->return_to,
            })
        }),
{
    laws::rows_are_found_by_name(c.items, b.state->primary, i);
    laws::bumpers_are_found_by_name(c.bumpers, b.state->bumper, k);
}

/// Where a bumper on air, or its program, is gone from the playlist, the scheduler rests.
pub proof fn a_bumper_that_is_gone_ends(c: Scene, b: Board, t: Throttle)
    requires
        b.state is Interstitial,
        laws::no_row(c.items, b.state->primary) || (forall|j: int|
            0 <= j < c.bumpers.len() ==> (#[trigger] c.bumpers[j]).id@ != b.state->bumper),
    ensures
        laws::rests(tick::deciding(c, b, t).board),
        tick::deciding(c, b, t).step == TickStep::Done,
        tick::deciding(c, b, t).throttle == t,
{
    laws::rows_are_found_by_name(c.items, b.state->primary, 0);
    laws::bumpers_are_found_by_name(c.bumpers, b.state->bumper, 0);
}

/// A bumper is only fired where its file is there and it is no program of its own; else the
/// program on air goes on as if there were none.
pub proof fn only_a_playable_bumper_is_fired(
    c: Scene,
    b: Board,
    t: Throttle,
    on_air: OnAir,
    bumper: usize,
    file_exists: bool,
)
    ensures
        ({
            let v = tick::after_looking(c, b, t, on_air, bumper, file_exists);
            let kind = c.bumpers[bumper as int].content.kind;
            &&& file_exists && (kind == ProgramKind::Interstitial || kind == ProgramKind::Standalone)
                ==> v == (Verdict {
                board: b,
                throttle: t,
                step: TickStep::BumperFire { on_air, bumper },
            })
            &&& !file_exists || kind == ProgramKind::Primary ==> v == tick::advancing(
                c,
                b,
                t,
                on_air,
            )
        }),
{
}

/// A bumper that was cut to is on air inside its program, and its own point in it is where
/// to return to. Without a connection nothing changes; where OBS refused, the program goes
/// on.
pub proof fn a_fired_bumper_is_on_air(
    c: Scene,
    b: Board,
    t: Throttle,
    on_air: OnAir,
    bumper: usize,
)
    ensures
        ({
            let k = c.bumpers[bumper as int];
            let fired = tick::after_firing(c, b, t, on_air, bumper, BumperOutcome::Fired);
            &&& fired.board.state == (StateView::Interstitial {
                primary: c.items[on_air.index as int].id@,
                bumper: k.id@,
                return_to: k.at_into_program_ms,
            })
            &&& fired.board.status.current_program_name == Some(k.content.name@)
            &&& fired.board.status.scheduler_state == "Interstitial"@
            &&& fired.board.status.current_program_id == b.status.current_program_id
            &&& fired.board.status.last_error == b.status.last_error
            &&& fired.board.status.paused == b.status.paused
            &&& fired.step == TickStep::Done
            &&& fired.throttle == t
        }),
        tick::after_firing(c, b, t, on_air, bumper, BumperOutcome::Offline) == (Verdict {
            board: b,
            throttle: t,
            step: TickStep::Done,
        }),
        tick::after_firing(c, b, t, on_air, bumper, BumperOutcome::Failed) == tick::advancing(
            c,
            b,
            t,
            on_air,
        ),
{
}

/// A bumper is over before the rest of its program begins, and the two together take as long
/// as their lengths: from the moment the bumper's point is reached to the program's end
/// there is the bumper, and then what the program had left.
pub proof fn a_bumper_delays_its_program_by_its_length(
    c: Scene,
    later: Scene,
    b: Board,
    t: Throttle,
    i: int,
    k: int,
    len: int,
    extra: int,
)
    requires
        b.state is Interstitial,
        later.items == c.items,
        later.bumpers == c.bumpers,
        laws::is_row(c.items, b.state->primary, i),
        laws::is_bumper(c.bumpers, b.state->bumper, k),
        b.state->return_to == c.bumpers[k].at_into_program_ms,
        laws::runs(c.items[i], len),
        laws::runs(c.bumpers[k].content, extra),
        c.bumpers[k].at_into_program_ms <= len,
        c.items[i].start_at_ms + len + extra <= i64::MAX,
        len <= i64::MAX,
        extra <= i64::MAX,
        later.now == c.items[i].start_at_ms + c.bumpers[k].at_into_program_ms + extra,
    ensures
        ({
            let v = tick::deciding(later, b, t);
            let back = tick::playing_rest(
                b,
                c.items[i],
                b.state->return_to,
                later.now,
                later.wall,
            );
            &&& v.step == (TickStep::ResumePrimary {
                index: i as usize,
                return_to_ms: b.state->return_to,
            })
            &&& back.state == (StateView::Playing {
                program: b.state->primary,
                started_at: later.now,
                end_at: (c.items[i].start_at_ms + len + extra) as i64,
            })
        }),
{
    laws::rows_are_found_by_name(c.items, b.state->primary, i);
    laws::bumpers_are_found_by_name(c.bumpers, b.state->bumper, k);
}

// ------------------------------------------------------------------------- frame

/// A tick has no business with the link to OBS, the activity light and the station clock,
/// and it never touches the pause light. Where it asks for something to be done it has
/// changed nothing yet.
pub proof fn ticks_leave_the_rest_alone(
    c: Scene,
    b: Board,
    t: Throttle,
    on_air: OnAir,
    index: usize,
    bumper: usize,
    preload: PreloadView,
    outcome: CutView,
    file_exists: bool,
    fired: BumperOutcome,
)
    ensures
        laws::same_beside(tick::deciding(c, b, t).board, b),
        tick::deciding(c, b, t).board.status.paused == b.status.paused,
        tick::deciding(c, b, t).board.status.last_error == b.status.last_error,
        !(tick::deciding(c, b, t).step is Done) ==> tick::deciding(c, b, t).board == b,
        laws::same_beside(tick::after_preloading(c, b, t, index, preload).board, b),
        laws::same_beside(tick::after_airing(c, b, index, outcome), b),
        laws::same_beside(tick::after_advancing(c, b, index, outcome), b),
        laws::same_beside(transport::after_skipping(c, b, index, outcome), b),
        laws::same_beside(tick::interrupting(c, b, t, on_air).board, b),
        laws::same_beside(tick::after_looking(c, b, t, on_air, bumper, file_exists).board, b),
        laws::same_beside(tick::after_firing(c, b, t, on_air, bumper, fired).board, b),
{
}

/// Waiting for another program, or resting, touches nothing that is shown of programs and
/// errors; every transition is dated by the wall clock.
pub proof fn waiting_leaves_what_is_shown(
    c: Scene,
    b: Board,
    t: Throttle,
    index: usize,
    outcome: CutView,
    preload: PreloadView,
)
    ensures
        ({
            let shows_as_before = |a: Board|
                {
                    &&& a.status.current_program_id == b.status.current_program_id
                    &&& a.status.current_program_name == b.status.current_program_name
                    &&& a.status.current_remaining_ms == b.status.current_remaining_ms
                    &&& a.status.paused == b.status.paused
                };
            let tick_board = tick::deciding(c, b, t).board;
            &&& tick_board.state is Armed || tick_board.state is Idle ==> shows_as_before(
                tick_board,
            )
            &&& tick_board.state != b.state ==> tick_board.status.last_changed_at == Some(c.wall)
            &&& tick_board.state == b.state && !(b.state is Idle || b.state is Armed
                || b.state is Interstitial) ==> tick_board.status.last_changed_at
                == b.status.last_changed_at
            &&& !(outcome is Cut) ==> {
                &&& shows_as_before(tick::after_airing(c, b, index, outcome))
                &&& shows_as_before(tick::after_advancing(c, b, index, outcome))
                &&& shows_as_before(transport::after_skipping(c, b, index, outcome))
            }
            &&& outcome is SkipMissing ==> {
                &&& tick::after_airing(c, b, index, outcome).status.last_error
                    == b.status.last_error
                &&& tick::after_advancing(c, b, index, outcome).status.last_error
                    == b.status.last_error
                &&& transport::after_skipping(c, b, index, outcome).status.last_error
                    == b.status.last_error
                &&& transport::after_skipping(c, b, index, outcome).status.last_changed_at == Some(
                    c.wall,
                )
            }
            &&& tick::after_airing(c, b, index, outcome).status.last_changed_at == Some(c.wall)
            &&& tick::after_advancing(c, b, index, outcome).status.last_changed_at == Some(c.wall)
            &&& transport::after_skipping(c, b, index, CutView::Cut).status.last_changed_at == Some(
                c.wall,
            )
            &&& shows_as_before(tick::after_preloading(c, b, t, index, preload).board)
            &&& tick::after_preloading(c, b, t, index, preload).throttle == t
        }),
{
}

/// The label of a state is its name.
pub proof fn states_are_shown_by_name(s: StateView)
    ensures
        s is Idle ==> scheduler::label_of(s) == "Idle"@,
        s is Armed ==> scheduler::label_of(s) == "Armed"@,
        s is Playing ==> scheduler::label_of(s) == "Playing"@,
        s is Paused ==> scheduler::label_of(s) == "Paused"@,
        s is Interstitial ==> scheduler::label_of(s) == "Interstitial"@,
        s is Error ==> scheduler::label_of(s) == "Error"@,
{
}

/// A machine is known by what its fields hold.
pub proof fn a_machine_is_what_it_holds(
    id: String,
    other: String,
    x: i64,
    y: i64,
    at: u64,
    flag: bool,
)
    ensures
        SchedulerState::Idle@ == StateView::Idle,
        (SchedulerState::Armed { target_id: id, fire_at_ms: x, preloaded: flag })@
            == (StateView::Armed { target: id@, fire_at: x, preloaded: flag }),
        (SchedulerState::Playing { program_id: id, started_at_ms: x, end_at_ms: y })@
            == (StateView::Playing { program: id@, started_at: x, end_at: y }),
        (SchedulerState::Paused {
            program_id: id,
            remaining_ms: x,
            paused_at_ms: y,
            bumper: None,
        })@ == (StateView::Paused { program: id@, remaining: x, paused_at: y, held: None }),
        (SchedulerState::Paused {
            program_id: id,
            remaining_ms: x,
            paused_at_ms: y,
            bumper: Some(scheduler::HeldBumper { bumper_id: other, return_to_ms: at }),
        })@ == (StateView::Paused {
            program: id@,
            remaining: x,
            paused_at: y,
            held: Some((other@, at)),
        }),
        (SchedulerState::InterstitialPlaying {
            primary_id: id,
            bumper_id: other,
            return_to_ms: at,
        })@ == (StateView::Interstitial { primary: id@, bumper: other@, return_to: at }),
        (SchedulerState::Error { message: id, until_cleared: flag })@ == (StateView::Error {
            message: id@,
            until_cleared: flag,
        }),
{
}

/// A board is the machine and the status as they are.
pub proof fn a_board_is_machine_and_status(
    machine: SchedulerState,
    status: crate::app_status::AppStatus,
)
    ensures
        scheduler::board(machine, status).state == machine@,
        scheduler::board(machine, status).status == status@,
{
}

/// The program that a state is about: the one that is waited for, on air, held, or
/// interrupted. A state drives the scene where there is one.
pub proof fn a_state_is_about_its_program(s: StateView, id: Seq<char>)
    ensures
        laws::is_about(s, id) <==> scheduler::program_of(s) == Some(id),
        scheduler::program_of(s) is Some <==> scheduler::drives(s),
        s is Idle || s is Error <==> !scheduler::drives(s),
{
}

} // verus!
