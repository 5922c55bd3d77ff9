//! The transport panel: pause, resume, skip, reload.

use vstd::prelude::*;

#[allow(unused_imports)]
use crate::config::{BumperEntry, ProgramEntry};
#[allow(unused_imports)]
use crate::cut::CutView;
#[allow(unused_imports)]
use crate::scheduler::{Board, StateView};
#[allow(unused_imports)]
use crate::tick::Scene;
#[allow(unused_imports)]
use crate::transport::TransportStep;
#[allow(unused_imports)]
use crate::ControlCommand;
#[allow(unused_imports)]
use crate::{laws, playlist, scheduler, seqs, tick, transport};

verus! {

// -------------------------------------------------------------------------- next

/// Next goes to the row below the program that the machine is about, whatever it does with
/// that program: waits for it, airs it, holds it, or has a bumper in it.
pub proof fn next_goes_to_the_row_below(
    items: Seq<ProgramEntry>,
    b: Board,
    id: Seq<char>,
    now: i64,
    i: int,
)
    requires
        laws::is_about(b.state, id),
        laws::is_row(items, id, i),
        i + 1 < items.len(),
    ensures
        transport::commanding(items, b, ControlCommand::Next, now) == (
            b,
            TransportStep::CutTo { index: (i + 1) as usize },
        ),
        transport::skip_at(items, b.state, now) == Some(i + 1),
{
    laws::rows_are_found_by_name(items, id, i);
}

/// Where there is no row below, because the program is the last or its row is gone, or
/// because the machine is about none, Next goes to the first row that is still to start.
/// Where none is, nothing is done but to say so.
pub proof fn next_goes_by_the_clock_at_the_end(
    items: Seq<ProgramEntry>,
    b: Board,
    now: i64,
    n: int,
)
    requires
        items.len() <= usize::MAX,
        b.state is Idle || b.state is Error || exists|id: Seq<char>| #[trigger]
            laws::is_about(b.state, id) && (laws::no_row(items, id) || laws::is_row(
                items,
                id,
                items.len() - 1,
            )),
    ensures
        laws::starts_next(items, now as int, n) ==> transport::commanding(
            items,
            b,
            ControlCommand::Next,
            now,
        ) == (b, TransportStep::CutTo { index: n as usize }),
        laws::none_starts(items, now as int) ==> {
            let (after, step) = transport::commanding(items, b, ControlCommand::Next, now);
            &&& step == TransportStep::Ignore
            &&& after.state == b.state
            &&& after.status.last_error == Some("已经在最后一档，没有下一档可跳"@)
            &&& after.status.scheduler_state == b.status.scheduler_state
            &&& after.status.current_program_id == b.status.current_program_id
            &&& after.status.current_program_name == b.status.current_program_name
            &&& after.status.current_remaining_ms == b.status.current_remaining_ms
            &&& after.status.paused == b.status.paused
            &&& laws::same_beside(after, b)
        },
{
    if !(b.state is Idle || b.state is Error) {
        let id = choose|id: Seq<char>| #[trigger]
            laws::is_about(b.state, id) && (laws::no_row(items, id) || laws::is_row(
                items,
                id,
                items.len() - 1,
            ));
        laws::rows_are_found_by_name(items, id, items.len() - 1);
    }
    laws::the_next_row_is_found(items, now, n);
}

/// A skip that failed leaves on air what is on air, and says why.
pub proof fn a_failed_skip_changes_nothing_on_air(c: Scene, b: Board, index: usize, e: Seq<char>)
    ensures
        ({
            let failed = transport::after_skipping(c, b, index, CutView::Failed(e));
            let stopped = transport::after_skipping(c, b, index, CutView::Stopped(e));
            &&& failed.state == b.state
            &&& stopped == failed
            &&& failed.status.last_error == Some("跳到下一档失败："@ + e)
            &&& failed.status.scheduler_state == b.status.scheduler_state
            &&& failed.status.current_program_id == b.status.current_program_id
            &&& failed.status.current_program_name == b.status.current_program_name
            &&& failed.status.current_remaining_ms == b.status.current_remaining_ms
            &&& failed.status.paused == b.status.paused
        }),
{
}

/// After a skip the program that was cut to starts now, the rows behind it follow back to
/// back, and the rows above it, and all but the starts, stay as they are.
pub proof fn the_day_closes_up_behind_a_skip(
    items: Seq<ProgramEntry>,
    id: Seq<char>,
    now: i64,
    i: int,
    row: int,
    slot: int,
)
    requires
        laws::is_row(items, id, i),
        0 <= row < items.len(),
    ensures
        ({
            let rows = transport::closed_up(items, id, now);
            &&& rows.len() == items.len()
            &&& rows[i].start_at_ms == now
            &&& row < i ==> rows[row] == items[row]
            &&& row > i && laws::rows::takes_up(items[row - 1], slot) && slot <= i64::MAX
                ==> rows[row].start_at_ms == laws::held_sum(rows[row - 1].start_at_ms as int, slot)
            &&& rows[row] == (ProgramEntry { start_at_ms: rows[row].start_at_ms, ..items[row] })
        }),
{
    laws::rows_are_found_by_name(items, id, i);
    laws::rows::rows_are_laid_back_to_back(items, i, now, row, slot);
    laws::rows::rows_are_laid_back_to_back(items, i, now, i, slot);
}

/// A skip to a program whose row is gone moves nothing.
pub proof fn nothing_closes_up_behind_a_stranger(items: Seq<ProgramEntry>, id: Seq<char>, now: i64)
    requires
        laws::no_row(items, id),
    ensures
        transport::closed_up(items, id, now) == items,
{
    laws::rows_are_found_by_name(items, id, 0);
}

// ----------------------------------------------------------------- pause, resume

/// Whether `left` is what is left, when the machine is paused in the state `s`, of a program
/// that runs for `len` ms.
///
/// On air it is the time to its end; behind a bumper what comes after the bumper's point;
/// while it is waited for its whole length. Nothing is ever less than nothing.
pub open spec fn is_left(s: StateView, now: i64, len: int, left: int) -> bool {
    match s {
        StateView::Playing { end_at, .. } => left == if end_at <= now {
            0
        } else if end_at - now > i64::MAX {
            i64::MAX as int
        } else {
            end_at - now
        },
        StateView::Interstitial { return_to, .. } => left == if return_to >= len {
            0
        } else {
            len - return_to
        },
        StateView::Armed { .. } => left == len,
        _ => false,
    }
}

/// A pause holds the program that the machine is about, with exactly what is left of it, and
/// puts the pause light on. Of a program whose row is gone only what was on air is left.
pub proof fn a_pause_keeps_what_is_left(
    items: Seq<ProgramEntry>,
    b: Board,
    id: Seq<char>,
    now: i64,
    wall: i64,
    i: int,
    len: int,
    left: int,
)
    requires
        laws::is_about(b.state, id),
        !(b.state is Paused),
        b.state is Playing || laws::is_row(items, id, i) && laws::runs(items[i], len) || laws::no_row(
            items,
            id,
        ) && len == 0,
        len <= i64::MAX,
        b.state is Interstitial ==> b.state->return_to <= i64::MAX,
        is_left(b.state, now, len, left),
    ensures
        ({
            let after = transport::pausing(items, b, now, wall);
            &&& after.state matches StateView::Paused { program, remaining, paused_at, held }
                && program == id && remaining == left && paused_at == now && held == (
            match b.state {
                StateView::Interstitial { bumper, return_to, .. } => Some((bumper, return_to)),
                _ => None,
            })
            &&& after.status.paused
            &&& after.status.scheduler_state == "Paused"@
            &&& after.status.current_program_id == b.status.current_program_id
            &&& after.status.current_program_name == b.status.current_program_name
            &&& after.status.last_error == b.status.last_error
            &&& laws::same_beside(after, b)
            &&& transport::commanding(items, b, ControlCommand::Pause, now) == (
                b,
                TransportStep::TellPause,
            )
        }),
{
    laws::rows_are_found_by_name(items, id, i);
}

/// Pause means nothing where nothing is on air or everything is held already, and Resume
/// nothing where nothing is held.
pub proof fn idle_buttons_do_nothing(
    items: Seq<ProgramEntry>,
    bumpers: Seq<BumperEntry>,
    b: Board,
    now: i64,
    wall: i64,
)
    ensures
        b.state is Idle || b.state is Error || b.state is Paused ==> {
            &&& transport::pausing(items, b, now, wall) == b
            &&& transport::commanding(items, b, ControlCommand::Pause, now) == (
                b,
                TransportStep::Ignore,
            )
        },
        !(b.state is Paused) ==> {
            &&& transport::resuming(items, bumpers, b, now, wall) == b
            &&& transport::commanding(items, b, ControlCommand::Resume, now) == (
                b,
                TransportStep::Ignore,
            )
        },
        b.state is Paused ==> transport::commanding(items, b, ControlCommand::Resume, now) == (
            b,
            TransportStep::TellPlay,
        ),
        transport::commanding(items, b, ControlCommand::Reload, now) == (b, TransportStep::Reread),
{
}

/// Resuming airs exactly what was left when the transport was held, from now on, and puts
/// the pause light off. A program whose row is gone airs without a name.
pub proof fn resuming_airs_what_was_left(
    items: Seq<ProgramEntry>,
    bumpers: Seq<BumperEntry>,
    b: Board,
    now: i64,
    wall: i64,
    i: int,
)
    requires
        b.state is Paused,
        b.state->held is None,
        b.state->remaining >= 0,
    ensures
        ({
            let after = transport::resuming(items, bumpers, b, now, wall);
            &&& after.state matches StateView::Playing { program, started_at, end_at } && program
                == b.state->Paused_program && started_at == now && end_at == laws::held_sum(
                now as int,
                b.state->remaining as int,
            )
            &&& !after.status.paused
            &&& after.status.scheduler_state == "Playing"@
            &&& after.status.current_program_id == Some(b.state->Paused_program)
            &&& after.status.current_remaining_ms == Some(b.state->remaining)
            &&& laws::is_row(items, b.state->Paused_program, i)
                ==> after.status.current_program_name == Some(items[i].name@)
            &&& laws::no_row(items, b.state->Paused_program) ==> (
            after.status.current_program_name matches Some(name) && name.len() == 0)
            &&& after.status.last_changed_at == Some(wall)
            &&& after.status.last_error == b.status.last_error
            &&& laws::same_beside(after, b)
        }),
{
    laws::rows_are_found_by_name(items, b.state->Paused_program, i);
}

/// Resuming a bumper puts the same bumper on air again, as long as it and its program are
/// there; else what was left of the program airs.
pub proof fn resuming_goes_back_to_the_bumper(
    items: Seq<ProgramEntry>,
    bumpers: Seq<BumperEntry>,
    b: Board,
    now: i64,
    wall: i64,
    i: int,
    k: int,
)
    requires
        b.state is Paused,
        b.state->held is Some,
        b.state->remaining >= 0,
    ensures
        ({
            let (bumper, return_to) = b.state->held->0;
            let after = transport::resuming(items, bumpers, b, now, wall);
            &&& laws::is_row(items, b.state->Paused_program, i) && laws::is_bumper(
                bumpers,
                bumper,
                k,
            ) ==> after.state == (StateView::Interstitial {
                primary: b.state->Paused_program,
                bumper,
                return_to,
            }) && after.status.current_program_name == Some(bumpers[k].content.name@)
            &&& laws::no_row(items, b.state->Paused_program) || (forall|j: int|
                0 <= j < bumpers.len() ==> (#[trigger] bumpers[j]).id@ != bumper) ==> (
            after.state matches StateView::Playing { program, started_at, end_at } && program
                == b.state->Paused_program && started_at == now && end_at == laws::held_sum(
                now as int,
                b.state->remaining as int,
            ))
            &&& !after.status.paused
        }),
{
    let (bumper, return_to) = b.state->held->0;
    laws::rows_are_found_by_name(items, b.state->Paused_program, i);
    laws::bumpers_are_found_by_name(bumpers, bumper, k);
}

/// A pause moves everything still to come by exactly the time that the transport was held,
/// and nothing that is over: the rows below the program, and the program's own row where a
/// bumper is on air in it.
pub proof fn a_pause_moves_what_is_still_to_come(
    items: Seq<ProgramEntry>,
    id: Seq<char>,
    paused_at: i64,
    now: i64,
    in_bumper: bool,
    i: int,
    row: int,
)
    requires
        laws::is_row(items, id, i),
        0 <= row < items.len(),
        now - paused_at <= i64::MAX,
        items[row].start_at_ms + (now - paused_at) <= i64::MAX,
    ensures
        ({
            let rows = transport::slid(items, id, transport::held_ms(paused_at, now), in_bumper);
            &&& rows.len() == items.len()
            &&& row < i ==> rows[row] == items[row]
            &&& row == i && !in_bumper ==> rows[row] == items[row]
            &&& (row > i || row == i && in_bumper) && now >= paused_at ==> rows[row] == (
            ProgramEntry {
                start_at_ms: (items[row].start_at_ms + (now - paused_at)) as i64,
                ..items[row]
            })
            &&& now <= paused_at ==> rows[row] == items[row]
        }),
{
    laws::rows_are_found_by_name(items, id, i);
}

/// A program whose row is gone moves nothing when it is resumed.
pub proof fn nothing_moves_behind_a_stranger(
    items: Seq<ProgramEntry>,
    id: Seq<char>,
    held: i64,
    in_bumper: bool,
)
    requires
        laws::no_row(items, id),
    ensures
        transport::slid(items, id, held, in_bumper) == items,
{
    laws::rows_are_found_by_name(items, id, 0);
}

/// Reading the configuration again ends whatever was going on: nothing is driven, shown or
/// held, and no error is left over.
pub proof fn a_reload_starts_afresh(b: Board, wall: i64)
    ensures
        ({
            let after = transport::reloading(b, wall);
            &&& laws::rests(after)
            &&& !after.status.paused
            &&& after.status.last_error is None
            &&& after.status.current_program_id is None
            &&& after.status.current_program_name is None
            &&& after.status.current_remaining_ms is None
            &&& after.status.last_changed_at == Some(wall)
            &&& laws::same_beside(after, b)
        }),
{
}

} // verus!
