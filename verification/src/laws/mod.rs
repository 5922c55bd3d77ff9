//! What the library is for, stated over the fields of its inputs and results.
//!
//! Each law says what a decision has to come to in plain terms: which row, which moment,
//! how many milliseconds.

use vstd::prelude::*;

#[allow(unused_imports)]
use crate::config::{BumperEntry, ProgramEntry};
#[allow(unused_imports)]
use crate::scheduler::{Board, StateView};
#[allow(unused_imports)]
use crate::{playlist, seqs, tick};

pub mod checking;
pub mod editing;
pub mod library;
pub mod panel;
pub mod rows;
pub mod station;
pub mod time;
pub mod timeline;
pub mod watching;
pub mod words;

verus! {

/// Whether a row runs for `len` ms: what was measured of its file, or the estimate where
/// nothing was.
pub open spec fn runs(p: ProgramEntry, len: int) -> bool {
    match p.detected_duration_ms {
        Some(measured) if measured > 0 => len == measured,
        _ => len == p.declared_duration_ms,
    }
}

/// Whether the row at `i` is the one called `id`: the first of that name.
pub open spec fn is_row(items: Seq<ProgramEntry>, id: Seq<char>, i: int) -> bool {
    &&& 0 <= i < items.len() <= usize::MAX
    &&& items[i].id@ == id
    &&& forall|j: int| 0 <= j < i ==> (#[trigger] items[j]).id@ != id
}

/// Whether no row is called `id`.
pub open spec fn no_row(items: Seq<ProgramEntry>, id: Seq<char>) -> bool {
    forall|j: int| 0 <= j < items.len() ==> (#[trigger] items[j]).id@ != id
}

/// Whether the bumper at `k` is the one called `id`: the first of that name.
pub open spec fn is_bumper(bumpers: Seq<BumperEntry>, id: Seq<char>, k: int) -> bool {
    &&& 0 <= k < bumpers.len()
    &&& bumpers[k].id@ == id
    &&& forall|j: int| 0 <= j < k ==> (#[trigger] bumpers[j]).id@ != id
}

/// Whether the row at `i` is the first that starts after `at`.
pub open spec fn starts_next(items: Seq<ProgramEntry>, at: int, i: int) -> bool {
    &&& 0 <= i < items.len() <= usize::MAX
    &&& items[i].start_at_ms > at
    &&& forall|j: int| 0 <= j < i ==> (#[trigger] items[j]).start_at_ms <= at
}

/// Whether no row starts after `at`.
pub open spec fn none_starts(items: Seq<ProgramEntry>, at: int) -> bool {
    forall|j: int| 0 <= j < items.len() ==> (#[trigger] items[j]).start_at_ms <= at
}

/// The sum of two times, held at the last moment that the clock knows.
pub open spec fn held_sum(a: int, b: int) -> int {
    if a + b > i64::MAX {
        i64::MAX as int
    } else {
        a + b
    }
}

/// Whether `p` is on air since `since` until `until`, and shown with `left` ms to go.
pub open spec fn on_air(b: Board, p: ProgramEntry, since: int, until: int, left: int) -> bool {
    &&& b.state matches StateView::Playing { program, started_at, end_at } && program == p.id@
        && started_at == since && end_at == until
    &&& b.status.scheduler_state == "Playing"@
    &&& b.status.current_program_id == Some(p.id@)
    &&& b.status.current_program_name == Some(p.name@)
    &&& b.status.current_remaining_ms matches Some(ms) && ms == left
}

/// Whether `p` is waited for, its file due `lead_in` ms before its start.
pub open spec fn waits_for(b: Board, p: ProgramEntry, lead_in: int) -> bool {
    &&& b.state matches StateView::Armed { target, fire_at, preloaded } && target == p.id@ && (
    p.start_at_ms - lead_in >= i64::MIN ==> fire_at == p.start_at_ms - lead_in) && !preloaded
    &&& b.status.scheduler_state == "Armed"@
}

/// Whether nothing is driven.
pub open spec fn rests(b: Board) -> bool {
    b.state is Idle && b.status.scheduler_state == "Idle"@
}

/// Whether the program that a state is about is called `id`.
pub open spec fn is_about(s: StateView, id: Seq<char>) -> bool {
    match s {
        StateView::Armed { target, .. } => target == id,
        StateView::Playing { program, .. } => program == id,
        StateView::Paused { program, .. } => program == id,
        StateView::Interstitial { primary, .. } => primary == id,
        StateView::Idle => false,
        StateView::Error { .. } => false,
    }
}

/// Whether two boards show the same of what the timeline has no business with: the link to
/// OBS, the activity light and the station clock.
pub open spec fn same_beside(a: Board, b: Board) -> bool {
    &&& a.status.obs_connected == b.status.obs_connected
    &&& a.status.obs_error == b.status.obs_error
    &&& a.status.scheduler_running == b.status.scheduler_running
    &&& a.status.ntp_offset_ms == b.status.ntp_offset_ms
    &&& a.status.ntp_server == b.status.ntp_server
    &&& a.status.ntp_synced_at == b.status.ntp_synced_at
    &&& a.status.ntp_error == b.status.ntp_error
}

/// The row called `id` is the one that the library finds by that name.
pub proof fn rows_are_found_by_name(items: Seq<ProgramEntry>, id: Seq<char>, i: int)
    ensures
        is_row(items, id, i) ==> playlist::position_of(items, id) == Some(i),
        no_row(items, id) ==> playlist::position_of(items, id) is None,
{
    if is_row(items, id, i) {
        seqs::first_index_is(items, playlist::called(id), i);
    }
    if no_row(items, id) {
        seqs::first_index_is(items, playlist::called(id), items.len() as int);
    }
}

/// The bumper called `id` is the one that the library finds by that name.
pub proof fn bumpers_are_found_by_name(bumpers: Seq<BumperEntry>, id: Seq<char>, k: int)
    ensures
        is_bumper(bumpers, id, k) ==> seqs::first_index(bumpers, tick::bumper_called(id)) == Some(
            k,
        ),
        (forall|j: int| 0 <= j < bumpers.len() ==> (#[trigger] bumpers[j]).id@ != id)
            ==> seqs::first_index(bumpers, tick::bumper_called(id)) is None,
{
    if is_bumper(bumpers, id, k) {
        seqs::first_index_is(bumpers, tick::bumper_called(id), k);
    }
    if forall|j: int| 0 <= j < bumpers.len() ==> (#[trigger] bumpers[j]).id@ != id {
        seqs::first_index_is(bumpers, tick::bumper_called(id), bumpers.len() as int);
    }
}

/// The first row to start after a moment is the one that the library takes as the next.
pub proof fn the_next_row_is_found(items: Seq<ProgramEntry>, now: i64, i: int)
    ensures
        starts_next(items, now as int, i) ==> playlist::next_at(items, now) == Some(i),
        none_starts(items, now as int) ==> playlist::next_at(items, now) is None,
{
    if starts_next(items, now as int, i) {
        seqs::first_index_is(items, playlist::upcoming(now), i);
    }
    if none_starts(items, now as int) {
        seqs::first_index_is(items, playlist::upcoming(now), items.len() as int);
    }
}

} // verus!
