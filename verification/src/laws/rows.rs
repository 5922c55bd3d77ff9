//! The rows of the schedule: which is on air, which is next, and where they move.

use vstd::prelude::*;

#[allow(unused_imports)]
use crate::config::{BumperEntry, ProgramEntry};
#[allow(unused_imports)]
use crate::{interrupt, laws, millis, playlist, seqs, tick};

verus! {

/// The program on air is the first whose slot holds the moment. A row is passed over only
/// where the moment lies before its start, or at or past its end.
pub proof fn the_program_on_air_is_found(items: Seq<ProgramEntry>, now: i64, i: int, len: int)
    requires
        0 <= i < items.len(),
        laws::runs(items[i], len),
        items[i].start_at_ms <= now < items[i].start_at_ms + len <= i64::MAX,
        len <= i64::MAX,
    ensures
        playlist::current_at(items, now) matches Some(on) && 0 <= on <= i && items[on].start_at_ms
            <= now && now < playlist::end_of(items[on]),
        (forall|j: int|
            0 <= j < i ==> (#[trigger] items[j]).start_at_ms > now || now >= playlist::end_of(
                items[j],
            )) ==> playlist::current_at(items, now) == Some(i),
{
    seqs::first_index_means(items, playlist::airing(now));
    assert(playlist::airs_at(items[i], now));
    assert(playlist::airing(now)(items[i]));
    let on = playlist::current_at(items, now)->0;
    assert(playlist::airing(now)(items[on]));
}

/// Nothing is taken to be on air where no slot holds the moment.
pub proof fn nothing_is_on_air_between_slots(items: Seq<ProgramEntry>, now: i64)
    requires
        forall|j: int|
            0 <= j < items.len() ==> now < (#[trigger] items[j]).start_at_ms || now
                >= playlist::end_of(items[j]),
    ensures
        playlist::current_at(items, now) is None,
{
    seqs::first_index_means(items, playlist::airing(now));
    if playlist::current_at(items, now) is Some {
        let on = playlist::current_at(items, now)->0;
        assert(playlist::airing(now)(items[on]));
    }
}

/// The row that follows another is the one below it, whatever their times; the last row,
/// and a name that no row has, are followed by none.
pub proof fn rows_follow_in_playlist_order(items: Seq<ProgramEntry>, id: Seq<char>, i: int)
    ensures
        laws::is_row(items, id, i) && i + 1 < items.len() ==> playlist::after_at(items, id) == Some(i + 1),
        laws::is_row(items, id, i) && i + 1 == items.len() ==> playlist::after_at(items, id) is None,
        laws::no_row(items, id) ==> playlist::after_at(items, id) is None,
{
    laws::rows_are_found_by_name(items, id, i);
}

/// Shifting moves the rows from one on by the same time and leaves the others, and all but
/// the starts, as they are.
pub proof fn shifting_moves_the_starts(
    items: Seq<ProgramEntry>,
    from: int,
    delta: int,
    i: int,
)
    requires
        0 <= i < items.len(),
    ensures
        playlist::shifted(items, from, delta).len() == items.len(),
        i < from ==> playlist::shifted(items, from, delta)[i] == items[i],
        i >= from && i64::MIN <= items[i].start_at_ms + delta <= i64::MAX ==> playlist::shifted(
            items,
            from,
            delta,
        )[i] == (ProgramEntry {
            start_at_ms: (items[i].start_at_ms + delta) as i64,
            ..items[i]
        }),
        playlist::shifted(items, from, delta)[i] == (ProgramEntry {
            start_at_ms: playlist::shifted(items, from, delta)[i].start_at_ms,
            ..items[i]
        }),
{
}

/// Whether a row takes up `slot` ms of the schedule: its length, and one for a row that has
/// none.
pub open spec fn takes_up(p: ProgramEntry, slot: int) -> bool {
    exists|len: int| #[trigger] laws::runs(p, len) && slot == (if len == 0 {
        1
    } else {
        len
    })
}

/// Rows that are laid out stand back to back: the first of them where it was to, each of the
/// others where the one above it ends. The rows above them, and all but the starts, stay as
/// they are.
pub proof fn rows_are_laid_back_to_back(
    items: Seq<ProgramEntry>,
    from: int,
    base: i64,
    i: int,
    slot: int,
)
    requires
        0 <= from,
        0 <= i < items.len(),
    ensures
        ({
            let rows = playlist::laid_out(items, from, base);
            &&& rows.len() == items.len()
            &&& i < from ==> rows[i] == items[i]
            &&& i == from ==> rows[i].start_at_ms == base
            &&& i > from && takes_up(items[i - 1], slot) && slot <= i64::MAX ==> rows[i].start_at_ms
                == laws::held_sum(rows[i - 1].start_at_ms as int, slot)
            &&& rows[i] == (ProgramEntry { start_at_ms: rows[i].start_at_ms, ..items[i] })
        }),
{
}

/// Where rows that were laid out end: where the last of them does.
pub proof fn the_layout_ends_with_its_last_row(
    items: Seq<ProgramEntry>,
    from: int,
    base: i64,
    slot: int,
)
    requires
        0 <= from < items.len(),
        takes_up(items.last(), slot),
        slot <= i64::MAX,
    ensures
        playlist::laid_at(items, from, base, items.len() as int) == laws::held_sum(
            playlist::laid_out(items, from, base).last().start_at_ms as int,
            slot,
        ),
{
}

/// A bumper is due in the lead-in before its point in the program and at no other time. The
/// first that is due is the one to fire.
pub proof fn bumpers_are_due_before_their_point(
    bumpers: Seq<BumperEntry>,
    id: Seq<char>,
    into: i64,
    lead_in_ms: u64,
    k: int,
)
    requires
        lead_in_ms <= i64::MAX,
        forall|j: int|
            0 <= j < bumpers.len() ==> (#[trigger] bumpers[j]).at_into_program_ms <= i64::MAX,
    ensures
        interrupt::due_at(bumpers, id, into, lead_in_ms) == Some(k) <==> {
            &&& 0 <= k < bumpers.len()
            &&& bumpers[k].target_program_id@ == id
            &&& bumpers[k].at_into_program_ms - lead_in_ms <= into < bumpers[k].at_into_program_ms
            &&& forall|j: int|
                0 <= j < k && (#[trigger] bumpers[j]).target_program_id@ == id ==> into
                    < bumpers[j].at_into_program_ms - lead_in_ms || into
                    >= bumpers[j].at_into_program_ms
        },
{
    let f = interrupt::due(id, into, lead_in_ms);
    seqs::first_index_means(bumpers, f);
    let found = interrupt::due_at(bumpers, id, into, lead_in_ms);
    if found == Some(k) {
        assert(f(bumpers[k]));
        assert forall|j: int|
            0 <= j < k && (#[trigger] bumpers[j]).target_program_id@ == id implies into
            < bumpers[j].at_into_program_ms - lead_in_ms || into >= bumpers[j].at_into_program_ms by {
            assert(!f(bumpers[j]));
        }
    }
    if 0 <= k < bumpers.len() && bumpers[k].target_program_id@ == id
        && bumpers[k].at_into_program_ms - lead_in_ms <= into < bumpers[k].at_into_program_ms && (
    forall|j: int|
        0 <= j < k && (#[trigger] bumpers[j]).target_program_id@ == id ==> into
            < bumpers[j].at_into_program_ms - lead_in_ms || into >= bumpers[j].at_into_program_ms) {
        assert(f(bumpers[k]));
        assert forall|j: int| 0 <= j < k implies !f(#[trigger] bumpers[j]) by {}
        seqs::first_index_is(bumpers, f, k);
    }
}

/// A measured duration is stored on the row it was measured of, and nothing else changes.
pub proof fn a_measurement_is_stored_on_its_row(
    items: Seq<ProgramEntry>,
    id: Seq<char>,
    i: int,
    duration_ms: u64,
)
    ensures
        laws::is_row(items, id, i) ==> {
            let rows = tick::with_duration(items, id, duration_ms);
            &&& rows.len() == items.len()
            &&& rows[i] == (ProgramEntry { detected_duration_ms: Some(duration_ms), ..items[i] })
            &&& forall|j: int| 0 <= j < items.len() && j != i ==> #[trigger] rows[j] == items[j]
        },
        laws::no_row(items, id) ==> tick::with_duration(items, id, duration_ms) == items,
{
    laws::rows_are_found_by_name(items, id, i);
}

/// A position that is handed out is the position that is meant, and stands for its row.
pub proof fn positions_stand_for_rows(items: Seq<ProgramEntry>, i: usize, p: &ProgramEntry)
    ensures
        playlist::pos(Some(i)) == Some(i as int),
        playlist::pos(None) is None,
        playlist::entry_at(items, Some(i as int)) == Some(items[i as int]),
        playlist::entry_at(items, None) is None,
        playlist::target(Some(p)) == Some(*p),
        playlist::target(None::<&ProgramEntry>) is None,
{
}

} // verus!
