//! Time-aware playlist queries: what is on air, what is next, where does the
//! schedule move, and is it sane.
//!
//! All times are Unix epoch *milliseconds* (UTC).

use vstd::prelude::*;

use crate::clock::{format_date, local_offset_secs, now_ms};
use crate::config::{BumperEntry, Config, ProgramEntry, ProgramKind, SchedulerConfig};
use crate::millis::{sat_add, to_signed};
use crate::text::{blank, fmt_padded, fmt_u64};
#[allow(unused_imports)]
use crate::{clock, millis, seqs, text};

verus! {

// ------------------------------------------------------------------ the clock

/// The moment the scheduler goes by when the machine's clock reads `raw_ms`: the
/// operator's trim and the measured offset on top of it.
pub open spec fn adjusted_now(raw_ms: i64, clock_offset_ms: i64, ntp_offset_ms: i64) -> i64 {
    millis::clamp(millis::clamp(raw_ms + clock_offset_ms) + ntp_offset_ms)
}

/// The moment the scheduler goes by when the machine's clock reads `raw_ms`.
pub fn adjust_now_ms(raw_ms: i64, cfg: &SchedulerConfig, ntp_offset_ms: i64) -> (r: i64)
    ensures
        r == adjusted_now(raw_ms, cfg.clock_offset_ms, ntp_offset_ms),
{
    sat_add(sat_add(raw_ms, cfg.clock_offset_ms), ntp_offset_ms)
}

/// The effective wall clock the scheduler should use.
///
/// Two corrections stack on top of the local clock: `clock_offset_ms`, the
/// operator's manual trim against an external master clock, and the offset that a
/// time server reported, so that a wrong local clock does not move the schedule.
pub fn effective_now_ms(cfg: &SchedulerConfig, ntp_offset_ms: i64) -> (r: i64)
    ensures
        exists|raw: i64|
            0 <= raw <= clock::LAST_MS && r == #[trigger] adjusted_now(
                raw,
                cfg.clock_offset_ms,
                ntp_offset_ms,
            ),
{
    adjust_now_ms(now_ms(), cfg, ntp_offset_ms)
}

// ------------------------------------------------------------------- durations

/// The duration a program is scheduled with: what OBS reported once the file had
/// played, falling back to the declared estimate.
pub open spec fn effective_ms(p: ProgramEntry) -> u64 {
    match p.detected_duration_ms {
        Some(d) => if d > 0 {
            d
        } else {
            p.declared_duration_ms
        },
        None => p.declared_duration_ms,
    }
}

/// The absolute end of a program.
pub open spec fn end_of(p: ProgramEntry) -> i64 {
    millis::clamp(p.start_at_ms + millis::signed(effective_ms(p)))
}

/// Whether `now` lies in the program's window, its start included, its end not.
pub open spec fn airs_at(p: ProgramEntry, now: i64) -> bool {
    p.start_at_ms <= now < end_of(p)
}

/// The duration we actually schedule against: whatever OBS reported once the file
/// really played, falling back to the operator's declared estimate.
///
/// The declared value is an estimate: keyed to it alone, a program is cut away
/// while the real file still has time left on it.
pub fn effective_duration_ms(p: &ProgramEntry) -> (r: u64)
    ensures
        r == effective_ms(*p),
{
    match p.detected_duration_ms {
        Some(d) => if d > 0 {
            d
        } else {
            p.declared_duration_ms
        },
        None => p.declared_duration_ms,
    }
}

/// Absolute wall-clock end of `p`, from its effective duration.
pub fn end_at_ms(p: &ProgramEntry) -> (r: i64)
    ensures
        r == end_of(*p),
{
    sat_add(p.start_at_ms, to_signed(effective_duration_ms(p)))
}

/// Whether `now_ms` falls in `[start, end)` of `p`.
pub fn in_window(p: &ProgramEntry, now_ms: i64) -> (r: bool)
    ensures
        r == airs_at(*p, now_ms),
{
    now_ms >= p.start_at_ms && now_ms < end_at_ms(p)
}

// --------------------------------------------------------------------- queries

/// The programs that air at `now`.
pub open spec fn airing(now: i64) -> spec_fn(ProgramEntry) -> bool {
    |p: ProgramEntry| airs_at(p, now)
}

/// The programs that start strictly after `now`.
pub open spec fn upcoming(now: i64) -> spec_fn(ProgramEntry) -> bool {
    |p: ProgramEntry| p.start_at_ms > now
}

/// The programs called `id`.
pub open spec fn called(id: Seq<char>) -> spec_fn(ProgramEntry) -> bool {
    |p: ProgramEntry| p.id@ == id
}

/// Position of the first program that airs at `now`.
pub open spec fn current_at(items: Seq<ProgramEntry>, now: i64) -> Option<int> {
    seqs::first_index(items, airing(now))
}

/// Position of the first program that starts strictly after `now`.
pub open spec fn next_at(items: Seq<ProgramEntry>, now: i64) -> Option<int> {
    seqs::first_index(items, upcoming(now))
}

/// Position of the first program called `id`.
pub open spec fn position_of(items: Seq<ProgramEntry>, id: Seq<char>) -> Option<int> {
    seqs::first_index(items, called(id))
}

/// Position of the program that follows `id` in playlist order.
pub open spec fn after_at(items: Seq<ProgramEntry>, id: Seq<char>) -> Option<int> {
    match position_of(items, id) {
        Some(i) => if i + 1 < items.len() {
            Some(i + 1)
        } else {
            None
        },
        None => None,
    }
}

/// A position as a mathematical one.
pub open spec fn pos(o: Option<usize>) -> Option<int> {
    match o {
        Some(i) => Some(i as int),
        None => None,
    }
}

/// The entry at a position.
pub open spec fn entry_at(items: Seq<ProgramEntry>, at: Option<int>) -> Option<ProgramEntry> {
    match at {
        Some(i) => Some(items[i]),
        None => None,
    }
}

/// What an optional reference points at.
pub open spec fn target<T>(o: Option<&T>) -> Option<T> {
    match o {
        Some(p) => Some(*p),
        None => None,
    }
}

/// Position of the first program that airs at `now_ms`.
pub fn current_index(items: &Vec<ProgramEntry>, now_ms: i64) -> (r: Option<usize>)
    ensures
        pos(r) == current_at(items@, now_ms),
        r matches Some(i) ==> i < items@.len() && airs_at(items@[i as int], now_ms),
{
    let mut i: usize = 0;
    while i < items.len()
        invariant
            i <= items@.len(),
            forall|j: int| 0 <= j < i ==> !airing(now_ms)(#[trigger] items@[j]),
        decreases items@.len() - i,
    {
        if in_window(&items[i], now_ms) {
            proof {
                seqs::first_index_is(items@, airing(now_ms), i as int);
            }
            return Some(i);
        }
        i = i + 1;
    }
    proof {
        seqs::first_index_is(items@, airing(now_ms), items@.len() as int);
    }
    None
}

/// Position of the first program that starts strictly after `now_ms`.
pub fn next_index(items: &Vec<ProgramEntry>, now_ms: i64) -> (r: Option<usize>)
    ensures
        pos(r) == next_at(items@, now_ms),
        r matches Some(i) ==> i < items@.len() && items@[i as int].start_at_ms > now_ms,
{
    let mut i: usize = 0;
    while i < items.len()
        invariant
            i <= items@.len(),
            forall|j: int| 0 <= j < i ==> !upcoming(now_ms)(#[trigger] items@[j]),
        decreases items@.len() - i,
    {
        if items[i].start_at_ms > now_ms {
            proof {
                seqs::first_index_is(items@, upcoming(now_ms), i as int);
            }
            return Some(i);
        }
        i = i + 1;
    }
    proof {
        seqs::first_index_is(items@, upcoming(now_ms), items@.len() as int);
    }
    None
}

/// Position of the first program called `id`.
pub fn index_of(items: &Vec<ProgramEntry>, id: &str) -> (r: Option<usize>)
    ensures
        pos(r) == position_of(items@, id@),
        r matches Some(i) ==> i < items@.len() && items@[i as int].id@ == id@,
{
    let mut i: usize = 0;
    while i < items.len()
        invariant
            i <= items@.len(),
            forall|j: int| 0 <= j < i ==> !called(id@)(#[trigger] items@[j]),
        decreases items@.len() - i,
    {
        if text::same(items[i].id.as_str(), id) {
            proof {
                seqs::first_index_is(items@, called(id@), i as int);
            }
            return Some(i);
        }
        i = i + 1;
    }
    proof {
        seqs::first_index_is(items@, called(id@), items@.len() as int);
    }
    None
}

/// Position of the program that follows `id` in **playlist order**, if any.
///
/// Looking by time is the wrong tool for advancing a running schedule: when a
/// program's real duration drifts from its declared one, `now` has already moved
/// past the next row's start, and the row would be skipped.
pub fn program_after(items: &Vec<ProgramEntry>, id: &str) -> (r: Option<usize>)
    ensures
        pos(r) == after_at(items@, id@),
        r matches Some(i) ==> 0 < i < items@.len() && position_of(items@, id@) == Some(i - 1),
{
    match index_of(items, id) {
        Some(i) => if i < items.len() - 1 {
            Some(i + 1)
        } else {
            None
        },
        None => None,
    }
}

/// `now_ms` falls in `[start, end)`: the program that should currently be driving
/// the scene, or `None`.
pub fn current_program<'a>(cfg: &'a Config, now_ms: i64) -> (r: Option<&'a ProgramEntry>)
    ensures
        target(r) == entry_at(cfg.playlist.items@, current_at(cfg.playlist.items@, now_ms)),
{
    match current_index(&cfg.playlist.items, now_ms) {
        Some(i) => Some(&cfg.playlist.items[i]),
        None => None,
    }
}

/// Next program to switch to (strictly after `now_ms`). Returns `None` if there
/// are no more items past the current moment.
pub fn next_program<'a>(cfg: &'a Config, now_ms: i64) -> (r: Option<&'a ProgramEntry>)
    ensures
        target(r) == entry_at(cfg.playlist.items@, next_at(cfg.playlist.items@, now_ms)),
{
    match next_index(&cfg.playlist.items, now_ms) {
        Some(i) => Some(&cfg.playlist.items[i]),
        None => None,
    }
}

/// Whether `i` is the program whose window ends closest to `now` from the future (the
/// first of them in the playlist, where several end together).
pub open spec fn ends_soonest(items: Seq<ProgramEntry>, now: i64, i: int) -> bool {
    &&& 0 <= i < items.len()
    &&& end_of(items[i]) > now
    &&& forall|j: int|
        0 <= j < items.len() && end_of(#[trigger] items[j]) > now ==> end_of(items[i]) <= end_of(
            items[j],
        ) && (j < i ==> end_of(items[i]) < end_of(items[j]))
}

/// The program whose `[start, end)` window ends closest to `now_ms` from the future: the
/// next anchor for switch timing. `None` where every window is over.
pub fn next_within<'a>(cfg: &'a Config, now_ms: i64) -> (r: Option<&'a ProgramEntry>)
    ensures
        match r {
            Some(p) => exists|i: int|
                #[trigger] ends_soonest(cfg.playlist.items@, now_ms, i)
                    && *p == cfg.playlist.items@[i],
            None => forall|j: int|
                0 <= j < cfg.playlist.items@.len() ==> end_of(
                    #[trigger] cfg.playlist.items@[j],
                ) <= now_ms,
        },
{
    let items = &cfg.playlist.items;
    let mut best: Option<usize> = None;
    let mut i: usize = 0;
    while i < items.len()
        invariant
            i <= items@.len(),
            match best {
                Some(b) => b < i && ends_soonest(items@.take(i as int), now_ms, b as int),
                None => forall|j: int| 0 <= j < i ==> end_of(#[trigger] items@[j]) <= now_ms,
            },
        decreases items@.len() - i,
    {
        let ghost was = best;
        let end: i64 = end_at_ms(&items[i]);
        if end > now_ms {
            match best {
                Some(b) => {
                    if end < end_at_ms(&items[b]) {
                        best = Some(i);
                    }
                },
                None => {
                    best = Some(i);
                },
            }
        }
        proof {
            lemma_soonest_step(items@, now_ms, i as int, pos(was), pos(best));
        }
        i = i + 1;
    }
    assert(items@.take(items@.len() as int) =~= items@);
    match best {
        Some(b) => Some(&items[b]),
        None => None,
    }
}

proof fn lemma_soonest_step(
    items: Seq<ProgramEntry>,
    now: i64,
    i: int,
    was: Option<int>,
    best: Option<int>,
)
    requires
        0 <= i < items.len(),
        match was {
            Some(b) => b < i && ends_soonest(items.take(i), now, b),
            None => forall|j: int| 0 <= j < i ==> end_of(#[trigger] items[j]) <= now,
        },
        best == (if end_of(items[i]) > now && (was matches Some(b) ==> end_of(items[i]) < end_of(
            items[b],
        )) {
            Some(i)
        } else {
            was
        }),
    ensures
        best matches Some(b) ==> ends_soonest(items.take(i + 1), now, b),
{
    let seen = items.take(i);
    let more = items.take(i + 1);
    if best is Some {
        let b = best->0;
        assert forall|j: int| 0 <= j < more.len() && end_of(#[trigger] more[j]) > now implies {
            &&& end_of(more[b]) <= end_of(more[j])
            &&& (j < b ==> end_of(more[b]) < end_of(more[j]))
        } by {
            if j < i {
                assert(more[j] == items[j]);
                if was is Some {
                    assert(seen[j] == items[j]);
                    assert(seen[was->0] == items[was->0]);
                }
            }
        }
    }
}

/// Whether the rows are in time order: each has a window, and none runs into the
/// next.
pub open spec fn in_time_order(items: Seq<ProgramEntry>) -> bool {
    &&& forall|i: int|
        0 <= i < items.len() ==> (#[trigger] items[i]).start_at_ms < end_of(items[i])
    &&& forall|i: int, j: int|
        0 <= i < j < items.len() ==> end_of(#[trigger] items[i]) <= (
        #[trigger] items[j]).start_at_ms
}

/// On a schedule in time order the anchor is the program on air, and between programs the
/// next one to start.
pub proof fn the_anchor_is_on_air_or_next(items: Seq<ProgramEntry>, now: i64, i: int)
    requires
        in_time_order(items),
        ends_soonest(items, now, i),
    ensures
        match current_at(items, now) {
            Some(on) => i == on,
            None => next_at(items, now) == Some(i),
        },
{
    seqs::first_index_means(items, airing(now));
    seqs::first_index_means(items, upcoming(now));
    match current_at(items, now) {
        Some(on) => {
            assert(airing(now)(items[on]));
            if i < on {
                assert(end_of(items[i]) <= items[on].start_at_ms);
            } else if on < i {
                assert(end_of(items[on]) <= items[i].start_at_ms);
            }
        },
        None => {
            assert(!airing(now)(items[i]));
            assert(upcoming(now)(items[i]));
            let n = next_at(items, now)->0;
            if n < i {
                assert(end_of(items[n]) <= items[i].start_at_ms);
            }
        },
    }
}

/// On a schedule in time order at most one program airs at a time.
pub proof fn one_program_at_a_time(items: Seq<ProgramEntry>, now: i64, i: int)
    requires
        in_time_order(items),
        0 <= i < items.len(),
        airs_at(items[i], now),
    ensures
        current_at(items, now) == Some(i),
{
    assert forall|j: int| 0 <= j < i implies !airing(now)(#[trigger] items[j]) by {
        assert(end_of(items[j]) <= items[i].start_at_ms);
    }
    seqs::first_index_is(items, airing(now), i);
}

/// The next program is the earliest of those still to come, on a schedule in time
/// order.
pub proof fn next_program_is_earliest(items: Seq<ProgramEntry>, now: i64, j: int)
    requires
        in_time_order(items),
        0 <= j < items.len(),
        items[j].start_at_ms > now,
    ensures
        next_at(items, now) matches Some(i) && items[i].start_at_ms <= items[j].start_at_ms,
{
    seqs::first_index_means(items, upcoming(now));
    assert(upcoming(now)(items[j]));
    let i = next_at(items, now)->0;
    if i < j {
        assert(end_of(items[i]) <= items[j].start_at_ms);
        assert(items[i].start_at_ms < end_of(items[i]));
    }
}

/// Whatever OBS measured wins over the estimate; a failed measurement (0) does
/// not.
pub proof fn detected_duration_wins(p: ProgramEntry)
    ensures
        p.detected_duration_ms matches Some(d) && d > 0 ==> effective_ms(p)
            == p.detected_duration_ms->0,
        p.detected_duration_ms is None || p.detected_duration_ms == Some(0u64) ==> effective_ms(p)
            == p.declared_duration_ms,
{
}

// ------------------------------------------------------------ moving the schedule

/// `p` with another start.
pub open spec fn starting(p: ProgramEntry, at: i64) -> ProgramEntry {
    ProgramEntry { start_at_ms: at, ..p }
}

/// The rows from `from` on, `delta` later.
pub open spec fn shifted(items: Seq<ProgramEntry>, from: int, delta: int) -> Seq<ProgramEntry> {
    Seq::new(
        items.len(),
        |i: int|
            if i < from {
                items[i]
            } else {
                starting(items[i], millis::clamp(items[i].start_at_ms + delta))
            },
    )
}

/// Push every entry from `from_index` onward by `delta_ms` (negative moves them
/// earlier).
///
/// This is what keeps a manual pause from leaving dead air: everything still to
/// come slides by exactly the time the operator held the transport.
pub fn shift_from(items: &mut Vec<ProgramEntry>, from_index: usize, delta_ms: i64)
    ensures
        final(items)@ == shifted(old(items)@, from_index as int, delta_ms as int),
{
    let ghost before = items@;
    let mut i: usize = from_index;
    while i < items.len()
        invariant
            from_index <= i,
            i <= before.len() || i == from_index,
            items@.len() == before.len(),
            forall|j: int| i <= j < before.len() ==> items@[j] == before[j],
            forall|j: int|
                0 <= j < i && j < before.len() ==> #[trigger] items@[j] == shifted(
                    before,
                    from_index as int,
                    delta_ms as int,
                )[j],
        decreases before.len() - i,
    {
        let at: i64 = sat_add(items[i].start_at_ms, delta_ms);
        items[i].start_at_ms = at;
        i = i + 1;
    }
    assert(items@ =~= shifted(before, from_index as int, delta_ms as int));
}

/// Where the row `i` lands when the rows from `from` on are laid back-to-back, the
/// first of them at `base`. A row without a duration takes one millisecond.
pub open spec fn laid_at(items: Seq<ProgramEntry>, from: int, base: i64, i: int) -> i64
    decreases i - from,
{
    if i <= from {
        base
    } else {
        millis::clamp(laid_at(items, from, base, i - 1) + slot_ms(items[i - 1]))
    }
}

/// How much of the schedule a row takes up.
pub open spec fn slot_ms(p: ProgramEntry) -> int {
    if effective_ms(p) == 0 {
        1
    } else {
        millis::signed(effective_ms(p))
    }
}

/// The rows from `from` on laid back-to-back, the first of them at `base`.
pub open spec fn laid_out(items: Seq<ProgramEntry>, from: int, base: i64) -> Seq<ProgramEntry> {
    Seq::new(
        items.len(),
        |i: int|
            if i < from {
                items[i]
            } else {
                starting(items[i], laid_at(items, from, base, i))
            },
    )
}

proof fn lemma_laid_at_ignores_starts(
    a: Seq<ProgramEntry>,
    b: Seq<ProgramEntry>,
    from: int,
    base: i64,
    i: int,
)
    requires
        0 <= from,
        i <= a.len(),
        i <= b.len(),
        forall|j: int| from <= j < i ==> effective_ms(#[trigger] a[j]) == effective_ms(b[j]),
    ensures
        laid_at(a, from, base, i) == laid_at(b, from, base, i),
    decreases i - from,
{
    if i > from {
        lemma_laid_at_ignores_starts(a, b, from, base, i - 1);
        assert(effective_ms(a[i - 1]) == effective_ms(b[i - 1]));
    }
}

/// Lays the entries from `from_index` onward back-to-back, the first one landing
/// on `base_ms`. Returns where the last of them ends.
pub fn lay_out(items: &mut Vec<ProgramEntry>, from_index: usize, base_ms: i64) -> (r: i64)
    ensures
        final(items)@ == laid_out(old(items)@, from_index as int, base_ms),
        r == laid_at(old(items)@, from_index as int, base_ms, old(items)@.len() as int),
{
    let ghost before = items@;
    let mut cursor: i64 = base_ms;
    let mut i: usize = from_index;
    while i < items.len()
        invariant
            from_index <= i,
            i <= before.len() || i == from_index,
            items@.len() == before.len(),
            cursor == laid_at(before, from_index as int, base_ms, i as int),
            forall|j: int| i <= j < before.len() ==> items@[j] == before[j],
            forall|j: int|
                0 <= j < i && j < before.len() ==> #[trigger] items@[j] == laid_out(
                    before,
                    from_index as int,
                    base_ms,
                )[j],
        decreases before.len() - i,
    {
        items[i].start_at_ms = cursor;
        let dur: u64 = effective_duration_ms(&items[i]);
        let slot: i64 = if dur == 0 {
            1
        } else {
            to_signed(dur)
        };
        cursor = sat_add(cursor, slot);
        i = i + 1;
    }
    assert(items@ =~= laid_out(before, from_index as int, base_ms));
    cursor
}

/// Lay entries out back-to-back from `from_index` onward, the first one landing on
/// `base_ms`.
///
/// Used after a manual skip: the rest of the day closes up behind the cut, so the
/// discarded program leaves no hole in the schedule.
pub fn resequence_from(items: &mut Vec<ProgramEntry>, from_index: usize, base_ms: i64)
    ensures
        final(items)@ == laid_out(old(items)@, from_index as int, base_ms),
{
    let _end: i64 = lay_out(items, from_index, base_ms);
}

/// Rows laid back-to-back leave no gap and do not overlap: each starts when the
/// one before it ends.
pub proof fn laid_out_leaves_no_gap(items: Seq<ProgramEntry>, from: int, base: i64, i: int)
    requires
        0 <= from < i < items.len(),
        effective_ms(items[i - 1]) > 0,
    ensures
        laid_out(items, from, base)[i].start_at_ms == end_of(laid_out(items, from, base)[i - 1]),
{
}

/// Moving a part of the schedule keeps the distances within it, as long as no
/// start leaves the range of the clock.
pub proof fn shifting_keeps_distances(
    items: Seq<ProgramEntry>,
    from: int,
    delta: int,
    i: int,
    j: int,
)
    requires
        0 <= from <= i < items.len(),
        from <= j < items.len(),
        i64::MIN <= items[i].start_at_ms + delta <= i64::MAX,
        i64::MIN <= items[j].start_at_ms + delta <= i64::MAX,
    ensures
        shifted(items, from, delta)[i].start_at_ms - shifted(items, from, delta)[j].start_at_ms
            == items[i].start_at_ms - items[j].start_at_ms,
{
}

/// Moving the schedule and moving it back restores it, as long as no start leaves
/// the range of the clock.
pub proof fn shifting_back_restores(items: Seq<ProgramEntry>, from: int, delta: int)
    requires
        forall|i: int|
            0 <= from <= i < items.len() ==> i64::MIN <= (#[trigger] items[i]).start_at_ms + delta
                <= i64::MAX,
        0 <= from,
    ensures
        shifted(shifted(items, from, delta), from, -delta) == items,
{
    let s = shifted(shifted(items, from, delta), from, -delta);
    assert forall|i: int| 0 <= i < items.len() implies s[i] == items[i] by {}
    assert(s =~= items);
}

/// Laying the same rows out again at the same place changes nothing.
pub proof fn laying_out_settles(items: Seq<ProgramEntry>, from: int, base: i64)
    requires
        0 <= from,
    ensures
        laid_out(laid_out(items, from, base), from, base) == laid_out(items, from, base),
{
    let once = laid_out(items, from, base);
    let twice = laid_out(once, from, base);
    assert forall|i: int| 0 <= i < items.len() implies twice[i] == once[i] by {
        lemma_laid_at_ignores_starts(items, once, from, base, i);
    }
    assert(twice =~= once);
}

// --------------------------------------------------------------------- bumpers

/// The bumpers of the program `id` whose trigger point lies at or before `offset`
/// ms into it.
pub open spec fn bumper_reached(id: Seq<char>, offset: int) -> spec_fn(BumperEntry) -> bool {
    |b: BumperEntry| b.target_program_id@ == id && b.at_into_program_ms <= offset
}

/// The bumper that should fire inside `p` at or before the moment
/// `program_offset_ms` into it: the first of the program's bumpers whose trigger
/// point has been reached.
pub fn bumper_for<'a>(
    bumpers: &'a Vec<BumperEntry>,
    p: &ProgramEntry,
    program_offset_ms: i64,
) -> (r: Option<&'a BumperEntry>)
    ensures
        target(r) == (match seqs::first_index(
            bumpers@,
            bumper_reached(p.id@, program_offset_ms as int),
        ) {
            Some(i) => Some(bumpers@[i]),
            None => None,
        }),
{
    let ghost due = bumper_reached(p.id@, program_offset_ms as int);
    let mut i: usize = 0;
    while i < bumpers.len()
        invariant
            i <= bumpers@.len(),
            due == bumper_reached(p.id@, program_offset_ms as int),
            forall|j: int| 0 <= j < i ==> !due(#[trigger] bumpers@[j]),
        decreases bumpers@.len() - i,
    {
        let b = &bumpers[i];
        if b.target_program_id == p.id && b.at_into_program_ms as i128 <= program_offset_ms as i128 {
            proof {
                seqs::first_index_is(bumpers@, due, i as int);
            }
            return Some(b);
        }
        i = i + 1;
    }
    proof {
        seqs::first_index_is(bumpers@, due, bumpers@.len() as int);
    }
    None
}

// ------------------------------------------------------------------ validation

/// A message about the row number `n`.
pub open spec fn row_message(n: int, what: Seq<char>) -> Seq<char> {
    "第 "@ + text::decimal(n as nat) + what
}

fn row_error(n: usize, what: &str) -> (r: String)
    ensures
        r@ == row_message(n as int, what@),
{
    let mut s = "第 ".to_string();
    s.append(fmt_u64(n as u64).as_str());
    s.append(what);
    s
}

/// What is wrong with a row itself: a blank name, a blank path, no duration, or a
/// start before that of the row above it.
pub open spec fn row_errors(items: Seq<ProgramEntry>, i: int) -> Seq<Seq<char>> {
    let p = items[i];
    let none = Seq::<Seq<char>>::empty();
    (if text::is_blank(p.name@) {
        none.push(row_message(i + 1, " 条: 名称不能为空"@))
    } else {
        none
    }) + (if text::is_blank(p.file_path@) {
        none.push(row_message(i + 1, " 条: 文件路径不能为空"@))
    } else {
        none
    }) + (if p.declared_duration_ms == 0 {
        none.push(row_message(i + 1, " 条: 时长必须 > 0"@))
    } else {
        none
    }) + (if i > 0 && p.start_at_ms < items[i - 1].start_at_ms {
        none.push(row_message(i + 1, " 条: 起始时间早于前一条，请按时间顺序编排"@))
    } else {
        none
    })
}

/// What is wrong with one bumper of the program `p`: a trigger point past the end
/// of the program, or content of the wrong kind.
pub open spec fn bumper_errors(p: ProgramEntry, b: BumperEntry) -> Seq<Seq<char>> {
    let none = Seq::<Seq<char>>::empty();
    if b.target_program_id@ != p.id@ {
        none
    } else {
        (if b.at_into_program_ms >= p.declared_duration_ms {
            none.push(
                "节目 '"@ + p.name@ + "' 上的插播触发点 '"@ + b.content.name@
                    + "' 超出节目时长"@,
            )
        } else {
            none
        }) + (if b.content.kind == ProgramKind::Primary {
            none.push(
                "插播 '"@ + b.content.name@
                    + "' 类型不能是 Primary（只能是 Interstitial / Standalone）"@,
            )
        } else {
            none
        })
    }
}

/// What is wrong with the first `n` bumpers, as far as they belong to `p`.
pub open spec fn all_bumper_errors(
    p: ProgramEntry,
    bumpers: Seq<BumperEntry>,
    n: nat,
) -> Seq<Seq<char>>
    decreases n,
{
    if n == 0 {
        Seq::empty()
    } else {
        all_bumper_errors(p, bumpers, (n - 1) as nat) + bumper_errors(p, bumpers[n - 1])
    }
}

/// What is wrong with the first `n` rows, each followed by its bumpers.
pub open spec fn all_row_errors(
    items: Seq<ProgramEntry>,
    bumpers: Seq<BumperEntry>,
    n: nat,
) -> Seq<Seq<char>>
    decreases n,
{
    if n == 0 {
        Seq::empty()
    } else {
        all_row_errors(items, bumpers, (n - 1) as nat) + row_errors(items, n - 1)
            + all_bumper_errors(items[n - 1], bumpers, bumpers.len())
    }
}

/// All that is wrong with a schedule.
pub open spec fn schedule_errors(
    items: Seq<ProgramEntry>,
    bumpers: Seq<BumperEntry>,
) -> Seq<Seq<char>> {
    if items.len() == 0 {
        seq!["节目表为空，请至少添加一条节目"@]
    } else {
        all_row_errors(items, bumpers, items.len())
    }
}

/// The messages as sequences of characters.
pub open spec fn messages(v: Seq<String>) -> Seq<Seq<char>> {
    v.map_values(|s: String| s@)
}

fn report(errs: &mut Vec<String>, msg: String)
    ensures
        messages(final(errs)@) == messages(old(errs)@).push(msg@),
{
    errs.push(msg);
    assert(messages(errs@) =~= messages(old(errs)@).push(msg@));
}

fn report_row(errs: &mut Vec<String>, items: &Vec<ProgramEntry>, i: usize)
    requires
        i < items@.len(),
    ensures
        messages(final(errs)@) == messages(old(errs)@) + row_errors(items@, i as int),
{
    let p = &items[i];
    assert(i < items.len());
    let n: usize = i + 1;
    let ghost m0 = messages(errs@);
    if blank(p.name.as_str()) {
        report(errs, row_error(n, " 条: 名称不能为空"));
    }
    if blank(p.file_path.as_str()) {
        report(errs, row_error(n, " 条: 文件路径不能为空"));
    }
    if p.declared_duration_ms == 0 {
        report(errs, row_error(n, " 条: 时长必须 > 0"));
    }
    if i > 0 && p.start_at_ms < items[i - 1].start_at_ms {
        report(errs, row_error(n, " 条: 起始时间早于前一条，请按时间顺序编排"));
    }
    assert(messages(errs@) =~= m0 + row_errors(items@, i as int));
}

fn report_bumper(errs: &mut Vec<String>, p: &ProgramEntry, b: &BumperEntry)
    ensures
        messages(final(errs)@) == messages(old(errs)@) + bumper_errors(*p, *b),
{
    let ghost m0 = messages(errs@);
    if b.target_program_id == p.id {
        if b.at_into_program_ms >= p.declared_duration_ms {
            let mut msg = "节目 '".to_string();
            msg.append(p.name.as_str());
            msg.append("' 上的插播触发点 '");
            msg.append(b.content.name.as_str());
            msg.append("' 超出节目时长");
            report(errs, msg);
        }
        if b.content.kind == ProgramKind::Primary {
            let mut msg = "插播 '".to_string();
            msg.append(b.content.name.as_str());
            msg.append("' 类型不能是 Primary（只能是 Interstitial / Standalone）");
            report(errs, msg);
        }
    }
    assert(messages(errs@) =~= m0 + bumper_errors(*p, *b));
}

/// Validate a schedule end-to-end. Used by the admin UI on save.
pub fn validate(cfg: &Config) -> (r: Vec<String>)
    ensures
        messages(r@) == schedule_errors(cfg.playlist.items@, cfg.playlist.bumpers@),
{
    let items = &cfg.playlist.items;
    let bumpers = &cfg.playlist.bumpers;
    let mut errs: Vec<String> = Vec::new();
    assert(messages(errs@) =~= Seq::<Seq<char>>::empty());
    if items.len() == 0 {
        report(&mut errs, "节目表为空，请至少添加一条节目".to_string());
        assert(messages(errs@) =~= schedule_errors(items@, bumpers@));
        return errs;
    }
    let mut i: usize = 0;
    while i < items.len()
        invariant
            i <= items@.len(),
            messages(errs@) == all_row_errors(items@, bumpers@, i as nat),
        decreases items@.len() - i,
    {
        report_row(&mut errs, items, i);
        let ghost upto = messages(errs@);
        let mut k: usize = 0;
        assert(upto + all_bumper_errors(items@[i as int], bumpers@, 0) =~= upto);
        while k < bumpers.len()
            invariant
                i < items@.len(),
                k <= bumpers@.len(),
                messages(errs@) == upto + all_bumper_errors(items@[i as int], bumpers@, k as nat),
            decreases bumpers@.len() - k,
        {
            report_bumper(&mut errs, &items[i], &bumpers[k]);
            k = k + 1;
            assert(messages(errs@) =~= upto + all_bumper_errors(
                items@[i as int],
                bumpers@,
                k as nat,
            ));
        }
        i = i + 1;
    }
    errs
}

/// Whether a schedule holds sane values: at least one row; each with a name, a
/// path and a duration, none before the row above it; and each bumper of a row
/// inside it and of the right kind.
pub open spec fn is_sane(items: Seq<ProgramEntry>, bumpers: Seq<BumperEntry>) -> bool {
    &&& items.len() > 0
    &&& forall|i: int| 0 <= i < items.len() ==> row_is_sane(items, i)
    &&& forall|i: int, k: int|
        0 <= i < items.len() && 0 <= k < bumpers.len() && #[trigger] bumpers[k].target_program_id@
            == #[trigger] items[i].id@ ==> bumpers[k].at_into_program_ms
            < items[i].declared_duration_ms && bumpers[k].content.kind != ProgramKind::Primary
}

/// Whether the row `i` holds sane values.
pub open spec fn row_is_sane(items: Seq<ProgramEntry>, i: int) -> bool {
    &&& !text::is_blank(items[i].name@)
    &&& !text::is_blank(items[i].file_path@)
    &&& items[i].declared_duration_ms > 0
    &&& i > 0 ==> items[i - 1].start_at_ms <= items[i].start_at_ms
}

proof fn lemma_bumper_errors_none(p: ProgramEntry, bumpers: Seq<BumperEntry>, n: nat)
    requires
        n <= bumpers.len(),
    ensures
        all_bumper_errors(p, bumpers, n).len() == 0 <==> forall|k: int|
            0 <= k < n && #[trigger] bumpers[k].target_program_id@ == p.id@
                ==> bumpers[k].at_into_program_ms < p.declared_duration_ms
                && bumpers[k].content.kind != ProgramKind::Primary,
    decreases n,
{
    if n > 0 {
        lemma_bumper_errors_none(p, bumpers, (n - 1) as nat);
        let b = bumpers[n - 1];
        assert(bumper_errors(p, b).len() == 0 <==> (b.target_program_id@ == p.id@
            ==> b.at_into_program_ms < p.declared_duration_ms && b.content.kind
            != ProgramKind::Primary));
    }
}

proof fn lemma_row_errors_none(items: Seq<ProgramEntry>, bumpers: Seq<BumperEntry>, n: nat)
    requires
        n <= items.len(),
    ensures
        all_row_errors(items, bumpers, n).len() == 0 <==> forall|i: int|
            0 <= i < n ==> row_is_sane(items, i) && all_bumper_errors(
                #[trigger] items[i],
                bumpers,
                bumpers.len(),
            ).len() == 0,
    decreases n,
{
    if n > 0 {
        lemma_row_errors_none(items, bumpers, (n - 1) as nat);
        assert(row_errors(items, n - 1).len() == 0 <==> row_is_sane(items, n - 1));
    }
}

/// A schedule draws no complaint exactly when it is sane.
pub proof fn no_complaint_means_sane(items: Seq<ProgramEntry>, bumpers: Seq<BumperEntry>)
    ensures
        schedule_errors(items, bumpers).len() == 0 <==> is_sane(items, bumpers),
{
    lemma_row_errors_none(items, bumpers, items.len());
    assert forall|i: int| 0 <= i < items.len() implies (all_bumper_errors(
        #[trigger] items[i],
        bumpers,
        bumpers.len(),
    ).len() == 0 <==> forall|k: int|
        0 <= k < bumpers.len() && #[trigger] bumpers[k].target_program_id@ == items[i].id@
            ==> bumpers[k].at_into_program_ms < items[i].declared_duration_ms
            && bumpers[k].content.kind != ProgramKind::Primary) by {
        lemma_bumper_errors_none(items[i], bumpers, bumpers.len());
    }
    if is_sane(items, bumpers) {
        assert forall|i: int| 0 <= i < items.len() implies row_is_sane(items, i)
            && all_bumper_errors(#[trigger] items[i], bumpers, bumpers.len()).len() == 0 by {}
    }
    if schedule_errors(items, bumpers).len() == 0 {
        assert forall|i: int| 0 <= i < items.len() implies row_is_sane(items, i) by {
            let p = items[i];
        }
    }
}

// ---------------------------------------------------------------------- display

/// The magnitude of a signed number.
pub open spec fn magnitude(ms: i64) -> nat {
    if ms < 0 {
        (-ms) as nat
    } else {
        ms as nat
    }
}

/// `HH:MM:SS.mmm`, with a minus sign in front of a negative time.
pub open spec fn ms_text(ms: i64) -> Seq<char> {
    let a = magnitude(ms);
    (if ms < 0 {
        seq!['-']
    } else {
        seq![]
    }) + text::padded(a / 3_600_000, 2) + seq![':'] + text::padded((a / 60_000) % 60, 2) + seq![':']
        + text::padded((a / 1000) % 60, 2) + seq!['.'] + text::padded(a % 1000, 3)
}

/// Display helper: ms -> `HH:MM:SS.mmm`.
pub fn fmt_ms(ms: i64) -> (r: String)
    ensures
        r@ == ms_text(ms),
{
    let mut out = String::new();
    let abs: u64 = if ms < 0 {
        out.push('-');
        (-(ms as i128)) as u64
    } else {
        ms as u64
    };
    out.append(fmt_padded(abs / 3_600_000, 2).as_str());
    out.push(':');
    out.append(fmt_padded((abs / 60_000) % 60, 2).as_str());
    out.push(':');
    out.append(fmt_padded((abs / 1000) % 60, 2).as_str());
    out.push('.');
    out.append(fmt_padded(abs % 1000, 3).as_str());
    assert(out@ =~= ms_text(ms));
    out
}

/// The moment that is shown for `ms`: the epoch where the calendar does not hold it.
pub open spec fn shown_moment(ms: i64) -> i64 {
    if clock::FIRST_MS <= ms <= clock::LAST_MS {
        ms
    } else {
        0
    }
}

/// Epoch ms -> ISO 8601 text at a place that is `offset_secs` ahead of UTC. A moment that
/// the calendar does not hold is shown as the epoch.
pub fn fmt_iso_at(ms: i64, offset_secs: i32) -> (r: String)
    requires
        -clock::DAY_SECS < offset_secs < clock::DAY_SECS,
    ensures
        Some(r@) == clock::date_text(
            shown_moment(ms),
            offset_secs,
            clock::ISO_PATTERN@,
        ),
{
    let shown: i64 = if clock::FIRST_MS <= ms && ms <= clock::LAST_MS {
        ms
    } else {
        0
    };
    match format_date(shown, offset_secs, clock::ISO_PATTERN) {
        Some(s) => s,
        None => String::new(),
    }
}

/// Display helper: epoch ms -> ISO 8601 text in the local zone of this machine, the zone's
/// offset behind it. A moment that the calendar does not hold is shown as the epoch.
pub fn fmt_iso_local(ms: i64) -> (r: String)
    ensures
        exists|offset_secs: i32|
            -clock::DAY_SECS < offset_secs < clock::DAY_SECS && Some(r@)
                == #[trigger] clock::date_text(
            shown_moment(ms),
            offset_secs,
            clock::ISO_PATTERN@,
        ),
{
    let shown: i64 = if clock::FIRST_MS <= ms && ms <= clock::LAST_MS {
        ms
    } else {
        0
    };
    let offset_secs: i32 = local_offset_secs(shown);
    fmt_iso_at(ms, offset_secs)
}

} // verus!
