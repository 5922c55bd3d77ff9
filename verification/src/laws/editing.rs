//! Changing the playlist: adding, deleting and reordering rows, and starting the list.

use vstd::prelude::*;

#[allow(unused_imports)]
use crate::config::{BumperEntry, Config, ProgramEntry};
#[allow(unused_imports)]
use crate::json::{JsonNumber, JsonView};
#[allow(unused_imports)]
use crate::server::schedule_api::{ReorderPayload, UpsertItem};
#[allow(unused_imports)]
use crate::server::{self, schedule_api};
#[allow(unused_imports)]
use crate::{laws, order, playlist, seqs, text};

verus! {

// ----------------------------------------------------------------------- reorder

/// Whether `id` is named last at the place `x` of the new order.
pub open spec fn named_at(ids: Seq<String>, id: Seq<char>, x: int) -> bool {
    &&& 0 <= x < ids.len()
    &&& ids[x]@ == id
    &&& forall|y: int| x < y < ids.len() ==> (#[trigger] ids[y])@ != id
}

/// Whether `id` is not named in the new order.
pub open spec fn unnamed(ids: Seq<String>, id: Seq<char>) -> bool {
    forall|y: int| 0 <= y < ids.len() ==> (#[trigger] ids[y])@ != id
}

proof fn lemma_rank_below(ids: Seq<String>, id: Seq<char>, n: int, x: int)
    requires
        0 <= n <= ids.len(),
    ensures
        0 <= x < n && ids[x]@ == id && (forall|y: int| x < y < n ==> (#[trigger] ids[y])@ != id)
            ==> schedule_api::rank_below(ids, id, n) == x,
        (forall|y: int| 0 <= y < n ==> (#[trigger] ids[y])@ != id) ==> schedule_api::rank_below(
            ids,
            id,
            n,
        ) == ids.len(),
        0 <= schedule_api::rank_below(ids, id, n) <= ids.len(),
        schedule_api::rank_below(ids, id, n) < ids.len() ==> schedule_api::rank_below(ids, id, n)
            < n && ids[schedule_api::rank_below(ids, id, n)]@ == id,
    decreases n,
{
    if n > 0 {
        if ids[n - 1]@ != id {
            lemma_rank_below(ids, id, n - 1, x);
        } else if 0 <= x < n - 1 {
            assert(!(forall|y: int| x < y < n ==> (#[trigger] ids[y])@ != id)) by {
                assert(ids[n - 1]@ == id);
            }
        }
    }
}

/// The place of a name in a new order is where it is named last; a name that is not named
/// comes behind all that are.
pub proof fn places_are_where_names_stand(ids: Seq<String>, id: Seq<char>, x: int)
    ensures
        named_at(ids, id, x) <==> 0 <= x < ids.len() && schedule_api::rank_in(ids, id) == x,
        unnamed(ids, id) <==> schedule_api::rank_in(ids, id) == ids.len(),
        0 <= schedule_api::rank_in(ids, id) <= ids.len(),
{
    lemma_rank_below(ids, id, ids.len() as int, x);
    lemma_last_named(ids, id, ids.len() as int);
}

proof fn lemma_last_named(ids: Seq<String>, id: Seq<char>, n: int)
    requires
        0 <= n <= ids.len(),
    ensures
        forall|y: int|
            0 <= y < n && (schedule_api::rank_below(ids, id, n) < y || schedule_api::rank_below(
                ids,
                id,
                n,
            ) == ids.len()) ==> (#[trigger] ids[y])@ != id,
    decreases n,
{
    if n > 0 && ids[n - 1]@ != id {
        lemma_last_named(ids, id, n - 1);
    }
}

/// A reordered list starts exactly where it was asked to, whatever the time is: at the start
/// that was named, be it past or to come; a second from now where it is to start from now;
/// and where nothing was asked, at the start that the first row had.
pub proof fn a_reorder_starts_where_it_was_asked_to(
    before: Seq<ProgramEntry>,
    after: Seq<ProgramEntry>,
    p: ReorderPayload,
    now: i64,
    ordered: Seq<ProgramEntry>,
    answer: JsonView,
    named: i64,
)
    requires
        schedule_api::reordered(before, after, p, now, ordered, answer),
        before.len() > 0,
    ensures
        after.len() == before.len(),
        !p.from_now && p.base_start_ms == Some(named) ==> after[0].start_at_ms == named,
        !p.from_now && p.base_start_ms is None ==> after[0].start_at_ms == before[0].start_at_ms,
        p.from_now ==> after[0].start_at_ms == laws::held_sum(now as int, 1_000),
{
    lemma_same_length(before, ordered);
}

proof fn lemma_same_length(before: Seq<ProgramEntry>, after: Seq<ProgramEntry>)
    requires
        before.to_multiset() == after.to_multiset(),
    ensures
        before.len() == after.len(),
{
    broadcast use vstd::seq_lib::group_to_multiset_ensures;

    assert(before.to_multiset().len() == before.len());
    assert(after.to_multiset().len() == after.len());
}

/// A started list begins at the start that was planned, or a second from now where none was.
pub proof fn a_started_list_begins_as_planned(
    before: Seq<ProgramEntry>,
    after: Seq<ProgramEntry>,
    p: ReorderPayload,
    now: i64,
    ordered: Seq<ProgramEntry>,
    planned: i64,
)
    requires
        schedule_api::relaid(
            before,
            after,
            p.ids@,
            ordered,
            schedule_api::start_base(p, now),
        ),
        before.len() > 0,
    ensures
        after.len() == before.len(),
        p.base_start_ms == Some(planned) && planned > 0 ==> after[0].start_at_ms == planned,
        p.base_start_ms == Some(planned) && planned <= 0 ==> after[0].start_at_ms
            == laws::held_sum(now as int, 1_000),
        p.base_start_ms is None ==> after[0].start_at_ms == laws::held_sum(now as int, 1_000),
{
    lemma_same_length(before, ordered);
}

/// In a new order each row starts where the one above it ends, nothing of a row but its
/// start is changed, and the rows are those that there were, each as often as before.
pub proof fn a_new_order_keeps_the_rows(
    before: Seq<ProgramEntry>,
    after: Seq<ProgramEntry>,
    ids: Seq<String>,
    ordered: Seq<ProgramEntry>,
    base: i64,
    i: int,
    slot: int,
)
    requires
        schedule_api::relaid(before, after, ids, ordered, base),
        0 <= i < after.len(),
    ensures
        after.len() == before.len(),
        after[0].start_at_ms == base,
        i > 0 && laws::rows::takes_up(after[i - 1], slot) && slot <= i64::MAX
            ==> after[i].start_at_ms == laws::held_sum(after[i - 1].start_at_ms as int, slot),
        after[i] == (ProgramEntry { start_at_ms: after[i].start_at_ms, ..ordered[i] }),
        before.contains(ordered[i]),
        ordered.to_multiset() == before.to_multiset(),
{
    broadcast use vstd::seq_lib::group_to_multiset_ensures;

    lemma_same_length(before, ordered);
    if i > 0 {
        laws::rows::rows_are_laid_back_to_back(ordered, 0, base, i, slot);
        if laws::rows::takes_up(after[i - 1], slot) {
            let len = choose|len: int| #[trigger]
                laws::runs(after[i - 1], len) && slot == (if len == 0 {
                    1
                } else {
                    len
                });
            assert(laws::runs(ordered[i - 1], len));
            assert(laws::rows::takes_up(ordered[i - 1], slot));
        }
    }
    assert(ordered.contains(ordered[i]));
    assert(ordered.to_multiset().count(ordered[i]) > 0);
}

/// The rows air in the order in which they are named: the one named earlier comes first, and
/// those that are not named come last.
pub proof fn rows_come_in_the_named_order(
    before: Seq<ProgramEntry>,
    after: Seq<ProgramEntry>,
    ids: Seq<String>,
    ordered: Seq<ProgramEntry>,
    base: i64,
    i: int,
    j: int,
    x: int,
    y: int,
)
    requires
        schedule_api::relaid(before, after, ids, ordered, base),
        0 <= i < after.len(),
        0 <= j < after.len(),
        named_at(ids, after[i].id@, x),
        unnamed(ids, after[j].id@) || named_at(ids, after[j].id@, y) && x < y,
    ensures
        i < j,
{
    places_are_where_names_stand(ids, after[i].id@, x);
    places_are_where_names_stand(ids, after[j].id@, y);
    assert(after.len() == ordered.len());
    if j <= i {
        assert(schedule_api::place_in(ids)(ordered[j]) <= schedule_api::place_in(ids)(ordered[i]));
    }
}

/// The rows that are not named keep their order among themselves.
pub proof fn unnamed_rows_keep_their_order(
    before: Seq<ProgramEntry>,
    after: Seq<ProgramEntry>,
    ids: Seq<String>,
    ordered: Seq<ProgramEntry>,
    base: i64,
)
    requires
        schedule_api::relaid(before, after, ids, ordered, base),
    ensures
        ordered.filter(|p: ProgramEntry| unnamed(ids, p.id@)) == before.filter(
            |p: ProgramEntry| unnamed(ids, p.id@),
        ),
{
    let f = |p: ProgramEntry| unnamed(ids, p.id@);
    let g = seqs::key_is(schedule_api::place_in(ids), ids.len() as int);
    assert forall|p: ProgramEntry| #[trigger] f(p) == g(p) by {
        places_are_where_names_stand(ids, p.id@, 0);
    }
    order::lemma_same_filter(ordered, f, g);
    order::lemma_same_filter(before, f, g);
    assert(ordered.filter(g) == before.filter(g));
}

/// The answer to a reorder counts the rows and says when the last of them ends.
pub proof fn a_reorder_says_when_the_list_ends(
    before: Seq<ProgramEntry>,
    after: Seq<ProgramEntry>,
    p: ReorderPayload,
    now: i64,
    ordered: Seq<ProgramEntry>,
    answer: JsonView,
    slot: int,
)
    requires
        schedule_api::reordered(before, after, p, now, ordered, answer),
        before.len() > 0,
        before.len() <= u64::MAX,
        laws::rows::takes_up(after.last(), slot),
        slot <= i64::MAX,
    ensures
        ({
            let ends = laws::held_sum(after.last().start_at_ms as int, slot);
            answer == JsonView::Object(
                seq![
                    ("ok"@, JsonView::Bool(true)),
                    ("items"@, JsonView::Number(JsonNumber::Unsigned(after.len() as u64))),
                    (
                        "ends_at_ms"@,
                        JsonView::Number(
                            if ends < 0 {
                                JsonNumber::Negative(ends as i64)
                            } else {
                                JsonNumber::Unsigned(ends as u64)
                            },
                        ),
                    ),
                ],
            )
        }),
{
    lemma_same_length(before, ordered);
    let base = schedule_api::reorder_base(before, p, now);
    let len = choose|len: int| #[trigger]
        laws::runs(after.last(), len) && slot == (if len == 0 {
            1
        } else {
            len
        });
    assert(laws::runs(ordered.last(), len));
    assert(laws::rows::takes_up(ordered.last(), slot));
    laws::rows::the_layout_ends_with_its_last_row(ordered, 0, base, slot);
    let ends = laws::held_sum(after.last().start_at_ms as int, slot);
    assert(answer->Object_0 =~= seq![
        ("ok"@, JsonView::Bool(true)),
        ("items"@, JsonView::Number(JsonNumber::Unsigned(after.len() as u64))),
        (
            "ends_at_ms"@,
            JsonView::Number(
                if ends < 0 {
                    JsonNumber::Negative(ends as i64)
                } else {
                    JsonNumber::Unsigned(ends as u64)
                },
            ),
        ),
    ]);
}

/// A reorder moves with its start: asked to begin later by some time, every row begins later
/// by that time, as long as none leaves the range of the clock.
pub proof fn a_reorder_moves_with_its_start(
    items: Seq<ProgramEntry>,
    base: i64,
    later: i64,
    i: int,
)
    requires
        0 <= i < items.len(),
        forall|k: int|
            0 <= k <= i ==> {
                &&& 0 < playlist::slot_ms(#[trigger] items[k])
                &&& playlist::laid_at(items, 0, base, k) + playlist::slot_ms(items[k]) <= i64::MAX
                &&& playlist::laid_at(items, 0, later, k) + playlist::slot_ms(items[k]) <= i64::MAX
            },
    ensures
        playlist::laid_out(items, 0, later)[i].start_at_ms - playlist::laid_out(
            items,
            0,
            base,
        )[i].start_at_ms == later - base,
    decreases i,
{
    if i > 0 {
        a_reorder_moves_with_its_start(items, base, later, i - 1);
        assert(0 < playlist::slot_ms(items[i - 1]));
    }
}

// ----------------------------------------------------------------- add and delete

/// A row that is added is among the rows as it was given, in the place of the one with its
/// name if there was one; every other row stays.
pub proof fn an_added_row_is_there(items: Seq<ProgramEntry>, entry: ProgramEntry, i: int)
    ensures
        laws::is_row(items, entry.id@, i) ==> {
            let rows = schedule_api::with_entry(items, entry);
            &&& rows.len() == items.len()
            &&& rows[i] == entry
            &&& forall|j: int| 0 <= j < items.len() && j != i ==> #[trigger] rows[j] == items[j]
        },
        laws::no_row(items, entry.id@) ==> schedule_api::with_entry(items, entry) == items.push(
            entry,
        ),
{
    laws::rows_are_found_by_name(items, entry.id@, i);
}

/// A row is made of what the request says of it.
pub proof fn a_row_is_what_was_asked_for(item: UpsertItem)
    ensures
        schedule_api::entry_of(item).id == item.id,
        schedule_api::entry_of(item).name == item.name,
        schedule_api::entry_of(item).file_path == item.file_path,
        schedule_api::entry_of(item).start_at_ms == item.start_at_ms,
        schedule_api::entry_of(item).declared_duration_ms == item.declared_duration_ms,
        schedule_api::entry_of(item).detected_duration_ms == item.detected_duration_ms,
        schedule_api::entry_of(item).kind == item.kind,
        schedule_api::entry_of(item).notes == item.notes,
{
}

/// Once a row was added the rows are those that there were and the new one, by their starts;
/// rows that start together keep their order.
pub proof fn added_rows_are_sorted_by_start(
    items: Seq<ProgramEntry>,
    after: Seq<ProgramEntry>,
    entry: ProgramEntry,
    i: int,
    j: int,
    start: i64,
)
    requires
        seqs::sorted_stably(
            schedule_api::with_entry(items, entry),
            after,
            schedule_api::start_of(),
        ),
        0 <= i <= j < after.len(),
    ensures
        after[i].start_at_ms <= after[j].start_at_ms,
        after.contains(entry),
        after.to_multiset() == schedule_api::with_entry(items, entry).to_multiset(),
        after.filter(|p: ProgramEntry| p.start_at_ms == start) == schedule_api::with_entry(
            items,
            entry,
        ).filter(|p: ProgramEntry| p.start_at_ms == start),
{
    broadcast use vstd::seq_lib::group_to_multiset_ensures;

    assert(schedule_api::start_of()(after[i]) <= schedule_api::start_of()(after[j]));
    let rows = schedule_api::with_entry(items, entry);
    seqs::first_index_means(items, playlist::called(entry.id@));
    assert(rows.contains(entry)) by {
        match playlist::position_of(items, entry.id@) {
            Some(at) => {
                assert(rows[at] == entry);
            },
            None => {
                assert(rows[items.len() as int] == entry);
            },
        }
    }
    assert(after.to_multiset().count(entry) > 0);
    let f = |p: ProgramEntry| p.start_at_ms == start;
    let g = seqs::key_is(schedule_api::start_of(), start as int);
    order::lemma_same_filter(after, f, g);
    order::lemma_same_filter(rows, f, g);
    assert(after.filter(g) == rows.filter(g));
}

/// Deleting takes out the rows of that name, and the bumpers in them or made of them, and
/// nothing else.
pub proof fn deleting_takes_out_what_was_named(
    items: Seq<ProgramEntry>,
    bumpers: Seq<BumperEntry>,
    id: Seq<char>,
    p: ProgramEntry,
    k: BumperEntry,
)
    ensures
        items.filter(schedule_api::other_than(id)).contains(p) <==> items.contains(p) && p.id@
            != id,
        bumpers.filter(schedule_api::unrelated_to(id)).contains(k) <==> bumpers.contains(k)
            && k.target_program_id@ != id && k.content.id@ != id,
{
    lemma_filter_contains(items, schedule_api::other_than(id), p);
    lemma_filter_contains(bumpers, schedule_api::unrelated_to(id), k);
}

proof fn lemma_filter_contains<T>(s: Seq<T>, f: spec_fn(T) -> bool, x: T)
    ensures
        s.filter(f).contains(x) <==> s.contains(x) && f(x),
    decreases s.len(),
{
    reveal(Seq::filter);
    if s.len() > 0 {
        let rest = s.drop_last();
        lemma_filter_contains(rest, f, x);
        assert(s.contains(x) <==> rest.contains(x) || x == s.last()) by {
            if s.contains(x) {
                let i = choose|i: int| 0 <= i < s.len() && s[i] == x;
                if i < rest.len() {
                    assert(rest[i] == x);
                }
            }
            if rest.contains(x) {
                let i = choose|i: int| 0 <= i < rest.len() && rest[i] == x;
                assert(s[i] == x);
            }
            if x == s.last() {
                assert(s[s.len() - 1] == x);
            }
        }
        let kept = rest.filter(f);
        if f(s.last()) {
            let all = s.filter(f);
            assert(all == kept.push(s.last()));
            assert(all.contains(x) <==> kept.contains(x) || x == s.last()) by {
                if all.contains(x) {
                    let i = choose|i: int| 0 <= i < all.len() && all[i] == x;
                    if i < kept.len() {
                        assert(kept[i] == x);
                    }
                }
                if kept.contains(x) {
                    let i = choose|i: int| 0 <= i < kept.len() && kept[i] == x;
                    assert(all[i] == x);
                }
                if x == s.last() {
                    assert(all[all.len() - 1] == x);
                }
            }
        }
    }
}

/// Only the token that was issued lets a request change the playlist; before one was, every
/// request may.
pub proof fn changes_need_the_token(cfg: Config, token: Option<&str>)
    ensures
        schedule_api::may_change(cfg, token) <==> match cfg.bootstrap_token {
            Some(t) => t@.len() == 0 || (token matches Some(brought) && brought@ == t@),
            None => true,
        },
{
}

// ------------------------------------------------------------------------- files

/// A path is reported as existing where it is not blank and was found, and as missing where
/// it is blank or was not; each path is reported once.
pub proof fn every_path_is_reported(paths: Seq<String>, found: Seq<bool>, path: String, seen: bool)
    requires
        paths.len() == found.len(),
    ensures
        ({
            let there = !text::is_blank(path@) && seen;
            let more = paths.push(path);
            let all = found.push(seen);
            &&& schedule_api::paths_where(more, all, there) == schedule_api::paths_where(
                paths,
                found,
                there,
            ).push(path@)
            &&& schedule_api::paths_where(more, all, !there) == schedule_api::paths_where(
                paths,
                found,
                !there,
            )
        }),
        schedule_api::paths_where(Seq::empty(), Seq::empty(), seen) == Seq::<Seq<char>>::empty(),
{
    assert(paths.push(path).drop_last() =~= paths);
    assert(found.push(seen).drop_last() =~= found);
}

/// A row is flagged where its file is blank or was not found, and only there.
pub proof fn every_broken_row_is_flagged(
    items: Seq<ProgramEntry>,
    found: Seq<bool>,
    p: ProgramEntry,
    seen: bool,
)
    requires
        items.len() == found.len(),
    ensures
        schedule_api::broken_rows(items.push(p), found.push(seen)) == (if seen && !text::is_blank(
            p.file_path@,
        ) {
            schedule_api::broken_rows(items, found)
        } else {
            schedule_api::broken_rows(items, found).push(p.id@)
        }),
        schedule_api::broken_rows(Seq::empty(), Seq::empty()) == Seq::<Seq<char>>::empty(),
{
    assert(items.push(p).drop_last() =~= items);
    assert(found.push(seen).drop_last() =~= found);
}

/// Paths and ids are listed as texts, each in its place, and counts as numbers.
pub proof fn lists_are_texts(s: Seq<Seq<char>>, v: Seq<String>, i: int, n: u64)
    ensures
        schedule_api::list_view(s) is Array,
        schedule_api::list_view(s)->Array_0.len() == s.len(),
        0 <= i < s.len() ==> schedule_api::list_view(s)->Array_0[i] == JsonView::Text(s[i]),
        schedule_api::views(v).len() == v.len(),
        0 <= i < v.len() ==> schedule_api::views(v)[i] == v[i]@,
        schedule_api::count_view(n as nat) == JsonView::Number(JsonNumber::Unsigned(n)),
{
}

/// Without inputs the list is empty, and why is said.
pub proof fn a_missing_list_says_why(error: Seq<char>)
    ensures
        schedule_api::no_inputs_view(error) == JsonView::Object(
            seq![
                ("inputs"@, JsonView::Array(Seq::empty())),
                ("error"@, JsonView::Text(error)),
            ],
        ),
{
}

/// A change of the playlist touches neither the link to OBS, the token, the clocks nor, but
/// for arming, the settings of the scheduler.
pub proof fn changes_stay_in_the_playlist(a: Config, b: Config)
    ensures
        schedule_api::same_but_playlist(a, b) <==> a.obs_ws == b.obs_ws && a.target_input
            == b.target_input && a.bootstrap_token == b.bootstrap_token && a.bootstrapped
            == b.bootstrapped && a.time_sync == b.time_sync && a.clock == b.clock && a.scheduler
            == b.scheduler,
        schedule_api::same_but_schedule(a, b) <==> a.obs_ws == b.obs_ws && a.target_input
            == b.target_input && a.bootstrap_token == b.bootstrap_token && a.bootstrapped
            == b.bootstrapped && a.time_sync == b.time_sync && a.clock == b.clock,
{
}

} // verus!
