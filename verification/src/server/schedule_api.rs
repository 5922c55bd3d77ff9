//! The endpoints for the playlist and the scheduler. Everything that changes anything
//! asks for the token first; a refused request changes nothing.

use vstd::prelude::*;

use super::{header_text, ok_answer, require_token, Refusal};
use crate::config::{BumperEntry, Config, ProgramEntry, ProgramKind};
use crate::json::{text_array, Json, JsonNumber, JsonView, ObjectBuilder};
use crate::millis::sat_add;
use crate::playlist::{index_of, lay_out};
use crate::seqs::stable_sort;
use crate::text::{blank, same};
#[allow(unused_imports)]
use crate::{config, json, millis, playlist, seqs, server, text};

verus! {

/// A row to add, or to put in the place of the one with its id.
#[derive(Debug)]
pub struct UpsertItem {
    pub id: String,
    pub name: String,
    pub file_path: String,
    pub start_at_ms: i64,
    pub declared_duration_ms: u64,
    pub detected_duration_ms: Option<u64>,
    pub kind: ProgramKind,
    pub notes: Option<String>,
}

/// The row to take out.
#[derive(Debug)]
pub struct DeleteItem {
    pub id: String,
}

/// Arm or disarm.
#[derive(Debug, Clone, Copy)]
pub struct EnableScheduler {
    pub enabled: bool,
}

/// Paths to look for.
#[derive(Debug)]
pub struct StatPayload {
    pub paths: Vec<String>,
}

/// A new order for the rows.
#[derive(Debug)]
pub struct ReorderPayload {
    /// Program ids in the order they should air. Rows that are not named keep their
    /// order among themselves, at the end.
    pub ids: Vec<String>,
    /// Absolute start (epoch ms) for the first row. Left out, the start of the row that
    /// is first now is kept.
    pub base_start_ms: Option<i64>,
    /// Start the whole list from now instead.
    pub from_now: bool,
}

/// Whether a request with this header may change the configuration.
pub open spec fn may_change(cfg: Config, token: Option<&str>) -> bool {
    server::admitted(text::opt_text(cfg.bootstrap_token), header_text(token))
}

/// Whether two configurations are the same but for their playlists.
pub open spec fn same_but_playlist(a: Config, b: Config) -> bool {
    &&& same_but_schedule(a, b)
    &&& a.scheduler == b.scheduler
}

/// Whether two configurations are the same but for their playlists and the settings of
/// the scheduler.
pub open spec fn same_but_schedule(a: Config, b: Config) -> bool {
    &&& a.obs_ws == b.obs_ws
    &&& a.target_input == b.target_input
    &&& a.bootstrap_token == b.bootstrap_token
    &&& a.bootstrapped == b.bootstrapped
    &&& a.time_sync == b.time_sync
    &&& a.clock == b.clock
}

// ---------------------------------------------------------------------- upsert

/// The row that an item stands for.
pub open spec fn entry_of(item: UpsertItem) -> ProgramEntry {
    ProgramEntry {
        id: item.id,
        name: item.name,
        file_path: item.file_path,
        start_at_ms: item.start_at_ms,
        declared_duration_ms: item.declared_duration_ms,
        detected_duration_ms: item.detected_duration_ms,
        kind: item.kind,
        notes: item.notes,
    }
}

/// The rows with `entry` in the place of the one with its id, or at the end.
pub open spec fn with_entry(items: Seq<ProgramEntry>, entry: ProgramEntry) -> Seq<ProgramEntry> {
    match playlist::position_of(items, entry.id@) {
        Some(i) => items.update(i, entry),
        None => items.push(entry),
    }
}

/// When a row starts.
pub open spec fn start_of() -> spec_fn(ProgramEntry) -> int {
    |p: ProgramEntry| p.start_at_ms as int
}

/// Adds a row, or replaces the one with its id, and puts the rows in the order of
/// their starts; rows that start together keep their order.
pub fn upsert_item(cfg: &mut Config, token: Option<&str>, item: UpsertItem) -> (r: Result<
    Json,
    Refusal,
>)
    ensures
        match r {
            Ok(j) => {
                &&& may_change(*old(cfg), token)
                &&& j@ == server::ok_view(seq![("id"@, JsonView::Text(item.id@))])
                &&& seqs::sorted_stably(
                    with_entry(old(cfg).playlist.items@, entry_of(item)),
                    final(cfg).playlist.items@,
                    start_of(),
                )
                &&& final(cfg).playlist.bumpers == old(cfg).playlist.bumpers
                &&& same_but_playlist(*old(cfg), *final(cfg))
            },
            Err(e) => {
                &&& !may_change(*old(cfg), token)
                &&& server::is_unauthorized(e)
                &&& *final(cfg) == *old(cfg)
            },
        },
{
    if let Err(e) = require_token(&cfg.bootstrap_token, token) {
        return Err(e);
    }
    let answer = ok_answer().with_text("id", item.id.as_str());
    assert(answer@ =~= seq![("ok"@, JsonView::Bool(true))] + seq![
        ("id"@, JsonView::Text(item.id@)),
    ]);
    let entry = ProgramEntry {
        id: item.id,
        name: item.name,
        file_path: item.file_path,
        start_at_ms: item.start_at_ms,
        declared_duration_ms: item.declared_duration_ms,
        detected_duration_ms: item.detected_duration_ms,
        kind: item.kind,
        notes: item.notes,
    };
    let mut items: Vec<ProgramEntry> = Vec::new();
    std::mem::swap(&mut cfg.playlist.items, &mut items);
    match index_of(&items, entry.id.as_str()) {
        Some(i) => {
            items[i] = entry;
        },
        None => items.push(entry),
    }
    let mut keys: Vec<i128> = Vec::new();
    let mut i: usize = 0;
    while i < items.len()
        invariant
            i <= items@.len(),
            keys@.len() == i,
            forall|j: int| 0 <= j < i ==> keys@[j] == start_of()(#[trigger] items@[j]),
        decreases items@.len() - i,
    {
        keys.push(items[i].start_at_ms as i128);
        i = i + 1;
    }
    cfg.playlist.items = stable_sort(items, &keys);
    Ok(answer.build())
}

/// Once a row was added, the rows are in the order of their starts.
pub proof fn upserted_rows_are_in_order(
    before: Seq<ProgramEntry>,
    after: Seq<ProgramEntry>,
    i: int,
    j: int,
)
    requires
        seqs::sorted_stably(before, after, start_of()),
        0 <= i <= j < after.len(),
    ensures
        after[i].start_at_ms <= after[j].start_at_ms,
{
    assert(start_of()(after[i]) <= start_of()(after[j]));
}

// ---------------------------------------------------------------------- delete

/// The rows that stay when the one called `id` goes.
pub open spec fn other_than(id: Seq<char>) -> spec_fn(ProgramEntry) -> bool {
    |p: ProgramEntry| p.id@ != id
}

/// The bumpers that stay: neither aimed at `id` nor made of it.
pub open spec fn unrelated_to(id: Seq<char>) -> spec_fn(BumperEntry) -> bool {
    |b: BumperEntry| b.target_program_id@ != id && b.content.id@ != id
}

fn keep_others(items: Vec<ProgramEntry>, id: &str) -> (r: Vec<ProgramEntry>)
    ensures
        r@ == items@.filter(other_than(id@)),
{
    let ghost src = items@;
    let mut rest = items;
    let mut out: Vec<ProgramEntry> = Vec::new();
    let ghost mut n: int = 0;
    proof {
        assert(src.take(0) =~= Seq::<ProgramEntry>::empty());
        assert(src.skip(0) =~= src);
        reveal(Seq::filter);
    }
    while rest.len() > 0
        invariant
            0 <= n <= src.len(),
            rest@ == src.skip(n),
            out@ == src.take(n).filter(other_than(id@)),
        decreases rest@.len(),
    {
        let e = rest.remove(0);
        proof {
            assert(e == src[n]);
            assert(src.take(n + 1).drop_last() =~= src.take(n));
            reveal(Seq::filter);
            assert(rest@ =~= src.skip(n + 1));
            n = n + 1;
        }
        if !same(e.id.as_str(), id) {
            out.push(e);
        }
    }
    proof {
        assert(src.take(n) =~= src);
    }
    out
}

fn keep_unrelated(bumpers: Vec<BumperEntry>, id: &str) -> (r: Vec<BumperEntry>)
    ensures
        r@ == bumpers@.filter(unrelated_to(id@)),
{
    let ghost src = bumpers@;
    let mut rest = bumpers;
    let mut out: Vec<BumperEntry> = Vec::new();
    let ghost mut n: int = 0;
    proof {
        assert(src.take(0) =~= Seq::<BumperEntry>::empty());
        assert(src.skip(0) =~= src);
        reveal(Seq::filter);
    }
    while rest.len() > 0
        invariant
            0 <= n <= src.len(),
            rest@ == src.skip(n),
            out@ == src.take(n).filter(unrelated_to(id@)),
        decreases rest@.len(),
    {
        let b = rest.remove(0);
        proof {
            assert(b == src[n]);
            assert(src.take(n + 1).drop_last() =~= src.take(n));
            reveal(Seq::filter);
            assert(rest@ =~= src.skip(n + 1));
            n = n + 1;
        }
        if !same(b.target_program_id.as_str(), id) && !same(b.content.id.as_str(), id) {
            out.push(b);
        }
    }
    proof {
        assert(src.take(n) =~= src);
    }
    out
}

/// Takes a row out, and the bumpers that have to do with it.
pub fn delete_item(cfg: &mut Config, token: Option<&str>, payload: &DeleteItem) -> (r: Result<
    Json,
    Refusal,
>)
    ensures
        match r {
            Ok(j) => {
                &&& may_change(*old(cfg), token)
                &&& j@ == server::ok_view(Seq::empty())
                &&& final(cfg).playlist.items@ == old(cfg).playlist.items@.filter(
                    other_than(payload.id@),
                )
                &&& final(cfg).playlist.bumpers@ == old(cfg).playlist.bumpers@.filter(
                    unrelated_to(payload.id@),
                )
                &&& same_but_playlist(*old(cfg), *final(cfg))
            },
            Err(e) => {
                &&& !may_change(*old(cfg), token)
                &&& server::is_unauthorized(e)
                &&& *final(cfg) == *old(cfg)
            },
        },
{
    if let Err(e) = require_token(&cfg.bootstrap_token, token) {
        return Err(e);
    }
    let mut items: Vec<ProgramEntry> = Vec::new();
    std::mem::swap(&mut cfg.playlist.items, &mut items);
    let mut bumpers: Vec<BumperEntry> = Vec::new();
    std::mem::swap(&mut cfg.playlist.bumpers, &mut bumpers);
    cfg.playlist.items = keep_others(items, payload.id.as_str());
    cfg.playlist.bumpers = keep_unrelated(bumpers, payload.id.as_str());
    let b = ok_answer();
    assert(b@ =~= seq![("ok"@, JsonView::Bool(true))] + Seq::empty());
    Ok(b.build())
}

/// A row that was deleted is gone.
pub proof fn deleted_rows_are_gone(items: Seq<ProgramEntry>, id: Seq<char>)
    ensures
        playlist::position_of(items.filter(other_than(id)), id) is None,
{
    let kept = items.filter(other_than(id));
    broadcast use Seq::lemma_filter_pred;

    seqs::first_index_means(kept, playlist::called(id));
    assert forall|i: int| 0 <= i < kept.len() implies (#[trigger] kept[i]).id@ != id by {
        assert(other_than(id)(kept[i]));
    }
    match playlist::position_of(kept, id) {
        Some(i) => {
            assert(playlist::called(id)(kept[i]));
        },
        None => {},
    }
}

// --------------------------------------------------------------------- reorder

/// The place of `id` in the new order: where it is named last, or behind all that are
/// named.
pub open spec fn rank_in(ids: Seq<String>, id: Seq<char>) -> int
    decreases ids.len(),
{
    rank_below(ids, id, ids.len() as int)
}

/// The last place below `n` at which `id` is named, or the length.
pub open spec fn rank_below(ids: Seq<String>, id: Seq<char>, n: int) -> int
    decreases n,
{
    if n <= 0 {
        ids.len() as int
    } else if ids[n - 1]@ == id {
        n - 1
    } else {
        rank_below(ids, id, n - 1)
    }
}

/// The place of a row in the new order.
pub open spec fn place_in(ids: Seq<String>) -> spec_fn(ProgramEntry) -> int {
    |p: ProgramEntry| rank_in(ids, p.id@)
}

fn place(ids: &Vec<String>, id: &str) -> (r: usize)
    ensures
        r == rank_in(ids@, id@),
{
    let mut n: usize = ids.len();
    while n > 0
        invariant
            n <= ids@.len(),
            rank_in(ids@, id@) == rank_below(ids@, id@, n as int),
        decreases n,
    {
        if same(ids[n - 1].as_str(), id) {
            return n - 1;
        }
        n = n - 1;
    }
    ids.len()
}

/// Puts the rows in a new order; rows that are not named come last, in their old order.
pub fn order_by_ids(items: Vec<ProgramEntry>, ids: &Vec<String>) -> (r: Vec<ProgramEntry>)
    ensures
        seqs::sorted_stably(items@, r@, place_in(ids@)),
{
    let mut keys: Vec<i128> = Vec::new();
    let mut i: usize = 0;
    while i < items.len()
        invariant
            i <= items@.len(),
            keys@.len() == i,
            forall|j: int| 0 <= j < i ==> keys@[j] == place_in(ids@)(#[trigger] items@[j]),
        decreases items@.len() - i,
    {
        keys.push(place(ids, items[i].id.as_str()) as i128);
        i = i + 1;
    }
    stable_sort(items, &keys)
}

/// How long after now a list that starts from now begins.
pub const START_DELAY_MS: i64 = 1_000;

/// Where the first row of a new order lands, given the rows in their old order.
pub open spec fn reorder_base(before: Seq<ProgramEntry>, p: ReorderPayload, now: i64) -> i64 {
    if p.from_now {
        millis::clamp(now + START_DELAY_MS)
    } else {
        match p.base_start_ms {
            Some(b) => b,
            None => if before.len() > 0 {
                before[0].start_at_ms
            } else {
                now
            },
        }
    }
}

/// Whether `after` is `before` in the new order, laid back to back from `base` on.
pub open spec fn relaid(
    before: Seq<ProgramEntry>,
    after: Seq<ProgramEntry>,
    ids: Seq<String>,
    ordered: Seq<ProgramEntry>,
    base: i64,
) -> bool {
    &&& seqs::sorted_stably(before, ordered, place_in(ids))
    &&& after == playlist::laid_out(ordered, 0, base)
}

/// Whether `after` and the answer are what a new order makes of `before`; `ordered` are
/// the rows in that order.
pub open spec fn reordered(
    before: Seq<ProgramEntry>,
    after: Seq<ProgramEntry>,
    p: ReorderPayload,
    now: i64,
    ordered: Seq<ProgramEntry>,
    answer: JsonView,
) -> bool {
    let base = reorder_base(before, p, now);
    let n = before.len() as int;
    &&& relaid(before, after, p.ids@, ordered, base)
    &&& answer == server::ok_view(
        seq![
            ("items"@, JsonView::Number(JsonNumber::Unsigned(n as u64))),
            (
                "ends_at_ms"@,
                JsonView::Number(json::signed_number(playlist::laid_at(ordered, 0, base, n))),
            ),
        ],
    )
}

/// Reorders the rows and lays them back to back, so that there are no gaps or overlaps.
pub fn reorder(
    cfg: &mut Config,
    token: Option<&str>,
    payload: &ReorderPayload,
    now_ms: i64,
) -> (r: Result<Json, Refusal>)
    ensures
        match r {
            Ok(j) => {
                &&& may_change(*old(cfg), token)
                &&& exists|ordered: Seq<ProgramEntry>| #[trigger]
                    reordered(
                        old(cfg).playlist.items@,
                        final(cfg).playlist.items@,
                        *payload,
                        now_ms,
                        ordered,
                        j@,
                    )
                &&& final(cfg).playlist.bumpers == old(cfg).playlist.bumpers
                &&& same_but_playlist(*old(cfg), *final(cfg))
            },
            Err(e) => {
                &&& !may_change(*old(cfg), token)
                &&& server::is_unauthorized(e)
                &&& *final(cfg) == *old(cfg)
            },
        },
{
    if let Err(e) = require_token(&cfg.bootstrap_token, token) {
        return Err(e);
    }
    let mut items: Vec<ProgramEntry> = Vec::new();
    std::mem::swap(&mut cfg.playlist.items, &mut items);
    let ghost before = items@;
    let base: i64 = if payload.from_now {
        sat_add(now_ms, START_DELAY_MS)
    } else {
        match payload.base_start_ms {
            Some(b) => b,
            None => if items.len() > 0 {
                items[0].start_at_ms
            } else {
                now_ms
            },
        }
    };
    let mut items = order_by_ids(items, &payload.ids);
    let ghost ordered = items@;
    proof {
        lemma_sorted_keeps_length(before, ordered);
    }
    let ends_at: i64 = lay_out(&mut items, 0, base);
    let count: u64 = items.len() as u64;
    cfg.playlist.items = items;
    let b = ok_answer().with_unsigned("items", count).with_signed("ends_at_ms", ends_at);
    assert(b@ =~= seq![("ok"@, JsonView::Bool(true))] + seq![
        ("items"@, JsonView::Number(JsonNumber::Unsigned(before.len() as u64))),
        ("ends_at_ms"@, JsonView::Number(json::signed_number(ends_at))),
    ]);
    assert(relaid(before, cfg.playlist.items@, payload.ids@, ordered, base));
    let answer = b.build();
    assert(reordered(before, cfg.playlist.items@, *payload, now_ms, ordered, answer@));
    Ok(answer)
}

proof fn lemma_sorted_keeps_length(before: Seq<ProgramEntry>, after: Seq<ProgramEntry>)
    requires
        before.to_multiset() == after.to_multiset(),
    ensures
        before.len() == after.len(),
{
    broadcast use vstd::seq_lib::group_to_multiset_ensures;

    assert(before.to_multiset().len() == before.len());
    assert(after.to_multiset().len() == after.len());
}

/// Where the first row lands when the scheduler is started.
pub open spec fn start_base(p: ReorderPayload, now: i64) -> i64 {
    match p.base_start_ms {
        Some(b) => if b > 0 {
            b
        } else {
            millis::clamp(now + START_DELAY_MS)
        },
        None => millis::clamp(now + START_DELAY_MS),
    }
}

/// Arms the scheduler and lays the list out from the moment the operator really
/// pressed the button.
pub fn start_scheduler(
    cfg: &mut Config,
    token: Option<&str>,
    payload: &ReorderPayload,
    now_ms: i64,
) -> (r: Result<Json, Refusal>)
    ensures
        match r {
            Ok(j) => {
                &&& may_change(*old(cfg), token)
                &&& j@ == server::ok_view(seq![("enabled"@, JsonView::Bool(true))])
                &&& exists|ordered: Seq<ProgramEntry>| #[trigger]
                    relaid(
                        old(cfg).playlist.items@,
                        final(cfg).playlist.items@,
                        payload.ids@,
                        ordered,
                        start_base(*payload, now_ms),
                    )
                &&& final(cfg).playlist.bumpers == old(cfg).playlist.bumpers
                &&& final(cfg).scheduler == (config::SchedulerConfig {
                    enabled: true,
                    ..old(cfg).scheduler
                })
                &&& same_but_schedule(*old(cfg), *final(cfg))
            },
            Err(e) => {
                &&& !may_change(*old(cfg), token)
                &&& server::is_unauthorized(e)
                &&& *final(cfg) == *old(cfg)
            },
        },
{
    if let Err(e) = require_token(&cfg.bootstrap_token, token) {
        return Err(e);
    }
    let mut items: Vec<ProgramEntry> = Vec::new();
    std::mem::swap(&mut cfg.playlist.items, &mut items);
    let ghost before = items@;
    let mut items = order_by_ids(items, &payload.ids);
    let ghost ordered = items@;
    let planned: i64 = match payload.base_start_ms {
        Some(b) => b,
        None => 0,
    };
    let base: i64 = if planned > 0 {
        planned
    } else {
        sat_add(now_ms, START_DELAY_MS)
    };
    let _ends_at: i64 = lay_out(&mut items, 0, base);
    cfg.playlist.items = items;
    cfg.scheduler.enabled = true;
    let b = ok_answer().with_bool("enabled", true);
    assert(b@ =~= seq![("ok"@, JsonView::Bool(true))] + seq![
        ("enabled"@, JsonView::Bool(true)),
    ]);
    assert(relaid(before, cfg.playlist.items@, payload.ids@, ordered, base));
    assert(base == start_base(*payload, now_ms));
    Ok(b.build())
}

/// A row that is named comes before every row that is not.
pub proof fn named_rows_come_first(
    before: Seq<ProgramEntry>,
    after: Seq<ProgramEntry>,
    ids: Seq<String>,
    ordered: Seq<ProgramEntry>,
    base: i64,
    i: int,
    j: int,
)
    requires
        relaid(before, after, ids, ordered, base),
        0 <= i < after.len(),
        0 <= j < after.len(),
        rank_in(ids, after[i].id@) < ids.len(),
        rank_in(ids, after[j].id@) == ids.len(),
    ensures
        i < j,
{
    assert(after.len() == ordered.len());
    if j <= i {
        assert(place_in(ids)(ordered[j]) <= place_in(ids)(ordered[i]));
    }
}

/// A list that was laid out anew leaves no gap: each row starts where the one before
/// it ends.
pub proof fn relaid_rows_leave_no_gap(
    before: Seq<ProgramEntry>,
    after: Seq<ProgramEntry>,
    ids: Seq<String>,
    ordered: Seq<ProgramEntry>,
    base: i64,
    i: int,
)
    requires
        relaid(before, after, ids, ordered, base),
        0 < i < after.len(),
    ensures
        after[0].start_at_ms == base,
        after[i].start_at_ms == millis::clamp(
            after[i - 1].start_at_ms + playlist::slot_ms(after[i - 1]),
        ),
{
}

proof fn lemma_laid_apart(ordered: Seq<ProgramEntry>, base: i64, i: int, j: int)
    requires
        0 <= i < j < ordered.len(),
        forall|k: int| 0 <= k < ordered.len() ==> playlist::effective_ms(#[trigger] ordered[k]) > 0,
        forall|k: int|
            0 <= k < ordered.len() ==> 0 < millis::signed(
                playlist::effective_ms(#[trigger] ordered[k]),
            ) && playlist::laid_at(ordered, 0, base, k) + millis::signed(
                playlist::effective_ms(ordered[k]),
            ) <= i64::MAX,
    ensures
        playlist::laid_at(ordered, 0, base, i) + millis::signed(playlist::effective_ms(ordered[i]))
            <= playlist::laid_at(ordered, 0, base, j),
    decreases j - i,
{
    assert(playlist::effective_ms(ordered[j - 1]) > 0);
    assert(playlist::effective_ms(ordered[i]) > 0);
    if i < j - 1 {
        lemma_laid_apart(ordered, base, i, j - 1);
    }
}

/// A list that was laid out anew airs in its order, one row at a time, as long as every
/// row has a length and the last one ends within the range of the clock.
pub proof fn relaid_rows_air_in_order(
    before: Seq<ProgramEntry>,
    after: Seq<ProgramEntry>,
    ids: Seq<String>,
    ordered: Seq<ProgramEntry>,
    base: i64,
)
    requires
        relaid(before, after, ids, ordered, base),
        forall|k: int| 0 <= k < ordered.len() ==> playlist::effective_ms(#[trigger] ordered[k]) > 0,
        forall|k: int|
            0 <= k < ordered.len() ==> 0 < millis::signed(
                playlist::effective_ms(#[trigger] ordered[k]),
            ) && playlist::laid_at(ordered, 0, base, k) + millis::signed(
                playlist::effective_ms(ordered[k]),
            ) <= i64::MAX,
    ensures
        playlist::in_time_order(after),
{
    assert forall|i: int| 0 <= i < after.len() implies (#[trigger] after[i]).start_at_ms
        < playlist::end_of(after[i]) by {
        assert(playlist::effective_ms(ordered[i]) > 0);
    }
    assert forall|i: int, j: int| 0 <= i < j < after.len() implies playlist::end_of(
        #[trigger] after[i],
    ) <= (#[trigger] after[j]).start_at_ms by {
        assert(playlist::effective_ms(ordered[i]) > 0);
        lemma_laid_apart(ordered, base, i, j);
    }
}

// ---------------------------------------------------------------------- enable

/// Arms or disarms the scheduler.
pub fn enable_scheduler(cfg: &mut Config, token: Option<&str>, payload: EnableScheduler) -> (r:
    Result<Json, Refusal>)
    ensures
        match r {
            Ok(j) => {
                &&& may_change(*old(cfg), token)
                &&& j@ == server::ok_view(seq![("enabled"@, JsonView::Bool(payload.enabled))])
                &&& *final(cfg) == (Config {
                    scheduler: config::SchedulerConfig {
                        enabled: payload.enabled,
                        ..old(cfg).scheduler
                    },
                    ..*old(cfg)
                })
            },
            Err(e) => {
                &&& !may_change(*old(cfg), token)
                &&& server::is_unauthorized(e)
                &&& *final(cfg) == *old(cfg)
            },
        },
{
    if let Err(e) = require_token(&cfg.bootstrap_token, token) {
        return Err(e);
    }
    cfg.scheduler.enabled = payload.enabled;
    let b = ok_answer().with_bool("enabled", payload.enabled);
    assert(b@ =~= seq![("ok"@, JsonView::Bool(true))] + seq![
        ("enabled"@, JsonView::Bool(payload.enabled)),
    ]);
    Ok(b.build())
}

// ----------------------------------------------------------------------- files

/// The paths of which `found` says that they are there, or are not; a blank path never
/// is.
pub open spec fn paths_where(
    paths: Seq<String>,
    found: Seq<bool>,
    wanted: bool,
) -> Seq<Seq<char>>
    decreases paths.len(),
{
    if paths.len() == 0 || found.len() == 0 {
        Seq::empty()
    } else {
        let rest = paths_where(paths.drop_last(), found.drop_last(), wanted);
        let there = !text::is_blank(paths.last()@) && found.last();
        if there == wanted {
            rest.push(paths.last()@)
        } else {
            rest
        }
    }
}

/// Texts as a list.
pub open spec fn list_view(s: Seq<Seq<char>>) -> JsonView {
    JsonView::Array(Seq::new(s.len(), |i: int| JsonView::Text(s[i])))
}

/// The texts of some strings.
pub open spec fn views(v: Seq<String>) -> Seq<Seq<char>> {
    Seq::new(v.len(), |i: int| v[i]@)
}

/// Sorts paths into those that exist and those that do not, knowing of each whether it
/// was found.
pub fn stat_paths(payload: StatPayload, found: &Vec<bool>) -> (r: Json)
    requires
        found@.len() == payload.paths@.len(),
    ensures
        r@ == JsonView::Object(
            seq![
                ("existing"@, list_view(paths_where(payload.paths@, found@, true))),
                ("missing"@, list_view(paths_where(payload.paths@, found@, false))),
            ],
        ),
{
    let paths = &payload.paths;
    let mut existing: Vec<String> = Vec::new();
    let mut missing: Vec<String> = Vec::new();
    let mut i: usize = 0;
    proof {
        assert(views(existing@) =~= paths_where(paths@.take(0), found@.take(0), true));
        assert(views(missing@) =~= paths_where(paths@.take(0), found@.take(0), false));
    }
    while i < paths.len()
        invariant
            i <= paths@.len(),
            found@.len() == paths@.len(),
            views(existing@) == paths_where(paths@.take(i as int), found@.take(i as int), true),
            views(missing@) == paths_where(paths@.take(i as int), found@.take(i as int), false),
        decreases paths@.len() - i,
    {
        let ghost e0 = existing@;
        let ghost m0 = missing@;
        proof {
            assert(paths@.take(i + 1).drop_last() =~= paths@.take(i as int));
            assert(found@.take(i + 1).drop_last() =~= found@.take(i as int));
        }
        if !blank(paths[i].as_str()) && found[i] {
            existing.push(paths[i].clone());
            assert(views(existing@) =~= views(e0).push(paths@[i as int]@));
        } else {
            missing.push(paths[i].clone());
            assert(views(missing@) =~= views(m0).push(paths@[i as int]@));
        }
        i = i + 1;
    }
    proof {
        assert(paths@.take(i as int) =~= paths@);
        assert(found@.take(i as int) =~= found@);
        lemma_list_of_views(existing@);
        lemma_list_of_views(missing@);
    }
    let b = ObjectBuilder::new().with("existing", text_array(&existing)).with(
        "missing",
        text_array(&missing),
    );
    assert(b@ =~= seq![
        ("existing"@, list_view(paths_where(payload.paths@, found@, true))),
        ("missing"@, list_view(paths_where(payload.paths@, found@, false))),
    ]);
    b.build()
}

proof fn lemma_list_of_views(v: Seq<String>)
    ensures
        json::texts_view(v) == list_view(views(v)),
{
    assert(json::texts_view(v)->Array_0 =~= list_view(views(v))->Array_0);
}

/// The ids of the rows whose file is blank or was not found.
pub open spec fn broken_rows(items: Seq<ProgramEntry>, found: Seq<bool>) -> Seq<Seq<char>>
    decreases items.len(),
{
    if items.len() == 0 || found.len() == 0 {
        Seq::empty()
    } else {
        let rest = broken_rows(items.drop_last(), found.drop_last());
        if text::is_blank(items.last().file_path@) || !found.last() {
            rest.push(items.last().id@)
        } else {
            rest
        }
    }
}

/// Reports the rows whose file is missing or blank, so that they can be flagged before
/// they are to air. `found` says of each row whether its file was found.
pub fn verify(cfg: &Config, found: &Vec<bool>) -> (r: Json)
    requires
        found@.len() == cfg.playlist.items@.len(),
    ensures
        r@ == JsonView::Object(
            seq![("missing"@, list_view(broken_rows(cfg.playlist.items@, found@)))],
        ),
{
    let items = &cfg.playlist.items;
    let mut missing: Vec<String> = Vec::new();
    let mut i: usize = 0;
    assert(views(missing@) =~= broken_rows(items@.take(0), found@.take(0)));
    while i < items.len()
        invariant
            i <= items@.len(),
            found@.len() == items@.len(),
            views(missing@) == broken_rows(items@.take(i as int), found@.take(i as int)),
        decreases items@.len() - i,
    {
        let ghost m0 = missing@;
        proof {
            assert(items@.take(i + 1).drop_last() =~= items@.take(i as int));
            assert(found@.take(i + 1).drop_last() =~= found@.take(i as int));
        }
        if blank(items[i].file_path.as_str()) || !found[i] {
            missing.push(items[i].id.clone());
            assert(views(missing@) =~= views(m0).push(items@[i as int].id@));
        }
        i = i + 1;
    }
    proof {
        assert(items@.take(i as int) =~= items@);
        assert(found@.take(i as int) =~= found@);
        lemma_list_of_views(missing@);
    }
    let b = ObjectBuilder::new().with("missing", text_array(&missing));
    assert(b@ =~= seq![("missing"@, list_view(broken_rows(items@, found@)))]);
    b.build()
}

// ------------------------------------------------------------------- snapshots

fn count(n: usize) -> (r: Json)
    ensures
        r@ == JsonView::Number(JsonNumber::Unsigned(n as u64)),
{
    Json::Number(JsonNumber::Unsigned(n as u64))
}

/// How many there are.
pub open spec fn count_view(n: nat) -> JsonView {
    JsonView::Number(JsonNumber::Unsigned(n as u64))
}

/// The canonical status: what the admin page reads. `status` is the runtime state,
/// `scheduler_cfg` and `obs_ws` are the settings.
pub fn snapshot_value(cfg: &Config, status: Json, scheduler_cfg: Json, obs_ws: Json) -> (r: Json)
    ensures
        r@ == JsonView::Object(
            seq![
                ("kind"@, JsonView::Text("snapshot"@)),
                ("scheduler"@, status@),
                ("scheduler_cfg"@, scheduler_cfg@),
                ("obs_ws"@, obs_ws@),
                ("target_input"@, JsonView::Text(cfg.target_input@)),
                ("bootstrap_token"@, json::opt_text_view(cfg.bootstrap_token)),
                ("playlist_size"@, count_view(cfg.playlist.items@.len())),
                ("bumpers_size"@, count_view(cfg.playlist.bumpers@.len())),
            ],
        ),
{
    let b = ObjectBuilder::new().with_text("kind", "snapshot").with("scheduler", status).with(
        "scheduler_cfg",
        scheduler_cfg,
    ).with("obs_ws", obs_ws).with_text("target_input", cfg.target_input.as_str()).with_opt_text(
        "bootstrap_token",
        &cfg.bootstrap_token,
    ).with("playlist_size", count(cfg.playlist.items.len())).with(
        "bumpers_size",
        count(cfg.playlist.bumpers.len()),
    );
    assert(b@ =~= seq![
        ("kind"@, JsonView::Text("snapshot"@)),
        ("scheduler"@, status@),
        ("scheduler_cfg"@, scheduler_cfg@),
        ("obs_ws"@, obs_ws@),
        ("target_input"@, JsonView::Text(cfg.target_input@)),
        ("bootstrap_token"@, json::opt_text_view(cfg.bootstrap_token)),
        ("playlist_size"@, count_view(cfg.playlist.items@.len())),
        ("bumpers_size"@, count_view(cfg.playlist.bumpers@.len())),
    ]);
    b.build()
}

/// What is pushed to the open pages. They replace all they know by it, so that it has
/// to carry the token.
pub fn push_value(cfg: &Config, status: Json) -> (r: Json)
    ensures
        r@ == JsonView::Object(
            seq![
                ("kind"@, JsonView::Text("snapshot"@)),
                ("scheduler"@, status@),
                ("playlist_size"@, count_view(cfg.playlist.items@.len())),
                ("bumpers_size"@, count_view(cfg.playlist.bumpers@.len())),
                ("target_input"@, JsonView::Text(cfg.target_input@)),
                ("bootstrap_token"@, json::opt_text_view(cfg.bootstrap_token)),
            ],
        ),
{
    let b = ObjectBuilder::new().with_text("kind", "snapshot").with("scheduler", status).with(
        "playlist_size",
        count(cfg.playlist.items.len()),
    ).with("bumpers_size", count(cfg.playlist.bumpers.len())).with_text(
        "target_input",
        cfg.target_input.as_str(),
    ).with_opt_text("bootstrap_token", &cfg.bootstrap_token);
    assert(b@ =~= seq![
        ("kind"@, JsonView::Text("snapshot"@)),
        ("scheduler"@, status@),
        ("playlist_size"@, count_view(cfg.playlist.items@.len())),
        ("bumpers_size"@, count_view(cfg.playlist.bumpers@.len())),
        ("target_input"@, JsonView::Text(cfg.target_input@)),
        ("bootstrap_token"@, json::opt_text_view(cfg.bootstrap_token)),
    ]);
    b.build()
}

/// The inputs that OBS has, so that the media source can be picked by its name; `None`
/// stands for no connection.
pub fn obs_inputs(reply: Option<Result<Json, String>>) -> (r: Json)
    ensures
        r@ == (match reply {
            Some(Ok(list)) => JsonView::Object(seq![("inputs"@, list@)]),
            Some(Err(e)) => no_inputs_view(e@),
            None => no_inputs_view("OBS 未连接"@),
        }),
{
    match reply {
        Some(Ok(list)) => {
            let b = ObjectBuilder::new().with("inputs", list);
            assert(b@ =~= seq![("inputs"@, list@)]);
            b.build()
        },
        Some(Err(e)) => no_inputs(e.as_str()),
        None => no_inputs("OBS 未连接"),
    }
}

/// No inputs, and why.
pub open spec fn no_inputs_view(error: Seq<char>) -> JsonView {
    JsonView::Object(
        seq![("inputs"@, JsonView::Array(Seq::empty())), ("error"@, JsonView::Text(error))],
    )
}

fn no_inputs(error: &str) -> (r: Json)
    ensures
        r@ == no_inputs_view(error@),
{
    let none: Vec<String> = Vec::new();
    let list = text_array(&none);
    assert(list@->Array_0 =~= Seq::empty());
    let b = ObjectBuilder::new().with("inputs", list).with_text("error", error);
    assert(b@ =~= no_inputs_view(error@)->Object_0);
    b.build()
}

/// How often a snapshot is pushed where nothing happens.
pub const PUSH_EVERY_MS: u64 = 250;

} // verus!
