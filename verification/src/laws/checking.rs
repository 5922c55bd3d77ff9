//! What the admin page is told: complaints about a schedule, and times as text.

use vstd::prelude::*;

#[allow(unused_imports)]
use crate::config::{BumperEntry, ProgramEntry, ProgramKind};
#[allow(unused_imports)]
use crate::{
    bridge, cut, interrupt, laws, ntp, obs_ws, playlist, run_loop, seqs, server, text, tick, watch,
};

verus! {

// --------------------------------------------------------------------- complaints

proof fn lemma_contains_left(a: Seq<Seq<char>>, b: Seq<Seq<char>>, m: Seq<char>)
    ensures
        (a + b).contains(m) <==> a.contains(m) || b.contains(m),
{
    let all = a + b;
    if a.contains(m) {
        let i = choose|i: int| 0 <= i < a.len() && a[i] == m;
        assert(all[i] == m);
    }
    if b.contains(m) {
        let i = choose|i: int| 0 <= i < b.len() && b[i] == m;
        assert(all[a.len() + i] == m);
    }
    if all.contains(m) {
        let i = choose|i: int| 0 <= i < all.len() && all[i] == m;
        if i < a.len() {
            assert(a[i] == m);
        } else {
            assert(b[i - a.len()] == m);
        }
    }
}

proof fn lemma_all_bumper_errors(p: ProgramEntry, bumpers: Seq<BumperEntry>, n: nat, k: int, m: Seq<char>)
    requires
        0 <= k < n <= bumpers.len(),
        playlist::bumper_errors(p, bumpers[k]).contains(m),
    ensures
        playlist::all_bumper_errors(p, bumpers, n).contains(m),
    decreases n,
{
    lemma_contains_left(
        playlist::all_bumper_errors(p, bumpers, (n - 1) as nat),
        playlist::bumper_errors(p, bumpers[n - 1]),
        m,
    );
    if k < n - 1 {
        lemma_all_bumper_errors(p, bumpers, (n - 1) as nat, k, m);
    }
}

proof fn lemma_all_row_errors(
    items: Seq<ProgramEntry>,
    bumpers: Seq<BumperEntry>,
    n: nat,
    i: int,
    m: Seq<char>,
)
    requires
        0 <= i < n <= items.len(),
        playlist::row_errors(items, i).contains(m) || playlist::all_bumper_errors(
            items[i],
            bumpers,
            bumpers.len(),
        ).contains(m),
    ensures
        playlist::all_row_errors(items, bumpers, n).contains(m),
    decreases n,
{
    let before = playlist::all_row_errors(items, bumpers, (n - 1) as nat);
    let own = playlist::row_errors(items, n - 1);
    let theirs = playlist::all_bumper_errors(items[n - 1], bumpers, bumpers.len());
    lemma_contains_left(before, own, m);
    lemma_contains_left(before + own, theirs, m);
    if i < n - 1 {
        lemma_all_row_errors(items, bumpers, (n - 1) as nat, i, m);
    }
}

/// Each thing that is wrong with a row is complained about, with the number of the row as the
/// operator counts them: a blank name, a blank path, no duration, a start before that of the
/// row above.
pub proof fn every_bad_row_is_complained_about(
    items: Seq<ProgramEntry>,
    bumpers: Seq<BumperEntry>,
    i: int,
)
    requires
        0 <= i < items.len(),
    ensures
        ({
            let said = playlist::schedule_errors(items, bumpers);
            let row = "第 "@ + text::decimal((i + 1) as nat);
            &&& text::is_blank(items[i].name@) ==> said.contains(
                row + " 条: 名称不能为空"@,
            )
            &&& text::is_blank(items[i].file_path@) ==> said.contains(
                row + " 条: 文件路径不能为空"@,
            )
            &&& items[i].declared_duration_ms == 0 ==> said.contains(
                row + " 条: 时长必须 > 0"@,
            )
            &&& i > 0 && items[i].start_at_ms < items[i - 1].start_at_ms ==> said.contains(
                row + " 条: 起始时间早于前一条，请按时间顺序编排"@,
            )
        }),
{
    let row = "第 "@ + text::decimal((i + 1) as nat);
    let none = Seq::<Seq<char>>::empty();
    let m1 = row + " 条: 名称不能为空"@;
    let m2 = row + " 条: 文件路径不能为空"@;
    let m3 = row + " 条: 时长必须 > 0"@;
    let m4 = row + " 条: 起始时间早于前一条，请按时间顺序编排"@;
    let e1 = if text::is_blank(items[i].name@) {
        none.push(m1)
    } else {
        none
    };
    let e2 = if text::is_blank(items[i].file_path@) {
        none.push(m2)
    } else {
        none
    };
    let e3 = if items[i].declared_duration_ms == 0 {
        none.push(m3)
    } else {
        none
    };
    let e4 = if i > 0 && items[i].start_at_ms < items[i - 1].start_at_ms {
        none.push(m4)
    } else {
        none
    };
    assert(playlist::row_errors(items, i) == e1 + e2 + e3 + e4);
    assert(none.push(m1)[0] == m1 && none.push(m2)[0] == m2 && none.push(m3)[0] == m3 && none.push(
        m4,
    )[0] == m4);
    let n = items.len();
    if text::is_blank(items[i].name@) {
        lemma_contains_left(e1, e2, m1);
        lemma_contains_left(e1 + e2, e3, m1);
        lemma_contains_left(e1 + e2 + e3, e4, m1);
        lemma_all_row_errors(items, bumpers, n, i, m1);
    }
    if text::is_blank(items[i].file_path@) {
        lemma_contains_left(e1, e2, m2);
        lemma_contains_left(e1 + e2, e3, m2);
        lemma_contains_left(e1 + e2 + e3, e4, m2);
        lemma_all_row_errors(items, bumpers, n, i, m2);
    }
    if items[i].declared_duration_ms == 0 {
        lemma_contains_left(e1 + e2, e3, m3);
        lemma_contains_left(e1 + e2 + e3, e4, m3);
        lemma_all_row_errors(items, bumpers, n, i, m3);
    }
    if i > 0 && items[i].start_at_ms < items[i - 1].start_at_ms {
        lemma_contains_left(e1 + e2 + e3, e4, m4);
        lemma_all_row_errors(items, bumpers, n, i, m4);
    }
}

/// Each thing that is wrong with a bumper is complained about by name: a point at or past the
/// end of its program, and content that is a program of its own.
pub proof fn every_bad_bumper_is_complained_about(
    items: Seq<ProgramEntry>,
    bumpers: Seq<BumperEntry>,
    i: int,
    k: int,
)
    requires
        0 <= i < items.len(),
        0 <= k < bumpers.len(),
        bumpers[k].target_program_id@ == items[i].id@,
    ensures
        ({
            let said = playlist::schedule_errors(items, bumpers);
            let b = bumpers[k];
            &&& b.at_into_program_ms >= items[i].declared_duration_ms ==> said.contains(
                "节目 '"@ + items[i].name@ + "' 上的插播触发点 '"@ + b.content.name@
                    + "' 超出节目时长"@,
            )
            &&& b.content.kind == ProgramKind::Primary ==> said.contains(
                "插播 '"@ + b.content.name@
                    + "' 类型不能是 Primary（只能是 Interstitial / Standalone）"@,
            )
        }),
{
    let b = bumpers[k];
    let p = items[i];
    let none = Seq::<Seq<char>>::empty();
    let m1 = "节目 '"@ + p.name@ + "' 上的插播触发点 '"@ + b.content.name@ + "' 超出节目时长"@;
    let m2 = "插播 '"@ + b.content.name@
        + "' 类型不能是 Primary（只能是 Interstitial / Standalone）"@;
    let e1 = if b.at_into_program_ms >= p.declared_duration_ms {
        none.push(m1)
    } else {
        none
    };
    let e2 = if b.content.kind == ProgramKind::Primary {
        none.push(m2)
    } else {
        none
    };
    assert(playlist::bumper_errors(p, b) == e1 + e2);
    assert(none.push(m1)[0] == m1 && none.push(m2)[0] == m2);
    lemma_contains_left(e1, e2, m1);
    lemma_contains_left(e1, e2, m2);
    if b.at_into_program_ms >= p.declared_duration_ms {
        lemma_all_bumper_errors(p, bumpers, bumpers.len(), k, m1);
        lemma_all_row_errors(items, bumpers, items.len(), i, m1);
    }
    if b.content.kind == ProgramKind::Primary {
        lemma_all_bumper_errors(p, bumpers, bumpers.len(), k, m2);
        lemma_all_row_errors(items, bumpers, items.len(), i, m2);
    }
}

/// A schedule without rows draws one complaint, and one whose rows and bumpers are all in
/// order draws none.
pub proof fn only_bad_schedules_are_complained_about(
    items: Seq<ProgramEntry>,
    bumpers: Seq<BumperEntry>,
)
    ensures
        items.len() == 0 ==> playlist::schedule_errors(items, bumpers) == seq![
            "节目表为空，请至少添加一条节目"@,
        ],
        items.len() > 0 && (forall|i: int|
            0 <= i < items.len() ==> {
                &&& !text::is_blank((#[trigger] items[i]).name@)
                &&& !text::is_blank(items[i].file_path@)
                &&& items[i].declared_duration_ms > 0
                &&& i > 0 ==> items[i - 1].start_at_ms <= items[i].start_at_ms
            }) && (forall|i: int, k: int|
            0 <= i < items.len() && 0 <= k < bumpers.len()
                && #[trigger] bumpers[k].target_program_id@ == #[trigger] items[i].id@
                ==> bumpers[k].at_into_program_ms < items[i].declared_duration_ms
                && bumpers[k].content.kind != ProgramKind::Primary) ==> playlist::schedule_errors(
            items,
            bumpers,
        ).len() == 0,
{
    playlist::no_complaint_means_sane(items, bumpers);
    if items.len() > 0 && (forall|i: int|
        0 <= i < items.len() ==> {
            &&& !text::is_blank((#[trigger] items[i]).name@)
            &&& !text::is_blank(items[i].file_path@)
            &&& items[i].declared_duration_ms > 0
            &&& i > 0 ==> items[i - 1].start_at_ms <= items[i].start_at_ms
        }) {
        assert forall|i: int| 0 <= i < items.len() implies playlist::row_is_sane(items, i) by {
            assert(!text::is_blank(items[i].name@));
        }
    }
}

// ------------------------------------------------------------------------ anchors

/// The anchor of the timeline is the row that ends next: it is not over, and no row that is
/// not over ends before it.
pub proof fn the_anchor_ends_next(items: Seq<ProgramEntry>, now: i64, i: int, j: int)
    requires
        playlist::ends_soonest(items, now, i),
        0 <= j < items.len(),
        playlist::end_of(items[j]) > now,
    ensures
        0 <= i < items.len(),
        playlist::end_of(items[i]) > now,
        playlist::end_of(items[i]) <= playlist::end_of(items[j]),
        j < i ==> playlist::end_of(items[i]) != playlist::end_of(items[j]),
{
}

/// A bumper of a program has been reached from its point on.
pub proof fn bumpers_are_reached_at_their_point(b: BumperEntry, id: Seq<char>, offset: int)
    ensures
        playlist::bumper_reached(id, offset)(b) <==> b.target_program_id@ == id && offset
            >= b.at_into_program_ms,
{
}

// ------------------------------------------------------------------------ display

/// A time is shown as its hours, minutes, seconds and milliseconds, with a minus in front of
/// a negative one.
pub proof fn times_are_shown_by_the_clock(ms: i64, h: nat, m: nat, s: nat, f: nat)
    requires
        m < 60,
        s < 60,
        f < 1_000,
        ms == ((h * 60 + m) * 60 + s) * 1_000 + f || -ms == ((h * 60 + m) * 60 + s) * 1_000 + f,
    ensures
        playlist::ms_text(ms) == (if ms < 0 {
            seq!['-']
        } else {
            Seq::<char>::empty()
        }) + text::padded(h, 2) + seq![':'] + text::padded(m, 2) + seq![':'] + text::padded(s, 2)
            + seq!['.'] + text::padded(f, 3),
{
    let a = playlist::magnitude(ms);
    assert(a == h * 3_600_000 + m * 60_000 + s * 1_000 + f);
    assert(a / 3_600_000 == h);
    assert(a / 60_000 == h * 60 + m);
    assert((a / 60_000) % 60 == m);
    assert(a / 1_000 == h * 3_600 + m * 60 + s);
    assert((a / 1_000) % 60 == s);
    assert(a % 1_000 == f);
}

/// A moment of the calendar is shown as itself, any other as the epoch.
pub proof fn moments_outside_the_calendar_are_the_epoch(ms: i64)
    ensures
        -8_334_601_228_800_000 <= ms <= 8_210_266_876_799_999 ==> playlist::shown_moment(ms) == ms,
        ms < -8_334_601_228_800_000 || ms > 8_210_266_876_799_999 ==> playlist::shown_moment(ms)
            == 0,
{
}

// -------------------------------------------------------------------------- times

/// The rhythm of the engine: it ticks every twentieth of a second and copies the
/// configuration once a second; a new bridge file is looked for every half second and the
/// status written every second; pages are told four times a second.
pub proof fn the_rhythm_of_the_engine()
    ensures
        run_loop::TICK_MS * 20 == 1_000,
        run_loop::TICK_MS * run_loop::TICKS_PER_SNAPSHOT == 1_000,
        bridge::POLL_MS * 2 == 1_000,
        bridge::STATUS_EVERY_MS == 1_000,
        server::schedule_api::PUSH_EVERY_MS * 4 == 1_000,
{
}

/// The waits around a cut: the source settles for three tenths of a second, is asked after a
/// second and a half, and again 1.2 seconds after a retry. A gap of a day is the longest that
/// is waited out, and a time server may take four seconds.
pub proof fn the_waits_of_the_engine()
    ensures
        cut::SWITCH_SETTLE_MS == 300,
        watch::CONFIRM_AFTER_MS == 1_500,
        watch::RECHECK_AFTER_MS == 1_200,
        interrupt::LONG_GAP_MS == 24 * 60 * 60 * 1_000,
        ntp::REPLY_TIMEOUT_SECS == 4,
{
}

} // verus!
