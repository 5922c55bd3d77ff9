//! Interstitial (bumper) scheduling: *decisions*, not state.
//!
//! Is a bumper due right now, which file should it play, and what does OBS have to
//! be told. The state machine transition itself is owned by the scheduler.

use vstd::prelude::*;

use crate::config::{BumperEntry, Config, ProgramEntry, ProgramKind};
use crate::json::{Json, JsonNumber, JsonView, ObjectBuilder};
use crate::millis::to_signed;
use crate::playlist::{current_index, effective_duration_ms, next_index};
#[allow(unused_imports)]
use crate::{millis, playlist, seqs};

verus! {

/// Whether `b` is due `into` ms into the program `id`: anywhere in the lead-in
/// window `[offset - lead_in, offset)` of its trigger point.
pub open spec fn is_due(b: BumperEntry, id: Seq<char>, into: i64, lead_in_ms: u64) -> bool {
    let offset = millis::signed(b.at_into_program_ms);
    &&& b.target_program_id@ == id
    &&& offset - millis::signed(lead_in_ms) <= into < offset
}

/// The bumpers that are due `into` ms into the program `id`.
pub open spec fn due(id: Seq<char>, into: i64, lead_in_ms: u64) -> spec_fn(BumperEntry) -> bool {
    |b: BumperEntry| is_due(b, id, into, lead_in_ms)
}

/// Position of the first bumper that is due.
pub open spec fn due_at(
    bumpers: Seq<BumperEntry>,
    id: Seq<char>,
    into: i64,
    lead_in_ms: u64,
) -> Option<int> {
    seqs::first_index(bumpers, due(id, into, lead_in_ms))
}

/// Position of the first bumper that is due for `p`.
pub fn due_bumper(
    bumpers: &Vec<BumperEntry>,
    p: &ProgramEntry,
    now_ms_into_program: i64,
    lead_in_ms: u64,
) -> (r: Option<usize>)
    ensures
        playlist::pos(r) == due_at(bumpers@, p.id@, now_ms_into_program, lead_in_ms),
        r matches Some(i) ==> i < bumpers@.len(),
{
    let ghost f = due(p.id@, now_ms_into_program, lead_in_ms);
    let mut i: usize = 0;
    while i < bumpers.len()
        invariant
            i <= bumpers@.len(),
            f == due(p.id@, now_ms_into_program, lead_in_ms),
            forall|j: int| 0 <= j < i ==> !f(#[trigger] bumpers@[j]),
        decreases bumpers@.len() - i,
    {
        let b = &bumpers[i];
        let offset: i128 = to_signed(b.at_into_program_ms) as i128;
        let now: i128 = now_ms_into_program as i128;
        if b.target_program_id == p.id && offset - to_signed(lead_in_ms) as i128 <= now && now
            < offset {
            proof {
                seqs::first_index_is(bumpers@, f, i as int);
            }
            return Some(i);
        }
        i = i + 1;
    }
    proof {
        seqs::first_index_is(bumpers@, f, bumpers@.len() as int);
    }
    None
}

/// Returns true if a bumper is due to fire for `p` at `now_ms_into_program`, i.e.
/// inside the lead-in window of its trigger point.
pub fn ready_to_fire(
    bumpers: &Vec<BumperEntry>,
    p: &ProgramEntry,
    now_ms_into_program: i64,
    lead_in_ms: u64,
) -> (r: bool)
    ensures
        r == exists|i: int|
            0 <= i < bumpers@.len() && is_due(
                #[trigger] bumpers@[i],
                p.id@,
                now_ms_into_program,
                lead_in_ms,
            ),
{
    proof {
        seqs::first_index_means(bumpers@, due(p.id@, now_ms_into_program, lead_in_ms));
    }
    match due_bumper(bumpers, p, now_ms_into_program, lead_in_ms) {
        Some(i) => {
            assert(due(p.id@, now_ms_into_program, lead_in_ms)(bumpers@[i as int]));
            true
        },
        None => {
            assert forall|i: int| 0 <= i < bumpers@.len() implies !is_due(
                #[trigger] bumpers@[i],
                p.id@,
                now_ms_into_program,
                lead_in_ms,
            ) by {
                assert(!due(p.id@, now_ms_into_program, lead_in_ms)(bumpers@[i]));
            }
            false
        },
    }
}

/// The offset (inside the primary) to resume at once the bumper ends: its trigger
/// point.
pub fn return_to_ms(b: &BumperEntry) -> (r: u64)
    ensures
        r == b.at_into_program_ms,
{
    b.at_into_program_ms
}

/// What a program still has to run from `offset_ms` into it on.
pub open spec fn left_from(p: ProgramEntry, offset_ms: u64) -> i64 {
    let left = millis::signed(playlist::effective_ms(p)) - millis::signed(offset_ms);
    if left < 0 {
        0
    } else {
        millis::clamp(left)
    }
}

/// What a program still has to run from `offset_ms` into it on.
pub fn remaining_from(p: &ProgramEntry, offset_ms: u64) -> (r: i64)
    ensures
        r == left_from(*p, offset_ms),
{
    let left: i64 = crate::millis::sat_sub(
        to_signed(effective_duration_ms(p)),
        to_signed(offset_ms),
    );
    if left < 0 {
        0
    } else {
        left
    }
}

/// How long the primary still has to run after the bumper finished.
pub fn remaining_after_bumper(p: &ProgramEntry, b: &BumperEntry) -> (r: i64)
    ensures
        r == left_from(*p, b.at_into_program_ms),
{
    remaining_from(p, return_to_ms(b))
}

/// The content of a bumper that can be played: its file is there and it is not a
/// primary program.
pub fn pick_bumper_content(b: &BumperEntry, file_exists: bool) -> (r: Option<ProgramEntry>)
    ensures
        r == (if file_exists && b.content.kind != ProgramKind::Primary {
            Some(b.content)
        } else {
            None
        }),
{
    if !file_exists {
        return None;
    }
    if b.content.kind == ProgramKind::Primary {
        return None;
    }
    Some(b.content.clone())
}

/// The `SetInputSettings` payload pointing the target input at a file.
pub open spec fn settings_view(file_path: Seq<char>) -> JsonView {
    JsonView::Object(
        seq![
            ("local_file"@, JsonView::Text(file_path)),
            ("is_local_file"@, JsonView::Bool(true)),
            ("looping"@, JsonView::Bool(false)),
            ("restart_on_activate"@, JsonView::Bool(false)),
            ("close_when_inactive"@, JsonView::Bool(true)),
            ("linear_alpha"@, JsonView::Number(JsonNumber::Unsigned(0))),
            ("speed_percent"@, JsonView::Number(JsonNumber::Unsigned(100))),
            ("clear_on_media_end"@, JsonView::Bool(true)),
        ],
    )
}

/// The `SetInputSettings` payload pointing the target input at `file_path`.
pub fn settings_payload(file_path: &str) -> (r: Json)
    ensures
        r@ == settings_view(file_path@),
{
    let b = ObjectBuilder::new().with_text("local_file", file_path).with_bool(
        "is_local_file",
        true,
    ).with_bool("looping", false).with_bool("restart_on_activate", false).with_bool(
        "close_when_inactive",
        true,
    ).with_unsigned("linear_alpha", 0).with_unsigned("speed_percent", 100).with_bool(
        "clear_on_media_end",
        true,
    );
    assert(b@ =~= settings_view(file_path@)->Object_0);
    b.build()
}

/// Where the engine picks up after a restart.
pub enum Resume<'a> {
    /// We're inside this program's window; seek to `offset_ms` within it.
    LiveAt(&'a ProgramEntry, u64),
    /// The current slot already passed; jump to this one next.
    SkipTo(&'a ProgramEntry),
    /// A very long gap elapsed; don't sit around waiting, fast-forward.
    FastForward(&'a ProgramEntry),
}

/// A gap longer than this is not waited out.
pub const LONG_GAP_MS: i64 = 86_400_000;

/// Crash recovery: scan the playlist against the wall clock and figure out where
/// the engine should resume on restart.
pub fn recover<'a>(cfg: &'a Config, now_ms: i64) -> (r: Option<Resume<'a>>)
    ensures
        match (
            cfg.scheduler.enabled,
            playlist::current_at(cfg.playlist.items@, now_ms),
            playlist::next_at(cfg.playlist.items@, now_ms),
        ) {
            (false, _, _) => r is None,
            (true, Some(i), _) => r == Some(
                Resume::LiveAt(
                    &cfg.playlist.items@[i],
                    (now_ms - cfg.playlist.items@[i].start_at_ms) as u64,
                ),
            ),
            (true, None, Some(i)) => r == Some(
                if cfg.playlist.items@[i].start_at_ms - now_ms > LONG_GAP_MS {
                    Resume::FastForward(&cfg.playlist.items@[i])
                } else {
                    Resume::SkipTo(&cfg.playlist.items@[i])
                },
            ),
            (true, None, None) => r is None,
        },
{
    if !cfg.scheduler.enabled {
        return None;
    }
    // Case 1: we're currently inside a program's window.
    if let Some(i) = current_index(&cfg.playlist.items, now_ms) {
        let p = &cfg.playlist.items[i];
        let elapsed: u64 = (now_ms as i128 - p.start_at_ms as i128) as u64;
        return Some(Resume::LiveAt(p, elapsed));
    }
    // Case 2: we missed the last program already.
    match next_index(&cfg.playlist.items, now_ms) {
        Some(i) => {
            let next = &cfg.playlist.items[i];
            let gap: i128 = next.start_at_ms as i128 - now_ms as i128;
            if gap > LONG_GAP_MS as i128 {
                Some(Resume::FastForward(next))
            } else {
                Some(Resume::SkipTo(next))
            }
        },
        None => None,
    }
}

/// A bumper that fires does so before its trigger point, by no more than the
/// lead-in.
pub proof fn bumpers_fire_within_the_lead_in(
    bumpers: Seq<BumperEntry>,
    id: Seq<char>,
    into: i64,
    lead_in_ms: u64,
)
    ensures
        due_at(bumpers, id, into, lead_in_ms) matches Some(i) ==> {
            &&& 0 <= i < bumpers.len()
            &&& bumpers[i].target_program_id@ == id
            &&& 0 < millis::signed(bumpers[i].at_into_program_ms) - into <= millis::signed(
                lead_in_ms,
            )
        },
{
    seqs::first_index_means(bumpers, due(id, into, lead_in_ms));
}

} // verus!
