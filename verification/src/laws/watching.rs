//! Holding the timeline against what OBS does, and what the loop does around the ticks.

use vstd::prelude::*;

#[allow(unused_imports)]
use crate::config::MissingFilePolicy;
#[allow(unused_imports)]
use crate::cut::{CutView, PreloadView};
#[allow(unused_imports)]
use crate::run_loop::LoopState;
#[allow(unused_imports)]
use crate::scheduler::{Board, StateView};
#[allow(unused_imports)]
use crate::watch::WatchVerdict;
#[allow(unused_imports)]
use crate::{cut, interrupt, json, laws, run_loop, scheduler, text, watch};

verus! {

/// Whether a text holds a word, in letters of either case.
pub open spec fn mentions(media_state: Seq<char>, word: Seq<char>) -> bool {
    exists|i: int| #[trigger] holds_at(media_state, word, i)
}

/// Whether a word stands at `i` of a text, in letters of either case.
pub open spec fn holds_at(s: Seq<char>, word: Seq<char>, i: int) -> bool {
    &&& 0 <= i <= s.len() - word.len()
    &&& forall|j: int|
        0 <= j < word.len() ==> s[i + j] == #[trigger] word[j] || ('a' <= s[i + j] <= 'z'
            && s[i + j] as int - 32 == word[j] as int)
}

proof fn lemma_mentions_upper(s: Seq<char>, word: Seq<char>)
    requires
        forall|j: int| 0 <= j < word.len() ==> 'A' <= #[trigger] word[j] <= 'Z',
    ensures
        text::has_part(text::uppercase(s), word) <==> mentions(s, word),
{
    let u = text::uppercase(s);
    if text::has_part(u, word) {
        let i = choose|i: int|
            0 <= i <= u.len() - word.len() && #[trigger] u.subrange(i, i + word.len()) == word;
        assert forall|j: int| 0 <= j < word.len() implies s[i + j] == #[trigger] word[j] || ('a'
            <= s[i + j] <= 'z' && s[i + j] as int - 32 == word[j] as int) by {
            assert(u.subrange(i, i + word.len())[j] == u[i + j]);
            assert(u[i + j] == text::upper_char(s[i + j]));
        }
        assert(holds_at(s, word, i));
    }
    if mentions(s, word) {
        let i = choose|i: int| #[trigger] holds_at(s, word, i);
        assert forall|j: int| 0 <= j < word.len() implies u[i + j] == #[trigger] word[j] by {
            assert(u[i + j] == text::upper_char(s[i + j]));
        }
        assert(u.subrange(i, i + word.len()) =~= word);
    }
}

/// The file is on its way where OBS says that it plays, opens or buffers, and over where OBS
/// says that it ended, in letters of either case.
pub proof fn media_states_are_read(media_state: Seq<char>)
    ensures
        watch::is_rolling(media_state) <==> mentions(media_state, "PLAYING"@) || mentions(
            media_state,
            "OPENING"@,
        ) || mentions(media_state, "BUFFERING"@),
        watch::has_ended(media_state) <==> mentions(media_state, "ENDED"@),
{
    reveal_strlit("PLAYING");
    reveal_strlit("OPENING");
    reveal_strlit("BUFFERING");
    reveal_strlit("ENDED");
    lemma_mentions_upper(media_state, "PLAYING"@);
    lemma_mentions_upper(media_state, "OPENING"@);
    lemma_mentions_upper(media_state, "BUFFERING"@);
    lemma_mentions_upper(media_state, "ENDED"@);
}

/// A file that has ended is cut on from exactly where more than a second and a half of its
/// slot is left, however much that is. A source that plays is left alone, and one that neither
/// plays nor has ended is put right.
pub proof fn a_file_that_ends_early_is_cut_on_from(
    media_state: Seq<char>,
    into_ms: i64,
    declared_ms: u64,
)
    requires
        declared_ms <= i64::MAX,
    ensures
        ({
            let v = watch::watch_verdict(media_state, into_ms, declared_ms);
            let rolls = mentions(media_state, "PLAYING"@) || mentions(media_state, "OPENING"@)
                || mentions(media_state, "BUFFERING"@);
            let ended = mentions(media_state, "ENDED"@);
            &&& v == WatchVerdict::CutOnEarly <==> !rolls && ended && declared_ms - into_ms > 1_500
            &&& v == WatchVerdict::Fine <==> rolls || ended && declared_ms - into_ms <= 1_500
            &&& v == WatchVerdict::Reapply <==> !rolls && !ended
        }),
{
    media_states_are_read(media_state);
}

/// The end of a file is taken the same way at every moment: once it counts as early, it
/// would have counted as early at every earlier moment, and a longer slot makes it no less
/// early.
pub proof fn earlier_is_no_less_early(
    media_state: Seq<char>,
    into_ms: i64,
    earlier_ms: i64,
    declared_ms: u64,
    longer_ms: u64,
)
    requires
        earlier_ms <= into_ms,
        declared_ms <= longer_ms <= i64::MAX,
        watch::watch_verdict(media_state, into_ms, declared_ms) == WatchVerdict::CutOnEarly,
    ensures
        watch::watch_verdict(media_state, earlier_ms, longer_ms) == WatchVerdict::CutOnEarly,
{
}

/// A cut is confirmed where OBS says that the file is on its way.
pub proof fn cuts_are_confirmed_by_a_rolling_file(state: String, e: String)
    ensures
        watch::confirms(Ok(state)) <==> mentions(state@, "PLAYING"@) || mentions(
            state@,
            "OPENING"@,
        ) || mentions(state@, "BUFFERING"@),
        !watch::confirms(Err(e)),
{
    media_states_are_read(state@);
}

/// An error of the last question about the media source is all that a confirmation changes.
pub proof fn a_confirmation_only_speaks_of_the_error(
    s: crate::app_status::StatusView,
    e: Option<Seq<char>>,
)
    ensures
        ({
            let after = watch::with_error(s, e);
            let b = Board { state: StateView::Idle, status: s };
            let a = Board { state: StateView::Idle, status: after };
            &&& after.last_error == e
            &&& after.scheduler_state == s.scheduler_state
            &&& after.current_program_id == s.current_program_id
            &&& after.current_program_name == s.current_program_name
            &&& after.current_remaining_ms == s.current_remaining_ms
            &&& after.last_changed_at == s.last_changed_at
            &&& after.paused == s.paused
            &&& laws::same_beside(a, b)
        }),
{
}

/// What is said of a media source that cannot be asked or does not play names the source, and
/// what OBS said of it or the file that it was to play.
pub proof fn complaints_name_the_source(
    input: Seq<char>,
    media_state: Seq<char>,
    file_path: Seq<char>,
    e: Seq<char>,
)
    ensures
        watch::unreachable_message(input, e) == "无法查询媒体源 '"@ + input + "' 的播放状态："@ + e
            + "（目标源名可能不对，请在设置页用下拉选择）"@,
        watch::recheck_message(input, e) == "复查媒体源 '"@ + input + "' 失败："@ + e,
        text::has_part(watch::dead_message(input, media_state, file_path), input),
        text::has_part(watch::dead_message(input, media_state, file_path), media_state),
        text::has_suffix(watch::dead_message(input, media_state, file_path), file_path),
{
    let m = watch::dead_message(input, media_state, file_path);
    let a = "OBS 里媒体源 '"@;
    let b = "' 仍未播放（mediaState="@;
    let from = a.len() as int;
    assert(m.subrange(from, from + input.len()) =~= input);
    let at = from + input.len() + b.len();
    assert(m.subrange(at, at + media_state.len()) =~= media_state);
    assert(m.subrange(m.len() - file_path.len(), m.len() as int) =~= file_path);
}

// -------------------------------------------------------------------------- cuts

/// OBS is asked to show a file exactly where the file is there and so is OBS. A missing file
/// goes by the policy, and says which file it is.
pub proof fn a_cut_needs_the_file_and_obs(
    policy: MissingFilePolicy,
    file_path: Seq<char>,
    exists: bool,
    online: bool,
)
    ensures
        cut::cut_verdict(policy, file_path, exists, online) is None <==> exists && online,
        cut::preload_verdict(policy, file_path, exists, online) is None <==> exists && online,
        exists && !online ==> cut::cut_verdict(policy, file_path, exists, online) == Some(
            CutView::Failed("no obs-websocket connection"@),
        ),
        exists && !online ==> cut::preload_verdict(policy, file_path, exists, online) == Some(
            PreloadView::Failed("no obs-websocket connection"@),
        ),
        !exists && policy == MissingFilePolicy::SkipToNext ==> {
            &&& cut::cut_verdict(policy, file_path, exists, online) == Some(CutView::SkipMissing)
            &&& cut::preload_verdict(policy, file_path, exists, online) == Some(
                PreloadView::SkipMissing,
            )
        },
        !exists && policy == MissingFilePolicy::HoldFrame ==> {
            &&& cut::cut_verdict(policy, file_path, exists, online) == Some(
                CutView::Failed("missing file and policy=HoldFrame: "@ + file_path),
            )
            &&& cut::preload_verdict(policy, file_path, exists, online) == Some(
                PreloadView::Failed("file not found: "@ + file_path),
            )
        },
        !exists && policy == MissingFilePolicy::StopScheduler ==> {
            &&& cut::cut_verdict(policy, file_path, exists, online) == Some(
                CutView::Stopped("missing file and policy=StopScheduler: "@ + file_path),
            )
            &&& cut::preload_verdict(policy, file_path, exists, online) == Some(
                PreloadView::Stopped("file not found: "@ + file_path),
            )
        },
{
}

/// The media source is pointed at the very file, to be played once and at its own speed.
pub proof fn the_media_source_gets_the_file(file_path: Seq<char>)
    ensures
        ({
            let s = interrupt::settings_view(file_path);
            &&& json::member_of(s, "local_file"@) == Some(json::JsonView::Text(file_path))
            &&& json::member_of(s, "is_local_file"@) == Some(json::JsonView::Bool(true))
            &&& json::member_of(s, "looping"@) == Some(json::JsonView::Bool(false))
            &&& json::member_of(s, "restart_on_activate"@) == Some(json::JsonView::Bool(false))
            &&& json::member_of(s, "close_when_inactive"@) == Some(json::JsonView::Bool(true))
            &&& json::member_of(s, "linear_alpha"@) == Some(
                json::JsonView::Number(json::JsonNumber::Unsigned(0)),
            )
            &&& json::member_of(s, "speed_percent"@) == Some(
                json::JsonView::Number(json::JsonNumber::Unsigned(100)),
            )
            &&& json::member_of(s, "clear_on_media_end"@) == Some(json::JsonView::Bool(true))
            &&& s->Object_0.len() == 8
        }),
{
    reveal_strlit("local_file");
    reveal_strlit("is_local_file");
    reveal_strlit("looping");
    reveal_strlit("restart_on_activate");
    reveal_strlit("close_when_inactive");
    reveal_strlit("linear_alpha");
    reveal_strlit("speed_percent");
    reveal_strlit("clear_on_media_end");
    let m = interrupt::settings_view(file_path)->Object_0;
    assert("local_file"@.len() == 10);
    assert("is_local_file"@.len() == 13);
    assert("looping"@.len() == 7);
    assert("restart_on_activate"@.len() == 19);
    assert("close_when_inactive"@.len() == 19);
    assert("restart_on_activate"@[0] == 'r');
    assert("close_when_inactive"@[0] == 'c');
    assert("linear_alpha"@.len() == 12);
    assert("speed_percent"@.len() == 13);
    assert("speed_percent"@[0] == 's');
    assert("is_local_file"@[0] == 'i');
    assert("clear_on_media_end"@.len() == 18);
    json::lookup_is_first(m, "local_file"@, 0);
    json::lookup_is_first(m, "is_local_file"@, 1);
    json::lookup_is_first(m, "looping"@, 2);
    json::lookup_is_first(m, "restart_on_activate"@, 3);
    json::lookup_is_first(m, "close_when_inactive"@, 4);
    json::lookup_is_first(m, "linear_alpha"@, 5);
    json::lookup_is_first(m, "speed_percent"@, 6);
    json::lookup_is_first(m, "clear_on_media_end"@, 7);
}

// -------------------------------------------------------------------------- loop

/// An error is left behind after more than ten seconds, counted from when it was first seen,
/// and not before; one that is left to the operator never is.
pub proof fn errors_are_left_behind_after_ten_seconds(
    s: LoopState,
    b: Board,
    wall: i64,
    since: i64,
)
    ensures
        s.error_since_ms == Some(since) ==> (run_loop::error_is_stale(s, b, wall) <==> (
        b.state matches StateView::Error { until_cleared, .. } && !until_cleared) && wall - since
            > 10_000),
        s.error_since_ms is None ==> !run_loop::error_is_stale(s, b, wall),
        s.error_since_ms == Some(since) ==> run_loop::error_start(s, wall) == since,
        s.error_since_ms is None ==> run_loop::error_start(s, wall) == wall,
{
}

/// Standing down rests the machine where it drives the scene, clears what is shown of the
/// program, and leaves an error, the link to OBS and the station clock as they are.
pub proof fn standing_down_leaves_the_rest(b: Board, wall: i64)
    ensures
        ({
            let after = run_loop::standing_down(b, wall);
            &&& b.state is Error ==> after.state == b.state
            &&& !(b.state is Error) ==> after.state is Idle
            &&& after.status.last_error == b.status.last_error
            &&& after.status.obs_connected == b.status.obs_connected
            &&& after.status.obs_error == b.status.obs_error
            &&& after.status.ntp_offset_ms == b.status.ntp_offset_ms
            &&& after.status.ntp_server == b.status.ntp_server
            &&& after.status.ntp_synced_at == b.status.ntp_synced_at
            &&& after.status.ntp_error == b.status.ntp_error
            &&& !(b.state is Error) && !(b.state is Idle) ==> after.status.scheduler_state
                == "Idle"@ && after.status.last_changed_at == Some(wall)
            &&& b.status.scheduler_running || b.status.current_program_id is Some
                || b.status.current_program_name is Some ==> !after.status.paused
                && after.status.current_remaining_ms is None && after.status.scheduler_state
                == "Idle"@
        }),
{
}

/// The activity light goes on when the scheduler starts to drive the scene and off when it
/// stops; in between nothing is touched.
pub proof fn the_activity_light_follows_the_machine(b: Board, was_active: bool)
    ensures
        ({
            let after = run_loop::lighting(b, was_active);
            let drives = !(b.state is Idle) && !(b.state is Error);
            &&& after.state == b.state
            &&& drives == was_active ==> after == b
            &&& drives != was_active ==> after.status.scheduler_running == drives
                && after.status.scheduler_state == scheduler::label_of(b.state)
            &&& after.status.current_program_id == b.status.current_program_id
            &&& after.status.current_program_name == b.status.current_program_name
            &&& after.status.current_remaining_ms == b.status.current_remaining_ms
            &&& after.status.last_changed_at == b.status.last_changed_at
            &&& after.status.last_error == b.status.last_error
            &&& after.status.paused == b.status.paused
            &&& after.status.obs_connected == b.status.obs_connected
            &&& after.status.obs_error == b.status.obs_error
        }),
{
}

} // verus!
