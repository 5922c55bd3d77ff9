//! Holding what the timeline thinks against what OBS is doing.

use vstd::prelude::*;

use crate::app_status::{AppStatus, StatusView};
use crate::millis::{sat_sub, to_signed};
use crate::text::{contains, to_upper};
#[allow(unused_imports)]
use crate::{millis, text};

verus! {

/// Whether a media state, as OBS writes it, means that the file is on its way.
pub open spec fn is_rolling(media_state: Seq<char>) -> bool {
    let u = text::uppercase(media_state);
    text::has_part(u, "PLAYING"@) || text::has_part(u, "OPENING"@) || text::has_part(
        u,
        "BUFFERING"@,
    )
}

/// Whether a media state means that the file is over.
pub open spec fn has_ended(media_state: Seq<char>) -> bool {
    text::has_part(text::uppercase(media_state), "ENDED"@)
}

/// Whether the media source is playing, or about to.
pub fn rolling(media_state: &str) -> (r: bool)
    ensures
        r == is_rolling(media_state@),
{
    let u = to_upper(media_state);
    contains(u.as_str(), "PLAYING") || contains(u.as_str(), "OPENING") || contains(
        u.as_str(),
        "BUFFERING",
    )
}

/// What the watchdog does about the media source.
#[derive(Debug, Clone, Copy, PartialEq, Eq, Structural)]
pub enum WatchVerdict {
    /// Nothing.
    Fine,
    /// The file was shorter than its slot: pull the end of the program in to now.
    CutOnEarly,
    /// The switch never took: set the file again and restart the source.
    Reapply,
}

/// A file that ends this close to the end of its slot did not end early.
pub const END_SLACK_MS: i64 = 1_500;

/// What the watchdog makes of a media state `into_ms` into a program.
pub open spec fn watch_verdict(
    media_state: Seq<char>,
    into_ms: i64,
    declared_duration_ms: u64,
) -> WatchVerdict {
    if is_rolling(media_state) {
        WatchVerdict::Fine
    } else if has_ended(media_state) {
        if into_ms < millis::signed(declared_duration_ms) - END_SLACK_MS {
            WatchVerdict::CutOnEarly
        } else {
            WatchVerdict::Fine
        }
    } else {
        WatchVerdict::Reapply
    }
}

/// Judges what OBS says of the media source `into_ms` into a program.
pub fn watchdog(media_state: &str, into_ms: i64, declared_duration_ms: u64) -> (r: WatchVerdict)
    ensures
        r == watch_verdict(media_state@, into_ms, declared_duration_ms),
{
    if rolling(media_state) {
        return WatchVerdict::Fine;
    }
    let u = to_upper(media_state);
    if contains(u.as_str(), "ENDED") {
        let declared: i64 = to_signed(declared_duration_ms);
        if into_ms < sat_sub(declared, END_SLACK_MS) {
            return WatchVerdict::CutOnEarly;
        }
        return WatchVerdict::Fine;
    }
    WatchVerdict::Reapply
}

// ---------------------------------------------------------------- confirmation

/// How long after a cut OBS is asked whether the file is playing.
pub const CONFIRM_AFTER_MS: u64 = 1_500;

/// How long after the retry it is asked again.
pub const RECHECK_AFTER_MS: u64 = 1_200;

/// What OBS answered to a question about the media source: its state, or an error.
pub type MediaReply = Result<String, String>;

/// Whether the reply says that the file is on its way.
pub open spec fn confirms(reply: MediaReply) -> bool {
    reply matches Ok(s) && is_rolling(s@)
}

/// The status with `e` as the last error.
pub open spec fn with_error(s: StatusView, e: Option<Seq<char>>) -> StatusView {
    StatusView { last_error: e, ..s }
}

/// What is said where OBS cannot be asked about the media source.
pub open spec fn unreachable_message(input: Seq<char>, e: Seq<char>) -> Seq<char> {
    "无法查询媒体源 '"@ + input + "' 的播放状态："@ + e
        + "（目标源名可能不对，请在设置页用下拉选择）"@
}

/// What is said where the media source still does not play.
pub open spec fn dead_message(
    input: Seq<char>,
    media_state: Seq<char>,
    file_path: Seq<char>,
) -> Seq<char> {
    "OBS 里媒体源 '"@ + input + "' 仍未播放（mediaState="@ + media_state
        + "）。请检查：① 它是媒体源（不是 VLC 源）；② 已加入当前场景且可见（未被隐藏）；③ 设置页里的目标源名与 OBS 中完全一致；④ 文件是 OBS 支持的格式："@
        + file_path
}

/// What is said where OBS cannot be asked a second time.
pub open spec fn recheck_message(input: Seq<char>, e: Seq<char>) -> Seq<char> {
    "复查媒体源 '"@ + input + "' 失败："@ + e
}

/// Takes the first answer after a cut. True where the cut has to be tried once more.
pub fn confirm_first(status: &mut AppStatus, target_input: &str, reply: &MediaReply) -> (r: bool)
    ensures
        r == (reply is Ok && !confirms(*reply)),
        final(status)@ == (if r {
            old(status)@
        } else {
            with_error(
                old(status)@,
                match *reply {
                    Ok(_) => None,
                    Err(e) => Some(unreachable_message(target_input@, e@)),
                },
            )
        }),
{
    match reply {
        Ok(s) => {
            if rolling(s.as_str()) {
                status.last_error = None;
                return false;
            }
            true
        },
        Err(e) => {
            let mut msg = "无法查询媒体源 '".to_string();
            msg.append(target_input);
            msg.append("' 的播放状态：");
            msg.append(e.as_str());
            msg.append("（目标源名可能不对，请在设置页用下拉选择）");
            status.last_error = Some(msg);
            false
        },
    }
}

/// Takes the answer after the retry.
pub fn confirm_again(
    status: &mut AppStatus,
    target_input: &str,
    file_path: &str,
    reply: &MediaReply,
)
    ensures
        final(status)@ == with_error(
            old(status)@,
            match *reply {
                Ok(s) => if is_rolling(s@) {
                    None
                } else {
                    Some(dead_message(target_input@, s@, file_path@))
                },
                Err(e) => Some(recheck_message(target_input@, e@)),
            },
        ),
{
    match reply {
        Ok(s) => {
            if rolling(s.as_str()) {
                status.last_error = None;
            } else {
                let mut msg = "OBS 里媒体源 '".to_string();
                msg.append(target_input);
                msg.append("' 仍未播放（mediaState=");
                msg.append(s.as_str());
                msg.append(
                    "）。请检查：① 它是媒体源（不是 VLC 源）；② 已加入当前场景且可见（未被隐藏）；③ 设置页里的目标源名与 OBS 中完全一致；④ 文件是 OBS 支持的格式：",
                );
                msg.append(file_path);
                status.last_error = Some(msg);
            }
        },
        Err(e) => {
            let mut msg = "复查媒体源 '".to_string();
            msg.append(target_input);
            msg.append("' 失败：");
            msg.append(e.as_str());
            status.last_error = Some(msg);
        },
    }
}

/// A source that plays is left alone, and one that neither plays nor has ended is
/// always put right.
pub proof fn a_dead_source_is_put_right(media_state: Seq<char>, into_ms: i64, declared_ms: u64)
    ensures
        is_rolling(media_state) ==> watch_verdict(media_state, into_ms, declared_ms)
            == WatchVerdict::Fine,
        watch_verdict(media_state, into_ms, declared_ms) == WatchVerdict::Reapply <==> !is_rolling(
            media_state,
        ) && !has_ended(media_state),
{
}

} // verus!
