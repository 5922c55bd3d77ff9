//! Handing a file to OBS and cutting to it.

use vstd::prelude::*;

use crate::config::MissingFilePolicy;
use crate::interrupt::settings_payload;
use crate::obs_ws::codec::ObsWsCmd;
use crate::obs_ws::messages::MediaInputAction;
use crate::text::cat;
#[allow(unused_imports)]
use crate::interrupt;

verus! {

/// How a hard cut ended.
#[derive(Debug)]
pub enum CutOutcome {
    /// The program is on air.
    Cut,
    /// Its file is missing and is to be skipped.
    SkipMissing,
    /// It did not work.
    Failed(String),
    /// Its file is missing, and nothing is to go on until the operator has intervened.
    Stopped(String),
}

/// How long to wait between re-pointing the media source at a new file and telling
/// it to play. OBS re-opens the decoder asynchronously; an action sent in the same
/// instant is dropped.
pub const SWITCH_SETTLE_MS: u64 = 300;

/// The command that points the media source at a file.
pub fn set_file_command(target_input: &str, file_path: &str) -> (r: ObsWsCmd)
    ensures
        r matches ObsWsCmd::SetInputSettings { input_name, settings, overlay } && input_name@
            == target_input@ && settings@ == interrupt::settings_view(file_path@) && overlay,
{
    ObsWsCmd::SetInputSettings {
        input_name: target_input.to_owned(),
        settings: settings_payload(file_path),
        overlay: true,
    }
}

/// The command that asks something of the media source.
pub fn action_command(target_input: &str, action: MediaInputAction) -> (r: ObsWsCmd)
    ensures
        r matches ObsWsCmd::TriggerMediaInputAction { input_name, action: a } && input_name@
            == target_input@ && a == action,
{
    ObsWsCmd::TriggerMediaInputAction { input_name: target_input.to_owned(), action }
}

/// The command that seeks in the file of the media source.
pub fn seek_command(target_input: &str, cursor_ms: u64) -> (r: ObsWsCmd)
    ensures
        r matches ObsWsCmd::SetMediaInputCursor { input_name, cursor_ms: at } && input_name@
            == target_input@ && at == cursor_ms,
{
    ObsWsCmd::SetMediaInputCursor { input_name: target_input.to_owned(), cursor_ms }
}

/// What a cut does next.
#[derive(Debug)]
pub enum CutStep {
    /// Point the media source at the file.
    SetFile,
    /// Wait this long, then restart the media source.
    SettleThenRestart(u64),
    /// Nothing more.
    Finished(CutOutcome),
}

/// The mathematical counterpart of `CutOutcome`.
pub enum CutView {
    Cut,
    SkipMissing,
    Failed(Seq<char>),
    Stopped(Seq<char>),
}

impl View for CutOutcome {
    type V = CutView;

    open spec fn view(&self) -> CutView {
        match *self {
            CutOutcome::Cut => CutView::Cut,
            CutOutcome::SkipMissing => CutView::SkipMissing,
            CutOutcome::Failed(e) => CutView::Failed(e@),
            CutOutcome::Stopped(e) => CutView::Stopped(e@),
        }
    }
}

/// What a cut comes to before OBS is asked; `None` where OBS has to be asked.
pub open spec fn cut_verdict(
    policy: MissingFilePolicy,
    file_path: Seq<char>,
    exists: bool,
    online: bool,
) -> Option<CutView> {
    if !exists {
        Some(
            match policy {
                MissingFilePolicy::SkipToNext => CutView::SkipMissing,
                MissingFilePolicy::HoldFrame => CutView::Failed(
                    "missing file and policy=HoldFrame: "@ + file_path,
                ),
                MissingFilePolicy::StopScheduler => CutView::Stopped(
                    "missing file and policy=StopScheduler: "@ + file_path,
                ),
            },
        )
    } else if !online {
        Some(CutView::Failed("no obs-websocket connection"@))
    } else {
        None
    }
}

/// Starts a hard cut, knowing whether the file is there and whether OBS is. A missing
/// file is skipped, fails the cut or stops the scheduler, as the policy says.
pub fn cut_after_file(
    policy: MissingFilePolicy,
    file_path: &str,
    exists: bool,
    online: bool,
) -> (r: CutStep)
    ensures
        match r {
            CutStep::SetFile => cut_verdict(policy, file_path@, exists, online) is None,
            CutStep::SettleThenRestart(_) => false,
            CutStep::Finished(o) => cut_verdict(policy, file_path@, exists, online) == Some(o@),
        },
{
    if exists {
        if online {
            return CutStep::SetFile;
        }
        return CutStep::Finished(CutOutcome::Failed("no obs-websocket connection".to_string()));
    }
    CutStep::Finished(
        match policy {
            MissingFilePolicy::SkipToNext => CutOutcome::SkipMissing,
            MissingFilePolicy::HoldFrame => CutOutcome::Failed(
                cat("missing file and policy=HoldFrame: ", file_path),
            ),
            MissingFilePolicy::StopScheduler => CutOutcome::Stopped(
                cat("missing file and policy=StopScheduler: ", file_path),
            ),
        },
    )
}

/// Goes on once the media source has been pointed at the file.
pub fn cut_after_set(result: Result<(), String>) -> (r: CutStep)
    ensures
        match result {
            Ok(_) => r == CutStep::SettleThenRestart(SWITCH_SETTLE_MS),
            Err(e) => r == CutStep::Finished(CutOutcome::Failed(e)),
        },
{
    match result {
        Ok(_) => CutStep::SettleThenRestart(SWITCH_SETTLE_MS),
        Err(e) => CutStep::Finished(CutOutcome::Failed(e)),
    }
}

/// Ends a hard cut once the media source has been restarted.
pub fn cut_after_restart(result: Result<(), String>) -> (r: CutOutcome)
    ensures
        match result {
            Ok(_) => r == CutOutcome::Cut,
            Err(e) => r == CutOutcome::Failed(e),
        },
{
    match result {
        Ok(_) => CutOutcome::Cut,
        Err(e) => CutOutcome::Failed(e),
    }
}

/// How handing a file over ahead of its program ended.
#[derive(Debug)]
pub enum PreloadOutcome {
    /// OBS has the file.
    Ready,
    /// It is missing and is to be skipped.
    SkipMissing,
    /// It did not work.
    Failed(String),
    /// It is missing, and nothing is to go on until the operator has intervened.
    Stopped(String),
}

/// The mathematical counterpart of `PreloadOutcome`.
pub enum PreloadView {
    Ready,
    SkipMissing,
    Failed(Seq<char>),
    Stopped(Seq<char>),
}

impl View for PreloadOutcome {
    type V = PreloadView;

    open spec fn view(&self) -> PreloadView {
        match *self {
            PreloadOutcome::Ready => PreloadView::Ready,
            PreloadOutcome::SkipMissing => PreloadView::SkipMissing,
            PreloadOutcome::Failed(e) => PreloadView::Failed(e@),
            PreloadOutcome::Stopped(e) => PreloadView::Stopped(e@),
        }
    }
}

/// What handing a file over comes to before OBS is asked; `None` where OBS has to be asked.
pub open spec fn preload_verdict(
    policy: MissingFilePolicy,
    file_path: Seq<char>,
    exists: bool,
    online: bool,
) -> Option<PreloadView> {
    if !exists {
        Some(
            match policy {
                MissingFilePolicy::SkipToNext => PreloadView::SkipMissing,
                MissingFilePolicy::HoldFrame => PreloadView::Failed(
                    "file not found: "@ + file_path,
                ),
                MissingFilePolicy::StopScheduler => PreloadView::Stopped(
                    "file not found: "@ + file_path,
                ),
            },
        )
    } else if !online {
        Some(PreloadView::Failed("no obs-websocket connection"@))
    } else {
        None
    }
}

/// Looks whether a file can be handed over: `None` where the media source is to be pointed
/// at it. A missing file is skipped, fails or stops the scheduler, as the policy says.
pub fn preload_check(
    policy: MissingFilePolicy,
    file_path: &str,
    exists: bool,
    online: bool,
) -> (r: Option<PreloadOutcome>)
    ensures
        match r {
            Some(o) => preload_verdict(policy, file_path@, exists, online) == Some(o@),
            None => preload_verdict(policy, file_path@, exists, online) is None,
        },
{
    if !exists {
        return Some(
            match policy {
                MissingFilePolicy::SkipToNext => PreloadOutcome::SkipMissing,
                MissingFilePolicy::HoldFrame => PreloadOutcome::Failed(
                    cat("file not found: ", file_path),
                ),
                MissingFilePolicy::StopScheduler => PreloadOutcome::Stopped(
                    cat("file not found: ", file_path),
                ),
            },
        );
    }
    if !online {
        return Some(PreloadOutcome::Failed("no obs-websocket connection".to_string()));
    }
    None
}

/// Ends handing a file over once the media source has been pointed at it.
pub fn preload_after_set(result: Result<(), String>) -> (r: PreloadOutcome)
    ensures
        match result {
            Ok(_) => r == PreloadOutcome::Ready,
            Err(e) => r == PreloadOutcome::Failed(e),
        },
{
    match result {
        Ok(_) => PreloadOutcome::Ready,
        Err(e) => PreloadOutcome::Failed(e),
    }
}

} // verus!
