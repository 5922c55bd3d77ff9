//! Engine status snapshot: what the admin page and the overlay show.

use vstd::prelude::*;

use crate::text::clone_opt;
#[allow(unused_imports)]
use crate::text;

verus! {

/// The live state of the engine, as the UI sees it.
#[derive(Debug)]
pub struct AppStatus {
    /// True if the engine has a working connection to OBS.
    pub obs_connected: bool,
    /// Last OBS connection error, if any.
    pub obs_error: Option<String>,
    /// True if the scheduler is actively driving the scene.
    pub scheduler_running: bool,
    /// Label of the scheduler's state.
    pub scheduler_state: String,
    /// The program currently on air.
    pub current_program_id: Option<String>,
    /// Its name, for quick display.
    pub current_program_name: Option<String>,
    /// What is left of it (best effort).
    pub current_remaining_ms: Option<i64>,
    /// Wall-clock moment of the last state change.
    pub last_changed_at: Option<i64>,
    /// Most recent failure.
    pub last_error: Option<String>,
    /// True while the operator holds the transport.
    pub paused: bool,
    /// The measured clock offset in force.
    pub ntp_offset_ms: Option<i64>,
    /// The server it came from.
    pub ntp_server: Option<String>,
    /// When it was measured.
    pub ntp_synced_at: Option<i64>,
    /// Why the last measurement failed.
    pub ntp_error: Option<String>,
}

/// The mathematical counterpart of `AppStatus`.
pub struct StatusView {
    pub obs_connected: bool,
    pub obs_error: Option<Seq<char>>,
    pub scheduler_running: bool,
    pub scheduler_state: Seq<char>,
    pub current_program_id: Option<Seq<char>>,
    pub current_program_name: Option<Seq<char>>,
    pub current_remaining_ms: Option<i64>,
    pub last_changed_at: Option<i64>,
    pub last_error: Option<Seq<char>>,
    pub paused: bool,
    pub ntp_offset_ms: Option<i64>,
    pub ntp_server: Option<Seq<char>>,
    pub ntp_synced_at: Option<i64>,
    pub ntp_error: Option<Seq<char>>,
}

impl View for AppStatus {
    type V = StatusView;

    open spec fn view(&self) -> StatusView {
        StatusView {
            obs_connected: self.obs_connected,
            obs_error: text::opt_text(self.obs_error),
            scheduler_running: self.scheduler_running,
            scheduler_state: self.scheduler_state@,
            current_program_id: text::opt_text(self.current_program_id),
            current_program_name: text::opt_text(self.current_program_name),
            current_remaining_ms: self.current_remaining_ms,
            last_changed_at: self.last_changed_at,
            last_error: text::opt_text(self.last_error),
            paused: self.paused,
            ntp_offset_ms: self.ntp_offset_ms,
            ntp_server: text::opt_text(self.ntp_server),
            ntp_synced_at: self.ntp_synced_at,
            ntp_error: text::opt_text(self.ntp_error),
        }
    }
}

impl Clone for AppStatus {
    fn clone(&self) -> (r: Self)
        ensures
            r == *self,
    {
        AppStatus {
            obs_connected: self.obs_connected,
            obs_error: clone_opt(&self.obs_error),
            scheduler_running: self.scheduler_running,
            scheduler_state: self.scheduler_state.clone(),
            current_program_id: clone_opt(&self.current_program_id),
            current_program_name: clone_opt(&self.current_program_name),
            current_remaining_ms: self.current_remaining_ms,
            last_changed_at: self.last_changed_at,
            last_error: clone_opt(&self.last_error),
            paused: self.paused,
            ntp_offset_ms: self.ntp_offset_ms,
            ntp_server: clone_opt(&self.ntp_server),
            ntp_synced_at: self.ntp_synced_at,
            ntp_error: clone_opt(&self.ntp_error),
        }
    }
}

impl Default for AppStatus {
    fn default() -> (r: Self)
        ensures
            r@ == (StatusView {
                obs_connected: false,
                obs_error: None,
                scheduler_running: false,
                scheduler_state: Seq::empty(),
                current_program_id: None,
                current_program_name: None,
                current_remaining_ms: None,
                last_changed_at: None,
                last_error: None,
                paused: false,
                ntp_offset_ms: None,
                ntp_server: None,
                ntp_synced_at: None,
                ntp_error: None,
            }),
    {
        AppStatus {
            obs_connected: false,
            obs_error: None,
            scheduler_running: false,
            scheduler_state: String::new(),
            current_program_id: None,
            current_program_name: None,
            current_remaining_ms: None,
            last_changed_at: None,
            last_error: None,
            paused: false,
            ntp_offset_ms: None,
            ntp_server: None,
            ntp_synced_at: None,
            ntp_error: None,
        }
    }
}

} // verus!
