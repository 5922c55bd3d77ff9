//! The decisions of a TV-style broadcast scheduler for OBS Studio.
//!
//! A station has a *playlist*: rows with a file, a start and a length, and bumpers that
//! play in the middle of a row. The engine drives one OBS *Media Source* through it by
//! the clock: it hands the next file to OBS a lead-in before its start, cuts to it on
//! time, inserts the bumpers, and survives files that are missing, too short or late.
//!
//! This crate decides; it never does I/O. What has to be done is returned as a value (a
//! step, a message, a plan), and what came of it is handed back as a value. `tick` is
//! the heart of it, `playlist` the schedule that it goes by, `scheduler` the state
//! machine that it moves. Around them stand the transport panel (`transport`), the
//! watchdog (`watch`), bumpers (`interrupt`), the station clock (`ntp`), the OBS
//! protocol (`obs_ws`), the HTTP endpoints (`server`), the script bridge (`bridge`) and
//! the preset library (`presets`). `laws` says, and proves, what all of it is for.

use vstd::prelude::*;

pub mod app_status;
pub mod bridge;
pub mod clock;
pub mod config;
pub mod cut;
pub mod embedded;
pub mod interrupt;
pub mod json;
pub mod laws;
pub mod media_probe;
pub mod millis;
pub mod ntp;
pub mod obs_ws;
pub mod order;
pub mod paths;
pub mod playlist;
pub mod presets;
pub mod run_loop;
pub mod scheduler;
pub mod seqs;
pub mod server;
pub mod text;
pub mod tick;
pub mod transport;
pub mod watch;

verus! {

/// What the transport buttons of the admin page ask the scheduler to do.
#[derive(Debug, Clone, Copy, PartialEq, Eq, Structural)]
pub enum ControlCommand {
    /// Freeze the timeline and pause the media source in OBS.
    Pause,
    /// Undo `Pause`: resume OBS playback and re-anchor the end time.
    Resume,
    /// Cut to the next program immediately, discarding the rest of this one.
    Next,
    /// Read the configuration again and re-anchor the timeline to now.
    Reload,
}

/// What open pages are told of.
#[derive(Debug, Clone, Copy, PartialEq, Eq, Structural)]
pub enum NotifyKind {
    PlaylistChanged,
    SchedulerStateChanged,
    ObsStatusChanged,
}

/// Where the configuration in use is. It is resolved once, at startup.
#[derive(Debug)]
pub struct ConfigPath {
    path: Option<String>,
}

impl View for ConfigPath {
    type V = Option<Seq<char>>;

    closed spec fn view(&self) -> Option<Seq<char>> {
        text::opt_text(self.path)
    }
}

impl Default for ConfigPath {
    fn default() -> (r: Self)
        ensures
            r@ is None,
    {
        ConfigPath { path: None }
    }
}

/// Sets the path of the configuration. The first call counts; later ones change
/// nothing.
pub fn set_config_path(cell: &mut ConfigPath, path: String)
    ensures
        final(cell)@ == match old(cell)@ {
            Some(p) => Some(p),
            None => Some(path@),
        },
{
    if cell.path.is_none() {
        cell.path = Some(path);
    }
}

/// The path of the configuration; `config.json` where it was never set.
pub fn config_path(cell: &ConfigPath) -> (r: String)
    ensures
        r@ == match cell@ {
            Some(p) => p,
            None => "config.json"@,
        },
{
    match &cell.path {
        Some(p) => p.clone(),
        None => "config.json".to_string(),
    }
}

/// Where the configuration is kept.
#[derive(Debug, Clone, Copy, PartialEq, Eq, Structural)]
pub enum ConfigHome {
    /// Where the command line says.
    Given,
    /// Beside the program.
    Portable,
    /// In the user's own directory.
    User,
}

/// Decides where the configuration is kept: where the command line says; beside the
/// program, if that can be written to; else in the user's directory, if there is one.
pub fn config_home(given: bool, writable: bool, has_user_dir: bool) -> (r: ConfigHome)
    ensures
        r == (if given {
            ConfigHome::Given
        } else if !writable && has_user_dir {
            ConfigHome::User
        } else {
            ConfigHome::Portable
        }),
{
    if given {
        ConfigHome::Given
    } else if !writable && has_user_dir {
        ConfigHome::User
    } else {
        ConfigHome::Portable
    }
}

} // verus!
