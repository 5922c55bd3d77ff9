//! The engine's configuration: obs-websocket credentials, scheduler parameters
//! and the playlist.

use vstd::prelude::*;

use crate::json::Json;
use crate::text::clone_opt;

verus! {

/// Everything that `config.json` holds.
#[derive(Debug)]
pub struct Config {
    pub obs_ws: ObsWsConfig,
    /// Name of the OBS *Media Source* that the engine drives.
    pub target_input: String,
    pub scheduler: SchedulerConfig,
    pub playlist: PlaylistState,
    /// Shared secret issued by the OBS script on first launch; guards the
    /// endpoints that change anything.
    pub bootstrap_token: Option<String>,
    /// Whether the OBS script has handed its credentials over once.
    pub bootstrapped: bool,
    /// Where true time comes from.
    pub time_sync: TimeSyncConfig,
    /// Settings of the on-screen clock.
    pub clock: ClockConfig,
}

/// How to reach obs-websocket.
#[derive(Debug)]
pub struct ObsWsConfig {
    pub host: String,
    pub port: u16,
    pub password: Option<String>,
    /// Connect by `wss://`. Local installs rarely need it.
    pub tls: bool,
}

/// Parameters of the scheduler.
#[derive(Debug, Clone, Copy)]
pub struct SchedulerConfig {
    /// How early (ms) before a program's start the file is handed to OBS, so
    /// that the decoder is ready by the time of the cut.
    pub lead_in_ms: u64,
    /// Manual clock offset (ms) against an external time base.
    pub clock_offset_ms: i64,
    /// Whether the user has armed the scheduler.
    pub enabled: bool,
    /// What to do if a program's file is missing.
    pub on_missing_file: MissingFilePolicy,
}

/// What to do if a program's file is missing.
#[derive(Debug, Clone, Copy, PartialEq, Eq, Structural)]
pub enum MissingFilePolicy {
    /// Skip to the next valid program.
    SkipToNext,
    /// Freeze on the last frame and surface an error to the admin UI.
    HoldFrame,
    /// Stop until the user intervenes.
    StopScheduler,
}

/// The schedule.
#[derive(Debug)]
pub struct PlaylistState {
    pub items: Vec<ProgramEntry>,
    pub bumpers: Vec<BumperEntry>,
}

/// One row of the schedule.
#[derive(Debug)]
pub struct ProgramEntry {
    pub id: String,
    pub name: String,
    pub file_path: String,
    /// Absolute wall-clock start time in Unix epoch ms.
    pub start_at_ms: i64,
    /// The operator's estimate of how long the file runs.
    pub declared_duration_ms: u64,
    /// What OBS reported once the file had really played.
    pub detected_duration_ms: Option<u64>,
    pub kind: ProgramKind,
    pub notes: Option<String>,
}

/// What a program is for.
#[derive(Debug, Clone, Copy, PartialEq, Eq, Structural)]
pub enum ProgramKind {
    Primary,
    Interstitial,
    Standalone,
}

/// An interstitial that plays in the middle of a program.
#[derive(Debug)]
pub struct BumperEntry {
    pub id: String,
    pub target_program_id: String,
    /// Offset (ms) into the target program at which the bumper plays.
    pub at_into_program_ms: u64,
    pub content: ProgramEntry,
}

/// Which time servers to ask, and how often.
#[derive(Debug)]
pub struct TimeSyncConfig {
    pub enabled: bool,
    pub servers: Vec<String>,
    pub interval_min: u32,
}

/// Settings of the on-screen clock. The engine only carries them; the overlay
/// page reads them.
#[derive(Debug)]
pub struct ClockConfig {
    pub settings: Json,
}

impl Clone for ObsWsConfig {
    fn clone(&self) -> (r: Self)
        ensures
            r == *self,
    {
        ObsWsConfig {
            host: self.host.clone(),
            port: self.port,
            password: clone_opt(&self.password),
            tls: self.tls,
        }
    }
}

impl Clone for ProgramEntry {
    fn clone(&self) -> (r: Self)
        ensures
            r == *self,
    {
        ProgramEntry {
            id: self.id.clone(),
            name: self.name.clone(),
            file_path: self.file_path.clone(),
            start_at_ms: self.start_at_ms,
            declared_duration_ms: self.declared_duration_ms,
            detected_duration_ms: self.detected_duration_ms,
            kind: self.kind,
            notes: clone_opt(&self.notes),
        }
    }
}

impl Clone for BumperEntry {
    fn clone(&self) -> (r: Self)
        ensures
            r == *self,
    {
        BumperEntry {
            id: self.id.clone(),
            target_program_id: self.target_program_id.clone(),
            at_into_program_ms: self.at_into_program_ms,
            content: self.content.clone(),
        }
    }
}

impl Clone for ClockConfig {
    fn clone(&self) -> (r: Self)
        ensures
            r.settings@ == self.settings@,
    {
        ClockConfig { settings: self.settings.copy() }
    }
}

impl Clone for PlaylistState {
    fn clone(&self) -> (r: Self)
        ensures
            r.items@ == self.items@,
            r.bumpers@ == self.bumpers@,
    {
        PlaylistState { items: clone_items(&self.items), bumpers: clone_bumpers(&self.bumpers) }
    }
}

impl Clone for TimeSyncConfig {
    fn clone(&self) -> (r: Self)
        ensures
            r.enabled == self.enabled,
            r.servers@ == self.servers@,
            r.interval_min == self.interval_min,
    {
        let servers = self.servers.clone();
        assert(servers@ =~= self.servers@);
        TimeSyncConfig { enabled: self.enabled, servers, interval_min: self.interval_min }
    }
}

impl Clone for Config {
    fn clone(&self) -> (r: Self)
        ensures
            r.obs_ws == self.obs_ws,
            r.target_input == self.target_input,
            r.scheduler == self.scheduler,
            r.playlist.items@ == self.playlist.items@,
            r.playlist.bumpers@ == self.playlist.bumpers@,
            r.bootstrap_token == self.bootstrap_token,
            r.bootstrapped == self.bootstrapped,
            r.time_sync.enabled == self.time_sync.enabled,
            r.time_sync.servers@ == self.time_sync.servers@,
            r.time_sync.interval_min == self.time_sync.interval_min,
            r.clock.settings@ == self.clock.settings@,
    {
        Config {
            obs_ws: self.obs_ws.clone(),
            target_input: self.target_input.clone(),
            scheduler: self.scheduler,
            playlist: self.playlist.clone(),
            bootstrap_token: clone_opt(&self.bootstrap_token),
            bootstrapped: self.bootstrapped,
            time_sync: self.time_sync.clone(),
            clock: self.clock.clone(),
        }
    }
}

/// A copy of the rows.
pub fn clone_items(v: &Vec<ProgramEntry>) -> (r: Vec<ProgramEntry>)
    ensures
        r@ == v@,
{
    let r = v.clone();
    assert(r@ =~= v@);
    r
}

/// A copy of the bumpers.
pub fn clone_bumpers(v: &Vec<BumperEntry>) -> (r: Vec<BumperEntry>)
    ensures
        r@ == v@,
{
    let r = v.clone();
    assert(r@ =~= v@);
    r
}

/// The host obs-websocket listens on unless told otherwise.
pub fn default_obs_host() -> (r: String)
    ensures
        r@ == "127.0.0.1"@,
{
    "127.0.0.1".to_string()
}

/// The port obs-websocket listens on unless told otherwise.
pub fn default_obs_port() -> (r: u16)
    ensures
        r == 4455,
{
    4455
}

/// The media source name that is used unless told otherwise.
pub fn default_target_input() -> (r: String)
    ensures
        r@ == "main_media"@,
{
    "main_media".to_string()
}

/// The lead-in that is used unless told otherwise.
pub fn default_lead_in_ms() -> (r: u64)
    ensures
        r == 200,
{
    200
}

/// The time server of the National Time Service Centre.
pub fn default_time_server() -> (r: String)
    ensures
        r@ == "ntp.ntsc.ac.cn"@,
{
    "ntp.ntsc.ac.cn".to_string()
}

impl Default for MissingFilePolicy {
    fn default() -> (r: Self)
        ensures
            r == MissingFilePolicy::SkipToNext,
    {
        MissingFilePolicy::SkipToNext
    }
}

impl Default for ObsWsConfig {
    fn default() -> (r: Self)
        ensures
            r.host@ == "127.0.0.1"@,
            r.port == 4455,
            r.password is None,
            !r.tls,
    {
        ObsWsConfig {
            host: default_obs_host(),
            port: default_obs_port(),
            password: None,
            tls: false,
        }
    }
}

impl Default for SchedulerConfig {
    fn default() -> (r: Self)
        ensures
            r.lead_in_ms == 200,
            r.clock_offset_ms == 0,
            !r.enabled,
            r.on_missing_file == MissingFilePolicy::SkipToNext,
    {
        SchedulerConfig {
            lead_in_ms: default_lead_in_ms(),
            clock_offset_ms: 0,
            enabled: false,
            on_missing_file: MissingFilePolicy::SkipToNext,
        }
    }
}

impl Default for PlaylistState {
    fn default() -> (r: Self)
        ensures
            r.items@.len() == 0,
            r.bumpers@.len() == 0,
    {
        PlaylistState { items: Vec::new(), bumpers: Vec::new() }
    }
}

impl Default for TimeSyncConfig {
    fn default() -> (r: Self)
        ensures
            r.enabled,
            r.servers@.len() == 1,
            r.servers@[0]@ == "ntp.ntsc.ac.cn"@,
            r.interval_min == 60,
    {
        let mut servers: Vec<String> = Vec::new();
        servers.push(default_time_server());
        TimeSyncConfig { enabled: true, servers, interval_min: 60 }
    }
}

impl Default for ClockConfig {
    fn default() -> (r: Self)
        ensures
            r.settings@ == crate::json::JsonView::Null,
    {
        ClockConfig { settings: Json::Null }
    }
}

impl Default for Config {
    fn default() -> (r: Self)
        ensures
            r.obs_ws.host@ == "127.0.0.1"@,
            r.obs_ws.port == 4455,
            r.obs_ws.password is None,
            !r.obs_ws.tls,
            r.target_input@ == "main_media"@,
            r.scheduler.lead_in_ms == 200,
            r.scheduler.clock_offset_ms == 0,
            !r.scheduler.enabled,
            r.scheduler.on_missing_file == MissingFilePolicy::SkipToNext,
            r.playlist.items@.len() == 0,
            r.playlist.bumpers@.len() == 0,
            r.bootstrap_token is None,
            !r.bootstrapped,
            r.time_sync.enabled,
            r.time_sync.servers@.len() == 1,
            r.time_sync.servers@[0]@ == "ntp.ntsc.ac.cn"@,
            r.time_sync.interval_min == 60,
            r.clock.settings@ == crate::json::JsonView::Null,
    {
        Config {
            obs_ws: ObsWsConfig::default(),
            target_input: default_target_input(),
            scheduler: SchedulerConfig::default(),
            playlist: PlaylistState::default(),
            bootstrap_token: None,
            bootstrapped: false,
            time_sync: TimeSyncConfig::default(),
            clock: ClockConfig::default(),
        }
    }
}

} // verus!
