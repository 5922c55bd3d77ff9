//! OBS WebSocket 5 protocol.
//!
//! Drives the scene's *Media Source* by a small set of requests: `SetInputSettings`,
//! `TriggerMediaInputAction`, `SetMediaInputCursor`, `GetMediaInputStatus` and
//! `GetVersion`. The socket itself is the program's business; here is what goes over it
//! and what is made of it.

use vstd::prelude::*;

use crate::app_status::{AppStatus, StatusView};
use crate::config::ObsWsConfig;
use crate::text::fmt_u64;
#[allow(unused_imports)]
use crate::text;

pub mod auth;
pub mod codec;
pub mod messages;

verus! {

/// The shortest wait before connecting again.
pub const MIN_BACKOFF_MS: u64 = 500;

/// The longest one.
pub const MAX_BACKOFF_MS: u64 = 30_000;

/// How long to wait before connecting again.
#[derive(Debug, Clone, Copy)]
pub struct Backoff {
    pub wait_ms: u64,
}

/// The wait after one of `ms`.
pub open spec fn doubled(ms: u64) -> u64 {
    if 2 * ms < MAX_BACKOFF_MS {
        (2 * ms) as u64
    } else {
        MAX_BACKOFF_MS
    }
}

impl Backoff {
    /// Starts with the shortest wait.
    pub fn new() -> (r: Self)
        ensures
            r.wait_ms == MIN_BACKOFF_MS,
    {
        Backoff { wait_ms: MIN_BACKOFF_MS }
    }

    /// Starts over after a connection.
    pub fn reset(&mut self)
        ensures
            final(self).wait_ms == MIN_BACKOFF_MS,
    {
        self.wait_ms = MIN_BACKOFF_MS;
    }

    /// How long to wait now; the next wait is twice as long, up to the longest.
    pub fn take(&mut self) -> (r: u64)
        ensures
            r == old(self).wait_ms,
            final(self).wait_ms == doubled(old(self).wait_ms),
    {
        let now: u64 = self.wait_ms;
        self.wait_ms = if now < MAX_BACKOFF_MS / 2 {
            now * 2
        } else {
            MAX_BACKOFF_MS
        };
        now
    }
}

/// The waits never shrink while nothing connects, and stay between the shortest and
/// the longest.
pub proof fn backoff_grows_within_bounds(ms: u64)
    requires
        MIN_BACKOFF_MS <= ms <= MAX_BACKOFF_MS,
    ensures
        ms <= doubled(ms),
        MIN_BACKOFF_MS <= doubled(ms) <= MAX_BACKOFF_MS,
{
}

/// Where obs-websocket is.
pub open spec fn url_of(tls: bool, host: Seq<char>, port: u16) -> Seq<char> {
    (if tls {
        "wss://"@
    } else {
        "ws://"@
    }) + host + ":"@ + text::decimal(port as nat) + "/"@
}

/// Where obs-websocket is.
pub fn ws_url(cfg: &ObsWsConfig) -> (r: String)
    ensures
        r@ == url_of(cfg.tls, cfg.host@, cfg.port),
{
    let mut url = if cfg.tls {
        "wss://".to_string()
    } else {
        "ws://".to_string()
    };
    url.append(cfg.host.as_str());
    url.append(":");
    url.append(fmt_u64(cfg.port as u64).as_str());
    url.append("/");
    url
}

/// The status with the OBS link as given.
pub open spec fn with_link(s: StatusView, up: bool, error: Option<Seq<char>>) -> StatusView {
    StatusView { obs_connected: up, obs_error: error, ..s }
}

/// Shows that OBS is connected. The scheduler goes by it.
pub fn link_up(status: &mut AppStatus)
    ensures
        final(status)@ == with_link(old(status)@, true, None),
{
    status.obs_connected = true;
    status.obs_error = None;
}

/// Shows that the connection to OBS dropped.
pub fn link_dropped(status: &mut AppStatus)
    ensures
        final(status)@ == with_link(old(status)@, false, Some("obs websocket disconnected"@)),
{
    status.obs_connected = false;
    status.obs_error = Some("obs websocket disconnected".to_string());
}

/// Shows why OBS could not be connected to.
pub fn link_failed(status: &mut AppStatus, e: &str)
    ensures
        final(status)@ == with_link(old(status)@, false, Some(e@)),
{
    status.obs_connected = false;
    status.obs_error = Some(e.to_owned());
}

} // verus!
