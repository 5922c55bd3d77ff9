//! The handshake between the OBS plugin and the engine: it hands over the OBS
//! credentials and the token that later calls have to bring.

use vstd::prelude::*;

use super::{ok_answer, Refusal, UNAUTHORIZED};
use crate::config::{Config, MissingFilePolicy};
use crate::json::Json;
use crate::text::same;
#[allow(unused_imports)]
use crate::{config, server, text};

verus! {

/// What the plugin hands over.
#[derive(Debug)]
pub struct BootstrapPayload {
    /// Shared secret. Where the engine has none yet, any non-empty value is accepted;
    /// later calls have to match it.
    pub bootstrap_token: String,
    pub host: String,
    pub port: u16,
    pub password: Option<String>,
    pub tls: bool,
    pub target_input: String,
    /// Scheduler settings that the admin panel can save in one call.
    pub scheduler: Option<SchedulerPatch>,
}

/// Scheduler settings, each of them optional.
#[derive(Debug, Clone, Copy)]
pub struct SchedulerPatch {
    pub lead_in_ms: Option<u64>,
    pub clock_offset_ms: Option<i64>,
    pub on_missing_file: Option<MissingFilePolicy>,
}

impl Default for SchedulerPatch {
    fn default() -> (r: Self)
        ensures
            r == (SchedulerPatch {
                lead_in_ms: None,
                clock_offset_ms: None,
                on_missing_file: None,
            }),
    {
        SchedulerPatch { lead_in_ms: None, clock_offset_ms: None, on_missing_file: None }
    }
}

/// The new value where there is one.
pub open spec fn or_keep<T>(new: Option<T>, present: T) -> T {
    match new {
        Some(v) => v,
        None => present,
    }
}

/// The settings with a patch applied.
pub open spec fn patched(
    s: config::SchedulerConfig,
    p: Option<SchedulerPatch>,
) -> config::SchedulerConfig {
    match p {
        Some(p) => config::SchedulerConfig {
            lead_in_ms: or_keep(p.lead_in_ms, s.lead_in_ms),
            clock_offset_ms: or_keep(p.clock_offset_ms, s.clock_offset_ms),
            on_missing_file: or_keep(p.on_missing_file, s.on_missing_file),
            ..s
        },
        None => s,
    }
}

/// Whether a handshake with this token is accepted.
pub open spec fn token_fits(issued: Option<Seq<char>>, brought: Seq<char>) -> bool {
    match issued {
        Some(t) => t == brought,
        None => brought.len() > 0,
    }
}

/// Carries the handshake out: keeps the credentials, and the token where none was
/// issued before.
pub fn bootstrap(cfg: &mut Config, payload: BootstrapPayload) -> (r: Result<Json, Refusal>)
    ensures
        match r {
            Ok(j) => {
                &&& token_fits(text::opt_text(old(cfg).bootstrap_token), payload.bootstrap_token@)
                &&& j@ == server::ok_view(Seq::empty())
                &&& text::opt_text(final(cfg).bootstrap_token) == Some(payload.bootstrap_token@)
                &&& final(cfg).obs_ws == (config::ObsWsConfig {
                    host: payload.host,
                    port: payload.port,
                    password: payload.password,
                    tls: payload.tls,
                })
                &&& final(cfg).target_input == payload.target_input
                &&& final(cfg).scheduler == patched(old(cfg).scheduler, payload.scheduler)
                &&& final(cfg).playlist == old(cfg).playlist
                &&& final(cfg).bootstrapped == old(cfg).bootstrapped
                &&& final(cfg).time_sync == old(cfg).time_sync
                &&& final(cfg).clock == old(cfg).clock
            },
            Err(e) => {
                &&& !token_fits(text::opt_text(old(cfg).bootstrap_token), payload.bootstrap_token@)
                &&& e.status == UNAUTHORIZED
                &&& e.message@ == "bad bootstrap token"@
                &&& *final(cfg) == *old(cfg)
            },
        },
{
    let fits: bool = match &cfg.bootstrap_token {
        Some(expected) => same(expected.as_str(), payload.bootstrap_token.as_str()),
        None => payload.bootstrap_token.as_str().unicode_len() > 0,
    };
    if !fits {
        return Err(
            Refusal { status: UNAUTHORIZED, message: "bad bootstrap token".to_string() },
        );
    }
    if cfg.bootstrap_token.is_none() {
        cfg.bootstrap_token = Some(payload.bootstrap_token);
    }
    cfg.obs_ws.host = payload.host;
    cfg.obs_ws.port = payload.port;
    cfg.obs_ws.password = payload.password;
    cfg.obs_ws.tls = payload.tls;
    cfg.target_input = payload.target_input;
    if let Some(s) = payload.scheduler {
        if let Some(v) = s.lead_in_ms {
            cfg.scheduler.lead_in_ms = v;
        }
        if let Some(v) = s.clock_offset_ms {
            cfg.scheduler.clock_offset_ms = v;
        }
        if let Some(v) = s.on_missing_file {
            cfg.scheduler.on_missing_file = v;
        }
    }
    let b = ok_answer();
    assert(b@ =~= seq![("ok"@, crate::json::JsonView::Bool(true))] + Seq::empty());
    Ok(b.build())
}

/// The token of the first handshake is the only one that later ones are accepted with,
/// and the one that writes have to bring.
pub proof fn the_first_token_stays(first: Seq<char>, later: Seq<char>, write: Option<Seq<char>>)
    requires
        token_fits(None, first),
    ensures
        token_fits(Some(first), later) <==> later == first,
        server::admitted(Some(first), write) <==> write == Some(first),
{
}

} // verus!
