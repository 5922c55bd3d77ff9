//! File bridge between the OBS script and the engine.
//!
//! The script writes its settings to `bridge.json` and reads `status.json` back, so
//! that it never has to start a process for routine work. Here is what the engine
//! takes over from the one and puts into the other.

use vstd::prelude::*;

use crate::app_status::AppStatus;
use crate::config::Config;
use crate::json::{merge_json, Json, JsonView, ObjectBuilder};
use crate::text::{clone_opt, fmt_u64, same, trim};
#[allow(unused_imports)]
use crate::{json, text};

verus! {

/// How often a new `bridge.json` is looked for.
pub const POLL_MS: u64 = 500;

/// How often `status.json` is written.
pub const STATUS_EVERY_MS: u64 = 1_000;

/// What the OBS script writes. Every field is optional, so that a partly filled file
/// still applies cleanly.
#[derive(Debug)]
pub struct BridgePayload {
    pub bootstrap_token: Option<String>,
    pub host: Option<String>,
    pub port: Option<u16>,
    pub password: Option<String>,
    pub tls: Option<bool>,
    pub target_input: Option<String>,
    /// Arm or disarm the scheduler (mirrors the script's checkbox).
    pub enabled: Option<bool>,
    /// Ask the engine to open the admin page.
    pub open_admin: Option<bool>,
    /// Set when the operator pressed Test Connection: take the credentials from the
    /// script although the panel has been in charge since the bootstrap.
    pub force: Option<bool>,
}

impl Default for BridgePayload {
    fn default() -> (r: Self)
        ensures
            r == (BridgePayload {
                bootstrap_token: None,
                host: None,
                port: None,
                password: None,
                tls: None,
                target_input: None,
                enabled: None,
                open_admin: None,
                force: None,
            }),
    {
        BridgePayload {
            bootstrap_token: None,
            host: None,
            port: None,
            password: None,
            tls: None,
            target_input: None,
            enabled: None,
            open_admin: None,
            force: None,
        }
    }
}

/// What is written back, so that the script can see that the engine is alive.
#[derive(Debug)]
pub struct BridgeStatus {
    /// Epoch ms, which the script holds against its own clock.
    pub ts: i64,
    pub engine_version: String,
    pub obs_connected: bool,
    pub obs_error: Option<String>,
    pub scheduler_running: bool,
    pub scheduler_state: String,
    pub current_program_name: Option<String>,
    pub http_port: u16,
}

// ----------------------------------------------------------------------- apply

/// Whether the operator asked for the script's settings.
pub open spec fn is_forced(p: BridgePayload) -> bool {
    p.force == Some(true)
}

/// Whether the script's credentials are taken over: the engine has none yet, or the
/// operator asked for it.
pub open spec fn takes_credentials(cfg: Config, p: BridgePayload) -> bool {
    !cfg.bootstrapped || is_forced(p)
}

/// The media source that the script names, where it is to be taken over: the panel has
/// nothing usable yet, or the operator asked for it.
pub open spec fn taken_target(cfg: Config, p: BridgePayload) -> Option<Seq<char>> {
    match p.target_input {
        Some(v) => {
            let candidate = text::trimmed(v@);
            let current = text::trimmed(cfg.target_input@);
            if candidate.len() > 0 && (current.len() == 0 || current == "main_media"@ || is_forced(
                p,
            )) && candidate != current {
                Some(candidate)
            } else {
                None
            }
        },
        None => None,
    }
}

/// The new text where there is one.
pub open spec fn text_or(new: Option<String>, present: Seq<char>) -> Seq<char> {
    match new {
        Some(s) => s@,
        None => present,
    }
}

/// Takes over what the OBS script left. True where anything was taken over, and the
/// configuration has to be saved.
pub fn apply(cfg: &mut Config, p: &BridgePayload) -> (r: bool)
    ensures
        ({
            let take = takes_credentials(*old(cfg), *p);
            &&& final(cfg).obs_ws.host@ == if take {
                text_or(p.host, old(cfg).obs_ws.host@)
            } else {
                old(cfg).obs_ws.host@
            }
            &&& final(cfg).obs_ws.port == match p.port {
                Some(v) if take => v,
                _ => old(cfg).obs_ws.port,
            }
            &&& text::opt_text(final(cfg).obs_ws.password) == match p.password {
                Some(v) if take => Some(v@),
                _ => text::opt_text(old(cfg).obs_ws.password),
            }
            &&& final(cfg).obs_ws.tls == match p.tls {
                Some(v) if take => v,
                _ => old(cfg).obs_ws.tls,
            }
            &&& text::opt_text(final(cfg).bootstrap_token) == match p.bootstrap_token {
                Some(v) if take && v@.len() > 0 => Some(v@),
                _ => text::opt_text(old(cfg).bootstrap_token),
            }
        }),
        final(cfg).bootstrapped,
        final(cfg).target_input@ == match taken_target(*old(cfg), *p) {
            Some(t) => t,
            None => old(cfg).target_input@,
        },
        final(cfg).scheduler.enabled == match p.enabled {
            Some(v) if is_forced(*p) => v,
            _ => old(cfg).scheduler.enabled,
        },
        final(cfg).scheduler == (crate::config::SchedulerConfig {
            enabled: final(cfg).scheduler.enabled,
            ..old(cfg).scheduler
        }),
        final(cfg).playlist == old(cfg).playlist,
        final(cfg).time_sync == old(cfg).time_sync,
        final(cfg).clock == old(cfg).clock,
        r == (takes_credentials(*old(cfg), *p) || taken_target(*old(cfg), *p) is Some || (is_forced(
            *p,
        ) && p.enabled is Some)),
{
    let force: bool = match p.force {
        Some(f) => f,
        None => false,
    };
    let mut changed: bool = false;

    if !cfg.bootstrapped || force {
        if let Some(h) = &p.host {
            cfg.obs_ws.host = h.clone();
        }
        if let Some(v) = p.port {
            cfg.obs_ws.port = v;
        }
        if let Some(v) = &p.password {
            cfg.obs_ws.password = Some(v.clone());
        }
        if let Some(v) = p.tls {
            cfg.obs_ws.tls = v;
        }
        if let Some(v) = &p.bootstrap_token {
            if v.as_str().unicode_len() > 0 {
                cfg.bootstrap_token = Some(v.clone());
            }
        }
        cfg.bootstrapped = true;
        changed = true;
    }
    if let Some(v) = &p.target_input {
        // The script's own default is a placeholder that rarely exists in OBS, so a real
        // choice is not overwritten by it.
        let candidate = trim(v.as_str());
        let current = trim(cfg.target_input.as_str());
        let panel_has_none: bool = current.as_str().unicode_len() == 0 || same(
            current.as_str(),
            "main_media",
        );
        if candidate.as_str().unicode_len() > 0 && (panel_has_none || force) && !same(
            candidate.as_str(),
            current.as_str(),
        ) {
            cfg.target_input = candidate;
            changed = true;
        }
    }
    if force {
        // The script's checkbox defaults to off, so it only counts on request.
        if let Some(v) = p.enabled {
            cfg.scheduler.enabled = v;
            changed = true;
        }
    }
    changed
}

/// Once the engine has been set up, the panel is in charge: without an explicit request
/// the script changes at most a media source that was never chosen.
pub proof fn the_panel_is_in_charge(cfg: Config, p: BridgePayload)
    requires
        cfg.bootstrapped,
        !is_forced(p),
        text::trimmed(cfg.target_input@).len() > 0,
        text::trimmed(cfg.target_input@) != "main_media"@,
    ensures
        !takes_credentials(cfg, p),
        taken_target(cfg, p) is None,
{
}

// ------------------------------------------------------------------ admin page

/// Whether the admin page is to be opened.
pub fn wants_admin(p: &BridgePayload) -> (r: bool)
    ensures
        r == (p.open_admin == Some(true)),
{
    match p.open_admin {
        Some(v) => v,
        None => false,
    }
}

/// Where the admin page is.
pub fn admin_url(http_port: u16) -> (r: String)
    ensures
        r@ == "http://127.0.0.1:"@ + text::decimal(http_port as nat) + "/admin"@,
{
    let mut url = "http://127.0.0.1:".to_string();
    url.append(fmt_u64(http_port as u64).as_str());
    url.append("/admin");
    url
}

/// A bridge file with the request for the admin page taken out, so that the page is
/// not opened again on every poll; `None` for a file that is no object.
pub fn without_admin_request(file: Json) -> (r: Option<Json>)
    ensures
        match r {
            Some(j) => file@ is Object && j@ == JsonView::Object(
                json::put(file@->Object_0, "open_admin"@, JsonView::Bool(false)),
            ),
            None => !(file@ is Object),
        },
{
    match &file {
        Json::Object(_) => {},
        _ => {
            return None;
        },
    }
    let b = ObjectBuilder::new().with_bool("open_admin", false);
    let ghost patch = b@;
    assert(patch =~= seq![("open_admin"@, JsonView::Bool(false))]);
    let ghost members = file@->Object_0;
    let merged = merge_json(file, &b.build());
    proof {
        reveal_with_fuel(json::merged_members, 3);
        reveal_with_fuel(json::merged, 3);
        let change = JsonView::Object(patch);
        let old_value = json::or_null(json::lookup(members, "open_admin"@));
        assert(json::merged(old_value, JsonView::Bool(false)) == JsonView::Bool(false));
        assert(json::merged_members(members, change, 0) == members);
        assert(change->Object_0[0] == ("open_admin"@, JsonView::Bool(false)));
        assert(merged@ == JsonView::Object(
            json::put(members, "open_admin"@, JsonView::Bool(false)),
        ));
    }
    Some(merged)
}

// ----------------------------------------------------------------------- files

/// Position of the newest of some files, the first of them where several are; `None`
/// where there are none.
pub fn newest(times: &Vec<i128>) -> (r: Option<usize>)
    ensures
        match r {
            Some(i) => {
                &&& i < times@.len()
                &&& forall|j: int| 0 <= j < times@.len() ==> #[trigger] times@[j] <= times@[i as int]
                &&& forall|j: int| 0 <= j < i ==> #[trigger] times@[j] < times@[i as int]
            },
            None => times@.len() == 0,
        },
{
    if times.len() == 0 {
        return None;
    }
    let mut best: usize = 0;
    let mut i: usize = 1;
    while i < times.len()
        invariant
            best < i <= times@.len(),
            forall|j: int| 0 <= j < i ==> #[trigger] times@[j] <= times@[best as int],
            forall|j: int| 0 <= j < best ==> #[trigger] times@[j] < times@[best as int],
        decreases times@.len() - i,
    {
        if times[i] > times[best] {
            best = i;
        }
        i = i + 1;
    }
    Some(best)
}

/// Whether a file of this time has not been applied yet.
pub fn is_fresh(last_seen: Option<i128>, time: i128) -> (r: bool)
    ensures
        r == match last_seen {
            Some(l) => time > l,
            None => true,
        },
{
    match last_seen {
        Some(l) => time > l,
        None => true,
    }
}

/// What goes into `status.json`.
pub fn bridge_status(
    status: &AppStatus,
    ts: i64,
    engine_version: &str,
    http_port: u16,
) -> (r: BridgeStatus)
    ensures
        r.ts == ts,
        r.engine_version@ == engine_version@,
        r.obs_connected == status.obs_connected,
        text::opt_text(r.obs_error) == text::opt_text(status.obs_error),
        r.scheduler_running == status.scheduler_running,
        r.scheduler_state@ == status.scheduler_state@,
        text::opt_text(r.current_program_name) == text::opt_text(status.current_program_name),
        r.http_port == http_port,
{
    BridgeStatus {
        ts,
        engine_version: engine_version.to_owned(),
        obs_connected: status.obs_connected,
        obs_error: clone_opt(&status.obs_error),
        scheduler_running: status.scheduler_running,
        scheduler_state: status.scheduler_state.clone(),
        current_program_name: clone_opt(&status.current_program_name),
        http_port,
    }
}

} // verus!
