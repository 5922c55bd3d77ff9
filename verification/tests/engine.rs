use tvbs_engine::app_status::AppStatus;
use tvbs_engine::bridge::{
    admin_url, apply, bridge_status, is_fresh, newest, wants_admin, without_admin_request,
    BridgePayload,
};
use tvbs_engine::config::Config;
use tvbs_engine::embedded::{dist, DistAssets};
use tvbs_engine::json::{merge_json, Json, JsonNumber, ObjectBuilder};
use tvbs_engine::text::{fmt_padded, parse_u64};
use tvbs_engine::{
    config_home, config_path, set_config_path, ConfigHome, ConfigPath, ControlCommand, NotifyKind,
};

fn some(s: &str) -> Option<String> {
    Some(s.to_string())
}

// ----------------------------------------------------------------------- bridge

#[test]
fn the_first_bridge_file_hands_the_credentials_over() {
    let mut cfg = Config::default();
    let p = BridgePayload {
        bootstrap_token: some("t"),
        host: some("h"),
        port: Some(1),
        password: some("pw"),
        tls: Some(true),
        target_input: some(" cam "),
        enabled: Some(true),
        open_admin: None,
        force: None,
    };
    assert!(apply(&mut cfg, &p));
    assert!(cfg.bootstrapped);
    assert_eq!(cfg.bootstrap_token.as_deref(), Some("t"));
    assert_eq!(cfg.obs_ws.host, "h");
    assert_eq!(cfg.obs_ws.port, 1);
    assert_eq!(cfg.obs_ws.password.as_deref(), Some("pw"));
    assert!(cfg.obs_ws.tls);
    assert_eq!(cfg.target_input, "cam");
    // The checkbox only counts on request.
    assert!(!cfg.scheduler.enabled);
}

#[test]
fn later_bridge_files_leave_the_panel_in_charge() {
    let mut cfg = Config::default();
    cfg.bootstrapped = true;
    cfg.target_input = "cam".to_string();
    let mut p = BridgePayload::default();
    p.host = some("h");
    p.bootstrap_token = some("");
    p.target_input = some("main_media");
    p.enabled = Some(true);
    assert!(!apply(&mut cfg, &p));
    assert_eq!(cfg.obs_ws.host, "127.0.0.1");
    assert_eq!(cfg.target_input, "cam");
    p.force = Some(true);
    assert!(apply(&mut cfg, &p));
    assert_eq!(cfg.obs_ws.host, "h");
    assert_eq!(cfg.target_input, "main_media");
    assert!(cfg.scheduler.enabled);
    assert!(cfg.bootstrap_token.is_none());
}

#[test]
fn a_source_that_was_never_chosen_is_taken_over() {
    let mut cfg = Config::default();
    cfg.bootstrapped = true;
    let mut p = BridgePayload::default();
    p.target_input = some("cam");
    assert!(apply(&mut cfg, &p));
    assert_eq!(cfg.target_input, "cam");
    assert!(!apply(&mut cfg, &p));
    p.target_input = some("   ");
    assert!(!apply(&mut cfg, &p));
}

#[test]
fn the_admin_page_is_opened_once() {
    let mut p = BridgePayload::default();
    assert!(!wants_admin(&p));
    p.open_admin = Some(true);
    assert!(wants_admin(&p));
    assert_eq!(admin_url(8789), "http://127.0.0.1:8789/admin");
    let file = ObjectBuilder::new().with_bool("open_admin", true).with_text("host", "h").build();
    let j = without_admin_request(file).unwrap();
    assert_eq!(j.get("open_admin").and_then(|v| v.as_bool()), Some(false));
    assert_eq!(j.get("host").and_then(|v| v.as_text()), Some("h"));
    let j = without_admin_request(ObjectBuilder::new().build()).unwrap();
    assert_eq!(j.get("open_admin").and_then(|v| v.as_bool()), Some(false));
    assert!(without_admin_request(Json::Null).is_none());
}

#[test]
fn the_newest_file_counts() {
    assert_eq!(newest(&vec![]), None);
    assert_eq!(newest(&vec![3, 9, 9, 1]), Some(1));
    assert!(is_fresh(None, 5));
    assert!(is_fresh(Some(4), 5));
    assert!(!is_fresh(Some(5), 5));
}

#[test]
fn the_status_file_mirrors_the_engine() {
    let mut st = AppStatus::default();
    st.obs_connected = true;
    st.current_program_name = some("news");
    let b = bridge_status(&st, 42, "1.0", 8789);
    assert_eq!(b.ts, 42);
    assert_eq!(b.engine_version, "1.0");
    assert!(b.obs_connected);
    assert_eq!(b.current_program_name.as_deref(), Some("news"));
    assert_eq!(b.http_port, 8789);
    assert_eq!(b.scheduler_state, st.scheduler_state);
}

// ------------------------------------------------------------------------- json

fn num(n: u64) -> Json {
    Json::Number(JsonNumber::Unsigned(n))
}

#[test]
fn merging_goes_member_by_member() {
    let base = ObjectBuilder::new()
        .with("a", num(1))
        .with("o", ObjectBuilder::new().with("x", num(1)).with("y", num(2)).build())
        .build();
    let patch = ObjectBuilder::new()
        .with("o", ObjectBuilder::new().with("y", num(3)).with("z", num(4)).build())
        .with("n", Json::Null)
        .build();
    let j = merge_json(base, &patch);
    let n = |j: &Json, k: &str| j.get(k).and_then(|v| v.as_unsigned());
    assert_eq!(n(&j, "a"), Some(1));
    let o = j.get("o").unwrap();
    assert_eq!((n(o, "x"), n(o, "y"), n(o, "z")), (Some(1), Some(3), Some(4)));
    assert!(matches!(j.get("n"), Some(Json::Null)));
    assert!(matches!(merge_json(num(1), &Json::Null), Json::Null));
    assert!(merge_json(num(1), &patch).get("o").is_some());
}

// ------------------------------------------------------------------------- text

#[test]
fn numbers_are_read_as_they_are_written() {
    assert_eq!(parse_u64("18446744073709551615"), Some(u64::MAX));
    assert_eq!(parse_u64("18446744073709551616"), None);
    assert_eq!(parse_u64("+7"), Some(7));
    assert_eq!(parse_u64("007"), Some(7));
    assert_eq!(parse_u64("+"), None);
    assert_eq!(parse_u64(""), None);
    assert_eq!(parse_u64("-1"), None);
    assert_eq!(parse_u64(" 1"), None);
    assert_eq!(fmt_padded(7, 3), "007");
    assert_eq!(fmt_padded(1234, 3), "1234");
}

// ----------------------------------------------------------------------- engine

#[test]
fn the_first_configuration_path_counts() {
    let mut cell = ConfigPath::default();
    assert_eq!(config_path(&cell), "config.json");
    set_config_path(&mut cell, "/a/config.json".to_string());
    set_config_path(&mut cell, "/b/config.json".to_string());
    assert_eq!(config_path(&cell), "/a/config.json");
}

#[test]
fn the_configuration_lives_where_it_can_be_written() {
    assert_eq!(config_home(true, false, true), ConfigHome::Given);
    assert_eq!(config_home(false, true, true), ConfigHome::Portable);
    assert_eq!(config_home(false, false, true), ConfigHome::User);
    assert_eq!(config_home(false, false, false), ConfigHome::Portable);
}

#[test]
fn defaults_are_usable() {
    let cfg = Config::default();
    assert_eq!(cfg.obs_ws.port, 4455);
    assert_eq!(cfg.target_input, "main_media");
    assert_eq!(cfg.scheduler.lead_in_ms, 200);
    assert_eq!(cfg.time_sync.servers, vec!["ntp.ntsc.ac.cn"]);
    assert_eq!(dist(), DistAssets);
    assert_ne!(ControlCommand::Pause, ControlCommand::Resume);
    assert_ne!(NotifyKind::PlaylistChanged, NotifyKind::ObsStatusChanged);
}
