use tvbs_engine::config::{BumperEntry, Config, MissingFilePolicy, ProgramEntry, ProgramKind};
use tvbs_engine::json::Json;
use tvbs_engine::server::bootstrap::{bootstrap, BootstrapPayload, SchedulerPatch};
use tvbs_engine::server::browse::{
    browse_plan, drive_candidates, ext_of, invalid_listing, listing, roots_listing, split_name,
    BrowsePlan, BrowseQuery, DirItem,
};
use tvbs_engine::server::health::healthz;
use tvbs_engine::server::schedule_api::{
    delete_item, enable_scheduler, obs_inputs, push_value, reorder, snapshot_value, start_scheduler,
    stat_paths, upsert_item, verify, DeleteItem, EnableScheduler, ReorderPayload, StatPayload,
    UpsertItem,
};
use tvbs_engine::server::upload::{
    candidate_name, check_upload, hex_val, media_dir, percent_decode, stored_path, unique_step,
    upload_answer, upload_media, UniqueStep,
};
use tvbs_engine::server::{asset_path, mime_for, require_token, Refusal};

fn row(id: &str, start: i64, dur: u64) -> ProgramEntry {
    ProgramEntry {
        id: id.to_string(),
        name: id.to_string(),
        file_path: format!("/media/{id}.mp4"),
        start_at_ms: start,
        declared_duration_ms: dur,
        detected_duration_ms: None,
        kind: ProgramKind::Primary,
        notes: None,
    }
}

fn item(id: &str, start: i64) -> UpsertItem {
    UpsertItem {
        id: id.to_string(),
        name: format!("new {id}"),
        file_path: "/f".to_string(),
        start_at_ms: start,
        declared_duration_ms: 5,
        detected_duration_ms: None,
        kind: ProgramKind::Standalone,
        notes: None,
    }
}

fn ids(cfg: &Config) -> Vec<String> {
    cfg.playlist.items.iter().map(|p| p.id.clone()).collect()
}

fn starts(cfg: &Config) -> Vec<i64> {
    cfg.playlist.items.iter().map(|p| p.start_at_ms).collect()
}

fn text(j: &Json, key: &str) -> String {
    j.get(key).and_then(|v| v.as_text()).unwrap_or("?").to_string()
}

fn number(j: &Json, key: &str) -> u64 {
    j.get(key).and_then(|v| v.as_unsigned()).unwrap_or(u64::MAX)
}

fn flag(j: &Json, key: &str) -> Option<bool> {
    j.get(key).and_then(|v| v.as_bool())
}

fn names(j: &Json, key: &str) -> Vec<String> {
    match j.get(key) {
        Some(Json::Array(v)) => v
            .iter()
            .map(|e| match e {
                Json::Text(t) => t.clone(),
                other => text(other, "name"),
            })
            .collect(),
        _ => panic!("no list"),
    }
}

fn refused<T>(r: Result<T, Refusal>, status: u16, message: &str) {
    match r {
        Err(e) => {
            assert_eq!(e.status, status);
            assert_eq!(e.message, message);
        }
        Ok(_) => panic!("not refused"),
    }
}

const NO_TOKEN: &str = "missing or invalid X-Bootstrap-Token";

#[test]
fn writes_have_to_bring_the_token() {
    let issued = Some("secret".to_string());
    assert!(require_token(&issued, Some("secret")).is_ok());
    refused(require_token(&issued, Some("Secret")), 401, NO_TOKEN);
    refused(require_token(&issued, None), 401, NO_TOKEN);
    assert!(require_token(&None, None).is_ok());
    assert!(require_token(&Some("".to_string()), Some("x")).is_ok());
}

#[test]
fn a_refused_write_changes_nothing() {
    let mut cfg = Config::default();
    cfg.bootstrap_token = Some("t".to_string());
    cfg.playlist.items.push(row("a", 5, 10));
    refused(upsert_item(&mut cfg, None, item("b", 1)), 401, NO_TOKEN);
    refused(delete_item(&mut cfg, None, &DeleteItem { id: "a".to_string() }), 401, NO_TOKEN);
    let order = ReorderPayload { ids: vec![], base_start_ms: Some(1), from_now: false };
    refused(reorder(&mut cfg, Some("x"), &order, 0), 401, NO_TOKEN);
    refused(start_scheduler(&mut cfg, Some("x"), &order, 0), 401, NO_TOKEN);
    refused(enable_scheduler(&mut cfg, None, EnableScheduler { enabled: true }), 401, NO_TOKEN);
    refused(upload_media(&cfg.bootstrap_token, None, "a.mp4", 1), 401, NO_TOKEN);
    assert_eq!(ids(&cfg), vec!["a"]);
    assert_eq!(starts(&cfg), vec![5]);
    assert!(!cfg.scheduler.enabled);
}

#[test]
fn upserts_add_replace_and_sort() {
    let mut cfg = Config::default();
    cfg.playlist.items.push(row("a", 10, 1));
    cfg.playlist.items.push(row("b", 20, 1));
    let j = upsert_item(&mut cfg, None, item("c", 15)).unwrap();
    assert_eq!(flag(&j, "ok"), Some(true));
    assert_eq!(text(&j, "id"), "c");
    assert_eq!(ids(&cfg), vec!["a", "c", "b"]);
    upsert_item(&mut cfg, None, item("a", 20)).unwrap();
    assert_eq!(ids(&cfg), vec!["c", "a", "b"]);
    assert_eq!(cfg.playlist.items[1].name, "new a");
}

#[test]
fn deleting_takes_the_bumpers_along() {
    let mut cfg = Config::default();
    cfg.playlist.items.push(row("a", 10, 1));
    cfg.playlist.items.push(row("b", 20, 1));
    let bumper = |id: &str, target: &str, content: &str| BumperEntry {
        id: id.to_string(),
        target_program_id: target.to_string(),
        at_into_program_ms: 0,
        content: row(content, 0, 1),
    };
    cfg.playlist.bumpers.push(bumper("k1", "a", "x"));
    cfg.playlist.bumpers.push(bumper("k2", "b", "a"));
    cfg.playlist.bumpers.push(bumper("k3", "b", "x"));
    let j = delete_item(&mut cfg, None, &DeleteItem { id: "a".to_string() }).unwrap();
    assert_eq!(flag(&j, "ok"), Some(true));
    assert_eq!(ids(&cfg), vec!["b"]);
    assert_eq!(cfg.playlist.bumpers.len(), 1);
    assert_eq!(cfg.playlist.bumpers[0].id, "k3");
}

#[test]
fn reordering_lays_the_rows_back_to_back() {
    let mut cfg = Config::default();
    for (i, id) in ["a", "b", "c", "d"].iter().enumerate() {
        cfg.playlist.items.push(row(id, 1_000 * i as i64, 100));
    }
    cfg.playlist.items[2].detected_duration_ms = Some(70);
    let mut p = ReorderPayload {
        ids: vec!["c".to_string(), "x".to_string(), "a".to_string()],
        base_start_ms: None,
        from_now: false,
    };
    let j = reorder(&mut cfg, None, &p, 50).unwrap();
    assert_eq!(ids(&cfg), vec!["c", "a", "b", "d"]);
    assert_eq!(starts(&cfg), vec![0, 70, 170, 270]);
    assert_eq!(number(&j, "items"), 4);
    assert_eq!(number(&j, "ends_at_ms"), 370);
    p.base_start_ms = Some(-10);
    reorder(&mut cfg, None, &p, 50).unwrap();
    assert_eq!(starts(&cfg)[0], -10);
    p.from_now = true;
    reorder(&mut cfg, None, &p, 50).unwrap();
    assert_eq!(starts(&cfg)[0], 1_050);
}

#[test]
fn a_new_order_keeps_the_start_of_the_day() {
    let mut cfg = Config::default();
    cfg.playlist.items.push(row("a", 1_000, 1_000));
    cfg.playlist.items.push(row("b", 2_000, 1_000));
    let p = ReorderPayload {
        ids: vec!["b".to_string(), "a".to_string()],
        base_start_ms: None,
        from_now: false,
    };
    let j = reorder(&mut cfg, None, &p, 99).unwrap();
    assert_eq!(ids(&cfg), vec!["b", "a"]);
    assert_eq!(starts(&cfg), vec![1_000, 2_000]);
    assert_eq!(number(&j, "items"), 2);
    assert_eq!(number(&j, "ends_at_ms"), 3_000);
}

#[test]
fn rows_that_are_not_named_stay_behind_the_named() {
    let mut cfg = Config::default();
    for id in ["x", "a", "b"] {
        cfg.playlist.items.push(row(id, 0, 1));
    }
    // Named twice: the later place counts.
    let p = ReorderPayload {
        ids: vec!["b".to_string(), "a".to_string(), "a".to_string(), "b".to_string()],
        base_start_ms: Some(0),
        from_now: false,
    };
    reorder(&mut cfg, None, &p, 0).unwrap();
    assert_eq!(ids(&cfg), vec!["a", "b", "x"]);
}

#[test]
fn an_empty_list_can_be_reordered() {
    let mut cfg = Config::default();
    let p = ReorderPayload { ids: vec![], base_start_ms: None, from_now: false };
    let j = reorder(&mut cfg, None, &p, 77).unwrap();
    assert_eq!(number(&j, "items"), 0);
    assert_eq!(number(&j, "ends_at_ms"), 77);
}

#[test]
fn starting_arms_and_lays_out_from_now() {
    let mut cfg = Config::default();
    cfg.playlist.items.push(row("a", 5, 100));
    cfg.playlist.items.push(row("b", 6, 0));
    let mut p = ReorderPayload { ids: vec![], base_start_ms: Some(0), from_now: false };
    let j = start_scheduler(&mut cfg, None, &p, 10_000).unwrap();
    assert_eq!(flag(&j, "enabled"), Some(true));
    assert!(cfg.scheduler.enabled);
    assert_eq!(starts(&cfg), vec![11_000, 11_100]);
    p.base_start_ms = Some(500);
    p.ids = vec!["b".to_string()];
    start_scheduler(&mut cfg, None, &p, 10_000).unwrap();
    assert_eq!(ids(&cfg), vec!["b", "a"]);
    assert_eq!(starts(&cfg), vec![500, 501]);
}

#[test]
fn the_scheduler_is_switched() {
    let mut cfg = Config::default();
    let j = enable_scheduler(&mut cfg, None, EnableScheduler { enabled: true }).unwrap();
    assert_eq!(flag(&j, "enabled"), Some(true));
    assert!(cfg.scheduler.enabled);
    enable_scheduler(&mut cfg, None, EnableScheduler { enabled: false }).unwrap();
    assert!(!cfg.scheduler.enabled);
}

fn hand_over(token: &str) -> BootstrapPayload {
    BootstrapPayload {
        bootstrap_token: token.to_string(),
        host: "h".to_string(),
        port: 9,
        password: Some("pw".to_string()),
        tls: true,
        target_input: "src".to_string(),
        scheduler: None,
    }
}

#[test]
fn the_first_handshake_sets_the_token() {
    let mut cfg = Config::default();
    refused(bootstrap(&mut cfg, hand_over("")), 401, "bad bootstrap token");
    assert_eq!(cfg.obs_ws.host, "127.0.0.1");
    let j = bootstrap(&mut cfg, hand_over("t")).unwrap();
    assert_eq!(flag(&j, "ok"), Some(true));
    assert_eq!(cfg.bootstrap_token.as_deref(), Some("t"));
    assert_eq!(cfg.obs_ws.port, 9);
    assert!(cfg.obs_ws.tls);
    assert_eq!(cfg.target_input, "src");
    refused(bootstrap(&mut cfg, hand_over("u")), 401, "bad bootstrap token");
    let mut again = hand_over("t");
    again.host = "other".to_string();
    again.scheduler = Some(SchedulerPatch {
        lead_in_ms: Some(9),
        clock_offset_ms: None,
        on_missing_file: Some(MissingFilePolicy::HoldFrame),
    });
    cfg.scheduler.clock_offset_ms = 3;
    bootstrap(&mut cfg, again).unwrap();
    assert_eq!(cfg.obs_ws.host, "other");
    assert_eq!(cfg.scheduler.lead_in_ms, 9);
    assert_eq!(cfg.scheduler.clock_offset_ms, 3);
    assert_eq!(cfg.scheduler.on_missing_file, MissingFilePolicy::HoldFrame);
    assert!(SchedulerPatch::default().lead_in_ms.is_none());
}

#[test]
fn files_have_their_types() {
    assert_eq!(mime_for("a/index.html"), "text/html; charset=utf-8");
    assert_eq!(mime_for("x.htm"), "text/html; charset=utf-8");
    assert_eq!(mime_for("x.mjs"), "text/javascript; charset=utf-8");
    assert_eq!(mime_for("x.js"), "text/javascript; charset=utf-8");
    assert_eq!(mime_for("x.css"), "text/css; charset=utf-8");
    assert_eq!(mime_for("x.json"), "application/json; charset=utf-8");
    assert_eq!(mime_for("x.svg"), "image/svg+xml");
    assert_eq!(mime_for("x.png"), "image/png");
    assert_eq!(mime_for("x.ico"), "image/x-icon");
    assert_eq!(mime_for("x.PNG"), "application/octet-stream");
    assert_eq!(asset_path(""), "index.html");
    assert_eq!(asset_path("//"), "index.html");
    assert_eq!(asset_path("/css/"), "css/index.html");
    assert_eq!(asset_path("/css/a.css"), "css/a.css");
    let j = healthz("1.2.3");
    assert_eq!(text(&j, "service"), "tv-obsbroadcast-scheduler");
    assert_eq!(text(&j, "version"), "1.2.3");
}

#[test]
fn paths_are_sorted_into_found_and_missing() {
    let p = StatPayload { paths: vec!["/a".to_string(), " ".to_string(), "/b".to_string()] };
    let j = stat_paths(p, &vec![true, true, false]);
    assert_eq!(names(&j, "existing"), vec!["/a"]);
    assert_eq!(names(&j, "missing"), vec![" ", "/b"]);
    let mut cfg = Config::default();
    cfg.playlist.items.push(row("a", 0, 1));
    cfg.playlist.items.push(row("b", 0, 1));
    cfg.playlist.items.push(row("c", 0, 1));
    cfg.playlist.items[2].file_path = "\t".to_string();
    assert_eq!(names(&verify(&cfg, &vec![true, false, true]), "missing"), vec!["b", "c"]);
}

#[test]
fn snapshots_show_state_and_settings() {
    let mut cfg = Config::default();
    cfg.playlist.items.push(row("a", 0, 1));
    cfg.bootstrap_token = Some("t".to_string());
    let s = |t: &str| Json::Text(t.to_string());
    let j = snapshot_value(&cfg, s("st"), s("sc"), s("ow"));
    assert_eq!(text(&j, "kind"), "snapshot");
    assert_eq!(text(&j, "scheduler"), "st");
    assert_eq!(text(&j, "scheduler_cfg"), "sc");
    assert_eq!(text(&j, "obs_ws"), "ow");
    assert_eq!(text(&j, "target_input"), "main_media");
    assert_eq!(text(&j, "bootstrap_token"), "t");
    assert_eq!(number(&j, "playlist_size"), 1);
    assert_eq!(number(&j, "bumpers_size"), 0);
    cfg.bootstrap_token = None;
    let j = push_value(&cfg, s("st"));
    assert_eq!(text(&j, "scheduler"), "st");
    assert!(matches!(j.get("bootstrap_token"), Some(Json::Null)));
    assert!(j.get("obs_ws").is_none());
}

#[test]
fn inputs_are_listed_or_explained() {
    let list = Json::Array(vec![Json::Text("main".to_string())]);
    let j = obs_inputs(Some(Ok(list)));
    assert_eq!(names(&j, "inputs"), vec!["main"]);
    assert!(j.get("error").is_none());
    let j = obs_inputs(None);
    assert!(names(&j, "inputs").is_empty());
    assert_eq!(text(&j, "error"), "OBS 未连接");
    assert_eq!(text(&obs_inputs(Some(Err("e".to_string()))), "error"), "e");
}

fn entry(name: &str, is_dir: bool) -> DirItem {
    DirItem { name: name.to_string(), path: format!("/d/{name}"), is_dir, size: 3 }
}

#[test]
fn listings_show_what_can_be_played() {
    let entries = vec![
        entry("z.mp4", false),
        entry("b", true),
        entry("note.txt", false),
        entry("A.MKV", false),
        entry(".mp4", false),
        entry("a", true),
        entry("p.png", false),
    ];
    let j = listing("/d", Some("/".to_string()), entries);
    assert_eq!(text(&j, "path"), "/d");
    assert_eq!(text(&j, "parent"), "/");
    assert_eq!(names(&j, "dirs"), vec!["a", "b"]);
    assert_eq!(names(&j, "files"), vec!["A.MKV", "p.png", "z.mp4"]);
    match j.get("files") {
        Some(Json::Array(v)) => {
            assert_eq!(number(&v[0], "size"), 3);
            assert_eq!(text(&v[0], "path"), "/d/A.MKV");
        }
        _ => panic!("no files"),
    }
    let j = roots_listing(&vec!["/".to_string(), "/home/u".to_string()]);
    assert_eq!(text(&j, "path"), "");
    assert_eq!(names(&j, "dirs"), vec!["/", "/home/u"]);
    assert!(names(&j, "files").is_empty());
    let j = invalid_listing("/nope");
    assert_eq!(text(&j, "error"), "不是有效目录");
    assert!(matches!(j.get("parent"), Some(Json::Null)));
    let q = |p: Option<&str>| BrowseQuery { path: p.map(|s| s.to_string()) };
    assert_eq!(browse_plan(&q(None)), BrowsePlan::Roots);
    assert_eq!(browse_plan(&q(Some("  "))), BrowsePlan::Roots);
    assert_eq!(browse_plan(&q(Some("/d"))), BrowsePlan::Directory);
    let drives = drive_candidates();
    assert_eq!(drives.len(), 24);
    assert_eq!(drives[0], "C:\\");
    assert_eq!(drives[23], "Z:\\");
}

#[test]
fn names_are_split_at_the_last_dot() {
    let s = |n: &str| split_name(n);
    assert_eq!(s("a.tar.gz"), ("a.tar".to_string(), "gz".to_string()));
    assert_eq!(s(".bashrc"), (".bashrc".to_string(), "".to_string()));
    assert_eq!(s("a."), ("a".to_string(), "".to_string()));
    assert_eq!(s("noext"), ("noext".to_string(), "".to_string()));
    assert_eq!(s("..x"), (".".to_string(), "x".to_string()));
    assert_eq!(ext_of("A.WebM"), "webm");
}

#[test]
fn headers_are_percent_decoded() {
    assert_eq!(percent_decode("%E6%99%9A%E9%97%B4.mp4"), "晚间.mp4");
    assert_eq!(percent_decode("100%25"), "100%");
    assert_eq!(percent_decode("a%2"), "a%2");
    assert_eq!(percent_decode("a%zz%41"), "a%zzA");
    assert_eq!(percent_decode("%6a%4B"), "jK");
    assert_eq!(percent_decode("%ff!"), "\u{fffd}!");
    assert_eq!(percent_decode(""), "");
    assert_eq!(hex_val(b'g'), None);
    assert_eq!(hex_val(b'F'), Some(15));
    assert_eq!(hex_val(b'f'), Some(15));
    assert_eq!(hex_val(b'0'), Some(0));
}

#[test]
fn uploads_are_checked_and_kept_in_place() {
    let up = |name: &str, size: u64| upload_media(&None, None, name, size);
    assert_eq!(up("clip.mp4", 1).unwrap(), "clip.mp4");
    assert_eq!(up("..%2F..%2Fetc%2Fx.mp4", 1).unwrap(), "x.mp4");
    assert_eq!(up("/abs/%E6%99%9A.MP4", 4_294_967_296).unwrap(), "晚.MP4");
    refused(up("", 1), 400, "缺少文件名 (X-File-Name)");
    for none in ["/", "//", "%2F", ".", "./.", "/.", "..", "a/..", "a/../", "a/../."] {
        refused(up(none, 1), 400, "缺少文件名 (X-File-Name)");
    }
    for idle in ["d/x.mp4/", "d/x.mp4//", "d/x.mp4/.", "d/x.mp4/./."] {
        assert_eq!(up(idle, 1).unwrap(), "x.mp4");
    }
    assert_eq!(up("12:30 news.mp4", 1).unwrap(), "12:30 news.mp4");
    assert_eq!(up("%E6%99%9A:x.mp4", 1).unwrap(), "晚:x.mp4");
    let odd = up("c:a.mp4", 1).unwrap();
    assert!(odd == "c:a.mp4" || odd == "a.mp4");
    let odd = up("d%5Cb.mp4", 1).unwrap();
    assert!(odd == "d\\b.mp4" || odd == "b.mp4");
    refused(up("x.EXE", 1), 400, "不支持的文件类型：exe（仅支持视频/图片/音频）");
    refused(up("noext", 1), 400, "不支持的文件类型：（仅支持视频/图片/音频）");
    refused(up("x.mp4", 4_294_967_297), 413, "文件过大（上限 4GB）");
    refused(check_upload(None, 1), 400, "缺少文件名 (X-File-Name)");
    assert_eq!(check_upload(Some("a.wav".to_string()), 1).unwrap(), "a.wav");
    let j = upload_answer("/m/a.wav", "a.wav", 12);
    assert_eq!(text(&j, "path"), "/m/a.wav");
    assert_eq!(text(&j, "name"), "a.wav");
    assert_eq!(number(&j, "size"), 12);
    let sep = std::path::MAIN_SEPARATOR;
    assert_eq!(media_dir(Some("/c")), format!("/c{sep}media"));
    assert_eq!(media_dir(None), format!(".{sep}media"));
    assert_eq!(stored_path("/c/", "a.wav"), "/c/a.wav");
}

#[test]
fn stored_files_are_not_overwritten() {
    assert_eq!(candidate_name("a.mp4", 0), "a.mp4");
    assert_eq!(candidate_name("a.mp4", 12), "a-12.mp4");
    assert_eq!(candidate_name("a", 1), "a-1");
    assert_eq!(candidate_name("a.b.mp4", 1), "a.b-1.mp4");
    assert_eq!(unique_step(0, false), UniqueStep::Take(0));
    assert_eq!(unique_step(0, true), UniqueStep::Look(1));
    assert_eq!(unique_step(998, false), UniqueStep::Take(998));
    assert_eq!(unique_step(998, true), UniqueStep::Look(999));
    assert_eq!(unique_step(u64::MAX, true), UniqueStep::Refuse);
    // The first of a thousand names that is free.
    let mut n = 0;
    let taken = |n: u64| n < 1_234;
    let found = loop {
        match unique_step(n, taken(n)) {
            UniqueStep::Take(m) => break m,
            UniqueStep::Look(m) => n = m,
            UniqueStep::Refuse => panic!("refused"),
        }
    };
    assert_eq!(found, 1_234);
    assert_eq!(candidate_name("name.mp4", found), "name-1234.mp4");
}
