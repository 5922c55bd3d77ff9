use tvbs_engine::config::{Config, ProgramEntry, ProgramKind};
use tvbs_engine::presets::{
    check_kind, from_config, from_config_at, is_preset_file, list, load, newest_first,
    partial_path,
    preset_path, presets_dir, safe_stem, summarize, total_ms, PresetSummary, KIND,
};

#[test]
fn safe_stem_strips_path_separators() {
    assert_eq!(safe_stem("晚间/新闻"), "晚间_新闻");
    assert_eq!(safe_stem("..\\..\\etc\\passwd"), ".._.._etc_passwd");
    assert_eq!(safe_stem("   "), "preset");
    assert_eq!(safe_stem(""), "preset");
}

#[test]
fn safe_stem_keeps_chinese_and_trims() {
    assert_eq!(safe_stem(" 平日版 "), "平日版");
}

#[test]
fn safe_stem_is_bounded() {
    let long = "节".repeat(500);
    assert!(safe_stem(&long).chars().count() <= 80);
}

#[test]
fn preset_path_uses_the_preset_directory() {
    let p = preset_path(Some(""), "每周节目表");
    assert!(p.contains("presets"));
    assert!(p.ends_with("每周节目表.json"));
}

#[test]
fn stems_are_cut_and_never_a_directory() {
    assert_eq!(safe_stem(&"x".repeat(81)), "x".repeat(80));
    assert_eq!(safe_stem("."), "preset");
    assert_eq!(safe_stem(".."), "preset");
    assert_eq!(safe_stem("..."), "...");
    assert_eq!(safe_stem("a\u{7}b*?\"<>|:c"), "a_b_______c");
    assert_eq!(safe_stem("\u{3000}全角\u{3000}"), "全角");
}

#[test]
fn presets_lie_beside_the_configuration() {
    let sep = std::path::MAIN_SEPARATOR;
    assert_eq!(presets_dir(Some("/")), "/presets");
    assert_eq!(presets_dir(Some("a/")), "a/presets");
    assert_eq!(presets_dir(Some("/etc/tv")), format!("/etc/tv{sep}presets"));
    assert_eq!(presets_dir(Some("")), "presets");
    assert_eq!(presets_dir(None), format!(".{sep}presets"));
    assert_eq!(presets_dir(Some("//server/share")), format!("//server/share{sep}presets"));
    assert_eq!(preset_path(Some("/c"), "a/b"), format!("/c{sep}presets{sep}a_b.json"));
    assert_eq!(partial_path("/c/a.json"), "/c/a.json.tmp");
}

#[test]
fn only_json_files_are_presets() {
    assert!(is_preset_file("平日版.json"));
    assert!(is_preset_file("a.b.json"));
    assert!(!is_preset_file(".json"));
    assert!(!is_preset_file("a.json.tmp"));
    assert!(!is_preset_file("json"));
}

fn row(declared: u64, detected: Option<u64>) -> ProgramEntry {
    ProgramEntry {
        id: "r".to_string(),
        name: "r".to_string(),
        file_path: "f".to_string(),
        start_at_ms: 0,
        declared_duration_ms: declared,
        detected_duration_ms: detected,
        kind: ProgramKind::Primary,
        notes: None,
    }
}

#[test]
fn presets_carry_what_they_are_asked_to() {
    let mut cfg = Config::default();
    cfg.playlist.items.push(row(60, Some(62)));
    cfg.playlist.items.push(row(40, None));
    cfg.scheduler.lead_in_ms = 321;
    let p = from_config_at(&cfg, "晚间", true, Some("2026-01-01".to_string()));
    assert_eq!(p.kind, KIND);
    assert_eq!(p.version, 1);
    assert_eq!(p.name, "晚间");
    assert_eq!(p.items.len(), 2);
    assert_eq!(p.scheduler.map(|s| s.lead_in_ms), Some(321));
    assert!(p.clock.is_some());
    let s = summarize(&p);
    assert_eq!(s.items, 2);
    assert_eq!(s.total_ms, 102);
    assert_eq!(s.saved_at.as_deref(), Some("2026-01-01"));
    let bare = from_config(&cfg, "x", false);
    assert!(bare.scheduler.is_none());
    assert!(bare.clock.is_none());
    let date = bare.saved_at.unwrap();
    assert!(date.starts_with("20") && date.contains('T') && date.ends_with("+00:00"));
}

#[test]
fn totals_that_do_not_fit_are_told() {
    assert_eq!(total_ms(&vec![row(u64::MAX, None)]), Some(u64::MAX));
    assert_eq!(total_ms(&vec![row(u64::MAX, None), row(1, None)]), None);
    assert_eq!(total_ms(&vec![]), Some(0));
}

#[test]
fn another_kind_of_file_is_refused() {
    let cfg = Config::default();
    let mut p = from_config_at(&cfg, "x", false, None);
    assert!(check_kind(&p).is_ok());
    p.kind = "other".to_string();
    assert_eq!(
        check_kind(&p).unwrap_err(),
        "这不是本插件的预设文件（kind=other，应为 tvbs-playlist-preset）"
    );
    assert_eq!(
        load(p).unwrap_err(),
        "这不是本插件的预设文件（kind=other，应为 tvbs-playlist-preset）"
    );
    let q = load(from_config_at(&cfg, "y", true, Some("d".to_string()))).unwrap();
    assert_eq!(q.name, "y");
    assert_eq!(q.saved_at.as_deref(), Some("d"));
}

#[test]
fn the_list_holds_every_file_that_is_a_preset() {
    let mut cfg = Config::default();
    cfg.playlist.items.push(row(60, Some(62)));
    cfg.playlist.items.push(row(40, None));
    let at = |name: &str, date: Option<&str>| {
        Some(from_config_at(&cfg, name, false, date.map(|d| d.to_string())))
    };
    let files = vec![
        at("old", Some("2025")),
        None,
        at("undated", None),
        at("new", Some("2026")),
        None,
    ];
    let shown = list(&files);
    let names: Vec<&str> = shown.iter().map(|s| s.name.as_str()).collect();
    assert_eq!(names, vec!["new", "old", "undated"]);
    assert!(shown.iter().all(|s| s.items == 2 && s.total_ms == 102));
    assert!(list(&vec![None]).is_empty());
}

fn summary(name: &str, saved_at: Option<&str>) -> PresetSummary {
    PresetSummary {
        name: name.to_string(),
        items: 0,
        total_ms: 0,
        saved_at: saved_at.map(|s| s.to_string()),
    }
}

#[test]
fn the_newest_preset_comes_first() {
    let list = vec![
        summary("undated", None),
        summary("old", Some("2025-03-01")),
        summary("new", Some("2026-03-01")),
        summary("older twin", Some("2025-03-01")),
        summary("longer", Some("2026-03-01T00")),
    ];
    let names: Vec<String> = newest_first(list).into_iter().map(|s| s.name).collect();
    assert_eq!(names, vec!["longer", "new", "old", "older twin", "undated"]);
}
