use chrono::{Local, TimeZone};
use tvbs_engine::config::{BumperEntry, Config, ProgramEntry, ProgramKind, SchedulerConfig};
use tvbs_engine::playlist::{
    adjust_now_ms, bumper_for, current_program, effective_duration_ms, effective_now_ms, end_at_ms,
    fmt_iso_at, fmt_iso_local, fmt_ms, in_window, lay_out, next_program, next_within,
    program_after, resequence_from, shift_from, validate,
};

fn program(start: i64, dur: u64) -> ProgramEntry {
    ProgramEntry {
        id: format!("id-{start}-{dur}"),
        name: "p".to_string(),
        file_path: "/tmp/x.mp4".to_string(),
        start_at_ms: start,
        declared_duration_ms: dur,
        detected_duration_ms: None,
        kind: ProgramKind::Primary,
        notes: None,
    }
}

fn bumper(id: &str, target: &str, at: u64, kind: ProgramKind) -> BumperEntry {
    let mut content = program(0, 500);
    content.name = format!("bumper {id}");
    content.kind = kind;
    BumperEntry {
        id: id.to_string(),
        target_program_id: target.to_string(),
        at_into_program_ms: at,
        content,
    }
}

#[test]
fn current_program_within_window() {
    let mut cfg = Config::default();
    cfg.playlist.items.push(program(0, 1000));
    cfg.playlist.items.push(program(1000, 1000));
    assert_eq!(current_program(&cfg, 500).map(|p| p.start_at_ms), Some(0));
    assert_eq!(
        current_program(&cfg, 1500).map(|p| p.start_at_ms),
        Some(1000)
    );
    assert!(current_program(&cfg, 999_999).is_none());
}

#[test]
fn next_program_does_not_include_now() {
    let mut cfg = Config::default();
    cfg.playlist.items.push(program(0, 1000));
    cfg.playlist.items.push(program(2000, 1000));
    assert_eq!(next_program(&cfg, 1500).map(|p| p.start_at_ms), Some(2000));
}

#[test]
fn fmt_ms_handles_zero_and_negative() {
    assert_eq!(fmt_ms(0), "00:00:00.000");
    assert_eq!(fmt_ms(3_661_001), "01:01:01.001");
    assert_eq!(fmt_ms(-500), "-00:00:00.500");
}

#[test]
fn detected_duration_wins_over_declared() {
    let mut p = program(0, 60_000);
    assert_eq!(effective_duration_ms(&p), 60_000);
    p.detected_duration_ms = Some(62_000);
    assert_eq!(effective_duration_ms(&p), 62_000);
    assert_eq!(end_at_ms(&p), 62_000);
    // A failed probe must clear back to the declared value, not to 0.
    p.detected_duration_ms = Some(0);
    assert_eq!(effective_duration_ms(&p), 60_000);
}

#[test]
fn shift_from_moves_only_the_tail() {
    let mut cfg = Config::default();
    cfg.playlist.items.push(program(0, 1_000));
    cfg.playlist.items.push(program(1_000, 1_000));
    cfg.playlist.items.push(program(2_000, 1_000));
    shift_from(&mut cfg.playlist.items, 1, 5_000);
    let starts: Vec<i64> = cfg.playlist.items.iter().map(|p| p.start_at_ms).collect();
    assert_eq!(starts, vec![0, 6_000, 7_000]);
}

#[test]
fn resequence_from_closes_the_gap() {
    let mut cfg = Config::default();
    cfg.playlist.items.push(program(0, 1_000));
    cfg.playlist.items.push(program(9_000, 2_000));
    cfg.playlist.items.push(program(20_000, 3_000));
    resequence_from(&mut cfg.playlist.items, 1, 5_000);
    let starts: Vec<i64> = cfg.playlist.items.iter().map(|p| p.start_at_ms).collect();
    assert_eq!(starts, vec![0, 5_000, 7_000]);
}

#[test]
fn shifting_saturates_at_the_end_of_time() {
    let mut items = vec![program(i64::MAX - 1, 1), program(i64::MIN + 1, 1)];
    shift_from(&mut items, 0, 10);
    assert_eq!(items[0].start_at_ms, i64::MAX);
    assert_eq!(items[1].start_at_ms, i64::MIN + 11);
    shift_from(&mut items, 9, 10);
    assert_eq!(items[0].start_at_ms, i64::MAX);
}

#[test]
fn shifting_there_and_back_restores_the_starts() {
    let mut items = vec![program(0, 1_000), program(1_000, 1_000), program(2_000, 1_000)];
    shift_from(&mut items, 1, 77);
    shift_from(&mut items, 1, -77);
    let starts: Vec<i64> = items.iter().map(|p| p.start_at_ms).collect();
    assert_eq!(starts, vec![0, 1_000, 2_000]);
}

#[test]
fn rows_without_a_length_take_a_millisecond() {
    let mut items = vec![program(5, 0), program(6, 10), program(7, 0)];
    let end = lay_out(&mut items, 0, 100);
    let starts: Vec<i64> = items.iter().map(|p| p.start_at_ms).collect();
    assert_eq!(starts, vec![100, 101, 111]);
    assert_eq!(end, 112);
}

#[test]
fn a_window_holds_its_start_and_not_its_end() {
    let p = program(100, 50);
    assert!(!in_window(&p, 99));
    assert!(in_window(&p, 100));
    assert!(in_window(&p, 149));
    assert!(!in_window(&p, 150));
}

#[test]
fn the_anchor_is_the_window_that_ends_first() {
    let mut cfg = Config::default();
    cfg.playlist.items.push(program(0, 1000));
    cfg.playlist.items.push(program(2000, 1000));
    assert_eq!(next_within(&cfg, 500).map(|p| p.start_at_ms), Some(0));
    assert_eq!(next_within(&cfg, 1000).map(|p| p.start_at_ms), Some(2000));
    assert_eq!(next_within(&cfg, 2999).map(|p| p.start_at_ms), Some(2000));
    assert!(next_within(&cfg, 3000).is_none());
    // Whatever the order: the end counts, and of equal ends the first row.
    let mut cfg = Config::default();
    cfg.playlist.items.push(program(100, 1_000));
    cfg.playlist.items.push(program(200, 50));
    cfg.playlist.items.push(program(150, 100));
    assert_eq!(next_within(&cfg, 0).map(|p| p.start_at_ms), Some(200));
}

#[test]
fn the_program_after_goes_by_the_playlist() {
    let items = vec![program(500, 1), program(100, 1), program(300, 1)];
    assert_eq!(program_after(&items, "id-500-1"), Some(1));
    assert_eq!(program_after(&items, "id-300-1"), None);
    assert_eq!(program_after(&items, "gone"), None);
}

#[test]
fn a_bumper_fires_once_its_point_is_reached() {
    let p = program(0, 10_000);
    let bumpers = vec![
        bumper("other", "elsewhere", 10, ProgramKind::Interstitial),
        bumper("late", &p.id, 5_000, ProgramKind::Interstitial),
        bumper("early", &p.id, 1_000, ProgramKind::Interstitial),
    ];
    assert!(bumper_for(&bumpers, &p, 999).is_none());
    assert_eq!(bumper_for(&bumpers, &p, 1_000).map(|b| b.id.as_str()), Some("early"));
    assert_eq!(bumper_for(&bumpers, &p, 5_000).map(|b| b.id.as_str()), Some("late"));
}

#[test]
fn an_empty_schedule_is_one_complaint() {
    let cfg = Config::default();
    assert_eq!(validate(&cfg), vec!["节目表为空，请至少添加一条节目".to_string()]);
}

#[test]
fn a_sane_schedule_gets_no_complaint() {
    let mut cfg = Config::default();
    cfg.playlist.items.push(program(0, 1_000));
    cfg.playlist.items.push(program(1_000, 1_000));
    cfg.playlist.bumpers.push(bumper("b", "id-0-1000", 500, ProgramKind::Standalone));
    assert!(validate(&cfg).is_empty());
}

#[test]
fn every_complaint_has_its_words() {
    let mut cfg = Config::default();
    let mut bad = program(1_000, 0);
    bad.name = "  ".to_string();
    bad.file_path = "".to_string();
    cfg.playlist.items.push(bad);
    cfg.playlist.items.push(program(500, 100));
    cfg.playlist.bumpers.push(bumper("b", "id-500-100", 100, ProgramKind::Primary));
    let errs = validate(&cfg);
    assert_eq!(
        errs,
        vec![
            "第 1 条: 名称不能为空".to_string(),
            "第 1 条: 文件路径不能为空".to_string(),
            "第 1 条: 时长必须 > 0".to_string(),
            "第 2 条: 起始时间早于前一条，请按时间顺序编排".to_string(),
            "节目 'p' 上的插播触发点 'bumper b' 超出节目时长".to_string(),
            "插播 'bumper b' 类型不能是 Primary（只能是 Interstitial / Standalone）".to_string(),
        ]
    );
}

#[test]
fn long_times_keep_all_their_hours() {
    assert_eq!(fmt_ms(359_999_999), "99:59:59.999");
    assert_eq!(fmt_ms(360_000_000), "100:00:00.000");
    assert_eq!(fmt_ms(i64::MIN), "-2562047788015:12:55.808");
}

#[test]
fn moments_are_written_with_their_offset() {
    assert_eq!(fmt_iso_at(0, 28_800), "1970-01-01T08:00:00.000+08:00");
    assert_eq!(fmt_iso_at(0, 0), "1970-01-01T00:00:00.000+00:00");
    assert_eq!(fmt_iso_at(0, -12_600), "1969-12-31T20:30:00.000-03:30");
    assert_eq!(fmt_iso_at(1_787_875_200_123, 0), "2026-08-28T00:00:00.123+00:00");
    assert_eq!(fmt_iso_at(-1, 0), "1969-12-31T23:59:59.999+00:00");
    // Outside the calendar.
    assert_eq!(fmt_iso_at(i64::MAX, 0), "1970-01-01T00:00:00.000+00:00");
    assert_eq!(fmt_iso_at(8_210_266_876_799_999, 0), "+262142-12-31T23:59:59.999+00:00");
    assert_eq!(fmt_iso_at(8_210_266_876_800_000, 3_600), "1970-01-01T01:00:00.000+01:00");
    assert_eq!(fmt_iso_at(-8_334_601_228_800_000, 0), "-262143-01-01T00:00:00.000+00:00");
    assert_eq!(fmt_iso_at(-8_334_601_228_800_001, 0), "1970-01-01T00:00:00.000+00:00");
}

#[test]
fn moments_are_shown_in_the_zone_of_the_machine() {
    for ms in [0, 1_787_875_200_123, -1, 1_700_000_000_000] {
        let offset = Local.timestamp_millis_opt(ms).unwrap().offset().local_minus_utc();
        assert_eq!(fmt_iso_local(ms), fmt_iso_at(ms, offset));
    }
    assert_eq!(fmt_iso_local(i64::MAX), fmt_iso_local(0));
    // The ends of the calendar are shown as well.
    assert!(fmt_iso_local(8_210_266_876_799_999).starts_with("+26214"));
    assert!(fmt_iso_local(-8_334_601_228_800_000).starts_with("-26214"));
}

#[test]
fn the_two_corrections_of_the_clock_add_up() {
    let mut cfg = SchedulerConfig::default();
    cfg.clock_offset_ms = 200;
    assert_eq!(adjust_now_ms(1_000, &cfg, -50), 1_150);
    cfg.clock_offset_ms = i64::MAX;
    assert_eq!(adjust_now_ms(1_000, &cfg, -50), i64::MAX - 50);
    cfg.clock_offset_ms = 0;
    let t = effective_now_ms(&cfg, 0);
    assert!(t > 1_577_836_800_000);
    assert!(effective_now_ms(&cfg, 1_000_000) >= t + 1_000_000);
}
