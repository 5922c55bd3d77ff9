use tvbs_engine::app_status::AppStatus;
use tvbs_engine::config::{BumperEntry, Config, ProgramEntry, ProgramKind};
use tvbs_engine::cut::{CutOutcome, PreloadOutcome};
use tvbs_engine::obs_ws::codec::{ObsWsCmd, RequestTable};
use tvbs_engine::obs_ws::messages::RequestId;
use tvbs_engine::playlist::{
    current_program, end_at_ms, next_program, next_within, resequence_from, shift_from,
};
use tvbs_engine::presets::{is_preset_file, safe_stem};
use tvbs_engine::scheduler::SchedulerState;
use tvbs_engine::server::upload::{candidate_name, percent_decode};
use tvbs_engine::text::{fmt_u64, parse_u64, trim};
use tvbs_engine::tick::{
    after_advance, after_air, after_bumper_file, after_bumper_fire, after_preload, after_probe,
    after_resume_primary, after_watch, tick_begin, BumperOutcome, Throttle, TickStep,
};

fn row(id: &str, start: i64, dur: u64) -> ProgramEntry {
    ProgramEntry {
        id: id.to_string(),
        name: id.to_string(),
        file_path: format!("/{id}.mp4"),
        start_at_ms: start,
        declared_duration_ms: dur,
        detected_duration_ms: None,
        kind: ProgramKind::Primary,
        notes: None,
    }
}

fn day() -> Config {
    let mut cfg = Config::default();
    cfg.playlist.items.push(row("a", 10_000, 8_000));
    cfg.playlist.items.push(row("b", 18_000, 4_000));
    cfg.playlist.items.push(row("c", 30_000, 4_000));
    let mut content = row("advert", 0, 1_000);
    content.kind = ProgramKind::Interstitial;
    cfg.playlist.bumpers.push(BumperEntry {
        id: "k".to_string(),
        target_program_id: "a".to_string(),
        at_into_program_ms: 5_000,
        content,
    });
    cfg
}

/// Runs one tick to its end, with answers picked by `seed`; the steps it took.
fn tick(
    cfg: &Config,
    now: i64,
    machine: &mut SchedulerState,
    st: &mut AppStatus,
    throttle: &mut Throttle,
    seed: u64,
) -> Vec<TickStep> {
    let mut steps = Vec::new();
    let mut step = tick_begin(cfg, now, now, machine, st, throttle);
    let outcome = |n: u64| match n % 7 {
        0 => CutOutcome::SkipMissing,
        1 => CutOutcome::Failed("x".to_string()),
        _ => CutOutcome::Cut,
    };
    loop {
        steps.push(step);
        step = match step {
            TickStep::Done => return steps,
            TickStep::Preload { index } => {
                let o = match seed % 11 {
                    0 => PreloadOutcome::Failed("x".to_string()),
                    1 => PreloadOutcome::SkipMissing,
                    _ => PreloadOutcome::Ready,
                };
                after_preload(cfg, now, now, machine, st, index, o)
            }
            TickStep::Air { index, .. } => {
                after_air(cfg, now, now, machine, st, index, outcome(seed));
                TickStep::Done
            }
            TickStep::Advance { index } => {
                after_advance(cfg, now, now, machine, st, index, outcome(seed));
                TickStep::Done
            }
            TickStep::Probe { on_air } => {
                after_probe(cfg, now, now, machine, st, throttle, on_air)
            }
            TickStep::Watch { on_air } => {
                let end = if seed % 5 == 0 { Some(now) } else { None };
                after_watch(cfg, now, now, machine, st, on_air, end)
            }
            TickStep::BumperFile { on_air, bumper } => {
                after_bumper_file(cfg, now, now, machine, st, on_air, bumper, seed % 3 != 0)
            }
            TickStep::BumperFire { on_air, bumper } => {
                let o = match seed % 3 {
                    0 => BumperOutcome::Offline,
                    1 => BumperOutcome::Failed,
                    _ => BumperOutcome::Fired,
                };
                after_bumper_fire(cfg, now, now, machine, st, on_air, bumper, o)
            }
            TickStep::ResumePrimary { index, return_to_ms } => {
                let online = seed % 2 == 0;
                after_resume_primary(cfg, now, now, machine, st, index, return_to_ms, online);
                TickStep::Done
            }
        };
    }
}

#[test]
fn ticks_end_mirror_and_never_air_early() {
    let cfg = day();
    for run in 0..40u64 {
        let mut machine = SchedulerState::Idle;
        let mut st = AppStatus::default();
        st.scheduler_state = "Idle".to_string();
        let mut throttle = Throttle::default();
        let mut seed = run * 2_654_435_761 + 1;
        for i in 0..900i64 {
            let now = 5_000 + i * 50;
            seed = seed
                .wrapping_mul(6_364_136_223_846_793_005)
                .wrapping_add(1_442_695_040_888_963_407);
            let steps = tick(&cfg, now, &mut machine, &mut st, &mut throttle, seed >> 33);
            assert!(steps.len() <= 6);
            for s in steps {
                if let TickStep::Air { index, .. } | TickStep::Advance { index } = s {
                    assert!(cfg.playlist.items[index].start_at_ms <= now);
                }
            }
            assert_eq!(st.scheduler_state, machine.label());
        }
    }
}

#[test]
fn a_day_without_trouble_airs_everything_in_order() {
    let cfg = day();
    let mut machine = SchedulerState::Idle;
    let mut st = AppStatus::default();
    let mut throttle = Throttle::default();
    let mut aired: Vec<String> = Vec::new();
    let mut preloads = 0;
    for i in 0..900i64 {
        let now = 5_000 + i * 50;
        // Answers by which everything works and no bumper file is there.
        let steps = tick(&cfg, now, &mut machine, &mut st, &mut throttle, 6);
        preloads += steps.iter().filter(|s| matches!(s, TickStep::Preload { .. })).count();
        for s in steps {
            if let TickStep::Air { index, .. } | TickStep::Advance { index } = s {
                aired.push(format!("{} at {now}", cfg.playlist.items[index].id));
            }
        }
    }
    assert_eq!(aired, vec!["a at 10000", "b at 18000", "c at 30000"]);
    assert_eq!(preloads, 2);
    assert_eq!(machine.clone(), SchedulerState::Idle);
}

#[test]
fn on_a_tidy_day_one_program_airs_at_a_time() {
    let cfg = day();
    for now in (9_000..35_000).step_by(37) {
        let on: Vec<&ProgramEntry> = cfg
            .playlist
            .items
            .iter()
            .filter(|p| p.start_at_ms <= now && now < end_at_ms(p))
            .collect();
        assert!(on.len() <= 1);
        assert_eq!(current_program(&cfg, now).map(|p| &p.id), on.first().map(|p| &p.id));
        let anchor = current_program(&cfg, now).or(next_program(&cfg, now));
        assert_eq!(next_within(&cfg, now).map(|p| &p.id), anchor.map(|p| &p.id));
    }
}

#[test]
fn laying_out_twice_changes_nothing_more() {
    let mut items = day().playlist.items;
    resequence_from(&mut items, 1, 50_000);
    let once: Vec<i64> = items.iter().map(|p| p.start_at_ms).collect();
    resequence_from(&mut items, 1, 50_000);
    let twice: Vec<i64> = items.iter().map(|p| p.start_at_ms).collect();
    assert_eq!(once, twice);
    assert_eq!(once, vec![10_000, 50_000, 54_000]);
    assert_eq!(items[2].start_at_ms, end_at_ms(&items[1]));
}

#[test]
fn shifting_keeps_the_distances() {
    let mut items = day().playlist.items;
    shift_from(&mut items, 1, -3_000);
    assert_eq!(items[2].start_at_ms - items[1].start_at_ms, 12_000);
}

#[test]
fn ids_come_back_as_they_went_out() {
    for n in [0, 9, 10, 99, 12_345_678_901_234_567_890, u64::MAX] {
        assert_eq!(parse_u64(&RequestId(n).to_text()), Some(n));
        assert_eq!(fmt_u64(n), n.to_string());
    }
    let mut t = RequestTable::new();
    let ids: Vec<u64> = (0..5).map(|_| t.register(ObsWsCmd::GetVersion).0).collect();
    assert_eq!(ids, vec![1, 2, 3, 4, 5]);
    assert!(ids.iter().all(|id| t.take_back(*id)));
}

#[test]
fn trimming_twice_is_trimming_once() {
    for s in ["", "  ", " a b ", "\u{2003}x\u{85}", "y"] {
        assert_eq!(trim(s), s.trim());
        assert_eq!(trim(&trim(s)), trim(s));
    }
}

#[test]
fn every_stem_is_a_preset_file() {
    for name in ["", "..", "a/b", "周末 版", " . "] {
        let stem = safe_stem(name);
        assert!(!stem.is_empty() && !stem.contains('/') && stem != "." && stem != "..");
        assert!(is_preset_file(&format!("{stem}.json")));
    }
}

#[test]
fn what_is_escaped_comes_back() {
    let name = "晚间 100% / Ünïcode.mp4";
    let escaped: String = name.bytes().map(|b| format!("%{b:02X}")).collect();
    assert_eq!(percent_decode(&escaped), name);
    assert_eq!(percent_decode("plain-name.mp4"), "plain-name.mp4");
}

#[test]
fn no_name_is_tried_twice() {
    for name in ["a.mp4", "a", "a.", ".x", "a-1.mp4"] {
        let mut tried: Vec<String> = (0..300).map(|n| candidate_name(name, n)).collect();
        tried.sort();
        tried.dedup();
        assert_eq!(tried.len(), 300);
    }
}
