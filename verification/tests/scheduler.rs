use tvbs_engine::app_status::AppStatus;
use tvbs_engine::config::{BumperEntry, Config, MissingFilePolicy, ProgramEntry, ProgramKind};
use tvbs_engine::cut::{
    cut_after_file, cut_after_restart, cut_after_set, preload_after_set, preload_check, CutOutcome,
    CutStep, PreloadOutcome,
};
use tvbs_engine::interrupt::{
    due_bumper, pick_bumper_content, ready_to_fire, recover, remaining_after_bumper, return_to_ms,
    settings_payload, Resume,
};
use tvbs_engine::run_loop::{
    mirror_activity, recover_from_error, snapshot_due, stand_down, wants_running, LoopState,
};
use tvbs_engine::scheduler::SchedulerState;
use tvbs_engine::tick::{
    after_advance, after_air, after_bumper_file, after_bumper_fire, after_preload, after_probe,
    after_resume_primary, after_watch, store_duration, tick_begin, BumperOutcome, OnAir, Throttle,
    TickStep,
};
use tvbs_engine::transport::{
    after_skip, close_up, handle_command, nothing_to_skip_to, pausable, pause, reload_done, reload_failed,
    resume, skip_target, slide, TransportStep,
};
use tvbs_engine::ControlCommand;
use tvbs_engine::watch::{confirm_again, confirm_first, rolling, watchdog, WatchVerdict};

fn row(id: &str, start: i64, dur: u64) -> ProgramEntry {
    ProgramEntry {
        id: id.to_string(),
        name: format!("name of {id}"),
        file_path: format!("/media/{id}.mp4"),
        start_at_ms: start,
        declared_duration_ms: dur,
        detected_duration_ms: Some(dur),
        kind: ProgramKind::Primary,
        notes: None,
    }
}

fn three() -> Config {
    let mut cfg = Config::default();
    cfg.playlist.items.push(row("a", 1_000_000, 60_000));
    cfg.playlist.items.push(row("b", 1_060_000, 60_000));
    cfg.playlist.items.push(row("c", 1_200_000, 60_000));
    cfg
}

fn bumper(id: &str, target: &str, at: u64, dur: u64) -> BumperEntry {
    let mut content = row("bumper file", 0, dur);
    content.kind = ProgramKind::Interstitial;
    content.name = "advert".to_string();
    BumperEntry {
        id: id.to_string(),
        target_program_id: target.to_string(),
        at_into_program_ms: at,
        content,
    }
}

struct Desk {
    machine: SchedulerState,
    status: AppStatus,
    throttle: Throttle,
}

impl Desk {
    fn new() -> Self {
        Desk {
            machine: SchedulerState::Idle,
            status: AppStatus::default(),
            throttle: Throttle::default(),
        }
    }

    fn playing(id: &str, started: i64, end: i64) -> Self {
        let mut d = Desk::new();
        d.machine = SchedulerState::Playing {
            program_id: id.to_string(),
            started_at_ms: started,
            end_at_ms: end,
        };
        d.status.scheduler_state = "Playing".to_string();
        d
    }

    fn begin(&mut self, cfg: &Config, now: i64) -> TickStep {
        tick_begin(cfg, now, 7, &mut self.machine, &mut self.status, &mut self.throttle)
    }

    fn state(&self) -> String {
        match &self.machine {
            SchedulerState::Idle => "idle".to_string(),
            SchedulerState::Armed { target_id, fire_at_ms, preloaded } => {
                format!("armed {target_id} {fire_at_ms} {preloaded}")
            }
            SchedulerState::Playing { program_id, started_at_ms, end_at_ms } => {
                format!("playing {program_id} {started_at_ms} {end_at_ms}")
            }
            SchedulerState::Paused { program_id, remaining_ms, paused_at_ms, bumper } => {
                let back = match bumper {
                    Some(h) => format!(" in {} at {}", h.bumper_id, h.return_to_ms),
                    None => String::new(),
                };
                format!("paused {program_id} {remaining_ms} {paused_at_ms}{back}")
            }
            SchedulerState::InterstitialPlaying { primary_id, bumper_id, return_to_ms } => {
                format!("bumper {primary_id} {bumper_id} {return_to_ms}")
            }
            SchedulerState::Error { message, until_cleared: false } => format!("error {message}"),
            SchedulerState::Error { message, until_cleared: true } => format!("stop {message}"),
        }
    }
}

// ------------------------------------------------------------------------- tick

#[test]
fn an_idle_scheduler_arms_for_what_is_next() {
    let cfg = three();
    let mut d = Desk::new();
    assert_eq!(d.begin(&cfg, 500_000), TickStep::Done);
    assert_eq!(d.state(), "armed a 999800 false");
    assert_eq!(d.status.scheduler_state, "Armed");
    assert_eq!(d.status.last_changed_at, Some(7));
}

#[test]
fn an_idle_scheduler_cuts_into_a_running_slot() {
    let cfg = three();
    let mut d = Desk::new();
    // Ten seconds into its slot.
    assert_eq!(d.begin(&cfg, 1_070_000), TickStep::Air { index: 1, seek_ms: 10_000 });
    assert!(after_air(&cfg, 1_070_000, 7, &mut d.machine, &mut d.status, 1, CutOutcome::Cut));
    assert_eq!(d.state(), "playing b 1070000 1120000");
    assert_eq!(d.status.current_program_id.as_deref(), Some("b"));
    assert_eq!(d.status.current_program_name.as_deref(), Some("name of b"));
    assert_eq!(d.status.current_remaining_ms, Some(50_000));
}

#[test]
fn after_the_last_row_nothing_happens() {
    let cfg = three();
    let mut d = Desk::new();
    assert_eq!(d.begin(&cfg, 5_000_000), TickStep::Done);
    assert_eq!(d.state(), "idle");
}

#[test]
fn a_target_is_preloaded_once_and_cut_on_time() {
    let cfg = three();
    let mut d = Desk::new();
    d.begin(&cfg, 500_000);
    assert_eq!(d.begin(&cfg, 999_799), TickStep::Done);
    assert_eq!(d.begin(&cfg, 999_800), TickStep::Preload { index: 0 });
    assert_eq!(
        after_preload(&cfg, 999_800, 7, &mut d.machine, &mut d.status, 0, PreloadOutcome::Ready),
        TickStep::Done
    );
    assert_eq!(d.state(), "armed a 999800 true");
    assert_eq!(d.begin(&cfg, 999_950), TickStep::Done);
    assert_eq!(d.begin(&cfg, 1_000_000), TickStep::Air { index: 0, seek_ms: 0 });
    assert!(after_air(&cfg, 1_000_000, 7, &mut d.machine, &mut d.status, 0, CutOutcome::Cut));
    assert_eq!(d.state(), "playing a 1000000 1060000");
}

#[test]
fn a_late_preload_goes_straight_on_air() {
    let cfg = three();
    let mut d = Desk::new();
    d.begin(&cfg, 500_000);
    assert_eq!(d.begin(&cfg, 1_000_001), TickStep::Preload { index: 0 });
    assert_eq!(
        after_preload(&cfg, 1_000_001, 7, &mut d.machine, &mut d.status, 0, PreloadOutcome::Ready),
        TickStep::Air { index: 0, seek_ms: 0 }
    );
}

#[test]
fn failures_stop_with_their_message() {
    let cfg = three();
    let mut d = Desk::new();
    d.begin(&cfg, 500_000);
    let step = after_preload(
        &cfg,
        999_900,
        7,
        &mut d.machine,
        &mut d.status,
        0,
        PreloadOutcome::Failed("no obs-websocket connection".to_string()),
    );
    assert_eq!(step, TickStep::Done);
    assert_eq!(d.state(), "error preload: no obs-websocket connection");
    assert_eq!(d.status.last_error.as_deref(), Some("preload: no obs-websocket connection"));
    assert_eq!(d.status.scheduler_state, "Error");
    let mut d = Desk::new();
    let failed = CutOutcome::Failed("no".to_string());
    assert!(!after_air(&cfg, 1_000_000, 7, &mut d.machine, &mut d.status, 0, failed));
    assert_eq!(d.state(), "error cut: no");
    assert_eq!(d.begin(&cfg, 1_000_000), TickStep::Done);
}

#[test]
fn a_missing_file_is_skipped_by_the_clock() {
    let cfg = three();
    let mut d = Desk::new();
    d.begin(&cfg, 500_000);
    assert!(!after_air(
        &cfg,
        1_000_000,
        7,
        &mut d.machine,
        &mut d.status,
        0,
        CutOutcome::SkipMissing
    ));
    assert_eq!(d.state(), "armed b 1059800 false");
    assert!(!after_air(
        &cfg,
        1_200_000,
        7,
        &mut d.machine,
        &mut d.status,
        2,
        CutOutcome::SkipMissing
    ));
    assert_eq!(d.state(), "idle");
}

#[test]
fn a_file_that_is_missing_at_the_lead_in_goes_by_the_policy() {
    let cfg = three();
    let preload = |o: PreloadOutcome| {
        let mut d = Desk::new();
        d.begin(&cfg, 500_000);
        let step = after_preload(&cfg, 999_900, 7, &mut d.machine, &mut d.status, 0, o);
        assert_eq!(step, TickStep::Done);
        d
    };
    assert_eq!(preload(PreloadOutcome::SkipMissing).state(), "armed b 1059800 false");
    let d = preload(PreloadOutcome::Failed("file not found: x".to_string()));
    assert_eq!(d.state(), "error preload: file not found: x");
    let d = preload(PreloadOutcome::Stopped("file not found: x".to_string()));
    assert_eq!(d.state(), "stop preload: file not found: x");
    assert_eq!(d.status.last_error.as_deref(), Some("preload: file not found: x"));
    let mut d = Desk::new();
    let stopped = CutOutcome::Stopped("s".to_string());
    assert!(!after_air(&cfg, 1_000_000, 7, &mut d.machine, &mut d.status, 0, stopped));
    assert_eq!(d.state(), "stop cut: s");
    let mut d = Desk::playing("a", 1_000_000, 1_060_000);
    let stopped = CutOutcome::Stopped("s".to_string());
    assert!(!after_advance(&cfg, 1_060_000, 7, &mut d.machine, &mut d.status, 1, stopped));
    assert_eq!(d.state(), "stop cut: s");
}

#[test]
fn a_vanished_target_is_given_up() {
    let mut cfg = three();
    let mut d = Desk::new();
    d.begin(&cfg, 500_000);
    cfg.playlist.items.remove(0);
    assert_eq!(d.begin(&cfg, 500_050), TickStep::Done);
    assert_eq!(d.state(), "idle");
}

#[test]
fn a_vanished_program_stays_on_air() {
    let cfg = three();
    let mut d = Desk::playing("gone", 0, 10);
    assert_eq!(d.begin(&cfg, 50), TickStep::Done);
    assert_eq!(d.state(), "playing gone 0 10");
}

#[test]
fn a_playing_program_shows_what_is_left() {
    let cfg = three();
    let mut d = Desk::playing("a", 1_000_000, 1_060_000);
    assert_eq!(d.begin(&cfg, 1_001_000), TickStep::Done);
    assert_eq!(d.status.current_remaining_ms, Some(59_000));
    assert_eq!(d.state(), "playing a 1000000 1060000");
}

#[test]
fn a_program_that_ended_is_followed_in_playlist_order() {
    let cfg = three();
    let mut d = Desk::playing("a", 1_000_000, 1_060_000);
    d.throttle.last_watchdog_ms = 7;
    assert_eq!(d.begin(&cfg, 1_075_000), TickStep::Advance { index: 1 });
    assert!(after_advance(
        &cfg,
        1_075_000,
        7,
        &mut d.machine,
        &mut d.status,
        1,
        CutOutcome::Cut
    ));
    // At full length from now on, although it started late.
    assert_eq!(d.state(), "playing b 1075000 1135000");
    assert_eq!(d.status.current_remaining_ms, Some(60_000));
    // A real gap is waited out.
    assert_eq!(d.begin(&cfg, 1_135_000), TickStep::Done);
    assert_eq!(d.state(), "armed c 1199800 false");
}

#[test]
fn the_last_program_ends_in_idle() {
    let cfg = three();
    let mut d = Desk::playing("c", 1_200_000, 1_260_000);
    d.throttle.last_watchdog_ms = 7;
    assert_eq!(d.begin(&cfg, 1_260_000), TickStep::Done);
    assert_eq!(d.state(), "idle");
}

#[test]
fn advancing_past_a_missing_file_arms_behind_it() {
    let cfg = three();
    let mut d = Desk::playing("a", 1_000_000, 1_060_000);
    let skip = CutOutcome::SkipMissing;
    assert!(!after_advance(&cfg, 1_060_000, 7, &mut d.machine, &mut d.status, 1, skip));
    assert_eq!(d.state(), "armed c 1199800 false");
    let skip = CutOutcome::SkipMissing;
    assert!(!after_advance(&cfg, 1_200_000, 7, &mut d.machine, &mut d.status, 2, skip));
    assert_eq!(d.state(), "idle");
    let failed = CutOutcome::Failed("e".to_string());
    assert!(!after_advance(&cfg, 1_200_000, 7, &mut d.machine, &mut d.status, 2, failed));
    assert_eq!(d.state(), "error cut: e");
}

#[test]
fn a_clock_that_went_back_is_waited_for() {
    let cfg = three();
    let mut d = Desk::playing("a", 1_000_000, 900_000);
    assert_eq!(d.begin(&cfg, 950_000), TickStep::Done);
    assert_eq!(d.state(), "playing a 1000000 900000");
    assert!(d.status.current_remaining_ms.is_none());
}

#[test]
fn obs_is_probed_and_watched_now_and_then() {
    let mut cfg = three();
    cfg.playlist.items[0].detected_duration_ms = None;
    let mut d = Desk::playing("a", 1_000_000, 1_060_000);
    let on_air = OnAir { index: 0, started_ms: 1_000_000, end_ms: 1_060_000 };
    d.throttle = Throttle { last_watchdog_ms: 0, last_probe_ms: 0 };
    let mut tick = |d: &mut Desk, now: i64, wall: i64| {
        tick_begin(&cfg, now, wall, &mut d.machine, &mut d.status, &mut d.throttle)
    };
    assert_eq!(tick(&mut d, 1_001_500, 50_000), TickStep::Done);
    assert_eq!(tick(&mut d, 1_002_001, 50_000), TickStep::Probe { on_air });
    assert_eq!(d.throttle.last_probe_ms, 50_000);
    let step = after_probe(
        &cfg,
        1_002_001,
        50_000,
        &mut d.machine,
        &mut d.status,
        &mut d.throttle,
        on_air,
    );
    assert_eq!(step, TickStep::Watch { on_air });
    assert_eq!(d.throttle.last_watchdog_ms, 50_000);
    assert_eq!(tick(&mut d, 1_002_051, 50_050), TickStep::Done);
    assert_eq!(tick(&mut d, 1_003_001, 51_000), TickStep::Watch { on_air });
    assert_eq!(tick(&mut d, 1_007_001, 55_000), TickStep::Probe { on_air });
}

#[test]
fn a_file_that_ended_early_ends_at_the_next_tick() {
    let cfg = three();
    let mut d = Desk::playing("a", 1_000_000, 1_060_000);
    let on_air = OnAir { index: 0, started_ms: 1_000_000, end_ms: 1_060_000 };
    let step = after_watch(
        &cfg,
        1_010_000,
        7,
        &mut d.machine,
        &mut d.status,
        on_air,
        Some(1_010_001),
    );
    assert_eq!(step, TickStep::Done);
    assert_eq!(d.state(), "playing a 1000000 1010001");
    d.throttle.last_watchdog_ms = 7;
    // The next row is not due yet.
    assert_eq!(d.begin(&cfg, 1_010_050), TickStep::Done);
    assert_eq!(d.state(), "armed b 1059800 false");
}

#[test]
fn a_bumper_interrupts_and_gives_back() {
    let mut cfg = three();
    cfg.playlist.bumpers.push(bumper("k0", "a", 50_000, 5_000));
    cfg.playlist.bumpers.push(bumper("k1", "a", 30_000, 5_000));
    let mut d = Desk::playing("a", 1_000_000, 1_060_000);
    d.throttle.last_watchdog_ms = 7;
    let on_air = OnAir { index: 0, started_ms: 1_000_000, end_ms: 1_060_000 };
    assert_eq!(d.begin(&cfg, 1_029_799), TickStep::Done);
    assert_eq!(d.begin(&cfg, 1_029_800), TickStep::BumperFile { on_air, bumper: 1 });
    let now = 1_029_800;
    let step =
        after_bumper_file(&cfg, now, 7, &mut d.machine, &mut d.status, on_air, 1, true);
    assert_eq!(step, TickStep::BumperFire { on_air, bumper: 1 });
    let fired = BumperOutcome::Fired;
    let step = after_bumper_fire(&cfg, now, 7, &mut d.machine, &mut d.status, on_air, 1, fired);
    assert_eq!(step, TickStep::Done);
    assert_eq!(d.state(), "bumper a k1 30000");
    assert_eq!(d.status.current_program_name.as_deref(), Some("advert"));
    assert_eq!(d.begin(&cfg, 1_034_999), TickStep::Done);
    assert_eq!(d.status.current_remaining_ms, Some(1));
    assert_eq!(
        d.begin(&cfg, 1_035_000),
        TickStep::ResumePrimary { index: 0, return_to_ms: 30_000 }
    );
    after_resume_primary(&cfg, 1_035_000, 7, &mut d.machine, &mut d.status, 0, 30_000, false);
    assert_eq!(d.state(), "bumper a k1 30000");
    after_resume_primary(&cfg, 1_035_000, 7, &mut d.machine, &mut d.status, 0, 30_000, true);
    // The other half of the program is still to come.
    assert_eq!(d.state(), "playing a 1035000 1065000");
    assert_eq!(d.status.current_remaining_ms, Some(30_000));
}

#[test]
fn a_bumper_that_cannot_play_is_passed_over() {
    let mut cfg = three();
    cfg.playlist.bumpers.push(bumper("k", "a", 30_000, 5_000));
    let mut d = Desk::playing("a", 1_000_000, 1_060_000);
    let on_air = OnAir { index: 0, started_ms: 1_000_000, end_ms: 1_060_000 };
    let now = 1_029_900;
    let step =
        after_bumper_file(&cfg, now, 7, &mut d.machine, &mut d.status, on_air, 0, false);
    assert_eq!(step, TickStep::Done);
    assert_eq!(d.status.current_remaining_ms, Some(30_100));
    d.status.current_remaining_ms = None;
    let offline = BumperOutcome::Offline;
    after_bumper_fire(&cfg, now, 7, &mut d.machine, &mut d.status, on_air, 0, offline);
    assert!(d.status.current_remaining_ms.is_none());
    let failed = BumperOutcome::Failed;
    after_bumper_fire(&cfg, now, 7, &mut d.machine, &mut d.status, on_air, 0, failed);
    assert_eq!(d.status.current_remaining_ms, Some(30_100));
    assert_eq!(d.state(), "playing a 1000000 1060000");
}

#[test]
fn a_bumper_without_its_program_ends_in_idle() {
    let cfg = three();
    let mut d = Desk::new();
    d.machine = SchedulerState::InterstitialPlaying {
        primary_id: "a".to_string(),
        bumper_id: "gone".to_string(),
        return_to_ms: 0,
    };
    assert_eq!(d.begin(&cfg, 0), TickStep::Done);
    assert_eq!(d.state(), "idle");
}

#[test]
fn a_probe_is_kept_on_its_row() {
    let mut cfg = three();
    assert!(store_duration(&mut cfg.playlist.items, "b", 61_234));
    assert_eq!(cfg.playlist.items[1].detected_duration_ms, Some(61_234));
    assert!(!store_duration(&mut cfg.playlist.items, "gone", 1));
}

// ------------------------------------------------------------------------ states

#[test]
fn states_have_labels_and_programs() {
    let d = Desk::playing("a", 0, 1);
    assert_eq!(d.machine.label(), "Playing");
    assert!(d.machine.is_active());
    assert_eq!(d.machine.current_program_id(), Some("a"));
    assert_eq!(SchedulerState::Idle.label(), "Idle");
    assert!(!SchedulerState::Idle.is_active());
    let e = SchedulerState::Error { message: "m".to_string(), until_cleared: false };
    assert_eq!(e.label(), "Error");
    assert!(!e.is_active());
    assert_eq!(e.current_program_id(), None);
    let b = SchedulerState::InterstitialPlaying {
        primary_id: "p".to_string(),
        bumper_id: "k".to_string(),
        return_to_ms: 0,
    };
    assert_eq!(b.label(), "Interstitial");
    assert_eq!(b.current_program_id(), Some("p"));
}

// --------------------------------------------------------------------------- cut

#[test]
fn a_cut_goes_by_the_policy() {
    let (hold, skip, stop) = (
        MissingFilePolicy::HoldFrame,
        MissingFilePolicy::SkipToNext,
        MissingFilePolicy::StopScheduler,
    );
    assert!(matches!(cut_after_file(skip, "/f", true, true), CutStep::SetFile));
    assert!(matches!(
        cut_after_file(skip, "/f", false, true),
        CutStep::Finished(CutOutcome::SkipMissing)
    ));
    match cut_after_file(hold, "/f", false, true) {
        CutStep::Finished(CutOutcome::Failed(e)) => {
            assert_eq!(e, "missing file and policy=HoldFrame: /f")
        }
        other => panic!("{other:?}"),
    }
    match cut_after_file(stop, "/f", false, false) {
        CutStep::Finished(CutOutcome::Stopped(e)) => {
            assert_eq!(e, "missing file and policy=StopScheduler: /f")
        }
        other => panic!("{other:?}"),
    }
    match cut_after_file(skip, "/f", true, false) {
        CutStep::Finished(CutOutcome::Failed(e)) => assert_eq!(e, "no obs-websocket connection"),
        other => panic!("{other:?}"),
    }
    assert!(matches!(cut_after_set(Ok(())), CutStep::SettleThenRestart(300)));
    assert!(matches!(
        cut_after_set(Err("e".to_string())),
        CutStep::Finished(CutOutcome::Failed(_))
    ));
    assert!(matches!(cut_after_restart(Ok(())), CutOutcome::Cut));
    assert!(matches!(cut_after_restart(Err("e".to_string())), CutOutcome::Failed(_)));
    assert!(matches!(preload_check(skip, "/f", false, true), Some(PreloadOutcome::SkipMissing)));
    match preload_check(hold, "/f", false, true) {
        Some(PreloadOutcome::Failed(e)) => assert_eq!(e, "file not found: /f"),
        other => panic!("{other:?}"),
    }
    match preload_check(stop, "/f", false, true) {
        Some(PreloadOutcome::Stopped(e)) => assert_eq!(e, "file not found: /f"),
        other => panic!("{other:?}"),
    }
    match preload_check(skip, "/f", true, false) {
        Some(PreloadOutcome::Failed(e)) => assert_eq!(e, "no obs-websocket connection"),
        other => panic!("{other:?}"),
    }
    assert!(preload_check(stop, "/f", true, true).is_none());
    assert!(matches!(preload_after_set(Ok(())), PreloadOutcome::Ready));
    assert!(matches!(preload_after_set(Err("e".to_string())), PreloadOutcome::Failed(_)));
}

// -------------------------------------------------------------------- interrupts

#[test]
fn bumpers_are_due_in_their_lead_in() {
    let p = row("a", 0, 60_000);
    let list = vec![bumper("x", "other", 1_000, 1), bumper("k", "a", 1_000, 1)];
    assert!(!ready_to_fire(&list, &p, 799, 200));
    assert!(ready_to_fire(&list, &p, 800, 200));
    assert!(ready_to_fire(&list, &p, 999, 200));
    assert!(!ready_to_fire(&list, &p, 1_000, 200));
    assert_eq!(due_bumper(&list, &p, 900, 200), Some(1));
    assert_eq!(return_to_ms(&list[1]), 1_000);
    assert_eq!(remaining_after_bumper(&p, &list[1]), 59_000);
    assert_eq!(remaining_after_bumper(&row("a", 0, 10), &list[1]), 0);
    assert!(pick_bumper_content(&list[1], true).is_some());
    assert!(pick_bumper_content(&list[1], false).is_none());
    let mut primary = bumper("k", "a", 1, 1);
    primary.content.kind = ProgramKind::Primary;
    assert!(pick_bumper_content(&primary, true).is_none());
}

#[test]
fn the_settings_point_at_the_file() {
    let j = settings_payload("/x.mp4");
    assert_eq!(j.get("local_file").and_then(|v| v.as_text()), Some("/x.mp4"));
    assert_eq!(j.get("is_local_file").and_then(|v| v.as_bool()), Some(true));
    assert_eq!(j.get("close_when_inactive").and_then(|v| v.as_bool()), Some(true));
    assert_eq!(j.get("linear_alpha").and_then(|v| v.as_unsigned()), Some(0));
    assert_eq!(j.get("clear_on_media_end").and_then(|v| v.as_bool()), Some(true));
    assert_eq!(j.get("restart_on_activate").and_then(|v| v.as_bool()), Some(false));
}

#[test]
fn a_restart_picks_up_where_the_clock_is() {
    let mut cfg = three();
    assert!(recover(&cfg, 1_000_500).is_none());
    cfg.scheduler.enabled = true;
    match recover(&cfg, 1_000_500) {
        Some(Resume::LiveAt(p, off)) => {
            assert_eq!(p.id, "a");
            assert_eq!(off, 500);
        }
        _ => panic!("not live"),
    }
    assert!(matches!(recover(&cfg, 1_150_000), Some(Resume::SkipTo(p)) if p.id == "c"));
    assert!(matches!(recover(&cfg, 1_000_000 - 86_400_001), Some(Resume::FastForward(_))));
    assert!(matches!(recover(&cfg, 1_000_000 - 86_400_000), Some(Resume::SkipTo(_))));
    assert!(recover(&cfg, 9_000_000).is_none());
}

// --------------------------------------------------------------------- transport

#[test]
fn a_pause_holds_what_is_left() {
    let mut cfg = three();
    let mut d = Desk::playing("a", 1_000_000, 1_060_000);
    assert!(pausable(&d.machine));
    pause(&cfg, 1_020_000, 7, &mut d.machine, &mut d.status);
    assert_eq!(d.state(), "paused a 40000 1020000");
    assert!(d.status.paused);
    assert_eq!(d.status.scheduler_state, "Paused");
    assert!(!pausable(&d.machine));
    pause(&cfg, 1_030_000, 7, &mut d.machine, &mut d.status);
    assert_eq!(d.state(), "paused a 40000 1020000");
    // Ticks leave it alone.
    assert_eq!(d.begin(&cfg, 1_070_000), TickStep::Done);
    assert_eq!(d.state(), "paused a 40000 1020000");
    let mut r = resume(&cfg, 1_100_000, 7, &mut d.machine, &mut d.status).unwrap();
    assert_eq!(d.state(), "playing a 1100000 1140000");
    assert_eq!(d.status.current_remaining_ms, Some(40_000));
    assert_eq!(d.status.current_program_name.as_deref(), Some("name of a"));
    assert!(!d.status.paused);
    assert_eq!((r.program_id.as_str(), r.held_ms, r.in_bumper), ("a", 80_000, false));
    slide(&mut cfg.playlist.items, &r);
    let starts: Vec<i64> = cfg.playlist.items.iter().map(|p| p.start_at_ms).collect();
    assert_eq!(starts, vec![1_000_000, 1_140_000, 1_280_000]);
    r.program_id = "gone".to_string();
    slide(&mut cfg.playlist.items, &r);
    assert_eq!(cfg.playlist.items[1].start_at_ms, 1_140_000);
}

#[test]
fn a_pause_of_what_is_armed_keeps_its_whole_length() {
    let cfg = three();
    let mut d = Desk::new();
    assert!(!pausable(&d.machine));
    pause(&cfg, 0, 7, &mut d.machine, &mut d.status);
    assert_eq!(d.state(), "idle");
    d.begin(&cfg, 500_000);
    pause(&cfg, 600_000, 7, &mut d.machine, &mut d.status);
    assert_eq!(d.state(), "paused a 60000 600000");
    let mut e = Desk::playing("gone", 0, 10);
    pause(&cfg, 20, 7, &mut e.machine, &mut e.status);
    assert_eq!(e.state(), "paused gone 0 20");
    let r = resume(&cfg, 10, 7, &mut e.machine, &mut e.status).unwrap();
    assert_eq!(r.held_ms, 0);
    assert_eq!(e.status.current_program_name.as_deref(), Some(""));
    assert!(resume(&cfg, 10, 7, &mut e.machine, &mut e.status).is_none());
}

#[test]
fn a_pause_in_a_bumper_goes_back_to_it() {
    let mut cfg = three();
    cfg.playlist.bumpers.push(bumper("k", "a", 20_000, 5_000));
    let mut d = Desk::new();
    d.machine = SchedulerState::InterstitialPlaying {
        primary_id: "a".to_string(),
        bumper_id: "k".to_string(),
        return_to_ms: 20_000,
    };
    let before = d.machine.clone();
    // One of its five seconds has run.
    pause(&cfg, 1_021_000, 7, &mut d.machine, &mut d.status);
    assert_eq!(d.state(), "paused a 40000 1021000 in k at 20000");
    assert_eq!(
        handle_command(ControlCommand::Resume, &cfg, 1_031_000, &d.machine, &mut d.status),
        TransportStep::TellPlay
    );
    let r = resume(&cfg, 1_031_000, 7, &mut d.machine, &mut d.status).unwrap();
    assert_eq!(d.machine, before);
    assert!(r.in_bumper && !d.status.paused);
    assert_eq!(d.status.current_program_name.as_deref(), Some("advert"));
    slide(&mut cfg.playlist.items, &r);
    let starts: Vec<i64> = cfg.playlist.items.iter().map(|p| p.start_at_ms).collect();
    assert_eq!(starts, vec![1_010_000, 1_070_000, 1_210_000]);
    // The other four seconds air, then the program goes on.
    assert_eq!(d.begin(&cfg, 1_034_999), TickStep::Done);
    assert_eq!(
        d.begin(&cfg, 1_035_000),
        TickStep::ResumePrimary { index: 0, return_to_ms: 20_000 }
    );
}

#[test]
fn a_bumper_that_is_gone_leaves_its_program() {
    let cfg = three();
    for (primary, state) in [("a", "playing a 20 40020"), ("gone", "playing gone 20 20")] {
        let mut d = Desk::new();
        d.machine = SchedulerState::InterstitialPlaying {
            primary_id: primary.to_string(),
            bumper_id: "k".to_string(),
            return_to_ms: 20_000,
        };
        pause(&cfg, 10, 7, &mut d.machine, &mut d.status);
        let r = resume(&cfg, 20, 7, &mut d.machine, &mut d.status).unwrap();
        assert!(!r.in_bumper);
        assert_eq!(d.state(), state);
    }
}

#[test]
fn a_skip_goes_down_the_playlist() {
    let mut cfg = three();
    let mut d = Desk::playing("a", 1_000_000, 1_060_000);
    d.status.paused = true;
    d.status.last_error = Some("old".to_string());
    let at = skip_target(&cfg, 1_010_000, &d.machine).unwrap();
    assert_eq!(at, 1);
    assert!(after_skip(
        &cfg,
        1_010_000,
        7,
        &mut d.machine,
        &mut d.status,
        at,
        CutOutcome::Cut
    ));
    assert_eq!(d.state(), "playing b 1010000 1070000");
    assert!(!d.status.paused && d.status.last_error.is_none());
    close_up(&mut cfg.playlist.items, "b", 1_010_000);
    let starts: Vec<i64> = cfg.playlist.items.iter().map(|p| p.start_at_ms).collect();
    assert_eq!(starts, vec![1_000_000, 1_010_000, 1_070_000]);
    assert_eq!(skip_target(&cfg, 0, &SchedulerState::Idle), Some(0));
    let last = Desk::playing("c", 0, 1);
    assert_eq!(skip_target(&cfg, 2_000_000, &last.machine), None);
    assert_eq!(skip_target(&cfg, 1_000_500, &last.machine), Some(1));
    nothing_to_skip_to(&mut d.status);
    assert_eq!(d.status.last_error.as_deref(), Some("已经在最后一档，没有下一档可跳"));
}

#[test]
fn a_skip_that_fails_leaves_the_program_on_air() {
    let cfg = three();
    let mut d = Desk::playing("a", 1_000_000, 1_060_000);
    let failed = CutOutcome::Failed("e".to_string());
    assert!(!after_skip(&cfg, 1_010_000, 7, &mut d.machine, &mut d.status, 1, failed));
    assert_eq!(d.state(), "playing a 1000000 1060000");
    assert_eq!(d.status.last_error.as_deref(), Some("跳到下一档失败：e"));
    let stopped = CutOutcome::Stopped("s".to_string());
    assert!(!after_skip(&cfg, 1_010_000, 7, &mut d.machine, &mut d.status, 1, stopped));
    assert_eq!(d.state(), "playing a 1000000 1060000");
    assert_eq!(d.status.last_error.as_deref(), Some("跳到下一档失败：s"));
    let skip = CutOutcome::SkipMissing;
    assert!(!after_skip(&cfg, 1_010_000, 7, &mut d.machine, &mut d.status, 1, skip));
    assert_eq!(d.state(), "armed c 1199800 false");
    let skip = CutOutcome::SkipMissing;
    assert!(!after_skip(&cfg, 1_010_000, 7, &mut d.machine, &mut d.status, 2, skip));
    assert_eq!(d.state(), "idle");
}

#[test]
fn commands_lead_to_their_steps() {
    let cfg = three();
    let mut d = Desk::new();
    let ask = |d: &mut Desk, cmd: ControlCommand, now: i64| {
        handle_command(cmd, &cfg, now, &d.machine, &mut d.status)
    };
    assert_eq!(ask(&mut d, ControlCommand::Pause, 0), TransportStep::Ignore);
    assert_eq!(ask(&mut d, ControlCommand::Resume, 0), TransportStep::Ignore);
    assert_eq!(ask(&mut d, ControlCommand::Next, 0), TransportStep::CutTo { index: 0 });
    assert_eq!(ask(&mut d, ControlCommand::Reload, 0), TransportStep::Reread);
    assert_eq!(ask(&mut d, ControlCommand::Next, 9_000_000), TransportStep::Ignore);
    assert_eq!(d.status.last_error.as_deref(), Some("已经在最后一档，没有下一档可跳"));
    let mut d = Desk::playing("a", 1_000_000, 1_060_000);
    assert_eq!(ask(&mut d, ControlCommand::Pause, 0), TransportStep::TellPause);
    pause(&cfg, 1_000_001, 7, &mut d.machine, &mut d.status);
    assert_eq!(ask(&mut d, ControlCommand::Pause, 0), TransportStep::Ignore);
    assert_eq!(ask(&mut d, ControlCommand::Resume, 0), TransportStep::TellPlay);
}

#[test]
fn a_reload_starts_over() {
    let mut d = Desk::playing("a", 0, 1);
    d.status.current_program_id = Some("a".to_string());
    d.status.paused = true;
    reload_failed(&mut d.status, "bad json");
    assert_eq!(d.status.last_error.as_deref(), Some("重新载入失败：bad json"));
    assert_eq!(d.state(), "playing a 0 1");
    reload_done(&mut d.machine, &mut d.status, 9);
    assert_eq!(d.state(), "idle");
    assert!(d.status.last_error.is_none() && d.status.current_program_id.is_none());
    assert!(!d.status.paused);
    assert_eq!(d.status.scheduler_state, "Idle");
}

// -------------------------------------------------------------------------- watch

#[test]
fn the_watchdog_judges_by_the_media_state() {
    assert!(rolling("OBS_MEDIA_STATE_PLAYING"));
    assert!(rolling("obs_media_state_opening"));
    assert!(rolling("xBufferingx"));
    assert!(!rolling("OBS_MEDIA_STATE_STOPPED"));
    assert_eq!(watchdog("OBS_MEDIA_STATE_PLAYING", 0, 10_000), WatchVerdict::Fine);
    assert_eq!(watchdog("OBS_MEDIA_STATE_ENDED", 8_499, 10_000), WatchVerdict::CutOnEarly);
    assert_eq!(watchdog("OBS_MEDIA_STATE_ENDED", 8_500, 10_000), WatchVerdict::Fine);
    assert_eq!(watchdog("OBS_MEDIA_STATE_PAUSED", 8_500, 10_000), WatchVerdict::Reapply);
    assert_eq!(watchdog("", 0, 10_000), WatchVerdict::Reapply);
}

#[test]
fn a_cut_is_confirmed_or_explained() {
    let mut st = AppStatus::default();
    st.last_error = Some("old".to_string());
    assert!(confirm_first(&mut st, "main", &Ok("OBS_MEDIA_STATE_NONE".to_string())));
    assert_eq!(st.last_error.as_deref(), Some("old"));
    assert!(!confirm_first(&mut st, "main", &Ok("OBS_MEDIA_STATE_PLAYING".to_string())));
    assert!(st.last_error.is_none());
    assert!(!confirm_first(&mut st, "main", &Err("e".to_string())));
    assert_eq!(
        st.last_error.as_deref(),
        Some("无法查询媒体源 'main' 的播放状态：e（目标源名可能不对，请在设置页用下拉选择）")
    );
    confirm_again(&mut st, "main", "/f", &Ok("X".to_string()));
    assert_eq!(
        st.last_error.as_deref(),
        Some(
            "OBS 里媒体源 'main' 仍未播放（mediaState=X）。请检查：① 它是媒体源（不是 VLC 源）；\
             ② 已加入当前场景且可见（未被隐藏）；③ 设置页里的目标源名与 OBS 中完全一致；\
             ④ 文件是 OBS 支持的格式：/f"
        )
    );
    confirm_again(&mut st, "main", "/f", &Err("e".to_string()));
    assert_eq!(st.last_error.as_deref(), Some("复查媒体源 'main' 失败：e"));
    confirm_again(&mut st, "main", "/f", &Ok("opening".to_string()));
    assert!(st.last_error.is_none());
}

// --------------------------------------------------------------------------- loop

#[test]
fn the_loop_copies_the_configuration_every_second() {
    let mut l = LoopState::default();
    let due: Vec<bool> = (0..41).map(|_| snapshot_due(&mut l)).collect();
    let at: Vec<usize> = (0..41).filter(|i| due[*i]).collect();
    assert_eq!(at, vec![19, 39]);
    assert!(wants_running(true, true));
    assert!(!wants_running(true, false) && !wants_running(false, true));
}

#[test]
fn standing_down_clears_the_screen() {
    let mut l = LoopState { ticks: 3, was_active: true, error_since_ms: None };
    let mut d = Desk::playing("a", 0, 1);
    d.status.scheduler_running = true;
    d.status.current_program_id = Some("a".to_string());
    d.status.current_remaining_ms = Some(1);
    d.status.paused = true;
    stand_down(&mut l, &mut d.machine, &mut d.status, 9);
    assert_eq!(d.state(), "idle");
    assert!(!d.status.scheduler_running && !d.status.paused && !l.was_active);
    assert!(d.status.current_program_id.is_none() && d.status.current_remaining_ms.is_none());
    assert_eq!(d.status.last_changed_at, Some(9));
}

#[test]
fn activity_is_shown_when_it_changes() {
    let mut l = LoopState::default();
    let mut d = Desk::playing("a", 0, 1);
    mirror_activity(&mut l, &d.machine, &mut d.status);
    assert!(l.was_active && d.status.scheduler_running);
    d.status.scheduler_running = false;
    mirror_activity(&mut l, &d.machine, &mut d.status);
    assert!(!d.status.scheduler_running);
    mirror_activity(&mut l, &SchedulerState::Idle, &mut d.status);
    assert!(!l.was_active);
    assert_eq!(d.status.scheduler_state, "Idle");
}

#[test]
fn an_error_is_left_behind_after_ten_seconds() {
    let mut l = LoopState::default();
    let mut d = Desk::new();
    d.machine = SchedulerState::Error { message: "m".to_string(), until_cleared: false };
    recover_from_error(&mut l, &mut d.machine, &mut d.status, 1_000);
    assert_eq!(l.error_since_ms, Some(1_000));
    recover_from_error(&mut l, &mut d.machine, &mut d.status, 11_000);
    assert_eq!(d.state(), "error m");
    recover_from_error(&mut l, &mut d.machine, &mut d.status, 11_001);
    assert_eq!(d.state(), "idle");
    assert_eq!(d.status.scheduler_state, "Idle");
    assert!(l.error_since_ms.is_none());
}

#[test]
fn a_stopped_scheduler_waits_for_the_operator() {
    let mut l = LoopState::default();
    let mut d = Desk::new();
    d.machine = SchedulerState::Error { message: "m".to_string(), until_cleared: true };
    for wall in [1_000, 11_001, 10_000_000] {
        recover_from_error(&mut l, &mut d.machine, &mut d.status, wall);
        assert_eq!(d.state(), "stop m");
    }
    reload_done(&mut d.machine, &mut d.status, 10_000_001);
    assert_eq!(d.state(), "idle");
}
