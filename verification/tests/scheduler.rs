use fas_framework::frame::{Control, Watcher};
use fas_framework::{Jank, Mode, UpOrDown};

fn fresh() -> Watcher {
    Watcher::new()
}

#[test]
fn new_watcher_state() {
    let w = fresh();
    assert_eq!(w.target_fps, 120);
    assert_eq!(w.last_mode, Mode::Unknown);
    assert_eq!(w.last_do, UpOrDown::Neither);
    assert_eq!(w.last_count, 0);
}

#[test]
fn game_rounds_escalate() {
    let mut w = fresh();
    assert_eq!(w.game_freq(UpOrDown::Up), vec![]);
    assert_eq!(w.game_freq(UpOrDown::Up), vec![Control::GameUp]);
    assert_eq!(w.game_freq(UpOrDown::Up), vec![Control::GameUp, Control::GameUp]);
    assert_eq!(w.last_count, 2);
    // no step down right after raising
    assert_eq!(w.game_freq(UpOrDown::Down), vec![]);
    assert_eq!(w.game_freq(UpOrDown::Down), vec![Control::GameDown]);
    assert_eq!(w.game_freq(UpOrDown::Down), vec![Control::GameDown, Control::GameDown]);
    assert_eq!(w.game_freq(UpOrDown::Neither), vec![]);
    assert_eq!(w.last_count, 0);
}

#[test]
fn daily_rounds_single_step() {
    let mut w = fresh();
    assert_eq!(w.daily_freq(UpOrDown::Down), vec![Control::DailyDown]);
    assert_eq!(w.daily_freq(UpOrDown::Up), vec![Control::DailyUp]);
    assert_eq!(w.daily_freq(UpOrDown::Down), vec![]);
    assert_eq!(w.daily_freq(UpOrDown::Down), vec![Control::DailyDown]);
    assert_eq!(w.last_count, 0);
}

#[test]
fn mode_changes_reset() {
    let mut w = fresh();
    assert_eq!(w.enter_mode(Mode::Unknown), None);
    assert_eq!(w.enter_mode(Mode::GameMode), Some(Control::GameReset));
    w.game_freq(UpOrDown::Up);
    w.game_freq(UpOrDown::Up);
    assert_eq!(w.enter_mode(Mode::GameMode), None);
    assert_eq!(w.last_count, 1);
    assert_eq!(w.enter_mode(Mode::DailyMode(60)), Some(Control::DailyReset));
    assert_eq!(w.last_count, 0);
    assert_eq!(w.last_do, UpOrDown::Neither);
    assert_eq!(w.enter_mode(Mode::DailyMode(120)), Some(Control::DailyReset));
    assert_eq!(w.last_mode, Mode::DailyMode(120));
}

#[test]
fn resets() {
    let mut w = fresh();
    w.game_freq(UpOrDown::Up);
    w.game_freq(UpOrDown::Up);
    assert_eq!(w.game_reset(), Control::GameReset);
    assert_eq!((w.last_do, w.last_count), (UpOrDown::Neither, 0));
    w.daily_freq(UpOrDown::Up);
    assert_eq!(w.daily_reset(), Control::DailyReset);
    assert_eq!((w.last_do, w.last_count), (UpOrDown::Neither, 0));
}

#[test]
fn target_fps() {
    let mut w = fresh();
    assert_eq!(w.get_target_fps(Mode::DailyMode(90), Some(33)), 90);
    assert_eq!(w.target_fps, 120);
    assert_eq!(w.get_target_fps(Mode::GameMode, None), 120);
    assert_eq!(w.get_target_fps(Mode::GameMode, Some(58)), 60);
    assert_eq!(w.target_fps, 60);
    assert_eq!(w.get_target_fps(Mode::GameMode, Some(87)), 85);
    assert_eq!(w.get_target_fps(Mode::GameMode, None), 85);
    assert_eq!(w.get_target_fps(Mode::Unknown, Some(10)), 0);
}

#[test]
fn fps_verdicts() {
    // daily at 120 Hz: janked between 10 and 110, still at most 30
    assert_eq!(Watcher::get_fps_jank(100, 0, Mode::DailyMode(120)), Jank::Janked);
    assert_eq!(Watcher::get_fps_jank(115, 0, Mode::DailyMode(120)), Jank::UnJanked);
    assert_eq!(Watcher::get_fps_jank(5, 0, Mode::DailyMode(120)), Jank::Static);
    assert_eq!(Watcher::get_fps_jank(10, 0, Mode::DailyMode(120)), Jank::Static);
    // a refresh rate of 0 (not found) wraps below 10
    assert_eq!(Watcher::get_fps_jank(1, 0, Mode::DailyMode(0)), Jank::Janked);
    assert_eq!(Watcher::get_fps_jank(0, 0, Mode::DailyMode(0)), Jank::Static);
    // game: janked more than 2 below the target
    assert_eq!(Watcher::get_fps_jank(57, 60, Mode::GameMode), Jank::Janked);
    assert_eq!(Watcher::get_fps_jank(58, 60, Mode::GameMode), Jank::UnJanked);
    assert_eq!(Watcher::get_fps_jank(0, 0, Mode::Unknown), Jank::UnJanked);
}

#[test]
fn decisions() {
    assert_eq!(Watcher::decide(true, Jank::Janked, false), Some(UpOrDown::Up));
    assert_eq!(Watcher::decide(true, Jank::UnJanked, true), Some(UpOrDown::Up));
    assert_eq!(Watcher::decide(true, Jank::UnJanked, false), Some(UpOrDown::Down));
    assert_eq!(Watcher::decide(true, Jank::Static, false), None);
    assert_eq!(Watcher::decide(false, Jank::Static, true), Some(UpOrDown::Down));
}

#[test]
fn frame_time_verdicts() {
    // 30 Hz refresh: period 33_333_333 ns; target 60: late at >= 18_333_333
    let late = 20_000_000usize;
    let ok = 16_000_000usize;
    let fs = vec![ok, late, late, late, late, ok];
    assert_eq!(Watcher::get_ft_jank(&fs, 6, 30, 60), Ok(true));
    assert_eq!(Watcher::get_ft_jank(&fs, 10, 30, 60), Err(true));
    // only the most recent count frame times are looked at
    assert_eq!(Watcher::get_ft_jank(&fs, 3, 30, 60), Ok(false));
    assert_eq!(Watcher::get_ft_jank(&vec![late, late, late], 3, 30, 60), Ok(false));
    assert_eq!(Watcher::get_ft_jank(&vec![], 0, 0, 0), Ok(false));
    assert_eq!(Watcher::get_ft_jank(&vec![], 5, 0, 0), Err(false));
    // remainders modulo the refresh period count, not whole times
    let two_periods = 33_333_333usize * 2 + 1000;
    assert_eq!(Watcher::get_ft_jank(&vec![two_periods; 5], 5, 30, 60), Ok(false));
    // at a refresh rate as high as the target nothing is ever late
    assert_eq!(Watcher::get_ft_jank(&vec![late; 8], 8, 60, 60), Ok(false));
}

#[test]
fn window_max_and_slots() {
    assert_eq!(Watcher::window_max_fps(&vec![]), 120);
    assert_eq!(Watcher::window_max_fps(&vec![30, 90, 60]), 90);
    assert_eq!(Watcher::window_max_fps(&vec![7]), 7);
    assert_eq!(Watcher::slot_millis(1), 400);
    assert_eq!(Watcher::slot_millis(3), 133);
    assert_eq!(Watcher::slot_millis(4), 100);
}

#[test]
fn current_mode() {
    assert_eq!(Watcher::get_current(true, 60), Mode::GameMode);
    assert_eq!(Watcher::get_current(false, 60), Mode::DailyMode(60));
}

#[test]
fn round_end() {
    assert_eq!(Watcher::frame_count(true, 120), 10);
    assert_eq!(Watcher::frame_count(false, 120), 120);
    assert!(Watcher::ft_verdict(true, Err(true)));
    assert!(!Watcher::ft_verdict(false, Err(true)));
    assert!(Watcher::ft_verdict(false, Ok(true)));
    assert!(!Watcher::ft_verdict(true, Ok(false)));
    let mut w = fresh();
    assert_eq!(w.finish_round(true, Jank::Static, true), vec![]);
    assert_eq!(w, fresh());
    assert_eq!(w.finish_round(true, Jank::Janked, false), vec![]);
    assert_eq!(w.finish_round(true, Jank::UnJanked, true), vec![Control::GameUp]);
    assert_eq!(w.finish_round(false, Jank::Static, true), vec![]);
    assert_eq!(w.last_do, UpOrDown::Down);
    assert_eq!(w.finish_round(false, Jank::Static, false), vec![Control::DailyDown]);
}

#[test]
fn round_windows() {
    assert_eq!(Watcher::round_window(Mode::DailyMode(60), true, 100), Some(300));
    assert_eq!(Watcher::round_window(Mode::DailyMode(60), false, 100), None);
    assert_eq!(Watcher::round_window(Mode::GameMode, false, 133), Some(133));
    assert_eq!(Watcher::round_window(Mode::Unknown, true, 100), None);
    assert!(Watcher::asks_d_support(Mode::DailyMode(0)));
    assert!(!Watcher::asks_d_support(Mode::GameMode));
    assert!(Watcher::needs_rest(99_999_999));
    assert!(!Watcher::needs_rest(100_000_000));
}

#[test]
fn unit_selection() {
    assert_eq!(Watcher::select_units(&vec![true, false, true]), vec![0, 2]);
    assert_eq!(Watcher::select_units(&vec![false, true, true, true, true, true]), vec![1, 2, 3, 4]);
    assert_eq!(Watcher::select_units(&vec![false, false]), Vec::<usize>::new());
}

#[test]
fn game_rounds_make_0_1_2_calls() {
    let mut w = fresh();
    let mut total = 0;
    for k in 0..6 {
        let n = w.game_freq(UpOrDown::Up).len();
        assert_eq!(n, k);
        total += n;
    }
    assert_eq!(total, 6 * 5 / 2);
    for k in 0..4 {
        assert_eq!(w.game_freq(UpOrDown::Down).len(), k);
    }
}

#[test]
fn target_near_max() {
    let mut w = fresh();
    assert_eq!(w.get_target_fps(Mode::GameMode, Some(u64::MAX - 4)), u64::MAX - 5);
}

use fas_framework::frame::{RoundReadings, TargetReading};

fn readings(mode: Mode, d_support: bool, fps: u64, frametimes: Vec<usize>) -> RoundReadings {
    let t = TargetReading { mode, received: None };
    RoundReadings {
        mode,
        d_support,
        first_target: t,
        fps,
        fps_target: t,
        jank_mode: mode,
        frametimes,
        refresh_rate: 60,
        ft_target: t,
    }
}

#[test]
fn whole_rounds() {
    let mut w = fresh();
    // entering a game resets; the first round up makes no step
    let r = readings(Mode::GameMode, false, 30, vec![]);
    assert!(w.play_ok_check(&r));
    assert_eq!(w.round(&r), vec![Control::GameReset]);
    assert_eq!(w.round(&r), vec![Control::GameUp]);
    assert_eq!(w.round(&r), vec![Control::GameUp, Control::GameUp]);
    // a still daily screen steps down after the reset into daily use
    let d = readings(Mode::DailyMode(120), true, 5, vec![]);
    assert_eq!(w.round(&d), vec![Control::DailyReset, Control::DailyDown]);
    assert_eq!(w.last_do, UpOrDown::Down);
    // a controller that stays out of daily use only gets the reset
    let mut v = fresh();
    let off = readings(Mode::DailyMode(120), false, 5, vec![]);
    assert_eq!(v.round(&off), vec![Control::DailyReset]);
    assert_eq!(v.round(&off), vec![]);
    // an unknown mode does nothing
    let u = readings(Mode::Unknown, true, 0, vec![]);
    let before = v;
    assert_eq!(v.round(&u), vec![]);
    assert_eq!(v, before);
}

#[test]
fn round_targets_and_checks() {
    let mut w = fresh();
    let mut r = readings(Mode::GameMode, false, 58, vec![]);
    r.first_target = TargetReading { mode: Mode::GameMode, received: Some(61) };
    w.enter_mode(Mode::GameMode);
    assert_eq!(w.play_round(&r), vec![]);
    assert_eq!(w.target_fps, 60);
    // frame times with a refresh rate of 0 would divide by zero
    let mut bad = readings(Mode::GameMode, false, 58, vec![1, 2, 3]);
    bad.refresh_rate = 0;
    assert!(!w.play_ok_check(&bad));
    bad.frametimes = vec![];
    assert!(w.play_ok_check(&bad));
    let near_max = TargetReading { mode: Mode::GameMode, received: Some(u64::MAX) };
    assert!(!Watcher::target_ok_check(near_max));
    assert!(Watcher::target_ok_check(TargetReading { mode: Mode::DailyMode(1), received: Some(u64::MAX) }));
}
