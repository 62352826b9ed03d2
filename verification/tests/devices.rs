use fas_framework::controller::mtk_gpu_miui;
use fas_framework::cpu_common::{Cpu, NextOrLast};
use fas_framework::fas_core::unit::Unit;
use fas_framework::fas_core::utils::{get_controller, get_watcher};
use fas_framework::mtk_gpu::Gpu;
use fas_framework::watcher::watcher_fbt_info::FBTWatcher;
use fas_framework::frame::Control;
use fas_framework::ControllerNeed;

#[test]
fn gpu_from_opp_table() {
    let table = "[0*] freq: 1000000\n[1*] freq: 900000\n[31*] freq: 300000\n";
    let g = Gpu::from_opp_table(table).unwrap();
    assert_eq!(g.max, 31);
    assert!(Gpu::from_opp_table("garbage").is_none());
    assert!(Gpu::from_opp_table("").is_none());
    assert_eq!(mtk_gpu_miui::Gpu::from_opp_table(table).unwrap().max, 31);
}

#[test]
fn gpu_current_index() {
    let g = Gpu { max: 31 };
    let status = "l0\nl1\nl2\nl3\nl4\nl5\nl6\n[GPU-CUR] OPP : 12, 850000\n";
    assert_eq!(g.get_cur(status), 12);
    assert_eq!(g.get_cur("short"), 31);
    assert_eq!(g.get_cur("0\n1\n2\n3\n4\n5\n6\nOPP: x, 1"), 31);
}

#[test]
fn gpu_steps() {
    let g = Gpu { max: 32 };
    assert_eq!(g.g_down(5), 6);
    assert_eq!(g.g_down(32), 32);
    assert_eq!(g.g_up(5), 4);
    assert_eq!(g.g_up(0), 0);
    assert_eq!(g.d_down(3), 8);
    assert_eq!(g.d_down(8), 16);
    assert_eq!(g.d_down(20), 24);
    assert_eq!(g.d_down(30), 32);
    assert_eq!(g.d_up(30), 24);
    assert_eq!(g.d_up(20), 16);
    assert_eq!(g.d_up(10), 8);
    assert_eq!(g.d_up(3), 0);
    assert!(g.d_support());
    let m = mtk_gpu_miui::Gpu { max: 32 };
    assert!(!m.d_support());
    assert_eq!(m.g_down(m.g_up(7)), 7);
}

#[test]
fn gpu_steps_undo() {
    let g = Gpu { max: 20 };
    for c in 0..=20u32 {
        if c >= 1 {
            assert_eq!(g.g_down(g.g_up(c)), c);
        }
        if c < 20 {
            assert_eq!(g.g_up(g.g_down(c)), c);
        }
    }
}

#[test]
fn cpu_table() {
    let c = Cpu::make("/p", "1800000 500000 1200000\n").unwrap();
    assert_eq!(c.freq_table, vec![500000, 1200000, 1800000]);
    assert_eq!(c.path, "/p");
    assert!(Cpu::make("/p", "100 x").is_none());
    assert_eq!(Cpu::make("/p", "").unwrap().freq_table, Vec::<i32>::new());
    assert!(!c.d_support());
    assert_eq!(c.reset_freq(), 1800000);
}

#[test]
fn cpu_refine() {
    let mut c = Cpu::make("/p", "100 200 300").unwrap();
    assert_eq!(c.find_or_refine(200), 1);
    assert_eq!(c.freq_table, vec![100, 200, 300]);
    assert_eq!(c.find_or_refine(260), 2);
    assert_eq!(c.freq_table, vec![100, 200, 260]);
    // a tie goes to the first nearest frequency
    assert_eq!(c.find_or_refine(150), 0);
    assert_eq!(c.freq_table, vec![150, 200, 260]);
}

#[test]
fn cpu_steps() {
    let mut c = Cpu::make("/p", "100 200 300").unwrap();
    assert_eq!(c.get_freq(NextOrLast::Next, "200"), 300);
    assert_eq!(c.get_freq(NextOrLast::Last, "200"), 100);
    assert_eq!(c.get_freq(NextOrLast::Next, "300"), 300);
    assert_eq!(c.get_freq(NextOrLast::Last, "100"), 100);
    // the file's trailing newline makes the text unreadable: the top is used
    assert_eq!(c.get_freq(NextOrLast::Last, "200\n"), 200);
    assert_eq!(c.get_freq(NextOrLast::Next, "210"), 300);
    assert_eq!(c.freq_table, vec![100, 210, 300]);
    assert!(c.step_ok("200"));
    let empty = Cpu::make("/p", "").unwrap();
    assert!(!empty.step_ok("200"));
    let far = Cpu::make("/p", "2000000000").unwrap();
    assert!(!far.step_ok("-2000000000"));
    assert!(far.step_ok("2000000000"));
}

#[test]
fn fbt_frame_time() {
    let mut info = String::new();
    for i in 0..8 {
        info.push_str(&format!("line {}\n", i));
    }
    info.push_str("a b c d e f 123456 g\n");
    assert_eq!(FBTWatcher::parse_ft(&info), Some(123456));
    assert_eq!(FBTWatcher::parse_ft("few lines"), Some(0));
    let bad = info.replace("123456", "x");
    assert_eq!(FBTWatcher::parse_ft(&bad), None);
}

#[test]
fn fbt_frame_rate() {
    let status = "pid tid com.game.x 58 q\npid tid com.game.x 61 q\npid tid other 90 q\nbad line\n";
    assert_eq!(FBTWatcher::parse_fps(status, "com.game.x"), 61);
    assert_eq!(FBTWatcher::parse_fps(status, "com.none"), 0);
    assert_eq!(FBTWatcher::parse_fps("", "x"), 0);
}

#[test]
fn fbt_average() {
    assert_eq!(FBTWatcher::average_fps(&vec![]), 0);
    assert_eq!(FBTWatcher::average_fps(&vec![60, 61, 59, 61]), 60);
    assert_eq!(FBTWatcher::average_fps(&vec![7]), 7);
}

#[test]
fn watcher_choice() {
    assert_eq!(get_watcher(vec![("a", false), ("b", true), ("c", true)]), Ok("b"));
    assert_eq!(
        get_watcher(vec![("a", false)]),
        Err(String::from("There are currently no supported frame-aware schemes for this device"))
    );
}

#[test]
fn controller_split() {
    let r = get_controller(vec![(1, true, true), (2, true, false), (3, false, true), (4, true, true)]);
    assert_eq!(r, Ok((vec![1, 4], vec![2])));
    let e = get_controller(vec![(1, true, false), (2, false, true)]);
    assert_eq!(
        e,
        Err(String::from("This device does not currently have a supported performance controller"))
    );
}

#[derive(Default)]
struct Counter {
    calls: Vec<&'static str>,
}

impl ControllerNeed for Counter {
    fn d_support(&mut self) -> bool {
        true
    }
    fn support(&mut self) -> bool {
        true
    }
    fn g_up(&mut self) {
        self.calls.push("g_up")
    }
    fn g_down(&mut self) {
        self.calls.push("g_down")
    }
    fn d_up(&mut self) {
        self.calls.push("d_up")
    }
    fn d_down(&mut self) {
        self.calls.push("d_down")
    }
    fn g_reset(&mut self) {
        self.calls.push("g_reset")
    }
    fn d_reset(&mut self) {
        self.calls.push("d_reset")
    }
}

#[test]
fn units_dispatch() {
    let mut u = Unit::new(Counter::default());
    assert_eq!(u.up(true), Control::GameUp);
    assert_eq!(u.up(false), Control::DailyUp);
    assert_eq!(u.down(true), Control::GameDown);
    assert_eq!(u.down(false), Control::DailyDown);
    assert_eq!(u.reset(true), Control::GameReset);
    assert_eq!(u.reset(false), Control::DailyReset);
    assert!(u.controller.calls.is_empty());
    let us = Unit::trans(vec![Counter::default(), Counter::default()]);
    assert_eq!(us.len(), 2);
}

#[test]
fn little_cluster() {
    assert!(Cpu::is_little_cluster("policy0"));
    assert!(!Cpu::is_little_cluster("policy4"));
    assert!(!Cpu::is_little_cluster(""));
}

#[test]
fn frame_times_between_readings() {
    assert_eq!(FBTWatcher::frame_time(100, 100), None);
    assert_eq!(FBTWatcher::frame_time(100, 16_766_766), Some(16_766_666));
}
