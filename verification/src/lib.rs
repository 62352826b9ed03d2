//! Frame-aware scheduling: decides, from frame rates and frame times, when
//! to raise or lower the performance of the CPU and GPU of an Android
//! device, and parses what the device reports about itself.
//!
//! Integer overflow. The daemon ships as a release build, where `+` and `-`
//! on integers wrap. Where a value that a device reports in normal use reaches
//! an overflow, the library computes what that build computes, and says so in
//! the contract: a refresh rate below 10 or a target below 2 in
//! `frame::Watcher::get_fps_jank` (a refresh rate of 0 is reported when
//! `dumpsys` names none), and a step down from the lowest frequency in
//! `cpu_common::Cpu::get_freq` (which stays at the lowest). Every other
//! overflow needs values that no device reports (frame rates near `u64::MAX`,
//! billions of rounds in one direction, distances between frequencies beyond
//! `i32`); those inputs are left out by `requires`, and the daemon stops on
//! them as a debug build does.
use vstd::prelude::*;

pub mod controller;
pub mod fas_core;
pub mod cpu_common;
pub mod frame;
pub mod misc;
pub mod mtk_gpu;
pub mod text;
pub mod watcher;
pub mod watcher_fbt_info;

verus! {

/// What the frame rate says about the last measuring window.
#[derive(PartialEq, Eq, Structural, Clone, Copy, Debug)]
pub enum Jank {
    Janked,
    UnJanked,
    Static,
}

/// What the device is doing: daily use at a refresh rate, a game, or not
/// known yet.
#[derive(PartialEq, Eq, Structural, Clone, Copy, Debug)]
pub enum Mode {
    DailyMode(u64),
    GameMode,
    Unknown,
}

/// The direction of the last performance change.
#[derive(PartialEq, Eq, Structural, Clone, Copy, Debug)]
pub enum UpOrDown {
    Up,
    Down,
    Neither,
}

/// A performance controller (a CPU cluster, a GPU) as the framework drives
/// it. Implementations are written by the users of the framework; the
/// scheduler's decisions name the method to call as a `frame::Control`.
pub trait ControllerNeed {
    /// Whether the controller also acts in daily use.
    fn d_support(&mut self) -> bool;

    /// Whether the device has this controller.
    fn support(&mut self) -> bool;

    /// Raises performance in a game.
    fn g_up(&mut self);

    /// Lowers performance in a game.
    fn g_down(&mut self);

    /// Raises performance in daily use.
    fn d_up(&mut self);

    /// Lowers performance in daily use.
    fn d_down(&mut self);

    /// Returns to the controller's state for a game.
    fn g_reset(&mut self);

    /// Returns to the controller's state for daily use.
    fn d_reset(&mut self);
}

} // verus!
