//! The decisions of one frame-aware scheduling unit: which mode the device
//! is in, whether frames are being dropped, and how far to push its
//! controller up or down.
use vstd::prelude::*;

use crate::misc::{nearest_multiple, next_multiple};
use crate::{Jank, Mode, UpOrDown};

verus! {

/// One call that the scheduler makes on its controller.
#[derive(PartialEq, Eq, Structural, Clone, Copy, Debug)]
pub enum Control {
    GameUp,
    GameDown,
    DailyUp,
    DailyDown,
    GameReset,
    DailyReset,
}

/// The state that one scheduling unit keeps between rounds.
#[derive(PartialEq, Eq, Structural, Clone, Copy, Debug)]
pub struct Watcher {
    /// The frame rate aimed at in a game.
    pub target_fps: u64,
    /// The mode of the last round.
    pub last_mode: Mode,
    /// The direction of the last change.
    pub last_do: UpOrDown,
    /// How many rounds in a row the last direction has been repeated.
    pub last_count: i32,
}

/// `n` copies of `c`.
pub open spec fn repeat(c: Control, n: int) -> Seq<Control> {
    Seq::new(if n > 0 { n as nat } else { 0 }, |k: int| c)
}

/// The state after a game round in direction `u`, and the calls it makes: the
/// run length grows while the direction repeats and starts again at 0 when
/// it changes; up is pushed as many times as the run length, and so is down,
/// except right after a raise.
pub open spec fn game_freq_next(w: Watcher, u: UpOrDown) -> (Watcher, Seq<Control>) {
    let count: int = if w.last_do != u { 0 } else { w.last_count + 1 };
    let acts = match u {
        UpOrDown::Up => repeat(Control::GameUp, count),
        UpOrDown::Down => if w.last_do != UpOrDown::Up {
            repeat(Control::GameDown, count)
        } else {
            Seq::empty()
        },
        UpOrDown::Neither => Seq::empty(),
    };
    (Watcher { last_count: count as i32, last_do: u, ..w }, acts)
}

/// The state after a daily round in direction `u`, and the calls it makes:
/// at most one step, no step down right after a raise.
pub open spec fn daily_freq_next(w: Watcher, u: UpOrDown) -> (Watcher, Seq<Control>) {
    let acts = match u {
        UpOrDown::Up => seq![Control::DailyUp],
        UpOrDown::Down => if w.last_do != UpOrDown::Up {
            seq![Control::DailyDown]
        } else {
            Seq::empty()
        },
        UpOrDown::Neither => Seq::empty(),
    };
    (Watcher { last_count: 0, last_do: u, ..w }, acts)
}

/// A game round in direction `u` can be taken without the run length
/// overflowing.
pub open spec fn game_freq_ok(w: Watcher, u: UpOrDown) -> bool {
    w.last_do == u ==> w.last_count < i32::MAX
}

/// The run length of a scheduling unit is never negative.
pub open spec fn count_ok(w: Watcher) -> bool {
    w.last_count >= 0
}

/// The mode that the device is in.
pub open spec fn current_mode(is_game: bool, refresh_rate: u64) -> Mode {
    if is_game {
        Mode::GameMode
    } else {
        Mode::DailyMode(refresh_rate)
    }
}

/// The frame rate to aim at, and the state after looking it up: the refresh
/// rate in daily use; in a game the last target, or the newly measured best
/// rate rounded to a multiple of 5 when one has arrived; 0 when the mode is
/// not known.
pub open spec fn target_fps_next(w: Watcher, mode: Mode, received: Option<u64>) -> (Watcher, u64) {
    match mode {
        Mode::DailyMode(f) => (w, f),
        Mode::GameMode => match received {
            Some(o) => {
                let t = nearest_multiple(o as nat, 5) as u64;
                (Watcher { target_fps: t, ..w }, t)
            },
            None => (w, w.target_fps),
        },
        Mode::Unknown => (w, 0),
    }
}

/// `a - b` as the released binary computes it on `u64` (wrapping).
pub open spec fn wrapping_sub(a: u64, b: u64) -> u64 {
    if a >= b {
        (a - b) as u64
    } else {
        (a - b + 0x1_0000_0000_0000_0000) as u64
    }
}

/// What the frame rate `fps` says: in daily use at refresh rate `f`, dropped
/// frames when it is above a twelfth of `f` and more than 10 below `f`, a
/// still screen when it is at most a quarter of `f`; in a game, dropped
/// frames when it is more than 2 below the target.
pub open spec fn fps_jank_spec(fps: u64, target_fps: u64, mode: Mode) -> Jank {
    match mode {
        Mode::DailyMode(f) => if fps > f / 12 && fps < wrapping_sub(f, 10) {
            Jank::Janked
        } else if fps <= f / 4 {
            Jank::Static
        } else {
            Jank::UnJanked
        },
        Mode::GameMode => if fps < wrapping_sub(target_fps, 2) {
            Jank::Janked
        } else {
            Jank::UnJanked
        },
        Mode::Unknown => Jank::UnJanked,
    }
}

/// The direction that a round takes from its frame-rate verdict and whether
/// recent frames took too long; `None` when a game round leaves the
/// controller alone (a still screen).
pub open spec fn decide_spec(game: bool, jank: Jank, ft_janked: bool) -> Option<UpOrDown> {
    match jank {
        Jank::Janked => Some(UpOrDown::Up),
        Jank::UnJanked => Some(if ft_janked { UpOrDown::Up } else { UpOrDown::Down }),
        Jank::Static => if game { None } else { Some(UpOrDown::Down) },
    }
}

/// A frame time (ns) counts as late when its remainder modulo the refresh
/// period is at least 110% of the target frame time.
pub open spec fn is_late(v: usize, refresh_rate: u64, target_fps: u64) -> bool {
    v as int % (1_000_000_000int / refresh_rate as int) >= 1_000_000_000int / target_fps as int * 11
        / 10
}

/// How many of `fs` are late.
pub open spec fn late_count(fs: Seq<usize>, refresh_rate: u64, target_fps: u64) -> nat
    decreases fs.len(),
{
    if fs.len() == 0 {
        0
    } else {
        late_count(fs.drop_last(), refresh_rate, target_fps) + if is_late(
            fs.last(),
            refresh_rate,
            target_fps,
        ) {
            1nat
        } else {
            0nat
        }
    }
}

/// The last `min(count, len)` frame times.
pub open spec fn recent(fs: Seq<usize>, count: int) -> Seq<usize> {
    if count < fs.len() {
        fs.skip(fs.len() - count)
    } else {
        fs
    }
}

/// More than 3 of the last `count` frame times are late; `Err` when fewer
/// than `count` frame times arrived.
pub open spec fn ft_jank_spec(fs: Seq<usize>, count: u64, refresh_rate: u64, target_fps: u64) -> Result<
    bool,
    bool,
> {
    let janked = late_count(recent(fs, count as int), refresh_rate, target_fps) > 3;
    if fs.len() < count {
        Err(janked)
    } else {
        Ok(janked)
    }
}

/// The best rate of a window of samples, or 120 when there is none.
pub open spec fn window_max_spec(data: Seq<u64>) -> u64
    decreases data.len(),
{
    if data.len() == 0 {
        120
    } else if data.len() == 1 {
        data[0]
    } else {
        let m = window_max_spec(data.drop_last());
        if data.last() >= m {
            data.last()
        } else {
            m
        }
    }
}

/// The indices `k < n` with `s[k]`, in order.
pub open spec fn supported_indices(s: Seq<bool>, n: int) -> Seq<usize>
    decreases n,
{
    if n <= 0 {
        Seq::empty()
    } else if s[n - 1] {
        supported_indices(s, n - 1).push((n - 1) as usize)
    } else {
        supported_indices(s, n - 1)
    }
}

/// `n`, but at most 4.
pub open spec fn min4(n: nat) -> int {
    if n < 4 {
        n as int
    } else {
        4
    }
}

pub proof fn lemma_supported_indices_len(s: Seq<bool>, n: int)
    requires
        0 <= n,
    ensures
        supported_indices(s, n).len() <= n,
    decreases n,
{
    if n > 0 {
        lemma_supported_indices_len(s, n - 1);
    }
}

/// The state after `k` game rounds in direction `u`.
pub open spec fn game_rounds(w: Watcher, u: UpOrDown, k: nat) -> Watcher
    decreases k,
{
    if k == 0 {
        w
    } else {
        game_freq_next(game_rounds(w, u, (k - 1) as nat), u).0
    }
}

/// How many calls the first `k` game rounds in direction `u` make in all.
pub open spec fn calls_in_rounds(w: Watcher, u: UpOrDown, k: nat) -> nat
    decreases k,
{
    if k == 0 {
        0
    } else {
        calls_in_rounds(w, u, (k - 1) as nat) + game_freq_next(
            game_rounds(w, u, (k - 1) as nat),
            u,
        ).1.len()
    }
}

/// The controller call of direction `u` in a game.
pub open spec fn game_control(u: UpOrDown) -> Control {
    if u == UpOrDown::Up {
        Control::GameUp
    } else {
        Control::GameDown
    }
}

/// Starting from another direction (as after a reset, or a change of
/// direction), the `k`-th further game round in direction `u` (counting
/// from 0) makes exactly `k` calls, and the first `k` rounds make
/// `k (k - 1) / 2` calls in all.
pub proof fn law_game_rounds(w: Watcher, u: UpOrDown, k: nat)
    requires
        u != UpOrDown::Neither,
        w.last_do != u,
        k < i32::MAX,
    ensures
        game_freq_next(game_rounds(w, u, k), u).1 == repeat(game_control(u), k as int),
        game_rounds(w, u, k + 1).last_do == u,
        game_rounds(w, u, k + 1).last_count == k,
        2 * calls_in_rounds(w, u, k + 1) == (k + 1) * k,
    decreases k,
{
    if k == 0 {
        assert(game_freq_next(w, u).1 =~= repeat(game_control(u), 0));
        assert(game_rounds(w, u, 0) == w);
        assert(calls_in_rounds(w, u, 1) == calls_in_rounds(w, u, 0) + game_freq_next(
            game_rounds(w, u, 0),
            u,
        ).1.len());
        assert(calls_in_rounds(w, u, 1) == 0);
        assert((k + 1) * k == 0) by (nonlinear_arith)
            requires
                k == 0,
        ;
    } else {
        law_game_rounds(w, u, (k - 1) as nat);
        let wk = game_rounds(w, u, k);
        assert(wk.last_do == u && wk.last_count == k - 1);
        assert(game_freq_next(wk, u).1 =~= repeat(game_control(u), k as int));
        assert(game_freq_next(wk, u).1.len() == k);
        assert(calls_in_rounds(w, u, k + 1) == calls_in_rounds(w, u, k) + game_freq_next(
            game_rounds(w, u, k),
            u,
        ).1.len());
        assert(2 * calls_in_rounds(w, u, k) == k * (k - 1));
        assert(2 * calls_in_rounds(w, u, k + 1) == 2 * calls_in_rounds(w, u, k) + 2 * k);
        assert((k + 1) * k == k * (k - 1) + 2 * k) by (nonlinear_arith);
    }
}

/// A game or daily round never steps down right after raising performance.
pub proof fn law_no_down_right_after_up(w: Watcher)
    requires
        w.last_do == UpOrDown::Up,
    ensures
        game_freq_next(w, UpOrDown::Down).1.len() == 0,
        daily_freq_next(w, UpOrDown::Down).1.len() == 0,
{
}

/// In a game, the first round in a new direction (and so the first round
/// after a reset) makes no call on the controller.
pub proof fn law_new_direction_waits(w: Watcher, u: UpOrDown)
    requires
        w.last_do != u,
    ensures
        game_freq_next(w, u).1.len() == 0,
        game_freq_next(w, u).0.last_count == 0,
        game_freq_next(w, u).0.last_do == u,
{
}

/// In a game, each further round in the same direction pushes the
/// controller one step more than the round before.
pub proof fn law_repeat_escalates(w: Watcher, u: UpOrDown)
    requires
        u != UpOrDown::Neither,
        count_ok(w),
        game_freq_ok(w, u),
        game_freq_ok(game_freq_next(w, u).0, u),
    ensures
        game_freq_next(game_freq_next(w, u).0, u).1.len() == game_freq_next(w, u).1.len() + 1,
{
}

/// A daily round makes at most one call and keeps no run length.
pub proof fn law_daily_single_step(w: Watcher, u: UpOrDown)
    ensures
        daily_freq_next(w, u).1.len() <= 1,
        daily_freq_next(w, u).0.last_count == 0,
        daily_freq_next(w, u).0.last_do == u,
{
}

/// A target frame rate taken from a measurement in a game is a multiple of 5.
pub proof fn law_game_target_multiple_of_five(w: Watcher, o: u64)
    requires
        o <= u64::MAX - 5,
    ensures
        target_fps_next(w, Mode::GameMode, Some(o)).1 % 5 == 0,
        target_fps_next(w, Mode::GameMode, Some(o)).0.target_fps == target_fps_next(
            w,
            Mode::GameMode,
            Some(o),
        ).1,
{
    crate::misc::law_next_multiple_is_multiple(o as nat, 5);
    let q = o as nat / 5;
    let r = o as nat % 5;
    assert(o as nat == q * 5 + r && r < 5);
}

/// The best rate of a nonempty window is one of its samples and at least
/// every sample.
pub proof fn law_window_max_is_max(data: Seq<u64>)
    requires
        data.len() > 0,
    ensures
        data.contains(window_max_spec(data)),
        forall|k: int| 0 <= k < data.len() ==> data[k] <= window_max_spec(data),
    decreases data.len(),
{
    if data.len() == 1 {
        assert(data[0] == window_max_spec(data));
    } else {
        let init = data.drop_last();
        law_window_max_is_max(init);
        let m = window_max_spec(init);
        let j = choose|j: int| 0 <= j < init.len() && init[j] == m;
        if data.last() >= m {
            assert(data[data.len() - 1] == window_max_spec(data));
        } else {
            assert(data[j] == window_max_spec(data));
        }
        assert forall|k: int| 0 <= k < data.len() implies data[k] <= window_max_spec(data) by {
            if k < data.len() - 1 {
                assert(data[k] == init[k]);
            }
        }
    }
}

/// A lookup of the target frame rate: the mode at that moment, and the best
/// rate received in a game, if one arrived (the channel is only polled in a
/// game).
#[derive(PartialEq, Eq, Structural, Clone, Copy, Debug)]
pub struct TargetReading {
    pub mode: Mode,
    pub received: Option<u64>,
}

/// What a round reads after entering its mode, in the order it reads it.
pub struct RoundReadings {
    /// The mode that the round entered.
    pub mode: Mode,
    /// Whether the controller acts in daily use (asked only in daily use).
    pub d_support: bool,
    /// The target looked up before measuring.
    pub first_target: TargetReading,
    /// The frame rate measured over the round's window.
    pub fps: u64,
    /// The target looked up after measuring.
    pub fps_target: TargetReading,
    /// The mode when the frame rate is judged.
    pub jank_mode: Mode,
    /// The frame times (ns) that arrived since the last round, in order.
    pub frametimes: Vec<usize>,
    /// The refresh rate read after the frame times.
    pub refresh_rate: u64,
    /// The target looked up after the frame times.
    pub ft_target: TargetReading,
}

/// The state after entering `mode` at the start of a round, and the reset
/// call it makes.
pub open spec fn enter_mode_next(w: Watcher, mode: Mode) -> (Watcher, Option<Control>) {
    if mode == Mode::Unknown || mode == w.last_mode {
        (w, None)
    } else {
        (
            Watcher { last_mode: mode, last_do: UpOrDown::Neither, last_count: 0, ..w },
            Some(
                if mode == Mode::GameMode {
                    Control::GameReset
                } else {
                    Control::DailyReset
                },
            ),
        )
    }
}

/// How many recent frame times a round looks at.
pub open spec fn frame_count_spec(game: bool, target_fps: u64) -> u64 {
    if game {
        target_fps / 12
    } else {
        target_fps
    }
}

/// Whether recent frames took too long, from the frame-time verdict.
pub open spec fn ft_verdict_spec(game: bool, r: Result<bool, bool>) -> bool {
    match r {
        Ok(x) => x,
        Err(x) => game && x,
    }
}

/// The end of a round: its direction and the calls in a game or in daily
/// use.
pub open spec fn finish_next(w: Watcher, game: bool, jank: Jank, ft_janked: bool) -> (
    Watcher,
    Seq<Control>,
) {
    match decide_spec(game, jank, ft_janked) {
        None => (w, Seq::empty()),
        Some(u) => if game {
            game_freq_next(w, u)
        } else {
            daily_freq_next(w, u)
        },
    }
}

/// A target lookup that `get_target_fps` can take.
pub open spec fn target_ok(t: TargetReading) -> bool {
    t.mode == Mode::GameMode && t.received is Some ==> t.received->0 - t.received->0 % 5 + 5
        <= u64::MAX
}

/// Whether a round with these readings ends right after entering its mode.
pub open spec fn round_stops(r: RoundReadings) -> bool {
    r.mode == Mode::Unknown || (r.mode is DailyMode && !r.d_support)
}

/// The states of a round that goes on after entering its mode (from the
/// state `w` just after entering): after each target lookup, the target
/// looked up before measuring, the frame-rate verdict, and the frame-time
/// verdict.
pub open spec fn measured(w: Watcher, r: RoundReadings) -> (Watcher, u64, Jank, bool) {
    let game = r.mode == Mode::GameMode;
    let (w2, t1) = target_fps_next(w, r.first_target.mode, r.first_target.received);
    let (w3, t2) = target_fps_next(w2, r.fps_target.mode, r.fps_target.received);
    let jank = fps_jank_spec(r.fps, t2, r.jank_mode);
    let (w4, t3) = target_fps_next(w3, r.ft_target.mode, r.ft_target.received);
    let ft = ft_jank_spec(r.frametimes@, frame_count_spec(game, t1), r.refresh_rate, t3);
    (w4, t1, jank, ft_verdict_spec(game, ft))
}

/// The part of a round after entering its mode, from the state `w` just
/// after entering: the next state and the calls.
pub open spec fn play_next(w: Watcher, r: RoundReadings) -> (Watcher, Seq<Control>) {
    if round_stops(r) {
        (w, Seq::empty())
    } else {
        let (w4, t1, jank, ftj) = measured(w, r);
        finish_next(w4, r.mode == Mode::GameMode, jank, ftj)
    }
}

/// A whole round from state `w`: enter the mode, then play it; the next
/// state and all the calls, in order.
pub open spec fn round_next(w: Watcher, r: RoundReadings) -> (Watcher, Seq<Control>) {
    let (w1, reset) = enter_mode_next(w, r.mode);
    let head = match reset {
        Some(c) => seq![c],
        None => Seq::<Control>::empty(),
    };
    (play_next(w1, r).0, head + play_next(w1, r).1)
}

/// The readings keep the round from overflowing or dividing by zero, from
/// the state `w` just after entering.
pub open spec fn play_ok(w: Watcher, r: RoundReadings) -> bool {
    round_stops(r) || {
        let game = r.mode == Mode::GameMode;
        let (w2, t1) = target_fps_next(w, r.first_target.mode, r.first_target.received);
        let (w3, t2) = target_fps_next(w2, r.fps_target.mode, r.fps_target.received);
        let (w4, t3) = target_fps_next(w3, r.ft_target.mode, r.ft_target.received);
        let count = frame_count_spec(game, t1);
        let (w4b, t1b, jank, ftj) = measured(w, r);
        &&& target_ok(r.first_target)
        &&& target_ok(r.fps_target)
        &&& target_ok(r.ft_target)
        &&& count <= usize::MAX
        &&& recent(r.frametimes@, count as int).len() > 0 ==> 0 < r.refresh_rate <= 1_000_000_000
            && t3 > 0
        &&& game && decide_spec(game, jank, ftj) is Some ==> game_freq_ok(
            w4,
            decide_spec(game, jank, ftj)->0,
        )
    }
}

/// A game round never makes a daily call, and a daily round never makes a
/// game call.
pub proof fn law_round_keeps_to_its_mode(w: Watcher, r: RoundReadings)
    ensures
        r.mode == Mode::GameMode ==> forall|k: int|
            0 <= k < round_next(w, r).1.len() ==> #[trigger] round_next(w, r).1[k]
                == Control::GameUp || round_next(w, r).1[k] == Control::GameDown || round_next(
                w,
                r,
            ).1[k] == Control::GameReset,
        r.mode is DailyMode ==> forall|k: int|
            0 <= k < round_next(w, r).1.len() ==> #[trigger] round_next(w, r).1[k]
                == Control::DailyUp || round_next(w, r).1[k] == Control::DailyDown || round_next(
                w,
                r,
            ).1[k] == Control::DailyReset,
{
}

/// A round of unknown mode changes nothing and makes no call; so does a
/// daily round whose controller stays out of daily use, but for the reset
/// on entering daily use.
pub proof fn law_round_stops(w: Watcher, r: RoundReadings)
    requires
        round_stops(r),
    ensures
        round_next(w, r).0 == enter_mode_next(w, r.mode).0,
        r.mode == Mode::Unknown ==> round_next(w, r).0 == w && round_next(w, r).1.len() == 0,
        round_next(w, r).1.len() <= 1,
{
    assert(round_next(w, r).1 =~= match enter_mode_next(w, r.mode).1 {
        Some(c) => seq![c],
        None => Seq::<Control>::empty(),
    });
}

/// A daily round in which the frame rate shows a still screen steps down
/// (its last call is `DailyDown`) unless the last step was up; it never
/// steps up.
pub proof fn law_still_daily_round_steps_down(w: Watcher, r: RoundReadings)
    requires
        r.mode is DailyMode,
        r.d_support,
        measured(enter_mode_next(w, r.mode).0, r).2 == Jank::Static,
    ensures
        round_next(w, r).0.last_do == UpOrDown::Down,
        w.last_do != UpOrDown::Up ==> round_next(w, r).1.last() == Control::DailyDown,
        !round_next(w, r).1.contains(Control::DailyUp),
{
    let (w1, reset) = enter_mode_next(w, r.mode);
    let m = measured(w1, r);
    assert(m.0.last_do == w1.last_do);
    let tail = play_next(w1, r).1;
    let head = match reset {
        Some(c) => seq![c],
        None => Seq::<Control>::empty(),
    };
    assert(round_next(w, r).1 == head + tail);
    if round_next(w, r).1.contains(Control::DailyUp) {
        let k = choose|k: int| 0 <= k < round_next(w, r).1.len() && round_next(w, r).1[k] == Control::DailyUp;
        if k < head.len() {
        } else {
            assert(tail[k - head.len()] == Control::DailyUp);
        }
    }
}

/// Only the most recent frame times matter: frame times that arrived
/// before the last `count` do not change the verdict.
pub proof fn law_ft_jank_ignores_older(
    p: Seq<usize>,
    fs: Seq<usize>,
    count: u64,
    refresh_rate: u64,
    target_fps: u64,
)
    requires
        fs.len() >= count,
    ensures
        ft_jank_spec(p + fs, count, refresh_rate, target_fps) == ft_jank_spec(
            fs,
            count,
            refresh_rate,
            target_fps,
        ),
{
    let all = p + fs;
    if (count as int) < all.len() {
        if (count as int) < fs.len() {
            assert(all.skip(all.len() - count) =~= fs.skip(fs.len() - count));
        } else {
            assert(all.skip(all.len() - count) =~= fs);
        }
    }
}

proof fn lemma_late_count_zero(fs: Seq<usize>, refresh_rate: u64, target_fps: u64)
    requires
        forall|k: int|
            0 <= k < fs.len() ==> (#[trigger] fs[k]) as int % (1_000_000_000int / refresh_rate as int)
                < 1_000_000_000int / target_fps as int * 11 / 10,
    ensures
        late_count(fs, refresh_rate, target_fps) == 0,
    decreases fs.len(),
{
    if fs.len() > 0 {
        let init = fs.drop_last();
        assert forall|k: int| 0 <= k < init.len() implies (#[trigger] init[k]) as int % (1_000_000_000int
            / refresh_rate as int) < 1_000_000_000int / target_fps as int * 11 / 10 by {
            assert(init[k] == fs[k]);
        }
        lemma_late_count_zero(init, refresh_rate, target_fps);
        assert(fs.last() == fs[fs.len() - 1]);
    }
}

/// When each of the last `count` frame times leaves, modulo the refresh
/// period (1e9 / `refresh_rate` ns), less than 110% of the target frame
/// time (1e9 / `target_fps` ns), the verdict is "not janked", whatever came
/// before them.
pub proof fn law_ft_jank_on_time_recent(fs: Seq<usize>, count: u64, refresh_rate: u64, target_fps: u64)
    requires
        fs.len() >= count,
        forall|k: int|
            fs.len() - count <= k < fs.len() ==> (#[trigger] fs[k]) as int % (1_000_000_000int
                / refresh_rate as int) < 1_000_000_000int / target_fps as int * 11 / 10,
    ensures
        ft_jank_spec(fs, count, refresh_rate, target_fps) == Ok::<bool, bool>(false),
{
    let r = recent(fs, count as int);
    assert(r =~= fs.skip(fs.len() - count));
    assert forall|k: int| 0 <= k < r.len() implies (#[trigger] r[k]) as int % (1_000_000_000int
        / refresh_rate as int) < 1_000_000_000int / target_fps as int * 11 / 10 by {
        assert(r[k] == fs[fs.len() - count + k]);
    }
    lemma_late_count_zero(r, refresh_rate, target_fps);
}

/// In daily use at a refresh rate `f` of at least 10, a frame rate above
/// `f / 12` and below `f - 10` means dropped frames, one at most `f / 12`
/// means a still screen, and one from `f - 10` up to `f / 4` (or above both
/// bounds) means neither. In a game with a target of at least 2, a rate more
/// than 2 below the target means dropped frames, and any other rate none.
pub proof fn law_fps_jank_bands(fps: u64, target_fps: u64, f: u64)
    ensures
        f >= 10 && f / 12 < fps && fps < f - 10 ==> fps_jank_spec(fps, target_fps, Mode::DailyMode(f))
            == Jank::Janked,
        fps <= f / 12 ==> fps_jank_spec(fps, target_fps, Mode::DailyMode(f)) == Jank::Static,
        f >= 10 && fps >= f - 10 && fps > f / 4 ==> fps_jank_spec(
            fps,
            target_fps,
            Mode::DailyMode(f),
        ) == Jank::UnJanked,
        target_fps >= 2 && fps + 2 < target_fps ==> fps_jank_spec(fps, target_fps, Mode::GameMode)
            == Jank::Janked,
        target_fps >= 2 && fps + 2 >= target_fps ==> fps_jank_spec(fps, target_fps, Mode::GameMode)
            == Jank::UnJanked,
{
    assert(f / 12 <= f / 4);
}

/// A round's direction does not depend on whether it is a game, except for a
/// still screen: dropped frames raise performance; otherwise late frame
/// times raise it and frames on time lower it. A still screen lowers it in
/// daily use and leaves it alone in a game.
pub proof fn law_decide_directions(game: bool, ft_janked: bool)
    ensures
        decide_spec(game, Jank::Janked, ft_janked) == Some(UpOrDown::Up),
        decide_spec(game, Jank::UnJanked, true) == Some(UpOrDown::Up),
        decide_spec(game, Jank::UnJanked, false) == Some(UpOrDown::Down),
        decide_spec(true, Jank::Janked, ft_janked) == decide_spec(false, Jank::Janked, ft_janked),
        decide_spec(true, Jank::UnJanked, ft_janked) == decide_spec(
            false,
            Jank::UnJanked,
            ft_janked,
        ),
        decide_spec(false, Jank::Static, ft_janked) == Some(UpOrDown::Down),
        decide_spec(true, Jank::Static, ft_janked) is None,
{
}

/// The verdict is an `Err` exactly when fewer than `count` frame times
/// arrived.
pub proof fn law_ft_jank_err_when_short(fs: Seq<usize>, count: u64, refresh_rate: u64, target_fps: u64)
    ensures
        ft_jank_spec(fs, count, refresh_rate, target_fps) is Err <==> fs.len() < count,
{
}

proof fn lemma_late_count_append(a: Seq<usize>, b: Seq<usize>, refresh_rate: u64, target_fps: u64)
    ensures
        late_count(a + b, refresh_rate, target_fps) == late_count(a, refresh_rate, target_fps)
            + late_count(b, refresh_rate, target_fps),
    decreases b.len(),
{
    if b.len() == 0 {
        assert(a + b =~= a);
    } else {
        lemma_late_count_append(a, b.drop_last(), refresh_rate, target_fps);
        assert((a + b).drop_last() =~= a + b.drop_last());
        assert((a + b).last() == b.last());
    }
}

proof fn lemma_late_count_at_least_one(s: Seq<usize>, k: int, refresh_rate: u64, target_fps: u64)
    requires
        0 <= k < s.len(),
        is_late(s[k], refresh_rate, target_fps),
    ensures
        late_count(s, refresh_rate, target_fps) >= 1,
{
    let a = s.take(k + 1);
    lemma_late_count_append(a, s.skip(k + 1), refresh_rate, target_fps);
    assert(a + s.skip(k + 1) =~= s);
    assert(a.last() == s[k]);
}

/// Four late frame times among the last `count` (each leaving, modulo the
/// refresh period, at least 110% of the target frame time) make the verdict
/// "janked".
pub proof fn law_ft_jank_four_late_recent(
    fs: Seq<usize>,
    count: u64,
    refresh_rate: u64,
    target_fps: u64,
    i1: int,
    i2: int,
    i3: int,
    i4: int,
)
    requires
        0 <= i1,
        fs.len() - count <= i1 < i2 < i3 < i4 < fs.len(),
        forall|k: int|
            k == i1 || k == i2 || k == i3 || k == i4 ==> (#[trigger] fs[k]) as int % (1_000_000_000int
                / refresh_rate as int) >= 1_000_000_000int / target_fps as int * 11 / 10,
    ensures
        ft_jank_spec(fs, count, refresh_rate, target_fps) == (if fs.len() < count {
            Err::<bool, bool>(true)
        } else {
            Ok::<bool, bool>(true)
        }),
{
    let r = recent(fs, count as int);
    let off = fs.len() - r.len();
    assert(r =~= fs.skip(off));
    assert(0 <= off <= i1);
    assert(fs[i1] == r[i1 - off] && fs[i2] == r[i2 - off] && fs[i3] == r[i3 - off] && fs[i4] == r[i4 - off]);
    let j1 = i2 - off;
    let j2 = i3 - off;
    let j3 = i4 - off;
    let p0 = r.take(j1);
    let p1 = r.subrange(j1, j2);
    let p2 = r.subrange(j2, j3);
    let p3 = r.skip(j3);
    assert(r =~= p0 + p1 + p2 + p3);
    lemma_late_count_append(p0 + p1 + p2, p3, refresh_rate, target_fps);
    lemma_late_count_append(p0 + p1, p2, refresh_rate, target_fps);
    lemma_late_count_append(p0, p1, refresh_rate, target_fps);
    lemma_late_count_at_least_one(p0, i1 - off, refresh_rate, target_fps);
    lemma_late_count_at_least_one(p1, 0, refresh_rate, target_fps);
    lemma_late_count_at_least_one(p2, 0, refresh_rate, target_fps);
    lemma_late_count_at_least_one(p3, 0, refresh_rate, target_fps);
}

impl Watcher {
    /// A unit that has not seen a round yet.
    pub fn new() -> (w: Watcher)
        ensures
            w == (Watcher {
                target_fps: 120,
                last_mode: Mode::Unknown,
                last_do: UpOrDown::Neither,
                last_count: 0,
            }),
    {
        Watcher { target_fps: 120, last_mode: Mode::Unknown, last_do: UpOrDown::Neither, last_count: 0 }
    }

    /// The mode that the device is in: a game, or daily use at the given
    /// refresh rate.
    pub fn get_current(is_game: bool, refresh_rate: u64) -> (m: Mode)
        ensures
            m == current_mode(is_game, refresh_rate),
    {
        if is_game {
            Mode::GameMode
        } else {
            Mode::DailyMode(refresh_rate)
        }
    }

    /// The frame rate to aim at in `mode`; in a game, `received` is the best
    /// rate measured since the last look, if one arrived.
    pub fn get_target_fps(&mut self, mode: Mode, received: Option<u64>) -> (t: u64)
        requires
            mode == Mode::GameMode && received is Some ==> received->0 - received->0 % 5 + 5
                <= u64::MAX,
        ensures
            (*final(self), t) == target_fps_next(*old(self), mode, received),
    {
        match mode {
            Mode::DailyMode(f) => f,
            Mode::GameMode => match received {
                Some(o) => {
                    self.target_fps = next_multiple(o, 5);
                    self.target_fps
                },
                None => self.target_fps,
            },
            Mode::Unknown => 0,
        }
    }

    /// A game round in direction `u`: the calls to make on the controller.
    pub fn game_freq(&mut self, u: UpOrDown) -> (acts: Vec<Control>)
        requires
            game_freq_ok(*old(self), u),
        ensures
            (*final(self), acts@) == game_freq_next(*old(self), u),
            count_ok(*old(self)) ==> count_ok(*final(self)),
    {
        if self.last_do != u {
            self.last_count = 0;
        } else {
            self.last_count = self.last_count + 1;
        }
        let mut acts: Vec<Control> = Vec::new();
        let act = match u {
            UpOrDown::Up => Some(Control::GameUp),
            UpOrDown::Down => if self.last_do != UpOrDown::Up {
                Some(Control::GameDown)
            } else {
                None
            },
            UpOrDown::Neither => None,
        };
        if let Some(c) = act {
            let mut k: i32 = 0;
            while k < self.last_count
                invariant
                    0 <= k,
                    k <= self.last_count || k == 0,
                    acts@ == repeat(c, k as int),
                decreases self.last_count - k,
            {
                acts.push(c);
                k = k + 1;
                assert(acts@ =~= repeat(c, k as int));
            }
        }
        self.last_do = u;
        assert(acts@ =~= game_freq_next(*old(self), u).1);
        acts
    }

    /// A daily round in direction `u`: the calls to make on the controller.
    pub fn daily_freq(&mut self, u: UpOrDown) -> (acts: Vec<Control>)
        ensures
            (*final(self), acts@) == daily_freq_next(*old(self), u),
    {
        self.last_count = 0;
        let mut acts: Vec<Control> = Vec::new();
        match u {
            UpOrDown::Up => {
                acts.push(Control::DailyUp);
            },
            UpOrDown::Down => {
                if self.last_do != UpOrDown::Up {
                    acts.push(Control::DailyDown);
                }
            },
            UpOrDown::Neither => {},
        }
        self.last_do = u;
        assert(acts@ =~= daily_freq_next(*old(self), u).1);
        acts
    }

    /// Forgets the last direction on entering a game.
    pub fn game_reset(&mut self) -> (c: Control)
        ensures
            *final(self) == (Watcher { last_do: UpOrDown::Neither, last_count: 0, ..*old(self) }),
            c == Control::GameReset,
    {
        self.last_do = UpOrDown::Neither;
        self.last_count = 0;
        Control::GameReset
    }

    /// Forgets the last direction on entering daily use.
    pub fn daily_reset(&mut self) -> (c: Control)
        ensures
            *final(self) == (Watcher { last_do: UpOrDown::Neither, last_count: 0, ..*old(self) }),
            c == Control::DailyReset,
    {
        self.last_do = UpOrDown::Neither;
        self.last_count = 0;
        Control::DailyReset
    }

    /// The start of a round in `mode`: on a change into daily use or a game
    /// the unit records the mode and resets; the reset call is returned.
    pub fn enter_mode(&mut self, mode: Mode) -> (c: Option<Control>)
        ensures
            mode == Mode::Unknown || mode == old(self).last_mode ==> *final(self) == *old(self)
                && c is None,
            mode != Mode::Unknown && mode != old(self).last_mode ==> *final(self) == (Watcher {
                last_mode: mode,
                last_do: UpOrDown::Neither,
                last_count: 0,
                ..*old(self)
            }) && c == Some(
                if mode == Mode::GameMode {
                    Control::GameReset
                } else {
                    Control::DailyReset
                },
            ),
    {
        match mode {
            Mode::DailyMode(a) => {
                if self.last_mode != Mode::DailyMode(a) {
                    self.last_mode = Mode::DailyMode(a);
                    Some(self.daily_reset())
                } else {
                    None
                }
            },
            Mode::GameMode => {
                if self.last_mode != Mode::GameMode {
                    self.last_mode = Mode::GameMode;
                    Some(self.game_reset())
                } else {
                    None
                }
            },
            Mode::Unknown => None,
        }
    }

    /// The direction of a round from the frame-rate verdict and the
    /// frame-time verdict (`None`: leave the controller alone).
    pub fn decide(game: bool, jank: Jank, ft_janked: bool) -> (d: Option<UpOrDown>)
        ensures
            d == decide_spec(game, jank, ft_janked),
    {
        match jank {
            Jank::Janked => Some(UpOrDown::Up),
            Jank::UnJanked => {
                if ft_janked {
                    Some(UpOrDown::Up)
                } else {
                    Some(UpOrDown::Down)
                }
            },
            Jank::Static => {
                if game {
                    None
                } else {
                    Some(UpOrDown::Down)
                }
            },
        }
    }

    /// What the measured frame rate `fps` says in `mode`, given the target
    /// frame rate of a game.
    pub fn get_fps_jank(fps: u64, target_fps: u64, mode: Mode) -> (j: Jank)
        ensures
            j == fps_jank_spec(fps, target_fps, mode),
    {
        match mode {
            Mode::DailyMode(f) => {
                if fps > f / 12 && fps < f.wrapping_sub(10) {
                    Jank::Janked
                } else if fps <= f / 4 {
                    Jank::Static
                } else {
                    Jank::UnJanked
                }
            },
            Mode::GameMode => {
                if fps < target_fps.wrapping_sub(2) {
                    Jank::Janked
                } else {
                    Jank::UnJanked
                }
            },
            Mode::Unknown => Jank::UnJanked,
        }
    }

    /// Whether more than 3 of the last `count` frame times (`frametimes` in
    /// arrival order, in ns) are late at the refresh rate and target frame
    /// rate; `Err` when fewer than `count` arrived.
    pub fn get_ft_jank(frametimes: &Vec<usize>, count: u64, refresh_rate: u64, target_fps: u64) -> (r:
        Result<bool, bool>)
        requires
            count <= usize::MAX,
            recent(frametimes@, count as int).len() > 0 ==> 0 < refresh_rate <= 1_000_000_000
                && target_fps > 0,
        ensures
            r == ft_jank_spec(frametimes@, count, refresh_rate, target_fps),
    {
        let n = frametimes.len();
        let c = count as usize;
        let first = if c < n { n - c } else { 0 };
        let ghost fs = frametimes@;
        assert(recent(fs, count as int) =~= fs.subrange(first as int, n as int));
        let mut jank_count: u64 = 0;
        let mut i = first;
        while i < n
            invariant
                n == frametimes.len(),
                fs == frametimes@,
                first <= i <= n,
                first < n ==> 0 < refresh_rate <= 1_000_000_000 && target_fps > 0,
                jank_count == late_count(fs.subrange(first as int, i as int), refresh_rate, target_fps),
                jank_count <= i - first,
            decreases n - i,
        {
            assert(1_000_000_000u64 / refresh_rate >= 1) by (nonlinear_arith)
                requires
                    0 < refresh_rate <= 1_000_000_000,
            ;
            let sc_f = (1_000_000_000u64 / refresh_rate) as usize;
            let o = frametimes[i] % sc_f;
            assert(fs.subrange(first as int, i + 1).drop_last() =~= fs.subrange(first as int, i as int));
            if o >= (1_000_000_000u64 / target_fps * 11 / 10) as usize {
                jank_count = jank_count + 1;
            }
            i = i + 1;
        }
        let janked = jank_count > 3;
        if n < c {
            Err(janked)
        } else {
            Ok(janked)
        }
    }

    /// The window (ms) over which a round in `mode` measures the frame rate,
    /// or `None` when the round ends after entering the mode: daily use
    /// measures over 300 ms, if the controller acts in daily use; a game
    /// over the unit's share `slot_ms` of the 400 ms round; an unknown mode
    /// not at all. `d_support` is only asked in daily use.
    pub fn round_window(mode: Mode, d_support: bool, slot_ms: u64) -> (r: Option<u64>)
        ensures
            r == (match mode {
                Mode::DailyMode(_) => if d_support {
                    Some(300u64)
                } else {
                    None
                },
                Mode::GameMode => Some(slot_ms),
                Mode::Unknown => None,
            }),
    {
        match mode {
            Mode::DailyMode(_) => {
                if d_support {
                    Some(300)
                } else {
                    None
                }
            },
            Mode::GameMode => Some(slot_ms),
            Mode::Unknown => None,
        }
    }

    /// Whether a round in `mode` asks its controller whether it acts in
    /// daily use (only in daily use).
    pub fn asks_d_support(mode: Mode) -> (b: bool)
        ensures
            b == (mode is DailyMode),
    {
        match mode {
            Mode::DailyMode(_) => true,
            _ => false,
        }
    }

    /// The controllers that get a scheduling unit: the supported ones, in
    /// order, at most four of them (given by index into `supported`).
    pub fn select_units(supported: &Vec<bool>) -> (r: Vec<usize>)
        ensures
            r@ == supported_indices(supported@, supported@.len() as int).take(
                min4(supported_indices(supported@, supported@.len() as int).len()),
            ),
    {
        let ghost all = supported_indices(supported@, supported@.len() as int);
        let mut r: Vec<usize> = Vec::new();
        let mut i: usize = 0;
        while i < supported.len()
            invariant
                i <= supported.len(),
                all == supported_indices(supported@, supported@.len() as int),
                r@ == supported_indices(supported@, i as int),
            decreases supported.len() - i,
        {
            if supported[i] {
                r.push(i);
            }
            i = i + 1;
        }
        proof {
            lemma_supported_indices_len(supported@, supported@.len() as int);
        }
        if r.len() > 4 {
            r.truncate(4);
        }
        assert(r@ =~= all.take(min4(all.len())));
        r
    }

    /// Whether a round of `elapsed_nanos` ns was short enough that the
    /// scheduler pauses for 100 ms before the next one.
    pub fn needs_rest(elapsed_nanos: u128) -> (b: bool)
        ensures
            b == (elapsed_nanos < 100_000_000),
    {
        elapsed_nanos < 100_000_000
    }

    /// How many recent frame times a round looks at: a twelfth of the target
    /// in a game, the target in daily use.
    pub fn frame_count(game: bool, target_fps: u64) -> (c: u64)
        ensures
            c == (if game {
                target_fps / 12
            } else {
                target_fps
            }),
    {
        if game {
            target_fps / 12
        } else {
            target_fps
        }
    }

    /// Whether recent frames took too long: in a game whatever the frame
    /// times say, even when fewer than asked for arrived; in daily use only
    /// when enough arrived.
    pub fn ft_verdict(game: bool, r: Result<bool, bool>) -> (b: bool)
        ensures
            b == match r {
                Ok(x) => x,
                Err(x) => game && x,
            },
    {
        match r {
            Ok(x) => x,
            Err(x) => game && x,
        }
    }

    /// The end of a round: the direction from the verdicts, and the calls
    /// for it in a game or in daily use (none when the round leaves the
    /// controller alone).
    pub fn finish_round(&mut self, game: bool, jank: Jank, ft_janked: bool) -> (acts: Vec<Control>)
        requires
            game && decide_spec(game, jank, ft_janked) is Some ==> game_freq_ok(
                *old(self),
                decide_spec(game, jank, ft_janked)->0,
            ),
        ensures
            match decide_spec(game, jank, ft_janked) {
                None => *final(self) == *old(self) && acts@.len() == 0,
                Some(u) => (*final(self), acts@) == if game {
                    game_freq_next(*old(self), u)
                } else {
                    daily_freq_next(*old(self), u)
                },
            },
    {
        match Watcher::decide(game, jank, ft_janked) {
            None => Vec::new(),
            Some(u) => {
                if game {
                    self.game_freq(u)
                } else {
                    self.daily_freq(u)
                }
            },
        }
    }

    /// Whether a target lookup can be taken (`target_ok`).
    pub fn target_ok_check(t: TargetReading) -> (b: bool)
        ensures
            b == target_ok(t),
    {
        match (t.mode, t.received) {
            (Mode::GameMode, Some(o)) => {
                assert(o % 5 <= o) by (nonlinear_arith);
                o - o % 5 <= u64::MAX - 5
            },
            _ => true,
        }
    }

    /// Whether `play_round` can be taken from this state with these
    /// readings (`play_ok`): no target lookup overflows, the frame count
    /// fits a `usize`, the frame-time verdict divides by no zero, and the
    /// run length of a game round does not overflow.
    pub fn play_ok_check(&self, r: &RoundReadings) -> (b: bool)
        ensures
            b == play_ok(*self, *r),
    {
        if r.mode == Mode::Unknown || (Watcher::asks_d_support(r.mode) && !r.d_support) {
            return true;
        }
        if !(Watcher::target_ok_check(r.first_target) && Watcher::target_ok_check(r.fps_target)
            && Watcher::target_ok_check(r.ft_target)) {
            return false;
        }
        let game = r.mode == Mode::GameMode;
        let mut w = *self;
        let t1 = w.get_target_fps(r.first_target.mode, r.first_target.received);
        let t2 = w.get_target_fps(r.fps_target.mode, r.fps_target.received);
        let jank = Watcher::get_fps_jank(r.fps, t2, r.jank_mode);
        let t3 = w.get_target_fps(r.ft_target.mode, r.ft_target.received);
        let count = Watcher::frame_count(game, t1);
        if count as u128 > usize::MAX as u128 {
            return false;
        }
        let n = r.frametimes.len();
        proof {
            let fs = r.frametimes@;
            if (count as int) < fs.len() {
                assert(recent(fs, count as int).len() == count);
            }
        }
        if n > 0 && count > 0 && !(0 < r.refresh_rate && r.refresh_rate <= 1_000_000_000
            && t3 > 0) {
            return false;
        }
        let ft = Watcher::get_ft_jank(&r.frametimes, count, r.refresh_rate, t3);
        let ft_janked = Watcher::ft_verdict(game, ft);
        if game {
            match Watcher::decide(game, jank, ft_janked) {
                Some(u) => {
                    if w.last_do == u && w.last_count == i32::MAX {
                        return false;
                    }
                },
                None => {},
            }
        }
        true
    }

    /// The part of a round after entering its mode, given what the round
    /// read: the target lookups, the frame-rate and frame-time verdicts, and
    /// the calls that end the round. The unit is left as it was when the
    /// round stops early.
    pub fn play_round(&mut self, r: &RoundReadings) -> (acts: Vec<Control>)
        requires
            play_ok(*old(self), *r),
        ensures
            (*final(self), acts@) == play_next(*old(self), *r),
    {
        if r.mode == Mode::Unknown || (Watcher::asks_d_support(r.mode) && !r.d_support) {
            return Vec::new();
        }
        let game = r.mode == Mode::GameMode;
        let t1 = self.get_target_fps(r.first_target.mode, r.first_target.received);
        let t2 = self.get_target_fps(r.fps_target.mode, r.fps_target.received);
        let jank = Watcher::get_fps_jank(r.fps, t2, r.jank_mode);
        let t3 = self.get_target_fps(r.ft_target.mode, r.ft_target.received);
        let count = Watcher::frame_count(game, t1);
        let ft = Watcher::get_ft_jank(&r.frametimes, count, r.refresh_rate, t3);
        let ft_janked = Watcher::ft_verdict(game, ft);
        self.finish_round(game, jank, ft_janked)
    }

    /// A whole round from what it read: enter its mode, then play it; the
    /// calls to make, in order (a reset first, when the mode changed).
    pub fn round(&mut self, r: &RoundReadings) -> (acts: Vec<Control>)
        requires
            play_ok(enter_mode_next(*old(self), r.mode).0, *r),
        ensures
            (*final(self), acts@) == round_next(*old(self), *r),
    {
        let mut acts: Vec<Control> = Vec::new();
        if let Some(c) = self.enter_mode(r.mode) {
            acts.push(c);
        }
        let mut rest = self.play_round(r);
        let ghost head = acts@;
        acts.append(&mut rest);
        assert(acts@ =~= head + play_next(enter_mode_next(*old(self), r.mode).0, *r).1);
        acts
    }

    /// The best frame rate of a window of samples, 120 when the window is
    /// empty.
    pub fn window_max_fps(data: &Vec<u64>) -> (m: u64)
        ensures
            m == window_max_spec(data@),
    {
        if data.len() == 0 {
            return 120;
        }
        let mut m = data[0];
        let mut i: usize = 1;
        while i < data.len()
            invariant
                1 <= i <= data.len(),
                m == window_max_spec(data@.take(i as int)),
            decreases data.len() - i,
        {
            assert(data@.take(i + 1).drop_last() =~= data@.take(i as int));
            if data[i] >= m {
                m = data[i];
            }
            i = i + 1;
        }
        assert(data@.take(i as int) =~= data@);
        m
    }

    /// The time in ms that each of `n` units gets of a 400 ms round.
    pub fn slot_millis(n: usize) -> (t: u64)
        requires
            n > 0,
        ensures
            t == 400int / (n as int),
    {
        (400 / n) as u64
    }
}

} // verus!
