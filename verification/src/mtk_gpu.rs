//! The GPU of MediaTek devices, driven through its fixed OPP index
//! (`/proc/gpufreqv2/fix_target_opp_index`): index 0 is the fastest
//! operating point, `max` the slowest.
use vstd::prelude::*;

use crate::misc::{cut_chars, cut_spec, last_line, nth_line};
use crate::text::{chars_of, lines, parse_unsigned, parse_unsigned_span, trim, trim_span};

verus! {

/// The slowest OPP index listed in `stack_signed_opp_table`: on its last
/// line, the number between `[` and `*`.
pub open spec fn max_opp_spec(table: Seq<char>) -> Option<nat> {
    let ls = lines(table);
    let last = if ls.len() > 0 {
        ls.last()
    } else {
        Seq::empty()
    };
    parse_unsigned(trim(cut_spec(cut_spec(last, "*"@, 0), "["@, 1)), u32::MAX as nat)
}

/// The current OPP index named on line 7 of `gpufreq_status` (after the
/// first `:`, before the first `,`); `max` when the line is missing or does
/// not parse.
pub open spec fn cur_opp_spec(status: Seq<char>, max: u32) -> u32 {
    let ls = lines(status);
    if 7 < ls.len() {
        match parse_unsigned(trim(cut_spec(cut_spec(ls[7], ":"@, 1), ","@, 0)), u32::MAX as nat) {
            Some(n) => n as u32,
            None => max,
        }
    } else {
        max
    }
}

/// One step slower in a game: the next index, at most `max`.
pub open spec fn step_down_spec(cur: u32, max: u32) -> u32 {
    if cur < max {
        (cur + 1) as u32
    } else {
        max
    }
}

/// One step faster in a game: the previous index, at least 0.
pub open spec fn step_up_spec(cur: u32) -> u32 {
    if cur >= 1 {
        (cur - 1) as u32
    } else {
        0
    }
}

/// Slower in daily use: the next of the quarter marks `max/4`, `max/2`,
/// `3max/4`, `max` above `cur`.
pub open spec fn quarter_down_spec(cur: u32, max: u32) -> u32 {
    if cur < max / 4 {
        max / 4
    } else if cur < max / 2 {
        max / 2
    } else if cur < max * 3 / 4 {
        (max * 3 / 4) as u32
    } else {
        max
    }
}

/// Faster in daily use: the next of the quarter marks `3max/4`, `max/2`,
/// `max/4`, 0 below `cur`.
pub open spec fn quarter_up_spec(cur: u32, max: u32) -> u32 {
    if cur > max * 3 / 4 {
        (max * 3 / 4) as u32
    } else if cur > max / 2 {
        max / 2
    } else if cur > max / 4 {
        max / 4
    } else {
        0
    }
}

/// The slowest OPP index from the contents of `stack_signed_opp_table`, if
/// it parses.
pub fn max_opp_of_table(table: &str) -> (r: Option<u32>)
    ensures
        r == (match max_opp_spec(table@) {
            Some(n) => Some(n as u32),
            None => None::<u32>,
        }),
{
    let v = chars_of(table);
    let last = match last_line(&v) {
        Some(l) => l,
        None => Vec::new(),
    };
    let star = chars_of("*");
    let bracket = chars_of("[");
    let a = cut_chars(&last, &star, 0);
    let b = cut_chars(&a, &bracket, 1);
    let (x, y) = trim_span(&b, 0, b.len(), false);
    assert(b@.subrange(0, b.len() as int) =~= b@);
    match parse_unsigned_span(&b, x, y, u32::MAX as u64) {
        Some(n) => Some(n as u32),
        None => None,
    }
}

/// The current OPP index from the contents of `gpufreq_status`.
pub fn cur_opp_of_status(status: &str, max: u32) -> (r: u32)
    ensures
        r == cur_opp_spec(status@, max),
{
    let v = chars_of(status);
    match nth_line(&v, 7) {
        None => max,
        Some(line) => {
            let colon = chars_of(":");
            let comma = chars_of(",");
            let a = cut_chars(&line, &colon, 1);
            let b = cut_chars(&a, &comma, 0);
            let (x, y) = trim_span(&b, 0, b.len(), false);
            assert(b@.subrange(0, b.len() as int) =~= b@);
            match parse_unsigned_span(&b, x, y, u32::MAX as u64) {
                Some(n) => n as u32,
                None => max,
            }
        },
    }
}

/// The GPU of a MediaTek device.
pub struct Gpu {
    pub max: u32,
}

impl Gpu {
    /// The GPU described by the contents of `stack_signed_opp_table`, if the
    /// slowest index parses.
    pub fn from_opp_table(table: &str) -> (r: Option<Gpu>)
        ensures
            r matches Some(g) ==> max_opp_spec(table@) == Some(g.max as nat),
            r is None <==> max_opp_spec(table@) is None,
    {
        match max_opp_of_table(table) {
            Some(max) => Some(Gpu { max }),
            None => None,
        }
    }

    /// The current OPP index, from the contents of `gpufreq_status`.
    pub fn get_cur(&self, status: &str) -> (r: u32)
        ensures
            r == cur_opp_spec(status@, self.max),
    {
        cur_opp_of_status(status, self.max)
    }

    /// This GPU also acts in daily use.
    pub fn d_support(&self) -> (r: bool)
        ensures
            r,
    {
        true
    }

    /// The index to set to lower performance in a game, from index `cur`.
    pub fn g_down(&self, cur: u32) -> (r: u32)
        ensures
            r == step_down_spec(cur, self.max),
    {
        if cur < self.max {
            cur + 1
        } else {
            self.max
        }
    }

    /// The index to set to raise performance in a game, from index `cur`.
    pub fn g_up(&self, cur: u32) -> (r: u32)
        ensures
            r == step_up_spec(cur),
    {
        if cur >= 1 {
            cur - 1
        } else {
            0
        }
    }

    /// The index to set to lower performance in daily use, from index `cur`.
    pub fn d_down(&self, cur: u32) -> (r: u32)
        requires
            cur >= self.max / 2 ==> self.max * 3 <= u32::MAX,
        ensures
            r == quarter_down_spec(cur, self.max),
    {
        if cur < self.max / 4 {
            self.max / 4
        } else if cur < self.max / 2 {
            self.max / 2
        } else if cur < self.max * 3 / 4 {
            self.max * 3 / 4
        } else {
            self.max
        }
    }

    /// The index to set to raise performance in daily use, from index `cur`.
    pub fn d_up(&self, cur: u32) -> (r: u32)
        requires
            self.max * 3 <= u32::MAX,
        ensures
            r == quarter_up_spec(cur, self.max),
    {
        if cur > self.max * 3 / 4 {
            self.max * 3 / 4
        } else if cur > self.max / 2 {
            self.max / 2
        } else if cur > self.max / 4 {
            self.max / 4
        } else {
            0
        }
    }
}

/// One step slower and one step faster undo each other within `0..=max`.
pub proof fn law_game_steps_undo(cur: u32, max: u32)
    requires
        cur <= max,
    ensures
        cur >= 1 ==> step_down_spec(step_up_spec(cur), max) == cur,
        cur < max ==> step_up_spec(step_down_spec(cur, max)) == cur,
{
}

/// From an index within `0..=max`, every step lands within `0..=max`; the
/// slower steps never go faster and the faster steps never go slower.
pub proof fn law_steps_stay_in_range(cur: u32, max: u32)
    requires
        cur <= max,
        max * 3 <= u32::MAX,
    ensures
        cur <= step_down_spec(cur, max) <= max,
        step_up_spec(cur) <= cur,
        cur <= quarter_down_spec(cur, max) <= max,
        quarter_up_spec(cur, max) <= cur,
{
}

} // verus!
