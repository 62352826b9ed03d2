//! The MediaTek GPU on MIUI, where it acts only in games.
use vstd::prelude::*;

use crate::mtk_gpu::{
    cur_opp_of_status, cur_opp_spec, max_opp_of_table, max_opp_spec, step_down_spec, step_up_spec,
};

verus! {

/// The GPU of a MediaTek device running MIUI.
pub struct Gpu {
    pub max: u32,
}

impl Gpu {
    /// The GPU described by the contents of `stack_signed_opp_table`, if the
    /// slowest index parses.
    pub fn from_opp_table(table: &str) -> (r: Option<Gpu>)
        ensures
            r matches Some(g) ==> max_opp_spec(table@) == Some(g.max as nat),
            r is None <==> max_opp_spec(table@) is None,
    {
        match max_opp_of_table(table) {
            Some(max) => Some(Gpu { max }),
            None => None,
        }
    }

    /// The current OPP index, from the contents of `gpufreq_status`.
    pub fn get_cur(&self, status: &str) -> (r: u32)
        ensures
            r == cur_opp_spec(status@, self.max),
    {
        cur_opp_of_status(status, self.max)
    }

    /// On MIUI this GPU stays out of daily use.
    pub fn d_support(&self) -> (r: bool)
        ensures
            !r,
    {
        false
    }

    /// The index to set to lower performance in a game, from index `cur`.
    pub fn g_down(&self, cur: u32) -> (r: u32)
        ensures
            r == step_down_spec(cur, self.max),
    {
        if cur < self.max {
            cur + 1
        } else {
            self.max
        }
    }

    /// The index to set to raise performance in a game, from index `cur`.
    pub fn g_up(&self, cur: u32) -> (r: u32)
        ensures
            r == step_up_spec(cur),
    {
        if cur >= 1 {
            cur - 1
        } else {
            0
        }
    }
}

} // verus!
