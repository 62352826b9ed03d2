//! A controller together with the bookkeeping that the scheduler keeps for
//! it. A unit decides which call its controller gets; the caller makes it
//! (see `frame::Control`).
use vstd::prelude::*;

use crate::frame::Control;
use crate::ControllerNeed;

verus! {

/// A controller under the scheduler's control.
pub struct Unit<C: ControllerNeed> {
    pub controller: C,
    need_review: bool,
}

impl<C: ControllerNeed> Unit<C> {
    /// The unit's controller.
    pub closed spec fn ctl(&self) -> C {
        self.controller
    }

    /// Whether the unit's last changes still wait to be reviewed.
    pub closed spec fn needs_review(&self) -> bool {
        self.need_review
    }

    /// A unit for `controller`, with nothing to review.
    pub fn new(controller: C) -> (u: Self)
        ensures
            u.ctl() == controller,
            !u.needs_review(),
    {
        Unit { controller, need_review: false }
    }

    /// One unit for each controller of `list`, in order.
    pub fn trans(list: Vec<C>) -> (r: Vec<Unit<C>>)
        ensures
            r@.len() == list@.len(),
            forall|k: int|
                0 <= k < r@.len() ==> (#[trigger] r@[k]).ctl() == list@[k] && !r@[k].needs_review(),
    {
        let ghost orig = list@;
        let mut rest = list;
        let mut r: Vec<Unit<C>> = Vec::new();
        while rest.len() > 0
            invariant
                r@.len() + rest@.len() == orig.len(),
                rest@ == orig.skip(r@.len() as int),
                forall|k: int|
                    0 <= k < r@.len() ==> (#[trigger] r@[k]).ctl() == orig[k] && !r@[k].needs_review(),
            decreases rest@.len(),
        {
            let c = rest.remove(0);
            assert(c == orig[r@.len() as int]);
            assert(rest@ =~= orig.skip(r@.len() as int + 1));
            r.push(Unit::new(c));
        }
        r
    }

    /// Resets the unit: nothing is left to review, and the controller is to
    /// be reset for a game (`game`: `g_reset`) or for daily use (`d_reset`).
    /// The call to make is returned.
    pub fn reset(&mut self, game: bool) -> (c: Control)
        ensures
            !final(self).needs_review(),
            final(self).ctl() == old(self).ctl(),
            c == (if game {
                Control::GameReset
            } else {
                Control::DailyReset
            }),
    {
        self.need_review = false;
        if game {
            Control::GameReset
        } else {
            Control::DailyReset
        }
    }

    /// The call that raises the controller's performance, in a game (`g_up`)
    /// or in daily use (`d_up`).
    pub fn up(&mut self, game: bool) -> (c: Control)
        ensures
            *final(self) == *old(self),
            c == (if game {
                Control::GameUp
            } else {
                Control::DailyUp
            }),
    {
        if game {
            Control::GameUp
        } else {
            Control::DailyUp
        }
    }

    /// The call that lowers the controller's performance, in a game
    /// (`g_down`) or in daily use (`d_down`).
    pub fn down(&mut self, game: bool) -> (c: Control)
        ensures
            *final(self) == *old(self),
            c == (if game {
                Control::GameDown
            } else {
                Control::DailyDown
            }),
    {
        if game {
            Control::GameDown
        } else {
            Control::DailyDown
        }
    }
}

} // verus!
