//! The embedded player's cinema mode: the pointer hides after a second of
//! rest and the controls after two; moving the pointer brings them back.
//!
//! Times are in milliseconds; pointer positions in hundredths of a pixel.

use vstd::prelude::*;

verus! {

/// Rest before the pointer hides.
pub const CURSOR_REST_MS: u64 = 1000;

/// Rest before the controls hide.
pub const CHROME_REST_MS: u64 = 2000;

/// Motion right after hiding comes from the layout moving and is ignored.
pub const HIDE_GRACE_MS: u64 = 800;

/// A move smaller than this (in each direction) is the same position.
pub const SAME_SPOT: i64 = 50;

/// While hidden, moves smaller than this do not wake the controls.
pub const WAKE_DISTANCE: i64 = 1200;

/// The cinema-mode state of the player page.
pub struct Cinema {
    pub chrome_hidden: bool,
    pub cursor_hidden: bool,
    pub last_motion_ms: u64,
    pub hidden_at_ms: Option<u64>,
    pub last_x: i64,
    pub last_y: i64,
    pub hide_x: i64,
    pub hide_y: i64,
}

/// What a tick hides.
#[derive(Clone, Copy, Debug, PartialEq, Eq, Structural)]
pub struct Hide {
    pub cursor: bool,
    pub chrome: bool,
}

pub open spec fn dist(a: i64, b: i64) -> int {
    if a >= b {
        a - b
    } else {
        b - a
    }
}

fn distance(a: i64, b: i64) -> (r: u64)
    ensures
        r == dist(a, b),
{
    if a >= b {
        (a as i128 - b as i128) as u64
    } else {
        (b as i128 - a as i128) as u64
    }
}

impl Cinema {
    /// Hidden controls always go with a hidden pointer.
    pub open spec fn consistent(&self) -> bool {
        self.chrome_hidden ==> self.cursor_hidden
    }

    /// Controls shown, pointer at no known position.
    pub fn new(now_ms: u64) -> (c: Cinema)
        ensures
            !c.chrome_hidden && !c.cursor_hidden,
            c.consistent(),
            c.last_motion_ms == now_ms,
            c.hidden_at_ms is None,
            c.last_x == -100 && c.last_y == -100 && c.hide_x == -100 && c.hide_y == -100,
    {
        Cinema {
            chrome_hidden: false,
            cursor_hidden: false,
            last_motion_ms: now_ms,
            hidden_at_ms: None,
            last_x: -100,
            last_y: -100,
            hide_x: -100,
            hide_y: -100,
        }
    }

    /// The periodic check: an open popover counts as activity; after a
    /// second of rest the pointer hides (remembering where it was), after
    /// two the controls hide too.
    pub fn tick(&mut self, now_ms: u64, popover_open: bool) -> (h: Hide)
        ensures
            old(self).consistent() ==> final(self).consistent(),
            ({
                let motion = if popover_open {
                    now_ms
                } else {
                    old(self).last_motion_ms
                };
                let rest = if now_ms >= motion {
                    now_ms - motion
                } else {
                    0
                };
                let cursor_now = !old(self).cursor_hidden && rest >= CURSOR_REST_MS && !popover_open;
                let chrome_now = !old(self).chrome_hidden && rest >= CHROME_REST_MS && !popover_open;
                &&& h == Hide { cursor: cursor_now, chrome: chrome_now }
                &&& final(self).last_motion_ms == motion
                &&& final(self).cursor_hidden == (old(self).cursor_hidden || cursor_now
                    || chrome_now)
                &&& final(self).chrome_hidden == (old(self).chrome_hidden || chrome_now)
                &&& final(self).hidden_at_ms == if chrome_now {
                    Some(now_ms)
                } else {
                    old(self).hidden_at_ms
                }
                &&& final(self).hide_x == if cursor_now || chrome_now {
                    old(self).last_x
                } else {
                    old(self).hide_x
                }
                &&& final(self).hide_y == if cursor_now {
                    old(self).last_y
                } else {
                    old(self).hide_y
                }
                &&& final(self).last_x == old(self).last_x
                &&& final(self).last_y == old(self).last_y
            }),
    {
        if popover_open {
            self.last_motion_ms = now_ms;
        }
        let rest = if now_ms >= self.last_motion_ms {
            now_ms - self.last_motion_ms
        } else {
            0
        };
        let mut h = Hide { cursor: false, chrome: false };
        if !self.cursor_hidden && rest >= CURSOR_REST_MS && !popover_open {
            self.cursor_hidden = true;
            self.hide_x = self.last_x;
            self.hide_y = self.last_y;
            h.cursor = true;
        }
        if !self.chrome_hidden && rest >= CHROME_REST_MS && !popover_open {
            self.chrome_hidden = true;
            self.hidden_at_ms = Some(now_ms);
            self.hide_x = self.last_x;
            self.cursor_hidden = true;
            h.chrome = true;
        }
        h
    }

    /// The pointer moved to `(x, y)`. A move to the same spot, moves in
    /// the grace time after hiding, and small moves while hidden are
    /// ignored; otherwise hidden controls come back (`true`), or the rest
    /// time starts again.
    pub fn motion(&mut self, x: i64, y: i64, now_ms: u64) -> (show: bool)
        ensures
            old(self).consistent() ==> final(self).consistent(),
            ({
                let same = dist(x, old(self).last_x) < SAME_SPOT && dist(y, old(self).last_y)
                    < SAME_SPOT;
                let grace = old(self).hidden_at_ms matches Some(t) && (if now_ms >= t {
                    now_ms - t
                } else {
                    0
                }) < HIDE_GRACE_MS;
                let hidden = old(self).chrome_hidden || old(self).cursor_hidden;
                let small = hidden && dist(x, old(self).hide_x) < WAKE_DISTANCE && dist(
                    y,
                    old(self).hide_y,
                ) < WAKE_DISTANCE;
                let acts = !same && !grace && !small;
                &&& show == (acts && hidden)
                &&& final(self).last_x == if same {
                    old(self).last_x
                } else {
                    x
                }
                &&& final(self).last_y == if same {
                    old(self).last_y
                } else {
                    y
                }
                &&& final(self).last_motion_ms == if acts {
                    now_ms
                } else {
                    old(self).last_motion_ms
                }
                &&& final(self).chrome_hidden == (old(self).chrome_hidden && !acts)
                &&& final(self).cursor_hidden == (old(self).cursor_hidden && !acts)
                &&& final(self).hidden_at_ms == old(self).hidden_at_ms
                &&& final(self).hide_x == old(self).hide_x
                &&& final(self).hide_y == old(self).hide_y
            }),
    {
        if distance(x, self.last_x) < SAME_SPOT as u64 && distance(y, self.last_y) < SAME_SPOT as u64 {
            return false;
        }
        self.last_x = x;
        self.last_y = y;
        if let Some(t) = self.hidden_at_ms {
            let since = if now_ms >= t {
                now_ms - t
            } else {
                0
            };
            if since < HIDE_GRACE_MS {
                return false;
            }
        }
        let hidden = self.chrome_hidden || self.cursor_hidden;
        if hidden {
            if distance(x, self.hide_x) < WAKE_DISTANCE as u64 && distance(y, self.hide_y)
                < WAKE_DISTANCE as u64 {
                return false;
            }
        }
        self.chrome_hidden = false;
        self.cursor_hidden = false;
        self.last_motion_ms = now_ms;
        hidden
    }

    /// Entering full screen shows everything and starts a grace time;
    /// leaving it shows everything.
    pub fn fullscreen(&mut self, on: bool, now_ms: u64)
        ensures
            final(self).consistent(),
            !final(self).chrome_hidden && !final(self).cursor_hidden,
            final(self).last_motion_ms == now_ms,
            final(self).hidden_at_ms == if on {
                Some(now_ms)
            } else {
                old(self).hidden_at_ms
            },
            final(self).hide_x == if on {
                old(self).last_x
            } else {
                old(self).hide_x
            },
            final(self).hide_y == if on {
                old(self).last_y
            } else {
                old(self).hide_y
            },
            final(self).last_x == old(self).last_x,
            final(self).last_y == old(self).last_y,
    {
        self.chrome_hidden = false;
        self.cursor_hidden = false;
        self.last_motion_ms = now_ms;
        if on {
            self.hidden_at_ms = Some(now_ms);
            self.hide_x = self.last_x;
            self.hide_y = self.last_y;
        }
    }
}

} // verus!
