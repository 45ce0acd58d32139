//! When a frame is due.
//!
//! Times are counted in nanoseconds from any fixed moment.

use vstd::prelude::*;

verus! {

/// Half a period of the cursor's blink.
pub const BLINK_INTERVAL: u64 = 530_000_000;

/// The same in milliseconds, for waiting.
pub const BLINK_MILLIS: u32 = 530;

/// How long to wait at most while nothing blinks, in milliseconds.
pub const IDLE_MILLIS: u32 = 1000;

/// How long to wait at most for a frame that was put off, in milliseconds.
pub const RETRY_MILLIS: u32 = 16;

/// What the window remembers to decide when to draw.
#[derive(Clone, Copy, PartialEq, Eq, Debug)]
pub struct Pacer {
    /// Something changed that is not shown yet.
    pub needs_redraw: bool,
    /// When the application's current batch of updates began.
    pub sync_since: Option<u64>,
    /// How long a batch may keep the screen as it is.
    pub sync_timeout: u64,
    /// The least time between two frames, if there is one.
    pub min_interval: Option<u64>,
    pub last_present: u64,
    /// Is the cursor in the visible phase of its blink?
    pub blink_on: bool,
    pub last_blink: u64,
}

/// The time since a moment; none for one that has not come.
pub open spec fn elapsed(since: u64, now: u64) -> int {
    if now >= since {
        now - since
    } else {
        0
    }
}

fn since(then: u64, now: u64) -> (d: u64)
    ensures
        d == elapsed(then, now),
{
    if now >= then {
        now - then
    } else {
        0
    }
}

impl Pacer {
    /// Is there anything to draw?
    pub open spec fn stale(self, dirty: bool) -> bool {
        self.needs_redraw || dirty
    }

    /// When the batch under way began, counting one that begins now.
    pub open spec fn batch(self, now: u64) -> u64 {
        match self.sync_since {
            Some(t) => t,
            None => now,
        }
    }

    /// Does a batch keep the screen as it is? Showing it half-drawn would be wrong, but an
    /// application that dies in the middle must not freeze the display.
    pub open spec fn held_back(self, now: u64, syncing: bool) -> bool {
        syncing && elapsed(self.batch(now), now) < self.sync_timeout
    }

    /// Was the last frame too short a time ago?
    pub open spec fn too_soon(self, now: u64) -> bool {
        self.min_interval is Some && elapsed(self.last_present, now) < self.min_interval->0
    }

    /// Is a frame drawn?
    pub open spec fn draws(self, now: u64, dirty: bool, syncing: bool) -> bool {
        self.stale(dirty) && !self.held_back(now, syncing) && !self.too_soon(now)
    }

    /// What is remembered once the decision is made.
    pub open spec fn asked(self, now: u64, dirty: bool, syncing: bool) -> Pacer {
        Pacer {
            needs_redraw: self.stale(dirty) && !self.draws(now, dirty, syncing),
            sync_since: if !self.stale(dirty) {
                self.sync_since
            } else if syncing {
                Some(self.batch(now))
            } else {
                None
            },
            ..self
        }
    }

    /// What is remembered once the cursor had its chance to blink.
    pub open spec fn ticked(self, now: u64, blinking: bool, focused: bool) -> Pacer {
        if elapsed(self.last_blink, now) >= BLINK_INTERVAL {
            Pacer {
                last_blink: now,
                blink_on: !self.blink_on,
                needs_redraw: self.needs_redraw || (blinking && focused),
                ..self
            }
        } else {
            self
        }
    }

    /// How long the next event is waited for, in milliseconds.
    pub open spec fn patience(self, blinking: bool, focused: bool) -> u32 {
        if self.needs_redraw {
            RETRY_MILLIS
        } else if blinking && focused {
            BLINK_MILLIS
        } else {
            IDLE_MILLIS
        }
    }

    /// Nothing shown yet.
    pub fn new(now: u64, sync_timeout: u64, min_interval: Option<u64>) -> (p: Pacer)
        ensures
            p == (Pacer {
                needs_redraw: true,
                sync_since: None,
                sync_timeout,
                min_interval,
                last_present: now,
                blink_on: true,
                last_blink: now,
            }),
    {
        Pacer {
            needs_redraw: true,
            sync_since: None,
            sync_timeout,
            min_interval,
            last_present: now,
            blink_on: true,
            last_blink: now,
        }
    }

    /// Is there anything to draw? Only then is the display worth waiting for.
    pub fn is_stale(&self, dirty: bool) -> (r: bool)
        ensures
            r == self.stale(dirty),
    {
        self.needs_redraw || dirty
    }

    /// Decide whether to draw now. `dirty` tells that the terminal changed, `syncing` that the
    /// application is in the middle of a batch of updates.
    pub fn due(&mut self, now: u64, dirty: bool, syncing: bool) -> (draw: bool)
        ensures
            draw == old(self).draws(now, dirty, syncing),
            *final(self) == old(self).asked(now, dirty, syncing),
    {
        if dirty {
            self.needs_redraw = true;
        }
        if !self.needs_redraw {
            return false;
        }
        if syncing {
            let started: u64 = match self.sync_since {
                Some(t) => t,
                None => now,
            };
            self.sync_since = Some(started);
            if since(started, now) < self.sync_timeout {
                return false;
            }
        } else {
            self.sync_since = None;
        }
        if let Some(min) = self.min_interval {
            if since(self.last_present, now) < min {
                return false;
            }
        }
        self.needs_redraw = false;
        true
    }

    /// A frame was shown.
    pub fn presented(&mut self, now: u64)
        ensures
            *final(self) == (Pacer { last_present: now, ..*old(self) }),
    {
        self.last_present = now;
    }

    /// Something has to be drawn.
    pub fn request(&mut self)
        ensures
            *final(self) == (Pacer { needs_redraw: true, ..*old(self) }),
    {
        self.needs_redraw = true;
    }

    /// Let the cursor blink. A blink is worth a frame only if it can be seen.
    pub fn tick_blink(&mut self, now: u64, blinking: bool, focused: bool)
        ensures
            *final(self) == old(self).ticked(now, blinking, focused),
            *final(self) == (if elapsed(old(self).last_blink, now) >= BLINK_INTERVAL {
                Pacer {
                    last_blink: now,
                    blink_on: !old(self).blink_on,
                    needs_redraw: old(self).needs_redraw || (blinking && focused),
                    ..*old(self)
                }
            } else {
                *old(self)
            }),
    {
        if since(self.last_blink, now) >= BLINK_INTERVAL {
            self.last_blink = now;
            self.blink_on = !self.blink_on;
            if blinking && focused {
                self.needs_redraw = true;
            }
        }
    }

    /// How long to wait for the next event, in milliseconds. A frame that was put off has to be
    /// looked at again soon, not when the cursor blinks.
    pub fn wait_millis(&self, blinking: bool, focused: bool) -> (ms: u32)
        ensures
            ms == self.patience(blinking, focused),
            ms == (if self.needs_redraw {
                RETRY_MILLIS
            } else if blinking && focused {
                BLINK_MILLIS
            } else {
                IDLE_MILLIS
            }),
    {
        let timeout: u32 = if blinking && focused {
            BLINK_MILLIS
        } else {
            IDLE_MILLIS
        };
        if self.needs_redraw && timeout > RETRY_MILLIS {
            RETRY_MILLIS
        } else {
            timeout
        }
    }
}

/// Nothing is drawn while nothing changes.
pub proof fn idle_screens_are_not_drawn(p: Pacer, now: u64, syncing: bool)
    requires
        !p.needs_redraw,
    ensures
        !p.draws(now, false, syncing),
{
}

/// A batch cannot keep the screen for ever: once its time is up a change is drawn, whether or not
/// the batch has ended.
pub proof fn batches_run_out(p: Pacer, now: u64, began: u64)
    requires
        p.needs_redraw,
        p.sync_since == Some(began),
        now >= began + p.sync_timeout,
        !p.too_soon(now),
    ensures
        p.draws(now, false, true),
{
}

/// A change is put off only for a batch or for the least time between two frames, and it is not
/// forgotten: a frame stays due until it is drawn.
pub proof fn changes_are_not_lost(p: Pacer, now: u64, dirty: bool, syncing: bool)
    requires
        p.stale(dirty),
        !p.draws(now, dirty, syncing),
    ensures
        p.held_back(now, syncing) || p.too_soon(now),
        p.asked(now, dirty, syncing).needs_redraw,
{
}

} // verus!
