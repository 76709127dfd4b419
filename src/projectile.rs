use vstd::prelude::*;

use crate::timing::{accumulate, clamp64, fires, shift};

verus! {

/// A projectile's animation advances at most once per this many microseconds.
pub const PROJECTILE_CADENCE: u64 = 10_000;

/// How far a projectile in flight rises per tick of its cadence.
pub const PROJECTILE_STEP: i64 = 50;

/// Where a projectile is sent once its hit animation is over: far above the
/// top of the screen, so that it is pruned.
pub const PROJECTILE_GONE_Y: i64 = -10_000;

/// The horizontal gap between the twin bolts drawn for one projectile.
pub const TWIN_BOLT_GAP: i64 = 540;

/// A shot fired by a ship. It rises until it hits something; then it plays
/// its hit animation and leaves the screen.
#[derive(Clone, Copy)]
pub struct Projectile {
    pub x: i64,
    pub y: i64,
    pub hit: bool,
    /// Number of frames in the projectile's frame set; frame 1 is the
    /// in-flight picture.
    pub frame_count: usize,
    pub current_frame_index: usize,
    pub frame_time_elapsed: u64,
}

impl Projectile {
    pub open spec fn wf(self) -> bool {
        &&& self.frame_count >= 2
        &&& self.current_frame_index < self.frame_count
        &&& self.frame_time_elapsed < PROJECTILE_CADENCE
    }

    pub open spec fn removable(self) -> bool {
        self.y < 0
    }

    /// The projectile after an update of `dt` microseconds.
    pub open spec fn next(self, dt: u64) -> Projectile {
        if !fires(self.frame_time_elapsed, dt, PROJECTILE_CADENCE) {
            Projectile { frame_time_elapsed: (self.frame_time_elapsed + dt) as u64, ..self }
        } else if !self.hit {
            Projectile { y: clamp64(self.y - PROJECTILE_STEP), frame_time_elapsed: 0, ..self }
        } else if self.current_frame_index + 1 >= self.frame_count {
            Projectile { y: PROJECTILE_GONE_Y, frame_time_elapsed: 0, ..self }
        } else {
            Projectile {
                current_frame_index: (self.current_frame_index + 1) as usize,
                frame_time_elapsed: 0,
                ..self
            }
        }
    }

    /// The projectile after `n` updates that each reach the cadence.
    pub open spec fn ticked(self, n: nat) -> Projectile
        decreases n,
    {
        if n == 0 {
            self
        } else {
            self.ticked((n - 1) as nat).next(PROJECTILE_CADENCE)
        }
    }

    /// The projectile after updates of each elapsed time in `dts`, in order.
    pub open spec fn after(self, dts: Seq<u64>) -> Projectile
        decreases dts.len(),
    {
        if dts.len() == 0 {
            self
        } else {
            self.after(dts.drop_last()).next(dts.last())
        }
    }

    /// How many of the updates in `dts` reach the cadence.
    pub open spec fn ticks_in(self, dts: Seq<u64>) -> nat
        decreases dts.len(),
    {
        if dts.len() == 0 {
            0
        } else {
            self.ticks_in(dts.drop_last()) + if fires(
                self.after(dts.drop_last()).frame_time_elapsed,
                dts.last(),
                PROJECTILE_CADENCE,
            ) {
                1nat
            } else {
                0nat
            }
        }
    }

    pub fn new(x: i64, y: i64, frame_count: usize) -> (r: Projectile)
        requires
            frame_count >= 2,
        ensures
            r.wf(),
            r == (Projectile {
                x,
                y,
                hit: false,
                frame_count,
                current_frame_index: 1,
                frame_time_elapsed: 0,
            }),
    {
        Projectile { x, y, hit: false, frame_count, current_frame_index: 1, frame_time_elapsed: 0 }
    }

    pub fn can_be_removed(&self) -> (r: bool)
        ensures
            r == self.removable(),
    {
        self.y < 0
    }

    /// Marks the projectile as having struck a target; calling it again
    /// changes nothing.
    pub fn notify_hit(&mut self)
        ensures
            *final(self) == (Projectile { hit: true, ..*old(self) }),
    {
        self.hit = true;
    }

    pub fn update(&mut self, dt: u64)
        requires
            old(self).wf(),
        ensures
            final(self).wf(),
            *final(self) == old(self).next(dt),
    {
        let (tick, elapsed) = accumulate(self.frame_time_elapsed, dt, PROJECTILE_CADENCE);
        self.frame_time_elapsed = elapsed;
        if tick {
            if !self.hit {
                self.y = shift(self.y, -PROJECTILE_STEP);
            } else if self.current_frame_index + 1 >= self.frame_count {
                self.y = PROJECTILE_GONE_Y;
            } else {
                self.current_frame_index = self.current_frame_index + 1;
            }
        }
    }

    /// Where the two bolts of this projectile are drawn.
    pub fn bolt_positions(&self) -> (r: ((i64, i64), (i64, i64)))
        ensures
            r == ((self.x, self.y), (clamp64(self.x + TWIN_BOLT_GAP), self.y)),
    {
        ((self.x, self.y), (shift(self.x, TWIN_BOLT_GAP), self.y))
    }
}

/// A projectile in flight rises by exactly one step per tick of its cadence,
/// so its height falls strictly from tick to tick, and it becomes removable
/// exactly when its height drops below zero.
pub proof fn lemma_flight(p: Projectile, n: nat)
    requires
        p.wf(),
        !p.hit,
        p.y - n * PROJECTILE_STEP >= i64::MIN,
    ensures
        p.ticked(n).wf(),
        !p.ticked(n).hit,
        p.ticked(n).y == p.y - n * PROJECTILE_STEP,
        p.ticked(n).removable() <==> p.y - n * PROJECTILE_STEP < 0,
        n > 0 ==> p.ticked(n).y < p.ticked((n - 1) as nat).y,
    decreases n,
{
    if n > 0 {
        lemma_flight(p, (n - 1) as nat);
    }
}

/// Over any run of updates, of whatever lengths, a projectile in flight stays
/// in flight and in its column, and its height falls by exactly one step for
/// each update that reaches the cadence and not at all for the others: it
/// never rises, and falls strictly on every tick.
pub proof fn lemma_flight_updates(p: Projectile, dts: Seq<u64>)
    requires
        p.wf(),
        !p.hit,
        p.y - dts.len() * PROJECTILE_STEP >= i64::MIN,
    ensures
        p.after(dts).wf(),
        !p.after(dts).hit,
        p.after(dts).x == p.x,
        p.ticks_in(dts) <= dts.len(),
        p.after(dts).y == p.y - p.ticks_in(dts) * PROJECTILE_STEP,
    decreases dts.len(),
{
    if dts.len() > 0 {
        lemma_flight_updates(p, dts.drop_last());
    }
}

/// An update of zero microseconds leaves a projectile exactly as it was, so
/// any number of them do too.
pub proof fn lemma_zero_dt_is_idle(p: Projectile)
    requires
        p.wf(),
    ensures
        p.next(0) == p,
{
}

} // verus!
