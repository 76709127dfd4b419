use vstd::prelude::*;

use crate::projectile::Projectile;
use crate::timing::{accumulate, clamp64, fires, shift};

verus! {

/// A ship's animation advances at most once per this many microseconds.
pub const SHIP_CADENCE: u64 = 100_000;

pub const MAX_HEALTH: u32 = 100;

/// At or below this health (and above zero) a ship shows its damaged frames.
pub const DAMAGED_HEALTH: u32 = 50;

/// Downward drift of a healthy enemy per tick.
pub const DRIFT_HEALTHY: i64 = 20;

/// Downward drift of a damaged enemy per tick.
pub const DRIFT_DAMAGED: i64 = 10;

/// Horizontal jolt of the player when its explosion starts.
pub const PLAYER_RECOIL_X: i64 = -204;

/// Horizontal and vertical jolt of an enemy when its explosion starts; they
/// centre the explosion sprite on the ship.
pub const ENEMY_RECOIL_X: i64 = -260;

pub const ENEMY_RECOIL_Y: i64 = 450;

/// Where a new projectile starts, relative to the ship that fires it.
pub const MUZZLE_DX: i64 = 240;

pub const MUZZLE_DY: i64 = -400;

/// The stages of a ship's life. Each tick of the animation moves a dying ship
/// on by at most one stage.
#[derive(Clone, Copy, PartialEq, Eq, Structural)]
pub enum DestructionState {
    Normal,
    DestroyStart,
    Destroying,
    DestroyEnd,
    Destroyed,
}

/// Which of its frame sets a ship is showing.
#[derive(Clone, Copy, PartialEq, Eq, Structural)]
pub enum FrameTier {
    Normal,
    Damaged,
    Explosion,
}

/// The number of frames in each of a ship's frame sets.
#[derive(Clone, Copy, PartialEq, Eq, Structural)]
pub struct ShipFrames {
    pub normal: usize,
    pub damaged: usize,
    pub explosion: usize,
}

impl ShipFrames {
    pub open spec fn wf(self) -> bool {
        self.normal >= 1 && self.damaged >= 1 && self.explosion >= 1
    }

    pub open spec fn count(self, tier: FrameTier) -> usize {
        match tier {
            FrameTier::Normal => self.normal,
            FrameTier::Damaged => self.damaged,
            FrameTier::Explosion => self.explosion,
        }
    }

    pub fn frames_in(&self, tier: FrameTier) -> (r: usize)
        ensures
            r == self.count(tier),
    {
        match tier {
            FrameTier::Normal => self.normal,
            FrameTier::Damaged => self.damaged,
            FrameTier::Explosion => self.explosion,
        }
    }
}

/// Position of a state along the destruction sequence.
pub open spec fn rank(s: DestructionState) -> int {
    match s {
        DestructionState::Normal => 0,
        DestructionState::DestroyStart => 1,
        DestructionState::Destroying => 2,
        DestructionState::DestroyEnd => 3,
        DestructionState::Destroyed => 4,
    }
}

/// The frame set shown in a given state at a given health.
pub open spec fn tier_of(state: DestructionState, health: u32) -> FrameTier {
    match state {
        DestructionState::Normal | DestructionState::DestroyStart => {
            if health > DAMAGED_HEALTH {
                FrameTier::Normal
            } else {
                FrameTier::Damaged
            }
        },
        _ => FrameTier::Explosion,
    }
}

/// A player or enemy ship, with the projectiles it has fired.
pub struct Ship {
    pub x: i64,
    pub y: i64,
    /// Rotation for drawing, fixed when the ship is made.
    pub angle: i64,
    pub is_player: bool,
    pub frames: ShipFrames,
    /// Number of frames in the frame set of this ship's projectiles.
    pub projectile_frames: usize,
    pub health: u32,
    pub state: DestructionState,
    pub current_frame_index: usize,
    pub frame_time_elapsed: u64,
    pub projectiles: Vec<Projectile>,
}

/// What a ship is, as the contracts speak of it.
pub ghost struct ShipView {
    pub x: i64,
    pub y: i64,
    pub angle: i64,
    pub is_player: bool,
    pub frames: ShipFrames,
    pub projectile_frames: usize,
    pub health: u32,
    pub state: DestructionState,
    pub current_frame_index: usize,
    pub frame_time_elapsed: u64,
    pub projectiles: Seq<Projectile>,
}

impl View for Ship {
    type V = ShipView;

    open spec fn view(&self) -> ShipView {
        ShipView {
            x: self.x,
            y: self.y,
            angle: self.angle,
            is_player: self.is_player,
            frames: self.frames,
            projectile_frames: self.projectile_frames,
            health: self.health,
            state: self.state,
            current_frame_index: self.current_frame_index,
            frame_time_elapsed: self.frame_time_elapsed,
            projectiles: self.projectiles@,
        }
    }
}

/// A ship as made: full health, in its normal state, with no projectiles.
pub open spec fn fresh_ship(
    x: i64,
    y: i64,
    angle: i64,
    is_player: bool,
    frames: ShipFrames,
    projectile_frames: usize,
) -> ShipView {
    ShipView {
        x,
        y,
        angle,
        is_player,
        frames,
        projectile_frames,
        health: MAX_HEALTH,
        state: DestructionState::Normal,
        current_frame_index: 0,
        frame_time_elapsed: 0,
        projectiles: Seq::empty(),
    }
}

impl ShipView {
    pub open spec fn tier(self) -> FrameTier {
        tier_of(self.state, self.health)
    }

    pub open spec fn active_frames(self) -> usize {
        self.frames.count(self.tier())
    }

    pub open spec fn wf(self) -> bool {
        &&& self.frames.wf()
        &&& self.projectile_frames >= 2
        &&& self.health <= MAX_HEALTH
        &&& (self.state == DestructionState::Normal ==> self.health > 0)
        &&& self.current_frame_index < self.active_frames()
        &&& self.frame_time_elapsed < SHIP_CADENCE
        &&& (self.state == DestructionState::DestroyEnd || self.state == DestructionState::Destroyed
            ==> self.current_frame_index == self.frames.explosion - 1)
        &&& forall|i: int|
            0 <= i < self.projectiles.len() ==> (#[trigger] self.projectiles[i]).wf()
                && self.projectiles[i].frame_count == self.projectile_frames
    }

    pub open spec fn alive(self) -> bool {
        self.state == DestructionState::Normal
    }

    pub open spec fn removable(self, screen_height: i64) -> bool {
        self.state == DestructionState::Destroyed || self.y > screen_height
    }

    pub open spec fn moved(self, delta: int) -> ShipView {
        ShipView { x: clamp64(self.x + delta), ..self }
    }

    /// The ship after it has fired from its muzzle.
    pub open spec fn fired(self) -> ShipView {
        ShipView {
            projectiles: self.projectiles.push(
                Projectile {
                    x: clamp64(self.x + MUZZLE_DX),
                    y: clamp64(self.y + MUZZLE_DY),
                    hit: false,
                    frame_count: self.projectile_frames,
                    current_frame_index: 1,
                    frame_time_elapsed: 0,
                },
            ),
            ..self
        }
    }

    /// The ship after a hit of `damage`. Only a ship in its normal state takes
    /// damage; health stops at zero, which starts the destruction.
    pub open spec fn damaged_by(self, damage: u32) -> ShipView {
        if self.state != DestructionState::Normal {
            self
        } else {
            let health: u32 = if damage >= self.health { 0 } else { (self.health - damage) as u32 };
            let state = if health == 0 { DestructionState::DestroyStart } else { DestructionState::Normal };
            let index = if tier_of(state, health) == self.tier() { self.current_frame_index } else { 0 };
            ShipView { health, state, current_frame_index: index, ..self }
        }
    }

    /// The ship after an explicit order to start its destruction.
    pub open spec fn destroyed(self) -> ShipView {
        if self.state == DestructionState::Normal {
            ShipView { state: DestructionState::DestroyStart, ..self }
        } else {
            self
        }
    }

    /// What one tick of the animation does to the ship (its projectiles aside).
    /// A dying ship steps through its explosion frames and reaches
    /// `DestroyEnd` on the tick that brings it to the last one.
    pub open spec fn tick(self) -> ShipView {
        match self.state {
            DestructionState::Normal => {
                let drift = if self.health > DAMAGED_HEALTH { DRIFT_HEALTHY } else { DRIFT_DAMAGED };
                ShipView {
                    y: if self.is_player { self.y } else { clamp64(self.y + drift) },
                    current_frame_index: ((self.current_frame_index + 1) % (self.active_frames() as int)) as usize,
                    ..self
                }
            },
            DestructionState::DestroyStart => ShipView {
                x: clamp64(self.x + if self.is_player { PLAYER_RECOIL_X } else { ENEMY_RECOIL_X }),
                y: if self.is_player { self.y } else { clamp64(self.y + ENEMY_RECOIL_Y) },
                current_frame_index: 0,
                state: DestructionState::Destroying,
                ..self
            },
            DestructionState::Destroying => {
                if self.current_frame_index + 1 >= self.frames.explosion {
                    ShipView { state: DestructionState::DestroyEnd, ..self }
                } else {
                    let index = self.current_frame_index + 1;
                    ShipView {
                        current_frame_index: index as usize,
                        state: if index + 1 == self.frames.explosion {
                            DestructionState::DestroyEnd
                        } else {
                            DestructionState::Destroying
                        },
                        ..self
                    }
                }
            },
            DestructionState::DestroyEnd => ShipView { state: DestructionState::Destroyed, ..self },
            DestructionState::Destroyed => self,
        }
    }

    /// The hull (all but the projectiles) after an update of `dt` microseconds.
    pub open spec fn hull_next(self, dt: u64) -> ShipView {
        if fires(self.frame_time_elapsed, dt, SHIP_CADENCE) {
            ShipView { frame_time_elapsed: 0, ..self }.tick()
        } else {
            ShipView { frame_time_elapsed: (self.frame_time_elapsed + dt) as u64, ..self }
        }
    }

    /// The ship after an update of `dt` microseconds: hull and projectiles.
    pub open spec fn next(self, dt: u64) -> ShipView {
        ShipView { projectiles: advance_all(self.projectiles, dt), ..self.hull_next(dt) }
    }

    /// The ship after `n` updates that each reach the cadence.
    pub open spec fn ticked(self, n: nat) -> ShipView
        decreases n,
    {
        if n == 0 {
            self
        } else {
            self.ticked((n - 1) as nat).next(SHIP_CADENCE)
        }
    }
}

impl Ship {
    pub open spec fn wf(self) -> bool {
        self@.wf()
    }

    pub fn new(
        x: i64,
        y: i64,
        angle: i64,
        is_player: bool,
        frames: ShipFrames,
        projectile_frames: usize,
    ) -> (r: Ship)
        requires
            frames.wf(),
            projectile_frames >= 2,
        ensures
            r.wf(),
            r@ == fresh_ship(x, y, angle, is_player, frames, projectile_frames),
    {
        Ship {
            x,
            y,
            angle,
            is_player,
            frames,
            projectile_frames,
            health: MAX_HEALTH,
            state: DestructionState::Normal,
            current_frame_index: 0,
            frame_time_elapsed: 0,
            projectiles: Vec::new(),
        }
    }

    /// Moves the ship sideways by `delta`; nothing holds it to the screen.
    pub fn mov(&mut self, delta: i64)
        requires
            old(self).wf(),
        ensures
            final(self).wf(),
            final(self)@ == old(self)@.moved(delta as int),
    {
        self.x = shift(self.x, delta);
    }

    /// Fires a projectile from the ship's muzzle.
    pub fn shoot(&mut self)
        requires
            old(self).wf(),
        ensures
            final(self).wf(),
            final(self)@ == old(self)@.fired(),
    {
        let p = Projectile::new(
            shift(self.x, MUZZLE_DX),
            shift(self.y, MUZZLE_DY),
            self.projectile_frames,
        );
        self.projectiles.push(p);
        assert forall|i: int| 0 <= i < self.projectiles@.len() implies #[trigger] self.projectiles@[i].wf() by {
            if i < old(self).projectiles@.len() {
                assert(self.projectiles@[i] == old(self).projectiles@[i]);
            }
        }
    }

    /// Whether the ship can go: its destruction is over, or it has passed the
    /// bottom of the screen.
    pub fn can_be_removed(&self, screen_height: i64) -> (r: bool)
        ensures
            r == self@.removable(screen_height),
    {
        self.state == DestructionState::Destroyed || self.y > screen_height
    }

    pub fn is_alive(&self) -> (r: bool)
        ensures
            r == self@.alive(),
    {
        self.state == DestructionState::Normal
    }

    pub fn active_tier(&self) -> (r: FrameTier)
        ensures
            r == self@.tier(),
    {
        match self.state {
            DestructionState::Normal | DestructionState::DestroyStart => {
                if self.health > DAMAGED_HEALTH {
                    FrameTier::Normal
                } else {
                    FrameTier::Damaged
                }
            },
            _ => FrameTier::Explosion,
        }
    }

    /// Starts the ship's destruction, whatever its health. A ship that is
    /// already dying or gone is left as it is.
    pub fn destroy(&mut self)
        requires
            old(self).wf(),
        ensures
            final(self).wf(),
            final(self)@ == old(self)@.destroyed(),
    {
        self.start_destruction();
    }

    /// The one way into the destruction sequence, by damage or by order.
    fn start_destruction(&mut self)
        ensures
            final(self)@ == old(self)@.destroyed(),
    {
        if self.state == DestructionState::Normal {
            self.state = DestructionState::DestroyStart;
        }
    }

    /// Takes `damage` off the ship's health. When health reaches zero the
    /// destruction starts; a ship that is no longer in its normal state is
    /// left as it is.
    pub fn notify_hit(&mut self, damage: u32)
        requires
            old(self).wf(),
        ensures
            final(self).wf(),
            final(self)@ == old(self)@.damaged_by(damage),
    {
        if self.state != DestructionState::Normal {
            return;
        }
        let before = self.active_tier();
        self.health = if damage >= self.health { 0 } else { self.health - damage };
        let after = if self.health > DAMAGED_HEALTH { FrameTier::Normal } else { FrameTier::Damaged };
        if after != before {
            self.current_frame_index = 0;
        }
        if self.health == 0 {
            self.start_destruction();
        }
    }

    /// The frame to draw, or `None` once the ship is destroyed.
    pub fn sprite(&self) -> (r: Option<(FrameTier, usize)>)
        ensures
            r == if self.state == DestructionState::Destroyed {
                None
            } else {
                Some((self@.tier(), self.current_frame_index))
            },
    {
        if self.state == DestructionState::Destroyed {
            None
        } else {
            Some((self.active_tier(), self.current_frame_index))
        }
    }

    fn advance_animation(&mut self)
        requires
            old(self).wf(),
        ensures
            final(self).wf(),
            final(self)@ == old(self)@.tick(),
    {
        match self.state {
            DestructionState::Normal => {
                if !self.is_player {
                    let drift = if self.health > DAMAGED_HEALTH { DRIFT_HEALTHY } else { DRIFT_DAMAGED };
                    self.y = shift(self.y, drift);
                }
                let count = self.frames.frames_in(self.active_tier());
                self.current_frame_index = (self.current_frame_index + 1) % count;
            },
            DestructionState::DestroyStart => {
                if self.is_player {
                    self.x = shift(self.x, PLAYER_RECOIL_X);
                } else {
                    self.x = shift(self.x, ENEMY_RECOIL_X);
                    self.y = shift(self.y, ENEMY_RECOIL_Y);
                }
                self.current_frame_index = 0;
                self.state = DestructionState::Destroying;
            },
            DestructionState::Destroying => {
                if self.current_frame_index + 1 < self.frames.explosion {
                    self.current_frame_index = self.current_frame_index + 1;
                }
                if self.current_frame_index + 1 >= self.frames.explosion {
                    self.state = DestructionState::DestroyEnd;
                }
            },
            DestructionState::DestroyEnd => {
                self.state = DestructionState::Destroyed;
            },
            DestructionState::Destroyed => {},
        }
    }

    fn update_projectiles(&mut self, dt: u64)
        requires
            old(self).wf(),
        ensures
            final(self).wf(),
            final(self)@ == (ShipView { projectiles: advance_all(old(self).projectiles@, dt), ..old(self)@ }),
    {
        let n = self.projectiles.len();
        let mut kept: Vec<Projectile> = Vec::new();
        let mut i: usize = 0;
        while i < n
            invariant
                n == self.projectiles@.len(),
                i <= n,
                self@.wf(),
                kept@ == advance_all(self.projectiles@.subrange(0, i as int), dt),
                forall|k: int|
                    0 <= k < kept@.len() ==> (#[trigger] kept@[k]).wf() && kept@[k].frame_count
                        == self.projectile_frames,
            decreases n - i,
        {
            let mut p = self.projectiles[i];
            assert(self@.projectiles[i as int].wf());
            assert(self.projectiles@.subrange(0, i + 1).drop_last() =~= self.projectiles@.subrange(
                0,
                i as int,
            ));
            if !p.can_be_removed() {
                p.update(dt);
                kept.push(p);
                assert forall|k: int| 0 <= k < kept@.len() implies (#[trigger] kept@[k]).wf()
                    && kept@[k].frame_count == self.projectile_frames by {
                    if k < kept@.len() - 1 {
                        assert(kept@[k] == kept@.drop_last()[k]);
                    }
                }
            }
            i = i + 1;
        }
        assert(self.projectiles@.subrange(0, n as int) =~= self.projectiles@);
        self.projectiles = kept;
    }

    /// Advances the ship by `dt` microseconds: its animation and destruction
    /// (see `next`), then its projectiles, of which those that can go are
    /// dropped and the rest updated.
    pub fn update(&mut self, dt: u64)
        requires
            old(self).wf(),
        ensures
            final(self).wf(),
            final(self)@ == old(self)@.next(dt),
    {
        let (tick, elapsed) = accumulate(self.frame_time_elapsed, dt, SHIP_CADENCE);
        self.frame_time_elapsed = elapsed;
        if tick {
            self.advance_animation();
        }
        self.update_projectiles(dt);
    }
}

/// The projectiles that survive pruning, each then updated by `dt`.
pub open spec fn advance_all(ps: Seq<Projectile>, dt: u64) -> Seq<Projectile>
    decreases ps.len(),
{
    if ps.len() == 0 {
        ps
    } else {
        let rest = advance_all(ps.drop_last(), dt);
        if ps.last().removable() {
            rest
        } else {
            rest.push(ps.last().next(dt))
        }
    }
}

} // verus!
