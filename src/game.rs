use vstd::prelude::*;

use crate::projectile::Projectile;
use crate::ship::{fresh_ship, Ship, ShipFrames, ShipView};
use crate::timing::{accumulate, clamp64, fires, shift};

verus! {

/// An enemy appears every this many microseconds.
pub const SPAWN_INTERVAL: u64 = 2_000_000;

/// Number of places in the cycle of spawn positions.
pub const SPAWN_SLOTS: usize = 18;

/// Enemies appear this far above the top of the screen.
pub const SPAWN_Y: i64 = -1500;

/// Enemies face down the screen: half a turn, in ten-thousandths of a radian.
pub const ENEMY_ANGLE: i64 = 31416;

/// How far the player moves sideways per frame while a direction is held.
pub const PLAYER_SPEED: i64 = 50;

/// The player starts this far above the bottom of the screen.
pub const PLAYER_START_RISE: i64 = 1800;

/// Reference points of the player and enemy sprites, for the contact test.
pub const PLAYER_ANCHOR_X: i64 = 360;

pub const PLAYER_ANCHOR_Y: i64 = 550;

pub const ENEMY_ANCHOR_X: i64 = 300;

pub const ENEMY_ANCHOR_Y: i64 = 900;

/// The player touches an enemy when their reference points are closer than
/// these, along each axis.
pub const CONTACT_RANGE_X: i64 = 600;

pub const CONTACT_RANGE_Y: i64 = 900;

/// Damage to an enemy that touches the player: enough to destroy it. The
/// player takes none.
pub const CONTACT_DAMAGE: u32 = 100;

/// Two enemies in one column crash when their heights differ by at most this.
pub const STACK_RANGE_Y: i64 = 800;

/// Damage to the upper and to the lower of two crashing enemies.
pub const STACK_UPPER_DAMAGE: u32 = 50;

pub const STACK_LOWER_DAMAGE: u32 = 100;

/// A projectile strikes an enemy when it is within this horizontal distance
/// of the enemy's position (exclusive) ...
pub const SHOT_HALF_WIDTH: i64 = 320;

/// ... and within this vertical distance (exclusive).
pub const SHOT_RANGE_Y: i64 = 1500;

/// Damage of one projectile to one enemy. A projectile strikes every enemy it
/// overlaps during the pass in which it first hits.
pub const SHOT_DAMAGE: u32 = 10;

pub open spec fn abs(v: int) -> int {
    if v < 0 {
        -v
    } else {
        v
    }
}

/// The spawn positions, in tenths of the screen width, in the order of the
/// cycle.
pub open spec fn spawn_tenths(slot: int) -> int {
    if slot == 0 { 1 }
    else if slot == 1 { 7 }
    else if slot == 2 { 9 }
    else if slot == 3 { 5 }
    else if slot == 4 { 3 }
    else if slot == 5 { 8 }
    else if slot == 6 { 2 }
    else if slot == 7 { 6 }
    else if slot == 8 { 4 }
    else if slot == 9 { 9 }
    else if slot == 10 { 5 }
    else if slot == 11 { 3 }
    else if slot == 12 { 1 }
    else if slot == 13 { 7 }
    else if slot == 14 { 2 }
    else if slot == 15 { 6 }
    else if slot == 16 { 4 }
    else { 8 }
}

/// Where, across a screen `width` wide, the enemy of a given slot appears.
pub open spec fn spawn_x(width: i64, slot: int) -> i64 {
    (width * spawn_tenths(slot) / 10) as i64
}

pub fn spawn_fraction(slot: usize) -> (r: i64)
    requires
        slot < SPAWN_SLOTS,
    ensures
        r == spawn_tenths(slot as int),
{
    match slot {
        0 => 1,
        1 => 7,
        2 => 9,
        3 => 5,
        4 => 3,
        5 => 8,
        6 => 2,
        7 => 6,
        8 => 4,
        9 => 9,
        10 => 5,
        11 => 3,
        12 => 1,
        13 => 7,
        14 => 2,
        15 => 6,
        16 => 4,
        _ => 8,
    }
}

pub fn spawn_position(width: i64, slot: usize) -> (r: i64)
    requires
        width >= 0,
        slot < SPAWN_SLOTS,
    ensures
        r == spawn_x(width, slot as int),
        0 <= r <= width,
{
    let t = spawn_fraction(slot);
    let w = width as i128;
    assert(0 <= w * (t as i128) / 10 <= w) by (nonlinear_arith)
        requires
            0 <= w,
            1 <= t <= 9,
    ;
    (w * (t as i128) / 10) as i64
}


/// The contact test between the player and an enemy.
pub fn touches(player: &Ship, enemy: &Ship) -> (r: bool)
    ensures
        r == touching(player@, enemy@),
{
    let dx = (player.x as i128 + PLAYER_ANCHOR_X as i128) - (enemy.x as i128 + ENEMY_ANCHOR_X as i128);
    let dy = (player.y as i128 + PLAYER_ANCHOR_Y as i128) - (enemy.y as i128 + ENEMY_ANCHOR_Y as i128);
    let adx = if dx < 0 { -dx } else { dx };
    let ady = if dy < 0 { -dy } else { dy };
    adx < CONTACT_RANGE_X as i128 && ady < CONTACT_RANGE_Y as i128
}

/// Whether two enemies stand in one column, close enough to crash.
pub fn stacked(a: &Ship, b: &Ship) -> (r: bool)
    ensures
        r == in_stack(a@, b@),
{
    let dy = a.y as i128 - b.y as i128;
    let ady = if dy < 0 { -dy } else { dy };
    a.x == b.x && ady <= STACK_RANGE_Y as i128
}

/// Whether a projectile lies on an enemy.
pub fn hits_enemy(p: &Projectile, e: &Ship) -> (r: bool)
    ensures
        r == overlapping(*p, e@),
{
    let dy = p.y as i128 - e.y as i128;
    let ady = if dy < 0 { -dy } else { dy };
    (p.x as i128) > (e.x as i128) - (SHOT_HALF_WIDTH as i128) && (p.x as i128) < (e.x as i128) + (
    SHOT_HALF_WIDTH as i128) && ady < SHOT_RANGE_Y as i128
}

/// The whole play: the player, the enemies and the spawn schedule.
pub struct Game {
    pub player: Ship,
    pub enemies: Vec<Ship>,
    pub enemy_frames: ShipFrames,
    pub projectile_frames: usize,
    pub screen_width: i64,
    pub screen_height: i64,
    /// The slot of the next enemy in the cycle of spawn positions.
    pub spawn_index: usize,
    pub spawn_timer: u64,
}

pub ghost struct GameView {
    pub player: ShipView,
    pub enemies: Seq<ShipView>,
    pub enemy_frames: ShipFrames,
    pub projectile_frames: usize,
    pub screen_width: i64,
    pub screen_height: i64,
    pub spawn_index: usize,
    pub spawn_timer: u64,
}

pub open spec fn views(ships: Seq<Ship>) -> Seq<ShipView> {
    ships.map_values(|s: Ship| s@)
}

impl View for Game {
    type V = GameView;

    open spec fn view(&self) -> GameView {
        GameView {
            player: self.player@,
            enemies: views(self.enemies@),
            enemy_frames: self.enemy_frames,
            projectile_frames: self.projectile_frames,
            screen_width: self.screen_width,
            screen_height: self.screen_height,
            spawn_index: self.spawn_index,
            spawn_timer: self.spawn_timer,
        }
    }
}

/// The enemies that are not yet ready to go, in their order.
pub open spec fn survivors(es: Seq<ShipView>, screen_height: i64) -> Seq<ShipView>
    decreases es.len(),
{
    if es.len() == 0 {
        es
    } else {
        let rest = survivors(es.subrange(1, es.len() as int), screen_height);
        if es[0].removable(screen_height) {
            rest
        } else {
            seq![es[0]] + rest
        }
    }
}


/// Whether the player's and the enemy's reference points are close enough on
/// both axes for them to touch.
pub open spec fn touching(p: ShipView, e: ShipView) -> bool {
    &&& abs((p.x + PLAYER_ANCHOR_X) - (e.x + ENEMY_ANCHOR_X)) < CONTACT_RANGE_X
    &&& abs((p.y + PLAYER_ANCHOR_Y) - (e.y + ENEMY_ANCHOR_Y)) < CONTACT_RANGE_Y
}

/// An enemy after the contact test against the player.
pub open spec fn after_contact(p: ShipView, e: ShipView) -> ShipView {
    if e.alive() && touching(p, e) {
        e.damaged_by(CONTACT_DAMAGE)
    } else {
        e
    }
}

/// Whether two enemies stand in one column, close enough to crash.
pub open spec fn in_stack(a: ShipView, b: ShipView) -> bool {
    a.x == b.x && abs(a.y - b.y) <= STACK_RANGE_Y
}

/// The crash test of the enemies at `i` and `j`: if they are stacked and the
/// lower one is alive, the upper one takes the smaller damage and the lower
/// one the larger.
pub open spec fn crash(es: Seq<ShipView>, i: int, j: int) -> Seq<ShipView> {
    if in_stack(es[i], es[j]) {
        let upper = if es[j].y < es[i].y { j } else { i };
        let lower = if es[j].y < es[i].y { i } else { j };
        if es[lower].alive() {
            es.update(upper, es[upper].damaged_by(STACK_UPPER_DAMAGE)).update(
                lower,
                es[lower].damaged_by(STACK_LOWER_DAMAGE),
            )
        } else {
            es
        }
    } else {
        es
    }
}

/// The crash tests of every pair from `(i, j)` on, in the order `(0, 1)`,
/// `(0, 2)`, ..., `(1, 2)`, ..., each seeing the damage of the ones before.
pub open spec fn crashes(es: Seq<ShipView>, i: nat, j: nat) -> Seq<ShipView>
    decreases es.len() - i, es.len() - j,
{
    if i >= es.len() {
        es
    } else if j >= es.len() {
        crashes(es, i + 1, i + 2)
    } else {
        crashes(crash(es, i as int, j as int), i, j + 1)
    }
}

/// Whether a projectile lies on an enemy.
pub open spec fn overlapping(p: Projectile, e: ShipView) -> bool {
    &&& e.x - SHOT_HALF_WIDTH < p.x < e.x + SHOT_HALF_WIDTH
    &&& abs(p.y - e.y) < SHOT_RANGE_Y
}

/// The shot tests from projectile `k` against enemy `m` on: each projectile
/// that had not hit anything when its turn came is tested against every
/// enemy, and each overlap damages the enemy and marks the projectile.
pub open spec fn strikes(ps: Seq<Projectile>, es: Seq<ShipView>, k: nat, m: nat) -> (
    Seq<Projectile>,
    Seq<ShipView>,
)
    decreases ps.len() - k, es.len() - m,
{
    if k >= ps.len() {
        (ps, es)
    } else if m >= es.len() || (m == 0 && ps[k as int].hit) {
        strikes(ps, es, k + 1, 0)
    } else if overlapping(ps[k as int], es[m as int]) {
        strikes(
            ps.update(k as int, Projectile { hit: true, ..ps[k as int] }),
            es.update(m as int, es[m as int].damaged_by(SHOT_DAMAGE)),
            k,
            m + 1,
        )
    } else {
        strikes(ps, es, k, m + 1)
    }
}

impl GameView {
    pub open spec fn wf(self) -> bool {
        &&& self.player.wf()
        &&& self.player.is_player
        &&& self.player.projectile_frames == self.projectile_frames
        &&& forall|i: int|
            0 <= i < self.enemies.len() ==> #[trigger] self.enemies[i].projectile_frames
                == self.projectile_frames
        &&& forall|i: int| 0 <= i < self.enemies.len() ==> #[trigger] self.enemies[i].wf()
        &&& self.enemy_frames.wf()
        &&& self.projectile_frames >= 2
        &&& self.screen_width >= 0
        &&& self.spawn_index < SPAWN_SLOTS
        &&& self.spawn_timer < SPAWN_INTERVAL
    }

    pub open spec fn pruned(self) -> GameView {
        GameView { enemies: survivors(self.enemies, self.screen_height), ..self }
    }

    /// The enemy that the next spawn brings.
    pub open spec fn next_enemy(self) -> ShipView {
        fresh_ship(
            spawn_x(self.screen_width, self.spawn_index as int),
            SPAWN_Y,
            ENEMY_ANGLE,
            false,
            self.enemy_frames,
            self.projectile_frames,
        )
    }

    pub open spec fn spawn_due(self, dt: u64) -> bool {
        fires(self.spawn_timer, dt, SPAWN_INTERVAL)
    }

    pub open spec fn spawned(self, dt: u64) -> GameView {
        if self.spawn_due(dt) {
            GameView {
                enemies: self.enemies.push(self.next_enemy()),
                spawn_index: ((self.spawn_index + 1) % (SPAWN_SLOTS as int)) as usize,
                spawn_timer: 0,
                ..self
            }
        } else {
            GameView { spawn_timer: (self.spawn_timer + dt) as u64, ..self }
        }
    }

    /// The game after `n` spawn intervals in a row, with nothing else done.
    pub open spec fn spawn_run(self, n: nat) -> GameView
        decreases n,
    {
        if n == 0 {
            self
        } else {
            self.spawn_run((n - 1) as nat).spawned(SPAWN_INTERVAL)
        }
    }

    pub open spec fn steered(self, left: bool, right: bool, fire: bool) -> GameView {
        let after_left = if left { self.player.moved(-PLAYER_SPEED as int) } else { self.player };
        let after_right = if right { after_left.moved(PLAYER_SPEED as int) } else { after_left };
        GameView { player: if fire { after_right.fired() } else { after_right }, ..self }
    }

    pub open spec fn contacted(self) -> GameView {
        GameView { enemies: self.enemies.map_values(|e: ShipView| after_contact(self.player, e)), ..self }
    }

    pub open spec fn crashed(self) -> GameView {
        GameView { enemies: crashes(self.enemies, 0, 1), ..self }
    }

    pub open spec fn shot(self) -> GameView {
        let r = strikes(self.player.projectiles, self.enemies, 0, 0);
        GameView { player: ShipView { projectiles: r.0, ..self.player }, enemies: r.1, ..self }
    }

    /// One frame of play: prune, spawn, steer, the three collision tests,
    /// then the updates of all ships.
    pub open spec fn stepped(self, dt: u64, left: bool, right: bool, fire: bool) -> GameView {
        self.pruned().spawned(dt).steered(left, right, fire).contacted().crashed().shot().updated(dt)
    }

    pub open spec fn updated(self, dt: u64) -> GameView {
        GameView {
            player: self.player.next(dt),
            enemies: self.enemies.map_values(|e: ShipView| e.next(dt)),
            ..self
        }
    }
}

proof fn lemma_spawn_step(g: GameView)
    requires
        g.wf(),
    ensures
        g.spawned(SPAWN_INTERVAL).wf(),
        g.spawned(SPAWN_INTERVAL).enemies == g.enemies.push(g.next_enemy()),
        g.spawned(SPAWN_INTERVAL).spawn_index == (g.spawn_index + 1) % (SPAWN_SLOTS as int),
        g.spawned(SPAWN_INTERVAL).screen_width == g.screen_width,
        g.next_enemy().x == spawn_x(g.screen_width, g.spawn_index as int),
{
    let h = g.spawned(SPAWN_INTERVAL);
    assert forall|i: int| 0 <= i < h.enemies.len() implies #[trigger] h.enemies[i].wf() by {
        if i < g.enemies.len() {
            assert(h.enemies[i] == g.enemies[i]);
        }
    }
}

proof fn lemma_mod_succ(a: int)
    requires
        a >= 0,
    ensures
        ((a % (SPAWN_SLOTS as int)) + 1) % (SPAWN_SLOTS as int) == (a + 1) % (SPAWN_SLOTS as int),
        (a + SPAWN_SLOTS) % (SPAWN_SLOTS as int) == a % (SPAWN_SLOTS as int),
{
}

/// Each spawn interval brings one enemy, at the next slot of the cycle: after
/// `n` intervals the new enemies stand, in order, at the positions of the
/// slots that follow the starting one.
pub proof fn lemma_spawn_order(g: GameView, n: nat)
    requires
        g.wf(),
    ensures
        g.spawn_run(n).wf(),
        g.spawn_run(n).screen_width == g.screen_width,
        g.spawn_run(n).spawn_index == (g.spawn_index + n) % (SPAWN_SLOTS as int),
        g.spawn_run(n).enemies.len() == g.enemies.len() + n,
        g.spawn_run(n).enemies.subrange(0, g.enemies.len() as int) == g.enemies,
        forall|k: int|
            0 <= k < n ==> (#[trigger] g.spawn_run(n).enemies[g.enemies.len() + k]).x == spawn_x(
                g.screen_width,
                (g.spawn_index + k) % (SPAWN_SLOTS as int),
            ),
    decreases n,
{
    if n > 0 {
        let prev = g.spawn_run((n - 1) as nat);
        lemma_spawn_order(g, (n - 1) as nat);
        lemma_spawn_step(prev);
        lemma_mod_succ(g.spawn_index + n - 1);
        let cur = g.spawn_run(n);
        assert(cur == prev.spawned(SPAWN_INTERVAL));
        assert(cur.enemies.subrange(0, g.enemies.len() as int) =~= prev.enemies.subrange(
            0,
            g.enemies.len() as int,
        ));
        assert forall|k: int| 0 <= k < n implies (#[trigger] cur.enemies[g.enemies.len() + k]).x
            == spawn_x(g.screen_width, (g.spawn_index + k) % (SPAWN_SLOTS as int)) by {
            if k < n - 1 {
                assert(cur.enemies[g.enemies.len() + k] == prev.enemies[g.enemies.len() + k]);
            }
        }
    }
}

/// The positions of spawned enemies repeat with the cycle: after any number
/// of spawn intervals, each new enemy stands where the one a full cycle
/// earlier stood.
pub proof fn lemma_spawn_cycle(g: GameView, n: nat)
    requires
        g.wf(),
    ensures
        forall|k: int|
            0 <= k && k + SPAWN_SLOTS < n ==> (#[trigger] g.spawn_run(n).enemies[g.enemies.len() + k
                + SPAWN_SLOTS]).x == g.spawn_run(n).enemies[g.enemies.len() + k].x,
{
    lemma_spawn_order(g, n);
    let es = g.spawn_run(n).enemies;
    assert forall|k: int| 0 <= k && k + SPAWN_SLOTS < n implies (#[trigger] es[g.enemies.len() + k
        + SPAWN_SLOTS]).x == es[g.enemies.len() + k].x by {
        assert(es[g.enemies.len() + (k + SPAWN_SLOTS)].x == spawn_x(
            g.screen_width,
            (g.spawn_index + (k + SPAWN_SLOTS)) % (SPAWN_SLOTS as int),
        ));
        lemma_mod_succ(g.spawn_index + k);
    }
}

impl Game {
    pub open spec fn wf(self) -> bool {
        self@.wf()
    }

    /// A game on a screen of the given size, with the player centred near the
    /// bottom and no enemies yet.
    pub fn new(
        screen_width: i64,
        screen_height: i64,
        player_frames: ShipFrames,
        enemy_frames: ShipFrames,
        projectile_frames: usize,
    ) -> (r: Game)
        requires
            screen_width >= 0,
            player_frames.wf(),
            enemy_frames.wf(),
            projectile_frames >= 2,
        ensures
            r.wf(),
            r@ == (GameView {
                player: fresh_ship(
                    (screen_width / 2) as i64,
                    clamp64(screen_height - PLAYER_START_RISE),
                    0,
                    true,
                    player_frames,
                    projectile_frames,
                ),
                enemies: Seq::empty(),
                enemy_frames,
                projectile_frames,
                screen_width,
                screen_height,
                spawn_index: 0,
                spawn_timer: 0,
            }),
    {
        let player = Ship::new(
            screen_width / 2,
            shift(screen_height, -PLAYER_START_RISE),
            0,
            true,
            player_frames,
            projectile_frames,
        );
        let enemies: Vec<Ship> = Vec::new();
        assert(views(enemies@) =~= Seq::empty());
        Game {
            player,
            enemies,
            enemy_frames,
            projectile_frames,
            screen_width,
            screen_height,
            spawn_index: 0,
            spawn_timer: 0,
        }
    }

    /// Drops the enemies that can go, keeping the order of the rest.
    pub fn prune_enemies(&mut self)
        requires
            old(self).wf(),
        ensures
            final(self).wf(),
            final(self)@ == old(self)@.pruned(),
    {
        let ghost start = views(self.enemies@);
        let h = self.screen_height;
        let n = self.enemies.len();
        let mut i: usize = n;
        while i > 0
            invariant
                i <= n,
                n == start.len(),
                self.screen_height == h,
                self.wf(),
                self@ == (GameView { enemies: views(self.enemies@), ..old(self)@ }),
                start == old(self)@.enemies,
                views(self.enemies@) == start.subrange(0, i as int) + survivors(
                    start.subrange(i as int, n as int),
                    h,
                ),
            decreases i,
        {
            let ghost before = views(self.enemies@);
            let ghost gv = self@;
            let ghost tail = start.subrange(i as int, n as int);
            let ghost whole = start.subrange(i - 1, n as int);
            assert(whole.subrange(1, whole.len() as int) =~= tail);
            assert(whole[0] == start[i - 1]);
            assert(before.len() == self.enemies@.len());
            assert(before[i - 1] == start[i - 1]);
            if self.enemies[i - 1].can_be_removed(h) {
                let ghost vec_before = self.enemies@;
                self.enemies.remove(i - 1);
                assert(self.enemies@ == vec_before.remove(i - 1));
                assert(views(self.enemies@) =~= before.remove(i - 1));
                assert(survivors(whole, h) == survivors(tail, h));
                assert(views(self.enemies@) =~= start.subrange(0, i - 1) + survivors(whole, h));
                assert forall|k: int| 0 <= k < views(self.enemies@).len() implies (#[trigger] views(
                    self.enemies@,
                )[k]).wf() by {
                    if k < i - 1 {
                        assert(gv.enemies[k].wf());
                        assert(views(self.enemies@)[k] == before[k]);
                    } else {
                        assert(gv.enemies[k + 1].wf());
                        assert(views(self.enemies@)[k] == before[k + 1]);
                    }
                }
            } else {
                assert(views(self.enemies@) =~= start.subrange(0, i - 1) + survivors(whole, h));
            }
            i = i - 1;
        }
        assert(start.subrange(0, n as int) =~= start);
        assert(start.subrange(0, 0) + survivors(start, h) =~= survivors(start, h));
    }

    /// Advances the spawn timer by `dt`; when it reaches the interval, brings
    /// in the enemy of the current slot, moves on to the next slot and starts
    /// the timer again. Tells whether an enemy came.
    pub fn advance_spawn(&mut self, dt: u64) -> (spawned: bool)
        requires
            old(self).wf(),
        ensures
            final(self).wf(),
            spawned == old(self)@.spawn_due(dt),
            final(self)@ == old(self)@.spawned(dt),
    {
        let (due, timer) = accumulate(self.spawn_timer, dt, SPAWN_INTERVAL);
        self.spawn_timer = timer;
        if due {
            let x = spawn_position(self.screen_width, self.spawn_index);
            let enemy = Ship::new(
                x,
                SPAWN_Y,
                ENEMY_ANGLE,
                false,
                self.enemy_frames,
                self.projectile_frames,
            );
            let ghost before = self.enemies@;
            self.enemies.push(enemy);
            assert(views(self.enemies@) =~= views(before).push(enemy@));
            self.spawn_index = (self.spawn_index + 1) % SPAWN_SLOTS;
        }
        due
    }

    /// Applies the player's intents of this frame: move left and right while
    /// held, fire once when pressed.
    pub fn apply_input(&mut self, left: bool, right: bool, fire: bool)
        requires
            old(self).wf(),
        ensures
            final(self).wf(),
            final(self)@ == old(self)@.steered(left, right, fire),
    {
        if left {
            self.player.mov(-PLAYER_SPEED);
        }
        if right {
            self.player.mov(PLAYER_SPEED);
        }
        if fire {
            self.player.shoot();
        }
    }

    /// Damages every living enemy that touches the player. The player itself
    /// is not hurt.
    pub fn contact_pass(&mut self)
        requires
            old(self).wf(),
        ensures
            final(self).wf(),
            final(self)@ == old(self)@.contacted(),
    {
        let ghost start = views(self.enemies@);
        let n = self.enemies.len();
        let mut i: usize = 0;
        while i < n
            invariant
                i <= n,
                n == start.len(),
                start == old(self)@.enemies,
                self@ == (GameView { enemies: views(self.enemies@), ..old(self)@ }),
                views(self.enemies@).len() == n,
                forall|k: int| 0 <= k < n ==> #[trigger] views(self.enemies@)[k] == if k < i {
                    after_contact(old(self)@.player, start[k])
                } else {
                    start[k]
                },
                forall|k: int| 0 <= k < n ==> (#[trigger] views(self.enemies@)[k]).wf(),
            decreases n - i,
        {
            let ghost before = self.enemies@;
            assert(views(before)[i as int].wf());
            if self.enemies[i].is_alive() && touches(&self.player, &self.enemies[i]) {
                self.enemies[i].notify_hit(CONTACT_DAMAGE);
            }
            proof {
                let vs = views(self.enemies@);
                assert(vs[i as int] == after_contact(old(self)@.player, start[i as int]));
                assert forall|k: int| 0 <= k < n implies (#[trigger] vs[k]).wf() && vs[k] == if k
                    < i + 1 {
                    after_contact(old(self)@.player, start[k])
                } else {
                    start[k]
                } by {
                    if k != i {
                        assert(vs[k] == views(before)[k]);
                    }
                }
            }
            i = i + 1;
        }
        assert(views(self.enemies@) =~= start.map_values(
            |e: ShipView| after_contact(old(self)@.player, e),
        ));
    }

    /// Runs the crash test on every pair of enemies, in order.
    pub fn stacking_pass(&mut self)
        requires
            old(self).wf(),
        ensures
            final(self).wf(),
            final(self)@ == old(self)@.crashed(),
    {
        let ghost target = crashes(old(self)@.enemies, 0, 1);
        let n = self.enemies.len();
        let mut i: usize = 0;
        while i < n
            invariant
                i <= n,
                n == self.enemies@.len(),
                self.wf(),
                self@ == (GameView { enemies: views(self.enemies@), ..old(self)@ }),
                crashes(views(self.enemies@), i as nat, (i + 1) as nat) == target,
            decreases n - i,
        {
            let mut j: usize = i + 1;
            while j < n
                invariant
                    i < n,
                    i + 1 <= j <= n,
                    n == self.enemies@.len(),
                    self.wf(),
                    self@ == (GameView { enemies: views(self.enemies@), ..old(self)@ }),
                    crashes(views(self.enemies@), i as nat, j as nat) == target,
                decreases n - j,
            {
                let ghost before = self.enemies@;
                let ghost es = views(before);
                let ghost gv = self@;
                assert(es.len() == n);
                proof {
                    assert(gv.enemies[i as int].wf());
                    assert(gv.enemies[j as int].wf());
                }
                if stacked(&self.enemies[i], &self.enemies[j]) {
                    let (upper, lower) = if self.enemies[j].y < self.enemies[i].y {
                        (j, i)
                    } else {
                        (i, j)
                    };
                    if self.enemies[lower].is_alive() {
                        self.enemies[upper].notify_hit(STACK_UPPER_DAMAGE);
                        let ghost mid = self.enemies@;
                        assert(views(mid) =~= es.update(upper as int, es[upper as int].damaged_by(STACK_UPPER_DAMAGE)));
                        assert(views(mid)[lower as int].wf());
                        self.enemies[lower].notify_hit(STACK_LOWER_DAMAGE);
                        assert(views(self.enemies@) =~= views(mid).update(lower as int, es[lower as int].damaged_by(STACK_LOWER_DAMAGE)));
                    }
                }
                proof {
                    let vs = views(self.enemies@);
                    assert(vs =~= crash(es, i as int, j as int));
                    assert forall|k: int| 0 <= k < n implies (#[trigger] vs[k]).wf() by {
                        assert(gv.enemies[k].wf());
                    }
                }
                j = j + 1;
            }
            i = i + 1;
        }
    }

    /// Tests each of the player's projectiles that has not hit anything yet
    /// against every enemy; each overlap damages the enemy and marks the
    /// projectile.
    pub fn shot_pass(&mut self)
        requires
            old(self).wf(),
        ensures
            final(self).wf(),
            final(self)@ == old(self)@.shot(),
    {
        let ghost target = strikes(old(self)@.player.projectiles, old(self)@.enemies, 0, 0);
        let np = self.player.projectiles.len();
        let ne = self.enemies.len();
        let mut k: usize = 0;
        while k < np
            invariant
                k <= np,
                np == self.player.projectiles@.len(),
                ne == self.enemies@.len(),
                self.wf(),
                self@ == (GameView {
                    player: ShipView { projectiles: self.player.projectiles@, ..old(self)@.player },
                    enemies: views(self.enemies@),
                    ..old(self)@
                }),
                strikes(self.player.projectiles@, views(self.enemies@), k as nat, 0) == target,
            decreases np - k,
        {
            if !self.player.projectiles[k].hit {
                let mut m: usize = 0;
                while m < ne
                    invariant
                        k < np,
                        m <= ne,
                        np == self.player.projectiles@.len(),
                        ne == self.enemies@.len(),
                        self.wf(),
                        self@ == (GameView {
                            player: ShipView { projectiles: self.player.projectiles@, ..old(self)@.player },
                            enemies: views(self.enemies@),
                            ..old(self)@
                        }),
                        m == 0 ==> !self.player.projectiles@[k as int].hit,
                        strikes(self.player.projectiles@, views(self.enemies@), k as nat, m as nat)
                            == target,
                    decreases ne - m,
                {
                    let ghost ps = self.player.projectiles@;
                    let ghost es = views(self.enemies@);
                    let ghost gv = self@;
                    let p = self.player.projectiles[k];
                    assert(es.len() == ne);
                    if hits_enemy(&p, &self.enemies[m]) {
                        assert(gv.enemies[m as int].wf());
                        self.enemies[m].notify_hit(SHOT_DAMAGE);
                        self.player.projectiles[k].notify_hit();
                        proof {
                            let vs = views(self.enemies@);
                            assert(vs =~= es.update(m as int, es[m as int].damaged_by(SHOT_DAMAGE)));
                            assert(self.player.projectiles@ =~= ps.update(
                                k as int,
                                Projectile { hit: true, ..ps[k as int] },
                            ));
                            assert forall|q: int| 0 <= q < ne implies (#[trigger] vs[q]).wf() by {
                                assert(gv.enemies[q].wf());
                            }
                            let pv = self.player@;
                            assert forall|q: int| 0 <= q < pv.projectiles.len() implies (
                            #[trigger] pv.projectiles[q]).wf() && pv.projectiles[q].frame_count
                                == pv.projectile_frames by {
                                assert(gv.player.projectiles[q].wf());
                            }
                        }
                    }
                    m = m + 1;
                }
            }
            k = k + 1;
        }
    }

    /// One frame of play by `dt` microseconds, with the player's intents: see
    /// `GameView::stepped`.
    pub fn step(&mut self, dt: u64, left: bool, right: bool, fire: bool)
        requires
            old(self).wf(),
        ensures
            final(self).wf(),
            final(self)@ == old(self)@.stepped(dt, left, right, fire),
    {
        self.prune_enemies();
        self.advance_spawn(dt);
        self.apply_input(left, right, fire);
        self.contact_pass();
        self.stacking_pass();
        self.shot_pass();
        self.update_ships(dt);
    }

    /// Updates every enemy, then the player, by `dt`.
    pub fn update_ships(&mut self, dt: u64)
        requires
            old(self).wf(),
        ensures
            final(self).wf(),
            final(self)@ == old(self)@.updated(dt),
    {
        let ghost start = views(self.enemies@);
        let n = self.enemies.len();
        let mut i: usize = 0;
        while i < n
            invariant
                i <= n,
                n == start.len(),
                start == old(self)@.enemies,
                self@ == (GameView { enemies: views(self.enemies@), ..old(self)@ }),
                views(self.enemies@).len() == n,
                forall|k: int| 0 <= k < n ==> #[trigger] views(self.enemies@)[k] == if k < i {
                    start[k].next(dt)
                } else {
                    start[k]
                },
                forall|k: int| 0 <= k < n ==> (#[trigger] views(self.enemies@)[k]).wf(),
            decreases n - i,
        {
            let ghost before = self.enemies@;
            assert(views(before)[i as int].wf());
            self.enemies[i].update(dt);
            proof {
                let vs = views(self.enemies@);
                assert(self.enemies@ == before.update(i as int, self.enemies@[i as int]));
                assert(vs[i as int] == start[i as int].next(dt));
                crate::lifecycle::lemma_next_wf(start[i as int], dt);
                assert forall|k: int| 0 <= k < n implies (#[trigger] vs[k]).wf() && vs[k] == if k < i + 1 {
                    start[k].next(dt)
                } else {
                    start[k]
                } by {
                    if k != i {
                        assert(vs[k] == views(before)[k]);
                    }
                }
            }
            i = i + 1;
        }
        assert(views(self.enemies@) =~= start.map_values(|e: ShipView| e.next(dt)));
        self.player.update(dt);
    }
}

} // verus!
