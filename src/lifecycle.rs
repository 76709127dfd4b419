use vstd::prelude::*;

use crate::projectile::Projectile;
use crate::ship::{advance_all, rank, DestructionState, ShipView, SHIP_CADENCE};

verus! {

/// The projectiles that survive pruning, none of them moved.
pub open spec fn unremoved(ps: Seq<Projectile>) -> Seq<Projectile>
    decreases ps.len(),
{
    if ps.len() == 0 {
        ps
    } else {
        let rest = unremoved(ps.drop_last());
        if ps.last().removable() {
            rest
        } else {
            rest.push(ps.last())
        }
    }
}

/// The sum of a run of damages.
pub open spec fn total(ds: Seq<u32>) -> int
    decreases ds.len(),
{
    if ds.len() == 0 {
        0
    } else {
        total(ds.drop_last()) + ds.last()
    }
}

impl ShipView {
    /// The ship after hits of each damage in `ds`, in order.
    pub open spec fn hit_all(self, ds: Seq<u32>) -> ShipView
        decreases ds.len(),
    {
        if ds.len() == 0 {
            self
        } else {
            self.hit_all(ds.drop_last()).damaged_by(ds.last())
        }
    }

    /// The ship after updates of each elapsed time in `dts`, in order.
    pub open spec fn after(self, dts: Seq<u64>) -> ShipView
        decreases dts.len(),
    {
        if dts.len() == 0 {
            self
        } else {
            self.after(dts.drop_last()).next(dts.last())
        }
    }
}

pub proof fn lemma_advance_all_wf(ps: Seq<Projectile>, dt: u64, frames: usize)
    requires
        forall|i: int| 0 <= i < ps.len() ==> (#[trigger] ps[i]).wf() && ps[i].frame_count == frames,
    ensures
        forall|i: int|
            0 <= i < advance_all(ps, dt).len() ==> (#[trigger] advance_all(ps, dt)[i]).wf()
                && advance_all(ps, dt)[i].frame_count == frames,
    decreases ps.len(),
{
    if ps.len() > 0 {
        assert forall|i: int| 0 <= i < ps.drop_last().len() implies (#[trigger] ps.drop_last()[i]).wf()
            && ps.drop_last()[i].frame_count == frames by {
            assert(ps.drop_last()[i] == ps[i]);
        }
        lemma_advance_all_wf(ps.drop_last(), dt, frames);
        assert(ps[ps.len() - 1].wf());
        let rest = advance_all(ps.drop_last(), dt);
        if !ps.last().removable() {
            let q = ps.last().next(dt);
            assert forall|i: int| 0 <= i < rest.push(q).len() implies (#[trigger] rest.push(q)[i]).wf()
                && rest.push(q)[i].frame_count == frames by {
                if i < rest.len() {
                    assert(rest.push(q)[i] == rest[i]);
                }
            }
        }
    }
}

/// An update keeps a ship well formed; in particular its frame index stays
/// within its active frame set.
pub proof fn lemma_next_wf(s: ShipView, dt: u64)
    requires
        s.wf(),
    ensures
        s.next(dt).wf(),
        s.next(dt).current_frame_index < s.next(dt).active_frames(),
{
    lemma_advance_all_wf(s.projectiles, dt, s.projectile_frames);
}

/// However many updates a ship goes through, and of whatever lengths, its
/// frame index stays within its active frame set.
pub proof fn lemma_frame_index_in_range(s: ShipView, dts: Seq<u64>)
    requires
        s.wf(),
    ensures
        s.after(dts).wf(),
        s.after(dts).current_frame_index < s.after(dts).active_frames(),
    decreases dts.len(),
{
    if dts.len() > 0 {
        lemma_frame_index_in_range(s, dts.drop_last());
        lemma_next_wf(s.after(dts.drop_last()), dts.last());
    }
}

/// A destroyed ship takes no more damage: a hit changes neither its state nor
/// its health, nor anything else.
pub proof fn lemma_destroyed_ignores_hits(s: ShipView, damage: u32)
    requires
        s.state == DestructionState::Destroyed,
    ensures
        s.damaged_by(damage) == s,
{
}

/// Hits on a ship in its normal state wear its health down by their sum; once
/// the sum reaches the health it had, the ship's health is zero and its
/// destruction has started.
pub proof fn lemma_lethal_damage(s: ShipView, ds: Seq<u32>)
    requires
        s.wf(),
        s.state == DestructionState::Normal,
    ensures
        total(ds) >= s.health ==> s.hit_all(ds).state == DestructionState::DestroyStart
            && s.hit_all(ds).health == 0,
        total(ds) < s.health ==> s.hit_all(ds).state == DestructionState::Normal
            && s.hit_all(ds).health == s.health - total(ds),
    decreases ds.len(),
{
    if ds.len() > 0 {
        lemma_lethal_damage(s, ds.drop_last());
    }
}

/// Hit after hit, a ship that starts in its normal state stays there, with its
/// health less the damage so far, as long as that damage is below its starting
/// health; from the hit that takes the damage there on, its health is zero and
/// its destruction has started, and it goes straight to no later stage.
pub proof fn lemma_lethal_damage_steps(s: ShipView, ds: Seq<u32>)
    requires
        s.wf(),
        s.state == DestructionState::Normal,
    ensures
        forall|j: int|
            0 <= j <= ds.len() ==> if total(ds.subrange(0, j)) < s.health {
                (#[trigger] s.hit_all(ds.subrange(0, j))).state == DestructionState::Normal
                    && s.hit_all(ds.subrange(0, j)).health == s.health - total(ds.subrange(0, j))
            } else {
                s.hit_all(ds.subrange(0, j)).state == DestructionState::DestroyStart
                    && s.hit_all(ds.subrange(0, j)).health == 0
            },
{
    assert forall|j: int| 0 <= j <= ds.len() implies if total(ds.subrange(0, j)) < s.health {
        (#[trigger] s.hit_all(ds.subrange(0, j))).state == DestructionState::Normal
            && s.hit_all(ds.subrange(0, j)).health == s.health - total(ds.subrange(0, j))
    } else {
        s.hit_all(ds.subrange(0, j)).state == DestructionState::DestroyStart
            && s.hit_all(ds.subrange(0, j)).health == 0
    } by {
        lemma_lethal_damage(s, ds.subrange(0, j));
    }
}

/// An update moves a ship at most one stage along its destruction sequence,
/// never back and never past a stage; a ship in its normal state stays there
/// until a hit or an order starts its destruction.
pub proof fn lemma_one_stage_per_update(s: ShipView, dt: u64)
    requires
        s.wf(),
    ensures
        s.next(dt).state == s.state || (s.state != DestructionState::Normal && rank(
            s.next(dt).state,
        ) == rank(s.state) + 1),
{
}

proof fn lemma_ticked_split(s: ShipView, a: nat, b: nat)
    ensures
        s.ticked(a + b) == s.ticked(a).ticked(b),
    decreases b,
{
    if b > 0 {
        lemma_ticked_split(s, a, (b - 1) as nat);
        assert(s.ticked(a + b) == s.ticked((a + b - 1) as nat).next(SHIP_CADENCE));
    }
}

/// How many ticks a ship in `Destroying` with cursor `index` takes to reach
/// `DestroyEnd`, for an explosion of `explosion` frames.
pub open spec fn ticks_to_end(explosion: int, index: int) -> nat {
    if index + 1 >= explosion {
        1
    } else {
        (explosion - 1 - index) as nat
    }
}

proof fn lemma_explosion_runs(s: ShipView)
    requires
        s.wf(),
        s.state == DestructionState::Destroying,
    ensures
        s.ticked(ticks_to_end(s.frames.explosion as int, s.current_frame_index as int)).state
            == DestructionState::DestroyEnd,
        forall|j: nat|
            j < ticks_to_end(s.frames.explosion as int, s.current_frame_index as int) ==> (
            #[trigger] s.ticked(j)).state == DestructionState::Destroying,
    decreases s.frames.explosion - s.current_frame_index,
{
    let m = ticks_to_end(s.frames.explosion as int, s.current_frame_index as int);
    assert(s.ticked(0) == s);
    assert(s.ticked(1) == s.next(SHIP_CADENCE));
    let t = s.ticked(1);
    lemma_next_wf(s, SHIP_CADENCE);
    if s.current_frame_index + 2 < s.frames.explosion {
        lemma_explosion_runs(t);
        let mt = ticks_to_end(t.frames.explosion as int, t.current_frame_index as int);
        assert(mt + 1 == m);
        lemma_ticked_split(s, 1, mt);
        assert forall|j: nat| j < m implies (#[trigger] s.ticked(j)).state
            == DestructionState::Destroying by {
            if j > 0 {
                lemma_ticked_split(s, 1, (j - 1) as nat);
                assert(1 + (j - 1) == j);
            }
        }
    }
}

/// The tick, counted from the start of its destruction, on which a ship with
/// an explosion of `explosion` frames reaches `DestroyEnd`: the tick that
/// brings it to the last frame, and never sooner than the second.
pub open spec fn destroy_end_tick(explosion: int) -> nat {
    if explosion >= 2 {
        explosion as nat
    } else {
        2
    }
}

/// Once its destruction has started, a ship goes through `Destroying`, then
/// `DestroyEnd`, then `Destroyed`, in that order: it is destroying from the
/// first tick on, reaches `DestroyEnd` on the tick that brings its cursor to
/// the last explosion frame, and is destroyed one tick later, with the cursor
/// left on that last frame.
pub proof fn lemma_destruction_completes(s: ShipView)
    requires
        s.wf(),
        s.state == DestructionState::DestroyStart,
    ensures
        forall|k: nat|
            1 <= k < destroy_end_tick(s.frames.explosion as int) ==> (#[trigger] s.ticked(k)).state
                == DestructionState::Destroying,
        s.ticked(destroy_end_tick(s.frames.explosion as int)).state == DestructionState::DestroyEnd,
        s.ticked(destroy_end_tick(s.frames.explosion as int) + 1).state
            == DestructionState::Destroyed,
        s.ticked(destroy_end_tick(s.frames.explosion as int) + 1).current_frame_index
            == s.frames.explosion - 1,
{
    let d = destroy_end_tick(s.frames.explosion as int);
    assert(s.ticked(0) == s);
    assert(s.ticked(1) == s.next(SHIP_CADENCE));
    let t = s.ticked(1);
    lemma_next_wf(s, SHIP_CADENCE);
    assert(t.current_frame_index == 0);
    lemma_explosion_runs(t);
    let m = ticks_to_end(t.frames.explosion as int, 0);
    assert(m + 1 == d);
    lemma_ticked_split(s, 1, m);
    assert forall|k: nat| 1 <= k < d implies (#[trigger] s.ticked(k)).state
        == DestructionState::Destroying by {
        lemma_ticked_split(s, 1, (k - 1) as nat);
        assert(1 + (k - 1) == k);
    }
    let e = s.ticked(d);
    lemma_ticked_wf(s, d);
    assert(s.ticked(d + 1) == e.next(SHIP_CADENCE));
    lemma_next_wf(e, SHIP_CADENCE);
    lemma_ticked_wf(s, d + 1);
}

proof fn lemma_ticked_wf(s: ShipView, n: nat)
    requires
        s.wf(),
    ensures
        s.ticked(n).wf(),
        s.ticked(n).frames == s.frames,
    decreases n,
{
    if n > 0 {
        lemma_ticked_wf(s, (n - 1) as nat);
        lemma_next_wf(s.ticked((n - 1) as nat), SHIP_CADENCE);
    }
}

proof fn lemma_advance_all_zero(ps: Seq<Projectile>)
    requires
        forall|i: int| 0 <= i < ps.len() ==> #[trigger] ps[i].wf(),
    ensures
        advance_all(ps, 0) == unremoved(ps),
    decreases ps.len(),
{
    if ps.len() > 0 {
        assert forall|i: int| 0 <= i < ps.drop_last().len() implies #[trigger] ps.drop_last()[i].wf() by {
            assert(ps.drop_last()[i] == ps[i]);
        }
        lemma_advance_all_zero(ps.drop_last());
        assert(ps[ps.len() - 1].wf());
    }
}

proof fn lemma_unremoved_idempotent(ps: Seq<Projectile>)
    ensures
        unremoved(unremoved(ps)) == unremoved(ps),
        forall|i: int|
            0 <= i < unremoved(ps).len() ==> !(#[trigger] unremoved(ps)[i]).removable(),
    decreases ps.len(),
{
    if ps.len() > 0 {
        lemma_unremoved_idempotent(ps.drop_last());
        let rest = unremoved(ps.drop_last());
        if !ps.last().removable() {
            assert(rest.push(ps.last()).drop_last() =~= rest);
        }
    }
}

/// An update of zero microseconds moves nothing: the ship keeps its position,
/// state and frame, it only drops the projectiles that could already go, and
/// the survivors are untouched. A second such update changes nothing at all.
pub proof fn lemma_zero_dt_is_idle(s: ShipView)
    requires
        s.wf(),
    ensures
        s.next(0) == (ShipView { projectiles: unremoved(s.projectiles), ..s }),
        s.next(0).next(0) == s.next(0),
{
    lemma_advance_all_zero(s.projectiles);
    lemma_next_wf(s, 0);
    lemma_advance_all_zero(s.next(0).projectiles);
    lemma_unremoved_idempotent(s.projectiles);
}

} // verus!
