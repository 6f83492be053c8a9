//! The part of the rigid-body step that the world owns: the clamped frame
//! time handed to the solver, and the write-back of the solver's results,
//! which may move Dynamic bodies only.
use crate::geometry::{BodyKind, Vec3i};
use crate::world::{fixed_preserved, has_kind, pusher_at, EntityId, EntityRecord, World};
use vstd::prelude::*;

verus! {

/// The longest time step, in microseconds, that one frame may integrate:
/// a sixtieth of a second.
pub const MAX_STEP_MICROS: u64 = 16_667;

/// The time step to integrate for a frame that took `elapsed` microseconds:
/// spikes are clamped to `MAX_STEP_MICROS`.
pub fn clamp_frame_time(elapsed: u64) -> (r: u64)
    ensures
        elapsed <= MAX_STEP_MICROS ==> r == elapsed,
        elapsed > MAX_STEP_MICROS ==> r == MAX_STEP_MICROS,
{
    if elapsed > MAX_STEP_MICROS {
        MAX_STEP_MICROS
    } else {
        elapsed
    }
}

/// A new position computed by the solver for one body.
#[derive(Clone, Copy, Debug, PartialEq, Eq, Structural)]
pub struct BodyUpdate {
    pub id: EntityId,
    pub position: Vec3i,
}

/// The table after one update: applied where it names a Dynamic body,
/// ignored otherwise.
pub open spec fn apply_update(s: Seq<EntityRecord>, u: BodyUpdate) -> Seq<EntityRecord> {
    if u.id.0 < s.len() && has_kind(s[u.id.0 as int], BodyKind::Dynamic) {
        s.update(u.id.0 as int, EntityRecord { transform: Some(u.position), ..s[u.id.0 as int] })
    } else {
        s
    }
}

/// The table after the updates, in order.
pub open spec fn apply_updates(s: Seq<EntityRecord>, us: Seq<BodyUpdate>) -> Seq<EntityRecord>
    decreases us.len(),
{
    if us.len() == 0 {
        s
    } else {
        apply_update(apply_updates(s, us.drop_last()), us.last())
    }
}

/// Writes the solver's results back into the world, in order. Updates that
/// name a missing entity or a body that is not Dynamic are skipped: Fixed
/// bodies never move, and kinematic ones move only by their animation.
/// Returns how many updates were applied.
pub fn apply_physics(world: &mut World, updates: &Vec<BodyUpdate>) -> (r: usize)
    requires
        old(world).wf(),
    ensures
        final(world).wf(),
        final(world)@ == apply_updates(old(world)@, updates@),
        final(world)@.len() == old(world)@.len(),
        forall|i: int|
            0 <= i < old(world)@.len() && !has_kind(#[trigger] old(world)@[i], BodyKind::Dynamic)
                ==> final(world)@[i] == old(world)@[i],
        fixed_preserved(old(world)@, final(world)@),
        forall|p: int| pusher_at(old(world)@, p) ==> pusher_at(final(world)@, p),
        r <= updates@.len(),
{
    let ghost start = world@;
    let mut applied: usize = 0;
    let mut i: usize = 0;
    while i < updates.len()
        invariant
            i <= updates@.len(),
            applied <= i,
            world.wf(),
            world@ == apply_updates(start, updates@.take(i as int)),
            world@.len() == start.len(),
            forall|j: int|
                0 <= j < start.len() ==> (#[trigger] world@[j]).body == start[j].body
                    && world@[j].pusher == start[j].pusher,
            forall|j: int|
                0 <= j < start.len() && !has_kind(#[trigger] start[j], BodyKind::Dynamic) ==> world@[j]
                    == start[j],
        decreases updates@.len() - i,
    {
        let u = updates[i];
        assert(updates@.take(i + 1).drop_last() == updates@.take(i as int));
        if world.move_dynamic(u.id, u.position) {
            applied += 1;
        }
        i += 1;
    }
    assert(updates@.take(updates@.len() as int) == updates@);
    applied
}

} // verus!
