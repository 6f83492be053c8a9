//! The input-to-spawn pipeline: each frame the queue of button transitions
//! is drained, and every press of the primary button drops one coin.
use crate::geometry::Vec3i;
use crate::scene::{coin_record, spawn_coin, vec3};
use crate::world::{fixed_preserved, pusher_at, records_kept, EntityId, World};
use vstd::prelude::*;

verus! {

/// A pointer button.
#[derive(Clone, Copy, Debug, PartialEq, Eq, Structural)]
pub enum MouseButton {
    Primary,
    Secondary,
    Middle,
    Other(u16),
}

/// The edge of a button transition.
#[derive(Clone, Copy, Debug, PartialEq, Eq, Structural)]
pub enum Transition {
    Pressed,
    Released,
}

/// One raw button event.
#[derive(Clone, Copy, Debug, PartialEq, Eq, Structural)]
pub struct ButtonEvent {
    pub button: MouseButton,
    pub transition: Transition,
}

/// Where dropped coins appear: above the playfield, in front of the pusher.
pub open spec fn drop_point_spec() -> Vec3i {
    vec3(0, 200, -400)
}

pub fn drop_point() -> (r: Vec3i)
    ensures
        r == drop_point_spec(),
{
    Vec3i::new(0, 200, -400)
}

/// Whether an event asks for a coin: a press of the primary button.
pub open spec fn is_trigger(e: ButtonEvent) -> bool {
    e.button == MouseButton::Primary && e.transition == Transition::Pressed
}

/// How many events of `s` ask for a coin.
pub open spec fn count_triggers(s: Seq<ButtonEvent>) -> nat
    decreases s.len(),
{
    if s.len() == 0 {
        0
    } else {
        count_triggers(s.drop_last()) + if is_trigger(s.last()) {
            1nat
        } else {
            0nat
        }
    }
}

pub fn is_spawn_trigger(e: ButtonEvent) -> (r: bool)
    ensures
        r == is_trigger(e),
{
    match e.button {
        MouseButton::Primary => match e.transition {
            Transition::Pressed => true,
            Transition::Released => false,
        },
        _ => false,
    }
}

/// Drains the frame's queue in order, dropping one coin at the drop point
/// for each press of the primary button; every other event is consumed and
/// ignored. Returns the new coins, in the order of their events.
pub fn drain_spawn_events(world: &mut World, queue: &mut Vec<ButtonEvent>) -> (r: Vec<EntityId>)
    requires
        old(world).wf(),
    ensures
        final(world).wf(),
        final(queue)@.len() == 0,
        r@.len() == count_triggers(old(queue)@),
        final(world)@.len() == old(world)@.len() + count_triggers(old(queue)@),
        records_kept(old(world)@, final(world)@),
        fixed_preserved(old(world)@, final(world)@),
        forall|p: int| pusher_at(old(world)@, p) ==> pusher_at(final(world)@, p),
        forall|j: int| 0 <= j < r@.len() ==> (#[trigger] r@[j]).0 == old(world)@.len() + j,
        forall|i: int|
            old(world)@.len() <= i < final(world)@.len() ==> #[trigger] final(world)@[i]
                == coin_record(drop_point_spec()),
{
    let ghost start = world@;
    let ghost events = queue@;
    let mut r: Vec<EntityId> = Vec::new();
    let mut i: usize = 0;
    while i < queue.len()
        invariant
            i <= events.len(),
            queue@ == events,
            world.wf(),
            r@.len() == count_triggers(events.take(i as int)),
            world@.len() == start.len() + r@.len(),
            records_kept(start, world@),
            forall|j: int| 0 <= j < r@.len() ==> (#[trigger] r@[j]).0 == start.len() + j,
            forall|k: int|
                start.len() <= k < world@.len() ==> #[trigger] world@[k] == coin_record(
                    drop_point_spec(),
                ),
        decreases events.len() - i,
    {
        assert(events.take(i + 1).drop_last() == events.take(i as int));
        let e = queue[i];
        if is_spawn_trigger(e) {
            let id = spawn_coin(world, drop_point());
            r.push(id);
        }
        i += 1;
    }
    assert(events.take(events.len() as int) == events);
    queue.clear();
    r
}

/// A queue of nothing but primary-button presses asks for one coin per event.
pub proof fn lemma_presses_all_count(s: Seq<ButtonEvent>)
    requires
        forall|i: int| 0 <= i < s.len() ==> is_trigger(#[trigger] s[i]),
    ensures
        count_triggers(s) == s.len(),
    decreases s.len(),
{
    if s.len() > 0 {
        let f = s.drop_last();
        assert forall|i: int| 0 <= i < f.len() implies is_trigger(#[trigger] f[i]) by {
            assert(f[i] == s[i]);
        }
        lemma_presses_all_count(f);
    }
}

/// A queue of nothing but releases asks for no coin at all.
pub proof fn lemma_releases_spawn_nothing(s: Seq<ButtonEvent>)
    requires
        forall|i: int| 0 <= i < s.len() ==> (#[trigger] s[i]).transition == Transition::Released,
    ensures
        count_triggers(s) == 0,
    decreases s.len(),
{
    if s.len() > 0 {
        let f = s.drop_last();
        assert forall|i: int| 0 <= i < f.len() implies (#[trigger] f[i]).transition
            == Transition::Released by {
            assert(f[i] == s[i]);
        }
        lemma_releases_spawn_nothing(f);
    }
}

} // verus!
