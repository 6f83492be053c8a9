//! The entity world: entity identifiers index a table of component slots.
//! A collision shape and a body kind live in one `Body` slot, so an entity
//! never has one without the other.
use crate::geometry::{BodyKind, Shape, Vec3i};
use crate::tween::{lerp_vec, within_stroke, Tween, EASE_SCALE};
use vstd::prelude::*;

verus! {

/// An opaque entity identifier.
#[derive(Clone, Copy, Debug, PartialEq, Eq, Structural)]
pub struct EntityId(pub usize);

/// A collision shape together with the body kind that gives it physics.
#[derive(Clone, Copy, Debug, PartialEq, Eq, Structural)]
pub struct Body {
    pub shape: Shape,
    pub kind: BodyKind,
}

/// The component slots of one entity.
#[derive(Clone, Copy, Debug, PartialEq, Eq, Structural)]
pub struct EntityRecord {
    pub transform: Option<Vec3i>,
    pub body: Option<Body>,
    pub pusher: bool,
    pub animator: Option<Tween>,
}

pub open spec fn empty_record() -> EntityRecord {
    EntityRecord { transform: None, body: None, pusher: false, animator: None }
}

pub open spec fn has_kind(e: EntityRecord, kind: BodyKind) -> bool {
    match e.body {
        Some(b) => b.kind == kind,
        None => false,
    }
}

pub open spec fn records_wf(s: Seq<EntityRecord>) -> bool {
    forall|i: int|
        0 <= i < s.len() ==> match #[trigger] s[i].animator {
            Some(t) => t.wf(),
            None => true,
        }
}

/// The record with its animation, if any, advanced by `dt`.
pub open spec fn advance_record(e: EntityRecord, dt: int) -> EntityRecord {
    match e.animator {
        Some(t) => EntityRecord { animator: Some(t.advanced(dt)), ..e },
        None => e,
    }
}

/// `v` is the position of `t` at eased progress `e / EASE_SCALE`, and lies
/// within its stroke.
pub open spec fn animated_position(t: Tween, v: Vec3i, e: int) -> bool {
    &&& (v.x as int, v.y as int, v.z as int) == lerp_vec(t.start, t.end, e)
    &&& within_stroke(v, t.start, t.end)
}

/// From `a` to `b` no entity was removed, and every entity with a Fixed body
/// kept its body and its transform.
pub open spec fn fixed_preserved(a: Seq<EntityRecord>, b: Seq<EntityRecord>) -> bool {
    &&& a.len() <= b.len()
    &&& forall|i: int|
        0 <= i < a.len() && has_kind(#[trigger] a[i], BodyKind::Fixed) ==> b[i].transform
            == a[i].transform && b[i].body == a[i].body
}

/// Entity `p` is the one entity tagged as the pusher.
pub open spec fn pusher_at(s: Seq<EntityRecord>, p: int) -> bool {
    &&& 0 <= p < s.len()
    &&& forall|i: int| 0 <= i < s.len() ==> (#[trigger] s[i].pusher <==> i == p)
}

/// From `a` to `b` no entity was removed and no entity's record changed.
pub open spec fn records_kept(a: Seq<EntityRecord>, b: Seq<EntityRecord>) -> bool {
    &&& a.len() <= b.len()
    &&& forall|i: int| 0 <= i < a.len() ==> #[trigger] b[i] == a[i]
}

/// Walls never move: over any run of states in which each step keeps the
/// Fixed bodies in place, every Fixed body of the first state still has its
/// first transform in every later state.
pub proof fn lemma_fixed_bodies_never_move(states: Seq<Seq<EntityRecord>>)
    requires
        states.len() > 0,
        forall|j: int| 0 <= j < states.len() - 1 ==> fixed_preserved(#[trigger] states[j], states[j + 1]),
    ensures
        forall|j: int| 0 <= j < states.len() ==> fixed_preserved(states[0], #[trigger] states[j]),
    decreases states.len(),
{
    if states.len() > 1 {
        let front = states.drop_last();
        assert forall|j: int| 0 <= j < front.len() - 1 implies fixed_preserved(#[trigger] front[j], front[j + 1]) by {
            assert(front[j] == states[j] && front[j + 1] == states[j + 1]);
        }
        lemma_fixed_bodies_never_move(front);
        let n = states.len() - 1;
        assert(fixed_preserved(states[0], states[n - 1])) by {
            assert(front[n - 1] == states[n - 1]);
        }
        assert(fixed_preserved(states[n - 1], states[n]));
        assert forall|j: int| 0 <= j < states.len() implies fixed_preserved(states[0], #[trigger] states[j]) by {
            if j < n {
                assert(front[j] == states[j]);
            } else {
                assert forall|i: int| 0 <= i < states[0].len() && has_kind(#[trigger] states[0][i], BodyKind::Fixed)
                    implies states[n][i].transform == states[0][i].transform && states[n][i].body == states[0][i].body by {
                    assert(has_kind(states[n - 1][i], BodyKind::Fixed));
                }
            }
        }
    }
}

/// A table of entities; an entity's identifier is its index.
pub struct World {
    entities: Vec<EntityRecord>,
}

impl View for World {
    type V = Seq<EntityRecord>;

    closed spec fn view(&self) -> Seq<EntityRecord> {
        self.entities@
    }
}

impl World {
    pub open spec fn wf(&self) -> bool {
        records_wf(self@)
    }

    pub open spec fn contains(&self, id: EntityId) -> bool {
        id.0 < self@.len()
    }

    /// An empty world.
    pub fn new() -> (r: World)
        ensures
            r@ == Seq::<EntityRecord>::empty(),
            r.wf(),
    {
        World { entities: Vec::new() }
    }

    /// A copy of every entity's components, in identifier order.
    pub fn snapshot(&self) -> (r: Vec<EntityRecord>)
        ensures
            r@ == self@,
    {
        self.entities.clone()
    }

    pub fn len(&self) -> (r: usize)
        ensures
            r == self@.len(),
    {
        self.entities.len()
    }

    /// Creates an entity with no components.
    pub fn create_entity(&mut self) -> (r: EntityId)
        requires
            old(self).wf(),
        ensures
            final(self).wf(),
            r.0 == old(self)@.len(),
            final(self)@ == old(self)@.push(empty_record()),
    {
        let r = EntityId(self.entities.len());
        self.entities.push(EntityRecord { transform: None, body: None, pusher: false, animator: None });
        r
    }

    /// Creates an entity with the given components in one step.
    pub fn create_with(&mut self, rec: EntityRecord) -> (r: EntityId)
        requires
            old(self).wf(),
            match rec.animator {
                Some(t) => t.wf(),
                None => true,
            },
        ensures
            final(self).wf(),
            r.0 == old(self)@.len(),
            final(self)@ == old(self)@.push(rec),
    {
        let r = EntityId(self.entities.len());
        self.entities.push(rec);
        r
    }

    /// Replaces the record of `id`; `false`, with nothing changed, where
    /// there is no such entity.
    fn update(&mut self, id: EntityId, rec: EntityRecord) -> (r: bool)
        requires
            old(self).wf(),
            match rec.animator {
                Some(t) => t.wf(),
                None => true,
            },
        ensures
            final(self).wf(),
            r == old(self).contains(id),
            r ==> final(self)@ == old(self)@.update(id.0 as int, rec),
            !r ==> final(self)@ == old(self)@,
    {
        if id.0 < self.entities.len() {
            self.entities.set(id.0, rec);
            true
        } else {
            false
        }
    }

    /// The record of `id`, if there is such an entity.
    pub fn get(&self, id: EntityId) -> (r: Option<EntityRecord>)
        ensures
            self.contains(id) ==> r == Some(self@[id.0 as int]),
            !self.contains(id) ==> r is None,
    {
        if id.0 < self.entities.len() {
            Some(self.entities[id.0])
        } else {
            None
        }
    }

    /// Sets the transform of `id`; `false` where there is no such entity.
    pub fn attach_transform(&mut self, id: EntityId, v: Vec3i) -> (r: bool)
        requires
            old(self).wf(),
        ensures
            final(self).wf(),
            r == old(self).contains(id),
            r ==> final(self)@ == old(self)@.update(
                id.0 as int,
                EntityRecord { transform: Some(v), ..old(self)@[id.0 as int] },
            ),
            !r ==> final(self)@ == old(self)@,
    {
        match self.get(id) {
            Some(rec) => self.update(id, EntityRecord { transform: Some(v), ..rec }),
            None => false,
        }
    }

    /// Sets the shape and body kind of `id` together; `false` where there is
    /// no such entity.
    pub fn attach_body(&mut self, id: EntityId, body: Body) -> (r: bool)
        requires
            old(self).wf(),
        ensures
            final(self).wf(),
            r == old(self).contains(id),
            r ==> final(self)@ == old(self)@.update(
                id.0 as int,
                EntityRecord { body: Some(body), ..old(self)@[id.0 as int] },
            ),
            !r ==> final(self)@ == old(self)@,
    {
        match self.get(id) {
            Some(rec) => self.update(id, EntityRecord { body: Some(body), ..rec }),
            None => false,
        }
    }

    /// Tags `id` as the pusher; `false` where there is no such entity.
    pub fn attach_pusher_tag(&mut self, id: EntityId) -> (r: bool)
        requires
            old(self).wf(),
        ensures
            final(self).wf(),
            r == old(self).contains(id),
            r ==> final(self)@ == old(self)@.update(
                id.0 as int,
                EntityRecord { pusher: true, ..old(self)@[id.0 as int] },
            ),
            !r ==> final(self)@ == old(self)@,
    {
        match self.get(id) {
            Some(rec) => self.update(id, EntityRecord { pusher: true, ..rec }),
            None => false,
        }
    }

    /// Attaches an animation to `id`; `false` where there is no such entity.
    pub fn attach_animator(&mut self, id: EntityId, t: Tween) -> (r: bool)
        requires
            old(self).wf(),
            t.wf(),
        ensures
            final(self).wf(),
            r == old(self).contains(id),
            r ==> final(self)@ == old(self)@.update(
                id.0 as int,
                EntityRecord { animator: Some(t), ..old(self)@[id.0 as int] },
            ),
            !r ==> final(self)@ == old(self)@,
    {
        match self.get(id) {
            Some(rec) => self.update(id, EntityRecord { animator: Some(t), ..rec }),
            None => false,
        }
    }

    /// The transform of `id`; `None` where the entity or the component is
    /// missing.
    pub fn get_transform(&self, id: EntityId) -> (r: Option<Vec3i>)
        ensures
            self.contains(id) ==> r == self@[id.0 as int].transform,
            !self.contains(id) ==> r is None,
    {
        match self.get(id) {
            Some(rec) => rec.transform,
            None => None,
        }
    }

    /// The body of `id`; `None` where the entity or the component is missing.
    pub fn get_body(&self, id: EntityId) -> (r: Option<Body>)
        ensures
            self.contains(id) ==> r == self@[id.0 as int].body,
            !self.contains(id) ==> r is None,
    {
        match self.get(id) {
            Some(rec) => rec.body,
            None => None,
        }
    }

    /// The animation of `id`; `None` where the entity or the component is
    /// missing.
    pub fn get_animator(&self, id: EntityId) -> (r: Option<Tween>)
        ensures
            self.contains(id) ==> r == self@[id.0 as int].animator,
            !self.contains(id) ==> r is None,
    {
        match self.get(id) {
            Some(rec) => rec.animator,
            None => None,
        }
    }

    /// Moves a Dynamic body to `v`; `false`, with nothing changed, where
    /// `id` is missing or its body is not Dynamic.
    pub fn move_dynamic(&mut self, id: EntityId, v: Vec3i) -> (r: bool)
        requires
            old(self).wf(),
        ensures
            final(self).wf(),
            r == (old(self).contains(id) && has_kind(old(self)@[id.0 as int], BodyKind::Dynamic)),
            r ==> final(self)@ == old(self)@.update(
                id.0 as int,
                EntityRecord { transform: Some(v), ..old(self)@[id.0 as int] },
            ),
            !r ==> final(self)@ == old(self)@,
            fixed_preserved(old(self)@, final(self)@),
            forall|p: int| pusher_at(old(self)@, p) ==> pusher_at(final(self)@, p),
    {
        match self.get(id) {
            Some(rec) => {
                let dynamic = match rec.body {
                    Some(b) => b.kind == BodyKind::Dynamic,
                    None => false,
                };
                if dynamic {
                    self.update(id, EntityRecord { transform: Some(v), ..rec })
                } else {
                    false
                }
            },
            None => false,
        }
    }

    /// Advances the time cursor of every animation by `dt` microseconds.
    /// Nothing else changes.
    pub fn advance_animations(&mut self, dt: u64)
        requires
            old(self).wf(),
        ensures
            final(self).wf(),
            final(self)@.len() == old(self)@.len(),
            forall|i: int|
                0 <= i < old(self)@.len() ==> #[trigger] final(self)@[i] == advance_record(
                    old(self)@[i],
                    dt as int,
                ),
            fixed_preserved(old(self)@, final(self)@),
            forall|p: int| pusher_at(old(self)@, p) ==> pusher_at(final(self)@, p),
    {
        let ghost start = self@;
        let mut i: usize = 0;
        while i < self.entities.len()
            invariant
                i <= self@.len(),
                self@.len() == start.len(),
                records_wf(start),
                records_wf(self@),
                forall|j: int| 0 <= j < i ==> #[trigger] self@[j] == advance_record(start[j], dt as int),
                forall|j: int| i <= j < self@.len() ==> #[trigger] self@[j] == start[j],
            decreases start.len() - i,
        {
            let rec = self.entities[i];
            match rec.animator {
                Some(t) => {
                    let mut t2 = t;
                    assert(start[i as int].animator == Some(t));
                    t2.advance(dt);
                    self.entities.set(i, EntityRecord { animator: Some(t2), ..rec });
                },
                None => {},
            }
            i += 1;
        }
    }

    /// Writes the position of `id`'s animation at eased progress
    /// `eased / EASE_SCALE` into its transform. Only a kinematic body with an
    /// animation is moved; otherwise `false` and nothing changes.
    pub fn apply_animation(&mut self, id: EntityId, eased: u64) -> (r: bool)
        requires
            old(self).wf(),
            eased <= EASE_SCALE,
        ensures
            final(self).wf(),
            r == (old(self).contains(id) && old(self)@[id.0 as int].animator is Some
                && has_kind(old(self)@[id.0 as int], BodyKind::KinematicPositionBased)),
            r ==> final(self)@.len() == old(self)@.len(),
            r ==> forall|i: int| 0 <= i < old(self)@.len() && i != id.0 ==> #[trigger] final(self)@[i] == old(self)@[i],
            r ==> final(self)@[id.0 as int] == (EntityRecord {
                transform: Some(final(self)@[id.0 as int].transform->Some_0),
                ..old(self)@[id.0 as int]
            }),
            r ==> animated_position(
                old(self)@[id.0 as int].animator->Some_0,
                final(self)@[id.0 as int].transform->Some_0,
                eased as int,
            ),
            !r ==> final(self)@ == old(self)@,
            fixed_preserved(old(self)@, final(self)@),
            forall|p: int| pusher_at(old(self)@, p) ==> pusher_at(final(self)@, p),
    {
        match self.get(id) {
            Some(rec) => {
                let kinematic = match rec.body {
                    Some(b) => b.kind == BodyKind::KinematicPositionBased,
                    None => false,
                };
                match rec.animator {
                    Some(t) => {
                        if kinematic {
                            let v = t.position_at(eased);
                            self.update(id, EntityRecord { transform: Some(v), ..rec })
                        } else {
                            false
                        }
                    },
                    None => false,
                }
            },
            None => false,
        }
    }

    /// The first entity tagged as the pusher, if any.
    pub fn find_pusher(&self) -> (r: Option<EntityId>)
        ensures
            forall|p: int| pusher_at(self@, p) ==> r == Some(EntityId(p as usize)),
            r is None ==> forall|i: int| 0 <= i < self@.len() ==> !(#[trigger] self@[i]).pusher,
            r is Some ==> self.contains(r->Some_0) && self@[r->Some_0.0 as int].pusher,
    {
        let mut i: usize = 0;
        while i < self.entities.len()
            invariant
                i <= self@.len(),
                self@ == self.entities@,
                forall|j: int| 0 <= j < i ==> !(#[trigger] self@[j]).pusher,
            decreases self@.len() - i,
        {
            if self.entities[i].pusher {
                assert forall|p: int| pusher_at(self@, p) implies p == i by {
                    assert(self@[i as int].pusher);
                }
                return Some(EntityId(i));
            }
            i += 1;
        }
        assert forall|p: int| pusher_at(self@, p) implies false by {
            assert(self@[p].pusher);
        }
        None
    }

    /// The entities with a body of the given kind, in increasing order.
    pub fn entities_with_kind(&self, kind: BodyKind) -> (r: Vec<EntityId>)
        ensures
            forall|j: int| 0 <= j < r@.len() ==> #[trigger] r@[j].0 < self@.len() && has_kind(self@[r@[j].0 as int], kind),
            forall|j: int, k: int| 0 <= j < k < r@.len() ==> #[trigger] r@[j].0 < #[trigger] r@[k].0,
            forall|i: int| 0 <= i < self@.len() && has_kind(#[trigger] self@[i], kind) ==> exists|j: int|
                0 <= j < r@.len() && #[trigger] r@[j].0 == i,
    {
        let mut r: Vec<EntityId> = Vec::new();
        let mut i: usize = 0;
        while i < self.entities.len()
            invariant
                i <= self@.len(),
                self@ == self.entities@,
                forall|j: int| 0 <= j < r@.len() ==> #[trigger] r@[j].0 < i && has_kind(self@[r@[j].0 as int], kind),
                forall|j: int, k: int| 0 <= j < k < r@.len() ==> #[trigger] r@[j].0 < #[trigger] r@[k].0,
                forall|m: int| 0 <= m < i && has_kind(#[trigger] self@[m], kind) ==> exists|j: int|
                    0 <= j < r@.len() && #[trigger] r@[j].0 == m,
            decreases self@.len() - i,
        {
            let is_kind = match self.entities[i].body {
                Some(b) => b.kind == kind,
                None => false,
            };
            if is_kind {
                let ghost old_r = r@;
                r.push(EntityId(i));
                assert forall|m: int| 0 <= m < i + 1 && has_kind(#[trigger] self@[m], kind) implies exists|j: int|
                    0 <= j < r@.len() && #[trigger] r@[j].0 == m by {
                    if m < i {
                        let j = choose|j: int| 0 <= j < old_r.len() && #[trigger] old_r[j].0 == m;
                        assert(r@[j] == old_r[j]);
                    } else {
                        assert(r@[r@.len() - 1].0 == m);
                    }
                }
            }
            i += 1;
        }
        r
    }
}

} // verus!
