//! Entity archetypes (wall, pusher, coin), each created with its full set of
//! components at once, and the scene that exists before the first frame.
use crate::geometry::{cylinders_overlap_spec, BodyKind, Shape, Vec3i};
use crate::tween::{Direction, Tween};
use crate::world::{pusher_at, Body, EntityId, EntityRecord, World};
use vstd::prelude::*;

verus! {

/// Radius of every coin.
pub const COIN_RADIUS: i64 = 50;

/// Half the thickness of every coin.
pub const COIN_HALF_HEIGHT: i64 = 5;

/// Length of one stroke of the pusher, in microseconds.
pub const PUSHER_LEG_MICROS: u64 = 3_000_000;

/// Number of coins laid out before the first frame.
pub const GRID_COINS: usize = 23;

/// Number of entities that exist before the first frame.
pub const BOOTSTRAP_LEN: usize = 27;

pub open spec fn vec3(x: int, y: int, z: int) -> Vec3i {
    Vec3i { x: x as i64, y: y as i64, z: z as i64 }
}

pub open spec fn wall_record(pos: Vec3i, hx: i64, hy: i64, hz: i64) -> EntityRecord {
    EntityRecord {
        transform: Some(pos),
        body: Some(Body { shape: Shape::Cuboid { hx, hy, hz }, kind: BodyKind::Fixed }),
        pusher: false,
        animator: None,
    }
}

pub open spec fn pusher_record(pos: Vec3i, hx: i64, hy: i64, hz: i64, t: Tween) -> EntityRecord {
    EntityRecord {
        transform: Some(pos),
        body: Some(
            Body { shape: Shape::Cuboid { hx, hy, hz }, kind: BodyKind::KinematicPositionBased },
        ),
        pusher: true,
        animator: Some(t),
    }
}

pub open spec fn coin_record(pos: Vec3i) -> EntityRecord {
    EntityRecord {
        transform: Some(pos),
        body: Some(
            Body {
                shape: Shape::Cylinder { half_height: COIN_HALF_HEIGHT, radius: COIN_RADIUS },
                kind: BodyKind::Dynamic,
            },
        ),
        pusher: false,
        animator: None,
    }
}

/// Creates a Fixed box with the given half extents at `pos`.
pub fn spawn_wall(world: &mut World, pos: Vec3i, hx: i64, hy: i64, hz: i64) -> (r: EntityId)
    requires
        old(world).wf(),
    ensures
        final(world).wf(),
        r.0 == old(world)@.len(),
        final(world)@ == old(world)@.push(wall_record(pos, hx, hy, hz)),
{
    world.create_with(
        EntityRecord {
            transform: Some(pos),
            body: Some(Body { shape: Shape::Cuboid { hx, hy, hz }, kind: BodyKind::Fixed }),
            pusher: false,
            animator: None,
        },
    )
}

/// Creates the pusher: a kinematic box at `pos`, driven by `t`.
pub fn spawn_pusher(world: &mut World, pos: Vec3i, hx: i64, hy: i64, hz: i64, t: Tween) -> (r: EntityId)
    requires
        old(world).wf(),
        t.wf(),
    ensures
        final(world).wf(),
        r.0 == old(world)@.len(),
        final(world)@ == old(world)@.push(pusher_record(pos, hx, hy, hz, t)),
{
    world.create_with(
        EntityRecord {
            transform: Some(pos),
            body: Some(
                Body {
                    shape: Shape::Cuboid { hx, hy, hz },
                    kind: BodyKind::KinematicPositionBased,
                },
            ),
            pusher: true,
            animator: Some(t),
        },
    )
}

/// Creates a coin at `pos`. Overlap with what is already there is left to
/// the contact solver.
pub fn spawn_coin(world: &mut World, pos: Vec3i) -> (r: EntityId)
    requires
        old(world).wf(),
    ensures
        final(world).wf(),
        r.0 == old(world)@.len(),
        final(world)@ == old(world)@.push(coin_record(pos)),
{
    world.create_with(
        EntityRecord {
            transform: Some(pos),
            body: Some(
                Body {
                    shape: Shape::Cylinder { half_height: COIN_HALF_HEIGHT, radius: COIN_RADIUS },
                    kind: BodyKind::Dynamic,
                },
            ),
            pusher: false,
            animator: None,
        },
    )
}

/// The pusher's animation: a sinusoidal stroke from z = -13 to z = -15 and
/// back, one leg every three seconds.
pub open spec fn pusher_tween() -> Tween {
    Tween {
        start: vec3(0, 0, -1300),
        end: vec3(0, 0, -1500),
        duration: PUSHER_LEG_MICROS,
        cursor: 0,
        direction: Direction::Forward,
    }
}

/// The centre of the `k`-th coin of the initial grid: three rows, spaced a
/// little more than a coin's diameter apart, the middle row offset by half.
pub open spec fn grid_position(k: int) -> Vec3i {
    if k < 8 {
        vec3(101 * (k - 4) + 50, 5, 0)
    } else if k < 15 {
        vec3(101 * (k - 11), 5, -100)
    } else {
        vec3(101 * (k - 19) + 50, 5, -200)
    }
}

/// The `j`-th entity of the scene before the first frame: floor, two side
/// walls, the pusher, then the coin grid.
pub open spec fn bootstrap_record(j: int) -> EntityRecord {
    if j == 0 {
        wall_record(vec3(0, -100, 0), 1000, 100, 500)
    } else if j == 1 {
        wall_record(vec3(-500, 0, 0), 100, 1000, 2500)
    } else if j == 2 {
        wall_record(vec3(500, 0, 0), 100, 1000, 2500)
    } else if j == 3 {
        pusher_record(vec3(0, 0, -1300), 1000, 100, 1000, pusher_tween())
    } else {
        coin_record(grid_position(j - 4))
    }
}

pub open spec fn bootstrap_records() -> Seq<EntityRecord> {
    Seq::new(BOOTSTRAP_LEN as nat, |j: int| bootstrap_record(j))
}

/// Builds the scene that exists before the first frame.
pub fn bootstrap() -> (r: World)
    ensures
        r.wf(),
        r@ == bootstrap_records(),
        pusher_at(r@, 3),
{
    let mut w = World::new();
    spawn_wall(&mut w, Vec3i::new(0, -100, 0), 1000, 100, 500);
    spawn_wall(&mut w, Vec3i::new(-500, 0, 0), 100, 1000, 2500);
    spawn_wall(&mut w, Vec3i::new(500, 0, 0), 100, 1000, 2500);
    let start = Vec3i::new(0, 0, -1300);
    let t = Tween {
        start,
        end: Vec3i::new(0, 0, -1500),
        duration: PUSHER_LEG_MICROS,
        cursor: 0,
        direction: Direction::Forward,
    };
    spawn_pusher(&mut w, start, 1000, 100, 1000, t);
    let mut x: i64 = -4;
    while x < 4
        invariant
            -4 <= x <= 4,
            w.wf(),
            w@.len() == 8 + x,
            forall|j: int| 0 <= j < w@.len() ==> #[trigger] w@[j] == bootstrap_record(j),
        decreases 4 - x,
    {
        spawn_coin(&mut w, Vec3i::new(101 * x + 50, 5, 0));
        x += 1;
    }
    let mut x: i64 = -3;
    while x < 4
        invariant
            -3 <= x <= 4,
            w.wf(),
            w@.len() == 15 + x,
            forall|j: int| 0 <= j < w@.len() ==> #[trigger] w@[j] == bootstrap_record(j),
        decreases 4 - x,
    {
        spawn_coin(&mut w, Vec3i::new(101 * x, 5, -100));
        x += 1;
    }
    let mut x: i64 = -4;
    while x < 4
        invariant
            -4 <= x <= 4,
            w.wf(),
            w@.len() == 23 + x,
            forall|j: int| 0 <= j < w@.len() ==> #[trigger] w@[j] == bootstrap_record(j),
        decreases 4 - x,
    {
        spawn_coin(&mut w, Vec3i::new(101 * x + 50, 5, -200));
        x += 1;
    }
    assert(w@ =~= bootstrap_records());
    w
}

/// No two coins of the initial grid interpenetrate: at frame 0 there is no
/// contact of negative depth between them.
pub proof fn lemma_bootstrap_coins_apart(a: int, b: int)
    requires
        0 <= a < GRID_COINS,
        0 <= b < GRID_COINS,
        a != b,
    ensures
        !cylinders_overlap_spec(
            grid_position(a),
            COIN_RADIUS as int,
            COIN_HALF_HEIGHT as int,
            grid_position(b),
            COIN_RADIUS as int,
            COIN_HALF_HEIGHT as int,
        ),
{
    let pa = grid_position(a);
    let pb = grid_position(b);
    let dx = pa.x - pb.x;
    let dz = pa.z - pb.z;
    assert(dx * dx >= 0) by (nonlinear_arith);
    assert(dz * dz >= 0) by (nonlinear_arith);
    if dz == 0 {
        assert(dx >= 101 || dx <= -101);
        assert(dx * dx >= 10201) by (nonlinear_arith)
            requires
                dx >= 101 || dx <= -101,
        ;
    } else {
        assert(dz >= 100 || dz <= -100);
        assert(dz * dz >= 10000) by (nonlinear_arith)
            requires
                dz >= 100 || dz <= -100,
        ;
    }
}

} // verus!
