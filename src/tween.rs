//! A ping-pong tween of a position: a two-state machine that runs forward
//! from the start value to the end value, then backward, forever.
use crate::geometry::Vec3i;
use vstd::arithmetic::div_mod::{lemma_add_mod_noop_right, lemma_small_mod};
use vstd::arithmetic::mul::lemma_mul_is_distributive_add_other_way;
use vstd::prelude::*;

verus! {

/// Eased progress is given in millionths: `EASE_SCALE` is progress 1.
pub const EASE_SCALE: u64 = 1_000_000;

/// Which leg of the ping-pong cycle a tween is on.
#[derive(Clone, Copy, Debug, PartialEq, Eq, Structural)]
pub enum Direction {
    /// Progress rises from 0 towards 1.
    Forward,
    /// Progress falls from 1 towards 0.
    Backward,
}

/// Why a tween could not be built.
#[derive(Clone, Copy, Debug, PartialEq, Eq, Structural)]
pub enum TweenError {
    /// The duration of a leg was zero or negative.
    NonPositiveDuration,
}

/// A position animation with ping-pong playback. `duration` is the length of
/// one leg in microseconds; `cursor` is the time spent in the current leg.
#[derive(Clone, Copy, Debug, PartialEq, Eq, Structural)]
pub struct Tween {
    pub start: Vec3i,
    pub end: Vec3i,
    pub duration: u64,
    pub cursor: u64,
    pub direction: Direction,
}

/// Linear interpolation of one coordinate from `a` to `b` at eased progress
/// `e / EASE_SCALE`, rounded towards `a`.
pub open spec fn lerp(a: int, b: int, e: int) -> int {
    if a <= b {
        a + (b - a) * e / (EASE_SCALE as int)
    } else {
        a - (a - b) * e / (EASE_SCALE as int)
    }
}

pub open spec fn lerp_vec(a: Vec3i, b: Vec3i, e: int) -> (int, int, int) {
    (lerp(a.x as int, b.x as int, e), lerp(a.y as int, b.y as int, e), lerp(a.z as int, b.z as int, e))
}

pub open spec fn between(v: int, a: int, b: int) -> bool {
    (a <= v <= b) || (b <= v <= a)
}

/// Every coordinate of `v` lies between the matching coordinates of the
/// start and end values.
pub open spec fn within_stroke(v: Vec3i, a: Vec3i, b: Vec3i) -> bool {
    &&& between(v.x as int, a.x as int, b.x as int)
    &&& between(v.y as int, a.y as int, b.y as int)
    &&& between(v.z as int, a.z as int, b.z as int)
}

impl Tween {
    pub open spec fn wf(self) -> bool {
        &&& 0 < self.duration <= i64::MAX
        &&& self.cursor < self.duration
    }

    /// Length of a full forward-and-back cycle.
    pub open spec fn period(self) -> int {
        2 * self.duration
    }

    /// Time since the start of the current cycle, in `[0, period)`.
    pub open spec fn phase(self) -> int {
        match self.direction {
            Direction::Forward => self.cursor as int,
            Direction::Backward => self.duration + self.cursor,
        }
    }

    /// Linear progress is `progress_num() / duration`, in `[0, 1]`.
    pub open spec fn progress_num(self) -> int {
        match self.direction {
            Direction::Forward => self.cursor as int,
            Direction::Backward => self.duration - self.cursor,
        }
    }

    /// The tween state whose phase in the cycle is `p`.
    pub open spec fn at_phase(self, p: int) -> Tween {
        if p < self.duration {
            Tween { cursor: p as u64, direction: Direction::Forward, ..self }
        } else {
            Tween { cursor: (p - self.duration) as u64, direction: Direction::Backward, ..self }
        }
    }

    /// The state after `dt` more microseconds.
    pub open spec fn advanced(self, dt: int) -> Tween {
        self.at_phase((self.phase() + dt) % self.period())
    }

    /// Builds a tween at the start of its forward leg. A duration of zero or
    /// less is refused.
    pub fn new(start: Vec3i, end: Vec3i, duration: i64) -> (r: Result<Tween, TweenError>)
        ensures
            duration <= 0 <==> r == Err::<Tween, TweenError>(TweenError::NonPositiveDuration),
            duration > 0 ==> r == Ok::<Tween, TweenError>(
                Tween {
                    start,
                    end,
                    duration: duration as u64,
                    cursor: 0,
                    direction: Direction::Forward,
                },
            ),
    {
        if duration <= 0 {
            Err(TweenError::NonPositiveDuration)
        } else {
            Ok(Tween { start, end, duration: duration as u64, cursor: 0, direction: Direction::Forward })
        }
    }

    /// Advances the time cursor by `dt` microseconds, turning round at each
    /// end of the stroke as often as `dt` spans.
    pub fn advance(&mut self, dt: u64)
        requires
            old(self).wf(),
        ensures
            final(self).wf(),
            *final(self) == old(self).advanced(dt as int),
            final(self).phase() == (old(self).phase() + dt) % old(self).period(),
    {
        let d: u128 = self.duration as u128;
        let period: u128 = 2 * d;
        let p: u128 = match self.direction {
            Direction::Forward => self.cursor as u128,
            Direction::Backward => d + self.cursor as u128,
        };
        let np: u128 = (p + (dt as u128) % period) % period;
        proof {
            lemma_add_mod_noop_right(p as int, dt as int, period as int);
        }
        if np < d {
            self.cursor = np as u64;
            self.direction = Direction::Forward;
        } else {
            self.cursor = (np - d) as u64;
            self.direction = Direction::Backward;
        }
    }

    /// The linear progress as a fraction `(numerator, denominator)`.
    pub fn progress(&self) -> (r: (u64, u64))
        requires
            self.wf(),
        ensures
            r.0 == self.progress_num(),
            r.1 == self.duration,
            r.0 <= r.1,
    {
        match self.direction {
            Direction::Forward => (self.cursor, self.duration),
            Direction::Backward => (self.duration - self.cursor, self.duration),
        }
    }

    /// The position at eased progress `eased / EASE_SCALE`. The easing curve
    /// itself is applied by the caller to `progress()`.
    pub fn position_at(&self, eased: u64) -> (r: Vec3i)
        requires
            eased <= EASE_SCALE,
        ensures
            (r.x as int, r.y as int, r.z as int) == lerp_vec(self.start, self.end, eased as int),
            within_stroke(r, self.start, self.end),
            eased == 0 ==> r == self.start,
            eased == EASE_SCALE ==> r == self.end,
    {
        Vec3i {
            x: lerp_coord(self.start.x, self.end.x, eased),
            y: lerp_coord(self.start.y, self.end.y, eased),
            z: lerp_coord(self.start.z, self.end.z, eased),
        }
    }
}


/// The state after `k` frames of `dt` microseconds each.
pub open spec fn advanced_frames(t: Tween, dt: int, k: nat) -> Tween
    decreases k,
{
    if k == 0 {
        t
    } else {
        advanced_frames(t, dt, (k - 1) as nat).advanced(dt)
    }
}

proof fn lemma_at_phase(t: Tween, p: int)
    requires
        t.wf(),
        0 <= p < t.period(),
    ensures
        t.at_phase(p).wf(),
        t.at_phase(p).phase() == p,
        t.at_phase(p).period() == t.period(),
        t.at_phase(p).start == t.start,
        t.at_phase(p).end == t.end,
{
}

proof fn lemma_at_own_phase(t: Tween)
    requires
        t.wf(),
    ensures
        t.at_phase(t.phase()) == t,
{
}

/// After `k` frames the phase has moved on by `k * dt`, modulo the period,
/// and the stroke is unchanged.
pub proof fn lemma_frames_phase(t: Tween, dt: nat, k: nat)
    requires
        t.wf(),
    ensures
        advanced_frames(t, dt as int, k).wf(),
        advanced_frames(t, dt as int, k).phase() == (t.phase() + k * dt) % t.period(),
        advanced_frames(t, dt as int, k).period() == t.period(),
        advanced_frames(t, dt as int, k).start == t.start,
        advanced_frames(t, dt as int, k).end == t.end,
    decreases k,
{
    if k == 0 {
        lemma_small_mod(t.phase() as nat, t.period() as nat);
    } else {
        let prev = advanced_frames(t, dt as int, (k - 1) as nat);
        lemma_frames_phase(t, dt, (k - 1) as nat);
        let x = t.phase() + (k - 1) * dt;
        lemma_add_mod_noop_right(dt as int, x, t.period());
        lemma_mul_is_distributive_add_other_way(dt as int, (k - 1) as int, 1);
        assert(x + dt == t.phase() + k * dt);
        let np = (prev.phase() + dt) % prev.period();
        lemma_at_phase(prev, np);
    }
}

/// Ping-pong playback has no terminal state: frames that add up to one full
/// forward-and-back cycle bring the tween back to exactly the state it
/// started from, so the position sampled there is the starting one again.
pub proof fn lemma_full_cycle_returns(t: Tween, dt: nat, k: nat)
    requires
        t.wf(),
        k * dt == t.period(),
    ensures
        advanced_frames(t, dt as int, k) == t,
{
    lemma_frames_phase(t, dt, k);
    let a = advanced_frames(t, dt as int, k);
    vstd::arithmetic::div_mod::lemma_mod_add_multiples_vanish(t.phase(), t.period());
    lemma_small_mod(t.phase() as nat, t.period() as nat);
    lemma_at_own_phase(a);
    lemma_at_own_phase(t);
}

/// Frames that add up to exactly one leg, started at the beginning of the
/// forward leg, end at progress 1: the far end of the stroke.
pub proof fn lemma_one_leg_arrives(t: Tween, dt: nat, k: nat)
    requires
        t.wf(),
        t.direction == Direction::Forward,
        t.cursor == 0,
        k * dt == t.duration,
    ensures
        advanced_frames(t, dt as int, k).progress_num() == t.duration,
        advanced_frames(t, dt as int, k).direction == Direction::Backward,
{
    lemma_frames_phase(t, dt, k);
    lemma_small_mod(t.duration as nat, t.period() as nat);
}

fn lerp_coord(a: i64, b: i64, e: u64) -> (r: i64)
    requires
        e <= EASE_SCALE,
    ensures
        r == lerp(a as int, b as int, e as int),
        between(r as int, a as int, b as int),
        e == 0 ==> r == a,
        e == EASE_SCALE ==> r == b,
{
    let s: u128 = EASE_SCALE as u128;
    if a <= b {
        let d: u128 = (b as i128 - a as i128) as u128;
        proof {
            lemma_scaled_le(d as int, e as int);
        }
        let k: u128 = d * (e as u128) / s;
        (a as i128 + k as i128) as i64
    } else {
        let d: u128 = (a as i128 - b as i128) as u128;
        proof {
            lemma_scaled_le(d as int, e as int);
        }
        let k: u128 = d * (e as u128) / s;
        (a as i128 - k as i128) as i64
    }
}

proof fn lemma_scaled_le(d: int, e: int)
    requires
        0 <= d <= u64::MAX,
        0 <= e <= EASE_SCALE,
    ensures
        0 <= d * e <= d * EASE_SCALE,
        d * e <= u64::MAX * EASE_SCALE,
        0 <= d * e / (EASE_SCALE as int) <= d,
        e == 0 ==> d * e / (EASE_SCALE as int) == 0,
        e == EASE_SCALE ==> d * e / (EASE_SCALE as int) == d,
{
    assert(0 <= d * e <= d * EASE_SCALE) by (nonlinear_arith)
        requires
            0 <= d,
            0 <= e <= EASE_SCALE,
    ;
    assert(d * EASE_SCALE <= u64::MAX * EASE_SCALE) by (nonlinear_arith)
        requires
            0 <= d <= u64::MAX,
    ;
    assert(0 <= d * e / (EASE_SCALE as int) <= d) by (nonlinear_arith)
        requires
            0 <= d * e <= d * EASE_SCALE,
            0 <= d,
    ;
}

} // verus!
