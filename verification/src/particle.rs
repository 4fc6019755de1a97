//! Pooled particles and the particle emitter: a fixed-capacity,
//! free-list-based pool with no per-frame heap churn, and an emitter that
//! spawns into it at a fractional per-frame rate, advances kinematics, and
//! recycles dead slots exactly once.
//!
//! Units: positions and scales are milli-units, velocities milli-units per
//! second, angles milli-turns, rates and damping per-mille, lifetimes whole
//! frames, tick durations milliseconds.

use vstd::prelude::*;
use crate::colors::RgbaColor;
use crate::curve::{Curve, ColorCurve, spec_color_at};
use crate::geom2::{
    Vector2i,
    scale_div,
    spec_scale_div,
    mul_milli,
    spec_mul_milli,
    lemma_scale_div_bound,
    lemma_scale_div_shrinks,
    lemma_mul_milli_bound,
    sin_milli,
    cos_milli,
    spec_sin_milli,
    spec_cos_milli,
};
use crate::random::sample_in_range;

verus! {

/// Bound on emitter positions, spawn offsets, line endpoints and scales.
pub const COORD_LIMIT: i64 = 1_000_000_000_000;

/// Bound on particle speeds, in milli-units per second.
pub const VEL_LIMIT: i64 = 1_000_000_000;

/// Bound on one tick's duration, in milliseconds.
pub const DT_LIMIT: u64 = 60_000;

/// Bound on a particle's lifetime, in frames.
pub const LIFE_LIMIT: u32 = 1_000_000;

/// How far a particle can travel in one tick: `VEL_LIMIT * DT_LIMIT / 1000`.
pub const STEP_LIMIT: i64 = 60_000_000_000;

/// Bound on the emission rate, in per-mille particles per frame.
pub const RATE_LIMIT: u32 = 1_000_000;

/// A pooled particle. A slot is live exactly while `life > 0`; dead slots
/// are recycled through the pool's free list.
#[derive(Debug)]
pub struct Particle {
    /// Remaining lifetime in frames; 0 means dead.
    pub life: u32,
    /// The lifetime this particle was spawned with.
    pub initial_life: u32,
    pub position: Vector2i,
    pub velocity: Vector2i,
    /// Color over normalized age.
    pub colors: ColorCurve,
    pub scale: Vector2i,
    /// Optional per-mille scale factor over normalized age.
    pub scale_over_lifetime: Option<Curve>,
    /// Per-mille velocity decay per frame.
    pub damping: u32,
    /// Spawn angle in milli-turns.
    pub rotation: i64,
}

/// Bounds a live particle satisfies; its position may drift from the spawn
/// region by at most one step per elapsed frame.
pub open spec fn wf_particle(p: Particle) -> bool {
    &&& p.life <= p.initial_life
    &&& p.initial_life <= LIFE_LIMIT
    &&& p.life > 0 ==> {
        &&& -VEL_LIMIT <= p.velocity.x <= VEL_LIMIT
        &&& -VEL_LIMIT <= p.velocity.y <= VEL_LIMIT
        &&& -(3 * COORD_LIMIT + (p.initial_life - p.life) * STEP_LIMIT) <= p.position.x <= 3
            * COORD_LIMIT + (p.initial_life - p.life) * STEP_LIMIT
        &&& -(3 * COORD_LIMIT + (p.initial_life - p.life) * STEP_LIMIT) <= p.position.y <= 3
            * COORD_LIMIT + (p.initial_life - p.life) * STEP_LIMIT
        &&& p.damping <= 1000
        &&& -COORD_LIMIT <= p.scale.x <= COORD_LIMIT
        &&& -COORD_LIMIT <= p.scale.y <= COORD_LIMIT
        &&& p.colors.wf()
        &&& p.scale_over_lifetime matches Some(c) ==> c.wf()
    }
}

/// One frame of kinematics: the velocity decays by the particle's per-mille
/// damping factor, the position integrates the decayed velocity over `dt`
/// milliseconds, and the lifetime counts down one frame.
pub open spec fn spec_advanced(p: Particle, dt: u64) -> Particle {
    let vx = spec_scale_div(p.velocity.x as int, 1000 - p.damping, 1000);
    let vy = spec_scale_div(p.velocity.y as int, 1000 - p.damping, 1000);
    Particle {
        life: (p.life - 1) as u32,
        velocity: Vector2i { x: vx as i64, y: vy as i64 },
        position: Vector2i {
            x: (p.position.x + spec_scale_div(vx, dt as int, 1000)) as i64,
            y: (p.position.y + spec_scale_div(vy, dt as int, 1000)) as i64,
        },
        ..p
    }
}

/// Normalized age in per-mille: 0 at spawn, 1000 at death.
pub open spec fn spec_age(p: Particle) -> u32 {
    (1000 - ((p.life * 1000) as int / p.initial_life as int)) as u32
}

impl Particle {
    /// Reuse this slot for a fresh particle; the color curve is assigned
    /// separately, as in a spawn.
    pub fn respawn(
        &mut self,
        life: u32,
        origin: Vector2i,
        velocity: Vector2i,
        scale: Vector2i,
        damping: u32,
        scale_over_lifetime: Option<Curve>,
        rotation: i64,
    )
        ensures
            *final(self) == (Particle {
                life,
                initial_life: life,
                position: origin,
                velocity,
                colors: old(self).colors,
                scale,
                scale_over_lifetime,
                damping,
                rotation,
            }),
    {
        self.life = life;
        self.position = origin;
        self.scale = scale;
        self.velocity = velocity;
        self.damping = damping;
        self.scale_over_lifetime = scale_over_lifetime;
        self.initial_life = life;
        self.rotation = rotation;
    }

    /// True while the particle occupies its slot.
    pub fn alive(&self) -> (r: bool)
        ensures
            r == (self.life > 0),
    {
        self.life > 0
    }

    /// Advance one frame of kinematics over `dt` milliseconds.
    pub fn update(&mut self, dt: u64)
        requires
            wf_particle(*old(self)),
            old(self).life > 0,
            dt <= DT_LIMIT,
        ensures
            *final(self) == spec_advanced(*old(self), dt),
            wf_particle(*final(self)),
    {
        proof {
            lemma_scale_div_shrinks(self.velocity.x as int, 1000 - self.damping, 1000, VEL_LIMIT as int);
            lemma_scale_div_shrinks(self.velocity.y as int, 1000 - self.damping, 1000, VEL_LIMIT as int);
            assert(-(VEL_LIMIT * 1000) <= self.velocity.x * (1000 - self.damping) <= VEL_LIMIT
                * 1000) by (nonlinear_arith)
                requires
                    -VEL_LIMIT <= self.velocity.x <= VEL_LIMIT,
                    0 <= 1000 - self.damping <= 1000,
            ;
            assert(-(VEL_LIMIT * 1000) <= self.velocity.y * (1000 - self.damping) <= VEL_LIMIT
                * 1000) by (nonlinear_arith)
                requires
                    -VEL_LIMIT <= self.velocity.y <= VEL_LIMIT,
                    0 <= 1000 - self.damping <= 1000,
            ;
        }
        let vx = scale_div(self.velocity.x, 1000 - self.damping as i64, 1000);
        let vy = scale_div(self.velocity.y, 1000 - self.damping as i64, 1000);
        proof {
            lemma_scale_div_bound(vx as int, dt as int, 1000, VEL_LIMIT as int, DT_LIMIT as int);
            lemma_scale_div_bound(vy as int, dt as int, 1000, VEL_LIMIT as int, DT_LIMIT as int);
            assert((VEL_LIMIT * DT_LIMIT) as int / 1000 == STEP_LIMIT as int);
            assert(-(VEL_LIMIT * DT_LIMIT) <= vx * dt <= VEL_LIMIT * DT_LIMIT) by (nonlinear_arith)
                requires -VEL_LIMIT <= vx <= VEL_LIMIT && 0 <= dt <= DT_LIMIT;
            assert(-(VEL_LIMIT * DT_LIMIT) <= vy * dt <= VEL_LIMIT * DT_LIMIT) by (nonlinear_arith)
                requires -VEL_LIMIT <= vy <= VEL_LIMIT && 0 <= dt <= DT_LIMIT;
        }
        let sx = scale_div(vx, dt as i64, 1000);
        let sy = scale_div(vy, dt as i64, 1000);
        self.velocity = Vector2i { x: vx, y: vy };
        self.position = Vector2i { x: self.position.x + sx, y: self.position.y + sy };
        self.life = self.life - 1;
    }

    /// Normalized age in per-mille, driving curve evaluation.
    pub fn age(&self) -> (t: u32)
        requires
            self.initial_life >= 1,
            self.life <= self.initial_life,
            self.initial_life <= LIFE_LIMIT,
        ensures
            t == spec_age(*self),
            t <= 1000,
    {
        proof {
            assert((self.life * 1000) as int <= (self.initial_life * 1000) as int) by (nonlinear_arith)
                requires self.life <= self.initial_life;
            vstd::arithmetic::div_mod::lemma_div_is_ordered(
                (self.life * 1000) as int,
                (self.initial_life * 1000) as int,
                self.initial_life as int,
            );
            assert((self.initial_life * 1000) as int == 1000 * self.initial_life as int)
                by (nonlinear_arith);
            vstd::arithmetic::div_mod::lemma_div_multiples_vanish(1000, self.initial_life as int);
            vstd::arithmetic::div_mod::lemma_div_is_ordered(
                0,
                (self.life * 1000) as int,
                self.initial_life as int,
            );
        }
        let num = (self.life as u64) * 1000;
        let q = (num / (self.initial_life as u64)) as u32;
        1000 - q
    }

    /// Current color: the color curve at the particle's normalized age.
    pub fn color(&self) -> (c: RgbaColor)
        requires
            self.initial_life >= 1,
            self.life <= self.initial_life,
            self.initial_life <= LIFE_LIMIT,
            self.colors.wf(),
        ensures
            c == spec_color_at(self.colors.xs@, self.colors.ys@, spec_age(*self)),
    {
        let t = self.age();
        self.colors.y(t)
    }

    /// Current scale: the spawn scale, multiplied by the per-mille factor of
    /// the scale curve at the particle's normalized age when one is set.
    pub fn scaled_size(&self) -> (s: Vector2i)
        requires
            self.initial_life >= 1,
            self.life <= self.initial_life,
            self.initial_life <= LIFE_LIMIT,
            -COORD_LIMIT <= self.scale.x <= COORD_LIMIT,
            -COORD_LIMIT <= self.scale.y <= COORD_LIMIT,
            self.scale_over_lifetime matches Some(c) ==> c.wf(),
        ensures
            match self.scale_over_lifetime {
                Some(c) => {
                    let f = crate::curve::spec_curve_y(c.xs@, c.ys@, spec_age(*self));
                    s.x == spec_mul_milli(self.scale.x as int, f) && s.y == spec_mul_milli(
                        self.scale.y as int,
                        f,
                    )
                },
                None => s == self.scale,
            },
    {
        match &self.scale_over_lifetime {
            Some(c) => {
                let t = self.age();
                let f = c.y(t);
                proof {
                    assert(-COORD_LIMIT * 1_000_000 <= self.scale.x * f <= COORD_LIMIT
                        * 1_000_000) by (nonlinear_arith)
                        requires
                            -COORD_LIMIT <= self.scale.x <= COORD_LIMIT,
                            -1_000_000 <= f <= 1_000_000,
                    ;
                    assert(-COORD_LIMIT * 1_000_000 <= self.scale.y * f <= COORD_LIMIT
                        * 1_000_000) by (nonlinear_arith)
                        requires
                            -COORD_LIMIT <= self.scale.y <= COORD_LIMIT,
                            -1_000_000 <= f <= 1_000_000,
                    ;
                }
                Vector2i { x: mul_milli(self.scale.x, f), y: mul_milli(self.scale.y, f) }
            },
            None => self.scale,
        }
    }
}

impl Default for Particle {
    /// A dead slot: zero lifetime, zeroed kinematics, empty curves.
    fn default() -> (p: Particle)
        ensures
            p.life == 0,
            p.initial_life == 0,
            p.position == (Vector2i { x: 0, y: 0 }),
            p.velocity == (Vector2i { x: 0, y: 0 }),
            p.colors.xs@.len() == 0,
            p.colors.ys@.len() == 0,
            p.scale == (Vector2i { x: 0, y: 0 }),
            p.scale_over_lifetime is None,
            p.damping == 0,
            p.rotation == 0,
            wf_particle(p),
    {
        Particle {
            life: 0,
            initial_life: 0,
            position: Vector2i { x: 0, y: 0 },
            velocity: Vector2i { x: 0, y: 0 },
            colors: ColorCurve { xs: Vec::new(), ys: Vec::new() },
            scale: Vector2i { x: 0, y: 0 },
            scale_over_lifetime: None,
            damping: 0,
            rotation: 0,
        }
    }
}

/// A fixed-capacity slot array with a stack of free indices. Capacity is
/// fixed at construction; exhausting the free list yields no slot rather
/// than growing.
#[derive(Debug)]
pub struct ParticlePool {
    pub particles: Vec<Particle>,
    /// Indices of dead slots available for reuse, each at most once.
    pub free: Vec<usize>,
    /// Whether the pool has been sized; an unsized pool holds no slots.
    pub init: bool,
}

impl ParticlePool {
    /// Free indices are distinct, in range, and point at dead slots; every
    /// slot satisfies the particle bounds.
    pub open spec fn wf(self) -> bool {
        &&& self.free@.no_duplicates()
        &&& forall|i: int|
            0 <= i < self.free@.len() ==> #[trigger] self.free@[i] < self.particles@.len()
                && self.particles@[self.free@[i] as int].life == 0
        &&& forall|i: int| 0 <= i < self.particles@.len() ==> wf_particle(#[trigger] self.particles@[i])
    }

    /// The number of live slots: capacity less the free count.
    pub open spec fn live_count(self) -> int {
        self.particles@.len() - self.free@.len()
    }

    /// Allocate a pool of `nb` dead slots, all free.
    pub fn of_size(nb: usize) -> (p: ParticlePool)
        ensures
            p.wf(),
            p.init,
            p.particles@.len() == nb,
            p.free@.len() == nb,
            forall|i: int| 0 <= i < nb ==> #[trigger] p.free@[i] == i,
            forall|i: int| 0 <= i < nb ==> (#[trigger] p.particles@[i]).life == 0,
    {
        let mut particles: Vec<Particle> = Vec::new();
        let mut free: Vec<usize> = Vec::new();
        let mut i: usize = 0;
        while i < nb
            invariant
                0 <= i <= nb,
                particles@.len() == i,
                free@.len() == i,
                forall|k: int| 0 <= k < i ==> #[trigger] free@[k] == k,
                forall|k: int|
                    0 <= k < i ==> (#[trigger] particles@[k]).life == 0 && wf_particle(
                        particles@[k],
                    ),
            decreases nb - i,
        {
            particles.push(Particle::default());
            free.push(i);
            i = i + 1;
        }
        proof {
            assert forall|a: int, b: int|
                0 <= a < b < free@.len() implies free@[a] != free@[b] by {
                assert(free@[a] == a && free@[b] == b);
            }
        }
        ParticlePool { particles, free, init: true }
    }

    /// Pop a free slot index, or none when the pool is exhausted — the
    /// pool's only failure mode, and a silent one by design.
    pub fn get_available(&mut self) -> (r: Option<usize>)
        requires
            old(self).wf(),
        ensures
            final(self).wf(),
            final(self).particles@ == old(self).particles@,
            final(self).init == old(self).init,
            old(self).free@.len() == 0 ==> r is None && final(self).free@ == old(self).free@,
            old(self).free@.len() > 0 ==> r == Some(old(self).free@.last() as usize)
                && final(self).free@ == old(self).free@.drop_last()
                && old(self).free@.last() < old(self).particles@.len()
                && old(self).particles@[old(self).free@.last() as int].life == 0,
    {
        let r = self.free.pop();
        r
    }

    /// True when every slot has returned to the free list.
    pub fn all_dead(&self) -> (r: bool)
        ensures
            r == (self.particles@.len() == self.free@.len()),
    {
        self.particles.len() == self.free.len()
    }
}

impl Default for ParticlePool {
    /// An unsized pool with no slots.
    fn default() -> (p: ParticlePool)
        ensures
            p.wf(),
            !p.init,
            p.particles@.len() == 0,
            p.free@.len() == 0,
    {
        ParticlePool { particles: Vec::new(), free: Vec::new(), init: false }
    }
}

/// Law: a pool of capacity C holds at most C concurrently live slots. The
/// free list's entries are distinct in-range indices, so it can never count
/// more than the capacity, and the live count is never negative.
pub proof fn lemma_pool_capacity(p: ParticlePool)
    requires
        p.wf(),
    ensures
        p.free@.len() <= p.particles@.len(),
        0 <= p.live_count() <= p.particles@.len(),
{
    broadcast use vstd::set::group_set_axioms;

    let s = p.free@.map_values(|x: usize| x as int);
    assert(s.no_duplicates()) by {
        assert forall|a: int, b: int|
            0 <= a < s.len() && 0 <= b < s.len() && a != b implies s[a] != s[b] by {
            assert(p.free@[a] != p.free@[b]);
        }
    }
    s.unique_seq_to_set();
    let n = p.particles@.len() as int;
    let range = vstd::set_lib::set_int_range(0, n);
    vstd::set_lib::lemma_int_range(0, n);
    assert(s.to_set().subset_of(range)) by {
        assert forall|x: int| s.to_set().contains(x) implies range.contains(x) by {
            let i = choose|i: int| 0 <= i < s.len() && s[i] == x;
            assert(p.free@[i] < p.particles@.len());
        }
    }
    vstd::set_lib::lemma_len_subset(s.to_set(), range);
}

/// Law: the free list never hands out one index twice before it is
/// released. Two successive acquisitions from a pool pop distinct indices:
/// the first is removed from the free list before the second is drawn.
pub proof fn lemma_acquire_twice_distinct(p: ParticlePool)
    requires
        p.wf(),
        p.free@.len() >= 2,
    ensures
        p.free@.last() != p.free@.drop_last().last(),
{
    let n = p.free@.len();
    assert(p.free@.drop_last().last() == p.free@[n - 2]);
}

/// Where spawned particles originate.
#[derive(Debug, Clone, Copy, PartialEq, Eq, Structural)]
pub enum EmitterSource {
    /// Spawn from the emitter's own position.
    Point,
    /// Spawn uniformly along the segment from `position - first` to
    /// `position + second`, both endpoints relative to the emitter.
    Line(Vector2i, Vector2i),
}

/// `x` lies between `a` and `b`, whichever order they come in.
pub open spec fn spec_between(a: int, b: int, x: int) -> bool {
    (a <= x && x <= b) || (b <= x && x <= a)
}

/// What holds of a position sampled from a source: the source point itself,
/// or some point of the configured segment.
pub open spec fn spec_source_pos_ok(src: EmitterSource, pos: Vector2i, sp: Vector2i) -> bool {
    match src {
        EmitterSource::Point => sp == pos,
        EmitterSource::Line(p1, p2) => spec_between(
            pos.x - p1.x,
            pos.x + p2.x,
            sp.x as int,
        ) && spec_between(pos.y - p1.y, pos.y + p2.y, sp.y as int),
    }
}

impl EmitterSource {
    pub open spec fn wf(self) -> bool {
        match self {
            EmitterSource::Point => true,
            EmitterSource::Line(p1, p2) => {
                &&& -COORD_LIMIT <= p1.x <= COORD_LIMIT
                &&& -COORD_LIMIT <= p1.y <= COORD_LIMIT
                &&& -COORD_LIMIT <= p2.x <= COORD_LIMIT
                &&& -COORD_LIMIT <= p2.y <= COORD_LIMIT
            },
        }
    }

    /// Sample a spawn position for an emitter standing at
    /// `emitter_position`.
    pub fn spawn_position(&self, emitter_position: &Vector2i) -> (sp: Vector2i)
        requires
            self.wf(),
            -COORD_LIMIT <= emitter_position.x <= COORD_LIMIT,
            -COORD_LIMIT <= emitter_position.y <= COORD_LIMIT,
        ensures
            spec_source_pos_ok(*self, *emitter_position, sp),
            -2 * COORD_LIMIT <= sp.x <= 2 * COORD_LIMIT,
            -2 * COORD_LIMIT <= sp.y <= 2 * COORD_LIMIT,
    {
        match self {
            EmitterSource::Point => *emitter_position,
            EmitterSource::Line(p1, p2) => {
                let ax = emitter_position.x - p1.x;
                let ay = emitter_position.y - p1.y;
                let bx = emitter_position.x + p2.x;
                let by = emitter_position.y + p2.y;
                let lambda = sample_in_range(0, 1000);
                let sx = crate::curve::lerp_fixed(ax, bx, lambda, 1000);
                let sy = crate::curve::lerp_fixed(ay, by, lambda, 1000);
                Vector2i { x: sx, y: sy }
            },
        }
    }
}

/// The initial scale of a spawned particle.
#[derive(Debug, Clone, Copy, PartialEq, Eq, Structural)]
pub enum ParticleScale {
    Constant(Vector2i),
    /// Sampled componentwise between the two bounds.
    Random(Vector2i, Vector2i),
}

impl ParticleScale {
    pub open spec fn wf(self) -> bool {
        match self {
            ParticleScale::Constant(s) => {
                &&& -COORD_LIMIT <= s.x <= COORD_LIMIT
                &&& -COORD_LIMIT <= s.y <= COORD_LIMIT
            },
            ParticleScale::Random(lo, hi) => {
                &&& lo.x <= hi.x
                &&& lo.y <= hi.y
                &&& -COORD_LIMIT <= lo.x && hi.x <= COORD_LIMIT
                &&& -COORD_LIMIT <= lo.y && hi.y <= COORD_LIMIT
            },
        }
    }
}

/// How particles are drawn; the simulation is indifferent to it.
#[derive(Debug, Clone, PartialEq)]
pub enum ParticleShape {
    Quad,
    Texture(String),
}

/// A per-entity particle emitter owning its fixed-capacity pool.
#[derive(Debug)]
pub struct ParticleEmitter {
    pub enabled: bool,
    pub particles: ParticlePool,
    pub source: EmitterSource,
    pub shape: ParticleShape,
    /// Per-mille velocity decay per frame for spawned particles.
    pub damping: u32,
    /// Speed range in milli-units per second, inclusive.
    pub velocity_range: (i64, i64),
    /// Angle range in milli-turns, inclusive.
    pub angle_range: (i64, i64),
    pub scale: ParticleScale,
    pub scale_over_lifetime: Option<Curve>,
    /// Emission rate in per-mille particles per frame.
    pub particle_number: u32,
    /// Fractional emission carried between frames, in per-mille.
    pub nb_accumulator: u32,
    /// Color over normalized age for spawned particles.
    pub colors: ColorCurve,
    /// Lifetime of spawned particles, in frames.
    pub particle_life: u32,
    /// Offset applied to every spawn position.
    pub position_offset: Vector2i,
    /// A burst emitter spawns once, then asks to be despawned when every
    /// particle has died.
    pub burst: bool,
}

/// What holds of a freshly spawned particle, as written into its slot:
/// exact where the configuration decides, a range where a sample decides.
pub open spec fn spec_fresh_ok(e: ParticleEmitter, pos: Vector2i, p: Particle) -> bool {
    &&& p.life == e.particle_life
    &&& p.initial_life == e.particle_life
    &&& match e.source {
        EmitterSource::Point => p.position.x == pos.x + e.position_offset.x && p.position.y
            == pos.y + e.position_offset.y,
        EmitterSource::Line(p1, p2) => spec_between(
            pos.x - p1.x + e.position_offset.x,
            pos.x + p2.x + e.position_offset.x,
            p.position.x as int,
        ) && spec_between(
            pos.y - p1.y + e.position_offset.y,
            pos.y + p2.y + e.position_offset.y,
            p.position.y as int,
        ),
    }
    &&& exists|speed: int, angle: int|
        {
            &&& e.velocity_range.0 <= speed <= e.velocity_range.1
            &&& e.angle_range.0 <= angle <= e.angle_range.1
            &&& p.velocity.x == spec_mul_milli(speed, spec_cos_milli(angle))
            &&& p.velocity.y == spec_mul_milli(speed, spec_sin_milli(angle))
            &&& p.rotation == angle
        }
    &&& match e.scale {
        ParticleScale::Constant(s) => p.scale == s,
        ParticleScale::Random(lo, hi) => lo.x <= p.scale.x <= hi.x && lo.y <= p.scale.y
            <= hi.y,
    }
    &&& p.damping == e.damping
    &&& p.colors.xs@ == e.colors.xs@
    &&& p.colors.ys@ == e.colors.ys@
    &&& match (p.scale_over_lifetime, e.scale_over_lifetime) {
        (Some(a), Some(b)) => a.xs@ == b.xs@ && a.ys@ == b.ys@,
        (None, None) => true,
        _ => false,
    }
}

/// The emitter's configuration fields are equal: everything but the pool,
/// the enabled flag and the accumulator.
pub open spec fn spec_same_config(a: ParticleEmitter, b: ParticleEmitter) -> bool {
    &&& a.source == b.source
    &&& a.shape == b.shape
    &&& a.damping == b.damping
    &&& a.velocity_range == b.velocity_range
    &&& a.angle_range == b.angle_range
    &&& a.scale == b.scale
    &&& a.scale_over_lifetime == b.scale_over_lifetime
    &&& a.particle_number == b.particle_number
    &&& a.colors == b.colors
    &&& a.particle_life == b.particle_life
    &&& a.position_offset == b.position_offset
    &&& a.burst == b.burst
}

/// The slot indices returned to the free list by one recycling sweep over
/// the first `k` slots: dead slots not already free, in index order.
pub open spec fn dead_free_of(particles: Seq<Particle>, free: Seq<usize>, k: int) -> Seq<usize>
    decreases k,
{
    if k <= 0 {
        Seq::empty()
    } else {
        let rest = dead_free_of(particles, free, k - 1);
        if particles[k - 1].life == 0 && !free.contains((k - 1) as usize) {
            rest.push((k - 1) as usize)
        } else {
            rest
        }
    }
}

pub proof fn lemma_dead_free_of_props(particles: Seq<Particle>, free: Seq<usize>, k: int)
    requires
        0 <= k <= particles.len(),
        k <= usize::MAX,
    ensures
        forall|e: usize|
            #[trigger] dead_free_of(particles, free, k).contains(e) ==> e < k && !free.contains(e)
                && particles[e as int].life == 0,
        dead_free_of(particles, free, k).no_duplicates(),
    decreases k,
{
    if k > 0 {
        lemma_dead_free_of_props(particles, free, k - 1);
        let rest = dead_free_of(particles, free, k - 1);
        let last = (k - 1) as usize;
        if particles[k - 1].life == 0 && !free.contains(last) {
            let s = rest.push(last);
            assert forall|e: usize|
                #[trigger] s.contains(e) implies e < k && !free.contains(e)
                    && particles[e as int].life == 0 by {
                if e != last {
                    let i = choose|i: int| 0 <= i < s.len() && #[trigger] s[i] == e;
                    assert(rest[i] == e);
                    assert(rest.contains(e));
                }
            }
            assert(!rest.contains(last));
            assert(s.no_duplicates()) by {
                assert forall|a: int, b: int|
                    0 <= a < s.len() && 0 <= b < s.len() && a != b implies s[a] != s[b] by {
                    if a < s.len() - 1 && b < s.len() - 1 {
                        assert(s[a] == rest[a] && s[b] == rest[b]);
                    } else if a == s.len() - 1 {
                        assert(s[b] == rest[b] && rest.contains(rest[b]));
                    } else {
                        assert(s[a] == rest[a] && rest.contains(rest[a]));
                    }
                }
            }
        }
    }
}

/// The emitter's pool size at initialization: enough slots to cover one
/// particle lifetime at the configured rate (rounded up), or a single
/// frame's worth for a burst emitter.
pub open spec fn spec_pool_size(e: ParticleEmitter) -> int {
    ((e.particle_number + 999) / 1000) * (if e.burst {
        1int
    } else {
        e.particle_life + 1
    })
}

/// `pool0` is the pool the emitter works on this tick: its own pool when
/// already sized, else a fresh all-free pool of the configured size.
pub open spec fn spec_init_pool_ok(e: ParticleEmitter, pool0: ParticlePool) -> bool {
    if e.particles.init {
        pool0 == e.particles
    } else {
        &&& pool0.init
        &&& pool0.wf()
        &&& pool0.particles@.len() == spec_pool_size(e)
        &&& pool0.free@.len() == pool0.particles@.len()
        &&& forall|i: int| 0 <= i < pool0.free@.len() ==> #[trigger] pool0.free@[i] == i
        &&& forall|i: int|
            0 <= i < pool0.particles@.len() ==> (#[trigger] pool0.particles@[i]).life == 0
    }
}

/// The spawn phase: `spawned` slots are popped off the free list, newest
/// first, and refilled with fresh particles; every other slot is untouched.
pub open spec fn spec_spawn_rel(
    e: ParticleEmitter,
    pool0: ParticlePool,
    pos: Vector2i,
    spawned: int,
    mid: ParticlePool,
) -> bool {
    let flen = pool0.free@.len() as int;
    &&& 0 <= spawned <= flen
    &&& mid.init == pool0.init
    &&& mid.particles@.len() == pool0.particles@.len()
    &&& mid.free@ == pool0.free@.subrange(0, flen - spawned)
    &&& forall|j: int|
        flen - spawned <= j < flen ==> spec_fresh_ok(
            e,
            pos,
            mid.particles@[#[trigger] pool0.free@[j] as int],
        )
    &&& forall|i: int|
        0 <= i < pool0.particles@.len() && !pool0.free@.subrange(flen - spawned, flen).contains(
            i as usize,
        ) ==> mid.particles@[i] == pool0.particles@[i]
}

/// The advance phase: every live slot takes one frame of kinematics, every
/// dead slot not yet free is recycled, in index order.
pub open spec fn spec_advance_rel(mid: ParticlePool, dt: u64, fin: ParticlePool) -> bool {
    let n = mid.particles@.len() as int;
    &&& fin.init == mid.init
    &&& fin.particles@.len() == n
    &&& forall|i: int|
        0 <= i < n && mid.particles@[i].life > 0 ==> fin.particles@[i] == spec_advanced(
            #[trigger] mid.particles@[i],
            dt,
        )
    &&& forall|i: int|
        0 <= i < n && (#[trigger] mid.particles@[i]).life == 0 ==> fin.particles@[i]
            == mid.particles@[i]
    &&& fin.free@ == mid.free@ + dead_free_of(mid.particles@, mid.free@, n)
}

/// How many particles one update spawns: the integer part of the advanced
/// accumulator while enabled, capped by the free slots at hand.
pub open spec fn spec_spawn_count(e: ParticleEmitter, pool0: ParticlePool) -> int {
    let want = (e.nb_accumulator + e.particle_number) as int / 1000;
    if e.enabled && want > 0 {
        if want <= pool0.free@.len() {
            want
        } else {
            pool0.free@.len() as int
        }
    } else {
        0
    }
}

/// The whole pool evolution of one `update` call: lazily size the pool,
/// spawn this tick's batch, then advance and recycle.
pub open spec fn spec_update_pools_ok(
    e: ParticleEmitter,
    pos: Vector2i,
    dt: u64,
    fin: ParticlePool,
) -> bool {
    exists|pool0: ParticlePool, mid: ParticlePool|
        #[trigger] spec_init_pool_ok(e, pool0) && spec_spawn_rel(
            e,
            pool0,
            pos,
            spec_spawn_count(e, pool0),
            mid,
        ) && #[trigger] spec_advance_rel(mid, dt, fin)
}

impl ParticleEmitter {
    /// Configuration bounds under which every update stays in range.
    pub open spec fn wf(self) -> bool {
        &&& self.particles.wf()
        &&& self.source.wf()
        &&& self.scale.wf()
        &&& self.damping <= 1000
        &&& self.velocity_range.0 <= self.velocity_range.1
        &&& -VEL_LIMIT <= self.velocity_range.0
        &&& self.velocity_range.1 <= VEL_LIMIT
        &&& 0 <= self.angle_range.0
        &&& self.angle_range.0 <= self.angle_range.1
        &&& self.angle_range.1 <= 1000
        &&& (self.scale_over_lifetime matches Some(c) ==> c.wf())
        &&& self.particle_number <= RATE_LIMIT
        &&& self.nb_accumulator < 1000
        &&& self.colors.wf()
        &&& 1 <= self.particle_life <= LIFE_LIMIT
        &&& -COORD_LIMIT <= self.position_offset.x <= COORD_LIMIT
        &&& -COORD_LIMIT <= self.position_offset.y <= COORD_LIMIT
    }

    pub fn enable(&mut self)
        ensures
            *final(self) == (ParticleEmitter { enabled: true, ..*old(self) }),
    {
        self.enabled = true;
    }

    pub fn disable(&mut self)
        ensures
            *final(self) == (ParticleEmitter { enabled: false, ..*old(self) }),
    {
        self.enabled = false;
    }

    /// Size the pool from the configuration: spawn-rate ceiling times the
    /// frames one lifetime covers, or one frame's worth in burst mode.
    pub fn init_pool(&mut self)
        requires
            old(self).wf(),
        ensures
            final(self).wf(),
            spec_same_config(*old(self), *final(self)),
            final(self).enabled == old(self).enabled,
            final(self).nb_accumulator == old(self).nb_accumulator,
            final(self).particles.init,
            spec_init_pool_ok(
                ParticleEmitter { particles: final(self).particles, ..*old(self) },
                final(self).particles,
            ),
            final(self).particles.particles@.len() == spec_pool_size(*old(self)),
            final(self).particles.free@.len() == spec_pool_size(*old(self)),
            forall|i: int|
                0 <= i < final(self).particles.free@.len()
                    ==> #[trigger] final(self).particles.free@[i] == i,
            forall|i: int|
                0 <= i < final(self).particles.particles@.len()
                    ==> (#[trigger] final(self).particles.particles@[i]).life == 0,
    {
        let frame_needed: usize = if self.burst {
            1
        } else {
            (self.particle_life as usize) + 1
        };
        let per_frame = ((self.particle_number + 999) / 1000) as usize;
        proof {
            assert(per_frame * frame_needed <= 1001 * 1_000_001) by (nonlinear_arith)
                requires 0 <= per_frame <= 1001 && 0 <= frame_needed <= 1_000_001;
            assert(per_frame * frame_needed == spec_pool_size(*self)) by (nonlinear_arith)
                requires
                    per_frame == (self.particle_number + 999) / 1000,
                    frame_needed == (if self.burst { 1int } else { self.particle_life + 1 }),
            ;
        }
        let n = per_frame * frame_needed;
        self.particles = ParticlePool::of_size(n);
    }

    /// Spawn up to `want` particles into free slots, sampling position,
    /// velocity and scale for each; stops silently when the pool runs out.
    fn spawn_batch(&mut self, position: &Vector2i, want: u32) -> (spawned: usize)
        requires
            old(self).wf(),
            -COORD_LIMIT <= position.x <= COORD_LIMIT,
            -COORD_LIMIT <= position.y <= COORD_LIMIT,
            want <= 0xffff,
        ensures
            final(self).wf(),
            spec_same_config(*old(self), *final(self)),
            final(self).enabled == old(self).enabled,
            final(self).nb_accumulator == old(self).nb_accumulator,
            spawned == if want <= old(self).particles.free@.len() {
                want as int
            } else {
                old(self).particles.free@.len() as int
            },
            spec_spawn_rel(
                *old(self),
                old(self).particles,
                *position,
                spawned as int,
                final(self).particles,
            ),
    {
        let ghost e0 = *self;
        let ghost f0 = self.particles.free@;
        let ghost flen = f0.len() as int;
        let want_n = want as usize;
        let avail = self.particles.free.len();
        let spawn_n = if want_n < avail {
            want_n
        } else {
            avail
        };
        let mut count: usize = 0;
        proof {
            assert(self.particles.free@ =~= f0.subrange(0, flen - 0));
            assert(f0.subrange(flen - 0, flen) =~= Seq::<usize>::empty());
        }
        while count < spawn_n
            invariant
                0 <= count <= spawn_n,
                spawn_n <= flen,
                e0.wf(),
                self.wf(),
                spec_same_config(e0, *self),
                self.enabled == e0.enabled,
                self.nb_accumulator == e0.nb_accumulator,
                self.particles.init == e0.particles.init,
                -COORD_LIMIT <= position.x <= COORD_LIMIT,
                -COORD_LIMIT <= position.y <= COORD_LIMIT,
                f0 == e0.particles.free@,
                flen == f0.len() as int,
                self.particles.particles@.len() == e0.particles.particles@.len(),
                self.particles.free@ == f0.subrange(0, flen - count),
                forall|j: int|
                    flen - count <= j < flen ==> spec_fresh_ok(
                        e0,
                        *position,
                        self.particles.particles@[#[trigger] f0[j] as int],
                    ),
                forall|i: int|
                    0 <= i < self.particles.particles@.len() && !f0.subrange(
                        flen - count,
                        flen,
                    ).contains(i as usize) ==> self.particles.particles@[i]
                        == e0.particles.particles@[i],
            decreases spawn_n - count,
        {
            let got = self.particles.get_available();
            match got {
                Some(idx) => {
                    let ghost popped_pre = f0.subrange(flen - count, flen);
                    let ghost popped_post = f0.subrange(flen - (count + 1), flen);
                    proof {
                        assert(idx == f0[flen - count - 1]);
                        assert(self.particles.free@ =~= f0.subrange(0, flen - (count + 1)));
                    }
                    let speed = sample_in_range(self.velocity_range.0, self.velocity_range.1);
                    let angle = sample_in_range(self.angle_range.0, self.angle_range.1);
                    let cosv = cos_milli(angle);
                    let sinv = sin_milli(angle);
                    proof {
                        assert(-(VEL_LIMIT * 1000) <= speed * cosv <= VEL_LIMIT * 1000)
                            by (nonlinear_arith)
                            requires -VEL_LIMIT <= speed <= VEL_LIMIT && -1000 <= cosv <= 1000;
                        assert(-(VEL_LIMIT * 1000) <= speed * sinv <= VEL_LIMIT * 1000)
                            by (nonlinear_arith)
                            requires -VEL_LIMIT <= speed <= VEL_LIMIT && -1000 <= sinv <= 1000;
                        lemma_mul_milli_bound(speed as int, cosv as int, VEL_LIMIT as int, 1000);
                        lemma_mul_milli_bound(speed as int, sinv as int, VEL_LIMIT as int, 1000);
                        assert((VEL_LIMIT * 1000) as int / 1000 == VEL_LIMIT as int);
                    }
                    let vx = mul_milli(speed, cosv);
                    let vy = mul_milli(speed, sinv);
                    let sp0 = self.source.spawn_position(position);
                    let px = sp0.x + self.position_offset.x;
                    let py = sp0.y + self.position_offset.y;
                    let sc = match &self.scale {
                        ParticleScale::Constant(s) => *s,
                        ParticleScale::Random(lo, hi) => {
                            let sx = sample_in_range(lo.x, hi.x);
                            let sy = sample_in_range(lo.y, hi.y);
                            Vector2i { x: sx, y: sy }
                        },
                    };
                    let sol = match &self.scale_over_lifetime {
                        Some(c) => Some(c.clone()),
                        None => None,
                    };
                    let cols = self.colors.clone();
                    let life = self.particle_life;
                    let damping = self.damping;
                    let q = &mut self.particles.particles[idx];
                    q.respawn(
                        life,
                        Vector2i { x: px, y: py },
                        Vector2i { x: vx, y: vy },
                        sc,
                        damping,
                        sol,
                        angle,
                    );
                    q.colors = cols;
                    proof {
                        let p = self.particles.particles@[idx as int];
                        assert(spec_fresh_ok(e0, *position, p)) by {
                            assert(e0.velocity_range.0 <= speed as int <= e0.velocity_range.1
                                && e0.angle_range.0 <= angle as int <= e0.angle_range.1
                                && p.velocity.x == spec_mul_milli(
                                speed as int,
                                spec_cos_milli(angle as int),
                            ) && p.velocity.y == spec_mul_milli(
                                speed as int,
                                spec_sin_milli(angle as int),
                            ) && p.rotation == angle as int);
                        }
                        assert(wf_particle(p));
                        assert(popped_post.drop_first() =~= popped_pre);
                        assert(popped_post[0] == idx);
                        assert forall|j: int|
                            flen - (count + 1) <= j < flen implies spec_fresh_ok(
                            e0,
                            *position,
                            self.particles.particles@[#[trigger] f0[j] as int],
                        ) by {
                            if j > flen - (count + 1) {
                                assert(f0[j] != idx) by {
                                    assert(f0.no_duplicates());
                                }
                            }
                        }
                        assert forall|i: int|
                            0 <= i < self.particles.particles@.len() && !popped_post.contains(
                                i as usize,
                            ) implies self.particles.particles@[i]
                            == e0.particles.particles@[i] by {
                            assert(i != idx as int) by {
                                assert(popped_post[0] == idx);
                            }
                            assert(!popped_pre.contains(i as usize)) by {
                                if popped_pre.contains(i as usize) {
                                    let j = choose|j: int|
                                        0 <= j < popped_pre.len() && #[trigger] popped_pre[j]
                                            == i as usize;
                                    assert(popped_post[j + 1] == i as usize);
                                }
                            }
                        }
                    }
                    count = count + 1;
                },
                None => {
                    proof {
                        assert(false);
                    }
                },
            }
        }
        proof {
            assert(spec_spawn_rel(e0, e0.particles, *position, spawn_n as int, self.particles));
        }
        spawn_n
    }

    /// Advance every live particle one frame and return every dead slot to
    /// the free list exactly once.
    fn advance_and_release(&mut self, dt: u64)
        requires
            old(self).wf(),
            dt <= DT_LIMIT,
        ensures
            final(self).wf(),
            spec_same_config(*old(self), *final(self)),
            final(self).enabled == old(self).enabled,
            final(self).nb_accumulator == old(self).nb_accumulator,
            spec_advance_rel(old(self).particles, dt, final(self).particles),
    {
        let ghost e0 = *self;
        let ghost p0 = self.particles.particles@;
        let ghost f0 = self.particles.free@;
        let n = self.particles.particles.len();
        let mut i: usize = 0;
        proof {
            assert(f0 + dead_free_of(p0, f0, 0) =~= f0);
        }
        while i < n
            invariant
                0 <= i <= n,
                n == p0.len(),
                n == self.particles.particles@.len(),
                e0.wf(),
                self.wf(),
                dt <= DT_LIMIT,
                p0 == e0.particles.particles@,
                f0 == e0.particles.free@,
                spec_same_config(e0, *self),
                self.enabled == e0.enabled,
                self.nb_accumulator == e0.nb_accumulator,
                self.particles.init == e0.particles.init,
                forall|j: int|
                    0 <= j < i && p0[j].life > 0 ==> self.particles.particles@[j] == spec_advanced(
                        #[trigger] p0[j],
                        dt,
                    ),
                forall|j: int|
                    0 <= j < n && (j >= i || p0[j].life == 0) ==> self.particles.particles@[j]
                        == #[trigger] p0[j],
                self.particles.free@ == f0 + dead_free_of(p0, f0, i as int),
            decreases n - i,
        {
            let ghost dfo_pre = dead_free_of(p0, f0, i as int);
            let ghost dfo_post = dead_free_of(p0, f0, i as int + 1);
            let alive_now = self.particles.particles[i].life > 0;
            if alive_now {
                let q = &mut self.particles.particles[i];
                q.update(dt);
                proof {
                    assert(self.particles.free@ == f0 + dfo_post);
                }
            } else {
                let present = contains_idx(&self.particles.free, i);
                proof {
                    lemma_dead_free_of_props(p0, f0, i as int);
                    assert(!dfo_pre.contains(i));
                    assert(present == f0.contains(i)) by {
                        if f0.contains(i) {
                            let j = choose|j: int| 0 <= j < f0.len() && #[trigger] f0[j] == i;
                            assert((f0 + dfo_pre)[j] == i);
                        }
                        if (f0 + dfo_pre).contains(i) {
                            let j = choose|j: int|
                                0 <= j < (f0 + dfo_pre).len() && #[trigger] (f0 + dfo_pre)[j] == i;
                            if j >= f0.len() {
                                assert(dfo_pre[j - f0.len()] == i);
                                assert(dfo_pre.contains(i));
                            }
                        }
                    }
                }
                if !present {
                    self.particles.free.push(i);
                    proof {
                        assert(self.particles.free@ =~= f0 + dfo_post);
                    }
                } else {
                    proof {
                        assert(self.particles.free@ =~= f0 + dfo_post);
                    }
                }
            }
            i = i + 1;
        }
        proof {
            assert(spec_advance_rel(e0.particles, dt, self.particles));
        }
    }
}

impl ParticleEmitter {
    /// One tick of the emitter at `position` over `dt` milliseconds:
    /// accumulate the fractional rate, spawn the whole part into free slots
    /// while enabled, advance every live particle, and recycle dead slots.
    /// A burst emitter disables itself after its first batch; the result is
    /// false exactly when a burst emitter's last particle has died, asking
    /// for the owning entity to be deleted.
    #[verifier::rlimit(30)]
    pub fn update(&mut self, position: &Vector2i, dt: u64) -> (still_alive: bool)
        requires
            old(self).wf(),
            -COORD_LIMIT <= position.x <= COORD_LIMIT,
            -COORD_LIMIT <= position.y <= COORD_LIMIT,
            dt <= DT_LIMIT,
        ensures
            final(self).wf(),
            spec_same_config(*old(self), *final(self)),
            final(self).nb_accumulator == (old(self).nb_accumulator
                + old(self).particle_number) as int % 1000,
            final(self).enabled == (if old(self).burst {
                false
            } else {
                old(self).enabled
            }),
            final(self).particles.init,
            spec_update_pools_ok(*old(self), *position, dt, final(self).particles),
            old(self).particles.init ==> final(self).particles.particles@.len() == old(
                self,
            ).particles.particles@.len(),
            old(self).particles.init ==> forall|i: int|
                0 <= i < old(self).particles.particles@.len() && (#[trigger] old(
                    self,
                ).particles.particles@[i]).life > 0 ==> final(self).particles.particles@[i]
                    == spec_advanced(old(self).particles.particles@[i], dt),
            still_alive == !(old(self).burst && final(self).particles.particles@.len()
                == final(self).particles.free@.len()),
    {
        let ghost e_orig = *old(self);
        if !self.particles.init {
            self.init_pool();
        }
        let ghost pool0 = self.particles;
        let cap = self.particles.particles.len();
        proof {
            assert(spec_init_pool_ok(e_orig, pool0));
            assert(pool0.particles@.len() == cap);
        }
        self.nb_accumulator = self.nb_accumulator + self.particle_number;
        let want = self.nb_accumulator / 1000;
        self.nb_accumulator = self.nb_accumulator % 1000;
        let mut spawned: usize = 0;
        if self.enabled && want > 0 {
            spawned = self.spawn_batch(position, want);
        }
        let ghost mid = self.particles;
        proof {
            if !(e_orig.enabled && want > 0) {
                assert(mid.free@ =~= pool0.free@.subrange(0, pool0.free@.len() as int));
                assert(pool0.free@.subrange(
                    pool0.free@.len() as int,
                    pool0.free@.len() as int,
                ) =~= Seq::<usize>::empty());
            }
            assert(spec_spawn_rel(e_orig, pool0, *position, spec_spawn_count(e_orig, pool0), mid));
        }
        self.advance_and_release(dt);
        proof {
            assert(spec_advance_rel(mid, dt, self.particles));
            assert(spec_update_pools_ok(e_orig, *position, dt, self.particles));
            if e_orig.particles.init {
                let flen = pool0.free@.len() as int;
                let popped = pool0.free@.subrange(flen - spawned, flen);
                assert forall|i: int|
                    0 <= i < pool0.particles@.len() && (#[trigger] pool0.particles@[i]).life > 0
                        implies self.particles.particles@[i] == spec_advanced(
                    pool0.particles@[i],
                    dt,
                ) by {
                    assert(!popped.contains(i as usize)) by {
                        if popped.contains(i as usize) {
                            let j = choose|j: int|
                                0 <= j < popped.len() && #[trigger] popped[j] == i as usize;
                            assert(pool0.free@[flen - spawned + j] == i as usize);
                            assert(pool0.particles@[pool0.free@[flen - spawned + j] as int].life
                                == 0);
                            assert(i as usize as int == i);
                        }
                    }
                    assert(mid.particles@[i] == pool0.particles@[i]);
                }
            }
        }
        let mut still_alive = true;
        if self.burst {
            self.disable();
            if self.particles.all_dead() {
                still_alive = false;
            }
        }
        still_alive
    }
}

impl Default for ParticleEmitter {
    /// An enabled point emitter: one particle per frame, ten frames of
    /// life, speeds up to ten units per second in any direction, constant
    /// five-unit scale, red, with an unsized pool.
    fn default() -> (e: ParticleEmitter)
        ensures
            e.wf(),
            e.enabled,
            !e.particles.init,
            e.particles.particles@.len() == 0,
            e.source == EmitterSource::Point,
            e.shape == ParticleShape::Quad,
            e.damping == 0,
            e.velocity_range == (0i64, 10_000i64),
            e.angle_range == (0i64, 1000i64),
            e.scale == ParticleScale::Constant(Vector2i { x: 5000, y: 5000 }),
            e.scale_over_lifetime is None,
            e.particle_number == 1000,
            e.nb_accumulator == 0,
            e.colors.xs@ == seq![0u32],
            e.colors.ys@ == seq![RgbaColor { r: 255u8, g: 0u8, b: 0u8, a: 255u8 }],
            e.particle_life == 10,
            e.position_offset == (Vector2i { x: 0, y: 0 }),
            !e.burst,
    {
        ParticleEmitter {
            enabled: true,
            particles: ParticlePool::default(),
            source: EmitterSource::Point,
            shape: ParticleShape::Quad,
            damping: 0,
            velocity_range: (0, 10_000),
            angle_range: (0, 1000),
            scale: ParticleScale::Constant(Vector2i { x: 5000, y: 5000 }),
            scale_over_lifetime: None,
            particle_number: 1000,
            nb_accumulator: 0,
            colors: ColorCurve::constant(RgbaColor::red()),
            particle_life: 10,
            position_offset: Vector2i { x: 0, y: 0 },
            burst: false,
        }
    }
}

/// The accumulator after `k` updates of an emitter with per-mille rate
/// `rate`, starting from `a0`.
pub open spec fn spec_acc_after(a0: int, rate: int, k: int) -> int
    decreases k,
{
    if k <= 0 {
        a0
    } else {
        (spec_acc_after(a0, rate, k - 1) + rate) % 1000
    }
}

/// The total whole particles the accumulator has released over `k` updates.
pub open spec fn spec_emitted_total(a0: int, rate: int, k: int) -> int
    decreases k,
{
    if k <= 0 {
        0
    } else {
        spec_emitted_total(a0, rate, k - 1) + (spec_acc_after(a0, rate, k - 1) + rate) / 1000
    }
}

/// Law: the fractional accumulator is exact. Over `k` updates at per-mille
/// rate `rate`, an enabled emitter with enough free slots releases exactly
/// `(a0 + k * rate) / 1000` whole particles: a rate of 300 yields 3
/// particles every 10 ticks, one per roughly 3⅓ ticks, with nothing lost
/// or duplicated by the carry.
pub proof fn lemma_emission_rate(a0: int, rate: int, k: int)
    requires
        0 <= a0 < 1000,
        0 <= rate,
        0 <= k,
    ensures
        spec_acc_after(a0, rate, k) == (a0 + k * rate) % 1000,
        spec_emitted_total(a0, rate, k) == (a0 + k * rate) / 1000,
    decreases k,
{
    if k == 0 {
        vstd::arithmetic::div_mod::lemma_small_mod(a0 as nat, 1000);
        vstd::arithmetic::div_mod::lemma_basic_div_specific_divisor(1000);
    } else {
        lemma_emission_rate(a0, rate, k - 1);
        let prev = a0 + (k - 1) * rate;
        assert(k * rate == (k - 1) * rate + rate) by (nonlinear_arith);
        vstd::arithmetic::div_mod::lemma_fundamental_div_mod(prev, 1000);
        vstd::arithmetic::div_mod::lemma_mod_multiples_vanish(
            prev / 1000,
            prev % 1000 + rate,
            1000,
        );
        vstd::arithmetic::div_mod::lemma_hoist_over_denominator(
            prev % 1000 + rate,
            prev / 1000,
            1000,
        );
        assert((prev % 1000 + rate) + (prev / 1000) * 1000 == prev + rate);
    }
}

/// Law: a burst emitter emits its first batch and then never again. After
/// its first update it is disabled, and a disabled emitter's spawn count is
/// zero whatever its accumulator does.
pub proof fn lemma_disabled_spawns_nothing(e: ParticleEmitter, pool: ParticlePool)
    requires
        !e.enabled,
    ensures
        spec_spawn_count(e, pool) == 0,
{
}

/// True when `x` occurs in the index list.
fn contains_idx(v: &Vec<usize>, x: usize) -> (r: bool)
    ensures
        r == v@.contains(x),
{
    let n = v.len();
    let mut i: usize = 0;
    while i < n
        invariant
            0 <= i <= n,
            n == v@.len(),
            forall|k: int| 0 <= k < i ==> v@[k] != x,
        decreases n - i,
    {
        if v[i] == x {
            return true;
        }
        i = i + 1;
    }
    false
}

} // verus!
