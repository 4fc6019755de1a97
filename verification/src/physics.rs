//! The physics integration layer: a registry of rigid bodies correlated to
//! entities, the per-tick application of engine results, contact event
//! publication into the event bus, and outward transform synchronization.
//!
//! The numeric simulation itself (broad and narrow phase, solving) is the
//! external engine's work; this layer owns the authoritative correlation
//! state: which handle belongs to which entity, each body's last known
//! translation and velocity, and the per-tick protocol `step` then
//! `synchronize`. A handle that no longer resolves to a live body makes
//! every operation a no-op, never an error: the simulation runs every tick
//! regardless.
//!
//! Policy for despawned entities: bodies do not vanish with their entity by
//! themselves. The reaper removes them explicitly through
//! `remove_bodies_for_entity`, so no orphaned body outlives its entity.

use vstd::prelude::*;
use vstd::assert_seqs_equal;
use crate::geom2::Vector2i;
use crate::event::{EventQueue, GameEvent};
use crate::transform::Transform;

verus! {

/// Bound on body translations, in milli-units.
pub const BODY_POS_LIMIT: i64 = 1_000_000_000_000_000;

/// Bound on body velocities, in milli-units per second.
pub const BODY_VEL_LIMIT: i64 = 1_000_000_000_000;

/// The kinetic class of a body.
#[derive(Debug, Clone, Copy, PartialEq, Eq, Structural)]
pub enum BodyStatus {
    Static,
    Kinematic,
    Dynamic,
}

/// A collision filter: a body's group memberships and the groups it
/// interacts with, one bit each.
#[derive(Debug, Clone, Copy, PartialEq, Eq, Structural)]
pub struct InteractionGroups {
    pub memberships: u32,
    pub filter: u32,
}

impl InteractionGroups {
    /// A filter that interacts with nothing.
    pub fn none() -> (g: InteractionGroups)
        ensures
            g == (InteractionGroups { memberships: 0u32, filter: 0u32 }),
    {
        InteractionGroups { memberships: 0, filter: 0 }
    }
}

/// The collider shape a component asks for.
#[derive(Debug, Clone, Copy, PartialEq, Eq, Structural)]
pub enum ColliderComponent {
    /// An axis-aligned box, by half-extents in milli-units.
    Aabb(i64, i64),
}

/// The entity-owned description of a rigid body. The handle cache starts
/// empty and is filled on the first physics step that sees the component.
#[derive(Debug, Clone, Copy, PartialEq, Eq, Structural)]
pub struct RigidBodyComponent {
    pub status: BodyStatus,
    pub collider: ColliderComponent,
    /// If true, the entity's transform is synchronized from the body's
    /// position each tick.
    pub should_sync: bool,
    pub sensor: bool,
    /// Cached handle into the collision world, absent until the body is
    /// first added.
    pub handle: Option<u32>,
    /// Per-mille linear damping.
    pub damping: u32,
    pub interaction_group: InteractionGroups,
}

impl RigidBodyComponent {
    pub fn new_static_cuboid(hx: i64, hy: i64) -> (c: RigidBodyComponent)
        ensures
            c == (RigidBodyComponent {
                status: BodyStatus::Static,
                collider: ColliderComponent::Aabb(hx, hy),
                should_sync: true,
                sensor: false,
                handle: None,
                damping: 0u32,
                interaction_group: InteractionGroups { memberships: 0u32, filter: 0u32 },
            }),
    {
        RigidBodyComponent {
            status: BodyStatus::Static,
            collider: ColliderComponent::Aabb(hx, hy),
            should_sync: true,
            sensor: false,
            handle: None,
            damping: 0,
            interaction_group: InteractionGroups::none(),
        }
    }

    pub fn new_kinematic_cuboid(hx: i64, hy: i64) -> (c: RigidBodyComponent)
        ensures
            c == (RigidBodyComponent {
                status: BodyStatus::Kinematic,
                collider: ColliderComponent::Aabb(hx, hy),
                should_sync: true,
                sensor: false,
                handle: None,
                damping: 0u32,
                interaction_group: InteractionGroups { memberships: 0u32, filter: 0u32 },
            }),
    {
        RigidBodyComponent {
            status: BodyStatus::Kinematic,
            collider: ColliderComponent::Aabb(hx, hy),
            should_sync: true,
            sensor: false,
            handle: None,
            damping: 0,
            interaction_group: InteractionGroups::none(),
        }
    }

    pub fn new_dynamic_cuboid(hx: i64, hy: i64) -> (c: RigidBodyComponent)
        ensures
            c == (RigidBodyComponent {
                status: BodyStatus::Dynamic,
                collider: ColliderComponent::Aabb(hx, hy),
                should_sync: true,
                sensor: false,
                handle: None,
                damping: 0u32,
                interaction_group: InteractionGroups { memberships: 0u32, filter: 0u32 },
            }),
    {
        RigidBodyComponent {
            status: BodyStatus::Dynamic,
            collider: ColliderComponent::Aabb(hx, hy),
            sensor: false,
            should_sync: true,
            handle: None,
            damping: 0,
            interaction_group: InteractionGroups::none(),
        }
    }
}

/// Global physics parameters.
#[derive(Debug, Clone, Copy, PartialEq, Eq, Structural)]
pub struct PhysicConfiguration {
    /// Vertical gravity in milli-units per second squared.
    pub gravity: i64,
}

impl Default for PhysicConfiguration {
    fn default() -> (c: PhysicConfiguration)
        ensures
            c == (PhysicConfiguration { gravity: -9810i64 }),
    {
        PhysicConfiguration { gravity: -9810 }
    }
}

/// A body slot in the collision world: the last known state of one rigid
/// body plus its collider description and entity correlation key.
#[derive(Debug, Clone, Copy, PartialEq, Eq, Structural)]
pub struct PhysicsBody {
    pub status: BodyStatus,
    pub half_extents: Vector2i,
    pub translation: Vector2i,
    pub linvel: Vector2i,
    /// Per-mille linear damping.
    pub damping: u32,
    pub sensor: bool,
    pub interaction_group: InteractionGroups,
    /// The owning entity's handle bits, stored as an opaque correlation
    /// key; 0 while unset. Never dereferenced here.
    pub user_data: u64,
}

/// One contact or proximity notification produced by an engine step,
/// carrying the two collider handles involved.
#[derive(Debug, Clone, Copy, PartialEq, Eq, Structural)]
pub enum ContactNotice {
    Proximity(u64, u64),
    Contact(u64, u64),
}

/// The bus event a notice is published as.
pub open spec fn spec_notice_event(n: ContactNotice) -> GameEvent {
    match n {
        ContactNotice::Proximity(a, b) => GameEvent::ProximityEvent(a, b),
        ContactNotice::Contact(a, b) => GameEvent::ContactEvent(a, b),
    }
}

pub open spec fn spec_notice_events(s: Seq<ContactNotice>) -> Seq<GameEvent> {
    s.map_values(|n: ContactNotice| spec_notice_event(n))
}

/// Engine body positions applied in order: each update lands on its handle
/// if it still resolves, and is dropped otherwise.
pub open spec fn spec_apply_moves(
    bodies: Seq<Option<PhysicsBody>>,
    moved: Seq<(u32, Vector2i)>,
) -> Seq<Option<PhysicsBody>>
    decreases moved.len(),
{
    if moved.len() == 0 {
        bodies
    } else {
        let prev = spec_apply_moves(bodies, moved.drop_last());
        let h = moved.last().0 as int;
        if 0 <= h < prev.len() && prev[h] is Some {
            prev.update(h, Some(PhysicsBody { translation: moved.last().1, ..prev[h]->Some_0 }))
        } else {
            prev
        }
    }
}

/// Owns the registry of rigid bodies and the physics configuration.
#[derive(Debug)]
pub struct CollisionWorld {
    pub config: PhysicConfiguration,
    /// Body slots by handle; a removed body leaves a stale slot behind.
    pub bodies: Vec<Option<PhysicsBody>>,
}

impl CollisionWorld {
    /// The body a handle resolves to, if it is still live.
    pub open spec fn body_at(self, h: int) -> Option<PhysicsBody> {
        if 0 <= h < self.bodies@.len() {
            self.bodies@[h]
        } else {
            None
        }
    }

    /// Every live body's state is within the world bounds.
    pub open spec fn wf(self) -> bool {
        forall|i: int|
            0 <= i < self.bodies@.len() ==> (#[trigger] self.bodies@[i] matches Some(b) ==> {
                &&& -BODY_POS_LIMIT <= b.translation.x <= BODY_POS_LIMIT
                &&& -BODY_POS_LIMIT <= b.translation.y <= BODY_POS_LIMIT
                &&& -BODY_VEL_LIMIT <= b.linvel.x <= BODY_VEL_LIMIT
                &&& -BODY_VEL_LIMIT <= b.linvel.y <= BODY_VEL_LIMIT
            })
    }

    pub fn new(config: PhysicConfiguration) -> (w: CollisionWorld)
        ensures
            w.wf(),
            w.config == config,
            w.bodies@.len() == 0,
    {
        CollisionWorld { config, bodies: Vec::new() }
    }

    pub fn gravity(&self) -> (g: i64)
        ensures
            g == self.config.gravity,
    {
        self.config.gravity
    }

    /// Add a body for a component, idempotently: a component that already
    /// caches a handle gets it back unchanged and nothing is created.
    pub fn add_body(&mut self, translation: &Vector2i, c: &mut RigidBodyComponent) -> (h: u32)
        requires
            old(self).wf(),
            old(self).bodies@.len() < u32::MAX,
            -BODY_POS_LIMIT <= translation.x <= BODY_POS_LIMIT,
            -BODY_POS_LIMIT <= translation.y <= BODY_POS_LIMIT,
        ensures
            final(self).wf(),
            final(self).config == old(self).config,
            match old(c).handle {
                Some(h0) => h == h0 && final(self).bodies@ == old(self).bodies@ && *final(c)
                    == *old(c),
                None => {
                    &&& h == old(self).bodies@.len()
                    &&& final(self).bodies@ == old(self).bodies@.push(
                        Some(spec_new_body(*old(c), *translation, 0)),
                    )
                    &&& *final(c) == (RigidBodyComponent { handle: Some(h), ..*old(c) })
                },
            },
    {
        match c.handle {
            Some(h) => h,
            None => {
                let h = self.bodies.len() as u32;
                let body = build_body(c, translation, 0);
                self.bodies.push(Some(body));
                c.handle = Some(h);
                h
            },
        }
    }

    /// As `add_body`, additionally stamping the entity's handle bits onto
    /// the body's correlation slot when the handle resolves.
    pub fn add_body_with_entity(
        &mut self,
        translation: &Vector2i,
        c: &mut RigidBodyComponent,
        entity_bits: u64,
    ) -> (h: u32)
        requires
            old(self).wf(),
            old(self).bodies@.len() < u32::MAX,
            -BODY_POS_LIMIT <= translation.x <= BODY_POS_LIMIT,
            -BODY_POS_LIMIT <= translation.y <= BODY_POS_LIMIT,
        ensures
            final(self).wf(),
            final(self).config == old(self).config,
            match old(c).handle {
                Some(h0) => {
                    &&& h == h0
                    &&& *final(c) == *old(c)
                    &&& match old(self).body_at(h0 as int) {
                        Some(b) => final(self).bodies@ == old(self).bodies@.update(
                            h0 as int,
                            Some(PhysicsBody { user_data: entity_bits, ..b }),
                        ),
                        None => final(self).bodies@ == old(self).bodies@,
                    }
                },
                None => {
                    &&& h == old(self).bodies@.len()
                    &&& final(self).bodies@ == old(self).bodies@.push(
                        Some(spec_new_body(*old(c), *translation, entity_bits)),
                    )
                    &&& *final(c) == (RigidBodyComponent { handle: Some(h), ..*old(c) })
                },
            },
    {
        let ghost w0 = *self;
        let h = self.add_body(translation, c);
        let hu = h as usize;
        if hu < self.bodies.len() {
            let slot = &mut self.bodies[hu];
            match slot {
                Some(b) => {
                    b.user_data = entity_bits;
                },
                None => {},
            }
        }
        proof {
            if old(c).handle is None {
                assert_seqs_equal!(
                    self.bodies@ == w0.bodies@.push(
                        Some(spec_new_body(*old(c), *translation, entity_bits))
                    )
                );
            } else {
                if old(self).body_at(h as int) is None {
                    assert(self.bodies@ =~= old(self).bodies@);
                }
            }
        }
        h
    }

    /// Apply one engine step's results: record the bodies' new positions,
    /// then publish the step's contact notices as one batch of events, in
    /// order, after the whole step — readers see a consistent per-tick
    /// batch, never a half-applied step.
    pub fn step(
        &mut self,
        bus: &mut EventQueue,
        moved: &Vec<(u32, Vector2i)>,
        notices: &Vec<ContactNotice>,
    )
        requires
            old(self).wf(),
            old(bus).wf(),
            old(bus).history().len() + notices@.len() <= u64::MAX,
            forall|i: int|
                0 <= i < moved@.len() ==> {
                    &&& -BODY_POS_LIMIT <= (#[trigger] moved@[i]).1.x <= BODY_POS_LIMIT
                    &&& -BODY_POS_LIMIT <= moved@[i].1.y <= BODY_POS_LIMIT
                },
        ensures
            final(self).wf(),
            final(self).config == old(self).config,
            final(self).bodies@ == spec_apply_moves(old(self).bodies@, moved@),
            final(bus).wf(),
            final(bus).history() == old(bus).history() + spec_notice_events(notices@),
            final(bus).cursors_view() == old(bus).cursors_view(),
            final(bus).deferred_view() == old(bus).deferred_view(),
            final(bus).first_retained() == if old(bus).reader_count() == 0 {
                final(bus).history().len() as int
            } else {
                old(bus).first_retained()
            },
    {
        let ghost b0 = self.bodies@;
        let n = moved.len();
        let mut i: usize = 0;
        proof {
            assert(moved@.subrange(0, 0) =~= Seq::<(u32, Vector2i)>::empty());
        }
        while i < n
            invariant
                0 <= i <= n,
                n == moved@.len(),
                self.wf(),
                self.config == old(self).config,
                self.bodies@ == spec_apply_moves(b0, moved@.subrange(0, i as int)),
                forall|k: int|
                    0 <= k < moved@.len() ==> {
                        &&& -BODY_POS_LIMIT <= (#[trigger] moved@[k]).1.x <= BODY_POS_LIMIT
                        &&& -BODY_POS_LIMIT <= moved@[k].1.y <= BODY_POS_LIMIT
                    },
            decreases n - i,
        {
            let ghost pre = moved@.subrange(0, i as int);
            let ghost post = moved@.subrange(0, i as int + 1);
            proof {
                assert(post.drop_last() =~= pre);
                assert(post.last() == moved@[i as int]);
            }
            let (h, p) = moved[i];
            let hu = h as usize;
            if hu < self.bodies.len() {
                let slot = &mut self.bodies[hu];
                match slot {
                    Some(b) => {
                        b.translation = p;
                    },
                    None => {},
                }
            }
            i = i + 1;
        }
        proof {
            assert(moved@.subrange(0, n as int) =~= moved@);
        }
        let m = notices.len();
        let mut events: Vec<GameEvent> = Vec::new();
        let mut j: usize = 0;
        while j < m
            invariant
                0 <= j <= m,
                m == notices@.len(),
                events@ == spec_notice_events(notices@.subrange(0, j as int)),
            decreases m - j,
        {
            let ev = match notices[j] {
                ContactNotice::Proximity(a, b) => GameEvent::ProximityEvent(a, b),
                ContactNotice::Contact(a, b) => GameEvent::ContactEvent(a, b),
            };
            events.push(ev);
            proof {
                assert_seqs_equal!(
                    spec_notice_events(notices@.subrange(0, j as int + 1)) == events@
                );
            }
            j = j + 1;
        }
        proof {
            assert(notices@.subrange(0, m as int) =~= notices@);
        }
        bus.drain_vec_write(&mut events);
    }

    /// Direct velocity impulse on a body (unit mass): a handle that no
    /// longer resolves makes this a no-op. The resulting velocity is
    /// clamped to the world's velocity bound.
    pub fn apply_impulse(&mut self, h: u32, impulse: Vector2i)
        requires
            old(self).wf(),
            -BODY_VEL_LIMIT <= impulse.x <= BODY_VEL_LIMIT,
            -BODY_VEL_LIMIT <= impulse.y <= BODY_VEL_LIMIT,
        ensures
            final(self).wf(),
            final(self).config == old(self).config,
            match old(self).body_at(h as int) {
                Some(b) => final(self).bodies@ == old(self).bodies@.update(
                    h as int,
                    Some(PhysicsBody {
                        linvel: Vector2i {
                            x: spec_clamp(
                                b.linvel.x + impulse.x,
                                -BODY_VEL_LIMIT as int,
                                BODY_VEL_LIMIT as int,
                            ) as i64,
                            y: spec_clamp(
                                b.linvel.y + impulse.y,
                                -BODY_VEL_LIMIT as int,
                                BODY_VEL_LIMIT as int,
                            ) as i64,
                        },
                        ..b
                    }),
                ),
                None => final(self).bodies@ == old(self).bodies@,
            },
    {
        let hu = h as usize;
        if hu < self.bodies.len() {
            let slot = &mut self.bodies[hu];
            match slot {
                Some(b) => {
                    b.linvel = Vector2i {
                        x: clamp(b.linvel.x + impulse.x, -BODY_VEL_LIMIT, BODY_VEL_LIMIT),
                        y: clamp(b.linvel.y + impulse.y, -BODY_VEL_LIMIT, BODY_VEL_LIMIT),
                    };
                },
                None => {},
            }
        }
        proof {
            if old(self).body_at(h as int) is None {
                assert(self.bodies@ =~= old(self).bodies@);
            }
        }
    }

    /// Set a body's velocity; a stale handle makes this a no-op.
    pub fn set_velocity(&mut self, h: u32, velocity: Vector2i)
        requires
            old(self).wf(),
            -BODY_VEL_LIMIT <= velocity.x <= BODY_VEL_LIMIT,
            -BODY_VEL_LIMIT <= velocity.y <= BODY_VEL_LIMIT,
        ensures
            final(self).wf(),
            final(self).config == old(self).config,
            match old(self).body_at(h as int) {
                Some(b) => final(self).bodies@ == old(self).bodies@.update(
                    h as int,
                    Some(PhysicsBody { linvel: velocity, ..b }),
                ),
                None => final(self).bodies@ == old(self).bodies@,
            },
    {
        let hu = h as usize;
        if hu < self.bodies.len() {
            let slot = &mut self.bodies[hu];
            match slot {
                Some(b) => {
                    b.linvel = velocity;
                },
                None => {},
            }
        }
        proof {
            if old(self).body_at(h as int) is None {
                assert(self.bodies@ =~= old(self).bodies@);
            }
        }
    }

    /// Teleport a body; a stale handle makes this a no-op.
    pub fn set_position(&mut self, h: u32, position: &Vector2i)
        requires
            old(self).wf(),
            -BODY_POS_LIMIT <= position.x <= BODY_POS_LIMIT,
            -BODY_POS_LIMIT <= position.y <= BODY_POS_LIMIT,
        ensures
            final(self).wf(),
            final(self).config == old(self).config,
            match old(self).body_at(h as int) {
                Some(b) => final(self).bodies@ == old(self).bodies@.update(
                    h as int,
                    Some(PhysicsBody { translation: *position, ..b }),
                ),
                None => final(self).bodies@ == old(self).bodies@,
            },
    {
        let hu = h as usize;
        if hu < self.bodies.len() {
            let slot = &mut self.bodies[hu];
            match slot {
                Some(b) => {
                    b.translation = *position;
                },
                None => {},
            }
        }
        proof {
            if old(self).body_at(h as int) is None {
                assert(self.bodies@ =~= old(self).bodies@);
            }
        }
    }

    /// Remove every body whose correlation key is this entity's bits. The
    /// reaper calls this when it despawns the entity, so no orphaned body
    /// with a dangling correlation key survives.
    pub fn remove_bodies_for_entity(&mut self, entity_bits: u64)
        requires
            old(self).wf(),
        ensures
            final(self).wf(),
            final(self).config == old(self).config,
            final(self).bodies@.len() == old(self).bodies@.len(),
            forall|i: int|
                0 <= i < old(self).bodies@.len() ==> final(self).bodies@[i] == (
                match old(self).bodies@[i] {
                    Some(b) => if b.user_data == entity_bits {
                        None::<PhysicsBody>
                    } else {
                        #[trigger] old(self).bodies@[i]
                    },
                    None => None::<PhysicsBody>,
                }),
    {
        let n = self.bodies.len();
        let mut i: usize = 0;
        while i < n
            invariant
                0 <= i <= n,
                n == self.bodies@.len(),
                n == old(self).bodies@.len(),
                self.wf(),
                self.config == old(self).config,
                forall|k: int|
                    0 <= k < i ==> self.bodies@[k] == (match old(self).bodies@[k] {
                        Some(b) => if b.user_data == entity_bits {
                            None::<PhysicsBody>
                        } else {
                            #[trigger] old(self).bodies@[k]
                        },
                        None => None::<PhysicsBody>,
                    }),
                forall|k: int| i <= k < n ==> self.bodies@[k] == #[trigger] old(self).bodies@[k],
            decreases n - i,
        {
            let clear = match &self.bodies[i] {
                Some(b) => b.user_data == entity_bits,
                None => false,
            };
            if clear {
                self.bodies[i] = None;
            }
            i = i + 1;
        }
    }

    /// Copy a body's translation into an entity's transform, exactly when
    /// the component asks to be synchronized and its cached handle still
    /// resolves; in every other case the transform is untouched.
    pub fn sync_transform(&self, rbc: &RigidBodyComponent, t: &mut Transform)
        ensures
            *final(t) == spec_synced(*self, *rbc, *old(t)),
    {
        if rbc.should_sync {
            match rbc.handle {
                Some(h) => {
                    let hu = h as usize;
                    if hu < self.bodies.len() {
                        match &self.bodies[hu] {
                            Some(b) => {
                                t.translation = b.translation;
                            },
                            None => {},
                        }
                    }
                },
                None => {},
            }
        }
    }

    /// The body registry, read-only; collider data lives on each slot.
    pub fn colliders(&self) -> (r: &Vec<Option<PhysicsBody>>)
        ensures
            r@ == self.bodies@,
    {
        &self.bodies
    }

    /// The body registry, read-only.
    pub fn rigid_bodies(&self) -> (r: &Vec<Option<PhysicsBody>>)
        ensures
            r@ == self.bodies@,
    {
        &self.bodies
    }

    /// Mutable access to the body registry. A caller that edits slots
    /// directly must keep the bodies within the world bounds to use the
    /// world's other operations afterwards.
    pub fn rigid_bodies_mut(&mut self) -> (r: &mut Vec<Option<PhysicsBody>>)
        ensures
            *r == old(self).bodies,
            final(self).bodies == *final(r),
            final(self).config == old(self).config,
    {
        &mut self.bodies
    }
}

impl Default for CollisionWorld {
    fn default() -> (w: CollisionWorld)
        ensures
            w.wf(),
            w.config == (PhysicConfiguration { gravity: -9810i64 }),
            w.bodies@.len() == 0,
    {
        CollisionWorld { config: PhysicConfiguration::default(), bodies: Vec::new() }
    }
}

/// The body a component describes, at a spawn translation, with an entity
/// correlation key.
pub open spec fn spec_new_body(
    c: RigidBodyComponent,
    translation: Vector2i,
    user_data: u64,
) -> PhysicsBody {
    PhysicsBody {
        status: c.status,
        half_extents: match c.collider {
            ColliderComponent::Aabb(hx, hy) => Vector2i { x: hx, y: hy },
        },
        translation,
        linvel: Vector2i { x: 0, y: 0 },
        damping: c.damping,
        sensor: c.sensor,
        interaction_group: c.interaction_group,
        user_data,
    }
}

fn build_body(c: &RigidBodyComponent, translation: &Vector2i, user_data: u64) -> (b: PhysicsBody)
    ensures
        b == spec_new_body(*c, *translation, user_data),
{
    let ColliderComponent::Aabb(hx, hy) = c.collider;
    PhysicsBody {
        status: c.status,
        half_extents: Vector2i { x: hx, y: hy },
        translation: *translation,
        linvel: Vector2i { x: 0, y: 0 },
        damping: c.damping,
        sensor: c.sensor,
        interaction_group: c.interaction_group,
        user_data,
    }
}

/// What `sync_transform` leaves in the transform.
pub open spec fn spec_synced(w: CollisionWorld, rbc: RigidBodyComponent, t: Transform) -> Transform {
    if rbc.should_sync {
        match rbc.handle {
            Some(h) => match w.body_at(h as int) {
                Some(b) => Transform { translation: b.translation, ..t },
                None => t,
            },
            None => t,
        }
    } else {
        t
    }
}

pub open spec fn spec_clamp(v: int, lo: int, hi: int) -> int {
    if v < lo {
        lo
    } else if v > hi {
        hi
    } else {
        v
    }
}

fn clamp(v: i64, lo: i64, hi: i64) -> (r: i64)
    ensures
        r == spec_clamp(v as int, lo as int, hi as int),
{
    if v < lo {
        lo
    } else if v > hi {
        hi
    } else {
        v
    }
}

} // verus!
