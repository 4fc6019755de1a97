//! The entity reaper: drains Delete events from its own cursor once per
//! tick, after every producer has run, so no system observes a
//! half-destroyed entity within the tick.
//!
//! The reaper decides; the driver despawns. `collect` returns the entity
//! bits to despawn, in publish order; the caller performs the despawns,
//! tolerating entities that are already gone (the same entity may be
//! deleted by two systems in one tick), and removes their physics bodies
//! through `CollisionWorld::remove_bodies_for_entity`.

use vstd::prelude::*;
use crate::event::{EventQueue, GameEvent};

verus! {

/// The entity handles requested for deletion by a batch of events, in
/// publish order.
pub open spec fn spec_deletes(s: Seq<GameEvent>) -> Seq<u64>
    decreases s.len(),
{
    if s.len() == 0 {
        Seq::empty()
    } else {
        let rest = spec_deletes(s.drop_last());
        match s.last() {
            GameEvent::Delete(e) => rest.push(e),
            _ => rest,
        }
    }
}

/// End-of-tick entity reaper holding its own reader cursor on the bus.
#[derive(Debug, Clone, Copy, PartialEq, Eq, Structural)]
pub struct GarbageCollector {
    pub rdr_id: usize,
}

impl GarbageCollector {
    /// Register the reaper's cursor on the bus; it will only ever observe
    /// deletions published after this point.
    pub fn new(bus: &mut EventQueue) -> (gc: GarbageCollector)
        requires
            old(bus).wf(),
            old(bus).reader_count() < usize::MAX,
        ensures
            final(bus).wf(),
            gc.rdr_id == old(bus).reader_count(),
            final(bus).cursors_view() == old(bus).cursors_view().push(
                old(bus).history().len() as u64,
            ),
            final(bus).history() == old(bus).history(),
            final(bus).deferred_view() == old(bus).deferred_view(),
            final(bus).first_retained() == old(bus).first_retained(),
    {
        let rdr_id = bus.register_reader();
        GarbageCollector { rdr_id }
    }

    /// Read every event past the reaper's cursor and return the entities
    /// whose deletion they request, in publish order; the cursor advances
    /// to the head.
    pub fn collect(&self, bus: &mut EventQueue) -> (deletes: Vec<u64>)
        requires
            old(bus).wf(),
            self.rdr_id < old(bus).reader_count(),
        ensures
            final(bus).wf(),
            deletes@ == spec_deletes(
                old(bus).history().subrange(
                    old(bus).cursor(self.rdr_id as int),
                    old(bus).history().len() as int,
                ),
            ),
            final(bus).history() == old(bus).history(),
            final(bus).cursors_view() == old(bus).cursors_view().update(
                self.rdr_id as int,
                old(bus).history().len() as u64,
            ),
            final(bus).deferred_view() == old(bus).deferred_view(),
            final(bus).first_retained() == old(bus).first_retained(),
    {
        let events = bus.read(self.rdr_id);
        let n = events.len();
        let mut deletes: Vec<u64> = Vec::new();
        let mut i: usize = 0;
        proof {
            assert(events@.subrange(0, 0) =~= Seq::<GameEvent>::empty());
        }
        while i < n
            invariant
                0 <= i <= n,
                n == events@.len(),
                deletes@ == spec_deletes(events@.subrange(0, i as int)),
            decreases n - i,
        {
            let ghost pre = events@.subrange(0, i as int);
            let ghost post = events@.subrange(0, i as int + 1);
            proof {
                assert(post.drop_last() =~= pre);
                assert(post.last() == events@[i as int]);
            }
            match events[i] {
                GameEvent::Delete(e) => {
                    deletes.push(e);
                },
                _ => {},
            }
            i = i + 1;
        }
        proof {
            assert(events@.subrange(0, n as int) =~= events@);
        }
        deletes
    }
}

} // verus!
