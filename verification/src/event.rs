//! The simulation's broadcast log: a single-writer, multi-reader ordered
//! event stream with per-reader cursors, bounded retention, and a staging
//! area for deferred events promoted by countdown.
//!
//! Every event ever published has a sequence number: its index in the
//! abstract `history` of the bus. The bus retains the suffix of the history
//! that some registered reader may still need; `prune` drops entries below
//! the minimum cursor. A bus with no registered readers retains nothing:
//! publishing to it appends to the history but keeps the log empty, so such
//! a bus never grows from publishes alone.

use vstd::prelude::*;
use vstd::assert_seqs_equal;
use crate::timer::{Timer, spec_ticked};

verus! {

/// An event broadcast on the bus. Entities and collider handles travel as
/// their bit representation; sounds and music tracks as numeric ids.
#[derive(Debug, Clone, Copy, PartialEq, Eq, Structural)]
pub enum GameEvent {
    /// Request that the referenced entity be despawned at end of tick.
    Delete(u64),
    /// Play the background music with this track id.
    PlayBackgroundMusic(u32),
    /// Play the sound effect with this id.
    PlaySound(u32),
    /// Two colliders began or continue to intersect (sensor contact).
    ProximityEvent(u64, u64),
    /// Two colliders touched (solid contact).
    ContactEvent(u64, u64),
    /// Game-specific payload.
    Custom(u64),
}

/// An event staged with a countdown; promoted into the log once the
/// countdown's accumulated time reaches its duration.
#[derive(Debug, Clone, Copy, PartialEq, Eq, Structural)]
pub struct DeferredEvent {
    pub event: GameEvent,
    pub timer: Timer,
}

/// True when one call of `update_deferred` with elapsed time `dt` promotes
/// this staged entry: its accumulated time reaches its duration.
pub open spec fn promotes(d: DeferredEvent, dt: u64) -> bool {
    d.timer.elapsed_ms + dt >= d.timer.duration_ms
}

/// The events promoted out of a staging list by one `update_deferred(dt)`,
/// in staging order.
pub open spec fn spec_promoted(s: Seq<DeferredEvent>, dt: u64) -> Seq<GameEvent>
    decreases s.len(),
{
    if s.len() == 0 {
        Seq::empty()
    } else {
        let rest = spec_promoted(s.drop_last(), dt);
        if promotes(s.last(), dt) {
            rest.push(s.last().event)
        } else {
            rest
        }
    }
}

/// The staging list after one `update_deferred(dt)`: unpromoted entries, in
/// order, each with its countdown advanced by `dt`.
pub open spec fn spec_kept(s: Seq<DeferredEvent>, dt: u64) -> Seq<DeferredEvent>
    decreases s.len(),
{
    if s.len() == 0 {
        Seq::empty()
    } else {
        let rest = spec_kept(s.drop_last(), dt);
        if promotes(s.last(), dt) {
            rest
        } else {
            rest.push(
                DeferredEvent {
                    event: s.last().event,
                    timer: Timer {
                        duration_ms: s.last().timer.duration_ms,
                        elapsed_ms: (s.last().timer.elapsed_ms + dt) as u64,
                    },
                },
            )
        }
    }
}

/// The least cursor in a non-empty cursor list.
pub open spec fn seq_min(s: Seq<u64>) -> u64
    recommends
        s.len() > 0,
    decreases s.len(),
{
    if s.len() <= 1 {
        s[0]
    } else {
        let m = seq_min(s.drop_last());
        if s.last() < m {
            s.last()
        } else {
            m
        }
    }
}

pub proof fn lemma_seq_min_le(s: Seq<u64>, i: int)
    requires
        0 <= i < s.len(),
    ensures
        seq_min(s) <= s[i],
    decreases s.len(),
{
    if s.len() > 1 {
        if i < s.len() - 1 {
            lemma_seq_min_le(s.drop_last(), i);
        }
    }
}

pub proof fn lemma_seq_min_is_element(s: Seq<u64>)
    requires
        s.len() > 0,
    ensures
        exists|i: int| 0 <= i < s.len() && s[i] == seq_min(s),
    decreases s.len(),
{
    if s.len() <= 1 {
        assert(s[0] == seq_min(s));
    } else {
        if s.last() < seq_min(s.drop_last()) {
            assert(s[s.len() - 1] == seq_min(s));
        } else {
            lemma_seq_min_is_element(s.drop_last());
            let i = choose|i: int| 0 <= i < s.drop_last().len() && s.drop_last()[i] == seq_min(
                s.drop_last(),
            );
            assert(s[i] == seq_min(s));
        }
    }
}

/// Ordered broadcast log with per-reader cursors and deferred staging.
///
/// `hist` is the ghost record of every event ever published, in publish
/// order; the sequence number of an event is its index there. `log` holds
/// the retained suffix `hist[base..]`. `cursors[r]` is the sequence number
/// of the next event reader `r` has not yet observed.
pub struct EventQueue {
    pub log: Vec<GameEvent>,
    pub base: u64,
    pub cursors: Vec<u64>,
    pub deferred: Vec<DeferredEvent>,
    pub hist: Ghost<Seq<GameEvent>>,
}

impl EventQueue {
    /// Every event ever published on this bus, in publish order.
    pub open spec fn history(self) -> Seq<GameEvent> {
        self.hist@
    }

    /// The retained tail of the history.
    pub open spec fn retained(self) -> Seq<GameEvent> {
        self.log@
    }

    /// Sequence number of the first retained entry.
    pub open spec fn first_retained(self) -> int {
        self.base as int
    }

    pub open spec fn reader_count(self) -> int {
        self.cursors@.len() as int
    }

    pub open spec fn cursors_view(self) -> Seq<u64> {
        self.cursors@
    }

    /// Sequence number of the next event reader `id` has not observed.
    pub open spec fn cursor(self, id: int) -> int {
        self.cursors@[id] as int
    }

    pub open spec fn deferred_view(self) -> Seq<DeferredEvent> {
        self.deferred@
    }

    /// Retention policy floor: entries below this sequence number may be
    /// dropped. It is the minimum cursor over registered readers, or the
    /// whole history when no reader is registered.
    pub open spec fn prune_floor(self) -> int {
        if self.cursors@.len() == 0 {
            self.hist@.len() as int
        } else {
            seq_min(self.cursors@) as int
        }
    }

    pub open spec fn wf(self) -> bool {
        &&& self.hist@.len() == self.base + self.log@.len()
        &&& self.hist@.len() <= u64::MAX
        &&& (forall|i: int|
            0 <= i < self.log@.len() ==> self.log@[i] == self.hist@[self.base + i])
        &&& (forall|r: int|
            0 <= r < self.cursors@.len() ==> self.base <= #[trigger] self.cursors@[r]
                && self.cursors@[r] <= self.hist@.len())
        &&& (self.cursors@.len() == 0 ==> self.log@.len() == 0)
        &&& (forall|i: int|
            0 <= i < self.deferred@.len() ==> (#[trigger] self.deferred@[i]).timer.wf())
    }

    pub fn new() -> (r: EventQueue)
        ensures
            r.wf(),
            r.history() == Seq::<GameEvent>::empty(),
            r.reader_count() == 0,
            r.deferred_view() == Seq::<DeferredEvent>::empty(),
            r.first_retained() == 0,
    {
        EventQueue {
            log: Vec::new(),
            base: 0,
            cursors: Vec::new(),
            deferred: Vec::new(),
            hist: Ghost(Seq::empty()),
        }
    }

    /// Append one event to the log at the next sequence number. With no
    /// registered readers the event is recorded in the history but not
    /// retained, so an unread bus does not grow.
    pub fn single_write(&mut self, event: GameEvent)
        requires
            old(self).wf(),
            old(self).history().len() < u64::MAX,
        ensures
            final(self).wf(),
            final(self).history() == old(self).history().push(event),
            final(self).cursors_view() == old(self).cursors_view(),
            final(self).deferred_view() == old(self).deferred_view(),
            final(self).first_retained() == if old(self).reader_count() == 0 {
                final(self).history().len() as int
            } else {
                old(self).first_retained()
            },
    {
        let ghost h0 = self.hist@;
        if self.cursors.len() == 0 {
            self.base = self.base + 1;
        } else {
            self.log.push(event);
        }
        self.hist = Ghost(h0.push(event));
    }

    /// Append a batch of events in order, draining the given vector.
    pub fn drain_vec_write(&mut self, events: &mut Vec<GameEvent>)
        requires
            old(self).wf(),
            old(self).history().len() + old(events)@.len() <= u64::MAX,
        ensures
            final(self).wf(),
            final(self).history() == old(self).history() + old(events)@,
            final(events)@.len() == 0,
            final(self).cursors_view() == old(self).cursors_view(),
            final(self).deferred_view() == old(self).deferred_view(),
            final(self).first_retained() == if old(self).reader_count() == 0 {
                final(self).history().len() as int
            } else {
                old(self).first_retained()
            },
    {
        let ghost h0 = self.hist@;
        let ghost c0 = self.cursors@;
        let ghost d0 = self.deferred@;
        let ghost b0 = self.base;
        let n = events.len();
        let mut i: usize = 0;
        while i < n
            invariant
                0 <= i <= n,
                n == events@.len(),
                self.wf(),
                self.history() == h0 + events@.subrange(0, i as int),
                self.cursors_view() == c0,
                self.deferred_view() == d0,
                h0.len() + n <= u64::MAX,
                self.first_retained() == if c0.len() == 0 {
                    self.history().len() as int
                } else {
                    b0 as int
                },
            decreases n - i,
        {
            let ev = events[i];
            self.single_write(ev);
            proof {
                assert_seqs_equal!(
                    h0 + events@.subrange(0, i as int + 1)
                        == (h0 + events@.subrange(0, i as int)).push(events@[i as int])
                );
            }
            i = i + 1;
        }
        proof {
            assert_seqs_equal!(events@.subrange(0, n as int) == events@);
        }
        events.clear();
    }

    /// Allocate a new reader cursor, positioned at the current head: a new
    /// reader observes only events published after its registration.
    pub fn register_reader(&mut self) -> (id: usize)
        requires
            old(self).wf(),
            old(self).reader_count() < usize::MAX,
        ensures
            final(self).wf(),
            id == old(self).reader_count(),
            final(self).cursors_view() == old(self).cursors_view().push(
                old(self).history().len() as u64,
            ),
            final(self).cursor(id as int) == old(self).history().len(),
            final(self).history() == old(self).history(),
            final(self).deferred_view() == old(self).deferred_view(),
            final(self).first_retained() == old(self).first_retained(),
    {
        let head = self.base + self.log.len() as u64;
        let id = self.cursors.len();
        self.cursors.push(head);
        id
    }

    /// Return, in publish order, every event at or past this reader's
    /// cursor, and advance the cursor to the head. Consuming the result is
    /// irreversible: a second read returns only what was published since.
    pub fn read(&mut self, reader_id: usize) -> (events: Vec<GameEvent>)
        requires
            old(self).wf(),
            reader_id < old(self).reader_count(),
        ensures
            final(self).wf(),
            events@ == old(self).history().subrange(
                old(self).cursor(reader_id as int),
                old(self).history().len() as int,
            ),
            final(self).history() == old(self).history(),
            final(self).cursors_view() == old(self).cursors_view().update(
                reader_id as int,
                old(self).history().len() as u64,
            ),
            final(self).deferred_view() == old(self).deferred_view(),
            final(self).first_retained() == old(self).first_retained(),
    {
        let c = self.cursors[reader_id];
        let start = (c - self.base) as usize;
        let n = self.log.len();
        let mut events: Vec<GameEvent> = Vec::new();
        let mut i: usize = start;
        while i < n
            invariant
                start <= i <= n,
                n == self.log@.len(),
                self.wf(),
                start == c - self.base,
                self.base <= c <= self.base + n,
                events@.len() == i - start,
                forall|k: int|
                    0 <= k < events@.len() ==> events@[k] == self.log@[start + k],
            decreases n - i,
        {
            let ev = self.log[i];
            events.push(ev);
            i = i + 1;
        }
        let head = self.base + self.log.len() as u64;
        self.cursors[reader_id] = head;
        proof {
            assert_seqs_equal!(
                events@ == self.hist@.subrange(c as int, self.hist@.len() as int),
                k => {
                    assert(events@[k] == self.log@[c - self.base + k]);
                    assert(self.log@[c - self.base + k]
                        == self.hist@[self.base + (c - self.base + k)]);
                }
            );
        }
        events
    }

    /// Drop retained entries that every registered reader has passed:
    /// everything below the minimum cursor, or everything if no reader is
    /// registered. No reader's unobserved events are dropped.
    pub fn prune(&mut self)
        requires
            old(self).wf(),
        ensures
            final(self).wf(),
            final(self).history() == old(self).history(),
            final(self).cursors_view() == old(self).cursors_view(),
            final(self).deferred_view() == old(self).deferred_view(),
            final(self).first_retained() == old(self).prune_floor(),
            final(self).retained() == old(self).history().subrange(
                old(self).prune_floor(),
                old(self).history().len() as int,
            ),
            forall|r: int|
                0 <= r < final(self).reader_count() ==> final(self).first_retained()
                    <= final(self).cursor(r),
    {
        if self.cursors.len() == 0 {
            let n = self.log.len() as u64;
            self.base = self.base + n;
            self.log.clear();
            proof {
                assert_seqs_equal!(
                    self.log@ == self.hist@.subrange(
                        self.hist@.len() as int, self.hist@.len() as int)
                );
            }
        } else {
            let k = self.cursors.len();
            let mut m = self.cursors[0];
            let mut i: usize = 1;
            proof {
                assert_seqs_equal!(self.cursors@.subrange(0, 1) == seq![self.cursors@[0]]);
            }
            while i < k
                invariant
                    1 <= i <= k,
                    k == self.cursors@.len(),
                    m == seq_min(self.cursors@.subrange(0, i as int)),
                decreases k - i,
            {
                let ghost pre = self.cursors@.subrange(0, i as int);
                let ghost post = self.cursors@.subrange(0, i as int + 1);
                proof {
                    assert_seqs_equal!(post.drop_last() == pre);
                    assert(post.last() == self.cursors@[i as int]);
                }
                let ci = self.cursors[i];
                if ci < m {
                    m = ci;
                }
                i = i + 1;
            }
            proof {
                assert_seqs_equal!(self.cursors@.subrange(0, k as int) == self.cursors@);
                lemma_seq_min_is_element(self.cursors@);
                let j = choose|j: int|
                    0 <= j < self.cursors@.len() && self.cursors@[j] == seq_min(self.cursors@);
                assert(self.base <= self.cursors@[j] && self.cursors@[j] <= self.hist@.len());
            }
            let ghost b0 = self.base;
            let ghost log0 = self.log@;
            let len0 = self.log.len();
            proof {
                assert(b0 <= m);
                assert(m - b0 <= len0);
            }
            let off = (m - self.base) as usize;
            let tail = self.log.split_off(off);
            self.log = tail;
            self.base = m;
            proof {
                assert(off == m - b0);
                assert(self.log@.len() == log0.len() - off);
                assert forall|q: int|
                    0 <= q < self.log@.len() implies self.log@[q] == self.hist@[m + q] by {
                    assert(self.log@[q] == log0[off + q]);
                    assert(log0[off + q] == self.hist@[b0 + (off + q)]);
                }
                assert_seqs_equal!(
                    self.log@ == self.hist@.subrange(m as int, self.hist@.len() as int)
                );
                assert forall|r: int| 0 <= r < self.cursors@.len() implies m
                    <= #[trigger] self.cursors@[r] by {
                    lemma_seq_min_le(self.cursors@, r);
                }
            }
        }
    }

    /// Stage an event with a countdown; it enters the log once the countdown
    /// elapses during a later `update_deferred`.
    pub fn add_deferred_event(&mut self, event: GameEvent, timer: Timer)
        requires
            old(self).wf(),
            timer.wf(),
        ensures
            final(self).wf(),
            final(self).deferred_view() == old(self).deferred_view().push(
                DeferredEvent { event, timer },
            ),
            final(self).history() == old(self).history(),
            final(self).cursors_view() == old(self).cursors_view(),
            final(self).first_retained() == old(self).first_retained(),
    {
        self.deferred.push(DeferredEvent { event, timer });
    }

    /// Advance every staged countdown by `dt` and promote all entries whose
    /// accumulated time reaches their duration, in staging order, as one
    /// batch appended to the log.
    pub fn update_deferred(&mut self, dt: u64)
        requires
            old(self).wf(),
            old(self).history().len() + old(self).deferred_view().len() <= u64::MAX,
        ensures
            final(self).wf(),
            final(self).deferred_view() == spec_kept(old(self).deferred_view(), dt),
            final(self).history() == old(self).history() + spec_promoted(
                old(self).deferred_view(),
                dt,
            ),
            final(self).cursors_view() == old(self).cursors_view(),
            final(self).first_retained() == if old(self).reader_count() == 0 {
                final(self).history().len() as int
            } else {
                old(self).first_retained()
            },
    {
        let ghost d0 = self.deferred@;
        let n = self.deferred.len();
        let mut kept: Vec<DeferredEvent> = Vec::new();
        let mut promoted: Vec<GameEvent> = Vec::new();
        let mut i: usize = 0;
        while i < n
            invariant
                0 <= i <= n,
                n == self.deferred@.len(),
                self.deferred@ == d0,
                self.wf(),
                kept@ == spec_kept(d0.subrange(0, i as int), dt),
                promoted@ == spec_promoted(d0.subrange(0, i as int), dt),
                promoted@.len() <= i,
                forall|j: int| 0 <= j < kept@.len() ==> (#[trigger] kept@[j]).timer.wf(),
            decreases n - i,
        {
            let ghost pre = d0.subrange(0, i as int);
            let ghost post = d0.subrange(0, i as int + 1);
            proof {
                assert_seqs_equal!(post.drop_last() == pre);
                assert(post.last() == d0[i as int]);
            }
            let d = self.deferred[i];
            if dt >= d.timer.duration_ms - d.timer.elapsed_ms {
                promoted.push(d.event);
            } else {
                kept.push(
                    DeferredEvent {
                        event: d.event,
                        timer: Timer {
                            duration_ms: d.timer.duration_ms,
                            elapsed_ms: d.timer.elapsed_ms + dt,
                        },
                    },
                );
            }
            i = i + 1;
        }
        proof {
            assert_seqs_equal!(d0.subrange(0, n as int) == d0);
        }
        self.deferred = kept;
        self.drain_vec_write(&mut promoted);
    }
}

/// Law: a bus with no registered readers retains nothing, however much is
/// published: with nobody to require retention the pruning floor is the
/// whole history, and the retained log stays empty.
pub proof fn lemma_no_readers_no_retention(bus: EventQueue)
    requires
        bus.wf(),
        bus.reader_count() == 0,
    ensures
        bus.retained().len() == 0,
        bus.prune_floor() == bus.history().len(),
{
}

/// Law: reads from one cursor concatenate. The events obtained by two
/// consecutive reads, one advancing the cursor from `c0` to `c1` and the
/// next from `c1` to `c2`, are exactly the events between `c0` and `c2`:
/// over any run of reads a reader observes every event from its registration
/// point to the head exactly once, in publish order.
pub proof fn lemma_reads_concatenate(hist: Seq<GameEvent>, c0: int, c1: int, c2: int)
    requires
        0 <= c0 <= c1 <= c2 <= hist.len(),
    ensures
        hist.subrange(c0, c1) + hist.subrange(c1, c2) == hist.subrange(c0, c2),
{
    assert_seqs_equal!(
        hist.subrange(c0, c1) + hist.subrange(c1, c2) == hist.subrange(c0, c2)
    );
}

/// What a reader observes over a run of reads whose cursor passed through
/// the positions `cuts[0] <= cuts[1] <= ...`: the concatenation of the
/// segments between consecutive cut points.
pub open spec fn spec_observed(hist: Seq<GameEvent>, cuts: Seq<int>, k: int) -> Seq<GameEvent>
    decreases k,
{
    if k <= 1 {
        Seq::empty()
    } else {
        spec_observed(hist, cuts, k - 1) + hist.subrange(cuts[k - 2], cuts[k - 1])
    }
}

/// Law: whatever the read timing, a reader observes every event from its
/// registration point to the final head exactly once, in publish order.
/// A run of reads moves the cursor through positions
/// `cuts[0] <= cuts[1] <= ... <= cuts[last]`, each read returning the
/// segment between two consecutive positions; concatenated, they are
/// exactly the events between the registration cursor `cuts[0]` and the
/// final cursor.
pub proof fn lemma_reads_cover(hist: Seq<GameEvent>, cuts: Seq<int>)
    requires
        cuts.len() >= 1,
        forall|i: int| 0 <= i < cuts.len() - 1 ==> #[trigger] cuts[i] <= cuts[i + 1],
        0 <= cuts[0],
        cuts[cuts.len() - 1] <= hist.len(),
    ensures
        spec_observed(hist, cuts, cuts.len() as int) == hist.subrange(
            cuts[0],
            cuts[cuts.len() - 1],
        ),
    decreases cuts.len(),
{
    let n = cuts.len() as int;
    if n == 1 {
        assert(spec_observed(hist, cuts, 1) =~= hist.subrange(cuts[0], cuts[0]));
    } else {
        let prefix = cuts.drop_last();
        assert(forall|i: int|
            0 <= i < prefix.len() - 1 ==> #[trigger] prefix[i] <= prefix[i + 1]) by {
            assert forall|i: int|
                0 <= i < prefix.len() - 1 implies #[trigger] prefix[i] <= prefix[i + 1] by {
                assert(cuts[i] <= cuts[i + 1]);
            }
        }
        assert(cuts[n - 2] <= cuts[n - 1]);
        assert(prefix[prefix.len() - 1] == cuts[n - 2]);
        lemma_reads_cover(hist, prefix);
        assert(spec_observed(hist, prefix, n - 1) == spec_observed(hist, cuts, n - 1)) by {
            lemma_observed_ignores_last(hist, cuts, n - 1);
        }
        lemma_cuts_monotone(cuts, 0, n - 2);
        assert(hist.subrange(cuts[0], cuts[n - 2]) + hist.subrange(cuts[n - 2], cuts[n - 1])
            =~= hist.subrange(cuts[0], cuts[n - 1]));
    }
}

proof fn lemma_cuts_monotone(cuts: Seq<int>, i: int, j: int)
    requires
        forall|k: int| 0 <= k < cuts.len() - 1 ==> #[trigger] cuts[k] <= cuts[k + 1],
        0 <= i <= j < cuts.len(),
    ensures
        cuts[i] <= cuts[j],
    decreases j - i,
{
    if i < j {
        lemma_cuts_monotone(cuts, i, j - 1);
        assert(cuts[j - 1] <= cuts[j]);
    }
}

proof fn lemma_observed_ignores_last(hist: Seq<GameEvent>, cuts: Seq<int>, k: int)
    requires
        0 <= k < cuts.len(),
    ensures
        spec_observed(hist, cuts.drop_last(), k) == spec_observed(hist, cuts, k),
    decreases k,
{
    if k > 1 {
        lemma_observed_ignores_last(hist, cuts, k - 1);
        assert(cuts.drop_last()[k - 2] == cuts[k - 2]);
        assert(cuts.drop_last()[k - 1] == cuts[k - 1]);
    }
}

/// Law: a read is positional. Element `k` of a read from cursor `c` is the
/// event at sequence number `c + k`; a reader registered at head `reg`
/// always has `c >= reg`, so no element of any of its reads has a sequence
/// number below `reg`: it never observes an event published before its
/// registration.
pub proof fn lemma_read_is_positional(hist: Seq<GameEvent>, reg: int, c: int)
    requires
        0 <= reg <= c <= hist.len(),
    ensures
        forall|k: int|
            0 <= k < hist.len() - c ==> hist.subrange(c, hist.len() as int)[k] == hist[c + k]
                && c + k >= reg,
{
}

/// The total of the first `k` tick amounts handed to `update_deferred`.
pub open spec fn spec_sum_dts(dts: Seq<u64>, k: int) -> int
    decreases k,
{
    if k <= 0 {
        0
    } else {
        spec_sum_dts(dts, k - 1) + dts[k - 1]
    }
}

/// The elapsed count of a staged entry's timer after the first `k` calls of
/// `update_deferred`, while it remains staged.
pub open spec fn spec_elapsed_after(duration: u64, dts: Seq<u64>, k: int) -> u64
    decreases k,
{
    if k <= 0 {
        0u64
    } else {
        spec_ticked(spec_elapsed_after(duration, dts, k - 1), dts[k - 1], duration)
    }
}

pub proof fn lemma_elapsed_is_capped_sum(duration: u64, dts: Seq<u64>, k: int)
    requires
        0 <= k <= dts.len(),
    ensures
        spec_elapsed_after(duration, dts, k) == if spec_sum_dts(dts, k) >= duration {
            duration as int
        } else {
            spec_sum_dts(dts, k)
        },
    decreases k,
{
    if k > 0 {
        lemma_elapsed_is_capped_sum(duration, dts, k - 1);
    }
}

/// Law: a deferred event is promoted on the exact tick where its accumulated
/// elapsed time first reaches or exceeds its configured duration, and never
/// earlier. An entry staged with duration `duration` and ticked by
/// `dts[0], dts[1], ...` satisfies the promotion test of `update_deferred`
/// on call `k` exactly when the summed tick amounts through call `k` reach
/// the duration.
pub proof fn lemma_deferred_promotion_exact(duration: u64, dts: Seq<u64>, k: int)
    requires
        0 < k <= dts.len(),
    ensures
        (spec_elapsed_after(duration, dts, k - 1) + dts[k - 1] >= duration) <==> (spec_sum_dts(
            dts,
            k,
        ) >= duration),
{
    lemma_elapsed_is_capped_sum(duration, dts, k - 1);
}

} // verus!
