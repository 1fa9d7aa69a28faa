use vstd::prelude::*;

use crate::journal::{same_segment, JournalSegment, JournalShard, JournalShardStatus, SegmentStatus};
use crate::keymap::{KeyMap, MapKey};

verus! {

/// A shard's full name: its cluster, namespace and name.
#[derive(Debug)]
pub struct ClusterShardKey {
    pub cluster_name: String,
    pub namespace: String,
    pub shard_name: String,
}

impl View for ClusterShardKey {
    type V = (Seq<char>, Seq<char>, Seq<char>);

    open spec fn view(&self) -> (Seq<char>, Seq<char>, Seq<char>) {
        (self.cluster_name@, self.namespace@, self.shard_name@)
    }
}

impl MapKey for ClusterShardKey {
    fn same_key(&self, other: &Self) -> (r: bool) {
        self.cluster_name == other.cluster_name && self.namespace == other.namespace
            && self.shard_name == other.shard_name
    }
}

/// A segment's full name: its shard's full name and its sequence number.
#[derive(Debug)]
pub struct ClusterSegmentKey {
    pub cluster_name: String,
    pub namespace: String,
    pub shard_name: String,
    pub segment_seq: u64,
}

impl View for ClusterSegmentKey {
    type V = SegmentId;

    open spec fn view(&self) -> SegmentId {
        (self.cluster_name@, self.namespace@, self.shard_name@, self.segment_seq)
    }
}

impl MapKey for ClusterSegmentKey {
    fn same_key(&self, other: &Self) -> (r: bool) {
        self.cluster_name == other.cluster_name && self.namespace == other.namespace
            && self.shard_name == other.shard_name && self.segment_seq == other.segment_seq
    }
}

pub type ShardId = (Seq<char>, Seq<char>, Seq<char>);

pub type SegmentId = (Seq<char>, Seq<char>, Seq<char>, u64);

pub open spec fn segment_shard_id(s: JournalSegment) -> ShardId {
    (s.cluster_name@, s.namespace@, s.shard_name@)
}

pub open spec fn segment_id(s: JournalSegment) -> SegmentId {
    (s.cluster_name@, s.namespace@, s.shard_name@, s.segment_seq as u64)
}

pub open spec fn shard_id(s: JournalShard) -> ShardId {
    (s.cluster_name@, s.namespace@, s.shard_name@)
}

/// Whether every journal node confirmed the deletion: a node that answered
/// `false` or could not be asked (`None`) holds the shard back.
pub open spec fn all_confirmed(replies: Seq<Option<bool>>) -> bool {
    forall|i: int| 0 <= i < replies.len() ==> replies[i] == Some(true)
}

pub fn all_done(replies: &Vec<Option<bool>>) -> (r: bool)
    ensures
        r == all_confirmed(replies@),
{
    let mut i: usize = 0;
    while i < replies.len()
        invariant
            i <= replies.len(),
            forall|j: int| 0 <= j < i ==> replies@[j] == Some(true),
        decreases replies.len() - i,
    {
        match replies[i] {
            Some(true) => {},
            _ => {
                return false;
            },
        }
        i = i + 1;
    }
    true
}

/// The abstract contents of the placement center's journal cache.
pub struct GcState {
    pub shards: Map<ShardId, JournalShard>,
    pub segments: Map<ShardId, Map<u64, JournalSegment>>,
    pub wait_delete_shards: Map<ShardId, JournalShard>,
    pub wait_delete_segments: Set<SegmentId>,
}

/// The outcome of one shard-GC tick on the shard with id `k` once the shard is
/// marked Deleting: with every node's confirmation the shard, its segments and
/// its wait entry go; without, the shard stays, marked Deleting.
pub open spec fn gc_shard_outcome(s: GcState, k: ShardId, confirmed: bool) -> GcState {
    if confirmed {
        GcState {
            shards: s.shards.remove(k),
            segments: s.segments.remove(k),
            wait_delete_shards: s.wait_delete_shards.remove(k),
            wait_delete_segments: s.wait_delete_segments,
        }
    } else if s.shards.contains_key(k) {
        GcState {
            shards: s.shards.insert(k, JournalShard { status: JournalShardStatus::Deleting, ..s.shards[k] }),
            ..s
        }
    } else {
        s
    }
}

/// A second shard-GC tick with the same replies leaves the state of the first.
pub proof fn lemma_gc_shard_idempotent(s: GcState, k: ShardId, confirmed: bool)
    ensures
        gc_shard_outcome(gc_shard_outcome(s, k, confirmed), k, confirmed) == gc_shard_outcome(s, k, confirmed),
{
    let once = gc_shard_outcome(s, k, confirmed);
    let twice = gc_shard_outcome(once, k, confirmed);
    if confirmed {
        assert(twice.shards =~= once.shards);
        assert(twice.segments =~= once.segments);
        assert(twice.wait_delete_shards =~= once.wait_delete_shards);
    } else if s.shards.contains_key(k) {
        assert(twice.shards =~= once.shards);
    }
}

/// The placement center's journal cache: shards, their segments, and the
/// shards waiting for deletion.
pub struct JournalCacheManager {
    shard_list: KeyMap<ClusterShardKey, JournalShard>,
    segment_list: KeyMap<ClusterShardKey, KeyMap<u64, JournalSegment>>,
    wait_delete_shard_list: KeyMap<ClusterShardKey, JournalShard>,
    wait_delete_segment_list: KeyMap<ClusterSegmentKey, JournalSegment>,
}

impl JournalCacheManager {
    pub closed spec fn wf(&self) -> bool {
        &&& self.shard_list.wf()
        &&& self.segment_list.wf()
        &&& self.wait_delete_shard_list.wf()
        &&& self.wait_delete_segment_list.wf()
        &&& forall|k: ShardId| #[trigger]
            self.wait_delete_shard_list@.contains_key(k) ==> shard_id(self.wait_delete_shard_list@[k]) == k
        &&& forall|k: SegmentId| #[trigger]
            self.wait_delete_segment_list@.contains_key(k) ==> segment_id(self.wait_delete_segment_list@[k]) == k
        &&& forall|k: ShardId| #[trigger]
            self.segment_list@.contains_key(k) ==> self.segment_list@[k].wf()
    }

    pub closed spec fn state(&self) -> GcState {
        GcState {
            shards: self.shard_list@,
            segments: self.segment_list@.map_values(|m: KeyMap<u64, JournalSegment>| m@),
            wait_delete_shards: self.wait_delete_shard_list@,
            wait_delete_segments: self.wait_delete_segment_list@.dom(),
        }
    }

    pub fn new() -> (r: Self)
        ensures
            r.wf(),
            r.state().shards == Map::<ShardId, JournalShard>::empty(),
            r.state().segments == Map::<ShardId, Map<u64, JournalSegment>>::empty(),
            r.state().wait_delete_shards == Map::<ShardId, JournalShard>::empty(),
            r.state().wait_delete_segments == Set::<SegmentId>::empty(),
    {
        let r = JournalCacheManager {
            shard_list: KeyMap::new(),
            segment_list: KeyMap::new(),
            wait_delete_shard_list: KeyMap::new(),
            wait_delete_segment_list: KeyMap::new(),
        };
        proof {
            assert(r.state().segments =~= Map::<ShardId, Map<u64, JournalSegment>>::empty());
        }
        r
    }

    fn key_of(shard: &JournalShard) -> (r: ClusterShardKey)
        ensures
            r@ == shard_id(*shard),
    {
        ClusterShardKey {
            cluster_name: shard.cluster_name.clone(),
            namespace: shard.namespace.clone(),
            shard_name: shard.shard_name.clone(),
        }
    }

    /// Caches `shard`; it waits for deletion exactly when its status is PrepareDelete.
    pub fn set_shard(&mut self, shard: &JournalShard)
        requires
            old(self).wf(),
        ensures
            final(self).wf(),
            final(self).state().shards == old(self).state().shards.insert(shard_id(*shard), *shard),
            final(self).state().segments == old(self).state().segments,
            final(self).state().wait_delete_segments == old(self).state().wait_delete_segments,
            final(self).state().wait_delete_shards == if shard.status == JournalShardStatus::PrepareDelete {
                old(self).state().wait_delete_shards.insert(shard_id(*shard), *shard)
            } else {
                old(self).state().wait_delete_shards.remove(shard_id(*shard))
            },
    {
        self.shard_list.insert(Self::key_of(shard), shard.duplicate());
        if shard.status == JournalShardStatus::PrepareDelete {
            self.wait_delete_shard_list.insert(Self::key_of(shard), shard.duplicate());
        } else {
            self.wait_delete_shard_list.remove(&Self::key_of(shard));
        }
    }

    /// Rebuilds the cache from the stored shards: afterwards the wait list holds
    /// exactly the shards whose status is PrepareDelete.
    pub fn load_cache(&mut self, shards: &Vec<JournalShard>)
        requires
            old(self).wf(),
            old(self).state().wait_delete_shards.dom().subset_of(old(self).state().shards.dom()),
            forall|k: ShardId| #[trigger]
                old(self).state().shards.contains_key(k) ==> (old(self).state().wait_delete_shards.contains_key(k)
                    <==> old(self).state().shards[k].status == JournalShardStatus::PrepareDelete),
        ensures
            final(self).wf(),
            final(self).state().segments == old(self).state().segments,
            final(self).state().wait_delete_segments == old(self).state().wait_delete_segments,
            forall|j: int| 0 <= j < shards.len() ==> #[trigger] final(self).state().shards.contains_key(
                shard_id(shards[j]),
            ),
            forall|k: ShardId| #[trigger]
                final(self).state().wait_delete_shards.contains_key(k) <==> (final(self).state().shards.contains_key(k)
                    && final(self).state().shards[k].status == JournalShardStatus::PrepareDelete),
    {
        let mut i: usize = 0;
        while i < shards.len()
            invariant
                self.wf(),
                i <= shards.len(),
                self.state().segments == old(self).state().segments,
                self.state().wait_delete_segments == old(self).state().wait_delete_segments,
                forall|j: int| 0 <= j < i ==> #[trigger] self.state().shards.contains_key(shard_id(shards[j])),
                self.state().wait_delete_shards.dom().subset_of(self.state().shards.dom()),
                forall|k: ShardId| #[trigger]
                    self.state().shards.contains_key(k) ==> (self.state().wait_delete_shards.contains_key(k)
                        <==> self.state().shards[k].status == JournalShardStatus::PrepareDelete),
            decreases shards.len() - i,
        {
            self.set_shard(&shards[i]);
            i = i + 1;
        }
    }

    /// Whether the shard-GC controller works on `shard` this tick.
    pub fn gc_shard_eligible(shard: &JournalShard) -> (r: bool)
        ensures
            r == (shard.status == JournalShardStatus::PrepareDelete),
    {
        shard.status == JournalShardStatus::PrepareDelete
    }

    /// Completes one shard-GC tick on `shard`, given each journal node's reply to
    /// the deletion-status poll.
    pub fn gc_shard_finish(&mut self, shard: &JournalShard, replies: &Vec<Option<bool>>) -> (done: bool)
        requires
            old(self).wf(),
        ensures
            final(self).wf(),
            done == all_confirmed(replies@),
            final(self).state() == gc_shard_outcome(old(self).state(), shard_id(*shard), done),
            done ==> !final(self).state().shards.contains_key(shard_id(*shard))
                && !final(self).state().segments.contains_key(shard_id(*shard))
                && !final(self).state().wait_delete_shards.contains_key(shard_id(*shard)),
    {
        let done = all_done(replies);
        let key = Self::key_of(shard);
        if done {
            self.shard_list.remove(&key);
            self.segment_list.remove(&key);
            self.wait_delete_shard_list.remove(&key);
            proof {
                assert(self.state().segments =~= old(self).state().segments.remove(shard_id(*shard)));
            }
        } else {
            match self.shard_list.get(&key) {
                Some(cur) => {
                    let mut updated = cur.duplicate();
                    updated.status = JournalShardStatus::Deleting;
                    self.shard_list.insert(key, updated);
                },
                None => {},
            }
        }
        proof {
            assert(self.state().shards =~= gc_shard_outcome(old(self).state(), shard_id(*shard), done).shards);
        }
        done
    }

    /// The shards waiting for deletion.
    pub fn wait_delete_shards(&self) -> (r: Vec<JournalShard>)
        requires
            self.wf(),
        ensures
            r.len() == self.state().wait_delete_shards.len(),
            forall|i: int| #![trigger r[i]]
                0 <= i < r.len() ==> self.state().wait_delete_shards.contains_key(shard_id(r[i]))
                    && self.state().wait_delete_shards[shard_id(r[i])] == r[i],
    {
        let m = &self.wait_delete_shard_list;
        let n = m.len();
        let mut r: Vec<JournalShard> = Vec::new();
        let mut i: usize = 0;
        while i < n
            invariant
                m.wf(),
                *m == self.wait_delete_shard_list,
                n == m.values_seq().len(),
                n == m@.len(),
                forall|k: ShardId| #[trigger] m@.contains_key(k) ==> shard_id(m@[k]) == k,
                i <= n,
                r.len() == i,
                forall|j: int| #![trigger r[j]]
                    0 <= j < i ==> m@.contains_key(shard_id(r[j])) && m@[shard_id(r[j])] == r[j],
            decreases n - i,
        {
            let sh = m.value_at(i).duplicate();
            proof {
                let k = choose|k: ShardId| #[trigger] m@.contains_key(k) && m@[k] == sh;
                assert(k == shard_id(sh));
            }
            r.push(sh);
            i = i + 1;
        }
        r
    }

    /// The segments waiting for deletion.
    pub fn wait_delete_segments(&self) -> (r: Vec<JournalSegment>)
        requires
            self.wf(),
        ensures
            r.len() == self.state().wait_delete_segments.len(),
            forall|i: int| 0 <= i < r.len() ==> self.state().wait_delete_segments.contains(
                #[trigger] segment_id(r[i]),
            ) && same_segment(r[i], self.wait_segment(segment_id(r[i]))),
    {
        let m = &self.wait_delete_segment_list;
        let n = m.len();
        let mut r: Vec<JournalSegment> = Vec::new();
        let mut i: usize = 0;
        while i < n
            invariant
                m.wf(),
                *m == self.wait_delete_segment_list,
                n == m.values_seq().len(),
                n == m@.len(),
                forall|k: SegmentId| #[trigger] m@.contains_key(k) ==> segment_id(m@[k]) == k,
                i <= n,
                r.len() == i,
                forall|j: int| 0 <= j < i ==> m@.contains_key(#[trigger] segment_id(r[j])) && same_segment(
                    r[j],
                    m@[segment_id(r[j])],
                ),
            decreases n - i,
        {
            let v = m.value_at(i);
            let sg = v.duplicate();
            proof {
                let k = choose|k: SegmentId| #[trigger] m@.contains_key(k) && m@[k] == *v;
                assert(segment_id(sg) == segment_id(*v));
                assert(k == segment_id(*v));
            }
            r.push(sg);
            i = i + 1;
        }
        r
    }

    /// The segments of the shard with id `k` (none when it has no entry).
    pub open spec fn segments_of(&self, k: ShardId) -> Map<u64, JournalSegment> {
        if self.state().segments.contains_key(k) {
            self.state().segments[k]
        } else {
            Map::empty()
        }
    }

    fn segment_key(segment: &JournalSegment) -> (r: ClusterSegmentKey)
        ensures
            r@ == segment_id(*segment),
    {
        ClusterSegmentKey {
            cluster_name: segment.cluster_name.clone(),
            namespace: segment.namespace.clone(),
            shard_name: segment.shard_name.clone(),
            segment_seq: segment.segment_seq as u64,
        }
    }

    /// Caches `segment`; it waits for deletion exactly when its status is PrepareDelete.
    pub fn set_segment(&mut self, segment: JournalSegment)
        requires
            old(self).wf(),
        ensures
            final(self).wf(),
            final(self).state().shards == old(self).state().shards,
            final(self).state().wait_delete_shards == old(self).state().wait_delete_shards,
            final(self).state().segments == old(self).state().segments.insert(
                segment_shard_id(segment),
                old(self).segments_of(segment_shard_id(segment)).insert(segment.segment_seq as u64, segment),
            ),
            segment.status == SegmentStatus::PrepareDelete ==> same_segment(
                final(self).wait_segment(segment_id(segment)),
                segment,
            ),
            forall|id: SegmentId|
                id != segment_id(segment) && #[trigger] old(self).state().wait_delete_segments.contains(id)
                    ==> final(self).wait_segment(id) == old(self).wait_segment(id),
            final(self).state().wait_delete_segments == if segment.status == SegmentStatus::PrepareDelete {
                old(self).state().wait_delete_segments.insert(segment_id(segment))
            } else {
                old(self).state().wait_delete_segments.remove(segment_id(segment))
            },
    {
        let key = ClusterShardKey {
            cluster_name: segment.cluster_name.clone(),
            namespace: segment.namespace.clone(),
            shard_name: segment.shard_name.clone(),
        };
        let wait_key = Self::segment_key(&segment);
        if segment.status == SegmentStatus::PrepareDelete {
            self.wait_delete_segment_list.insert(wait_key, segment.duplicate());
        } else {
            self.wait_delete_segment_list.remove(&wait_key);
        }
        let ghost sg = segment;
        let mut inner = match self.segment_list.remove(&key) {
            Some(m) => m,
            None => KeyMap::new(),
        };
        inner.insert(segment.segment_seq as u64, segment);
        self.segment_list.insert(key, inner);
        proof {
            if sg.status == SegmentStatus::PrepareDelete {
                assert(self.state().wait_delete_segments =~= old(self).state().wait_delete_segments.insert(segment_id(sg)));
            } else {
                assert(self.state().wait_delete_segments =~= old(self).state().wait_delete_segments.remove(segment_id(sg)));
            }
            assert(self.state().segments =~= old(self).state().segments.insert(
                segment_shard_id(sg),
                old(self).segments_of(segment_shard_id(sg)).insert(sg.segment_seq as u64, sg),
            ));
        }
    }

    /// The record kept for waiting segment `id`.
    pub closed spec fn wait_segment(&self, id: SegmentId) -> JournalSegment {
        self.wait_delete_segment_list@[id]
    }

    /// A segment waits for deletion exactly when it is cached with status PrepareDelete.
    pub open spec fn segment_wait_consistent(&self) -> bool {
        forall|id: SegmentId| #[trigger]
            self.state().wait_delete_segments.contains(id) <==> (self.segments_of((id.0, id.1, id.2)).contains_key(id.3)
                && self.segments_of((id.0, id.1, id.2))[id.3].status == SegmentStatus::PrepareDelete)
    }

    /// Caches the stored segments, keeping the segment wait list exactly the
    /// segments whose status is PrepareDelete.
    pub fn load_segments(&mut self, segments: Vec<JournalSegment>)
        requires
            old(self).wf(),
            old(self).segment_wait_consistent(),
        ensures
            final(self).wf(),
            final(self).segment_wait_consistent(),
            final(self).state().shards == old(self).state().shards,
            final(self).state().wait_delete_shards == old(self).state().wait_delete_shards,
            forall|j: int| 0 <= j < segments.len() ==> #[trigger] final(self).segments_of(
                segment_shard_id(segments[j]),
            ).contains_key(segments[j].segment_seq as u64),
    {
        let ghost orig = segments@;
        let mut rest = segments;
        while rest.len() > 0
            invariant
                self.wf(),
                self.segment_wait_consistent(),
                self.state().shards == old(self).state().shards,
                self.state().wait_delete_shards == old(self).state().wait_delete_shards,
                orig.len() >= rest.len(),
                rest@ == orig.subrange(0, rest.len() as int),
                forall|j: int| rest.len() <= j < orig.len() ==> #[trigger] self.segments_of(
                    segment_shard_id(orig[j]),
                ).contains_key(orig[j].segment_seq as u64),
            decreases rest.len(),
        {
            let ghost before = *self;
            let sg = rest.pop().unwrap();
            let ghost g = sg;
            self.set_segment(sg);
            proof {
                assert forall|id: SegmentId| #[trigger] self.state().wait_delete_segments.contains(id) <==> (
                self.segments_of((id.0, id.1, id.2)).contains_key(id.3) && self.segments_of(
                    (id.0, id.1, id.2),
                )[id.3].status == SegmentStatus::PrepareDelete) by {
                    if id != segment_id(g) {
                        assert(before.state().wait_delete_segments.contains(id) <==> (before.segments_of(
                            (id.0, id.1, id.2),
                        ).contains_key(id.3) && before.segments_of((id.0, id.1, id.2))[id.3].status
                            == SegmentStatus::PrepareDelete));
                        if (id.0, id.1, id.2) == segment_shard_id(g) {
                            assert(id.3 != g.segment_seq as u64);
                        }
                    }
                }
                assert(rest@ =~= orig.subrange(0, rest.len() as int));
                assert forall|j: int| rest.len() <= j < orig.len() implies #[trigger] self.segments_of(
                    segment_shard_id(orig[j]),
                ).contains_key(orig[j].segment_seq as u64) by {
                    if j > rest.len() {
                        assert(before.segments_of(segment_shard_id(orig[j])).contains_key(
                            orig[j].segment_seq as u64,
                        ));
                    }
                }
            }
        }
    }

    /// Whether the segment-GC controller works on `segment` this tick: it waits
    /// for deletion and its shard is cached (otherwise shard GC cleans it up).
    pub fn gc_segment_eligible(&self, segment: &JournalSegment) -> (r: bool)
        requires
            self.wf(),
        ensures
            r == (segment.status == SegmentStatus::PrepareDelete && self.state().shards.contains_key(
                segment_shard_id(*segment),
            )),
    {
        if segment.status != SegmentStatus::PrepareDelete {
            return false;
        }
        let key = ClusterShardKey {
            cluster_name: segment.cluster_name.clone(),
            namespace: segment.namespace.clone(),
            shard_name: segment.shard_name.clone(),
        };
        self.shard_list.contains_key(&key)
    }

    /// Completes one segment-GC tick on `segment`, given each replica's reply to
    /// the deletion-status poll. A segment whose shard is not cached is left
    /// alone. With every confirmation the segment and its wait entry go and the
    /// shard's start segment moves past it; otherwise the cached segment is
    /// marked Deleting and stays waiting.
    pub fn gc_segment_finish(&mut self, segment: &JournalSegment, replies: &Vec<Option<bool>>) -> (done: bool)
        requires
            old(self).wf(),
        ensures
            final(self).wf(),
            done == (old(self).state().shards.contains_key(segment_shard_id(*segment)) && all_confirmed(replies@)),
            !old(self).state().shards.contains_key(segment_shard_id(*segment)) ==> final(self).state() == old(self).state(),
            old(self).state().shards.contains_key(segment_shard_id(*segment)) && !done ==> {
                &&& final(self).state().shards == old(self).state().shards
                &&& final(self).state().wait_delete_shards == old(self).state().wait_delete_shards
                &&& final(self).state().wait_delete_segments == old(self).state().wait_delete_segments
                &&& final(self).state().segments == if old(self).segments_of(segment_shard_id(*segment)).contains_key(
                    segment.segment_seq as u64,
                ) {
                    old(self).state().segments.insert(
                        segment_shard_id(*segment),
                        old(self).segments_of(segment_shard_id(*segment)).insert(
                            segment.segment_seq as u64,
                            JournalSegment {
                                status: SegmentStatus::Deleting,
                                ..old(self).segments_of(segment_shard_id(*segment))[segment.segment_seq as u64]
                            },
                        ),
                    )
                } else {
                    old(self).state().segments
                }
            },
            done ==> {
                &&& final(self).state().segments == if old(self).state().segments.contains_key(
                    segment_shard_id(*segment),
                ) {
                    old(self).state().segments.insert(
                        segment_shard_id(*segment),
                        old(self).segments_of(segment_shard_id(*segment)).remove(segment.segment_seq as u64),
                    )
                } else {
                    old(self).state().segments
                }
                &&& final(self).state().shards == old(self).state().shards.insert(
                    segment_shard_id(*segment),
                    JournalShard {
                        start_segment_seq: start_after_delete(
                            old(self).state().shards[segment_shard_id(*segment)].start_segment_seq,
                            segment.segment_seq,
                        ),
                        ..old(self).state().shards[segment_shard_id(*segment)]
                    },
                )
                &&& final(self).state().wait_delete_segments == old(self).state().wait_delete_segments.remove(
                    segment_id(*segment),
                )
                &&& final(self).state().wait_delete_shards == old(self).state().wait_delete_shards
            },
    {
        let shard_key = ClusterShardKey {
            cluster_name: segment.cluster_name.clone(),
            namespace: segment.namespace.clone(),
            shard_name: segment.shard_name.clone(),
        };
        let shard = match self.shard_list.get(&shard_key) {
            Some(cur) => cur.duplicate(),
            None => {
                return false;
            },
        };
        let key = ClusterShardKey {
            cluster_name: segment.cluster_name.clone(),
            namespace: segment.namespace.clone(),
            shard_name: segment.shard_name.clone(),
        };
        let seq = segment.segment_seq as u64;
        if !all_done(replies) {
            match self.segment_list.remove(&key) {
                Some(mut inner) => {
                    let ghost before_inner = inner@;
                    match inner.remove(&seq) {
                        Some(mut sg) => {
                            sg.status = SegmentStatus::Deleting;
                            inner.insert(seq, sg);
                            proof {
                                assert(inner@ =~= before_inner.insert(
                                    seq,
                                    JournalSegment { status: SegmentStatus::Deleting, ..before_inner[seq] },
                                ));
                            }
                        },
                        None => {
                            proof {
                                assert(inner@ =~= before_inner);
                            }
                        },
                    }
                    self.segment_list.insert(key, inner);
                    proof {
                        if old(self).segments_of(segment_shard_id(*segment)).contains_key(seq) {
                            assert(self.state().segments =~= old(self).state().segments.insert(
                                segment_shard_id(*segment),
                                old(self).segments_of(segment_shard_id(*segment)).insert(
                                    seq,
                                    JournalSegment {
                                        status: SegmentStatus::Deleting,
                                        ..old(self).segments_of(segment_shard_id(*segment))[seq]
                                    },
                                ),
                            ));
                        } else {
                            assert(self.state().segments =~= old(self).state().segments);
                        }
                    }
                },
                None => {
                    proof {
                        assert(self.state().segments =~= old(self).state().segments);
                    }
                },
            }
            return false;
        }
        match self.segment_list.remove(&key) {
            Some(mut inner) => {
                inner.remove(&seq);
                self.segment_list.insert(key, inner);
                proof {
                    assert(self.state().segments =~= old(self).state().segments.insert(
                        segment_shard_id(*segment),
                        old(self).segments_of(segment_shard_id(*segment)).remove(seq),
                    ));
                }
            },
            None => {
                proof {
                    assert(self.state().segments =~= old(self).state().segments);
                }
            },
        }
        let mut updated = shard;
        updated.start_segment_seq = next_start_segment(updated.start_segment_seq, segment.segment_seq);
        self.shard_list.insert(shard_key, updated);
        self.wait_delete_segment_list.remove(&Self::segment_key(segment));
        proof {
            assert(self.state().wait_delete_segments =~= old(self).state().wait_delete_segments.remove(
                segment_id(*segment),
            ));
        }
        true
    }
}

/// What a GC controller does next with one waiting record.
#[derive(Clone, Copy, Debug, PartialEq, Eq, Structural)]
pub enum GcStep {
    /// This node is no longer the leader: the tick ends.
    Stop,
    /// Leave the record for a later tick.
    Skip,
    /// Go on with the record.
    Proceed,
}

/// The controller's decision for one record: stop once leadership is lost,
/// skip a record that is not eligible or whose Deleting proposal was refused.
pub fn gc_step(is_leader: bool, eligible: bool, proposal_accepted: bool) -> (r: GcStep)
    ensures
        r == if !is_leader {
            GcStep::Stop
        } else if !eligible || !proposal_accepted {
            GcStep::Skip
        } else {
            GcStep::Proceed
        },
{
    if !is_leader {
        GcStep::Stop
    } else if !eligible || !proposal_accepted {
        GcStep::Skip
    } else {
        GcStep::Proceed
    }
}

/// The shard's first segment once segment `deleted_seq` is erased: the one
/// after it, unless the start already lies further (the sequence saturates).
pub open spec fn start_after_delete(start_segment_seq: u32, deleted_seq: u32) -> u32 {
    if deleted_seq == u32::MAX {
        u32::MAX
    } else if start_segment_seq > deleted_seq + 1 {
        start_segment_seq
    } else {
        (deleted_seq + 1) as u32
    }
}

pub fn next_start_segment(start_segment_seq: u32, deleted_seq: u32) -> (r: u32)
    ensures
        r == start_after_delete(start_segment_seq, deleted_seq),
{
    if deleted_seq == u32::MAX {
        u32::MAX
    } else if start_segment_seq > deleted_seq + 1 {
        start_segment_seq
    } else {
        deleted_seq + 1
    }
}

} // verus!
