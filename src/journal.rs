use vstd::prelude::*;

use crate::keymap::{KeyMap, MapKey};
use crate::placement::BrokerNode;

verus! {

#[derive(Clone, Copy, Debug, PartialEq, Eq, Structural)]
pub enum JournalShardStatus {
    Running,
    PrepareDelete,
    Deleting,
}

/// A logical append-only log.
#[derive(Debug)]
pub struct JournalShard {
    pub shard_uid: String,
    pub cluster_name: String,
    pub namespace: String,
    pub shard_name: String,
    pub replica: u32,
    pub start_segment_seq: u32,
    pub active_segment_seq: u32,
    pub last_segment_seq: u32,
    pub status: JournalShardStatus,
    pub create_time: u64,
}

impl JournalShard {
    pub fn duplicate(&self) -> (r: Self)
        ensures
            r == *self,
    {
        JournalShard {
            shard_uid: self.shard_uid.clone(),
            cluster_name: self.cluster_name.clone(),
            namespace: self.namespace.clone(),
            shard_name: self.shard_name.clone(),
            replica: self.replica,
            start_segment_seq: self.start_segment_seq,
            active_segment_seq: self.active_segment_seq,
            last_segment_seq: self.last_segment_seq,
            status: self.status,
            create_time: self.create_time,
        }
    }
}

#[derive(Clone, Copy, Debug, PartialEq, Eq, Structural)]
pub enum SegmentStatus {
    Create,
    Active,
    PrepareSealUp,
    SealUp,
    PrepareDelete,
    Deleting,
}

/// One copy of a segment: the node that holds it and the directory it lies in.
#[derive(Debug)]
pub struct Replica {
    pub replica_seq: u64,
    pub node_id: u64,
    pub fold: String,
}

impl Replica {
    pub fn duplicate(&self) -> (r: Self)
        ensures
            r == *self,
    {
        Replica { replica_seq: self.replica_seq, node_id: self.node_id, fold: self.fold.clone() }
    }
}

/// A physical, replicated chunk of a shard.
#[derive(Debug)]
pub struct JournalSegment {
    pub cluster_name: String,
    pub namespace: String,
    pub shard_name: String,
    pub segment_seq: u32,
    pub replicas: Vec<Replica>,
    pub status: SegmentStatus,
}

fn copy_replicas(v: &Vec<Replica>) -> (r: Vec<Replica>)
    ensures
        r@ == v@,
{
    let mut r: Vec<Replica> = Vec::new();
    let mut i: usize = 0;
    while i < v.len()
        invariant
            i <= v.len(),
            r@ == v@.subrange(0, i as int),
        decreases v.len() - i,
    {
        r.push(v[i].duplicate());
        i = i + 1;
    }
    proof {
        assert(r@ =~= v@);
    }
    r
}

/// `a` and `b` hold the same segment: every field agrees, the replicas as a sequence.
pub open spec fn same_segment(a: JournalSegment, b: JournalSegment) -> bool {
    &&& a.cluster_name == b.cluster_name
    &&& a.namespace == b.namespace
    &&& a.shard_name == b.shard_name
    &&& a.segment_seq == b.segment_seq
    &&& a.replicas@ == b.replicas@
    &&& a.status == b.status
}

impl JournalSegment {
    pub fn duplicate(&self) -> (r: Self)
        ensures
            same_segment(r, *self),
    {
        JournalSegment {
            cluster_name: self.cluster_name.clone(),
            namespace: self.namespace.clone(),
            shard_name: self.shard_name.clone(),
            segment_seq: self.segment_seq,
            replicas: copy_replicas(&self.replicas),
            status: self.status,
        }
    }
}

/// A shard's name within its namespace.
#[derive(Debug)]
pub struct ShardKey {
    pub namespace: String,
    pub shard_name: String,
}

impl View for ShardKey {
    type V = (Seq<char>, Seq<char>);

    open spec fn view(&self) -> (Seq<char>, Seq<char>) {
        (self.namespace@, self.shard_name@)
    }
}

impl MapKey for ShardKey {
    fn same_key(&self, other: &Self) -> (r: bool) {
        self.namespace == other.namespace && self.shard_name == other.shard_name
    }
}

/// A cache-update notification, decoded.
pub enum JournalCacheUpdate {
    AddNode(BrokerNode),
    DeleteNode(u64),
    AddShard(JournalShard),
    DeleteShard(JournalShard),
    AddSegment(JournalSegment),
    DeleteSegment(JournalSegment),
}

/// The abstract contents of a journal server's cache.
pub struct JournalCacheState {
    pub nodes: Map<u64, BrokerNode>,
    pub shards: Map<(Seq<char>, Seq<char>), JournalShard>,
    pub segments: Map<(Seq<char>, Seq<char>), Map<u64, JournalSegment>>,
}

/// The segments of the shard with key `k` (none when it has no entry).
pub open spec fn segments_of(
    segments: Map<(Seq<char>, Seq<char>), Map<u64, JournalSegment>>,
    k: (Seq<char>, Seq<char>),
) -> Map<u64, JournalSegment> {
    if segments.contains_key(k) {
        segments[k]
    } else {
        Map::empty()
    }
}

/// The cache contents after applying notification `u` to `s`: each kind of
/// notification overwrites or removes the one entry it names.
pub open spec fn apply_update(s: JournalCacheState, u: JournalCacheUpdate) -> JournalCacheState {
    match u {
        JournalCacheUpdate::AddNode(n) => JournalCacheState { nodes: s.nodes.insert(n.node_id, n), ..s },
        JournalCacheUpdate::DeleteNode(id) => JournalCacheState { nodes: s.nodes.remove(id), ..s },
        JournalCacheUpdate::AddShard(sh) => JournalCacheState {
            shards: s.shards.insert((sh.namespace@, sh.shard_name@), sh),
            ..s
        },
        JournalCacheUpdate::DeleteShard(sh) => JournalCacheState {
            shards: s.shards.remove((sh.namespace@, sh.shard_name@)),
            segments: s.segments.remove((sh.namespace@, sh.shard_name@)),
            ..s
        },
        JournalCacheUpdate::AddSegment(sg) => JournalCacheState {
            segments: s.segments.insert(
                (sg.namespace@, sg.shard_name@),
                segments_of(s.segments, (sg.namespace@, sg.shard_name@)).insert(sg.segment_seq as u64, sg),
            ),
            ..s
        },
        JournalCacheUpdate::DeleteSegment(sg) => if s.segments.contains_key((sg.namespace@, sg.shard_name@)) {
            JournalCacheState {
                segments: s.segments.insert(
                    (sg.namespace@, sg.shard_name@),
                    s.segments[(sg.namespace@, sg.shard_name@)].remove(sg.segment_seq as u64),
                ),
                ..s
            }
        } else {
            s
        },
    }
}

/// Applying the same notification twice leaves the cache as applying it once.
pub proof fn lemma_apply_update_idempotent(s: JournalCacheState, u: JournalCacheUpdate)
    ensures
        apply_update(apply_update(s, u), u) == apply_update(s, u),
{
    let once = apply_update(s, u);
    let twice = apply_update(once, u);
    match u {
        JournalCacheUpdate::AddNode(n) => {
            assert(twice.nodes =~= once.nodes);
        },
        JournalCacheUpdate::DeleteNode(id) => {
            assert(twice.nodes =~= once.nodes);
        },
        JournalCacheUpdate::AddShard(sh) => {
            assert(twice.shards =~= once.shards);
        },
        JournalCacheUpdate::DeleteShard(sh) => {
            assert(twice.shards =~= once.shards);
            assert(twice.segments =~= once.segments);
        },
        JournalCacheUpdate::AddSegment(sg) => {
            let k = (sg.namespace@, sg.shard_name@);
            assert(segments_of(once.segments, k) == segments_of(s.segments, k).insert(sg.segment_seq as u64, sg));
            assert(segments_of(once.segments, k).insert(sg.segment_seq as u64, sg) =~= segments_of(once.segments, k));
            assert(twice.segments =~= once.segments);
        },
        JournalCacheUpdate::DeleteSegment(sg) => {
            let k = (sg.namespace@, sg.shard_name@);
            if s.segments.contains_key(k) {
                assert(once.segments[k].remove(sg.segment_seq as u64) =~= once.segments[k]);
                assert(twice.segments =~= once.segments);
            }
        },
    }
}

/// `after` is `before` with the nodes of `nodes` stored by id, the last of
/// several with one id winning, and every other entry kept.
pub open spec fn nodes_loaded(before: Map<u64, BrokerNode>, after: Map<u64, BrokerNode>, nodes: Seq<BrokerNode>) -> bool {
    &&& forall|id: u64| #[trigger]
        after.contains_key(id) <==> (before.contains_key(id) || exists|j: int| 0 <= j < nodes.len() && nodes[j].node_id == id)
    &&& forall|j: int|
        0 <= j < nodes.len() && (forall|j2: int| j < j2 < nodes.len() ==> nodes[j2].node_id != nodes[j].node_id)
            ==> after[#[trigger] nodes[j].node_id] == nodes[j]
    &&& forall|id: u64| #[trigger]
        before.contains_key(id) && !(exists|j: int| 0 <= j < nodes.len() && nodes[j].node_id == id) ==> after[id] == before[id]
}

/// A segment that is written to, or about to be.
pub open spec fn is_writable(s: SegmentStatus) -> bool {
    s == SegmentStatus::Active || s == SegmentStatus::Create
}

/// A journal server's local cache of nodes, shards and segments.
pub struct CacheManager {
    node_list: KeyMap<u64, BrokerNode>,
    shards: KeyMap<ShardKey, JournalShard>,
    segments: KeyMap<ShardKey, KeyMap<u64, JournalSegment>>,
}

impl CacheManager {
    pub closed spec fn wf(&self) -> bool {
        &&& self.node_list.wf()
        &&& self.shards.wf()
        &&& self.segments.wf()
        &&& forall|k: (Seq<char>, Seq<char>)| #[trigger]
            self.segments@.contains_key(k) ==> self.segments@[k].wf()
        &&& forall|k: (Seq<char>, Seq<char>), q: u64|
            self.segments@.contains_key(k) && #[trigger] self.segments@[k]@.contains_key(q)
                ==> self.segments@[k]@[q].segment_seq as u64 == q
    }

    pub closed spec fn state(&self) -> JournalCacheState {
        JournalCacheState {
            nodes: self.node_list@,
            shards: self.shards@,
            segments: self.segments@.map_values(|m: KeyMap<u64, JournalSegment>| m@),
        }
    }

    pub fn new() -> (r: Self)
        ensures
            r.wf(),
            r.state().nodes == Map::<u64, BrokerNode>::empty(),
            r.state().shards == Map::<(Seq<char>, Seq<char>), JournalShard>::empty(),
            r.state().segments == Map::<(Seq<char>, Seq<char>), Map<u64, JournalSegment>>::empty(),
    {
        let r = CacheManager { node_list: KeyMap::new(), shards: KeyMap::new(), segments: KeyMap::new() };
        proof {
            assert(r.state().segments =~= Map::<(Seq<char>, Seq<char>), Map<u64, JournalSegment>>::empty());
        }
        r
    }

    fn key_of(namespace: &String, shard_name: &String) -> (r: ShardKey)
        ensures
            r@ == (namespace@, shard_name@),
    {
        ShardKey { namespace: namespace.clone(), shard_name: shard_name.clone() }
    }

    pub fn add_shard(&mut self, shard: JournalShard)
        requires
            old(self).wf(),
        ensures
            final(self).wf(),
            final(self).state() == apply_update(old(self).state(), JournalCacheUpdate::AddShard(shard)),
    {
        let key = Self::key_of(&shard.namespace, &shard.shard_name);
        self.shards.insert(key, shard);
    }

    pub fn get_shard(&self, namespace: &String, shard_name: &String) -> (r: Option<JournalShard>)
        requires
            self.wf(),
        ensures
            r == if self.state().shards.contains_key((namespace@, shard_name@)) {
                Some(self.state().shards[(namespace@, shard_name@)])
            } else {
                None::<JournalShard>
            },
    {
        let key = Self::key_of(namespace, shard_name);
        match self.shards.get(&key) {
            Some(s) => Some(s.duplicate()),
            None => None,
        }
    }

    /// Removes the shard and all its segments.
    pub fn delete_shard(&mut self, namespace: &String, shard_name: &String)
        requires
            old(self).wf(),
        ensures
            final(self).wf(),
            final(self).state().nodes == old(self).state().nodes,
            final(self).state().shards == old(self).state().shards.remove((namespace@, shard_name@)),
            final(self).state().segments == old(self).state().segments.remove((namespace@, shard_name@)),
    {
        let key = Self::key_of(namespace, shard_name);
        self.shards.remove(&key);
        self.segments.remove(&key);
        proof {
            assert(self.state().segments =~= old(self).state().segments.remove((namespace@, shard_name@)));
        }
    }

    pub fn shard_exists(&self, namespace: &String, shard_name: &String) -> (r: bool)
        requires
            self.wf(),
        ensures
            r == self.state().shards.contains_key((namespace@, shard_name@)),
    {
        let key = Self::key_of(namespace, shard_name);
        self.shards.contains_key(&key)
    }

    pub fn get_segment(&self, namespace: &String, shard_name: &String, segment_no: u32) -> (r: Option<JournalSegment>)
        requires
            self.wf(),
        ensures
            match r {
                Some(sg) => segments_of(self.state().segments, (namespace@, shard_name@)).contains_key(
                    segment_no as u64,
                ) && same_segment(sg, segments_of(self.state().segments, (namespace@, shard_name@))[segment_no as u64]),
                None => !segments_of(self.state().segments, (namespace@, shard_name@)).contains_key(
                    segment_no as u64,
                ),
            },
    {
        let key = Self::key_of(namespace, shard_name);
        match self.segments.get(&key) {
            Some(m) => match m.get(&(segment_no as u64)) {
                Some(sg) => Some(sg.duplicate()),
                None => None,
            },
            None => None,
        }
    }

    /// The shard's active segment, when the shard is cached and that segment
    /// is cached with status Active or Create.
    pub fn get_active_segment(&self, namespace: &String, shard_name: &String) -> (r: Option<JournalSegment>)
        requires
            self.wf(),
        ensures
            r.is_some() <==> {
                &&& self.state().shards.contains_key((namespace@, shard_name@))
                &&& segments_of(self.state().segments, (namespace@, shard_name@)).contains_key(
                    self.state().shards[(namespace@, shard_name@)].active_segment_seq as u64,
                )
                &&& is_writable(
                    segments_of(self.state().segments, (namespace@, shard_name@))[self.state().shards[(
                    namespace@,
                    shard_name@,
                )].active_segment_seq as u64].status,
                )
            },
            r matches Some(sg) ==> same_segment(
                sg,
                segments_of(self.state().segments, (namespace@, shard_name@))[self.state().shards[(
                namespace@,
                shard_name@,
            )].active_segment_seq as u64],
            ),
    {
        let key = Self::key_of(namespace, shard_name);
        match self.shards.get(&key) {
            Some(shard) => match self.get_segment(namespace, shard_name, shard.active_segment_seq) {
                Some(sg) => {
                    if sg.status == SegmentStatus::Active || sg.status == SegmentStatus::Create {
                        Some(sg)
                    } else {
                        None
                    }
                },
                None => None,
            },
            None => None,
        }
    }

    /// Caches the nodes that the placement center listed.
    pub fn load_cache(&mut self, nodes: &Vec<BrokerNode>)
        requires
            old(self).wf(),
        ensures
            final(self).wf(),
            final(self).state().shards == old(self).state().shards,
            final(self).state().segments == old(self).state().segments,
            nodes_loaded(old(self).state().nodes, final(self).state().nodes, nodes@),
    {
        let mut i: usize = 0;
        while i < nodes.len()
            invariant
                self.wf(),
                i <= nodes.len(),
                self.state().shards == old(self).state().shards,
                self.state().segments == old(self).state().segments,
                nodes_loaded(old(self).state().nodes, self.state().nodes, nodes@.subrange(0, i as int)),
            decreases nodes.len() - i,
        {
            let ghost before = self.state().nodes;
            let n = nodes[i].duplicate();
            self.node_list.insert(nodes[i].node_id, n);
            proof {
                let o = old(self).state().nodes;
                let pre = nodes@.subrange(0, i as int);
                let post = nodes@.subrange(0, i + 1);
                let now = self.state().nodes;
                assert(post[i as int] == nodes[i as int]);
                assert forall|id: u64| #[trigger] now.contains_key(id) <==> (o.contains_key(id) || exists|j: int|
                    0 <= j < post.len() && post[j].node_id == id) by {
                    if exists|j: int| 0 <= j < post.len() && post[j].node_id == id {
                        let j = choose|j: int| 0 <= j < post.len() && post[j].node_id == id;
                        if j < i {
                            assert(post[j] == pre[j]);
                            assert(before.contains_key(id));
                        }
                    }
                    if id != nodes[i as int].node_id && now.contains_key(id) && !o.contains_key(id) {
                        assert(before.contains_key(id));
                        let j = choose|j: int| 0 <= j < pre.len() && pre[j].node_id == id;
                        assert(post[j] == pre[j]);
                    }
                }
                assert forall|j: int|
                    0 <= j < post.len() && (forall|j2: int| j < j2 < post.len() ==> post[j2].node_id != post[j].node_id)
                        implies now[#[trigger] post[j].node_id] == post[j] by {
                    if j < i {
                        assert(post[j] == pre[j]);
                        assert(post[i as int].node_id != post[j].node_id);
                        assert forall|j2: int| j < j2 < pre.len() implies pre[j2].node_id != pre[j].node_id by {
                            assert(post[j2] == pre[j2]);
                        }
                    }
                }
                assert forall|id: u64| #[trigger] o.contains_key(id) && !(exists|j: int|
                    0 <= j < post.len() && post[j].node_id == id) implies now[id] == o[id] by {
                    assert(!(exists|j: int| 0 <= j < pre.len() && pre[j].node_id == id)) by {
                        if exists|j: int| 0 <= j < pre.len() && pre[j].node_id == id {
                            let j = choose|j: int| 0 <= j < pre.len() && pre[j].node_id == id;
                            assert(post[j] == pre[j]);
                        }
                    }
                    assert(id != post[i as int].node_id);
                }
            }
            i = i + 1;
        }
        proof {
            assert(nodes@.subrange(0, nodes.len() as int) =~= nodes@);
        }
    }

    /// Applies a decoded cache-update notification.
    pub fn update_cache(&mut self, update: JournalCacheUpdate)
        requires
            old(self).wf(),
        ensures
            final(self).wf(),
            final(self).state() == apply_update(old(self).state(), update),
    {
        let ghost u = update;
        match update {
            JournalCacheUpdate::AddNode(n) => {
                self.node_list.insert(n.node_id, n);
            },
            JournalCacheUpdate::DeleteNode(id) => {
                self.node_list.remove(&id);
            },
            JournalCacheUpdate::AddShard(sh) => {
                self.add_shard(sh);
            },
            JournalCacheUpdate::DeleteShard(sh) => {
                self.delete_shard(&sh.namespace, &sh.shard_name);
            },
            JournalCacheUpdate::AddSegment(sg) => {
                let key = Self::key_of(&sg.namespace, &sg.shard_name);
                let mut inner = match self.segments.remove(&key) {
                    Some(m) => m,
                    None => KeyMap::new(),
                };
                inner.insert(sg.segment_seq as u64, sg);
                self.segments.insert(key, inner);
                proof {
                    assert(self.state().segments =~= apply_update(old(self).state(), u).segments);
                }
            },
            JournalCacheUpdate::DeleteSegment(sg) => {
                let key = Self::key_of(&sg.namespace, &sg.shard_name);
                match self.segments.remove(&key) {
                    Some(mut inner) => {
                        inner.remove(&(sg.segment_seq as u64));
                        self.segments.insert(key, inner);
                        proof {
                            assert(self.state().segments =~= apply_update(old(self).state(), u).segments);
                        }
                    },
                    None => {
                        proof {
                            assert(self.state().segments =~= old(self).state().segments);
                        }
                    },
                }
            },
        }
    }
}

} // verus!
