use vstd::prelude::*;

use crate::common::ClusterType;
use crate::keymap::KeyMap;

verus! {

/// A named broker or journal cluster.
#[derive(Debug)]
pub struct ClusterInfo {
    pub cluster_name: String,
    pub cluster_type: ClusterType,
    pub create_time: u64,
}

impl ClusterInfo {
    pub fn duplicate(&self) -> (r: Self)
        ensures
            r == *self,
    {
        ClusterInfo {
            cluster_name: self.cluster_name.clone(),
            cluster_type: self.cluster_type,
            create_time: self.create_time,
        }
    }
}

/// A process registered in a cluster.
#[derive(Debug)]
pub struct BrokerNode {
    pub cluster_name: String,
    pub cluster_type: ClusterType,
    pub node_id: u64,
    pub node_ip: String,
    pub node_inner_addr: String,
    pub extend: String,
    pub create_time: u64,
}

impl BrokerNode {
    pub fn duplicate(&self) -> (r: Self)
        ensures
            r == *self,
    {
        BrokerNode {
            cluster_name: self.cluster_name.clone(),
            cluster_type: self.cluster_type,
            node_id: self.node_id,
            node_ip: self.node_ip.clone(),
            node_inner_addr: self.node_inner_addr.clone(),
            extend: self.extend.clone(),
            create_time: self.create_time,
        }
    }
}

/// The role of a member of the placement consensus group.
#[derive(Clone, Copy, Debug, PartialEq, Eq, Structural)]
pub enum RaftRole {
    Follower,
    Candidate,
    Leader,
    PreCandidate,
    Learner,
}

impl RaftRole {
    pub fn name(&self) -> (r: String)
        ensures
            r@ == raft_role_name(*self),
    {
        match self {
            RaftRole::Follower => "Follower".to_owned(),
            RaftRole::Candidate => "Candidate".to_owned(),
            RaftRole::Leader => "Leader".to_owned(),
            RaftRole::PreCandidate => "PreCandidate".to_owned(),
            RaftRole::Learner => "Learner".to_owned(),
        }
    }
}

pub open spec fn raft_role_name(r: RaftRole) -> Seq<char> {
    match r {
        RaftRole::Follower => "Follower"@,
        RaftRole::Candidate => "Candidate"@,
        RaftRole::Leader => "Leader"@,
        RaftRole::PreCandidate => "PreCandidate"@,
        RaftRole::Learner => "Learner"@,
    }
}

/// A member of the placement consensus group.
#[derive(Debug)]
pub struct RaftNode {
    pub node_id: u64,
    pub node_addr: String,
}

impl RaftNode {
    pub fn duplicate(&self) -> (r: Self)
        ensures
            r == *self,
    {
        RaftNode { node_id: self.node_id, node_addr: self.node_addr.clone() }
    }
}

/// The local view of the placement consensus group.
pub struct ClusterMetadata {
    pub local: RaftNode,
    pub leader: Option<RaftNode>,
    pub votes: KeyMap<u64, RaftNode>,
    pub members: KeyMap<u64, RaftNode>,
    pub raft_role: RaftRole,
}

impl ClusterMetadata {
    pub open spec fn wf(&self) -> bool {
        self.votes.wf() && self.members.wf()
    }

    /// A fresh view: the local node alone, as a follower with no known leader.
    pub fn new(local: RaftNode) -> (r: Self)
        ensures
            r.wf(),
            r.local == local,
            r.leader.is_none(),
            r.votes@ == Map::<u64, RaftNode>::empty(),
            r.members@ == Map::<u64, RaftNode>::empty(),
            r.raft_role == RaftRole::Follower,
    {
        ClusterMetadata {
            local,
            leader: None,
            votes: KeyMap::new(),
            members: KeyMap::new(),
            raft_role: RaftRole::Follower,
        }
    }
}

/// Copies the nodes of `m` in its insertion order.
fn list_raft_nodes(m: &KeyMap<u64, RaftNode>) -> (r: Vec<RaftNode>)
    requires
        m.wf(),
    ensures
        r@ == m.values_seq(),
        r.len() == m@.len(),
{
    let n = m.len();
    let mut r: Vec<RaftNode> = Vec::new();
    let mut i: usize = 0;
    while i < n
        invariant
            m.wf(),
            n == m.values_seq().len(),
            n == m@.len(),
            i <= n,
            r@ == m.values_seq().subrange(0, i as int),
        decreases n - i,
    {
        r.push(m.value_at(i).duplicate());
        i = i + 1;
    }
    proof {
        assert(r@ =~= m.values_seq());
    }
    r
}

/// Some node of `nodes` lies in cluster `c` and has inner address `addr`.
pub open spec fn addr_in_cluster(nodes: Map<u64, BrokerNode>, c: Seq<char>, addr: Seq<char>) -> bool {
    exists|id: u64| #[trigger]
        nodes.contains_key(id) && nodes[id].cluster_name@ == c && nodes[id].node_inner_addr@ == addr
}

/// The placement center's cache of broker clusters, their nodes, the nodes'
/// last heartbeats, and the local view of the consensus group.
pub struct PlacementCacheManager {
    placement_cluster: Option<ClusterMetadata>,
    cluster_list: KeyMap<String, ClusterInfo>,
    node_list: KeyMap<String, KeyMap<u64, BrokerNode>>,
    node_heartbeat: KeyMap<String, KeyMap<u64, u64>>,
}

/// Relies on std::time::SystemTime: the seconds since the Unix epoch, as the clock reads them.
#[verifier::external_body]
fn now_second() -> (r: u64) {
    std::time::SystemTime::now().duration_since(std::time::UNIX_EPOCH).map(|d| d.as_secs()).unwrap_or(0)
}

impl PlacementCacheManager {
    pub closed spec fn wf(&self) -> bool {
        &&& self.cluster_list.wf()
        &&& self.node_list.wf()
        &&& self.node_heartbeat.wf()
        &&& forall|c: Seq<char>| #[trigger]
            self.node_list@.contains_key(c) ==> self.node_list@[c].wf()
        &&& forall|c: Seq<char>, id: u64|
            self.node_list@.contains_key(c) && #[trigger] self.node_list@[c]@.contains_key(id)
                ==> self.node_list@[c]@[id].cluster_name@ == c && self.node_list@[c]@[id].node_id == id
        &&& forall|c: Seq<char>| #[trigger]
            self.node_heartbeat@.contains_key(c) ==> self.node_heartbeat@[c].wf()
        &&& match self.placement_cluster {
            Some(m) => m.wf(),
            None => true,
        }
    }

    /// The clusters, by name.
    pub closed spec fn clusters(&self) -> Map<Seq<char>, ClusterInfo> {
        self.cluster_list@
    }

    /// The node table: for each cluster that has one, its nodes by id.
    pub closed spec fn node_table(&self) -> Map<Seq<char>, Map<u64, BrokerNode>> {
        self.node_list@.map_values(|m: KeyMap<u64, BrokerNode>| m@)
    }

    /// The heartbeat table: for each cluster that has one, the last-seen time by node id.
    pub closed spec fn heartbeat_table(&self) -> Map<Seq<char>, Map<u64, u64>> {
        self.node_heartbeat@.map_values(|m: KeyMap<u64, u64>| m@)
    }

    /// The nodes of cluster `c` (none when it has no entry).
    pub open spec fn nodes(&self, c: Seq<char>) -> Map<u64, BrokerNode> {
        if self.node_table().contains_key(c) {
            self.node_table()[c]
        } else {
            Map::empty()
        }
    }

    /// The last heartbeats of cluster `c` (none when it has no entry).
    pub open spec fn heartbeats(&self, c: Seq<char>) -> Map<u64, u64> {
        if self.heartbeat_table().contains_key(c) {
            self.heartbeat_table()[c]
        } else {
            Map::empty()
        }
    }

    /// The local view of the consensus group, once loaded.
    pub closed spec fn raft_view(&self) -> Option<&ClusterMetadata> {
        match &self.placement_cluster {
            Some(m) => Some(m),
            None => None,
        }
    }

    pub fn new() -> (r: Self)
        ensures
            r.wf(),
            r.clusters() == Map::<Seq<char>, ClusterInfo>::empty(),
            r.node_table() == Map::<Seq<char>, Map<u64, BrokerNode>>::empty(),
            r.heartbeat_table() == Map::<Seq<char>, Map<u64, u64>>::empty(),
            r.raft_view().is_none(),
    {
        let r = PlacementCacheManager {
            placement_cluster: None,
            cluster_list: KeyMap::new(),
            node_list: KeyMap::new(),
            node_heartbeat: KeyMap::new(),
        };
        proof {
            assert(r.node_table() =~= Map::<Seq<char>, Map<u64, BrokerNode>>::empty());
            assert(r.heartbeat_table() =~= Map::<Seq<char>, Map<u64, u64>>::empty());
        }
        r
    }

    pub fn add_broker_cluster(&mut self, cluster: &ClusterInfo)
        requires
            old(self).wf(),
        ensures
            final(self).wf(),
            final(self).clusters() == old(self).clusters().insert(cluster.cluster_name@, *cluster),
            final(self).node_table() == old(self).node_table(),
            final(self).heartbeat_table() == old(self).heartbeat_table(),
            final(self).raft_view() == old(self).raft_view(),
    {
        self.cluster_list.insert(cluster.cluster_name.clone(), cluster.duplicate());
    }

    /// Records that node `node_id` of `cluster_name` was seen at `time`. The
    /// latest time seen wins, whatever order the reports arrive in.
    pub fn report_heart_by_broker_node(&mut self, cluster_name: &String, node_id: u64, time: u64)
        requires
            old(self).wf(),
        ensures
            final(self).wf(),
            final(self).heartbeat_table() == old(self).heartbeat_table().insert(
                cluster_name@,
                merge_heartbeat(old(self).heartbeats(cluster_name@), node_id, time),
            ),
            final(self).clusters() == old(self).clusters(),
            final(self).node_table() == old(self).node_table(),
            final(self).raft_view() == old(self).raft_view(),
    {
        let ghost old_table = self.node_heartbeat@;
        let mut inner = match self.node_heartbeat.remove(cluster_name) {
            Some(m) => m,
            None => KeyMap::new(),
        };
        let seen = match inner.get(&node_id) {
            Some(prev) => if *prev > time {
                *prev
            } else {
                time
            },
            None => time,
        };
        inner.insert(node_id, seen);
        self.node_heartbeat.insert(cluster_name.clone(), inner);
        proof {
            assert(self.heartbeat_table() =~= old(self).heartbeat_table().insert(
                cluster_name@,
                merge_heartbeat(old(self).heartbeats(cluster_name@), node_id, time),
            ));
        }
    }

    /// Registers `node` in its cluster, seen at `time`.
    pub fn add_broker_node_at(&mut self, node: BrokerNode, time: u64)
        requires
            old(self).wf(),
        ensures
            final(self).wf(),
            final(self).node_table() == old(self).node_table().insert(
                node.cluster_name@,
                old(self).nodes(node.cluster_name@).insert(node.node_id, node),
            ),
            final(self).heartbeat_table() == old(self).heartbeat_table().insert(
                node.cluster_name@,
                merge_heartbeat(old(self).heartbeats(node.cluster_name@), node.node_id, time),
            ),
            final(self).clusters() == old(self).clusters(),
            final(self).raft_view() == old(self).raft_view(),
    {
        self.report_heart_by_broker_node(&node.cluster_name, node.node_id, time);
        let name = node.cluster_name.clone();
        let id = node.node_id;
        let mut inner = match self.node_list.remove(&name) {
            Some(m) => m,
            None => KeyMap::new(),
        };
        inner.insert(id, node);
        self.node_list.insert(name, inner);
        proof {
            assert(self.node_table() =~= old(self).node_table().insert(
                node.cluster_name@,
                old(self).nodes(node.cluster_name@).insert(node.node_id, node),
            ));
        }
    }

    /// Registers `node` in its cluster, seen now.
    pub fn add_broker_node(&mut self, node: BrokerNode)
        requires
            old(self).wf(),
        ensures
            final(self).wf(),
            final(self).node_table() == old(self).node_table().insert(
                node.cluster_name@,
                old(self).nodes(node.cluster_name@).insert(node.node_id, node),
            ),
            exists|t: u64|
                final(self).heartbeat_table() == old(self).heartbeat_table().insert(
                    node.cluster_name@,
                    #[trigger] merge_heartbeat(old(self).heartbeats(node.cluster_name@), node.node_id, t),
                ),
            final(self).clusters() == old(self).clusters(),
            final(self).raft_view() == old(self).raft_view(),
    {
        let t = now_second();
        self.add_broker_node_at(node, t);
    }

    /// Removes node `node_id` of `cluster_name` and its heartbeat. A cluster
    /// with no node entry is left as it is.
    pub fn remove_broker_node(&mut self, cluster_name: &String, node_id: u64) -> (r: Option<(u64, BrokerNode)>)
        requires
            old(self).wf(),
        ensures
            final(self).wf(),
            final(self).clusters() == old(self).clusters(),
            final(self).raft_view() == old(self).raft_view(),
            !old(self).node_table().contains_key(cluster_name@) ==> r.is_none()
                && final(self).node_table() == old(self).node_table()
                && final(self).heartbeat_table() == old(self).heartbeat_table(),
            old(self).node_table().contains_key(cluster_name@) ==> {
                &&& final(self).node_table() == old(self).node_table().insert(
                    cluster_name@,
                    old(self).nodes(cluster_name@).remove(node_id),
                )
                &&& final(self).heartbeat_table() == if old(self).heartbeat_table().contains_key(
                    cluster_name@,
                ) {
                    old(self).heartbeat_table().insert(
                        cluster_name@,
                        old(self).heartbeats(cluster_name@).remove(node_id),
                    )
                } else {
                    old(self).heartbeat_table()
                }
                &&& r == if old(self).nodes(cluster_name@).contains_key(node_id) {
                    Some((node_id, old(self).nodes(cluster_name@)[node_id]))
                } else {
                    None::<(u64, BrokerNode)>
                }
            },
    {
        if !self.node_list.contains_key(cluster_name) {
            return None;
        }
        match self.node_heartbeat.remove(cluster_name) {
            Some(mut hb) => {
                hb.remove(&node_id);
                self.node_heartbeat.insert(cluster_name.clone(), hb);
                proof {
                    assert(self.heartbeat_table() =~= old(self).heartbeat_table().insert(
                        cluster_name@,
                        old(self).heartbeats(cluster_name@).remove(node_id),
                    ));
                }
            },
            None => {
                proof {
                    assert(self.heartbeat_table() =~= old(self).heartbeat_table());
                }
            },
        }
        let mut inner = match self.node_list.remove(cluster_name) {
            Some(m) => m,
            None => KeyMap::new(),
        };
        let removed = inner.remove(&node_id);
        self.node_list.insert(cluster_name.clone(), inner);
        proof {
            assert(self.node_table() =~= old(self).node_table().insert(
                cluster_name@,
                old(self).nodes(cluster_name@).remove(node_id),
            ));
        }
        match removed {
            Some(n) => Some((node_id, n)),
            None => None,
        }
    }

    /// The number of nodes registered in `cluster_name`.
    pub fn get_broker_num(&self, cluster_name: &String) -> (r: usize)
        requires
            self.wf(),
        ensures
            r == self.nodes(cluster_name@).len(),
    {
        match self.node_list.get(cluster_name) {
            Some(m) => m.len(),
            None => 0,
        }
    }

    pub fn get_broker_node(&self, cluster_name: &String, node_id: u64) -> (r: Option<BrokerNode>)
        requires
            self.wf(),
        ensures
            r == if self.nodes(cluster_name@).contains_key(node_id) {
                Some(self.nodes(cluster_name@)[node_id])
            } else {
                None::<BrokerNode>
            },
    {
        match self.node_list.get(cluster_name) {
            Some(m) => match m.get(&node_id) {
                Some(n) => Some(n.duplicate()),
                None => None,
            },
            None => None,
        }
    }

    /// The inner addresses of the nodes of `cluster_name`, one entry per node.
    pub fn get_broker_node_addr_by_cluster(&self, cluster_name: &String) -> (r: Vec<String>)
        requires
            self.wf(),
        ensures
            r.len() == self.nodes(cluster_name@).len(),
            exists|ids: Seq<u64>|
                #![trigger ids.to_set()]
                ids.len() == r.len() && ids.no_duplicates() && ids.to_set() == self.nodes(cluster_name@).dom()
                    && forall|i: int|
                    0 <= i < r.len() ==> r[i]@ == self.nodes(cluster_name@)[#[trigger] ids[i]].node_inner_addr@,
    {
        let mut r: Vec<String> = Vec::new();
        match self.node_list.get(cluster_name) {
            Some(m) => {
                let n = m.len();
                let mut i: usize = 0;
                while i < n
                    invariant
                        m.wf(),
                        m@ == self.nodes(cluster_name@),
                        n == m.values_seq().len(),
                        i <= n,
                        r.len() == i,
                        forall|j: int| 0 <= j < i ==> (#[trigger] r[j])@ == m.values_seq()[j].node_inner_addr@,
                    decreases n - i,
                {
                    r.push(m.value_at(i).node_inner_addr.clone());
                    i = i + 1;
                }
                proof {
                    let ids = m.keys_seq();
                    assert forall|i: int| 0 <= i < r.len() implies r[i]@ == self.nodes(cluster_name@)[#[trigger] ids[i]].node_inner_addr@ by {
                        assert(m@[ids[i]] == m.values_seq()[i]);
                    }
                    assert(ids.len() == r.len() && ids.no_duplicates() && ids.to_set() == self.nodes(cluster_name@).dom());
                }
            },
            None => {
                proof {
                    let ids = Seq::<u64>::empty();
                    assert(ids.to_set() =~= self.nodes(cluster_name@).dom());
                }
            },
        }
        r
    }

    /// Fills the cache from the stored clusters and nodes, and starts the local
    /// view of the consensus group with `local` alone. Of several records with
    /// one key the last one wins; every loaded node gets a heartbeat at `time`.
    pub fn load_cache(&mut self, clusters: &Vec<ClusterInfo>, nodes: &Vec<BrokerNode>, local: RaftNode, time: u64)
        requires
            old(self).wf(),
        ensures
            final(self).wf(),
            forall|j: int| 0 <= j < clusters.len() ==> #[trigger] final(self).clusters().contains_key(
                clusters[j].cluster_name@,
            ),
            forall|j: int|
                0 <= j < clusters.len() && (forall|j2: int|
                    j < j2 < clusters.len() ==> clusters[j2].cluster_name@ != clusters[j].cluster_name@)
                    ==> final(self).clusters()[#[trigger] clusters[j].cluster_name@] == clusters[j],
            forall|j: int|
                0 <= j < nodes.len() ==> #[trigger] final(self).nodes(nodes[j].cluster_name@).contains_key(
                    nodes[j].node_id,
                ) && final(self).heartbeats(nodes[j].cluster_name@).contains_key(nodes[j].node_id),
            forall|j: int|
                0 <= j < nodes.len() && (forall|j2: int|
                    j < j2 < nodes.len() ==> !same_node_key(nodes[j2], nodes[j]))
                    ==> final(self).nodes(nodes[j].cluster_name@)[#[trigger] nodes[j].node_id] == nodes[j],
            final(self).raft_view() matches Some(m) && m.local == local && m.leader.is_none()
                && m.votes@ == Map::<u64, RaftNode>::empty() && m.members@ == Map::<u64, RaftNode>::empty()
                && m.raft_role == RaftRole::Follower,
    {
        let mut i: usize = 0;
        while i < clusters.len()
            invariant
                self.wf(),
                i <= clusters.len(),
                forall|j: int| 0 <= j < i ==> #[trigger] self.clusters().contains_key(
                    clusters[j].cluster_name@,
                ),
                forall|j: int|
                    0 <= j < i && (forall|j2: int|
                        j < j2 < i ==> clusters[j2].cluster_name@ != clusters[j].cluster_name@)
                        ==> self.clusters()[#[trigger] clusters[j].cluster_name@] == clusters[j],
            decreases clusters.len() - i,
        {
            self.add_broker_cluster(&clusters[i]);
            proof {
                assert forall|j: int|
                    0 <= j < i + 1 && (forall|j2: int|
                        j < j2 < i + 1 ==> clusters[j2].cluster_name@ != clusters[j].cluster_name@)
                        implies self.clusters()[#[trigger] clusters[j].cluster_name@] == clusters[j] by {
                    if j < i {
                        assert(clusters[i as int].cluster_name@ != clusters[j].cluster_name@);
                    }
                }
            }
            i = i + 1;
        }
        let ghost loaded = self.clusters();
        let mut i: usize = 0;
        while i < nodes.len()
            invariant
                self.wf(),
                i <= nodes.len(),
                self.clusters() == loaded,
                forall|j: int| 0 <= j < clusters.len() ==> #[trigger] loaded.contains_key(
                    clusters[j].cluster_name@,
                ),
                forall|j: int|
                    0 <= j < clusters.len() && (forall|j2: int|
                        j < j2 < clusters.len() ==> clusters[j2].cluster_name@ != clusters[j].cluster_name@)
                        ==> loaded[#[trigger] clusters[j].cluster_name@] == clusters[j],
                forall|j: int|
                    0 <= j < i ==> #[trigger] self.nodes(nodes[j].cluster_name@).contains_key(nodes[j].node_id)
                        && self.heartbeats(nodes[j].cluster_name@).contains_key(nodes[j].node_id),
                forall|j: int|
                    0 <= j < i && (forall|j2: int| j < j2 < i ==> !same_node_key(nodes[j2], nodes[j]))
                        ==> self.nodes(nodes[j].cluster_name@)[#[trigger] nodes[j].node_id] == nodes[j],
            decreases nodes.len() - i,
        {
            let ghost before = *self;
            self.add_broker_node_at(nodes[i].duplicate(), time);
            proof {
                assert forall|j: int| 0 <= j < i + 1 implies #[trigger] self.nodes(
                    nodes[j].cluster_name@,
                ).contains_key(nodes[j].node_id) && self.heartbeats(nodes[j].cluster_name@).contains_key(
                    nodes[j].node_id,
                ) by {
                    let ci = nodes[i as int].cluster_name@;
                    assert(self.heartbeats(ci) == merge_heartbeat(before.heartbeats(ci), nodes[i as int].node_id, time));
                    assert(self.nodes(ci) == before.nodes(ci).insert(nodes[i as int].node_id, nodes[i as int]));
                    if j < i && nodes[j].cluster_name@ != ci {
                        assert(self.nodes(nodes[j].cluster_name@) == before.nodes(nodes[j].cluster_name@));
                        assert(self.heartbeats(nodes[j].cluster_name@) == before.heartbeats(nodes[j].cluster_name@));
                    }
                }
                assert forall|j: int|
                    0 <= j < i + 1 && (forall|j2: int| j < j2 < i + 1 ==> !same_node_key(nodes[j2], nodes[j]))
                        implies self.nodes(nodes[j].cluster_name@)[#[trigger] nodes[j].node_id] == nodes[j] by {
                    if j < i {
                        assert(!same_node_key(nodes[i as int], nodes[j]));
                        if nodes[j].cluster_name@ != nodes[i as int].cluster_name@ {
                            assert(self.nodes(nodes[j].cluster_name@) == before.nodes(nodes[j].cluster_name@));
                        }
                    }
                }
            }
            i = i + 1;
        }
        let ghost before = *self;
        self.placement_cluster = Some(ClusterMetadata::new(local));
        proof {
            assert(self.node_table() == before.node_table());
            assert(self.heartbeat_table() == before.heartbeat_table());
            assert forall|j: int| 0 <= j < nodes.len() implies #[trigger] self.nodes(
                nodes[j].cluster_name@,
            ).contains_key(nodes[j].node_id) && self.heartbeats(nodes[j].cluster_name@).contains_key(
                nodes[j].node_id,
            ) by {
                assert(before.nodes(nodes[j].cluster_name@).contains_key(nodes[j].node_id));
                assert(before.heartbeats(nodes[j].cluster_name@).contains_key(nodes[j].node_id));
            }
        }
    }

    /// Adds `node` to the members and voters of the consensus group.
    pub fn add_raft_memner(&mut self, node: RaftNode)
        requires
            old(self).wf(),
        ensures
            final(self).wf(),
            final(self).clusters() == old(self).clusters(),
            final(self).node_table() == old(self).node_table(),
            final(self).heartbeat_table() == old(self).heartbeat_table(),
            match old(self).raft_view() {
                Some(m) => final(self).raft_view() matches Some(m2) && m2.members@ == m.members@.insert(
                    node.node_id,
                    node,
                ) && m2.votes@ == m.votes@.insert(node.node_id, node) && m2.local == m.local
                    && m2.leader == m.leader && m2.raft_role == m.raft_role,
                None => final(self).raft_view().is_none(),
            },
    {
        match self.placement_cluster.take() {
            Some(mut m) => {
                m.votes.insert(node.node_id, node.duplicate());
                m.members.insert(node.node_id, node);
                self.placement_cluster = Some(m);
            },
            None => {},
        }
    }

    /// Removes member `id` from the members and voters of the consensus group.
    pub fn remove_raft_memner(&mut self, id: u64)
        requires
            old(self).wf(),
        ensures
            final(self).wf(),
            final(self).clusters() == old(self).clusters(),
            final(self).node_table() == old(self).node_table(),
            final(self).heartbeat_table() == old(self).heartbeat_table(),
            match old(self).raft_view() {
                Some(m) => final(self).raft_view() matches Some(m2) && m2.members@ == m.members@.remove(id)
                    && m2.votes@ == m.votes@.remove(id) && m2.local == m.local && m2.leader == m.leader
                    && m2.raft_role == m.raft_role,
                None => final(self).raft_view().is_none(),
            },
    {
        match self.placement_cluster.take() {
            Some(mut m) => {
                m.votes.remove(&id);
                m.members.remove(&id);
                self.placement_cluster = Some(m);
            },
            None => {},
        }
    }

    /// The voters of the consensus group, in the order they were added.
    pub fn get_raft_votes(&self) -> (r: Vec<RaftNode>)
        requires
            self.wf(),
        ensures
            match self.raft_view() {
                Some(m) => r@ == m.votes.values_seq(),
                None => r@ == Seq::<RaftNode>::empty(),
            },
    {
        match &self.placement_cluster {
            Some(m) => list_raft_nodes(&m.votes),
            None => Vec::new(),
        }
    }

    /// The members of the consensus group, in the order they were added.
    pub fn get_raft_members(&self) -> (r: Vec<RaftNode>)
        requires
            self.wf(),
        ensures
            match self.raft_view() {
                Some(m) => r@ == m.members.values_seq(),
                None => r@ == Seq::<RaftNode>::empty(),
            },
    {
        match &self.placement_cluster {
            Some(m) => list_raft_nodes(&m.members),
            None => Vec::new(),
        }
    }

    pub fn get_votes_node_by_id(&self, node_id: u64) -> (r: Option<RaftNode>)
        requires
            self.wf(),
        ensures
            r == match self.raft_view() {
                Some(m) => if m.votes@.contains_key(node_id) {
                    Some(m.votes@[node_id])
                } else {
                    None::<RaftNode>
                },
                None => None::<RaftNode>,
            },
    {
        match &self.placement_cluster {
            Some(m) => match m.votes.get(&node_id) {
                Some(n) => Some(n.duplicate()),
                None => None,
            },
            None => None,
        }
    }

    /// Whether `new_role` differs from the cached local role; false before the view is loaded.
    pub fn is_raft_role_change(&self, new_role: RaftRole) -> (r: bool)
        requires
            self.wf(),
        ensures
            r == match self.raft_view() {
                Some(m) => m.raft_role != new_role,
                None => false,
            },
    {
        match &self.placement_cluster {
            Some(m) => m.raft_role != new_role,
            None => false,
        }
    }

    pub fn is_leader(&self) -> (r: bool)
        requires
            self.wf(),
        ensures
            r == (self.raft_view() matches Some(m) && m.raft_role == RaftRole::Leader),
    {
        match &self.placement_cluster {
            Some(m) => m.raft_role == RaftRole::Leader,
            None => false,
        }
    }

    pub fn get_raft_leader(&self) -> (r: Option<RaftNode>)
        requires
            self.wf(),
        ensures
            r == match self.raft_view() {
                Some(m) => m.leader,
                None => None::<RaftNode>,
            },
    {
        match &self.placement_cluster {
            Some(m) => match &m.leader {
                Some(l) => Some(l.duplicate()),
                None => None,
            },
            None => None,
        }
    }

    pub fn get_raft_local_node(&self) -> (r: Option<RaftNode>)
        requires
            self.wf(),
        ensures
            r == match self.raft_view() {
                Some(m) => Some(m.local),
                None => None::<RaftNode>,
            },
    {
        match &self.placement_cluster {
            Some(m) => Some(m.local.duplicate()),
            None => None,
        }
    }

    /// The name of the cached local role; empty before the view is loaded.
    pub fn get_current_raft_role(&self) -> (r: String)
        requires
            self.wf(),
        ensures
            r@ == match self.raft_view() {
                Some(m) => raft_role_name(m.raft_role),
                None => Seq::<char>::empty(),
            },
    {
        match &self.placement_cluster {
            Some(m) => m.raft_role.name(),
            None => String::new(),
        }
    }

    /// Sets the local role; a positive `leader_id` that names a voter becomes the leader.
    pub fn update_raft_role(&mut self, local_new_role: RaftRole, leader_id: u64)
        requires
            old(self).wf(),
        ensures
            final(self).wf(),
            final(self).clusters() == old(self).clusters(),
            final(self).node_table() == old(self).node_table(),
            final(self).heartbeat_table() == old(self).heartbeat_table(),
            match old(self).raft_view() {
                Some(m) => final(self).raft_view() matches Some(m2) && m2.raft_role == local_new_role
                    && m2.leader == if leader_id > 0 && m.votes@.contains_key(leader_id) {
                    Some(m.votes@[leader_id])
                } else {
                    m.leader
                } && m2.votes@ == m.votes@ && m2.members@ == m.members@ && m2.local == m.local,
                None => final(self).raft_view().is_none(),
            },
    {
        match self.placement_cluster.take() {
            Some(mut m) => {
                m.raft_role = local_new_role;
                if leader_id > 0 {
                    match m.votes.get(&leader_id) {
                        Some(l) => {
                            m.leader = Some(l.duplicate());
                        },
                        None => {},
                    }
                }
                self.placement_cluster = Some(m);
            },
            None => {},
        }
    }

    /// The ids of the nodes of `cluster_name`.
    pub fn get_broker_node_id_by_cluster(&self, cluster_name: &String) -> (r: Vec<u64>)
        requires
            self.wf(),
        ensures
            r.len() <= self.nodes(cluster_name@).len(),
            forall|i: int| 0 <= i < r.len() ==> self.nodes(cluster_name@).contains_key(#[trigger] r[i]),
            forall|id: u64| #[trigger]
                self.nodes(cluster_name@).contains_key(id) ==> exists|i: int| 0 <= i < r.len() && r[i] == id,
    {
        let mut r: Vec<u64> = Vec::new();
        match self.node_list.get(cluster_name) {
            Some(m) => {
                let n = m.len();
                let mut i: usize = 0;
                while i < n
                    invariant
                        m.wf(),
                        self.wf(),
                        self.node_list@.contains_key(cluster_name@),
                        *m == self.node_list@[cluster_name@],
                        m@ == self.nodes(cluster_name@),
                        n == m.values_seq().len(),
                        n == m@.len(),
                        i <= n,
                        r.len() <= i,
                        forall|j: int| 0 <= j < r.len() ==> m@.contains_key(#[trigger] r[j]),
                        forall|j: int|
                            0 <= j < i && (#[trigger] m.values_seq()[j]).cluster_name@ == cluster_name@
                                ==> exists|t: int| 0 <= t < r.len() && r[t] == m.values_seq()[j].node_id,
                    decreases n - i,
                {
                    let node = m.value_at(i);
                    let ghost r0 = r@;
                    if node.cluster_name == *cluster_name {
                        r.push(node.node_id);
                        proof {
                            let k = choose|k: u64| #[trigger] m@.contains_key(k) && m@[k] == *node;
                            assert(self.node_list@.contains_key(cluster_name@));
                            assert(self.node_list@[cluster_name@]@.contains_key(k));
                            assert(k == node.node_id);
                            assert(m@.contains_key(r[r.len() - 1]));
                            assert forall|j: int|
                                0 <= j < i + 1 && (#[trigger] m.values_seq()[j]).cluster_name@
                                    == cluster_name@ implies exists|t: int|
                                0 <= t < r.len() && r[t] == m.values_seq()[j].node_id by {
                                if j < i {
                                    let t = choose|t: int|
                                        0 <= t < r0.len() && r0[t] == m.values_seq()[j].node_id;
                                    assert(r[t] == r0[t]);
                                } else {
                                    assert(r[r.len() - 1] == m.values_seq()[j].node_id);
                                }
                            }
                        }
                    }
                    i = i + 1;
                }
                proof {
                    assert forall|id: u64| #[trigger] m@.contains_key(id) implies exists|t: int|
                        0 <= t < r.len() && r[t] == id by {
                        let j = choose|j: int| 0 <= j < m.values_seq().len() && m.values_seq()[j] == m@[id];
                        assert(self.node_list@[cluster_name@]@.contains_key(id));
                        assert(m.values_seq()[j].cluster_name@ == cluster_name@);
                        assert(m.values_seq()[j].node_id == id);
                    }
                }
            },
            None => {},
        }
        r
    }

    /// The last time node `node_id` of `cluster_name` was seen, if ever.
    pub fn get_heartbeat(&self, cluster_name: &String, node_id: u64) -> (r: Option<u64>)
        requires
            self.wf(),
        ensures
            r == if self.heartbeats(cluster_name@).contains_key(node_id) {
                Some(self.heartbeats(cluster_name@)[node_id])
            } else {
                None::<u64>
            },
    {
        match self.node_heartbeat.get(cluster_name) {
            Some(m) => match m.get(&node_id) {
                Some(t) => Some(*t),
                None => None,
            },
            None => None,
        }
    }
}

/// `a` and `b` are keyed alike in the node table: same cluster, same id.
pub open spec fn same_node_key(a: BrokerNode, b: BrokerNode) -> bool {
    a.cluster_name@ == b.cluster_name@ && a.node_id == b.node_id
}

/// The heartbeats after node `id` reports time `t` to table `hb`: the later
/// of the recorded time and `t`.
pub open spec fn merge_heartbeat(hb: Map<u64, u64>, id: u64, t: u64) -> Map<u64, u64> {
    hb.insert(
        id,
        if hb.contains_key(id) && hb[id] > t {
            hb[id]
        } else {
            t
        },
    )
}

/// Two heartbeat reports for one node, in either order: the later time is
/// the one observed.
pub proof fn lemma_heartbeat_later_time_wins(hb: Map<u64, u64>, id: u64, t1: u64, t2: u64)
    requires
        t1 < t2,
    ensures
        merge_heartbeat(merge_heartbeat(hb, id, t1), id, t2)[id] >= t2,
        merge_heartbeat(merge_heartbeat(hb, id, t2), id, t1)[id] >= t2,
        merge_heartbeat(merge_heartbeat(hb, id, t1), id, t2) == merge_heartbeat(merge_heartbeat(hb, id, t2), id, t1),
        !hb.contains_key(id) || hb[id] <= t2 ==> merge_heartbeat(merge_heartbeat(hb, id, t2), id, t1)[id] == t2,
{
    assert(merge_heartbeat(merge_heartbeat(hb, id, t1), id, t2) =~= merge_heartbeat(merge_heartbeat(hb, id, t2), id, t1));
}

} // verus!
