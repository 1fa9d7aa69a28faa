use vstd::prelude::*;

use crate::keymap::KeyMap;

verus! {

#[derive(Clone, Copy, Debug, PartialEq, Eq, Structural)]
pub enum MetadataCacheAction {
    Put,
    Del,
}

#[derive(Clone, Copy, Debug, PartialEq, Eq, Structural)]
pub enum MetadataCacheType {
    Cluster,
    User,
    Topic,
}

/// A change to the broker's metadata, with its record encoded in `value`.
#[derive(Debug)]
pub struct MetadataChangeData {
    pub action: MetadataCacheAction,
    pub data_type: MetadataCacheType,
    pub value: String,
}

/// The broker's idempotence store for QoS 2 deliveries; it holds nothing yet.
#[derive(Debug)]
pub struct IdempotentPersistence {}

impl IdempotentPersistence {
    pub fn new() -> (r: Self)
        ensures
            r == (IdempotentPersistence {}),
    {
        IdempotentPersistence {}
    }
}

/// The broker cluster's configuration.
#[derive(Debug)]
pub struct Cluster {
    pub session_expiry_interval: u32,
}

/// The session expiry of a cluster with no stored configuration, in seconds.
pub const DEFAULT_SESSION_EXPIRY_INTERVAL: u32 = 1800;

impl Cluster {
    /// The configuration of a cluster that has none stored.
    pub fn new() -> (r: Self)
        ensures
            r.session_expiry_interval == DEFAULT_SESSION_EXPIRY_INTERVAL,
    {
        Cluster { session_expiry_interval: DEFAULT_SESSION_EXPIRY_INTERVAL }
    }
}

#[derive(Debug)]
pub struct User {
    pub username: String,
    pub password: String,
    pub is_superuser: bool,
}

impl User {
    pub fn duplicate(&self) -> (r: Self)
        ensures
            r == *self,
    {
        User {
            username: self.username.clone(),
            password: self.password.clone(),
            is_superuser: self.is_superuser,
        }
    }
}

#[derive(Debug)]
pub struct Topic {
    pub topic_id: String,
    pub topic_name: String,
}

impl Topic {
    pub fn duplicate(&self) -> (r: Self)
        ensures
            r == *self,
    {
        Topic { topic_id: self.topic_id.clone(), topic_name: self.topic_name.clone() }
    }
}

/// A client's session.
#[derive(Debug)]
pub struct Session {
    pub client_id: String,
    pub session_expiry: u64,
    pub is_contain_last_will: bool,
    pub last_will_delay_interval: Option<u64>,
    pub connection_id: Option<u64>,
    pub broker_id: Option<u64>,
    pub reconnect_time: Option<u64>,
}

impl Session {
    /// A fresh session, not yet bound to a connection.
    pub fn new(client_id: String, session_expiry: u64, is_contain_last_will: bool, last_will_delay_interval: Option<u64>) -> (r: Self)
        ensures
            r == (Session {
                client_id,
                session_expiry,
                is_contain_last_will,
                last_will_delay_interval,
                connection_id: None,
                broker_id: None,
                reconnect_time: None,
            }),
    {
        Session {
            client_id,
            session_expiry,
            is_contain_last_will,
            last_will_delay_interval,
            connection_id: None,
            broker_id: None,
            reconnect_time: None,
        }
    }

    /// Binds the session to connection `connect_id` on broker `broker_id`, at `now`.
    pub fn bind(&mut self, connect_id: u64, broker_id: u64, now: u64)
        ensures
            *final(self) == (Session {
                connection_id: Some(connect_id),
                broker_id: Some(broker_id),
                reconnect_time: Some(now),
                ..*old(self)
            }),
    {
        self.connection_id = Some(connect_id);
        self.broker_id = Some(broker_id);
        self.reconnect_time = Some(now);
    }
}

/// The session a connecting client gets, and whether it is new: a client that
/// asks to keep its state resumes the stored session when there is one; any
/// other client gets a fresh session.
pub fn build_session(
    client_id: &String,
    keep_state: bool,
    stored: Option<Session>,
    session_expiry: u64,
    is_contain_last_will: bool,
    last_will_delay_interval: Option<u64>,
) -> (r: (Session, bool))
    ensures
        keep_state && stored.is_some() ==> r == (stored->0, false),
        !(keep_state && stored.is_some()) ==> r == (Session {
            client_id: *client_id,
            session_expiry,
            is_contain_last_will,
            last_will_delay_interval,
            connection_id: None,
            broker_id: None,
            reconnect_time: None,
        }, true),
{
    if keep_state {
        match stored {
            Some(s) => {
                return (s, false);
            },
            None => {},
        }
    }
    (Session::new(client_id.clone(), session_expiry, is_contain_last_will, last_will_delay_interval), true)
}

/// A client connection, with its login state and its topic aliases.
pub struct Connection {
    pub connect_id: u64,
    pub client_id: String,
    pub login: bool,
    pub topic_alias: KeyMap<u64, String>,
}

/// Holds of every packet id but `p`.
pub open spec fn other_than(p: u16) -> spec_fn(u16) -> bool {
    |x: u16| x != p
}

/// The MQTT protocol version a client speaks.
#[derive(Clone, Copy, Debug, PartialEq, Eq, Structural)]
pub enum MqttProtocol {
    Mqtt3,
    Mqtt4,
    Mqtt5,
}

/// One SUBSCRIBE packet of a client, as the cache keeps it.
#[derive(Debug)]
pub struct SubscribeData {
    pub protocol: MqttProtocol,
    pub packet_identifier: u16,
    pub filters: Vec<String>,
    pub subscription_identifier: Option<u64>,
}

/// The largest MQTT packet identifier.
pub const MAX_PKID: u16 = 65535;

fn contains_pkid(v: &Vec<u16>, p: u16) -> (r: bool)
    ensures
        r == v@.contains(p),
{
    let mut i: usize = 0;
    while i < v.len()
        invariant
            i <= v.len(),
            forall|j: int| 0 <= j < i ==> v@[j] != p,
        decreases v.len() - i,
    {
        if v[i] == p {
            return true;
        }
        i = i + 1;
    }
    false
}

/// The lowest packet id in `1..=MAX_PKID` that `used` does not hold.
fn lowest_free_pkid(used: &Vec<u16>) -> (r: Option<u16>)
    ensures
        match r {
            Some(p) => 1 <= p && !used@.contains(p) && forall|q: u16| 1 <= q < p ==> used@.contains(q),
            None => forall|q: u16| 1 <= q ==> used@.contains(q),
        },
{
    let mut p: u16 = 1;
    loop
        invariant
            1 <= p,
            forall|q: u16| 1 <= q < p ==> used@.contains(q),
        decreases MAX_PKID - p,
    {
        if !contains_pkid(used, p) {
            return Some(p);
        }
        if p == MAX_PKID {
            return None;
        }
        p = p + 1;
    }
}

/// The parts of the broker cache that an operation may change.
#[derive(Clone, Copy, Debug, PartialEq, Eq, Structural)]
pub enum CachePart {
    Cluster,
    Users,
    Topics,
    Sessions,
    Connections,
    Subscriptions,
    PacketIds,
}

/// The MQTT broker's cache of its cluster, users, topics, sessions,
/// connections and the packet ids in use per client.
pub struct MetadataCacheManager {
    cluster_name: String,
    cluster_info: KeyMap<String, Cluster>,
    user_info: KeyMap<String, User>,
    session_info: KeyMap<String, Session>,
    connection_info: KeyMap<u64, Connection>,
    topic_info: KeyMap<String, Topic>,
    topic_id_name: KeyMap<String, String>,
    publish_pkid_info: KeyMap<String, Vec<u16>>,
    subscribe_filter: KeyMap<String, KeyMap<u64, SubscribeData>>,
}

impl MetadataCacheManager {
    pub closed spec fn wf(&self) -> bool {
        &&& self.cluster_info.wf()
        &&& self.user_info.wf()
        &&& self.session_info.wf()
        &&& self.connection_info.wf()
        &&& self.topic_info.wf()
        &&& self.topic_id_name.wf()
        &&& self.publish_pkid_info.wf()
        &&& self.subscribe_filter.wf()
        &&& forall|c: Seq<char>| #[trigger]
            self.subscribe_filter@.contains_key(c) ==> self.subscribe_filter@[c].wf()
        &&& forall|c: u64| #[trigger]
            self.connection_info@.contains_key(c) ==> self.connection_info@[c].topic_alias.wf()
    }

    /// `self` and `o` agree on every part of the cache outside `parts`.
    pub open spec fn agrees_outside(&self, o: &Self, parts: Set<CachePart>) -> bool {
        &&& self.name() == o.name()
        &&& (!parts.contains(CachePart::Cluster) ==> self.cluster() == o.cluster())
        &&& (!parts.contains(CachePart::Users) ==> self.users() == o.users())
        &&& (!parts.contains(CachePart::Topics) ==> self.topics() == o.topics() && self.topic_names() == o.topic_names())
        &&& (!parts.contains(CachePart::Sessions) ==> self.sessions() == o.sessions())
        &&& (!parts.contains(CachePart::Connections) ==> self.connections() == o.connections())
        &&& (!parts.contains(CachePart::Subscriptions) ==> self.subscriptions() == o.subscriptions())
        &&& (!parts.contains(CachePart::PacketIds) ==> self.pkids() == o.pkids())
    }

    /// The name of the broker's own cluster.
    pub closed spec fn name(&self) -> Seq<char> {
        self.cluster_name@
    }

    pub closed spec fn users(&self) -> Map<Seq<char>, User> {
        self.user_info@
    }

    pub closed spec fn topics(&self) -> Map<Seq<char>, Topic> {
        self.topic_info@
    }

    pub closed spec fn topic_names(&self) -> Map<Seq<char>, String> {
        self.topic_id_name@
    }

    pub closed spec fn sessions(&self) -> Map<Seq<char>, Session> {
        self.session_info@
    }

    pub closed spec fn connections(&self) -> Map<u64, Connection> {
        self.connection_info@
    }

    pub closed spec fn cluster(&self) -> Option<Cluster> {
        if self.cluster_info@.contains_key(self.cluster_name@) {
            Some(self.cluster_info@[self.cluster_name@])
        } else {
            None
        }
    }

    /// The subscriptions of each client, by packet id.
    pub closed spec fn subscriptions(&self) -> Map<Seq<char>, Map<u64, SubscribeData>> {
        self.subscribe_filter@.map_values(|m: KeyMap<u64, SubscribeData>| m@)
    }

    /// The subscriptions of client `c` (none when it has no entry).
    pub open spec fn subscriptions_of(&self, c: Seq<char>) -> Map<u64, SubscribeData> {
        if self.subscriptions().contains_key(c) {
            self.subscriptions()[c]
        } else {
            Map::empty()
        }
    }

    /// The packet ids in use by each client.
    pub closed spec fn pkids(&self) -> Map<Seq<char>, Seq<u16>> {
        self.publish_pkid_info@.map_values(|v: Vec<u16>| v@)
    }

    /// The packet ids in use by client `c` (none when it has no entry).
    pub open spec fn pkids_of(&self, c: Seq<char>) -> Seq<u16> {
        if self.pkids().contains_key(c) {
            self.pkids()[c]
        } else {
            Seq::empty()
        }
    }

    pub fn new(cluster_name: String) -> (r: Self)
        ensures
            r.wf(),
            r.name() == cluster_name@,
            r.cluster().is_none(),
            r.users() == Map::<Seq<char>, User>::empty(),
            r.topics() == Map::<Seq<char>, Topic>::empty(),
            r.sessions() == Map::<Seq<char>, Session>::empty(),
            r.connections() == Map::<u64, Connection>::empty(),
            r.pkids() == Map::<Seq<char>, Seq<u16>>::empty(),
            r.subscriptions() == Map::<Seq<char>, Map<u64, SubscribeData>>::empty(),
    {
        let r = MetadataCacheManager {
            cluster_name,
            cluster_info: KeyMap::new(),
            user_info: KeyMap::new(),
            session_info: KeyMap::new(),
            connection_info: KeyMap::new(),
            topic_info: KeyMap::new(),
            topic_id_name: KeyMap::new(),
            publish_pkid_info: KeyMap::new(),
            subscribe_filter: KeyMap::new(),
        };
        proof {
            assert(r.pkids() =~= Map::<Seq<char>, Seq<u16>>::empty());
            assert(r.subscriptions() =~= Map::<Seq<char>, Map<u64, SubscribeData>>::empty());
        }
        r
    }

    pub fn set_cluster_info(&mut self, cluster: Cluster)
        requires
            old(self).wf(),
        ensures
            final(self).wf(),
            final(self).agrees_outside(old(self), set![CachePart::Cluster]),
            final(self).cluster() == Some(cluster),
    {
        self.cluster_info.insert(self.cluster_name.clone(), cluster);
    }

    /// The cluster's configuration, once set.
    pub fn get_cluster_info(&self) -> (r: Option<&Cluster>)
        requires
            self.wf(),
        ensures
            match r {
                Some(c) => self.cluster() == Some(*c),
                None => self.cluster().is_none(),
            },
    {
        self.cluster_info.get(&self.cluster_name)
    }

    pub fn add_user(&mut self, user: User)
        requires
            old(self).wf(),
        ensures
            final(self).wf(),
            final(self).agrees_outside(old(self), set![CachePart::Users]),
            final(self).users() == old(self).users().insert(user.username@, user),
    {
        self.user_info.insert(user.username.clone(), user);
    }

    pub fn del_user(&mut self, username: &String)
        requires
            old(self).wf(),
        ensures
            final(self).wf(),
            final(self).agrees_outside(old(self), set![CachePart::Users]),
            final(self).users() == old(self).users().remove(username@),
    {
        self.user_info.remove(username);
    }

    /// Applies a decoded user change; changes of other kinds carry nothing to cache.
    pub fn apply(&mut self, action: MetadataCacheAction, data_type: MetadataCacheType, user: User)
        requires
            old(self).wf(),
        ensures
            final(self).wf(),
            final(self).agrees_outside(old(self), set![CachePart::Users]),
            final(self).users() == match (data_type, action) {
                (MetadataCacheType::User, MetadataCacheAction::Put) => old(self).users().insert(user.username@, user),
                (MetadataCacheType::User, MetadataCacheAction::Del) => old(self).users().remove(user.username@),
                _ => old(self).users(),
            },
    {
        match data_type {
            MetadataCacheType::User => match action {
                MetadataCacheAction::Put => self.add_user(user),
                MetadataCacheAction::Del => self.del_user(&user.username),
            },
            _ => {},
        }
    }

    pub fn add_session(&mut self, client_id: String, session: Session)
        requires
            old(self).wf(),
        ensures
            final(self).wf(),
            final(self).agrees_outside(old(self), set![CachePart::Sessions]),
            final(self).sessions() == old(self).sessions().insert(client_id@, session),
    {
        self.session_info.insert(client_id, session);
    }

    pub fn add_connection(&mut self, connect_id: u64, conn: Connection)
        requires
            old(self).wf(),
            conn.topic_alias.wf(),
        ensures
            final(self).wf(),
            final(self).agrees_outside(old(self), set![CachePart::Connections]),
            final(self).connections() == old(self).connections().insert(connect_id, conn),
    {
        self.connection_info.insert(connect_id, conn);
    }

    pub fn add_topic(&mut self, topic_name: &String, topic: &Topic)
        requires
            old(self).wf(),
        ensures
            final(self).wf(),
            final(self).agrees_outside(old(self), set![CachePart::Topics]),
            final(self).topics() == old(self).topics().insert(topic_name@, *topic),
            final(self).topic_names() == old(self).topic_names().insert(topic.topic_id@, *topic_name),
    {
        self.topic_info.insert(topic_name.clone(), topic.duplicate());
        self.topic_id_name.insert(topic.topic_id.clone(), topic_name.clone());
    }

    /// Marks the connection as logged in; an unknown connection is left alone.
    pub fn login_success(&mut self, connect_id: u64)
        requires
            old(self).wf(),
        ensures
            final(self).wf(),
            final(self).agrees_outside(old(self), set![CachePart::Connections]),
            final(self).connections().dom() == old(self).connections().dom(),
            old(self).connections().contains_key(connect_id) ==> final(self).connections()[connect_id].login,
            forall|c: u64| #[trigger]
                old(self).connections().contains_key(c) && c != connect_id ==> final(self).connections()[c]
                    == old(self).connections()[c],
    {
        match self.connection_info.remove(&connect_id) {
            Some(mut conn) => {
                conn.login = true;
                self.connection_info.insert(connect_id, conn);
                proof {
                    assert(self.connections().dom() =~= old(self).connections().dom());
                }
            },
            None => {
                proof {
                    assert(self.connection_info@ =~= old(self).connection_info@);
                }
            },
        }
    }

    pub fn is_login(&self, connect_id: u64) -> (r: bool)
        requires
            self.wf(),
        ensures
            r == (self.connections().contains_key(connect_id) && self.connections()[connect_id].login),
    {
        match self.connection_info.get(&connect_id) {
            Some(conn) => conn.login,
            None => false,
        }
    }

    pub fn topic_exists(&self, topic: &String) -> (r: bool)
        requires
            self.wf(),
        ensures
            r == self.topics().contains_key(topic@),
    {
        self.topic_info.contains_key(topic)
    }

    pub fn topic_name_by_id(&self, topic_id: &String) -> (r: Option<String>)
        requires
            self.wf(),
        ensures
            r == if self.topic_names().contains_key(topic_id@) {
                Some(self.topic_names()[topic_id@])
            } else {
                None::<String>
            },
    {
        match self.topic_id_name.get(topic_id) {
            Some(n) => Some(n.clone()),
            None => None,
        }
    }

    pub fn get_topic_by_name(&self, topic_name: &String) -> (r: Option<Topic>)
        requires
            self.wf(),
        ensures
            r == if self.topics().contains_key(topic_name@) {
                Some(self.topics()[topic_name@])
            } else {
                None::<Topic>
            },
    {
        match self.topic_info.get(topic_name) {
            Some(t) => Some(t.duplicate()),
            None => None,
        }
    }

    /// Forgets a connection and everything the client held through it.
    pub fn remove_connection(&mut self, connect_id: u64, client_id: &String)
        requires
            old(self).wf(),
        ensures
            final(self).wf(),
            final(self).agrees_outside(old(self), set![CachePart::Sessions, CachePart::Connections, CachePart::Subscriptions, CachePart::PacketIds]),
            final(self).sessions() == old(self).sessions().remove(client_id@),
            final(self).connections() == old(self).connections().remove(connect_id),
            final(self).pkids() == old(self).pkids().remove(client_id@),
            final(self).subscriptions() == old(self).subscriptions().remove(client_id@),
    {
        self.session_info.remove(client_id);
        self.connection_info.remove(&connect_id);
        self.subscribe_filter.remove(client_id);
        self.publish_pkid_info.remove(client_id);
        proof {
            assert(self.pkids() =~= old(self).pkids().remove(client_id@));
            assert(self.subscriptions() =~= old(self).subscriptions().remove(client_id@));
        }
    }

    pub fn get_topic_alias(&self, connect_id: u64, topic_alias: u16) -> (r: Option<String>)
        requires
            self.wf(),
        ensures
            r == if self.connections().contains_key(connect_id)
                && self.connections()[connect_id].topic_alias@.contains_key(topic_alias as u64) {
                Some(self.connections()[connect_id].topic_alias@[topic_alias as u64])
            } else {
                None::<String>
            },
    {
        match self.connection_info.get(&connect_id) {
            Some(conn) => match conn.topic_alias.get(&(topic_alias as u64)) {
                Some(name) => Some(name.clone()),
                None => None,
            },
            None => None,
        }
    }

    pub fn get_connect_id(&self, client_id: &String) -> (r: Option<u64>)
        requires
            self.wf(),
        ensures
            r == if self.sessions().contains_key(client_id@) {
                self.sessions()[client_id@].connection_id
            } else {
                None::<u64>
            },
    {
        match self.session_info.get(client_id) {
            Some(s) => s.connection_id,
            None => None,
        }
    }

    /// Records a client's SUBSCRIBE packet under its packet identifier.
    pub fn add_client_subscribe(&mut self, client_id: String, subscribe: SubscribeData)
        requires
            old(self).wf(),
        ensures
            final(self).wf(),
            final(self).agrees_outside(old(self), set![CachePart::Subscriptions]),
            final(self).subscriptions() == old(self).subscriptions().insert(
                client_id@,
                old(self).subscriptions_of(client_id@).insert(subscribe.packet_identifier as u64, subscribe),
            ),
    {
        let ghost sd = subscribe;
        let mut inner = match self.subscribe_filter.remove(&client_id) {
            Some(m) => m,
            None => KeyMap::new(),
        };
        inner.insert(subscribe.packet_identifier as u64, subscribe);
        let ghost c = client_id@;
        self.subscribe_filter.insert(client_id, inner);
        proof {
            assert(self.subscriptions() =~= old(self).subscriptions().insert(
                c,
                old(self).subscriptions_of(c).insert(sd.packet_identifier as u64, sd),
            ));
        }
    }

    /// Forgets every subscription of the client.
    pub fn remove_filter(&mut self, client_id: &String)
        requires
            old(self).wf(),
        ensures
            final(self).wf(),
            final(self).agrees_outside(old(self), set![CachePart::Subscriptions]),
            final(self).subscriptions() == old(self).subscriptions().remove(client_id@),
    {
        self.subscribe_filter.remove(client_id);
        proof {
            assert(self.subscriptions() =~= old(self).subscriptions().remove(client_id@));
        }
    }

    /// How many SUBSCRIBE packets of the client are recorded.
    pub fn client_subscribe_count(&self, client_id: &String) -> (r: usize)
        requires
            self.wf(),
        ensures
            r == self.subscriptions_of(client_id@).len(),
    {
        match self.subscribe_filter.get(client_id) {
            Some(m) => m.len(),
            None => 0,
        }
    }

    /// Allocates the lowest packet id in `1..=MAX_PKID` that the client is not
    /// using, and records it as in use. `None` when every id is taken; the
    /// caller waits and asks again.
    pub fn get_pkid(&mut self, client_id: &String) -> (r: Option<u16>)
        requires
            old(self).wf(),
        ensures
            final(self).wf(),
            final(self).agrees_outside(old(self), set![CachePart::PacketIds]),
            match r {
                Some(p) => {
                    &&& 1 <= p
                    &&& !old(self).pkids_of(client_id@).contains(p)
                    &&& forall|q: u16| 1 <= q < p ==> old(self).pkids_of(client_id@).contains(q)
                    &&& final(self).pkids() == old(self).pkids().insert(
                        client_id@,
                        old(self).pkids_of(client_id@).push(p),
                    )
                },
                None => {
                    &&& forall|q: u16| 1 <= q ==> old(self).pkids_of(client_id@).contains(q)
                    &&& final(self).pkids() == old(self).pkids()
                },
            },
    {
        let had = self.publish_pkid_info.contains_key(client_id);
        let mut used = match self.publish_pkid_info.remove(client_id) {
            Some(v) => v,
            None => Vec::new(),
        };
        proof {
            assert(used@ == old(self).pkids_of(client_id@));
        }
        let r = lowest_free_pkid(&used);
        match r {
            Some(p) => {
                used.push(p);
            },
            None => {},
        }
        if r.is_some() || had {
            self.publish_pkid_info.insert(client_id.clone(), used);
        }
        proof {
            if r.is_some() {
                assert(self.pkids() =~= old(self).pkids().insert(client_id@, old(self).pkids_of(client_id@).push(r->0)));
            } else {
                assert(self.pkids() =~= old(self).pkids());
            }
        }
        r
    }

    /// Releases packet id `pkid` of the client.
    pub fn remove_pkid_info(&mut self, client_id: &String, pkid: u16)
        requires
            old(self).wf(),
        ensures
            final(self).wf(),
            final(self).agrees_outside(old(self), set![CachePart::PacketIds]),
            final(self).pkids() == if old(self).pkids().contains_key(client_id@) {
                old(self).pkids().insert(client_id@, old(self).pkids_of(client_id@).filter(other_than(pkid)))
            } else {
                old(self).pkids()
            },
    {
        match self.publish_pkid_info.remove(client_id) {
            Some(v) => {
                let mut kept: Vec<u16> = Vec::new();
                let mut i: usize = 0;
                while i < v.len()
                    invariant
                        i <= v.len(),
                        kept@ == v@.subrange(0, i as int).filter(other_than(pkid)),
                    decreases v.len() - i,
                {
                    proof {
                        assert(v@.subrange(0, i + 1).drop_last() =~= v@.subrange(0, i as int));
                        reveal(Seq::filter);
                    }
                    if v[i] != pkid {
                        kept.push(v[i]);
                    }
                    i = i + 1;
                }
                proof {
                    assert(v@.subrange(0, v.len() as int) =~= v@);
                }
                self.publish_pkid_info.insert(client_id.clone(), kept);
                proof {
                    assert(self.pkids() =~= old(self).pkids().insert(
                        client_id@,
                        old(self).pkids_of(client_id@).filter(other_than(pkid)),
                    ));
                }
            },
            None => {
                proof {
                    assert(self.publish_pkid_info@ =~= old(self).publish_pkid_info@);
                    assert(self.pkids() =~= old(self).pkids());
                }
            },
        }
    }

    /// How many packet ids the client is using.
    pub fn client_pkid_size(&self, client_id: &String) -> (r: usize)
        requires
            self.wf(),
        ensures
            r == self.pkids_of(client_id@).len(),
    {
        match self.publish_pkid_info.get(client_id) {
            Some(v) => v.len(),
            None => 0,
        }
    }

    /// Whether the client is using packet id `pkid`.
    pub fn pkid_exists(&self, client_id: &String, pkid: u16) -> (r: bool)
        requires
            self.wf(),
        ensures
            r == self.pkids_of(client_id@).contains(pkid),
    {
        match self.publish_pkid_info.get(client_id) {
            Some(v) => contains_pkid(v, pkid),
            None => false,
        }
    }

    /// The session expiry for a new connection: the one the client asks for,
    /// else the cluster's, and never more than the cluster's.
    pub fn session_expiry_interval(&self, requested: Option<u32>) -> (r: u64)
        requires
            self.wf(),
            self.cluster().is_some(),
        ensures
            r == match requested {
                Some(q) => if q < self.cluster()->0.session_expiry_interval {
                    q
                } else {
                    self.cluster()->0.session_expiry_interval
                },
                None => self.cluster()->0.session_expiry_interval,
            },
    {
        let cluster_expiry = match self.cluster_info.get(&self.cluster_name) {
            Some(c) => c.session_expiry_interval,
            None => 0,
        };
        let asked = match requested {
            Some(q) => q,
            None => cluster_expiry,
        };
        if asked < cluster_expiry {
            asked as u64
        } else {
            cluster_expiry as u64
        }
    }
}

/// `m` holds, by username, exactly the users of `users`; of several with one
/// name the last one.
pub open spec fn users_by_name(m: Map<Seq<char>, User>, users: Seq<User>) -> bool {
    &&& forall|k: Seq<char>| #[trigger]
        m.contains_key(k) <==> exists|j: int| 0 <= j < users.len() && users[j].username@ == k
    &&& forall|j: int|
        0 <= j < users.len() && (forall|j2: int| j < j2 < users.len() ==> users[j2].username@ != users[j].username@)
            ==> m[#[trigger] users[j].username@] == users[j]
}

/// `m` holds, by topic name, exactly the topics of `topics`; of several with
/// one name the last one.
pub open spec fn topics_by_name(m: Map<Seq<char>, Topic>, topics: Seq<Topic>) -> bool {
    &&& forall|k: Seq<char>| #[trigger]
        m.contains_key(k) <==> exists|j: int| 0 <= j < topics.len() && topics[j].topic_name@ == k
    &&& forall|j: int|
        0 <= j < topics.len() && (forall|j2: int| j < j2 < topics.len() ==> topics[j2].topic_name@ != topics[j].topic_name@)
            ==> m[#[trigger] topics[j].topic_name@] == topics[j]
}

/// The broker's cache contents from the stored records: the stored cluster
/// configuration (or the default one), the users by name, the topics by name.
pub fn load_metadata_cache(cluster: Option<Cluster>, users: Vec<User>, topics: Vec<Topic>) -> (r: (
    Cluster,
    KeyMap<String, User>,
    KeyMap<String, Topic>,
))
    ensures
        r.0 == match cluster {
            Some(c) => c,
            None => Cluster { session_expiry_interval: DEFAULT_SESSION_EXPIRY_INTERVAL },
        },
        r.1.wf(),
        r.2.wf(),
        users_by_name(r.1@, users@),
        topics_by_name(r.2@, topics@),
{
    let c = match cluster {
        Some(c) => c,
        None => Cluster::new(),
    };
    let mut user_info: KeyMap<String, User> = KeyMap::new();
    let mut i: usize = 0;
    while i < users.len()
        invariant
            user_info.wf(),
            i <= users.len(),
            users_by_name(user_info@, users@.subrange(0, i as int)),
        decreases users.len() - i,
    {
        let ghost before = user_info@;
        let u = users[i].duplicate();
        user_info.insert(users[i].username.clone(), u);
        proof {
            let pre = users@.subrange(0, i as int);
            let post = users@.subrange(0, i + 1);
            assert forall|k: Seq<char>| #[trigger] user_info@.contains_key(k) <==> exists|j: int|
                0 <= j < post.len() && post[j].username@ == k by {
                if k != users[i as int].username@ && user_info@.contains_key(k) {
                    let j = choose|j: int| 0 <= j < pre.len() && pre[j].username@ == k;
                    assert(post[j] == pre[j]);
                }
                if exists|j: int| 0 <= j < post.len() && post[j].username@ == k {
                    let j = choose|j: int| 0 <= j < post.len() && post[j].username@ == k;
                    if j < i {
                        assert(post[j] == pre[j]);
                        assert(before.contains_key(k));
                    }
                }
                if k == users[i as int].username@ {
                    assert(post[i as int] == users[i as int]);
                }
            }
            assert forall|j: int|
                0 <= j < post.len() && (forall|j2: int| j < j2 < post.len() ==> post[j2].username@ != post[j].username@)
                    implies user_info@[#[trigger] post[j].username@] == post[j] by {
                if j < i {
                    assert(post[j] == pre[j]);
                    assert(post[i as int].username@ != post[j].username@);
                    assert forall|j2: int| j < j2 < pre.len() implies pre[j2].username@ != pre[j].username@ by {
                        assert(post[j2] == pre[j2]);
                    }
                }
            }
        }
        i = i + 1;
    }
    proof {
        assert(users@.subrange(0, users.len() as int) =~= users@);
    }
    let mut topic_info: KeyMap<String, Topic> = KeyMap::new();
    let mut i: usize = 0;
    while i < topics.len()
        invariant
            topic_info.wf(),
            i <= topics.len(),
            topics_by_name(topic_info@, topics@.subrange(0, i as int)),
        decreases topics.len() - i,
    {
        let ghost before = topic_info@;
        let t = topics[i].duplicate();
        topic_info.insert(topics[i].topic_name.clone(), t);
        proof {
            let pre = topics@.subrange(0, i as int);
            let post = topics@.subrange(0, i + 1);
            assert forall|k: Seq<char>| #[trigger] topic_info@.contains_key(k) <==> exists|j: int|
                0 <= j < post.len() && post[j].topic_name@ == k by {
                if k != topics[i as int].topic_name@ && topic_info@.contains_key(k) {
                    let j = choose|j: int| 0 <= j < pre.len() && pre[j].topic_name@ == k;
                    assert(post[j] == pre[j]);
                }
                if exists|j: int| 0 <= j < post.len() && post[j].topic_name@ == k {
                    let j = choose|j: int| 0 <= j < post.len() && post[j].topic_name@ == k;
                    if j < i {
                        assert(post[j] == pre[j]);
                        assert(before.contains_key(k));
                    }
                }
                if k == topics[i as int].topic_name@ {
                    assert(post[i as int] == topics[i as int]);
                }
            }
            assert forall|j: int|
                0 <= j < post.len() && (forall|j2: int| j < j2 < post.len() ==> post[j2].topic_name@ != post[j].topic_name@)
                    implies topic_info@[#[trigger] post[j].topic_name@] == post[j] by {
                if j < i {
                    assert(post[j] == pre[j]);
                    assert(post[i as int].topic_name@ != post[j].topic_name@);
                    assert forall|j2: int| j < j2 < pre.len() implies pre[j2].topic_name@ != pre[j].topic_name@ by {
                        assert(post[j2] == pre[j2]);
                    }
                }
            }
        }
        i = i + 1;
    }
    proof {
        assert(topics@.subrange(0, topics.len() as int) =~= topics@);
    }
    (c, user_info, topic_info)
}

} // verus!
