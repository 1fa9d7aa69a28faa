use robust_control::broker::{
    build_session, load_metadata_cache, Cluster, IdempotentPersistence, MetadataCacheAction, MetadataCacheManager,
    MetadataCacheType, MqttProtocol, Session, SubscribeData, Topic, User,
};
use robust_control::common::ClusterType;
use robust_control::gc::{all_done, gc_step, next_start_segment, GcStep, JournalCacheManager};
use robust_control::index::{OffsetIndexManager, SegmentIdentity};
use robust_control::journal::{
    CacheManager, JournalCacheUpdate, JournalSegment, JournalShard, JournalShardStatus, Replica, SegmentStatus,
};
use robust_control::placement::{BrokerNode, ClusterInfo, PlacementCacheManager, RaftNode, RaftRole};
use robust_control::rpc::{backoff, JournalEngineInterface, JournalEngineService, RetryCall, RetryError};

fn node(cluster: &str, id: u64, addr: &str) -> BrokerNode {
    BrokerNode {
        cluster_name: cluster.to_string(),
        cluster_type: ClusterType::MqttBrokerServer,
        node_id: id,
        node_ip: "10.0.0.1".to_string(),
        node_inner_addr: addr.to_string(),
        extend: String::new(),
        create_time: 1,
    }
}

fn shard(ns: &str, name: &str, status: JournalShardStatus, active: u32) -> JournalShard {
    JournalShard {
        shard_uid: format!("{}-{}", ns, name),
        cluster_name: "jc".to_string(),
        namespace: ns.to_string(),
        shard_name: name.to_string(),
        replica: 3,
        start_segment_seq: 0,
        active_segment_seq: active,
        last_segment_seq: active,
        status,
        create_time: 5,
    }
}

fn segment(ns: &str, name: &str, seq: u32, status: SegmentStatus) -> JournalSegment {
    JournalSegment {
        cluster_name: "jc".to_string(),
        namespace: ns.to_string(),
        shard_name: name.to_string(),
        segment_seq: seq,
        replicas: vec![Replica { replica_seq: 0, node_id: 1, fold: "/data".to_string() }],
        status,
    }
}

#[test]
fn offset_index_test() {
    let mut index = OffsetIndexManager::new();
    let seg = SegmentIdentity { namespace: "n".to_string(), shard_name: "s".to_string(), segment_seq: 2 };
    assert_eq!(index.get_start_offset(&seg), 0);
    assert_eq!(index.get_end_offset(&seg), 0);
    index.save_start_offset(&seg, 100);
    index.save_end_offset(&seg, 250);
    index.save_position_offset(&seg, 120, 4096);
    index.save_timestamp_offset(&seg, 1700000000, 130);
    assert_eq!(index.get_start_offset(&seg), 100);
    assert_eq!(index.get_end_offset(&seg), 250);
    assert_eq!(index.get_position_offset(&seg, 120), 4096);
    assert_eq!(index.get_position_offset(&seg, 121), 0);
    assert_eq!(index.get_timestamp_offset(&seg, 1700000000), 130);
    index.save_start_offset(&seg, 100);
    assert_eq!(index.get_start_offset(&seg), 100);
}

#[test]
fn cluster_type_names() {
    assert_eq!(ClusterType::MqttBrokerServer.as_str_name(), "MQTTBrokerServer");
    assert_eq!(ClusterType::from_str_name("AMQPBrokerServer"), Some(ClusterType::AmqpBrokerServer));
    assert_eq!(ClusterType::from_str_name("JournalServer"), Some(ClusterType::JournalServer));
    assert_eq!(ClusterType::from_str_name("journalserver"), None);
    for t in [
        ClusterType::PlacementCenter,
        ClusterType::JournalServer,
        ClusterType::MqttBrokerServer,
        ClusterType::AmqpBrokerServer,
    ] {
        assert_eq!(ClusterType::from_str_name(t.as_str_name()), Some(t));
    }
}

#[test]
fn register_cluster_and_node() {
    let mut cache = PlacementCacheManager::new();
    let info = ClusterInfo {
        cluster_name: "mqtt-a".to_string(),
        cluster_type: ClusterType::MqttBrokerServer,
        create_time: 3,
    };
    cache.add_broker_cluster(&info);
    cache.add_broker_node(node("mqtt-a", 7, "10.0.0.7:9090"));
    let name = "mqtt-a".to_string();
    assert_eq!(cache.get_broker_num(&name), 1);
    assert_eq!(cache.get_broker_node_addr_by_cluster(&name), vec!["10.0.0.7:9090".to_string()]);
    assert_eq!(cache.get_broker_node(&name, 7).map(|n| n.node_id), Some(7));
    assert!(cache.get_heartbeat(&name, 7).is_some());
    cache.add_broker_node_at(node("mqtt-a", 8, "10.0.0.8:9090"), 50);
    let mut ids = cache.get_broker_node_id_by_cluster(&name);
    ids.sort();
    assert_eq!(ids, vec![7, 8]);
    assert!(cache.get_broker_node_id_by_cluster(&"mqtt-b".to_string()).is_empty());
}

#[test]
fn session_expiry_interval_test() {
    let mut cache = MetadataCacheManager::new("test".to_string());
    cache.set_cluster_info(Cluster { session_expiry_interval: 1800 });
    let res = cache.session_expiry_interval(None);
    assert_eq!(res, cache.get_cluster_info().unwrap().session_expiry_interval as u64);
    assert_eq!(cache.session_expiry_interval(Some(120)), 120);
    assert_eq!(cache.session_expiry_interval(Some(3600)), 1800);
    assert_eq!(cache.session_expiry_interval(None), 1800);
}

#[test]
fn heartbeat_last_writer_wins() {
    let mut cache = PlacementCacheManager::new();
    let name = "c".to_string();
    cache.report_heart_by_broker_node(&name, 4, 100);
    cache.report_heart_by_broker_node(&name, 4, 200);
    assert_eq!(cache.get_heartbeat(&name, 4), Some(200));
    assert_eq!(cache.get_heartbeat(&name, 5), None);
    cache.report_heart_by_broker_node(&name, 5, 300);
    cache.report_heart_by_broker_node(&name, 5, 250);
    assert_eq!(cache.get_heartbeat(&name, 5), Some(300));
}

#[test]
fn remove_node_from_unknown_cluster_is_noop() {
    let mut cache = PlacementCacheManager::new();
    cache.add_broker_node_at(node("known", 1, "a:1"), 10);
    let unknown = "unknown".to_string();
    assert!(cache.remove_broker_node(&unknown, 1).is_none());
    assert_eq!(cache.get_broker_num(&"known".to_string()), 1);

    let known = "known".to_string();
    let removed = cache.remove_broker_node(&known, 1);
    assert_eq!(removed.map(|(id, n)| (id, n.node_inner_addr)), Some((1, "a:1".to_string())));
    assert_eq!(cache.get_broker_num(&known), 0);
    assert_eq!(cache.get_heartbeat(&known, 1), None);
}

#[test]
fn raft_role_transitions() {
    let mut cache = PlacementCacheManager::new();
    assert!(!cache.is_raft_role_change(RaftRole::Leader));
    assert_eq!(cache.get_current_raft_role(), "");
    cache.load_cache(&vec![], &vec![], RaftNode { node_id: 1, node_addr: "p1:1228".to_string() }, 0);
    cache.add_raft_memner(RaftNode { node_id: 1, node_addr: "p1:1228".to_string() });
    cache.add_raft_memner(RaftNode { node_id: 2, node_addr: "p2:1228".to_string() });
    assert_eq!(cache.get_current_raft_role(), "Follower");
    assert!(cache.is_raft_role_change(RaftRole::Leader));
    assert!(!cache.is_raft_role_change(RaftRole::Follower));
    cache.update_raft_role(RaftRole::Leader, 2);
    assert!(cache.is_leader());
    assert_eq!(cache.get_raft_leader().map(|n| n.node_id), Some(2));
    assert_eq!(cache.get_raft_votes().len(), 2);
    cache.update_raft_role(RaftRole::Follower, 9);
    assert!(!cache.is_leader());
    assert_eq!(cache.get_raft_leader().map(|n| n.node_id), Some(2));
    cache.remove_raft_memner(2);
    assert_eq!(cache.get_raft_members().len(), 1);
    assert!(cache.get_votes_node_by_id(2).is_none());
}

#[test]
fn retry_with_empty_addrs_fails_at_once() {
    assert!(matches!(RetryCall::start(0, 3), Err(RetryError::EmptyAddrList)));
}

#[test]
fn retry_rotates_targets_and_stops() {
    let mut call = RetryCall::start(3, 5).unwrap();
    let mut targets = vec![call.target()];
    while call.on_failure() {
        targets.push(call.target());
    }
    assert_eq!(targets, vec![1, 2, 0, 1, 2, 0]);
    assert_eq!(targets.len(), 6);

    let mut call = RetryCall::start(2, 0).unwrap();
    assert_eq!(call.target(), 1);
    assert!(!call.on_failure());
}

#[test]
fn retry_backoff_is_capped() {
    assert_eq!(backoff(1, 2, 10), 2);
    assert_eq!(backoff(4, 2, 10), 8);
    assert_eq!(backoff(7, 2, 10), 10);
    assert_eq!(backoff(u64::MAX, u64::MAX, 30), 30);
    assert_eq!(JournalEngineInterface::ListShard.service(), JournalEngineService::Admin);
    assert_eq!(JournalEngineInterface::DeleteShardFile.service(), JournalEngineService::Inner);
}

#[test]
fn active_segment_requires_writable_status() {
    let mut cache = CacheManager::new();
    cache.update_cache(JournalCacheUpdate::AddShard(shard("t", "s1", JournalShardStatus::Running, 1)));
    cache.update_cache(JournalCacheUpdate::AddSegment(segment("t", "s1", 1, SegmentStatus::SealUp)));
    let (ns, name) = ("t".to_string(), "s1".to_string());
    assert!(cache.shard_exists(&ns, &name));
    assert!(cache.get_active_segment(&ns, &name).is_none());
    cache.update_cache(JournalCacheUpdate::AddSegment(segment("t", "s1", 1, SegmentStatus::Active)));
    assert_eq!(cache.get_active_segment(&ns, &name).map(|s| s.segment_seq), Some(1));
    cache.update_cache(JournalCacheUpdate::AddSegment(segment("t", "s1", 1, SegmentStatus::Create)));
    assert!(cache.get_active_segment(&ns, &name).is_some());
}

#[test]
fn cache_update_applied_twice_equals_once() {
    let mut cache = CacheManager::new();
    cache.update_cache(JournalCacheUpdate::AddNode(node("jc", 9, "10.0.0.9:2228")));
    cache.update_cache(JournalCacheUpdate::AddNode(node("jc", 9, "10.0.0.9:2228")));
    cache.update_cache(JournalCacheUpdate::AddShard(shard("t", "s1", JournalShardStatus::Running, 0)));
    cache.update_cache(JournalCacheUpdate::AddShard(shard("t", "s1", JournalShardStatus::Running, 0)));
    let (ns, name) = ("t".to_string(), "s1".to_string());
    assert_eq!(cache.get_shard(&ns, &name).map(|s| s.active_segment_seq), Some(0));
    cache.update_cache(JournalCacheUpdate::DeleteShard(shard("t", "s1", JournalShardStatus::Running, 0)));
    cache.update_cache(JournalCacheUpdate::DeleteShard(shard("t", "s1", JournalShardStatus::Running, 0)));
    assert!(!cache.shard_exists(&ns, &name));
    cache.delete_shard(&ns, &name);
    assert!(cache.get_segment(&ns, &name, 0).is_none());
}

#[test]
fn shard_gc_erases_only_when_all_confirm() {
    let mut cache = JournalCacheManager::new();
    let doomed = shard("t", "s1", JournalShardStatus::PrepareDelete, 0);
    cache.load_cache(&vec![doomed.duplicate(), shard("t", "s2", JournalShardStatus::Running, 0)]);
    for seq in 0..3 {
        cache.set_segment(segment("t", "s1", seq, SegmentStatus::SealUp));
    }
    assert!(JournalCacheManager::gc_shard_eligible(&doomed));
    assert!(!all_done(&vec![Some(true), Some(false), Some(true)]));
    assert!(!all_done(&vec![Some(true), None]));
    assert!(all_done(&vec![]));

    assert!(!cache.gc_shard_finish(&doomed, &vec![Some(true), Some(false), Some(true)]));
    assert!(!cache.gc_shard_finish(&doomed, &vec![Some(true), Some(false), Some(true)]));
    assert!(cache.gc_shard_finish(&doomed, &vec![Some(true), Some(true), Some(true)]));
    assert!(cache.gc_shard_finish(&doomed, &vec![Some(true), Some(true), Some(true)]));
    assert_eq!(next_start_segment(0, 4), 5);
    assert_eq!(next_start_segment(9, 4), 9);
}

#[test]
fn pkid_allocation_lowest_free() {
    let mut cache = MetadataCacheManager::new("mqtt".to_string());
    let client = "c1".to_string();
    assert_eq!(cache.get_pkid(&client), Some(1));
    assert_eq!(cache.get_pkid(&client), Some(2));
    assert_eq!(cache.get_pkid(&client), Some(3));
    assert_eq!(cache.client_pkid_size(&client), 3);
    cache.remove_pkid_info(&client, 2);
    assert!(!cache.pkid_exists(&client, 2));
    assert!(cache.pkid_exists(&client, 3));
    assert_eq!(cache.get_pkid(&client), Some(2));
    assert_eq!(cache.client_pkid_size(&client), 3);
}

#[test]
fn broker_cache_records() {
    let mut cache = MetadataCacheManager::new("mqtt".to_string());
    assert!(cache.get_cluster_info().is_none());
    cache.set_cluster_info(Cluster { session_expiry_interval: 1800 });
    assert_eq!(cache.get_cluster_info().map(|c| c.session_expiry_interval), Some(1800));
    let user = User { username: "u".to_string(), password: "p".to_string(), is_superuser: false };
    cache.apply(MetadataCacheAction::Put, MetadataCacheType::User, user.duplicate());
    cache.apply(MetadataCacheAction::Del, MetadataCacheType::User, user);
    let topic = Topic { topic_id: "id1".to_string(), topic_name: "/a".to_string() };
    cache.add_topic(&"/a".to_string(), &topic);
    assert!(cache.topic_exists(&"/a".to_string()));
    assert_eq!(cache.topic_name_by_id(&"id1".to_string()), Some("/a".to_string()));
    assert_eq!(cache.get_topic_by_name(&"/a".to_string()).map(|t| t.topic_id), Some("id1".to_string()));
    let _ = IdempotentPersistence::new();
}

#[test]
fn segment_gc_moves_shard_start() {
    let mut cache = JournalCacheManager::new();
    cache.load_cache(&vec![shard("t", "s1", JournalShardStatus::Running, 2)]);
    cache.load_segments(vec![
        segment("t", "s1", 0, SegmentStatus::PrepareDelete),
        segment("t", "s1", 1, SegmentStatus::SealUp),
        segment("t", "s1", 2, SegmentStatus::Active),
    ]);
    let waiting = cache.wait_delete_segments();
    assert_eq!(waiting.len(), 1);
    assert_eq!(waiting[0].segment_seq, 0);
    assert!(cache.wait_delete_shards().is_empty());

    let doomed = segment("t", "s1", 0, SegmentStatus::PrepareDelete);
    assert!(cache.gc_segment_eligible(&doomed));
    let orphan = JournalSegment { shard_name: "gone".to_string(), ..segment("t", "gone", 0, SegmentStatus::PrepareDelete) };
    assert!(!cache.gc_segment_eligible(&orphan));
    assert!(!cache.gc_segment_finish(&orphan, &vec![Some(true)]));
    assert!(!cache.gc_segment_finish(&doomed, &vec![Some(true), None]));
    assert_eq!(cache.wait_delete_segments()[0].status, SegmentStatus::PrepareDelete);
    assert_eq!(cache.wait_delete_segments().len(), 1);
    assert!(cache.gc_segment_finish(&doomed, &vec![Some(true), Some(true)]));
    assert!(cache.wait_delete_segments().is_empty());
    assert_eq!(next_start_segment(0, u32::MAX), u32::MAX);
}

#[test]
fn shard_wait_list_after_reload() {
    let mut cache = JournalCacheManager::new();
    cache.load_cache(&vec![
        shard("t", "a", JournalShardStatus::PrepareDelete, 0),
        shard("t", "b", JournalShardStatus::Running, 0),
        shard("t", "c", JournalShardStatus::Deleting, 0),
        shard("t", "b", JournalShardStatus::PrepareDelete, 0),
    ]);
    let mut names: Vec<String> = cache.wait_delete_shards().into_iter().map(|s| s.shard_name).collect();
    names.sort();
    assert_eq!(names, vec!["a".to_string(), "b".to_string()]);
}

#[test]
fn build_session_test() {
    let client_id = "client_id_test-**".to_string();
    let session = Session::new(client_id.clone(), 10, false, None);
    assert_eq!(session.client_id, client_id);
    assert_eq!(session.session_expiry, 10);
    assert!(!session.is_contain_last_will);
    assert!(session.connection_id.is_none());

    let (fresh, is_new) = build_session(&client_id, true, None, 10, false, None);
    assert!(is_new);
    assert_eq!(fresh.session_expiry, 10);
    let (resumed, is_new) = build_session(&client_id, true, Some(Session::new(client_id.clone(), 99, true, Some(5))), 10, false, None);
    assert!(!is_new);
    assert_eq!(resumed.session_expiry, 99);
    let (mut fresh, is_new) = build_session(&client_id, false, Some(Session::new(client_id.clone(), 99, true, Some(5))), 10, false, None);
    assert!(is_new);
    assert_eq!(fresh.session_expiry, 10);
    fresh.bind(42, 3, 1700000000);
    assert_eq!(fresh.connection_id, Some(42));
    assert_eq!(fresh.broker_id, Some(3));
    assert_eq!(fresh.reconnect_time, Some(1700000000));
}

#[test]
fn metadata_cache_load_defaults() {
    let users = vec![
        User { username: "a".to_string(), password: "x".to_string(), is_superuser: true },
        User { username: "b".to_string(), password: "y".to_string(), is_superuser: false },
    ];
    let topics = vec![Topic { topic_id: "1".to_string(), topic_name: "/t".to_string() }];
    let (cluster, user_info, topic_info) = load_metadata_cache(None, users, topics);
    assert_eq!(cluster.session_expiry_interval, 1800);
    assert_eq!(user_info.len(), 2);
    assert!(user_info.contains_key(&"a".to_string()));
    assert_eq!(topic_info.get(&"/t".to_string()).map(|t| t.topic_id.clone()), Some("1".to_string()));
    let (cluster, _, _) = load_metadata_cache(Some(Cluster { session_expiry_interval: 60 }), vec![], vec![]);
    assert_eq!(cluster.session_expiry_interval, 60);
}

#[test]
fn client_subscriptions_by_packet_id() {
    let mut cache = MetadataCacheManager::new("mqtt".to_string());
    let client = "c9".to_string();
    let sub = |pkid: u16| SubscribeData {
        protocol: MqttProtocol::Mqtt5,
        packet_identifier: pkid,
        filters: vec!["/a/#".to_string()],
        subscription_identifier: None,
    };
    cache.add_client_subscribe(client.clone(), sub(4));
    cache.add_client_subscribe(client.clone(), sub(4));
    assert_eq!(cache.client_subscribe_count(&client), 1);
    cache.add_client_subscribe(client.clone(), sub(5));
    assert_eq!(cache.client_subscribe_count(&client), 2);
    cache.remove_filter(&client);
    assert_eq!(cache.client_subscribe_count(&client), 0);
    cache.add_client_subscribe(client.clone(), sub(6));
    assert_eq!(cache.get_pkid(&client), Some(1));
    cache.remove_connection(77, &client);
    assert_eq!(cache.client_subscribe_count(&client), 0);
    assert_eq!(cache.client_pkid_size(&client), 0);
}

#[test]
fn journal_cache_loads_listed_nodes() {
    let mut cache = CacheManager::new();
    cache.load_cache(&vec![node("jc", 1, "a:1"), node("jc", 2, "b:2")]);
    cache.update_cache(JournalCacheUpdate::DeleteNode(1));
    cache.update_cache(JournalCacheUpdate::DeleteNode(1));
    cache.update_cache(JournalCacheUpdate::AddShard(shard("t", "s", JournalShardStatus::Running, 0)));
    assert!(cache.shard_exists(&"t".to_string(), &"s".to_string()));
}

#[test]
fn gc_step_decisions() {
    assert_eq!(gc_step(false, true, true), GcStep::Stop);
    assert_eq!(gc_step(true, false, true), GcStep::Skip);
    assert_eq!(gc_step(true, true, false), GcStep::Skip);
    assert_eq!(gc_step(true, true, true), GcStep::Proceed);
}

#[test]
fn loads_keep_the_last_duplicate() {
    let users = vec![
        User { username: "a".to_string(), password: "old".to_string(), is_superuser: false },
        User { username: "a".to_string(), password: "new".to_string(), is_superuser: true },
    ];
    let (_, user_info, _) = load_metadata_cache(None, users, vec![]);
    assert_eq!(user_info.len(), 1);
    assert_eq!(user_info.get(&"a".to_string()).map(|u| u.password.clone()), Some("new".to_string()));

    let mut journal = CacheManager::new();
    journal.load_cache(&vec![node("jc", 1, "first:1"), node("jc", 1, "second:1")]);
    journal.update_cache(JournalCacheUpdate::AddShard(shard("t", "s", JournalShardStatus::Running, 0)));

    let mut placement = PlacementCacheManager::new();
    placement.load_cache(
        &vec![],
        &vec![node("c", 1, "first:1"), node("c", 1, "second:1"), node("c", 2, "second:1")],
        RaftNode { node_id: 1, node_addr: "p:1".to_string() },
        40,
    );
    let name = "c".to_string();
    assert_eq!(placement.get_broker_node(&name, 1).map(|n| n.node_inner_addr), Some("second:1".to_string()));
    assert_eq!(placement.get_heartbeat(&name, 2), Some(40));
    assert_eq!(
        placement.get_broker_node_addr_by_cluster(&name),
        vec!["second:1".to_string(), "second:1".to_string()]
    );
}

#[test]
fn broker_removals_leave_other_maps() {
    let mut cache = MetadataCacheManager::new("mqtt".to_string());
    cache.add_topic(&"/a".to_string(), &Topic { topic_id: "id1".to_string(), topic_name: "/a".to_string() });
    cache.add_session("c1".to_string(), Session::new("c1".to_string(), 10, false, None));
    cache.remove_connection(1, &"c1".to_string());
    assert!(cache.get_connect_id(&"c1".to_string()).is_none());
    assert!(cache.topic_exists(&"/a".to_string()));
    cache.apply(
        MetadataCacheAction::Put,
        MetadataCacheType::Topic,
        User { username: "u".to_string(), password: "p".to_string(), is_superuser: false },
    );
    assert!(cache.topic_exists(&"/a".to_string()));
}
