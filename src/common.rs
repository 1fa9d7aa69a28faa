use vstd::prelude::*;

verus! {

/// The empty reply of the placement-center RPCs.
#[derive(Clone, Copy, Debug, PartialEq, Eq, Structural)]
pub struct CommonReply {}

/// The kind of process that a cluster is made of.
#[derive(Clone, Copy, Debug, PartialEq, Eq, Hash, PartialOrd, Ord, Structural)]
pub enum ClusterType {
    PlacementCenter,
    JournalServer,
    MqttBrokerServer,
    AmqpBrokerServer,
}

/// The protocol name of each cluster type.
pub open spec fn cluster_type_name(t: ClusterType) -> Seq<char> {
    match t {
        ClusterType::PlacementCenter => "PlacementCenter"@,
        ClusterType::JournalServer => "JournalServer"@,
        ClusterType::MqttBrokerServer => "MQTTBrokerServer"@,
        ClusterType::AmqpBrokerServer => "AMQPBrokerServer"@,
    }
}

/// The cluster type whose protocol name is `s`, if any.
pub open spec fn cluster_type_of_name(s: Seq<char>) -> Option<ClusterType> {
    if s == "PlacementCenter"@ {
        Some(ClusterType::PlacementCenter)
    } else if s == "JournalServer"@ {
        Some(ClusterType::JournalServer)
    } else if s == "MQTTBrokerServer"@ {
        Some(ClusterType::MqttBrokerServer)
    } else if s == "AMQPBrokerServer"@ {
        Some(ClusterType::AmqpBrokerServer)
    } else {
        None
    }
}

impl ClusterType {
    /// The name of the variant in the protocol definition.
    pub fn as_str_name(&self) -> (r: &'static str)
        ensures
            r@ == cluster_type_name(*self),
    {
        match self {
            ClusterType::PlacementCenter => "PlacementCenter",
            ClusterType::JournalServer => "JournalServer",
            ClusterType::MqttBrokerServer => "MQTTBrokerServer",
            ClusterType::AmqpBrokerServer => "AMQPBrokerServer",
        }
    }

    /// The variant named `value` in the protocol definition.
    pub fn from_str_name(value: &str) -> (r: Option<Self>)
        ensures
            r == cluster_type_of_name(value@),
    {
        let v = value.to_owned();
        if v == "PlacementCenter".to_owned() {
            Some(ClusterType::PlacementCenter)
        } else if v == "JournalServer".to_owned() {
            Some(ClusterType::JournalServer)
        } else if v == "MQTTBrokerServer".to_owned() {
            Some(ClusterType::MqttBrokerServer)
        } else if v == "AMQPBrokerServer".to_owned() {
            Some(ClusterType::AmqpBrokerServer)
        } else {
            None
        }
    }
}

/// Reading back the protocol name of a cluster type gives that type.
pub proof fn lemma_cluster_type_name_round_trip(t: ClusterType)
    ensures
        cluster_type_of_name(cluster_type_name(t)) == Some(t),
{
    reveal_strlit("PlacementCenter");
    reveal_strlit("JournalServer");
    reveal_strlit("MQTTBrokerServer");
    reveal_strlit("AMQPBrokerServer");
    assert("PlacementCenter"@[0] != "JournalServer"@[0]);
    assert("PlacementCenter"@[0] != "MQTTBrokerServer"@[0]);
    assert("PlacementCenter"@[0] != "AMQPBrokerServer"@[0]);
    assert("JournalServer"@[0] != "MQTTBrokerServer"@[0]);
    assert("JournalServer"@[0] != "AMQPBrokerServer"@[0]);
    assert("MQTTBrokerServer"@[0] != "AMQPBrokerServer"@[0]);
}

} // verus!
