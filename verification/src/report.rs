//! What the panel is told of the peers: their traffic and who is online.

use crate::address::PublicKey;
use crate::peers::{DesiredModel, DesiredPeer};
use vstd::prelude::*;

verus! {

/// Whether a handshake is recent: at most `window_secs` old, and no more than a
/// minute in the future.
pub open spec fn recent(last_handshake_at: Option<u64>, now: u64, window_secs: u64) -> bool {
    match last_handshake_at {
        Some(at) => at <= now + 60 && now - at <= window_secs,
        None => false,
    }
}

/// Whether a handshake is recent.
pub fn is_recent_handshake(last_handshake_at: Option<u64>, now: u64, window_secs: u64) -> (r: bool)
    ensures
        r == recent(last_handshake_at, now, window_secs),
{
    match last_handshake_at {
        Some(at) => at <= now.saturating_add(60) && now.saturating_sub(at) <= window_secs,
        None => false,
    }
}

/// What the interface tells of one of its peers.
#[derive(Debug)]
pub struct HostPeer {
    pub public_key: PublicKey,
    /// The last handshake in seconds since 1970, if the interface tells one.
    pub last_handshake: Option<u64>,
    pub endpoint: Option<String>,
    pub rx_bytes: u64,
    pub tx_bytes: u64,
}

/// The model of a `HostPeer`.
pub struct HostModel {
    pub public_key: Seq<u8>,
    pub last_handshake: Option<u64>,
    pub endpoint: Option<Seq<char>>,
    pub rx_bytes: u64,
    pub tx_bytes: u64,
}

impl DeepView for HostPeer {
    type V = HostModel;

    open spec fn deep_view(&self) -> HostModel {
        HostModel {
            public_key: self.public_key.deep_view(),
            last_handshake: self.last_handshake,
            endpoint: self.endpoint.deep_view(),
            rx_bytes: self.rx_bytes,
            tx_bytes: self.tx_bytes,
        }
    }
}

/// The traffic counters of one peer, as reported.
#[derive(Debug)]
pub struct TrafficPeerReport {
    pub peer_id: Option<u64>,
    pub user_id: u64,
    pub device_id: String,
    pub public_key: String,
    pub upload: u64,
    pub download: u64,
    pub last_handshake_at: Option<u64>,
    pub last_endpoint: Option<String>,
}

/// The model of a `TrafficPeerReport`.
pub struct TrafficPeerModel {
    pub peer_id: Option<u64>,
    pub user_id: u64,
    pub device_id: Seq<char>,
    pub public_key: Seq<char>,
    pub upload: u64,
    pub download: u64,
    pub last_handshake_at: Option<u64>,
    pub last_endpoint: Option<Seq<char>>,
}

impl DeepView for TrafficPeerReport {
    type V = TrafficPeerModel;

    open spec fn deep_view(&self) -> TrafficPeerModel {
        TrafficPeerModel {
            peer_id: self.peer_id,
            user_id: self.user_id,
            device_id: self.device_id@,
            public_key: self.public_key@,
            upload: self.upload,
            download: self.download,
            last_handshake_at: self.last_handshake_at,
            last_endpoint: self.last_endpoint.deep_view(),
        }
    }
}

/// The state of one peer, as reported.
#[derive(Debug)]
pub struct StatusPeerReport {
    pub peer_id: Option<u64>,
    pub user_id: u64,
    pub device_id: String,
    pub public_key: String,
    pub last_handshake_at: Option<u64>,
    pub last_endpoint: Option<String>,
}

/// The model of a `StatusPeerReport`.
pub struct StatusPeerModel {
    pub peer_id: Option<u64>,
    pub user_id: u64,
    pub device_id: Seq<char>,
    pub public_key: Seq<char>,
    pub last_handshake_at: Option<u64>,
    pub last_endpoint: Option<Seq<char>>,
}

impl DeepView for StatusPeerReport {
    type V = StatusPeerModel;

    open spec fn deep_view(&self) -> StatusPeerModel {
        StatusPeerModel {
            peer_id: self.peer_id,
            user_id: self.user_id,
            device_id: self.device_id@,
            public_key: self.public_key@,
            last_handshake_at: self.last_handshake_at,
            last_endpoint: self.last_endpoint.deep_view(),
        }
    }
}

/// The index of the first peer of the interface with the given key.
pub open spec fn host_position(host: Seq<HostModel>, key: Seq<u8>) -> Option<int>
    decreases host.len(),
{
    if host.len() == 0 {
        None
    } else {
        match host_position(host.drop_last(), key) {
            Some(i) => Some(i),
            None => if host.last().public_key == key {
                Some(host.len() - 1)
            } else {
                None
            },
        }
    }
}

/// `host_position` finds an index exactly if some peer of the interface has the
/// key, and then the least one.
pub proof fn lemma_host_position(host: Seq<HostModel>, key: Seq<u8>)
    ensures
        match host_position(host, key) {
            Some(i) => 0 <= i < host.len() && host[i].public_key == key && (forall|j: int|
                0 <= j < i ==> host[j].public_key != key),
            None => forall|j: int| 0 <= j < host.len() ==> host[j].public_key != key,
        },
    decreases host.len(),
{
    if host.len() > 0 {
        lemma_host_position(host.drop_last(), key);
        assert forall|j: int| 0 <= j < host.len() - 1 implies (#[trigger] host[j]).public_key
            == host.drop_last()[j].public_key by {}
    }
}

/// Finds the first peer of the interface with the given key.
fn find_host_peer(host: &Vec<HostPeer>, key: &PublicKey) -> (r: Option<usize>)
    ensures
        match r {
            Some(i) => host_position(host.deep_view(), key.deep_view()) == Some(i as int) && i
                < host@.len(),
            None => host_position(host.deep_view(), key.deep_view()) is None,
        },
{
    let mut i: usize = 0;
    while i < host.len()
        invariant
            i <= host@.len(),
            forall|j: int| 0 <= j < i ==> host.deep_view()[j].public_key != key.deep_view(),
        decreases host@.len() - i,
    {
        if host[i].public_key.same(key) {
            proof {
                lemma_host_position(host.deep_view(), key.deep_view());
                assert(host.deep_view()[i as int].public_key == key.deep_view());
            }
            return Some(i);
        }
        i += 1;
    }
    proof {
        lemma_host_position(host.deep_view(), key.deep_view());
    }
    None
}

/// The desired peers that the interface holds, each with what the interface
/// tells of it.
pub open spec fn present(desired: Seq<DesiredModel>, host: Seq<HostModel>) -> Seq<
    (DesiredModel, HostModel),
>
    decreases desired.len(),
{
    if desired.len() == 0 {
        seq![]
    } else {
        let rest = present(desired.drop_last(), host);
        match host_position(host, desired.last().public_key) {
            Some(i) => rest.push((desired.last(), host[i])),
            None => rest,
        }
    }
}

/// The last handshake as it is reported: one at second zero is none.
pub open spec fn handshake_of(peer: HostModel) -> Option<u64> {
    match peer.last_handshake {
        Some(at) => if at > 0 {
            Some(at)
        } else {
            None
        },
        None => None,
    }
}

/// The traffic of a peer as it is reported: what the interface received from it
/// is its upload, what the interface sent to it is its download.
pub open spec fn traffic_of(peer: (DesiredModel, HostModel)) -> TrafficPeerModel {
    TrafficPeerModel {
        peer_id: peer.0.peer_id,
        user_id: peer.0.user_id,
        device_id: peer.0.device_id,
        public_key: peer.0.public_key_string,
        upload: peer.1.rx_bytes,
        download: peer.1.tx_bytes,
        last_handshake_at: handshake_of(peer.1),
        last_endpoint: peer.1.endpoint,
    }
}

/// The state of a peer as it is reported.
pub open spec fn status_of(peer: (DesiredModel, HostModel)) -> StatusPeerModel {
    StatusPeerModel {
        peer_id: peer.0.peer_id,
        user_id: peer.0.user_id,
        device_id: peer.0.device_id,
        public_key: peer.0.public_key_string,
        last_handshake_at: handshake_of(peer.1),
        last_endpoint: peer.1.endpoint,
    }
}

/// Whether a peer has moved enough bytes to be reported. The sum of its counters
/// is taken to be no larger than a counter can hold.
pub open spec fn busy(peer: HostModel, min_traffic: u64) -> bool {
    let sum = peer.rx_bytes + peer.tx_bytes;
    (if sum > u64::MAX {
        u64::MAX as int
    } else {
        sum
    }) >= min_traffic
}

/// The traffic that is reported of the given peers.
pub open spec fn traffic_peers(
    peers: Seq<(DesiredModel, HostModel)>,
    min_traffic: u64,
) -> Seq<TrafficPeerModel>
    decreases peers.len(),
{
    if peers.len() == 0 {
        seq![]
    } else {
        let rest = traffic_peers(peers.drop_last(), min_traffic);
        if busy(peers.last().1, min_traffic) {
            rest.push(traffic_of(peers.last()))
        } else {
            rest
        }
    }
}

/// The states that are reported of the given peers.
pub open spec fn status_peers(peers: Seq<(DesiredModel, HostModel)>) -> Seq<StatusPeerModel> {
    Seq::new(peers.len(), |i: int| status_of(peers[i]))
}

/// How many of the given peers are online.
pub open spec fn online_count(
    peers: Seq<(DesiredModel, HostModel)>,
    now: u64,
    window_secs: u64,
) -> nat
    decreases peers.len(),
{
    if peers.len() == 0 {
        0
    } else {
        let rest = online_count(peers.drop_last(), now, window_secs);
        if recent(handshake_of(peers.last().1), now, window_secs) {
            rest + 1
        } else {
            rest
        }
    }
}

/// What is known of the peers at one moment.
#[derive(Debug)]
pub struct Reading {
    pub traffic: Vec<TrafficPeerReport>,
    pub status: Vec<StatusPeerReport>,
    pub online: usize,
}

/// Matches the desired peers with what the interface tells of them.
pub fn read_peers(
    desired: &Vec<DesiredPeer>,
    host: &Vec<HostPeer>,
    now: u64,
    min_traffic: u64,
    window_secs: u64,
) -> (r: Reading)
    ensures
        r.traffic.deep_view() == traffic_peers(
            present(desired.deep_view(), host.deep_view()),
            min_traffic,
        ),
        r.status.deep_view() == status_peers(present(desired.deep_view(), host.deep_view())),
        r.online == online_count(
            present(desired.deep_view(), host.deep_view()),
            now,
            window_secs,
        ),
{
    let mut traffic: Vec<TrafficPeerReport> = Vec::new();
    let mut status: Vec<StatusPeerReport> = Vec::new();
    let mut online: usize = 0;
    let ghost wanted = desired.deep_view();
    let ghost known = host.deep_view();
    let ghost mut pairs: Seq<(DesiredModel, HostModel)> = seq![];
    let mut i: usize = 0;
    proof {
        assert(wanted.take(0) =~= seq![]);
        assert(traffic.deep_view() =~= seq![]);
        assert(status.deep_view() =~= status_peers(pairs));
    }
    while i < desired.len()
        invariant
            i <= desired@.len(),
            wanted == desired.deep_view(),
            known == host.deep_view(),
            pairs == present(wanted.take(i as int), known),
            traffic.deep_view() == traffic_peers(pairs, min_traffic),
            status.deep_view() == status_peers(pairs),
            online == online_count(pairs, now, window_secs),
            online <= i,
        decreases desired@.len() - i,
    {
        let wish = &desired[i];
        proof {
            assert(wanted.take(i + 1).drop_last() =~= wanted.take(i as int));
            assert(wanted.take(i + 1).last() == wish.deep_view());
        }
        if let Some(k) = find_host_peer(host, &wish.public_key) {
            let peer = &host[k];
            let ghost before = pairs;
            let ghost traffic_before = traffic.deep_view();
            let ghost status_before = status.deep_view();
            proof {
                pairs = before.push((wish.deep_view(), peer.deep_view()));
                assert(pairs.drop_last() =~= before);
                assert(pairs.last() == (wish.deep_view(), peer.deep_view()));
            }
            let last_handshake_at = match peer.last_handshake {
                Some(at) => if at > 0 {
                    Some(at)
                } else {
                    None
                },
                None => None,
            };
            if is_recent_handshake(last_handshake_at, now, window_secs) {
                online += 1;
            }
            if peer.rx_bytes.saturating_add(peer.tx_bytes) >= min_traffic {
                traffic.push(
                    TrafficPeerReport {
                        peer_id: wish.peer_id,
                        user_id: wish.user_id,
                        device_id: wish.device_id.clone(),
                        public_key: wish.public_key_string.clone(),
                        upload: peer.rx_bytes,
                        download: peer.tx_bytes,
                        last_handshake_at,
                        last_endpoint: peer.endpoint.clone(),
                    },
                );
                proof {
                    assert(traffic.deep_view() =~= traffic_before.push(traffic_of(pairs.last())));
                }
            }
            status.push(
                StatusPeerReport {
                    peer_id: wish.peer_id,
                    user_id: wish.user_id,
                    device_id: wish.device_id.clone(),
                    public_key: wish.public_key_string.clone(),
                    last_handshake_at,
                    last_endpoint: peer.endpoint.clone(),
                },
            );
            proof {
                assert(status.deep_view() =~= status_before.push(status_of(pairs.last())));
                assert(status.deep_view() =~= status_peers(pairs));
            }
        }
        i += 1;
    }
    proof {
        assert(wanted.take(i as int) =~= wanted);
    }
    Reading { traffic, status, online }
}

/// The traffic report of a node.
#[derive(Debug)]
pub struct TrafficReport {
    pub report_id: String,
    pub reported_at: u64,
    pub peers: Vec<TrafficPeerReport>,
}

/// The model of a `TrafficReport`.
pub struct TrafficModel {
    pub report_id: Seq<char>,
    pub reported_at: u64,
    pub peers: Seq<TrafficPeerModel>,
}

impl DeepView for TrafficReport {
    type V = TrafficModel;

    open spec fn deep_view(&self) -> TrafficModel {
        TrafficModel {
            report_id: self.report_id@,
            reported_at: self.reported_at,
            peers: self.peers.deep_view(),
        }
    }
}

/// The status report of a node.
#[derive(Debug)]
pub struct StatusReport {
    pub reported_at: u64,
    pub online: usize,
    pub peers: Vec<StatusPeerReport>,
}

/// The model of a `StatusReport`.
pub struct StatusModel {
    pub reported_at: u64,
    pub online: nat,
    pub peers: Seq<StatusPeerModel>,
}

impl DeepView for StatusReport {
    type V = StatusModel;

    open spec fn deep_view(&self) -> StatusModel {
        StatusModel {
            reported_at: self.reported_at,
            online: self.online as nat,
            peers: self.peers.deep_view(),
        }
    }
}

/// The reports to send: first that of the traffic, then that of the status.
#[derive(Debug)]
pub struct Reports {
    pub traffic: Option<TrafficReport>,
    pub status: Option<StatusReport>,
}

/// The status report that is sent, of one that was made if any, where `sent` tells
/// whether the traffic report was.
pub open spec fn status_to_send(status: Option<StatusModel>, sent: bool) -> Option<StatusModel> {
    if sent {
        status
    } else {
        None
    }
}

/// The status report to send once it is known whether the traffic report was
/// sent: none if that failed. Where there was no traffic report, nothing failed.
pub fn status_after(reports: Reports, sent: bool) -> (r: Option<StatusReport>)
    ensures
        r.deep_view() == status_to_send(reports.status.deep_view(), sent),
        r.deep_view() == if sent {
            reports.status.deep_view()
        } else {
            None
        },
{
    if sent {
        reports.status
    } else {
        None
    }
}

} // verus!
