//! What the panel sends: the node's configuration and its users with their peers.

use crate::config::default_interval;
use crate::error::Error;
use vstd::prelude::*;

verus! {

/// How often to talk to the panel, and how much traffic is worth reporting.
#[derive(Debug, Clone, Copy)]
pub struct BaseConfig {
    pub pull_interval: u64,
    pub push_interval: u64,
    pub node_report_min_traffic: u64,
}

impl Default for BaseConfig {
    fn default() -> (r: Self)
        ensures
            r.pull_interval == 60,
            r.push_interval == 60,
            r.node_report_min_traffic == 0,
    {
        BaseConfig {
            pull_interval: default_interval(),
            push_interval: default_interval(),
            node_report_min_traffic: 0,
        }
    }
}

/// The node's WireGuard configuration.
#[derive(Debug, Clone)]
pub struct ServerConfig {
    pub config_version: u64,
    pub server_port: u16,
    pub private_key: String,
    pub public_key: String,
    pub interface_ip: Option<String>,
    pub interface_ipv4: Option<String>,
    pub address_pool: Option<String>,
    pub address_pool_ipv4: Option<String>,
    pub interface_ipv6: Option<String>,
    pub address_pool_ipv6: Option<String>,
    pub ipv6_mode: String,
    pub mtu: Option<u32>,
    pub persistent_keepalive: Option<u16>,
    pub base_config: BaseConfig,
}

/// `first` where it is there, else `second`.
pub open spec fn either<T>(first: Option<T>, second: Option<T>) -> Option<T> {
    if first is Some {
        first
    } else {
        second
    }
}

impl ServerConfig {
    /// The interface's IPv4 address: `interface_ipv4`, or else the older
    /// `interface_ip`.
    pub open spec fn interface_v4(&self) -> Option<Seq<char>> {
        either(self.interface_ipv4.deep_view(), self.interface_ip.deep_view())
    }

    /// The IPv4 address pool: `address_pool_ipv4`, or else the older
    /// `address_pool`.
    pub open spec fn pool_v4(&self) -> Option<Seq<char>> {
        either(self.address_pool_ipv4.deep_view(), self.address_pool.deep_view())
    }

    /// The interface's IPv4 address.
    pub fn interface_ipv4(&self) -> (r: Result<&str, Error>)
        ensures
            match r {
                Ok(s) => self.interface_v4() == Some(s@),
                Err(e) => self.interface_v4() is None && e == Error::MissingInterfaceAddress,
            },
    {
        match (&self.interface_ipv4, &self.interface_ip) {
            (Some(s), _) => Ok(s.as_str()),
            (None, Some(s)) => Ok(s.as_str()),
            (None, None) => Err(Error::MissingInterfaceAddress),
        }
    }

    /// The IPv4 address pool of the node's peers.
    pub fn address_pool_ipv4(&self) -> (r: Result<&str, Error>)
        ensures
            match r {
                Ok(s) => self.pool_v4() == Some(s@),
                Err(e) => self.pool_v4() is None && e == Error::MissingAddressPool,
            },
    {
        match (&self.address_pool_ipv4, &self.address_pool) {
            (Some(s), _) => Ok(s.as_str()),
            (None, Some(s)) => Ok(s.as_str()),
            (None, None) => Err(Error::MissingAddressPool),
        }
    }
}

/// One WireGuard peer of a user.
#[derive(Debug)]
pub struct PeerPayload {
    pub peer_id: Option<u64>,
    pub user_id: Option<u64>,
    pub device_id: Option<String>,
    pub public_key: String,
    pub ip: Option<String>,
    pub ipv4: Option<String>,
    pub ipv6: Option<String>,
    pub allowed_ips: Vec<String>,
    pub speed_limit: Option<u64>,
    pub device_limit: Option<u64>,
    pub enabled: Option<i64>,
    pub revoked_at: Option<u64>,
}

/// The model of a `PeerPayload`: its texts as character sequences.
pub struct PeerModel {
    pub peer_id: Option<u64>,
    pub user_id: Option<u64>,
    pub device_id: Option<Seq<char>>,
    pub public_key: Seq<char>,
    pub ip: Option<Seq<char>>,
    pub ipv4: Option<Seq<char>>,
    pub ipv6: Option<Seq<char>>,
    pub allowed_ips: Seq<Seq<char>>,
    pub speed_limit: Option<u64>,
    pub device_limit: Option<u64>,
    pub enabled: Option<i64>,
    pub revoked_at: Option<u64>,
}

impl DeepView for PeerPayload {
    type V = PeerModel;

    open spec fn deep_view(&self) -> PeerModel {
        PeerModel {
            peer_id: self.peer_id,
            user_id: self.user_id,
            device_id: self.device_id.deep_view(),
            public_key: self.public_key@,
            ip: self.ip.deep_view(),
            ipv4: self.ipv4.deep_view(),
            ipv6: self.ipv6.deep_view(),
            allowed_ips: self.allowed_ips.deep_view(),
            speed_limit: self.speed_limit,
            device_limit: self.device_limit,
            enabled: self.enabled,
            revoked_at: self.revoked_at,
        }
    }
}

impl Clone for PeerPayload {
    fn clone(&self) -> (r: Self)
        ensures
            r.deep_view() == self.deep_view(),
    {
        let r = PeerPayload {
            peer_id: self.peer_id,
            user_id: self.user_id,
            device_id: self.device_id.clone(),
            public_key: self.public_key.clone(),
            ip: self.ip.clone(),
            ipv4: self.ipv4.clone(),
            ipv6: self.ipv6.clone(),
            allowed_ips: self.allowed_ips.clone(),
            speed_limit: self.speed_limit,
            device_limit: self.device_limit,
            enabled: self.enabled,
            revoked_at: self.revoked_at,
        };
        proof {
            assert(r.allowed_ips.deep_view() =~= self.allowed_ips.deep_view());
        }
        r
    }
}

/// One user of the node.
#[derive(Debug, Clone)]
pub struct UserPayload {
    pub id: u64,
    pub speed_limit: Option<u64>,
    pub device_limit: Option<u64>,
    pub wireguard: Option<PeerPayload>,
    pub wireguard_peers: Vec<PeerPayload>,
}

/// The model of a `UserPayload`.
pub struct UserModel {
    pub id: u64,
    pub speed_limit: Option<u64>,
    pub device_limit: Option<u64>,
    pub wireguard: Option<PeerModel>,
    pub wireguard_peers: Seq<PeerModel>,
}

impl DeepView for UserPayload {
    type V = UserModel;

    open spec fn deep_view(&self) -> UserModel {
        UserModel {
            id: self.id,
            speed_limit: self.speed_limit,
            device_limit: self.device_limit,
            wireguard: self.wireguard.deep_view(),
            wireguard_peers: self.wireguard_peers.deep_view(),
        }
    }
}

impl UserModel {
    /// The peers of a user: the list, or where it is empty the single peer.
    pub open spec fn peers(self) -> Seq<PeerModel> {
        if self.wireguard_peers.len() > 0 {
            self.wireguard_peers
        } else {
            match self.wireguard {
                Some(peer) => seq![peer],
                None => seq![],
            }
        }
    }
}

impl UserPayload {
    /// The user's peers: the list, or where it is empty the single peer.
    pub fn peers(&self) -> (r: Vec<PeerPayload>)
        ensures
            r.deep_view() == self.deep_view().peers(),
    {
        if !self.wireguard_peers.is_empty() {
            let r = self.wireguard_peers.clone();
            proof {
                assert(r.deep_view() =~= self.wireguard_peers.deep_view());
            }
            return r;
        }
        let mut r: Vec<PeerPayload> = Vec::new();
        if let Some(peer) = &self.wireguard {
            r.push(peer.clone());
        }
        proof {
            assert(r.deep_view() =~= self.deep_view().peers());
        }
        r
    }
}

/// The panel's answer to a request for users.
#[derive(Debug, Clone)]
pub struct UsersResponse {
    pub users: Vec<UserPayload>,
}

/// A configuration and the users that came with it.
#[derive(Debug, Clone)]
pub struct Snapshot {
    pub config: ServerConfig,
    pub users: Vec<UserPayload>,
}

} // verus!
