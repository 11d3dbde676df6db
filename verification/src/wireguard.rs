//! How the WireGuard interface is set up and which of its peers change.

use crate::address::{parse_mask, parsed_mask, reading, AddressMask, MaskModel, PublicKey};
use crate::config::LocalWireguardConfig;
use crate::error::{Error, ErrorModel};
use crate::payload::ServerConfig;
use crate::peers::{find_peer, outcome, position, DesiredModel, DesiredPeer};
use crate::text::{owned, same_text};
use vstd::prelude::*;

verus! {

/// What the interface is told of one peer.
#[derive(Debug)]
pub struct PeerSetup {
    pub public_key: PublicKey,
    pub allowed_ips: Vec<AddressMask>,
}

/// The model of a `PeerSetup`.
pub struct SetupModel {
    pub public_key: Seq<u8>,
    pub allowed_ips: Seq<MaskModel>,
}

impl DeepView for PeerSetup {
    type V = SetupModel;

    open spec fn deep_view(&self) -> SetupModel {
        SetupModel {
            public_key: self.public_key.deep_view(),
            allowed_ips: self.allowed_ips.deep_view(),
        }
    }
}

/// What the interface is told of a desired peer: its key and its addresses.
pub open spec fn setup_of(peer: DesiredModel) -> SetupModel {
    SetupModel { public_key: peer.public_key, allowed_ips: peer.allowed_ips }
}

/// What the interface is told of each of the desired peers.
pub open spec fn setups_of(peers: Seq<DesiredModel>) -> Seq<SetupModel> {
    Seq::new(peers.len(), |i: int| setup_of(peers[i]))
}

/// What the interface is told of a desired peer.
pub fn peer_from_desired(peer: &DesiredPeer) -> (r: PeerSetup)
    ensures
        r.deep_view() == setup_of(peer.deep_view()),
{
    let allowed_ips = peer.allowed_ips.clone();
    proof {
        assert(allowed_ips.deep_view() =~= peer.allowed_ips.deep_view());
    }
    PeerSetup { public_key: peer.public_key, allowed_ips }
}

/// What the interface is told of each of the desired peers.
fn peers_from_desired(peers: &Vec<DesiredPeer>) -> (r: Vec<PeerSetup>)
    ensures
        r.deep_view() == setups_of(peers.deep_view()),
{
    let mut r: Vec<PeerSetup> = Vec::new();
    let mut i: usize = 0;
    while i < peers.len()
        invariant
            i <= peers@.len(),
            r.deep_view() == setups_of(peers.deep_view()).take(i as int),
        decreases peers@.len() - i,
    {
        let ghost before = r.deep_view();
        r.push(peer_from_desired(&peers[i]));
        proof {
            assert(r.deep_view() =~= before.push(setup_of(peers.deep_view()[i as int])));
            assert(r.deep_view() =~= setups_of(peers.deep_view()).take(i + 1));
        }
        i += 1;
    }
    proof {
        assert(r.deep_view() =~= setups_of(peers.deep_view()));
    }
    r
}

/// The interface's addresses, where `v4` and `v6` are the texts of its
/// addresses, each with what was read from it.
pub open spec fn address_pair(
    v4: (Seq<char>, Result<MaskModel, Seq<char>>),
    v6: Option<(Seq<char>, Result<MaskModel, Seq<char>>)>,
) -> Result<Seq<MaskModel>, ErrorModel> {
    match v4.1 {
        Err(cause) => Err(ErrorModel::InvalidInterfaceAddress { value: v4.0, cause }),
        Ok(first) => match v6 {
            None => Ok(seq![first]),
            Some((text, Err(cause))) => Err(
                ErrorModel::InvalidInterfaceIpv6Address { value: text, cause },
            ),
            Some((_, Ok(second))) => Ok(seq![first, second]),
        },
    }
}

/// The interface's addresses, where `v4` and `v6` are the texts of its
/// addresses, each with what was read from it.
pub fn pair_addresses(
    v4: (&str, Result<AddressMask, String>),
    v6: Option<(&str, Result<AddressMask, String>)>,
) -> (r: Result<Vec<AddressMask>, Error>)
    ensures
        outcome(r) == address_pair(
            (v4.0@, reading(v4.1)),
            match v6 {
                Some((text, read)) => Some((text@, reading(read))),
                None => None,
            },
        ),
{
    let first = match v4.1 {
        Ok(mask) => mask,
        Err(cause) => return Err(Error::InvalidInterfaceAddress { value: owned(v4.0), cause }),
    };
    let mut addresses: Vec<AddressMask> = Vec::new();
    addresses.push(first);
    proof {
        assert(addresses.deep_view() =~= seq![first.deep_view()]);
    }
    match v6 {
        None => Ok(addresses),
        Some((text, Err(cause))) => Err(
            Error::InvalidInterfaceIpv6Address { value: owned(text), cause },
        ),
        Some((_, Ok(second))) => {
            addresses.push(second);
            proof {
                assert(addresses.deep_view() =~= seq![first.deep_view(), second.deep_view()]);
            }
            Ok(addresses)
        },
    }
}

/// The addresses that the interface gets: the IPv4 address and, unless IPv6 is
/// disabled, the IPv6 address if there is one.
pub open spec fn interface_masks(server: &ServerConfig) -> Result<Seq<MaskModel>, ErrorModel> {
    match server.interface_v4() {
        None => Err(ErrorModel::MissingInterfaceAddress),
        Some(v4) => address_pair(
            (v4, parsed_mask(v4)),
            if server.ipv6_mode@ == "disabled"@ {
                None
            } else {
                match server.interface_ipv6.deep_view() {
                    Some(v6) => Some((v6, parsed_mask(v6))),
                    None => None,
                }
            },
        ),
    }
}

/// The addresses that the interface gets.
pub fn interface_addresses(server: &ServerConfig) -> (r: Result<Vec<AddressMask>, Error>)
    ensures
        outcome(r) == interface_masks(server),
{
    let v4 = match server.interface_ipv4() {
        Ok(text) => text,
        Err(e) => return Err(e),
    };
    let first = parse_mask(v4);
    let mut second: Option<(&str, Result<AddressMask, String>)> = None;
    if !same_text(server.ipv6_mode.as_str(), "disabled") {
        if let Some(v6) = &server.interface_ipv6 {
            second = Some((v6.as_str(), parse_mask(v6.as_str())));
        }
    }
    pair_addresses((v4, first), second)
}

/// A full configuration of the interface.
#[derive(Debug)]
pub struct InterfacePlan {
    pub name: String,
    pub private_key: String,
    pub addresses: Vec<AddressMask>,
    pub port: u16,
    pub peers: Vec<PeerSetup>,
    pub mtu: Option<u32>,
    pub fwmark: Option<u32>,
}

/// The model of an `InterfacePlan`.
pub struct InterfaceModel {
    pub name: Seq<char>,
    pub private_key: Seq<char>,
    pub addresses: Seq<MaskModel>,
    pub port: u16,
    pub peers: Seq<SetupModel>,
    pub mtu: Option<u32>,
    pub fwmark: Option<u32>,
}

impl DeepView for InterfacePlan {
    type V = InterfaceModel;

    open spec fn deep_view(&self) -> InterfaceModel {
        InterfaceModel {
            name: self.name@,
            private_key: self.private_key@,
            addresses: self.addresses.deep_view(),
            port: self.port,
            peers: self.peers.deep_view(),
            mtu: self.mtu,
            fwmark: self.fwmark,
        }
    }
}

/// The full configuration of an interface for a node configuration and the
/// peers that it should hold.
pub open spec fn interface_plan(
    local: &LocalWireguardConfig,
    server: &ServerConfig,
    peers: Seq<DesiredModel>,
) -> Result<InterfaceModel, ErrorModel> {
    match interface_masks(server) {
        Err(e) => Err(e),
        Ok(addresses) => Ok(
            InterfaceModel {
                name: local.interface@,
                private_key: server.private_key@,
                addresses,
                port: server.server_port,
                peers: setups_of(peers),
                mtu: server.mtu,
                fwmark: local.fwmark,
            },
        ),
    }
}

/// The changes that bring the peers of an interface in line: first those to
/// remove, then those to configure.
#[derive(Debug)]
pub struct PeerPlan {
    pub remove: Vec<PublicKey>,
    pub configure: Vec<PeerSetup>,
}

/// The keys in `current` that belong to no desired peer, in their order.
pub open spec fn stale_keys(current: Seq<Seq<u8>>, peers: Seq<DesiredModel>) -> Seq<Seq<u8>>
    decreases current.len(),
{
    if current.len() == 0 {
        seq![]
    } else {
        let rest = stale_keys(current.drop_last(), peers);
        if position(peers, current.last()) is None {
            rest.push(current.last())
        } else {
            rest
        }
    }
}

/// What is read of an interface before it is set up.
#[derive(Debug, Clone, Copy)]
pub struct InterfaceState {
    pub has_private_key: bool,
    pub listen_port: u16,
}

/// Whether an interface, of which `found` was read, if anything, lacks its base
/// configuration.
pub open spec fn lacks_base(found: Option<InterfaceState>) -> bool {
    match found {
        Some(state) => !state.has_private_key || state.listen_port == 0,
        None => true,
    }
}

/// Decides what happens to one WireGuard interface.
#[derive(Debug, Clone)]
pub struct WireguardManager {
    pub config: LocalWireguardConfig,
}

impl WireguardManager {
    /// Whether the interface still needs its base configuration, where `found`
    /// is what was read of it, if it could be read: it does if it could not be
    /// read, or has no private key, or listens on no port.
    pub fn ensure_interface(found: Option<InterfaceState>) -> (r: bool)
        ensures
            r == lacks_base(found),
            r == match found {
                Some(state) => !state.has_private_key || state.listen_port == 0,
                None => true,
            },
    {
        match found {
            Some(state) => !state.has_private_key || state.listen_port == 0,
            None => true,
        }
    }

    /// The full configuration of the interface.
    pub fn configure_base(&self, server: &ServerConfig, desired: &Vec<DesiredPeer>) -> (r: Result<
        InterfacePlan,
        Error,
    >)
        ensures
            outcome(r) == interface_plan(&self.config, server, desired.deep_view()),
    {
        let addresses = match interface_addresses(server) {
            Ok(addresses) => addresses,
            Err(e) => return Err(e),
        };
        let peers = peers_from_desired(desired);
        Ok(
            InterfacePlan {
                name: self.config.interface.clone(),
                private_key: server.private_key.clone(),
                addresses,
                port: server.server_port,
                peers,
                mtu: server.mtu,
                fwmark: self.config.fwmark,
            },
        )
    }

    /// The changes that bring the interface's peers, known by their keys, in
    /// line with the desired ones.
    pub fn reconcile_peers(current: &Vec<PublicKey>, desired: &Vec<DesiredPeer>) -> (r: PeerPlan)
        ensures
            r.remove.deep_view() == stale_keys(current.deep_view(), desired.deep_view()),
            r.configure.deep_view() == setups_of(desired.deep_view()),
    {
        let mut remove: Vec<PublicKey> = Vec::new();
        let ghost keys = current.deep_view();
        let mut i: usize = 0;
        proof {
            assert(remove.deep_view() =~= seq![]);
        }
        while i < current.len()
            invariant
                i <= current@.len(),
                keys == current.deep_view(),
                remove.deep_view() == stale_keys(keys.take(i as int), desired.deep_view()),
            decreases current@.len() - i,
        {
            let ghost before = remove.deep_view();
            proof {
                assert(keys.take(i + 1).drop_last() =~= keys.take(i as int));
                assert(keys.take(i + 1).last() == current@[i as int].deep_view());
            }
            if find_peer(desired, &current[i]).is_none() {
                remove.push(current[i]);
                proof {
                    assert(remove.deep_view() =~= before.push(current@[i as int].deep_view()));
                }
            }
            i += 1;
        }
        proof {
            assert(keys.take(i as int) =~= keys);
        }
        PeerPlan { remove, configure: peers_from_desired(desired) }
    }
}

} // verus!
