//! What holds of a node's settings and of the interface configuration that is
//! made of them.

use crate::address::{parsed_mask, MaskModel};
use crate::config::{time_limit, LocalWireguardConfig};
use crate::error::ErrorModel;
use crate::payload::ServerConfig;
use crate::peers::DesiredModel;
use crate::wireguard::{
    address_pair, interface_masks, interface_plan, lacks_base, InterfaceState,
};
use vstd::prelude::*;

verus! {

/// The newer of two settings counts wherever it is sent, whatever the older one
/// says, and the older one only where the newer is missing.
pub proof fn newer_settings_come_first(server: &ServerConfig)
    ensures
        server.interface_ipv4 is Some ==> server.interface_v4() == Some(server.interface_ipv4->0@),
        server.interface_ipv4 is None && server.interface_ip is Some ==> server.interface_v4()
            == Some(server.interface_ip->0@),
        server.interface_ipv4 is None && server.interface_ip is None ==> server.interface_v4()
            is None,
        server.address_pool_ipv4 is Some ==> server.pool_v4() == Some(
            server.address_pool_ipv4->0@,
        ),
        server.address_pool_ipv4 is None && server.address_pool is Some ==> server.pool_v4()
            == Some(server.address_pool->0@),
        server.address_pool_ipv4 is None && server.address_pool is None ==> server.pool_v4()
            is None,
{
}

/// Of a pair of readings the first decides first: its failure is told, then that of
/// the second; without failures the addresses stand in that order.
pub proof fn readings_are_paired_in_order(
    v4: Seq<char>,
    v6: Seq<char>,
    first: MaskModel,
    second: MaskModel,
    why: Seq<char>,
    rest: Option<(Seq<char>, Result<MaskModel, Seq<char>>)>,
)
    ensures
        address_pair((v4, Err(why)), rest) == Err::<Seq<MaskModel>, ErrorModel>(
            ErrorModel::InvalidInterfaceAddress { value: v4, cause: why },
        ),
        address_pair((v4, Ok(first)), None) == Ok::<Seq<MaskModel>, ErrorModel>(seq![first]),
        address_pair((v4, Ok(first)), Some((v6, Err(why)))) == Err::<Seq<MaskModel>, ErrorModel>(
            ErrorModel::InvalidInterfaceIpv6Address { value: v6, cause: why },
        ),
        address_pair((v4, Ok(first)), Some((v6, Ok(second)))) == Ok::<Seq<MaskModel>, ErrorModel>(
            seq![first, second],
        ),
{
}

/// The interface gets the node's IPv4 address and, in every IPv6 mode but
/// `disabled`, the node's IPv6 address behind it, if it has one. It gets none if
/// the IPv4 address is missing or unreadable, or the IPv6 address that it should
/// get is unreadable.
pub proof fn interfaces_get_both_addresses_unless_disabled(server: &ServerConfig, v4: Seq<char>)
    ensures
        server.interface_ipv4 is None && server.interface_ip is None ==> interface_masks(server)
            == Err::<Seq<MaskModel>, ErrorModel>(ErrorModel::MissingInterfaceAddress),
        server.interface_v4() == Some(v4) ==> ({
            let with_v6 = server.ipv6_mode@ != "disabled"@ && server.interface_ipv6 is Some;
            let v6 = server.interface_ipv6->0@;
            &&& parsed_mask(v4) is Err ==> interface_masks(server) == Err::<
                Seq<MaskModel>,
                ErrorModel,
            >(
                ErrorModel::InvalidInterfaceAddress {
                    value: v4,
                    cause: parsed_mask(v4)->Err_0,
                },
            )
            &&& parsed_mask(v4) is Ok && !with_v6 ==> interface_masks(server) == Ok::<
                Seq<MaskModel>,
                ErrorModel,
            >(seq![parsed_mask(v4)->Ok_0])
            &&& parsed_mask(v4) is Ok && with_v6 && parsed_mask(v6) is Err ==> interface_masks(
                server,
            ) == Err::<Seq<MaskModel>, ErrorModel>(
                ErrorModel::InvalidInterfaceIpv6Address {
                    value: v6,
                    cause: parsed_mask(v6)->Err_0,
                },
            )
            &&& parsed_mask(v4) is Ok && with_v6 && parsed_mask(v6) is Ok ==> interface_masks(server)
                == Ok::<Seq<MaskModel>, ErrorModel>(
                seq![parsed_mask(v4)->Ok_0, parsed_mask(v6)->Ok_0],
            )
        }),
{
}

/// Two nodes that differ in the IPv6 mode only, neither being `disabled`, get the
/// same addresses.
pub proof fn ipv6_modes_but_disabled_are_alike(a: &ServerConfig, b: &ServerConfig)
    requires
        a.ipv6_mode@ != "disabled"@,
        b.ipv6_mode@ != "disabled"@,
        a.interface_v4() == b.interface_v4(),
        a.interface_ipv6 == b.interface_ipv6,
    ensures
        interface_masks(a) == interface_masks(b),
{
}

/// A full configuration takes the interface's name and mark from the local settings
/// and the key, the port and the size limit from the node's; it holds the
/// interface's addresses and every desired peer in turn. It cannot be made exactly
/// if the addresses cannot, and then for the same reason.
pub proof fn configurations_hold_all_settings(
    local: &LocalWireguardConfig,
    server: &ServerConfig,
    peers: Seq<DesiredModel>,
)
    ensures
        match (interface_masks(server), interface_plan(local, server, peers)) {
            (Ok(addresses), Ok(plan)) => {
                &&& plan.name == local.interface@
                &&& plan.fwmark == local.fwmark
                &&& plan.private_key == server.private_key@
                &&& plan.port == server.server_port
                &&& plan.mtu == server.mtu
                &&& plan.addresses == addresses
                &&& plan.peers.len() == peers.len()
                &&& forall|i: int|
                    0 <= i < peers.len() ==> (#[trigger] plan.peers[i]).public_key
                        == peers[i].public_key && plan.peers[i].allowed_ips == peers[i].allowed_ips
            },
            (Err(e), Err(told)) => told == e,
            _ => false,
        },
{
}

/// An interface has its base exactly if it could be read, has a private key and
/// listens on some port, whichever that is.
pub proof fn keyed_listening_interfaces_have_their_base(found: Option<InterfaceState>)
    ensures
        found is None ==> lacks_base(found),
        found is Some && !found->0.has_private_key ==> lacks_base(found),
        found is Some && found->0.listen_port == 0 ==> lacks_base(found),
        found is Some && found->0.has_private_key && found->0.listen_port > 0 ==> !lacks_base(found),
{
}

/// The time limit of a request is the configured one, but never zero.
pub proof fn requests_have_a_time_limit(timeout_secs: u64)
    ensures
        timeout_secs > 0 ==> time_limit(timeout_secs) == timeout_secs,
        time_limit(0) == 1,
{
}

} // verus!
