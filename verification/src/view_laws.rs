//! What the models of the crate's records hold: every field of the record, as it
//! is, and of a text its characters.

use crate::address::{reading, AddressMask, PublicKey};
use crate::command::CommandStep;
use crate::error::{Error, ErrorModel};
use crate::net::LimitedAddress;
use crate::payload::{PeerPayload, UserPayload};
use crate::peers::{outcome, readings, DesiredPeer};
use crate::report::{HostPeer, StatusPeerReport, StatusReport, TrafficPeerReport, TrafficReport};
use crate::wireguard::{InterfacePlan, PeerSetup};
use vstd::prelude::*;

verus! {

/// Whether `model` holds the characters of a text that may be missing.
pub open spec fn holds_text(text: Option<String>, model: Option<Seq<char>>) -> bool {
    match (text, model) {
        (Some(text), Some(chars)) => chars == text@,
        (None, None) => true,
        _ => false,
    }
}

/// The model of a key is its bytes.
pub proof fn keys_are_their_bytes(key: &PublicKey)
    ensures
        key.deep_view() == key.bytes@,
        key.deep_view().len() == 32,
{
}

/// The model of an address mask holds all of it.
pub proof fn masks_keep_their_fields(mask: &AddressMask)
    ensures
        mask.deep_view().address == mask.address@,
        mask.deep_view().is_ipv4 == mask.is_ipv4,
        mask.deep_view().cidr == mask.cidr,
{
}

/// What was read is kept as it was read, or the reason why nothing was.
pub proof fn readings_are_kept<T: DeepView>(value: T, why: String)
    ensures
        reading(Ok::<T, String>(value)) == Ok::<T::V, Seq<char>>(value.deep_view()),
        reading(Err::<T, String>(why)) == Err::<T::V, Seq<char>>(why@),
{
}

/// A result is modelled by its value or by its error, never by the other.
pub proof fn results_are_kept<T: DeepView>(value: T, e: Error)
    ensures
        outcome(Ok::<T, Error>(value)) == Ok::<T::V, ErrorModel>(value.deep_view()),
        outcome(Err::<T, Error>(e)) == Err::<T::V, ErrorModel>(e.deep_view()),
{
}

/// The model of a peer that the panel sent holds all of it.
pub proof fn payloads_keep_their_fields(peer: &PeerPayload)
    ensures
        peer.deep_view().peer_id == peer.peer_id,
        peer.deep_view().user_id == peer.user_id,
        holds_text(peer.device_id, peer.deep_view().device_id),
        peer.deep_view().public_key == peer.public_key@,
        holds_text(peer.ip, peer.deep_view().ip),
        holds_text(peer.ipv4, peer.deep_view().ipv4),
        holds_text(peer.ipv6, peer.deep_view().ipv6),
        peer.deep_view().allowed_ips.len() == peer.allowed_ips@.len(),
        forall|i: int|
            0 <= i < peer.allowed_ips@.len() ==> #[trigger] peer.deep_view().allowed_ips[i]
                == peer.allowed_ips@[i]@,
        peer.deep_view().speed_limit == peer.speed_limit,
        peer.deep_view().device_limit == peer.device_limit,
        peer.deep_view().enabled == peer.enabled,
        peer.deep_view().revoked_at == peer.revoked_at,
{
}

/// The model of a user holds all of it.
pub proof fn users_keep_their_fields(user: &UserPayload)
    ensures
        user.deep_view().id == user.id,
        user.deep_view().speed_limit == user.speed_limit,
        user.deep_view().device_limit == user.device_limit,
        match user.wireguard {
            Some(peer) => user.deep_view().wireguard == Some(peer.deep_view()),
            None => user.deep_view().wireguard is None,
        },
        user.deep_view().wireguard_peers.len() == user.wireguard_peers@.len(),
        forall|i: int|
            0 <= i < user.wireguard_peers@.len() ==> #[trigger] user.deep_view().wireguard_peers[i]
                == user.wireguard_peers@[i].deep_view(),
{
}

/// The model of a desired peer holds all of it.
pub proof fn desired_peers_keep_their_fields(peer: &DesiredPeer)
    ensures
        peer.deep_view().peer_id == peer.peer_id,
        peer.deep_view().user_id == peer.user_id,
        peer.deep_view().device_id == peer.device_id@,
        peer.deep_view().public_key == peer.public_key.bytes@,
        peer.deep_view().public_key_string == peer.public_key_string@,
        peer.deep_view().allowed_ips.len() == peer.allowed_ips@.len(),
        forall|i: int|
            0 <= i < peer.allowed_ips@.len() ==> #[trigger] peer.deep_view().allowed_ips[i]
                == peer.allowed_ips@[i].deep_view(),
        peer.deep_view().speed_limit_mbps == peer.speed_limit_mbps,
{
}

/// The model of a peer's setup holds its key and its addresses.
pub proof fn setups_keep_their_fields(setup: &PeerSetup)
    ensures
        setup.deep_view().public_key == setup.public_key.bytes@,
        setup.deep_view().allowed_ips.len() == setup.allowed_ips@.len(),
        forall|i: int|
            0 <= i < setup.allowed_ips@.len() ==> #[trigger] setup.deep_view().allowed_ips[i]
                == setup.allowed_ips@[i].deep_view(),
{
}

/// The model of an interface configuration holds all of it.
pub proof fn interface_plans_keep_their_fields(plan: &InterfacePlan)
    ensures
        plan.deep_view().name == plan.name@,
        plan.deep_view().private_key == plan.private_key@,
        plan.deep_view().addresses.len() == plan.addresses@.len(),
        forall|i: int|
            0 <= i < plan.addresses@.len() ==> #[trigger] plan.deep_view().addresses[i]
                == plan.addresses@[i].deep_view(),
        plan.deep_view().port == plan.port,
        plan.deep_view().peers.len() == plan.peers@.len(),
        forall|i: int|
            0 <= i < plan.peers@.len() ==> #[trigger] plan.deep_view().peers[i]
                == plan.peers@[i].deep_view(),
        plan.deep_view().mtu == plan.mtu,
        plan.deep_view().fwmark == plan.fwmark,
{
}

/// The model of a command holds all of it.
pub proof fn steps_keep_their_fields(step: &CommandStep)
    ensures
        step.deep_view().program == step.program@,
        step.deep_view().args.len() == step.args@.len(),
        forall|i: int|
            0 <= i < step.args@.len() ==> #[trigger] step.deep_view().args[i] == step.args@[i]@,
        holds_text(step.stdin, step.deep_view().stdin),
        step.deep_view().ignore_failure == step.ignore_failure,
        step.deep_view().dry_run == step.dry_run,
{
}

/// The model of a limited address is its limit and its mask.
pub proof fn limits_keep_their_fields(limited: &LimitedAddress)
    ensures
        limited.deep_view().0 == limited.limit,
        limited.deep_view().1 == limited.ip.deep_view(),
{
}

/// The model of what the interface tells of a peer holds all of it.
pub proof fn host_peers_keep_their_fields(peer: &HostPeer)
    ensures
        peer.deep_view().public_key == peer.public_key.bytes@,
        peer.deep_view().last_handshake == peer.last_handshake,
        holds_text(peer.endpoint, peer.deep_view().endpoint),
        peer.deep_view().rx_bytes == peer.rx_bytes,
        peer.deep_view().tx_bytes == peer.tx_bytes,
{
}

/// The model of a peer's traffic holds all of it: upload as upload, download as
/// download.
pub proof fn traffic_entries_keep_their_fields(entry: &TrafficPeerReport)
    ensures
        entry.deep_view().peer_id == entry.peer_id,
        entry.deep_view().user_id == entry.user_id,
        entry.deep_view().device_id == entry.device_id@,
        entry.deep_view().public_key == entry.public_key@,
        entry.deep_view().upload == entry.upload,
        entry.deep_view().download == entry.download,
        entry.deep_view().last_handshake_at == entry.last_handshake_at,
        holds_text(entry.last_endpoint, entry.deep_view().last_endpoint),
{
}

/// The model of a peer's state holds all of it.
pub proof fn status_entries_keep_their_fields(entry: &StatusPeerReport)
    ensures
        entry.deep_view().peer_id == entry.peer_id,
        entry.deep_view().user_id == entry.user_id,
        entry.deep_view().device_id == entry.device_id@,
        entry.deep_view().public_key == entry.public_key@,
        entry.deep_view().last_handshake_at == entry.last_handshake_at,
        holds_text(entry.last_endpoint, entry.deep_view().last_endpoint),
{
}

/// The model of a traffic report holds all of it.
pub proof fn traffic_reports_keep_their_fields(report: &TrafficReport)
    ensures
        report.deep_view().report_id == report.report_id@,
        report.deep_view().reported_at == report.reported_at,
        report.deep_view().peers.len() == report.peers@.len(),
        forall|i: int|
            0 <= i < report.peers@.len() ==> #[trigger] report.deep_view().peers[i]
                == report.peers@[i].deep_view(),
{
}

/// The model of a status report holds all of it.
pub proof fn status_reports_keep_their_fields(report: &StatusReport)
    ensures
        report.deep_view().reported_at == report.reported_at,
        report.deep_view().online == report.online as nat,
        report.deep_view().peers.len() == report.peers@.len(),
        forall|i: int|
            0 <= i < report.peers@.len() ==> #[trigger] report.deep_view().peers[i]
                == report.peers@[i].deep_view(),
{
}

/// The model of an error is of the same kind and holds all of it.
pub proof fn errors_keep_their_fields(e: &Error)
    ensures
        match (*e, e.deep_view()) {
            (Error::MissingInterfaceAddress, ErrorModel::MissingInterfaceAddress) => true,
            (Error::MissingAddressPool, ErrorModel::MissingAddressPool) => true,
            (
                Error::InvalidPublicKey { user_id, cause },
                ErrorModel::InvalidPublicKey { user_id: user, cause: why },
            ) => user == user_id && why == cause@,
            (
                Error::InvalidAllowedIp { value, cause },
                ErrorModel::InvalidAllowedIp { value: text, cause: why },
            ) => text == value@ && why == cause@,
            (
                Error::DuplicatePublicKey { public_key, user_id, existing_user_id },
                ErrorModel::DuplicatePublicKey {
                    public_key: key,
                    user_id: user,
                    existing_user_id: existing,
                },
            ) => key == public_key@ && user == user_id && existing == existing_user_id,
            (
                Error::InvalidInterfaceAddress { value, cause },
                ErrorModel::InvalidInterfaceAddress { value: text, cause: why },
            ) => text == value@ && why == cause@,
            (
                Error::InvalidInterfaceIpv6Address { value, cause },
                ErrorModel::InvalidInterfaceIpv6Address { value: text, cause: why },
            ) => text == value@ && why == cause@,
            (
                Error::UnsupportedFirewallBackend { backend },
                ErrorModel::UnsupportedFirewallBackend { backend: text },
            ) => text == backend@,
            (
                Error::CommandFailed { program, args, stderr },
                ErrorModel::CommandFailed { program: name, args: words, stderr: told },
            ) => name == program@ && told == stderr@ && words.len() == args@.len() && forall|i: int|
                0 <= i < args@.len() ==> #[trigger] words[i] == args@[i]@,
            (
                Error::PanelRequest { action, failure },
                ErrorModel::PanelRequest { action: name, failure: kind },
            ) => name == action@ && kind == failure,
            (
                Error::PanelStatus { action, status, body },
                ErrorModel::PanelStatus { action: name, status: code, body: words },
            ) => name == action@ && code == status && words == body@,
            (Error::PanelDecode { action }, ErrorModel::PanelDecode { action: name }) => name
                == action@,
            _ => false,
        },
{
}

/// What was read from a list of texts is kept for each of them, in their order.
pub proof fn lists_of_readings_are_kept(parsed: Seq<Result<AddressMask, String>>)
    ensures
        readings(parsed).len() == parsed.len(),
        forall|i: int| 0 <= i < parsed.len() ==> #[trigger] readings(parsed)[i] == reading(parsed[i]),
{
}

} // verus!
