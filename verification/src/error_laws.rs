//! What the operator is told.

use crate::error::{debug_list, error_cause, error_text, ErrorModel, RequestFailure};
use crate::text::decimal;
use vstd::prelude::*;

verus! {

/// The message of a refused snapshot names the user, the key or the address that it
/// is refused for.
pub proof fn refused_peers_are_named(
    user_id: u64,
    existing_user_id: u64,
    text: Seq<char>,
    cause: Seq<char>,
)
    ensures
        error_text(ErrorModel::InvalidPublicKey { user_id, cause })
            == "invalid peer public key for user "@ + decimal(user_id as nat),
        error_text(ErrorModel::InvalidAllowedIp { value: text, cause })
            == "invalid peer allowed IP "@ + text,
        error_text(
            ErrorModel::DuplicatePublicKey { public_key: text, user_id, existing_user_id },
        ) == "duplicate WireGuard public key "@ + text + " for user "@ + decimal(user_id as nat)
            + " conflicts with user "@ + decimal(existing_user_id as nat),
{
}

/// The message of unusable settings names the setting, and what it holds.
pub proof fn unusable_settings_are_named(text: Seq<char>, cause: Seq<char>)
    ensures
        error_text(ErrorModel::MissingInterfaceAddress)
            == "v2board config is missing interface_ip/interface_ipv4"@,
        error_text(ErrorModel::MissingAddressPool)
            == "v2board config is missing address_pool/address_pool_ipv4"@,
        error_text(ErrorModel::InvalidInterfaceAddress { value: text, cause })
            == "invalid interface address "@ + text,
        error_text(ErrorModel::InvalidInterfaceIpv6Address { value: text, cause })
            == "invalid interface IPv6 address "@ + text,
        error_text(ErrorModel::UnsupportedFirewallBackend { backend: text })
            == "unsupported firewall backend "@ + text,
{
}

/// The message of a failed command holds its words and what it wrote.
pub proof fn failed_commands_are_told(
    program: Seq<char>,
    args: Seq<Seq<char>>,
    stderr: Seq<char>,
)
    ensures
        error_text(ErrorModel::CommandFailed { program, args, stderr }) == program + " "@
            + debug_list(args) + " failed: "@ + stderr,
{
}

/// The message of a failed panel action names the action and, of a refusal, the
/// status and the words that came with it, if any.
pub proof fn failed_actions_are_named(
    action: Seq<char>,
    status: u16,
    body: Seq<char>,
)
    ensures
        error_text(ErrorModel::PanelDecode { action }) == "failed to decode v2board action "@
            + action,
        error_text(
            ErrorModel::PanelRequest { action, failure: RequestFailure::TimedOut },
        ) == "failed to call v2board action "@ + action + ": "@ + "request timed out"@,
        error_text(
            ErrorModel::PanelRequest { action, failure: RequestFailure::ConnectionFailed },
        ) == "failed to call v2board action "@ + action + ": "@ + "connection failed"@,
        error_text(
            ErrorModel::PanelRequest { action, failure: RequestFailure::BodyFailed },
        ) == "failed to call v2board action "@ + action + ": "@ + "request body failed"@,
        error_text(
            ErrorModel::PanelRequest { action, failure: RequestFailure::Other },
        ) == "failed to call v2board action "@ + action + ": "@ + "request failed"@,
        body.len() == 0 ==> error_text(ErrorModel::PanelStatus { action, status, body })
            == "v2board action "@ + action + " returned HTTP "@ + decimal(status as nat),
        body.len() > 0 ==> error_text(ErrorModel::PanelStatus { action, status, body })
            == "v2board action "@ + action + " returned HTTP "@ + decimal(status as nat) + ": "@
            + body,
{
}

/// A cause stands below the message exactly where a key or an address could not be
/// read: what the reader said of it.
pub proof fn unreadable_texts_have_a_cause(e: ErrorModel, user_id: u64, text: Seq<char>, why: Seq<char>)
    ensures
        error_cause(ErrorModel::InvalidPublicKey { user_id, cause: why }) == Some(why),
        error_cause(ErrorModel::InvalidAllowedIp { value: text, cause: why }) == Some(why),
        error_cause(ErrorModel::InvalidInterfaceAddress { value: text, cause: why }) == Some(why),
        error_cause(ErrorModel::InvalidInterfaceIpv6Address { value: text, cause: why }) == Some(
            why,
        ),
        !(e is InvalidPublicKey) && !(e is InvalidAllowedIp) && !(e is InvalidInterfaceAddress)
            && !(e is InvalidInterfaceIpv6Address) ==> error_cause(e) is None,
{
}

/// The four ways in which a request fails are told apart in words.
pub proof fn request_failures_have_words()
    ensures
        RequestFailure::TimedOut.words() == "request timed out"@,
        RequestFailure::ConnectionFailed.words() == "connection failed"@,
        RequestFailure::BodyFailed.words() == "request body failed"@,
        RequestFailure::Other.words() == "request failed"@,
{
}

} // verus!
