//! Why a step of the daemon was refused, and what the operator is told of it.

use crate::text::{decimal, decimal_text, owned};
use vstd::prelude::*;
use vstd::string::*;

verus! {

/// What went wrong with a request before any answer came.
#[derive(Debug, Clone, Copy, PartialEq, Eq, Structural)]
pub enum RequestFailure {
    TimedOut,
    ConnectionFailed,
    BodyFailed,
    Other,
}

/// Why a step of the daemon was refused.
#[derive(Debug)]
pub enum Error {
    /// The configuration holds no IPv4 address for the interface.
    MissingInterfaceAddress,
    /// The configuration holds no IPv4 address pool.
    MissingAddressPool,
    /// A peer's public key is not a WireGuard key.
    InvalidPublicKey { user_id: u64, cause: String },
    /// An allowed address of a peer is no address.
    InvalidAllowedIp { value: String, cause: String },
    /// Two peers share one public key.
    DuplicatePublicKey { public_key: String, user_id: u64, existing_user_id: u64 },
    /// The interface's IPv4 address is no address.
    InvalidInterfaceAddress { value: String, cause: String },
    /// The interface's IPv6 address is no address.
    InvalidInterfaceIpv6Address { value: String, cause: String },
    /// The configured firewall backend is not known.
    UnsupportedFirewallBackend { backend: String },
    /// A host command ended with a failure status.
    CommandFailed { program: String, args: Vec<String>, stderr: String },
    /// A panel request failed before an answer came.
    PanelRequest { action: String, failure: RequestFailure },
    /// The panel answered with a failure status.
    PanelStatus { action: String, status: u16, body: String },
    /// The panel's answer could not be read.
    PanelDecode { action: String },
}

/// The model of an `Error`: its texts as character sequences.
pub enum ErrorModel {
    MissingInterfaceAddress,
    MissingAddressPool,
    InvalidPublicKey { user_id: u64, cause: Seq<char> },
    InvalidAllowedIp { value: Seq<char>, cause: Seq<char> },
    DuplicatePublicKey { public_key: Seq<char>, user_id: u64, existing_user_id: u64 },
    InvalidInterfaceAddress { value: Seq<char>, cause: Seq<char> },
    InvalidInterfaceIpv6Address { value: Seq<char>, cause: Seq<char> },
    UnsupportedFirewallBackend { backend: Seq<char> },
    CommandFailed { program: Seq<char>, args: Seq<Seq<char>>, stderr: Seq<char> },
    PanelRequest { action: Seq<char>, failure: RequestFailure },
    PanelStatus { action: Seq<char>, status: u16, body: Seq<char> },
    PanelDecode { action: Seq<char> },
}

impl DeepView for Error {
    type V = ErrorModel;

    open spec fn deep_view(&self) -> ErrorModel {
        match *self {
            Error::MissingInterfaceAddress => ErrorModel::MissingInterfaceAddress,
            Error::MissingAddressPool => ErrorModel::MissingAddressPool,
            Error::InvalidPublicKey { user_id, cause } => ErrorModel::InvalidPublicKey {
                user_id,
                cause: cause@,
            },
            Error::InvalidAllowedIp { value, cause } => ErrorModel::InvalidAllowedIp {
                value: value@,
                cause: cause@,
            },
            Error::DuplicatePublicKey { public_key, user_id, existing_user_id } =>
                ErrorModel::DuplicatePublicKey {
                    public_key: public_key@,
                    user_id,
                    existing_user_id,
                },
            Error::InvalidInterfaceAddress { value, cause } =>
                ErrorModel::InvalidInterfaceAddress { value: value@, cause: cause@ },
            Error::InvalidInterfaceIpv6Address { value, cause } =>
                ErrorModel::InvalidInterfaceIpv6Address { value: value@, cause: cause@ },
            Error::UnsupportedFirewallBackend { backend } =>
                ErrorModel::UnsupportedFirewallBackend { backend: backend@ },
            Error::CommandFailed { program, args, stderr } => ErrorModel::CommandFailed {
                program: program@,
                args: args.deep_view(),
                stderr: stderr@,
            },
            Error::PanelRequest { action, failure } => ErrorModel::PanelRequest {
                action: action@,
                failure,
            },
            Error::PanelStatus { action, status, body } => ErrorModel::PanelStatus {
                action: action@,
                status,
                body: body@,
            },
            Error::PanelDecode { action } => ErrorModel::PanelDecode { action: action@ },
        }
    }
}

/// What the `Debug` format of std makes of a list of texts.
pub uninterp spec fn debug_list(items: Seq<Seq<char>>) -> Seq<char>;

/// `format!` of std with `{:?}` on a list of texts. The result depends on the
/// texts alone and is named by `debug_list`; how a text is quoted is not stated.
#[verifier::external_body]
fn debug_list_text(items: &Vec<String>) -> (r: String)
    ensures
        r@ == debug_list(items.deep_view()),
{
    format!("{:?}", items)
}

impl RequestFailure {
    /// The failure in words.
    pub open spec fn words(self) -> Seq<char> {
        match self {
            RequestFailure::TimedOut => "request timed out"@,
            RequestFailure::ConnectionFailed => "connection failed"@,
            RequestFailure::BodyFailed => "request body failed"@,
            RequestFailure::Other => "request failed"@,
        }
    }

    /// The failure in words.
    pub fn reason(self) -> (r: String)
        ensures
            r@ == self.words(),
    {
        match self {
            RequestFailure::TimedOut => owned("request timed out"),
            RequestFailure::ConnectionFailed => owned("connection failed"),
            RequestFailure::BodyFailed => owned("request body failed"),
            RequestFailure::Other => owned("request failed"),
        }
    }
}

/// The message of an error.
pub open spec fn error_text(e: ErrorModel) -> Seq<char> {
    match e {
        ErrorModel::MissingInterfaceAddress =>
            "v2board config is missing interface_ip/interface_ipv4"@,
        ErrorModel::MissingAddressPool =>
            "v2board config is missing address_pool/address_pool_ipv4"@,
        ErrorModel::InvalidPublicKey { user_id, .. } => "invalid peer public key for user "@ + decimal(
            user_id as nat,
        ),
        ErrorModel::InvalidAllowedIp { value, .. } => "invalid peer allowed IP "@ + value,
        ErrorModel::DuplicatePublicKey { public_key, user_id, existing_user_id } =>
            "duplicate WireGuard public key "@ + public_key + " for user "@ + decimal(
            user_id as nat,
        ) + " conflicts with user "@ + decimal(existing_user_id as nat),
        ErrorModel::InvalidInterfaceAddress { value, .. } => "invalid interface address "@ + value,
        ErrorModel::InvalidInterfaceIpv6Address { value, .. } => "invalid interface IPv6 address "@
            + value,
        ErrorModel::UnsupportedFirewallBackend { backend } => "unsupported firewall backend "@
            + backend,
        ErrorModel::CommandFailed { program, args, stderr } => program + " "@ + debug_list(args)
            + " failed: "@ + stderr,
        ErrorModel::PanelRequest { action, failure } => "failed to call v2board action "@ + action
            + ": "@ + failure.words(),
        ErrorModel::PanelStatus { action, status, body } => {
            let head = "v2board action "@ + action + " returned HTTP "@ + decimal(status as nat);
            if body.len() == 0 {
                head
            } else {
                head + ": "@ + body
            }
        },
        ErrorModel::PanelDecode { action } => "failed to decode v2board action "@ + action,
    }
}

/// The cause below the message of an error: why a key or an address could not be
/// read.
pub open spec fn error_cause(e: ErrorModel) -> Option<Seq<char>> {
    match e {
        ErrorModel::InvalidPublicKey { cause, .. } => Some(cause),
        ErrorModel::InvalidAllowedIp { cause, .. } => Some(cause),
        ErrorModel::InvalidInterfaceAddress { cause, .. } => Some(cause),
        ErrorModel::InvalidInterfaceIpv6Address { cause, .. } => Some(cause),
        _ => None,
    }
}

impl Error {
    /// The cause below the message of the error, if there is one.
    pub fn cause(&self) -> (r: Option<String>)
        ensures
            r.deep_view() == error_cause(self.deep_view()),
    {
        match self {
            Error::InvalidPublicKey { cause, .. } => Some(cause.clone()),
            Error::InvalidAllowedIp { cause, .. } => Some(cause.clone()),
            Error::InvalidInterfaceAddress { cause, .. } => Some(cause.clone()),
            Error::InvalidInterfaceIpv6Address { cause, .. } => Some(cause.clone()),
            _ => None,
        }
    }

    /// The message of the error.
    pub fn message(&self) -> (r: String)
        ensures
            r@ == error_text(self.deep_view()),
    {
        match self {
            Error::MissingInterfaceAddress => owned(
                "v2board config is missing interface_ip/interface_ipv4",
            ),
            Error::MissingAddressPool => owned(
                "v2board config is missing address_pool/address_pool_ipv4",
            ),
            Error::InvalidPublicKey { user_id, .. } => {
                let mut s = owned("invalid peer public key for user ");
                s.append(decimal_text(*user_id as u128).as_str());
                s
            },
            Error::InvalidAllowedIp { value, .. } => {
                let mut s = owned("invalid peer allowed IP ");
                s.append(value.as_str());
                s
            },
            Error::DuplicatePublicKey { public_key, user_id, existing_user_id } => {
                let mut s = owned("duplicate WireGuard public key ");
                s.append(public_key.as_str());
                s.append(" for user ");
                s.append(decimal_text(*user_id as u128).as_str());
                s.append(" conflicts with user ");
                s.append(decimal_text(*existing_user_id as u128).as_str());
                s
            },
            Error::InvalidInterfaceAddress { value, .. } => {
                let mut s = owned("invalid interface address ");
                s.append(value.as_str());
                s
            },
            Error::InvalidInterfaceIpv6Address { value, .. } => {
                let mut s = owned("invalid interface IPv6 address ");
                s.append(value.as_str());
                s
            },
            Error::UnsupportedFirewallBackend { backend } => {
                let mut s = owned("unsupported firewall backend ");
                s.append(backend.as_str());
                s
            },
            Error::CommandFailed { program, args, stderr } => {
                let mut s = owned(program.as_str());
                s.append(" ");
                s.append(debug_list_text(args).as_str());
                s.append(" failed: ");
                s.append(stderr.as_str());
                s
            },
            Error::PanelRequest { action, failure } => {
                let mut s = owned("failed to call v2board action ");
                s.append(action.as_str());
                s.append(": ");
                s.append(failure.reason().as_str());
                s
            },
            Error::PanelStatus { action, status, body } => {
                let mut s = owned("v2board action ");
                s.append(action.as_str());
                s.append(" returned HTTP ");
                s.append(decimal_text(*status as u128).as_str());
                if !body.as_str().is_empty() {
                    s.append(": ");
                    s.append(body.as_str());
                }
                s
            },
            Error::PanelDecode { action } => {
                let mut s = owned("failed to decode v2board action ");
                s.append(action.as_str());
                s
            },
        }
    }
}

} // verus!
