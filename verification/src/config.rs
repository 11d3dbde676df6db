//! The daemon's own settings, and the values that stand in for absent ones.

use crate::text::owned;
use vstd::prelude::*;

verus! {

/// How the panel is reached and how this node presents itself to it.
#[derive(Debug, Clone)]
pub struct PanelConfig {
    pub base_url: String,
    pub token: String,
    pub node_id: u64,
    pub node_type: String,
    pub timeout_secs: u64,
}

/// The time limit of a panel request in seconds where one is configured.
pub open spec fn time_limit(timeout_secs: u64) -> u64 {
    if timeout_secs == 0 {
        1
    } else {
        timeout_secs
    }
}

impl PanelConfig {
    /// The time limit of a panel request in seconds: as configured, at least one.
    pub fn request_timeout_secs(&self) -> (r: u64)
        ensures
            r == time_limit(self.timeout_secs),
            r == if self.timeout_secs < 1 {
                1
            } else {
                self.timeout_secs
            },
    {
        if self.timeout_secs < 1 {
            1
        } else {
            self.timeout_secs
        }
    }
}

/// The WireGuard interface that this node manages.
#[derive(Debug, Clone)]
pub struct LocalWireguardConfig {
    pub interface: String,
    pub fwmark: Option<u32>,
    pub online_handshake_window_secs: Option<u64>,
}

/// Whether and how packet filtering is set up.
#[derive(Debug, Clone)]
pub struct FirewallConfig {
    pub enabled: bool,
    pub backend: String,
    pub outbound_interface: Option<String>,
    pub dry_run: bool,
}

impl Default for FirewallConfig {
    fn default() -> (r: Self)
        ensures
            r.enabled,
            r.backend@ == "nftables"@,
            r.outbound_interface is None,
            !r.dry_run,
    {
        FirewallConfig {
            enabled: true,
            backend: default_firewall_backend(),
            outbound_interface: None,
            dry_run: false,
        }
    }
}

/// Whether speed limits are enforced.
#[derive(Debug, Clone, Copy)]
pub struct RateLimitConfig {
    pub enabled: bool,
    pub dry_run: bool,
}

impl Default for RateLimitConfig {
    fn default() -> (r: Self)
        ensures
            r.enabled,
            !r.dry_run,
    {
        RateLimitConfig { enabled: true, dry_run: false }
    }
}

/// The node type of a panel configuration that names none.
pub fn default_node_type() -> (r: String)
    ensures
        r@ == "wireguard"@,
{
    owned("wireguard")
}

/// The firewall backend of a configuration that names none.
pub fn default_firewall_backend() -> (r: String)
    ensures
        r@ == "nftables"@,
{
    owned("nftables")
}

/// The time limit of panel requests, in seconds, where none is configured.
pub fn default_timeout_secs() -> (r: u64)
    ensures
        r == 10,
{
    10
}

/// The pull and push interval, in seconds, where the panel sends none.
pub fn default_interval() -> (r: u64)
    ensures
        r == 60,
{
    60
}

/// The configuration version where the panel sends none.
pub fn default_config_version() -> (r: u64)
    ensures
        r == 1,
{
    1
}

/// The IPv6 mode where the panel sends none.
pub fn default_ipv6_mode() -> (r: String)
    ensures
        r@ == "routed"@,
{
    owned("routed")
}

/// The value of a switch that is on unless configured otherwise.
pub fn default_true() -> (r: bool)
    ensures
        r,
{
    true
}

} // verus!
