//! The decisions of a WireGuard backend daemon for v2board nodes: which peers
//! an interface should hold, what the panel is told of them, and which firewall
//! and traffic-control commands bring the host in line.

pub mod address;
pub mod clock;
pub mod clock_laws;
pub mod command;
pub mod command_laws;
pub mod config;
pub mod error;
pub mod error_laws;
pub mod net;
pub mod net_laws;
pub mod panel;
pub mod panel_laws;
pub mod payload;
pub mod peer_laws;
pub mod peers;
pub mod report;
pub mod report_laws;
pub mod runtime;
pub mod runtime_laws;
pub mod schedule;
pub mod schedule_laws;
pub mod text;
pub mod text_laws;
pub mod view_laws;
pub mod wireguard;
pub mod wireguard_laws;
