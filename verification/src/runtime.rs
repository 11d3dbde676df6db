//! The daemon's memory between two looks at the panel, and how a snapshot is
//! applied step by step.

use crate::config::{FirewallConfig, LocalWireguardConfig, PanelConfig, RateLimitConfig};
use crate::error::{Error, ErrorModel};
use crate::payload::{BaseConfig, ServerConfig, Snapshot};
use crate::peers::{desired_list, desired_peers, distinct_keys, DesiredModel, DesiredPeer};
use crate::report::{
    online_count, present, read_peers, status_peers, traffic_peers, HostModel, HostPeer, Reports,
    StatusModel, StatusReport, TrafficModel, TrafficReport,
};
use crate::text::{decimal, decimal_text, same_text, trim, trimmed, CharSet};
use vstd::prelude::*;
use vstd::string::*;

verus! {

/// The daemon's settings.
#[derive(Debug, Clone)]
pub struct DaemonConfig {
    pub panel: PanelConfig,
    pub wireguard: LocalWireguardConfig,
    pub firewall: FirewallConfig,
    pub rate_limit: RateLimitConfig,
}

/// What the daemon remembers between two looks at the panel.
#[derive(Debug)]
pub struct Runtime {
    pub config: DaemonConfig,
    /// The peers of the snapshot that was applied last.
    pub desired: Vec<DesiredPeer>,
    /// The version of the configuration that was applied last.
    pub last_config_version: Option<u64>,
    /// How many traffic reports were made, modulo what a counter can hold.
    pub report_sequence: u64,
    /// Whether the operator was told that IPv6 is not forwarded.
    pub ipv6_forwarding_warning_emitted: bool,
}

/// The counter after `n`.
pub open spec fn next_sequence(n: u64) -> u64 {
    if n == u64::MAX {
        0
    } else {
        (n + 1) as u64
    }
}

/// The name of a report: the node, the time and the number of the report.
pub open spec fn report_name(node_id: u64, millis: u128, sequence: u64) -> Seq<char> {
    decimal(node_id as nat) + "-"@ + decimal(millis as nat) + "-"@ + decimal(sequence as nat)
}

/// How old a handshake may be, in seconds, for its peer to be online: as
/// configured, else three times the push interval and at least three minutes,
/// and never less than 30 seconds.
pub open spec fn online_window(configured: Option<u64>, push_interval: u64) -> u64 {
    let wish = match configured {
        Some(secs) => secs,
        None => {
            let triple = if 3 * push_interval > u64::MAX {
                u64::MAX as int
            } else {
                3 * push_interval
            };
            (if triple < 180 {
                180
            } else {
                triple
            }) as u64
        },
    };
    if wish < 30 {
        30
    } else {
        wish
    }
}

/// Whether a node's traffic needs IPv6 to be forwarded.
pub open spec fn uses_ipv6(server: &ServerConfig) -> bool {
    server.ipv6_mode@ != "disabled"@ && (server.address_pool_ipv6 is Some
        || server.interface_ipv6 is Some)
}

/// Whether a node's traffic needs IPv6 to be forwarded.
pub fn needs_ipv6_forwarding(server: &ServerConfig) -> (r: bool)
    ensures
        r == uses_ipv6(server),
{
    !same_text(server.ipv6_mode.as_str(), "disabled") && (server.address_pool_ipv6.is_some()
        || server.interface_ipv6.is_some())
}

/// Whether the operator is told now that IPv6 is not forwarded: not if that was
/// done before, and only if the node uses IPv6 and the kernel's switch is off.
pub open spec fn warns(emitted: bool, server: &ServerConfig, forwarding: Option<bool>) -> bool {
    !emitted && uses_ipv6(server) && forwarding == Some(false)
}

/// Whether the kernel's forwarding switch, as read, is on.
pub open spec fn switched_on(value: Seq<char>) -> bool {
    trimmed(value, CharSet::WhiteSpace) == "1"@
}

/// Whether the kernel's forwarding switch, as read, is on.
pub fn ipv6_forwarding_enabled(value: &str) -> (r: bool)
    ensures
        r == switched_on(value@),
        r == (trimmed(value@, CharSet::WhiteSpace) == "1"@),
{
    same_text(trim(value, CharSet::WhiteSpace).as_str(), "1")
}

/// The traffic report of a look at the interface, if there is traffic to report.
pub open spec fn traffic_report(
    runtime: &Runtime,
    host: Seq<HostModel>,
    now: u64,
    millis: u128,
    min_traffic: u64,
) -> Option<TrafficModel> {
    let peers = traffic_peers(present(runtime.desired.deep_view(), host), min_traffic);
    if peers.len() == 0 {
        None
    } else {
        Some(
            TrafficModel {
                report_id: report_name(
                    runtime.config.panel.node_id,
                    millis,
                    next_sequence(runtime.report_sequence),
                ),
                reported_at: now,
                peers,
            },
        )
    }
}

/// The status report of a look at the interface.
pub open spec fn status_report(
    runtime: &Runtime,
    host: Seq<HostModel>,
    now: u64,
    window_secs: u64,
) -> StatusModel {
    let peers = present(runtime.desired.deep_view(), host);
    StatusModel {
        reported_at: now,
        online: online_count(peers, now, window_secs),
        peers: status_peers(peers),
    }
}

/// The reports of a look at the interface: that of the traffic, if there is any, and
/// that of the status, if it is asked for.
pub open spec fn reports_of(
    runtime: &Runtime,
    host: Seq<HostModel>,
    now: u64,
    millis: u128,
    min_traffic: u64,
    window_secs: u64,
    include_status: bool,
) -> (Option<TrafficModel>, Option<StatusModel>) {
    (
        traffic_report(runtime, host, now, millis, min_traffic),
        if include_status {
            Some(status_report(runtime, host, now, window_secs))
        } else {
            None
        },
    )
}

/// The counter after a look at the interface that gave a traffic report or none.
pub open spec fn sequence_after_reports(n: u64, traffic: Option<TrafficModel>) -> u64 {
    if traffic is Some {
        next_sequence(n)
    } else {
        n
    }
}

/// Whether `run` is the start of applying a snapshot.
pub open spec fn starts(runtime: &Runtime, snapshot: &Snapshot, run: &Application) -> bool {
    &&& run.config_version == snapshot.config.config_version
    &&& run.known_version == runtime.last_config_version
    &&& run.stage == first_stage(runtime.desired.deep_view())
    &&& desired_list(snapshot.users.deep_view()) == Ok::<Seq<DesiredModel>, ErrorModel>(
        run.desired.deep_view(),
    )
}

/// What the daemon remembers once a snapshot is applied.
pub open spec fn remembered(runtime: Runtime, run: Application) -> Runtime {
    Runtime {
        desired: run.desired,
        last_config_version: Some(run.config_version),
        ..runtime
    }
}

impl Runtime {
    /// No two of the peers that were applied last share a key.
    pub open spec fn well_formed(&self) -> bool {
        distinct_keys(self.desired.deep_view())
    }

    /// A daemon that has not applied anything yet.
    pub fn new(config: DaemonConfig) -> (r: Self)
        ensures
            r.well_formed(),
            r.config == config,
            r.desired.deep_view() == Seq::<DesiredModel>::empty(),
            r.last_config_version is None,
            r.report_sequence == 0,
            !r.ipv6_forwarding_warning_emitted,
    {
        let desired: Vec<DesiredPeer> = Vec::new();
        proof {
            assert(desired.deep_view() =~= Seq::<DesiredModel>::empty());
        }
        Runtime {
            config,
            desired,
            last_config_version: None,
            report_sequence: 0,
            ipv6_forwarding_warning_emitted: false,
        }
    }

    /// How old a handshake may be, in seconds, for its peer to be online.
    pub fn online_handshake_window_secs(&self, base: &BaseConfig) -> (r: u64)
        ensures
            r == online_window(
                self.config.wireguard.online_handshake_window_secs,
                base.push_interval,
            ),
    {
        let wish = match self.config.wireguard.online_handshake_window_secs {
            Some(secs) => secs,
            None => {
                let triple = match base.push_interval.checked_mul(3) {
                    Some(secs) => secs,
                    None => u64::MAX,
                };
                if triple < 180 {
                    180
                } else {
                    triple
                }
            },
        };
        if wish < 30 {
            30
        } else {
            wish
        }
    }

    /// Counts one more report and names it.
    pub fn next_report_id(&mut self, millis: u128) -> (r: String)
        ensures
            r@ == report_name(
                old(self).config.panel.node_id,
                millis,
                next_sequence(old(self).report_sequence),
            ),
            *final(self) == (Runtime {
                report_sequence: next_sequence(old(self).report_sequence),
                ..*old(self)
            }),
            final(self).well_formed() == old(self).well_formed(),
    {
        self.report_sequence = self.report_sequence.wrapping_add(1);
        let mut s = decimal_text(self.config.panel.node_id as u128);
        s.append("-");
        s.append(decimal_text(millis).as_str());
        s.append("-");
        s.append(decimal_text(self.report_sequence as u128).as_str());
        s
    }

    /// The reports of a look at the interface: that of the traffic if any peer
    /// moved at least `min_traffic` bytes, and that of the status if it is asked
    /// for. `now` and `millis` are the time in seconds and in milliseconds.
    pub fn report_runtime(
        &mut self,
        host: &Vec<HostPeer>,
        now: u64,
        millis: u128,
        min_traffic: u64,
        online_handshake_window_secs: u64,
        include_status: bool,
    ) -> (r: Reports)
        ensures
            (r.traffic.deep_view(), r.status.deep_view()) == reports_of(
                old(self),
                host.deep_view(),
                now,
                millis,
                min_traffic,
                online_handshake_window_secs,
                include_status,
            ),
            final(self).report_sequence == sequence_after_reports(
                old(self).report_sequence,
                r.traffic.deep_view(),
            ),
            r.traffic.deep_view() == traffic_report(
                old(self),
                host.deep_view(),
                now,
                millis,
                min_traffic,
            ),
            r.status.deep_view() == if include_status {
                Some(
                    status_report(old(self), host.deep_view(), now, online_handshake_window_secs),
                )
            } else {
                None
            },
            *final(self) == (Runtime {
                report_sequence: if r.traffic is Some {
                    next_sequence(old(self).report_sequence)
                } else {
                    old(self).report_sequence
                },
                ..*old(self)
            }),
            final(self).well_formed() == old(self).well_formed(),
    {
        let reading = read_peers(
            &self.desired,
            host,
            now,
            min_traffic,
            online_handshake_window_secs,
        );
        proof {
            assert(reading.traffic@.len() == reading.traffic.deep_view().len());
        }
        let traffic = if reading.traffic.is_empty() {
            None
        } else {
            Some(
                TrafficReport {
                    report_id: self.next_report_id(millis),
                    reported_at: now,
                    peers: reading.traffic,
                },
            )
        };
        let status = if include_status {
            Some(
                StatusReport { reported_at: now, online: reading.online, peers: reading.status },
            )
        } else {
            None
        };
        Reports { traffic, status }
    }

    /// The report of the traffic of all peers, made before any of them changes.
    pub fn flush_traffic_before_peer_changes(
        &mut self,
        host: &Vec<HostPeer>,
        now: u64,
        millis: u128,
    ) -> (r: Reports)
        ensures
            (r.traffic.deep_view(), r.status.deep_view()) == reports_of(
                old(self),
                host.deep_view(),
                now,
                millis,
                0,
                30,
                false,
            ),
            final(self).report_sequence == sequence_after_reports(
                old(self).report_sequence,
                r.traffic.deep_view(),
            ),
            r.traffic.deep_view() == traffic_report(old(self), host.deep_view(), now, millis, 0),
            r.status is None,
            *final(self) == (Runtime {
                report_sequence: if r.traffic is Some {
                    next_sequence(old(self).report_sequence)
                } else {
                    old(self).report_sequence
                },
                ..*old(self)
            }),
            final(self).well_formed() == old(self).well_formed(),
    {
        self.report_runtime(host, now, millis, 0, 30, false)
    }

    /// Whether to look at the kernel's IPv6 forwarding switch: not if the
    /// operator was told already, and only if the node uses IPv6.
    pub fn checks_ipv6_forwarding(&self, server: &ServerConfig) -> (r: bool)
        ensures
            r == (!self.ipv6_forwarding_warning_emitted && uses_ipv6(server)),
    {
        !self.ipv6_forwarding_warning_emitted && needs_ipv6_forwarding(server)
    }

    /// Whether to tell the operator now that IPv6 is not forwarded, where
    /// `forwarding` is what the kernel's switch showed, if it could be read.
    pub fn warn_if_ipv6_forwarding_disabled(
        &mut self,
        server: &ServerConfig,
        forwarding: Option<bool>,
    ) -> (r: bool)
        ensures
            r == warns(old(self).ipv6_forwarding_warning_emitted, server, forwarding),
            *final(self) == (Runtime {
                ipv6_forwarding_warning_emitted: old(self).ipv6_forwarding_warning_emitted || r,
                ..*old(self)
            }),
            final(self).well_formed() == old(self).well_formed(),
    {
        let off = match forwarding {
            Some(on) => !on,
            None => false,
        };
        let warn = self.checks_ipv6_forwarding(server) && off;
        if warn {
            self.ipv6_forwarding_warning_emitted = true;
        }
        warn
    }

    /// Starts to apply a snapshot, unless it asks for peers that cannot be. The
    /// daemon's memory stays as it is until the snapshot is applied.
    pub fn apply_snapshot(&self, snapshot: &Snapshot) -> (r: Result<Application, Error>)
        ensures
            r matches Ok(run) ==> starts(self, snapshot, &run),
            match r {
                Ok(run) => run.well_formed() && desired_list(snapshot.users.deep_view()) == Ok::<
                    Seq<DesiredModel>,
                    ErrorModel,
                >(run.desired.deep_view()) && run.config_version == snapshot.config.config_version
                    && run.known_version == self.last_config_version && run.stage == first_stage(
                    self.desired.deep_view(),
                ),
                Err(e) => desired_list(snapshot.users.deep_view()) == Err::<
                    Seq<DesiredModel>,
                    ErrorModel,
                >(e.deep_view()),
            },
    {
        let desired = match desired_peers(snapshot) {
            Ok(desired) => desired,
            Err(e) => return Err(e),
        };
        proof {
            assert(self.desired@.len() == self.desired.deep_view().len());
        }
        let stage = if self.desired.is_empty() {
            ApplyStage::EnsureInterface
        } else {
            ApplyStage::FlushTraffic
        };
        Ok(
            Application {
                desired,
                config_version: snapshot.config.config_version,
                known_version: self.last_config_version,
                stage,
            },
        )
    }

    /// Remembers a snapshot that was applied.
    pub fn snapshot_applied(&mut self, run: Application)
        requires
            run.stage == ApplyStage::Applied,
        ensures
            *final(self) == remembered(*old(self), run),
            *final(self) == (Runtime {
                desired: run.desired,
                last_config_version: Some(run.config_version),
                ..*old(self)
            }),
            final(self).well_formed() == run.well_formed(),
    {
        self.desired = run.desired;
        self.last_config_version = Some(run.config_version);
    }
}

/// How far a snapshot is applied.
#[derive(Debug, Clone, Copy, PartialEq, Eq, Structural)]
pub enum ApplyStage {
    /// To send the traffic of the peers before any of them changes.
    FlushTraffic,
    /// To find out whether the interface can be read, after that failed.
    ReadInterface,
    /// To create the interface.
    EnsureInterface,
    /// To configure the interface as a whole.
    ConfigureBase,
    /// To bring the interface's peers in line.
    ReconcilePeers,
    /// To bring the network setup in line.
    ApplyNetwork,
    /// All done.
    Applied,
    /// Given up.
    Failed,
}

/// How a step of applying a snapshot ended.
#[derive(Debug, Clone, Copy, PartialEq, Eq, Structural)]
pub enum ApplyEvent {
    Done,
    /// The interface is there; whether it still needs its base configuration.
    InterfaceReady { needs_base: bool },
    Failed,
}

/// The first step of applying a snapshot: the traffic of the known peers is sent
/// before anything changes, if there are any.
pub open spec fn first_stage(known: Seq<DesiredModel>) -> ApplyStage {
    if known.len() == 0 {
        ApplyStage::EnsureInterface
    } else {
        ApplyStage::FlushTraffic
    }
}

/// Whether a step can end so.
pub open spec fn can_end(stage: ApplyStage, event: ApplyEvent) -> bool {
    match stage {
        ApplyStage::Applied => false,
        ApplyStage::Failed => false,
        ApplyStage::EnsureInterface => event is InterfaceReady || event is Failed,
        _ => event is Done || event is Failed,
    }
}

/// The step after one that ended so, where `new_version` tells whether the
/// snapshot's configuration has another version than the one applied last.
pub open spec fn stage_after(
    stage: ApplyStage,
    event: ApplyEvent,
    new_version: bool,
) -> ApplyStage {
    match (stage, event) {
        (ApplyStage::FlushTraffic, ApplyEvent::Done) => ApplyStage::EnsureInterface,
        (ApplyStage::FlushTraffic, ApplyEvent::Failed) => ApplyStage::ReadInterface,
        (ApplyStage::ReadInterface, ApplyEvent::Failed) => ApplyStage::EnsureInterface,
        (ApplyStage::EnsureInterface, ApplyEvent::InterfaceReady { needs_base }) => if needs_base
            || new_version {
            ApplyStage::ConfigureBase
        } else {
            ApplyStage::ReconcilePeers
        },
        (ApplyStage::ConfigureBase, ApplyEvent::Done) => ApplyStage::ReconcilePeers,
        (ApplyStage::ReconcilePeers, ApplyEvent::Done) => ApplyStage::ApplyNetwork,
        (ApplyStage::ApplyNetwork, ApplyEvent::Done) => ApplyStage::Applied,
        _ => ApplyStage::Failed,
    }
}

/// A snapshot on its way to the host.
#[derive(Debug)]
pub struct Application {
    pub desired: Vec<DesiredPeer>,
    pub config_version: u64,
    /// The version of the configuration that was applied before.
    pub known_version: Option<u64>,
    pub stage: ApplyStage,
}

impl Application {
    /// No two of the peers to apply share a key.
    pub open spec fn well_formed(&self) -> bool {
        distinct_keys(self.desired.deep_view())
    }

    /// Whether the configuration has another version than the one before.
    pub open spec fn new_version(&self) -> bool {
        self.known_version != Some(self.config_version)
    }

    /// Goes on to the next step.
    pub fn advance(&mut self, event: ApplyEvent)
        requires
            can_end(old(self).stage, event),
        ensures
            *final(self) == (Application {
                stage: stage_after(old(self).stage, event, old(self).new_version()),
                ..*old(self)
            }),
            final(self).well_formed() == old(self).well_formed(),
    {
        let new_version = match self.known_version {
            Some(version) => version != self.config_version,
            None => true,
        };
        self.stage = match (self.stage, event) {
            (ApplyStage::FlushTraffic, ApplyEvent::Done) => ApplyStage::EnsureInterface,
            (ApplyStage::FlushTraffic, ApplyEvent::Failed) => ApplyStage::ReadInterface,
            (ApplyStage::ReadInterface, ApplyEvent::Failed) => ApplyStage::EnsureInterface,
            (ApplyStage::EnsureInterface, ApplyEvent::InterfaceReady { needs_base }) => {
                if needs_base || new_version {
                    ApplyStage::ConfigureBase
                } else {
                    ApplyStage::ReconcilePeers
                }
            },
            (ApplyStage::ConfigureBase, ApplyEvent::Done) => ApplyStage::ReconcilePeers,
            (ApplyStage::ReconcilePeers, ApplyEvent::Done) => ApplyStage::ApplyNetwork,
            (ApplyStage::ApplyNetwork, ApplyEvent::Done) => ApplyStage::Applied,
            _ => ApplyStage::Failed,
        };
    }
}

} // verus!
