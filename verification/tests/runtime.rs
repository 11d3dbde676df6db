use std::time::{Duration, UNIX_EPOCH};

use v2board_wireguard::address::PublicKey;
use v2board_wireguard::clock::{
    epoch_millis, epoch_millis_at, epoch_secs, epoch_secs_at, system_time_to_epoch, EpochOffset,
};
use v2board_wireguard::config::{
    default_config_version, default_firewall_backend, default_interval, default_ipv6_mode,
    default_node_type, default_timeout_secs, default_true, FirewallConfig, LocalWireguardConfig,
    PanelConfig, RateLimitConfig,
};
use v2board_wireguard::payload::{
    BaseConfig, PeerPayload, ServerConfig, Snapshot, UserPayload,
};
use v2board_wireguard::peers::DesiredPeer;
use v2board_wireguard::runtime::{
    ipv6_forwarding_enabled, ApplyEvent, ApplyStage, DaemonConfig, Runtime,
};
use v2board_wireguard::schedule::{LoopEvent, LoopStage, RunLoop};

const SECOND: u128 = 1_000_000_000;

fn server() -> ServerConfig {
    ServerConfig {
        config_version: 7,
        server_port: 51820,
        private_key: String::new(),
        public_key: String::new(),
        interface_ip: None,
        interface_ipv4: None,
        address_pool: None,
        address_pool_ipv4: None,
        interface_ipv6: None,
        address_pool_ipv6: None,
        ipv6_mode: "routed".to_string(),
        mtu: None,
        persistent_keepalive: None,
        base_config: BaseConfig::default(),
    }
}

fn runtime() -> Runtime {
    Runtime::new(DaemonConfig {
        panel: PanelConfig {
            base_url: String::new(),
            token: String::new(),
            node_id: 1,
            node_type: default_node_type(),
            timeout_secs: default_timeout_secs(),
        },
        wireguard: LocalWireguardConfig {
            interface: "wg0".to_string(),
            fwmark: None,
            online_handshake_window_secs: None,
        },
        firewall: FirewallConfig::default(),
        rate_limit: RateLimitConfig::default(),
    })
}

fn known_peer() -> DesiredPeer {
    DesiredPeer {
        peer_id: None,
        user_id: 1,
        device_id: String::new(),
        public_key: PublicKey { bytes: [1; 32] },
        public_key_string: String::new(),
        allowed_ips: vec![],
        speed_limit_mbps: None,
    }
}

fn empty_snapshot() -> Snapshot {
    Snapshot {
        config: server(),
        users: vec![],
    }
}

#[test]
fn defaults_are_the_documented_ones() {
    assert_eq!(default_node_type(), "wireguard");
    assert_eq!(default_firewall_backend(), "nftables");
    assert_eq!(default_timeout_secs(), 10);
    assert_eq!(default_interval(), 60);
    assert_eq!(default_config_version(), 1);
    assert_eq!(default_ipv6_mode(), "routed");
    assert!(default_true());
    let firewall = FirewallConfig::default();
    assert!(firewall.enabled && !firewall.dry_run);
    assert_eq!(firewall.backend, "nftables");
    assert!(firewall.outbound_interface.is_none());
    let rate_limit = RateLimitConfig::default();
    assert!(rate_limit.enabled && !rate_limit.dry_run);
    let base = BaseConfig::default();
    assert_eq!(base.pull_interval, 60);
    assert_eq!(base.push_interval, 60);
    assert_eq!(base.node_report_min_traffic, 0);
}

#[test]
fn times_count_from_1970() {
    let time = UNIX_EPOCH + Duration::from_millis(1_500);
    assert_eq!(system_time_to_epoch(time), Some(1));
    assert_eq!(system_time_to_epoch(UNIX_EPOCH), Some(0));
    assert_eq!(
        system_time_to_epoch(UNIX_EPOCH - Duration::from_secs(1)),
        None
    );
    let offset = EpochOffset::After {
        secs: 3,
        nanos: 999_999_999,
    };
    assert_eq!(offset.epoch_secs(), Some(3));
    assert_eq!(offset.epoch_millis(), Some(3_999));
    let before = EpochOffset::Before { secs: 3, nanos: 0 };
    assert_eq!(before.epoch_secs(), None);
    assert_eq!(before.epoch_millis(), None);
}

#[test]
fn the_clock_shows_a_time_after_1970() {
    let secs = epoch_secs();
    let millis = epoch_millis();
    assert!(secs > 1_600_000_000);
    assert!(millis >= secs as u128 * 1000);
}

#[test]
fn first_snapshots_skip_the_flush_and_configure_the_base() {
    let mut runtime = runtime();
    let mut run = runtime.apply_snapshot(&empty_snapshot()).unwrap();
    assert_eq!(run.stage, ApplyStage::EnsureInterface);
    run.advance(ApplyEvent::InterfaceReady { needs_base: false });
    assert_eq!(run.stage, ApplyStage::ConfigureBase);
    run.advance(ApplyEvent::Done);
    assert_eq!(run.stage, ApplyStage::ReconcilePeers);
    run.advance(ApplyEvent::Done);
    assert_eq!(run.stage, ApplyStage::ApplyNetwork);
    run.advance(ApplyEvent::Done);
    assert_eq!(run.stage, ApplyStage::Applied);
    assert_eq!(runtime.last_config_version, None);
    runtime.snapshot_applied(run);
    assert_eq!(runtime.last_config_version, Some(7));

    let mut run = runtime.apply_snapshot(&empty_snapshot()).unwrap();
    run.advance(ApplyEvent::InterfaceReady { needs_base: false });
    assert_eq!(run.stage, ApplyStage::ReconcilePeers);

    let mut run = runtime.apply_snapshot(&empty_snapshot()).unwrap();
    run.advance(ApplyEvent::InterfaceReady { needs_base: true });
    assert_eq!(run.stage, ApplyStage::ConfigureBase);
    run.advance(ApplyEvent::Failed);
    assert_eq!(run.stage, ApplyStage::Failed);
}

#[test]
fn known_peers_are_flushed_first() {
    let mut runtime = runtime();
    runtime.desired = vec![known_peer()];
    let mut run = runtime.apply_snapshot(&empty_snapshot()).unwrap();
    assert_eq!(run.stage, ApplyStage::FlushTraffic);
    run.advance(ApplyEvent::Done);
    assert_eq!(run.stage, ApplyStage::EnsureInterface);

    let mut run = runtime.apply_snapshot(&empty_snapshot()).unwrap();
    run.advance(ApplyEvent::Failed);
    assert_eq!(run.stage, ApplyStage::ReadInterface);
    run.advance(ApplyEvent::Done);
    assert_eq!(run.stage, ApplyStage::Failed);

    let mut run = runtime.apply_snapshot(&empty_snapshot()).unwrap();
    run.advance(ApplyEvent::Failed);
    run.advance(ApplyEvent::Failed);
    assert_eq!(run.stage, ApplyStage::EnsureInterface);
}

#[test]
fn bad_snapshots_are_not_started() {
    let mut snapshot = empty_snapshot();
    snapshot.users = vec![UserPayload {
        id: 3,
        speed_limit: None,
        device_limit: None,
        wireguard: Some(PeerPayload {
            peer_id: None,
            user_id: None,
            device_id: None,
            public_key: "?".to_string(),
            ip: None,
            ipv4: None,
            ipv6: None,
            allowed_ips: vec![],
            speed_limit: None,
            device_limit: None,
            enabled: None,
            revoked_at: None,
        }),
        wireguard_peers: vec![],
    }];
    let error = runtime().apply_snapshot(&snapshot).unwrap_err();
    assert_eq!(error.message(), "invalid peer public key for user 3");
}

#[test]
fn missing_ipv6_forwarding_is_told_once() {
    let mut runtime = runtime();
    let mut server = server();
    assert!(!runtime.checks_ipv6_forwarding(&server));
    server.interface_ipv6 = Some("fd00::1/64".to_string());
    assert!(runtime.checks_ipv6_forwarding(&server));
    assert!(!runtime.warn_if_ipv6_forwarding_disabled(&server, None));
    assert!(!runtime.warn_if_ipv6_forwarding_disabled(&server, Some(true)));
    server.ipv6_mode = "disabled".to_string();
    assert!(!runtime.warn_if_ipv6_forwarding_disabled(&server, Some(false)));
    server.ipv6_mode = "nat".to_string();
    assert!(runtime.warn_if_ipv6_forwarding_disabled(&server, Some(false)));
    assert!(!runtime.warn_if_ipv6_forwarding_disabled(&server, Some(false)));
    assert!(!runtime.checks_ipv6_forwarding(&server));
}

#[test]
fn forwarding_switches_are_read() {
    assert!(ipv6_forwarding_enabled("1\n"));
    assert!(ipv6_forwarding_enabled(" \t1\r\n"));
    assert!(!ipv6_forwarding_enabled("1\u{1f}"));
    assert!(!ipv6_forwarding_enabled("0\n"));
    assert!(!ipv6_forwarding_enabled("11"));
    assert!(!ipv6_forwarding_enabled(""));
}

#[test]
fn one_round_pulls_stores_reports_and_ends() {
    let mut run = RunLoop::new(true, 10, 20);
    run.run(LoopEvent::Clock { now: 10 });
    assert_eq!(run.stage, LoopStage::Refresh);
    run.run(LoopEvent::Done);
    assert_eq!(run.stage, LoopStage::ApplyFresh);
    run.run(LoopEvent::Done);
    assert_eq!(run.stage, LoopStage::SaveSnapshot);
    let base = BaseConfig {
        pull_interval: 2,
        push_interval: 90,
        node_report_min_traffic: 1,
    };
    run.run(LoopEvent::Applied { base });
    assert_eq!(run.stage, LoopStage::StampPull);
    run.run(LoopEvent::Clock { now: 15 });
    assert_eq!(run.stage, LoopStage::CheckReport);
    assert_eq!(run.next_pull, 15 + 5 * SECOND);
    run.run(LoopEvent::Clock { now: 20 });
    assert_eq!(run.stage, LoopStage::Report);
    run.run(LoopEvent::Failed);
    assert_eq!(run.stage, LoopStage::StampReport);
    run.run(LoopEvent::Clock { now: 30 });
    assert_eq!(run.stage, LoopStage::Finished);
    assert_eq!(run.next_report, 30 + 90 * SECOND);
}

#[test]
fn outages_use_the_stored_snapshot() {
    let mut run = RunLoop::new(false, 0, 5);
    run.run(LoopEvent::Clock { now: 1 });
    run.run(LoopEvent::Failed);
    assert_eq!(run.stage, LoopStage::LoadCached);
    let mut empty = run;
    empty.run(LoopEvent::Missing);
    assert_eq!(empty.stage, LoopStage::Failed);
    run.run(LoopEvent::Done);
    assert_eq!(run.stage, LoopStage::ApplyCached);
    run.run(LoopEvent::Applied {
        base: BaseConfig::default(),
    });
    run.run(LoopEvent::Clock { now: 2 });
    assert_eq!(run.next_pull, 2 + 60 * SECOND);
    run.run(LoopEvent::Clock { now: 3 });
    assert_eq!(run.stage, LoopStage::Pause);
    run.run(LoopEvent::Done);
    assert_eq!(run.stage, LoopStage::CheckPull);
    run.run(LoopEvent::Clock { now: 59 * SECOND });
    assert_eq!(run.stage, LoopStage::CheckReport);
}

#[test]
fn snapshots_that_cannot_be_applied_fall_back_too() {
    let mut run = RunLoop::new(false, 0, 0);
    run.run(LoopEvent::Clock { now: 0 });
    run.run(LoopEvent::Done);
    run.run(LoopEvent::Failed);
    assert_eq!(run.stage, LoopStage::LoadCached);
    run.run(LoopEvent::Done);
    run.run(LoopEvent::Failed);
    assert_eq!(run.stage, LoopStage::Failed);
}

#[test]
fn failed_steps_end_the_application() {
    for failing in 0..3 {
        let mut run = runtime().apply_snapshot(&empty_snapshot()).unwrap();
        run.advance(ApplyEvent::InterfaceReady { needs_base: true });
        for _ in 0..failing {
            run.advance(ApplyEvent::Done);
        }
        run.advance(ApplyEvent::Failed);
        assert_eq!(run.stage, ApplyStage::Failed);
    }
    let mut run = runtime().apply_snapshot(&empty_snapshot()).unwrap();
    run.advance(ApplyEvent::Failed);
    assert_eq!(run.stage, ApplyStage::Failed);
}

#[test]
fn pulls_and_reports_wait_for_their_time() {
    let mut run = RunLoop::new(false, 0, 0);
    run.stage = LoopStage::StampPull;
    run.base.pull_interval = 7;
    run.base.push_interval = 1;
    run.run(LoopEvent::Clock { now: 1 });
    run.run(LoopEvent::Clock { now: 1 });
    assert_eq!(run.stage, LoopStage::Report);
    run.run(LoopEvent::Done);
    run.run(LoopEvent::Clock { now: 2 });
    run.run(LoopEvent::Done);
    run.run(LoopEvent::Clock { now: 7 * SECOND });
    assert_eq!(run.stage, LoopStage::CheckReport);
    run.run(LoopEvent::Clock { now: 5 * SECOND + 1 });
    assert_eq!(run.stage, LoopStage::Pause);
    run.run(LoopEvent::Done);
    run.run(LoopEvent::Clock { now: 7 * SECOND + 1 });
    assert_eq!(run.stage, LoopStage::Refresh);
}

#[test]
fn stores_that_fail_end_the_loop() {
    let mut run = RunLoop::new(false, 0, 0);
    run.stage = LoopStage::SaveSnapshot;
    run.run(LoopEvent::Failed);
    assert_eq!(run.stage, LoopStage::Failed);
}

#[test]
fn times_before_1970_count_as_zero() {
    let late = UNIX_EPOCH + Duration::from_millis(2_345);
    assert_eq!(epoch_secs_at(late), 2);
    assert_eq!(epoch_millis_at(late), 2_345);
    let early = UNIX_EPOCH - Duration::from_millis(2_345);
    assert_eq!(epoch_secs_at(early), 0);
    assert_eq!(epoch_millis_at(early), 0);
}

#[test]
fn seconds_are_rounded_down() {
    for nanos in [0u64, 1, 999_999, 1_000_000, 999_999_999, 1_000_000_000, 1_999_999_999] {
        let time = UNIX_EPOCH + Duration::from_nanos(nanos);
        assert_eq!(system_time_to_epoch(time), Some(nanos / 1_000_000_000));
        assert_eq!(epoch_secs_at(time) as u128, epoch_millis_at(time) / 1000);
    }
    let early = UNIX_EPOCH - Duration::from_nanos(1);
    assert_eq!(system_time_to_epoch(early), None);
}
