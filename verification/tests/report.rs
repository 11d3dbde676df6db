use v2board_wireguard::address::PublicKey;
use v2board_wireguard::config::{
    FirewallConfig, LocalWireguardConfig, PanelConfig, RateLimitConfig,
};
use v2board_wireguard::payload::BaseConfig;
use v2board_wireguard::peers::DesiredPeer;
use v2board_wireguard::report::{is_recent_handshake, read_peers, status_after, HostPeer};
use v2board_wireguard::runtime::{DaemonConfig, Runtime};

fn runtime(peers: Vec<DesiredPeer>) -> Runtime {
    let mut runtime = Runtime::new(DaemonConfig {
        panel: PanelConfig {
            base_url: "http://panel".to_string(),
            token: "t".to_string(),
            node_id: 42,
            node_type: "wireguard".to_string(),
            timeout_secs: 10,
        },
        wireguard: LocalWireguardConfig {
            interface: "wg0".to_string(),
            fwmark: None,
            online_handshake_window_secs: None,
        },
        firewall: FirewallConfig::default(),
        rate_limit: RateLimitConfig::default(),
    });
    runtime.desired = peers;
    runtime
}

fn wish(n: u8) -> DesiredPeer {
    DesiredPeer {
        peer_id: Some(n as u64 + 100),
        user_id: n as u64,
        device_id: "default".to_string(),
        public_key: PublicKey { bytes: [n; 32] },
        public_key_string: format!("key-{n}"),
        allowed_ips: vec![],
        speed_limit_mbps: None,
    }
}

fn host(n: u8, at: Option<u64>, rx: u64, tx: u64) -> HostPeer {
    HostPeer {
        public_key: PublicKey { bytes: [n; 32] },
        last_handshake: at,
        endpoint: Some(format!("192.0.2.{n}:51820")),
        rx_bytes: rx,
        tx_bytes: tx,
    }
}

#[test]
fn online_handshake_requires_recent_handshake() {
    assert!(is_recent_handshake(Some(1_000), 1_100, 180));
    assert!(!is_recent_handshake(Some(1_000), 1_300, 180));
    assert!(!is_recent_handshake(None, 1_100, 180));
    assert!(!is_recent_handshake(Some(1_300), 1_100, 180));
}

#[test]
fn handshakes_may_be_a_minute_ahead() {
    assert!(is_recent_handshake(Some(1_160), 1_100, 0));
    assert!(!is_recent_handshake(Some(1_161), 1_100, 180));
    assert!(is_recent_handshake(Some(920), 1_100, 180));
    assert!(!is_recent_handshake(Some(919), 1_100, 180));
    assert!(is_recent_handshake(Some(u64::MAX), u64::MAX, 0));
}

#[test]
fn readings_match_peers_by_key() {
    let desired = vec![wish(1), wish(2), wish(3)];
    let found = vec![
        host(3, Some(0), 0, 4),
        host(9, Some(1_000), 50, 50),
        host(1, Some(1_000), 10, 20),
    ];
    let reading = read_peers(&desired, &found, 1_100, 5, 180);
    assert_eq!(reading.status.len(), 2);
    assert_eq!(reading.status[0].user_id, 1);
    assert_eq!(reading.status[1].user_id, 3);
    assert_eq!(reading.status[1].last_handshake_at, None);
    assert_eq!(reading.online, 1);
    assert_eq!(reading.traffic.len(), 1);
    let first = &reading.traffic[0];
    assert_eq!(first.peer_id, Some(101));
    assert_eq!(first.public_key, "key-1");
    assert_eq!(first.upload, 10);
    assert_eq!(first.download, 20);
    assert_eq!(first.last_handshake_at, Some(1_000));
    assert_eq!(first.last_endpoint, Some("192.0.2.1:51820".to_string()));
}

#[test]
fn huge_counters_are_reported() {
    let reading = read_peers(
        &vec![wish(1)],
        &vec![host(1, None, u64::MAX, u64::MAX)],
        0,
        u64::MAX,
        30,
    );
    assert_eq!(reading.traffic.len(), 1);
    assert_eq!(reading.online, 0);
}

#[test]
fn reports_are_numbered_only_when_sent() {
    let mut runtime = runtime(vec![wish(1)]);
    let reports = runtime.report_runtime(&vec![], 1_100, 1_100_007, 0, 180, true);
    assert!(reports.traffic.is_none());
    assert_eq!(reports.status.unwrap().peers.len(), 0);
    assert_eq!(runtime.report_sequence, 0);

    let found = vec![host(1, Some(1_090), 1, 2)];
    let reports = runtime.report_runtime(&found, 1_100, 1_100_007, 3, 180, true);
    let traffic = reports.traffic.unwrap();
    assert_eq!(traffic.report_id, "42-1100007-1");
    assert_eq!(traffic.reported_at, 1_100);
    assert_eq!(traffic.peers.len(), 1);
    let status = reports.status.unwrap();
    assert_eq!(status.online, 1);
    assert_eq!(status.reported_at, 1_100);
    assert_eq!(runtime.report_sequence, 1);

    let reports = runtime.report_runtime(&found, 1_100, 1_100_007, 4, 180, false);
    assert!(reports.traffic.is_none());
    assert!(reports.status.is_none());
}

#[test]
fn flushes_report_idle_peers_too() {
    let mut runtime = runtime(vec![wish(1), wish(2)]);
    let found = vec![host(1, None, 0, 0), host(2, None, 0, 9)];
    let reports = runtime.flush_traffic_before_peer_changes(&found, 5, 5_000);
    assert_eq!(reports.traffic.unwrap().peers.len(), 2);
    assert!(reports.status.is_none());
}

#[test]
fn report_names_differ_within_a_millisecond() {
    let mut runtime = runtime(vec![]);
    let first = runtime.next_report_id(77);
    let second = runtime.next_report_id(77);
    assert_eq!(first, "42-77-1");
    assert_ne!(first, second);
    runtime.report_sequence = u64::MAX;
    assert_eq!(runtime.next_report_id(0), "42-0-0");
}

#[test]
fn online_windows_have_a_floor() {
    let mut runtime = runtime(vec![]);
    let base = |push_interval: u64| BaseConfig {
        pull_interval: 60,
        push_interval,
        node_report_min_traffic: 0,
    };
    assert_eq!(runtime.online_handshake_window_secs(&base(60)), 180);
    assert_eq!(runtime.online_handshake_window_secs(&base(61)), 183);
    assert_eq!(runtime.online_handshake_window_secs(&base(0)), 180);
    assert_eq!(runtime.online_handshake_window_secs(&base(u64::MAX)), u64::MAX);
    runtime.config.wireguard.online_handshake_window_secs = Some(5);
    assert_eq!(runtime.online_handshake_window_secs(&base(60)), 30);
    runtime.config.wireguard.online_handshake_window_secs = Some(90);
    assert_eq!(runtime.online_handshake_window_secs(&base(60)), 90);
}

#[test]
fn wider_windows_lose_nobody() {
    for window in [0u64, 29, 30, 99, 100, 101] {
        if is_recent_handshake(Some(1_000), 1_100, window) {
            assert!(is_recent_handshake(Some(1_000), 1_100, window + 1));
        }
    }
    assert!(!is_recent_handshake(Some(1_000), 1_100, 99));
    assert!(is_recent_handshake(Some(1_000), 1_100, 100));
}

#[test]
fn no_more_are_online_than_present() {
    let desired = vec![wish(1), wish(2)];
    let found = vec![host(1, Some(10), 1, 0), host(2, Some(11), 0, 0)];
    let reading = read_peers(&desired, &found, 12, 1, 30);
    assert_eq!(reading.online, 2);
    assert_eq!(reading.status.len(), 2);
    assert_eq!(reading.traffic.len(), 1);
}

#[test]
fn unsent_traffic_withholds_the_status() {
    let mut runtime = runtime(vec![wish(1)]);
    let found = vec![host(1, Some(10), 1, 0)];
    let reports = runtime.report_runtime(&found, 12, 12_000, 0, 30, true);
    assert!(status_after(reports, false).is_none());
    let reports = runtime.report_runtime(&found, 12, 12_000, 0, 30, true);
    assert_eq!(status_after(reports, true).unwrap().online, 1);
    let reports = runtime.report_runtime(&found, 12, 12_000, 0, 30, false);
    assert!(status_after(reports, true).is_none());
}
