use v2board_wireguard::address::{AddressMask, PublicKey};
use v2board_wireguard::config::LocalWireguardConfig;
use v2board_wireguard::error::Error;
use v2board_wireguard::payload::{
    BaseConfig, PeerPayload, ServerConfig, Snapshot, UserPayload,
};
use v2board_wireguard::peers::{
    address_texts, collect_masks, desired_peers, find_peer, peer_allowed_ips,
    peers_without_addresses, place_peer, DesiredPeer,
};
use v2board_wireguard::wireguard::{
    interface_addresses, pair_addresses, peer_from_desired, InterfaceState, WireguardManager,
};

const ZERO_KEY: &str = "AAAAAAAAAAAAAAAAAAAAAAAAAAAAAAAAAAAAAAAAAAA=";
const KEY: &str = "AAECAwQFBgcICQoLDA0OD/Dh0sO0pZaHeGlaSzwtHg8=";
const KEY_HEX: &str = "000102030405060708090a0b0c0d0e0ff0e1d2c3b4a5968778695a4b3c2d1e0f";

fn test_server_config() -> ServerConfig {
    ServerConfig {
        config_version: 1,
        server_port: 51820,
        private_key: ZERO_KEY.to_string(),
        public_key: String::new(),
        interface_ip: Some("10.10.0.1/24".to_string()),
        interface_ipv4: None,
        address_pool: Some("10.10.0.0/24".to_string()),
        address_pool_ipv4: None,
        interface_ipv6: Some("fd10:10::1/64".to_string()),
        address_pool_ipv6: Some("fd10:10::/64".to_string()),
        ipv6_mode: "routed".to_string(),
        mtu: None,
        persistent_keepalive: None,
        base_config: BaseConfig::default(),
    }
}

fn payload(key: &str) -> PeerPayload {
    PeerPayload {
        peer_id: None,
        user_id: None,
        device_id: None,
        public_key: key.to_string(),
        ip: Some("10.10.0.2".to_string()),
        ipv4: None,
        ipv6: None,
        allowed_ips: vec![],
        speed_limit: None,
        device_limit: None,
        enabled: None,
        revoked_at: None,
    }
}

fn user(id: u64, peers: Vec<PeerPayload>) -> UserPayload {
    UserPayload {
        id,
        speed_limit: None,
        device_limit: None,
        wireguard: None,
        wireguard_peers: peers,
    }
}

fn snapshot(users: Vec<UserPayload>) -> Snapshot {
    Snapshot {
        config: test_server_config(),
        users,
    }
}

fn mask(address: &str, is_ipv4: bool, cidr: u8) -> AddressMask {
    AddressMask {
        address: address.to_string(),
        is_ipv4,
        cidr,
    }
}

#[test]
fn desired_peers_reject_duplicate_public_keys() {
    let duplicate_key = "AAAAAAAAAAAAAAAAAAAAAAAAAAAAAAAAAAAAAAAAAAA=".to_string();
    let snapshot = Snapshot {
        config: test_server_config(),
        users: vec![
            UserPayload {
                id: 1,
                speed_limit: None,
                device_limit: None,
                wireguard: Some(PeerPayload {
                    peer_id: Some(1),
                    user_id: Some(1),
                    device_id: Some("default".to_string()),
                    public_key: duplicate_key.clone(),
                    ip: Some("10.10.0.2/32".to_string()),
                    ipv4: None,
                    ipv6: None,
                    allowed_ips: vec![],
                    speed_limit: None,
                    device_limit: None,
                    enabled: Some(1),
                    revoked_at: None,
                }),
                wireguard_peers: vec![],
            },
            UserPayload {
                id: 2,
                speed_limit: None,
                device_limit: None,
                wireguard: Some(PeerPayload {
                    peer_id: Some(2),
                    user_id: Some(2),
                    device_id: Some("default".to_string()),
                    public_key: duplicate_key,
                    ip: Some("10.10.0.3/32".to_string()),
                    ipv4: None,
                    ipv6: None,
                    allowed_ips: vec![],
                    speed_limit: None,
                    device_limit: None,
                    enabled: Some(1),
                    revoked_at: None,
                }),
                wireguard_peers: vec![],
            },
        ],
    };

    let error = desired_peers(&snapshot).unwrap_err().message();
    assert!(error.contains("duplicate WireGuard public key"));
}

#[test]
fn duplicate_keys_name_both_users() {
    let mut first = payload(KEY);
    first.user_id = Some(77);
    let second = payload(KEY_HEX);
    let error = desired_peers(&snapshot(vec![user(1, vec![first]), user(2, vec![second])]))
        .unwrap_err();
    assert_eq!(
        error.message(),
        format!("duplicate WireGuard public key {KEY_HEX} for user 2 conflicts with user 77")
    );
}

#[test]
fn desired_peers_come_in_order_with_their_defaults() {
    let mut first = payload(KEY);
    first.peer_id = Some(5);
    first.device_id = Some("phone".to_string());
    first.speed_limit = Some(9);
    let second = payload(ZERO_KEY);
    let mut owner = user(3, vec![first, second]);
    owner.speed_limit = Some(4);
    let peers = desired_peers(&snapshot(vec![owner])).unwrap();
    assert_eq!(peers.len(), 2);
    assert_eq!(peers[0].peer_id, Some(5));
    assert_eq!(peers[0].user_id, 3);
    assert_eq!(peers[0].device_id, "phone");
    assert_eq!(peers[0].public_key.bytes[1], 1);
    assert_eq!(peers[0].public_key.bytes[31], 0x0f);
    assert_eq!(peers[0].public_key_string, KEY);
    assert_eq!(peers[0].speed_limit_mbps, Some(9));
    assert_eq!(peers[0].allowed_ips[0].address, "10.10.0.2");
    assert_eq!(peers[0].allowed_ips[0].cidr, 32);
    assert_eq!(peers[1].device_id, "default");
    assert_eq!(peers[1].public_key.bytes, [0u8; 32]);
    assert_eq!(peers[1].speed_limit_mbps, Some(4));
}

#[test]
fn peers_out_of_use_are_passed_over_unread() {
    let mut off = payload("not a key");
    off.enabled = Some(0);
    let mut revoked = payload("not a key");
    revoked.revoked_at = Some(0);
    let mut bare = payload(KEY);
    bare.ip = None;
    let mut on = payload(ZERO_KEY);
    on.enabled = Some(-1);
    let peers =
        desired_peers(&snapshot(vec![user(1, vec![off, revoked, bare, on])])).unwrap();
    assert_eq!(peers.len(), 1);
    assert_eq!(peers[0].public_key_string, ZERO_KEY);
}

#[test]
fn unreadable_keys_are_refused() {
    let error = desired_peers(&snapshot(vec![user(8, vec![payload("not a key")])])).unwrap_err();
    assert!(matches!(error, Error::InvalidPublicKey { user_id: 8, .. }));
    assert_eq!(error.cause().unwrap(), "Invalid symbol 32, offset 3.");
    assert_eq!(error.message(), "invalid peer public key for user 8");
}

#[test]
fn unreadable_addresses_are_refused() {
    let mut peer = payload(KEY);
    peer.allowed_ips = vec!["10.0.0.1/32".to_string(), "10.0.0.1/33".to_string()];
    let error = desired_peers(&snapshot(vec![user(8, vec![peer])])).unwrap_err();
    assert_eq!(error.message(), "invalid peer allowed IP 10.0.0.1/33");
    assert_eq!(error.cause().unwrap(), "IP address/mask parse error");
}

#[test]
fn single_peers_stand_in_for_an_empty_list() {
    let mut owner = user(1, vec![]);
    assert!(owner.peers().is_empty());
    owner.wireguard = Some(payload(KEY));
    assert_eq!(owner.peers().len(), 1);
    assert_eq!(owner.peers()[0].public_key, KEY);
    owner.wireguard_peers = vec![payload(ZERO_KEY)];
    assert_eq!(owner.peers().len(), 1);
    assert_eq!(owner.peers()[0].public_key, ZERO_KEY);
}

#[test]
fn addresses_fall_back_in_order() {
    let mut peer = payload(KEY);
    peer.ipv4 = Some("10.0.0.9".to_string());
    peer.ipv6 = Some("FD00:0::9/128".to_string());
    assert_eq!(address_texts(&peer), vec!["10.0.0.9", "FD00:0::9/128"]);
    let ips = peer_allowed_ips(&peer).unwrap();
    assert_eq!(ips.len(), 2);
    assert!(ips[0].is_ipv4);
    assert_eq!(ips[0].cidr, 32);
    assert_eq!(ips[1].address, "fd00::9");
    assert!(!ips[1].is_ipv4);
    assert_eq!(ips[1].cidr, 128);
    peer.allowed_ips = vec!["10.1.0.0/16".to_string()];
    assert_eq!(address_texts(&peer), vec!["10.1.0.0/16"]);
    peer.allowed_ips = vec![];
    peer.ipv4 = None;
    assert_eq!(address_texts(&peer), vec!["10.10.0.2", "FD00:0::9/128"]);
}

#[test]
fn collecting_stops_at_the_first_unread_text() {
    let texts = vec!["a".to_string(), "b".to_string(), "c".to_string()];
    let all = vec![
        Ok(mask("1", true, 1)),
        Ok(mask("2", true, 2)),
        Ok(mask("3", true, 3)),
    ];
    let masks = collect_masks(&texts, &all).unwrap();
    assert_eq!(masks.len(), 3);
    assert_eq!(masks[2].cidr, 3);
    let some = vec![
        Ok(mask("1", true, 1)),
        Err("bad b".to_string()),
        Err("bad c".to_string()),
    ];
    let error = collect_masks(&texts, &some).unwrap_err();
    assert_eq!(error.message(), "invalid peer allowed IP b");
    assert_eq!(error.cause().unwrap(), "bad b");
}

#[test]
fn placing_a_peer_takes_what_was_read() {
    let mut peers: Vec<DesiredPeer> = Vec::new();
    let owner = user(1, vec![]);
    let key = PublicKey { bytes: [7; 32] };
    assert!(place_peer(&mut peers, &owner, &payload("k"), Ok(key), Ok(vec![])).is_ok());
    assert!(peers.is_empty());
    assert!(place_peer(
        &mut peers,
        &owner,
        &payload("k"),
        Ok(key),
        Ok(vec![mask("10.0.0.1", true, 32)])
    )
    .is_ok());
    assert_eq!(find_peer(&peers, &key), Some(0));
    assert_eq!(find_peer(&peers, &PublicKey { bytes: [8; 32] }), None);
    let error = place_peer(
        &mut peers,
        &owner,
        &payload("again"),
        Ok(key),
        Ok(vec![mask("10.0.0.2", true, 32)]),
    )
    .unwrap_err();
    assert_eq!(
        error.message(),
        "duplicate WireGuard public key again for user 1 conflicts with user 1"
    );
    assert_eq!(peers.len(), 1);
    assert!(error.cause().is_none());
    let unread = Err("no key".to_string());
    let error = place_peer(&mut peers, &owner, &payload("k"), unread, Ok(vec![])).unwrap_err();
    assert_eq!(error.cause().unwrap(), "no key");
}

#[test]
fn interfaces_get_their_addresses() {
    let mut server = test_server_config();
    let addresses = interface_addresses(&server).unwrap();
    assert_eq!(addresses.len(), 2);
    assert_eq!(addresses[0].address, "10.10.0.1");
    assert_eq!(addresses[0].cidr, 24);
    assert_eq!(addresses[1].address, "fd10:10::1");

    server.ipv6_mode = "disabled".to_string();
    assert_eq!(interface_addresses(&server).unwrap().len(), 1);

    server.interface_ipv4 = Some("10.99.0.1/16".to_string());
    assert_eq!(interface_addresses(&server).unwrap()[0].address, "10.99.0.1");
}

#[test]
fn interface_address_errors_are_told_apart() {
    let mut server = test_server_config();
    server.interface_ipv6 = Some("nowhere".to_string());
    assert_eq!(
        interface_addresses(&server).unwrap_err().message(),
        "invalid interface IPv6 address nowhere"
    );
    assert_eq!(
        interface_addresses(&server).unwrap_err().cause().unwrap(),
        "IP address/mask parse error"
    );
    server.interface_ip = Some("here".to_string());
    assert_eq!(
        interface_addresses(&server).unwrap_err().message(),
        "invalid interface address here"
    );
    server.interface_ip = None;
    assert_eq!(
        interface_addresses(&server).unwrap_err().message(),
        "v2board config is missing interface_ip/interface_ipv4"
    );
    let bad = || Err("no address".to_string());
    let error = pair_addresses(("x", bad()), None).unwrap_err();
    assert_eq!(error.cause().unwrap(), "no address");
    let both = pair_addresses(
        ("x", Ok(mask("1", true, 1))),
        Some(("y", Ok(mask("2", false, 2)))),
    )
    .unwrap();
    assert_eq!(both[1].address, "2");
    let error = pair_addresses(("x", Ok(mask("1", true, 1))), Some(("y", bad()))).unwrap_err();
    assert_eq!(error.cause().unwrap(), "no address");
}

#[test]
fn base_configurations_are_complete() {
    let manager = WireguardManager {
        config: LocalWireguardConfig {
            interface: "wg0".to_string(),
            fwmark: Some(51),
            online_handshake_window_secs: None,
        },
    };
    let mut server = test_server_config();
    server.mtu = Some(1420);
    let peers = desired_peers(&snapshot(vec![user(1, vec![payload(KEY)])])).unwrap();
    let plan = manager.configure_base(&server, &peers).unwrap();
    assert_eq!(plan.name, "wg0");
    assert_eq!(plan.private_key, ZERO_KEY);
    assert_eq!(plan.port, 51820);
    assert_eq!(plan.mtu, Some(1420));
    assert_eq!(plan.fwmark, Some(51));
    assert_eq!(plan.addresses.len(), 2);
    assert_eq!(plan.peers.len(), 1);
    assert_eq!(plan.peers[0].public_key.bytes, peers[0].public_key.bytes);
    assert_eq!(plan.peers[0].allowed_ips[0].address, "10.10.0.2");
    server.interface_ip = None;
    assert!(manager.configure_base(&server, &peers).is_err());
}

#[test]
fn interfaces_need_their_base_until_they_have_it() {
    assert!(WireguardManager::ensure_interface(None));
    let state = |has_private_key: bool, listen_port: u16| {
        WireguardManager::ensure_interface(Some(InterfaceState {
            has_private_key,
            listen_port,
        }))
    };
    assert!(state(false, 51820));
    assert!(state(true, 0));
    assert!(!state(true, 51820));
}

#[test]
fn reconciling_removes_stale_peers_and_configures_the_desired() {
    let peers = desired_peers(&snapshot(vec![
        user(1, vec![payload(KEY)]),
        user(2, vec![payload(ZERO_KEY)]),
    ]))
    .unwrap();
    let stale = PublicKey { bytes: [9; 32] };
    let plan = WireguardManager::reconcile_peers(&vec![stale, peers[1].public_key], &peers);
    assert_eq!(plan.remove.len(), 1);
    assert_eq!(plan.remove[0].bytes, [9; 32]);
    assert_eq!(plan.configure.len(), 2);
    assert_eq!(plan.configure[1].public_key.bytes, [0; 32]);
    let setup = peer_from_desired(&peers[0]);
    assert_eq!(setup.allowed_ips.len(), 1);
    let again = WireguardManager::reconcile_peers(
        &vec![peers[0].public_key, peers[1].public_key],
        &peers,
    );
    assert!(again.remove.is_empty());
}

#[test]
fn peers_without_addresses_are_named() {
    let bare = |key: &str| {
        let mut peer = payload(key);
        peer.ip = None;
        peer
    };
    let mut off = bare(ZERO_KEY);
    off.enabled = Some(0);
    let users = vec![
        user(1, vec![bare(KEY), payload(ZERO_KEY), off]),
        user(2, vec![bare(KEY_HEX)]),
    ];
    assert_eq!(
        peers_without_addresses(&snapshot(users)),
        vec![(1, KEY.to_string()), (2, KEY_HEX.to_string())]
    );

    let refused = vec![
        user(1, vec![bare(KEY), payload("not a key"), bare(KEY)]),
        user(2, vec![bare(KEY)]),
    ];
    assert_eq!(
        peers_without_addresses(&snapshot(refused)),
        vec![(1, KEY.to_string())]
    );
    assert!(peers_without_addresses(&snapshot(vec![])).is_empty());
}

#[test]
fn unused_peers_leave_the_rest_as_it_is() {
    let mut off = payload(KEY);
    off.enabled = Some(0);
    let with = snapshot(vec![user(1, vec![payload(ZERO_KEY), off, payload(KEY)])]);
    let without = snapshot(vec![user(1, vec![payload(ZERO_KEY), payload(KEY)])]);
    let keys = |snapshot: &Snapshot| {
        desired_peers(snapshot)
            .unwrap()
            .iter()
            .map(|peer| peer.public_key_string.clone())
            .collect::<Vec<_>>()
    };
    assert_eq!(keys(&with), keys(&without));
    assert_eq!(keys(&with), vec![ZERO_KEY, KEY]);
}
