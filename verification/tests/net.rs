use std::collections::hash_map::DefaultHasher;
use std::hash::{Hash, Hasher};

use v2board_wireguard::address::{AddressMask, PublicKey};
use v2board_wireguard::command::plan_after;
use v2board_wireguard::config::{FirewallConfig, RateLimitConfig};
use v2board_wireguard::error::Error;
use v2board_wireguard::net::{
    can_number_filters, limited_addresses, nft_table_name, nft_table_name_with, NetManager,
};
use v2board_wireguard::payload::{BaseConfig, ServerConfig};
use v2board_wireguard::peers::DesiredPeer;

fn test_server_config() -> ServerConfig {
    ServerConfig {
        config_version: 1,
        server_port: 51820,
        private_key: "AAAAAAAAAAAAAAAAAAAAAAAAAAAAAAAAAAAAAAAAAAA=".to_string(),
        public_key: String::new(),
        interface_ip: Some("10.10.0.1/24".to_string()),
        interface_ipv4: None,
        address_pool: Some("10.10.0.0/24".to_string()),
        address_pool_ipv4: None,
        interface_ipv6: Some("fd10:10::1/64".to_string()),
        address_pool_ipv6: Some("fd10:10::/64".to_string()),
        ipv6_mode: "routed".to_string(),
        mtu: None,
        persistent_keepalive: None,
        base_config: BaseConfig::default(),
    }
}

fn manager() -> NetManager {
    NetManager::new(
        "wg0".to_string(),
        FirewallConfig::default(),
        RateLimitConfig::default(),
    )
}

fn peer(n: u8, speed: Option<u64>, ips: Vec<AddressMask>) -> DesiredPeer {
    DesiredPeer {
        peer_id: None,
        user_id: n as u64,
        device_id: "default".to_string(),
        public_key: PublicKey { bytes: [n; 32] },
        public_key_string: "key".to_string(),
        allowed_ips: ips,
        speed_limit_mbps: speed,
    }
}

fn v4(text: &str) -> AddressMask {
    AddressMask {
        address: text.to_string(),
        is_ipv4: true,
        cidr: 32,
    }
}

fn v6(text: &str) -> AddressMask {
    AddressMask {
        address: text.to_string(),
        is_ipv4: false,
        cidr: 128,
    }
}

#[test]
fn nft_table_name_is_namespaced_by_interface() {
    assert!(nft_table_name("wg0").starts_with("v2board_wg_wg0_"));
    assert!(nft_table_name("***").starts_with("v2board_wg_if_"));
    assert_ne!(nft_table_name("wg-prod.1"), nft_table_name("wg_prod_1"));
}

#[test]
fn nft_script_excludes_wireguard_egress_and_does_not_nat_routed_ipv6() {
    let manager = NetManager::new(
        "wg0".to_string(),
        FirewallConfig::default(),
        RateLimitConfig::default(),
    );
    let script = manager.nft_script(&test_server_config()).unwrap();

    assert!(script.contains("table inet v2board_wg_wg0_"));
    assert!(script.contains("ip saddr 10.10.0.0/24 oifname != \"wg0\" masquerade"));
    assert!(!script.contains("ip6 saddr fd10:10::/64"));
}

#[test]
fn nft_script_masquerades_ipv6_only_in_nat_mode() {
    let manager = NetManager::new(
        "wg0".to_string(),
        FirewallConfig::default(),
        RateLimitConfig::default(),
    );
    let mut server = test_server_config();
    server.ipv6_mode = "nat".to_string();

    let script = manager.nft_script(&server).unwrap();

    assert!(script.contains("ip6 saddr fd10:10::/64 oifname != \"wg0\" masquerade"));
}

#[test]
fn table_names_use_the_upper_half_of_the_hash() {
    assert_eq!(
        nft_table_name_with("wg0", 0x0123_4567_89ab_cdef),
        "v2board_wg_wg0_01234567"
    );
    assert_eq!(
        nft_table_name_with("WG-Prod.1", 0xfedc_0000_0000_0001),
        "v2board_wg_wg_prod_1_fedc0000"
    );
    assert_eq!(nft_table_name_with("_..", 0), "v2board_wg_if_00000000");
    assert_eq!(nft_table_name_with("", 0), "v2board_wg_if_00000000");
    assert_eq!(
        nft_table_name_with("\u{e9}wg\u{e9}", 0),
        "v2board_wg_wg_00000000"
    );
}

#[test]
fn table_names_are_cut_to_thirty_two_characters() {
    let long = "a".repeat(40);
    assert_eq!(
        nft_table_name_with(&long, 0),
        format!("v2board_wg_{}_00000000", "a".repeat(32))
    );
    let exact = "b".repeat(32);
    assert_eq!(
        nft_table_name_with(&exact, 0),
        format!("v2board_wg_{exact}_00000000")
    );
}

#[test]
fn table_names_hash_with_the_default_hasher() {
    let mut hasher = DefaultHasher::new();
    "wg0".hash(&mut hasher);
    let hash = format!("{:016x}", hasher.finish());
    assert_eq!(
        nft_table_name("wg0"),
        format!("v2board_wg_wg0_{}", &hash[..8])
    );
}

#[test]
fn scripts_are_written_in_full() {
    let script = manager()
        .nft_script_with_table(&test_server_config(), "t")
        .unwrap();
    assert_eq!(
        script,
        "table inet t {\n  chain forward {\n    type filter hook forward priority 0; policy accept;\n    iifname \"wg0\" accept\n    oifname \"wg0\" accept\n  }\n  chain postrouting {\n    type nat hook postrouting priority srcnat; policy accept;\n    ip saddr 10.10.0.0/24 oifname != \"wg0\" masquerade\n  }\n}\n"
    );
}

#[test]
fn scripts_pin_the_outbound_interface() {
    let mut manager = manager();
    manager.firewall.outbound_interface = Some("eth\"0".to_string());
    let mut server = test_server_config();
    server.ipv6_mode = "nat".to_string();
    let script = manager.nft_script_with_table(&server, "t").unwrap();
    assert!(script.contains("    ip saddr 10.10.0.0/24 oifname \"eth\\\"0\" masquerade\n"));
    assert!(script.contains("    ip6 saddr fd10:10::/64 oifname \"eth\\\"0\" masquerade\n"));
    assert!(!script.contains("!="));
}

#[test]
fn scripts_prefer_the_newer_pool_and_need_one() {
    let mut server = test_server_config();
    server.address_pool_ipv4 = Some("10.99.0.0/16".to_string());
    let script = manager().nft_script_with_table(&server, "t").unwrap();
    assert!(script.contains("ip saddr 10.99.0.0/16 "));

    server.address_pool_ipv4 = None;
    server.address_pool = None;
    let error = manager().nft_script(&server).unwrap_err();
    assert!(matches!(error, Error::MissingAddressPool));
    assert_eq!(
        error.message(),
        "v2board config is missing address_pool/address_pool_ipv4"
    );
}

#[test]
fn firewall_plans_try_then_delete_then_load() {
    let steps = manager()
        .apply_nft_with(&test_server_config(), 0x0123_4567_89ab_cdef)
        .unwrap();
    assert_eq!(steps.len(), 3);
    assert_eq!(steps[0].program, "nft");
    assert_eq!(steps[0].args, vec!["-c", "-f", "-"]);
    assert!(steps[0]
        .stdin
        .as_ref()
        .unwrap()
        .starts_with("table inet v2board_wg_wg0_01234567_check {\n"));
    assert!(!steps[0].ignore_failure);
    assert_eq!(
        steps[1].args,
        vec!["delete", "table", "inet", "v2board_wg_wg0_01234567"]
    );
    assert!(steps[1].ignore_failure);
    assert!(steps[1].stdin.is_none());
    assert_eq!(steps[2].args, vec!["-f", "-"]);
    assert!(steps[2]
        .stdin
        .as_ref()
        .unwrap()
        .starts_with("table inet v2board_wg_wg0_01234567 {\n"));
    assert!(!steps[2].ignore_failure);
    assert!(steps.iter().all(|step| step.is_run()));
}

#[test]
fn firewall_plans_name_the_table_by_the_interface() {
    let steps = manager().apply_nft(&test_server_config()).unwrap();
    assert_eq!(steps[1].args[3], nft_table_name("wg0"));
}

#[test]
fn unknown_firewall_backends_are_refused_first() {
    let mut manager = manager();
    manager.firewall.backend = "pf".to_string();
    let mut server = test_server_config();
    server.address_pool = None;
    let error = manager.apply_nft(&server).unwrap_err();
    assert_eq!(error.message(), "unsupported firewall backend pf");
}

#[test]
fn speed_limits_become_filters_in_both_directions() {
    let peers = vec![
        peer(1, None, vec![v4("10.0.0.1")]),
        peer(2, Some(0), vec![v4("10.0.0.2")]),
        peer(3, Some(25), vec![v4("10.0.0.3"), v6("fd00::3")]),
    ];
    assert!(can_number_filters(&peers));
    let limited = limited_addresses(&peers);
    assert_eq!(limited.len(), 2);
    assert_eq!(limited[1].limit, 25);

    let steps = manager().apply_tc(&peers);
    assert_eq!(steps.len(), 6);
    assert!(steps.iter().all(|step| step.program == "tc"));
    assert_eq!(steps[0].args, vec!["qdisc", "del", "dev", "wg0", "clsact"]);
    assert!(steps[0].ignore_failure);
    assert_eq!(
        steps[1].args,
        vec!["qdisc", "replace", "dev", "wg0", "clsact"]
    );
    assert!(!steps[1].ignore_failure);
    assert_eq!(
        steps[2].args,
        vec![
            "filter",
            "replace",
            "dev",
            "wg0",
            "egress",
            "protocol",
            "ip",
            "pref",
            "10",
            "flower",
            "dst_ip",
            "10.0.0.3",
            "action",
            "police",
            "rate",
            "25mbit",
            "burst",
            "256k",
            "conform-exceed",
            "drop"
        ]
    );
    assert_eq!(
        steps[5].args,
        vec![
            "filter",
            "replace",
            "dev",
            "wg0",
            "ingress",
            "protocol",
            "ipv6",
            "pref",
            "13",
            "flower",
            "src_ip",
            "fd00::3",
            "action",
            "police",
            "rate",
            "25mbit",
            "burst",
            "256k",
            "conform-exceed",
            "drop"
        ]
    );
    assert_eq!(steps[3].args[8], "11");
    assert_eq!(steps[4].args[8], "12");
}

#[test]
fn network_plans_hold_what_is_enabled() {
    let peers = vec![peer(3, Some(25), vec![v4("10.0.0.3")])];
    let server = test_server_config();
    let mut manager = manager();
    let both = manager.apply(&server, &peers).unwrap();
    assert_eq!(both.len(), 7);
    assert_eq!(both[2].program, "nft");
    assert_eq!(both[3].program, "tc");

    manager.rate_limit.enabled = false;
    assert_eq!(manager.apply(&server, &peers).unwrap().len(), 3);

    manager.firewall.enabled = false;
    assert!(manager.apply(&server, &peers).unwrap().is_empty());

    manager.rate_limit = RateLimitConfig {
        enabled: true,
        dry_run: true,
    };
    let steps = manager.apply_with(&server, &peers, 7).unwrap();
    assert_eq!(steps.len(), 4);
    assert!(steps.iter().all(|step| !step.is_run()));
}

#[test]
fn routed_scripts_do_not_depend_on_the_ipv6_pool() {
    let mut other = test_server_config();
    other.address_pool_ipv6 = None;
    assert_eq!(
        manager()
            .nft_script_with_table(&test_server_config(), "t")
            .unwrap(),
        manager().nft_script_with_table(&other, "t").unwrap()
    );
}

#[test]
fn failed_commands_tell_what_they_were() {
    let steps = manager()
        .apply_nft_with(&test_server_config(), 0)
        .unwrap();
    assert!(steps[2].check_output(true, b"noise").is_ok());
    assert!(steps[1].check_output(false, b"no such table").is_ok());
    let error = steps[2].check_output(false, b"bad \xff rule").unwrap_err();
    assert_eq!(
        error.message(),
        "nft [\"-f\", \"-\"] failed: bad \u{fffd} rule"
    );
    let error = steps[2].finish(false, "bad rule").unwrap_err();
    assert_eq!(error.message(), "nft [\"-f\", \"-\"] failed: bad rule");
}

#[test]
fn plans_stop_at_the_first_failure() {
    let steps = manager()
        .apply_nft_with(&test_server_config(), 0)
        .unwrap();
    assert!(matches!(plan_after(&steps, 0, true, true, b""), Ok(1)));
    let error = plan_after(&steps, 0, true, false, b"bad").unwrap_err().unwrap();
    assert_eq!(error.message(), "nft [\"-c\", \"-f\", \"-\"] failed: bad");
    assert!(matches!(plan_after(&steps, 0, false, false, b""), Err(None)));
    assert!(matches!(plan_after(&steps, 1, true, false, b"bad"), Ok(2)));
    assert!(matches!(plan_after(&steps, 1, false, false, b""), Ok(2)));
    assert!(matches!(plan_after(&steps, 2, true, true, b""), Ok(3)));

    let mut dry = manager();
    dry.firewall.dry_run = true;
    let steps = dry.apply_nft_with(&test_server_config(), 0).unwrap();
    assert!(matches!(plan_after(&steps, 0, false, false, b"bad"), Ok(1)));
}

#[test]
fn trials_try_the_whole_script() {
    let steps = manager().apply_nft_with(&test_server_config(), 7).unwrap();
    let table = nft_table_name_with("wg0", 7);
    assert_eq!(
        steps[0].stdin.as_ref().unwrap().replace("_check", ""),
        *steps[2].stdin.as_ref().unwrap()
    );
    assert_eq!(table.len(), 23);
    assert!(table.ends_with("_00000000"));
}
