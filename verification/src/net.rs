//! The firewall script and the traffic-control commands of an interface.

use crate::address::{AddressMask, MaskModel};
use crate::command::{CommandStep, StepModel};
use crate::config::{FirewallConfig, RateLimitConfig};
use crate::error::{Error, ErrorModel};
use crate::payload::ServerConfig;
use crate::peers::{outcome, DesiredModel, DesiredPeer};
use crate::text::{
    chars_of, decimal, decimal_text, digit, escaped, owned, same_text, shell_escape, text_of, trim,
    trimmed, CharSet,
};
use std::collections::hash_map::DefaultHasher;
use std::hash::{BuildHasher, BuildHasherDefault};
use vstd::prelude::*;
use vstd::string::*;

verus! {

/// Whether `c` is an ASCII letter or digit.
pub open spec fn ascii_alphanumeric(c: char) -> bool {
    ('0' <= c && c <= '9') || ('A' <= c && c <= 'Z') || ('a' <= c && c <= 'z')
}

/// The character that stands for `c` in a table name: an ASCII letter in lower
/// case, a digit as it is, an underscore for anything else.
pub open spec fn name_char(c: char) -> char {
    if 'A' <= c && c <= 'Z' {
        (c as u32 + 32) as char
    } else if ascii_alphanumeric(c) {
        c
    } else {
        '_'
    }
}

/// The character that stands for `c` in a table name.
fn to_name_char(c: char) -> (r: char)
    ensures
        r == name_char(c),
{
    if 'A' <= c && c <= 'Z' {
        ((c as u8) + 32) as char
    } else if ('0' <= c && c <= '9') || ('a' <= c && c <= 'z') {
        c
    } else {
        '_'
    }
}

/// At most the first `n` characters of `s`.
pub open spec fn at_most(s: Seq<char>, n: nat) -> Seq<char> {
    if s.len() <= n {
        s
    } else {
        s.take(n as int)
    }
}

/// The readable part of a table name: the interface name in name characters,
/// without underscores at its ends, `if` where nothing is left, cut to 32
/// characters.
pub open spec fn table_stem(ifname: Seq<char>) -> Seq<char> {
    let clean = trimmed(ifname.map_values(|c: char| name_char(c)), CharSet::Only('_'));
    at_most(
        if clean.len() == 0 {
            "if"@
        } else {
            clean
        },
        32,
    )
}

/// The base-sixteen notation of `n` in `width` digits.
pub open spec fn hex(n: nat, width: nat) -> Seq<char>
    decreases width,
{
    if width == 0 {
        seq![]
    } else {
        hex(n / 16, (width - 1) as nat).push(digit(n % 16))
    }
}

/// The name of the table of an interface whose name hashes to `hash`.
pub open spec fn table_name(ifname: Seq<char>, hash: u64) -> Seq<char> {
    "v2board_wg_"@ + table_stem(ifname) + "_"@ + hex(hash as nat, 16).take(8)
}

/// Writes `n` in base sixteen, in `width` digits.
fn hex_text(n: u64, width: u32) -> (r: String)
    ensures
        r@ == hex(n as nat, width as nat),
    decreases width,
{
    if width == 0 {
        let r = String::new();
        proof {
            assert(r@ =~= seq![]);
        }
        r
    } else {
        let mut r = hex_text(n / 16, width - 1);
        let d = (n % 16) as u8;
        if d < 10 {
            r.push((48 + d) as char);
        } else {
            r.push((87 + d) as char);
        }
        r
    }
}

proof fn lemma_hex_len(n: nat, width: nat)
    ensures
        hex(n, width).len() == width,
    decreases width,
{
    if width > 0 {
        lemma_hex_len(n / 16, (width - 1) as nat);
    }
}

/// The readable part of a table name.
fn table_stem_text(ifname: &str) -> (r: String)
    ensures
        r@ == table_stem(ifname@),
{
    let chars = chars_of(ifname);
    let mut mapped = String::new();
    let mut i: usize = 0;
    while i < chars.len()
        invariant
            i <= chars@.len(),
            chars@ == ifname@,
            mapped@ == ifname@.map_values(|c: char| name_char(c)).take(i as int),
        decreases chars@.len() - i,
    {
        mapped.push(to_name_char(chars[i]));
        proof {
            let all = ifname@.map_values(|c: char| name_char(c));
            assert(mapped@ =~= all.take(i as int).push(all[i as int]));
            assert(mapped@ =~= all.take(i + 1));
        }
        i += 1;
    }
    proof {
        let all = ifname@.map_values(|c: char| name_char(c));
        assert(all.take(i as int) =~= all);
    }
    let clean = trim(mapped.as_str(), CharSet::Only('_'));
    let clean = if clean.as_str().is_empty() {
        owned("if")
    } else {
        clean
    };
    let kept = chars_of(clean.as_str());
    if kept.len() <= 32 {
        clean
    } else {
        let r = text_of(&kept, 0, 32);
        proof {
            assert(kept@.subrange(0, 32) =~= kept@.take(32));
        }
        r
    }
}

/// The name of the table of an interface whose name hashes to `hash`.
pub fn nft_table_name_with(ifname: &str, hash: u64) -> (r: String)
    ensures
        r@ == table_name(ifname@, hash),
{
    let digits = hex_text(hash, 16);
    let digits = chars_of(digits.as_str());
    proof {
        lemma_hex_len(hash as nat, 16);
        assert(digits@.subrange(0, 8) =~= digits@.take(8));
    }
    let mut r = owned("v2board_wg_");
    r.append(table_stem_text(ifname).as_str());
    r.append("_");
    r.append(text_of(&digits, 0, 8).as_str());
    r
}

/// The hash of a text under std's `DefaultHasher` with its fixed keys.
pub uninterp spec fn default_hash(text: Seq<char>) -> u64;

/// `BuildHasher::hash_one` of std with a `DefaultHasher` in its default state.
/// All hashers made that way are the same, so the hash depends on the text alone;
/// it is named by `default_hash`. Its value is not stated: the algorithm is a
/// matter of the release of std.
#[verifier::external_body]
fn default_hash_of(text: &str) -> (r: u64)
    ensures
        r == default_hash(text@),
{
    BuildHasherDefault::<DefaultHasher>::default().hash_one(text)
}

/// The name of the nftables table of an interface. The hash tells apart
/// interfaces whose names read alike.
pub fn nft_table_name(ifname: &str) -> (r: String)
    ensures
        r@ == table_name(ifname@, default_hash(ifname@)),
{
    nft_table_name_with(ifname, default_hash_of(ifname))
}

/// A rule that masquerades what comes from `pool` where the outgoing interface
/// is (`pin`) or is not `ifname`.
pub open spec fn masquerade_rule(
    family: Seq<char>,
    pool: Seq<char>,
    pin: bool,
    ifname: Seq<char>,
) -> Seq<char> {
    "    "@ + family + " saddr "@ + pool + (if pin {
        " oifname \""@
    } else {
        " oifname != \""@
    }) + escaped(ifname) + "\" masquerade\n"@
}

/// The rules that masquerade the peers: those of the IPv4 pool, and of an IPv6
/// pool that is to be masqueraded. They match the outbound interface where one
/// is set, else every interface but the WireGuard interface itself.
pub open spec fn masquerade_rules(
    ifname: Seq<char>,
    outbound: Option<Seq<char>>,
    pool_v4: Seq<char>,
    pool_v6: Option<Seq<char>>,
) -> Seq<char> {
    let (pin, out) = match outbound {
        Some(out) => (true, out),
        None => (false, ifname),
    };
    let v4 = masquerade_rule("ip"@, pool_v4, pin, out);
    match pool_v6 {
        Some(pool) => v4 + masquerade_rule("ip6"@, pool, pin, out),
        None => v4,
    }
}

/// A table that lets the interface's traffic through and holds the given rules
/// for outgoing packets.
pub open spec fn table_text(table: Seq<char>, ifname: Seq<char>, rules: Seq<char>) -> Seq<char> {
    "table inet "@ + table + " {\n"@ + "  chain forward {\n"@
        + "    type filter hook forward priority 0; policy accept;\n"@ + "    iifname \""@ + escaped(
        ifname,
    ) + "\" accept\n"@ + "    oifname \""@ + escaped(ifname) + "\" accept\n"@ + "  }\n"@
        + "  chain postrouting {\n"@
        + "    type nat hook postrouting priority srcnat; policy accept;\n"@ + rules + "  }\n"@
        + "}\n"@
}

/// The IPv6 pool that is masqueraded: the node's IPv6 pool in `nat` mode.
pub open spec fn nat_pool_v6(server: &ServerConfig) -> Option<Seq<char>> {
    if server.ipv6_mode@ == "nat"@ {
        server.address_pool_ipv6.deep_view()
    } else {
        None
    }
}

/// The firewall script for a node under a table name, if the node has an IPv4
/// address pool.
pub open spec fn script_text(
    table: Seq<char>,
    ifname: Seq<char>,
    outbound: Option<Seq<char>>,
    server: &ServerConfig,
) -> Result<Seq<char>, ErrorModel> {
    match server.pool_v4() {
        Some(pool) => Ok(
            table_text(
                table,
                ifname,
                masquerade_rules(ifname, outbound, pool, nat_pool_v6(server)),
            ),
        ),
        None => Err(ErrorModel::MissingAddressPool),
    }
}

/// Writes one masquerade rule.
fn masquerade_rule_text(family: &str, pool: &str, pin: bool, ifname: &str) -> (r: String)
    ensures
        r@ == masquerade_rule(family@, pool@, pin, ifname@),
{
    let mut s = owned("    ");
    s.append(family);
    s.append(" saddr ");
    s.append(pool);
    if pin {
        s.append(" oifname \"");
    } else {
        s.append(" oifname != \"");
    }
    s.append(shell_escape(ifname).as_str());
    s.append("\" masquerade\n");
    s
}

/// Writes a table around the given rules.
fn table_with_rules(table: &str, ifname: &str, rules: &str) -> (r: String)
    ensures
        r@ == table_text(table@, ifname@, rules@),
{
    let escaped_name = shell_escape(ifname);
    let mut s = owned("table inet ");
    s.append(table);
    s.append(" {\n");
    s.append("  chain forward {\n");
    s.append("    type filter hook forward priority 0; policy accept;\n");
    s.append("    iifname \"");
    s.append(escaped_name.as_str());
    s.append("\" accept\n");
    s.append("    oifname \"");
    s.append(escaped_name.as_str());
    s.append("\" accept\n");
    s.append("  }\n");
    s.append("  chain postrouting {\n");
    s.append("    type nat hook postrouting priority srcnat; policy accept;\n");
    s.append(rules);
    s.append("  }\n");
    s.append("}\n");
    s
}

/// Owned copies of a list of texts.
fn own_all(items: &Vec<&str>) -> (r: Vec<String>)
    ensures
        r.deep_view() == items.deep_view(),
{
    let mut r: Vec<String> = Vec::new();
    let mut i: usize = 0;
    while i < items.len()
        invariant
            i <= items@.len(),
            r.deep_view() == items.deep_view().take(i as int),
        decreases items@.len() - i,
    {
        let ghost before = r.deep_view();
        r.push(owned(items[i]));
        proof {
            assert(r.deep_view() =~= before.push(items.deep_view()[i as int]));
            assert(r.deep_view() =~= items.deep_view().take(i + 1));
        }
        i += 1;
    }
    proof {
        assert(r.deep_view() =~= items.deep_view());
    }
    r
}

/// The commands that load a firewall script: a trial under another table name,
/// then the removal of the old table, which may be missing, then the script.
pub open spec fn nft_steps(
    table: Seq<char>,
    trial: Seq<char>,
    script: Seq<char>,
    dry_run: bool,
) -> Seq<StepModel> {
    seq![
        StepModel {
            program: "nft"@,
            args: seq!["-c"@, "-f"@, "-"@],
            stdin: Some(trial),
            ignore_failure: false,
            dry_run,
        },
        StepModel {
            program: "nft"@,
            args: seq!["delete"@, "table"@, "inet"@, table],
            stdin: None,
            ignore_failure: true,
            dry_run,
        },
        StepModel {
            program: "nft"@,
            args: seq!["-f"@, "-"@],
            stdin: Some(script),
            ignore_failure: false,
            dry_run,
        },
    ]
}

/// The addresses that have a speed limit, each with the limit of its peer, in
/// the order of the peers.
pub open spec fn limited(peers: Seq<DesiredModel>) -> Seq<(u64, MaskModel)>
    decreases peers.len(),
{
    if peers.len() == 0 {
        seq![]
    } else {
        let peer = peers.last();
        let own: Seq<(u64, MaskModel)> = match peer.speed_limit_mbps {
            Some(limit) => if limit > 0 {
                Seq::new(peer.allowed_ips.len(), |i: int| (limit, peer.allowed_ips[i]))
            } else {
                seq![]
            },
            None => seq![],
        };
        limited(peers.drop_last()) + own
    }
}

/// The command that limits the traffic to (`egress`) or from an address, under
/// the preference `pref`.
pub open spec fn filter_step(
    ifname: Seq<char>,
    egress: bool,
    entry: (u64, MaskModel),
    pref: nat,
    dry_run: bool,
) -> StepModel {
    StepModel {
        program: "tc"@,
        args: seq![
            "filter"@,
            "replace"@,
            "dev"@,
            ifname,
            if egress { "egress"@ } else { "ingress"@ },
            "protocol"@,
            if entry.1.is_ipv4 { "ip"@ } else { "ipv6"@ },
            "pref"@,
            decimal(pref),
            "flower"@,
            if egress { "dst_ip"@ } else { "src_ip"@ },
            entry.1.address,
            "action"@,
            "police"@,
            "rate"@,
            decimal(entry.0 as nat) + "mbit"@,
            "burst"@,
            "256k"@,
            "conform-exceed"@,
            "drop"@,
        ],
        stdin: None,
        ignore_failure: false,
        dry_run,
    }
}

/// The commands that limit the given addresses: for each of them one for the
/// traffic to it and one for the traffic from it, under preferences that count
/// up from 10.
pub open spec fn filter_steps(
    ifname: Seq<char>,
    entries: Seq<(u64, MaskModel)>,
    dry_run: bool,
) -> Seq<StepModel> {
    Seq::new(
        2 * entries.len(),
        |k: int| filter_step(ifname, k % 2 == 0, entries[k / 2], (10 + k) as nat, dry_run),
    )
}

/// The command that drops (`del`) or sets up the queueing discipline that the
/// filters hang on.
pub open spec fn qdisc_step(ifname: Seq<char>, del: bool, dry_run: bool) -> StepModel {
    StepModel {
        program: "tc"@,
        args: seq![
            "qdisc"@,
            if del { "del"@ } else { "replace"@ },
            "dev"@,
            ifname,
            "clsact"@,
        ],
        stdin: None,
        ignore_failure: del,
        dry_run,
    }
}

/// The commands that enforce the speed limits of the peers, from a clean start.
pub open spec fn tc_steps(
    ifname: Seq<char>,
    peers: Seq<DesiredModel>,
    dry_run: bool,
) -> Seq<StepModel> {
    seq![qdisc_step(ifname, true, dry_run), qdisc_step(ifname, false, dry_run)] + filter_steps(
        ifname,
        limited(peers),
        dry_run,
    )
}

/// Whether the filters of the peers can be numbered.
pub open spec fn countable(peers: Seq<DesiredModel>) -> bool {
    10 + 2 * limited(peers).len() <= u32::MAX
}

/// Writes a filter command.
fn filter_command(
    ifname: &str,
    egress: bool,
    limit: u64,
    ip: &AddressMask,
    pref: u32,
    dry_run: bool,
) -> (r: CommandStep)
    ensures
        r.deep_view() == filter_step(ifname@, egress, (limit, ip.deep_view()), pref as nat, dry_run),
{
    let pref_text = decimal_text(pref as u128);
    let mut rate = decimal_text(limit as u128);
    rate.append("mbit");
    let direction = if egress {
        "egress"
    } else {
        "ingress"
    };
    let protocol = if ip.is_ipv4 {
        "ip"
    } else {
        "ipv6"
    };
    let side = if egress {
        "dst_ip"
    } else {
        "src_ip"
    };
    let words = vec![
        "filter",
        "replace",
        "dev",
        ifname,
        direction,
        "protocol",
        protocol,
        "pref",
        pref_text.as_str(),
        "flower",
        side,
        ip.address.as_str(),
        "action",
        "police",
        "rate",
        rate.as_str(),
        "burst",
        "256k",
        "conform-exceed",
        "drop",
    ];
    let args = own_all(&words);
    let r = CommandStep {
        program: owned("tc"),
        args,
        stdin: None,
        ignore_failure: false,
        dry_run,
    };
    proof {
        assert(r.args.deep_view() =~= filter_step(
            ifname@,
            egress,
            (limit, ip.deep_view()),
            pref as nat,
            dry_run,
        ).args);
    }
    r
}

/// Writes a queueing discipline command.
fn qdisc_command(ifname: &str, del: bool, dry_run: bool) -> (r: CommandStep)
    ensures
        r.deep_view() == qdisc_step(ifname@, del, dry_run),
{
    let verb = if del {
        "del"
    } else {
        "replace"
    };
    let words = vec!["qdisc", verb, "dev", ifname, "clsact"];
    let r = CommandStep {
        program: owned("tc"),
        args: own_all(&words),
        stdin: None,
        ignore_failure: del,
        dry_run,
    };
    proof {
        assert(r.args.deep_view() =~= qdisc_step(ifname@, del, dry_run).args);
    }
    r
}

/// An address with the speed limit of its peer, in megabits per second.
#[derive(Debug)]
pub struct LimitedAddress {
    pub limit: u64,
    pub ip: AddressMask,
}

impl DeepView for LimitedAddress {
    type V = (u64, MaskModel);

    open spec fn deep_view(&self) -> (u64, MaskModel) {
        (self.limit, self.ip.deep_view())
    }
}

/// The addresses that have a speed limit, in the order of the peers.
pub fn limited_addresses(desired: &Vec<DesiredPeer>) -> (r: Vec<LimitedAddress>)
    ensures
        r.deep_view() == limited(desired.deep_view()),
{
    let mut r: Vec<LimitedAddress> = Vec::new();
    let ghost peers = desired.deep_view();
    let mut i: usize = 0;
    proof {
        assert(r.deep_view() =~= seq![]);
    }
    while i < desired.len()
        invariant
            i <= desired@.len(),
            peers == desired.deep_view(),
            r.deep_view() == limited(peers.take(i as int)),
        decreases desired@.len() - i,
    {
        let peer = &desired[i];
        let ghost before = r.deep_view();
        let limit = match peer.speed_limit_mbps {
            Some(limit) => limit,
            None => 0,
        };
        let ghost own = if limit > 0 {
            Seq::new(
                peer.allowed_ips.deep_view().len(),
                |k: int| (limit, peer.allowed_ips.deep_view()[k]),
            )
        } else {
            seq![]
        };
        proof {
            assert(peers.take(i + 1).drop_last() =~= peers.take(i as int));
            assert(peers.take(i + 1).last() == peer.deep_view());
            assert(limited(peers.take(i + 1)) =~= before + own);
        }
        if limit > 0 {
            let mut k: usize = 0;
            while k < peer.allowed_ips.len()
                invariant
                    k <= peer.allowed_ips@.len(),
                    own == Seq::new(
                        peer.allowed_ips.deep_view().len(),
                        |k: int| (limit, peer.allowed_ips.deep_view()[k]),
                    ),
                    r.deep_view() == before + own.take(k as int),
                decreases peer.allowed_ips@.len() - k,
            {
                let ghost sofar = r.deep_view();
                r.push(LimitedAddress { limit, ip: peer.allowed_ips[k].clone() });
                proof {
                    assert(r.deep_view() =~= sofar.push(own[k as int]));
                    assert(r.deep_view() =~= before + own.take(k + 1));
                }
                k += 1;
            }
        }
        proof {
            assert(r.deep_view() =~= before + own);
        }
        i += 1;
    }
    proof {
        assert(peers.take(i as int) =~= peers);
    }
    r
}

/// Whether the filters of the peers can be numbered.
pub fn can_number_filters(desired: &Vec<DesiredPeer>) -> (r: bool)
    ensures
        r == countable(desired.deep_view()),
{
    let entries = limited_addresses(desired);
    proof {
        assert(entries@.len() == entries.deep_view().len());
    }
    entries.len() <= (u32::MAX as usize - 10) / 2
}

/// Decides the network setup around one WireGuard interface.
#[derive(Debug, Clone)]
pub struct NetManager {
    pub ifname: String,
    pub firewall: FirewallConfig,
    pub rate_limit: RateLimitConfig,
}

impl NetManager {
    /// A manager of the network setup around `ifname`.
    pub fn new(ifname: String, firewall: FirewallConfig, rate_limit: RateLimitConfig) -> (r: Self)
        ensures
            r.ifname == ifname,
            r.firewall == firewall,
            r.rate_limit == rate_limit,
    {
        NetManager { ifname, firewall, rate_limit }
    }

    /// The script for a node under a table name.
    pub open spec fn script(&self, server: &ServerConfig, table: Seq<char>) -> Result<
        Seq<char>,
        ErrorModel,
    > {
        script_text(table, self.ifname@, self.firewall.outbound_interface.deep_view(), server)
    }

    /// The name of the interface's table, where its name hashes to `hash`.
    pub open spec fn table(&self, hash: u64) -> Seq<char> {
        table_name(self.ifname@, hash)
    }

    /// The firewall plan, where the interface's name hashes to `hash`.
    pub open spec fn nft_plan(&self, server: &ServerConfig, hash: u64) -> Result<
        Seq<StepModel>,
        ErrorModel,
    > {
        let table = self.table(hash);
        if self.firewall.backend@ != "nftables"@ {
            Err(ErrorModel::UnsupportedFirewallBackend { backend: self.firewall.backend@ })
        } else {
            match (self.script(server, table), self.script(server, table + "_check"@)) {
                (Ok(script), Ok(trial)) => Ok(
                    nft_steps(table, trial, script, self.firewall.dry_run),
                ),
                (Err(e), _) => Err(e),
                (_, Err(e)) => Err(e),
            }
        }
    }

    /// The traffic-control plan.
    pub open spec fn tc_plan(&self, desired: Seq<DesiredModel>) -> Seq<StepModel> {
        tc_steps(self.ifname@, desired, self.rate_limit.dry_run)
    }

    /// The whole plan: the firewall's, if it is enabled, then the traffic
    /// control's, if that is.
    pub open spec fn plan(
        &self,
        server: &ServerConfig,
        desired: Seq<DesiredModel>,
        hash: u64,
    ) -> Result<Seq<StepModel>, ErrorModel> {
        let tc = if self.rate_limit.enabled {
            self.tc_plan(desired)
        } else {
            seq![]
        };
        if self.firewall.enabled {
            match self.nft_plan(server, hash) {
                Ok(nft) => Ok(nft + tc),
                Err(e) => Err(e),
            }
        } else {
            Ok(tc)
        }
    }

    /// The firewall script of a node under a table name.
    pub fn nft_script_with_table(&self, server: &ServerConfig, table: &str) -> (r: Result<
        String,
        Error,
    >)
        ensures
            outcome(r) == self.script(server, table@),
    {
        let pool = match server.address_pool_ipv4() {
            Ok(pool) => pool,
            Err(e) => return Err(e),
        };
        let (pin, out) = match &self.firewall.outbound_interface {
            Some(out) => (true, out.as_str()),
            None => (false, self.ifname.as_str()),
        };
        let mut rules = masquerade_rule_text("ip", pool, pin, out);
        if same_text(server.ipv6_mode.as_str(), "nat") {
            if let Some(pool_v6) = &server.address_pool_ipv6 {
                rules.append(masquerade_rule_text("ip6", pool_v6.as_str(), pin, out).as_str());
            }
        }
        Ok(table_with_rules(table, self.ifname.as_str(), rules.as_str()))
    }

    /// The firewall script of a node under the interface's own table.
    pub fn nft_script(&self, server: &ServerConfig) -> (r: Result<String, Error>)
        ensures
            outcome(r) == self.script(server, self.table(default_hash(self.ifname@))),
    {
        let table = nft_table_name(self.ifname.as_str());
        self.nft_script_with_table(server, table.as_str())
    }

    /// The commands that set up the firewall, where the interface's name hashes
    /// to `hash`.
    pub fn apply_nft_with(&self, server: &ServerConfig, hash: u64) -> (r: Result<
        Vec<CommandStep>,
        Error,
    >)
        ensures
            outcome(r) == self.nft_plan(server, hash),
    {
        if !same_text(self.firewall.backend.as_str(), "nftables") {
            return Err(
                Error::UnsupportedFirewallBackend { backend: self.firewall.backend.clone() },
            );
        }
        let table = nft_table_name_with(self.ifname.as_str(), hash);
        let script = match self.nft_script_with_table(server, table.as_str()) {
            Ok(script) => script,
            Err(e) => return Err(e),
        };
        let mut check_table = owned(table.as_str());
        check_table.append("_check");
        let trial = match self.nft_script_with_table(server, check_table.as_str()) {
            Ok(trial) => trial,
            Err(e) => return Err(e),
        };
        let dry_run = self.firewall.dry_run;
        let trial_words = vec!["-c", "-f", "-"];
        let delete_words = vec!["delete", "table", "inet", table.as_str()];
        let load_words = vec!["-f", "-"];
        let mut steps: Vec<CommandStep> = Vec::new();
        steps.push(
            CommandStep {
                program: owned("nft"),
                args: own_all(&trial_words),
                stdin: Some(trial),
                ignore_failure: false,
                dry_run,
            },
        );
        steps.push(
            CommandStep {
                program: owned("nft"),
                args: own_all(&delete_words),
                stdin: None,
                ignore_failure: true,
                dry_run,
            },
        );
        steps.push(
            CommandStep {
                program: owned("nft"),
                args: own_all(&load_words),
                stdin: Some(script),
                ignore_failure: false,
                dry_run,
            },
        );
        proof {
            let want = nft_steps(table@, trial@, script@, dry_run);
            assert(steps@[0].args.deep_view() =~= want[0].args);
            assert(steps@[1].args.deep_view() =~= want[1].args);
            assert(steps@[2].args.deep_view() =~= want[2].args);
            assert(steps.deep_view() =~= want);
        }
        Ok(steps)
    }

    /// The commands that set up the firewall.
    pub fn apply_nft(&self, server: &ServerConfig) -> (r: Result<Vec<CommandStep>, Error>)
        ensures
            outcome(r) == self.nft_plan(server, default_hash(self.ifname@)),
    {
        self.apply_nft_with(server, default_hash_of(self.ifname.as_str()))
    }

    /// The commands that enforce the peers' speed limits.
    pub fn apply_tc(&self, desired: &Vec<DesiredPeer>) -> (r: Vec<CommandStep>)
        requires
            countable(desired.deep_view()),
        ensures
            r.deep_view() == self.tc_plan(desired.deep_view()),
    {
        let ifname = self.ifname.as_str();
        let dry_run = self.rate_limit.dry_run;
        let entries = limited_addresses(desired);
        let ghost all = entries.deep_view();
        let ghost head = seq![
            qdisc_step(ifname@, true, dry_run),
            qdisc_step(ifname@, false, dry_run),
        ];
        let ghost filters = filter_steps(ifname@, all, dry_run);
        let mut steps: Vec<CommandStep> = Vec::new();
        steps.push(qdisc_command(ifname, true, dry_run));
        steps.push(qdisc_command(ifname, false, dry_run));
        proof {
            assert(steps.deep_view() =~= head + filters.take(0));
        }
        let mut i: usize = 0;
        let mut pref: u32 = 10;
        while i < entries.len()
            invariant
                i <= entries@.len(),
                all == entries.deep_view(),
                10 + 2 * entries@.len() <= u32::MAX,
                pref == 10 + 2 * i,
                filters == filter_steps(ifname@, all, dry_run),
                steps.deep_view() == head + filters.take(2 * i),
            decreases entries@.len() - i,
        {
            let ghost before = steps.deep_view();
            let entry = &entries[i];
            steps.push(filter_command(ifname, true, entry.limit, &entry.ip, pref, dry_run));
            pref += 1;
            steps.push(filter_command(ifname, false, entry.limit, &entry.ip, pref, dry_run));
            pref += 1;
            proof {
                assert((2 * i) / 2 == i as int && (2 * i) % 2 == 0);
                assert((2 * i + 1) / 2 == i as int && (2 * i + 1) % 2 == 1);
                assert(steps.deep_view() =~= before.push(filters[2 * i]).push(filters[2 * i + 1]));
                assert(steps.deep_view() =~= head + filters.take(2 * (i + 1)));
            }
            i += 1;
        }
        proof {
            assert(filters.take(2 * i) =~= filters);
        }
        steps
    }

    /// All commands that bring the network setup in line, where the interface's
    /// name hashes to `hash`.
    pub fn apply_with(&self, server: &ServerConfig, desired: &Vec<DesiredPeer>, hash: u64) -> (r:
        Result<Vec<CommandStep>, Error>)
        requires
            self.rate_limit.enabled ==> countable(desired.deep_view()),
        ensures
            outcome(r) == self.plan(server, desired.deep_view(), hash),
    {
        let mut steps: Vec<CommandStep> = Vec::new();
        if self.firewall.enabled {
            match self.apply_nft_with(server, hash) {
                Ok(nft) => {
                    steps = nft;
                },
                Err(e) => return Err(e),
            }
        }
        let ghost nft = steps.deep_view();
        if self.rate_limit.enabled {
            let mut tc = self.apply_tc(desired);
            let ghost tc_model = tc.deep_view();
            steps.append(&mut tc);
            proof {
                assert(steps.deep_view() =~= nft + tc_model);
            }
        }
        proof {
            assert(nft + Seq::<StepModel>::empty() =~= nft);
            assert(Seq::<StepModel>::empty() + self.tc_plan(desired.deep_view())
                =~= self.tc_plan(desired.deep_view()));
            assert(!self.firewall.enabled ==> nft =~= Seq::<StepModel>::empty());
        }
        Ok(steps)
    }

    /// All commands that bring the network setup in line.
    pub fn apply(&self, server: &ServerConfig, desired: &Vec<DesiredPeer>) -> (r: Result<
        Vec<CommandStep>,
        Error,
    >)
        requires
            self.rate_limit.enabled ==> countable(desired.deep_view()),
        ensures
            outcome(r) == self.plan(server, desired.deep_view(), default_hash(self.ifname@)),
    {
        self.apply_with(server, desired, default_hash_of(self.ifname.as_str()))
    }
}

} // verus!
