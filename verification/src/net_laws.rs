//! What holds of table names, firewall scripts and traffic-control commands.

use crate::address::MaskModel;
use crate::command::StepModel;
use crate::error::ErrorModel;
use crate::net::{
    countable, filter_step, filter_steps, hex, limited, masquerade_rule, name_char, script_text,
    table_name, table_stem, table_text, NetManager,
};
use crate::payload::ServerConfig;
use crate::peers::DesiredModel;
use crate::text::{decimal, digit, escaped, trimmed, trimmed_end, trimmed_start, CharSet};
use crate::text_laws::{decimal_is_injective, trimming_keeps_the_middle, unquoted_text_is_kept};
use vstd::prelude::*;

verus! {

/// Whether `c` may stand in a table name: a lower-case ASCII letter, a digit or
/// an underscore.
pub open spec fn name_safe(c: char) -> bool {
    ('0' <= c && c <= '9') || ('a' <= c && c <= 'z') || c == '_'
}

/// Whether all characters may stand in a table name.
pub open spec fn all_safe(s: Seq<char>) -> bool {
    forall|i: int| 0 <= i < s.len() ==> name_safe(#[trigger] s[i])
}

proof fn lemma_trimmed_end_safe(s: Seq<char>, set: CharSet)
    requires
        all_safe(s),
    ensures
        all_safe(trimmed_end(s, set)),
    decreases s.len(),
{
    if s.len() > 0 && set.holds(s.last()) {
        assert(all_safe(s.drop_last())) by {
            assert forall|i: int| 0 <= i < s.drop_last().len() implies name_safe(
                #[trigger] s.drop_last()[i],
            ) by {
                assert(s.drop_last()[i] == s[i]);
            }
        }
        lemma_trimmed_end_safe(s.drop_last(), set);
    }
}

proof fn lemma_trimmed_start_safe(s: Seq<char>, set: CharSet)
    requires
        all_safe(s),
    ensures
        all_safe(trimmed_start(s, set)),
    decreases s.len(),
{
    if s.len() > 0 && set.holds(s.first()) {
        assert(all_safe(s.drop_first())) by {
            assert forall|i: int| 0 <= i < s.drop_first().len() implies name_safe(
                #[trigger] s.drop_first()[i],
            ) by {
                assert(s.drop_first()[i] == s[i + 1]);
            }
        }
        lemma_trimmed_start_safe(s.drop_first(), set);
    }
}

proof fn lemma_stem(ifname: Seq<char>)
    ensures
        all_safe(table_stem(ifname)),
        1 <= table_stem(ifname).len() <= 32,
{
    let mapped = ifname.map_values(|c: char| name_char(c));
    assert(all_safe(mapped)) by {
        assert forall|i: int| 0 <= i < mapped.len() implies name_safe(#[trigger] mapped[i]) by {
            assert(mapped[i] == name_char(ifname[i]));
        }
    }
    lemma_trimmed_start_safe(mapped, CharSet::Only('_'));
    lemma_trimmed_end_safe(trimmed_start(mapped, CharSet::Only('_')), CharSet::Only('_'));
    reveal_strlit("if");
    assert(all_safe("if"@));
}

proof fn lemma_hex(n: nat, width: nat)
    ensures
        hex(n, width).len() == width,
        all_safe(hex(n, width)),
    decreases width,
{
    if width > 0 {
        lemma_hex(n / 16, (width - 1) as nat);
    }
}

/// A table name consists of lower-case ASCII letters, digits and underscores
/// only, has from 21 to 52 of them, starts with the daemon's own prefix and ends in
/// an underscore and the upper half of the hash in eight base-sixteen digits,
/// whatever the interface is called.
pub proof fn table_names_are_safe(ifname: Seq<char>, hash: u64)
    ensures
        all_safe(table_name(ifname, hash)),
        21 <= table_name(ifname, hash).len() <= 52,
        "v2board_wg_"@.is_prefix_of(table_name(ifname, hash)),
        ("_"@ + hex(hash as nat / 0x1_0000_0000, 8)).is_suffix_of(table_name(ifname, hash)),
{
    lemma_stem(ifname);
    lemma_hex(hash as nat, 16);
    reveal_strlit("v2board_wg_");
    reveal_strlit("_");
    let name = table_name(ifname, hash);
    assert(all_safe("v2board_wg_"@));
    assert(all_safe("_"@));
    let part = hex(hash as nat, 16).take(8);
    assert(all_safe(part)) by {
        assert forall|i: int| 0 <= i < part.len() implies name_safe(#[trigger] part[i]) by {
            assert(part[i] == hex(hash as nat, 16)[i]);
        }
    }
    lemma_top_half(hash as nat);
    let tail = "_"@ + part;
    assert(name.subrange(name.len() - tail.len(), name.len() as int) =~= tail);
}

proof fn lemma_hex_prefix(n: nat, width: nat, k: nat)
    requires
        k <= width,
    ensures
        k == width ==> hex(n, width).take(k as int) == hex(n, k),
        k < width ==> hex(n, width).take(k as int) == hex(n / 16, (width - 1) as nat).take(
            k as int,
        ),
{
    lemma_hex(n, width);
    if k == width {
        assert(hex(n, width).take(k as int) =~= hex(n, width));
    } else {
        lemma_hex(n / 16, (width - 1) as nat);
        assert(hex(n, width).take(k as int) =~= hex(n / 16, (width - 1) as nat).take(k as int));
    }
}

proof fn lemma_top_half(n: nat)
    ensures
        hex(n, 16).take(8) == hex(n / 0x1_0000_0000, 8),
{
    let n1 = n / 16;
    let n2 = n1 / 16;
    let n3 = n2 / 16;
    let n4 = n3 / 16;
    let n5 = n4 / 16;
    let n6 = n5 / 16;
    let n7 = n6 / 16;
    let n8 = n7 / 16;
    lemma_hex_prefix(n, 16, 8);
    lemma_hex_prefix(n1, 15, 8);
    lemma_hex_prefix(n2, 14, 8);
    lemma_hex_prefix(n3, 13, 8);
    lemma_hex_prefix(n4, 12, 8);
    lemma_hex_prefix(n5, 11, 8);
    lemma_hex_prefix(n6, 10, 8);
    lemma_hex_prefix(n7, 9, 8);
    lemma_hex_prefix(n8, 8, 8);
    assert(n8 == n / 0x1_0000_0000);
}

proof fn lemma_hex_injective(a: nat, b: nat, width: nat, bound: nat)
    requires
        a < bound,
        b < bound,
        width == 0 ==> bound == 1,
        width == 1 ==> bound == 0x10,
        width == 2 ==> bound == 0x100,
        width == 3 ==> bound == 0x1000,
        width == 4 ==> bound == 0x1_0000,
        width == 5 ==> bound == 0x10_0000,
        width == 6 ==> bound == 0x100_0000,
        width == 7 ==> bound == 0x1000_0000,
        width == 8 ==> bound == 0x1_0000_0000,
        width <= 8,
        hex(a, width) == hex(b, width),
    ensures
        a == b,
    decreases width,
{
    if width > 0 {
        assert(hex(a, width).last() == digit(a % 16));
        assert(hex(b, width).last() == digit(b % 16));
        assert(a % 16 == b % 16);
        assert(hex(a, width).drop_last() =~= hex(a / 16, (width - 1) as nat));
        assert(hex(b, width).drop_last() =~= hex(b / 16, (width - 1) as nat));
        lemma_hex_injective(a / 16, b / 16, (width - 1) as nat, bound / 16);
    }
}

/// Interfaces get different tables if their names read differently or if their
/// names' hashes differ in the upper half.
pub proof fn tables_tell_interfaces_apart(a: Seq<char>, hash_a: u64, b: Seq<char>, hash_b: u64)
    requires
        table_stem(a) != table_stem(b) || hash_a / 0x1_0000_0000 != hash_b / 0x1_0000_0000,
    ensures
        table_name(a, hash_a) != table_name(b, hash_b),
{
    let x = table_name(a, hash_a);
    let y = table_name(b, hash_b);
    if x == y {
        reveal_strlit("v2board_wg_");
        reveal_strlit("_");
        lemma_hex(hash_a as nat, 16);
        lemma_hex(hash_b as nat, 16);
        let tail_a = hex(hash_a as nat, 16).take(8);
        let tail_b = hex(hash_b as nat, 16).take(8);
        assert(x.len() == 11 + table_stem(a).len() + 1 + 8);
        assert(y.len() == 11 + table_stem(b).len() + 1 + 8);
        let n = table_stem(a).len() as int;
        assert(x.subrange(11, 11 + n) =~= table_stem(a));
        assert(y.subrange(11, 11 + n) =~= table_stem(b));
        assert(x.subrange(12 + n, 20 + n) =~= tail_a);
        assert(y.subrange(12 + n, 20 + n) =~= tail_b);
        lemma_top_half(hash_a as nat);
        lemma_top_half(hash_b as nat);
        lemma_hex_injective(
            (hash_a / 0x1_0000_0000) as nat,
            (hash_b / 0x1_0000_0000) as nat,
            8,
            0x1_0000_0000,
        );
    }
}

/// The trial of a script never touches the table itself.
pub proof fn trial_table_is_another(manager: &NetManager, hash: u64)
    ensures
        manager.table(hash) + "_check"@ != manager.table(hash),
{
    reveal_strlit("_check");
    assert((manager.table(hash) + "_check"@).len() == manager.table(hash).len() + 6);
}

/// Under two table names a node gets the same script but for the name: the trial
/// of a script tries all of it.
pub proof fn scripts_differ_in_the_table_name_only(
    a: Seq<char>,
    b: Seq<char>,
    ifname: Seq<char>,
    outbound: Option<Seq<char>>,
    server: &ServerConfig,
)
    ensures
        match (
            script_text(a, ifname, outbound, server),
            script_text(b, ifname, outbound, server),
        ) {
            (Ok(one), Ok(other)) => exists|rest: Seq<char>|
                one == "table inet "@ + a + rest && other == #[trigger] ("table inet "@ + b + rest),
            (Err(one), Err(other)) => one == other,
            _ => false,
        },
{
    if let Ok(one) = script_text(a, ifname, outbound, server) {
        let other = script_text(b, ifname, outbound, server)->Ok_0;
        let n = ("table inet "@ + a).len() as int;
        let rest = one.subrange(n, one.len() as int);
        assert(one =~= "table inet "@ + a + rest);
        assert(other =~= "table inet "@ + b + rest);
    }
}

/// Outside `nat` mode the IPv6 pool leaves no trace in the firewall script: IPv6
/// is routed, not masqueraded.
pub proof fn ipv6_is_masqueraded_in_nat_mode_only(
    table: Seq<char>,
    ifname: Seq<char>,
    outbound: Option<Seq<char>>,
    a: &ServerConfig,
    b: &ServerConfig,
)
    requires
        a.ipv6_mode@ != "nat"@,
        b.ipv6_mode@ != "nat"@,
        a.pool_v4() == b.pool_v4(),
    ensures
        script_text(table, ifname, outbound, a) == script_text(table, ifname, outbound, b),
{
}

/// A script masquerades what comes from the IPv4 pool and, in `nat` mode, what
/// comes from the IPv6 pool if there is one: on the outbound interface where one
/// is set, else on every interface but the WireGuard interface itself.
pub proof fn scripts_masquerade_the_pools(
    table: Seq<char>,
    ifname: Seq<char>,
    outbound: Option<Seq<char>>,
    server: &ServerConfig,
)
    requires
        server.pool_v4() is Some,
    ensures
        ({
            let rule = |family: Seq<char>, pool: Seq<char>|
                match outbound {
                    Some(out) => masquerade_rule(family, pool, true, out),
                    None => masquerade_rule(family, pool, false, ifname),
                };
            let v4 = rule("ip"@, server.pool_v4()->0);
            let v6 = match server.address_pool_ipv6 {
                Some(pool) => if server.ipv6_mode@ == "nat"@ {
                    rule("ip6"@, pool@)
                } else {
                    Seq::empty()
                },
                None => Seq::empty(),
            };
            script_text(table, ifname, outbound, server) == Ok::<Seq<char>, ErrorModel>(
                table_text(table, ifname, v4 + v6),
            )
        }),
{
    let v4 = match outbound {
        Some(out) => masquerade_rule("ip"@, server.pool_v4()->0, true, out),
        None => masquerade_rule("ip"@, server.pool_v4()->0, false, ifname),
    };
    assert(v4 + Seq::<char>::empty() =~= v4);
}

/// A script can be written exactly if the node has an IPv4 pool, whatever else
/// is configured.
pub proof fn scripts_need_a_pool(
    table: Seq<char>,
    ifname: Seq<char>,
    outbound: Option<Seq<char>>,
    server: &ServerConfig,
)
    ensures
        script_text(table, ifname, outbound, server) is Ok <==> server.address_pool is Some
            || server.address_pool_ipv4 is Some,
{
}

/// No two filters have the same preference.
pub proof fn filter_preferences_differ(
    ifname: Seq<char>,
    entries: Seq<(u64, MaskModel)>,
    dry_run: bool,
    i: int,
    j: int,
)
    requires
        0 <= i < j < filter_steps(ifname, entries, dry_run).len(),
    ensures
        filter_steps(ifname, entries, dry_run)[i].args[8] != filter_steps(
            ifname,
            entries,
            dry_run,
        )[j].args[8],
{
    let steps = filter_steps(ifname, entries, dry_run);
    assert(steps[i].args[8] == decimal((10 + i) as nat));
    assert(steps[j].args[8] == decimal((10 + j) as nat));
    if steps[i].args[8] == steps[j].args[8] {
        decimal_is_injective((10 + i) as nat, (10 + j) as nat);
    }
}

/// Every limited address is limited in both directions, at the same rate.
pub proof fn both_directions_are_limited(
    ifname: Seq<char>,
    entries: Seq<(u64, MaskModel)>,
    dry_run: bool,
    k: int,
)
    requires
        0 <= k < entries.len(),
    ensures
        ({
            let steps = filter_steps(ifname, entries, dry_run);
            &&& steps.len() == 2 * entries.len()
            &&& steps[2 * k] == filter_step(
                ifname,
                true,
                entries[k],
                (10 + 2 * k) as nat,
                dry_run,
            )
            &&& steps[2 * k + 1] == filter_step(
                ifname,
                false,
                entries[k],
                (11 + 2 * k) as nat,
                dry_run,
            )
        }),
{
    assert((2 * k) / 2 == k && (2 * k) % 2 == 0);
    assert((2 * k + 1) / 2 == k && (2 * k + 1) % 2 == 1);
}

proof fn lemma_limited_prefix(peers: Seq<DesiredModel>, n: int)
    requires
        0 <= n <= peers.len(),
    ensures
        limited(peers.take(n)).is_prefix_of(limited(peers)),
    decreases peers.len(),
{
    if n < peers.len() {
        assert(peers.drop_last().take(n) =~= peers.take(n));
        lemma_limited_prefix(peers.drop_last(), n);
        let a = limited(peers.take(n));
        let b = limited(peers.drop_last());
        let c = limited(peers);
        assert(b.is_prefix_of(c)) by {
            assert(c.subrange(0, b.len() as int) =~= b);
        }
        assert(a =~= c.subrange(0, a.len() as int)) by {
            assert(a =~= b.subrange(0, a.len() as int));
        }
    } else {
        assert(peers.take(n) =~= peers);
        assert(limited(peers).subrange(0, limited(peers).len() as int) =~= limited(peers));
    }
}

/// Each address of a peer with a speed limit above zero is limited to it.
pub proof fn limited_peers_are_limited(peers: Seq<DesiredModel>, i: int, k: int)
    requires
        0 <= i < peers.len(),
        0 <= k < peers[i].allowed_ips.len(),
        peers[i].speed_limit_mbps matches Some(limit) && limit > 0,
    ensures
        limited(peers).contains((peers[i].speed_limit_mbps->0, peers[i].allowed_ips[k])),
{
    let peer = peers[i];
    let entry = (peer.speed_limit_mbps->0, peer.allowed_ips[k]);
    let upto = peers.take(i + 1);
    assert(upto.last() == peer);
    assert(upto.drop_last() =~= peers.take(i));
    let before = limited(peers.take(i));
    assert(limited(upto)[before.len() + k] == entry);
    lemma_limited_prefix(peers, i + 1);
    assert(limited(peers)[before.len() + k] == limited(upto)[before.len() + k]);
}

/// Only addresses of peers with a speed limit above zero are limited.
pub proof fn unlimited_peers_are_not_limited(peers: Seq<DesiredModel>, entry: (u64, MaskModel))
    requires
        limited(peers).contains(entry),
    ensures
        exists|i: int|
            0 <= i < peers.len() && (#[trigger] peers[i]).speed_limit_mbps == Some(entry.0)
                && entry.0 > 0 && peers[i].allowed_ips.contains(entry.1),
    decreases peers.len(),
{
    let n = choose|n: int| 0 <= n < limited(peers).len() && limited(peers)[n] == entry;
    if peers.len() > 0 {
        let head = peers.drop_last();
        let before = limited(head);
        if n < before.len() {
            assert(before[n] == entry);
            assert(before.contains(entry));
            unlimited_peers_are_not_limited(head, entry);
            let i = choose|i: int|
                0 <= i < head.len() && (#[trigger] head[i]).speed_limit_mbps == Some(entry.0)
                    && entry.0 > 0 && head[i].allowed_ips.contains(entry.1);
            assert(peers[i] == head[i]);
        } else {
            let last = peers.last();
            assert(peers[peers.len() - 1] == last);
            assert(last.allowed_ips[n - before.len()] == entry.1);
        }
    }
}

/// In a table name a lower-case ASCII letter or a digit stands for itself, an
/// upper-case ASCII letter for its lower-case one, and an underscore for any other
/// character.
pub proof fn name_characters_are_plain(c: char)
    ensures
        '0' <= c && c <= '9' ==> name_char(c) == c,
        'a' <= c && c <= 'z' ==> name_char(c) == c,
        'A' <= c && c <= 'Z' ==> name_char(c) as u32 == c as u32 + ('a' as u32 - 'A' as u32),
        !('0' <= c && c <= '9') && !('a' <= c && c <= 'z') && !('A' <= c && c <= 'Z') ==> name_char(
            c,
        ) == '_',
{
}

/// The readable part of a table name is the interface name in name characters
/// without the underscores at its ends, the word `if` where nothing else is left,
/// and never more than the first 32 characters of that.
pub proof fn stems_are_cut_from_the_name(ifname: Seq<char>, plain: Seq<char>)
    requires
        plain.len() == ifname.len(),
        forall|i: int| 0 <= i < plain.len() ==> #[trigger] plain[i] == name_char(ifname[i]),
    ensures
        exists|from: int, to: int|
            {
                let core = plain.subrange(from, to);
                &&& 0 <= from <= to <= plain.len()
                &&& forall|i: int| 0 <= i < from ==> #[trigger] plain[i] == '_'
                &&& forall|i: int| to <= i < plain.len() ==> #[trigger] plain[i] == '_'
                &&& from < to ==> plain[from] != '_' && plain[to - 1] != '_'
                &&& from == to ==> table_stem(ifname) == seq!['i', 'f']
                &&& 0 < to - from <= 32 ==> table_stem(ifname) == core
                &&& to - from > 32 ==> table_stem(ifname) == (#[trigger] plain.subrange(
                    from,
                    to,
                )).take(32)
            },
{
    let set = CharSet::Only('_');
    assert(ifname.map_values(|c: char| name_char(c)) =~= plain);
    trimming_keeps_the_middle(plain, set);
    let (from, to) = choose|from: int, to: int|
        {
            &&& 0 <= from <= to <= plain.len()
            &&& trimmed(plain, set) == #[trigger] plain.subrange(from, to)
            &&& forall|i: int| 0 <= i < from ==> set.holds(#[trigger] plain[i])
            &&& forall|i: int| to <= i < plain.len() ==> set.holds(#[trigger] plain[i])
            &&& from < to ==> !set.holds(plain[from]) && !set.holds(plain[to - 1])
        };
    reveal_strlit("if");
    assert("if"@ =~= seq!['i', 'f']);
    assert(plain.subrange(from, to).len() == to - from);
}

/// A table name is the daemon's prefix, the readable part, an underscore and the
/// upper half of the hash in eight base-sixteen digits.
pub proof fn table_names_have_three_parts(manager: &NetManager, hash: u64)
    ensures
        manager.table(hash) == "v2board_wg_"@ + table_stem(manager.ifname@) + "_"@ + hex(
            hash as nat / 0x1_0000_0000,
            8,
        ),
        table_name(manager.ifname@, hash) == manager.table(hash),
{
    lemma_top_half(hash as nat);
}

/// In base sixteen, sixteen times a number and a digit more is the number followed
/// by that digit.
pub proof fn hex_appends_digits(n: nat, d: nat, width: nat)
    requires
        d < 16,
    ensures
        hex(n, 0).len() == 0,
        hex(16 * n + d, width + 1) == hex(n, width).push("0123456789abcdef"@[d as int]),
{
    reveal_strlit("0123456789abcdef");
    assert((16 * n + d) / 16 == n && (16 * n + d) % 16 == d);
}

/// The script of a node, in full. The pool is the newer IPv4 pool or else the older
/// one, and without either there is no script. The WireGuard interface is let
/// through in both directions. What comes from the pool is masqueraded where it
/// leaves by the outbound interface, if one is set, and else where it leaves by any
/// interface but the WireGuard interface; what comes from the IPv6 pool likewise,
/// in `nat` mode only. Double quotes in interface names are escaped.
pub proof fn scripts_are_written_in_full(
    manager: &NetManager,
    server: &ServerConfig,
    table: Seq<char>,
)
    ensures
        server.address_pool_ipv4 is None && server.address_pool is None ==> manager.script(
            server,
            table,
        ) == Err::<Seq<char>, ErrorModel>(ErrorModel::MissingAddressPool),
        server.address_pool_ipv4 is Some || server.address_pool is Some ==> ({
            let pool = if server.address_pool_ipv4 is Some {
                server.address_pool_ipv4->0@
            } else {
                server.address_pool->0@
            };
            let name = escaped(manager.ifname@);
            let leaving = match manager.firewall.outbound_interface {
                Some(out) => " oifname \""@ + escaped(out@) + "\" masquerade\n"@,
                None => " oifname != \""@ + name + "\" masquerade\n"@,
            };
            let v4 = "    "@ + "ip"@ + " saddr "@ + pool + leaving;
            let v6 = if server.ipv6_mode@ == "nat"@ && server.address_pool_ipv6 is Some {
                "    "@ + "ip6"@ + " saddr "@ + server.address_pool_ipv6->0@ + leaving
            } else {
                Seq::empty()
            };
            manager.script(server, table) == Ok::<Seq<char>, ErrorModel>(
                "table inet "@ + table + " {\n"@ + "  chain forward {\n"@
                    + "    type filter hook forward priority 0; policy accept;\n"@
                    + "    iifname \""@ + name + "\" accept\n"@ + "    oifname \""@ + name
                    + "\" accept\n"@ + "  }\n"@ + "  chain postrouting {\n"@
                    + "    type nat hook postrouting priority srcnat; policy accept;\n"@ + (v4 + v6)
                    + "  }\n"@ + "}\n"@,
            )
        }),
{
    if server.address_pool_ipv4 is Some || server.address_pool is Some {
        let pool = if server.address_pool_ipv4 is Some {
            server.address_pool_ipv4->0@
        } else {
            server.address_pool->0@
        };
        let name = escaped(manager.ifname@);
        let outbound = manager.firewall.outbound_interface.deep_view();
        let leaving = match manager.firewall.outbound_interface {
            Some(out) => " oifname \""@ + escaped(out@) + "\" masquerade\n"@,
            None => " oifname != \""@ + name + "\" masquerade\n"@,
        };
        let (pin, out) = match outbound {
            Some(out) => (true, out),
            None => (false, manager.ifname@),
        };
        let v4 = "    "@ + "ip"@ + " saddr "@ + pool + leaving;
        assert(masquerade_rule("ip"@, pool, pin, out) =~= v4);
        scripts_masquerade_the_pools(table, manager.ifname@, outbound, server);
        if server.ipv6_mode@ == "nat"@ && server.address_pool_ipv6 is Some {
            let pool6 = server.address_pool_ipv6->0@;
            let v6 = "    "@ + "ip6"@ + " saddr "@ + pool6 + leaving;
            assert(masquerade_rule("ip6"@, pool6, pin, out) =~= v6);
        }
    }
}

/// A masquerade rule names the interface itself, character for character, where its
/// name holds no double quote.
pub proof fn masquerade_rules_name_the_interface(
    family: Seq<char>,
    pool: Seq<char>,
    ifname: Seq<char>,
)
    requires
        !ifname.contains('"'),
    ensures
        masquerade_rule(family, pool, false, ifname) == "    "@ + family + " saddr "@ + pool
            + " oifname != \""@ + ifname + "\" masquerade\n"@,
        masquerade_rule(family, pool, true, ifname) == "    "@ + family + " saddr "@ + pool
            + " oifname \""@ + ifname + "\" masquerade\n"@,
{
    unquoted_text_is_kept(ifname);
}

/// Where the interface names hold no double quote, the script holds them as they
/// are, character for character.
pub proof fn scripts_name_the_interfaces(
    manager: &NetManager,
    server: &ServerConfig,
    table: Seq<char>,
)
    requires
        server.address_pool_ipv4 is Some || server.address_pool is Some,
        !manager.ifname@.contains('"'),
        manager.firewall.outbound_interface matches Some(out) ==> !out@.contains('"'),
    ensures
        ({
            let pool = if server.address_pool_ipv4 is Some {
                server.address_pool_ipv4->0@
            } else {
                server.address_pool->0@
            };
            let name = manager.ifname@;
            let leaving = match manager.firewall.outbound_interface {
                Some(out) => " oifname \""@ + out@ + "\" masquerade\n"@,
                None => " oifname != \""@ + name + "\" masquerade\n"@,
            };
            let v4 = "    "@ + "ip"@ + " saddr "@ + pool + leaving;
            let v6 = if server.ipv6_mode@ == "nat"@ && server.address_pool_ipv6 is Some {
                "    "@ + "ip6"@ + " saddr "@ + server.address_pool_ipv6->0@ + leaving
            } else {
                Seq::empty()
            };
            manager.script(server, table) == Ok::<Seq<char>, ErrorModel>(
                "table inet "@ + table + " {\n"@ + "  chain forward {\n"@
                    + "    type filter hook forward priority 0; policy accept;\n"@
                    + "    iifname \""@ + name + "\" accept\n"@ + "    oifname \""@ + name
                    + "\" accept\n"@ + "  }\n"@ + "  chain postrouting {\n"@
                    + "    type nat hook postrouting priority srcnat; policy accept;\n"@ + (v4 + v6)
                    + "  }\n"@ + "}\n"@,
            )
        }),
{
    scripts_are_written_in_full(manager, server, table);
    unquoted_text_is_kept(manager.ifname@);
    if let Some(out) = manager.firewall.outbound_interface {
        unquoted_text_is_kept(out@);
    }
}

/// The firewall is set up by three `nft` commands: one that only tries the script
/// under the trial table, one that deletes the table and may fail, and one that
/// loads the script. Another backend is refused before anything else, and then a
/// node without a script.
pub proof fn firewalls_are_tried_then_loaded(
    manager: &NetManager,
    server: &ServerConfig,
    hash: u64,
)
    ensures
        manager.firewall.backend@ != "nftables"@ ==> manager.nft_plan(server, hash) == Err::<
            Seq<StepModel>,
            ErrorModel,
        >(ErrorModel::UnsupportedFirewallBackend { backend: manager.firewall.backend@ }),
        manager.firewall.backend@ == "nftables"@ ==> match (
            manager.script(server, manager.table(hash)),
            manager.script(server, manager.table(hash) + "_check"@),
        ) {
            (Ok(script), Ok(trial)) => {
                &&& manager.nft_plan(server, hash) is Ok
                &&& ({
                    let steps = manager.nft_plan(server, hash)->Ok_0;
                    &&& steps.len() == 3
                    &&& steps[0].program == "nft"@ && steps[1].program == "nft"@
                        && steps[2].program == "nft"@
                    &&& steps[0].args == seq!["-c"@, "-f"@, "-"@]
                    &&& steps[1].args == seq!["delete"@, "table"@, "inet"@, manager.table(hash)]
                    &&& steps[2].args == seq!["-f"@, "-"@]
                    &&& steps[0].stdin == Some(trial)
                    &&& steps[1].stdin is None
                    &&& steps[2].stdin == Some(script)
                    &&& !steps[0].ignore_failure && steps[1].ignore_failure
                        && !steps[2].ignore_failure
                    &&& forall|i: int|
                        0 <= i < 3 ==> (#[trigger] steps[i]).dry_run == manager.firewall.dry_run
                })
            },
            (Err(e), _) => manager.nft_plan(server, hash) == Err::<Seq<StepModel>, ErrorModel>(e),
            _ => false,
        },
{
}

/// Without peers the traffic-control plan drops the queueing discipline, which may
/// fail, and sets it up again, and nothing else.
pub proof fn speed_limits_start_clean(manager: &NetManager)
    ensures
        ({
            let steps = manager.tc_plan(Seq::<DesiredModel>::empty());
            &&& steps.len() == 2
            &&& steps[0].program == "tc"@ && steps[1].program == "tc"@
            &&& steps[0].args == seq!["qdisc"@, "del"@, "dev"@, manager.ifname@, "clsact"@]
            &&& steps[1].args == seq!["qdisc"@, "replace"@, "dev"@, manager.ifname@, "clsact"@]
            &&& steps[0].ignore_failure && !steps[1].ignore_failure
            &&& steps[0].stdin is None && steps[1].stdin is None
            &&& steps[0].dry_run == manager.rate_limit.dry_run && steps[1].dry_run
                == manager.rate_limit.dry_run
        }),
{
}

proof fn lemma_limited_push(peers: Seq<DesiredModel>, peer: DesiredModel)
    ensures
        peer.speed_limit_mbps is None || peer.speed_limit_mbps == Some(0u64) ==> limited(
            peers.push(peer),
        ) == limited(peers),
        peer.speed_limit_mbps matches Some(limit) ==> (limit > 0 ==> limited(peers.push(peer))
            == limited(peers) + Seq::new(
            peer.allowed_ips.len(),
            |i: int| (limit, peer.allowed_ips[i]),
        )),
{
    assert(peers.push(peer).drop_last() =~= peers);
    assert(limited(peers) + Seq::<(u64, MaskModel)>::empty() =~= limited(peers));
}

/// One more peer adds to the limited addresses just its own, in their order and
/// under its limit, and none if it has no limit or a limit of zero.
pub proof fn limited_addresses_are_those_of_limited_peers(
    peers: Seq<DesiredModel>,
    peer: DesiredModel,
)
    ensures
        limited(Seq::<DesiredModel>::empty()).len() == 0,
        peer.speed_limit_mbps is None || peer.speed_limit_mbps == Some(0u64) ==> limited(
            peers.push(peer),
        ) == limited(peers),
        peer.speed_limit_mbps is Some && peer.speed_limit_mbps->0 > 0 ==> {
            let limit = peer.speed_limit_mbps->0;
            let old_len = limited(peers).len();
            let all = limited(peers.push(peer));
            &&& all.len() == old_len + peer.allowed_ips.len()
            &&& all.take(old_len as int) == limited(peers)
            &&& forall|k: int|
                0 <= k < peer.allowed_ips.len() ==> #[trigger] all[old_len + k] == (
                    limit,
                    peer.allowed_ips[k],
                )
        },
{
    lemma_limited_push(peers, peer);
    let all = limited(peers.push(peer));
    if peer.speed_limit_mbps is Some && peer.speed_limit_mbps->0 > 0 {
        assert(all.take(limited(peers).len() as int) =~= limited(peers));
    }
}

/// One more peer adds nothing to the traffic-control plan if it has no limit or a
/// limit of zero, and otherwise two commands for each of its addresses, behind
/// those that are there.
pub proof fn limited_peers_extend_the_plan(
    manager: &NetManager,
    peers: Seq<DesiredModel>,
    peer: DesiredModel,
)
    ensures
        peer.speed_limit_mbps is None || peer.speed_limit_mbps == Some(0u64) ==> manager.tc_plan(
            peers.push(peer),
        ) == manager.tc_plan(peers),
        peer.speed_limit_mbps is Some && peer.speed_limit_mbps->0 > 0 ==> {
            let before = manager.tc_plan(peers);
            let after = manager.tc_plan(peers.push(peer));
            &&& after.len() == before.len() + 2 * peer.allowed_ips.len()
            &&& after.take(before.len() as int) == before
        },
{
    lemma_limited_push(peers, peer);
    if peer.speed_limit_mbps is Some && peer.speed_limit_mbps->0 > 0 {
        let before = manager.tc_plan(peers);
        let after = manager.tc_plan(peers.push(peer));
        let old_entries = limited(peers);
        let entries = limited(peers.push(peer));
        assert forall|j: int| 0 <= j < before.len() implies #[trigger] after[j] == before[j] by {
            if j >= 2 {
                assert(0 <= (j - 2) / 2 < old_entries.len());
                assert(entries[(j - 2) / 2] == old_entries[(j - 2) / 2]);
            }
        }
        assert(after.take(before.len() as int) =~= before);
    }
}

proof fn lemma_own_filters(
    manager: &NetManager,
    peers: Seq<DesiredModel>,
    peer: DesiredModel,
    k: int,
)
    requires
        0 <= k < peer.allowed_ips.len(),
        peer.speed_limit_mbps is Some && peer.speed_limit_mbps->0 > 0,
    ensures
        ({
            let entry = (peer.speed_limit_mbps->0, peer.allowed_ips[k]);
            let n = manager.tc_plan(peers).len() as int;
            let after = manager.tc_plan(peers.push(peer));
            &&& after[n + 2 * k] == filter_step(
                manager.ifname@,
                true,
                entry,
                (n + 8 + 2 * k) as nat,
                manager.rate_limit.dry_run,
            )
            &&& after[n + 2 * k + 1] == filter_step(
                manager.ifname@,
                false,
                entry,
                (n + 9 + 2 * k) as nat,
                manager.rate_limit.dry_run,
            )
        }),
{
    lemma_limited_push(peers, peer);
    let entries = limited(peers.push(peer));
    let n = manager.tc_plan(peers).len() as int;
    let after = manager.tc_plan(peers.push(peer));
    let ifname = manager.ifname@;
    let dry_run = manager.rate_limit.dry_run;
    let m = limited(peers).len() + k;
    assert(n == 2 + 2 * limited(peers).len());
    assert(entries[m] == (peer.speed_limit_mbps->0, peer.allowed_ips[k]));
    both_directions_are_limited(ifname, entries, dry_run, m);
    assert(after[n + 2 * k] == filter_steps(ifname, entries, dry_run)[2 * m]);
    assert(after[n + 2 * k + 1] == filter_steps(ifname, entries, dry_run)[2 * m + 1]);
}

/// The two commands that one more peer with a limit above zero adds for one of its
/// addresses, whatever its family: a filter on `egress` for what is sent to the
/// address and one on `ingress` for what comes from it, at the peer's rate and
/// under the next free preferences.
pub proof fn limited_peers_are_policed_both_ways(
    manager: &NetManager,
    peers: Seq<DesiredModel>,
    peer: DesiredModel,
    k: int,
)
    requires
        0 <= k < peer.allowed_ips.len(),
        peer.speed_limit_mbps is Some && peer.speed_limit_mbps->0 > 0,
    ensures
        ({
            let n = manager.tc_plan(peers).len() as int;
            let ip = peer.allowed_ips[k];
            let out = manager.tc_plan(peers.push(peer))[n + 2 * k];
            let back = manager.tc_plan(peers.push(peer))[n + 2 * k + 1];
            let protocol = if ip.is_ipv4 {
                "ip"@
            } else {
                "ipv6"@
            };
            let rate = decimal(peer.speed_limit_mbps->0 as nat) + "mbit"@;
            &&& out.program == "tc"@ && back.program == "tc"@
            &&& out.args == seq![
                "filter"@,
                "replace"@,
                "dev"@,
                manager.ifname@,
                "egress"@,
                "protocol"@,
                protocol,
                "pref"@,
                decimal((n + 8 + 2 * k) as nat),
                "flower"@,
                "dst_ip"@,
                ip.address,
                "action"@,
                "police"@,
                "rate"@,
                rate,
                "burst"@,
                "256k"@,
                "conform-exceed"@,
                "drop"@,
            ]
            &&& back.args == seq![
                "filter"@,
                "replace"@,
                "dev"@,
                manager.ifname@,
                "ingress"@,
                "protocol"@,
                protocol,
                "pref"@,
                decimal((n + 9 + 2 * k) as nat),
                "flower"@,
                "src_ip"@,
                ip.address,
                "action"@,
                "police"@,
                "rate"@,
                rate,
                "burst"@,
                "256k"@,
                "conform-exceed"@,
                "drop"@,
            ]
            &&& out.stdin is None && back.stdin is None
            &&& !out.ignore_failure && !back.ignore_failure
            &&& out.dry_run == manager.rate_limit.dry_run && back.dry_run
                == manager.rate_limit.dry_run
        }),
{
    lemma_own_filters(manager, peers, peer, k);
}

proof fn lemma_tc_prefix(manager: &NetManager, peers: Seq<DesiredModel>, n: int)
    requires
        0 <= n <= peers.len(),
    ensures
        manager.tc_plan(peers.take(n)).len() <= manager.tc_plan(peers).len(),
        forall|j: int|
            0 <= j < manager.tc_plan(peers.take(n)).len() ==> #[trigger] manager.tc_plan(peers)[j]
                == manager.tc_plan(peers.take(n))[j],
    decreases peers.len(),
{
    if n < peers.len() {
        let head = peers.drop_last();
        let peer = peers.last();
        assert(head.take(n) =~= peers.take(n));
        assert(head.push(peer) =~= peers);
        lemma_tc_prefix(manager, head, n);
        limited_peers_extend_the_plan(manager, head, peer);
        let plan = manager.tc_plan(head);
        assert forall|j: int|
            0 <= j < manager.tc_plan(peers.take(n)).len() implies #[trigger] manager.tc_plan(
            peers,
        )[j] == manager.tc_plan(peers.take(n))[j] by {
            assert(manager.tc_plan(peers).take(plan.len() as int)[j] == plan[j]);
        }
    } else {
        assert(peers.take(n) =~= peers);
    }
}

/// For every address of a peer with a limit above zero, whatever its family, the
/// plan holds a filter on `egress` for the packets to it and one on `ingress` for
/// those from it, at the peer's rate.
pub proof fn every_limited_address_has_two_filters(
    manager: &NetManager,
    peers: Seq<DesiredModel>,
    i: int,
    k: int,
)
    requires
        0 <= i < peers.len(),
        0 <= k < peers[i].allowed_ips.len(),
        peers[i].speed_limit_mbps matches Some(limit) && limit > 0,
    ensures
        exists|at: int|
            #![trigger manager.tc_plan(peers)[at]]
            {
                let steps = manager.tc_plan(peers);
                let ip = peers[i].allowed_ips[k];
                let protocol = if ip.is_ipv4 {
                    "ip"@
                } else {
                    "ipv6"@
                };
                let rate = decimal(peers[i].speed_limit_mbps->0 as nat) + "mbit"@;
                &&& 2 <= at < steps.len() - 1
                &&& steps[at].args[4] == "egress"@
                &&& steps[at].args[10] == "dst_ip"@
                &&& steps[at].args[11] == ip.address
                &&& steps[at].args[6] == protocol
                &&& steps[at].args[15] == rate
                &&& steps[at + 1].args[4] == "ingress"@
                &&& steps[at + 1].args[10] == "src_ip"@
                &&& steps[at + 1].args[11] == ip.address
                &&& steps[at + 1].args[6] == protocol
                &&& steps[at + 1].args[15] == rate
            },
{
    let before = peers.take(i);
    let peer = peers[i];
    assert(before.push(peer) =~= peers.take(i + 1));
    limited_peers_extend_the_plan(manager, before, peer);
    lemma_own_filters(manager, before, peer, k);
    lemma_tc_prefix(manager, peers, i + 1);
    let at = manager.tc_plan(before).len() + 2 * k;
    let own = manager.tc_plan(before.push(peer));
    assert(manager.tc_plan(peers)[at] == own[at]);
    assert(manager.tc_plan(peers)[at + 1] == own[at + 1]);
}

/// The whole plan is that of the firewall followed by that of the speed limits,
/// each only where it is enabled; a firewall that cannot be set up leaves no plan.
pub proof fn plans_hold_what_is_enabled(
    manager: &NetManager,
    server: &ServerConfig,
    peers: Seq<DesiredModel>,
    hash: u64,
)
    ensures
        ({
            let plan = manager.plan(server, peers, hash);
            let nft = manager.nft_plan(server, hash);
            let tc = manager.tc_plan(peers);
            &&& !manager.firewall.enabled && !manager.rate_limit.enabled ==> plan == Ok::<
                Seq<StepModel>,
                ErrorModel,
            >(Seq::empty())
            &&& !manager.firewall.enabled && manager.rate_limit.enabled ==> plan == Ok::<
                Seq<StepModel>,
                ErrorModel,
            >(tc)
            &&& manager.firewall.enabled && nft is Err ==> plan == nft
            &&& manager.firewall.enabled && nft is Ok && !manager.rate_limit.enabled ==> plan == nft
            &&& manager.firewall.enabled && nft is Ok && manager.rate_limit.enabled ==> plan == Ok::<
                Seq<StepModel>,
                ErrorModel,
            >(nft->Ok_0 + tc)
        }),
{
    if manager.nft_plan(server, hash) is Ok {
        let nft = manager.nft_plan(server, hash)->Ok_0;
        assert(nft + Seq::<StepModel>::empty() =~= nft);
    }
}

/// The filters can be numbered exactly if the number behind the last of them still
/// fits its counter.
pub proof fn filters_are_numbered_within_the_counter(manager: &NetManager, peers: Seq<DesiredModel>)
    ensures
        countable(peers) <==> manager.tc_plan(peers).len() + 8 <= u32::MAX,
{
}

} // verus!
