//! What holds of reports.

use crate::peers::DesiredModel;
use crate::report::{
    host_position, lemma_host_position, online_count, present, recent, status_peers, traffic_of,
    status_to_send, traffic_peers, HostModel, StatusModel, TrafficModel, TrafficPeerModel,
};
use crate::runtime::{
    next_sequence, online_window, report_name, reports_of, sequence_after_reports, status_report,
    traffic_report, Runtime,
};
use crate::text::decimal;
use crate::text_laws::{decimal_is_digits, decimal_is_injective};
use vstd::prelude::*;

verus! {

proof fn lemma_split(a: Seq<char>, rest_a: Seq<char>, b: Seq<char>, rest_b: Seq<char>)
    requires
        !a.contains('-'),
        !b.contains('-'),
        a + "-"@ + rest_a == b + "-"@ + rest_b,
    ensures
        a == b,
        rest_a == rest_b,
{
    reveal_strlit("-");
    let x = a + "-"@ + rest_a;
    let y = b + "-"@ + rest_b;
    assert(x[a.len() as int] == '-');
    assert(y[b.len() as int] == '-');
    if a.len() < b.len() {
        assert(y[a.len() as int] == b[a.len() as int]);
        assert(b.contains(b[a.len() as int]));
    } else if b.len() < a.len() {
        assert(x[b.len() as int] == a[b.len() as int]);
        assert(a.contains(a[b.len() as int]));
    }
    let n = a.len() as int;
    assert(x.subrange(0, n) =~= a);
    assert(y.subrange(0, n) =~= b);
    assert(x.subrange(n + 1, x.len() as int) =~= rest_a);
    assert(y.subrange(n + 1, y.len() as int) =~= rest_b);
}

proof fn lemma_no_dash(n: nat)
    ensures
        !decimal(n).contains('-'),
{
    decimal_is_digits(n);
}

/// The name of a report tells its node, its time and its number: two reports
/// that differ in any of them have different names.
pub proof fn report_names_are_unique(
    node_a: u64,
    millis_a: u128,
    sequence_a: u64,
    node_b: u64,
    millis_b: u128,
    sequence_b: u64,
)
    requires
        report_name(node_a, millis_a, sequence_a) == report_name(node_b, millis_b, sequence_b),
    ensures
        node_a == node_b,
        millis_a == millis_b,
        sequence_a == sequence_b,
{
    let na = decimal(node_a as nat);
    let nb = decimal(node_b as nat);
    let ma = decimal(millis_a as nat);
    let mb = decimal(millis_b as nat);
    let sa = decimal(sequence_a as nat);
    let sb = decimal(sequence_b as nat);
    lemma_no_dash(node_a as nat);
    lemma_no_dash(node_b as nat);
    lemma_no_dash(millis_a as nat);
    lemma_no_dash(millis_b as nat);
    assert(report_name(node_a, millis_a, sequence_a) =~= na + "-"@ + (ma + "-"@ + sa));
    assert(report_name(node_b, millis_b, sequence_b) =~= nb + "-"@ + (mb + "-"@ + sb));
    lemma_split(na, ma + "-"@ + sa, nb, mb + "-"@ + sb);
    lemma_split(ma, sa, mb, sb);
    decimal_is_injective(node_a as nat, node_b as nat);
    decimal_is_injective(millis_a as nat, millis_b as nat);
    decimal_is_injective(sequence_a as nat, sequence_b as nat);
}

/// The counter after `steps` further reports.
pub open spec fn sequence_after(n: u64, steps: nat) -> u64
    decreases steps,
{
    if steps == 0 {
        n
    } else {
        next_sequence(sequence_after(n, (steps - 1) as nat))
    }
}

proof fn lemma_sequence_after(n: u64, steps: nat)
    ensures
        sequence_after(n, steps) as int == (n + steps) % 0x1_0000_0000_0000_0000,
    decreases steps,
{
    if steps > 0 {
        lemma_sequence_after(n, (steps - 1) as nat);
    }
}

/// The reports of one run have different names, even within one millisecond, as
/// long as the counter has not gone round.
pub proof fn later_reports_have_other_names(
    node_id: u64,
    millis_a: u128,
    millis_b: u128,
    sequence: u64,
    steps: nat,
)
    requires
        0 < steps <= u64::MAX,
    ensures
        report_name(node_id, millis_a, sequence) != report_name(
            node_id,
            millis_b,
            sequence_after(sequence, steps),
        ),
{
    lemma_sequence_after(sequence, steps);
    if report_name(node_id, millis_a, sequence) == report_name(
        node_id,
        millis_b,
        sequence_after(sequence, steps),
    ) {
        report_names_are_unique(
            node_id,
            millis_a,
            sequence,
            node_id,
            millis_b,
            sequence_after(sequence, steps),
        );
    }
}

/// With no least traffic every peer that is present is reported, and no other:
/// the flush before a change leaves no counter behind.
pub proof fn flush_reports_every_present_peer(peers: Seq<(DesiredModel, HostModel)>)
    ensures
        traffic_peers(peers, 0) == Seq::new(peers.len(), |i: int| traffic_of(peers[i])),
    decreases peers.len(),
{
    if peers.len() > 0 {
        flush_reports_every_present_peer(peers.drop_last());
        assert(traffic_peers(peers, 0) =~= Seq::new(peers.len(), |i: int| traffic_of(peers[i])));
    } else {
        assert(traffic_peers(peers, 0) =~= Seq::new(peers.len(), |i: int| traffic_of(peers[i])));
    }
}

/// A desired peer is present exactly if the interface holds its key, and is then
/// reported with the counters that the interface keeps for that key.
pub proof fn present_peers_are_those_on_the_interface(
    desired: Seq<DesiredModel>,
    host: Seq<HostModel>,
    i: int,
)
    requires
        0 <= i < desired.len(),
    ensures
        match host_position(host, desired[i].public_key) {
            Some(k) => present(desired, host).contains((desired[i], host[k])),
            None => forall|n: int|
                0 <= n < present(desired, host).len() ==> (#[trigger] present(desired, host)[n]).0
                    != desired[i],
        },
    decreases desired.len(),
{
    let head = desired.drop_last();
    let rest = present(head, host);
    let all = present(desired, host);
    if i < head.len() {
        present_peers_are_those_on_the_interface(head, host, i);
        assert(head[i] == desired[i]);
        match host_position(host, desired[i].public_key) {
            Some(k) => {
                let n = choose|n: int| 0 <= n < rest.len() && rest[n] == (desired[i], host[k]);
                assert(all[n] == rest[n]);
            },
            None => {
                assert forall|n: int| 0 <= n < all.len() implies (#[trigger] all[n]).0
                    != desired[i] by {
                    if n < rest.len() {
                        assert(all[n] == rest[n]);
                    }
                }
            },
        }
    } else {
        match host_position(host, desired[i].public_key) {
            Some(k) => {
                assert(all[rest.len() as int] == (desired[i], host[k]));
            },
            None => {
                lemma_present_is_on_interface(head, host);
            },
        }
    }
}

proof fn lemma_present_is_on_interface(desired: Seq<DesiredModel>, host: Seq<HostModel>)
    ensures
        forall|n: int|
            0 <= n < present(desired, host).len() ==> host_position(
                host,
                (#[trigger] present(desired, host)[n]).0.public_key,
            ) is Some,
    decreases desired.len(),
{
    if desired.len() > 0 {
        let rest = present(desired.drop_last(), host);
        let all = present(desired, host);
        lemma_present_is_on_interface(desired.drop_last(), host);
        assert forall|n: int| 0 <= n < all.len() implies host_position(
            host,
            (#[trigger] all[n]).0.public_key,
        ) is Some by {
            if n < rest.len() {
                assert(all[n] == rest[n]);
            }
        }
    }
}

/// Every peer is reported under its own key: the counters in a report come from
/// the interface's peer with the key of the desired one.
pub proof fn counters_belong_to_the_key(desired: Seq<DesiredModel>, host: Seq<HostModel>)
    ensures
        forall|n: int|
            0 <= n < present(desired, host).len() ==> (#[trigger] present(
                desired,
                host,
            )[n]).0.public_key == present(desired, host)[n].1.public_key,
    decreases desired.len(),
{
    if desired.len() > 0 {
        let rest = present(desired.drop_last(), host);
        let all = present(desired, host);
        counters_belong_to_the_key(desired.drop_last(), host);
        lemma_host_position(host, desired.last().public_key);
        assert forall|n: int| 0 <= n < all.len() implies (#[trigger] all[n]).0.public_key
            == all[n].1.public_key by {
            if n < rest.len() {
                assert(all[n] == rest[n]);
            }
        }
    }
}

/// No more peers are online than have a status, and no more have their traffic
/// reported.
pub proof fn no_more_online_than_present(
    peers: Seq<(DesiredModel, HostModel)>,
    now: u64,
    window_secs: u64,
    min_traffic: u64,
)
    ensures
        online_count(peers, now, window_secs) <= status_peers(peers).len(),
        traffic_peers(peers, min_traffic).len() <= status_peers(peers).len(),
    decreases peers.len(),
{
    if peers.len() > 0 {
        no_more_online_than_present(peers.drop_last(), now, window_secs, min_traffic);
    }
}

/// A wider window makes no peer go offline.
pub proof fn wider_windows_keep_peers_online(
    last_handshake_at: Option<u64>,
    now: u64,
    narrow: u64,
    wide: u64,
)
    requires
        narrow <= wide,
        recent(last_handshake_at, now, narrow),
    ensures
        recent(last_handshake_at, now, wide),
{
}

/// The window in which a handshake counts is never shorter than 30 seconds, and
/// where none is configured never shorter than three minutes.
pub proof fn online_window_has_a_floor(configured: Option<u64>, push_interval: u64)
    ensures
        online_window(configured, push_interval) >= 30,
        configured is None ==> online_window(configured, push_interval) >= 180,
{
}

/// A handshake is recent exactly if it lies no more than a minute ahead of the clock
/// and no longer back than the window.
pub proof fn handshakes_are_recent_within_the_window(at: u64, now: u64, window_secs: u64)
    ensures
        recent(Some(at), now, window_secs) <==> at <= now + 60 && now <= at + window_secs,
        !recent(None, now, window_secs),
{
}

/// The window is the configured one or 30 seconds, whichever is longer; where none
/// is configured it is three push intervals or three minutes, whichever is longer,
/// as far as that can be counted.
pub proof fn online_window_is_the_longer_one(secs: u64, push_interval: u64)
    ensures
        secs >= 30 ==> online_window(Some(secs), push_interval) == secs,
        secs < 30 ==> online_window(Some(secs), push_interval) == 30,
        3 * push_interval <= 180 ==> online_window(None, push_interval) == 180,
        180 <= 3 * push_interval <= u64::MAX ==> online_window(None, push_interval) == 3
            * push_interval,
        3 * push_interval > u64::MAX ==> online_window(None, push_interval) == u64::MAX,
{
}

/// The counter of reports goes up by one and starts again at zero behind its end.
pub proof fn reports_are_counted_up(n: u64)
    ensures
        n < u64::MAX ==> next_sequence(n) == n + 1,
        n == u64::MAX ==> next_sequence(n) == 0,
{
}

/// The name of a report is the node, the time and the number in decimal, in that
/// order, with dashes between them.
pub proof fn report_names_have_three_parts(node_id: u64, millis: u128, sequence: u64)
    ensures
        report_name(node_id, millis, sequence) == decimal(node_id as nat) + seq!['-'] + decimal(
            millis as nat,
        ) + seq!['-'] + decimal(sequence as nat),
{
    reveal_strlit("-");
    assert("-"@ =~= seq!['-']);
}

proof fn lemma_present_push(
    desired: Seq<DesiredModel>,
    wish: DesiredModel,
    host: Seq<HostModel>,
    k: int,
)
    ensures
        (forall|j: int| 0 <= j < host.len() ==> (#[trigger] host[j]).public_key != wish.public_key)
            ==> present(desired.push(wish), host) == present(desired, host),
        0 <= k < host.len() && host[k].public_key == wish.public_key && (forall|j: int|
            0 <= j < k ==> (#[trigger] host[j]).public_key != wish.public_key) ==> present(
            desired.push(wish),
            host,
        ) == present(desired, host).push((wish, host[k])),
{
    assert(desired.push(wish).drop_last() =~= desired);
    lemma_host_position(host, wish.public_key);
}

/// Without desired peers nothing is reported but the time.
pub proof fn nobody_is_reported_as_nothing(
    runtime: &Runtime,
    host: Seq<HostModel>,
    now: u64,
    millis: u128,
    min_traffic: u64,
    window_secs: u64,
)
    requires
        runtime.desired.deep_view().len() == 0,
    ensures
        traffic_report(runtime, host, now, millis, min_traffic) is None,
        status_report(runtime, host, now, window_secs).peers.len() == 0,
        status_report(runtime, host, now, window_secs).online == 0,
        status_report(runtime, host, now, window_secs).reported_at == now,
{
}

/// One more desired peer whose key the interface does not hold changes no report.
pub proof fn absent_peers_are_not_reported(
    runtime: &Runtime,
    more: &Runtime,
    wish: DesiredModel,
    host: Seq<HostModel>,
    now: u64,
    millis: u128,
    min_traffic: u64,
    window_secs: u64,
)
    requires
        more.desired.deep_view() == runtime.desired.deep_view().push(wish),
        more.config.panel.node_id == runtime.config.panel.node_id,
        more.report_sequence == runtime.report_sequence,
        forall|j: int| 0 <= j < host.len() ==> (#[trigger] host[j]).public_key != wish.public_key,
    ensures
        traffic_report(more, host, now, millis, min_traffic) == traffic_report(
            runtime,
            host,
            now,
            millis,
            min_traffic,
        ),
        status_report(more, host, now, window_secs) == status_report(
            runtime,
            host,
            now,
            window_secs,
        ),
{
    lemma_present_push(runtime.desired.deep_view(), wish, host, 0);
}

/// One more desired peer whose key the interface holds adds one entry to the status
/// report, behind those that are there: with the desired peer's identifiers, device
/// and key text, the interface's endpoint, and the interface's last handshake unless
/// that is at zero. It is counted as online exactly if that handshake is recent.
pub proof fn present_peers_have_a_status(
    runtime: &Runtime,
    more: &Runtime,
    wish: DesiredModel,
    host: Seq<HostModel>,
    k: int,
    now: u64,
    window_secs: u64,
)
    requires
        more.desired.deep_view() == runtime.desired.deep_view().push(wish),
        0 <= k < host.len(),
        host[k].public_key == wish.public_key,
        forall|j: int| 0 <= j < k ==> (#[trigger] host[j]).public_key != wish.public_key,
    ensures
        ({
            let before = status_report(runtime, host, now, window_secs);
            let after = status_report(more, host, now, window_secs);
            let entry = after.peers.last();
            let at = host[k].last_handshake;
            &&& after.reported_at == now
            &&& after.peers.len() == before.peers.len() + 1
            &&& after.peers.drop_last() == before.peers
            &&& entry.peer_id == wish.peer_id
            &&& entry.user_id == wish.user_id
            &&& entry.device_id == wish.device_id
            &&& entry.public_key == wish.public_key_string
            &&& entry.last_endpoint == host[k].endpoint
            &&& at is None || at == Some(0u64) ==> entry.last_handshake_at is None && after.online
                == before.online
            &&& at is Some && at->0 > 0 ==> entry.last_handshake_at == at && after.online
                == before.online + (if at->0 <= now + 60 && now <= at->0 + window_secs {
                1nat
            } else {
                0nat
            })
        }),
{
    let desired = runtime.desired.deep_view();
    lemma_present_push(desired, wish, host, k);
    let old_peers = present(desired, host);
    let peers = present(desired.push(wish), host);
    assert(peers.drop_last() =~= old_peers);
    assert(peers.last() == (wish, host[k]));
    assert(status_peers(peers).drop_last() =~= status_peers(old_peers));
}

/// The peers of a traffic report, or none where there is no report.
pub open spec fn reported(report: Option<TrafficModel>) -> Seq<TrafficPeerModel> {
    match report {
        Some(report) => report.peers,
        None => Seq::empty(),
    }
}

/// One more desired peer whose key the interface holds adds one entry to the traffic
/// report exactly if it moved at least the least traffic in both directions
/// together, behind those that are there: with the desired peer's identifiers,
/// device and key text, what the interface received as upload and what it sent as
/// download, its endpoint, and its last handshake unless that is at zero.
pub proof fn busy_peers_have_their_traffic_reported(
    runtime: &Runtime,
    more: &Runtime,
    wish: DesiredModel,
    host: Seq<HostModel>,
    k: int,
    now: u64,
    millis: u128,
    min_traffic: u64,
)
    requires
        more.desired.deep_view() == runtime.desired.deep_view().push(wish),
        0 <= k < host.len(),
        host[k].public_key == wish.public_key,
        forall|j: int| 0 <= j < k ==> (#[trigger] host[j]).public_key != wish.public_key,
    ensures
        ({
            let before = reported(traffic_report(runtime, host, now, millis, min_traffic));
            let after = reported(traffic_report(more, host, now, millis, min_traffic));
            let entry = after.last();
            let at = host[k].last_handshake;
            &&& host[k].rx_bytes + host[k].tx_bytes < min_traffic ==> after == before
            &&& host[k].rx_bytes + host[k].tx_bytes >= min_traffic ==> {
                &&& after.len() == before.len() + 1
                &&& after.drop_last() == before
                &&& entry.peer_id == wish.peer_id
                &&& entry.user_id == wish.user_id
                &&& entry.device_id == wish.device_id
                &&& entry.public_key == wish.public_key_string
                &&& entry.upload == host[k].rx_bytes
                &&& entry.download == host[k].tx_bytes
                &&& entry.last_endpoint == host[k].endpoint
                &&& at is None || at == Some(0u64) ==> entry.last_handshake_at is None
                &&& at is Some && at->0 > 0 ==> entry.last_handshake_at == at
            }
        }),
{
    let desired = runtime.desired.deep_view();
    lemma_present_push(desired, wish, host, k);
    let old_peers = present(desired, host);
    let peers = present(desired.push(wish), host);
    assert(peers.drop_last() =~= old_peers);
    assert(peers.last() == (wish, host[k]));
    let old_list = traffic_peers(old_peers, min_traffic);
    let list = traffic_peers(peers, min_traffic);
    assert(reported(traffic_report(runtime, host, now, millis, min_traffic)) =~= old_list);
    assert(reported(traffic_report(more, host, now, millis, min_traffic)) =~= list);
    if host[k].rx_bytes + host[k].tx_bytes >= min_traffic {
        assert(list.drop_last() =~= old_list);
    }
}

/// A traffic report is made only where there is a peer to report; it has the time,
/// and the name that follows from the node, the time and the next number.
pub proof fn traffic_reports_are_named_and_dated(
    runtime: &Runtime,
    host: Seq<HostModel>,
    now: u64,
    millis: u128,
    min_traffic: u64,
)
    ensures
        traffic_report(runtime, host, now, millis, min_traffic) matches Some(report) ==> {
            &&& report.peers.len() > 0
            &&& report.reported_at == now
            &&& report.report_id == report_name(
                runtime.config.panel.node_id,
                millis,
                if runtime.report_sequence == u64::MAX {
                    0
                } else {
                    (runtime.report_sequence + 1) as u64
                },
            )
        },
{
}

/// No more peers are counted as online than the status report lists.
pub proof fn status_lists_those_online(
    runtime: &Runtime,
    host: Seq<HostModel>,
    now: u64,
    window_secs: u64,
)
    ensures
        ({
            let report = status_report(runtime, host, now, window_secs);
            report.online <= report.peers.len()
        }),
{
    no_more_online_than_present(present(runtime.desired.deep_view(), host), now, window_secs, 0);
}

/// Every desired peer whose key the interface holds stands in the status report.
pub proof fn status_lists_every_present_peer(
    runtime: &Runtime,
    host: Seq<HostModel>,
    i: int,
    now: u64,
    window_secs: u64,
)
    requires
        0 <= i < runtime.desired.deep_view().len(),
        exists|k: int|
            0 <= k < host.len() && (#[trigger] host[k]).public_key
                == runtime.desired.deep_view()[i].public_key,
    ensures
        exists|n: int|
            {
                let wish = runtime.desired.deep_view()[i];
                let peers = status_report(runtime, host, now, window_secs).peers;
                &&& 0 <= n < peers.len()
                &&& (#[trigger] status_report(runtime, host, now, window_secs).peers[n]).public_key
                    == wish.public_key_string
                &&& peers[n].user_id == wish.user_id
                &&& peers[n].peer_id == wish.peer_id
                &&& peers[n].device_id == wish.device_id
            },
{
    let desired = runtime.desired.deep_view();
    let all = present(desired, host);
    lemma_host_position(host, desired[i].public_key);
    present_peers_are_those_on_the_interface(desired, host, i);
    let k = host_position(host, desired[i].public_key)->0;
    let n = choose|n: int| 0 <= n < all.len() && all[n] == (desired[i], host[k]);
    assert(status_report(runtime, host, now, window_secs).peers[n].public_key
        == desired[i].public_key_string);
}

/// A look at the interface gives the traffic report, if there is one, whether or not
/// a status is asked for, and the status report exactly if it is; a report is
/// counted exactly if one of the traffic was made.
pub proof fn reports_are_made_as_asked(
    runtime: &Runtime,
    host: Seq<HostModel>,
    now: u64,
    millis: u128,
    min_traffic: u64,
    window_secs: u64,
    include_status: bool,
    n: u64,
)
    ensures
        ({
            let (traffic, status) = reports_of(
                runtime,
                host,
                now,
                millis,
                min_traffic,
                window_secs,
                include_status,
            );
            &&& traffic == traffic_report(runtime, host, now, millis, min_traffic)
            &&& include_status ==> status == Some(status_report(runtime, host, now, window_secs))
            &&& !include_status ==> status is None
            &&& traffic is None ==> sequence_after_reports(n, traffic) == n
            &&& traffic is Some && n < u64::MAX ==> sequence_after_reports(n, traffic) == n + 1
            &&& traffic is Some && n == u64::MAX ==> sequence_after_reports(n, traffic) == 0
        }),
{
}

/// A status report is sent as it was made if the traffic report was sent, and
/// withheld if that failed.
pub proof fn unsent_traffic_withholds_the_status(status: Option<StatusModel>)
    ensures
        status_to_send(status, true) == status,
        status_to_send(status, false) is None,
{
}

} // verus!
