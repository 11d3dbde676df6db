//! What holds of every way in which a snapshot is applied.

use crate::payload::{ServerConfig, Snapshot};
use crate::peers::{desired_list, DesiredModel};
use crate::runtime::{
    can_end, first_stage, remembered, stage_after, starts, switched_on, uses_ipv6, warns,
    Application, ApplyEvent, ApplyStage, Runtime,
};
use crate::text::{ascii_white_space, trimmed, CharSet};
use crate::text_laws::{trimming_keeps_the_middle, trimming_takes_off_the_padding};
use vstd::prelude::*;

verus! {

/// The stage after the given events.
pub open spec fn stage_reached(
    start: ApplyStage,
    events: Seq<ApplyEvent>,
    new_version: bool,
) -> ApplyStage
    decreases events.len(),
{
    if events.len() == 0 {
        start
    } else {
        stage_after(stage_reached(start, events.drop_last(), new_version), events.last(), new_version)
    }
}

/// Whether the events can come in this order.
pub open spec fn possible(
    start: ApplyStage,
    events: Seq<ApplyEvent>,
    new_version: bool,
) -> bool
    decreases events.len(),
{
    events.len() == 0 || (possible(start, events.drop_last(), new_version) && can_end(
        stage_reached(start, events.drop_last(), new_version),
        events.last(),
    ))
}

/// Whether at some point of the events the given stage ended so.
pub open spec fn ended(
    start: ApplyStage,
    events: Seq<ApplyEvent>,
    new_version: bool,
    stage: ApplyStage,
    event: ApplyEvent,
) -> bool
    decreases events.len(),
{
    events.len() > 0 && (ended(start, events.drop_last(), new_version, stage, event) || (
    stage_reached(start, events.drop_last(), new_version) == stage && events.last() == event))
}

/// Whether a run starts as one does.
pub open spec fn starting(stage: ApplyStage) -> bool {
    stage == ApplyStage::FlushTraffic || stage == ApplyStage::EnsureInterface
}

proof fn lemma_history(start: ApplyStage, events: Seq<ApplyEvent>, new_version: bool)
    requires
        starting(start),
        possible(start, events, new_version),
    ensures
        ({
            let now = stage_reached(start, events, new_version);
            let base = ended(
                start,
                events,
                new_version,
                ApplyStage::ConfigureBase,
                ApplyEvent::Done,
            );
            let ready_plain = ended(
                start,
                events,
                new_version,
                ApplyStage::EnsureInterface,
                ApplyEvent::InterfaceReady { needs_base: false },
            );
            let flushed = ended(
                start,
                events,
                new_version,
                ApplyStage::FlushTraffic,
                ApplyEvent::Done,
            );
            let unreadable = ended(
                start,
                events,
                new_version,
                ApplyStage::ReadInterface,
                ApplyEvent::Failed,
            );
            let past_base = now == ApplyStage::ReconcilePeers || now == ApplyStage::ApplyNetwork
                || now == ApplyStage::Applied;
            &&& past_base ==> base || (ready_plain && !new_version)
            &&& now == ApplyStage::ApplyNetwork || now == ApplyStage::Applied ==> ended(
                start,
                events,
                new_version,
                ApplyStage::ReconcilePeers,
                ApplyEvent::Done,
            )
            &&& now == ApplyStage::Applied ==> ended(
                start,
                events,
                new_version,
                ApplyStage::ApplyNetwork,
                ApplyEvent::Done,
            )
            &&& (past_base || now == ApplyStage::EnsureInterface || now
                == ApplyStage::ConfigureBase) && start == ApplyStage::FlushTraffic ==> flushed
                || unreadable
        }),
    decreases events.len(),
{
    if events.len() > 0 {
        lemma_history(start, events.drop_last(), new_version);
    }
}

/// A snapshot counts as applied only if its peers were reconciled and the network
/// was set up, both without failure.
pub proof fn applied_means_all_was_done(
    start: ApplyStage,
    events: Seq<ApplyEvent>,
    new_version: bool,
)
    requires
        starting(start),
        possible(start, events, new_version),
        stage_reached(start, events, new_version) == ApplyStage::Applied,
    ensures
        ended(start, events, new_version, ApplyStage::ReconcilePeers, ApplyEvent::Done),
        ended(start, events, new_version, ApplyStage::ApplyNetwork, ApplyEvent::Done),
{
    lemma_history(start, events, new_version);
}

/// A configuration of a new version, or one for an interface that lacks its
/// base, is not applied without a full configuration of the interface.
pub proof fn new_versions_reconfigure_the_interface(
    start: ApplyStage,
    events: Seq<ApplyEvent>,
    new_version: bool,
)
    requires
        starting(start),
        possible(start, events, new_version),
        stage_reached(start, events, new_version) == ApplyStage::Applied,
        new_version || !ended(
            start,
            events,
            new_version,
            ApplyStage::EnsureInterface,
            ApplyEvent::InterfaceReady { needs_base: false },
        ),
    ensures
        ended(start, events, new_version, ApplyStage::ConfigureBase, ApplyEvent::Done),
{
    lemma_history(start, events, new_version);
}

/// An interface that has its base, with a configuration of the version applied
/// last, is not configured as a whole again.
pub proof fn known_versions_leave_the_base_alone(start: ApplyStage, events: Seq<ApplyEvent>)
    requires
        starting(start),
        possible(start, events, false),
        !ended(
            start,
            events,
            false,
            ApplyStage::EnsureInterface,
            ApplyEvent::InterfaceReady { needs_base: true },
        ),
    ensures
        stage_reached(start, events, false) != ApplyStage::ConfigureBase,
        !ended(start, events, false, ApplyStage::ConfigureBase, ApplyEvent::Done),
        !ended(start, events, false, ApplyStage::ConfigureBase, ApplyEvent::Failed),
    decreases events.len(),
{
    if events.len() > 0 {
        known_versions_leave_the_base_alone(start, events.drop_last());
    }
}

/// A failure is not survived, but for that of a flush on an interface that cannot
/// be read: every other run that met one does not count as applied.
pub proof fn failures_are_not_applied(
    start: ApplyStage,
    events: Seq<ApplyEvent>,
    new_version: bool,
    stage: ApplyStage,
)
    requires
        starting(start),
        possible(start, events, new_version),
        ended(start, events, new_version, stage, ApplyEvent::Failed),
        stage != ApplyStage::FlushTraffic,
        stage != ApplyStage::ReadInterface,
    ensures
        stage_reached(start, events, new_version) == ApplyStage::Failed,
    decreases events.len(),
{
    if events.len() > 0 && ended(start, events.drop_last(), new_version, stage, ApplyEvent::Failed) {
        failures_are_not_applied(start, events.drop_last(), new_version, stage);
    }
}

/// Where there are peers already, none is touched before their traffic was sent,
/// unless the interface cannot be read at all.
pub proof fn traffic_is_flushed_before_peers_change(
    events: Seq<ApplyEvent>,
    new_version: bool,
)
    requires
        possible(ApplyStage::FlushTraffic, events, new_version),
        ({
            let now = stage_reached(ApplyStage::FlushTraffic, events, new_version);
            now == ApplyStage::EnsureInterface || now == ApplyStage::ConfigureBase || now
                == ApplyStage::ReconcilePeers
        }),
    ensures
        ended(
            ApplyStage::FlushTraffic,
            events,
            new_version,
            ApplyStage::FlushTraffic,
            ApplyEvent::Done,
        ) || ended(
            ApplyStage::FlushTraffic,
            events,
            new_version,
            ApplyStage::ReadInterface,
            ApplyEvent::Failed,
        ),
{
    lemma_history(ApplyStage::FlushTraffic, events, new_version);
}

/// The operator is warned of missing IPv6 forwarding at most once.
pub proof fn ipv6_warning_comes_once(
    emitted: bool,
    server: &ServerConfig,
    forwarding: Option<bool>,
    later_server: &ServerConfig,
    later_forwarding: Option<bool>,
)
    requires
        warns(emitted, server, forwarding),
    ensures
        !warns(
            emitted || warns(emitted, server, forwarding),
            later_server,
            later_forwarding,
        ),
{
}

/// The kernel's forwarding switch is on if it reads `1` and off if it reads `0`,
/// whatever ASCII white space, such as a line break, stands around that.
pub proof fn forwarding_switch_is_read_without_white_space(front: Seq<char>, back: Seq<char>)
    requires
        forall|i: int| 0 <= i < front.len() ==> ascii_white_space(#[trigger] front[i]),
        forall|i: int| 0 <= i < back.len() ==> ascii_white_space(#[trigger] back[i]),
    ensures
        trimmed(front + "1"@ + back, CharSet::WhiteSpace) == "1"@,
        trimmed(front + "0"@ + back, CharSet::WhiteSpace) != "1"@,
{
    reveal_strlit("1");
    reveal_strlit("0");
    assert("0"@[0] != "1"@[0]);
    trimming_takes_off_the_padding(front, "1"@, back, CharSet::WhiteSpace);
    trimming_takes_off_the_padding(front, "0"@, back, CharSet::WhiteSpace);
}

/// The operator is warned exactly if that was not done before, IPv6 is not disabled,
/// the node has an IPv6 pool or an IPv6 interface address, and the kernel was seen
/// not to forward IPv6.
pub proof fn warnings_need_ipv6_without_forwarding(
    emitted: bool,
    server: &ServerConfig,
    forwarding: Option<bool>,
)
    ensures
        uses_ipv6(server) <==> server.ipv6_mode@ != "disabled"@ && !(server.address_pool_ipv6
            is None && server.interface_ipv6 is None),
        warns(emitted, server, forwarding) <==> !emitted && server.ipv6_mode@ != "disabled"@ && !(
        server.address_pool_ipv6 is None && server.interface_ipv6 is None) && forwarding is Some
            && !forwarding->0,
{
}

/// Where there are known peers their traffic is sent first, and where there are none
/// the interface is created first.
pub proof fn known_peers_are_flushed_first(known: Seq<DesiredModel>)
    ensures
        known.len() > 0 ==> first_stage(known) == ApplyStage::FlushTraffic,
        known.len() == 0 ==> first_stage(known) == ApplyStage::EnsureInterface,
        starting(first_stage(known)),
{
}

/// A configuration is new exactly if none was applied before or one of another
/// version.
pub proof fn versions_are_compared(run: &Application)
    ensures
        run.known_version is None ==> run.new_version(),
        run.known_version is Some ==> (run.new_version() <==> run.known_version->0
            != run.config_version),
{
}

/// What is remembered and what is to be applied hold no key twice.
pub proof fn remembered_keys_differ(runtime: &Runtime, run: &Application, i: int, j: int)
    requires
        0 <= i < j,
    ensures
        runtime.well_formed() && j < runtime.desired.deep_view().len()
            ==> runtime.desired.deep_view()[i].public_key
            != runtime.desired.deep_view()[j].public_key,
        run.well_formed() && j < run.desired.deep_view().len()
            ==> run.desired.deep_view()[i].public_key != run.desired.deep_view()[j].public_key,
{
}

/// Each step that ends well is followed by the next: the flush by the creation of
/// the interface, that by the full configuration if the interface lacks its base or
/// the version is new and else by the peers, the full configuration by the peers, the
/// peers by the network, and the network by the end.
pub proof fn steps_follow_in_order(new_version: bool, needs_base: bool)
    ensures
        stage_after(ApplyStage::FlushTraffic, ApplyEvent::Done, new_version)
            == ApplyStage::EnsureInterface,
        needs_base || new_version ==> stage_after(
            ApplyStage::EnsureInterface,
            ApplyEvent::InterfaceReady { needs_base },
            new_version,
        ) == ApplyStage::ConfigureBase,
        !needs_base && !new_version ==> stage_after(
            ApplyStage::EnsureInterface,
            ApplyEvent::InterfaceReady { needs_base },
            new_version,
        ) == ApplyStage::ReconcilePeers,
        stage_after(ApplyStage::ConfigureBase, ApplyEvent::Done, new_version)
            == ApplyStage::ReconcilePeers,
        stage_after(ApplyStage::ReconcilePeers, ApplyEvent::Done, new_version)
            == ApplyStage::ApplyNetwork,
        stage_after(ApplyStage::ApplyNetwork, ApplyEvent::Done, new_version)
            == ApplyStage::Applied,
{
}

/// A flush that failed is forgiven if the interface cannot be read and ends the run
/// if it can; the failure of any other step ends the run.
pub proof fn failures_end_the_run(stage: ApplyStage, new_version: bool)
    ensures
        stage_after(ApplyStage::FlushTraffic, ApplyEvent::Failed, new_version)
            == ApplyStage::ReadInterface,
        stage_after(ApplyStage::ReadInterface, ApplyEvent::Failed, new_version)
            == ApplyStage::EnsureInterface,
        stage_after(ApplyStage::ReadInterface, ApplyEvent::Done, new_version) == ApplyStage::Failed,
        stage != ApplyStage::FlushTraffic && stage != ApplyStage::ReadInterface ==> stage_after(
            stage,
            ApplyEvent::Failed,
            new_version,
        ) == ApplyStage::Failed,
{
}

/// Every step but the ends can end well or in failure, the creation of the interface
/// by telling whether it needs its base; the ends do not go on.
pub proof fn steps_end_well_or_fail(stage: ApplyStage, event: ApplyEvent)
    ensures
        stage == ApplyStage::Applied || stage == ApplyStage::Failed ==> !can_end(stage, event),
        stage == ApplyStage::EnsureInterface ==> (can_end(stage, event) <==> !(event is Done)),
        stage != ApplyStage::Applied && stage != ApplyStage::Failed && stage
            != ApplyStage::EnsureInterface ==> (can_end(stage, event) <==> !(event is InterfaceReady)),
{
}

/// The kernel's switch is on exactly if it reads `1` between white space.
pub proof fn switches_read_one(value: Seq<char>)
    ensures
        switched_on(value) ==> exists|from: int|
            {
                &&& 0 <= from < value.len()
                &&& #[trigger] value[from] == '1'
                &&& forall|i: int|
                    0 <= i < value.len() && i != from ==> CharSet::WhiteSpace.holds(
                        #[trigger] value[i],
                    )
            },
        forall|from: int|
            {
                &&& 0 <= from < value.len()
                &&& #[trigger] value[from] == '1'
                &&& forall|i: int|
                    0 <= i < value.len() && i != from ==> CharSet::WhiteSpace.holds(
                        #[trigger] value[i],
                    )
            } ==> switched_on(value),
{
    let set = CharSet::WhiteSpace;
    reveal_strlit("1");
    assert("1"@ =~= seq!['1']);
    if switched_on(value) {
        trimming_keeps_the_middle(value, set);
        let (from, to) = choose|from: int, to: int|
            {
                &&& 0 <= from <= to <= value.len()
                &&& trimmed(value, set) == #[trigger] value.subrange(from, to)
                &&& forall|i: int| 0 <= i < from ==> set.holds(#[trigger] value[i])
                &&& forall|i: int| to <= i < value.len() ==> set.holds(#[trigger] value[i])
                &&& from < to ==> !set.holds(value[from]) && !set.holds(value[to - 1])
            };
        assert(value.subrange(from, to).len() == 1);
        assert(value.subrange(from, to)[0] == value[from]);
        assert(value[from] == '1');
    }
    assert forall|from: int|
        {
            &&& 0 <= from < value.len()
            &&& #[trigger] value[from] == '1'
            &&& forall|i: int|
                0 <= i < value.len() && i != from ==> set.holds(#[trigger] value[i])
        } implies switched_on(value) by {
        let front = value.subrange(0, from);
        let back = value.subrange(from + 1, value.len() as int);
        assert forall|i: int| 0 <= i < front.len() implies set.holds(#[trigger] front[i]) by {
            assert(front[i] == value[i]);
        }
        assert forall|i: int| 0 <= i < back.len() implies set.holds(#[trigger] back[i]) by {
            assert(back[i] == value[from + 1 + i]);
        }
        assert(value =~= front + "1"@ + back);
        trimming_takes_off_the_padding(front, "1"@, back, set);
    }
}

/// To apply a snapshot is to start from its version and its peers, with the version
/// that was applied last, by the flush if there are known peers.
pub proof fn applications_start_from_the_snapshot(
    runtime: &Runtime,
    snapshot: &Snapshot,
    run: &Application,
)
    requires
        starts(runtime, snapshot, run),
    ensures
        run.config_version == snapshot.config.config_version,
        run.known_version == runtime.last_config_version,
        desired_list(snapshot.users.deep_view()) is Ok,
        run.desired.deep_view() == desired_list(snapshot.users.deep_view())->Ok_0,
        runtime.desired.deep_view().len() > 0 ==> run.stage == ApplyStage::FlushTraffic,
        runtime.desired.deep_view().len() == 0 ==> run.stage == ApplyStage::EnsureInterface,
{
}

/// Once a snapshot is applied its peers and its version are remembered, and nothing
/// else changes; applied again, it is not of a new version.
pub proof fn applied_snapshots_are_remembered(
    runtime: Runtime,
    run: Application,
    snapshot: &Snapshot,
    again: &Application,
)
    ensures
        ({
            let after = remembered(runtime, run);
            &&& after.desired == run.desired
            &&& after.last_config_version == Some(run.config_version)
            &&& after.config == runtime.config
            &&& after.report_sequence == runtime.report_sequence
            &&& after.ipv6_forwarding_warning_emitted == runtime.ipv6_forwarding_warning_emitted
            &&& starts(&after, snapshot, again) && snapshot.config.config_version
                == run.config_version ==> !again.new_version()
            &&& starts(&after, snapshot, again) && snapshot.config.config_version
                != run.config_version ==> again.new_version()
        }),
{
}

} // verus!
