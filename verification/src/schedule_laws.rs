//! What holds of every run of the daemon's loop.

use crate::payload::BaseConfig;
use crate::schedule::{due_again, LoopEvent, LoopStage, RunLoop};
use vstd::prelude::*;

verus! {

/// The loop after the given events.
pub open spec fn loop_after(start: RunLoop, events: Seq<LoopEvent>) -> RunLoop
    decreases events.len(),
{
    if events.len() == 0 {
        start
    } else {
        loop_after(start, events.drop_last()).after(events.last())
    }
}

/// The stage of the loop before the event `k`.
pub open spec fn stage_at(start: RunLoop, events: Seq<LoopEvent>, k: int) -> LoopStage {
    loop_after(start, events.take(k)).stage
}

/// Whether the events can come in this order.
pub open spec fn possible(start: RunLoop, events: Seq<LoopEvent>) -> bool
    decreases events.len(),
{
    events.len() == 0 || (possible(start, events.drop_last()) && loop_after(
        start,
        events.drop_last(),
    ).can_end(events.last()))
}

proof fn lemma_step(start: RunLoop, events: Seq<LoopEvent>, k: int)
    requires
        0 <= k < events.len(),
    ensures
        loop_after(start, events.take(k + 1)) == loop_after(start, events.take(k)).after(events[k]),
{
    assert(events.take(k + 1).drop_last() =~= events.take(k));
}

proof fn lemma_possible(start: RunLoop, events: Seq<LoopEvent>, k: int)
    requires
        possible(start, events),
        0 <= k < events.len(),
    ensures
        loop_after(start, events.take(k)).can_end(events[k]),
        loop_after(start, events.take(k + 1)) == loop_after(start, events.take(k)).after(events[k]),
    decreases events.len(),
{
    lemma_step(start, events, k);
    let head = events.drop_last();
    if k < head.len() {
        assert(head.take(k) =~= events.take(k));
        lemma_possible(start, head, k);
    } else {
        assert(events.take(k) =~= head);
    }
}

/// What is stored as the last good snapshot came from the panel in this round
/// and was applied: to store a snapshot is the loop's turn only right after a
/// snapshot was fetched and then applied, both without failure.
pub proof fn only_applied_snapshots_are_stored(start: RunLoop, events: Seq<LoopEvent>, k: int)
    requires
        possible(start, events),
        start.stage == LoopStage::CheckPull,
        0 <= k <= events.len(),
        stage_at(start, events, k) == LoopStage::SaveSnapshot,
    ensures
        k >= 2,
        stage_at(start, events, k - 2) == LoopStage::Refresh,
        events[k - 2] is Done,
        stage_at(start, events, k - 1) == LoopStage::ApplyFresh,
        events[k - 1] is Done,
{
    assert(events.take(0) =~= Seq::<LoopEvent>::empty());
    assert(k >= 1);
    lemma_possible(start, events, k - 1);
    assert(k >= 2);
    lemma_possible(start, events, k - 2);
}

/// While the panel cannot be reached, nothing but the stored snapshot is
/// applied, and nothing is stored: after a failed request the loop does not come
/// to apply a fresh snapshot or to store one before it has asked the panel again.
pub proof fn outages_fall_back_on_the_stored_snapshot(
    start: RunLoop,
    events: Seq<LoopEvent>,
    k: int,
)
    requires
        possible(start, events),
        start.stage == LoopStage::Refresh,
        0 < k <= events.len(),
        events[0] is Failed,
        forall|i: int| 0 < i <= k ==> #[trigger] stage_at(start, events, i) != LoopStage::Refresh,
    ensures
        stage_at(start, events, 1) == LoopStage::LoadCached,
        stage_at(start, events, k) != LoopStage::ApplyFresh,
        stage_at(start, events, k) != LoopStage::SaveSnapshot,
    decreases k,
{
    assert(events.take(0) =~= Seq::<LoopEvent>::empty());
    lemma_step(start, events, 0);
    if k > 1 {
        outages_fall_back_on_the_stored_snapshot(start, events, k - 1);
        lemma_possible(start, events, k - 1);
        assert(stage_at(start, events, k - 1) != LoopStage::Refresh);
    }
}

proof fn lemma_next_pull_kept(start: RunLoop, events: Seq<LoopEvent>, from: int, to: int)
    requires
        0 <= from <= to <= events.len(),
        forall|i: int| from <= i < to ==> #[trigger] stage_at(start, events, i)
            != LoopStage::StampPull,
    ensures
        loop_after(start, events.take(to)).next_pull == loop_after(
            start,
            events.take(from),
        ).next_pull,
    decreases to - from,
{
    if from < to {
        lemma_next_pull_kept(start, events, from, to - 1);
        lemma_step(start, events, to - 1);
        assert(stage_at(start, events, to - 1) != LoopStage::StampPull);
    }
}

proof fn lemma_next_report_kept(start: RunLoop, events: Seq<LoopEvent>, from: int, to: int)
    requires
        0 <= from <= to <= events.len(),
        forall|i: int| from <= i < to ==> #[trigger] stage_at(start, events, i)
            != LoopStage::StampReport,
    ensures
        loop_after(start, events.take(to)).next_report == loop_after(
            start,
            events.take(from),
        ).next_report,
    decreases to - from,
{
    if from < to {
        lemma_next_report_kept(start, events, from, to - 1);
        lemma_step(start, events, to - 1);
        assert(stage_at(start, events, to - 1) != LoopStage::StampReport);
    }
}

proof fn lemma_due_again(now: u128, interval_secs: u64)
    requires
        now <= u128::MAX / 2,
    ensures
        due_again(now, interval_secs) >= now + 5_000_000_000,
        due_again(now, interval_secs) >= now + interval_secs * 1_000_000_000,
{
}

proof fn lemma_pull_start(state: RunLoop, event: LoopEvent, now: u128)
    requires
        state.can_end(event),
        state.after(event).stage == LoopStage::Refresh,
        event == (LoopEvent::Clock { now }),
    ensures
        now >= state.next_pull,
{
}

proof fn lemma_report_start(state: RunLoop, event: LoopEvent, now: u128)
    requires
        state.can_end(event),
        state.after(event).stage == LoopStage::Report,
        event == (LoopEvent::Clock { now }),
    ensures
        now >= state.next_report,
{
}

/// The next pull after one that was over at `done_at` starts at a clock reading
/// at least the pull interval later, and at least five seconds.
pub proof fn pulls_keep_their_distance(
    start: RunLoop,
    events: Seq<LoopEvent>,
    done_at: u128,
    pulled_at: u128,
)
    requires
        possible(start, events),
        start.stage == LoopStage::StampPull,
        events.len() >= 2,
        events[0] == (LoopEvent::Clock { now: done_at }),
        forall|i: int|
            0 < i < events.len() ==> #[trigger] stage_at(start, events, i) != LoopStage::StampPull,
        loop_after(start, events).stage == LoopStage::Refresh,
        events.last() == (LoopEvent::Clock { now: pulled_at }),
    ensures
        pulled_at >= due_again(done_at, start.base.pull_interval),
        pulled_at >= done_at + 5_000_000_000,
        pulled_at >= done_at + start.base.pull_interval * 1_000_000_000,
{
    let n = events.len() as int;
    assert(events.take(0) =~= Seq::<LoopEvent>::empty());
    assert(events.take(n) =~= events);
    lemma_possible(start, events, 0);
    lemma_next_pull_kept(start, events, 1, n - 1);
    lemma_possible(start, events, n - 1);
    lemma_pull_start(loop_after(start, events.take(n - 1)), events[n - 1], pulled_at);
    lemma_due_again(done_at, start.base.pull_interval);
}

/// The next report after one that was over at `done_at` starts at a clock
/// reading at least the push interval later, and at least five seconds.
pub proof fn reports_keep_their_distance(
    start: RunLoop,
    events: Seq<LoopEvent>,
    done_at: u128,
    reported_at: u128,
)
    requires
        possible(start, events),
        start.stage == LoopStage::StampReport,
        events.len() >= 2,
        events[0] == (LoopEvent::Clock { now: done_at }),
        forall|i: int|
            0 < i < events.len() ==> #[trigger] stage_at(start, events, i)
                != LoopStage::StampReport,
        loop_after(start, events).stage == LoopStage::Report,
        events.last() == (LoopEvent::Clock { now: reported_at }),
    ensures
        reported_at >= due_again(done_at, start.base.push_interval),
        reported_at >= done_at + 5_000_000_000,
        reported_at >= done_at + start.base.push_interval * 1_000_000_000,
{
    let n = events.len() as int;
    assert(events.take(0) =~= Seq::<LoopEvent>::empty());
    assert(events.take(n) =~= events);
    lemma_possible(start, events, 0);
    lemma_next_report_kept(start, events, 1, n - 1);
    lemma_possible(start, events, n - 1);
    lemma_report_start(loop_after(start, events.take(n - 1)), events[n - 1], reported_at);
    lemma_due_again(done_at, start.base.push_interval);
}

/// How many steps a round can still take.
pub open spec fn steps_left(stage: LoopStage) -> nat {
    match stage {
        LoopStage::CheckPull => 9,
        LoopStage::Refresh => 8,
        LoopStage::ApplyFresh => 7,
        LoopStage::SaveSnapshot => 6,
        LoopStage::LoadCached => 6,
        LoopStage::ApplyCached => 5,
        LoopStage::StampPull => 4,
        LoopStage::CheckReport => 3,
        LoopStage::Report => 2,
        LoopStage::StampReport => 1,
        LoopStage::Pause => 0,
        LoopStage::Finished => 0,
        LoopStage::Failed => 0,
    }
}

/// A loop that is to run once ends after one round of at most nine steps,
/// without ever sleeping.
pub proof fn one_round_ends(start: RunLoop, events: Seq<LoopEvent>)
    requires
        possible(start, events),
        start.once,
        start.stage == LoopStage::CheckPull,
    ensures
        loop_after(start, events).stage != LoopStage::Pause,
        loop_after(start, events).once,
        events.len() + steps_left(loop_after(start, events).stage) <= 9,
    decreases events.len(),
{
    if events.len() > 0 {
        one_round_ends(start, events.drop_last());
    }
}

/// A failed report does not end the loop.
pub proof fn failed_reports_are_survived(state: RunLoop)
    requires
        state.stage == LoopStage::Report,
    ensures
        state.after(LoopEvent::Failed) == state.after(LoopEvent::Done),
        state.after(LoopEvent::Failed).stage == LoopStage::StampReport,
{
}

/// The loop ends in an error only if a snapshot could not be stored, or none
/// could be loaded, or the loaded one could not be applied.
pub proof fn fatal_ends_are_those_without_a_snapshot(state: RunLoop, event: LoopEvent)
    requires
        state.can_end(event),
        state.after(event).stage == LoopStage::Failed,
    ensures
        (state.stage == LoopStage::SaveSnapshot && event is Failed) || (state.stage
            == LoopStage::LoadCached && (event is Missing || event is Failed)) || (state.stage
            == LoopStage::ApplyCached && event is Failed),
{
}

/// What is done every so many seconds is due again after as many, or after five if
/// that is more.
pub proof fn due_times_lie_an_interval_ahead(now: u128, interval_secs: u64)
    requires
        now <= u128::MAX / 2,
    ensures
        interval_secs >= 5 ==> due_again(now, interval_secs) == now + interval_secs * 1_000_000_000,
        interval_secs < 5 ==> due_again(now, interval_secs) == now + 5_000_000_000,
{
}

/// A pull or a report starts exactly if the clock has come to its time; else the loop
/// passes on, and a look at the clock changes nothing but the stage.
pub proof fn due_work_is_started(state: RunLoop, now: u128)
    ensures
        ({
            let after = state.after(LoopEvent::Clock { now });
            &&& state.stage == LoopStage::CheckPull ==> {
                &&& now >= state.next_pull ==> after.stage == LoopStage::Refresh
                &&& now < state.next_pull ==> after.stage == LoopStage::CheckReport
                &&& after == (RunLoop { stage: after.stage, ..state })
            }
            &&& state.stage == LoopStage::CheckReport ==> {
                &&& now >= state.next_report ==> after.stage == LoopStage::Report
                &&& now < state.next_report && state.once ==> after.stage == LoopStage::Finished
                &&& now < state.next_report && !state.once ==> after.stage == LoopStage::Pause
                &&& after == (RunLoop { stage: after.stage, ..state })
            }
        }),
{
}

/// After a pull, and after a report, the next is due an interval of the settings in
/// use after the clock reading, and at least five seconds after it; nothing else
/// changes but the stage.
pub proof fn finished_work_is_due_again(state: RunLoop, now: u128)
    requires
        now <= u128::MAX / 2,
    ensures
        ({
            let after = state.after(LoopEvent::Clock { now });
            let pull = if state.base.pull_interval < 5 {
                5
            } else {
                state.base.pull_interval
            };
            let push = if state.base.push_interval < 5 {
                5
            } else {
                state.base.push_interval
            };
            &&& state.stage == LoopStage::StampPull ==> {
                &&& after.stage == LoopStage::CheckReport
                &&& after.next_pull == now + pull * 1_000_000_000
                &&& after == (RunLoop {
                    stage: after.stage,
                    next_pull: after.next_pull,
                    ..state
                })
            }
            &&& state.stage == LoopStage::StampReport ==> {
                &&& after.stage == if state.once {
                    LoopStage::Finished
                } else {
                    LoopStage::Pause
                }
                &&& after.next_report == now + push * 1_000_000_000
                &&& after == (RunLoop {
                    stage: after.stage,
                    next_report: after.next_report,
                    ..state
                })
            }
        }),
{
}

/// A fresh snapshot is applied and then stored, and its settings are in use from
/// then on. Where it cannot be had or applied, the stored one is loaded and applied,
/// and its settings are in use.
pub proof fn snapshots_are_applied_before_they_count(state: RunLoop, base: BaseConfig)
    ensures
        state.stage == LoopStage::Refresh ==> state.after(LoopEvent::Done) == (RunLoop {
            stage: LoopStage::ApplyFresh,
            ..state
        }) && state.after(LoopEvent::Failed) == (RunLoop { stage: LoopStage::LoadCached, ..state }),
        state.stage == LoopStage::ApplyFresh ==> state.after(LoopEvent::Done) == (RunLoop {
            stage: LoopStage::SaveSnapshot,
            ..state
        }) && state.after(LoopEvent::Failed) == (RunLoop { stage: LoopStage::LoadCached, ..state }),
        state.stage == LoopStage::SaveSnapshot ==> state.after(LoopEvent::Applied { base }) == (
        RunLoop { stage: LoopStage::StampPull, base, ..state }),
        state.stage == LoopStage::LoadCached ==> state.after(LoopEvent::Done) == (RunLoop {
            stage: LoopStage::ApplyCached,
            ..state
        }),
        state.stage == LoopStage::ApplyCached ==> state.after(LoopEvent::Applied { base }) == (
        RunLoop { stage: LoopStage::StampPull, base, ..state }),
{
}

/// The loop ends in an error if a snapshot cannot be stored, or none is stored or can
/// be loaded, or the stored one cannot be applied.
pub proof fn missing_snapshots_end_the_loop(state: RunLoop)
    ensures
        state.stage == LoopStage::SaveSnapshot || state.stage == LoopStage::LoadCached
            || state.stage == LoopStage::ApplyCached ==> state.after(LoopEvent::Failed).stage
            == LoopStage::Failed,
        state.stage == LoopStage::LoadCached ==> state.after(LoopEvent::Missing).stage
            == LoopStage::Failed,
{
}

/// After a report, sent or not, its time is set; after the pause the next round
/// starts with the pull.
pub proof fn rounds_start_over(state: RunLoop)
    ensures
        state.stage == LoopStage::Report ==> state.after(LoopEvent::Done) == (RunLoop {
            stage: LoopStage::StampReport,
            ..state
        }) && state.after(LoopEvent::Failed) == (RunLoop { stage: LoopStage::StampReport, ..state }),
        state.stage == LoopStage::Pause ==> state.after(LoopEvent::Done) == (RunLoop {
            stage: LoopStage::CheckPull,
            ..state
        }),
{
}

/// Where the clock is to be read only a reading ends the step, and where something
/// is to be done only its end; the two ends of the loop do not go on.
pub proof fn steps_end_by_their_events(state: RunLoop, event: LoopEvent)
    ensures
        state.stage == LoopStage::Finished || state.stage == LoopStage::Failed
            ==> !state.can_end(event),
        state.stage == LoopStage::CheckPull || state.stage == LoopStage::StampPull || state.stage
            == LoopStage::CheckReport || state.stage == LoopStage::StampReport ==> (state.can_end(
            event,
        ) <==> (event matches LoopEvent::Clock { now } && now <= u128::MAX / 2)),
        state.stage == LoopStage::Refresh || state.stage == LoopStage::ApplyFresh || state.stage
            == LoopStage::Report ==> (state.can_end(event) <==> event is Done || event is Failed),
        state.stage == LoopStage::SaveSnapshot || state.stage == LoopStage::ApplyCached ==> (
        state.can_end(event) <==> event is Applied || event is Failed),
        state.stage == LoopStage::LoadCached ==> (state.can_end(event) <==> event is Done || event
            is Missing || event is Failed),
        state.stage == LoopStage::Pause ==> (state.can_end(event) <==> event is Done),
{
}

/// A loop that starts looks for a pull first; a pull and a report are due at the times
/// that it was given, and until a snapshot is in use the intervals are a minute and
/// all traffic counts.
pub proof fn loops_start_with_a_pull(once: bool, pull_at: u128, report_at: u128, now: u128)
    ensures
        ({
            let start = RunLoop::started(once, pull_at, report_at);
            &&& start.stage == LoopStage::CheckPull
            &&& start.once == once
            &&& start.next_pull == pull_at
            &&& start.next_report == report_at
            &&& start.base.pull_interval == 60 && start.base.push_interval == 60
            &&& start.base.node_report_min_traffic == 0
            &&& now >= pull_at ==> start.after(LoopEvent::Clock { now }).stage == LoopStage::Refresh
        }),
{
}

} // verus!
