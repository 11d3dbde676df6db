//! The daemon's loop: when to pull a snapshot and when to report, and what to
//! fall back on when the panel cannot be reached.

use crate::payload::BaseConfig;
use vstd::prelude::*;

verus! {

/// Where the loop stands: what is to be done next.
#[derive(Debug, Clone, Copy, PartialEq, Eq, Structural)]
pub enum LoopStage {
    /// To read the clock, to see whether a pull is due.
    CheckPull,
    /// To ask the panel for a snapshot.
    Refresh,
    /// To apply the snapshot that came.
    ApplyFresh,
    /// To store the snapshot that was applied.
    SaveSnapshot,
    /// To load the snapshot that was stored last.
    LoadCached,
    /// To apply the snapshot that was loaded.
    ApplyCached,
    /// To read the clock, to set the time of the next pull.
    StampPull,
    /// To read the clock, to see whether a report is due.
    CheckReport,
    /// To report.
    Report,
    /// To read the clock, to set the time of the next report.
    StampReport,
    /// To sleep for a second.
    Pause,
    /// The loop has ended well.
    Finished,
    /// The loop has ended in an error.
    Failed,
}

/// How a step of the loop ended.
#[derive(Debug, Clone, Copy)]
pub enum LoopEvent {
    /// The clock shows `now` nanoseconds since the loop's start.
    Clock { now: u128 },
    Done,
    /// A snapshot with these settings was put to use.
    Applied { base: BaseConfig },
    /// No snapshot is stored.
    Missing,
    Failed,
}

/// The loop between two steps.
#[derive(Debug, Clone, Copy)]
pub struct RunLoop {
    pub stage: LoopStage,
    /// Whether to end after one round.
    pub once: bool,
    /// When the next pull is due, in nanoseconds since the loop's start.
    pub next_pull: u128,
    /// When the next report is due, in nanoseconds since the loop's start.
    pub next_report: u128,
    /// The settings of the snapshot in use.
    pub base: BaseConfig,
}

/// The time after `now` at which something is due again that is done every
/// `interval_secs` seconds, but not more often than every five.
pub open spec fn due_again(now: u128, interval_secs: u64) -> u128 {
    (now + (if interval_secs < 5 {
        5int
    } else {
        interval_secs as int
    }) * 1_000_000_000) as u128
}

/// The time after `now` at which something is due again.
fn due_after(now: u128, interval_secs: u64) -> (r: u128)
    requires
        now <= u128::MAX / 2,
    ensures
        r == due_again(now, interval_secs),
{
    let secs: u64 = if interval_secs < 5 {
        5
    } else {
        interval_secs
    };
    now + secs as u128 * 1_000_000_000
}

impl RunLoop {
    /// Whether a step can end so.
    pub open spec fn can_end(self, event: LoopEvent) -> bool {
        match self.stage {
            LoopStage::CheckPull | LoopStage::StampPull | LoopStage::CheckReport
            | LoopStage::StampReport => event matches LoopEvent::Clock { now } && now <= u128::MAX
                / 2,
            LoopStage::Refresh | LoopStage::ApplyFresh | LoopStage::Report => event is Done
                || event is Failed,
            LoopStage::SaveSnapshot | LoopStage::ApplyCached => event is Applied
                || event is Failed,
            LoopStage::LoadCached => event is Done || event is Missing || event is Failed,
            LoopStage::Pause => event is Done,
            LoopStage::Finished | LoopStage::Failed => false,
        }
    }

    /// The stage after a round: the end if only one was asked for.
    pub open spec fn round_end(self) -> LoopStage {
        if self.once {
            LoopStage::Finished
        } else {
            LoopStage::Pause
        }
    }

    /// The loop after a step that ended so.
    pub open spec fn after(self, event: LoopEvent) -> RunLoop {
        match (self.stage, event) {
            (LoopStage::CheckPull, LoopEvent::Clock { now }) => RunLoop {
                stage: if now >= self.next_pull {
                    LoopStage::Refresh
                } else {
                    LoopStage::CheckReport
                },
                ..self
            },
            (LoopStage::Refresh, LoopEvent::Done) => RunLoop {
                stage: LoopStage::ApplyFresh,
                ..self
            },
            (LoopStage::Refresh, LoopEvent::Failed) => RunLoop {
                stage: LoopStage::LoadCached,
                ..self
            },
            (LoopStage::ApplyFresh, LoopEvent::Done) => RunLoop {
                stage: LoopStage::SaveSnapshot,
                ..self
            },
            (LoopStage::ApplyFresh, LoopEvent::Failed) => RunLoop {
                stage: LoopStage::LoadCached,
                ..self
            },
            (LoopStage::SaveSnapshot, LoopEvent::Applied { base }) => RunLoop {
                stage: LoopStage::StampPull,
                base,
                ..self
            },
            (LoopStage::LoadCached, LoopEvent::Done) => RunLoop {
                stage: LoopStage::ApplyCached,
                ..self
            },
            (LoopStage::ApplyCached, LoopEvent::Applied { base }) => RunLoop {
                stage: LoopStage::StampPull,
                base,
                ..self
            },
            (LoopStage::StampPull, LoopEvent::Clock { now }) => RunLoop {
                stage: LoopStage::CheckReport,
                next_pull: due_again(now, self.base.pull_interval),
                ..self
            },
            (LoopStage::CheckReport, LoopEvent::Clock { now }) => RunLoop {
                stage: if now >= self.next_report {
                    LoopStage::Report
                } else {
                    self.round_end()
                },
                ..self
            },
            (LoopStage::Report, _) => RunLoop { stage: LoopStage::StampReport, ..self },
            (LoopStage::StampReport, LoopEvent::Clock { now }) => RunLoop {
                stage: self.round_end(),
                next_report: due_again(now, self.base.push_interval),
                ..self
            },
            (LoopStage::Pause, LoopEvent::Done) => RunLoop { stage: LoopStage::CheckPull, ..self },
            _ => RunLoop { stage: LoopStage::Failed, ..self },
        }
    }

    /// A loop that has just started.
    pub open spec fn started(once: bool, pull_at: u128, report_at: u128) -> RunLoop {
        RunLoop {
            stage: LoopStage::CheckPull,
            once,
            next_pull: pull_at,
            next_report: report_at,
            base: BaseConfig { pull_interval: 60, push_interval: 60, node_report_min_traffic: 0 },
        }
    }

    /// A loop that has just started: a pull and a report are due at the times
    /// that the clock showed.
    pub fn new(once: bool, pull_at: u128, report_at: u128) -> (r: RunLoop)
        ensures
            r == RunLoop::started(once, pull_at, report_at),
            r.stage == LoopStage::CheckPull,
            r.once == once,
            r.next_pull == pull_at,
            r.next_report == report_at,
            r.base == (BaseConfig {
                pull_interval: 60,
                push_interval: 60,
                node_report_min_traffic: 0,
            }),
    {
        RunLoop {
            stage: LoopStage::CheckPull,
            once,
            next_pull: pull_at,
            next_report: report_at,
            base: BaseConfig::default(),
        }
    }

    /// The stage after a round.
    fn end_of_round(&self) -> (r: LoopStage)
        ensures
            r == self.round_end(),
    {
        if self.once {
            LoopStage::Finished
        } else {
            LoopStage::Pause
        }
    }

    /// Goes on after a step that ended so.
    pub fn run(&mut self, event: LoopEvent)
        requires
            old(self).can_end(event),
        ensures
            *final(self) == old(self).after(event),
    {
        match (self.stage, event) {
            (LoopStage::CheckPull, LoopEvent::Clock { now }) => {
                if now >= self.next_pull {
                    self.stage = LoopStage::Refresh;
                } else {
                    self.stage = LoopStage::CheckReport;
                }
            },
            (LoopStage::Refresh, LoopEvent::Done) => {
                self.stage = LoopStage::ApplyFresh;
            },
            (LoopStage::Refresh, LoopEvent::Failed) => {
                self.stage = LoopStage::LoadCached;
            },
            (LoopStage::ApplyFresh, LoopEvent::Done) => {
                self.stage = LoopStage::SaveSnapshot;
            },
            (LoopStage::ApplyFresh, LoopEvent::Failed) => {
                self.stage = LoopStage::LoadCached;
            },
            (LoopStage::SaveSnapshot, LoopEvent::Applied { base }) => {
                self.base = base;
                self.stage = LoopStage::StampPull;
            },
            (LoopStage::LoadCached, LoopEvent::Done) => {
                self.stage = LoopStage::ApplyCached;
            },
            (LoopStage::ApplyCached, LoopEvent::Applied { base }) => {
                self.base = base;
                self.stage = LoopStage::StampPull;
            },
            (LoopStage::StampPull, LoopEvent::Clock { now }) => {
                self.next_pull = due_after(now, self.base.pull_interval);
                self.stage = LoopStage::CheckReport;
            },
            (LoopStage::CheckReport, LoopEvent::Clock { now }) => {
                if now >= self.next_report {
                    self.stage = LoopStage::Report;
                } else {
                    self.stage = self.end_of_round();
                }
            },
            (LoopStage::Report, _) => {
                self.stage = LoopStage::StampReport;
            },
            (LoopStage::StampReport, LoopEvent::Clock { now }) => {
                self.next_report = due_after(now, self.base.push_interval);
                self.stage = self.end_of_round();
            },
            (LoopStage::Pause, LoopEvent::Done) => {
                self.stage = LoopStage::CheckPull;
            },
            _ => {
                self.stage = LoopStage::Failed;
            },
        }
    }
}

} // verus!
