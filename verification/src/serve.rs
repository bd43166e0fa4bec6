//! The decisions of a serving worker: what it does with each request line,
//! with its watcher's reports and with the polling interval, as a state
//! machine whose outside work (reading stdin, starting the watcher, waiting)
//! is left to its caller.
use vstd::prelude::*;

use crate::error::SnapshotError;
use crate::json::json_parse;
use crate::model::{RepositorySnapshot, Same};
use crate::plan::RefreshPlan;
use crate::protocol::{
    goodbye_message, handle_request, is_request_outcome, is_update_outcome, lemma_request_version_steps,
    snapshot_update_messages,
    NotificationParams, ProcessState, ServerMessage,
};
use crate::snapshot::{default_options, keeps_unselected, refresh_repository_with_plan, sections_well_formed};
use crate::text::own;

verus! {

/// Where the worker stands with its file-system watcher.
#[derive(Debug, Clone, Copy, PartialEq, Eq, Structural)]
pub enum WatchPhase {
    /// No watcher runs or starts: the worker only reads requests.
    Idle,
    /// A watcher is starting; the repository is polled meanwhile.
    Starting,
    /// A watcher reports changes.
    Watching,
    /// The watcher could not start; the repository is polled.
    Polling,
}

/// What happened while the worker waited.
#[derive(Debug)]
pub enum ServeEvent {
    /// A request line was read.
    Line(String),
    /// Standard input was closed.
    InputClosed,
    /// The watcher started.
    WatcherStarted,
    /// The watcher could not start.
    WatcherFailed,
    /// The watcher stopped.
    WatcherStopped,
    /// The watcher reported a change that calls for this plan.
    Change(RefreshPlan),
    /// The changes reported during the wait after a change, folded into this plan.
    Settled(RefreshPlan),
    /// The polling interval passed.
    Tick,
}

/// What the worker does next.
#[derive(Debug)]
pub enum ServeAction {
    /// Write these messages, one per line.
    Write(Vec<ServerMessage>),
    /// Wait a moment, fold the changes reported meanwhile into this plan,
    /// and report them as `Settled`.
    Debounce(RefreshPlan),
    /// Start the watcher in the background and report how that went.
    StartWatcher,
    /// Write this message and stop.
    Stop(ServerMessage),
}

/// The state of a serving worker: its protocol state and its watcher phase.
#[derive(Debug)]
pub struct Worker {
    state: ProcessState,
    phase: WatchPhase,
}

/// `m` is the goodbye notification with this reason.
pub open spec fn is_goodbye(m: ServerMessage, reason: Seq<char>) -> bool {
    &&& m matches ServerMessage::Notification(n)
    &&& n.jsonrpc@ == "2.0"@
    &&& n.method@ == "gitseer/goodbye"@
    &&& n.params matches Some(NotificationParams::Goodbye(g))
    &&& g.reason@ == reason
}

/// A snapshot that a refresh following `plan` can give after `previous`:
/// a full, well-formed snapshot without a previous one or for the full plan;
/// the previous one for the empty plan; the previous one with the sections
/// outside the plan's domains kept.
pub open spec fn is_refresh_of(previous: Option<RepositorySnapshot>, plan: RefreshPlan, s: RepositorySnapshot) -> bool {
    match previous {
        None => sections_well_formed(s),
        Some(p) => match plan {
            RefreshPlan::Nothing => s.same(&p),
            RefreshPlan::Full => sections_well_formed(s),
            RefreshPlan::Domains(d) => keeps_unselected(p, s, d),
        },
    }
}

/// The outcome of a refresh for a subscribed client: nothing without a
/// subscription; else, unless reading failed, the messages for a snapshot
/// that a refresh following `plan` can give.
pub open spec fn is_refresh_outcome(
    old_state: ProcessState,
    new_state: ProcessState,
    plan: RefreshPlan,
    r: Result<Vec<ServerMessage>, SnapshotError>,
) -> bool {
    match r {
        Err(e) => {
            &&& new_state == old_state
            &&& old_state.subscribed_flag()
            &&& (e matches SnapshotError::NotRepository { path } ==> path@ == old_state.repo_text())
        },
        Ok(m) => if !old_state.subscribed_flag() {
            m@.len() == 0 && new_state == old_state
        } else {
            exists|s: RepositorySnapshot| #[trigger] is_refresh_of(old_state.latest(), plan, s)
                && is_update_outcome(old_state, new_state, s, m@)
        },
    }
}

/// Refreshes the recorded snapshot following `plan` and gives the messages
/// for the subscribed client; nothing when no client has subscribed.
pub fn refresh_subscribed(state: &mut ProcessState, plan: &RefreshPlan) -> (r: Result<Vec<ServerMessage>, SnapshotError>)
    requires
        old(state).version() < u64::MAX,
    ensures
        is_refresh_outcome(*old(state), *final(state), *plan, r),
{
    if !state.is_subscribed() {
        return Ok(Vec::new());
    }
    let refresh = refresh_repository_with_plan(state.repo(), state.latest_snapshot(), plan, default_options());
    match refresh {
        Ok(x) => {
            let ghost s = x.snapshot;
            assert(is_refresh_of(state.latest(), *plan, s));
            let messages = snapshot_update_messages(state, x.snapshot);
            Ok(messages)
        },
        Err(e) => Err(e),
    }
}

/// The phase after a request line: a worker without a watcher starts one
/// once a client has subscribed, and stops polling once none has.
pub open spec fn phase_after_line(phase: WatchPhase, subscribed: bool) -> WatchPhase {
    if phase == WatchPhase::Idle || phase == WatchPhase::Polling {
        if subscribed {
            WatchPhase::Starting
        } else {
            WatchPhase::Idle
        }
    } else {
        phase
    }
}

/// The actions of a refresh outcome: the messages to write, or none
/// without a subscription.
pub open spec fn refresh_actions(
    old_state: ProcessState,
    new_state: ProcessState,
    plan: RefreshPlan,
    r: Result<Vec<ServeAction>, SnapshotError>,
) -> bool {
    match r {
        Err(e) => is_refresh_outcome(old_state, new_state, plan, Err(e)),
        Ok(a) => if !old_state.subscribed_flag() {
            a@.len() == 0 && new_state == old_state
        } else {
            a@.len() == 1 && match a@[0] {
                ServeAction::Write(m) => is_refresh_outcome(old_state, new_state, plan, Ok(m)),
                _ => false,
            }
        },
    }
}

/// The worker stops with the goodbye message for `reason`.
pub open spec fn stops(r: Result<Vec<ServeAction>, SnapshotError>, reason: Seq<char>) -> bool {
    match r {
        Ok(a) => a@.len() == 1 && match a@[0] {
            ServeAction::Stop(m) => is_goodbye(m, reason),
            _ => false,
        },
        Err(_) => false,
    }
}

/// Nothing happens: no action, the worker unchanged.
pub open spec fn ignored(old: Worker, new: Worker, r: Result<Vec<ServeAction>, SnapshotError>) -> bool {
    new == old && match r {
        Ok(a) => a@.len() == 0,
        Err(_) => false,
    }
}

/// What a worker does with an event.
/// - A request line is answered; a worker without a watcher then starts one
///   once a client has subscribed, and a polling worker stops polling once
///   none has.
/// - When standard input closes, or the watcher stops, the worker says
///   goodbye and stops.
/// - When the starting watcher is ready, or could not start, the worker
///   watches, or polls, and refreshes everything for a subscribed client.
/// - While a watcher starts or the worker polls, each interval refreshes
///   everything for a subscribed client.
/// - A change reported by the watcher that calls for a refresh is first
///   left to settle, for a subscribed client; the settled plan is then
///   refreshed.
/// - Any other event changes nothing.
pub open spec fn serve_outcome(
    old: Worker,
    new: Worker,
    event: ServeEvent,
    r: Result<Vec<ServeAction>, SnapshotError>,
) -> bool {
    let phase = old.watch_phase();
    match event {
        ServeEvent::Line(line) => match r {
            Ok(a) => {
                let starts = (phase == WatchPhase::Idle || phase == WatchPhase::Polling)
                    && new.process().subscribed_flag();
                &&& a@.len() == (if starts { 2int } else { 1int })
                &&& match a@[0] {
                    ServeAction::Write(m) => is_request_outcome(old.process(), new.process(), json_parse(line@), m@),
                    _ => false,
                }
                &&& starts ==> a@[1] is StartWatcher
                &&& new.watch_phase() == phase_after_line(phase, new.process().subscribed_flag())
            },
            Err(_) => false,
        },
        ServeEvent::InputClosed => {
            &&& new == old
            &&& stops(r, "stdin closed"@)
        },
        ServeEvent::WatcherStopped => if phase == WatchPhase::Watching {
            &&& new == old
            &&& stops(r, "watcher stopped"@)
        } else {
            ignored(old, new, r)
        },
        ServeEvent::WatcherStarted => if phase == WatchPhase::Starting {
            &&& new.watch_phase() == WatchPhase::Watching
            &&& refresh_actions(old.process(), new.process(), RefreshPlan::Full, r)
        } else {
            ignored(old, new, r)
        },
        ServeEvent::WatcherFailed => if phase == WatchPhase::Starting {
            &&& new.watch_phase() == WatchPhase::Polling
            &&& refresh_actions(old.process(), new.process(), RefreshPlan::Full, r)
        } else {
            ignored(old, new, r)
        },
        ServeEvent::Tick => if phase == WatchPhase::Starting || phase == WatchPhase::Polling {
            &&& new.watch_phase() == phase
            &&& refresh_actions(old.process(), new.process(), RefreshPlan::Full, r)
        } else {
            ignored(old, new, r)
        },
        ServeEvent::Change(plan) => if phase == WatchPhase::Watching && old.process().subscribed_flag() && plan
            != RefreshPlan::Nothing {
            &&& new == old
            &&& match r {
                Ok(a) => a@.len() == 1 && a@[0] == ServeAction::Debounce(plan),
                Err(_) => false,
            }
        } else {
            ignored(old, new, r)
        },
        ServeEvent::Settled(plan) => if phase == WatchPhase::Watching && plan != RefreshPlan::Nothing {
            &&& new.watch_phase() == phase
            &&& refresh_actions(old.process(), new.process(), plan, r)
        } else {
            ignored(old, new, r)
        },
    }
}

/// Each step of a serving worker keeps the version of its snapshots or
/// takes the next one: versions never go back and never skip one.
pub proof fn lemma_serve_versions_step_by_one(
    old: Worker,
    new: Worker,
    event: ServeEvent,
    r: Result<Vec<ServeAction>, SnapshotError>,
)
    requires
        serve_outcome(old, new, event, r),
    ensures
        new.process().version() == old.process().version() || new.process().version() == old.process().version()
            + 1,
{
    match event {
        ServeEvent::Line(line) => {
            let a = r->Ok_0;
            if let ServeAction::Write(m) = a@[0] {
                lemma_request_version_steps(old.process(), new.process(), json_parse(line@), m@);
            }
        },
        _ => {},
    }
}

/// Over any run of steps of a serving worker, the version of its snapshots
/// never goes back, and grows by at most one per step: a client that sees
/// two versions can tell how many updates lie between them.
pub proof fn lemma_serve_versions_monotonic(
    workers: Seq<Worker>,
    events: Seq<ServeEvent>,
    results: Seq<Result<Vec<ServeAction>, SnapshotError>>,
    i: int,
    j: int,
)
    requires
        workers.len() == events.len() + 1,
        results.len() == events.len(),
        forall|k: int| 0 <= k < events.len() ==> serve_outcome(
            #[trigger] workers[k],
            workers[k + 1],
            events[k],
            results[k],
        ),
        0 <= i <= j < workers.len(),
    ensures
        workers[i].process().version() <= workers[j].process().version(),
        workers[j].process().version() - workers[i].process().version() <= j - i,
    decreases j - i,
{
    if i < j {
        lemma_serve_versions_monotonic(workers, events, results, i, j - 1);
        lemma_serve_versions_step_by_one(workers[j - 1], workers[j], events[j - 1], results[j - 1]);
    }
}

impl Worker {
    /// The protocol state.
    pub closed spec fn process(&self) -> ProcessState {
        self.state
    }

    /// The watcher phase.
    pub closed spec fn watch_phase(&self) -> WatchPhase {
        self.phase
    }

    /// A worker for the repository at `repo`: no client, no watcher.
    pub fn new(repo: String) -> (r: Worker)
        ensures
            r.process().repo_text() == repo@,
            !r.process().subscribed_flag(),
            r.process().latest() is None,
            r.process().version() == 0,
            r.watch_phase() == WatchPhase::Idle,
    {
        Worker { state: ProcessState::new(repo), phase: WatchPhase::Idle }
    }

    /// The protocol state.
    pub fn state(&self) -> (r: &ProcessState)
        ensures
            *r == self.process(),
    {
        &self.state
    }

    /// The watcher phase.
    pub fn phase(&self) -> (r: WatchPhase)
        ensures
            r == self.watch_phase(),
    {
        self.phase
    }

    fn refresh(&mut self, plan: &RefreshPlan) -> (r: Result<Vec<ServeAction>, SnapshotError>)
        requires
            old(self).process().version() < u64::MAX,
        ensures
            refresh_actions(old(self).process(), final(self).process(), *plan, r),
            final(self).watch_phase() == old(self).watch_phase(),
    {
        let subscribed = self.state.is_subscribed();
        match refresh_subscribed(&mut self.state, plan) {
            Ok(messages) => if subscribed {
                Ok(vec![ServeAction::Write(messages)])
            } else {
                Ok(Vec::new())
            },
            Err(e) => Err(e),
        }
    }

    fn stop(reason: &str) -> (r: Result<Vec<ServeAction>, SnapshotError>)
        ensures
            stops(r, reason@),
    {
        Ok(vec![ServeAction::Stop(goodbye_message(own(reason)))])
    }

    /// Carries out what the worker does with `event`, and gives the actions
    /// its caller performs.
    pub fn step(&mut self, event: ServeEvent) -> (r: Result<Vec<ServeAction>, SnapshotError>)
        requires
            old(self).process().version() < u64::MAX,
        ensures
            serve_outcome(*old(self), *final(self), event, r),
    {
        let phase = self.phase;
        match event {
            ServeEvent::Line(line) => {
                let messages = handle_request(&mut self.state, line.as_str());
                let mut actions = vec![ServeAction::Write(messages)];
                if phase == WatchPhase::Idle || phase == WatchPhase::Polling {
                    if self.state.is_subscribed() {
                        self.phase = WatchPhase::Starting;
                        actions.push(ServeAction::StartWatcher);
                    } else {
                        self.phase = WatchPhase::Idle;
                    }
                }
                Ok(actions)
            },
            ServeEvent::InputClosed => Self::stop("stdin closed"),
            ServeEvent::WatcherStopped => if phase == WatchPhase::Watching {
                Self::stop("watcher stopped")
            } else {
                Ok(Vec::new())
            },
            ServeEvent::WatcherStarted => if phase == WatchPhase::Starting {
                self.phase = WatchPhase::Watching;
                self.refresh(&RefreshPlan::Full)
            } else {
                Ok(Vec::new())
            },
            ServeEvent::WatcherFailed => if phase == WatchPhase::Starting {
                self.phase = WatchPhase::Polling;
                self.refresh(&RefreshPlan::Full)
            } else {
                Ok(Vec::new())
            },
            ServeEvent::Tick => if phase == WatchPhase::Starting || phase == WatchPhase::Polling {
                self.refresh(&RefreshPlan::Full)
            } else {
                Ok(Vec::new())
            },
            ServeEvent::Change(plan) => if phase == WatchPhase::Watching && self.state.is_subscribed()
                && plan.should_refresh() {
                Ok(vec![ServeAction::Debounce(plan)])
            } else {
                Ok(Vec::new())
            },
            ServeEvent::Settled(plan) => if phase == WatchPhase::Watching && plan.should_refresh() {
                self.refresh(&plan)
            } else {
                Ok(Vec::new())
            },
        }
    }
}

} // verus!
