//! One host's upgrade as a state machine. The machine decides; its driver
//! performs the action it asks for (a remote command, a version lookup, a
//! sleep, a probe) and hands back what happened as an event.

use vstd::prelude::*;
use crate::error::UpdateError;
use crate::report::{opt_view, parse_reclaimed_space, reclaimed_of, UpdateMetadata};
use crate::ssh::{target_check, validate_ssh_target};

verus! {

/// How many failed probes after a reboot make the host count as lost.
pub const PROBE_ATTEMPTS: u64 = 12;

/// Seconds to wait after a reboot before the first probe, and between probes.
pub const PROBE_INTERVAL_SECS: u64 = 30;

/// Where an upgrade stands.
#[derive(Clone, Copy, Debug, PartialEq, Eq, Structural)]
pub enum Phase {
    /// Looking up the versions before the upgrade.
    CollectBefore,
    /// Running the OS update.
    OsUpdate,
    /// Running the rollback after a failed OS update.
    Rollback,
    /// Running the reboot command.
    Reboot,
    /// Waiting for the host after a reboot: `failed_probes` probes have failed
    /// so far, and `sleeping` tells whether a pause comes before the next one.
    AwaitOnline { failed_probes: u64, sleeping: bool },
    /// Running the application upgrade.
    AppUpgrade,
    /// Looking up the versions after the upgrade.
    CollectAfter,
    /// Running the cleanup command.
    Cleanup,
    /// Done; the facts are complete.
    Completed,
    /// Stopped by a fatal error.
    Aborted(UpdateError),
}

/// A remote command of the upgrade.
#[derive(Clone, Copy, Debug, PartialEq, Eq, Structural)]
pub enum CommandKind {
    OsUpdate,
    Rollback,
    Reboot,
    AppUpgrade,
    Cleanup,
}

/// What the driver is asked to do next.
#[derive(Clone, Copy, Debug, PartialEq, Eq, Structural)]
pub enum Action {
    /// Look up the application and OS versions, and report them.
    FetchVersions,
    /// Run a remote command and report whether it succeeded, with its output.
    Run(CommandKind),
    /// Sleep this many seconds, then report it.
    Sleep(u64),
    /// Probe the host, and report whether it answered.
    Probe,
    /// Nothing more: the upgrade has completed or stopped.
    Finish,
}

/// What the driver reports back.
pub enum Event {
    /// The versions found; an unknown one is absent.
    Versions { app_version: Option<String>, os_version: Option<String> },
    /// A remote command ran to its end.
    Command { succeeded: bool, output: String },
    /// The requested sleep is over.
    Slept,
    /// A probe answered, or did not.
    Probed(bool),
}

/// The state of one host's upgrade.
pub struct Sequencer {
    phase: Phase,
    has_rollback: bool,
    has_reboot: bool,
    before_version: Option<String>,
    after_version: Option<String>,
    before_os_version: Option<String>,
    after_os_version: Option<String>,
    reclaimed_space: Option<String>,
    os_updated: bool,
    server_rebooted: bool,
}

/// The state of an upgrade as plain values.
pub struct SequencerView {
    pub phase: Phase,
    pub has_rollback: bool,
    pub has_reboot: bool,
    pub before_version: Option<Seq<char>>,
    pub after_version: Option<Seq<char>>,
    pub before_os_version: Option<Seq<char>>,
    pub after_os_version: Option<Seq<char>>,
    pub reclaimed_space: Option<Seq<char>>,
    pub os_updated: bool,
    pub server_rebooted: bool,
}

impl View for Sequencer {
    type V = SequencerView;

    closed spec fn view(&self) -> SequencerView {
        SequencerView {
            phase: self.phase,
            has_rollback: self.has_rollback,
            has_reboot: self.has_reboot,
            before_version: opt_view(self.before_version),
            after_version: opt_view(self.after_version),
            before_os_version: opt_view(self.before_os_version),
            after_os_version: opt_view(self.after_os_version),
            reclaimed_space: opt_view(self.reclaimed_space),
            os_updated: self.os_updated,
            server_rebooted: self.server_rebooted,
        }
    }
}

/// A fresh upgrade: nothing done, nothing known.
pub open spec fn initial(has_rollback: bool, has_reboot: bool) -> SequencerView {
    SequencerView {
        phase: Phase::CollectBefore,
        has_rollback,
        has_reboot,
        before_version: None,
        after_version: None,
        before_os_version: None,
        after_os_version: None,
        reclaimed_space: None,
        os_updated: false,
        server_rebooted: false,
    }
}

/// The state after an event. An event that does not answer the pending
/// action leaves the state as it is.
pub open spec fn next(s: SequencerView, e: Event) -> SequencerView {
    match (s.phase, e) {
        (Phase::CollectBefore, Event::Versions { app_version, os_version }) => SequencerView {
            phase: Phase::OsUpdate,
            before_version: opt_view(app_version),
            before_os_version: opt_view(os_version),
            ..s
        },
        (Phase::OsUpdate, Event::Command { succeeded, output }) => if succeeded {
            SequencerView {
                phase: if s.has_reboot { Phase::Reboot } else { Phase::AppUpgrade },
                os_updated: true,
                ..s
            }
        } else if s.has_rollback {
            SequencerView { phase: Phase::Rollback, ..s }
        } else {
            SequencerView { phase: Phase::Aborted(UpdateError::OsUpdateFailed), ..s }
        },
        (Phase::Rollback, Event::Command { succeeded, output }) => SequencerView {
            phase: Phase::Aborted(UpdateError::OsUpdateFailed),
            ..s
        },
        (Phase::Reboot, Event::Command { succeeded, output }) => if succeeded {
            SequencerView {
                phase: Phase::AwaitOnline { failed_probes: 0, sleeping: true },
                server_rebooted: true,
                ..s
            }
        } else {
            SequencerView { phase: Phase::AppUpgrade, ..s }
        },
        (Phase::AwaitOnline { failed_probes, sleeping }, Event::Slept) => if sleeping {
            SequencerView { phase: Phase::AwaitOnline { failed_probes, sleeping: false }, ..s }
        } else {
            s
        },
        (Phase::AwaitOnline { failed_probes, sleeping }, Event::Probed(up)) => if sleeping {
            s
        } else if up {
            SequencerView { phase: Phase::AppUpgrade, ..s }
        } else if failed_probes + 1 >= PROBE_ATTEMPTS {
            SequencerView { phase: Phase::Aborted(UpdateError::HostUnreachableAfterReboot), ..s }
        } else {
            SequencerView {
                phase: Phase::AwaitOnline { failed_probes: (failed_probes + 1) as u64, sleeping: true },
                ..s
            }
        },
        (Phase::AppUpgrade, Event::Command { succeeded, output }) => if succeeded {
            SequencerView { phase: Phase::CollectAfter, ..s }
        } else {
            SequencerView { phase: Phase::Aborted(UpdateError::AppUpgradeFailed), ..s }
        },
        (Phase::CollectAfter, Event::Versions { app_version, os_version }) => SequencerView {
            phase: Phase::Cleanup,
            after_version: opt_view(app_version),
            after_os_version: opt_view(os_version),
            ..s
        },
        (Phase::Cleanup, Event::Command { succeeded, output }) => if succeeded {
            SequencerView {
                phase: Phase::Completed,
                reclaimed_space: reclaimed_of(output@),
                ..s
            }
        } else {
            SequencerView { phase: Phase::Aborted(UpdateError::CleanupFailed), ..s }
        },
        _ => s,
    }
}

/// What the driver must do in phase `p`.
pub open spec fn action_of(p: Phase) -> Action {
    match p {
        Phase::CollectBefore => Action::FetchVersions,
        Phase::OsUpdate => Action::Run(CommandKind::OsUpdate),
        Phase::Rollback => Action::Run(CommandKind::Rollback),
        Phase::Reboot => Action::Run(CommandKind::Reboot),
        Phase::AwaitOnline { failed_probes, sleeping } => if sleeping {
            Action::Sleep(PROBE_INTERVAL_SECS)
        } else {
            Action::Probe
        },
        Phase::AppUpgrade => Action::Run(CommandKind::AppUpgrade),
        Phase::CollectAfter => Action::FetchVersions,
        Phase::Cleanup => Action::Run(CommandKind::Cleanup),
        Phase::Completed => Action::Finish,
        Phase::Aborted(_) => Action::Finish,
    }
}

/// The state after a whole series of events, taken in order.
pub open spec fn run(s: SequencerView, events: Seq<Event>) -> SequencerView
    decreases events.len(),
{
    if events.len() == 0 {
        s
    } else {
        run(next(s, events[0]), events.drop_first())
    }
}

/// Whether the upgrade is over.
pub open spec fn is_terminal(p: Phase) -> bool {
    p is Completed || p is Aborted
}

impl Sequencer {
    /// Starts the upgrade of the host `target`, after checking that the name
    /// can be handed to the remote shell client. `has_rollback` tells whether
    /// a rollback command is configured, `has_reboot` whether the host is to
    /// be rebooted.
    pub fn new(target: &str, has_rollback: bool, has_reboot: bool) -> (r: Result<
        Sequencer,
        UpdateError,
    >)
        ensures
            match target_check(target@) {
                Err(e) => r == Err::<Sequencer, UpdateError>(UpdateError::InvalidTarget(e)),
                Ok(_) => r is Ok && r->Ok_0@ == initial(has_rollback, has_reboot),
            },
    {
        match validate_ssh_target(target) {
            Err(e) => Err(UpdateError::InvalidTarget(e)),
            Ok(()) => Ok(
                Sequencer {
                    phase: Phase::CollectBefore,
                    has_rollback,
                    has_reboot,
                    before_version: None,
                    after_version: None,
                    before_os_version: None,
                    after_os_version: None,
                    reclaimed_space: None,
                    os_updated: false,
                    server_rebooted: false,
                },
            ),
        }
    }

    /// Where the upgrade stands.
    pub fn phase(&self) -> (r: Phase)
        ensures
            r == self@.phase,
    {
        self.phase
    }

    /// What the driver must do next.
    pub fn action(&self) -> (r: Action)
        ensures
            r == action_of(self@.phase),
    {
        match self.phase {
            Phase::CollectBefore => Action::FetchVersions,
            Phase::OsUpdate => Action::Run(CommandKind::OsUpdate),
            Phase::Rollback => Action::Run(CommandKind::Rollback),
            Phase::Reboot => Action::Run(CommandKind::Reboot),
            Phase::AwaitOnline { failed_probes, sleeping } => if sleeping {
                Action::Sleep(PROBE_INTERVAL_SECS)
            } else {
                Action::Probe
            },
            Phase::AppUpgrade => Action::Run(CommandKind::AppUpgrade),
            Phase::CollectAfter => Action::FetchVersions,
            Phase::Cleanup => Action::Run(CommandKind::Cleanup),
            Phase::Completed => Action::Finish,
            Phase::Aborted(_) => Action::Finish,
        }
    }

    /// Takes in what happened.
    pub fn advance(&mut self, e: Event)
        ensures
            final(self)@ == next(old(self)@, e),
    {
        match (self.phase, e) {
            (Phase::CollectBefore, Event::Versions { app_version, os_version }) => {
                self.phase = Phase::OsUpdate;
                self.before_version = app_version;
                self.before_os_version = os_version;
            },
            (Phase::OsUpdate, Event::Command { succeeded, output }) => {
                if succeeded {
                    self.phase = if self.has_reboot {
                        Phase::Reboot
                    } else {
                        Phase::AppUpgrade
                    };
                    self.os_updated = true;
                } else if self.has_rollback {
                    self.phase = Phase::Rollback;
                } else {
                    self.phase = Phase::Aborted(UpdateError::OsUpdateFailed);
                }
            },
            (Phase::Rollback, Event::Command { succeeded, output }) => {
                self.phase = Phase::Aborted(UpdateError::OsUpdateFailed);
            },
            (Phase::Reboot, Event::Command { succeeded, output }) => {
                if succeeded {
                    self.phase = Phase::AwaitOnline { failed_probes: 0, sleeping: true };
                    self.server_rebooted = true;
                } else {
                    self.phase = Phase::AppUpgrade;
                }
            },
            (Phase::AwaitOnline { failed_probes, sleeping }, Event::Slept) => {
                if sleeping {
                    self.phase = Phase::AwaitOnline { failed_probes, sleeping: false };
                }
            },
            (Phase::AwaitOnline { failed_probes, sleeping }, Event::Probed(up)) => {
                if sleeping {
                } else if up {
                    self.phase = Phase::AppUpgrade;
                } else if failed_probes >= PROBE_ATTEMPTS - 1 {
                    self.phase = Phase::Aborted(UpdateError::HostUnreachableAfterReboot);
                } else {
                    self.phase = Phase::AwaitOnline {
                        failed_probes: failed_probes + 1,
                        sleeping: true,
                    };
                }
            },
            (Phase::AppUpgrade, Event::Command { succeeded, output }) => {
                if succeeded {
                    self.phase = Phase::CollectAfter;
                } else {
                    self.phase = Phase::Aborted(UpdateError::AppUpgradeFailed);
                }
            },
            (Phase::CollectAfter, Event::Versions { app_version, os_version }) => {
                self.phase = Phase::Cleanup;
                self.after_version = app_version;
                self.after_os_version = os_version;
            },
            (Phase::Cleanup, Event::Command { succeeded, output }) => {
                if succeeded {
                    self.reclaimed_space = parse_reclaimed_space(output.as_str());
                    self.phase = Phase::Completed;
                } else {
                    self.phase = Phase::Aborted(UpdateError::CleanupFailed);
                }
            },
            _ => {},
        }
    }

    /// The end of the upgrade: its facts when it completed, its error when it
    /// stopped.
    pub fn into_result(self) -> (r: Result<UpdateMetadata, UpdateError>)
        requires
            is_terminal(self@.phase),
        ensures
            match self@.phase {
                Phase::Aborted(e) => r == Err::<UpdateMetadata, UpdateError>(e),
                _ => r is Ok && ({
                    let m = r->Ok_0;
                    &&& opt_view(m.before_version) == self@.before_version
                    &&& opt_view(m.after_version) == self@.after_version
                    &&& opt_view(m.before_os_version) == self@.before_os_version
                    &&& opt_view(m.after_os_version) == self@.after_os_version
                    &&& opt_view(m.reclaimed_space) == self@.reclaimed_space
                    &&& m.os_updated == self@.os_updated
                    &&& m.server_rebooted == self@.server_rebooted
                }),
            },
    {
        match self.phase {
            Phase::Aborted(e) => Err(e),
            _ => Ok(
                UpdateMetadata {
                    before_version: self.before_version,
                    after_version: self.after_version,
                    reclaimed_space: self.reclaimed_space,
                    before_os_version: self.before_os_version,
                    after_os_version: self.after_os_version,
                    os_updated: self.os_updated,
                    server_rebooted: self.server_rebooted,
                },
            ),
        }
    }
}

/// What the two flags say in each phase: nothing is marked before the OS
/// update succeeds, and the reboot is marked only while or after waiting for
/// the host.
pub open spec fn flags_consistent(s: SequencerView) -> bool {
    match s.phase {
        Phase::CollectBefore | Phase::OsUpdate | Phase::Rollback => !s.os_updated
            && !s.server_rebooted,
        Phase::Aborted(UpdateError::OsUpdateFailed) => !s.os_updated && !s.server_rebooted,
        Phase::Reboot => s.os_updated && !s.server_rebooted,
        Phase::AwaitOnline { .. } => s.os_updated && s.server_rebooted,
        Phase::Aborted(UpdateError::HostUnreachableAfterReboot) => s.os_updated
            && s.server_rebooted,
        _ => s.os_updated,
    }
}

/// Every state that a fresh upgrade reaches keeps its flags consistent with
/// its phase.
pub proof fn lemma_flags_consistent(s: SequencerView, events: Seq<Event>)
    requires
        flags_consistent(s),
    ensures
        flags_consistent(run(s, events)),
    decreases events.len(),
{
    if events.len() > 0 {
        lemma_flags_consistent(next(s, events[0]), events.drop_first());
    }
}

/// Running two series of events one after the other is running them joined.
pub proof fn lemma_run_append(s: SequencerView, a: Seq<Event>, b: Seq<Event>)
    ensures
        run(s, a + b) == run(run(s, a), b),
    decreases a.len(),
{
    if a.len() > 0 {
        assert((a + b).drop_first() =~= a.drop_first() + b);
        lemma_run_append(next(s, a[0]), a.drop_first(), b);
    } else {
        assert(a + b =~= b);
    }
}

/// A finished upgrade stays finished whatever events follow.
pub proof fn lemma_terminal_is_final(s: SequencerView, events: Seq<Event>)
    requires
        is_terminal(s.phase),
    ensures
        run(s, events) == s,
    decreases events.len(),
{
    if events.len() > 0 {
        lemma_terminal_is_final(next(s, events[0]), events.drop_first());
    }
}

/// A state on the way out of a failed OS update: the rollback or the stop.
pub open spec fn after_os_failure(t: SequencerView) -> bool {
    &&& t.phase == Phase::Rollback || t.phase == Phase::Aborted(UpdateError::OsUpdateFailed)
    &&& !t.os_updated
    &&& !t.server_rebooted
}

proof fn lemma_after_os_failure_stays(t: SequencerView, events: Seq<Event>)
    requires
        after_os_failure(t),
    ensures
        after_os_failure(run(t, events)),
    decreases events.len(),
{
    if events.len() > 0 {
        lemma_after_os_failure_stays(next(t, events[0]), events.drop_first());
    }
}

/// Once the OS update of a fresh upgrade fails, whatever happens next the
/// upgrade never looks up the versions after the upgrade, never completes,
/// and both flags stay false.
pub proof fn lemma_os_update_failure_stops(
    has_rollback: bool,
    has_reboot: bool,
    before: Seq<Event>,
    output: String,
    after: Seq<Event>,
)
    requires
        run(initial(has_rollback, has_reboot), before).phase == Phase::OsUpdate,
    ensures
        ({
            let failed = next(
                run(initial(has_rollback, has_reboot), before),
                Event::Command { succeeded: false, output },
            );
            let t = run(failed, after);
            &&& t.phase != Phase::CollectAfter
            &&& t.phase != Phase::Completed
            &&& !t.os_updated
            &&& !t.server_rebooted
        }),
{
    let s = run(initial(has_rollback, has_reboot), before);
    lemma_flags_consistent(initial(has_rollback, has_reboot), before);
    let failed = next(s, Event::Command { succeeded: false, output });
    lemma_after_os_failure_stays(failed, after);
}

/// With a rollback configured, a failed OS update asks for the rollback once;
/// after it, whatever its outcome, the upgrade stops with `OsUpdateFailed`
/// and asks for nothing more.
pub proof fn lemma_rollback_once(s: SequencerView, output: String, e: Event, after: Seq<Event>)
    requires
        s.phase == Phase::OsUpdate,
        s.has_rollback,
    ensures
        action_of(next(s, Event::Command { succeeded: false, output }).phase) == Action::Run(
            CommandKind::Rollback,
        ),
        e is Command ==> ({
            let t = run(next(next(s, Event::Command { succeeded: false, output }), e), after);
            &&& t.phase == Phase::Aborted(UpdateError::OsUpdateFailed)
            &&& action_of(t.phase) == Action::Finish
        }),
{
    let t1 = next(next(s, Event::Command { succeeded: false, output }), e);
    if e is Command {
        lemma_terminal_is_final(t1, after);
    }
}

/// When the reboot command fails the host counts as not rebooted, and the
/// upgrade goes on with the application upgrade at once, without waiting for
/// the host.
pub proof fn lemma_reboot_failure_skips_wait(
    has_rollback: bool,
    has_reboot: bool,
    before: Seq<Event>,
    output: String,
)
    requires
        run(initial(has_rollback, has_reboot), before).phase == Phase::Reboot,
    ensures
        ({
            let t = next(
                run(initial(has_rollback, has_reboot), before),
                Event::Command { succeeded: false, output },
            );
            &&& t.phase == Phase::AppUpgrade
            &&& !t.server_rebooted
            &&& t.os_updated
            &&& action_of(t.phase) == Action::Run(CommandKind::AppUpgrade)
        }),
{
    lemma_flags_consistent(initial(has_rollback, has_reboot), before);
}

/// The position of a phase in the order of the steps; both ends come last.
pub open spec fn step_rank(p: Phase) -> nat {
    match p {
        Phase::CollectBefore => 0,
        Phase::OsUpdate => 1,
        Phase::Rollback => 2,
        Phase::Reboot => 3,
        Phase::AwaitOnline { .. } => 4,
        Phase::AppUpgrade => 5,
        Phase::CollectAfter => 6,
        Phase::Cleanup => 7,
        Phase::Completed => 8,
        Phase::Aborted(_) => 8,
    }
}

/// Steps run strictly in order: no event takes an upgrade back to an earlier
/// step, and an event that leaves the step unchanged is one that waits for
/// the host or does not answer the pending action.
pub proof fn lemma_steps_in_order(s: SequencerView, e: Event)
    ensures
        step_rank(next(s, e).phase) >= step_rank(s.phase),
        step_rank(next(s, e).phase) == step_rank(s.phase) ==> next(s, e) == s || (
        s.phase is AwaitOnline && next(s, e).phase is AwaitOnline),
{
}

/// Whatever events follow, an upgrade never goes back to an earlier step: a
/// step once left, such as the OS update or the application upgrade, is
/// never asked for again.
pub proof fn lemma_run_in_order(s: SequencerView, events: Seq<Event>)
    ensures
        step_rank(run(s, events).phase) >= step_rank(s.phase),
    decreases events.len(),
{
    if events.len() > 0 {
        lemma_steps_in_order(s, events[0]);
        lemma_run_in_order(next(s, events[0]), events.drop_first());
    }
}

/// How many times the rollback runs along a series of events: each command
/// outcome reported while the rollback is pending is one run of it.
pub open spec fn rollback_runs(s: SequencerView, events: Seq<Event>) -> nat
    decreases events.len(),
{
    if events.len() == 0 {
        0
    } else {
        (if s.phase == Phase::Rollback && events[0] is Command {
            1nat
        } else {
            0nat
        }) + rollback_runs(next(s, events[0]), events.drop_first())
    }
}

proof fn lemma_run_keeps_rollback(s: SequencerView, events: Seq<Event>)
    ensures
        run(s, events).has_rollback == s.has_rollback,
    decreases events.len(),
{
    if events.len() > 0 {
        lemma_run_keeps_rollback(next(s, events[0]), events.drop_first());
    }
}

proof fn lemma_no_rollback_before(s: SequencerView, events: Seq<Event>)
    requires
        step_rank(run(s, events).phase) <= 1,
    ensures
        rollback_runs(s, events) == 0,
    decreases events.len(),
{
    if events.len() > 0 {
        lemma_steps_in_order(s, events[0]);
        lemma_run_in_order(next(s, events[0]), events.drop_first());
        lemma_no_rollback_before(next(s, events[0]), events.drop_first());
    }
}

proof fn lemma_no_rollback_after_end(s: SequencerView, events: Seq<Event>)
    requires
        is_terminal(s.phase),
    ensures
        rollback_runs(s, events) == 0,
    decreases events.len(),
{
    if events.len() > 0 {
        lemma_no_rollback_after_end(next(s, events[0]), events.drop_first());
    }
}

proof fn lemma_rollback_runs_append(s: SequencerView, a: Seq<Event>, b: Seq<Event>)
    ensures
        rollback_runs(s, a + b) == rollback_runs(s, a) + rollback_runs(run(s, a), b),
    decreases a.len(),
{
    if a.len() > 0 {
        assert((a + b).drop_first() =~= a.drop_first() + b);
        assert((a + b)[0] == a[0]);
        lemma_rollback_runs_append(next(s, a[0]), a.drop_first(), b);
    } else {
        assert(a + b =~= b);
    }
}

/// A fresh upgrade with a rollback configured whose OS update fails runs the
/// rollback exactly once over the whole run, whatever the rollback's outcome
/// and whatever follows, and ends stopped with `OsUpdateFailed`, asking for
/// nothing more.
pub proof fn lemma_failed_os_update_rolls_back_once(
    has_reboot: bool,
    before: Seq<Event>,
    output: String,
    rollback: Event,
    after: Seq<Event>,
)
    requires
        run(initial(true, has_reboot), before).phase == Phase::OsUpdate,
        rollback is Command,
    ensures
        ({
            let events = before + seq![Event::Command { succeeded: false, output }, rollback]
                + after;
            let t = run(initial(true, has_reboot), events);
            &&& rollback_runs(initial(true, has_reboot), events) == 1
            &&& t.phase == Phase::Aborted(UpdateError::OsUpdateFailed)
            &&& action_of(t.phase) == Action::Finish
        }),
{
    let s0 = initial(true, has_reboot);
    let fail = Event::Command { succeeded: false, output };
    let mid = seq![fail, rollback];
    let events = before + mid + after;
    let s1 = run(s0, before);
    lemma_run_keeps_rollback(s0, before);
    lemma_no_rollback_before(s0, before);
    lemma_rollback_runs_append(s0, before, mid + after);
    assert(events =~= before + (mid + after));
    lemma_run_append(s0, before, mid + after);
    lemma_rollback_runs_append(s1, mid, after);
    lemma_run_append(s1, mid, after);
    let s2 = next(s1, fail);
    let s3 = next(s2, rollback);
    assert(mid.drop_first() =~= seq![rollback]);
    assert(mid[0] == fail);
    assert(mid.drop_first()[0] == rollback);
    assert(mid.drop_first().drop_first() =~= Seq::<Event>::empty());
    assert(run(s1, mid) == run(s2, mid.drop_first()));
    assert(run(s2, mid.drop_first()) == run(s3, mid.drop_first().drop_first()));
    assert(rollback_runs(s1, mid) == rollback_runs(s2, mid.drop_first()));
    assert(rollback_runs(s2, mid.drop_first()) == 1 + rollback_runs(
        s3,
        mid.drop_first().drop_first(),
    ));
    lemma_no_rollback_after_end(s3, after);
    lemma_terminal_is_final(s3, after);
}

/// `k` rounds of a pause followed by a probe that gets no answer.
pub open spec fn failed_rounds(k: nat) -> Seq<Event>
    decreases k,
{
    if k == 0 {
        Seq::empty()
    } else {
        failed_rounds((k - 1) as nat) + seq![Event::Slept, Event::Probed(false)]
    }
}

/// After a successful reboot the upgrade first pauses, then probes. It keeps
/// waiting through the first eleven probes that get no answer, and stops with
/// `HostUnreachableAfterReboot` at the twelfth, asking for nothing more.
pub proof fn lemma_probe_budget(s: SequencerView, output: String, k: nat)
    requires
        s.phase == Phase::Reboot,
        k <= PROBE_ATTEMPTS,
    ensures
        ({
            let w = next(s, Event::Command { succeeded: true, output });
            let t = run(w, failed_rounds(k));
            &&& w.server_rebooted
            &&& action_of(w.phase) == Action::Sleep(PROBE_INTERVAL_SECS)
            &&& k < PROBE_ATTEMPTS ==> t.phase == Phase::AwaitOnline {
                failed_probes: k as u64,
                sleeping: true,
            }
            &&& k == PROBE_ATTEMPTS ==> t.phase == Phase::Aborted(
                UpdateError::HostUnreachableAfterReboot,
            )
            &&& k == PROBE_ATTEMPTS ==> action_of(t.phase) == Action::Finish
        }),
    decreases k,
{
    let w = next(s, Event::Command { succeeded: true, output });
    if k > 0 {
        lemma_probe_budget(s, output, (k - 1) as nat);
        let round = seq![Event::Slept, Event::Probed(false)];
        lemma_run_append(w, failed_rounds((k - 1) as nat), round);
        let m = run(w, failed_rounds((k - 1) as nat));
        assert(round.drop_first() =~= seq![Event::Probed(false)]);
        assert(round.drop_first().drop_first() =~= Seq::<Event>::empty());
        let m1 = next(m, Event::Slept);
        assert(run(m, round) == run(m1, round.drop_first()));
        assert(run(m1, round.drop_first()) == run(
            next(m1, Event::Probed(false)),
            round.drop_first().drop_first(),
        ));
    }
}

} // verus!
