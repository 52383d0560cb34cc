//! The fleet runner's decisions: which host comes next in a sequential run,
//! what goes into the audit log, and how the results of a parallel run are
//! summed up.

use vstd::prelude::*;
use crate::error::UpdateError;
use crate::sequencer::{
    action_of, initial, lemma_failed_os_update_rolls_back_once, rollback_runs, run, Action, Event,
    Phase,
};

verus! {

/// What an audit log line records.
#[derive(Clone, Copy, Debug, PartialEq, Eq, Structural)]
pub enum AuditKind {
    /// An attempt on a host begins.
    Starting,
    /// The host's upgrade completed.
    Succeeded,
    /// The host's upgrade stopped with an error.
    Failed,
    /// The changelog post was created.
    Posted,
    /// The changelog post could not be created.
    PostFailed,
}

/// The word an audit log line gives for its event.
pub open spec fn event_word(k: AuditKind) -> Seq<char> {
    match k {
        AuditKind::Starting => "starting"@,
        AuditKind::Succeeded => "success"@,
        AuditKind::Failed => "failed"@,
        AuditKind::Posted => "posted"@,
        AuditKind::PostFailed => "post-failed"@,
    }
}

fn event_text(k: AuditKind) -> (r: &'static str)
    ensures
        r@ == event_word(k),
{
    match k {
        AuditKind::Starting => "starting",
        AuditKind::Succeeded => "success",
        AuditKind::Failed => "failed",
        AuditKind::Posted => "posted",
        AuditKind::PostFailed => "post-failed",
    }
}

/// One audit log line, without its line feed: the time stamp, the event, the
/// host, and the detail after `: ` where there is one.
pub open spec fn audit_line_spec(
    timestamp: Seq<char>,
    kind: AuditKind,
    host: Seq<char>,
    detail: Option<Seq<char>>,
) -> Seq<char> {
    timestamp + " "@ + event_word(kind) + " "@ + host + match detail {
        Some(d) => ": "@ + d,
        None => Seq::empty(),
    }
}

/// Formats one audit log line; `timestamp` is the RFC 3339 time of the event.
pub fn audit_line(timestamp: &str, kind: AuditKind, host: &str, detail: Option<&str>) -> (r: String)
    ensures
        r@ == audit_line_spec(
            timestamp@,
            kind,
            host@,
            match detail {
                Some(d) => Some(d@),
                None => None,
            },
        ),
{
    let mut line = String::from_str(timestamp);
    line.append(" ");
    line.append(event_text(kind));
    line.append(" ");
    line.append(host);
    match detail {
        Some(d) => {
            line.append(": ");
            line.append(d);
        },
        None => {},
    }
    line
}

/// The name of the audit log of the runs of one calendar day, given as
/// `YYYY-MM-DD`.
pub fn audit_log_name(date: &str) -> (r: String)
    ensures
        r@ == "dsc-update-"@ + date@ + ".log"@,
{
    String::from_str("dsc-update-").concat(date).concat(".log")
}

/// One audit log line: what happened, and to which host (by its position in
/// the configuration).
#[derive(Clone, Copy, Debug, PartialEq, Eq, Structural)]
pub struct AuditEntry {
    pub kind: AuditKind,
    pub host: usize,
}

/// The log line that closes the attempt on host `i`.
pub open spec fn closing_entry(succeeded: bool, i: usize) -> AuditEntry {
    AuditEntry { kind: if succeeded { AuditKind::Succeeded } else { AuditKind::Failed }, host: i }
}

/// The log of the attempts whose outcomes are `done`, in order: for each
/// host, its starting line and its closing line.
pub open spec fn attempts_log(done: Seq<bool>) -> Seq<AuditEntry>
    decreases done.len(),
{
    if done.len() == 0 {
        Seq::empty()
    } else {
        attempts_log(done.drop_last()) + seq![
            AuditEntry { kind: AuditKind::Starting, host: (done.len() - 1) as usize },
            closing_entry(done.last(), (done.len() - 1) as usize),
        ]
    }
}

/// A sequential run over the hosts of the configuration, in order, that
/// stops at the first failure.
pub struct SequentialFleet {
    total: usize,
    done: Vec<bool>,
    running: bool,
    log: Vec<AuditEntry>,
}

/// A sequential run as plain values.
pub struct FleetView {
    pub total: nat,
    pub done: Seq<bool>,
    pub running: bool,
    pub log: Seq<AuditEntry>,
}

impl View for SequentialFleet {
    type V = FleetView;

    closed spec fn view(&self) -> FleetView {
        FleetView { total: self.total as nat, done: self.done@, running: self.running, log: self.log@ }
    }
}

/// Whether a sequential run has nothing more to do: every host was tried,
/// or the last one tried failed.
pub open spec fn fleet_over(v: FleetView) -> bool {
    v.done.len() >= v.total || (v.done.len() > 0 && !v.done.last())
}

/// The shape every sequential run keeps: all hosts tried so far but the last
/// succeeded, and the log holds exactly their lines, plus the starting line
/// of the host under way.
pub open spec fn fleet_wf(v: FleetView) -> bool {
    &&& v.total <= usize::MAX
    &&& v.done.len() <= v.total
    &&& forall|i: int| 0 <= i < v.done.len() - 1 ==> v.done[i]
    &&& v.running ==> !fleet_over(v)
    &&& v.log == attempts_log(v.done) + if v.running {
        seq![AuditEntry { kind: AuditKind::Starting, host: v.done.len() as usize }]
    } else {
        Seq::empty()
    }
}

impl SequentialFleet {
    /// A run over `total` hosts, none tried yet.
    pub fn new(total: usize) -> (r: SequentialFleet)
        ensures
            r@.total == total,
            r@.done == Seq::<bool>::empty(),
            !r@.running,
            r@.log == Seq::<AuditEntry>::empty(),
            fleet_wf(r@),
    {
        SequentialFleet { total, done: Vec::new(), running: false, log: Vec::new() }
    }

    /// The log so far.
    pub fn log(&self) -> (r: &Vec<AuditEntry>)
        ensures
            r@ == self@.log,
    {
        &self.log
    }

    /// The next host to try, with its starting line logged; none when the run
    /// is over.
    pub fn next_host(&mut self) -> (r: Option<usize>)
        requires
            fleet_wf(old(self)@),
            !old(self)@.running,
        ensures
            fleet_wf(final(self)@),
            final(self)@.total == old(self)@.total,
            final(self)@.done == old(self)@.done,
            fleet_over(old(self)@) ==> r is None && final(self)@ == old(self)@,
            !fleet_over(old(self)@) ==> r == Some(old(self)@.done.len() as usize)
                && final(self)@.running && final(self)@.log == old(self)@.log.push(
                AuditEntry { kind: AuditKind::Starting, host: old(self)@.done.len() as usize },
            ),
    {
        let n = self.done.len();
        if n >= self.total || (n > 0 && !self.done[n - 1]) {
            return None;
        }
        self.log.push(AuditEntry { kind: AuditKind::Starting, host: n });
        self.running = true;
        Some(n)
    }

    /// Records how the attempt on the current host ended, and logs it.
    pub fn record(&mut self, succeeded: bool)
        requires
            fleet_wf(old(self)@),
            old(self)@.running,
        ensures
            fleet_wf(final(self)@),
            final(self)@.total == old(self)@.total,
            final(self)@.done == old(self)@.done.push(succeeded),
            !final(self)@.running,
            final(self)@.log == old(self)@.log.push(
                closing_entry(succeeded, old(self)@.done.len() as usize),
            ),
            final(self)@ == recorded(old(self)@, succeeded),
    {
        let n = self.done.len();
        let ghost old_done = self.done@;
        self.log.push(
            AuditEntry {
                kind: if succeeded {
                    AuditKind::Succeeded
                } else {
                    AuditKind::Failed
                },
                host: n,
            },
        );
        self.done.push(succeeded);
        self.running = false;
        assert(self.done@.drop_last() =~= old_done);
        assert(self@.log =~= attempts_log(self@.done));
    }
}

/// The log of a whole sequential run over `total` hosts whose attempts end
/// as `outcomes` says, from host `i` on.
pub open spec fn sequential_log_from(outcomes: Seq<bool>, total: nat, i: nat) -> Seq<AuditEntry>
    decreases total - i,
{
    if i >= total || i >= outcomes.len() {
        Seq::empty()
    } else {
        seq![
            AuditEntry { kind: AuditKind::Starting, host: i as usize },
            closing_entry(outcomes[i as int], i as usize),
        ] + if outcomes[i as int] {
            sequential_log_from(outcomes, total, i + 1)
        } else {
            Seq::empty()
        }
    }
}

/// How many lines of `log` record an event of kind `k`.
pub open spec fn count_kind(log: Seq<AuditEntry>, k: AuditKind) -> nat
    decreases log.len(),
{
    if log.len() == 0 {
        0
    } else {
        count_kind(log.drop_last(), k) + if log.last().kind == k {
            1nat
        } else {
            0nat
        }
    }
}

proof fn lemma_count_append(a: Seq<AuditEntry>, b: Seq<AuditEntry>, k: AuditKind)
    ensures
        count_kind(a + b, k) == count_kind(a, k) + count_kind(b, k),
    decreases b.len(),
{
    if b.len() > 0 {
        assert((a + b).drop_last() =~= a + b.drop_last());
        lemma_count_append(a, b.drop_last(), k);
    } else {
        assert(a + b =~= a);
    }
}

/// How many attempts of `done` failed.
pub open spec fn failures(done: Seq<bool>) -> nat
    decreases done.len(),
{
    if done.len() == 0 {
        0
    } else {
        failures(done.drop_last()) + if done.last() {
            0nat
        } else {
            1nat
        }
    }
}

proof fn lemma_attempts_counts(done: Seq<bool>)
    ensures
        count_kind(attempts_log(done), AuditKind::Starting) == done.len(),
        count_kind(attempts_log(done), AuditKind::Failed) == failures(done),
        count_kind(attempts_log(done), AuditKind::Succeeded) + failures(done) == done.len(),
    decreases done.len(),
{
    if done.len() > 0 {
        let pre = done.drop_last();
        lemma_attempts_counts(pre);
        let tail = seq![
            AuditEntry { kind: AuditKind::Starting, host: (done.len() - 1) as usize },
            closing_entry(done.last(), (done.len() - 1) as usize),
        ];
        lemma_count_append(attempts_log(pre), tail, AuditKind::Starting);
        lemma_count_append(attempts_log(pre), tail, AuditKind::Failed);
        lemma_count_append(attempts_log(pre), tail, AuditKind::Succeeded);
        assert(tail.drop_last().drop_last() =~= Seq::<AuditEntry>::empty());
        reveal_with_fuel(count_kind, 3);
        assert(attempts_log(done) == attempts_log(pre) + tail);
    }
}

proof fn lemma_failures_first(done: Seq<bool>)
    requires
        done.len() > 0,
        !done.last(),
        forall|i: int| 0 <= i < done.len() - 1 ==> done[i],
    ensures
        failures(done) == 1,
{
    let pre = done.drop_last();
    lemma_no_failures(pre);
}

proof fn lemma_no_failures(done: Seq<bool>)
    requires
        forall|i: int| 0 <= i < done.len() ==> done[i],
    ensures
        failures(done) == 0,
    decreases done.len(),
{
    if done.len() > 0 {
        lemma_no_failures(done.drop_last());
    }
}

proof fn lemma_log_prefix(outcomes: Seq<bool>, total: nat, k: nat)
    requires
        k <= total,
        k <= outcomes.len(),
        forall|i: int| 0 <= i < k ==> outcomes[i],
    ensures
        sequential_log_from(outcomes, total, 0) == attempts_log(outcomes.subrange(0, k as int))
            + sequential_log_from(outcomes, total, k),
    decreases k,
{
    if k > 0 {
        lemma_log_prefix(outcomes, total, (k - 1) as nat);
        let p = outcomes.subrange(0, k as int);
        assert(p.drop_last() =~= outcomes.subrange(0, k - 1));
        assert(attempts_log(p) =~= attempts_log(outcomes.subrange(0, k - 1)) + seq![
            AuditEntry { kind: AuditKind::Starting, host: (k - 1) as usize },
            closing_entry(outcomes[k - 1], (k - 1) as usize),
        ]);
    } else {
        assert(attempts_log(outcomes.subrange(0, 0)) =~= Seq::<AuditEntry>::empty());
    }
}

/// A sequential run in which host `k` is the first to fail tries hosts `0`
/// to `k` and no other: it logs `k + 1` starting lines, a success line for
/// each host before `k`, and a single failure line, for `k`.
pub proof fn lemma_sequential_stops_at_failure(outcomes: Seq<bool>, total: nat, k: nat)
    requires
        total <= usize::MAX,
        k < total,
        k < outcomes.len(),
        !outcomes[k as int],
        forall|i: int| 0 <= i < k ==> outcomes[i],
    ensures
        sequential_log_from(outcomes, total, 0) == attempts_log(outcomes.subrange(0, k as int + 1)),
        sequential_log_from(outcomes, total, 0).len() == 2 * (k + 1),
        count_kind(sequential_log_from(outcomes, total, 0), AuditKind::Starting) == k + 1,
        count_kind(sequential_log_from(outcomes, total, 0), AuditKind::Failed) == 1,
        count_kind(sequential_log_from(outcomes, total, 0), AuditKind::Succeeded) == k,
        forall|j: int|
            0 <= j < sequential_log_from(outcomes, total, 0).len() ==> (#[trigger] sequential_log_from(
                outcomes,
                total,
                0,
            )[j]).host <= k,
{
    lemma_log_prefix(outcomes, total, k);
    let p = outcomes.subrange(0, k as int + 1);
    assert(p.drop_last() =~= outcomes.subrange(0, k as int));
    assert(sequential_log_from(outcomes, total, k) =~= seq![
        AuditEntry { kind: AuditKind::Starting, host: k as usize },
        closing_entry(false, k as usize),
    ]);
    lemma_attempts_log_shape(p);
    lemma_attempts_counts(p);
    lemma_failures_first(p);
}

/// A sequential run that is over, driven by the outcomes `outcomes` (the
/// outcome of host `i` at `i`), has logged exactly the whole run's log: the
/// runner's steps meet the run's description.
pub proof fn lemma_fleet_log_complete(v: FleetView, outcomes: Seq<bool>)
    requires
        fleet_wf(v),
        !v.running,
        fleet_over(v),
        v.done.len() <= outcomes.len(),
        v.done == outcomes.subrange(0, v.done.len() as int),
    ensures
        v.log == sequential_log_from(outcomes, v.total, 0),
{
    let k = v.done.len();
    assert(v.log =~= attempts_log(v.done));
    assert forall|i: int| 0 <= i < k implies outcomes[i] == v.done[i] by {
        assert(v.done[i] == outcomes.subrange(0, k as int)[i]);
    }
    if k > 0 && !v.done.last() {
        lemma_sequential_stops_at_failure(outcomes, v.total, (k - 1) as nat);
    } else {
        assert(k == v.total);
        assert forall|i: int| 0 <= i < k implies outcomes[i] by {
            if i < k - 1 {
                assert(v.done[i]);
            } else {
                assert(v.done[i] == v.done.last());
            }
        }
        lemma_log_prefix(outcomes, v.total, k);
        assert(outcomes.subrange(0, k as int) =~= v.done);
    }
}

/// What the `j`-th line of the log of `done` may say: it names a host that
/// was tried, starting lines and closing lines alternate, a success line names
/// only a host whose attempt succeeded, and a failure line only one whose
/// attempt failed.
pub open spec fn entry_fits(done: Seq<bool>, e: AuditEntry, j: int) -> bool {
    &&& e.host < done.len()
    &&& (e.kind == AuditKind::Starting <==> j % 2 == 0)
    &&& (e.kind == AuditKind::Succeeded ==> done[e.host as int])
    &&& (e.kind == AuditKind::Failed ==> !done[e.host as int])
}

/// The log of `done` has two lines per host, each as `entry_fits` says.
pub proof fn lemma_attempts_log_shape(done: Seq<bool>)
    requires
        done.len() <= usize::MAX,
    ensures
        attempts_log(done).len() == 2 * done.len(),
        forall|j: int|
            0 <= j < attempts_log(done).len() ==> entry_fits(
                done,
                #[trigger] attempts_log(done)[j],
                j,
            ),
    decreases done.len(),
{
    if done.len() > 0 {
        let pre = done.drop_last();
        lemma_attempts_log_shape(pre);
        let l = attempts_log(done);
        let lp = attempts_log(pre);
        let n = done.len() - 1;
        assert(l == lp + seq![
            AuditEntry { kind: AuditKind::Starting, host: n as usize },
            closing_entry(done.last(), n as usize),
        ]);
        assert forall|j: int| 0 <= j < l.len() implies entry_fits(done, #[trigger] l[j], j) by {
            if j < lp.len() {
                assert(l[j] == lp[j]);
                assert(entry_fits(pre, lp[j], j));
                assert(pre[lp[j].host as int] == done[lp[j].host as int]);
            } else if j == lp.len() {
                assert(j % 2 == 0) by (nonlinear_arith)
                    requires
                        j == 2 * n,
                ;
            } else {
                assert(j % 2 == 1) by (nonlinear_arith)
                    requires
                        j == 2 * n + 1,
                ;
                assert(done[n as int] == done.last());
            }
        }
    }
}

/// The state of a sequential run after recording the outcome of the host
/// under way, as `SequentialFleet::record` leaves it.
pub open spec fn recorded(v: FleetView, succeeded: bool) -> FleetView {
    FleetView {
        total: v.total,
        done: v.done.push(succeeded),
        running: false,
        log: v.log.push(closing_entry(succeeded, v.done.len() as usize)),
    }
}

/// Recording a failed attempt keeps the run well formed, closes the
/// attempt with a failure line, and leaves no success line for that host.
pub proof fn lemma_failed_attempt_logged(v: FleetView)
    requires
        fleet_wf(v),
        v.running,
    ensures
        fleet_wf(recorded(v, false)),
        recorded(v, false).log.last() == (AuditEntry {
            kind: AuditKind::Failed,
            host: v.done.len() as usize,
        }),
        forall|j: int|
            0 <= j < recorded(v, false).log.len() && (#[trigger] recorded(v, false).log[j]).host
                == v.done.len() ==> recorded(v, false).log[j].kind != AuditKind::Succeeded,
{
    let w = recorded(v, false);
    assert(w.done.drop_last() =~= v.done);
    assert(w.log =~= attempts_log(w.done));
    lemma_attempts_log_shape(w.done);
    assert forall|j: int|
        0 <= j < w.log.len() && (#[trigger] w.log[j]).host == v.done.len() implies w.log[j].kind
        != AuditKind::Succeeded by {
        assert(entry_fits(w.done, w.log[j], j));
        assert(!w.done[v.done.len() as int]);
    }
}

/// A host whose OS update fails, with a rollback configured, during a
/// sequential run: its upgrade runs the rollback exactly once and stops with
/// `OsUpdateFailed`, so its outcome is recorded as a failure; the log then
/// closes its attempt with a failure line and holds no success line for it.
pub proof fn lemma_failed_os_update_end_to_end(
    has_reboot: bool,
    before: Seq<Event>,
    output: String,
    rollback: Event,
    after: Seq<Event>,
    v: FleetView,
)
    requires
        run(initial(true, has_reboot), before).phase == Phase::OsUpdate,
        rollback is Command,
        fleet_wf(v),
        v.running,
    ensures
        ({
            let events = before + seq![Event::Command { succeeded: false, output }, rollback]
                + after;
            let t = run(initial(true, has_reboot), events);
            let w = recorded(v, t.phase is Completed);
            &&& rollback_runs(initial(true, has_reboot), events) == 1
            &&& t.phase == Phase::Aborted(UpdateError::OsUpdateFailed)
            &&& action_of(t.phase) == Action::Finish
            &&& fleet_wf(w)
            &&& w.log.last() == AuditEntry { kind: AuditKind::Failed, host: v.done.len() as usize }
            &&& forall|j: int|
                0 <= j < w.log.len() && (#[trigger] w.log[j]).host == v.done.len() ==> w.log[j].kind
                    != AuditKind::Succeeded
        }),
{
    lemma_failed_os_update_rolls_back_once(has_reboot, before, output, rollback, after);
    lemma_failed_attempt_logged(v);
}

/// The outcome of a parallel run: success when every host succeeded, else
/// every failure with its host's position, in order.
pub open spec fn failures_of(results: Seq<Result<(), UpdateError>>) -> Seq<(usize, UpdateError)>
    decreases results.len(),
{
    if results.len() == 0 {
        Seq::empty()
    } else {
        failures_of(results.drop_last()) + match results.last() {
            Ok(_) => Seq::empty(),
            Err(e) => seq![((results.len() - 1) as usize, e)],
        }
    }
}

/// Sums up the results of a parallel run, where hosts do not stop each
/// other: every failure is reported, and the run fails if any host failed.
pub fn summarize_parallel(results: &Vec<Result<(), UpdateError>>) -> (r: Result<
    (),
    Vec<(usize, UpdateError)>,
>)
    ensures
        match r {
            Ok(_) => failures_of(results@).len() == 0,
            Err(f) => failures_of(results@).len() > 0 && f@ == failures_of(results@),
        },
{
    let mut failures: Vec<(usize, UpdateError)> = Vec::new();
    let mut i: usize = 0;
    while i < results.len()
        invariant
            i <= results@.len(),
            failures@ == failures_of(results@.subrange(0, i as int)),
        decreases results@.len() - i,
    {
        let ghost pre = results@.subrange(0, i as int);
        assert(results@.subrange(0, i + 1).drop_last() =~= pre);
        match results[i] {
            Ok(()) => {
                assert(failures@ =~= failures_of(results@.subrange(0, i + 1)));
            },
            Err(e) => {
                failures.push((i, e));
                assert(failures@ =~= failures_of(results@.subrange(0, i + 1)));
            },
        }
        i += 1;
    }
    assert(results@.subrange(0, results@.len() as int) =~= results@);
    if failures.len() == 0 {
        Ok(())
    } else {
        Err(failures)
    }
}

} // verus!
