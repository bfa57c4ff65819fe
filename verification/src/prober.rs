//! The retry policy of one check, as a state machine.
//!
//! A [`Probe`] is the state of one check of one endpoint. The caller issues
//! one GET per attempt and hands the result of each to the probe, which answers
//! either with the probe to retry with or with the finished record. Every
//! transport failure is retried, at once, until the retries are used up.

use crate::clock::Clock;
use crate::record::{Outcome, OutcomeView, StatusRecord, StatusRecordView, Timestamp};
use vstd::prelude::*;

verus! {

/// What one GET came to.
#[derive(Clone, Debug, PartialEq, Eq)]
pub enum Attempt {
    /// The server sent a response with this status code.
    Responded(u16),
    /// The transport failed (timeout, refused connection, DNS, TLS, ...); the
    /// text describes the error.
    Failed(String),
}

/// The mathematical value of an [`Attempt`].
pub enum AttemptView {
    Responded(u16),
    Failed(Seq<char>),
}

impl View for Attempt {
    type V = AttemptView;

    open spec fn view(&self) -> AttemptView {
        match *self {
            Attempt::Responded(code) => AttemptView::Responded(code),
            Attempt::Failed(message) => AttemptView::Failed(message@),
        }
    }
}

/// The state of one check between two attempts.
#[derive(Clone, Debug, PartialEq, Eq)]
pub struct Probe {
    url: String,
    timeout_ms: u64,
    max_retries: u32,
    failures: u32,
    observed_at: Timestamp,
    started_nanos: u128,
}

/// The mathematical value of a [`Probe`].
pub struct ProbeView {
    /// The endpoint under check.
    pub url: Seq<char>,
    /// The time allowed to each single attempt, in milliseconds.
    pub timeout_ms: u64,
    /// How many failed attempts may be followed by another attempt.
    pub max_retries: nat,
    /// How many attempts have failed so far.
    pub failures: nat,
    /// The wall-clock time at which the check was started.
    pub observed_at: Timestamp,
    /// The reading of the monotonic clock at which the check was started.
    pub started_nanos: nat,
}

impl View for Probe {
    type V = ProbeView;

    closed spec fn view(&self) -> ProbeView {
        ProbeView {
            url: self.url@,
            timeout_ms: self.timeout_ms,
            max_retries: self.max_retries as nat,
            failures: self.failures as nat,
            observed_at: self.observed_at,
            started_nanos: self.started_nanos as nat,
        }
    }
}

/// What the probe decides after an attempt.
#[derive(Clone, Debug, PartialEq, Eq)]
pub enum Progress {
    /// Issue another GET and hand its result to this probe.
    Retry(Probe),
    /// The check is over; this is its record.
    Done(StatusRecord),
}

/// The mathematical value of a [`Progress`].
pub enum ProgressView {
    Retry(ProbeView),
    Done(StatusRecordView),
}

impl View for Progress {
    type V = ProgressView;

    open spec fn view(&self) -> ProgressView {
        match *self {
            Progress::Retry(probe) => ProgressView::Retry(probe@),
            Progress::Done(record) => ProgressView::Done(record@),
        }
    }
}

/// The probe of a check that starts now, before its first attempt.
pub open spec fn fresh(
    url: Seq<char>,
    timeout_ms: u64,
    max_retries: nat,
    observed_at: Timestamp,
    started_nanos: nat,
) -> ProbeView {
    ProbeView { url, timeout_ms, max_retries, failures: 0, observed_at, started_nanos }
}

/// The time between two readings of the monotonic clock; zero where the
/// second reading is not after the first.
pub open spec fn elapsed_between(started_nanos: nat, now_nanos: nat) -> nat {
    if now_nanos >= started_nanos {
        (now_nanos - started_nanos) as nat
    } else {
        0
    }
}

/// The record of a check that ends with `outcome` at the reading `now_nanos`.
pub open spec fn resolve(
    probe: ProbeView,
    outcome: OutcomeView,
    now_nanos: nat,
) -> StatusRecordView {
    StatusRecordView {
        url: probe.url,
        outcome,
        elapsed_nanos: elapsed_between(probe.started_nanos, now_nanos),
        observed_at: probe.observed_at,
    }
}

/// The retry policy. A response ends the check with success, whatever its
/// status code. A failure is retried while fewer than `max_retries` attempts
/// have failed before it; otherwise it ends the check with that failure.
pub open spec fn advance(probe: ProbeView, attempt: AttemptView, now_nanos: nat) -> ProgressView {
    match attempt {
        AttemptView::Responded(code) => ProgressView::Done(
            resolve(probe, OutcomeView::Success(code), now_nanos),
        ),
        AttemptView::Failed(message) => if probe.failures < probe.max_retries {
            ProgressView::Retry(ProbeView { failures: probe.failures + 1, ..probe })
        } else {
            ProgressView::Done(resolve(probe, OutcomeView::Failure(message), now_nanos))
        },
    }
}

impl Probe {
    /// Starts a check of `url`. `observed_at` is the wall-clock time and
    /// `started_nanos` the reading of the monotonic clock, both taken now,
    /// before the first attempt.
    pub fn begin_at(
        url: &str,
        timeout_ms: u64,
        max_retries: u32,
        observed_at: Timestamp,
        started_nanos: u128,
    ) -> (probe: Probe)
        ensures
            probe@ == fresh(
                url@,
                timeout_ms,
                max_retries as nat,
                observed_at,
                started_nanos as nat,
            ),
    {
        Probe {
            url: url.to_owned(),
            timeout_ms,
            max_retries,
            failures: 0,
            observed_at,
            started_nanos,
        }
    }

    /// Takes the result of the attempt that was just made, which ended at the
    /// reading `now_nanos` of the monotonic clock, and decides how the check
    /// goes on.
    pub fn on_attempt_at(self, attempt: Attempt, now_nanos: u128) -> (progress: Progress)
        ensures
            progress@ == advance(self@, attempt@, now_nanos as nat),
    {
        let elapsed_nanos: u128 = if now_nanos >= self.started_nanos {
            now_nanos - self.started_nanos
        } else {
            0
        };
        match attempt {
            Attempt::Responded(code) => Progress::Done(
                StatusRecord {
                    url: self.url,
                    outcome: Outcome::Success(code),
                    elapsed_nanos,
                    observed_at: self.observed_at,
                },
            ),
            Attempt::Failed(message) => {
                if self.failures < self.max_retries {
                    Progress::Retry(
                        Probe {
                            url: self.url,
                            timeout_ms: self.timeout_ms,
                            max_retries: self.max_retries,
                            failures: self.failures + 1,
                            observed_at: self.observed_at,
                            started_nanos: self.started_nanos,
                        },
                    )
                } else {
                    Progress::Done(
                        StatusRecord {
                            url: self.url,
                            outcome: Outcome::Failure(message),
                            elapsed_nanos,
                            observed_at: self.observed_at,
                        },
                    )
                }
            },
        }
    }

    /// Starts a check of `url` now. `observed_at` is the wall-clock time,
    /// taken just before; the start of the measurement is read from `clock`.
    pub fn begin(
        url: &str,
        timeout_ms: u64,
        max_retries: u32,
        observed_at: Timestamp,
        clock: &Clock,
    ) -> (probe: Probe)
        ensures
            probe@ == fresh(
                url@,
                timeout_ms,
                max_retries as nat,
                observed_at,
                probe@.started_nanos,
            ),
    {
        let started_nanos = clock.reading_nanos();
        Probe::begin_at(url, timeout_ms, max_retries, observed_at, started_nanos)
    }

    /// Takes the result of the attempt that was just made and decides how the
    /// check goes on; the end of the attempt is read from `clock`, which is
    /// the clock that the check was begun with. Whatever the clock reads, the
    /// decision is the one that the retry policy makes for that reading.
    pub fn on_attempt(self, attempt: Attempt, clock: &Clock) -> (progress: Progress)
        ensures
            exists|now_nanos: nat| progress@ == #[trigger] advance(self@, attempt@, now_nanos),
    {
        let now_nanos = clock.reading_nanos();
        let ghost before = self@;
        let ghost event = attempt@;
        let progress = self.on_attempt_at(attempt, now_nanos);
        assert(progress@ == advance(before, event, now_nanos as nat));
        progress
    }

    /// The endpoint under check.
    pub fn url(&self) -> (url: &str)
        ensures
            url@ == self@.url,
    {
        self.url.as_str()
    }

    /// The time allowed to each single attempt, in milliseconds.
    pub fn timeout_ms(&self) -> (timeout_ms: u64)
        ensures
            timeout_ms == self@.timeout_ms,
    {
        self.timeout_ms
    }

    /// How many failed attempts may be followed by another attempt.
    pub fn max_retries(&self) -> (max_retries: u32)
        ensures
            max_retries == self@.max_retries,
    {
        self.max_retries
    }

    /// How many attempts have failed so far.
    pub fn failures(&self) -> (failures: u32)
        ensures
            failures == self@.failures,
    {
        self.failures
    }

    /// The wall-clock time at which the check was started.
    pub fn observed_at(&self) -> (observed_at: Timestamp)
        ensures
            observed_at == self@.observed_at,
    {
        self.observed_at
    }
}

/// One attempt as it happened: what it came to, and the readings of the
/// monotonic clock when it was issued and when it ended.
pub struct Exchange {
    pub attempt: AttemptView,
    pub began_nanos: nat,
    pub ended_nanos: nat,
}

/// How a check ended: the number of attempts it made and its record.
pub struct Resolution {
    pub attempts: nat,
    pub record: StatusRecordView,
}

/// Runs a check against a transport whose answers are `script`, one entry per
/// attempt, in order. `None` where the script ends before the check does.
pub open spec fn run(probe: ProbeView, script: Seq<Exchange>) -> Option<Resolution>
    decreases script.len(),
{
    if script.len() == 0 {
        None
    } else {
        match advance(probe, script[0].attempt, script[0].ended_nanos) {
            ProgressView::Done(record) => Some(Resolution { attempts: 1, record }),
            ProgressView::Retry(next) => match run(next, script.drop_first()) {
                Some(rest) => Some(Resolution { attempts: rest.attempts + 1, record: rest.record }),
                None => None,
            },
        }
    }
}

/// A finished check: its record, and the number of attempts it took.
#[derive(Clone, Debug, PartialEq, Eq)]
pub struct Checked {
    pub record: StatusRecord,
    pub attempts: u64,
}

/// Whether every answer of `script` is one that `transport` can give to a GET
/// of `url` with a timeout of `timeout_ms` milliseconds.
pub open spec fn answers_of<F: Fn(&str, u64) -> Attempt>(
    transport: F,
    url: &str,
    timeout_ms: u64,
    script: Seq<Exchange>,
) -> bool {
    forall|i: int|
        0 <= i < script.len() ==> exists|answer: Attempt|
            call_ensures(transport, (url, timeout_ms), answer) && answer@ == (
            #[trigger] script[i]).attempt
}

/// Checks `url`: asks `transport` for one GET after the other, each with a
/// timeout of `timeout_ms` milliseconds, until the retry policy is satisfied.
/// `observed_at` is the wall-clock time, taken just before; the start and the
/// end of the measurement are read from `clock`.
///
/// What comes back is what the policy makes of the answers that the
/// transport gave: there is a run of the check, over answers of the transport
/// alone, that ends in this record after this many attempts. A check never
/// takes more than `max_retries + 1` attempts, and against a transport that
/// can only fail it takes exactly that many and ends in failure.
pub fn check<F: Fn(&str, u64) -> Attempt>(
    url: &str,
    timeout_ms: u64,
    max_retries: u32,
    observed_at: Timestamp,
    clock: &Clock,
    transport: F,
) -> (checked: Checked)
    requires
        call_requires(transport, (url, timeout_ms)),
    ensures
        1 <= checked.attempts <= max_retries + 1,
        exists|script: Seq<Exchange>, started_nanos: nat|
            {
                &&& answers_of(transport, url, timeout_ms, script)
                &&& #[trigger] run(
                    fresh(url@, timeout_ms, max_retries as nat, observed_at, started_nanos),
                    script,
                ) == Some(
                    Resolution { attempts: checked.attempts as nat, record: checked.record@ },
                )
            },
        (forall|answer: Attempt|
            call_ensures(transport, (url, timeout_ms), answer) ==> answer is Failed) ==> {
            &&& checked.attempts == max_retries + 1
            &&& checked.record.outcome is Failure
        },
{
    let first = Probe::begin(url, timeout_ms, max_retries, observed_at, clock);
    let ghost origin = first@;
    let mut probe = first;
    let mut attempts: u64 = 0;
    let ghost mut failed: Seq<Exchange> = Seq::empty();
    loop
        invariant
            call_requires(transport, (url, timeout_ms)),
            origin == fresh(
                url@,
                timeout_ms,
                max_retries as nat,
                observed_at,
                origin.started_nanos,
            ),
            probe@ == (ProbeView { failures: failed.len(), ..origin }),
            attempts == failed.len(),
            failed.len() <= max_retries,
            forall|i: int| 0 <= i < failed.len() ==> failed[i].attempt is Failed,
            answers_of(transport, url, timeout_ms, failed),
        decreases max_retries - failed.len(),
    {
        let answer = transport(url, timeout_ms);
        let now_nanos = clock.reading_nanos();
        let ghost last = Exchange {
            attempt: answer@,
            began_nanos: now_nanos as nat,
            ended_nanos: now_nanos as nat,
        };
        proof {
            let script = failed.push(last);
            assert forall|i: int| 0 <= i < script.len() implies exists|a: Attempt|
                call_ensures(transport, (url, timeout_ms), a) && a@ == (
                #[trigger] script[i]).attempt by {
                if i < failed.len() {
                    assert(script[i] == failed[i]);
                } else {
                    assert(call_ensures(transport, (url, timeout_ms), answer) && answer@
                        == script[i].attempt);
                }
            }
            run_after_failures(origin, failed, last);
        }
        attempts = attempts + 1;
        match probe.on_attempt_at(answer, now_nanos) {
            Progress::Retry(next) => {
                probe = next;
                proof {
                    failed = failed.push(last);
                }
            },
            Progress::Done(record) => {
                assert(run(origin, failed.push(last)) == Some(
                    Resolution { attempts: attempts as nat, record: record@ },
                ));
                return Checked { record, attempts };
            },
        }
    }
}

/// The time spent inside the attempts of `script`, gaps between them left out.
pub open spec fn busy_nanos(script: Seq<Exchange>) -> int
    decreases script.len(),
{
    if script.len() == 0 {
        0
    } else {
        (script[0].ended_nanos - script[0].began_nanos) + busy_nanos(script.drop_first())
    }
}

/// Whether the readings of `script` are those of a clock that never runs
/// backwards, read from `from_nanos` on: each attempt ends no earlier than it
/// began, and begins no earlier than the one before it ended.
pub open spec fn in_clock_order(from_nanos: nat, script: Seq<Exchange>) -> bool
    decreases script.len(),
{
    script.len() > 0 ==> {
        &&& from_nanos <= script[0].began_nanos
        &&& script[0].began_nanos <= script[0].ended_nanos
        &&& in_clock_order(script[0].ended_nanos, script.drop_first())
    }
}

/// Against a transport that always fails, a check makes one attempt and then
/// every retry it has left, and ends in the failure of its last attempt. For a
/// check that starts with `r` retries that is `r + 1` attempts.
pub proof fn failing_transport_exhausts_retries(probe: ProbeView, script: Seq<Exchange>)
    requires
        probe.failures <= probe.max_retries,
        script.len() > probe.max_retries - probe.failures,
        forall|i: int| 0 <= i < script.len() ==> script[i].attempt is Failed,
    ensures
        run(probe, script) matches Some(end) && {
            let last = probe.max_retries - probe.failures;
            &&& end.attempts == last + 1
            &&& end.record == resolve(
                probe,
                OutcomeView::Failure(script[last].attempt->Failed_0),
                script[last].ended_nanos,
            )
        },
    decreases script.len(),
{
    if probe.failures < probe.max_retries {
        let next = ProbeView { failures: probe.failures + 1, ..probe };
        let rest = script.drop_first();
        assert(forall|i: int| 0 <= i < rest.len() ==> rest[i] == script[i + 1]);
        failing_transport_exhausts_retries(next, rest);
    }
}

/// Against a transport that fails `failures_first` times and then answers, a
/// check that has at least that many retries left ends in success with the
/// status code of the answer, after `failures_first + 1` attempts.
pub proof fn success_after_failures(probe: ProbeView, script: Seq<Exchange>, failures_first: nat)
    requires
        probe.failures + failures_first <= probe.max_retries,
        script.len() > failures_first,
        forall|i: int| 0 <= i < failures_first ==> script[i].attempt is Failed,
        script[failures_first as int].attempt is Responded,
    ensures
        run(probe, script) matches Some(end) && {
            &&& end.attempts == failures_first + 1
            &&& end.record == resolve(
                probe,
                OutcomeView::Success(script[failures_first as int].attempt->Responded_0),
                script[failures_first as int].ended_nanos,
            )
        },
    decreases failures_first,
{
    if failures_first > 0 {
        let next = ProbeView { failures: probe.failures + 1, ..probe };
        let rest = script.drop_first();
        assert(script[0].attempt is Failed);
        assert(forall|i: int| 0 <= i < rest.len() ==> rest[i] == script[i + 1]);
        success_after_failures(next, rest, (failures_first - 1) as nat);
    }
}

/// The elapsed time of a record is never shorter than the time its attempts
/// took together: with readings from a clock that never runs backwards, what
/// a check reports covers the whole of every attempt it made.
pub proof fn elapsed_covers_every_attempt(probe: ProbeView, script: Seq<Exchange>)
    requires
        in_clock_order(probe.started_nanos, script),
    ensures
        run(probe, script) matches Some(end) ==> {
            &&& end.attempts <= script.len()
            &&& end.record.elapsed_nanos >= busy_nanos(script.take(end.attempts as int))
        },
{
    elapsed_covers_attempts_from(probe, script, 0);
}

proof fn elapsed_covers_attempts_from(probe: ProbeView, script: Seq<Exchange>, spent: nat)
    requires
        script.len() > 0 ==> probe.started_nanos + spent <= script[0].began_nanos,
        script.len() > 0 ==> in_clock_order(script[0].began_nanos, script),
    ensures
        run(probe, script) matches Some(end) ==> {
            &&& 1 <= end.attempts <= script.len()
            &&& end.record.elapsed_nanos >= spent + busy_nanos(script.take(end.attempts as int))
        },
    decreases script.len(),
{
    if script.len() > 0 {
        let rest = script.drop_first();
        let took = script[0].ended_nanos - script[0].began_nanos;
        match advance(probe, script[0].attempt, script[0].ended_nanos) {
            ProgressView::Done(record) => {
                assert(script.take(1).drop_first() =~= Seq::<Exchange>::empty());
                assert(busy_nanos(script.take(1)) == took + busy_nanos(
                    script.take(1).drop_first(),
                ));
            },
            ProgressView::Retry(next) => {
                assert(in_clock_order(script[0].ended_nanos, rest));
                if rest.len() > 0 {
                    assert(in_clock_order(rest[0].ended_nanos, rest.drop_first()));
                    assert(in_clock_order(rest[0].began_nanos, rest));
                }
                elapsed_covers_attempts_from(next, rest, (spent + took) as nat);
                if let Some(end) = run(next, rest) {
                    let n = end.attempts + 1;
                    assert(script.take(n as int).drop_first() =~= rest.take(end.attempts as int));
                    assert(busy_nanos(script.take(n as int)) == took + busy_nanos(
                        rest.take(end.attempts as int),
                    ));
                }
            },
        }
    }
}

/// A check reports the endpoint and the start time it was begun with, however
/// many attempts it takes.
pub proof fn record_keeps_identity(probe: ProbeView, script: Seq<Exchange>)
    ensures
        run(probe, script) matches Some(end) ==> {
            &&& end.record.url == probe.url
            &&& end.record.observed_at == probe.observed_at
        },
    decreases script.len(),
{
    if script.len() > 0 {
        let first = advance(probe, script[0].attempt, script[0].ended_nanos);
        if let ProgressView::Retry(next) = first {
            record_keeps_identity(next, script.drop_first());
        }
    }
}

/// A check that has seen nothing but failures so far ends as the policy says
/// for its next attempt.
proof fn run_after_failures(probe: ProbeView, failed: Seq<Exchange>, last: Exchange)
    requires
        probe.failures + failed.len() <= probe.max_retries,
        forall|i: int| 0 <= i < failed.len() ==> failed[i].attempt is Failed,
    ensures
        run(probe, failed.push(last)) == match advance(
            ProbeView { failures: probe.failures + failed.len(), ..probe },
            last.attempt,
            last.ended_nanos,
        ) {
            ProgressView::Done(record) => Some(Resolution { attempts: failed.len() + 1, record }),
            ProgressView::Retry(next) => None::<Resolution>,
        },
    decreases failed.len(),
{
    let script = failed.push(last);
    if failed.len() == 0 {
        assert(script.drop_first() =~= Seq::<Exchange>::empty());
        assert(script[0] == last);
        assert(probe == ProbeView { failures: probe.failures + failed.len(), ..probe });
        if let ProgressView::Retry(next) = advance(probe, last.attempt, last.ended_nanos) {
            assert(run(next, script.drop_first()) is None);
        }
    } else {
        let next = ProbeView { failures: probe.failures + 1, ..probe };
        assert(script[0] == failed[0]);
        assert(script.drop_first() =~= failed.drop_first().push(last));
        let rest = failed.drop_first();
        assert forall|i: int| 0 <= i < rest.len() implies rest[i].attempt is Failed by {
            assert(rest[i] == failed[i + 1]);
        }
        run_after_failures(next, rest, last);
    }
}

} // verus!
