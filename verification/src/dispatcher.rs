//! The delayed dispatcher: every job sleeps until its instant, sends once,
//! and the run is over when the last job has reported back.
//!
//! Sleeping and sending are the caller's work, one task to a job. The
//! dispatcher decides: fed with what happened to a job, it says what is to
//! be done next, and it keeps the count of jobs still out. It neither
//! cancels a job nor holds one back: with thousands of jobs, thousands of
//! tasks are out at once.

use vstd::prelude::*;
use crate::alerts::GameAlert;
use crate::twilio::{rejection, rejection_of, SMSError, TwilioConfig};

verus! {

/// One message to send at one instant (milliseconds since the Unix epoch),
/// with its own copy of the addressing.
#[derive(Debug, PartialEq)]
pub struct Job {
    pub fire_instant: i64,
    pub recipient: TwilioConfig,
    pub body: String,
}

/// Binds an alert to the account it is sent through.
pub fn create_alert_job(game_alert: GameAlert, t: TwilioConfig) -> (job: Job)
    ensures
        job.fire_instant == game_alert.time_to_alert,
        job.body == game_alert.purpose,
        job.recipient == t,
{
    Job { fire_instant: game_alert.time_to_alert, recipient: t, body: game_alert.purpose }
}

/// How long a job that is due at `fire_instant` has to sleep when its task
/// starts at `now`: the time left, and nothing if the instant has come.
pub open spec fn sleep_for(fire_instant: int, now: int) -> int {
    if fire_instant > now {
        fire_instant - now
    } else {
        0
    }
}

/// The milliseconds to sleep before a job due at `fire_instant` fires, for a
/// task that starts at `now`.
pub fn time_to_sleep(fire_instant: i64, now: i64) -> (millis: u64)
    ensures
        millis == sleep_for(fire_instant as int, now as int),
{
    if fire_instant > now {
        (fire_instant as i128 - now as i128) as u64
    } else {
        0
    }
}

/// How one send ended.
#[derive(Debug, PartialEq)]
pub enum JobOutcome {
    /// The provider answered; its answer is kept as received.
    Delivered { response: String },
    /// The send failed, for the reason given.
    Failed { error: SMSError },
}

/// Where a job stands. A job only ever moves down this list.
#[derive(Debug, PartialEq)]
pub enum JobPhase {
    /// Its task has not started.
    Pending,
    /// Its task sleeps until the instant comes.
    Sleeping,
    /// Its message is on the way.
    Sending,
    /// Its send has ended, well or badly.
    Finished { outcome: JobOutcome },
}

/// What happened to a job.
#[derive(Debug, PartialEq)]
pub enum Event {
    /// The job's task started, at the instant `now`.
    Started { job: usize, now: i64 },
    /// The job's task woke from its sleep.
    Woke { job: usize },
    /// The job's send ended.
    Completed { job: usize, outcome: JobOutcome },
}

/// What is to be done after an event.
#[derive(Debug, PartialEq)]
pub enum Action {
    /// Let the job's task sleep for `millis` milliseconds, then report `Woke`.
    Sleep { job: usize, millis: u64 },
    /// Send the job's message now, then report `Completed`.
    Send { job: usize },
    /// Nothing for this job; other jobs are still out.
    Wait,
    /// Nothing for this job, and it was the last: the run is over.
    Done,
    /// The event does not fit where the job stands, or names no job; nothing
    /// has changed.
    Rejected,
}

impl Event {
    /// The job the event is about.
    pub open spec fn job(self) -> usize {
        match self {
            Event::Started { job, .. } => job,
            Event::Woke { job } => job,
            Event::Completed { job, .. } => job,
        }
    }
}

/// A dispatcher as a mathematical value: the jobs and where each stands.
pub struct DispatchView {
    pub jobs: Seq<Job>,
    pub phases: Seq<JobPhase>,
}

/// Whether every job has ended.
pub open spec fn all_finished(phases: Seq<JobPhase>) -> bool {
    forall|i: int| 0 <= i < phases.len() ==> #[trigger] phases[i] is Finished
}

/// The number of jobs that have not ended.
pub open spec fn unfinished(phases: Seq<JobPhase>) -> nat
    decreases phases.len(),
{
    if phases.len() == 0 {
        0
    } else {
        unfinished(phases.drop_last()) + if phases.last() is Finished {
            0nat
        } else {
            1nat
        }
    }
}

/// The dispatcher before any task has started.
pub open spec fn initial(jobs: Seq<Job>) -> DispatchView {
    DispatchView { jobs, phases: Seq::new(jobs.len(), |i: int| JobPhase::Pending) }
}

/// The dispatcher's decision: the state after `event`, and what to do.
///
/// A start puts a pending job to sleep for the time left until its instant,
/// or sends at once if none is left. Waking sends. The end of a send is
/// recorded, whatever the outcome, and is answered with `Done` if no job is
/// out any more. Every other event is rejected and changes nothing.
pub open spec fn step_of(before: DispatchView, event: Event) -> (DispatchView, Action) {
    let job = event.job();
    if job >= before.phases.len() || job >= before.jobs.len() {
        (before, Action::Rejected)
    } else {
        match (before.phases[job as int], event) {
            (JobPhase::Pending, Event::Started { now, .. }) => {
                if before.jobs[job as int].fire_instant > now {
                    (
                        DispatchView {
                            jobs: before.jobs,
                            phases: before.phases.update(job as int, JobPhase::Sleeping),
                        },
                        Action::Sleep {
                            job,
                            millis: sleep_for(
                                before.jobs[job as int].fire_instant as int,
                                now as int,
                            ) as u64,
                        },
                    )
                } else {
                    (
                        DispatchView {
                            jobs: before.jobs,
                            phases: before.phases.update(job as int, JobPhase::Sending),
                        },
                        Action::Send { job },
                    )
                }
            },
            (JobPhase::Sleeping, Event::Woke { .. }) => (
                DispatchView {
                    jobs: before.jobs,
                    phases: before.phases.update(job as int, JobPhase::Sending),
                },
                Action::Send { job },
            ),
            (JobPhase::Sending, Event::Completed { outcome, .. }) => {
                let phases = before.phases.update(job as int, JobPhase::Finished { outcome });
                (
                    DispatchView { jobs: before.jobs, phases },
                    if all_finished(phases) {
                        Action::Done
                    } else {
                        Action::Wait
                    },
                )
            },
            _ => (before, Action::Rejected),
        }
    }
}

proof fn lemma_unfinished_bound(phases: Seq<JobPhase>)
    ensures
        unfinished(phases) <= phases.len(),
        unfinished(phases) == 0 <==> all_finished(phases),
    decreases phases.len(),
{
    if phases.len() > 0 {
        let shorter = phases.drop_last();
        lemma_unfinished_bound(shorter);
        if unfinished(phases) == 0 {
            assert forall|i: int| 0 <= i < phases.len() implies #[trigger] phases[i] is Finished by {
                if i < shorter.len() {
                    assert(shorter[i] is Finished);
                }
            }
        }
    }
}

proof fn lemma_unfinished_update(phases: Seq<JobPhase>, job: int, phase: JobPhase)
    requires
        0 <= job < phases.len(),
    ensures
        unfinished(phases.update(job, phase)) + (if phases[job] is Finished {
            0nat
        } else {
            1nat
        }) == unfinished(phases) + (if phase is Finished {
            0nat
        } else {
            1nat
        }),
    decreases phases.len(),
{
    let after = phases.update(job, phase);
    if job == phases.len() - 1 {
        assert(after.drop_last() =~= phases.drop_last());
    } else {
        assert(after.drop_last() =~= phases.drop_last().update(job, phase));
        lemma_unfinished_update(phases.drop_last(), job, phase);
    }
}

/// Puts `job` into `phase` and keeps the count of jobs still out true.
fn advance(phases: &mut Vec<JobPhase>, remaining: &mut usize, job: usize, phase: JobPhase)
    requires
        job < old(phases)@.len(),
        !(old(phases)@[job as int] is Finished),
        *old(remaining) == unfinished(old(phases)@),
    ensures
        final(phases)@ == old(phases)@.update(job as int, phase),
        *final(remaining) == unfinished(final(phases)@),
{
    proof {
        lemma_unfinished_update(phases@, job as int, phase);
        lemma_unfinished_bound(phases@);
    }
    let ends: bool = match &phase {
        JobPhase::Finished { .. } => true,
        _ => false,
    };
    phases.set(job, phase);
    if ends {
        *remaining = *remaining - 1;
    }
}

/// The state of one run: the jobs, where each stands, and how many are out.
pub struct Dispatcher {
    jobs: Vec<Job>,
    phases: Vec<JobPhase>,
    remaining: usize,
}

impl View for Dispatcher {
    type V = DispatchView;

    closed spec fn view(&self) -> DispatchView {
        DispatchView { jobs: self.jobs@, phases: self.phases@ }
    }
}

impl Dispatcher {
    /// Every job has a phase, and the count of jobs still out is true.
    #[verifier::type_invariant]
    spec fn well_formed(self) -> bool {
        &&& self.phases@.len() == self.jobs@.len()
        &&& self.remaining == unfinished(self.phases@)
    }

    /// A dispatcher for `jobs`, none of them started.
    pub fn new(jobs: Vec<Job>) -> (dispatcher: Dispatcher)
        ensures
            dispatcher@ == initial(jobs@),
    {
        let n: usize = jobs.len();
        let mut phases: Vec<JobPhase> = Vec::new();
        let mut i: usize = 0;
        while i < n
            invariant
                i <= n,
                phases@.len() == i,
                unfinished(phases@) == i,
                forall|k: int| 0 <= k < i ==> #[trigger] phases@[k] == JobPhase::Pending,
            decreases n - i,
        {
            let ghost shorter = phases@;
            phases.push(JobPhase::Pending);
            assert(phases@.drop_last() =~= shorter);
            i += 1;
        }
        assert(phases@ =~= Seq::new(jobs@.len(), |i: int| JobPhase::Pending));
        Dispatcher { jobs, phases, remaining: n }
    }

    /// The number of jobs.
    pub fn len(&self) -> (n: usize)
        ensures
            n == self@.jobs.len(),
            n == self@.phases.len(),
    {
        proof {
            use_type_invariant(self);
        }
        self.jobs.len()
    }

    /// The job with the given number, if there is one.
    pub fn job(&self, job: usize) -> (found: Option<&Job>)
        ensures
            job < self@.jobs.len() ==> found == Some(&self@.jobs[job as int]),
            job >= self@.jobs.len() ==> found is None,
    {
        if job < self.jobs.len() {
            Some(&self.jobs[job])
        } else {
            None
        }
    }

    /// How the given job ended, if it has.
    pub fn outcome(&self, job: usize) -> (found: Option<&JobOutcome>)
        ensures
            match found {
                Some(outcome) => job < self@.phases.len() && self@.phases[job as int]
                    == (JobPhase::Finished { outcome: *outcome }),
                None => job >= self@.phases.len() || !(self@.phases[job as int] is Finished),
            },
    {
        if job < self.phases.len() {
            match &self.phases[job] {
                JobPhase::Finished { outcome } => Some(outcome),
                _ => None,
            }
        } else {
            None
        }
    }

    /// The number of jobs that have not ended.
    pub fn remaining(&self) -> (count: usize)
        ensures
            count == unfinished(self@.phases),
    {
        proof {
            use_type_invariant(self);
        }
        self.remaining
    }

    /// Whether the run is over: every job has ended, well or badly.
    pub fn is_complete(&self) -> (over: bool)
        ensures
            over == all_finished(self@.phases),
    {
        proof {
            use_type_invariant(self);
            lemma_unfinished_bound(self.phases@);
        }
        self.remaining == 0
    }

    /// Takes in what happened to a job and says what to do next.
    pub fn step(&mut self, event: Event) -> (action: Action)
        ensures
            (final(self)@, action) == step_of(old(self)@, event),
    {
        proof {
            use_type_invariant(&*self);
        }
        let job: usize = match &event {
            Event::Started { job, .. } => *job,
            Event::Woke { job } => *job,
            Event::Completed { job, .. } => *job,
        };
        if job >= self.phases.len() {
            return Action::Rejected;
        }
        let fire_instant: i64 = self.jobs[job].fire_instant;
        let (phase, action): (JobPhase, Action) = match (&self.phases[job], event) {
            (JobPhase::Pending, Event::Started { now, .. }) => {
                if fire_instant > now {
                    (JobPhase::Sleeping, Action::Sleep { job, millis: time_to_sleep(fire_instant, now) })
                } else {
                    (JobPhase::Sending, Action::Send { job })
                }
            },
            (JobPhase::Sleeping, Event::Woke { .. }) => (JobPhase::Sending, Action::Send { job }),
            (JobPhase::Sending, Event::Completed { outcome, .. }) => {
                proof {
                    lemma_unfinished_update(
                        self.phases@,
                        job as int,
                        JobPhase::Finished { outcome },
                    );
                    lemma_unfinished_bound(
                        self.phases@.update(job as int, JobPhase::Finished { outcome }),
                    );
                }
                (
                    JobPhase::Finished { outcome },
                    if self.remaining == 1 {
                        Action::Done
                    } else {
                        Action::Wait
                    },
                )
            },
            _ => {
                return Action::Rejected;
            },
        };
        // The phase and the count change together: the dispatcher is taken
        // apart and put together again, so that it is never half changed.
        let mut taken: Dispatcher = Dispatcher { jobs: Vec::new(), phases: Vec::new(), remaining: 0 };
        std::mem::swap(self, &mut taken);
        let Dispatcher { jobs, mut phases, mut remaining } = taken;
        advance(&mut phases, &mut remaining, job, phase);
        *self = Dispatcher { jobs, phases, remaining };
        action
    }
}

/// The state reached from `start` after `events`, taken in order.
pub open spec fn run(start: DispatchView, events: Seq<Event>) -> DispatchView
    decreases events.len(),
{
    if events.len() == 0 {
        start
    } else {
        step_of(run(start, events.drop_last()), events.last()).0
    }
}

/// The answer to the last of `events`, which must not be empty.
pub open spec fn last_action(start: DispatchView, events: Seq<Event>) -> Action {
    step_of(run(start, events.drop_last()), events.last()).1
}

/// How often the dispatcher has asked for `job` to be sent while it took in
/// `events`, starting from `start`.
pub open spec fn sends(start: DispatchView, events: Seq<Event>, job: usize) -> nat
    decreases events.len(),
{
    if events.len() == 0 {
        0
    } else {
        sends(start, events.drop_last(), job) + if last_action(start, events) == (Action::Send {
            job,
        }) {
            1nat
        } else {
            0nat
        }
    }
}

/// An event changes nothing but the phase of the job it is about: the jobs
/// stay as they are, and so does every other job's phase. One job's failure
/// cannot reach another job.
pub proof fn lemma_step_touches_one_job(before: DispatchView, event: Event, other: int)
    requires
        0 <= other < before.phases.len(),
        other != event.job(),
    ensures
        step_of(before, event).0.jobs == before.jobs,
        step_of(before, event).0.phases.len() == before.phases.len(),
        step_of(before, event).0.phases[other] == before.phases[other],
{
}

/// The end of a send is taken in alike whether it went well or badly: the
/// job is finished, the answer is the same, and it is `Done` exactly if no
/// other job is still out.
pub proof fn lemma_failure_completes(
    before: DispatchView,
    job: usize,
    response: String,
    error: SMSError,
)
    requires
        job < before.phases.len(),
        job < before.jobs.len(),
        before.phases[job as int] is Sending,
    ensures
        ({
            let sent = step_of(
                before,
                Event::Completed { job, outcome: JobOutcome::Delivered { response } },
            );
            let failed = step_of(
                before,
                Event::Completed { job, outcome: JobOutcome::Failed { error } },
            );
            &&& failed.0.phases[job as int] == (JobPhase::Finished {
                outcome: JobOutcome::Failed { error },
            })
            &&& sent.0.phases[job as int] == (JobPhase::Finished {
                outcome: JobOutcome::Delivered { response },
            })
            &&& failed.1 == sent.1
            &&& failed.1 == Action::Done <==> (forall|i: int|
                0 <= i < before.phases.len() && i != job ==> #[trigger] before.phases[i] is Finished)
            &&& failed.1 != Action::Done ==> failed.1 == Action::Wait
        }),
{
    let good = JobPhase::Finished { outcome: JobOutcome::Delivered { response } };
    let bad = JobPhase::Finished { outcome: JobOutcome::Failed { error } };
    let sent = before.phases.update(job as int, good);
    let failed = before.phases.update(job as int, bad);
    if all_finished(sent) {
        assert forall|i: int| 0 <= i < before.phases.len() && i != job implies #[trigger] before.phases[i] is Finished by {
            assert(sent[i] is Finished);
        }
    }
    if all_finished(failed) {
        assert forall|i: int| 0 <= i < before.phases.len() && i != job implies #[trigger] before.phases[i] is Finished by {
            assert(failed[i] is Finished);
        }
    }
}

/// From the first event to the last, every job is asked to be sent at most
/// once: once it is on its way or has ended, never before, and never again.
pub proof fn lemma_each_job_sent_once(jobs: Seq<Job>, events: Seq<Event>, job: usize)
    requires
        job < jobs.len(),
    ensures
        run(initial(jobs), events).jobs == jobs,
        run(initial(jobs), events).phases.len() == jobs.len(),
        sends(initial(jobs), events, job) == (if run(initial(jobs), events).phases[job as int] is Sending
            || run(initial(jobs), events).phases[job as int] is Finished {
            1nat
        } else {
            0nat
        }),
    decreases events.len(),
{
    if events.len() > 0 {
        lemma_each_job_sent_once(jobs, events.drop_last(), job);
        let before = run(initial(jobs), events.drop_last());
        if events.last().job() != job {
            if events.last().job() < before.phases.len() {
                lemma_step_touches_one_job(before, events.last(), job as int);
            }
        }
    }
}

/// The run is reported over only when it is: at `Done` every job has ended,
/// and every job was asked to be sent exactly once on the way there.
pub proof fn lemma_done_after_every_send(jobs: Seq<Job>, events: Seq<Event>)
    requires
        events.len() > 0,
        last_action(initial(jobs), events) == Action::Done,
    ensures
        all_finished(run(initial(jobs), events).phases),
        forall|job: usize| job < jobs.len() ==> #[trigger] sends(initial(jobs), events, job) == 1,
{
    assert forall|job: usize| job < jobs.len() implies #[trigger] sends(
        initial(jobs),
        events,
        job,
    ) == 1 by {
        lemma_each_job_sent_once(jobs, events, job);
    }
}

/// How far a job has come: a job only ever moves to a later phase.
pub open spec fn progress(phase: JobPhase) -> nat {
    match phase {
        JobPhase::Pending => 0,
        JobPhase::Sleeping => 1,
        JobPhase::Sending => 2,
        JobPhase::Finished { .. } => 3,
    }
}

/// No event takes a job back: its phase stays or advances. A send is asked
/// for exactly when the job enters the phase of sending, and a job that has
/// ended keeps the outcome it ended with.
pub proof fn lemma_phases_only_advance(before: DispatchView, event: Event, job: usize)
    requires
        job < before.phases.len(),
    ensures
        progress(before.phases[job as int]) <= progress(
            step_of(before, event).0.phases[job as int],
        ),
        before.phases[job as int] is Finished ==> step_of(before, event).0.phases[job as int]
            == before.phases[job as int],
        step_of(before, event).1 == (Action::Send { job }) <==> job == event.job() && job
            < before.jobs.len() && !(before.phases[job as int] is Sending) && step_of(
            before,
            event,
        ).0.phases[job as int] is Sending,
{
}

/// Once the run is over it stays over: every further event is rejected and
/// changes nothing, so `Done` is answered at most once.
pub proof fn lemma_nothing_after_the_end(before: DispatchView, event: Event)
    requires
        all_finished(before.phases),
    ensures
        step_of(before, event) == (before, Action::Rejected),
{
}

/// How a send ended, told from what came back: a failure on the way, or in
/// reading the answer, is the outcome as it is; an answer in which the
/// provider reports a rejection fails with that report; any other answer is
/// a delivery.
pub open spec fn outcome_of(
    response: Result<String, SMSError>,
    decoded: Result<(Option<String>, Option<String>), SMSError>,
) -> JobOutcome {
    match response {
        Err(error) => JobOutcome::Failed { error },
        Ok(response) => match decoded {
            Err(error) => JobOutcome::Failed { error },
            Ok((error_code, error_message)) => match rejection(error_code, error_message) {
                Some(error) => JobOutcome::Failed { error },
                None => JobOutcome::Delivered { response },
            },
        },
    }
}

/// Settles how a send ended. `response` is what sending came back with;
/// `decoded` is what reading the answer, if there was one, came to: the
/// error code and the error message that the provider put into it, or the
/// reason why it could not be read.
pub fn settle_outcome(
    response: Result<String, SMSError>,
    decoded: Result<(Option<String>, Option<String>), SMSError>,
) -> (outcome: JobOutcome)
    ensures
        outcome == outcome_of(response, decoded),
{
    match response {
        Err(error) => JobOutcome::Failed { error },
        Ok(response) => match decoded {
            Err(error) => JobOutcome::Failed { error },
            Ok((error_code, error_message)) => match rejection_of(error_code, error_message) {
                Some(error) => JobOutcome::Failed { error },
                None => JobOutcome::Delivered { response },
            },
        },
    }
}

} // verus!
