//! A plan while it is applied: which effect comes next, and what its journal
//! holds before and after.
use super::apply::{
    accept_reply, action_of, all_complete, applicable, begin_step, begun, field_name, finish,
    follow, found_stale, is_committed, known_field, preflight, preflight_refusal, progress_of,
    reached, resume, same_plan, session_progress, session_text, settle_policy, tells, Action, Current,
    Followed, Moved,
};
use super::facts::{Change, ChangeModel, DeploymentPlan, PlanModel};
use super::journal::{
    journal_decoded, phase_of, phases_only_advance, recorded, recording_is_local, Journal,
    JournalModel, Outcome, OutcomeModel, Phase,
};
use super::plan::{a_plan_that_fits_is_indexed, artifact, decoded, refusal_of, Refusal, MAX_PLAN_BYTES};
use super::{survive_code, DeploymentError};
use crate::codec::{models, Wire};
use crate::hashing::blake3_hash;
use vstd::prelude::*;

verus! {

/// What comes next while a plan is applied.
#[derive(Debug, Clone, Copy, PartialEq, Eq)]
pub enum Next {
    /// Keep the plan and its new journal.
    WriteBoth,
    /// Go on: the plan and its journal are kept already.
    Continue,
    /// Make the journal durable.
    WriteJournal,
    /// Commit the requested policy over this revision.
    CommitPolicy { from_revision: u64 },
    /// Read the committed policy back.
    ReadPolicy,
    /// Request the session's placement.
    RequestPlacement { tenant: [u8; 16], session: [u8; 16], survive: u8, max_failures: u16 },
    /// Wait for the poll interval, then observe again.
    Wait,
    /// Every step was tried; the journal tells how far each came.
    Report,
    /// The plan was found stale, as its journal tells.
    Stale,
}

/// What was done.
#[derive(Debug, Clone, PartialEq, Eq)]
pub enum Event {
    /// What was asked for, with nothing to tell.
    Done,
    /// The policy as it is committed.
    Policy { revision: u64, hash: [u8; 32] },
    /// The operation a placement request was answered with.
    Replied { operation: [u8; 16] },
    /// The facts as they are now.
    Observed(Current),
}

/// Where an application is.
#[derive(Debug, Clone, Copy, PartialEq, Eq, Structural)]
pub enum At {
    /// Its files are kept.
    Opening,
    /// It is taken up again.
    Resuming,
    /// The step is recorded as next.
    Prepared,
    /// Its policy is committed.
    Committing,
    /// The committed policy is recorded.
    Committed,
    /// The committed policy is read back.
    Reading,
    /// Its placement is requested.
    Requesting,
    /// The answered request is recorded.
    Accepted,
    /// What the directory shows is recorded; whether to look again.
    Looked { again: bool },
    /// The directory is given time.
    Waiting,
    /// The step's end is recorded.
    Moved,
    /// The outcome is recorded.
    Closing,
    /// What was found stale is recorded.
    Spoiled,
    Finished,
    Refused,
}

/// An application as its plan sees it.
pub struct Running {
    pub journal: JournalModel,
    pub index: int,
    pub at: At,
    pub current: Current,
}

/// A plan while it is applied.
#[derive(Debug, Clone, PartialEq, Eq)]
pub struct Application {
    pub journal: Journal,
    pub index: u32,
    pub at: At,
    pub current: Current,
}

impl View for Application {
    type V = Running;

    open spec fn view(&self) -> Running {
        Running {
            journal: self.journal@,
            index: self.index as int,
            at: self.at,
            current: self.current,
        }
    }
}

impl Running {
    /// The application with a step's phase recorded.
    pub open spec fn with(
        self,
        phase: Phase,
        operation: Option<[u8; 16]>,
        now: u64,
        at: At,
    ) -> Running {
        Running {
            journal: JournalModel {
                steps: recorded(
                    self.journal.steps,
                    self.index as u32,
                    phase,
                    operation,
                    now,
                )->0,
                ..self.journal
            },
            at,
            ..self
        }
    }

    /// The application as it closes: complete where every step is.
    pub open spec fn closed(self, n: int) -> Running {
        Running {
            journal: JournalModel {
                outcome: if all_complete(self.journal.steps, n) {
                    OutcomeModel::Complete
                } else {
                    OutcomeModel::InProgress
                },
                ..self.journal
            },
            at: At::Closing,
            ..self
        }
    }

    /// The application of a plan found stale at its step.
    pub open spec fn spoiled(self, moved: Moved) -> Running {
        Running {
            journal: found_stale(self.journal, self.index as u32, moved),
            at: At::Spoiled,
            ..self
        }
    }

    /// The phase the directory shows for the step's session.
    pub open spec fn shown(self, change: ChangeModel) -> Phase {
        match change {
            ChangeModel::PlanSession { tenant, session, durability, operation, expected, .. } => {
                progress_of(
                    self.current.session(tenant, session),
                    operation,
                    durability,
                    expected.placement,
                )
            },
            _ => Phase::Complete,
        }
    }

    /// The application at its step or, where that is complete, at the next
    /// that is not: nothing is sent twice. `expired` is whether the caller's
    /// time is up.
    pub open spec fn entered(self, changes: Seq<ChangeModel>, expired: bool, now: u64) -> Running
        decreases changes.len() - self.index, 0nat,
    {
        if self.index < 0 || self.index >= changes.len() {
            self.closed(changes.len() as int)
        } else {
            let change = changes[self.index];
            let steps = self.journal.steps;
            let index = self.index as u32;
            let journal = JournalModel { steps: begun(change, steps, index, now), ..self.journal };
            match action_of(change, steps, index) {
                Action::Done => if phase_of(steps, index) == Some(Phase::Complete) {
                    Running { index: self.index + 1, ..self }.entered(changes, expired, now)
                } else {
                    Running { journal, at: At::Moved, ..self }
                },
                Action::CommitPolicy { .. } => Running { journal, at: At::Prepared, ..self },
                Action::RequestPlacement { .. } => Running { journal, at: At::Prepared, ..self },
                Action::ReadPolicy => Running { at: At::Reading, ..self },
                Action::Follow => {
                    let shown = self.shown(change);
                    let again = shown != Phase::Complete && !expired;
                    if shown.rank() > reached(steps, index).rank() {
                        self.with(shown, None, now, At::Looked { again })
                    } else if again {
                        Running { at: At::Waiting, ..self }
                    } else {
                        Running { index: self.index + 1, ..self }.entered(changes, expired, now)
                    }
                },
            }
        }
    }

    /// The application at the step after its own.
    pub open spec fn moved(self, changes: Seq<ChangeModel>, expired: bool, now: u64) -> Running {
        Running { index: self.index + 1, ..self }.entered(changes, expired, now)
    }

    /// The application after an event. One it does not wait for changes
    /// nothing.
    pub open spec fn after(
        self,
        changes: Seq<ChangeModel>,
        policy_hash: [u8; 32],
        event: Event,
        expired: bool,
        now: u64,
    ) -> Running {
        match (self.at, event) {
            (At::Opening, Event::Done) => self.entered(changes, expired, now),
            (At::Resuming, Event::Done) => self.entered(changes, expired, now),
            (At::Prepared, Event::Done) => Running {
                at: if changes[self.index] is CommitPolicy {
                    At::Committing
                } else {
                    At::Requesting
                },
                ..self
            },
            (At::Committing, Event::Done) => self.with(
                Phase::Committed,
                None,
                now,
                At::Committed,
            ),
            (At::Committed, Event::Done) => Running { at: At::Reading, ..self },
            (At::Reading, Event::Policy { revision, hash }) => {
                if changes[self.index] matches ChangeModel::CommitPolicy { to_revision, .. }
                    && revision == to_revision && hash == policy_hash {
                    self.with(Phase::Complete, None, now, At::Moved)
                } else {
                    self.spoiled(Moved { subject: "policy"@, field: "committed_revision"@ })
                }
            },
            (At::Requesting, Event::Replied { operation: replied }) => match changes[self.index] {
                ChangeModel::PlanSession { tenant, session, operation, .. } => if replied
                    == operation {
                    self.with(Phase::Committed, Some(operation), now, At::Accepted)
                } else {
                    self.spoiled(
                        Moved { subject: session_text(tenant, session), field: "operation"@ },
                    )
                },
                _ => self,
            },
            (At::Accepted, Event::Done) => self.entered(changes, expired, now),
            (At::Looked { again }, Event::Done) => if again {
                Running { at: At::Waiting, ..self }
            } else {
                self.moved(changes, expired, now)
            },
            (At::Waiting, Event::Observed(current)) => Running { current, ..self }.entered(
                changes,
                expired,
                now,
            ),
            (At::Moved, Event::Done) => self.moved(changes, expired, now),
            (At::Closing, Event::Done) => Running { at: At::Finished, ..self },
            (At::Spoiled, Event::Done) => Running { at: At::Refused, ..self },
            _ => self,
        }
    }

    /// What comes next.
    pub open spec fn next(self, changes: Seq<ChangeModel>) -> Next {
        match self.at {
            At::Opening => Next::WriteBoth,
            At::Resuming => Next::Continue,
            At::Prepared | At::Committed | At::Accepted | At::Moved | At::Closing | At::Spoiled
            => Next::WriteJournal,
            At::Looked { .. } => Next::WriteJournal,
            At::Committing => match changes[self.index] {
                ChangeModel::CommitPolicy { from_revision, .. } => Next::CommitPolicy {
                    from_revision,
                },
                _ => Next::Stale,
            },
            At::Requesting => match changes[self.index] {
                ChangeModel::PlanSession { tenant, session, durability, .. } => {
                    Next::RequestPlacement {
                        tenant,
                        session,
                        survive: super::breadth(durability.survive) as u8,
                        max_failures: durability.max_failures,
                    }
                },
                _ => Next::Stale,
            },
            At::Reading => Next::ReadPolicy,
            At::Waiting => Next::Wait,
            At::Finished => Next::Report,
            At::Refused => Next::Stale,
        }
    }

    /// What holds of every application: it is at a step of its plan, of the
    /// kind and at the phase that its place says.
    pub open spec fn valid(self, changes: Seq<ChangeModel>) -> bool {
        &&& self.current.well_formed()
        &&& 0 <= self.index <= changes.len() <= u32::MAX
        &&& match self.at {
            At::Prepared => self.index < changes.len() && (changes[self.index] is CommitPolicy
                || changes[self.index] is PlanSession) && phase_of(
                self.journal.steps,
                self.index as u32,
            ) == Some(Phase::Prepared),
            At::Committing => self.index < changes.len() && changes[self.index] is CommitPolicy
                && phase_of(self.journal.steps, self.index as u32) == Some(Phase::Prepared),
            At::Committed | At::Reading => self.index < changes.len()
                && changes[self.index] is CommitPolicy && is_committed(
                self.journal.steps,
                self.index as u32,
            ),
            At::Requesting => self.index < changes.len() && changes[self.index] is PlanSession
                && phase_of(self.journal.steps, self.index as u32) == Some(Phase::Prepared),
            At::Accepted | At::Waiting => self.index < changes.len()
                && changes[self.index] is PlanSession && is_committed(
                self.journal.steps,
                self.index as u32,
            ),
            At::Looked { .. } => self.index < changes.len() && changes[self.index] is PlanSession
                && is_committed(self.journal.steps, self.index as u32),
            At::Moved => self.index < changes.len() && phase_of(
                self.journal.steps,
                self.index as u32,
            ) == Some(Phase::Complete),
            At::Spoiled | At::Refused => self.journal.outcome is Stale,
            At::Closing | At::Finished => self.index == changes.len() && self.journal.outcome == (
            if all_complete(self.journal.steps, changes.len() as int) {
                OutcomeModel::Complete
            } else {
                OutcomeModel::InProgress
            }),
            At::Opening | At::Resuming => self.index == 0,
        }
    }
}

/// Entering a step leaves the application at a step of its plan.
proof fn lemma_entered(run: Running, changes: Seq<ChangeModel>, expired: bool, now: u64)
    requires
        run.current.well_formed(),
        0 <= run.index <= changes.len() <= u32::MAX,
    ensures
        run.entered(changes, expired, now).valid(changes),
    decreases changes.len() - run.index,
{
    if run.index < changes.len() {
        let change = changes[run.index];
        let steps = run.journal.steps;
        let index = run.index as u32;
        match action_of(change, steps, index) {
            Action::Done => if phase_of(steps, index) == Some(Phase::Complete) {
                lemma_entered(Running { index: run.index + 1, ..run }, changes, expired, now);
            } else {
                recording_is_local(steps, index, Phase::Complete, None, now, index);
            },
            Action::CommitPolicy { .. } => {
                recording_is_local(steps, index, Phase::Prepared, None, now, index);
            },
            Action::RequestPlacement { .. } => {
                recording_is_local(steps, index, Phase::Prepared, None, now, index);
            },
            Action::ReadPolicy => {},
            Action::Follow => {
                let shown = run.shown(change);
                if shown.rank() > reached(steps, index).rank() {
                    recording_is_local(steps, index, shown, None, now, index);
                } else if shown != Phase::Complete && !expired {
                } else {
                    lemma_entered(Running { index: run.index + 1, ..run }, changes, expired, now);
                }
            },
        }
    }
}

/// An application stays at a step of its plan, whatever comes.
pub proof fn an_application_stays_valid(
    run: Running,
    changes: Seq<ChangeModel>,
    policy_hash: [u8; 32],
    event: Event,
    expired: bool,
    now: u64,
)
    requires
        run.valid(changes),
        event matches Event::Observed(current) ==> current.well_formed(),
    ensures
        run.after(changes, policy_hash, event, expired, now).valid(changes),
{
    let steps = run.journal.steps;
    let index = run.index as u32;
    match (run.at, event) {
        (At::Opening, Event::Done) => lemma_entered(run, changes, expired, now),
        (At::Resuming, Event::Done) => lemma_entered(run, changes, expired, now),
        (At::Accepted, Event::Done) => lemma_entered(run, changes, expired, now),
        (At::Moved, Event::Done) => lemma_entered(
            Running { index: run.index + 1, ..run },
            changes,
            expired,
            now,
        ),
        (At::Looked { again }, Event::Done) => if !again {
            lemma_entered(Running { index: run.index + 1, ..run }, changes, expired, now);
        },
        (At::Waiting, Event::Observed(current)) => lemma_entered(
            Running { current, ..run },
            changes,
            expired,
            now,
        ),
        (At::Committing, Event::Done) => recording_is_local(
            steps,
            index,
            Phase::Committed,
            None,
            now,
            index,
        ),
        (At::Reading, Event::Policy { .. }) => recording_is_local(
            steps,
            index,
            Phase::Complete,
            None,
            now,
            index,
        ),
        (At::Requesting, Event::Replied { operation }) => recording_is_local(
            steps,
            index,
            Phase::Committed,
            Some(operation),
            now,
            index,
        ),
        _ => {},
    }
}

/// The journal a plan begins with.
pub open spec fn fresh_journal(plan: DeploymentPlan, now: u64) -> JournalModel {
    JournalModel {
        schema: super::journal::JOURNAL_SCHEMA,
        plan_id: plan.plan_id,
        plan_hash: blake3_hash(artifact(plan.model())),
        started_ms: now,
        steps: Seq::empty(),
        outcome: OutcomeModel::InProgress,
    }
}

/// Whether an error tells why a plan is not applied: the first of what stands
/// against it.
pub open spec fn refused(
    plan: DeploymentPlan,
    cluster: [u8; 16],
    current: Current,
    existing: Option<Seq<u8>>,
    error: DeploymentError,
) -> bool {
    let changes = models(plan.body.changes@);
    let foreign = refusal_of(error) == Some(Refusal::Corrupt("apply journal names another plan"@));
    if plan.body.deployment.cluster != cluster {
        error is WrongDeployment
    } else if plan.body.blocked@.len() > 0 {
        error matches DeploymentError::Blocked(count) && count == plan.body.blocked@.len()
    } else {
        match existing {
            None => if artifact(plan.model()).len() > MAX_PLAN_BYTES {
                error is Capacity
            } else {
                preflight_refusal(changes, fresh_journal(plan, 0), current) matches Some(moved)
                    && tells(error, moved)
            },
            Some(bytes) => match journal_decoded(bytes) {
                Err(refusal) => refusal_of(error) == Some(refusal),
                Ok(found) => if artifact(plan.model()).len() > MAX_PLAN_BYTES {
                    error is Capacity
                } else if preflight_refusal(changes, found, current) is Some {
                    tells(error, preflight_refusal(changes, found, current)->0)
                } else {
                    foreign && (found.plan_id != plan.plan_id || found.plan_hash != blake3_hash(
                        artifact(plan.model()),
                    ))
                },
            },
        }
    }
}

/// Whether a plan is applied: it is this cluster's and nothing blocks it, what
/// is kept of it is its own, and no fact moved under a step that is not
/// committed.
pub open spec fn applies(
    plan: DeploymentPlan,
    cluster: [u8; 16],
    current: Current,
    existing: Option<Seq<u8>>,
) -> bool {
    let changes = models(plan.body.changes@);
    &&& plan.body.deployment.cluster == cluster
    &&& plan.body.blocked@.len() == 0
    &&& artifact(plan.model()).len() <= MAX_PLAN_BYTES
    &&& match existing {
        None => preflight_refusal(changes, fresh_journal(plan, 0), current) is None,
        Some(bytes) => journal_decoded(bytes) matches Ok(found) && found.plan_id == plan.plan_id
            && found.plan_hash == blake3_hash(artifact(plan.model())) && preflight_refusal(
            changes,
            found,
            current,
        ) is None,
    }
}

impl Application {
    /// Begin to apply a plan on a cluster: it is checked against the facts and
    /// against what its journal already holds, and nothing is written before
    /// it passed. `existing` is the journal kept beside it.
    pub fn start(
        plan: &DeploymentPlan,
        cluster: &[u8; 16],
        current: Current,
        existing: Option<&[u8]>,
        now: u64,
    ) -> (started: Result<(Self, Next), DeploymentError>)
        requires
            current.well_formed(),
        ensures
            ({
                let kept = match existing {
                    None => None,
                    Some(bytes) => Some(bytes@),
                };
                &&& started is Ok <==> applies(*plan, *cluster, current, kept)
                &&& started matches Err(error) ==> refused(*plan, *cluster, current, kept, error)
                &&& started matches Ok((run, next)) ==> run@ == (Running {
                    journal: match kept {
                        None => fresh_journal(*plan, now),
                        Some(bytes) => journal_decoded(bytes)->Ok_0,
                    },
                    index: 0,
                    at: if kept is None {
                        At::Opening
                    } else {
                        At::Resuming
                    },
                    current,
                }) && next == run@.next(models(plan.body.changes@)) && run@.valid(
                    models(plan.body.changes@),
                )
            }),
    {
        applicable(plan, cluster)?;
        let known = match existing {
            Some(bytes) => {
                let known = Journal::decode(bytes)?;
                let fresh = Journal::new(plan, 0);
                if fresh.is_err() {
                    return Err(DeploymentError::Capacity);
                }
                known
            },
            None => Journal::new(plan, 0)?,
        };
        proof {
            a_plan_that_fits_is_indexed(plan.model());
        }
        preflight(plan, &known, &current)?;
        let (journal, fresh) = resume(plan, existing, now)?;
        let (at, next) = if fresh {
            (At::Opening, Next::WriteBoth)
        } else {
            (At::Resuming, Next::Continue)
        };
        Ok((Application { journal, index: 0, at, current }, next))
    }

    /// Enter the application's step or, where that is complete, the next that
    /// is not.
    fn enter(&mut self, plan: &DeploymentPlan, expired: bool, now: u64)
        requires
            old(self).current.well_formed(),
            old(self).index <= plan.body.changes@.len() <= u32::MAX,
        ensures
            final(self)@ == old(self)@.entered(models(plan.body.changes@), expired, now),
    {
        let ghost changes = models(plan.body.changes@);
        let count: u32 = plan.body.changes.len() as u32;
        while self.index < count
            invariant
                changes == models(plan.body.changes@),
                count == changes.len(),
                self.index <= count,
                self.current.well_formed(),
                self@.entered(changes, expired, now) == old(self)@.entered(changes, expired, now),
            decreases count - self.index,
        {
            let ghost before = self@;
            let change = &plan.body.changes[self.index as usize];
            assert(changes[before.index] == change@);
            let (action, changed) = begin_step(&mut self.journal, self.index, change, now);
            match action {
                Action::Done => {
                    if changed {
                        self.at = At::Moved;
                        return;
                    }
                },
                Action::CommitPolicy { .. } => {
                    self.at = At::Prepared;
                    return;
                },
                Action::RequestPlacement { .. } => {
                    self.at = At::Prepared;
                    return;
                },
                Action::ReadPolicy => {
                    self.at = At::Reading;
                    return;
                },
                Action::Follow => {
                    let shown = match change {
                        Change::PlanSession {
                            tenant,
                            session,
                            durability,
                            operation,
                            expected,
                            ..
                        } => session_progress(
                            self.current.find(tenant, session),
                            *operation,
                            *durability,
                            expected.placement,
                        ),
                        _ => Phase::Complete,
                    };
                    let (followed, advanced) = follow(
                        &mut self.journal,
                        self.index,
                        shown,
                        expired,
                        now,
                    );
                    let again = match followed {
                        Followed::Wait => true,
                        _ => false,
                    };
                    if advanced {
                        self.at = At::Looked { again };
                        return;
                    }
                    if again {
                        self.at = At::Waiting;
                        return;
                    }
                },
            }
            self.index = self.index + 1;
        }
        finish(&mut self.journal, count);
        self.at = At::Closing;
    }

    /// What comes next.
    fn awaited(&self, plan: &DeploymentPlan) -> (next: Next)
        requires
            self@.valid(models(plan.body.changes@)),
        ensures
            next == self@.next(models(plan.body.changes@)),
    {
        let ghost changes = models(plan.body.changes@);
        match self.at {
            At::Opening => Next::WriteBoth,
            At::Resuming => Next::Continue,
            At::Prepared
            | At::Committed
            | At::Accepted
            | At::Looked { .. }
            | At::Moved
            | At::Closing
            | At::Spoiled => Next::WriteJournal,
            At::Committing => {
                assert(changes[self.index as int] == plan.body.changes@[self.index as int]@);
                match &plan.body.changes[self.index as usize] {
                    Change::CommitPolicy { from_revision, .. } => Next::CommitPolicy {
                        from_revision: *from_revision,
                    },
                    _ => Next::Stale,
                }
            },
            At::Requesting => {
                assert(changes[self.index as int] == plan.body.changes@[self.index as int]@);
                match &plan.body.changes[self.index as usize] {
                    Change::PlanSession { tenant, session, durability, .. } => {
                        Next::RequestPlacement {
                            tenant: *tenant,
                            session: *session,
                            survive: survive_code(durability.survive),
                            max_failures: durability.max_failures,
                        }
                    },
                    _ => Next::Stale,
                }
            },
            At::Reading => Next::ReadPolicy,
            At::Waiting => Next::Wait,
            At::Finished => Next::Report,
            At::Refused => Next::Stale,
        }
    }

    /// Take what was done. `expired` is whether the caller's time is up.
    pub fn step(&mut self, plan: &DeploymentPlan, event: Event, expired: bool, now: u64) -> (next:
        Next)
        requires
            old(self)@.valid(models(plan.body.changes@)),
            event matches Event::Observed(current) ==> current.well_formed(),
        ensures
            final(self)@ == old(self)@.after(
                models(plan.body.changes@),
                plan.body.policy_hash,
                event,
                expired,
                now,
            ),
            final(self)@.valid(models(plan.body.changes@)),
            next == final(self)@.next(models(plan.body.changes@)),
    {
        let ghost changes = models(plan.body.changes@);
        let ghost before = self@;
        proof {
            an_application_stays_valid(before, changes, plan.body.policy_hash, event, expired, now);
            if before.index < changes.len() {
                assert(changes[before.index] == plan.body.changes@[before.index]@);
            }
        }
        match (self.at, event) {
            (At::Opening, Event::Done) => self.enter(plan, expired, now),
            (At::Resuming, Event::Done) => self.enter(plan, expired, now),
            (At::Accepted, Event::Done) => self.enter(plan, expired, now),
            (At::Waiting, Event::Observed(current)) => {
                self.current = current;
                self.enter(plan, expired, now);
            },
            (At::Moved, Event::Done) => {
                self.index = self.index + 1;
                self.enter(plan, expired, now);
            },
            (At::Looked { again }, Event::Done) => if again {
                self.at = At::Waiting;
            } else {
                self.index = self.index + 1;
                self.enter(plan, expired, now);
            },
            (At::Prepared, Event::Done) => match &plan.body.changes[self.index as usize] {
                Change::CommitPolicy { .. } => {
                    self.at = At::Committing;
                },
                _ => {
                    self.at = At::Requesting;
                },
            },
            (At::Committing, Event::Done) => {
                let done = self.journal.record(self.index, Phase::Committed, None, now);
                assert(done is Ok);
                self.at = At::Committed;
            },
            (At::Committed, Event::Done) => {
                self.at = At::Reading;
            },
            (At::Reading, Event::Policy { revision, hash }) => {
                if let Change::CommitPolicy { to_revision, .. } =
                    &plan.body.changes[self.index as usize] {
                    let settled = settle_policy(
                        &mut self.journal,
                        self.index,
                        *to_revision,
                        &plan.body.policy_hash,
                        revision,
                        &hash,
                        now,
                    );
                    self.at = if settled.is_ok() {
                        At::Moved
                    } else {
                        At::Spoiled
                    };
                }
            },
            (At::Requesting, Event::Replied { operation: replied }) => {
                if let Change::PlanSession { tenant, session, operation, .. } =
                    &plan.body.changes[self.index as usize] {
                    let accepted = accept_reply(
                        &mut self.journal,
                        self.index,
                        tenant,
                        session,
                        operation,
                        &replied,
                        now,
                    );
                    self.at = if accepted.is_ok() {
                        At::Accepted
                    } else {
                        At::Spoiled
                    };
                }
            },
            (At::Closing, Event::Done) => {
                self.at = At::Finished;
            },
            (At::Spoiled, Event::Done) => {
                self.at = At::Refused;
            },
            _ => {},
        }
        self.awaited(plan)
    }

    /// Why the plan was found stale, once it was.
    pub fn refusal(&self) -> (error: Option<DeploymentError>)
        ensures
            match self.journal@.outcome {
                OutcomeModel::Stale { subject, field, .. } => error matches Some(error) && tells(
                    error,
                    Moved { subject, field: known_field(field) },
                ),
                _ => error is None,
            },
    {
        match &self.journal.outcome {
            Outcome::Stale { subject, field, .. } => Some(
                DeploymentError::Stale {
                    subject: subject.clone(),
                    field: field_name(field.as_str()),
                },
            ),
            _ => None,
        }
    }
}

/// What the files kept of a plan hold, or why they hold nothing. `named` says
/// that this very plan was asked for: then it has to be there.
pub open spec fn kept(
    id: [u8; 16],
    plan: Option<Seq<u8>>,
    journal: Option<Seq<u8>>,
    named: bool,
) -> Result<Option<(PlanModel, JournalModel)>, Refusal> {
    match plan {
        None => if named {
            Err(Refusal::Corrupt("no journal for this plan"@))
        } else {
            Ok(None)
        },
        Some(plan) => match decoded(plan) {
            Err(refusal) => Err(refusal),
            Ok(plan) => match journal {
                None => Err(Refusal::Corrupt("journal file missing beside its plan"@)),
                Some(journal) => match journal_decoded(journal) {
                    Err(refusal) => Err(refusal),
                    Ok(journal) => if journal.plan_id != id || plan.plan_id != id {
                        Err(Refusal::Corrupt("journal names another plan"@))
                    } else {
                        Ok(Some((plan, journal)))
                    },
                },
            },
        },
    }
}

/// Read the files kept of a plan.
pub fn examine(id: &[u8; 16], plan: Option<&[u8]>, journal: Option<&[u8]>, named: bool) -> (found:
    Result<Option<(DeploymentPlan, Journal)>, DeploymentError>)
    ensures
        ({
            let kept = kept(
                *id,
                match plan {
                    None => None,
                    Some(bytes) => Some(bytes@),
                },
                match journal {
                    None => None,
                    Some(bytes) => Some(bytes@),
                },
                named,
            );
            match found {
                Ok(None) => kept == Ok::<Option<(PlanModel, JournalModel)>, Refusal>(None),
                Ok(Some((plan, journal))) => kept == Ok::<
                    Option<(PlanModel, JournalModel)>,
                    Refusal,
                >(Some((plan.model(), journal@))),
                Err(error) => kept matches Err(refusal) && refusal_of(error) == Some(refusal),
            }
        }),
{
    let bytes = match plan {
        Some(bytes) => bytes,
        None => {
            if named {
                return Err(DeploymentError::Corrupt("no journal for this plan"));
            }
            return Ok(None);
        },
    };
    let plan = match DeploymentPlan::decode(bytes) {
        Ok(plan) => plan,
        Err(error) => return Err(error),
    };
    let bytes = match journal {
        Some(bytes) => bytes,
        None => {
            return Err(DeploymentError::Corrupt("journal file missing beside its plan"));
        },
    };
    let journal = match Journal::decode(bytes) {
        Ok(journal) => journal,
        Err(error) => return Err(error),
    };
    match same_plan(id, &plan, &journal) {
        Ok(_) => Ok(Some((plan, journal))),
        Err(error) => Err(error),
    }
}

/// Nothing is sent before the journal tells that it comes next: a policy is
/// committed and a placement requested only behind a write of the journal that
/// records the step, and that step is not committed yet.
pub proof fn the_journal_comes_first(
    run: Running,
    changes: Seq<ChangeModel>,
    policy_hash: [u8; 32],
    event: Event,
    expired: bool,
    now: u64,
)
    requires
        run.valid(changes),
        event matches Event::Observed(current) ==> current.well_formed(),
    ensures
        ({
            let after = run.after(changes, policy_hash, event, expired, now);
            let sends = after.next(changes) is CommitPolicy || after.next(changes)
                is RequestPlacement;
            sends && after.at != run.at ==> {
                &&& run.next(changes) == Next::WriteJournal
                &&& event == Event::Done
                &&& after.journal == run.journal
                &&& phase_of(run.journal.steps, run.index as u32) == Some(Phase::Prepared)
            }
        }),
{
    an_application_stays_valid(run, changes, policy_hash, event, expired, now);
    lemma_entered_place(run, changes, expired, now);
    lemma_entered_place(Running { index: run.index + 1, ..run }, changes, expired, now);
    if let Event::Observed(current) = event {
        lemma_entered_place(Running { current, ..run }, changes, expired, now);
    }
}

/// Entering a step sends nothing by itself.
proof fn lemma_entered_place(run: Running, changes: Seq<ChangeModel>, expired: bool, now: u64)
    ensures
        ({
            let at = run.entered(changes, expired, now).at;
            at != At::Committing && at != At::Requesting && at != At::Refused && at
                != At::Finished
        }),
        run.entered(changes, expired, now).journal != run.journal ==> run.entered(
            changes,
            expired,
            now,
        ).next(changes) == Next::WriteJournal,
    decreases changes.len() - run.index,
{
    if 0 <= run.index < changes.len() {
        lemma_entered_place(Running { index: run.index + 1, ..run }, changes, expired, now);
    }
}

/// Whatever changes the journal is made durable next.
pub proof fn every_change_is_written(
    run: Running,
    changes: Seq<ChangeModel>,
    policy_hash: [u8; 32],
    event: Event,
    expired: bool,
    now: u64,
)
    ensures
        ({
            let after = run.after(changes, policy_hash, event, expired, now);
            after.journal != run.journal ==> after.next(changes) == Next::WriteJournal
        }),
{
    lemma_entered_place(run, changes, expired, now);
    lemma_entered_place(Running { index: run.index + 1, ..run }, changes, expired, now);
    if let Event::Observed(current) = event {
        lemma_entered_place(Running { current, ..run }, changes, expired, now);
    }
}

/// Entering steps never lets one fall behind.
proof fn lemma_entered_advances(
    run: Running,
    changes: Seq<ChangeModel>,
    expired: bool,
    now: u64,
    watched: u32,
)
    requires
        phase_of(run.journal.steps, watched) is Some,
    ensures
        phase_of(run.entered(changes, expired, now).journal.steps, watched) matches Some(after)
            && after.rank() >= (phase_of(run.journal.steps, watched)->0).rank(),
    decreases changes.len() - run.index,
{
    if 0 <= run.index < changes.len() {
        let change = changes[run.index];
        let steps = run.journal.steps;
        let index = run.index as u32;
        lemma_entered_advances(
            Running { index: run.index + 1, ..run },
            changes,
            expired,
            now,
            watched,
        );
        match action_of(change, steps, index) {
            Action::Done => if phase_of(steps, index) != Some(Phase::Complete) {
                phases_only_advance(steps, index, Phase::Complete, None, now, watched);
            },
            Action::CommitPolicy { .. } => {
                phases_only_advance(steps, index, Phase::Prepared, None, now, watched);
            },
            Action::RequestPlacement { .. } => {
                phases_only_advance(steps, index, Phase::Prepared, None, now, watched);
            },
            Action::ReadPolicy => {},
            Action::Follow => {
                let shown = run.shown(change);
                if shown.rank() > reached(steps, index).rank() {
                    phases_only_advance(steps, index, shown, None, now, watched);
                }
            },
        }
    }
}

/// An application never takes back what a step has reached.
pub proof fn an_application_only_advances(
    run: Running,
    changes: Seq<ChangeModel>,
    policy_hash: [u8; 32],
    event: Event,
    expired: bool,
    now: u64,
    watched: u32,
)
    requires
        run.valid(changes),
        phase_of(run.journal.steps, watched) is Some,
    ensures
        phase_of(
            run.after(changes, policy_hash, event, expired, now).journal.steps,
            watched,
        ) matches Some(after) && after.rank() >= (phase_of(run.journal.steps, watched)->0).rank(),
{
    let steps = run.journal.steps;
    let index = run.index as u32;
    lemma_entered_advances(run, changes, expired, now, watched);
    lemma_entered_advances(Running { index: run.index + 1, ..run }, changes, expired, now, watched);
    match (run.at, event) {
        (At::Waiting, Event::Observed(current)) => lemma_entered_advances(
            Running { current, ..run },
            changes,
            expired,
            now,
            watched,
        ),
        (At::Committing, Event::Done) => phases_only_advance(
            steps,
            index,
            Phase::Committed,
            None,
            now,
            watched,
        ),
        (At::Reading, Event::Policy { .. }) => phases_only_advance(
            steps,
            index,
            Phase::Complete,
            None,
            now,
            watched,
        ),
        (At::Requesting, Event::Replied { operation }) => phases_only_advance(
            steps,
            index,
            Phase::Committed,
            Some(operation),
            now,
            watched,
        ),
        _ => {},
    }
}

/// Applying is exact on repetition: where every step is complete nothing is
/// sent again, and the outcome stays what it is.
pub proof fn a_complete_plan_sends_nothing(
    run: Running,
    changes: Seq<ChangeModel>,
    expired: bool,
    now: u64,
)
    requires
        0 <= run.index <= changes.len() <= u32::MAX,
        all_complete(run.journal.steps, changes.len() as int),
    ensures
        run.entered(changes, expired, now) == (Running {
            journal: JournalModel { outcome: OutcomeModel::Complete, ..run.journal },
            index: changes.len() as int,
            at: At::Closing,
            ..run
        }),
    decreases changes.len() - run.index,
{
    if run.index < changes.len() {
        assert(phase_of(run.journal.steps, run.index as u32) == Some(Phase::Complete));
        a_complete_plan_sends_nothing(
            Running { index: run.index + 1, ..run },
            changes,
            expired,
            now,
        );
    }
}

/// Something that happens to an application: what was done, whether its time
/// is up, and when.
pub struct Happening {
    pub event: Event,
    pub expired: bool,
    pub now: u64,
}

/// An application behind everything that happened to it.
pub open spec fn ran(
    run: Running,
    changes: Seq<ChangeModel>,
    policy_hash: [u8; 32],
    happened: Seq<Happening>,
) -> Running
    decreases happened.len(),
{
    if happened.len() == 0 {
        run
    } else {
        let last = happened.last();
        ran(run, changes, policy_hash, happened.drop_last()).after(
            changes,
            policy_hash,
            last.event,
            last.expired,
            last.now,
        )
    }
}

/// Applying resumes and never repeats. Whatever happens to an application, in
/// whatever order: what a step has reached is never taken back; nothing is sent
/// for a step that was committed when the application began, neither a policy
/// commit nor a placement request; and once every step was tried, the outcome
/// is complete exactly where every step is.
pub proof fn an_application_resumes_and_never_repeats(
    run: Running,
    changes: Seq<ChangeModel>,
    policy_hash: [u8; 32],
    happened: Seq<Happening>,
    watched: u32,
)
    requires
        run.valid(changes),
        forall|i: int|
            0 <= i < happened.len() ==> ((#[trigger] happened[i]).event matches Event::Observed(
                current,
            ) ==> current.well_formed()),
    ensures
        ({
            let after = ran(run, changes, policy_hash, happened);
            let next = after.next(changes);
            &&& after.valid(changes)
            &&& phase_of(run.journal.steps, watched) matches Some(before) ==> (phase_of(
                after.journal.steps,
                watched,
            ) matches Some(reached) && reached.rank() >= before.rank())
            &&& is_committed(run.journal.steps, watched) && after.index == watched ==> !(
            next is CommitPolicy || next is RequestPlacement)
            &&& next == Next::Report ==> after.journal.outcome == (if all_complete(
                after.journal.steps,
                changes.len() as int,
            ) {
                OutcomeModel::Complete
            } else {
                OutcomeModel::InProgress
            })
        }),
    decreases happened.len(),
{
    if happened.len() > 0 {
        let earlier = happened.drop_last();
        let last = happened.last();
        assert(last == happened[happened.len() - 1]);
        assert forall|i: int| 0 <= i < earlier.len() implies ((
        #[trigger] earlier[i]).event matches Event::Observed(current) ==> current.well_formed()) by {
            assert(earlier[i] == happened[i]);
        }
        an_application_resumes_and_never_repeats(run, changes, policy_hash, earlier, watched);
        let before = ran(run, changes, policy_hash, earlier);
        an_application_stays_valid(
            before,
            changes,
            policy_hash,
            last.event,
            last.expired,
            last.now,
        );
        if phase_of(run.journal.steps, watched) is Some {
            an_application_only_advances(
                before,
                changes,
                policy_hash,
                last.event,
                last.expired,
                last.now,
                watched,
            );
        }
    }
}

} // verus!
