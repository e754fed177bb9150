//! Applying a plan: preflight against the current observation, one journaled
//! step per change, resumable and exact on repetition.
use super::facts::{
    Change, ChangeModel, DeploymentPlan, Observation, ObservedSession, SessionModel,
};
use super::journal::{
    phase_of, position, recorded, Journal, JournalModel, Outcome, OutcomeModel, Phase, Step,
};
use super::plan::{artifact, refusal_of, Refusal, MAX_PLAN_BYTES};
use super::{survive_code, DeploymentError, GuaranteeLevel};
use crate::codec::{models, Wire};
use crate::hashing::{blake3_hash, same_16, same_32};
use crate::text::{hex, hex_text, same_text};
use vstd::prelude::*;
use vstd::string::StringExecFns;

verus! {

/// Journals `status` lists at most.
pub const MAX_LISTED: usize = 64;

/// The latest of the sessions with an identity.
pub open spec fn latest(
    sessions: Seq<SessionModel>,
    tenant: [u8; 16],
    session: [u8; 16],
) -> Option<SessionModel>
    decreases sessions.len(),
{
    if sessions.len() == 0 {
        None
    } else if sessions.last().tenant == tenant && sessions.last().session == session {
        Some(sessions.last())
    } else {
        latest(sessions.drop_last(), tenant, session)
    }
}

/// No two sessions have the same identity.
pub open spec fn distinct(sessions: Seq<SessionModel>) -> bool {
    forall|i: int, j: int|
        0 <= i < j < sessions.len() ==> (#[trigger] sessions[i]).tenant != (
        #[trigger] sessions[j]).tenant || sessions[i].session != sessions[j].session
}

proof fn lemma_latest_absent(sessions: Seq<SessionModel>, tenant: [u8; 16], session: [u8; 16])
    requires
        forall|i: int|
            0 <= i < sessions.len() ==> !((#[trigger] sessions[i]).tenant == tenant
                && sessions[i].session == session),
    ensures
        latest(sessions, tenant, session) is None,
    decreases sessions.len(),
{
    if sessions.len() > 0 {
        assert(sessions[sessions.len() - 1] == sessions.last());
        assert forall|i: int| 0 <= i < sessions.drop_last().len() implies !((
        #[trigger] sessions.drop_last()[i]).tenant == tenant && sessions.drop_last()[i].session
            == session) by {
            assert(sessions.drop_last()[i] == sessions[i]);
        }
        lemma_latest_absent(sessions.drop_last(), tenant, session);
    }
}

proof fn lemma_latest_at(sessions: Seq<SessionModel>, at: int)
    requires
        0 <= at < sessions.len(),
        distinct(sessions),
    ensures
        latest(sessions, sessions[at].tenant, sessions[at].session) == Some(sessions[at]),
    decreases sessions.len(),
{
    if at < sessions.len() - 1 {
        let rest = sessions.drop_last();
        assert(rest[at] == sessions[at]);
        assert(sessions[sessions.len() - 1] == sessions.last());
        assert forall|i: int, j: int| 0 <= i < j < rest.len() implies (#[trigger] rest[i]).tenant
            != (#[trigger] rest[j]).tenant || rest[i].session != rest[j].session by {
            assert(rest[i] == sessions[i] && rest[j] == sessions[j]);
        }
        lemma_latest_at(rest, at);
    }
}

/// The current facts a step is checked against; the sessions are distinct.
#[derive(Debug, Clone, PartialEq, Eq)]
pub struct Current {
    pub policy_revision: u64,
    pub sessions: Vec<ObservedSession>,
}

impl Current {
    /// The facts hold each session once.
    pub open spec fn well_formed(self) -> bool {
        distinct(models(self.sessions@))
    }

    /// The session with an identity.
    pub open spec fn session(self, tenant: [u8; 16], session: [u8; 16]) -> Option<SessionModel> {
        latest(models(self.sessions@), tenant, session)
    }

    /// Where a session stands.
    fn locate(&self, tenant: &[u8; 16], session: &[u8; 16]) -> (found: Option<usize>)
        requires
            self.well_formed(),
        ensures
            match found {
                Some(i) => i < self.sessions@.len() && self.sessions@[i as int].tenant == *tenant
                    && self.sessions@[i as int].session == *session && self.session(
                    *tenant,
                    *session,
                ) == Some(self.sessions@[i as int]@),
                None => self.session(*tenant, *session) is None && forall|i: int|
                    0 <= i < self.sessions@.len() ==> !((#[trigger] self.sessions@[i]).tenant
                        == *tenant && self.sessions@[i].session == *session),
            },
    {
        let mut i: usize = 0;
        while i < self.sessions.len()
            invariant
                i <= self.sessions.len(),
                self.well_formed(),
                forall|j: int|
                    0 <= j < i ==> !((#[trigger] self.sessions@[j]).tenant == *tenant
                        && self.sessions@[j].session == *session),
            decreases self.sessions.len() - i,
        {
            if same_16(&self.sessions[i].tenant, tenant) && same_16(
                &self.sessions[i].session,
                session,
            ) {
                proof {
                    let all = models(self.sessions@);
                    assert(all[i as int] == self.sessions@[i as int]@);
                    lemma_latest_at(all, i as int);
                }
                return Some(i);
            }
            i += 1;
        }
        proof {
            let all = models(self.sessions@);
            assert forall|j: int| 0 <= j < all.len() implies !((#[trigger] all[j]).tenant == *tenant
                && all[j].session == *session) by {
                assert(all[j] == self.sessions@[j]@);
            }
            lemma_latest_absent(all, *tenant, *session);
        }
        None
    }

    /// The session with an identity.
    pub fn find(&self, tenant: &[u8; 16], session: &[u8; 16]) -> (found: Option<&ObservedSession>)
        requires
            self.well_formed(),
        ensures
            match found {
                Some(s) => self.session(*tenant, *session) == Some(s@),
                None => self.session(*tenant, *session) is None,
            },
    {
        match self.locate(tenant, session) {
            Some(i) => Some(&self.sessions[i]),
            None => None,
        }
    }

    /// The facts of an observation; of sessions with one identity the last
    /// counts.
    pub fn of(observation: &Observation) -> (current: Self)
        ensures
            current.policy_revision == observation.committed.revision.0,
            current.well_formed(),
            forall|tenant: [u8; 16], session: [u8; 16]| #[trigger]
                current.session(tenant, session) == latest(
                    models(observation.sessions@),
                    tenant,
                    session,
                ),
    {
        let mut current = Current {
            policy_revision: observation.committed.revision.0,
            sessions: Vec::new(),
        };
        let ghost all = models(observation.sessions@);
        let mut i: usize = 0;
        assert(all.take(0) =~= Seq::<SessionModel>::empty());
        assert(models(current.sessions@) =~= Seq::<SessionModel>::empty());
        while i < observation.sessions.len()
            invariant
                i <= observation.sessions.len(),
                all == models(observation.sessions@),
                current.policy_revision == observation.committed.revision.0,
                current.well_formed(),
                forall|tenant: [u8; 16], session: [u8; 16]| #[trigger]
                    current.session(tenant, session) == latest(
                        all.take(i as int),
                        tenant,
                        session,
                    ),
            decreases observation.sessions.len() - i,
        {
            let next = observation.sessions[i].duplicate();
            let ghost before = current;
            let ghost held = models(current.sessions@);
            proof {
                assert(all.take(i + 1).drop_last() =~= all.take(i as int));
                assert(all.take(i + 1).last() == next@);
            }
            match current.locate(&next.tenant, &next.session) {
                Some(at) => {
                    let ghost value = next@;
                    current.sessions.set(at, next);
                    proof {
                        let now = models(current.sessions@);
                        assert(now =~= held.update(at as int, value));
                        assert forall|a: int, b: int| 0 <= a < b < now.len() implies (
                        #[trigger] now[a]).tenant != (#[trigger] now[b]).tenant || now[a].session
                            != now[b].session by {
                            assert(held[at as int] == before.sessions@[at as int]@);
                            assert(held[a].tenant == now[a].tenant && held[a].session
                                == now[a].session);
                            assert(held[b].tenant == now[b].tenant && held[b].session
                                == now[b].session);
                        }
                        assert forall|tenant: [u8; 16], session: [u8; 16]| #[trigger]
                            current.session(tenant, session) == latest(
                            all.take(i + 1),
                            tenant,
                            session,
                        ) by {
                            lemma_latest_update(held, at as int, value, tenant, session);
                            assert(before.session(tenant, session) == latest(
                                all.take(i as int),
                                tenant,
                                session,
                            ));
                        }
                    }
                },
                None => {
                    let ghost value = next@;
                    current.sessions.push(next);
                    proof {
                        let now = models(current.sessions@);
                        assert(now =~= held.push(value));
                        assert forall|a: int, b: int| 0 <= a < b < now.len() implies (
                        #[trigger] now[a]).tenant != (#[trigger] now[b]).tenant || now[a].session
                            != now[b].session by {
                            if b == held.len() {
                                assert(now[a] == before.sessions@[a]@);
                            } else {
                                assert(now[a] == held[a] && now[b] == held[b]);
                            }
                        }
                        assert forall|tenant: [u8; 16], session: [u8; 16]| #[trigger]
                            current.session(tenant, session) == latest(
                            all.take(i + 1),
                            tenant,
                            session,
                        ) by {
                            assert(now.drop_last() =~= held);
                            assert(before.session(tenant, session) == latest(
                                all.take(i as int),
                                tenant,
                                session,
                            ));
                        }
                    }
                },
            }
            i += 1;
        }
        assert(all.take(all.len() as int) =~= all);
        current
    }
}

proof fn lemma_latest_update(
    sessions: Seq<SessionModel>,
    at: int,
    value: SessionModel,
    tenant: [u8; 16],
    session: [u8; 16],
)
    requires
        0 <= at < sessions.len(),
        distinct(sessions),
        sessions[at].tenant == value.tenant,
        sessions[at].session == value.session,
    ensures
        latest(sessions.update(at, value), tenant, session) == (if value.tenant == tenant
            && value.session == session {
            Some(value)
        } else {
            latest(sessions, tenant, session)
        }),
    decreases sessions.len(),
{
    let now = sessions.update(at, value);
    let rest = sessions.drop_last();
    assert(forall|i: int, j: int|
        0 <= i < j < rest.len() ==> (#[trigger] rest[i]) == sessions[i] && (#[trigger] rest[j])
            == sessions[j]);
    if at == sessions.len() - 1 {
        assert(now.drop_last() =~= rest);
    } else {
        assert(now.drop_last() =~= rest.update(at, value));
        assert(sessions[at].tenant != sessions[sessions.len() - 1].tenant || sessions[at].session
            != sessions[sessions.len() - 1].session);
        assert(distinct(rest)) by {
            assert forall|i: int, j: int| 0 <= i < j < rest.len() implies (
            #[trigger] rest[i]).tenant != (#[trigger] rest[j]).tenant || rest[i].session
                != rest[j].session by {
                assert(sessions[i].tenant != sessions[j].tenant || sessions[i].session
                    != sessions[j].session);
            }
        }
        lemma_latest_update(rest, at, value, tenant, session);
    }
}

/// How a session is named to an operator.
pub open spec fn session_text(tenant: [u8; 16], session: [u8; 16]) -> Seq<char> {
    "session "@ + hex_text(tenant@) + "/"@ + hex_text(session@)
}

/// Name a session.
pub fn session_name(tenant: &[u8; 16], session: &[u8; 16]) -> (name: String)
    ensures
        name@ == session_text(*tenant, *session),
{
    String::from_str("session ").concat(hex(tenant.as_slice()).as_str()).concat("/").concat(
        hex(session.as_slice()).as_str(),
    )
}

/// A fact that moved: whose, and which.
pub struct Moved {
    pub subject: Seq<char>,
    pub field: Seq<char>,
}

/// Whether an error tells that a fact moved.
pub open spec fn tells(error: DeploymentError, moved: Moved) -> bool {
    error matches DeploymentError::Stale { subject, field } && subject@ == moved.subject && field@
        == moved.field
}

/// The error that a fact moved.
pub fn stale(subject: String, field: &'static str) -> (error: DeploymentError)
    ensures
        tells(error, Moved { subject: subject@, field: field@ }),
{
    DeploymentError::Stale { subject, field }
}

/// The name a journal's stale field is reported by.
pub open spec fn known_field(field: Seq<char>) -> Seq<char> {
    if field == "committed_revision"@ || field == "route_epoch"@ || field == "membership_epoch"@
        || field == "placement_epoch"@ || field == "operation"@ {
        field
    } else {
        "presence"@
    }
}

/// Report a journal's stale field by its known name.
pub fn field_name(field: &str) -> (name: &'static str)
    ensures
        name@ == known_field(field@),
{
    if same_text(field, "committed_revision") {
        "committed_revision"
    } else if same_text(field, "route_epoch") {
        "route_epoch"
    } else if same_text(field, "membership_epoch") {
        "membership_epoch"
    } else if same_text(field, "placement_epoch") {
        "placement_epoch"
    } else if same_text(field, "operation") {
        "operation"
    } else {
        "presence"
    }
}

/// The fact a change was planned on that no longer holds.
pub open spec fn moved_fact(change: ChangeModel, current: Current) -> Option<Moved> {
    match change {
        ChangeModel::CommitPolicy { from_revision, .. } => if current.policy_revision
            != from_revision {
            Some(Moved { subject: "policy"@, field: "committed_revision"@ })
        } else {
            None
        },
        ChangeModel::PlanSession { tenant, session, expected, .. } => {
            let subject = session_text(tenant, session);
            match current.session(tenant, session) {
                None => Some(Moved { subject, field: "presence"@ }),
                Some(observed) => if observed.epochs.route != expected.route {
                    Some(Moved { subject, field: "route_epoch"@ })
                } else if observed.epochs.membership != expected.membership {
                    Some(Moved { subject, field: "membership_epoch"@ })
                } else if observed.epochs.placement != expected.placement {
                    Some(Moved { subject, field: "placement_epoch"@ })
                } else {
                    None
                },
            }
        },
        ChangeModel::NoChange { .. } => None,
    }
}

/// Whether a step has been committed.
pub open spec fn is_committed(steps: Seq<Step>, index: u32) -> bool {
    phase_of(steps, index) matches Some(phase) && phase.rank() >= Phase::Committed.rank()
}

/// The first moved fact under the changes from `from` on that are not
/// committed yet.
pub open spec fn first_moved(
    changes: Seq<ChangeModel>,
    from: int,
    steps: Seq<Step>,
    current: Current,
) -> Option<Moved>
    decreases changes.len() - from,
{
    if from < 0 || from >= changes.len() {
        None
    } else if !is_committed(steps, from as u32) && moved_fact(changes[from], current) is Some {
        moved_fact(changes[from], current)
    } else {
        first_moved(changes, from + 1, steps, current)
    }
}

/// Why a plan may not be applied now: what its journal found stale, or the
/// first fact that moved under a step not committed yet.
pub open spec fn preflight_refusal(
    changes: Seq<ChangeModel>,
    journal: JournalModel,
    current: Current,
) -> Option<Moved> {
    match journal.outcome {
        OutcomeModel::Stale { subject, field, .. } => Some(
            Moved { subject, field: known_field(field) },
        ),
        _ => first_moved(changes, 0, journal.steps, current),
    }
}

/// Check one change against the current facts.
fn check_change(change: &Change, current: &Current) -> (done: Result<(), DeploymentError>)
    requires
        current.well_formed(),
    ensures
        match done {
            Ok(_) => moved_fact(change@, *current) is None,
            Err(error) => moved_fact(change@, *current) matches Some(moved) && tells(error, moved),
        },
{
    match change {
        Change::CommitPolicy { from_revision, .. } => {
            if current.policy_revision != *from_revision {
                return Err(stale(String::from_str("policy"), "committed_revision"));
            }
        },
        Change::PlanSession { tenant, session, expected, .. } => {
            let name = session_name(tenant, session);
            match current.find(tenant, session) {
                None => {
                    return Err(stale(name, "presence"));
                },
                Some(observed) => {
                    if observed.epochs.route != expected.route {
                        return Err(stale(name, "route_epoch"));
                    }
                    if observed.epochs.membership != expected.membership {
                        return Err(stale(name, "membership_epoch"));
                    }
                    if observed.epochs.placement != expected.placement {
                        return Err(stale(name, "placement_epoch"));
                    }
                },
            }
        },
        Change::NoChange { .. } => {},
    }
    Ok(())
}

/// Check every step that has not been committed yet against the current
/// facts: the policy revision the plan observed and each session's epochs.
/// Nothing is sent when this fails.
pub fn preflight(
    plan: &DeploymentPlan,
    journal: &Journal,
    current: &Current,
) -> (done: Result<(), DeploymentError>)
    requires
        current.well_formed(),
        plan.body.changes@.len() <= u32::MAX,
    ensures
        match done {
            Ok(_) => preflight_refusal(models(plan.body.changes@), journal@, *current) is None,
            Err(error) => preflight_refusal(
                models(plan.body.changes@),
                journal@,
                *current,
            ) matches Some(moved) && tells(error, moved),
        },
{
    if let Outcome::Stale { subject, field, .. } = &journal.outcome {
        return Err(
            DeploymentError::Stale { subject: subject.clone(), field: field_name(field.as_str()) },
        );
    }
    let ghost all = models(plan.body.changes@);
    let mut i: usize = 0;
    while i < plan.body.changes.len()
        invariant
            i <= plan.body.changes.len() <= u32::MAX,
            current.well_formed(),
            all == models(plan.body.changes@),
            !(journal.outcome is Stale),
            preflight_refusal(all, journal@, *current) == first_moved(
                all,
                i as int,
                journal.steps@,
                *current,
            ),
        decreases plan.body.changes.len() - i,
    {
        let committed = match journal.phase(i as u32) {
            None => false,
            Some(phase) => phase.order() >= 1,
        };
        assert(all[i as int] == plan.body.changes@[i as int]@);
        assert(committed == is_committed(journal.steps@, i as u32));
        if !committed {
            check_change(&plan.body.changes[i], current)?;
        }
        i += 1;
    }
    Ok(())
}

/// The phase a committed placement request has reached, by observation.
pub open spec fn progress_of(
    observed: Option<SessionModel>,
    operation: [u8; 16],
    durability: GuaranteeLevel,
    expected_placement_epoch: u64,
) -> Phase {
    match observed {
        None => Phase::Committed,
        Some(session) => {
            let achieved = session.achieved matches Some(level) && !level.below(durability);
            if session.pending is None && achieved {
                Phase::Complete
            } else if session.pending == Some(operation) || achieved || session.epochs.placement
                > expected_placement_epoch {
                Phase::Verified
            } else {
                Phase::Committed
            }
        },
    }
}

/// The phase a committed placement request has reached by observation.
pub fn session_progress(
    observed: Option<&ObservedSession>,
    operation: [u8; 16],
    durability: GuaranteeLevel,
    expected_placement_epoch: u64,
) -> (phase: Phase)
    ensures
        phase == progress_of(
            match observed {
                None => None,
                Some(session) => Some(session@),
            },
            operation,
            durability,
            expected_placement_epoch,
        ),
{
    match observed {
        None => Phase::Committed,
        Some(session) => {
            let achieved = match session.achieved {
                None => false,
                Some(level) => level.covers(durability),
            };
            let ours = match &session.pending {
                None => false,
                Some(pending) => same_16(pending, &operation),
            };
            if session.pending.is_none() && achieved {
                Phase::Complete
            } else if ours || achieved || session.epochs.placement > expected_placement_epoch {
                Phase::Verified
            } else {
                Phase::Committed
            }
        },
    }
}

/// An observed request is at least committed, and complete exactly where its
/// durability is achieved with no placement pending.
pub proof fn progress_is_observed(
    observed: Option<SessionModel>,
    operation: [u8; 16],
    durability: GuaranteeLevel,
    epoch: u64,
)
    ensures
        progress_of(observed, operation, durability, epoch).rank() >= Phase::Committed.rank(),
        progress_of(observed, operation, durability, epoch) == Phase::Complete <==> (
        observed matches Some(session) && session.pending is None && (
        session.achieved matches Some(level) && !level.below(durability))),
{
}

/// A plan whose journal found it stale is never resumed, whatever the facts.
pub proof fn a_stale_plan_is_never_resumed(
    changes: Seq<ChangeModel>,
    journal: JournalModel,
    current: Current,
)
    requires
        journal.outcome is Stale,
    ensures
        preflight_refusal(changes, journal, current) is Some,
{
}

/// Steps already committed are not rechecked: a journal that committed every
/// step passes preflight, whatever moved since.
pub proof fn committed_steps_are_not_rechecked(
    changes: Seq<ChangeModel>,
    from: int,
    steps: Seq<Step>,
    current: Current,
)
    requires
        0 <= from,
        changes.len() <= u32::MAX,
        forall|i: int| 0 <= i < changes.len() ==> #[trigger] is_committed(steps, i as u32),
    ensures
        first_moved(changes, from, steps, current) is None,
    decreases changes.len() - from,
{
    if from < changes.len() {
        committed_steps_are_not_rechecked(changes, from + 1, steps, current);
    }
}

/// A fresh plan passes preflight exactly where no change's fact moved.
pub proof fn nothing_moved_passes(
    changes: Seq<ChangeModel>,
    from: int,
    current: Current,
)
    requires
        0 <= from,
        changes.len() <= u32::MAX,
    ensures
        first_moved(changes, from, Seq::empty(), current) is None <==> (forall|i: int|
            from <= i < changes.len() ==> moved_fact(#[trigger] changes[i], current) is None),
    decreases changes.len() - from,
{
    if from < changes.len() {
        nothing_moved_passes(changes, from + 1, current);
        assert(position(Seq::<Step>::empty(), from as u32) is None);
    }
}

/// Whether a plan may be applied on a cluster at all.
pub fn applicable(plan: &DeploymentPlan, cluster: &[u8; 16]) -> (done: Result<(), DeploymentError>)
    ensures
        done is Ok <==> plan.body.deployment.cluster == *cluster && plan.body.blocked@.len() == 0,
        plan.body.deployment.cluster != *cluster ==> done == Err::<(), DeploymentError>(
            DeploymentError::WrongDeployment,
        ),
        plan.body.deployment.cluster == *cluster && plan.body.blocked@.len() > 0 ==> (
        done matches Err(DeploymentError::Blocked(count)) && count == plan.body.blocked@.len()),
{
    if !same_16(&plan.body.deployment.cluster, cluster) {
        return Err(DeploymentError::WrongDeployment);
    }
    if plan.body.blocked.len() > 0 {
        return Err(DeploymentError::Blocked(plan.body.blocked.len()));
    }
    Ok(())
}

/// Take up a plan's journal: the one found beside it, which has to be that
/// plan's, or a new one. The flag tells that it is new and that the plan has
/// to be kept beside it.
pub fn resume(
    plan: &DeploymentPlan,
    existing: Option<&[u8]>,
    now: u64,
) -> (journal: Result<(Journal, bool), DeploymentError>)
    ensures
        existing is None ==> (journal is Ok == (artifact(plan.model()).len() <= MAX_PLAN_BYTES)),
        existing is None ==> (journal matches Ok(j) ==> j.1 && j.0@ == (JournalModel {
            schema: super::journal::JOURNAL_SCHEMA,
            plan_id: plan.plan_id,
            plan_hash: blake3_hash(artifact(plan.model())),
            started_ms: now,
            steps: Seq::empty(),
            outcome: OutcomeModel::InProgress,
        })),
        existing is None ==> (journal matches Err(error) ==> error is Capacity),
        existing matches Some(bytes) ==> match super::journal::journal_decoded(bytes@) {
            Err(refusal) => journal matches Err(error) && refusal_of(error) == Some(refusal),
            Ok(found) => if found.plan_id != plan.plan_id {
                journal matches Err(error) && refusal_of(error) == Some(
                    Refusal::Corrupt("apply journal names another plan"@),
                )
            } else if artifact(plan.model()).len() > MAX_PLAN_BYTES {
                journal == Err::<(Journal, bool), DeploymentError>(DeploymentError::Capacity)
            } else if found.plan_hash != blake3_hash(artifact(plan.model())) {
                journal matches Err(error) && refusal_of(error) == Some(
                    Refusal::Corrupt("apply journal names another plan"@),
                )
            } else {
                journal matches Ok(j) && !j.1 && j.0@ == found
            },
        },
{
    match existing {
        Some(bytes) => {
            let journal = Journal::decode(bytes)?;
            if !same_16(&journal.plan_id, &plan.plan_id) {
                return Err(DeploymentError::Corrupt("apply journal names another plan"));
            }
            let digest = plan.hash()?;
            if !same_32(&journal.plan_hash, &digest) {
                return Err(DeploymentError::Corrupt("apply journal names another plan"));
            }
            Ok((journal, false))
        },
        None => {
            let journal = Journal::new(plan, now)?;
            Ok((journal, true))
        },
    }
}

/// What a step asks of the node. The journal is durable before it is done.
#[derive(Debug, Clone, Copy, PartialEq, Eq)]
pub enum Action {
    /// Nothing; the step is complete.
    Done,
    /// Commit the requested policy over this revision.
    CommitPolicy { from_revision: u64 },
    /// Read the committed policy back.
    ReadPolicy,
    /// Request the session's placement.
    RequestPlacement { tenant: [u8; 16], session: [u8; 16], survive: u8, max_failures: u16 },
    /// Follow the session in the directory.
    Follow,
}

/// What a step asks for, by its change and what its journal recorded.
pub open spec fn action_of(change: ChangeModel, steps: Seq<Step>, index: u32) -> Action {
    if phase_of(steps, index) == Some(Phase::Complete) {
        Action::Done
    } else {
        match change {
            ChangeModel::CommitPolicy { from_revision, .. } => if is_committed(steps, index) {
                Action::ReadPolicy
            } else {
                Action::CommitPolicy { from_revision }
            },
            ChangeModel::PlanSession { tenant, session, durability, .. } => if is_committed(
                steps,
                index,
            ) {
                Action::Follow
            } else {
                Action::RequestPlacement {
                    tenant,
                    session,
                    survive: super::breadth(durability.survive) as u8,
                    max_failures: durability.max_failures,
                }
            },
            ChangeModel::NoChange { .. } => Action::Done,
        }
    }
}

/// What beginning a step records: that it is next, before anything is sent;
/// that a change of nothing is complete.
pub open spec fn begun(change: ChangeModel, steps: Seq<Step>, index: u32, now: u64) -> Seq<Step> {
    if phase_of(steps, index) == Some(Phase::Complete) {
        steps
    } else if change is NoChange {
        recorded(steps, index, Phase::Complete, None, now)->0
    } else if is_committed(steps, index) {
        steps
    } else {
        recorded(steps, index, Phase::Prepared, None, now)->0
    }
}

/// Begin a step, or take it up where its journal left it. The flag tells
/// that the journal changed and has to be durable before the action.
pub fn begin_step(
    journal: &mut Journal,
    index: u32,
    change: &Change,
    now: u64,
) -> (next: (Action, bool))
    ensures
        next.0 == action_of(change@, old(journal).steps@, index),
        next.1 == (phase_of(old(journal).steps@, index) != Some(Phase::Complete) && (
        change@ is NoChange || !is_committed(old(journal).steps@, index))),
        final(journal)@ == (JournalModel {
            steps: begun(change@, old(journal).steps@, index, now),
            ..old(journal)@
        }),
{
    let phase = journal.phase(index);
    let order: u8 = match phase {
        None => 0,
        Some(phase) => phase.order(),
    };
    if order == 3 {
        return (Action::Done, false);
    }
    match change {
        Change::NoChange { .. } => {
            let recorded = journal.record(index, Phase::Complete, None, now);
            assert(recorded is Ok);
            (Action::Done, true)
        },
        Change::CommitPolicy { from_revision, .. } => {
            if order >= 1 {
                return (Action::ReadPolicy, false);
            }
            let recorded = journal.record(index, Phase::Prepared, None, now);
            assert(recorded is Ok);
            (Action::CommitPolicy { from_revision: *from_revision }, true)
        },
        Change::PlanSession { tenant, session, durability, .. } => {
            if order >= 1 {
                return (Action::Follow, false);
            }
            let recorded = journal.record(index, Phase::Prepared, None, now);
            assert(recorded is Ok);
            (
                Action::RequestPlacement {
                    tenant: *tenant,
                    session: *session,
                    survive: survive_code(durability.survive),
                    max_failures: durability.max_failures,
                },
                true,
            )
        },
    }
}

/// The journal of a plan found stale at a step.
pub open spec fn found_stale(journal: JournalModel, step: u32, moved: Moved) -> JournalModel {
    JournalModel {
        outcome: OutcomeModel::Stale { step, subject: moved.subject, field: moved.field },
        ..journal
    }
}

/// Settle a policy step against the policy read back: complete where the
/// requested policy is committed at the planned revision, stale otherwise.
pub fn settle_policy(
    journal: &mut Journal,
    index: u32,
    to_revision: u64,
    policy_hash: &[u8; 32],
    committed_revision: u64,
    committed_hash: &[u8; 32],
    now: u64,
) -> (done: Result<(), DeploymentError>)
    ensures
        done is Ok <==> committed_revision == to_revision && *committed_hash == *policy_hash,
        done is Ok ==> final(journal)@ == (JournalModel {
            steps: recorded(old(journal).steps@, index, Phase::Complete, None, now)->0,
            ..old(journal)@
        }),
        done matches Err(error) ==> {
            let moved = Moved { subject: "policy"@, field: "committed_revision"@ };
            tells(error, moved) && final(journal)@ == found_stale(old(journal)@, index, moved)
        },
{
    if committed_revision != to_revision || !same_32(committed_hash, policy_hash) {
        journal.outcome = Outcome::Stale {
            step: index,
            subject: String::from_str("policy"),
            field: String::from_str("committed_revision"),
        };
        return Err(stale(String::from_str("policy"), "committed_revision"));
    }
    let recorded = journal.record(index, Phase::Complete, None, now);
    assert(recorded is Ok);
    Ok(())
}

/// Take the reply to a placement request: committed where it denotes the
/// planned operation, stale otherwise.
pub fn accept_reply(
    journal: &mut Journal,
    index: u32,
    tenant: &[u8; 16],
    session: &[u8; 16],
    operation: &[u8; 16],
    replied: &[u8; 16],
    now: u64,
) -> (done: Result<(), DeploymentError>)
    requires
        !is_committed(old(journal).steps@, index),
    ensures
        done is Ok <==> *replied == *operation,
        done is Ok ==> final(journal)@ == (JournalModel {
            steps: recorded(
                old(journal).steps@,
                index,
                Phase::Committed,
                Some(*operation),
                now,
            )->0,
            ..old(journal)@
        }),
        done matches Err(error) ==> {
            let moved = Moved {
                subject: session_text(*tenant, *session),
                field: "operation"@,
            };
            tells(error, moved) && final(journal)@ == found_stale(old(journal)@, index, moved)
        },
{
    if !same_16(replied, operation) {
        journal.outcome = Outcome::Stale {
            step: index,
            subject: session_name(tenant, session),
            field: String::from_str("operation"),
        };
        return Err(stale(session_name(tenant, session), "operation"));
    }
    let recorded = journal.record(index, Phase::Committed, Some(*operation), now);
    assert(recorded is Ok);
    Ok(())
}

/// Where following a session leaves its step.
#[derive(Debug, Clone, Copy, PartialEq, Eq, Structural)]
pub enum Followed {
    /// The step is complete.
    Complete,
    /// It is under way; look again after the poll interval.
    Wait,
    /// It is under way and the caller's time is up: the step stays journaled.
    Leave,
}

/// The phase a step is known to have reached.
pub open spec fn reached(steps: Seq<Step>, index: u32) -> Phase {
    match phase_of(steps, index) {
        Some(phase) => phase,
        None => Phase::Committed,
    }
}

/// Follow a committed placement request: advance its record to what the
/// directory shows and tell whether to look again. The flag tells that the
/// journal changed.
pub fn follow(
    journal: &mut Journal,
    index: u32,
    progress: Phase,
    expired: bool,
    now: u64,
) -> (next: (Followed, bool))
    ensures
        next.0 == (if progress == Phase::Complete {
            Followed::Complete
        } else if expired {
            Followed::Leave
        } else {
            Followed::Wait
        }),
        next.1 == (progress.rank() > reached(old(journal).steps@, index).rank()),
        next.1 ==> final(journal)@ == (JournalModel {
            steps: recorded(old(journal).steps@, index, progress, None, now)->0,
            ..old(journal)@
        }),
        !next.1 ==> final(journal)@ == old(journal)@,
{
    let reached: u8 = match journal.phase(index) {
        None => 1,
        Some(phase) => phase.order(),
    };
    let advanced = progress.order() > reached;
    if advanced {
        let recorded = journal.record(index, progress, None, now);
        assert(recorded is Ok);
    }
    let next = if progress == Phase::Complete {
        Followed::Complete
    } else if expired {
        Followed::Leave
    } else {
        Followed::Wait
    };
    (next, advanced)
}

/// Whether the first `n` steps are complete.
pub open spec fn all_complete(steps: Seq<Step>, n: int) -> bool {
    forall|i: int| 0 <= i < n ==> phase_of(steps, #[trigger] (i as u32)) == Some(Phase::Complete)
}

/// Whether every step of a plan is complete.
pub fn complete(journal: &Journal, count: u32) -> (complete: bool)
    ensures
        complete == all_complete(journal.steps@, count as int),
{
    let mut i: u32 = 0;
    while i < count
        invariant
            i <= count,
            all_complete(journal.steps@, i as int),
        decreases count - i,
    {
        let done = match journal.phase(i) {
            None => false,
            Some(phase) => phase == Phase::Complete,
        };
        if !done {
            assert(i as int as u32 == i);
            return false;
        }
        i += 1;
    }
    true
}

/// Close an application: complete where every step is, in progress otherwise.
pub fn finish(journal: &mut Journal, count: u32)
    ensures
        final(journal)@ == (JournalModel {
            outcome: if all_complete(old(journal).steps@, count as int) {
                OutcomeModel::Complete
            } else {
                OutcomeModel::InProgress
            },
            ..old(journal)@
        }),
{
    let complete = complete(journal, count);
    journal.outcome = if complete {
        Outcome::Complete
    } else {
        Outcome::InProgress
    };
}

/// A placement step that was sent and is not complete yet is re-evaluated.
pub open spec fn reevaluated_step(
    change: ChangeModel,
    index: u32,
    steps: Seq<Step>,
    current: Current,
    now: u64,
) -> Seq<Step> {
    match change {
        ChangeModel::PlanSession { tenant, session, durability, operation, expected, .. } => {
            let progress = progress_of(
                current.session(tenant, session),
                operation,
                durability,
                expected.placement,
            );
            match phase_of(steps, index) {
                Some(phase) => if phase.rank() >= Phase::Committed.rank() && phase
                    != Phase::Complete && progress.rank() > phase.rank() {
                    recorded(steps, index, progress, None, now)->0
                } else {
                    steps
                },
                None => steps,
            }
        },
        _ => steps,
    }
}

/// The records after the first `n` changes were re-evaluated in order.
pub open spec fn reevaluated(
    changes: Seq<ChangeModel>,
    n: int,
    steps: Seq<Step>,
    current: Current,
    now: u64,
) -> Seq<Step>
    decreases n,
{
    if n <= 0 {
        steps
    } else {
        reevaluated_step(
            changes[n - 1],
            (n - 1) as u32,
            reevaluated(changes, n - 1, steps, current, now),
            current,
            now,
        )
    }
}

/// Re-evaluate a journal in progress against the current facts, advancing
/// steps whose effect is now visible, and close it where every step is
/// complete. The flag tells whether the journal changed.
pub fn reevaluate(
    plan: &DeploymentPlan,
    journal: &mut Journal,
    current: &Current,
    now: u64,
) -> (changed: bool)
    requires
        current.well_formed(),
        plan.body.changes@.len() <= u32::MAX,
    ensures
        ({
            let n = plan.body.changes@.len() as int;
            let steps = reevaluated(models(plan.body.changes@), n, old(journal).steps@, *current, now);
            if old(journal).outcome is InProgress {
                &&& final(journal)@ == (JournalModel {
                    steps,
                    outcome: if all_complete(steps, n) {
                        OutcomeModel::Complete
                    } else {
                        OutcomeModel::InProgress
                    },
                    ..old(journal)@
                })
                &&& !changed ==> steps == old(journal).steps@ && !all_complete(steps, n)
            } else {
                final(journal)@ == old(journal)@ && !changed
            }
        }),
{
    match &journal.outcome {
        Outcome::InProgress => {},
        _ => {
            return false;
        },
    }
    let mut changed = false;
    let ghost all = models(plan.body.changes@);
    let ghost before = journal@;
    let mut i: usize = 0;
    while i < plan.body.changes.len()
        invariant
            i <= plan.body.changes.len() <= u32::MAX,
            current.well_formed(),
            all == models(plan.body.changes@),
            journal@ == (JournalModel {
                steps: reevaluated(all, i as int, before.steps, *current, now),
                ..before
            }),
            !changed ==> journal.steps@ == before.steps,
        decreases plan.body.changes.len() - i,
    {
        assert(all[i as int] == plan.body.changes@[i as int]@);
        match &plan.body.changes[i] {
            Change::PlanSession { tenant, session, durability, operation, expected, .. } => {
                let reached = journal.phase(i as u32);
                let order: u8 = match reached {
                    None => 0,
                    Some(phase) => phase.order(),
                };
                if order >= 1 && order < 3 {
                    let progress = session_progress(
                        current.find(tenant, session),
                        *operation,
                        *durability,
                        expected.placement,
                    );
                    if progress.order() > order {
                        let recorded = journal.record(i as u32, progress, None, now);
                        assert(recorded is Ok);
                        changed = true;
                    }
                }
            },
            _ => {},
        }
        i += 1;
    }
    if complete(journal, plan.body.changes.len() as u32) {
        journal.outcome = Outcome::Complete;
        changed = true;
    }
    changed
}

/// Check that the files of a journaled plan belong together.
pub fn same_plan(
    id: &[u8; 16],
    plan: &DeploymentPlan,
    journal: &Journal,
) -> (done: Result<(), DeploymentError>)
    ensures
        done is Ok <==> journal.plan_id == *id && plan.plan_id == *id,
        done matches Err(error) ==> refusal_of(error) == Some(
            Refusal::Corrupt("journal names another plan"@),
        ),
{
    if !same_16(&journal.plan_id, id) || !same_16(&plan.plan_id, id) {
        return Err(DeploymentError::Corrupt("journal names another plan"));
    }
    Ok(())
}

/// Re-evaluating never lets a step fall behind: every recorded phase is kept
/// or advanced.
pub proof fn reevaluation_only_advances(
    changes: Seq<ChangeModel>,
    n: int,
    steps: Seq<Step>,
    current: Current,
    now: u64,
    watched: u32,
)
    requires
        0 <= n <= changes.len(),
        changes.len() <= u32::MAX,
        phase_of(steps, watched) is Some,
    ensures
        phase_of(reevaluated(changes, n, steps, current, now), watched) matches Some(after)
            && after.rank() >= (phase_of(steps, watched)->0).rank(),
    decreases n,
{
    if n > 0 {
        reevaluation_only_advances(changes, n - 1, steps, current, now, watched);
        let before = reevaluated(changes, n - 1, steps, current, now);
        let after = reevaluated(changes, n, steps, current, now);
        let index = (n - 1) as u32;
        if after != before {
            if let ChangeModel::PlanSession {
                tenant,
                session,
                durability,
                operation,
                expected,
                ..
            } = changes[n - 1] {
                let progress = progress_of(
                    current.session(tenant, session),
                    operation,
                    durability,
                    expected.placement,
                );
                super::journal::phases_only_advance(before, index, progress, None, now, watched);
            }
        }
    }
}

} // verus!
