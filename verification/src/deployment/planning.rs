//! What a composed plan says of what was observed and asked for: which change
//! stands where, at which level, and what is promised.
use super::facts::{
    BlockedModel, ChangeModel, DeploymentPlan, Observation, PlanModel, ProposalModel, SessionModel,
};
use super::plan::{
    achieved_by, admitted, artifact, body_of, decoded, identity_of, level_of, refused_sessions,
    session_changes, weakest, Refusal, MAX_PLAN_BYTES, MAX_SESSIONS, SCHEMA,
};
use super::{Guarantee, GuaranteeLevel};
use crate::codec::{models, Wire};
use crate::config::policy::PolicyModel;
use crate::config::FailureDomain;
use crate::hashing::blake3_hash;
use vstd::prelude::*;

verus! {

/// How many of the first `n` proposals change something, or say that nothing
/// changes: those that were not refused.
pub open spec fn taken(proposals: Seq<ProposalModel>, n: int) -> int
    decreases n,
{
    if n <= 0 {
        0
    } else {
        taken(proposals, n - 1) + (if proposals[n - 1] is Refused {
            0int
        } else {
            1int
        })
    }
}

proof fn lemma_answers(
    sessions: Seq<SessionModel>,
    proposals: Seq<ProposalModel>,
    target: GuaranteeLevel,
    i: int,
)
    requires
        sessions.len() == proposals.len(),
        0 <= i < sessions.len(),
    ensures
        session_changes(sessions, proposals, target).len() == taken(
            proposals,
            sessions.len() as int,
        ),
        refused_sessions(sessions, proposals).len() == sessions.len() - taken(
            proposals,
            sessions.len() as int,
        ),
        0 <= taken(proposals, i) <= i,
        match proposals[i] {
            ProposalModel::Satisfied => taken(proposals, i) < session_changes(
                sessions,
                proposals,
                target,
            ).len() && session_changes(sessions, proposals, target)[taken(proposals, i)] == (
            ChangeModel::NoChange { tenant: sessions[i].tenant, session: sessions[i].session }),
            ProposalModel::Planned { operation, voters } => taken(proposals, i)
                < session_changes(sessions, proposals, target).len() && session_changes(
                sessions,
                proposals,
                target,
            )[taken(proposals, i)] == (ChangeModel::PlanSession {
                tenant: sessions[i].tenant,
                session: sessions[i].session,
                durability: target,
                operation,
                voters,
                expected: sessions[i].epochs,
                pending: false,
            }),
            ProposalModel::Pending { operation, voters } => taken(proposals, i)
                < session_changes(sessions, proposals, target).len() && session_changes(
                sessions,
                proposals,
                target,
            )[taken(proposals, i)] == (ChangeModel::PlanSession {
                tenant: sessions[i].tenant,
                session: sessions[i].session,
                durability: target,
                operation,
                voters,
                expected: sessions[i].epochs,
                pending: true,
            }),
            ProposalModel::Refused(reason) => i - taken(proposals, i) < refused_sessions(
                sessions,
                proposals,
            ).len() && refused_sessions(sessions, proposals)[i - taken(proposals, i)] == (
            BlockedModel { tenant: sessions[i].tenant, session: sessions[i].session, reason }),
        },
    decreases sessions.len(),
{
    let (front, before) = (sessions.drop_last(), proposals.drop_last());
    let n = front.len() as int;
    lemma_taken_front(proposals, n);
    lemma_taken_front(proposals, i);
    lemma_taken_bounds(proposals, i);
    if i < n {
        lemma_answers(front, before, target, i);
        assert(front[i] == sessions[i] && before[i] == proposals[i]);
        lemma_taken_grows(before, i, n);
    } else if n > 0 {
        lemma_answers(front, before, target, 0);
    } else {
        assert(session_changes(front, before, target).len() == 0);
        assert(refused_sessions(front, before).len() == 0);
    }
}

proof fn lemma_taken_front(proposals: Seq<ProposalModel>, n: int)
    requires
        0 <= n < proposals.len(),
    ensures
        taken(proposals.drop_last(), n) == taken(proposals, n),
    decreases n,
{
    if n > 0 {
        lemma_taken_front(proposals, n - 1);
        assert(proposals.drop_last()[n - 1] == proposals[n - 1]);
    }
}

proof fn lemma_taken_bounds(proposals: Seq<ProposalModel>, n: int)
    requires
        0 <= n,
    ensures
        0 <= taken(proposals, n) <= n,
    decreases n,
{
    if n > 0 {
        lemma_taken_bounds(proposals, n - 1);
    }
}

proof fn lemma_taken_grows(proposals: Seq<ProposalModel>, i: int, n: int)
    requires
        0 <= i < n <= proposals.len(),
    ensures
        taken(proposals, i) <= taken(proposals, n),
        i - taken(proposals, i) <= n - taken(proposals, n),
    decreases n,
{
    if i < n - 1 {
        lemma_taken_grows(proposals, i, n - 1);
    }
}

/// Every observed session is answered by its own proposal, in its own place: a
/// placement that is planned or pending asks for exactly the durability the
/// request asks for, of that session, under that proposal's operation and
/// voters, and on the epochs that were observed; a session that is satisfied is
/// left as it is; one whose request was refused is blocked for that reason.
pub proof fn every_session_is_asked_for_what_was_requested(
    observation: Observation,
    requested: PolicyModel,
    proposals: Seq<ProposalModel>,
    i: int,
)
    requires
        observation.sessions@.len() == proposals.len(),
        0 <= i < proposals.len(),
    ensures
        ({
            let body = body_of(observation, requested, proposals);
            let session = observation.sessions@[i];
            let commits = if observation.committed.intent@ == requested {
                0int
            } else {
                1int
            };
            let at = commits + taken(proposals, i);
            match proposals[i] {
                ProposalModel::Satisfied => 0 <= at < body.changes.len() && body.changes[at] == (
                ChangeModel::NoChange { tenant: session.tenant, session: session.session }),
                ProposalModel::Planned { operation, voters } => 0 <= at < body.changes.len() && (
                body.changes[at] matches ChangeModel::PlanSession {
                    tenant: t,
                    session: s,
                    durability: d,
                    operation: o,
                    voters: v,
                    expected: e,
                    pending: p,
                } && t == session.tenant && s == session.session && d.survive
                    == requested.durability.survive && d.max_failures
                    == requested.durability.max_failures && o == operation && v == voters && e
                    == session.epochs && !p),
                ProposalModel::Pending { operation, voters } => 0 <= at < body.changes.len() && (
                body.changes[at] matches ChangeModel::PlanSession {
                    tenant: t,
                    session: s,
                    durability: d,
                    operation: o,
                    voters: v,
                    expected: e,
                    pending: p,
                } && t == session.tenant && s == session.session && d.survive
                    == requested.durability.survive && d.max_failures
                    == requested.durability.max_failures && o == operation && v == voters && e
                    == session.epochs && p),
                ProposalModel::Refused(reason) => {
                    let place = i - taken(proposals, i);
                    0 <= place < body.blocked.len() && body.blocked[place] == (BlockedModel {
                        tenant: session.tenant,
                        session: session.session,
                        reason,
                    })
                },
            }
        }),
{
    let sessions = models(observation.sessions@);
    lemma_answers(sessions, proposals, level_of(requested), i);
    assert(sessions[i] == observation.sessions@[i]@);
}

/// A plan changes nothing else: it has one change for each session that was not
/// refused, one blocked entry for each that was, and a policy commit exactly
/// where the request differs from what is committed.
pub proof fn a_plan_changes_nothing_else(
    observation: Observation,
    requested: PolicyModel,
    proposals: Seq<ProposalModel>,
)
    requires
        observation.sessions@.len() == proposals.len(),
    ensures
        ({
            let body = body_of(observation, requested, proposals);
            let n = proposals.len() as int;
            let commits = if observation.committed.intent@ == requested {
                0int
            } else {
                1int
            };
            &&& body.changes.len() == commits + taken(proposals, n)
            &&& body.blocked.len() == n - taken(proposals, n)
        }),
{
    let sessions = models(observation.sessions@);
    if proposals.len() > 0 {
        lemma_answers(sessions, proposals, level_of(requested), 0);
    }
}

/// The policy commit takes the revision that was observed to the one behind it.
pub proof fn the_commit_follows_the_observed_revision(
    observation: Observation,
    requested: PolicyModel,
    proposals: Seq<ProposalModel>,
)
    requires
        observation.committed.intent@ != requested,
        observation.committed.revision.0 < u64::MAX,
    ensures
        body_of(observation, requested, proposals).changes[0] == (ChangeModel::CommitPolicy {
            from_revision: observation.committed.revision.0,
            to_revision: (observation.committed.revision.0 + 1) as u64,
        }),
{
}

/// A plan holds what was observed and what was asked for, as they were.
pub proof fn a_plan_holds_what_it_was_made_of(
    observation: Observation,
    requested: PolicyModel,
    proposals: Seq<ProposalModel>,
)
    ensures
        ({
            let body = body_of(observation, requested, proposals);
            &&& body.deployment == observation.deployment
            &&& body.requested == requested
            &&& body.observed.policy_revision == observation.committed.revision.0
            &&& body.observed.policy_hash == observation.committed.hash
            &&& body.observed.policy == observation.committed.intent@
            &&& body.observed.sessions.len() == observation.sessions@.len()
            &&& forall|i: int|
                0 <= i < observation.sessions@.len() ==> #[trigger] body.observed.sessions[i]
                    == observation.sessions@[i]@
            &&& body.observed.nodes.len() == observation.nodes@.len()
            &&& forall|i: int|
                0 <= i < observation.nodes@.len() ==> #[trigger] body.observed.nodes[i]
                    == observation.nodes@[i]@
        }),
{
}

/// The guarantee before a plan is one a session really has: the weakest of all,
/// nothing where one is unknown, and what is committed where there is none.
pub proof fn the_guarantee_before_is_the_weakest_there_is(
    observation: Observation,
    requested: PolicyModel,
    proposals: Seq<ProposalModel>,
)
    ensures
        ({
            let guarantee = body_of(observation, requested, proposals).guarantee;
            let sessions = observation.sessions@;
            &&& sessions.len() == 0 ==> guarantee.before.survive
                == observation.committed.intent@.durability.survive
                && guarantee.before.max_failures
                == observation.committed.intent@.durability.max_failures
            &&& sessions.len() > 0 ==> exists|i: int|
                0 <= i < sessions.len() && guarantee.before == (
                match (#[trigger] sessions[i]).achieved {
                    Some(level) => level,
                    None => GuaranteeLevel { survive: FailureDomain::Node, max_failures: 0 },
                })
            &&& forall|i: int|
                0 <= i < sessions.len() ==> {
                    let has = match (#[trigger] sessions[i]).achieved {
                        Some(level) => level,
                        None => GuaranteeLevel { survive: FailureDomain::Node, max_failures: 0 },
                    };
                    has.max_failures > guarantee.before.max_failures || (has.max_failures
                        == guarantee.before.max_failures && !(has.survive is Node
                        && !(guarantee.before.survive is Node)) && !(has.survive is Zone
                        && guarantee.before.survive is Region))
                }
            &&& guarantee.during == guarantee.before
        }),
{
    let sessions = models(observation.sessions@);
    if sessions.len() > 0 {
        lemma_weakest_is_one(sessions);
        let i = choose|i: int|
            0 <= i < sessions.len() && weakest(sessions) == Some(
                achieved_by(#[trigger] sessions[i]),
            );
        assert(sessions[i] == observation.sessions@[i]@);
    }
    assert forall|i: int| 0 <= i < observation.sessions@.len() implies {
        let has = match (#[trigger] observation.sessions@[i]).achieved {
            Some(level) => level,
            None => GuaranteeLevel { survive: FailureDomain::Node, max_failures: 0 },
        };
        let before = body_of(observation, requested, proposals).guarantee.before;
        has.max_failures > before.max_failures || (has.max_failures == before.max_failures && !(
        has.survive is Node && !(before.survive is Node)) && !(has.survive is Zone
            && before.survive is Region))
    } by {
        assert(sessions[i] == observation.sessions@[i]@);
        super::plan::every_session_covers_before(sessions, i);
    }
}

proof fn lemma_weakest_is_one(sessions: Seq<SessionModel>)
    requires
        sessions.len() > 0,
    ensures
        exists|i: int|
            0 <= i < sessions.len() && weakest(sessions) == Some(
                achieved_by(#[trigger] sessions[i]),
            ),
    decreases sessions.len(),
{
    let front = sessions.drop_last();
    let last = sessions.len() - 1;
    assert(sessions[last] == sessions.last());
    if front.len() > 0 {
        lemma_weakest_is_one(front);
        let i = choose|i: int|
            0 <= i < front.len() && weakest(front) == Some(achieved_by(#[trigger] front[i]));
        assert(sessions[i] == front[i]);
        assert(weakest(sessions) == Some(achieved_by(sessions[i])) || weakest(sessions) == Some(
            achieved_by(sessions[last]),
        ));
    } else {
        assert(weakest(sessions) == Some(achieved_by(sessions[last])));
    }
}

/// What a plan promises behind it is what was asked for, where no session is
/// blocked, and no more than before where one is.
pub proof fn a_plan_promises_what_was_requested(
    observation: Observation,
    requested: PolicyModel,
    proposals: Seq<ProposalModel>,
)
    requires
        observation.sessions@.len() == proposals.len(),
    ensures
        ({
            let guarantee: Guarantee = body_of(observation, requested, proposals).guarantee;
            let refused = exists|i: int|
                0 <= i < proposals.len() && #[trigger] proposals[i] is Refused;
            &&& !refused ==> guarantee.after.survive == requested.durability.survive
                && guarantee.after.max_failures == requested.durability.max_failures
            &&& refused ==> guarantee.after == guarantee.before
        }),
{
    let sessions = models(observation.sessions@);
    let n = proposals.len() as int;
    if n > 0 {
        lemma_answers(sessions, proposals, level_of(requested), 0);
    }
    lemma_taken_all(proposals, n);
}

proof fn lemma_taken_all(proposals: Seq<ProposalModel>, n: int)
    requires
        0 <= n <= proposals.len(),
    ensures
        taken(proposals, n) == n <==> (forall|i: int|
            0 <= i < n ==> !(#[trigger] proposals[i] is Refused)),
        taken(proposals, n) <= n,
    decreases n,
{
    if n > 0 {
        lemma_taken_all(proposals, n - 1);
    }
}

/// Levels rank by the failures they tolerate first, then by how broad a domain
/// they survive: a node, a zone, a region.
pub proof fn levels_rank_by_failures_then_breadth(a: GuaranteeLevel, b: GuaranteeLevel)
    ensures
        a.max_failures < b.max_failures ==> a.below(b) && !b.below(a),
        a.max_failures == b.max_failures ==> (a.below(b) <==> (a.survive is Node && !(b.survive
            is Node)) || (a.survive is Zone && b.survive is Region)),
        a.weaker_of(b) == (if b.below(a) {
            b
        } else {
            a
        }),
{
}

/// A plan that is taken from a file is this schema's, is named by its own body,
/// holds no more than fits, and ends in the hash of what stands before it.
pub proof fn a_plan_is_taken_as_it_was_made(bytes: Seq<u8>)
    ensures
        decoded(bytes) matches Ok(plan) ==> plan.schema == SCHEMA && plan.plan_id == identity_of(
            plan.body,
        ) && plan.body.changes.len() <= MAX_SESSIONS + 1 && plan.body.observed.sessions.len()
            <= MAX_SESSIONS && 32 <= bytes.len() <= MAX_PLAN_BYTES && bytes.skip(bytes.len() - 32)
            == blake3_hash(bytes.take(bytes.len() - 32))@,
        bytes.len() > MAX_PLAN_BYTES ==> decoded(bytes) == Err::<PlanModel, Refusal>(
            Refusal::Capacity,
        ),
        bytes.len() < 32 ==> decoded(bytes) is Err,
{
}

/// A plan is admitted exactly where its schema is this one, its name is its
/// body's, and it holds no more than fits.
pub proof fn when_a_plan_is_admitted(plan: PlanModel)
    ensures
        admitted(plan) is Ok <==> plan.schema == SCHEMA && plan.plan_id == identity_of(plan.body)
            && plan.body.changes.len() <= MAX_SESSIONS + 1 && plan.body.observed.sessions.len()
            <= MAX_SESSIONS,
        admitted(plan) is Ok ==> admitted(plan)->Ok_0 == plan,
        plan.schema == SCHEMA && plan.plan_id == identity_of(plan.body) && (
        plan.body.changes.len() > MAX_SESSIONS + 1 || plan.body.observed.sessions.len()
            > MAX_SESSIONS) ==> admitted(plan) == Err::<PlanModel, Refusal>(Refusal::Capacity),
{
}

/// The last revision has no successor: a commit over it names it again.
pub proof fn the_last_revision_stays(
    observation: Observation,
    requested: PolicyModel,
    proposals: Seq<ProposalModel>,
)
    requires
        observation.committed.intent@ != requested,
        observation.committed.revision.0 == u64::MAX,
    ensures
        body_of(observation, requested, proposals).changes[0] == (ChangeModel::CommitPolicy {
            from_revision: u64::MAX,
            to_revision: u64::MAX,
        }),
{
}

/// A plan's file begins with its mark, and a file that begins otherwise is none.
pub proof fn a_plan_begins_with_its_mark(plan: PlanModel, bytes: Seq<u8>)
    ensures
        artifact(plan).take(8) == seq![70u8, 67u8, 76u8, 80u8, 76u8, 65u8, 78u8, 49u8],
        artifact(plan).len() == 40 + DeploymentPlan::bytes(plan).len(),
        artifact(plan).subrange(8, artifact(plan).len() - 32) == DeploymentPlan::bytes(plan),
        decoded(bytes) is Ok ==> bytes.len() >= 40 && bytes.take(8) == seq![
            70u8,
            67u8,
            76u8,
            80u8,
            76u8,
            65u8,
            78u8,
            49u8,
        ],
{
    let file = artifact(plan);
    let mark = seq![70u8, 67u8, 76u8, 80u8, 76u8, 65u8, 78u8, 49u8];
    assert(file.take(8) =~= mark);
    assert(file.subrange(8, file.len() - 32) =~= DeploymentPlan::bytes(plan));
    if decoded(bytes) is Ok {
        let prefix = bytes.take(bytes.len() - 32);
        assert(bytes.take(8) =~= prefix.take(8));
    }
}

} // verus!
