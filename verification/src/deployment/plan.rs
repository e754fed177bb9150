//! The plan artifact and its composition from observations.
use super::facts::{
    copy_nodes, copy_sessions, Blocked, BlockedModel, BodyModel, Change, ChangeModel,
    DeploymentPlan, Observation, Observed, ObservedModel, PlanBody, PlanModel, Proposal,
    ProposalModel, SessionModel,
};
use super::{no_loss, DeploymentError, Guarantee, GuaranteeLevel};
use crate::codec::{append, bytes_all, models, varint_is_short, Wire};
use crate::config::policy::{policy_hash, PolicyIntent, PolicyModel};
use crate::hashing::{
    blake3_derive_key, blake3_hash, cut, derive_key, front, hash, same_16, same_bytes,
};
use vstd::prelude::*;

verus! {

/// The layout a plan file is written in.
pub const SCHEMA: u16 = 1;

/// A plan file never exceeds this; the directory view it is built from is
/// itself bounded.
pub const MAX_PLAN_BYTES: usize = 4 * 1024 * 1024;

/// Sessions one plan names at most.
pub const MAX_SESSIONS: usize = 4096;

/// The bytes a plan file starts with: `FCLPLAN1`.
pub open spec fn magic() -> Seq<u8> {
    seq![70u8, 67u8, 76u8, 80u8, 76u8, 65u8, 78u8, 49u8]
}

/// The bytes a plan file starts with.
pub fn magic_bytes() -> (bytes: [u8; 8])
    ensures
        bytes@ == magic(),
{
    let bytes: [u8; 8] = [70, 67, 76, 80, 76, 65, 78, 49];
    assert(bytes@ =~= magic());
    bytes
}

/// The level a policy asks for.
pub open spec fn level_of(policy: PolicyModel) -> GuaranteeLevel {
    GuaranteeLevel {
        survive: policy.durability.survive,
        max_failures: policy.durability.max_failures,
    }
}

/// The level a policy asks for.
pub fn level(intent: &PolicyIntent) -> (level: GuaranteeLevel)
    ensures
        level == level_of(intent@),
{
    GuaranteeLevel {
        survive: intent.durability.survive,
        max_failures: intent.durability.max_failures,
    }
}

/// The identity of a body: the front of the key derived from its bytes.
pub open spec fn identity_of(body: BodyModel) -> [u8; 16] {
    front(blake3_derive_key("focal.deployment.plan.v1"@, PlanBody::bytes(body)))
}

/// Derive a plan's identity from its body.
pub fn plan_id(body: &PlanBody) -> (id: Result<[u8; 16], DeploymentError>)
    ensures
        id == Ok::<[u8; 16], DeploymentError>(identity_of(body@)),
{
    let mut bytes: Vec<u8> = Vec::new();
    body.put(&mut bytes);
    assert(bytes@ =~= PlanBody::bytes(body@));
    let key = derive_key("focal.deployment.plan.v1", bytes.as_slice());
    Ok(cut(&key))
}

/// What a session is known to achieve: nothing while unknown.
pub open spec fn achieved_by(session: SessionModel) -> GuaranteeLevel {
    match session.achieved {
        Some(level) => level,
        None => no_loss(),
    }
}

/// The weakest level the sessions achieve, absent without sessions.
pub open spec fn weakest(sessions: Seq<SessionModel>) -> Option<GuaranteeLevel>
    decreases sessions.len(),
{
    if sessions.len() == 0 {
        None
    } else {
        let last = achieved_by(sessions.last());
        match weakest(sessions.drop_last()) {
            None => Some(last),
            Some(level) => Some(level.weaker_of(last)),
        }
    }
}

/// The changes proposals make of their sessions, in observation order; a
/// refused session makes none.
pub open spec fn session_changes(
    sessions: Seq<SessionModel>,
    proposals: Seq<ProposalModel>,
    target: GuaranteeLevel,
) -> Seq<ChangeModel>
    decreases sessions.len(),
{
    if sessions.len() == 0 || proposals.len() == 0 {
        Seq::empty()
    } else {
        let before = session_changes(sessions.drop_last(), proposals.drop_last(), target);
        let s = sessions.last();
        match proposals.last() {
            ProposalModel::Satisfied => before.push(
                ChangeModel::NoChange { tenant: s.tenant, session: s.session },
            ),
            ProposalModel::Planned { operation, voters } => before.push(
                ChangeModel::PlanSession {
                    tenant: s.tenant,
                    session: s.session,
                    durability: target,
                    operation,
                    voters,
                    expected: s.epochs,
                    pending: false,
                },
            ),
            ProposalModel::Pending { operation, voters } => before.push(
                ChangeModel::PlanSession {
                    tenant: s.tenant,
                    session: s.session,
                    durability: target,
                    operation,
                    voters,
                    expected: s.epochs,
                    pending: true,
                },
            ),
            ProposalModel::Refused(_) => before,
        }
    }
}

/// The sessions whose request was refused, in observation order.
pub open spec fn refused_sessions(
    sessions: Seq<SessionModel>,
    proposals: Seq<ProposalModel>,
) -> Seq<BlockedModel>
    decreases sessions.len(),
{
    if sessions.len() == 0 || proposals.len() == 0 {
        Seq::empty()
    } else {
        let before = refused_sessions(sessions.drop_last(), proposals.drop_last());
        let s = sessions.last();
        match proposals.last() {
            ProposalModel::Refused(reason) => before.push(
                BlockedModel { tenant: s.tenant, session: s.session, reason },
            ),
            _ => before,
        }
    }
}

/// A revision's successor; the last revision stays.
pub open spec fn next_revision(revision: u64) -> u64 {
    if revision < u64::MAX {
        (revision + 1) as u64
    } else {
        u64::MAX
    }
}

/// The policy commit a request needs: one where it asks for something else
/// than is committed.
pub open spec fn policy_changes(
    revision: u64,
    committed: PolicyModel,
    requested: PolicyModel,
) -> Seq<ChangeModel> {
    if committed == requested {
        Seq::empty()
    } else {
        seq![
            ChangeModel::CommitPolicy {
                from_revision: revision,
                to_revision: next_revision(revision),
            },
        ]
    }
}

/// The models of a list of proposals.
pub open spec fn proposal_models(proposals: Seq<Proposal>) -> Seq<ProposalModel> {
    Seq::new(proposals.len(), |i: int| proposals[i]@)
}

/// The guarantee a plan carries: what the sessions achieve (the committed
/// policy without any) holds until the plan completes, and stays where a
/// session is blocked.
pub open spec fn guarantee_of(
    sessions: Seq<SessionModel>,
    committed: PolicyModel,
    target: GuaranteeLevel,
    blocked: Seq<BlockedModel>,
) -> Guarantee {
    let before = match weakest(sessions) {
        Some(level) => level,
        None => level_of(committed),
    };
    Guarantee {
        before,
        during: before,
        after: if blocked.len() == 0 {
            target
        } else {
            before
        },
    }
}

/// The body of the plan that answers an observation with a request.
pub open spec fn body_of(
    observation: Observation,
    requested: PolicyModel,
    proposals: Seq<ProposalModel>,
) -> BodyModel {
    let committed = observation.committed.intent@;
    let sessions = models(observation.sessions@);
    let blocked = refused_sessions(sessions, proposals);
    BodyModel {
        deployment: observation.deployment,
        observed: ObservedModel {
            policy_revision: observation.committed.revision.0,
            policy_hash: observation.committed.hash,
            policy: committed,
            sessions,
            nodes: models(observation.nodes@),
        },
        requested,
        policy_hash: policy_hash(requested),
        changes: policy_changes(observation.committed.revision.0, committed, requested)
            + session_changes(sessions, proposals, level_of(requested)),
        guarantee: guarantee_of(sessions, committed, level_of(requested), blocked),
        blocked,
    }
}

/// Compose a plan: the policy commit first when the request differs from the
/// committed intent, then one change per observed session in observation
/// order (`proposals` answers them in the same order). Sessions whose
/// request was refused are listed as blocked and the guarantee after the
/// plan stays the guarantee before it.
pub fn compose(
    observation: &Observation,
    requested: &PolicyIntent,
    proposals: &[Proposal],
    created_ms: u64,
) -> (plan: Result<DeploymentPlan, DeploymentError>)
    ensures
        plan is Ok == (observation.sessions@.len() <= MAX_SESSIONS && proposals@.len()
            == observation.sessions@.len()),
        plan matches Err(error) ==> error is Capacity,
        plan matches Ok(p) ==> {
            let body = body_of(*observation, requested@, proposal_models(proposals@));
            p.model() == (PlanModel {
                schema: SCHEMA,
                plan_id: identity_of(body),
                created_ms,
                observed_at: observation.observed_at,
                body,
            })
        },
{
    if observation.sessions.len() > MAX_SESSIONS || proposals.len() != observation.sessions.len() {
        return Err(DeploymentError::Capacity);
    }
    let mut changes: Vec<Change> = Vec::new();
    let mut blocked: Vec<Blocked> = Vec::new();
    let committed = &observation.committed;
    let digest = requested.hash();
    let revision: u64 = committed.revision.0;
    let ghost head = policy_changes(revision, committed.intent@, requested@);
    if !committed.intent.same(requested) {
        let next: u64 = if revision < u64::MAX {
            revision + 1
        } else {
            u64::MAX
        };
        changes.push(Change::CommitPolicy { from_revision: revision, to_revision: next });
    }
    assert(models(changes@) =~= head);
    let target = level(requested);
    let mut before: Option<GuaranteeLevel> = None;
    let ghost all = models(observation.sessions@);
    let ghost answers = proposal_models(proposals@);
    let mut i: usize = 0;
    proof {
        assert(all.take(0) =~= Seq::<SessionModel>::empty());
        assert(answers.take(0) =~= Seq::<ProposalModel>::empty());
        assert(models(changes@) =~= head + session_changes(all.take(0), answers.take(0), target));
        assert(models(blocked@) =~= refused_sessions(all.take(0), answers.take(0)));
    }
    while i < observation.sessions.len()
        invariant
            i <= observation.sessions.len(),
            proposals@.len() == observation.sessions@.len(),
            all == models(observation.sessions@),
            answers == proposal_models(proposals@),
            before == weakest(all.take(i as int)),
            models(changes@) == head + session_changes(
                all.take(i as int),
                answers.take(i as int),
                target,
            ),
            models(blocked@) == refused_sessions(all.take(i as int), answers.take(i as int)),
        decreases observation.sessions.len() - i,
    {
        let session = &observation.sessions[i];
        let proposal = &proposals[i];
        let ghost done = models(changes@);
        let ghost left_out = models(blocked@);
        proof {
            assert(all.take(i + 1).drop_last() =~= all.take(i as int));
            assert(answers.take(i + 1).drop_last() =~= answers.take(i as int));
            assert(all.take(i + 1).last() == session@);
            assert(answers.take(i + 1).last() == proposal@);
        }
        let achieved = match session.achieved {
            Some(level) => level,
            None => GuaranteeLevel::none(),
        };
        before = match before {
            None => Some(achieved),
            Some(level) => Some(level.weaker(achieved)),
        };
        match proposal {
            Proposal::Satisfied => {
                changes.push(
                    Change::NoChange { tenant: session.tenant, session: session.session },
                );
                assert(models(changes@) =~= done.push(
                    ChangeModel::NoChange { tenant: session.tenant, session: session.session },
                ));
            },
            Proposal::Planned { operation, voters } => {
                let copied = voters.clone();
                assert(copied@ =~= voters@);
                changes.push(
                    Change::PlanSession {
                        tenant: session.tenant,
                        session: session.session,
                        durability: target,
                        operation: *operation,
                        voters: copied,
                        expected: session.epochs,
                        pending: false,
                    },
                );
                assert(models(changes@) =~= done.push(changes@.last()@));
            },
            Proposal::Pending { operation, voters } => {
                let copied = voters.clone();
                assert(copied@ =~= voters@);
                changes.push(
                    Change::PlanSession {
                        tenant: session.tenant,
                        session: session.session,
                        durability: target,
                        operation: *operation,
                        voters: copied,
                        expected: session.epochs,
                        pending: true,
                    },
                );
                assert(models(changes@) =~= done.push(changes@.last()@));
            },
            Proposal::Refused(reason) => {
                blocked.push(
                    Blocked {
                        tenant: session.tenant,
                        session: session.session,
                        reason: reason.clone(),
                    },
                );
                assert(models(blocked@) =~= left_out.push(blocked@.last()@));
            },
        }
        proof {
            assert(models(changes@) =~= head + session_changes(
                all.take(i + 1),
                answers.take(i + 1),
                target,
            ));
        }
        i += 1;
    }
    proof {
        assert(all.take(all.len() as int) =~= all);
        assert(answers.take(answers.len() as int) =~= answers);
    }
    let before = match before {
        Some(level) => level,
        None => level(&committed.intent),
    };
    let after = if blocked.len() == 0 {
        target
    } else {
        before
    };
    let body = PlanBody {
        deployment: observation.deployment,
        observed: Observed {
            policy_revision: revision,
            policy_hash: committed.hash,
            policy: committed.intent.duplicate(),
            sessions: copy_sessions(&observation.sessions),
            nodes: copy_nodes(&observation.nodes),
        },
        requested: requested.duplicate(),
        policy_hash: digest,
        changes,
        guarantee: Guarantee { before, during: before, after },
        blocked,
    };
    let ghost expected = body_of(*observation, requested@, answers);
    assert(models(body.blocked@).len() == body.blocked@.len());
    assert(body@ == expected);
    let id = plan_id(&body)?;
    Ok(
        DeploymentPlan {
            schema: SCHEMA,
            plan_id: id,
            created_ms,
            observed_at: observation.observed_at,
            body,
        },
    )
}

/// Why bytes are not a plan.
pub enum Refusal {
    Capacity,
    Corrupt(Seq<char>),
}

/// The refusal an error tells.
pub open spec fn refusal_of(error: DeploymentError) -> Option<Refusal> {
    match error {
        DeploymentError::Capacity => Some(Refusal::Capacity),
        DeploymentError::Corrupt(why) => Some(Refusal::Corrupt(why@)),
        _ => None,
    }
}

/// A plan file without its trailer.
pub open spec fn sealed(plan: PlanModel) -> Seq<u8> {
    magic() + DeploymentPlan::bytes(plan)
}

/// A plan file: magic, body, then the BLAKE3 hash of both.
pub open spec fn artifact(plan: PlanModel) -> Seq<u8> {
    sealed(plan) + blake3_hash(sealed(plan))@
}

/// Changes take a byte each at least.
proof fn lemma_changes_take_bytes(changes: Seq<ChangeModel>)
    ensures
        bytes_all::<Change>(changes).len() >= changes.len(),
    decreases changes.len(),
{
    if changes.len() > 0 {
        lemma_changes_take_bytes(changes.drop_first());
        let tag: u32 = match changes[0] {
            ChangeModel::CommitPolicy { .. } => 0,
            ChangeModel::PlanSession { .. } => 1,
            ChangeModel::NoChange { .. } => 2,
        };
        varint_is_short(tag as nat);
        assert(Change::bytes(changes[0]).len() >= u32::bytes(tag).len());
    }
}

/// A plan that fits its file has no more changes than the file has bytes, so
/// each has an index.
pub proof fn a_plan_that_fits_is_indexed(plan: PlanModel)
    requires
        artifact(plan).len() <= MAX_PLAN_BYTES,
    ensures
        plan.body.changes.len() <= MAX_PLAN_BYTES,
{
    lemma_changes_take_bytes(plan.body.changes);
    let list = <Vec<Change>>::bytes(plan.body.changes);
    assert(list.len() >= bytes_all::<Change>(plan.body.changes).len());
    assert(PlanBody::bytes(plan.body).len() >= list.len());
    assert(DeploymentPlan::bytes(plan).len() >= PlanBody::bytes(plan.body).len());
}

/// Whether a file starts with some bytes.
pub open spec fn starts_with(bytes: Seq<u8>, prefix: Seq<u8>) -> bool {
    bytes.len() >= prefix.len() && bytes.take(prefix.len() as int) == prefix
}

/// Whether a decoded plan is one this node accepts.
pub open spec fn admitted(plan: PlanModel) -> Result<PlanModel, Refusal> {
    if plan.schema != SCHEMA {
        Err(Refusal::Corrupt("unsupported plan schema"@))
    } else if plan.plan_id != identity_of(plan.body) {
        Err(Refusal::Corrupt("plan identity does not match its body"@))
    } else if plan.body.changes.len() > MAX_SESSIONS + 1 || plan.body.observed.sessions.len()
        > MAX_SESSIONS {
        Err(Refusal::Capacity)
    } else {
        Ok(plan)
    }
}

/// The plan some bytes are, or why they are none: size, trailer, hash,
/// magic, body, schema and identity, in that order.
pub open spec fn decoded(bytes: Seq<u8>) -> Result<PlanModel, Refusal> {
    let prefix = bytes.take(bytes.len() - 32);
    if bytes.len() > MAX_PLAN_BYTES {
        Err(Refusal::Capacity)
    } else if bytes.len() < 32 {
        Err(Refusal::Corrupt("plan is shorter than its trailer"@))
    } else if blake3_hash(prefix)@ != bytes.skip(bytes.len() - 32) {
        Err(Refusal::Corrupt("plan hash does not match its bytes"@))
    } else if !starts_with(prefix, magic()) {
        Err(Refusal::Corrupt("not a plan file"@))
    } else {
        match DeploymentPlan::parse(prefix.skip(8)) {
            None => Err(Refusal::Corrupt("plan body does not decode"@)),
            Some((plan, tail)) => if tail.len() > 0 {
                Err(Refusal::Corrupt("trailing bytes after the plan"@))
            } else {
                admitted(plan)
            },
        }
    }
}

impl DeploymentPlan {
    /// Write the plan file. What is written decodes to the plan, where the
    /// plan is one a node accepts; cut short or lengthened it is refused.
    pub fn encode(&self) -> (file: Result<Vec<u8>, DeploymentError>)
        ensures
            file is Ok == (artifact(self.model()).len() <= MAX_PLAN_BYTES),
            file matches Err(error) ==> error is Capacity,
            file matches Ok(bytes) ==> bytes@ == artifact(self.model()) && decoded(bytes@) == admitted(
                self.model(),
            ),
            file matches Ok(bytes) ==> forall|n: int|
                0 <= n < bytes@.len() ==> decoded(#[trigger] bytes@.take(n)) is Err,
            file matches Ok(bytes) ==> forall|more: Seq<u8>|
                more.len() > 0 ==> decoded(#[trigger] (bytes@ + more)) is Err,
    {
        let mut body: Vec<u8> = Vec::new();
        self.put(&mut body);
        assert(body@ =~= DeploymentPlan::bytes(self.model()));
        if body.len() > MAX_PLAN_BYTES - 40 {
            return Err(DeploymentError::Capacity);
        }
        let mut bytes: Vec<u8> = Vec::new();
        append(&mut bytes, magic_bytes().as_slice());
        append(&mut bytes, body.as_slice());
        assert(bytes@ =~= sealed(self.model()));
        let digest = hash(bytes.as_slice());
        append(&mut bytes, digest.as_slice());
        proof {
            let all = bytes@;
            assert(all.len() == sealed(self.model()).len() + 32);
            assert(all.take(all.len() - 32) =~= sealed(self.model()));
            assert(all.skip(all.len() - 32) =~= digest@);
            assert(sealed(self.model()).take(8) =~= magic());
            assert(sealed(self.model()).skip(8) =~= DeploymentPlan::bytes(self.model()));
            assert(DeploymentPlan::bytes(self.model()) + Seq::<u8>::empty() =~= DeploymentPlan::bytes(
                self.model(),
            ));
            assert(DeploymentPlan::parse(DeploymentPlan::bytes(self.model()) + Seq::<u8>::empty())
                == Some((self.model(), Seq::<u8>::empty())));
            let body = DeploymentPlan::bytes(self.model());
            assert forall|n: int| 0 <= n < all.len() implies decoded(
                #[trigger] all.take(n),
            ) is Err by {
                let cut = all.take(n);
                if n >= 40 {
                    assert(cut.take(n - 32).skip(8) =~= body.take(n - 40));
                    assert(DeploymentPlan::parse(
                        DeploymentPlan::bytes(self.model()).take(n - 40),
                    ) is None);
                }
            }
            assert forall|more: Seq<u8>| more.len() > 0 implies decoded(
                #[trigger] (all + more),
            ) is Err by {
                let long = all + more;
                let extra = (digest@ + more).take(more.len() as int);
                assert(long.take(long.len() - 32).skip(8) =~= body + extra);
                assert(DeploymentPlan::parse(body + extra) == Some((self.model(), extra)));
            }
        }
        Ok(bytes)
    }

    /// Decode and verify a plan: magic, trailer hash, schema and identity.
    pub fn decode(bytes: &[u8]) -> (plan: Result<Self, DeploymentError>)
        ensures
            match plan {
                Ok(p) => decoded(bytes@) == Ok::<PlanModel, Refusal>(p.model()),
                Err(error) => match decoded(bytes@) {
                    Ok(_) => false,
                    Err(refusal) => refusal_of(error) == Some(refusal),
                },
            },
    {
        if bytes.len() > MAX_PLAN_BYTES {
            return Err(DeploymentError::Capacity);
        }
        if bytes.len() < 32 {
            return Err(DeploymentError::Corrupt("plan is shorter than its trailer"));
        }
        let (prefix, trailer) = bytes.split_at(bytes.len() - 32);
        assert(prefix@ =~= bytes@.take(bytes@.len() - 32));
        assert(trailer@ =~= bytes@.skip(bytes@.len() - 32));
        if !same_bytes(hash(prefix).as_slice(), trailer) {
            return Err(DeploymentError::Corrupt("plan hash does not match its bytes"));
        }
        let body = match strip(prefix, &magic_bytes()) {
            None => {
                return Err(DeploymentError::Corrupt("not a plan file"));
            },
            Some(body) => body,
        };
        let (plan, tail) = match DeploymentPlan::read(body) {
            None => {
                return Err(DeploymentError::Corrupt("plan body does not decode"));
            },
            Some(found) => found,
        };
        if tail.len() > 0 {
            return Err(DeploymentError::Corrupt("trailing bytes after the plan"));
        }
        if plan.schema != SCHEMA {
            return Err(DeploymentError::Corrupt("unsupported plan schema"));
        }
        let id = plan_id(&plan.body)?;
        if !same_16(&plan.plan_id, &id) {
            return Err(DeploymentError::Corrupt("plan identity does not match its body"));
        }
        assert(plan.model().body.changes.len() == plan.body.changes@.len());
        assert(plan.model().body.observed.sessions.len() == plan.body.observed.sessions@.len());
        if plan.body.changes.len() > MAX_SESSIONS + 1 || plan.body.observed.sessions.len()
            > MAX_SESSIONS {
            return Err(DeploymentError::Capacity);
        }
        Ok(plan)
    }

    /// The plan hash a journal binds to: the hash of the encoded artifact.
    pub fn hash(&self) -> (digest: Result<[u8; 32], DeploymentError>)
        ensures
            digest is Ok == (artifact(self.model()).len() <= MAX_PLAN_BYTES),
            digest matches Err(error) ==> error is Capacity,
            digest matches Ok(d) ==> d == blake3_hash(artifact(self.model())),
    {
        let bytes = self.encode()?;
        Ok(hash(bytes.as_slice()))
    }

    /// Whether the plan changes anything at all.
    pub fn is_empty(&self) -> (empty: bool)
        ensures
            empty == (forall|i: int|
                0 <= i < self.body.changes@.len() ==> #[trigger] self.body.changes@[i] is NoChange),
    {
        let mut i: usize = 0;
        while i < self.body.changes.len()
            invariant
                i <= self.body.changes.len(),
                forall|j: int|
                    0 <= j < i ==> #[trigger] self.body.changes@[j] is NoChange,
            decreases self.body.changes.len() - i,
        {
            match &self.body.changes[i] {
                Change::NoChange { .. } => {},
                _ => {
                    assert(!(self.body.changes@[i as int] is NoChange));
                    return false;
                },
            }
            i += 1;
        }
        true
    }
}

/// The bytes behind a file's magic.
pub fn strip<'a>(bytes: &'a [u8], prefix: &[u8; 8]) -> (rest: Option<&'a [u8]>)
    ensures
        rest is Some == starts_with(bytes@, prefix@),
        rest matches Some(tail) ==> tail@ == bytes@.skip(8),
{
    if bytes.len() < 8 {
        return None;
    }
    let (head, tail) = bytes.split_at(8);
    assert(head@ =~= bytes@.take(8));
    assert(tail@ =~= bytes@.skip(8));
    if same_bytes(head, prefix.as_slice()) {
        Some(tail)
    } else {
        None
    }
}

/// Time is not identity: two observations that differ only in when they were
/// made give the same plan identity, whenever the plans are created.
pub proof fn identity_is_of_facts_alone(
    first: Observation,
    second: Observation,
    requested: PolicyModel,
    proposals: Seq<ProposalModel>,
)
    requires
        first.deployment == second.deployment,
        first.committed == second.committed,
        first.sessions == second.sessions,
        first.nodes == second.nodes,
    ensures
        identity_of(body_of(first, requested, proposals)) == identity_of(
            body_of(second, requested, proposals),
        ),
{
}

/// A policy commit, where there is one, is a plan's first change and its
/// only commit.
pub proof fn the_policy_commit_comes_first(
    observation: Observation,
    requested: PolicyModel,
    proposals: Seq<ProposalModel>,
    i: int,
)
    requires
        0 <= i < body_of(observation, requested, proposals).changes.len(),
    ensures
        body_of(observation, requested, proposals).changes[i] is CommitPolicy <==> (i == 0
            && observation.committed.intent@ != requested),
{
    let committed = observation.committed.intent@;
    let head = policy_changes(observation.committed.revision.0, committed, requested);
    let rest = session_changes(models(observation.sessions@), proposals, level_of(requested));
    if i >= head.len() {
        lemma_sessions_commit_nothing(
            models(observation.sessions@),
            proposals,
            level_of(requested),
            i - head.len(),
        );
    }
}

proof fn lemma_sessions_commit_nothing(
    sessions: Seq<SessionModel>,
    proposals: Seq<ProposalModel>,
    target: GuaranteeLevel,
    i: int,
)
    requires
        0 <= i < session_changes(sessions, proposals, target).len(),
    ensures
        !(session_changes(sessions, proposals, target)[i] is CommitPolicy),
    decreases sessions.len(),
{
    let before = session_changes(sessions.drop_last(), proposals.drop_last(), target);
    if i < before.len() {
        lemma_sessions_commit_nothing(sessions.drop_last(), proposals.drop_last(), target, i);
    }
}

/// Every observed session is answered once: it is changed, left as it is, or
/// blocked.
pub proof fn every_session_is_answered(
    sessions: Seq<SessionModel>,
    proposals: Seq<ProposalModel>,
    target: GuaranteeLevel,
)
    requires
        sessions.len() == proposals.len(),
    ensures
        session_changes(sessions, proposals, target).len() + refused_sessions(
            sessions,
            proposals,
        ).len() == sessions.len(),
    decreases sessions.len(),
{
    if sessions.len() > 0 {
        every_session_is_answered(sessions.drop_last(), proposals.drop_last(), target);
    }
}

/// The old contract holds while a plan runs, and a plan with a blocked
/// session promises nothing beyond it.
pub proof fn the_existing_contract_stays(
    observation: Observation,
    requested: PolicyModel,
    proposals: Seq<ProposalModel>,
)
    ensures
        ({
            let body = body_of(observation, requested, proposals);
            &&& body.guarantee.during == body.guarantee.before
            &&& body.blocked.len() > 0 ==> body.guarantee.after == body.guarantee.before
            &&& body.blocked.len() == 0 ==> body.guarantee.after == level_of(requested)
        }),
{
}

/// What every session achieves covers the guarantee before a plan.
pub proof fn every_session_covers_before(sessions: Seq<SessionModel>, i: int)
    requires
        0 <= i < sessions.len(),
    ensures
        weakest(sessions) matches Some(level) && !achieved_by(sessions[i]).below(level),
    decreases sessions.len(),
{
    if i < sessions.len() - 1 {
        every_session_covers_before(sessions.drop_last(), i);
    } else if sessions.len() > 1 {
        every_session_covers_before(sessions.drop_last(), 0);
    }
}

/// A composed plan is one every node accepts, so what `encode` writes of it
/// decodes to it.
pub proof fn a_composed_plan_is_admitted(
    observation: Observation,
    requested: PolicyModel,
    proposals: Seq<ProposalModel>,
    created_ms: u64,
)
    requires
        observation.sessions@.len() <= MAX_SESSIONS,
        proposals.len() == observation.sessions@.len(),
    ensures
        ({
            let body = body_of(observation, requested, proposals);
            let plan = PlanModel {
                schema: SCHEMA,
                plan_id: identity_of(body),
                created_ms,
                observed_at: observation.observed_at,
                body,
            };
            admitted(plan) == Ok::<PlanModel, Refusal>(plan)
        }),
{
    every_session_is_answered(models(observation.sessions@), proposals, level_of(requested));
}

/// A file whose trailer is not the hash of what stands before it is refused
/// as corrupt, whatever else it holds.
pub proof fn tampering_is_refused(bytes: Seq<u8>)
    requires
        32 <= bytes.len() <= MAX_PLAN_BYTES,
        blake3_hash(bytes.take(bytes.len() - 32))@ != bytes.skip(bytes.len() - 32),
    ensures
        decoded(bytes) == Err::<PlanModel, Refusal>(
            Refusal::Corrupt("plan hash does not match its bytes"@),
        ),
{
}

/// A sealed file with one byte changed is refused as corrupt, unless BLAKE3
/// has the same hash for what stood before the trailer and what stands there
/// now.
pub proof fn a_changed_byte_is_refused(file: Seq<u8>, at: int, byte: u8)
    requires
        32 <= file.len() <= MAX_PLAN_BYTES,
        blake3_hash(file.take(file.len() - 32))@ == file.skip(file.len() - 32),
        0 <= at < file.len(),
        byte != file[at],
        blake3_hash(file.update(at, byte).take(file.len() - 32)) == blake3_hash(
            file.take(file.len() - 32),
        ) ==> file.update(at, byte).take(file.len() - 32) == file.take(file.len() - 32),
    ensures
        decoded(file.update(at, byte)) == Err::<PlanModel, Refusal>(
            Refusal::Corrupt("plan hash does not match its bytes"@),
        ),
{
    let changed = file.update(at, byte);
    let end = file.len() - 32;
    if at < end {
        assert(changed.take(end)[at] != file.take(end)[at]);
        assert(changed.skip(end) =~= file.skip(end));
        let (a, b) = (blake3_hash(changed.take(end)), blake3_hash(file.take(end)));
        if a@ == b@ {
            assert(a =~= b);
        }
    } else {
        assert(changed.take(end) =~= file.take(end));
        assert(changed.skip(end)[at - end] != file.skip(end)[at - end]);
    }
}

/// A plan whose identity is not that of its body never decodes, even under a
/// trailer that matches.
pub proof fn a_forged_identity_is_refused(plan: PlanModel)
    requires
        plan.schema == SCHEMA,
        plan.plan_id != identity_of(plan.body),
    ensures
        admitted(plan) == Err::<PlanModel, Refusal>(
            Refusal::Corrupt("plan identity does not match its body"@),
        ),
{
}

} // verus!
