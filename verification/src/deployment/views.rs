//! The plan as operators read it: identities in hex, levels by name.
use super::facts::{
    copy_nodes, Change, ChangeModel, DeploymentPlan, ObservedNode, PlanModel, SessionModel,
};
use super::{survive_name, survive_text, Guarantee, GuaranteeLevel};
use crate::codec::{models, Wire};
use crate::config::policy::PolicyIntent;
use crate::config::{copy_texts, texts};
use crate::text::{hex, hex_text};
use vstd::prelude::*;

verus! {

/// A plan, shown.
#[derive(Debug, Clone, PartialEq, Eq)]
pub struct PlanView {
    pub kind: &'static str,
    pub plan_id: String,
    pub created_ms: u64,
    pub observed_at: i64,
    pub deployment: DeploymentView,
    pub observed: ObservedView,
    pub requested: PolicyIntent,
    pub policy_hash: String,
    pub changes: Vec<ChangeView>,
    pub guarantee: GuaranteeView,
    pub blocked: Vec<BlockedView>,
}

/// A deployment, shown.
#[derive(Debug, Clone, PartialEq, Eq)]
pub struct DeploymentView {
    pub cluster: String,
    pub node: u64,
}

/// An observation, shown.
#[derive(Debug, Clone, PartialEq, Eq)]
pub struct ObservedView {
    pub policy_revision: u64,
    pub policy_hash: String,
    pub policy: PolicyIntent,
    pub sessions: Vec<ObservedSessionView>,
    pub nodes: Vec<ObservedNode>,
}

/// A session, shown.
#[derive(Debug, Clone, PartialEq, Eq)]
pub struct ObservedSessionView {
    pub tenant: String,
    pub session: String,
    pub route_epoch: u64,
    pub membership_epoch: u64,
    pub placement_epoch: u64,
    pub voters: Vec<u64>,
    pub desired: LevelView,
    pub achieved: Option<LevelView>,
    pub pending: Option<String>,
    pub blocked_by: Vec<String>,
}

/// A level, shown.
#[derive(Debug, Clone, PartialEq, Eq)]
pub struct LevelView {
    pub survive: &'static str,
    pub max_failures: u16,
}

/// A guarantee, shown.
#[derive(Debug, Clone, PartialEq, Eq)]
pub struct GuaranteeView {
    pub before: LevelView,
    pub during: LevelView,
    pub after: LevelView,
}

/// A change, shown.
#[derive(Debug, Clone, PartialEq, Eq)]
pub enum ChangeView {
    CommitPolicy { from_revision: u64, to_revision: u64 },
    PlanSession {
        tenant: String,
        session: String,
        survive: &'static str,
        max_failures: u16,
        operation: String,
        voters: Vec<u64>,
        expected_route_epoch: u64,
        expected_membership_epoch: u64,
        expected_placement_epoch: u64,
        pending: bool,
    },
    NoChange { tenant: String, session: String },
}

/// A blocked session, shown.
#[derive(Debug, Clone, PartialEq, Eq)]
pub struct BlockedView {
    pub tenant: String,
    pub session: String,
    pub reason: String,
}

impl LevelView {
    /// Whether this is how a level is shown.
    pub open spec fn shows(self, level: GuaranteeLevel) -> bool {
        self.survive@ == survive_text(level.survive) && self.max_failures == level.max_failures
    }

    /// Show a level.
    pub fn of(level: GuaranteeLevel) -> (view: Self)
        ensures
            view.shows(level),
    {
        LevelView { survive: survive_name(level.survive), max_failures: level.max_failures }
    }
}

impl GuaranteeView {
    /// Whether this is how a guarantee is shown.
    pub open spec fn shows(self, guarantee: Guarantee) -> bool {
        self.before.shows(guarantee.before) && self.during.shows(guarantee.during)
            && self.after.shows(guarantee.after)
    }

    /// Show a guarantee.
    pub fn of(guarantee: Guarantee) -> (view: Self)
        ensures
            view.shows(guarantee),
    {
        GuaranteeView {
            before: LevelView::of(guarantee.before),
            during: LevelView::of(guarantee.during),
            after: LevelView::of(guarantee.after),
        }
    }
}

impl ObservedSessionView {
    /// Whether this is how a session is shown.
    pub open spec fn shows(self, session: SessionModel) -> bool {
        &&& self.tenant@ == hex_text(session.tenant@)
        &&& self.session@ == hex_text(session.session@)
        &&& self.route_epoch == session.epochs.route
        &&& self.membership_epoch == session.epochs.membership
        &&& self.placement_epoch == session.epochs.placement
        &&& self.voters@ == session.voters
        &&& self.desired.shows(session.desired)
        &&& match session.achieved {
            None => self.achieved is None,
            Some(level) => self.achieved matches Some(view) && view.shows(level),
        }
        &&& match session.pending {
            None => self.pending is None,
            Some(operation) => self.pending matches Some(view) && view@ == hex_text(operation@),
        }
        &&& texts(self.blocked_by@) == session.blocked_by
    }

    /// Show a session.
    pub fn of(session: &super::facts::ObservedSession) -> (view: Self)
        ensures
            view.shows(session@),
    {
        let voters = session.voters.clone();
        assert(voters@ =~= session.voters@);
        ObservedSessionView {
            tenant: hex(session.tenant.as_slice()),
            session: hex(session.session.as_slice()),
            route_epoch: session.epochs.route,
            membership_epoch: session.epochs.membership,
            placement_epoch: session.epochs.placement,
            voters,
            desired: LevelView::of(session.desired),
            achieved: match session.achieved {
                None => None,
                Some(level) => Some(LevelView::of(level)),
            },
            pending: match session.pending {
                None => None,
                Some(operation) => Some(hex(operation.as_slice())),
            },
            blocked_by: copy_texts(&session.blocked_by),
        }
    }
}

impl ChangeView {
    /// Whether this is how a change is shown.
    pub open spec fn shows(self, change: ChangeModel) -> bool {
        match change {
            ChangeModel::CommitPolicy { from_revision, to_revision } => self
                == (ChangeView::CommitPolicy { from_revision, to_revision }),
            ChangeModel::PlanSession {
                tenant,
                session,
                durability,
                operation,
                voters,
                expected,
                pending,
            } => {
                &&& self matches ChangeView::PlanSession {
                    tenant: tenant_text,
                    session: session_text,
                    survive,
                    max_failures,
                    operation: operation_text,
                    voters: voter_list,
                    expected_route_epoch,
                    expected_membership_epoch,
                    expected_placement_epoch,
                    pending: under_way,
                }
                &&& tenant_text@ == hex_text(tenant@)
                &&& session_text@ == hex_text(session@)
                &&& survive@ == survive_text(durability.survive)
                &&& max_failures == durability.max_failures
                &&& operation_text@ == hex_text(operation@)
                &&& voter_list@ == voters
                &&& expected_route_epoch == expected.route
                &&& expected_membership_epoch == expected.membership
                &&& expected_placement_epoch == expected.placement
                &&& under_way == pending
            },
            ChangeModel::NoChange { tenant, session } => {
                &&& self matches ChangeView::NoChange { tenant: tenant_text, session: session_text }
                &&& tenant_text@ == hex_text(tenant@)
                &&& session_text@ == hex_text(session@)
            },
        }
    }

    /// Show a change.
    pub fn of(change: &Change) -> (view: Self)
        ensures
            view.shows(change@),
    {
        match change {
            Change::CommitPolicy { from_revision, to_revision } => ChangeView::CommitPolicy {
                from_revision: *from_revision,
                to_revision: *to_revision,
            },
            Change::PlanSession {
                tenant,
                session,
                durability,
                operation,
                voters,
                expected,
                pending,
            } => {
                let list = voters.clone();
                assert(list@ =~= voters@);
                ChangeView::PlanSession {
                    tenant: hex(tenant.as_slice()),
                    session: hex(session.as_slice()),
                    survive: survive_name(durability.survive),
                    max_failures: durability.max_failures,
                    operation: hex(operation.as_slice()),
                    voters: list,
                    expected_route_epoch: expected.route,
                    expected_membership_epoch: expected.membership,
                    expected_placement_epoch: expected.placement,
                    pending: *pending,
                }
            },
            Change::NoChange { tenant, session } => ChangeView::NoChange {
                tenant: hex(tenant.as_slice()),
                session: hex(session.as_slice()),
            },
        }
    }
}

impl PlanView {
    /// Whether this is how a plan is shown.
    pub open spec fn shows(self, plan: PlanModel) -> bool {
        &&& self.kind@ == "deployment_plan"@
        &&& self.plan_id@ == hex_text(plan.plan_id@)
        &&& self.created_ms == plan.created_ms
        &&& self.observed_at == plan.observed_at
        &&& self.deployment.cluster@ == hex_text(plan.body.deployment.cluster@)
        &&& self.deployment.node == plan.body.deployment.node
        &&& self.observed.policy_revision == plan.body.observed.policy_revision
        &&& self.observed.policy_hash@ == hex_text(plan.body.observed.policy_hash@)
        &&& self.observed.policy@ == plan.body.observed.policy
        &&& self.observed.sessions@.len() == plan.body.observed.sessions.len()
        &&& forall|i: int|
            0 <= i < plan.body.observed.sessions.len() ==> (
            #[trigger] self.observed.sessions@[i]).shows(plan.body.observed.sessions[i])
        &&& models(self.observed.nodes@) == plan.body.observed.nodes
        &&& self.requested@ == plan.body.requested
        &&& self.policy_hash@ == hex_text(plan.body.policy_hash@)
        &&& self.changes@.len() == plan.body.changes.len()
        &&& forall|i: int|
            0 <= i < plan.body.changes.len() ==> (#[trigger] self.changes@[i]).shows(
                plan.body.changes[i],
            )
        &&& self.guarantee.shows(plan.body.guarantee)
        &&& self.blocked@.len() == plan.body.blocked.len()
        &&& forall|i: int|
            0 <= i < plan.body.blocked.len() ==> (#[trigger] self.blocked@[i]).tenant@ == hex_text(
                plan.body.blocked[i].tenant@,
            ) && self.blocked@[i].session@ == hex_text(plan.body.blocked[i].session@)
                && self.blocked@[i].reason@ == plan.body.blocked[i].reason
    }
}

impl DeploymentPlan {
    /// Show the plan.
    pub fn view(&self) -> (view: PlanView)
        ensures
            view.shows(self.model()),
    {
        let mut sessions: Vec<ObservedSessionView> = Vec::new();
        let mut i: usize = 0;
        while i < self.body.observed.sessions.len()
            invariant
                i <= self.body.observed.sessions.len(),
                sessions@.len() == i,
                forall|j: int|
                    0 <= j < i ==> (#[trigger] sessions@[j]).shows(
                        self.body.observed.sessions@[j]@,
                    ),
            decreases self.body.observed.sessions.len() - i,
        {
            sessions.push(ObservedSessionView::of(&self.body.observed.sessions[i]));
            i += 1;
        }
        let mut changes: Vec<ChangeView> = Vec::new();
        let mut j: usize = 0;
        while j < self.body.changes.len()
            invariant
                j <= self.body.changes.len(),
                changes@.len() == j,
                forall|k: int|
                    0 <= k < j ==> (#[trigger] changes@[k]).shows(self.body.changes@[k]@),
            decreases self.body.changes.len() - j,
        {
            changes.push(ChangeView::of(&self.body.changes[j]));
            j += 1;
        }
        let mut blocked: Vec<BlockedView> = Vec::new();
        let mut k: usize = 0;
        while k < self.body.blocked.len()
            invariant
                k <= self.body.blocked.len(),
                blocked@.len() == k,
                forall|n: int|
                    0 <= n < k ==> (#[trigger] blocked@[n]).tenant@ == hex_text(
                        self.body.blocked@[n].tenant@,
                    ) && blocked@[n].session@ == hex_text(self.body.blocked@[n].session@)
                        && blocked@[n].reason@ == self.body.blocked@[n].reason@,
            decreases self.body.blocked.len() - k,
        {
            let item = &self.body.blocked[k];
            blocked.push(
                BlockedView {
                    tenant: hex(item.tenant.as_slice()),
                    session: hex(item.session.as_slice()),
                    reason: item.reason.clone(),
                },
            );
            k += 1;
        }
        PlanView {
            kind: "deployment_plan",
            plan_id: hex(self.plan_id.as_slice()),
            created_ms: self.created_ms,
            observed_at: self.observed_at,
            deployment: DeploymentView {
                cluster: hex(self.body.deployment.cluster.as_slice()),
                node: self.body.deployment.node,
            },
            observed: ObservedView {
                policy_revision: self.body.observed.policy_revision,
                policy_hash: hex(self.body.observed.policy_hash.as_slice()),
                policy: self.body.observed.policy.duplicate(),
                sessions,
                nodes: copy_nodes(&self.body.observed.nodes),
            },
            requested: self.body.requested.duplicate(),
            policy_hash: hex(self.body.policy_hash.as_slice()),
            changes,
            guarantee: GuaranteeView::of(self.body.guarantee),
            blocked,
        }
    }
}

} // verus!
