//! What a plan is made of, and its byte form.
use super::{Guarantee, GuaranteeLevel};
use crate::codec::{
    concat_assoc, cut_behind, models, numbers_are_models, texts_are_models, Wire,
};
use crate::config::policy::{CommittedPolicy, PolicyIntent, PolicyModel};
use crate::config::{copy_texts, texts, FailureDomain};
use vstd::prelude::*;

verus! {

/// The deployment a plan was made for.
#[derive(Debug, Clone, Copy, PartialEq, Eq)]
pub struct DeploymentIdentity {
    pub cluster: [u8; 16],
    pub node: u64,
}

/// The epochs a session's directory descriptor carried when observed; a
/// change to any of them makes a plan built on it stale.
#[derive(Debug, Clone, Copy, PartialEq, Eq, Structural)]
pub struct SessionEpochs {
    pub route: u64,
    pub membership: u64,
    pub placement: u64,
}

/// A session as the directory reported it.
#[derive(Debug, Clone, PartialEq, Eq)]
pub struct ObservedSession {
    pub tenant: [u8; 16],
    pub session: [u8; 16],
    pub epochs: SessionEpochs,
    pub voters: Vec<u64>,
    /// The session's desired durability in the directory.
    pub desired: GuaranteeLevel,
    /// What the directory reports as achieved; absent while unknown.
    pub achieved: Option<GuaranteeLevel>,
    /// The pending placement's operation, when one is under way.
    pub pending: Option<[u8; 16]>,
    pub blocked_by: Vec<String>,
}

/// What an observed session says.
pub struct SessionModel {
    pub tenant: [u8; 16],
    pub session: [u8; 16],
    pub epochs: SessionEpochs,
    pub voters: Seq<u64>,
    pub desired: GuaranteeLevel,
    pub achieved: Option<GuaranteeLevel>,
    pub pending: Option<[u8; 16]>,
    pub blocked_by: Seq<Seq<char>>,
}

impl View for ObservedSession {
    type V = SessionModel;

    open spec fn view(&self) -> SessionModel {
        SessionModel {
            tenant: self.tenant,
            session: self.session,
            epochs: self.epochs,
            voters: self.voters@,
            desired: self.desired,
            achieved: self.achieved,
            pending: self.pending,
            blocked_by: texts(self.blocked_by@),
        }
    }
}

/// A node as the directory reported it.
#[derive(Debug, Clone, PartialEq, Eq)]
pub struct ObservedNode {
    pub node: u64,
    pub generation: u64,
    pub alive: bool,
    pub eligible: bool,
    pub disk_available: Option<u64>,
    pub region: Option<String>,
    pub zone: Option<String>,
}

/// What an observed node says.
pub struct NodeModel {
    pub node: u64,
    pub generation: u64,
    pub alive: bool,
    pub eligible: bool,
    pub disk_available: Option<u64>,
    pub region: Option<Seq<char>>,
    pub zone: Option<Seq<char>>,
}

/// The text of an optional name.
pub open spec fn name_of(name: Option<String>) -> Option<Seq<char>> {
    match name {
        None => None,
        Some(text) => Some(text@),
    }
}

impl View for ObservedNode {
    type V = NodeModel;

    open spec fn view(&self) -> NodeModel {
        NodeModel {
            node: self.node,
            generation: self.generation,
            alive: self.alive,
            eligible: self.eligible,
            disk_available: self.disk_available,
            region: name_of(self.region),
            zone: name_of(self.zone),
        }
    }
}

/// What a plan was computed from.
#[derive(Debug, Clone, PartialEq, Eq)]
pub struct Observed {
    pub policy_revision: u64,
    pub policy_hash: [u8; 32],
    pub policy: PolicyIntent,
    pub sessions: Vec<ObservedSession>,
    pub nodes: Vec<ObservedNode>,
}

/// What a plan's observation says.
pub struct ObservedModel {
    pub policy_revision: u64,
    pub policy_hash: [u8; 32],
    pub policy: PolicyModel,
    pub sessions: Seq<SessionModel>,
    pub nodes: Seq<NodeModel>,
}

impl View for Observed {
    type V = ObservedModel;

    open spec fn view(&self) -> ObservedModel {
        ObservedModel {
            policy_revision: self.policy_revision,
            policy_hash: self.policy_hash,
            policy: self.policy@,
            sessions: models(self.sessions@),
            nodes: models(self.nodes@),
        }
    }
}

/// One ordered change of a plan.
#[derive(Debug, Clone, PartialEq, Eq)]
pub enum Change {
    /// Commit the requested policy as the next revision.
    CommitPolicy { from_revision: u64, to_revision: u64 },
    /// Request the session's placement under the requested durability; the
    /// operation is the exact identity the request denotes.
    PlanSession {
        tenant: [u8; 16],
        session: [u8; 16],
        durability: GuaranteeLevel,
        operation: [u8; 16],
        voters: Vec<u64>,
        expected: SessionEpochs,
        /// A plan for this request was already under way when observed.
        pending: bool,
    },
    /// The session's active placement already provides the durability.
    NoChange { tenant: [u8; 16], session: [u8; 16] },
}

/// What a change says.
pub enum ChangeModel {
    CommitPolicy { from_revision: u64, to_revision: u64 },
    PlanSession {
        tenant: [u8; 16],
        session: [u8; 16],
        durability: GuaranteeLevel,
        operation: [u8; 16],
        voters: Seq<u64>,
        expected: SessionEpochs,
        pending: bool,
    },
    NoChange { tenant: [u8; 16], session: [u8; 16] },
}

impl View for Change {
    type V = ChangeModel;

    open spec fn view(&self) -> ChangeModel {
        match *self {
            Change::CommitPolicy { from_revision, to_revision } => ChangeModel::CommitPolicy {
                from_revision,
                to_revision,
            },
            Change::PlanSession {
                tenant,
                session,
                durability,
                operation,
                voters,
                expected,
                pending,
            } => ChangeModel::PlanSession {
                tenant,
                session,
                durability,
                operation,
                voters: voters@,
                expected,
                pending,
            },
            Change::NoChange { tenant, session } => ChangeModel::NoChange { tenant, session },
        }
    }
}

/// A session the requested durability cannot be planned for.
#[derive(Debug, Clone, PartialEq, Eq)]
pub struct Blocked {
    pub tenant: [u8; 16],
    pub session: [u8; 16],
    pub reason: String,
}

/// What a blocked session says.
pub struct BlockedModel {
    pub tenant: [u8; 16],
    pub session: [u8; 16],
    pub reason: Seq<char>,
}

impl View for Blocked {
    type V = BlockedModel;

    open spec fn view(&self) -> BlockedModel {
        BlockedModel { tenant: self.tenant, session: self.session, reason: self.reason@ }
    }
}

/// Everything the plan identity covers.
#[derive(Debug, Clone, PartialEq, Eq)]
pub struct PlanBody {
    pub deployment: DeploymentIdentity,
    pub observed: Observed,
    pub requested: PolicyIntent,
    pub policy_hash: [u8; 32],
    pub changes: Vec<Change>,
    pub guarantee: Guarantee,
    pub blocked: Vec<Blocked>,
}

/// What a plan's body says.
pub struct BodyModel {
    pub deployment: DeploymentIdentity,
    pub observed: ObservedModel,
    pub requested: PolicyModel,
    pub policy_hash: [u8; 32],
    pub changes: Seq<ChangeModel>,
    pub guarantee: Guarantee,
    pub blocked: Seq<BlockedModel>,
}

impl View for PlanBody {
    type V = BodyModel;

    open spec fn view(&self) -> BodyModel {
        BodyModel {
            deployment: self.deployment,
            observed: self.observed@,
            requested: self.requested@,
            policy_hash: self.policy_hash,
            changes: models(self.changes@),
            guarantee: self.guarantee,
            blocked: models(self.blocked@),
        }
    }
}

/// A plan and the facts of its making.
#[derive(Debug, Clone, PartialEq, Eq)]
pub struct DeploymentPlan {
    pub schema: u16,
    /// Derived from the body alone: the same observation and request make
    /// the same plan whenever it is computed.
    pub plan_id: [u8; 16],
    pub created_ms: u64,
    /// When the placement agent last observed the directory (unix seconds);
    /// zero for a node without a directory.
    pub observed_at: i64,
    pub body: PlanBody,
}

/// What a plan says.
pub struct PlanModel {
    pub schema: u16,
    pub plan_id: [u8; 16],
    pub created_ms: u64,
    pub observed_at: i64,
    pub body: BodyModel,
}

/// The answer a dry-run placement request produced for one observed session.
#[derive(Debug, Clone, PartialEq, Eq)]
pub enum Proposal {
    Planned { operation: [u8; 16], voters: Vec<u64> },
    Pending { operation: [u8; 16], voters: Vec<u64> },
    Satisfied,
    Refused(String),
}

/// What a proposal says.
pub enum ProposalModel {
    Planned { operation: [u8; 16], voters: Seq<u64> },
    Pending { operation: [u8; 16], voters: Seq<u64> },
    Satisfied,
    Refused(Seq<char>),
}

impl View for Proposal {
    type V = ProposalModel;

    open spec fn view(&self) -> ProposalModel {
        match *self {
            Proposal::Planned { operation, voters } => ProposalModel::Planned {
                operation,
                voters: voters@,
            },
            Proposal::Pending { operation, voters } => ProposalModel::Pending {
                operation,
                voters: voters@,
            },
            Proposal::Satisfied => ProposalModel::Satisfied,
            Proposal::Refused(reason) => ProposalModel::Refused(reason@),
        }
    }
}

/// What planning observed, without any proposal yet.
#[derive(Debug, Clone, PartialEq, Eq)]
pub struct Observation {
    pub deployment: DeploymentIdentity,
    pub committed: CommittedPolicy,
    pub observed_at: i64,
    pub sessions: Vec<ObservedSession>,
    pub nodes: Vec<ObservedNode>,
}

impl ObservedSession {
    /// Copy the session.
    pub fn duplicate(&self) -> (copy: Self)
        ensures
            copy@ == self@,
    {
        let voters = self.voters.clone();
        assert(voters@ =~= self.voters@);
        ObservedSession {
            tenant: self.tenant,
            session: self.session,
            epochs: self.epochs,
            voters,
            desired: self.desired,
            achieved: self.achieved,
            pending: self.pending,
            blocked_by: copy_texts(&self.blocked_by),
        }
    }
}

/// Copy an optional name.
pub fn copy_name(name: &Option<String>) -> (copy: Option<String>)
    ensures
        name_of(copy) == name_of(*name),
{
    match name {
        None => None,
        Some(text) => Some(text.clone()),
    }
}

impl ObservedNode {
    /// Copy the node.
    pub fn duplicate(&self) -> (copy: Self)
        ensures
            copy@ == self@,
    {
        ObservedNode {
            node: self.node,
            generation: self.generation,
            alive: self.alive,
            eligible: self.eligible,
            disk_available: self.disk_available,
            region: copy_name(&self.region),
            zone: copy_name(&self.zone),
        }
    }
}

/// Copy a list of sessions.
pub fn copy_sessions(list: &Vec<ObservedSession>) -> (copy: Vec<ObservedSession>)
    ensures
        models(copy@) == models(list@),
        copy@.len() == list@.len(),
{
    let mut copy: Vec<ObservedSession> = Vec::new();
    let mut i: usize = 0;
    while i < list.len()
        invariant
            i <= list.len(),
            copy@.len() == i,
            forall|j: int| 0 <= j < i ==> (#[trigger] copy@[j])@ == list@[j]@,
        decreases list.len() - i,
    {
        copy.push(list[i].duplicate());
        i += 1;
    }
    assert(models(copy@) =~= models(list@));
    copy
}

/// Copy a list of nodes.
pub fn copy_nodes(list: &Vec<ObservedNode>) -> (copy: Vec<ObservedNode>)
    ensures
        models(copy@) == models(list@),
        copy@.len() == list@.len(),
{
    let mut copy: Vec<ObservedNode> = Vec::new();
    let mut i: usize = 0;
    while i < list.len()
        invariant
            i <= list.len(),
            copy@.len() == i,
            forall|j: int| 0 <= j < i ==> (#[trigger] copy@[j])@ == list@[j]@,
        decreases list.len() - i,
    {
        copy.push(list[i].duplicate());
        i += 1;
    }
    assert(models(copy@) =~= models(list@));
    copy
}

impl Wire for GuaranteeLevel {
    type M = GuaranteeLevel;

    open spec fn model(&self) -> GuaranteeLevel {
        *self
    }

    open spec fn bytes(m: GuaranteeLevel) -> Seq<u8> {
        FailureDomain::bytes(m.survive) + (u16::bytes(m.max_failures))
    }

    open spec fn parse(b: Seq<u8>) -> Option<(GuaranteeLevel, Seq<u8>)> {
        match FailureDomain::parse(b) {
            None => None,
            Some((survive, b1)) => match u16::parse(b1) {
                None => None,
                Some((max_failures, b2)) => Some((GuaranteeLevel { survive, max_failures }, b2)),
            },
        }
    }

    fn put(&self, out: &mut Vec<u8>) {
        broadcast use concat_assoc;

        self.survive.put(out);
        self.max_failures.put(out);
        proof {
            let m = self.model();
            assert forall|n: int| 0 <= n < Self::bytes(self.model()).len() implies Self::parse(
                #[trigger] Self::bytes(self.model()).take(n),
            ) is None by {
                let s1 = u16::bytes(m.max_failures);
                cut_behind::<FailureDomain>(m.survive, s1, n);
                let n1 = n - FailureDomain::bytes(m.survive).len();
                if 0 <= n1 {
                    assert(u16::parse(u16::bytes(m.max_failures).take(n1)) is None);
                }
            }
        }
    }

    fn read(input: &[u8]) -> Option<(GuaranteeLevel, &[u8])> {
        match FailureDomain::read(input) {
            None => None,
            Some((survive, b1)) => match u16::read(b1) {
                None => None,
                Some((max_failures, b2)) => Some((GuaranteeLevel { survive, max_failures }, b2)),
            },
        }
    }
}

impl Wire for Guarantee {
    type M = Guarantee;

    open spec fn model(&self) -> Guarantee {
        *self
    }

    open spec fn bytes(m: Guarantee) -> Seq<u8> {
        GuaranteeLevel::bytes(m.before) + (GuaranteeLevel::bytes(m.during) + (GuaranteeLevel::bytes(m.after)))
    }

    open spec fn parse(b: Seq<u8>) -> Option<(Guarantee, Seq<u8>)> {
        match GuaranteeLevel::parse(b) {
            None => None,
            Some((before, b1)) => match GuaranteeLevel::parse(b1) {
                None => None,
                Some((during, b2)) => match GuaranteeLevel::parse(b2) {
                    None => None,
                    Some((after, b3)) => Some((Guarantee { before, during, after }, b3)),
                },
            },
        }
    }

    fn put(&self, out: &mut Vec<u8>) {
        broadcast use concat_assoc;

        self.before.put(out);
        self.during.put(out);
        self.after.put(out);
        proof {
            let m = self.model();
            assert forall|n: int| 0 <= n < Self::bytes(self.model()).len() implies Self::parse(
                #[trigger] Self::bytes(self.model()).take(n),
            ) is None by {
                let s2 = GuaranteeLevel::bytes(m.after);
                let s1 = GuaranteeLevel::bytes(m.during) + s2;
                cut_behind::<GuaranteeLevel>(m.before, s1, n);
                let n1 = n - GuaranteeLevel::bytes(m.before).len();
                cut_behind::<GuaranteeLevel>(m.during, s2, n1);
                let n2 = n1 - GuaranteeLevel::bytes(m.during).len();
                if 0 <= n2 {
                    assert(GuaranteeLevel::parse(GuaranteeLevel::bytes(m.after).take(n2)) is None);
                }
            }
        }
    }

    fn read(input: &[u8]) -> Option<(Guarantee, &[u8])> {
        match GuaranteeLevel::read(input) {
            None => None,
            Some((before, b1)) => match GuaranteeLevel::read(b1) {
                None => None,
                Some((during, b2)) => match GuaranteeLevel::read(b2) {
                    None => None,
                    Some((after, b3)) => Some((Guarantee { before, during, after }, b3)),
                },
            },
        }
    }
}

impl Wire for DeploymentIdentity {
    type M = DeploymentIdentity;

    open spec fn model(&self) -> DeploymentIdentity {
        *self
    }

    open spec fn bytes(m: DeploymentIdentity) -> Seq<u8> {
        <[u8; 16]>::bytes(m.cluster) + (u64::bytes(m.node))
    }

    open spec fn parse(b: Seq<u8>) -> Option<(DeploymentIdentity, Seq<u8>)> {
        match <[u8; 16]>::parse(b) {
            None => None,
            Some((cluster, b1)) => match u64::parse(b1) {
                None => None,
                Some((node, b2)) => Some((DeploymentIdentity { cluster, node }, b2)),
            },
        }
    }

    fn put(&self, out: &mut Vec<u8>) {
        broadcast use concat_assoc;

        self.cluster.put(out);
        self.node.put(out);
        proof {
            let m = self.model();
            assert forall|n: int| 0 <= n < Self::bytes(self.model()).len() implies Self::parse(
                #[trigger] Self::bytes(self.model()).take(n),
            ) is None by {
                let s1 = u64::bytes(m.node);
                cut_behind::<[u8; 16]>(m.cluster, s1, n);
                let n1 = n - <[u8; 16]>::bytes(m.cluster).len();
                if 0 <= n1 {
                    assert(u64::parse(u64::bytes(m.node).take(n1)) is None);
                }
            }
        }
    }

    fn read(input: &[u8]) -> Option<(DeploymentIdentity, &[u8])> {
        match <[u8; 16]>::read(input) {
            None => None,
            Some((cluster, b1)) => match u64::read(b1) {
                None => None,
                Some((node, b2)) => Some((DeploymentIdentity { cluster, node }, b2)),
            },
        }
    }
}

impl Wire for SessionEpochs {
    type M = SessionEpochs;

    open spec fn model(&self) -> SessionEpochs {
        *self
    }

    open spec fn bytes(m: SessionEpochs) -> Seq<u8> {
        u64::bytes(m.route) + (u64::bytes(m.membership) + (u64::bytes(m.placement)))
    }

    open spec fn parse(b: Seq<u8>) -> Option<(SessionEpochs, Seq<u8>)> {
        match u64::parse(b) {
            None => None,
            Some((route, b1)) => match u64::parse(b1) {
                None => None,
                Some((membership, b2)) => match u64::parse(b2) {
                    None => None,
                    Some((placement, b3)) => Some((SessionEpochs { route, membership, placement }, b3)),
                },
            },
        }
    }

    fn put(&self, out: &mut Vec<u8>) {
        broadcast use concat_assoc;

        self.route.put(out);
        self.membership.put(out);
        self.placement.put(out);
        proof {
            let m = self.model();
            assert forall|n: int| 0 <= n < Self::bytes(self.model()).len() implies Self::parse(
                #[trigger] Self::bytes(self.model()).take(n),
            ) is None by {
                let s2 = u64::bytes(m.placement);
                let s1 = u64::bytes(m.membership) + s2;
                cut_behind::<u64>(m.route, s1, n);
                let n1 = n - u64::bytes(m.route).len();
                cut_behind::<u64>(m.membership, s2, n1);
                let n2 = n1 - u64::bytes(m.membership).len();
                if 0 <= n2 {
                    assert(u64::parse(u64::bytes(m.placement).take(n2)) is None);
                }
            }
        }
    }

    fn read(input: &[u8]) -> Option<(SessionEpochs, &[u8])> {
        match u64::read(input) {
            None => None,
            Some((route, b1)) => match u64::read(b1) {
                None => None,
                Some((membership, b2)) => match u64::read(b2) {
                    None => None,
                    Some((placement, b3)) => Some((SessionEpochs { route, membership, placement }, b3)),
                },
            },
        }
    }
}

impl Wire for ObservedSession {
    type M = SessionModel;

    open spec fn model(&self) -> SessionModel {
        self@
    }

    open spec fn bytes(m: SessionModel) -> Seq<u8> {
        <[u8; 16]>::bytes(m.tenant) + (<[u8; 16]>::bytes(m.session) + (SessionEpochs::bytes(m.epochs) + (<Vec<u64>>::bytes(m.voters) + (GuaranteeLevel::bytes(m.desired) + (<Option<GuaranteeLevel>>::bytes(m.achieved) + (<Option<[u8; 16]>>::bytes(m.pending) + (<Vec<String>>::bytes(m.blocked_by))))))))
    }

    open spec fn parse(b: Seq<u8>) -> Option<(SessionModel, Seq<u8>)> {
        match <[u8; 16]>::parse(b) {
            None => None,
            Some((tenant, b1)) => match <[u8; 16]>::parse(b1) {
                None => None,
                Some((session, b2)) => match SessionEpochs::parse(b2) {
                    None => None,
                    Some((epochs, b3)) => match <Vec<u64>>::parse(b3) {
                        None => None,
                        Some((voters, b4)) => match GuaranteeLevel::parse(b4) {
                            None => None,
                            Some((desired, b5)) => match <Option<GuaranteeLevel>>::parse(b5) {
                                None => None,
                                Some((achieved, b6)) => match <Option<[u8; 16]>>::parse(b6) {
                                    None => None,
                                    Some((pending, b7)) => match <Vec<String>>::parse(b7) {
                                        None => None,
                                        Some((blocked_by, b8)) => Some((SessionModel { tenant, session, epochs, voters, desired, achieved, pending, blocked_by }, b8)),
                                    },
                                },
                            },
                        },
                    },
                },
            },
        }
    }

    fn put(&self, out: &mut Vec<u8>) {
        broadcast use {concat_assoc, numbers_are_models, texts_are_models};

        self.tenant.put(out);
        self.session.put(out);
        self.epochs.put(out);
        self.voters.put(out);
        self.desired.put(out);
        self.achieved.put(out);
        self.pending.put(out);
        self.blocked_by.put(out);
        proof {
            let m = self.model();
            assert forall|n: int| 0 <= n < Self::bytes(self.model()).len() implies Self::parse(
                #[trigger] Self::bytes(self.model()).take(n),
            ) is None by {
                let s7 = <Vec<String>>::bytes(m.blocked_by);
                let s6 = <Option<[u8; 16]>>::bytes(m.pending) + s7;
                let s5 = <Option<GuaranteeLevel>>::bytes(m.achieved) + s6;
                let s4 = GuaranteeLevel::bytes(m.desired) + s5;
                let s3 = <Vec<u64>>::bytes(m.voters) + s4;
                let s2 = SessionEpochs::bytes(m.epochs) + s3;
                let s1 = <[u8; 16]>::bytes(m.session) + s2;
                cut_behind::<[u8; 16]>(m.tenant, s1, n);
                let n1 = n - <[u8; 16]>::bytes(m.tenant).len();
                cut_behind::<[u8; 16]>(m.session, s2, n1);
                let n2 = n1 - <[u8; 16]>::bytes(m.session).len();
                cut_behind::<SessionEpochs>(m.epochs, s3, n2);
                let n3 = n2 - SessionEpochs::bytes(m.epochs).len();
                cut_behind::<Vec<u64>>(m.voters, s4, n3);
                let n4 = n3 - <Vec<u64>>::bytes(m.voters).len();
                cut_behind::<GuaranteeLevel>(m.desired, s5, n4);
                let n5 = n4 - GuaranteeLevel::bytes(m.desired).len();
                cut_behind::<Option<GuaranteeLevel>>(m.achieved, s6, n5);
                let n6 = n5 - <Option<GuaranteeLevel>>::bytes(m.achieved).len();
                cut_behind::<Option<[u8; 16]>>(m.pending, s7, n6);
                let n7 = n6 - <Option<[u8; 16]>>::bytes(m.pending).len();
                if 0 <= n7 {
                    assert(<Vec<String>>::parse(<Vec<String>>::bytes(m.blocked_by).take(n7)) is None);
                }
            }
        }
    }

    fn read(input: &[u8]) -> Option<(ObservedSession, &[u8])> {
        broadcast use {numbers_are_models, texts_are_models};

        match <[u8; 16]>::read(input) {
            None => None,
            Some((tenant, b1)) => match <[u8; 16]>::read(b1) {
                None => None,
                Some((session, b2)) => match SessionEpochs::read(b2) {
                    None => None,
                    Some((epochs, b3)) => match <Vec<u64>>::read(b3) {
                        None => None,
                        Some((voters, b4)) => match GuaranteeLevel::read(b4) {
                            None => None,
                            Some((desired, b5)) => match <Option<GuaranteeLevel>>::read(b5) {
                                None => None,
                                Some((achieved, b6)) => match <Option<[u8; 16]>>::read(b6) {
                                    None => None,
                                    Some((pending, b7)) => match <Vec<String>>::read(b7) {
                                        None => None,
                                        Some((blocked_by, b8)) => Some((ObservedSession { tenant, session, epochs, voters, desired, achieved, pending, blocked_by }, b8)),
                                    },
                                },
                            },
                        },
                    },
                },
            },
        }
    }
}

impl Wire for ObservedNode {
    type M = NodeModel;

    open spec fn model(&self) -> NodeModel {
        self@
    }

    open spec fn bytes(m: NodeModel) -> Seq<u8> {
        u64::bytes(m.node) + (u64::bytes(m.generation) + (bool::bytes(m.alive) + (bool::bytes(m.eligible) + (<Option<u64>>::bytes(m.disk_available) + (<Option<String>>::bytes(m.region) + (<Option<String>>::bytes(m.zone)))))))
    }

    open spec fn parse(b: Seq<u8>) -> Option<(NodeModel, Seq<u8>)> {
        match u64::parse(b) {
            None => None,
            Some((node, b1)) => match u64::parse(b1) {
                None => None,
                Some((generation, b2)) => match bool::parse(b2) {
                    None => None,
                    Some((alive, b3)) => match bool::parse(b3) {
                        None => None,
                        Some((eligible, b4)) => match <Option<u64>>::parse(b4) {
                            None => None,
                            Some((disk_available, b5)) => match <Option<String>>::parse(b5) {
                                None => None,
                                Some((region, b6)) => match <Option<String>>::parse(b6) {
                                    None => None,
                                    Some((zone, b7)) => Some((NodeModel { node, generation, alive, eligible, disk_available, region, zone }, b7)),
                                },
                            },
                        },
                    },
                },
            },
        }
    }

    #[verifier::rlimit(40)]
    fn put(&self, out: &mut Vec<u8>) {
        broadcast use {concat_assoc, numbers_are_models, texts_are_models};

        self.node.put(out);
        self.generation.put(out);
        self.alive.put(out);
        self.eligible.put(out);
        self.disk_available.put(out);
        self.region.put(out);
        self.zone.put(out);
        proof {
            let m = self.model();
            assert forall|n: int| 0 <= n < Self::bytes(self.model()).len() implies Self::parse(
                #[trigger] Self::bytes(self.model()).take(n),
            ) is None by {
                let s6 = <Option<String>>::bytes(m.zone);
                let s5 = <Option<String>>::bytes(m.region) + s6;
                let s4 = <Option<u64>>::bytes(m.disk_available) + s5;
                let s3 = bool::bytes(m.eligible) + s4;
                let s2 = bool::bytes(m.alive) + s3;
                let s1 = u64::bytes(m.generation) + s2;
                cut_behind::<u64>(m.node, s1, n);
                let n1 = n - u64::bytes(m.node).len();
                cut_behind::<u64>(m.generation, s2, n1);
                let n2 = n1 - u64::bytes(m.generation).len();
                cut_behind::<bool>(m.alive, s3, n2);
                let n3 = n2 - bool::bytes(m.alive).len();
                cut_behind::<bool>(m.eligible, s4, n3);
                let n4 = n3 - bool::bytes(m.eligible).len();
                cut_behind::<Option<u64>>(m.disk_available, s5, n4);
                let n5 = n4 - <Option<u64>>::bytes(m.disk_available).len();
                cut_behind::<Option<String>>(m.region, s6, n5);
                let n6 = n5 - <Option<String>>::bytes(m.region).len();
                if 0 <= n6 {
                    assert(<Option<String>>::parse(<Option<String>>::bytes(m.zone).take(n6)) is None);
                }
            }
        }
    }

    fn read(input: &[u8]) -> Option<(ObservedNode, &[u8])> {
        broadcast use {numbers_are_models, texts_are_models};

        match u64::read(input) {
            None => None,
            Some((node, b1)) => match u64::read(b1) {
                None => None,
                Some((generation, b2)) => match bool::read(b2) {
                    None => None,
                    Some((alive, b3)) => match bool::read(b3) {
                        None => None,
                        Some((eligible, b4)) => match <Option<u64>>::read(b4) {
                            None => None,
                            Some((disk_available, b5)) => match <Option<String>>::read(b5) {
                                None => None,
                                Some((region, b6)) => match <Option<String>>::read(b6) {
                                    None => None,
                                    Some((zone, b7)) => Some((ObservedNode { node, generation, alive, eligible, disk_available, region, zone }, b7)),
                                },
                            },
                        },
                    },
                },
            },
        }
    }
}

impl Wire for Observed {
    type M = ObservedModel;

    open spec fn model(&self) -> ObservedModel {
        self@
    }

    open spec fn bytes(m: ObservedModel) -> Seq<u8> {
        u64::bytes(m.policy_revision) + (<[u8; 32]>::bytes(m.policy_hash) + (PolicyIntent::bytes(m.policy) + (<Vec<ObservedSession>>::bytes(m.sessions) + (<Vec<ObservedNode>>::bytes(m.nodes)))))
    }

    open spec fn parse(b: Seq<u8>) -> Option<(ObservedModel, Seq<u8>)> {
        match u64::parse(b) {
            None => None,
            Some((policy_revision, b1)) => match <[u8; 32]>::parse(b1) {
                None => None,
                Some((policy_hash, b2)) => match PolicyIntent::parse(b2) {
                    None => None,
                    Some((policy, b3)) => match <Vec<ObservedSession>>::parse(b3) {
                        None => None,
                        Some((sessions, b4)) => match <Vec<ObservedNode>>::parse(b4) {
                            None => None,
                            Some((nodes, b5)) => Some((ObservedModel { policy_revision, policy_hash, policy, sessions, nodes }, b5)),
                        },
                    },
                },
            },
        }
    }

    fn put(&self, out: &mut Vec<u8>) {
        broadcast use {concat_assoc, numbers_are_models, texts_are_models};

        self.policy_revision.put(out);
        self.policy_hash.put(out);
        self.policy.put(out);
        self.sessions.put(out);
        self.nodes.put(out);
        proof {
            let m = self.model();
            assert forall|n: int| 0 <= n < Self::bytes(self.model()).len() implies Self::parse(
                #[trigger] Self::bytes(self.model()).take(n),
            ) is None by {
                let s4 = <Vec<ObservedNode>>::bytes(m.nodes);
                let s3 = <Vec<ObservedSession>>::bytes(m.sessions) + s4;
                let s2 = PolicyIntent::bytes(m.policy) + s3;
                let s1 = <[u8; 32]>::bytes(m.policy_hash) + s2;
                cut_behind::<u64>(m.policy_revision, s1, n);
                let n1 = n - u64::bytes(m.policy_revision).len();
                cut_behind::<[u8; 32]>(m.policy_hash, s2, n1);
                let n2 = n1 - <[u8; 32]>::bytes(m.policy_hash).len();
                cut_behind::<PolicyIntent>(m.policy, s3, n2);
                let n3 = n2 - PolicyIntent::bytes(m.policy).len();
                cut_behind::<Vec<ObservedSession>>(m.sessions, s4, n3);
                let n4 = n3 - <Vec<ObservedSession>>::bytes(m.sessions).len();
                if 0 <= n4 {
                    assert(<Vec<ObservedNode>>::parse(<Vec<ObservedNode>>::bytes(m.nodes).take(n4)) is None);
                }
            }
        }
    }

    fn read(input: &[u8]) -> Option<(Observed, &[u8])> {
        broadcast use {numbers_are_models, texts_are_models};

        match u64::read(input) {
            None => None,
            Some((policy_revision, b1)) => match <[u8; 32]>::read(b1) {
                None => None,
                Some((policy_hash, b2)) => match PolicyIntent::read(b2) {
                    None => None,
                    Some((policy, b3)) => match <Vec<ObservedSession>>::read(b3) {
                        None => None,
                        Some((sessions, b4)) => match <Vec<ObservedNode>>::read(b4) {
                            None => None,
                            Some((nodes, b5)) => Some((Observed { policy_revision, policy_hash, policy, sessions, nodes }, b5)),
                        },
                    },
                },
            },
        }
    }
}

impl Wire for Change {
    type M = ChangeModel;

    open spec fn model(&self) -> ChangeModel {
        self@
    }

    open spec fn bytes(m: ChangeModel) -> Seq<u8> {
        match m {
            ChangeModel::CommitPolicy { from_revision, to_revision } => u32::bytes(0u32) + (u64::bytes(from_revision) + (u64::bytes(to_revision))),
            ChangeModel::PlanSession { tenant, session, durability, operation, voters, expected, pending } => u32::bytes(1u32) + (<[u8; 16]>::bytes(tenant) + (<[u8; 16]>::bytes(session) + (GuaranteeLevel::bytes(durability) + (<[u8; 16]>::bytes(operation) + (<Vec<u64>>::bytes(voters) + (SessionEpochs::bytes(expected) + (bool::bytes(pending)))))))),
            ChangeModel::NoChange { tenant, session } => u32::bytes(2u32) + (<[u8; 16]>::bytes(tenant) + (<[u8; 16]>::bytes(session))),
        }
    }

    open spec fn parse(b: Seq<u8>) -> Option<(ChangeModel, Seq<u8>)> {
        match u32::parse(b) {
            None => None,
            Some((tag, b0)) => if tag == 0 {
                match u64::parse(b0) {
                    None => None,
                    Some((from_revision, b1)) => match u64::parse(b1) {
                        None => None,
                        Some((to_revision, b2)) => Some((ChangeModel::CommitPolicy { from_revision, to_revision }, b2)),
                    },
                }
            } else if tag == 1 {
                match <[u8; 16]>::parse(b0) {
                    None => None,
                    Some((tenant, b1)) => match <[u8; 16]>::parse(b1) {
                        None => None,
                        Some((session, b2)) => match GuaranteeLevel::parse(b2) {
                            None => None,
                            Some((durability, b3)) => match <[u8; 16]>::parse(b3) {
                                None => None,
                                Some((operation, b4)) => match <Vec<u64>>::parse(b4) {
                                    None => None,
                                    Some((voters, b5)) => match SessionEpochs::parse(b5) {
                                        None => None,
                                        Some((expected, b6)) => match bool::parse(b6) {
                                            None => None,
                                            Some((pending, b7)) => Some((ChangeModel::PlanSession { tenant, session, durability, operation, voters, expected, pending }, b7)),
                                        },
                                    },
                                },
                            },
                        },
                    },
                }
            } else if tag == 2 {
                match <[u8; 16]>::parse(b0) {
                    None => None,
                    Some((tenant, b1)) => match <[u8; 16]>::parse(b1) {
                        None => None,
                        Some((session, b2)) => Some((ChangeModel::NoChange { tenant, session }, b2)),
                    },
                }
            } else {
                None
            },
        }
    }

    #[verifier::rlimit(60)]
    fn put(&self, out: &mut Vec<u8>) {
        broadcast use {concat_assoc, numbers_are_models, texts_are_models};

        match self {
            Change::CommitPolicy { from_revision, to_revision } => {
                let tag: u32 = 0;
                tag.put(out);
                from_revision.put(out);
                to_revision.put(out);
                proof {
                    assert forall|n: int| 0 <= n < Self::bytes(self.model()).len() implies Self::parse(
                        #[trigger] Self::bytes(self.model()).take(n),
                    ) is None by {
                        let s2 = u64::bytes(*to_revision);
                        let s1 = u64::bytes(*from_revision) + s2;
                        cut_behind::<u32>(0u32, s1, n);
                        let n1 = n - u32::bytes(0u32).len();
                        cut_behind::<u64>(*from_revision, s2, n1);
                        let n2 = n1 - u64::bytes(*from_revision).len();
                        if 0 <= n2 {
                            assert(u64::parse(u64::bytes(*to_revision).take(n2)) is None);
                        }
                    }
                }
            },
            Change::PlanSession { tenant, session, durability, operation, voters, expected, pending } => {
                let tag: u32 = 1;
                tag.put(out);
                tenant.put(out);
                session.put(out);
                durability.put(out);
                operation.put(out);
                voters.put(out);
                expected.put(out);
                pending.put(out);
                proof {
                    assert forall|n: int| 0 <= n < Self::bytes(self.model()).len() implies Self::parse(
                        #[trigger] Self::bytes(self.model()).take(n),
                    ) is None by {
                        let s7 = bool::bytes(*pending);
                        let s6 = SessionEpochs::bytes(*expected) + s7;
                        let s5 = <Vec<u64>>::bytes(voters@) + s6;
                        let s4 = <[u8; 16]>::bytes(*operation) + s5;
                        let s3 = GuaranteeLevel::bytes(*durability) + s4;
                        let s2 = <[u8; 16]>::bytes(*session) + s3;
                        let s1 = <[u8; 16]>::bytes(*tenant) + s2;
                        cut_behind::<u32>(1u32, s1, n);
                        let n1 = n - u32::bytes(1u32).len();
                        cut_behind::<[u8; 16]>(*tenant, s2, n1);
                        let n2 = n1 - <[u8; 16]>::bytes(*tenant).len();
                        cut_behind::<[u8; 16]>(*session, s3, n2);
                        let n3 = n2 - <[u8; 16]>::bytes(*session).len();
                        cut_behind::<GuaranteeLevel>(*durability, s4, n3);
                        let n4 = n3 - GuaranteeLevel::bytes(*durability).len();
                        cut_behind::<[u8; 16]>(*operation, s5, n4);
                        let n5 = n4 - <[u8; 16]>::bytes(*operation).len();
                        cut_behind::<Vec<u64>>(voters@, s6, n5);
                        let n6 = n5 - <Vec<u64>>::bytes(voters@).len();
                        cut_behind::<SessionEpochs>(*expected, s7, n6);
                        let n7 = n6 - SessionEpochs::bytes(*expected).len();
                        if 0 <= n7 {
                            assert(bool::parse(bool::bytes(*pending).take(n7)) is None);
                        }
                    }
                }
            },
            Change::NoChange { tenant, session } => {
                let tag: u32 = 2;
                tag.put(out);
                tenant.put(out);
                session.put(out);
                proof {
                    assert forall|n: int| 0 <= n < Self::bytes(self.model()).len() implies Self::parse(
                        #[trigger] Self::bytes(self.model()).take(n),
                    ) is None by {
                        let s2 = <[u8; 16]>::bytes(*session);
                        let s1 = <[u8; 16]>::bytes(*tenant) + s2;
                        cut_behind::<u32>(2u32, s1, n);
                        let n1 = n - u32::bytes(2u32).len();
                        cut_behind::<[u8; 16]>(*tenant, s2, n1);
                        let n2 = n1 - <[u8; 16]>::bytes(*tenant).len();
                        if 0 <= n2 {
                            assert(<[u8; 16]>::parse(<[u8; 16]>::bytes(*session).take(n2)) is None);
                        }
                    }
                }
            },
        }
    }

    fn read(input: &[u8]) -> Option<(Change, &[u8])> {
        broadcast use {numbers_are_models, texts_are_models};

        match u32::read(input) {
            None => None,
            Some((tag, b0)) => if tag == 0 {
                match u64::read(b0) {
                    None => None,
                    Some((from_revision, b1)) => match u64::read(b1) {
                        None => None,
                        Some((to_revision, b2)) => Some((Change::CommitPolicy { from_revision, to_revision }, b2)),
                    },
                }
            } else if tag == 1 {
                match <[u8; 16]>::read(b0) {
                    None => None,
                    Some((tenant, b1)) => match <[u8; 16]>::read(b1) {
                        None => None,
                        Some((session, b2)) => match GuaranteeLevel::read(b2) {
                            None => None,
                            Some((durability, b3)) => match <[u8; 16]>::read(b3) {
                                None => None,
                                Some((operation, b4)) => match <Vec<u64>>::read(b4) {
                                    None => None,
                                    Some((voters, b5)) => match SessionEpochs::read(b5) {
                                        None => None,
                                        Some((expected, b6)) => match bool::read(b6) {
                                            None => None,
                                            Some((pending, b7)) => Some((Change::PlanSession { tenant, session, durability, operation, voters, expected, pending }, b7)),
                                        },
                                    },
                                },
                            },
                        },
                    },
                }
            } else if tag == 2 {
                match <[u8; 16]>::read(b0) {
                    None => None,
                    Some((tenant, b1)) => match <[u8; 16]>::read(b1) {
                        None => None,
                        Some((session, b2)) => Some((Change::NoChange { tenant, session }, b2)),
                    },
                }
            } else {
                None
            },
        }
    }
}

impl Wire for Blocked {
    type M = BlockedModel;

    open spec fn model(&self) -> BlockedModel {
        self@
    }

    open spec fn bytes(m: BlockedModel) -> Seq<u8> {
        <[u8; 16]>::bytes(m.tenant) + (<[u8; 16]>::bytes(m.session) + (String::bytes(m.reason)))
    }

    open spec fn parse(b: Seq<u8>) -> Option<(BlockedModel, Seq<u8>)> {
        match <[u8; 16]>::parse(b) {
            None => None,
            Some((tenant, b1)) => match <[u8; 16]>::parse(b1) {
                None => None,
                Some((session, b2)) => match String::parse(b2) {
                    None => None,
                    Some((reason, b3)) => Some((BlockedModel { tenant, session, reason }, b3)),
                },
            },
        }
    }

    fn put(&self, out: &mut Vec<u8>) {
        broadcast use {concat_assoc, numbers_are_models, texts_are_models};

        self.tenant.put(out);
        self.session.put(out);
        self.reason.put(out);
        proof {
            let m = self.model();
            assert forall|n: int| 0 <= n < Self::bytes(self.model()).len() implies Self::parse(
                #[trigger] Self::bytes(self.model()).take(n),
            ) is None by {
                let s2 = String::bytes(m.reason);
                let s1 = <[u8; 16]>::bytes(m.session) + s2;
                cut_behind::<[u8; 16]>(m.tenant, s1, n);
                let n1 = n - <[u8; 16]>::bytes(m.tenant).len();
                cut_behind::<[u8; 16]>(m.session, s2, n1);
                let n2 = n1 - <[u8; 16]>::bytes(m.session).len();
                if 0 <= n2 {
                    assert(String::parse(String::bytes(m.reason).take(n2)) is None);
                }
            }
        }
    }

    fn read(input: &[u8]) -> Option<(Blocked, &[u8])> {
        broadcast use {numbers_are_models, texts_are_models};

        match <[u8; 16]>::read(input) {
            None => None,
            Some((tenant, b1)) => match <[u8; 16]>::read(b1) {
                None => None,
                Some((session, b2)) => match String::read(b2) {
                    None => None,
                    Some((reason, b3)) => Some((Blocked { tenant, session, reason }, b3)),
                },
            },
        }
    }
}

impl Wire for PlanBody {
    type M = BodyModel;

    open spec fn model(&self) -> BodyModel {
        self@
    }

    open spec fn bytes(m: BodyModel) -> Seq<u8> {
        DeploymentIdentity::bytes(m.deployment) + (Observed::bytes(m.observed) + (PolicyIntent::bytes(m.requested) + (<[u8; 32]>::bytes(m.policy_hash) + (<Vec<Change>>::bytes(m.changes) + (Guarantee::bytes(m.guarantee) + (<Vec<Blocked>>::bytes(m.blocked)))))))
    }

    open spec fn parse(b: Seq<u8>) -> Option<(BodyModel, Seq<u8>)> {
        match DeploymentIdentity::parse(b) {
            None => None,
            Some((deployment, b1)) => match Observed::parse(b1) {
                None => None,
                Some((observed, b2)) => match PolicyIntent::parse(b2) {
                    None => None,
                    Some((requested, b3)) => match <[u8; 32]>::parse(b3) {
                        None => None,
                        Some((policy_hash, b4)) => match <Vec<Change>>::parse(b4) {
                            None => None,
                            Some((changes, b5)) => match Guarantee::parse(b5) {
                                None => None,
                                Some((guarantee, b6)) => match <Vec<Blocked>>::parse(b6) {
                                    None => None,
                                    Some((blocked, b7)) => Some((BodyModel { deployment, observed, requested, policy_hash, changes, guarantee, blocked }, b7)),
                                },
                            },
                        },
                    },
                },
            },
        }
    }

    #[verifier::rlimit(80)]
    fn put(&self, out: &mut Vec<u8>) {
        broadcast use {concat_assoc, numbers_are_models, texts_are_models};

        self.deployment.put(out);
        self.observed.put(out);
        self.requested.put(out);
        self.policy_hash.put(out);
        self.changes.put(out);
        self.guarantee.put(out);
        self.blocked.put(out);
        proof {
            let m = self.model();
            assert forall|n: int| 0 <= n < Self::bytes(self.model()).len() implies Self::parse(
                #[trigger] Self::bytes(self.model()).take(n),
            ) is None by {
                let s6 = <Vec<Blocked>>::bytes(m.blocked);
                let s5 = Guarantee::bytes(m.guarantee) + s6;
                let s4 = <Vec<Change>>::bytes(m.changes) + s5;
                let s3 = <[u8; 32]>::bytes(m.policy_hash) + s4;
                let s2 = PolicyIntent::bytes(m.requested) + s3;
                let s1 = Observed::bytes(m.observed) + s2;
                cut_behind::<DeploymentIdentity>(m.deployment, s1, n);
                let n1 = n - DeploymentIdentity::bytes(m.deployment).len();
                cut_behind::<Observed>(m.observed, s2, n1);
                let n2 = n1 - Observed::bytes(m.observed).len();
                cut_behind::<PolicyIntent>(m.requested, s3, n2);
                let n3 = n2 - PolicyIntent::bytes(m.requested).len();
                cut_behind::<[u8; 32]>(m.policy_hash, s4, n3);
                let n4 = n3 - <[u8; 32]>::bytes(m.policy_hash).len();
                cut_behind::<Vec<Change>>(m.changes, s5, n4);
                let n5 = n4 - <Vec<Change>>::bytes(m.changes).len();
                cut_behind::<Guarantee>(m.guarantee, s6, n5);
                let n6 = n5 - Guarantee::bytes(m.guarantee).len();
                if 0 <= n6 {
                    assert(<Vec<Blocked>>::parse(<Vec<Blocked>>::bytes(m.blocked).take(n6)) is None);
                }
            }
        }
    }

    fn read(input: &[u8]) -> Option<(PlanBody, &[u8])> {
        broadcast use {numbers_are_models, texts_are_models};

        match DeploymentIdentity::read(input) {
            None => None,
            Some((deployment, b1)) => match Observed::read(b1) {
                None => None,
                Some((observed, b2)) => match PolicyIntent::read(b2) {
                    None => None,
                    Some((requested, b3)) => match <[u8; 32]>::read(b3) {
                        None => None,
                        Some((policy_hash, b4)) => match <Vec<Change>>::read(b4) {
                            None => None,
                            Some((changes, b5)) => match Guarantee::read(b5) {
                                None => None,
                                Some((guarantee, b6)) => match <Vec<Blocked>>::read(b6) {
                                    None => None,
                                    Some((blocked, b7)) => Some((PlanBody { deployment, observed, requested, policy_hash, changes, guarantee, blocked }, b7)),
                                },
                            },
                        },
                    },
                },
            },
        }
    }
}

impl Wire for DeploymentPlan {
    type M = PlanModel;

    open spec fn model(&self) -> PlanModel {
        PlanModel {
            schema: self.schema,
            plan_id: self.plan_id,
            created_ms: self.created_ms,
            observed_at: self.observed_at,
            body: self.body@,
        }
    }

    open spec fn bytes(m: PlanModel) -> Seq<u8> {
        u16::bytes(m.schema) + (<[u8; 16]>::bytes(m.plan_id) + (u64::bytes(m.created_ms) + (i64::bytes(m.observed_at) + (PlanBody::bytes(m.body)))))
    }

    open spec fn parse(b: Seq<u8>) -> Option<(PlanModel, Seq<u8>)> {
        match u16::parse(b) {
            None => None,
            Some((schema, b1)) => match <[u8; 16]>::parse(b1) {
                None => None,
                Some((plan_id, b2)) => match u64::parse(b2) {
                    None => None,
                    Some((created_ms, b3)) => match i64::parse(b3) {
                        None => None,
                        Some((observed_at, b4)) => match PlanBody::parse(b4) {
                            None => None,
                            Some((body, b5)) => Some((PlanModel { schema, plan_id, created_ms, observed_at, body }, b5)),
                        },
                    },
                },
            },
        }
    }

    fn put(&self, out: &mut Vec<u8>) {
        broadcast use {concat_assoc, numbers_are_models, texts_are_models};

        self.schema.put(out);
        self.plan_id.put(out);
        self.created_ms.put(out);
        self.observed_at.put(out);
        self.body.put(out);
        proof {
            let m = self.model();
            assert forall|n: int| 0 <= n < Self::bytes(self.model()).len() implies Self::parse(
                #[trigger] Self::bytes(self.model()).take(n),
            ) is None by {
                let s4 = PlanBody::bytes(m.body);
                let s3 = i64::bytes(m.observed_at) + s4;
                let s2 = u64::bytes(m.created_ms) + s3;
                let s1 = <[u8; 16]>::bytes(m.plan_id) + s2;
                cut_behind::<u16>(m.schema, s1, n);
                let n1 = n - u16::bytes(m.schema).len();
                cut_behind::<[u8; 16]>(m.plan_id, s2, n1);
                let n2 = n1 - <[u8; 16]>::bytes(m.plan_id).len();
                cut_behind::<u64>(m.created_ms, s3, n2);
                let n3 = n2 - u64::bytes(m.created_ms).len();
                cut_behind::<i64>(m.observed_at, s4, n3);
                let n4 = n3 - i64::bytes(m.observed_at).len();
                if 0 <= n4 {
                    assert(PlanBody::parse(PlanBody::bytes(m.body).take(n4)) is None);
                }
            }
        }
    }

    fn read(input: &[u8]) -> Option<(DeploymentPlan, &[u8])> {
        broadcast use {numbers_are_models, texts_are_models};

        match u16::read(input) {
            None => None,
            Some((schema, b1)) => match <[u8; 16]>::read(b1) {
                None => None,
                Some((plan_id, b2)) => match u64::read(b2) {
                    None => None,
                    Some((created_ms, b3)) => match i64::read(b3) {
                        None => None,
                        Some((observed_at, b4)) => match PlanBody::read(b4) {
                            None => None,
                            Some((body, b5)) => Some((DeploymentPlan { schema, plan_id, created_ms, observed_at, body }, b5)),
                        },
                    },
                },
            },
        }
    }
}

} // verus!
