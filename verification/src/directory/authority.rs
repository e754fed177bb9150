//! What the root committed, and the permits it mints: opening a partition's
//! group, and refreshing the authority it holds.
use super::{ControlError, ControlIdentity, ControlScope, Delegation, DirectoryBootstrapError,
    NamespaceRange, PartitionPlan};
use super::unset;
use crate::hashing::{same_16, same_32, same_bytes, zero_16};
use crate::nodes::same_list;
use vstd::prelude::*;

verus! {

/// Bytes of an activation, its framing included.
pub const MAX_ACTIVATION_BYTES: usize = 128 * 1024;

/// A group's members.
#[derive(Debug, Clone, PartialEq, Eq)]
pub struct Configuration {
    pub voters: Vec<u64>,
    pub learners: Vec<u64>,
    pub voters_outgoing: Vec<u64>,
    pub learners_next: Vec<u64>,
    pub auto_leave: bool,
}

impl Configuration {
    /// Whether two configurations name the same members in the same order.
    pub open spec fn equals(self, other: Self) -> bool {
        self.voters@ == other.voters@ && self.learners@ == other.learners@ && self.voters_outgoing@
            == other.voters_outgoing@ && self.learners_next@ == other.learners_next@
            && self.auto_leave == other.auto_leave
    }

    /// Whether two configurations name the same members in the same order.
    pub fn same(&self, other: &Self) -> (same: bool)
        ensures
            same == self.equals(*other),
    {
        same_list(&self.voters, &other.voters) && same_list(&self.learners, &other.learners)
            && same_list(&self.voters_outgoing, &other.voters_outgoing) && same_list(
            &self.learners_next,
            &other.learners_next,
        ) && self.auto_leave == other.auto_leave
    }

    /// Whether the node is the group's one and only member.
    pub open spec fn alone(self, node: u64) -> bool {
        self.voters@ == seq![node] && self.learners@.len() == 0 && self.voters_outgoing@.len() == 0
            && self.learners_next@.len() == 0 && !self.auto_leave
    }

    /// Whether the node is the group's one and only member.
    pub fn is_alone(&self, node: u64) -> (alone: bool)
        ensures
            alone == self.alone(node),
    {
        let one = self.voters.len() == 1 && self.voters[0] == node;
        assert(one == (self.voters@ == seq![node])) by {
            if one {
                assert(self.voters@ =~= seq![node]);
            }
        }
        one && self.learners.len() == 0 && self.voters_outgoing.len() == 0
            && self.learners_next.len() == 0 && !self.auto_leave
    }
}

/// A partition's replica, as far as a refresh reads it.
#[derive(Debug, Clone, PartialEq, Eq)]
pub struct Destination {
    pub identity: ControlIdentity,
    pub node: u64,
    /// The delegation its checkpoint holds, where it is a partition's.
    pub delegation: Option<Delegation>,
    pub configuration: Configuration,
    pub applied_index: u64,
    pub pending: bool,
}

impl Destination {
    /// Whether the replica is the plan's own, alone on the founding node.
    pub open spec fn of(self, plan: PartitionPlan) -> bool {
        self.identity == plan.named() && self.node == plan.founder_node && (self.delegation matches
            Some(delegation) && plan.hosts(delegation)) && self.configuration.alone(
            plan.founder_node,
        )
    }

    /// What is wrong with a replica that is to be the plan's own.
    pub open spec fn refused(self, plan: PartitionPlan) -> Option<DirectoryBootstrapError> {
        if unset(plan.genesis) {
            Some(DirectoryBootstrapError::Inconsistent)
        } else if !self.of(plan) {
            Some(DirectoryBootstrapError::Unauthorized)
        } else {
            None
        }
    }
}

/// Check that a replica is the plan's own, alone on the founding node.
pub fn validate_destination(destination: &Destination, plan: &PartitionPlan) -> (done: Result<
    (),
    DirectoryBootstrapError,
>)
    ensures
        done == (match destination.refused(*plan) {
            Some(error) => Err::<(), DirectoryBootstrapError>(error),
            None => Ok::<(), DirectoryBootstrapError>(()),
        }),
{
    let identity = match plan.identity() {
        Ok(identity) => identity,
        Err(error) => return Err(error),
    };
    if !destination.identity.same(&identity) || destination.node != plan.founder_node {
        return Err(DirectoryBootstrapError::Unauthorized);
    }
    let hosted = match &destination.delegation {
        Some(delegation) => plan.accepts(delegation),
        None => false,
    };
    if !hosted || !destination.configuration.is_alone(plan.founder_node) {
        return Err(DirectoryBootstrapError::Unauthorized);
    }
    Ok(())
}

/// The root's authority as of one index of its log, encoded.
#[derive(Debug, Clone, PartialEq, Eq)]
pub struct AuthoritySnapshot {
    pub identity: ControlIdentity,
    pub source: ControlIdentity,
    pub source_index: u64,
    pub applied_index: u64,
    pub decided_at: i64,
    pub authority: Vec<u8>,
    pub enrollment: Vec<u8>,
}

impl AuthoritySnapshot {
    /// Whether two snapshots hold the same authority.
    pub open spec fn agrees(self, other: Self) -> bool {
        self.authority@ == other.authority@ && self.enrollment@ == other.enrollment@
    }

    /// Whether two snapshots hold the same authority.
    pub fn same(&self, other: &Self) -> (same: bool)
        ensures
            same == self.agrees(*other),
    {
        same_bytes(self.authority.as_slice(), other.authority.as_slice()) && same_bytes(
            self.enrollment.as_slice(),
            other.enrollment.as_slice(),
        )
    }
}

/// One request of a control client.
#[derive(Debug, Clone, Copy, PartialEq, Eq)]
pub struct ControlRequestId {
    pub client: [u8; 16],
    pub sequence: u64,
}

impl ControlRequestId {
    /// Whether two requests are the same.
    pub fn same(&self, other: &Self) -> (same: bool)
        ensures
            same == (*self == *other),
    {
        same_16(&self.client, &other.client) && self.sequence == other.sequence
    }
}

/// What a control group committed for a request.
#[derive(Debug, Clone, Copy, PartialEq, Eq)]
pub struct ControlReceipt {
    pub request: ControlRequestId,
    pub committed_index: u64,
}

impl ControlReceipt {
    /// Whether two receipts are the same.
    pub fn same(&self, other: &Self) -> (same: bool)
        ensures
            same == (*self == *other),
    {
        self.request.same(&other.request) && self.committed_index == other.committed_index
    }
}

/// A permit to open the group a plan describes, or to refresh the authority
/// it holds. Only the root's own owner mints one.
#[derive(Debug, Clone, PartialEq, Eq)]
pub struct PartitionBootstrapPermit {
    pub plan: PartitionPlan,
    pub snapshot: AuthoritySnapshot,
    pub prepared_at: i64,
    pub expires_at: i64,
}

/// An authority installation the destination is asked for: at `sequence`,
/// over the source index it holds.
#[derive(Debug, Clone, Copy, PartialEq, Eq)]
pub struct Installation {
    pub id: ControlRequestId,
    pub acknowledged_through: u64,
    pub expected_source_index: u64,
    pub decided_at: i64,
}

/// An authority change under way: the exact intent is kept until its outcome
/// is known.
#[derive(Debug, Clone, Copy, PartialEq, Eq)]
pub struct DirectoryAuthorityChange {
    pub plan: PartitionPlan,
    pub root: ControlIdentity,
    pub root_index: u64,
    pub expires_at: i64,
    /// What is submitted; nothing where the destination holds this very
    /// authority already.
    pub request: Option<Installation>,
    pub previous: ControlReceipt,
}

/// A committed installation observed behind a fresh barrier of the
/// destination. The root's and the destination's indexes are of different
/// logs.
#[derive(Debug, Clone, Copy, PartialEq, Eq)]
pub struct DirectoryAuthorityReceipt {
    pub root: ControlIdentity,
    pub root_index: u64,
    pub receipt: ControlReceipt,
    pub applied_index: u64,
}

/// The bytes a permit is charged for a snapshot that reads `charge` bytes.
pub fn permit_charge(charge: usize) -> (bytes: Result<usize, DirectoryBootstrapError>)
    ensures
        bytes == (if charge * 2 + 64 * 1024 <= usize::MAX {
            Ok::<usize, DirectoryBootstrapError>((charge * 2 + 64 * 1024) as usize)
        } else {
            Err::<usize, DirectoryBootstrapError>(DirectoryBootstrapError::Capacity)
        }),
{
    match charge.checked_mul(2) {
        Some(bytes) => match bytes.checked_add(64 * 1024) {
            Some(bytes) => Ok(bytes),
            None => Err(DirectoryBootstrapError::Capacity),
        },
        None => Err(DirectoryBootstrapError::Capacity),
    }
}

/// The authority a replica holds, once `reserved` bytes were granted for it.
pub fn installed_authority(
    reserved: bool,
    read: Result<Option<AuthoritySnapshot>, ControlError>,
) -> (snapshot: Result<AuthoritySnapshot, DirectoryBootstrapError>)
    ensures
        snapshot == (if !reserved {
            Err::<AuthoritySnapshot, DirectoryBootstrapError>(DirectoryBootstrapError::Capacity)
        } else {
            match read {
                Err(error) => Err::<AuthoritySnapshot, DirectoryBootstrapError>(
                    DirectoryBootstrapError::Control(error),
                ),
                Ok(None) => Err::<AuthoritySnapshot, DirectoryBootstrapError>(
                    DirectoryBootstrapError::Inconsistent,
                ),
                Ok(Some(snapshot)) => Ok::<AuthoritySnapshot, DirectoryBootstrapError>(snapshot),
            }
        }),
{
    if !reserved {
        return Err(DirectoryBootstrapError::Capacity);
    }
    match read {
        Err(error) => Err(DirectoryBootstrapError::Control(error)),
        Ok(None) => Err(DirectoryBootstrapError::Inconsistent),
        Ok(Some(snapshot)) => Ok(snapshot),
    }
}

impl PartitionBootstrapPermit {
    /// The plan the permit is for.
    pub fn plan(&self) -> (plan: PartitionPlan)
        ensures
            plan == self.plan,
    {
        self.plan
    }

    /// The root the permit is of.
    pub fn root_identity(&self) -> (identity: ControlIdentity)
        ensures
            identity == self.snapshot.source,
    {
        self.snapshot.source
    }

    /// The index of the root's log the permit is of.
    pub fn root_index(&self) -> (index: u64)
        ensures
            index == self.snapshot.source_index,
    {
        self.snapshot.source_index
    }

    /// When the permit expires.
    pub fn expires_at(&self) -> (at: i64)
        ensures
            at == self.expires_at,
    {
        self.expires_at
    }

    /// Whether the permit may be used now.
    pub open spec fn valid_at(self, now: i64) -> bool {
        self.prepared_at <= now < self.expires_at
    }

    /// What a refresh changes at a destination that holds `current`, having
    /// taken its client's requests up to `previous`.
    pub open spec fn refresh(
        self,
        destination: Destination,
        current: Result<AuthoritySnapshot, DirectoryBootstrapError>,
        previous: Option<ControlReceipt>,
        now: i64,
    ) -> Result<DirectoryAuthorityChange, DirectoryBootstrapError> {
        match destination.refused(self.plan) {
            Some(error) => Err(error),
            None => if !self.valid_at(now) {
                Err(DirectoryBootstrapError::Unauthorized)
            } else if destination.pending {
                Err(DirectoryBootstrapError::NotReady)
            } else {
                match current {
                    Err(error) => Err(error),
                    Ok(current) => if zero_16(self.plan.installer()) || previous is None {
                        Err(DirectoryBootstrapError::Inconsistent)
                    } else if current.source != self.snapshot.source || current.identity
                        != self.plan.named() || current.source_index > self.snapshot.source_index {
                        Err(DirectoryBootstrapError::Unauthorized)
                    } else if current.source_index == self.snapshot.source_index
                        && !current.agrees(self.snapshot) {
                        Err(DirectoryBootstrapError::Inconsistent)
                    } else if current.source_index < self.snapshot.source_index
                        && previous->0.request.sequence == u64::MAX {
                        Err(DirectoryBootstrapError::Capacity)
                    } else {
                        Ok(
                            DirectoryAuthorityChange {
                                plan: self.plan,
                                root: self.snapshot.source,
                                root_index: self.snapshot.source_index,
                                expires_at: self.expires_at,
                                request: if current.source_index == self.snapshot.source_index {
                                    None
                                } else {
                                    Some(
                                        Installation {
                                            id: ControlRequestId {
                                                client: self.plan.installer(),
                                                sequence: (previous->0.request.sequence
                                                    + 1) as u64,
                                            },
                                            acknowledged_through: previous->0.request.sequence,
                                            expected_source_index: current.source_index,
                                            decided_at: now,
                                        },
                                    )
                                },
                                previous: previous->0,
                            },
                        )
                    },
                }
            },
        }
    }

    /// Decide what a refresh changes, behind a fresh barrier of the
    /// destination.
    pub fn prepare_refresh(
        &self,
        destination: &Destination,
        current: Result<AuthoritySnapshot, DirectoryBootstrapError>,
        previous: Option<ControlReceipt>,
        now: i64,
    ) -> (change: Result<DirectoryAuthorityChange, DirectoryBootstrapError>)
        ensures
            change == self.refresh(*destination, current, previous, now),
    {
        match validate_destination(destination, &self.plan) {
            Ok(_) => {},
            Err(error) => return Err(error),
        }
        if now < self.prepared_at || now >= self.expires_at {
            return Err(DirectoryBootstrapError::Unauthorized);
        }
        if destination.pending {
            return Err(DirectoryBootstrapError::NotReady);
        }
        let current = match current {
            Ok(current) => current,
            Err(error) => return Err(error),
        };
        let client = match self.plan.client() {
            Ok(client) => client,
            Err(error) => return Err(error),
        };
        let previous = match previous {
            Some(previous) => previous,
            None => return Err(DirectoryBootstrapError::Inconsistent),
        };
        let identity = match self.plan.identity() {
            Ok(identity) => identity,
            Err(error) => return Err(error),
        };
        if !current.source.same(&self.snapshot.source) || !current.identity.same(&identity)
            || current.source_index > self.snapshot.source_index {
            return Err(DirectoryBootstrapError::Unauthorized);
        }
        if current.source_index == self.snapshot.source_index && !current.same(&self.snapshot) {
            return Err(DirectoryBootstrapError::Inconsistent);
        }
        let request = if current.source_index == self.snapshot.source_index {
            None
        } else {
            let sequence: u64 = match previous.request.sequence.checked_add(1) {
                Some(sequence) => sequence,
                None => return Err(DirectoryBootstrapError::Capacity),
            };
            Some(
                Installation {
                    id: ControlRequestId { client, sequence },
                    acknowledged_through: previous.request.sequence,
                    expected_source_index: current.source_index,
                    decided_at: now,
                },
            )
        };
        Ok(
            DirectoryAuthorityChange {
                plan: self.plan,
                root: self.snapshot.source,
                root_index: self.snapshot.source_index,
                expires_at: self.expires_at,
                request,
                previous,
            },
        )
    }
}

impl DirectoryAuthorityChange {
    /// What the change is answered once `receipt` is thought to have
    /// committed it: the destination holds exactly the root's authority, by
    /// its client's latest request.
    pub open spec fn completed(
        self,
        destination: Destination,
        snapshot: Result<AuthoritySnapshot, DirectoryBootstrapError>,
        latest: Option<ControlReceipt>,
        receipt: ControlReceipt,
        now: i64,
    ) -> Result<DirectoryAuthorityReceipt, DirectoryBootstrapError> {
        match destination.refused(self.plan) {
            Some(error) => Err(error),
            None => if now >= self.expires_at {
                Err(DirectoryBootstrapError::Unauthorized)
            } else {
                match snapshot {
                    Err(error) => Err(error),
                    Ok(snapshot) => if snapshot.source == self.root && snapshot.source_index
                        == self.root_index && !zero_16(self.plan.installer()) && latest == Some(
                        receipt,
                    ) && receipt.committed_index <= destination.applied_index {
                        Ok(
                            DirectoryAuthorityReceipt {
                                root: self.root,
                                root_index: self.root_index,
                                receipt,
                                applied_index: destination.applied_index,
                            },
                        )
                    } else {
                        Err(DirectoryBootstrapError::Inconsistent)
                    },
                }
            },
        }
    }

    /// Answer the change, behind a fresh barrier of the destination.
    pub fn complete(
        &self,
        destination: &Destination,
        snapshot: Result<AuthoritySnapshot, DirectoryBootstrapError>,
        latest: Option<ControlReceipt>,
        receipt: ControlReceipt,
        now: i64,
    ) -> (answer: Result<DirectoryAuthorityReceipt, DirectoryBootstrapError>)
        ensures
            answer == self.completed(*destination, snapshot, latest, receipt, now),
    {
        match validate_destination(destination, &self.plan) {
            Ok(_) => {},
            Err(error) => return Err(error),
        }
        if now >= self.expires_at {
            return Err(DirectoryBootstrapError::Unauthorized);
        }
        let snapshot = match snapshot {
            Ok(snapshot) => snapshot,
            Err(error) => return Err(error),
        };
        if !snapshot.source.same(&self.root) || snapshot.source_index != self.root_index {
            return Err(DirectoryBootstrapError::Inconsistent);
        }
        match self.plan.client() {
            Ok(_) => {},
            Err(error) => return Err(error),
        }
        let latest = match latest {
            Some(latest) => latest.same(&receipt),
            None => false,
        };
        if !latest || receipt.committed_index > destination.applied_index {
            return Err(DirectoryBootstrapError::Inconsistent);
        }
        Ok(
            DirectoryAuthorityReceipt {
                root: self.root,
                root_index: self.root_index,
                receipt,
                applied_index: destination.applied_index,
            },
        )
    }
}

/// Authority only moves forward: a permit older than what the destination
/// holds is never installed.
pub proof fn a_stale_permit_is_refused(
    permit: PartitionBootstrapPermit,
    destination: Destination,
    current: AuthoritySnapshot,
    previous: Option<ControlReceipt>,
    now: i64,
)
    requires
        current.source_index > permit.snapshot.source_index,
    ensures
        permit.refresh(destination, Ok(current), previous, now) is Err,
{
}

/// A refresh of what the destination already holds submits nothing and is
/// answered by the receipt it has.
pub proof fn a_repeated_refresh_changes_nothing(
    permit: PartitionBootstrapPermit,
    destination: Destination,
    current: AuthoritySnapshot,
    previous: ControlReceipt,
    now: i64,
)
    requires
        destination.of(permit.plan),
        !unset(permit.plan.genesis),
        permit.valid_at(now),
        !destination.pending,
        !zero_16(permit.plan.installer()),
        current.identity == permit.plan.named(),
        current.source == permit.snapshot.source,
        current.source_index == permit.snapshot.source_index,
        current.agrees(permit.snapshot),
        previous.committed_index <= destination.applied_index,
    ensures
        permit.refresh(destination, Ok(current), Some(previous), now) matches Ok(change)
            && change.request is None && (change.completed(
            destination,
            Ok(current),
            Some(previous),
            previous,
            now,
        ) matches Ok(answer) && answer.receipt == previous && answer.root_index
            == permit.snapshot.source_index),
{
}

/// Every installation takes its client's next sequence, over exactly what
/// the destination holds.
pub proof fn an_installation_succeeds_the_last(
    permit: PartitionBootstrapPermit,
    destination: Destination,
    current: AuthoritySnapshot,
    previous: ControlReceipt,
    now: i64,
    change: DirectoryAuthorityChange,
    request: Installation,
)
    requires
        permit.refresh(destination, Ok(current), Some(previous), now)
            == Ok::<DirectoryAuthorityChange, DirectoryBootstrapError>(change),
        change.request == Some(request),
    ensures
        request.id.sequence == previous.request.sequence + 1,
        request.acknowledged_through == previous.request.sequence,
        request.expected_source_index == current.source_index,
        current.source_index < change.root_index,
{
}

/// One voter of a group, by the generation it was granted at.
#[derive(Debug, Clone, Copy, PartialEq, Eq, Structural)]
pub struct Voter {
    pub node: u64,
    pub generation: u64,
}

/// What a group was granted to serve.
#[derive(Debug, Clone, Copy, PartialEq, Eq)]
pub enum GroupScope {
    Root,
    Partition { partition: [u8; 16], namespace: NamespaceRange },
    Session,
}

/// A group's authority, as the root granted it.
#[derive(Debug, Clone, PartialEq, Eq)]
pub struct GroupGrant {
    pub group: [u8; 16],
    pub genesis: [u8; 32],
    pub scope: GroupScope,
    pub membership_epoch: u64,
    pub voters: Vec<Voter>,
    pub outgoing_voters: Vec<Voter>,
    pub learners: Vec<Voter>,
    pub expires_at: i64,
}

impl GroupGrant {
    /// Whether the grant is the plan's: its partition's group, with the one
    /// voter at this generation.
    pub open spec fn founds(self, plan: PartitionPlan, generation: u64) -> bool {
        self.genesis == plan.genesis && self.scope == (GroupScope::Partition {
            partition: plan.partition,
            namespace: plan.delegation.namespace,
        }) && self.membership_epoch == 1 && self.voters@ == seq![
            Voter { node: plan.founder_node, generation },
        ] && self.outgoing_voters@.len() == 0 && self.learners@.len() == 0
    }

    /// Whether the grant is the plan's.
    pub fn is_founding(&self, plan: &PartitionPlan, generation: u64) -> (yes: bool)
        ensures
            yes == self.founds(*plan, generation),
    {
        let scope = match &self.scope {
            GroupScope::Partition { partition, namespace } => same_16(partition, &plan.partition)
                && namespace.same(&plan.delegation.namespace),
            _ => false,
        };
        let one = self.voters.len() == 1 && self.voters[0].node == plan.founder_node
            && self.voters[0].generation == generation;
        assert(one == (self.voters@ == seq![Voter { node: plan.founder_node, generation }])) by {
            if one {
                assert(self.voters@ =~= seq![Voter { node: plan.founder_node, generation }]);
            }
        }
        same_32(&self.genesis, &plan.genesis) && scope && self.membership_epoch == 1 && one
            && self.outgoing_voters.len() == 0 && self.learners.len() == 0
    }
}

/// A node's authority, as the root granted it.
#[derive(Debug, Clone, Copy, PartialEq, Eq)]
pub struct NodeGrant {
    pub node: u64,
    pub generation: u64,
    pub eligible: bool,
    pub identity: [u8; 32],
    pub principal: [u8; 16],
    pub expires_at: i64,
}

/// The root's authority.
#[derive(Debug, Clone, PartialEq, Eq)]
pub struct Authority {
    pub revision: u64,
    pub applied_index: u64,
    pub clock: i64,
    pub nodes: Vec<NodeGrant>,
    pub groups: Vec<GroupGrant>,
}

/// Whether the `i`th grant is the node's.
pub open spec fn node_at(nodes: Seq<NodeGrant>, node: u64, i: int) -> bool {
    0 <= i < nodes.len() && nodes[i].node == node
}

/// Whether the `i`th grant is the group's.
pub open spec fn group_at(groups: Seq<GroupGrant>, group: [u8; 16], i: int) -> bool {
    0 <= i < groups.len() && groups[i].group == group
}

impl Authority {
    /// No node and no group is granted twice.
    pub open spec fn wf(self) -> bool {
        (forall|i: int, j: int|
            0 <= i < j < self.nodes@.len() ==> #[trigger] self.nodes@[i].node
                != #[trigger] self.nodes@[j].node) && (forall|i: int, j: int|
            0 <= i < j < self.groups@.len() ==> #[trigger] self.groups@[i].group
                != #[trigger] self.groups@[j].group)
    }

    /// A node's grant.
    pub open spec fn node_of(self, node: u64) -> Option<NodeGrant> {
        if exists|i: int| node_at(self.nodes@, node, i) {
            Some(self.nodes@[choose|i: int| node_at(self.nodes@, node, i)])
        } else {
            None
        }
    }

    /// A group's grant.
    pub open spec fn group_of(self, group: [u8; 16]) -> Option<GroupGrant> {
        if exists|i: int| group_at(self.groups@, group, i) {
            Some(self.groups@[choose|i: int| group_at(self.groups@, group, i)])
        } else {
            None
        }
    }

    /// A node's grant.
    pub fn node(&self, node: u64) -> (grant: Option<&NodeGrant>)
        requires
            self.wf(),
        ensures
            match grant {
                Some(grant) => self.node_of(node) == Some(*grant) && grant.node == node,
                None => self.node_of(node) is None,
            },
    {
        let mut i: usize = 0;
        while i < self.nodes.len()
            invariant
                self.wf(),
                i <= self.nodes.len(),
                forall|j: int| 0 <= j < i ==> !node_at(self.nodes@, node, j),
            decreases self.nodes.len() - i,
        {
            if self.nodes[i].node == node {
                assert(node_at(self.nodes@, node, i as int));
                return Some(&self.nodes[i]);
            }
            i += 1;
        }
        None
    }

    /// A group's grant.
    pub fn group(&self, group: &[u8; 16]) -> (grant: Option<&GroupGrant>)
        requires
            self.wf(),
        ensures
            match grant {
                Some(grant) => self.group_of(*group) == Some(*grant) && grant.group == *group,
                None => self.group_of(*group) is None,
            },
    {
        let mut i: usize = 0;
        while i < self.groups.len()
            invariant
                self.wf(),
                i <= self.groups.len(),
                forall|j: int| 0 <= j < i ==> !group_at(self.groups@, *group, j),
            decreases self.groups.len() - i,
        {
            if same_16(&self.groups[i].group, group) {
                assert(group_at(self.groups@, *group, i as int));
                return Some(&self.groups[i]);
            }
            i += 1;
        }
        None
    }
}

/// An enrolled identity. `authorized` is what its certificate proves now:
/// whether it is a node's, and which; nothing where it proves nothing.
#[derive(Debug, Clone, Copy, PartialEq, Eq)]
pub struct EnrollmentReceipt {
    pub node: Option<u64>,
    pub principal: [u8; 16],
    pub public_key: [u8; 32],
    pub expires_at: i64,
    pub authorized: Option<Authorized>,
}

/// What a certificate proves.
#[derive(Debug, Clone, Copy, PartialEq, Eq, Structural)]
pub struct Authorized {
    pub as_node: bool,
    pub node: Option<u64>,
}

/// The cluster's enrollment.
#[derive(Debug, Clone, PartialEq, Eq)]
pub struct Enrollment {
    pub revision: u64,
    pub applied_index: u64,
    pub receipts: Vec<EnrollmentReceipt>,
}

impl Enrollment {
    /// Whether a receipt is the granted node's: its id, its principal, its
    /// key.
    pub open spec fn enrolls(receipt: EnrollmentReceipt, grant: NodeGrant) -> bool {
        receipt.node == Some(grant.node) && receipt.principal == grant.principal
            && receipt.public_key == grant.identity
    }

    /// The first receipt from `i` on that is the granted node's.
    pub open spec fn first(self, grant: NodeGrant, i: int) -> Option<EnrollmentReceipt>
        decreases self.receipts@.len() - i,
    {
        if i < 0 || i >= self.receipts@.len() {
            None
        } else if Self::enrolls(self.receipts@[i], grant) {
            Some(self.receipts@[i])
        } else {
            self.first(grant, i + 1)
        }
    }

    /// The granted node's receipt.
    pub fn find(&self, grant: &NodeGrant) -> (receipt: Option<EnrollmentReceipt>)
        ensures
            receipt == self.first(*grant, 0),
    {
        let mut i: usize = 0;
        while i < self.receipts.len()
            invariant
                i <= self.receipts.len(),
                self.first(*grant, 0) == self.first(*grant, i as int),
            decreases self.receipts.len() - i,
        {
            let receipt = self.receipts[i];
            let node = match receipt.node {
                Some(node) => node == grant.node,
                None => false,
            };
            if node && same_16(&receipt.principal, &grant.principal) && same_32(
                &receipt.public_key,
                &grant.identity,
            ) {
                return Some(receipt);
            }
            i += 1;
        }
        None
    }
}

/// The root's own replica, as far as a permit reads it.
#[derive(Debug, Clone, PartialEq, Eq)]
pub struct RootOwner {
    pub identity: ControlIdentity,
    pub leader: bool,
    pub status_applied: u64,
    pub status_committed: u64,
    pub applied_index: u64,
    /// The partitions the root has delegated to, where it is a root's.
    pub delegated: Option<Vec<[u8; 16]>>,
    pub authority: Option<Authority>,
    pub enrollment: Option<Enrollment>,
}

/// Whether some delegation is the partition's.
pub open spec fn delegates(delegations: Seq<[u8; 16]>, partition: [u8; 16]) -> bool {
    exists|i: int| 0 <= i < delegations.len() && #[trigger] delegations[i] == partition
}

/// Whether some delegation is the partition's.
pub fn is_delegated(delegations: &Vec<[u8; 16]>, partition: &[u8; 16]) -> (yes: bool)
    ensures
        yes == delegates(delegations@, *partition),
{
    let mut i: usize = 0;
    while i < delegations.len()
        invariant
            i <= delegations.len(),
            forall|j: int| 0 <= j < i ==> #[trigger] delegations@[j] != *partition,
        decreases delegations.len() - i,
    {
        if same_16(&delegations[i], partition) {
            assert(delegations@[i as int] == *partition);
            return true;
        }
        i += 1;
    }
    false
}

impl RootOwner {
    /// What the lists of the root's authority hold is granted once.
    pub open spec fn wf(self) -> bool {
        self.authority matches Some(authority) ==> authority.wf()
    }

    /// Whether the owner is the cluster's root, leading with all it knows
    /// applied.
    pub open spec fn leads(self, plan: PartitionPlan, root_group: [u8; 16], now: i64) -> bool {
        self.identity.scope == ControlScope::Root && self.identity.cluster == plan.cluster
            && self.identity.group == root_group && self.leader && self.status_applied
            == self.applied_index && self.status_committed == self.applied_index
            && self.applied_index != 0 && now >= 0
    }

    /// Whether the partition may be opened: it is delegated, or it is a
    /// split's destination, which the root authorizes before it commits the
    /// split.
    pub open spec fn opens(self, plan: PartitionPlan) -> bool {
        self.delegated matches Some(delegations) && (delegates(delegations@, plan.partition)
            || plan.image is Some)
    }

    /// When the plan's authority expires, where the root's committed state
    /// authorizes it now.
    pub open spec fn authorizes(self, plan: PartitionPlan, root_group: [u8; 16], now: i64) -> Result<
        i64,
        DirectoryBootstrapError,
    > {
        if !self.leads(plan, root_group, now) || !self.opens(plan) {
            Err(DirectoryBootstrapError::Unauthorized)
        } else {
            match (self.authority, self.enrollment) {
                (Some(authority), Some(enrollment)) => match (
                    authority.node_of(plan.founder_node),
                    authority.group_of(plan.group),
                ) {
                    (Some(node), Some(group)) => if authority.clock > now || authority.applied_index
                        > self.applied_index || authority.revision == 0 || enrollment.applied_index
                        > self.applied_index {
                        Err(DirectoryBootstrapError::Unauthorized)
                    } else if unset(plan.genesis) {
                        Err(DirectoryBootstrapError::Inconsistent)
                    } else if !group.founds(plan, node.generation) || !node.eligible
                        || group.expires_at <= now || node.expires_at < group.expires_at {
                        Err(DirectoryBootstrapError::Unauthorized)
                    } else {
                        match enrollment.first(node, 0) {
                            Some(receipt) => if receipt.authorized == Some(
                                Authorized { as_node: true, node: Some(plan.founder_node) },
                            ) && receipt.expires_at >= group.expires_at {
                                Ok(group.expires_at)
                            } else {
                                Err(DirectoryBootstrapError::Unauthorized)
                            },
                            None => Err(DirectoryBootstrapError::Unauthorized),
                        }
                    },
                    _ => Err(DirectoryBootstrapError::Unauthorized),
                },
                _ => Err(DirectoryBootstrapError::Unauthorized),
            }
        }
    }

    fn authorized(&self, plan: &PartitionPlan, root_group: &[u8; 16], now: i64) -> (expires: Result<
        i64,
        DirectoryBootstrapError,
    >)
        requires
            self.wf(),
        ensures
            expires == self.authorizes(*plan, *root_group, now),
    {
        let root = match &self.identity.scope {
            ControlScope::Root => true,
            _ => false,
        };
        if !root || !same_16(&self.identity.cluster, &plan.cluster) || !same_16(
            &self.identity.group,
            root_group,
        ) || !self.leader || self.status_applied != self.applied_index || self.status_committed
            != self.applied_index || self.applied_index == 0 || now < 0 {
            return Err(DirectoryBootstrapError::Unauthorized);
        }
        let opens = match &self.delegated {
            Some(delegations) => is_delegated(delegations, &plan.partition) || plan.image.is_some(),
            None => false,
        };
        if !opens {
            return Err(DirectoryBootstrapError::Unauthorized);
        }
        let authority = match &self.authority {
            Some(authority) => authority,
            None => return Err(DirectoryBootstrapError::Unauthorized),
        };
        let enrollment = match &self.enrollment {
            Some(enrollment) => enrollment,
            None => return Err(DirectoryBootstrapError::Unauthorized),
        };
        let node = match authority.node(plan.founder_node) {
            Some(node) => node,
            None => return Err(DirectoryBootstrapError::Unauthorized),
        };
        let group = match authority.group(&plan.group) {
            Some(group) => group,
            None => return Err(DirectoryBootstrapError::Unauthorized),
        };
        if authority.clock > now || authority.applied_index > self.applied_index
            || authority.revision == 0 || enrollment.applied_index > self.applied_index {
            return Err(DirectoryBootstrapError::Unauthorized);
        }
        match plan.identity() {
            Ok(_) => {},
            Err(error) => return Err(error),
        }
        if !group.is_founding(plan, node.generation) || !node.eligible || group.expires_at <= now
            || node.expires_at < group.expires_at {
            return Err(DirectoryBootstrapError::Unauthorized);
        }
        match enrollment.find(node) {
            Some(receipt) => {
                let proved = match receipt.authorized {
                    Some(authorized) => authorized.as_node && (match authorized.node {
                        Some(node) => node == plan.founder_node,
                        None => false,
                    }),
                    None => false,
                };
                if proved && receipt.expires_at >= group.expires_at {
                    Ok(group.expires_at)
                } else {
                    Err(DirectoryBootstrapError::Unauthorized)
                }
            },
            None => Err(DirectoryBootstrapError::Unauthorized),
        }
    }
}

/// Whether a snapshot is the root's own, as of what it has applied.
pub open spec fn exported(snapshot: AuthoritySnapshot, owner: RootOwner, now: i64) -> bool {
    snapshot.identity == owner.identity && snapshot.source == owner.identity
        && snapshot.source_index == owner.applied_index && snapshot.applied_index
        == owner.applied_index && snapshot.decided_at <= now
}

/// Mint a permit in the root's owner, immediately after a fresh barrier: what
/// one already published prefix authorizes. `snapshot` is the authority the
/// owner exports and `encoded` the bytes it takes.
pub fn authorize_first_directory(
    owner: &RootOwner,
    plan: PartitionPlan,
    root_group: &[u8; 16],
    now: i64,
    snapshot: Result<Option<AuthoritySnapshot>, ControlError>,
    encoded: Option<usize>,
) -> (permit: Result<PartitionBootstrapPermit, DirectoryBootstrapError>)
    requires
        owner.wf(),
    ensures
        match owner.authorizes(plan, *root_group, now) {
            Err(error) => permit == Err::<PartitionBootstrapPermit, DirectoryBootstrapError>(error),
            Ok(expires_at) => match snapshot {
                Err(error) => permit == Err::<PartitionBootstrapPermit, DirectoryBootstrapError>(
                    DirectoryBootstrapError::Control(error),
                ),
                Ok(None) => permit == Err::<PartitionBootstrapPermit, DirectoryBootstrapError>(
                    DirectoryBootstrapError::Unauthorized,
                ),
                Ok(Some(snapshot)) => if !(encoded matches Some(bytes) && bytes + 4096
                    <= MAX_ACTIVATION_BYTES) {
                    permit == Err::<PartitionBootstrapPermit, DirectoryBootstrapError>(
                        DirectoryBootstrapError::Capacity,
                    )
                } else if !exported(snapshot, *owner, now) {
                    permit == Err::<PartitionBootstrapPermit, DirectoryBootstrapError>(
                        DirectoryBootstrapError::Inconsistent,
                    )
                } else {
                    permit == Ok::<PartitionBootstrapPermit, DirectoryBootstrapError>(
                        PartitionBootstrapPermit { plan, snapshot, prepared_at: now, expires_at },
                    )
                },
            },
        },
{
    let expires_at: i64 = match owner.authorized(&plan, root_group, now) {
        Ok(expires_at) => expires_at,
        Err(error) => return Err(error),
    };
    let snapshot = match snapshot {
        Err(error) => return Err(DirectoryBootstrapError::Control(error)),
        Ok(None) => return Err(DirectoryBootstrapError::Unauthorized),
        Ok(Some(snapshot)) => snapshot,
    };
    let fits = match encoded {
        Some(bytes) => match bytes.checked_add(4096) {
            Some(bytes) => bytes <= MAX_ACTIVATION_BYTES,
            None => false,
        },
        None => false,
    };
    if !fits {
        return Err(DirectoryBootstrapError::Capacity);
    }
    if !snapshot.identity.same(&owner.identity) || !snapshot.source.same(&owner.identity)
        || snapshot.source_index != owner.applied_index || snapshot.applied_index
        != owner.applied_index || snapshot.decided_at > now {
        return Err(DirectoryBootstrapError::Inconsistent);
    }
    Ok(PartitionBootstrapPermit { plan, snapshot, prepared_at: now, expires_at })
}

/// A permit never outlives what it rests on: the group's grant, the node's
/// and the node's certificate all last at least as long, and it is valid when
/// it is minted.
pub proof fn a_permit_rests_on_live_authority(
    owner: RootOwner,
    plan: PartitionPlan,
    root_group: [u8; 16],
    now: i64,
    expires_at: i64,
)
    requires
        owner.authorizes(plan, root_group, now) == Ok::<i64, DirectoryBootstrapError>(expires_at),
    ensures
        now < expires_at,
        owner.authority matches Some(authority) && (authority.node_of(plan.founder_node) matches
            Some(node) && node.eligible && node.expires_at >= expires_at && (
        owner.enrollment matches Some(enrollment) && (enrollment.first(node, 0) matches
            Some(receipt) && receipt.expires_at >= expires_at))),
{
}

/// A revoked certificate mints no permit.
pub proof fn a_revoked_node_is_not_authorized(
    owner: RootOwner,
    plan: PartitionPlan,
    root_group: [u8; 16],
    now: i64,
    authority: Authority,
    enrollment: Enrollment,
    node: NodeGrant,
    receipt: EnrollmentReceipt,
)
    requires
        owner.authority == Some(authority),
        owner.enrollment == Some(enrollment),
        authority.node_of(plan.founder_node) == Some(node),
        enrollment.first(node, 0) == Some(receipt),
        receipt.authorized is None,
    ensures
        owner.authorizes(plan, root_group, now) is Err,
{
}

} // verus!
