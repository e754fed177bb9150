//! The next small intent that brings a planned partition about, from one
//! observation of the root.
use super::authority::{delegates, is_delegated, Authority, Enrollment, GroupGrant,
    GroupScope, NodeGrant, Voter, MAX_ACTIVATION_BYTES};
use super::{unset, ControlIdentity, ControlScope, Delegation, DirectoryBootstrapError,
    PartitionPlan};
use crate::hashing::{same_16, same_32};
use vstd::prelude::*;

verus! {

/// What the root's authority is anchored to.
#[derive(Debug, Clone, Copy, PartialEq, Eq)]
pub struct Anchor {
    pub cluster: [u8; 16],
    pub metadata_group: [u8; 16],
    pub genesis: [u8; 32],
}

/// The root's directory.
#[derive(Debug, Clone, PartialEq, Eq)]
pub struct RootDirectory {
    pub revision: u64,
    /// The partitions delegated to.
    pub delegations: Vec<[u8; 16]>,
}

/// One observation of the root: its directory, where it is a root's, the
/// size of its encoded enrollment, and its authority.
#[derive(Debug, Clone, PartialEq, Eq)]
pub struct RootObservation {
    pub identity: ControlIdentity,
    pub applied_index: u64,
    pub directory: Option<RootDirectory>,
    pub enrollment_bytes: usize,
    pub authority: Option<Authority>,
    pub anchor: Anchor,
}

/// What the root is asked to commit next.
#[derive(Debug, Clone, PartialEq, Eq)]
pub enum Intent {
    /// Delegate the partition.
    Delegate {
        expected_revision: u64,
        delegation: Delegation,
        authority_revision: u64,
        enrollment_revision: u64,
        decided_at: i64,
    },
    /// Grant the partition's group its authority.
    BootstrapGroup {
        expected_revision: u64,
        enrollment_revision: u64,
        decided_at: i64,
        grant: GroupGrant,
    },
}

/// The bytes the decoding of an enrollment is charged.
pub open spec fn decode_total(bytes: usize) -> int {
    bytes * 64 + 64 * 1024
}

/// The bytes the decoding of an enrollment is charged.
pub fn decode_charge(bytes: usize) -> (charge: Result<usize, DirectoryBootstrapError>)
    ensures
        charge == (if decode_total(bytes) <= usize::MAX {
            Ok::<usize, DirectoryBootstrapError>(decode_total(bytes) as usize)
        } else {
            Err::<usize, DirectoryBootstrapError>(DirectoryBootstrapError::Capacity)
        }),
{
    match bytes.checked_mul(64) {
        Some(charge) => match charge.checked_add(64 * 1024) {
            Some(charge) => Ok(charge),
            None => Err(DirectoryBootstrapError::Capacity),
        },
        None => Err(DirectoryBootstrapError::Capacity),
    }
}

impl RootObservation {
    /// What the lists of the root's authority hold is granted once.
    pub open spec fn wf(self) -> bool {
        self.authority matches Some(authority) ==> authority.wf()
    }

    /// Whether the observation is of the cluster's root.
    pub open spec fn of_root(self, plan: PartitionPlan, root_group: [u8; 16], now: i64) -> bool {
        self.identity.scope == ControlScope::Root && self.identity.cluster == plan.cluster
            && self.identity.group == root_group && self.applied_index != 0 && now >= 0
            && self.directory is Some
    }

    /// Whether an authority is the root's own and current.
    pub open spec fn anchored(self, authority: Authority, now: i64) -> bool {
        authority.revision != 0 && authority.applied_index <= self.applied_index && authority.clock
            <= now && self.anchor.cluster == self.identity.cluster && self.anchor.metadata_group
            == self.identity.group && self.anchor.genesis == self.identity.genesis
            && self.enrollment_bytes <= MAX_ACTIVATION_BYTES
    }

    /// Whether the observation can be planned on: why not, in order.
    pub open spec fn readable(self, plan: PartitionPlan, root_group: [u8; 16], now: i64) -> Result<
        Authority,
        DirectoryBootstrapError,
    > {
        if !self.of_root(plan, root_group, now) {
            Err(DirectoryBootstrapError::Unauthorized)
        } else {
            match self.authority {
                None => Err(DirectoryBootstrapError::NotReady),
                Some(authority) => if self.anchored(authority, now) {
                    Ok(authority)
                } else {
                    Err(DirectoryBootstrapError::Unauthorized)
                },
            }
        }
    }

    /// Check that the observation can be planned on, and say what decoding
    /// its enrollment is charged.
    pub fn admission(&self, plan: &PartitionPlan, root_group: &[u8; 16], now: i64) -> (charge:
        Result<usize, DirectoryBootstrapError>)
        ensures
            charge == (match self.readable(*plan, *root_group, now) {
                Err(error) => Err::<usize, DirectoryBootstrapError>(error),
                Ok(_) => if decode_total(self.enrollment_bytes) <= usize::MAX {
                    Ok::<usize, DirectoryBootstrapError>(
                        decode_total(self.enrollment_bytes) as usize,
                    )
                } else {
                    Err::<usize, DirectoryBootstrapError>(DirectoryBootstrapError::Capacity)
                },
            }),
    {
        let root = match &self.identity.scope {
            ControlScope::Root => true,
            _ => false,
        };
        if !root || !same_16(&self.identity.cluster, &plan.cluster) || !same_16(
            &self.identity.group,
            root_group,
        ) || self.applied_index == 0 || now < 0 || self.directory.is_none() {
            return Err(DirectoryBootstrapError::Unauthorized);
        }
        let authority = match &self.authority {
            Some(authority) => authority,
            None => return Err(DirectoryBootstrapError::NotReady),
        };
        if authority.revision == 0 || authority.applied_index > self.applied_index
            || authority.clock > now || !same_16(&self.anchor.cluster, &self.identity.cluster)
            || !same_16(&self.anchor.metadata_group, &self.identity.group) || !same_32(
            &self.anchor.genesis,
            &self.identity.genesis,
        ) || self.enrollment_bytes > MAX_ACTIVATION_BYTES {
            return Err(DirectoryBootstrapError::Unauthorized);
        }
        decode_charge(self.enrollment_bytes)
    }
}

/// The founding node's grant, where its enrollment proves it now.
pub open spec fn founding_node(
    authority: Authority,
    enrollment: Enrollment,
    node: u64,
    applied_index: u64,
    now: i64,
) -> Result<NodeGrant, DirectoryBootstrapError> {
    if enrollment.applied_index > applied_index {
        Err(DirectoryBootstrapError::Inconsistent)
    } else {
        match authority.node_of(node) {
            None => Err(DirectoryBootstrapError::NotReady),
            Some(grant) => if !grant.eligible || grant.expires_at <= now {
                Err(DirectoryBootstrapError::Unauthorized)
            } else {
                match enrollment.first(grant, 0) {
                    Some(receipt) => if (receipt.authorized matches Some(proved) && proved.as_node)
                        && grant.expires_at <= receipt.expires_at {
                        Ok(grant)
                    } else {
                        Err(DirectoryBootstrapError::Unauthorized)
                    },
                    None => Err(DirectoryBootstrapError::Unauthorized),
                }
            },
        }
    }
}

/// Whether a group's grant is the plan's, live, and within the node's.
pub open spec fn granted(grant: GroupGrant, plan: PartitionPlan, node: NodeGrant, now: i64) -> bool {
    grant.founds(plan, node.generation) && now < grant.expires_at <= node.expires_at
}

/// Whether an intent grants the plan's group exactly what it needs.
pub open spec fn grants(intent: Intent, plan: PartitionPlan, node: NodeGrant) -> bool {
    intent matches Intent::BootstrapGroup { grant, .. } && grant.group == plan.group
        && grant.founds(plan, node.generation) && grant.expires_at == node.expires_at
}

/// Whether a next intent is right for a root whose directory is `directory`:
/// first the delegation, where the partition has none and does not come by a
/// split; then the group's authority; then nothing.
pub open spec fn planned(
    next: Result<Option<Intent>, DirectoryBootstrapError>,
    plan: PartitionPlan,
    directory: RootDirectory,
    authority: Authority,
    enrollment: Enrollment,
    node: NodeGrant,
    now: i64,
) -> bool {
    if !delegates(directory.delegations@, plan.partition) && plan.image is None {
        if directory.delegations@.len() > 0 {
            next == Err::<Option<Intent>, DirectoryBootstrapError>(
                DirectoryBootstrapError::Unauthorized,
            )
        } else {
            next == Ok::<Option<Intent>, DirectoryBootstrapError>(
                Some(
                    Intent::Delegate {
                        expected_revision: directory.revision,
                        delegation: plan.delegation,
                        authority_revision: authority.revision,
                        enrollment_revision: enrollment.revision,
                        decided_at: now,
                    },
                ),
            )
        }
    } else if unset(plan.genesis) {
        next == Err::<Option<Intent>, DirectoryBootstrapError>(
            DirectoryBootstrapError::Inconsistent,
        )
    } else {
        match authority.group_of(plan.group) {
            Some(existing) => next == (if granted(existing, plan, node, now) {
                Ok::<Option<Intent>, DirectoryBootstrapError>(None)
            } else {
                Err::<Option<Intent>, DirectoryBootstrapError>(
                    DirectoryBootstrapError::Unauthorized,
                )
            }),
            None => next matches Ok(Some(intent)) && grants(intent, plan, node) && (intent matches
                Intent::BootstrapGroup { expected_revision, enrollment_revision, decided_at, .. }
                && expected_revision == authority.revision && enrollment_revision
                == enrollment.revision && decided_at == now),
        }
    }
}

/// Whether the next intent follows from an observation, the allowance to
/// decode its enrollment and what the decoding came to.
pub open spec fn follows(
    next: Result<Option<Intent>, DirectoryBootstrapError>,
    plan: PartitionPlan,
    observation: RootObservation,
    root_group: [u8; 16],
    now: i64,
    reserved: bool,
    enrollment: Option<Enrollment>,
) -> bool {
    match observation.readable(plan, root_group, now) {
        Err(error) => next == Err::<Option<Intent>, DirectoryBootstrapError>(error),
        Ok(authority) => if decode_total(observation.enrollment_bytes) > usize::MAX || !reserved {
            next == Err::<Option<Intent>, DirectoryBootstrapError>(
                DirectoryBootstrapError::Capacity,
            )
        } else {
            match enrollment {
                None => next == Err::<Option<Intent>, DirectoryBootstrapError>(
                    DirectoryBootstrapError::Inconsistent,
                ),
                Some(enrollment) => match founding_node(
                    authority,
                    enrollment,
                    plan.founder_node,
                    observation.applied_index,
                    now,
                ) {
                    Err(error) => next == Err::<Option<Intent>, DirectoryBootstrapError>(error),
                    Ok(node) => observation.directory matches Some(directory) && planned(
                        next,
                        plan,
                        directory,
                        authority,
                        enrollment,
                        node,
                        now,
                    ),
                },
            }
        },
    }
}

/// Compute the next small intent from the control owner's observation.
/// `reserved` says whether the decoding of its enrollment was paid for, and
/// `enrollment` is what it came to.
pub fn next_first_directory_command(
    plan: &PartitionPlan,
    observation: &RootObservation,
    root_group: &[u8; 16],
    now: i64,
    reserved: bool,
    enrollment: &Option<Enrollment>,
) -> (next: Result<Option<Intent>, DirectoryBootstrapError>)
    requires
        observation.wf(),
    ensures
        follows(next, *plan, *observation, *root_group, now, reserved, *enrollment),
{
    match observation.admission(plan, root_group, now) {
        Ok(_) => {},
        Err(error) => return Err(error),
    }
    let (authority, directory) = match (&observation.authority, &observation.directory) {
        (Some(authority), Some(directory)) => (authority, directory),
        _ => return Err(DirectoryBootstrapError::NotReady),
    };
    if !reserved {
        return Err(DirectoryBootstrapError::Capacity);
    }
    let enrollment = match enrollment {
        Some(enrollment) => enrollment,
        None => return Err(DirectoryBootstrapError::Inconsistent),
    };
    if enrollment.applied_index > observation.applied_index {
        return Err(DirectoryBootstrapError::Inconsistent);
    }
    let node = match authority.node(plan.founder_node) {
        Some(node) => node,
        None => return Err(DirectoryBootstrapError::NotReady),
    };
    if !node.eligible || node.expires_at <= now {
        return Err(DirectoryBootstrapError::Unauthorized);
    }
    let receipt = match enrollment.find(node) {
        Some(receipt) => receipt,
        None => return Err(DirectoryBootstrapError::Unauthorized),
    };
    let proved = match receipt.authorized {
        Some(proved) => proved.as_node,
        None => false,
    };
    if !proved || node.expires_at > receipt.expires_at {
        return Err(DirectoryBootstrapError::Unauthorized);
    }
    if !is_delegated(&directory.delegations, &plan.partition) && plan.image.is_none() {
        if directory.delegations.len() > 0 {
            return Err(DirectoryBootstrapError::Unauthorized);
        }
        return Ok(
            Some(
                Intent::Delegate {
                    expected_revision: directory.revision,
                    delegation: plan.delegation,
                    authority_revision: authority.revision,
                    enrollment_revision: enrollment.revision,
                    decided_at: now,
                },
            ),
        );
    }
    match plan.identity() {
        Ok(_) => {},
        Err(error) => return Err(error),
    }
    match authority.group(&plan.group) {
        Some(existing) => if existing.is_founding(plan, node.generation) && existing.expires_at
            > now && existing.expires_at <= node.expires_at {
            Ok(None)
        } else {
            Err(DirectoryBootstrapError::Unauthorized)
        },
        None => {
            let mut voters: Vec<Voter> = Vec::new();
            voters.push(Voter { node: plan.founder_node, generation: node.generation });
            assert(voters@ =~= seq![
                Voter { node: plan.founder_node, generation: node.generation },
            ]);
            Ok(
                Some(
                    Intent::BootstrapGroup {
                        expected_revision: authority.revision,
                        enrollment_revision: enrollment.revision,
                        decided_at: now,
                        grant: GroupGrant {
                            group: plan.group,
                            genesis: plan.genesis,
                            scope: GroupScope::Partition {
                                partition: plan.partition,
                                namespace: plan.delegation.namespace,
                            },
                            membership_epoch: 1,
                            voters,
                            outgoing_voters: Vec::new(),
                            learners: Vec::new(),
                            expires_at: node.expires_at,
                        },
                    },
                ),
            )
        },
    }
}

/// The planner comes to an end: once the root has delegated the partition
/// and committed the grant it asked for, nothing more is asked.
pub proof fn a_committed_grant_ends_the_plan(
    plan: PartitionPlan,
    directory: RootDirectory,
    authority: Authority,
    enrollment: Enrollment,
    node: NodeGrant,
    intent: Intent,
    grant: GroupGrant,
    now: i64,
)
    requires
        intent matches Intent::BootstrapGroup { grant: asked, .. } && asked == grant,
        grants(intent, plan, node),
        authority.group_of(plan.group) == Some(grant),
        delegates(directory.delegations@, plan.partition) || plan.image is Some,
        !unset(plan.genesis),
        now < node.expires_at,
    ensures
        planned(Ok(None), plan, directory, authority, enrollment, node, now),
{
}

} // verus!
