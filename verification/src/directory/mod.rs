//! The bootstrap of a cluster's directory from committed root metadata. A
//! plan is descriptive; only what the root committed authorizes opening a
//! group.
pub mod authority;
pub mod host;
pub mod laws;
pub mod planner;
pub mod startup;

use crate::hashing::{blake3_derive_key, cut, derive_key, front, is_zero_16, no_hash, no_id,
    nothing_16, nothing_32, same_16, same_32, zero_16};
use crate::ids::LedgerId;
use vstd::prelude::*;
use vstd::string::StringExecFns;

verus! {

/// Why memory was refused.
#[derive(Debug, Clone, Copy, PartialEq, Eq, Structural)]
pub enum MemoryError {
    Capacity { requested: usize, available: usize },
    DiskCapacity { requested: usize, available: usize },
    AllocationFailed,
    WrongArena,
}

/// Why consensus refused.
#[derive(Debug, Clone, Copy, PartialEq, Eq, Structural)]
pub enum ConsensusError {
    Capacity,
    PersistencePending,
    LearnerBehind,
    NotLeader { leader: u64 },
    CheckpointIndex,
    DependencyFailure,
}

/// Why a control owner refused.
#[derive(Debug, Clone, Copy, PartialEq, Eq)]
pub enum ControlError {
    Capacity,
    Busy,
    NotReady,
    Failed,
    RetryExpired,
    Corrupt(&'static str),
    Memory(MemoryError),
    Consensus(ConsensusError),
}

/// Why a directory bootstrap was refused.
#[derive(Debug, Clone, Copy, PartialEq, Eq)]
pub enum DirectoryBootstrapError {
    Unauthorized,
    Capacity,
    Unavailable,
    NotReady,
    Inconsistent,
    Control(ControlError),
}

impl DirectoryBootstrapError {
    /// What the error says; `control` is what the control owner's own error
    /// says.
    pub open spec fn words(self, control: Seq<char>) -> Seq<char> {
        match self {
            DirectoryBootstrapError::Unauthorized =>
                "committed root metadata does not authorize this directory bootstrap"@,
            DirectoryBootstrapError::Capacity =>
                "directory bootstrap exceeds its bounded allowance"@,
            DirectoryBootstrapError::Unavailable => "directory bootstrap owner is unavailable"@,
            DirectoryBootstrapError::NotReady =>
                "directory bootstrap has not completed its committed activation"@,
            DirectoryBootstrapError::Inconsistent => "directory bootstrap state is inconsistent"@,
            DirectoryBootstrapError::Control(_) => "directory control: "@ + control,
        }
    }

    /// What the error says; `control` is what the control owner's own error
    /// says.
    pub fn message(&self, control: &str) -> (text: String)
        ensures
            text@ == self.words(control@),
    {
        match self {
            DirectoryBootstrapError::Unauthorized => String::from_str(
                "committed root metadata does not authorize this directory bootstrap",
            ),
            DirectoryBootstrapError::Capacity => String::from_str(
                "directory bootstrap exceeds its bounded allowance",
            ),
            DirectoryBootstrapError::Unavailable => String::from_str(
                "directory bootstrap owner is unavailable",
            ),
            DirectoryBootstrapError::NotReady => String::from_str(
                "directory bootstrap has not completed its committed activation",
            ),
            DirectoryBootstrapError::Inconsistent => String::from_str(
                "directory bootstrap state is inconsistent",
            ),
            DirectoryBootstrapError::Control(_) => {
                let mut text = String::from_str("directory control: ");
                text.append(control);
                text
            },
        }
    }
}

/// An interval of ledgers: from the first on, up to but not with the last,
/// where it has one.
#[derive(Debug, Clone, Copy, PartialEq, Eq)]
pub struct NamespaceRange {
    pub start: Option<LedgerId>,
    pub end: Option<LedgerId>,
}

fn same_ledger(a: &Option<LedgerId>, b: &Option<LedgerId>) -> (same: bool)
    ensures
        same == (*a == *b),
{
    match (a, b) {
        (Some(a), Some(b)) => a.same(b),
        (None, None) => true,
        _ => false,
    }
}

impl NamespaceRange {
    /// Every ledger.
    pub fn all() -> (range: Self)
        ensures
            range == (NamespaceRange { start: None, end: None }),
    {
        NamespaceRange { start: None, end: None }
    }

    /// Whether two intervals are the same.
    pub fn same(&self, other: &Self) -> (same: bool)
        ensures
            same == (*self == *other),
    {
        same_ledger(&self.start, &other.start) && same_ledger(&self.end, &other.end)
    }
}

/// What the root delegates to a partition. `activation` is the fence a
/// split's destination is activated under.
#[derive(Debug, Clone, Copy, PartialEq, Eq)]
pub struct Delegation {
    pub namespace: NamespaceRange,
    pub partition: [u8; 16],
    pub region: [u8; 16],
    pub log_group: [u8; 16],
    pub epoch: u64,
    pub activation: Option<[u8; 32]>,
}

/// What a sealed partition gave away, and to whom.
#[derive(Debug, Clone, Copy, PartialEq, Eq)]
pub struct Seal {
    pub destination: [u8; 16],
    pub moved: NamespaceRange,
}

/// A partition's checkpoint, as far as a bootstrap reads it. `digest` is the
/// hash of the whole, absent where it cannot be taken.
#[derive(Debug, Clone, Copy, PartialEq, Eq)]
pub struct PartitionImage {
    pub cluster: [u8; 16],
    pub delegation: Delegation,
    pub sealed: Option<Seal>,
    pub digest: Option<[u8; 32]>,
}

/// What a control group serves.
#[derive(Debug, Clone, Copy, PartialEq, Eq)]
pub enum ControlScope {
    Root,
    Partition([u8; 16]),
}

/// One control group's identity.
#[derive(Debug, Clone, Copy, PartialEq, Eq)]
pub struct ControlIdentity {
    pub cluster: [u8; 16],
    pub group: [u8; 16],
    pub scope: ControlScope,
    pub genesis: [u8; 32],
}

impl ControlIdentity {
    /// Whether two identities are the same.
    pub fn same(&self, other: &Self) -> (same: bool)
        ensures
            same == (*self == *other),
    {
        let scopes = match (&self.scope, &other.scope) {
            (ControlScope::Root, ControlScope::Root) => true,
            (ControlScope::Partition(a), ControlScope::Partition(b)) => same_16(a, b),
            _ => false,
        };
        same_16(&self.cluster, &other.cluster) && same_16(&self.group, &other.group) && scopes
            && same_32(&self.genesis, &other.genesis)
    }
}

/// The identity a domain derives from a cluster.
pub open spec fn derived(domain: Seq<char>, cluster: [u8; 16]) -> [u8; 16] {
    front(blake3_derive_key(domain, cluster@))
}

/// Derive an identity from a cluster; none is zero.
pub fn derived_id(domain: &str, cluster: &[u8; 16]) -> (id: Result<
    [u8; 16],
    DirectoryBootstrapError,
>)
    ensures
        id == (if zero_16(derived(domain@, *cluster)) {
            Err::<[u8; 16], DirectoryBootstrapError>(DirectoryBootstrapError::Inconsistent)
        } else {
            Ok::<[u8; 16], DirectoryBootstrapError>(derived(domain@, *cluster))
        }),
{
    let key = derive_key(domain, cluster.as_slice());
    let id = cut(&key);
    if is_zero_16(&id) {
        return Err(DirectoryBootstrapError::Inconsistent);
    }
    Ok(id)
}

/// The ledger directory requests of a cluster are addressed to.
pub open spec fn rpc_ledger(cluster: [u8; 16]) -> LedgerId {
    LedgerId {
        tenant: derived("focal.directory.rpc-tenant.v1"@, cluster),
        session: derived("focal.directory.rpc-session.v1"@, cluster),
    }
}

/// Whether every identity a first plan needs of a cluster can be derived.
pub open spec fn derivable(cluster: [u8; 16]) -> bool {
    !zero_16(rpc_ledger(cluster).tenant) && !zero_16(rpc_ledger(cluster).session)
}

/// The ledger directory requests of a cluster are addressed to.
pub fn rpc_namespace(cluster: &[u8; 16]) -> (ledger: Result<LedgerId, DirectoryBootstrapError>)
    ensures
        ledger == (if derivable(*cluster) {
            Ok::<LedgerId, DirectoryBootstrapError>(rpc_ledger(*cluster))
        } else {
            Err::<LedgerId, DirectoryBootstrapError>(DirectoryBootstrapError::Inconsistent)
        }),
{
    let tenant = match derived_id("focal.directory.rpc-tenant.v1", cluster) {
        Ok(id) => id,
        Err(error) => return Err(error),
    };
    match derived_id("focal.directory.rpc-session.v1", cluster) {
        Ok(session) => Ok(LedgerId { tenant, session }),
        Err(error) => Err(error),
    }
}

/// What a plan's group starts from.
#[derive(Debug, Clone, Copy, PartialEq, Eq, Structural)]
pub enum Start {
    /// An empty partition.
    Empty,
    /// The sealed image at hand.
    Image,
}

/// Stable coordinates for one partition. They neither authorize opening a
/// group nor provide a table of individual sessions.
#[derive(Debug, Clone, Copy, PartialEq, Eq)]
pub struct PartitionPlan {
    pub cluster: [u8; 16],
    pub founder_node: u64,
    pub partition: [u8; 16],
    pub group: [u8; 16],
    pub namespace: LedgerId,
    /// The delegation the root holds, or will hold, for this partition.
    pub delegation: Delegation,
    /// The digest of the sealed image a split's destination starts from; none
    /// for the first partition, which starts empty.
    pub image: Option<[u8; 32]>,
    /// The control genesis of the first state, fixed at planning so that the
    /// identity never depends on deriving the image again; zero until then.
    pub genesis: [u8; 32],
}

/// The first partition's plan; every later partition uses the same shape.
pub type FirstDirectoryPlan = PartitionPlan;

/// Whether a genesis was not fixed yet.
pub open spec fn unset(genesis: [u8; 32]) -> bool {
    forall|i: int| 0 <= i < 32 ==> #[trigger] genesis@[i] == 0
}

fn is_unset(genesis: &[u8; 32]) -> (unset: bool)
    ensures
        unset == self::unset(*genesis),
{
    let mut i: usize = 0;
    while i < 32
        invariant
            i <= 32,
            forall|j: int| 0 <= j < i ==> #[trigger] genesis@[j] == 0,
        decreases 32 - i,
    {
        if genesis[i] != 0 {
            assert(genesis@[i as int] != 0);
            return false;
        }
        i += 1;
    }
    true
}

/// The first plan of a cluster.
pub open spec fn first_plan(cluster: [u8; 16], founder_node: u64) -> PartitionPlan {
    let partition = derived("focal.directory.first-partition.v1"@, cluster);
    let group = derived("focal.directory.first-group.v1"@, cluster);
    PartitionPlan {
        cluster,
        founder_node,
        partition,
        group,
        namespace: rpc_ledger(cluster),
        delegation: Delegation {
            namespace: NamespaceRange { start: None, end: None },
            partition,
            region: no_id(),
            log_group: group,
            epoch: 1,
            activation: None,
        },
        image: None,
        genesis: no_hash(),
    }
}

impl PartitionPlan {
    /// Plan the first partition: every ledger, on the founding node. Its
    /// genesis is fixed once the first state is known.
    pub fn derive(cluster: [u8; 16], founder_node: u64) -> (plan: Result<
        Self,
        DirectoryBootstrapError,
    >)
        ensures
            plan == (if zero_16(cluster) || founder_node == 0 {
                Err::<Self, DirectoryBootstrapError>(DirectoryBootstrapError::Unauthorized)
            } else if !derivable(cluster) || zero_16(first_plan(cluster, founder_node).partition)
                || zero_16(first_plan(cluster, founder_node).group) {
                Err::<Self, DirectoryBootstrapError>(DirectoryBootstrapError::Inconsistent)
            } else {
                Ok::<Self, DirectoryBootstrapError>(first_plan(cluster, founder_node))
            }),
    {
        if is_zero_16(&cluster) || founder_node == 0 {
            return Err(DirectoryBootstrapError::Unauthorized);
        }
        let partition = match derived_id("focal.directory.first-partition.v1", &cluster) {
            Ok(id) => id,
            Err(error) => return Err(error),
        };
        let group = match derived_id("focal.directory.first-group.v1", &cluster) {
            Ok(id) => id,
            Err(error) => return Err(error),
        };
        let namespace = match rpc_namespace(&cluster) {
            Ok(ledger) => ledger,
            Err(error) => return Err(error),
        };
        let delegation = Delegation {
            namespace: NamespaceRange::all(),
            partition,
            region: nothing_16(),
            log_group: group,
            epoch: 1,
            activation: None,
        };
        Ok(
            PartitionPlan {
                cluster,
                founder_node,
                partition,
                group,
                namespace,
                delegation,
                image: None,
                genesis: nothing_32(),
            },
        )
    }

    /// Whether an image is a split's to its destination: of this cluster,
    /// sealed for the delegated partition and interval.
    pub open spec fn sealed_for(
        cluster: [u8; 16],
        delegation: Delegation,
        image: PartitionImage,
    ) -> bool {
        delegation.activation is Some && image.cluster == cluster && image.sealed == Some(
            Seal { destination: delegation.partition, moved: delegation.namespace },
        )
    }

    /// Plan a split's destination: a fresh group on `founder_node` whose
    /// first state is the source's sealed image, under the delegation the
    /// root commits with the split, its activation fence included.
    pub fn split_destination(
        cluster: [u8; 16],
        founder_node: u64,
        delegation: Delegation,
        image: &PartitionImage,
    ) -> (plan: Result<Self, DirectoryBootstrapError>)
        ensures
            plan == (if zero_16(cluster) || founder_node == 0 || !Self::sealed_for(
                cluster,
                delegation,
                *image,
            ) {
                Err::<Self, DirectoryBootstrapError>(DirectoryBootstrapError::Unauthorized)
            } else if image.digest is None || !derivable(cluster) {
                Err::<Self, DirectoryBootstrapError>(DirectoryBootstrapError::Inconsistent)
            } else {
                Ok::<Self, DirectoryBootstrapError>(
                    PartitionPlan {
                        cluster,
                        founder_node,
                        partition: delegation.partition,
                        group: delegation.log_group,
                        namespace: rpc_ledger(cluster),
                        delegation,
                        image: image.digest,
                        genesis: no_hash(),
                    },
                )
            }),
    {
        let sealed = match &image.sealed {
            Some(seal) => same_16(&seal.destination, &delegation.partition) && seal.moved.same(
                &delegation.namespace,
            ),
            None => false,
        };
        if is_zero_16(&cluster) || founder_node == 0 || delegation.activation.is_none() || !same_16(
            &image.cluster,
            &cluster,
        ) || !sealed {
            return Err(DirectoryBootstrapError::Unauthorized);
        }
        let digest = match image.digest {
            Some(digest) => digest,
            None => return Err(DirectoryBootstrapError::Inconsistent),
        };
        let namespace = match rpc_namespace(&cluster) {
            Ok(ledger) => ledger,
            Err(error) => return Err(error),
        };
        Ok(
            PartitionPlan {
                cluster,
                founder_node,
                partition: delegation.partition,
                group: delegation.log_group,
                namespace,
                delegation,
                image: Some(digest),
                genesis: nothing_32(),
            },
        )
    }

    /// Fix the genesis of the plan's first state.
    pub fn founded(self, genesis: [u8; 32]) -> (plan: Self)
        ensures
            plan == (PartitionPlan { genesis, ..self }),
    {
        PartitionPlan { genesis, ..self }
    }

    /// The ledgers the partition is delegated.
    pub fn range(&self) -> (range: NamespaceRange)
        ensures
            range == self.delegation.namespace,
    {
        self.delegation.namespace
    }

    /// The digest of the image the partition starts from.
    pub fn image(&self) -> (image: Option<[u8; 32]>)
        ensures
            image == self.image,
    {
        self.image
    }

    /// The partition.
    pub fn partition(&self) -> (partition: [u8; 16])
        ensures
            partition == self.partition,
    {
        self.partition
    }

    /// The partition's group.
    pub fn group(&self) -> (group: [u8; 16])
        ensures
            group == self.group,
    {
        self.group
    }

    /// The ledger the partition's requests are addressed to.
    pub fn namespace(&self) -> (ledger: LedgerId)
        ensures
            ledger == self.namespace,
    {
        self.namespace
    }

    /// The cluster.
    pub fn cluster(&self) -> (cluster: [u8; 16])
        ensures
            cluster == self.cluster,
    {
        self.cluster
    }

    /// The node the partition is founded on.
    pub fn founder_node(&self) -> (node: u64)
        ensures
            node == self.founder_node,
    {
        self.founder_node
    }

    /// The delegation.
    pub fn delegation(&self) -> (delegation: Delegation)
        ensures
            delegation == self.delegation,
    {
        self.delegation
    }

    /// Whether a delegation is of the group this plan hosts: the partition
    /// and group must be the plan's, whatever the delegation became through
    /// splits, merges and seals since.
    pub open spec fn hosts(self, delegation: Delegation) -> bool {
        delegation.partition == self.partition && delegation.log_group == self.group
    }

    /// Whether a partition's checkpoint belongs to the group this plan hosts.
    pub fn accepts(&self, delegation: &Delegation) -> (accepted: bool)
        ensures
            accepted == self.hosts(*delegation),
    {
        same_16(&delegation.partition, &self.partition) && same_16(
            &delegation.log_group,
            &self.group,
        )
    }

    /// Decide what the plan's group starts from: nothing for the first
    /// partition, the very image planned for a split's destination.
    pub fn bootstrap(&self, image: &Option<PartitionImage>) -> (start: Result<
        Start,
        DirectoryBootstrapError,
    >)
        ensures
            start == (match (self.image, *image) {
                (None, None) => Ok::<Start, DirectoryBootstrapError>(Start::Empty),
                (Some(expected), Some(image)) => match image.digest {
                    None => Err::<Start, DirectoryBootstrapError>(
                        DirectoryBootstrapError::Inconsistent,
                    ),
                    Some(digest) => if digest == expected && self.hosts(image.delegation) {
                        Ok::<Start, DirectoryBootstrapError>(Start::Image)
                    } else {
                        Err::<Start, DirectoryBootstrapError>(
                            DirectoryBootstrapError::Unauthorized,
                        )
                    },
                },
                _ => Err::<Start, DirectoryBootstrapError>(DirectoryBootstrapError::Unauthorized),
            }),
    {
        match (&self.image, image) {
            (None, None) => Ok(Start::Empty),
            (Some(expected), Some(image)) => match &image.digest {
                None => Err(DirectoryBootstrapError::Inconsistent),
                Some(digest) => if same_32(digest, expected) && self.accepts(&image.delegation) {
                    Ok(Start::Image)
                } else {
                    Err(DirectoryBootstrapError::Unauthorized)
                },
            },
            _ => Err(DirectoryBootstrapError::Unauthorized),
        }
    }

    /// The plan's control identity.
    pub open spec fn named(self) -> ControlIdentity {
        ControlIdentity {
            cluster: self.cluster,
            group: self.group,
            scope: ControlScope::Partition(self.partition),
            genesis: self.genesis,
        }
    }

    /// The plan's control identity, once its genesis is fixed.
    pub fn identity(&self) -> (identity: Result<ControlIdentity, DirectoryBootstrapError>)
        ensures
            identity == (if unset(self.genesis) {
                Err::<ControlIdentity, DirectoryBootstrapError>(
                    DirectoryBootstrapError::Inconsistent,
                )
            } else {
                Ok::<ControlIdentity, DirectoryBootstrapError>(self.named())
            }),
    {
        if is_unset(&self.genesis) {
            return Err(DirectoryBootstrapError::Inconsistent);
        }
        Ok(
            ControlIdentity {
                cluster: self.cluster,
                group: self.group,
                scope: ControlScope::Partition(self.partition),
                genesis: self.genesis,
            },
        )
    }

    /// The client authority is installed as.
    pub open spec fn installer(self) -> [u8; 16] {
        derived("focal.directory.authority-install-client.v1"@, self.cluster)
    }

    /// The client authority is installed as.
    pub fn client(&self) -> (client: Result<[u8; 16], DirectoryBootstrapError>)
        ensures
            client == (if zero_16(self.installer()) {
                Err::<[u8; 16], DirectoryBootstrapError>(DirectoryBootstrapError::Inconsistent)
            } else {
                Ok::<[u8; 16], DirectoryBootstrapError>(self.installer())
            }),
    {
        derived_id("focal.directory.authority-install-client.v1", &self.cluster)
    }
}

/// A first plan names the same partition, group and ledger on whichever node
/// it is made: they are of the cluster alone.
pub proof fn a_first_plan_is_of_its_cluster(cluster: [u8; 16], a: u64, b: u64)
    ensures
        first_plan(cluster, a).partition == first_plan(cluster, b).partition,
        first_plan(cluster, a).group == first_plan(cluster, b).group,
        first_plan(cluster, a).namespace == first_plan(cluster, b).namespace,
        first_plan(cluster, a).delegation == first_plan(cluster, b).delegation,
{
}

} // verus!
