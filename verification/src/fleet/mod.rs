//! Replicated session owners. Ingress, replication and disk apply use separate
//! bounded queues; client success waits for quorum commit and graph
//! publication. The directory supplies the already authorized session and
//! route epoch.
pub mod accept;
pub mod admission;
pub mod diagnostics;
pub mod export;
pub mod group;
pub mod host;
pub mod management;
pub mod membership;
pub mod owner;
pub mod progress;
pub mod request;
pub mod resolve;
pub mod rounds;
pub mod support;
pub mod upkeep;
pub mod waiting;

use crate::access::AccessError;
use crate::directory::ConsensusError;
use crate::hashing::{is_zero_16, same_16, zero_16};
use crate::operation::{Lane, Operation, RequestStreamCommand};
use vstd::prelude::*;

verus! {

/// Why a managed request was refused.
#[derive(Debug, Clone, Copy, PartialEq, Eq, Structural)]
pub enum ManagedError {
    Unsupported,
    InvalidIdentity,
    NotRegistered,
    Conflict,
    Closed,
    Retired,
    Capacity,
}

/// Why a session's ledger refused.
#[derive(Debug, Clone, Copy, PartialEq, Eq)]
pub enum LedgerError {
    Capacity,
    NotReady { leader: u64 },
    Failed,
    OutcomeUnknown,
    PlacementConflict,
    MembershipConflict,
    Corrupt,
    /// A delivery is retained and resumes at the next poll.
    Retry,
    NativeUnsupported,
    Native { retryable: bool },
    Managed(ManagedError),
    Consensus(ConsensusError),
}

/// Nanoseconds in a millisecond.
pub const MILLISECOND: u64 = 1_000_000;

/// Nanoseconds in a second.
pub const SECOND: u64 = 1_000_000_000;

/// How one replica of a session is run. Times are in nanoseconds.
#[derive(Debug, Clone, Copy, PartialEq, Eq)]
pub struct ReplicaConfig {
    pub root: [u8; 16],
    pub route_epoch: u64,
    pub policy_revision: u64,
    /// This node's enrolled generation, the identity its range facts carry.
    pub node_generation: u64,
    pub queue_items: usize,
    pub pending_clients: usize,
    pub replication_queue: usize,
    pub tick: u64,
    pub request_timeout: u64,
    /// The log is checkpointed and compacted once this many entries have
    /// applied past the last snapshot.
    pub checkpoint_after_entries: u64,
}

/// What bounds the frames of a connection.
#[derive(Debug, Clone, Copy, PartialEq, Eq, Structural)]
pub struct WireLimits {
    pub max_frame_bytes: u32,
    pub max_cost: u32,
    pub max_items: u32,
}

/// Bytes a consensus message with an installed checkpoint may take, its
/// framing included.
pub const MIN_FRAME_BYTES: u32 = 9 * 1024 * 1024 + 256;

/// Bytes of a frame between replicas.
pub const PEER_FRAME_BYTES: u32 = 10 * 1024 * 1024;

/// What the frames between replicas may cost.
pub const PEER_COST: u32 = 40 * 1024 * 1024;

/// Bytes of inline payloads copied out for sealing at most.
pub const IMPORT_PAYLOAD_BYTES: usize = 16 * 1024 * 1024;

/// Bytes a membership's call is charged beside its lists.
pub const MEMBERSHIP_BYTES: usize = 192 * 1024;

impl ReplicaConfig {
    /// How a replica is run where nothing else is said.
    pub fn new(root: [u8; 16]) -> (config: Self)
        ensures
            config == (ReplicaConfig {
                root,
                route_epoch: 1,
                policy_revision: 1,
                node_generation: 1,
                queue_items: 32,
                pending_clients: 128,
                replication_queue: 128,
                tick: (100 * MILLISECOND) as u64,
                request_timeout: (5 * SECOND) as u64,
                checkpoint_after_entries: 4096,
            }),
            !zero_16(root) ==> config.valid(),
    {
        ReplicaConfig {
            root,
            route_epoch: 1,
            policy_revision: 1,
            node_generation: 1,
            queue_items: 32,
            pending_clients: 128,
            replication_queue: 128,
            tick: 100 * MILLISECOND,
            request_timeout: 5 * SECOND,
            checkpoint_after_entries: 4096,
        }
    }

    /// Whether two configurations are the same.
    pub fn same(&self, other: &Self) -> (same: bool)
        ensures
            same == (*self == *other),
    {
        same_16(&self.root, &other.root) && self.route_epoch == other.route_epoch
            && self.policy_revision == other.policy_revision && self.node_generation
            == other.node_generation && self.queue_items == other.queue_items
            && self.pending_clients == other.pending_clients && self.replication_queue
            == other.replication_queue && self.tick == other.tick && self.request_timeout
            == other.request_timeout && self.checkpoint_after_entries
            == other.checkpoint_after_entries
    }

    /// What a replica can be run with.
    pub open spec fn valid(self) -> bool {
        !zero_16(self.root) && self.route_epoch != 0 && self.policy_revision != 0 && 1
            <= self.queue_items <= 1024 && 1 <= self.pending_clients <= 1024 && 1
            <= self.replication_queue <= 1024 && 10 * MILLISECOND <= self.tick <= SECOND && 0
            < self.request_timeout <= 60 * SECOND
    }

    /// Check what a replica is to be run with: its own bounds, those of its
    /// connections (`limits_valid` says whether they are valid in themselves),
    /// and room for a whole checkpoint in one frame.
    pub fn validate(&self, limits: &WireLimits, limits_valid: bool) -> (done: Result<
        (),
        LedgerError,
    >)
        ensures
            done == (if self.valid() && limits_valid && limits.max_frame_bytes >= MIN_FRAME_BYTES {
                Ok::<(), LedgerError>(())
            } else {
                Err::<(), LedgerError>(LedgerError::Capacity)
            }),
    {
        if is_zero_16(&self.root) || self.route_epoch == 0 || self.policy_revision == 0
            || self.queue_items < 1 || self.queue_items > 1024 || self.pending_clients < 1
            || self.pending_clients > 1024 || self.replication_queue < 1 || self.replication_queue
            > 1024 || self.tick < 10 * MILLISECOND || self.tick > SECOND || self.request_timeout
            == 0 || self.request_timeout > 60 * SECOND {
            return Err(LedgerError::Capacity);
        }
        if !limits_valid || limits.max_frame_bytes < MIN_FRAME_BYTES {
            return Err(LedgerError::Capacity);
        }
        Ok(())
    }

    /// Whether a session at a route may be served by this configuration: one
    /// that was activated is served at its own route only.
    pub fn assemble(&self, active_route: Option<u64>) -> (done: Result<(), LedgerError>)
        ensures
            done == (if active_route matches Some(route) && route != self.route_epoch {
                Err::<(), LedgerError>(LedgerError::PlacementConflict)
            } else {
                Ok::<(), LedgerError>(())
            }),
    {
        match active_route {
            Some(route) if route != self.route_epoch => Err(LedgerError::PlacementConflict),
            _ => Ok(()),
        }
    }
}

impl WireLimits {
    /// The bounds between replicas, over the standard ones: a whole
    /// consensus message fits, an installed checkpoint included.
    pub fn wire_limits(standard: &WireLimits) -> (limits: WireLimits)
        ensures
            limits == (WireLimits {
                max_frame_bytes: PEER_FRAME_BYTES,
                max_cost: PEER_COST,
                ..*standard
            }),
            limits.max_frame_bytes >= MIN_FRAME_BYTES,
    {
        WireLimits {
            max_frame_bytes: PEER_FRAME_BYTES,
            max_cost: PEER_COST,
            max_items: standard.max_items,
        }
    }

    /// The bounds towards clients: a page stays within the standard one, so
    /// that a single read cannot consume the owner's completion allowance.
    pub fn client_limits(&self, standard: &WireLimits) -> (limits: WireLimits)
        ensures
            limits == (WireLimits {
                max_frame_bytes: if self.max_frame_bytes <= standard.max_frame_bytes {
                    self.max_frame_bytes
                } else {
                    standard.max_frame_bytes
                },
                ..*self
            }),
    {
        let frame: u32 = if self.max_frame_bytes <= standard.max_frame_bytes {
            self.max_frame_bytes
        } else {
            standard.max_frame_bytes
        };
        WireLimits { max_frame_bytes: frame, max_cost: self.max_cost, max_items: self.max_items }
    }
}

/// A seeded checkpoint a replica cannot install until its host pulls the
/// chunks it lacks from a peer.
#[derive(Debug, Clone, Copy, PartialEq, Eq, Structural)]
pub struct SeedPending {
    pub index: u64,
    pub term: u64,
    pub missing: usize,
}

/// The objects a retained delivery still lacks.
#[derive(Debug, Clone, Copy, PartialEq, Eq, Structural)]
pub struct CustodyPending {
    pub missing: usize,
}

/// How far a replica is.
#[derive(Debug, Clone, Copy, PartialEq, Eq, Structural)]
pub struct ReplicaProgress {
    pub node: u64,
    pub leader: u64,
    pub term: u64,
    pub sequence: u64,
    pub dropped_replication: u64,
    pub stopped: bool,
    /// The route epoch clients are served at; a committed activation moves
    /// the session ahead of it until the host follows.
    pub route_epoch: u64,
    /// A native import that waits for its host to seal the inline payloads.
    pub import_pending: bool,
    pub seed_pending: Option<SeedPending>,
    pub custody_pending: Option<CustodyPending>,
}

/// What a session's log and applied state are at.
#[derive(Debug, Clone, Copy, PartialEq, Eq, Structural)]
pub struct SessionStatus {
    pub node: u64,
    pub leader_id: u64,
    pub term: u64,
    pub sequence: u64,
    pub import_pending: bool,
    pub seed_pending: Option<SeedPending>,
    pub custody_pending: Option<CustodyPending>,
}

impl ReplicaProgress {
    /// What a replica publishes of itself.
    pub fn publish(
        status: &SessionStatus,
        route_epoch: u64,
        dropped_replication: u64,
        stopped: bool,
    ) -> (progress: Self)
        ensures
            progress == (ReplicaProgress {
                node: status.node,
                leader: status.leader_id,
                term: status.term,
                sequence: status.sequence,
                dropped_replication,
                stopped,
                route_epoch,
                import_pending: status.import_pending,
                seed_pending: status.seed_pending,
                custody_pending: status.custody_pending,
            }),
    {
        ReplicaProgress {
            node: status.node,
            leader: status.leader_id,
            term: status.term,
            sequence: status.sequence,
            dropped_replication,
            stopped,
            route_epoch,
            import_pending: status.import_pending,
            seed_pending: status.seed_pending,
            custody_pending: status.custody_pending,
        }
    }
}

/// What came of handing work to a replica's queue.
#[derive(Debug, Clone, Copy, PartialEq, Eq, Structural)]
pub enum HostQueue {
    Sent,
    Full,
    Disconnected,
}

impl HostQueue {
    /// What it means for an operator's call.
    pub fn sent(self) -> (done: Result<(), LedgerError>)
        ensures
            done == (match self {
                HostQueue::Sent => Ok::<(), LedgerError>(()),
                HostQueue::Full => Err::<(), LedgerError>(LedgerError::Capacity),
                HostQueue::Disconnected => Err::<(), LedgerError>(LedgerError::Failed),
            }),
    {
        match self {
            HostQueue::Sent => Ok(()),
            HostQueue::Full => Err(LedgerError::Capacity),
            HostQueue::Disconnected => Err(LedgerError::Failed),
        }
    }

    /// What it means for a participant's request.
    pub fn admitted(self) -> (done: Result<(), AccessError>)
        ensures
            done == (match self {
                HostQueue::Sent => Ok::<(), AccessError>(()),
                HostQueue::Full => Err::<(), AccessError>(AccessError::Capacity),
                HostQueue::Disconnected => Err::<(), AccessError>(AccessError::Unavailable),
            }),
    {
        match self {
            HostQueue::Sent => Ok(()),
            HostQueue::Full => Err(AccessError::Capacity),
            HostQueue::Disconnected => Err(AccessError::Unavailable),
        }
    }
}

/// Whether a request completes or ends existing work. The class is of the
/// checked operation, never of a bit the client supplies: new work stays
/// ordinary.
pub open spec fn completes(operation: Operation) -> bool {
    match operation {
        Operation::RequestStreamControl { control, .. } => control != RequestStreamCommand::Open,
        Operation::ManagedSupport { .. } | Operation::Monitor => true,
        _ => operation.submits() matches Some(command) && command.charged_to() == Lane::Completion,
    }
}

/// Whether a request completes or ends existing work.
pub fn completion_request(operation: &Operation) -> (yes: bool)
    ensures
        yes == completes(*operation),
{
    match operation {
        Operation::RequestStreamControl { control, .. } => *control != RequestStreamCommand::Open,
        Operation::ManagedSupport { .. } | Operation::Monitor => true,
        _ => match operation.submitted() {
            Some(command) => command.lane() == Lane::Completion,
            None => false,
        },
    }
}

/// Whether a request only reads: an answer that was lost is then no unknown
/// outcome.
pub open spec fn only_reads(operation: Operation) -> bool {
    match operation {
        Operation::Summary
        | Operation::Monitor
        | Operation::Reconcile
        | Operation::RequestStreamRead { .. }
        | Operation::ManagedSupport { .. }
        | Operation::NativeRead { .. }
        | Operation::NativeList => true,
        _ => false,
    }
}

/// What the caller of a request learns when its answer was lost.
pub fn lost(operation: &Operation) -> (error: AccessError)
    ensures
        error == (if only_reads(*operation) {
            AccessError::Unavailable
        } else {
            AccessError::OutcomeUnknown
        }),
{
    match operation {
        Operation::Summary
        | Operation::Monitor
        | Operation::Reconcile
        | Operation::RequestStreamRead { .. }
        | Operation::ManagedSupport { .. }
        | Operation::NativeRead { .. }
        | Operation::NativeList => AccessError::Unavailable,
        _ => AccessError::OutcomeUnknown,
    }
}

/// A mutation whose answer was lost is never said to have failed.
pub proof fn a_lost_mutation_is_unknown(operation: Operation)
    requires
        operation.submits() is Some || operation is Native || operation is Managed
            || operation is RequestStreamControl || operation is OpenEpoch || operation is Stream,
    ensures
        !only_reads(operation),
{
}

/// The smaller of what is asked and what a frame holds.
pub open spec fn within_frame(asked: u32, frame: u32) -> u32 {
    if asked <= frame {
        asked
    } else {
        frame
    }
}

/// The bytes a request's answer may take, where they can be bounded. `sized`
/// is what the operation's own reader says, for those that have one.
pub open spec fn answer_bytes(operation: Operation, frame: u32, sized: Option<usize>) -> Option<
    int,
> {
    match operation {
        Operation::Monitor
        | Operation::Summary
        | Operation::Reconcile
        | Operation::Managed { .. }
        | Operation::RequestStreamControl { .. }
        | Operation::RequestStreamRead { .. } => match sized {
            Some(bytes) => Some(bytes as int),
            None => None,
        },
        Operation::ManagedSupport { .. } => Some(33792),
        Operation::Read { seed_scan: Some(bytes), .. } => Some(2 * within_frame(bytes, frame)),
        Operation::Read { seed_scan: None, .. }
        | Operation::List { .. }
        | Operation::Select { .. }
        | Operation::Traverse { .. }
        | Operation::Validators { .. }
        | Operation::NativeRead { .. }
        | Operation::NativeList => Some(frame as int),
        Operation::Native { .. } => Some(4096),
        Operation::Stream { credit } => Some(within_frame(credit, frame) as int),
        _ => Some(0),
    }
}

/// The bytes a request's answer may take.
pub fn response_bytes(operation: &Operation, frame: u32, sized: Option<usize>) -> (bytes: Option<
    usize,
>)
    ensures
        bytes == (match answer_bytes(*operation, frame, sized) {
            Some(bytes) if bytes <= usize::MAX => Some(bytes as usize),
            _ => None::<usize>,
        }),
{
    match operation {
        Operation::Monitor
        | Operation::Summary
        | Operation::Reconcile
        | Operation::Managed { .. }
        | Operation::RequestStreamControl { .. }
        | Operation::RequestStreamRead { .. } => sized,
        Operation::ManagedSupport { .. } => Some(32 * 1024 + 1024),
        Operation::Read { seed_scan: Some(bytes), .. } => {
            let bytes: u32 = if *bytes <= frame {
                *bytes
            } else {
                frame
            };
            (bytes as usize).checked_mul(2)
        },
        Operation::Read { seed_scan: None, .. }
        | Operation::List { .. }
        | Operation::Select { .. }
        | Operation::Traverse { .. }
        | Operation::Validators { .. }
        | Operation::NativeRead { .. }
        | Operation::NativeList => Some(frame as usize),
        Operation::Native { .. } => Some(4096),
        Operation::Stream { credit } => {
            if *credit <= frame {
                Some(*credit as usize)
            } else {
                Some(frame as usize)
            }
        },
        _ => Some(0),
    }
}

/// What a request of `size` bytes is charged: itself, more where it is
/// decoded and indexed, its answer, and its own bookkeeping.
pub open spec fn request_total(operation: Operation, size: usize, response: usize) -> int {
    size * (if operation is Raft {
        2int
    } else {
        32int
    }) + response * 32 + 4096
}

/// How a request is admitted: its bytes and the lane they are charged to.
#[derive(Debug, Clone, Copy, PartialEq, Eq, Structural)]
pub struct Admission {
    pub bytes: usize,
    pub lane: Lane,
}

/// The lane a request is charged to: consensus traffic and completions have
/// an allowance of their own.
pub open spec fn charged(operation: Operation) -> Lane {
    if operation is Raft || completes(operation) {
        Lane::Completion
    } else {
        Lane::Ordinary
    }
}

/// Decide what a request is charged; `size` is its encoded size, `sized` what
/// its own reader says of its answer. Nothing: it is refused for capacity.
pub fn submit(operation: &Operation, size: Option<usize>, frame: u32, sized: Option<usize>) -> (admission:
    Option<Admission>)
    ensures
        match (answer_bytes(*operation, frame, sized), size) {
            (Some(response), Some(size)) if response <= usize::MAX && request_total(
                *operation,
                size,
                response as usize,
            ) <= usize::MAX => admission == Some(
                Admission {
                    bytes: request_total(*operation, size, response as usize) as usize,
                    lane: charged(*operation),
                },
            ),
            _ => admission is None,
        },
{
    let response: usize = match response_bytes(operation, frame, sized) {
        Some(bytes) => bytes,
        None => return None,
    };
    let size: usize = match size {
        Some(size) => size,
        None => return None,
    };
    let replication = match operation {
        Operation::Raft { .. } => true,
        _ => false,
    };
    let factor: usize = if replication {
        2
    } else {
        32
    };
    let input: usize = match size.checked_mul(factor) {
        Some(bytes) => bytes,
        None => return None,
    };
    let reply: usize = match response.checked_mul(32) {
        Some(bytes) => bytes,
        None => return None,
    };
    let both: usize = match input.checked_add(reply) {
        Some(bytes) => bytes,
        None => return None,
    };
    match both.checked_add(4096) {
        Some(bytes) => {
            let lane = if replication || completion_request(operation) {
                Lane::Completion
            } else {
                Lane::Ordinary
            };
            Some(Admission { bytes, lane })
        },
        None => None,
    }
}

/// Decide what looking for a known receipt is charged.
pub fn probe_receipt(operation: &Operation, size: Option<usize>) -> (admission: Result<
    Admission,
    AccessError,
>)
    ensures
        admission == (match size {
            Some(size) if size * 32 + 4096 <= usize::MAX => Ok::<Admission, AccessError>(
                Admission {
                    bytes: (size * 32 + 4096) as usize,
                    lane: if completes(*operation) {
                        Lane::Completion
                    } else {
                        Lane::Ordinary
                    },
                },
            ),
            _ => Err::<Admission, AccessError>(AccessError::Capacity),
        }),
{
    let size: usize = match size {
        Some(size) => size,
        None => return Err(AccessError::Capacity),
    };
    let bytes: usize = match size.checked_mul(32) {
        Some(bytes) => match bytes.checked_add(4096) {
            Some(bytes) => bytes,
            None => return Err(AccessError::Capacity),
        },
        None => return Err(AccessError::Capacity),
    };
    let lane = if completion_request(operation) {
        Lane::Completion
    } else {
        Lane::Ordinary
    };
    Ok(Admission { bytes, lane })
}

/// A request never crowds out what completes existing work, and the
/// completion of existing work never waits for ordinary room.
pub proof fn completions_have_their_own_lane(operation: Operation)
    ensures
        completes(operation) ==> charged(operation) == Lane::Completion,
        operation is Submit && !completes(operation) ==> charged(operation) == Lane::Ordinary,
{
}

/// The bytes an operator's call is charged: what it carries, and a fixed
/// allowance beside.
pub fn call_charge(carried: usize, beside: usize) -> (bytes: Result<usize, LedgerError>)
    ensures
        bytes == (if carried + beside <= usize::MAX {
            Ok::<usize, LedgerError>((carried + beside) as usize)
        } else {
            Err::<usize, LedgerError>(LedgerError::Capacity)
        }),
{
    match carried.checked_add(beside) {
        Some(bytes) => Ok(bytes),
        None => Err(LedgerError::Capacity),
    }
}

/// Check the route and policy clients are to be served at.
pub fn refence(route_epoch: u64, policy_revision: u64) -> (done: Result<(), LedgerError>)
    ensures
        done == (if route_epoch == 0 || policy_revision == 0 {
            Err::<(), LedgerError>(LedgerError::PlacementConflict)
        } else {
            Ok::<(), LedgerError>(())
        }),
{
    if route_epoch == 0 || policy_revision == 0 {
        return Err(LedgerError::PlacementConflict);
    }
    Ok(())
}

} // verus!
