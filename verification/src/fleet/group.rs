//! Several independent session logs share one node worker, a bounded ingress
//! queue and tenant-fair scheduling. Session identities and commit order stay
//! independent; a stopped session does not stop unrelated healthy ones.
use super::accept::Work;
use super::{completes, completion_request, HostQueue, LedgerError, ReplicaConfig, WireLimits, MILLISECOND};
use super::MIN_FRAME_BYTES;
use crate::hashing::{is_zero_16, same_16, zero_16};
use crate::ids::{ledgers_are_ordered, LedgerId};
use crate::operation::{Lane, Operation};
use vstd::prelude::*;

verus! {

/// Pieces of work a fleet queues.
pub const QUEUED: usize = 1024;

/// Of them, those kept for completions.
pub const RESERVED: usize = 128;

/// Steps a worker takes of one kind before it looks at another.
pub const SLICE: usize = 32;

/// The stack of a fleet's worker.
pub const STACK_BYTES: usize = 2 * 1024 * 1024;

/// What kind of work the scheduler sees.
#[derive(Debug, Clone, Copy, PartialEq, Eq, Structural)]
pub enum WorkClass {
    Apply,
    Control,
    Completion,
    Query,
    Append,
}

/// The class of a piece of work; of a request and a probe by what is asked.
pub open spec fn class_of(work: Work, operation: Operation) -> WorkClass {
    match work {
        Work::Probe => if completes(operation) {
            WorkClass::Completion
        } else {
            WorkClass::Query
        },
        Work::Request => match operation {
            Operation::Raft { .. } => WorkClass::Apply,
            Operation::Read { .. }
            | Operation::Stream { .. }
            | Operation::Reconcile
            | Operation::RequestStreamRead { .. }
            | Operation::ManagedSupport { .. } => WorkClass::Query,
            _ => if completes(operation) {
                WorkClass::Completion
            } else {
                WorkClass::Append
            },
        },
        _ => WorkClass::Control,
    }
}

/// The class of a piece of work.
pub fn class(work: Work, operation: &Operation) -> (class: WorkClass)
    ensures
        class == class_of(work, *operation),
{
    match work {
        Work::Probe => if completion_request(operation) {
            WorkClass::Completion
        } else {
            WorkClass::Query
        },
        Work::Request => match operation {
            Operation::Raft { .. } => WorkClass::Apply,
            Operation::Read { .. }
            | Operation::Stream { .. }
            | Operation::Reconcile
            | Operation::RequestStreamRead { .. }
            | Operation::ManagedSupport { .. } => WorkClass::Query,
            _ => if completion_request(operation) {
                WorkClass::Completion
            } else {
                WorkClass::Append
            },
        },
        _ => WorkClass::Control,
    }
}

/// The lane a class is queued in.
pub open spec fn lane_of(class: WorkClass) -> Lane {
    match class {
        WorkClass::Apply | WorkClass::Control | WorkClass::Completion => Lane::Completion,
        _ => Lane::Ordinary,
    }
}

/// The lane a piece of work is queued in.
pub fn lane(work: Work, operation: &Operation) -> (lane: Lane)
    ensures
        lane == lane_of(class_of(work, *operation)),
{
    match class(work, operation) {
        WorkClass::Apply | WorkClass::Control | WorkClass::Completion => Lane::Completion,
        _ => Lane::Ordinary,
    }
}

/// Hand work to a worker: a session without a free slot in its lane is full,
/// whatever room the worker's own queue has.
pub fn try_send(slot: bool, queue: HostQueue) -> (sent: HostQueue)
    ensures
        sent == (if slot {
            queue
        } else {
            HostQueue::Full
        }),
{
    if slot {
        queue
    } else {
        HostQueue::Full
    }
}

/// What a tenant may queue.
#[derive(Debug, Clone, Copy, PartialEq, Eq, Structural)]
pub struct TenantQuota {
    pub weight: u32,
    pub max_items: usize,
    pub reserved_items: usize,
    pub max_bytes: usize,
    pub reserved_bytes: usize,
    pub session_items: usize,
    pub session_reserved_items: usize,
    pub session_bytes: usize,
    pub session_reserved_bytes: usize,
    pub max_sessions: usize,
}

/// What a tenant of a weight may queue, with so many sessions.
pub fn quota(weight: u32, max_sessions: usize) -> (quota: TenantQuota)
    ensures
        quota.weight == weight,
        quota.max_items == 256 && quota.reserved_items == 32,
        quota.max_bytes == 16 * 1024 * 1024 && quota.reserved_bytes == 2 * 1024 * 1024,
        quota.session_items == 128 && quota.session_reserved_items == 16,
        quota.session_bytes == 8 * 1024 * 1024 && quota.session_reserved_bytes == 1024 * 1024,
        quota.max_sessions == max_sessions,
{
    TenantQuota {
        weight,
        max_items: 256,
        reserved_items: 32,
        max_bytes: 16 * 1024 * 1024,
        reserved_bytes: 2 * 1024 * 1024,
        session_items: 128,
        session_reserved_items: 16,
        session_bytes: 8 * 1024 * 1024,
        session_reserved_bytes: 1024 * 1024,
        max_sessions,
    }
}

/// A tenant a fleet hosts. `within` says whether its budget descends from the
/// node's.
#[derive(Debug, Clone, Copy, PartialEq, Eq)]
pub struct FleetTenant {
    pub tenant: [u8; 16],
    pub weight: u32,
    pub within: bool,
}

/// A session a fleet is given. `budgeted` says whether its budget descends
/// from its tenant's.
#[derive(Debug, Clone, Copy, PartialEq, Eq)]
pub struct FleetReplica {
    pub ledger: LedgerId,
    pub node: u64,
    pub cluster: [u8; 16],
    pub budgeted: bool,
    pub active_route: Option<u64>,
    pub config: ReplicaConfig,
}

/// A session a fleet runs: its incarnation and its queue's slots, with those
/// kept for completions.
#[derive(Debug, Clone, Copy, PartialEq, Eq)]
pub struct Seat {
    pub ledger: LedgerId,
    pub incarnation: u64,
    pub slots: usize,
    pub reserved: usize,
}

/// A fleet of replicas on one worker.
#[derive(Debug, Clone, Copy, PartialEq, Eq)]
pub struct ReplicaFleet;

/// Whether one of the first `n` tenants is this one.
pub open spec fn hosted(tenants: Seq<FleetTenant>, tenant: [u8; 16], n: int) -> bool {
    exists|i: int| 0 <= i < n && #[trigger] tenants[i].tenant == tenant
}

/// Whether every tenant is one: named, within the node's budget, and once.
pub open spec fn tenants_fit(tenants: Seq<FleetTenant>) -> bool {
    forall|i: int|
        0 <= i < tenants.len() ==> !zero_16((#[trigger] tenants[i]).tenant) && tenants[i].within
            && !hosted(tenants, tenants[i].tenant, i)
}

fn is_hosted(tenants: &Vec<FleetTenant>, tenant: &[u8; 16], n: usize) -> (yes: bool)
    requires
        n <= tenants@.len(),
    ensures
        yes == hosted(tenants@, *tenant, n as int),
{
    let mut i: usize = 0;
    while i < n
        invariant
            i <= n <= tenants@.len(),
            forall|j: int| 0 <= j < i ==> #[trigger] tenants@[j].tenant != *tenant,
        decreases n - i,
    {
        if same_16(&tenants[i].tenant, tenant) {
            assert(tenants@[i as int].tenant == *tenant);
            return true;
        }
        i += 1;
    }
    false
}

/// Check the tenants of a fleet.
pub fn admit_tenants(tenants: &Vec<FleetTenant>) -> (done: Result<(), LedgerError>)
    ensures
        done == (if tenants_fit(tenants@) {
            Ok::<(), LedgerError>(())
        } else {
            Err::<(), LedgerError>(LedgerError::Capacity)
        }),
{
    let mut i: usize = 0;
    while i < tenants.len()
        invariant
            i <= tenants@.len(),
            forall|j: int|
                0 <= j < i ==> !zero_16((#[trigger] tenants@[j]).tenant) && tenants@[j].within
                    && !hosted(tenants@, tenants@[j].tenant, j),
        decreases tenants@.len() - i,
    {
        let tenant = &tenants[i];
        if is_zero_16(&tenant.tenant) || !tenant.within || is_hosted(tenants, &tenant.tenant, i) {
            assert(zero_16(tenants@[i as int].tenant) || !tenants@[i as int].within || hosted(
                tenants@,
                tenants@[i as int].tenant,
                i as int,
            ));
            return Err(LedgerError::Capacity);
        }
        i += 1;
    }
    Ok(())
}

/// Whether one of the first `n` sessions is of this ledger.
pub open spec fn seated(replicas: Seq<FleetReplica>, ledger: LedgerId, n: int) -> bool {
    exists|i: int| 0 <= i < n && #[trigger] replicas[i].ledger == ledger
}

/// Why a session is refused a seat, in a fleet of this node whose sessions
/// are all of the first one's cluster.
pub open spec fn refused(
    node: u64,
    replicas: Seq<FleetReplica>,
    i: int,
    tenants: Seq<FleetTenant>,
    limits: WireLimits,
    limits_valid: bool,
) -> Option<LedgerError> {
    let replica = replicas[i];
    if !replica.config.valid() || !limits_valid || limits.max_frame_bytes < MIN_FRAME_BYTES
        || !hosted(tenants, replica.ledger.tenant, tenants.len() as int) || seated(
        replicas,
        replica.ledger,
        i,
    ) || replica.node != node || replica.cluster != replicas[0].cluster || !replica.budgeted
        || replica.config.queue_items < 4 {
        Some(LedgerError::Capacity)
    } else if replica.active_route matches Some(route) && route != replica.config.route_epoch {
        Some(LedgerError::PlacementConflict)
    } else {
        None
    }
}

/// Why the sessions from `i` on are refused: the first that is.
pub open spec fn first_refusal(
    node: u64,
    replicas: Seq<FleetReplica>,
    i: int,
    tenants: Seq<FleetTenant>,
    limits: WireLimits,
    limits_valid: bool,
) -> Option<LedgerError>
    decreases replicas.len() - i,
{
    if i < 0 || i >= replicas.len() {
        None
    } else {
        match refused(node, replicas, i, tenants, limits, limits_valid) {
            Some(error) => Some(error),
            None => first_refusal(node, replicas, i + 1, tenants, limits, limits_valid),
        }
    }
}

fn is_seated(replicas: &Vec<FleetReplica>, ledger: &LedgerId, n: usize) -> (yes: bool)
    requires
        n <= replicas@.len(),
    ensures
        yes == seated(replicas@, *ledger, n as int),
{
    let mut i: usize = 0;
    while i < n
        invariant
            i <= n <= replicas@.len(),
            forall|j: int| 0 <= j < i ==> #[trigger] replicas@[j].ledger != *ledger,
        decreases n - i,
    {
        if replicas[i].ledger.same(ledger) {
            assert(replicas@[i as int].ledger == *ledger);
            return true;
        }
        i += 1;
    }
    false
}

impl ReplicaFleet {
    /// Whether a fleet is of a size that can be run.
    pub open spec fn sized(node: u64, replicas: int, tenants: int) -> bool {
        node != 0 && 0 < replicas <= 4096 && 0 < tenants <= 1024
    }

    /// Decide which sessions a fleet runs: all of them, each under its own
    /// incarnation, or none.
    pub fn spawn(
        node: u64,
        replicas: &Vec<FleetReplica>,
        tenants: &Vec<FleetTenant>,
        limits: &WireLimits,
        limits_valid: bool,
    ) -> (seats: Result<Vec<Seat>, LedgerError>)
        ensures
            if !Self::sized(node, replicas@.len() as int, tenants@.len() as int) || !tenants_fit(
                tenants@,
            ) {
                seats == Err::<Vec<Seat>, LedgerError>(LedgerError::Capacity)
            } else {
                match first_refusal(node, replicas@, 0, tenants@, *limits, limits_valid) {
                    Some(error) => seats == Err::<Vec<Seat>, LedgerError>(error),
                    None => seats matches Ok(seats) && seats@.len() == replicas@.len() && forall|
                        i: int,
                    |
                        0 <= i < seats@.len() ==> #[trigger] seats@[i] == (Seat {
                            ledger: replicas@[i].ledger,
                            incarnation: (i + 1) as u64,
                            slots: replicas@[i].config.queue_items,
                            reserved: (replicas@[i].config.queue_items / 4) as usize,
                        }),
                }
            },
    {
        if node == 0 || replicas.len() == 0 || replicas.len() > 4096 || tenants.len() == 0
            || tenants.len() > 1024 {
            return Err(LedgerError::Capacity);
        }
        match admit_tenants(tenants) {
            Ok(_) => {},
            Err(error) => return Err(error),
        }
        let mut seats: Vec<Seat> = Vec::new();
        let mut i: usize = 0;
        while i < replicas.len()
            invariant
                i <= replicas@.len() <= 4096,
                replicas@.len() > 0,
                Self::sized(node, replicas@.len() as int, tenants@.len() as int),
                tenants_fit(tenants@),
                first_refusal(node, replicas@, 0, tenants@, *limits, limits_valid)
                    == first_refusal(node, replicas@, i as int, tenants@, *limits, limits_valid),
                seats@.len() == i,
                forall|j: int|
                    0 <= j < i ==> #[trigger] seats@[j] == (Seat {
                        ledger: replicas@[j].ledger,
                        incarnation: (j + 1) as u64,
                        slots: replicas@[j].config.queue_items,
                        reserved: (replicas@[j].config.queue_items / 4) as usize,
                    }),
            decreases replicas@.len() - i,
        {
            let replica = &replicas[i];
            match replica.config.validate(limits, limits_valid) {
                Ok(_) => {},
                Err(error) => return Err(error),
            }
            if !is_hosted(tenants, &replica.ledger.tenant, tenants.len()) || is_seated(
                replicas,
                &replica.ledger,
                i,
            ) || replica.node != node || !same_16(&replica.cluster, &replicas[0].cluster)
                || !replica.budgeted || replica.config.queue_items < 4 {
                return Err(LedgerError::Capacity);
            }
            match replica.config.assemble(replica.active_route) {
                Ok(_) => {},
                Err(error) => return Err(error),
            }
            let queue: usize = replica.config.queue_items;
            seats.push(
                Seat {
                    ledger: replica.ledger,
                    incarnation: i as u64 + 1,
                    slots: queue,
                    reserved: queue / 4,
                },
            );
            i += 1;
        }
        Ok(seats)
    }
}

/// No two sessions of a fleet share a ledger, and no two share an
/// incarnation.
pub proof fn seats_are_distinct(
    node: u64,
    replicas: Seq<FleetReplica>,
    tenants: Seq<FleetTenant>,
    limits: WireLimits,
    limits_valid: bool,
    i: int,
    j: int,
    k: int,
)
    requires
        0 <= k <= i < j < replicas.len(),
        first_refusal(node, replicas, k, tenants, limits, limits_valid) is None,
    ensures
        replicas[i].ledger != replicas[j].ledger,
    decreases replicas.len() - k,
{
    if k == j {
        assert(false);
    } else if k + 1 <= i {
        seats_are_distinct(node, replicas, tenants, limits, limits_valid, i, j, k + 1);
    } else {
        seat_is_free(node, replicas, tenants, limits, limits_valid, j, k);
        if replicas[i].ledger == replicas[j].ledger {
            assert(seated(replicas, replicas[j].ledger, j));
        }
    }
}

proof fn seat_is_free(
    node: u64,
    replicas: Seq<FleetReplica>,
    tenants: Seq<FleetTenant>,
    limits: WireLimits,
    limits_valid: bool,
    j: int,
    k: int,
)
    requires
        0 <= k <= j < replicas.len(),
        first_refusal(node, replicas, k, tenants, limits, limits_valid) is None,
    ensures
        !seated(replicas, replicas[j].ledger, j),
    decreases j - k,
{
    if k < j {
        seat_is_free(node, replicas, tenants, limits, limits_valid, j, k + 1);
    }
}

/// What a fleet's own bookkeeping is charged, for owners of `owner` bytes.
pub fn bookkeeping(replicas: usize, owner: usize) -> (bytes: Result<usize, LedgerError>)
    requires
        replicas > 0,
    ensures
        bytes == (if replicas * (owner + 1024) + STACK_BYTES <= usize::MAX {
            Ok::<usize, LedgerError>((replicas * (owner + 1024) + STACK_BYTES) as usize)
        } else {
            Err::<usize, LedgerError>(LedgerError::Capacity)
        }),
{
    proof {
        let each = owner + 1024;
        assert(each <= replicas * each) by (nonlinear_arith)
            requires
                replicas > 0,
                each >= 0,
        ;
    }
    let each: usize = match owner.checked_add(1024) {
        Some(each) => each,
        None => return Err(LedgerError::Capacity),
    };
    match replicas.checked_mul(each) {
        Some(bytes) => match bytes.checked_add(STACK_BYTES) {
            Some(bytes) => Ok(bytes),
            None => Err(LedgerError::Capacity),
        },
        None => Err(LedgerError::Capacity),
    }
}

/// What a fleet's shared queues are charged: each slot holds an input and a
/// frame, each session a handle, and `beside` is what the lease itself takes.
pub open spec fn shared_total(input: usize, frame: usize, beside: int) -> int {
    QUEUED * (input + frame + 128) + beside
}

/// The bytes of a fleet's shared queues, with `beside` bytes beside them.
pub fn shared_bytes(input: usize, frame: usize, beside: usize) -> (bytes: Result<
    usize,
    LedgerError,
>)
    ensures
        bytes == (if shared_total(input, frame, beside as int) <= usize::MAX {
            Ok::<usize, LedgerError>(shared_total(input, frame, beside as int) as usize)
        } else {
            Err::<usize, LedgerError>(LedgerError::Capacity)
        }),
{
    let both: usize = match input.checked_add(frame) {
        Some(bytes) => bytes,
        None => return Err(LedgerError::Capacity),
    };
    let each: usize = match both.checked_add(128) {
        Some(bytes) => bytes,
        None => return Err(LedgerError::Capacity),
    };
    match QUEUED.checked_mul(each) {
        Some(bytes) => match bytes.checked_add(beside) {
            Some(bytes) => Ok(bytes),
            None => Err(LedgerError::Capacity),
        },
        None => Err(LedgerError::Capacity),
    }
}

/// What the handles of a fleet's sessions and the lease over its queues take
/// beside them.
pub fn handle_bytes(replicas: usize, lease: usize) -> (bytes: Result<usize, LedgerError>)
    ensures
        bytes == (if replicas * 1024 + lease + 64 <= usize::MAX {
            Ok::<usize, LedgerError>((replicas * 1024 + lease + 64) as usize)
        } else {
            Err::<usize, LedgerError>(LedgerError::Capacity)
        }),
{
    match replicas.checked_mul(1024) {
        Some(handles) => match handles.checked_add(lease) {
            Some(bytes) => match bytes.checked_add(64) {
                Some(bytes) => Ok(bytes),
                None => Err(LedgerError::Capacity),
            },
            None => Err(LedgerError::Capacity),
        },
        None => Err(LedgerError::Capacity),
    }
}

/// One session of a worker.
#[derive(Debug, Clone, Copy, PartialEq, Eq)]
pub struct GroupSession {
    pub ledger: LedgerId,
    pub incarnation: u64,
    /// When it is looked at again.
    pub wake_at: u64,
    pub stopping: bool,
    /// Whether it waits for a disk.
    pub persistence: bool,
}

/// Whether a session is looked at before another: the earlier, and of two at
/// once the lesser ledger.
pub open spec fn earlier(a: GroupSession, b: GroupSession) -> bool {
    a.wake_at < b.wake_at || (a.wake_at == b.wake_at && a.ledger.below(b.ledger))
}

/// Whether session `at` is looked at before all others.
pub open spec fn foremost(sessions: Seq<GroupSession>, at: int) -> bool {
    0 <= at < sessions.len() && forall|i: int|
        0 <= i < sessions.len() && i != at ==> earlier(sessions[at], #[trigger] sessions[i])
}

/// How long a worker sleeps whose first session is looked at at `wake`.
pub open spec fn slept(wake: u64, now: u64) -> int {
    if wake <= now {
        0
    } else if wake - now < 100 * MILLISECOND {
        wake - now
    } else {
        100 * MILLISECOND
    }
}

/// The sessions of one worker.
#[derive(Debug, Clone, PartialEq, Eq)]
pub struct GroupOwner {
    pub sessions: Vec<GroupSession>,
    /// The last number a piece of work was queued under.
    pub nonce: u128,
}

/// Whether session `i` is the ledger's.
pub open spec fn session_at(sessions: Seq<GroupSession>, ledger: LedgerId, i: int) -> bool {
    0 <= i < sessions.len() && sessions[i].ledger == ledger
}

/// What becomes of work that reaches a worker.
#[derive(Debug, Clone, Copy, PartialEq, Eq)]
pub enum Enqueued {
    /// Its session is gone, was replaced, or is stopping: its caller learns
    /// what it learns of a lost answer.
    Dropped,
    /// The session begins to stop, ahead of everything queued: its deadline
    /// cannot be trapped behind a stalled disk.
    Stop,
    /// It is queued.
    Queued { id: u128, class: WorkClass, cost: u64 },
}

/// What a piece of work costs the scheduler: its charge within bounds.
pub open spec fn cost_of(charge: Option<usize>) -> u64 {
    match charge {
        None => 1,
        Some(bytes) => if bytes < 1 {
            1
        } else if bytes > 65536 {
            65536
        } else {
            bytes as u64
        },
    }
}

impl GroupOwner {
    /// No ledger has two sessions.
    pub open spec fn wf(self) -> bool {
        forall|i: int, j: int|
            0 <= i < j < self.sessions@.len() ==> #[trigger] self.sessions@[i].ledger
                != #[trigger] self.sessions@[j].ledger
    }

    /// The ledger's session.
    pub open spec fn session(self, ledger: LedgerId) -> Option<GroupSession> {
        if exists|i: int| session_at(self.sessions@, ledger, i) {
            Some(self.sessions@[choose|i: int| session_at(self.sessions@, ledger, i)])
        } else {
            None
        }
    }

    fn find(&self, ledger: &LedgerId) -> (found: Option<usize>)
        requires
            self.wf(),
        ensures
            match found {
                Some(at) => session_at(self.sessions@, *ledger, at as int) && self.session(*ledger)
                    == Some(self.sessions@[at as int]),
                None => self.session(*ledger) is None && forall|i: int|
                    !#[trigger] session_at(self.sessions@, *ledger, i),
            },
    {
        let mut i: usize = 0;
        while i < self.sessions.len()
            invariant
                self.wf(),
                i <= self.sessions@.len(),
                forall|j: int| 0 <= j < i ==> !#[trigger] session_at(self.sessions@, *ledger, j),
            decreases self.sessions@.len() - i,
        {
            if self.sessions[i].ledger.same(ledger) {
                assert(session_at(self.sessions@, *ledger, i as int));
                proof {
                    let k = choose|k: int| session_at(self.sessions@, *ledger, k);
                    assert(session_at(self.sessions@, *ledger, k));
                }
                return Some(i);
            }
            i += 1;
        }
        None
    }

    /// Whether a ledger's session runs.
    pub fn runs(&self, ledger: &LedgerId) -> (runs: bool)
        requires
            self.wf(),
        ensures
            runs == (self.session(*ledger) is Some),
    {
        self.find(ledger).is_some()
    }

    /// Stop one session: it alone leaves.
    pub fn stop_session(&mut self, ledger: &LedgerId)
        requires
            old(self).wf(),
        ensures
            final(self).wf(),
            final(self).nonce == old(self).nonce,
            final(self).session(*ledger) is None,
            forall|other: LedgerId|
                other != *ledger ==> #[trigger] final(self).session(other) == old(self).session(
                    other,
                ),
    {
        let ghost before = *self;
        match self.find(ledger) {
            Some(at) => {
                self.sessions.remove(at);
                proof {
                    let now = self.sessions@;
                    assert forall|i: int, j: int| 0 <= i < j < now.len() implies #[trigger] now[i].ledger
                        != #[trigger] now[j].ledger by {
                        let p = if i < at {
                            i
                        } else {
                            i + 1
                        };
                        let q = if j < at {
                            j
                        } else {
                            j + 1
                        };
                        assert(before.sessions@[p].ledger != before.sessions@[q].ledger);
                    }
                    assert forall|i: int| !#[trigger] session_at(now, *ledger, i) by {
                        if session_at(now, *ledger, i) {
                            let p = if i < at {
                                i
                            } else {
                                i + 1
                            };
                            assert(before.sessions@[p].ledger
                                == before.sessions@[at as int].ledger);
                        }
                    }
                    assert forall|other: LedgerId| other != *ledger implies #[trigger] self.session(
                        other,
                    ) == before.session(other) by {
                        lemma_session_removed(before, *self, at as int, other);
                    }
                }
            },
            None => {},
        }
    }

    /// Look at a session again at `wake`; `persistence` is whether it waits for
    /// a disk.
    pub fn reschedule(&mut self, ledger: &LedgerId, wake: u64, persistence: bool)
        requires
            old(self).wf(),
        ensures
            final(self).wf(),
            final(self).nonce == old(self).nonce,
            final(self).session(*ledger) == (match old(self).session(*ledger) {
                Some(session) => Some(GroupSession { wake_at: wake, persistence, ..session }),
                None => None::<GroupSession>,
            }),
            forall|other: LedgerId|
                other != *ledger ==> #[trigger] final(self).session(other) == old(self).session(
                    other,
                ),
    {
        let ghost before = *self;
        match self.find(ledger) {
            Some(at) => {
                let session = self.sessions[at];
                let next = GroupSession {
                    ledger: session.ledger,
                    incarnation: session.incarnation,
                    wake_at: wake,
                    stopping: session.stopping,
                    persistence,
                };
                self.sessions.set(at, next);
                proof {
                    assert(session_at(self.sessions@, *ledger, at as int));
                    assert forall|other: LedgerId| other != *ledger implies #[trigger] self.session(
                        other,
                    ) == before.session(other) by {
                        lemma_session_set(before, *self, at as int, other);
                    }
                    let k = choose|k: int| session_at(self.sessions@, *ledger, k);
                    assert(session_at(self.sessions@, *ledger, k));
                    assert(k == at);
                }
            },
            None => {},
        }
    }

    /// Install a session, to be looked at now.
    pub fn install(&mut self, ledger: LedgerId, incarnation: u64, now: u64)
        requires
            old(self).wf(),
            old(self).session(ledger) is None,
        ensures
            final(self).wf(),
            final(self).nonce == old(self).nonce,
            final(self).session(ledger) == Some(
                GroupSession {
                    ledger,
                    incarnation,
                    wake_at: now,
                    stopping: false,
                    persistence: false,
                },
            ),
            forall|other: LedgerId|
                other != ledger ==> #[trigger] final(self).session(other) == old(self).session(
                    other,
                ),
            final(self).sessions@.len() == old(self).sessions@.len() + 1,
    {
        let ghost before = self.sessions@;
        let ghost whole = *self;
        proof {
            assert forall|i: int| 0 <= i < before.len() implies #[trigger] before[i].ledger
                != ledger by {
                if before[i].ledger == ledger {
                    assert(session_at(before, ledger, i));
                }
            }
        }
        self.sessions.push(
            GroupSession {
                ledger,
                incarnation,
                wake_at: now,
                stopping: false,
                persistence: false,
            },
        );
        proof {
            let at = before.len() as int;
            assert(session_at(self.sessions@, ledger, at));
            let k = choose|k: int| session_at(self.sessions@, ledger, k);
            assert(session_at(self.sessions@, ledger, k));
            assert forall|other: LedgerId| other != ledger implies #[trigger] self.session(other)
                == whole.session(other) by {
                if exists|i: int| session_at(before, other, i) {
                    let i = choose|i: int| session_at(before, other, i);
                    assert(session_at(self.sessions@, other, i));
                    let k = choose|k: int| session_at(self.sessions@, other, k);
                    assert(session_at(self.sessions@, other, k));
                } else if exists|i: int| session_at(self.sessions@, other, i) {
                    let i = choose|i: int| session_at(self.sessions@, other, i);
                    assert(session_at(before, other, i));
                }
            }
        }
    }

    /// The session that is looked at first.
    pub fn first(&self) -> (first: Option<usize>)
        requires
            self.wf(),
        ensures
            match first {
                Some(at) => foremost(self.sessions@, at as int),
                None => self.sessions@.len() == 0,
            },
    {
        if self.sessions.len() == 0 {
            return None;
        }
        let mut at: usize = 0;
        let mut i: usize = 1;
        while i < self.sessions.len()
            invariant
                self.wf(),
                at < i <= self.sessions@.len(),
                forall|j: int|
                    0 <= j < i && j != at ==> earlier(
                        self.sessions@[at as int],
                        #[trigger] self.sessions@[j],
                    ),
            decreases self.sessions@.len() - i,
        {
            let a = self.sessions[i];
            let b = self.sessions[at];
            let ghost was = at;
            proof {
                ledgers_are_ordered(a.ledger, b.ledger, b.ledger);
                assert forall|j: int| 0 <= j < i && j != at implies (earlier(a, b) ==> earlier(
                    a,
                    #[trigger] self.sessions@[j],
                )) by {
                    ledgers_are_ordered(a.ledger, b.ledger, self.sessions@[j].ledger);
                }
            }
            if a.wake_at < b.wake_at || (a.wake_at == b.wake_at && a.ledger.is_below(&b.ledger)) {
                at = i;
            }
            i += 1;
        }
        Some(at)
    }

    /// The session that is due now.
    pub fn due(&self, now: u64) -> (due: Option<LedgerId>)
        requires
            self.wf(),
        ensures
            match due {
                Some(ledger) => exists|at: int|
                    #[trigger] foremost(self.sessions@, at) && self.sessions@[at].ledger == ledger
                        && self.sessions@[at].wake_at <= now,
                None => forall|i: int|
                    0 <= i < self.sessions@.len() ==> (#[trigger] self.sessions@[i]).wake_at > now,
            },
    {
        match self.first() {
            Some(at) => if self.sessions[at].wake_at <= now {
                let ledger = self.sessions[at].ledger;
                assert(foremost(self.sessions@, at as int));
                Some(ledger)
            } else {
                None
            },
            None => None,
        }
    }

    /// How long the worker may sleep: until the first session is due, and no
    /// longer than a tenth of a second.
    pub fn wait(&self, now: u64) -> (wait: u64)
        requires
            self.wf(),
        ensures
            wait <= 100 * MILLISECOND,
            forall|i: int|
                0 <= i < self.sessions@.len() ==> (#[trigger] self.sessions@[i]).wake_at >= now + wait
                    || wait == 0,
            self.sessions@.len() == 0 ==> wait == 100 * MILLISECOND,
            self.sessions@.len() > 0 ==> exists|at: int|
                #[trigger] foremost(self.sessions@, at) && wait == slept(
                    self.sessions@[at].wake_at,
                    now,
                ),
    {
        let most: u64 = 100 * MILLISECOND;
        match self.first() {
            Some(at) => {
                let wait: u64 = self.sessions[at].wake_at.saturating_sub(now);
                assert(foremost(self.sessions@, at as int));
                if wait < most {
                    wait
                } else {
                    most
                }
            },
            None => most,
        }
    }

    /// Whether a session's work may be dispatched: one that waits for a disk
    /// or stops is passed over, one that is gone drops its work.
    pub fn dispatches(&self, ledger: &LedgerId) -> (yes: bool)
        requires
            self.wf(),
        ensures
            yes == (match self.session(*ledger) {
                Some(session) => !session.persistence && !session.stopping,
                None => true,
            }),
    {
        match self.find(ledger) {
            Some(at) => !self.sessions[at].persistence && !self.sessions[at].stopping,
            None => true,
        }
    }

    /// Decide what becomes of work routed to a session's incarnation.
    pub fn enqueue(
        &mut self,
        ledger: &LedgerId,
        incarnation: u64,
        work: Work,
        operation: &Operation,
        charge: Option<usize>,
    ) -> (enqueued: Result<Enqueued, LedgerError>)
        requires
            old(self).wf(),
        ensures
            final(self).wf(),
            forall|other: LedgerId|
                other != *ledger ==> #[trigger] final(self).session(other) == old(self).session(
                    other,
                ),
            !(enqueued matches Ok(Enqueued::Stop)) ==> final(self).sessions@
                == old(self).sessions@,
            match old(self).session(*ledger) {
                Some(session) if session.incarnation == incarnation => if work == Work::Stop {
                    enqueued == Ok::<Enqueued, LedgerError>(Enqueued::Stop) && final(self).nonce
                        == old(self).nonce && final(self).session(*ledger) == Some(
                        GroupSession { stopping: true, ..session },
                    )
                } else if session.stopping {
                    enqueued == Ok::<Enqueued, LedgerError>(Enqueued::Dropped) && final(self).nonce
                        == old(self).nonce
                } else if old(self).nonce == u128::MAX {
                    enqueued == Err::<Enqueued, LedgerError>(LedgerError::Capacity) && final(self).nonce == old(self).nonce
                } else {
                    final(self).nonce == old(self).nonce + 1 && enqueued == Ok::<
                        Enqueued,
                        LedgerError,
                    >(
                        Enqueued::Queued {
                            id: final(self).nonce,
                            class: class_of(work, *operation),
                            cost: cost_of(charge),
                        },
                    )
                },
                _ => enqueued == Ok::<Enqueued, LedgerError>(Enqueued::Dropped) && final(self).nonce
                    == old(self).nonce,
            },
    {
        let at: usize = match self.find(ledger) {
            Some(at) => at,
            None => return Ok(Enqueued::Dropped),
        };
        let session = self.sessions[at];
        if session.incarnation != incarnation {
            return Ok(Enqueued::Dropped);
        }
        if work == Work::Stop {
            let ghost before = *self;
            let next = GroupSession {
                ledger: session.ledger,
                incarnation: session.incarnation,
                wake_at: session.wake_at,
                stopping: true,
                persistence: session.persistence,
            };
            self.sessions.set(at, next);
            proof {
                assert(session_at(self.sessions@, *ledger, at as int));
                assert forall|other: LedgerId| other != *ledger implies #[trigger] self.session(
                    other,
                ) == before.session(other) by {
                    lemma_session_set(before, *self, at as int, other);
                }
                let k = choose|k: int| session_at(self.sessions@, *ledger, k);
                assert(session_at(self.sessions@, *ledger, k));
                assert(k == at);
            }
            return Ok(Enqueued::Stop);
        }
        if session.stopping {
            return Ok(Enqueued::Dropped);
        }
        if self.nonce == u128::MAX {
            return Err(LedgerError::Capacity);
        }
        self.nonce = self.nonce + 1;
        let cost: u64 = match charge {
            None => 1,
            Some(bytes) => if bytes < 1 {
                1
            } else if bytes > 65536 {
                65536
            } else {
                bytes as u64
            },
        };
        Ok(Enqueued::Queued { id: self.nonce, class: class(work, operation), cost })
    }
}

proof fn lemma_session_removed(before: GroupOwner, after: GroupOwner, at: int, other: LedgerId)
    requires
        before.wf(),
        after.wf(),
        0 <= at < before.sessions@.len(),
        after.sessions@ == before.sessions@.remove(at),
        before.sessions@[at].ledger != other,
    ensures
        after.session(other) == before.session(other),
{
    if exists|i: int| session_at(before.sessions@, other, i) {
        let i = choose|i: int| session_at(before.sessions@, other, i);
        let p = if i < at {
            i
        } else {
            i - 1
        };
        assert(session_at(after.sessions@, other, p));
        let k = choose|k: int| session_at(after.sessions@, other, k);
        assert(session_at(after.sessions@, other, k));
        assert(k == p);
    } else if exists|i: int| session_at(after.sessions@, other, i) {
        let i = choose|i: int| session_at(after.sessions@, other, i);
        let p = if i < at {
            i
        } else {
            i + 1
        };
        assert(session_at(before.sessions@, other, p));
    }
}

proof fn lemma_session_set(before: GroupOwner, after: GroupOwner, at: int, other: LedgerId)
    requires
        before.wf(),
        after.wf(),
        0 <= at < before.sessions@.len(),
        after.sessions@.len() == before.sessions@.len(),
        after.sessions@[at].ledger == before.sessions@[at].ledger,
        forall|i: int|
            0 <= i < before.sessions@.len() && i != at ==> after.sessions@[i] == before.sessions@[i],
        before.sessions@[at].ledger != other,
    ensures
        after.session(other) == before.session(other),
{
    if exists|i: int| session_at(before.sessions@, other, i) {
        let i = choose|i: int| session_at(before.sessions@, other, i);
        assert(session_at(after.sessions@, other, i));
        let k = choose|k: int| session_at(after.sessions@, other, k);
        assert(session_at(after.sessions@, other, k));
    } else if exists|i: int| session_at(after.sessions@, other, i) {
        let i = choose|i: int| session_at(after.sessions@, other, i);
        assert(session_at(before.sessions@, other, i));
    }
}

/// Whether a worker is done: its manager left, or it never had one and has no
/// session.
pub fn finished(manager: Option<bool>, sessions: usize) -> (finished: bool)
    ensures
        finished == (match manager {
            Some(manager) => !manager,
            None => sessions == 0,
        }),
{
    match manager {
        Some(manager) => !manager,
        None => sessions == 0,
    }
}

/// Whether a session goes on after a step: one that is done or failed leaves,
/// alone.
pub fn goes_on(step: Result<bool, LedgerError>) -> (on: bool)
    ensures
        on == (step == Ok::<bool, LedgerError>(false)),
{
    match step {
        Ok(stopped) => !stopped,
        Err(_) => false,
    }
}

/// Which of its tasks a worker is at.
#[derive(Debug, Clone, Copy, PartialEq, Eq, Structural)]
pub enum Task {
    /// Sessions that are due.
    Due,
    /// Work that has arrived.
    Input,
    /// Work that is scheduled.
    Schedule,
    /// Waiting for work or time.
    Sleep,
    Stopped,
}

/// What a worker does next.
#[derive(Debug, Clone, Copy, PartialEq, Eq, Structural)]
pub enum Do {
    /// Progress the session that is due, if one is.
    Due,
    /// Take work that has arrived, if there is any.
    Input,
    /// Dispatch scheduled work, if there is any.
    Schedule,
    /// Wait for work until the first session is due.
    Sleep,
    Stop,
}

/// What came of it.
#[derive(Debug, Clone, Copy, PartialEq, Eq, Structural)]
pub enum Did {
    /// One step was taken.
    One,
    /// Work was found for a session that was replaced: it was dropped.
    Stale,
    /// There was nothing to do.
    Nothing,
    /// Only sessions that wait for a disk have work (`blocked`), or the
    /// scheduler has more to look at.
    Later { blocked: bool },
    /// The worker is told to stop, or nobody can reach it any more.
    End,
}

/// A worker's turn: its tasks one after the other, each for a bounded number
/// of steps.
#[derive(Debug, Clone, Copy, PartialEq, Eq, Structural)]
pub struct Cycle {
    pub task: Task,
    /// Steps left for the task.
    pub left: usize,
    /// Whether scheduled work may be left over.
    pub runnable: bool,
}

/// A fresh turn, unless the worker is done.
pub open spec fn turn(done: bool) -> (Cycle, Do) {
    if done {
        (Cycle { task: Task::Stopped, left: 0, runnable: false }, Do::Stop)
    } else {
        (Cycle { task: Task::Due, left: SLICE, runnable: false }, Do::Due)
    }
}

impl Cycle {
    /// No task has more steps left than a slice.
    pub open spec fn wf(self) -> bool {
        self.left <= SLICE && (self.task == Task::Due || self.task == Task::Input || self.task
            == Task::Schedule ==> self.left > 0)
    }

    /// What follows the last step of a task.
    pub open spec fn after(self, done: bool) -> (Cycle, Do) {
        match self.task {
            Task::Due => (Cycle { task: Task::Input, left: SLICE, runnable: false }, Do::Input),
            Task::Input => (
                Cycle { task: Task::Schedule, left: SLICE, runnable: false },
                Do::Schedule,
            ),
            Task::Schedule => if self.runnable {
                turn(done)
            } else {
                (Cycle { task: Task::Sleep, left: 0, runnable: false }, Do::Sleep)
            },
            _ => turn(done),
        }
    }

    /// What follows a step that leaves more of the task, if its slice does.
    pub open spec fn more(self, done: bool) -> (Cycle, Do) {
        if self.left > 1 {
            (
                Cycle { left: (self.left - 1) as usize, ..self },
                match self.task {
                    Task::Due => Do::Due,
                    Task::Input => Do::Input,
                    _ => Do::Schedule,
                },
            )
        } else {
            self.after(done)
        }
    }

    /// What follows a step; `done` says whether the worker is done once its
    /// turn ends.
    pub open spec fn next(self, did: Did, done: bool) -> (Cycle, Do) {
        match (self.task, did) {
            (Task::Stopped, _) => (self, Do::Stop),
            (_, Did::End) => (
                Cycle { task: Task::Stopped, left: 0, runnable: false },
                Do::Stop,
            ),
            (Task::Sleep, _) => turn(done),
            (Task::Schedule, Did::One) => (Cycle { runnable: true, ..self }).more(done),
            (Task::Schedule, Did::Stale) => self.more(done),
            (Task::Schedule, Did::Later { blocked }) => (Cycle {
                runnable: !blocked,
                ..self
            }).after(done),
            (Task::Schedule, Did::Nothing) => (Cycle { runnable: false, ..self }).after(done),
            (_, Did::One) => self.more(done),
            (_, _) => self.after(done),
        }
    }

    /// Begin, unless the worker is done.
    pub fn start(done: bool) -> (cycle: (Self, Do))
        ensures
            cycle == turn(done),
            cycle.0.wf(),
    {
        if done {
            (Cycle { task: Task::Stopped, left: 0, runnable: false }, Do::Stop)
        } else {
            (Cycle { task: Task::Due, left: SLICE, runnable: false }, Do::Due)
        }
    }

    fn change(&mut self, done: bool) -> (action: Do)
        requires
            old(self).wf(),
        ensures
            (*final(self), action) == old(self).after(done),
            final(self).wf(),
    {
        match self.task {
            Task::Due => {
                *self = Cycle { task: Task::Input, left: SLICE, runnable: false };
                Do::Input
            },
            Task::Input => {
                *self = Cycle { task: Task::Schedule, left: SLICE, runnable: false };
                Do::Schedule
            },
            Task::Schedule => {
                if self.runnable {
                    let (next, action) = Cycle::start(done);
                    *self = next;
                    action
                } else {
                    *self = Cycle { task: Task::Sleep, left: 0, runnable: false };
                    Do::Sleep
                }
            },
            _ => {
                let (next, action) = Cycle::start(done);
                *self = next;
                action
            },
        }
    }

    fn stay(&mut self, done: bool) -> (action: Do)
        requires
            old(self).wf(),
            old(self).task == Task::Due || old(self).task == Task::Input || old(self).task
                == Task::Schedule,
        ensures
            (*final(self), action) == old(self).more(done),
            final(self).wf(),
    {
        if self.left > 1 {
            self.left = self.left - 1;
            match self.task {
                Task::Due => Do::Due,
                Task::Input => Do::Input,
                _ => Do::Schedule,
            }
        } else {
            self.change(done)
        }
    }

    /// Take what came of a step, and say what is done next.
    pub fn step(&mut self, did: Did, done: bool) -> (action: Do)
        requires
            old(self).wf(),
        ensures
            (*final(self), action) == old(self).next(did, done),
            final(self).wf(),
    {
        match (self.task, did) {
            (Task::Stopped, _) => Do::Stop,
            (_, Did::End) => {
                *self = Cycle { task: Task::Stopped, left: 0, runnable: false };
                Do::Stop
            },
            (Task::Sleep, _) => {
                let (next, action) = Cycle::start(done);
                *self = next;
                action
            },
            (Task::Schedule, Did::One) => {
                self.runnable = true;
                self.stay(done)
            },
            (Task::Schedule, Did::Stale) => self.stay(done),
            (Task::Schedule, Did::Later { blocked }) => {
                self.runnable = !blocked;
                self.change(done)
            },
            (Task::Schedule, Did::Nothing) => {
                self.runnable = false;
                self.change(done)
            },
            (_, Did::One) => self.stay(done),
            (_, _) => self.change(done),
        }
    }
}

/// No task keeps the worker from the others: a task that goes on has fewer
/// steps left, and none has more than a slice.
pub proof fn no_task_starves_another(cycle: Cycle, did: Did, done: bool)
    requires
        cycle.wf(),
        cycle.task == Task::Due || cycle.task == Task::Input,
        cycle.next(did, done).0.task == cycle.task,
    ensures
        cycle.next(did, done).0.left < cycle.left <= SLICE,
{
}

} // verus!
