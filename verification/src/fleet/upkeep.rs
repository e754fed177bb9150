//! What a fleet's upkeep promises: which sessions are seated, installed and
//! removed, whose work comes when and at what charge, how members change, and
//! who is asked for a promise.
use super::accept::Work;
use super::diagnostics::{ReplicaDiagnostics, SessionFacts};
use super::group::{
    class_of, cost_of, earlier, first_refusal, foremost, lane_of, refused, slept, tenants_fit,
    Cycle, Did, Do, FleetReplica, FleetTenant, GroupOwner, GroupSession, ReplicaFleet, Task, WorkClass,
    SLICE,
};
use super::host::HostCall;
use super::management::{
    first_running, ordered, runs_after, seats, writer_refused, writers_refused, Candidate, Entry,
    FleetError, FleetInstallation, FleetManager, FleetRemoval, Latest, ManagementReply,
    ManagementWork, Writer,
};
use super::membership::{joins, Look, MembershipChange, MembershipView, PendingMembership};
use super::owner::{early, Busy, Log};
use super::request::Owner;
use super::resolve::Events;
use super::support::{
    answers, asked_from, beyond, first_asked, is_least, least, next_target, owes, pool, promising,
    remaining, told, GateStep, Known, ManagedFormatSupport,
};
use super::{
    answer_bytes, charged, completes, only_reads, request_total, LedgerError, ManagedError,
    ReplicaConfig, WireLimits,
};
use crate::barrier::context_of;
use crate::directory::authority::Configuration;
use crate::directory::ConsensusError;
use crate::hashing::zero_16;
use crate::ids::LedgerId;
use crate::operation::{
    Command, Lane, NewArtifact, Operation, PeerRole, RequestStreamCommand, VerifiedRequest,
};
use crate::text::bytes_are_read_back_from_hex;
use vstd::prelude::*;

verus! {

/// A candidate that is next and new is installed, as it was offered and under a
/// fresh incarnation of its own: its ledger and its group have none, there is
/// room, its tenant is admitted, its allowances were granted and its route is the
/// one it was activated at.
pub proof fn a_new_candidate_is_installed(
    fleet: FleetManager,
    sequence: u64,
    candidate: Candidate,
    granted: bool,
)
    requires
        sequence == fleet.sequence + 1,
        !fleet.quiesced,
        fleet.entry(candidate.ledger) is None,
        forall|i: int|
            0 <= i < fleet.entries@.len() ==> (#[trigger] fleet.entries@[i]).installation.group
                != candidate.group,
    ensures
        ({
            let admitted = exists|i: int|
                0 <= i < fleet.tenants@.len() && #[trigger] fleet.tenants@[i].tenant
                    == candidate.ledger.tenant;
            let route = candidate.active_route is None || candidate.active_route == Some(
                candidate.config.route_epoch,
            );
            let installed = fleet.installs(sequence, candidate, granted);
            &&& fleet.entries@.len() >= fleet.max_sessions ==> installed == Err::<
                FleetInstallation,
                FleetError,
            >(FleetError::Capacity)
            &&& fleet.entries@.len() < fleet.max_sessions && !admitted ==> installed == Err::<
                FleetInstallation,
                FleetError,
            >(FleetError::InvalidSession)
            &&& fleet.entries@.len() < fleet.max_sessions && admitted && !(granted && route)
                ==> installed == Err::<FleetInstallation, FleetError>(FleetError::Capacity)
            &&& fleet.entries@.len() < fleet.max_sessions && admitted && granted && route ==> (
            installed matches Ok(made) && made.ledger == candidate.ledger && made.group
                == candidate.group && made.config == candidate.config && made.writer
                == candidate.writer && made.incarnation.owner == fleet.owner
                && made.incarnation.sequence == sequence)
        }),
{
}

/// A ledger or a group that is installed already is not installed again under
/// another operation.
pub proof fn nothing_is_installed_twice(
    fleet: FleetManager,
    sequence: u64,
    candidate: Candidate,
    granted: bool,
    i: int,
)
    requires
        sequence == fleet.sequence + 1,
        !fleet.quiesced,
        fleet.entry(candidate.ledger) is Some || (0 <= i < fleet.entries@.len()
            && fleet.entries@[i].installation.group == candidate.group),
    ensures
        fleet.installs(sequence, candidate, granted) == Err::<FleetInstallation, FleetError>(
            FleetError::Conflict,
        ),
{
}

/// Operations come one after the other: an older one has expired, a later one is
/// out of order, and the latest is only said again, where it is the very same.
pub proof fn operations_come_one_after_the_other(
    fleet: FleetManager,
    sequence: u64,
    candidate: Candidate,
    removal: FleetRemoval,
    group: GroupOwner,
    granted: bool,
)
    ensures
        sequence < fleet.sequence ==> fleet.installs(sequence, candidate, granted) == Err::<
            FleetInstallation,
            FleetError,
        >(FleetError::RetryExpired) && fleet.removes(group, sequence, removal) == Err::<
            FleetRemoval,
            FleetError,
        >(FleetError::RetryExpired) && fleet.again(sequence) == Err::<
            FleetInstallation,
            FleetError,
        >(FleetError::RetryExpired),
        sequence > fleet.sequence + 1 ==> fleet.installs(sequence, candidate, granted) == Err::<
            FleetInstallation,
            FleetError,
        >(FleetError::OutOfOrder) && fleet.removes(group, sequence, removal) == Err::<
            FleetRemoval,
            FleetError,
        >(FleetError::OutOfOrder),
        sequence == fleet.sequence && fleet.latest is Some && fleet.latest->0 is Installed ==> {
            let previous = fleet.latest->0->Installed_0;
            let same = previous.ledger == candidate.ledger && previous.group == candidate.group
                && previous.config == candidate.config && previous.writer == candidate.writer;
            &&& fleet.installs(sequence, candidate, granted) == (if same {
                Ok::<FleetInstallation, FleetError>(previous)
            } else {
                Err::<FleetInstallation, FleetError>(FleetError::Conflict)
            })
            &&& fleet.again(sequence) == Ok::<FleetInstallation, FleetError>(previous)
            &&& fleet.removes(group, sequence, removal) is Err
        },
        sequence == fleet.sequence && fleet.latest == Some(Latest::Removed(removal))
            ==> fleet.removes(group, sequence, removal) == Ok::<FleetRemoval, FleetError>(removal)
            && fleet.installs(sequence, candidate, granted) is Err,
{
}

/// A session that has stopped is removed, and the very incarnation that was
/// named; one that runs is not, and one that is not there cannot be.
pub proof fn a_stopped_session_is_removed(
    fleet: FleetManager,
    group: GroupOwner,
    sequence: u64,
    removal: FleetRemoval,
)
    requires
        sequence == fleet.sequence + 1,
    ensures
        match fleet.entry(removal.ledger) {
            None => fleet.removes(group, sequence, removal) == Err::<FleetRemoval, FleetError>(
                FleetError::Conflict,
            ),
            Some(entry) => fleet.removes(group, sequence, removal) == (
            if entry.installation.incarnation != removal.incarnation {
                Err::<FleetRemoval, FleetError>(FleetError::Conflict)
            } else if !entry.stopped || group.session(removal.ledger) is Some {
                Err::<FleetRemoval, FleetError>(FleetError::Running)
            } else {
                Ok::<FleetRemoval, FleetError>(removal)
            }),
        },
{
}

/// The writers of a fleet are taken exactly where each was opened for this
/// cluster and node, within its bounds, and none twice; the first that is not
/// decides.
pub proof fn writers_are_of_this_node(
    writers: Seq<Writer>,
    i: int,
    cluster: [u8; 16],
    node: u64,
)
    requires
        0 <= i,
    ensures
        writers_refused(writers, i, cluster, node) is None <==> (forall|k: int|
            i <= k < writers.len() ==> (#[trigger] writers[k]).of == Some((cluster, node))
                && writers[k].within && forall|j: int|
                0 <= j < k ==> #[trigger] writers[j].id != writers[k].id),
        i < writers.len() && writer_refused(writers, i, cluster, node) is Some ==> writers_refused(
            writers,
            i,
            cluster,
            node,
        ) == writer_refused(writers, i, cluster, node),
    decreases writers.len() - i,
{
    if i < writers.len() {
        writers_are_of_this_node(writers, i + 1, cluster, node);
        let fits = writers[i].of == Some((cluster, node)) && writers[i].within && forall|j: int|
            0 <= j < i ==> #[trigger] writers[j].id != writers[i].id;
        assert(writer_refused(writers, i, cluster, node) is None <==> fits);
    }
}

/// A session is given a seat exactly where it is one of this node's, of the
/// first one's cluster and of an admitted tenant, no other has its ledger, and
/// its bounds hold; one activated at another route is in conflict.
pub proof fn a_session_is_seated_where_it_belongs(
    node: u64,
    replicas: Seq<FleetReplica>,
    i: int,
    tenants: Seq<FleetTenant>,
    limits: WireLimits,
    limits_valid: bool,
)
    requires
        0 <= i < replicas.len(),
    ensures
        ({
            let replica = replicas[i];
            let belongs = replica.node == node && replica.cluster == replicas[0].cluster
                && replica.budgeted && replica.config.valid() && replica.config.queue_items >= 4
                && limits_valid && limits.max_frame_bytes >= super::MIN_FRAME_BYTES && (exists|
                t: int,
            |
                0 <= t < tenants.len() && #[trigger] tenants[t].tenant == replica.ledger.tenant)
                && forall|j: int| 0 <= j < i ==> #[trigger] replicas[j].ledger != replica.ledger;
            let route = replica.active_route is None || replica.active_route == Some(
                replica.config.route_epoch,
            );
            refused(node, replicas, i, tenants, limits, limits_valid) == (if !belongs {
                Some(LedgerError::Capacity)
            } else if !route {
                Some(LedgerError::PlacementConflict)
            } else {
                None
            })
        }),
{
}

/// All sessions are seated or none: the first that is refused decides for all.
pub proof fn the_first_refused_session_decides(
    node: u64,
    replicas: Seq<FleetReplica>,
    i: int,
    tenants: Seq<FleetTenant>,
    limits: WireLimits,
    limits_valid: bool,
    at: int,
)
    requires
        0 <= i,
    ensures
        first_refusal(node, replicas, i, tenants, limits, limits_valid) is None <==> (forall|
            k: int,
        |
            i <= k < replicas.len() ==> #[trigger] refused(
                node,
                replicas,
                k,
                tenants,
                limits,
                limits_valid,
            ) is None),
        i <= at < replicas.len() && refused(node, replicas, at, tenants, limits, limits_valid)
            is Some && (forall|k: int|
            i <= k < at ==> #[trigger] refused(node, replicas, k, tenants, limits, limits_valid)
                is None) ==> first_refusal(node, replicas, i, tenants, limits, limits_valid)
            == refused(node, replicas, at, tenants, limits, limits_valid),
    decreases replicas.len() - i,
{
    if i < replicas.len() {
        the_first_refused_session_decides(
            node,
            replicas,
            i + 1,
            tenants,
            limits,
            limits_valid,
            at,
        );
    }
}

/// Consensus is applied, what completes work completes, what reads queries, and
/// what else a client asks for is appended; a node's own calls control. Only
/// what reads and what appends waits in the ordinary lane.
pub proof fn work_is_queued_by_what_it_does(work: Work, operation: Operation)
    ensures
        work is Request && operation is Raft ==> class_of(work, operation) is Apply,
        work is Request && (operation is Read || operation is Stream || operation is Reconcile
            || operation is RequestStreamRead || operation is ManagedSupport) ==> class_of(
            work,
            operation,
        ) is Query,
        work is Request && (operation is Submit || operation is Managed || operation is Native
            || operation is OpenEpoch || operation is RequestStreamControl) ==> class_of(
            work,
            operation,
        ) == (if completes(operation) {
            WorkClass::Completion
        } else {
            WorkClass::Append
        }),
        work is Probe ==> class_of(work, operation) == (if completes(operation) {
            WorkClass::Completion
        } else {
            WorkClass::Query
        }),
        !(work is Request) && !(work is Probe) ==> class_of(work, operation) is Control,
        lane_of(WorkClass::Query) == Lane::Ordinary && lane_of(WorkClass::Append)
            == Lane::Ordinary,
        lane_of(WorkClass::Apply) == Lane::Completion && lane_of(WorkClass::Control)
            == Lane::Completion && lane_of(WorkClass::Completion) == Lane::Completion,
{
}

/// What completes existing work: every stream's command but its opening, a probe
/// of support, a monitor, and a command that is charged to completions.
pub proof fn what_completes_existing_work(operation: Operation)
    ensures
        operation matches Operation::RequestStreamControl { control, .. } ==> (completes(operation)
            <==> control != RequestStreamCommand::Open),
        operation is ManagedSupport || operation is Monitor ==> completes(operation),
        operation.submits() matches Some(command) ==> (completes(operation)
            <==> command.charged_to() == Lane::Completion),
        operation is Read || operation is List || operation is Summary || operation is Native
            || operation is Raft || operation is OpenEpoch || operation is Upload
            ==> !completes(operation),
        charged(operation) == (if operation is Raft || completes(operation) {
            Lane::Completion
        } else {
            Lane::Ordinary
        }),
{
}

/// A request is charged for itself and for its answer; a consensus message less
/// for itself, as nothing is decoded from it here.
pub proof fn a_request_is_charged_for_its_answer(
    operation: Operation,
    size: usize,
    more: usize,
    response: usize,
    frame: u32,
    sized: Option<usize>,
)
    requires
        size <= more,
    ensures
        request_total(operation, size, response) <= request_total(operation, more, response),
        request_total(operation, 0, response) == 32 * response + 4096,
        operation is Raft ==> request_total(operation, size, 0) == 2 * size + 4096,
        !(operation is Raft) ==> request_total(operation, size, 0) == 32 * size + 4096,
        operation is List || operation is Select || operation is Traverse || operation
            is Validators || operation is NativeRead || operation is NativeList ==> answer_bytes(
            operation,
            frame,
            sized,
        ) == Some(frame as int),
        operation matches Operation::Stream { credit } ==> answer_bytes(operation, frame, sized)
            == Some(vstd::math::min(credit as int, frame as int)),
        operation matches Operation::Read { seed_scan: Some(bytes), .. } ==> answer_bytes(
            operation,
            frame,
            sized,
        ) == Some(2 * vstd::math::min(bytes as int, frame as int)),
        operation matches Operation::Read { seed_scan: None, .. } ==> answer_bytes(
            operation,
            frame,
            sized,
        ) == Some(frame as int),
        operation is Monitor || operation is Summary || operation is Reconcile || operation
            is Managed || operation is RequestStreamControl || operation is RequestStreamRead
            ==> answer_bytes(operation, frame, sized) == (match sized {
            Some(bytes) => Some(bytes as int),
            None => None::<int>,
        }),
{
}

/// What work costs the scheduler is its charge, no less than one and no more than
/// sixty-four kibibytes.
pub proof fn a_cost_is_its_charge_within_bounds(charge: Option<usize>, bytes: usize)
    ensures
        1 <= cost_of(charge) <= 65536,
        1 <= bytes <= 65536 ==> cost_of(Some(bytes)) == bytes,
        bytes > 65536 ==> cost_of(Some(bytes)) == 65536,
        cost_of(None) == 1,
{
}

/// A worker sleeps to its first session's time, never past it and never longer
/// than a tenth of a second.
pub proof fn a_worker_sleeps_to_its_first_session(wake: u64, now: u64)
    ensures
        wake <= now ==> slept(wake, now) == 0,
        wake > now ==> 0 < slept(wake, now) <= wake - now,
        slept(wake, now) <= 100_000_000,
        wake > now && wake - now <= 100_000_000 ==> slept(wake, now) == wake - now,
        wake > now && wake - now > 100_000_000 ==> slept(wake, now) == 100_000_000,
{
}

/// A worker's tasks come in turn: sessions that are due, work that arrived, work
/// that is scheduled; each while it has more and its slice lasts. Behind them it
/// begins again where something can run, and sleeps where nothing can.
pub proof fn tasks_come_in_turn(cycle: Cycle, done: bool, blocked: bool)
    requires
        cycle.wf(),
        !done,
    ensures
        cycle.task == Task::Due ==> cycle.next(Did::Nothing, done).1 == Do::Input,
        cycle.task == Task::Due ==> cycle.next(Did::One, done).1 == (if cycle.left > 1 {
            Do::Due
        } else {
            Do::Input
        }),
        cycle.task == Task::Input ==> cycle.next(Did::Nothing, done).1 == Do::Schedule,
        cycle.task == Task::Input ==> cycle.next(Did::One, done).1 == (if cycle.left > 1 {
            Do::Input
        } else {
            Do::Schedule
        }),
        cycle.task == Task::Schedule ==> cycle.next(Did::One, done).1 == (if cycle.left > 1 {
            Do::Schedule
        } else {
            Do::Due
        }),
        cycle.task == Task::Schedule ==> cycle.next(Did::Nothing, done).1 == Do::Sleep,
        cycle.task == Task::Schedule ==> cycle.next(Did::Later { blocked }, done).1 == (if blocked {
            Do::Sleep
        } else {
            Do::Due
        }),
        cycle.task == Task::Schedule && cycle.left > 1 ==> cycle.next(Did::Stale, done).1
            == Do::Schedule,
        cycle.task == Task::Sleep ==> cycle.next(Did::Nothing, done).1 == Do::Due && cycle.next(
            Did::One,
            done,
        ).1 == Do::Due,
        cycle.task != Task::Stopped ==> cycle.next(Did::End, done).1 == Do::Stop,
        cycle.task == Task::Stopped ==> cycle.next(Did::One, done).1 == Do::Stop,
{
}

/// A worker that is done stops when its turn ends, and not within it.
pub proof fn a_worker_stops_when_its_turn_ends(cycle: Cycle, did: Did)
    requires
        cycle.wf(),
        cycle.task != Task::Stopped,
        !(did is End),
    ensures
        cycle.next(did, true).1 == Do::Stop <==> cycle.next(did, false).1 == Do::Due && !(
        cycle.task == Task::Due),
        cycle.task == Task::Sleep ==> cycle.next(did, true).1 == Do::Stop,
        cycle.next(did, false).1 == Do::Due && cycle.task != Task::Due ==> cycle.next(
            did,
            false,
        ).0.left == SLICE,
{
}

/// A change brings in the node it adds or promotes.
pub proof fn a_change_brings_in_its_node(node: u64)
    ensures
        (MembershipChange::AddLearner { node }).brings() == Some(node),
        (MembershipChange::Promote { node }).brings() == Some(node),
        (MembershipChange::Remove { node }).brings() is None,
        MembershipChange::Leave.brings() is None,
{
}

/// A call whose receipt stands asks for its read; the answer to that very read
/// shows the members, while the receipt still stands; a later configuration is a
/// conflict. A member that was added calls for a checkpoint.
pub proof fn a_call_is_answered_behind_its_own_read(
    call: PendingMembership,
    events: Events,
    at: int,
    error: LedgerError,
)
    ensures
        call.reading is None ==> call.looked(Ok(true), events) == Look::Read && call.looked(
            Ok(false),
            events,
        ) == Look::Keep,
        call.looked(Err(error), events) == Look::Finish(error),
        (call.reading matches Some(nonce) && 0 <= at < events.read_barriers@.len()
            && events.read_barriers@[at].0@ == context_of("focal.membership.read.v1\0"@, nonce))
            ==> call.looked(Ok(true), events) == (Look::View {
            due: call.change matches Some(MembershipChange::AddLearner { .. }),
        }) && call.looked(Ok(false), events) == Look::Finish(LedgerError::MembershipConflict),
        (call.reading matches Some(nonce) && forall|i: int|
            0 <= i < events.read_barriers@.len() ==> #[trigger] events.read_barriers@[i].0@
                != context_of("focal.membership.read.v1\0"@, nonce)) ==> call.looked(
            Ok(true),
            events,
        ) == Look::Keep,
{
    if let Some(nonce) = call.reading {
        lemma_answered(
            events.read_barriers@,
            context_of("focal.membership.read.v1\0"@, nonce),
            at,
        );
    }
}

proof fn lemma_answered(barriers: Seq<(Vec<u8>, u64)>, context: Seq<u8>, at: int)
    ensures
        0 <= at < barriers.len() && barriers[at].0@ == context ==> super::resolve::prefix_of(
            barriers,
            context,
        ) is Some,
        (forall|i: int| 0 <= i < barriers.len() ==> #[trigger] barriers[i].0@ != context)
            ==> super::resolve::prefix_of(barriers, context) is None,
    decreases barriers.len(),
{
    if barriers.len() > 0 {
        let rest = barriers.drop_first();
        lemma_answered(rest, context, at - 1);
        if forall|i: int| 0 <= i < barriers.len() ==> #[trigger] barriers[i].0@ != context {
            assert(barriers[0].0@ != context);
            assert forall|i: int| 0 <= i < rest.len() implies #[trigger] rest[i].0@ != context by {
                assert(barriers[i + 1].0@ != context);
            }
        }
    }
}

/// A call is over where its caller left, its term ended, the lead was lost or its
/// deadline passed; time alone ends it where its caller left or its deadline
/// passed.
pub proof fn when_a_call_is_over(call: PendingMembership, term: u64, leader: bool, now: u64)
    ensures
        call.over(term, leader, now) <==> call.closed || call.term != term || !leader || now
            >= call.deadline,
        call.expires(now) <==> call.closed || now >= call.deadline,
{
}

/// The node that joins next is the first that a call waits to bring in: one not
/// proposed yet, whose caller is still there.
pub proof fn the_first_call_joins_first<T>(
    calls: Seq<(T, PendingMembership)>,
    from: int,
    at: int,
    node: u64,
)
    requires
        0 <= from <= at < calls.len(),
        calls[at].1.change == Some(MembershipChange::AddLearner { node }) || calls[at].1.change
            == Some(MembershipChange::Promote { node }),
        !calls[at].1.proposed,
        !calls[at].1.closed,
        forall|i: int|
            from <= i < at ==> (#[trigger] calls[i]).1.proposed || calls[i].1.closed
                || calls[i].1.change is None || calls[i].1.change->0 is Remove
                || calls[i].1.change->0 is Leave,
    ensures
        joins(calls, from) == Some(node),
    decreases at - from,
{
    if from < at {
        let call = calls[from].1;
        assert(call.proposed || call.closed || call.change is None || call.change->0 is Remove
            || call.change->0 is Leave);
        the_first_call_joins_first(calls, from + 1, at, node);
    }
}

/// What is known of managed work decides its floor: what is not identified, what
/// has its receipt, and what its key's own refusal answers goes on; what this
/// owner does not propose goes on to be refused; the rest waits for every voter.
/// A probe of a member waits only for this node's own promise.
pub proof fn the_floor_under_managed_work(
    owner: Owner,
    verified: VerifiedRequest,
    known: Known,
)
    ensures
        ({
            let operation = verified.request.operation;
            let cluster = match operation {
                Operation::Managed { key, .. } => key.stream.cluster,
                Operation::RequestStreamControl { cluster, .. } => cluster,
                _ => owner.cluster,
            };
            let proposes = cluster == owner.cluster && verified.request.ledger == owner.ledger
                && owner.serves(verified.request.route_epoch) && owner.authoritative;
            let gate = owner.gate(verified, known);
            &&& operation is Managed && !known.identified ==> gate == GateStep::Open
            &&& (operation is Managed && known.identified || operation is RequestStreamControl) ==> {
                &&& known.receipt == Ok::<bool, LedgerError>(true) ==> gate == GateStep::Open
                &&& known.receipt == Ok::<bool, LedgerError>(false) ==> gate == (if proposes {
                    GateStep::Promise { all: true }
                } else {
                    GateStep::Open
                })
                &&& known.receipt == Err::<bool, LedgerError>(
                    LedgerError::Managed(ManagedError::Conflict),
                ) ==> gate == GateStep::Open
                &&& (known.receipt matches Err(error) && !(error is Managed)) ==> gate
                    == GateStep::Refuse(known.receipt->Err_0)
            }
            &&& operation matches Operation::ManagedSupport { group } ==> gate == (
            match verified.peer.role {
                PeerRole::Node { node_id } if verified.request.ledger == owner.ledger && group
                    == owner.group && verified.request.route_epoch == owner.route_epoch
                    && owner.member(node_id) => GateStep::Promise { all: false },
                _ => GateStep::Open,
            })
            &&& !(operation is Managed) && !(operation is RequestStreamControl) && !(operation
                is ManagedSupport) ==> gate == GateStep::Open
        }),
{
}

proof fn lemma_has_least(set: Set<u64>, n: u64)
    requires
        set.contains(n),
    ensures
        is_least(set, least(set)),
    decreases n,
{
    if forall|m: u64| #[trigger] set.contains(m) ==> n <= m {
        assert(is_least(set, n));
    } else {
        let m = choose|m: u64| #[trigger] set.contains(m) && m < n;
        lemma_has_least(set, m);
    }
}

/// Only those whose promise is needed are asked, none twice, and each in turn:
/// the next is the least beyond the last one asked, and from the start again only
/// where none is beyond.
pub proof fn those_needed_are_asked_in_turn(pool: Set<u64>, asked: Seq<u64>, cursor: u64)
    ensures
        match next_target(pool, asked, cursor) {
            None => forall|n: u64| #[trigger] pool.contains(n) ==> asked.contains(n),
            Some(node) => {
                &&& pool.contains(node)
                &&& !asked.contains(node)
                &&& node > cursor ==> forall|n: u64|
                    #[trigger] pool.contains(n) && !asked.contains(n) && n > cursor ==> node <= n
                &&& node <= cursor ==> forall|n: u64|
                    #[trigger] pool.contains(n) && !asked.contains(n) ==> node <= n && n <= cursor
            },
        },
{
    let rest = remaining(pool, asked);
    let ahead = beyond(rest, cursor);
    if exists|n: u64| ahead.contains(n) {
        let n = choose|n: u64| ahead.contains(n);
        lemma_has_least(ahead, n);
        assert forall|m: u64|
            #[trigger] pool.contains(m) && !asked.contains(m) && m > cursor implies least(ahead)
            <= m by {
            assert(ahead.contains(m));
        }
    } else if exists|n: u64| rest.contains(n) {
        let n = choose|n: u64| rest.contains(n);
        lemma_has_least(rest, n);
        assert forall|m: u64| #[trigger] pool.contains(m) && !asked.contains(m) implies least(rest)
            <= m && m <= cursor by {
            assert(rest.contains(m));
            assert(!ahead.contains(m));
        }
        assert(!ahead.contains(least(rest)));
    } else {
        assert forall|n: u64| #[trigger] pool.contains(n) implies asked.contains(n) by {
            assert(!rest.contains(n));
        }
    }
}

/// Whoever is asked was asked already or is needed, nobody is asked twice, and
/// those asked first stay first.
pub proof fn nobody_is_asked_twice(pool: Set<u64>, asked: Seq<u64>, cursor: u64)
    requires
        asked.no_duplicates(),
    ensures
        ({
            let all = asked_from(pool, asked, cursor).0;
            &&& all.no_duplicates()
            &&& asked.is_prefix_of(all)
            &&& forall|i: int| asked.len() <= i < all.len() ==> pool.contains(#[trigger] all[i])
        }),
    decreases super::support::MAX_TARGETS - asked.len(),
{
    those_needed_are_asked_in_turn(pool, asked, cursor);
    if asked.len() < super::support::MAX_TARGETS {
        if let Some(node) = next_target(pool, asked, cursor) {
            assert(asked.push(node).no_duplicates());
            nobody_is_asked_twice(pool, asked.push(node), node);
            let all = asked_from(pool, asked.push(node), node).0;
            assert forall|i: int| asked.len() <= i < all.len() implies pool.contains(
                #[trigger] all[i],
            ) by {
                if i == asked.len() {
                    assert(all[i] == asked.push(node)[i]);
                }
            }
            assert(asked.is_prefix_of(all)) by {
                assert forall|i: int| 0 <= i < asked.len() implies asked[i] == all[i] by {
                    assert(asked.push(node)[i] == all[i]);
                }
                assert(asked =~= all.subrange(0, asked.len() as int));
            }
        }
    }
}

/// Tenants fit where each is named, within the node's budget, and another than
/// every other.
pub proof fn tenants_are_each_once(tenants: Seq<FleetTenant>)
    ensures
        tenants_fit(tenants) <==> (forall|i: int|
            0 <= i < tenants.len() ==> !zero_16((#[trigger] tenants[i]).tenant)
                && tenants[i].within) && (forall|i: int, j: int|
            0 <= j < i < tenants.len() ==> (#[trigger] tenants[j]).tenant != (
            #[trigger] tenants[i]).tenant),
{
    if tenants_fit(tenants) {
        assert forall|i: int, j: int| 0 <= j < i < tenants.len() implies (
        #[trigger] tenants[j]).tenant != (#[trigger] tenants[i]).tenant by {
            assert(!super::group::hosted(tenants, tenants[i].tenant, i));
        }
    }
}

/// What is looked at first is due no later than anything else, of two at once the
/// lesser ledger; and of two sessions one comes before the other.
pub proof fn the_foremost_session_is_due_first(
    sessions: Seq<GroupSession>,
    at: int,
    a: GroupSession,
    b: GroupSession,
)
    ensures
        foremost(sessions, at) ==> 0 <= at < sessions.len() && forall|i: int|
            0 <= i < sessions.len() ==> sessions[at].wake_at <= (#[trigger] sessions[i]).wake_at,
        a.wake_at < b.wake_at ==> earlier(a, b) && !earlier(b, a),
        a.wake_at == b.wake_at && a.ledger != b.ledger ==> (earlier(a, b) <==> !earlier(b, a)) && (
        earlier(a, b) <==> a.ledger.below(b.ledger)),
{
    crate::ids::ledgers_are_ordered(a.ledger, b.ledger, a.ledger);
    if foremost(sessions, at) {
        assert forall|i: int| 0 <= i < sessions.len() implies sessions[at].wake_at <= (
        #[trigger] sessions[i]).wake_at by {
            if i != at {
                assert(earlier(sessions[at], sessions[i]));
            }
        }
    }
}

/// What was installed is there, runs and is counted, can be said again, and
/// leaves every other session as it was.
pub proof fn what_was_installed_is_there(
    before: FleetManager,
    after: FleetManager,
    sequence: u64,
    made: FleetInstallation,
    running: nat,
    other: LedgerId,
)
    requires
        before.installs_into(after, sequence, made, running),
        before.entries@.len() < usize::MAX,
        running <= usize::MAX,
    ensures
        after.entry(made.ledger) matches Some(entry) && entry.installation == made
            && !entry.stopped,
        other != made.ledger ==> after.entry(other) == before.entry(other),
        after.again(sequence) == Ok::<FleetInstallation, FleetError>(made),
        after.sequence == sequence && after.status.latest_sequence == sequence,
        after.status.installed == before.entries@.len() + 1 && after.status.running == running,
        !after.status.stopped && after.quiesced == before.quiesced && after.owner == before.owner
            && after.max_sessions == before.max_sessions && after.tenants == before.tenants,
{
}

/// What was removed is gone, is counted no more, and leaves every other session
/// as it was.
pub proof fn what_was_removed_is_gone(
    before: FleetManager,
    after: FleetManager,
    group: GroupOwner,
    sequence: u64,
    removal: FleetRemoval,
    running: nat,
    other: LedgerId,
)
    requires
        before.removes_from(after, sequence, removal, running),
        0 < before.entries@.len() <= usize::MAX,
        running <= usize::MAX,
    ensures
        after.entry(removal.ledger) is None,
        other != removal.ledger ==> after.entry(other) == before.entry(other),
        after.removes(group, sequence, removal) == Ok::<FleetRemoval, FleetError>(removal),
        after.sequence == sequence && after.status.latest_sequence == sequence,
        after.status.installed == before.entries@.len() - 1 && after.status.running == running,
        !after.status.stopped && after.quiesced == before.quiesced && after.owner == before.owner
            && after.max_sessions == before.max_sessions && after.tenants == before.tenants,
{
}

/// A session that was seated is looked at at once, under its own incarnation, and
/// does not stop; the others stay as they were.
pub proof fn a_seated_session_is_looked_at(
    before: GroupOwner,
    after: GroupOwner,
    ledger: LedgerId,
    incarnation: u64,
    now: u64,
    other: LedgerId,
)
    requires
        seats(before, after, ledger, incarnation, now),
    ensures
        after.session(ledger) matches Some(session) && session.ledger == ledger
            && session.incarnation == incarnation && session.wake_at == now && !session.stopping
            && !session.persistence,
        other != ledger ==> after.session(other) == before.session(other),
        after.sessions@.len() == before.sessions@.len() + 1,
{
}

/// The next running session is the first beyond the last one, in the order of
/// their ledgers.
pub proof fn running_sessions_come_in_order(
    entries: Seq<Entry>,
    after: Option<LedgerId>,
    i: int,
    j: int,
)
    requires
        ordered(entries),
        first_running(entries, after, i),
        0 <= j < entries.len(),
    ensures
        !entries[i].stopped,
        after matches Some(last) ==> last.below(entries[i].installation.ledger),
        !entries[j].stopped && (after matches Some(last) ==> last.below(
            entries[j].installation.ledger,
        )) && j != i ==> entries[i].installation.ledger.below(entries[j].installation.ledger),
{
    if j < i {
        assert(!runs_after(entries[j], after));
    }
}

/// The manager is answered by what it asked for.
pub proof fn a_manager_is_answered_what_it_asked(
    fleet: FleetManager,
    group: GroupOwner,
    sequence: u64,
    candidate: Candidate,
    granted: bool,
    ledger: LedgerId,
    removal: FleetRemoval,
)
    ensures
        fleet.replies(group, ManagementWork::Install { sequence, candidate, granted })
            == ManagementReply::Installed(fleet.installs(sequence, candidate, granted)),
        fleet.replies(group, ManagementWork::Retry { sequence }) == ManagementReply::Installed(
            fleet.again(sequence),
        ),
        fleet.replies(group, ManagementWork::Remove { sequence, removal })
            == ManagementReply::Removed(fleet.removes(group, sequence, removal)),
        fleet.replies(group, ManagementWork::Inspect { ledger }) matches
            ManagementReply::Inspected(found) && (match fleet.entry(ledger) {
            Some(entry) => found == Some(entry.installation),
            None => found is None,
        }),
        fleet.replies(group, ManagementWork::Quiesce) is Done,
        fleet.replies(group, ManagementWork::Shutdown) is Done,
{
}

/// A node about to join is asked first where its promise is needed; a promise
/// still being written keeps the work waiting, and any other failure is told.
pub proof fn a_joining_node_is_asked_first(
    node: u64,
    needing: Set<u64>,
    outcome: Result<(), LedgerError>,
)
    ensures
        needing.contains(node) ==> first_asked(Some(node), needing) == seq![node],
        !needing.contains(node) ==> first_asked(Some(node), needing).len() == 0,
        first_asked(None, needing).len() == 0,
        outcome is Ok ==> promising(outcome) == Ok::<bool, LedgerError>(true),
        promising(Err(LedgerError::Consensus(ConsensusError::PersistencePending))) == Ok::<
            bool,
            LedgerError,
        >(false),
        (outcome matches Err(error) && error != LedgerError::Consensus(
            ConsensusError::PersistencePending,
        )) ==> promising(outcome) == Err::<bool, LedgerError>(outcome->Err_0),
{
}

/// A checkpoint waits while anything is under way; what a lack of room, a log that
/// is not written or an index that is not reached refuses is only early.
pub proof fn a_checkpoint_waits_for_what_is_under_way(busy: Busy, log: Log, retryable: bool)
    ensures
        busy.waits() <==> busy.pending > 0 || busy.persistence || busy.checkpoint
            || busy.stopping,
        early(LedgerError::Capacity) && early(
            LedgerError::Consensus(ConsensusError::PersistencePending),
        ) && early(LedgerError::Consensus(ConsensusError::Capacity)) && early(
            LedgerError::Consensus(ConsensusError::CheckpointIndex),
        ),
        early(LedgerError::Native { retryable }) <==> retryable,
        !early(LedgerError::Failed) && !early(LedgerError::OutcomeUnknown),
        log.applied_index >= log.snapshot_index ==> log.snapshot_index + log.kept()
            == log.applied_index,
        log.applied_index < log.snapshot_index ==> log.kept() == 0,
{
}

/// An answer that was lost leaves no doubt where the request only reads, or where
/// the call changes nothing that lasts.
pub proof fn a_lost_answer_leaves_no_doubt_of_a_read(operation: Operation, call: HostCall)
    ensures
        operation is Submit || operation is Managed || operation is Native || operation
            is RequestStreamControl || operation is OpenEpoch || operation is Raft || operation
            is Upload ==> !only_reads(operation),
        operation is Summary || operation is Monitor || operation is Reconcile || operation
            is RequestStreamRead || operation is ManagedSupport || operation is NativeRead
            || operation is NativeList ==> only_reads(operation),
        call.loss() == LedgerError::Failed <==> call is TransferLeader || call is Stop || call
            is Diagnostics,
        call.loss() == LedgerError::Failed || call.loss() == LedgerError::OutcomeUnknown,
{
}

/// A replica runs under a root, a route and a policy of its own, with at least one
/// place in each queue and no more than a thousand and twenty-four, ticking
/// between a hundredth of a second and a second, and answering within a minute.
pub proof fn what_a_replica_can_run_with(config: ReplicaConfig)
    ensures
        config.valid() <==> {
            &&& !zero_16(config.root) && config.route_epoch != 0 && config.policy_revision != 0
            &&& 0 < config.queue_items <= 1024 && 0 < config.pending_clients <= 1024 && 0
                < config.replication_queue <= 1024
            &&& 10_000_000 <= config.tick <= 1_000_000_000
            &&& 0 < config.request_timeout <= 60_000_000_000
        },
{
}

/// A writer that was never opened has failed; one that is another's, beyond its
/// bounds or there twice lacks its room.
pub proof fn why_a_writer_is_refused(writers: Seq<Writer>, i: int, cluster: [u8; 16], node: u64)
    requires
        0 <= i < writers.len(),
    ensures
        writers[i].of is None ==> writer_refused(writers, i, cluster, node) == Some(
            LedgerError::Failed,
        ),
        writers[i].of is Some ==> (writer_refused(writers, i, cluster, node) is None
            || writer_refused(writers, i, cluster, node) == Some(LedgerError::Capacity)),
{
}

/// A candidate fits a fleet where it is of this node and cluster and of an
/// admitted tenant, names a session and one of the fleet's writers, and can run as
/// it is set up, at the route it was activated at.
pub proof fn when_a_candidate_fits(fleet: FleetManager, candidate: Candidate)
    ensures
        fleet.fits(candidate) ==> candidate.node == fleet.node && candidate.cluster
            == fleet.cluster && candidate.budgeted && !zero_16(candidate.ledger.session)
            && candidate.config.valid() && candidate.config.queue_items >= 4,
        fleet.fits(candidate) && candidate.active_route is Some ==> candidate.active_route->0
            == candidate.config.route_epoch,
        fleet.fits(candidate) ==> exists|i: int|
            0 <= i < fleet.tenants@.len() && #[trigger] fleet.tenants@[i].tenant
                == candidate.ledger.tenant,
        fleet.fits(candidate) ==> super::request::named(fleet.writers@, candidate.writer)
            && fleet.limits.max_frame_bytes >= super::MIN_FRAME_BYTES,
        candidate.node == fleet.node && candidate.cluster == fleet.cluster && candidate.budgeted
            && !zero_16(candidate.ledger.session) && candidate.config.valid()
            && candidate.config.queue_items >= 4 && (candidate.active_route is None
            || candidate.active_route->0 == candidate.config.route_epoch)
            && super::request::named(fleet.writers@, candidate.writer)
            && fleet.limits.max_frame_bytes >= super::MIN_FRAME_BYTES && (exists|i: int|
            0 <= i < fleet.tenants@.len() && #[trigger] fleet.tenants@[i].tenant
                == candidate.ledger.tenant) ==> fleet.fits(candidate),
{
}

/// A promise is needed of a voter, old or new, that has not given it, and of nobody
/// once the protocol is active; work waits while one is owed.
pub proof fn whose_promise_is_needed(
    fact: ManagedFormatSupport,
    needing: Set<u64>,
    active: bool,
    node: u64,
)
    ensures
        pool(fact, needing, active).contains(node) <==> !active && needing.contains(node) && (
        fact.voters@.contains(node) || fact.voters_outgoing@.contains(node)),
        owes(fact, needing) <==> exists|n: u64| #[trigger] pool(fact, needing, false).contains(n),
        fact.members() == fact.voters@.len() + fact.learners@.len() + fact.voters_outgoing@.len()
            + fact.learners_next@.len(),
{
    assert(super::request::named(fact.voters@, node) <==> fact.voters@.contains(node));
    assert(super::request::named(fact.voters_outgoing@, node) <==> fact.voters_outgoing@.contains(
        node,
    ));
    if owes(fact, needing) {
        let n = choose|n: u64| #[trigger] fact.voter(n) && needing.contains(n);
        assert(pool(fact, needing, false).contains(n));
    }
    if exists|n: u64| #[trigger] pool(fact, needing, false).contains(n) {
        let n = choose|n: u64| #[trigger] pool(fact, needing, false).contains(n);
        assert(fact.voter(n));
    }
}

/// A managed key's own refusals answer its work; what the node lacks does not. A
/// fact that is still being written keeps the work waiting.
pub proof fn which_refusals_answer(fact: Result<ManagedFormatSupport, LedgerError>)
    ensures
        answers(LedgerError::Managed(ManagedError::InvalidIdentity)) && answers(
            LedgerError::Managed(ManagedError::NotRegistered),
        ) && answers(LedgerError::Managed(ManagedError::Conflict)) && answers(
            LedgerError::Managed(ManagedError::Closed),
        ) && answers(LedgerError::Managed(ManagedError::Retired)),
        !answers(LedgerError::Capacity) && !answers(LedgerError::Failed) && !answers(
            LedgerError::OutcomeUnknown,
        ) && !answers(LedgerError::Retry),
        fact matches Ok(known) ==> told(fact) == Ok::<Option<ManagedFormatSupport>, LedgerError>(
            Some(known),
        ),
        told(Err(LedgerError::Consensus(ConsensusError::PersistencePending))) == Ok::<
            Option<ManagedFormatSupport>,
            LedgerError,
        >(None),
        told(Err(LedgerError::Failed)) == Err::<Option<ManagedFormatSupport>, LedgerError>(
            LedgerError::Failed,
        ),
{
}

/// What is shown of a replica is of one replica only: two that are shown alike
/// stand alike.
pub proof fn a_replica_is_shown_as_it_stands(
    shown: ReplicaDiagnostics,
    a: SessionFacts,
    b: SessionFacts,
    session: Seq<char>,
)
    requires
        shown.shows(a, session),
        shown.shows(b, session),
    ensures
        a.node == b.node && a.cluster@ == b.cluster@ && a.group@ == b.group@,
        a.leader == b.leader && a.term == b.term && a.sequence == b.sequence && a.pending
            == b.pending,
        a.committed_index == b.committed_index && a.applied_index == b.applied_index,
        a.authoritative == b.authoritative && a.persistence_pending == b.persistence_pending
            && a.checkpoint_pending == b.checkpoint_pending,
        a.compiled_decoder@ == b.compiled_decoder@ && (a.required_decoder is Some
            == b.required_decoder is Some),
        a.required_decoder is Some ==> a.required_decoder->0@ == b.required_decoder->0@,
        a.managed_active == b.managed_active && a.native_active == b.native_active
            && a.native_authoritative == b.native_authoritative && a.native_import_pending
            == b.native_import_pending,
        shown.leader == a.leader && shown.term == a.term && shown.committed_index
            == a.committed_index && shown.applied_index == a.applied_index && shown.sequence
            == a.sequence,
{
    bytes_are_read_back_from_hex(a.cluster@, b.cluster@);
    bytes_are_read_back_from_hex(a.group@, b.group@);
    bytes_are_read_back_from_hex(a.compiled_decoder@, b.compiled_decoder@);
    if a.required_decoder is Some {
        bytes_are_read_back_from_hex(a.required_decoder->0@, b.required_decoder->0@);
    }
}

/// A command is charged to the lane it names, whatever it brings.
pub proof fn a_command_is_charged_to_its_lane(artifact: NewArtifact, lane: Lane)
    ensures
        (Command::Plain { lane }).charged_to() == lane,
        (Command::AttachArtifact { artifact, lane }).charged_to() == lane,
        (Command::RegisterArtifact { artifact, lane }).charged_to() == lane,
        (Command::FailTestamentGeneration { error: artifact, lane }).charged_to() == lane,
        charged(Operation::Submit { command: Command::Plain { lane } }) == lane,
{
}

/// A fleet that quiesced is unavailable to what would be installed next.
pub proof fn a_quiesced_fleet_is_unavailable(
    fleet: FleetManager,
    candidate: Candidate,
    granted: bool,
)
    requires
        fleet.quiesced,
        fleet.sequence < u64::MAX,
    ensures
        fleet.installs((fleet.sequence + 1) as u64, candidate, granted) == Err::<
            FleetInstallation,
            FleetError,
        >(FleetError::Unavailable),
{
}

/// A fleet runs on a node, with at least one replica and one tenant, and no more
/// than it can hold.
pub proof fn what_a_fleet_can_hold(node: u64, replicas: int, tenants: int)
    ensures
        node == 0 || replicas < 1 || tenants < 1 || replicas > 4096 || tenants > 1024
            <==> !ReplicaFleet::sized(node, replicas, tenants),
{
}

/// Members stand at an index where they were set there, every one in its place.
pub proof fn members_stand_where_they_were_set(
    view: MembershipView,
    index: u64,
    configuration: Configuration,
)
    ensures
        view.is_at(index, configuration) ==> view.configuration_index == index
            && view.configuration.voters@ == configuration.voters@ && view.configuration.learners@
            == configuration.learners@ && view.configuration.voters_outgoing@
            == configuration.voters_outgoing@ && view.configuration.learners_next@
            == configuration.learners_next@ && view.configuration.auto_leave
            == configuration.auto_leave,
        view.is_at(view.configuration_index, view.configuration),
{
}

} // verus!
