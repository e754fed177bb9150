use focal_node::access::AccessError;
use focal_node::directory::authority::Configuration;
use focal_node::directory::ConsensusError;
use focal_node::evidence::request::{EvidenceAttestation, EvidenceWitness};
use focal_node::evidence::CustodyScope;
use focal_node::fleet::accept::{Acceptance, Act, Acted, Gate, Work};
use focal_node::fleet::diagnostics::{ReplicaDiagnostics, SessionFacts, DIAGNOSTICS_BYTES};
use focal_node::fleet::export::{
    accept_evidence, begin_evidence, cancelled, finish_evidence, lease, progress_evidence, Begun,
    Export, ExportFacts, Exported, Outcome,
};
use focal_node::fleet::group::{
    bookkeeping, class, finished, goes_on, handle_bytes, lane, quota, shared_bytes, try_send,
    Cycle, Did, Do, Enqueued, FleetReplica, FleetTenant, GroupOwner, ReplicaFleet, Seat, WorkClass, STACK_BYTES,
};
use focal_node::fleet::host::HostCall;
use focal_node::fleet::management::{
    managed_bookkeeping, policy_bytes, Candidate, FleetError, FleetIncarnation, FleetManager, FleetRemoval, FleetReply,
    FleetStatus, ManagedFleetConfig, ManagementReply, ManagementWork, StopAll, Writer,
};
use focal_node::fleet::membership::{
    accept_membership, expire_memberships, joining, room, Look, MembershipChange, MembershipRequest,
    MembershipView, PendingMembership,
};
use focal_node::fleet::owner::{begin_stop, transfer, Busy, Fence, Log, Serving, Waits};
use focal_node::fleet::progress::{
    frame_id, Alone, AloneDid, AloneTurn, DrainTurn, Drained, Draining, Progress, Seen, Tick,
    TickTurn, Ticked, Turn,
};
use focal_node::fleet::request::{
    supported, Checked, Correlation, Dispatch, Effect, Owner, Proposal, Purpose, Settled,
    Submission, Ticket,
};
use focal_node::fleet::resolve::{
    close, expire_pending, native_settled, questions, resolve, Events, Fate, Found, NativeSettled,
    Pending, Question, ReadToken, WaitingFor,
};
use focal_node::fleet::support::{
    carried, defer_room, deferred, gate_opens, gated, grown, support_gate, targets, Deferred, GateStep, Known,
    ManagedFormatSupport, ManagedSupportReply,
};
use focal_node::fleet::{
    call_charge, completion_request, lost, probe_receipt, refence, response_bytes, submit,
    Admission, HostQueue, LedgerError, ManagedError, ReplicaConfig, ReplicaProgress, SessionStatus,
    WireLimits, MEMBERSHIP_BYTES, MILLISECOND, SECOND,
};
use focal_node::ids::LedgerId;
use focal_node::operation::{
    ArtifactPayload, Command, Lane, ManagedOperation, ManagedRequestKey, NativeHeader, NewArtifact,
    Operation, Peer, PeerRole, Request, RequestStreamCommand, RequestStreamIdentity, VerifiedRequest,
};
use std::collections::{BTreeSet, VecDeque};

fn id(n: u128) -> [u8; 16] {
    n.to_be_bytes()
}
fn ledger(session: u128) -> LedgerId {
    LedgerId {
        tenant: id(1),
        session: id(session),
    }
}
fn owner() -> Owner {
    Owner {
        ledger: ledger(2),
        cluster: [7; 16],
        group: id(2),
        route_epoch: 1,
        policy_revision: 1,
        active_route: None,
        cutover: false,
        voters: vec![1, 2, 3],
        learners: vec![4],
        authoritative: true,
        leader: true,
        term: 6,
        stopping: false,
        pending: 0,
        pending_clients: 2,
        nonce: 8,
        native_hosted: false,
        clock: true,
    }
}
fn verified(operation: Operation) -> VerifiedRequest {
    VerifiedRequest {
        request: Request {
            ledger: ledger(2),
            route_epoch: 1,
            request_epoch: 1,
            request_id: id(9),
            operation,
        },
        peer: Peer {
            principal: id(5),
            role: PeerRole::Participant,
        },
    }
}
fn peer(node: u64, operation: Operation) -> VerifiedRequest {
    let mut verified = verified(operation);
    verified.peer.role = PeerRole::Node { node_id: node };
    verified
}
fn checked() -> Checked {
    Checked {
        valid: Ok(()),
        served: true,
        evidenced: false,
    }
}
fn limits() -> WireLimits {
    WireLimits {
        max_frame_bytes: 1024 * 1024,
        max_cost: 1,
        max_items: 100,
    }
}
fn waiting(waiting: WaitingFor) -> Pending<u32> {
    Pending {
        token: 1,
        waiting,
        principal: id(5),
        request: id(9),
        route_epoch: 1,
        term: 6,
        deadline: 100,
        closed: false,
        interrupted: AccessError::OutcomeUnknown,
    }
}
fn ticket(purpose: Purpose) -> Ticket {
    Ticket {
        purpose,
        nonce: 9,
        principal: id(5),
        request: id(9),
    }
}
fn quorum(purpose: Purpose) -> WaitingFor {
    WaitingFor::Quorum(ticket(purpose))
}
fn read() -> Correlation {
    Correlation {
        principal: id(5),
        request: id(9),
        nonce: 9,
    }
}
/// The barriers of these purposes were answered, at prefix 44.
fn answered(purposes: &[Purpose]) -> Events {
    Events {
        read_barriers: purposes
            .iter()
            .map(|purpose| (ticket(*purpose).context(), 44))
            .collect(),
        native_read_boundaries: vec![read()],
    }
}
fn nothing() -> Events {
    Events {
        read_barriers: Vec::new(),
        native_read_boundaries: Vec::new(),
    }
}

#[test]
fn quorum_list_requires_fresh_barrier_and_continuations_keep_the_committed_prefix() {
    // A previously authoritative leader cannot answer a new list without a
    // current quorum read.
    let first = verified(Operation::List { resumed: false });
    assert_eq!(
        owner().request(&first, &checked()),
        Dispatch::Barrier(ticket(Purpose::List))
    );
    let mut expected = b"focal.replica.list.v1\0".to_vec();
    expected.extend_from_slice(&9u64.to_be_bytes());
    expected.extend_from_slice(&id(5));
    expected.extend_from_slice(&id(9));
    assert_eq!(ticket(Purpose::List).context(), expected);
    let page = waiting(quorum(Purpose::List));
    assert_eq!(page.question(&owner(), &nothing()), Question::Nothing);
    assert_eq!(
        page.question(&owner(), &answered(&[Purpose::Read, Purpose::List])),
        Question::ReadAfter { prefix: 44 }
    );
    // Exact pages need no new quorum exchange.
    let next = verified(Operation::List { resumed: true });
    assert_eq!(owner().request(&next, &checked()), Dispatch::Serve);
    // A minority's list expires.
    let mut queue = VecDeque::from([waiting(quorum(Purpose::List))]);
    // What happens to be published is no answer before the barrier is there.
    let found = vec![Found::Reply];
    assert!(resolve(&mut queue, &owner(), &nothing(), &found, 50).is_empty());
    let done = expire_pending(&mut queue, 100);
    assert_eq!(done[0].1, Fate::Ended(AccessError::Unavailable));
    assert!(queue.is_empty());
    // A follower answers no list.
    let mut follower = owner();
    follower.authoritative = false;
    assert_eq!(
        follower.request(&first, &checked()),
        Dispatch::Refuse(AccessError::Unavailable)
    );
}

#[test]
fn monitor_waiters_release_allowance_on_cancel_deadline_route_change_and_delivery_drop() {
    let mut full = owner();
    full.pending_clients = 1;
    full.pending = 1;
    assert_eq!(
        full.request(&verified(Operation::Monitor), &checked()),
        Dispatch::Refuse(AccessError::Capacity)
    );
    // Cancelled: nobody is answered.
    let mut cancelled = waiting(quorum(Purpose::Monitor));
    cancelled.closed = true;
    let mut queue = VecDeque::from([cancelled]);
    let done = expire_pending(&mut queue, 1);
    assert_eq!(done[0].1, Fate::Dropped);
    assert!(queue.is_empty());
    // Past its deadline.
    let mut queue = VecDeque::from([waiting(quorum(Purpose::Monitor))]);
    let done = expire_pending(&mut queue, 100);
    assert_eq!(done[0].1, Fate::Ended(AccessError::Unavailable));
    // Its route changed.
    let mut moved = owner();
    moved.route_epoch = 2;
    let mut queue = VecDeque::from([waiting(quorum(Purpose::Monitor))]);
    let done = resolve(
        &mut queue,
        &moved,
        &answered(&[Purpose::Monitor]),
        &vec![Found::Reply],
        50,
    );
    assert_eq!(done[0].1, Fate::Ended(AccessError::Unavailable));
    // Delivered.
    let mut queue = VecDeque::from([waiting(quorum(Purpose::Monitor))]);
    let done = resolve(
        &mut queue,
        &owner(),
        &answered(&[Purpose::Monitor]),
        &vec![Found::Reply],
        50,
    );
    assert_eq!(done[0].1, Fate::Answered);
    // The owner closes.
    assert_eq!(quorum(Purpose::Monitor).closing(), AccessError::Unavailable);
}

#[test]
fn checked_transfer_uses_the_owner_configuration_and_preserves_domain_prefix() {
    let expected = members(3, &[1, 2, 3]);
    for (index, voters, success) in [
        (4, vec![1, 2, 3], false),
        (3, vec![1, 2], false),
        (3, vec![1, 2, 3], true),
    ] {
        let fence = Some(Fence {
            expected_index: index,
            expected: members(index, &voters).configuration,
        });
        let result = transfer(&fence, true, 1, 0, &Ok(expected.clone()));
        if success {
            result.unwrap();
        } else {
            assert!(matches!(result, Err(LedgerError::MembershipConflict)));
        }
    }
    let fence = Some(Fence {
        expected_index: 3,
        expected: expected.configuration.clone(),
    });
    assert_eq!(
        transfer(&fence, false, 3, 0, &Ok(expected.clone())),
        Err(LedgerError::NotReady { leader: 3 })
    );
    assert_eq!(
        transfer(&fence, true, 1, 1, &Ok(expected)),
        Err(LedgerError::Capacity)
    );
    assert_eq!(
        transfer(&fence, true, 1, 0, &Err(LedgerError::Failed)),
        Err(LedgerError::Failed)
    );
    assert!(transfer(&None, false, 3, 7, &Err(LedgerError::Failed)).is_ok());
    // A refused transfer still drains the log, then answers.
    let refused = Err(LedgerError::MembershipConflict);
    let (mut work, act) = Acceptance::accept(Work::Transfer, Gate::Open, true, refused, false);
    assert_eq!(act, Act::Drain { runtime: true });
    assert_eq!(work.step(done()), Act::Answer(refused));
    assert_eq!(work.step(done()), Act::Return(Ok(false)));
    let (_, act) = Acceptance::accept(Work::Transfer, Gate::Open, true, Ok(()), false);
    assert_eq!(act, Act::TransferLeader);
    assert_eq!(call_charge(0, MEMBERSHIP_BYTES), Ok(192 * 1024));
}

fn members(index: u64, voters: &[u64]) -> MembershipView {
    MembershipView {
        configuration_index: index,
        configuration: Configuration {
            voters: voters.to_vec(),
            learners: Vec::new(),
            voters_outgoing: Vec::new(),
            learners_next: Vec::new(),
            auto_leave: false,
        },
    }
}
fn done() -> Acted {
    Acted {
        outcome: Ok(()),
        pending: 0,
    }
}
fn membership(change: Option<MembershipChange>) -> PendingMembership {
    PendingMembership {
        change,
        proposed: true,
        reading: None,
        term: 6,
        deadline: 100,
        closed: false,
    }
}

#[test]
fn membership_reply_and_cancelled_intent_preserve_permit_lifetimes() {
    let add = Some(MembershipChange::AddLearner { node: 2 });
    let current = Ok(members(3, &[1]));
    let request = add.map(|change| MembershipRequest {
        change,
        expected_index: 3,
        expected: members(3, &[1]).configuration,
    });
    assert_eq!(
        accept_membership(&request, Ok(()), &current, true, 1),
        Ok(true)
    );
    let mut call = membership(add);
    assert_eq!(call.look(6, true, 1, false), Look::Receipt);
    assert_eq!(call.receipt(Ok(false), &nothing()), Look::Keep);
    // Durable apply alone does not release the reply.
    assert_eq!(call.receipt(Ok(true), &nothing()), Look::Read);
    let (nonce, context) = PendingMembership::read(4).unwrap();
    assert_eq!(nonce, 5);
    let mut expected = b"focal.membership.read.v1\0".to_vec();
    expected.extend_from_slice(&5u64.to_be_bytes());
    assert_eq!(context, expected);
    assert_eq!(call.asked(5, Err(LedgerError::Capacity)), Look::Keep);
    assert_eq!(call.reading, None);
    assert_eq!(call.asked(5, Ok(())), Look::Keep);
    assert_eq!(call.receipt(Ok(true), &nothing()), Look::Keep);
    let mut events = nothing();
    events
        .read_barriers
        .push((PendingMembership::read(5).unwrap().1, 3));
    assert_eq!(call.receipt(Ok(true), &events), Look::Keep);
    events.read_barriers.push((context, 3));
    assert_eq!(call.receipt(Ok(true), &events), Look::View { due: true });
    assert_eq!(
        call.receipt(Ok(false), &events),
        Look::Finish(LedgerError::MembershipConflict)
    );
    // Cancellation and timeouts release only the waiter.
    for cancel in [true, false] {
        let mut call = membership(Some(MembershipChange::Remove { node: 2 }));
        call.closed = cancel;
        assert!(call.expired(if cancel { 1 } else { 100 }));
        assert_eq!(
            call.look(6, true, if cancel { 1 } else { 100 }, false),
            Look::Finish(LedgerError::OutcomeUnknown)
        );
    }
}

#[test]
fn stop_with_uncommitted_membership_preserves_unknown_intent_without_checkpoint() {
    let stop = |outcome, pending, checkpoint| {
        let (mut work, act) = Acceptance::accept(Work::Stop, Gate::Open, false, Ok(()), false);
        assert_eq!(act, Act::Drain { runtime: false });
        assert_eq!(work.step(done()), Act::Drain { runtime: false });
        let mut act = work.step(Acted { outcome, pending });
        let checkpoints = act == Act::Checkpoint;
        if checkpoints {
            act = work.step(Acted {
                outcome: checkpoint,
                pending,
            });
        }
        assert_eq!(work.step(done()), Act::Return(Ok(true)));
        (checkpoints, act)
    };
    // A pending proposal is not turned into an acknowledged checkpoint.
    assert_eq!(
        stop(Ok(()), 1, Err(LedgerError::Failed)),
        (false, Act::Answer(Ok(())))
    );
    assert_eq!(
        stop(Ok(()), 0, Err(LedgerError::Failed)),
        (true, Act::Answer(Err(LedgerError::Failed)))
    );
    assert_eq!(
        stop(Ok(()), 0, Err(LedgerError::Native { retryable: true })),
        (true, Act::Answer(Ok(())))
    );
    assert_eq!(
        stop(Err(LedgerError::Corrupt), 0, Ok(())),
        (false, Act::Answer(Err(LedgerError::Corrupt)))
    );
    let waiting = membership(Some(MembershipChange::AddLearner { node: 4 }));
    assert_eq!(
        waiting.look(7, true, 1, false),
        Look::Finish(LedgerError::OutcomeUnknown)
    );
}

#[test]
fn a_joining_node_s_change_waits_for_its_support() {
    let add = Some(MembershipChange::AddLearner { node: 4 });
    let unsupported = Err(LedgerError::Managed(ManagedError::Unsupported));
    let current = Ok(members(3, &[1, 2, 3]));
    let request = |change, index| {
        Some(MembershipRequest {
            change,
            expected_index: index,
            expected: members(3, &[1, 2, 3]).configuration,
        })
    };
    let joiner = MembershipChange::AddLearner { node: 4 };
    assert_eq!(
        accept_membership(&request(joiner, 3), unsupported, &current, true, 1),
        Ok(false)
    );
    assert_eq!(
        accept_membership(&request(joiner, 2), unsupported, &current, true, 1),
        Err(LedgerError::MembershipConflict)
    );
    let leave = request(MembershipChange::Leave, 3);
    assert_eq!(
        accept_membership(&leave, unsupported, &current, true, 1),
        unsupported.map(|_| true)
    );
    assert_eq!(
        accept_membership(&None, Ok(()), &current, false, 3),
        Err(LedgerError::NotReady { leader: 3 })
    );
    let full = room(2, 2, false, true, 7, 5);
    assert_eq!(full, Err(LedgerError::Capacity));
    assert_eq!(room(1, 2, false, true, 7, 5), Ok(12));
    assert_eq!(
        room(1, 2, false, true, u64::MAX, 5),
        Err(LedgerError::Capacity)
    );
    let mut late = membership(add);
    late.deadline = 40;
    let mut calls = VecDeque::from([(1, late), (2, membership(add)), (3, late)]);
    assert_eq!(joining(&calls), None);
    let mut waits = membership(add);
    waits.proposed = false;
    calls.push_back((4, waits));
    assert_eq!(joining(&calls), Some(4));
    let over: Vec<u32> = expire_memberships(&mut calls, 50)
        .into_iter()
        .map(|(call, _)| call)
        .collect();
    assert_eq!((over, calls.len(), calls[0].0), (vec![1, 3], 2, 2));
    let mut call = membership(add);
    call.proposed = false;
    assert_eq!(call.look(6, true, 1, false), Look::Propose);
    assert_eq!(call.propose(unsupported), Look::Keep);
    assert_eq!(
        call.propose(Err(LedgerError::Failed)),
        Look::Finish(LedgerError::Failed)
    );
    assert_eq!(call.propose(Ok(())), Look::Receipt);
    assert!(call.proposed);
}

fn key() -> ManagedRequestKey {
    ManagedRequestKey {
        stream: RequestStreamIdentity {
            cluster: [7; 16],
            ledger: ledger(2),
            principal: id(5),
            slot: 0,
            generation: 1,
        },
        ordinal: 1,
        id: id(9),
    }
}
fn plain(lane: Lane) -> Command {
    Command::Plain { lane }
}
fn fact() -> ManagedFormatSupport {
    ManagedFormatSupport {
        node: 1,
        voters: vec![1, 2, 3, 5, 8],
        voters_outgoing: vec![13],
        learners: vec![],
        learners_next: vec![],
    }
}

#[test]
fn passive_support_is_readonly_and_canceled_floor_input_never_registers() {
    let mut cursor = 0;
    assert_eq!(
        ManagedSupportReply::new(
            false,
            Ok(fact()),
            1,
            &BTreeSet::new(),
            false,
            None,
            &mut cursor
        ),
        Err(LedgerError::Managed(ManagedError::Unsupported))
    );
    // A registration waits for the local promise to be durable.
    let register = verified(Operation::RequestStreamControl {
        cluster: [7; 16],
        control: RequestStreamCommand::Open,
    });
    let known = Known {
        identified: true,
        receipt: Ok(false),
    };
    assert_eq!(
        owner().managed_gate(&register, &known),
        GateStep::Promise { all: true }
    );
    let pending = Err(LedgerError::Consensus(ConsensusError::PersistencePending));
    let none = BTreeSet::new();
    assert_eq!(
        gate_opens(true, pending, &Ok(fact()), false, &none),
        Ok(false)
    );
    let unread = pending.map(|()| fact());
    assert_eq!(gate_opens(true, Ok(()), &unread, false, &none), Ok(false));
    assert_eq!(support_gate(true), GateStep::Promise { all: false });
    assert_eq!(support_gate(false), GateStep::Open);
    // Cancelled or expired while the disk is paused: it never registers.
    for (cancelled, expired) in [(true, false), (false, true)] {
        assert_eq!(
            deferred(cancelled, false, expired, true),
            Deferred::Reject(LedgerError::OutcomeUnknown)
        );
    }
    assert_eq!(deferred(false, false, false, true), Deferred::Keep);
    assert_eq!(deferred(false, false, false, false), Deferred::Ask);
    assert_eq!(gated(Ok(true)), Deferred::Accept);
    assert_eq!(gated(Ok(false)), Deferred::Keep);
    assert_eq!(
        gated(Err(LedgerError::Failed)),
        Deferred::Reject(LedgerError::Failed)
    );
}

#[test]
fn voters_are_asked_for_their_promise_in_turn() {
    let needing = BTreeSet::from([2, 3, 5, 8, 13, 20]);
    let mut cursor = 3;
    assert_eq!(
        targets(&fact(), &needing, false, None, &mut cursor),
        vec![5, 8, 13, 2]
    );
    assert_eq!(cursor, 2);
    // A node about to join comes first, where its promise is needed.
    assert_eq!(
        targets(&fact(), &needing, false, Some(20), &mut cursor),
        vec![20, 3, 5, 8]
    );
    assert_eq!(
        targets(&fact(), &BTreeSet::from([2]), false, Some(20), &mut cursor),
        vec![2]
    );
    assert!(targets(&fact(), &needing, true, None, &mut cursor).is_empty());
    let reply = ManagedSupportReply::new(
        true,
        Ok(fact()),
        4,
        &BTreeSet::from([13]),
        false,
        None,
        &mut cursor,
    )
    .unwrap();
    assert_eq!(reply.targets(), &vec![13]);
    assert_eq!(reply.route_epoch(), 4);
    assert_eq!(reply.fact(), &fact());
    assert!(fact().recorded(1).is_ok());
    assert_eq!(fact().recorded(2), Err(LedgerError::Capacity));
    let mut large = fact();
    large.learners = vec![0; 4096];
    assert_eq!(large.recorded(1), Err(LedgerError::Capacity));
}

#[test]
fn managed_work_waits_for_every_voter_or_goes_on() {
    let submit = verified(Operation::Managed {
        key: key(),
        operation: ManagedOperation::Submit {
            command: plain(Lane::Ordinary),
        },
    });
    let known = |receipt| Known {
        identified: true,
        receipt,
    };
    assert_eq!(
        owner().managed_gate(&submit, &known(Ok(false))),
        GateStep::Promise { all: true }
    );
    assert_eq!(
        owner().managed_gate(&submit, &known(Ok(true))),
        GateStep::Open
    );
    assert_eq!(
        owner().managed_gate(
            &submit,
            &known(Err(LedgerError::Managed(ManagedError::Retired)))
        ),
        GateStep::Open
    );
    assert_eq!(
        owner().managed_gate(&submit, &known(Err(LedgerError::Failed))),
        GateStep::Refuse(LedgerError::Failed)
    );
    let mut follower = owner();
    follower.authoritative = false;
    assert_eq!(
        follower.managed_gate(&submit, &known(Ok(false))),
        GateStep::Open
    );
    let probe = peer(4, Operation::ManagedSupport { group: id(2) });
    assert_eq!(
        owner().managed_gate(&probe, &known(Ok(false))),
        GateStep::Promise { all: false }
    );
    let opens = |all, active, needing: &[u64]| {
        let needing = needing.iter().copied().collect();
        gate_opens(all, Ok(()), &Ok(fact()), active, &needing)
    };
    let voter = fact().voters[0];
    assert_eq!(opens(true, false, &[voter]), Ok(false));
    assert_eq!(opens(true, true, &[voter]), Ok(true));
    assert_eq!(opens(false, false, &[voter]), Ok(true));
    assert_eq!(opens(true, false, &[]), Ok(true));
    assert_eq!(
        gate_opens(
            true,
            Err(LedgerError::Failed),
            &Ok(fact()),
            true,
            &BTreeSet::new()
        ),
        Err(LedgerError::Failed)
    );
    assert_eq!(defer_room(1, 1, 2, 0, 5), Err(LedgerError::Capacity));
    assert_eq!(defer_room(1, 0, 2, 10, 5), Ok(15));
    assert_eq!(grown(0, 10), Ok((8, 80)));
    assert_eq!(grown(8, 10), Ok((16, 160)));
    assert_eq!(grown(usize::MAX, 1), Err(LedgerError::Capacity));
    assert_eq!(carried(5, 9), 5);
    assert_eq!(carried(9, 5), 5);
}

#[test]
fn diagnostic_observation_does_not_install_a_floor_and_owns_its_delivered_bytes() {
    let mut facts = SessionFacts {
        node: 1,
        cluster: [51; 16],
        group: id(502),
        leader: 0,
        term: 0,
        committed_index: 0,
        applied_index: 0,
        sequence: 0,
        pending: 0,
        authoritative: false,
        persistence_pending: false,
        checkpoint_pending: false,
        compiled_decoder: [0xd; 32],
        required_decoder: None,
        managed_active: false,
        native_active: false,
        native_authoritative: false,
        native_import_pending: false,
    };
    assert_eq!(DIAGNOSTICS_BYTES, 64 * 1024);
    let shown = ReplicaDiagnostics::diagnostics(&facts, "502".to_string());
    assert_eq!(shown.required_decoder, None);
    assert_eq!(shown.sequence, 0);
    assert_eq!(shown.cluster, "33333333333333333333333333333333");
    facts.required_decoder = Some([0xd; 32]);
    let shown = ReplicaDiagnostics::diagnostics(&facts, "502".to_string());
    assert_eq!(
        shown.required_decoder.as_ref(),
        Some(&shown.compiled_managed_decoder)
    );
    assert!(
        !shown.managed_active,
        "a local durable decoder floor alone does not activate managed admission"
    );
}

#[test]
fn a_replica_runs_within_its_bounds() {
    let config = ReplicaConfig::new(id(7));
    assert_eq!(config.queue_items, 32);
    assert_eq!(config.pending_clients, 128);
    assert_eq!(config.replication_queue, 128);
    assert_eq!(config.tick, 100 * MILLISECOND);
    assert_eq!(config.request_timeout, 5 * SECOND);
    assert_eq!(config.checkpoint_after_entries, 4096);
    let peers = WireLimits::wire_limits(&limits());
    assert_eq!(peers.max_frame_bytes, 10 * 1024 * 1024);
    assert_eq!(peers.max_cost, 40 * 1024 * 1024);
    assert_eq!(peers.client_limits(&limits()).max_frame_bytes, 1024 * 1024);
    assert!(config.validate(&peers, true).is_ok());
    assert_eq!(config.validate(&limits(), true), Err(LedgerError::Capacity));
    assert_eq!(config.validate(&peers, false), Err(LedgerError::Capacity));
    for change in [
        (|config: &mut ReplicaConfig| config.root = [0; 16]) as fn(&mut ReplicaConfig),
        |config| config.route_epoch = 0,
        |config| config.policy_revision = 0,
        |config| config.queue_items = 1025,
        |config| config.pending_clients = 0,
        |config| config.replication_queue = 0,
        |config| config.tick = 10 * MILLISECOND - 1,
        |config| config.tick = SECOND + 1,
        |config| config.request_timeout = 0,
        |config| config.request_timeout = 60 * SECOND + 1,
    ] {
        let mut wrong = config;
        change(&mut wrong);
        assert_eq!(wrong.validate(&peers, true), Err(LedgerError::Capacity));
    }
    assert!(config.assemble(None).is_ok());
    assert!(config.assemble(Some(1)).is_ok());
    assert_eq!(
        config.assemble(Some(2)),
        Err(LedgerError::PlacementConflict)
    );
    assert_eq!(refence(0, 1), Err(LedgerError::PlacementConflict));
    let progress = ReplicaProgress::publish(
        &SessionStatus {
            node: 1,
            leader_id: 2,
            term: 3,
            sequence: 4,
            import_pending: false,
            seed_pending: None,
            custody_pending: None,
        },
        5,
        6,
        true,
    );
    assert_eq!(
        (progress.leader, progress.route_epoch, progress.stopped),
        (2, 5, true)
    );
}

#[test]
fn requests_are_charged_in_their_lane() {
    let submit_plain = |lane| Operation::Submit {
        command: plain(lane),
    };
    assert_eq!(
        submit(&submit_plain(Lane::Ordinary), Some(10), 1000, None),
        Some(Admission {
            bytes: 320 + 4096,
            lane: Lane::Ordinary
        })
    );
    assert_eq!(
        submit(&submit_plain(Lane::Completion), Some(10), 1000, None),
        Some(Admission {
            bytes: 320 + 4096,
            lane: Lane::Completion
        })
    );
    assert_eq!(
        submit(&Operation::Raft { group: id(2) }, Some(10), 1000, None),
        Some(Admission {
            bytes: 20 + 4096,
            lane: Lane::Completion
        })
    );
    assert_eq!(
        submit(
            &Operation::NativeRead { linearizable: true },
            Some(10),
            1000,
            None
        ),
        Some(Admission {
            bytes: 320 + 32000 + 4096,
            lane: Lane::Ordinary
        })
    );
    assert_eq!(submit(&Operation::Summary, Some(10), 1000, None), None);
    assert_eq!(submit(&Operation::Summary, None, 1000, Some(1)), None);
    let read = |seed_scan| Operation::Read {
        linearizable: false,
        seed_scan,
    };
    assert_eq!(response_bytes(&read(Some(5000)), 1000, None), Some(2000));
    assert_eq!(response_bytes(&read(Some(10)), 1000, None), Some(20));
    assert_eq!(response_bytes(&read(None), 1000, None), Some(1000));
    assert_eq!(
        response_bytes(&Operation::Stream { credit: 300 }, 1000, None),
        Some(300)
    );
    assert_eq!(
        response_bytes(&Operation::ManagedSupport { group: id(2) }, 1, None),
        Some(33792)
    );
    assert_eq!(
        response_bytes(&Operation::Native { header: None }, 1, None),
        Some(4096)
    );
    assert_eq!(response_bytes(&Operation::OpenEpoch, 1, None), Some(0));
    assert!(completion_request(&Operation::Monitor));
    assert!(completion_request(&Operation::RequestStreamControl {
        cluster: id(1),
        control: RequestStreamCommand::Seal
    }));
    assert!(!completion_request(&Operation::RequestStreamControl {
        cluster: id(1),
        control: RequestStreamCommand::Open
    }));
    assert_eq!(lost(&Operation::Summary), AccessError::Unavailable);
    assert_eq!(
        lost(&submit_plain(Lane::Ordinary)),
        AccessError::OutcomeUnknown
    );
    assert_eq!(
        probe_receipt(&Operation::Summary, Some(1)),
        Ok(Admission {
            bytes: 4128,
            lane: Lane::Ordinary
        })
    );
    assert_eq!(
        probe_receipt(&Operation::Summary, None),
        Err(AccessError::Capacity)
    );
    assert_eq!(HostQueue::Full.sent(), Err(LedgerError::Capacity));
    assert_eq!(HostQueue::Disconnected.sent(), Err(LedgerError::Failed));
    assert_eq!(
        HostQueue::Disconnected.admitted(),
        Err(AccessError::Unavailable)
    );
}

#[test]
fn trusted_membership_nominates_real_joining_decoder_and_waits_for_fact() {
    let view = members(0, &[1]);
    let request = Some(MembershipRequest {
        change: MembershipChange::AddLearner { node: 2 },
        expected_index: view.configuration_index,
        expected: view.configuration.clone(),
    });
    // The joining node's decoder is not known yet: the change waits.
    let unsupported = Err(LedgerError::Managed(ManagedError::Unsupported));
    let proposed = accept_membership(&request, unsupported, &Ok(view), true, 1).unwrap();
    let mut waiting = membership(Some(MembershipChange::AddLearner { node: 2 }));
    waiting.proposed = proposed;
    let mut calls = VecDeque::from([(1, waiting)]);
    assert_eq!(calls.len(), 1);
    assert!(!calls[0].1.proposed);
    let own = ManagedFormatSupport {
        node: 1,
        voters: vec![1],
        voters_outgoing: vec![],
        learners: vec![],
        learners_next: vec![],
    };
    let mut cursor = 0;
    let demanded = ManagedSupportReply::new(
        true,
        Ok(own.clone()),
        1,
        &BTreeSet::from([2]),
        false,
        joining(&calls),
        &mut cursor,
    )
    .unwrap();
    assert_eq!(demanded.targets(), &vec![2]);
    // Its own fact, and no other's, is recorded; then the change is proposed.
    let fact = ManagedFormatSupport { node: 2, ..own };
    assert_eq!(fact.recorded(1), Err(LedgerError::Capacity));
    fact.recorded(2).unwrap();
    let call = &mut calls[0].1;
    assert_eq!(call.look(6, true, 1, false), Look::Propose);
    assert_eq!(call.propose(Ok(())), Look::Receipt);
    assert_eq!(call.receipt(Ok(true), &nothing()), Look::Read);
    let (nonce, context) = PendingMembership::read(4).unwrap();
    assert_eq!(call.asked(nonce, Ok(())), Look::Keep);
    let mut events = nothing();
    events.read_barriers.push((context, 7));
    assert_eq!(
        call.receipt(Ok(true), &events),
        Look::View { due: true }
    );
    assert_eq!(joining(&calls), None);
}

#[test]
fn completion_and_receipt_probe_use_reserved_bytes_and_queue_slots() {
    let claim = Operation::Submit {
        command: plain(Lane::Ordinary),
    };
    let cancel = Operation::Submit {
        command: plain(Lane::Completion),
    };
    assert!(!completion_request(&claim));
    assert!(completion_request(&cancel));
    let frame = limits().max_frame_bytes;
    let admitted = |operation| submit(operation, Some(100), frame, None).unwrap();
    assert_eq!(admitted(&claim).lane, Lane::Ordinary);
    assert_eq!(admitted(&cancel).lane, Lane::Completion);
    assert_eq!(admitted(&cancel).bytes, 100 * 32 + 4096);
    // With no ordinary slot left, new work is refused and what completes
    // existing work still gets through.
    let slot = |operation| lane(Work::Request, operation) == Lane::Completion;
    assert_eq!(try_send(slot(&claim), HostQueue::Sent), HostQueue::Full);
    assert_eq!(
        HostQueue::Full.admitted(),
        Err(AccessError::Capacity)
    );
    assert_eq!(try_send(slot(&cancel), HostQueue::Sent), HostQueue::Sent);
    // So does the probe for its receipt.
    assert_eq!(
        probe_receipt(&cancel, Some(100)),
        Ok(Admission {
            bytes: 100 * 32 + 4096,
            lane: Lane::Completion
        })
    );
    assert_eq!(lane(Work::Probe, &cancel), Lane::Completion);
    assert_eq!(lane(Work::Probe, &claim), Lane::Ordinary);
}

#[test]
fn a_host_call_is_charged_and_its_caller_told() {
    for (call, work, bytes) in [
        (HostCall::TransferLeader, Work::Transfer, 0),
        (
            HostCall::TransferLeaderChecked { configuration: 80 },
            Work::Transfer,
            192 * 1024 + 80,
        ),
        (HostCall::Refence, Work::Refence, 16 * 1024),
        (
            HostCall::ImportPayloads,
            Work::ImportPayloads,
            16 * 1024 * 1024 + 64 * 1024,
        ),
        (HostCall::Checkpoint, Work::Checkpoint, 64 * 1024),
        (
            HostCall::InstallSeedChunk { capacity: 7 },
            Work::InstallSeed,
            64 * 1024 + 7,
        ),
        (HostCall::CustodyPulled, Work::CustodyPulled, 4096),
        (HostCall::Membership, Work::Membership, 192 * 1024),
        (HostCall::CheckpointEvidence, Work::Evidence, 4096),
        (HostCall::Stop, Work::Stop, 0),
    ] {
        assert_eq!((call.work(), call.charge()), (work, Ok(bytes)));
    }
    let large = HostCall::InstallSeedChunk {
        capacity: usize::MAX,
    };
    assert_eq!(large.charge(), Err(LedgerError::Capacity));
    let learns = |call: HostCall, granted, queue, answer: Option<u8>| {
        call.learns(granted, queue, answer.map(Ok))
    };
    let call = HostCall::Checkpoint;
    assert_eq!(learns(call, true, HostQueue::Sent, Some(1)), Ok(1));
    assert_eq!(
        learns(call, true, HostQueue::Sent, None),
        Err(LedgerError::OutcomeUnknown)
    );
    assert_eq!(
        learns(HostCall::Stop, true, HostQueue::Sent, None),
        Err(LedgerError::Failed)
    );
    assert_eq!(
        learns(call, true, HostQueue::Full, None),
        Err(LedgerError::Capacity)
    );
    assert_eq!(
        learns(call, true, HostQueue::Disconnected, None),
        Err(LedgerError::Failed)
    );
    assert_eq!(
        learns(call, false, HostQueue::Sent, Some(1)),
        Err(LedgerError::Capacity)
    );
}

#[test]
fn every_operation_is_dispatched_or_refused() {
    let serve = |operation| owner().request(&verified(operation), &checked());
    let barrier = |purpose| Dispatch::Barrier(ticket(purpose));
    assert_eq!(
        serve(Operation::Submit {
            command: plain(Lane::Ordinary)
        }),
        Dispatch::Submit
    );
    assert_eq!(serve(Operation::OpenEpoch), Dispatch::Submit);
    assert_eq!(
        serve(Operation::Managed {
            key: key(),
            operation: ManagedOperation::Cursor
        }),
        Dispatch::ManagedCursor
    );
    assert_eq!(
        serve(Operation::Managed {
            key: key(),
            operation: ManagedOperation::Submit {
                command: plain(Lane::Ordinary)
            }
        }),
        Dispatch::Managed
    );
    assert_eq!(
        serve(Operation::RequestStreamControl {
            cluster: [7; 16],
            control: RequestStreamCommand::Close
        }),
        Dispatch::StreamControl
    );
    assert_eq!(
        serve(Operation::RequestStreamRead { cluster: [7; 16] }),
        barrier(Purpose::RequestStream)
    );
    assert_eq!(
        serve(Operation::RequestStreamRead { cluster: [6; 16] }),
        Dispatch::Refuse(AccessError::Unauthorized)
    );
    assert_eq!(serve(Operation::Stream { credit: 1 }), Dispatch::Stream);
    assert_eq!(serve(Operation::Monitor), barrier(Purpose::Monitor));
    assert_eq!(serve(Operation::Summary), barrier(Purpose::Summary));
    assert_eq!(serve(Operation::Reconcile), barrier(Purpose::Reconcile));
    assert_eq!(
        serve(Operation::Select { resumed: false }),
        barrier(Purpose::Select)
    );
    assert_eq!(
        serve(Operation::Validators { resumed: false }),
        barrier(Purpose::Validators)
    );
    assert_eq!(
        serve(Operation::Traverse { resumed: false }),
        barrier(Purpose::Traverse)
    );
    assert_eq!(
        serve(Operation::Read {
            linearizable: true,
            seed_scan: None
        }),
        barrier(Purpose::Read)
    );
    assert_eq!(
        serve(Operation::Read {
            linearizable: false,
            seed_scan: None
        }),
        Dispatch::Serve
    );
    assert_eq!(
        serve(Operation::NativeRead { linearizable: true }),
        Dispatch::NativeBarrier(read())
    );
    assert_eq!(
        serve(Operation::NativeRead {
            linearizable: false
        }),
        Dispatch::Serve
    );
    assert_eq!(serve(Operation::NativeList), Dispatch::Serve);
    assert_eq!(serve(Operation::Native { header: None }), Dispatch::Native);
    assert_eq!(
        serve(Operation::Native {
            header: Some(NativeHeader {
                artifact_bearing: true,
                evaluates_artifact: false
            })
        }),
        Dispatch::Refuse(AccessError::UnsupportedOperation)
    );
    assert_eq!(
        serve(Operation::Unserved),
        Dispatch::Refuse(AccessError::UnsupportedOperation)
    );
    // Consensus reaches the group's members only, whatever route is served.
    let mut closed = owner();
    closed.cutover = true;
    let message = Operation::Raft { group: id(2) };
    assert_eq!(
        closed.request(&peer(4, message.clone()), &checked()),
        Dispatch::Step { node: 4 }
    );
    assert_eq!(
        closed.request(&peer(9, message.clone()), &checked()),
        Dispatch::Refuse(AccessError::Unauthorized)
    );
    assert_eq!(
        closed.request(&verified(message), &checked()),
        Dispatch::Refuse(AccessError::Unauthorized)
    );
    assert_eq!(
        closed.request(&verified(Operation::Summary), &checked()),
        Dispatch::Refuse(AccessError::Unavailable)
    );
    assert_eq!(
        owner().request(
            &peer(1, Operation::ManagedSupport { group: id(2) }),
            &checked()
        ),
        Dispatch::Support { begin: false }
    );
    let mut elsewhere = verified(Operation::Summary);
    elsewhere.request.ledger = ledger(3);
    assert_eq!(
        owner().request(&elsewhere, &checked()),
        Dispatch::Refuse(AccessError::Unauthorized)
    );
    let mut unserved = checked();
    unserved.served = false;
    assert_eq!(
        owner().request(&verified(Operation::NativeList), &unserved),
        Dispatch::Refuse(AccessError::Unavailable)
    );
    let mut invalid = checked();
    invalid.valid = Err(AccessError::InvalidRequest);
    assert_eq!(
        owner().request(&verified(Operation::List { resumed: true }), &invalid),
        Dispatch::Refuse(AccessError::InvalidRequest)
    );
    assert!(owner().probe(&verified(Operation::Summary)).is_ok());
    assert_eq!(
        closed.probe(&verified(Operation::Summary)),
        Err(AccessError::Unavailable)
    );
    assert_eq!(
        owner().evidence(&verified(Operation::Summary), &None),
        Ok(None)
    );
    let proposal = Proposal::new(id(7), 3, 12_345, None, None);
    assert_eq!(proposal.logical_time, 12);
    assert!(!proposal.runtime);
}

#[test]
fn waiting_requests_are_answered_once_in_their_order() {
    let mut a = waiting(WaitingFor::Mutation);
    a.token = 1;
    let mut b = waiting(quorum(Purpose::Read));
    b.token = 2;
    let mut c = waiting(WaitingFor::NativeMutation);
    c.token = 3;
    c.deadline = 40;
    let mut d = waiting(WaitingFor::Stream);
    d.token = 4;
    d.interrupted = AccessError::SnapshotExpired;
    d.term = 5;
    let mut queue = VecDeque::from([a, b, c, d]);
    let done = resolve(
        &mut queue,
        &owner(),
        &answered(&[Purpose::Read]),
        &vec![
            Found::Nothing,
            Found::Reply,
            Found::Nothing,
            Found::Nothing,
        ],
        50,
    );
    let done: Vec<(u32, Fate)> = done.into_iter().map(|(p, fate)| (p.token, fate)).collect();
    assert_eq!(
        done,
        vec![
            (2, Fate::Answered),
            (3, Fate::Ended(AccessError::Unavailable)),
            (4, Fate::Ended(AccessError::SnapshotExpired))
        ]
    );
    assert_eq!(queue.len(), 1);
    assert_eq!(queue[0].token, 1);
    // A mutation outlives its route, and is unknown at its deadline.
    let mut moved = owner();
    moved.route_epoch = 2;
    let found = vec![Found::Nothing];
    assert!(resolve(&mut queue, &moved, &nothing(), &found, 50).is_empty());
    let done = expire_pending(&mut queue, 100);
    assert_eq!(done[0].1, Fate::Ended(AccessError::OutcomeUnknown));
    let mut numbered = owner();
    let control = numbered.control_read(&id(5), &id(9)).unwrap();
    assert_eq!((control.nonce, numbered.nonce), (9, 9));
    assert!(control
        .context()
        .starts_with(b"focal.replica.managed.control.v1\0"));
    numbered.nonce = u64::MAX;
    assert_eq!(
        numbered.control_read(&id(5), &id(9)),
        Err(LedgerError::Capacity)
    );
    assert_eq!(native_settled(Ok(Some(true))), NativeSettled::Committed);
    assert_eq!(native_settled(Ok(Some(false))), NativeSettled::Conflict);
    assert_eq!(native_settled(Ok(None)), NativeSettled::Waits);
    assert_eq!(
        native_settled(Err(AccessError::Capacity)),
        NativeSettled::Failed(AccessError::Capacity)
    );
}

#[test]
fn questions_are_asked_while_they_can_be_answered() {
    let mut old = owner();
    old.term = 7;
    let mut following = owner();
    following.leader = false;
    following.authoritative = false;
    let mut stopping = owner();
    stopping.stopping = true;
    let events = answered(&[Purpose::Summary, Purpose::Read, Purpose::Control]);
    let token = ReadToken {
        ledger: ledger(2),
        sequence: 44,
        route_epoch: 1,
    };
    for (state, now, later, follower, stop) in [
        (
            WaitingFor::PeerPersistence,
            Question::Persisted,
            Question::Persisted,
            Question::Persisted,
            Question::Persisted,
        ),
        (
            WaitingFor::Mutation,
            Question::Receipt,
            Question::Receipt,
            Question::Receipt,
            Question::Receipt,
        ),
        (
            WaitingFor::ManagedStream,
            Question::ManagedStream,
            Question::ManagedStream,
            Question::ManagedStream,
            Question::Nothing,
        ),
        (
            WaitingFor::RequestStreamControl { reading: None },
            Question::ControlReceipt,
            Question::Nothing,
            Question::Nothing,
            Question::Nothing,
        ),
        (
            WaitingFor::RequestStreamControl {
                reading: Some(ticket(Purpose::Control)),
            },
            Question::ControlReply,
            Question::Nothing,
            Question::Nothing,
            Question::Nothing,
        ),
        (
            WaitingFor::NativeRead(read()),
            Question::NativeRead { boundary: 0 },
            Question::Nothing,
            Question::Nothing,
            Question::NativeRead { boundary: 0 },
        ),
        (
            quorum(Purpose::Summary),
            Question::ReadAfter { prefix: 44 },
            Question::Nothing,
            Question::Nothing,
            Question::ReadAfter { prefix: 44 },
        ),
        (
            quorum(Purpose::Read),
            Question::ReadAtLeast(token),
            Question::Nothing,
            Question::Nothing,
            Question::ReadAtLeast(token),
        ),
        (
            WaitingFor::Stream,
            Question::Stream,
            Question::Stream,
            Question::Stream,
            Question::Nothing,
        ),
    ] {
        let pending = waiting(state);
        assert_eq!(pending.question(&owner(), &events), now);
        assert_eq!(pending.question(&old, &events), later);
        assert_eq!(pending.question(&following, &events), follower);
        assert_eq!(pending.question(&stopping, &events), stop);
    }
    // Nothing is asked about a read before its own barrier is answered.
    let queue = VecDeque::from([
        waiting(quorum(Purpose::Monitor)),
        waiting(WaitingFor::Mutation),
        waiting(quorum(Purpose::Summary)),
    ]);
    assert_eq!(
        questions(&queue, &owner(), &events),
        vec![
            Question::Nothing,
            Question::Receipt,
            Question::ReadAfter { prefix: 44 }
        ]
    );
    let mut moved = owner();
    moved.route_epoch = 2;
    assert_eq!(queue[0].question(&moved, &events), Question::Closed);
    let mut closing = queue;
    assert_eq!(
        close(&mut closing),
        vec![
            (1, AccessError::Unavailable),
            (1, AccessError::OutcomeUnknown),
            (1, AccessError::Unavailable)
        ]
    );
    assert!(closing.is_empty());
    assert_eq!(
        WaitingFor::NativeMutation.closing(),
        AccessError::OutcomeUnknown
    );
}

#[test]
fn an_owner_checkpoints_and_stops_when_it_can() {
    let begin = |work, gate| Acceptance::accept(work, gate, true, Ok(()), true);
    let failed = Acted {
        outcome: Err(LedgerError::Failed),
        pending: 0,
    };
    let (mut work, act) = begin(Work::Request, Gate::Waits);
    assert_eq!(act, Act::Defer);
    assert_eq!(work.step(done()), Act::Return(Ok(false)));
    let (mut work, act) = begin(Work::Request, Gate::Refused(LedgerError::Failed));
    assert_eq!(act, Act::Reject(LedgerError::Failed));
    assert_eq!(work.step(failed), Act::Return(Ok(false)));
    let (mut work, act) = begin(Work::Request, Gate::Open);
    assert_eq!(act, Act::Perform);
    assert_eq!(work.step(done()), Act::Drain { runtime: true });
    assert_eq!(work.step(failed), Act::Return(Err(LedgerError::Failed)));
    let (mut work, act) = begin(Work::Diagnostics, Gate::Open);
    assert_eq!(act, Act::Perform);
    assert_eq!(work.step(done()), Act::Return(Ok(false)));
    let (mut work, _) = begin(Work::Evidence, Gate::Open);
    assert_eq!(work.step(failed), Act::Return(Err(LedgerError::Failed)));
    // A checkpoint covers what the log already owns, unless more is pending.
    for (pending, answer) in [(0, Ok(())), (1, Err(LedgerError::Capacity))] {
        let (mut work, act) = begin(Work::Checkpoint, Gate::Open);
        assert_eq!(act, Act::Drain { runtime: true });
        let outcome = Ok(());
        let mut act = work.step(Acted { outcome, pending });
        if pending == 0 {
            assert_eq!(act, Act::Checkpoint);
            act = work.step(done());
        }
        assert_eq!(act, Act::Drain { runtime: true });
        assert_eq!(work.step(done()), Act::Answer(answer));
        assert_eq!(work.step(done()), Act::Return(Ok(false)));
    }
    let (mut work, act) = begin(Work::ActivateNative, Gate::Open);
    assert_eq!(act, Act::ProposeImport);
    assert_eq!(work.step(failed), Act::Drain { runtime: true });
    assert_eq!(work.step(done()), Act::Answer(Err(LedgerError::Failed)));
    let fresh = Acceptance::accept(Work::ActivateNative, Gate::Open, true, Ok(()), false);
    assert_eq!(fresh.1, Act::ProposeActivation);
    // A chunk's caller hears of it before the log is drained.
    let (mut work, act) = begin(Work::InstallSeed, Gate::Open);
    assert_eq!(act, Act::InstallSeed);
    assert_eq!(work.step(done()), Act::Answer(Ok(())));
    assert_eq!(work.step(done()), Act::Drain { runtime: true });
    assert_eq!(work.step(done()), Act::Return(Ok(false)));
    let (mut work, act) = begin(Work::Stop, Gate::Open);
    assert_eq!(act, Act::BeginStop);
    assert_eq!(work.step(done()), Act::Progress);
    let mut serving = Serving {
        route_epoch: 2,
        policy_revision: 3,
    };
    assert_eq!(
        serving.refence(1, 9, Some(1), false),
        Err(LedgerError::PlacementConflict)
    );
    assert!(serving.refence(2, 9, None, true).is_ok());
    assert_eq!(serving.policy_revision, 3);
    assert_eq!(
        serving.refence(3, 9, Some(2), false),
        Err(LedgerError::PlacementConflict)
    );
    assert_eq!(
        serving.refence(3, 9, Some(3), true),
        Err(LedgerError::PlacementConflict)
    );
    assert!(serving.refence(3, 9, Some(3), false).is_ok());
    assert_eq!(serving.policy_revision, 9);
    let free = Busy {
        pending: 0,
        persistence: false,
        checkpoint: false,
        stopping: false,
    };
    let mut log = Log {
        applied_index: 5000,
        snapshot_index: 904,
        checkpoint_after_entries: 4096,
        due: true,
    };
    assert_eq!(log.log_entries_since_checkpoint(), 4096);
    assert!(log.checkpoint_by_cadence(&free));
    log.applied_index = 4999;
    assert!(!log.checkpoint_by_cadence(&free));
    assert!(log.checkpoint_if_due(&free));
    assert!(!log.checkpoint_if_due(&Busy {
        persistence: true,
        ..free
    }));
    assert!(log.checkpointed(Err(LedgerError::Capacity)).is_ok());
    assert!(log.due);
    assert_eq!(
        log.checkpointed(Err(LedgerError::Corrupt)),
        Err(LedgerError::Corrupt)
    );
    assert!(log.checkpointed(Ok(())).is_ok());
    assert!(!log.due);
    let mut whole = Log {
        snapshot_index: 0,
        due: true,
        ..log
    };
    assert!(!whole.checkpoint_if_due(&free));
    assert!(!whole.due);
    assert_eq!(
        Log::try_checkpoint(Err(LedgerError::Consensus(ConsensusError::CheckpointIndex))),
        Ok(false)
    );
    assert_eq!(begin_stop(true, 0, 1), Ok(None));
    assert_eq!(begin_stop(false, 3, 4), Ok(Some(7)));
    assert_eq!(
        begin_stop(false, u64::MAX, 1),
        Err(LedgerError::Capacity)
    );
    let idle = Waits {
        persistence: false,
        stopping: false,
        evidence: false,
        ready: false,
        seeds: false,
        next_tick: 900,
    };
    assert_eq!(idle.group_deadline(10), Ok(900));
    assert_eq!(Waits { ready: true, ..idle }.group_deadline(10), Ok(10));
    assert_eq!(
        Waits {
            ready: true,
            seeds: true,
            ..idle
        }
        .group_deadline(10),
        Ok(900)
    );
    assert_eq!(
        Waits {
            evidence: true,
            ..idle
        }
        .group_deadline(10),
        Ok(10 + MILLISECOND)
    );
}

#[test]
fn a_shared_worker_goes_on_without_waiting_for_a_disk() {
    let seen = |ready, persistence, now| Seen {
        outcome: Ok(()),
        ready,
        persistence,
        now,
    };
    let turns = |stopping, seen: Seen| {
        let (mut round, mut turn) = Progress::progress_group(stopping, 100, 7);
        let mut turns = Vec::new();
        loop {
            turns.push(turn);
            if let Turn::Return(_) = turn {
                return (turns, round.next_tick);
            }
            turn = round.step(seen);
        }
    };
    let (list, next_tick) = turns(None, seen(true, false, 100));
    assert_eq!(
        list,
        vec![
            Turn::Views,
            Turn::Expire,
            Turn::Evidence,
            Turn::Drain { runtime: true },
            Turn::Evidence,
            Turn::Feedback,
            Turn::Managed,
            Turn::CheckpointIfDue,
            Turn::Tick,
            Turn::Return(Ok(false))
        ]
    );
    assert_eq!(next_tick, 107);
    let (list, next_tick) = turns(None, seen(false, true, 100));
    assert!(!list.contains(&Turn::Tick) && !list.contains(&Turn::Feedback));
    assert_eq!(next_tick, 100);
    // A stopping session drives nothing more, and is done once drained.
    let (list, _) = turns(Some(50), seen(true, false, 49));
    assert!(list.contains(&Turn::Drain { runtime: false }));
    assert_eq!(list[list.len() - 1], Turn::Return(Ok(false)));
    let (list, _) = turns(Some(50), seen(true, false, 50));
    assert_eq!(
        list[list.len() - 2..],
        [
            Turn::AnswerStop(Err(LedgerError::OutcomeUnknown)),
            Turn::Return(Ok(true))
        ]
    );
    let (list, _) = turns(Some(50), seen(false, false, 60));
    assert_eq!(
        list[list.len() - 2..],
        [Turn::AnswerStop(Ok(())), Turn::Return(Ok(true))]
    );
    let (mut round, _) = Progress::progress_group(None, 0, 1);
    let mut failed = seen(false, false, 0);
    failed.outcome = Err(LedgerError::Corrupt);
    assert_eq!(round.step(failed), Turn::Return(Err(LedgerError::Failed)));
    // Only a leader proposes at a tick, and its clock goes forward.
    let ticked = |outcome, leader| Ticked {
        outcome,
        leader,
        cursor_clock: 9,
        wall_ms: 5,
    };
    let (mut tick, turn) = Tick::tick();
    assert_eq!(turn, TickTurn::Session);
    assert_eq!(tick.step(ticked(Ok(()), true)), TickTurn::Clock);
    assert_eq!(
        tick.step(ticked(Ok(()), true)),
        TickTurn::ProposeClock { now: 9 }
    );
    let early = Err(LedgerError::NotReady { leader: 1 });
    assert_eq!(tick.step(ticked(early, true)), TickTurn::Timers);
    assert_eq!(
        tick.step(ticked(Err(LedgerError::Capacity), true)),
        TickTurn::Views
    );
    assert_eq!(tick.step(ticked(Ok(()), true)), TickTurn::Drain);
    assert_eq!(
        tick.step(ticked(Ok(()), true)),
        TickTurn::CheckpointByCadence
    );
    assert_eq!(tick.step(ticked(Ok(()), true)), TickTurn::Managed);
    assert_eq!(tick.step(ticked(Ok(()), true)), TickTurn::Return(Ok(())));
    let (mut tick, _) = Tick::tick();
    assert_eq!(tick.step(ticked(Ok(()), false)), TickTurn::Views);
    assert_eq!(
        tick.step(ticked(Err(LedgerError::Corrupt), false)),
        TickTurn::Return(Err(LedgerError::Failed))
    );
}

#[test]
fn a_single_session_ticks_between_its_work() {
    let done = AloneDid::Done(Ok(()));
    let (mut owner, turn) = Alone::run(100, 7);
    assert_eq!(turn, AloneTurn::Drain);
    assert_eq!(owner.step(done, 100), AloneTurn::Tick);
    assert_eq!(owner.step(done, 101), AloneTurn::Receive { wait: 7 });
    assert_eq!(owner.step(AloneDid::Work, 105), AloneTurn::Accept);
    assert_eq!(
        owner.step(AloneDid::Accepted(Ok(false)), 105),
        AloneTurn::Managed
    );
    assert_eq!(owner.step(done, 105), AloneTurn::CheckpointIfDue);
    assert_eq!(owner.step(done, 105), AloneTurn::Receive { wait: 3 });
    assert_eq!(owner.step(AloneDid::Timeout, 108), AloneTurn::Tick);
    let mut failing = owner;
    assert_eq!(
        failing.step(AloneDid::Done(Err(LedgerError::Corrupt)), 108),
        AloneTurn::Close(Err(LedgerError::Corrupt))
    );
    owner.step(done, 108);
    let mut left = owner;
    assert_eq!(
        left.step(AloneDid::Disconnected, 109),
        AloneTurn::Close(Ok(()))
    );
    owner.step(AloneDid::Work, 109);
    assert_eq!(
        owner.step(AloneDid::Accepted(Ok(true)), 109),
        AloneTurn::Close(Ok(()))
    );
    assert_eq!(owner.step(done, 110), AloneTurn::Close(Ok(())));
}

#[test]
fn an_artifact_is_proposed_only_with_its_own_witness() {
    let artifact = NewArtifact {
        ledger: ledger(2),
        schema_hash: [6; 32],
        payload: ArtifactPayload::Inline(vec![1]),
        descriptor: Some([9; 32]),
    };
    let brings = |artifact: &NewArtifact| Command::RegisterArtifact {
        artifact: artifact.clone(),
        lane: Lane::Ordinary,
    };
    let request = verified(Operation::Submit {
        command: brings(&artifact),
    });
    let right = EvidenceWitness {
        scope: CustodyScope {
            ledger: ledger(2),
            route_epoch: 1,
            policy_revision: 1,
        },
        request: id(9),
        epoch: 1,
        managed: None,
        principal: id(5),
        descriptor: [9; 32],
        voters: BTreeSet::from([1, 2, 3]),
    };
    let attestation = EvidenceAttestation {
        descriptor_hash: [9; 32],
        custody_revision: 1,
        durable: true,
        schema_valid: true,
    };
    let owner = owner();
    // Without its witness it is not proposed.
    assert_eq!(
        owner.evidence(&request, &None),
        Err(AccessError::UnsupportedOperation)
    );
    // Nor with one of another request, scope, principal, key or voters.
    let mut of_another = right.clone();
    of_another.request = id(8);
    let mut under_another = right.clone();
    under_another.scope.policy_revision = 2;
    let mut by_another = right.clone();
    by_another.principal = id(6);
    let mut with_others = right.clone();
    with_others.voters = BTreeSet::from([1, 2, 4]);
    let mut later = right.clone();
    later.epoch = 2;
    for foreign in [of_another, under_another, by_another, with_others, later] {
        assert_eq!(
            owner.evidence(&request, &Some(foreign)),
            Err(AccessError::Unavailable)
        );
    }
    let mut of_other_bytes = right.clone();
    of_other_bytes.descriptor = [8; 32];
    assert_eq!(
        owner.evidence(&request, &Some(of_other_bytes)),
        Err(AccessError::InvalidRequest)
    );
    assert_eq!(
        owner.evidence(&request, &Some(right.clone())),
        Ok(Some(attestation))
    );
    // The known receipt comes first, then the witness, then the proposal.
    assert_eq!(owner.submit(Ok(true), &request, &None), Submission::Answer);
    assert_eq!(
        owner.submit(Ok(false), &request, &None),
        Submission::Refuse(AccessError::UnsupportedOperation)
    );
    assert_eq!(
        owner.submit(Err(AccessError::Capacity), &request, &Some(right.clone())),
        Submission::Refuse(AccessError::Capacity)
    );
    let proposed = owner.submit(Ok(false), &request, &Some(right));
    assert_eq!(
        proposed,
        Submission::Propose {
            evidence: Some(attestation)
        }
    );
    let plain = verified(Operation::OpenEpoch);
    assert_eq!(
        owner.submit(Ok(false), &plain, &None),
        Submission::Propose { evidence: None }
    );
    assert_eq!(proposed.effect(Effect::Pending), Effect::Pending);
    assert_eq!(Submission::Answer.effect(Effect::Pending), Effect::Known);
    let refused = Submission::Refuse(AccessError::Unavailable).effect(Effect::Pending);
    assert_eq!(
        Dispatch::Managed.settle(refused),
        Settled::Error(AccessError::Unavailable)
    );
    assert_eq!(
        Dispatch::Managed.settle(Submission::Answer.effect(Effect::Pending)),
        Settled::Answered
    );
}

#[test]
fn a_probe_is_answered_though_no_promise_can_be_made_yet() {
    let told = AccessError::Unavailable;
    for begun in [
        Ok(()),
        Err(LedgerError::NativeUnsupported),
        Err(LedgerError::Consensus(ConsensusError::PersistencePending)),
    ] {
        assert_eq!(supported(begun, told), Effect::Done);
    }
    for begun in [
        LedgerError::Capacity,
        LedgerError::Consensus(ConsensusError::Capacity),
        LedgerError::Native { retryable: true },
    ] {
        assert_eq!(supported(Err(begun), told), Effect::Failed(told));
    }
    assert_eq!(
        Dispatch::Support { begin: true }.settle(Effect::Failed(told)),
        Settled::Error(told)
    );
}

#[test]
fn an_export_that_cannot_begin_fails_nobody() {
    let consensus = LedgerError::Consensus(ConsensusError::DependencyFailure);
    assert_eq!(begin_evidence(true, Ok(())), Begun::Poll);
    assert_eq!(begin_evidence(true, Err(consensus)), Begun::Answer(consensus));
    assert_eq!(
        begin_evidence(false, Ok(())),
        Begun::Fail(LedgerError::Failed)
    );
    // A poll that fails so fails the owner with it.
    assert_eq!(
        cancelled(consensus, true, Ok(())),
        (Some(consensus), Err(LedgerError::Failed))
    );
    assert_eq!(
        cancelled(LedgerError::OutcomeUnknown, false, Ok(())),
        (Some(LedgerError::OutcomeUnknown), Ok(()))
    );
    assert_eq!(
        cancelled(LedgerError::OutcomeUnknown, false, Err(LedgerError::Corrupt)),
        (None, Err(LedgerError::Corrupt))
    );
}

#[test]
fn every_message_is_sent_or_counted() {
    let (mut drain, turn) = Draining::drain_with_runtime(true, 1024 * 1024, 4, 0);
    assert_eq!(turn, DrainTurn::Poll);
    assert_eq!(drain.step(Drained::Events { messages: 4 }), DrainTurn::Drive);
    assert_eq!(
        drain.step(Drained::NotDriven { retryable: true }),
        DrainTurn::Resolve
    );
    assert_eq!(
        drain.step(Drained::Resolved {
            nonce: 4,
            outcome: Ok(())
        }),
        DrainTurn::Follow { message: 0 }
    );
    assert_eq!(
        drain.step(Drained::Followed { size: 100 }),
        DrainTurn::Reserve {
            message: 0,
            bytes: 4296
        }
    );
    assert_eq!(
        drain.step(Drained::Could(true)),
        DrainTurn::Write { message: 0 }
    );
    assert_eq!(
        drain.step(Drained::Could(true)),
        DrainTurn::Send {
            message: 0,
            nonce: 5
        }
    );
    assert_eq!(
        drain.step(Drained::Could(true)),
        DrainTurn::Follow { message: 1 }
    );
    assert_eq!(drain.dropped, 0);
    // A message no frame holds is never taken for a delivered one.
    assert_eq!(
        drain.step(Drained::Followed { size: 1024 * 1024 }),
        DrainTurn::Follow { message: 2 }
    );
    assert_eq!(drain.dropped, 1);
    // A snapshot that cannot be followed is reported as failed.
    assert_eq!(
        drain.step(Drained::NotFollowed),
        DrainTurn::Report { message: 2 }
    );
    assert_eq!(
        drain.step(Drained::Done(Ok(()))),
        DrainTurn::Follow { message: 3 }
    );
    assert_eq!(
        drain.step(Drained::Followed { size: 1 }),
        DrainTurn::Reserve {
            message: 3,
            bytes: 4098
        }
    );
    assert_eq!(drain.step(Drained::Could(false)), DrainTurn::Feedback);
    assert_eq!((drain.dropped, drain.nonce), (3, 5));
    assert_eq!(drain.step(Drained::Done(Ok(()))), DrainTurn::Publish);
    assert_eq!(drain.step(Drained::Done(Ok(()))), DrainTurn::Return(Ok(())));
    // Reads that resolving asked for were numbered before the messages.
    let (mut drain, _) = Draining::drain_with_runtime(false, 1024, 4, 0);
    drain.step(Drained::Events { messages: 1 });
    let mut failing = drain;
    drain.step(Drained::Resolved {
        nonce: 7,
        outcome: Ok(()),
    });
    drain.step(Drained::Followed { size: 1 });
    drain.step(Drained::Could(true));
    assert_eq!(
        drain.step(Drained::Could(true)),
        DrainTurn::Send {
            message: 0,
            nonce: 8
        }
    );
    assert_eq!(
        failing.step(Drained::Resolved {
            nonce: u64::MAX,
            outcome: Err(LedgerError::Capacity)
        }),
        DrainTurn::Return(Err(LedgerError::Capacity))
    );
    assert_eq!(failing.nonce, u64::MAX);
    // A retained delivery stops nothing; a failure does.
    let (mut drain, _) = Draining::drain_with_runtime(false, 1, 4, u64::MAX);
    let mut failing = drain;
    assert_eq!(
        drain.step(Drained::Done(Err(LedgerError::Retry))),
        DrainTurn::Publish
    );
    assert_eq!(
        failing.step(Drained::Done(Err(LedgerError::Failed))),
        DrainTurn::Return(Err(LedgerError::Failed))
    );
    let (mut drain, _) = Draining::drain_with_runtime(false, 1, 4, u64::MAX);
    assert_eq!(drain.step(Drained::Nothing), DrainTurn::Expire);
    assert_eq!(drain.step(Drained::Done(Ok(()))), DrainTurn::Publish);
    let (mut drain, _) = Draining::drain_with_runtime(true, 1, 4, 0);
    drain.step(Drained::Events { messages: 0 });
    assert_eq!(
        drain.step(Drained::NotDriven { retryable: false }),
        DrainTurn::Return(Err(LedgerError::Failed))
    );
    let mut id = 3u64.to_be_bytes().to_vec();
    id.extend_from_slice(&5u64.to_be_bytes());
    assert_eq!(frame_id(3, 5).to_vec(), id);
}

#[test]
fn exports_are_bounded() {
    assert_eq!(lease(0), Err(LedgerError::Capacity));
    assert_eq!(lease(MILLISECOND - 1), Err(LedgerError::Capacity));
    assert_eq!(lease(30 * SECOND), Ok(30_000));
    assert_eq!(lease(30 * SECOND + 1), Err(LedgerError::Capacity));
    assert_eq!(
        accept_evidence(true, false, false, true),
        Export::Refuse(LedgerError::Capacity)
    );
    assert_eq!(accept_evidence(false, false, false, true), Export::Keep);
    assert_eq!(accept_evidence(false, false, false, false), Export::Now);
    let facts = ExportFacts {
        stopping: false,
        closed: false,
        expired: false,
        persistence: false,
        ready: false,
        pending: 0,
    };
    assert_eq!(progress_evidence(false, &facts), Export::Begin);
    assert_eq!(progress_evidence(true, &facts), Export::Poll);
    assert_eq!(
        progress_evidence(
            true,
            &ExportFacts {
                expired: true,
                ..facts
            }
        ),
        Export::Cancel
    );
    assert_eq!(
        progress_evidence(
            false,
            &ExportFacts {
                pending: 1,
                ..facts
            }
        ),
        Export::Keep
    );
    assert_eq!(finish_evidence(Exported::Done), Outcome::Deliver);
    assert_eq!(
        finish_evidence(Exported::Failed(LedgerError::Consensus(
            ConsensusError::Capacity
        ))),
        Outcome::Fail {
            error: LedgerError::Consensus(ConsensusError::Capacity),
            fatal: true
        }
    );
}

fn tenant(n: u128) -> FleetTenant {
    FleetTenant {
        tenant: id(n),
        weight: 1,
        within: true,
    }
}
fn replica(session: u128) -> FleetReplica {
    FleetReplica {
        ledger: ledger(session),
        node: 1,
        cluster: [7; 16],
        budgeted: true,
        active_route: None,
        config: ReplicaConfig::new(id(9)),
    }
}

#[test]
fn a_fleet_seats_all_its_sessions_or_none() {
    let limits = WireLimits::wire_limits(&limits());
    let spawn = |replicas: Vec<FleetReplica>, tenants: Vec<FleetTenant>| {
        ReplicaFleet::spawn(1, &replicas, &tenants, &limits, true)
    };
    let seats = spawn(vec![replica(2), replica(3)], vec![tenant(1)]).unwrap();
    assert_eq!(
        seats[1],
        Seat {
            ledger: ledger(3),
            incarnation: 2,
            slots: 32,
            reserved: 8
        }
    );
    let mut elsewhere = replica(3);
    elsewhere.node = 2;
    let mut unbudgeted = replica(3);
    unbudgeted.budgeted = false;
    let mut small = replica(3);
    small.config.queue_items = 3;
    for wrong in [
        spawn(vec![], vec![tenant(1)]),
        spawn(vec![replica(2)], vec![]),
        spawn(vec![replica(2), replica(2)], vec![tenant(1)]),
        spawn(vec![replica(2)], vec![tenant(4)]),
        spawn(vec![replica(2)], vec![tenant(1), tenant(1)]),
        spawn(vec![replica(2), elsewhere], vec![tenant(1)]),
        spawn(vec![replica(2), unbudgeted], vec![tenant(1)]),
        spawn(vec![replica(2), small], vec![tenant(1)]),
    ] {
        assert_eq!(wrong, Err(LedgerError::Capacity));
    }
    let mut moved = replica(3);
    moved.active_route = Some(5);
    assert_eq!(
        spawn(vec![replica(2), moved], vec![tenant(1)]),
        Err(LedgerError::PlacementConflict)
    );
    assert_eq!(bookkeeping(2, 1000), Ok(4048 + STACK_BYTES));
    assert_eq!(shared_bytes(100, 28, 7), Ok(1024 * 256 + 7));
    assert_eq!(handle_bytes(2, 10), Ok(2122));
    assert_eq!(quota(3, 9).max_items, 256);
}

#[test]
fn work_is_classed_by_what_is_asked() {
    let ordinary = Operation::Submit {
        command: plain(Lane::Ordinary),
    };
    let completing = Operation::Submit {
        command: plain(Lane::Completion),
    };
    assert_eq!(class(Work::Request, &ordinary), WorkClass::Append);
    assert_eq!(class(Work::Request, &completing), WorkClass::Completion);
    assert_eq!(
        class(Work::Request, &Operation::Raft { group: id(1) }),
        WorkClass::Apply
    );
    assert_eq!(
        class(Work::Request, &Operation::Reconcile),
        WorkClass::Query
    );
    assert_eq!(class(Work::Probe, &ordinary), WorkClass::Query);
    assert_eq!(class(Work::Probe, &completing), WorkClass::Completion);
    assert_eq!(class(Work::Membership, &ordinary), WorkClass::Control);
    assert_eq!(lane(Work::Membership, &ordinary), Lane::Completion);
    assert_eq!(lane(Work::Request, &ordinary), Lane::Ordinary);
    assert_eq!(lane(Work::Probe, &ordinary), Lane::Ordinary);
}

#[test]
fn a_worker_looks_at_the_earliest_session_and_stops_one_alone() {
    let mut group = GroupOwner {
        sessions: vec![],
        nonce: 0,
    };
    assert_eq!(group.wait(0), 100 * MILLISECOND);
    group.install(ledger(3), 7, 50);
    group.install(ledger(2), 8, 50);
    assert_eq!(group.due(49), None);
    assert_eq!(group.due(50), Some(ledger(2)));
    assert_eq!(group.wait(20), 30);
    group.reschedule(&ledger(2), 900, false);
    assert_eq!(group.due(60), Some(ledger(3)));
    let operation = Operation::Summary;
    assert_eq!(
        group.enqueue(&ledger(2), 8, Work::Request, &operation, Some(70_000)),
        Ok(Enqueued::Queued {
            id: 1,
            class: WorkClass::Append,
            cost: 65536
        })
    );
    assert_eq!(
        group.enqueue(&ledger(2), 8, Work::Diagnostics, &operation, None),
        Ok(Enqueued::Queued {
            id: 2,
            class: WorkClass::Control,
            cost: 1
        })
    );
    assert_eq!(
        group.enqueue(&ledger(2), 6, Work::Request, &operation, Some(0)),
        Ok(Enqueued::Dropped)
    );
    assert_eq!(
        group.enqueue(&ledger(2), 8, Work::Stop, &operation, None),
        Ok(Enqueued::Stop)
    );
    // What comes after it is dropped, and nothing of it is dispatched.
    assert_eq!(
        group.enqueue(&ledger(2), 8, Work::Request, &operation, None),
        Ok(Enqueued::Dropped)
    );
    assert!(!group.dispatches(&ledger(2)));
    assert!(group.dispatches(&ledger(3)));
    group.reschedule(&ledger(3), 70, true);
    assert!(!group.dispatches(&ledger(3)));
    assert!(group.runs(&ledger(3)));
    group.stop_session(&ledger(3));
    assert!(!group.runs(&ledger(3)));
    assert!(group.runs(&ledger(2)));
    group.install(ledger(4), 9, 60);
    group.nonce = u128::MAX;
    assert_eq!(
        group.enqueue(&ledger(4), 9, Work::Request, &operation, Some(0)),
        Err(LedgerError::Capacity)
    );
    assert!(finished(Some(false), 3));
    assert!(finished(None, 0));
    assert!(!finished(Some(true), 0));
    assert!(goes_on(Ok(false)));
    assert!(!goes_on(Ok(true)));
    assert!(!goes_on(Err(LedgerError::Failed)));
}

fn writer(n: u64) -> Writer {
    Writer {
        id: n,
        of: Some(([7; 16], 1)),
        within: true,
    }
}
fn fleet() -> FleetManager {
    FleetManager::spawn_managed(
        1,
        [7; 16],
        &vec![writer(10)],
        vec![tenant(1)],
        WireLimits::wire_limits(&limits()),
        true,
        ManagedFleetConfig::default(),
        99,
    )
    .unwrap()
}
fn candidate(tenant: u128, session: u128) -> Candidate {
    Candidate {
        ledger: LedgerId {
            tenant: id(tenant),
            session: id(session),
        },
        group: id(session),
        node: 1,
        cluster: [7; 16],
        budgeted: true,
        writer: 10,
        active_route: None,
        config: ReplicaConfig::new(id(9)),
    }
}

#[test]
fn a_worker_does_what_its_manager_asks() {
    let mut fleet = fleet();
    let mut group = GroupOwner {
        sessions: vec![],
        nonce: 0,
    };
    let ledger = candidate(1, 1).ledger;
    let install = ManagementWork::Install {
        sequence: 1,
        candidate: candidate(1, 1),
        granted: true,
    };
    let (ManagementReply::Installed(Ok(installed)), false) =
        fleet.handle(&mut group, install, 40)
    else {
        panic!("installed");
    };
    assert_eq!(installed.ledger(), ledger);
    for again in [install, ManagementWork::Retry { sequence: 1 }] {
        assert_eq!(
            fleet.handle(&mut group, again, 41),
            (ManagementReply::Installed(Ok(installed)), false)
        );
    }
    assert_eq!(
        fleet.handle(&mut group, ManagementWork::Inspect { ledger }, 42),
        (ManagementReply::Inspected(Some(installed)), false)
    );
    let removal = FleetRemoval {
        ledger,
        incarnation: installed.incarnation(),
    };
    let remove = ManagementWork::Remove {
        sequence: 2,
        removal,
    };
    assert_eq!(
        fleet.handle(&mut group, remove, 43),
        (ManagementReply::Removed(Err(FleetError::Running)), false)
    );
    group.stop_session(&ledger);
    fleet.stopped(&ledger);
    assert_eq!(
        fleet.handle(&mut group, remove, 44),
        (ManagementReply::Removed(Ok(removal)), false)
    );
    assert_eq!(
        fleet.handle(&mut group, ManagementWork::Quiesce, 45),
        (ManagementReply::Done, false)
    );
    assert!(fleet.quiesced);
    assert_eq!(
        fleet.handle(&mut group, ManagementWork::Shutdown, 46),
        (ManagementReply::Done, true)
    );
}

#[test]
fn a_tenant_admitted_at_runtime_installs_its_sessions_under_its_own_quota() {
    let mut fleet = fleet();
    let mut group = GroupOwner {
        sessions: vec![],
        nonce: 0,
    };
    fleet
        .install(&mut group, 1, &candidate(1, 1), true, 0)
        .unwrap();
    // A session of a tenant the fleet does not host is refused before
    // admission, with its candidate handed back.
    let refused = fleet
        .offer(candidate(2, 2), true, true, HostQueue::Sent)
        .unwrap_err();
    assert_eq!(refused.error, FleetError::InvalidSession);
    assert!(refused.replica.is_some());
    assert!(!fleet.is_admitted(&id(2)));
    // A tenant budget outside the fleet's own is not a tenant of this fleet.
    let mut foreign = tenant(2);
    foreign.within = false;
    assert_eq!(
        fleet.admit_tenant(foreign),
        Err(FleetError::InvalidSession)
    );
    fleet.admit_tenant(tenant(2)).unwrap();
    assert!(fleet.is_admitted(&id(2)));
    // Admission is idempotent, and the tenant's sessions now install.
    fleet.admit_tenant(tenant(2)).unwrap();
    fleet
        .offer(candidate(2, 2), true, true, HostQueue::Sent)
        .unwrap();
    fleet
        .install(&mut group, 2, &candidate(2, 2), true, 0)
        .unwrap();
    assert_eq!(fleet.status().installed, 2);
    assert!(fleet.hosts(&candidate(2, 2).ledger));
    assert_eq!(fleet.tenants.len(), 2);
}

#[test]
fn management_operations_follow_one_another() {
    let mut fleet = fleet();
    let mut group = GroupOwner {
        sessions: vec![],
        nonce: 0,
    };
    assert_eq!(
        fleet.install(&mut group, 2, &candidate(1, 1), true, 0),
        Err(FleetError::OutOfOrder)
    );
    let installed = fleet
        .install(&mut group, 1, &candidate(1, 1), true, 0)
        .unwrap();
    assert_eq!(
        installed.incarnation(),
        FleetIncarnation {
            owner: 99,
            sequence: 1
        }
    );
    assert_eq!(installed.ledger(), candidate(1, 1).ledger);
    assert_eq!(installed.group(), id(1));
    assert_eq!(
        fleet.status(),
        FleetStatus {
            latest_sequence: 1,
            installed: 1,
            running: 1,
            stopped: false
        }
    );
    // The very same operation answers the same; another one conflicts.
    assert_eq!(
        fleet.install(&mut group, 1, &candidate(1, 1), false, 0),
        Ok(installed)
    );
    assert_eq!(
        fleet.install(&mut group, 1, &candidate(1, 2), true, 0),
        Err(FleetError::Conflict)
    );
    assert_eq!(fleet.retry(1), Ok(installed));
    assert_eq!(fleet.retry(0), Err(FleetError::RetryExpired));
    assert_eq!(fleet.retry(2), Err(FleetError::OutOfOrder));
    assert_eq!(
        fleet.install(&mut group, 2, &candidate(1, 1), true, 0),
        Err(FleetError::Conflict)
    );
    assert_eq!(
        fleet.install(&mut group, 2, &candidate(1, 2), false, 0),
        Err(FleetError::Capacity)
    );
    assert_eq!(
        fleet.install(&mut group, 2, &candidate(3, 2), true, 0),
        Err(FleetError::InvalidSession)
    );
    assert_eq!(fleet.inspect(&candidate(1, 1).ledger), Some(installed));
    assert_eq!(fleet.current_host(&candidate(1, 1).ledger), Ok(installed));
    // Only a stopped incarnation is removed.
    let removal = FleetRemoval {
        ledger: candidate(1, 1).ledger,
        incarnation: installed.incarnation(),
    };
    assert_eq!(
        fleet.remove(&group, 2, &removal),
        Err(FleetError::Running)
    );
    group.stop_session(&candidate(1, 1).ledger);
    fleet.stopped(&candidate(1, 1).ledger);
    let mut other = removal;
    other.incarnation.sequence = 7;
    assert_eq!(fleet.remove(&group, 2, &other), Err(FleetError::Conflict));
    assert_eq!(fleet.remove(&group, 2, &removal), Ok(removal));
    assert_eq!(fleet.remove(&group, 2, &removal), Ok(removal));
    assert_eq!(fleet.inspect(&candidate(1, 1).ledger), None);
    assert_eq!(
        fleet.current_host(&candidate(1, 1).ledger),
        Err(FleetError::Unavailable)
    );
    assert_eq!(policy_bytes(2, 3), Ok(1024 + 192 + 4096));
    assert_eq!(managed_bookkeeping(5312), Ok(STACK_BYTES + 5312));
    assert_eq!(
        managed_bookkeeping(usize::MAX),
        Err(LedgerError::Capacity)
    );
    assert_eq!(*FleetReply::new(5).value(), 5);
}

#[test]
fn a_fleet_is_quiesced_and_stopped_session_by_session() {
    let mut fleet = fleet();
    let mut group = GroupOwner {
        sessions: vec![],
        nonce: 0,
    };
    for n in [2, 1, 3] {
        fleet
            .install(&mut group, fleet.sequence + 1, &candidate(1, n), true, 0)
            .unwrap();
    }
    assert_eq!(
        fleet.next_host(&None).unwrap().ledger(),
        candidate(1, 1).ledger
    );
    assert_eq!(
        fleet
            .next_host(&Some(candidate(1, 1).ledger))
            .unwrap()
            .ledger(),
        candidate(1, 2).ledger
    );
    fleet.quiesce();
    assert_eq!(fleet.next_host(&None), None);
    assert_eq!(
        fleet.install(&mut group, 4, &candidate(1, 4), true, 0),
        Err(FleetError::Unavailable)
    );
    let mut stop = StopAll::new();
    let mut order = vec![];
    while let Some(host) = stop.next(&fleet) {
        order.push(host.ledger());
        stop.stopped(host.ledger() != candidate(1, 2).ledger);
    }
    assert_eq!(
        order,
        vec![
            candidate(1, 1).ledger,
            candidate(1, 2).ledger,
            candidate(1, 3).ledger
        ]
    );
    assert_eq!(stop.finish(Ok(())), Err(FleetError::Unavailable));
    assert!(StopAll::new().finish(Ok(())).is_ok());
    fleet.publish(0, true);
    assert_eq!(fleet.permit(true, true), Err(FleetError::Unavailable));
}

#[test]
fn a_managed_fleet_is_set_up_within_bounds() {
    let spawn = |writers: Vec<Writer>, tenants: Vec<FleetTenant>, config| {
        FleetManager::spawn_managed(
            1,
            [7; 16],
            &writers,
            tenants,
            limits(),
            true,
            config,
            1,
        )
    };
    let config = ManagedFleetConfig::default();
    assert_eq!((config.max_sessions, config.management_queue), (1024, 64));
    let mut unread = writer(1);
    unread.of = None;
    assert_eq!(
        spawn(vec![unread], vec![tenant(1)], config),
        Err(LedgerError::Failed)
    );
    let mut foreign = writer(1);
    foreign.of = Some(([7; 16], 2));
    let mut large = config;
    large.max_sessions = 4097;
    let mut queue = config;
    queue.management_queue = 129;
    for wrong in [
        spawn(vec![], vec![tenant(1)], config),
        spawn(vec![writer(1), writer(1)], vec![tenant(1)], config),
        spawn(vec![foreign], vec![tenant(1)], config),
        spawn(vec![writer(1)], vec![tenant(1), tenant(1)], config),
        spawn(vec![writer(1)], vec![tenant(1)], large),
        spawn(vec![writer(1)], vec![tenant(1)], queue),
    ] {
        assert_eq!(wrong, Err(LedgerError::Capacity));
    }
    for (error, text) in [
        (FleetError::Capacity, "fleet capacity exhausted"),
        (
            FleetError::InvalidSession,
            "session does not match the installed node, tenant or writer policy",
        ),
        (
            FleetError::Conflict,
            "management operation conflicts with an installed incarnation or latest intent",
        ),
        (
            FleetError::RetryExpired,
            "only the latest management operation can be retried",
        ),
        (
            FleetError::OutOfOrder,
            "management sequence must follow the latest accepted operation",
        ),
        (
            FleetError::Running,
            "session must be stopped before its registration can be removed",
        ),
        (
            FleetError::Unavailable,
            "fleet is unavailable; an accepted installation may have completed",
        ),
    ] {
        assert_eq!(error.message(), text);
    }
}

#[test]
fn success_waits_for_its_quorum() {
    for (dispatch, waiting) in [
        (Dispatch::Submit, WaitingFor::Mutation),
        (Dispatch::Managed, WaitingFor::ManagedMutation),
        (Dispatch::Native, WaitingFor::NativeMutation),
    ] {
        assert_eq!(dispatch.settle(Effect::Pending), Settled::Waits(waiting));
        assert_eq!(dispatch.settle(Effect::Committed), Settled::Answered);
        assert_eq!(
            dispatch.settle(Effect::Failed(AccessError::Capacity)),
            Settled::Error(AccessError::Capacity)
        );
    }
    assert_eq!(
        Dispatch::Refuse(AccessError::Unauthorized).settle(Effect::Done),
        Settled::Error(AccessError::Unauthorized)
    );
    assert_eq!(
        Dispatch::Step { node: 3 }.settle(Effect::Done),
        Settled::Waits(WaitingFor::PeerPersistence)
    );
    assert_eq!(
        Dispatch::StreamControl.settle(Effect::Committed),
        Settled::Waits(WaitingFor::RequestStreamControl { reading: None })
    );
    assert_eq!(
        Dispatch::ManagedCursor.settle(Effect::Known),
        Settled::Answered
    );
    assert_eq!(Dispatch::Serve.settle(Effect::Done), Settled::Answered);
    let barrier = Dispatch::Barrier(ticket(Purpose::Select));
    let settled = barrier.settle(Effect::Done);
    assert_eq!(settled, Settled::Waits(quorum(Purpose::Select)));
    let mut queue = VecDeque::new();
    let request = verified(Operation::Select { resumed: false });
    assert!(owner()
        .enter(&mut queue, &request, settled, 5, 70, AccessError::Unavailable)
        .is_none());
    assert_eq!(queue[0].token, 5);
    assert_eq!((queue[0].term, queue[0].deadline), (6, 70));
    assert_eq!(
        owner().enter(
            &mut queue,
            &request,
            Settled::Answered,
            6,
            70,
            AccessError::Unavailable
        ),
        Some((6, Ok(())))
    );
    assert_eq!(queue.len(), 1);
    // A stream's command waits for its receipt, then for a read.
    let mut control = waiting(WaitingFor::RequestStreamControl { reading: None });
    let reading = ticket(Purpose::Control);
    assert_eq!(
        control.resolve(&owner(), &nothing(), Found::Reply, 50),
        Fate::Kept
    );
    assert_eq!(
        control.resolve(&owner(), &nothing(), Found::Reading(reading), 50),
        Fate::Kept
    );
    assert_eq!(
        control.waiting,
        WaitingFor::RequestStreamControl {
            reading: Some(reading)
        }
    );
    assert_eq!(
        control.resolve(&owner(), &nothing(), Found::Reply, 50),
        Fate::Kept
    );
    let events = answered(&[Purpose::Control]);
    assert_eq!(
        control.resolve(&owner(), &events, Found::Reply, 50),
        Fate::Answered
    );
    // Every read is asked under a number of its own.
    let mut owner = owner();
    for nonce in [9, 10, 11] {
        let Dispatch::Barrier(next) = owner.request(&verified(Operation::Summary), &checked())
        else {
            panic!("a summary is read behind a barrier");
        };
        assert_eq!((next.nonce, owner.nonce), (nonce, nonce));
    }
}

#[test]
fn a_worker_gives_each_task_its_slice() {
    let (mut cycle, mut action) = Cycle::start(false);
    let mut steps = 0;
    while action == Do::Due {
        action = cycle.step(Did::One, false);
        steps += 1;
    }
    assert_eq!((steps, action), (32, Do::Input));
    assert_eq!(cycle.step(Did::Nothing, false), Do::Schedule);
    // One piece of work ran and the scheduler has more: the turn begins anew.
    assert_eq!(cycle.step(Did::One, false), Do::Schedule);
    assert_eq!(
        cycle.step(Did::Later { blocked: false }, false),
        Do::Due
    );
    cycle.step(Did::Nothing, false);
    cycle.step(Did::Nothing, false);
    // Only a disk can let anything go on: the worker sleeps.
    assert_eq!(cycle.step(Did::Later { blocked: true }, false), Do::Sleep);
    assert_eq!(cycle.step(Did::Nothing, true), Do::Stop);
    assert_eq!(Cycle::start(true).1, Do::Stop);
    assert_eq!(try_send(false, HostQueue::Sent), HostQueue::Full);
    assert_eq!(
        try_send(true, HostQueue::Disconnected),
        HostQueue::Disconnected
    );
}
