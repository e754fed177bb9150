//! What a request that reaches a session's owner is promised: who is refused
//! and why, what an open owner does for each kind of request, and what becomes
//! of it once that was done.
use super::request::{
    Checked, Correlation, Dispatch, Effect, Owner, Purpose, Settled, Submission, Ticket,
};
use super::resolve::WaitingFor;
use crate::access::AccessError;
use crate::evidence::request::{artifact_of, EvidenceAttestation, EvidenceWitness};
use crate::operation::{ManagedOperation, Operation, PeerRole, VerifiedRequest};
use vstd::prelude::*;

verus! {

/// Whether the request is a peer's own: consensus traffic, or a probe of what
/// the replica supports.
pub open spec fn is_of_a_peer(operation: Operation) -> bool {
    operation is Raft || operation is ManagedSupport
}

/// Whether the request reaches the owner at all: a deadline can be set, it is of
/// this ledger, and clients are served at its route.
pub open spec fn reaches(owner: Owner, verified: VerifiedRequest) -> bool {
    &&& owner.clock
    &&& verified.request.ledger == owner.ledger
    &&& verified.request.route_epoch == owner.route_epoch
    &&& !owner.cutover
    &&& owner.active_route is None || owner.active_route == Some(verified.request.route_epoch)
    &&& !is_of_a_peer(verified.request.operation)
}

/// Whether the owner has room for one more request that waits, and a number for
/// its read.
pub open spec fn has_room(owner: Owner) -> bool {
    owner.pending != owner.pending_clients && owner.nonce < u64::MAX
}

/// Without a deadline nothing is done; nothing of another ledger is, and no
/// client at a closed route.
pub proof fn what_does_not_reach_an_owner_is_refused(
    owner: Owner,
    verified: VerifiedRequest,
    checked: Checked,
)
    ensures
        !owner.clock ==> owner.dispatch(verified, checked) == Dispatch::Refuse(
            AccessError::Unavailable,
        ),
        owner.clock && verified.request.ledger != owner.ledger ==> owner.dispatch(verified, checked)
            == Dispatch::Refuse(AccessError::Unauthorized),
        owner.clock && verified.request.ledger == owner.ledger && !is_of_a_peer(
            verified.request.operation,
        ) && !reaches(owner, verified) ==> owner.dispatch(verified, checked) == Dispatch::Refuse(
            AccessError::Unavailable,
        ),
{
}

/// A command is proposed, whatever it is; a cursor is begun; a stream's command
/// is proposed: an owner with room turns none of them away.
pub proof fn a_command_is_taken(owner: Owner, verified: VerifiedRequest, checked: Checked)
    requires
        reaches(owner, verified),
        has_room(owner),
    ensures
        match verified.request.operation {
            Operation::Managed { operation: ManagedOperation::Submit { .. }, .. } => {
                owner.dispatch(verified, checked) == Dispatch::Managed
            },
            Operation::Managed { operation: ManagedOperation::Cursor, .. } => {
                owner.dispatch(verified, checked) == Dispatch::ManagedCursor
            },
            Operation::RequestStreamControl { .. } => owner.dispatch(verified, checked)
                == Dispatch::StreamControl,
            Operation::Submit { .. } | Operation::OpenEpoch => owner.dispatch(verified, checked)
                == Dispatch::Submit,
            Operation::Stream { .. } => owner.dispatch(verified, checked) == Dispatch::Stream,
            _ => true,
        },
{
}

/// A native frame is proposed where its own checks passed and, where it bears an
/// artifact, its evidence is at hand; its checks come first.
pub proof fn a_native_frame_is_taken_with_its_evidence(
    owner: Owner,
    verified: VerifiedRequest,
    checked: Checked,
)
    requires
        reaches(owner, verified),
        has_room(owner),
        verified.request.operation is Native,
    ensures
        ({
            let bears = verified.request.operation matches Operation::Native {
                header: Some(header),
            } && header.artifact_bearing;
            owner.dispatch(verified, checked) == (match checked.valid {
                Err(error) => Dispatch::Refuse(error),
                Ok(_) => if bears && !checked.evidenced {
                    Dispatch::Refuse(AccessError::UnsupportedOperation)
                } else {
                    Dispatch::Native
                },
            })
        }),
{
}

/// What a read waits behind, of those that take a barrier at all.
pub open spec fn reads_for(operation: Operation) -> Option<Purpose> {
    match operation {
        Operation::RequestStreamRead { .. } => Some(Purpose::RequestStream),
        Operation::Monitor => Some(Purpose::Monitor),
        Operation::Summary => Some(Purpose::Summary),
        Operation::Reconcile => Some(Purpose::Reconcile),
        Operation::List { resumed: false } => Some(Purpose::List),
        Operation::Select { resumed: false } => Some(Purpose::Select),
        Operation::Validators { resumed: false } => Some(Purpose::Validators),
        Operation::Traverse { resumed: false } => Some(Purpose::Traverse),
        Operation::Read { linearizable: true, .. } => Some(Purpose::Read),
        _ => None,
    }
}

/// A read that must see the present waits behind a barrier of its own: under the
/// owner's next number, for the peer and the request that asked, and for what
/// the request asked.
pub proof fn a_fresh_read_takes_its_own_barrier(
    owner: Owner,
    verified: VerifiedRequest,
    checked: Checked,
    purpose: Purpose,
)
    requires
        reaches(owner, verified),
        has_room(owner),
        owner.authoritative,
        checked.valid is Ok,
        reads_for(verified.request.operation) == Some(purpose),
        verified.request.operation matches Operation::RequestStreamRead { cluster } ==> cluster
            == owner.cluster,
    ensures
        owner.dispatch(verified, checked) == Dispatch::Barrier(
            Ticket {
                purpose,
                nonce: (owner.nonce + 1) as u64,
                principal: verified.peer.principal,
                request: verified.request.request_id,
            },
        ),
{
}

/// Only a barrier's reads take one, and each its own.
pub proof fn a_barrier_is_for_what_was_asked(
    owner: Owner,
    verified: VerifiedRequest,
    checked: Checked,
    ticket: Ticket,
)
    requires
        owner.dispatch(verified, checked) == Dispatch::Barrier(ticket),
    ensures
        reaches(owner, verified),
        has_room(owner),
        reads_for(verified.request.operation) == Some(ticket.purpose),
        ticket.nonce == owner.nonce + 1,
        ticket.principal == verified.peer.principal,
        ticket.request == verified.request.request_id,
        ticket.purpose is Monitor || ticket.purpose is Summary || ticket.purpose is Reconcile
            || ticket.purpose is List || ticket.purpose is Select || ticket.purpose is Validators
            || ticket.purpose is Traverse ==> owner.authoritative,
        ticket.purpose is RequestStream ==> (
        verified.request.operation matches Operation::RequestStreamRead { cluster } && cluster
            == owner.cluster),
        ticket.purpose is List || ticket.purpose is Select || ticket.purpose is Validators
            || ticket.purpose is Traverse ==> checked.valid is Ok,
{
}

/// A page that a cursor names, and a read that may be behind, are served from
/// what is published here, by whoever has it.
pub proof fn a_resumed_page_is_served(owner: Owner, verified: VerifiedRequest, checked: Checked)
    requires
        reaches(owner, verified),
        checked.valid is Ok,
    ensures
        verified.request.operation == (Operation::List { resumed: true })
            || verified.request.operation == (Operation::Select { resumed: true })
            || verified.request.operation == (Operation::Validators { resumed: true })
            || verified.request.operation == (Operation::Traverse { resumed: true }) || (
        verified.request.operation matches Operation::Read { linearizable, .. } && !linearizable)
            ==> owner.dispatch(verified, checked) == Dispatch::Serve,
        verified.request.operation == (Operation::NativeRead { linearizable: false })
            || verified.request.operation is NativeList ==> owner.dispatch(verified, checked) == (
        if checked.served {
            Dispatch::Serve
        } else {
            Dispatch::Refuse(AccessError::Unavailable)
        }),
        checked.served && verified.request.operation == (Operation::NativeRead {
            linearizable: true,
        }) && owner.authoritative && has_room(owner) ==> owner.dispatch(verified, checked)
            == Dispatch::NativeBarrier(
            Correlation {
                principal: verified.peer.principal,
                request: verified.request.request_id,
                nonce: (owner.nonce + 1) as u64,
            },
        ),
{
}

/// Checks that fail refuse a page, a native frame with room and a native read
/// with their own error.
pub proof fn a_failed_check_is_told(
    owner: Owner,
    verified: VerifiedRequest,
    checked: Checked,
    error: AccessError,
)
    requires
        reaches(owner, verified),
        checked.valid == Err::<(), AccessError>(error),
        verified.request.operation is List || verified.request.operation is Select
            || verified.request.operation is Validators || verified.request.operation is Traverse
            || verified.request.operation is NativeRead || verified.request.operation is NativeList,
    ensures
        owner.dispatch(verified, checked) == Dispatch::Refuse(error),
{
}

/// A replica without its whole authority refuses the reads only the authority
/// may serve as unavailable; a linearizable read and a stream's it still asks
/// for.
pub proof fn only_the_authority_serves_the_present(
    owner: Owner,
    verified: VerifiedRequest,
    checked: Checked,
)
    requires
        reaches(owner, verified),
        !owner.authoritative,
        checked.valid is Ok,
        checked.served,
    ensures
        (reads_for(verified.request.operation) matches Some(purpose) && !(purpose is Read)
            && !(purpose is RequestStream)) ==> owner.dispatch(verified, checked)
            == Dispatch::Refuse(AccessError::Unavailable),
        verified.request.operation == (Operation::NativeRead { linearizable: true })
            ==> owner.dispatch(verified, checked) == Dispatch::Refuse(AccessError::Unavailable),
        has_room(owner) && (verified.request.operation matches Operation::Read {
            linearizable,
            ..
        } && linearizable) ==> owner.dispatch(verified, checked) is Barrier,
{
}

/// What has no room is told so; a read for which no number is left is told that
/// it is unavailable.
pub proof fn what_has_no_room_is_told_so(owner: Owner, verified: VerifiedRequest, checked: Checked)
    requires
        reaches(owner, verified),
        owner.authoritative,
        checked.valid is Ok,
        checked.served,
    ensures
        ({
            let operation = verified.request.operation;
            let waits = reads_for(operation) is Some || operation is Managed || operation
                is RequestStreamControl || operation is Submit || operation is OpenEpoch
                || operation is Stream || operation is Native || operation == (
            Operation::NativeRead { linearizable: true });
            let own = operation matches Operation::RequestStreamRead { cluster } ==> cluster
                == owner.cluster;
            &&& waits && owner.pending == owner.pending_clients ==> owner.dispatch(verified, checked)
                == Dispatch::Refuse(AccessError::Capacity)
            &&& own && (reads_for(operation) is Some || operation == (Operation::NativeRead {
                linearizable: true,
            })) && owner.pending != owner.pending_clients && owner.nonce == u64::MAX
                ==> owner.dispatch(verified, checked) == Dispatch::Refuse(AccessError::Unavailable)
            &&& !own && owner.pending != owner.pending_clients ==> owner.dispatch(verified, checked)
                == Dispatch::Refuse(AccessError::Unauthorized)
        }),
{
}

/// What belongs to other owners is not served here.
pub proof fn what_no_replica_serves_is_refused(
    owner: Owner,
    verified: VerifiedRequest,
    checked: Checked,
)
    requires
        reaches(owner, verified),
        verified.request.operation is Upload || verified.request.operation is Download
            || verified.request.operation is Custody || verified.request.operation is Unserved,
    ensures
        owner.dispatch(verified, checked) == Dispatch::Refuse(AccessError::UnsupportedOperation),
{
}

/// Consensus is stepped for a node of the group, voter or learner, at whatever
/// route; a probe is answered to one at the owner's route, behind a promise
/// where native history is hosted. Nobody else reaches either.
pub proof fn a_member_reaches_its_group(owner: Owner, verified: VerifiedRequest, checked: Checked)
    requires
        owner.clock,
        verified.request.ledger == owner.ledger,
    ensures
        verified.request.operation matches Operation::Raft { group } ==> owner.dispatch(
            verified,
            checked,
        ) == (match verified.peer.role {
            PeerRole::Node { node_id } if group == owner.group && (owner.voters@.contains(node_id) || owner.learners@.contains(node_id)) => if owner.pending
                == owner.pending_clients {
                Dispatch::Refuse(AccessError::Capacity)
            } else {
                Dispatch::Step { node: node_id }
            },
            _ => Dispatch::Refuse(AccessError::Unauthorized),
        }),
        verified.request.operation matches Operation::ManagedSupport { group } ==> owner.dispatch(
            verified,
            checked,
        ) == (match verified.peer.role {
            PeerRole::Node { node_id } if group == owner.group && verified.request.route_epoch
                == owner.route_epoch && (owner.voters@.contains(node_id) || owner.learners@.contains(node_id)) => Dispatch::Support { begin: owner.native_hosted },
            _ => Dispatch::Refuse(AccessError::Unauthorized),
        }),
{
    if let PeerRole::Node { node_id } = verified.peer.role {
        lemma_named(owner.voters@, node_id);
        lemma_named(owner.learners@, node_id);
    }
}

proof fn lemma_named(list: Seq<u64>, node: u64)
    ensures
        super::request::named(list, node) == list.contains(node),
{
    if list.contains(node) {
        let i = choose|i: int| 0 <= i < list.len() && list[i] == node;
        assert(list[i] == node);
    }
}

/// What a request waits for is what was done for it: a proposal for its own
/// commit, a read for its own barrier, a message until it is durable, a cursor
/// for its delivery.
pub proof fn a_request_waits_for_what_was_done(dispatch: Dispatch, effect: Effect)
    requires
        !(effect is Failed),
    ensures
        match dispatch {
            Dispatch::Step { .. } => dispatch.settles(effect) == Settled::Waits(
                WaitingFor::PeerPersistence,
            ),
            Dispatch::StreamControl => dispatch.settles(effect) == Settled::Waits(
                WaitingFor::RequestStreamControl { reading: None },
            ),
            Dispatch::Barrier(ticket) => dispatch.settles(effect) == Settled::Waits(
                WaitingFor::Quorum(ticket),
            ),
            Dispatch::NativeBarrier(read) => dispatch.settles(effect) == Settled::Waits(
                WaitingFor::NativeRead(read),
            ),
            Dispatch::Stream => dispatch.settles(effect) == Settled::Waits(WaitingFor::Stream),
            Dispatch::ManagedCursor => dispatch.settles(effect) == (if effect is Done {
                Settled::Waits(WaitingFor::ManagedStream)
            } else {
                Settled::Answered
            }),
            Dispatch::Managed => dispatch.settles(effect) == (if effect is Pending {
                Settled::Waits(WaitingFor::ManagedMutation)
            } else {
                Settled::Answered
            }),
            Dispatch::Submit => dispatch.settles(effect) == (if effect is Pending {
                Settled::Waits(WaitingFor::Mutation)
            } else {
                Settled::Answered
            }),
            Dispatch::Native => dispatch.settles(effect) == (if effect is Pending {
                Settled::Waits(WaitingFor::NativeMutation)
            } else {
                Settled::Answered
            }),
            Dispatch::Serve | Dispatch::Support { .. } => dispatch.settles(effect)
                == Settled::Answered,
            Dispatch::Refuse(error) => dispatch.settles(effect) == Settled::Error(error),
        },
{
}

/// Whatever was to be done, a failure of it is told as it is.
pub proof fn a_failure_is_told(dispatch: Dispatch, error: AccessError)
    ensures
        !(dispatch is Refuse) ==> dispatch.settles(Effect::Failed(error)) == Settled::Error(error),
{
}

/// A request waits as the peer's that sent it, in the term it came in, at its
/// own route and to its own deadline.
pub proof fn a_request_waits_as_its_own<T>(
    owner: Owner,
    verified: VerifiedRequest,
    waiting: WaitingFor,
    token: T,
    deadline: u64,
    interrupted: AccessError,
)
    ensures
        ({
            let entry = owner.entry(verified, waiting, token, deadline, interrupted);
            &&& entry.token == token
            &&& entry.waiting == waiting
            &&& entry.principal == verified.peer.principal
            &&& entry.request == verified.request.request_id
            &&& entry.route_epoch == verified.request.route_epoch
            &&& entry.term == owner.term
            &&& entry.deadline == deadline
            &&& !entry.closed
            &&& entry.interrupted == interrupted
        }),
{
}

/// A command whose receipt is not known is proposed where it brings no artifact,
/// or brings one with a witness taken of this very request, under the owner's
/// ledger, route and policy and with the voters that hold, and of this artifact.
pub proof fn a_witnessed_artifact_is_proposed(
    owner: Owner,
    verified: VerifiedRequest,
    witness: EvidenceWitness,
)
    requires
        witness.scope.ledger == owner.ledger,
        witness.scope.route_epoch == owner.route_epoch,
        witness.scope.policy_revision == owner.policy_revision,
        verified.request.ledger == owner.ledger,
        verified.request.route_epoch == owner.route_epoch,
        witness.request == verified.request.request_id,
        witness.epoch == verified.request.request_epoch,
        witness.managed == crate::evidence::request::key_of(verified.request.operation),
        witness.principal == verified.peer.principal,
        witness.voters@.len() == owner.voters@.len(),
        forall|i: int|
            0 <= i < owner.voters@.len() ==> witness.voters@.contains(#[trigger] owner.voters@[i]),
        artifact_of(verified.request.operation) matches Some(artifact) && artifact.descriptor
            == Some(witness.descriptor),
    ensures
        owner.submits(Ok(false), verified, Some(witness)) matches Submission::Propose {
            evidence: Some(attestation),
        } && attestation.descriptor_hash == witness.descriptor && attestation.custody_revision
            == owner.policy_revision && attestation.durable && attestation.schema_valid,
        owner.submits(Ok(false), verified, None) == Submission::Refuse(
            AccessError::UnsupportedOperation,
        ),
{
}

/// A command without an artifact needs no witness.
pub proof fn a_plain_command_needs_no_witness(
    owner: Owner,
    verified: VerifiedRequest,
    witness: Option<EvidenceWitness>,
    error: AccessError,
    effect: Effect,
)
    ensures
        artifact_of(verified.request.operation) is None ==> owner.submits(
            Ok(false),
            verified,
            witness,
        ) == (Submission::Propose { evidence: None }),
        owner.submits(Err(error), verified, witness) == Submission::Refuse(error),
        (Submission::Propose { evidence: None }).comes_to(effect) == effect,
        Submission::Refuse(error).comes_to(effect) == Effect::Failed(error),
        Submission::Answer.comes_to(effect) == Effect::Known,
{
}

/// A command that brings an artifact is proposed with what its witness saw, under
/// the policy that holds now; without one it is not, and a witness of another
/// time, or of another object, is none.
pub proof fn an_artifact_needs_its_own_witness(
    owner: Owner,
    verified: VerifiedRequest,
    witness: EvidenceWitness,
)
    ensures
        artifact_of(verified.request.operation) matches Some(artifact) ==> {
            &&& owner.attested(verified, None) == Err::<Option<EvidenceAttestation>, AccessError>(
                AccessError::UnsupportedOperation,
            )
            &&& !witness.taken_of(verified, owner.scope(), owner.voters@) ==> owner.attested(
                verified,
                Some(witness),
            ) == Err::<Option<EvidenceAttestation>, AccessError>(AccessError::Unavailable)
            &&& witness.taken_of(verified, owner.scope(), owner.voters@) && artifact.descriptor
                != Some(witness.descriptor) ==> owner.attested(verified, Some(witness)) == Err::<
                Option<EvidenceAttestation>,
                AccessError,
            >(AccessError::InvalidRequest)
            &&& witness.taken_of(verified, owner.scope(), owner.voters@) && artifact.descriptor
                == Some(witness.descriptor) ==> owner.attested(verified, Some(witness)) is Ok
                && owner.attested(verified, Some(witness))->Ok_0 is Some && ({
                let made = owner.attested(verified, Some(witness))->Ok_0->0;
                made.descriptor_hash == witness.descriptor && made.custody_revision
                    == owner.policy_revision && made.durable && made.schema_valid
            })
        },
        artifact_of(verified.request.operation) is None ==> owner.attested(verified, None)
            == Ok::<Option<EvidenceAttestation>, AccessError>(None),
{
}

/// A read is numbered behind the last one, and is of the peer and the request that
/// asked; custody is checked under the owner's own ledger, route and policy.
pub proof fn a_read_is_of_who_asked(owner: Owner, purpose: Purpose, verified: VerifiedRequest)
    requires
        owner.nonce < u64::MAX,
    ensures
        owner.ticket(purpose, verified).nonce == owner.nonce + 1,
        owner.ticket(purpose, verified).principal == verified.peer.principal,
        owner.ticket(purpose, verified).request == verified.request.request_id,
        owner.ticket(purpose, verified).purpose == purpose,
        owner.correlation(verified).nonce == owner.nonce + 1,
        owner.correlation(verified).principal == verified.peer.principal,
        owner.correlation(verified).request == verified.request.request_id,
        owner.scope().ledger == owner.ledger && owner.scope().route_epoch == owner.route_epoch
            && owner.scope().policy_revision == owner.policy_revision,
{
}

} // verus!
