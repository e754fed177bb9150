//! What the evidence owner owes a request: where it goes, what is checked of
//! it, under whose name its object moves, and which placement it runs under.
use super::coordinator::{
    configurable, configuration_total, members_total, refused, JobKind, Placements,
};
use super::placement::{scoped, EvidencePlacement};
use super::request::{
    artifact_of, custody_request, evidence_of, key_of, names_the_voters, native_key, node_list,
    Evidence, EvidenceWitness, NativeKey,
};
use super::service::{first_hop, hops, is_last, Doing, Hop, Hopped, Job, Task, Trail};
use super::{
    counts, transfer_material, ContentRef, CustodyObligation, CustodyReceipt, CustodyScope,
};
use crate::access::AccessError;
use crate::hashing::zero_16;
use crate::ids::{be_bytes, big_endian_is_one_to_one, LedgerId};
use crate::operation::{
    ArtifactPayload, Command, ManagedOperation, ManagedRequestKey, Operation, Request,
    VerifiedRequest,
};
use crate::text::decimal_text;
use vstd::prelude::*;

verus! {

broadcast use vstd::std_specs::btree::group_btree_axioms;

/// Which tasks a job has: what is not here yet is sealed or fetched, what lies
/// in an object is given to the copies and read again, what is attested is
/// checked against its schema, and a participant's job ends with the policy.
pub proof fn a_job_has_the_tasks_it_needs(trail: Trail)
    ensures
        trail.tasks().contains(Task::Seal) <==> trail is Seal || trail is Native || trail
            is Archive,
        trail.tasks().contains(Task::EnsureLocal) <==> trail is Object,
        trail.tasks().contains(Task::Replicate) <==> !(trail is Inline),
        trail.tasks().contains(Task::Read) <==> trail is Object,
        trail.tasks().contains(Task::Schema) <==> trail is Inline || trail is Object,
        trail.tasks().contains(Task::CheckPolicy) <==> !(trail is Archive),
        trail.tasks().contains(Task::Obligation) <==> trail is Archive,
{
    let tasks = trail.tasks();
    match trail {
        Trail::Seal | Trail::Native => {
            assert(tasks[0] == Task::Seal && tasks[1] == Task::Replicate && tasks[2]
                == Task::CheckPolicy);
        },
        Trail::Inline => {
            assert(tasks[0] == Task::Schema && tasks[1] == Task::CheckPolicy);
        },
        Trail::Object => {
            assert(tasks[0] == Task::EnsureLocal && tasks[1] == Task::Replicate && tasks[2]
                == Task::Read && tasks[3] == Task::Schema && tasks[4] == Task::CheckPolicy);
        },
        Trail::Archive => {
            assert(tasks[0] == Task::Seal && tasks[1] == Task::Replicate && tasks[2]
                == Task::Obligation);
        },
    }
}

/// When a task comes, among those of any job.
pub open spec fn place(task: Task) -> int {
    match task {
        Task::Seal => 0,
        Task::EnsureLocal => 0,
        Task::Replicate => 1,
        Task::Read => 2,
        Task::Schema => 3,
        Task::CheckPolicy => 4,
        Task::Obligation => 4,
    }
}

/// The tasks of every job come in one order, and none twice: holding before
/// giving, giving before reading, reading before the schema, and the policy or
/// the custody last.
pub proof fn tasks_come_in_one_order(trail: Trail, i: int, j: int)
    requires
        0 <= i < j < trail.tasks().len(),
    ensures
        place(trail.tasks()[i]) < place(trail.tasks()[j]),
{
}

/// A job goes through its tasks one by one. A task that fails ends it: a schema
/// that is not met is the request's fault, any other failure is told as it is.
pub proof fn a_job_goes_on_task_by_task(job: Job, task: Task, error: AccessError)
    requires
        job.wf(),
        job.next() == Doing::Do(task),
    ensures
        job.failed is None,
        job.trail.tasks()[job.passed as int] == task,
        job.after(Ok(())).passed == job.passed + 1,
        job.after(Ok(())).failed is None,
        job.after(Ok(())).trail == job.trail,
        job.after(Err(error)).next() == Doing::Done(
            Err(
                if task == Task::Schema {
                    AccessError::InvalidRequest
                } else {
                    error
                },
            ),
        ),
        job.passed + 1 == job.trail.tasks().len() ==> job.after(Ok(())).next() == Doing::Done(
            Ok(()),
        ),
        job.passed + 1 < job.trail.tasks().len() ==> job.after(Ok(())).next() == Doing::Do(
            job.trail.tasks()[job.passed + 1],
        ),
{
}

/// A request of its own is named by its own id; the requests of a managed key
/// are all named alike, by their key.
pub proof fn a_transfer_is_named_by_its_request(a: Request, b: Request)
    ensures
        key_of(a.operation) is None ==> custody_request(a) == a.request_id,
        key_of(a.operation) is Some && key_of(a.operation) == key_of(b.operation)
            ==> custody_request(a) == custody_request(b),
        (a.operation matches Operation::Managed { key, .. }) ==> key_of(a.operation) is Some,
        !(a.operation is Managed) ==> key_of(a.operation) is None,
{
}

/// An upload and a native frame move their object under the request's own id,
/// managed or not; an attested object under the request's custody name; a
/// bundle under the front of its own root, whoever asks.
pub proof fn an_object_moves_under_its_request(request: Request, reference: ContentRef)
    ensures
        Trail::Seal.under(Some(request), reference) == Some(request.request_id),
        Trail::Native.under(Some(request), reference) == Some(request.request_id),
        !(request.operation is Managed) ==> Trail::Object.under(Some(request), reference) == Some(
            request.request_id,
        ),
        Trail::Inline.under(Some(request), reference) is None,
        Trail::Archive.under(None, reference) == Trail::Archive.under(Some(request), reference),
        Trail::Archive.under(None, reference) matches Some(id) && id == crate::hashing::front(
            reference.root,
        ),
        Trail::Seal.under(None, reference) is None,
        Trail::Native.under(None, reference) is None,
        Trail::Object.under(None, reference) is None,
{
}

/// Where a request goes first is told by what it brings: an upload's last part
/// to be sealed, other content to the content owner, a frame with an artifact to
/// be attested, one that evaluates an artifact to be looked up, a command with
/// an artifact to be probed, and everything else to the replica.
pub proof fn a_request_goes_where_it_must(operation: Operation)
    ensures
        operation == (Operation::Upload { seal: true }) <==> first_hop(operation) == Hop::Seal,
        first_hop(operation) == Hop::Content <==> operation == (Operation::Upload { seal: false })
            || operation is Custody || operation is Download,
        first_hop(operation) == Hop::AttestNative <==> (operation matches Operation::Native {
            header: Some(header),
        } && header.artifact_bearing),
        first_hop(operation) == Hop::FindArtifact <==> (operation matches Operation::Native {
            header: Some(header),
        } && !header.artifact_bearing && header.evaluates_artifact),
        first_hop(operation) == Hop::Probe <==> artifact_of(operation) is Some,
        first_hop(operation) is Seal || first_hop(operation) is Content || first_hop(operation)
            is AttestNative || first_hop(operation) is FindArtifact || first_hop(operation)
            is Probe || first_hop(operation) == Hop::Replica,
{
}

/// How a request goes on when a hop was done, and when what it looked for is
/// not there.
pub proof fn a_request_goes_on(
    next: Hop,
    obligation: CustodyObligation,
    error: AccessError,
    hop: Hop,
)
    ensures
        hops(Hop::Seal, Hopped::Done, next) ==> next == Hop::Answered,
        hops(Hop::AttestNative, Hopped::Done, next) ==> next == Hop::SubmitNative,
        hops(Hop::FindArtifact, Hopped::Done, next) ==> next == Hop::FindPointer,
        hops(Hop::FindArtifact, Hopped::Nothing, next) ==> next == Hop::Replica,
        hops(Hop::FindPointer, Hopped::Done, next) ==> next == Hop::Obligation,
        hops(Hop::FindPointer, Hopped::Nothing, next) ==> next == Hop::Replica,
        hops(Hop::Probe, Hopped::Done, next) ==> next == Hop::Answered,
        hops(Hop::Probe, Hopped::Nothing, next) ==> next == Hop::Attest,
        hops(Hop::Attest, Hopped::Done, next) ==> next == Hop::SubmitEvidenced,
        hops(Hop::Obligation, Hopped::Obligation(obligation), next) ==> (next == Hop::Replica
            <==> obligation.required@.subset_of(obligation.held@)) && (next != Hop::Replica
            ==> next is Refused),
        hops(hop, Hopped::Failed(error), next) && (hop is Seal || hop is AttestNative || hop
            is FindArtifact || hop is FindPointer || hop is Obligation || hop is Probe || hop
            is Attest) ==> next == Hop::Error(error),
{
}

/// What the evidence of an artifact takes: bytes in the command up to sixteen
/// kibibytes are checked as they are; an object no longer than its schema allows
/// is fetched and given; anything larger has no room.
pub proof fn evidence_is_by_where_the_bytes_are(
    scope: CustodyScope,
    request: Request,
    maximum: Option<usize>,
)
    ensures
        artifact_of(request.operation) is None ==> evidence_of(scope, request, maximum) == Err::<
            Evidence,
            AccessError,
        >(AccessError::InvalidRequest),
        artifact_of(request.operation) matches Some(artifact) ==> {
            let evidence = evidence_of(scope, request, maximum);
            &&& artifact.ledger != scope.ledger ==> evidence == Err::<Evidence, AccessError>(
                AccessError::Unauthorized,
            )
            &&& artifact.ledger == scope.ledger && maximum is None ==> evidence == Err::<
                Evidence,
                AccessError,
            >(AccessError::UnsupportedOperation)
            &&& artifact.ledger == scope.ledger && maximum is Some ==> match artifact.payload {
                ArtifactPayload::Inline(bytes) => if bytes@.len() <= 16384 {
                    evidence == Ok::<Evidence, AccessError>(Evidence::Inline)
                } else {
                    evidence == Err::<Evidence, AccessError>(AccessError::Capacity)
                },
                ArtifactPayload::Content(reference) => if reference.length <= maximum->0 {
                    evidence matches Ok(Evidence::Object { reference: of, maximum: most, .. }) && of
                        == reference && most == maximum->0
                } else {
                    evidence == Err::<Evidence, AccessError>(AccessError::Capacity)
                },
            }
        },
        evidence_of(scope, request, maximum) matches Ok(Evidence::Object { custody, .. })
            ==> custody == custody_request(request),
{
}

/// A witness counts for nothing but the request it was taken of: its ledger,
/// route and policy, its id, epoch, key and principal, and exactly the voters
/// that hold.
pub proof fn a_witness_is_of_one_request(
    witness: EvidenceWitness,
    verified: VerifiedRequest,
    scope: CustodyScope,
    voters: Seq<u64>,
)
    requires
        witness.taken_of(verified, scope, voters),
        witness.voters@.finite(),
        voters.no_duplicates(),
    ensures
        witness.scope == scope,
        verified.request.ledger == scope.ledger,
        verified.request.route_epoch == scope.route_epoch,
        witness.request == verified.request.request_id,
        witness.epoch == verified.request.request_epoch,
        witness.managed == key_of(verified.request.operation),
        witness.principal == verified.peer.principal,
        voters.to_set() == witness.voters@,
{
    voters.unique_seq_to_set();
    assert forall|n: u64| voters.to_set().contains(n) implies witness.voters@.contains(n) by {
        let i = choose|i: int| 0 <= i < voters.len() && voters[i] == n;
        assert(witness.voters@.contains(voters[i]));
    }
    vstd::set_lib::lemma_subset_equality(voters.to_set(), witness.voters@);
}

/// A native frame's artifact is attested exactly where its key is the
/// request's own and its descriptor the ledger's; the key that comes back is the
/// frame's.
pub proof fn a_native_artifact_is_its_requests(
    scope: CustodyScope,
    verified: VerifiedRequest,
    key: NativeKey,
    ledger: LedgerId,
    error: AccessError,
)
    ensures
        native_key(scope, verified, Ok(Some((key, ledger)))) is Ok <==> verified.request.operation
            is Native && verified.request.ledger == scope.ledger && key.principal
            == verified.peer.principal && key.id == verified.request.request_id && key.epoch
            == verified.request.request_epoch && ledger == scope.ledger,
        native_key(scope, verified, Ok(Some((key, ledger)))) matches Ok(found) ==> found == key,
        native_key(scope, verified, Ok(None)) is Err,
        native_key(scope, verified, Err(error)) is Err,
{
}

/// A replacement is accepted exactly where this node runs it and it is the
/// ledger's first, while there is room; the same members at the same scope
/// again; or a move of the expected scope that takes neither the route nor the
/// policy back.
pub proof fn a_replacement_is_accepted_where_it_follows(
    set: Placements,
    expected: Option<CustodyScope>,
    next: EvidencePlacement,
)
    ensures
        ({
            let runs = (next.voters@.contains(set.node) || next.copies@.contains(set.node))
                && next.voters@.union(next.copies@).len() <= 1024;
            let accepted = set.accepts(expected, next);
            &&& !runs ==> accepted == Err::<(), AccessError>(AccessError::InvalidRequest)
            &&& runs && set.of(next.scope.ledger) is None ==> accepted == (if expected is Some {
                Err::<(), AccessError>(AccessError::Unavailable)
            } else if set.rows@.len() < super::coordinator::MAX_PLACEMENTS {
                Ok::<(), AccessError>(())
            } else {
                Err::<(), AccessError>(AccessError::Capacity)
            })
            &&& runs && set.of(next.scope.ledger) is Some ==> {
                let row = set.of(next.scope.ledger)->0;
                let again = next.scope == row.scope && next.voters@ == row.voters@ && next.copies@
                    == row.copies@;
                let moves = expected == Some(row.scope) && next.scope != row.scope
                    && next.scope.route_epoch >= row.scope.route_epoch
                    && next.scope.policy_revision >= row.scope.policy_revision;
                accepted == (if again || moves {
                    Ok::<(), AccessError>(())
                } else {
                    Err::<(), AccessError>(AccessError::Unavailable)
                })
            }
        }),
{
}

/// What placements are charged adds up, placement by placement.
pub proof fn charges_add_up(front: Seq<EvidencePlacement>, rest: Seq<EvidencePlacement>)
    ensures
        members_total(front + rest) == members_total(front) + members_total(rest),
        rest.len() == 1 ==> members_total(rest) == (rest[0].voters@.len() + rest[0].copies@.len())
            * 128 + 512,
    decreases rest.len(),
{
    if rest.len() == 0 {
        assert(front + rest =~= front);
    } else {
        charges_add_up(front, rest.drop_last());
        assert((front + rest).drop_last() =~= front + rest.drop_last());
        assert((front + rest).last() == rest.last());
        if rest.len() == 1 {
            assert(rest.drop_last() =~= Seq::<EvidencePlacement>::empty());
            assert(members_total(rest.drop_last()) == 0);
        }
    }
}

/// Placements that are taken are each run by this node, each of another ledger,
/// and together within the bytes that were left for them.
pub proof fn placements_taken_are_run_once(
    node: u64,
    list: Seq<EvidencePlacement>,
    i: int,
    remaining: int,
)
    requires
        0 <= i <= list.len(),
        0 <= remaining,
        refused(node, list, i, remaining) is None,
    ensures
        forall|k: int|
            i <= k < list.len() ==> {
                &&& (#[trigger] list[k]).voters@.contains(node) || list[k].copies@.contains(node)
                &&& list[k].charge() matches Some(charge) && charge <= remaining
            },
        forall|j: int, k: int|
            0 <= j < k < list.len() && i <= k ==> #[trigger] list[j].scope.ledger
                != #[trigger] list[k].scope.ledger,
    decreases list.len() - i,
{
    if i < list.len() {
        placements_taken_are_run_once(node, list, i + 1, remaining - list[i].charge()->0);
    }
}

/// A list whose next placement is of a ledger that has one already, or that this
/// node does not run, is refused as a whole.
pub proof fn a_doubled_or_foreign_placement_is_refused(
    node: u64,
    list: Seq<EvidencePlacement>,
    i: int,
    j: int,
    remaining: int,
)
    requires
        0 <= i < list.len(),
        (0 <= j < i && list[j].scope.ledger == list[i].scope.ledger) || (
        !list[i].voters@.contains(node) && !list[i].copies@.contains(node)),
    ensures
        refused(node, list, i, remaining) == Some(AccessError::InvalidRequest),
{
}

/// Work stands exactly while its scope is the one its ledger has.
pub proof fn work_stands_with_its_scope(set: Placements, scope: CustodyScope)
    ensures
        set.current(Some(scope)) <==> (set.of(scope.ledger) matches Some(row) && row.scope
            == scope),
        !set.current(None),
{
}

/// A command brings the artifact it attaches, registers or fails with, whether
/// it is submitted under a managed key or not; nothing else brings one.
pub proof fn an_artifact_comes_with_its_command(
    command: Command,
    key: ManagedRequestKey,
    operation: Operation,
)
    ensures
        artifact_of(Operation::Submit { command }) == artifact_of(
            Operation::Managed { key, operation: ManagedOperation::Submit { command } },
        ),
        artifact_of(Operation::Submit { command }) == (match command {
            Command::AttachArtifact { artifact, .. } => Some(artifact),
            Command::RegisterArtifact { artifact, .. } => Some(artifact),
            Command::FailTestamentGeneration { error, .. } => Some(error),
            Command::Plain { .. } => None,
        }),
        !(operation is Submit) && !(operation is Managed) ==> artifact_of(operation) is None,
        artifact_of(Operation::Managed { key, operation: ManagedOperation::Cursor }) is None,
{
}

/// A transfer is of one object, for one request and at one scope: what its
/// identity is derived from tells them all.
pub proof fn a_transfer_is_of_one_object(
    a: CustodyScope,
    b: CustodyScope,
    p: [u8; 16],
    q: [u8; 16],
    x: [u8; 32],
    y: [u8; 32],
)
    requires
        transfer_material(a, p, x) == transfer_material(b, q, y),
    ensures
        a == b,
        p == q,
        x == y,
{
    let (m, n) = (transfer_material(a, p, x), transfer_material(b, q, y));
    assert(m.subrange(0, 16) =~= a.ledger.tenant@ && n.subrange(0, 16) =~= b.ledger.tenant@);
    assert(m.subrange(16, 32) =~= a.ledger.session@ && n.subrange(16, 32) =~= b.ledger.session@);
    assert(m.subrange(32, 40) =~= be_bytes(a.route_epoch) && n.subrange(32, 40) =~= be_bytes(
        b.route_epoch,
    ));
    assert(m.subrange(40, 48) =~= be_bytes(a.policy_revision) && n.subrange(40, 48) =~= be_bytes(
        b.policy_revision,
    ));
    assert(m.subrange(48, 64) =~= p@ && n.subrange(48, 64) =~= q@);
    assert(m.subrange(64, 96) =~= x@ && n.subrange(64, 96) =~= y@);
    big_endian_is_one_to_one(a.route_epoch, b.route_epoch);
    big_endian_is_one_to_one(a.policy_revision, b.policy_revision);
    assert(a.ledger.tenant =~= b.ledger.tenant);
    assert(a.ledger.session =~= b.ledger.session);
    assert(p =~= q);
    assert(x =~= y);
}

/// A coordinator can be set up on a node, for as many jobs at once as it may run
/// and as many placements as it may hold; it is charged for each job and for its
/// placements.
pub proof fn a_coordinator_is_charged_for_its_jobs(
    node: u64,
    placements: int,
    concurrency: usize,
    list: Seq<EvidencePlacement>,
)
    ensures
        configurable(node, placements, concurrency) <==> node != 0 && 1 <= concurrency <= 64
            && placements <= super::coordinator::MAX_PLACEMENTS,
        configuration_total(list, concurrency) == configuration_total(list, 0) + 4096
            * concurrency,
        configuration_total(list, 0) == members_total(list),
{
}

/// A replacement that is accepted is staged exactly where its charge and a page
/// beside it are held.
pub proof fn a_replacement_is_staged_where_it_is_held(
    placements: Placements,
    expected: Option<CustodyScope>,
    next: EvidencePlacement,
    held: int,
)
    requires
        held <= usize::MAX,
    ensures
        placements.staged(expected, next, held) is Ok <==> placements.accepts(expected, next) is Ok
            && next.charge() is Some && next.charge()->0 + 4096 <= held,
        placements.accepts(expected, next) matches Err(error) ==> placements.staged(
            expected,
            next,
            held,
        ) == Err::<(), AccessError>(error),
        placements.accepts(expected, next) is Ok && placements.staged(expected, next, held) is Err
            ==> placements.staged(expected, next, held) == Err::<(), AccessError>(
            AccessError::Capacity,
        ),
{
}

/// A participant stands behind what it asked for, and the node behind its own
/// archive and its own repair.
pub proof fn who_stands_behind_a_job(kind: JobKind)
    ensures
        kind is Seal || kind is Attest || kind is AttestNative || kind is Obligation
            ==> kind.of_a_participant(),
        kind is Archive || kind is Repair ==> !kind.of_a_participant(),
{
}

/// A receipt counts at the route and the policy it was given under, for the whole
/// object only.
pub proof fn a_receipt_counts_for_the_whole_object(
    receipt: CustodyReceipt,
    scope: CustodyScope,
    length: u64,
)
    ensures
        receipt.length != length ==> !counts(receipt, scope, length),
        receipt.route_epoch != scope.route_epoch ==> !counts(receipt, scope, length),
        receipt.policy_revision != scope.policy_revision ==> !counts(receipt, scope, length),
        receipt.length == length && receipt.route_epoch == scope.route_epoch
            && receipt.policy_revision == scope.policy_revision ==> counts(receipt, scope, length),
{
}

/// A list that names the voters, each once, names every voter.
pub proof fn a_list_of_the_voters_names_each(set: Set<u64>, voters: Seq<u64>, node: u64)
    requires
        set.finite(),
        names_the_voters(set, voters),
        voters.no_duplicates(),
    ensures
        set.contains(node) <==> voters.contains(node),
{
    voters.unique_seq_to_set();
    let named = voters.to_set();
    assert(named.subset_of(set)) by {
        assert forall|n: u64| named.contains(n) implies set.contains(n) by {
            let i = choose|i: int| 0 <= i < voters.len() && voters[i] == n;
            assert(set.contains(voters[i]));
        }
    }
    vstd::set_lib::lemma_subset_equality(named, set);
    assert(voters.contains(node) <==> named.contains(node));
}

/// A request goes no further once a replica or the content owner answers it, or
/// it was answered, refused or failed; everything else looks for evidence first.
pub proof fn where_a_request_ends(hop: Hop)
    ensures
        is_last(hop) <==> !(hop is Seal) && !(hop is AttestNative) && !(hop is FindArtifact) && !(
        hop is FindPointer) && !(hop is Obligation) && !(hop is Probe) && !(hop is Attest),
{
}

/// A scope names a ledger, a route and a policy: none of them is zero.
pub proof fn a_scope_names_everything(scope: CustodyScope)
    ensures
        scoped(scope) <==> !(zero_16(scope.ledger.tenant) || zero_16(scope.ledger.session)
            || scope.route_epoch == 0 || scope.policy_revision == 0),
{
}

/// A node keeps evidence where it is a voter or a copy, and runs a placement of no
/// more members than it may hold.
pub proof fn who_runs_a_placement(placement: EvidencePlacement, node: u64)
    ensures
        placement.concerns(node) <==> placement.voters@.contains(node)
            || placement.copies@.contains(node),
        placement.runnable(node) ==> placement.concerns(node),
        placement.concerns(node) ==> (placement.runnable(node) <==> placement.voters@.union(
            placement.copies@,
        ).len() <= super::placement::MAX_MEMBERS),
{
}

/// A list of nodes names each in decimal, in the order given, with a comma between
/// two.
pub proof fn nodes_are_listed_in_order(nodes: Seq<u64>, last: u64)
    ensures
        node_list(seq![last]) == decimal_text(last as nat),
        nodes.len() > 0 ==> node_list(nodes.push(last)) == node_list(nodes) + ","@ + decimal_text(
            last as nat,
        ),
        node_list(Seq::empty()).len() == 0,
{
    assert(nodes.push(last).drop_last() =~= nodes);
    assert(nodes.push(last).last() == last);
}

/// A placement that is run here and is the first of its ledger is taken where its
/// charge is left, and what it took is not left for the next; where it is not, the
/// list lacks its room.
pub proof fn a_placement_is_taken_where_its_charge_is_left(
    node: u64,
    list: Seq<EvidencePlacement>,
    i: int,
    remaining: int,
)
    requires
        0 <= i < list.len(),
        list[i].runnable(node),
        forall|j: int| 0 <= j < i ==> #[trigger] list[j].scope.ledger != list[i].scope.ledger,
        remaining <= usize::MAX,
    ensures
        list[i].charge() is None || list[i].charge()->0 > remaining ==> refused(
            node,
            list,
            i,
            remaining,
        ) == Some(AccessError::Capacity),
        list[i].charge() matches Some(charge) ==> (charge <= remaining ==> refused(
            node,
            list,
            i,
            remaining,
        ) == refused(node, list, i + 1, remaining - charge)),
{
}

/// A job does its tasks one by one, from the first; it is done when none is left,
/// or with the error that failed it.
pub proof fn a_job_is_done_when_no_task_is_left(job: Job)
    ensures
        job.failed matches Some(error) ==> job.next() == Doing::Done(Err(error)),
        job.failed is None && job.passed < job.trail.tasks().len() ==> job.next() == Doing::Do(
            job.trail.tasks()[job.passed as int],
        ),
        job.failed is None && job.passed >= job.trail.tasks().len() ==> job.next() == Doing::Done(
            Ok(()),
        ),
{
}

} // verus!
