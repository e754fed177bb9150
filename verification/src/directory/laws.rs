//! What opening a directory partition promises: whom the root authorizes, what it
//! plans next, how authority is refreshed, and how a group is opened.
use super::authority::{
    exported, Authority, AuthoritySnapshot, Authorized, Configuration, ControlReceipt, ControlRequestId,
    Destination, DirectoryAuthorityChange, DirectoryAuthorityReceipt, Enrollment,
    EnrollmentReceipt, GroupGrant, GroupScope, NodeGrant, PartitionBootstrapPermit,
    RootOwner, Voter,
};
use super::host::{
    admission, normalized, refresh_read, ControlOwner, PendingAuthority, Refresh, RefreshFacts,
    RefreshPhase,
};
use super::planner::{follows, founding_node, Intent, RootDirectory, RootObservation};
use super::startup::{
    owner_total, startup_read, Activation, Barrier, Did, Opening, Opens, Round, Stage,
    STARTUP_ROUNDS,
};
use super::{
    derivable, derived, first_plan, rpc_ledger, unset, ConsensusError, ControlError, ControlScope,
    Delegation, DirectoryBootstrapError, MemoryError, NamespaceRange, PartitionImage,
    PartitionPlan,
};
use crate::hashing::zero_16;
use vstd::prelude::*;

verus! {

/// A grant is found where it stands, whichever place that is, and nothing is
/// found of a node or a group that none names.
pub proof fn a_grant_is_found_where_it_stands(authority: Authority, i: int, node: u64, group: [u8; 16])
    requires
        authority.wf(),
    ensures
        0 <= i < authority.nodes@.len() ==> authority.node_of(authority.nodes@[i].node) == Some(
            authority.nodes@[i],
        ),
        0 <= i < authority.groups@.len() ==> authority.group_of(authority.groups@[i].group)
            == Some(authority.groups@[i]),
        (forall|k: int|
            0 <= k < authority.nodes@.len() ==> #[trigger] authority.nodes@[k].node != node)
            ==> authority.node_of(node) is None,
        (forall|k: int|
            0 <= k < authority.groups@.len() ==> #[trigger] authority.groups@[k].group != group)
            ==> authority.group_of(group) is None,
{
    if 0 <= i < authority.nodes@.len() {
        assert(super::authority::node_at(authority.nodes@, authority.nodes@[i].node, i));
    }
    if 0 <= i < authority.groups@.len() {
        assert(super::authority::group_at(authority.groups@, authority.groups@[i].group, i));
    }
}

/// A node's enrolment is the first receipt of its number, its principal and its
/// key.
pub proof fn a_node_goes_by_its_first_receipt(
    enrollment: Enrollment,
    grant: NodeGrant,
    from: int,
    at: int,
)
    requires
        0 <= from <= at,
        forall|k: int|
            from <= k < at && k < enrollment.receipts@.len() ==> ({
                let receipt = #[trigger] enrollment.receipts@[k];
                receipt.node != Some(grant.node) || receipt.principal != grant.principal
                    || receipt.public_key != grant.identity
            }),
    ensures
        at >= enrollment.receipts@.len() ==> enrollment.first(grant, from) is None,
        at < enrollment.receipts@.len() && enrollment.receipts@[at].node == Some(grant.node)
            && enrollment.receipts@[at].principal == grant.principal
            && enrollment.receipts@[at].public_key == grant.identity ==> enrollment.first(
            grant,
            from,
        ) == Some(enrollment.receipts@[at]),
    decreases at - from,
{
    if from < at && from < enrollment.receipts@.len() {
        let receipt = enrollment.receipts@[from];
        assert(receipt.node != Some(grant.node) || receipt.principal != grant.principal
            || receipt.public_key != grant.identity);
        a_node_goes_by_its_first_receipt(enrollment, grant, from + 1, at);
    }
}

/// Whether the root's own owner speaks for the plan's cluster, on all that it has
/// committed.
pub open spec fn speaks(owner: RootOwner, plan: PartitionPlan, root_group: [u8; 16]) -> bool {
    owner.identity.scope == ControlScope::Root && owner.identity.cluster == plan.cluster
        && owner.identity.group == root_group && owner.leader && owner.applied_index != 0
        && owner.status_applied == owner.applied_index && owner.status_committed
        == owner.applied_index
}

/// Whether a grant lets one node found the plan's group: the plan's own genesis
/// and ledgers, in the first epoch, that node the only member, at the generation
/// it is granted.
pub open spec fn lets_found(group: GroupGrant, plan: PartitionPlan, node: NodeGrant) -> bool {
    group.genesis == plan.genesis && group.scope == (GroupScope::Partition {
        partition: plan.partition,
        namespace: plan.delegation.namespace,
    }) && group.membership_epoch == 1 && group.voters@.len() == 1 && group.voters@[0] == (Voter {
        node: plan.founder_node,
        generation: node.generation,
    }) && group.outgoing_voters@.len() == 0 && group.learners@.len() == 0
}

proof fn lemma_founds(group: GroupGrant, plan: PartitionPlan, node: NodeGrant)
    ensures
        group.founds(plan, node.generation) <==> lets_found(group, plan, node),
{
    let one = seq![Voter { node: plan.founder_node, generation: node.generation }];
    if group.voters@.len() == 1 && group.voters@[0] == one[0] {
        assert(group.voters@ =~= one);
    }
}

/// A plan is authorized exactly where the root speaks for its cluster, its
/// partition is delegated or comes with an image, its group is granted to its
/// founder alone, and grant, node and enrolment outlast one another; it is
/// authorized for as long as its group is granted.
pub proof fn whom_the_root_authorizes(
    owner: RootOwner,
    plan: PartitionPlan,
    root_group: [u8; 16],
    now: i64,
    authority: Authority,
    enrollment: Enrollment,
    node: NodeGrant,
    group: GroupGrant,
    receipt: EnrollmentReceipt,
)
    requires
        owner.authority == Some(authority),
        owner.enrollment == Some(enrollment),
        owner.delegated is Some,
        authority.node_of(plan.founder_node) == Some(node),
        authority.group_of(plan.group) == Some(group),
        enrollment.first(node, 0) == Some(receipt),
    ensures
        ({
            let delegated = plan.image is Some || exists|i: int|
                0 <= i < owner.delegated->0@.len() && #[trigger] owner.delegated->0@[i]
                    == plan.partition;
            let fresh = authority.revision != 0 && authority.clock <= now
                && authority.applied_index <= owner.applied_index && enrollment.applied_index
                <= owner.applied_index;
            let outlasts = now < group.expires_at <= node.expires_at && group.expires_at
                <= receipt.expires_at;
            let enrolled = receipt.authorized == Some(
                Authorized { as_node: true, node: Some(plan.founder_node) },
            );
            let all = speaks(owner, plan, root_group) && now >= 0 && delegated && fresh
                && !unset(plan.genesis) && lets_found(group, plan, node) && node.eligible
                && outlasts && enrolled;
            &&& all ==> owner.authorizes(plan, root_group, now) == Ok::<
                i64,
                DirectoryBootstrapError,
            >(group.expires_at)
            &&& !all ==> owner.authorizes(plan, root_group, now) is Err
        }),
{
    lemma_founds(group, plan, node);
}

/// Without a grant to its group, its node or its enrolment no plan is authorized.
pub proof fn nothing_is_authorized_without_a_grant(
    owner: RootOwner,
    plan: PartitionPlan,
    root_group: [u8; 16],
    now: i64,
)
    requires
        owner.authority is None || owner.enrollment is None || owner.delegated is None
            || owner.authority->0.node_of(plan.founder_node) is None
            || owner.authority->0.group_of(plan.group) is None,
    ensures
        owner.authorizes(plan, root_group, now) is Err,
{
}

/// Whether a replica is the plan's own: its group's, on its founder, who is the
/// only member there.
pub open spec fn is_the_plans(destination: Destination, plan: PartitionPlan) -> bool {
    destination.identity.cluster == plan.cluster && destination.identity.group == plan.group
        && destination.identity.scope == ControlScope::Partition(plan.partition)
        && destination.identity.genesis == plan.genesis && destination.node == plan.founder_node
        && (destination.delegation matches Some(delegation) && delegation.partition
        == plan.partition && delegation.log_group == plan.group) && is_single(
        destination.configuration,
        plan.founder_node,
    )
}

/// Whether one node is all of a configuration.
pub open spec fn is_single(configuration: Configuration, node: u64) -> bool {
    configuration.voters@.len() == 1 && configuration.voters@[0] == node
        && configuration.learners@.len() == 0 && configuration.voters_outgoing@.len() == 0
        && configuration.learners_next@.len() == 0 && !configuration.auto_leave
}

/// A node is alone exactly where it is all of the configuration.
pub proof fn a_node_is_alone_where_it_is_all(configuration: Configuration, node: u64)
    ensures
        configuration.alone(node) <==> is_single(configuration, node),
{
    if configuration.voters@.len() == 1 && configuration.voters@[0] == node {
        assert(configuration.voters@ =~= seq![node]);
    }
}

/// A replica is taken for the plan's exactly where it is.
pub proof fn a_replica_is_the_plans_or_refused(destination: Destination, plan: PartitionPlan)
    ensures
        unset(plan.genesis) ==> destination.refused(plan) == Some(
            DirectoryBootstrapError::Inconsistent,
        ),
        !unset(plan.genesis) ==> destination.refused(plan) == (if is_the_plans(destination, plan) {
            None
        } else {
            Some(DirectoryBootstrapError::Unauthorized)
        }),
{
    a_node_is_alone_where_it_is_all(destination.configuration, plan.founder_node);
}

/// A refresh installs the permit's authority over the one it found, as the
/// request behind the last one, and only over an older one of the same root; over
/// the very same it installs nothing.
pub proof fn a_refresh_moves_authority_forward(
    permit: PartitionBootstrapPermit,
    destination: Destination,
    current: AuthoritySnapshot,
    previous: ControlReceipt,
    now: i64,
)
    requires
        !unset(permit.plan.genesis),
        is_the_plans(destination, permit.plan),
        permit.prepared_at <= now < permit.expires_at,
        !destination.pending,
        !zero_16(permit.plan.installer()),
        current.source == permit.snapshot.source,
        current.identity == permit.plan.named(),
    ensures
        ({
            let made = permit.refresh(destination, Ok(current), Some(previous), now);
            let kept = |change: DirectoryAuthorityChange|
                change.plan == permit.plan && change.root == permit.snapshot.source
                    && change.root_index == permit.snapshot.source_index && change.expires_at
                    == permit.expires_at && change.previous == previous;
            &&& current.source_index > permit.snapshot.source_index ==> made == Err::<
                DirectoryAuthorityChange,
                DirectoryBootstrapError,
            >(DirectoryBootstrapError::Unauthorized)
            &&& current.source_index == permit.snapshot.source_index && current.authority@
                == permit.snapshot.authority@ && current.enrollment@
                == permit.snapshot.enrollment@ ==> (made matches Ok(change) && kept(change)
                && change.request is None)
            &&& current.source_index == permit.snapshot.source_index && !(current.authority@
                == permit.snapshot.authority@ && current.enrollment@
                == permit.snapshot.enrollment@) ==> made == Err::<
                DirectoryAuthorityChange,
                DirectoryBootstrapError,
            >(DirectoryBootstrapError::Inconsistent)
            &&& current.source_index < permit.snapshot.source_index && previous.request.sequence
                < u64::MAX ==> (made matches Ok(change) && kept(change) && (
            change.request matches Some(request) && request.id.client == permit.plan.installer()
                && request.id.sequence == previous.request.sequence + 1
                && request.acknowledged_through == previous.request.sequence
                && request.expected_source_index == current.source_index && request.decided_at
                == now))
            &&& current.source_index < permit.snapshot.source_index && previous.request.sequence
                == u64::MAX ==> made == Err::<DirectoryAuthorityChange, DirectoryBootstrapError>(
                DirectoryBootstrapError::Capacity,
            )
        }),
{
    a_replica_is_the_plans_or_refused(destination, permit.plan);
}

/// A refresh is not made by a permit that is not valid, on a replica with work
/// under way, or over what is not the plan's.
pub proof fn a_refresh_is_refused_otherwise(
    permit: PartitionBootstrapPermit,
    destination: Destination,
    current: AuthoritySnapshot,
    previous: Option<ControlReceipt>,
    now: i64,
    error: DirectoryBootstrapError,
)
    requires
        !unset(permit.plan.genesis),
    ensures
        !is_the_plans(destination, permit.plan) || now < permit.prepared_at || now
            >= permit.expires_at ==> permit.refresh(destination, Ok(current), previous, now)
            == Err::<DirectoryAuthorityChange, DirectoryBootstrapError>(
            DirectoryBootstrapError::Unauthorized,
        ),
        is_the_plans(destination, permit.plan) && permit.prepared_at <= now < permit.expires_at
            ==> {
            &&& destination.pending ==> permit.refresh(destination, Ok(current), previous, now)
                == Err::<DirectoryAuthorityChange, DirectoryBootstrapError>(
                DirectoryBootstrapError::NotReady,
            )
            &&& !destination.pending ==> permit.refresh(destination, Err(error), previous, now)
                == Err::<DirectoryAuthorityChange, DirectoryBootstrapError>(error)
            &&& !destination.pending && previous is None ==> permit.refresh(
                destination,
                Ok(current),
                previous,
                now,
            ) == Err::<DirectoryAuthorityChange, DirectoryBootstrapError>(
                DirectoryBootstrapError::Inconsistent,
            )
        },
{
    a_replica_is_the_plans_or_refused(destination, permit.plan);
}

/// A change is complete exactly where the destination holds the root's authority
/// of the change's own index, its receipt is the installer's latest and applied,
/// and the permit has not expired; the answer names just that.
pub proof fn a_change_is_complete_where_it_shows(
    change: DirectoryAuthorityChange,
    destination: Destination,
    snapshot: AuthoritySnapshot,
    latest: Option<ControlReceipt>,
    receipt: ControlReceipt,
    now: i64,
)
    requires
        !unset(change.plan.genesis),
    ensures
        ({
            let shows = is_the_plans(destination, change.plan) && now < change.expires_at
                && snapshot.source == change.root && snapshot.source_index == change.root_index
                && !zero_16(change.plan.installer()) && latest == Some(receipt)
                && receipt.committed_index <= destination.applied_index;
            let done = change.completed(destination, Ok(snapshot), latest, receipt, now);
            &&& shows ==> done == Ok::<DirectoryAuthorityReceipt, DirectoryBootstrapError>(
                DirectoryAuthorityReceipt {
                    root: change.root,
                    root_index: change.root_index,
                    receipt,
                    applied_index: destination.applied_index,
                },
            )
            &&& !shows ==> done is Err
        }),
{
    a_replica_is_the_plans_or_refused(destination, change.plan);
}

/// The first partition covers every ledger, in its first epoch and on its own
/// group; it comes with no image, and its plan is its founder's.
pub proof fn the_first_partition_covers_every_ledger(cluster: [u8; 16], founder: u64)
    ensures
        ({
            let plan = first_plan(cluster, founder);
            &&& plan.cluster == cluster && plan.founder_node == founder
            &&& plan.delegation.namespace == (NamespaceRange { start: None, end: None })
            &&& plan.delegation.partition == plan.partition && plan.delegation.log_group
                == plan.group
            &&& plan.hosts(plan.delegation)
            &&& plan.delegation.epoch == 1 && plan.delegation.activation is None
            &&& plan.image is None
            &&& plan.named().scope == ControlScope::Partition(plan.partition)
            &&& plan.named().group == plan.group && plan.named().cluster == cluster
        }),
{
}

/// What the root does next for a plan. In a directory that delegates nothing the
/// partition is delegated first, whole as planned. A delegated partition, or one
/// with an image, has its group granted to its founder, for as long as the node
/// itself is granted; once that stands nothing is left to do. Each intent is
/// decided on the very revisions that were read.
pub proof fn what_the_root_does_next(
    next: Result<Option<Intent>, DirectoryBootstrapError>,
    plan: PartitionPlan,
    observation: RootObservation,
    root_group: [u8; 16],
    now: i64,
    enrollment: Enrollment,
    authority: Authority,
    directory: RootDirectory,
    node: NodeGrant,
    receipt: EnrollmentReceipt,
)
    requires
        follows(next, plan, observation, root_group, now, true, Some(enrollment)),
        observation.identity.scope == ControlScope::Root,
        observation.identity.cluster == plan.cluster,
        observation.identity.group == root_group,
        observation.applied_index != 0,
        now >= 0,
        observation.directory == Some(directory),
        observation.authority == Some(authority),
        authority.revision != 0,
        authority.applied_index <= observation.applied_index,
        authority.clock <= now,
        observation.anchor.cluster == plan.cluster,
        observation.anchor.metadata_group == root_group,
        observation.anchor.genesis == observation.identity.genesis,
        observation.enrollment_bytes <= 128 * 1024,
        enrollment.applied_index <= observation.applied_index,
        authority.node_of(plan.founder_node) == Some(node),
        node.eligible,
        now < node.expires_at <= receipt.expires_at,
        enrollment.first(node, 0) == Some(receipt),
        receipt.authorized matches Some(proved) && proved.as_node,
    ensures
        ({
            let delegated = exists|i: int|
                0 <= i < directory.delegations@.len() && #[trigger] directory.delegations@[i]
                    == plan.partition;
            &&& directory.delegations@.len() == 0 && plan.image is None ==> next == Ok::<
                Option<Intent>,
                DirectoryBootstrapError,
            >(
                Some(
                    Intent::Delegate {
                        expected_revision: directory.revision,
                        delegation: plan.delegation,
                        authority_revision: authority.revision,
                        enrollment_revision: enrollment.revision,
                        decided_at: now,
                    },
                ),
            )
            &&& directory.delegations@.len() > 0 && !delegated && plan.image is None ==> next
                == Err::<Option<Intent>, DirectoryBootstrapError>(
                DirectoryBootstrapError::Unauthorized,
            )
            &&& (delegated || plan.image is Some) && !unset(plan.genesis) ==> match authority.group_of(
                plan.group,
            ) {
                None => next is Ok && next->Ok_0 is Some && (next->Ok_0->0 matches
                    Intent::BootstrapGroup {
                    expected_revision,
                    enrollment_revision,
                    decided_at,
                    grant,
                } && expected_revision == authority.revision && enrollment_revision
                    == enrollment.revision && decided_at == now && grant.group == plan.group
                    && lets_found(grant, plan, node) && grant.expires_at == node.expires_at),
                Some(standing) => next == (if lets_found(standing, plan, node) && now
                    < standing.expires_at <= node.expires_at {
                    Ok::<Option<Intent>, DirectoryBootstrapError>(None)
                } else {
                    Err::<Option<Intent>, DirectoryBootstrapError>(
                        DirectoryBootstrapError::Unauthorized,
                    )
                }),
            }
        }),
{
    match authority.group_of(plan.group) {
        Some(standing) => {
            lemma_founds(standing, plan, node);
        },
        None => {
            if next is Ok && next->Ok_0 is Some && next->Ok_0->0 is BootstrapGroup {
                lemma_founds(next->Ok_0->0->grant, plan, node);
            }
        },
    }
}

/// Nothing is planned on what is not the root's, on an authority that is not
/// anchored there, or for a founder that is not granted or not enrolled.
pub proof fn nothing_is_planned_otherwise(
    next: Result<Option<Intent>, DirectoryBootstrapError>,
    plan: PartitionPlan,
    observation: RootObservation,
    root_group: [u8; 16],
    now: i64,
    reserved: bool,
    enrollment: Option<Enrollment>,
)
    requires
        follows(next, plan, observation, root_group, now, reserved, enrollment),
    ensures
        observation.identity.scope != ControlScope::Root || observation.identity.cluster
            != plan.cluster || observation.identity.group != root_group || observation.directory
            is None ==> next == Err::<Option<Intent>, DirectoryBootstrapError>(
            DirectoryBootstrapError::Unauthorized,
        ),
        observation.authority is None ==> next is Err,
        observation.authority matches Some(authority) ==> (authority.applied_index
            > observation.applied_index || authority.clock > now || authority.revision == 0
            || observation.anchor.genesis != observation.identity.genesis ==> next is Err),
        !reserved || enrollment is None ==> next is Err,
        next is Ok ==> enrollment is Some && observation.authority is Some
            && enrollment->0.applied_index <= observation.applied_index && (
        observation.authority->0.node_of(plan.founder_node) matches Some(node) && node.eligible
            && now < node.expires_at && (enrollment->0.first(node, 0) matches Some(receipt)
            && receipt.expires_at >= node.expires_at && receipt.authorized is Some)),
{
}

/// What lacks room and what is busy is a matter of capacity, what is behind is
/// not ready, and what does not lead is unavailable; anything else is told as it
/// is.
pub proof fn a_control_error_is_told_for_what_it_is(
    error: ControlError,
    requested: usize,
    available: usize,
    leader: u64,
    what: &'static str,
)
    ensures
        admission(ControlError::Capacity) is Capacity,
        admission(ControlError::Busy) is Capacity,
        admission(ControlError::Memory(MemoryError::Capacity { requested, available }))
            is Capacity,
        admission(ControlError::Memory(MemoryError::DiskCapacity { requested, available }))
            is Capacity,
        admission(ControlError::Memory(MemoryError::AllocationFailed)) is Capacity,
        admission(ControlError::Consensus(ConsensusError::Capacity)) is Capacity,
        admission(ControlError::NotReady) is NotReady,
        admission(ControlError::Consensus(ConsensusError::PersistencePending)) is NotReady,
        admission(ControlError::Consensus(ConsensusError::LearnerBehind)) is NotReady,
        admission(ControlError::Consensus(ConsensusError::NotLeader { leader })) is Unavailable,
        admission(ControlError::Corrupt(what)) == DirectoryBootstrapError::Control(
            ControlError::Corrupt(what),
        ),
        admission(ControlError::Failed) == DirectoryBootstrapError::Control(ControlError::Failed),
        admission(ControlError::RetryExpired) == DirectoryBootstrapError::Control(
            ControlError::RetryExpired,
        ),
        normalized(DirectoryBootstrapError::Control(error)) == admission(error),
        normalized(DirectoryBootstrapError::NotReady) is NotReady,
        normalized(DirectoryBootstrapError::Capacity) is Capacity,
        normalized(DirectoryBootstrapError::Unavailable) is Unavailable,
        normalized(DirectoryBootstrapError::Inconsistent) is Inconsistent,
        normalized(DirectoryBootstrapError::Unauthorized) is Unauthorized,
{
}

/// A bootstrap is admitted by the leading root while none is under way, a request
/// more than those that wait fits, its clock is read and a number is left.
pub proof fn when_a_bootstrap_is_admitted(owner: ControlOwner)
    ensures
        owner.refuses_directory() is None <==> !owner.directory && owner.pending + (
        if owner.refresh {
            1int
        } else {
            0int
        }) < owner.pending_requests && owner.identity.scope == ControlScope::Root && owner.leader
            && owner.clock && owner.nonce < u64::MAX,
        !owner.directory && owner.pending + 1 < owner.pending_requests && (owner.identity.scope
            != ControlScope::Root || !owner.leader) ==> owner.refuses_directory() == Some(
            DirectoryBootstrapError::Unavailable,
        ),
        owner.directory || !owner.clock && owner.leader && owner.identity.scope
            == ControlScope::Root ==> owner.refuses_directory() == Some(
            DirectoryBootstrapError::Capacity,
        ),
{
}

/// A refresh that has submitted nothing ends with its caller, its deadline or its
/// term; one that has goes on, its caller answered, and reads anew in a new term.
pub proof fn only_an_unsent_refresh_is_given_up(
    pending: PendingAuthority,
    facts: RefreshFacts,
)
    ensures
        ({
            let gone = facts.canceled || facts.expired;
            let moved = pending.term != facts.term || !facts.leader;
            &&& pending.phase is Initial && (gone || moved) ==> pending.next(facts).1
                == Refresh::Fail(DirectoryBootstrapError::Unavailable) && pending.next(
                facts,
            ).0.replied
            &&& !(pending.phase is Initial) && !facts.leader ==> pending.next(facts).1
                == Refresh::Wait && pending.next(facts).0.phase == pending.phase
            &&& !(pending.phase is Initial) && moved ==> pending.next(facts).0.term == facts.term
                && pending.next(facts).0.reading is None && pending.next(facts).0.replied
            &&& pending.replied || gone ==> pending.next(facts).0.replied
            &&& !gone && !moved ==> pending.next(facts).0.replied == pending.replied
            &&& pending.next(facts).0.request == pending.request
        }),
{
}

/// A refresh of the leading owner asks for a read before anything else, waits for
/// that very read, and behind it prepares; what it wrote is answered by its own
/// receipt behind a read that follows the receipt. Where the receipt is missing
/// behind the read, and nothing is pending, the write was lost.
pub proof fn a_refresh_runs_its_course(
    pending: PendingAuthority,
    facts: RefreshFacts,
    receipt: ControlReceipt,
    nonce: u64,
    error: ControlError,
)
    requires
        facts.leader,
        pending.term == facts.term,
        !facts.canceled,
        !facts.expired,
    ensures
        ({
            let answered = pending.reading == Some(nonce) && facts.reads.answers(
                refresh_read(nonce),
            );
            let unanswered = pending.reading == Some(nonce) && !facts.reads.answers(
                refresh_read(nonce),
            );
            let done = pending.next(facts);
            &&& !(pending.phase is Writing) && pending.reading is None ==> done.1 == Refresh::Read
            &&& !(pending.phase is Writing) && unanswered ==> done.1 == Refresh::Wait && done.0
                == pending
            &&& pending.phase is Initial && answered ==> done.1 == Refresh::Prepare
            &&& pending.phase == RefreshPhase::Committed(receipt) && answered ==> done.1
                == Refresh::Complete(receipt)
            &&& pending.phase is Writing && pending.request is Some ==> {
                &&& facts.receipt == Ok::<Option<ControlReceipt>, ControlError>(Some(receipt))
                    ==> done.1 == Refresh::Read && done.0.phase == RefreshPhase::Committed(
                    receipt,
                )
                &&& facts.receipt == Ok::<Option<ControlReceipt>, ControlError>(None)
                    && facts.pending ==> done.1 == Refresh::Wait && done.0 == pending
                &&& facts.receipt == Ok::<Option<ControlReceipt>, ControlError>(None)
                    && !facts.pending ==> done.1 == Refresh::Read && done.0.phase
                    == RefreshPhase::Reconcile
                &&& facts.receipt == Err::<Option<ControlReceipt>, ControlError>(error) ==> done.1
                    == Refresh::Fail(DirectoryBootstrapError::Control(error))
            }
            &&& pending.phase is Reconcile && pending.request is Some && answered ==> {
                &&& facts.receipt == Ok::<Option<ControlReceipt>, ControlError>(Some(receipt))
                    ==> done.1 == Refresh::Complete(receipt)
                &&& facts.receipt == Ok::<Option<ControlReceipt>, ControlError>(None)
                    && facts.pending ==> done.1 == Refresh::Wait && done.0.phase
                    == RefreshPhase::Writing
                &&& facts.receipt == Ok::<Option<ControlReceipt>, ControlError>(None)
                    && !facts.pending ==> done.1 == Refresh::Fail(
                    DirectoryBootstrapError::Unavailable,
                )
            }
        }),
{
}

/// A group that holds no authority is activated by the installer's first request,
/// at the revision that was read; one that holds an older one is installed over,
/// behind the last request; and one that holds the permit's own is settled.
pub proof fn a_group_is_brought_to_the_permits_authority(
    permit: PartitionBootstrapPermit,
    delegation: Delegation,
    revision: u64,
    current: AuthoritySnapshot,
    previous: ControlReceipt,
    now: i64,
)
    requires
        delegation.partition == permit.plan.partition,
        delegation.log_group == permit.plan.group,
        !zero_16(permit.plan.installer()),
        !unset(permit.plan.genesis),
    ensures
        permit.activated(Some(delegation), revision, None, None, now) == Ok::<
            Activation,
            DirectoryBootstrapError,
        >(
            Activation::Activate {
                id: ControlRequestId { client: permit.plan.installer(), sequence: 1 },
                acknowledged_through: 0,
                expected_partition_revision: revision,
            },
        ),
        permit.activated(Some(delegation), revision, None, Some(previous), now) is Err,
        permit.activated(Some(delegation), revision, Some(current), None, now) is Err,
        permit.activated(None, revision, Some(current), Some(previous), now) is Err,
        current.source == permit.snapshot.source && current.identity == permit.plan.named() ==> {
            let made = permit.activated(
                Some(delegation),
                revision,
                Some(current),
                Some(previous),
                now,
            );
            &&& current.source_index > permit.snapshot.source_index ==> made is Err
            &&& current.source_index == permit.snapshot.source_index ==> made == (
            if current.authority@ == permit.snapshot.authority@ && current.enrollment@
                == permit.snapshot.enrollment@ {
                Ok::<Activation, DirectoryBootstrapError>(Activation::Settled)
            } else {
                Err::<Activation, DirectoryBootstrapError>(DirectoryBootstrapError::Inconsistent)
            })
            &&& current.source_index < permit.snapshot.source_index && previous.request.sequence
                < u64::MAX ==> (made matches Ok(Activation::Install(request))
                && request.id.client == permit.plan.installer() && request.id.sequence
                == previous.request.sequence + 1 && request.acknowledged_through
                == previous.request.sequence && request.expected_source_index
                == current.source_index && request.decided_at == now)
        },
        current.source != permit.snapshot.source || current.identity != permit.plan.named()
            ==> permit.activated(Some(delegation), revision, Some(current), Some(previous), now)
            is Err,
{
}

/// A group that is not the plan's is not activated.
pub proof fn another_partition_is_not_activated(
    permit: PartitionBootstrapPermit,
    delegation: Delegation,
    revision: u64,
    current: Option<AuthoritySnapshot>,
    previous: Option<ControlReceipt>,
    now: i64,
)
    requires
        delegation.partition != permit.plan.partition || delegation.log_group
            != permit.plan.group,
    ensures
        permit.activated(Some(delegation), revision, current, previous, now) == Err::<
            Activation,
            DirectoryBootstrapError,
        >(DirectoryBootstrapError::Unauthorized),
{
}

/// An opening drains what was recovered, leads, reads behind a barrier of its
/// own, inspects, submits what is missing, and waits for its receipt; behind the
/// receipt it drains and reads once more.
pub proof fn an_opening_runs_its_course(
    opening: Opening,
    permit: PartitionBootstrapPermit,
    did: Did,
    now: i64,
    id: ControlRequestId,
)
    requires
        opening.wf(),
    ensures
        ({
            let next = opening.next(permit, did, now);
            let more = opening.barrier.rounds < STARTUP_ROUNDS;
            &&& opening.stage is Draining ==> (did matches Did::Drained {
                configuration,
                quiet,
                leader,
                ..
            } ==> (is_single(configuration, permit.plan.founder_node) && quiet ==> next.1 == (
            if leader {
                Opens::Drain
            } else {
                Opens::Campaign
            }) && next.0.barrier.rounds == 0 && !next.0.barrier.requested && next.0.submitted
                == opening.submitted))
            &&& opening.stage is Campaigning && did is Done ==> next.1 == (if more {
                Opens::Drain
            } else {
                Opens::Return(Err(DirectoryBootstrapError::NotReady))
            }) && (more ==> next.0.stage is Waiting)
            &&& opening.stage is Waiting ==> (did matches Did::Drained { quiet, reads, .. } ==> {
                &&& next.0.barrier.rounds == opening.barrier.rounds + 1
                &&& !quiet ==> next.1 == Opens::Return(Err(DirectoryBootstrapError::Unauthorized))
                &&& quiet && !opening.barrier.requested ==> next.1 == Opens::Ask
                &&& quiet && opening.barrier.requested && reads.answers(startup_read()) ==> next.1
                    == (if opening.submitted {
                    Opens::Return(Ok(()))
                } else {
                    Opens::Inspect
                })
                &&& quiet && opening.barrier.requested && !reads.answers(startup_read()) ==> next.1
                    == (if opening.barrier.rounds + 1 < STARTUP_ROUNDS {
                    Opens::Drain
                } else {
                    Opens::Return(Err(DirectoryBootstrapError::NotReady))
                })
            })
            &&& opening.stage is Asking && did is Done && more ==> next.1 == Opens::Drain
                && next.0.barrier.requested && next.0.stage is Waiting
            &&& opening.stage is Asking && did == Did::Failed(ControlError::NotReady) && more
                ==> next.1 == Opens::Drain && next.0.barrier.requested
                == opening.barrier.requested
            &&& opening.stage == Stage::Submitting(id) && did is Done ==> next.1 == Opens::Drain
                && next.0.stage == Stage::Settling(id) && next.0.submitted && next.0.rounds == 0
            &&& opening.stage == Stage::Settling(id) ==> (did matches Did::Drained {
                configuration,
                quiet,
                ..
            } ==> (is_single(configuration, permit.plan.founder_node) && quiet ==> next.1
                == Opens::Receipt(id) && next.0.stage == Stage::Looking(id) && next.0.rounds
                == opening.rounds + 1))
            &&& opening.stage == Stage::Looking(id) ==> (did matches Did::Receipt(found) ==> {
                &&& found ==> next.1 == Opens::Drain && next.0.stage is Draining
                &&& !found && opening.rounds < STARTUP_ROUNDS ==> next.1 == Opens::Drain
                    && next.0.stage == Stage::Settling(id)
                &&& !found && opening.rounds >= STARTUP_ROUNDS ==> next.1 == Opens::Return(
                    Err(DirectoryBootstrapError::NotReady),
                )
            })
            &&& !(opening.stage is Submitting) ==> next.0.submitted == opening.submitted
        }),
{
    if let Did::Drained { configuration, .. } = did {
        a_node_is_alone_where_it_is_all(configuration, permit.plan.founder_node);
    }
}

/// What an opening inspected decides what it submits: just the activation the
/// permit calls for, whose own receipt it waits for.
pub proof fn an_opening_submits_what_is_missing(
    opening: Opening,
    permit: PartitionBootstrapPermit,
    delegation: Option<Delegation>,
    revision: u64,
    current: Option<AuthoritySnapshot>,
    previous: Option<ControlReceipt>,
    now: i64,
)
    requires
        opening.stage is Inspecting,
    ensures
        ({
            let next = opening.next(
                permit,
                Did::Found { delegation, revision, current, previous },
                now,
            );
            match permit.activated(delegation, revision, current, previous, now) {
                Err(error) => next.1 == Opens::Return(Err(error)),
                Ok(Activation::Settled) => next.1 == Opens::Return(Ok(())),
                Ok(activation) => next.1 == Opens::Submit(activation) && (
                next.0.stage matches Stage::Submitting(id) && (match activation {
                    Activation::Activate { id: asked, .. } => id == asked,
                    Activation::Install(install) => id == install.id,
                    Activation::Settled => false,
                })),
            }
        }),
{
}

/// A failure ends an opening with just that failure, but for a read that was
/// asked too early; and what has ended stays so.
pub proof fn a_failure_ends_an_opening(
    opening: Opening,
    permit: PartitionBootstrapPermit,
    error: ControlError,
    did: Did,
    now: i64,
    ended: Result<(), DirectoryBootstrapError>,
)
    ensures
        !(opening.stage is Finished) && !(opening.stage is Asking && error is NotReady)
            ==> opening.next(permit, Did::Failed(error), now).1 == Opens::Return(
            Err(DirectoryBootstrapError::Control(error)),
        ),
        opening.stage == Stage::Finished(ended) ==> opening.next(permit, did, now).1
            == Opens::Return(ended),
{
}

/// An image opens the partition it was sealed for: of this cluster, for that very
/// partition and its very ledgers, which the delegation activates.
pub proof fn an_image_is_for_its_partition(
    cluster: [u8; 16],
    delegation: Delegation,
    image: PartitionImage,
)
    ensures
        PartitionPlan::sealed_for(cluster, delegation, image) <==> image.cluster == cluster
            && delegation.activation is Some && (image.sealed matches Some(seal)
            && seal.destination == delegation.partition && seal.moved == delegation.namespace),
{
}

/// An owner is charged for every slot of its queues, for itself and its stack:
/// each item costs more than its bytes, and a longer queue costs more.
pub proof fn an_owner_is_charged_for_its_queues(
    queue: usize,
    replication: usize,
    work: usize,
    frame: usize,
    owner: usize,
)
    requires
        work + 128 <= usize::MAX,
        frame + 128 <= usize::MAX,
    ensures
        owner_total(0, 0, work, frame, owner) == owner + super::startup::DIRECTORY_STACK_BYTES
            + 4096,
        queue < usize::MAX ==> owner_total((queue + 1) as usize, replication, work, frame, owner)
            == owner_total(queue, replication, work, frame, owner) + work + 128,
        replication < usize::MAX ==> owner_total(
            queue,
            (replication + 1) as usize,
            work,
            frame,
            owner,
        ) == owner_total(queue, replication, work, frame, owner) + work + 128 + frame + 128,
{
    let (a, b) = (work + 128, frame + 128);
    assert((queue + 1 + replication) * a == (queue + replication) * a + a) by (nonlinear_arith);
    assert((queue + (replication + 1)) * a == (queue + replication) * a + a) by (nonlinear_arith);
    assert((replication + 1) * b == replication * b + b) by (nonlinear_arith);
    assert((0int + 0int) * a == 0 && 0int * b == 0) by (nonlinear_arith);
}

/// An owner that is busy, not ready or short of room is asked again; one that
/// does not lead or that failed is not.
pub proof fn who_is_asked_again(requested: usize, available: usize, leader: u64, what: &'static str)
    ensures
        PendingAuthority::transient(ControlError::NotReady) && PendingAuthority::transient(
            ControlError::Busy,
        ) && PendingAuthority::transient(ControlError::Capacity),
        PendingAuthority::transient(
            ControlError::Consensus(ConsensusError::PersistencePending),
        ) && PendingAuthority::transient(ControlError::Consensus(ConsensusError::Capacity)),
        PendingAuthority::transient(
            ControlError::Memory(MemoryError::Capacity { requested, available }),
        ) && PendingAuthority::transient(ControlError::Memory(MemoryError::AllocationFailed)),
        !PendingAuthority::transient(
            ControlError::Memory(MemoryError::DiskCapacity { requested, available }),
        ) && !PendingAuthority::transient(ControlError::Failed) && !PendingAuthority::transient(
            ControlError::RetryExpired,
        ) && !PendingAuthority::transient(ControlError::Corrupt(what))
            && !PendingAuthority::transient(
            ControlError::Consensus(ConsensusError::NotLeader { leader }),
        ) && !PendingAuthority::transient(ControlError::Consensus(ConsensusError::LearnerBehind)),
{
}

/// A cluster's own ledger is derived where neither its tenant nor its session is
/// zero.
pub proof fn a_cluster_has_a_ledger_of_its_own(cluster: [u8; 16])
    ensures
        derivable(cluster) <==> !zero_16(rpc_ledger(cluster).tenant) && !zero_16(
            rpc_ledger(cluster).session,
        ),
        first_plan(cluster, 1).namespace == rpc_ledger(cluster),
{
}

/// A founder that is not granted yet is waited for; one that may not be a node,
/// whose grant has passed, or whose enrolment does not cover it is refused; and an
/// enrolment of a later index contradicts what was read.
pub proof fn why_a_founder_is_refused(
    authority: Authority,
    enrollment: Enrollment,
    node: u64,
    applied: u64,
    now: i64,
)
    ensures
        ({
            let found = founding_node(authority, enrollment, node, applied, now);
            &&& enrollment.applied_index > applied ==> found == Err::<
                NodeGrant,
                DirectoryBootstrapError,
            >(DirectoryBootstrapError::Inconsistent)
            &&& enrollment.applied_index <= applied && authority.node_of(node) is None ==> found
                == Err::<NodeGrant, DirectoryBootstrapError>(DirectoryBootstrapError::NotReady)
            &&& enrollment.applied_index <= applied && authority.node_of(node) is Some ==> ({
                let grant = authority.node_of(node)->0;
                let receipt = enrollment.first(grant, 0);
                let stands = grant.eligible && now < grant.expires_at && receipt is Some
                    && receipt->0.authorized is Some && receipt->0.authorized->0.as_node
                    && receipt->0.expires_at >= grant.expires_at;
                found == (if stands {
                    Ok::<NodeGrant, DirectoryBootstrapError>(grant)
                } else {
                    Err::<NodeGrant, DirectoryBootstrapError>(
                        DirectoryBootstrapError::Unauthorized,
                    )
                })
            })
        }),
{
}

/// An opening remembers the turn it asked for.
pub proof fn an_opening_remembers_its_turn(
    opening: Opening,
    permit: PartitionBootstrapPermit,
    did: Did,
    now: i64,
)
    ensures
        ({
            let (after, opens) = opening.next(permit, did, now);
            match opens {
                Opens::Drain => after.stage is Draining || after.stage is Waiting || after.stage
                    is Settling,
                Opens::Campaign => after.stage is Campaigning,
                Opens::Ask => after.stage is Asking,
                Opens::Inspect => after.stage is Inspecting,
                Opens::Submit(_) => after.stage is Submitting,
                Opens::Receipt(id) => after.stage == Stage::Looking(id),
                Opens::Return(result) => after.stage == Stage::Finished(result),
            }
        }),
{
}

/// Why a group is not activated: one that holds nothing of a partition, or that
/// contradicts what the permit was given on, is inconsistent; and an installer
/// that has used its last number has none left.
pub proof fn why_a_group_is_not_activated(
    permit: PartitionBootstrapPermit,
    delegation: Delegation,
    revision: u64,
    current: AuthoritySnapshot,
    previous: ControlReceipt,
    now: i64,
)
    requires
        permit.plan.hosts(delegation),
    ensures
        ({
            let inconsistent = Err::<Activation, DirectoryBootstrapError>(
                DirectoryBootstrapError::Inconsistent,
            );
            &&& permit.activated(None, revision, Some(current), Some(previous), now)
                == inconsistent
            &&& permit.activated(Some(delegation), revision, None, Some(previous), now)
                == inconsistent
            &&& permit.activated(Some(delegation), revision, Some(current), None, now)
                == inconsistent
            &&& current.source != permit.snapshot.source || current.identity != permit.plan.named()
                || current.source_index > permit.snapshot.source_index ==> permit.activated(
                Some(delegation),
                revision,
                Some(current),
                Some(previous),
                now,
            ) == inconsistent
            &&& !zero_16(permit.plan.installer()) && !unset(permit.plan.genesis) && current.source
                == permit.snapshot.source && current.identity == permit.plan.named()
                && current.source_index < permit.snapshot.source_index
                && previous.request.sequence == u64::MAX ==> permit.activated(
                Some(delegation),
                revision,
                Some(current),
                Some(previous),
                now,
            ) == Err::<Activation, DirectoryBootstrapError>(DirectoryBootstrapError::Capacity)
        }),
{
}

/// A refresh whose write has no request, or whose read answers a write that was
/// never looked up, contradicts itself.
pub proof fn a_write_without_a_request_is_inconsistent(
    pending: PendingAuthority,
    facts: RefreshFacts,
)
    requires
        facts.leader,
        pending.term == facts.term,
        pending.request is None,
        pending.phase is Writing,
    ensures
        pending.next(facts).1 == Refresh::Fail(DirectoryBootstrapError::Inconsistent),
{
}

/// A permit's snapshot is the root's own, of all that the root has applied and of
/// nothing later.
pub proof fn a_snapshot_is_the_roots_own(snapshot: AuthoritySnapshot, owner: RootOwner, now: i64)
    requires
        exported(snapshot, owner, now),
    ensures
        snapshot.identity == owner.identity && snapshot.source == owner.identity,
        snapshot.source_index == owner.applied_index && snapshot.applied_index
            == owner.applied_index,
        snapshot.decided_at <= now,
{
}

/// A barrier is waited for while rounds are left, and then it is not ready.
pub proof fn a_barrier_is_waited_for(barrier: Barrier)
    ensures
        barrier.rounds < STARTUP_ROUNDS ==> barrier.again() == Ok::<Round, DirectoryBootstrapError>(
            Round::Drain,
        ),
        barrier.rounds >= STARTUP_ROUNDS ==> barrier.again() == Err::<
            Round,
            DirectoryBootstrapError,
        >(DirectoryBootstrapError::NotReady),
{
}

/// Each identity of a cluster's directory is derived under a purpose of its own.
pub proof fn identities_are_derived_under_their_own_purposes(cluster: [u8; 16], founder: u64)
    ensures
        ({
            let plan = first_plan(cluster, founder);
            &&& plan.partition == derived("focal.directory.first-partition.v1"@, cluster)
            &&& plan.group == derived("focal.directory.first-group.v1"@, cluster)
            &&& plan.namespace.tenant == derived("focal.directory.rpc-tenant.v1"@, cluster)
            &&& plan.namespace.session == derived("focal.directory.rpc-session.v1"@, cluster)
            &&& plan.installer() == derived(
                "focal.directory.authority-install-client.v1"@,
                cluster,
            )
        }),
        "focal.directory.first-partition.v1"@ != "focal.directory.first-group.v1"@,
        "focal.directory.rpc-tenant.v1"@ != "focal.directory.rpc-session.v1"@,
{
    reveal_strlit("focal.directory.first-partition.v1");
    reveal_strlit("focal.directory.first-group.v1");
    reveal_strlit("focal.directory.rpc-tenant.v1");
    reveal_strlit("focal.directory.rpc-session.v1");
    assert("focal.directory.first-partition.v1"@.len() != "focal.directory.first-group.v1"@.len());
    assert("focal.directory.rpc-tenant.v1"@.len() != "focal.directory.rpc-session.v1"@.len());
}

} // verus!
