//! What a request that waits is promised: that it is asked about, that what
//! is found answers it, and that it is answered once.
use super::request::{Correlation, Owner, Purpose, Ticket};
use super::resolve::{
    expirations, kept, left, looked_at, resolutions, Events, Fate, Found, Pending, Question,
    ReadToken, WaitingFor,
};
use crate::access::AccessError;
use vstd::prelude::*;

verus! {

/// Whether the barrier a read was asked under was answered, with this prefix:
/// it is the first under the read's own context.
pub open spec fn barrier_answered(events: Events, ticket: Ticket, at: int) -> bool {
    &&& 0 <= at < events.read_barriers@.len()
    &&& events.read_barriers@[at].0@ == ticket.asked_under()
    &&& forall|i: int|
        0 <= i < at ==> #[trigger] events.read_barriers@[i].0@ != ticket.asked_under()
}

/// Whether a native read has its boundary: the first of its own.
pub open spec fn boundary_known(events: Events, read: Correlation, at: int) -> bool {
    &&& 0 <= at < events.native_read_boundaries@.len()
    &&& events.native_read_boundaries@[at] == read
    &&& forall|i: int| 0 <= i < at ==> #[trigger] events.native_read_boundaries@[i] != read
}

proof fn lemma_prefix(barriers: Seq<(Vec<u8>, u64)>, context: Seq<u8>, at: int)
    requires
        0 <= at < barriers.len(),
        barriers[at].0@ == context,
        forall|i: int| 0 <= i < at ==> #[trigger] barriers[i].0@ != context,
    ensures
        super::resolve::prefix_of(barriers, context) == Some(barriers[at].1),
    decreases barriers.len(),
{
    if at > 0 {
        let rest = barriers.drop_first();
        assert(barriers[0].0@ != context);
        assert forall|i: int| 0 <= i < at - 1 implies #[trigger] rest[i].0@ != context by {
            assert(barriers[i + 1].0@ != context);
        }
        lemma_prefix(rest, context, at - 1);
    }
}

proof fn lemma_no_prefix(barriers: Seq<(Vec<u8>, u64)>, context: Seq<u8>)
    requires
        forall|i: int| 0 <= i < barriers.len() ==> #[trigger] barriers[i].0@ != context,
    ensures
        super::resolve::prefix_of(barriers, context) is None,
    decreases barriers.len(),
{
    if barriers.len() > 0 {
        let rest = barriers.drop_first();
        assert(barriers[0].0@ != context);
        assert forall|i: int| 0 <= i < rest.len() implies #[trigger] rest[i].0@ != context by {
            assert(barriers[i + 1].0@ != context);
        }
        lemma_no_prefix(rest, context);
    }
}

proof fn lemma_boundary(boundaries: Seq<Correlation>, read: Correlation, from: int, at: int)
    requires
        0 <= from <= at < boundaries.len() <= usize::MAX,
        boundaries[at] == read,
        forall|i: int| from <= i < at ==> #[trigger] boundaries[i] != read,
    ensures
        super::resolve::boundary_of(boundaries, read, from) == Some(at as usize),
    decreases at - from,
{
    if from < at {
        lemma_boundary(boundaries, read, from + 1, at);
    }
}

/// A quorum read is of the first barrier under its own context, and of no
/// other: it has that barrier's prefix, and none where no barrier is its own.
pub proof fn a_read_has_the_prefix_of_its_barrier(events: Events, ticket: Ticket, at: int)
    ensures
        barrier_answered(events, ticket, at) ==> events.prefix(ticket) == Some(
            events.read_barriers@[at].1,
        ),
        (forall|i: int|
            0 <= i < events.read_barriers@.len() ==> #[trigger] events.read_barriers@[i].0@
                != ticket.asked_under()) ==> events.prefix(ticket) is None,
{
    if barrier_answered(events, ticket, at) {
        lemma_prefix(events.read_barriers@, ticket.asked_under(), at);
    }
    if forall|i: int|
        0 <= i < events.read_barriers@.len() ==> #[trigger] events.read_barriers@[i].0@
            != ticket.asked_under() {
        lemma_no_prefix(events.read_barriers@, ticket.asked_under());
    }
}

/// Whether what the request waits for can be looked at now: a read and a
/// stream's command in their own term, by the authority that leads, and behind
/// their barrier; a cursor while the owner does not stop.
pub open spec fn can_be_asked<T>(
    pending: Pending<T>,
    owner: Owner,
    events: Events,
    at: int,
) -> bool {
    let authority = pending.term == owner.term && owner.authoritative && owner.leader;
    match pending.waiting {
        WaitingFor::Mutation
        | WaitingFor::NativeMutation
        | WaitingFor::ManagedMutation
        | WaitingFor::PeerPersistence => true,
        WaitingFor::Stream | WaitingFor::ManagedStream => !owner.stopping && owner.serves(
            pending.route_epoch,
        ),
        WaitingFor::RequestStreamControl { reading: Some(ticket) } => authority && !owner.stopping
            && owner.serves(pending.route_epoch) && barrier_answered(events, ticket, at),
        WaitingFor::RequestStreamControl { reading: None } => false,
        WaitingFor::NativeRead(read) => authority && owner.serves(pending.route_epoch)
            && boundary_known(events, read, at),
        WaitingFor::Quorum(ticket) => authority && owner.serves(pending.route_epoch)
            && barrier_answered(events, ticket, at),
    }
}

/// What is found answers the request it was found for, whatever it waits for
/// and however late it is; what the session refuses ends it with that error. A
/// message that is durable needs nothing to be found.
pub proof fn what_is_found_answers<T>(
    pending: Pending<T>,
    owner: Owner,
    events: Events,
    at: int,
    now: u64,
    error: AccessError,
)
    requires
        can_be_asked(pending, owner, events, at),
        events.native_read_boundaries@.len() <= usize::MAX,
    ensures
        pending.resolved(owner, events, Found::Reply, now) == Fate::Answered,
        !(pending.waiting is PeerPersistence) ==> pending.resolved(
            owner,
            events,
            Found::Refused(error),
            now,
        ) == Fate::Ended(error),
        pending.waiting is PeerPersistence ==> pending.resolved(
            owner,
            events,
            Found::Nothing,
            now,
        ) == Fate::Answered,
        !(pending.asks(owner, events) is Nothing),
        !(pending.asks(owner, events) is Closed),
{
    match pending.waiting {
        WaitingFor::RequestStreamControl { reading: Some(ticket) } => {
            lemma_prefix(events.read_barriers@, ticket.asked_under(), at);
        },
        WaitingFor::Quorum(ticket) => {
            lemma_prefix(events.read_barriers@, ticket.asked_under(), at);
        },
        WaitingFor::NativeRead(read) => {
            lemma_boundary(events.native_read_boundaries@, read, 0, at);
        },
        _ => {},
    }
}

/// A mutation is asked about under whatever route, term and authority, each by
/// what it proposed: a command by its receipt, one under a managed key by what
/// that key committed, a native one by its native outcome.
pub proof fn a_mutation_is_always_asked_about<T>(pending: Pending<T>, owner: Owner, events: Events)
    ensures
        pending.waiting is Mutation <==> pending.asks(owner, events) is Receipt,
        pending.waiting is NativeMutation <==> pending.asks(owner, events) is NativeOutcome,
        pending.waiting is ManagedMutation <==> pending.asks(owner, events) is ManagedReply,
        pending.waiting is PeerPersistence <==> pending.asks(owner, events) is Persisted,
{
}

/// A read is asked for what it waits for, no earlier than its own barrier: a
/// linearizable read by a token of this ledger and route at the barrier's
/// prefix, any other behind that prefix, a native one by its own boundary.
pub proof fn a_read_is_asked_behind_its_barrier<T>(
    pending: Pending<T>,
    owner: Owner,
    events: Events,
    at: int,
)
    requires
        can_be_asked(pending, owner, events, at),
        events.native_read_boundaries@.len() <= usize::MAX,
    ensures
        pending.waiting matches WaitingFor::Quorum(ticket) ==> pending.asks(owner, events) == (
        if ticket.purpose is Read {
            Question::ReadAtLeast(
                ReadToken {
                    ledger: owner.ledger,
                    sequence: events.read_barriers@[at].1,
                    route_epoch: owner.route_epoch,
                },
            )
        } else {
            Question::ReadAfter { prefix: events.read_barriers@[at].1 }
        }),
        pending.waiting is NativeRead ==> pending.asks(owner, events) == (Question::NativeRead {
            boundary: at as usize,
        }),
        pending.waiting is RequestStreamControl ==> pending.asks(owner, events)
            == Question::ControlReply,
        pending.waiting is Stream ==> pending.asks(owner, events) == Question::Stream,
        pending.waiting is ManagedStream ==> pending.asks(owner, events)
            == Question::ManagedStream,
{
    match pending.waiting {
        WaitingFor::RequestStreamControl { reading: Some(ticket) } => {
            lemma_prefix(events.read_barriers@, ticket.asked_under(), at);
        },
        WaitingFor::Quorum(ticket) => {
            lemma_prefix(events.read_barriers@, ticket.asked_under(), at);
        },
        WaitingFor::NativeRead(read) => {
            lemma_boundary(events.native_read_boundaries@, read, 0, at);
        },
        _ => {},
    }
}

/// A read that only the whole authority may answer is not answered by a replica
/// that merely leads; a list, a selection and a linearizable read need no more
/// than the lead.
pub proof fn who_may_answer_a_read(purpose: Purpose, owner: Owner)
    ensures
        purpose is RequestStream || purpose is Monitor || purpose is Summary || purpose
            is Reconcile || purpose is Control ==> purpose.answerable(owner)
            == owner.authoritative,
        purpose is List || purpose is Select || purpose is Validators || purpose is Traverse
            || purpose is Read ==> purpose.answerable(owner) == owner.leader,
{
}

/// At a closed route nothing waits but what may have committed: everything
/// else is told at once that it is unavailable.
pub proof fn a_closed_route_ends_what_cannot_commit<T>(
    pending: Pending<T>,
    owner: Owner,
    events: Events,
    found: Found,
    now: u64,
)
    requires
        pending.route_epoch != owner.route_epoch || owner.cutover || (
        owner.active_route matches Some(active) && active != pending.route_epoch),
        !(pending.waiting is Mutation),
        !(pending.waiting is NativeMutation),
        !(pending.waiting is ManagedMutation),
        !(pending.waiting is PeerPersistence),
    ensures
        pending.resolved(owner, events, found, now) == Fate::Ended(AccessError::Unavailable),
{
}

/// A route is open to clients exactly where it is the owner's own, no other was
/// activated and no cutover closes it.
pub proof fn a_route_is_open_where_it_is_the_owners(owner: Owner, route: u64)
    ensures
        owner.serves(route) <==> route == owner.route_epoch && !owner.cutover && (
        owner.active_route is None || owner.active_route == Some(route)),
{
}

/// A request nothing was found for waits on, as it was, to its deadline and
/// through its term; then it is told what it can be: a command may have been
/// done, a cursor was cut short, and a read was not.
pub proof fn a_request_waits_to_its_deadline<T>(
    pending: Pending<T>,
    owner: Owner,
    events: Events,
    now: u64,
)
    requires
        !(pending.waiting is PeerPersistence),
        owner.serves(pending.route_epoch),
    ensures
        now < pending.deadline && pending.term == owner.term ==> pending.resolved(
            owner,
            events,
            Found::Nothing,
            now,
        ) == Fate::Kept,
        now >= pending.deadline || pending.term != owner.term ==> pending.resolved(
            owner,
            events,
            Found::Nothing,
            now,
        ) == Fate::Ended(
            match pending.waiting {
                WaitingFor::Mutation
                | WaitingFor::ManagedMutation
                | WaitingFor::RequestStreamControl { .. } => AccessError::OutcomeUnknown,
                WaitingFor::Stream | WaitingFor::ManagedStream => pending.interrupted,
                _ => AccessError::Unavailable,
            },
        ),
        pending.advanced(owner, events, Found::Nothing) == pending,
        pending.advanced(owner, events, Found::Reply) == pending,
{
}

/// A stream's command with its receipt waits for the read that was asked for,
/// and the answer to that very read answers it.
pub proof fn a_command_waits_for_its_read<T>(
    pending: Pending<T>,
    owner: Owner,
    events: Events,
    later: Events,
    ticket: Ticket,
    at: int,
    now: u64,
)
    requires
        pending.waiting == (WaitingFor::RequestStreamControl { reading: None }),
        owner.serves(pending.route_epoch),
        pending.term == owner.term,
        owner.authoritative,
        !owner.stopping,
        now < pending.deadline,
        barrier_answered(later, ticket, at),
    ensures
        pending.asks(owner, events) == Question::ControlReceipt,
        pending.resolved(owner, events, Found::Reading(ticket), now) == Fate::Kept,
        ({
            let waits = pending.advanced(owner, events, Found::Reading(ticket));
            &&& waits == Pending {
                waiting: WaitingFor::RequestStreamControl { reading: Some(ticket) },
                ..pending
            }
            &&& waits.resolved(owner, later, Found::Reply, now) == Fate::Answered
        }),
{
    lemma_prefix(later.read_barriers@, ticket.asked_under(), at);
}

/// Time alone ends a request at its deadline and drops one whose caller left;
/// it tells what resolving would, where nothing is found at that time.
pub proof fn time_ends_a_request_at_its_deadline<T>(
    pending: Pending<T>,
    owner: Owner,
    events: Events,
    now: u64,
)
    ensures
        pending.closed ==> pending.expired(now) == Fate::Dropped,
        !pending.closed && now < pending.deadline ==> pending.expired(now) == Fate::Kept,
        !pending.closed && now >= pending.deadline && !(pending.waiting is PeerPersistence)
            && owner.serves(pending.route_epoch) ==> pending.expired(now) == pending.resolved(
            owner,
            events,
            Found::Nothing,
            now,
        ),
        !pending.closed && now >= pending.deadline ==> pending.expired(now) is Ended,
{
}

/// A request whose owner closes is told that it was not done only where it
/// merely read; nothing that may have committed is.
pub proof fn a_closing_owner_denies_no_mutation(waiting: WaitingFor)
    ensures
        waiting.closed() == AccessError::Unavailable || waiting.closed()
            == AccessError::OutcomeUnknown,
        waiting is Mutation || waiting is NativeMutation || waiting is ManagedMutation || waiting
            is RequestStreamControl || waiting is Stream || waiting is ManagedStream || waiting
            is PeerPersistence ==> waiting.closed() == AccessError::OutcomeUnknown,
        waiting is NativeRead ==> waiting.closed() == AccessError::Unavailable,
        waiting matches WaitingFor::Quorum(ticket) ==> (waiting.closed() == AccessError::Unavailable
            <==> ticket.purpose is Summary || ticket.purpose is Monitor || ticket.purpose
            is Reconcile || ticket.purpose is RequestStream),
{
}

/// Every request keeps its place: one that waits on stands behind those before
/// it that do, one that does not leaves behind those before it that did, with
/// its own fate; and there are no others.
pub proof fn every_request_keeps_its_place<T>(
    queue: Seq<Pending<T>>,
    fates: Seq<Fate>,
    n: int,
    i: int,
)
    requires
        0 <= i < n <= queue.len(),
        queue.len() == fates.len(),
    ensures
        fates[i] == Fate::Kept ==> {
            let place = kept(queue, fates, i).len() as int;
            place < kept(queue, fates, n).len() && kept(queue, fates, n)[place] == queue[i]
        },
        fates[i] != Fate::Kept ==> {
            let place = left(queue, fates, i).len() as int;
            place < left(queue, fates, n).len() && left(queue, fates, n)[place] == (
            queue[i],
            fates[i],
        )
        },
        kept(queue, fates, n).len() + left(queue, fates, n).len() == n,
    decreases n,
{
    super::resolve::every_request_has_one_fate(queue, fates, n);
    if i < n - 1 {
        every_request_keeps_its_place(queue, fates, n - 1, i);
    }
}

/// Each request is resolved by what was found for it alone, at the owner's time,
/// and each expires on its own.
pub proof fn each_request_is_resolved_by_its_own<T>(
    queue: Seq<Pending<T>>,
    owner: Owner,
    events: Events,
    found: Seq<Found>,
    now: u64,
    i: int,
)
    requires
        0 <= i < queue.len(),
        queue.len() == found.len(),
    ensures
        resolutions(queue, owner, events, found, now).len() == queue.len(),
        resolutions(queue, owner, events, found, now)[i] == queue[i].resolved(
            owner,
            events,
            found[i],
            now,
        ),
        looked_at(queue, owner, events, found).len() == queue.len(),
        looked_at(queue, owner, events, found)[i] == queue[i].advanced(owner, events, found[i]),
        looked_at(queue, owner, events, found)[i].token == queue[i].token,
        expirations(queue, now).len() == queue.len(),
        expirations(queue, now)[i] == queue[i].expired(now),
{
}

/// A read of an ended term, or at a replica that may not answer it, is not asked
/// about, nor is one whose barrier was not answered; and no stream is served while
/// the owner stops.
pub proof fn what_may_not_be_answered_is_not_asked<T>(
    pending: Pending<T>,
    owner: Owner,
    events: Events,
)
    requires
        owner.serves(pending.route_epoch),
    ensures
        pending.waiting matches WaitingFor::Quorum(ticket) ==> (pending.term != owner.term
            || !ticket.purpose.answerable(owner) || events.prefix(ticket) is None ==> pending.asks(
            owner,
            events,
        ) == Question::Nothing),
        pending.waiting matches WaitingFor::NativeRead(read) ==> (pending.term != owner.term
            || !owner.authoritative || events.boundary(read) is None ==> pending.asks(owner, events)
            == Question::Nothing),
        pending.waiting matches WaitingFor::RequestStreamControl { reading } ==> (pending.term
            != owner.term || !owner.authoritative || owner.stopping || (reading matches Some(ticket)
            && events.prefix(ticket) is None) ==> pending.asks(owner, events)
            == Question::Nothing),
        pending.waiting matches WaitingFor::RequestStreamControl { reading } ==> (pending.term
            == owner.term && owner.authoritative && !owner.stopping && reading is None
            ==> pending.asks(owner, events) == Question::ControlReceipt),
        (pending.waiting is Stream || pending.waiting is ManagedStream) && owner.stopping
            ==> pending.asks(owner, events) == Question::Nothing,
{
}

/// No mutation waits without being asked about: whatever was delivered, there is
/// a question whose answer ends its wait.
pub proof fn no_mutation_goes_unasked<T>(pending: Pending<T>, owner: Owner, events: Events)
    requires
        pending.waiting == WaitingFor::Mutation || pending.waiting == WaitingFor::NativeMutation
            || pending.waiting == WaitingFor::ManagedMutation || pending.waiting
            == WaitingFor::PeerPersistence,
    ensures
        pending.asks(owner, events) != Question::Nothing,
        pending.asks(owner, events) != Question::Closed,
{
}

} // verus!
