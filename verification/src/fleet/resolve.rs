//! The requests an owner waits for: what each is asked about, and what
//! becomes of it.
use super::request::{Correlation, Owner, Purpose, Ticket};
use crate::access::AccessError;
use crate::hashing::same_bytes;
use crate::ids::LedgerId;
use std::collections::VecDeque;
use vstd::prelude::*;

verus! {

/// What a request waits for.
#[derive(Debug, Clone, Copy, PartialEq, Eq)]
pub enum WaitingFor {
    Mutation,
    NativeMutation,
    NativeRead(Correlation),
    ManagedMutation,
    ManagedStream,
    /// A stream's command; then, once it has its receipt, a quorum read.
    RequestStreamControl { reading: Option<Ticket> },
    /// A quorum read.
    Quorum(Ticket),
    PeerPersistence,
    Stream,
}

/// The prefix of a ledger a read must not be behind.
#[derive(Debug, Clone, Copy, PartialEq, Eq)]
pub struct ReadToken {
    pub ledger: LedgerId,
    pub sequence: u64,
    pub route_epoch: u64,
}

/// What the owner asks its session about a waiting request.
#[derive(Debug, Clone, Copy, PartialEq, Eq)]
pub enum Question {
    /// Nothing any more: clients are not served at its route.
    Closed,
    /// Nothing: what it waited for is durable.
    Persisted,
    /// What its managed key committed.
    ManagedReply,
    /// Its cursor under a managed key.
    ManagedStream,
    /// What it reads, no earlier than this.
    ReadAtLeast(ReadToken),
    /// What it reads, after the prefix its barrier was answered with.
    ReadAfter { prefix: u64 },
    /// Whether its stream's command has its receipt; then a quorum read is
    /// asked for.
    ControlReceipt,
    /// What the stream is told, behind that read.
    ControlReply,
    /// Its receipt.
    Receipt,
    /// What its key committed natively.
    NativeOutcome,
    /// What it reads natively, no earlier than the boundary of this number.
    NativeRead { boundary: usize },
    /// Its cursor.
    Stream,
    /// Nothing can be asked now.
    Nothing,
}

/// What a poll of the session delivered: the quorum reads that were answered,
/// each by its context and with its prefix, and the native ones.
#[derive(Debug, Clone, PartialEq, Eq)]
pub struct Events {
    pub read_barriers: Vec<(Vec<u8>, u64)>,
    pub native_read_boundaries: Vec<Correlation>,
}

/// The prefix of the first barrier under a context.
pub open spec fn prefix_of(barriers: Seq<(Vec<u8>, u64)>, context: Seq<u8>) -> Option<u64>
    decreases barriers.len(),
{
    if barriers.len() == 0 {
        None
    } else if barriers[0].0@ == context {
        Some(barriers[0].1)
    } else {
        prefix_of(barriers.drop_first(), context)
    }
}

/// The number of the first boundary of a read, counted from `from`.
pub open spec fn boundary_of(
    boundaries: Seq<Correlation>,
    read: Correlation,
    from: int,
) -> Option<usize>
    decreases boundaries.len() - from,
{
    if from < 0 || from >= boundaries.len() {
        None
    } else if boundaries[from] == read {
        Some(from as usize)
    } else {
        boundary_of(boundaries, read, from + 1)
    }
}

impl Events {
    /// The prefix a quorum read was answered with.
    pub open spec fn prefix(self, ticket: Ticket) -> Option<u64> {
        prefix_of(self.read_barriers@, ticket.asked_under())
    }

    /// The number of a native read's boundary.
    pub open spec fn boundary(self, read: Correlation) -> Option<usize> {
        boundary_of(self.native_read_boundaries@, read, 0)
    }

    /// The prefix a quorum read was answered with, if it was.
    pub fn answered(&self, ticket: &Ticket) -> (prefix: Option<u64>)
        ensures
            prefix == self.prefix(*ticket),
    {
        let context = ticket.context();
        self.answered_under(context.as_slice())
    }

    /// The prefix of the first barrier under a context.
    pub fn answered_under(&self, context: &[u8]) -> (prefix: Option<u64>)
        ensures
            prefix == prefix_of(self.read_barriers@, context@),
    {
        let ghost all = self.read_barriers@;
        let mut i: usize = 0;
        assert(all.skip(0) =~= all);
        while i < self.read_barriers.len()
            invariant
                i <= self.read_barriers.len(),
                all == self.read_barriers@,
                prefix_of(all, context@) == prefix_of(all.skip(i as int), context@),
            decreases self.read_barriers.len() - i,
        {
            let ghost rest = all.skip(i as int);
            assert(rest[0] == all[i as int]);
            assert(rest.drop_first() =~= all.skip(i + 1));
            if same_bytes(self.read_barriers[i].0.as_slice(), context) {
                return Some(self.read_barriers[i].1);
            }
            i += 1;
        }
        None
    }

    /// The number of a native read's boundary, if it has one.
    pub fn bounded(&self, read: &Correlation) -> (boundary: Option<usize>)
        ensures
            boundary == self.boundary(*read),
    {
        let mut i: usize = 0;
        while i < self.native_read_boundaries.len()
            invariant
                i <= self.native_read_boundaries.len(),
                self.boundary(*read) == boundary_of(self.native_read_boundaries@, *read, i as int),
            decreases self.native_read_boundaries.len() - i,
        {
            if self.native_read_boundaries[i].same(read) {
                return Some(i);
            }
            i += 1;
        }
        None
    }
}

/// What the session said of a waiting request it was asked about.
#[derive(Debug, Clone, Copy, PartialEq, Eq)]
pub enum Found {
    /// Nothing yet.
    Nothing,
    /// What the request is answered with.
    Reply,
    Refused(AccessError),
    /// Its command has its receipt, and this read was asked for.
    Reading(Ticket),
}

/// A request that waits. `interrupted` is what its cursor answers when it is
/// cut short, for one that has a cursor.
#[derive(Debug, PartialEq, Eq)]
pub struct Pending<T> {
    pub token: T,
    pub waiting: WaitingFor,
    pub principal: [u8; 16],
    pub request: [u8; 16],
    pub route_epoch: u64,
    pub term: u64,
    pub deadline: u64,
    pub closed: bool,
    pub interrupted: AccessError,
}

/// What becomes of a waiting request.
#[derive(Debug, Clone, Copy, PartialEq, Eq, Structural)]
pub enum Fate {
    /// It is answered with what was found.
    Answered,
    /// It is answered with an error.
    Ended(AccessError),
    /// Its caller left: nobody is answered.
    Dropped,
    /// It waits on.
    Kept,
}

impl WaitingFor {
    /// Whether a proposal of the request may commit though its route has
    /// closed.
    pub open spec fn outlives_its_route(self) -> bool {
        self is Mutation || self is NativeMutation || self is ManagedMutation
            || self is PeerPersistence
    }

    /// What a request is told whose wait ends without an answer.
    pub open spec fn unanswered(self, interrupted: AccessError) -> AccessError {
        match self {
            WaitingFor::Mutation
            | WaitingFor::ManagedMutation
            | WaitingFor::RequestStreamControl { .. } => AccessError::OutcomeUnknown,
            WaitingFor::Stream | WaitingFor::ManagedStream => interrupted,
            _ => AccessError::Unavailable,
        }
    }

    fn end(self, interrupted: AccessError) -> (error: AccessError)
        ensures
            error == self.unanswered(interrupted),
    {
        match self {
            WaitingFor::Mutation
            | WaitingFor::ManagedMutation
            | WaitingFor::RequestStreamControl { .. } => AccessError::OutcomeUnknown,
            WaitingFor::Stream | WaitingFor::ManagedStream => interrupted,
            _ => AccessError::Unavailable,
        }
    }

    /// What a request is told whose owner closes: only some of what merely
    /// read is said not to have happened.
    pub open spec fn closed(self) -> AccessError {
        match self {
            WaitingFor::Quorum(ticket) => match ticket.purpose {
                Purpose::Summary
                | Purpose::Monitor
                | Purpose::Reconcile
                | Purpose::RequestStream => AccessError::Unavailable,
                _ => AccessError::OutcomeUnknown,
            },
            WaitingFor::NativeRead(_) => AccessError::Unavailable,
            _ => AccessError::OutcomeUnknown,
        }
    }

    /// What a request is told whose owner closes.
    pub fn closing(self) -> (error: AccessError)
        ensures
            error == self.closed(),
    {
        match self {
            WaitingFor::Quorum(ticket) => match ticket.purpose {
                Purpose::Summary
                | Purpose::Monitor
                | Purpose::Reconcile
                | Purpose::RequestStream => AccessError::Unavailable,
                _ => AccessError::OutcomeUnknown,
            },
            WaitingFor::NativeRead(_) => AccessError::Unavailable,
            _ => AccessError::OutcomeUnknown,
        }
    }
}

impl Purpose {
    /// Whether a replica that stands so answers such a read: some only with
    /// all its authority, the others while it leads.
    pub open spec fn answerable(self, owner: Owner) -> bool {
        match self {
            Purpose::RequestStream
            | Purpose::Monitor
            | Purpose::Summary
            | Purpose::Reconcile
            | Purpose::Control => owner.authoritative,
            _ => owner.leader,
        }
    }

    fn is_answerable(self, owner: &Owner) -> (yes: bool)
        ensures
            yes == self.answerable(*owner),
    {
        match self {
            Purpose::RequestStream
            | Purpose::Monitor
            | Purpose::Summary
            | Purpose::Reconcile
            | Purpose::Control => owner.authoritative,
            _ => owner.leader,
        }
    }
}

/// What a native mutation that waits is told.
#[derive(Debug, Clone, Copy, PartialEq, Eq, Structural)]
pub enum NativeSettled {
    /// Its own outcome has committed.
    Committed,
    /// Its key has committed another native intent: it conflicts.
    Conflict,
    /// Nothing has committed yet.
    Waits,
    Failed(AccessError),
}

/// Decide what a native mutation is told: `found` is whether what its key
/// committed is its own outcome.
pub fn native_settled(found: Result<Option<bool>, AccessError>) -> (settled: NativeSettled)
    ensures
        settled == (match found {
            Ok(Some(true)) => NativeSettled::Committed,
            Ok(Some(false)) => NativeSettled::Conflict,
            Ok(None) => NativeSettled::Waits,
            Err(error) => NativeSettled::Failed(error),
        }),
{
    match found {
        Ok(Some(own)) => if own {
            NativeSettled::Committed
        } else {
            NativeSettled::Conflict
        },
        Ok(None) => NativeSettled::Waits,
        Err(error) => NativeSettled::Failed(error),
    }
}

impl<T> Pending<T> {
    /// What is asked about the request: at a closed route only about what may
    /// have committed, and about a read only in the term it was asked in and
    /// once its own barrier was answered.
    pub open spec fn asks(self, owner: Owner, events: Events) -> Question {
        let same = self.term == owner.term;
        if !owner.serves(self.route_epoch) && !self.waiting.outlives_its_route() {
            Question::Closed
        } else {
            match self.waiting {
                WaitingFor::PeerPersistence => Question::Persisted,
                WaitingFor::ManagedMutation => Question::ManagedReply,
                WaitingFor::Mutation => Question::Receipt,
                WaitingFor::NativeMutation => Question::NativeOutcome,
                WaitingFor::ManagedStream => if owner.stopping {
                    Question::Nothing
                } else {
                    Question::ManagedStream
                },
                WaitingFor::Stream => if owner.stopping {
                    Question::Nothing
                } else {
                    Question::Stream
                },
                WaitingFor::RequestStreamControl { reading } => if !same || !owner.authoritative
                    || owner.stopping {
                    Question::Nothing
                } else {
                    match reading {
                        None => Question::ControlReceipt,
                        Some(ticket) => if events.prefix(ticket) is Some {
                            Question::ControlReply
                        } else {
                            Question::Nothing
                        },
                    }
                },
                WaitingFor::NativeRead(read) => if !same || !owner.authoritative {
                    Question::Nothing
                } else {
                    match events.boundary(read) {
                        Some(boundary) => Question::NativeRead { boundary },
                        None => Question::Nothing,
                    }
                },
                WaitingFor::Quorum(ticket) => if !same || !ticket.purpose.answerable(owner) {
                    Question::Nothing
                } else {
                    match events.prefix(ticket) {
                        None => Question::Nothing,
                        Some(prefix) => if ticket.purpose is Read {
                            Question::ReadAtLeast(
                                ReadToken {
                                    ledger: owner.ledger,
                                    sequence: prefix,
                                    route_epoch: owner.route_epoch,
                                },
                            )
                        } else {
                            Question::ReadAfter { prefix }
                        },
                    }
                },
            }
        }
    }

    /// Decide what is asked about the request.
    pub fn question(&self, owner: &Owner, events: &Events) -> (question: Question)
        ensures
            question == self.asks(*owner, *events),
    {
        let same = self.term == owner.term;
        let outlives = match self.waiting {
            WaitingFor::Mutation
            | WaitingFor::NativeMutation
            | WaitingFor::ManagedMutation
            | WaitingFor::PeerPersistence => true,
            _ => false,
        };
        if !owner.serves_route(self.route_epoch) && !outlives {
            return Question::Closed;
        }
        match &self.waiting {
            WaitingFor::PeerPersistence => Question::Persisted,
            WaitingFor::ManagedMutation => Question::ManagedReply,
            WaitingFor::Mutation => Question::Receipt,
            WaitingFor::NativeMutation => Question::NativeOutcome,
            WaitingFor::ManagedStream => if owner.stopping {
                Question::Nothing
            } else {
                Question::ManagedStream
            },
            WaitingFor::Stream => if owner.stopping {
                Question::Nothing
            } else {
                Question::Stream
            },
            WaitingFor::RequestStreamControl { reading } => {
                if !same || !owner.authoritative || owner.stopping {
                    return Question::Nothing;
                }
                match reading {
                    None => Question::ControlReceipt,
                    Some(ticket) => match events.answered(ticket) {
                        Some(_) => Question::ControlReply,
                        None => Question::Nothing,
                    },
                }
            },
            WaitingFor::NativeRead(read) => {
                if !same || !owner.authoritative {
                    return Question::Nothing;
                }
                match events.bounded(read) {
                    Some(boundary) => Question::NativeRead { boundary },
                    None => Question::Nothing,
                }
            },
            WaitingFor::Quorum(ticket) => {
                if !same || !ticket.purpose.is_answerable(owner) {
                    return Question::Nothing;
                }
                match events.answered(ticket) {
                    None => Question::Nothing,
                    Some(prefix) => match ticket.purpose {
                        Purpose::Read => Question::ReadAtLeast(
                            ReadToken {
                                ledger: owner.ledger,
                                sequence: prefix,
                                route_epoch: owner.route_epoch,
                            },
                        ),
                        _ => Question::ReadAfter { prefix },
                    },
                }
            },
        }
    }

    /// What becomes of the request when nothing answers it: past its deadline
    /// or its term it waits no longer.
    pub open spec fn late(self, owner: Owner, now: u64) -> Fate {
        if now >= self.deadline || owner.term != self.term {
            Fate::Ended(self.waiting.unanswered(self.interrupted))
        } else {
            Fate::Kept
        }
    }

    /// What becomes of the request when the owner has looked at it. What was
    /// found counts only where something was asked.
    pub open spec fn resolved(self, owner: Owner, events: Events, found: Found, now: u64) -> Fate {
        match self.asks(owner, events) {
            Question::Closed => Fate::Ended(AccessError::Unavailable),
            Question::Persisted => Fate::Answered,
            Question::Nothing => self.late(owner, now),
            Question::ControlReceipt => match found {
                Found::Refused(error) => Fate::Ended(error),
                _ => self.late(owner, now),
            },
            _ => match found {
                Found::Reply => Fate::Answered,
                Found::Refused(error) => Fate::Ended(error),
                _ => self.late(owner, now),
            },
        }
    }

    /// The request as it waits on: a stream's command with its receipt waits
    /// for its read.
    pub open spec fn advanced(self, owner: Owner, events: Events, found: Found) -> Self {
        match (self.asks(owner, events), found) {
            (Question::ControlReceipt, Found::Reading(ticket)) => Pending {
                waiting: WaitingFor::RequestStreamControl { reading: Some(ticket) },
                ..self
            },
            _ => self,
        }
    }

    /// Decide what becomes of the request when the owner has looked at it.
    pub fn resolve(&mut self, owner: &Owner, events: &Events, found: Found, now: u64) -> (fate:
        Fate)
        ensures
            fate == old(self).resolved(*owner, *events, found, now),
            *final(self) == old(self).advanced(*owner, *events, found),
    {
        let question = self.question(owner, events);
        let late = if now >= self.deadline || owner.term != self.term {
            Fate::Ended(self.waiting.end(self.interrupted))
        } else {
            Fate::Kept
        };
        match (question, found) {
            (Question::Closed, _) => Fate::Ended(AccessError::Unavailable),
            (Question::Persisted, _) => Fate::Answered,
            (Question::Nothing, _) => late,
            (_, Found::Refused(error)) => Fate::Ended(error),
            (Question::ControlReceipt, Found::Reading(ticket)) => {
                self.waiting = WaitingFor::RequestStreamControl { reading: Some(ticket) };
                late
            },
            (Question::ControlReceipt, _) => late,
            (_, Found::Reply) => Fate::Answered,
            _ => late,
        }
    }

    /// What becomes of the request as time passes: one whose caller left is
    /// dropped, one past its deadline is answered so.
    pub open spec fn expired(self, now: u64) -> Fate {
        if self.closed {
            Fate::Dropped
        } else if now >= self.deadline {
            Fate::Ended(self.waiting.unanswered(self.interrupted))
        } else {
            Fate::Kept
        }
    }

    /// Decide what becomes of the request as time passes.
    pub fn expire(&self, now: u64) -> (fate: Fate)
        ensures
            fate == self.expired(now),
    {
        if self.closed {
            Fate::Dropped
        } else if now >= self.deadline {
            Fate::Ended(self.waiting.end(self.interrupted))
        } else {
            Fate::Kept
        }
    }
}

/// The first `n` requests that wait on, in their order.
pub open spec fn kept<T>(queue: Seq<Pending<T>>, fates: Seq<Fate>, n: int) -> Seq<Pending<T>>
    decreases n,
{
    if n <= 0 {
        Seq::empty()
    } else if fates[n - 1] == Fate::Kept {
        kept(queue, fates, n - 1).push(queue[n - 1])
    } else {
        kept(queue, fates, n - 1)
    }
}

/// Those of the first `n` requests that do not, in their order, each with
/// its fate.
pub open spec fn left<T>(queue: Seq<Pending<T>>, fates: Seq<Fate>, n: int) -> Seq<
    (Pending<T>, Fate),
>
    decreases n,
{
    if n <= 0 {
        Seq::empty()
    } else if fates[n - 1] == Fate::Kept {
        left(queue, fates, n - 1)
    } else {
        left(queue, fates, n - 1).push((queue[n - 1], fates[n - 1]))
    }
}

/// Take from the queue every request whose wait is over. The queue is rotated
/// in place: nothing is allocated while a stalled disk retains what it has.
pub fn rotate<T>(queue: &mut VecDeque<Pending<T>>, fates: &Vec<Fate>) -> (done: Vec<
    (Pending<T>, Fate),
>)
    requires
        old(queue)@.len() == fates@.len(),
    ensures
        final(queue)@ == kept(old(queue)@, fates@, fates@.len() as int),
        done@ == left(old(queue)@, fates@, fates@.len() as int),
{
    let ghost before = queue@;
    let mut done: Vec<(Pending<T>, Fate)> = Vec::new();
    let count: usize = fates.len();
    let mut i: usize = 0;
    assert(before.skip(0) + kept(before, fates@, 0) =~= before);
    while i < count
        invariant
            i <= count == fates@.len() == before.len(),
            queue@ == before.skip(i as int) + kept(before, fates@, i as int),
            done@ == left(before, fates@, i as int),
        decreases count - i,
    {
        let fate = fates[i];
        assert(queue@[0] == before[i as int]);
        let next = queue.pop_front();
        match next {
            Some(pending) => {
                assert(pending == before[i as int]);
                assert(queue@ =~= before.skip(i + 1) + kept(before, fates@, i as int));
                match fate {
                    Fate::Kept => {
                        queue.push_back(pending);
                        assert(queue@ =~= before.skip(i + 1) + kept(before, fates@, i + 1));
                    },
                    _ => {
                        done.push((pending, fate));
                    },
                }
            },
            None => {
                assert(false);
            },
        }
        i += 1;
    }
    assert(queue@ =~= kept(before, fates@, count as int));
    done
}

/// What becomes of each request when the owner has looked at all.
pub open spec fn resolutions<T>(
    queue: Seq<Pending<T>>,
    owner: Owner,
    events: Events,
    found: Seq<Found>,
    now: u64,
) -> Seq<Fate> {
    Seq::new(queue.len(), |i: int| queue[i].resolved(owner, events, found[i], now))
}

/// The requests as they wait on.
pub open spec fn looked_at<T>(
    queue: Seq<Pending<T>>,
    owner: Owner,
    events: Events,
    found: Seq<Found>,
) -> Seq<Pending<T>> {
    Seq::new(queue.len(), |i: int| queue[i].advanced(owner, events, found[i]))
}

/// What becomes of the `i`th request as time passes.
pub open spec fn expirations<T>(queue: Seq<Pending<T>>, now: u64) -> Seq<Fate> {
    Seq::new(queue.len(), |i: int| queue[i].expired(now))
}

/// What is asked about every waiting request, in their order.
pub fn questions<T>(queue: &VecDeque<Pending<T>>, owner: &Owner, events: &Events) -> (asked: Vec<
    Question,
>)
    ensures
        asked@ == Seq::new(queue@.len(), |i: int| queue@[i].asks(*owner, *events)),
{
    let mut asked: Vec<Question> = Vec::new();
    let mut i: usize = 0;
    while i < queue.len()
        invariant
            i <= queue@.len(),
            asked@.len() == i,
            forall|j: int| 0 <= j < i ==> #[trigger] asked@[j] == queue@[j].asks(*owner, *events),
        decreases queue@.len() - i,
    {
        asked.push(queue[i].question(owner, events));
        i += 1;
    }
    assert(asked@ =~= Seq::new(queue@.len(), |i: int| queue@[i].asks(*owner, *events)));
    asked
}

/// Look at every waiting request once: `found` is for each what the session
/// said when it was asked. The queue is rotated in place.
pub fn resolve<T>(
    queue: &mut VecDeque<Pending<T>>,
    owner: &Owner,
    events: &Events,
    found: &Vec<Found>,
    now: u64,
) -> (done: Vec<(Pending<T>, Fate)>)
    requires
        old(queue)@.len() == found@.len(),
    ensures
        final(queue)@ == kept(
            looked_at(old(queue)@, *owner, *events, found@),
            resolutions(old(queue)@, *owner, *events, found@, now),
            old(queue)@.len() as int,
        ),
        done@ == left(
            looked_at(old(queue)@, *owner, *events, found@),
            resolutions(old(queue)@, *owner, *events, found@, now),
            old(queue)@.len() as int,
        ),
{
    let ghost before = queue@;
    let ghost looked = looked_at(before, *owner, *events, found@);
    let ghost fates = resolutions(before, *owner, *events, found@, now);
    let mut done: Vec<(Pending<T>, Fate)> = Vec::new();
    let count: usize = found.len();
    let mut i: usize = 0;
    assert(before.skip(0) + kept(looked, fates, 0) =~= before);
    while i < count
        invariant
            i <= count == found@.len() == before.len(),
            looked == looked_at(before, *owner, *events, found@),
            fates == resolutions(before, *owner, *events, found@, now),
            queue@ == before.skip(i as int) + kept(looked, fates, i as int),
            done@ == left(looked, fates, i as int),
        decreases count - i,
    {
        assert(queue@[0] == before[i as int]);
        let next = queue.pop_front();
        match next {
            Some(mut pending) => {
                assert(pending == before[i as int]);
                assert(queue@ =~= before.skip(i + 1) + kept(looked, fates, i as int));
                let fate = pending.resolve(owner, events, found[i], now);
                assert(pending == looked[i as int]);
                assert(fate == fates[i as int]);
                match fate {
                    Fate::Kept => {
                        queue.push_back(pending);
                        assert(queue@ =~= before.skip(i + 1) + kept(looked, fates, i + 1));
                    },
                    _ => {
                        done.push((pending, fate));
                    },
                }
            },
            None => {
                assert(false);
            },
        }
        i += 1;
    }
    assert(queue@ =~= kept(looked, fates, count as int));
    done
}

/// Answer every request whose owner closes: none waits on.
pub fn close<T>(queue: &mut VecDeque<Pending<T>>) -> (done: Vec<(T, AccessError)>)
    ensures
        final(queue)@.len() == 0,
        done@ == Seq::new(
            old(queue)@.len(),
            |i: int| (old(queue)@[i].token, old(queue)@[i].waiting.closed()),
        ),
{
    let ghost before = queue@;
    let mut done: Vec<(T, AccessError)> = Vec::new();
    assert(before.skip(0) =~= before);
    while queue.len() > 0
        invariant
            queue@ == before.skip(done@.len() as int),
            done@.len() <= before.len(),
            forall|i: int|
                0 <= i < done@.len() ==> #[trigger] done@[i] == (
                before[i].token, before[i].waiting.closed()),
        decreases queue@.len(),
    {
        let ghost n = done@.len() as int;
        assert(queue@[0] == before[n]);
        let next = queue.pop_front();
        assert(queue@ =~= before.skip(n + 1));
        if let Some(pending) = next {
            let error = pending.waiting.closing();
            done.push((pending.token, error));
        }
    }
    assert(done@ =~= Seq::new(
        before.len(),
        |i: int| (before[i].token, before[i].waiting.closed()),
    ));
    done
}

/// Let time pass for every waiting request.
pub fn expire_pending<T>(queue: &mut VecDeque<Pending<T>>, now: u64) -> (done: Vec<
    (Pending<T>, Fate),
>)
    ensures
        final(queue)@ == kept(
            old(queue)@,
            expirations(old(queue)@, now),
            old(queue)@.len() as int,
        ),
        done@ == left(old(queue)@, expirations(old(queue)@, now), old(queue)@.len() as int),
{
    let mut fates: Vec<Fate> = Vec::new();
    let mut i: usize = 0;
    while i < queue.len()
        invariant
            i <= queue@.len(),
            fates@.len() == i,
            forall|j: int| 0 <= j < i ==> fates@[j] == #[trigger] expirations(queue@, now)[j],
        decreases queue@.len() - i,
    {
        fates.push(queue[i].expire(now));
        i += 1;
    }
    assert(fates@ =~= expirations(queue@, now));
    rotate(queue, &fates)
}

/// No request is lost and none is answered twice: each either waits on or is
/// done with.
pub proof fn every_request_has_one_fate<T>(queue: Seq<Pending<T>>, fates: Seq<Fate>, n: int)
    requires
        0 <= n <= queue.len(),
        queue.len() == fates.len(),
    ensures
        kept(queue, fates, n).len() + left(queue, fates, n).len() == n,
    decreases n,
{
    if n > 0 {
        every_request_has_one_fate(queue, fates, n - 1);
    }
}

/// A mutation that may have committed is never told that it did not: while
/// its route is closed or its deadline passes, it is answered or unknown.
pub proof fn a_mutation_is_never_denied<T>(
    pending: Pending<T>,
    owner: Owner,
    events: Events,
    found: Found,
    now: u64,
    error: AccessError,
)
    requires
        pending.waiting is Mutation || pending.waiting is ManagedMutation,
        pending.resolved(owner, events, found, now) == Fate::Ended(error),
        !(found is Refused),
    ensures
        error == AccessError::OutcomeUnknown,
        found != Found::Reply,
{
}

/// A read is answered only in the term it was asked in, by a replica that
/// still leads or has its authority, and behind the barrier it was asked
/// under.
pub proof fn a_read_is_of_its_own_barrier<T>(
    pending: Pending<T>,
    ticket: Ticket,
    owner: Owner,
    events: Events,
    found: Found,
    now: u64,
)
    requires
        pending.waiting == WaitingFor::Quorum(ticket),
        pending.resolved(owner, events, found, now) == Fate::Answered,
    ensures
        pending.term == owner.term,
        ticket.purpose.answerable(owner),
        owner.serves(pending.route_epoch),
        exists|i: int|
            0 <= i < events.read_barriers@.len() && #[trigger] events.read_barriers@[i].0@
                == ticket.asked_under(),
{
    lemma_found(events.read_barriers@, ticket.asked_under());
}

/// A barrier that has a prefix is among those answered.
proof fn lemma_found(barriers: Seq<(Vec<u8>, u64)>, context: Seq<u8>)
    requires
        prefix_of(barriers, context) is Some,
    ensures
        exists|i: int|
            0 <= i < barriers.len() && #[trigger] barriers[i].0@ == context,
    decreases barriers.len(),
{
    if barriers[0].0@ != context {
        let rest = barriers.drop_first();
        lemma_found(rest, context);
        let i = choose|i: int| 0 <= i < rest.len() && #[trigger] rest[i].0@ == context;
        assert(barriers[i + 1].0@ == context);
    }
}

/// A read of an earlier term is answered nothing: its barrier may be of an
/// authority that is gone.
pub proof fn a_read_is_of_its_term<T>(
    pending: Pending<T>,
    owner: Owner,
    events: Events,
    found: Found,
    now: u64,
)
    requires
        pending.term != owner.term,
        pending.waiting is Quorum || pending.waiting is NativeRead,
    ensures
        pending.resolved(owner, events, found, now) == Fate::Ended(AccessError::Unavailable),
{
}

/// A stream's command is answered only behind a read that was asked for once
/// its receipt was there: its own answer is never taken for that read's.
pub proof fn a_command_is_answered_behind_its_read<T>(
    pending: Pending<T>,
    owner: Owner,
    events: Events,
    found: Found,
    now: u64,
)
    requires
        pending.waiting is RequestStreamControl,
        pending.resolved(owner, events, found, now) == Fate::Answered,
    ensures
        pending.waiting->reading matches Some(ticket) && events.prefix(ticket) is Some,
        pending.term == owner.term,
        owner.authoritative,
{
}

} // verus!
