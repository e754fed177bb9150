//! The promises a session's members make before managed work is proposed:
//! who is asked for one, what waits for them, and for how long.
use super::request::{is_named, named, Owner};
use super::{LedgerError, ManagedError};
use crate::directory::ConsensusError;
use crate::hashing::same_16;
use crate::operation::{Operation, PeerRole, VerifiedRequest};
use std::collections::BTreeSet;
use vstd::arithmetic::power2::{lemma2_to64, lemma_pow2_unfold, pow2};
use vstd::prelude::*;

verus! {

broadcast use vstd::std_specs::btree::group_btree_axioms;

/// Members asked for a promise at a time.
pub const MAX_TARGETS: usize = 4;

/// Members a fact may name.
pub const MAX_MEMBERS: usize = 4096;

/// What a replica supports, and the members it knows.
#[derive(Debug, Clone, PartialEq, Eq)]
pub struct ManagedFormatSupport {
    pub node: u64,
    pub voters: Vec<u64>,
    pub voters_outgoing: Vec<u64>,
    pub learners: Vec<u64>,
    pub learners_next: Vec<u64>,
}

impl ManagedFormatSupport {
    /// The members a fact names, with those named twice counted twice.
    pub open spec fn members(self) -> nat {
        self.voters@.len() + self.voters_outgoing@.len() + self.learners@.len()
            + self.learners_next@.len()
    }

    /// The voters, in either configuration.
    pub open spec fn voter(self, node: u64) -> bool {
        named(self.voters@, node) || named(self.voters_outgoing@, node)
    }

    /// Check a fact a peer sent: it is of the peer that sent it, and bounded.
    pub fn recorded(&self, peer: u64) -> (done: Result<(), LedgerError>)
        ensures
            done == (if self.node != peer || peer == 0 || self.members() > MAX_MEMBERS {
                Err::<(), LedgerError>(LedgerError::Capacity)
            } else {
                Ok::<(), LedgerError>(())
            }),
    {
        if self.node != peer || peer == 0 {
            return Err(LedgerError::Capacity);
        }
        let total: usize = match self.voters.len().checked_add(self.voters_outgoing.len()) {
            Some(total) => total,
            None => return Err(LedgerError::Capacity),
        };
        let total: usize = match total.checked_add(self.learners.len()) {
            Some(total) => total,
            None => return Err(LedgerError::Capacity),
        };
        let total: usize = match total.checked_add(self.learners_next.len()) {
            Some(total) => total,
            None => return Err(LedgerError::Capacity),
        };
        if total > MAX_MEMBERS {
            return Err(LedgerError::Capacity);
        }
        Ok(())
    }
}

/// What a replica answers about its support.
#[derive(Debug, Clone, PartialEq, Eq)]
pub struct ManagedSupportReply {
    fact: ManagedFormatSupport,
    route: u64,
    targets: Vec<u64>,
}

/// Whether a number is the least of a set.
pub open spec fn is_least(set: Set<u64>, n: u64) -> bool {
    set.contains(n) && forall|m: u64| #[trigger] set.contains(m) ==> n <= m
}

/// The least number of a set.
pub open spec fn least(set: Set<u64>) -> u64 {
    choose|n: u64| is_least(set, n)
}

/// The voters a promise is still needed of: none once the protocol is active.
pub open spec fn pool(fact: ManagedFormatSupport, needing: Set<u64>, active: bool) -> Set<u64> {
    Set::new(|n: u64| !active && fact.voter(n) && needing.contains(n))
}

/// Those of a pool that are not asked yet.
pub open spec fn remaining(pool: Set<u64>, asked: Seq<u64>) -> Set<u64> {
    Set::new(|n: u64| pool.contains(n) && !asked.contains(n))
}

/// Those of a set after the cursor.
pub open spec fn beyond(set: Set<u64>, cursor: u64) -> Set<u64> {
    Set::new(|n: u64| set.contains(n) && n > cursor)
}

/// Who is asked next: the next after the cursor, else from the start.
pub open spec fn next_target(pool: Set<u64>, asked: Seq<u64>, cursor: u64) -> Option<u64> {
    let rest = remaining(pool, asked);
    if exists|n: u64| beyond(rest, cursor).contains(n) {
        Some(least(beyond(rest, cursor)))
    } else if exists|n: u64| rest.contains(n) {
        Some(least(rest))
    } else {
        None
    }
}

/// Who is asked, after those asked already, and where the cursor is left.
pub open spec fn asked_from(pool: Set<u64>, asked: Seq<u64>, cursor: u64) -> (Seq<u64>, u64)
    decreases MAX_TARGETS - asked.len(),
{
    if asked.len() >= MAX_TARGETS {
        (asked, cursor)
    } else {
        match next_target(pool, asked, cursor) {
            None => (asked, cursor),
            Some(node) => asked_from(pool, asked.push(node), node),
        }
    }
}

/// A node that is about to join comes first, where its promise is needed.
pub open spec fn first_asked(candidate: Option<u64>, needing: Set<u64>) -> Seq<u64> {
    match candidate {
        Some(node) => if needing.contains(node) {
            seq![node]
        } else {
            Seq::empty()
        },
        None => Seq::empty(),
    }
}

fn contains(list: &Vec<u64>, node: u64) -> (yes: bool)
    ensures
        yes == list@.contains(node),
{
    let yes = is_named(list, node);
    assert(yes == list@.contains(node));
    yes
}

/// The best of a list: the least after the cursor and the least of all, of
/// those still to be asked, continuing from what was found before.
fn scan(
    list: &Vec<u64>,
    needing: &BTreeSet<u64>,
    asked: &Vec<u64>,
    cursor: u64,
    found: (Option<u64>, Option<u64>),
    Ghost(seen): Ghost<Set<u64>>,
) -> (best: (Option<u64>, Option<u64>))
    requires
        scanned(found, seen, cursor),
    ensures
        scanned(
            best,
            Set::new(
                |n: u64|
                    seen.contains(n) || (named(list@, n) && needing@.contains(n)
                        && !asked@.contains(n)),
            ),
            cursor,
        ),
{
    let mut best = found;
    let mut i: usize = 0;
    let ghost grown = |k: int|
        Set::new(
            |n: u64|
                seen.contains(n) || (named(list@.take(k), n) && needing@.contains(n)
                    && !asked@.contains(n)),
        );
    assert(grown(0) =~= seen);
    while i < list.len()
        invariant
            i <= list.len(),
            grown == |k: int|
                Set::new(
                    |n: u64|
                        seen.contains(n) || (named(list@.take(k), n) && needing@.contains(n)
                            && !asked@.contains(n)),
                ),
            scanned(best, grown(i as int), cursor),
        decreases list.len() - i,
    {
        let node: u64 = list[i];
        let ghost before = grown(i as int);
        let ghost after = grown(i + 1);
        let fits = needing.contains(&node) && !contains(asked, node);
        proof {
            let now = list@.take(i as int);
            let next = list@.take(i + 1);
            assert(next =~= now.push(node));
            assert forall|n: u64| after.contains(n) <==> before.contains(n) || (n == node
                && fits) by {
                if named(now, n) {
                    let k = choose|k: int| 0 <= k < now.len() && #[trigger] now[k] == n;
                    assert(next[k] == n);
                }
                if named(next, n) {
                    let k = choose|k: int| 0 <= k < next.len() && #[trigger] next[k] == n;
                    if k < i {
                        assert(now[k] == n);
                    }
                }
                assert(next[i as int] == node);
            }
        }
        let ghost old_best = best;
        if fits {
            best = (
                match best.0 {
                    Some(least) => if node > cursor && node < least {
                        Some(node)
                    } else {
                        Some(least)
                    },
                    None => if node > cursor {
                        Some(node)
                    } else {
                        None
                    },
                },
                match best.1 {
                    Some(least) => if node < least {
                        Some(node)
                    } else {
                        Some(least)
                    },
                    None => Some(node),
                },
            );
            proof {
                assert(after =~= before.insert(node));
                assert forall|m: u64| #[trigger] beyond(after, cursor).contains(m) implies (
                best.0 matches Some(n) && n <= m) by {
                    if m != node {
                        assert(beyond(before, cursor).contains(m));
                    }
                }
                if let Some(n) = old_best.0 {
                    assert(beyond(before, cursor).contains(n));
                    assert(beyond(after, cursor).contains(n));
                }
                if node > cursor {
                    assert(beyond(after, cursor).contains(node));
                }
                assert forall|m: u64| #[trigger] after.contains(m) implies (best.1 matches Some(n)
                    && n <= m) by {
                    if m != node {
                        assert(before.contains(m));
                    }
                }
            }
        } else {
            assert(after =~= before);
        }
        assert(scanned(best, after, cursor));
        i += 1;
    }
    assert(list@.take(list@.len() as int) =~= list@);
    best
}

/// Whether a pair is the least after the cursor and the least of all, of
/// what was seen.
pub open spec fn scanned(best: (Option<u64>, Option<u64>), seen: Set<u64>, cursor: u64) -> bool {
    &&& match best.0 {
        Some(n) => is_least(beyond(seen, cursor), n),
        None => forall|n: u64| !beyond(seen, cursor).contains(n),
    }
    &&& match best.1 {
        Some(n) => is_least(seen, n),
        None => forall|n: u64| !seen.contains(n),
    }
}

proof fn lemma_least(set: Set<u64>, n: u64)
    requires
        is_least(set, n),
    ensures
        least(set) == n,
{
    let m = least(set);
    assert(is_least(set, m));
}

/// Decide who is asked for a promise: a node about to join first, then voters
/// in turn, at most four. The cursor is left at the last voter asked.
pub fn targets(
    fact: &ManagedFormatSupport,
    needing: &BTreeSet<u64>,
    active: bool,
    candidate: Option<u64>,
    cursor: &mut u64,
) -> (targets: Vec<u64>)
    ensures
        (targets@, *final(cursor)) == asked_from(
            pool(*fact, needing@, active),
            first_asked(candidate, needing@),
            *old(cursor),
        ),
{
    let mut asked: Vec<u64> = Vec::new();
    if let Some(node) = candidate {
        if needing.contains(&node) {
            asked.push(node);
        }
    }
    let ghost pool = pool(*fact, needing@, active);
    assert(asked@ =~= first_asked(candidate, needing@));
    if active {
        proof {
            lemma_nobody(pool, asked@, *cursor);
        }
        return asked;
    }
    let ghost first = asked@;
    let ghost start = *cursor;
    let mut done = false;
    while !done && asked.len() < MAX_TARGETS
        invariant
            !active,
            pool == self::pool(*fact, needing@, active),
            asked@.len() <= MAX_TARGETS,
            asked_from(pool, first, start) == asked_from(pool, asked@, *cursor),
            done ==> next_target(pool, asked@, *cursor) is None,
        decreases MAX_TARGETS - asked@.len(), (if done {
            0int
        } else {
            1int
        }),
    {
        let ghost rest = remaining(pool, asked@);
        let ghost none = Set::<u64>::empty();
        let voters = scan(&fact.voters, needing, &asked, *cursor, (None, None), Ghost(none));
        let ghost some = Set::new(
            |n: u64|
                none.contains(n) || (named(fact.voters@, n) && needing@.contains(n)
                    && !asked@.contains(n)),
        );
        let best = scan(
            &fact.voters_outgoing,
            needing,
            &asked,
            *cursor,
            voters,
            Ghost(some),
        );
        proof {
            assert(Set::new(
                |n: u64|
                    some.contains(n) || (named(fact.voters_outgoing@, n) && needing@.contains(n)
                        && !asked@.contains(n)),
            ) =~= rest);
        }
        let next: Option<u64> = match best.0 {
            Some(node) => Some(node),
            None => best.1,
        };
        proof {
            if let Some(n) = best.0 {
                lemma_least(beyond(rest, *cursor), n);
                assert(beyond(rest, *cursor).contains(n));
            } else if let Some(n) = best.1 {
                lemma_least(rest, n);
                assert(rest.contains(n));
            }
        }
        match next {
            Some(node) => {
                asked.push(node);
                *cursor = node;
            },
            None => {
                done = true;
            },
        }
    }
    asked
}

proof fn lemma_nobody(pool: Set<u64>, asked: Seq<u64>, cursor: u64)
    requires
        forall|n: u64| !pool.contains(n),
    ensures
        asked_from(pool, asked, cursor) == (asked, cursor),
{
    assert(next_target(pool, asked, cursor) is None);
}

/// Nobody is left out: where fewer than four are asked, everybody whose
/// promise is needed is.
pub proof fn nobody_is_left_out(pool: Set<u64>, asked: Seq<u64>, cursor: u64, n: u64)
    requires
        asked.len() <= MAX_TARGETS,
        asked_from(pool, asked, cursor).0.len() < MAX_TARGETS,
        pool.contains(n),
    ensures
        asked_from(pool, asked, cursor).0.contains(n),
    decreases MAX_TARGETS - asked.len(),
{
    if asked.len() < MAX_TARGETS {
        match next_target(pool, asked, cursor) {
            None => {
                assert(!remaining(pool, asked).contains(n));
            },
            Some(node) => {
                nobody_is_left_out(pool, asked.push(node), node, n);
            },
        }
    }
}

/// No more than four are asked at a time.
pub proof fn a_bounded_number_is_asked(pool: Set<u64>, asked: Seq<u64>, cursor: u64)
    requires
        asked.len() <= MAX_TARGETS,
    ensures
        asked_from(pool, asked, cursor).0.len() <= MAX_TARGETS,
    decreases MAX_TARGETS - asked.len(),
{
    if asked.len() < MAX_TARGETS {
        if let Some(node) = next_target(pool, asked, cursor) {
            a_bounded_number_is_asked(pool, asked.push(node), node);
        }
    }
}

impl ManagedSupportReply {
    /// What a reply says: the fact, the route, and who is asked.
    pub closed spec fn said(self) -> (ManagedFormatSupport, u64, Seq<u64>) {
        (self.fact, self.route, self.targets@)
    }

    /// Answer a call, where managed support is demanded at all.
    pub fn new(
        demanded: bool,
        fact: Result<ManagedFormatSupport, LedgerError>,
        route: u64,
        needing: &BTreeSet<u64>,
        active: bool,
        candidate: Option<u64>,
        cursor: &mut u64,
    ) -> (reply: Result<Self, LedgerError>)
        ensures
            if !demanded {
                reply == Err::<Self, LedgerError>(LedgerError::Managed(ManagedError::Unsupported))
                    && *final(cursor) == *old(cursor)
            } else {
                match fact {
                    Err(error) => reply == Err::<Self, LedgerError>(error) && *final(cursor)
                        == *old(cursor),
                    Ok(fact) => {
                        let asked = asked_from(
                            pool(fact, needing@, active),
                            first_asked(candidate, needing@),
                            *old(cursor),
                        );
                        (reply matches Ok(reply) && reply.said() == (fact, route, asked.0))
                            && *final(cursor) == asked.1
                    },
                }
            },
    {
        if !demanded {
            return Err(LedgerError::Managed(ManagedError::Unsupported));
        }
        let fact = match fact {
            Ok(fact) => fact,
            Err(error) => return Err(error),
        };
        let targets = targets(&fact, needing, active, candidate, cursor);
        Ok(ManagedSupportReply { fact, route, targets })
    }

    /// What the replica supports.
    pub fn fact(&self) -> (fact: &ManagedFormatSupport)
        ensures
            *fact == self.said().0,
    {
        &self.fact
    }

    /// The route the replica is at.
    pub fn route_epoch(&self) -> (route: u64)
        ensures
            route == self.said().1,
    {
        self.route
    }

    /// Who is asked for a promise.
    pub fn targets(&self) -> (targets: &Vec<u64>)
        ensures
            targets@ == self.said().2,
    {
        &self.targets
    }
}

/// What managed work is known by before it is proposed: whether its identity
/// can be read, and what is known of its receipt.
#[derive(Debug, Clone, Copy, PartialEq, Eq)]
pub struct Known {
    pub identified: bool,
    pub receipt: Result<bool, LedgerError>,
}

/// What the floor needs next.
#[derive(Debug, Clone, Copy, PartialEq, Eq)]
pub enum GateStep {
    /// The work goes on as it is.
    Open,
    /// The work is refused.
    Refuse(LedgerError),
    /// This node's own promise is made first; `all` says that every voter's
    /// is needed too.
    Promise { all: bool },
}

/// Whether a managed key's own refusal answers its work.
pub open spec fn answers(error: LedgerError) -> bool {
    match error {
        LedgerError::Managed(ManagedError::InvalidIdentity)
        | LedgerError::Managed(ManagedError::NotRegistered)
        | LedgerError::Managed(ManagedError::Conflict)
        | LedgerError::Managed(ManagedError::Closed)
        | LedgerError::Managed(ManagedError::Retired) => true,
        _ => false,
    }
}

fn is_answer(error: &LedgerError) -> (yes: bool)
    ensures
        yes == answers(*error),
{
    match error {
        LedgerError::Managed(ManagedError::InvalidIdentity)
        | LedgerError::Managed(ManagedError::NotRegistered)
        | LedgerError::Managed(ManagedError::Conflict)
        | LedgerError::Managed(ManagedError::Closed)
        | LedgerError::Managed(ManagedError::Retired) => true,
        _ => false,
    }
}

impl Owner {
    /// Whether managed work of a cluster is this owner's to propose: the
    /// owner answers any other itself.
    pub open spec fn proposes(self, verified: VerifiedRequest, cluster: [u8; 16]) -> bool {
        cluster == self.cluster && verified.request.ledger == self.ledger && self.serves(
            verified.request.route_epoch,
        ) && self.authoritative
    }

    /// What the floor on a request needs.
    pub open spec fn gate(self, verified: VerifiedRequest, known: Known) -> GateStep {
        match verified.request.operation {
            Operation::Managed { key, .. } => if !known.identified {
                GateStep::Open
            } else {
                match known.receipt {
                    Ok(true) => GateStep::Open,
                    Err(error) => if answers(error) {
                        GateStep::Open
                    } else {
                        GateStep::Refuse(error)
                    },
                    Ok(false) => if self.proposes(verified, key.stream.cluster) {
                        GateStep::Promise { all: true }
                    } else {
                        GateStep::Open
                    },
                }
            },
            Operation::RequestStreamControl { cluster, .. } => match known.receipt {
                Ok(true) => GateStep::Open,
                Err(error) => if error == LedgerError::Managed(ManagedError::Conflict) {
                    GateStep::Open
                } else {
                    GateStep::Refuse(error)
                },
                Ok(false) => if self.proposes(verified, cluster) {
                    GateStep::Promise { all: true }
                } else {
                    GateStep::Open
                },
            },
            Operation::ManagedSupport { group } => match verified.peer.role {
                PeerRole::Node { node_id } => if verified.request.ledger == self.ledger && group
                    == self.group && verified.request.route_epoch == self.route_epoch
                    && self.member(node_id) {
                    GateStep::Promise { all: false }
                } else {
                    GateStep::Open
                },
                _ => GateStep::Open,
            },
            _ => GateStep::Open,
        }
    }

    fn is_proposing(&self, verified: &VerifiedRequest, cluster: &[u8; 16]) -> (yes: bool)
        ensures
            yes == self.proposes(*verified, *cluster),
    {
        same_16(cluster, &self.cluster) && verified.request.ledger.same(&self.ledger)
            && self.serves_route(verified.request.route_epoch) && self.authoritative
    }

    /// Decide what the floor on a request needs.
    pub fn managed_gate(&self, verified: &VerifiedRequest, known: &Known) -> (step: GateStep)
        ensures
            step == self.gate(*verified, *known),
    {
        match &verified.request.operation {
            Operation::Managed { key, .. } => {
                if !known.identified {
                    return GateStep::Open;
                }
                match known.receipt {
                    Err(error) => if is_answer(&error) {
                        GateStep::Open
                    } else {
                        GateStep::Refuse(error)
                    },
                    Ok(found) => if !found && self.is_proposing(verified, &key.stream.cluster) {
                        GateStep::Promise { all: true }
                    } else {
                        GateStep::Open
                    },
                }
            },
            Operation::RequestStreamControl { cluster, .. } => match known.receipt {
                Err(error) => {
                    let conflict = match error {
                        LedgerError::Managed(ManagedError::Conflict) => true,
                        _ => false,
                    };
                    if conflict {
                        GateStep::Open
                    } else {
                        GateStep::Refuse(error)
                    }
                },
                Ok(found) => if !found && self.is_proposing(verified, cluster) {
                    GateStep::Promise { all: true }
                } else {
                    GateStep::Open
                },
            },
            Operation::ManagedSupport { group } => match verified.peer.role {
                PeerRole::Node { node_id } => if verified.request.ledger.same(&self.ledger)
                    && same_16(group, &self.group) && verified.request.route_epoch
                    == self.route_epoch && (is_named(&self.voters, node_id) || is_named(
                    &self.learners,
                    node_id,
                )) {
                    GateStep::Promise { all: false }
                } else {
                    GateStep::Open
                },
                _ => GateStep::Open,
            },
            _ => GateStep::Open,
        }
    }
}

/// What a promise that is still being written means: the work waits.
pub open spec fn promising(outcome: Result<(), LedgerError>) -> Result<bool, LedgerError> {
    match outcome {
        Ok(_) => Ok(true),
        Err(LedgerError::Consensus(ConsensusError::PersistencePending)) => Ok(false),
        Err(error) => Err(error),
    }
}

fn is_promised(outcome: Result<(), LedgerError>) -> (made: Result<bool, LedgerError>)
    ensures
        made == promising(outcome),
{
    match outcome {
        Ok(_) => Ok(true),
        Err(LedgerError::Consensus(ConsensusError::PersistencePending)) => Ok(false),
        Err(error) => Err(error),
    }
}

/// What a fact that is still being written means: the work waits.
pub open spec fn told(fact: Result<ManagedFormatSupport, LedgerError>) -> Result<
    Option<ManagedFormatSupport>,
    LedgerError,
> {
    match fact {
        Ok(fact) => Ok(Some(fact)),
        Err(LedgerError::Consensus(ConsensusError::PersistencePending)) => Ok(None),
        Err(error) => Err(error),
    }
}

/// Whether a voter still owes its promise.
pub open spec fn owes(fact: ManagedFormatSupport, needing: Set<u64>) -> bool {
    exists|node: u64| #[trigger] fact.voter(node) && needing.contains(node)
}

fn is_needed(list: &Vec<u64>, needing: &BTreeSet<u64>) -> (needed: bool)
    ensures
        needed == (exists|node: u64| named(list@, node) && #[trigger] needing@.contains(node)),
{
    let mut i: usize = 0;
    while i < list.len()
        invariant
            i <= list.len(),
            forall|j: int| 0 <= j < i ==> !needing@.contains(#[trigger] list@[j]),
        decreases list.len() - i,
    {
        if needing.contains(&list[i]) {
            assert(list@[i as int] == list@[i as int]);
            assert(named(list@, list@[i as int]));
            return true;
        }
        i += 1;
    }
    assert forall|node: u64| named(list@, node) implies !#[trigger] needing@.contains(node) by {
        let i = choose|i: int| 0 <= i < list@.len() && #[trigger] list@[i] == node;
        assert(!needing@.contains(list@[i]));
    }
    false
}

/// Whether the floor is met: this node's promise is made (`begun`) and read
/// back (`fact`), and, where all are needed and the protocol is not active
/// yet, none of the voters it names is among those whose promise is needed.
pub fn gate_opens(
    all: bool,
    begun: Result<(), LedgerError>,
    fact: &Result<ManagedFormatSupport, LedgerError>,
    active: bool,
    needing: &BTreeSet<u64>,
) -> (opens: Result<bool, LedgerError>)
    ensures
        opens == (match promising(begun) {
            Err(error) => Err::<bool, LedgerError>(error),
            Ok(false) => Ok::<bool, LedgerError>(false),
            Ok(true) => match told(*fact) {
                Err(error) => Err::<bool, LedgerError>(error),
                Ok(None) => Ok::<bool, LedgerError>(false),
                Ok(Some(fact)) => Ok::<bool, LedgerError>(
                    !all || active || !owes(fact, needing@),
                ),
            },
        }),
{
    match is_promised(begun) {
        Err(error) => return Err(error),
        Ok(made) => if !made {
            return Ok(false);
        },
    }
    match fact {
        Err(LedgerError::Consensus(ConsensusError::PersistencePending)) => Ok(false),
        Err(error) => Err(*error),
        Ok(fact) => {
            let missing = is_needed(&fact.voters, needing) || is_needed(
                &fact.voters_outgoing,
                needing,
            );
            proof {
                if exists|node: u64|
                    named(fact.voters@, node) && #[trigger] needing@.contains(node) {
                    let node = choose|node: u64|
                        named(fact.voters@, node) && #[trigger] needing@.contains(node);
                    assert(fact.voter(node));
                }
                if exists|node: u64|
                    named(fact.voters_outgoing@, node) && #[trigger] needing@.contains(node) {
                    let node = choose|node: u64|
                        named(fact.voters_outgoing@, node) && #[trigger] needing@.contains(node);
                    assert(fact.voter(node));
                }
                if owes(*fact, needing@) {
                    let node = choose|node: u64|
                        #[trigger] fact.voter(node) && needing@.contains(node);
                    assert(needing@.contains(node));
                }
                assert(missing == owes(*fact, needing@));
            }
            Ok(!all || active || !missing)
        },
    }
}

/// What the floor on a call of the node itself needs: its own promise, where
/// managed support is demanded at all.
pub fn support_gate(demanded: bool) -> (step: GateStep)
    ensures
        step == (if demanded {
            GateStep::Promise { all: false }
        } else {
            GateStep::Open
        }),
{
    if demanded {
        GateStep::Promise { all: false }
    } else {
        GateStep::Open
    }
}

/// No managed command is proposed before every voter can decode it.
pub proof fn managed_work_waits_for_every_voter(
    owner: Owner,
    verified: VerifiedRequest,
    known: Known,
)
    requires
        verified.request.operation is Managed,
        known.identified,
        known.receipt == Ok::<bool, LedgerError>(false),
        owner.proposes(verified, verified.request.operation->Managed_key.stream.cluster),
    ensures
        owner.gate(verified, known) == (GateStep::Promise { all: true }),
{
}

/// Whether work that waits behind the floor finds room: how many wait there
/// and how many wait for their answer.
pub fn defer_room(deferred: usize, pending: usize, pending_clients: usize, now: u64, timeout: u64) -> (deadline:
    Result<u64, LedgerError>)
    ensures
        deadline == (if deferred + pending >= pending_clients || now + timeout > u64::MAX {
            Err::<u64, LedgerError>(LedgerError::Capacity)
        } else {
            Ok::<u64, LedgerError>((now + timeout) as u64)
        }),
{
    if deferred.saturating_add(pending) >= pending_clients {
        return Err(LedgerError::Capacity);
    }
    match now.checked_add(timeout) {
        Some(deadline) => Ok(deadline),
        None => Err(LedgerError::Capacity),
    }
}

/// Whether a size is the least power of two that holds `want`.
pub open spec fn least_power(size: int, want: int) -> bool {
    (exists|k: nat| size == #[trigger] pow2(k)) && size >= want && size < 2 * want
}

/// The room a queue of `length` items grows to when it is full: the least
/// power of two that holds one more, and at least eight; with the bytes it
/// takes at `item` bytes each.
pub fn grown(length: usize, item: usize) -> (room: Result<(usize, usize), LedgerError>)
    ensures
        match room {
            Ok((target, bytes)) => least_power(
                target as int,
                if length + 1 > 8 {
                    length + 1
                } else {
                    8
                },
            ) && bytes == target * item,
            Err(error) => error == LedgerError::Capacity && (forall|target: int|
                least_power(
                    target,
                    if length + 1 > 8 {
                        length + 1
                    } else {
                        8
                    },
                ) ==> #[trigger] (target * item) > usize::MAX || target > usize::MAX),
        },
{
    let ghost want: int = if length + 1 > 8 {
        length + 1
    } else {
        8
    };
    let mut target: usize = 8;
    let ghost mut k: nat = 3;
    proof {
        lemma2_to64();
    }
    while target <= length
        invariant
            target == pow2(k),
            8 <= target,
            target < 2 * want,
            want == (if length + 1 > 8 {
                length + 1
            } else {
                8
            }),
        decreases usize::MAX - target,
    {
        proof {
            lemma_pow2_unfold(k + 1);
        }
        match target.checked_mul(2) {
            Some(next) => {
                target = next;
                proof {
                    k = k + 1;
                }
            },
            None => {
                proof {
                    assert forall|t: int| least_power(t, want) implies #[trigger] (t * item)
                        > usize::MAX || t > usize::MAX by {
                        let j = choose|j: nat| t == pow2(j);
                        if j <= k {
                            lemma_pow2_monotone(j, k);
                        } else {
                            lemma_pow2_monotone(k + 1, j);
                        }
                    }
                }
                return Err(LedgerError::Capacity);
            },
        }
    }
    assert(target >= want);
    assert(target == pow2(k));
    match target.checked_mul(item) {
        Some(bytes) => Ok((target, bytes)),
        None => {
            proof {
                assert forall|t: int| least_power(t, want) implies #[trigger] (t * item)
                    > usize::MAX || t > usize::MAX by {
                    let j = choose|j: nat| t == pow2(j);
                    lemma_one_power(j, k, want);
                }
            }
            Err(LedgerError::Capacity)
        },
    }
}

proof fn lemma_pow2_monotone(a: nat, b: nat)
    requires
        a <= b,
    ensures
        pow2(a) <= pow2(b),
    decreases b - a,
{
    if a < b {
        lemma_pow2_monotone(a, (b - 1) as nat);
        lemma_pow2_unfold(b);
    }
}

proof fn lemma_one_power(a: nat, b: nat, want: int)
    requires
        want <= pow2(a) < 2 * want,
        want <= pow2(b) < 2 * want,
    ensures
        pow2(a) == pow2(b),
{
    if a < b {
        lemma_pow2_monotone(a + 1, b);
        lemma_pow2_unfold(a + 1);
    } else if b < a {
        lemma_pow2_monotone(b + 1, a);
        lemma_pow2_unfold(b + 1);
    }
}

/// What becomes of work that waits behind the floor.
#[derive(Debug, Clone, Copy, PartialEq, Eq)]
pub enum Deferred {
    /// It is accepted, to be answered by its own deadline.
    Accept,
    Keep,
    Reject(LedgerError),
    /// The floor is asked again.
    Ask,
}

/// Decide what becomes of work that waits behind the floor, before the floor is
/// asked again.
pub fn deferred(cancelled: bool, stopping: bool, expired: bool, persistence: bool) -> (fate: Deferred)
    ensures
        fate == (if cancelled || stopping || expired {
            Deferred::Reject(LedgerError::OutcomeUnknown)
        } else if persistence {
            Deferred::Keep
        } else {
            Deferred::Ask
        }),
{
    if cancelled || stopping || expired {
        Deferred::Reject(LedgerError::OutcomeUnknown)
    } else if persistence {
        Deferred::Keep
    } else {
        Deferred::Ask
    }
}

/// Decide what becomes of work once the floor was asked.
pub fn gated(gate: Result<bool, LedgerError>) -> (fate: Deferred)
    ensures
        fate == (match gate {
            Ok(true) => Deferred::Accept,
            Ok(false) => Deferred::Keep,
            Err(error) => Deferred::Reject(error),
        }),
{
    match gate {
        Ok(open) => if open {
            Deferred::Accept
        } else {
            Deferred::Keep
        },
        Err(error) => Deferred::Reject(error),
    }
}

/// The deadline of work that waited behind the floor: it never gains time by
/// waiting.
pub fn carried(accepted: u64, deferred: u64) -> (deadline: u64)
    ensures
        deadline <= accepted,
        deadline <= deferred,
        deadline == accepted || deadline == deferred,
{
    if accepted <= deferred {
        accepted
    } else {
        deferred
    }
}

} // verus!
