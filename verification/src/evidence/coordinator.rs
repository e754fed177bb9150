//! The placements evidence is kept under, and what a job is admitted and
//! answered by.
use super::placement::{members_charge, EvidencePlacement};
use super::{same_scope, CustodyScope};
use crate::access::AccessError;
use crate::ids::LedgerId;
use crate::nodes::same_set;
use vstd::prelude::*;

verus! {

broadcast use vstd::std_specs::btree::group_btree_axioms;

/// The bytes one job is charged beside what it carries.
pub const JOB_BYTES: usize = 8 * 1024 * 1024;

/// Placements one node keeps evidence under at most.
pub const MAX_PLACEMENTS: usize = 1024;

/// Objects one repair call examines at most.
pub const MAX_REPAIR_OBJECTS: u32 = 4096;

/// Whether row `i` is the ledger's.
pub open spec fn row_at(rows: Seq<EvidencePlacement>, ledger: LedgerId, i: int) -> bool {
    0 <= i < rows.len() && rows[i].scope.ledger == ledger
}

/// No ledger has two rows.
pub open spec fn distinct(rows: Seq<EvidencePlacement>) -> bool {
    forall|i: int, j: int|
        0 <= i < j < rows.len() ==> #[trigger] rows[i].scope.ledger
            != #[trigger] rows[j].scope.ledger
}

/// The ledger's row.
pub open spec fn row_of(rows: Seq<EvidencePlacement>, ledger: LedgerId) -> Option<
    EvidencePlacement,
> {
    if exists|i: int| row_at(rows, ledger, i) {
        Some(rows[choose|i: int| row_at(rows, ledger, i)])
    } else {
        None
    }
}

/// A row of distinct rows is its ledger's.
pub proof fn a_row_is_its_ledgers(rows: Seq<EvidencePlacement>, i: int)
    requires
        distinct(rows),
        0 <= i < rows.len(),
    ensures
        row_of(rows, rows[i].scope.ledger) == Some(rows[i]),
{
    let ledger = rows[i].scope.ledger;
    assert(row_at(rows, ledger, i));
    let k = choose|k: int| row_at(rows, ledger, k);
    assert(row_at(rows, ledger, k));
}

/// What placements' members are charged, beside their fences.
pub open spec fn members_total(list: Seq<EvidencePlacement>) -> int
    decreases list.len(),
{
    if list.len() == 0 {
        0
    } else {
        members_total(list.drop_last()) + (list.last().voters@.len() + list.last().copies@.len())
            * 128 + 512
    }
}

/// The bytes a coordinator's configuration is charged: its placements'
/// members and its queue.
pub open spec fn configuration_total(list: Seq<EvidencePlacement>, concurrency: usize) -> int {
    members_total(list) + concurrency * 4096
}

proof fn lemma_members_grow(list: Seq<EvidencePlacement>, n: int)
    requires
        0 <= n <= list.len(),
    ensures
        0 <= members_total(list.take(n)) <= members_total(list),
    decreases list.len() - n,
{
    if n == list.len() {
        assert(list.take(n) =~= list);
        lemma_members_positive(list);
    } else {
        lemma_members_grow(list, n + 1);
        assert(list.take(n + 1).drop_last() =~= list.take(n));
        lemma_members_positive(list.take(n));
    }
}

proof fn lemma_members_positive(list: Seq<EvidencePlacement>)
    ensures
        0 <= members_total(list),
    decreases list.len(),
{
    if list.len() > 0 {
        lemma_members_positive(list.drop_last());
    }
}

/// The bytes a coordinator's configuration is charged.
pub fn configuration_bytes(placements: &Vec<EvidencePlacement>, concurrency: usize) -> (bytes:
    Result<usize, AccessError>)
    ensures
        bytes == (if configuration_total(placements@, concurrency) <= usize::MAX {
            Ok::<usize, AccessError>(configuration_total(placements@, concurrency) as usize)
        } else {
            Err::<usize, AccessError>(AccessError::Capacity)
        }),
{
    let mut sum: usize = 0;
    let mut i: usize = 0;
    while i < placements.len()
        invariant
            i <= placements.len(),
            sum == members_total(placements@.take(i as int)),
        decreases placements.len() - i,
    {
        let placement = &placements[i];
        proof {
            assert(placements@.take(i + 1).drop_last() =~= placements@.take(i as int));
            lemma_members_grow(placements@, i + 1);
            lemma_members_positive(placements@.take(i as int));
        }
        let charge: usize = match members_charge(placement.voters.len(), placement.copies.len()) {
            Some(charge) => charge,
            None => return Err(AccessError::Capacity),
        };
        sum = match sum.checked_add(charge) {
            Some(sum) => sum,
            None => return Err(AccessError::Capacity),
        };
        i += 1;
    }
    assert(placements@.take(placements@.len() as int) =~= placements@);
    proof {
        lemma_members_positive(placements@);
    }
    match concurrency.checked_mul(4096) {
        Some(queue) => match sum.checked_add(queue) {
            Some(bytes) => Ok(bytes),
            None => Err(AccessError::Capacity),
        },
        None => Err(AccessError::Capacity),
    }
}

/// Why a list of placements is refused from the `i`th on, with `remaining`
/// bytes of the configuration left to charge them to.
pub open spec fn refused(
    node: u64,
    list: Seq<EvidencePlacement>,
    i: int,
    remaining: int,
) -> Option<AccessError>
    decreases list.len() - i,
{
    if i < 0 || i >= list.len() {
        None
    } else if !list[i].runnable(node) || (exists|j: int|
        0 <= j < i && #[trigger] list[j].scope.ledger == list[i].scope.ledger) {
        Some(AccessError::InvalidRequest)
    } else {
        match list[i].charge() {
            Some(charge) if charge <= usize::MAX && charge <= remaining => refused(
                node,
                list,
                i + 1,
                remaining - charge,
            ),
            _ => Some(AccessError::Capacity),
        }
    }
}

/// Whether a coordinator can be set up at all.
pub open spec fn configurable(node: u64, placements: int, concurrency: usize) -> bool {
    node != 0 && 1 <= concurrency <= 64 && placements <= MAX_PLACEMENTS
}

/// The placements a node keeps evidence under: at most one for a ledger.
#[derive(Debug, Clone, PartialEq, Eq)]
pub struct Placements {
    pub node: u64,
    pub rows: Vec<EvidencePlacement>,
}

/// What came of handing a job to the owner's queue.
#[derive(Debug, Clone, Copy, PartialEq, Eq, Structural)]
pub enum Queued {
    Sent,
    Full,
    Closed,
}

impl Placements {
    /// One row for a ledger, each run by this node, and not too many.
    pub open spec fn wf(self) -> bool {
        distinct(self.rows@) && self.rows@.len() <= MAX_PLACEMENTS && forall|i: int|
            0 <= i < self.rows@.len() ==> (#[trigger] self.rows@[i]).runnable(self.node)
    }

    /// The ledger's placement.
    pub open spec fn of(self, ledger: LedgerId) -> Option<EvidencePlacement> {
        row_of(self.rows@, ledger)
    }

    /// Whether work under a scope still stands: the scope is its ledger's.
    pub open spec fn current(self, scope: Option<CustodyScope>) -> bool {
        scope matches Some(scope) && (self.of(scope.ledger) matches Some(row) && row.scope == scope)
    }

    /// The ledger's row, if it has one.
    fn find(&self, ledger: &LedgerId) -> (found: Option<usize>)
        requires
            self.wf(),
        ensures
            match found {
                Some(at) => at < self.rows@.len() && self.rows@[at as int].scope.ledger == *ledger
                    && self.of(*ledger) == Some(self.rows@[at as int]),
                None => self.of(*ledger) is None && forall|i: int|
                    0 <= i < self.rows@.len() ==> #[trigger] self.rows@[i].scope.ledger != *ledger,
            },
    {
        let mut i: usize = 0;
        while i < self.rows.len()
            invariant
                self.wf(),
                i <= self.rows.len(),
                forall|j: int| 0 <= j < i ==> #[trigger] self.rows@[j].scope.ledger != *ledger,
            decreases self.rows.len() - i,
        {
            if self.rows[i].scope.ledger.same(ledger) {
                proof {
                    a_row_is_its_ledgers(self.rows@, i as int);
                }
                return Some(i);
            }
            i += 1;
        }
        None
    }

    /// Set up the placements a node starts with; `reserved` says whether the
    /// configuration's bytes were reserved.
    pub fn configure(
        node: u64,
        placements: Vec<EvidencePlacement>,
        concurrency: usize,
        reserved: bool,
    ) -> (set: Result<Placements, AccessError>)
        ensures
            !configurable(node, placements@.len() as int, concurrency) ==> set == Err::<
                Placements,
                AccessError,
            >(AccessError::InvalidRequest),
            configurable(node, placements@.len() as int, concurrency) ==> {
                let total = configuration_total(placements@, concurrency);
                if total > usize::MAX || !reserved {
                    set == Err::<Placements, AccessError>(AccessError::Capacity)
                } else {
                    match refused(node, placements@, 0, total) {
                        Some(error) => set == Err::<Placements, AccessError>(error),
                        None => set matches Ok(set) && set.node == node && set.rows@ == placements@
                            && set.wf(),
                    }
                }
            },
    {
        if node == 0 || concurrency < 1 || concurrency > 64 || placements.len() > MAX_PLACEMENTS {
            return Err(AccessError::InvalidRequest);
        }
        let mut remaining: usize = match configuration_bytes(&placements, concurrency) {
            Ok(bytes) => bytes,
            Err(error) => return Err(error),
        };
        if !reserved {
            return Err(AccessError::Capacity);
        }
        let ghost total = configuration_total(placements@, concurrency);
        proof {
            lemma_members_positive(placements@);
        }
        let mut i: usize = 0;
        while i < placements.len()
            invariant
                i <= placements.len() <= MAX_PLACEMENTS,
                configurable(node, placements@.len() as int, concurrency),
                reserved,
                total == configuration_total(placements@, concurrency),
                total <= usize::MAX,
                refused(node, placements@, 0, total) == refused(
                    node,
                    placements@,
                    i as int,
                    remaining as int,
                ),
                forall|j: int| 0 <= j < i ==> (#[trigger] placements@[j]).runnable(node),
                forall|j: int, k: int|
                    0 <= j < k < i ==> #[trigger] placements@[j].scope.ledger
                        != #[trigger] placements@[k].scope.ledger,
            decreases placements.len() - i,
        {
            let placement = &placements[i];
            let mut taken = false;
            let mut j: usize = 0;
            while j < i
                invariant
                    j <= i < placements.len(),
                    *placement == placements@[i as int],
                    taken == (exists|k: int|
                        0 <= k < j && #[trigger] placements@[k].scope.ledger
                            == placements@[i as int].scope.ledger),
                decreases i - j,
            {
                if placements[j].scope.ledger.same(&placement.scope.ledger) {
                    taken = true;
                    assert(placements@[j as int].scope.ledger == placement.scope.ledger);
                }
                j += 1;
            }
            if !placement.is_runnable(node) || taken {
                return Err(AccessError::InvalidRequest);
            }
            let charge: usize = match placement.bytes() {
                Ok(charge) => charge,
                Err(error) => return Err(error),
            };
            if charge > remaining {
                return Err(AccessError::Capacity);
            }
            remaining = remaining - charge;
            i += 1;
        }
        Ok(Placements { node, rows: placements })
    }

    /// The placement a job runs under, and the bytes its copy is charged: the
    /// ledger's, where the job's route is still the placement's.
    pub fn snapshot(&self, ledger: &LedgerId, route: u64) -> (placement: Result<
        (EvidencePlacement, usize),
        AccessError,
    >)
        requires
            self.wf(),
        ensures
            match self.of(*ledger) {
                Some(row) if row.scope.route_epoch == route => match row.charge() {
                    Some(charge) if charge <= usize::MAX => placement matches Ok(placement)
                        && placement.0.like(row) && placement.1 == charge,
                    _ => placement == Err::<(EvidencePlacement, usize), AccessError>(
                        AccessError::Capacity,
                    ),
                },
                _ => placement == Err::<(EvidencePlacement, usize), AccessError>(
                    AccessError::Unavailable,
                ),
            },
    {
        match self.find(ledger) {
            Some(at) => {
                let row = &self.rows[at];
                if row.scope.route_epoch != route {
                    return Err(AccessError::Unavailable);
                }
                match row.bytes() {
                    Ok(bytes) => Ok((row.duplicate(), bytes)),
                    Err(error) => Err(error),
                }
            },
            None => Err(AccessError::Unavailable),
        }
    }

    /// Answer a job: what it came to, unless its scope was superseded while
    /// it ran.
    pub fn complete<T>(&self, scope: &Option<CustodyScope>, result: Result<T, AccessError>) -> (answer:
        Result<T, AccessError>)
        requires
            self.wf(),
        ensures
            answer == (match result {
                Ok(value) => if self.current(*scope) {
                    Ok::<T, AccessError>(value)
                } else {
                    Err::<T, AccessError>(AccessError::Unavailable)
                },
                Err(error) => Err::<T, AccessError>(error),
            }),
    {
        match result {
            Err(error) => Err(error),
            Ok(value) => {
                let current = match scope {
                    Some(scope) => match self.find(&scope.ledger) {
                        Some(at) => self.rows[at].scope.same(scope),
                        None => false,
                    },
                    None => false,
                };
                if current {
                    Ok(value)
                } else {
                    Err(AccessError::Unavailable)
                }
            },
        }
    }

    /// Whether `next` may take the place of what its ledger has: the same
    /// again, the same with another fence, or what moves the expected scope
    /// forward; a ledger without a row takes one that expects none, while
    /// there is room.
    pub open spec fn accepts(
        self,
        expected: Option<CustodyScope>,
        next: EvidencePlacement,
    ) -> Result<(), AccessError> {
        if !next.runnable(self.node) {
            Err(AccessError::InvalidRequest)
        } else {
            match self.of(next.scope.ledger) {
                Some(row) => {
                    let fence_only = next.scope == row.scope && next.voters@ == row.voters@
                        && next.copies@ == row.copies@;
                    let forward = expected == Some(row.scope) && next.scope.route_epoch
                        >= row.scope.route_epoch && next.scope.policy_revision
                        >= row.scope.policy_revision && next.scope != row.scope;
                    if fence_only || forward {
                        Ok(())
                    } else {
                        Err(AccessError::Unavailable)
                    }
                },
                None => if expected is Some {
                    Err(AccessError::Unavailable)
                } else if self.rows@.len() >= MAX_PLACEMENTS {
                    Err(AccessError::Capacity)
                } else {
                    Ok(())
                },
            }
        }
    }

    /// Whether an accepted replacement is staged within the bytes held for
    /// it.
    pub open spec fn staged(
        self,
        expected: Option<CustodyScope>,
        next: EvidencePlacement,
        held: int,
    ) -> Result<(), AccessError> {
        match self.accepts(expected, next) {
            Err(error) => Err(error),
            Ok(_) => match next.charge() {
                Some(charge) if charge + 4096 <= usize::MAX && charge + 4096 <= held => Ok(()),
                _ => Err(AccessError::Capacity),
            },
        }
    }

    /// Decide whether a replacement is staged: it is accepted, and the
    /// `held` bytes reserved for it cover its row once more beside the
    /// message.
    pub fn stage(
        &self,
        expected: &Option<CustodyScope>,
        next: &EvidencePlacement,
        held: usize,
    ) -> (staged: Result<(), AccessError>)
        requires
            self.wf(),
        ensures
            staged == self.staged(*expected, *next, held as int),
    {
        if !next.is_runnable(self.node) {
            return Err(AccessError::InvalidRequest);
        }
        match self.find(&next.scope.ledger) {
            Some(at) => {
                let row = &self.rows[at];
                let fence_only = next.scope.same(&row.scope) && same_set(&next.voters, &row.voters)
                    && same_set(&next.copies, &row.copies);
                if !row.same(next) && !fence_only && (!same_scope(expected, &Some(row.scope))
                    || next.scope.route_epoch < row.scope.route_epoch || next.scope.policy_revision
                    < row.scope.policy_revision || next.scope.same(&row.scope)) {
                    return Err(AccessError::Unavailable);
                }
            },
            None => {
                if expected.is_some() {
                    return Err(AccessError::Unavailable);
                }
                if self.rows.len() >= MAX_PLACEMENTS {
                    return Err(AccessError::Capacity);
                }
            },
        }
        let bytes: usize = match next.bytes() {
            Ok(bytes) => bytes,
            Err(error) => return Err(error),
        };
        match bytes.checked_add(4096) {
            Some(staging) => if staging <= held {
                Ok(())
            } else {
                Err(AccessError::Capacity)
            },
            None => Err(AccessError::Capacity),
        }
    }

    /// Publish a staged placement once the content owner has taken its
    /// policy.
    pub fn install(&mut self, next: EvidencePlacement)
        requires
            old(self).wf(),
            next.runnable(old(self).node),
            old(self).of(next.scope.ledger) is Some || old(self).rows@.len() < MAX_PLACEMENTS,
        ensures
            final(self).wf(),
            final(self).node == old(self).node,
            final(self).of(next.scope.ledger) == Some(next),
            forall|ledger: LedgerId|
                ledger != next.scope.ledger ==> #[trigger] final(self).of(ledger) == old(self).of(
                    ledger,
                ),
            final(self).rows@.len() == old(self).rows@.len() + (if old(self).of(next.scope.ledger)
                is Some {
                0int
            } else {
                1int
            }),
    {
        let ghost before = self.rows@;
        match self.find(&next.scope.ledger) {
            Some(at) => {
                let ghost row = next;
                self.rows.set(at, next);
                proof {
                    a_row_is_its_ledgers(self.rows@, at as int);
                    assert forall|ledger: LedgerId| ledger != row.scope.ledger implies row_of(
                        self.rows@,
                        ledger,
                    ) == row_of(before, ledger) by {
                        same_rows(before, self.rows@, ledger);
                    }
                }
            },
            None => {
                let ghost row = next;
                self.rows.push(next);
                proof {
                    a_row_is_its_ledgers(self.rows@, before.len() as int);
                    assert forall|ledger: LedgerId| ledger != row.scope.ledger implies row_of(
                        self.rows@,
                        ledger,
                    ) == row_of(before, ledger) by {
                        same_rows(before, self.rows@, ledger);
                    }
                }
            },
        }
    }
}

/// Rows that agree on a ledger hold the same placement for it.
proof fn same_rows(a: Seq<EvidencePlacement>, b: Seq<EvidencePlacement>, ledger: LedgerId)
    requires
        distinct(a),
        distinct(b),
        forall|i: int| row_at(a, ledger, i) ==> row_at(b, ledger, i) && b[i] == a[i],
        forall|i: int| row_at(b, ledger, i) ==> row_at(a, ledger, i),
    ensures
        row_of(a, ledger) == row_of(b, ledger),
{
    if exists|i: int| row_at(a, ledger, i) {
        let i = choose|i: int| row_at(a, ledger, i);
        assert(row_at(b, ledger, i));
        a_row_is_its_ledgers(a, i);
        a_row_is_its_ledgers(b, i);
    }
}

/// A replacement never takes a ledger back: the route epoch and the policy
/// revision of an accepted placement are at least those it replaces.
pub proof fn placements_only_advance(
    set: Placements,
    expected: Option<CustodyScope>,
    next: EvidencePlacement,
    row: EvidencePlacement,
)
    requires
        set.of(next.scope.ledger) == Some(row),
        set.accepts(expected, next) is Ok,
    ensures
        next.scope.route_epoch >= row.scope.route_epoch,
        next.scope.policy_revision >= row.scope.policy_revision,
{
}

/// A replacement whose answer was lost can be retried: once installed, the
/// same placement is accepted whatever scope the caller expects.
pub proof fn a_replacement_can_be_retried(
    set: Placements,
    expected: Option<CustodyScope>,
    next: EvidencePlacement,
)
    requires
        set.wf(),
        set.of(next.scope.ledger) == Some(next),
    ensures
        set.accepts(expected, next) == Ok::<(), AccessError>(()),
{
    let i = choose|i: int| row_at(set.rows@, next.scope.ledger, i);
    assert(row_at(set.rows@, next.scope.ledger, i));
    assert(set.rows@[i].runnable(set.node));
}

/// Members change only with the scope, and only against the scope the
/// caller expects: a caller that raced with another replacement is refused.
pub proof fn members_change_with_the_scope(
    set: Placements,
    expected: Option<CustodyScope>,
    next: EvidencePlacement,
    row: EvidencePlacement,
)
    requires
        set.of(next.scope.ledger) == Some(row),
        set.accepts(expected, next) is Ok,
        next.voters@ != row.voters@ || next.copies@ != row.copies@,
    ensures
        next.scope != row.scope,
        expected == Some(row.scope),
{
}

/// Work that ran under a scope its ledger has left is never answered as
/// done.
pub proof fn superseded_work_is_not_done(
    after: Placements,
    scope: CustodyScope,
    next: EvidencePlacement,
)
    requires
        after.of(next.scope.ledger) == Some(next),
        scope.ledger == next.scope.ledger,
        scope != next.scope,
    ensures
        !after.current(Some(scope)),
{
}

/// The bytes a job is charged for a request of `size` bytes.
pub fn request_charge(size: usize) -> (bytes: Result<usize, AccessError>)
    ensures
        bytes == (if size * 32 + JOB_BYTES <= usize::MAX {
            Ok::<usize, AccessError>((size * 32 + JOB_BYTES) as usize)
        } else {
            Err::<usize, AccessError>(AccessError::Capacity)
        }),
{
    match size.checked_mul(32) {
        Some(bytes) => match bytes.checked_add(JOB_BYTES) {
            Some(bytes) => Ok(bytes),
            None => Err(AccessError::Capacity),
        },
        None => Err(AccessError::Capacity),
    }
}

/// The bytes an archive job is charged for a bundle of `length` bytes.
pub fn archive_charge(length: usize) -> (bytes: Result<usize, AccessError>)
    ensures
        bytes == (if length * 2 + JOB_BYTES <= usize::MAX {
            Ok::<usize, AccessError>((length * 2 + JOB_BYTES) as usize)
        } else {
            Err::<usize, AccessError>(AccessError::Capacity)
        }),
{
    match length.checked_mul(2) {
        Some(bytes) => match bytes.checked_add(JOB_BYTES) {
            Some(bytes) => Ok(bytes),
            None => Err(AccessError::Capacity),
        },
        None => Err(AccessError::Capacity),
    }
}

/// The bytes a repair job of at most `limit` objects is charged.
pub fn repair_charge(limit: u32) -> (bytes: Result<usize, AccessError>)
    ensures
        bytes == (if 1 <= limit <= MAX_REPAIR_OBJECTS {
            Ok::<usize, AccessError>(JOB_BYTES)
        } else {
            Err::<usize, AccessError>(AccessError::InvalidRequest)
        }),
{
    if limit == 0 || limit > MAX_REPAIR_OBJECTS {
        return Err(AccessError::InvalidRequest);
    }
    Ok(JOB_BYTES)
}

/// The bytes reserved for a replacement: its row twice and the message.
pub fn replacement_charge(placement: &EvidencePlacement) -> (bytes: Result<usize, AccessError>)
    ensures
        bytes == (match placement.charge() {
            Some(charge) if charge * 2 + 4096 <= usize::MAX => Ok::<usize, AccessError>(
                (charge * 2 + 4096) as usize,
            ),
            _ => Err::<usize, AccessError>(AccessError::Capacity),
        }),
{
    let charge: usize = match placement.bytes() {
        Ok(charge) => charge,
        Err(error) => return Err(error),
    };
    match charge.checked_mul(2) {
        Some(bytes) => match bytes.checked_add(4096) {
            Some(bytes) => Ok(bytes),
            None => Err(AccessError::Capacity),
        },
        None => Err(AccessError::Capacity),
    }
}

/// What is reserved for a replacement covers its staging: with it held, a
/// replacement is staged exactly when it is accepted.
pub proof fn a_replacement_covers_its_staging(
    set: Placements,
    expected: Option<CustodyScope>,
    next: EvidencePlacement,
    charge: int,
)
    requires
        next.charge() == Some(charge),
        charge * 2 + 4096 <= usize::MAX,
    ensures
        set.staged(expected, next, charge * 2 + 4096) == set.accepts(expected, next),
{
}

/// What handing a job over came to.
pub fn queued(outcome: Queued) -> (done: Result<(), AccessError>)
    ensures
        done == (match outcome {
            Queued::Sent => Ok::<(), AccessError>(()),
            Queued::Full => Err::<(), AccessError>(AccessError::Capacity),
            Queued::Closed => Err::<(), AccessError>(AccessError::Unavailable),
        }),
{
    match outcome {
        Queued::Sent => Ok(()),
        Queued::Full => Err(AccessError::Capacity),
        Queued::Closed => Err(AccessError::Unavailable),
    }
}

/// What a job's caller learns: its answer, or that the outcome is unknown
/// where the answer was lost.
pub fn answered<T>(answer: Option<Result<T, AccessError>>) -> (result: Result<T, AccessError>)
    ensures
        result == (match answer {
            Some(result) => result,
            None => Err::<T, AccessError>(AccessError::OutcomeUnknown),
        }),
{
    match answer {
        Some(result) => result,
        None => Err(AccessError::OutcomeUnknown),
    }
}

/// What a job is for.
#[derive(Debug, Clone, Copy, PartialEq, Eq, Structural)]
pub enum JobKind {
    Seal,
    Attest,
    AttestNative,
    Obligation,
    Archive,
    Repair,
}

impl JobKind {
    /// Whether a participant's request stands behind the job; the others are
    /// the node's own.
    pub open spec fn of_a_participant(self) -> bool {
        !(self is Archive) && !(self is Repair)
    }

    /// Whether a job runs: its placement was found, and a participant's job
    /// carries its request.
    pub fn process(
        self,
        placement: Result<CustodyScope, AccessError>,
        requested: bool,
    ) -> (run: Result<CustodyScope, AccessError>)
        ensures
            run == (match placement {
                Err(error) => Err::<CustodyScope, AccessError>(error),
                Ok(scope) => if self.of_a_participant() && !requested {
                    Err::<CustodyScope, AccessError>(AccessError::InvalidRequest)
                } else {
                    Ok::<CustodyScope, AccessError>(scope)
                },
            }),
    {
        let scope = match placement {
            Ok(scope) => scope,
            Err(error) => return Err(error),
        };
        match self {
            JobKind::Archive | JobKind::Repair => Ok(scope),
            _ => if requested {
                Ok(scope)
            } else {
                Err(AccessError::InvalidRequest)
            },
        }
    }
}

/// Which of the driver's sources are still open, and the jobs it runs.
#[derive(Debug, Clone, Copy, PartialEq, Eq)]
pub struct Intake {
    pub receiving: bool,
    pub updates: bool,
    pub running: usize,
    pub concurrency: usize,
}

impl Intake {
    /// No more jobs run than were allowed for.
    pub open spec fn wf(self) -> bool {
        self.running <= self.concurrency
    }

    /// A driver that has not run anything.
    pub fn new(concurrency: usize) -> (intake: Self)
        ensures
            intake == (Intake { receiving: true, updates: true, running: 0, concurrency }),
            intake.wf(),
    {
        Intake { receiving: true, updates: true, running: 0, concurrency }
    }

    /// Whether the driver goes on.
    pub fn runs(&self) -> (runs: bool)
        ensures
            runs == (self.receiving || self.updates || self.running > 0),
    {
        self.receiving || self.updates || self.running > 0
    }

    /// Whether the driver takes another job now.
    pub fn takes(&self) -> (takes: bool)
        ensures
            takes == (self.receiving && self.running < self.concurrency),
    {
        self.receiving && self.running < self.concurrency
    }

    /// A job came, or the last caller left.
    pub fn job(&mut self, came: bool)
        requires
            old(self).wf(),
            old(self).receiving,
            old(self).running < old(self).concurrency,
        ensures
            final(self).wf(),
            *final(self) == (if came {
                Intake { running: (old(self).running + 1) as usize, ..*old(self) }
            } else {
                Intake { receiving: false, ..*old(self) }
            }),
    {
        if came {
            self.running = self.running + 1;
        } else {
            self.receiving = false;
        }
    }

    /// A job is done.
    pub fn done(&mut self)
        requires
            old(self).wf(),
            old(self).running > 0,
        ensures
            final(self).wf(),
            *final(self) == (Intake { running: (old(self).running - 1) as usize, ..*old(self) }),
    {
        self.running = self.running - 1;
    }

    /// The last owner of placements left.
    pub fn closed(&mut self)
        ensures
            *final(self) == (Intake { updates: false, ..*old(self) }),
    {
        self.updates = false;
    }
}

} // verus!
