//! The repair of a session's custody on one node: every object its committed
//! artifacts name is verified here again, recopied from another required
//! copy where it is missing, and completed on the other required copies.
use super::placement::EvidencePlacement;
use super::transfer::{admitted, durable, is_durable, others, within, without, Answer};
use super::{object_transfer, root_request, transfer_of, ContentRef, CustodyScope};
use crate::access::AccessError;
use crate::hashing::same_16;
use crate::ids::{id_before, is_before, LedgerId};
use crate::nodes::{in_order, members};
use vstd::prelude::*;

verus! {

broadcast use vstd::std_specs::btree::group_btree_axioms;

/// Objects a report names of those no copy could supply.
pub const MAX_UNRECOVERABLE_LISTED: usize = 64;

/// An object no required copy could supply: the session needs a restore.
#[derive(Debug, Clone, Copy, PartialEq, Eq)]
pub struct UnrecoverableObject {
    pub artifact: [u8; 16],
    pub reference: ContentRef,
    pub asked: u32,
}

/// What one repair pass over a session's committed artifacts found and did
/// on this node. `next_after` names where a walk that was bounded or outlived
/// by its snapshot resumes; `complete` says that it came to the end.
#[derive(Debug, Clone, PartialEq, Eq)]
pub struct RepairReport {
    pub sequence: u64,
    pub index: u64,
    pub artifacts: u64,
    pub objects: u64,
    pub verified: u64,
    pub repaired: u64,
    pub pushed: u64,
    pub unrecoverable: Vec<UnrecoverableObject>,
    pub unrecoverable_count: u64,
    pub complete: bool,
    pub next_after: Option<[u8; 16]>,
}

/// What a report says.
pub struct Report {
    pub sequence: u64,
    pub index: u64,
    pub artifacts: u64,
    pub objects: u64,
    pub verified: u64,
    pub repaired: u64,
    pub pushed: u64,
    pub unrecoverable: Seq<UnrecoverableObject>,
    pub unrecoverable_count: u64,
    pub complete: bool,
    pub next_after: Option<[u8; 16]>,
}

impl View for RepairReport {
    type V = Report;

    open spec fn view(&self) -> Report {
        Report {
            sequence: self.sequence,
            index: self.index,
            artifacts: self.artifacts,
            objects: self.objects,
            verified: self.verified,
            repaired: self.repaired,
            pushed: self.pushed,
            unrecoverable: self.unrecoverable@,
            unrecoverable_count: self.unrecoverable_count,
            complete: self.complete,
            next_after: self.next_after,
        }
    }
}

/// The committed prefix a repair walks.
#[derive(Debug, Clone, Copy, PartialEq, Eq)]
pub struct Prefix {
    pub ledger: LedgerId,
    pub route: u64,
    pub placement_epoch: u64,
    pub node: u64,
    pub sequence: u64,
    pub index: u64,
}

/// A committed artifact, and the object it names.
#[derive(Debug, Clone, Copy, PartialEq, Eq)]
pub struct Found {
    pub artifact: [u8; 16],
    pub content: Option<ContentRef>,
}

/// How far a repair has come.
#[derive(Debug, Clone, Copy, PartialEq, Eq, Structural)]
pub enum Mending {
    /// The next artifact is read.
    Next,
    /// This node's own store verifies the object.
    Here,
    /// The object is pulled from a source.
    Pulling,
    /// This node's own receipt is recorded.
    RecordingOwn,
    /// Another required copy verifies the object.
    There,
    /// Its receipt is recorded.
    Recording,
    /// It is given the object.
    Pushing,
    Done,
}

/// What is done next for a repair.
#[derive(Debug, Clone, Copy, PartialEq, Eq)]
pub enum Mend {
    /// Read the first artifact after this one.
    Artifact { after: Option<[u8; 16]> },
    /// Ask this node's own store to verify the object in turn.
    VerifyHere,
    /// Pull the object in turn from a peer.
    Pull { peer: u64 },
    /// Record a copy's receipt.
    Record { node: u64 },
    /// Ask a copy to verify the object in turn.
    Verify { peer: u64 },
    /// Give a copy the object in turn.
    Push { peer: u64 },
    /// Nothing more: the report stands, or the repair failed.
    Finish(Result<(), AccessError>),
}

/// What came of the last step.
#[derive(Debug, Clone, Copy, PartialEq, Eq)]
pub enum Mended {
    Artifact(Result<Option<Found>, AccessError>),
    Answered(Result<Answer, AccessError>),
    Pulled(bool),
    Recorded(Result<(), AccessError>),
    Pushed(bool),
}

/// What changes while a repair runs.
pub struct Work {
    pub report: Report,
    pub artifact: [u8; 16],
    pub reference: ContentRef,
    pub source: int,
    pub copy: int,
    pub asked: u32,
    pub phase: Mending,
}

/// A repair of one session's custody on this node.
#[derive(Debug, Clone, PartialEq, Eq)]
pub struct Repair {
    pub scope: CustodyScope,
    pub node: u64,
    /// Whether this node is a required copy itself.
    pub own: bool,
    /// Where a missing object is asked for, in order.
    pub sources: Vec<u64>,
    /// The other required copies within the residency boundary.
    pub copies: Vec<u64>,
    /// Objects examined at most.
    pub limit: u32,
    pub report: RepairReport,
    /// The artifact in turn and the object it names.
    pub artifact: [u8; 16],
    pub reference: ContentRef,
    /// The transfer the object in turn moves under.
    pub transfer: [u8; 16],
    pub source: usize,
    pub copy: usize,
    pub asked: u32,
    pub phase: Mending,
}

/// Where a missing object is asked for: each node of the list once, in its
/// order, never this node, and only within the residency boundary.
pub open spec fn sources_of(list: Seq<u64>, node: u64, placement: EvidencePlacement) -> Seq<u64>
    decreases list.len(),
{
    if list.len() == 0 {
        Seq::empty()
    } else {
        let front = sources_of(list.drop_last(), node, placement);
        if list.last() != node && !front.contains(list.last()) && placement.fence.allows(
            list.last(),
        ) {
            front.push(list.last())
        } else {
            front
        }
    }
}

fn is_in(list: &Vec<u64>, n: u64) -> (yes: bool)
    ensures
        yes == list@.contains(n),
{
    let mut i: usize = 0;
    while i < list.len()
        invariant
            i <= list.len(),
            forall|j: int| 0 <= j < i ==> list@[j] != n,
        decreases list.len() - i,
    {
        if list[i] == n {
            assert(list@[i as int] == n);
            return true;
        }
        i += 1;
    }
    false
}

fn sources(list: &Vec<u64>, node: u64, placement: &EvidencePlacement) -> (sources: Vec<u64>)
    ensures
        sources@ == sources_of(list@, node, *placement),
{
    let mut sources: Vec<u64> = Vec::new();
    let mut i: usize = 0;
    assert(sources@ =~= sources_of(list@.take(0), node, *placement));
    while i < list.len()
        invariant
            i <= list.len(),
            sources@ == sources_of(list@.take(i as int), node, *placement),
        decreases list.len() - i,
    {
        assert(list@.take(i + 1).drop_last() =~= list@.take(i as int));
        if list[i] != node && !is_in(&sources, list[i]) && placement.fence.admits(list[i]) {
            sources.push(list[i]);
        }
        i += 1;
    }
    assert(list@.take(list@.len() as int) =~= list@);
    sources
}

/// Whether every object examined was verified, repaired or given up, but for
/// one that may be in turn.
pub open spec fn balanced(report: Report, turn: bool) -> bool {
    report.objects == report.verified + report.repaired + report.unrecoverable_count + (if turn {
        1int
    } else {
        0int
    })
}

/// Whether a prefix is the placement's own: its ledger at its route and
/// policy, on this node.
pub open spec fn walks(prefix: Prefix, scope: CustodyScope, node: u64) -> bool {
    prefix.ledger == scope.ledger && prefix.route == scope.route_epoch && prefix.placement_epoch
        == scope.policy_revision && prefix.node == node
}

impl Repair {
    /// What changes while the repair runs.
    pub open spec fn work(self) -> Work {
        Work {
            report: self.report@,
            artifact: self.artifact,
            reference: self.reference,
            source: self.source as int,
            copy: self.copy as int,
            asked: self.asked,
            phase: self.phase,
        }
    }

    /// What does not change while the repair runs.
    pub open spec fn fixed(self, other: Self) -> bool {
        self.scope == other.scope && self.node == other.node && self.own == other.own
            && self.sources@ == other.sources@ && self.copies@ == other.copies@ && self.limit
            == other.limit
    }

    /// Every object examined was verified, repaired or given up, but for the
    /// one in turn; the report lists what was given up as far as it may; the
    /// limit is kept.
    pub open spec fn wf(self) -> bool {
        let report = self.report;
        &&& report.objects <= self.limit
        &&& report.objects <= report.artifacts
        &&& self.phase != Mending::Done ==> balanced(
            self.report@,
            self.phase == Mending::Here || self.phase == Mending::Pulling,
        )
        &&& balanced(self.report@, false) || balanced(self.report@, true)
        &&& report.unrecoverable@.len() == (if report.unrecoverable_count
            <= MAX_UNRECOVERABLE_LISTED {
            report.unrecoverable_count as int
        } else {
            MAX_UNRECOVERABLE_LISTED as int
        })
        &&& report.complete ==> report.next_after is None && self.phase == Mending::Done
        &&& self.phase == Mending::Next ==> report.objects < self.limit
        &&& self.source <= self.sources@.len()
        &&& self.copy <= self.copies@.len()
        &&& (self.phase == Mending::There || self.phase == Mending::Recording || self.phase
            == Mending::Pushing ==> self.copy < self.copies@.len())
        &&& (self.phase != Mending::Next && self.phase != Mending::Done ==> self.transfer
            == transfer_of(self.scope, root_request(self.reference), self.reference.root))
    }

    /// The end of the repair in an error.
    pub open spec fn fail(self, error: AccessError) -> (Work, Mend) {
        (Work { phase: Mending::Done, ..self.work() }, Mend::Finish(Err(error)))
    }

    /// The next artifact, while the limit allows another object.
    pub open spec fn again(self, work: Work) -> (Work, Mend) {
        if work.report.objects < self.limit {
            (
                Work { phase: Mending::Next, ..work },
                Mend::Artifact { after: work.report.next_after },
            )
        } else {
            (Work { phase: Mending::Done, ..work }, Mend::Finish(Ok(())))
        }
    }

    /// The next source of a missing object, or its loss.
    pub open spec fn seek(self, work: Work) -> (Work, Mend) {
        if work.source < self.sources@.len() {
            (
                Work {
                    source: work.source + 1,
                    asked: if work.asked < u32::MAX {
                        (work.asked + 1) as u32
                    } else {
                        work.asked
                    },
                    phase: Mending::Pulling,
                    ..work
                },
                Mend::Pull { peer: self.sources@[work.source] },
            )
        } else {
            let report = Report {
                unrecoverable_count: (work.report.unrecoverable_count + 1) as u64,
                unrecoverable: if work.report.unrecoverable.len() < MAX_UNRECOVERABLE_LISTED {
                    work.report.unrecoverable.push(
                        UnrecoverableObject {
                            artifact: work.artifact,
                            reference: work.reference,
                            asked: work.asked,
                        },
                    )
                } else {
                    work.report.unrecoverable
                },
                ..work.report
            };
            self.again(Work { report, ..work })
        }
    }

    /// The next other copy of an object this node holds, or the next
    /// artifact.
    pub open spec fn offer(self, work: Work) -> (Work, Mend) {
        if work.copy < self.copies@.len() {
            (
                Work { phase: Mending::There, ..work },
                Mend::Verify { peer: self.copies@[work.copy] },
            )
        } else {
            self.again(work)
        }
    }

    /// What follows once this node holds an object: its own receipt, where it
    /// is a required copy, and the other copies.
    pub open spec fn hold(self, work: Work) -> (Work, Mend) {
        if self.own {
            (
                Work { copy: 0, phase: Mending::RecordingOwn, ..work },
                Mend::Record { node: self.node },
            )
        } else {
            self.offer(Work { copy: 0, ..work })
        }
    }

    /// What follows an artifact: artifacts come in ascending order, and an
    /// object is of the ledger's tenant.
    pub open spec fn examine(self, found: Found) -> (Work, Mend) {
        let work = self.work();
        if work.report.next_after matches Some(previous) && !id_before(previous, found.artifact, 0) {
            self.fail(AccessError::InvalidRequest)
        } else if work.report.artifacts == u64::MAX {
            self.fail(AccessError::Capacity)
        } else {
            let report = Report {
                next_after: Some(found.artifact),
                artifacts: (work.report.artifacts + 1) as u64,
                ..work.report
            };
            match found.content {
                None => self.again(Work { report, ..work }),
                Some(reference) => if reference.domain != self.scope.ledger.tenant {
                    self.fail(AccessError::Unauthorized)
                } else {
                    (
                        Work {
                            report: Report { objects: (report.objects + 1) as u64, ..report },
                            artifact: found.artifact,
                            reference,
                            phase: Mending::Here,
                            ..work
                        },
                        Mend::VerifyHere,
                    )
                },
            }
        }
    }

    /// What follows an event.
    pub open spec fn next(self, event: Mended) -> (Work, Mend) {
        let work = self.work();
        match (self.phase, event) {
            (Mending::Next, Mended::Artifact(Ok(None))) => (
                Work {
                    report: Report { complete: true, next_after: None, ..work.report },
                    phase: Mending::Done,
                    ..work
                },
                Mend::Finish(Ok(())),
            ),
            (Mending::Next, Mended::Artifact(Ok(Some(found)))) => self.examine(found),
            (Mending::Next, Mended::Artifact(Err(error))) => if error
                == AccessError::SnapshotExpired {
                (Work { phase: Mending::Done, ..work }, Mend::Finish(Ok(())))
            } else {
                self.fail(error)
            },
            (Mending::Here, Mended::Answered(answer)) => if durable(
                answer,
                self.reference,
                self.scope.policy_revision,
            ) {
                self.hold(
                    Work {
                        report: Report {
                            verified: (work.report.verified + 1) as u64,
                            ..work.report
                        },
                        ..work
                    },
                )
            } else {
                self.seek(Work { source: 0, asked: 0, ..work })
            },
            (Mending::Pulling, Mended::Pulled(true)) => self.hold(
                Work {
                    report: Report { repaired: (work.report.repaired + 1) as u64, ..work.report },
                    ..work
                },
            ),
            (Mending::Pulling, Mended::Pulled(false)) => self.seek(work),
            (Mending::RecordingOwn, Mended::Recorded(Ok(_))) => self.offer(Work { copy: 0, ..work }),
            (Mending::There, Mended::Answered(answer)) => if durable(
                answer,
                self.reference,
                self.scope.policy_revision,
            ) {
                (
                    Work { phase: Mending::Recording, ..work },
                    Mend::Record { node: self.copies@[work.copy] },
                )
            } else {
                (
                    Work { phase: Mending::Pushing, ..work },
                    Mend::Push { peer: self.copies@[work.copy] },
                )
            },
            (Mending::Recording, Mended::Recorded(Ok(_))) => self.offer(
                Work { copy: work.copy + 1, ..work },
            ),
            (Mending::Pushing, Mended::Pushed(given)) => if given && work.report.pushed
                == u64::MAX {
                self.fail(AccessError::Capacity)
            } else {
                self.offer(
                    Work {
                        report: Report {
                            pushed: if given {
                                (work.report.pushed + 1) as u64
                            } else {
                                work.report.pushed
                            },
                            ..work.report
                        },
                        copy: work.copy + 1,
                        ..work
                    },
                )
            },
            (_, Mended::Recorded(Err(error))) => self.fail(error),
            _ => self.fail(AccessError::InvalidRequest),
        }
    }

    /// Repair a session's custody from `after` on, at most `limit` objects.
    pub fn start(
        placement: &EvidencePlacement,
        node: u64,
        prefix: &Prefix,
        after: Option<[u8; 16]>,
        limit: u32,
    ) -> (repair: Result<(Self, Mend), AccessError>)
        ensures
            !walks(*prefix, placement.scope, node) ==> repair == Err::<(Self, Mend), AccessError>(
                AccessError::Unavailable,
            ),
            walks(*prefix, placement.scope, node) ==> (repair matches Ok((repair, action)) && {
                &&& repair.wf()
                &&& repair.scope == placement.scope
                &&& repair.node == node
                &&& repair.own == placement.copies@.contains(node)
                &&& repair.sources@ == sources_of(
                    in_order(placement.copies@) + in_order(placement.voters@),
                    node,
                    *placement,
                )
                &&& repair.copies@ == admitted(
                    others(in_order(placement.copies@), node),
                    *placement,
                )
                &&& repair.limit == limit
                &&& repair.report@ == (Report {
                    sequence: prefix.sequence,
                    index: prefix.index,
                    artifacts: 0,
                    objects: 0,
                    verified: 0,
                    repaired: 0,
                    pushed: 0,
                    unrecoverable: Seq::empty(),
                    unrecoverable_count: 0,
                    complete: false,
                    next_after: after,
                })
                &&& repair.phase == repair.again(repair.work()).0.phase
                &&& action == repair.again(repair.work()).1
            }),
    {
        let scope = &placement.scope;
        if !prefix.ledger.same(&scope.ledger) || prefix.route != scope.route_epoch
            || prefix.placement_epoch != scope.policy_revision || prefix.node != node {
            return Err(AccessError::Unavailable);
        }
        let copies = members(&placement.copies);
        let voters = members(&placement.voters);
        let mut list: Vec<u64> = Vec::new();
        list.extend_from_slice(copies.as_slice());
        list.extend_from_slice(voters.as_slice());
        assert(list@ =~= copies@ + voters@);
        let report = RepairReport {
            sequence: prefix.sequence,
            index: prefix.index,
            artifacts: 0,
            objects: 0,
            verified: 0,
            repaired: 0,
            pushed: 0,
            unrecoverable: Vec::new(),
            unrecoverable_count: 0,
            complete: false,
            next_after: after,
        };
        let none = ContentRef { domain: [0;16], root: [0;32], length: 0, class: 0 };
        let mut repair = Repair {
            scope: placement.scope,
            node,
            own: placement.copies.contains(&node),
            sources: sources(&list, node, placement),
            copies: within(&without(&copies, node), placement),
            limit,
            report,
            artifact: [0;16],
            reference: none,
            transfer: [0;16],
            source: 0,
            copy: 0,
            asked: 0,
            phase: Mending::Done,
        };
        let action = repair.proceed();
        Ok((repair, action))
    }

    fn proceed(&mut self) -> (action: Mend)
        requires
            (Repair { phase: Mending::Done, ..*old(self) }).wf(),
            balanced(old(self).report@, false),
            !old(self).report.complete,
        ensures
            final(self).fixed(*old(self)),
            final(self).work() == old(self).again(old(self).work()).0,
            action == old(self).again(old(self).work()).1,
            final(self).wf(),
    {
        if self.report.objects < self.limit as u64 {
            self.phase = Mending::Next;
            Mend::Artifact { after: self.report.next_after }
        } else {
            self.phase = Mending::Done;
            Mend::Finish(Ok(()))
        }
    }

    fn end(&mut self, error: AccessError) -> (action: Mend)
        requires
            old(self).wf(),
        ensures
            final(self).fixed(*old(self)),
            final(self).work() == old(self).fail(error).0,
            action == old(self).fail(error).1,
            final(self).wf(),
    {
        self.phase = Mending::Done;
        Mend::Finish(Err(error))
    }

    fn source(&mut self) -> (action: Mend)
        requires
            (Repair { phase: Mending::Here, ..*old(self) }).wf(),
        ensures
            final(self).fixed(*old(self)),
            final(self).work() == old(self).seek(old(self).work()).0,
            action == old(self).seek(old(self).work()).1,
            final(self).wf(),
    {
        if self.source < self.sources.len() {
            let peer: u64 = self.sources[self.source];
            self.source = self.source + 1;
            self.asked = self.asked.saturating_add(1);
            self.phase = Mending::Pulling;
            return Mend::Pull { peer };
        }
        self.report.unrecoverable_count = self.report.unrecoverable_count + 1;
        if self.report.unrecoverable.len() < MAX_UNRECOVERABLE_LISTED {
            self.report.unrecoverable.push(
                UnrecoverableObject {
                    artifact: self.artifact,
                    reference: self.reference,
                    asked: self.asked,
                },
            );
        }
        self.proceed()
    }

    fn copy(&mut self) -> (action: Mend)
        requires
            (Repair { phase: Mending::RecordingOwn, ..*old(self) }).wf(),
        ensures
            final(self).fixed(*old(self)),
            final(self).work() == old(self).offer(old(self).work()).0,
            action == old(self).offer(old(self).work()).1,
            final(self).wf(),
    {
        if self.copy < self.copies.len() {
            self.phase = Mending::There;
            Mend::Verify { peer: self.copies[self.copy] }
        } else {
            self.proceed()
        }
    }

    fn held(&mut self) -> (action: Mend)
        requires
            (Repair { phase: Mending::RecordingOwn, ..*old(self) }).wf(),
        ensures
            final(self).fixed(*old(self)),
            final(self).work() == old(self).hold(old(self).work()).0,
            action == old(self).hold(old(self).work()).1,
            final(self).wf(),
    {
        self.copy = 0;
        if self.own {
            self.phase = Mending::RecordingOwn;
            Mend::Record { node: self.node }
        } else {
            self.copy()
        }
    }

    fn found(&mut self, found: Found) -> (action: Mend)
        requires
            old(self).wf(),
            old(self).phase == Mending::Next,
        ensures
            final(self).fixed(*old(self)),
            final(self).work() == old(self).examine(found).0,
            action == old(self).examine(found).1,
            final(self).wf(),
    {
        if let Some(previous) = &self.report.next_after {
            if !is_before(previous, &found.artifact) {
                return self.end(AccessError::InvalidRequest);
            }
        }
        if self.report.artifacts == u64::MAX {
            return self.end(AccessError::Capacity);
        }
        match found.content {
            None => {
                self.report.next_after = Some(found.artifact);
                self.report.artifacts = self.report.artifacts + 1;
                self.proceed()
            },
            Some(reference) => {
                if !same_16(&reference.domain, &self.scope.ledger.tenant) {
                    return self.end(AccessError::Unauthorized);
                }
                self.report.next_after = Some(found.artifact);
                self.report.artifacts = self.report.artifacts + 1;
                self.report.objects = self.report.objects + 1;
                self.artifact = found.artifact;
                self.reference = reference;
                self.transfer = object_transfer(&self.scope, &reference);
                self.phase = Mending::Here;
                Mend::VerifyHere
            },
        }
    }

    /// Take what came of the last step, and say what is done next.
    #[verifier::rlimit(80)]
    pub fn step(&mut self, event: Mended) -> (action: Mend)
        requires
            old(self).wf(),
        ensures
            final(self).fixed(*old(self)),
            final(self).work() == old(self).next(event).0,
            action == old(self).next(event).1,
            final(self).wf(),
    {
        let count: usize = self.copies.len();
        assert(self.copy <= count);
        match (self.phase, event) {
            (Mending::Next, Mended::Artifact(Ok(None))) => {
                self.report.complete = true;
                self.report.next_after = None;
                self.phase = Mending::Done;
                Mend::Finish(Ok(()))
            },
            (Mending::Next, Mended::Artifact(Ok(Some(found)))) => self.found(found),
            (Mending::Next, Mended::Artifact(Err(error))) => {
                if error == AccessError::SnapshotExpired {
                    self.phase = Mending::Done;
                    Mend::Finish(Ok(()))
                } else {
                    self.end(error)
                }
            },
            (Mending::Here, Mended::Answered(answer)) => {
                if is_durable(&answer, &self.reference, self.scope.policy_revision) {
                    self.report.verified = self.report.verified + 1;
                    self.held()
                } else {
                    self.source = 0;
                    self.asked = 0;
                    self.source()
                }
            },
            (Mending::Pulling, Mended::Pulled(true)) => {
                self.report.repaired = self.report.repaired + 1;
                self.held()
            },
            (Mending::Pulling, Mended::Pulled(false)) => self.source(),
            (Mending::RecordingOwn, Mended::Recorded(Ok(_))) => {
                self.copy = 0;
                self.copy()
            },
            (Mending::There, Mended::Answered(answer)) => {
                let peer: u64 = self.copies[self.copy];
                if is_durable(&answer, &self.reference, self.scope.policy_revision) {
                    self.phase = Mending::Recording;
                    Mend::Record { node: peer }
                } else {
                    self.phase = Mending::Pushing;
                    Mend::Push { peer }
                }
            },
            (Mending::Recording, Mended::Recorded(Ok(_))) => {
                self.copy = self.copy + 1;
                self.copy()
            },
            (Mending::Pushing, Mended::Pushed(given)) => {
                if given {
                    if self.report.pushed == u64::MAX {
                        return self.end(AccessError::Capacity);
                    }
                    self.report.pushed = self.report.pushed + 1;
                }
                self.copy = self.copy + 1;
                self.copy()
            },
            (_, Mended::Recorded(Err(error))) => self.end(error),
            _ => self.end(AccessError::InvalidRequest),
        }
    }
}

/// A repair that ends well accounts for every object it examined, within its
/// limit: each was verified here, repaired, or given up as unrecoverable.
pub proof fn every_object_is_accounted_for(repair: Repair, event: Mended)
    requires
        repair.wf(),
        repair.phase != Mending::Done,
        repair.next(event).1 == Mend::Finish(Ok(())),
    ensures
        balanced(repair.next(event).0.report, false),
        repair.next(event).0.report.objects <= repair.limit,
{
}

/// A repair says it is complete only when the artifacts came to their end;
/// otherwise it names where the walk resumes.
pub proof fn completeness_is_observed(repair: Repair, event: Mended)
    requires
        repair.wf(),
        repair.phase != Mending::Done,
        repair.next(event).0.report.complete,
    ensures
        event == Mended::Artifact(Ok(None)),
        repair.next(event).0.report.next_after is None,
{
}

/// A walk only goes forward: the artifact it resumes after never moves back.
pub proof fn a_walk_goes_forward(repair: Repair, event: Mended, previous: [u8; 16])
    requires
        repair.wf(),
        repair.report.next_after == Some(previous),
        !repair.next(event).0.report.complete,
    ensures
        repair.next(event).0.report.next_after matches Some(after) && (after == previous
            || id_before(previous, after, 0)),
{
}

/// A missing object is recopied under its own identity: whatever happens,
/// the object in turn changes only with the next artifact.
pub proof fn an_object_keeps_its_identity(repair: Repair, event: Mended)
    requires
        repair.phase != Mending::Next,
    ensures
        repair.next(event).0.reference == repair.reference,
        repair.next(event).0.artifact == repair.artifact,
{
}

} // verus!
