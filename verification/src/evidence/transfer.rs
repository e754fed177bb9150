//! How an object reaches the copies it is owed to: what is asked next, given
//! what was answered. The bytes travel outside; every decision is here.
use super::placement::EvidencePlacement;
use super::{object_transfer, root_request, transfer_id, transfer_of, CustodyObligation, ContentRef,
    CustodyReceipt, CustodyScope};
use super::{counts, receipt_counts};
use crate::access::AccessError;
use crate::hashing::cut;
use crate::nodes::{a_finite_set_is_listed, in_order, members};
use crate::operation::{Operation, Request};
use std::collections::BTreeSet;
use vstd::prelude::*;

verus! {

broadcast use vstd::std_specs::btree::group_btree_axioms;

/// What a copy is asked about an object.
#[derive(Debug, Clone, Copy, PartialEq, Eq, Structural)]
pub enum Ask {
    /// Whether it holds the object, its bytes read again.
    Verify,
    /// How the object is made up.
    Manifest,
    /// To take the object, under the manifest at hand.
    Open,
    /// For one chunk.
    ReadChunk { index: u32 },
    /// To take one chunk, with the bytes at hand.
    Chunk { index: u32 },
    /// To make what it took durable.
    Seal,
    /// To forget the transfer.
    Cancel,
}

/// What a copy answers about an object.
#[derive(Debug, Clone, Copy, PartialEq, Eq)]
pub enum Answer {
    Durable { content: ContentRef, policy_revision: u64 },
    Manifest { content: ContentRef },
    Opened { chunks: u32, next_missing: u32 },
    Chunk { index: u32 },
    /// Anything else it may say.
    Plain,
}

/// Why a message to a peer failed.
#[derive(Debug, Clone, Copy, PartialEq, Eq)]
pub enum PeerFailure {
    Busy,
    Rejected(AccessError),
    Lost,
}

/// What a failed message means to its sender: pressure, the peer's own
/// refusal, or an outcome nobody knows.
pub fn remote(failure: PeerFailure) -> (error: AccessError)
    ensures
        error == (match failure {
            PeerFailure::Busy => AccessError::Capacity,
            PeerFailure::Rejected(error) => error,
            PeerFailure::Lost => AccessError::OutcomeUnknown,
        }),
{
    match failure {
        PeerFailure::Busy => AccessError::Capacity,
        PeerFailure::Rejected(error) => error,
        PeerFailure::Lost => AccessError::OutcomeUnknown,
    }
}

/// The request a copy is asked by: the transfer's own id, under the scope's
/// ledger and route.
pub fn envelope(scope: &CustodyScope, transfer: &[u8; 16]) -> (request: Request)
    ensures
        request == (Request {
            ledger: scope.ledger,
            route_epoch: scope.route_epoch,
            request_epoch: 1,
            request_id: *transfer,
            operation: Operation::Custody,
        }),
{
    Request {
        ledger: scope.ledger,
        route_epoch: scope.route_epoch,
        request_epoch: 1,
        request_id: *transfer,
        operation: Operation::Custody,
    }
}

/// Whether an answer says that this very object is durable under this very
/// policy.
pub open spec fn durable(
    answer: Result<Answer, AccessError>,
    reference: ContentRef,
    revision: u64,
) -> bool {
    answer == Ok::<Answer, AccessError>(
        Answer::Durable { content: reference, policy_revision: revision },
    )
}

/// Whether an answer says that this very object is durable under this very
/// policy.
pub fn is_durable(
    answer: &Result<Answer, AccessError>,
    reference: &ContentRef,
    revision: u64,
) -> (yes: bool)
    ensures
        yes == durable(*answer, *reference, revision),
{
    match answer {
        Ok(Answer::Durable { content, policy_revision }) => content.same(reference)
            && *policy_revision == revision,
        _ => false,
    }
}

/// Nodes of a list other than one, in its order.
pub open spec fn others(list: Seq<u64>, node: u64) -> Seq<u64>
    decreases list.len(),
{
    if list.len() == 0 {
        Seq::empty()
    } else if list.last() == node {
        others(list.drop_last(), node)
    } else {
        others(list.drop_last(), node).push(list.last())
    }
}

/// Nodes of a list other than one, in its order.
pub fn without(list: &Vec<u64>, node: u64) -> (rest: Vec<u64>)
    ensures
        rest@ == others(list@, node),
{
    let mut rest: Vec<u64> = Vec::new();
    let mut i: usize = 0;
    assert(rest@ =~= others(list@.take(0), node));
    while i < list.len()
        invariant
            i <= list.len(),
            rest@ == others(list@.take(i as int), node),
        decreases list.len() - i,
    {
        assert(list@.take(i + 1).drop_last() =~= list@.take(i as int));
        if list[i] != node {
            rest.push(list[i]);
        }
        i += 1;
    }
    assert(list@.take(list@.len() as int) =~= list@);
    rest
}

/// What `others` keeps: exactly the nodes that are not the one left out.
pub proof fn others_keeps_the_rest(list: Seq<u64>, node: u64, n: u64)
    ensures
        others(list, node).contains(n) <==> list.contains(n) && n != node,
    decreases list.len(),
{
    if list.len() > 0 {
        let front = list.drop_last();
        others_keeps_the_rest(front, node, n);
        let kept = others(front, node);
        if list.contains(n) {
            let k = choose|k: int| 0 <= k < list.len() && list[k] == n;
            if k < front.len() {
                assert(front[k] == n);
            }
        }
        if front.contains(n) {
            let k = choose|k: int| 0 <= k < front.len() && front[k] == n;
            assert(list[k] == n);
        }
        assert(list[list.len() - 1] == list.last());
        if list.last() != node {
            assert(kept.push(list.last())[kept.len() as int] == list.last());
            if kept.contains(n) {
                let k = choose|k: int| 0 <= k < kept.len() && kept[k] == n;
                assert(kept.push(list.last())[k] == n);
            }
            if kept.push(list.last()).contains(n) {
                let k = choose|k: int|
                    0 <= k < kept.push(list.last()).len() && kept.push(list.last())[k] == n;
                if k < kept.len() {
                    assert(kept[k] == n);
                }
            }
        }
    }
}

/// How far one object's distribution has come.
#[derive(Debug, Clone, Copy, PartialEq, Eq, Structural)]
pub enum Giving {
    /// This node's manifest is read.
    Exporting,
    /// This node's own receipt is recorded.
    RecordingOwn,
    /// The copy is asked whether it holds the object already.
    Verifying,
    /// The receipt of a copy that held the object is recorded.
    RecordingHeld,
    Opening,
    Reading { index: u32, chunks: u32 },
    Sending { index: u32, chunks: u32 },
    Sealing,
    /// The receipt of a copy that took the object is recorded.
    RecordingSealed,
    Cancelling,
    Done,
}

/// What is done next for an object's distribution.
#[derive(Debug, Clone, Copy, PartialEq, Eq)]
pub enum Give {
    /// Read this node's manifest of the object.
    Export,
    /// Record a copy's receipt.
    Record { node: u64 },
    /// Ask a copy.
    Ask { peer: u64, ask: Ask },
    /// Read one chunk from this node's store.
    Read { index: u32 },
    /// Nothing more: this is what it came to.
    Finish(Result<(), AccessError>),
}

/// What came of the last step.
#[derive(Debug, Clone, Copy, PartialEq, Eq)]
pub enum Given {
    /// The manifest, and its number of chunks.
    Exported(Result<usize, AccessError>),
    Recorded(Result<(), AccessError>),
    Answered(Result<Answer, AccessError>),
    /// A chunk was read.
    Read(Result<(), AccessError>),
}

/// A copy to be given an object, and whether the residency boundary admits
/// it.
#[derive(Debug, Clone, Copy, PartialEq, Eq, Structural)]
pub struct Target {
    pub node: u64,
    pub admitted: bool,
}

/// The distribution of one object from this node to other copies, one after
/// the other: each is given what it lacks and its durable answer is recorded
/// as its receipt.
#[derive(Debug, Clone, PartialEq, Eq)]
pub struct Distribution {
    pub scope: CustodyScope,
    pub transfer: [u8; 16],
    pub reference: ContentRef,
    /// This node, where it is a required copy itself.
    pub own: Option<u64>,
    pub targets: Vec<Target>,
    /// Whether a copy is asked first if it holds the object already.
    pub verify: bool,
    /// The chunks of this node's manifest.
    pub chunks: usize,
    /// The targets done with.
    pub at: usize,
    /// The receipts of targets recorded.
    pub recorded: usize,
    pub phase: Giving,
}

/// Where a distribution goes next, and what is done for it.
pub struct GiveStep {
    pub phase: Giving,
    pub at: int,
    pub recorded: int,
    pub chunks: usize,
    pub action: Give,
}

impl Distribution {
    /// What holds at every step: each target done with has its receipt
    /// recorded.
    pub open spec fn wf(self) -> bool {
        &&& self.at <= self.targets@.len()
        &&& match self.phase {
            Giving::Exporting | Giving::RecordingOwn => self.at == 0 && self.recorded == 0,
            Giving::Cancelling => self.at < self.targets@.len() && self.recorded == self.at + 1,
            Giving::Done => true,
            Giving::Reading { index, chunks } => self.at < self.targets@.len() && self.recorded
                == self.at && index < chunks,
            Giving::Sending { index, chunks } => self.at < self.targets@.len() && self.recorded
                == self.at && index < chunks,
            _ => self.at < self.targets@.len() && self.recorded == self.at,
        }
    }

    /// The step that starts target `at`, with `recorded` receipts recorded:
    /// a copy outside the residency boundary ends the distribution.
    pub open spec fn turn(self, at: int, recorded: int, chunks: usize) -> GiveStep {
        if at >= self.targets@.len() {
            GiveStep {
                phase: Giving::Done,
                at,
                recorded,
                chunks,
                action: Give::Finish(Ok(())),
            }
        } else if !self.targets@[at].admitted {
            GiveStep {
                phase: Giving::Done,
                at,
                recorded,
                chunks,
                action: Give::Finish(Err(AccessError::Unauthorized)),
            }
        } else if self.verify {
            GiveStep {
                phase: Giving::Verifying,
                at,
                recorded,
                chunks,
                action: Give::Ask { peer: self.targets@[at].node, ask: Ask::Verify },
            }
        } else {
            GiveStep {
                phase: Giving::Opening,
                at,
                recorded,
                chunks,
                action: Give::Ask { peer: self.targets@[at].node, ask: Ask::Open },
            }
        }
    }

    /// The step to a phase of the same target.
    pub open spec fn to(self, phase: Giving, action: Give) -> GiveStep {
        GiveStep {
            phase,
            at: self.at as int,
            recorded: self.recorded as int,
            chunks: self.chunks,
            action,
        }
    }

    /// The step that ends the distribution in an error.
    pub open spec fn fail(self, error: AccessError) -> GiveStep {
        self.to(Giving::Done, Give::Finish(Err(error)))
    }

    /// The copy in turn.
    pub open spec fn peer(self) -> u64 {
        self.targets@[self.at as int].node
    }

    /// The step that sends the chunks from `index` on, then seals.
    pub open spec fn from_chunk(self, index: u32, chunks: u32) -> GiveStep {
        if index < chunks {
            self.to(Giving::Reading { index, chunks }, Give::Read { index })
        } else {
            self.to(Giving::Sealing, Give::Ask { peer: self.peer(), ask: Ask::Seal })
        }
    }

    /// What follows an event: an error ends the distribution wherever it
    /// comes, but for an answer to the first question and to the last
    /// message.
    pub open spec fn next(self, event: Given) -> GiveStep {
        match (self.phase, event) {
            (Giving::Exporting, Given::Exported(Ok(chunks))) => match self.own {
                Some(node) => GiveStep {
                    phase: Giving::RecordingOwn,
                    at: 0,
                    recorded: 0,
                    chunks,
                    action: Give::Record { node },
                },
                None => self.turn(0, 0, chunks),
            },
            (Giving::RecordingOwn, Given::Recorded(Ok(_))) => self.turn(0, 0, self.chunks),
            (Giving::Verifying, Given::Answered(answer)) => if durable(
                answer,
                self.reference,
                self.scope.policy_revision,
            ) {
                self.to(Giving::RecordingHeld, Give::Record { node: self.peer() })
            } else {
                self.to(Giving::Opening, Give::Ask { peer: self.peer(), ask: Ask::Open })
            },
            (Giving::RecordingHeld, Given::Recorded(Ok(_))) => self.turn(
                self.at + 1,
                self.recorded + 1,
                self.chunks,
            ),
            (Giving::Opening, Given::Answered(Ok(Answer::Opened { chunks, next_missing }))) => if chunks
                == self.chunks && next_missing <= chunks {
                self.from_chunk(next_missing, chunks)
            } else {
                self.fail(AccessError::InvalidRequest)
            },
            (Giving::Reading { index, chunks }, Given::Read(Ok(_))) => self.to(
                Giving::Sending { index, chunks },
                Give::Ask { peer: self.peer(), ask: Ask::Chunk { index } },
            ),
            (Giving::Sending { index, chunks }, Given::Answered(Ok(_))) => self.from_chunk(
                (index + 1) as u32,
                chunks,
            ),
            (Giving::Sealing, Given::Answered(Ok(answer))) => if durable(
                Ok(answer),
                self.reference,
                self.scope.policy_revision,
            ) {
                self.to(Giving::RecordingSealed, Give::Record { node: self.peer() })
            } else {
                self.fail(AccessError::InvalidRequest)
            },
            (Giving::RecordingSealed, Given::Recorded(Ok(_))) => GiveStep {
                phase: Giving::Cancelling,
                at: self.at as int,
                recorded: self.recorded + 1,
                chunks: self.chunks,
                action: Give::Ask { peer: self.peer(), ask: Ask::Cancel },
            },
            (Giving::Cancelling, Given::Answered(_)) => self.turn(
                self.at + 1,
                self.recorded as int,
                self.chunks,
            ),
            (_, Given::Exported(Err(error))) => self.fail(error),
            (_, Given::Recorded(Err(error))) => self.fail(error),
            (_, Given::Answered(Err(error))) => self.fail(error),
            (_, Given::Read(Err(error))) => self.fail(error),
            _ => self.fail(AccessError::InvalidRequest),
        }
    }

    /// Whether a step was taken.
    pub open spec fn took(self, step: GiveStep, after: Self, action: Give) -> bool {
        after.scope == self.scope && after.transfer == self.transfer && after.reference
            == self.reference && after.own == self.own && after.targets@ == self.targets@
            && after.verify == self.verify && after.chunks == step.chunks && after.at == step.at
            && after.recorded == step.recorded && after.phase == step.phase && action == step.action
    }

    /// Whether an object is to be given, from its beginning, to every other
    /// required copy of a placement, for a request.
    pub open spec fn gives(
        self,
        placement: EvidencePlacement,
        node: u64,
        request: [u8; 16],
        reference: ContentRef,
    ) -> bool {
        &&& self.wf()
        &&& self.phase == Giving::Exporting
        &&& self.scope == placement.scope
        &&& self.transfer == transfer_of(placement.scope, request, reference.root)
        &&& self.reference == reference
        &&& self.verify
        &&& self.own == (if placement.copies@.contains(node) {
            Some(node)
        } else {
            None::<u64>
        })
        &&& self.targets@ == others(in_order(placement.copies@), node).map_values(
            |n: u64| Target { node: n, admitted: placement.fence.allows(n) },
        )
    }

    /// Distribute an object to every other required copy of a placement,
    /// for a request.
    pub fn replicate(
        placement: &EvidencePlacement,
        node: u64,
        request: &[u8; 16],
        reference: &ContentRef,
    ) -> (distribution: Self)
        ensures
            distribution.gives(*placement, node, *request, *reference),
    {
        let list = without(&members(&placement.copies), node);
        let mut targets: Vec<Target> = Vec::new();
        let mut i: usize = 0;
        while i < list.len()
            invariant
                i <= list.len(),
                targets@ == list@.take(i as int).map_values(
                    |n: u64| Target { node: n, admitted: placement.fence.allows(n) },
                ),
            decreases list.len() - i,
        {
            targets.push(Target { node: list[i], admitted: placement.fence.admits(list[i]) });
            i += 1;
            assert(targets@ =~= list@.take(i as int).map_values(
                |n: u64| Target { node: n, admitted: placement.fence.allows(n) },
            ));
        }
        assert(list@.take(list@.len() as int) =~= list@);
        let own: Option<u64> = if placement.copies.contains(&node) {
            Some(node)
        } else {
            None
        };
        Distribution {
            scope: placement.scope,
            transfer: transfer_id(&placement.scope, request, reference),
            reference: *reference,
            own,
            targets,
            verify: true,
            chunks: 0,
            at: 0,
            recorded: 0,
            phase: Giving::Exporting,
        }
    }

    /// Distribute a sealed archive bundle to every other required copy: it
    /// names itself by its content.
    pub fn archive(placement: &EvidencePlacement, node: u64, reference: &ContentRef) -> (distribution:
        Self)
        ensures
            distribution.gives(*placement, node, root_request(*reference), *reference),
    {
        let request = cut(&reference.root);
        Distribution::replicate(placement, node, &request, reference)
    }

    /// Give one copy an object this node holds.
    pub fn push(
        scope: &CustodyScope,
        transfer: &[u8; 16],
        peer: u64,
        reference: &ContentRef,
    ) -> (distribution: Self)
        ensures
            distribution.wf(),
            distribution.phase == Giving::Exporting,
            distribution.scope == *scope,
            distribution.transfer == *transfer,
            distribution.reference == *reference,
            !distribution.verify,
            distribution.own is None,
            distribution.targets@ == seq![Target { node: peer, admitted: true }],
    {
        let mut targets: Vec<Target> = Vec::new();
        targets.push(Target { node: peer, admitted: true });
        assert(targets@ =~= seq![Target { node: peer, admitted: true }]);
        Distribution {
            scope: *scope,
            transfer: *transfer,
            reference: *reference,
            own: None,
            targets,
            verify: false,
            chunks: 0,
            at: 0,
            recorded: 0,
            phase: Giving::Exporting,
        }
    }

    fn begin(&mut self) -> (action: Give)
        requires
            old(self).at <= old(self).targets@.len(),
            old(self).recorded == old(self).at,
        ensures
            old(self).took(
                old(self).turn(old(self).at as int, old(self).recorded as int, old(self).chunks),
                *final(self),
                action,
            ),
            final(self).wf(),
    {
        if self.at >= self.targets.len() {
            self.phase = Giving::Done;
            return Give::Finish(Ok(()));
        }
        let target = self.targets[self.at];
        if !target.admitted {
            self.phase = Giving::Done;
            return Give::Finish(Err(AccessError::Unauthorized));
        }
        if self.verify {
            self.phase = Giving::Verifying;
            Give::Ask { peer: target.node, ask: Ask::Verify }
        } else {
            self.phase = Giving::Opening;
            Give::Ask { peer: target.node, ask: Ask::Open }
        }
    }

    fn end(&mut self, error: AccessError) -> (action: Give)
        requires
            old(self).wf(),
        ensures
            old(self).took(old(self).fail(error), *final(self), action),
            final(self).wf(),
    {
        self.phase = Giving::Done;
        Give::Finish(Err(error))
    }

    fn chunk(&mut self, index: u32, chunks: u32) -> (action: Give)
        requires
            old(self).at < old(self).targets@.len(),
            old(self).recorded == old(self).at,
        ensures
            old(self).took(old(self).from_chunk(index, chunks), *final(self), action),
            final(self).wf(),
    {
        if index < chunks {
            self.phase = Giving::Reading { index, chunks };
            Give::Read { index }
        } else {
            self.phase = Giving::Sealing;
            Give::Ask { peer: self.targets[self.at].node, ask: Ask::Seal }
        }
    }

    /// Take what came of the last step, and say what is done next.
    #[verifier::rlimit(80)]
    pub fn step(&mut self, event: Given) -> (action: Give)
        requires
            old(self).wf(),
        ensures
            old(self).took(old(self).next(event), *final(self), action),
            final(self).wf(),
    {
        let count: usize = self.targets.len();
        assert(self.at <= count);
        match (self.phase, event) {
            (Giving::Exporting, Given::Exported(Ok(chunks))) => {
                self.chunks = chunks;
                match self.own {
                    Some(node) => {
                        self.phase = Giving::RecordingOwn;
                        Give::Record { node }
                    },
                    None => self.begin(),
                }
            },
            (Giving::RecordingOwn, Given::Recorded(Ok(_))) => self.begin(),
            (Giving::Verifying, Given::Answered(answer)) => {
                let peer: u64 = self.targets[self.at].node;
                if is_durable(&answer, &self.reference, self.scope.policy_revision) {
                    self.phase = Giving::RecordingHeld;
                    Give::Record { node: peer }
                } else {
                    self.phase = Giving::Opening;
                    Give::Ask { peer, ask: Ask::Open }
                }
            },
            (Giving::RecordingHeld, Given::Recorded(Ok(_))) => {
                self.at = self.at + 1;
                self.recorded = self.recorded + 1;
                self.begin()
            },
            (Giving::Opening, Given::Answered(Ok(Answer::Opened { chunks, next_missing }))) => {
                if chunks as usize == self.chunks && next_missing <= chunks {
                    self.chunk(next_missing, chunks)
                } else {
                    self.end(AccessError::InvalidRequest)
                }
            },
            (Giving::Reading { index, chunks }, Given::Read(Ok(_))) => {
                self.phase = Giving::Sending { index, chunks };
                Give::Ask { peer: self.targets[self.at].node, ask: Ask::Chunk { index } }
            },
            (Giving::Sending { index, chunks }, Given::Answered(Ok(_))) => {
                self.chunk(index + 1, chunks)
            },
            (Giving::Sealing, Given::Answered(Ok(answer))) => {
                if is_durable(&Ok(answer), &self.reference, self.scope.policy_revision) {
                    self.phase = Giving::RecordingSealed;
                    Give::Record { node: self.targets[self.at].node }
                } else {
                    self.end(AccessError::InvalidRequest)
                }
            },
            (Giving::RecordingSealed, Given::Recorded(Ok(_))) => {
                self.recorded = self.recorded + 1;
                self.phase = Giving::Cancelling;
                Give::Ask { peer: self.targets[self.at].node, ask: Ask::Cancel }
            },
            (Giving::Cancelling, Given::Answered(_)) => {
                self.at = self.at + 1;
                self.begin()
            },
            (_, Given::Exported(Err(error))) => self.end(error),
            (_, Given::Recorded(Err(error))) => self.end(error),
            (_, Given::Answered(Err(error))) => self.end(error),
            (_, Given::Read(Err(error))) => self.end(error),
            _ => self.end(AccessError::InvalidRequest),
        }
    }
}

/// A distribution succeeds only when every copy it owes has its receipt
/// recorded.
pub proof fn success_means_every_copy(d: Distribution, event: Given)
    requires
        d.wf(),
        d.phase != Giving::Done,
        d.next(event).action == Give::Finish(Ok(())),
    ensures
        d.next(event).recorded == d.targets@.len(),
{
}

/// A copy's receipt is recorded only on its answer that this very object is
/// durable under this very policy; this node's own on its own manifest.
pub proof fn a_receipt_follows_a_durable_answer(d: Distribution, event: Given, node: u64)
    requires
        d.wf(),
        d.next(event).action == (Give::Record { node }),
    ensures
        event is Exported && d.own == Some(node) || (event matches Given::Answered(answer)
            && durable(answer, d.reference, d.scope.policy_revision) && node == d.peer()),
{
}

/// No byte moves to a copy outside the residency boundary: it is never asked
/// anything.
pub proof fn a_fenced_copy_is_never_asked(d: Distribution, event: Given, peer: u64, ask: Ask)
    requires
        d.wf(),
        d.phase == Giving::Exporting || d.phase == Giving::RecordingOwn || d.phase
            == Giving::RecordingHeld || d.phase == Giving::Cancelling,
        d.next(event).action == (Give::Ask { peer, ask }),
    ensures
        d.targets@[d.next(event).at].admitted,
        d.targets@[d.next(event).at].node == peer,
{
}

/// How far the pull of one object has come.
#[derive(Debug, Clone, Copy, PartialEq, Eq)]
pub enum Taking {
    Describing,
    OpeningHere,
    /// The peer opens too, with what this node's opening came to.
    OpeningThere { opened: Option<(u32, u32)> },
    Reading { index: u32, chunks: u32 },
    Storing { index: u32, chunks: u32 },
    Sealing,
    CancellingHere,
    CancellingThere,
    Done,
}

/// What is done next for a pull.
#[derive(Debug, Clone, Copy, PartialEq, Eq)]
pub enum Take {
    /// Ask the peer.
    There(Ask),
    /// Ask this node's own store.
    Here(Ask),
    Finish(Result<(), AccessError>),
}

/// The pull of one object this node lacks from a peer, chunk by verified
/// chunk under the same object identity.
#[derive(Debug, Clone, Copy, PartialEq, Eq)]
pub struct Pull {
    pub scope: CustodyScope,
    pub transfer: [u8; 16],
    pub reference: ContentRef,
    pub phase: Taking,
}

/// Where a pull of chunks goes next.
pub open spec fn take_chunk(index: u32, chunks: u32) -> (Taking, Take) {
    if index < chunks {
        (Taking::Reading { index, chunks }, Take::There(Ask::ReadChunk { index }))
    } else {
        (Taking::Sealing, Take::Here(Ask::Seal))
    }
}

/// The end of a pull in an error.
pub open spec fn take_failed(error: AccessError) -> (Taking, Take) {
    (Taking::Done, Take::Finish(Err(error)))
}

impl Pull {
    /// A chunk in turn is one of the object's.
    pub open spec fn wf(self) -> bool {
        match self.phase {
            Taking::Reading { index, chunks } => index < chunks,
            Taking::Storing { index, chunks } => index < chunks,
            _ => true,
        }
    }

    /// What follows an answer.
    pub open spec fn next(self, answer: Result<Answer, AccessError>) -> (Taking, Take) {
        match (self.phase, answer) {
            (Taking::CancellingHere, _) => (Taking::CancellingThere, Take::There(Ask::Cancel)),
            (Taking::CancellingThere, _) => (Taking::Done, Take::Finish(Ok(()))),
            (_, Err(error)) => take_failed(error),
            (Taking::Describing, Ok(Answer::Manifest { content })) => if content == self.reference {
                (Taking::OpeningHere, Take::Here(Ask::Open))
            } else {
                take_failed(AccessError::InvalidRequest)
            },
            (Taking::OpeningHere, Ok(answer)) => (
                Taking::OpeningThere {
                    opened: match answer {
                        Answer::Opened { chunks, next_missing } => Some((chunks, next_missing)),
                        _ => None,
                    },
                },
                Take::There(Ask::Open),
            ),
            (Taking::OpeningThere { opened: Some((chunks, next_missing)) }, Ok(_)) => take_chunk(
                next_missing,
                chunks,
            ),
            (Taking::Reading { index, chunks }, Ok(Answer::Chunk { index: found })) => if index
                == found {
                (Taking::Storing { index, chunks }, Take::Here(Ask::Chunk { index }))
            } else {
                take_failed(AccessError::InvalidRequest)
            },
            (Taking::Storing { index, chunks }, Ok(_)) => take_chunk((index + 1) as u32, chunks),
            (Taking::Sealing, Ok(answer)) => if durable(
                Ok(answer),
                self.reference,
                self.scope.policy_revision,
            ) {
                (Taking::CancellingHere, Take::Here(Ask::Cancel))
            } else {
                take_failed(AccessError::InvalidRequest)
            },
            _ => take_failed(AccessError::InvalidRequest),
        }
    }

    /// Pull an object under a transfer; the peer is asked for its manifest
    /// first.
    pub fn start(scope: &CustodyScope, transfer: &[u8; 16], reference: &ContentRef) -> (pull: (
        Self,
        Take,
    ))
        ensures
            pull.0 == (Pull {
                scope: *scope,
                transfer: *transfer,
                reference: *reference,
                phase: Taking::Describing,
            }),
            pull.0.wf(),
            pull.1 == Take::There(Ask::Manifest),
    {
        (
            Pull {
                scope: *scope,
                transfer: *transfer,
                reference: *reference,
                phase: Taking::Describing,
            },
            Take::There(Ask::Manifest),
        )
    }

    /// Pull an object for nobody's request: what a fresh copy of a session
    /// does for the objects its retained delivery names.
    pub fn pull_object(scope: &CustodyScope, reference: &ContentRef) -> (pull: (Self, Take))
        ensures
            pull.0 == (Pull {
                scope: *scope,
                transfer: transfer_of(*scope, root_request(*reference), reference.root),
                reference: *reference,
                phase: Taking::Describing,
            }),
            pull.0.wf(),
            pull.1 == Take::There(Ask::Manifest),
    {
        let transfer = object_transfer(scope, reference);
        Pull::start(scope, &transfer, reference)
    }

    fn chunk(&mut self, index: u32, chunks: u32) -> (action: Take)
        ensures
            *final(self) == (Pull { phase: take_chunk(index, chunks).0, ..*old(self) }),
            action == take_chunk(index, chunks).1,
            final(self).wf(),
    {
        if index < chunks {
            self.phase = Taking::Reading { index, chunks };
            Take::There(Ask::ReadChunk { index })
        } else {
            self.phase = Taking::Sealing;
            Take::Here(Ask::Seal)
        }
    }

    fn end(&mut self, error: AccessError) -> (action: Take)
        ensures
            *final(self) == (Pull { phase: take_failed(error).0, ..*old(self) }),
            action == take_failed(error).1,
            final(self).wf(),
    {
        self.phase = Taking::Done;
        Take::Finish(Err(error))
    }

    /// Take an answer, and say what is done next.
    pub fn step(&mut self, answer: Result<Answer, AccessError>) -> (action: Take)
        requires
            old(self).wf(),
        ensures
            *final(self) == (Pull { phase: old(self).next(answer).0, ..*old(self) }),
            action == old(self).next(answer).1,
            final(self).wf(),
    {
        match (self.phase, answer) {
            (Taking::CancellingHere, _) => {
                self.phase = Taking::CancellingThere;
                Take::There(Ask::Cancel)
            },
            (Taking::CancellingThere, _) => {
                self.phase = Taking::Done;
                Take::Finish(Ok(()))
            },
            (_, Err(error)) => self.end(error),
            (Taking::Describing, Ok(Answer::Manifest { content })) => {
                if content.same(&self.reference) {
                    self.phase = Taking::OpeningHere;
                    Take::Here(Ask::Open)
                } else {
                    self.end(AccessError::InvalidRequest)
                }
            },
            (Taking::OpeningHere, Ok(answer)) => {
                let opened: Option<(u32, u32)> = match answer {
                    Answer::Opened { chunks, next_missing } => Some((chunks, next_missing)),
                    _ => None,
                };
                self.phase = Taking::OpeningThere { opened };
                Take::There(Ask::Open)
            },
            (Taking::OpeningThere { opened: Some((chunks, next_missing)) }, Ok(_)) => {
                self.chunk(next_missing, chunks)
            },
            (Taking::Reading { index, chunks }, Ok(Answer::Chunk { index: found })) => {
                if index == found {
                    self.phase = Taking::Storing { index, chunks };
                    Take::Here(Ask::Chunk { index })
                } else {
                    self.end(AccessError::InvalidRequest)
                }
            },
            (Taking::Storing { index, chunks }, Ok(_)) => self.chunk(index + 1, chunks),
            (Taking::Sealing, Ok(answer)) => {
                if is_durable(&Ok(answer), &self.reference, self.scope.policy_revision) {
                    self.phase = Taking::CancellingHere;
                    Take::Here(Ask::Cancel)
                } else {
                    self.end(AccessError::InvalidRequest)
                }
            },
            _ => self.end(AccessError::InvalidRequest),
        }
    }
}

/// A pull succeeds only after this node's own store sealed this very object
/// under this very policy.
pub proof fn a_pull_ends_durable(pull: Pull, answer: Result<Answer, AccessError>)
    ensures
        pull.next(answer).1 == Take::Finish(Ok(())) ==> pull.phase == Taking::CancellingThere,
        pull.next(answer).0 == Taking::CancellingThere ==> pull.phase == Taking::CancellingHere,
        pull.next(answer).0 == Taking::CancellingHere ==> pull.phase == Taking::Sealing && durable(
            answer,
            pull.reference,
            pull.scope.policy_revision,
        ),
{
}

/// Where this node finds an object it may lack: in its own store, else at
/// the first other copy that gives it, within the residency boundary.
#[derive(Debug, Clone, PartialEq, Eq)]
pub struct Search {
    /// The copies to ask, in order.
    pub sources: Vec<u64>,
    pub at: usize,
}

/// What is done next to find an object.
#[derive(Debug, Clone, Copy, PartialEq, Eq)]
pub enum Seek {
    /// Ask this node's own store.
    Verify,
    /// Pull it from a peer.
    Pull { peer: u64 },
    Finish(Result<(), AccessError>),
}

/// Nodes of a list a fence admits, in its order.
pub open spec fn admitted(list: Seq<u64>, placement: EvidencePlacement) -> Seq<u64>
    decreases list.len(),
{
    if list.len() == 0 {
        Seq::empty()
    } else if placement.fence.allows(list.last()) {
        admitted(list.drop_last(), placement).push(list.last())
    } else {
        admitted(list.drop_last(), placement)
    }
}

/// Nodes of a list a fence admits, in its order.
pub fn within(list: &Vec<u64>, placement: &EvidencePlacement) -> (rest: Vec<u64>)
    ensures
        rest@ == admitted(list@, *placement),
{
    let mut rest: Vec<u64> = Vec::new();
    let mut i: usize = 0;
    assert(rest@ =~= admitted(list@.take(0), *placement));
    while i < list.len()
        invariant
            i <= list.len(),
            rest@ == admitted(list@.take(i as int), *placement),
        decreases list.len() - i,
    {
        assert(list@.take(i + 1).drop_last() =~= list@.take(i as int));
        if placement.fence.admits(list[i]) {
            rest.push(list[i]);
        }
        i += 1;
    }
    assert(list@.take(list@.len() as int) =~= list@);
    rest
}

impl Search {
    /// Look for an object under a placement.
    pub fn ensure_local(placement: &EvidencePlacement, node: u64) -> (search: (Self, Seek))
        ensures
            search.0.at == 0,
            search.0.sources@ == admitted(others(in_order(placement.copies@), node), *placement),
            search.1 == Seek::Verify,
    {
        let list = without(&members(&placement.copies), node);
        (Search { sources: within(&list, placement), at: 0 }, Seek::Verify)
    }

    fn advance(&mut self) -> (action: Seek)
        ensures
            final(self).sources@ == old(self).sources@,
            if old(self).at < old(self).sources@.len() {
                final(self).at == old(self).at + 1 && action == (Seek::Pull {
                    peer: old(self).sources@[old(self).at as int],
                })
            } else {
                final(self).at == old(self).at && action == Seek::Finish(
                    Err(AccessError::Unavailable),
                )
            },
    {
        if self.at < self.sources.len() {
            let peer: u64 = self.sources[self.at];
            self.at = self.at + 1;
            Seek::Pull { peer }
        } else {
            Seek::Finish(Err(AccessError::Unavailable))
        }
    }

    /// Take the store's own answer.
    pub fn verified(&mut self, answer: &Result<Answer, AccessError>) -> (action: Seek)
        ensures
            final(self).sources@ == old(self).sources@,
            if answer matches Ok(Answer::Durable { .. }) {
                final(self).at == old(self).at && action == Seek::Finish(Ok(()))
            } else if old(self).at < old(self).sources@.len() {
                final(self).at == old(self).at + 1 && action == (Seek::Pull {
                    peer: old(self).sources@[old(self).at as int],
                })
            } else {
                final(self).at == old(self).at && action == Seek::Finish(
                    Err(AccessError::Unavailable),
                )
            },
    {
        match answer {
            Ok(Answer::Durable { .. }) => Seek::Finish(Ok(())),
            _ => self.advance(),
        }
    }

    /// Take what the last pull came to: the first that succeeds ends the
    /// search, the next copy is asked otherwise.
    pub fn pulled(&mut self, recovered: bool) -> (action: Seek)
        ensures
            final(self).sources@ == old(self).sources@,
            if recovered {
                final(self).at == old(self).at && action == Seek::Finish(Ok(()))
            } else if old(self).at < old(self).sources@.len() {
                final(self).at == old(self).at + 1 && action == (Seek::Pull {
                    peer: old(self).sources@[old(self).at as int],
                })
            } else {
                final(self).at == old(self).at && action == Seek::Finish(
                    Err(AccessError::Unavailable),
                )
            },
    {
        if recovered {
            Seek::Finish(Ok(()))
        } else {
            self.advance()
        }
    }
}

/// How far the reading of an object's custody has come.
#[derive(Debug, Clone, Copy, PartialEq, Eq, Structural)]
pub enum Counting {
    /// The copy's receipt is looked up.
    Receipt,
    /// The copy is asked to verify the object.
    Asking,
    /// The copy's answer is recorded.
    Recording,
    Done,
}

/// What is done next to read an object's custody.
#[derive(Debug, PartialEq, Eq)]
pub enum Count {
    /// Look up a copy's receipt.
    Receipt { node: u64 },
    /// Read this node's own manifest of the object.
    Export,
    /// Ask a copy to verify the object.
    Verify { peer: u64 },
    /// Record a copy's receipt.
    Record { node: u64 },
    Finish(Result<CustodyObligation, AccessError>),
}

/// What came of the last step.
#[derive(Debug, Clone, Copy, PartialEq, Eq)]
pub enum Counted {
    Receipt(Result<Option<CustodyReceipt>, AccessError>),
    /// Whether this node's own store exported the object.
    Exported(bool),
    Answered(Result<Answer, AccessError>),
    Recorded(Result<(), AccessError>),
}

/// The reading of an object's custody: a receipt at the current scope
/// counts; a copy without one is asked now, and its durable answer is
/// recorded as its receipt. A copy that cannot answer is simply not held;
/// nothing is ever inferred from a request or an intent.
#[derive(Debug, Clone, PartialEq, Eq)]
pub struct Custody {
    pub scope: CustodyScope,
    pub reference: ContentRef,
    pub transfer: [u8; 16],
    pub node: u64,
    pub required: BTreeSet<u64>,
    /// The copies to read, in order: the required ones within the residency
    /// boundary.
    pub copies: Vec<u64>,
    pub at: usize,
    pub held: BTreeSet<u64>,
    pub phase: Counting,
}

impl Custody {
    /// A copy held is a required one whose turn has been.
    pub open spec fn wf(self) -> bool {
        &&& self.at <= self.copies@.len()
        &&& self.phase != Counting::Done ==> self.at < self.copies@.len()
        &&& forall|n: u64|
            self.held@.contains(n) ==> exists|i: int| 0 <= i < self.at && self.copies@[i] == n
    }

    /// What does not change while custody is read.
    pub open spec fn fixed(self, other: Self) -> bool {
        self.scope == other.scope && self.reference == other.reference && self.transfer
            == other.transfer && self.node == other.node && self.required@ == other.required@
            && self.copies@ == other.copies@
    }

    /// The copy in turn.
    pub open spec fn peer(self) -> u64 {
        self.copies@[self.at as int]
    }

    /// Whether the copy after `at` is looked up next, or the reading ends in
    /// what is held.
    pub open spec fn turned(self, at: int, held: Set<u64>, after: Self, action: Count) -> bool {
        &&& after.fixed(self)
        &&& after.at == at
        &&& after.held@ == held
        &&& if at < self.copies@.len() {
            after.phase == Counting::Receipt && action == (Count::Receipt {
                node: self.copies@[at],
            })
        } else {
            after.phase == Counting::Done && (action matches Count::Finish(Ok(obligation))
                && obligation.scope == self.scope && obligation.required@ == self.required@
                && obligation.held@ == held)
        }
    }

    /// Whether the reading ended in an error.
    pub open spec fn failed(self, error: AccessError, after: Self, action: Count) -> bool {
        after.fixed(self) && after.at == self.at && after.held@ == self.held@ && after.phase
            == Counting::Done && action == Count::Finish(Err(error))
    }

    /// Whether the same copy is asked on, in another phase.
    pub open spec fn stays(self, phase: Counting, after: Self) -> bool {
        after.fixed(self) && after.at == self.at && after.held@ == self.held@ && after.phase
            == phase
    }

    /// Whether an event led where it must.
    pub open spec fn follows(self, event: Counted, after: Self, action: Count) -> bool {
        match (self.phase, event) {
            (_, Counted::Receipt(Err(error))) => self.failed(error, after, action),
            (_, Counted::Recorded(Err(error))) => self.failed(error, after, action),
            (Counting::Receipt, Counted::Receipt(Ok(receipt))) => if receipt matches Some(receipt)
                && counts(receipt, self.scope, self.reference.length) {
                self.turned(self.at + 1, self.held@.insert(self.peer()), after, action)
            } else if self.peer() == self.node {
                self.stays(Counting::Asking, after) && action == Count::Export
            } else {
                self.stays(Counting::Asking, after) && action == (Count::Verify {
                    peer: self.peer(),
                })
            },
            (Counting::Asking, Counted::Exported(yes)) => if yes {
                self.stays(Counting::Recording, after) && action == (Count::Record {
                    node: self.peer(),
                })
            } else {
                self.turned(self.at + 1, self.held@, after, action)
            },
            (Counting::Asking, Counted::Answered(answer)) => if durable(
                answer,
                self.reference,
                self.scope.policy_revision,
            ) {
                self.stays(Counting::Recording, after) && action == (Count::Record {
                    node: self.peer(),
                })
            } else {
                self.turned(self.at + 1, self.held@, after, action)
            },
            (Counting::Recording, Counted::Recorded(Ok(_))) => self.turned(
                self.at + 1,
                self.held@.insert(self.peer()),
                after,
                action,
            ),
            _ => self.failed(AccessError::InvalidRequest, after, action),
        }
    }

    fn turn(&mut self) -> (action: Count)
        requires
            old(self).at <= old(self).copies@.len(),
            forall|n: u64|
                old(self).held@.contains(n) ==> exists|i: int|
                    0 <= i < old(self).at && old(self).copies@[i] == n,
        ensures
            old(self).turned(old(self).at as int, old(self).held@, *final(self), action),
            final(self).wf(),
    {
        if self.at < self.copies.len() {
            self.phase = Counting::Receipt;
            Count::Receipt { node: self.copies[self.at] }
        } else {
            self.phase = Counting::Done;
            Count::Finish(
                Ok(
                    CustodyObligation {
                        scope: self.scope,
                        required: self.required.clone(),
                        held: self.held.clone(),
                    },
                ),
            )
        }
    }

    fn advance(&mut self, holds: bool) -> (action: Count)
        requires
            old(self).wf(),
            old(self).at < old(self).copies@.len(),
        ensures
            old(self).turned(
                old(self).at + 1,
                if holds {
                    old(self).held@.insert(old(self).peer())
                } else {
                    old(self).held@
                },
                *final(self),
                action,
            ),
            final(self).wf(),
    {
        if holds {
            let peer: u64 = self.copies[self.at];
            self.held.insert(peer);
        }
        let count: usize = self.copies.len();
        assert(self.at < count);
        self.at = self.at + 1;
        assert forall|n: u64| self.held@.contains(n) implies exists|i: int|
            0 <= i < self.at && self.copies@[i] == n by {
            if old(self).held@.contains(n) {
                let i = choose|i: int| 0 <= i < old(self).at && old(self).copies@[i] == n;
                assert(self.copies@[i] == n);
            } else {
                assert(self.copies@[self.at - 1] == n);
            }
        }
        self.turn()
    }

    fn end(&mut self, error: AccessError) -> (action: Count)
        requires
            old(self).wf(),
        ensures
            old(self).failed(error, *final(self), action),
            final(self).wf(),
    {
        self.phase = Counting::Done;
        Count::Finish(Err(error))
    }

    /// Read an object's custody under a placement.
    pub fn obligation(placement: &EvidencePlacement, node: u64, reference: &ContentRef) -> (custody:
        (Self, Count))
        ensures
            custody.0.wf(),
            custody.0.scope == placement.scope,
            custody.0.reference == *reference,
            custody.0.transfer == transfer_of(
                placement.scope,
                root_request(*reference),
                reference.root,
            ),
            custody.0.node == node,
            custody.0.required@ == placement.copies@,
            custody.0.copies@ == admitted(in_order(placement.copies@), *placement),
            custody.0.turned(0, Set::empty(), custody.0, custody.1),
    {
        let list = members(&placement.copies);
        let mut custody = Custody {
            scope: placement.scope,
            reference: *reference,
            transfer: object_transfer(&placement.scope, reference),
            node,
            required: placement.copies.clone(),
            copies: within(&list, placement),
            at: 0,
            held: BTreeSet::new(),
            phase: Counting::Receipt,
        };
        let action = custody.turn();
        (custody, action)
    }

    /// Take what came of the last step, and say what is done next.
    pub fn step(&mut self, event: Counted) -> (action: Count)
        requires
            old(self).wf(),
        ensures
            old(self).follows(event, *final(self), action),
            final(self).wf(),
    {
        match (self.phase, event) {
            (_, Counted::Receipt(Err(error))) => self.end(error),
            (_, Counted::Recorded(Err(error))) => self.end(error),
            (Counting::Receipt, Counted::Receipt(Ok(receipt))) => {
                let counted = match receipt {
                    Some(receipt) => receipt_counts(&receipt, &self.scope, self.reference.length),
                    None => false,
                };
                if counted {
                    return self.advance(true);
                }
                self.phase = Counting::Asking;
                let peer: u64 = self.copies[self.at];
                if peer == self.node {
                    Count::Export
                } else {
                    Count::Verify { peer }
                }
            },
            (Counting::Asking, Counted::Exported(yes)) => {
                if !yes {
                    return self.advance(false);
                }
                self.phase = Counting::Recording;
                Count::Record { node: self.copies[self.at] }
            },
            (Counting::Asking, Counted::Answered(answer)) => {
                if !is_durable(&answer, &self.reference, self.scope.policy_revision) {
                    return self.advance(false);
                }
                self.phase = Counting::Recording;
                Count::Record { node: self.copies[self.at] }
            },
            (Counting::Recording, Counted::Recorded(Ok(_))) => self.advance(true),
            _ => self.end(AccessError::InvalidRequest),
        }
    }
}

proof fn lemma_admitted(list: Seq<u64>, placement: EvidencePlacement, n: u64)
    requires
        admitted(list, placement).contains(n),
    ensures
        list.contains(n),
        placement.fence.allows(n),
    decreases list.len(),
{
    let kept = admitted(list, placement);
    let k = choose|k: int| 0 <= k < kept.len() && kept[k] == n;
    assert(list.len() > 0);
    let front = list.drop_last();
    if placement.fence.allows(list.last()) && k == kept.len() - 1 {
        assert(list[list.len() - 1] == n);
    } else {
        assert(admitted(front, placement)[k] == n);
        lemma_admitted(front, placement, n);
        let j = choose|j: int| 0 <= j < front.len() && front[j] == n;
        assert(list[j] == n);
    }
}

/// What is held is required: a copy counts only where the placement requires
/// it and the residency boundary admits it.
pub proof fn what_is_held_is_required(custody: Custody, placement: EvidencePlacement, n: u64)
    requires
        custody.wf(),
        custody.copies@ == admitted(in_order(placement.copies@), placement),
        placement.copies@.finite(),
        custody.held@.contains(n),
    ensures
        placement.copies@.contains(n),
        placement.fence.allows(n),
{
    a_finite_set_is_listed(placement.copies@);
    let i = choose|i: int| 0 <= i < custody.at && custody.copies@[i] == n;
    assert(admitted(in_order(placement.copies@), placement).contains(n));
    lemma_admitted(in_order(placement.copies@), placement, n);
}

} // verus!
