//! What the transfers, the custody and the repair of evidence promise over
//! whole conversations: which copy is asked what, in which order, and what an
//! answer changes.
use super::placement::EvidencePlacement;
use super::repair::{
    sources_of, walks, Found, Mend, Mended, Mending, Prefix, Repair, UnrecoverableObject,
};
use super::transfer::{
    admitted, others, Answer, Ask, Count, Counted, Counting, Custody, Distribution, Give, Given,
    Giving, Pull, Take, Taking, Target,
};
use super::{ContentRef, CustodyReceipt, CustodyScope};
use crate::access::AccessError;
use crate::ids::id_before;
use crate::nodes::{a_finite_set_is_listed, ascending, in_order};
use vstd::prelude::*;

verus! {

/// Leaving one node out of a list keeps every other, in its order.
pub proof fn leaving_one_out_keeps_the_order(list: Seq<u64>, node: u64)
    ensures
        others(list, node) == list.filter(|n: u64| n != node),
    decreases list.len(),
{
    reveal(Seq::filter);
    if list.len() > 0 {
        leaving_one_out_keeps_the_order(list.drop_last(), node);
    }
}

/// A boundary keeps exactly the nodes it is open to, in their order.
pub proof fn a_boundary_keeps_what_it_admits(list: Seq<u64>, placement: EvidencePlacement)
    ensures
        admitted(list, placement) == list.filter(
            |n: u64| placement.fence.open || placement.fence.admitted@.contains(n),
        ),
    decreases list.len(),
{
    reveal(Seq::filter);
    if list.len() > 0 {
        a_boundary_keeps_what_it_admits(list.drop_last(), placement);
    }
}

/// A missing object is asked of every other node of the list that the boundary
/// admits, of each once.
pub proof fn a_missing_object_is_asked_of_each_once(
    list: Seq<u64>,
    node: u64,
    placement: EvidencePlacement,
    n: u64,
)
    ensures
        sources_of(list, node, placement).no_duplicates(),
        sources_of(list, node, placement).contains(n) <==> list.contains(n) && n != node && (
        placement.fence.open || placement.fence.admitted@.contains(n)),
    decreases list.len(),
{
    let all = sources_of(list, node, placement);
    if list.len() > 0 {
        let front = list.drop_last();
        let before = sources_of(front, node, placement);
        a_missing_object_is_asked_of_each_once(front, node, placement, n);
        a_missing_object_is_asked_of_each_once(front, node, placement, list.last());
        assert(list =~= front.push(list.last()));
        assert(list.contains(n) <==> front.contains(n) || n == list.last()) by {
            if list.contains(n) {
                let k = choose|k: int| 0 <= k < list.len() && list[k] == n;
                if k < front.len() {
                    assert(front[k] == n);
                }
            }
            if front.contains(n) {
                let k = choose|k: int| 0 <= k < front.len() && front[k] == n;
                assert(list[k] == n);
            }
            assert(list[list.len() - 1] == list.last());
        }
        if all != before {
            assert(all == before.push(list.last()));
            assert(all.contains(n) <==> before.contains(n) || n == list.last()) by {
                if all.contains(n) {
                    let k = choose|k: int| 0 <= k < all.len() && all[k] == n;
                    if k < before.len() {
                        assert(before[k] == n);
                    }
                }
                if before.contains(n) {
                    let k = choose|k: int| 0 <= k < before.len() && before[k] == n;
                    assert(all[k] == n);
                }
                assert(all[before.len() as int] == list.last());
            }
            assert forall|i: int, j: int|
                0 <= i < all.len() && 0 <= j < all.len() && i != j implies all[i] != all[j] by {
                if i < before.len() && j < before.len() {
                    assert(before[i] != before[j]);
                } else if i < before.len() {
                    assert(before.contains(before[i]));
                } else {
                    assert(before.contains(before[j]));
                }
            }
        }
    }
}

/// Nodes named first are asked first: what is asked of the front of a list
/// comes before what its rest adds.
pub proof fn nodes_named_first_are_asked_first(
    front: Seq<u64>,
    rest: Seq<u64>,
    node: u64,
    placement: EvidencePlacement,
)
    ensures
        sources_of(front, node, placement).is_prefix_of(
            sources_of(front + rest, node, placement),
        ),
    decreases rest.len(),
{
    if rest.len() == 0 {
        assert(front + rest =~= front);
    } else {
        nodes_named_first_are_asked_first(front, rest.drop_last(), node, placement);
        assert((front + rest).drop_last() =~= front + rest.drop_last());
    }
}

/// An object is given to every required copy but this node, each once and in
/// ascending order, and a copy is admitted exactly where the boundary is open
/// to it.
pub proof fn every_other_copy_is_given_the_object(
    d: Distribution,
    placement: EvidencePlacement,
    node: u64,
    request: [u8; 16],
    reference: ContentRef,
)
    requires
        d.gives(placement, node, request, reference),
        placement.copies@.finite(),
    ensures
        d.reference == reference,
        d.scope == placement.scope,
        d.verify,
        d.at == 0,
        d.recorded == 0,
        d.phase == Giving::Exporting,
        d.own == Some(node) <==> placement.copies@.contains(node),
        d.own matches Some(own) ==> own == node,
        forall|k: int|
            0 <= k < d.targets@.len() ==> {
                let target: Target = #[trigger] d.targets@[k];
                &&& placement.copies@.contains(target.node)
                &&& target.node != node
                &&& target.admitted == (placement.fence.open
                    || placement.fence.admitted@.contains(target.node))
            },
        forall|n: u64|
            placement.copies@.contains(n) && n != node ==> exists|k: int|
                0 <= k < d.targets@.len() && #[trigger] d.targets@[k].node == n,
        forall|j: int, k: int|
            0 <= j < k < d.targets@.len() ==> #[trigger] d.targets@[j].node
                < #[trigger] d.targets@[k].node,
{
    let list = in_order(placement.copies@);
    let rest = others(list, node);
    a_finite_set_is_listed(placement.copies@);
    assert(rest.len() == d.targets@.len());
    assert forall|k: int| 0 <= k < d.targets@.len() implies {
        let target: Target = #[trigger] d.targets@[k];
        &&& placement.copies@.contains(target.node)
        &&& target.node != node
        &&& target.admitted == (placement.fence.open || placement.fence.admitted@.contains(
            target.node,
        ))
    } by {
        assert(d.targets@[k].node == rest[k]);
        assert(rest.contains(rest[k]));
        super::transfer::others_keeps_the_rest(list, node, rest[k]);
    }
    assert forall|n: u64| placement.copies@.contains(n) && n != node implies exists|k: int|
        0 <= k < d.targets@.len() && #[trigger] d.targets@[k].node == n by {
        super::transfer::others_keeps_the_rest(list, node, n);
        let k = choose|k: int| 0 <= k < rest.len() && rest[k] == n;
        assert(d.targets@[k].node == n);
    }
    lemma_others_ascend(list, node);
    assert forall|j: int, k: int| 0 <= j < k < d.targets@.len() implies #[trigger] d.targets@[j].node
        < #[trigger] d.targets@[k].node by {
        assert(rest[j] < rest[k]);
    }
}

proof fn lemma_others_ascend(list: Seq<u64>, node: u64)
    requires
        ascending(list),
    ensures
        ascending(others(list, node)),
    decreases list.len(),
{
    if list.len() > 0 {
        let front = list.drop_last();
        assert(ascending(front)) by {
            assert forall|i: int, j: int| 0 <= i < j < front.len() implies #[trigger] front[i]
                < #[trigger] front[j] by {
                assert(list[i] < list[j]);
            }
        }
        lemma_others_ascend(front, node);
        let before = others(front, node);
        assert forall|i: int| 0 <= i < before.len() implies #[trigger] before[i] < list.last() by {
            assert(before.contains(before[i]));
            super::transfer::others_keeps_the_rest(front, node, before[i]);
            let k = choose|k: int| 0 <= k < front.len() && front[k] == before[i];
            assert(list[k] < list[list.len() - 1]);
        }
    }
}

/// What is open between this node and the copy in turn is the question that
/// was asked last: every question goes to the copy in turn.
pub proof fn the_open_question_was_asked_of_the_copy_in_turn(d: Distribution, event: Given)
    requires
        d.wf(),
    ensures
        ({
            let after = d.next(event);
            match after.action {
                Give::Export => false,
                Give::Record { node } => match after.phase {
                    Giving::RecordingOwn => d.own == Some(node),
                    Giving::RecordingHeld | Giving::RecordingSealed => node
                        == d.targets@[after.at].node,
                    _ => false,
                },
                Give::Read { index } => after.phase matches Giving::Reading { index: i, .. } && i
                    == index,
                Give::Finish(_) => after.phase == Giving::Done,
                Give::Ask { peer, ask } => peer == d.targets@[after.at].node && (match ask {
                    Ask::Verify => after.phase == Giving::Verifying,
                    Ask::Open => after.phase == Giving::Opening,
                    Ask::Chunk { index } => after.phase matches Giving::Sending { index: i, .. }
                        && i == index,
                    Ask::Seal => after.phase == Giving::Sealing,
                    Ask::Cancel => after.phase == Giving::Cancelling,
                    _ => false,
                }),
            }
        }),
{
}

/// Copies are taken in turn: none is passed over, and one is left behind only
/// once its receipt was recorded.
pub proof fn copies_are_taken_in_turn(d: Distribution, event: Given)
    requires
        d.wf(),
    ensures
        d.next(event).at == d.at || (d.next(event).at == d.at + 1 && (d.phase
            == Giving::RecordingHeld && (event matches Given::Recorded(Ok(_))) || d.phase
            == Giving::Cancelling && event is Answered)),
        d.next(event).recorded == d.recorded || (d.next(event).recorded == d.recorded + 1 && (
        d.phase == Giving::RecordingHeld || d.phase == Giving::RecordingSealed) && (
        event matches Given::Recorded(Ok(_)))),
        d.phase == Giving::RecordingHeld && (event matches Given::Recorded(Ok(_))) ==> d.next(
            event,
        ).at == d.at + 1 && d.next(event).recorded == d.recorded + 1,
        d.phase == Giving::Cancelling && event is Answered ==> d.next(event).at == d.at + 1,
{
}

/// What opens a copy's turn: the first one's once this node has its manifest
/// and, where it is a copy itself, its own receipt; another's once the copy
/// before it is left behind.
pub open spec fn opens_a_turn(d: Distribution, event: Given, at: int) -> bool {
    match (d.phase, event) {
        (Giving::Exporting, Given::Exported(Ok(_))) => d.own is None && at == 0,
        (Giving::RecordingOwn, Given::Recorded(Ok(_))) => at == 0,
        (Giving::RecordingHeld, Given::Recorded(Ok(_))) => at == d.at + 1,
        (Giving::Cancelling, Given::Answered(_)) => at == d.at + 1,
        _ => false,
    }
}

/// Every copy within the boundary is asked in its turn: whether it holds the
/// object already, where that is asked at all, or to take it. One outside the
/// boundary ends the distribution unasked, and it succeeds behind the last.
pub proof fn every_copy_has_its_turn(d: Distribution, event: Given, at: int)
    requires
        d.wf(),
        opens_a_turn(d, event, at),
    ensures
        at < d.targets@.len() && d.targets@[at].admitted ==> d.next(event).action == (Give::Ask {
            peer: d.targets@[at].node,
            ask: if d.verify {
                Ask::Verify
            } else {
                Ask::Open
            },
        }) && d.next(event).at == at,
        at < d.targets@.len() && !d.targets@[at].admitted ==> d.next(event).action == Give::Finish(
            Err(AccessError::Unauthorized),
        ),
        at >= d.targets@.len() ==> d.next(event).action == Give::Finish(Ok(())),
{
}

/// A distribution succeeds only behind the last copy.
pub proof fn success_comes_behind_the_last_copy(d: Distribution, event: Given)
    requires
        d.wf(),
        d.next(event).action == Give::Finish(Ok(())),
    ensures
        opens_a_turn(d, event, d.targets@.len() as int),
{
}

/// The manifest comes first, and counts the chunks; where this node is a
/// required copy its own receipt follows at once.
pub proof fn the_manifest_comes_first(d: Distribution, chunks: usize, event: Given)
    requires
        d.wf(),
    ensures
        d.phase == Giving::Exporting ==> d.next(Given::Exported(Ok(chunks))).chunks == chunks,
        d.phase == Giving::Exporting && d.own is Some ==> d.next(
            Given::Exported(Ok(chunks)),
        ).action == (Give::Record { node: d.own->0 }),
        d.phase != Giving::Exporting ==> d.next(event).chunks == d.chunks,
{
}

/// A copy that says it holds this very object under this very policy is given
/// nothing: its receipt is recorded. Whatever else it says, it is asked to take
/// the object.
pub proof fn a_copy_that_holds_the_object_is_given_nothing(
    d: Distribution,
    answer: Result<Answer, AccessError>,
)
    requires
        d.wf(),
        d.phase == Giving::Verifying,
    ensures
        answer == Ok::<Answer, AccessError>(
            Answer::Durable { content: d.reference, policy_revision: d.scope.policy_revision },
        ) ==> d.next(Given::Answered(answer)).action == (Give::Record {
            node: d.targets@[d.at as int].node,
        }),
        answer != Ok::<Answer, AccessError>(
            Answer::Durable { content: d.reference, policy_revision: d.scope.policy_revision },
        ) ==> d.next(Given::Answered(answer)).action == (Give::Ask {
            peer: d.targets@[d.at as int].node,
            ask: Ask::Open,
        }),
{
}

/// A copy that opens is read and sent the first chunk it lacks, or sealed where
/// it lacks none; one that counts other chunks than the manifest, or lacks one
/// beyond them, is refused.
pub proof fn a_copy_is_sent_from_its_first_missing_chunk(
    d: Distribution,
    chunks: u32,
    next_missing: u32,
)
    requires
        d.wf(),
        d.phase == Giving::Opening,
    ensures
        ({
            let action = d.next(
                Given::Answered(Ok(Answer::Opened { chunks, next_missing })),
            ).action;
            &&& chunks == d.chunks && next_missing < chunks ==> action == (Give::Read {
                index: next_missing,
            })
            &&& chunks == d.chunks && next_missing == chunks ==> action == (Give::Ask {
                peer: d.targets@[d.at as int].node,
                ask: Ask::Seal,
            })
            &&& chunks != d.chunks || next_missing > chunks ==> action == Give::Finish(
                Err(AccessError::InvalidRequest),
            )
        }),
{
}

/// A chunk that was read is sent, and one that was taken is followed by the
/// next; behind the last the copy is asked to seal.
pub proof fn chunks_follow_one_another(d: Distribution, index: u32, chunks: u32, answer: Answer)
    requires
        d.wf(),
    ensures
        d.phase == (Giving::Reading { index, chunks }) ==> d.next(Given::Read(Ok(()))).action == (
        Give::Ask { peer: d.targets@[d.at as int].node, ask: Ask::Chunk { index } }),
        d.phase == (Giving::Sending { index, chunks }) && index + 1 < chunks ==> d.next(
            Given::Answered(Ok(answer)),
        ).action == (Give::Read { index: (index + 1) as u32 }),
        d.phase == (Giving::Sending { index, chunks }) && index + 1 == chunks ==> d.next(
            Given::Answered(Ok(answer)),
        ).action == (Give::Ask { peer: d.targets@[d.at as int].node, ask: Ask::Seal }),
        d.phase == (Giving::Reading { index, chunks }) ==> d.next(Given::Read(Ok(()))).phase == (
        Giving::Sending { index, chunks }),
        d.phase == (Giving::Sending { index, chunks }) && index + 1 < chunks ==> d.next(
            Given::Answered(Ok(answer)),
        ).phase == (Giving::Reading { index: (index + 1) as u32, chunks }),
{
}

/// A copy is asked to seal only when it lacks nothing any more.
pub proof fn a_copy_seals_when_it_lacks_nothing(d: Distribution, event: Given, peer: u64)
    requires
        d.wf(),
        d.next(event).action == (Give::Ask { peer, ask: Ask::Seal }),
    ensures
        (d.phase == Giving::Opening && (event matches Given::Answered(
            Ok(Answer::Opened { chunks, next_missing }),
        ) && next_missing == chunks && chunks == d.chunks)) || (
        d.phase matches Giving::Sending { index, chunks } && index + 1 == chunks && event
            matches Given::Answered(Ok(_))),
{
}

/// A sealed copy's receipt is recorded where it says that this very object is
/// durable under this very policy, and its transfer is forgotten behind it.
/// Anything else it says ends the distribution.
pub proof fn a_sealed_copy_is_recorded_then_forgotten(
    d: Distribution,
    answer: Result<Answer, AccessError>,
)
    requires
        d.wf(),
    ensures
        d.phase == Giving::Sealing ==> d.next(Given::Answered(answer)).action == (if answer
            == Ok::<Answer, AccessError>(
            Answer::Durable { content: d.reference, policy_revision: d.scope.policy_revision },
        ) {
            Give::Record { node: d.targets@[d.at as int].node }
        } else {
            Give::Finish(
                Err(
                    match answer {
                        Ok(_) => AccessError::InvalidRequest,
                        Err(error) => error,
                    },
                ),
            )
        }),
        d.phase == Giving::RecordingSealed ==> d.next(Given::Recorded(Ok(()))).action == (
        Give::Ask { peer: d.targets@[d.at as int].node, ask: Ask::Cancel }) && d.next(
            Given::Recorded(Ok(())),
        ).recorded == d.recorded + 1,
{
}

/// A failure ends the distribution with itself, but for what a copy says when
/// it is asked whether it holds the object and when it is told to forget.
pub proof fn a_failure_ends_the_distribution(d: Distribution, error: AccessError)
    requires
        d.wf(),
    ensures
        d.next(Given::Exported(Err(error))).action == Give::Finish(Err(error)),
        d.next(Given::Recorded(Err(error))).action == Give::Finish(Err(error)),
        d.next(Given::Read(Err(error))).action == Give::Finish(Err(error)),
        d.phase != Giving::Verifying && d.phase != Giving::Cancelling ==> d.next(
            Given::Answered(Err(error)),
        ).action == Give::Finish(Err(error)),
{
}

/// A distribution behind a step.
pub open spec fn gave(d: Distribution, event: Given) -> Distribution {
    let step = d.next(event);
    Distribution {
        phase: step.phase,
        at: step.at as usize,
        recorded: step.recorded as usize,
        chunks: step.chunks,
        ..d
    }
}

/// A distribution behind everything that came.
pub open spec fn gave_all(d: Distribution, events: Seq<Given>) -> Distribution
    decreases events.len(),
{
    if events.len() == 0 {
        d
    } else {
        gave(gave_all(d, events.drop_last()), events.last())
    }
}

/// What was done upon each event.
pub open spec fn done_for(d: Distribution, events: Seq<Given>, i: int) -> Give {
    gave_all(d, events.take(i)).next(events[i]).action
}

/// Whether a copy opened and then every chunk was read and taken, `k` in all.
pub open spec fn takes_chunks(events: Seq<Given>, chunks: u32, missing: u32, k: int) -> bool {
    &&& events.len() == 1 + 2 * k
    &&& events[0] == Given::Answered(Ok(Answer::Opened { chunks, next_missing: missing }))
    &&& forall|j: int|
        0 <= j < k ==> #[trigger] events[1 + 2 * j] == Given::Read(Ok(())) && (
        events[2 + 2 * j] matches Given::Answered(Ok(_)))
}

/// A copy is sent exactly the chunks it lacks, each once and in order, and is
/// asked to seal right behind the last: however many it lacks, the messages are
/// chunk `missing`, the one after it, and so on to the object's last.
pub proof fn a_copy_is_sent_every_chunk_it_lacks(
    d: Distribution,
    events: Seq<Given>,
    chunks: u32,
    missing: u32,
    k: int,
)
    requires
        d.wf(),
        d.phase == Giving::Opening,
        d.chunks == chunks,
        0 <= k,
        missing + k <= chunks,
        takes_chunks(events, chunks, missing, k),
    ensures
        forall|j: int|
            0 <= j < k ==> {
                &&& #[trigger] done_for(d, events, 1 + 2 * j) == (Give::Ask {
                    peer: d.targets@[d.at as int].node,
                    ask: Ask::Chunk { index: (missing + j) as u32 },
                })
                &&& done_for(d, events, 2 * j) == (Give::Read { index: (missing + j) as u32 })
            },
        missing + k == chunks ==> done_for(d, events, 2 * k) == (Give::Ask {
            peer: d.targets@[d.at as int].node,
            ask: Ask::Seal,
        }),
        missing + k < chunks ==> done_for(d, events, 2 * k) == (Give::Read {
            index: (missing + k) as u32,
        }),
{
    lemma_chunks_taken(d, events, chunks, missing, k);
    assert(events.take(2 * k) =~= events.drop_last());
    assert forall|j: int| 0 <= j < k implies {
        &&& #[trigger] done_for(d, events, 1 + 2 * j) == (Give::Ask {
            peer: d.targets@[d.at as int].node,
            ask: Ask::Chunk { index: (missing + j) as u32 },
        })
        &&& done_for(d, events, 2 * j) == (Give::Read { index: (missing + j) as u32 })
    } by {
        let part = events.take(1 + 2 * j);
        assert forall|i: int| 0 <= i < j implies #[trigger] part[1 + 2 * i] == Given::Read(Ok(()))
            && (part[2 + 2 * i] matches Given::Answered(Ok(_))) by {
            assert(events[1 + 2 * i] == Given::Read(Ok(())));
        }
        lemma_chunks_taken(d, part, chunks, missing, j);
        assert(part.drop_last() =~= events.take(2 * j));
        assert(part.last() == events[2 * j]);
        assert(events[1 + 2 * j] == Given::Read(Ok(())));
    }
}

proof fn lemma_chunks_taken(
    d: Distribution,
    events: Seq<Given>,
    chunks: u32,
    missing: u32,
    k: int,
)
    requires
        d.wf(),
        d.phase == Giving::Opening,
        d.chunks == chunks,
        0 <= k,
        missing + k <= chunks,
        takes_chunks(events, chunks, missing, k),
    ensures
        ({
            let last = gave_all(d, events.drop_last()).next(events.last()).action;
            let after = gave_all(d, events);
            &&& after.at == d.at
            &&& after.recorded == d.recorded
            &&& after.chunks == d.chunks
            &&& after.targets == d.targets
            &&& missing + k < chunks ==> after.phase == (Giving::Reading {
                index: (missing + k) as u32,
                chunks,
            }) && last == (Give::Read { index: (missing + k) as u32 })
            &&& missing + k == chunks ==> after.phase == Giving::Sealing && last == (Give::Ask {
                peer: d.targets@[d.at as int].node,
                ask: Ask::Seal,
            })
        }),
    decreases k,
{
    if k == 0 {
        assert(events.drop_last() =~= Seq::<Given>::empty());
        assert(gave_all(d, events.drop_last()) == d);
    } else {
        let part = events.drop_last().drop_last();
        assert forall|i: int| 0 <= i < k - 1 implies #[trigger] part[1 + 2 * i] == Given::Read(
            Ok(()),
        ) && (part[2 + 2 * i] matches Given::Answered(Ok(_))) by {
            assert(events[1 + 2 * i] == Given::Read(Ok(())));
        }
        lemma_chunks_taken(d, part, chunks, missing, k - 1);
        let j = k - 1;
        assert(events[1 + 2 * j] == Given::Read(Ok(())));
        assert(events.drop_last().last() == events[1 + 2 * j]);
        assert(events.last() == events[2 + 2 * j]);
        assert(gave_all(d, events.drop_last()) == gave(gave_all(d, part), Given::Read(Ok(()))));
    }
}

/// A pull goes through its stages in one order: the peer's manifest of this very
/// object, this node's opening, the peer's, the chunks, the seal, and both
/// transfers forgotten.
pub proof fn a_pull_goes_through_its_stages(pull: Pull, answer: Answer)
    ensures
        pull.phase == Taking::Describing ==> pull.next(Ok(answer)).1 == (if answer == (
        Answer::Manifest { content: pull.reference }) {
            Take::Here(Ask::Open)
        } else {
            Take::Finish(Err(AccessError::InvalidRequest))
        }),
        pull.phase == Taking::OpeningHere ==> pull.next(Ok(answer)).1 == Take::There(Ask::Open),
        pull.phase == Taking::Sealing ==> pull.next(Ok(answer)).1 == (if answer == (
        Answer::Durable {
            content: pull.reference,
            policy_revision: pull.scope.policy_revision,
        }) {
            Take::Here(Ask::Cancel)
        } else {
            Take::Finish(Err(AccessError::InvalidRequest))
        }),
        pull.phase == Taking::CancellingHere ==> pull.next(Ok(answer)).1 == Take::There(
            Ask::Cancel,
        ),
        pull.phase == Taking::CancellingThere ==> pull.next(Ok(answer)).1 == Take::Finish(Ok(())),
{
}

/// The open question of a pull is the one it asked last.
pub proof fn a_pull_remembers_what_it_asked(pull: Pull, answer: Result<Answer, AccessError>)
    ensures
        match pull.next(answer).1 {
            Take::There(Ask::Open) => pull.next(answer).0 is OpeningThere,
            Take::There(Ask::ReadChunk { index }) => (
            pull.next(answer).0 matches Taking::Reading { index: i, .. } && i == index),
            Take::There(Ask::Cancel) => pull.next(answer).0 == Taking::CancellingThere,
            Take::Here(Ask::Open) => pull.next(answer).0 == Taking::OpeningHere,
            Take::Here(Ask::Chunk { index }) => (
            pull.next(answer).0 matches Taking::Storing { index: i, .. } && i == index),
            Take::Here(Ask::Seal) => pull.next(answer).0 == Taking::Sealing,
            Take::Here(Ask::Cancel) => pull.next(answer).0 == Taking::CancellingHere,
            Take::Finish(_) => pull.next(answer).0 == Taking::Done,
            _ => false,
        },
{
}

/// A pull asks for exactly the chunks this node lacks, in order: from the first
/// it said it lacks, each is read from the peer and stored here before the next,
/// and behind the last the object is sealed. A peer that sends another chunk
/// than it was asked for is refused.
pub proof fn a_pull_takes_the_missing_chunks_in_order(
    pull: Pull,
    index: u32,
    chunks: u32,
    sent: u32,
    answer: Answer,
)
    requires
        pull.wf(),
    ensures
        pull.phase == Taking::OpeningHere ==> pull.next(
            Ok(Answer::Opened { chunks, next_missing: index }),
        ).0 == (Taking::OpeningThere { opened: Some((chunks, index)) }),
        pull.phase == (Taking::OpeningThere { opened: Some((chunks, index)) }) ==> pull.next(
            Ok(answer),
        ).1 == (if index < chunks {
            Take::There(Ask::ReadChunk { index })
        } else {
            Take::Here(Ask::Seal)
        }),
        pull.phase == (Taking::Reading { index, chunks }) ==> pull.next(
            Ok(Answer::Chunk { index: sent }),
        ).1 == (if sent == index {
            Take::Here(Ask::Chunk { index })
        } else {
            Take::Finish(Err(AccessError::InvalidRequest))
        }),
        pull.phase == (Taking::Storing { index, chunks }) ==> pull.next(Ok(answer)).1 == (if index
            + 1 < chunks {
            Take::There(Ask::ReadChunk { index: (index + 1) as u32 })
        } else {
            Take::Here(Ask::Seal)
        }),
        pull.phase == (Taking::OpeningThere { opened: Some((chunks, index)) }) && index < chunks
            ==> pull.next(Ok(answer)).0 == (Taking::Reading { index, chunks }),
        pull.phase == (Taking::Reading { index, chunks }) && sent == index ==> pull.next(
            Ok(Answer::Chunk { index: sent }),
        ).0 == (Taking::Storing { index, chunks }),
        pull.phase == (Taking::Storing { index, chunks }) && index + 1 < chunks ==> pull.next(
            Ok(answer),
        ).0 == (Taking::Reading { index: (index + 1) as u32, chunks }),
{
}

/// A failure ends a pull with itself, but for the forgetting of its transfers;
/// an opening without a count of chunks, or another answer than a chunk, is
/// refused.
pub proof fn a_failure_ends_a_pull(pull: Pull, error: AccessError, answer: Answer)
    ensures
        pull.phase != Taking::CancellingHere && pull.phase != Taking::CancellingThere ==> pull.next(
            Err(error),
        ).1 == Take::Finish(Err(error)),
        pull.phase == Taking::CancellingHere ==> pull.next(Err(error)).1 == Take::There(
            Ask::Cancel,
        ),
        pull.phase == Taking::CancellingThere ==> pull.next(Err(error)).1 == Take::Finish(Ok(())),
        pull.phase == Taking::OpeningHere && !(answer is Opened) ==> pull.next(Ok(answer)).0 == (
        Taking::OpeningThere { opened: None }),
        pull.phase == (Taking::OpeningThere { opened: None }) ==> pull.next(Ok(answer)).1
            == Take::Finish(Err(AccessError::InvalidRequest)),
        pull.phase is Reading && !(answer is Chunk) ==> pull.next(Ok(answer)).1 == Take::Finish(
            Err(AccessError::InvalidRequest),
        ),
{
}

/// A receipt counts for a copy exactly where it was given at this route and
/// under this policy for an object of this length; then the copy is held and
/// asked nothing.
pub proof fn a_receipt_spares_the_question(
    custody: Custody,
    receipt: CustodyReceipt,
    after: Custody,
    action: Count,
)
    requires
        custody.wf(),
        custody.phase == Counting::Receipt,
        custody.follows(Counted::Receipt(Ok(Some(receipt))), after, action),
    ensures
        ({
            let counts = receipt.route_epoch == custody.scope.route_epoch && receipt.policy_revision
                == custody.scope.policy_revision && receipt.length == custody.reference.length;
            let copy = custody.copies@[custody.at as int];
            &&& counts ==> after.held@ == custody.held@.insert(copy) && after.at == custody.at + 1
            &&& !counts ==> after.held@ == custody.held@ && after.at == custody.at && action == (
            if copy == custody.node {
                Count::Export
            } else {
                Count::Verify { peer: copy }
            })
        }),
{
}

/// A copy without a receipt is asked now: this node's own store for its
/// manifest, another copy to verify the object.
pub proof fn a_copy_without_a_receipt_is_asked(custody: Custody, after: Custody, action: Count)
    requires
        custody.wf(),
        custody.phase == Counting::Receipt,
        custody.follows(Counted::Receipt(Ok(None)), after, action),
    ensures
        after.held@ == custody.held@,
        after.at == custody.at,
        custody.copies@[custody.at as int] == custody.node ==> action == Count::Export,
        custody.copies@[custody.at as int] != custody.node ==> action == (Count::Verify {
            peer: custody.copies@[custody.at as int],
        }),
{
}

/// A copy's own word that this very object is durable under this very policy is
/// recorded, and only then is it held. One that says anything else is simply
/// not held, and the next is looked at.
pub proof fn a_copy_is_held_on_its_own_word(
    custody: Custody,
    answer: Result<Answer, AccessError>,
    exported: bool,
    after: Custody,
    action: Count,
)
    requires
        custody.wf(),
    ensures
        ({
            let copy = custody.copies@[custody.at as int];
            let says = answer == Ok::<Answer, AccessError>(
                Answer::Durable {
                    content: custody.reference,
                    policy_revision: custody.scope.policy_revision,
                },
            );
            &&& custody.phase == Counting::Asking && custody.follows(
                Counted::Answered(answer),
                after,
                action,
            ) ==> after.held@ == custody.held@ && (if says {
                action == (Count::Record { node: copy }) && after.at == custody.at
            } else {
                after.at == custody.at + 1
            })
            &&& custody.phase == Counting::Asking && custody.follows(
                Counted::Exported(exported),
                after,
                action,
            ) ==> after.held@ == custody.held@ && (if exported {
                action == (Count::Record { node: copy }) && after.at == custody.at
            } else {
                after.at == custody.at + 1
            })
            &&& custody.phase == Counting::Recording && custody.follows(
                Counted::Recorded(Ok(())),
                after,
                action,
            ) ==> after.held@ == custody.held@.insert(copy) && after.at == custody.at + 1
        }),
{
}

/// Every copy is looked at, one after the other, and the reading ends in what
/// the placement requires and what was found held.
pub proof fn every_copy_is_looked_at(
    custody: Custody,
    event: Counted,
    after: Custody,
    action: Count,
)
    requires
        custody.wf(),
        custody.follows(event, after, action),
    ensures
        after.required@ == custody.required@,
        after.copies@ == custody.copies@,
        after.scope == custody.scope,
        after.reference == custody.reference,
        after.at == custody.at || after.at == custody.at + 1,
        after.at == custody.at + 1 && after.at < custody.copies@.len() ==> action == (
        Count::Receipt { node: custody.copies@[after.at as int] }),
        after.at == custody.at + 1 && after.at == custody.copies@.len() ==> (
        action matches Count::Finish(Ok(obligation)) && obligation.scope == custody.scope
            && obligation.required@ == custody.required@ && obligation.held@ == after.held@),
        action matches Count::Finish(Ok(_)) ==> after.at == custody.copies@.len(),
        custody.held@.subset_of(after.held@),
{
}

/// A receipt that cannot be read or recorded ends the reading with that error.
pub proof fn a_store_failure_ends_the_reading(
    custody: Custody,
    error: AccessError,
    after: Custody,
    action: Count,
)
    requires
        custody.wf(),
        custody.follows(Counted::Receipt(Err(error)), after, action) || custody.follows(
            Counted::Recorded(Err(error)),
            after,
            action,
        ),
    ensures
        action == Count::Finish(Err(error)),
{
}

/// What the object in turn still waits for once this node holds it: the copies
/// from `copy` on.
pub open spec fn copies_follow(repair: Repair, event: Mended, copy: int) -> bool {
    let (work, action) = repair.next(event);
    &&& copy < repair.copies@.len() ==> action == (Mend::Verify { peer: repair.copies@[copy] })
        && work.copy == copy && work.phase == Mending::There
    &&& copy >= repair.copies@.len() ==> action == (if work.report.objects < repair.limit {
        Mend::Artifact { after: work.report.next_after }
    } else {
        Mend::Finish(Ok(()))
    })
}

/// Every other copy of an object this node holds is asked, one after the other,
/// before the next artifact is read: behind this node's own receipt the first,
/// and behind each copy that holds the object or was given it the next.
pub proof fn every_other_copy_is_asked(repair: Repair, given: bool)
    requires
        repair.wf(),
    ensures
        repair.phase == Mending::RecordingOwn ==> copies_follow(
            repair,
            Mended::Recorded(Ok(())),
            0,
        ),
        repair.phase == Mending::Recording ==> copies_follow(
            repair,
            Mended::Recorded(Ok(())),
            repair.copy + 1,
        ),
        repair.phase == Mending::Pushing && !(given && repair.report.pushed == u64::MAX)
            ==> copies_follow(repair, Mended::Pushed(given), repair.copy + 1),
{
}

/// The walk goes on to another artifact, or ends well, only when no copy of the
/// object in turn is left unasked: behind the last copy, behind an object that
/// was given up with every source asked, behind an artifact that names none, or
/// at the end of the walk itself.
pub proof fn no_copy_is_left_unasked(repair: Repair, event: Mended)
    requires
        repair.wf(),
        repair.phase != Mending::Done,
        repair.next(event).1 is Artifact || repair.next(event).1 == Mend::Finish(Ok(())),
    ensures
        match repair.phase {
            Mending::RecordingOwn => repair.copies@.len() == 0,
            Mending::Recording | Mending::Pushing => repair.copy + 1 == repair.copies@.len(),
            Mending::Here => repair.next(event).0.report.unrecoverable_count
                == repair.report.unrecoverable_count + 1 && repair.sources@.len() == 0 || (
            !repair.own && repair.copies@.len() == 0),
            Mending::Pulling => repair.next(event).0.report.unrecoverable_count
                == repair.report.unrecoverable_count + 1 && repair.source
                == repair.sources@.len() || (!repair.own && repair.copies@.len() == 0),
            Mending::Next => event matches Mended::Artifact(Ok(Some(found)))
                ==> found.content is None,
            _ => false,
        },
{
}

/// A copy that holds this very object under this very policy has its receipt
/// recorded; any other is given the object. Neither moves on to another copy.
pub proof fn a_copy_without_the_object_is_given_it(
    repair: Repair,
    answer: Result<Answer, AccessError>,
)
    requires
        repair.wf(),
        repair.phase == Mending::There,
    ensures
        ({
            let (work, action) = repair.next(Mended::Answered(answer));
            let peer = repair.copies@[repair.copy as int];
            &&& work.copy == repair.copy
            &&& work.report == repair.report@
            &&& if answer == Ok::<Answer, AccessError>(
                Answer::Durable {
                    content: repair.reference,
                    policy_revision: repair.scope.policy_revision,
                },
            ) {
                action == (Mend::Record { node: peer }) && work.phase == Mending::Recording
            } else {
                action == (Mend::Push { peer }) && work.phase == Mending::Pushing
            }
        }),
{
}

/// An object this node holds is verified, one it lacks is asked of its sources
/// in order and from the first; one it gets back is repaired. Either way its own
/// receipt comes first, where this node is a required copy, and the first other
/// copy where it is none.
pub proof fn an_object_is_verified_or_recovered(
    repair: Repair,
    answer: Result<Answer, AccessError>,
)
    requires
        repair.wf(),
    ensures
        ({
            let holds = answer == Ok::<Answer, AccessError>(
                Answer::Durable {
                    content: repair.reference,
                    policy_revision: repair.scope.policy_revision,
                },
            );
            let here = repair.next(Mended::Answered(answer));
            let back = repair.next(Mended::Pulled(true));
            let lost = repair.next(Mended::Pulled(false));
            &&& repair.phase == Mending::Here && holds ==> here.0.report.verified
                == repair.report.verified + 1 && here.0.report.repaired == repair.report.repaired
                && here.0.report.unrecoverable_count == repair.report.unrecoverable_count
            &&& repair.phase == Mending::Here && !holds ==> here.0.report.verified
                == repair.report.verified && (repair.sources@.len() > 0 ==> here.1 == (Mend::Pull {
                peer: repair.sources@[0],
            }) && here.0.source == 1 && here.0.asked == 1)
            &&& repair.phase == Mending::Pulling ==> back.0.report.repaired
                == repair.report.repaired + 1 && back.0.report.verified == repair.report.verified
            &&& repair.phase == Mending::Pulling && repair.source < repair.sources@.len()
                ==> lost.1 == (Mend::Pull { peer: repair.sources@[repair.source as int] })
                && lost.0.source == repair.source + 1 && lost.0.report == repair.report@ && (
            repair.asked < u32::MAX ==> lost.0.asked == repair.asked + 1)
            &&& repair.own && (repair.phase == Mending::Here && holds) ==> here.1 == (
            Mend::Record { node: repair.node })
            &&& repair.own && repair.phase == Mending::Pulling ==> back.1 == (Mend::Record {
                node: repair.node,
            })
            &&& !repair.own && repair.phase == Mending::Here && holds ==> copies_follow(
                repair,
                Mended::Answered(answer),
                0,
            )
            &&& !repair.own && repair.phase == Mending::Pulling ==> copies_follow(
                repair,
                Mended::Pulled(true),
                0,
            )
        }),
{
}

/// An object is given up only when every source was asked, and the report then
/// counts it and names it, with how many were asked, as far as it lists any.
pub proof fn an_object_is_given_up_only_behind_every_source(repair: Repair, event: Mended)
    requires
        repair.wf(),
        repair.phase != Mending::Done,
        repair.next(event).0.report.unrecoverable_count != repair.report.unrecoverable_count,
    ensures
        ({
            let report = repair.next(event).0.report;
            let asked = if repair.phase == Mending::Here {
                0
            } else {
                repair.asked
            };
            &&& report.unrecoverable_count == repair.report.unrecoverable_count + 1
            &&& repair.phase == Mending::Pulling && event == Mended::Pulled(false)
                && repair.source == repair.sources@.len() || repair.phase == Mending::Here
                && repair.sources@.len() == 0
            &&& report.unrecoverable == (if repair.report.unrecoverable@.len() < 64 {
                repair.report.unrecoverable@.push(
                    UnrecoverableObject {
                        artifact: repair.artifact,
                        reference: repair.reference,
                        asked,
                    },
                )
            } else {
                repair.report.unrecoverable@
            })
            &&& report.verified == repair.report.verified
            &&& report.repaired == repair.report.repaired
        }),
{
}

/// An object without a source is given up.
pub proof fn an_object_without_a_source_is_given_up(repair: Repair)
    requires
        repair.wf(),
        repair.phase == Mending::Pulling,
        repair.source == repair.sources@.len(),
    ensures
        repair.next(Mended::Pulled(false)).0.report.unrecoverable_count
            == repair.report.unrecoverable_count + 1,
{
}

/// What was pushed is counted, and nothing else is.
pub proof fn what_was_given_is_counted(repair: Repair, event: Mended)
    requires
        repair.wf(),
    ensures
        repair.next(event).0.report.pushed == repair.report.pushed + (if repair.phase
            == Mending::Pushing && event == Mended::Pushed(true) && repair.report.pushed
            < u64::MAX {
            1int
        } else {
            0int
        }),
{
}

/// Every artifact is counted and walked past; one that names an object has it
/// verified here first. Artifacts come in ascending order, and an object is of
/// the ledger's own tenant.
pub proof fn every_artifact_is_examined(repair: Repair, found: Found)
    requires
        repair.wf(),
        repair.phase == Mending::Next,
        repair.report.artifacts < u64::MAX,
    ensures
        ({
            let (work, action) = repair.next(Mended::Artifact(Ok(Some(found))));
            let ascends = repair.report.next_after matches Some(previous) ==> id_before(
                previous,
                found.artifact,
                0,
            );
            let own = found.content matches Some(reference) ==> reference.domain
                == repair.scope.ledger.tenant;
            &&& !ascends ==> action == Mend::Finish(Err(AccessError::InvalidRequest))
            &&& ascends && !own ==> action == Mend::Finish(Err(AccessError::Unauthorized))
            &&& ascends && own ==> work.report.artifacts == repair.report.artifacts + 1
                && work.report.next_after == Some(found.artifact)
            &&& ascends && own && found.content is Some ==> action == Mend::VerifyHere
                && work.report.objects == repair.report.objects + 1 && work.reference
                == found.content->0 && work.artifact == found.artifact && work.phase
                == Mending::Here
            &&& ascends && found.content is None ==> action == (Mend::Artifact {
                after: Some(found.artifact),
            }) && work.report.objects == repair.report.objects
        }),
{
}

/// The walk ends well at its end, and at a snapshot that expired, which leaves
/// it to be resumed; any other failure ends it with itself.
pub proof fn a_walk_ends_as_its_artifacts_do(repair: Repair, error: AccessError)
    requires
        repair.wf(),
    ensures
        repair.phase == Mending::Next ==> ({
            let (work, action) = repair.next(Mended::Artifact(Ok(None)));
            action == Mend::Finish(Ok(())) && work.report.complete && work.report.next_after is None
        }),
        repair.phase == Mending::Next ==> ({
            let (work, action) = repair.next(Mended::Artifact(Err(error)));
            &&& action == Mend::Finish(
                if error == AccessError::SnapshotExpired {
                    Ok(())
                } else {
                    Err(error)
                },
            )
            &&& work.report == repair.report@
        }),
        repair.next(Mended::Recorded(Err(error))).1 == Mend::Finish(Err(error)),
{
}

/// Another artifact is read while the limit leaves room for another object, and
/// from where the walk stands; with none left it ends well.
pub proof fn a_walk_keeps_its_limit(repair: Repair)
    ensures
        repair.again(repair.work()).1 == (if repair.report.objects < repair.limit {
            Mend::Artifact { after: repair.report.next_after }
        } else {
            Mend::Finish(Ok(()))
        }),
        repair.again(repair.work()).0.report == repair.report@,
{
}

/// A repair remembers what it asked: the copy, the source and the object in
/// turn are those its next event is about.
pub proof fn a_repair_remembers_what_it_asked(repair: Repair, event: Mended)
    requires
        repair.wf(),
    ensures
        ({
            let (work, action) = repair.next(event);
            match action {
                Mend::Artifact { .. } => work.phase == Mending::Next,
                Mend::VerifyHere => work.phase == Mending::Here,
                Mend::Pull { peer } => work.phase == Mending::Pulling && peer
                    == repair.sources@[work.source - 1],
                Mend::Record { node } => (work.phase == Mending::RecordingOwn && node == repair.node
                    && repair.own) || (work.phase == Mending::Recording && node
                    == repair.copies@[work.copy]),
                Mend::Verify { peer } => work.phase == Mending::There && peer
                    == repair.copies@[work.copy],
                Mend::Push { peer } => work.phase == Mending::Pushing && peer
                    == repair.copies@[work.copy],
                Mend::Finish(_) => work.phase == Mending::Done,
            }
        }),
{
}

/// A walk counts its artifacts and ends rather than lose count; and artifacts that
/// come out of order are refused.
pub proof fn a_walk_does_not_lose_count(repair: Repair, found: Found)
    ensures
        (repair.work().report.next_after matches Some(previous) && !id_before(
            previous,
            found.artifact,
            0,
        )) ==> repair.examine(found).1 == Mend::Finish(Err(AccessError::InvalidRequest)),
        (repair.work().report.next_after matches Some(previous) ==> id_before(
            previous,
            found.artifact,
            0,
        )) && repair.work().report.artifacts == u64::MAX ==> repair.examine(found).1
            == Mend::Finish(Err(AccessError::Capacity)),
        (repair.work().report.next_after matches Some(previous) ==> id_before(
            previous,
            found.artifact,
            0,
        )) && repair.work().report.artifacts < u64::MAX ==> repair.examine(
            found,
        ).0.report.artifacts == repair.work().report.artifacts + 1 || repair.examine(found).1
            == Mend::Finish(Err(AccessError::Unauthorized)),
{
}

/// A reading of custody remembers what it asked, and of which copy.
pub proof fn a_reading_remembers_what_it_asked(
    custody: Custody,
    event: Counted,
    after: Custody,
    action: Count,
)
    requires
        custody.wf(),
        custody.follows(event, after, action),
        custody.at < custody.copies@.len(),
    ensures
        match action {
            Count::Receipt { node } => after.phase is Receipt && after.at < after.copies@.len()
                && after.copies@[after.at as int] == node,
            Count::Export => after.phase is Asking && after.copies@[after.at as int] == after.node,
            Count::Verify { peer } => after.phase is Asking && after.copies@[after.at as int]
                == peer,
            Count::Record { node } => after.phase is Recording && after.copies@[after.at as int]
                == node,
            Count::Finish(_) => after.phase is Done,
        },
        after.copies@ == custody.copies@ && after.scope == custody.scope && after.reference
            == custody.reference && after.node == custody.node && after.required@
            == custody.required@,
{
}

/// What does not belong to a turn is refused: an answer that was not asked for
/// ends a distribution, a reading of custody and a repair.
pub proof fn what_was_not_asked_is_refused(
    giving: Distribution,
    custody: Custody,
    repair: Repair,
    chunks: usize,
    yes: bool,
    after: Custody,
    action: Count,
)
    ensures
        giving.phase is Verifying || giving.phase is Opening || giving.phase is Sealing
            || giving.phase is Cancelling ==> giving.next(Given::Exported(Ok(chunks))).action
            == Give::Finish(Err(AccessError::InvalidRequest)) && giving.next(
            Given::Recorded(Ok(())),
        ).action == Give::Finish(Err(AccessError::InvalidRequest)) && giving.next(
            Given::Read(Ok(())),
        ).action == Give::Finish(Err(AccessError::InvalidRequest)),
        giving.phase is RecordingOwn || giving.phase is RecordingHeld || giving.phase
            is RecordingSealed ==> giving.next(Given::Read(Ok(()))).action == Give::Finish(
            Err(AccessError::InvalidRequest),
        ),
        (custody.phase is Receipt || custody.phase is Recording) && custody.follows(
            Counted::Exported(yes),
            after,
            action,
        ) ==> action == Count::Finish(Err(AccessError::InvalidRequest)) && after.phase is Done,
        custody.phase is Asking && custody.follows(Counted::Recorded(Ok(())), after, action)
            ==> action == Count::Finish(Err(AccessError::InvalidRequest)),
        repair.phase is There || repair.phase is Recording || repair.phase is Pushing
            ==> repair.next(Mended::Pulled(yes)).1 == Mend::Finish(
            Err(AccessError::InvalidRequest),
        ),
        repair.phase is Here || repair.phase is Pulling ==> repair.next(Mended::Pushed(yes)).1
            == Mend::Finish(Err(AccessError::InvalidRequest)),
{
}

/// A repair walks its placement's own prefix: its ledger, at its route and its
/// policy, on this node.
pub proof fn a_repair_walks_its_own_prefix(prefix: Prefix, scope: CustodyScope, node: u64)
    ensures
        prefix.ledger != scope.ledger ==> !walks(prefix, scope, node),
        prefix.route != scope.route_epoch ==> !walks(prefix, scope, node),
        prefix.placement_epoch != scope.policy_revision ==> !walks(prefix, scope, node),
        prefix.node != node ==> !walks(prefix, scope, node),
        prefix.ledger == scope.ledger && prefix.route == scope.route_epoch
            && prefix.placement_epoch == scope.policy_revision && prefix.node == node ==> walks(
            prefix,
            scope,
            node,
        ),
{
}

/// Behind a copy whose receipt was recorded the next copy is asked.
pub proof fn the_next_copy_is_asked_behind_a_receipt(repair: Repair)
    requires
        repair.phase == Mending::Recording,
        repair.copy + 1 < repair.copies@.len(),
    ensures
        repair.next(Mended::Recorded(Ok(()))).1 == (Mend::Verify {
            peer: repair.copies@[repair.copy + 1],
        }),
{
}

} // verus!
