//! What the written forms promise: how numbers, texts and choices lie in bytes,
//! in which order facts follow one another, and what a stored file holds.
use crate::codec::{
    bytes_all, concat_assoc, lemma_varint_reads, take_u16, take_u64, text_bytes, unzigzag, varint,
    zigzag, Wire,
};
use crate::config::policy::{PolicyIntent, PolicyModel};
use crate::config::{Durability, FailureDomain};
use crate::deployment::facts::{
    BlockedModel, Blocked, Change, ChangeModel, DeploymentIdentity, NodeModel,
    ObservedNode, SessionEpochs,
};
use crate::deployment::journal::{
    journal_decoded, journal_file, operation_of, phase_of, recorded, recording_is_local, Journal,
    JournalModel, Outcome, OutcomeModel, Phase, Step,
};
use crate::deployment::plan::Refusal;
use crate::deployment::{Guarantee, GuaranteeLevel};
use crate::embedded::{identity_decoded, identity_file, is_trace, NodeIdentity};
use crate::hashing::{blake3_hash, zero_16};
use crate::ids::LedgerId;
use vstd::prelude::*;
use vstd::utf8::encode_utf8;

verus! {

/// What bytes of seven bits each, the lowest first, add up to.
pub open spec fn sevens(b: Seq<u8>) -> nat
    decreases b.len(),
{
    if b.len() == 0 {
        0
    } else {
        (b[0] % 128) as nat + 128 * sevens(b.skip(1))
    }
}

/// A number is its seven-bit parts, the lowest first; every byte but the last
/// says that more follow, and no number ends in an empty part.
pub proof fn a_number_is_its_parts(value: nat)
    ensures
        sevens(varint(value)) == value,
        varint(value).len() >= 1,
        varint(value).last() < 128,
        varint(value).len() > 1 ==> varint(value).last() != 0,
        forall|i: int|
            0 <= i < varint(value).len() - 1 ==> #[trigger] varint(value)[i] >= 128,
        value < 128 ==> varint(value) == seq![value as u8],
    decreases value,
{
    reveal(varint);
    reveal_with_fuel(sevens, 2);
    let b = varint(value);
    if value < 128 {
        assert(b.skip(1) =~= Seq::<u8>::empty());
    } else {
        let rest = varint(value / 128);
        a_number_is_its_parts(value / 128);
        assert(b.skip(1) =~= rest);
        assert(b.last() == rest.last());
        assert(value % 128 + 128 * (value / 128) == value) by (nonlinear_arith);
        assert(b[0] % 128 == value % 128);
        assert forall|i: int| 0 <= i < b.len() - 1 implies #[trigger] b[i] >= 128 by {
            if i > 0 {
                assert(b[i] == rest[i - 1]);
            }
        }
        if rest.len() == 1 {
            assert(sevens(rest) == rest[0] as nat) by {
                assert(rest.skip(1) =~= Seq::<u8>::empty());
            }
        }
    }
}

/// A signed number goes by its distance from zero: what is not negative is even,
/// and a negative number stands just below its opposite.
pub proof fn a_signed_number_goes_by_its_distance(value: i64)
    ensures
        value >= 0 ==> zigzag(value) == 2 * value,
        value < 0 ==> zigzag(value) == 2 * (-value) - 1,
        zigzag(value) <= u64::MAX,
        unzigzag(zigzag(value)) == value,
{
}

/// A text is the count of its bytes, and the bytes.
pub proof fn a_text_is_its_bytes(text: Seq<char>)
    ensures
        ({
            let head = varint(encode_utf8(text).len());
            &&& text_bytes(text).len() == head.len() + encode_utf8(text).len()
            &&& text_bytes(text).take(head.len() as int) == head
            &&& text_bytes(text).skip(head.len() as int) == encode_utf8(text)
        }),
{
    reveal(text_bytes);
    let head = varint(encode_utf8(text).len());
    assert(text_bytes(text).take(head.len() as int) =~= head);
    assert(text_bytes(text).skip(head.len() as int) =~= encode_utf8(text));
}

/// What lies in a row is written in a row.
pub proof fn a_row_is_written_in_order<T: Wire>(a: Seq<T::M>, b: Seq<T::M>)
    ensures
        bytes_all::<T>(a + b) == bytes_all::<T>(a) + bytes_all::<T>(b),
        a.len() == 1 ==> bytes_all::<T>(a) == T::bytes(a[0]),
    decreases a.len(),
{
    broadcast use concat_assoc;

    if a.len() == 0 {
        assert(a + b =~= b);
        assert(bytes_all::<T>(a) + bytes_all::<T>(b) =~= bytes_all::<T>(b));
    } else {
        a_row_is_written_in_order::<T>(a.drop_first(), b);
        assert((a + b).drop_first() =~= a.drop_first() + b);
        if a.len() == 1 {
            assert(bytes_all::<T>(a.drop_first()) =~= Seq::<u8>::empty());
            assert(T::bytes(a[0]) + Seq::<u8>::empty() =~= T::bytes(a[0]));
        }
    }
}

/// A choice says in its first byte which one it is, counted in order.
pub proof fn a_choice_says_which_it_is(
    domain: FailureDomain,
    phase: Phase,
    outcome: OutcomeModel,
    change: ChangeModel,
    some: Option<u64>,
    yes: bool,
)
    ensures
        FailureDomain::bytes(domain) == seq![
            match domain {
                FailureDomain::Node => 0u8,
                FailureDomain::Zone => 1u8,
                FailureDomain::Region => 2u8,
            },
        ],
        Phase::bytes(phase).len() == 1 && Phase::bytes(phase)[0] == phase.rank(),
        Outcome::bytes(outcome)[0] == (match outcome {
            OutcomeModel::InProgress => 0u8,
            OutcomeModel::Complete => 1u8,
            OutcomeModel::Stale { .. } => 2u8,
        }),
        Change::bytes(change)[0] == (match change {
            ChangeModel::CommitPolicy { .. } => 0u8,
            ChangeModel::PlanSession { .. } => 1u8,
            ChangeModel::NoChange { .. } => 2u8,
        }),
        <Option<u64>>::bytes(some)[0] == (if some is Some {
            1u8
        } else {
            0u8
        }),
        bool::bytes(yes)[0] == (if yes {
            1u8
        } else {
            0u8
        }),
{
    a_number_is_its_parts(0);
    a_number_is_its_parts(1);
    a_number_is_its_parts(2);
    a_number_is_its_parts(3);
}

/// Phases follow one another as a step goes through them.
pub proof fn phases_follow_one_another()
    ensures
        Phase::Prepared.rank() < Phase::Committed.rank(),
        Phase::Committed.rank() < Phase::Verified.rank(),
        Phase::Verified.rank() < Phase::Complete.rank(),
{
}

proof fn lemma_u64(value: u64, rest: Seq<u8>)
    ensures
        u64::parse(u64::bytes(value) + rest) == Some((value, rest)),
{
    reveal(take_u64);
    lemma_varint_reads(value as nat, u64::MAX as nat, rest);
}

proof fn lemma_u16(value: u16, rest: Seq<u8>)
    ensures
        u16::parse(u16::bytes(value) + rest) == Some((value, rest)),
{
    reveal(take_u16);
    lemma_varint_reads(value as nat, u16::MAX as nat, rest);
}

/// Whether one written value stands in front, and another right behind it.
pub open spec fn stand_in_order(all: Seq<u8>, first: Seq<u8>, second: Seq<u8>) -> bool {
    all.len() >= first.len() + second.len() && all.take(first.len() as int) == first
        && all.subrange(first.len() as int, (first.len() + second.len()) as int) == second
}

proof fn lemma_in_order(first: Seq<u8>, second: Seq<u8>, rest: Seq<u8>)
    ensures
        stand_in_order(first + (second + rest), first, second),
        stand_in_order(first + second, first, second),
{
    let all = first + (second + rest);
    assert(all.take(first.len() as int) =~= first);
    assert(all.subrange(first.len() as int, (first.len() + second.len()) as int) =~= second);
    let two = first + second;
    assert(two.take(first.len() as int) =~= first);
    assert(two.subrange(first.len() as int, (first.len() + second.len()) as int) =~= second);
}

/// A session's epochs are read in this order: its route's, its membership's, its
/// placement's.
pub proof fn epochs_are_read_in_order(epochs: SessionEpochs)
    ensures
        u64::parse(SessionEpochs::bytes(epochs)) matches Some((route, rest)) && route
            == epochs.route && (u64::parse(rest) matches Some((membership, last)) && membership
            == epochs.membership && u64::parse(last) == Some(
            (epochs.placement, Seq::<u8>::empty()),
        )),
{
    let last = u64::bytes(epochs.placement);
    let rest = u64::bytes(epochs.membership) + last;
    lemma_u64(epochs.route, rest);
    lemma_u64(epochs.membership, last);
    lemma_u64(epochs.placement, Seq::empty());
    assert(last + Seq::<u8>::empty() =~= last);
}

/// A level is its domain, and how many of it may fail; a guarantee is the level
/// before, during and after.
pub proof fn levels_stand_in_order(level: GuaranteeLevel, wanted: Durability, guarantee: Guarantee)
    ensures
        stand_in_order(
            GuaranteeLevel::bytes(level),
            FailureDomain::bytes(level.survive),
            u16::bytes(level.max_failures),
        ),
        stand_in_order(
            Durability::bytes(wanted),
            FailureDomain::bytes(wanted.survive),
            u16::bytes(wanted.max_failures),
        ),
        stand_in_order(
            Guarantee::bytes(guarantee),
            GuaranteeLevel::bytes(guarantee.before),
            GuaranteeLevel::bytes(guarantee.during),
        ),
        level.survive == wanted.survive && level.max_failures == wanted.max_failures
            ==> GuaranteeLevel::bytes(level) == Durability::bytes(wanted),
{
    lemma_in_order(
        FailureDomain::bytes(level.survive),
        u16::bytes(level.max_failures),
        Seq::empty(),
    );
    lemma_in_order(
        FailureDomain::bytes(wanted.survive),
        u16::bytes(wanted.max_failures),
        Seq::empty(),
    );
    lemma_in_order(
        GuaranteeLevel::bytes(guarantee.before),
        GuaranteeLevel::bytes(guarantee.during),
        GuaranteeLevel::bytes(guarantee.after),
    );
}

/// A tenant stands before its session, a cluster before its node, a node before
/// its generation, and a policy's guarantee before its places.
pub proof fn names_stand_first(
    ledger: LedgerId,
    deployment: DeploymentIdentity,
    node: NodeModel,
    blocked: BlockedModel,
    policy: PolicyModel,
)
    ensures
        LedgerId::bytes(ledger).len() == 32 && LedgerId::bytes(ledger).take(16) == ledger.tenant@
            && LedgerId::bytes(ledger).skip(16) == ledger.session@,
        stand_in_order(
            DeploymentIdentity::bytes(deployment),
            deployment.cluster@,
            u64::bytes(deployment.node),
        ),
        stand_in_order(
            ObservedNode::bytes(node),
            u64::bytes(node.node),
            u64::bytes(node.generation),
        ),
        stand_in_order(
            Blocked::bytes(blocked),
            blocked.tenant@,
            blocked.session@,
        ),
        stand_in_order(
            PolicyIntent::bytes(policy),
            Durability::bytes(policy.durability),
            <Vec<String>>::bytes(policy.residency),
        ),
{
    assert(LedgerId::bytes(ledger).take(16) =~= ledger.tenant@);
    assert(LedgerId::bytes(ledger).skip(16) =~= ledger.session@);
    lemma_in_order(deployment.cluster@, u64::bytes(deployment.node), Seq::empty());
    let behind = bool::bytes(node.alive) + (bool::bytes(node.eligible) + (<Option<u64>>::bytes(
        node.disk_available,
    ) + (<Option<String>>::bytes(node.region) + <Option<String>>::bytes(node.zone))));
    lemma_in_order(u64::bytes(node.node), u64::bytes(node.generation), behind);
    lemma_in_order(blocked.tenant@, blocked.session@, String::bytes(blocked.reason));
    lemma_in_order(
        Durability::bytes(policy.durability),
        <Vec<String>>::bytes(policy.residency),
        <Vec<String>>::bytes(policy.home_regions),
    );
}

/// A step that is recorded has the phase it was recorded in, at the time it was,
/// under the operation that was given, or the one it had; a phase behind the one
/// it has is not recorded.
pub proof fn a_recorded_step_has_its_phase(
    steps: Seq<Step>,
    index: u32,
    phase: Phase,
    operation: Option<[u8; 16]>,
    now: u64,
)
    ensures
        recorded(steps, index, phase, operation, now) is None <==> (phase_of(steps, index) matches
            Some(before) && phase.rank() < before.rank()),
        recorded(steps, index, phase, operation, now) matches Some(after) ==> phase_of(after, index)
            == Some(phase) && operation_of(after, index) == (if operation is Some {
            operation
        } else {
            operation_of(steps, index)
        }) && after.len() == steps.len() + (if phase_of(steps, index) is None {
            1int
        } else {
            0int
        }) && exists|i: int|
            0 <= i < after.len() && (#[trigger] after[i]).index == index && after[i].updated_ms
                == now && after[i].phase == phase,
{
    if recorded(steps, index, phase, operation, now) is Some {
        recording_is_local(steps, index, phase, operation, now, index);
        let after = recorded(steps, index, phase, operation, now)->0;
        crate::deployment::journal::lemma_position(steps, index);
        match crate::deployment::journal::position(steps, index) {
            Some(i) => {
                assert(after[i].index == index && after[i].updated_ms == now);
            },
            None => {
                assert(after[steps.len() as int].index == index);
            },
        }
    }
}

/// A journal's file begins with its mark, and behind it is the journal.
pub proof fn a_journal_stands_behind_its_mark(journal: JournalModel)
    ensures
        journal_file(journal).take(8) == seq![70u8, 67u8, 76u8, 65u8, 80u8, 76u8, 89u8, 49u8],
        journal_file(journal).skip(8) == Journal::bytes(journal),
{
    assert(journal_file(journal).take(8) =~= seq![
        70u8,
        67u8,
        76u8,
        65u8,
        80u8,
        76u8,
        89u8,
        49u8,
    ]);
    assert(journal_file(journal).skip(8) =~= Journal::bytes(journal));
}

/// A journal is taken whole or not at all: one that was read fills its bytes
/// behind the mark, and is of this schema.
pub proof fn a_journal_is_taken_whole(bytes: Seq<u8>)
    ensures
        journal_decoded(bytes) matches Ok(journal) ==> bytes.len()
            <= crate::deployment::journal::MAX_JOURNAL_BYTES && journal.schema
            == crate::deployment::journal::JOURNAL_SCHEMA && (Journal::parse(bytes.skip(8)) matches
            Some((read, rest)) && read == journal && rest.len() == 0),
        bytes.len() > crate::deployment::journal::MAX_JOURNAL_BYTES <==> journal_decoded(bytes)
            == Err::<JournalModel, Refusal>(Refusal::Capacity),
{
}

/// An identity's file is its mark, the hash of the identity, and the identity; a
/// file whose hash is another's is refused.
pub proof fn an_identity_stands_behind_its_hash(id: NodeIdentity, bytes: Seq<u8>)
    ensures
        identity_file(id).take(8) == seq![70u8, 79u8, 67u8, 65u8, 76u8, 78u8, 68u8, 49u8],
        identity_file(id).subrange(8, 40) == blake3_hash(NodeIdentity::bytes(id))@,
        identity_file(id).skip(40) == NodeIdentity::bytes(id),
        bytes.len() >= 40 && bytes.subrange(8, 40) != blake3_hash(bytes.skip(40))@
            ==> identity_decoded(bytes) is Err,
        bytes.len() < 40 ==> identity_decoded(bytes) is Err,
{
    let file = identity_file(id);
    assert(file.take(8) =~= seq![70u8, 79u8, 67u8, 65u8, 76u8, 78u8, 68u8, 49u8]);
    assert(file.subrange(8, 40) =~= blake3_hash(NodeIdentity::bytes(id))@);
    assert(file.skip(40) =~= NodeIdentity::bytes(id));
}

/// An identity that is read names everything: no part of it is zero.
pub proof fn an_identity_names_everything(bytes: Seq<u8>)
    ensures
        identity_decoded(bytes) matches Ok(id) ==> id.schema == 1 && id.node != 0 && !zero_16(
            id.cluster,
        ) && !zero_16(id.ledger.tenant) && !zero_16(id.ledger.session) && !zero_16(id.issuer)
            && !zero_16(id.worker) && !zero_16(id.evaluator) && !zero_16(id.root),
{
}

/// An identity's schema is read first, behind it its cluster and its node.
pub proof fn an_identity_is_read_in_order(id: NodeIdentity)
    ensures
        u16::parse(NodeIdentity::bytes(id)) matches Some((schema, rest)) && schema == id.schema
            && rest.len() >= 16 && rest.take(16) == id.cluster@ && (u64::parse(rest.skip(16)) matches
            Some((node, last)) && node == id.node && last.len() == 96 && last.take(16)
            == id.ledger.tenant@ && last.subrange(16, 32) == id.ledger.session@ && last.subrange(
            32,
            48,
        ) == id.issuer@ && last.subrange(48, 64) == id.worker@ && last.subrange(64, 80)
            == id.evaluator@ && last.skip(80) == id.root@),
{
    let last = LedgerId::bytes(id.ledger) + (id.issuer@ + (id.worker@ + (id.evaluator@
        + id.root@)));
    let rest = id.cluster@ + (u64::bytes(id.node) + last);
    lemma_u16(id.schema, rest);
    assert(rest.take(16) =~= id.cluster@);
    assert(rest.skip(16) =~= u64::bytes(id.node) + last);
    lemma_u64(id.node, last);
    assert(last.take(16) =~= id.ledger.tenant@);
    assert(last.subrange(16, 32) =~= id.ledger.session@);
    assert(last.subrange(32, 48) =~= id.issuer@);
    assert(last.subrange(48, 64) =~= id.worker@);
    assert(last.subrange(64, 80) =~= id.evaluator@);
    assert(last.skip(80) =~= id.root@);
}

/// What a node leaves behind in its directory: its log, its content, its network
/// and the mark of a policy that was stored.
pub proof fn what_a_node_leaves_behind()
    ensures
        is_trace("wal"@) && is_trace("content"@) && is_trace("NETWORK"@) && is_trace(
            "NETWORK.initialized"@,
        ) && is_trace("POLICY.initialized"@),
{
}

} // verus!
