//! What an observation and its views promise: every node and session the
//! directory names is seen once, by what it said of it first, and nothing else
//! is.
use super::observe::{
    achieved_seen, converted, node_known, node_seen, session_known, session_seen, with_nodes,
    with_session, with_sessions, AdminNode, AdminPartition, AdminSession, Unobserved,
};
use super::plan::MAX_SESSIONS;
use super::report::{first_ids, joined, StepReport};
use super::views::{ChangeView, LevelView, ObservedSessionView};
use super::facts::{ChangeModel, DeploymentPlan, NodeModel, SessionModel};
use super::journal::{operation_of, phase_of, Journal, Phase};
use super::{survive_of, survive_text, GuaranteeLevel};
use crate::config::FailureDomain;
use crate::text::{bytes_are_read_back_from_hex, hex_text};
use vstd::prelude::*;

verus! {

/// A node is seen just as the directory says of it.
pub proof fn a_node_is_seen_as_it_is(node: AdminNode)
    ensures
        ({
            let seen = node_seen(node);
            &&& seen.node == node.node && seen.generation == node.generation
            &&& seen.alive == node.alive && seen.eligible == node.eligible
            &&& seen.disk_available == node.disk_available
            &&& seen.region is Some == node.region is Some && seen.zone is Some == node.zone is Some
            &&& node.region matches Some(region) ==> seen.region == Some(region@)
            &&& node.zone matches Some(zone) ==> seen.zone == Some(zone@)
        }),
{
}

/// The first word on a node counts: what was seen stays, in its place, and behind
/// it comes what a node that was not seen yet says of itself.
pub proof fn the_first_word_on_a_node_counts(seen: Seq<NodeModel>, list: Seq<AdminNode>, n: int)
    requires
        0 <= n <= list.len(),
    ensures
        ({
            let all = with_nodes(seen, list, n);
            &&& seen.len() <= all.len()
            &&& forall|i: int| 0 <= i < seen.len() ==> all[i] == #[trigger] seen[i]
            &&& forall|i: int|
                seen.len() <= i < all.len() ==> (exists|k: int|
                    0 <= k < n && #[trigger] all[i] == node_seen(#[trigger] list[k]) && (forall|
                        j: int,
                    |
                        0 <= j < k ==> (#[trigger] list[j]).node != list[k].node))
            &&& forall|k: int| 0 <= k < n ==> node_known(all, (#[trigger] list[k]).node)
        }),
    decreases n,
{
    if n > 0 {
        the_first_word_on_a_node_counts(seen, list, n - 1);
        let before = with_nodes(seen, list, n - 1);
        let all = with_nodes(seen, list, n);
        let next = list[n - 1];
        assert forall|k: int| 0 <= k < n implies node_known(all, (#[trigger] list[k]).node) by {
            if k < n - 1 {
                assert(node_known(before, list[k].node));
                let i = choose|i: int| 0 <= i < before.len() && (#[trigger] before[i]).node
                    == list[k].node;
                assert(all[i].node == list[k].node);
            } else if node_known(before, next.node) {
                let i = choose|i: int| 0 <= i < before.len() && (#[trigger] before[i]).node
                    == next.node;
                assert(all[i].node == next.node);
            } else {
                assert(all[before.len() as int].node == next.node);
            }
        }
        assert forall|i: int| seen.len() <= i < all.len() implies (exists|k: int|
            0 <= k < n && #[trigger] all[i] == node_seen(#[trigger] list[k]) && (forall|j: int|
                0 <= j < k ==> (#[trigger] list[j]).node != list[k].node)) by {
            if i < before.len() {
                assert(all[i] == before[i]);
                let k = choose|k: int|
                    0 <= k < n - 1 && before[i] == node_seen(#[trigger] list[k]) && (forall|
                        j: int,
                    |
                        0 <= j < k ==> (#[trigger] list[j]).node != list[k].node);
                assert(all[i] == node_seen(list[k]));
            } else {
                assert(!node_known(before, next.node));
                assert(all[i] == node_seen(list[n - 1]));
                assert forall|j: int| 0 <= j < n - 1 implies (#[trigger] list[j]).node
                    != list[n - 1].node by {
                    assert(node_known(before, list[j].node));
                }
            }
        }
    }
}

/// A session is seen just as the directory says of it: its epochs, its voters,
/// the level it is to have, the one it has, and what holds it back.
pub proof fn a_session_is_seen_as_it_is(
    entry: AdminSession,
    tenant: [u8; 16],
    session: [u8; 16],
)
    ensures
        session_seen(entry, tenant, session) matches Ok(seen) ==> {
            &&& seen.tenant == tenant && seen.session == session
            &&& seen.epochs.route == entry.route_epoch && seen.epochs.membership
                == entry.membership_epoch && seen.epochs.placement == entry.placement_epoch
            &&& seen.voters == entry.voters@
            &&& survive_of(entry.survive@) == Some(seen.desired.survive)
                && seen.desired.max_failures == entry.max_failures
            &&& seen.achieved is Some <==> entry.achieved_survive is Some
                && entry.achieved_max_failures is Some
            &&& seen.achieved matches Some(level) ==> survive_of(entry.achieved_survive->0@)
                == Some(level.survive) && level.max_failures == entry.achieved_max_failures->0
            &&& entry.pending is None ==> seen.pending is None
            &&& entry.pending matches Some(operation) ==> operation is Some && seen.pending
                == operation
            &&& seen.blocked_by.len() == entry.blocked_by@.len()
            &&& forall|i: int|
                0 <= i < seen.blocked_by.len() ==> #[trigger] seen.blocked_by[i]
                    == entry.blocked_by@[i]@
        },
        session_seen(entry, tenant, session) is Err <==> survive_of(entry.survive@) is None || (
        entry.pending matches Some(operation) && operation is None) || (entry.achieved_survive
            is Some && entry.achieved_max_failures is Some && survive_of(
            entry.achieved_survive->0@,
        ) is None),
{
}

/// An entry adds the session it names, unless it was seen; it must name one, and
/// one more must fit.
pub proof fn an_entry_adds_the_session_it_names(
    seen: Seq<SessionModel>,
    entry: AdminSession,
    i: int,
)
    ensures
        entry.tenant is None || entry.session is None ==> with_session(seen, entry) == Err::<
            Seq<SessionModel>,
            Unobserved,
        >(Unobserved::InvalidIdentity),
        entry.tenant is Some && entry.session is Some ==> {
            let (tenant, session) = (entry.tenant->0, entry.session->0);
            let known = exists|k: int|
                0 <= k < seen.len() && (#[trigger] seen[k]).tenant == tenant && seen[k].session
                    == session;
            &&& known ==> with_session(seen, entry) == Ok::<Seq<SessionModel>, Unobserved>(seen)
            &&& !known && seen.len() >= MAX_SESSIONS ==> with_session(seen, entry) == Err::<
                Seq<SessionModel>,
                Unobserved,
            >(Unobserved::Capacity)
            &&& !known && seen.len() < MAX_SESSIONS ==> match session_seen(entry, tenant, session) {
                Ok(next) => with_session(seen, entry) is Ok && with_session(
                    seen,
                    entry,
                )->Ok_0.len() == seen.len() + 1 && with_session(seen, entry)->Ok_0.last() == next
                    && (0 <= i < seen.len() ==> with_session(seen, entry)->Ok_0[i] == seen[i]),
                Err(why) => with_session(seen, entry) == Err::<Seq<SessionModel>, Unobserved>(why),
            }
        },
{
}

/// Every session that a list names is seen, what was seen stays in its place, and
/// whatever is new is what an entry says of itself, the first to name it.
pub proof fn the_first_word_on_a_session_counts(
    seen: Seq<SessionModel>,
    list: Seq<AdminSession>,
    n: int,
)
    requires
        0 <= n <= list.len(),
        with_sessions(seen, list, n) is Ok,
    ensures
        ({
            let all = with_sessions(seen, list, n)->Ok_0;
            &&& seen.len() <= all.len()
            &&& forall|i: int| 0 <= i < seen.len() ==> all[i] == #[trigger] seen[i]
            &&& forall|k: int|
                0 <= k < n ==> (#[trigger] list[k]).tenant is Some && list[k].session is Some
                    && session_known(all, list[k].tenant->0, list[k].session->0)
            &&& forall|i: int|
                seen.len() <= i < all.len() ==> (exists|k: int|
                    0 <= k < n && session_seen(
                        #[trigger] list[k],
                        (#[trigger] all[i]).tenant,
                        all[i].session,
                    ) == Ok::<SessionModel, Unobserved>(all[i]) && list[k].tenant == Some(
                        all[i].tenant,
                    ) && list[k].session == Some(all[i].session) && (forall|j: int|
                        0 <= j < k ==> (#[trigger] list[j]).tenant != list[k].tenant
                            || list[j].session != list[k].session))
        }),
    decreases n,
{
    if n > 0 {
        the_first_word_on_a_session_counts(seen, list, n - 1);
        let before = with_sessions(seen, list, n - 1)->Ok_0;
        let all = with_sessions(seen, list, n)->Ok_0;
        let next = list[n - 1];
        assert forall|k: int| 0 <= k < n implies (#[trigger] list[k]).tenant is Some
            && list[k].session is Some && session_known(
            all,
            list[k].tenant->0,
            list[k].session->0,
        ) by {
            if k < n - 1 || session_known(before, next.tenant->0, next.session->0) {
                let i = choose|i: int|
                    0 <= i < before.len() && (#[trigger] before[i]).tenant == list[k].tenant->0
                        && before[i].session == list[k].session->0;
                assert(all[i] == before[i]);
            } else {
                let i = before.len() as int;
                assert(all[i].tenant == next.tenant->0);
            }
        }
        assert forall|i: int| seen.len() <= i < all.len() implies (exists|k: int|
            0 <= k < n && session_seen(
                #[trigger] list[k],
                (#[trigger] all[i]).tenant,
                all[i].session,
            ) == Ok::<SessionModel, Unobserved>(all[i]) && list[k].tenant == Some(all[i].tenant)
                && list[k].session == Some(all[i].session) && (forall|j: int|
                0 <= j < k ==> (#[trigger] list[j]).tenant != list[k].tenant || list[j].session
                    != list[k].session)) by {
            if i < before.len() {
                assert(all[i] == before[i]);
                let k = choose|k: int|
                    0 <= k < n - 1 && session_seen(
                        #[trigger] list[k],
                        before[i].tenant,
                        before[i].session,
                    ) == Ok::<SessionModel, Unobserved>(before[i]) && list[k].tenant == Some(
                        before[i].tenant,
                    ) && list[k].session == Some(before[i].session) && (forall|j: int|
                        0 <= j < k ==> (#[trigger] list[j]).tenant != list[k].tenant
                            || list[j].session != list[k].session);
                assert(list[k].tenant == Some(all[i].tenant));
            } else {
                assert(list[n - 1].tenant == Some(all[i].tenant));
                assert forall|j: int| 0 <= j < n - 1 implies (#[trigger] list[j]).tenant
                    != list[n - 1].tenant || list[j].session != list[n - 1].session by {
                    assert(session_known(before, list[j].tenant->0, list[j].session->0));
                }
            }
        }
    }
}

/// What the partitions before say stays as it is, and every session and node of
/// the next one is seen.
pub proof fn every_partition_is_seen(partitions: Seq<AdminPartition>, n: int, i: int, k: int)
    requires
        0 < n <= partitions.len(),
        converted(partitions, n) is Ok,
    ensures
        converted(partitions, n - 1) is Ok,
        !partitions[n - 1].truncated,
        ({
            let before = converted(partitions, n - 1)->Ok_0;
            let all = converted(partitions, n)->Ok_0;
            let next = partitions[n - 1];
            &&& 0 <= i < before.0.len() ==> i < all.0.len() && all.0[i] == before.0[i]
            &&& 0 <= i < before.1.len() ==> i < all.1.len() && all.1[i] == before.1[i]
            &&& 0 <= k < next.sessions@.len() ==> next.sessions@[k].tenant is Some
                && next.sessions@[k].session is Some && session_known(
                all.0,
                next.sessions@[k].tenant->0,
                next.sessions@[k].session->0,
            )
            &&& 0 <= k < next.nodes@.len() ==> node_known(all.1, next.nodes@[k].node)
        }),
{
    let before = converted(partitions, n - 1)->Ok_0;
    let next = partitions[n - 1];
    the_first_word_on_a_session_counts(before.0, next.sessions@, next.sessions@.len() as int);
    the_first_word_on_a_node_counts(before.1, next.nodes@, next.nodes@.len() as int);
}

/// Plans are listed in the order in which they were found, those without an
/// identity left out, and no more than the first that fit.
pub proof fn the_first_plans_are_listed(names: Seq<Option<[u8; 16]>>, n: int)
    requires
        0 <= n <= names.len(),
    ensures
        ({
            let ids = first_ids(names, n);
            &&& ids.len() <= super::apply::MAX_LISTED && ids.len() <= n
            &&& n > 0 && names[n - 1] is None ==> ids == first_ids(names, n - 1)
            &&& n > 0 && names[n - 1] is Some && first_ids(names, n - 1).len()
                < super::apply::MAX_LISTED ==> ids.len() == first_ids(names, n - 1).len() + 1
                && ids.last() == names[n - 1]->0
            &&& n > 0 ==> first_ids(names, n - 1).is_prefix_of(ids)
            &&& (forall|i: int| 0 <= i < n ==> #[trigger] names[i] is None) ==> ids.len() == 0
        }),
    decreases n,
{
    if n > 0 {
        the_first_plans_are_listed(names, n - 1);
        let before = first_ids(names, n - 1);
        assert(before =~= first_ids(names, n).subrange(0, before.len() as int));
        if forall|i: int| 0 <= i < n ==> #[trigger] names[i] is None {
            assert(names[n - 1] is None);
        }
    }
}

/// A failure domain is read back from its own name, in any case of its letters.
pub proof fn a_domain_is_read_back_from_its_name(survive: FailureDomain)
    ensures
        survive_of(survive_text(survive)) == Some(survive),
{
    reveal_strlit("node");
    reveal_strlit("zone");
    reveal_strlit("region");
    assert(super::lower_text("node"@) =~= "node"@);
    assert(super::lower_text("zone"@) =~= "zone"@);
    assert(super::lower_text("region"@) =~= "region"@);
    assert("node"@[0] != "zone"@[0]);
    assert("node"@.len() != "region"@.len());
    assert("zone"@.len() != "region"@.len());
}

/// A view tells one level from another.
pub proof fn a_view_tells_levels_apart(view: LevelView, a: GuaranteeLevel, b: GuaranteeLevel)
    requires
        view.shows(a),
        view.shows(b),
    ensures
        a == b,
        survive_of(view.survive@) == Some(a.survive),
        view.max_failures == a.max_failures,
{
    a_domain_is_read_back_from_its_name(a.survive);
    a_domain_is_read_back_from_its_name(b.survive);
}

/// A view of a session is the view of one session only, each of its facts under
/// its own name.
pub proof fn a_view_tells_sessions_apart(
    view: ObservedSessionView,
    a: SessionModel,
    b: SessionModel,
)
    requires
        view.shows(a),
        view.shows(b),
    ensures
        a.tenant@ == b.tenant@ && a.session@ == b.session@,
        a.epochs == b.epochs && a.voters == b.voters && a.desired == b.desired,
        a.achieved == b.achieved && a.blocked_by == b.blocked_by,
        a.pending is Some == b.pending is Some,
        a.pending is Some ==> a.pending->0@ == b.pending->0@,
        view.route_epoch == a.epochs.route && view.membership_epoch == a.epochs.membership
            && view.placement_epoch == a.epochs.placement && view.voters@ == a.voters,
        view.tenant@.len() == 32 && view.session@.len() == 32,
        hex_text(a.tenant@) == view.tenant@ && hex_text(a.session@) == view.session@,
{
    bytes_are_read_back_from_hex(a.tenant@, b.tenant@);
    bytes_are_read_back_from_hex(a.session@, b.session@);
    a_view_tells_levels_apart(view.desired, a.desired, b.desired);
    if a.achieved is Some {
        a_view_tells_levels_apart(view.achieved->0, a.achieved->0, b.achieved->0);
    }
    if a.pending is Some {
        bytes_are_read_back_from_hex(a.pending->0@, b.pending->0@);
    }
}

/// A view of a change is the view of one change only.
pub proof fn a_view_tells_changes_apart(view: ChangeView, a: ChangeModel, b: ChangeModel)
    requires
        view.shows(a),
        view.shows(b),
    ensures
        a is CommitPolicy == b is CommitPolicy,
        a is PlanSession == b is PlanSession,
        a is NoChange == b is NoChange,
        a is CommitPolicy ==> a == b && view == (ChangeView::CommitPolicy {
            from_revision: a->from_revision,
            to_revision: a->to_revision,
        }),
        a is PlanSession ==> a->PlanSession_tenant@ == b->PlanSession_tenant@
            && a->PlanSession_session@ == b->PlanSession_session@ && a->durability == b->durability
            && a->operation@ == b->operation@ && a->voters == b->voters && a->expected
            == b->expected && a->pending == b->pending && view is PlanSession
            && view->PlanSession_tenant@ == hex_text(a->PlanSession_tenant@)
            && view->PlanSession_session@ == hex_text(a->PlanSession_session@)
            && view->expected_route_epoch == a->expected.route && view->expected_membership_epoch
            == a->expected.membership && view->expected_placement_epoch == a->expected.placement
            && view->voters@ == a->voters && view->pending == a->pending && view->max_failures
            == a->durability.max_failures && survive_of(view->survive@) == Some(
            a->durability.survive,
        ),
        a is NoChange ==> a->NoChange_tenant@ == b->NoChange_tenant@ && a->NoChange_session@
            == b->NoChange_session@,
{
    if a is PlanSession {
        bytes_are_read_back_from_hex(a->PlanSession_tenant@, b->PlanSession_tenant@);
        bytes_are_read_back_from_hex(a->PlanSession_session@, b->PlanSession_session@);
        bytes_are_read_back_from_hex(a->operation@, b->operation@);
        a_domain_is_read_back_from_its_name(a->durability.survive);
        a_domain_is_read_back_from_its_name(b->durability.survive);
    }
    if a is NoChange {
        bytes_are_read_back_from_hex(a->NoChange_tenant@, b->NoChange_tenant@);
        bytes_are_read_back_from_hex(a->NoChange_session@, b->NoChange_session@);
    }
}

/// A name is joined to a path by one stroke, none where the path ends in one or is
/// empty.
pub proof fn a_name_is_joined_by_one_stroke(root: Seq<char>, name: Seq<char>)
    ensures
        joined(root, name).len() >= name.len(),
        joined(root, name).skip(joined(root, name).len() - name.len()) == name,
        root.len() > 0 ==> joined(root, name).take(root.len() as int) == root,
        root.len() == 0 ==> joined(root, name) == name,
        root.len() > 0 && root.last() == '/' ==> joined(root, name).len() == root.len()
            + name.len(),
        root.len() > 0 && root.last() != '/' ==> joined(root, name).len() == root.len() + 1
            + name.len() && joined(root, name)[root.len() as int] == '/',
{
    reveal_strlit("/");
    let all = joined(root, name);
    assert(all.skip(all.len() - name.len()) =~= name);
    assert(all.take(root.len() as int) =~= root);
}

/// A step is reported under its own index, by its own change, in the phase it is
/// recorded in, which is the first where none is.
pub proof fn a_step_is_reported_as_recorded(
    report: StepReport,
    plan: DeploymentPlan,
    journal: Journal,
    index: int,
)
    requires
        0 <= index < plan.body.changes@.len(),
        index <= u32::MAX,
        report.reports(plan, journal, index),
    ensures
        report.index == index,
        report.change.shows(plan.body.changes@[index]@),
        phase_of(journal.steps@, index as u32) matches Some(phase) ==> report.phase == phase,
        phase_of(journal.steps@, index as u32) is None ==> report.phase == Phase::Prepared,
        report.operation is Some <==> operation_of(journal.steps@, index as u32) is Some,
        report.operation matches Some(text) ==> text@ == hex_text(
            operation_of(journal.steps@, index as u32)->0@,
        ),
{
}

/// A session whose classes are no classes is refused for that, one whose operation
/// has no identity for that; a level that is not whole is none.
pub proof fn why_a_session_is_not_seen(entry: AdminSession, tenant: [u8; 16], session: [u8; 16])
    ensures
        ({
            let whole = entry.achieved_survive is Some && entry.achieved_max_failures is Some;
            let odd = whole && survive_of(entry.achieved_survive->0@) is None;
            let nameless = entry.pending is Some && entry.pending->0 is None;
            &&& odd ==> session_seen(entry, tenant, session) == Err::<SessionModel, Unobserved>(
                Unobserved::UnknownClass,
            )
            &&& !odd && nameless ==> session_seen(entry, tenant, session) == Err::<
                SessionModel,
                Unobserved,
            >(Unobserved::InvalidIdentity)
            &&& !odd && !nameless && survive_of(entry.survive@) is None ==> session_seen(
                entry,
                tenant,
                session,
            ) == Err::<SessionModel, Unobserved>(Unobserved::UnknownClass)
            &&& !whole ==> achieved_seen(entry) == Ok::<Option<GuaranteeLevel>, Unobserved>(None)
        }),
{
}

} // verus!
