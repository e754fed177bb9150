//! What planning and applying observe: the committed policy and the
//! directory's sessions as the placement agent reports them.
use super::facts::{
    copy_name, name_of, NodeModel, Observation, ObservedNode, ObservedSession, SessionEpochs,
    SessionModel,
};
use super::facts::DeploymentIdentity;
use super::plan::MAX_SESSIONS;
use super::{parse_survive, survive_of, DeploymentError, GuaranteeLevel};
use crate::codec::models;
use crate::config::policy::CommittedPolicy;
use crate::config::{copy_texts, texts};
use crate::hashing::same_16;
use vstd::prelude::*;

verus! {

/// A node in the placement view.
#[derive(Debug, Clone, PartialEq, Eq)]
pub struct AdminNode {
    pub node: u64,
    pub generation: u64,
    pub alive: bool,
    pub eligible: bool,
    pub disk_available: Option<u64>,
    pub region: Option<String>,
    pub zone: Option<String>,
}

/// A session in the placement view. An identity is absent where its text
/// names none.
#[derive(Debug, Clone, PartialEq, Eq)]
pub struct AdminSession {
    pub tenant: Option<[u8; 16]>,
    pub session: Option<[u8; 16]>,
    pub route_epoch: u64,
    pub membership_epoch: u64,
    pub placement_epoch: u64,
    pub voters: Vec<u64>,
    pub survive: String,
    pub max_failures: u16,
    pub achieved_survive: Option<String>,
    pub achieved_max_failures: Option<u16>,
    /// The pending placement, and its operation where its text names one.
    pub pending: Option<Option<[u8; 16]>>,
    pub blocked_by: Vec<String>,
}

/// One directory partition's part of the placement view.
#[derive(Debug, Clone, PartialEq, Eq)]
pub struct AdminPartition {
    pub truncated: bool,
    pub nodes: Vec<AdminNode>,
    pub sessions: Vec<AdminSession>,
}

/// The placement view.
#[derive(Debug, Clone, PartialEq, Eq)]
pub struct AdminPlacement {
    pub observed_at: i64,
    pub partitions: Vec<AdminPartition>,
}

/// Why a view is no observation.
pub enum Unobserved {
    Truncated,
    Capacity,
    InvalidIdentity,
    UnknownClass,
}

/// Whether an error tells why a view is no observation.
pub open spec fn tells_unobserved(error: DeploymentError, why: Unobserved) -> bool {
    match why {
        Unobserved::Truncated => error is Truncated,
        Unobserved::Capacity => error is Capacity,
        Unobserved::InvalidIdentity => error matches DeploymentError::Corrupt(text) && text@
            == "directory view names an invalid identity"@,
        Unobserved::UnknownClass => error matches DeploymentError::Corrupt(text) && text@
            == "directory view names an unknown failure class"@,
    }
}

/// The level of a failure class name and a count.
pub open spec fn level_named(survive: Seq<char>, max_failures: u16) -> Result<
    GuaranteeLevel,
    Unobserved,
> {
    match survive_of(survive) {
        Some(survive) => Ok(GuaranteeLevel { survive, max_failures }),
        None => Err(Unobserved::UnknownClass),
    }
}

fn level(survive: &str, max_failures: u16) -> (level: Result<GuaranteeLevel, DeploymentError>)
    ensures
        match level {
            Ok(l) => level_named(survive@, max_failures) == Ok::<GuaranteeLevel, Unobserved>(l),
            Err(error) => level_named(survive@, max_failures) matches Err(why)
                && tells_unobserved(error, why),
        },
{
    match parse_survive(survive) {
        Some(survive) => Ok(GuaranteeLevel { survive, max_failures }),
        None => Err(DeploymentError::Corrupt("directory view names an unknown failure class")),
    }
}

/// The node a view's entry describes.
pub open spec fn node_seen(node: AdminNode) -> NodeModel {
    NodeModel {
        node: node.node,
        generation: node.generation,
        alive: node.alive,
        eligible: node.eligible,
        disk_available: node.disk_available,
        region: name_of(node.region),
        zone: name_of(node.zone),
    }
}

/// Whether a node is among those seen.
pub open spec fn node_known(nodes: Seq<NodeModel>, node: u64) -> bool {
    exists|i: int| 0 <= i < nodes.len() && (#[trigger] nodes[i]).node == node
}

/// The nodes after the first `n` of a list, each once: of a node's entries the
/// first seen stays.
pub open spec fn with_nodes(seen: Seq<NodeModel>, list: Seq<AdminNode>, n: int) -> Seq<NodeModel>
    decreases n,
{
    if n <= 0 {
        seen
    } else {
        let before = with_nodes(seen, list, n - 1);
        let next = list[n - 1];
        if node_known(before, next.node) {
            before
        } else {
            before.push(node_seen(next))
        }
    }
}

/// Whether a session is among those seen.
pub open spec fn session_known(
    sessions: Seq<SessionModel>,
    tenant: [u8; 16],
    session: [u8; 16],
) -> bool {
    exists|i: int|
        0 <= i < sessions.len() && (#[trigger] sessions[i]).tenant == tenant && sessions[i].session
            == session
}

/// The level a session achieves, where the view gives it.
pub open spec fn achieved_seen(session: AdminSession) -> Result<
    Option<GuaranteeLevel>,
    Unobserved,
> {
    match (session.achieved_survive, session.achieved_max_failures) {
        (Some(survive), Some(max_failures)) => match level_named(survive@, max_failures) {
            Ok(level) => Ok(Some(level)),
            Err(why) => Err(why),
        },
        _ => Ok(None),
    }
}

/// The session a view's entry describes, under its identity.
pub open spec fn session_seen(
    entry: AdminSession,
    tenant: [u8; 16],
    session: [u8; 16],
) -> Result<SessionModel, Unobserved> {
    match achieved_seen(entry) {
        Err(why) => Err(why),
        Ok(achieved) => if entry.pending matches Some(None) {
            Err(Unobserved::InvalidIdentity)
        } else {
            match level_named(entry.survive@, entry.max_failures) {
                Err(why) => Err(why),
                Ok(desired) => Ok(
                    SessionModel {
                        tenant,
                        session,
                        epochs: SessionEpochs {
                            route: entry.route_epoch,
                            membership: entry.membership_epoch,
                            placement: entry.placement_epoch,
                        },
                        voters: entry.voters@,
                        desired,
                        achieved,
                        pending: match entry.pending {
                            Some(operation) => operation,
                            None => None,
                        },
                        blocked_by: texts(entry.blocked_by@),
                    },
                ),
            }
        },
    }
}

/// The sessions after one more entry: a known one is passed over.
pub open spec fn with_session(seen: Seq<SessionModel>, entry: AdminSession) -> Result<
    Seq<SessionModel>,
    Unobserved,
> {
    match (entry.tenant, entry.session) {
        (Some(tenant), Some(session)) => if session_known(seen, tenant, session) {
            Ok(seen)
        } else if seen.len() >= MAX_SESSIONS {
            Err(Unobserved::Capacity)
        } else {
            match session_seen(entry, tenant, session) {
                Ok(next) => Ok(seen.push(next)),
                Err(why) => Err(why),
            }
        },
        _ => Err(Unobserved::InvalidIdentity),
    }
}

/// The sessions after the first `n` entries of a list.
pub open spec fn with_sessions(
    seen: Seq<SessionModel>,
    list: Seq<AdminSession>,
    n: int,
) -> Result<Seq<SessionModel>, Unobserved>
    decreases n,
{
    if n <= 0 {
        Ok(seen)
    } else {
        match with_sessions(seen, list, n - 1) {
            Err(why) => Err(why),
            Ok(before) => with_session(before, list[n - 1]),
        }
    }
}

/// The sessions and nodes of the first `n` partitions.
pub open spec fn converted(partitions: Seq<AdminPartition>, n: int) -> Result<
    (Seq<SessionModel>, Seq<NodeModel>),
    Unobserved,
>
    decreases n,
{
    if n <= 0 {
        Ok((Seq::empty(), Seq::empty()))
    } else {
        match converted(partitions, n - 1) {
            Err(why) => Err(why),
            Ok((sessions, nodes)) => {
                let next = partitions[n - 1];
                if next.truncated {
                    Err(Unobserved::Truncated)
                } else {
                    match with_sessions(sessions, next.sessions@, next.sessions@.len() as int) {
                        Err(why) => Err(why),
                        Ok(more) => Ok(
                            (more, with_nodes(nodes, next.nodes@, next.nodes@.len() as int)),
                        ),
                    }
                }
            },
        }
    }
}

fn knows_node(nodes: &Vec<ObservedNode>, node: u64) -> (known: bool)
    ensures
        known == node_known(models(nodes@), node),
{
    let ghost all = models(nodes@);
    let mut i: usize = 0;
    while i < nodes.len()
        invariant
            i <= nodes.len(),
            all == models(nodes@),
            forall|j: int| 0 <= j < i ==> (#[trigger] all[j]).node != node,
        decreases nodes.len() - i,
    {
        assert(all[i as int] == nodes@[i as int]@);
        if nodes[i].node == node {
            assert(all[i as int].node == node);
            return true;
        }
        i += 1;
    }
    false
}

fn knows_session(
    sessions: &Vec<ObservedSession>,
    tenant: &[u8; 16],
    session: &[u8; 16],
) -> (known: bool)
    ensures
        known == session_known(models(sessions@), *tenant, *session),
{
    let ghost all = models(sessions@);
    let mut i: usize = 0;
    while i < sessions.len()
        invariant
            i <= sessions.len(),
            all == models(sessions@),
            forall|j: int|
                0 <= j < i ==> !((#[trigger] all[j]).tenant == *tenant && all[j].session
                    == *session),
        decreases sessions.len() - i,
    {
        assert(all[i as int] == sessions@[i as int]@);
        if same_16(&sessions[i].tenant, tenant) && same_16(&sessions[i].session, session) {
            assert(all[i as int].tenant == *tenant && all[i as int].session == *session);
            return true;
        }
        i += 1;
    }
    false
}

fn add_nodes(nodes: &mut Vec<ObservedNode>, list: &Vec<AdminNode>)
    ensures
        models(final(nodes)@) == with_nodes(models(old(nodes)@), list@, list@.len() as int),
{
    let mut i: usize = 0;
    let ghost seen = models(nodes@);
    while i < list.len()
        invariant
            i <= list.len(),
            models(nodes@) == with_nodes(seen, list@, i as int),
        decreases list.len() - i,
    {
        let next = &list[i];
        if !knows_node(nodes, next.node) {
            let ghost before = models(nodes@);
            nodes.push(
                ObservedNode {
                    node: next.node,
                    generation: next.generation,
                    alive: next.alive,
                    eligible: next.eligible,
                    disk_available: next.disk_available,
                    region: copy_name(&next.region),
                    zone: copy_name(&next.zone),
                },
            );
            assert(models(nodes@) =~= before.push(node_seen(*next)));
        }
        i += 1;
    }
}

fn convert_session(
    entry: &AdminSession,
    tenant: &[u8; 16],
    session: &[u8; 16],
) -> (seen: Result<ObservedSession, DeploymentError>)
    ensures
        match seen {
            Ok(s) => session_seen(*entry, *tenant, *session) == Ok::<SessionModel, Unobserved>(s@),
            Err(error) => session_seen(*entry, *tenant, *session) matches Err(why)
                && tells_unobserved(error, why),
        },
{
    let achieved = match (&entry.achieved_survive, entry.achieved_max_failures) {
        (Some(survive), Some(max_failures)) => Some(level(survive.as_str(), max_failures)?),
        _ => None,
    };
    let pending = match entry.pending {
        Some(Some(operation)) => Some(operation),
        Some(None) => {
            return Err(DeploymentError::Corrupt("directory view names an invalid identity"));
        },
        None => None,
    };
    let desired = level(entry.survive.as_str(), entry.max_failures)?;
    let voters = entry.voters.clone();
    assert(voters@ =~= entry.voters@);
    Ok(
        ObservedSession {
            tenant: *tenant,
            session: *session,
            epochs: SessionEpochs {
                route: entry.route_epoch,
                membership: entry.membership_epoch,
                placement: entry.placement_epoch,
            },
            voters,
            desired,
            achieved,
            pending,
            blocked_by: copy_texts(&entry.blocked_by),
        },
    )
}

fn add_session(sessions: &mut Vec<ObservedSession>, entry: &AdminSession) -> (done: Result<
    (),
    DeploymentError,
>)
    ensures
        match done {
            Ok(_) => with_session(models(old(sessions)@), *entry) == Ok::<
                Seq<SessionModel>,
                Unobserved,
            >(models(final(sessions)@)),
            Err(error) => with_session(models(old(sessions)@), *entry) matches Err(why)
                && tells_unobserved(error, why),
        },
{
    let tenant = match entry.tenant {
        Some(tenant) => tenant,
        None => {
            return Err(DeploymentError::Corrupt("directory view names an invalid identity"));
        },
    };
    let session = match entry.session {
        Some(session) => session,
        None => {
            return Err(DeploymentError::Corrupt("directory view names an invalid identity"));
        },
    };
    if knows_session(sessions, &tenant, &session) {
        return Ok(());
    }
    assert(models(sessions@).len() == sessions@.len());
    if sessions.len() >= MAX_SESSIONS {
        return Err(DeploymentError::Capacity);
    }
    let next = convert_session(entry, &tenant, &session)?;
    let ghost before = models(sessions@);
    let ghost value = next@;
    sessions.push(next);
    assert(models(sessions@) =~= before.push(value));
    Ok(())
}

/// Sessions in partition order, each once, and every node the partitions
/// know, each once. Of several entries the first stays.
pub fn convert(view: &AdminPlacement) -> (found: Result<
    (Vec<ObservedSession>, Vec<ObservedNode>),
    DeploymentError,
>)
    ensures
        match found {
            Ok(f) => converted(view.partitions@, view.partitions@.len() as int) == Ok::<
                (Seq<SessionModel>, Seq<NodeModel>),
                Unobserved,
            >((models(f.0@), models(f.1@))),
            Err(error) => converted(
                view.partitions@,
                view.partitions@.len() as int,
            ) matches Err(why) && tells_unobserved(error, why),
        },
{
    let mut sessions: Vec<ObservedSession> = Vec::new();
    let mut nodes: Vec<ObservedNode> = Vec::new();
    let mut i: usize = 0;
    assert(models(sessions@) =~= Seq::<SessionModel>::empty());
    assert(models(nodes@) =~= Seq::<NodeModel>::empty());
    let ghost all = view.partitions@;
    while i < view.partitions.len()
        invariant
            i <= view.partitions.len(),
            all == view.partitions@,
            converted(all, i as int) == Ok::<(Seq<SessionModel>, Seq<NodeModel>), Unobserved>(
                (models(sessions@), models(nodes@)),
            ),
        decreases view.partitions.len() - i,
    {
        let partition = &view.partitions[i];
        if partition.truncated {
            proof {
                lemma_converted_stops(all, i + 1, all.len() as int);
            }
            return Err(DeploymentError::Truncated);
        }
        add_nodes(&mut nodes, &partition.nodes);
        let ghost before = models(sessions@);
        let ghost list = partition.sessions@;
        let mut j: usize = 0;
        while j < partition.sessions.len()
            invariant
                j <= partition.sessions.len(),
                list == partition.sessions@,
                i < all.len(),
                all == view.partitions@,
                *partition == all[i as int],
                !partition.truncated,
                converted(all, i as int) matches Ok(seen) && seen.0 == before,
                with_sessions(before, list, j as int) == Ok::<Seq<SessionModel>, Unobserved>(
                    models(sessions@),
                ),
            decreases partition.sessions.len() - j,
        {
            match add_session(&mut sessions, &partition.sessions[j]) {
                Ok(_) => {},
                Err(error) => {
                    proof {
                        lemma_sessions_stop(before, list, j + 1, list.len() as int);
                        lemma_converted_stops(all, i + 1, all.len() as int);
                    }
                    return Err(error);
                },
            }
            j += 1;
        }
        i += 1;
    }
    Ok((sessions, nodes))
}

proof fn lemma_sessions_stop(seen: Seq<SessionModel>, list: Seq<AdminSession>, at: int, n: int)
    requires
        0 <= at <= n <= list.len(),
        with_sessions(seen, list, at) is Err,
    ensures
        with_sessions(seen, list, n) == with_sessions(seen, list, at),
    decreases n - at,
{
    if at < n {
        lemma_sessions_stop(seen, list, at, n - 1);
    }
}

proof fn lemma_converted_stops(partitions: Seq<AdminPartition>, at: int, n: int)
    requires
        0 <= at <= n <= partitions.len(),
        converted(partitions, at) is Err,
    ensures
        converted(partitions, n) == converted(partitions, at),
    decreases n - at,
{
    if at < n {
        lemma_converted_stops(partitions, at, n - 1);
    }
}

/// Observe the node: its committed policy and, when it runs a directory,
/// every session the placement view names. A truncated view is refused
/// because a plan must name every session it covers.
pub fn observe(
    deployment: DeploymentIdentity,
    committed: CommittedPolicy,
    view: Option<&AdminPlacement>,
) -> (observation: Result<Observation, DeploymentError>)
    ensures
        view is None ==> (observation matches Ok(o) && o.deployment == deployment && o.committed
            == committed && o.observed_at == 0 && o.sessions@.len() == 0 && o.nodes@.len() == 0),
        view matches Some(v) ==> match observation {
            Ok(o) => o.deployment == deployment && o.committed == committed && o.observed_at
                == v.observed_at && converted(v.partitions@, v.partitions@.len() as int) == Ok::<
                (Seq<SessionModel>, Seq<NodeModel>),
                Unobserved,
            >((models(o.sessions@), models(o.nodes@))),
            Err(error) => converted(v.partitions@, v.partitions@.len() as int) matches Err(why)
                && tells_unobserved(error, why),
        },
{
    match view {
        None => Ok(
            Observation {
                deployment,
                committed,
                observed_at: 0,
                sessions: Vec::new(),
                nodes: Vec::new(),
            },
        ),
        Some(view) => {
            let (sessions, nodes) = convert(view)?;
            Ok(
                Observation {
                    deployment,
                    committed,
                    observed_at: view.observed_at,
                    sessions,
                    nodes,
                },
            )
        },
    }
}

/// An observation names no session twice and at most as many as a plan may.
pub proof fn observed_sessions_are_distinct(partitions: Seq<AdminPartition>, n: int)
    requires
        0 <= n <= partitions.len(),
        converted(partitions, n) is Ok,
    ensures
        converted(partitions, n) matches Ok(seen) && super::apply::distinct(seen.0) && seen.0.len()
            <= MAX_SESSIONS,
    decreases n,
{
    if n > 0 {
        observed_sessions_are_distinct(partitions, n - 1);
        if let Ok((sessions, nodes)) = converted(partitions, n - 1) {
            let list = partitions[n - 1].sessions@;
            lemma_distinct_sessions(sessions, list, list.len() as int);
        }
    }
}

proof fn lemma_distinct_sessions(seen: Seq<SessionModel>, list: Seq<AdminSession>, n: int)
    requires
        0 <= n <= list.len(),
        super::apply::distinct(seen),
        seen.len() <= MAX_SESSIONS,
        with_sessions(seen, list, n) is Ok,
    ensures
        with_sessions(seen, list, n) matches Ok(more) && super::apply::distinct(more) && more.len()
            <= MAX_SESSIONS,
    decreases n,
{
    if n > 0 {
        lemma_distinct_sessions(seen, list, n - 1);
    }
}

/// No two of the nodes are the same.
pub open spec fn nodes_differ(nodes: Seq<NodeModel>) -> bool {
    forall|i: int, j: int|
        0 <= i < j < nodes.len() ==> (#[trigger] nodes[i]).node != (#[trigger] nodes[j]).node
}

/// Whether one of the first `n` entries of a list names a node.
pub open spec fn lists_node(list: Seq<AdminNode>, n: int, node: u64) -> bool {
    exists|i: int| 0 <= i < n && (#[trigger] list[i]).node == node
}

/// Whether one of the first `n` partitions names a node.
pub open spec fn names_node(partitions: Seq<AdminPartition>, n: int, node: u64) -> bool {
    exists|p: int|
        0 <= p < n && lists_node(
            (#[trigger] partitions[p]).nodes@,
            partitions[p].nodes@.len() as int,
            node,
        )
}

/// An observation names every node of its partitions exactly once, and no
/// other.
pub proof fn observed_nodes_are_each_once(partitions: Seq<AdminPartition>, n: int)
    requires
        0 <= n <= partitions.len(),
    ensures
        converted(partitions, n) matches Ok(seen) ==> {
            &&& forall|i: int, j: int|
                0 <= i < j < seen.1.len() ==> (#[trigger] seen.1[i]).node != (
                #[trigger] seen.1[j]).node
            &&& forall|node: u64| #[trigger]
                node_known(seen.1, node) <==> names_node(partitions, n, node)
        },
    decreases n,
{
    if n > 0 {
        observed_nodes_are_each_once(partitions, n - 1);
        if let Ok((sessions, nodes)) = converted(partitions, n - 1) {
            let list = partitions[n - 1].nodes@;
            lemma_nodes_once(nodes, list, list.len() as int);
            if let Ok(seen) = converted(partitions, n) {
                assert forall|node: u64| #[trigger]
                    node_known(seen.1, node) <==> names_node(partitions, n, node) by {
                    if names_node(partitions, n - 1, node) {
                        let p = choose|p: int|
                            0 <= p < n - 1 && lists_node(
                                (#[trigger] partitions[p]).nodes@,
                                partitions[p].nodes@.len() as int,
                                node,
                            );
                        assert(lists_node(
                            partitions[p].nodes@,
                            partitions[p].nodes@.len() as int,
                            node,
                        ));
                    }
                    if lists_node(list, list.len() as int, node) {
                        assert(lists_node(
                            partitions[n - 1].nodes@,
                            partitions[n - 1].nodes@.len() as int,
                            node,
                        ));
                    }
                    if names_node(partitions, n, node) {
                        let p = choose|p: int|
                            0 <= p < n && lists_node(
                                (#[trigger] partitions[p]).nodes@,
                                partitions[p].nodes@.len() as int,
                                node,
                            );
                        if p < n - 1 {
                            assert(names_node(partitions, n - 1, node));
                        }
                    }
                    assert(node_known(nodes, node) <==> names_node(partitions, n - 1, node));
                    assert(node_known(seen.1, node) <==> node_known(nodes, node) || lists_node(
                        list,
                        list.len() as int,
                        node,
                    ));
                }
            }
        }
    }
}

proof fn lemma_nodes_once(seen: Seq<NodeModel>, list: Seq<AdminNode>, n: int)
    requires
        0 <= n <= list.len(),
        nodes_differ(seen),
    ensures
        nodes_differ(with_nodes(seen, list, n)),
        forall|node: u64| #[trigger]
            node_known(with_nodes(seen, list, n), node) <==> node_known(seen, node) || lists_node(
                list,
                n,
                node,
            ),
    decreases n,
{
    if n > 0 {
        lemma_nodes_once(seen, list, n - 1);
        let before = with_nodes(seen, list, n - 1);
        let after = with_nodes(seen, list, n);
        let next = list[n - 1];
        assert forall|node: u64| #[trigger]
            node_known(after, node) <==> node_known(seen, node) || lists_node(list, n, node) by {
            assert(node_known(before, node) <==> node_known(seen, node) || lists_node(
                list,
                n - 1,
                node,
            ));
            if lists_node(list, n - 1, node) {
                let i = choose|i: int| 0 <= i < n - 1 && (#[trigger] list[i]).node == node;
                assert(list[i].node == node);
            }
            if lists_node(list, n, node) {
                let i = choose|i: int| 0 <= i < n && (#[trigger] list[i]).node == node;
                if i < n - 1 {
                    assert(lists_node(list, n - 1, node));
                }
            }
            if node == next.node {
                assert(list[n - 1].node == node);
            }
            if node_known(before, node) {
                let i = choose|i: int|
                    0 <= i < before.len() && (#[trigger] before[i]).node == node;
                assert(after[i] == before[i]);
            }
            if !node_known(before, next.node) {
                assert(after[before.len() as int] == node_seen(next));
                if node_known(after, node) && node != next.node {
                    let i = choose|i: int|
                        0 <= i < after.len() && (#[trigger] after[i]).node == node;
                    assert(before[i] == after[i]);
                }
            }
        }
    }
}

/// Every partition of an accepted view is whole.
pub proof fn a_truncated_view_is_refused(partitions: Seq<AdminPartition>, n: int, i: int)
    requires
        0 <= i < n <= partitions.len(),
        partitions[i].truncated,
    ensures
        converted(partitions, n) is Err,
    decreases n,
{
    if i < n - 1 {
        a_truncated_view_is_refused(partitions, n - 1, i);
    }
}

} // verus!
