//! What an application reports, and where its files lie.
use super::facts::DeploymentPlan;
use super::journal::{operation_of, phase_of, Journal, Outcome, Phase};
use super::views::{ChangeView, GuaranteeView};
use crate::ids::{id_before, is_before, lemma_order};
use crate::text::{hex, hex_text};
use vstd::prelude::*;
use vstd::string::StringExecFns;

verus! {

/// A path with a name joined to it.
pub open spec fn joined(root: Seq<char>, name: Seq<char>) -> Seq<char> {
    if root.len() == 0 {
        name
    } else if root.last() == '/' {
        root + name
    } else {
        root + "/"@ + name
    }
}

/// Join a relative name to a path.
pub fn join(root: &str, name: &str) -> (path: String)
    ensures
        path@ == joined(root@, name@),
{
    let count: usize = root.unicode_len();
    if count == 0 {
        String::from_str(name)
    } else if root.get_char(count - 1) == '/' {
        String::from_str(root).concat(name)
    } else {
        String::from_str(root).concat("/").concat(name)
    }
}

/// Where a plan's journal lies under the node's data directory.
pub open spec fn journal_path(root: Seq<char>, plan_id: [u8; 16]) -> Seq<char> {
    joined(joined(joined(root, "cluster"@), "apply"@), hex_text(plan_id@))
}

/// Where a plan's journal lies under the node's data directory.
pub fn journal_dir(root: &str, plan_id: &[u8; 16]) -> (path: String)
    ensures
        path@ == journal_path(root@, *plan_id),
{
    let cluster = join(root, "cluster");
    let apply = join(cluster.as_str(), "apply");
    join(apply.as_str(), hex(plan_id.as_slice()).as_str())
}

/// One step, reported.
#[derive(Debug, Clone, PartialEq, Eq)]
pub struct StepReport {
    pub index: u32,
    pub change: ChangeView,
    pub phase: Phase,
    pub operation: Option<String>,
}

/// An application, reported.
#[derive(Debug, Clone, PartialEq, Eq)]
pub struct ApplyReport {
    pub kind: &'static str,
    pub plan_id: String,
    pub outcome: Outcome,
    pub steps: Vec<StepReport>,
    pub guarantee: GuaranteeView,
    pub journal: String,
}

impl StepReport {
    /// Whether this is how a step of a plan is reported.
    pub open spec fn reports(self, plan: DeploymentPlan, journal: Journal, index: int) -> bool {
        &&& self.index == index
        &&& self.change.shows(plan.body.changes@[index]@)
        &&& self.phase == (match phase_of(journal.steps@, index as u32) {
            Some(phase) => phase,
            None => Phase::Prepared,
        })
        &&& match operation_of(journal.steps@, index as u32) {
            Some(operation) => self.operation matches Some(text) && text@ == hex_text(operation@),
            None => self.operation is None,
        }
    }
}

/// Report an application: every step of the plan with what its journal
/// recorded.
pub fn report(
    kind: &'static str,
    root: &str,
    plan: &DeploymentPlan,
    journal: &Journal,
) -> (report: ApplyReport)
    requires
        plan.body.changes@.len() <= u32::MAX,
    ensures
        report.kind@ == kind@,
        report.plan_id@ == hex_text(plan.plan_id@),
        report.outcome@ == journal.outcome@,
        report.steps@.len() == plan.body.changes@.len(),
        forall|i: int|
            0 <= i < report.steps@.len() ==> (#[trigger] report.steps@[i]).reports(
                *plan,
                *journal,
                i,
            ),
        report.guarantee.shows(plan.body.guarantee),
        report.journal@ == journal_path(root@, plan.plan_id),
{
    let mut steps: Vec<StepReport> = Vec::new();
    let mut i: usize = 0;
    while i < plan.body.changes.len()
        invariant
            i <= plan.body.changes.len() <= u32::MAX,
            steps@.len() == i,
            forall|j: int|
                0 <= j < i ==> (#[trigger] steps@[j]).reports(*plan, *journal, j),
        decreases plan.body.changes.len() - i,
    {
        let index: u32 = i as u32;
        let phase = match journal.phase(index) {
            Some(phase) => phase,
            None => Phase::Prepared,
        };
        let operation = match journal.operation(index) {
            Some(operation) => Some(hex(operation.as_slice())),
            None => None,
        };
        steps.push(
            StepReport { index, change: ChangeView::of(&plan.body.changes[i]), phase, operation },
        );
        i += 1;
    }
    ApplyReport {
        kind,
        plan_id: hex(plan.plan_id.as_slice()),
        outcome: journal.outcome.duplicate(),
        steps,
        guarantee: GuaranteeView::of(plan.body.guarantee),
        journal: journal_dir(root, &plan.plan_id),
    }
}

/// The identities at the front of a directory's names, as many as are
/// listed; names that are no identity are passed over.
pub open spec fn first_ids(names: Seq<Option<[u8; 16]>>, n: int) -> Seq<[u8; 16]>
    decreases n,
{
    if n <= 0 {
        Seq::empty()
    } else {
        let before = first_ids(names, n - 1);
        match names[n - 1] {
            Some(id) if before.len() < super::apply::MAX_LISTED => before.push(id),
            _ => before,
        }
    }
}

/// No identity stands before the one in front of it.
pub open spec fn ascending(ids: Seq<[u8; 16]>) -> bool {
    forall|i: int, j: int|
        0 <= i < j < ids.len() ==> !id_before(#[trigger] ids[j], #[trigger] ids[i], 0)
}

/// The plans a status lists: the first identities found, in order.
pub fn listed(names: &Vec<Option<[u8; 16]>>) -> (ids: Vec<[u8; 16]>)
    ensures
        ascending(ids@),
        ids@.to_multiset() == first_ids(names@, names@.len() as int).to_multiset(),
        ids@.len() <= super::apply::MAX_LISTED,
{
    broadcast use vstd::seq_lib::group_to_multiset_ensures;

    let mut ids: Vec<[u8; 16]> = Vec::new();
    let mut i: usize = 0;
    assert(ids@ =~= first_ids(names@, 0));
    while i < names.len()
        invariant
            i <= names.len(),
            ascending(ids@),
            ids@.len() <= super::apply::MAX_LISTED,
            ids@.len() == first_ids(names@, i as int).len(),
            ids@.to_multiset() == first_ids(names@, i as int).to_multiset(),
        decreases names.len() - i,
    {
        if let Some(id) = names[i] {
            if ids.len() < super::apply::MAX_LISTED {
                insert(&mut ids, id);
                proof {
                    vstd::seq_lib::to_multiset_build(first_ids(names@, i as int), id);
                }
            }
        }
        i += 1;
    }
    ids
}

/// Insert an identity where it keeps the order.
fn insert(ids: &mut Vec<[u8; 16]>, id: [u8; 16])
    requires
        ascending(old(ids)@),
    ensures
        ascending(final(ids)@),
        final(ids)@.len() == old(ids)@.len() + 1,
        final(ids)@.to_multiset() == old(ids)@.to_multiset().insert(id),
{
    broadcast use vstd::seq_lib::group_to_multiset_ensures;

    let mut at: usize = 0;
    while at < ids.len() && !is_before(&id, &ids[at])
        invariant
            at <= ids.len(),
            forall|j: int| 0 <= j < at ==> !id_before(id, #[trigger] ids@[j], 0),
        decreases ids.len() - at,
    {
        at += 1;
    }
    let ghost before = ids@;
    proof {
        assert forall|j: int| at <= j < before.len() implies !id_before(#[trigger] before[j], id, 0) by {
            lemma_order(id, before[at as int], before[j], 0);
            if j > at {
                assert(!id_before(before[j], before[at as int], 0));
            }
        }
    }
    ids.insert(at, id);
    proof {
        assert forall|i: int, j: int| 0 <= i < j < ids@.len() implies !id_before(
            #[trigger] ids@[j],
            #[trigger] ids@[i],
            0,
        ) by {
            let a = if i < at {
                i
            } else {
                i - 1
            };
            let b = if j < at {
                j
            } else {
                j - 1
            };
            if i != at && j != at {
                assert(ids@[i] == before[a] && ids@[j] == before[b]);
            } else if i == at {
                assert(ids@[j] == before[b]);
            } else {
                assert(ids@[i] == before[a]);
            }
        }
        before.to_multiset_ensures();
        assert(ids@ =~= before.insert(at as int, id));
        vstd::seq_lib::to_multiset_insert(before, at as int, id);
    }
}

} // verus!
