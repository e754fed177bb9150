//! Where a session's evidence is kept.
use super::CustodyScope;
use crate::access::AccessError;
use crate::hashing::{is_zero_16, zero_16};
use crate::ids::LedgerId;
use crate::nodes::{same_set, union};
use std::collections::BTreeSet;
use vstd::prelude::*;

verus! {

broadcast use vstd::std_specs::btree::group_btree_axioms;

/// Members of one kind a placement holds at most.
pub const MAX_MEMBERS: usize = 1024;

/// The residency boundary every transfer is checked against: every node
/// where it is open, else those it admits. Its charge is absent where it
/// cannot be accounted.
#[derive(Debug, Clone, PartialEq, Eq)]
pub struct ResidencyFence {
    pub open: bool,
    pub admitted: BTreeSet<u64>,
    pub charge: Option<usize>,
}

impl ResidencyFence {
    /// Whether a copy may stand on a node.
    pub open spec fn allows(self, node: u64) -> bool {
        self.open || self.admitted@.contains(node)
    }

    /// Whether a copy may stand on a node.
    pub fn admits(&self, node: u64) -> (admitted: bool)
        ensures
            admitted == self.allows(node),
    {
        self.open || self.admitted.contains(&node)
    }

    /// Copy the fence.
    pub fn duplicate(&self) -> (copy: Self)
        ensures
            copy.like(*self),
    {
        ResidencyFence { open: self.open, admitted: self.admitted.clone(), charge: self.charge }
    }

    /// Whether two fences bound the same.
    pub open spec fn like(self, other: Self) -> bool {
        self.open == other.open && self.admitted@ == other.admitted@ && self.charge == other.charge
    }

    /// Whether two fences bound the same.
    pub fn same(&self, other: &Self) -> (same: bool)
        ensures
            same == self.like(*other),
    {
        let charges = match (self.charge, other.charge) {
            (Some(a), Some(b)) => a == b,
            (None, None) => true,
            _ => false,
        };
        self.open == other.open && same_set(&self.admitted, &other.admitted) && charges
    }
}

/// A committed placement: the session's voters and the copies its content
/// owes.
#[derive(Debug, Clone, PartialEq, Eq)]
pub struct EvidencePlacement {
    pub scope: CustodyScope,
    pub voters: BTreeSet<u64>,
    pub copies: BTreeSet<u64>,
    pub fence: ResidencyFence,
}

/// What the content owner is told of a placement.
#[derive(Debug, Clone, PartialEq, Eq)]
pub struct CustodyPolicy {
    pub ledger: LedgerId,
    pub route_epoch: u64,
    pub policy_revision: u64,
    pub peers: BTreeSet<u64>,
}

/// A scope that names a ledger, a route and a policy.
pub open spec fn scoped(scope: CustodyScope) -> bool {
    !zero_16(scope.ledger.tenant) && !zero_16(scope.ledger.session) && scope.route_epoch != 0
        && scope.policy_revision != 0
}

fn is_scoped(scope: &CustodyScope) -> (named: bool)
    ensures
        named == scoped(*scope),
{
    !is_zero_16(&scope.ledger.tenant) && !is_zero_16(&scope.ledger.session) && scope.route_epoch
        != 0 && scope.policy_revision != 0
}

/// The members of a list.
pub fn collect(list: &Vec<u64>) -> (set: BTreeSet<u64>)
    ensures
        set@ == list@.to_set(),
{
    let mut set: BTreeSet<u64> = BTreeSet::new();
    let mut i: usize = 0;
    assert(list@.take(0).to_set() =~= Set::<u64>::empty());
    while i < list.len()
        invariant
            i <= list.len(),
            set@ == list@.take(i as int).to_set(),
        decreases list.len() - i,
    {
        set.insert(list[i]);
        proof {
            let done = list@.take(i as int);
            let next = list@.take(i + 1);
            assert(next =~= done.push(list@[i as int]));
            assert(next.to_set() =~= done.to_set().insert(list@[i as int])) by {
                assert forall|n: u64| next.to_set().contains(n) <==> done.to_set().insert(
                    list@[i as int],
                ).contains(n) by {
                    if done.contains(n) {
                        let k = choose|k: int| 0 <= k < done.len() && done[k] == n;
                        assert(next[k] == n);
                    }
                    if next.contains(n) {
                        let k = choose|k: int| 0 <= k < next.len() && next[k] == n;
                        if k < i {
                            assert(done[k] == n);
                        }
                    }
                    assert(next[i as int] == list@[i as int]);
                }
            }
        }
        i += 1;
    }
    assert(list@.take(list@.len() as int) =~= list@);
    set
}

/// The bytes a placement's members are charged, where they fit.
pub fn members_charge(voters: usize, copies: usize) -> (bytes: Option<usize>)
    ensures
        bytes == (if (voters + copies) * 128 + 512 <= usize::MAX {
            Some(((voters + copies) * 128 + 512) as usize)
        } else {
            None::<usize>
        }),
{
    let members: usize = match voters.checked_add(copies) {
        Some(members) => members,
        None => return None,
    };
    let bytes: usize = match members.checked_mul(128) {
        Some(bytes) => bytes,
        None => return None,
    };
    bytes.checked_add(512)
}

impl EvidencePlacement {
    /// Whether two placements are the same.
    pub open spec fn like(self, other: Self) -> bool {
        self.scope == other.scope && self.voters@ == other.voters@ && self.copies@ == other.copies@
            && self.fence.like(other.fence)
    }

    /// A placement holds a bounded number of members.
    pub open spec fn bounded(self) -> bool {
        self.voters@.len() <= MAX_MEMBERS && self.copies@.len() <= MAX_MEMBERS
    }

    /// Only a trusted committed placement owner may install this
    /// configuration. `sound` is the solver's own finding on residency and
    /// declared failure survival; the fence is absent where it could not be
    /// built.
    pub fn verified(
        scope: CustodyScope,
        voters: &Vec<u64>,
        copies: &Vec<u64>,
        sound: bool,
        fence: Option<ResidencyFence>,
    ) -> (placement: Result<Self, AccessError>)
        ensures
            if !scoped(scope) {
                placement == Err::<Self, AccessError>(AccessError::InvalidRequest)
            } else if !sound {
                placement == Err::<Self, AccessError>(AccessError::Unavailable)
            } else if voters@.len() > MAX_MEMBERS || copies@.len() > MAX_MEMBERS || fence is None {
                placement == Err::<Self, AccessError>(AccessError::Capacity)
            } else {
                placement matches Ok(p) && p.scope == scope && p.voters@ == voters@.to_set()
                    && p.copies@ == copies@.to_set() && Some(p.fence) == fence && p.bounded()
            },
    {
        if !is_scoped(&scope) {
            return Err(AccessError::InvalidRequest);
        }
        if !sound {
            return Err(AccessError::Unavailable);
        }
        if voters.len() > MAX_MEMBERS || copies.len() > MAX_MEMBERS {
            return Err(AccessError::Capacity);
        }
        match fence {
            None => Err(AccessError::Capacity),
            Some(fence) => {
                proof {
                    voters@.lemma_cardinality_of_set();
                    copies@.lemma_cardinality_of_set();
                }
                Ok(
                    EvidencePlacement {
                        scope,
                        voters: collect(voters),
                        copies: collect(copies),
                        fence,
                    },
                )
            },
        }
    }

    /// A placement the directory has committed and the agent installs on
    /// this node; the members are the committed voters and content copies.
    pub fn committed(
        scope: CustodyScope,
        voters: BTreeSet<u64>,
        copies: BTreeSet<u64>,
        fence: ResidencyFence,
    ) -> (placement: Result<Self, AccessError>)
        ensures
            if !scoped(scope) || voters@.is_empty() || copies@.is_empty() {
                placement == Err::<Self, AccessError>(AccessError::InvalidRequest)
            } else if voters@.len() > MAX_MEMBERS || copies@.len() > MAX_MEMBERS {
                placement == Err::<Self, AccessError>(AccessError::Capacity)
            } else {
                placement == Ok::<Self, AccessError>(
                    EvidencePlacement { scope, voters, copies, fence },
                ) && (placement matches Ok(p) ==> p.bounded())
            },
    {
        if !is_scoped(&scope) || voters.is_empty() || copies.is_empty() {
            return Err(AccessError::InvalidRequest);
        }
        if voters.len() > MAX_MEMBERS || copies.len() > MAX_MEMBERS {
            return Err(AccessError::Capacity);
        }
        Ok(EvidencePlacement { scope, voters, copies, fence })
    }

    /// The placement's scope.
    pub fn scope(&self) -> (scope: CustodyScope)
        ensures
            scope == self.scope,
    {
        self.scope
    }

    /// Whether a copy may move to `node` under the residency boundary:
    /// refused before any byte moves.
    pub fn admits(&self, node: u64) -> (done: Result<(), AccessError>)
        ensures
            done == (if self.fence.allows(node) {
                Ok::<(), AccessError>(())
            } else {
                Err::<(), AccessError>(AccessError::Unauthorized)
            }),
    {
        if self.fence.admits(node) {
            Ok(())
        } else {
            Err(AccessError::Unauthorized)
        }
    }

    /// What the content owner is told.
    pub fn custody_policy(&self) -> (policy: CustodyPolicy)
        ensures
            policy.ledger == self.scope.ledger,
            policy.route_epoch == self.scope.route_epoch,
            policy.policy_revision == self.scope.policy_revision,
            policy.peers@ == self.voters@.union(self.copies@),
    {
        CustodyPolicy {
            ledger: self.scope.ledger,
            route_epoch: self.scope.route_epoch,
            policy_revision: self.scope.policy_revision,
            peers: union(&self.voters, &self.copies),
        }
    }

    /// The bytes a placement is charged: its members and its fence.
    pub open spec fn charge(self) -> Option<int> {
        match self.fence.charge {
            None => None,
            Some(fence) => Some((self.voters@.len() + self.copies@.len()) * 128 + 512 + fence),
        }
    }

    /// The bytes a placement is charged.
    pub fn bytes(&self) -> (bytes: Result<usize, AccessError>)
        ensures
            bytes == (match self.charge() {
                Some(charge) if charge <= usize::MAX => Ok::<usize, AccessError>(charge as usize),
                _ => Err::<usize, AccessError>(AccessError::Capacity),
            }),
    {
        let members: usize = match members_charge(self.voters.len(), self.copies.len()) {
            Some(members) => members,
            None => return Err(AccessError::Capacity),
        };
        match self.fence.charge {
            None => Err(AccessError::Capacity),
            Some(fence) => match members.checked_add(fence) {
                Some(bytes) => Ok(bytes),
                None => Err(AccessError::Capacity),
            },
        }
    }

    /// Whether the node keeps evidence under the placement.
    pub open spec fn concerns(self, node: u64) -> bool {
        self.voters@.contains(node) || self.copies@.contains(node)
    }

    /// Whether a node may run the placement: it is a member, and the members
    /// are bounded.
    pub open spec fn runnable(self, node: u64) -> bool {
        self.concerns(node) && self.voters@.union(self.copies@).len() <= MAX_MEMBERS
    }

    /// Whether a node may run the placement.
    pub fn is_runnable(&self, node: u64) -> (runnable: bool)
        ensures
            runnable == self.runnable(node),
    {
        (self.voters.contains(&node) || self.copies.contains(&node)) && union(
            &self.voters,
            &self.copies,
        ).len() <= MAX_MEMBERS
    }

    /// Whether two placements are the same.
    pub fn same(&self, other: &Self) -> (same: bool)
        ensures
            same == self.like(*other),
    {
        self.scope.same(&other.scope) && same_set(&self.voters, &other.voters) && same_set(
            &self.copies,
            &other.copies,
        ) && self.fence.same(&other.fence)
    }

    /// Copy the placement.
    pub fn duplicate(&self) -> (copy: Self)
        ensures
            copy.like(*self),
    {
        EvidencePlacement {
            scope: self.scope,
            voters: self.voters.clone(),
            copies: self.copies.clone(),
            fence: self.fence.duplicate(),
        }
    }
}

} // verus!
