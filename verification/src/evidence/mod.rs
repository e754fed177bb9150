//! Bounded evidence custody coordination outside the Raft owner. A content
//! reference is acknowledged only after every selected durable copy confirms
//! it.
pub mod coordinator;
pub mod duties;
pub mod laws;
pub mod placement;
pub mod repair;
pub mod request;
pub mod service;
pub mod transfer;

use crate::codec::append;
use crate::hashing::{blake3_derive_key, blake3_hash, cut, derive_key, front, hash, same_16, same_32};
use crate::ids::{append_be, be_bytes, LedgerId};
use crate::nodes::{difference, in_order, is_subset};
use crate::access::AccessError;
use std::collections::BTreeSet;
use vstd::prelude::*;

verus! {

broadcast use vstd::std_specs::btree::group_btree_axioms;

/// What custody is kept under: a ledger at a route and a policy.
#[derive(Debug, Clone, Copy, PartialEq, Eq)]
pub struct CustodyScope {
    pub ledger: LedgerId,
    pub route_epoch: u64,
    pub policy_revision: u64,
}

impl CustodyScope {
    /// Whether two scopes are the same.
    pub fn same(&self, other: &Self) -> (same: bool)
        ensures
            same == (*self == *other),
    {
        self.ledger.same(&other.ledger) && self.route_epoch == other.route_epoch
            && self.policy_revision == other.policy_revision
    }
}

/// Whether two optional scopes are the same.
pub fn same_scope(a: &Option<CustodyScope>, b: &Option<CustodyScope>) -> (same: bool)
    ensures
        same == (*a == *b),
{
    match (a, b) {
        (Some(a), Some(b)) => a.same(b),
        (None, None) => true,
        _ => false,
    }
}

/// A content object: its domain, its root hash, its length and its class.
#[derive(Debug, Clone, Copy, PartialEq, Eq)]
pub struct ContentRef {
    pub domain: [u8; 16],
    pub root: [u8; 32],
    pub length: u64,
    pub class: u32,
}

impl ContentRef {
    /// Whether two references name the same object.
    pub fn same(&self, other: &Self) -> (same: bool)
        ensures
            same == (*self == *other),
    {
        same_16(&self.domain, &other.domain) && same_32(&self.root, &other.root) && self.length
            == other.length && self.class == other.class
    }
}

/// The custody an object owes under a placement: the copies the placement
/// requires and those with a verified receipt at the current scope. A phase
/// that evaluates the object begins only when the two agree.
#[derive(Debug, Clone, PartialEq, Eq)]
pub struct CustodyObligation {
    pub scope: CustodyScope,
    pub required: BTreeSet<u64>,
    pub held: BTreeSet<u64>,
}

impl CustodyObligation {
    /// Whether every required copy holds the object.
    pub fn satisfied(&self) -> (satisfied: bool)
        ensures
            satisfied == self.required@.subset_of(self.held@),
    {
        is_subset(&self.required, &self.held)
    }

    /// The required copies that do not hold the object, ascending.
    pub fn missing(&self) -> (missing: Vec<u64>)
        ensures
            missing@ == in_order(self.required@.difference(self.held@)),
            missing@.len() == 0 <==> self.required@.subset_of(self.held@),
    {
        difference(&self.required, &self.held)
    }
}

/// One copy's receipt for one object under a scope.
#[derive(Debug, Clone, Copy, PartialEq, Eq)]
pub struct CustodyReceipt {
    pub ledger: LedgerId,
    pub domain: [u8; 16],
    pub root: [u8; 32],
    pub length: u64,
    pub node: u64,
    pub route_epoch: u64,
    pub policy_revision: u64,
    pub taken_ms: u64,
}

/// One copy's receipt for one object under the scope, taken now.
pub fn receipt_for(scope: &CustodyScope, node: u64, reference: &ContentRef, now: u64) -> (receipt:
    CustodyReceipt)
    ensures
        receipt == (CustodyReceipt {
            ledger: scope.ledger,
            domain: reference.domain,
            root: reference.root,
            length: reference.length,
            node,
            route_epoch: scope.route_epoch,
            policy_revision: scope.policy_revision,
            taken_ms: now,
        }),
{
    CustodyReceipt {
        ledger: scope.ledger,
        domain: reference.domain,
        root: reference.root,
        length: reference.length,
        node,
        route_epoch: scope.route_epoch,
        policy_revision: scope.policy_revision,
        taken_ms: now,
    }
}

/// Whether a receipt counts for an object at a scope.
pub open spec fn counts(receipt: CustodyReceipt, scope: CustodyScope, length: u64) -> bool {
    receipt.route_epoch == scope.route_epoch && receipt.policy_revision == scope.policy_revision
        && receipt.length == length
}

/// Whether a receipt counts for an object at a scope.
pub fn receipt_counts(receipt: &CustodyReceipt, scope: &CustodyScope, length: u64) -> (counted:
    bool)
    ensures
        counted == counts(*receipt, *scope, length),
{
    receipt.route_epoch == scope.route_epoch && receipt.policy_revision == scope.policy_revision
        && receipt.length == length
}

/// A receipt counts at the scope it was given under, and no longer once the
/// route or the policy moved.
pub proof fn a_receipt_is_fenced(
    receipt: CustodyReceipt,
    scope: CustodyScope,
    later: CustodyScope,
    length: u64,
)
    requires
        counts(receipt, scope, length),
        later.route_epoch != scope.route_epoch || later.policy_revision != scope.policy_revision,
    ensures
        !counts(receipt, later, length),
{
}

/// The bytes a transfer's identity is derived from.
pub open spec fn transfer_material(
    scope: CustodyScope,
    request: [u8; 16],
    root: [u8; 32],
) -> Seq<u8> {
    scope.ledger.tenant@ + scope.ledger.session@ + be_bytes(scope.route_epoch) + be_bytes(
        scope.policy_revision,
    ) + request@ + root@
}

/// The identity of a transfer.
pub open spec fn transfer_of(scope: CustodyScope, request: [u8; 16], root: [u8; 32]) -> [u8; 16] {
    front(
        blake3_derive_key(
            "focal.evidence.custody-transfer.v1"@,
            transfer_material(scope, request, root),
        ),
    )
}

/// Name the transfer of an object for a request under a scope.
pub fn transfer_id(scope: &CustodyScope, request: &[u8; 16], reference: &ContentRef) -> (id: [u8;
    16])
    ensures
        id == transfer_of(*scope, *request, reference.root),
{
    let mut bytes: Vec<u8> = Vec::new();
    append(&mut bytes, scope.ledger.tenant.as_slice());
    append(&mut bytes, scope.ledger.session.as_slice());
    append_be(&mut bytes, scope.route_epoch);
    append_be(&mut bytes, scope.policy_revision);
    append(&mut bytes, request.as_slice());
    append(&mut bytes, reference.root.as_slice());
    assert(bytes@ =~= transfer_material(*scope, *request, reference.root));
    let key = derive_key("focal.evidence.custody-transfer.v1", bytes.as_slice());
    cut(&key)
}

/// The request a transfer outside any participant's request runs under: the
/// front of the object's root.
pub open spec fn root_request(reference: ContentRef) -> [u8; 16] {
    front(reference.root)
}

/// The transfer that repairs or pulls an object.
pub fn object_transfer(scope: &CustodyScope, reference: &ContentRef) -> (id: [u8; 16])
    ensures
        id == transfer_of(*scope, root_request(*reference), reference.root),
{
    let request = cut(&reference.root);
    transfer_id(scope, &request, reference)
}

/// Check a seed chunk a peer sent against the hash it was asked by.
pub fn check_seed(asked: &[u8; 32], named: &[u8; 32], bytes: &[u8]) -> (done: Result<
    (),
    AccessError,
>)
    ensures
        done == (if *named == *asked && blake3_hash(bytes@) == *asked {
            Ok::<(), AccessError>(())
        } else {
            Err::<(), AccessError>(AccessError::InvalidRequest)
        }),
{
    if !same_32(named, asked) || !same_32(&hash(bytes), asked) {
        return Err(AccessError::InvalidRequest);
    }
    Ok(())
}

} // verus!
