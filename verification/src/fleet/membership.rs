//! Changes of a session's members: each is proposed once, and answered only
//! behind a quorum read that follows its receipt.
use super::resolve::{prefix_of, Events};
use super::{LedgerError, ManagedError};
use crate::barrier::{context, context_of};
use crate::directory::authority::Configuration;
use crate::directory::ConsensusError;
use std::collections::VecDeque;
use vstd::prelude::*;

verus! {

/// What a change does to a session's members.
#[derive(Debug, Clone, Copy, PartialEq, Eq, Structural)]
pub enum MembershipChange {
    AddLearner { node: u64 },
    Promote { node: u64 },
    Remove { node: u64 },
    Leave,
}

impl MembershipChange {
    /// The node a change brings in: it must be able to decode what the
    /// session holds.
    pub open spec fn brings(self) -> Option<u64> {
        match self {
            MembershipChange::AddLearner { node } => Some(node),
            MembershipChange::Promote { node } => Some(node),
            _ => None,
        }
    }

    /// The node a change brings in.
    pub fn candidate(&self) -> (node: Option<u64>)
        ensures
            node == self.brings(),
    {
        match self {
            MembershipChange::AddLearner { node } => Some(*node),
            MembershipChange::Promote { node } => Some(*node),
            _ => None,
        }
    }
}

/// A session's members and where in its log they were set.
#[derive(Debug, Clone, PartialEq, Eq)]
pub struct MembershipView {
    pub configuration_index: u64,
    pub configuration: Configuration,
}

impl MembershipView {
    /// Whether the members are exactly these, set there.
    pub open spec fn is_at(self, index: u64, configuration: Configuration) -> bool {
        self.configuration_index == index && self.configuration.equals(configuration)
    }

    /// Whether the members are exactly these, set there.
    pub fn stands_at(&self, index: u64, configuration: &Configuration) -> (yes: bool)
        ensures
            yes == self.is_at(index, *configuration),
    {
        self.configuration_index == index && self.configuration.same(configuration)
    }
}

/// A change and the configuration it expects.
#[derive(Debug, Clone, PartialEq, Eq)]
pub struct MembershipRequest {
    pub change: MembershipChange,
    pub expected_index: u64,
    pub expected: Configuration,
}

/// A call that waits: a change, or a read of the members (no change).
#[derive(Debug, Clone, Copy, PartialEq, Eq)]
pub struct PendingMembership {
    pub change: Option<MembershipChange>,
    pub proposed: bool,
    /// The number its quorum read was asked under.
    pub reading: Option<u64>,
    pub term: u64,
    pub deadline: u64,
    pub closed: bool,
}

/// What is done for a call.
#[derive(Debug, Clone, Copy, PartialEq, Eq)]
pub enum Look {
    /// It waits on.
    Keep,
    /// Its change is proposed now.
    Propose,
    /// Its receipt and its read are looked at.
    Receipt,
    /// A quorum read is asked for.
    Read,
    /// It is answered with the members as they are; `due` says that a
    /// checkpoint has to name a member that was added.
    View { due: bool },
    /// It is answered with an error.
    Finish(LedgerError),
}

/// The deadline of another call, if there is room for it.
pub fn room(
    calls: usize,
    pending_clients: usize,
    stopping: bool,
    reserved: bool,
    now: u64,
    timeout: u64,
) -> (deadline: Result<u64, LedgerError>)
    ensures
        deadline == (if calls >= pending_clients || stopping || !reserved || now + timeout
            > u64::MAX {
            Err::<u64, LedgerError>(LedgerError::Capacity)
        } else {
            Ok::<u64, LedgerError>((now + timeout) as u64)
        }),
{
    if calls >= pending_clients || stopping || !reserved {
        return Err(LedgerError::Capacity);
    }
    match now.checked_add(timeout) {
        Some(deadline) => Ok(deadline),
        None => Err(LedgerError::Capacity),
    }
}

/// Whether a call was admitted, and whether its change was proposed with it:
/// a change that brings a node in waits until that node's support is known,
/// in exactly the configuration it expects.
pub fn accept_membership(
    request: &Option<MembershipRequest>,
    proposed: Result<(), LedgerError>,
    current: &Result<MembershipView, LedgerError>,
    authoritative: bool,
    leader: u64,
) -> (admitted: Result<bool, LedgerError>)
    ensures
        admitted == (match *request {
            None => if authoritative {
                Ok::<bool, LedgerError>(true)
            } else {
                Err::<bool, LedgerError>(LedgerError::NotReady { leader })
            },
            Some(request) => match proposed {
                Ok(_) => Ok::<bool, LedgerError>(true),
                Err(error) => if error == LedgerError::Managed(ManagedError::Unsupported)
                    && request.change.brings() is Some {
                    match *current {
                        Err(error) => Err::<bool, LedgerError>(error),
                        Ok(current) => if current.is_at(
                            request.expected_index,
                            request.expected,
                        ) {
                            Ok::<bool, LedgerError>(false)
                        } else {
                            Err::<bool, LedgerError>(LedgerError::MembershipConflict)
                        },
                    }
                } else {
                    Err::<bool, LedgerError>(error)
                },
            },
        }),
{
    match request {
        None => if authoritative {
            Ok(true)
        } else {
            Err(LedgerError::NotReady { leader })
        },
        Some(request) => match proposed {
            Ok(_) => Ok(true),
            Err(error) => {
                let unsupported = match error {
                    LedgerError::Managed(ManagedError::Unsupported) => true,
                    _ => false,
                };
                if unsupported && request.change.candidate().is_some() {
                    match current {
                        Err(error) => Err(*error),
                        Ok(current) => if current.stands_at(
                            request.expected_index,
                            &request.expected,
                        ) {
                            Ok(false)
                        } else {
                            Err(LedgerError::MembershipConflict)
                        },
                    }
                } else {
                    Err(error)
                }
            },
        },
    }
}

/// What the context of a call's read begins with.
pub open spec fn read_label() -> Seq<char> {
    "focal.membership.read.v1\0"@
}

impl PendingMembership {
    /// Whether the call is over though nothing is known of it: its caller
    /// left, its term ended, this replica leads no more, or its deadline
    /// passed.
    pub open spec fn over(self, term: u64, leader: bool, now: u64) -> bool {
        self.closed || self.term != term || !leader || now >= self.deadline
    }

    /// Look at the call.
    pub fn look(&self, term: u64, leader: bool, now: u64, stopping: bool) -> (look: Look)
        ensures
            look == (if self.over(term, leader, now) {
                Look::Finish(LedgerError::OutcomeUnknown)
            } else if self.proposed {
                Look::Receipt
            } else if stopping {
                Look::Finish(LedgerError::OutcomeUnknown)
            } else if self.change is None {
                Look::Finish(LedgerError::Corrupt)
            } else {
                Look::Propose
            }),
    {
        if self.closed || self.term != term || !leader || now >= self.deadline {
            return Look::Finish(LedgerError::OutcomeUnknown);
        }
        if self.proposed {
            return Look::Receipt;
        }
        if stopping {
            return Look::Finish(LedgerError::OutcomeUnknown);
        }
        if self.change.is_none() {
            return Look::Finish(LedgerError::Corrupt);
        }
        Look::Propose
    }

    /// Take what proposing came to: support that is missing and pressure are
    /// waited for.
    pub fn propose(&mut self, outcome: Result<(), LedgerError>) -> (look: Look)
        ensures
            match outcome {
                Ok(_) => *final(self) == (PendingMembership { proposed: true, ..*old(self) })
                    && look == Look::Receipt,
                Err(error) => *final(self) == *old(self) && look == (if error
                    == LedgerError::Managed(ManagedError::Unsupported) || error
                    == LedgerError::Capacity {
                    Look::Keep
                } else {
                    Look::Finish(error)
                }),
            },
    {
        match outcome {
            Ok(_) => {
                self.proposed = true;
                Look::Receipt
            },
            Err(LedgerError::Managed(ManagedError::Unsupported)) => Look::Keep,
            Err(LedgerError::Capacity) => Look::Keep,
            Err(error) => Look::Finish(error),
        }
    }

    /// Whether the call's own read was answered.
    pub open spec fn read_answered(self, events: Events) -> bool {
        self.reading matches Some(nonce) && prefix_of(
            events.read_barriers@,
            context_of(read_label(), nonce),
        ) is Some
    }

    /// What is done for the call when its receipt is ready or not: a read
    /// follows the receipt, and what the read shows is answered only while
    /// the receipt still stands.
    pub open spec fn looked(self, ready: Result<bool, LedgerError>, events: Events) -> Look {
        match ready {
            Err(error) => Look::Finish(error),
            Ok(ready) => if self.reading is Some {
                if !self.read_answered(events) {
                    Look::Keep
                } else if !ready {
                    Look::Finish(LedgerError::MembershipConflict)
                } else {
                    Look::View { due: self.change matches Some(MembershipChange::AddLearner { .. }) }
                }
            } else if ready {
                Look::Read
            } else {
                Look::Keep
            },
        }
    }

    /// Look at the call's receipt and read. `receipt` is whether the change's
    /// receipt stands; a call without a change has nothing to wait for.
    pub fn receipt(&self, receipt: Result<bool, LedgerError>, events: &Events) -> (look: Look)
        ensures
            look == self.looked(
                if self.change is None {
                    Ok(true)
                } else {
                    receipt
                },
                *events,
            ),
    {
        let ready: bool = if self.change.is_none() {
            true
        } else {
            match receipt {
                Ok(ready) => ready,
                Err(error) => return Look::Finish(error),
            }
        };
        if let Some(nonce) = self.reading {
            let read = context("focal.membership.read.v1\0", nonce);
            if events.answered_under(read.as_slice()).is_none() {
                return Look::Keep;
            }
            if !ready {
                return Look::Finish(LedgerError::MembershipConflict);
            }
            let due = match self.change {
                Some(MembershipChange::AddLearner { .. }) => true,
                _ => false,
            };
            return Look::View { due };
        }
        if ready {
            Look::Read
        } else {
            Look::Keep
        }
    }

    /// The number and context of the read a call asks for, after the owner's
    /// last number.
    pub fn read(nonce: u64) -> (read: Result<(u64, Vec<u8>), LedgerError>)
        ensures
            if nonce == u64::MAX {
                read == Err::<(u64, Vec<u8>), LedgerError>(LedgerError::Capacity)
            } else {
                read matches Ok((next, bytes)) && next == nonce + 1 && bytes@ == context_of(
                    read_label(),
                    next,
                )
            },
    {
        if nonce == u64::MAX {
            return Err(LedgerError::Capacity);
        }
        let next: u64 = nonce + 1;
        Ok((next, context("focal.membership.read.v1\0", next)))
    }

    /// Take what asking for the read under a number came to: pressure is
    /// waited for.
    pub fn asked(&mut self, nonce: u64, outcome: Result<(), LedgerError>) -> (look: Look)
        ensures
            match outcome {
                Ok(_) => *final(self) == (PendingMembership { reading: Some(nonce), ..*old(self) })
                    && look == Look::Keep,
                Err(error) => *final(self) == *old(self) && look == (if error
                    == LedgerError::Capacity || error == LedgerError::Consensus(
                    ConsensusError::Capacity,
                ) {
                    Look::Keep
                } else {
                    Look::Finish(error)
                }),
            },
    {
        match outcome {
            Ok(_) => {
                self.reading = Some(nonce);
                Look::Keep
            },
            Err(LedgerError::Capacity) => Look::Keep,
            Err(LedgerError::Consensus(ConsensusError::Capacity)) => Look::Keep,
            Err(error) => Look::Finish(error),
        }
    }

    /// Whether the call is over as time passes.
    pub open spec fn expires(self, now: u64) -> bool {
        self.closed || now >= self.deadline
    }

    /// Whether the call is over as time passes.
    pub fn expired(&self, now: u64) -> (expired: bool)
        ensures
            expired == self.expires(now),
    {
        self.closed || now >= self.deadline
    }
}

/// Let time pass for every call: those that are over, in their order, are to
/// be told that their outcome is unknown.
pub fn expire_memberships<T>(calls: &mut VecDeque<(T, PendingMembership)>, now: u64) -> (done: Vec<
    (T, PendingMembership),
>)
    ensures
        final(calls)@ == old(calls)@.filter(|call: (T, PendingMembership)| !call.1.expires(now)),
        done@ == old(calls)@.filter(|call: (T, PendingMembership)| call.1.expires(now)),
{
    let ghost before = calls@;
    let ghost waits = |call: (T, PendingMembership)| !call.1.expires(now);
    let ghost over = |call: (T, PendingMembership)| call.1.expires(now);
    let mut done: Vec<(T, PendingMembership)> = Vec::new();
    let count: usize = calls.len();
    let mut i: usize = 0;
    proof {
        reveal(Seq::filter);
        assert(before.take(0) =~= Seq::empty());
        assert(before.skip(0) + before.take(0).filter(waits) =~= before);
        assert(before.take(0).filter(over) =~= Seq::empty());
    }
    while i < count
        invariant
            i <= count == before.len(),
            waits == (|call: (T, PendingMembership)| !call.1.expires(now)),
            over == (|call: (T, PendingMembership)| call.1.expires(now)),
            calls@ == before.skip(i as int) + before.take(i as int).filter(waits),
            done@ == before.take(i as int).filter(over),
        decreases count - i,
    {
        proof {
            reveal(Seq::filter);
            assert(calls@[0] == before[i as int]);
            assert(before.take(i + 1).drop_last() =~= before.take(i as int));
            assert(before.take(i + 1).last() == before[i as int]);
        }
        let next = calls.pop_front();
        match next {
            Some(call) => {
                assert(call == before[i as int]);
                assert(calls@ =~= before.skip(i + 1) + before.take(i as int).filter(waits));
                if call.1.expired(now) {
                    done.push(call);
                    assert(calls@ =~= before.skip(i + 1) + before.take(i + 1).filter(waits));
                } else {
                    calls.push_back(call);
                    assert(calls@ =~= before.skip(i + 1) + before.take(i + 1).filter(waits));
                }
            },
            None => {
                assert(false);
            },
        }
        i += 1;
    }
    assert(before.take(count as int) =~= before);
    assert(calls@ =~= before.filter(waits));
    done
}

/// The node that the first of the calls from `from` on waits to bring in.
pub open spec fn joins<T>(calls: Seq<(T, PendingMembership)>, from: int) -> Option<u64>
    decreases calls.len() - from,
{
    if from < 0 || from >= calls.len() {
        None
    } else {
        let call = calls[from].1;
        match call.change {
            Some(change) if !call.proposed && !call.closed && change.brings() is Some => {
                change.brings()
            },
            _ => joins(calls, from + 1),
        }
    }
}

/// The node that the first call waits to bring in: one whose change is not
/// proposed yet, and whose caller is still there.
pub fn joining<T>(calls: &VecDeque<(T, PendingMembership)>) -> (node: Option<u64>)
    ensures
        node == joins(calls@, 0),
{
    let mut i: usize = 0;
    while i < calls.len()
        invariant
            i <= calls@.len(),
            joins(calls@, 0) == joins(calls@, i as int),
        decreases calls@.len() - i,
    {
        let call = &calls[i].1;
        if !call.proposed && !call.closed {
            if let Some(change) = &call.change {
                if let Some(node) = change.candidate() {
                    return Some(node);
                }
            }
        }
        i += 1;
    }
    None
}

/// A change is answered only when its own receipt stands behind a read asked
/// for after it: a later configuration that superseded it is never attested.
pub proof fn an_answer_attests_its_own_change(
    call: PendingMembership,
    receipt: Result<bool, LedgerError>,
    events: Events,
    due: bool,
)
    requires
        call.change is Some,
        call.looked(receipt, events) == (Look::View { due }),
    ensures
        receipt == Ok::<bool, LedgerError>(true),
        call.read_answered(events),
{
}

/// A read is asked for only once the change's receipt stands.
pub proof fn a_read_follows_the_receipt(
    call: PendingMembership,
    receipt: Result<bool, LedgerError>,
    events: Events,
)
    requires
        call.change is Some,
        call.looked(receipt, events) == Look::Read,
    ensures
        receipt == Ok::<bool, LedgerError>(true),
        call.reading is None,
{
}

} // verus!
