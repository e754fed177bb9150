//! What a control owner does for a directory: one bootstrap request and one
//! authority refresh at a time, within its own quorum and bounds.
use super::authority::{ControlReceipt, ControlRequestId, PartitionBootstrapPermit};
use super::{unset, ConsensusError, ControlError, ControlIdentity, ControlScope,
    DirectoryBootstrapError, MemoryError};
use crate::barrier::{context, context_of, Reads};
use crate::ids::LedgerId;
use vstd::prelude::*;

verus! {

/// What a control owner's error means for a bootstrap: pressure and
/// readiness are conditions to retry; corruption and a failed owner stay
/// what they are.
pub open spec fn admission(error: ControlError) -> DirectoryBootstrapError {
    match error {
        ControlError::Capacity | ControlError::Busy => DirectoryBootstrapError::Capacity,
        ControlError::Memory(MemoryError::Capacity { .. }) => DirectoryBootstrapError::Capacity,
        ControlError::Memory(MemoryError::DiskCapacity { .. }) => DirectoryBootstrapError::Capacity,
        ControlError::Memory(MemoryError::AllocationFailed) => DirectoryBootstrapError::Capacity,
        ControlError::Consensus(ConsensusError::Capacity) => DirectoryBootstrapError::Capacity,
        ControlError::NotReady => DirectoryBootstrapError::NotReady,
        ControlError::Consensus(ConsensusError::PersistencePending) =>
            DirectoryBootstrapError::NotReady,
        ControlError::Consensus(ConsensusError::LearnerBehind) => DirectoryBootstrapError::NotReady,
        ControlError::Consensus(ConsensusError::NotLeader { .. }) =>
            DirectoryBootstrapError::Unavailable,
        error => DirectoryBootstrapError::Control(error),
    }
}

/// What a control owner's error means for a bootstrap.
pub fn admission_error(error: ControlError) -> (refused: DirectoryBootstrapError)
    ensures
        refused == admission(error),
{
    match error {
        ControlError::Capacity | ControlError::Busy => DirectoryBootstrapError::Capacity,
        ControlError::Memory(MemoryError::Capacity { .. }) => DirectoryBootstrapError::Capacity,
        ControlError::Memory(MemoryError::DiskCapacity { .. }) => DirectoryBootstrapError::Capacity,
        ControlError::Memory(MemoryError::AllocationFailed) => DirectoryBootstrapError::Capacity,
        ControlError::Consensus(ConsensusError::Capacity) => DirectoryBootstrapError::Capacity,
        ControlError::NotReady => DirectoryBootstrapError::NotReady,
        ControlError::Consensus(ConsensusError::PersistencePending) =>
            DirectoryBootstrapError::NotReady,
        ControlError::Consensus(ConsensusError::LearnerBehind) => DirectoryBootstrapError::NotReady,
        ControlError::Consensus(ConsensusError::NotLeader { .. }) =>
            DirectoryBootstrapError::Unavailable,
        error => DirectoryBootstrapError::Control(error),
    }
}

/// A bootstrap's error as its caller sees it.
pub open spec fn normalized(error: DirectoryBootstrapError) -> DirectoryBootstrapError {
    match error {
        DirectoryBootstrapError::Control(error) => admission(error),
        error => error,
    }
}

/// A bootstrap's error as its caller sees it.
pub fn normalize_admission(error: DirectoryBootstrapError) -> (refused: DirectoryBootstrapError)
    ensures
        refused == normalized(error),
{
    match error {
        DirectoryBootstrapError::Control(error) => admission_error(error),
        error => error,
    }
}

/// Normalizing again changes nothing.
pub proof fn normalizing_is_settled(error: DirectoryBootstrapError)
    ensures
        normalized(normalized(error)) == normalized(error),
{
}

/// The context of a bootstrap's read.
pub open spec fn directory_read(nonce: u64) -> Seq<u8> {
    context_of("focal.control.directory-bootstrap.v1\0"@, nonce)
}

/// The context of a refresh's read.
pub open spec fn refresh_read(nonce: u64) -> Seq<u8> {
    context_of("focal.control.directory-refresh.v1\0"@, nonce)
}

/// What a control owner holds when a directory request comes.
#[derive(Debug, Clone, Copy, PartialEq, Eq)]
pub struct ControlOwner {
    pub identity: ControlIdentity,
    pub namespace: LedgerId,
    pub route_epoch: u64,
    pub leader: bool,
    pub term: u64,
    /// Requests it waits for.
    pub pending: usize,
    /// Requests it may wait for.
    pub pending_requests: usize,
    /// Whether a bootstrap is under way.
    pub directory: bool,
    /// Whether an authority refresh is under way.
    pub refresh: bool,
    /// The last number a read was asked under.
    pub nonce: u64,
    /// Whether a deadline can be set.
    pub clock: bool,
}

impl ControlOwner {
    /// Whether there is room beside the requests and the other of the two.
    pub open spec fn room(self, other: bool) -> bool {
        self.pending + (if other {
            1int
        } else {
            0int
        }) < self.pending_requests
    }

    fn has_room(&self, other: bool) -> (room: bool)
        ensures
            room == self.room(other),
    {
        if other {
            match self.pending.checked_add(1) {
                Some(count) => count < self.pending_requests,
                None => false,
            }
        } else {
            self.pending < self.pending_requests
        }
    }

    /// Why a bootstrap is not admitted.
    pub open spec fn refuses_directory(self) -> Option<DirectoryBootstrapError> {
        if self.directory || !self.room(self.refresh) {
            Some(DirectoryBootstrapError::Capacity)
        } else if self.identity.scope != ControlScope::Root || !self.leader {
            Some(DirectoryBootstrapError::Unavailable)
        } else if !self.clock || self.nonce == u64::MAX {
            Some(DirectoryBootstrapError::Capacity)
        } else {
            None
        }
    }

    /// Admit a bootstrap: the number and the context of the read it waits
    /// for. The number is used up whether or not the read is then asked for.
    pub fn prepare_directory(&mut self) -> (read: Result<(u64, Vec<u8>), DirectoryBootstrapError>)
        ensures
            match old(self).refuses_directory() {
                Some(error) => read == Err::<(u64, Vec<u8>), DirectoryBootstrapError>(error)
                    && *final(self) == *old(self),
                None => (read matches Ok((nonce, bytes)) && nonce == old(self).nonce + 1 && bytes@
                    == directory_read(nonce)) && *final(self) == (ControlOwner {
                    nonce: (old(self).nonce + 1) as u64,
                    ..*old(self)
                }),
            },
    {
        if self.directory || !self.has_room(self.refresh) {
            return Err(DirectoryBootstrapError::Capacity);
        }
        let root = match &self.identity.scope {
            ControlScope::Root => true,
            _ => false,
        };
        if !root || !self.leader {
            return Err(DirectoryBootstrapError::Unavailable);
        }
        if !self.clock || self.nonce == u64::MAX {
            return Err(DirectoryBootstrapError::Capacity);
        }
        self.nonce = self.nonce + 1;
        Ok((self.nonce, context("focal.control.directory-bootstrap.v1\0", self.nonce)))
    }

    /// Admit an authority refresh: one at a time, into the very partition
    /// the permit is for.
    pub fn refresh_directory(&self, permit: &PartitionBootstrapPermit) -> (done: Result<
        (),
        DirectoryBootstrapError,
    >)
        ensures
            done == (if self.refresh || !self.room(self.directory) {
                Err::<(), DirectoryBootstrapError>(DirectoryBootstrapError::Capacity)
            } else if self.namespace != permit.plan.namespace || self.route_epoch != 1 {
                Err::<(), DirectoryBootstrapError>(DirectoryBootstrapError::Unauthorized)
            } else if unset(permit.plan.genesis) {
                Err::<(), DirectoryBootstrapError>(DirectoryBootstrapError::Inconsistent)
            } else if self.identity != permit.plan.named() {
                Err::<(), DirectoryBootstrapError>(DirectoryBootstrapError::Unauthorized)
            } else if !self.leader {
                Err::<(), DirectoryBootstrapError>(DirectoryBootstrapError::Unavailable)
            } else if !self.clock {
                Err::<(), DirectoryBootstrapError>(DirectoryBootstrapError::Capacity)
            } else {
                Ok::<(), DirectoryBootstrapError>(())
            }),
    {
        if self.refresh || !self.has_room(self.directory) {
            return Err(DirectoryBootstrapError::Capacity);
        }
        if !self.namespace.same(&permit.plan.namespace) || self.route_epoch != 1 {
            return Err(DirectoryBootstrapError::Unauthorized);
        }
        let identity = match permit.plan.identity() {
            Ok(identity) => identity,
            Err(error) => return Err(error),
        };
        if !self.identity.same(&identity) {
            return Err(DirectoryBootstrapError::Unauthorized);
        }
        if !self.leader {
            return Err(DirectoryBootstrapError::Unavailable);
        }
        if !self.clock {
            return Err(DirectoryBootstrapError::Capacity);
        }
        Ok(())
    }
}

/// What becomes of a bootstrap that waits.
#[derive(Debug, Clone, Copy, PartialEq, Eq, Structural)]
pub enum Waiting {
    /// Its caller left.
    Dropped,
    /// It is answered that the owner is unavailable.
    Unavailable,
    /// Its read was answered: the permit is minted now.
    Authorize,
    /// It waits on.
    Waits,
}

/// A bootstrap that waits for its read.
#[derive(Debug, Clone, Copy, PartialEq, Eq)]
pub struct PendingDirectory {
    /// The number its read was asked under.
    pub nonce: u64,
    pub term: u64,
    pub deadline: u64,
    /// Whether its caller left.
    pub closed: bool,
}

impl PendingDirectory {
    /// Decide what becomes of the bootstrap: the caller, the owner's term and
    /// lead, the deadline, and then its own read.
    pub fn complete_directory(&self, term: u64, leader: bool, now: u64, reads: &Reads) -> (waiting:
        Waiting)
        ensures
            waiting == (if self.closed {
                Waiting::Dropped
            } else if self.term != term || !leader || now >= self.deadline {
                Waiting::Unavailable
            } else if reads.answers(directory_read(self.nonce)) {
                Waiting::Authorize
            } else {
                Waiting::Waits
            }),
    {
        if self.closed {
            return Waiting::Dropped;
        }
        if self.term != term || !leader || now >= self.deadline {
            return Waiting::Unavailable;
        }
        let read = context("focal.control.directory-bootstrap.v1\0", self.nonce);
        if reads.answered(read.as_slice()) {
            Waiting::Authorize
        } else {
            Waiting::Waits
        }
    }
}

/// How far an authority refresh has come.
#[derive(Debug, Clone, Copy, PartialEq, Eq)]
pub enum RefreshPhase {
    /// The permit waits for a fresh barrier.
    Initial,
    /// The installation was submitted.
    Writing,
    /// The installation has a receipt; it waits for a fresh barrier.
    Committed(ControlReceipt),
    /// The installation has neither a receipt nor a pending proposal; a
    /// fresh barrier settles which.
    Reconcile,
}

/// An authority refresh under way.
#[derive(Debug, Clone, Copy, PartialEq, Eq)]
pub struct PendingAuthority {
    pub phase: RefreshPhase,
    /// The installation's id, once there is one.
    pub request: Option<ControlRequestId>,
    /// The number a read was asked under that is not answered yet.
    pub reading: Option<u64>,
    pub term: u64,
    /// Whether the caller was answered.
    pub replied: bool,
}

/// What the owner observes of a refresh: its caller and deadline, its own
/// term and lead, the installation's receipt, whether a proposal is pending,
/// and the reads that were answered.
#[derive(Debug, PartialEq, Eq)]
pub struct RefreshFacts {
    pub canceled: bool,
    pub expired: bool,
    pub term: u64,
    pub leader: bool,
    pub receipt: Result<Option<ControlReceipt>, ControlError>,
    pub pending: bool,
    pub reads: Reads,
}

/// What is done for a refresh now.
#[derive(Debug, Clone, Copy, PartialEq, Eq)]
pub enum Refresh {
    /// Nothing: it waits.
    Wait,
    /// Ask for a read under the owner's next number.
    Read,
    /// Prepare the change and submit it.
    Prepare,
    /// Answer it by this receipt.
    Complete(ControlReceipt),
    /// It ends in an error.
    Fail(DirectoryBootstrapError),
}

impl PendingAuthority {
    /// A refresh that was admitted in a term.
    pub fn admitted(term: u64) -> (pending: Self)
        ensures
            pending == (PendingAuthority {
                phase: RefreshPhase::Initial,
                request: None,
                reading: None,
                term,
                replied: false,
            }),
    {
        PendingAuthority {
            phase: RefreshPhase::Initial,
            request: None,
            reading: None,
            term,
            replied: false,
        }
    }

    /// The refresh once its caller and the owner's term were looked at: a
    /// caller that left, a deadline that passed and a term that ended answer
    /// the caller. Only a refresh that has submitted nothing ends by that.
    pub open spec fn checked(self, facts: RefreshFacts) -> Result<Self, DirectoryBootstrapError> {
        let gone = facts.canceled || facts.expired;
        let moved = self.term != facts.term || !facts.leader;
        if (gone || moved) && self.phase is Initial {
            Err(DirectoryBootstrapError::Unavailable)
        } else {
            Ok(
                PendingAuthority {
                    replied: self.replied || gone || moved,
                    reading: if moved {
                        None
                    } else {
                        self.reading
                    },
                    term: if moved {
                        facts.term
                    } else {
                        self.term
                    },
                    ..self
                },
            )
        }
    }

    /// The refresh once a submitted installation was looked at: it commits,
    /// or it is to be reconciled, or it is still on its way (`None`).
    pub open spec fn written(self, facts: RefreshFacts) -> Result<
        Option<Self>,
        DirectoryBootstrapError,
    > {
        if !(self.phase is Writing) {
            Ok(Some(self))
        } else if self.request is None {
            Err(DirectoryBootstrapError::Inconsistent)
        } else {
            match facts.receipt {
                Err(error) => Err(DirectoryBootstrapError::Control(error)),
                Ok(Some(receipt)) => Ok(
                    Some(
                        PendingAuthority {
                            phase: RefreshPhase::Committed(receipt),
                            reading: None,
                            ..self
                        },
                    ),
                ),
                Ok(None) => if facts.pending {
                    Ok(None)
                } else {
                    Ok(
                        Some(
                            PendingAuthority {
                                phase: RefreshPhase::Reconcile,
                                reading: None,
                                ..self
                            },
                        ),
                    )
                },
            }
        }
    }

    /// Whether the refresh's own read was answered.
    pub open spec fn behind(self, facts: RefreshFacts) -> bool {
        self.reading matches Some(nonce) && facts.reads.answers(refresh_read(nonce))
    }

    /// What an answered read leads to.
    pub open spec fn settled(self, facts: RefreshFacts) -> (Self, Refresh) {
        let after = PendingAuthority { reading: None, ..self };
        match self.phase {
            RefreshPhase::Initial => (after, Refresh::Prepare),
            RefreshPhase::Committed(receipt) => (after, Refresh::Complete(receipt)),
            RefreshPhase::Writing => (
                after,
                Refresh::Fail(DirectoryBootstrapError::Inconsistent),
            ),
            RefreshPhase::Reconcile => if self.request is None {
                (after, Refresh::Fail(DirectoryBootstrapError::Inconsistent))
            } else {
                match facts.receipt {
                    Err(error) => (after, Refresh::Fail(DirectoryBootstrapError::Control(error))),
                    Ok(Some(receipt)) => (after, Refresh::Complete(receipt)),
                    Ok(None) => if facts.pending {
                        (
                            PendingAuthority { phase: RefreshPhase::Writing, ..after },
                            Refresh::Wait,
                        )
                    } else {
                        (after, Refresh::Fail(DirectoryBootstrapError::Unavailable))
                    },
                }
            },
        }
    }

    /// What is done for a refresh, given what is observed.
    pub open spec fn next(self, facts: RefreshFacts) -> (Self, Refresh) {
        match self.checked(facts) {
            Err(error) => (
                PendingAuthority { replied: true, ..self },
                Refresh::Fail(error),
            ),
            Ok(checked) => if !facts.leader {
                (checked, Refresh::Wait)
            } else {
                match checked.written(facts) {
                    Err(error) => (checked, Refresh::Fail(error)),
                    Ok(None) => (checked, Refresh::Wait),
                    Ok(Some(written)) => if written.reading is None {
                        (written, Refresh::Read)
                    } else if !written.behind(facts) {
                        (written, Refresh::Wait)
                    } else {
                        written.settled(facts)
                    },
                }
            },
        }
    }

    /// Advance the refresh by what is observed.
    pub fn advance(&mut self, facts: &RefreshFacts) -> (refresh: Refresh)
        ensures
            *final(self) == old(self).next(*facts).0,
            refresh == old(self).next(*facts).1,
    {
        let initial = match self.phase {
            RefreshPhase::Initial => true,
            _ => false,
        };
        if facts.canceled || facts.expired {
            self.replied = true;
            if initial {
                return Refresh::Fail(DirectoryBootstrapError::Unavailable);
            }
        }
        if self.term != facts.term || !facts.leader {
            self.replied = true;
            if initial {
                return Refresh::Fail(DirectoryBootstrapError::Unavailable);
            }
            self.reading = None;
            self.term = facts.term;
            if !facts.leader {
                return Refresh::Wait;
            }
        }
        if let RefreshPhase::Writing = self.phase {
            if self.request.is_none() {
                return Refresh::Fail(DirectoryBootstrapError::Inconsistent);
            }
            match facts.receipt {
                Err(error) => return Refresh::Fail(DirectoryBootstrapError::Control(error)),
                Ok(Some(receipt)) => {
                    self.phase = RefreshPhase::Committed(receipt);
                },
                Ok(None) => {
                    if facts.pending {
                        return Refresh::Wait;
                    }
                    self.phase = RefreshPhase::Reconcile;
                },
            }
            self.reading = None;
        }
        let read = match self.reading {
            Some(nonce) => context("focal.control.directory-refresh.v1\0", nonce),
            None => return Refresh::Read,
        };
        if !facts.reads.answered(read.as_slice()) {
            return Refresh::Wait;
        }
        self.reading = None;
        match self.phase {
            RefreshPhase::Initial => Refresh::Prepare,
            RefreshPhase::Committed(receipt) => Refresh::Complete(receipt),
            RefreshPhase::Writing => Refresh::Fail(DirectoryBootstrapError::Inconsistent),
            RefreshPhase::Reconcile => {
                if self.request.is_none() {
                    return Refresh::Fail(DirectoryBootstrapError::Inconsistent);
                }
                match facts.receipt {
                    Err(error) => Refresh::Fail(DirectoryBootstrapError::Control(error)),
                    Ok(Some(receipt)) => Refresh::Complete(receipt),
                    Ok(None) => {
                        if facts.pending {
                            self.phase = RefreshPhase::Writing;
                            Refresh::Wait
                        } else {
                            Refresh::Fail(DirectoryBootstrapError::Unavailable)
                        }
                    },
                }
            },
        }
    }

    /// The number and context of the read a refresh asks for, after the
    /// owner's last number.
    pub fn read(nonce: u64) -> (read: Result<(u64, Vec<u8>), DirectoryBootstrapError>)
        ensures
            if nonce == u64::MAX {
                read == Err::<(u64, Vec<u8>), DirectoryBootstrapError>(
                    DirectoryBootstrapError::Capacity,
                )
            } else {
                read matches Ok((next, bytes)) && next == nonce + 1 && bytes@ == refresh_read(next)
            },
    {
        if nonce == u64::MAX {
            return Err(DirectoryBootstrapError::Capacity);
        }
        let next: u64 = nonce + 1;
        Ok((next, context("focal.control.directory-refresh.v1\0", next)))
    }

    /// Whether an owner that refuses a read may be asked again.
    pub open spec fn transient(error: ControlError) -> bool {
        match error {
            ControlError::NotReady | ControlError::Busy | ControlError::Capacity => true,
            ControlError::Consensus(ConsensusError::PersistencePending) => true,
            ControlError::Consensus(ConsensusError::Capacity) => true,
            ControlError::Memory(MemoryError::Capacity { .. }) => true,
            ControlError::Memory(MemoryError::AllocationFailed) => true,
            _ => false,
        }
    }

    /// Take what asking for the read under a number came to.
    pub fn asked(&mut self, nonce: u64, outcome: Result<(), ControlError>) -> (done: Result<
        (),
        DirectoryBootstrapError,
    >)
        ensures
            match outcome {
                Ok(_) => *final(self) == (PendingAuthority { reading: Some(nonce), ..*old(self) }) && done
                    == Ok::<(), DirectoryBootstrapError>(()),
                Err(error) => *final(self) == *old(self) && done == (if Self::transient(error) {
                    Ok::<(), DirectoryBootstrapError>(())
                } else {
                    Err::<(), DirectoryBootstrapError>(DirectoryBootstrapError::Control(error))
                }),
            },
    {
        match outcome {
            Ok(_) => {
                self.reading = Some(nonce);
                Ok(())
            },
            Err(error) => match error {
                ControlError::NotReady | ControlError::Busy | ControlError::Capacity => Ok(()),
                ControlError::Consensus(ConsensusError::PersistencePending) => Ok(()),
                ControlError::Consensus(ConsensusError::Capacity) => Ok(()),
                ControlError::Memory(MemoryError::Capacity { .. }) => Ok(()),
                ControlError::Memory(MemoryError::AllocationFailed) => Ok(()),
                _ => Err(DirectoryBootstrapError::Control(error)),
            },
        }
    }

    /// The bytes the one copy of a submission of `size` bytes is charged.
    pub fn submission_charge(size: usize) -> (bytes: Result<usize, DirectoryBootstrapError>)
        ensures
            bytes == (if (size + 4096) * 16 <= usize::MAX {
                Ok::<usize, DirectoryBootstrapError>(((size + 4096) * 16) as usize)
            } else {
                Err::<usize, DirectoryBootstrapError>(DirectoryBootstrapError::Capacity)
            }),
    {
        match size.checked_add(4096) {
            Some(bytes) => match bytes.checked_mul(16) {
                Some(bytes) => Ok(bytes),
                None => Err(DirectoryBootstrapError::Capacity),
            },
            None => Err(DirectoryBootstrapError::Capacity),
        }
    }

    /// Take what the submission came to: a receipt it had before, or a
    /// pending proposal.
    pub fn submitted(&mut self, request: ControlRequestId, existing: Option<ControlReceipt>)
        ensures
            *final(self) == (PendingAuthority {
                request: Some(request),
                phase: match existing {
                    Some(receipt) => RefreshPhase::Committed(receipt),
                    None => RefreshPhase::Writing,
                },
                ..*old(self)
            }),
    {
        self.request = Some(request);
        self.phase = match existing {
            Some(receipt) => RefreshPhase::Committed(receipt),
            None => RefreshPhase::Writing,
        };
    }
}

/// Canceling the caller does not cancel or replace an admitted proposal: the
/// intent stays, whoever waits for it.
pub proof fn a_canceled_intent_stays(pending: PendingAuthority, facts: RefreshFacts)
    requires
        pending.phase is Writing,
        pending.request is Some,
        pending.term == facts.term,
        facts.leader,
        facts.receipt == Ok::<Option<ControlReceipt>, ControlError>(None),
        facts.pending,
    ensures
        pending.next(facts).1 == Refresh::Wait,
        pending.next(facts).0.phase is Writing,
        pending.next(facts).0.request == pending.request,
        facts.canceled ==> pending.next(facts).0.replied,
{
}

/// A refresh is answered by a receipt only behind a fresh barrier.
pub proof fn an_answer_is_behind_a_barrier(
    pending: PendingAuthority,
    facts: RefreshFacts,
    receipt: ControlReceipt,
)
    requires
        pending.next(facts).1 == Refresh::Complete(receipt),
    ensures
        pending.behind(facts),
        facts.leader,
        pending.term == facts.term,
{
}

/// A submitted installation is given up only when a fresh barrier of the
/// current term shows neither a receipt nor a pending proposal.
pub proof fn an_intent_is_given_up_only_when_settled(
    pending: PendingAuthority,
    facts: RefreshFacts,
)
    requires
        !(pending.phase is Initial),
        pending.next(facts).1 == Refresh::Fail(DirectoryBootstrapError::Unavailable),
    ensures
        pending.behind(facts),
        facts.leader,
        pending.term == facts.term,
        facts.receipt == Ok::<Option<ControlReceipt>, ControlError>(None),
        !facts.pending,
{
}

} // verus!
