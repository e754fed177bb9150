//! The calls a node makes of its own replicas: what each is charged, what work
//! it becomes, and what its caller learns. None of them is part of the wire.
use super::accept::Work;
use super::diagnostics::DIAGNOSTICS_BYTES;
use super::{call_charge, HostQueue, LedgerError, IMPORT_PAYLOAD_BYTES, MEMBERSHIP_BYTES};
use vstd::prelude::*;

verus! {

/// The allowance of a call that carries little.
pub const SMALL_CALL_BYTES: usize = 4 * 1024;

/// The allowance of a call that moves a fence.
pub const FENCE_CALL_BYTES: usize = 16 * 1024;

/// The allowance of a call that carries or returns a bounded list.
pub const LIST_CALL_BYTES: usize = 64 * 1024;

/// A call of a replica's host. `configuration` is what the expected members
/// take, `capacity` what a chunk's bytes do.
#[derive(Debug, Clone, Copy, PartialEq, Eq, Structural)]
pub enum HostCall {
    Diagnostics,
    TransferLeader,
    TransferLeaderChecked { configuration: usize },
    ActivateNative,
    Refence,
    ImportPayloads,
    Checkpoint,
    ArtifactPointer,
    PendingSeedChunks,
    InstallSeedChunk { capacity: usize },
    PendingCustodyObjects,
    CustodyPulled,
    Membership,
    ChangeMembership { configuration: usize },
    CheckpointEvidence,
    ManagedSupport,
    Stop,
}

impl HostCall {
    /// The work a call becomes.
    pub open spec fn becomes(self) -> Work {
        match self {
            HostCall::Diagnostics => Work::Diagnostics,
            HostCall::TransferLeader | HostCall::TransferLeaderChecked { .. } => Work::Transfer,
            HostCall::ActivateNative => Work::ActivateNative,
            HostCall::Refence => Work::Refence,
            HostCall::ImportPayloads => Work::ImportPayloads,
            HostCall::Checkpoint => Work::Checkpoint,
            HostCall::ArtifactPointer => Work::ArtifactPointer,
            HostCall::PendingSeedChunks => Work::SeedChunks,
            HostCall::InstallSeedChunk { .. } => Work::InstallSeed,
            HostCall::PendingCustodyObjects => Work::CustodyObjects,
            HostCall::CustodyPulled => Work::CustodyPulled,
            HostCall::Membership | HostCall::ChangeMembership { .. } => Work::Membership,
            HostCall::CheckpointEvidence => Work::Evidence,
            HostCall::ManagedSupport => Work::ManagedSupport,
            HostCall::Stop => Work::Stop,
        }
    }

    /// The work a call becomes.
    pub fn work(self) -> (work: Work)
        ensures
            work == self.becomes(),
    {
        match self {
            HostCall::Diagnostics => Work::Diagnostics,
            HostCall::TransferLeader | HostCall::TransferLeaderChecked { .. } => Work::Transfer,
            HostCall::ActivateNative => Work::ActivateNative,
            HostCall::Refence => Work::Refence,
            HostCall::ImportPayloads => Work::ImportPayloads,
            HostCall::Checkpoint => Work::Checkpoint,
            HostCall::ArtifactPointer => Work::ArtifactPointer,
            HostCall::PendingSeedChunks => Work::SeedChunks,
            HostCall::InstallSeedChunk { .. } => Work::InstallSeed,
            HostCall::PendingCustodyObjects => Work::CustodyObjects,
            HostCall::CustodyPulled => Work::CustodyPulled,
            HostCall::Membership | HostCall::ChangeMembership { .. } => Work::Membership,
            HostCall::CheckpointEvidence => Work::Evidence,
            HostCall::ManagedSupport => Work::ManagedSupport,
            HostCall::Stop => Work::Stop,
        }
    }

    /// What a call carries and its allowance beside. An unfenced transfer and
    /// a stop take no room of their own: they get through when there is none.
    pub open spec fn takes(self) -> (int, int) {
        match self {
            HostCall::TransferLeader | HostCall::Stop => (0, 0),
            HostCall::TransferLeaderChecked { configuration }
            | HostCall::ChangeMembership { configuration } => (
                configuration as int,
                MEMBERSHIP_BYTES as int,
            ),
            HostCall::Membership | HostCall::ManagedSupport => (0, MEMBERSHIP_BYTES as int),
            HostCall::Diagnostics => (0, DIAGNOSTICS_BYTES as int),
            HostCall::ActivateNative
            | HostCall::Checkpoint
            | HostCall::PendingSeedChunks
            | HostCall::PendingCustodyObjects => (0, LIST_CALL_BYTES as int),
            HostCall::Refence => (0, FENCE_CALL_BYTES as int),
            HostCall::ImportPayloads => (IMPORT_PAYLOAD_BYTES as int, LIST_CALL_BYTES as int),
            HostCall::InstallSeedChunk { capacity } => (capacity as int, LIST_CALL_BYTES as int),
            HostCall::ArtifactPointer | HostCall::CustodyPulled | HostCall::CheckpointEvidence => (
                0,
                SMALL_CALL_BYTES as int,
            ),
        }
    }

    /// The bytes a call is charged, in the lane of completions.
    pub fn charge(self) -> (bytes: Result<usize, LedgerError>)
        ensures
            bytes == (if self.takes().0 + self.takes().1 <= usize::MAX {
                Ok::<usize, LedgerError>((self.takes().0 + self.takes().1) as usize)
            } else {
                Err::<usize, LedgerError>(LedgerError::Capacity)
            }),
    {
        match self {
            HostCall::TransferLeader | HostCall::Stop => Ok(0),
            HostCall::TransferLeaderChecked { configuration } => call_charge(
                configuration,
                MEMBERSHIP_BYTES,
            ),
            HostCall::ChangeMembership { configuration } => call_charge(
                configuration,
                MEMBERSHIP_BYTES,
            ),
            HostCall::Membership | HostCall::ManagedSupport => Ok(MEMBERSHIP_BYTES),
            HostCall::Diagnostics => Ok(DIAGNOSTICS_BYTES),
            HostCall::ActivateNative
            | HostCall::Checkpoint
            | HostCall::PendingSeedChunks
            | HostCall::PendingCustodyObjects => Ok(LIST_CALL_BYTES),
            HostCall::Refence => Ok(FENCE_CALL_BYTES),
            HostCall::ImportPayloads => call_charge(IMPORT_PAYLOAD_BYTES, LIST_CALL_BYTES),
            HostCall::InstallSeedChunk { capacity } => call_charge(capacity, LIST_CALL_BYTES),
            HostCall::ArtifactPointer | HostCall::CustodyPulled | HostCall::CheckpointEvidence => {
                Ok(SMALL_CALL_BYTES)
            },
        }
    }

    /// What the caller learns whose answer was lost: a call that changes
    /// nothing durable has failed, of any other nobody knows.
    pub open spec fn loss(self) -> LedgerError {
        match self {
            HostCall::TransferLeader | HostCall::Stop | HostCall::Diagnostics => {
                LedgerError::Failed
            },
            _ => LedgerError::OutcomeUnknown,
        }
    }

    /// What the caller learns: `granted` is whether its charge was, `queue`
    /// what handing the work over came to, and `answer` what came back, if
    /// anything did.
    pub open spec fn learned<T>(
        self,
        granted: bool,
        queue: HostQueue,
        answer: Option<Result<T, LedgerError>>,
    ) -> Result<T, LedgerError> {
        if !granted {
            Err(LedgerError::Capacity)
        } else {
            match queue {
                HostQueue::Full => Err(LedgerError::Capacity),
                HostQueue::Disconnected => Err(LedgerError::Failed),
                HostQueue::Sent => match answer {
                    Some(answer) => answer,
                    None => Err(self.loss()),
                },
            }
        }
    }

    /// Decide what the caller learns.
    pub fn learns<T>(
        self,
        granted: bool,
        queue: HostQueue,
        answer: Option<Result<T, LedgerError>>,
    ) -> (learned: Result<T, LedgerError>)
        ensures
            learned == self.learned(granted, queue, answer),
    {
        if !granted {
            return Err(LedgerError::Capacity);
        }
        match queue.sent() {
            Err(error) => Err(error),
            Ok(_) => match answer {
                Some(answer) => answer,
                None => match self {
                    HostCall::TransferLeader | HostCall::Stop | HostCall::Diagnostics => Err(
                        LedgerError::Failed,
                    ),
                    _ => Err(LedgerError::OutcomeUnknown),
                },
            },
        }
    }
}

/// Only a call that was queued and whose answer was lost is uncertain: one
/// that was never queued may be made again.
pub proof fn a_refused_call_is_certain<T>(
    call: HostCall,
    granted: bool,
    queue: HostQueue,
    answer: Option<Result<T, LedgerError>>,
)
    requires
        call.learned(granted, queue, answer) == Err::<T, LedgerError>(LedgerError::OutcomeUnknown),
    ensures
        granted,
        queue == HostQueue::Sent,
{
}

} // verus!
