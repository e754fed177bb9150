//! What a session's owner fences and times: transfers, routes, checkpoints and
//! its next look.
use super::membership::MembershipView;
use super::{LedgerError, MILLISECOND};
use crate::directory::authority::Configuration;
use crate::directory::ConsensusError;
use vstd::prelude::*;

verus! {

/// The configuration a transfer expects.
#[derive(Debug, Clone, PartialEq, Eq)]
pub struct Fence {
    pub expected_index: u64,
    pub expected: Configuration,
}

/// Whether leadership is handed over: a fenced transfer is done only by the
/// authority, with nothing pending, and in exactly the expected configuration.
pub fn transfer(
    fence: &Option<Fence>,
    authoritative: bool,
    leader: u64,
    pending: usize,
    current: &Result<MembershipView, LedgerError>,
) -> (done: Result<(), LedgerError>)
    ensures
        done == (match *fence {
            None => Ok::<(), LedgerError>(()),
            Some(fence) => if !authoritative {
                Err::<(), LedgerError>(LedgerError::NotReady { leader })
            } else if pending != 0 {
                Err::<(), LedgerError>(LedgerError::Capacity)
            } else {
                match *current {
                    Err(error) => Err::<(), LedgerError>(error),
                    Ok(current) => if current.is_at(fence.expected_index, fence.expected) {
                        Ok::<(), LedgerError>(())
                    } else {
                        Err::<(), LedgerError>(LedgerError::MembershipConflict)
                    },
                }
            },
        }),
{
    let fence = match fence {
        Some(fence) => fence,
        None => return Ok(()),
    };
    if !authoritative {
        return Err(LedgerError::NotReady { leader });
    }
    if pending != 0 {
        return Err(LedgerError::Capacity);
    }
    match current {
        Err(error) => Err(*error),
        Ok(current) => if current.stands_at(fence.expected_index, &fence.expected) {
            Ok(())
        } else {
            Err(LedgerError::MembershipConflict)
        },
    }
}

/// The route and policy clients are served at.
#[derive(Debug, Clone, Copy, PartialEq, Eq, Structural)]
pub struct Serving {
    pub route_epoch: u64,
    pub policy_revision: u64,
}

impl Serving {
    /// Serve clients at an activated route: never one behind, the same again
    /// without effect, and a later one only once the session is there and no
    /// cutover is pending.
    pub fn refence(
        &mut self,
        route: u64,
        revision: u64,
        active_route: Option<u64>,
        cutover: bool,
    ) -> (done: Result<(), LedgerError>)
        ensures
            if route == old(self).route_epoch {
                done == Ok::<(), LedgerError>(()) && *final(self) == *old(self)
            } else if route < old(self).route_epoch || active_route != Some(route) || cutover {
                done == Err::<(), LedgerError>(LedgerError::PlacementConflict) && *final(self)
                    == *old(self)
            } else {
                done == Ok::<(), LedgerError>(()) && *final(self) == (Serving {
                    route_epoch: route,
                    policy_revision: revision,
                })
            },
            final(self).route_epoch >= old(self).route_epoch,
    {
        if route < self.route_epoch {
            return Err(LedgerError::PlacementConflict);
        }
        if route == self.route_epoch {
            return Ok(());
        }
        let there = match active_route {
            Some(active) => active == route,
            None => false,
        };
        if !there || cutover {
            return Err(LedgerError::PlacementConflict);
        }
        self.route_epoch = route;
        self.policy_revision = revision;
        Ok(())
    }
}

/// What a checkpoint waits for: proposals and deliveries under way, a
/// checkpoint in flight, a shutdown.
#[derive(Debug, Clone, Copy, PartialEq, Eq, Structural)]
pub struct Busy {
    pub pending: usize,
    pub persistence: bool,
    pub checkpoint: bool,
    pub stopping: bool,
}

impl Busy {
    /// Whether a checkpoint has to wait.
    pub open spec fn waits(self) -> bool {
        self.pending != 0 || self.persistence || self.checkpoint || self.stopping
    }

    fn is_busy(&self) -> (busy: bool)
        ensures
            busy == self.waits(),
    {
        self.pending != 0 || self.persistence || self.checkpoint || self.stopping
    }
}

/// Whether a refused checkpoint is only early: a resource condition or
/// unpersisted state waits for a later tick.
pub open spec fn early(error: LedgerError) -> bool {
    match error {
        LedgerError::Capacity
        | LedgerError::NotReady { .. }
        | LedgerError::Consensus(ConsensusError::PersistencePending)
        | LedgerError::Consensus(ConsensusError::Capacity)
        | LedgerError::Consensus(ConsensusError::CheckpointIndex) => true,
        LedgerError::Native { retryable } => retryable,
        _ => false,
    }
}

/// Whether a refused checkpoint is only early.
pub fn is_early(error: &LedgerError) -> (early: bool)
    ensures
        early == self::early(*error),
{
    match error {
        LedgerError::Capacity
        | LedgerError::NotReady { .. }
        | LedgerError::Consensus(ConsensusError::PersistencePending)
        | LedgerError::Consensus(ConsensusError::Capacity)
        | LedgerError::Consensus(ConsensusError::CheckpointIndex) => true,
        LedgerError::Native { retryable } => *retryable,
        _ => false,
    }
}

/// The log a replica keeps past its checkpoint, and whether one is due.
#[derive(Debug, Clone, Copy, PartialEq, Eq, Structural)]
pub struct Log {
    pub applied_index: u64,
    pub snapshot_index: u64,
    /// Entries past the snapshot after which a checkpoint is taken.
    pub checkpoint_after_entries: u64,
    /// A member was added after the log was compacted: the snapshot that
    /// seeds it must name it.
    pub due: bool,
}

impl Log {
    /// Entries applied past the last snapshot.
    pub open spec fn kept(self) -> int {
        if self.applied_index >= self.snapshot_index {
            self.applied_index - self.snapshot_index
        } else {
            0
        }
    }

    /// Entries applied past the last snapshot.
    pub fn log_entries_since_checkpoint(&self) -> (entries: u64)
        ensures
            entries == self.kept(),
    {
        self.applied_index.saturating_sub(self.snapshot_index)
    }

    /// Whether a checkpoint is taken by the log's own cadence, and nothing
    /// stands in its way.
    pub fn checkpoint_by_cadence(&self, busy: &Busy) -> (take: bool)
        ensures
            take == (self.kept() >= self.checkpoint_after_entries && !busy.waits()),
    {
        self.log_entries_since_checkpoint() >= self.checkpoint_after_entries && !busy.is_busy()
    }

    /// What a checkpoint that was tried came to: taken, or early, or a
    /// failure.
    pub fn try_checkpoint(outcome: Result<(), LedgerError>) -> (taken: Result<bool, LedgerError>)
        ensures
            taken == (match outcome {
                Ok(_) => Ok::<bool, LedgerError>(true),
                Err(error) => if early(error) {
                    Ok::<bool, LedgerError>(false)
                } else {
                    Err::<bool, LedgerError>(error)
                },
            }),
    {
        match outcome {
            Ok(_) => Ok(true),
            Err(error) => if is_early(&error) {
                Ok(false)
            } else {
                Err(error)
            },
        }
    }

    /// Whether the checkpoint that is due is taken now. A log that is
    /// complete from its first entry needs none.
    pub fn checkpoint_if_due(&mut self, busy: &Busy) -> (take: bool)
        ensures
            *final(self) == (if old(self).snapshot_index == 0 {
                Log { due: false, ..*old(self) }
            } else {
                *old(self)
            }),
            take == (old(self).due && old(self).snapshot_index != 0 && !busy.waits()),
    {
        if !self.due {
            assert(*self == (Log { due: false, ..*self }));
            return false;
        }
        if self.snapshot_index == 0 {
            self.due = false;
            return false;
        }
        !busy.is_busy()
    }

    /// Take what the due checkpoint came to: it stays due until it is taken.
    pub fn checkpointed(&mut self, outcome: Result<(), LedgerError>) -> (done: Result<
        (),
        LedgerError,
    >)
        ensures
            match outcome {
                Ok(_) => *final(self) == (Log { due: false, ..*old(self) }) && done == Ok::<
                    (),
                    LedgerError,
                >(()),
                Err(error) => *final(self) == *old(self) && done == (if early(error) {
                    Ok::<(), LedgerError>(())
                } else {
                    Err::<(), LedgerError>(error)
                }),
            },
    {
        match outcome {
            Ok(_) => {
                self.due = false;
                Ok(())
            },
            Err(error) => if is_early(&error) {
                Ok(())
            } else {
                Err(error)
            },
        }
    }
}

/// Begin to stop: once, with a deadline.
pub fn begin_stop(already: bool, now: u64, timeout: u64) -> (deadline: Result<
    Option<u64>,
    LedgerError,
>)
    ensures
        deadline == (if already {
            Ok::<Option<u64>, LedgerError>(None)
        } else if now + timeout <= u64::MAX {
            Ok::<Option<u64>, LedgerError>(Some((now + timeout) as u64))
        } else {
            Err::<Option<u64>, LedgerError>(LedgerError::Capacity)
        }),
{
    if already {
        return Ok(None);
    }
    match now.checked_add(timeout) {
        Some(deadline) => Ok(Some(deadline)),
        None => Err(LedgerError::Capacity),
    }
}

/// What a session of a shared worker waits for.
#[derive(Debug, Clone, Copy, PartialEq, Eq, Structural)]
pub struct Waits {
    pub persistence: bool,
    pub stopping: bool,
    pub evidence: bool,
    pub ready: bool,
    /// A delivery waits for chunks its host has not pulled yet.
    pub seeds: bool,
    pub next_tick: u64,
}

impl Waits {
    /// When the session is looked at again: at once while it has something
    /// ready, shortly while it waits for a disk, a stop or an export, else at
    /// its next tick.
    pub fn group_deadline(&self, now: u64) -> (wake: Result<u64, LedgerError>)
        ensures
            wake == (if self.persistence || self.stopping || self.evidence {
                if now + MILLISECOND <= u64::MAX {
                    Ok::<u64, LedgerError>((now + MILLISECOND) as u64)
                } else {
                    Err::<u64, LedgerError>(LedgerError::Failed)
                }
            } else if self.ready && !self.seeds && now < self.next_tick {
                Ok::<u64, LedgerError>(now)
            } else {
                Ok::<u64, LedgerError>(self.next_tick)
            }),
    {
        if self.persistence || self.stopping || self.evidence {
            return match now.checked_add(MILLISECOND) {
                Some(wake) => Ok(wake),
                None => Err(LedgerError::Failed),
            };
        }
        if self.ready && !self.seeds && now < self.next_tick {
            return Ok(now);
        }
        Ok(self.next_tick)
    }

}

/// A failed or corrupt session is never taken for one that is merely early.
pub proof fn corruption_is_not_early(error: LedgerError)
    requires
        early(error),
    ensures
        error != LedgerError::Failed,
        error != LedgerError::Corrupt,
{
}

} // verus!
