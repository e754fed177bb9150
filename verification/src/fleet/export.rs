//! One bounded evidence export on a session's owner. Only the log's own
//! thread waits for the disk; a shared worker polls for exact receipts.
use super::{LedgerError, MILLISECOND, SECOND};
use vstd::prelude::*;

verus! {

/// How long an export's snapshot is leased for, in whole milliseconds, where
/// the lease is one: more than nothing and at most half a minute.
pub fn lease(ttl: u64) -> (millis: Result<u64, LedgerError>)
    ensures
        millis == (if MILLISECOND <= ttl <= 30 * SECOND {
            Ok::<u64, LedgerError>(ttl / MILLISECOND)
        } else {
            Err::<u64, LedgerError>(LedgerError::Capacity)
        }),
{
    if ttl == 0 || ttl > 30 * SECOND {
        return Err(LedgerError::Capacity);
    }
    let millis: u64 = ttl / MILLISECOND;
    if millis == 0 {
        return Err(LedgerError::Capacity);
    }
    Ok(millis)
}

/// What an owner is while it exports.
#[derive(Debug, Clone, Copy, PartialEq, Eq, Structural)]
pub struct ExportFacts {
    pub stopping: bool,
    /// The caller left.
    pub closed: bool,
    pub expired: bool,
    /// A disk, something ready, or a proposal stands in the way.
    pub persistence: bool,
    pub ready: bool,
    pub pending: usize,
}

/// What is done for an export.
#[derive(Debug, Clone, Copy, PartialEq, Eq)]
pub enum Export {
    /// It is refused.
    Refuse(LedgerError),
    /// The owner serves this session alone: it is done at once.
    Now,
    /// It is kept and looked at.
    Keep,
    /// Interest in it ends, never a checkpoint already admitted: it is
    /// cancelled and its outcome is unknown.
    Cancel,
    /// It is begun, then polled.
    Begin,
    /// It is polled.
    Poll,
}

/// Decide whether an export is taken: one at a time, and none while the owner
/// stops.
pub fn accept_evidence(under_way: bool, stopping: bool, closed: bool, nonblocking: bool) -> (export:
    Export)
    ensures
        export == (if under_way || stopping || closed {
            Export::Refuse(LedgerError::Capacity)
        } else if nonblocking {
            Export::Keep
        } else {
            Export::Now
        }),
{
    if under_way || stopping || closed {
        Export::Refuse(LedgerError::Capacity)
    } else if nonblocking {
        Export::Keep
    } else {
        Export::Now
    }
}

/// Decide what is done for an export that was taken.
pub fn progress_evidence(started: bool, facts: &ExportFacts) -> (export: Export)
    ensures
        export == (if facts.stopping || facts.closed || facts.expired {
            Export::Cancel
        } else if started {
            Export::Poll
        } else if facts.persistence || facts.ready || facts.pending != 0 {
            Export::Keep
        } else {
            Export::Begin
        }),
{
    if facts.stopping || facts.closed || facts.expired {
        return Export::Cancel;
    }
    if started {
        return Export::Poll;
    }
    if facts.persistence || facts.ready || facts.pending != 0 {
        return Export::Keep;
    }
    Export::Begin
}

/// What becomes of an export that was to begin.
#[derive(Debug, Clone, Copy, PartialEq, Eq)]
pub enum Begun {
    /// It has begun, and is polled.
    Poll,
    /// It is answered with the error. Nothing was admitted, so nothing is
    /// cancelled, and the owner goes on whatever the error is.
    Answer(LedgerError),
    /// The owner's clock could not be moved: the owner has failed.
    Fail(LedgerError),
}

/// Decide what becomes of an export that was to begin, given whether the
/// owner's clock moved and what beginning came to.
pub fn begin_evidence(clock: bool, begun: Result<(), LedgerError>) -> (next: Begun)
    ensures
        next == (if !clock {
            Begun::Fail(LedgerError::Failed)
        } else {
            match begun {
                Ok(_) => Begun::Poll,
                Err(error) => Begun::Answer(error),
            }
        }),
{
    if !clock {
        return Begun::Fail(LedgerError::Failed);
    }
    match begun {
        Ok(_) => Begun::Poll,
        Err(error) => Begun::Answer(error),
    }
}

/// What a poll of an export came to.
#[derive(Debug, Clone, Copy, PartialEq, Eq)]
pub enum Exported {
    Waits,
    Done,
    Failed(LedgerError),
}

/// What becomes of an export that was polled.
#[derive(Debug, Clone, Copy, PartialEq, Eq)]
pub enum Outcome {
    Keep,
    Deliver,
    /// It is cancelled and answered with the error; `fatal` says that the
    /// owner has failed with it.
    Fail { error: LedgerError, fatal: bool },
}

/// Decide what becomes of an export that was polled: a consensus failure is
/// the owner's own.
pub fn finish_evidence(exported: Exported) -> (outcome: Outcome)
    ensures
        outcome == (match exported {
            Exported::Waits => Outcome::Keep,
            Exported::Done => Outcome::Deliver,
            Exported::Failed(error) => Outcome::Fail { error, fatal: error is Consensus },
        }),
{
    match exported {
        Exported::Waits => Outcome::Keep,
        Exported::Done => Outcome::Deliver,
        Exported::Failed(error) => {
            let fatal = match error {
                LedgerError::Consensus(_) => true,
                _ => false,
            };
            Outcome::Fail { error, fatal }
        },
    }
}

/// What the caller of an export is told once its interest ends, if anything,
/// and what the owner comes to: a cancel that fails is the owner's failure and
/// tells nobody.
pub fn cancelled(answer: LedgerError, fatal: bool, cancel: Result<(), LedgerError>) -> (after: (
    Option<LedgerError>,
    Result<(), LedgerError>,
))
    ensures
        after == (match cancel {
            Err(error) => (None::<LedgerError>, Err::<(), LedgerError>(error)),
            Ok(_) => (
                Some(answer),
                if fatal {
                    Err::<(), LedgerError>(LedgerError::Failed)
                } else {
                    Ok::<(), LedgerError>(())
                },
            ),
        }),
{
    match cancel {
        Err(error) => (None, Err(error)),
        Ok(_) => if fatal {
            (Some(answer), Err(LedgerError::Failed))
        } else {
            (Some(answer), Ok(()))
        },
    }
}

} // verus!
