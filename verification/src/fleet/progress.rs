//! How a session's owner goes on: a round of a shared worker, a tick, and the
//! draining of its log.
use super::LedgerError;
use crate::codec::copy_16;
use crate::ids::{append_be, be_bytes, big_endian_is_one_to_one};
use vstd::prelude::*;

verus! {

/// What a shared worker does next for a session. It never waits on a disk: what
/// is not durable yet stays inside the session until its log reports it.
#[derive(Debug, Clone, Copy, PartialEq, Eq)]
pub enum Turn {
    /// Let the published views go on.
    Views,
    /// Let time pass for what waits.
    Expire,
    /// Go on with the export of evidence.
    Evidence,
    /// Drain the log, and drive the session's effects if said.
    Drain { runtime: bool },
    /// Tell consensus what became of its snapshots.
    Feedback,
    /// Go on with what waits for promises.
    Managed,
    /// Take the checkpoint that is due.
    CheckpointIfDue,
    /// Answer the shutdown.
    AnswerStop(Result<(), LedgerError>),
    Tick,
    /// The round is done: whether the session has stopped, or why it fails.
    Return(Result<bool, LedgerError>),
}

/// What a turn came to, and what the session is after it.
#[derive(Debug, Clone, Copy, PartialEq, Eq)]
pub struct Seen {
    pub outcome: Result<(), LedgerError>,
    /// Whether something is ready in its log.
    pub ready: bool,
    /// Whether something is not durable yet.
    pub persistence: bool,
    pub now: u64,
}

/// Where a round is.
#[derive(Debug, Clone, Copy, PartialEq, Eq)]
pub enum Round {
    Views,
    Expiring,
    Evidence,
    Draining,
    EvidenceAgain,
    Feedback,
    Managed,
    Checkpoint,
    Stopping,
    Ticking,
    Finished(Result<bool, LedgerError>),
}

/// A round of a shared worker at one of its sessions. Times are in
/// nanoseconds.
#[derive(Debug, Clone, Copy, PartialEq, Eq)]
pub struct Progress {
    pub round: Round,
    /// The deadline of its shutdown, while it stops.
    pub stopping: Option<u64>,
    pub next_tick: u64,
    pub tick: u64,
}

impl Progress {
    /// The round as it ends.
    pub open spec fn comes_to(self, result: Result<bool, LedgerError>) -> (Self, Turn) {
        (Progress { round: Round::Finished(result), ..self }, Turn::Return(result))
    }

    /// The round as it goes on.
    pub open spec fn turns(self, round: Round, turn: Turn) -> (Self, Turn) {
        (Progress { round, ..self }, turn)
    }

    /// What becomes of the round's end: a stopping session is done when
    /// nothing is ready any more, for its log already owns the recoverable
    /// prefix, and its outcome is unknown at its deadline; another one ticks
    /// when it is time.
    pub open spec fn closes(self, seen: Seen) -> (Self, Turn) {
        match self.stopping {
            Some(deadline) => if !seen.ready {
                self.turns(Round::Stopping, Turn::AnswerStop(Ok(())))
            } else if seen.now >= deadline {
                self.turns(Round::Stopping, Turn::AnswerStop(Err(LedgerError::OutcomeUnknown)))
            } else {
                self.comes_to(Ok(false))
            },
            None => if !seen.persistence && seen.now >= self.next_tick {
                self.turns(Round::Ticking, Turn::Tick)
            } else {
                self.comes_to(Ok(false))
            },
        }
    }

    /// How the round goes on.
    pub open spec fn next(self, seen: Seen) -> (Self, Turn) {
        match (self.round, seen.outcome) {
            (Round::Finished(result), _) => self.comes_to(result),
            (Round::Views, Err(_)) => self.comes_to(Err(LedgerError::Failed)),
            (Round::Views, Ok(_)) => self.turns(Round::Expiring, Turn::Expire),
            (Round::Expiring, _) => self.turns(Round::Evidence, Turn::Evidence),
            (Round::Stopping, _) => (
                Progress { round: Round::Finished(Ok(true)), stopping: None, ..self },
                Turn::Return(Ok(true)),
            ),
            (_, Err(error)) => self.comes_to(Err(error)),
            (Round::Evidence, _) => if seen.ready {
                self.turns(Round::Draining, Turn::Drain { runtime: self.stopping is None })
            } else {
                self.turns(Round::EvidenceAgain, Turn::Evidence)
            },
            (Round::Draining, _) => self.turns(Round::EvidenceAgain, Turn::Evidence),
            (Round::EvidenceAgain, _) => if seen.persistence {
                self.turns(Round::Managed, Turn::Managed)
            } else {
                self.turns(Round::Feedback, Turn::Feedback)
            },
            (Round::Feedback, _) => self.turns(Round::Managed, Turn::Managed),
            (Round::Managed, _) => self.turns(Round::Checkpoint, Turn::CheckpointIfDue),
            (Round::Checkpoint, _) => self.closes(seen),
            (Round::Ticking, _) => if seen.now + self.tick <= u64::MAX {
                (
                    Progress {
                        round: Round::Finished(Ok(false)),
                        next_tick: (seen.now + self.tick) as u64,
                        ..self
                    },
                    Turn::Return(Ok(false)),
                )
            } else {
                self.comes_to(Err(LedgerError::Failed))
            },
        }
    }

    /// Begin a round.
    pub fn progress_group(stopping: Option<u64>, next_tick: u64, tick: u64) -> (begun: (Self, Turn))
        ensures
            begun == (Progress { round: Round::Views, stopping, next_tick, tick }, Turn::Views),
    {
        (Progress { round: Round::Views, stopping, next_tick, tick }, Turn::Views)
    }

    /// Take what the last turn came to.
    pub fn step(&mut self, seen: Seen) -> (turn: Turn)
        ensures
            (*final(self), turn) == old(self).next(seen),
    {
        let (round, turn) = match (self.round, seen.outcome) {
            (Round::Finished(result), _) => (Round::Finished(result), Turn::Return(result)),
            (Round::Views, Err(_)) => (
                Round::Finished(Err(LedgerError::Failed)),
                Turn::Return(Err(LedgerError::Failed)),
            ),
            (Round::Views, Ok(_)) => (Round::Expiring, Turn::Expire),
            (Round::Expiring, _) => (Round::Evidence, Turn::Evidence),
            (Round::Stopping, _) => {
                self.stopping = None;
                (Round::Finished(Ok(true)), Turn::Return(Ok(true)))
            },
            (_, Err(error)) => (Round::Finished(Err(error)), Turn::Return(Err(error))),
            (Round::Evidence, _) => if seen.ready {
                (Round::Draining, Turn::Drain { runtime: self.stopping.is_none() })
            } else {
                (Round::EvidenceAgain, Turn::Evidence)
            },
            (Round::Draining, _) => (Round::EvidenceAgain, Turn::Evidence),
            (Round::EvidenceAgain, _) => if seen.persistence {
                (Round::Managed, Turn::Managed)
            } else {
                (Round::Feedback, Turn::Feedback)
            },
            (Round::Feedback, _) => (Round::Managed, Turn::Managed),
            (Round::Managed, _) => (Round::Checkpoint, Turn::CheckpointIfDue),
            (Round::Checkpoint, _) => match self.stopping {
                Some(deadline) => if !seen.ready {
                    (Round::Stopping, Turn::AnswerStop(Ok(())))
                } else if seen.now >= deadline {
                    (Round::Stopping, Turn::AnswerStop(Err(LedgerError::OutcomeUnknown)))
                } else {
                    (Round::Finished(Ok(false)), Turn::Return(Ok(false)))
                },
                None => if !seen.persistence && seen.now >= self.next_tick {
                    (Round::Ticking, Turn::Tick)
                } else {
                    (Round::Finished(Ok(false)), Turn::Return(Ok(false)))
                },
            },
            (Round::Ticking, _) => match seen.now.checked_add(self.tick) {
                Some(next) => {
                    self.next_tick = next;
                    (Round::Finished(Ok(false)), Turn::Return(Ok(false)))
                },
                None => (
                    Round::Finished(Err(LedgerError::Failed)),
                    Turn::Return(Err(LedgerError::Failed)),
                ),
            },
        };
        self.round = round;
        turn
    }
}

/// A shutdown is answered with success only when nothing is ready in the log
/// any more, and a session stops only once its shutdown was answered.
pub proof fn a_stop_is_answered_once_drained(progress: Progress, seen: Seen)
    ensures
        progress.next(seen).1 == Turn::AnswerStop(Ok(())) ==> !seen.ready && progress.stopping
            is Some,
        progress.next(seen).1 == Turn::Return(Ok(true)) ==> progress.round is Stopping
            || progress.round == Round::Finished(Ok(true)),
{
}

/// No effect of a session is driven once it was told to stop, and it does not
/// tick.
pub proof fn a_stopping_session_starts_nothing(progress: Progress, seen: Seen)
    requires
        progress.stopping is Some,
    ensures
        progress.next(seen).1 != (Turn::Drain { runtime: true }),
        progress.next(seen).1 != Turn::Tick,
{
}

/// What the owner of a single session does next.
#[derive(Debug, Clone, Copy, PartialEq, Eq)]
pub enum AloneTurn {
    Drain,
    Tick,
    /// Wait so long for a piece of work.
    Receive { wait: u64 },
    /// Do the piece of work that came.
    Accept,
    /// Go on with what waits for promises.
    Managed,
    /// Take the checkpoint that is due.
    CheckpointIfDue,
    /// Answer what still waits, and end.
    Close(Result<(), LedgerError>),
}

/// What that came to.
#[derive(Debug, Clone, Copy, PartialEq, Eq)]
pub enum AloneDid {
    Done(Result<(), LedgerError>),
    /// A piece of work came.
    Work,
    /// None came in time.
    Timeout,
    /// Nobody can send any more.
    Disconnected,
    /// The work was done: whether the owner stops.
    Accepted(Result<bool, LedgerError>),
}

/// Where the owner of a single session is.
#[derive(Debug, Clone, Copy, PartialEq, Eq)]
pub enum AloneAt {
    Draining,
    Ticking,
    Receiving,
    Accepting,
    Managed,
    Checkpoint,
    Closed(Result<(), LedgerError>),
}

/// The owner of a single session, on a thread of its own. Times are in
/// nanoseconds.
#[derive(Debug, Clone, Copy, PartialEq, Eq)]
pub struct Alone {
    pub at: AloneAt,
    pub next_tick: u64,
    pub tick: u64,
}

impl Alone {
    /// The owner as it ends.
    pub open spec fn closes(self, result: Result<(), LedgerError>) -> (Self, AloneTurn) {
        (Alone { at: AloneAt::Closed(result), ..self }, AloneTurn::Close(result))
    }

    /// The owner as it looks at its clock: a tick that is due comes before
    /// more work.
    pub open spec fn looks(self, now: u64) -> (Self, AloneTurn) {
        if now >= self.next_tick {
            (Alone { at: AloneAt::Ticking, ..self }, AloneTurn::Tick)
        } else {
            (
                Alone { at: AloneAt::Receiving, ..self },
                AloneTurn::Receive { wait: (self.next_tick - now) as u64 },
            )
        }
    }

    /// How the owner goes on. What does not belong to a turn fails it.
    pub open spec fn next(self, did: AloneDid, now: u64) -> (Self, AloneTurn) {
        match (self.at, did) {
            (AloneAt::Closed(result), _) => self.closes(result),
            (_, AloneDid::Done(Err(error))) => self.closes(Err(error)),
            (AloneAt::Draining, AloneDid::Done(_)) => self.looks(now),
            (AloneAt::Ticking, AloneDid::Done(_)) => if now + self.tick > u64::MAX {
                self.closes(Err(LedgerError::Failed))
            } else {
                (
                    Alone {
                        at: AloneAt::Receiving,
                        next_tick: (now + self.tick) as u64,
                        ..self
                    },
                    AloneTurn::Receive { wait: self.tick },
                )
            },
            (AloneAt::Receiving, AloneDid::Work) => (
                Alone { at: AloneAt::Accepting, ..self },
                AloneTurn::Accept,
            ),
            (AloneAt::Receiving, AloneDid::Timeout) => self.looks(now),
            (AloneAt::Receiving, AloneDid::Disconnected) => self.closes(Ok(())),
            (AloneAt::Accepting, AloneDid::Accepted(accepted)) => match accepted {
                Err(error) => self.closes(Err(error)),
                Ok(stops) => if stops {
                    self.closes(Ok(()))
                } else {
                    (Alone { at: AloneAt::Managed, ..self }, AloneTurn::Managed)
                },
            },
            (AloneAt::Managed, AloneDid::Done(_)) => (
                Alone { at: AloneAt::Checkpoint, ..self },
                AloneTurn::CheckpointIfDue,
            ),
            (AloneAt::Checkpoint, AloneDid::Done(_)) => self.looks(now),
            _ => self.closes(Err(LedgerError::Failed)),
        }
    }

    /// Begin to run: the first tick is due at once.
    pub fn run(now: u64, tick: u64) -> (begun: (Self, AloneTurn))
        ensures
            begun == (
                Alone { at: AloneAt::Draining, next_tick: now, tick },
                AloneTurn::Drain,
            ),
    {
        (Alone { at: AloneAt::Draining, next_tick: now, tick }, AloneTurn::Drain)
    }

    fn close(&mut self, result: Result<(), LedgerError>) -> (turn: AloneTurn)
        ensures
            (*final(self), turn) == old(self).closes(result),
    {
        self.at = AloneAt::Closed(result);
        AloneTurn::Close(result)
    }

    fn look(&mut self, now: u64) -> (turn: AloneTurn)
        ensures
            (*final(self), turn) == old(self).looks(now),
    {
        if now >= self.next_tick {
            self.at = AloneAt::Ticking;
            return AloneTurn::Tick;
        }
        self.at = AloneAt::Receiving;
        AloneTurn::Receive { wait: self.next_tick - now }
    }

    /// Take what the last turn came to.
    pub fn step(&mut self, did: AloneDid, now: u64) -> (turn: AloneTurn)
        ensures
            (*final(self), turn) == old(self).next(did, now),
    {
        match (self.at, did) {
            (AloneAt::Closed(result), _) => self.close(result),
            (_, AloneDid::Done(Err(error))) => self.close(Err(error)),
            (AloneAt::Draining, AloneDid::Done(_)) => self.look(now),
            (AloneAt::Ticking, AloneDid::Done(_)) => match now.checked_add(self.tick) {
                None => self.close(Err(LedgerError::Failed)),
                Some(next) => {
                    self.at = AloneAt::Receiving;
                    self.next_tick = next;
                    AloneTurn::Receive { wait: self.tick }
                },
            },
            (AloneAt::Receiving, AloneDid::Work) => {
                self.at = AloneAt::Accepting;
                AloneTurn::Accept
            },
            (AloneAt::Receiving, AloneDid::Timeout) => self.look(now),
            (AloneAt::Receiving, AloneDid::Disconnected) => self.close(Ok(())),
            (AloneAt::Accepting, AloneDid::Accepted(accepted)) => match accepted {
                Err(error) => self.close(Err(error)),
                Ok(stops) => if stops {
                    self.close(Ok(()))
                } else {
                    self.at = AloneAt::Managed;
                    AloneTurn::Managed
                },
            },
            (AloneAt::Managed, AloneDid::Done(_)) => {
                self.at = AloneAt::Checkpoint;
                AloneTurn::CheckpointIfDue
            },
            (AloneAt::Checkpoint, AloneDid::Done(_)) => self.look(now),
            _ => self.close(Err(LedgerError::Failed)),
        }
    }
}

/// However much work there is, a tick that is due comes before the next piece
/// of it, and no piece is waited for beyond the next tick.
pub proof fn work_does_not_keep_an_owner_from_ticking(alone: Alone, did: AloneDid, now: u64)
    requires
        !(alone.at is Closed),
        alone.next(did, now).1 is Receive,
    ensures
        alone.next(did, now).1->wait == alone.next(did, now).0.next_tick - now,
        alone.at != AloneAt::Ticking ==> now < alone.next_tick,
{
}

/// What is done next at a tick.
#[derive(Debug, Clone, Copy, PartialEq, Eq)]
pub enum TickTurn {
    /// Let consensus count the tick.
    Session,
    /// Read the wall clock, in milliseconds.
    Clock,
    /// Propose this clock for the session's cursors.
    ProposeClock { now: u64 },
    /// Fire the timers that are due.
    Timers,
    Views,
    Drain,
    /// Take a checkpoint where the log's length asks for one.
    CheckpointByCadence,
    Managed,
    Return(Result<(), LedgerError>),
}

/// What a turn of a tick came to. `leader` and `cursor_clock` are the
/// session's, `wall_ms` is the clock where it was read.
#[derive(Debug, Clone, Copy, PartialEq, Eq)]
pub struct Ticked {
    pub outcome: Result<(), LedgerError>,
    pub leader: bool,
    pub cursor_clock: u64,
    pub wall_ms: u64,
}

/// Where a tick is.
#[derive(Debug, Clone, Copy, PartialEq, Eq)]
pub enum Tick {
    Session,
    Clock,
    Proposing,
    Timers,
    Views,
    Draining,
    Cadence,
    Managed,
    Finished(Result<(), LedgerError>),
}

/// Whether a refused proposal of a tick waits for a later one: pressure and
/// readiness do.
pub open spec fn waits(error: LedgerError) -> bool {
    error == LedgerError::Capacity || error is NotReady
}

impl Tick {
    /// The tick as it ends.
    pub open spec fn comes_to(result: Result<(), LedgerError>) -> (Self, TickTurn) {
        (Tick::Finished(result), TickTurn::Return(result))
    }

    /// How the tick goes on. Only a leader proposes: its clock, never behind
    /// what the session has, and its timers.
    pub open spec fn next(self, ticked: Ticked) -> (Self, TickTurn) {
        match (self, ticked.outcome) {
            (Tick::Finished(result), _) => Tick::comes_to(result),
            (Tick::Proposing, Err(error)) => if waits(error) {
                (Tick::Timers, TickTurn::Timers)
            } else {
                Tick::comes_to(Err(error))
            },
            (Tick::Timers, Err(error)) => if waits(error) {
                (Tick::Views, TickTurn::Views)
            } else {
                Tick::comes_to(Err(error))
            },
            (Tick::Views, Err(_)) => Tick::comes_to(Err(LedgerError::Failed)),
            (_, Err(error)) => Tick::comes_to(Err(error)),
            (Tick::Session, _) => if ticked.leader {
                (Tick::Clock, TickTurn::Clock)
            } else {
                (Tick::Views, TickTurn::Views)
            },
            (Tick::Clock, _) => (
                Tick::Proposing,
                TickTurn::ProposeClock {
                    now: if ticked.wall_ms >= ticked.cursor_clock {
                        ticked.wall_ms
                    } else {
                        ticked.cursor_clock
                    },
                },
            ),
            (Tick::Proposing, _) => (Tick::Timers, TickTurn::Timers),
            (Tick::Timers, _) => (Tick::Views, TickTurn::Views),
            (Tick::Views, _) => (Tick::Draining, TickTurn::Drain),
            (Tick::Draining, _) => (Tick::Cadence, TickTurn::CheckpointByCadence),
            (Tick::Cadence, _) => (Tick::Managed, TickTurn::Managed),
            (Tick::Managed, _) => Tick::comes_to(Ok(())),
        }
    }

    /// Begin a tick.
    pub fn tick() -> (begun: (Self, TickTurn))
        ensures
            begun == (Tick::Session, TickTurn::Session),
    {
        (Tick::Session, TickTurn::Session)
    }

    fn fail(error: LedgerError) -> (next: (Self, TickTurn))
        ensures
            next == Tick::comes_to(Err(error)),
    {
        (Tick::Finished(Err(error)), TickTurn::Return(Err(error)))
    }

    fn is_waited_for(error: &LedgerError) -> (yes: bool)
        ensures
            yes == waits(*error),
    {
        match error {
            LedgerError::Capacity => true,
            LedgerError::NotReady { .. } => true,
            _ => false,
        }
    }

    /// Take what the last turn came to.
    pub fn step(&mut self, ticked: Ticked) -> (turn: TickTurn)
        ensures
            (*final(self), turn) == old(self).next(ticked),
    {
        let (next, turn) = match (*self, ticked.outcome) {
            (Tick::Finished(result), _) => (Tick::Finished(result), TickTurn::Return(result)),
            (Tick::Proposing, Err(error)) => if Self::is_waited_for(&error) {
                (Tick::Timers, TickTurn::Timers)
            } else {
                Self::fail(error)
            },
            (Tick::Timers, Err(error)) => if Self::is_waited_for(&error) {
                (Tick::Views, TickTurn::Views)
            } else {
                Self::fail(error)
            },
            (Tick::Views, Err(_)) => Self::fail(LedgerError::Failed),
            (_, Err(error)) => Self::fail(error),
            (Tick::Session, _) => if ticked.leader {
                (Tick::Clock, TickTurn::Clock)
            } else {
                (Tick::Views, TickTurn::Views)
            },
            (Tick::Clock, _) => {
                let now: u64 = if ticked.wall_ms >= ticked.cursor_clock {
                    ticked.wall_ms
                } else {
                    ticked.cursor_clock
                };
                (Tick::Proposing, TickTurn::ProposeClock { now })
            },
            (Tick::Proposing, _) => (Tick::Timers, TickTurn::Timers),
            (Tick::Timers, _) => (Tick::Views, TickTurn::Views),
            (Tick::Views, _) => (Tick::Draining, TickTurn::Drain),
            (Tick::Draining, _) => (Tick::Cadence, TickTurn::CheckpointByCadence),
            (Tick::Cadence, _) => (Tick::Managed, TickTurn::Managed),
            (Tick::Managed, _) => (Tick::Finished(Ok(())), TickTurn::Return(Ok(()))),
        };
        *self = next;
        turn
    }
}

/// A session's clock never goes back.
pub proof fn a_proposed_clock_goes_forward(tick: Tick, ticked: Ticked, now: u64)
    requires
        tick.next(ticked).1 == (TickTurn::ProposeClock { now }),
    ensures
        now >= ticked.cursor_clock,
        now >= ticked.wall_ms,
{
}

/// What is done next while the log is drained.
#[derive(Debug, Clone, Copy, PartialEq, Eq)]
pub enum DrainTurn {
    Poll,
    /// Let time pass for what waits.
    Expire,
    /// Drive the session's effects.
    Drive,
    /// Resolve what waits by what was delivered.
    Resolve,
    /// Measure the message of this number, and follow the snapshot in it.
    Follow { message: usize },
    /// Tell consensus that the snapshot in the message failed: nobody could
    /// say so later.
    Report { message: usize },
    /// Reserve this much for the message.
    Reserve { message: usize, bytes: usize },
    /// Write the message.
    Write { message: usize },
    /// Send the message under this number.
    Send { message: usize, nonce: u64 },
    /// Tell consensus what became of its snapshots.
    Feedback,
    /// Publish the session's progress.
    Publish,
    Return(Result<(), LedgerError>),
}

/// What a turn of a drain came to.
#[derive(Debug, Clone, Copy, PartialEq, Eq)]
pub enum Drained {
    Done(Result<(), LedgerError>),
    /// So many messages were delivered, along with what waits may ask for.
    Events { messages: usize },
    /// A shared worker found nothing durable yet.
    Nothing,
    /// The session's effects could not be driven; whether that can be
    /// retried.
    NotDriven { retryable: bool },
    /// The message has this size and its snapshot, if any, is followed.
    Followed { size: usize },
    /// The snapshot in the message cannot be followed.
    NotFollowed,
    /// What resolving came to, and the owner's running number behind it: the
    /// reads it asked for were numbered too.
    Resolved { nonce: u64, outcome: Result<(), LedgerError> },
    /// Whether the charge was granted, the message was written or sent.
    Could(bool),
}

/// Where a drain is.
#[derive(Debug, Clone, Copy, PartialEq, Eq)]
pub enum Drain {
    Polling,
    Expiring,
    Driving,
    Resolving,
    Following,
    Reporting,
    Reserving,
    Writing,
    Sending,
    Feedback,
    Publishing,
    Finished(Result<(), LedgerError>),
}

/// A log that is drained: which of its messages is next, the owner's running
/// number, and how many messages it has dropped. Consensus sends again what
/// was dropped.
#[derive(Debug, Clone, Copy, PartialEq, Eq)]
pub struct Draining {
    pub at: Drain,
    /// Whether the session's effects are driven.
    pub runtime: bool,
    pub max_frame_bytes: u32,
    pub message: usize,
    pub messages: usize,
    pub nonce: u64,
    pub dropped: u64,
}

/// One more; the count never wraps.
pub open spec fn counted(count: u64) -> u64 {
    if count < u64::MAX {
        (count + 1) as u64
    } else {
        count
    }
}

impl Draining {
    /// The drain as it ends.
    pub open spec fn comes_to(self, result: Result<(), LedgerError>) -> (Self, DrainTurn) {
        (Draining { at: Drain::Finished(result), ..self }, DrainTurn::Return(result))
    }

    /// The drain at its next message, or behind the last.
    pub open spec fn upon(self, message: usize) -> (Self, DrainTurn) {
        if message < self.messages {
            (
                Draining { at: Drain::Following, message, ..self },
                DrainTurn::Follow { message },
            )
        } else {
            (Draining { at: Drain::Feedback, message, ..self }, DrainTurn::Feedback)
        }
    }

    /// The drain behind a message that was sent.
    pub open spec fn passes(self) -> (Self, DrainTurn) {
        if self.message < self.messages {
            self.upon((self.message + 1) as usize)
        } else {
            self.upon(self.message)
        }
    }

    /// The drain behind a message that was dropped.
    pub open spec fn drops(self) -> (Self, DrainTurn) {
        Draining { dropped: counted(self.dropped), ..self }.passes()
    }

    /// The drain upon a message of this size: one that no frame holds cannot
    /// be sent, and is never treated as delivered.
    pub open spec fn sized(self, size: usize) -> (Self, DrainTurn) {
        if size + 128 > self.max_frame_bytes {
            self.drops()
        } else if size * 2 + 4096 > usize::MAX {
            self.comes_to(Err(LedgerError::Capacity))
        } else {
            (
                Draining { at: Drain::Reserving, ..self },
                DrainTurn::Reserve {
                    message: self.message,
                    bytes: (size * 2 + 4096) as usize,
                },
            )
        }
    }

    /// How the drain goes on. What does not belong to a turn fails it.
    pub open spec fn next(self, drained: Drained) -> (Self, DrainTurn) {
        match (self.at, drained) {
            (Drain::Finished(result), _) => self.comes_to(result),
            (Drain::Polling, Drained::Events { messages }) => if self.runtime {
                (Draining { at: Drain::Driving, messages, ..self }, DrainTurn::Drive)
            } else {
                (Draining { at: Drain::Resolving, messages, ..self }, DrainTurn::Resolve)
            },
            (Drain::Polling, Drained::Nothing) => (
                Draining { at: Drain::Expiring, ..self },
                DrainTurn::Expire,
            ),
            (Drain::Polling, Drained::Done(Err(LedgerError::Retry))) => (
                Draining { at: Drain::Publishing, ..self },
                DrainTurn::Publish,
            ),
            (Drain::Expiring, _) => (Draining { at: Drain::Publishing, ..self }, DrainTurn::Publish),
            (Drain::Driving, Drained::NotDriven { retryable }) => if retryable {
                (Draining { at: Drain::Resolving, ..self }, DrainTurn::Resolve)
            } else {
                self.comes_to(Err(LedgerError::Failed))
            },
            (Drain::Driving, Drained::Done(Ok(_))) => (
                Draining { at: Drain::Resolving, ..self },
                DrainTurn::Resolve,
            ),
            (Drain::Resolving, Drained::Resolved { nonce, outcome }) => match outcome {
                Ok(_) => Draining { nonce, ..self }.upon(0),
                Err(error) => Draining { nonce, ..self }.comes_to(Err(error)),
            },
            (Drain::Following, Drained::NotFollowed) => (
                Draining { at: Drain::Reporting, ..self },
                DrainTurn::Report { message: self.message },
            ),
            (Drain::Following, Drained::Followed { size }) => self.sized(size),
            (Drain::Reporting, Drained::Done(Ok(_))) => self.drops(),
            (Drain::Reserving, Drained::Could(granted)) => if granted {
                (
                    Draining { at: Drain::Writing, ..self },
                    DrainTurn::Write { message: self.message },
                )
            } else {
                self.drops()
            },
            (Drain::Writing, Drained::Could(written)) => if !written {
                self.drops()
            } else if self.nonce == u64::MAX {
                self.comes_to(Err(LedgerError::Capacity))
            } else {
                (
                    Draining { at: Drain::Sending, nonce: (self.nonce + 1) as u64, ..self },
                    DrainTurn::Send { message: self.message, nonce: (self.nonce + 1) as u64 },
                )
            },
            (Drain::Sending, Drained::Could(sent)) => if sent {
                self.passes()
            } else {
                self.drops()
            },
            (Drain::Feedback, Drained::Done(Ok(_))) => (
                Draining { at: Drain::Publishing, ..self },
                DrainTurn::Publish,
            ),
            (Drain::Publishing, _) => self.comes_to(Ok(())),
            (_, Drained::Done(Err(error))) => self.comes_to(Err(error)),
            _ => self.comes_to(Err(LedgerError::Failed)),
        }
    }

    /// Begin to drain a log. `runtime` says whether the session's effects are
    /// driven: it has some, and is not stopping.
    pub fn drain_with_runtime(
        runtime: bool,
        max_frame_bytes: u32,
        nonce: u64,
        dropped: u64,
    ) -> (begun: (Self, DrainTurn))
        ensures
            begun == (
                Draining {
                    at: Drain::Polling,
                    runtime,
                    max_frame_bytes,
                    message: 0,
                    messages: 0,
                    nonce,
                    dropped,
                },
                DrainTurn::Poll,
            ),
    {
        (
            Draining {
                at: Drain::Polling,
                runtime,
                max_frame_bytes,
                message: 0,
                messages: 0,
                nonce,
                dropped,
            },
            DrainTurn::Poll,
        )
    }

    fn finish(&mut self, result: Result<(), LedgerError>) -> (turn: DrainTurn)
        ensures
            (*final(self), turn) == old(self).comes_to(result),
    {
        self.at = Drain::Finished(result);
        DrainTurn::Return(result)
    }

    fn reach(&mut self, message: usize) -> (turn: DrainTurn)
        ensures
            (*final(self), turn) == old(self).upon(message),
    {
        self.message = message;
        if message < self.messages {
            self.at = Drain::Following;
            DrainTurn::Follow { message }
        } else {
            self.at = Drain::Feedback;
            DrainTurn::Feedback
        }
    }

    fn pass(&mut self) -> (turn: DrainTurn)
        ensures
            (*final(self), turn) == old(self).passes(),
    {
        if self.message < self.messages {
            self.reach(self.message + 1)
        } else {
            self.reach(self.message)
        }
    }

    fn drop_message(&mut self) -> (turn: DrainTurn)
        ensures
            (*final(self), turn) == old(self).drops(),
    {
        self.dropped = self.dropped.saturating_add(1);
        self.pass()
    }

    fn size(&mut self, size: usize) -> (turn: DrainTurn)
        ensures
            (*final(self), turn) == old(self).sized(size),
    {
        let fits = match size.checked_add(128) {
            Some(bytes) => bytes <= self.max_frame_bytes as usize,
            None => false,
        };
        if !fits {
            return self.drop_message();
        }
        let bytes: usize = match size.checked_mul(2) {
            Some(bytes) => match bytes.checked_add(4096) {
                Some(bytes) => bytes,
                None => return self.finish(Err(LedgerError::Capacity)),
            },
            None => return self.finish(Err(LedgerError::Capacity)),
        };
        self.at = Drain::Reserving;
        DrainTurn::Reserve { message: self.message, bytes }
    }

    /// Take what the last turn came to.
    pub fn step(&mut self, drained: Drained) -> (turn: DrainTurn)
        ensures
            (*final(self), turn) == old(self).next(drained),
    {
        match (self.at, drained) {
            (Drain::Finished(result), _) => self.finish(result),
            (Drain::Polling, Drained::Events { messages }) => {
                self.messages = messages;
                if self.runtime {
                    self.at = Drain::Driving;
                    DrainTurn::Drive
                } else {
                    self.at = Drain::Resolving;
                    DrainTurn::Resolve
                }
            },
            (Drain::Polling, Drained::Nothing) => {
                self.at = Drain::Expiring;
                DrainTurn::Expire
            },
            (Drain::Polling, Drained::Done(Err(LedgerError::Retry))) => {
                self.at = Drain::Publishing;
                DrainTurn::Publish
            },
            (Drain::Expiring, _) => {
                self.at = Drain::Publishing;
                DrainTurn::Publish
            },
            (Drain::Driving, Drained::NotDriven { retryable }) => if retryable {
                self.at = Drain::Resolving;
                DrainTurn::Resolve
            } else {
                self.finish(Err(LedgerError::Failed))
            },
            (Drain::Driving, Drained::Done(Ok(_))) => {
                self.at = Drain::Resolving;
                DrainTurn::Resolve
            },
            (Drain::Resolving, Drained::Resolved { nonce, outcome }) => {
                self.nonce = nonce;
                match outcome {
                    Ok(_) => self.reach(0),
                    Err(error) => self.finish(Err(error)),
                }
            },
            (Drain::Following, Drained::NotFollowed) => {
                self.at = Drain::Reporting;
                DrainTurn::Report { message: self.message }
            },
            (Drain::Following, Drained::Followed { size }) => self.size(size),
            (Drain::Reporting, Drained::Done(Ok(_))) => self.drop_message(),
            (Drain::Reserving, Drained::Could(granted)) => if granted {
                self.at = Drain::Writing;
                DrainTurn::Write { message: self.message }
            } else {
                self.drop_message()
            },
            (Drain::Writing, Drained::Could(written)) => {
                if !written {
                    return self.drop_message();
                }
                if self.nonce == u64::MAX {
                    return self.finish(Err(LedgerError::Capacity));
                }
                self.nonce = self.nonce + 1;
                self.at = Drain::Sending;
                DrainTurn::Send { message: self.message, nonce: self.nonce }
            },
            (Drain::Sending, Drained::Could(sent)) => if sent {
                self.pass()
            } else {
                self.drop_message()
            },
            (Drain::Feedback, Drained::Done(Ok(_))) => {
                self.at = Drain::Publishing;
                DrainTurn::Publish
            },
            (Drain::Publishing, _) => self.finish(Ok(())),
            (_, Drained::Done(Err(error))) => self.finish(Err(error)),
            _ => self.finish(Err(LedgerError::Failed)),
        }
    }
}

/// The id a consensus message is sent under: the node's, then its own number.
pub fn frame_id(node: u64, nonce: u64) -> (id: [u8; 16])
    ensures
        id@ == be_bytes(node) + be_bytes(nonce),
{
    let mut bytes: Vec<u8> = Vec::new();
    append_be(&mut bytes, node);
    append_be(&mut bytes, nonce);
    let id = copy_16(bytes.as_slice());
    assert(bytes@.take(16) =~= be_bytes(node) + be_bytes(nonce));
    id
}

/// No two messages are sent under one id: nodes differ, and a node's numbers
/// do.
pub proof fn frame_ids_differ(a: u64, m: u64, b: u64, n: u64)
    requires
        be_bytes(a) + be_bytes(m) == be_bytes(b) + be_bytes(n),
    ensures
        a == b,
        m == n,
{
    let (x, y) = (be_bytes(a) + be_bytes(m), be_bytes(b) + be_bytes(n));
    assert forall|i: int| 0 <= i < 8 implies be_bytes(a)[i] == be_bytes(b)[i] by {
        assert(x[i] == be_bytes(a)[i]);
        assert(y[i] == be_bytes(b)[i]);
    }
    assert forall|i: int| 0 <= i < 8 implies be_bytes(m)[i] == be_bytes(n)[i] by {
        assert(x[8 + i] == be_bytes(m)[i]);
        assert(y[8 + i] == be_bytes(n)[i]);
    }
    big_endian_is_one_to_one(a, b);
    big_endian_is_one_to_one(m, n);
}

/// No message is passed over in silence: behind each it was sent, or the
/// count of dropped ones has grown.
pub proof fn a_message_is_sent_or_counted(draining: Draining, drained: Drained)
    requires
        draining.message < draining.messages,
        draining.next(drained).0.message == draining.message + 1,
    ensures
        (draining.at == Drain::Sending && drained == Drained::Could(true)
            && draining.next(drained).0.dropped == draining.dropped) || draining.next(
            drained,
        ).0.dropped == counted(draining.dropped),
{
}

/// Every message is sent under a number of its own, behind all those before,
/// the numbers of the reads that resolving asked for among them.
pub proof fn messages_are_numbered_upwards(draining: Draining, drained: Drained)
    requires
        drained matches Drained::Resolved { nonce, .. } ==> nonce >= draining.nonce,
    ensures
        draining.at == Drain::Resolving && drained is Resolved ==> draining.next(drained).0.nonce
            == drained->Resolved_nonce,
        draining.next(drained).0.nonce >= draining.nonce,
        draining.next(drained).1 is Send ==> draining.next(drained).1->Send_nonce == draining.nonce
            + 1 && draining.next(drained).0.nonce == draining.nonce + 1,
{
}

/// A delivery that is only retained never stops the replica: the drain ends
/// well, and the next poll resumes it.
pub proof fn a_retained_delivery_stops_nothing(draining: Draining, drained: Drained)
    requires
        draining.at == Drain::Polling,
    ensures
        draining.next(Drained::Done(Err(LedgerError::Retry))).1 == DrainTurn::Publish,
        draining.next(Drained::Done(Err(LedgerError::Retry))).0.next(drained).1
            == DrainTurn::Return(Ok(())),
{
}

} // verus!
