//! A session's owner at one piece of its work: what it does, when its log is
//! drained, and when the caller is answered.
use super::LedgerError;
use vstd::prelude::*;

verus! {

/// What work a session's owner is given.
#[derive(Debug, Clone, Copy, PartialEq, Eq, Structural)]
pub enum Work {
    Diagnostics,
    Registration,
    Request,
    Probe,
    Transfer,
    Membership,
    ManagedSupport,
    ActivateNative,
    ImportPayloads,
    Checkpoint,
    ArtifactPointer,
    SeedChunks,
    InstallSeed,
    CustodyObjects,
    CustodyPulled,
    Refence,
    Placement,
    Range,
    Evidence,
    Stop,
}

/// What the floor on managed work says.
#[derive(Debug, Clone, Copy, PartialEq, Eq)]
pub enum Gate {
    Open,
    /// The work waits for this node's or the voters' promises.
    Waits,
    Refused(LedgerError),
}

/// What an owner does next with a piece of work.
#[derive(Debug, Clone, Copy, PartialEq, Eq)]
pub enum Act {
    /// Let the work wait behind the floor.
    Defer,
    /// Answer the work with an error.
    Reject(LedgerError),
    /// Do what the work itself says, and answer what it is answered at once.
    Perform,
    /// Hand leadership over.
    TransferLeader,
    /// Import the populated prefix, always as a projection.
    ProposeImport,
    /// Activate an empty ledger with the profile that was asked for.
    ProposeActivation,
    /// Install a seed chunk.
    InstallSeed,
    Checkpoint,
    /// Drain the log, and drive the session's effects if said.
    Drain { runtime: bool },
    /// Answer the caller.
    Answer(Result<(), LedgerError>),
    /// Set the deadline of the shutdown.
    BeginStop,
    /// Go on as a shared worker does; the work is done as that says.
    Progress,
    /// The work is done: whether the owner stops, or why it fails.
    Return(Result<bool, LedgerError>),
}

/// What an act came to, and how many proposals are pending after it.
#[derive(Debug, Clone, Copy, PartialEq, Eq)]
pub struct Acted {
    pub outcome: Result<(), LedgerError>,
    pub pending: usize,
}

/// Where a piece of work is.
#[derive(Debug, Clone, Copy, PartialEq, Eq)]
pub enum Stage {
    /// Its own part is done; whether that can fail, and whether the log is
    /// drained after it.
    Performing { fails: bool, drains: bool },
    /// Its proposal or checkpoint is made.
    Calling,
    /// The log is drained before the checkpoint.
    Preparing,
    /// The log is drained before this answer.
    Draining(Result<(), LedgerError>),
    /// The caller is answered, then the log is drained if said.
    Answering { drains: bool },
    Installing,
    /// The log is drained last.
    Ending,
    /// The log is drained twice before a shutdown: the first poll can create a
    /// read that the second consumes.
    StopFirst,
    StopSecond,
    StopCheckpoint,
    StopAnswer,
    BeginningStop,
    Finished(Result<bool, LedgerError>),
}

/// What a stopping owner answers when its checkpoint was tried: one that is
/// only early leaves a durable log behind, and a later start takes it.
pub open spec fn stopped(checkpoint: Result<(), LedgerError>) -> Result<(), LedgerError> {
    match checkpoint {
        Err(LedgerError::Native { retryable: true }) => Ok(()),
        other => other,
    }
}

fn stop_answer(checkpoint: Result<(), LedgerError>) -> (answer: Result<(), LedgerError>)
    ensures
        answer == stopped(checkpoint),
{
    match checkpoint {
        Err(LedgerError::Native { retryable }) => if retryable {
            Ok(())
        } else {
            checkpoint
        },
        _ => checkpoint,
    }
}

/// What the work ends with when its last part came to this.
pub open spec fn ended(outcome: Result<(), LedgerError>) -> (Stage, Act) {
    let result = match outcome {
        Ok(_) => Ok::<bool, LedgerError>(false),
        Err(error) => Err::<bool, LedgerError>(error),
    };
    (Stage::Finished(result), Act::Return(result))
}

fn end(outcome: Result<(), LedgerError>) -> (next: (Stage, Act))
    ensures
        next == ended(outcome),
{
    let result: Result<bool, LedgerError> = match outcome {
        Ok(_) => Ok(false),
        Err(error) => Err(error),
    };
    (Stage::Finished(result), Act::Return(result))
}

/// How a piece of work begins. `transfer` is what the fence on a transfer
/// says; `populated` is whether the ledger has a prefix to import. A worker
/// that serves several sessions never waits for one of them: it is
/// `nonblocking`.
pub open spec fn begins(
    work: Work,
    gate: Gate,
    nonblocking: bool,
    transfer: Result<(), LedgerError>,
    populated: bool,
) -> (Stage, Act) {
    match gate {
        Gate::Waits => (Stage::Performing { fails: true, drains: false }, Act::Defer),
        Gate::Refused(error) => (
            Stage::Performing { fails: false, drains: false },
            Act::Reject(error),
        ),
        Gate::Open => match work {
            Work::Diagnostics
            | Work::Registration
            | Work::Probe
            | Work::ManagedSupport
            | Work::ImportPayloads
            | Work::ArtifactPointer
            | Work::SeedChunks
            | Work::CustodyObjects
            | Work::Refence => (Stage::Performing { fails: false, drains: false }, Act::Perform),
            Work::Request | Work::Membership | Work::Placement | Work::Range => (
                Stage::Performing { fails: false, drains: true },
                Act::Perform,
            ),
            Work::Evidence => (Stage::Performing { fails: true, drains: false }, Act::Perform),
            Work::Transfer => match transfer {
                Ok(_) => (Stage::Calling, Act::TransferLeader),
                Err(error) => (Stage::Draining(Err(error)), Act::Drain { runtime: true }),
            },
            Work::ActivateNative => (
                Stage::Calling,
                if populated {
                    Act::ProposeImport
                } else {
                    Act::ProposeActivation
                },
            ),
            Work::InstallSeed => (Stage::Installing, Act::InstallSeed),
            Work::CustodyPulled => (Stage::Answering { drains: true }, Act::Answer(Ok(()))),
            Work::Checkpoint => (Stage::Preparing, Act::Drain { runtime: true }),
            Work::Stop => if nonblocking {
                (Stage::BeginningStop, Act::BeginStop)
            } else {
                (Stage::StopFirst, Act::Drain { runtime: false })
            },
        },
    }
}

/// How a piece of work goes on.
pub open spec fn goes_on(stage: Stage, acted: Acted) -> (Stage, Act) {
    match stage {
        Stage::Performing { fails, drains } => if fails && acted.outcome is Err {
            ended(acted.outcome)
        } else if drains {
            (Stage::Ending, Act::Drain { runtime: true })
        } else {
            ended(Ok(()))
        },
        Stage::Calling => (Stage::Draining(acted.outcome), Act::Drain { runtime: true }),
        Stage::Preparing => if acted.outcome is Err {
            ended(acted.outcome)
        } else if acted.pending == 0 {
            (Stage::Calling, Act::Checkpoint)
        } else {
            (Stage::Draining(Err(LedgerError::Capacity)), Act::Drain { runtime: true })
        },
        Stage::Draining(answer) => if acted.outcome is Err {
            ended(acted.outcome)
        } else {
            (Stage::Answering { drains: false }, Act::Answer(answer))
        },
        Stage::Answering { drains } => if drains {
            (Stage::Ending, Act::Drain { runtime: true })
        } else {
            ended(Ok(()))
        },
        Stage::Installing => (Stage::Answering { drains: true }, Act::Answer(acted.outcome)),
        Stage::Ending => ended(acted.outcome),
        Stage::StopFirst => if acted.outcome is Err {
            (Stage::StopAnswer, Act::Answer(acted.outcome))
        } else {
            (Stage::StopSecond, Act::Drain { runtime: false })
        },
        Stage::StopSecond => if acted.outcome is Err {
            (Stage::StopAnswer, Act::Answer(acted.outcome))
        } else if acted.pending == 0 {
            (Stage::StopCheckpoint, Act::Checkpoint)
        } else {
            (Stage::StopAnswer, Act::Answer(Ok(())))
        },
        Stage::StopCheckpoint => (Stage::StopAnswer, Act::Answer(stopped(acted.outcome))),
        Stage::StopAnswer => (Stage::Finished(Ok(true)), Act::Return(Ok(true))),
        Stage::BeginningStop => match acted.outcome {
            Ok(_) => (Stage::Finished(Ok(false)), Act::Progress),
            Err(error) => (Stage::Finished(Err(error)), Act::Return(Err(error))),
        },
        Stage::Finished(result) => (stage, Act::Return(result)),
    }
}

/// A piece of work that its owner is at.
#[derive(Debug, Clone, Copy, PartialEq, Eq)]
pub struct Acceptance {
    pub stage: Stage,
}

impl Acceptance {
    /// Begin a piece of work.
    pub fn accept(
        work: Work,
        gate: Gate,
        nonblocking: bool,
        transfer: Result<(), LedgerError>,
        populated: bool,
    ) -> (begun: (Self, Act))
        ensures
            (begun.0.stage, begun.1) == begins(work, gate, nonblocking, transfer, populated),
    {
        let (stage, act) = match gate {
            Gate::Waits => (Stage::Performing { fails: true, drains: false }, Act::Defer),
            Gate::Refused(error) => (
                Stage::Performing { fails: false, drains: false },
                Act::Reject(error),
            ),
            Gate::Open => match work {
                Work::Diagnostics
                | Work::Registration
                | Work::Probe
                | Work::ManagedSupport
                | Work::ImportPayloads
                | Work::ArtifactPointer
                | Work::SeedChunks
                | Work::CustodyObjects
                | Work::Refence => (
                    Stage::Performing { fails: false, drains: false },
                    Act::Perform,
                ),
                Work::Request | Work::Membership | Work::Placement | Work::Range => (
                    Stage::Performing { fails: false, drains: true },
                    Act::Perform,
                ),
                Work::Evidence => (
                    Stage::Performing { fails: true, drains: false },
                    Act::Perform,
                ),
                Work::Transfer => match transfer {
                    Ok(_) => (Stage::Calling, Act::TransferLeader),
                    Err(error) => (Stage::Draining(Err(error)), Act::Drain { runtime: true }),
                },
                Work::ActivateNative => if populated {
                    (Stage::Calling, Act::ProposeImport)
                } else {
                    (Stage::Calling, Act::ProposeActivation)
                },
                Work::InstallSeed => (Stage::Installing, Act::InstallSeed),
                Work::CustodyPulled => (Stage::Answering { drains: true }, Act::Answer(Ok(()))),
                Work::Checkpoint => (Stage::Preparing, Act::Drain { runtime: true }),
                Work::Stop => if nonblocking {
                    (Stage::BeginningStop, Act::BeginStop)
                } else {
                    (Stage::StopFirst, Act::Drain { runtime: false })
                },
            },
        };
        (Acceptance { stage }, act)
    }

    /// Take what the last act came to.
    pub fn step(&mut self, acted: Acted) -> (act: Act)
        ensures
            (final(self).stage, act) == goes_on(old(self).stage, acted),
    {
        let failed = acted.outcome.is_err();
        let (stage, act) = match self.stage {
            Stage::Performing { fails, drains } => if fails && failed {
                end(acted.outcome)
            } else if drains {
                (Stage::Ending, Act::Drain { runtime: true })
            } else {
                end(Ok(()))
            },
            Stage::Calling => (Stage::Draining(acted.outcome), Act::Drain { runtime: true }),
            Stage::Preparing => if failed {
                end(acted.outcome)
            } else if acted.pending == 0 {
                (Stage::Calling, Act::Checkpoint)
            } else {
                (Stage::Draining(Err(LedgerError::Capacity)), Act::Drain { runtime: true })
            },
            Stage::Draining(answer) => if failed {
                end(acted.outcome)
            } else {
                (Stage::Answering { drains: false }, Act::Answer(answer))
            },
            Stage::Answering { drains } => if drains {
                (Stage::Ending, Act::Drain { runtime: true })
            } else {
                end(Ok(()))
            },
            Stage::Installing => (Stage::Answering { drains: true }, Act::Answer(acted.outcome)),
            Stage::Ending => end(acted.outcome),
            Stage::StopFirst => if failed {
                (Stage::StopAnswer, Act::Answer(acted.outcome))
            } else {
                (Stage::StopSecond, Act::Drain { runtime: false })
            },
            Stage::StopSecond => if failed {
                (Stage::StopAnswer, Act::Answer(acted.outcome))
            } else if acted.pending == 0 {
                (Stage::StopCheckpoint, Act::Checkpoint)
            } else {
                (Stage::StopAnswer, Act::Answer(Ok(())))
            },
            Stage::StopCheckpoint => (
                Stage::StopAnswer,
                Act::Answer(stop_answer(acted.outcome)),
            ),
            Stage::StopAnswer => (Stage::Finished(Ok(true)), Act::Return(Ok(true))),
            Stage::BeginningStop => match acted.outcome {
                Ok(_) => (Stage::Finished(Ok(false)), Act::Progress),
                Err(error) => (Stage::Finished(Err(error)), Act::Return(Err(error))),
            },
            Stage::Finished(result) => (Stage::Finished(result), Act::Return(result)),
        };
        self.stage = stage;
        act
    }
}

/// The stages of a shutdown of a worker of its own.
pub open spec fn shuts_down(stage: Stage) -> bool {
    stage is StopFirst || stage is StopSecond || stage is StopCheckpoint || stage is StopAnswer
        || stage == Stage::Finished(Ok(true))
}

/// The acts that are left at most.
pub open spec fn left(stage: Stage) -> nat {
    match stage {
        Stage::Preparing => 6,
        Stage::StopFirst => 5,
        Stage::Calling => 4,
        Stage::StopSecond => 4,
        Stage::Draining(_) => 3,
        Stage::Installing => 3,
        Stage::StopCheckpoint => 3,
        Stage::Answering { .. } => 2,
        Stage::Performing { .. } => 2,
        Stage::StopAnswer => 2,
        Stage::BeginningStop => 2,
        Stage::Ending => 1,
        Stage::Finished(_) => 0,
    }
}

/// Every piece of work is done after a few acts.
pub proof fn work_ends(stage: Stage, acted: Acted)
    ensures
        stage is Finished ==> goes_on(stage, acted).0 == stage,
        !(stage is Finished) ==> left(goes_on(stage, acted).0) < left(stage),
{
}

/// An owner ends only when it was told to stop: other work begins outside a
/// shutdown and never comes to one.
pub proof fn only_a_stop_ends_an_owner(
    work: Work,
    gate: Gate,
    nonblocking: bool,
    transfer: Result<(), LedgerError>,
    populated: bool,
    stage: Stage,
    acted: Acted,
)
    ensures
        shuts_down(begins(work, gate, nonblocking, transfer, populated).0) ==> work == Work::Stop
            && gate == Gate::Open && !nonblocking,
        shuts_down(goes_on(stage, acted).0) ==> shuts_down(stage),
        goes_on(stage, acted).1 == Act::Return(Ok(true)) ==> shuts_down(stage),
{
}

/// A shutdown never turns a pending proposal into an acknowledged checkpoint:
/// it takes one only with nothing pending, and drains without driving effects.
pub proof fn a_stop_takes_no_pending_checkpoint(stage: Stage, acted: Acted, runtime: bool)
    requires
        shuts_down(stage),
    ensures
        goes_on(stage, acted).1 == Act::Checkpoint ==> acted.pending == 0 && acted.outcome is Ok,
        goes_on(stage, acted).1 == (Act::Drain { runtime }) ==> !runtime,
{
}

/// A caller is told that a proposal or a checkpoint was taken only when it
/// was, and only after the log has been drained once more.
pub proof fn success_is_told_after_the_drain(stage: Stage, acted: Acted)
    requires
        stage is Draining,
        goes_on(stage, acted).1 == Act::Answer(Ok(())),
    ensures
        stage == Stage::Draining(Ok(())),
        acted.outcome is Ok,
{
}

} // verus!
