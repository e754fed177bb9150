//! What an owner's rounds promise: the course a tick, a round, a drain and a
//! piece of work take from their beginning to their end.
use super::accept::{begins, goes_on, Act, Acted, Gate, Work};
use super::host::HostCall;
use super::progress::{
    Alone, AloneAt, AloneDid, AloneTurn, Drain, DrainTurn, Drained, Draining, Progress, Round, Seen,
    Tick, TickTurn, Ticked, Turn,
};
use super::{HostQueue, LedgerError};
use vstd::prelude::*;

verus! {

/// A tick's turn that went well.
pub open spec fn went_well(ticked: Ticked) -> bool {
    ticked.outcome is Ok
}

/// A tick takes its whole course. A leader moves the session's clock to the
/// later of its own and the session's, then its timers; everybody lets the views
/// go on, drains the log, looks at the checkpoint's cadence and goes on with what
/// waits for promises.
pub proof fn a_tick_takes_its_course(ticked: Ticked)
    requires
        went_well(ticked),
    ensures
        Tick::Session.next(ticked).1 == (if ticked.leader {
            TickTurn::Clock
        } else {
            TickTurn::Views
        }),
        Tick::Session.next(ticked).0 == (if ticked.leader {
            Tick::Clock
        } else {
            Tick::Views
        }),
        Tick::Clock.next(ticked).1 matches TickTurn::ProposeClock { now } && now
            == vstd::math::max(ticked.wall_ms as int, ticked.cursor_clock as int),
        Tick::Clock.next(ticked).0.next(ticked).1 == TickTurn::Timers,
        Tick::Clock.next(ticked).0.next(ticked).0.next(ticked).1 == TickTurn::Views,
        Tick::Views.next(ticked).1 == TickTurn::Drain,
        Tick::Views.next(ticked).0.next(ticked).1 == TickTurn::CheckpointByCadence,
        Tick::Views.next(ticked).0.next(ticked).0.next(ticked).1 == TickTurn::Managed,
        Tick::Views.next(ticked).0.next(ticked).0.next(ticked).0.next(ticked).1
            == TickTurn::Return(Ok(())),
        Tick::Clock.next(ticked).0.next(ticked).0.next(ticked).0 == Tick::Views,
{
}

/// Pressure and a lead that is not ready do not keep a tick from its course;
/// any other failure ends it with itself, and a view that fails with its own.
pub proof fn pressure_does_not_end_a_tick(ticked: Ticked, error: LedgerError)
    requires
        ticked.outcome == Err::<(), LedgerError>(error),
    ensures
        error == LedgerError::Capacity || error is NotReady ==> Tick::Proposing.next(ticked).1
            == TickTurn::Timers && Tick::Timers.next(ticked).1 == TickTurn::Views,
        error != LedgerError::Capacity && !(error is NotReady) ==> Tick::Proposing.next(ticked).1
            == TickTurn::Return(Err(error)) && Tick::Timers.next(ticked).1 == TickTurn::Return(
            Err(error),
        ),
        Tick::Views.next(ticked).1 == TickTurn::Return(Err(LedgerError::Failed)),
        Tick::Session.next(ticked).1 == TickTurn::Return(Err(error)),
        Tick::Clock.next(ticked).1 == TickTurn::Return(Err(error)),
        Tick::Draining.next(ticked).1 == TickTurn::Return(Err(error)),
        Tick::Cadence.next(ticked).1 == TickTurn::Return(Err(error)),
        Tick::Managed.next(ticked).1 == TickTurn::Return(Err(error)),
{
}

/// A round takes its whole course: views, what waits, the export; the log where
/// something is ready, with effects unless the session stops, and the export
/// once more; feedback where nothing waits for a disk; promises; the checkpoint.
pub proof fn a_round_takes_its_course(progress: Progress, seen: Seen)
    requires
        seen.outcome is Ok,
    ensures
        progress.round == Round::Views ==> progress.next(seen).1 == Turn::Expire,
        progress.round == Round::Expiring ==> progress.next(seen).1 == Turn::Evidence
            && progress.next(seen).0.round == Round::Evidence,
        progress.round == Round::Evidence && seen.ready ==> progress.next(seen).1 == (
        Turn::Drain { runtime: progress.stopping is None }),
        progress.round == Round::Evidence && !seen.ready ==> progress.next(seen).1
            == Turn::Evidence && progress.next(seen).0.round == Round::EvidenceAgain,
        progress.round == Round::Draining ==> progress.next(seen).1 == Turn::Evidence
            && progress.next(seen).0.round == Round::EvidenceAgain,
        progress.round == Round::EvidenceAgain ==> progress.next(seen).1 == (if seen.persistence {
            Turn::Managed
        } else {
            Turn::Feedback
        }),
        progress.round == Round::Feedback ==> progress.next(seen).1 == Turn::Managed,
        progress.round == Round::Managed ==> progress.next(seen).1 == Turn::CheckpointIfDue,
        progress.next(seen).0.tick == progress.tick,
        progress.round != Round::Stopping ==> progress.next(seen).0.stopping == progress.stopping,
        progress.round != Round::Ticking ==> progress.next(seen).0.next_tick == progress.next_tick,
{
}

/// A round remembers what it is at.
pub proof fn a_round_remembers_its_turn(progress: Progress, seen: Seen)
    ensures
        match progress.next(seen).1 {
            Turn::Views => false,
            Turn::Expire => progress.next(seen).0.round == Round::Expiring,
            Turn::Evidence => progress.next(seen).0.round == Round::Evidence || progress.next(
                seen,
            ).0.round == Round::EvidenceAgain,
            Turn::Drain { .. } => progress.next(seen).0.round == Round::Draining,
            Turn::Feedback => progress.next(seen).0.round == Round::Feedback,
            Turn::Managed => progress.next(seen).0.round == Round::Managed,
            Turn::CheckpointIfDue => progress.next(seen).0.round == Round::Checkpoint,
            Turn::AnswerStop(_) => progress.next(seen).0.round == Round::Stopping,
            Turn::Tick => progress.next(seen).0.round == Round::Ticking,
            Turn::Return(result) => progress.next(seen).0.round == Round::Finished(result),
        },
{
}

/// A round that went well ends as the session stands: one that stops is answered
/// once nothing is ready, unknown at its deadline, and goes on before it; one
/// that runs ticks when it is time and no disk is waited for, and its next tick
/// is a whole tick later.
pub proof fn a_round_ends_as_the_session_stands(progress: Progress, seen: Seen)
    requires
        seen.outcome is Ok,
    ensures
        progress.round == Round::Checkpoint ==> progress.next(seen).1 == (match progress.stopping {
            Some(deadline) => if !seen.ready {
                Turn::AnswerStop(Ok(()))
            } else if seen.now >= deadline {
                Turn::AnswerStop(Err(LedgerError::OutcomeUnknown))
            } else {
                Turn::Return(Ok(false))
            },
            None => if seen.now >= progress.next_tick && !seen.persistence {
                Turn::Tick
            } else {
                Turn::Return(Ok(false))
            },
        }),
        progress.round == Round::Stopping ==> progress.next(seen).1 == Turn::Return(Ok(true))
            && progress.next(seen).0.stopping is None,
        progress.round == Round::Ticking && seen.now + progress.tick <= u64::MAX ==> progress.next(
            seen,
        ).1 == Turn::Return(Ok(false)) && progress.next(seen).0.next_tick == seen.now
            + progress.tick,
{
}

/// A failure ends a round with itself, but for an answer that was given and for
/// what merely expired; a view that fails fails the session.
pub proof fn a_failure_ends_a_round(progress: Progress, seen: Seen, error: LedgerError)
    requires
        seen.outcome == Err::<(), LedgerError>(error),
    ensures
        progress.round == Round::Views ==> progress.next(seen).1 == Turn::Return(
            Err(LedgerError::Failed),
        ),
        progress.round == Round::Expiring ==> progress.next(seen).1 == Turn::Evidence,
        progress.round == Round::Evidence || progress.round == Round::Draining || progress.round
            == Round::EvidenceAgain || progress.round == Round::Feedback || progress.round
            == Round::Managed || progress.round == Round::Checkpoint || progress.round
            == Round::Ticking ==> progress.next(seen).1 == Turn::Return(Err(error)),
        progress.round == Round::Stopping ==> progress.next(seen).1 == Turn::Return(Ok(true)),
{
}

/// An owner of one session looks at its clock before it waits for work, and
/// waits no longer than to its next tick; what came is done, then what waits for
/// promises, then the checkpoint that is due.
pub proof fn an_owner_alone_takes_its_turns(alone: Alone, now: u64, result: bool)
    ensures
        ({
            let looks = if now >= alone.next_tick {
                AloneTurn::Tick
            } else {
                AloneTurn::Receive { wait: (alone.next_tick - now) as u64 }
            };
            &&& alone.at == AloneAt::Draining ==> alone.next(AloneDid::Done(Ok(())), now).1 == looks
            &&& alone.at == AloneAt::Checkpoint ==> alone.next(AloneDid::Done(Ok(())), now).1
                == looks
            &&& alone.at == AloneAt::Receiving ==> alone.next(AloneDid::Timeout, now).1 == looks
            &&& alone.at == AloneAt::Receiving ==> alone.next(AloneDid::Work, now).1
                == AloneTurn::Accept
            &&& alone.at == AloneAt::Receiving ==> alone.next(AloneDid::Disconnected, now).1
                == AloneTurn::Close(Ok(()))
            &&& alone.at == AloneAt::Accepting ==> alone.next(
                AloneDid::Accepted(Ok(result)),
                now,
            ).1 == (if result {
                AloneTurn::Close(Ok(()))
            } else {
                AloneTurn::Managed
            })
            &&& alone.at == AloneAt::Managed ==> alone.next(AloneDid::Done(Ok(())), now).1
                == AloneTurn::CheckpointIfDue
            &&& alone.at == AloneAt::Ticking && now + alone.tick <= u64::MAX ==> alone.next(
                AloneDid::Done(Ok(())),
                now,
            ).1 == (AloneTurn::Receive { wait: alone.tick }) && alone.next(
                AloneDid::Done(Ok(())),
                now,
            ).0.next_tick == now + alone.tick
        }),
{
}

/// A failure closes an owner of one session with itself.
pub proof fn a_failure_closes_an_owner_alone(alone: Alone, now: u64, error: LedgerError)
    requires
        !(alone.at is Closed),
    ensures
        alone.next(AloneDid::Done(Err(error)), now).1 == AloneTurn::Close(Err(error)),
        alone.at == AloneAt::Accepting ==> alone.next(AloneDid::Accepted(Err(error)), now).1
            == AloneTurn::Close(Err(error)),
{
}

/// What a poll delivered is resolved before anything is sent, with the session's
/// effects driven in between where they are; then its messages come one by one,
/// from the first.
pub proof fn what_was_delivered_is_resolved_first(
    draining: Draining,
    messages: usize,
    nonce: u64,
    retryable: bool,
    error: LedgerError,
)
    ensures
        draining.at == Drain::Polling ==> draining.next(Drained::Events { messages }).1 == (
        if draining.runtime {
            DrainTurn::Drive
        } else {
            DrainTurn::Resolve
        }) && draining.next(Drained::Events { messages }).0.messages == messages,
        draining.at == Drain::Polling ==> draining.next(Drained::Nothing).1 == DrainTurn::Expire,
        draining.at == Drain::Expiring ==> draining.next(Drained::Done(Ok(()))).1
            == DrainTurn::Publish,
        draining.at == Drain::Driving ==> draining.next(Drained::Done(Ok(()))).1
            == DrainTurn::Resolve,
        draining.at == Drain::Driving ==> draining.next(Drained::NotDriven { retryable }).1 == (
        if retryable {
            DrainTurn::Resolve
        } else {
            DrainTurn::Return(Err(LedgerError::Failed))
        }),
        draining.at == Drain::Resolving ==> draining.next(
            Drained::Resolved { nonce, outcome: Ok(()) },
        ).1 == (if draining.messages > 0 {
            DrainTurn::Follow { message: 0 }
        } else {
            DrainTurn::Feedback
        }),
        draining.at == Drain::Resolving ==> draining.next(
            Drained::Resolved { nonce, outcome: Err(error) },
        ).1 == DrainTurn::Return(Err(error)),
        draining.at == Drain::Feedback ==> draining.next(Drained::Done(Ok(()))).1
            == DrainTurn::Publish,
        draining.at == Drain::Publishing ==> draining.next(Drained::Done(Ok(()))).1
            == DrainTurn::Return(Ok(())),
{
}

/// A message that fits is paid for, written and sent under the next number; what
/// was sent is followed by the next message, and behind the last comes the
/// feedback.
pub proof fn a_message_is_paid_for_written_and_sent(draining: Draining, size: usize)
    requires
        draining.message < draining.messages,
    ensures
        draining.at == Drain::Following && size + 128 <= draining.max_frame_bytes && size * 2 + 4096
            <= usize::MAX ==> draining.next(Drained::Followed { size }).1 == (DrainTurn::Reserve {
            message: draining.message,
            bytes: (size * 2 + 4096) as usize,
        }),
        draining.at == Drain::Reserving ==> draining.next(Drained::Could(true)).1 == (
        DrainTurn::Write { message: draining.message }),
        draining.at == Drain::Writing && draining.nonce < u64::MAX ==> draining.next(
            Drained::Could(true),
        ).1 == (DrainTurn::Send {
            message: draining.message,
            nonce: (draining.nonce + 1) as u64,
        }),
        draining.at == Drain::Writing && draining.nonce == u64::MAX ==> draining.next(
            Drained::Could(true),
        ).1 == DrainTurn::Return(Err(LedgerError::Capacity)),
        draining.at == Drain::Sending ==> draining.next(Drained::Could(true)).1 == (
        if draining.message + 1 < draining.messages {
            DrainTurn::Follow { message: (draining.message + 1) as usize }
        } else {
            DrainTurn::Feedback
        }) && draining.next(Drained::Could(true)).0.dropped == draining.dropped,
{
}

/// A message that cannot be sent is counted and left for consensus to send
/// again: one no frame holds, one that cannot be paid for, written or sent, and
/// one whose snapshot cannot be followed, which is reported as failed first.
pub proof fn a_message_that_cannot_be_sent_is_counted(draining: Draining, size: usize)
    requires
        draining.message < draining.messages,
        draining.dropped < u64::MAX,
    ensures
        ({
            let next = if draining.message + 1 < draining.messages {
                DrainTurn::Follow { message: (draining.message + 1) as usize }
            } else {
                DrainTurn::Feedback
            };
            &&& draining.at == Drain::Following && size + 128 > draining.max_frame_bytes ==> {
                let after = draining.next(Drained::Followed { size });
                after.1 == next && after.0.dropped == draining.dropped + 1
            }
            &&& draining.at == Drain::Reserving || draining.at == Drain::Writing || draining.at
                == Drain::Sending ==> {
                let after = draining.next(Drained::Could(false));
                after.1 == next && after.0.dropped == draining.dropped + 1
            }
            &&& draining.at == Drain::Following ==> draining.next(Drained::NotFollowed).1 == (
            DrainTurn::Report { message: draining.message })
            &&& draining.at == Drain::Reporting ==> {
                let after = draining.next(Drained::Done(Ok(())));
                after.1 == next && after.0.dropped == draining.dropped + 1
            }
        }),
{
}

/// A piece of work that only answers is performed and done; one that may leave
/// something in the log drains it behind; an export that fails fails its owner.
pub proof fn plain_work_is_performed(
    work: Work,
    nonblocking: bool,
    transfer: Result<(), LedgerError>,
    populated: bool,
    acted: Acted,
)
    ensures
        ({
            let (stage, act) = begins(work, Gate::Open, nonblocking, transfer, populated);
            let answers = work is Diagnostics || work is Registration || work is Probe || work
                is ManagedSupport || work is ImportPayloads || work is ArtifactPointer || work
                is SeedChunks || work is CustodyObjects || work is Refence;
            let drains = work is Request || work is Membership || work is Placement || work
                is Range;
            &&& answers ==> act == Act::Perform && goes_on(stage, acted).1 == Act::Return(Ok(false))
            &&& drains ==> act == Act::Perform && goes_on(stage, acted).1 == (Act::Drain {
                runtime: true,
            })
            &&& drains ==> goes_on(goes_on(stage, acted).0, acted).1 == Act::Return(
                match acted.outcome {
                    Ok(_) => Ok(false),
                    Err(error) => Err(error),
                },
            )
            &&& work is Evidence ==> act == Act::Perform && goes_on(stage, acted).1 == Act::Return(
                match acted.outcome {
                    Ok(_) => Ok(false),
                    Err(error) => Err(error),
                },
            )
        }),
{
}

/// A proposal and a checkpoint are made, the log is drained, and only then is
/// the caller told what they came to; a checkpoint is drained for first, and
/// refused while a proposal is pending.
pub proof fn a_proposal_is_answered_behind_its_drain(
    work: Work,
    nonblocking: bool,
    populated: bool,
    did: Acted,
    drained: Acted,
)
    requires
        drained.outcome is Ok,
    ensures
        ({
            let (stage, act) = begins(work, Gate::Open, nonblocking, Ok(()), populated);
            let (behind, drain) = goes_on(stage, did);
            let (told, answer) = goes_on(behind, drained);
            &&& work is Transfer ==> act == Act::TransferLeader
            &&& work is ActivateNative ==> act == (if populated {
                Act::ProposeImport
            } else {
                Act::ProposeActivation
            })
            &&& work is Transfer || work is ActivateNative ==> drain == (Act::Drain {
                runtime: true,
            }) && answer == Act::Answer(did.outcome) && goes_on(told, drained).1 == Act::Return(
                Ok(false),
            )
            &&& work is Checkpoint ==> act == (Act::Drain { runtime: true })
            &&& work is Checkpoint && did.outcome is Ok && did.pending == 0 ==> drain
                == Act::Checkpoint && answer == (Act::Drain { runtime: true }) && goes_on(
                told,
                drained,
            ).1 == Act::Answer(drained.outcome)
            &&& work is Checkpoint && did.outcome is Ok && did.pending != 0 ==> drain == (
            Act::Drain { runtime: true }) && answer == Act::Answer(Err(LedgerError::Capacity))
        }),
{
}

/// A transfer its fence refuses is not made: the log is drained and the caller
/// is told why. A seed chunk that was installed and custody that was pulled are
/// told of, then the log is drained.
pub proof fn refused_and_local_work_still_drains(
    error: LedgerError,
    nonblocking: bool,
    populated: bool,
    did: Acted,
    drained: Acted,
)
    requires
        drained.outcome is Ok,
    ensures
        ({
            let (stage, act) = begins(
                Work::Transfer,
                Gate::Open,
                nonblocking,
                Err(error),
                populated,
            );
            act == (Act::Drain { runtime: true }) && goes_on(stage, drained).1 == Act::Answer(
                Err(error),
            )
        }),
        ({
            let (stage, act) = begins(Work::InstallSeed, Gate::Open, nonblocking, Ok(()), populated);
            let (told, answer) = goes_on(stage, did);
            act == Act::InstallSeed && answer == Act::Answer(did.outcome) && goes_on(
                told,
                drained,
            ).1 == (Act::Drain { runtime: true })
        }),
        ({
            let (stage, act) = begins(
                Work::CustodyPulled,
                Gate::Open,
                nonblocking,
                Ok(()),
                populated,
            );
            act == Act::Answer(Ok(())) && goes_on(stage, did).1 == (Act::Drain { runtime: true })
        }),
{
}

/// A session that is told to stop drains its log twice without driving effects,
/// takes a checkpoint where nothing is pending, answers and ends; a shared worker
/// only sets the deadline.
pub proof fn a_stop_drains_twice_then_ends(
    transfer: Result<(), LedgerError>,
    populated: bool,
    drained: Acted,
    taken: Acted,
)
    requires
        drained.outcome is Ok,
    ensures
        ({
            let (first, act) = begins(Work::Stop, Gate::Open, false, transfer, populated);
            let (second, again) = goes_on(first, drained);
            let (third, last) = goes_on(second, drained);
            &&& act == (Act::Drain { runtime: false })
            &&& again == (Act::Drain { runtime: false })
            &&& last == (if drained.pending == 0 {
                Act::Checkpoint
            } else {
                Act::Answer(Ok(()))
            })
            &&& drained.pending == 0 ==> goes_on(third, taken).1 == Act::Answer(
                if taken.outcome == Err::<(), LedgerError>(
                    LedgerError::Native { retryable: true },
                ) {
                    Ok(())
                } else {
                    taken.outcome
                },
            )
            &&& drained.pending == 0 ==> goes_on(goes_on(third, taken).0, taken).1 == Act::Return(
                Ok(true),
            )
            &&& drained.pending != 0 ==> goes_on(third, taken).1 == Act::Return(Ok(true))
        }),
        begins(Work::Stop, Gate::Open, true, transfer, populated).1 == Act::BeginStop,
{
}

/// Work whose floor is not met waits, and work whose floor is refused is told
/// why; neither is performed.
pub proof fn work_waits_behind_its_floor(
    work: Work,
    error: LedgerError,
    nonblocking: bool,
    transfer: Result<(), LedgerError>,
    populated: bool,
)
    ensures
        begins(work, Gate::Waits, nonblocking, transfer, populated).1 == Act::Defer,
        begins(work, Gate::Refused(error), nonblocking, transfer, populated).1 == Act::Reject(
            error,
        ),
{
}

/// Each call becomes the work of its name; a fenced transfer and a fenced change
/// of members are the same work as their plain ones.
pub proof fn a_call_becomes_its_work(call: HostCall)
    ensures
        call.becomes() is Diagnostics <==> call is Diagnostics,
        call.becomes() is Transfer <==> call is TransferLeader || call is TransferLeaderChecked,
        call.becomes() is ActivateNative <==> call is ActivateNative,
        call.becomes() is Refence <==> call is Refence,
        call.becomes() is ImportPayloads <==> call is ImportPayloads,
        call.becomes() is Checkpoint <==> call is Checkpoint,
        call.becomes() is ArtifactPointer <==> call is ArtifactPointer,
        call.becomes() is SeedChunks <==> call is PendingSeedChunks,
        call.becomes() is InstallSeed <==> call is InstallSeedChunk,
        call.becomes() is CustodyObjects <==> call is PendingCustodyObjects,
        call.becomes() is CustodyPulled <==> call is CustodyPulled,
        call.becomes() is Membership <==> call is Membership || call is ChangeMembership,
        call.becomes() is Evidence <==> call is CheckpointEvidence,
        call.becomes() is ManagedSupport <==> call is ManagedSupport,
        call.becomes() is Stop <==> call is Stop,
{
}

/// A caller learns the answer where one came; that there is no room where it was
/// never queued for want of it; and that the outcome is unknown only of a call
/// that may have changed something.
pub proof fn a_caller_learns_what_came<T>(
    call: HostCall,
    answer: Result<T, LedgerError>,
    queue: HostQueue,
    came: Option<Result<T, LedgerError>>,
)
    ensures
        call.learned(true, HostQueue::Sent, Some(answer)) == answer,
        call.learned(true, HostQueue::Sent, None::<Result<T, LedgerError>>) == Err::<
            T,
            LedgerError,
        >(
            if call is TransferLeader || call is Stop || call is Diagnostics {
                LedgerError::Failed
            } else {
                LedgerError::OutcomeUnknown
            },
        ),
        call.learned(false, queue, came) == Err::<T, LedgerError>(LedgerError::Capacity),
        call.learned(true, HostQueue::Full, came) == Err::<T, LedgerError>(LedgerError::Capacity),
        call.learned(true, HostQueue::Disconnected, came) == Err::<T, LedgerError>(
            LedgerError::Failed,
        ),
{
}

/// A stop and an unfenced transfer need no room; any other call is charged what
/// it carries and at least four kibibytes beside.
pub proof fn a_stop_needs_no_room(call: HostCall)
    ensures
        call.takes().0 + call.takes().1 == 0 <==> call is Stop || call is TransferLeader,
        !(call is Stop) && !(call is TransferLeader) ==> call.takes().1 >= 4096,
        call matches HostCall::InstallSeedChunk { capacity } ==> call.takes().0 == capacity,
        call matches HostCall::ChangeMembership { configuration } ==> call.takes().0
            == configuration,
        call matches HostCall::TransferLeaderChecked { configuration } ==> call.takes().0
            == configuration,
{
}

/// A drain remembers the turn it asked for, and the message it was for.
pub proof fn a_drain_remembers_its_turn(draining: Draining, drained: Drained)
    ensures
        ({
            let (after, turn) = draining.next(drained);
            match turn {
                DrainTurn::Poll => false,
                DrainTurn::Expire => after.at is Expiring,
                DrainTurn::Drive => after.at is Driving,
                DrainTurn::Resolve => after.at is Resolving,
                DrainTurn::Follow { message } => after.at is Following && after.message == message
                    && message < after.messages,
                DrainTurn::Report { message } => after.at is Reporting && after.message == message,
                DrainTurn::Reserve { message, .. } => after.at is Reserving && after.message
                    == message,
                DrainTurn::Write { message } => after.at is Writing && after.message == message,
                DrainTurn::Send { message, nonce } => after.at is Sending && after.message
                    == message && after.nonce == nonce && nonce == draining.nonce + 1,
                DrainTurn::Feedback => after.at is Feedback,
                DrainTurn::Publish => after.at is Publishing,
                DrainTurn::Return(result) => after.at == Drain::Finished(result),
            }
        }),
        draining.next(drained).0.runtime == draining.runtime,
        draining.next(drained).0.max_frame_bytes == draining.max_frame_bytes,
        !(drained is Events) ==> draining.next(drained).0.messages == draining.messages,
{
}

/// A tick remembers the turn it asked for.
pub proof fn a_tick_remembers_its_turn(tick: Tick, ticked: Ticked)
    ensures
        ({
            let (after, turn) = tick.next(ticked);
            match turn {
                TickTurn::Session => false,
                TickTurn::Clock => after is Clock,
                TickTurn::ProposeClock { .. } => after is Proposing,
                TickTurn::Timers => after is Timers,
                TickTurn::Views => after is Views,
                TickTurn::Drain => after is Draining,
                TickTurn::CheckpointByCadence => after is Cadence,
                TickTurn::Managed => after is Managed,
                TickTurn::Return(result) => after == Tick::Finished(result),
            }
        }),
{
}

/// An owner alone remembers the turn it asked for.
pub proof fn an_owner_alone_remembers_its_turn(alone: Alone, did: AloneDid, now: u64)
    ensures
        ({
            let (after, turn) = alone.next(did, now);
            match turn {
                AloneTurn::Drain => after.at is Draining,
                AloneTurn::Tick => after.at is Ticking,
                AloneTurn::Receive { .. } => after.at is Receiving,
                AloneTurn::Accept => after.at is Accepting,
                AloneTurn::Managed => after.at is Managed,
                AloneTurn::CheckpointIfDue => after.at is Checkpoint,
                AloneTurn::Close(result) => after.at == AloneAt::Closed(result),
            }
        }),
        alone.next(did, now).0.tick == alone.tick,
{
}

} // verus!
