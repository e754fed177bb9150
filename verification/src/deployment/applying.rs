//! What the application of a plan promises: which fact stops it, what each
//! step sends and waits for, and what a second look records.
use super::application::{applies, fresh_journal, At, Event, Next, Running};
use super::apply::{
    action_of, all_complete, first_moved, is_committed, latest, moved_fact, preflight_refusal,
    progress_of, reached, reevaluated, session_text, Action, Current, Moved,
};
use super::facts::{ChangeModel, DeploymentPlan, SessionModel};
use super::journal::{
    operation_of, phase_of, recorded, recording_is_local, JournalModel, OutcomeModel, Phase, Step,
};
use crate::codec::models;
use crate::config::FailureDomain;
use vstd::prelude::*;

verus! {

/// Of the sessions with one identity the last is the one that counts, and one
/// that is not observed is not there.
pub proof fn the_last_observed_session_counts(
    sessions: Seq<SessionModel>,
    tenant: [u8; 16],
    session: [u8; 16],
    at: int,
)
    ensures
        latest(sessions, tenant, session) is None <==> (forall|i: int|
            0 <= i < sessions.len() ==> !((#[trigger] sessions[i]).tenant == tenant
                && sessions[i].session == session)),
        0 <= at < sessions.len() && sessions[at].tenant == tenant && sessions[at].session
            == session && (forall|i: int|
            at < i < sessions.len() ==> !((#[trigger] sessions[i]).tenant == tenant
                && sessions[i].session == session)) ==> latest(sessions, tenant, session) == Some(
            sessions[at],
        ),
    decreases sessions.len(),
{
    if sessions.len() > 0 {
        let front = sessions.drop_last();
        let last = sessions.len() - 1;
        assert(sessions[last] == sessions.last());
        the_last_observed_session_counts(front, tenant, session, at);
        assert(forall|i: int| 0 <= i < front.len() ==> #[trigger] front[i] == sessions[i]);
        if latest(front, tenant, session) is None {
            assert forall|i: int| 0 <= i < last implies !((#[trigger] sessions[i]).tenant == tenant
                && sessions[i].session == session) by {
                assert(front[i] == sessions[i]);
            }
        } else {
            let k = choose|k: int|
                0 <= k < front.len() && (#[trigger] front[k]).tenant == tenant && front[k].session
                    == session;
            assert(sessions[k] == front[k]);
        }
    }
}

/// A policy commit rests on the revision it was planned on, a placement on its
/// session being there at the epochs that were observed, and a change of
/// nothing on nothing.
pub proof fn a_change_rests_on_what_was_observed(change: ChangeModel, current: Current)
    ensures
        match change {
            ChangeModel::CommitPolicy { from_revision, .. } => moved_fact(change, current) is Some
                <==> current.policy_revision != from_revision,
            ChangeModel::PlanSession { tenant, session, expected, .. } => moved_fact(
                change,
                current,
            ) is None <==> (latest(models(current.sessions@), tenant, session) matches Some(observed)
                && observed.epochs.route == expected.route && observed.epochs.membership
                == expected.membership && observed.epochs.placement == expected.placement),
            ChangeModel::NoChange { .. } => moved_fact(change, current) is None,
        },
{
}

/// What moved is told by its name: whose fact it is, and the first that differs
/// of presence, route, membership and placement.
pub proof fn what_moved_is_named(change: ChangeModel, current: Current)
    requires
        moved_fact(change, current) is Some,
    ensures
        ({
            let moved = moved_fact(change, current)->0;
            &&& change is CommitPolicy ==> moved.subject == "policy"@ && moved.field
                == "committed_revision"@
            &&& change matches ChangeModel::PlanSession { tenant, session, expected, .. } ==> {
                let observed = latest(models(current.sessions@), tenant, session);
                &&& moved.subject == session_text(tenant, session)
                &&& observed is None ==> moved.field == "presence"@
                &&& observed is Some && observed->0.epochs.route != expected.route ==> moved.field
                    == "route_epoch"@
                &&& observed is Some && observed->0.epochs.route == expected.route
                    && observed->0.epochs.membership != expected.membership ==> moved.field
                    == "membership_epoch"@
                &&& observed is Some && observed->0.epochs.route == expected.route
                    && observed->0.epochs.membership == expected.membership ==> moved.field
                    == "placement_epoch"@
            }
        }),
{
}

/// The first change that rests on a moved fact and is not committed stops a
/// plan; nothing else does.
pub proof fn the_first_moved_fact_stops_a_plan(
    changes: Seq<ChangeModel>,
    from: int,
    steps: Seq<Step>,
    current: Current,
    at: int,
)
    requires
        0 <= from,
        changes.len() <= u32::MAX,
    ensures
        first_moved(changes, from, steps, current) is None <==> (forall|i: int|
            from <= i < changes.len() ==> is_committed(steps, i as u32) || moved_fact(
                #[trigger] changes[i],
                current,
            ) is None),
        from <= at < changes.len() && !is_committed(steps, at as u32) && moved_fact(
            changes[at],
            current,
        ) is Some && (forall|i: int|
            from <= i < at ==> is_committed(steps, i as u32) || moved_fact(
                #[trigger] changes[i],
                current,
            ) is None) ==> first_moved(changes, from, steps, current) == moved_fact(
            changes[at],
            current,
        ),
    decreases changes.len() - from,
{
    if from < changes.len() {
        the_first_moved_fact_stops_a_plan(changes, from + 1, steps, current, at);
        if is_committed(steps, from as u32) || moved_fact(changes[from], current) is None {
        } else {
            assert(!(is_committed(steps, from as u32) || moved_fact(changes[from], current)
                is None));
        }
    }
}

/// A placement that is not complete is under way where its own operation is
/// pending, its level is reached, or the placement moved past what was observed;
/// otherwise it is only committed.
pub proof fn a_placement_is_under_way_where_it_shows(
    session: SessionModel,
    operation: [u8; 16],
    durability: super::GuaranteeLevel,
    epoch: u64,
)
    ensures
        ({
            let reaches = session.achieved matches Some(level) && (level.max_failures
                > durability.max_failures || (level.max_failures == durability.max_failures && !(
            level.survive is Node && !(durability.survive is Node)) && !(level.survive is Zone
                && durability.survive is Region)));
            let shows = session.pending == Some(operation) || reaches || session.epochs.placement
                > epoch;
            progress_of(Some(session), operation, durability, epoch) == (if reaches
                && session.pending is None {
                Phase::Complete
            } else if shows {
                Phase::Verified
            } else {
                Phase::Committed
            })
        }),
        progress_of(None, operation, durability, epoch) == Phase::Committed,
{
}

/// How a domain is told to the directory.
pub open spec fn told(survive: FailureDomain) -> u8 {
    match survive {
        FailureDomain::Node => 0,
        FailureDomain::Zone => 1,
        FailureDomain::Region => 2,
    }
}

/// What a step sends is what its change says, and only before it is committed:
/// a policy commit over the revision it was planned on, a placement of its own
/// session at its own level. A committed one is read back or followed, and a
/// complete one needs nothing.
pub proof fn a_step_sends_what_its_change_says(change: ChangeModel, steps: Seq<Step>, index: u32)
    ensures
        phase_of(steps, index) == Some(Phase::Complete) ==> action_of(change, steps, index)
            == Action::Done,
        phase_of(steps, index) is None || phase_of(steps, index) == Some(Phase::Prepared)
            ==> match change {
            ChangeModel::CommitPolicy { from_revision, .. } => action_of(change, steps, index) == (
            Action::CommitPolicy { from_revision }),
            ChangeModel::PlanSession { tenant, session, durability, .. } => action_of(
                change,
                steps,
                index,
            ) == (Action::RequestPlacement {
                tenant,
                session,
                survive: told(durability.survive),
                max_failures: durability.max_failures,
            }),
            ChangeModel::NoChange { .. } => action_of(change, steps, index) == Action::Done,
        },
        phase_of(steps, index) == Some(Phase::Committed) || phase_of(steps, index) == Some(
            Phase::Verified,
        ) ==> match change {
            ChangeModel::CommitPolicy { .. } => action_of(change, steps, index)
                == Action::ReadPolicy,
            ChangeModel::PlanSession { .. } => action_of(change, steps, index) == Action::Follow,
            ChangeModel::NoChange { .. } => action_of(change, steps, index) == Action::Done,
        },
{
}

/// What goes out is what the plan says: a policy commit over the planned
/// revision, a placement of the planned session at the planned level.
pub proof fn what_goes_out_is_what_was_planned(run: Running, changes: Seq<ChangeModel>)
    requires
        run.valid(changes),
    ensures
        run.next(changes) matches Next::CommitPolicy { from_revision: sent } ==> (
        changes[run.index] matches ChangeModel::CommitPolicy { from_revision, .. } && sent
            == from_revision),
        run.next(changes) matches Next::RequestPlacement {
            tenant: t,
            session: s,
            survive: code,
            max_failures: failures,
        } ==> (changes[run.index] matches ChangeModel::PlanSession {
            tenant,
            session,
            durability,
            ..
        } && t == tenant && s == session && code == told(durability.survive) && failures
            == durability.max_failures),
{
}

/// A step that has not begun, entered in its turn.
pub open spec fn is_fresh(run: Running, changes: Seq<ChangeModel>) -> bool {
    &&& 0 <= run.index < changes.len() <= u32::MAX
    &&& phase_of(run.journal.steps, run.index as u32) is None
}

/// A policy step goes through its whole course: it is journaled as next, the
/// policy is committed, that is journaled, the policy is read back, and where it
/// is the requested one at the planned revision the step is complete; otherwise
/// the plan is stale and nothing more is done.
pub proof fn a_policy_step_runs_its_course(
    run: Running,
    changes: Seq<ChangeModel>,
    policy_hash: [u8; 32],
    from: u64,
    to: u64,
    revision: u64,
    hash: [u8; 32],
    expired: bool,
    now: u64,
)
    requires
        is_fresh(run, changes),
        changes[run.index] == (ChangeModel::CommitPolicy { from_revision: from, to_revision: to }),
    ensures
        ({
            let index = run.index as u32;
            let next = run.entered(changes, expired, now);
            let commits = next.after(changes, policy_hash, Event::Done, expired, now);
            let kept = commits.after(changes, policy_hash, Event::Done, expired, now);
            let reads = kept.after(changes, policy_hash, Event::Done, expired, now);
            let settled = reads.after(
                changes,
                policy_hash,
                Event::Policy { revision, hash },
                expired,
                now,
            );
            &&& next.next(changes) == Next::WriteJournal
            &&& phase_of(next.journal.steps, index) == Some(Phase::Prepared)
            &&& next.index == run.index
            &&& commits.next(changes) == (Next::CommitPolicy { from_revision: from })
            &&& kept.next(changes) == Next::WriteJournal
            &&& phase_of(kept.journal.steps, index) == Some(Phase::Committed)
            &&& reads.next(changes) == Next::ReadPolicy
            &&& settled.next(changes) == Next::WriteJournal
            &&& revision == to && hash == policy_hash ==> phase_of(settled.journal.steps, index)
                == Some(Phase::Complete) && settled.at == At::Moved
            &&& revision != to || hash != policy_hash ==> settled.journal.outcome == (
            OutcomeModel::Stale {
                step: index,
                subject: "policy"@,
                field: "committed_revision"@,
            }) && settled.after(changes, policy_hash, Event::Done, expired, now).next(changes)
                == Next::Stale
        }),
{
    let index = run.index as u32;
    let steps = run.journal.steps;
    recording_is_local(steps, index, Phase::Prepared, None, now, index);
    let prepared = recorded(steps, index, Phase::Prepared, None, now)->0;
    lemma_can_record(prepared, index, Phase::Committed, now);
    recording_is_local(prepared, index, Phase::Committed, None, now, index);
    let committed = recorded(prepared, index, Phase::Committed, None, now)->0;
    lemma_can_record(committed, index, Phase::Complete, now);
    recording_is_local(committed, index, Phase::Complete, None, now, index);
}

proof fn lemma_can_record(steps: Seq<Step>, index: u32, phase: Phase, now: u64)
    requires
        phase_of(steps, index) matches Some(before) ==> before.rank() <= phase.rank(),
    ensures
        recorded(steps, index, phase, None, now) is Some,
{
}

/// A session's step runs its course to the request: it is journaled as next, the
/// placement is requested, and a reply that names the planned operation is
/// journaled with it; a reply that names another makes the plan stale.
pub proof fn a_session_step_is_requested_once_journaled(
    run: Running,
    changes: Seq<ChangeModel>,
    policy_hash: [u8; 32],
    replied: [u8; 16],
    expired: bool,
    now: u64,
)
    requires
        is_fresh(run, changes),
        changes[run.index] is PlanSession,
    ensures
        ({
            let index = run.index as u32;
            let change = changes[run.index];
            let next = run.entered(changes, expired, now);
            let requests = next.after(changes, policy_hash, Event::Done, expired, now);
            let kept = requests.after(
                changes,
                policy_hash,
                Event::Replied { operation: replied },
                expired,
                now,
            );
            &&& next.next(changes) == Next::WriteJournal
            &&& phase_of(next.journal.steps, index) == Some(Phase::Prepared)
            &&& requests.next(changes) is RequestPlacement
            &&& kept.next(changes) == Next::WriteJournal
            &&& replied == change->operation ==> phase_of(kept.journal.steps, index) == Some(
                Phase::Committed,
            ) && operation_of(kept.journal.steps, index) == Some(replied) && kept.at
                == At::Accepted
            &&& replied != change->operation ==> kept.journal.outcome == (OutcomeModel::Stale {
                step: index,
                subject: session_text(change->PlanSession_tenant, change->PlanSession_session),
                field: "operation"@,
            }) && kept.after(changes, policy_hash, Event::Done, expired, now).next(changes)
                == Next::Stale
        }),
{
    let index = run.index as u32;
    let steps = run.journal.steps;
    recording_is_local(steps, index, Phase::Prepared, None, now, index);
    let prepared = recorded(steps, index, Phase::Prepared, None, now)->0;
    recording_is_local(prepared, index, Phase::Committed, Some(replied), now, index);
}

/// The phase the directory shows for a session's step.
pub open spec fn shows(run: Running, change: ChangeModel) -> Phase {
    match change {
        ChangeModel::PlanSession { tenant, session, durability, operation, expected, .. } => {
            progress_of(
                latest(models(run.current.sessions@), tenant, session),
                operation,
                durability,
                expected.placement,
            )
        },
        _ => Phase::Complete,
    }
}

/// A committed placement is followed: what the directory newly shows is
/// journaled; while it is not complete and there is time, it is waited for and
/// looked at again with what is then observed.
pub proof fn a_committed_placement_is_followed(
    run: Running,
    changes: Seq<ChangeModel>,
    policy_hash: [u8; 32],
    current: Current,
    expired: bool,
    now: u64,
)
    requires
        0 <= run.index < changes.len() <= u32::MAX,
        changes[run.index] is PlanSession,
        phase_of(run.journal.steps, run.index as u32) == Some(Phase::Committed) || phase_of(
            run.journal.steps,
            run.index as u32,
        ) == Some(Phase::Verified),
    ensures
        ({
            let index = run.index as u32;
            let before = phase_of(run.journal.steps, index)->0;
            let shown = shows(run, changes[run.index]);
            let looked = run.entered(changes, expired, now);
            &&& shown.rank() > before.rank() ==> phase_of(looked.journal.steps, index) == Some(
                shown,
            ) && looked.next(changes) == Next::WriteJournal && looked.index == run.index
            &&& shown.rank() > before.rank() && shown != Phase::Complete && !expired
                ==> looked.after(changes, policy_hash, Event::Done, expired, now).next(changes)
                == Next::Wait
            &&& shown.rank() <= before.rank() && shown != Phase::Complete && !expired
                ==> looked.next(changes) == Next::Wait && looked.journal == run.journal
            &&& looked.at == At::Waiting ==> looked.after(
                changes,
                policy_hash,
                Event::Observed(current),
                expired,
                now,
            ) == (Running { current, ..looked }).entered(changes, expired, now)
        }),
{
    let index = run.index as u32;
    let shown = shows(run, changes[run.index]);
    if shown.rank() > (phase_of(run.journal.steps, index)->0).rank() {
        recording_is_local(run.journal.steps, index, shown, None, now, index);
    }
}

/// No step is passed over: those between where an application enters and where
/// it comes to are complete, or they are committed placements that show nothing
/// new when there is no time left. Behind the last it closes.
pub proof fn no_step_is_passed_over(
    run: Running,
    changes: Seq<ChangeModel>,
    expired: bool,
    now: u64,
    passed: int,
)
    requires
        0 <= run.index <= changes.len() <= u32::MAX,
        run.index <= passed < run.entered(changes, expired, now).index,
    ensures
        passed < changes.len(),
        phase_of(run.journal.steps, passed as u32) == Some(Phase::Complete) || (changes[passed]
            is PlanSession && is_committed(run.journal.steps, passed as u32) && expired && shows(
            run,
            changes[passed],
        ).rank() <= (phase_of(run.journal.steps, passed as u32)->0).rank()),
    decreases changes.len() - run.index,
{
    if run.index < changes.len() {
        let change = changes[run.index];
        let steps = run.journal.steps;
        let index = run.index as u32;
        let on = Running { index: run.index + 1, ..run };
        if passed > run.index {
            no_step_is_passed_over(on, changes, expired, now, passed);
        } else {
            lemma_enters_ahead(on, changes, expired, now);
            match action_of(change, steps, index) {
                Action::Follow => {
                    assert(shows(run, change) == run.shown(change));
                    if run.shown(change) == Phase::Complete {
                        assert(phase_of(steps, index) != Some(Phase::Complete));
                    }
                },
                _ => {},
            }
        }
    }
}

proof fn lemma_enters_ahead(run: Running, changes: Seq<ChangeModel>, expired: bool, now: u64)
    ensures
        run.index <= changes.len() ==> run.entered(changes, expired, now).index >= run.index,
        run.entered(changes, expired, now).index <= changes.len() || run.index > changes.len(),
    decreases changes.len() - run.index,
{
    if 0 <= run.index < changes.len() {
        lemma_enters_ahead(Running { index: run.index + 1, ..run }, changes, expired, now);
    }
}

/// An application that comes behind the last step closes: with every step
/// complete it is complete, else it is in progress; then it is reported.
pub proof fn an_application_closes_behind_the_last_step(
    run: Running,
    changes: Seq<ChangeModel>,
    policy_hash: [u8; 32],
    expired: bool,
    now: u64,
)
    requires
        0 <= run.index <= changes.len() <= u32::MAX,
        run.entered(changes, expired, now).index == changes.len(),
    ensures
        ({
            let closes = run.entered(changes, expired, now);
            &&& closes.next(changes) == Next::WriteJournal
            &&& closes.after(changes, policy_hash, Event::Done, expired, now).next(changes)
                == Next::Report
            &&& closes.journal.outcome is Complete <==> (forall|i: int|
                0 <= i < changes.len() ==> phase_of(run.journal.steps, #[trigger] (i as u32))
                    == Some(Phase::Complete))
            &&& !(closes.journal.outcome is Stale)
        }),
    decreases changes.len() - run.index,
{
    if run.index < changes.len() {
        an_application_closes_behind_the_last_step(
            Running { index: run.index + 1, ..run },
            changes,
            policy_hash,
            expired,
            now,
        );
    }
}

/// A step's phase is recorded unless it would fall behind.
pub proof fn a_phase_is_recorded_unless_it_falls_behind(
    steps: Seq<Step>,
    index: u32,
    phase: Phase,
    operation: Option<[u8; 16]>,
    now: u64,
)
    ensures
        recorded(steps, index, phase, operation, now) is None <==> (
        phase_of(steps, index) matches Some(before) && phase.rank() < before.rank()),
        Phase::Prepared.rank() < Phase::Committed.rank() < Phase::Verified.rank()
            < Phase::Complete.rank(),
{
}

/// A second look advances every committed placement to what the directory shows,
/// and leaves every other step as it is.
pub proof fn a_second_look_advances_what_shows(
    changes: Seq<ChangeModel>,
    n: int,
    steps: Seq<Step>,
    current: Current,
    now: u64,
    watched: u32,
)
    requires
        0 <= n <= changes.len() <= u32::MAX,
        watched < changes.len(),
    ensures
        ({
            let after = phase_of(reevaluated(changes, n, steps, current, now), watched);
            let before = phase_of(steps, watched);
            let shown = match changes[watched as int] {
                ChangeModel::PlanSession { tenant, session, durability, operation, expected, .. }
                => {
                    progress_of(
                        latest(models(current.sessions@), tenant, session),
                        operation,
                        durability,
                        expected.placement,
                    )
                },
                _ => Phase::Prepared,
            };
            let looked = watched < n && changes[watched as int] is PlanSession && (before == Some(
                Phase::Committed,
            ) || before == Some(Phase::Verified));
            &&& looked && shown.rank() > (before->0).rank() ==> after == Some(shown)
            &&& !(looked && shown.rank() > (before->0).rank()) ==> after == before
        }),
    decreases n,
{
    if n > 0 {
        a_second_look_advances_what_shows(changes, n - 1, steps, current, now, watched);
        let earlier = reevaluated(changes, n - 1, steps, current, now);
        let index = (n - 1) as u32;
        if let ChangeModel::PlanSession { tenant, session, durability, operation, expected, .. } =
            changes[n - 1] {
            let progress = progress_of(
                latest(models(current.sessions@), tenant, session),
                operation,
                durability,
                expected.placement,
            );
            if recorded(earlier, index, progress, None, now) is Some {
                recording_is_local(earlier, index, progress, None, now, watched);
            }
        }
    }
}

/// A plan begins with a journal of its own, that names it and no step yet.
pub proof fn a_plan_begins_with_its_own_journal(plan: DeploymentPlan, now: u64, index: u32)
    ensures
        ({
            let journal = fresh_journal(plan, now);
            &&& journal.plan_id == plan.plan_id && journal.started_ms == now
            &&& journal.steps.len() == 0 && phase_of(journal.steps, index) is None
            &&& journal.outcome is InProgress
            &&& journal.schema == super::journal::JOURNAL_SCHEMA
        }),
{
}

/// What a step was found stale by is kept, at that step, and all that was recorded
/// stays.
pub proof fn what_was_found_stale_is_kept(
    running: Running,
    moved: Moved,
)
    requires
        running.index <= u32::MAX,
    ensures
        ({
            let after = running.spoiled(moved);
            &&& after.journal.outcome == (OutcomeModel::Stale {
                step: running.index as u32,
                subject: moved.subject,
                field: moved.field,
            })
            &&& after.journal.steps == running.journal.steps
            &&& after.journal.plan_id == running.journal.plan_id && after.journal.plan_hash
                == running.journal.plan_hash
            &&& after.index == running.index && after.at is Spoiled
        }),
{
}

/// A journal found stale stays so, under the field it names; a field that no fact
/// has is told as the session's presence.
pub proof fn a_stale_field_is_told_by_its_name(
    changes: Seq<ChangeModel>,
    journal: JournalModel,
    current: Current,
    step: u32,
    subject: Seq<char>,
    field: Seq<char>,
)
    requires
        journal.outcome == (OutcomeModel::Stale { step, subject, field }),
    ensures
        preflight_refusal(changes, journal, current) matches Some(moved) && moved.subject == subject
            && (moved.field == field || moved.field == "presence"@),
        field == "committed_revision"@ || field == "route_epoch"@ || field == "membership_epoch"@
            || field == "placement_epoch"@ || field == "operation"@ || field == "presence"@
            ==> preflight_refusal(changes, journal, current)->0.field == field,
{
}

/// A plan is applied where it is this cluster's, nothing blocks it, what was kept
/// is of this very plan, and no fact moved.
pub proof fn when_a_plan_is_applied(
    plan: DeploymentPlan,
    cluster: [u8; 16],
    current: Current,
    existing: Option<Seq<u8>>,
)
    ensures
        applies(plan, cluster, current, existing) ==> plan.body.deployment.cluster == cluster
            && plan.body.blocked@.len() == 0,
        plan.body.deployment.cluster != cluster || plan.body.blocked@.len() > 0 ==> !applies(
            plan,
            cluster,
            current,
            existing,
        ),
        existing is None && applies(plan, cluster, current, existing) ==> first_moved(
            models(plan.body.changes@),
            0,
            Seq::empty(),
            current,
        ) is None,
        existing matches Some(bytes) ==> (applies(plan, cluster, current, existing)
            ==> super::journal::journal_decoded(bytes) is Ok && ({
            let found = super::journal::journal_decoded(bytes)->Ok_0;
            found.plan_id == plan.plan_id && !(found.outcome is Stale) && first_moved(
                models(plan.body.changes@),
                0,
                found.steps,
                current,
            ) is None
        })),
{
}

/// The steps of a plan are complete exactly where each is.
pub proof fn a_plan_is_complete_where_its_steps_are(steps: Seq<Step>, n: int, i: int)
    requires
        all_complete(steps, n),
        0 <= i < n,
    ensures
        phase_of(steps, i as u32) == Some(Phase::Complete),
{
}

/// A step without a record is known to be committed, where it is followed at all;
/// and what is no placement is complete once it was recorded.
pub proof fn a_step_has_reached_what_is_recorded(
    steps: Seq<Step>,
    index: u32,
    run: Running,
    change: ChangeModel,
)
    ensures
        phase_of(steps, index) matches Some(phase) ==> reached(steps, index) == phase,
        phase_of(steps, index) is None ==> reached(steps, index) == Phase::Committed,
        change is CommitPolicy || change is NoChange ==> run.shown(change) == Phase::Complete,
        change matches ChangeModel::PlanSession {
            tenant,
            session,
            durability,
            operation,
            expected,
            ..
        } ==> run.shown(change) == progress_of(
            run.current.session(tenant, session),
            operation,
            durability,
            expected.placement,
        ),
{
}

} // verus!
