use focal_node::config::policy::{CommittedPolicy, PolicyIntent, PolicyRevision};
use focal_node::config::{Durability, FailureDomain, Placement};
use focal_node::deployment::application::{examine, Application, Event, Next};
use focal_node::deployment::apply::{
    accept_reply, applicable, begin_step, complete, finish, follow, preflight, reevaluate, resume,
    same_plan, session_progress, settle_policy, Action, Current, Followed,
};
use focal_node::deployment::facts::{
    Change, DeploymentIdentity, DeploymentPlan, Observation, ObservedNode, ObservedSession,
    Proposal, SessionEpochs,
};
use focal_node::deployment::journal::{Journal, Outcome, Phase};
use focal_node::deployment::observe::{
    convert, observe, AdminNode, AdminPartition, AdminPlacement, AdminSession,
};
use focal_node::deployment::plan::{compose, level, MAX_SESSIONS};
use focal_node::deployment::report::{journal_dir, listed, report};
use focal_node::deployment::views::ChangeView;
use focal_node::deployment::{
    clock_ms, now_ms, parse_survive, survive_code, survive_name, DeploymentError, Guarantee,
    GuaranteeLevel,
};

fn intent(survive: FailureDomain, max_failures: u16) -> PolicyIntent {
    PolicyIntent {
        durability: Durability {
            survive,
            max_failures,
        },
        placement: Placement::default(),
    }
}
fn committed(revision: u64, intent: PolicyIntent) -> CommittedPolicy {
    CommittedPolicy {
        revision: PolicyRevision(revision),
        hash: intent.hash(),
        intent,
    }
}
fn session(n: u8, achieved: Option<GuaranteeLevel>) -> ObservedSession {
    ObservedSession {
        tenant: [1; 16],
        session: [n; 16],
        epochs: SessionEpochs {
            route: 1,
            membership: 1,
            placement: 1,
        },
        voters: vec![7],
        desired: GuaranteeLevel::none(),
        achieved,
        pending: None,
        blocked_by: Vec::new(),
    }
}
fn observation(sessions: Vec<ObservedSession>) -> Observation {
    Observation {
        deployment: DeploymentIdentity {
            cluster: [9; 16],
            node: 7,
        },
        committed: committed(1, intent(FailureDomain::Node, 0)),
        observed_at: 1_700_000_000,
        sessions,
        nodes: vec![ObservedNode {
            node: 7,
            generation: 1,
            alive: true,
            eligible: true,
            disk_available: Some(1 << 30),
            region: None,
            zone: None,
        }],
    }
}
const NODE_1: GuaranteeLevel = GuaranteeLevel {
    survive: FailureDomain::Node,
    max_failures: 1,
};

#[test]
fn a_plan_orders_the_policy_commit_first_and_derives_its_identity_from_facts_alone() {
    let observation = observation(vec![
        session(2, Some(GuaranteeLevel::none())),
        session(3, Some(GuaranteeLevel::none())),
    ]);
    let requested = intent(FailureDomain::Node, 1);
    let proposals = [
        Proposal::Planned {
            operation: [4; 16],
            voters: vec![7, 8, 9],
        },
        Proposal::Satisfied,
    ];
    let plan = compose(&observation, &requested, &proposals, 10).unwrap();
    assert_eq!(plan.body.changes.len(), 3);
    assert!(matches!(
        plan.body.changes[0],
        Change::CommitPolicy {
            from_revision: 1,
            to_revision: 2
        }
    ));
    assert!(matches!(
        &plan.body.changes[1],
        Change::PlanSession {
            operation,
            voters,
            pending: false,
            ..
        } if *operation == [4; 16] && voters == &[7, 8, 9]
    ));
    assert!(matches!(plan.body.changes[2], Change::NoChange { .. }));
    assert_eq!(
        plan.body.guarantee,
        Guarantee {
            before: GuaranteeLevel::none(),
            during: GuaranteeLevel::none(),
            after: NODE_1
        }
    );
    assert!(plan.body.blocked.is_empty());
    assert!(!plan.is_empty());
    // Time is not identity: the same facts make the same plan.
    let mut later = observation.clone();
    later.observed_at += 60;
    let again = compose(&later, &requested, &proposals, 99).unwrap();
    assert_eq!(again.plan_id, plan.plan_id);
    assert_ne!(again.created_ms, plan.created_ms);
    // A different request is a different plan.
    let other = compose(
        &observation,
        &intent(FailureDomain::Zone, 1),
        &proposals,
        10,
    )
    .unwrap();
    assert_ne!(other.plan_id, plan.plan_id);
    // The same policy with every session satisfied changes nothing.
    let same = compose(
        &observation,
        &intent(FailureDomain::Node, 0),
        &[Proposal::Satisfied, Proposal::Satisfied],
        10,
    )
    .unwrap();
    assert!(same.is_empty());
    assert_eq!(same.body.changes.len(), 2);
}

#[test]
fn a_refused_session_is_named_as_blocked_and_the_guarantee_after_stays_the_guarantee_before() {
    let observation = observation(vec![
        session(2, Some(GuaranteeLevel::none())),
        session(3, None),
    ]);
    let plan = compose(
        &observation,
        &intent(FailureDomain::Node, 1),
        &[
            Proposal::Refused("no placement".into()),
            Proposal::Pending {
                operation: [5; 16],
                voters: vec![7, 8, 9],
            },
        ],
        10,
    )
    .unwrap();
    assert_eq!(plan.body.blocked.len(), 1);
    assert_eq!(plan.body.blocked[0].session, [2; 16]);
    assert_eq!(plan.body.guarantee.after, GuaranteeLevel::none());
    assert!(matches!(
        plan.body.changes[1],
        Change::PlanSession { pending: true, .. }
    ));
    // Without sessions the committed policy is the guarantee before.
    let mut alone = observation.clone();
    alone.sessions.clear();
    alone.committed = committed(3, intent(FailureDomain::Zone, 1));
    let plan = compose(&alone, &intent(FailureDomain::Zone, 1), &[], 10).unwrap();
    assert!(plan.body.changes.is_empty());
    assert_eq!(
        plan.body.guarantee.before,
        GuaranteeLevel {
            survive: FailureDomain::Zone,
            max_failures: 1
        }
    );
    assert!(
        compose(
            &alone,
            &intent(FailureDomain::Zone, 1),
            &[Proposal::Satisfied],
            10
        )
        .is_err()
    );
}

#[test]
fn the_plan_artifact_round_trips_and_every_tamper_is_refused() {
    let observation = observation(vec![session(2, Some(GuaranteeLevel::none()))]);
    let plan = compose(
        &observation,
        &intent(FailureDomain::Node, 1),
        &[Proposal::Planned {
            operation: [4; 16],
            voters: vec![7, 8, 9],
        }],
        10,
    )
    .unwrap();
    let bytes = plan.encode().unwrap();
    assert_eq!(&bytes[..8], b"FCLPLAN1");
    assert_eq!(DeploymentPlan::decode(&bytes).unwrap(), plan);
    for index in [0usize, 8, 20, bytes.len() / 2, bytes.len() - 1] {
        let mut tampered = bytes.clone();
        tampered[index] ^= 0x40;
        assert!(
            matches!(
                DeploymentPlan::decode(&tampered),
                Err(DeploymentError::Corrupt(_))
            ),
            "byte {index}"
        );
    }
    assert!(DeploymentPlan::decode(&bytes[..bytes.len() - 1]).is_err());
    assert!(DeploymentPlan::decode(&bytes[..20]).is_err());
    let mut extended = bytes.clone();
    extended.push(0);
    assert!(DeploymentPlan::decode(&extended).is_err());
    // A body whose identity was recomputed for other facts is not this plan.
    let mut other = plan.clone();
    other.body.deployment.node = 8;
    let forged = other.encode().unwrap();
    assert!(matches!(
        DeploymentPlan::decode(&forged),
        Err(DeploymentError::Corrupt(_))
    ));
    let view = plan.view();
    assert_eq!(view.kind, "deployment_plan");
    assert_eq!(view.changes.len(), 2);
    assert_eq!(view.guarantee.after.survive, "node");
    assert_eq!(view.guarantee.after.max_failures, 1);
}

#[test]
fn preflight_refuses_a_stale_plan_by_the_fact_that_moved_and_skips_committed_steps() {
    let observation = observation(vec![session(2, Some(GuaranteeLevel::none()))]);
    let plan = compose(
        &observation,
        &intent(FailureDomain::Node, 1),
        &[Proposal::Planned {
            operation: [4; 16],
            voters: vec![7, 8, 9],
        }],
        10,
    )
    .unwrap();
    let journal = Journal::new(&plan, 5).unwrap();
    assert!(preflight(&plan, &journal, &Current::of(&observation)).is_ok());
    let mut moved = observation.clone();
    moved.committed.revision = PolicyRevision(2);
    assert!(matches!(
        preflight(&plan, &journal, &Current::of(&moved)),
        Err(DeploymentError::Stale { subject, field: "committed_revision" }) if subject == "policy"
    ));
    for (field, mutate) in [
        (
            "route_epoch",
            (|session: &mut ObservedSession| session.epochs.route = 2) as fn(&mut ObservedSession),
        ),
        ("membership_epoch", |session| session.epochs.membership = 3),
        ("placement_epoch", |session| session.epochs.placement = 2),
    ] {
        let mut moved = observation.clone();
        mutate(&mut moved.sessions[0]);
        match preflight(&plan, &journal, &Current::of(&moved)) {
            Err(DeploymentError::Stale { field: found, .. }) => assert_eq!(found, field),
            other => panic!("{field}: {other:?}"),
        }
    }
    let mut gone = observation.clone();
    gone.sessions.clear();
    assert!(matches!(
        preflight(&plan, &journal, &Current::of(&gone)),
        Err(DeploymentError::Stale {
            field: "presence",
            ..
        })
    ));
    // Steps already committed are not re-checked: the policy moved because
    // this plan moved it, and the session's epochs move as its plan runs.
    let mut resumed = journal.clone();
    resumed.record(0, Phase::Complete, None, 6).unwrap();
    resumed
        .record(1, Phase::Committed, Some([4; 16]), 7)
        .unwrap();
    let mut moved = observation.clone();
    moved.committed.revision = PolicyRevision(2);
    moved.sessions[0].epochs.placement = 2;
    assert!(preflight(&plan, &resumed, &Current::of(&moved)).is_ok());
    // A journal that found the plan stale never resumes it.
    let mut dead = journal.clone();
    dead.outcome = Outcome::Stale {
        step: 1,
        subject: "session".into(),
        field: "operation".into(),
    };
    assert!(matches!(
        preflight(&plan, &dead, &Current::of(&observation)),
        Err(DeploymentError::Stale {
            field: "operation",
            ..
        })
    ));
}

#[test]
fn the_journal_round_trips_and_only_advances() {
    let observation = observation(vec![session(2, None)]);
    let plan = compose(
        &observation,
        &intent(FailureDomain::Node, 0),
        &[Proposal::Satisfied],
        10,
    )
    .unwrap();
    let mut journal = Journal::new(&plan, 5).unwrap();
    journal.record(0, Phase::Prepared, None, 6).unwrap();
    journal
        .record(0, Phase::Committed, Some([4; 16]), 7)
        .unwrap();
    assert!(journal.record(0, Phase::Prepared, None, 8).is_err());
    journal.record(0, Phase::Committed, None, 9).unwrap();
    assert_eq!(journal.operation(0), Some([4; 16]));
    assert_eq!(journal.phase(0), Some(Phase::Committed));
    assert_eq!(journal.phase(1), None);
    let bytes = journal.encode().unwrap();
    assert_eq!(&bytes[..8], b"FCLAPLY1");
    assert_eq!(Journal::decode(&bytes).unwrap(), journal);
    assert!(Journal::decode(&bytes[..bytes.len() - 1]).is_err());
    assert!(Journal::decode(b"FCLPLAN1").is_err());
}

#[test]
fn every_cut_lengthened_or_changed_file_is_refused() {
    let observation = observation(vec![session(2, None)]);
    let plan = compose(
        &observation,
        &intent(FailureDomain::Node, 0),
        &[Proposal::Satisfied],
        10,
    )
    .unwrap();
    let file = plan.encode().unwrap();
    for cut in 0..file.len() {
        assert!(DeploymentPlan::decode(&file[..cut]).is_err(), "cut {cut}");
    }
    for index in 0..file.len() {
        let mut changed = file.clone();
        changed[index] ^= 1;
        assert!(DeploymentPlan::decode(&changed).is_err(), "byte {index}");
    }
    let mut journal = Journal::new(&plan, 5).unwrap();
    journal.record(0, Phase::Prepared, None, 6).unwrap();
    let bytes = journal.encode().unwrap();
    for cut in 0..bytes.len() {
        assert!(Journal::decode(&bytes[..cut]).is_err(), "cut {cut}");
    }
    let mut lengthened = bytes.clone();
    lengthened.push(0);
    assert!(Journal::decode(&lengthened).is_err());
    let mut relabelled = bytes;
    relabelled[..8].copy_from_slice(b"FCLPLAN1");
    assert!(Journal::decode(&relabelled).is_err());
}

#[test]
fn session_progress_follows_the_directory() {
    let mut observed = session(2, Some(GuaranteeLevel::none()));
    assert_eq!(session_progress(None, [4; 16], NODE_1, 1), Phase::Committed);
    assert_eq!(
        session_progress(Some(&observed), [4; 16], NODE_1, 1),
        Phase::Committed
    );
    observed.pending = Some([4; 16]);
    assert_eq!(
        session_progress(Some(&observed), [4; 16], NODE_1, 1),
        Phase::Verified
    );
    observed.pending = Some([5; 16]);
    assert_eq!(
        session_progress(Some(&observed), [4; 16], NODE_1, 1),
        Phase::Committed
    );
    observed.pending = None;
    observed.epochs.placement = 2;
    assert_eq!(
        session_progress(Some(&observed), [4; 16], NODE_1, 1),
        Phase::Verified,
        "moved on without the guarantee: under way, not complete"
    );
    observed.achieved = Some(NODE_1);
    assert_eq!(
        session_progress(Some(&observed), [4; 16], NODE_1, 1),
        Phase::Complete
    );
    observed.pending = Some([6; 16]);
    assert_eq!(
        session_progress(Some(&observed), [4; 16], NODE_1, 1),
        Phase::Verified,
        "a later plan under way keeps this one verified, not complete"
    );
    assert!(NODE_1.covers(GuaranteeLevel::none()));
    assert!(!GuaranteeLevel::none().covers(NODE_1));
    let zone_0 = GuaranteeLevel {
        survive: FailureDomain::Zone,
        max_failures: 0,
    };
    assert_eq!(NODE_1.weaker(zone_0), zone_0);
    assert_eq!(zone_0.weaker(NODE_1), zone_0);
}

fn planned() -> (Observation, DeploymentPlan) {
    let observation = observation(vec![session(2, Some(GuaranteeLevel::none()))]);
    let plan = compose(
        &observation,
        &intent(FailureDomain::Node, 1),
        &[Proposal::Planned {
            operation: [4; 16],
            voters: vec![7, 8, 9],
        }],
        10,
    )
    .unwrap();
    (observation, plan)
}

#[test]
fn an_application_runs_its_steps_in_order_and_closes() {
    let (mut observation, plan) = planned();
    assert!(applicable(&plan, &[9; 16]).is_ok());
    assert_eq!(
        applicable(&plan, &[8; 16]),
        Err(DeploymentError::WrongDeployment)
    );
    let (mut journal, fresh) = resume(&plan, None, 5).unwrap();
    assert!(fresh);
    let (action, changed) = begin_step(&mut journal, 0, &plan.body.changes[0], 6);
    assert_eq!(action, Action::CommitPolicy { from_revision: 1 });
    assert!(changed);
    let requested = intent(FailureDomain::Node, 1).hash();
    settle_policy(&mut journal, 0, 2, &requested, 2, &requested, 7).unwrap();
    let (action, _) = begin_step(&mut journal, 1, &plan.body.changes[1], 8);
    assert_eq!(
        action,
        Action::RequestPlacement {
            tenant: [1; 16],
            session: [2; 16],
            survive: survive_code(FailureDomain::Node),
            max_failures: 1
        }
    );
    accept_reply(&mut journal, 1, &[1; 16], &[2; 16], &[4; 16], &[4; 16], 9).unwrap();
    assert_eq!(
        begin_step(&mut journal, 1, &plan.body.changes[1], 10),
        (Action::Follow, false)
    );
    assert_eq!(
        follow(&mut journal, 1, Phase::Verified, false, 11),
        (Followed::Wait, true)
    );
    assert_eq!(
        follow(&mut journal, 1, Phase::Verified, true, 12).0,
        Followed::Leave
    );
    finish(&mut journal, 2);
    assert_eq!(journal.outcome, Outcome::InProgress);
    // The directory has caught up since.
    observation.sessions[0].epochs.placement = 2;
    observation.sessions[0].achieved = Some(NODE_1);
    assert!(reevaluate(
        &plan,
        &mut journal,
        &Current::of(&observation),
        13
    ));
    assert!(complete(&journal, 2));
    assert_eq!(journal.outcome, Outcome::Complete);
    let bytes = journal.encode().unwrap();
    let (again, fresh) = resume(&plan, Some(&bytes), 14).unwrap();
    assert!(!fresh);
    assert_eq!(again, journal);
    assert!(same_plan(&plan.plan_id, &plan, &journal).is_ok());
    assert!(same_plan(&[0; 16], &plan, &journal).is_err());
    let shown = report("deployment_apply", "/data", &plan, &journal);
    assert_eq!(shown.steps.len(), 2);
    assert_eq!(shown.steps[1].phase, Phase::Complete);
    assert_eq!(
        shown.steps[1].operation.as_deref(),
        Some("04040404040404040404040404040404")
    );
    assert!(matches!(
        shown.steps[0].change,
        ChangeView::CommitPolicy { .. }
    ));
}

#[test]
fn nothing_is_sent_before_the_journal_tells_it() {
    let (mut observation, plan) = planned();
    let current = Current::of(&observation);
    let hash = intent(FailureDomain::Node, 1).hash();
    assert_eq!(
        Application::start(&plan, &[8; 16], current.clone(), None, 5),
        Err(DeploymentError::WrongDeployment)
    );
    let (mut run, next) = Application::start(&plan, &[9; 16], current.clone(), None, 5).unwrap();
    assert_eq!(next, Next::WriteBoth);
    assert_eq!(run.step(&plan, Event::Done, false, 6), Next::WriteJournal);
    assert_eq!(run.journal.phase(0), Some(Phase::Prepared));
    assert_eq!(
        run.step(&plan, Event::Done, false, 7),
        Next::CommitPolicy { from_revision: 1 }
    );
    // What it does not wait for changes nothing.
    assert_eq!(
        run.step(&plan, Event::Replied { operation: [4; 16] }, false, 7),
        Next::CommitPolicy { from_revision: 1 }
    );
    assert_eq!(run.step(&plan, Event::Done, false, 8), Next::WriteJournal);
    assert_eq!(run.journal.phase(0), Some(Phase::Committed));
    // Interrupted here, it reads the policy back when it is taken up again.
    let kept = run.journal.encode().unwrap();
    let (mut again, next) =
        Application::start(&plan, &[9; 16], current.clone(), Some(&kept), 9).unwrap();
    assert_eq!(next, Next::Continue);
    assert_eq!(again.step(&plan, Event::Done, false, 9), Next::ReadPolicy);
    let policy = |revision| Event::Policy { revision, hash };
    let mut moved = again.clone();
    assert_eq!(
        moved.step(&plan, policy(3), false, 10),
        Next::WriteJournal
    );
    assert_eq!(moved.step(&plan, Event::Done, false, 10), Next::Stale);
    assert!(matches!(
        moved.refusal(),
        Some(DeploymentError::Stale {
            field: "committed_revision",
            ..
        })
    ));
    assert_eq!(again.refusal(), None);
    assert_eq!(
        again.step(&plan, policy(2), false, 10),
        Next::WriteJournal
    );
    assert_eq!(again.step(&plan, Event::Done, false, 11), Next::WriteJournal);
    assert_eq!(again.journal.phase(1), Some(Phase::Prepared));
    assert_eq!(
        again.step(&plan, Event::Done, false, 12),
        Next::RequestPlacement {
            tenant: [1; 16],
            session: [2; 16],
            survive: survive_code(FailureDomain::Node),
            max_failures: 1
        }
    );
    let replied = Event::Replied { operation: [4; 16] };
    assert_eq!(again.step(&plan, replied, false, 13), Next::WriteJournal);
    assert_eq!(again.journal.operation(1), Some([4; 16]));
    // The directory shows nothing yet: it is looked at again.
    assert_eq!(again.step(&plan, Event::Done, false, 14), Next::Wait);
    let mut left = again.clone();
    let seen = Event::Observed(current.clone());
    assert_eq!(left.step(&plan, seen, true, 15), Next::WriteJournal);
    assert_eq!(left.journal.outcome, Outcome::InProgress);
    assert_eq!(left.step(&plan, Event::Done, true, 16), Next::Report);
    observation.sessions[0].epochs.placement = 2;
    observation.sessions[0].achieved = Some(NODE_1);
    let seen = Event::Observed(Current::of(&observation));
    assert_eq!(again.step(&plan, seen, false, 15), Next::WriteJournal);
    assert_eq!(again.journal.phase(1), Some(Phase::Complete));
    assert_eq!(again.step(&plan, Event::Done, false, 16), Next::WriteJournal);
    assert_eq!(again.journal.outcome, Outcome::Complete);
    assert_eq!(again.step(&plan, Event::Done, false, 17), Next::Report);
    // Repeated, it sends nothing.
    let kept = again.journal.encode().unwrap();
    let (mut repeated, _) =
        Application::start(&plan, &[9; 16], current, Some(&kept), 18).unwrap();
    assert_eq!(
        repeated.step(&plan, Event::Done, false, 19),
        Next::WriteJournal
    );
    assert_eq!(repeated.step(&plan, Event::Done, false, 20), Next::Report);
    assert_eq!(repeated.journal, again.journal);
    // Its files belong together.
    let file = plan.encode().unwrap();
    let found = examine(&plan.plan_id, Some(&file), Some(&kept), true).unwrap();
    assert_eq!(found, Some((plan.clone(), again.journal.clone())));
    assert_eq!(examine(&plan.plan_id, None, None, false), Ok(None));
    for (id, plan_file, journal_file, why) in [
        (plan.plan_id, None, None, "no journal for this plan"),
        (
            plan.plan_id,
            Some(file.as_slice()),
            None,
            "journal file missing beside its plan",
        ),
        (
            [0; 16],
            Some(file.as_slice()),
            Some(kept.as_slice()),
            "journal names another plan",
        ),
    ] {
        assert_eq!(
            examine(&id, plan_file, journal_file, true),
            Err(DeploymentError::Corrupt(why))
        );
    }
}

#[test]
fn another_policy_or_another_operation_makes_a_plan_stale() {
    let (_, plan) = planned();
    let (mut journal, _) = resume(&plan, None, 5).unwrap();
    let requested = intent(FailureDomain::Node, 1).hash();
    let error = settle_policy(&mut journal, 0, 2, &requested, 3, &requested, 7).unwrap_err();
    assert_eq!(
        error.message(),
        "plan is stale: policy changed its committed_revision"
    );
    assert_eq!(error.classification().code, "stale_plan");
    assert_eq!(error.classification().exit_code, 5);
    assert!(matches!(journal.outcome, Outcome::Stale { step: 0, .. }));
    let (mut journal, _) = resume(&plan, None, 5).unwrap();
    begin_step(&mut journal, 1, &plan.body.changes[1], 6);
    assert!(matches!(
        accept_reply(&mut journal, 1, &[1; 16], &[2; 16], &[4; 16], &[5; 16], 9),
        Err(DeploymentError::Stale {
            field: "operation",
            ..
        })
    ));
}

#[test]
fn a_journal_of_another_plan_is_refused() {
    let (observation, plan) = planned();
    let other = compose(
        &observation,
        &intent(FailureDomain::Zone, 1),
        &[Proposal::Satisfied],
        10,
    )
    .unwrap();
    let bytes = Journal::new(&other, 5).unwrap().encode().unwrap();
    assert!(matches!(
        resume(&plan, Some(&bytes), 6),
        Err(DeploymentError::Corrupt("apply journal names another plan"))
    ));
    assert!(matches!(
        resume(&plan, Some(b"nothing"), 6),
        Err(DeploymentError::Corrupt(_))
    ));
}

fn admin(sessions: Vec<AdminSession>, truncated: bool) -> AdminPlacement {
    AdminPlacement {
        observed_at: 77,
        partitions: vec![AdminPartition {
            truncated,
            nodes: vec![AdminNode {
                node: 7,
                generation: 1,
                alive: true,
                eligible: true,
                disk_available: None,
                region: Some("eu-a".into()),
                zone: None,
            }],
            sessions,
        }],
    }
}
fn seen(n: u8) -> AdminSession {
    AdminSession {
        tenant: Some([1; 16]),
        session: Some([n; 16]),
        route_epoch: 4,
        membership_epoch: 5,
        placement_epoch: 6,
        voters: vec![7],
        survive: "zone".into(),
        max_failures: 1,
        achieved_survive: Some("node".into()),
        achieved_max_failures: Some(0),
        pending: None,
        blocked_by: vec![],
    }
}

#[test]
fn a_view_is_observed_whole_or_not_at_all() {
    let found = observe(
        DeploymentIdentity {
            cluster: [9; 16],
            node: 7,
        },
        committed(1, intent(FailureDomain::Node, 0)),
        Some(&admin(vec![seen(2), seen(3), seen(2)], false)),
    )
    .unwrap();
    assert_eq!(found.observed_at, 77);
    assert_eq!(found.sessions.len(), 2);
    assert_eq!(found.sessions[0].epochs.membership, 5);
    assert_eq!(
        found.sessions[0].achieved,
        Some(GuaranteeLevel {
            survive: FailureDomain::Node,
            max_failures: 0
        })
    );
    assert_eq!(found.nodes.len(), 1);
    assert_eq!(
        convert(&admin(vec![], true)),
        Err(DeploymentError::Truncated)
    );
    let mut nameless = seen(2);
    nameless.tenant = None;
    assert!(convert(&admin(vec![nameless], false)).is_err());
    let mut unknown = seen(2);
    unknown.survive = "planet".into();
    assert!(convert(&admin(vec![unknown], false)).is_err());
    let alone = observe(
        DeploymentIdentity {
            cluster: [9; 16],
            node: 7,
        },
        committed(1, intent(FailureDomain::Node, 0)),
        None,
    )
    .unwrap();
    assert!(alone.sessions.is_empty() && alone.nodes.is_empty());
}

#[test]
fn a_view_names_each_node_once() {
    let mut view = admin(vec![], false);
    let mut again = view.partitions[0].clone();
    again.nodes[0].generation = 2;
    again.nodes[0].alive = false;
    let mut other = again.nodes[0].clone();
    other.node = 8;
    again.nodes.push(other);
    view.partitions.push(again);
    let (_, nodes) = convert(&view).unwrap();
    // The first seen of a node's entries stays.
    let found: Vec<(u64, u64, bool)> = nodes
        .iter()
        .map(|node| (node.node, node.generation, node.alive))
        .collect();
    assert_eq!(found, vec![(7, 1, true), (8, 2, false)]);
}

#[test]
fn survival_classes_have_names_and_codes() {
    assert_eq!(parse_survive("ReGion"), Some(FailureDomain::Region));
    assert_eq!(parse_survive("NODE"), Some(FailureDomain::Node));
    assert_eq!(parse_survive("rack"), None);
    assert_eq!(survive_name(FailureDomain::Zone), "zone");
    let codes = [
        survive_code(FailureDomain::Node),
        survive_code(FailureDomain::Zone),
        survive_code(FailureDomain::Region),
    ];
    assert!(codes[0] < codes[1] && codes[1] < codes[2]);
    assert_eq!(level(&intent(FailureDomain::Node, 1)), NODE_1);
}

#[test]
fn errors_are_told_and_classified() {
    for (error, text, code, exit) in [
        (
            DeploymentError::Config("c".into()),
            "c".to_string(),
            "deployment",
            1,
        ),
        (
            DeploymentError::Admin("a".into()),
            "a".to_string(),
            "deployment",
            1,
        ),
        (
            DeploymentError::Io("i".into()),
            "i".to_string(),
            "deployment",
            1,
        ),
        (
            DeploymentError::Unsatisfiable("u".into()),
            "requested policy is unsatisfiable here: u".to_string(),
            "guarantee_unsatisfied",
            6,
        ),
        (
            DeploymentError::Encoding("e".into()),
            "deployment artifact encoding: e".to_string(),
            "plan_encoding",
            1,
        ),
        (
            DeploymentError::Corrupt("k"),
            "deployment artifact is corrupt: k".to_string(),
            "plan_corrupt",
            2,
        ),
        (
            DeploymentError::WrongDeployment,
            "plan was made for another deployment".to_string(),
            "wrong_deployment",
            2,
        ),
        (
            DeploymentError::Blocked(3),
            "plan identifies missing capacity for 3 session(s); the existing contract stays"
                .to_string(),
            "guarantee_unsatisfied",
            6,
        ),
        (
            DeploymentError::Capacity,
            "deployment artifact exceeds its bound".to_string(),
            "capacity",
            6,
        ),
        (
            DeploymentError::Render("r".into()),
            "render: r".to_string(),
            "invalid_input",
            2,
        ),
    ] {
        assert_eq!(error.message(), text);
        assert_eq!(error.classification().code, code);
        assert_eq!(error.classification().exit_code, exit);
    }
    assert_eq!(DeploymentError::NotObserved.classification().code, "not_observed");
    assert_eq!(DeploymentError::NoConfig.classification().exit_code, 2);
    assert_eq!(DeploymentError::Truncated.classification().code, "capacity");
}

#[test]
fn too_many_sessions_are_refused() {
    let mut many = observation(vec![]);
    for i in 0..=MAX_SESSIONS {
        let mut next = session(2, None);
        next.session = (i as u128 + 1).to_be_bytes();
        many.sessions.push(next);
    }
    let proposals: Vec<Proposal> = many.sessions.iter().map(|_| Proposal::Satisfied).collect();
    assert_eq!(
        compose(&many, &intent(FailureDomain::Node, 0), &proposals, 1),
        Err(DeploymentError::Capacity)
    );
}

#[test]
fn journals_lie_by_their_plan() {
    assert_eq!(
        journal_dir("/data", &[0xab; 16]),
        "/data/cluster/apply/abababababababababababababababab"
    );
    let ids = listed(&vec![Some([3; 16]), None, Some([1; 16]), Some([2; 16])]);
    assert_eq!(ids, vec![[1; 16], [2; 16], [3; 16]]);
    let many: Vec<Option<[u8; 16]>> = (0..100u8).map(|n| Some([n; 16])).collect();
    assert_eq!(listed(&many).len(), 64);
}

#[test]
fn the_clock_is_bounded() {
    assert_eq!(clock_ms(Some(5)), Ok(5));
    assert_eq!(
        clock_ms(None),
        Err(DeploymentError::Corrupt("system clock before the epoch"))
    );
    assert_eq!(
        clock_ms(Some(u64::MAX as u128 + 1)),
        Err(DeploymentError::Capacity)
    );
    assert!(now_ms().unwrap() > 1_600_000_000_000);
}
