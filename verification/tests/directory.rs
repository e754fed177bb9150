use focal_node::barrier::Reads;
use focal_node::directory::authority::{
    authorize_first_directory, installed_authority, permit_charge, validate_destination, Authority,
    AuthoritySnapshot, Authorized, Configuration, ControlReceipt, ControlRequestId, Destination,
    Enrollment, EnrollmentReceipt, GroupGrant, GroupScope, NodeGrant, PartitionBootstrapPermit,
    RootOwner, Voter,
};
use focal_node::directory::host::{
    admission_error, normalize_admission, ControlOwner, PendingAuthority, PendingDirectory,
    Refresh, RefreshFacts, RefreshPhase, Waiting,
};
use focal_node::directory::planner::{
    decode_charge, next_first_directory_command, Anchor, Intent, RootDirectory, RootObservation,
};
use focal_node::directory::startup::{
    drain_single, owner_bytes, spawn_directory, Activation, Barrier, Did, Opening, Opens, Round,
    DIRECTORY_STACK_BYTES,
};
use focal_node::directory::{
    derived_id, rpc_namespace, ConsensusError, ControlError, ControlIdentity, ControlScope,
    Delegation, DirectoryBootstrapError, FirstDirectoryPlan, MemoryError, NamespaceRange,
    PartitionImage, PartitionPlan, Seal, Start,
};

const CLUSTER: [u8; 16] = [7; 16];
const ROOT_GROUP: [u8; 16] = [8; 16];

fn plan() -> PartitionPlan {
    FirstDirectoryPlan::derive(CLUSTER, 5)
        .unwrap()
        .founded([4; 32])
}
fn root() -> ControlIdentity {
    ControlIdentity {
        cluster: CLUSTER,
        group: ROOT_GROUP,
        scope: ControlScope::Root,
        genesis: [1; 32],
    }
}
fn derived(domain: &str) -> [u8; 16] {
    let mut id = [0; 16];
    id.copy_from_slice(&blake3::derive_key(domain, &CLUSTER)[..16]);
    id
}
fn node() -> NodeGrant {
    NodeGrant {
        node: 5,
        generation: 1,
        eligible: true,
        identity: [2; 32],
        principal: [3; 16],
        expires_at: 1300,
    }
}
fn group() -> GroupGrant {
    GroupGrant {
        group: plan().group(),
        genesis: [4; 32],
        scope: GroupScope::Partition {
            partition: plan().partition(),
            namespace: NamespaceRange::all(),
        },
        membership_epoch: 1,
        voters: vec![Voter {
            node: 5,
            generation: 1,
        }],
        outgoing_voters: vec![],
        learners: vec![],
        expires_at: 1200,
    }
}
fn authority(groups: Vec<GroupGrant>) -> Authority {
    Authority {
        revision: 3,
        applied_index: 9,
        clock: 900,
        nodes: vec![node()],
        groups,
    }
}
fn enrollment() -> Enrollment {
    Enrollment {
        revision: 6,
        applied_index: 8,
        receipts: vec![EnrollmentReceipt {
            node: Some(5),
            principal: [3; 16],
            public_key: [2; 32],
            expires_at: 1300,
            authorized: Some(Authorized {
                as_node: true,
                node: Some(5),
            }),
        }],
    }
}
fn owner() -> RootOwner {
    RootOwner {
        identity: root(),
        leader: true,
        status_applied: 10,
        status_committed: 10,
        applied_index: 10,
        delegated: Some(vec![plan().partition()]),
        authority: Some(authority(vec![group()])),
        enrollment: Some(enrollment()),
    }
}
fn snapshot(index: u64) -> AuthoritySnapshot {
    AuthoritySnapshot {
        identity: root(),
        source: root(),
        source_index: index,
        applied_index: index,
        decided_at: 999,
        authority: vec![1],
        enrollment: vec![2],
    }
}
fn permit(index: u64) -> PartitionBootstrapPermit {
    let mut owner = owner();
    owner.applied_index = index;
    owner.status_applied = index;
    owner.status_committed = index;
    authorize_first_directory(
        &owner,
        plan(),
        &ROOT_GROUP,
        1000,
        Ok(Some(snapshot(index))),
        Some(100),
    )
    .unwrap()
}
fn alone() -> Configuration {
    Configuration {
        voters: vec![5],
        learners: vec![],
        voters_outgoing: vec![],
        learners_next: vec![],
        auto_leave: false,
    }
}
fn destination() -> Destination {
    Destination {
        identity: plan().identity().unwrap(),
        node: 5,
        delegation: Some(plan().delegation()),
        configuration: alone(),
        applied_index: 40,
        pending: false,
    }
}
fn held(index: u64) -> AuthoritySnapshot {
    AuthoritySnapshot {
        identity: plan().identity().unwrap(),
        ..snapshot(index)
    }
}
fn receipt(sequence: u64) -> ControlReceipt {
    ControlReceipt {
        request: ControlRequestId {
            client: plan().client().unwrap(),
            sequence,
        },
        committed_index: 30,
    }
}

#[test]
fn directory_admission_normalizes_pressure_without_hiding_corruption_or_failed_owners() {
    for error in [
        ControlError::Capacity,
        ControlError::Busy,
        ControlError::Memory(MemoryError::Capacity {
            requested: 2,
            available: 1,
        }),
        ControlError::Memory(MemoryError::AllocationFailed),
        ControlError::Consensus(ConsensusError::Capacity),
    ] {
        assert!(matches!(
            admission_error(error),
            DirectoryBootstrapError::Capacity
        ));
    }
    assert!(matches!(
        admission_error(ControlError::Consensus(ConsensusError::PersistencePending)),
        DirectoryBootstrapError::NotReady
    ));
    assert!(matches!(
        admission_error(ControlError::Consensus(ConsensusError::NotLeader {
            leader: 2
        })),
        DirectoryBootstrapError::Unavailable
    ));
    for error in [
        ControlError::Failed,
        ControlError::Corrupt("state"),
        ControlError::Memory(MemoryError::WrongArena),
        ControlError::Consensus(ConsensusError::DependencyFailure),
    ] {
        assert!(matches!(
            admission_error(error),
            DirectoryBootstrapError::Control(_)
        ));
    }
    assert_eq!(
        normalize_admission(DirectoryBootstrapError::Control(ControlError::Busy)),
        DirectoryBootstrapError::Capacity
    );
    assert_eq!(
        normalize_admission(DirectoryBootstrapError::Inconsistent),
        DirectoryBootstrapError::Inconsistent
    );
}

#[test]
fn a_first_plan_is_derived_from_its_cluster() {
    let plan = FirstDirectoryPlan::derive(CLUSTER, 5).unwrap();
    assert_eq!(plan.partition(), derived("focal.directory.first-partition.v1"));
    assert_eq!(plan.group(), derived("focal.directory.first-group.v1"));
    assert_eq!(
        plan.namespace().tenant,
        derived("focal.directory.rpc-tenant.v1")
    );
    assert_eq!(
        plan.namespace().session,
        derived("focal.directory.rpc-session.v1")
    );
    assert_eq!(
        plan.client().unwrap(),
        derived("focal.directory.authority-install-client.v1")
    );
    assert_eq!(rpc_namespace(&CLUSTER), Ok(plan.namespace()));
    assert_eq!(derived_id("x", &CLUSTER), Ok(derived("x")));
    assert_eq!(plan.range(), NamespaceRange::all());
    assert_eq!(plan.delegation().epoch, 1);
    assert_eq!(plan.image(), None);
    assert_eq!((plan.cluster(), plan.founder_node()), (CLUSTER, 5));
    assert_eq!(
        plan.identity(),
        Err(DirectoryBootstrapError::Inconsistent)
    );
    assert_eq!(plan.founded([4; 32]).identity().unwrap().genesis, [4; 32]);
    for wrong in [
        FirstDirectoryPlan::derive([0; 16], 5),
        FirstDirectoryPlan::derive(CLUSTER, 0),
    ] {
        assert_eq!(wrong, Err(DirectoryBootstrapError::Unauthorized));
    }
    assert_eq!(plan.bootstrap(&None), Ok(Start::Empty));
}

#[test]
fn a_split_starts_from_the_very_image_it_was_sealed_with() {
    let delegation = Delegation {
        activation: Some([5; 32]),
        partition: [11; 16],
        log_group: [12; 16],
        ..plan().delegation()
    };
    let image = PartitionImage {
        cluster: CLUSTER,
        delegation,
        sealed: Some(Seal {
            destination: [11; 16],
            moved: delegation.namespace,
        }),
        digest: Some([6; 32]),
    };
    let split = PartitionPlan::split_destination(CLUSTER, 5, delegation, &image).unwrap();
    assert_eq!(split.image(), Some([6; 32]));
    assert_eq!(split.partition(), [11; 16]);
    assert_eq!(split.bootstrap(&Some(image)), Ok(Start::Image));
    assert_eq!(
        split.bootstrap(&None),
        Err(DirectoryBootstrapError::Unauthorized)
    );
    let mut other = image;
    other.digest = Some([7; 32]);
    assert_eq!(
        split.bootstrap(&Some(other)),
        Err(DirectoryBootstrapError::Unauthorized)
    );
    other.digest = None;
    assert_eq!(
        split.bootstrap(&Some(other)),
        Err(DirectoryBootstrapError::Inconsistent)
    );
    assert_eq!(
        PartitionPlan::split_destination(CLUSTER, 5, delegation, &other),
        Err(DirectoryBootstrapError::Inconsistent)
    );
    let mut unsealed = image;
    unsealed.sealed = None;
    assert_eq!(
        PartitionPlan::split_destination(CLUSTER, 5, delegation, &unsealed),
        Err(DirectoryBootstrapError::Unauthorized)
    );
    assert!(split.accepts(&delegation));
    assert!(!split.accepts(&plan().delegation()));
}

#[test]
fn a_permit_needs_the_root_s_committed_authority() {
    let minted = permit(10);
    assert_eq!(minted.expires_at(), 1200);
    assert_eq!(minted.root_index(), 10);
    assert_eq!(minted.root_identity(), root());
    assert_eq!(minted.plan(), plan());
    assert!(minted.opens(1000).is_ok());
    for now in [999, 1200] {
        assert_eq!(
            minted.opens(now),
            Err(DirectoryBootstrapError::Unauthorized)
        );
    }
    let refuse = |change: fn(&mut RootOwner)| {
        let mut owner = owner();
        change(&mut owner);
        authorize_first_directory(
            &owner,
            plan(),
            &ROOT_GROUP,
            1000,
            Ok(Some(snapshot(10))),
            Some(100),
        )
    };
    for change in [
        (|owner: &mut RootOwner| owner.leader = false) as fn(&mut RootOwner),
        |owner| owner.status_committed = 9,
        |owner| owner.identity.scope = ControlScope::Partition([1; 16]),
        |owner| owner.delegated = Some(vec![]),
        |owner| owner.authority = None,
        |owner| owner.enrollment = None,
        |owner| owner.authority.as_mut().unwrap().clock = 1001,
        |owner| owner.authority.as_mut().unwrap().nodes[0].eligible = false,
        |owner| owner.authority.as_mut().unwrap().nodes[0].expires_at = 1199,
        |owner| owner.authority.as_mut().unwrap().groups[0].membership_epoch = 2,
        |owner| owner.authority.as_mut().unwrap().groups[0].expires_at = 1000,
        |owner| owner.enrollment.as_mut().unwrap().receipts[0].authorized = None,
        |owner| owner.enrollment.as_mut().unwrap().receipts[0].expires_at = 1199,
    ] {
        assert_eq!(
            refuse(change),
            Err(DirectoryBootstrapError::Unauthorized)
        );
    }
    let with = |found, encoded| {
        authorize_first_directory(&owner(), plan(), &ROOT_GROUP, 1000, found, encoded)
    };
    assert_eq!(
        with(Err(ControlError::Busy), Some(1)),
        Err(DirectoryBootstrapError::Control(ControlError::Busy))
    );
    assert_eq!(
        with(Ok(None), Some(1)),
        Err(DirectoryBootstrapError::Unauthorized)
    );
    assert_eq!(
        with(Ok(Some(snapshot(10))), Some(128 * 1024 - 4095)),
        Err(DirectoryBootstrapError::Capacity)
    );
    assert_eq!(
        with(Ok(Some(snapshot(9))), Some(1)),
        Err(DirectoryBootstrapError::Inconsistent)
    );
    assert_eq!(permit_charge(10), Ok(20 + 64 * 1024));
    // Another founder is nobody the root has granted.
    assert_eq!(
        authorize_first_directory(
            &owner(),
            FirstDirectoryPlan::derive(CLUSTER, 6)
                .unwrap()
                .founded([4; 32]),
            &ROOT_GROUP,
            1000,
            Ok(Some(snapshot(10))),
            Some(1)
        ),
        Err(DirectoryBootstrapError::Unauthorized)
    );
}

#[test]
fn directory_permit_rejects_wrong_assignment_revocation_expiry_and_unfunded_export() {
    let authorize = |owner: &RootOwner, plan: PartitionPlan, encoded| {
        authorize_first_directory(
            owner,
            plan,
            &ROOT_GROUP,
            1000,
            Ok(Some(snapshot(10))),
            encoded,
        )
    };
    let wrong = FirstDirectoryPlan::derive(CLUSTER, plan().founder_node() + 1)
        .unwrap()
        .founded([4; 32]);
    assert!(matches!(
        authorize(&owner(), wrong, Some(100)),
        Err(DirectoryBootstrapError::Unauthorized)
    ));
    // An export larger than its allowance is not funded.
    assert!(matches!(
        authorize(&owner(), plan(), Some(128 * 1024)),
        Err(DirectoryBootstrapError::Capacity)
    ));
    let permit = authorize(&owner(), plan(), Some(100)).unwrap();
    assert!(matches!(
        Opening::open(&permit, permit.expires_at()),
        Err(DirectoryBootstrapError::Unauthorized)
    ));
    let mut revoked = owner();
    revoked.enrollment.as_mut().unwrap().receipts[0].authorized = None;
    assert!(matches!(
        authorize(&revoked, plan(), Some(100)),
        Err(DirectoryBootstrapError::Unauthorized)
    ));
}

#[test]
fn a_refresh_installs_what_is_newer_and_repeats_what_is_held() {
    let change = permit(10)
        .prepare_refresh(&destination(), Ok(held(9)), Some(receipt(1)), 1000)
        .unwrap();
    let request = change.request.unwrap();
    assert_eq!(request.id.sequence, 2);
    assert_eq!(request.acknowledged_through, 1);
    assert_eq!(request.expected_source_index, 9);
    let answer = change
        .complete(
            &destination(),
            Ok(held(10)),
            Some(receipt(2)),
            receipt(2),
            1001,
        )
        .unwrap();
    assert_eq!(answer.root_index, 10);
    assert_eq!(answer.applied_index, 40);
    // The same again submits nothing and answers the receipt it has.
    let again = permit(10)
        .prepare_refresh(&destination(), Ok(held(10)), Some(receipt(2)), 1002)
        .unwrap();
    assert_eq!(again.request, None);
    assert_eq!(
        again
            .complete(
                &destination(),
                Ok(held(10)),
                Some(receipt(2)),
                again.previous,
                1002
            )
            .unwrap()
            .receipt,
        receipt(2)
    );
    // A stale or an expired permit is refused.
    assert_eq!(
        permit(10).prepare_refresh(&destination(), Ok(held(11)), Some(receipt(2)), 1002),
        Err(DirectoryBootstrapError::Unauthorized)
    );
    assert_eq!(
        permit(10).prepare_refresh(&destination(), Ok(held(9)), Some(receipt(2)), 1200),
        Err(DirectoryBootstrapError::Unauthorized)
    );
    let mut differing = held(10);
    differing.authority = vec![9];
    assert_eq!(
        permit(10).prepare_refresh(&destination(), Ok(differing), Some(receipt(2)), 1002),
        Err(DirectoryBootstrapError::Inconsistent)
    );
    assert_eq!(
        permit(10).prepare_refresh(&destination(), Ok(held(9)), None, 1002),
        Err(DirectoryBootstrapError::Inconsistent)
    );
    let mut busy = destination();
    busy.pending = true;
    assert_eq!(
        permit(10).prepare_refresh(&busy, Ok(held(9)), Some(receipt(2)), 1002),
        Err(DirectoryBootstrapError::NotReady)
    );
    assert_eq!(
        change.complete(
            &destination(),
            Ok(held(9)),
            Some(receipt(2)),
            receipt(2),
            1001
        ),
        Err(DirectoryBootstrapError::Inconsistent)
    );
    assert_eq!(
        installed_authority(false, Ok(Some(held(1)))),
        Err(DirectoryBootstrapError::Capacity)
    );
    assert_eq!(
        installed_authority(true, Ok(None)),
        Err(DirectoryBootstrapError::Inconsistent)
    );
    let mut wide = destination();
    wide.configuration.learners = vec![6];
    assert_eq!(
        validate_destination(&wide, &plan()),
        Err(DirectoryBootstrapError::Unauthorized)
    );
}

#[test]
fn first_directory_planner_uses_owned_root_observation_and_committed_comparisons() {
    let mut seen = RootObservation {
        identity: root(),
        applied_index: 10,
        directory: Some(RootDirectory {
            revision: 0,
            delegations: vec![],
        }),
        enrollment_bytes: 100,
        authority: Some(authority(vec![])),
        anchor: Anchor {
            cluster: CLUSTER,
            metadata_group: ROOT_GROUP,
            genesis: [1; 32],
        },
    };
    let next = |seen: &RootObservation| {
        next_first_directory_command(&plan(), seen, &ROOT_GROUP, 1000, true, &Some(enrollment()))
    };
    assert_eq!(
        next(&seen),
        Ok(Some(Intent::Delegate {
            expected_revision: 0,
            delegation: plan().delegation(),
            authority_revision: 3,
            enrollment_revision: 6,
            decided_at: 1000
        }))
    );
    seen.directory.as_mut().unwrap().delegations = vec![plan().partition()];
    let Ok(Some(Intent::BootstrapGroup { grant, .. })) = next(&seen) else {
        panic!("grant")
    };
    assert_eq!(grant.genesis, [4; 32]);
    assert_eq!(
        grant.voters,
        vec![Voter {
            node: 5,
            generation: 1
        }]
    );
    assert_eq!(grant.expires_at, 1300);
    seen.authority = Some(authority(vec![grant]));
    assert_eq!(next(&seen), Ok(None));
    assert_eq!(
        next_first_directory_command(
            &plan(),
            &seen,
            &ROOT_GROUP,
            1000,
            false,
            &Some(enrollment())
        ),
        Err(DirectoryBootstrapError::Capacity)
    );
    assert_eq!(
        next_first_directory_command(&plan(), &seen, &ROOT_GROUP, 1000, true, &None),
        Err(DirectoryBootstrapError::Inconsistent)
    );
    let wrong = FirstDirectoryPlan::derive(CLUSTER, 6)
        .unwrap()
        .founded([4; 32]);
    assert_eq!(
        next_first_directory_command(
            &wrong,
            &seen,
            &ROOT_GROUP,
            1000,
            true,
            &Some(enrollment())
        ),
        Err(DirectoryBootstrapError::NotReady)
    );
    let mut foreign = seen.clone();
    foreign.directory.as_mut().unwrap().delegations = vec![[99; 16]];
    assert_eq!(next(&foreign), Err(DirectoryBootstrapError::Unauthorized));
    let mut early = seen.clone();
    early.authority = None;
    assert_eq!(next(&early), Err(DirectoryBootstrapError::NotReady));
    assert_eq!(decode_charge(100), Ok(6400 + 64 * 1024));
}

#[test]
fn an_opened_group_is_activated_installed_or_settled() {
    let minted = permit(10);
    let delegation = Some(plan().delegation());
    assert_eq!(
        minted.activation(&delegation, 0, &None, &None, 1000),
        Ok(Activation::Activate {
            id: ControlRequestId {
                client: plan().client().unwrap(),
                sequence: 1
            },
            acknowledged_through: 0,
            expected_partition_revision: 0
        })
    );
    assert_eq!(
        minted.activation(&delegation, 0, &Some(held(10)), &Some(receipt(1)), 1000),
        Ok(Activation::Settled)
    );
    let Ok(Activation::Install(install)) =
        minted.activation(&delegation, 0, &Some(held(9)), &Some(receipt(1)), 1000)
    else {
        panic!("install")
    };
    assert_eq!(install.id.sequence, 2);
    assert_eq!(
        minted.activation(&delegation, 0, &None, &Some(receipt(1)), 1000),
        Err(DirectoryBootstrapError::Inconsistent)
    );
    assert_eq!(
        minted.activation(&delegation, 0, &Some(held(11)), &Some(receipt(1)), 1000),
        Err(DirectoryBootstrapError::Inconsistent)
    );
    assert_eq!(
        minted.activation(&None, 0, &None, &None, 1000),
        Err(DirectoryBootstrapError::Inconsistent)
    );
}

#[test]
fn a_single_member_waits_a_bounded_number_of_rounds() {
    assert!(drain_single(&alone(), true, &plan()).is_ok());
    assert_eq!(
        drain_single(&alone(), false, &plan()),
        Err(DirectoryBootstrapError::Unauthorized)
    );
    let mut barrier = Barrier::new();
    assert_eq!(barrier.drained(true, true), Ok(Round::Ask));
    assert_eq!(barrier.asked(Err(ControlError::NotReady)), Ok(Round::Drain));
    assert_eq!(barrier.drained(true, true), Ok(Round::Ask));
    assert_eq!(barrier.asked(Ok(())), Ok(Round::Drain));
    assert_eq!(barrier.drained(true, false), Ok(Round::Drain));
    assert_eq!(barrier.drained(true, true), Ok(Round::Done));
    let mut silent = Barrier::new();
    silent.requested = true;
    for _ in 0..15 {
        assert_eq!(silent.drained(true, false), Ok(Round::Drain));
    }
    assert_eq!(
        silent.drained(true, false),
        Err(DirectoryBootstrapError::NotReady)
    );
    let mut failed = Barrier::new();
    assert_eq!(
        failed.asked(Err(ControlError::Failed)),
        Err(DirectoryBootstrapError::Control(ControlError::Failed))
    );
    assert_eq!(
        owner_bytes(4, 2, 72, 172, 1000),
        Ok(6 * 200 + 2 * 300 + 1000 + DIRECTORY_STACK_BYTES + 4096)
    );
    let (mut progress, bytes) = spawn_directory(&permit(10), 4, 2, 72, 172, 1000, true).unwrap();
    assert_eq!(Ok(bytes), owner_bytes(4, 2, 72, 172, 1000));
    assert_eq!(progress.node, plan().founder_node());
    assert_eq!((progress.applied_index, progress.stopped), (0, false));
    progress.applied_index = 7;
    progress.end();
    assert_eq!((progress.applied_index, progress.stopped), (7, true));
    assert_eq!(
        spawn_directory(&permit(10), 4, 2, 72, 172, 1000, false),
        Err(DirectoryBootstrapError::Capacity)
    );
    assert_eq!(
        owner_bytes(usize::MAX, 1, 1, 1, 1),
        Err(DirectoryBootstrapError::Capacity)
    );
}

#[test]
fn a_group_opens_behind_its_barriers() {
    let minted = permit(10);
    let drained = |answered: bool, leader| {
        let mut reads = unread();
        if answered {
            let context = b"focal.directory.bootstrap.read.v1".to_vec();
            reads.states.push((context, 5));
        }
        Did::Drained {
            configuration: alone(),
            quiet: true,
            reads,
            leader,
        }
    };
    assert_eq!(
        Opening::open(&minted, minted.expires_at()),
        Err(DirectoryBootstrapError::Unauthorized)
    );
    let (mut opening, opens) = Opening::open(&minted, 1000).unwrap();
    assert_eq!(opens, Opens::Drain);
    let mut go = |did: Did| opening.step(&minted, &did, 1000);
    assert_eq!(go(drained(false, false)), Opens::Campaign);
    assert_eq!(go(Did::Done), Opens::Drain);
    // An answer to nothing that was asked is no barrier.
    assert_eq!(go(drained(true, true)), Opens::Ask);
    assert_eq!(go(Did::Failed(ControlError::NotReady)), Opens::Drain);
    assert_eq!(go(drained(false, true)), Opens::Ask);
    assert_eq!(go(Did::Done), Opens::Drain);
    // Nor is one that is not applied yet.
    let Did::Drained { mut reads, .. } = drained(true, true) else {
        panic!("drained");
    };
    reads.applied_index = 4;
    assert_eq!(
        go(Did::Drained {
            configuration: alone(),
            quiet: true,
            reads,
            leader: true
        }),
        Opens::Drain
    );
    assert_eq!(go(drained(true, true)), Opens::Inspect);
    let found = |current, previous| Did::Found {
        delegation: Some(plan().delegation()),
        revision: 5,
        current,
        previous,
    };
    let Opens::Submit(Activation::Activate { id, .. }) = go(found(None, None)) else {
        panic!("a fresh group is activated");
    };
    assert_eq!(id.sequence, 1);
    assert_eq!(go(Did::Done), Opens::Drain);
    assert_eq!(go(drained(false, true)), Opens::Receipt(id));
    assert_eq!(go(Did::Receipt(false)), Opens::Drain);
    assert_eq!(go(drained(false, true)), Opens::Receipt(id));
    // Its receipt is settled behind another barrier.
    assert_eq!(go(Did::Receipt(true)), Opens::Drain);
    assert_eq!(go(drained(false, true)), Opens::Drain);
    assert_eq!(go(drained(true, true)), Opens::Ask);
    assert_eq!(go(Did::Done), Opens::Drain);
    assert_eq!(go(drained(true, true)), Opens::Return(Ok(())));
    // What never gets its receipt is not waited for for ever.
    let (mut opening, _) = Opening::open(&minted, 1000).unwrap();
    let mut go = |did: Did| opening.step(&minted, &did, 1000);
    go(drained(false, true));
    go(drained(false, true));
    go(Did::Done);
    go(drained(true, true));
    go(found(None, None));
    assert_eq!(go(Did::Done), Opens::Drain);
    for _ in 0..15 {
        assert_eq!(go(drained(false, true)), Opens::Receipt(id));
        assert_eq!(go(Did::Receipt(false)), Opens::Drain);
    }
    go(drained(false, true));
    assert_eq!(
        go(Did::Receipt(false)),
        Opens::Return(Err(DirectoryBootstrapError::NotReady))
    );
    // A second member is not this plan's to start with.
    let (mut opening, _) = Opening::open(&minted, 1000).unwrap();
    let mut configuration = alone();
    configuration.learners.push(9);
    assert_eq!(
        opening.step(
            &minted,
            &Did::Drained {
                configuration,
                quiet: true,
                reads: unread(),
                leader: true
            },
            1000
        ),
        Opens::Return(Err(DirectoryBootstrapError::Unauthorized))
    );
}

fn unread() -> Reads {
    Reads {
        states: Vec::new(),
        applied_index: 5,
    }
}
fn control() -> ControlOwner {
    ControlOwner {
        identity: root(),
        namespace: plan().namespace(),
        route_epoch: 1,
        leader: true,
        term: 3,
        pending: 1,
        pending_requests: 4,
        directory: false,
        refresh: false,
        nonce: 41,
        clock: true,
    }
}

#[test]
fn one_bootstrap_and_one_refresh_are_under_way_at_a_time() {
    let (nonce, context) = control().prepare_directory().unwrap();
    assert_eq!(nonce, 42);
    let mut expected = b"focal.control.directory-bootstrap.v1\0".to_vec();
    expected.extend_from_slice(&42u64.to_be_bytes());
    assert_eq!(context, expected);
    let mut full = control();
    full.pending = 3;
    full.refresh = true;
    assert_eq!(
        full.prepare_directory(),
        Err(DirectoryBootstrapError::Capacity)
    );
    let mut following = control();
    following.leader = false;
    assert_eq!(
        following.prepare_directory(),
        Err(DirectoryBootstrapError::Unavailable)
    );
    let mut host = control();
    host.identity = plan().identity().unwrap();
    assert!(host.refresh_directory(&permit(10)).is_ok());
    host.refresh = true;
    assert_eq!(
        host.refresh_directory(&permit(10)),
        Err(DirectoryBootstrapError::Capacity)
    );
    assert_eq!(
        control().refresh_directory(&permit(10)),
        Err(DirectoryBootstrapError::Unauthorized)
    );
    let waiting = PendingDirectory {
        nonce: 42,
        term: 1,
        deadline: 100,
        closed: false,
    };
    let mut reads = unread();
    assert_eq!(
        waiting.complete_directory(1, true, 50, &reads),
        Waiting::Waits
    );
    reads.states.push((context.clone(), 6));
    assert_eq!(
        waiting.complete_directory(1, true, 50, &reads),
        Waiting::Waits
    );
    reads.states.push((context, 5));
    assert_eq!(
        waiting.complete_directory(1, true, 50, &reads),
        Waiting::Authorize
    );
    for (term, leader, now) in [(2, true, 50), (1, false, 50), (1, true, 100)] {
        assert_eq!(
            waiting.complete_directory(term, leader, now, &reads),
            Waiting::Unavailable
        );
    }
    let mut left = waiting;
    left.closed = true;
    assert_eq!(
        left.complete_directory(1, true, 50, &reads),
        Waiting::Dropped
    );
}

fn facts() -> RefreshFacts {
    RefreshFacts {
        canceled: false,
        expired: false,
        term: 3,
        leader: true,
        receipt: Ok(None),
        pending: false,
        reads: unread(),
    }
}

#[test]
fn a_canceled_refresh_keeps_its_intent_until_it_is_settled() {
    let mut pending = PendingAuthority::admitted(3);
    assert_eq!(pending.advance(&facts()), Refresh::Read);
    let (nonce, context) = PendingAuthority::read(7).unwrap();
    assert_eq!(nonce, 8);
    assert!(context.starts_with(b"focal.control.directory-refresh.v1\0"));
    assert!(pending.asked(8, Err(ControlError::Busy)).is_ok());
    assert_eq!(pending.reading, None);
    assert!(pending.asked(8, Ok(())).is_ok());
    let mut answered = facts();
    answered
        .reads
        .states
        .push((PendingAuthority::read(8).unwrap().1, 5));
    assert_eq!(pending.advance(&answered), Refresh::Wait);
    answered.reads.states.push((context.clone(), 5));
    assert_eq!(pending.advance(&answered), Refresh::Prepare);
    pending.submitted(receipt(2).request, None);
    assert_eq!(pending.phase, RefreshPhase::Writing);
    // The caller leaves: the proposal is neither canceled nor replaced.
    let mut left = facts();
    left.canceled = true;
    left.pending = true;
    assert_eq!(pending.advance(&left), Refresh::Wait);
    assert!(pending.replied);
    assert_eq!(pending.phase, RefreshPhase::Writing);
    // Its proposal is gone without a receipt: a fresh barrier settles it.
    let mut lost = facts();
    lost.canceled = true;
    assert_eq!(pending.advance(&lost), Refresh::Read);
    assert_eq!(pending.phase, RefreshPhase::Reconcile);
    pending.asked(8, Ok(())).unwrap();
    lost.reads.states.push((context, 5));
    let mut committed = facts();
    committed.canceled = true;
    committed.reads = lost.reads.clone();
    committed.receipt = Ok(Some(receipt(2)));
    assert_eq!(
        pending.clone().advance(&committed),
        Refresh::Complete(receipt(2))
    );
    assert_eq!(
        pending.advance(&lost),
        Refresh::Fail(DirectoryBootstrapError::Unavailable)
    );
    // Before anything is submitted, a caller that leaves ends it.
    let mut early = PendingAuthority::admitted(3);
    let mut gone = facts();
    gone.canceled = true;
    assert_eq!(
        early.advance(&gone),
        Refresh::Fail(DirectoryBootstrapError::Unavailable)
    );
    assert_eq!(
        PendingAuthority::submission_charge(100),
        Ok(4196 * 16)
    );
}

#[test]
fn bootstrap_errors_are_told() {
    assert_eq!(
        DirectoryBootstrapError::Unauthorized.message(""),
        "committed root metadata does not authorize this directory bootstrap"
    );
    assert_eq!(
        DirectoryBootstrapError::Control(ControlError::Busy).message("busy"),
        "directory control: busy"
    );
    assert_eq!(
        DirectoryBootstrapError::Capacity.message(""),
        "directory bootstrap exceeds its bounded allowance"
    );
    assert_eq!(
        DirectoryBootstrapError::NotReady.message(""),
        "directory bootstrap has not completed its committed activation"
    );
}
