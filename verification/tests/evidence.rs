use focal_node::access::AccessError;
use focal_node::evidence::coordinator::{
    answered, archive_charge, configuration_bytes, queued, repair_charge, replacement_charge,
    request_charge, Intake, JobKind, Placements, Queued, JOB_BYTES,
};
use focal_node::evidence::placement::{EvidencePlacement, ResidencyFence};
use focal_node::evidence::repair::{Found, Mend, Mended, Prefix, Repair};
use focal_node::evidence::request::{
    artifact, attest, attest_native, custody_request_id, eligible, managed_key, service, witness,
    witness_bytes, Evidence, NativeKey, Service,
};
use focal_node::evidence::service::{go_on, handle, Doing, Hop, Hopped, Job, Task, Trail};
use focal_node::evidence::transfer::{
    envelope, remote, Answer, Ask, Count, Counted, Custody, Distribution, Give, Given, PeerFailure, Pull,
    Search, Seek, Take,
};
use focal_node::evidence::{
    check_seed, receipt_counts, receipt_for, transfer_id, ContentRef, CustodyObligation,
    CustodyScope,
};
use focal_node::ids::LedgerId;
use focal_node::operation::{
    ArtifactPayload, Command, Lane, ManagedOperation, ManagedRequestKey, NativeHeader, NewArtifact,
    Operation, Peer, PeerRole, Request, RequestStreamIdentity, VerifiedRequest,
};
use std::collections::BTreeSet;

fn id(n: u128) -> [u8; 16] {
    n.to_be_bytes()
}
fn ledger() -> LedgerId {
    LedgerId {
        tenant: id(1),
        session: id(2),
    }
}
fn scope(revision: u64) -> CustodyScope {
    CustodyScope {
        ledger: ledger(),
        route_epoch: 1,
        policy_revision: revision,
    }
}
fn open() -> ResidencyFence {
    ResidencyFence {
        open: true,
        admitted: BTreeSet::new(),
        charge: Some(64),
    }
}
fn placement(revision: u64, copies: &[u64]) -> EvidencePlacement {
    EvidencePlacement::committed(
        scope(revision),
        BTreeSet::from([1]),
        copies.iter().copied().collect(),
        open(),
    )
    .unwrap()
}
fn reference() -> ContentRef {
    ContentRef {
        domain: id(1),
        root: [8; 32],
        length: 100,
        class: 3,
    }
}
fn actor() -> Peer {
    Peer {
        principal: id(40),
        role: PeerRole::Participant,
    }
}
fn new_artifact(payload: ArtifactPayload) -> NewArtifact {
    NewArtifact {
        ledger: ledger(),
        schema_hash: [6; 32],
        payload,
        descriptor: Some([9; 32]),
    }
}
fn artifact_request(n: u128, payload: ArtifactPayload) -> VerifiedRequest {
    VerifiedRequest {
        request: Request {
            ledger: ledger(),
            route_epoch: 1,
            request_epoch: 1,
            request_id: id(n),
            operation: Operation::Submit {
                command: Command::RegisterArtifact {
                    artifact: new_artifact(payload),
                    lane: Lane::Ordinary,
                },
            },
        },
        peer: actor(),
    }
}
fn durable(revision: u64) -> Result<Answer, AccessError> {
    Ok(Answer::Durable {
        content: reference(),
        policy_revision: revision,
    })
}

#[test]
fn a_job_gives_its_object_under_the_request_it_is_done_for() {
    let placed = placement(5, &[1, 2]);
    let object = reference();
    let legacy = artifact_request(77, ArtifactPayload::Content(object)).request;
    let Operation::Submit { command } = legacy.operation.clone() else {
        panic!("submit")
    };
    let mut managed = legacy.clone();
    managed.operation = Operation::Managed {
        key: ManagedRequestKey {
            stream: RequestStreamIdentity {
                cluster: [1; 16],
                ledger: ledger(),
                principal: actor().principal,
                slot: 0,
                generation: 1,
            },
            ordinal: 1,
            id: id(77),
        },
        operation: ManagedOperation::Submit { command },
    };
    let folded = custody_request_id(&managed).unwrap();
    assert_ne!(folded, id(77));
    let under = |trail: Trail, request: Option<&Request>| {
        trail
            .distribution(&placed, 1, request, &object)
            .map(|giving| giving.transfer)
    };
    let transfer = |request: [u8; 16]| Some(transfer_id(&scope(5), &request, &object));
    assert_eq!(under(Trail::Seal, Some(&managed)), transfer(id(77)));
    assert_eq!(under(Trail::Native, Some(&legacy)), transfer(id(77)));
    assert_eq!(under(Trail::Object, Some(&legacy)), transfer(id(77)));
    assert_eq!(under(Trail::Object, Some(&managed)), transfer(folded));
    assert_eq!(under(Trail::Archive, None), transfer([8; 16]));
    assert_eq!(under(Trail::Inline, Some(&legacy)), None);
    assert_eq!(under(Trail::Seal, None), None);
}

#[test]
fn managed_artifact_custody_transfer_namespace_binds_the_full_stream_key() {
    let legacy = artifact_request(77, ArtifactPayload::Inline(vec![1, 2, 3]));
    assert_eq!(custody_request_id(&legacy.request).unwrap(), id(77));
    let mut request = legacy.request.clone();
    let Operation::Submit { command } = request.operation.clone() else {
        panic!("submit")
    };
    let mut key = ManagedRequestKey {
        stream: RequestStreamIdentity {
            cluster: [1; 16],
            ledger: ledger(),
            principal: actor().principal,
            slot: 0,
            generation: 1,
        },
        ordinal: 1,
        id: request.request_id,
    };
    let operation = ManagedOperation::Submit { command };
    request.operation = Operation::Managed {
        key,
        operation: operation.clone(),
    };
    let original = request.clone();
    let transfer = custody_request_id(&original).unwrap();
    assert_eq!(custody_request_id(&original).unwrap(), transfer);
    key.stream.slot = 1;
    request.operation = Operation::Managed { key, operation };
    assert_ne!(custody_request_id(&request).unwrap(), transfer);
    assert!(artifact(&original.operation).is_some());
    // The whole key is folded into the identity.
    let bytes = postcard::to_stdvec(&(
        [1u8; 16],
        ledger().tenant,
        ledger().session,
        actor().principal,
        0u32,
        1u64,
        1u64,
        id(77),
    ))
    .unwrap();
    let hash = blake3::derive_key("focal.evidence.managed-transfer-request.v1", &bytes);
    assert_eq!(transfer, hash[..16]);
    assert_eq!(managed_key(&request.operation), Some(key));
}

#[test]
fn a_transfer_is_named_by_its_scope_request_and_object() {
    let mut bytes = Vec::new();
    bytes.extend_from_slice(&ledger().tenant);
    bytes.extend_from_slice(&ledger().session);
    bytes.extend_from_slice(&1u64.to_be_bytes());
    bytes.extend_from_slice(&5u64.to_be_bytes());
    bytes.extend_from_slice(&id(77));
    bytes.extend_from_slice(&[8; 32]);
    let hash = blake3::derive_key("focal.evidence.custody-transfer.v1", &bytes);
    assert_eq!(transfer_id(&scope(5), &id(77), &reference()), hash[..16]);
    assert_ne!(
        transfer_id(&scope(6), &id(77), &reference()),
        transfer_id(&scope(5), &id(77), &reference())
    );
}

#[test]
fn a_receipt_counts_at_its_scope_only() {
    let receipt = receipt_for(&scope(1), 4, &reference(), 1234);
    assert_eq!(receipt.node, 4);
    assert_eq!(receipt.taken_ms, 1234);
    assert!(receipt_counts(&receipt, &scope(1), 100));
    assert!(!receipt_counts(&receipt, &scope(2), 100));
    assert!(!receipt_counts(&receipt, &scope(1), 99));
}

#[test]
fn a_placement_is_committed_with_members_and_a_scope() {
    let mut bad = scope(1);
    bad.route_epoch = 0;
    for wrong in [
        EvidencePlacement::committed(bad, BTreeSet::from([1]), BTreeSet::from([1]), open()),
        EvidencePlacement::committed(scope(1), BTreeSet::new(), BTreeSet::from([1]), open()),
        EvidencePlacement::committed(scope(1), BTreeSet::from([1]), BTreeSet::new(), open()),
    ] {
        assert_eq!(wrong, Err(AccessError::InvalidRequest));
    }
    assert_eq!(
        EvidencePlacement::committed(
            scope(1),
            (0..1025).collect(),
            BTreeSet::from([1]),
            open()
        ),
        Err(AccessError::Capacity)
    );
    let placed = EvidencePlacement::verified(
        scope(1),
        &vec![1, 2, 1],
        &vec![3],
        true,
        Some(open()),
    )
    .unwrap();
    assert_eq!(placed.voters, BTreeSet::from([1, 2]));
    assert_eq!(placed.bytes(), Ok(3 * 128 + 512 + 64));
    assert_eq!(placed.custody_policy().peers, BTreeSet::from([1, 2, 3]));
    assert_eq!(placed.scope(), scope(1));
    assert_eq!(
        EvidencePlacement::verified(scope(1), &vec![1], &vec![1], false, Some(open())),
        Err(AccessError::Unavailable)
    );
    assert_eq!(
        EvidencePlacement::verified(scope(1), &vec![1], &vec![1], true, None),
        Err(AccessError::Capacity)
    );
    let mut fenced = placed.clone();
    fenced.fence = ResidencyFence {
        open: false,
        admitted: BTreeSet::from([3]),
        charge: None,
    };
    assert_eq!(fenced.admits(1), Err(AccessError::Unauthorized));
    assert!(fenced.admits(3).is_ok());
    assert_eq!(fenced.bytes(), Err(AccessError::Capacity));
}

#[test]
fn a_coordinator_takes_each_ledger_once() {
    let set = Placements::configure(1, vec![placement(1, &[1])], 4, true).unwrap();
    assert_eq!(set.rows.len(), 1);
    assert_eq!(
        configuration_bytes(&vec![placement(1, &[1])], 4),
        Ok(2 * 128 + 512 + 4 * 4096)
    );
    for wrong in [
        Placements::configure(0, vec![], 4, true),
        Placements::configure(1, vec![], 0, true),
        Placements::configure(1, vec![], 65, true),
        Placements::configure(1, vec![placement(1, &[1]), placement(2, &[1])], 4, true),
        Placements::configure(9, vec![placement(1, &[1])], 4, true),
    ] {
        assert_eq!(wrong, Err(AccessError::InvalidRequest));
    }
    assert_eq!(
        Placements::configure(1, vec![placement(1, &[1])], 4, false),
        Err(AccessError::Capacity)
    );
    // A fence is paid from what the queue was reserved.
    let mut heavy = placement(1, &[1]);
    heavy.fence.charge = Some(4 * 4096 + 1);
    assert_eq!(
        Placements::configure(1, vec![heavy], 4, true),
        Err(AccessError::Capacity)
    );
}

#[test]
fn a_replacement_moves_forward_and_can_be_retried() {
    let mut set = Placements::configure(1, vec![], 4, true).unwrap();
    let first = placement(1, &[1]);
    let held = replacement_charge(&first).unwrap();
    assert_eq!(held, 2 * (2 * 128 + 512 + 64) + 4096);
    assert_eq!(
        set.stage(&Some(scope(1)), &first, held),
        Err(AccessError::Unavailable)
    );
    assert_eq!(set.stage(&None, &first, 10), Err(AccessError::Capacity));
    assert!(set.stage(&None, &first, held).is_ok());
    set.install(first.clone());
    // The exact retry reconciles, whatever is expected.
    assert!(set.stage(&None, &first, held).is_ok());
    // The fence alone may change.
    let mut fenced = first.clone();
    fenced.fence.admitted = BTreeSet::from([1]);
    assert!(set.stage(&None, &fenced, held).is_ok());
    // Members change with the scope, against the scope that is expected.
    let next = placement(2, &[1, 2]);
    let held = replacement_charge(&next).unwrap();
    assert_eq!(
        set.stage(&None, &next, held),
        Err(AccessError::Unavailable)
    );
    assert!(set.stage(&Some(scope(1)), &next, held).is_ok());
    let mut same = placement(1, &[1, 2]);
    same.scope = scope(1);
    assert_eq!(
        set.stage(&Some(scope(1)), &same, held),
        Err(AccessError::Unavailable)
    );
    set.install(next);
    assert_eq!(
        set.stage(&Some(scope(2)), &first, held),
        Err(AccessError::Unavailable)
    );
    // Work under the superseded scope is not done.
    assert_eq!(
        set.complete(&Some(scope(1)), Ok(7)),
        Err(AccessError::Unavailable)
    );
    assert_eq!(set.complete(&Some(scope(2)), Ok(7)), Ok(7));
    assert_eq!(
        set.complete::<u8>(&Some(scope(2)), Err(AccessError::Capacity)),
        Err(AccessError::Capacity)
    );
    let elsewhere = EvidencePlacement::committed(
        scope(3),
        BTreeSet::from([5]),
        BTreeSet::from([6]),
        open(),
    )
    .unwrap();
    assert_eq!(
        set.stage(&Some(scope(2)), &elsewhere, held),
        Err(AccessError::InvalidRequest)
    );
    let (found, charge) = set.snapshot(&ledger(), 1).unwrap();
    assert_eq!(found.scope(), scope(2));
    assert_eq!(charge, 3 * 128 + 512 + 64);
    assert_eq!(
        set.snapshot(&ledger(), 2),
        Err(AccessError::Unavailable)
    );
}

#[test]
fn jobs_are_charged_and_answered() {
    assert_eq!(request_charge(10), Ok(320 + JOB_BYTES));
    assert_eq!(request_charge(usize::MAX), Err(AccessError::Capacity));
    assert_eq!(archive_charge(10), Ok(20 + JOB_BYTES));
    assert_eq!(repair_charge(0), Err(AccessError::InvalidRequest));
    assert_eq!(repair_charge(4096), Ok(8 * 1024 * 1024));
    assert_eq!(repair_charge(4097), Err(AccessError::InvalidRequest));
    assert_eq!(queued(Queued::Full), Err(AccessError::Capacity));
    assert_eq!(queued(Queued::Closed), Err(AccessError::Unavailable));
    assert!(queued(Queued::Sent).is_ok());
    assert_eq!(answered::<u8>(None), Err(AccessError::OutcomeUnknown));
    assert_eq!(answered(Some(Ok(3))), Ok(3));
    assert_eq!(
        JobKind::Seal.process(Ok(scope(1)), false),
        Err(AccessError::InvalidRequest)
    );
    assert_eq!(JobKind::Repair.process(Ok(scope(1)), false), Ok(scope(1)));
    assert_eq!(
        JobKind::Repair.process(Err(AccessError::Unavailable), false),
        Err(AccessError::Unavailable)
    );
    let mut intake = Intake::new(1);
    assert!(intake.takes());
    intake.job(true);
    assert!(!intake.takes());
    intake.done();
    intake.job(false);
    intake.closed();
    assert!(!intake.runs());
}

#[test]
fn a_witness_is_of_its_request_and_scope() {
    let verified = artifact_request(5, ArtifactPayload::Inline(vec![1]));
    let placed = placement(3, &[1]);
    let taken = witness(&placed, &verified).unwrap();
    let attested = taken.validate(&verified, scope(3), &vec![1]).unwrap();
    assert_eq!(attested.descriptor_hash, [9; 32]);
    assert_eq!(attested.custody_revision, 3);
    assert!(attested.durable && attested.schema_valid);
    assert_eq!(
        taken.validate(&verified, scope(4), &vec![1]),
        Err(AccessError::Unavailable)
    );
    assert_eq!(
        taken.validate(&verified, scope(3), &vec![1, 2]),
        Err(AccessError::Unavailable)
    );
    assert_eq!(
        taken.validate(&verified, scope(3), &vec![2]),
        Err(AccessError::Unavailable)
    );
    let mut other = verified.clone();
    other.request.request_id = id(6);
    assert_eq!(
        taken.validate(&other, scope(3), &vec![1]),
        Err(AccessError::Unavailable)
    );
    let mut changed = verified.clone();
    let mut described = new_artifact(ArtifactPayload::Inline(vec![1]));
    described.descriptor = Some([1; 32]);
    changed.request.operation = Operation::Submit {
        command: Command::RegisterArtifact {
            artifact: described,
            lane: Lane::Ordinary,
        },
    };
    assert_eq!(
        taken.validate(&changed, scope(3), &vec![1]),
        Err(AccessError::InvalidRequest)
    );
    assert_eq!(witness_bytes(2, 100, 10, 1000), Ok(256 + 100 + 320));
    assert_eq!(
        witness_bytes(2, 100, 10, 675),
        Err(AccessError::Capacity)
    );
}

#[test]
fn an_artifact_is_attested_by_where_its_bytes_are() {
    let inline = artifact_request(5, ArtifactPayload::Inline(vec![0; 16 * 1024]));
    assert_eq!(
        attest(&scope(1), &inline.request, Some(10)),
        Ok(Evidence::Inline)
    );
    let long = artifact_request(5, ArtifactPayload::Inline(vec![0; 16 * 1024 + 1]));
    assert_eq!(
        attest(&scope(1), &long.request, Some(10)),
        Err(AccessError::Capacity)
    );
    assert_eq!(
        attest(&scope(1), &inline.request, None),
        Err(AccessError::UnsupportedOperation)
    );
    let object = artifact_request(5, ArtifactPayload::Content(reference()));
    assert_eq!(
        attest(&scope(1), &object.request, Some(100)),
        Ok(Evidence::Object {
            reference: reference(),
            custody: id(5),
            maximum: 100
        })
    );
    assert_eq!(
        attest(&scope(1), &object.request, Some(99)),
        Err(AccessError::Capacity)
    );
    let mut elsewhere = scope(1);
    elsewhere.ledger.session = id(9);
    assert_eq!(
        attest(&elsewhere, &object.request, Some(100)),
        Err(AccessError::Unauthorized)
    );
    let mut plain = object.request.clone();
    plain.operation = Operation::Summary;
    assert_eq!(
        attest(&scope(1), &plain, Some(100)),
        Err(AccessError::InvalidRequest)
    );
}

#[test]
fn a_native_artifact_is_its_request_s() {
    let mut verified = artifact_request(5, ArtifactPayload::Inline(vec![1]));
    let key = NativeKey {
        principal: id(40),
        id: id(5),
        epoch: 1,
    };
    assert_eq!(
        attest_native(&scope(1), &verified, Ok(Some((key, ledger())))),
        Err(AccessError::InvalidRequest)
    );
    verified.request.operation = Operation::Native { header: None };
    assert_eq!(
        attest_native(&scope(1), &verified, Ok(Some((key, ledger())))),
        Ok(key)
    );
    assert_eq!(
        attest_native(&scope(1), &verified, Ok(None)),
        Err(AccessError::InvalidRequest)
    );
    let mut foreign = key;
    foreign.epoch = 2;
    assert_eq!(
        attest_native(&scope(1), &verified, Ok(Some((foreign, ledger())))),
        Err(AccessError::Unauthorized)
    );
    assert_eq!(
        attest_native(&scope(1), &verified, Err(AccessError::Capacity)),
        Err(AccessError::Capacity)
    );
}

#[test]
fn requests_go_where_their_evidence_is() {
    let bearing = Operation::Native {
        header: Some(NativeHeader {
            artifact_bearing: true,
            evaluates_artifact: true,
        }),
    };
    let evaluating = Operation::Native {
        header: Some(NativeHeader {
            artifact_bearing: false,
            evaluates_artifact: true,
        }),
    };
    assert_eq!(service(&bearing), Service::AttestNative);
    assert_eq!(service(&evaluating), Service::Evaluate);
    assert_eq!(
        service(&Operation::Native { header: None }),
        Service::Replica
    );
    assert_eq!(service(&Operation::Upload { seal: true }), Service::Seal);
    assert_eq!(service(&Operation::Upload { seal: false }), Service::Content);
    assert_eq!(service(&Operation::Custody), Service::Content);
    assert_eq!(service(&Operation::Download), Service::Content);
    assert_eq!(service(&Operation::Summary), Service::Replica);
    let verified = artifact_request(5, ArtifactPayload::Inline(vec![1]));
    assert_eq!(service(&verified.request.operation), Service::Attest);
}

#[test]
fn an_artifact_is_attested_only_when_it_was_checked() {
    let tasks = |trail| {
        let (mut job, mut next) = Job::begin(trail);
        let mut tasks = Vec::new();
        while let Doing::Do(task) = next {
            tasks.push(task);
            next = job.step(Ok(()));
        }
        assert_eq!(next, Doing::Done(Ok(())));
        tasks
    };
    assert_eq!(
        tasks(Trail::Object),
        vec![
            Task::EnsureLocal,
            Task::Replicate,
            Task::Read,
            Task::Schema,
            Task::CheckPolicy
        ]
    );
    assert_eq!(tasks(Trail::Inline), vec![Task::Schema, Task::CheckPolicy]);
    for trail in [Trail::Seal, Trail::Native] {
        assert_eq!(
            tasks(trail),
            vec![Task::Seal, Task::Replicate, Task::CheckPolicy]
        );
    }
    assert_eq!(
        tasks(Trail::Archive),
        vec![Task::Seal, Task::Replicate, Task::Obligation]
    );
    // A copy that is missing ends it; bytes no schema allows are the request's
    // fault.
    let (mut job, _) = Job::begin(Trail::Object);
    assert_eq!(job.step(Ok(())), Doing::Do(Task::Replicate));
    assert_eq!(
        job.step(Err(AccessError::Unavailable)),
        Doing::Done(Err(AccessError::Unavailable))
    );
    assert_eq!(
        job.step(Ok(())),
        Doing::Done(Err(AccessError::Unavailable))
    );
    let request = artifact_request(7, ArtifactPayload::Inline(vec![1])).request;
    let (mut job, evidence) = Job::attest(&scope(1), &request, Some(10)).unwrap();
    assert_eq!(evidence, Evidence::Inline);
    assert_eq!(
        job.step(Err(AccessError::Capacity)),
        Doing::Done(Err(AccessError::InvalidRequest))
    );
    assert_eq!(
        Job::attest(&scope(1), &request, None),
        Err(AccessError::UnsupportedOperation)
    );
}

#[test]
fn a_request_comes_to_the_replica_with_its_evidence() {
    let operation = artifact_request(7, ArtifactPayload::Inline(vec![1]))
        .request
        .operation;
    let probe = handle(&operation);
    assert_eq!(probe, Hop::Probe);
    assert_eq!(go_on(Hop::Probe, &Hopped::Done), Hop::Answered);
    let attest = go_on(probe, &Hopped::Nothing);
    assert_eq!(attest, Hop::Attest);
    assert_eq!(go_on(attest, &Hopped::Done), Hop::SubmitEvidenced);
    assert_eq!(
        go_on(Hop::Attest, &Hopped::Failed(AccessError::Capacity)),
        Hop::Error(AccessError::Capacity)
    );
    let evaluates = Operation::Native {
        header: Some(NativeHeader {
            artifact_bearing: false,
            evaluates_artifact: true,
        }),
    };
    let found = go_on(handle(&evaluates), &Hopped::Done);
    assert_eq!(found, Hop::FindPointer);
    // What the prefix does not hold is the owner's to refuse.
    assert_eq!(go_on(Hop::FindPointer, &Hopped::Nothing), Hop::Replica);
    let obligation = |held: &[u64]| {
        Hopped::Obligation(CustodyObligation {
            scope: scope(1),
            required: BTreeSet::from([1, 2]),
            held: held.iter().copied().collect(),
        })
    };
    let owed = go_on(found, &Hopped::Done);
    assert_eq!(go_on(owed.clone(), &obligation(&[1, 2])), Hop::Replica);
    assert_eq!(
        go_on(owed, &obligation(&[1])),
        Hop::Refused(
            "custody: 1 of 2 required copies hold the artifact; missing nodes 2".to_string()
        )
    );
    assert_eq!(handle(&Operation::Upload { seal: true }), Hop::Seal);
    assert_eq!(go_on(Hop::Seal, &Hopped::Done), Hop::Answered);
    assert_eq!(handle(&Operation::Download), Hop::Content);
    assert_eq!(go_on(Hop::AttestNative, &Hopped::Done), Hop::SubmitNative);
}

#[test]
fn an_object_short_of_custody_names_the_copies() {
    let mut obligation = CustodyObligation {
        scope: scope(1),
        required: BTreeSet::from([3, 1, 12]),
        held: BTreeSet::from([3, 99]),
    };
    assert!(!obligation.satisfied());
    assert_eq!(obligation.missing(), vec![1, 12]);
    assert_eq!(
        eligible(&obligation),
        Err(
            "custody: 2 of 3 required copies hold the artifact; missing nodes 1,12".to_string()
        )
    );
    obligation.held = BTreeSet::from([1, 3, 12]);
    assert!(obligation.satisfied());
    assert!(eligible(&obligation).is_ok());
}

#[test]
fn a_seed_is_what_it_was_asked_by() {
    let hash = *blake3::hash(b"seed").as_bytes();
    assert!(check_seed(&hash, &hash, b"seed").is_ok());
    assert_eq!(
        check_seed(&hash, &hash, b"weed"),
        Err(AccessError::InvalidRequest)
    );
    assert_eq!(
        check_seed(&hash, &[0; 32], b"seed"),
        Err(AccessError::InvalidRequest)
    );
}

#[test]
fn failed_messages_are_told_apart() {
    assert_eq!(remote(PeerFailure::Busy), AccessError::Capacity);
    assert_eq!(
        remote(PeerFailure::Rejected(AccessError::Unauthorized)),
        AccessError::Unauthorized
    );
    assert_eq!(remote(PeerFailure::Lost), AccessError::OutcomeUnknown);
}

#[test]
fn replication_gives_each_copy_what_it_lacks() {
    let placed = placement(5, &[1, 2, 3]);
    let mut giving = Distribution::replicate(&placed, 1, &id(7), &reference());
    assert_eq!(giving.transfer, transfer_id(&scope(5), &id(7), &reference()));
    assert_eq!(giving.step(Given::Exported(Ok(3))), Give::Record { node: 1 });
    assert_eq!(
        giving.step(Given::Recorded(Ok(()))),
        Give::Ask {
            peer: 2,
            ask: Ask::Verify
        }
    );
    // Node 2 holds it already.
    assert_eq!(
        giving.step(Given::Answered(durable(5))),
        Give::Record { node: 2 }
    );
    assert_eq!(
        giving.step(Given::Recorded(Ok(()))),
        Give::Ask {
            peer: 3,
            ask: Ask::Verify
        }
    );
    // Node 3 holds it under an older policy: it is given what it lacks.
    assert_eq!(
        giving.step(Given::Answered(durable(4))),
        Give::Ask {
            peer: 3,
            ask: Ask::Open
        }
    );
    assert_eq!(
        giving.step(Given::Answered(Ok(Answer::Opened {
            chunks: 3,
            next_missing: 2
        }))),
        Give::Read { index: 2 }
    );
    assert_eq!(
        giving.step(Given::Read(Ok(()))),
        Give::Ask {
            peer: 3,
            ask: Ask::Chunk { index: 2 }
        }
    );
    assert_eq!(
        giving.step(Given::Answered(Ok(Answer::Plain))),
        Give::Ask {
            peer: 3,
            ask: Ask::Seal
        }
    );
    assert_eq!(
        giving.step(Given::Answered(durable(5))),
        Give::Record { node: 3 }
    );
    assert_eq!(
        giving.step(Given::Recorded(Ok(()))),
        Give::Ask {
            peer: 3,
            ask: Ask::Cancel
        }
    );
    assert_eq!(
        giving.step(Given::Answered(Err(AccessError::Capacity))),
        Give::Finish(Ok(()))
    );
    assert_eq!(giving.recorded, 2);
}

#[test]
fn replication_stops_at_the_boundary_and_at_a_wrong_answer() {
    let mut placed = placement(5, &[1, 2]);
    placed.fence = ResidencyFence {
        open: false,
        admitted: BTreeSet::from([1]),
        charge: Some(0),
    };
    let mut giving = Distribution::replicate(&placed, 1, &id(7), &reference());
    giving.step(Given::Exported(Ok(1)));
    assert_eq!(
        giving.step(Given::Recorded(Ok(()))),
        Give::Finish(Err(AccessError::Unauthorized))
    );
    let mut giving = Distribution::push(&scope(5), &id(1), 2, &reference());
    assert_eq!(
        giving.step(Given::Exported(Ok(1))),
        Give::Ask {
            peer: 2,
            ask: Ask::Open
        }
    );
    assert_eq!(
        giving.step(Given::Answered(Ok(Answer::Opened {
            chunks: 2,
            next_missing: 0
        }))),
        Give::Finish(Err(AccessError::InvalidRequest))
    );
    let mut giving = Distribution::push(&scope(5), &id(1), 2, &reference());
    assert_eq!(
        giving.step(Given::Exported(Err(AccessError::Unavailable))),
        Give::Finish(Err(AccessError::Unavailable))
    );
}

#[test]
fn an_archive_names_itself_by_its_content() {
    let placed = placement(5, &[1, 2]);
    let giving = Distribution::archive(&placed, 1, &reference());
    assert_eq!(
        giving.transfer,
        transfer_id(&scope(5), &[8; 16], &reference())
    );
    assert_eq!(giving.own, Some(1));
    let asked = envelope(&scope(5), &giving.transfer);
    assert_eq!(asked.request_id, giving.transfer);
    assert_eq!((asked.request_epoch, asked.route_epoch), (1, 1));
    assert_eq!(asked.operation, Operation::Custody);
}

#[test]
fn a_pull_takes_what_is_missing_and_seals_it() {
    let (mut pull, action) = Pull::pull_object(&scope(5), &reference());
    assert_eq!(action, Take::There(Ask::Manifest));
    assert_eq!(
        pull.step(Ok(Answer::Manifest {
            content: reference()
        })),
        Take::Here(Ask::Open)
    );
    assert_eq!(
        pull.step(Ok(Answer::Opened {
            chunks: 2,
            next_missing: 1
        })),
        Take::There(Ask::Open)
    );
    assert_eq!(
        pull.step(Ok(Answer::Plain)),
        Take::There(Ask::ReadChunk { index: 1 })
    );
    assert_eq!(
        pull.step(Ok(Answer::Chunk { index: 1 })),
        Take::Here(Ask::Chunk { index: 1 })
    );
    assert_eq!(pull.step(Ok(Answer::Plain)), Take::Here(Ask::Seal));
    assert_eq!(pull.step(durable(5)), Take::Here(Ask::Cancel));
    assert_eq!(
        pull.step(Err(AccessError::Capacity)),
        Take::There(Ask::Cancel)
    );
    assert_eq!(
        pull.step(Err(AccessError::Capacity)),
        Take::Finish(Ok(()))
    );
    let (mut wrong, _) = Pull::start(&scope(5), &id(1), &reference());
    let mut other = reference();
    other.length = 1;
    assert_eq!(
        wrong.step(Ok(Answer::Manifest { content: other })),
        Take::Finish(Err(AccessError::InvalidRequest))
    );
}

#[test]
fn an_object_is_found_here_or_at_a_copy() {
    let placed = placement(5, &[1, 2, 3]);
    let (mut search, action) = Search::ensure_local(&placed, 1);
    assert_eq!(action, Seek::Verify);
    assert_eq!(search.verified(&durable(1)), Seek::Finish(Ok(())));
    let (mut search, _) = Search::ensure_local(&placed, 1);
    assert_eq!(
        search.verified(&Err(AccessError::Unavailable)),
        Seek::Pull { peer: 2 }
    );
    assert_eq!(search.pulled(false), Seek::Pull { peer: 3 });
    assert_eq!(
        search.pulled(false),
        Seek::Finish(Err(AccessError::Unavailable))
    );
}

#[test]
fn custody_is_counted_by_receipts_and_answers() {
    let placed = placement(5, &[1, 2, 3]);
    let (mut custody, action) = Custody::obligation(&placed, 1, &reference());
    assert_eq!(action, Count::Receipt { node: 1 });
    assert_eq!(custody.step(Counted::Receipt(Ok(None))), Count::Export);
    assert_eq!(
        custody.step(Counted::Exported(true)),
        Count::Record { node: 1 }
    );
    assert_eq!(
        custody.step(Counted::Recorded(Ok(()))),
        Count::Receipt { node: 2 }
    );
    let receipt = receipt_for(&scope(5), 2, &reference(), 1);
    assert_eq!(
        custody.step(Counted::Receipt(Ok(Some(receipt)))),
        Count::Receipt { node: 3 }
    );
    let stale = receipt_for(&scope(4), 3, &reference(), 1);
    assert_eq!(
        custody.step(Counted::Receipt(Ok(Some(stale)))),
        Count::Verify { peer: 3 }
    );
    let Count::Finish(Ok(obligation)) = custody.step(Counted::Answered(durable(4))) else {
        panic!("finished")
    };
    assert_eq!(obligation.held, BTreeSet::from([1, 2]));
    assert_eq!(obligation.missing(), vec![3]);
    let (mut failing, _) = Custody::obligation(&placed, 1, &reference());
    assert_eq!(
        failing.step(Counted::Receipt(Err(AccessError::Capacity))),
        Count::Finish(Err(AccessError::Capacity))
    );
}

fn prefix(revision: u64) -> Prefix {
    Prefix {
        ledger: ledger(),
        route: 1,
        placement_epoch: revision,
        node: 1,
        sequence: 11,
        index: 12,
    }
}

#[test]
fn a_repair_accounts_for_every_object() {
    let mut placed = placement(5, &[1, 2]);
    placed.voters = BTreeSet::from([1, 3, 2]);
    let (mut repair, action) = Repair::start(&placed, 1, &prefix(5), None, 10).unwrap();
    assert_eq!(repair.sources, vec![2, 3]);
    assert_eq!(action, Mend::Artifact { after: None });
    // An artifact without an object.
    assert_eq!(
        repair.step(Mended::Artifact(Ok(Some(Found {
            artifact: id(1),
            content: None
        })))),
        Mend::Artifact { after: Some(id(1)) }
    );
    // An object held here; node 2 lacks it and is given it.
    let found = |n| {
        Mended::Artifact(Ok(Some(Found {
            artifact: id(n),
            content: Some(reference()),
        })))
    };
    assert_eq!(repair.step(found(2)), Mend::VerifyHere);
    assert_eq!(
        repair.step(Mended::Answered(durable(5))),
        Mend::Record { node: 1 }
    );
    assert_eq!(
        repair.step(Mended::Recorded(Ok(()))),
        Mend::Verify { peer: 2 }
    );
    assert_eq!(
        repair.step(Mended::Answered(Err(AccessError::Unavailable))),
        Mend::Push { peer: 2 }
    );
    assert_eq!(
        repair.step(Mended::Pushed(true)),
        Mend::Artifact { after: Some(id(2)) }
    );
    // An object that comes from the second source.
    repair.step(found(3));
    assert_eq!(
        repair.step(Mended::Answered(Err(AccessError::Unavailable))),
        Mend::Pull { peer: 2 }
    );
    assert_eq!(repair.step(Mended::Pulled(false)), Mend::Pull { peer: 3 });
    assert_eq!(repair.step(Mended::Pulled(true)), Mend::Record { node: 1 });
    repair.step(Mended::Recorded(Ok(())));
    assert_eq!(
        repair.step(Mended::Answered(durable(5))),
        Mend::Record { node: 2 }
    );
    repair.step(Mended::Recorded(Ok(())));
    // An object nobody has.
    repair.step(found(4));
    repair.step(Mended::Answered(Err(AccessError::Unavailable)));
    repair.step(Mended::Pulled(false));
    assert_eq!(
        repair.step(Mended::Pulled(false)),
        Mend::Artifact { after: Some(id(4)) }
    );
    assert_eq!(
        repair.step(Mended::Artifact(Ok(None))),
        Mend::Finish(Ok(()))
    );
    let report = &repair.report;
    assert_eq!(
        (
            report.artifacts,
            report.objects,
            report.verified,
            report.repaired,
            report.pushed,
            report.unrecoverable_count
        ),
        (4, 3, 1, 1, 1, 1)
    );
    assert_eq!(report.unrecoverable[0].asked, 2);
    assert!(report.complete);
    assert_eq!(report.next_after, None);
    assert_eq!((report.sequence, report.index), (11, 12));
}

#[test]
fn a_repair_is_bounded_and_fenced() {
    let placed = placement(5, &[1]);
    assert_eq!(
        Repair::start(&placed, 1, &prefix(4), None, 1).err(),
        Some(AccessError::Unavailable)
    );
    let (mut repair, _) = Repair::start(&placed, 1, &prefix(5), Some(id(3)), 1).unwrap();
    assert_eq!(
        repair.clone().step(Mended::Artifact(Ok(Some(Found {
            artifact: id(3),
            content: None
        })))),
        Mend::Finish(Err(AccessError::InvalidRequest))
    );
    let mut foreign = reference();
    foreign.domain = id(9);
    assert_eq!(
        repair.clone().step(Mended::Artifact(Ok(Some(Found {
            artifact: id(4),
            content: Some(foreign)
        })))),
        Mend::Finish(Err(AccessError::Unauthorized))
    );
    assert_eq!(
        repair
            .clone()
            .step(Mended::Artifact(Err(AccessError::SnapshotExpired))),
        Mend::Finish(Ok(()))
    );
    repair.step(Mended::Artifact(Ok(Some(Found {
        artifact: id(4),
        content: Some(reference()),
    }))));
    repair.step(Mended::Answered(durable(5)));
    // The limit is reached: the walk resumes after the object examined.
    assert_eq!(
        repair.step(Mended::Recorded(Ok(()))),
        Mend::Finish(Ok(()))
    );
    assert!(!repair.report.complete);
    assert_eq!(repair.report.next_after, Some(id(4)));
}
