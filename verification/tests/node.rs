use focal_node::config::policy::PolicyIntent;
use focal_node::config::{Durability, FailureDomain, Placement, Settings};
use focal_node::embedded::{
    decode_identity, encode_identity, identity_from, install_policy, local_only, local_placement,
    marker_file, marker_text, new_identity, policy_bytes, policy_file, random_id, settled_draw,
    settled_number, Draws, NodeError, NodeIdentity, PolicyInstall,
};
use focal_node::fault::{configured, parse_number, FaultCounter, FaultSite};
use focal_node::ids::LedgerId;
use focal_node::nodes::{difference, is_subset, members, same_set, union};
use focal_node::text::{decimal, hex, same_text};
use std::collections::{BTreeMap, BTreeSet};

fn identity() -> NodeIdentity {
    NodeIdentity {
        schema: 1,
        cluster: [1; 16],
        node: 300,
        ledger: LedgerId {
            tenant: [2; 16],
            session: [3; 16],
        },
        issuer: [4; 16],
        worker: [5; 16],
        evaluator: [6; 16],
        root: [7; 16],
    }
}

fn intent(max_failures: u16) -> PolicyIntent {
    PolicyIntent {
        durability: Durability {
            survive: FailureDomain::Node,
            max_failures,
        },
        placement: Placement::default(),
    }
}

#[test]
fn an_identity_file_reads_back_and_every_change_is_seen() {
    let id = identity();
    let file = encode_identity(&id);
    assert_eq!(&file[..8], b"FOCALND1");
    let payload = postcard::to_stdvec(&(
        1u16, [1u8; 16], 300u64, [2u8; 16], [3u8; 16], [4u8; 16], [5u8; 16], [6u8; 16], [7u8; 16],
    ))
    .unwrap();
    assert_eq!(&file[40..], payload.as_slice());
    assert_eq!(&file[8..40], blake3::hash(&payload).as_bytes());
    assert_eq!(decode_identity(&file), Ok(id));
    for index in [0, 9, 45, file.len() - 1] {
        let mut changed = file.clone();
        changed[index] ^= 1;
        assert_eq!(decode_identity(&changed), Err(NodeError::Identity));
    }
    assert_eq!(decode_identity(&file[..39]), Err(NodeError::Identity));
    let mut longer = payload.clone();
    longer.push(0);
    let mut extended = b"FOCALND1".to_vec();
    extended.extend_from_slice(blake3::hash(&longer).as_bytes());
    extended.extend_from_slice(&longer);
    assert_eq!(decode_identity(&extended), Err(NodeError::Identity));
    let short = &payload[..payload.len() - 1];
    let mut cut = b"FOCALND1".to_vec();
    cut.extend_from_slice(blake3::hash(short).as_bytes());
    cut.extend_from_slice(short);
    let ends = "Hit the end of buffer, expected more data";
    let goes_on = "Found a varint that didn't terminate. Is the usize too big for this platform?";
    assert_eq!(
        decode_identity(&cut),
        Err(NodeError::Encoding(ends.into()))
    );
    let mut long_schema = payload.clone();
    long_schema.splice(0..1, [0x81, 0x80, 0x80, 0x01]);
    let mut long_node = payload.clone();
    long_node.splice(17..19, [0xff; 11]);
    let mut open_schema = payload.clone();
    open_schema.truncate(0);
    open_schema.push(0x81);
    let mut large_schema = payload.clone();
    large_schema.splice(0..1, [0xff, 0xff, 0x04]);
    for (wrong, told) in [
        (long_schema, goes_on),
        (long_node, goes_on),
        (large_schema, goes_on),
        (open_schema, ends),
        (payload[..18].to_vec(), ends),
    ] {
        let mut file = b"FOCALND1".to_vec();
        file.extend_from_slice(blake3::hash(&wrong).as_bytes());
        file.extend_from_slice(&wrong);
        assert_eq!(
            decode_identity(&file),
            Err(NodeError::Encoding(told.into()))
        );
    }
}

#[test]
fn every_identity_fits_its_file() {
    for node in [1, 127, 128, 16_383, 16_384, u64::from(u32::MAX), u64::MAX] {
        let mut id = identity();
        id.node = node;
        let file = encode_identity(&id);
        assert!(file.len() <= 165);
        assert_eq!(decode_identity(&file), Ok(id));
    }
    let mut id = identity();
    id.node = u64::MAX;
    assert_eq!(encode_identity(&id).len(), 163);
}

#[test]
fn a_zero_draw_is_drawn_again_and_a_failure_is_told_as_it_came() {
    assert_eq!(settled_draw(Ok([0; 16])), None);
    let mut drawn = [0; 16];
    drawn[15] = 1;
    assert_eq!(settled_draw(Ok(drawn)), Some(Ok(drawn)));
    assert_eq!(
        settled_draw(Err("no source".into())),
        Some(Err(NodeError::Entropy("no source".into())))
    );
    // A number is the front of its draw.
    assert_eq!(settled_number(Ok(drawn)), None);
    drawn[7] = 2;
    assert_eq!(settled_number(Ok(drawn)), Some(Ok(drawn)));
    assert_eq!(
        settled_number(Err(NodeError::Entropy("no source".into()))),
        Some(Err(NodeError::Entropy("no source".into())))
    );
}

#[test]
fn an_identity_is_whole() {
    assert!(identity().validate().is_ok());
    let mut id = identity();
    id.node = 0;
    assert_eq!(id.validate(), Err(NodeError::Identity));
    let mut id = identity();
    id.cluster = [0; 16];
    assert_eq!(id.validate(), Err(NodeError::Identity));
    let mut id = identity();
    id.schema = 2;
    assert_eq!(id.validate(), Err(NodeError::Identity));
}

#[test]
fn new_identities_are_drawn() {
    let a = new_identity().unwrap();
    let b = new_identity().unwrap();
    assert!(a.validate().is_ok());
    assert_ne!(a, b);
    assert_ne!(random_id().unwrap(), [0; 16]);
    let mut number = [0u8; 16];
    number[7] = 9;
    number[6] = 1;
    let made = identity_from(&Draws {
        number,
        cluster: [1; 16],
        tenant: [2; 16],
        session: [3; 16],
        issuer: [4; 16],
        worker: [5; 16],
        evaluator: [6; 16],
        root: [7; 16],
    });
    assert_eq!(made.node, 265);
}

#[test]
fn a_lost_policy_is_not_replaced() {
    let bytes = policy_bytes(&intent(1));
    assert_eq!(
        bytes,
        postcard::to_stdvec(&(0u32, 1u16, Vec::<String>::new(), Vec::<String>::new())).unwrap()
    );
    let names = |list: &[&str]| -> Vec<String> {
        list.iter().map(|name| name.to_string()).collect()
    };
    assert_eq!(
        install_policy(None, &intent(1), &names(&["IDENTITY"])),
        Ok(PolicyInstall {
            policy: true,
            marker: true
        })
    );
    assert_eq!(
        install_policy(Some(&bytes), &intent(1), &names(&["wal"])),
        Ok(PolicyInstall {
            policy: false,
            marker: true
        })
    );
    assert_eq!(
        install_policy(Some(&bytes), &intent(2), &names(&["POLICY.initialized"])),
        Err(NodeError::Identity)
    );
    for trace in [
        "POLICY.initialized",
        "wal",
        "content",
        "NETWORK",
        "NETWORK.initialized",
    ] {
        assert_eq!(
            install_policy(None, &intent(1), &names(&["IDENTITY", trace])),
            Err(NodeError::Identity)
        );
    }
}

/// A data directory: what it holds, by name.
type Dir = BTreeMap<String, Vec<u8>>;

/// Pin a policy in a data directory as a local owner does.
fn pin(dir: &mut Dir, intent: &PolicyIntent) -> Result<(), NodeError> {
    let names: Vec<String> = dir.keys().cloned().collect();
    let stored = dir.get(policy_file()).cloned();
    let install = install_policy(stored.as_deref(), intent, &names)?;
    if install.policy {
        dir.insert(policy_file().to_string(), policy_bytes(intent));
    }
    if install.marker {
        dir.insert(marker_file().to_string(), marker_text().as_bytes().to_vec());
    }
    Ok(())
}

#[test]
fn lost_policy_cannot_be_recreated_beside_an_existing_store() {
    for retain_marker in [false, true] {
        let mut dir = Dir::new();
        dir.insert("IDENTITY".into(), encode_identity(&identity()));
        pin(&mut dir, &intent(0)).unwrap();
        dir.insert("wal".into(), Vec::new());
        dir.remove("POLICY").unwrap();
        if !retain_marker {
            // Also protect deployments created before the marker existed.
            dir.remove("POLICY.initialized").unwrap();
        }
        assert!(matches!(
            pin(&mut dir, &intent(0)),
            Err(NodeError::Identity)
        ));
        assert!(!dir.contains_key("POLICY"));
        assert_eq!(decode_identity(&dir["IDENTITY"]).unwrap(), identity());
    }
}

#[test]
fn policy_installation_is_exact_and_survives_the_pre_store_crash_boundary() {
    let mut dir = Dir::new();
    let original = policy_bytes(&intent(0));
    dir.insert("POLICY".into(), original.clone());
    // The old format is accepted and gains the marker without rewriting it.
    pin(&mut dir, &intent(0)).unwrap();
    assert_eq!(dir["POLICY"], original);
    assert!(dir.contains_key("POLICY.initialized"));
    assert!(matches!(
        pin(&mut dir, &intent(1)),
        Err(NodeError::Identity)
    ));
    assert_eq!(dir["POLICY"], original);
    assert!(!dir.contains_key("wal"));
    dir.remove("POLICY").unwrap();
    assert!(matches!(
        pin(&mut dir, &intent(0)),
        Err(NodeError::Identity)
    ));
    assert!(!dir.contains_key("POLICY"));
    assert!(!dir.contains_key("wal"));
}

#[test]
fn a_local_owner_serves_no_network() {
    let mut settings = Settings::default();
    assert!(local_only(Ok(()), 0, &settings).is_ok());
    assert_eq!(
        local_only(Ok(()), 1, &settings),
        Err(NodeError::NetworkRequired)
    );
    assert_eq!(
        local_only(Err("x".into()), 1, &settings),
        Err(NodeError::Config("x".into()))
    );
    settings.node.listen = Some("0.0.0.0:1".into());
    assert_eq!(
        local_only(Ok(()), 0, &settings),
        Err(NodeError::NetworkRequired)
    );
    assert!(local_placement(false, Ok(())).is_ok());
    assert_eq!(
        local_placement(true, Err("x".into())),
        Err(NodeError::NetworkRequired)
    );
    assert_eq!(
        local_placement(false, Err("x".into())),
        Err(NodeError::Placement("x".into()))
    );
}

#[test]
fn node_errors_are_told() {
    for (error, text) in [
        (NodeError::Io("x".into()), "I/O: x"),
        (NodeError::Config("x".into()), "configuration: x"),
        (NodeError::Ledger("x".into()), "ledger: x"),
        (NodeError::Consensus("x".into()), "consensus: x"),
        (NodeError::Wal("x".into()), "WAL: x"),
        (NodeError::Content("x".into()), "content: x"),
        (NodeError::Encoding("x".into()), "encoding: x"),
        (NodeError::Canonical("x".into()), "canonical content: x"),
        (NodeError::Locked, "data directory already has a live owner"),
        (
            NodeError::Entropy("x".into()),
            "operating-system randomness failed: x",
        ),
        (
            NodeError::Domain("x".into()),
            "domain refused the operation: x",
        ),
        (
            NodeError::Placement("x".into()),
            "deployment cannot satisfy its configured guarantee: x",
        ),
    ] {
        assert_eq!(error.message(), text);
    }
}

#[test]
fn a_cut_falls_at_its_arrival() {
    assert_eq!(
        configured("before-propose:2"),
        Some((FaultSite::BeforePropose, 2))
    );
    assert_eq!(
        configured("after-commit-before-reply:+1"),
        Some((FaultSite::AfterCommitBeforeReply, 1))
    );
    for text in [
        "",
        "before-propose",
        "before-propose:",
        "before-propose:0",
        "elsewhere:1",
        "before-propose:1:1",
        "before-propose:-1",
    ] {
        assert_eq!(configured(text), None, "{text}");
    }
    assert_eq!(parse_number("4294967295"), Some(u32::MAX));
    assert_eq!(parse_number("4294967296"), None);
    assert_eq!(parse_number("0042"), Some(42));
    let mut counter = FaultCounter::new(configured("before-propose:2"));
    assert!(!counter.hit(FaultSite::BeforePropose));
    assert!(!counter.hit(FaultSite::AfterCommitBeforeReply));
    assert!(counter.hit(FaultSite::BeforePropose));
    assert!(!counter.hit(FaultSite::BeforePropose));
    assert_eq!(FaultSite::AfterCommitBeforeReply.index(), 1);
    assert_eq!(FaultSite::BeforePropose.name(), "before-propose");
}

#[test]
fn texts_are_written() {
    assert_eq!(hex(&[0, 0x1f, 0xab]), "001fab");
    assert_eq!(decimal(0), "0");
    assert_eq!(decimal(1_700_000_000), "1700000000");
    assert!(same_text("äb", "äb"));
    assert!(!same_text("a", "b"));
}

#[test]
fn sets_of_nodes_are_walked_in_order() {
    let a = BTreeSet::from([5, 1, 3]);
    let b = BTreeSet::from([3, 9]);
    assert_eq!(members(&a), vec![1, 3, 5]);
    assert_eq!(members(&union(&a, &b)), vec![1, 3, 5, 9]);
    assert_eq!(difference(&a, &b), vec![1, 5]);
    assert!(!is_subset(&a, &b));
    assert!(is_subset(&BTreeSet::from([3]), &b));
    assert!(same_set(&a, &BTreeSet::from([1, 3, 5])));
}
