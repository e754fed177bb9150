use focal_node::config::policy::PolicyIntent;
use focal_node::config::{Durability, FailureDomain, Placement, Settings};
use focal_node::deployment::render::kubernetes::{self, KubernetesRequest};
use focal_node::deployment::render::systemd::{self, SystemdRequest};
use focal_node::deployment::render::{
    config_yaml, list, valid_label, yaml_string, ConfigNode, MissingInput, RenderedAssets,
};
use focal_node::deployment::{parse_survive, DeploymentError};

fn settings(survive: FailureDomain, max_failures: u16) -> Settings {
    let mut settings = Settings::default();
    settings.durability.survive = survive;
    settings.durability.max_failures = max_failures;
    settings.topology.region = Some("eu-a".into());
    settings
}

fn file<'a>(assets: &'a RenderedAssets, name: &str) -> &'a str {
    &assets
        .files
        .iter()
        .find(|file| file.name == name)
        .unwrap_or_else(|| panic!("{name} rendered"))
        .content
}

/// Read back a rendered configuration: its sections, two spaces of
/// indentation, double-quoted text and bare words.
fn read_back(text: &str) -> Settings {
    let mut settings = Settings::default();
    let mut section = String::new();
    for line in text.lines() {
        let (key, value) = line.split_once(':').unwrap();
        let value = value.trim().trim_matches('"').to_string();
        if !line.starts_with(' ') {
            section = key.to_string();
            if key == "version" {
                assert_eq!(value, "1");
            }
            continue;
        }
        match (section.as_str(), key.trim()) {
            ("node", "listen") => settings.node.listen = Some(value),
            ("node", "advertise") => settings.node.advertise = Some(value),
            ("node", "metrics_listen") => settings.node.metrics_listen = Some(value),
            ("topology", "region") => settings.topology.region = Some(value),
            ("topology", "zone") => settings.topology.zone = Some(value),
            ("durability", "survive") => {
                settings.durability.survive = parse_survive(&value).unwrap()
            }
            ("durability", "max_failures") => {
                settings.durability.max_failures = value.parse().unwrap()
            }
            other => panic!("{other:?}"),
        }
    }
    settings
}

#[test]
fn node_survival_renders_a_founder_and_a_host_set_and_names_what_is_missing() {
    let settings = settings(FailureDomain::Node, 1);
    let assets = kubernetes::render(&settings, &KubernetesRequest::default(), "0.1.0", Ok(())).unwrap();
    let names: Vec<&str> = assets.files.iter().map(|file| file.name.as_str()).collect();
    assert_eq!(
        names,
        [
            "configmap.yaml",
            "service.yaml",
            "statefulset-focal-founder.yaml",
            "statefulset-focal-hosts.yaml",
            "pdb.yaml",
            "kustomization.yaml",
            "invitations.sh"
        ]
    );
    assert!(
        matches!(
            assets.missing.as_slice(),
            [
                MissingInput::Image { placeholder },
                MissingInput::StorageClass,
                MissingInput::InvitationSecret { secret, invitations, .. }
            ] if placeholder == "focal:0.1.0" && secret == "focal-invitations" && invitations == &["focal-hosts-0", "focal-hosts-1"]
        ),
        "{:?}",
        assets.missing
    );
    let hosts = file(&assets, "statefulset-focal-hosts.yaml");
    assert!(hosts.contains("replicas: 2"));
    assert!(hosts.contains("--invite-file"));
    assert!(hosts.contains("secretName: focal-invitations\n            defaultMode: 288\n"));
    assert!(hosts.contains("topologySpreadConstraints"));
    assert!(!hosts.contains("storageClassName"));
    assert!(hosts.contains("image: focal:0.1.0"));
    let founder = file(&assets, "statefulset-focal-founder.yaml");
    assert!(founder.contains("replicas: 1"));
    assert!(!founder.contains("--invite-file"));
    assert!(founder.contains("\"$(POD_NAME).focal.$(POD_NAMESPACE).svc.cluster.local:7443\""));
    assert!(founder.contains("prepare-volume"));
    assert!(founder.contains("\"--check\", \"alive\""));
    assert!(file(&assets, "pdb.yaml").contains("maxUnavailable: 1"));
    assert!(file(&assets, "service.yaml").contains("clusterIP: None"));
    assert!(file(&assets, "service.yaml").contains("protocol: UDP"));
    assert!(file(&assets, "invitations.sh").contains("--output - > \"$host.invite\""));
    // The configuration a set ships is the requested policy and reads back.
    let map = file(&assets, "configmap.yaml");
    assert!(map.contains("  focal-hosts.yaml: |\n    version: 1\n    topology:\n      region: \"eu-a\"\n    durability:\n      survive: node\n      max_failures: 1\n"));
    let shipped = read_back(
        "version: 1\ntopology:\n  region: \"eu-a\"\ndurability:\n  survive: node\n  max_failures: 1\n",
    );
    assert_eq!(shipped.policy_intent(), settings.policy_intent());
    // The same inputs render the same bytes.
    let again = kubernetes::render(&settings, &KubernetesRequest::default(), "0.1.0", Ok(())).unwrap();
    assert_eq!(again, assets);
}

#[test]
fn zone_survival_needs_its_zones_then_places_one_set_per_zone_with_affinity() {
    let settings = settings(FailureDomain::Zone, 1);
    let short = kubernetes::render(
        &settings,
        &KubernetesRequest {
            zones: vec!["a".into(), "b".into()],
            ..KubernetesRequest::default()
        },
        "0.1.0",
        Ok(()),
    )
    .unwrap();
    assert!(short.files.is_empty());
    assert_eq!(
        short.missing,
        vec![MissingInput::Zones {
            needed: 3,
            given: 2
        }]
    );
    let assets = kubernetes::render(
        &settings,
        &KubernetesRequest {
            zones: vec!["a".into(), "b".into(), "c".into()],
            image: Some("registry.example/focal:0.1.0".into()),
            storage_class: Some("fast".into()),
            secret: Some("invites".into()),
            nodes: Some(4),
            ..KubernetesRequest::default()
        },
        "0.1.0",
        Ok(()),
    )
    .unwrap();
    assert!(assets.missing.is_empty(), "{:?}", assets.missing);
    let names: Vec<&str> = assets.files.iter().map(|file| file.name.as_str()).collect();
    assert_eq!(
        names,
        [
            "configmap.yaml",
            "service.yaml",
            "statefulset-focal-founder.yaml",
            "statefulset-focal-a.yaml",
            "statefulset-focal-b.yaml",
            "statefulset-focal-c.yaml",
            "pdb.yaml",
            "kustomization.yaml",
            "invitations.sh"
        ]
    );
    // Four nodes over three zones: the founder plus one host in `a`.
    assert!(file(&assets, "statefulset-focal-a.yaml").contains("replicas: 1"));
    assert!(file(&assets, "statefulset-focal-founder.yaml").contains("- \"a\""));
    assert!(file(&assets, "statefulset-focal-b.yaml").contains("topology.kubernetes.io/zone"));
    assert!(file(&assets, "statefulset-focal-b.yaml").contains("storageClassName: fast"));
    assert!(file(&assets, "statefulset-focal-b.yaml").contains("secretName: invites"));
    assert!(file(&assets, "configmap.yaml").contains("  focal-c.yaml: |\n    version: 1\n    topology:\n      region: \"eu-a\"\n      zone: \"c\"\n"));
    assert!(file(&assets, "invitations.sh").contains("HOSTS=\"focal-a-0 focal-b-0 focal-c-0\""));
}

#[test]
fn region_survival_and_bad_inputs_are_refused_by_name() {
    let region = kubernetes::render(
        &settings(FailureDomain::Region, 1),
        &KubernetesRequest::default(),
        "0.1.0",
        Ok(()),
    )
    .unwrap_err();
    assert!(region.message().contains("one deployment per region"));
    for (request, needle) in [
        (
            KubernetesRequest {
                namespace: "Focal".into(),
                ..KubernetesRequest::default()
            },
            "--namespace",
        ),
        (
            KubernetesRequest {
                nodes: Some(2),
                ..KubernetesRequest::default()
            },
            "at least 3 nodes",
        ),
        (
            KubernetesRequest {
                zones: vec!["a".into()],
                ..KubernetesRequest::default()
            },
            "--zone applies",
        ),
        (
            KubernetesRequest {
                volume: "20 Gi".into(),
                ..KubernetesRequest::default()
            },
            "--volume",
        ),
    ] {
        let error =
            kubernetes::render(&settings(FailureDomain::Node, 1), &request, "0.1.0", Ok(())).unwrap_err();
        assert!(error.message().contains(needle), "{}", error.message());
    }
}

#[test]
fn the_systemd_unit_runs_the_node_under_its_user_and_ships_the_configuration() {
    let mut settings = settings(FailureDomain::Node, 0);
    let no_address = systemd::render(&settings, &SystemdRequest::default(), Ok(())).unwrap();
    assert_eq!(no_address.missing, vec![MissingInput::Advertise]);
    settings.node.advertise = Some("host-1.example:7443".into());
    settings.node.metrics_listen = Some("127.0.0.1:9464".into());
    let assets = systemd::render(
        &settings,
        &SystemdRequest {
            invite_file: Some("/etc/focal/join.invite".into()),
            ..SystemdRequest::default()
        },
        Ok(()),
    )
    .unwrap();
    assert!(assets.missing.is_empty());
    let unit = file(&assets, "focal.service");
    assert!(unit.contains(
        "ExecStart=/usr/local/bin/focal --config /etc/focal/focal.yaml --data-dir /var/lib/focal start --invite-file /etc/focal/join.invite\n"
    ));
    assert!(unit.contains("User=focal\nGroup=focal\n"));
    assert!(unit.contains("TimeoutStopSec=45\n"));
    assert!(unit.contains("StateDirectory=focal\n"));
    assert!(unit.contains("ConfigurationDirectory=focal\n"));
    assert!(unit.contains("CapabilityBoundingSet=\n"));
    let config = file(&assets, "focal.yaml");
    assert_eq!(
        config,
        "version: 1\nnode:\n  advertise: \"host-1.example:7443\"\n  metrics_listen: \"127.0.0.1:9464\"\ntopology:\n  region: \"eu-a\"\ndurability:\n  survive: node\n  max_failures: 0\n"
    );
    let shipped = read_back(config);
    assert_eq!(
        shipped.node.advertise.as_deref(),
        Some("host-1.example:7443")
    );
    assert_eq!(shipped.policy_intent(), settings.policy_intent());
    // A data directory outside /var/lib is a read-write path with a note.
    let custom = systemd::render(
        &settings,
        &SystemdRequest {
            data_dir: "/srv/focal".into(),
            ..SystemdRequest::default()
        },
        Ok(()),
    )
    .unwrap();
    assert!(file(&custom, "focal.service").contains("ReadWritePaths=/srv/focal\n"));
    assert!(
        custom
            .notes
            .iter()
            .any(|note| note.contains("prepare-volume"))
    );
    let bad = systemd::render(
        &settings,
        &SystemdRequest {
            user: "Focal User".into(),
            ..SystemdRequest::default()
        },
        Ok(()),
    )
    .unwrap_err();
    assert!(bad.message().contains("--user"));
}

#[test]
fn scalars_are_quoted_and_escaped() {
    assert_eq!(yaml_string("eu-a"), "\"eu-a\"");
    assert_eq!(yaml_string("a\"b\\c"), "\"a\\\"b\\\\c\"");
    assert_eq!(list(&["a".to_string(), "b".to_string()]), "\"a\", \"b\"");
    assert_eq!(list(&[]), "");
}

#[test]
fn labels_are_lower_case_and_bounded() {
    assert!(valid_label("focal-1"));
    assert!(!valid_label(""));
    assert!(!valid_label("-focal"));
    assert!(!valid_label("focal-"));
    assert!(!valid_label("Focal"));
    assert!(!valid_label(&"a".repeat(64)));
    assert!(valid_label(&"a".repeat(63)));
}

#[test]
fn a_configuration_names_the_node_it_is_for() {
    let mut settings = settings(FailureDomain::Zone, 1);
    settings.placement.residency = vec!["eu".into()];
    let text = config_yaml(
        &settings,
        &ConfigNode {
            listen: Some("0.0.0.0:7443"),
            advertise: None,
            metrics_listen: None,
            region: Some("eu-a"),
            zone: Some("b"),
        },
    );
    assert!(text.starts_with("version: 1\nnode:\n  listen: \"0.0.0.0:7443\"\n"));
    assert!(text.contains("  zone: \"b\"\n"));
    assert!(text.contains("residency"));
}

#[test]
fn a_bad_zone_is_named_as_it_was_given() {
    let request = KubernetesRequest {
        namespace: "ops".into(),
        port: 9000,
        ..KubernetesRequest::default()
    };
    let assets = kubernetes::render(&settings(FailureDomain::Node, 1), &request, "9", Ok(())).unwrap();
    assert!(file(&assets, "service.yaml").contains("namespace: ops\n"));
    assert!(file(&assets, "service.yaml").contains("9000"));
    let bad = KubernetesRequest {
        zones: vec!["a\"b".into(), "c".into(), "d".into()],
        ..KubernetesRequest::default()
    };
    let error = kubernetes::render(&settings(FailureDomain::Zone, 1), &bad, "9", Ok(())).unwrap_err();
    assert_eq!(
        error.message(),
        "render: --zone \"a\\\"b\" must be a DNS label of at most 40 bytes"
    );
}

#[test]
fn a_policy_is_known_by_its_bytes() {
    let intent = PolicyIntent {
        durability: Durability {
            survive: FailureDomain::Zone,
            max_failures: 2,
        },
        placement: Placement {
            residency: vec!["eu".into()],
            home_regions: vec![],
        },
    };
    let bytes = postcard::to_stdvec(&(1u32, 2u16, vec!["eu".to_string()], Vec::<String>::new()));
    assert_eq!(
        intent.hash(),
        *blake3::hash(&bytes.unwrap()).as_bytes()
    );
    assert!(intent.same(&intent.duplicate()));
}

#[test]
fn settings_that_are_not_valid_are_refused_first() {
    let mut request = KubernetesRequest::default();
    request.port = 0;
    let why = "placement: too many regions".to_string();
    let settings = settings(FailureDomain::Node, 1);
    assert_eq!(
        kubernetes::render(&settings, &request, "9", Err(why.clone())),
        Err(DeploymentError::Config(why.clone()))
    );
    assert_eq!(
        systemd::render(&settings, &SystemdRequest::default(), Err(why.clone())),
        Err(DeploymentError::Config(why))
    );
}
