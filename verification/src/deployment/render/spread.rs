//! How a rendered deployment spreads: how many nodes run where, which pods are
//! invited, and which files say so.
use super::kubernetes::{
    all_distinct, assets_of, host_pods, image_of, indented, indented_body, is_image, is_quantity,
    missing_of, node_sets, pods, rendered, request_refusal, secret_of,
    set_files, set_resources, set_text, zone_refusal, zone_sets, KubernetesRequest, SetModel,
};
use super::{is_label, AssetsModel, FileModel, MissingModel};
use crate::config::{texts, FailureDomain, Settings};
use crate::deployment::facts::name_of;
use crate::text::decimal_text;
use vstd::prelude::*;

verus! {

/// The nodes the first `n` sets run.
pub open spec fn nodes_of(sets: Seq<SetModel>, n: int) -> int
    decreases n,
{
    if n <= 0 {
        0
    } else {
        nodes_of(sets, n - 1) + sets[n - 1].replicas
    }
}

/// The nodes the first `n` sets run in a zone.
pub open spec fn nodes_in(sets: Seq<SetModel>, n: int, zone: Seq<char>) -> int
    decreases n,
{
    if n <= 0 {
        0
    } else {
        nodes_in(sets, n - 1, zone) + (if sets[n - 1].zone == Some(zone) {
            sets[n - 1].replicas as int
        } else {
            0int
        })
    }
}

/// The nodes a zone is owed: an even part, and one more for the first zones
/// while some are left over.
pub open spec fn owed(nodes: nat, zones: nat, zone: int) -> int {
    nodes / zones + (if zone < nodes % zones {
        1int
    } else {
        0int
    })
}

/// The nodes the first `n` zones are owed.
pub open spec fn owed_to(nodes: nat, zones: nat, n: int) -> int
    decreases n,
{
    if n <= 0 {
        0
    } else {
        owed_to(nodes, zones, n - 1) + owed(nodes, zones, n - 1)
    }
}

proof fn lemma_owed(nodes: nat, zones: nat, n: int)
    requires
        0 < zones,
        0 <= n <= zones,
    ensures
        owed_to(nodes, zones, n) == n * (nodes / zones) + (if n < nodes % zones {
            n
        } else {
            (nodes % zones) as int
        }),
        n == zones ==> owed_to(nodes, zones, n) == nodes,
    decreases n,
{
    if n > 0 {
        lemma_owed(nodes, zones, n - 1);
        let q = nodes / zones;
        assert(n * q == (n - 1) * q + q) by (nonlinear_arith);
    } else {
        assert(0 * (nodes / zones) == 0) by (nonlinear_arith);
    }
    if n == zones {
        assert(nodes == zones * (nodes / zones) + nodes % zones && nodes % zones < zones)
            by (nonlinear_arith)
            requires
                zones > 0,
        ;
    }
}

proof fn lemma_push(sets: Seq<SetModel>, set: SetModel, zone: Seq<char>)
    ensures
        nodes_of(sets.push(set), sets.push(set).len() as int) == nodes_of(sets, sets.len() as int)
            + set.replicas,
        nodes_in(sets.push(set), sets.push(set).len() as int, zone) == nodes_in(
            sets,
            sets.len() as int,
            zone,
        ) + (if set.zone == Some(zone) {
            set.replicas as int
        } else {
            0int
        }),
{
    assert(sets.push(set)[sets.len() as int] == set);
    lemma_push_all(sets, set, sets.len() as int, zone);
}

proof fn lemma_push_all(sets: Seq<SetModel>, set: SetModel, n: int, zone: Seq<char>)
    requires
        0 <= n <= sets.len(),
    ensures
        nodes_of(sets.push(set), n) == nodes_of(sets, n),
        nodes_in(sets.push(set), n, zone) == nodes_in(sets, n, zone),
    decreases n,
{
    if n > 0 {
        lemma_push_all(sets, set, n - 1, zone);
        assert(sets.push(set)[n - 1] == sets[n - 1]);
    }
}

proof fn lemma_owed_fits(nodes: nat, zones: nat, i: int)
    requires
        0 < zones,
        1 <= nodes <= 1024,
        0 <= i < zones,
    ensures
        0 <= owed(nodes, zones, i) <= 1024,
        owed(nodes, zones, 0) >= 1,
{
    assert(nodes / zones <= nodes) by (nonlinear_arith)
        requires
            zones > 0,
    ;
    assert(nodes == zones * (nodes / zones) + nodes % zones) by (nonlinear_arith)
        requires
            zones > 0,
    ;
    if nodes / zones == 0 {
        assert(zones * (nodes / zones) == 0) by (nonlinear_arith)
            requires
                nodes / zones == 0,
        ;
    }
    if nodes / zones == nodes && i < nodes % zones {
        assert(zones * (nodes / zones) >= nodes) by (nonlinear_arith)
            requires
                zones > 0,
                nodes / zones == nodes,
        ;
    }
}

proof fn lemma_zones(zones: Seq<Seq<char>>, nodes: nat, n: int, k: int)
    requires
        0 < zones.len(),
        1 <= nodes <= 1024,
        0 <= n <= zones.len(),
        0 <= k < zones.len(),
        all_distinct(zones),
    ensures
        ({
            let sets = zone_sets(zones, nodes, n);
            &&& nodes_of(sets, sets.len() as int) == owed_to(nodes, zones.len(), n)
            &&& nodes_in(sets, sets.len() as int, zones[k]) == (if k < n {
                owed(nodes, zones.len(), k)
            } else {
                0int
            })
            &&& n >= 1 ==> sets.len() >= 1 && sets[0] == (SetModel {
                name: "focal-founder"@,
                founder: true,
                replicas: 1,
                zone: Some(zones[0]),
            })
            &&& forall|i: int|
                0 < i < sets.len() ==> !(#[trigger] sets[i]).founder && sets[i].replicas > 0 && (
                sets[i].zone matches Some(zone) && sets[i].name == "focal-"@ + zone)
        }),
    decreases n,
{
    if n > 0 {
        let before = zone_sets(zones, nodes, n - 1);
        let zone = zones[n - 1];
        let part = owed(nodes, zones.len(), n - 1);
        lemma_zones(zones, nodes, n - 1, k);
        lemma_owed_fits(nodes, zones.len(), n - 1);
        if k != n - 1 {
            assert(zones[k] != zones[n - 1]) by {
                if k < n - 1 {
                    assert(zones[k] != zones[n - 1]);
                } else {
                    assert(zones[n - 1] != zones[k]);
                }
            }
        }
        let host = SetModel {
            name: "focal-"@ + zone,
            founder: false,
            replicas: if n == 1 {
                (part - 1) as u32
            } else {
                part as u32
            },
            zone: Some(zone),
        };
        if n == 1 {
            assert(before.len() == 0);
            let founder = SetModel {
                name: "focal-founder"@,
                founder: true,
                replicas: 1,
                zone: Some(zone),
            };
            lemma_push(before, founder, zones[k]);
            lemma_push(before.push(founder), host, zones[k]);
        } else {
            lemma_push(before, host, zones[k]);
        }
    }
}

/// Every node that was asked for runs somewhere: the replicas of all sets add up
/// to the nodes. Each zone runs its even part of them, the founder counted in
/// the first, so two zones never differ by more than one.
pub proof fn every_node_runs_in_its_zone(zones: Seq<Seq<char>>, nodes: nat, k: int, other: int)
    requires
        0 < zones.len(),
        1 <= nodes <= 1024,
        all_distinct(zones),
        0 <= k < zones.len(),
        0 <= other < zones.len(),
    ensures
        ({
            let sets = zone_sets(zones, nodes, zones.len() as int);
            let n = sets.len() as int;
            &&& nodes_of(sets, n) == nodes
            &&& nodes_in(sets, n, zones[k]) == nodes / zones.len() + (if k < nodes % zones.len() {
                1int
            } else {
                0int
            })
            &&& nodes_in(sets, n, zones[k]) <= nodes_in(sets, n, zones[other]) + 1
            &&& k < other ==> nodes_in(sets, n, zones[k]) >= nodes_in(sets, n, zones[other])
        }),
{
    lemma_zones(zones, nodes, zones.len() as int, k);
    lemma_zones(zones, nodes, zones.len() as int, other);
    lemma_owed(nodes, zones.len(), zones.len() as int);
}

/// There is one founder, the first node of the first zone; every other set holds
/// the hosts of one zone, is named by it, and is not empty.
pub proof fn there_is_one_founder(zones: Seq<Seq<char>>, nodes: nat, i: int)
    requires
        0 < zones.len(),
        1 <= nodes <= 1024,
        all_distinct(zones),
    ensures
        ({
            let sets = zone_sets(zones, nodes, zones.len() as int);
            &&& sets.len() >= 1
            &&& sets[0].founder && sets[0].replicas == 1 && sets[0].zone == Some(zones[0])
                && sets[0].name == "focal-founder"@
            &&& 0 < i < sets.len() ==> !sets[i].founder && sets[i].replicas > 0 && (
            sets[i].zone matches Some(zone) && sets[i].name == "focal-"@ + zone)
        }),
{
    lemma_zones(zones, nodes, zones.len() as int, 0);
}

/// A deployment that survives nodes runs one founder and every other node as a
/// host, all where the configuration says.
pub proof fn every_node_runs_without_zones(zone: Option<Seq<char>>, nodes: nat)
    requires
        1 <= nodes <= 1024,
    ensures
        ({
            let sets = node_sets(zone, nodes);
            &&& nodes_of(sets, sets.len() as int) == nodes
            &&& sets[0] == (SetModel { name: "focal-founder"@, founder: true, replicas: 1, zone })
            &&& nodes > 1 ==> sets.len() == 2 && sets[1] == (SetModel {
                name: "focal-hosts"@,
                founder: false,
                replicas: (nodes - 1) as u32,
                zone,
            })
            &&& nodes == 1 ==> sets.len() == 1
        }),
{
    let sets = node_sets(zone, nodes);
    assert(nodes_of(sets, 0) == 0);
    assert(nodes_of(sets, 1) == 1);
    if nodes > 1 {
        assert(nodes_of(sets, 2) == nodes_of(sets, 1) + sets[1].replicas);
    }
}

/// A set's pods are numbered from nothing: as many as it has replicas, each named
/// by its set and its number.
pub proof fn pods_are_numbered(name: Seq<char>, n: int, k: int)
    requires
        0 <= k < n,
    ensures
        pods(name, n).len() == n,
        pods(name, n)[k] == name + "-"@ + decimal_text(k as nat),
    decreases n,
{
    if n > 1 {
        if k < n - 1 {
            pods_are_numbered(name, n - 1, k);
        } else {
            pods_are_numbered(name, n - 1, 0);
        }
    } else {
        assert(pods(name, 0).len() == 0);
    }
}

/// Every host pod is invited, each in its set's place, and no founder is.
pub proof fn every_host_is_invited(sets: Seq<SetModel>, n: int, i: int, k: int)
    requires
        0 <= i < n <= sets.len(),
        0 <= k < sets[i].replicas,
        !sets[i].founder,
    ensures
        ({
            let at = host_pods(sets, i).len() + k;
            &&& at < host_pods(sets, n).len()
            &&& host_pods(sets, n)[at] == sets[i].name + "-"@ + decimal_text(k as nat)
        }),
    decreases n,
{
    pods_are_numbered(sets[i].name, sets[i].replicas as int, k);
    if i < n - 1 {
        every_host_is_invited(sets, n - 1, i, k);
    }
}

/// As many invitations are issued as there are nodes that do not found.
pub proof fn as_many_are_invited_as_do_not_found(sets: Seq<SetModel>, n: int)
    requires
        1 <= n <= sets.len(),
        sets[0].founder,
        sets[0].replicas == 1,
        forall|i: int| 0 < i < n ==> !(#[trigger] sets[i]).founder,
    ensures
        host_pods(sets, n).len() == nodes_of(sets, n) - 1,
    decreases n,
{
    if n == 1 {
        assert(host_pods(sets, 0).len() == 0);
        assert(nodes_of(sets, 0) == 0);
    } else {
        as_many_are_invited_as_do_not_found(sets, n - 1);
        let set = sets[n - 1];
        if set.replicas > 0 {
            pods_are_numbered(set.name, set.replicas as int, 0);
        } else {
            assert(pods(set.name, 0).len() == 0);
        }
    }
}

/// Every set has its own manifest, in its place and under its name, and the
/// kustomization names it.
pub proof fn every_set_has_its_manifest(
    sets: Seq<SetModel>,
    n: int,
    request: KubernetesRequest,
    image: Seq<char>,
    secret: Seq<char>,
    survive: FailureDomain,
    i: int,
)
    requires
        0 <= i < n <= sets.len(),
    ensures
        set_files(sets, n, request, image, secret, survive).len() == n,
        set_files(sets, n, request, image, secret, survive)[i] == (FileModel {
            name: "statefulset-"@ + sets[i].name + ".yaml"@,
            content: set_text(sets[i], request, image, secret, survive),
        }),
        set_resources(sets, n) == set_resources(sets, n - 1) + ("  - "@ + ("statefulset-"@
            + sets[n - 1].name + ".yaml"@) + "\n"@),
    decreases n,
{
    if i < n - 1 {
        every_set_has_its_manifest(sets, n - 1, request, image, secret, survive, i);
    } else if n > 1 {
        every_set_has_its_manifest(sets, n - 1, request, image, secret, survive, 0);
    } else {
        assert(set_files(sets, 0, request, image, secret, survive).len() == 0);
    }
}

/// What is rendered is a map of configurations, a service, a manifest for each
/// set, the budgets, the kustomization and the script, under these names.
pub proof fn a_render_has_these_files(
    settings: Settings,
    request: KubernetesRequest,
    version: Seq<char>,
    sets: Seq<SetModel>,
    i: int,
)
    requires
        0 <= i < sets.len(),
    ensures
        ({
            let files = assets_of(settings, request, version, sets).files;
            let n = sets.len() as int;
            &&& files.len() == n + 5
            &&& files[0].name == "configmap.yaml"@
            &&& files[1].name == "service.yaml"@
            &&& files[2 + i] == (FileModel {
                name: "statefulset-"@ + sets[i].name + ".yaml"@,
                content: set_text(
                    sets[i],
                    request,
                    match request.image {
                        Some(image) => image@,
                        None => "focal:"@ + version,
                    },
                    match request.secret {
                        Some(secret) => secret@,
                        None => "focal-invitations"@,
                    },
                    settings.durability.survive,
                ),
            })
            &&& files[n + 2].name == "pdb.yaml"@
            &&& files[n + 3].name == "kustomization.yaml"@
            &&& files[n + 4].name == "invitations.sh"@
        }),
{
    every_set_has_its_manifest(
        sets,
        sets.len() as int,
        request,
        image_of(request, version),
        secret_of(request),
        settings.durability.survive,
        i,
    );
}

/// What the operator still has to supply is exactly what the request left out:
/// the image, the storage class, and the invitations of every host.
pub proof fn what_is_left_out_is_missing(
    request: KubernetesRequest,
    version: Seq<char>,
    hosts: Seq<Seq<char>>,
)
    ensures
        ({
            let missing = missing_of(request, version, hosts);
            let image = if request.image is None {
                1int
            } else {
                0int
            };
            let class = if request.storage_class is None {
                1int
            } else {
                0int
            };
            let secret = if request.secret is None {
                1int
            } else {
                0int
            };
            &&& missing.len() == image + class + secret
            &&& request.image is None ==> missing[0] == (MissingModel::Image {
                placeholder: "focal:"@ + version,
            })
            &&& request.storage_class is None ==> missing[image] == MissingModel::StorageClass
            &&& request.secret is None ==> missing[image + class] == (
            MissingModel::InvitationSecret {
                secret: "focal-invitations"@,
                invitations: hosts,
                script: "invitations.sh"@,
            })
        }),
{
}

/// A zone's name is refused exactly where it is no label or longer than forty
/// characters.
pub proof fn every_zone_is_checked(zones: Seq<Seq<char>>, from: int)
    requires
        0 <= from,
    ensures
        zone_refusal(zones, from) is None <==> (forall|i: int|
            from <= i < zones.len() ==> is_label(#[trigger] zones[i]) && zones[i].len() <= 40),
    decreases zones.len() - from,
{
    if from < zones.len() {
        every_zone_is_checked(zones, from + 1);
    }
}

/// A request is taken exactly where its names are names, its port is one, its
/// volume is a quantity, its zones differ and its image is a reference.
pub proof fn a_request_is_taken_where_it_is_sound(request: KubernetesRequest)
    ensures
        request_refusal(request) is None <==> {
            &&& is_label(request.namespace@)
            &&& request.port != 0
            &&& is_quantity(request.volume@)
            &&& forall|i: int|
                0 <= i < texts(request.zones@).len() ==> is_label(
                    #[trigger] texts(request.zones@)[i],
                ) && texts(request.zones@)[i].len() <= 40
            &&& all_distinct(texts(request.zones@))
            &&& request.secret matches Some(name) ==> is_label(name@)
            &&& request.storage_class matches Some(name) ==> is_label(name@)
            &&& request.image matches Some(image) ==> is_image(image@)
        },
{
    every_zone_is_checked(texts(request.zones@), 0);
}

/// The nodes a deployment runs: as many as were asked for, or the fewest that
/// survive its failures. Fewer than twice the failures and one, or more than a
/// thousand and twenty-four, are refused, as is a region's survival, and zones
/// where nodes are survived.
pub proof fn a_deployment_runs_enough_nodes(
    settings: Settings,
    request: KubernetesRequest,
    version: Seq<char>,
)
    requires
        request_refusal(request) is None,
    ensures
        ({
            let failures = settings.durability.max_failures as int;
            let nodes = match request.nodes {
                Some(nodes) => nodes as int,
                None => 2 * failures + 1,
            };
            let zones = request.zones@.len();
            let out = rendered(settings, request, version);
            let counted = 2 * failures + 1 <= nodes <= 1024;
            &&& !counted ==> out is Err
            &&& settings.durability.survive is Region ==> out is Err
            &&& counted && settings.durability.survive is Node ==> (out is Ok <==> zones == 0)
            &&& counted && settings.durability.survive is Node && zones == 0 ==> out == Ok::<
                AssetsModel,
                Seq<char>,
            >(
                assets_of(
                    settings,
                    request,
                    version,
                    node_sets(name_of(settings.topology.zone), nodes as nat),
                ),
            )
            &&& counted && settings.durability.survive is Zone && zones >= 2 * failures + 1
                ==> out == Ok::<AssetsModel, Seq<char>>(
                assets_of(
                    settings,
                    request,
                    version,
                    zone_sets(texts(request.zones@), nodes as nat, zones as int),
                ),
            )
            &&& counted && settings.durability.survive is Zone && zones < 2 * failures + 1 ==> (
            out matches Ok(assets) && assets.files.len() == 0 && assets.missing == seq![
                MissingModel::Zones { needed: (2 * failures + 1) as nat, given: zones },
            ])
        }),
{
    assert(texts(request.zones@).len() == request.zones@.len());
}

/// Indenting goes line by line: a line is set in by four spaces and ended, and
/// what follows it is indented by itself.
pub proof fn lines_are_indented_one_by_one(line: Seq<char>, rest: Seq<char>)
    requires
        forall|i: int| 0 <= i < line.len() ==> #[trigger] line[i] != '\n',
        line.len() > 0,
    ensures
        indented(line) == "    "@ + line + seq!['\n'],
        indented(line + seq!['\n'] + rest) == "    "@ + line + seq!['\n'] + indented(rest),
{
    lemma_line(line);
    let ended = line.push('\n');
    assert(line + seq!['\n'] =~= ended);
    assert(ended.drop_last() =~= line);
    assert(indented_body(ended) =~= ("    "@ + line).push('\n'));
    assert(("    "@ + line).push('\n') =~= "    "@ + line + seq!['\n']);
    lemma_body(ended, rest);
    if rest.len() > 0 {
        assert((ended + rest).last() == rest.last());
    } else {
        assert(ended + rest =~= ended);
    }
    assert(indented(ended + rest) =~= indented_body(ended) + indented(rest));
}

proof fn lemma_line(line: Seq<char>)
    requires
        forall|i: int| 0 <= i < line.len() ==> #[trigger] line[i] != '\n',
        line.len() > 0,
    ensures
        indented_body(line) == "    "@ + line,
    decreases line.len(),
{
    reveal_with_fuel(indented_body, 2);
    let front = line.drop_last();
    if front.len() > 0 {
        lemma_line(front);
        assert(front.last() == line[front.len() - 1]);
        assert(indented_body(front) + Seq::<char>::empty() =~= indented_body(front));
        assert(("    "@ + front).push(line.last()) =~= "    "@ + line);
    } else {
        assert(front =~= Seq::<char>::empty());
        assert(indented_body(front) == Seq::<char>::empty());
        assert((Seq::<char>::empty() + "    "@).push(line.last()) =~= "    "@ + line);
    }
}

proof fn lemma_body(ended: Seq<char>, rest: Seq<char>)
    requires
        ended.len() > 0,
        ended.last() == '\n',
    ensures
        indented_body(ended + rest) == indented_body(ended) + indented_body(rest),
    decreases rest.len(),
{
    if rest.len() == 0 {
        assert(ended + rest =~= ended);
        assert(indented_body(ended) + Seq::<char>::empty() =~= indented_body(ended));
    } else {
        let front = rest.drop_last();
        lemma_body(ended, front);
        assert((ended + rest).drop_last() =~= ended + front);
        assert((ended + rest).last() == rest.last());
        if front.len() > 0 {
            assert((ended + front).last() == front.last());
        } else {
            assert(ended + front =~= ended);
        }
        let gap = if front.len() == 0 || front.last() == '\n' {
            "    "@
        } else {
            Seq::<char>::empty()
        };
        assert((indented_body(ended) + indented_body(front) + gap).push(rest.last())
            =~= indented_body(ended) + (indented_body(front) + gap).push(rest.last()));
    }
}

} // verus!
