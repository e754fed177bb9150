//! Kubernetes as packaging: a headless service for stable names, one founder
//! StatefulSet and one host StatefulSet per failure domain, each pod with its
//! own volume and its own enrollment, a disruption budget per role, probes
//! that ask the node rather than the socket, and a configuration per set. The
//! manifests carry secret references, never invitations; the invitations are
//! issued by the running founder and installed through the operator's own
//! tooling.
use super::{
    borrowed, config_of, config_yaml, is_label, valid_label, yaml_string, yaml_text, AssetsModel,
    ConfigNode, FileModel, MissingInput, MissingModel, RenderedAssets,
};
use crate::config::{copy_texts, texts, FailureDomain, Settings};
use crate::deployment::facts::{copy_name, name_of};
use crate::deployment::{survive_name, survive_text, DeploymentError};
use crate::text::{decimal, decimal_text, same_text};
use vstd::prelude::*;
use vstd::string::StringExecFns;

verus! {

/// What a Kubernetes render needs beyond the configuration.
#[derive(Debug, Clone, PartialEq, Eq)]
pub struct KubernetesRequest {
    pub namespace: String,
    /// The image every pod runs; absent, the local tag is a placeholder.
    pub image: Option<String>,
    pub storage_class: Option<String>,
    /// The secret holding one invitation per host pod (`<pod>.invite`).
    pub secret: Option<String>,
    /// The zones a zone-surviving deployment spreads over, in order; the
    /// founder takes the first.
    pub zones: Vec<String>,
    /// Nodes in total; default the fewest the durability needs (`2f+1`).
    pub nodes: Option<u32>,
    /// Each pod's volume request.
    pub volume: String,
    /// The QUIC port every pod listens and advertises on.
    pub port: u16,
}

impl Default for KubernetesRequest {
    fn default() -> (request: Self)
        ensures
            request.namespace@ == "focal"@,
            request.image is None,
            request.storage_class is None,
            request.secret is None,
            request.zones@.len() == 0,
            request.nodes is None,
            request.volume@ == "20Gi"@,
            request.port == 7443,
    {
        KubernetesRequest {
            namespace: String::from_str("focal"),
            image: None,
            storage_class: None,
            secret: None,
            zones: Vec::new(),
            nodes: None,
            volume: String::from_str("20Gi"),
            port: 7443,
        }
    }
}

/// One StatefulSet the render places.
#[derive(Debug, Clone, PartialEq, Eq)]
pub struct SetPlan {
    pub name: String,
    pub founder: bool,
    pub replicas: u32,
    pub zone: Option<String>,
}

/// A set as characters.
pub struct SetModel {
    pub name: Seq<char>,
    pub founder: bool,
    pub replicas: u32,
    pub zone: Option<Seq<char>>,
}

impl View for SetPlan {
    type V = SetModel;

    open spec fn view(&self) -> SetModel {
        SetModel {
            name: self.name@,
            founder: self.founder,
            replicas: self.replicas,
            zone: name_of(self.zone),
        }
    }
}

/// The sets as characters.
pub open spec fn set_models(sets: Seq<SetPlan>) -> Seq<SetModel> {
    Seq::new(sets.len(), |i: int| sets[i]@)
}

/// The headless service.
pub open spec fn service_text(namespace: Seq<char>, port: u16) -> Seq<char> {
    "apiVersion: v1\nkind: Service\nmetadata:\n  name: focal\n  namespace: "@ + namespace + "\n  labels:\n    app.kubernetes.io/name: focal\n    app.kubernetes.io/managed-by: focal-deployment-render\nspec:\n  clusterIP: None\n  publishNotReadyAddresses: true\n  selector:\n    app.kubernetes.io/name: focal\n  ports:\n    - name: peer\n      port: "@ + decimal_text(port as nat) + "\n      targetPort: peer\n      protocol: UDP\n"@
}

/// The headless service that gives pods their names.
pub fn service(namespace: &str, port: u16) -> (out: String)
    ensures
        out@ == service_text(namespace@, port),
{
    let port_text = decimal(port as u64);
    let mut out = String::from_str("apiVersion: v1\nkind: Service\nmetadata:\n  name: focal\n  namespace: ");
    out.append(namespace);
    out.append("\n  labels:\n    app.kubernetes.io/name: focal\n    app.kubernetes.io/managed-by: focal-deployment-render\nspec:\n  clusterIP: None\n  publishNotReadyAddresses: true\n  selector:\n    app.kubernetes.io/name: focal\n  ports:\n    - name: peer\n      port: ");
    out.append(port_text.as_str());
    out.append("\n      targetPort: peer\n      protocol: UDP\n");
    out
}

/// The disruption budgets.
pub open spec fn budgets_text(namespace: Seq<char>, failures: nat) -> Seq<char> {
    "apiVersion: policy/v1\nkind: PodDisruptionBudget\nmetadata:\n  name: focal-founder\n  namespace: "@ + namespace + "\n  labels:\n    app.kubernetes.io/name: focal\n    app.kubernetes.io/managed-by: focal-deployment-render\nspec:\n  maxUnavailable: 0\n  selector:\n    matchLabels:\n      app.kubernetes.io/name: focal\n      app.kubernetes.io/component: founder\n---\napiVersion: policy/v1\nkind: PodDisruptionBudget\nmetadata:\n  name: focal-hosts\n  namespace: "@ + namespace + "\n  labels:\n    app.kubernetes.io/name: focal\n    app.kubernetes.io/managed-by: focal-deployment-render\nspec:\n  maxUnavailable: "@ + decimal_text(failures) + "\n  selector:\n    matchLabels:\n      app.kubernetes.io/name: focal\n      app.kubernetes.io/component: host\n"@
}

/// One disruption budget per role: the founder always runs, as many hosts as
/// failures are survived may be down.
pub fn budgets(namespace: &str, failures: usize) -> (out: String)
    ensures
        out@ == budgets_text(namespace@, failures as nat),
{
    let count = decimal(failures as u64);
    let mut out = String::from_str("apiVersion: policy/v1\nkind: PodDisruptionBudget\nmetadata:\n  name: focal-founder\n  namespace: ");
    out.append(namespace);
    out.append("\n  labels:\n    app.kubernetes.io/name: focal\n    app.kubernetes.io/managed-by: focal-deployment-render\nspec:\n  maxUnavailable: 0\n  selector:\n    matchLabels:\n      app.kubernetes.io/name: focal\n      app.kubernetes.io/component: founder\n---\napiVersion: policy/v1\nkind: PodDisruptionBudget\nmetadata:\n  name: focal-hosts\n  namespace: ");
    out.append(namespace);
    out.append("\n  labels:\n    app.kubernetes.io/name: focal\n    app.kubernetes.io/managed-by: focal-deployment-render\nspec:\n  maxUnavailable: ");
    out.append(count.as_str());
    out.append("\n  selector:\n    matchLabels:\n      app.kubernetes.io/name: focal\n      app.kubernetes.io/component: host\n");
    out
}

/// Names with a space between each two.
pub open spec fn spaced(names: Seq<Seq<char>>) -> Seq<char>
    decreases names.len(),
{
    if names.len() == 0 {
        Seq::empty()
    } else if names.len() == 1 {
        names[0]
    } else {
        spaced(names.drop_last()) + " "@ + names.last()
    }
}

fn join_spaced(names: &Vec<String>) -> (out: String)
    ensures
        out@ == spaced(texts(names@)),
{
    let mut out = String::new();
    let ghost all = texts(names@);
    let mut i: usize = 0;
    assert(out@ =~= spaced(all.take(0)));
    while i < names.len()
        invariant
            i <= names.len(),
            all == texts(names@),
            out@ == spaced(all.take(i as int)),
        decreases names.len() - i,
    {
        proof {
            assert(all.take(i + 1).drop_last() =~= all.take(i as int));
            assert(all.take(i + 1).last() == names@[i as int]@);
        }
        if i > 0 {
            out.append(" ");
        }
        out.append(names[i].as_str());
        assert(out@ =~= spaced(all.take(i + 1)));
        i += 1;
    }
    assert(all.take(all.len() as int) =~= all);
    out
}

/// The script that issues and installs the invitations.
pub open spec fn script_text(
    namespace: Seq<char>,
    secret: Seq<char>,
    hosts: Seq<Seq<char>>,
) -> Seq<char> {
    let head = "#!/bin/sh\n# Issue one invitation per host pod from the running founder and install\n# them as the secret the host StatefulSets mount (24 §24). Run where\n# kubectl reaches the cluster, once focal-founder-0 is Ready. Invitations\n# are one-use and expire after an hour; rerun for a pod that never joined.\nset -eu\n"@ + "NAMESPACE=\""@ + namespace + "\"\nSECRET=\""@ + secret + "\""@ + "\n"@;
    if hosts.len() == 0 {
        head + "echo \"no host pods to invite\"\nexit 0\n"@
    } else {
        head + "HOSTS=\""@ + spaced(hosts) + "\"\nFILES=\"\"\nfor host in $HOSTS; do\n  kubectl -n \"$NAMESPACE\" exec focal-founder-0 -c focal -- /focal --data-dir /var/lib/focal cluster invite --node \"$host\" --output - > \"$host.invite\"\n  FILES=\"$FILES --from-file=$host.invite=$host.invite\"\ndone\nkubectl -n \"$NAMESPACE\" delete secret \"$SECRET\" --ignore-not-found\n# shellcheck disable=SC2086\nkubectl -n \"$NAMESPACE\" create secret generic \"$SECRET\" $FILES\nrm -f -- *.invite\n"@
    }
}

/// The script that issues one invitation per host pod from the running
/// founder and installs them as the secret the hosts mount.
pub fn invitations_script(namespace: &str, secret: &str, hosts: &Vec<String>) -> (out: String)
    ensures
        out@ == script_text(namespace@, secret@, texts(hosts@)),
{
    let mut out = String::from_str("#!/bin/sh\n# Issue one invitation per host pod from the running founder and install\n# them as the secret the host StatefulSets mount (24 §24). Run where\n# kubectl reaches the cluster, once focal-founder-0 is Ready. Invitations\n# are one-use and expire after an hour; rerun for a pod that never joined.\nset -eu\n");
    out.append("NAMESPACE=\"");
    out.append(namespace);
    out.append("\"\nSECRET=\"");
    out.append(secret);
    out.append("\"");
    out.append("\n");
    assert(texts(hosts@).len() == hosts@.len());
    if hosts.len() == 0 {
        out.append("echo \"no host pods to invite\"\nexit 0\n");
        return out;
    }
    out.append("HOSTS=\"");
    out.append(join_spaced(hosts).as_str());
    out.append("\"\nFILES=\"\"\nfor host in $HOSTS; do\n  kubectl -n \"$NAMESPACE\" exec focal-founder-0 -c focal -- /focal --data-dir /var/lib/focal cluster invite --node \"$host\" --output - > \"$host.invite\"\n  FILES=\"$FILES --from-file=$host.invite=$host.invite\"\ndone\nkubectl -n \"$NAMESPACE\" delete secret \"$SECRET\" --ignore-not-found\n# shellcheck disable=SC2086\nkubectl -n \"$NAMESPACE\" create secret generic \"$SECRET\" $FILES\nrm -f -- *.invite\n");
    out
}

/// The role a set's pods have.
pub open spec fn component_text(founder: bool) -> Seq<char> {
    if founder {
        "founder"@
    } else {
        "host"@
    }
}

/// The head of a StatefulSet.
pub open spec fn set_head(set: SetModel, request: KubernetesRequest) -> Seq<char> {
    "apiVersion: apps/v1\nkind: StatefulSet\nmetadata:\n  name: "@ + set.name + "\n  namespace: "@ + request.namespace@ + "\n  labels:\n    app.kubernetes.io/name: focal\n    app.kubernetes.io/component: "@ + component_text(set.founder) + "\n    app.kubernetes.io/managed-by: focal-deployment-render\n    focal.dev/set: "@ + set.name + "\n  annotations:\n    focal.dev/qualification: unqualified-bootstrap-allocation\nspec:\n  serviceName: focal\n  replicas: "@ + decimal_text(set.replicas as nat) + "\n  podManagementPolicy: OrderedReady\n  selector:\n    matchLabels:\n      app.kubernetes.io/name: focal\n      focal.dev/set: "@ + set.name + "\n  template:\n    metadata:\n      labels:\n        app.kubernetes.io/name: focal\n        app.kubernetes.io/component: "@ + component_text(set.founder) + "\n        focal.dev/set: "@ + set.name + "\n    spec:\n      terminationGracePeriodSeconds: 45\n      securityContext:\n        runAsNonRoot: true\n        runAsUser: 65532\n        runAsGroup: 65532\n        fsGroup: 65532\n        seccompProfile:\n          type: RuntimeDefault\n"@
}

/// The zone a set's pods are bound to.
pub open spec fn set_affinity(zone: Option<Seq<char>>) -> Seq<char> {
    match zone {
        Some(zone) => "      affinity:\n        nodeAffinity:\n          requiredDuringSchedulingIgnoredDuringExecution:\n            nodeSelectorTerms:\n              - matchExpressions:\n                  - key: topology.kubernetes.io/zone\n                    operator: In\n                    values:\n                      - "@ + yaml_text(zone) + "\n"@,
        None => Seq::empty(),
    }
}

/// How the scheduler spreads a set whose pods are the failure domain.
pub open spec fn set_spread(set: SetModel, survive: FailureDomain) -> Seq<char> {
    if survive == FailureDomain::Node && set.replicas > 1 {
        "      topologySpreadConstraints:\n        - maxSkew: 1\n          topologyKey: kubernetes.io/hostname\n          whenUnsatisfiable: DoNotSchedule\n          labelSelector:\n            matchLabels:\n              app.kubernetes.io/name: focal\n"@
    } else {
        Seq::empty()
    }
}

/// The containers of a set: the volume is given to the node's user by the
/// same image, privileged only for that step.
pub open spec fn set_containers(request: KubernetesRequest, image: Seq<char>) -> Seq<char> {
    "      initContainers:\n        - name: prepare-volume\n          image: "@ + image + "\n          command: [\"/focal\"]\n          args: [\"--data-dir\", \"/var/lib/focal\", \"prepare-volume\", \"--owner\", \"65532:65532\"]\n          securityContext:\n            runAsUser: 0\n            runAsNonRoot: false\n            allowPrivilegeEscalation: false\n            readOnlyRootFilesystem: true\n            capabilities:\n              drop: [\"ALL\"]\n              add: [\"CHOWN\", \"FOWNER\", \"DAC_OVERRIDE\"]\n          volumeMounts:\n            - name: data\n              mountPath: /var/lib/focal\n      containers:\n        - name: focal\n          image: "@ + image + "\n          command: [\"/focal\"]\n          args:\n            - \"--config\"\n            - \"/etc/focal/focal.yaml\"\n            - \"--data-dir\"\n            - \"/var/lib/focal\"\n            - \"start\"\n            - \"--listen\"\n            - \"0.0.0.0:"@ + decimal_text(request.port as nat) + "\"\n            - \"--advertise\"\n            - \"$(POD_NAME).focal.$(POD_NAMESPACE).svc.cluster.local:"@ + decimal_text(request.port as nat) + "\"\n"@
}

/// The arguments a host takes beyond the founder's.
pub open spec fn set_invite(founder: bool) -> Seq<char> {
    if founder {
        Seq::empty()
    } else {
        "            - \"--invite-file\"\n            - \"/etc/focal/invitations/$(POD_NAME).invite\"\n"@
    }
}

/// Environment, ports, limits, probes and mounts.
pub open spec fn set_runtime(request: KubernetesRequest) -> Seq<char> {
    "          env:\n            - name: POD_NAME\n              valueFrom:\n                fieldRef:\n                  fieldPath: metadata.name\n            - name: POD_NAMESPACE\n              valueFrom:\n                fieldRef:\n                  fieldPath: metadata.namespace\n          ports:\n            - name: peer\n              containerPort: "@ + decimal_text(request.port as nat) + "\n              protocol: UDP\n          securityContext:\n            allowPrivilegeEscalation: false\n            readOnlyRootFilesystem: true\n            capabilities:\n              drop: [\"ALL\"]\n          resources:\n            requests:\n              cpu: 500m\n              memory: 1Gi\n            limits:\n              memory: 2Gi\n          startupProbe:\n            exec:\n              command: [\"/focal\", \"--data-dir\", \"/var/lib/focal\", \"cluster\", \"node\", \"probe\", \"--check\", \"alive\"]\n            periodSeconds: 5\n            failureThreshold: 60\n          livenessProbe:\n            exec:\n              command: [\"/focal\", \"--data-dir\", \"/var/lib/focal\", \"cluster\", \"node\", \"probe\", \"--check\", \"alive\"]\n            periodSeconds: 10\n            failureThreshold: 6\n          readinessProbe:\n            exec:\n              command: [\"/focal\", \"--data-dir\", \"/var/lib/focal\", \"cluster\", \"node\", \"probe\", \"--check\", \"alive\"]\n            periodSeconds: 5\n            failureThreshold: 3\n          volumeMounts:\n            - name: data\n              mountPath: /var/lib/focal\n            - name: config\n              mountPath: /etc/focal/focal.yaml\n              subPath: focal.yaml\n              readOnly: true\n"@
}

/// The mount of a host's invitation.
pub open spec fn set_invite_mount(founder: bool) -> Seq<char> {
    if founder {
        Seq::empty()
    } else {
        "            - name: invitations\n              mountPath: /etc/focal/invitations\n              readOnly: true\n"@
    }
}

/// The volume of the configuration.
pub open spec fn set_volumes(set: SetModel) -> Seq<char> {
    "      volumes:\n        - name: config\n          configMap:\n            name: focal-config\n            items:\n              - key: "@ + set.name + ".yaml\n                path: focal.yaml\n"@
}

/// The volume of a host's invitation.
pub open spec fn set_invite_volume(founder: bool, secret: Seq<char>) -> Seq<char> {
    if founder {
        Seq::empty()
    } else {
        "        - name: invitations\n          secret:\n            secretName: "@ + secret + "\n            defaultMode: 288\n"@
    }
}

/// The claim of a pod's own volume.
pub open spec fn set_claim(request: KubernetesRequest) -> Seq<char> {
    "  volumeClaimTemplates:\n    - metadata:\n        name: data\n      spec:\n        accessModes: [\"ReadWriteOnce\"]\n"@ + (match request.storage_class {
        Some(class) => "        storageClassName: "@ + class@ + "\n"@,
        None => Seq::empty(),
    }) + ("        resources:\n          requests:\n            storage: "@ + request.volume@ + "\n"@)
}

/// A StatefulSet.
pub open spec fn set_text(
    set: SetModel,
    request: KubernetesRequest,
    image: Seq<char>,
    secret: Seq<char>,
    survive: FailureDomain,
) -> Seq<char> {
    set_head(set, request) + set_affinity(set.zone) + set_spread(set, survive) + set_containers(
        request,
        image,
    ) + set_invite(set.founder) + set_runtime(request) + set_invite_mount(set.founder)
        + set_volumes(set) + set_invite_volume(set.founder, secret) + set_claim(request)
}

fn write_head(set: &SetPlan, request: &KubernetesRequest) -> (out: String)
    ensures
        out@ == set_head(set@, *request),
{
    let component = if set.founder {
        "founder"
    } else {
        "host"
    };
    let replicas = decimal(set.replicas as u64);
    let mut out = String::from_str("apiVersion: apps/v1\nkind: StatefulSet\nmetadata:\n  name: ");
    out.append(set.name.as_str());
    out.append("\n  namespace: ");
    out.append(request.namespace.as_str());
    out.append("\n  labels:\n    app.kubernetes.io/name: focal\n    app.kubernetes.io/component: ");
    out.append(component);
    out.append("\n    app.kubernetes.io/managed-by: focal-deployment-render\n    focal.dev/set: ");
    out.append(set.name.as_str());
    out.append("\n  annotations:\n    focal.dev/qualification: unqualified-bootstrap-allocation\nspec:\n  serviceName: focal\n  replicas: ");
    out.append(replicas.as_str());
    out.append("\n  podManagementPolicy: OrderedReady\n  selector:\n    matchLabels:\n      app.kubernetes.io/name: focal\n      focal.dev/set: ");
    out.append(set.name.as_str());
    out.append("\n  template:\n    metadata:\n      labels:\n        app.kubernetes.io/name: focal\n        app.kubernetes.io/component: ");
    out.append(component);
    out.append("\n        focal.dev/set: ");
    out.append(set.name.as_str());
    out.append("\n    spec:\n      terminationGracePeriodSeconds: 45\n      securityContext:\n        runAsNonRoot: true\n        runAsUser: 65532\n        runAsGroup: 65532\n        fsGroup: 65532\n        seccompProfile:\n          type: RuntimeDefault\n");
    out
}

fn write_containers(request: &KubernetesRequest, image: &str) -> (out: String)
    ensures
        out@ == set_containers(*request, image@),
{
    let port = decimal(request.port as u64);
    let mut out = String::from_str("      initContainers:\n        - name: prepare-volume\n          image: ");
    out.append(image);
    out.append("\n          command: [\"/focal\"]\n          args: [\"--data-dir\", \"/var/lib/focal\", \"prepare-volume\", \"--owner\", \"65532:65532\"]\n          securityContext:\n            runAsUser: 0\n            runAsNonRoot: false\n            allowPrivilegeEscalation: false\n            readOnlyRootFilesystem: true\n            capabilities:\n              drop: [\"ALL\"]\n              add: [\"CHOWN\", \"FOWNER\", \"DAC_OVERRIDE\"]\n          volumeMounts:\n            - name: data\n              mountPath: /var/lib/focal\n      containers:\n        - name: focal\n          image: ");
    out.append(image);
    out.append("\n          command: [\"/focal\"]\n          args:\n            - \"--config\"\n            - \"/etc/focal/focal.yaml\"\n            - \"--data-dir\"\n            - \"/var/lib/focal\"\n            - \"start\"\n            - \"--listen\"\n            - \"0.0.0.0:");
    out.append(port.as_str());
    out.append("\"\n            - \"--advertise\"\n            - \"$(POD_NAME).focal.$(POD_NAMESPACE).svc.cluster.local:");
    out.append(port.as_str());
    out.append("\"\n");
    out
}

fn write_runtime(request: &KubernetesRequest) -> (out: String)
    ensures
        out@ == set_runtime(*request),
{
    let port = decimal(request.port as u64);
    let mut out = String::from_str("          env:\n            - name: POD_NAME\n              valueFrom:\n                fieldRef:\n                  fieldPath: metadata.name\n            - name: POD_NAMESPACE\n              valueFrom:\n                fieldRef:\n                  fieldPath: metadata.namespace\n          ports:\n            - name: peer\n              containerPort: ");
    out.append(port.as_str());
    out.append("\n              protocol: UDP\n          securityContext:\n            allowPrivilegeEscalation: false\n            readOnlyRootFilesystem: true\n            capabilities:\n              drop: [\"ALL\"]\n          resources:\n            requests:\n              cpu: 500m\n              memory: 1Gi\n            limits:\n              memory: 2Gi\n          startupProbe:\n            exec:\n              command: [\"/focal\", \"--data-dir\", \"/var/lib/focal\", \"cluster\", \"node\", \"probe\", \"--check\", \"alive\"]\n            periodSeconds: 5\n            failureThreshold: 60\n          livenessProbe:\n            exec:\n              command: [\"/focal\", \"--data-dir\", \"/var/lib/focal\", \"cluster\", \"node\", \"probe\", \"--check\", \"alive\"]\n            periodSeconds: 10\n            failureThreshold: 6\n          readinessProbe:\n            exec:\n              command: [\"/focal\", \"--data-dir\", \"/var/lib/focal\", \"cluster\", \"node\", \"probe\", \"--check\", \"alive\"]\n            periodSeconds: 5\n            failureThreshold: 3\n          volumeMounts:\n            - name: data\n              mountPath: /var/lib/focal\n            - name: config\n              mountPath: /etc/focal/focal.yaml\n              subPath: focal.yaml\n              readOnly: true\n");
    out
}

fn write_volumes(set: &SetPlan, secret: &str) -> (out: String)
    ensures
        out@ == set_volumes(set@) + set_invite_volume(set.founder, secret@),
{
    let mut out = String::from_str("      volumes:\n        - name: config\n          configMap:\n            name: focal-config\n            items:\n              - key: ");
    out.append(set.name.as_str());
    out.append(".yaml\n                path: focal.yaml\n");
    if set.founder {
        assert(out@ =~= out@ + Seq::<char>::empty());
        return out;
    }
    let mut invite = String::from_str("        - name: invitations\n          secret:\n            secretName: ");
    invite.append(secret);
    invite.append("\n            defaultMode: 288\n");
    out.append(invite.as_str());
    out
}

fn write_claim(request: &KubernetesRequest) -> (out: String)
    ensures
        out@ == set_claim(*request),
{
    let class = match &request.storage_class {
        Some(class) => String::from_str("        storageClassName: ").concat(
            class.as_str(),
        ).concat("\n"),
        None => String::new(),
    };
    let mut storage = String::from_str("        resources:\n          requests:\n            storage: ");
    storage.append(request.volume.as_str());
    storage.append("\n");
    String::from_str("  volumeClaimTemplates:\n    - metadata:\n        name: data\n      spec:\n        accessModes: [\"ReadWriteOnce\"]\n").concat(class.as_str()).concat(storage.as_str())
}

/// The StatefulSet of a plan's set.
pub fn stateful_set(
    set: &SetPlan,
    request: &KubernetesRequest,
    image: &str,
    secret: &str,
    survive: FailureDomain,
) -> (out: String)
    ensures
        out@ == set_text(set@, *request, image@, secret@, survive),
{
    let affinity = match &set.zone {
        Some(zone) => String::from_str("      affinity:\n        nodeAffinity:\n          requiredDuringSchedulingIgnoredDuringExecution:\n            nodeSelectorTerms:\n              - matchExpressions:\n                  - key: topology.kubernetes.io/zone\n                    operator: In\n                    values:\n                      - ").concat(
            yaml_string(zone.as_str()).as_str(),
        ).concat("\n"),
        None => String::new(),
    };
    let spread = if survive == FailureDomain::Node && set.replicas > 1 {
        String::from_str("      topologySpreadConstraints:\n        - maxSkew: 1\n          topologyKey: kubernetes.io/hostname\n          whenUnsatisfiable: DoNotSchedule\n          labelSelector:\n            matchLabels:\n              app.kubernetes.io/name: focal\n")
    } else {
        String::new()
    };
    let invite = if set.founder {
        String::new()
    } else {
        String::from_str("            - \"--invite-file\"\n            - \"/etc/focal/invitations/$(POD_NAME).invite\"\n")
    };
    let mount = if set.founder {
        String::new()
    } else {
        String::from_str("            - name: invitations\n              mountPath: /etc/focal/invitations\n              readOnly: true\n")
    };
    let mut out = write_head(set, request);
    out.append(affinity.as_str());
    out.append(spread.as_str());
    out.append(write_containers(request, image).as_str());
    out.append(invite.as_str());
    out.append(write_runtime(request).as_str());
    out.append(mount.as_str());
    let ghost before = out@;
    out.append(write_volumes(set, secret).as_str());
    assert(out@ =~= before + set_volumes(set@) + set_invite_volume(set.founder, secret@));
    out.append(write_claim(request).as_str());
    out
}


/// What `format!("{:?}")` writes for a text.
pub uninterp spec fn debug_text(text: Seq<char>) -> Seq<char>;

/// `std::fmt::Debug` of a `str`: the text quoted and escaped, by the text
/// alone.
#[verifier::external_body]
fn debug_string(text: &str) -> (out: String)
    ensures
        out@ == debug_text(text@),
{
    format!("{text:?}")
}

/// A character of a Kubernetes quantity.
pub open spec fn quantity_char(c: char) -> bool {
    ('a' <= c && c <= 'z') || ('A' <= c && c <= 'Z') || ('0' <= c && c <= '9') || c == '.'
}

/// A Kubernetes quantity such as `20Gi`.
pub open spec fn is_quantity(text: Seq<char>) -> bool {
    &&& 1 <= text.len() <= 32
    &&& forall|i: int| 0 <= i < text.len() ==> quantity_char(#[trigger] text[i])
}

fn valid_quantity(text: &str) -> (valid: bool)
    ensures
        valid == is_quantity(text@),
{
    let mut count: usize = 0;
    let mut valid = true;
    for c in it: text.chars()
        invariant
            it.seq() == text@,
            count == (if it.index() <= 33 {
                it.index() as int
            } else {
                33
            }),
            valid == (forall|i: int| 0 <= i < it.index() ==> quantity_char(#[trigger] text@[i])),
    {
        assert(c == text@[it.index() as int]);
        if !(('a' <= c && c <= 'z') || ('A' <= c && c <= 'Z') || ('0' <= c && c <= '9') || c
            == '.') {
            valid = false;
        }
        if count < 33 {
            count += 1;
        }
    }
    valid && count >= 1 && count <= 32
}

/// An image reference, as far as it is checked.
pub open spec fn is_image(text: Seq<char>) -> bool {
    &&& text.len() > 0
    &&& vstd::utf8::encode_utf8(text).len() <= 255
    &&& forall|i: int|
        0 <= i < text.len() ==> (#[trigger] text[i]) != ' ' && text[i] != '\n' && text[i] != '"'
}

fn valid_image(text: &str) -> (valid: bool)
    ensures
        valid == is_image(text@),
{
    if text.is_empty() || text.as_bytes().len() > 255 {
        return false;
    }
    let mut valid = true;
    for c in it: text.chars()
        invariant
            it.seq() == text@,
            valid == (forall|i: int|
                0 <= i < it.index() ==> (#[trigger] text@[i]) != ' ' && text@[i] != '\n'
                    && text@[i] != '"'),
    {
        assert(c == text@[it.index() as int]);
        if c == ' ' || c == '\n' || c == '"' {
            valid = false;
        }
    }
    valid
}

/// A zone's name.
pub open spec fn is_zone(text: Seq<char>) -> bool {
    is_label(text) && text.len() <= 40
}

fn valid_zone(text: &str) -> (valid: bool)
    ensures
        valid == is_zone(text@),
{
    valid_label(text) && text.unicode_len() <= 40
}

/// The refusal of the first zone, from `from` on, that is no zone's name.
pub open spec fn zone_refusal(zones: Seq<Seq<char>>, from: int) -> Option<Seq<char>>
    decreases zones.len() - from,
{
    if from < 0 || from >= zones.len() {
        None
    } else if !is_zone(zones[from]) {
        Some("--zone "@ + debug_text(zones[from]) + " must be a DNS label of at most 40 bytes"@)
    } else {
        zone_refusal(zones, from + 1)
    }
}

/// No two names are equal.
pub open spec fn all_distinct(names: Seq<Seq<char>>) -> bool {
    forall|i: int, j: int| 0 <= i < j < names.len() ==> #[trigger] names[i] != #[trigger] names[j]
}

fn distinct_zones(names: &Vec<String>) -> (distinct: bool)
    ensures
        distinct == all_distinct(texts(names@)),
{
    let ghost all = texts(names@);
    let mut j: usize = 0;
    while j < names.len()
        invariant
            j <= names.len(),
            all == texts(names@),
            forall|a: int, b: int| 0 <= a < b < j ==> #[trigger] all[a] != #[trigger] all[b],
        decreases names.len() - j,
    {
        let mut i: usize = 0;
        while i < j
            invariant
                i <= j < names.len(),
                all == texts(names@),
                forall|a: int| 0 <= a < i ==> #[trigger] all[a] != all[j as int],
            decreases j - i,
        {
            if same_text(names[i].as_str(), names[j].as_str()) {
                assert(all[i as int] == all[j as int]);
                return false;
            }
            assert(all[i as int] != all[j as int]);
            i += 1;
        }
        j += 1;
    }
    true
}

/// Whether an optional name is absent or a DNS label.
pub open spec fn label_or_none(name: Option<Seq<char>>) -> bool {
    name matches Some(text) ==> is_label(text)
}

/// Why a request is refused before anything is planned.
pub open spec fn request_refusal(request: KubernetesRequest) -> Option<Seq<char>> {
    if !is_label(request.namespace@) {
        Some("--namespace must be a DNS label of at most 63 bytes"@)
    } else if request.port == 0 {
        Some("--port must be nonzero"@)
    } else if !is_quantity(request.volume@) {
        Some("--volume must be a Kubernetes quantity such as 20Gi"@)
    } else if zone_refusal(texts(request.zones@), 0) is Some {
        zone_refusal(texts(request.zones@), 0)
    } else if !all_distinct(texts(request.zones@)) {
        Some("--zone names must be distinct"@)
    } else if !label_or_none(name_of(request.secret)) {
        Some("--secret must be a DNS label of at most 63 bytes"@)
    } else if !label_or_none(name_of(request.storage_class)) {
        Some("--storage-class must be a DNS label of at most 63 bytes"@)
    } else if name_of(request.image) matches Some(image) && !is_image(image) {
        Some("--image is not an image reference"@)
    } else {
        None
    }
}

fn refuse(text: &str) -> (error: DeploymentError)
    ensures
        error matches DeploymentError::Render(why) && why@ == text@,
{
    DeploymentError::Render(String::from_str(text))
}

fn check_zones(request: &KubernetesRequest) -> (done: Result<(), DeploymentError>)
    ensures
        match zone_refusal(texts(request.zones@), 0) {
            Some(text) => done matches Err(DeploymentError::Render(why)) && why@ == text,
            None => done is Ok,
        },
{
    let ghost all = texts(request.zones@);
    let mut i: usize = 0;
    while i < request.zones.len()
        invariant
            i <= request.zones.len(),
            all == texts(request.zones@),
            zone_refusal(all, 0) == zone_refusal(all, i as int),
        decreases request.zones.len() - i,
    {
        let zone = &request.zones[i];
        assert(all[i as int] == zone@);
        if !valid_zone(zone.as_str()) {
            return Err(
                DeploymentError::Render(
                    String::from_str("--zone ").concat(
                        debug_string(zone.as_str()).as_str(),
                    ).concat(" must be a DNS label of at most 40 bytes"),
                ),
            );
        }
        i += 1;
    }
    Ok(())
}

fn check_request(request: &KubernetesRequest) -> (done: Result<(), DeploymentError>)
    ensures
        match request_refusal(*request) {
            Some(text) => done matches Err(DeploymentError::Render(why)) && why@ == text,
            None => done is Ok,
        },
{
    if !valid_label(request.namespace.as_str()) {
        return Err(refuse("--namespace must be a DNS label of at most 63 bytes"));
    }
    if request.port == 0 {
        return Err(refuse("--port must be nonzero"));
    }
    if !valid_quantity(request.volume.as_str()) {
        return Err(refuse("--volume must be a Kubernetes quantity such as 20Gi"));
    }
    check_zones(request)?;
    if !distinct_zones(&request.zones) {
        return Err(refuse("--zone names must be distinct"));
    }
    if let Some(secret) = &request.secret {
        if !valid_label(secret.as_str()) {
            return Err(refuse("--secret must be a DNS label of at most 63 bytes"));
        }
    }
    if let Some(class) = &request.storage_class {
        if !valid_label(class.as_str()) {
            return Err(refuse("--storage-class must be a DNS label of at most 63 bytes"));
        }
    }
    if let Some(image) = &request.image {
        if !valid_image(image.as_str()) {
            return Err(refuse("--image is not an image reference"));
        }
    }
    Ok(())
}

/// The fewest nodes (and zones) that survive some failures.
pub open spec fn fewest(failures: nat) -> nat {
    2 * failures + 1
}

/// The nodes a request asks for.
pub open spec fn node_count(settings: Settings, request: KubernetesRequest) -> nat {
    match request.nodes {
        Some(nodes) => nodes as nat,
        None => fewest(settings.durability.max_failures as nat),
    }
}

/// The refusal of a node count.
pub open spec fn count_text(failures: nat, survive: FailureDomain) -> Seq<char> {
    "surviving "@ + decimal_text(failures) + " "@ + survive_text(survive) + " failure(s) needs at least "@ + decimal_text(fewest(failures)) + " nodes (at most 1024)"@
}

/// The nodes one of several zones takes: an even share, the remainder going
/// to the first zones.
pub open spec fn share(nodes: nat, zones: nat, index: nat) -> nat {
    nodes / zones + (if index < nodes % zones {
        1nat
    } else {
        0nat
    })
}

/// The sets of a deployment that survives nodes: a founder and its hosts.
pub open spec fn node_sets(zone: Option<Seq<char>>, nodes: nat) -> Seq<SetModel> {
    let founder = SetModel { name: "focal-founder"@, founder: true, replicas: 1, zone };
    if nodes > 1 {
        seq![
            founder,
            SetModel {
                name: "focal-hosts"@,
                founder: false,
                replicas: (nodes - 1) as u32,
                zone,
            },
        ]
    } else {
        seq![founder]
    }
}

/// The host set of a zone.
pub open spec fn zone_set(zone: Seq<char>, replicas: nat) -> SetModel {
    SetModel {
        name: "focal-"@ + zone,
        founder: false,
        replicas: replicas as u32,
        zone: Some(zone),
    }
}

/// The sets of the first `n` zones: the founder is the first zone's first
/// node.
pub open spec fn zone_sets(zones: Seq<Seq<char>>, nodes: nat, n: int) -> Seq<SetModel>
    decreases n,
{
    if n <= 0 {
        Seq::empty()
    } else {
        let before = zone_sets(zones, nodes, n - 1);
        let zone = zones[n - 1];
        let part = share(nodes, zones.len(), (n - 1) as nat);
        if n == 1 {
            let founder = SetModel {
                name: "focal-founder"@,
                founder: true,
                replicas: 1,
                zone: Some(zone),
            };
            if part > 1 {
                before.push(founder).push(zone_set(zone, (part - 1) as nat))
            } else {
                before.push(founder)
            }
        } else if part > 0 {
            before.push(zone_set(zone, part))
        } else {
            before
        }
    }
}

fn plan_zone_sets(zones: &Vec<String>, nodes: usize) -> (sets: Vec<SetPlan>)
    requires
        zones@.len() > 0,
        nodes <= 1024,
    ensures
        set_models(sets@) == zone_sets(texts(zones@), nodes as nat, zones@.len() as int),
{
    let ghost all = texts(zones@);
    let mut sets: Vec<SetPlan> = Vec::new();
    let count: usize = zones.len();
    let even: usize = nodes / count;
    let left: usize = nodes % count;
    let mut i: usize = 0;
    assert(set_models(sets@) =~= zone_sets(all, nodes as nat, 0));
    while i < zones.len()
        invariant
            i <= zones.len(),
            all == texts(zones@),
            count == zones@.len(),
            count > 0,
            even == nodes / count,
            left == nodes % count,
            nodes <= 1024,
            set_models(sets@) == zone_sets(all, nodes as nat, i as int),
        decreases zones.len() - i,
    {
        let zone = &zones[i];
        let ghost before = set_models(sets@);
        assert(all[i as int] == zone@);
        assert(even <= 1024) by (nonlinear_arith)
            requires
                even == nodes / count,
                nodes <= 1024,
                count > 0,
        ;
        let part: usize = if i < left {
            even + 1
        } else {
            even
        };
        assert(part == share(nodes as nat, all.len(), i as nat));
        if i == 0 {
            sets.push(
                SetPlan {
                    name: String::from_str("focal-founder"),
                    founder: true,
                    replicas: 1,
                    zone: Some(zone.clone()),
                },
            );
            let ghost founder = sets@.last()@;
            assert(set_models(sets@) =~= before.push(founder));
            if part > 1 {
                sets.push(
                    SetPlan {
                        name: String::from_str("focal-").concat(zone.as_str()),
                        founder: false,
                        replicas: (part - 1) as u32,
                        zone: Some(zone.clone()),
                    },
                );
                assert(set_models(sets@) =~= before.push(founder).push(sets@.last()@));
            }
        } else if part > 0 {
            sets.push(
                SetPlan {
                    name: String::from_str("focal-").concat(zone.as_str()),
                    founder: false,
                    replicas: part as u32,
                    zone: Some(zone.clone()),
                },
            );
            assert(set_models(sets@) =~= before.push(sets@.last()@));
        }
        i += 1;
    }
    sets
}

fn plan_node_sets(zone: &Option<String>, nodes: usize) -> (sets: Vec<SetPlan>)
    requires
        nodes <= 1024,
    ensures
        set_models(sets@) == node_sets(name_of(*zone), nodes as nat),
{
    let mut sets: Vec<SetPlan> = Vec::new();
    sets.push(
        SetPlan {
            name: String::from_str("focal-founder"),
            founder: true,
            replicas: 1,
            zone: copy_name(zone),
        },
    );
    if nodes > 1 {
        sets.push(
            SetPlan {
                name: String::from_str("focal-hosts"),
                founder: false,
                replicas: (nodes - 1) as u32,
                zone: copy_name(zone),
            },
        );
    }
    assert(set_models(sets@) =~= node_sets(name_of(*zone), nodes as nat));
    sets
}

/// The first `n` pods of a set.
pub open spec fn pods(name: Seq<char>, n: int) -> Seq<Seq<char>>
    decreases n,
{
    if n <= 0 {
        Seq::empty()
    } else {
        pods(name, n - 1).push(name + "-"@ + decimal_text((n - 1) as nat))
    }
}

/// The host pods of the first `n` sets.
pub open spec fn host_pods(sets: Seq<SetModel>, n: int) -> Seq<Seq<char>>
    decreases n,
{
    if n <= 0 {
        Seq::empty()
    } else {
        let before = host_pods(sets, n - 1);
        let set = sets[n - 1];
        if set.founder {
            before
        } else {
            before + pods(set.name, set.replicas as int)
        }
    }
}

fn host_names(sets: &Vec<SetPlan>) -> (hosts: Vec<String>)
    ensures
        texts(hosts@) == host_pods(set_models(sets@), sets@.len() as int),
{
    let ghost all = set_models(sets@);
    let mut hosts: Vec<String> = Vec::new();
    let mut i: usize = 0;
    assert(texts(hosts@) =~= host_pods(all, 0));
    while i < sets.len()
        invariant
            i <= sets.len(),
            all == set_models(sets@),
            texts(hosts@) == host_pods(all, i as int),
        decreases sets.len() - i,
    {
        let set = &sets[i];
        assert(all[i as int] == set@);
        if !set.founder {
            let ghost before = texts(hosts@);
            let mut k: u32 = 0;
            assert(texts(hosts@) =~= before + pods(set.name@, 0));
            while k < set.replicas
                invariant
                    k <= set.replicas,
                    texts(hosts@) == before + pods(set.name@, k as int),
                decreases set.replicas - k,
            {
                let ghost held = texts(hosts@);
                let name = String::from_str(set.name.as_str()).concat("-").concat(
                    decimal(k as u64).as_str(),
                );
                let ghost text = name@;
                hosts.push(name);
                assert(texts(hosts@) =~= held.push(text));
                assert(texts(hosts@) =~= before + pods(set.name@, k + 1));
                k += 1;
            }
        }
        i += 1;
    }
    hosts
}

/// Lines with an indent in front of each, before the last is ended.
pub open spec fn indented_body(text: Seq<char>) -> Seq<char>
    decreases text.len(),
{
    if text.len() == 0 {
        Seq::empty()
    } else {
        let front = text.drop_last();
        let gap = if front.len() == 0 || front.last() == '\n' {
            "    "@
        } else {
            Seq::empty()
        };
        (indented_body(front) + gap).push(text.last())
    }
}

/// A text's lines, each indented and ended.
pub open spec fn indented(text: Seq<char>) -> Seq<char> {
    if text.len() > 0 && text.last() != '\n' {
        indented_body(text).push('\n')
    } else {
        indented_body(text)
    }
}

fn indent(text: &str) -> (out: String)
    ensures
        out@ == indented(text@),
{
    let mut out = String::new();
    let mut fresh = true;
    assert(out@ =~= indented_body(text@.take(0)));
    for c in it: text.chars()
        invariant
            it.seq() == text@,
            out@ == indented_body(text@.take(it.index() as int)),
            fresh == (it.index() == 0 || text@[it.index() - 1] == '\n'),
    {
        let ghost i = it.index() as int;
        let ghost before = out@;
        proof {
            assert(text@.take(i + 1).drop_last() =~= text@.take(i));
            assert(text@.take(i + 1).last() == c);
            assert(i > 0 ==> text@.take(i).last() == text@[i - 1]);
        }
        if fresh {
            out.append("    ");
        } else {
            assert(out@ =~= before + Seq::<char>::empty());
        }
        out.push(c);
        assert(out@ == indented_body(text@.take(i + 1)));
        fresh = c == '\n';
    }
    assert(text@.take(text@.len() as int) =~= text@);
    if !fresh {
        out.push('\n');
    }
    out
}

/// A set's entry in the configuration map.
pub open spec fn config_entry(settings: Settings, set: SetModel) -> Seq<char> {
    "  "@ + set.name + ".yaml: |\n"@ + indented(
        config_of(settings, None, None, None, name_of(settings.topology.region), set.zone),
    )
}

/// The entries of the first `n` sets.
pub open spec fn config_entries(settings: Settings, sets: Seq<SetModel>, n: int) -> Seq<char>
    decreases n,
{
    if n <= 0 {
        Seq::empty()
    } else {
        config_entries(settings, sets, n - 1) + config_entry(settings, sets[n - 1])
    }
}

/// The configuration map's head.
pub open spec fn config_head(namespace: Seq<char>) -> Seq<char> {
    "apiVersion: v1\nkind: ConfigMap\nmetadata:\n  name: focal-config\n  namespace: "@ + namespace + "\n  labels:\n    app.kubernetes.io/name: focal\n    app.kubernetes.io/managed-by: focal-deployment-render\ndata:\n"@
}

fn config_map(settings: &Settings, namespace: &str, sets: &Vec<SetPlan>) -> (out: String)
    ensures
        out@ == config_head(namespace@) + config_entries(
            *settings,
            set_models(sets@),
            sets@.len() as int,
        ),
{
    let ghost all = set_models(sets@);
    let mut out = String::from_str("apiVersion: v1\nkind: ConfigMap\nmetadata:\n  name: focal-config\n  namespace: ");
    out.append(namespace);
    out.append("\n  labels:\n    app.kubernetes.io/name: focal\n    app.kubernetes.io/managed-by: focal-deployment-render\ndata:\n");
    let ghost head = out@;
    let mut i: usize = 0;
    assert(out@ =~= head + config_entries(*settings, all, 0));
    while i < sets.len()
        invariant
            i <= sets.len(),
            all == set_models(sets@),
            out@ == head + config_entries(*settings, all, i as int),
        decreases sets.len() - i,
    {
        let set = &sets[i];
        assert(all[i as int] == set@);
        let config = config_yaml(
            settings,
            &ConfigNode {
                listen: None,
                advertise: None,
                metrics_listen: None,
                region: borrowed(&settings.topology.region),
                zone: borrowed(&set.zone),
            },
        );
        let mut entry = String::from_str("  ");
        entry.append(set.name.as_str());
        entry.append(".yaml: |\n");
        entry.append(indent(config.as_str()).as_str());
        out.append(entry.as_str());
        assert(out@ =~= head + config_entries(*settings, all, i + 1));
        i += 1;
    }
    out
}

/// The file of a set.
pub open spec fn set_file(name: Seq<char>) -> Seq<char> {
    "statefulset-"@ + name + ".yaml"@
}

/// The files of the first `n` sets.
pub open spec fn set_files(
    sets: Seq<SetModel>,
    n: int,
    request: KubernetesRequest,
    image: Seq<char>,
    secret: Seq<char>,
    survive: FailureDomain,
) -> Seq<FileModel>
    decreases n,
{
    if n <= 0 {
        Seq::empty()
    } else {
        set_files(sets, n - 1, request, image, secret, survive).push(
            FileModel {
                name: set_file(sets[n - 1].name),
                content: set_text(sets[n - 1], request, image, secret, survive),
            },
        )
    }
}

/// The resource lines of the first `n` sets.
pub open spec fn set_resources(sets: Seq<SetModel>, n: int) -> Seq<char>
    decreases n,
{
    if n <= 0 {
        Seq::empty()
    } else {
        set_resources(sets, n - 1) + ("  - "@ + set_file(sets[n - 1].name) + "\n"@)
    }
}

/// The kustomization: every manifest in the order it is applied.
pub open spec fn kustomization_text(namespace: Seq<char>, sets: Seq<SetModel>) -> Seq<char> {
    "namespace: "@ + namespace + "\nresources:\n"@ + "  - configmap.yaml\n  - service.yaml\n  - pdb.yaml\n"@
        + set_resources(sets, sets.len() as int)
}

fn kustomization(namespace: &str, sets: &Vec<SetPlan>) -> (out: String)
    ensures
        out@ == kustomization_text(namespace@, set_models(sets@)),
{
    let ghost all = set_models(sets@);
    let mut out = String::from_str("namespace: ");
    out.append(namespace);
    out.append("\nresources:\n");
    out.append("  - configmap.yaml\n  - service.yaml\n  - pdb.yaml\n");
    let ghost head = out@;
    let mut i: usize = 0;
    assert(out@ =~= head + set_resources(all, 0));
    while i < sets.len()
        invariant
            i <= sets.len(),
            all == set_models(sets@),
            out@ == head + set_resources(all, i as int),
        decreases sets.len() - i,
    {
        assert(all[i as int] == sets@[i as int]@);
        let mut line = String::from_str("  - ");
        line.append(set_file_name(sets[i].name.as_str()).as_str());
        line.append("\n");
        out.append(line.as_str());
        assert(out@ =~= head + set_resources(all, i + 1));
        i += 1;
    }
    out
}

fn set_file_name(name: &str) -> (out: String)
    ensures
        out@ == set_file(name@),
{
    String::from_str("statefulset-").concat(name).concat(".yaml")
}

/// The image every pod runs.
pub open spec fn image_of(request: KubernetesRequest, version: Seq<char>) -> Seq<char> {
    match request.image {
        Some(image) => image@,
        None => "focal:"@ + version,
    }
}

/// The secret the hosts mount.
pub open spec fn secret_of(request: KubernetesRequest) -> Seq<char> {
    match request.secret {
        Some(secret) => secret@,
        None => "focal-invitations"@,
    }
}

/// The inputs a request lacks.
pub open spec fn missing_of(
    request: KubernetesRequest,
    version: Seq<char>,
    hosts: Seq<Seq<char>>,
) -> Seq<MissingModel> {
    let image = if request.image is None {
        seq![MissingModel::Image { placeholder: image_of(request, version) }]
    } else {
        Seq::empty()
    };
    let class = if request.storage_class is None {
        seq![MissingModel::StorageClass]
    } else {
        Seq::empty()
    };
    let secret = if request.secret is None {
        seq![
            MissingModel::InvitationSecret {
                secret: secret_of(request),
                invitations: hosts,
                script: "invitations.sh"@,
            },
        ]
    } else {
        Seq::empty()
    };
    image + class + secret
}

/// What a render of some sets produces.
pub open spec fn assets_of(
    settings: Settings,
    request: KubernetesRequest,
    version: Seq<char>,
    sets: Seq<SetModel>,
) -> AssetsModel {
    let image = image_of(request, version);
    let secret = secret_of(request);
    let hosts = host_pods(sets, sets.len() as int);
    let failures = settings.durability.max_failures as nat;
    AssetsModel {
        files: seq![
            FileModel {
                name: "configmap.yaml"@,
                content: config_head(request.namespace@) + config_entries(
                    settings,
                    sets,
                    sets.len() as int,
                ),
            },
            FileModel {
                name: "service.yaml"@,
                content: service_text(request.namespace@, request.port),
            },
        ] + set_files(
            sets,
            sets.len() as int,
            request,
            image,
            secret,
            settings.durability.survive,
        ) + seq![
            FileModel {
                name: "pdb.yaml"@,
                content: budgets_text(request.namespace@, failures),
            },
            FileModel {
                name: "kustomization.yaml"@,
                content: kustomization_text(request.namespace@, sets),
            },
            FileModel {
                name: "invitations.sh"@,
                content: script_text(request.namespace@, secret, hosts),
            },
        ],
        missing: missing_of(request, version, hosts),
        notes: seq![allocation_note(request), apply_note(), probe_note()],
    }
}

/// The note on what a pod is allotted.
pub open spec fn allocation_note(request: KubernetesRequest) -> Seq<char> {
    "Bootstrap allocation, unqualified: each pod requests 500m CPU and 1Gi memory (limit 2Gi) and a "@ + request.volume@ + " volume; measure and raise them for your workload (08 §5)."@
}

/// The note on applying the manifests.
pub open spec fn apply_note() -> Seq<char> {
    "Apply the founder first (`kubectl apply -k .` applies everything; host pods wait for their invitation), run invitations.sh once focal-founder-0 is Ready to issue and install the invitations, then the hosts enroll and start."@
}

/// The note on the probes.
pub open spec fn probe_note() -> Seq<char> {
    "Probes ask the node: startup, liveness and readiness are `cluster node probe --check alive`; `catching-up`, `authoritative` and `policy` are for inspection (`kubectl exec`) and never gate restarts, so a healthy node is not restarted for a missing quorum."@
}

/// The note on missing zones.
pub open spec fn zones_note(failures: nat) -> Seq<char> {
    "Zone survival of "@ + decimal_text(failures) + " failure(s) needs "@ + decimal_text(fewest(failures)) + " zones named with --zone; nothing was rendered."@
}

/// What a Kubernetes render produces, or why it is refused.
pub open spec fn rendered(
    settings: Settings,
    request: KubernetesRequest,
    version: Seq<char>,
) -> Result<AssetsModel, Seq<char>> {
    let failures = settings.durability.max_failures as nat;
    let nodes = node_count(settings, request);
    let zones = texts(request.zones@);
    if request_refusal(request) is Some {
        Err(request_refusal(request)->0)
    } else if nodes < fewest(failures) || nodes > 1024 {
        Err(count_text(failures, settings.durability.survive))
    } else {
        match settings.durability.survive {
            FailureDomain::Region => Err(
                "a Kubernetes cluster spans zones; region survival is one deployment per region joined by invitation (08 §7)"@,
            ),
            FailureDomain::Node => if zones.len() > 0 {
                Err("--zone applies to zone survival; node survival spreads by the scheduler"@)
            } else {
                Ok(
                    assets_of(
                        settings,
                        request,
                        version,
                        node_sets(name_of(settings.topology.zone), nodes),
                    ),
                )
            },
            FailureDomain::Zone => if zones.len() < fewest(failures) {
                Ok(
                    AssetsModel {
                        files: Seq::empty(),
                        missing: seq![
                            MissingModel::Zones { needed: fewest(failures), given: zones.len() },
                        ],
                        notes: seq![zones_note(failures)],
                    },
                )
            } else {
                Ok(
                    assets_of(
                        settings,
                        request,
                        version,
                        zone_sets(zones, nodes, zones.len() as int),
                    ),
                )
            },
        }
    }
}

fn name_missing(
    assets: &mut RenderedAssets,
    request: &KubernetesRequest,
    version: &str,
    image: &String,
    secret: &String,
    hosts: &Vec<String>,
)
    requires
        image@ == image_of(*request, version@),
        secret@ == secret_of(*request),
    ensures
        final(assets)@ == (AssetsModel {
            missing: old(assets)@.missing + missing_of(*request, version@, texts(hosts@)),
            ..old(assets)@
        }),
{
    if request.image.is_none() {
        assets.lacks(MissingInput::Image { placeholder: image.clone() });
    }
    if request.storage_class.is_none() {
        assets.lacks(MissingInput::StorageClass);
    }
    if request.secret.is_none() {
        assets.lacks(
            MissingInput::InvitationSecret {
                secret: secret.clone(),
                invitations: copy_texts(hosts),
                script: String::from_str("invitations.sh"),
            },
        );
    }
    assert(assets@.missing =~= old(assets)@.missing + missing_of(
        *request,
        version@,
        texts(hosts@),
    ));
}

fn add_sets(
    assets: &mut RenderedAssets,
    sets: &Vec<SetPlan>,
    request: &KubernetesRequest,
    image: &String,
    secret: &String,
    survive: FailureDomain,
)
    ensures
        final(assets)@ == (AssetsModel {
            files: old(assets)@.files + set_files(
                set_models(sets@),
                sets@.len() as int,
                *request,
                image@,
                secret@,
                survive,
            ),
            ..old(assets)@
        }),
{
    let ghost all = set_models(sets@);
    let ghost head = assets@;
    let mut i: usize = 0;
    assert(assets@.files =~= head.files + set_files(all, 0, *request, image@, secret@, survive));
    while i < sets.len()
        invariant
            i <= sets.len(),
            all == set_models(sets@),
            assets@ == (AssetsModel {
                files: head.files + set_files(all, i as int, *request, image@, secret@, survive),
                ..head
            }),
        decreases sets.len() - i,
    {
        let set = &sets[i];
        assert(all[i as int] == set@);
        assets.push(
            set_file_name(set.name.as_str()).as_str(),
            stateful_set(set, request, image.as_str(), secret.as_str(), survive),
        );
        assert(assets@.files =~= head.files + set_files(
            all,
            i + 1,
            *request,
            image@,
            secret@,
            survive,
        ));
        i += 1;
    }
}

fn add_notes(assets: &mut RenderedAssets, request: &KubernetesRequest)
    ensures
        final(assets)@ == (AssetsModel {
            notes: old(assets)@.notes + seq![allocation_note(*request), apply_note(), probe_note()],
            ..old(assets)@
        }),
{
    let mut note = String::from_str("Bootstrap allocation, unqualified: each pod requests 500m CPU and 1Gi memory (limit 2Gi) and a ");
    note.append(request.volume.as_str());
    note.append(" volume; measure and raise them for your workload (08 §5).");
    assets.note(note);
    assets.note(
        String::from_str(
            "Apply the founder first (`kubectl apply -k .` applies everything; host pods wait for their invitation), run invitations.sh once focal-founder-0 is Ready to issue and install the invitations, then the hosts enroll and start.",
        ),
    );
    assets.note(
        String::from_str(
            "Probes ask the node: startup, liveness and readiness are `cluster node probe --check alive`; `catching-up`, `authoritative` and `policy` are for inspection (`kubectl exec`) and never gate restarts, so a healthy node is not restarted for a missing quorum.",
        ),
    );
    assert(assets@.notes =~= old(assets)@.notes + seq![
        allocation_note(*request),
        apply_note(),
        probe_note(),
    ]);
}

fn assemble(
    settings: &Settings,
    request: &KubernetesRequest,
    version: &str,
    sets: &Vec<SetPlan>,
) -> (assets: RenderedAssets)
    ensures
        assets@ == assets_of(*settings, *request, version@, set_models(sets@)),
{
    let ghost expected = assets_of(*settings, *request, version@, set_models(sets@));
    let survive = settings.durability.survive;
    let mut assets = RenderedAssets::empty();
    let image = match &request.image {
        Some(image) => image.clone(),
        None => String::from_str("focal:").concat(version),
    };
    let secret = match &request.secret {
        Some(secret) => secret.clone(),
        None => String::from_str("focal-invitations"),
    };
    let hosts = host_names(sets);
    let script = invitations_script(request.namespace.as_str(), secret.as_str(), &hosts);
    name_missing(&mut assets, request, version, &image, &secret, &hosts);
    assets.push("configmap.yaml", config_map(settings, request.namespace.as_str(), sets));
    assets.push("service.yaml", service(request.namespace.as_str(), request.port));
    add_sets(&mut assets, sets, request, &image, &secret, survive);
    assets.push(
        "pdb.yaml",
        budgets(request.namespace.as_str(), settings.durability.max_failures as usize),
    );
    assets.push("kustomization.yaml", kustomization(request.namespace.as_str(), sets));
    assets.push("invitations.sh", script);
    add_notes(&mut assets, request);
    proof {
        assert(assets@.missing =~= expected.missing);
        assert(assets@.files =~= expected.files);
        assert(assets@.notes =~= expected.notes);
    }
    assets
}

/// Render the manifests of a deployment: a founder, its hosts per failure
/// domain, and what the operator still has to supply. `valid` is what the
/// validation of the settings says: settings that are not valid are refused
/// before anything else.
pub fn render(
    settings: &Settings,
    request: &KubernetesRequest,
    version: &str,
    valid: Result<(), String>,
) -> (assets: Result<RenderedAssets, DeploymentError>)
    ensures
        match valid {
            Err(text) => assets matches Err(DeploymentError::Config(why)) && why@ == text@,
            Ok(_) => match rendered(*settings, *request, version@) {
                Ok(model) => assets matches Ok(a) && a@ == model,
                Err(text) => assets matches Err(DeploymentError::Render(why)) && why@ == text,
            },
        },
{
    if let Err(text) = valid {
        return Err(DeploymentError::Config(text));
    }
    check_request(request)?;
    let failures: usize = settings.durability.max_failures as usize;
    let minimum: usize = 2 * failures + 1;
    let nodes: usize = match request.nodes {
        Some(nodes) => nodes as usize,
        None => minimum,
    };
    let survive = settings.durability.survive;
    assert(texts(request.zones@).len() == request.zones@.len());
    if nodes < minimum || nodes > 1024 {
        let failures_text = decimal(failures as u64);
        let minimum_text = decimal(minimum as u64);
        let mut why = String::from_str("surviving ");
        why.append(failures_text.as_str());
        why.append(" ");
        why.append(survive_name(survive));
        why.append(" failure(s) needs at least ");
        why.append(minimum_text.as_str());
        why.append(" nodes (at most 1024)");
        return Err(DeploymentError::Render(why));
    }
    match survive {
        FailureDomain::Region => Err(
            refuse(
                "a Kubernetes cluster spans zones; region survival is one deployment per region joined by invitation (08 §7)",
            ),
        ),
        FailureDomain::Node => {
            if request.zones.len() > 0 {
                return Err(
                    refuse(
                        "--zone applies to zone survival; node survival spreads by the scheduler",
                    ),
                );
            }
            let sets = plan_node_sets(&settings.topology.zone, nodes);
            Ok(assemble(settings, request, version, &sets))
        },
        FailureDomain::Zone => {
            if request.zones.len() < minimum {
                let mut assets = RenderedAssets::empty();
                assets.lacks(MissingInput::Zones { needed: minimum, given: request.zones.len() });
                let failures_text = decimal(failures as u64);
                let minimum_text = decimal(minimum as u64);
                let mut note = String::from_str("Zone survival of ");
                note.append(failures_text.as_str());
                note.append(" failure(s) needs ");
                note.append(minimum_text.as_str());
                note.append(" zones named with --zone; nothing was rendered.");
                assets.note(note);
                proof {
                    assert(assets@.missing =~= seq![
                        MissingModel::Zones {
                            needed: minimum as nat,
                            given: request.zones@.len(),
                        },
                    ]);
                    assert(assets@.notes =~= seq![zones_note(failures as nat)]);
                }
                return Ok(assets);
            }
            let sets = plan_zone_sets(&request.zones, nodes);
            Ok(assemble(settings, request, version, &sets))
        },
    }
}

/// The nodes over the zones add up: the shares of all zones are the nodes.
pub proof fn shares_add_up(nodes: nat, zones: nat, n: nat)
    requires
        0 < zones,
        n <= zones,
    ensures
        shares(nodes, zones, n) == n * (nodes / zones) + (if n < nodes % zones {
            n
        } else {
            nodes % zones
        }),
        n == zones ==> shares(nodes, zones, n) == nodes,
    decreases n,
{
    if n > 0 {
        shares_add_up(nodes, zones, (n - 1) as nat);
        let q = nodes / zones;
        assert(n * q == (n - 1) * q + q) by (nonlinear_arith)
            requires
                n > 0,
        ;
    }
    if n == zones {
        assert(nodes == zones * (nodes / zones) + nodes % zones && nodes % zones < zones)
            by (nonlinear_arith)
            requires
                zones > 0,
        ;
    } else {
        assert(0 * (nodes / zones) == 0) by (nonlinear_arith);
    }
}

/// The nodes the first `n` zones take.
pub open spec fn shares(nodes: nat, zones: nat, n: nat) -> nat
    decreases n,
{
    if n == 0 {
        0
    } else {
        shares(nodes, zones, (n - 1) as nat) + share(nodes, zones, (n - 1) as nat)
    }
}

/// A render that lacks zones writes no file at all.
pub proof fn nothing_is_rendered_without_zones(
    settings: Settings,
    request: KubernetesRequest,
    version: Seq<char>,
)
    requires
        settings.durability.survive == FailureDomain::Zone,
        request.zones@.len() < fewest(settings.durability.max_failures as nat),
    ensures
        rendered(settings, request, version) matches Ok(assets) ==> assets.files.len() == 0,
{
    assert(texts(request.zones@).len() == request.zones@.len());
}

} // verus!
