//! What the rendered files say: each file names what it was rendered for, under
//! the key that the cluster reads it from.
use super::kubernetes::{
    budgets_text, component_text, config_entries, config_entry, config_head, indented, is_image,
    is_quantity, kustomization_text, quantity_char, script_text, service_text, set_affinity, set_claim, set_containers, set_head, set_invite,
    set_invite_volume, set_resources, set_runtime, set_spread, set_text, set_volumes, spaced,
    KubernetesRequest, SetModel,
};
use super::systemd::{
    assets_of, command_text, configuration_text, is_path, refusal, unit_text, SystemdRequest,
};
use super::{config_of, is_label, yaml_text, MissingModel};
use crate::config::{FailureDomain, Settings};
use crate::deployment::facts::name_of;
use crate::text::decimal_text;
use vstd::prelude::*;

verus! {

/// Whether a text holds a piece at a place.
pub open spec fn holds_at(text: Seq<char>, piece: Seq<char>, at: int) -> bool {
    0 <= at && at + piece.len() <= text.len() && text.subrange(at, at + piece.len()) == piece
}

/// Whether a text says a piece.
#[verifier::opaque]
pub open spec fn says(text: Seq<char>, piece: Seq<char>) -> bool {
    exists|at: int| holds_at(text, piece, at)
}

/// What a part says, the whole says.
pub broadcast proof fn what_is_said_is_said_within(a: Seq<char>, b: Seq<char>, piece: Seq<char>)
    ensures
        says(a, piece) || says(b, piece) ==> #[trigger] says(a + b, piece),
{
    reveal(says);
    if says(a, piece) {
        let at = choose|at: int| holds_at(a, piece, at);
        assert((a + b).subrange(at, at + piece.len()) =~= piece) by {
            assert(a.subrange(at, at + piece.len()) == piece);
            assert forall|i: int| 0 <= i < piece.len() implies (a + b)[at + i] == piece[i] by {
                assert(a.subrange(at, at + piece.len())[i] == piece[i]);
            }
        }
        assert(holds_at(a + b, piece, at));
    } else if says(b, piece) {
        let at = choose|at: int| holds_at(b, piece, at);
        let n = a.len() + at;
        assert((a + b).subrange(n, n + piece.len()) =~= piece) by {
            assert forall|i: int| 0 <= i < piece.len() implies (a + b)[n + i] == piece[i] by {
                assert(b.subrange(at, at + piece.len())[i] == piece[i]);
            }
        }
        assert(holds_at(a + b, piece, n));
    }
}

proof fn lemma_first_line(
    a: Seq<char>,
    value: Seq<char>,
    b: Seq<char>,
    key: Seq<char>,
    end: Seq<char>,
)
    requires
        a.len() >= key.len(),
        a.skip(a.len() - key.len()) == key,
        b.len() >= end.len(),
        b.take(end.len() as int) == end,
    ensures
        says(a + value + b, key + value + end),
{
    reveal(says);
    let text = a + value + b;
    let piece = key + value + end;
    let at = a.len() - key.len();
    assert forall|i: int| 0 <= i < piece.len() implies text[at + i] == piece[i] by {
        if i < key.len() {
            assert(a.skip(at)[i] == key[i]);
        } else if i >= key.len() + value.len() {
            let j = i - key.len() - value.len();
            assert(b.take(end.len() as int)[j] == end[j]);
        }
    }
    assert(text.subrange(at, at + piece.len()) =~= piece);
    assert(holds_at(text, piece, at));
}

proof fn lemma_line(
    x: Seq<char>,
    a: Seq<char>,
    value: Seq<char>,
    b: Seq<char>,
    key: Seq<char>,
    end: Seq<char>,
)
    requires
        a.len() >= key.len(),
        a.skip(a.len() - key.len()) == key,
        b.len() >= end.len(),
        b.take(end.len() as int) == end,
    ensures
        says(x + a + value + b, key + value + end),
{
    assert((x + a).skip((x + a).len() - key.len()) =~= a.skip(a.len() - key.len()));
    lemma_first_line(x + a, value, b, key, end);
}

proof fn lemma_head(set: SetModel, request: KubernetesRequest)
    ensures
        says(set_head(set, request), "  name: "@ + set.name + "\n"@),
        says(set_head(set, request), "  namespace: "@ + request.namespace@ + "\n"@),
        says(set_head(set, request), "  replicas: "@ + decimal_text(set.replicas as nat) + "\n"@),
        says(set_head(set, request), "component: "@ + component_text(set.founder) + "\n"@),
        says(set_head(set, request), "\n      focal.dev/set: "@ + set.name + "\n"@),
        says(set_head(set, request), "\n        focal.dev/set: "@ + set.name + "\n"@),
{
    broadcast use what_is_said_is_said_within;

    reveal_strlit("apiVersion: apps/v1\nkind: StatefulSet\nmetadata:\n  name: ");
    reveal_strlit("\n  namespace: ");
    reveal_strlit("  name: ");
    reveal_strlit("\n");
    reveal_strlit("\n  labels:\n    app.kubernetes.io/name: focal\n    app.kubernetes.io/component: ");
    reveal_strlit("  namespace: ");
    reveal_strlit("\n  annotations:\n    focal.dev/qualification: unqualified-bootstrap-allocation\nspec:\n  serviceName: focal\n  replicas: ");
    reveal_strlit("\n  podManagementPolicy: OrderedReady\n  selector:\n    matchLabels:\n      app.kubernetes.io/name: focal\n      focal.dev/set: ");
    reveal_strlit("  replicas: ");
    reveal_strlit("\n  template:\n    metadata:\n      labels:\n        app.kubernetes.io/name: focal\n        app.kubernetes.io/component: ");
    reveal_strlit("\n        focal.dev/set: ");
    reveal_strlit("component: ");
    reveal_strlit("\n      focal.dev/set: ");
    reveal_strlit("\n    spec:\n      terminationGracePeriodSeconds: 45\n      securityContext:\n        runAsNonRoot: true\n        runAsUser: 65532\n        runAsGroup: 65532\n        fsGroup: 65532\n        seccompProfile:\n          type: RuntimeDefault\n");
    assert("apiVersion: apps/v1\nkind: StatefulSet\nmetadata:\n  name: "@.skip(48) =~= "  name: "@);
    assert("\n  namespace: "@.take(1) =~= "\n"@);
    lemma_first_line("apiVersion: apps/v1\nkind: StatefulSet\nmetadata:\n  name: "@, set.name, "\n  namespace: "@, "  name: "@, "\n"@);
    assert("\n  namespace: "@.skip(1) =~= "  namespace: "@);
    assert("\n  labels:\n    app.kubernetes.io/name: focal\n    app.kubernetes.io/component: "@.take(1) =~= "\n"@);
    lemma_line("apiVersion: apps/v1\nkind: StatefulSet\nmetadata:\n  name: "@ + set.name, "\n  namespace: "@, request.namespace@, "\n  labels:\n    app.kubernetes.io/name: focal\n    app.kubernetes.io/component: "@, "  namespace: "@, "\n"@);
    assert("\n  annotations:\n    focal.dev/qualification: unqualified-bootstrap-allocation\nspec:\n  serviceName: focal\n  replicas: "@.skip(105) =~= "  replicas: "@);
    assert("\n  podManagementPolicy: OrderedReady\n  selector:\n    matchLabels:\n      app.kubernetes.io/name: focal\n      focal.dev/set: "@.take(1) =~= "\n"@);
    lemma_line("apiVersion: apps/v1\nkind: StatefulSet\nmetadata:\n  name: "@ + set.name + "\n  namespace: "@ + request.namespace@ + "\n  labels:\n    app.kubernetes.io/name: focal\n    app.kubernetes.io/component: "@ + component_text(set.founder) + "\n    app.kubernetes.io/managed-by: focal-deployment-render\n    focal.dev/set: "@ + set.name, "\n  annotations:\n    focal.dev/qualification: unqualified-bootstrap-allocation\nspec:\n  serviceName: focal\n  replicas: "@, decimal_text(set.replicas as nat), "\n  podManagementPolicy: OrderedReady\n  selector:\n    matchLabels:\n      app.kubernetes.io/name: focal\n      focal.dev/set: "@, "  replicas: "@, "\n"@);
    assert("\n  template:\n    metadata:\n      labels:\n        app.kubernetes.io/name: focal\n        app.kubernetes.io/component: "@.skip(105) =~= "component: "@);
    assert("\n        focal.dev/set: "@.take(1) =~= "\n"@);
    lemma_line("apiVersion: apps/v1\nkind: StatefulSet\nmetadata:\n  name: "@ + set.name + "\n  namespace: "@ + request.namespace@ + "\n  labels:\n    app.kubernetes.io/name: focal\n    app.kubernetes.io/component: "@ + component_text(set.founder) + "\n    app.kubernetes.io/managed-by: focal-deployment-render\n    focal.dev/set: "@ + set.name + "\n  annotations:\n    focal.dev/qualification: unqualified-bootstrap-allocation\nspec:\n  serviceName: focal\n  replicas: "@ + decimal_text(set.replicas as nat) + "\n  podManagementPolicy: OrderedReady\n  selector:\n    matchLabels:\n      app.kubernetes.io/name: focal\n      focal.dev/set: "@ + set.name, "\n  template:\n    metadata:\n      labels:\n        app.kubernetes.io/name: focal\n        app.kubernetes.io/component: "@, component_text(set.founder), "\n        focal.dev/set: "@, "component: "@, "\n"@);
    assert("\n  podManagementPolicy: OrderedReady\n  selector:\n    matchLabels:\n      app.kubernetes.io/name: focal\n      focal.dev/set: "@.skip(101) =~= "\n      focal.dev/set: "@);
    assert("\n  template:\n    metadata:\n      labels:\n        app.kubernetes.io/name: focal\n        app.kubernetes.io/component: "@.take(1) =~= "\n"@);
    lemma_line("apiVersion: apps/v1\nkind: StatefulSet\nmetadata:\n  name: "@ + set.name + "\n  namespace: "@ + request.namespace@ + "\n  labels:\n    app.kubernetes.io/name: focal\n    app.kubernetes.io/component: "@ + component_text(set.founder) + "\n    app.kubernetes.io/managed-by: focal-deployment-render\n    focal.dev/set: "@ + set.name + "\n  annotations:\n    focal.dev/qualification: unqualified-bootstrap-allocation\nspec:\n  serviceName: focal\n  replicas: "@ + decimal_text(set.replicas as nat), "\n  podManagementPolicy: OrderedReady\n  selector:\n    matchLabels:\n      app.kubernetes.io/name: focal\n      focal.dev/set: "@, set.name, "\n  template:\n    metadata:\n      labels:\n        app.kubernetes.io/name: focal\n        app.kubernetes.io/component: "@, "\n      focal.dev/set: "@, "\n"@);
    assert("\n        focal.dev/set: "@.skip(0) =~= "\n        focal.dev/set: "@);
    assert("\n    spec:\n      terminationGracePeriodSeconds: 45\n      securityContext:\n        runAsNonRoot: true\n        runAsUser: 65532\n        runAsGroup: 65532\n        fsGroup: 65532\n        seccompProfile:\n          type: RuntimeDefault\n"@.take(1) =~= "\n"@);
    lemma_line("apiVersion: apps/v1\nkind: StatefulSet\nmetadata:\n  name: "@ + set.name + "\n  namespace: "@ + request.namespace@ + "\n  labels:\n    app.kubernetes.io/name: focal\n    app.kubernetes.io/component: "@ + component_text(set.founder) + "\n    app.kubernetes.io/managed-by: focal-deployment-render\n    focal.dev/set: "@ + set.name + "\n  annotations:\n    focal.dev/qualification: unqualified-bootstrap-allocation\nspec:\n  serviceName: focal\n  replicas: "@ + decimal_text(set.replicas as nat) + "\n  podManagementPolicy: OrderedReady\n  selector:\n    matchLabels:\n      app.kubernetes.io/name: focal\n      focal.dev/set: "@ + set.name + "\n  template:\n    metadata:\n      labels:\n        app.kubernetes.io/name: focal\n        app.kubernetes.io/component: "@ + component_text(set.founder), "\n        focal.dev/set: "@, set.name, "\n    spec:\n      terminationGracePeriodSeconds: 45\n      securityContext:\n        runAsNonRoot: true\n        runAsUser: 65532\n        runAsGroup: 65532\n        fsGroup: 65532\n        seccompProfile:\n          type: RuntimeDefault\n"@, "\n        focal.dev/set: "@, "\n"@);
}

proof fn lemma_containers(request: KubernetesRequest, image: Seq<char>)
    ensures
        says(set_containers(request, image), "prepare-volume\n          image: "@ + image + "\n"@),
        says(set_containers(request, image), "focal\n          image: "@ + image + "\n"@),
        says(set_containers(request, image), "\"0.0.0.0:"@ + decimal_text(request.port as nat) + "\"\n"@),
        says(set_containers(request, image), "svc.cluster.local:"@ + decimal_text(request.port as nat) + "\"\n"@),
{
    broadcast use what_is_said_is_said_within;

    reveal_strlit("      initContainers:\n        - name: prepare-volume\n          image: ");
    reveal_strlit("\n          command: [\"/focal\"]\n          args: [\"--data-dir\", \"/var/lib/focal\", \"prepare-volume\", \"--owner\", \"65532:65532\"]\n          securityContext:\n            runAsUser: 0\n            runAsNonRoot: false\n            allowPrivilegeEscalation: false\n            readOnlyRootFilesystem: true\n            capabilities:\n              drop: [\"ALL\"]\n              add: [\"CHOWN\", \"FOWNER\", \"DAC_OVERRIDE\"]\n          volumeMounts:\n            - name: data\n              mountPath: /var/lib/focal\n      containers:\n        - name: focal\n          image: ");
    reveal_strlit("prepare-volume\n          image: ");
    reveal_strlit("\n");
    reveal_strlit("\n          command: [\"/focal\"]\n          args:\n            - \"--config\"\n            - \"/etc/focal/focal.yaml\"\n            - \"--data-dir\"\n            - \"/var/lib/focal\"\n            - \"start\"\n            - \"--listen\"\n            - \"0.0.0.0:");
    reveal_strlit("focal\n          image: ");
    reveal_strlit("\"\n            - \"--advertise\"\n            - \"$(POD_NAME).focal.$(POD_NAMESPACE).svc.cluster.local:");
    reveal_strlit("\"0.0.0.0:");
    reveal_strlit("\"\n");
    reveal_strlit("svc.cluster.local:");
    assert("      initContainers:\n        - name: prepare-volume\n          image: "@.skip(38) =~= "prepare-volume\n          image: "@);
    assert("\n          command: [\"/focal\"]\n          args: [\"--data-dir\", \"/var/lib/focal\", \"prepare-volume\", \"--owner\", \"65532:65532\"]\n          securityContext:\n            runAsUser: 0\n            runAsNonRoot: false\n            allowPrivilegeEscalation: false\n            readOnlyRootFilesystem: true\n            capabilities:\n              drop: [\"ALL\"]\n              add: [\"CHOWN\", \"FOWNER\", \"DAC_OVERRIDE\"]\n          volumeMounts:\n            - name: data\n              mountPath: /var/lib/focal\n      containers:\n        - name: focal\n          image: "@.take(1) =~= "\n"@);
    lemma_first_line("      initContainers:\n        - name: prepare-volume\n          image: "@, image, "\n          command: [\"/focal\"]\n          args: [\"--data-dir\", \"/var/lib/focal\", \"prepare-volume\", \"--owner\", \"65532:65532\"]\n          securityContext:\n            runAsUser: 0\n            runAsNonRoot: false\n            allowPrivilegeEscalation: false\n            readOnlyRootFilesystem: true\n            capabilities:\n              drop: [\"ALL\"]\n              add: [\"CHOWN\", \"FOWNER\", \"DAC_OVERRIDE\"]\n          volumeMounts:\n            - name: data\n              mountPath: /var/lib/focal\n      containers:\n        - name: focal\n          image: "@, "prepare-volume\n          image: "@, "\n"@);
    assert("\n          command: [\"/focal\"]\n          args: [\"--data-dir\", \"/var/lib/focal\", \"prepare-volume\", \"--owner\", \"65532:65532\"]\n          securityContext:\n            runAsUser: 0\n            runAsNonRoot: false\n            allowPrivilegeEscalation: false\n            readOnlyRootFilesystem: true\n            capabilities:\n              drop: [\"ALL\"]\n              add: [\"CHOWN\", \"FOWNER\", \"DAC_OVERRIDE\"]\n          volumeMounts:\n            - name: data\n              mountPath: /var/lib/focal\n      containers:\n        - name: focal\n          image: "@.skip(525) =~= "focal\n          image: "@);
    assert("\n          command: [\"/focal\"]\n          args:\n            - \"--config\"\n            - \"/etc/focal/focal.yaml\"\n            - \"--data-dir\"\n            - \"/var/lib/focal\"\n            - \"start\"\n            - \"--listen\"\n            - \"0.0.0.0:"@.take(1) =~= "\n"@);
    lemma_line("      initContainers:\n        - name: prepare-volume\n          image: "@ + image, "\n          command: [\"/focal\"]\n          args: [\"--data-dir\", \"/var/lib/focal\", \"prepare-volume\", \"--owner\", \"65532:65532\"]\n          securityContext:\n            runAsUser: 0\n            runAsNonRoot: false\n            allowPrivilegeEscalation: false\n            readOnlyRootFilesystem: true\n            capabilities:\n              drop: [\"ALL\"]\n              add: [\"CHOWN\", \"FOWNER\", \"DAC_OVERRIDE\"]\n          volumeMounts:\n            - name: data\n              mountPath: /var/lib/focal\n      containers:\n        - name: focal\n          image: "@, image, "\n          command: [\"/focal\"]\n          args:\n            - \"--config\"\n            - \"/etc/focal/focal.yaml\"\n            - \"--data-dir\"\n            - \"/var/lib/focal\"\n            - \"start\"\n            - \"--listen\"\n            - \"0.0.0.0:"@, "focal\n          image: "@, "\n"@);
    assert("\n          command: [\"/focal\"]\n          args:\n            - \"--config\"\n            - \"/etc/focal/focal.yaml\"\n            - \"--data-dir\"\n            - \"/var/lib/focal\"\n            - \"start\"\n            - \"--listen\"\n            - \"0.0.0.0:"@.skip(229) =~= "\"0.0.0.0:"@);
    assert("\"\n            - \"--advertise\"\n            - \"$(POD_NAME).focal.$(POD_NAMESPACE).svc.cluster.local:"@.take(2) =~= "\"\n"@);
    lemma_line("      initContainers:\n        - name: prepare-volume\n          image: "@ + image + "\n          command: [\"/focal\"]\n          args: [\"--data-dir\", \"/var/lib/focal\", \"prepare-volume\", \"--owner\", \"65532:65532\"]\n          securityContext:\n            runAsUser: 0\n            runAsNonRoot: false\n            allowPrivilegeEscalation: false\n            readOnlyRootFilesystem: true\n            capabilities:\n              drop: [\"ALL\"]\n              add: [\"CHOWN\", \"FOWNER\", \"DAC_OVERRIDE\"]\n          volumeMounts:\n            - name: data\n              mountPath: /var/lib/focal\n      containers:\n        - name: focal\n          image: "@ + image, "\n          command: [\"/focal\"]\n          args:\n            - \"--config\"\n            - \"/etc/focal/focal.yaml\"\n            - \"--data-dir\"\n            - \"/var/lib/focal\"\n            - \"start\"\n            - \"--listen\"\n            - \"0.0.0.0:"@, decimal_text(request.port as nat), "\"\n            - \"--advertise\"\n            - \"$(POD_NAME).focal.$(POD_NAMESPACE).svc.cluster.local:"@, "\"0.0.0.0:"@, "\"\n"@);
    assert("\"\n            - \"--advertise\"\n            - \"$(POD_NAME).focal.$(POD_NAMESPACE).svc.cluster.local:"@.skip(80) =~= "svc.cluster.local:"@);
    assert("\"\n"@.take(2) =~= "\"\n"@);
    lemma_line("      initContainers:\n        - name: prepare-volume\n          image: "@ + image + "\n          command: [\"/focal\"]\n          args: [\"--data-dir\", \"/var/lib/focal\", \"prepare-volume\", \"--owner\", \"65532:65532\"]\n          securityContext:\n            runAsUser: 0\n            runAsNonRoot: false\n            allowPrivilegeEscalation: false\n            readOnlyRootFilesystem: true\n            capabilities:\n              drop: [\"ALL\"]\n              add: [\"CHOWN\", \"FOWNER\", \"DAC_OVERRIDE\"]\n          volumeMounts:\n            - name: data\n              mountPath: /var/lib/focal\n      containers:\n        - name: focal\n          image: "@ + image + "\n          command: [\"/focal\"]\n          args:\n            - \"--config\"\n            - \"/etc/focal/focal.yaml\"\n            - \"--data-dir\"\n            - \"/var/lib/focal\"\n            - \"start\"\n            - \"--listen\"\n            - \"0.0.0.0:"@ + decimal_text(request.port as nat), "\"\n            - \"--advertise\"\n            - \"$(POD_NAME).focal.$(POD_NAMESPACE).svc.cluster.local:"@, decimal_text(request.port as nat), "\"\n"@, "svc.cluster.local:"@, "\"\n"@);
}

proof fn lemma_runtime(request: KubernetesRequest)
    ensures
        says(set_runtime(request), "containerPort: "@ + decimal_text(request.port as nat) + "\n"@),
{
    broadcast use what_is_said_is_said_within;

    reveal_strlit("          env:\n            - name: POD_NAME\n              valueFrom:\n                fieldRef:\n                  fieldPath: metadata.name\n            - name: POD_NAMESPACE\n              valueFrom:\n                fieldRef:\n                  fieldPath: metadata.namespace\n          ports:\n            - name: peer\n              containerPort: ");
    reveal_strlit("\n              protocol: UDP\n          securityContext:\n            allowPrivilegeEscalation: false\n            readOnlyRootFilesystem: true\n            capabilities:\n              drop: [\"ALL\"]\n          resources:\n            requests:\n              cpu: 500m\n              memory: 1Gi\n            limits:\n              memory: 2Gi\n          startupProbe:\n            exec:\n              command: [\"/focal\", \"--data-dir\", \"/var/lib/focal\", \"cluster\", \"node\", \"probe\", \"--check\", \"alive\"]\n            periodSeconds: 5\n            failureThreshold: 60\n          livenessProbe:\n            exec:\n              command: [\"/focal\", \"--data-dir\", \"/var/lib/focal\", \"cluster\", \"node\", \"probe\", \"--check\", \"alive\"]\n            periodSeconds: 10\n            failureThreshold: 6\n          readinessProbe:\n            exec:\n              command: [\"/focal\", \"--data-dir\", \"/var/lib/focal\", \"cluster\", \"node\", \"probe\", \"--check\", \"alive\"]\n            periodSeconds: 5\n            failureThreshold: 3\n          volumeMounts:\n            - name: data\n              mountPath: /var/lib/focal\n            - name: config\n              mountPath: /etc/focal/focal.yaml\n              subPath: focal.yaml\n              readOnly: true\n");
    reveal_strlit("containerPort: ");
    reveal_strlit("\n");
    assert("          env:\n            - name: POD_NAME\n              valueFrom:\n                fieldRef:\n                  fieldPath: metadata.name\n            - name: POD_NAMESPACE\n              valueFrom:\n                fieldRef:\n                  fieldPath: metadata.namespace\n          ports:\n            - name: peer\n              containerPort: "@.skip(327) =~= "containerPort: "@);
    assert("\n              protocol: UDP\n          securityContext:\n            allowPrivilegeEscalation: false\n            readOnlyRootFilesystem: true\n            capabilities:\n              drop: [\"ALL\"]\n          resources:\n            requests:\n              cpu: 500m\n              memory: 1Gi\n            limits:\n              memory: 2Gi\n          startupProbe:\n            exec:\n              command: [\"/focal\", \"--data-dir\", \"/var/lib/focal\", \"cluster\", \"node\", \"probe\", \"--check\", \"alive\"]\n            periodSeconds: 5\n            failureThreshold: 60\n          livenessProbe:\n            exec:\n              command: [\"/focal\", \"--data-dir\", \"/var/lib/focal\", \"cluster\", \"node\", \"probe\", \"--check\", \"alive\"]\n            periodSeconds: 10\n            failureThreshold: 6\n          readinessProbe:\n            exec:\n              command: [\"/focal\", \"--data-dir\", \"/var/lib/focal\", \"cluster\", \"node\", \"probe\", \"--check\", \"alive\"]\n            periodSeconds: 5\n            failureThreshold: 3\n          volumeMounts:\n            - name: data\n              mountPath: /var/lib/focal\n            - name: config\n              mountPath: /etc/focal/focal.yaml\n              subPath: focal.yaml\n              readOnly: true\n"@.take(1) =~= "\n"@);
    lemma_first_line("          env:\n            - name: POD_NAME\n              valueFrom:\n                fieldRef:\n                  fieldPath: metadata.name\n            - name: POD_NAMESPACE\n              valueFrom:\n                fieldRef:\n                  fieldPath: metadata.namespace\n          ports:\n            - name: peer\n              containerPort: "@, decimal_text(request.port as nat), "\n              protocol: UDP\n          securityContext:\n            allowPrivilegeEscalation: false\n            readOnlyRootFilesystem: true\n            capabilities:\n              drop: [\"ALL\"]\n          resources:\n            requests:\n              cpu: 500m\n              memory: 1Gi\n            limits:\n              memory: 2Gi\n          startupProbe:\n            exec:\n              command: [\"/focal\", \"--data-dir\", \"/var/lib/focal\", \"cluster\", \"node\", \"probe\", \"--check\", \"alive\"]\n            periodSeconds: 5\n            failureThreshold: 60\n          livenessProbe:\n            exec:\n              command: [\"/focal\", \"--data-dir\", \"/var/lib/focal\", \"cluster\", \"node\", \"probe\", \"--check\", \"alive\"]\n            periodSeconds: 10\n            failureThreshold: 6\n          readinessProbe:\n            exec:\n              command: [\"/focal\", \"--data-dir\", \"/var/lib/focal\", \"cluster\", \"node\", \"probe\", \"--check\", \"alive\"]\n            periodSeconds: 5\n            failureThreshold: 3\n          volumeMounts:\n            - name: data\n              mountPath: /var/lib/focal\n            - name: config\n              mountPath: /etc/focal/focal.yaml\n              subPath: focal.yaml\n              readOnly: true\n"@, "containerPort: "@, "\n"@);
}

proof fn lemma_volumes(set: SetModel)
    ensures
        says(set_volumes(set), "- key: "@ + set.name + ".yaml\n                path: focal.yaml\n"@),
{
    broadcast use what_is_said_is_said_within;

    reveal_strlit("      volumes:\n        - name: config\n          configMap:\n            name: focal-config\n            items:\n              - key: ");
    reveal_strlit(".yaml\n                path: focal.yaml\n");
    reveal_strlit("- key: ");
    assert("      volumes:\n        - name: config\n          configMap:\n            name: focal-config\n            items:\n              - key: "@.skip(123) =~= "- key: "@);
    assert(".yaml\n                path: focal.yaml\n"@.take(39) =~= ".yaml\n                path: focal.yaml\n"@);
    lemma_first_line("      volumes:\n        - name: config\n          configMap:\n            name: focal-config\n            items:\n              - key: "@, set.name, ".yaml\n                path: focal.yaml\n"@, "- key: "@, ".yaml\n                path: focal.yaml\n"@);
}

/// The service stands in its namespace and is reached at its port.
pub proof fn a_service_is_reached_at_its_port(namespace: Seq<char>, port: u16)
    ensures
        says(service_text(namespace, port), "  namespace: "@ + namespace + "\n"@),
        says(service_text(namespace, port), "      port: "@ + decimal_text(port as nat) + "\n"@),
{
    broadcast use what_is_said_is_said_within;

    reveal_strlit("apiVersion: v1\nkind: Service\nmetadata:\n  name: focal\n  namespace: ");
    reveal_strlit("\n  labels:\n    app.kubernetes.io/name: focal\n    app.kubernetes.io/managed-by: focal-deployment-render\nspec:\n  clusterIP: None\n  publishNotReadyAddresses: true\n  selector:\n    app.kubernetes.io/name: focal\n  ports:\n    - name: peer\n      port: ");
    reveal_strlit("  namespace: ");
    reveal_strlit("\n");
    reveal_strlit("\n      targetPort: peer\n      protocol: UDP\n");
    reveal_strlit("      port: ");
    assert("apiVersion: v1\nkind: Service\nmetadata:\n  name: focal\n  namespace: "@.skip(53) =~= "  namespace: "@);
    assert("\n  labels:\n    app.kubernetes.io/name: focal\n    app.kubernetes.io/managed-by: focal-deployment-render\nspec:\n  clusterIP: None\n  publishNotReadyAddresses: true\n  selector:\n    app.kubernetes.io/name: focal\n  ports:\n    - name: peer\n      port: "@.take(1) =~= "\n"@);
    lemma_first_line("apiVersion: v1\nkind: Service\nmetadata:\n  name: focal\n  namespace: "@, namespace, "\n  labels:\n    app.kubernetes.io/name: focal\n    app.kubernetes.io/managed-by: focal-deployment-render\nspec:\n  clusterIP: None\n  publishNotReadyAddresses: true\n  selector:\n    app.kubernetes.io/name: focal\n  ports:\n    - name: peer\n      port: "@, "  namespace: "@, "\n"@);
    assert("\n  labels:\n    app.kubernetes.io/name: focal\n    app.kubernetes.io/managed-by: focal-deployment-render\nspec:\n  clusterIP: None\n  publishNotReadyAddresses: true\n  selector:\n    app.kubernetes.io/name: focal\n  ports:\n    - name: peer\n      port: "@.skip(232) =~= "      port: "@);
    assert("\n      targetPort: peer\n      protocol: UDP\n"@.take(1) =~= "\n"@);
    lemma_line("apiVersion: v1\nkind: Service\nmetadata:\n  name: focal\n  namespace: "@ + namespace, "\n  labels:\n    app.kubernetes.io/name: focal\n    app.kubernetes.io/managed-by: focal-deployment-render\nspec:\n  clusterIP: None\n  publishNotReadyAddresses: true\n  selector:\n    app.kubernetes.io/name: focal\n  ports:\n    - name: peer\n      port: "@, decimal_text(port as nat), "\n      targetPort: peer\n      protocol: UDP\n"@, "      port: "@, "\n"@);
}

/// As many hosts may be taken down at once as the deployment survives, and the
/// budgets stand in its namespace.
pub proof fn a_budget_allows_what_is_survived(namespace: Seq<char>, failures: nat)
    ensures
        says(budgets_text(namespace, failures), "  name: focal-founder\n  namespace: "@ + namespace + "\n"@),
        says(budgets_text(namespace, failures), "  name: focal-hosts\n  namespace: "@ + namespace + "\n"@),
        says(budgets_text(namespace, failures), "  maxUnavailable: "@ + decimal_text(failures) + "\n"@),
{
    broadcast use what_is_said_is_said_within;

    reveal_strlit("apiVersion: policy/v1\nkind: PodDisruptionBudget\nmetadata:\n  name: focal-founder\n  namespace: ");
    reveal_strlit("\n  labels:\n    app.kubernetes.io/name: focal\n    app.kubernetes.io/managed-by: focal-deployment-render\nspec:\n  maxUnavailable: 0\n  selector:\n    matchLabels:\n      app.kubernetes.io/name: focal\n      app.kubernetes.io/component: founder\n---\napiVersion: policy/v1\nkind: PodDisruptionBudget\nmetadata:\n  name: focal-hosts\n  namespace: ");
    reveal_strlit("  name: focal-founder\n  namespace: ");
    reveal_strlit("\n");
    reveal_strlit("\n  labels:\n    app.kubernetes.io/name: focal\n    app.kubernetes.io/managed-by: focal-deployment-render\nspec:\n  maxUnavailable: ");
    reveal_strlit("  name: focal-hosts\n  namespace: ");
    reveal_strlit("\n  selector:\n    matchLabels:\n      app.kubernetes.io/name: focal\n      app.kubernetes.io/component: host\n");
    reveal_strlit("  maxUnavailable: ");
    assert("apiVersion: policy/v1\nkind: PodDisruptionBudget\nmetadata:\n  name: focal-founder\n  namespace: "@.skip(58) =~= "  name: focal-founder\n  namespace: "@);
    assert("\n  labels:\n    app.kubernetes.io/name: focal\n    app.kubernetes.io/managed-by: focal-deployment-render\nspec:\n  maxUnavailable: 0\n  selector:\n    matchLabels:\n      app.kubernetes.io/name: focal\n      app.kubernetes.io/component: founder\n---\napiVersion: policy/v1\nkind: PodDisruptionBudget\nmetadata:\n  name: focal-hosts\n  namespace: "@.take(1) =~= "\n"@);
    lemma_first_line("apiVersion: policy/v1\nkind: PodDisruptionBudget\nmetadata:\n  name: focal-founder\n  namespace: "@, namespace, "\n  labels:\n    app.kubernetes.io/name: focal\n    app.kubernetes.io/managed-by: focal-deployment-render\nspec:\n  maxUnavailable: 0\n  selector:\n    matchLabels:\n      app.kubernetes.io/name: focal\n      app.kubernetes.io/component: founder\n---\napiVersion: policy/v1\nkind: PodDisruptionBudget\nmetadata:\n  name: focal-hosts\n  namespace: "@, "  name: focal-founder\n  namespace: "@, "\n"@);
    assert("\n  labels:\n    app.kubernetes.io/name: focal\n    app.kubernetes.io/managed-by: focal-deployment-render\nspec:\n  maxUnavailable: 0\n  selector:\n    matchLabels:\n      app.kubernetes.io/name: focal\n      app.kubernetes.io/component: founder\n---\napiVersion: policy/v1\nkind: PodDisruptionBudget\nmetadata:\n  name: focal-hosts\n  namespace: "@.skip(299) =~= "  name: focal-hosts\n  namespace: "@);
    assert("\n  labels:\n    app.kubernetes.io/name: focal\n    app.kubernetes.io/managed-by: focal-deployment-render\nspec:\n  maxUnavailable: "@.take(1) =~= "\n"@);
    lemma_line("apiVersion: policy/v1\nkind: PodDisruptionBudget\nmetadata:\n  name: focal-founder\n  namespace: "@ + namespace, "\n  labels:\n    app.kubernetes.io/name: focal\n    app.kubernetes.io/managed-by: focal-deployment-render\nspec:\n  maxUnavailable: 0\n  selector:\n    matchLabels:\n      app.kubernetes.io/name: focal\n      app.kubernetes.io/component: founder\n---\napiVersion: policy/v1\nkind: PodDisruptionBudget\nmetadata:\n  name: focal-hosts\n  namespace: "@, namespace, "\n  labels:\n    app.kubernetes.io/name: focal\n    app.kubernetes.io/managed-by: focal-deployment-render\nspec:\n  maxUnavailable: "@, "  name: focal-hosts\n  namespace: "@, "\n"@);
    assert("\n  labels:\n    app.kubernetes.io/name: focal\n    app.kubernetes.io/managed-by: focal-deployment-render\nspec:\n  maxUnavailable: "@.skip(109) =~= "  maxUnavailable: "@);
    assert("\n  selector:\n    matchLabels:\n      app.kubernetes.io/name: focal\n      app.kubernetes.io/component: host\n"@.take(1) =~= "\n"@);
    lemma_line("apiVersion: policy/v1\nkind: PodDisruptionBudget\nmetadata:\n  name: focal-founder\n  namespace: "@ + namespace + "\n  labels:\n    app.kubernetes.io/name: focal\n    app.kubernetes.io/managed-by: focal-deployment-render\nspec:\n  maxUnavailable: 0\n  selector:\n    matchLabels:\n      app.kubernetes.io/name: focal\n      app.kubernetes.io/component: founder\n---\napiVersion: policy/v1\nkind: PodDisruptionBudget\nmetadata:\n  name: focal-hosts\n  namespace: "@ + namespace, "\n  labels:\n    app.kubernetes.io/name: focal\n    app.kubernetes.io/managed-by: focal-deployment-render\nspec:\n  maxUnavailable: "@, decimal_text(failures), "\n  selector:\n    matchLabels:\n      app.kubernetes.io/name: focal\n      app.kubernetes.io/component: host\n"@, "  maxUnavailable: "@, "\n"@);
}

/// The configuration map stands in its namespace.
pub proof fn the_configuration_stands_in_its_namespace(namespace: Seq<char>)
    ensures
        says(config_head(namespace), "  name: focal-config\n  namespace: "@ + namespace + "\n"@),
{
    broadcast use what_is_said_is_said_within;

    reveal_strlit("apiVersion: v1\nkind: ConfigMap\nmetadata:\n  name: focal-config\n  namespace: ");
    reveal_strlit("\n  labels:\n    app.kubernetes.io/name: focal\n    app.kubernetes.io/managed-by: focal-deployment-render\ndata:\n");
    reveal_strlit("  name: focal-config\n  namespace: ");
    reveal_strlit("\n");
    assert("apiVersion: v1\nkind: ConfigMap\nmetadata:\n  name: focal-config\n  namespace: "@.skip(41) =~= "  name: focal-config\n  namespace: "@);
    assert("\n  labels:\n    app.kubernetes.io/name: focal\n    app.kubernetes.io/managed-by: focal-deployment-render\ndata:\n"@.take(1) =~= "\n"@);
    lemma_first_line("apiVersion: v1\nkind: ConfigMap\nmetadata:\n  name: focal-config\n  namespace: "@, namespace, "\n  labels:\n    app.kubernetes.io/name: focal\n    app.kubernetes.io/managed-by: focal-deployment-render\ndata:\n"@, "  name: focal-config\n  namespace: "@, "\n"@);
}

proof fn lemma_unit(request: SystemdRequest)
    ensures
        says(unit_text(request), "\nUser="@ + request.user@ + "\n"@),
        says(unit_text(request), "\nGroup="@ + request.user@ + "\n"@),
        says(unit_text(request), "\nExecStart="@ + command_text(request) + "\n"@),
{
    broadcast use what_is_said_is_said_within;

    reveal_strlit("[Unit]\nDescription=Focal node\nDocumentation=https://github.com/hyper-light/focal\nAfter=network-online.target\nWants=network-online.target\n\n[Service]\nType=exec\nUser=");
    reveal_strlit("\nGroup=");
    reveal_strlit("\nUser=");
    reveal_strlit("\n");
    reveal_strlit("\nExecStart=");
    reveal_strlit("\nKillSignal=SIGTERM\nKillMode=mixed\nTimeoutStopSec=45\nRestart=on-failure\nRestartSec=2\nLimitNOFILE=65536\nUMask=0077\n");
    assert("[Unit]\nDescription=Focal node\nDocumentation=https://github.com/hyper-light/focal\nAfter=network-online.target\nWants=network-online.target\n\n[Service]\nType=exec\nUser="@.skip(157) =~= "\nUser="@);
    assert("\nGroup="@.take(1) =~= "\n"@);
    lemma_first_line("[Unit]\nDescription=Focal node\nDocumentation=https://github.com/hyper-light/focal\nAfter=network-online.target\nWants=network-online.target\n\n[Service]\nType=exec\nUser="@, request.user@, "\nGroup="@, "\nUser="@, "\n"@);
    assert("\nGroup="@.skip(0) =~= "\nGroup="@);
    assert("\nExecStart="@.take(1) =~= "\n"@);
    lemma_line("[Unit]\nDescription=Focal node\nDocumentation=https://github.com/hyper-light/focal\nAfter=network-online.target\nWants=network-online.target\n\n[Service]\nType=exec\nUser="@ + request.user@, "\nGroup="@, request.user@, "\nExecStart="@, "\nGroup="@, "\n"@);
    assert("\nExecStart="@.skip(0) =~= "\nExecStart="@);
    assert("\nKillSignal=SIGTERM\nKillMode=mixed\nTimeoutStopSec=45\nRestart=on-failure\nRestartSec=2\nLimitNOFILE=65536\nUMask=0077\n"@.take(1) =~= "\n"@);
    lemma_line("[Unit]\nDescription=Focal node\nDocumentation=https://github.com/hyper-light/focal\nAfter=network-online.target\nWants=network-online.target\n\n[Service]\nType=exec\nUser="@ + request.user@ + "\nGroup="@ + request.user@, "\nExecStart="@, command_text(request), "\nKillSignal=SIGTERM\nKillMode=mixed\nTimeoutStopSec=45\nRestart=on-failure\nRestartSec=2\nLimitNOFILE=65536\nUMask=0077\n"@, "\nExecStart="@, "\n"@);
}

/// The manifest of a set says what it runs: its name and namespace, as many
/// replicas as it has, its image, its port, its own configuration and its volume;
/// its pods carry the label by which it selects them. A set of a zone is bound to
/// that zone, and a host finds its invitation in the secret.
pub proof fn a_manifest_says_what_it_runs(
    set: SetModel,
    request: KubernetesRequest,
    image: Seq<char>,
    secret: Seq<char>,
    survive: FailureDomain,
)
    ensures
        ({
            let text = set_text(set, request, image, secret, survive);
            let port = decimal_text(request.port as nat);
            let component = if set.founder {
                "founder"@
            } else {
                "host"@
            };
            &&& says(text, "  name: "@ + set.name + "\n"@)
            &&& says(text, "  namespace: "@ + request.namespace@ + "\n"@)
            &&& says(text, "  replicas: "@ + decimal_text(set.replicas as nat) + "\n"@)
            &&& says(text, "component: "@ + component + "\n"@)
            &&& says(text, "\n      focal.dev/set: "@ + set.name + "\n"@)
            &&& says(text, "\n        focal.dev/set: "@ + set.name + "\n"@)
            &&& says(text, "prepare-volume\n          image: "@ + image + "\n"@)
            &&& says(text, "focal\n          image: "@ + image + "\n"@)
            &&& says(text, "\"0.0.0.0:"@ + port + "\"\n"@)
            &&& says(text, "svc.cluster.local:"@ + port + "\"\n"@)
            &&& says(text, "containerPort: "@ + port + "\n"@)
            &&& says(text, "- key: "@ + set.name + ".yaml\n                path: focal.yaml\n"@)
            &&& says(text, "            storage: "@ + request.volume@ + "\n"@)
            &&& request.storage_class matches Some(class) ==> says(
                text,
                "storageClassName: "@ + class@ + "\n"@,
            )
            &&& set.zone matches Some(zone) ==> says(
                text,
                "                      - "@ + yaml_text(zone) + "\n"@,
            )
            &&& !set.founder ==> says(text, "secretName: "@ + secret + "\n"@) && says(
                text,
                "/etc/focal/invitations/$(POD_NAME).invite"@,
            )
            &&& survive == FailureDomain::Node && set.replicas > 1 ==> says(
                text,
                "topologyKey: kubernetes.io/hostname\n          whenUnsatisfiable: DoNotSchedule"@,
            )
        }),
{
    broadcast use what_is_said_is_said_within;

    lemma_head(set, request);
    lemma_containers(request, image);
    lemma_runtime(request);
    lemma_volumes(set);
    lemma_claim(request);
    if set.zone is Some {
        lemma_affinity(set.zone->0);
    }
    if !set.founder {
        lemma_invitation(secret);
    }
    if survive == FailureDomain::Node && set.replicas > 1 {
        lemma_spread(set);
    }
}

proof fn lemma_claim(request: KubernetesRequest)
    ensures
        says(set_claim(request), "            storage: "@ + request.volume@ + "\n"@),
        request.storage_class matches Some(class) ==> says(
            set_claim(request),
            "storageClassName: "@ + class@ + "\n"@,
        ),
{
    broadcast use what_is_said_is_said_within;

    reveal_strlit("        resources:\n          requests:\n            storage: ");
    reveal_strlit("            storage: ");
    reveal_strlit("\n");
    reveal_strlit("        storageClassName: ");
    reveal_strlit("storageClassName: ");
    let a = "        resources:\n          requests:\n            storage: "@;
    assert(a.skip(a.len() - 21) =~= "            storage: "@);
    assert("\n"@.take(1) =~= "\n"@);
    lemma_first_line(a, request.volume@, "\n"@, "            storage: "@, "\n"@);
    if request.storage_class is Some {
        let b = "        storageClassName: "@;
        assert(b.skip(8) =~= "storageClassName: "@);
        lemma_first_line(
            b,
            request.storage_class->0@,
            "\n"@,
            "storageClassName: "@,
            "\n"@,
        );
    }
}

proof fn lemma_affinity(zone: Seq<char>)
    ensures
        says(set_affinity(Some(zone)), "                      - "@ + yaml_text(zone) + "\n"@),
{
    let a = "      affinity:\n        nodeAffinity:\n          requiredDuringSchedulingIgnoredDuringExecution:\n            nodeSelectorTerms:\n              - matchExpressions:\n                  - key: topology.kubernetes.io/zone\n                    operator: In\n                    values:\n                      - "@;
    reveal_strlit("      affinity:\n        nodeAffinity:\n          requiredDuringSchedulingIgnoredDuringExecution:\n            nodeSelectorTerms:\n              - matchExpressions:\n                  - key: topology.kubernetes.io/zone\n                    operator: In\n                    values:\n                      - ");
    reveal_strlit("                      - ");
    reveal_strlit("\n");
    assert(a.skip(a.len() - 24) =~= "                      - "@);
    assert("\n"@.take(1) =~= "\n"@);
    lemma_first_line(a, yaml_text(zone), "\n"@, "                      - "@, "\n"@);
}

proof fn lemma_invitation(secret: Seq<char>)
    ensures
        says(set_invite_volume(false, secret), "secretName: "@ + secret + "\n"@),
        says(set_invite(false), "/etc/focal/invitations/$(POD_NAME).invite"@),
{
    let a = "        - name: invitations\n          secret:\n            secretName: "@;
    let b = "\n            defaultMode: 288\n"@;
    reveal_strlit("        - name: invitations\n          secret:\n            secretName: ");
    reveal_strlit("\n            defaultMode: 288\n");
    reveal_strlit("secretName: ");
    reveal_strlit("\n");
    assert(a.skip(a.len() - 12) =~= "secretName: "@);
    assert(b.take(1) =~= "\n"@);
    lemma_first_line(a, secret, b, "secretName: "@, "\n"@);
    let c = "            - \"--invite-file\"\n            - \"/etc/focal/invitations/$(POD_NAME).invite\"\n"@;
    reveal_strlit("            - \"--invite-file\"\n            - \"/etc/focal/invitations/$(POD_NAME).invite\"\n");
    reveal_strlit("/etc/focal/invitations/$(POD_NAME).invite");
    let piece = "/etc/focal/invitations/$(POD_NAME).invite"@;
    assert(c.subrange(45, 45int + piece.len()) =~= piece);
    lemma_held(c, piece, 45);
}

proof fn lemma_spread(set: SetModel)
    requires
        set.replicas > 1,
    ensures
        says(
            set_spread(set, FailureDomain::Node),
            "topologyKey: kubernetes.io/hostname\n          whenUnsatisfiable: DoNotSchedule"@,
        ),
{
    let a = "      topologySpreadConstraints:\n        - maxSkew: 1\n          topologyKey: kubernetes.io/hostname\n          whenUnsatisfiable: DoNotSchedule\n          labelSelector:\n            matchLabels:\n              app.kubernetes.io/name: focal\n"@;
    reveal_strlit("      topologySpreadConstraints:\n        - maxSkew: 1\n          topologyKey: kubernetes.io/hostname\n          whenUnsatisfiable: DoNotSchedule\n          labelSelector:\n            matchLabels:\n              app.kubernetes.io/name: focal\n");
    reveal_strlit(
        "topologyKey: kubernetes.io/hostname\n          whenUnsatisfiable: DoNotSchedule",
    );
    let piece =
        "topologyKey: kubernetes.io/hostname\n          whenUnsatisfiable: DoNotSchedule"@;
    assert(a.subrange(64, 64int + piece.len()) =~= piece);
    lemma_held(a, piece, 64);
}

/// A founder waits for no invitation: whatever the secret, its manifest is the
/// same.
pub proof fn a_founder_needs_no_secret(
    set: SetModel,
    request: KubernetesRequest,
    image: Seq<char>,
    a: Seq<char>,
    b: Seq<char>,
    survive: FailureDomain,
)
    requires
        set.founder,
    ensures
        set_text(set, request, image, a, survive) == set_text(set, request, image, b, survive),
{
}

/// The founder is never taken down on purpose.
pub proof fn the_founder_stays_up(namespace: Seq<char>, failures: nat)
    ensures
        says(
            budgets_text(namespace, failures),
            "maxUnavailable: 0\n"@,
        ),
{
    broadcast use what_is_said_is_said_within;

    let a = "\n  labels:\n    app.kubernetes.io/name: focal\n    app.kubernetes.io/managed-by: focal-deployment-render\nspec:\n  maxUnavailable: 0\n  selector:\n    matchLabels:\n      app.kubernetes.io/name: focal\n      app.kubernetes.io/component: founder\n---\napiVersion: policy/v1\nkind: PodDisruptionBudget\nmetadata:\n  name: focal-hosts\n  namespace: "@;
    reveal_strlit("\n  labels:\n    app.kubernetes.io/name: focal\n    app.kubernetes.io/managed-by: focal-deployment-render\nspec:\n  maxUnavailable: 0\n  selector:\n    matchLabels:\n      app.kubernetes.io/name: focal\n      app.kubernetes.io/component: founder\n---\napiVersion: policy/v1\nkind: PodDisruptionBudget\nmetadata:\n  name: focal-hosts\n  namespace: ");
    reveal_strlit("maxUnavailable: 0\n");
    let piece = "maxUnavailable: 0\n"@;
    assert(a.subrange(111, 111int + piece.len()) =~= piece);
    lemma_held(a, piece, 111);
}

proof fn lemma_held(text: Seq<char>, piece: Seq<char>, at: int)
    requires
        holds_at(text, piece, at),
    ensures
        says(text, piece),
{
    reveal(says);
}

proof fn lemma_says_itself(text: Seq<char>)
    ensures
        says(text, text),
{
    assert(text.subrange(0, text.len() as int) =~= text);
    lemma_held(text, text, 0);
}

/// Every host is named where hosts are listed.
pub proof fn every_host_is_named(hosts: Seq<Seq<char>>, i: int)
    requires
        0 <= i < hosts.len(),
    ensures
        says(spaced(hosts), hosts[i]),
    decreases hosts.len(),
{
    broadcast use what_is_said_is_said_within;

    lemma_says_itself(hosts[i]);
    if hosts.len() > 1 {
        if i < hosts.len() - 1 {
            every_host_is_named(hosts.drop_last(), i);
            assert(hosts.drop_last()[i] == hosts[i]);
        }
    }
}

/// The script works in its namespace, fills its secret, and invites every host;
/// without a host it invites nobody.
pub proof fn the_script_invites_every_host(
    namespace: Seq<char>,
    secret: Seq<char>,
    hosts: Seq<Seq<char>>,
    i: int,
)
    ensures
        says(script_text(namespace, secret, hosts), "NAMESPACE=\""@ + namespace + "\"\n"@),
        says(script_text(namespace, secret, hosts), "SECRET=\""@ + secret + "\""@),
        hosts.len() == 0 ==> says(script_text(namespace, secret, hosts), "exit 0\n"@),
        0 <= i < hosts.len() ==> says(script_text(namespace, secret, hosts), hosts[i]),
        hosts.len() > 0 ==> says(
            script_text(namespace, secret, hosts),
            "HOSTS=\""@ + spaced(hosts) + "\"\n"@,
        ),
{
    broadcast use what_is_said_is_said_within;

    let top = "#!/bin/sh\n# Issue one invitation per host pod from the running founder and install\n# them as the secret the host StatefulSets mount (24 §24). Run where\n# kubectl reaches the cluster, once focal-founder-0 is Ready. Invitations\n# are one-use and expire after an hour; rerun for a pod that never joined.\nset -eu\n"@;
    reveal_strlit("NAMESPACE=\"");
    reveal_strlit("\"\nSECRET=\"");
    reveal_strlit("SECRET=\"");
    reveal_strlit("\"");
    reveal_strlit("\"\n");
    assert("NAMESPACE=\""@.skip(0) =~= "NAMESPACE=\""@);
    assert("\"\nSECRET=\""@.take(2) =~= "\"\n"@);
    assert("\"\nSECRET=\""@.skip(2) =~= "SECRET=\""@);
    assert("\""@.take(1) =~= "\""@);
    lemma_line(top, "NAMESPACE=\""@, namespace, "\"\nSECRET=\""@, "NAMESPACE=\""@, "\"\n"@);
    lemma_line(
        top + "NAMESPACE=\""@ + namespace,
        "\"\nSECRET=\""@,
        secret,
        "\""@,
        "SECRET=\""@,
        "\""@,
    );
    let head = top + "NAMESPACE=\""@ + namespace + "\"\nSECRET=\""@ + secret + "\""@ + "\n"@;
    if hosts.len() == 0 {
        let last = "echo \"no host pods to invite\"\nexit 0\n"@;
        reveal_strlit("echo \"no host pods to invite\"\nexit 0\n");
        reveal_strlit("exit 0\n");
        assert(last.subrange(30, 37) =~= "exit 0\n"@);
        lemma_held(last, "exit 0\n"@, 30);
    } else {
        let last = "\"\nFILES=\"\"\nfor host in $HOSTS; do\n  kubectl -n \"$NAMESPACE\" exec focal-founder-0 -c focal -- /focal --data-dir /var/lib/focal cluster invite --node \"$host\" --output - > \"$host.invite\"\n  FILES=\"$FILES --from-file=$host.invite=$host.invite\"\ndone\nkubectl -n \"$NAMESPACE\" delete secret \"$SECRET\" --ignore-not-found\n# shellcheck disable=SC2086\nkubectl -n \"$NAMESPACE\" create secret generic \"$SECRET\" $FILES\nrm -f -- *.invite\n"@;
        reveal_strlit("\"\nFILES=\"\"\nfor host in $HOSTS; do\n  kubectl -n \"$NAMESPACE\" exec focal-founder-0 -c focal -- /focal --data-dir /var/lib/focal cluster invite --node \"$host\" --output - > \"$host.invite\"\n  FILES=\"$FILES --from-file=$host.invite=$host.invite\"\ndone\nkubectl -n \"$NAMESPACE\" delete secret \"$SECRET\" --ignore-not-found\n# shellcheck disable=SC2086\nkubectl -n \"$NAMESPACE\" create secret generic \"$SECRET\" $FILES\nrm -f -- *.invite\n");
        reveal_strlit("HOSTS=\"");
        assert("HOSTS=\""@.skip(0) =~= "HOSTS=\""@);
        assert(last.take(2) =~= "\"\n"@);
        lemma_line(head, "HOSTS=\""@, spaced(hosts), last, "HOSTS=\""@, "\"\n"@);
        if 0 <= i < hosts.len() {
            every_host_is_named(hosts, i);
        }
    }
}

/// The configuration map holds an entry of every set.
pub proof fn every_set_has_its_configuration(
    settings: Settings,
    sets: Seq<SetModel>,
    n: int,
    i: int,
)
    requires
        0 <= i < n <= sets.len(),
    ensures
        says(config_entries(settings, sets, n), config_entry(settings, sets[i])),
    decreases n,
{
    let entry = config_entry(settings, sets[i]);
    let before = config_entries(settings, sets, n - 1);
    if i < n - 1 {
        every_set_has_its_configuration(settings, sets, n - 1, i);
    } else {
        lemma_says_itself(entry);
    }
    what_is_said_is_said_within(before, config_entry(settings, sets[n - 1]), entry);
}

/// A set's entry stands under its own name.
pub proof fn an_entry_stands_under_its_name(settings: Settings, set: SetModel)
    ensures
        says(config_entry(settings, set), set.name + ".yaml: |\n"@),
{
    lemma_names(
        "  "@,
        set.name,
        ".yaml: |\n"@,
        indented(
            config_of(settings, None, None, None, name_of(settings.topology.region), set.zone),
        ),
    );
}

proof fn lemma_regroup(a: Seq<char>, b: Seq<char>, c: Seq<char>)
    ensures
        a + b + c == a + (b + c),
{
    assert(a + b + c =~= a + (b + c));
}

proof fn lemma_names(front: Seq<char>, name: Seq<char>, end: Seq<char>, content: Seq<char>)
    ensures
        says(front + name + end + content, name + end),
{
    lemma_says_itself(name + end);
    what_is_said_is_said_within(front, name + end, name + end);
    lemma_regroup(front, name, end);
    what_is_said_is_said_within(front + name + end, content, name + end);
}

/// Every set's manifest is listed, and so are the files beside them.
pub proof fn every_manifest_is_listed(namespace: Seq<char>, sets: Seq<SetModel>, i: int)
    ensures
        0 <= i < sets.len() ==> says(
            kustomization_text(namespace, sets),
            "  - "@ + ("statefulset-"@ + sets[i].name + ".yaml"@) + "\n"@,
        ),
        says(
            kustomization_text(namespace, sets),
            "  - configmap.yaml\n  - service.yaml\n  - pdb.yaml\n"@,
        ),
        says(kustomization_text(namespace, sets), "namespace: "@ + namespace),
{
    broadcast use what_is_said_is_said_within;

    lemma_says_itself("  - configmap.yaml\n  - service.yaml\n  - pdb.yaml\n"@);
    lemma_says_itself("namespace: "@ + namespace);
    if 0 <= i < sets.len() {
        lemma_listed(sets, sets.len() as int, i);
    }
}

proof fn lemma_listed(sets: Seq<SetModel>, n: int, i: int)
    requires
        0 <= i < n <= sets.len(),
    ensures
        says(
            set_resources(sets, n),
            "  - "@ + ("statefulset-"@ + sets[i].name + ".yaml"@) + "\n"@,
        ),
    decreases n,
{
    broadcast use what_is_said_is_said_within;

    lemma_says_itself("  - "@ + ("statefulset-"@ + sets[i].name + ".yaml"@) + "\n"@);
    if i < n - 1 {
        lemma_listed(sets, n - 1, i);
    }
}

/// A unit's command is its own binary on its configuration and its data
/// directory, with the invitation where there is one.
pub proof fn a_command_names_what_it_works_on(request: SystemdRequest)
    ensures
        says(command_text(request), request.binary@ + " --config "@ + request.config_path@),
        says(command_text(request), " --data-dir "@ + request.data_dir@ + " start"@),
        command_text(request).len() >= request.binary@.len(),
        command_text(request).take(request.binary@.len() as int) == request.binary@,
        request.invite_file matches Some(path) ==> says(
            command_text(request),
            " --invite-file "@ + path@,
        ),
{
    let (a, b, c) = (request.binary@, request.config_path@, request.data_dir@);
    let base = a + " --config "@ + b + " --data-dir "@ + c + " start"@;
    lemma_parts(a, " --config "@, b, " --data-dir "@, c, " start"@);
    if request.invite_file is Some {
        let path = request.invite_file->0@;
        let front = a + " --config "@ + b;
        lemma_ends_in(base, " --invite-file "@, path);
        what_is_said_is_said_within(base, " --invite-file "@, front);
        what_is_said_is_said_within(base + " --invite-file "@, path, front);
        let behind = " --data-dir "@ + c + " start"@;
        what_is_said_is_said_within(base, " --invite-file "@, behind);
        what_is_said_is_said_within(base + " --invite-file "@, path, behind);
    }
}

proof fn lemma_parts(
    a: Seq<char>,
    first: Seq<char>,
    b: Seq<char>,
    second: Seq<char>,
    c: Seq<char>,
    third: Seq<char>,
)
    ensures
        ({
            let text = a + first + b + second + c + third;
            &&& says(text, a + first + b)
            &&& says(text, second + c + third)
            &&& text.len() >= a.len()
            &&& text.take(a.len() as int) == a
        }),
{
    let text = a + first + b + second + c + third;
    let front = a + first + b;
    let behind = second + c + third;
    assert(text =~= front + behind);
    lemma_says_itself(front);
    lemma_says_itself(behind);
    what_is_said_is_said_within(front, behind, front);
    what_is_said_is_said_within(front, behind, behind);
    assert(text.take(a.len() as int) =~= a);
}

proof fn lemma_ends_in(base: Seq<char>, key: Seq<char>, value: Seq<char>)
    ensures
        says(base + key + value, key + value),
        forall|n: int|
            0 <= n <= base.len() ==> (#[trigger] (base + key + value).take(n)) == base.take(n),
{
    let text = base + key + value;
    lemma_regroup(base, key, value);
    lemma_says_itself(key + value);
    what_is_said_is_said_within(base, key + value, key + value);
    assert forall|n: int| 0 <= n <= base.len() implies (#[trigger] text.take(n)) == base.take(
        n,
    ) by {
        assert(text.take(n) =~= base.take(n));
    }
}

/// A unit runs its command as its user, and may write where its data lies.
pub proof fn a_unit_runs_its_command(request: SystemdRequest)
    ensures
        says(unit_text(request), "\nUser="@ + request.user@ + "\n"@),
        says(unit_text(request), "\nGroup="@ + request.user@ + "\n"@),
        says(unit_text(request), "\nExecStart="@ + command_text(request) + "\n"@),
        request.data_dir@ != "/var/lib/focal"@ ==> says(
            unit_text(request),
            "ReadWritePaths="@ + request.data_dir@ + "\n"@,
        ),
        request.data_dir@ == "/var/lib/focal"@ ==> says(
            unit_text(request),
            "StateDirectory=focal\nStateDirectoryMode=0700\n"@,
        ),
{
    broadcast use what_is_said_is_said_within;

    lemma_unit(request);
    lemma_says_itself("ReadWritePaths="@ + request.data_dir@ + "\n"@);
    lemma_says_itself("StateDirectory=focal\nStateDirectoryMode=0700\n"@);
}

/// A unit is refused exactly where a path is not absolute or holds a space or a
/// line's end, or the user is no name; and it tells where no address is advertised.
pub proof fn a_unit_is_of_sound_paths(settings: Settings, request: SystemdRequest)
    ensures
        refusal(request) is None <==> is_path(request.binary@) && is_path(request.data_dir@)
            && is_path(request.config_path@) && is_label(request.user@) && (
        request.invite_file matches Some(path) ==> is_path(path@)),
        assets_of(settings, request).missing.contains(MissingModel::Advertise)
            <==> settings.node.advertise is None,
        assets_of(settings, request).files.len() == 2,
        assets_of(settings, request).files[1].content == unit_text(request),
{
    if settings.node.advertise is None {
        assert(assets_of(settings, request).missing[0] == MissingModel::Advertise);
    }
}

/// A path that does not begin at the root, or that holds a space or a line's end
/// anywhere, is none; and no image holds a space, a line's end or a quote.
pub proof fn what_is_no_path(text: Seq<char>, i: int)
    ensures
        text.len() == 0 || text[0] != '/' ==> !is_path(text),
        0 <= i < text.len() && (text[i] == ' ' || text[i] == '\n') ==> !is_path(text) && !is_image(
            text,
        ),
        0 <= i < text.len() && text[i] == '"' ==> !is_image(text),
        text.len() == 0 ==> !is_image(text) && !is_quantity(text),
        text.len() > 32 ==> !is_quantity(text),
        is_path("/"@),
{
    reveal_strlit("/");
}

/// The letters, the digits and the point are what a quantity is made of.
pub proof fn what_a_quantity_is_made_of(c: char)
    ensures
        quantity_char(c) <==> 'a' <= c <= 'z' || 'A' <= c <= 'Z' || '0' <= c <= '9' || c == '.',
{
}

/// A configuration that lies where systemd keeps one is kept there.
pub proof fn a_configuration_is_kept_where_it_lies(request: SystemdRequest, name: Seq<char>)
    requires
        request.config_path@ == "/etc/focal/"@ + name,
    ensures
        configuration_text(request) == "ConfigurationDirectory=focal\n"@,
        says(unit_text(request), "ConfigurationDirectory=focal\n"@),
{
    broadcast use what_is_said_is_said_within;

    let prefix = "/etc/focal/"@;
    assert(request.config_path@.take(prefix.len() as int) =~= prefix);
    lemma_says_itself("ConfigurationDirectory=focal\n"@);
}

} // verus!
