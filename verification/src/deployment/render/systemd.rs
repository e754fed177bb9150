//! A supervised host: one unit that starts the node under its own user with
//! the hardening a state-only service can carry, stops it with SIGTERM
//! inside the node's own cleanup bound, and restarts it on failure.
use super::{
    borrowed, config_yaml, is_label, valid_label, yaml_string, yaml_text,
    AssetsModel, ConfigNode, FileModel, MissingInput, MissingModel, RenderedAssets,
};
use crate::config::Settings;
use crate::deployment::facts::name_of;
use crate::deployment::DeploymentError;
use crate::text::same_text;
use vstd::prelude::*;
use vstd::string::StringExecFns;

verus! {

/// What a systemd render needs beyond the configuration.
#[derive(Debug, Clone, PartialEq, Eq)]
pub struct SystemdRequest {
    /// The installed binary.
    pub binary: String,
    /// The service user and group; the data directory is theirs.
    pub user: String,
    /// The data directory; `/var/lib/focal` is managed as a state directory.
    pub data_dir: String,
    /// Where the rendered configuration is installed.
    pub config_path: String,
    /// A host's invitation, redeemed at the first start.
    pub invite_file: Option<String>,
}

impl Default for SystemdRequest {
    fn default() -> (request: Self)
        ensures
            request.binary@ == "/usr/local/bin/focal"@,
            request.user@ == "focal"@,
            request.data_dir@ == "/var/lib/focal"@,
            request.config_path@ == "/etc/focal/focal.yaml"@,
            request.invite_file is None,
    {
        SystemdRequest {
            binary: String::from_str("/usr/local/bin/focal"),
            user: String::from_str("focal"),
            data_dir: String::from_str("/var/lib/focal"),
            config_path: String::from_str("/etc/focal/focal.yaml"),
            invite_file: None,
        }
    }
}

/// An absolute path without spaces.
pub open spec fn is_path(text: Seq<char>) -> bool {
    &&& text.len() > 0
    &&& text[0] == '/'
    &&& forall|i: int| 0 <= i < text.len() ==> (#[trigger] text[i]) != '\n' && text[i] != ' '
}

fn valid_path(text: &str) -> (valid: bool)
    ensures
        valid == is_path(text@),
{
    let mut first = true;
    let mut valid = true;
    for c in it: text.chars()
        invariant
            it.seq() == text@,
            first == (it.index() == 0),
            valid == ((it.index() > 0 ==> text@[0] == '/') && (forall|i: int|
                0 <= i < it.index() ==> (#[trigger] text@[i]) != '\n' && text@[i] != ' ')),
    {
        assert(c == text@[it.index() as int]);
        if (first && c != '/') || c == '\n' || c == ' ' {
            valid = false;
        }
        first = false;
    }
    valid && !first
}

/// Whether a text starts with another.
pub open spec fn begins(text: Seq<char>, prefix: Seq<char>) -> bool {
    text.len() >= prefix.len() && text.take(prefix.len() as int) == prefix
}

fn has_prefix(text: &str, prefix: &str) -> (found: bool)
    ensures
        found == begins(text@, prefix@),
{
    let count: usize = prefix.unicode_len();
    if text.unicode_len() < count {
        return false;
    }
    let head = text.substring_char(0, count);
    assert(head@ =~= text@.take(count as int));
    same_text(head, prefix)
}

/// Why a request is refused.
pub open spec fn refusal(request: SystemdRequest) -> Option<Seq<char>> {
    if !is_path(request.binary@) {
        Some("--binary"@ + " must be an absolute path without spaces"@)
    } else if !is_path(request.data_dir@) {
        Some("--state-dir"@ + " must be an absolute path without spaces"@)
    } else if !is_path(request.config_path@) {
        Some("--config-path"@ + " must be an absolute path without spaces"@)
    } else if !is_label(request.user@) {
        Some("--user must be a lowercase name of at most 63 bytes"@)
    } else if name_of(request.invite_file) matches Some(path) && !is_path(path) {
        Some("--invite-file must be an absolute path without spaces"@)
    } else {
        None
    }
}

/// The command the unit starts.
pub open spec fn command_text(request: SystemdRequest) -> Seq<char> {
    let base = request.binary@ + " --config "@ + request.config_path@ + " --data-dir "@
        + request.data_dir@ + " start"@;
    match request.invite_file {
        Some(path) => base + " --invite-file "@ + path@,
        None => base,
    }
}

/// Whether the data directory is the one systemd manages.
pub open spec fn managed(request: SystemdRequest) -> bool {
    request.data_dir@ == "/var/lib/focal"@
}

/// How the unit may write its data directory.
pub open spec fn state_text(request: SystemdRequest) -> Seq<char> {
    if managed(request) {
        "StateDirectory=focal\nStateDirectoryMode=0700\n"@
    } else {
        "ReadWritePaths="@ + request.data_dir@ + "\n"@
    }
}

/// How the unit finds its configuration.
pub open spec fn configuration_text(request: SystemdRequest) -> Seq<char> {
    if begins(request.config_path@, "/etc/focal/"@) {
        "ConfigurationDirectory=focal\n"@
    } else {
        Seq::empty()
    }
}

/// The unit file.
pub open spec fn unit_text(request: SystemdRequest) -> Seq<char> {
    "[Unit]\nDescription=Focal node\nDocumentation=https://github.com/hyper-light/focal\nAfter=network-online.target\nWants=network-online.target\n\n[Service]\nType=exec\nUser="@ + request.user@ + "\nGroup="@ + request.user@ + "\nExecStart="@ + command_text(request) + "\nKillSignal=SIGTERM\nKillMode=mixed\nTimeoutStopSec=45\nRestart=on-failure\nRestartSec=2\nLimitNOFILE=65536\nUMask=0077\n"@
        + state_text(request) + configuration_text(request) + "NoNewPrivileges=yes\nProtectSystem=strict\nProtectHome=yes\nPrivateTmp=yes\nPrivateDevices=yes\nProtectKernelTunables=yes\nProtectKernelModules=yes\nProtectKernelLogs=yes\nProtectControlGroups=yes\nProtectClock=yes\nProtectHostname=yes\nRestrictAddressFamilies=AF_UNIX AF_INET AF_INET6\nRestrictNamespaces=yes\nRestrictRealtime=yes\nRestrictSUIDSGID=yes\nLockPersonality=yes\nMemoryDenyWriteExecute=yes\nSystemCallArchitectures=native\nSystemCallFilter=@system-service\nSystemCallFilter=~@privileged @resources\nCapabilityBoundingSet=\nAmbientCapabilities=\n\n[Install]\nWantedBy=multi-user.target\n"@
}

/// The note on a data directory systemd does not manage.
pub open spec fn directory_note(request: SystemdRequest) -> Seq<char> {
    request.data_dir@ + " is outside /var/lib: create it owned by "@ + request.user@ + " with mode 0700 before the first start (`focal --data-dir "@ + request.data_dir@ + " prepare-volume --owner UID:GID`)."@
}

/// The note on installing the files.
pub open spec fn install_note(request: SystemdRequest) -> Seq<char> {
    "Install "@ + yaml_text("focal.service"@) + " as the unit, "@ + yaml_text("focal.yaml"@) + " as the configuration ("@
        + request.config_path@ + "), then `systemctl enable --now focal`. The node stops on SIGTERM within its 30 s cleanup bound; the unit waits 45 s before killing."@
}

/// The note on readiness.
pub open spec fn readiness_note() -> Seq<char> {
    "Readiness is `focal cluster node probe --check alive|catching-up|authoritative|policy` over the data directory's admin socket; a listening process is not authoritative because it listens."@
}

/// The facts the configuration file fixes.
pub open spec fn config_file(settings: Settings) -> Seq<char> {
    super::config_of(
        settings,
        name_of(settings.node.listen),
        name_of(settings.node.advertise),
        name_of(settings.node.metrics_listen),
        name_of(settings.topology.region),
        name_of(settings.topology.zone),
    )
}

/// What a systemd render produces.
pub open spec fn assets_of(settings: Settings, request: SystemdRequest) -> AssetsModel {
    AssetsModel {
        files: seq![
            FileModel { name: "focal.yaml"@, content: config_file(settings) },
            FileModel { name: "focal.service"@, content: unit_text(request) },
        ],
        missing: if settings.node.advertise is None {
            seq![MissingModel::Advertise]
        } else {
            Seq::empty()
        },
        notes: if managed(request) {
            seq![install_note(request), readiness_note()]
        } else {
            seq![directory_note(request), install_note(request), readiness_note()]
        },
    }
}

fn unit(request: &SystemdRequest) -> (out: String)
    ensures
        out@ == unit_text(*request),
{
    let mut command = String::from_str(request.binary.as_str());
    command.append(" --config ");
    command.append(request.config_path.as_str());
    command.append(" --data-dir ");
    command.append(request.data_dir.as_str());
    command.append(" start");
    if let Some(path) = &request.invite_file {
        command.append(" --invite-file ");
        command.append(path.as_str());
    }
    let state = if same_text(request.data_dir.as_str(), "/var/lib/focal") {
        String::from_str("StateDirectory=focal\nStateDirectoryMode=0700\n")
    } else {
        String::from_str("ReadWritePaths=").concat(request.data_dir.as_str()).concat("\n")
    };
    let configuration = if has_prefix(request.config_path.as_str(), "/etc/focal/") {
        String::from_str("ConfigurationDirectory=focal\n")
    } else {
        String::new()
    };
    let mut out = String::from_str("[Unit]\nDescription=Focal node\nDocumentation=https://github.com/hyper-light/focal\nAfter=network-online.target\nWants=network-online.target\n\n[Service]\nType=exec\nUser=");
    out.append(request.user.as_str());
    out.append("\nGroup=");
    out.append(request.user.as_str());
    out.append("\nExecStart=");
    out.append(command.as_str());
    out.append("\nKillSignal=SIGTERM\nKillMode=mixed\nTimeoutStopSec=45\nRestart=on-failure\nRestartSec=2\nLimitNOFILE=65536\nUMask=0077\n");
    out.append(state.as_str());
    out.append(configuration.as_str());
    out.append("NoNewPrivileges=yes\nProtectSystem=strict\nProtectHome=yes\nPrivateTmp=yes\nPrivateDevices=yes\nProtectKernelTunables=yes\nProtectKernelModules=yes\nProtectKernelLogs=yes\nProtectControlGroups=yes\nProtectClock=yes\nProtectHostname=yes\nRestrictAddressFamilies=AF_UNIX AF_INET AF_INET6\nRestrictNamespaces=yes\nRestrictRealtime=yes\nRestrictSUIDSGID=yes\nLockPersonality=yes\nMemoryDenyWriteExecute=yes\nSystemCallArchitectures=native\nSystemCallFilter=@system-service\nSystemCallFilter=~@privileged @resources\nCapabilityBoundingSet=\nAmbientCapabilities=\n\n[Install]\nWantedBy=multi-user.target\n");
    out
}

/// Render the unit and the configuration of a supervised host. `valid` is what
/// the validation of the settings says: settings that are not valid are refused
/// before anything else.
pub fn render(settings: &Settings, request: &SystemdRequest, valid: Result<(), String>) -> (assets:
    Result<RenderedAssets, DeploymentError>)
    ensures
        match valid {
            Err(text) => assets matches Err(DeploymentError::Config(why)) && why@ == text@,
            Ok(_) => match refusal(*request) {
                Some(text) => assets matches Err(DeploymentError::Render(why)) && why@ == text,
                None => assets matches Ok(a) && a@ == assets_of(*settings, *request),
            },
        },
{
    if let Err(text) = valid {
        return Err(DeploymentError::Config(text));
    }
    if !valid_path(request.binary.as_str()) {
        return Err(
            DeploymentError::Render(
                String::from_str("--binary").concat(" must be an absolute path without spaces"),
            ),
        );
    }
    if !valid_path(request.data_dir.as_str()) {
        return Err(
            DeploymentError::Render(
                String::from_str("--state-dir").concat(" must be an absolute path without spaces"),
            ),
        );
    }
    if !valid_path(request.config_path.as_str()) {
        return Err(
            DeploymentError::Render(
                String::from_str("--config-path").concat(" must be an absolute path without spaces"),
            ),
        );
    }
    if !valid_label(request.user.as_str()) {
        return Err(
            DeploymentError::Render(
                String::from_str("--user must be a lowercase name of at most 63 bytes"),
            ),
        );
    }
    if let Some(path) = &request.invite_file {
        if !valid_path(path.as_str()) {
            return Err(
                DeploymentError::Render(
                    String::from_str("--invite-file must be an absolute path without spaces"),
                ),
            );
        }
    }
    let mut assets = RenderedAssets::empty();
    if settings.node.advertise.is_none() {
        assets.lacks(MissingInput::Advertise);
    }
    let config = config_yaml(
        settings,
        &ConfigNode {
            listen: borrowed(&settings.node.listen),
            advertise: borrowed(&settings.node.advertise),
            metrics_listen: borrowed(&settings.node.metrics_listen),
            region: borrowed(&settings.topology.region),
            zone: borrowed(&settings.topology.zone),
        },
    );
    assets.push("focal.yaml", config);
    if !same_text(request.data_dir.as_str(), "/var/lib/focal") {
        let mut note = String::from_str(request.data_dir.as_str());
        note.append(" is outside /var/lib: create it owned by ");
        note.append(request.user.as_str());
        note.append(" with mode 0700 before the first start (`focal --data-dir ");
        note.append(request.data_dir.as_str());
        note.append(" prepare-volume --owner UID:GID`).");
        assets.note(note);
    }
    assets.push("focal.service", unit(request));
    let mut note = String::from_str("Install ");
    note.append(yaml_string("focal.service").as_str());
    note.append(" as the unit, ");
    note.append(yaml_string("focal.yaml").as_str());
    note.append(" as the configuration (");
    note.append(request.config_path.as_str());
    note.append("), then `systemctl enable --now focal`. The node stops on SIGTERM within its 30 s cleanup bound; the unit waits 45 s before killing.");
    assets.note(note);
    assets.note(String::from_str("Readiness is `focal cluster node probe --check alive|catching-up|authoritative|policy` over the data directory's admin socket; a listening process is not authoritative because it listens."));
    proof {
        let expected = assets_of(*settings, *request);
        assert(assets@.files =~= expected.files);
        assert(assets@.missing =~= expected.missing);
        assert(assets@.notes =~= expected.notes);
    }
    Ok(assets)
}

} // verus!
