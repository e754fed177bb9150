//! Packaging as rendered assets: a systemd unit for a supervised host and
//! Kubernetes manifests for a namespace, both computed from the requested
//! configuration and a few infrastructure facts. The renderer never solves
//! policy and never touches a cluster: it names every fact it lacks
//! (`MissingInput`) instead of guessing it, and the files it writes are the
//! same bytes for the same inputs.
pub mod kubernetes;
pub mod manifests;
pub mod reading;
pub mod spread;
pub mod systemd;

use super::facts::name_of;
use super::{survive_name, survive_text};
use crate::config::{texts, Settings};
use crate::text::{decimal, decimal_text, digit_char};
use vstd::prelude::*;
use vstd::string::StringExecFns;

verus! {

/// `String::push`: the character is appended.
pub assume_specification[ String::push ](text: &mut String, c: char)
    ensures
        final(text)@ == old(text)@.push(c),
;

/// One rendered file, relative to the output directory.
#[derive(Debug, Clone, PartialEq, Eq)]
pub struct RenderedFile {
    pub name: String,
    pub content: String,
}

/// An infrastructure fact the renderer needs and was not given. The assets
/// are rendered with a stated placeholder where one is safe; the operator
/// supplies the fact and renders again, or edits the placeholder.
#[derive(Debug, Clone, PartialEq, Eq)]
pub enum MissingInput {
    /// No `--image`; the manifests name the local tag `focal:<version>`.
    Image { placeholder: String },
    /// No `--storage-class`; the claims take the cluster's default class.
    StorageClass,
    /// No `--secret`; the hosts mount `focal-invitations`, and the
    /// invitations still have to be issued by the founder and installed.
    InvitationSecret { secret: String, invitations: Vec<String>, script: String },
    /// Zone survival needs `2f+1` zones named with `--zone`.
    Zones { needed: usize, given: usize },
    /// A systemd host advertises an address or name its peers reach.
    Advertise,
}

/// What a render produced.
#[derive(Debug, Clone, PartialEq, Eq)]
pub struct RenderedAssets {
    pub files: Vec<RenderedFile>,
    pub missing: Vec<MissingInput>,
    /// Facts the operator should know before applying: what is unqualified,
    /// what the probes mean, where the invitations come from.
    pub notes: Vec<String>,
}

/// A file as characters.
pub struct FileModel {
    pub name: Seq<char>,
    pub content: Seq<char>,
}

/// A missing input as characters.
pub enum MissingModel {
    Image { placeholder: Seq<char> },
    StorageClass,
    InvitationSecret { secret: Seq<char>, invitations: Seq<Seq<char>>, script: Seq<char> },
    Zones { needed: nat, given: nat },
    Advertise,
}

/// Assets as characters.
pub struct AssetsModel {
    pub files: Seq<FileModel>,
    pub missing: Seq<MissingModel>,
    pub notes: Seq<Seq<char>>,
}

impl View for MissingInput {
    type V = MissingModel;

    open spec fn view(&self) -> MissingModel {
        match *self {
            MissingInput::Image { placeholder } => MissingModel::Image {
                placeholder: placeholder@,
            },
            MissingInput::StorageClass => MissingModel::StorageClass,
            MissingInput::InvitationSecret { secret, invitations, script } =>
                MissingModel::InvitationSecret {
                secret: secret@,
                invitations: texts(invitations@),
                script: script@,
            },
            MissingInput::Zones { needed, given } => MissingModel::Zones {
                needed: needed as nat,
                given: given as nat,
            },
            MissingInput::Advertise => MissingModel::Advertise,
        }
    }
}

impl View for RenderedAssets {
    type V = AssetsModel;

    open spec fn view(&self) -> AssetsModel {
        AssetsModel {
            files: Seq::new(
                self.files@.len(),
                |i: int| FileModel { name: self.files@[i].name@, content: self.files@[i].content@ },
            ),
            missing: Seq::new(self.missing@.len(), |i: int| self.missing@[i]@),
            notes: texts(self.notes@),
        }
    }
}

impl RenderedAssets {
    /// Nothing rendered yet.
    pub fn empty() -> (assets: Self)
        ensures
            assets@ == (AssetsModel {
                files: Seq::empty(),
                missing: Seq::empty(),
                notes: Seq::empty(),
            }),
    {
        let assets = RenderedAssets { files: Vec::new(), missing: Vec::new(), notes: Vec::new() };
        assert(assets@.files =~= Seq::empty());
        assert(assets@.missing =~= Seq::empty());
        assert(assets@.notes =~= Seq::empty());
        assets
    }

    /// Add a file.
    pub fn push(&mut self, name: &str, content: String)
        ensures
            final(self)@ == (AssetsModel {
                files: old(self)@.files.push(FileModel { name: name@, content: content@ }),
                ..old(self)@
            }),
    {
        self.files.push(RenderedFile { name: String::from_str(name), content });
        assert(self@.files =~= old(self)@.files.push(FileModel { name: name@, content: content@ }));
        assert(self@.missing =~= old(self)@.missing);
        assert(self@.notes =~= old(self)@.notes);
    }

    /// Name a missing input.
    pub fn lacks(&mut self, input: MissingInput)
        ensures
            final(self)@ == (AssetsModel {
                missing: old(self)@.missing.push(input@),
                ..old(self)@
            }),
    {
        self.missing.push(input);
        assert(self@.files =~= old(self)@.files);
        assert(self@.missing =~= old(self)@.missing.push(input@));
        assert(self@.notes =~= old(self)@.notes);
    }

    /// Add a note.
    pub fn note(&mut self, text: String)
        ensures
            final(self)@ == (AssetsModel { notes: old(self)@.notes.push(text@), ..old(self)@ }),
    {
        self.notes.push(text);
        assert(self@.files =~= old(self)@.files);
        assert(self@.missing =~= old(self)@.missing);
        assert(self@.notes =~= old(self)@.notes.push(text@));
    }
}

/// Whether a character is a control character.
pub open spec fn is_control(c: char) -> bool {
    (c as u32) < 0x20 || (0x7f <= (c as u32) && (c as u32) <= 0x9f)
}

/// A character inside a double-quoted scalar.
pub open spec fn escape_char(c: char) -> Seq<char> {
    if c == '"' {
        seq!['\\', '"']
    } else if c == '\\' {
        seq!['\\', '\\']
    } else if c == '\n' {
        seq!['\\', 'n']
    } else if c == '\t' {
        seq!['\\', 't']
    } else if is_control(c) {
        seq![
            '\\',
            'u',
            '0',
            '0',
            digit_char((c as u32) as int / 16),
            digit_char((c as u32) as int % 16),
        ]
    } else {
        seq![c]
    }
}

/// A text inside a double-quoted scalar.
pub open spec fn escaped(value: Seq<char>) -> Seq<char>
    decreases value.len(),
{
    if value.len() == 0 {
        Seq::empty()
    } else {
        escaped(value.drop_last()) + escape_char(value.last())
    }
}

/// A double-quoted scalar.
pub open spec fn yaml_text(value: Seq<char>) -> Seq<char> {
    seq!['"'] + escaped(value) + seq!['"']
}

fn push_digit(out: &mut String, n: u32)
    requires
        n < 16,
    ensures
        final(out)@ == old(out)@.push(digit_char(n as int)),
{
    let c = match n {
        0 => '0',
        1 => '1',
        2 => '2',
        3 => '3',
        4 => '4',
        5 => '5',
        6 => '6',
        7 => '7',
        8 => '8',
        9 => '9',
        10 => 'a',
        11 => 'b',
        12 => 'c',
        13 => 'd',
        14 => 'e',
        _ => 'f',
    };
    out.push(c);
}

fn push_escaped(out: &mut String, c: char)
    ensures
        final(out)@ == old(out)@ + escape_char(c),
{
    let code: u32 = c as u32;
    if c == '"' {
        out.push('\\');
        out.push('"');
    } else if c == '\\' {
        out.push('\\');
        out.push('\\');
    } else if c == '\n' {
        out.push('\\');
        out.push('n');
    } else if c == '\t' {
        out.push('\\');
        out.push('t');
    } else if code < 0x20 || (0x7f <= code && code <= 0x9f) {
        out.push('\\');
        out.push('u');
        out.push('0');
        out.push('0');
        push_digit(out, code / 16);
        push_digit(out, code % 16);
    } else {
        out.push(c);
    }
    assert(out@ =~= old(out)@ + escape_char(c));
}

/// A double-quoted YAML scalar: every value a package carries is quoted, so
/// a zone named `no` or a port-like `1e3` stays a string.
pub fn yaml_string(value: &str) -> (out: String)
    ensures
        out@ == yaml_text(value@),
{
    let mut out = String::new();
    out.push('"');
    assert(out@ =~= seq!['"'] + escaped(value@.take(0)));
    for c in it: value.chars()
        invariant
            it.seq() == value@,
            out@ == seq!['"'] + escaped(value@.take(it.index() as int)),
    {
        let ghost i = it.index() as int;
        proof {
            assert(value@.take(i + 1).drop_last() =~= value@.take(i));
            assert(value@.take(i + 1).last() == c);
        }
        push_escaped(&mut out, c);
        assert(out@ =~= seq!['"'] + escaped(value@.take(i + 1)));
    }
    assert(value@.take(value@.len() as int) =~= value@);
    out.push('"');
    assert(out@ =~= yaml_text(value@));
    out
}

/// Values in a flow sequence, quoted.
pub open spec fn list_text(values: Seq<Seq<char>>) -> Seq<char>
    decreases values.len(),
{
    if values.len() == 0 {
        Seq::empty()
    } else if values.len() == 1 {
        yaml_text(values[0])
    } else {
        list_text(values.drop_last()) + ", "@ + yaml_text(values.last())
    }
}

/// Write values as a flow sequence.
pub fn list(values: &[String]) -> (out: String)
    ensures
        out@ == list_text(texts(values@)),
{
    let mut out = String::new();
    let ghost all = texts(values@);
    let mut i: usize = 0;
    assert(out@ =~= list_text(all.take(0)));
    while i < values.len()
        invariant
            i <= values.len(),
            all == texts(values@),
            out@ == list_text(all.take(i as int)),
        decreases values.len() - i,
    {
        proof {
            assert(all.take(i + 1).drop_last() =~= all.take(i as int));
            assert(all.take(i + 1).last() == values@[i as int]@);
        }
        if i > 0 {
            out.append(", ");
        }
        out.append(yaml_string(values[i].as_str()).as_str());
        assert(out@ =~= list_text(all.take(i + 1)));
        i += 1;
    }
    assert(all.take(all.len() as int) =~= all);
    out
}

/// The per-node facts a configuration file fixes.
#[derive(Debug, Clone, Copy)]
pub struct ConfigNode<'a> {
    pub listen: Option<&'a str>,
    pub advertise: Option<&'a str>,
    pub metrics_listen: Option<&'a str>,
    pub region: Option<&'a str>,
    pub zone: Option<&'a str>,
}

impl<'a> Default for ConfigNode<'a> {
    fn default() -> (node: Self)
        ensures
            node == (ConfigNode {
                listen: None,
                advertise: None,
                metrics_listen: None,
                region: None,
                zone: None,
            }),
    {
        ConfigNode { listen: None, advertise: None, metrics_listen: None, region: None, zone: None }
    }
}

/// The characters of an optional text.
pub open spec fn chars_of(text: Option<&str>) -> Option<Seq<char>> {
    match text {
        None => None,
        Some(text) => Some(text@),
    }
}

/// Borrow an optional name.
pub fn borrowed(name: &Option<String>) -> (text: Option<&str>)
    ensures
        chars_of(text) == name_of(*name),
        text is Some == name is Some,
{
    match name {
        None => None,
        Some(text) => Some(text.as_str()),
    }
}

/// A key with a quoted value, where there is one.
pub open spec fn entry_text(key: Seq<char>, value: Option<Seq<char>>) -> Seq<char> {
    match value {
        None => Seq::empty(),
        Some(text) => key + yaml_text(text) + "\n"@,
    }
}

fn push_entry(out: &mut String, key: &str, value: Option<&str>)
    ensures
        final(out)@ == old(out)@ + entry_text(key@, chars_of(value)),
{
    match value {
        None => {
            assert(out@ =~= old(out)@ + Seq::<char>::empty());
        },
        Some(text) => {
            out.append(key);
            out.append(yaml_string(text).as_str());
            out.append("\n");
            assert(out@ =~= old(out)@ + (key@ + yaml_text(text@) + "\n"@));
        },
    }
}

/// The node section.
pub open spec fn node_text(
    listen: Option<Seq<char>>,
    advertise: Option<Seq<char>>,
    metrics_listen: Option<Seq<char>>,
    max_tenants: Option<u32>,
) -> Seq<char> {
    if listen is None && advertise is None && metrics_listen is None && max_tenants is None {
        Seq::empty()
    } else {
        "node:\n"@ + entry_text("  listen: "@, listen) + entry_text("  advertise: "@, advertise)
            + entry_text("  metrics_listen: "@, metrics_listen) + match max_tenants {
            None => Seq::empty(),
            Some(max) => "  max_tenants: "@ + decimal_text(max as nat) + "\n"@,
        }
    }
}

/// The topology section.
pub open spec fn topology_text(region: Option<Seq<char>>, zone: Option<Seq<char>>) -> Seq<char> {
    if region is None && zone is None {
        Seq::empty()
    } else {
        "topology:\n"@ + entry_text("  region: "@, region) + entry_text("  zone: "@, zone)
    }
}

/// A key with a list, where it holds something.
pub open spec fn list_entry_text(key: Seq<char>, values: Seq<Seq<char>>) -> Seq<char> {
    if values.len() == 0 {
        Seq::empty()
    } else {
        key + list_text(values) + "]\n"@
    }
}

/// The placement section.
pub open spec fn placement_text(
    home_regions: Seq<Seq<char>>,
    residency: Seq<Seq<char>>,
) -> Seq<char> {
    if home_regions.len() == 0 && residency.len() == 0 {
        Seq::empty()
    } else {
        "placement:\n"@ + list_entry_text("  home_regions: ["@, home_regions) + list_entry_text(
            "  residency: ["@,
            residency,
        )
    }
}

/// The durability section.
pub open spec fn durability_text(durability: crate::config::Durability) -> Seq<char> {
    "durability:\n  survive: "@ + survive_text(durability.survive) + "\n  max_failures: "@
        + decimal_text(durability.max_failures as nat) + "\n"@
}

/// The configuration file of a node, by the facts it fixes.
pub open spec fn config_of(
    settings: Settings,
    listen: Option<Seq<char>>,
    advertise: Option<Seq<char>>,
    metrics_listen: Option<Seq<char>>,
    region: Option<Seq<char>>,
    zone: Option<Seq<char>>,
) -> Seq<char> {
    "version: 1\n"@ + node_text(listen, advertise, metrics_listen, settings.node.max_tenants)
        + topology_text(region, zone) + durability_text(settings.durability) + placement_text(
        texts(settings.placement.home_regions@),
        texts(settings.placement.residency@),
    )
}

/// The configuration file of a node.
pub open spec fn config_text(settings: Settings, node: ConfigNode) -> Seq<char> {
    config_of(
        settings,
        chars_of(node.listen),
        chars_of(node.advertise),
        chars_of(node.metrics_listen),
        chars_of(node.region),
        chars_of(node.zone),
    )
}

fn node_section(settings: &Settings, node: &ConfigNode<'_>) -> (out: String)
    ensures
        out@ == node_text(
            chars_of(node.listen),
            chars_of(node.advertise),
            chars_of(node.metrics_listen),
            settings.node.max_tenants,
        ),
{
    if node.listen.is_none() && node.advertise.is_none() && node.metrics_listen.is_none()
        && settings.node.max_tenants.is_none() {
        return String::new();
    }
    let mut out = String::from_str("node:\n");
    push_entry(&mut out, "  listen: ", node.listen);
    push_entry(&mut out, "  advertise: ", node.advertise);
    push_entry(&mut out, "  metrics_listen: ", node.metrics_listen);
    match settings.node.max_tenants {
        None => {
            assert(out@ =~= out@ + Seq::<char>::empty());
        },
        Some(max) => {
            let ghost before = out@;
            out.append("  max_tenants: ");
            out.append(decimal(max as u64).as_str());
            out.append("\n");
            assert(out@ =~= before + ("  max_tenants: "@ + decimal_text(max as nat) + "\n"@));
        },
    }
    out
}

fn topology_section(node: &ConfigNode<'_>) -> (out: String)
    ensures
        out@ == topology_text(chars_of(node.region), chars_of(node.zone)),
{
    if node.region.is_none() && node.zone.is_none() {
        return String::new();
    }
    let mut out = String::from_str("topology:\n");
    push_entry(&mut out, "  region: ", node.region);
    push_entry(&mut out, "  zone: ", node.zone);
    out
}

fn push_list(out: &mut String, key: &str, values: &Vec<String>)
    ensures
        final(out)@ == old(out)@ + list_entry_text(key@, texts(values@)),
{
    assert(texts(values@).len() == values@.len());
    if values.len() == 0 {
        assert(out@ =~= old(out)@ + Seq::<char>::empty());
        return;
    }
    out.append(key);
    out.append(list(values.as_slice()).as_str());
    out.append("]\n");
    assert(out@ =~= old(out)@ + (key@ + list_text(texts(values@)) + "]\n"@));
}

fn placement_section(settings: &Settings) -> (out: String)
    ensures
        out@ == placement_text(
            texts(settings.placement.home_regions@),
            texts(settings.placement.residency@),
        ),
{
    assert(texts(settings.placement.home_regions@).len() == settings.placement.home_regions@.len());
    assert(texts(settings.placement.residency@).len() == settings.placement.residency@.len());
    if settings.placement.home_regions.len() == 0 && settings.placement.residency.len() == 0 {
        return String::new();
    }
    let mut out = String::from_str("placement:\n");
    push_list(&mut out, "  home_regions: [", &settings.placement.home_regions);
    push_list(&mut out, "  residency: [", &settings.placement.residency);
    out
}

/// The node configuration a rendered asset ships: the requested policy and
/// the facts the package fixes (topology per set, addresses per host).
pub fn config_yaml(settings: &Settings, node: &ConfigNode<'_>) -> (out: String)
    ensures
        out@ == config_text(*settings, *node),
{
    let mut out = String::from_str("version: 1\n");
    out.append(node_section(settings, node).as_str());
    out.append(topology_section(node).as_str());
    let mut durability = String::from_str("durability:\n  survive: ");
    durability.append(survive_name(settings.durability.survive));
    durability.append("\n  max_failures: ");
    durability.append(decimal(settings.durability.max_failures as u64).as_str());
    durability.append("\n");
    out.append(durability.as_str());
    out.append(placement_section(settings).as_str());
    out
}

/// A character of a DNS label.
pub open spec fn label_char(c: char) -> bool {
    ('a' <= c && c <= 'z') || ('0' <= c && c <= '9') || c == '-'
}

/// A DNS label: lowercase alphanumerics and hyphens, at most 63, starting
/// and ending with an alphanumeric.
pub open spec fn is_label(name: Seq<char>) -> bool {
    &&& 1 <= name.len() <= 63
    &&& forall|i: int| 0 <= i < name.len() ==> label_char(#[trigger] name[i])
    &&& name[0] != '-'
    &&& name.last() != '-'
}

/// A DNS label for a Kubernetes object or a systemd unit: lowercase
/// alphanumerics and hyphens, at most 63 bytes, starting and ending with an
/// alphanumeric.
pub fn valid_label(name: &str) -> (valid: bool)
    ensures
        valid == is_label(name@),
{
    broadcast use vstd::string::is_ascii_spec_bytes;

    if !name.is_ascii() {
        assert(exists|i: int|
            0 <= i < name@.len() && !('\0' <= #[trigger] name@[i] && name@[i] <= '\u{7f}'));
        return false;
    }
    let bytes = name.as_bytes();
    assert(bytes@.len() == name@.len());
    if bytes.len() == 0 || bytes.len() > 63 {
        return false;
    }
    let mut i: usize = 0;
    while i < bytes.len()
        invariant
            i <= bytes.len(),
            bytes@.len() == name@.len(),
            name.is_ascii(),
            forall|j: int| 0 <= j < name@.len() ==> bytes@[j] == #[trigger] name@[j] as u8,
            forall|j: int| 0 <= j < i ==> label_char(#[trigger] name@[j]),
        decreases bytes.len() - i,
    {
        let byte: u8 = bytes[i];
        assert(byte == name@[i as int] as u8);
        assert((name@[i as int] as nat) < 128);
        if !((97 <= byte && byte <= 122) || (48 <= byte && byte <= 57) || byte == 45) {
            assert(!label_char(name@[i as int]));
            return false;
        }
        i += 1;
    }
    assert(bytes@[0] == name@[0] as u8);
    assert(bytes@[bytes@.len() - 1] == name@.last() as u8);
    bytes[0] != 45 && bytes[bytes.len() - 1] != 45
}

/// Whether a text holds no control character.
pub open spec fn printable(text: Seq<char>) -> bool {
    forall|i: int| 0 <= i < text.len() ==> !is_control(#[trigger] text[i])
}

proof fn lemma_escape_printable(c: char)
    ensures
        printable(escape_char(c)),
{
    assert(forall|n: int| !is_control(#[trigger] digit_char(n)));
}

/// A quoted scalar stays on its line: it holds no control character.
pub proof fn a_scalar_is_printable(value: Seq<char>)
    ensures
        printable(yaml_text(value)),
    decreases value.len(),
{
    lemma_escaped_printable(value);
    let text = yaml_text(value);
    assert forall|i: int| 0 <= i < text.len() implies !is_control(#[trigger] text[i]) by {
        if 0 < i < text.len() - 1 {
            assert(text[i] == escaped(value)[i - 1]);
        }
    }
}

proof fn lemma_escaped_printable(value: Seq<char>)
    ensures
        printable(escaped(value)),
    decreases value.len(),
{
    if value.len() > 0 {
        lemma_escaped_printable(value.drop_last());
        lemma_escape_printable(value.last());
        let front = escaped(value.drop_last());
        let text = escaped(value);
        assert forall|i: int| 0 <= i < text.len() implies !is_control(#[trigger] text[i]) by {
            if i < front.len() {
                assert(text[i] == front[i]);
            } else {
                assert(text[i] == escape_char(value.last())[i - front.len()]);
            }
        }
    }
}

/// The value of a hexadecimal digit.
pub open spec fn digit_value(c: char) -> int {
    if '0' <= c && c <= '9' {
        (c as u32) as int - 48
    } else {
        (c as u32) as int - 87
    }
}

/// What the inside of a double-quoted scalar says.
pub open spec fn unescaped(text: Seq<char>) -> Seq<char>
    decreases text.len(),
{
    if text.len() == 0 {
        Seq::empty()
    } else if text[0] != '\\' || text.len() < 2 {
        seq![text[0]] + unescaped(text.skip(1))
    } else if text[1] == 'n' {
        seq!['\n'] + unescaped(text.skip(2))
    } else if text[1] == 't' {
        seq!['\t'] + unescaped(text.skip(2))
    } else if text[1] == 'u' && text.len() >= 6 {
        seq![(digit_value(text[4]) * 16 + digit_value(text[5])) as char] + unescaped(text.skip(6))
    } else {
        seq![text[1]] + unescaped(text.skip(2))
    }
}

proof fn lemma_digit(n: int)
    requires
        0 <= n < 16,
    ensures
        digit_value(digit_char(n)) == n,
{
}

proof fn lemma_unescape_char(c: char, rest: Seq<char>)
    ensures
        unescaped(escape_char(c) + rest) == seq![c] + unescaped(rest),
{
    let text = escape_char(c) + rest;
    if c == '"' || c == '\\' || c == '\n' || c == '\t' {
        assert(text.skip(2) =~= rest);
    } else if is_control(c) {
        let code = (c as u32) as int;
        lemma_digit(code / 16);
        lemma_digit(code % 16);
        assert(text.skip(6) =~= rest);
        assert(digit_value(text[4]) * 16 + digit_value(text[5]) == code);
    } else {
        assert(text.skip(1) =~= rest);
    }
}

/// A quoted scalar reads back as the value it was made of.
pub proof fn a_scalar_reads_back(value: Seq<char>)
    ensures
        unescaped(yaml_text(value).subrange(1, yaml_text(value).len() - 1)) == value,
{
    assert(yaml_text(value).subrange(1, yaml_text(value).len() - 1) =~= escaped(value)
        + Seq::<char>::empty());
    lemma_reads_back(value, Seq::empty());
    assert(value + unescaped(Seq::<char>::empty()) =~= value);
}

proof fn lemma_reads_back(value: Seq<char>, rest: Seq<char>)
    ensures
        unescaped(escaped(value) + rest) == value + unescaped(rest),
    decreases value.len(),
{
    if value.len() == 0 {
        assert(escaped(value) + rest =~= rest);
        assert(value + unescaped(rest) =~= unescaped(rest));
    } else {
        let front = value.drop_last();
        let tail = escape_char(value.last()) + rest;
        assert(escaped(value) + rest =~= escaped(front) + tail);
        lemma_reads_back(front, tail);
        lemma_unescape_char(value.last(), rest);
        assert(value + unescaped(rest) =~= front + (seq![value.last()] + unescaped(rest)));
    }
}

} // verus!
