//! What a rendered configuration says: the file's form read line by line, and
//! the proof that what was rendered reads back.
use super::{
    chars_of, config_text, digit_value, durability_text, entry_text, escape_char, escaped,
    is_control, list_entry_text, list_text, node_text, placement_text, topology_text, yaml_text,
    ConfigNode,
};
use crate::config::{texts, Durability, FailureDomain, Settings};
use crate::deployment::survive_text;
use crate::text::{decimal_text, digit_char};
use vstd::prelude::*;

verus! {

/// What a configuration file says.
pub struct ConfigModel {
    pub listen: Option<Seq<char>>,
    pub advertise: Option<Seq<char>>,
    pub metrics_listen: Option<Seq<char>>,
    pub max_tenants: Option<nat>,
    pub region: Option<Seq<char>>,
    pub zone: Option<Seq<char>>,
    pub survive: FailureDomain,
    pub max_failures: nat,
    pub home_regions: Seq<Seq<char>>,
    pub residency: Seq<Seq<char>>,
}

/// Whether a text starts with another.
pub open spec fn starts(text: Seq<char>, prefix: Seq<char>) -> bool {
    prefix.len() <= text.len() && text.take(prefix.len() as int) == prefix
}

/// What stands before what was read.
pub open spec fn before<A>(front: Seq<A>, read: Option<(Seq<A>, Seq<char>)>) -> Option<
    (Seq<A>, Seq<char>),
> {
    match read {
        None => None,
        Some((behind, rest)) => Some((front + behind, rest)),
    }
}

/// The value of a double-quoted scalar behind its first quote, and what
/// follows its last.
pub open spec fn inside(text: Seq<char>) -> Option<(Seq<char>, Seq<char>)>
    decreases text.len(),
{
    if text.len() == 0 {
        None
    } else if text[0] == '"' {
        Some((Seq::empty(), text.skip(1)))
    } else if text[0] != '\\' {
        before(seq![text[0]], inside(text.skip(1)))
    } else if text.len() < 2 {
        None
    } else if text[1] == 'n' {
        before(seq!['\n'], inside(text.skip(2)))
    } else if text[1] == 't' {
        before(seq!['\t'], inside(text.skip(2)))
    } else if text[1] == 'u' {
        if text.len() < 6 {
            None
        } else {
            before(
                seq![(digit_value(text[4]) * 16 + digit_value(text[5])) as char],
                inside(text.skip(6)),
            )
        }
    } else {
        before(seq![text[1]], inside(text.skip(2)))
    }
}

/// A double-quoted scalar at the front of a text, and what follows it.
pub open spec fn quoted(text: Seq<char>) -> Option<(Seq<char>, Seq<char>)> {
    if text.len() > 0 && text[0] == '"' {
        inside(text.skip(1))
    } else {
        None
    }
}

/// The number whose digits go on at the front of a text, and what follows it.
pub open spec fn number(text: Seq<char>, so_far: nat) -> (nat, Seq<char>)
    decreases text.len(),
{
    if text.len() > 0 && '0' <= text[0] && text[0] <= '9' {
        number(text.skip(1), so_far * 10 + digit_value(text[0]) as nat)
    } else {
        (so_far, text)
    }
}

/// The quoted value of a key, where its line is there.
pub open spec fn entry(text: Seq<char>, key: Seq<char>) -> Option<(Option<Seq<char>>, Seq<char>)> {
    if !starts(text, key) {
        Some((None, text))
    } else {
        match quoted(text.skip(key.len() as int)) {
            None => None,
            Some((value, rest)) => if rest.len() > 0 && rest[0] == '\n' {
                Some((Some(value), rest.skip(1)))
            } else {
                None
            },
        }
    }
}

/// The number of a key, where its line is there.
pub open spec fn counted(text: Seq<char>, key: Seq<char>) -> Option<(Option<nat>, Seq<char>)> {
    if !starts(text, key) {
        Some((None, text))
    } else {
        let (value, rest) = number(text.skip(key.len() as int), 0);
        if rest.len() > 0 && rest[0] == '\n' {
            Some((Some(value), rest.skip(1)))
        } else {
            None
        }
    }
}

/// The values of a flow sequence behind its bracket, to the end of the line.
pub open spec fn items(text: Seq<char>) -> Option<(Seq<Seq<char>>, Seq<char>)>
    decreases text.len(),
{
    match quoted(text) {
        None => None,
        Some((value, rest)) => if starts(rest, seq![',', ' ']) && rest.len() < text.len() {
            before(seq![value], items(rest.skip(2)))
        } else if starts(rest, seq![']', '\n']) {
            Some((seq![value], rest.skip(2)))
        } else {
            None
        },
    }
}

/// The values of a key, where its line is there.
pub open spec fn listed(text: Seq<char>, key: Seq<char>) -> Option<(Seq<Seq<char>>, Seq<char>)> {
    if !starts(text, key) {
        Some((Seq::empty(), text))
    } else {
        items(text.skip(key.len() as int))
    }
}

/// What the node section says, where it is there.
pub open spec fn read_node(text: Seq<char>) -> Option<
    (
        (Option<Seq<char>>, Option<Seq<char>>, Option<Seq<char>>, Option<nat>),
        Seq<char>,
    ),
> {
    if !starts(text, "node:\n"@) {
        Some(((None, None, None, None), text))
    } else {
        match entry(text.skip(6), "  listen: "@) {
            None => None,
            Some((listen, text)) => match entry(text, "  advertise: "@) {
                None => None,
                Some((advertise, text)) => match entry(text, "  metrics_listen: "@) {
                    None => None,
                    Some((metrics, text)) => match counted(text, "  max_tenants: "@) {
                        None => None,
                        Some((max, text)) => Some(((listen, advertise, metrics, max), text)),
                    },
                },
            },
        }
    }
}

/// What the topology section says, where it is there.
pub open spec fn read_topology(text: Seq<char>) -> Option<
    ((Option<Seq<char>>, Option<Seq<char>>), Seq<char>),
> {
    if !starts(text, "topology:\n"@) {
        Some(((None, None), text))
    } else {
        match entry(text.skip(10), "  region: "@) {
            None => None,
            Some((region, text)) => match entry(text, "  zone: "@) {
                None => None,
                Some((zone, text)) => Some(((region, zone), text)),
            },
        }
    }
}

/// The failure domain a line names, and the lines behind it.
pub open spec fn read_survive(text: Seq<char>) -> Option<(FailureDomain, Seq<char>)> {
    if starts(text, "node\n"@) {
        Some((FailureDomain::Node, text.skip(5)))
    } else if starts(text, "zone\n"@) {
        Some((FailureDomain::Zone, text.skip(5)))
    } else if starts(text, "region\n"@) {
        Some((FailureDomain::Region, text.skip(7)))
    } else {
        None
    }
}

/// What the durability section says.
pub open spec fn read_durability(text: Seq<char>) -> Option<((FailureDomain, nat), Seq<char>)> {
    if !starts(text, "durability:\n  survive: "@) {
        None
    } else {
        match read_survive(text.skip(23)) {
            None => None,
            Some((survive, text)) => match counted(text, "  max_failures: "@) {
                Some((Some(max), text)) => Some(((survive, max), text)),
                _ => None,
            },
        }
    }
}

/// What the placement section says, where it is there.
pub open spec fn read_placement(text: Seq<char>) -> Option<
    ((Seq<Seq<char>>, Seq<Seq<char>>), Seq<char>),
> {
    if !starts(text, "placement:\n"@) {
        Some(((Seq::empty(), Seq::empty()), text))
    } else {
        match listed(text.skip(11), "  home_regions: ["@) {
            None => None,
            Some((home_regions, text)) => match listed(text, "  residency: ["@) {
                None => None,
                Some((residency, text)) => Some(((home_regions, residency), text)),
            },
        }
    }
}

/// What a configuration file says, or nothing where it is none.
pub open spec fn read_config(text: Seq<char>) -> Option<ConfigModel> {
    if !starts(text, "version: 1\n"@) {
        None
    } else {
        match read_node(text.skip(11)) {
            None => None,
            Some((node, text)) => match read_topology(text) {
                None => None,
                Some((topology, text)) => match read_durability(text) {
                    None => None,
                    Some((durability, text)) => match read_placement(text) {
                        None => None,
                        Some((placement, text)) => if text.len() > 0 {
                            None
                        } else {
                            Some(
                                ConfigModel {
                                    listen: node.0,
                                    advertise: node.1,
                                    metrics_listen: node.2,
                                    max_tenants: node.3,
                                    region: topology.0,
                                    zone: topology.1,
                                    survive: durability.0,
                                    max_failures: durability.1,
                                    home_regions: placement.0,
                                    residency: placement.1,
                                },
                            )
                        },
                    },
                },
            },
        }
    }
}

proof fn lemma_behind(a: Seq<char>, b: Seq<char>, c: Seq<char>)
    ensures
        (a + b) + c == a + (b + c),
{
    assert((a + b) + c =~= a + (b + c));
}

proof fn lemma_starts(prefix: Seq<char>, rest: Seq<char>)
    ensures
        starts(prefix + rest, prefix),
        (prefix + rest).skip(prefix.len() as int) == rest,
{
    assert((prefix + rest).take(prefix.len() as int) =~= prefix);
    assert((prefix + rest).skip(prefix.len() as int) =~= rest);
}

proof fn lemma_differs(text: Seq<char>, prefix: Seq<char>, at: int)
    requires
        0 <= at < prefix.len(),
        at >= text.len() || text[at] != prefix[at],
    ensures
        !starts(text, prefix),
{
    if starts(text, prefix) {
        assert(text.take(prefix.len() as int)[at] == prefix[at]);
    }
}

proof fn lemma_inside_char(c: char, rest: Seq<char>)
    ensures
        inside(escape_char(c) + rest) == before(seq![c], inside(rest)),
{
    let text = escape_char(c) + rest;
    if c == '"' || c == '\\' || c == '\n' || c == '\t' {
        assert(text.skip(2) =~= rest);
    } else if is_control(c) {
        let code = (c as u32) as int;
        assert(digit_value(digit_char(code / 16)) == code / 16);
        assert(digit_value(digit_char(code % 16)) == code % 16);
        assert(text.skip(6) =~= rest);
        assert(digit_value(text[4]) * 16 + digit_value(text[5]) == code);
    } else {
        assert(text.skip(1) =~= rest);
    }
}

proof fn lemma_inside(value: Seq<char>, rest: Seq<char>)
    ensures
        inside(escaped(value) + rest) == before(value, inside(rest)),
    decreases value.len(),
{
    if value.len() == 0 {
        assert(escaped(value) + rest =~= rest);
        if let Some((behind, end)) = inside(rest) {
            assert(value + behind =~= behind);
        }
    } else {
        let front = value.drop_last();
        let tail = escape_char(value.last()) + rest;
        assert(escaped(value) + rest =~= escaped(front) + tail);
        lemma_inside(front, tail);
        lemma_inside_char(value.last(), rest);
        if let Some((behind, end)) = inside(rest) {
            assert(value + behind =~= front + (seq![value.last()] + behind));
        }
    }
}

proof fn lemma_quoted(value: Seq<char>, rest: Seq<char>)
    ensures
        quoted(yaml_text(value) + rest) == Some((value, rest)),
{
    let text = yaml_text(value) + rest;
    let tail = seq!['"'] + rest;
    assert(text.skip(1) =~= escaped(value) + tail);
    lemma_inside(value, tail);
    assert(tail.skip(1) =~= rest);
    assert(value + Seq::<char>::empty() =~= value);
}

proof fn lemma_number(n: nat, rest: Seq<char>)
    ensures
        number(decimal_text(n) + rest, 0) == number(rest, n),
    decreases n,
{
    if n < 10 {
        let text = seq![digit_char(n as int)] + rest;
        assert(text.skip(1) =~= rest);
        assert(digit_value(digit_char(n as int)) == n);
        assert(decimal_text(n) + rest =~= text);
        assert('0' <= text[0] && text[0] <= '9');
        assert(0nat * 10 + n == n);
    } else {
        let d = digit_char((n % 10) as int);
        let tail = seq![d] + rest;
        assert(decimal_text(n) + rest =~= decimal_text(n / 10) + tail);
        lemma_number(n / 10, tail);
        assert(tail.skip(1) =~= rest);
        assert(digit_value(d) == n % 10);
        assert('0' <= tail[0] && tail[0] <= '9');
        assert(n / 10 * 10 + n % 10 == n);
    }
}

proof fn lemma_entry(key: Seq<char>, value: Option<Seq<char>>, rest: Seq<char>)
    requires
        value is None ==> !starts(rest, key),
    ensures
        entry(entry_text(key, value) + rest, key) == Some((value, rest)),
{
    match value {
        None => {
            assert(entry_text(key, value) + rest =~= rest);
        },
        Some(text) => {
            reveal_strlit("\n");
            let tail = "\n"@ + rest;
            assert(entry_text(key, value) + rest =~= key + (yaml_text(text) + tail));
            lemma_starts(key, yaml_text(text) + tail);
            lemma_quoted(text, tail);
            assert(tail.skip(1) =~= rest);
        },
    }
}

/// A key with a number, where there is one.
pub open spec fn count_text(key: Seq<char>, value: Option<nat>) -> Seq<char> {
    match value {
        None => Seq::empty(),
        Some(n) => key + decimal_text(n) + "\n"@,
    }
}

proof fn lemma_counted(key: Seq<char>, value: Option<nat>, rest: Seq<char>)
    requires
        value is None ==> !starts(rest, key),
    ensures
        counted(count_text(key, value) + rest, key) == Some((value, rest)),
{
    match value {
        None => {
            assert(count_text(key, value) + rest =~= rest);
        },
        Some(n) => {
            reveal_strlit("\n");
            let tail = "\n"@ + rest;
            assert(count_text(key, value) + rest =~= key + (decimal_text(n) + tail));
            lemma_starts(key, decimal_text(n) + tail);
            lemma_number(n, tail);
            assert(tail[0] == '\n');
            assert(number(tail, n) == (n, tail));
            assert(tail.skip(1) =~= rest);
        },
    }
}

proof fn lemma_items_on(values: Seq<Seq<char>>, rest: Seq<char>)
    requires
        values.len() > 0,
    ensures
        items(list_text(values) + (seq![',', ' '] + rest)) == before(values, items(rest)),
    decreases values.len(),
{
    reveal_strlit(", ");
    let comma = seq![',', ' '];
    assert(", "@ =~= comma);
    let last = values.last();
    let text = yaml_text(last) + (comma + rest);
    lemma_quoted(last, comma + rest);
    lemma_starts(comma, rest);
    assert((comma + rest).len() < text.len());
    assert(items(text) == before(seq![last], items(rest)));
    if values.len() == 1 {
        assert(values =~= seq![last]);
        assert(list_text(values) == yaml_text(last));
    } else {
        let front = values.drop_last();
        assert(list_text(values) + (comma + rest) =~= list_text(front) + (comma + text));
        lemma_items_on(front, text);
        if let Some((behind, end)) = items(rest) {
            assert(values + behind =~= front + (seq![last] + behind));
        }
    }
}

proof fn lemma_items(values: Seq<Seq<char>>, rest: Seq<char>)
    requires
        values.len() > 0,
    ensures
        items(list_text(values) + (seq![']', '\n'] + rest)) == Some((values, rest)),
{
    reveal_strlit(", ");
    let close = seq![']', '\n'];
    let comma = seq![',', ' '];
    assert(", "@ =~= comma);
    let last = values.last();
    let text = yaml_text(last) + (close + rest);
    lemma_quoted(last, close + rest);
    lemma_starts(close, rest);
    lemma_differs(close + rest, comma, 0);
    assert(items(text) == Some((seq![last], rest)));
    if values.len() == 1 {
        assert(values =~= seq![last]);
        assert(list_text(values) == yaml_text(last));
    } else {
        let front = values.drop_last();
        assert(list_text(values) + (close + rest) =~= list_text(front) + (comma + text));
        lemma_items_on(front, text);
        assert(front + seq![last] =~= values);
    }
}

proof fn lemma_listed(key: Seq<char>, values: Seq<Seq<char>>, rest: Seq<char>)
    requires
        values.len() == 0 ==> !starts(rest, key),
    ensures
        listed(list_entry_text(key, values) + rest, key) == Some((values, rest)),
{
    if values.len() == 0 {
        assert(list_entry_text(key, values) + rest =~= rest);
        assert(values =~= Seq::empty());
    } else {
        reveal_strlit("]\n");
        let tail = seq![']', '\n'] + rest;
        assert("]\n"@ =~= seq![']', '\n']);
        assert(list_entry_text(key, values) + rest =~= key + (list_text(values) + tail));
        lemma_starts(key, list_text(values) + tail);
        lemma_items(values, rest);
    }
}

/// The keys of the node section, where they differ.
proof fn lemma_node_keys()
    ensures
        "node:\n"@.len() == 6 && "node:\n"@[0] == 'n',
        "  listen: "@.len() == 10 && "  listen: "@[0] == ' ' && "  listen: "@[2] == 'l',
        "  advertise: "@.len() == 13 && "  advertise: "@[0] == ' ' && "  advertise: "@[2] == 'a',
        "  metrics_listen: "@.len() == 18 && "  metrics_listen: "@[0] == ' ',
        "  metrics_listen: "@[2] == 'm' && "  metrics_listen: "@[3] == 'e',
        "  max_tenants: "@.len() == 15 && "  max_tenants: "@[0] == ' ',
        "  max_tenants: "@[2] == 'm' && "  max_tenants: "@[3] == 'a',
{
    reveal_strlit("node:\n");
    reveal_strlit("  listen: ");
    reveal_strlit("  advertise: ");
    reveal_strlit("  metrics_listen: ");
    reveal_strlit("  max_tenants: ");
}

/// What a text with a line under a key in front begins with.
proof fn lemma_leads(key: Seq<char>, value: Option<Seq<char>>, rest: Seq<char>, at: int)
    requires
        0 <= at < key.len(),
    ensures
        value is Some ==> (entry_text(key, value) + rest).len() > at && (entry_text(key, value)
            + rest)[at] == key[at],
        value is None ==> entry_text(key, value) + rest == rest,
{
    if value is None {
        assert(entry_text(key, value) + rest =~= rest);
    }
}

/// What a text with a counted line in front begins with.
proof fn lemma_count_leads(key: Seq<char>, value: Option<nat>, rest: Seq<char>, at: int)
    requires
        0 <= at < key.len(),
    ensures
        value is Some ==> (count_text(key, value) + rest).len() > at && (count_text(key, value)
            + rest)[at] == key[at],
        value is None ==> count_text(key, value) + rest == rest,
{
    if value is None {
        assert(count_text(key, value) + rest =~= rest);
    }
}

proof fn lemma_node_lines(
    listen: Option<Seq<char>>,
    advertise: Option<Seq<char>>,
    metrics: Option<Seq<char>>,
    max: Option<nat>,
    rest: Seq<char>,
)
    requires
        rest.len() > 0,
        rest[0] == 't' || rest[0] == 'd',
    ensures
        ({
            let d = count_text("  max_tenants: "@, max) + rest;
            let c = entry_text("  metrics_listen: "@, metrics) + d;
            let b = entry_text("  advertise: "@, advertise) + c;
            let a = entry_text("  listen: "@, listen) + b;
            &&& entry(a, "  listen: "@) == Some((listen, b))
            &&& entry(b, "  advertise: "@) == Some((advertise, c))
            &&& entry(c, "  metrics_listen: "@) == Some((metrics, d))
            &&& counted(d, "  max_tenants: "@) == Some((max, rest))
        }),
{
    lemma_node_keys();
    let d = count_text("  max_tenants: "@, max) + rest;
    let c = entry_text("  metrics_listen: "@, metrics) + d;
    let b = entry_text("  advertise: "@, advertise) + c;
    lemma_count_leads("  max_tenants: "@, max, rest, 2);
    lemma_count_leads("  max_tenants: "@, max, rest, 3);
    lemma_leads("  metrics_listen: "@, metrics, d, 2);
    lemma_leads("  advertise: "@, advertise, c, 2);
    if max is None {
        lemma_differs(d, "  max_tenants: "@, 0);
        lemma_differs(d, "  metrics_listen: "@, 0);
    } else {
        lemma_differs(d, "  metrics_listen: "@, 3);
    }
    lemma_counted("  max_tenants: "@, max, rest);
    lemma_entry("  metrics_listen: "@, metrics, d);
    if metrics is None && max is None {
        lemma_differs(c, "  advertise: "@, 0);
        lemma_differs(c, "  listen: "@, 0);
    } else {
        lemma_differs(c, "  advertise: "@, 2);
        lemma_differs(c, "  listen: "@, 2);
    }
    lemma_entry("  advertise: "@, advertise, c);
    if advertise is Some {
        lemma_differs(b, "  listen: "@, 2);
    }
    lemma_entry("  listen: "@, listen, b);
}

proof fn lemma_node(
    listen: Option<Seq<char>>,
    advertise: Option<Seq<char>>,
    metrics: Option<Seq<char>>,
    max: Option<u32>,
    rest: Seq<char>,
)
    requires
        rest.len() > 0,
        rest[0] == 't' || rest[0] == 'd',
    ensures
        read_node(node_text(listen, advertise, metrics, max) + rest) == Some(
            (
                (
                    listen,
                    advertise,
                    metrics,
                    match max {
                        Some(max) => Some(max as nat),
                        None => None,
                    },
                ),
                rest,
            ),
        ),
{
    lemma_node_keys();
    let text = node_text(listen, advertise, metrics, max);
    if listen is None && advertise is None && metrics is None && max is None {
        assert(text + rest =~= rest);
        lemma_differs(rest, "node:\n"@, 0);
    } else {
        let limit = match max {
            Some(max) => Some(max as nat),
            None => None::<nat>,
        };
        let d = count_text("  max_tenants: "@, limit) + rest;
        let c = entry_text("  metrics_listen: "@, metrics) + d;
        let b = entry_text("  advertise: "@, advertise) + c;
        let a = entry_text("  listen: "@, listen) + b;
        let (n, l) = ("node:\n"@, entry_text("  listen: "@, listen));
        let v = entry_text("  advertise: "@, advertise);
        let m = entry_text("  metrics_listen: "@, metrics);
        let x = count_text("  max_tenants: "@, limit);
        assert(text == n + l + v + m + x);
        lemma_behind(n + l + v + m, x, rest);
        lemma_behind(n + l + v, m, d);
        lemma_behind(n + l, v, c);
        lemma_behind(n, l, b);
        lemma_starts("node:\n"@, a);
        lemma_node_lines(listen, advertise, metrics, limit, rest);
    }
}

proof fn lemma_topology(region: Option<Seq<char>>, zone: Option<Seq<char>>, rest: Seq<char>)
    requires
        rest.len() > 0,
        rest[0] == 'd',
    ensures
        read_topology(topology_text(region, zone) + rest) == Some(((region, zone), rest)),
        (topology_text(region, zone) + rest).len() > 0,
        (topology_text(region, zone) + rest)[0] == 't' || (topology_text(region, zone) + rest)[0]
            == 'd',
{
    reveal_strlit("topology:\n");
    reveal_strlit("  region: ");
    reveal_strlit("  zone: ");
    let text = topology_text(region, zone);
    if region is None && zone is None {
        assert(text + rest =~= rest);
        lemma_differs(rest, "topology:\n"@, 0);
    } else {
        let b = entry_text("  zone: "@, zone) + rest;
        let a = entry_text("  region: "@, region) + b;
        assert(text + rest =~= "topology:\n"@ + a);
        lemma_starts("topology:\n"@, a);
        assert((text + rest)[0] == "topology:\n"@[0]);
        if zone is None {
            assert(b =~= rest);
            lemma_differs(rest, "  zone: "@, 0);
            lemma_differs(b, "  region: "@, 0);
        } else {
            assert(b[2] == "  zone: "@[2]);
            lemma_differs(b, "  region: "@, 2);
        }
        lemma_entry("  zone: "@, zone, rest);
        lemma_entry("  region: "@, region, b);
    }
}

proof fn lemma_durability(durability: Durability, rest: Seq<char>)
    ensures
        read_durability(durability_text(durability) + rest) == Some(
            ((durability.survive, durability.max_failures as nat), rest),
        ),
        durability_text(durability).len() > 0,
        durability_text(durability)[0] == 'd',
{
    reveal_strlit("durability:\n  survive: ");
    reveal_strlit("\n  max_failures: ");
    reveal_strlit("  max_failures: ");
    reveal_strlit("\n");
    reveal_strlit("node");
    reveal_strlit("zone");
    reveal_strlit("region");
    reveal_strlit("node\n");
    reveal_strlit("zone\n");
    reveal_strlit("region\n");
    let head = "durability:\n  survive: "@;
    let max = Some(durability.max_failures as nat);
    let d = count_text("  max_failures: "@, max) + rest;
    let word = survive_text(durability.survive);
    let c = word + (seq!['\n'] + d);
    assert(durability_text(durability) + rest =~= head + c);
    assert(durability_text(durability)[0] == head[0]);
    lemma_starts(head, c);
    lemma_counted("  max_failures: "@, max, rest);
    match durability.survive {
        FailureDomain::Node => {
            assert("node\n"@ =~= word + seq!['\n']);
            assert(c =~= "node\n"@ + d);
            lemma_starts("node\n"@, d);
        },
        FailureDomain::Zone => {
            assert("zone\n"@ =~= word + seq!['\n']);
            assert(c =~= "zone\n"@ + d);
            lemma_starts("zone\n"@, d);
            lemma_differs(c, "node\n"@, 0);
        },
        FailureDomain::Region => {
            assert("region\n"@ =~= word + seq!['\n']);
            assert(c =~= "region\n"@ + d);
            lemma_starts("region\n"@, d);
            lemma_differs(c, "node\n"@, 0);
            lemma_differs(c, "zone\n"@, 0);
        },
    }
}

proof fn lemma_placement(home_regions: Seq<Seq<char>>, residency: Seq<Seq<char>>)
    ensures
        read_placement(placement_text(home_regions, residency)) == Some(
            ((home_regions, residency), Seq::<char>::empty()),
        ),
{
    reveal_strlit("placement:\n");
    reveal_strlit("  home_regions: [");
    reveal_strlit("  residency: [");
    let text = placement_text(home_regions, residency);
    let end = Seq::<char>::empty();
    if home_regions.len() == 0 && residency.len() == 0 {
        lemma_differs(text, "placement:\n"@, 0);
        assert(home_regions =~= Seq::empty());
        assert(residency =~= Seq::empty());
        assert(text =~= end);
    } else {
        let b = list_entry_text("  residency: ["@, residency) + end;
        let a = list_entry_text("  home_regions: ["@, home_regions) + b;
        assert(text =~= "placement:\n"@ + a);
        lemma_starts("placement:\n"@, a);
        lemma_differs(end, "  residency: ["@, 0);
        lemma_listed("  residency: ["@, residency, end);
        if residency.len() == 0 {
            assert(b =~= end);
            lemma_differs(b, "  home_regions: ["@, 0);
        } else {
            assert(b[2] == "  residency: ["@[2]);
            lemma_differs(b, "  home_regions: ["@, 2);
        }
        lemma_listed("  home_regions: ["@, home_regions, b);
    }
}

/// A rendered configuration reads back: the policy it was rendered from, the
/// bound on tenants, and the addresses and topology it fixes, each absent where
/// it was.
pub proof fn a_rendered_configuration_reads_back(settings: Settings, node: ConfigNode)
    ensures
        read_config(config_text(settings, node)) == Some(
            ConfigModel {
                listen: chars_of(node.listen),
                advertise: chars_of(node.advertise),
                metrics_listen: chars_of(node.metrics_listen),
                max_tenants: match settings.node.max_tenants {
                    Some(max) => Some(max as nat),
                    None => None,
                },
                region: chars_of(node.region),
                zone: chars_of(node.zone),
                survive: settings.durability.survive,
                max_failures: settings.durability.max_failures as nat,
                home_regions: texts(settings.placement.home_regions@),
                residency: texts(settings.placement.residency@),
            },
        ),
{
    assert("version: 1\n"@.len() == 11) by {
        reveal_strlit("version: 1\n");
    }
    let (listen, advertise) = (chars_of(node.listen), chars_of(node.advertise));
    let metrics = chars_of(node.metrics_listen);
    let (region, zone) = (chars_of(node.region), chars_of(node.zone));
    let home_regions = texts(settings.placement.home_regions@);
    let residency = texts(settings.placement.residency@);
    let d = placement_text(home_regions, residency);
    let c = durability_text(settings.durability) + d;
    let b = topology_text(region, zone) + c;
    let a = node_text(listen, advertise, metrics, settings.node.max_tenants) + b;
    let n = node_text(listen, advertise, metrics, settings.node.max_tenants);
    let (v, t) = ("version: 1\n"@, topology_text(region, zone));
    let u = durability_text(settings.durability);
    assert(config_text(settings, node) == v + n + t + u + d);
    lemma_behind(v + n + t, u, d);
    lemma_behind(v + n, t, c);
    lemma_behind(v, n, b);
    lemma_starts("version: 1\n"@, a);
    lemma_durability(settings.durability, d);
    assert(c[0] == durability_text(settings.durability)[0]);
    lemma_topology(region, zone, c);
    lemma_node(listen, advertise, metrics, settings.node.max_tenants, b);
    lemma_placement(home_regions, residency);
}

/// Two configurations that render alike ask for the same policy and fix the
/// same facts.
pub proof fn a_configuration_is_told_by_its_text(
    a: Settings,
    m: ConfigNode,
    b: Settings,
    n: ConfigNode,
)
    requires
        config_text(a, m) == config_text(b, n),
    ensures
        a.durability == b.durability,
        texts(a.placement.residency@) == texts(b.placement.residency@),
        texts(a.placement.home_regions@) == texts(b.placement.home_regions@),
        a.node.max_tenants == b.node.max_tenants,
        chars_of(m.listen) == chars_of(n.listen),
        chars_of(m.advertise) == chars_of(n.advertise),
        chars_of(m.metrics_listen) == chars_of(n.metrics_listen),
        chars_of(m.region) == chars_of(n.region),
        chars_of(m.zone) == chars_of(n.zone),
{
    a_rendered_configuration_reads_back(a, m);
    a_rendered_configuration_reads_back(b, n);
}

} // verus!
