//! A node's identity and the policy it is pinned to.
use crate::codec::{append, concat_assoc, cut_behind, runs_out, varint_is_short, Wire};
use crate::config::policy::PolicyIntent;
use crate::hashing::{blake3_hash, hash, is_zero_16, same_bytes, zero_16};
use crate::ids::{be_value, front_number, LedgerId};
use crate::text::same_text;
use vstd::prelude::*;
use vstd::string::StringExecFns;

verus! {

/// The bytes an identity file starts with: `FOCALND1`.
pub open spec fn identity_magic() -> Seq<u8> {
    seq![70u8, 79u8, 67u8, 65u8, 76u8, 78u8, 68u8, 49u8]
}

/// An identity file never exceeds this.
pub const MAX_IDENTITY_BYTES: usize = 4096;

/// A policy file never exceeds this.
pub const MAX_POLICY_BYTES: usize = 65536;

/// What a node is: its cluster, its number, its founding ledger and the
/// participants it acts as.
#[derive(Debug, Clone, Copy, PartialEq, Eq)]
pub struct NodeIdentity {
    pub schema: u16,
    pub cluster: [u8; 16],
    pub node: u64,
    pub ledger: LedgerId,
    pub issuer: [u8; 16],
    pub worker: [u8; 16],
    pub evaluator: [u8; 16],
    pub root: [u8; 16],
}

/// Why a node does not start. Most carry the message of the part that failed.
#[derive(Debug, Clone, PartialEq, Eq)]
pub enum NodeError {
    Io(String),
    Config(String),
    Ledger(String),
    Consensus(String),
    Wal(String),
    Content(String),
    Encoding(String),
    Canonical(String),
    Locked,
    Identity,
    Placement(String),
    NetworkRequired,
    Entropy(String),
    Domain(String),
}

impl NodeError {
    /// The words an error is told in.
    pub open spec fn words(self) -> Seq<char> {
        match self {
            NodeError::Io(text) => "I/O: "@ + text@,
            NodeError::Config(text) => "configuration: "@ + text@,
            NodeError::Ledger(text) => "ledger: "@ + text@,
            NodeError::Consensus(text) => "consensus: "@ + text@,
            NodeError::Wal(text) => "WAL: "@ + text@,
            NodeError::Content(text) => "content: "@ + text@,
            NodeError::Encoding(text) => "encoding: "@ + text@,
            NodeError::Canonical(text) => "canonical content: "@ + text@,
            NodeError::Locked => "data directory already has a live owner"@,
            NodeError::Identity => "node identity or stored policy is corrupt or incompatible"@,
            NodeError::Placement(text) =>
                "deployment cannot satisfy its configured guarantee: "@ + text@,
            NodeError::NetworkRequired =>
                "this embedded owner requires local operation; use the network host for peers"@,
            NodeError::Entropy(text) => "operating-system randomness failed: "@ + text@,
            NodeError::Domain(text) => "domain refused the operation: "@ + text@,
        }
    }

    /// Tell the error in words.
    pub fn message(&self) -> (text: String)
        ensures
            text@ == self.words(),
    {
        match self {
            NodeError::Io(text) => String::from_str("I/O: ").concat(text.as_str()),
            NodeError::Config(text) => String::from_str("configuration: ").concat(text.as_str()),
            NodeError::Ledger(text) => String::from_str("ledger: ").concat(text.as_str()),
            NodeError::Consensus(text) => String::from_str("consensus: ").concat(text.as_str()),
            NodeError::Wal(text) => String::from_str("WAL: ").concat(text.as_str()),
            NodeError::Content(text) => String::from_str("content: ").concat(text.as_str()),
            NodeError::Encoding(text) => String::from_str("encoding: ").concat(text.as_str()),
            NodeError::Canonical(text) => String::from_str("canonical content: ").concat(
                text.as_str(),
            ),
            NodeError::Locked => String::from_str("data directory already has a live owner"),
            NodeError::Identity => String::from_str(
                "node identity or stored policy is corrupt or incompatible",
            ),
            NodeError::Placement(text) => String::from_str(
                "deployment cannot satisfy its configured guarantee: ",
            ).concat(text.as_str()),
            NodeError::NetworkRequired => String::from_str(
                "this embedded owner requires local operation; use the network host for peers",
            ),
            NodeError::Entropy(text) => String::from_str(
                "operating-system randomness failed: ",
            ).concat(text.as_str()),
            NodeError::Domain(text) => String::from_str("domain refused the operation: ").concat(
                text.as_str(),
            ),
        }
    }
}

impl NodeIdentity {
    /// An identity every part of which is there.
    pub open spec fn valid(self) -> bool {
        &&& self.schema == 1
        &&& self.node != 0
        &&& !zero_16(self.cluster)
        &&& !zero_16(self.ledger.tenant)
        &&& !zero_16(self.ledger.session)
        &&& !zero_16(self.issuer)
        &&& !zero_16(self.worker)
        &&& !zero_16(self.evaluator)
        &&& !zero_16(self.root)
    }

    /// Refuse an identity with a part missing.
    pub fn validate(&self) -> (done: Result<(), NodeError>)
        ensures
            done == (if self.valid() {
                Ok::<(), NodeError>(())
            } else {
                Err::<(), NodeError>(NodeError::Identity)
            }),
    {
        if self.schema != 1 || self.node == 0 || is_zero_16(&self.cluster) || is_zero_16(
            &self.ledger.tenant,
        ) || is_zero_16(&self.ledger.session) || is_zero_16(&self.issuer) || is_zero_16(
            &self.worker,
        ) || is_zero_16(&self.evaluator) || is_zero_16(&self.root) {
            return Err(NodeError::Identity);
        }
        Ok(())
    }
}

impl Wire for LedgerId {
    type M = LedgerId;

    open spec fn model(&self) -> LedgerId {
        *self
    }

    open spec fn bytes(m: LedgerId) -> Seq<u8> {
        <[u8; 16]>::bytes(m.tenant) + (<[u8; 16]>::bytes(m.session))
    }

    open spec fn parse(b: Seq<u8>) -> Option<(LedgerId, Seq<u8>)> {
        match <[u8; 16]>::parse(b) {
            None => None,
            Some((tenant, b1)) => match <[u8; 16]>::parse(b1) {
                None => None,
                Some((session, b2)) => Some((LedgerId { tenant, session }, b2)),
            },
        }
    }

    fn put(&self, out: &mut Vec<u8>) {
        broadcast use concat_assoc;

        self.tenant.put(out);
        self.session.put(out);
        proof {
            let m = self.model();
            assert forall|n: int| 0 <= n < Self::bytes(self.model()).len() implies Self::parse(
                #[trigger] Self::bytes(self.model()).take(n),
            ) is None by {
                let s1 = <[u8; 16]>::bytes(m.session);
                cut_behind::<[u8; 16]>(m.tenant, s1, n);
                let n1 = n - <[u8; 16]>::bytes(m.tenant).len();
                if 0 <= n1 {
                    assert(<[u8; 16]>::parse(<[u8; 16]>::bytes(m.session).take(n1)) is None);
                }
            }
        }
    }

    fn read(input: &[u8]) -> Option<(LedgerId, &[u8])> {
        match <[u8; 16]>::read(input) {
            None => None,
            Some((tenant, b1)) => match <[u8; 16]>::read(b1) {
                None => None,
                Some((session, b2)) => Some((LedgerId { tenant, session }, b2)),
            },
        }
    }
}

impl Wire for NodeIdentity {
    type M = NodeIdentity;

    open spec fn model(&self) -> NodeIdentity {
        *self
    }

    open spec fn bytes(m: NodeIdentity) -> Seq<u8> {
        u16::bytes(m.schema) + (<[u8; 16]>::bytes(m.cluster) + (u64::bytes(m.node) + (LedgerId::bytes(m.ledger) + (<[u8; 16]>::bytes(m.issuer) + (<[u8; 16]>::bytes(m.worker) + (<[u8; 16]>::bytes(m.evaluator) + (<[u8; 16]>::bytes(m.root))))))))
    }

    open spec fn parse(b: Seq<u8>) -> Option<(NodeIdentity, Seq<u8>)> {
        match u16::parse(b) {
            None => None,
            Some((schema, b1)) => match <[u8; 16]>::parse(b1) {
                None => None,
                Some((cluster, b2)) => match u64::parse(b2) {
                    None => None,
                    Some((node, b3)) => match LedgerId::parse(b3) {
                        None => None,
                        Some((ledger, b4)) => match <[u8; 16]>::parse(b4) {
                            None => None,
                            Some((issuer, b5)) => match <[u8; 16]>::parse(b5) {
                                None => None,
                                Some((worker, b6)) => match <[u8; 16]>::parse(b6) {
                                    None => None,
                                    Some((evaluator, b7)) => match <[u8; 16]>::parse(b7) {
                                        None => None,
                                        Some((root, b8)) => Some((NodeIdentity { schema, cluster, node, ledger, issuer, worker, evaluator, root }, b8)),
                                    },
                                },
                            },
                        },
                    },
                },
            },
        }
    }

    fn put(&self, out: &mut Vec<u8>) {
        broadcast use concat_assoc;

        self.schema.put(out);
        self.cluster.put(out);
        self.node.put(out);
        self.ledger.put(out);
        self.issuer.put(out);
        self.worker.put(out);
        self.evaluator.put(out);
        self.root.put(out);
        proof {
            let m = self.model();
            assert forall|n: int| 0 <= n < Self::bytes(self.model()).len() implies Self::parse(
                #[trigger] Self::bytes(self.model()).take(n),
            ) is None by {
                let s7 = <[u8; 16]>::bytes(m.root);
                let s6 = <[u8; 16]>::bytes(m.evaluator) + s7;
                let s5 = <[u8; 16]>::bytes(m.worker) + s6;
                let s4 = <[u8; 16]>::bytes(m.issuer) + s5;
                let s3 = LedgerId::bytes(m.ledger) + s4;
                let s2 = u64::bytes(m.node) + s3;
                let s1 = <[u8; 16]>::bytes(m.cluster) + s2;
                cut_behind::<u16>(m.schema, s1, n);
                let n1 = n - u16::bytes(m.schema).len();
                cut_behind::<[u8; 16]>(m.cluster, s2, n1);
                let n2 = n1 - <[u8; 16]>::bytes(m.cluster).len();
                cut_behind::<u64>(m.node, s3, n2);
                let n3 = n2 - u64::bytes(m.node).len();
                cut_behind::<LedgerId>(m.ledger, s4, n3);
                let n4 = n3 - LedgerId::bytes(m.ledger).len();
                cut_behind::<[u8; 16]>(m.issuer, s5, n4);
                let n5 = n4 - <[u8; 16]>::bytes(m.issuer).len();
                cut_behind::<[u8; 16]>(m.worker, s6, n5);
                let n6 = n5 - <[u8; 16]>::bytes(m.worker).len();
                cut_behind::<[u8; 16]>(m.evaluator, s7, n6);
                let n7 = n6 - <[u8; 16]>::bytes(m.evaluator).len();
                if 0 <= n7 {
                    assert(<[u8; 16]>::parse(<[u8; 16]>::bytes(m.root).take(n7)) is None);
                }
            }
        }
    }

    fn read(input: &[u8]) -> Option<(NodeIdentity, &[u8])> {
        match u16::read(input) {
            None => None,
            Some((schema, b1)) => match <[u8; 16]>::read(b1) {
                None => None,
                Some((cluster, b2)) => match u64::read(b2) {
                    None => None,
                    Some((node, b3)) => match LedgerId::read(b3) {
                        None => None,
                        Some((ledger, b4)) => match <[u8; 16]>::read(b4) {
                            None => None,
                            Some((issuer, b5)) => match <[u8; 16]>::read(b5) {
                                None => None,
                                Some((worker, b6)) => match <[u8; 16]>::read(b6) {
                                    None => None,
                                    Some((evaluator, b7)) => match <[u8; 16]>::read(b7) {
                                        None => None,
                                        Some((root, b8)) => Some((NodeIdentity { schema, cluster, node, ledger, issuer, worker, evaluator, root }, b8)),
                                    },
                                },
                            },
                        },
                    },
                },
            },
        }
    }
}

/// Why bytes are no identity.
pub enum IdentityRefusal {
    Identity,
    Encoding,
}

/// The identity some bytes are: magic, the payload's hash, the payload.
pub open spec fn identity_decoded(bytes: Seq<u8>) -> Result<NodeIdentity, IdentityRefusal> {
    if bytes.len() > MAX_IDENTITY_BYTES || bytes.len() < 40 {
        Err(IdentityRefusal::Identity)
    } else if bytes.take(8) != identity_magic() || blake3_hash(bytes.skip(40))@
        != bytes.subrange(8, 40) {
        Err(IdentityRefusal::Identity)
    } else {
        match NodeIdentity::parse(bytes.skip(40)) {
            None => Err(IdentityRefusal::Encoding),
            Some((id, tail)) => if tail.len() > 0 || !id.valid() {
                Err(IdentityRefusal::Identity)
            } else {
                Ok(id)
            },
        }
    }
}

/// Why a payload holds no identity, in postcard's words: one of its two numbers
/// goes on for too long, or the bytes end first.
pub open spec fn identity_failure(payload: Seq<u8>) -> Seq<char> {
    let ends = "Hit the end of buffer, expected more data"@;
    let goes_on = "Found a varint that didn't terminate. Is the usize too big for this platform?"@;
    match u16::parse(payload) {
        None => if runs_out(payload, u16::MAX as nat) {
            ends
        } else {
            goes_on
        },
        Some((_, behind)) => if behind.len() >= 16 && u64::parse(behind.skip(16)) is None
            && !runs_out(behind.skip(16), u64::MAX as nat) {
            goes_on
        } else {
            ends
        },
    }
}

/// `postcard::take_from_bytes` of an identity's fields in a row: the words of
/// its error where the payload holds no identity. Its only errors there are a
/// number that goes on and bytes that end.
#[verifier::external_body]
fn identity_error(payload: &[u8]) -> (text: String)
    ensures
        NodeIdentity::parse(payload@) is None ==> text@ == identity_failure(payload@),
{
    match postcard::take_from_bytes::<(
        u16,
        [u8; 16],
        u64,
        ([u8; 16], [u8; 16]),
        [u8; 16],
        [u8; 16],
        [u8; 16],
        [u8; 16],
    )>(payload) {
        Ok(_) => String::new(),
        Err(error) => error.to_string(),
    }
}

/// Decode an identity file. A payload that does not decode is told in
/// postcard's own words.
pub fn decode_identity(bytes: &[u8]) -> (id: Result<NodeIdentity, NodeError>)
    ensures
        match identity_decoded(bytes@) {
            Ok(found) => id == Ok::<NodeIdentity, NodeError>(found),
            Err(IdentityRefusal::Identity) => id == Err::<NodeIdentity, NodeError>(
                NodeError::Identity,
            ),
            Err(IdentityRefusal::Encoding) => id matches Err(NodeError::Encoding(text)) && text@
                == identity_failure(bytes@.skip(40)),
        },
{
    if bytes.len() > MAX_IDENTITY_BYTES || bytes.len() < 40 {
        return Err(NodeError::Identity);
    }
    let (head, payload) = bytes.split_at(40);
    let (magic, digest) = head.split_at(8);
    assert(payload@ =~= bytes@.skip(40));
    assert(magic@ =~= bytes@.take(8));
    assert(digest@ =~= bytes@.subrange(8, 40));
    let expected: [u8; 8] = [70, 79, 67, 65, 76, 78, 68, 49];
    assert(expected@ =~= identity_magic());
    if !same_bytes(magic, expected.as_slice()) || !same_bytes(hash(payload).as_slice(), digest) {
        return Err(NodeError::Identity);
    }
    match NodeIdentity::read(payload) {
        None => Err(NodeError::Encoding(identity_error(payload))),
        Some((id, tail)) => {
            if tail.len() > 0 {
                return Err(NodeError::Identity);
            }
            id.validate()?;
            Ok(id)
        },
    }
}

/// An identity file.
pub open spec fn identity_file(id: NodeIdentity) -> Seq<u8> {
    identity_magic() + blake3_hash(NodeIdentity::bytes(id))@ + NodeIdentity::bytes(id)
}

/// Write an identity file. What is written decodes to the identity.
pub fn encode_identity(id: &NodeIdentity) -> (file: Vec<u8>)
    requires
        id.valid(),
    ensures
        file@ == identity_file(*id),
        file@.len() <= 165,
        identity_decoded(file@) == Ok::<NodeIdentity, IdentityRefusal>(*id),
{
    let mut payload: Vec<u8> = Vec::new();
    id.put(&mut payload);
    assert(payload@ =~= NodeIdentity::bytes(*id));
    let digest = hash(payload.as_slice());
    let magic: [u8; 8] = [70, 79, 67, 65, 76, 78, 68, 49];
    assert(magic@ =~= identity_magic());
    let mut file: Vec<u8> = Vec::new();
    append(&mut file, magic.as_slice());
    append(&mut file, digest.as_slice());
    append(&mut file, payload.as_slice());
    assert(file@ =~= identity_file(*id));
    proof {
        let body = NodeIdentity::bytes(*id);
        varint_is_short(id.schema as nat);
        varint_is_short(id.node as nat);
        assert(file@.skip(40) =~= body);
        assert(file@.take(8) =~= identity_magic());
        assert(file@.subrange(8, 40) =~= digest@);
        assert(body + Seq::<u8>::empty() =~= body);
        assert(NodeIdentity::parse(body + Seq::<u8>::empty()) == Some((*id, Seq::<u8>::empty())));
    }
    file
}

/// `getrandom::fill` of sixteen bytes: whatever the operating system gives,
/// or why it gives nothing.
#[verifier::external_body]
fn draw() -> (drawn: Result<[u8; 16], String>) {
    let mut id = [0u8; 16];
    match getrandom::fill(&mut id) {
        Ok(()) => Ok(id),
        Err(error) => Err(error.to_string()),
    }
}

/// What a draw comes to: a failure is told in the source's own words, the zero
/// identity is drawn again, and any other is kept.
pub fn settled_draw(drawn: Result<[u8; 16], String>) -> (kept: Option<Result<[u8; 16], NodeError>>)
    ensures
        match drawn {
            Err(text) => kept matches Some(Err(NodeError::Entropy(told))) && told@ == text@,
            Ok(id) => if zero_16(id) {
                kept is None
            } else {
                kept == Some(Ok::<[u8; 16], NodeError>(id))
            },
        },
{
    match drawn {
        Err(text) => Some(Err(NodeError::Entropy(text))),
        Ok(id) => if is_zero_16(&id) {
            None
        } else {
            Some(Ok(id))
        },
    }
}

/// Draw an identity; the zero identity is drawn again. Which identity comes,
/// or whether one does, is the operating system's; `settled_draw` says what is
/// made of each draw.
pub fn random_id() -> (id: Result<[u8; 16], NodeError>)
    ensures
        id matches Ok(drawn) ==> !zero_16(drawn),
        id matches Err(error) ==> error is Entropy,
{
    let mut left: u64 = u64::MAX;
    while left > 0
        decreases left,
    {
        if let Some(kept) = settled_draw(draw()) {
            return kept;
        }
        left -= 1;
    }
    Err(NodeError::Entropy(String::from_str("only zero identities were drawn")))
}

/// The identities a new node draws.
#[derive(Debug, Clone, Copy, PartialEq, Eq)]
pub struct Draws {
    pub number: [u8; 16],
    pub cluster: [u8; 16],
    pub tenant: [u8; 16],
    pub session: [u8; 16],
    pub issuer: [u8; 16],
    pub worker: [u8; 16],
    pub evaluator: [u8; 16],
    pub root: [u8; 16],
}

/// The identity draws make: the node's number is the front of its draw.
pub fn identity_from(draws: &Draws) -> (id: NodeIdentity)
    ensures
        id == (NodeIdentity {
            schema: 1,
            cluster: draws.cluster,
            node: be_value(draws.number@) as u64,
            ledger: LedgerId { tenant: draws.tenant, session: draws.session },
            issuer: draws.issuer,
            worker: draws.worker,
            evaluator: draws.evaluator,
            root: draws.root,
        }),
{
    NodeIdentity {
        schema: 1,
        cluster: draws.cluster,
        node: front_number(&draws.number),
        ledger: LedgerId { tenant: draws.tenant, session: draws.session },
        issuer: draws.issuer,
        worker: draws.worker,
        evaluator: draws.evaluator,
        root: draws.root,
    }
}

/// What an identity drawn for a node's number comes to: a failure is handed on,
/// one with a zero front is drawn again, and any other is kept.
pub fn settled_number(drawn: Result<[u8; 16], NodeError>) -> (kept: Option<
    Result<[u8; 16], NodeError>,
>)
    ensures
        kept == (match drawn {
            Err(error) => Some(Err::<[u8; 16], NodeError>(error)),
            Ok(id) => if be_value(id@) == 0 {
                None
            } else {
                Some(Ok::<[u8; 16], NodeError>(id))
            },
        }),
{
    match drawn {
        Err(error) => Some(Err(error)),
        Ok(id) => if front_number(&id) == 0 {
            None
        } else {
            Some(Ok(id))
        },
    }
}

/// Draw a node's number; a draw with a zero front is drawn again, as
/// `settled_number` says.
fn random_number() -> (number: Result<[u8; 16], NodeError>)
    ensures
        number matches Ok(drawn) ==> be_value(drawn@) != 0,
        number matches Err(error) ==> error is Entropy,
{
    let mut left: u64 = u64::MAX;
    while left > 0
        decreases left,
    {
        if let Some(kept) = settled_number(random_id()) {
            return kept;
        }
        left -= 1;
    }
    Err(NodeError::Entropy(String::from_str("only zero numbers were drawn")))
}

/// Make up a new node's identity. Every identity made is valid.
pub fn new_identity() -> (id: Result<NodeIdentity, NodeError>)
    ensures
        id matches Ok(made) ==> made.valid(),
        id matches Err(error) ==> error is Entropy,
{
    let number = random_number()?;
    let cluster = random_id()?;
    let tenant = random_id()?;
    let session = random_id()?;
    let issuer = random_id()?;
    let worker = random_id()?;
    let evaluator = random_id()?;
    let root = random_id()?;
    proof {
        assert(0 <= be_value(number@) <= u64::MAX);
    }
    Ok(
        identity_from(
            &Draws { number, cluster, tenant, session, issuer, worker, evaluator, root },
        ),
    )
}

/// What pinning the configured guarantee writes.
#[derive(Debug, Clone, Copy, PartialEq, Eq, Structural)]
pub struct PolicyInstall {
    /// The policy file, which is not there yet.
    pub policy: bool,
    /// The marker that a policy was installed, which is not there yet.
    pub marker: bool,
}

/// The bytes a policy is pinned by.
pub fn policy_bytes(intent: &PolicyIntent) -> (bytes: Vec<u8>)
    ensures
        bytes@ == PolicyIntent::bytes(intent@),
{
    let mut bytes: Vec<u8> = Vec::new();
    intent.put(&mut bytes);
    assert(bytes@ =~= PolicyIntent::bytes(intent@));
    bytes
}

/// What the marker that a policy was installed is called.
pub open spec fn marker_name() -> Seq<char> {
    "POLICY.initialized"@
}

/// Whether a name in a data directory shows that it was in use: the marker, a
/// store, or the network's state. A policy's absence must not be found beside
/// one of them.
pub open spec fn is_trace(name: Seq<char>) -> bool {
    name == marker_name() || name == "wal"@ || name == "content"@ || name == "NETWORK"@ || name
        == "NETWORK.initialized"@
}

/// The name of the policy file.
pub fn policy_file() -> (name: &'static str)
    ensures
        name@ == "POLICY"@,
{
    "POLICY"
}

/// The name of the marker that a policy was installed.
pub fn marker_file() -> (name: &'static str)
    ensures
        name@ == marker_name(),
{
    "POLICY.initialized"
}

/// What the marker holds.
pub fn marker_text() -> (text: &'static str)
    ensures
        text@ == "deployment policy installed"@,
{
    "deployment policy installed"
}

/// Whether one of the names is the marker.
pub open spec fn marked(names: Seq<String>) -> bool {
    exists|i: int| 0 <= i < names.len() && (#[trigger] names[i])@ == marker_name()
}

/// Whether one of the names shows that a data directory was in use.
pub open spec fn traced(names: Seq<String>) -> bool {
    exists|i: int| 0 <= i < names.len() && is_trace((#[trigger] names[i])@)
}

fn is_marked(names: &Vec<String>) -> (yes: bool)
    ensures
        yes == marked(names@),
{
    let mut i: usize = 0;
    while i < names.len()
        invariant
            i <= names.len(),
            forall|j: int| 0 <= j < i ==> (#[trigger] names@[j])@ != marker_name(),
        decreases names.len() - i,
    {
        if same_text(names[i].as_str(), marker_file()) {
            assert(names@[i as int]@ == marker_name());
            return true;
        }
        i += 1;
    }
    false
}

fn is_traced(names: &Vec<String>) -> (yes: bool)
    ensures
        yes == traced(names@),
{
    let mut i: usize = 0;
    while i < names.len()
        invariant
            i <= names.len(),
            forall|j: int| 0 <= j < i ==> !is_trace((#[trigger] names@[j])@),
        decreases names.len() - i,
    {
        let name = names[i].as_str();
        if same_text(name, marker_file()) || same_text(name, "wal") || same_text(name, "content")
            || same_text(name, "NETWORK") || same_text(name, "NETWORK.initialized") {
            assert(is_trace(names@[i as int]@));
            return true;
        }
        i += 1;
    }
    false
}

/// Pin the configured guarantee before creating a durable store. A missing
/// policy after initialization is data loss, not permission to select a new
/// guarantee. `names` is what the data directory holds.
pub fn install_policy(
    stored: Option<&[u8]>,
    intent: &PolicyIntent,
    names: &Vec<String>,
) -> (install: Result<PolicyInstall, NodeError>)
    ensures
        match stored {
            Some(bytes) => if bytes@.len() <= MAX_POLICY_BYTES && bytes@ == PolicyIntent::bytes(
                intent@,
            ) {
                install == Ok::<PolicyInstall, NodeError>(
                    PolicyInstall { policy: false, marker: !marked(names@) },
                )
            } else {
                install == Err::<PolicyInstall, NodeError>(NodeError::Identity)
            },
            None => if traced(names@) {
                install == Err::<PolicyInstall, NodeError>(NodeError::Identity)
            } else {
                install == Ok::<PolicyInstall, NodeError>(
                    PolicyInstall { policy: true, marker: true },
                )
            },
        },
{
    match stored {
        Some(bytes) => {
            let wanted = policy_bytes(intent);
            if bytes.len() > MAX_POLICY_BYTES || !same_bytes(bytes, wanted.as_slice()) {
                return Err(NodeError::Identity);
            }
            Ok(PolicyInstall { policy: false, marker: !is_marked(names) })
        },
        None => {
            if is_traced(names) {
                return Err(NodeError::Identity);
            }
            Ok(PolicyInstall { policy: true, marker: true })
        },
    }
}

/// A policy that was lost is never selected anew: beside the marker or a store,
/// whatever is configured, nothing is installed.
pub proof fn a_marked_directory_was_in_use(names: Seq<String>)
    requires
        marked(names),
    ensures
        traced(names),
{
    let i = choose|i: int| 0 <= i < names.len() && (#[trigger] names[i])@ == marker_name();
    assert(is_trace(names[i]@));
}

/// Whether settings ask for no more than a local owner serves. `valid` is what
/// their validation says: it comes first.
pub fn local_only(
    valid: Result<(), String>,
    seeds: usize,
    settings: &crate::config::Settings,
) -> (done: Result<(), NodeError>)
    ensures
        match valid {
            Err(text) => done matches Err(NodeError::Config(why)) && why@ == text@,
            Ok(_) => done == (if seeds > 0 || settings.node.listen is Some
                || settings.node.advertise is Some {
                Err::<(), NodeError>(NodeError::NetworkRequired)
            } else {
                Ok::<(), NodeError>(())
            }),
        },
{
    if let Err(text) = valid {
        return Err(NodeError::Config(text));
    }
    if seeds > 0 || settings.node.listen.is_some() || settings.node.advertise.is_some() {
        return Err(NodeError::NetworkRequired);
    }
    Ok(())
}

/// Whether an identified data directory is a local owner's: its network was
/// not asked for, and one node can hold the configured guarantee. `placement`
/// is what the placement of this node alone came to.
pub fn local_placement(network_requested: bool, placement: Result<(), String>) -> (done: Result<
    (),
    NodeError,
>)
    ensures
        if network_requested {
            done == Err::<(), NodeError>(NodeError::NetworkRequired)
        } else {
            match placement {
                Ok(_) => done == Ok::<(), NodeError>(()),
                Err(text) => done matches Err(NodeError::Placement(why)) && why@ == text@,
            }
        },
{
    if network_requested {
        return Err(NodeError::NetworkRequired);
    }
    match placement {
        Ok(_) => Ok(()),
        Err(text) => Err(NodeError::Placement(text)),
    }
}

} // verus!
