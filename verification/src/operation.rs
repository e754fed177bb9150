//! What a request asks for, as far as its routing and its admission read it.
use crate::codec::{concat_assoc, cut_behind, Wire};
use crate::evidence::ContentRef;
use crate::hashing::same_16;
use crate::ids::LedgerId;
use vstd::prelude::*;

verus! {

/// The lane work is charged to: new work is ordinary, what completes or ends
/// existing work has an allowance of its own.
#[derive(Debug, Clone, Copy, PartialEq, Eq, Structural)]
pub enum Lane {
    Ordinary,
    Completion,
}

/// What an authenticated peer is.
#[derive(Debug, Clone, Copy, PartialEq, Eq, Structural)]
pub enum PeerRole {
    Node { node_id: u64 },
    Participant,
}

/// An authenticated peer.
#[derive(Debug, Clone, Copy, PartialEq, Eq)]
pub struct Peer {
    pub principal: [u8; 16],
    pub role: PeerRole,
}

/// One stream of a principal's requests to a ledger.
#[derive(Debug, Clone, Copy, PartialEq, Eq)]
pub struct RequestStreamIdentity {
    pub cluster: [u8; 16],
    pub ledger: LedgerId,
    pub principal: [u8; 16],
    pub slot: u32,
    pub generation: u64,
}

/// One request of a stream.
#[derive(Debug, Clone, Copy, PartialEq, Eq)]
pub struct ManagedRequestKey {
    pub stream: RequestStreamIdentity,
    pub ordinal: u64,
    pub id: [u8; 16],
}

impl Wire for RequestStreamIdentity {
    type M = RequestStreamIdentity;

    open spec fn model(&self) -> RequestStreamIdentity {
        *self
    }

    open spec fn bytes(m: RequestStreamIdentity) -> Seq<u8> {
        <[u8; 16]>::bytes(m.cluster) + (LedgerId::bytes(m.ledger) + (<[u8; 16]>::bytes(m.principal) + (u32::bytes(m.slot) + (u64::bytes(m.generation)))))
    }

    open spec fn parse(b: Seq<u8>) -> Option<(RequestStreamIdentity, Seq<u8>)> {
        match <[u8; 16]>::parse(b) {
            None => None,
            Some((cluster, b1)) => match LedgerId::parse(b1) {
                None => None,
                Some((ledger, b2)) => match <[u8; 16]>::parse(b2) {
                    None => None,
                    Some((principal, b3)) => match u32::parse(b3) {
                        None => None,
                        Some((slot, b4)) => match u64::parse(b4) {
                            None => None,
                            Some((generation, b5)) => Some((RequestStreamIdentity { cluster, ledger, principal, slot, generation }, b5)),
                        },
                    },
                },
            },
        }
    }

    fn put(&self, out: &mut Vec<u8>) {
        broadcast use concat_assoc;

        self.cluster.put(out);
        self.ledger.put(out);
        self.principal.put(out);
        self.slot.put(out);
        self.generation.put(out);
        proof {
            let m = self.model();
            assert forall|n: int| 0 <= n < Self::bytes(self.model()).len() implies Self::parse(
                #[trigger] Self::bytes(self.model()).take(n),
            ) is None by {
                let s4 = u64::bytes(m.generation);
                let s3 = u32::bytes(m.slot) + s4;
                let s2 = <[u8; 16]>::bytes(m.principal) + s3;
                let s1 = LedgerId::bytes(m.ledger) + s2;
                cut_behind::<[u8; 16]>(m.cluster, s1, n);
                let n1 = n - <[u8; 16]>::bytes(m.cluster).len();
                cut_behind::<LedgerId>(m.ledger, s2, n1);
                let n2 = n1 - LedgerId::bytes(m.ledger).len();
                cut_behind::<[u8; 16]>(m.principal, s3, n2);
                let n3 = n2 - <[u8; 16]>::bytes(m.principal).len();
                cut_behind::<u32>(m.slot, s4, n3);
                let n4 = n3 - u32::bytes(m.slot).len();
                if 0 <= n4 {
                    assert(u64::parse(u64::bytes(m.generation).take(n4)) is None);
                }
            }
        }
    }

    fn read(input: &[u8]) -> Option<(RequestStreamIdentity, &[u8])> {
        match <[u8; 16]>::read(input) {
            None => None,
            Some((cluster, b1)) => match LedgerId::read(b1) {
                None => None,
                Some((ledger, b2)) => match <[u8; 16]>::read(b2) {
                    None => None,
                    Some((principal, b3)) => match u32::read(b3) {
                        None => None,
                        Some((slot, b4)) => match u64::read(b4) {
                            None => None,
                            Some((generation, b5)) => Some((RequestStreamIdentity { cluster, ledger, principal, slot, generation }, b5)),
                        },
                    },
                },
            },
        }
    }
}

impl Wire for ManagedRequestKey {
    type M = ManagedRequestKey;

    open spec fn model(&self) -> ManagedRequestKey {
        *self
    }

    open spec fn bytes(m: ManagedRequestKey) -> Seq<u8> {
        RequestStreamIdentity::bytes(m.stream) + (u64::bytes(m.ordinal) + (<[u8; 16]>::bytes(m.id)))
    }

    open spec fn parse(b: Seq<u8>) -> Option<(ManagedRequestKey, Seq<u8>)> {
        match RequestStreamIdentity::parse(b) {
            None => None,
            Some((stream, b1)) => match u64::parse(b1) {
                None => None,
                Some((ordinal, b2)) => match <[u8; 16]>::parse(b2) {
                    None => None,
                    Some((id, b3)) => Some((ManagedRequestKey { stream, ordinal, id }, b3)),
                },
            },
        }
    }

    fn put(&self, out: &mut Vec<u8>) {
        broadcast use concat_assoc;

        self.stream.put(out);
        self.ordinal.put(out);
        self.id.put(out);
        proof {
            let m = self.model();
            assert forall|n: int| 0 <= n < Self::bytes(self.model()).len() implies Self::parse(
                #[trigger] Self::bytes(self.model()).take(n),
            ) is None by {
                let s2 = <[u8; 16]>::bytes(m.id);
                let s1 = u64::bytes(m.ordinal) + s2;
                cut_behind::<RequestStreamIdentity>(m.stream, s1, n);
                let n1 = n - RequestStreamIdentity::bytes(m.stream).len();
                cut_behind::<u64>(m.ordinal, s2, n1);
                let n2 = n1 - u64::bytes(m.ordinal).len();
                if 0 <= n2 {
                    assert(<[u8; 16]>::parse(<[u8; 16]>::bytes(m.id).take(n2)) is None);
                }
            }
        }
    }

    fn read(input: &[u8]) -> Option<(ManagedRequestKey, &[u8])> {
        match RequestStreamIdentity::read(input) {
            None => None,
            Some((stream, b1)) => match u64::read(b1) {
                None => None,
                Some((ordinal, b2)) => match <[u8; 16]>::read(b2) {
                    None => None,
                    Some((id, b3)) => Some((ManagedRequestKey { stream, ordinal, id }, b3)),
                },
            },
        }
    }
}

impl RequestStreamIdentity {
    /// Whether two streams are the same.
    pub fn same(&self, other: &Self) -> (same: bool)
        ensures
            same == (*self == *other),
    {
        same_16(&self.cluster, &other.cluster) && self.ledger.same(&other.ledger) && same_16(
            &self.principal,
            &other.principal,
        ) && self.slot == other.slot && self.generation == other.generation
    }
}

impl ManagedRequestKey {
    /// Whether two requests are the same.
    pub fn same(&self, other: &Self) -> (same: bool)
        ensures
            same == (*self == *other),
    {
        self.stream.same(&other.stream) && self.ordinal == other.ordinal && same_16(
            &self.id,
            &other.id,
        )
    }
}

/// Whether two optional requests are the same.
pub fn same_key(a: &Option<ManagedRequestKey>, b: &Option<ManagedRequestKey>) -> (same: bool)
    ensures
        same == (*a == *b),
{
    match (a, b) {
        (Some(a), Some(b)) => a.same(b),
        (None, None) => true,
        _ => false,
    }
}

/// Where an artifact's bytes are.
#[derive(Debug, Clone, PartialEq, Eq)]
pub enum ArtifactPayload {
    /// In the command itself.
    Inline(Vec<u8>),
    /// In a content object.
    Content(ContentRef),
}

/// An artifact a command brings. `descriptor` is the hash of its content
/// description, absent where it cannot be described.
#[derive(Debug, Clone, PartialEq, Eq)]
pub struct NewArtifact {
    pub ledger: LedgerId,
    pub schema_hash: [u8; 32],
    pub payload: ArtifactPayload,
    pub descriptor: Option<[u8; 32]>,
}

/// A command, by the artifact it brings; another one only by the lane its
/// mutation is charged to.
#[derive(Debug, Clone, PartialEq, Eq)]
pub enum Command {
    AttachArtifact { artifact: NewArtifact, lane: Lane },
    RegisterArtifact { artifact: NewArtifact, lane: Lane },
    FailTestamentGeneration { error: NewArtifact, lane: Lane },
    Plain { lane: Lane },
}

impl Command {
    /// The artifact a command brings.
    pub open spec fn brings(self) -> Option<NewArtifact> {
        match self {
            Command::AttachArtifact { artifact, .. } => Some(artifact),
            Command::RegisterArtifact { artifact, .. } => Some(artifact),
            Command::FailTestamentGeneration { error, .. } => Some(error),
            Command::Plain { .. } => None,
        }
    }

    /// The lane a command's mutation is charged to.
    pub open spec fn charged_to(self) -> Lane {
        match self {
            Command::AttachArtifact { lane, .. } => lane,
            Command::RegisterArtifact { lane, .. } => lane,
            Command::FailTestamentGeneration { lane, .. } => lane,
            Command::Plain { lane } => lane,
        }
    }

    /// The lane a command's mutation is charged to.
    pub fn lane(&self) -> (lane: Lane)
        ensures
            lane == self.charged_to(),
    {
        match self {
            Command::AttachArtifact { lane, .. } => *lane,
            Command::RegisterArtifact { lane, .. } => *lane,
            Command::FailTestamentGeneration { lane, .. } => *lane,
            Command::Plain { lane } => *lane,
        }
    }
}

/// What a stream of requests is told.
#[derive(Debug, Clone, Copy, PartialEq, Eq, Structural)]
pub enum RequestStreamCommand {
    Open,
    Acknowledge,
    Seal,
    Close,
}

/// A request under a managed key.
#[derive(Debug, Clone, PartialEq, Eq)]
pub enum ManagedOperation {
    Submit { command: Command },
    Cursor,
}

/// What a native frame's header says of its command.
#[derive(Debug, Clone, Copy, PartialEq, Eq, Structural)]
pub struct NativeHeader {
    pub artifact_bearing: bool,
    pub evaluates_artifact: bool,
}

/// What a request asks for.
#[derive(Debug, Clone, PartialEq, Eq)]
pub enum Operation {
    /// A consensus message of a group.
    Raft { group: [u8; 16] },
    /// What a replica of a group supports.
    ManagedSupport { group: [u8; 16] },
    Managed { key: ManagedRequestKey, operation: ManagedOperation },
    RequestStreamControl { cluster: [u8; 16], control: RequestStreamCommand },
    RequestStreamRead { cluster: [u8; 16] },
    Submit { command: Command },
    OpenEpoch,
    /// A cursor with room for `credit` bytes.
    Stream { credit: u32 },
    Monitor,
    Summary,
    Reconcile,
    /// The pages of a list: the first, or the one a cursor names.
    List { resumed: bool },
    Select { resumed: bool },
    Validators { resumed: bool },
    Traverse { resumed: bool },
    /// A read, and the bytes a seed scan asks for.
    Read { linearizable: bool, seed_scan: Option<u32> },
    /// A native frame, with its header where it has one.
    Native { header: Option<NativeHeader> },
    NativeRead { linearizable: bool },
    NativeList,
    Upload { seal: bool },
    Download,
    Custody,
    /// What no replica serves.
    Unserved,
}

impl Operation {
    /// The command an operation submits, under a managed key or without.
    pub open spec fn submits(self) -> Option<Command> {
        match self {
            Operation::Submit { command } => Some(command),
            Operation::Managed { operation: ManagedOperation::Submit { command }, .. } => Some(
                command,
            ),
            _ => None,
        }
    }

    /// The command an operation submits.
    pub fn submitted(&self) -> (command: Option<&Command>)
        ensures
            match command {
                Some(command) => self.submits() == Some(*command),
                None => self.submits() is None,
            },
    {
        match self {
            Operation::Submit { command } => Some(command),
            Operation::Managed { operation: ManagedOperation::Submit { command }, .. } => Some(
                command,
            ),
            _ => None,
        }
    }
}

/// A request.
#[derive(Debug, Clone, PartialEq, Eq)]
pub struct Request {
    pub ledger: LedgerId,
    pub route_epoch: u64,
    pub request_epoch: u64,
    pub request_id: [u8; 16],
    pub operation: Operation,
}

/// A request and the peer it came from, both checked.
#[derive(Debug, Clone, PartialEq, Eq)]
pub struct VerifiedRequest {
    pub request: Request,
    pub peer: Peer,
}

} // verus!
