//! What a session's owner does for one request: every check it makes before
//! it proposes, reads or refuses, and what it then waits for.
use super::resolve::{Events, Pending, Question, WaitingFor};
use super::LedgerError;
use crate::access::AccessError;
use crate::barrier::{request_context, request_context_of};
use crate::directory::ConsensusError;
use crate::evidence::request::{artifact, artifact_of, EvidenceAttestation, EvidenceWitness};
use crate::evidence::CustodyScope;
use crate::hashing::same_16;
use crate::ids::{be_bytes, big_endian_is_one_to_one, LedgerId};
use crate::operation::{ManagedOperation, Operation, PeerRole, VerifiedRequest};
use std::collections::VecDeque;
use vstd::prelude::*;
use vstd::utf8::{encode_utf8, is_ascii_chars, is_ascii_chars_encode_utf8};

verus! {

/// A session's owner, as far as a request's admission reads it.
#[derive(Debug, Clone, PartialEq, Eq)]
pub struct Owner {
    pub ledger: LedgerId,
    pub cluster: [u8; 16],
    pub group: [u8; 16],
    pub route_epoch: u64,
    pub policy_revision: u64,
    /// The route the session was activated at, once it was.
    pub active_route: Option<u64>,
    /// Whether a committed cutover closes the route.
    pub cutover: bool,
    pub voters: Vec<u64>,
    pub learners: Vec<u64>,
    /// Whether this replica leads with all its authority.
    pub authoritative: bool,
    pub leader: bool,
    pub term: u64,
    /// Whether it was told to stop.
    pub stopping: bool,
    /// Requests it waits for.
    pub pending: usize,
    /// Requests it may wait for.
    pub pending_clients: usize,
    /// The last number a read was asked under.
    pub nonce: u64,
    /// Whether native history is hosted here.
    pub native_hosted: bool,
    /// Whether a deadline can be set.
    pub clock: bool,
}

/// What the operation's own checks came to: its scope, its frame or its
/// bounds; whether the members it reads are served here; and whether the
/// evidence of a native frame's artifact is at hand.
#[derive(Debug, Clone, Copy, PartialEq, Eq)]
pub struct Checked {
    pub valid: Result<(), AccessError>,
    pub served: bool,
    pub evidenced: bool,
}

/// What a quorum read is for.
#[derive(Debug, Clone, Copy, PartialEq, Eq, Structural)]
pub enum Purpose {
    RequestStream,
    Monitor,
    Summary,
    Reconcile,
    List,
    Select,
    Validators,
    Traverse,
    Read,
    /// What a stream's committed command is answered with.
    Control,
}

impl Purpose {
    /// What the read's context begins with.
    pub open spec fn label(self) -> Seq<char> {
        match self {
            Purpose::RequestStream => "focal.replica.managed.read.v1\0"@,
            Purpose::Monitor => "focal.replica.monitor.v1\0"@,
            Purpose::Summary => "focal.replica.summary.v1\0"@,
            Purpose::Reconcile => "focal.replica.reconcile.v1\0"@,
            Purpose::List => "focal.replica.list.v1\0"@,
            Purpose::Select => "focal.replica.selection.v1\0"@,
            Purpose::Validators => "focal.replica.validators.v1\0"@,
            Purpose::Traverse => "focal.replica.traversal.v1\0"@,
            Purpose::Read => "focal.replica.read.v1\0"@,
            Purpose::Control => "focal.replica.managed.control.v1\0"@,
        }
    }

    /// The context a request's read is asked under.
    pub fn context(self, nonce: u64, principal: &[u8; 16], request: &[u8; 16]) -> (bytes: Vec<u8>)
        ensures
            bytes@ == request_context_of(self.label(), nonce, *principal, *request),
    {
        match self {
            Purpose::RequestStream => request_context(
                "focal.replica.managed.read.v1\0",
                nonce,
                principal,
                request,
            ),
            Purpose::Monitor => request_context(
                "focal.replica.monitor.v1\0",
                nonce,
                principal,
                request,
            ),
            Purpose::Summary => request_context(
                "focal.replica.summary.v1\0",
                nonce,
                principal,
                request,
            ),
            Purpose::Reconcile => request_context(
                "focal.replica.reconcile.v1\0",
                nonce,
                principal,
                request,
            ),
            Purpose::List => request_context("focal.replica.list.v1\0", nonce, principal, request),
            Purpose::Select => request_context(
                "focal.replica.selection.v1\0",
                nonce,
                principal,
                request,
            ),
            Purpose::Validators => request_context(
                "focal.replica.validators.v1\0",
                nonce,
                principal,
                request,
            ),
            Purpose::Traverse => request_context(
                "focal.replica.traversal.v1\0",
                nonce,
                principal,
                request,
            ),
            Purpose::Read => request_context("focal.replica.read.v1\0", nonce, principal, request),
            Purpose::Control => request_context(
                "focal.replica.managed.control.v1\0",
                nonce,
                principal,
                request,
            ),
        }
    }
}

/// A quorum read that was asked for: what for, by whom, and under which number
/// of its owner.
#[derive(Debug, Clone, Copy, PartialEq, Eq)]
pub struct Ticket {
    pub purpose: Purpose,
    pub nonce: u64,
    pub principal: [u8; 16],
    pub request: [u8; 16],
}

impl Ticket {
    /// The context the read is asked under.
    pub open spec fn asked_under(self) -> Seq<u8> {
        request_context_of(self.purpose.label(), self.nonce, self.principal, self.request)
    }

    /// The context the read is asked under.
    pub fn context(&self) -> (bytes: Vec<u8>)
        ensures
            bytes@ == self.asked_under(),
    {
        self.purpose.context(self.nonce, &self.principal, &self.request)
    }
}

/// A native quorum read that was asked for: what its boundary is found by.
#[derive(Debug, Clone, Copy, PartialEq, Eq)]
pub struct Correlation {
    pub principal: [u8; 16],
    pub request: [u8; 16],
    pub nonce: u64,
}

impl Correlation {
    /// Whether two reads are the same.
    pub fn same(&self, other: &Self) -> (same: bool)
        ensures
            same == (*self == *other),
    {
        same_16(&self.principal, &other.principal) && same_16(&self.request, &other.request)
            && self.nonce == other.nonce
    }
}

/// What is done for a request.
#[derive(Debug, Clone, Copy, PartialEq, Eq)]
pub enum Dispatch {
    /// It is refused.
    Refuse(AccessError),
    /// The consensus message is stepped as the node's, and the answer waits
    /// until what it leads to is durable.
    Step { node: u64 },
    /// What this replica supports is answered; where it hosts native history
    /// it first makes the promise it can.
    Support { begin: bool },
    /// The command is proposed under its managed key, unless its receipt is
    /// known: see `Owner::submit`.
    Managed,
    /// The cursor is begun under its managed key, unless it was sealed.
    ManagedCursor,
    /// The stream's command is proposed.
    StreamControl,
    /// A quorum read is asked for, and the answer waits.
    Barrier(Ticket),
    /// The command is proposed, with its evidence: see `Owner::submit`.
    Submit,
    /// The cursor is begun.
    Stream,
    /// The answer is read from what is published here.
    Serve,
    /// The native frame is proposed.
    Native,
    /// A native quorum read is asked for, and the answer waits.
    NativeBarrier(Correlation),
}

/// Whether a list names a node.
pub open spec fn named(list: Seq<u64>, node: u64) -> bool {
    exists|i: int| 0 <= i < list.len() && #[trigger] list[i] == node
}

/// Whether a list names a node.
pub fn is_named(list: &Vec<u64>, node: u64) -> (yes: bool)
    ensures
        yes == named(list@, node),
{
    let mut i: usize = 0;
    while i < list.len()
        invariant
            i <= list.len(),
            forall|j: int| 0 <= j < i ==> #[trigger] list@[j] != node,
        decreases list.len() - i,
    {
        if list[i] == node {
            assert(list@[i as int] == node);
            return true;
        }
        i += 1;
    }
    false
}

impl Owner {
    /// Whether clients are served at a route: it is the installed one, the
    /// session was not activated at another, and no cutover closes it.
    /// Consensus traffic goes on while it is closed.
    pub open spec fn serves(self, route: u64) -> bool {
        route == self.route_epoch && (self.active_route matches Some(active) ==> active == route)
            && !self.cutover
    }

    /// Whether clients are served at a route.
    pub fn serves_route(&self, route: u64) -> (serves: bool)
        ensures
            serves == self.serves(route),
    {
        let active = match self.active_route {
            Some(active) => active == route,
            None => true,
        };
        route == self.route_epoch && active && !self.cutover
    }

    /// Whether a node is a member of the session's group.
    pub open spec fn member(self, node: u64) -> bool {
        named(self.voters@, node) || named(self.learners@, node)
    }

    fn is_member(&self, node: u64) -> (yes: bool)
        ensures
            yes == self.member(node),
    {
        is_named(&self.voters, node) || is_named(&self.learners, node)
    }

    /// The scope an artifact's custody is checked under.
    pub open spec fn scope(self) -> CustodyScope {
        CustodyScope {
            ledger: self.ledger,
            route_epoch: self.route_epoch,
            policy_revision: self.policy_revision,
        }
    }

    /// Whether another request may wait.
    pub open spec fn full(self) -> bool {
        self.pending == self.pending_clients
    }

    /// The next number a read is asked under, where the read may wait.
    pub open spec fn barrier(self, purpose: Purpose, verified: VerifiedRequest) -> Dispatch {
        if self.full() {
            Dispatch::Refuse(AccessError::Capacity)
        } else if self.nonce == u64::MAX {
            Dispatch::Refuse(AccessError::Unavailable)
        } else {
            Dispatch::Barrier(self.ticket(purpose, verified))
        }
    }

    /// The read that is asked for next, for a request.
    pub open spec fn ticket(self, purpose: Purpose, verified: VerifiedRequest) -> Ticket {
        Ticket {
            purpose,
            nonce: (self.nonce + 1) as u64,
            principal: verified.peer.principal,
            request: verified.request.request_id,
        }
    }

    /// The native read that is asked for next, for a request.
    pub open spec fn correlation(self, verified: VerifiedRequest) -> Correlation {
        Correlation {
            principal: verified.peer.principal,
            request: verified.request.request_id,
            nonce: (self.nonce + 1) as u64,
        }
    }

    /// A read that only the authority may serve.
    pub open spec fn authoritative_barrier(
        self,
        purpose: Purpose,
        verified: VerifiedRequest,
    ) -> Dispatch {
        if !self.authoritative {
            Dispatch::Refuse(AccessError::Unavailable)
        } else {
            self.barrier(purpose, verified)
        }
    }

    /// A list's first page needs a fresh barrier; the pages a cursor names
    /// continue from the prefix it was taken at.
    pub open spec fn page(
        self,
        purpose: Purpose,
        verified: VerifiedRequest,
        resumed: bool,
        checked: Checked,
    ) -> Dispatch {
        match checked.valid {
            Err(error) => Dispatch::Refuse(error),
            Ok(_) => if resumed {
                Dispatch::Serve
            } else {
                self.authoritative_barrier(purpose, verified)
            },
        }
    }

    /// What is done for a request that may wait.
    pub open spec fn waits(self, dispatch: Dispatch) -> Dispatch {
        if self.full() {
            Dispatch::Refuse(AccessError::Capacity)
        } else {
            dispatch
        }
    }

    /// What is done for a client's request at a served route.
    pub open spec fn client(self, verified: VerifiedRequest, checked: Checked) -> Dispatch {
        match verified.request.operation {
            Operation::Managed { operation: ManagedOperation::Submit { .. }, .. } => self.waits(
                Dispatch::Managed,
            ),
            Operation::Managed { operation: ManagedOperation::Cursor, .. } => self.waits(
                Dispatch::ManagedCursor,
            ),
            Operation::RequestStreamControl { .. } => self.waits(Dispatch::StreamControl),
            Operation::RequestStreamRead { cluster } => self.waits(
                if cluster != self.cluster {
                    Dispatch::Refuse(AccessError::Unauthorized)
                } else {
                    self.barrier(Purpose::RequestStream, verified)
                },
            ),
            Operation::Submit { .. } | Operation::OpenEpoch => self.waits(Dispatch::Submit),
            Operation::Stream { .. } => self.waits(Dispatch::Stream),
            Operation::Monitor => self.authoritative_barrier(Purpose::Monitor, verified),
            Operation::Summary => self.authoritative_barrier(Purpose::Summary, verified),
            Operation::Reconcile => self.authoritative_barrier(Purpose::Reconcile, verified),
            Operation::List { resumed } => self.page(
                Purpose::List,
                verified,
                resumed,
                checked,
            ),
            Operation::Select { resumed } => self.page(
                Purpose::Select,
                verified,
                resumed,
                checked,
            ),
            Operation::Validators { resumed } => self.page(
                Purpose::Validators,
                verified,
                resumed,
                checked,
            ),
            Operation::Traverse { resumed } => self.page(
                Purpose::Traverse,
                verified,
                resumed,
                checked,
            ),
            Operation::Read { linearizable, .. } => if linearizable {
                self.barrier(Purpose::Read, verified)
            } else {
                Dispatch::Serve
            },
            Operation::Native { header } => self.waits(
                match checked.valid {
                    Err(error) => Dispatch::Refuse(error),
                    Ok(_) => if (header matches Some(header) && header.artifact_bearing)
                        && !checked.evidenced {
                        Dispatch::Refuse(AccessError::UnsupportedOperation)
                    } else {
                        Dispatch::Native
                    },
                },
            ),
            Operation::NativeRead { linearizable } => match checked.valid {
                Err(error) => Dispatch::Refuse(error),
                Ok(_) => if !checked.served {
                    Dispatch::Refuse(AccessError::Unavailable)
                } else if !linearizable {
                    Dispatch::Serve
                } else if !self.authoritative {
                    Dispatch::Refuse(AccessError::Unavailable)
                } else if self.full() {
                    Dispatch::Refuse(AccessError::Capacity)
                } else if self.nonce == u64::MAX {
                    Dispatch::Refuse(AccessError::Unavailable)
                } else {
                    Dispatch::NativeBarrier(self.correlation(verified))
                },
            },
            Operation::NativeList => match checked.valid {
                Err(error) => Dispatch::Refuse(error),
                Ok(_) => if checked.served {
                    Dispatch::Serve
                } else {
                    Dispatch::Refuse(AccessError::Unavailable)
                },
            },
            _ => Dispatch::Refuse(AccessError::UnsupportedOperation),
        }
    }

    /// What is done for a request.
    pub open spec fn dispatch(self, verified: VerifiedRequest, checked: Checked) -> Dispatch {
        let request = verified.request;
        if !self.clock {
            Dispatch::Refuse(AccessError::Unavailable)
        } else if request.ledger != self.ledger {
            Dispatch::Refuse(AccessError::Unauthorized)
        } else {
            match request.operation {
                Operation::Raft { group } => match verified.peer.role {
                    PeerRole::Node { node_id } => if group != self.group || !self.member(node_id) {
                        Dispatch::Refuse(AccessError::Unauthorized)
                    } else {
                        self.waits(Dispatch::Step { node: node_id })
                    },
                    _ => Dispatch::Refuse(AccessError::Unauthorized),
                },
                Operation::ManagedSupport { group } => match verified.peer.role {
                    PeerRole::Node { node_id } => if group != self.group || !self.member(node_id)
                        || request.route_epoch != self.route_epoch {
                        Dispatch::Refuse(AccessError::Unauthorized)
                    } else {
                        Dispatch::Support { begin: self.native_hosted }
                    },
                    _ => Dispatch::Refuse(AccessError::Unauthorized),
                },
                _ => if !self.serves(request.route_epoch) {
                    Dispatch::Refuse(AccessError::Unavailable)
                } else {
                    self.client(verified, checked)
                },
            }
        }
    }

    fn read(&self, purpose: Purpose, verified: &VerifiedRequest) -> (dispatch: Dispatch)
        ensures
            dispatch == self.barrier(purpose, *verified),
    {
        if self.pending == self.pending_clients {
            return Dispatch::Refuse(AccessError::Capacity);
        }
        if self.nonce == u64::MAX {
            return Dispatch::Refuse(AccessError::Unavailable);
        }
        Dispatch::Barrier(
            Ticket {
                purpose,
                nonce: self.nonce + 1,
                principal: verified.peer.principal,
                request: verified.request.request_id,
            },
        )
    }

    fn authoritative_read(&self, purpose: Purpose, verified: &VerifiedRequest) -> (dispatch:
        Dispatch)
        ensures
            dispatch == self.authoritative_barrier(purpose, *verified),
    {
        if !self.authoritative {
            return Dispatch::Refuse(AccessError::Unavailable);
        }
        self.read(purpose, verified)
    }

    fn list(
        &self,
        purpose: Purpose,
        verified: &VerifiedRequest,
        resumed: bool,
        checked: &Checked,
    ) -> (dispatch: Dispatch)
        ensures
            dispatch == self.page(purpose, *verified, resumed, *checked),
    {
        match checked.valid {
            Err(error) => Dispatch::Refuse(error),
            Ok(_) => if resumed {
                Dispatch::Serve
            } else {
                self.authoritative_read(purpose, verified)
            },
        }
    }

    fn wait(&self, dispatch: Dispatch) -> (wait: Dispatch)
        ensures
            wait == self.waits(dispatch),
    {
        if self.pending == self.pending_clients {
            return Dispatch::Refuse(AccessError::Capacity);
        }
        dispatch
    }

    fn serve(&self, verified: &VerifiedRequest, checked: &Checked) -> (dispatch: Dispatch)
        ensures
            dispatch == self.client(*verified, *checked),
    {
        match &verified.request.operation {
            Operation::Managed { operation: ManagedOperation::Submit { .. }, .. } => self.wait(
                Dispatch::Managed,
            ),
            Operation::Managed { operation: ManagedOperation::Cursor, .. } => self.wait(
                Dispatch::ManagedCursor,
            ),
            Operation::RequestStreamControl { .. } => self.wait(Dispatch::StreamControl),
            Operation::RequestStreamRead { cluster } => {
                if self.pending == self.pending_clients {
                    return Dispatch::Refuse(AccessError::Capacity);
                }
                if !same_16(cluster, &self.cluster) {
                    return Dispatch::Refuse(AccessError::Unauthorized);
                }
                self.read(Purpose::RequestStream, verified)
            },
            Operation::Submit { .. } | Operation::OpenEpoch => self.wait(Dispatch::Submit),
            Operation::Stream { .. } => self.wait(Dispatch::Stream),
            Operation::Monitor => self.authoritative_read(Purpose::Monitor, verified),
            Operation::Summary => self.authoritative_read(Purpose::Summary, verified),
            Operation::Reconcile => self.authoritative_read(Purpose::Reconcile, verified),
            Operation::List { resumed } => self.list(
                Purpose::List,
                verified,
                *resumed,
                checked,
            ),
            Operation::Select { resumed } => self.list(
                Purpose::Select,
                verified,
                *resumed,
                checked,
            ),
            Operation::Validators { resumed } => self.list(
                Purpose::Validators,
                verified,
                *resumed,
                checked,
            ),
            Operation::Traverse { resumed } => self.list(
                Purpose::Traverse,
                verified,
                *resumed,
                checked,
            ),
            Operation::Read { linearizable, .. } => if *linearizable {
                self.read(Purpose::Read, verified)
            } else {
                Dispatch::Serve
            },
            Operation::Native { header } => {
                if self.pending == self.pending_clients {
                    return Dispatch::Refuse(AccessError::Capacity);
                }
                if let Err(error) = checked.valid {
                    return Dispatch::Refuse(error);
                }
                let bearing = match header {
                    Some(header) => header.artifact_bearing,
                    None => false,
                };
                if bearing && !checked.evidenced {
                    return Dispatch::Refuse(AccessError::UnsupportedOperation);
                }
                Dispatch::Native
            },
            Operation::NativeRead { linearizable } => {
                if let Err(error) = checked.valid {
                    return Dispatch::Refuse(error);
                }
                if !checked.served {
                    return Dispatch::Refuse(AccessError::Unavailable);
                }
                if !*linearizable {
                    return Dispatch::Serve;
                }
                if !self.authoritative {
                    return Dispatch::Refuse(AccessError::Unavailable);
                }
                if self.pending == self.pending_clients {
                    return Dispatch::Refuse(AccessError::Capacity);
                }
                if self.nonce == u64::MAX {
                    return Dispatch::Refuse(AccessError::Unavailable);
                }
                Dispatch::NativeBarrier(
                    Correlation {
                        principal: verified.peer.principal,
                        request: verified.request.request_id,
                        nonce: self.nonce + 1,
                    },
                )
            },
            Operation::NativeList => {
                if let Err(error) = checked.valid {
                    return Dispatch::Refuse(error);
                }
                if !checked.served {
                    return Dispatch::Refuse(AccessError::Unavailable);
                }
                Dispatch::Serve
            },
            _ => Dispatch::Refuse(AccessError::UnsupportedOperation),
        }
    }

    /// Decide what is done for a request. A read's number is used up whether
    /// or not the read is then asked for.
    pub fn request(&mut self, verified: &VerifiedRequest, checked: &Checked) -> (dispatch: Dispatch)
        ensures
            dispatch == old(self).dispatch(*verified, *checked),
            *final(self) == (match dispatch {
                Dispatch::Barrier(ticket) => Owner { nonce: ticket.nonce, ..*old(self) },
                Dispatch::NativeBarrier(read) => Owner { nonce: read.nonce, ..*old(self) },
                _ => *old(self),
            }),
            (dispatch is Barrier || dispatch is NativeBarrier) ==> final(self).nonce
                == old(self).nonce + 1,
    {
        let dispatch = self.decide(verified, checked);
        match dispatch {
            Dispatch::Barrier(ticket) => {
                self.nonce = ticket.nonce;
            },
            Dispatch::NativeBarrier(read) => {
                self.nonce = read.nonce;
            },
            _ => {},
        }
        dispatch
    }

    /// The read a stream's committed command waits for, for a request of a
    /// principal.
    pub fn control_read(&mut self, principal: &[u8; 16], request: &[u8; 16]) -> (read: Result<
        Ticket,
        LedgerError,
    >)
        ensures
            if old(self).nonce == u64::MAX {
                read == Err::<Ticket, LedgerError>(LedgerError::Capacity) && *final(self)
                    == *old(self)
            } else {
                read == Ok::<Ticket, LedgerError>(
                    Ticket {
                        purpose: Purpose::Control,
                        nonce: (old(self).nonce + 1) as u64,
                        principal: *principal,
                        request: *request,
                    },
                ) && *final(self) == (Owner { nonce: (old(self).nonce + 1) as u64, ..*old(self) })
            },
    {
        if self.nonce == u64::MAX {
            return Err(LedgerError::Capacity);
        }
        self.nonce = self.nonce + 1;
        Ok(
            Ticket {
                purpose: Purpose::Control,
                nonce: self.nonce,
                principal: *principal,
                request: *request,
            },
        )
    }

    fn decide(&self, verified: &VerifiedRequest, checked: &Checked) -> (dispatch: Dispatch)
        ensures
            dispatch == self.dispatch(*verified, *checked),
    {
        let request = &verified.request;
        if !self.clock {
            return Dispatch::Refuse(AccessError::Unavailable);
        }
        if !request.ledger.same(&self.ledger) {
            return Dispatch::Refuse(AccessError::Unauthorized);
        }
        match &request.operation {
            Operation::Raft { group } => match verified.peer.role {
                PeerRole::Node { node_id } => {
                    if !same_16(group, &self.group) || !self.is_member(node_id) {
                        return Dispatch::Refuse(AccessError::Unauthorized);
                    }
                    self.wait(Dispatch::Step { node: node_id })
                },
                _ => Dispatch::Refuse(AccessError::Unauthorized),
            },
            Operation::ManagedSupport { group } => match verified.peer.role {
                PeerRole::Node { node_id } => {
                    if !self.is_member(node_id) || !same_16(group, &self.group)
                        || request.route_epoch != self.route_epoch {
                        return Dispatch::Refuse(AccessError::Unauthorized);
                    }
                    Dispatch::Support { begin: self.native_hosted }
                },
                _ => Dispatch::Refuse(AccessError::Unauthorized),
            },
            _ => {
                if !self.serves_route(request.route_epoch) {
                    return Dispatch::Refuse(AccessError::Unavailable);
                }
                self.serve(verified, checked)
            },
        }
    }

    /// The evidence a submitted command is committed with: a command that
    /// brings an artifact must come with its witness, taken of this very
    /// request under the scope and the voters that hold now.
    pub open spec fn attested(
        self,
        verified: VerifiedRequest,
        witness: Option<EvidenceWitness>,
    ) -> Result<Option<EvidenceAttestation>, AccessError> {
        match artifact_of(verified.request.operation) {
            None => Ok(None),
            Some(artifact) => match witness {
                None => Err(AccessError::UnsupportedOperation),
                Some(witness) => if !witness.taken_of(verified, self.scope(), self.voters@) {
                    Err(AccessError::Unavailable)
                } else if artifact.descriptor != Some(witness.descriptor) {
                    Err(AccessError::InvalidRequest)
                } else {
                    Ok(
                        Some(
                            EvidenceAttestation {
                                descriptor_hash: witness.descriptor,
                                custody_revision: self.policy_revision,
                                durable: true,
                                schema_valid: true,
                            },
                        ),
                    )
                },
            },
        }
    }

    /// The evidence a submitted command is committed with.
    pub fn evidence(&self, verified: &VerifiedRequest, witness: &Option<EvidenceWitness>) -> (evidence:
        Result<Option<EvidenceAttestation>, AccessError>)
        ensures
            evidence == self.attested(*verified, *witness),
    {
        if artifact(&verified.request.operation).is_none() {
            return Ok(None);
        }
        let witness = match witness {
            Some(witness) => witness,
            None => return Err(AccessError::UnsupportedOperation),
        };
        let scope = CustodyScope {
            ledger: self.ledger,
            route_epoch: self.route_epoch,
            policy_revision: self.policy_revision,
        };
        match witness.validate(verified, scope, &self.voters) {
            Ok(attestation) => Ok(Some(attestation)),
            Err(error) => Err(error),
        }
    }

    /// What is done with a submitted command: its known receipt answers it
    /// first, then its evidence is demanded, and only then is it proposed.
    pub open spec fn submits(
        self,
        known: Result<bool, AccessError>,
        verified: VerifiedRequest,
        witness: Option<EvidenceWitness>,
    ) -> Submission {
        match known {
            Err(error) => Submission::Refuse(error),
            Ok(true) => Submission::Answer,
            Ok(false) => match self.attested(verified, witness) {
                Err(error) => Submission::Refuse(error),
                Ok(evidence) => Submission::Propose { evidence },
            },
        }
    }

    /// Decide what is done with a submitted command. `known` is whether the
    /// receipt of its managed key is known, or why that cannot be told; a
    /// command without a managed key has none.
    pub fn submit(
        &self,
        known: Result<bool, AccessError>,
        verified: &VerifiedRequest,
        witness: &Option<EvidenceWitness>,
    ) -> (submission: Submission)
        ensures
            submission == self.submits(known, *verified, *witness),
    {
        match known {
            Err(error) => Submission::Refuse(error),
            Ok(true) => Submission::Answer,
            Ok(false) => match self.evidence(verified, witness) {
                Err(error) => Submission::Refuse(error),
                Ok(evidence) => Submission::Propose { evidence },
            },
        }
    }

    /// Whether a receipt may be looked up for a request.
    pub fn probe(&self, verified: &VerifiedRequest) -> (done: Result<(), AccessError>)
        ensures
            done == (if verified.request.ledger != self.ledger {
                Err::<(), AccessError>(AccessError::Unauthorized)
            } else if !self.serves(verified.request.route_epoch) {
                Err::<(), AccessError>(AccessError::Unavailable)
            } else {
                Ok::<(), AccessError>(())
            }),
    {
        if !verified.request.ledger.same(&self.ledger) {
            return Err(AccessError::Unauthorized);
        }
        if !self.serves_route(verified.request.route_epoch) {
            return Err(AccessError::Unavailable);
        }
        Ok(())
    }
}

/// What is done with a submitted command.
#[derive(Debug, Clone, Copy, PartialEq, Eq)]
pub enum Submission {
    /// Its receipt is known and answers it: nothing is proposed.
    Answer,
    /// It is refused: nothing is proposed.
    Refuse(AccessError),
    /// It is proposed, with what its artifact is attested by, if it brings
    /// one.
    Propose { evidence: Option<EvidenceAttestation> },
}

/// What authority a command is proposed with.
#[derive(Debug, Clone, Copy, PartialEq, Eq)]
pub struct Proposal {
    pub root: [u8; 16],
    pub policy_revision: u64,
    /// Whole seconds of the owner's clock.
    pub logical_time: u64,
    pub runtime: bool,
    pub evidence: Option<EvidenceAttestation>,
}

impl Proposal {
    /// Propose at the owner's time; a participant's runtime authority, where
    /// its ingress grants it, takes the place of none.
    pub fn new(
        root: [u8; 16],
        policy_revision: u64,
        now_ms: u64,
        runtime: Option<bool>,
        evidence: Option<EvidenceAttestation>,
    ) -> (proposal: Self)
        ensures
            proposal == (Proposal {
                root,
                policy_revision,
                logical_time: now_ms / 1000,
                runtime: match runtime {
                    Some(runtime) => runtime,
                    None => false,
                },
                evidence,
            }),
    {
        let runtime = match runtime {
            Some(runtime) => runtime,
            None => false,
        };
        Proposal { root, policy_revision, logical_time: now_ms / 1000, runtime, evidence }
    }
}

/// A closed route serves no client: whatever it asks, it is refused.
pub proof fn a_closed_route_serves_no_client(
    owner: Owner,
    verified: VerifiedRequest,
    checked: Checked,
)
    requires
        !owner.serves(verified.request.route_epoch),
        !(verified.request.operation is Raft),
        !(verified.request.operation is ManagedSupport),
    ensures
        owner.dispatch(verified, checked) is Refuse,
{
}

/// Only members of the group reach its consensus.
pub proof fn only_members_step(
    owner: Owner,
    verified: VerifiedRequest,
    checked: Checked,
    node: u64,
)
    requires
        owner.dispatch(verified, checked) == (Dispatch::Step { node }),
    ensures
        owner.member(node),
        verified.peer.role == (PeerRole::Node { node_id: node }),
        verified.request.ledger == owner.ledger,
{
}

/// A request of another ledger reaches nothing here.
pub proof fn another_ledger_is_unauthorized(
    owner: Owner,
    verified: VerifiedRequest,
    checked: Checked,
)
    requires
        owner.clock,
        verified.request.ledger != owner.ledger,
    ensures
        owner.dispatch(verified, checked) == Dispatch::Refuse(AccessError::Unauthorized),
{
}

/// A list's first page is never served from what happens to be published
/// here: it waits behind a fresh barrier of the authority, under a number no
/// read of this owner had before.
pub proof fn a_first_page_needs_a_fresh_barrier(
    owner: Owner,
    verified: VerifiedRequest,
    checked: Checked,
)
    requires
        verified.request.operation == (Operation::List { resumed: false }),
        !(owner.dispatch(verified, checked) is Refuse),
    ensures
        owner.authoritative,
        owner.dispatch(verified, checked) == Dispatch::Barrier(
            owner.ticket(Purpose::List, verified),
        ),
        owner.nonce < u64::MAX,
{
}

/// No more requests wait than may: one that would has no room.
pub proof fn waiting_is_bounded(owner: Owner, verified: VerifiedRequest, checked: Checked)
    requires
        owner.full(),
    ensures
        !(owner.dispatch(verified, checked) is Barrier),
        !(owner.dispatch(verified, checked) is NativeBarrier),
        !(owner.dispatch(verified, checked) is Step),
        !(owner.dispatch(verified, checked) is Submit),
        !(owner.dispatch(verified, checked) is Managed),
        !(owner.dispatch(verified, checked) is ManagedCursor),
        !(owner.dispatch(verified, checked) is StreamControl),
        !(owner.dispatch(verified, checked) is Stream),
        !(owner.dispatch(verified, checked) is Native),
{
}

/// What the work a request was dispatched to came to.
#[derive(Debug, Clone, Copy, PartialEq, Eq)]
pub enum Effect {
    /// It was done: stepped, asked for, begun or served.
    Done,
    /// What it would do is known: its receipt, or its sealed cursor.
    Known,
    /// It had committed before.
    Committed,
    /// It waits for its quorum.
    Pending,
    /// The domain refused it: nothing was proposed.
    Domain,
    /// It was refused.
    Failed(AccessError),
}

impl Submission {
    /// What the work of a submitted command came to: `proposed` is what its
    /// proposal did, where it was made.
    pub open spec fn comes_to(self, proposed: Effect) -> Effect {
        match self {
            Submission::Answer => Effect::Known,
            Submission::Refuse(error) => Effect::Failed(error),
            Submission::Propose { .. } => proposed,
        }
    }

    /// Tell what the work of a submitted command came to.
    pub fn effect(self, proposed: Effect) -> (effect: Effect)
        ensures
            effect == self.comes_to(proposed),
    {
        match self {
            Submission::Answer => Effect::Known,
            Submission::Refuse(error) => Effect::Failed(error),
            Submission::Propose { .. } => proposed,
        }
    }
}

/// Tell what a probe of this replica's support came to, where it first began
/// the promise it can make. A replica that cannot promise yet still tells what
/// it supports; `told` is what any other failure is refused with.
pub fn supported(begun: Result<(), LedgerError>, told: AccessError) -> (effect: Effect)
    ensures
        effect == (match begun {
            Ok(_) => Effect::Done,
            Err(LedgerError::NativeUnsupported) => Effect::Done,
            Err(LedgerError::Consensus(ConsensusError::PersistencePending)) => Effect::Done,
            Err(_) => Effect::Failed(told),
        }),
{
    match begun {
        Ok(_) => Effect::Done,
        Err(LedgerError::NativeUnsupported) => Effect::Done,
        Err(LedgerError::Consensus(ConsensusError::PersistencePending)) => Effect::Done,
        Err(_) => Effect::Failed(told),
    }
}

/// What becomes of a request.
#[derive(Debug, Clone, Copy, PartialEq, Eq)]
pub enum Settled {
    /// It is answered with what was found.
    Answered,
    /// It is answered with an error.
    Error(AccessError),
    /// Its answer waits.
    Waits(WaitingFor),
}

impl Dispatch {
    /// What becomes of a request, given what its work came to: a proposal is
    /// answered with success only once it has committed, a quorum read only
    /// once it was answered.
    pub open spec fn settles(self, effect: Effect) -> Settled {
        match (self, effect) {
            (Dispatch::Refuse(error), _) => Settled::Error(error),
            (_, Effect::Failed(error)) => Settled::Error(error),
            (Dispatch::Step { .. }, _) => Settled::Waits(WaitingFor::PeerPersistence),
            (Dispatch::StreamControl, _) => Settled::Waits(
                WaitingFor::RequestStreamControl { reading: None },
            ),
            (Dispatch::Barrier(ticket), _) => Settled::Waits(WaitingFor::Quorum(ticket)),
            (Dispatch::NativeBarrier(read), _) => Settled::Waits(WaitingFor::NativeRead(read)),
            (Dispatch::Stream, _) => Settled::Waits(WaitingFor::Stream),
            (Dispatch::ManagedCursor, Effect::Done) => Settled::Waits(WaitingFor::ManagedStream),
            (Dispatch::Managed, Effect::Pending) => Settled::Waits(WaitingFor::ManagedMutation),
            (Dispatch::Submit, Effect::Pending) => Settled::Waits(WaitingFor::Mutation),
            (Dispatch::Native, Effect::Pending) => Settled::Waits(WaitingFor::NativeMutation),
            _ => Settled::Answered,
        }
    }

    /// Decide what becomes of a request, given what its work came to.
    pub fn settle(self, effect: Effect) -> (settled: Settled)
        ensures
            settled == self.settles(effect),
    {
        match (self, effect) {
            (Dispatch::Refuse(error), _) => Settled::Error(error),
            (_, Effect::Failed(error)) => Settled::Error(error),
            (Dispatch::Step { .. }, _) => Settled::Waits(WaitingFor::PeerPersistence),
            (Dispatch::StreamControl, _) => Settled::Waits(
                WaitingFor::RequestStreamControl { reading: None },
            ),
            (Dispatch::Barrier(ticket), _) => Settled::Waits(WaitingFor::Quorum(ticket)),
            (Dispatch::NativeBarrier(read), _) => Settled::Waits(WaitingFor::NativeRead(read)),
            (Dispatch::Stream, _) => Settled::Waits(WaitingFor::Stream),
            (Dispatch::ManagedCursor, Effect::Done) => Settled::Waits(WaitingFor::ManagedStream),
            (Dispatch::Managed, Effect::Pending) => Settled::Waits(WaitingFor::ManagedMutation),
            (Dispatch::Submit, Effect::Pending) => Settled::Waits(WaitingFor::Mutation),
            (Dispatch::Native, Effect::Pending) => Settled::Waits(WaitingFor::NativeMutation),
            _ => Settled::Answered,
        }
    }
}

impl Owner {
    /// The request as it waits.
    pub open spec fn entry<T>(
        self,
        verified: VerifiedRequest,
        waiting: WaitingFor,
        token: T,
        deadline: u64,
        interrupted: AccessError,
    ) -> Pending<T> {
        Pending {
            token,
            waiting,
            principal: verified.peer.principal,
            request: verified.request.request_id,
            route_epoch: verified.request.route_epoch,
            term: self.term,
            deadline,
            closed: false,
            interrupted,
        }
    }

    /// Let a request wait behind those that wait already, if its answer does;
    /// otherwise its token comes back to be answered.
    pub fn enter<T>(
        &self,
        queue: &mut VecDeque<Pending<T>>,
        verified: &VerifiedRequest,
        settled: Settled,
        token: T,
        deadline: u64,
        interrupted: AccessError,
    ) -> (answer: Option<(T, Result<(), AccessError>)>)
        ensures
            match settled {
                Settled::Waits(waiting) => answer is None && final(queue)@ == old(queue)@.push(
                    self.entry(*verified, waiting, token, deadline, interrupted),
                ),
                Settled::Answered => answer == Some((token, Ok::<(), AccessError>(())))
                    && final(queue)@ == old(queue)@,
                Settled::Error(error) => answer == Some((token, Err::<(), AccessError>(error)))
                    && final(queue)@ == old(queue)@,
            },
    {
        match settled {
            Settled::Waits(waiting) => {
                queue.push_back(
                    Pending {
                        token,
                        waiting,
                        principal: verified.peer.principal,
                        request: verified.request.request_id,
                        route_epoch: verified.request.route_epoch,
                        term: self.term,
                        deadline,
                        closed: false,
                        interrupted,
                    },
                );
                None
            },
            Settled::Answered => Some((token, Ok(()))),
            Settled::Error(error) => Some((token, Err(error))),
        }
    }
}

/// A known receipt answers its request, whether or not the artifact's witness
/// came with it, and nothing is proposed again.
pub proof fn a_known_receipt_needs_no_witness(
    owner: Owner,
    verified: VerifiedRequest,
    witness: Option<EvidenceWitness>,
    proposed: Effect,
)
    ensures
        owner.submits(Ok(true), verified, witness) == Submission::Answer,
        Dispatch::Managed.settles(
            owner.submits(Ok(true), verified, witness).comes_to(proposed),
        ) == Settled::Answered,
{
}

/// No artifact is proposed without its witness: what is proposed brings none,
/// or its witness was taken of this request, under the scope and with the
/// voters that hold, and is of this artifact; the proposal carries exactly
/// that attestation.
pub proof fn no_artifact_is_proposed_unattested(
    owner: Owner,
    known: Result<bool, AccessError>,
    verified: VerifiedRequest,
    witness: Option<EvidenceWitness>,
    evidence: Option<EvidenceAttestation>,
)
    requires
        owner.submits(known, verified, witness) == (Submission::Propose { evidence }),
    ensures
        known == Ok::<bool, AccessError>(false),
        evidence is None <==> artifact_of(verified.request.operation) is None,
        evidence matches Some(attestation) ==> {
            &&& witness is Some
            &&& witness->0.taken_of(verified, owner.scope(), owner.voters@)
            &&& artifact_of(verified.request.operation)->0.descriptor == Some(
                attestation.descriptor_hash,
            )
            &&& attestation.descriptor_hash == witness->0.descriptor
            &&& attestation.custody_revision == owner.policy_revision
        },
{
}

/// A command that is refused before it is proposed is answered so, never left
/// waiting.
pub proof fn a_refused_command_does_not_wait(
    owner: Owner,
    known: Result<bool, AccessError>,
    verified: VerifiedRequest,
    witness: Option<EvidenceWitness>,
    dispatch: Dispatch,
    proposed: Effect,
    error: AccessError,
)
    requires
        dispatch is Submit || dispatch is Managed,
        owner.submits(known, verified, witness) == Submission::Refuse(error),
    ensures
        dispatch.settles(owner.submits(known, verified, witness).comes_to(proposed))
            == Settled::Error(error),
{
}

/// Client success waits for quorum commit: a proposal that is pending is not
/// answered.
pub proof fn success_waits_for_the_commit(dispatch: Dispatch)
    requires
        dispatch is Submit || dispatch is Managed || dispatch is Native,
    ensures
        dispatch.settles(Effect::Pending) is Waits,
{
}

/// A quorum read is answered only behind its own barrier: the request waits,
/// and nothing is read for it before the barrier it was asked under is there.
pub proof fn a_read_waits_for_its_barrier<T>(
    owner: Owner,
    verified: VerifiedRequest,
    ticket: Ticket,
    effect: Effect,
    token: T,
    deadline: u64,
    interrupted: AccessError,
    events: Events,
)
    requires
        !(effect is Failed),
        events.prefix(ticket) is None,
        owner.serves(verified.request.route_epoch),
    ensures
        Dispatch::Barrier(ticket).settles(effect) == Settled::Waits(WaitingFor::Quorum(ticket)),
        owner.entry(
            verified,
            WaitingFor::Quorum(ticket),
            token,
            deadline,
            interrupted,
        ).asks(owner, events) == Question::Nothing,
{
}

/// Where a label ends.
proof fn lemma_labels(purpose: Purpose)
    ensures
        is_ascii_chars(purpose.label()),
        purpose.label().len() == (match purpose {
            Purpose::RequestStream => 30int,
            Purpose::Monitor | Purpose::Summary => 25,
            Purpose::Reconcile | Purpose::Select | Purpose::Traverse => 27,
            Purpose::List | Purpose::Read => 22,
            Purpose::Validators => 28,
            Purpose::Control => 33,
        }),
        purpose.label()[14] == (match purpose {
            Purpose::RequestStream => 'm',
            Purpose::Monitor => 'm',
            Purpose::Summary => 's',
            Purpose::Reconcile => 'r',
            Purpose::List => 'l',
            Purpose::Select => 's',
            Purpose::Validators => 'v',
            Purpose::Traverse => 't',
            Purpose::Read => 'r',
            Purpose::Control => 'm',
        }),
{
    reveal_strlit("focal.replica.managed.read.v1\0");
    reveal_strlit("focal.replica.monitor.v1\0");
    reveal_strlit("focal.replica.summary.v1\0");
    reveal_strlit("focal.replica.reconcile.v1\0");
    reveal_strlit("focal.replica.list.v1\0");
    reveal_strlit("focal.replica.selection.v1\0");
    reveal_strlit("focal.replica.validators.v1\0");
    reveal_strlit("focal.replica.traversal.v1\0");
    reveal_strlit("focal.replica.read.v1\0");
    reveal_strlit("focal.replica.managed.control.v1\0");
}

/// No read takes the barrier of another: two reads that are asked under the
/// same context are the same read.
pub proof fn reads_have_their_own_contexts(a: Ticket, b: Ticket)
    requires
        a.asked_under() == b.asked_under(),
    ensures
        a == b,
{
    let (x, y) = (encode_utf8(a.purpose.label()), encode_utf8(b.purpose.label()));
    lemma_labels(a.purpose);
    lemma_labels(b.purpose);
    is_ascii_chars_encode_utf8(a.purpose.label());
    is_ascii_chars_encode_utf8(b.purpose.label());
    assert(a.asked_under().len() == x.len() + 40);
    assert(b.asked_under().len() == y.len() + 40);
    assert(a.asked_under()[14] == x[14]);
    assert(b.asked_under()[14] == y[14]);
    assert(a.purpose.label()[14] as u8 == b.purpose.label()[14] as u8);
    assert(a.purpose == b.purpose);
    let n = x.len() as int;
    assert forall|i: int| 0 <= i < 8 implies be_bytes(a.nonce)[i] == be_bytes(b.nonce)[i] by {
        assert(a.asked_under()[n + i] == be_bytes(a.nonce)[i]);
        assert(b.asked_under()[n + i] == be_bytes(b.nonce)[i]);
    }
    big_endian_is_one_to_one(a.nonce, b.nonce);
    assert forall|i: int| 0 <= i < 16 implies a.principal@[i] == b.principal@[i] by {
        assert(a.asked_under()[n + 8 + i] == a.principal@[i]);
        assert(b.asked_under()[n + 8 + i] == b.principal@[i]);
    }
    assert forall|i: int| 0 <= i < 16 implies a.request@[i] == b.request@[i] by {
        assert(a.asked_under()[n + 24 + i] == a.request@[i]);
        assert(b.asked_under()[n + 24 + i] == b.request@[i]);
    }
    assert(a.principal =~= b.principal);
    assert(a.request =~= b.request);
}

} // verus!
