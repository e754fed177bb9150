//! What a request's evidence is bound to, and where a request goes.
use super::placement::EvidencePlacement;
use super::{ContentRef, CustodyObligation, CustodyScope};
use crate::access::AccessError;
use crate::codec::Wire;
use crate::hashing::{blake3_derive_key, cut, derive_key, front, same_16, same_32};
use crate::nodes::in_order;
use crate::operation::{
    same_key, ArtifactPayload, Command, ManagedRequestKey, NewArtifact, Operation, Request,
    VerifiedRequest,
};
use crate::text::{decimal, decimal_text};
use std::collections::BTreeSet;
use vstd::prelude::*;
use vstd::string::StringExecFns;

verus! {

broadcast use vstd::std_specs::btree::group_btree_axioms;

/// Bytes of an artifact a command may carry itself.
pub const MAX_INLINE_BYTES: usize = 16 * 1024;

/// The managed key a request runs under.
pub open spec fn key_of(operation: Operation) -> Option<ManagedRequestKey> {
    match operation {
        Operation::Managed { key, .. } => Some(key),
        _ => None,
    }
}

/// The managed key a request runs under.
pub fn managed_key(operation: &Operation) -> (key: Option<ManagedRequestKey>)
    ensures
        key == key_of(*operation),
{
    match operation {
        Operation::Managed { key, .. } => Some(*key),
        _ => None,
    }
}

/// The request custody is transferred under: the whole managed key folded
/// into one identity, or the request's own.
pub open spec fn custody_request(request: Request) -> [u8; 16] {
    match key_of(request.operation) {
        Some(key) => front(
            blake3_derive_key(
                "focal.evidence.managed-transfer-request.v1"@,
                ManagedRequestKey::bytes(key),
            ),
        ),
        None => request.request_id,
    }
}

/// The request custody is transferred under.
pub fn custody_request_id(request: &Request) -> (id: Result<[u8; 16], AccessError>)
    ensures
        id == Ok::<[u8; 16], AccessError>(custody_request(*request)),
{
    match managed_key(&request.operation) {
        None => Ok(request.request_id),
        Some(key) => {
            let mut bytes: Vec<u8> = Vec::new();
            key.put(&mut bytes);
            assert(bytes@ =~= ManagedRequestKey::bytes(key));
            let hash = derive_key("focal.evidence.managed-transfer-request.v1", bytes.as_slice());
            Ok(cut(&hash))
        },
    }
}

/// The artifact an operation brings.
pub open spec fn artifact_of(operation: Operation) -> Option<NewArtifact> {
    match operation.submits() {
        Some(command) => command.brings(),
        None => None,
    }
}

/// The artifact an operation brings.
pub fn artifact(operation: &Operation) -> (artifact: Option<&NewArtifact>)
    ensures
        match artifact {
            Some(artifact) => artifact_of(*operation) == Some(*artifact),
            None => artifact_of(*operation) is None,
        },
{
    match operation.submitted() {
        Some(command) => match command {
            Command::AttachArtifact { artifact, .. } => Some(artifact),
            Command::RegisterArtifact { artifact, .. } => Some(artifact),
            Command::FailTestamentGeneration { error, .. } => Some(error),
            Command::Plain { .. } => None,
        },
        None => None,
    }
}

/// What a committed artifact is attested by.
#[derive(Debug, Clone, Copy, PartialEq, Eq)]
pub struct EvidenceAttestation {
    pub descriptor_hash: [u8; 32],
    pub custody_revision: u64,
    pub durable: bool,
    pub schema_valid: bool,
}

/// What the evidence of one request was checked under. No caller can supply
/// one: the replica rechecks its request and placement fence immediately
/// before proposing the artifact.
#[derive(Debug, Clone, PartialEq, Eq)]
pub struct EvidenceWitness {
    pub scope: CustodyScope,
    pub request: [u8; 16],
    pub epoch: u64,
    pub managed: Option<ManagedRequestKey>,
    pub principal: [u8; 16],
    pub descriptor: [u8; 32],
    pub voters: BTreeSet<u64>,
}

/// Whether a list names as many voters as a set and none outside it.
pub open spec fn names_the_voters(set: Set<u64>, voters: Seq<u64>) -> bool {
    set.len() == voters.len() && forall|i: int|
        0 <= i < voters.len() ==> set.contains(#[trigger] voters[i])
}

impl EvidenceWitness {
    /// Whether the witness was taken of this request, under this scope and
    /// by this peer, with these voters.
    pub open spec fn taken_of(
        self,
        verified: VerifiedRequest,
        scope: CustodyScope,
        voters: Seq<u64>,
    ) -> bool {
        let request = verified.request;
        self.scope == scope && request.ledger == scope.ledger && request.route_epoch
            == scope.route_epoch && self.request == request.request_id && self.epoch
            == request.request_epoch && self.managed == key_of(request.operation)
            && self.principal == verified.peer.principal && names_the_voters(self.voters@, voters)
    }

    /// Attest a request's artifact by this witness: it must have been taken
    /// of the very request under the scope and voters that hold now, and of
    /// the very artifact.
    pub fn validate(
        &self,
        verified: &VerifiedRequest,
        scope: CustodyScope,
        voters: &Vec<u64>,
    ) -> (attestation: Result<EvidenceAttestation, AccessError>)
        ensures
            attestation == (if !self.taken_of(*verified, scope, voters@) {
                Err::<EvidenceAttestation, AccessError>(AccessError::Unavailable)
            } else {
                match artifact_of(verified.request.operation) {
                    Some(artifact) if artifact.descriptor == Some(self.descriptor) => Ok::<
                        EvidenceAttestation,
                        AccessError,
                    >(
                        EvidenceAttestation {
                            descriptor_hash: self.descriptor,
                            custody_revision: scope.policy_revision,
                            durable: true,
                            schema_valid: true,
                        },
                    ),
                    _ => Err::<EvidenceAttestation, AccessError>(AccessError::InvalidRequest),
                }
            }),
    {
        let request = &verified.request;
        let key = managed_key(&request.operation);
        if !self.scope.same(&scope) || !request.ledger.same(&scope.ledger) || request.route_epoch
            != scope.route_epoch || !same_16(&self.request, &request.request_id) || self.epoch
            != request.request_epoch || !same_key(&self.managed, &key) || !same_16(
            &self.principal,
            &verified.peer.principal,
        ) || self.voters.len() != voters.len() {
            return Err(AccessError::Unavailable);
        }
        let mut i: usize = 0;
        while i < voters.len()
            invariant
                i <= voters.len(),
                forall|j: int| 0 <= j < i ==> self.voters@.contains(#[trigger] voters@[j]),
            decreases voters.len() - i,
        {
            if !self.voters.contains(&voters[i]) {
                assert(!self.voters@.contains(voters@[i as int]));
                return Err(AccessError::Unavailable);
            }
            i += 1;
        }
        match artifact(&request.operation) {
            Some(artifact) => match &artifact.descriptor {
                Some(descriptor) if same_32(descriptor, &self.descriptor) => Ok(
                    EvidenceAttestation {
                        descriptor_hash: self.descriptor,
                        custody_revision: scope.policy_revision,
                        durable: true,
                        schema_valid: true,
                    },
                ),
                _ => Err(AccessError::InvalidRequest),
            },
            None => Err(AccessError::InvalidRequest),
        }
    }
}

/// A witness is worth nothing once the route or the policy moved.
pub proof fn a_witness_is_fenced(
    witness: EvidenceWitness,
    verified: VerifiedRequest,
    scope: CustodyScope,
    voters: Seq<u64>,
)
    requires
        witness.scope.route_epoch != scope.route_epoch || witness.scope.policy_revision
            != scope.policy_revision,
    ensures
        !witness.taken_of(verified, scope, voters),
{
}

/// What an artifact's evidence takes.
#[derive(Debug, Clone, Copy, PartialEq, Eq)]
pub enum Evidence {
    /// The bytes the command carries satisfy the artifact's schema. They are
    /// committed with the command.
    Inline,
    /// The object is on this node and on every other required copy, and its
    /// bytes satisfy the artifact's schema.
    Object { reference: ContentRef, custody: [u8; 16], maximum: usize },
}

/// What the evidence of a request's artifact takes, under a schema that
/// allows `maximum` bytes, if it is known.
pub open spec fn evidence_of(
    scope: CustodyScope,
    request: Request,
    maximum: Option<usize>,
) -> Result<Evidence, AccessError> {
    match artifact_of(request.operation) {
        None => Err(AccessError::InvalidRequest),
        Some(artifact) => if artifact.ledger != scope.ledger {
            Err(AccessError::Unauthorized)
        } else {
            match maximum {
                None => Err(AccessError::UnsupportedOperation),
                Some(maximum) => match artifact.payload {
                    ArtifactPayload::Inline(bytes) => if bytes@.len() <= MAX_INLINE_BYTES {
                        Ok(Evidence::Inline)
                    } else {
                        Err(AccessError::Capacity)
                    },
                    ArtifactPayload::Content(reference) => if reference.length > maximum {
                        Err(AccessError::Capacity)
                    } else {
                        Ok(
                            Evidence::Object {
                                reference,
                                custody: custody_request(request),
                                maximum,
                            },
                        )
                    },
                },
            }
        },
    }
}

/// Decide what the evidence of a request's artifact takes.
pub fn attest(scope: &CustodyScope, request: &Request, maximum: Option<usize>) -> (evidence: Result<
    Evidence,
    AccessError,
>)
    ensures
        evidence == evidence_of(*scope, *request, maximum),
{
    let artifact = match artifact(&request.operation) {
        Some(artifact) => artifact,
        None => return Err(AccessError::InvalidRequest),
    };
    if !artifact.ledger.same(&scope.ledger) {
        return Err(AccessError::Unauthorized);
    }
    let maximum: usize = match maximum {
        Some(maximum) => maximum,
        None => return Err(AccessError::UnsupportedOperation),
    };
    match &artifact.payload {
        ArtifactPayload::Inline(bytes) => if bytes.len() <= MAX_INLINE_BYTES {
            Ok(Evidence::Inline)
        } else {
            Err(AccessError::Capacity)
        },
        ArtifactPayload::Content(reference) => {
            if reference.length > maximum as u64 {
                return Err(AccessError::Capacity);
            }
            match custody_request_id(request) {
                Ok(custody) => Ok(Evidence::Object { reference: *reference, custody, maximum }),
                Err(error) => Err(error),
            }
        },
    }
}

/// The bytes a witness keeps of its job's `held` bytes: its voters, itself
/// (`own` bytes) and its request of `size` bytes.
pub fn witness_bytes(voters: usize, own: usize, size: usize, held: usize) -> (bytes: Result<
    usize,
    AccessError,
>)
    ensures
        bytes == (if voters * 128 + own + size * 32 <= usize::MAX && voters * 128 + own + size * 32
            <= held {
            Ok::<usize, AccessError>((voters * 128 + own + size * 32) as usize)
        } else {
            Err::<usize, AccessError>(AccessError::Capacity)
        }),
{
    let request: usize = match size.checked_mul(32) {
        Some(bytes) => bytes,
        None => return Err(AccessError::Capacity),
    };
    let members: usize = match voters.checked_mul(128) {
        Some(bytes) => bytes,
        None => return Err(AccessError::Capacity),
    };
    let kept: usize = match members.checked_add(own) {
        Some(bytes) => bytes,
        None => return Err(AccessError::Capacity),
    };
    match kept.checked_add(request) {
        Some(bytes) => if bytes <= held {
            Ok(bytes)
        } else {
            Err(AccessError::Capacity)
        },
        None => Err(AccessError::Capacity),
    }
}

/// Take the witness of a request whose evidence was checked under a
/// placement.
pub fn witness(placement: &EvidencePlacement, verified: &VerifiedRequest) -> (witness: Result<
    EvidenceWitness,
    AccessError,
>)
    ensures
        match artifact_of(verified.request.operation) {
            Some(artifact) if artifact.descriptor is Some => witness matches Ok(witness)
                && witness.scope == placement.scope && witness.request
                == verified.request.request_id && witness.epoch == verified.request.request_epoch
                && witness.managed == key_of(verified.request.operation) && witness.principal
                == verified.peer.principal && Some(witness.descriptor) == artifact.descriptor
                && witness.voters@ == placement.voters@,
            _ => witness == Err::<EvidenceWitness, AccessError>(AccessError::InvalidRequest),
        },
{
    let descriptor = match artifact(&verified.request.operation) {
        Some(artifact) => match artifact.descriptor {
            Some(descriptor) => descriptor,
            None => return Err(AccessError::InvalidRequest),
        },
        None => return Err(AccessError::InvalidRequest),
    };
    Ok(
        EvidenceWitness {
            scope: placement.scope,
            request: verified.request.request_id,
            epoch: verified.request.request_epoch,
            managed: managed_key(&verified.request.operation),
            principal: verified.peer.principal,
            descriptor,
            voters: placement.voters.clone(),
        },
    )
}

/// A witness taken of a request is taken of it for as long as the placement
/// stands: with the placement's voters, the artifact is attested at the
/// placement's revision.
pub proof fn a_fresh_witness_attests(
    placement: EvidencePlacement,
    verified: VerifiedRequest,
    witness: EvidenceWitness,
    voters: Seq<u64>,
)
    requires
        witness.scope == placement.scope,
        witness.request == verified.request.request_id,
        witness.epoch == verified.request.request_epoch,
        witness.managed == key_of(verified.request.operation),
        witness.principal == verified.peer.principal,
        witness.voters@ == placement.voters@,
        verified.request.ledger == placement.scope.ledger,
        verified.request.route_epoch == placement.scope.route_epoch,
        voters.no_duplicates(),
        voters.to_set() == placement.voters@,
    ensures
        witness.taken_of(verified, placement.scope, voters),
{
    voters.unique_seq_to_set();
    assert forall|i: int| 0 <= i < voters.len() implies placement.voters@.contains(
        #[trigger] voters[i],
    ) by {
        assert(voters.to_set().contains(voters[i]));
    }
}

/// What a native frame's artifact is bound to.
#[derive(Debug, Clone, Copy, PartialEq, Eq)]
pub struct NativeKey {
    pub principal: [u8; 16],
    pub id: [u8; 16],
    pub epoch: u64,
}

/// The key a native frame's artifact is attested under, if it is its
/// request's: `found` is the artifact key and the descriptor's ledger, where
/// the frame bears one.
pub open spec fn native_key(
    scope: CustodyScope,
    verified: VerifiedRequest,
    found: Result<Option<(NativeKey, crate::ids::LedgerId)>, AccessError>,
) -> Result<NativeKey, AccessError> {
    if !(verified.request.operation is Native) {
        Err(AccessError::InvalidRequest)
    } else if verified.request.ledger != scope.ledger {
        Err(AccessError::Unauthorized)
    } else {
        match found {
            Err(error) => Err(error),
            Ok(None) => Err(AccessError::InvalidRequest),
            Ok(Some((key, ledger))) => if key.principal == verified.peer.principal && key.id
                == verified.request.request_id && key.epoch == verified.request.request_epoch
                && ledger == scope.ledger {
                Ok(key)
            } else {
                Err(AccessError::Unauthorized)
            },
        }
    }
}

/// Whether a native frame's artifact is its request's.
pub fn attest_native(
    scope: &CustodyScope,
    verified: &VerifiedRequest,
    found: Result<Option<(NativeKey, crate::ids::LedgerId)>, AccessError>,
) -> (key: Result<NativeKey, AccessError>)
    ensures
        key == native_key(*scope, *verified, found),
{
    match &verified.request.operation {
        Operation::Native { .. } => {},
        _ => return Err(AccessError::InvalidRequest),
    }
    if !verified.request.ledger.same(&scope.ledger) {
        return Err(AccessError::Unauthorized);
    }
    match found {
        Err(error) => Err(error),
        Ok(None) => Err(AccessError::InvalidRequest),
        Ok(Some((key, ledger))) => if same_16(&key.principal, &verified.peer.principal) && same_16(
            &key.id,
            &verified.request.request_id,
        ) && key.epoch == verified.request.request_epoch && ledger.same(&scope.ledger) {
            Ok(key)
        } else {
            Err(AccessError::Unauthorized)
        },
    }
}

/// Where a request goes.
#[derive(Debug, Clone, Copy, PartialEq, Eq, Structural)]
pub enum Service {
    /// To the evidence owner, to seal an upload.
    Seal,
    /// To the content owner.
    Content,
    /// To the evidence owner for the frame's artifact, then to the replica.
    AttestNative,
    /// To the replica, once the artifact it evaluates is held by every
    /// required copy.
    Evaluate,
    /// To the replica for a known receipt, then to the evidence owner for
    /// the artifact, then to the replica.
    Attest,
    /// To the replica.
    Replica,
}

/// Where a request goes.
pub open spec fn served_by(operation: Operation) -> Service {
    match operation {
        Operation::Upload { seal: true } => Service::Seal,
        Operation::Upload { .. } | Operation::Custody | Operation::Download => Service::Content,
        Operation::Native { header: Some(header) } => if header.artifact_bearing {
            Service::AttestNative
        } else if header.evaluates_artifact {
            Service::Evaluate
        } else {
            Service::Replica
        },
        _ => if artifact_of(operation) is Some {
            Service::Attest
        } else {
            Service::Replica
        },
    }
}

/// Decide where a request goes.
pub fn service(operation: &Operation) -> (service: Service)
    ensures
        service == served_by(*operation),
{
    match operation {
        Operation::Upload { seal: true } => Service::Seal,
        Operation::Upload { .. } | Operation::Custody | Operation::Download => Service::Content,
        Operation::Native { header: Some(header) } => if header.artifact_bearing {
            Service::AttestNative
        } else if header.evaluates_artifact {
            Service::Evaluate
        } else {
            Service::Replica
        },
        _ => if artifact(operation).is_some() {
            Service::Attest
        } else {
            Service::Replica
        },
    }
}

/// No artifact reaches the replica without its evidence.
pub proof fn artifacts_are_attested(operation: Operation)
    ensures
        artifact_of(operation) is Some ==> served_by(operation) == Service::Attest,
        operation matches Operation::Native { header: Some(header) }
            ==> (header.artifact_bearing ==> served_by(operation) == Service::AttestNative),
{
}

/// Node ids in the order given, joined by commas.
pub open spec fn node_list(nodes: Seq<u64>) -> Seq<char>
    decreases nodes.len(),
{
    if nodes.len() == 0 {
        Seq::empty()
    } else if nodes.len() == 1 {
        decimal_text(nodes[0] as nat)
    } else {
        node_list(nodes.drop_last()) + ","@ + decimal_text(nodes.last() as nat)
    }
}

fn listed(nodes: &Vec<u64>) -> (text: String)
    ensures
        text@ == node_list(nodes@),
{
    let mut text = String::new();
    assert(text@ =~= Seq::<char>::empty());
    let mut i: usize = 0;
    while i < nodes.len()
        invariant
            i <= nodes.len(),
            text@ == node_list(nodes@.take(i as int)),
        decreases nodes.len() - i,
    {
        let number = decimal(nodes[i]);
        proof {
            assert(nodes@.take(i + 1).drop_last() =~= nodes@.take(i as int));
            assert(nodes@.take(i + 1).last() == nodes@[i as int]);
            assert(Seq::<char>::empty() + number@ =~= number@);
        }
        if i > 0 {
            text.append(",");
        }
        text.append(number.as_str());
        i += 1;
    }
    assert(nodes@.take(nodes@.len() as int) =~= nodes@);
    text
}

/// What a frame short of custody is refused with: a condition to retry.
pub open spec fn refusal_text(obligation: CustodyObligation) -> Seq<char> {
    "custody: "@ + decimal_text(obligation.held@.len()) + " of "@ + decimal_text(
        obligation.required@.len(),
    ) + " required copies hold the artifact; missing nodes "@ + node_list(
        in_order(obligation.required@.difference(obligation.held@)),
    )
}

/// Whether the phase that evaluates an artifact may begin: every required
/// copy holds it. Otherwise the frame is refused, naming the copies.
pub fn eligible(obligation: &CustodyObligation) -> (begun: Result<(), String>)
    ensures
        match begun {
            Ok(_) => obligation.required@.subset_of(obligation.held@),
            Err(detail) => !obligation.required@.subset_of(obligation.held@) && detail@
                == refusal_text(*obligation),
        },
{
    if obligation.satisfied() {
        return Ok(());
    }
    let held = decimal(obligation.held.len() as u64);
    let required = decimal(obligation.required.len() as u64);
    let missing = listed(&obligation.missing());
    let mut text = String::from_str("custody: ");
    text.append(held.as_str());
    text.append(" of ");
    text.append(required.as_str());
    text.append(" required copies hold the artifact; missing nodes ");
    text.append(missing.as_str());
    Err(text)
}

} // verus!
