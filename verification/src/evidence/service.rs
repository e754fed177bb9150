//! What a job of the evidence owner goes through, and what a request goes
//! through before and after its evidence.
use super::placement::EvidencePlacement;
use super::request::{
    attest, custody_request, custody_request_id, eligible, evidence_of, native_key, refusal_text,
    served_by, service, Evidence, NativeKey, Service,
};
use super::transfer::Distribution;
use super::{root_request, ContentRef, CustodyObligation, CustodyScope};
use crate::access::AccessError;
use crate::hashing::cut;
use crate::ids::LedgerId;
use crate::operation::{Operation, Request, VerifiedRequest};
use vstd::prelude::*;

verus! {

/// One task of a job.
#[derive(Debug, Clone, Copy, PartialEq, Eq, Structural)]
pub enum Task {
    /// Seal the upload, the bundle or the frame's payload on this node.
    Seal,
    /// Bring the object to this node.
    EnsureLocal,
    /// Give the object to every other required copy.
    Replicate,
    /// Read the object's bytes, no more than its schema allows.
    Read,
    /// Check the bytes against the artifact's schema.
    Schema,
    /// Check that the policy is still the placement's.
    CheckPolicy,
    /// Learn which copies hold the object.
    Obligation,
}

/// What a job is done for.
#[derive(Debug, Clone, Copy, PartialEq, Eq, Structural)]
pub enum Trail {
    /// An upload is sealed.
    Seal,
    /// An artifact in the command itself is attested.
    Inline,
    /// An artifact in a content object is attested.
    Object,
    /// A native frame's artifact is attested.
    Native,
    /// An archive bundle is sealed.
    Archive,
}

impl Trail {
    /// The tasks of a job, in their order.
    pub open spec fn tasks(self) -> Seq<Task> {
        match self {
            Trail::Seal => seq![Task::Seal, Task::Replicate, Task::CheckPolicy],
            Trail::Inline => seq![Task::Schema, Task::CheckPolicy],
            Trail::Object => seq![
                Task::EnsureLocal,
                Task::Replicate,
                Task::Read,
                Task::Schema,
                Task::CheckPolicy,
            ],
            Trail::Native => seq![Task::Seal, Task::Replicate, Task::CheckPolicy],
            Trail::Archive => seq![Task::Seal, Task::Replicate, Task::Obligation],
        }
    }

    /// The request a job's object is given to the other copies under: an
    /// upload's and a native frame's own, a managed request's whole key folded
    /// into one identity, and for a bundle that no participant asked for the
    /// front of its root. An artifact in its command is given to nobody.
    pub open spec fn under(self, request: Option<Request>, reference: ContentRef) -> Option<
        [u8; 16],
    > {
        match (self, request) {
            (Trail::Archive, _) => Some(root_request(reference)),
            (Trail::Seal, Some(request)) => Some(request.request_id),
            (Trail::Native, Some(request)) => Some(request.request_id),
            (Trail::Object, Some(request)) => Some(custody_request(request)),
            _ => None,
        }
    }

    /// Give the job's object to every other required copy.
    pub fn distribution(
        self,
        placement: &EvidencePlacement,
        node: u64,
        request: Option<&Request>,
        reference: &ContentRef,
    ) -> (distribution: Option<Distribution>)
        ensures
            match self.under(
                match request {
                    Some(request) => Some(*request),
                    None => None,
                },
                *reference,
            ) {
                None => distribution is None,
                Some(id) => distribution matches Some(giving) && giving.gives(
                    *placement,
                    node,
                    id,
                    *reference,
                ),
            },
    {
        let id = match (self, request) {
            (Trail::Archive, _) => cut(&reference.root),
            (Trail::Seal, Some(request)) => request.request_id,
            (Trail::Native, Some(request)) => request.request_id,
            (Trail::Object, Some(request)) => match custody_request_id(request) {
                Ok(id) => id,
                Err(_) => return None,
            },
            _ => return None,
        };
        Some(Distribution::replicate(placement, node, &id, reference))
    }

    fn task(self, at: usize) -> (task: Option<Task>)
        ensures
            task == (if at < self.tasks().len() {
                Some(self.tasks()[at as int])
            } else {
                None
            }),
    {
        match (self, at) {
            (Trail::Inline, 0) => Some(Task::Schema),
            (Trail::Inline, 1) => Some(Task::CheckPolicy),
            (Trail::Inline, _) => None,
            (Trail::Object, 0) => Some(Task::EnsureLocal),
            (Trail::Object, 1) => Some(Task::Replicate),
            (Trail::Object, 2) => Some(Task::Read),
            (Trail::Object, 3) => Some(Task::Schema),
            (Trail::Object, 4) => Some(Task::CheckPolicy),
            (Trail::Object, _) => None,
            (_, 0) => Some(Task::Seal),
            (_, 1) => Some(Task::Replicate),
            (Trail::Archive, 2) => Some(Task::Obligation),
            (_, 2) => Some(Task::CheckPolicy),
            _ => None,
        }
    }
}

/// What comes next in a job.
#[derive(Debug, Clone, Copy, PartialEq, Eq)]
pub enum Doing {
    Do(Task),
    /// The job is done, or failed so.
    Done(Result<(), AccessError>),
}

/// A job: how many of its tasks have succeeded, and why it failed, once it
/// has.
#[derive(Debug, Clone, Copy, PartialEq, Eq)]
pub struct Job {
    pub trail: Trail,
    pub passed: usize,
    pub failed: Option<AccessError>,
}

impl Job {
    /// A job has passed no more tasks than it has.
    pub open spec fn wf(self) -> bool {
        self.passed <= self.trail.tasks().len()
    }

    /// What comes next.
    pub open spec fn next(self) -> Doing {
        match self.failed {
            Some(error) => Doing::Done(Err(error)),
            None => if self.passed < self.trail.tasks().len() {
                Doing::Do(self.trail.tasks()[self.passed as int])
            } else {
                Doing::Done(Ok(()))
            },
        }
    }

    /// The job after a task: bytes that no schema allows are the request's
    /// fault, whatever the reason.
    pub open spec fn after(self, outcome: Result<(), AccessError>) -> Job {
        match (self.next(), outcome) {
            (Doing::Done(_), _) => self,
            (Doing::Do(_), Ok(_)) => Job { passed: (self.passed + 1) as usize, ..self },
            (Doing::Do(task), Err(error)) => Job {
                failed: Some(
                    if task == Task::Schema {
                        AccessError::InvalidRequest
                    } else {
                        error
                    },
                ),
                ..self
            },
        }
    }

    /// What comes next.
    pub fn doing(&self) -> (next: Doing)
        requires
            self.wf(),
        ensures
            next == self.next(),
    {
        match self.failed {
            Some(error) => Doing::Done(Err(error)),
            None => match self.trail.task(self.passed) {
                Some(task) => Doing::Do(task),
                None => Doing::Done(Ok(())),
            },
        }
    }

    /// Begin a job.
    pub fn begin(trail: Trail) -> (begun: (Self, Doing))
        ensures
            begun.0 == (Job { trail, passed: 0, failed: None }),
            begun.1 == begun.0.next(),
            begun.0.wf(),
    {
        let job = Job { trail, passed: 0, failed: None };
        (job, job.doing())
    }

    /// Begin to attest a request's artifact under a placement's scope and a
    /// schema that allows `maximum` bytes, if it is known.
    pub fn attest(scope: &CustodyScope, request: &Request, maximum: Option<usize>) -> (begun: Result<
        (Self, Evidence),
        AccessError,
    >)
        ensures
            begun == (match evidence_of(*scope, *request, maximum) {
                Err(error) => Err::<(Self, Evidence), AccessError>(error),
                Ok(evidence) => Ok::<(Self, Evidence), AccessError>(
                    (
                        Job {
                            trail: if evidence is Inline {
                                Trail::Inline
                            } else {
                                Trail::Object
                            },
                            passed: 0,
                            failed: None,
                        },
                        evidence,
                    ),
                ),
            }),
            begun matches Ok((job, _)) ==> job.wf(),
    {
        match attest(scope, request, maximum) {
            Err(error) => Err(error),
            Ok(evidence) => {
                let trail = match evidence {
                    Evidence::Inline => Trail::Inline,
                    Evidence::Object { .. } => Trail::Object,
                };
                Ok((Job { trail, passed: 0, failed: None }, evidence))
            },
        }
    }

    /// Take what the last task came to.
    pub fn step(&mut self, outcome: Result<(), AccessError>) -> (next: Doing)
        requires
            old(self).wf(),
        ensures
            *final(self) == old(self).after(outcome),
            next == final(self).next(),
            final(self).wf(),
    {
        match (self.doing(), outcome) {
            (Doing::Done(_), _) => {},
            (Doing::Do(_), Ok(_)) => {
                self.passed = self.passed + 1;
            },
            (Doing::Do(Task::Schema), Err(_)) => {
                self.failed = Some(AccessError::InvalidRequest);
            },
            (Doing::Do(_), Err(error)) => {
                self.failed = Some(error);
            },
        }
        self.doing()
    }
}

/// An artifact is attested only when its bytes were checked against its schema
/// and the policy after that, and one in a content object only when every
/// required copy was given it before: a job that is done has passed all its
/// tasks, and these are among them.
pub proof fn an_attested_artifact_was_checked(job: Job)
    requires
        job.wf(),
        job.next() == Doing::Done(Ok(())),
    ensures
        job.passed == job.trail.tasks().len(),
        job.trail == Trail::Inline || job.trail == Trail::Object ==> job.trail.tasks().contains(
            Task::Schema,
        ),
        job.trail != Trail::Archive ==> job.trail.tasks().last() == Task::CheckPolicy,
        job.trail != Trail::Inline ==> job.trail.tasks()[1] == Task::Replicate,
{
    assert(Trail::Inline.tasks()[0] == Task::Schema);
    assert(Trail::Object.tasks()[3] == Task::Schema);
}

/// Nothing is sent to a copy before it is here: replicating follows sealing
/// the object on this node or bringing it there.
pub proof fn replicating_follows_holding(trail: Trail, at: int)
    requires
        0 <= at < trail.tasks().len(),
        trail.tasks()[at] == Task::Replicate,
    ensures
        at == 1,
        trail.tasks()[0] == Task::Seal || trail.tasks()[0] == Task::EnsureLocal,
{
}

/// A native frame's artifact is given to the other copies under the id of the
/// frame's own key.
pub proof fn a_native_artifact_is_given_under_its_key(
    scope: CustodyScope,
    verified: VerifiedRequest,
    found: Result<Option<(NativeKey, LedgerId)>, AccessError>,
    key: NativeKey,
    reference: ContentRef,
)
    requires
        native_key(scope, verified, found) == Ok::<NativeKey, AccessError>(key),
    ensures
        Trail::Native.under(Some(verified.request), reference) == Some(key.id),
{
}

/// Where a request is, on its way to its answer.
#[derive(Debug, Clone, PartialEq, Eq)]
pub enum Hop {
    /// The evidence owner seals its upload.
    Seal,
    /// The content owner answers it.
    Content,
    /// The evidence owner attests its frame's artifact.
    AttestNative,
    /// The replica answers it, with the frame's evidence.
    SubmitNative,
    /// The artifact its frame evaluates is looked up in the frame.
    FindArtifact,
    /// The artifact's object is looked up in the committed prefix.
    FindPointer,
    /// The evidence owner tells which copies hold the object.
    Obligation,
    /// The replica tells whether its receipt is known.
    Probe,
    /// The evidence owner attests its artifact.
    Attest,
    /// The replica answers it, with the artifact's witness.
    SubmitEvidenced,
    /// The replica answers it.
    Replica,
    /// It is answered with what was found.
    Answered,
    /// It is refused as a condition to retry, told so.
    Refused(String),
    Error(AccessError),
}

/// What a hop came to.
#[derive(Debug, Clone, PartialEq, Eq)]
pub enum Hopped {
    /// It was done, or what was looked for was found.
    Done,
    /// What was looked for is not there.
    Nothing,
    Obligation(CustodyObligation),
    Failed(AccessError),
}

/// Where a request goes first.
pub open spec fn first_hop(operation: Operation) -> Hop {
    match served_by(operation) {
        Service::Seal => Hop::Seal,
        Service::Content => Hop::Content,
        Service::AttestNative => Hop::AttestNative,
        Service::Evaluate => Hop::FindArtifact,
        Service::Attest => Hop::Probe,
        Service::Replica => Hop::Replica,
    }
}

/// Decide where a request goes first.
pub fn handle(operation: &Operation) -> (hop: Hop)
    ensures
        hop == first_hop(*operation),
{
    match service(operation) {
        Service::Seal => Hop::Seal,
        Service::Content => Hop::Content,
        Service::AttestNative => Hop::AttestNative,
        Service::Evaluate => Hop::FindArtifact,
        Service::Attest => Hop::Probe,
        Service::Replica => Hop::Replica,
    }
}

/// Whether a hop is the last.
pub open spec fn is_last(hop: Hop) -> bool {
    hop is Content || hop is SubmitNative || hop is SubmitEvidenced || hop is Replica || hop
        is Answered || hop is Refused || hop is Error
}

/// Whether a request goes from one hop to the next. An artifact that the
/// prefix does not hold is left for the owner to refuse; a known receipt is
/// answered without evidence.
pub open spec fn hops(hop: Hop, hopped: Hopped, next: Hop) -> bool {
    match (hop, hopped) {
        _ if is_last(hop) => next == hop,
        (_, Hopped::Failed(error)) => next == Hop::Error(error),
        (Hop::Seal, _) => next == Hop::Answered,
        (Hop::AttestNative, _) => next == Hop::SubmitNative,
        (Hop::FindArtifact, Hopped::Done) => next == Hop::FindPointer,
        (Hop::FindArtifact, _) => next == Hop::Replica,
        (Hop::FindPointer, Hopped::Done) => next == Hop::Obligation,
        (Hop::FindPointer, _) => next == Hop::Replica,
        (Hop::Obligation, Hopped::Obligation(obligation)) => if obligation.required@.subset_of(
            obligation.held@,
        ) {
            next == Hop::Replica
        } else {
            next matches Hop::Refused(text) && text@ == refusal_text(obligation)
        },
        (Hop::Obligation, _) => next == Hop::Error(AccessError::Unavailable),
        (Hop::Probe, Hopped::Done) => next == Hop::Answered,
        (Hop::Probe, _) => next == Hop::Attest,
        _ => next == Hop::SubmitEvidenced,
    }
}

/// Decide where a request goes next.
pub fn go_on(hop: Hop, hopped: &Hopped) -> (next: Hop)
    ensures
        hops(hop, *hopped, next),
{
    match (hop, hopped) {
        (Hop::Content, _) => Hop::Content,
        (Hop::SubmitNative, _) => Hop::SubmitNative,
        (Hop::SubmitEvidenced, _) => Hop::SubmitEvidenced,
        (Hop::Replica, _) => Hop::Replica,
        (Hop::Answered, _) => Hop::Answered,
        (Hop::Refused(text), _) => Hop::Refused(text),
        (Hop::Error(error), _) => Hop::Error(error),
        (_, Hopped::Failed(error)) => Hop::Error(*error),
        (Hop::Seal, _) => Hop::Answered,
        (Hop::AttestNative, _) => Hop::SubmitNative,
        (Hop::FindArtifact, Hopped::Done) => Hop::FindPointer,
        (Hop::FindArtifact, _) => Hop::Replica,
        (Hop::FindPointer, Hopped::Done) => Hop::Obligation,
        (Hop::FindPointer, _) => Hop::Replica,
        (Hop::Obligation, Hopped::Obligation(obligation)) => match eligible(obligation) {
            Ok(_) => Hop::Replica,
            Err(text) => Hop::Refused(text),
        },
        (Hop::Obligation, _) => Hop::Error(AccessError::Unavailable),
        (Hop::Probe, Hopped::Done) => Hop::Answered,
        (Hop::Probe, _) => Hop::Attest,
        (Hop::Attest, _) => Hop::SubmitEvidenced,
    }
}

/// No artifact reaches the replica without its evidence: an operation that
/// brings one begins elsewhere, and comes there only by way of the evidence
/// owner, when that did not fail.
pub proof fn evidence_comes_before_the_replica(
    operation: Operation,
    hop: Hop,
    hopped: Hopped,
    next: Hop,
)
    requires
        hops(hop, hopped, next),
    ensures
        super::request::artifact_of(operation) is Some ==> first_hop(operation) == Hop::Probe,
        hop == Hop::Probe ==> next == Hop::Answered || next == Hop::Attest || next is Error,
        hop == Hop::Attest ==> next == Hop::SubmitEvidenced || next is Error,
        next == Hop::SubmitEvidenced && hop != next ==> hop == Hop::Attest && !(hopped is Failed),
        next == Hop::SubmitNative && hop != next ==> hop == Hop::AttestNative && !(hopped
            is Failed),
{
}

/// A phase that evaluates an artifact begins only when every required copy
/// holds it.
pub proof fn evaluation_waits_for_custody(hopped: Hopped, next: Hop)
    requires
        hops(Hop::Obligation, hopped, next),
        next == Hop::Replica,
    ensures
        hopped matches Hopped::Obligation(obligation) && obligation.required@.subset_of(
            obligation.held@,
        ),
{
}

} // verus!
