//! The journal of a plan's application: one record per step, only ever
//! advancing, durable before each effect.
use super::facts::DeploymentPlan;
use super::plan::{artifact, refusal_of, starts_with, strip, Refusal, MAX_PLAN_BYTES};
use super::DeploymentError;
use crate::codec::{append, concat_assoc, cut_behind, models, Wire};
use crate::hashing::blake3_hash;
use vstd::prelude::*;

verus! {

/// The layout a journal is written in.
pub const JOURNAL_SCHEMA: u16 = 1;

/// A journal file never exceeds this.
pub const MAX_JOURNAL_BYTES: usize = 1024 * 1024;

/// The bytes a journal file starts with: `FCLAPLY1`.
pub open spec fn journal_magic() -> Seq<u8> {
    seq![70u8, 67u8, 76u8, 65u8, 80u8, 76u8, 89u8, 49u8]
}

/// The bytes a journal file starts with.
pub fn journal_magic_bytes() -> (bytes: [u8; 8])
    ensures
        bytes@ == journal_magic(),
{
    let bytes: [u8; 8] = [70, 67, 76, 65, 80, 76, 89, 49];
    assert(bytes@ =~= journal_magic());
    bytes
}

/// How far a step has come.
#[derive(Debug, Clone, Copy, PartialEq, Eq, PartialOrd, Ord, Structural)]
pub enum Phase {
    /// The step is next; nothing was sent.
    Prepared,
    /// The change was accepted (policy written, placement request journaled).
    Committed,
    /// The directory reflects the change (the plan is under way or done).
    Verified,
    /// The change's effect is observed complete.
    Complete,
}

impl Phase {
    /// The phase's place in the order.
    pub open spec fn rank(self) -> int {
        match self {
            Phase::Prepared => 0,
            Phase::Committed => 1,
            Phase::Verified => 2,
            Phase::Complete => 3,
        }
    }

    /// The phase's place in the order.
    pub fn order(self) -> (order: u8)
        ensures
            order == self.rank(),
    {
        match self {
            Phase::Prepared => 0,
            Phase::Committed => 1,
            Phase::Verified => 2,
            Phase::Complete => 3,
        }
    }
}

/// One step's record.
#[derive(Debug, Clone, Copy, PartialEq, Eq)]
pub struct Step {
    pub index: u32,
    pub phase: Phase,
    /// The operation the placement request denoted, once committed.
    pub operation: Option<[u8; 16]>,
    pub updated_ms: u64,
}

/// How an application ended, or that it has not.
#[derive(Debug, Clone, PartialEq, Eq)]
pub enum Outcome {
    InProgress,
    Complete,
    /// The plan was found stale at `step`; it is never resumed.
    Stale { step: u32, subject: String, field: String },
}

/// What an outcome says.
pub enum OutcomeModel {
    InProgress,
    Complete,
    Stale { step: u32, subject: Seq<char>, field: Seq<char> },
}

impl View for Outcome {
    type V = OutcomeModel;

    open spec fn view(&self) -> OutcomeModel {
        match *self {
            Outcome::InProgress => OutcomeModel::InProgress,
            Outcome::Complete => OutcomeModel::Complete,
            Outcome::Stale { step, subject, field } => OutcomeModel::Stale {
                step,
                subject: subject@,
                field: field@,
            },
        }
    }
}

impl Outcome {
    /// Copy the outcome.
    pub fn duplicate(&self) -> (copy: Self)
        ensures
            copy@ == self@,
    {
        match self {
            Outcome::InProgress => Outcome::InProgress,
            Outcome::Complete => Outcome::Complete,
            Outcome::Stale { step, subject, field } => Outcome::Stale {
                step: *step,
                subject: subject.clone(),
                field: field.clone(),
            },
        }
    }
}

/// A plan's application so far.
#[derive(Debug, Clone, PartialEq, Eq)]
pub struct Journal {
    pub schema: u16,
    pub plan_id: [u8; 16],
    pub plan_hash: [u8; 32],
    pub started_ms: u64,
    pub steps: Vec<Step>,
    pub outcome: Outcome,
}

/// What a journal says.
pub struct JournalModel {
    pub schema: u16,
    pub plan_id: [u8; 16],
    pub plan_hash: [u8; 32],
    pub started_ms: u64,
    pub steps: Seq<Step>,
    pub outcome: OutcomeModel,
}

impl View for Journal {
    type V = JournalModel;

    open spec fn view(&self) -> JournalModel {
        JournalModel {
            schema: self.schema,
            plan_id: self.plan_id,
            plan_hash: self.plan_hash,
            started_ms: self.started_ms,
            steps: self.steps@,
            outcome: self.outcome@,
        }
    }
}

/// Steps are their own models.
pub broadcast proof fn steps_are_models(s: Seq<Step>)
    ensures
        #[trigger] models::<Step>(s) == s,
{
    assert(models::<Step>(s) =~= s);
}

impl Wire for Phase {
    type M = Phase;

    open spec fn model(&self) -> Phase {
        *self
    }

    open spec fn bytes(m: Phase) -> Seq<u8> {
        match m {
            Phase::Prepared => u32::bytes(0u32),
            Phase::Committed => u32::bytes(1u32),
            Phase::Verified => u32::bytes(2u32),
            Phase::Complete => u32::bytes(3u32),
        }
    }

    open spec fn parse(b: Seq<u8>) -> Option<(Phase, Seq<u8>)> {
        match u32::parse(b) {
            None => None,
            Some((tag, b0)) => if tag == 0 {
                Some((Phase::Prepared, b0))
            } else if tag == 1 {
                Some((Phase::Committed, b0))
            } else if tag == 2 {
                Some((Phase::Verified, b0))
            } else if tag == 3 {
                Some((Phase::Complete, b0))
            } else {
                None
            },
        }
    }

    fn put(&self, out: &mut Vec<u8>) {
        broadcast use concat_assoc;

        match self {
            Phase::Prepared => {
                let tag: u32 = 0;
                tag.put(out);
            },
            Phase::Committed => {
                let tag: u32 = 1;
                tag.put(out);
            },
            Phase::Verified => {
                let tag: u32 = 2;
                tag.put(out);
            },
            Phase::Complete => {
                let tag: u32 = 3;
                tag.put(out);
            },
        }
    }

    fn read(input: &[u8]) -> Option<(Phase, &[u8])> {
        match u32::read(input) {
            None => None,
            Some((tag, b0)) => if tag == 0 {
                Some((Phase::Prepared, b0))
            } else if tag == 1 {
                Some((Phase::Committed, b0))
            } else if tag == 2 {
                Some((Phase::Verified, b0))
            } else if tag == 3 {
                Some((Phase::Complete, b0))
            } else {
                None
            },
        }
    }
}

impl Wire for Step {
    type M = Step;

    open spec fn model(&self) -> Step {
        *self
    }

    open spec fn bytes(m: Step) -> Seq<u8> {
        u32::bytes(m.index) + (Phase::bytes(m.phase) + (<Option<[u8; 16]>>::bytes(m.operation) + (u64::bytes(m.updated_ms))))
    }

    open spec fn parse(b: Seq<u8>) -> Option<(Step, Seq<u8>)> {
        match u32::parse(b) {
            None => None,
            Some((index, b1)) => match Phase::parse(b1) {
                None => None,
                Some((phase, b2)) => match <Option<[u8; 16]>>::parse(b2) {
                    None => None,
                    Some((operation, b3)) => match u64::parse(b3) {
                        None => None,
                        Some((updated_ms, b4)) => Some((Step { index, phase, operation, updated_ms }, b4)),
                    },
                },
            },
        }
    }

    fn put(&self, out: &mut Vec<u8>) {
        broadcast use concat_assoc;

        self.index.put(out);
        self.phase.put(out);
        self.operation.put(out);
        self.updated_ms.put(out);
        proof {
            let m = self.model();
            assert forall|n: int| 0 <= n < Self::bytes(self.model()).len() implies Self::parse(
                #[trigger] Self::bytes(self.model()).take(n),
            ) is None by {
                let s3 = u64::bytes(m.updated_ms);
                let s2 = <Option<[u8; 16]>>::bytes(m.operation) + s3;
                let s1 = Phase::bytes(m.phase) + s2;
                cut_behind::<u32>(m.index, s1, n);
                let n1 = n - u32::bytes(m.index).len();
                cut_behind::<Phase>(m.phase, s2, n1);
                let n2 = n1 - Phase::bytes(m.phase).len();
                cut_behind::<Option<[u8; 16]>>(m.operation, s3, n2);
                let n3 = n2 - <Option<[u8; 16]>>::bytes(m.operation).len();
                if 0 <= n3 {
                    assert(u64::parse(u64::bytes(m.updated_ms).take(n3)) is None);
                }
            }
        }
    }

    fn read(input: &[u8]) -> Option<(Step, &[u8])> {
        match u32::read(input) {
            None => None,
            Some((index, b1)) => match Phase::read(b1) {
                None => None,
                Some((phase, b2)) => match <Option<[u8; 16]>>::read(b2) {
                    None => None,
                    Some((operation, b3)) => match u64::read(b3) {
                        None => None,
                        Some((updated_ms, b4)) => Some((Step { index, phase, operation, updated_ms }, b4)),
                    },
                },
            },
        }
    }
}

impl Wire for Outcome {
    type M = OutcomeModel;

    open spec fn model(&self) -> OutcomeModel {
        self@
    }

    open spec fn bytes(m: OutcomeModel) -> Seq<u8> {
        match m {
            OutcomeModel::InProgress => u32::bytes(0u32),
            OutcomeModel::Complete => u32::bytes(1u32),
            OutcomeModel::Stale { step, subject, field } => u32::bytes(2u32) + (u32::bytes(step) + (String::bytes(subject) + (String::bytes(field)))),
        }
    }

    open spec fn parse(b: Seq<u8>) -> Option<(OutcomeModel, Seq<u8>)> {
        match u32::parse(b) {
            None => None,
            Some((tag, b0)) => if tag == 0 {
                Some((OutcomeModel::InProgress, b0))
            } else if tag == 1 {
                Some((OutcomeModel::Complete, b0))
            } else if tag == 2 {
                match u32::parse(b0) {
                    None => None,
                    Some((step, b1)) => match String::parse(b1) {
                        None => None,
                        Some((subject, b2)) => match String::parse(b2) {
                            None => None,
                            Some((field, b3)) => Some((OutcomeModel::Stale { step, subject, field }, b3)),
                        },
                    },
                }
            } else {
                None
            },
        }
    }

    fn put(&self, out: &mut Vec<u8>) {
        broadcast use concat_assoc;

        match self {
            Outcome::InProgress => {
                let tag: u32 = 0;
                tag.put(out);
            },
            Outcome::Complete => {
                let tag: u32 = 1;
                tag.put(out);
            },
            Outcome::Stale { step, subject, field } => {
                let tag: u32 = 2;
                tag.put(out);
                step.put(out);
                subject.put(out);
                field.put(out);
                proof {
                    assert forall|n: int| 0 <= n < Self::bytes(self.model()).len() implies Self::parse(
                        #[trigger] Self::bytes(self.model()).take(n),
                    ) is None by {
                        let s3 = String::bytes(field@);
                        let s2 = String::bytes(subject@) + s3;
                        let s1 = u32::bytes(*step) + s2;
                        cut_behind::<u32>(2u32, s1, n);
                        let n1 = n - u32::bytes(2u32).len();
                        cut_behind::<u32>(*step, s2, n1);
                        let n2 = n1 - u32::bytes(*step).len();
                        cut_behind::<String>(subject@, s3, n2);
                        let n3 = n2 - String::bytes(subject@).len();
                        if 0 <= n3 {
                            assert(String::parse(String::bytes(field@).take(n3)) is None);
                        }
                    }
                }
            },
        }
    }

    fn read(input: &[u8]) -> Option<(Outcome, &[u8])> {
        match u32::read(input) {
            None => None,
            Some((tag, b0)) => if tag == 0 {
                Some((Outcome::InProgress, b0))
            } else if tag == 1 {
                Some((Outcome::Complete, b0))
            } else if tag == 2 {
                match u32::read(b0) {
                    None => None,
                    Some((step, b1)) => match String::read(b1) {
                        None => None,
                        Some((subject, b2)) => match String::read(b2) {
                            None => None,
                            Some((field, b3)) => Some((Outcome::Stale { step, subject, field }, b3)),
                        },
                    },
                }
            } else {
                None
            },
        }
    }
}

impl Wire for Journal {
    type M = JournalModel;

    open spec fn model(&self) -> JournalModel {
        self@
    }

    open spec fn bytes(m: JournalModel) -> Seq<u8> {
        u16::bytes(m.schema) + (<[u8; 16]>::bytes(m.plan_id) + (<[u8; 32]>::bytes(m.plan_hash) + (u64::bytes(m.started_ms) + (<Vec<Step>>::bytes(m.steps) + (Outcome::bytes(m.outcome))))))
    }

    open spec fn parse(b: Seq<u8>) -> Option<(JournalModel, Seq<u8>)> {
        match u16::parse(b) {
            None => None,
            Some((schema, b1)) => match <[u8; 16]>::parse(b1) {
                None => None,
                Some((plan_id, b2)) => match <[u8; 32]>::parse(b2) {
                    None => None,
                    Some((plan_hash, b3)) => match u64::parse(b3) {
                        None => None,
                        Some((started_ms, b4)) => match <Vec<Step>>::parse(b4) {
                            None => None,
                            Some((steps, b5)) => match Outcome::parse(b5) {
                                None => None,
                                Some((outcome, b6)) => Some((JournalModel { schema, plan_id, plan_hash, started_ms, steps, outcome }, b6)),
                            },
                        },
                    },
                },
            },
        }
    }

    fn put(&self, out: &mut Vec<u8>) {
        broadcast use {concat_assoc, steps_are_models};

        self.schema.put(out);
        self.plan_id.put(out);
        self.plan_hash.put(out);
        self.started_ms.put(out);
        self.steps.put(out);
        self.outcome.put(out);
        proof {
            let m = self.model();
            assert forall|n: int| 0 <= n < Self::bytes(self.model()).len() implies Self::parse(
                #[trigger] Self::bytes(self.model()).take(n),
            ) is None by {
                let s5 = Outcome::bytes(m.outcome);
                let s4 = <Vec<Step>>::bytes(m.steps) + s5;
                let s3 = u64::bytes(m.started_ms) + s4;
                let s2 = <[u8; 32]>::bytes(m.plan_hash) + s3;
                let s1 = <[u8; 16]>::bytes(m.plan_id) + s2;
                cut_behind::<u16>(m.schema, s1, n);
                let n1 = n - u16::bytes(m.schema).len();
                cut_behind::<[u8; 16]>(m.plan_id, s2, n1);
                let n2 = n1 - <[u8; 16]>::bytes(m.plan_id).len();
                cut_behind::<[u8; 32]>(m.plan_hash, s3, n2);
                let n3 = n2 - <[u8; 32]>::bytes(m.plan_hash).len();
                cut_behind::<u64>(m.started_ms, s4, n3);
                let n4 = n3 - u64::bytes(m.started_ms).len();
                cut_behind::<Vec<Step>>(m.steps, s5, n4);
                let n5 = n4 - <Vec<Step>>::bytes(m.steps).len();
                if 0 <= n5 {
                    assert(Outcome::parse(Outcome::bytes(m.outcome).take(n5)) is None);
                }
            }
        }
    }

    fn read(input: &[u8]) -> Option<(Journal, &[u8])> {
        broadcast use steps_are_models;

        match u16::read(input) {
            None => None,
            Some((schema, b1)) => match <[u8; 16]>::read(b1) {
                None => None,
                Some((plan_id, b2)) => match <[u8; 32]>::read(b2) {
                    None => None,
                    Some((plan_hash, b3)) => match u64::read(b3) {
                        None => None,
                        Some((started_ms, b4)) => match <Vec<Step>>::read(b4) {
                            None => None,
                            Some((steps, b5)) => match Outcome::read(b5) {
                                None => None,
                                Some((outcome, b6)) => Some((Journal { schema, plan_id, plan_hash, started_ms, steps, outcome }, b6)),
                            },
                        },
                    },
                },
            },
        }
    }
}

/// The position of the first record of a step.
pub open spec fn position(steps: Seq<Step>, index: u32) -> Option<int>
    decreases steps.len(),
{
    if steps.len() == 0 {
        None
    } else {
        match position(steps.drop_last(), index) {
            Some(i) => Some(i),
            None => if steps.last().index == index {
                Some(steps.len() - 1)
            } else {
                None
            },
        }
    }
}

/// The phase recorded for a step.
pub open spec fn phase_of(steps: Seq<Step>, index: u32) -> Option<Phase> {
    match position(steps, index) {
        None => None,
        Some(i) => Some(steps[i].phase),
    }
}

/// The operation recorded for a step.
pub open spec fn operation_of(steps: Seq<Step>, index: u32) -> Option<[u8; 16]> {
    match position(steps, index) {
        None => None,
        Some(i) => steps[i].operation,
    }
}

pub proof fn lemma_position(steps: Seq<Step>, index: u32)
    ensures
        match position(steps, index) {
            Some(i) => 0 <= i < steps.len() && steps[i].index == index && forall|j: int|
                0 <= j < i ==> (#[trigger] steps[j]).index != index,
            None => forall|j: int| 0 <= j < steps.len() ==> (#[trigger] steps[j]).index != index,
        },
    decreases steps.len(),
{
    if steps.len() > 0 {
        lemma_position(steps.drop_last(), index);
        match position(steps.drop_last(), index) {
            Some(i) => {
                assert(steps.drop_last()[i] == steps[i]);
                assert forall|j: int| 0 <= j < i implies (#[trigger] steps[j]).index != index by {
                    assert(steps.drop_last()[j] == steps[j]);
                }
            },
            None => {
                assert forall|j: int| 0 <= j < steps.len() - 1 implies (
                #[trigger] steps[j]).index != index by {
                    assert(steps.drop_last()[j] == steps[j]);
                }
            },
        }
    }
}

proof fn lemma_position_unique(steps: Seq<Step>, index: u32, i: int)
    requires
        0 <= i < steps.len(),
        steps[i].index == index,
        forall|j: int| 0 <= j < i ==> (#[trigger] steps[j]).index != index,
    ensures
        position(steps, index) == Some(i),
{
    lemma_position(steps, index);
}

/// The records after a step's phase is recorded; absent where the phase
/// would fall behind. An operation, once recorded, stays unless replaced.
pub open spec fn recorded(
    steps: Seq<Step>,
    index: u32,
    phase: Phase,
    operation: Option<[u8; 16]>,
    now: u64,
) -> Option<Seq<Step>> {
    match position(steps, index) {
        Some(i) => if phase.rank() < steps[i].phase.rank() {
            None
        } else {
            Some(
                steps.update(
                    i,
                    Step {
                        index: steps[i].index,
                        phase,
                        operation: if operation is Some {
                            operation
                        } else {
                            steps[i].operation
                        },
                        updated_ms: now,
                    },
                ),
            )
        },
        None => Some(steps.push(Step { index, phase, operation, updated_ms: now })),
    }
}

/// What recording a step leaves: that step at its new phase, every other
/// step as it was.
pub proof fn recording_is_local(
    steps: Seq<Step>,
    index: u32,
    phase: Phase,
    operation: Option<[u8; 16]>,
    now: u64,
    other: u32,
)
    requires
        recorded(steps, index, phase, operation, now) is Some,
    ensures
        ({
            let after = recorded(steps, index, phase, operation, now)->0;
            &&& phase_of(after, index) == Some(phase)
            &&& operation is Some ==> operation_of(after, index) == operation
            &&& operation is None ==> operation_of(after, index) == operation_of(steps, index)
            &&& other != index ==> phase_of(after, other) == phase_of(steps, other)
            &&& other != index ==> operation_of(after, other) == operation_of(steps, other)
        }),
{
    let after = recorded(steps, index, phase, operation, now)->0;
    lemma_position(steps, index);
    lemma_position(steps, other);
    lemma_position(after, index);
    lemma_position(after, other);
    match position(steps, index) {
        Some(i) => {
            assert(forall|j: int|
                0 <= j < steps.len() ==> (#[trigger] after[j]).index == steps[j].index);
            lemma_position_unique(after, index, i);
            match position(steps, other) {
                Some(k) => {
                    lemma_position_unique(after, other, k);
                },
                None => {},
            }
        },
        None => {
            assert(forall|j: int| 0 <= j < steps.len() ==> #[trigger] after[j] == steps[j]);
            lemma_position_unique(after, index, steps.len() as int);
            match position(steps, other) {
                Some(k) => {
                    lemma_position_unique(after, other, k);
                },
                None => {},
            }
        },
    }
}

/// Phases only advance: a step that was recorded keeps at least its phase
/// through every further record, of itself or of another step.
pub proof fn phases_only_advance(
    steps: Seq<Step>,
    index: u32,
    phase: Phase,
    operation: Option<[u8; 16]>,
    now: u64,
    watched: u32,
)
    requires
        recorded(steps, index, phase, operation, now) is Some,
        phase_of(steps, watched) is Some,
    ensures
        phase_of(recorded(steps, index, phase, operation, now)->0, watched) matches Some(after)
            && after.rank() >= (phase_of(steps, watched)->0).rank(),
{
    recording_is_local(steps, index, phase, operation, now, watched);
}

/// A journal file.
pub open spec fn journal_file(journal: JournalModel) -> Seq<u8> {
    journal_magic() + Journal::bytes(journal)
}

/// The journal some bytes are, or why they are none.
pub open spec fn journal_decoded(bytes: Seq<u8>) -> Result<JournalModel, Refusal> {
    if bytes.len() > MAX_JOURNAL_BYTES {
        Err(Refusal::Capacity)
    } else if !starts_with(bytes, journal_magic()) {
        Err(Refusal::Corrupt("not an apply journal"@))
    } else {
        match Journal::parse(bytes.skip(8)) {
            None => Err(Refusal::Corrupt("apply journal does not decode"@)),
            Some((journal, tail)) => if tail.len() > 0 || journal.schema != JOURNAL_SCHEMA {
                Err(Refusal::Corrupt("apply journal schema"@))
            } else {
                Ok(journal)
            },
        }
    }
}

impl Journal {
    /// Start a plan's journal.
    pub fn new(plan: &DeploymentPlan, now: u64) -> (journal: Result<Self, DeploymentError>)
        ensures
            journal is Ok == (artifact(plan.model()).len() <= MAX_PLAN_BYTES),
            journal matches Err(error) ==> error is Capacity,
            journal matches Ok(j) ==> j@ == (JournalModel {
                schema: JOURNAL_SCHEMA,
                plan_id: plan.plan_id,
                plan_hash: blake3_hash(artifact(plan.model())),
                started_ms: now,
                steps: Seq::empty(),
                outcome: OutcomeModel::InProgress,
            }),
    {
        let plan_hash = plan.hash()?;
        Ok(
            Journal {
                schema: JOURNAL_SCHEMA,
                plan_id: plan.plan_id,
                plan_hash,
                started_ms: now,
                steps: Vec::new(),
                outcome: Outcome::InProgress,
            },
        )
    }

    /// Write the journal file. What is written decodes to the journal; cut
    /// short or lengthened it is refused.
    pub fn encode(&self) -> (file: Result<Vec<u8>, DeploymentError>)
        ensures
            file is Ok == (journal_file(self@).len() <= MAX_JOURNAL_BYTES),
            file matches Err(error) ==> error is Capacity,
            file matches Ok(bytes) ==> bytes@ == journal_file(self@) && (self.schema
                == JOURNAL_SCHEMA ==> journal_decoded(bytes@) == Ok::<JournalModel, Refusal>(
                self@,
            )),
            file matches Ok(bytes) ==> forall|n: int|
                0 <= n < bytes@.len() ==> journal_decoded(#[trigger] bytes@.take(n)) is Err,
            file matches Ok(bytes) ==> forall|more: Seq<u8>|
                more.len() > 0 ==> journal_decoded(#[trigger] (bytes@ + more)) is Err,
    {
        let mut bytes: Vec<u8> = Vec::new();
        append(&mut bytes, journal_magic_bytes().as_slice());
        self.put(&mut bytes);
        assert(bytes@ =~= journal_file(self@));
        if bytes.len() > MAX_JOURNAL_BYTES {
            return Err(DeploymentError::Capacity);
        }
        proof {
            let body = Journal::bytes(self@);
            assert(bytes@.take(8) =~= journal_magic());
            assert(bytes@.skip(8) =~= body);
            assert(body + Seq::<u8>::empty() =~= body);
            assert(Journal::parse(body + Seq::<u8>::empty()) == Some((self@, Seq::<u8>::empty())));
            assert forall|n: int| 0 <= n < bytes@.len() implies journal_decoded(
                #[trigger] bytes@.take(n),
            ) is Err by {
                if n >= 8 {
                    assert(bytes@.take(n).skip(8) =~= body.take(n - 8));
                    assert(Journal::parse(Journal::bytes(self.model()).take(n - 8)) is None);
                }
            }
            assert forall|more: Seq<u8>| more.len() > 0 implies journal_decoded(
                #[trigger] (bytes@ + more),
            ) is Err by {
                assert((bytes@ + more).skip(8) =~= body + more);
                assert(Journal::parse(body + more) == Some((self@, more)));
            }
        }
        Ok(bytes)
    }

    /// Decode a journal file.
    pub fn decode(bytes: &[u8]) -> (journal: Result<Self, DeploymentError>)
        ensures
            match journal {
                Ok(j) => journal_decoded(bytes@) == Ok::<JournalModel, Refusal>(j@),
                Err(error) => match journal_decoded(bytes@) {
                    Ok(_) => false,
                    Err(refusal) => refusal_of(error) == Some(refusal),
                },
            },
    {
        if bytes.len() > MAX_JOURNAL_BYTES {
            return Err(DeploymentError::Capacity);
        }
        let body = match strip(bytes, &journal_magic_bytes()) {
            None => {
                return Err(DeploymentError::Corrupt("not an apply journal"));
            },
            Some(body) => body,
        };
        let (journal, tail) = match Journal::read(body) {
            None => {
                return Err(DeploymentError::Corrupt("apply journal does not decode"));
            },
            Some(found) => found,
        };
        if tail.len() > 0 || journal.schema != JOURNAL_SCHEMA {
            return Err(DeploymentError::Corrupt("apply journal schema"));
        }
        Ok(journal)
    }

    /// Where a step is recorded first.
    fn locate(&self, index: u32) -> (found: Option<usize>)
        ensures
            match position(self.steps@, index) {
                None => found is None,
                Some(i) => 0 <= i < self.steps@.len() && (found matches Some(at) && at == i),
            },
    {
        let mut i: usize = 0;
        while i < self.steps.len()
            invariant
                i <= self.steps.len(),
                forall|j: int| 0 <= j < i ==> (#[trigger] self.steps@[j]).index != index,
            decreases self.steps.len() - i,
        {
            if self.steps[i].index == index {
                proof {
                    lemma_position_unique(self.steps@, index, i as int);
                }
                return Some(i);
            }
            i += 1;
        }
        proof {
            lemma_position(self.steps@, index);
        }
        None
    }

    /// The phase recorded for a step.
    pub fn phase(&self, index: u32) -> (phase: Option<Phase>)
        ensures
            phase == phase_of(self.steps@, index),
    {
        match self.locate(index) {
            None => None,
            Some(i) => Some(self.steps[i].phase),
        }
    }

    /// The operation recorded for a step.
    pub fn operation(&self, index: u32) -> (operation: Option<[u8; 16]>)
        ensures
            operation == operation_of(self.steps@, index),
    {
        match self.locate(index) {
            None => None,
            Some(i) => self.steps[i].operation,
        }
    }

    /// Record a step's phase; phases only advance.
    pub fn record(
        &mut self,
        index: u32,
        phase: Phase,
        operation: Option<[u8; 16]>,
        now: u64,
    ) -> (done: Result<(), DeploymentError>)
        ensures
            match recorded(old(self).steps@, index, phase, operation, now) {
                Some(steps) => done is Ok && final(self)@ == (JournalModel {
                    steps,
                    ..old(self)@
                }),
                None => final(self)@ == old(self)@ && (done matches Err(error) && refusal_of(error)
                    == Some(Refusal::Corrupt("apply journal would regress a step"@))),
            },
            final(self).outcome == old(self).outcome,
    {
        match self.locate(index) {
            Some(i) => {
                let step = self.steps[i];
                if phase.order() < step.phase.order() {
                    return Err(DeploymentError::Corrupt("apply journal would regress a step"));
                }
                let kept = if operation.is_some() {
                    operation
                } else {
                    step.operation
                };
                self.steps.set(i, Step { index: step.index, phase, operation: kept, updated_ms: now });
                Ok(())
            },
            None => {
                self.steps.push(Step { index, phase, operation, updated_ms: now });
                Ok(())
            },
        }
    }
}

/// Bytes under another magic are no journal.
pub proof fn another_magic_is_refused(bytes: Seq<u8>)
    requires
        !starts_with(bytes, journal_magic()),
    ensures
        journal_decoded(bytes) is Err,
{
}

} // verus!
