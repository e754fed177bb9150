//! Deployment plans and their resumable application.
//!
//! A plan is an immutable artifact computed from what the node observes
//! (committed policy revision, the directory's sessions with their epochs)
//! and what the operator requests (the configuration file). Planning is
//! read-only: per-session proposals are dry runs the placement agent answers
//! without journaling. Applying a plan rechecks every observation it was
//! built on and refuses a stale plan before any side effect; progress is
//! journaled per change so a repeated application resumes, never repeats.
use crate::config::FailureDomain;
use crate::text::{decimal, decimal_text, same_text};
use vstd::prelude::*;
use vstd::string::StringExecFns;

pub mod application;
pub mod apply;
pub mod applying;
pub mod facts;
pub mod journal;
pub mod observe;
pub mod observing;
pub mod plan;
pub mod planning;
pub mod render;
pub mod report;
pub mod views;

verus! {

/// Why planning, applying or rendering was refused. The first four carry the
/// message of the part of the node that failed.
#[derive(Debug, Clone, PartialEq, Eq)]
pub enum DeploymentError {
    Config(String),
    Admin(String),
    Io(String),
    Unsatisfiable(String),
    Encoding(String),
    Corrupt(&'static str),
    WrongDeployment,
    Stale { subject: String, field: &'static str },
    Blocked(usize),
    Truncated,
    NotObserved,
    NoConfig,
    Capacity,
    Render(String),
}

/// How a command reports a failure: the condition where it has one of its
/// own, a stable code, and the process's exit code.
#[derive(Debug, Clone, Copy, PartialEq, Eq)]
pub struct Failure {
    pub condition: Option<&'static str>,
    pub code: &'static str,
    pub exit_code: u8,
}

/// What a failure says, with its texts as characters.
pub struct FailureModel {
    pub condition: Option<Seq<char>>,
    pub code: Seq<char>,
    pub exit_code: u8,
}

impl View for Failure {
    type V = FailureModel;

    open spec fn view(&self) -> FailureModel {
        FailureModel {
            condition: match self.condition {
                None => None,
                Some(name) => Some(name@),
            },
            code: self.code@,
            exit_code: self.exit_code,
        }
    }
}

/// A failure without a condition of its own.
pub open spec fn plain_failure(code: &str, exit_code: u8) -> FailureModel {
    FailureModel { condition: None, code: code@, exit_code }
}

/// A failure with a condition.
pub open spec fn named_failure(condition: &str, code: &str, exit_code: u8) -> FailureModel {
    FailureModel { condition: Some(condition@), code: code@, exit_code }
}

impl Failure {
    /// A failure without a condition of its own.
    pub fn error(code: &'static str, exit_code: u8) -> (failure: Self)
        ensures
            failure@ == (FailureModel { condition: None, code: code@, exit_code }),
    {
        Failure { condition: None, code, exit_code }
    }
}

impl DeploymentError {
    /// The failure an error is reported as.
    pub open spec fn failure(self) -> FailureModel {
        match self {
            DeploymentError::Stale { .. } => named_failure("Stale", "stale_plan", 5),
            DeploymentError::WrongDeployment => plain_failure("wrong_deployment", 2),
            DeploymentError::Corrupt(_) => plain_failure("plan_corrupt", 2),
            DeploymentError::Encoding(_) => plain_failure("plan_encoding", 1),
            DeploymentError::Blocked(_) | DeploymentError::Unsatisfiable(_) => named_failure(
                "GuaranteeUnsatisfied",
                "guarantee_unsatisfied",
                6,
            ),
            DeploymentError::Truncated | DeploymentError::Capacity => plain_failure("capacity", 6),
            DeploymentError::NotObserved => named_failure("NotReady", "not_observed", 6),
            DeploymentError::NoConfig | DeploymentError::Render(_) => plain_failure(
                "invalid_input",
                2,
            ),
            DeploymentError::Config(_) | DeploymentError::Admin(_) | DeploymentError::Io(_) =>
                plain_failure("deployment", 1),
        }
    }

    /// How the error is reported to the operator's shell.
    pub fn classification(&self) -> (failure: Failure)
        ensures
            failure@ == self.failure(),
    {
        match self {
            DeploymentError::Stale { .. } => Failure {
                condition: Some("Stale"),
                code: "stale_plan",
                exit_code: 5,
            },
            DeploymentError::WrongDeployment => Failure::error("wrong_deployment", 2),
            DeploymentError::Corrupt(_) => Failure::error("plan_corrupt", 2),
            DeploymentError::Encoding(_) => Failure::error("plan_encoding", 1),
            DeploymentError::Blocked(_) | DeploymentError::Unsatisfiable(_) => Failure {
                condition: Some("GuaranteeUnsatisfied"),
                code: "guarantee_unsatisfied",
                exit_code: 6,
            },
            DeploymentError::Truncated | DeploymentError::Capacity => Failure::error("capacity", 6),
            DeploymentError::NotObserved => Failure {
                condition: Some("NotReady"),
                code: "not_observed",
                exit_code: 6,
            },
            DeploymentError::NoConfig | DeploymentError::Render(_) => Failure::error(
                "invalid_input",
                2,
            ),
            DeploymentError::Config(_) | DeploymentError::Admin(_) | DeploymentError::Io(_) =>
                Failure::error("deployment", 1),
        }
    }

    /// The words an error is told in.
    pub open spec fn words(self) -> Seq<char> {
        match self {
            DeploymentError::Config(text) => text@,
            DeploymentError::Admin(text) => text@,
            DeploymentError::Io(text) => text@,
            DeploymentError::Unsatisfiable(text) =>
                "requested policy is unsatisfiable here: "@ + text@,
            DeploymentError::Encoding(text) => "deployment artifact encoding: "@ + text@,
            DeploymentError::Corrupt(text) => "deployment artifact is corrupt: "@ + text@,
            DeploymentError::WrongDeployment => "plan was made for another deployment"@,
            DeploymentError::Stale { subject, field } => "plan is stale: "@ + subject@
                + " changed its "@ + field@,
            DeploymentError::Blocked(count) => "plan identifies missing capacity for "@
                + decimal_text(count as nat) + " session(s); the existing contract stays"@,
            DeploymentError::Truncated =>
                "the directory view is truncated; the plan cannot name every session"@,
            DeploymentError::NotObserved =>
                "the directory has not reported this node yet: it is still starting, or it runs no directory; plan from a node that does, once `cluster placement` shows it"@,
            DeploymentError::NoConfig =>
                "deployment plan needs the requested configuration (--config FILE)"@,
            DeploymentError::Capacity => "deployment artifact exceeds its bound"@,
            DeploymentError::Render(text) => "render: "@ + text@,
        }
    }

    /// Tell the error in words.
    pub fn message(&self) -> (text: String)
        ensures
            text@ == self.words(),
    {
        match self {
            DeploymentError::Config(text) => text.clone(),
            DeploymentError::Admin(text) => text.clone(),
            DeploymentError::Io(text) => text.clone(),
            DeploymentError::Unsatisfiable(text) => String::from_str(
                "requested policy is unsatisfiable here: ",
            ).concat(text.as_str()),
            DeploymentError::Encoding(text) => String::from_str(
                "deployment artifact encoding: ",
            ).concat(text.as_str()),
            DeploymentError::Corrupt(text) => String::from_str(
                "deployment artifact is corrupt: ",
            ).concat(text),
            DeploymentError::WrongDeployment => String::from_str(
                "plan was made for another deployment",
            ),
            DeploymentError::Stale { subject, field } => String::from_str(
                "plan is stale: ",
            ).concat(subject.as_str()).concat(" changed its ").concat(field),
            DeploymentError::Blocked(count) => String::from_str(
                "plan identifies missing capacity for ",
            ).concat(decimal(*count as u64).as_str()).concat(
                " session(s); the existing contract stays",
            ),
            DeploymentError::Truncated => String::from_str(
                "the directory view is truncated; the plan cannot name every session",
            ),
            DeploymentError::NotObserved => String::from_str(
                "the directory has not reported this node yet: it is still starting, or it runs no directory; plan from a node that does, once `cluster placement` shows it",
            ),
            DeploymentError::NoConfig => String::from_str(
                "deployment plan needs the requested configuration (--config FILE)",
            ),
            DeploymentError::Capacity => String::from_str("deployment artifact exceeds its bound"),
            DeploymentError::Render(text) => String::from_str("render: ").concat(text.as_str()),
        }
    }
}

/// A durability level: what a guarantee tolerates. Ordered by tolerated
/// failures first, then by the breadth of the failure domain, so one node
/// loss ranks above a zone level that tolerates no loss at all.
#[derive(Debug, Clone, Copy, PartialEq, Eq, Structural)]
pub struct GuaranteeLevel {
    pub survive: FailureDomain,
    pub max_failures: u16,
}

/// How broad a failure domain is.
pub open spec fn breadth(survive: FailureDomain) -> int {
    match survive {
        FailureDomain::Node => 0,
        FailureDomain::Zone => 1,
        FailureDomain::Region => 2,
    }
}

/// The level that tolerates no loss.
pub open spec fn no_loss() -> GuaranteeLevel {
    GuaranteeLevel { survive: FailureDomain::Node, max_failures: 0 }
}

impl GuaranteeLevel {
    /// The level that tolerates no loss.
    pub fn none() -> (level: Self)
        ensures
            level == no_loss(),
    {
        GuaranteeLevel { survive: FailureDomain::Node, max_failures: 0 }
    }

    /// Whether a level ranks strictly below another.
    pub open spec fn below(self, other: Self) -> bool {
        self.max_failures < other.max_failures || (self.max_failures == other.max_failures
            && breadth(self.survive) < breadth(other.survive))
    }

    /// The level's place in the order.
    pub fn rank(self) -> (rank: (u16, u8))
        ensures
            rank.0 == self.max_failures,
            rank.1 == breadth(self.survive),
    {
        (
            self.max_failures,
            match self.survive {
                FailureDomain::Node => 0,
                FailureDomain::Zone => 1,
                FailureDomain::Region => 2,
            },
        )
    }

    /// The weaker of two levels: the other one where it ranks below.
    pub open spec fn weaker_of(self, other: Self) -> Self {
        if other.below(self) {
            other
        } else {
            self
        }
    }

    /// The weaker of two levels.
    pub fn weaker(self, other: Self) -> (level: Self)
        ensures
            level == self.weaker_of(other),
    {
        let (failures, wide) = self.rank();
        let (other_failures, other_wide) = other.rank();
        if other_failures < failures || (other_failures == failures && other_wide < wide) {
            other
        } else {
            self
        }
    }

    /// Whether this level provides at least `required`.
    pub fn covers(self, required: Self) -> (covered: bool)
        ensures
            covered == !self.below(required),
    {
        let (failures, wide) = self.rank();
        let (needed, needed_wide) = required.rank();
        failures > needed || (failures == needed && wide >= needed_wide)
    }
}

/// Levels are totally ordered: of two different levels exactly one is below
/// the other, and being below is transitive.
pub proof fn levels_are_ordered(a: GuaranteeLevel, b: GuaranteeLevel, c: GuaranteeLevel)
    ensures
        !a.below(a),
        a != b ==> (a.below(b) != b.below(a)),
        a.below(b) && b.below(c) ==> a.below(c),
{
}

/// The weaker of two levels does not depend on their order, is one of them,
/// and is covered by both.
pub proof fn weaker_is_the_meet(a: GuaranteeLevel, b: GuaranteeLevel)
    ensures
        a.weaker_of(b) == b.weaker_of(a),
        a.weaker_of(b) == a || a.weaker_of(b) == b,
        !a.below(a.weaker_of(b)),
        !b.below(a.weaker_of(b)),
{
}

/// Every level covers the level that tolerates no loss.
pub proof fn nothing_is_below_none(a: GuaranteeLevel)
    ensures
        !a.below(no_loss()),
{
}

/// The guarantee a plan carries: before it, while it runs (the old contract
/// holds until the new placement is verified) and once it completes.
#[derive(Debug, Clone, Copy, PartialEq, Eq, Structural)]
pub struct Guarantee {
    pub before: GuaranteeLevel,
    pub during: GuaranteeLevel,
    pub after: GuaranteeLevel,
}

/// A character with ASCII upper case folded to lower case.
pub open spec fn lower_char(c: char) -> char {
    if 'A' <= c && c <= 'Z' {
        ((c as u8) + 32) as char
    } else {
        c
    }
}

/// A text with ASCII upper case folded to lower case.
pub open spec fn lower_text(text: Seq<char>) -> Seq<char> {
    Seq::new(text.len(), |i: int| lower_char(text[i]))
}

/// The failure domain of a name, in any case.
pub open spec fn survive_of(name: Seq<char>) -> Option<FailureDomain> {
    if lower_text(name) == "node"@ {
        Some(FailureDomain::Node)
    } else if lower_text(name) == "zone"@ {
        Some(FailureDomain::Zone)
    } else if lower_text(name) == "region"@ {
        Some(FailureDomain::Region)
    } else {
        None
    }
}

fn ascii_lower(text: &str) -> (lower: String)
    ensures
        lower@ == lower_text(text@),
{
    let count: usize = text.unicode_len();
    let mut lower = String::new();
    let mut i: usize = 0;
    assert(lower@ =~= lower_text(text@).take(0));
    while i < count
        invariant
            i <= count == text@.len(),
            lower@ == lower_text(text@).take(i as int),
        decreases count - i,
    {
        let c = text.get_char(i);
        lower.push(
            if 'A' <= c && c <= 'Z' {
                ((c as u8) + 32) as char
            } else {
                c
            },
        );
        assert(lower@ =~= lower_text(text@).take(i + 1));
        i += 1;
    }
    assert(lower@ =~= lower_text(text@));
    lower
}

/// The directory names failure classes by their debug form (`Node`); the
/// configuration by its snake case (`node`). Both parse here.
pub fn parse_survive(name: &str) -> (survive: Option<FailureDomain>)
    ensures
        survive == survive_of(name@),
{
    let lower = ascii_lower(name);
    if same_text(lower.as_str(), "node") {
        Some(FailureDomain::Node)
    } else if same_text(lower.as_str(), "zone") {
        Some(FailureDomain::Zone)
    } else if same_text(lower.as_str(), "region") {
        Some(FailureDomain::Region)
    } else {
        None
    }
}

/// The configuration's name of a failure domain.
pub open spec fn survive_text(survive: FailureDomain) -> Seq<char> {
    match survive {
        FailureDomain::Node => "node"@,
        FailureDomain::Zone => "zone"@,
        FailureDomain::Region => "region"@,
    }
}

/// Name a failure domain.
pub fn survive_name(survive: FailureDomain) -> (name: &'static str)
    ensures
        name@ == survive_text(survive),
{
    match survive {
        FailureDomain::Node => "node",
        FailureDomain::Zone => "zone",
        FailureDomain::Region => "region",
    }
}

/// The code a placement request names a failure domain by.
pub fn survive_code(survive: FailureDomain) -> (code: u8)
    ensures
        code == breadth(survive),
{
    match survive {
        FailureDomain::Node => 0,
        FailureDomain::Zone => 1,
        FailureDomain::Region => 2,
    }
}

/// A failure domain's name parses back to it.
pub proof fn survive_names_parse(survive: FailureDomain)
    ensures
        survive_of(survive_text(survive)) == Some(survive),
{
    reveal_strlit("node");
    reveal_strlit("zone");
    reveal_strlit("region");
    assert("node"@.len() == 4 && "zone"@.len() == 4 && "region"@.len() == 6);
    assert("node"@[0] != "zone"@[0]);
    assert(lower_text("node"@) =~= "node"@);
    assert(lower_text("zone"@) =~= "zone"@);
    assert(lower_text("region"@) =~= "region"@);
}

/// `std::time::SystemTime::elapsed` of the Unix epoch, in milliseconds;
/// nothing where the clock stands before the epoch.
#[verifier::external_body]
fn elapsed_ms() -> (elapsed: Option<u128>) {
    std::time::UNIX_EPOCH.elapsed().ok().map(|elapsed| elapsed.as_millis())
}

/// The wall clock an elapsed time reads as.
pub fn clock_ms(elapsed: Option<u128>) -> (now: Result<u64, DeploymentError>)
    ensures
        match elapsed {
            None => now matches Err(DeploymentError::Corrupt(why)) && why@
                == "system clock before the epoch"@,
            Some(ms) => if ms <= u64::MAX {
                now == Ok::<u64, DeploymentError>(ms as u64)
            } else {
                now == Err::<u64, DeploymentError>(DeploymentError::Capacity)
            },
        },
{
    match elapsed {
        None => Err(DeploymentError::Corrupt("system clock before the epoch")),
        Some(ms) => {
            if ms <= u64::MAX as u128 {
                Ok(ms as u64)
            } else {
                Err(DeploymentError::Capacity)
            }
        },
    }
}

/// Milliseconds since the Unix epoch.
pub fn now_ms() -> (now: Result<u64, DeploymentError>)
    ensures
        now matches Err(error) ==> error is Corrupt || error is Capacity,
{
    clock_ms(elapsed_ms())
}

} // verus!
