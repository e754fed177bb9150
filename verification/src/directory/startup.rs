//! The opening of a planned group: what its recovered state leads to, and
//! the bounded rounds its owner waits for.
use super::authority::{AuthoritySnapshot, Configuration, ControlReceipt, ControlRequestId,
    Installation, PartitionBootstrapPermit};
use super::{unset, ControlError, ControlIdentity, Delegation, DirectoryBootstrapError, PartitionPlan};
use crate::barrier::Reads;
use crate::hashing::zero_16;
use vstd::prelude::*;
use vstd::utf8::encode_utf8;

verus! {

/// Rounds a single member is drained for at most.
pub const STARTUP_ROUNDS: usize = 16;

/// The stack of a directory's owner.
pub const DIRECTORY_STACK_BYTES: usize = 2 * 1024 * 1024;

/// What is submitted to a group that was opened.
#[derive(Debug, Clone, Copy, PartialEq, Eq)]
pub enum Activation {
    /// Nothing: the group holds this very authority.
    Settled,
    /// The group's first authority.
    Activate { id: ControlRequestId, acknowledged_through: u64, expected_partition_revision: u64 },
    /// A newer authority over the one it holds.
    Install(Installation),
}

impl PartitionBootstrapPermit {
    /// Whether the permit opens its group now.
    pub fn opens(&self, now: i64) -> (done: Result<(), DirectoryBootstrapError>)
        ensures
            done == (if self.valid_at(now) {
                Ok::<(), DirectoryBootstrapError>(())
            } else {
                Err::<(), DirectoryBootstrapError>(DirectoryBootstrapError::Unauthorized)
            }),
    {
        if now < self.prepared_at || now >= self.expires_at {
            return Err(DirectoryBootstrapError::Unauthorized);
        }
        Ok(())
    }

    /// What is submitted to the group, once recovery settled what it holds:
    /// nothing yet and never asked for, or an authority of the same root that
    /// is no newer than the permit's.
    pub open spec fn activated(
        self,
        recovered: Option<Delegation>,
        partition_revision: u64,
        current: Option<AuthoritySnapshot>,
        previous: Option<ControlReceipt>,
        now: i64,
    ) -> Result<Activation, DirectoryBootstrapError> {
        let sequence = match previous {
            Some(receipt) => receipt.request.sequence,
            None => 0,
        };
        match recovered {
            None => Err(DirectoryBootstrapError::Inconsistent),
            Some(delegation) => if !self.plan.hosts(delegation) {
                Err(DirectoryBootstrapError::Unauthorized)
            } else if zero_16(self.plan.installer()) {
                Err(DirectoryBootstrapError::Inconsistent)
            } else {
                match current {
                    None => if previous is Some {
                        Err(DirectoryBootstrapError::Inconsistent)
                    } else {
                        Ok(
                            Activation::Activate {
                                id: ControlRequestId {
                                    client: self.plan.installer(),
                                    sequence: 1,
                                },
                                acknowledged_through: 0,
                                expected_partition_revision: partition_revision,
                            },
                        )
                    },
                    Some(current) => if previous is None || current.source != self.snapshot.source
                        || unset(self.plan.genesis) || current.identity != self.plan.named()
                        || current.source_index > self.snapshot.source_index {
                        Err(DirectoryBootstrapError::Inconsistent)
                    } else if current.source_index == self.snapshot.source_index {
                        if current.agrees(self.snapshot) {
                            Ok(Activation::Settled)
                        } else {
                            Err(DirectoryBootstrapError::Inconsistent)
                        }
                    } else if sequence == u64::MAX {
                        Err(DirectoryBootstrapError::Capacity)
                    } else {
                        Ok(
                            Activation::Install(
                                Installation {
                                    id: ControlRequestId {
                                        client: self.plan.installer(),
                                        sequence: (sequence + 1) as u64,
                                    },
                                    acknowledged_through: sequence,
                                    expected_source_index: current.source_index,
                                    decided_at: now,
                                },
                            ),
                        )
                    },
                }
            },
        }
    }

    /// Decide what is submitted to the group that was opened.
    pub fn activation(
        &self,
        recovered: &Option<Delegation>,
        partition_revision: u64,
        current: &Option<AuthoritySnapshot>,
        previous: &Option<ControlReceipt>,
        now: i64,
    ) -> (activation: Result<Activation, DirectoryBootstrapError>)
        ensures
            activation == self.activated(*recovered, partition_revision, *current, *previous, now),
    {
        match recovered {
            None => return Err(DirectoryBootstrapError::Inconsistent),
            Some(delegation) => if !self.plan.accepts(delegation) {
                return Err(DirectoryBootstrapError::Unauthorized);
            },
        }
        let client = match self.plan.client() {
            Ok(client) => client,
            Err(error) => return Err(error),
        };
        let current = match current {
            None => {
                if previous.is_some() {
                    return Err(DirectoryBootstrapError::Inconsistent);
                }
                return Ok(
                    Activation::Activate {
                        id: ControlRequestId { client, sequence: 1 },
                        acknowledged_through: 0,
                        expected_partition_revision: partition_revision,
                    },
                );
            },
            Some(current) => current,
        };
        let previous = match previous {
            Some(previous) => previous,
            None => return Err(DirectoryBootstrapError::Inconsistent),
        };
        let identity = match self.plan.identity() {
            Ok(identity) => identity,
            Err(error) => return Err(error),
        };
        if !current.source.same(&self.snapshot.source) || !current.identity.same(&identity)
            || current.source_index > self.snapshot.source_index {
            return Err(DirectoryBootstrapError::Inconsistent);
        }
        if current.source_index == self.snapshot.source_index {
            return if current.same(&self.snapshot) {
                Ok(Activation::Settled)
            } else {
                Err(DirectoryBootstrapError::Inconsistent)
            };
        }
        match previous.request.sequence.checked_add(1) {
            None => Err(DirectoryBootstrapError::Capacity),
            Some(sequence) => Ok(
                Activation::Install(
                    Installation {
                        id: ControlRequestId { client, sequence },
                        acknowledged_through: previous.request.sequence,
                        expected_source_index: current.source_index,
                        decided_at: now,
                    },
                ),
            ),
        }
    }
}

/// A restart under the same permit submits nothing: the group holds what it
/// was opened with.
pub proof fn a_restart_is_settled(
    permit: PartitionBootstrapPermit,
    delegation: Delegation,
    revision: u64,
    current: AuthoritySnapshot,
    previous: ControlReceipt,
    now: i64,
)
    requires
        permit.plan.hosts(delegation),
        !zero_16(permit.plan.installer()),
        !unset(permit.plan.genesis),
        current.identity == permit.plan.named(),
        current.source == permit.snapshot.source,
        current.source_index == permit.snapshot.source_index,
        current.agrees(permit.snapshot),
    ensures
        permit.activated(Some(delegation), revision, Some(current), Some(previous), now) == Ok::<
            Activation,
            DirectoryBootstrapError,
        >(Activation::Settled),
{
}

/// A single member stays single and sends nothing: otherwise it is no longer
/// the plan's to start.
pub fn drain_single(configuration: &Configuration, quiet: bool, plan: &PartitionPlan) -> (done:
    Result<(), DirectoryBootstrapError>)
    ensures
        done == (if configuration.alone(plan.founder_node) && quiet {
            Ok::<(), DirectoryBootstrapError>(())
        } else {
            Err::<(), DirectoryBootstrapError>(DirectoryBootstrapError::Unauthorized)
        }),
{
    if !configuration.is_alone(plan.founder_node) || !quiet {
        return Err(DirectoryBootstrapError::Unauthorized);
    }
    Ok(())
}

/// The context of the reads an opening waits for.
pub open spec fn startup_read() -> Seq<u8> {
    encode_utf8("focal.directory.bootstrap.read.v1"@)
}

/// What a waiting owner does next.
#[derive(Debug, Clone, Copy, PartialEq, Eq, Structural)]
pub enum Round {
    /// Drain once more.
    Drain,
    /// Ask for a quorum read.
    Ask,
    /// Go on: what was waited for is there.
    Done,
}

/// The wait for a quorum read of a single member: a bounded number of rounds.
#[derive(Debug, Clone, Copy, PartialEq, Eq, Structural)]
pub struct Barrier {
    pub rounds: usize,
    pub requested: bool,
}

impl Barrier {
    /// No more rounds than allowed.
    pub open spec fn wf(self) -> bool {
        self.rounds <= STARTUP_ROUNDS
    }

    /// A wait that has not begun.
    pub fn new() -> (barrier: Self)
        ensures
            barrier == (Barrier { rounds: 0, requested: false }),
            barrier.wf(),
    {
        Barrier { rounds: 0, requested: false }
    }

    /// Whether another round may follow.
    pub open spec fn again(self) -> Result<Round, DirectoryBootstrapError> {
        if self.rounds < STARTUP_ROUNDS {
            Ok(Round::Drain)
        } else {
            Err(DirectoryBootstrapError::NotReady)
        }
    }

    fn proceed(&self) -> (next: Result<Round, DirectoryBootstrapError>)
        ensures
            next == self.again(),
    {
        if self.rounds < STARTUP_ROUNDS {
            Ok(Round::Drain)
        } else {
            Err(DirectoryBootstrapError::NotReady)
        }
    }

    /// One round was drained: whether nothing was sent, and whether the read
    /// was answered within what is applied.
    pub fn drained(&mut self, quiet: bool, answered: bool) -> (next: Result<
        Round,
        DirectoryBootstrapError,
    >)
        requires
            old(self).wf(),
            old(self).rounds < STARTUP_ROUNDS,
        ensures
            final(self).wf(),
            *final(self) == (Barrier { rounds: (old(self).rounds + 1) as usize, ..*old(self) }),
            next == (if !quiet {
                Err::<Round, DirectoryBootstrapError>(DirectoryBootstrapError::Unauthorized)
            } else if !old(self).requested {
                Ok::<Round, DirectoryBootstrapError>(Round::Ask)
            } else if answered {
                Ok::<Round, DirectoryBootstrapError>(Round::Done)
            } else {
                final(self).again()
            }),
    {
        self.rounds = self.rounds + 1;
        if !quiet {
            return Err(DirectoryBootstrapError::Unauthorized);
        }
        if !self.requested {
            return Ok(Round::Ask);
        }
        if answered {
            return Ok(Round::Done);
        }
        self.proceed()
    }

    /// The read was asked for: a member that is not ready is asked again in
    /// the next round.
    pub fn asked(&mut self, outcome: Result<(), ControlError>) -> (next: Result<
        Round,
        DirectoryBootstrapError,
    >)
        requires
            old(self).wf(),
        ensures
            final(self).wf(),
            match outcome {
                Ok(_) => *final(self) == (Barrier { requested: true, ..*old(self) }) && next
                    == final(self).again(),
                Err(ControlError::NotReady) => *final(self) == *old(self) && next
                    == final(self).again(),
                Err(error) => *final(self) == *old(self) && next == Err::<
                    Round,
                    DirectoryBootstrapError,
                >(DirectoryBootstrapError::Control(error)),
            },
    {
        match outcome {
            Ok(_) => {
                self.requested = true;
            },
            Err(ControlError::NotReady) => {},
            Err(error) => return Err(DirectoryBootstrapError::Control(error)),
        }
        self.proceed()
    }
}

/// What is done next for a group that is opened.
#[derive(Debug, Clone, Copy, PartialEq, Eq)]
pub enum Opens {
    Drain,
    Campaign,
    /// Ask for a quorum read.
    Ask,
    /// Look at what recovery left.
    Inspect,
    Submit(Activation),
    /// Look for the receipt of what was submitted.
    Receipt(ControlRequestId),
    /// The group is open, or why it is not.
    Return(Result<(), DirectoryBootstrapError>),
}

/// What that came to.
#[derive(Debug, Clone, PartialEq, Eq)]
pub enum Did {
    /// The log was drained: the members it leaves, whether nothing was sent,
    /// the reads that were answered, and whether this member leads.
    Drained { configuration: Configuration, quiet: bool, reads: Reads, leader: bool },
    Done,
    /// What recovery left: the partition's delegation and revision, the
    /// authority it holds and the last receipt of its installer.
    Found {
        delegation: Option<Delegation>,
        revision: u64,
        current: Option<AuthoritySnapshot>,
        previous: Option<ControlReceipt>,
    },
    /// Whether the receipt is there.
    Receipt(bool),
    Failed(ControlError),
}

/// Where an opening is.
#[derive(Debug, Clone, Copy, PartialEq, Eq)]
pub enum Stage {
    /// The log is drained before a quorum read.
    Draining,
    Campaigning,
    /// The quorum read is waited for.
    Waiting,
    Asking,
    Inspecting,
    Submitting(ControlRequestId),
    /// The log is drained for what was submitted.
    Settling(ControlRequestId),
    Looking(ControlRequestId),
    Finished(Result<(), DirectoryBootstrapError>),
}

/// A group that is opened. Recovery is settled behind a quorum read before it
/// is looked at, and what was submitted behind another before the group is
/// open.
#[derive(Debug, Clone, Copy, PartialEq, Eq)]
pub struct Opening {
    pub stage: Stage,
    pub barrier: Barrier,
    /// Rounds what was submitted was waited for.
    pub rounds: usize,
    /// Whether something was submitted.
    pub submitted: bool,
}

impl Opening {
    /// No more rounds than allowed.
    pub open spec fn wf(self) -> bool {
        &&& self.barrier.wf()
        &&& self.rounds <= STARTUP_ROUNDS
        &&& self.stage is Waiting ==> self.barrier.rounds < STARTUP_ROUNDS
        &&& self.stage is Settling ==> self.rounds < STARTUP_ROUNDS
    }

    /// The opening as it ends.
    pub open spec fn ends(self, result: Result<(), DirectoryBootstrapError>) -> (Self, Opens) {
        (Opening { stage: Stage::Finished(result), ..self }, Opens::Return(result))
    }

    /// The opening at a stage.
    pub open spec fn goes(self, stage: Stage, opens: Opens) -> (Self, Opens) {
        (Opening { stage, ..self }, opens)
    }

    /// The opening behind a quorum read.
    pub open spec fn settled(self) -> (Self, Opens) {
        if self.submitted {
            self.ends(Ok(()))
        } else {
            self.goes(Stage::Inspecting, Opens::Inspect)
        }
    }

    /// The opening in another round, where there is one.
    pub open spec fn waits(self) -> (Self, Opens) {
        if self.barrier.rounds < STARTUP_ROUNDS {
            self.goes(Stage::Waiting, Opens::Drain)
        } else {
            self.ends(Err(DirectoryBootstrapError::NotReady))
        }
    }

    /// The opening after something was done. What does not belong to a stage
    /// ends it.
    pub open spec fn next(self, permit: PartitionBootstrapPermit, did: Did, now: i64) -> (
        Self,
        Opens,
    ) {
        match (self.stage, did) {
            (Stage::Finished(result), _) => self.ends(result),
            (Stage::Asking, Did::Failed(ControlError::NotReady)) => self.waits(),
            (_, Did::Failed(error)) => self.ends(Err(DirectoryBootstrapError::Control(error))),
            (Stage::Draining, Did::Drained { configuration, quiet, leader, .. }) => {
                let fresh = Opening {
                    barrier: Barrier { rounds: 0, requested: false },
                    ..self
                };
                if !configuration.alone(permit.plan.founder_node) || !quiet {
                    self.ends(Err(DirectoryBootstrapError::Unauthorized))
                } else if leader {
                    fresh.goes(Stage::Waiting, Opens::Drain)
                } else {
                    fresh.goes(Stage::Campaigning, Opens::Campaign)
                }
            },
            (Stage::Campaigning, Did::Done) => self.waits(),
            (Stage::Waiting, Did::Drained { quiet, reads, .. }) => {
                let after = Opening {
                    barrier: Barrier {
                        rounds: (self.barrier.rounds + 1) as usize,
                        ..self.barrier
                    },
                    ..self
                };
                if !quiet {
                    after.ends(Err(DirectoryBootstrapError::Unauthorized))
                } else if !self.barrier.requested {
                    after.goes(Stage::Asking, Opens::Ask)
                } else if reads.answers(startup_read()) {
                    after.settled()
                } else {
                    after.waits()
                }
            },
            (Stage::Asking, Did::Done) => Opening {
                barrier: Barrier { requested: true, ..self.barrier },
                ..self
            }.waits(),
            (Stage::Inspecting, Did::Found { delegation, revision, current, previous }) => {
                match permit.activated(delegation, revision, current, previous, now) {
                    Err(error) => self.ends(Err(error)),
                    Ok(Activation::Settled) => self.ends(Ok(())),
                    Ok(Activation::Activate {
                        id,
                        acknowledged_through,
                        expected_partition_revision,
                    }) => self.goes(
                        Stage::Submitting(id),
                        Opens::Submit(
                            Activation::Activate {
                                id,
                                acknowledged_through,
                                expected_partition_revision,
                            },
                        ),
                    ),
                    Ok(Activation::Install(install)) => self.goes(
                        Stage::Submitting(install.id),
                        Opens::Submit(Activation::Install(install)),
                    ),
                }
            },
            (Stage::Submitting(id), Did::Done) => Opening {
                submitted: true,
                rounds: 0,
                ..self
            }.goes(Stage::Settling(id), Opens::Drain),
            (Stage::Settling(id), Did::Drained { configuration, quiet, .. }) => {
                if !configuration.alone(permit.plan.founder_node) || !quiet {
                    self.ends(Err(DirectoryBootstrapError::Unauthorized))
                } else {
                    Opening { rounds: (self.rounds + 1) as usize, ..self }.goes(
                        Stage::Looking(id),
                        Opens::Receipt(id),
                    )
                }
            },
            (Stage::Looking(id), Did::Receipt(found)) => if found {
                self.goes(Stage::Draining, Opens::Drain)
            } else if self.rounds < STARTUP_ROUNDS {
                self.goes(Stage::Settling(id), Opens::Drain)
            } else {
                self.ends(Err(DirectoryBootstrapError::NotReady))
            },
            _ => self.ends(Err(DirectoryBootstrapError::Inconsistent)),
        }
    }

    /// Begin to open a permitted group whose log was recovered.
    pub fn open(permit: &PartitionBootstrapPermit, now: i64) -> (begun: Result<
        (Self, Opens),
        DirectoryBootstrapError,
    >)
        ensures
            begun == (if permit.valid_at(now) {
                Ok::<(Self, Opens), DirectoryBootstrapError>(
                    (
                        Opening {
                            stage: Stage::Draining,
                            barrier: Barrier { rounds: 0, requested: false },
                            rounds: 0,
                            submitted: false,
                        },
                        Opens::Drain,
                    ),
                )
            } else {
                Err::<(Self, Opens), DirectoryBootstrapError>(DirectoryBootstrapError::Unauthorized)
            }),
            begun matches Ok((opening, _)) ==> opening.wf(),
    {
        match permit.opens(now) {
            Err(error) => Err(error),
            Ok(_) => Ok(
                (
                    Opening {
                        stage: Stage::Draining,
                        barrier: Barrier::new(),
                        rounds: 0,
                        submitted: false,
                    },
                    Opens::Drain,
                ),
            ),
        }
    }

    fn end(&mut self, result: Result<(), DirectoryBootstrapError>) -> (opens: Opens)
        ensures
            (*final(self), opens) == old(self).ends(result),
    {
        self.stage = Stage::Finished(result);
        Opens::Return(result)
    }

    fn go(&mut self, stage: Stage, opens: Opens) -> (next: Opens)
        ensures
            (*final(self), next) == old(self).goes(stage, opens),
    {
        self.stage = stage;
        opens
    }

    fn proceed(&mut self, next: Result<Round, DirectoryBootstrapError>) -> (opens: Opens)
        ensures
            (*final(self), opens) == (match next {
                Err(error) => old(self).ends(Err(error)),
                Ok(Round::Drain) => old(self).goes(Stage::Waiting, Opens::Drain),
                Ok(Round::Ask) => old(self).goes(Stage::Asking, Opens::Ask),
                Ok(Round::Done) => old(self).settled(),
            }),
    {
        match next {
            Err(error) => self.end(Err(error)),
            Ok(Round::Drain) => self.go(Stage::Waiting, Opens::Drain),
            Ok(Round::Ask) => self.go(Stage::Asking, Opens::Ask),
            Ok(Round::Done) => if self.submitted {
                self.end(Ok(()))
            } else {
                self.go(Stage::Inspecting, Opens::Inspect)
            },
        }
    }

    /// Take what was done.
    pub fn step(&mut self, permit: &PartitionBootstrapPermit, did: &Did, now: i64) -> (opens: Opens)
        requires
            old(self).wf(),
        ensures
            (*final(self), opens) == old(self).next(*permit, *did, now),
            final(self).wf(),
    {
        match (self.stage, did) {
            (Stage::Finished(result), _) => self.end(result),
            (Stage::Asking, Did::Failed(ControlError::NotReady)) => {
                let next = self.barrier.asked(Err(ControlError::NotReady));
                self.proceed(next)
            },
            (_, Did::Failed(error)) => self.end(Err(DirectoryBootstrapError::Control(*error))),
            (Stage::Draining, Did::Drained { configuration, quiet, leader, .. }) => {
                match drain_single(configuration, *quiet, &permit.plan) {
                    Err(error) => self.end(Err(error)),
                    Ok(_) => {
                        self.barrier = Barrier::new();
                        if *leader {
                            self.go(Stage::Waiting, Opens::Drain)
                        } else {
                            self.go(Stage::Campaigning, Opens::Campaign)
                        }
                    },
                }
            },
            (Stage::Campaigning, Did::Done) => {
                let next = self.barrier.proceed();
                self.proceed(next)
            },
            (Stage::Waiting, Did::Drained { quiet, reads, .. }) => {
                let context = "focal.directory.bootstrap.read.v1";
                let next = self.barrier.drained(*quiet, reads.answered(context.as_bytes()));
                self.proceed(next)
            },
            (Stage::Asking, Did::Done) => {
                let next = self.barrier.asked(Ok(()));
                self.proceed(next)
            },
            (Stage::Inspecting, Did::Found { delegation, revision, current, previous }) => {
                match permit.activation(delegation, *revision, current, previous, now) {
                    Err(error) => self.end(Err(error)),
                    Ok(Activation::Settled) => self.end(Ok(())),
                    Ok(Activation::Activate {
                        id,
                        acknowledged_through,
                        expected_partition_revision,
                    }) => self.go(
                        Stage::Submitting(id),
                        Opens::Submit(
                            Activation::Activate {
                                id,
                                acknowledged_through,
                                expected_partition_revision,
                            },
                        ),
                    ),
                    Ok(Activation::Install(install)) => self.go(
                        Stage::Submitting(install.id),
                        Opens::Submit(Activation::Install(install)),
                    ),
                }
            },
            (Stage::Submitting(id), Did::Done) => {
                self.submitted = true;
                self.rounds = 0;
                self.go(Stage::Settling(id), Opens::Drain)
            },
            (Stage::Settling(id), Did::Drained { configuration, quiet, .. }) => {
                match drain_single(configuration, *quiet, &permit.plan) {
                    Err(error) => self.end(Err(error)),
                    Ok(_) => {
                        self.rounds = self.rounds + 1;
                        self.go(Stage::Looking(id), Opens::Receipt(id))
                    },
                }
            },
            (Stage::Looking(id), Did::Receipt(found)) => if *found {
                self.go(Stage::Draining, Opens::Drain)
            } else if self.rounds < STARTUP_ROUNDS {
                self.go(Stage::Settling(id), Opens::Drain)
            } else {
                self.end(Err(DirectoryBootstrapError::NotReady))
            },
            _ => self.end(Err(DirectoryBootstrapError::Inconsistent)),
        }
    }
}

/// What recovery left is looked at only behind a quorum read that was asked
/// for and answered: an activation whose outcome was unknown is settled by
/// then.
pub proof fn recovery_is_settled_first(
    opening: Opening,
    permit: PartitionBootstrapPermit,
    did: Did,
    now: i64,
)
    requires
        opening.next(permit, did, now).1 == Opens::Inspect,
    ensures
        opening.stage == Stage::Waiting,
        opening.barrier.requested,
        !opening.submitted,
        did matches Did::Drained { quiet, reads, .. } && quiet && reads.answers(startup_read()),
{
}

/// A group is open only when it holds the permit's authority already, or when
/// what was submitted has its receipt behind another quorum read.
pub proof fn an_open_group_is_settled(
    opening: Opening,
    permit: PartitionBootstrapPermit,
    did: Did,
    now: i64,
)
    requires
        !(opening.stage is Finished),
        opening.next(permit, did, now).1 == Opens::Return(Ok(())),
    ensures
        (opening.stage == Stage::Inspecting && (did matches Did::Found {
            delegation,
            revision,
            current,
            previous,
        } && permit.activated(delegation, revision, current, previous, now) == Ok::<
            Activation,
            DirectoryBootstrapError,
        >(Activation::Settled))) || (opening.stage == Stage::Waiting && opening.submitted
            && opening.barrier.requested && (did matches Did::Drained { quiet, reads, .. } && quiet
            && reads.answers(startup_read()))),
{
}

/// A group with another member, or one that has something to send, is never
/// opened by its plan.
pub proof fn a_group_that_is_not_single_is_refused(
    opening: Opening,
    permit: PartitionBootstrapPermit,
    did: Did,
    now: i64,
)
    requires
        opening.stage is Draining || opening.stage is Settling,
        did matches Did::Drained { configuration, quiet, .. } && (!configuration.alone(
            permit.plan.founder_node,
        ) || !quiet),
    ensures
        opening.next(permit, did, now).1 == Opens::Return(
            Err(DirectoryBootstrapError::Unauthorized),
        ),
{
}

/// What one item adds to a queue: itself and its slot.
pub open spec fn slot(bytes: usize) -> int {
    if bytes + 128 <= usize::MAX {
        bytes + 128
    } else {
        usize::MAX as int
    }
}

/// What a directory's owner is charged: its queues, itself, its stack.
pub open spec fn owner_total(
    queue_items: usize,
    replication_queue: usize,
    work: usize,
    frame: usize,
    owner: usize,
) -> int {
    (queue_items + replication_queue) * slot(work) + replication_queue * slot(frame) + owner
        + DIRECTORY_STACK_BYTES + 4096
}

/// The bytes a directory's owner is charged: `work` and `frame` are the sizes
/// of what its queues hold, `owner` its own.
pub fn owner_bytes(
    queue_items: usize,
    replication_queue: usize,
    work: usize,
    frame: usize,
    owner: usize,
) -> (bytes: Result<usize, DirectoryBootstrapError>)
    ensures
        bytes == (if owner_total(queue_items, replication_queue, work, frame, owner)
            <= usize::MAX {
            Ok::<usize, DirectoryBootstrapError>(
                owner_total(queue_items, replication_queue, work, frame, owner) as usize,
            )
        } else {
            Err::<usize, DirectoryBootstrapError>(DirectoryBootstrapError::Capacity)
        }),
{
    let work: usize = work.saturating_add(128);
    let frame: usize = frame.saturating_add(128);
    proof {
        let items = queue_items + replication_queue;
        assert(items <= items * work && 0 <= replication_queue * frame) by (nonlinear_arith)
            requires
                0 <= items,
                work >= 1,
                0 <= replication_queue,
                0 <= frame,
        ;
    }
    let items: usize = match queue_items.checked_add(replication_queue) {
        Some(items) => items,
        None => return Err(DirectoryBootstrapError::Capacity),
    };
    let ingress: usize = match items.checked_mul(work) {
        Some(bytes) => bytes,
        None => return Err(DirectoryBootstrapError::Capacity),
    };
    let egress: usize = match replication_queue.checked_mul(frame) {
        Some(bytes) => bytes,
        None => return Err(DirectoryBootstrapError::Capacity),
    };
    let queues: usize = match ingress.checked_add(egress) {
        Some(bytes) => bytes,
        None => return Err(DirectoryBootstrapError::Capacity),
    };
    let held: usize = match queues.checked_add(owner) {
        Some(bytes) => bytes,
        None => return Err(DirectoryBootstrapError::Capacity),
    };
    let stack: usize = match held.checked_add(DIRECTORY_STACK_BYTES) {
        Some(bytes) => bytes,
        None => return Err(DirectoryBootstrapError::Capacity),
    };
    match stack.checked_add(4096) {
        Some(bytes) => Ok(bytes),
        None => Err(DirectoryBootstrapError::Capacity),
    }
}

/// The revisions a directory's owner has applied.
#[derive(Debug, Clone, Copy, PartialEq, Eq, Structural)]
pub struct ControlRevisions {
    /// Of its partition.
    pub partition: u64,
}

/// How far a directory's owner has come, as others see it.
#[derive(Debug, Clone, Copy, PartialEq, Eq)]
pub struct ControlProgress {
    pub identity: ControlIdentity,
    pub node: u64,
    pub leader: u64,
    pub term: u64,
    pub applied_index: u64,
    pub revisions: ControlRevisions,
    pub dropped_replication: u64,
    pub stopped: bool,
}

impl ControlProgress {
    /// The owner has ended, however it did: what it had applied last stays
    /// visible.
    pub fn end(&mut self)
        ensures
            *final(self) == (ControlProgress { stopped: true, ..*old(self) }),
    {
        self.stopped = true;
    }
}

/// What a directory's owner begins with: its progress, visible before anything
/// of its log is recovered, and the bytes it is charged. `granted` is whether
/// they were.
pub fn spawn_directory(
    permit: &PartitionBootstrapPermit,
    queue_items: usize,
    replication_queue: usize,
    work: usize,
    frame: usize,
    owner: usize,
    granted: bool,
) -> (begun: Result<(ControlProgress, usize), DirectoryBootstrapError>)
    ensures
        begun == (if unset(permit.plan.genesis) {
            Err::<(ControlProgress, usize), DirectoryBootstrapError>(
                DirectoryBootstrapError::Inconsistent,
            )
        } else if owner_total(queue_items, replication_queue, work, frame, owner) > usize::MAX
            || !granted {
            Err::<(ControlProgress, usize), DirectoryBootstrapError>(
                DirectoryBootstrapError::Capacity,
            )
        } else {
            Ok::<(ControlProgress, usize), DirectoryBootstrapError>(
                (
                    ControlProgress {
                        identity: permit.plan.named(),
                        node: permit.plan.founder_node,
                        leader: 0,
                        term: 0,
                        applied_index: 0,
                        revisions: ControlRevisions { partition: 0 },
                        dropped_replication: 0,
                        stopped: false,
                    },
                    owner_total(queue_items, replication_queue, work, frame, owner) as usize,
                ),
            )
        }),
{
    let identity = match permit.plan.identity() {
        Ok(identity) => identity,
        Err(error) => return Err(error),
    };
    let bytes: usize = match owner_bytes(queue_items, replication_queue, work, frame, owner) {
        Ok(bytes) => bytes,
        Err(error) => return Err(error),
    };
    if !granted {
        return Err(DirectoryBootstrapError::Capacity);
    }
    Ok(
        (
            ControlProgress {
                identity,
                node: permit.plan.founder_node,
                leader: 0,
                term: 0,
                applied_index: 0,
                revisions: ControlRevisions { partition: 0 },
                dropped_replication: 0,
                stopped: false,
            },
            bytes,
        ),
    )
}

} // verus!
