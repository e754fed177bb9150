//! Trusted, bounded installation into a grouped worker. Management receipts
//! are process-local: callers reconcile durable placement before constructing
//! sessions after a restart or an unknown installation outcome.
use super::group::{admit_tenants, hosted, tenants_fit, FleetTenant, GroupOwner, GroupSession, RESERVED,
    STACK_BYTES};
use super::{LedgerError, ReplicaConfig, WireLimits, MIN_FRAME_BYTES};
use crate::hashing::{is_zero_16, same_16, zero_16};
use crate::ids::{ledgers_are_ordered, LedgerId};
use vstd::prelude::*;
use vstd::string::StringExecFns;

verus! {

/// How large a managed fleet may be.
#[derive(Debug, Clone, Copy, PartialEq, Eq, Structural)]
pub struct ManagedFleetConfig {
    pub max_sessions: usize,
    pub management_queue: usize,
}

impl Default for ManagedFleetConfig {
    fn default() -> (config: Self)
        ensures
            config == (ManagedFleetConfig { max_sessions: 1024, management_queue: 64 }),
    {
        ManagedFleetConfig { max_sessions: 1024, management_queue: 64 }
    }
}

/// One installation of a session: the fleet's owner and the management
/// operation that installed it.
#[derive(Debug, Clone, Copy, PartialEq, Eq, Structural)]
pub struct FleetIncarnation {
    pub owner: u64,
    pub sequence: u64,
}

/// What a fleet is at.
#[derive(Debug, Clone, Copy, PartialEq, Eq, Structural)]
pub struct FleetStatus {
    pub latest_sequence: u64,
    pub installed: usize,
    pub running: usize,
    pub stopped: bool,
}

/// Why a management operation was refused.
#[derive(Debug, Clone, Copy, PartialEq, Eq, Structural)]
pub enum FleetError {
    Capacity,
    InvalidSession,
    Conflict,
    RetryExpired,
    OutOfOrder,
    Running,
    Unavailable,
}

impl FleetError {
    /// What the error says.
    pub open spec fn words(self) -> Seq<char> {
        match self {
            FleetError::Capacity => "fleet capacity exhausted"@,
            FleetError::InvalidSession =>
                "session does not match the installed node, tenant or writer policy"@,
            FleetError::Conflict =>
                "management operation conflicts with an installed incarnation or latest intent"@,
            FleetError::RetryExpired => "only the latest management operation can be retried"@,
            FleetError::OutOfOrder =>
                "management sequence must follow the latest accepted operation"@,
            FleetError::Running =>
                "session must be stopped before its registration can be removed"@,
            FleetError::Unavailable =>
                "fleet is unavailable; an accepted installation may have completed"@,
        }
    }

    /// What the error says.
    pub fn message(&self) -> (text: String)
        ensures
            text@ == self.words(),
    {
        match self {
            FleetError::Capacity => String::from_str("fleet capacity exhausted"),
            FleetError::InvalidSession => String::from_str(
                "session does not match the installed node, tenant or writer policy",
            ),
            FleetError::Conflict => String::from_str(
                "management operation conflicts with an installed incarnation or latest intent",
            ),
            FleetError::RetryExpired => String::from_str(
                "only the latest management operation can be retried",
            ),
            FleetError::OutOfOrder => String::from_str(
                "management sequence must follow the latest accepted operation",
            ),
            FleetError::Running => String::from_str(
                "session must be stopped before its registration can be removed",
            ),
            FleetError::Unavailable => String::from_str(
                "fleet is unavailable; an accepted installation may have completed",
            ),
        }
    }
}

/// A session that is to be installed. `budgeted` says whether its budget
/// descends from its tenant's.
#[derive(Debug, Clone, Copy, PartialEq, Eq)]
pub struct Candidate {
    pub ledger: LedgerId,
    pub group: [u8; 16],
    pub node: u64,
    pub cluster: [u8; 16],
    pub budgeted: bool,
    pub writer: u64,
    pub active_route: Option<u64>,
    pub config: ReplicaConfig,
}

/// A refused installation. Before admission the candidate is returned; after
/// it, the installation is to be inspected or retried before another lease on
/// its log is opened.
#[derive(Debug, Clone, Copy, PartialEq, Eq)]
pub struct FleetInstallFailure {
    pub error: FleetError,
    pub replica: Option<Candidate>,
}

/// A session as it was installed.
#[derive(Debug, Clone, Copy, PartialEq, Eq)]
pub struct FleetInstallation {
    pub ledger: LedgerId,
    pub group: [u8; 16],
    pub incarnation: FleetIncarnation,
    pub config: ReplicaConfig,
    pub writer: u64,
}

impl FleetInstallation {
    /// The session's ledger.
    pub fn ledger(&self) -> (ledger: LedgerId)
        ensures
            ledger == self.ledger,
    {
        self.ledger
    }

    /// The session's group.
    pub fn group(&self) -> (group: [u8; 16])
        ensures
            group == self.group,
    {
        self.group
    }

    /// The installation.
    pub fn incarnation(&self) -> (incarnation: FleetIncarnation)
        ensures
            incarnation == self.incarnation,
    {
        self.incarnation
    }

    /// Whether an installation is of this very candidate.
    pub open spec fn of(self, candidate: Candidate) -> bool {
        self.ledger == candidate.ledger && self.group == candidate.group && self.config
            == candidate.config && self.writer == candidate.writer
    }
}

/// A session's installation that is to be removed.
#[derive(Debug, Clone, Copy, PartialEq, Eq)]
pub struct FleetRemoval {
    pub ledger: LedgerId,
    pub incarnation: FleetIncarnation,
}

/// What a management operation answers.
#[derive(Debug, PartialEq, Eq)]
pub struct FleetReply<T> {
    value: T,
}

impl<T> FleetReply<T> {
    /// What the reply holds.
    pub closed spec fn held(self) -> T {
        self.value
    }

    /// Answer with a value.
    pub fn new(value: T) -> (reply: Self)
        ensures
            reply.held() == value,
    {
        FleetReply { value }
    }

    /// What the reply holds.
    pub fn value(&self) -> (value: &T)
        ensures
            *value == self.held(),
    {
        &self.value
    }
}

/// The latest management operation.
#[derive(Debug, Clone, Copy, PartialEq, Eq)]
pub enum Latest {
    Installed(FleetInstallation),
    Removed(FleetRemoval),
}

/// An installed session, and whether it has stopped.
#[derive(Debug, Clone, Copy, PartialEq, Eq)]
pub struct Entry {
    pub installation: FleetInstallation,
    pub stopped: bool,
}

/// Entries in the order of their ledgers.
pub open spec fn ordered(entries: Seq<Entry>) -> bool {
    forall|i: int, j: int|
        0 <= i < j < entries.len() ==> #[trigger] entries[i].installation.ledger.below(
            #[trigger] entries[j].installation.ledger,
        )
}

/// Whether entry `i` is the ledger's.
pub open spec fn entry_at(entries: Seq<Entry>, ledger: LedgerId, i: int) -> bool {
    0 <= i < entries.len() && entries[i].installation.ledger == ledger
}

/// The ledger's entry.
pub open spec fn entry_of(entries: Seq<Entry>, ledger: LedgerId) -> Option<Entry> {
    if exists|i: int| entry_at(entries, ledger, i) {
        Some(entries[choose|i: int| entry_at(entries, ledger, i)])
    } else {
        None
    }
}

/// Whether an entry's session is of this group.
pub open spec fn grouped(entries: Seq<Entry>, group: [u8; 16]) -> bool {
    exists|i: int| 0 <= i < entries.len() && #[trigger] entries[i].installation.group == group
}

/// Whether entry `i` is the first running one after a ledger.
pub open spec fn first_running(entries: Seq<Entry>, after: Option<LedgerId>, i: int) -> bool {
    0 <= i < entries.len() && runs_after(entries[i], after) && forall|j: int|
        0 <= j < i ==> !#[trigger] runs_after(entries[j], after)
}

/// Whether an entry runs and comes after a ledger.
pub open spec fn runs_after(entry: Entry, after: Option<LedgerId>) -> bool {
    !entry.stopped && (after matches Some(after) ==> after.below(entry.installation.ledger))
}

/// A physical writer a fleet retains, as far as its admission reads it. `of`
/// is the cluster and node it was opened for, where they can be read.
#[derive(Debug, Clone, Copy, PartialEq, Eq)]
pub struct Writer {
    pub id: u64,
    pub of: Option<([u8; 16], u64)>,
    pub within: bool,
}

/// The registry of a managed fleet: what is installed, and the policy it is
/// installed under.
#[derive(Debug, Clone, PartialEq, Eq)]
pub struct FleetManager {
    pub status: FleetStatus,
    pub quiesced: bool,
    pub entries: Vec<Entry>,
    pub node: u64,
    pub cluster: [u8; 16],
    pub limits: WireLimits,
    pub tenants: Vec<FleetTenant>,
    pub writers: Vec<u64>,
    pub latest: Option<Latest>,
    pub sequence: u64,
    pub owner: u64,
    pub max_sessions: usize,
}

/// Why a writer is refused.
pub open spec fn writer_refused(writers: Seq<Writer>, i: int, cluster: [u8; 16], node: u64) -> Option<
    LedgerError,
> {
    match writers[i].of {
        None => Some(LedgerError::Failed),
        Some((of, at)) => if at != node || of != cluster || !writers[i].within || (exists|j: int|
            0 <= j < i && #[trigger] writers[j].id == writers[i].id) {
            Some(LedgerError::Capacity)
        } else {
            None
        },
    }
}

/// Why the writers from `i` on are refused: the first that is.
pub open spec fn writers_refused(writers: Seq<Writer>, i: int, cluster: [u8; 16], node: u64) -> Option<
    LedgerError,
>
    decreases writers.len() - i,
{
    if i < 0 || i >= writers.len() {
        None
    } else {
        match writer_refused(writers, i, cluster, node) {
            Some(error) => Some(error),
            None => writers_refused(writers, i + 1, cluster, node),
        }
    }
}

/// Whether a managed fleet is of a size that can be run.
pub open spec fn sized(
    node: u64,
    cluster: [u8; 16],
    writers: int,
    tenants: int,
    config: ManagedFleetConfig,
) -> bool {
    node != 0 && !zero_16(cluster) && 0 < writers <= 64 && 0 < tenants <= 1024 && 1
        <= config.max_sessions <= 4096 && 1 <= config.management_queue <= RESERVED
}

/// What a fleet's policy takes: its tenants and its writers.
pub fn policy_bytes(tenants: usize, writers: usize) -> (bytes: Result<usize, LedgerError>)
    ensures
        bytes == (if tenants * 512 + writers * 64 + 4096 <= usize::MAX {
            Ok::<usize, LedgerError>((tenants * 512 + writers * 64 + 4096) as usize)
        } else {
            Err::<usize, LedgerError>(LedgerError::Capacity)
        }),
{
    let tenants: usize = match tenants.checked_mul(512) {
        Some(bytes) => bytes,
        None => return Err(LedgerError::Capacity),
    };
    let writers: usize = match writers.checked_mul(64) {
        Some(bytes) => bytes,
        None => return Err(LedgerError::Capacity),
    };
    match tenants.checked_add(writers) {
        Some(bytes) => match bytes.checked_add(4096) {
            Some(bytes) => Ok(bytes),
            None => Err(LedgerError::Capacity),
        },
        None => Err(LedgerError::Capacity),
    }
}

/// What a managed fleet's own bookkeeping is charged.
pub fn managed_bookkeeping(policy: usize) -> (bytes: Result<usize, LedgerError>)
    ensures
        bytes == (if STACK_BYTES + policy <= usize::MAX {
            Ok::<usize, LedgerError>((STACK_BYTES + policy) as usize)
        } else {
            Err::<usize, LedgerError>(LedgerError::Capacity)
        }),
{
    match STACK_BYTES.checked_add(policy) {
        Some(bytes) => Ok(bytes),
        None => Err(LedgerError::Capacity),
    }
}

impl FleetManager {
    /// Entries are in order, no group twice, and no more than allowed; the
    /// status says what is installed; no installation is newer than the
    /// latest operation.
    pub open spec fn wf(self) -> bool {
        &&& ordered(self.entries@)
        &&& forall|i: int, j: int|
            0 <= i < j < self.entries@.len() ==> #[trigger] self.entries@[i].installation.group
                != #[trigger] self.entries@[j].installation.group
        &&& self.entries@.len() <= self.max_sessions
        &&& self.status.installed == self.entries@.len()
        &&& self.status.latest_sequence == self.sequence
        &&& forall|i: int|
            0 <= i < self.entries@.len() ==> (
            #[trigger] self.entries@[i]).installation.incarnation.owner == self.owner
                && self.entries@[i].installation.incarnation.sequence <= self.sequence
    }

    /// Every session the worker runs is installed.
    pub open spec fn covers(self, group: GroupOwner) -> bool {
        forall|ledger: LedgerId| #[trigger]
            group.session(ledger) is Some ==> self.entry(ledger) is Some
    }

    /// What does not change but by admission: the policy sessions are
    /// installed under.
    pub open spec fn same_policy(self, other: Self) -> bool {
        self.node == other.node && self.cluster == other.cluster && self.limits == other.limits
            && self.writers@ == other.writers@ && self.owner == other.owner && self.max_sessions
            == other.max_sessions
    }

    /// The ledger's entry.
    pub open spec fn entry(self, ledger: LedgerId) -> Option<Entry> {
        entry_of(self.entries@, ledger)
    }

    fn find(&self, ledger: &LedgerId) -> (found: Option<usize>)
        requires
            self.wf(),
        ensures
            match found {
                Some(at) => entry_at(self.entries@, *ledger, at as int) && self.entry(*ledger)
                    == Some(self.entries@[at as int]),
                None => self.entry(*ledger) is None && forall|i: int|
                    !#[trigger] entry_at(self.entries@, *ledger, i),
            },
    {
        let mut i: usize = 0;
        while i < self.entries.len()
            invariant
                self.wf(),
                i <= self.entries@.len(),
                forall|j: int| 0 <= j < i ==> !#[trigger] entry_at(self.entries@, *ledger, j),
            decreases self.entries@.len() - i,
        {
            if self.entries[i].installation.ledger.same(ledger) {
                assert(entry_at(self.entries@, *ledger, i as int));
                proof {
                    lemma_entry(self.entries@, i as int);
                }
                return Some(i);
            }
            i += 1;
        }
        None
    }

    /// Set up a managed fleet with nothing installed. Physical writers are
    /// retained for its lifetime, and only sessions of those very writers may
    /// be installed.
    pub fn spawn_managed(
        node: u64,
        cluster: [u8; 16],
        writers: &Vec<Writer>,
        tenants: Vec<FleetTenant>,
        limits: WireLimits,
        limits_valid: bool,
        config: ManagedFleetConfig,
        owner: u64,
    ) -> (fleet: Result<Self, LedgerError>)
        ensures
            if !sized(node, cluster, writers@.len() as int, tenants@.len() as int, config)
                || !limits_valid {
                fleet == Err::<Self, LedgerError>(LedgerError::Capacity)
            } else {
                match writers_refused(writers@, 0, cluster, node) {
                    Some(error) => fleet == Err::<Self, LedgerError>(error),
                    None => if !tenants_fit(tenants@) {
                        fleet == Err::<Self, LedgerError>(LedgerError::Capacity)
                    } else {
                        fleet matches Ok(fleet) && {
                            &&& fleet.wf()
                            &&& fleet.status == (FleetStatus {
                                latest_sequence: 0,
                                installed: 0,
                                running: 0,
                                stopped: false,
                            })
                            &&& !fleet.quiesced
                            &&& fleet.entries@.len() == 0
                            &&& fleet.node == node
                            &&& fleet.cluster == cluster
                            &&& fleet.limits == limits
                            &&& fleet.tenants@ == tenants@
                            &&& fleet.writers@ == writers@.map_values(|w: Writer| w.id)
                            &&& fleet.latest is None
                            &&& fleet.sequence == 0
                            &&& fleet.owner == owner
                            &&& fleet.max_sessions == config.max_sessions
                        }
                    },
                }
            },
    {
        if node == 0 || is_zero_16(&cluster) || writers.len() == 0 || writers.len() > 64
            || tenants.len() == 0 || tenants.len() > 1024 || config.max_sessions < 1
            || config.max_sessions > 4096 || config.management_queue < 1 || config.management_queue
            > RESERVED {
            return Err(LedgerError::Capacity);
        }
        if !limits_valid {
            return Err(LedgerError::Capacity);
        }
        let mut ids: Vec<u64> = Vec::new();
        let mut i: usize = 0;
        while i < writers.len()
            invariant
                i <= writers@.len(),
                sized(node, cluster, writers@.len() as int, tenants@.len() as int, config),
                limits_valid,
                writers_refused(writers@, 0, cluster, node) == writers_refused(
                    writers@,
                    i as int,
                    cluster,
                    node,
                ),
                ids@.len() == i,
                forall|j: int| 0 <= j < i ==> ids@[j] == #[trigger] writers@[j].id,
            decreases writers@.len() - i,
        {
            let writer = &writers[i];
            let (of, at) = match writer.of {
                Some(of) => of,
                None => return Err(LedgerError::Failed),
            };
            let known = super::request::is_named(&ids, writer.id);
            proof {
                assert(known == exists|j: int|
                    0 <= j < i && #[trigger] writers@[j].id == writers@[i as int].id) by {
                    if known {
                        let j = choose|j: int| 0 <= j < ids@.len() && #[trigger] ids@[j]
                            == writer.id;
                        assert(writers@[j].id == writer.id);
                    }
                    if exists|j: int|
                        0 <= j < i && #[trigger] writers@[j].id == writers@[i as int].id {
                        let j = choose|j: int|
                            0 <= j < i && #[trigger] writers@[j].id == writers@[i as int].id;
                        assert(ids@[j] == writer.id);
                    }
                }
            }
            if at != node || !same_16(&of, &cluster) || !writer.within || known {
                return Err(LedgerError::Capacity);
            }
            ids.push(writer.id);
            i += 1;
        }
        assert(ids@ =~= writers@.map_values(|w: Writer| w.id));
        match admit_tenants(&tenants) {
            Ok(_) => {},
            Err(error) => return Err(error),
        }
        Ok(
            FleetManager {
                status: FleetStatus { latest_sequence: 0, installed: 0, running: 0, stopped: false },
                quiesced: false,
                entries: Vec::new(),
                node,
                cluster,
                limits,
                tenants,
                writers: ids,
                latest: None,
                sequence: 0,
                owner,
                max_sessions: config.max_sessions,
            },
        )
    }

    /// What the fleet is at.
    pub fn status(&self) -> (status: FleetStatus)
        ensures
            status == self.status,
    {
        self.status
    }

    /// Publish how many sessions run, and whether the worker has stopped.
    pub fn publish(&mut self, running: usize, stopped: bool)
        requires
            old(self).wf(),
        ensures
            final(self).wf(),
            *final(self) == (FleetManager {
                status: FleetStatus {
                    latest_sequence: old(self).sequence,
                    installed: old(self).entries@.len() as usize,
                    running,
                    stopped,
                },
                ..*old(self)
            }),
    {
        self.status = FleetStatus {
            latest_sequence: self.sequence,
            installed: self.entries.len(),
            running,
            stopped,
        };
    }

    /// Whether a tenant's sessions may be installed.
    pub fn is_admitted(&self, tenant: &[u8; 16]) -> (admitted: bool)
        ensures
            admitted == hosted(self.tenants@, *tenant, self.tenants@.len() as int),
    {
        let mut i: usize = 0;
        while i < self.tenants.len()
            invariant
                i <= self.tenants@.len(),
                forall|j: int| 0 <= j < i ==> #[trigger] self.tenants@[j].tenant != *tenant,
            decreases self.tenants@.len() - i,
        {
            if same_16(&self.tenants[i].tenant, tenant) {
                assert(self.tenants@[i as int].tenant == *tenant);
                return true;
            }
            i += 1;
        }
        false
    }

    /// Admit a tenant while the fleet runs: its budget must descend from the
    /// node's; one that is admitted already stays as it is.
    pub fn admit_tenant(&mut self, tenant: FleetTenant) -> (done: Result<(), FleetError>)
        requires
            old(self).wf(),
        ensures
            final(self).wf(),
            if old(self).quiesced || old(self).status.stopped {
                done == Err::<(), FleetError>(FleetError::Unavailable) && *final(self)
                    == *old(self)
            } else if zero_16(tenant.tenant) || !tenant.within {
                done == Err::<(), FleetError>(FleetError::InvalidSession) && *final(self)
                    == *old(self)
            } else if hosted(old(self).tenants@, tenant.tenant, old(self).tenants@.len() as int) {
                done == Ok::<(), FleetError>(()) && *final(self) == *old(self)
            } else if old(self).tenants@.len() >= 1024 {
                done == Err::<(), FleetError>(FleetError::Capacity) && *final(self) == *old(self)
            } else {
                done == Ok::<(), FleetError>(()) && final(self).tenants@ == old(self).tenants@.push(tenant) && final(self).entries@ == old(self).entries@
                    && final(self).status == old(self).status && final(self).sequence
                    == old(self).sequence && final(self).latest == old(self).latest
                    && final(self).quiesced == old(self).quiesced && final(self).same_policy(
                    *old(self),
                )
            },
    {
        if self.quiesced || self.status.stopped {
            return Err(FleetError::Unavailable);
        }
        if is_zero_16(&tenant.tenant) || !tenant.within {
            return Err(FleetError::InvalidSession);
        }
        if self.is_admitted(&tenant.tenant) {
            return Ok(());
        }
        if self.tenants.len() >= 1024 {
            return Err(FleetError::Capacity);
        }
        self.tenants.push(tenant);
        Ok(())
    }

    /// Whether a session runs here.
    pub fn hosts(&self, ledger: &LedgerId) -> (hosts: bool)
        requires
            self.wf(),
        ensures
            hosts == (self.entry(*ledger) matches Some(entry) && !entry.stopped),
    {
        match self.find(ledger) {
            Some(at) => !self.entries[at].stopped,
            None => false,
        }
    }

    /// The installation a ledger's requests are routed to.
    pub fn current_host(&self, ledger: &LedgerId) -> (host: Result<FleetInstallation, FleetError>)
        requires
            self.wf(),
        ensures
            host == (if self.status.stopped || self.quiesced {
                Err::<FleetInstallation, FleetError>(FleetError::Unavailable)
            } else {
                match self.entry(*ledger) {
                    Some(entry) if !entry.stopped => Ok::<FleetInstallation, FleetError>(
                        entry.installation,
                    ),
                    _ => Err::<FleetInstallation, FleetError>(FleetError::Unavailable),
                }
            }),
    {
        if self.status.stopped || self.quiesced {
            return Err(FleetError::Unavailable);
        }
        match self.find(ledger) {
            Some(at) => if self.entries[at].stopped {
                Err(FleetError::Unavailable)
            } else {
                Ok(self.entries[at].installation)
            },
            None => Err(FleetError::Unavailable),
        }
    }

    /// The first running session after a ledger, in their order.
    fn running_after(&self, after: &Option<LedgerId>) -> (next: Option<usize>)
        ensures
            match next {
                Some(at) => first_running(self.entries@, *after, at as int),
                None => forall|i: int|
                    0 <= i < self.entries@.len() ==> !runs_after(
                        #[trigger] self.entries@[i],
                        *after,
                    ),
            },
    {
        let mut i: usize = 0;
        while i < self.entries.len()
            invariant
                i <= self.entries@.len(),
                forall|j: int| 0 <= j < i ==> !runs_after(#[trigger] self.entries@[j], *after),
            decreases self.entries@.len() - i,
        {
            let entry = &self.entries[i];
            let comes = match after {
                Some(after) => after.is_below(&entry.installation.ledger),
                None => true,
            };
            if comes && !entry.stopped {
                assert(runs_after(self.entries@[i as int], *after));
                return Some(i);
            }
            i += 1;
        }
        None
    }

    /// The next running session after a ledger, for the node's background
    /// work.
    pub fn next_host(&self, after: &Option<LedgerId>) -> (next: Option<FleetInstallation>)
        ensures
            if self.status.stopped || self.quiesced {
                next is None
            } else {
                match next {
                    Some(host) => exists|i: int|
                        #[trigger] first_running(self.entries@, *after, i)
                            && self.entries@[i].installation == host,
                    None => forall|i: int|
                        0 <= i < self.entries@.len() ==> !runs_after(
                            #[trigger] self.entries@[i],
                            *after,
                        ),
                }
            },
    {
        if self.status.stopped || self.quiesced {
            return None;
        }
        match self.running_after(after) {
            Some(at) => {
                assert(first_running(self.entries@, *after, at as int));
                Some(self.entries[at].installation)
            },
            None => None,
        }
    }

    /// Whether a management operation may be queued.
    pub fn permit(&self, slot: bool, bytes: bool) -> (done: Result<(), FleetError>)
        ensures
            done == (if self.status.stopped {
                Err::<(), FleetError>(FleetError::Unavailable)
            } else if !slot || !bytes {
                Err::<(), FleetError>(FleetError::Capacity)
            } else {
                Ok::<(), FleetError>(())
            }),
    {
        if self.status.stopped {
            return Err(FleetError::Unavailable);
        }
        if !slot || !bytes {
            return Err(FleetError::Capacity);
        }
        Ok(())
    }

    /// Whether a candidate may be installed under the fleet's policy.
    pub open spec fn fits(self, candidate: Candidate) -> bool {
        hosted(self.tenants@, candidate.ledger.tenant, self.tenants@.len() as int) && !zero_16(
            candidate.ledger.session,
        ) && candidate.node == self.node && candidate.cluster == self.cluster && candidate.budgeted
            && super::request::named(self.writers@, candidate.writer)
            && candidate.config.queue_items >= 4 && (candidate.active_route matches Some(route)
            ==> route == candidate.config.route_epoch) && candidate.config.valid()
            && self.limits.max_frame_bytes >= MIN_FRAME_BYTES
    }

    /// Check a candidate before its installation is queued. The fleet's
    /// limits were valid when it was set up.
    pub fn validate(&self, candidate: &Candidate) -> (done: Result<(), FleetError>)
        ensures
            done == (if self.quiesced || self.status.stopped {
                Err::<(), FleetError>(FleetError::Unavailable)
            } else if !self.fits(*candidate) {
                Err::<(), FleetError>(FleetError::InvalidSession)
            } else {
                Ok::<(), FleetError>(())
            }),
    {
        if self.quiesced || self.status.stopped {
            return Err(FleetError::Unavailable);
        }
        let route = match candidate.active_route {
            Some(route) => route == candidate.config.route_epoch,
            None => true,
        };
        if !self.is_admitted(&candidate.ledger.tenant) || is_zero_16(&candidate.ledger.session)
            || candidate.node != self.node || !same_16(&candidate.cluster, &self.cluster)
            || !candidate.budgeted || !super::request::is_named(&self.writers, candidate.writer)
            || candidate.config.queue_items < 4 || !route {
            return Err(FleetError::InvalidSession);
        }
        match candidate.config.validate(&self.limits, true) {
            Ok(_) => Ok(()),
            Err(_) => Err(FleetError::InvalidSession),
        }
    }

    /// Whether an installation is queued: refused before admission, its
    /// candidate comes back.
    pub fn offer(&self, candidate: Candidate, slot: bool, bytes: bool, queued: super::HostQueue) -> (done:
        Result<(), FleetInstallFailure>)
        ensures
            match done {
                Ok(_) => !self.quiesced && !self.status.stopped && self.fits(candidate) && slot
                    && bytes && queued is Sent,
                Err(failure) => failure.replica == Some(candidate) && failure.error == (
                if self.quiesced || self.status.stopped {
                    FleetError::Unavailable
                } else if !self.fits(candidate) {
                    FleetError::InvalidSession
                } else if !slot || !bytes || queued is Full {
                    FleetError::Capacity
                } else {
                    FleetError::Unavailable
                }) && (self.quiesced || self.status.stopped || !self.fits(candidate) || !slot
                    || !bytes || !(queued is Sent)),
            },
    {
        match self.validate(&candidate) {
            Ok(_) => {},
            Err(error) => return Err(FleetInstallFailure { error, replica: Some(candidate) }),
        }
        match self.permit(slot, bytes) {
            Ok(_) => {},
            Err(error) => return Err(FleetInstallFailure { error, replica: Some(candidate) }),
        }
        match queued {
            super::HostQueue::Sent => Ok(()),
            super::HostQueue::Full => Err(
                FleetInstallFailure { error: FleetError::Capacity, replica: Some(candidate) },
            ),
            super::HostQueue::Disconnected => Err(
                FleetInstallFailure { error: FleetError::Unavailable, replica: Some(candidate) },
            ),
        }
    }

    /// Whether a sequence is the next operation's.
    pub open spec fn follows(self, sequence: u64) -> Result<(), FleetError> {
        if sequence < self.sequence {
            Err(FleetError::RetryExpired)
        } else if sequence == self.sequence {
            Err(FleetError::Conflict)
        } else if sequence != self.sequence + 1 {
            Err(FleetError::OutOfOrder)
        } else {
            Ok(())
        }
    }

    /// Check that a sequence is the next operation's.
    pub fn next(&self, sequence: u64) -> (done: Result<(), FleetError>)
        ensures
            done == self.follows(sequence),
    {
        if sequence < self.sequence {
            return Err(FleetError::RetryExpired);
        }
        if sequence == self.sequence {
            return Err(FleetError::Conflict);
        }
        if sequence - self.sequence != 1 {
            return Err(FleetError::OutOfOrder);
        }
        Ok(())
    }

    /// What the latest operation installed, if it is this one.
    pub open spec fn again(self, sequence: u64) -> Result<FleetInstallation, FleetError> {
        if sequence < self.sequence {
            Err(FleetError::RetryExpired)
        } else if sequence != self.sequence {
            Err(FleetError::OutOfOrder)
        } else {
            match self.latest {
                Some(Latest::Installed(installation)) => Ok(installation),
                _ => Err(FleetError::Conflict),
            }
        }
    }

    /// What the latest operation installed, if it is this one.
    pub fn retry(&self, sequence: u64) -> (installed: Result<FleetInstallation, FleetError>)
        ensures
            installed == self.again(sequence),
    {
        if sequence < self.sequence {
            return Err(FleetError::RetryExpired);
        }
        if sequence != self.sequence {
            return Err(FleetError::OutOfOrder);
        }
        match self.latest {
            Some(Latest::Installed(installation)) => Ok(installation),
            _ => Err(FleetError::Conflict),
        }
    }

    /// What is installed for a ledger.
    pub fn inspect(&self, ledger: &LedgerId) -> (installed: Option<FleetInstallation>)
        requires
            self.wf(),
        ensures
            installed == (match self.entry(*ledger) {
                Some(entry) => Some(entry.installation),
                None => None::<FleetInstallation>,
            }),
    {
        match self.find(ledger) {
            Some(at) => Some(self.entries[at].installation),
            None => None,
        }
    }

    /// Why an installation is refused, or the installation it makes. `granted`
    /// says whether the session's own allowances were.
    pub open spec fn installs(self, sequence: u64, candidate: Candidate, granted: bool) -> Result<
        FleetInstallation,
        FleetError,
    > {
        if sequence == self.sequence {
            match self.again(sequence) {
                Err(error) => Err(error),
                Ok(previous) => if previous.of(candidate) {
                    Ok(previous)
                } else {
                    Err(FleetError::Conflict)
                },
            }
        } else {
            match self.follows(sequence) {
                Err(error) => Err(error),
                Ok(_) => if self.quiesced {
                    Err(FleetError::Unavailable)
                } else if self.entry(candidate.ledger) is Some || grouped(
                    self.entries@,
                    candidate.group,
                ) {
                    Err(FleetError::Conflict)
                } else if self.entries@.len() >= self.max_sessions {
                    Err(FleetError::Capacity)
                } else if !hosted(
                    self.tenants@,
                    candidate.ledger.tenant,
                    self.tenants@.len() as int,
                ) {
                    Err(FleetError::InvalidSession)
                } else if !granted || (candidate.active_route matches Some(route) && route
                    != candidate.config.route_epoch) {
                    Err(FleetError::Capacity)
                } else {
                    Ok(
                        FleetInstallation {
                            ledger: candidate.ledger,
                            group: candidate.group,
                            incarnation: FleetIncarnation { owner: self.owner, sequence },
                            config: candidate.config,
                            writer: candidate.writer,
                        },
                    )
                },
            }
        }
    }

    fn is_grouped(&self, group: &[u8; 16]) -> (yes: bool)
        ensures
            yes == grouped(self.entries@, *group),
    {
        let mut i: usize = 0;
        while i < self.entries.len()
            invariant
                i <= self.entries@.len(),
                forall|j: int|
                    0 <= j < i ==> #[trigger] self.entries@[j].installation.group != *group,
            decreases self.entries@.len() - i,
        {
            if same_16(&self.entries[i].installation.group, group) {
                assert(self.entries@[i as int].installation.group == *group);
                return true;
            }
            i += 1;
        }
        false
    }

    fn place(&mut self, installation: FleetInstallation)
        requires
            old(self).wf(),
            old(self).entry(installation.ledger) is None,
            !grouped(old(self).entries@, installation.group),
            old(self).entries@.len() < old(self).max_sessions,
            installation.incarnation.owner == old(self).owner,
            installation.incarnation.sequence == old(self).sequence,
        ensures
            ordered(final(self).entries@),
            forall|i: int, j: int|
                0 <= i < j < final(self).entries@.len() ==> #[trigger] final(self).entries@[i].installation.group != #[trigger] final(self).entries@[j].installation.group,
            final(self).entries@.len() == old(self).entries@.len() + 1,
            forall|i: int|
                0 <= i < final(self).entries@.len() ==> (#[trigger] final(self).entries@[i]).installation.incarnation.owner == old(self).owner && final(self).entries@[i].installation.incarnation.sequence <= old(self).sequence,
            final(self).entry(installation.ledger) == Some(Entry { installation, stopped: false }),
            forall|other: LedgerId|
                other != installation.ledger ==> #[trigger] final(self).entry(other) == old(self).entry(other),
            *final(self) == (FleetManager { entries: final(self).entries, ..*old(self) }),
    {
        let ghost before = *self;
        let ledger = installation.ledger;
        let mut at: usize = 0;
        while at < self.entries.len() && self.entries[at].installation.ledger.is_below(&ledger)
            invariant
                *self == before,
                at <= self.entries@.len(),
                forall|j: int|
                    0 <= j < at ==> (#[trigger] self.entries@[j]).installation.ledger.below(ledger),
            decreases self.entries@.len() - at,
        {
            at += 1;
        }
        let entry = Entry { installation, stopped: false };
        self.entries.insert(at, entry);
        proof {
            let was = before.entries@;
            let now = self.entries@;
            assert(now =~= was.insert(at as int, entry));
            assert forall|j: int| at <= j < was.len() implies ledger.below(
                (#[trigger] was[j]).installation.ledger,
            ) by {
                ledgers_are_ordered(was[at as int].installation.ledger, ledger, ledger);
                if was[at as int].installation.ledger == ledger {
                    assert(entry_at(was, ledger, at as int));
                }
                if j > at {
                    ledgers_are_ordered(
                        ledger,
                        was[at as int].installation.ledger,
                        was[j].installation.ledger,
                    );
                }
            }
            assert forall|i: int, j: int| 0 <= i < j < now.len() implies #[trigger] now[i].installation.ledger.below(
            #[trigger] now[j].installation.ledger) by {
                if i == at {
                    assert(now[j] == was[j - 1]);
                } else if j == at {
                    assert(now[i] == was[i]);
                } else {
                    let p = if i < at {
                        i
                    } else {
                        i - 1
                    };
                    let q = if j < at {
                        j
                    } else {
                        j - 1
                    };
                    assert(was[p].installation.ledger.below(was[q].installation.ledger));
                }
            }
            assert forall|i: int, j: int| 0 <= i < j < now.len() implies #[trigger] now[i].installation.group
                != #[trigger] now[j].installation.group by {
                if i == at {
                    assert(was[j - 1].installation.group != installation.group);
                } else if j == at {
                    assert(was[i].installation.group != installation.group);
                } else {
                    let p = if i < at {
                        i
                    } else {
                        i - 1
                    };
                    let q = if j < at {
                        j
                    } else {
                        j - 1
                    };
                    assert(was[p].installation.group != was[q].installation.group);
                }
            }
            assert forall|i: int| 0 <= i < now.len() implies (
            #[trigger] now[i]).installation.incarnation.owner == before.owner
                && now[i].installation.incarnation.sequence <= before.sequence by {
                if i < at {
                    assert(now[i] == was[i]);
                } else if i > at {
                    assert(now[i] == was[i - 1]);
                }
            }
            assert(entry_at(now, ledger, at as int));
            lemma_entry(now, at as int);
            assert forall|other: LedgerId| other != ledger implies #[trigger] self.entry(other)
                == before.entry(other) by {
                if exists|i: int| entry_at(was, other, i) {
                    let i = choose|i: int| entry_at(was, other, i);
                    let p = if i < at {
                        i
                    } else {
                        i + 1
                    };
                    assert(now[p] == was[i]);
                    assert(entry_at(now, other, p));
                    lemma_entry(now, p);
                } else if exists|i: int| entry_at(now, other, i) {
                    let i = choose|i: int| entry_at(now, other, i);
                    let p = if i < at {
                        i
                    } else {
                        i - 1
                    };
                    assert(now[i] == was[p]);
                    assert(entry_at(was, other, p));
                }
            }
        }
    }

    /// Whether `after` is the registry once an operation has installed a
    /// session: its entry is there, the latest operation can be said again,
    /// and nothing else has changed.
    pub open spec fn installs_into(
        self,
        after: Self,
        sequence: u64,
        installation: FleetInstallation,
        running: nat,
    ) -> bool {
        &&& after == (FleetManager {
            entries: after.entries,
            latest: Some(Latest::Installed(installation)),
            sequence,
            status: FleetStatus {
                latest_sequence: sequence,
                installed: (self.entries@.len() + 1) as usize,
                running: running as usize,
                stopped: false,
            },
            ..self
        })
        &&& after.entry(installation.ledger) == Some(Entry { installation, stopped: false })
        &&& forall|other: LedgerId|
            other != installation.ledger ==> #[trigger] after.entry(other) == self.entry(other)
    }

    /// Whether `after` is the registry once an operation has removed a
    /// session: its entry is gone, and nothing else has changed.
    pub open spec fn removes_from(
        self,
        after: Self,
        sequence: u64,
        removal: FleetRemoval,
        running: nat,
    ) -> bool {
        &&& after == (FleetManager {
            entries: after.entries,
            latest: Some(Latest::Removed(removal)),
            sequence,
            status: FleetStatus {
                latest_sequence: sequence,
                installed: (self.entries@.len() - 1) as usize,
                running: running as usize,
                stopped: false,
            },
            ..self
        })
        &&& after.entry(removal.ledger) is None
        &&& forall|other: LedgerId|
            other != removal.ledger ==> #[trigger] after.entry(other) == self.entry(other)
    }

    /// Install a candidate into the worker, or say again what the very same
    /// operation installed.
    pub fn install(
        &mut self,
        group: &mut GroupOwner,
        sequence: u64,
        candidate: &Candidate,
        granted: bool,
        now: u64,
    ) -> (installed: Result<FleetInstallation, FleetError>)
        requires
            old(self).wf(),
            old(group).wf(),
            old(self).covers(*old(group)),
        ensures
            final(self).wf(),
            final(group).wf(),
            final(self).covers(*final(group)),
            final(self).same_policy(*old(self)),
            final(self).tenants@ == old(self).tenants@,
            installed == old(self).installs(sequence, *candidate, granted),
            if sequence == old(self).sequence || installed is Err {
                *final(self) == *old(self) && *final(group) == *old(group)
            } else {
                (installed matches Ok(installation) && old(self).installs_into(
                    *final(self),
                    sequence,
                    installation,
                    final(group).sessions@.len(),
                )) && seats(*old(group), *final(group), candidate.ledger, sequence, now)
            },
    {
        if sequence == self.sequence {
            return match self.retry(sequence) {
                Err(error) => Err(error),
                Ok(previous) => if previous.ledger.same(&candidate.ledger) && same_16(
                    &previous.group,
                    &candidate.group,
                ) && previous.config.same(&candidate.config) && previous.writer
                    == candidate.writer {
                    Ok(previous)
                } else {
                    Err(FleetError::Conflict)
                },
            };
        }
        match self.next(sequence) {
            Ok(_) => {},
            Err(error) => return Err(error),
        }
        if self.quiesced {
            return Err(FleetError::Unavailable);
        }
        if self.find(&candidate.ledger).is_some() || self.is_grouped(&candidate.group) {
            return Err(FleetError::Conflict);
        }
        if self.entries.len() >= self.max_sessions {
            return Err(FleetError::Capacity);
        }
        if !self.is_admitted(&candidate.ledger.tenant) {
            return Err(FleetError::InvalidSession);
        }
        let route = match candidate.active_route {
            Some(route) => route == candidate.config.route_epoch,
            None => true,
        };
        if !granted || !route {
            return Err(FleetError::Capacity);
        }
        let installation = FleetInstallation {
            ledger: candidate.ledger,
            group: candidate.group,
            incarnation: FleetIncarnation { owner: self.owner, sequence },
            config: candidate.config,
            writer: candidate.writer,
        };
        let ghost before = *self;
        let ghost group_before = *group;
        assert(group.session(candidate.ledger) is None);
        group.install(candidate.ledger, sequence, now);
        self.sequence = sequence;
        self.status = FleetStatus {
            latest_sequence: sequence,
            installed: self.entries.len(),
            running: self.status.running,
            stopped: false,
        };
        assert(self.entry(candidate.ledger) == before.entry(candidate.ledger));
        let ghost middle = *self;
        self.place(installation);
        let ghost placed = *self;
        self.latest = Some(Latest::Installed(installation));
        self.status = FleetStatus {
            latest_sequence: sequence,
            installed: self.entries.len(),
            running: group.sessions.len(),
            stopped: false,
        };
        proof {
            assert forall|other: LedgerId| other != candidate.ledger implies #[trigger] self.entry(
                other,
            ) == before.entry(other) by {
                assert(middle.entry(other) == before.entry(other));
                assert(placed.entry(other) == middle.entry(other));
                assert(self.entry(other) == placed.entry(other));
            }
            assert(self.entry(candidate.ledger) == placed.entry(candidate.ledger));
            assert forall|ledger: LedgerId| #[trigger] group.session(ledger) is Some implies self.entry(
                ledger,
            ) is Some by {
                if ledger != candidate.ledger {
                    assert(group_before.session(ledger) is Some);
                }
            }
        }
        Ok(installation)
    }

    /// Why a removal is refused, or the removal it makes.
    pub open spec fn removes(self, group: GroupOwner, sequence: u64, removal: FleetRemoval) -> Result<
        FleetRemoval,
        FleetError,
    > {
        if sequence == self.sequence {
            if self.latest == Some(Latest::Removed(removal)) {
                Ok(removal)
            } else {
                Err(FleetError::Conflict)
            }
        } else {
            match self.follows(sequence) {
                Err(error) => Err(error),
                Ok(_) => match self.entry(removal.ledger) {
                    Some(entry) => if entry.installation.incarnation != removal.incarnation {
                        Err(FleetError::Conflict)
                    } else if group.session(removal.ledger) is Some || !entry.stopped {
                        Err(FleetError::Running)
                    } else {
                        Ok(removal)
                    },
                    None => Err(FleetError::Conflict),
                },
            }
        }
    }

    /// Retire an incarnation that has stopped; nothing of its log is deleted
    /// or truncated.
    pub fn remove(&mut self, group: &GroupOwner, sequence: u64, removal: &FleetRemoval) -> (removed:
        Result<FleetRemoval, FleetError>)
        requires
            old(self).wf(),
            group.wf(),
            old(self).covers(*group),
        ensures
            final(self).wf(),
            final(self).covers(*group),
            final(self).same_policy(*old(self)),
            final(self).tenants@ == old(self).tenants@,
            removed == old(self).removes(*group, sequence, *removal),
            if sequence == old(self).sequence || removed is Err {
                *final(self) == *old(self)
            } else {
                old(self).removes_from(
                    *final(self),
                    sequence,
                    *removal,
                    group.sessions@.len(),
                )
            },
    {
        if sequence == self.sequence {
            let same = match &self.latest {
                Some(Latest::Removed(previous)) => previous.ledger.same(&removal.ledger)
                    && previous.incarnation == removal.incarnation,
                _ => false,
            };
            return if same {
                Ok(*removal)
            } else {
                Err(FleetError::Conflict)
            };
        }
        match self.next(sequence) {
            Ok(_) => {},
            Err(error) => return Err(error),
        }
        let at: usize = match self.find(&removal.ledger) {
            Some(at) => at,
            None => return Err(FleetError::Conflict),
        };
        let entry = self.entries[at];
        if entry.installation.incarnation != removal.incarnation {
            return Err(FleetError::Conflict);
        }
        if group.runs(&removal.ledger) || !entry.stopped {
            return Err(FleetError::Running);
        }
        let ghost before = *self;
        self.entries.remove(at);
        self.latest = Some(Latest::Removed(*removal));
        self.sequence = sequence;
        self.status = FleetStatus {
            latest_sequence: sequence,
            installed: self.entries.len(),
            running: group.sessions.len(),
            stopped: false,
        };
        proof {
            let was = before.entries@;
            let now = self.entries@;
            assert(now =~= was.remove(at as int));
            assert forall|i: int| 0 <= i < now.len() implies #[trigger] now[i] == (if i < at {
                was[i]
            } else {
                was[i + 1]
            }) by {}
            assert forall|i: int, j: int| 0 <= i < j < now.len() implies #[trigger] now[i].installation.ledger.below(
            #[trigger] now[j].installation.ledger) && now[i].installation.group
                != now[j].installation.group by {
                let p = if i < at {
                    i
                } else {
                    i + 1
                };
                let q = if j < at {
                    j
                } else {
                    j + 1
                };
                assert(was[p].installation.ledger.below(was[q].installation.ledger));
                assert(was[p].installation.group != was[q].installation.group);
            }
            assert forall|i: int, j: int| 0 <= i < j < now.len() implies #[trigger] now[i].installation.group
                != #[trigger] now[j].installation.group by {
                assert(now[i].installation.ledger.below(now[j].installation.ledger));
            }
            assert forall|other: LedgerId| other != removal.ledger implies #[trigger] self.entry(
                other,
            ) == before.entry(other) by {
                if exists|i: int| entry_at(was, other, i) {
                    let i = choose|i: int| entry_at(was, other, i);
                    let p = if i < at {
                        i
                    } else {
                        i - 1
                    };
                    assert(now[p] == was[i]);
                    assert(entry_at(now, other, p));
                    lemma_entry(now, p);
                } else if exists|i: int| entry_at(now, other, i) {
                    let i = choose|i: int| entry_at(now, other, i);
                    let p = if i < at {
                        i
                    } else {
                        i + 1
                    };
                    assert(entry_at(was, other, p));
                }
            }
            if exists|i: int| entry_at(now, removal.ledger, i) {
                let i = choose|i: int| entry_at(now, removal.ledger, i);
                let p = if i < at {
                    i
                } else {
                    i + 1
                };
                ledgers_are_ordered(removal.ledger, removal.ledger, removal.ledger);
                if p < at {
                    assert(was[p].installation.ledger.below(was[at as int].installation.ledger));
                } else {
                    assert(was[at as int].installation.ledger.below(was[p].installation.ledger));
                }
            }
        }
        Ok(*removal)
    }

    /// A session's owner has stopped.
    pub fn stopped(&mut self, ledger: &LedgerId)
        requires
            old(self).wf(),
        ensures
            final(self).wf(),
            *final(self) == (FleetManager { entries: final(self).entries, ..*old(self) }),
            final(self).entry(*ledger) == (match old(self).entry(*ledger) {
                Some(entry) => Some(Entry { stopped: true, ..entry }),
                None => None::<Entry>,
            }),
            forall|other: LedgerId|
                other != *ledger ==> #[trigger] final(self).entry(other) == old(self).entry(other),
    {
        let ghost before = *self;
        match self.find(ledger) {
            Some(at) => {
                let installation = self.entries[at].installation;
                self.entries.set(at, Entry { installation, stopped: true });
                proof {
                    let was = before.entries@;
                    let now = self.entries@;
                    assert forall|i: int| 0 <= i < now.len() implies (
                    #[trigger] now[i]).installation == was[i].installation by {}
                    assert forall|i: int, j: int| 0 <= i < j < now.len() implies #[trigger] now[i].installation.ledger.below(
                    #[trigger] now[j].installation.ledger) && now[i].installation.group
                        != now[j].installation.group by {
                        assert(was[i].installation.ledger.below(was[j].installation.ledger));
                        assert(was[i].installation.group != was[j].installation.group);
                    }
                    assert forall|i: int, j: int| 0 <= i < j < now.len() implies #[trigger] now[i].installation.group
                        != #[trigger] now[j].installation.group by {
                        assert(now[i].installation.ledger.below(now[j].installation.ledger));
                    }
                    assert forall|i: int| 0 <= i < now.len() implies (
                    #[trigger] now[i]).installation.incarnation.owner == self.owner
                        && now[i].installation.incarnation.sequence <= self.sequence by {
                        assert(was[i].installation.incarnation.owner == self.owner);
                    }
                    assert(entry_at(now, *ledger, at as int));
                    lemma_entry(now, at as int);
                    assert forall|other: LedgerId| other != *ledger implies #[trigger] self.entry(
                        other,
                    ) == before.entry(other) by {
                        if exists|i: int| entry_at(was, other, i) {
                            let i = choose|i: int| entry_at(was, other, i);
                            assert(entry_at(now, other, i));
                            lemma_entry(now, i);
                        } else if exists|i: int| entry_at(now, other, i) {
                            let i = choose|i: int| entry_at(now, other, i);
                            assert(entry_at(was, other, i));
                        }
                    }
                }
            },
            None => {},
        }
    }

    /// Route and install nothing any more.
    pub fn quiesce(&mut self)
        ensures
            *final(self) == (FleetManager { quiesced: true, ..*old(self) }),
    {
        self.quiesced = true;
    }
}

/// Whether `after` is the worker once a session was seated: it is looked at
/// now, under its incarnation, and every other session is as it was.
pub open spec fn seats(
    before: GroupOwner,
    after: GroupOwner,
    ledger: LedgerId,
    incarnation: u64,
    now: u64,
) -> bool {
    &&& after.session(ledger) == Some(
        GroupSession { ledger, incarnation, wake_at: now, stopping: false, persistence: false },
    )
    &&& forall|other: LedgerId|
        other != ledger ==> #[trigger] after.session(other) == before.session(other)
    &&& after.nonce == before.nonce
    &&& after.sessions@.len() == before.sessions@.len() + 1
}

/// What a manager asks of its worker.
#[derive(Debug, Clone, Copy, PartialEq, Eq)]
pub enum ManagementWork {
    /// Install a candidate; `granted` is whether its own allowances were.
    Install { sequence: u64, candidate: Candidate, granted: bool },
    /// Say again what an operation installed.
    Retry { sequence: u64 },
    Inspect { ledger: LedgerId },
    Remove { sequence: u64, removal: FleetRemoval },
    /// Route and install nothing any more.
    Quiesce,
    /// Stop the worker.
    Shutdown,
}

/// What the manager is answered.
#[derive(Debug, PartialEq, Eq)]
pub enum ManagementReply {
    Installed(Result<FleetInstallation, FleetError>),
    Inspected(Option<FleetInstallation>),
    Removed(Result<FleetRemoval, FleetError>),
    Done,
}

impl FleetManager {
    /// What the manager is answered.
    pub open spec fn replies(self, group: GroupOwner, work: ManagementWork) -> ManagementReply {
        match work {
            ManagementWork::Install { sequence, candidate, granted } => ManagementReply::Installed(
                self.installs(sequence, candidate, granted),
            ),
            ManagementWork::Retry { sequence } => ManagementReply::Installed(self.again(sequence)),
            ManagementWork::Inspect { ledger } => ManagementReply::Inspected(
                match self.entry(ledger) {
                    Some(entry) => Some(entry.installation),
                    None => None,
                },
            ),
            ManagementWork::Remove { sequence, removal } => ManagementReply::Removed(
                self.removes(group, sequence, removal),
            ),
            _ => ManagementReply::Done,
        }
    }

    /// Do what a manager asks; the flag tells that the worker stops.
    pub fn handle(&mut self, group: &mut GroupOwner, work: ManagementWork, now: u64) -> (handled: (
        ManagementReply,
        bool,
    ))
        requires
            old(self).wf(),
            old(group).wf(),
            old(self).covers(*old(group)),
        ensures
            final(self).wf(),
            final(group).wf(),
            final(self).covers(*final(group)),
            handled.0 == old(self).replies(*old(group), work),
            handled.1 == (work is Shutdown),
            !(work is Install) ==> *final(group) == *old(group),
            match work {
                ManagementWork::Quiesce => *final(self) == (FleetManager {
                    quiesced: true,
                    ..*old(self)
                }),
                ManagementWork::Install { sequence, candidate, .. } => {
                    let installed = handled.0->Installed_0;
                    if sequence == old(self).sequence || installed is Err {
                        *final(self) == *old(self) && *final(group) == *old(group)
                    } else {
                        old(self).installs_into(
                            *final(self),
                            sequence,
                            installed->Ok_0,
                            final(group).sessions@.len(),
                        ) && seats(*old(group), *final(group), candidate.ledger, sequence, now)
                    }
                },
                ManagementWork::Remove { sequence, removal } => {
                    if sequence == old(self).sequence || handled.0->Removed_0 is Err {
                        *final(self) == *old(self)
                    } else {
                        old(self).removes_from(
                            *final(self),
                            sequence,
                            removal,
                            final(group).sessions@.len(),
                        )
                    }
                },
                _ => *final(self) == *old(self),
            },
    {
        match work {
            ManagementWork::Install { sequence, candidate, granted } => (
                ManagementReply::Installed(self.install(group, sequence, &candidate, granted, now)),
                false,
            ),
            ManagementWork::Retry { sequence } => (
                ManagementReply::Installed(self.retry(sequence)),
                false,
            ),
            ManagementWork::Inspect { ledger } => (
                ManagementReply::Inspected(self.inspect(&ledger)),
                false,
            ),
            ManagementWork::Remove { sequence, removal } => (
                ManagementReply::Removed(self.remove(group, sequence, &removal)),
                false,
            ),
            ManagementWork::Quiesce => {
                self.quiesce();
                (ManagementReply::Done, false)
            },
            ManagementWork::Shutdown => (ManagementReply::Done, true),
        }
    }
}

proof fn lemma_entry(entries: Seq<Entry>, i: int)
    requires
        ordered(entries),
        0 <= i < entries.len(),
    ensures
        entry_of(entries, entries[i].installation.ledger) == Some(entries[i]),
{
    let ledger = entries[i].installation.ledger;
    assert(entry_at(entries, ledger, i));
    let k = choose|k: int| entry_at(entries, ledger, k);
    assert(entry_at(entries, ledger, k));
    ledgers_are_ordered(ledger, ledger, ledger);
    if k < i {
        assert(entries[k].installation.ledger.below(entries[i].installation.ledger));
    } else if i < k {
        assert(entries[i].installation.ledger.below(entries[k].installation.ledger));
    }
}

/// The stop of a whole fleet: one session after the other, none twice, and
/// then the worker.
#[derive(Debug, Clone, Copy, PartialEq, Eq)]
pub struct StopAll {
    pub after: Option<LedgerId>,
    pub complete: bool,
}

impl StopAll {
    /// A stop that has not begun.
    pub fn new() -> (stop: Self)
        ensures
            stop == (StopAll { after: None, complete: true }),
    {
        StopAll { after: None, complete: true }
    }

    /// The next session that is stopped.
    pub fn next(&mut self, fleet: &FleetManager) -> (next: Option<FleetInstallation>)
        ensures
            final(self).complete == old(self).complete,
            match next {
                Some(host) => final(self).after == Some(host.ledger) && exists|i: int|
                    #[trigger] first_running(fleet.entries@, old(self).after, i)
                        && fleet.entries@[i].installation == host,
                None => final(self).after == old(self).after && forall|i: int|
                    0 <= i < fleet.entries@.len() ==> !runs_after(
                        #[trigger] fleet.entries@[i],
                        old(self).after,
                    ),
            },
    {
        match fleet.running_after(&self.after) {
            Some(at) => {
                assert(first_running(fleet.entries@, self.after, at as int));
                let host = fleet.entries[at].installation;
                self.after = Some(host.ledger);
                Some(host)
            },
            None => None,
        }
    }

    /// Take what a session's stop came to.
    pub fn stopped(&mut self, done: bool)
        ensures
            *final(self) == (StopAll { complete: old(self).complete && done, ..*old(self) }),
    {
        if !done {
            self.complete = false;
        }
    }

    /// What the stop came to, once the worker was shut down: a session whose
    /// stop was interrupted keeps its unknown outcomes.
    pub fn finish(&self, shutdown: Result<(), FleetError>) -> (done: Result<(), FleetError>)
        ensures
            done == (match shutdown {
                Err(error) => Err::<(), FleetError>(error),
                Ok(_) => if self.complete {
                    Ok::<(), FleetError>(())
                } else {
                    Err::<(), FleetError>(FleetError::Unavailable)
                },
            }),
    {
        match shutdown {
            Err(error) => Err(error),
            Ok(_) => if self.complete {
                Ok(())
            } else {
                Err(FleetError::Unavailable)
            },
        }
    }
}

/// An installation whose answer was lost can be retried: the very same
/// operation answers the same installation, and changes nothing.
pub proof fn an_installation_can_be_retried(
    before: FleetManager,
    after: FleetManager,
    sequence: u64,
    candidate: Candidate,
    granted: bool,
    again: bool,
    installation: FleetInstallation,
)
    requires
        sequence != before.sequence,
        before.installs(sequence, candidate, granted) == Ok::<FleetInstallation, FleetError>(
            installation,
        ),
        after.sequence == sequence,
        after.latest == Some(Latest::Installed(installation)),
    ensures
        after.installs(sequence, candidate, again) == Ok::<FleetInstallation, FleetError>(
            installation,
        ),
{
}

/// No incarnation is ever used twice: a new one is later than all that are
/// installed.
pub proof fn incarnations_are_fresh(
    fleet: FleetManager,
    sequence: u64,
    candidate: Candidate,
    granted: bool,
    installation: FleetInstallation,
    i: int,
)
    requires
        fleet.wf(),
        sequence != fleet.sequence,
        fleet.installs(sequence, candidate, granted) == Ok::<FleetInstallation, FleetError>(
            installation,
        ),
        0 <= i < fleet.entries@.len(),
    ensures
        fleet.entries@[i].installation.incarnation != installation.incarnation,
        installation.incarnation.sequence == fleet.sequence + 1,
{
    assert(fleet.entries@[i].installation.incarnation.sequence <= fleet.sequence);
}

/// Only a session that has stopped is removed, and only the very incarnation
/// that is meant.
pub proof fn only_the_stopped_are_removed(
    fleet: FleetManager,
    group: GroupOwner,
    sequence: u64,
    removal: FleetRemoval,
)
    requires
        sequence != fleet.sequence,
        fleet.removes(group, sequence, removal) is Ok,
    ensures
        fleet.entry(removal.ledger) matches Some(entry) && entry.stopped
            && entry.installation.incarnation == removal.incarnation,
        group.session(removal.ledger) is None,
{
}

/// A fleet that was quiesced installs nothing new.
pub proof fn a_quiesced_fleet_installs_nothing(
    fleet: FleetManager,
    sequence: u64,
    candidate: Candidate,
    granted: bool,
)
    requires
        fleet.quiesced,
        sequence != fleet.sequence,
    ensures
        fleet.installs(sequence, candidate, granted) is Err,
{
}

} // verus!
