//! Local observations of a physical owner. They are no quorum reads.
use crate::text::{hex, hex_text};
use vstd::prelude::*;

verus! {

/// Bytes a diagnosis is charged: the transient copies of the membership, its
/// bounded texts and what delivers it.
pub const DIAGNOSTICS_BYTES: usize = 64 * 1024;

/// What a session's owner sees of itself.
#[derive(Debug, Clone, Copy, PartialEq, Eq)]
pub struct SessionFacts {
    pub node: u64,
    pub cluster: [u8; 16],
    pub group: [u8; 16],
    pub leader: u64,
    pub term: u64,
    pub committed_index: u64,
    pub applied_index: u64,
    pub sequence: u64,
    pub pending: usize,
    pub authoritative: bool,
    pub persistence_pending: bool,
    pub checkpoint_pending: bool,
    pub compiled_decoder: [u8; 32],
    /// The decoder the session's own durable floor requires.
    pub required_decoder: Option<[u8; 32]>,
    pub managed_active: bool,
    pub native_active: bool,
    pub native_authoritative: bool,
    pub native_import_pending: bool,
}

/// What an operator is shown of a replica.
#[derive(Debug, Clone, PartialEq, Eq)]
pub struct ReplicaDiagnostics {
    pub node: u64,
    pub cluster: String,
    pub session: String,
    pub group: String,
    pub leader: u64,
    pub term: u64,
    pub committed_index: u64,
    pub applied_index: u64,
    pub sequence: u64,
    pub pending: usize,
    pub authoritative: bool,
    pub persistence_pending: bool,
    pub checkpoint_pending: bool,
    pub compiled_managed_decoder: String,
    pub required_decoder: Option<String>,
    pub managed_active: bool,
    pub native_active: bool,
    pub native_authoritative: bool,
    pub native_import_pending: bool,
}

impl ReplicaDiagnostics {
    /// Whether what is shown is what the owner sees.
    pub open spec fn shows(self, facts: SessionFacts, session: Seq<char>) -> bool {
        &&& self.node == facts.node
        &&& self.cluster@ == hex_text(facts.cluster@)
        &&& self.session@ == session
        &&& self.group@ == hex_text(facts.group@)
        &&& self.leader == facts.leader
        &&& self.term == facts.term
        &&& self.committed_index == facts.committed_index
        &&& self.applied_index == facts.applied_index
        &&& self.sequence == facts.sequence
        &&& self.pending == facts.pending
        &&& self.authoritative == facts.authoritative
        &&& self.persistence_pending == facts.persistence_pending
        &&& self.checkpoint_pending == facts.checkpoint_pending
        &&& self.compiled_managed_decoder@ == hex_text(facts.compiled_decoder@)
        &&& match (self.required_decoder, facts.required_decoder) {
            (Some(shown), Some(decoder)) => shown@ == hex_text(decoder@),
            (None, None) => true,
            _ => false,
        }
        &&& self.managed_active == facts.managed_active
        &&& self.native_active == facts.native_active
        &&& self.native_authoritative == facts.native_authoritative
        &&& self.native_import_pending == facts.native_import_pending
    }

    /// Show what an owner sees, of the session with this name.
    pub fn diagnostics(facts: &SessionFacts, session: String) -> (shown: Self)
        ensures
            shown.shows(*facts, session@),
    {
        let required = match &facts.required_decoder {
            Some(decoder) => Some(hex(decoder.as_slice())),
            None => None,
        };
        ReplicaDiagnostics {
            node: facts.node,
            cluster: hex(facts.cluster.as_slice()),
            session,
            group: hex(facts.group.as_slice()),
            leader: facts.leader,
            term: facts.term,
            committed_index: facts.committed_index,
            applied_index: facts.applied_index,
            sequence: facts.sequence,
            pending: facts.pending,
            authoritative: facts.authoritative,
            persistence_pending: facts.persistence_pending,
            checkpoint_pending: facts.checkpoint_pending,
            compiled_managed_decoder: hex(facts.compiled_decoder.as_slice()),
            required_decoder: required,
            managed_active: facts.managed_active,
            native_active: facts.native_active,
            native_authoritative: facts.native_authoritative,
            native_import_pending: facts.native_import_pending,
        }
    }
}

} // verus!
