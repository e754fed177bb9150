//! The contexts quorum reads are asked under: each is used once.
use crate::codec::append;
use crate::hashing::same_bytes;
use crate::ids::{append_be, be_bytes};
use vstd::prelude::*;
use vstd::utf8::encode_utf8;

verus! {

/// The context of a read: what it is for and the owner's running number.
pub open spec fn context_of(purpose: Seq<char>, nonce: u64) -> Seq<u8> {
    encode_utf8(purpose) + be_bytes(nonce)
}

/// The context of a read for a request of a principal.
pub open spec fn request_context_of(
    purpose: Seq<char>,
    nonce: u64,
    principal: [u8; 16],
    request: [u8; 16],
) -> Seq<u8> {
    context_of(purpose, nonce) + principal@ + request@
}

/// Write the context of a read.
pub fn context(purpose: &str, nonce: u64) -> (bytes: Vec<u8>)
    ensures
        bytes@ == context_of(purpose@, nonce),
{
    let mut bytes: Vec<u8> = Vec::new();
    append(&mut bytes, purpose.as_bytes());
    append_be(&mut bytes, nonce);
    assert(bytes@ =~= context_of(purpose@, nonce));
    bytes
}

/// Write the context of a read for a request of a principal.
pub fn request_context(
    purpose: &str,
    nonce: u64,
    principal: &[u8; 16],
    request: &[u8; 16],
) -> (bytes: Vec<u8>)
    ensures
        bytes@ == request_context_of(purpose@, nonce, *principal, *request),
{
    let mut bytes = context(purpose, nonce);
    append(&mut bytes, principal.as_slice());
    append(&mut bytes, request.as_slice());
    bytes
}

/// What an owner knows of the reads it asked for: those that were answered,
/// each by its context and with its index, and how far it has applied.
#[derive(Debug, Clone, PartialEq, Eq)]
pub struct Reads {
    pub states: Vec<(Vec<u8>, u64)>,
    pub applied_index: u64,
}

impl Reads {
    /// Whether the read under a context was answered, within what is applied.
    pub open spec fn answers(self, context: Seq<u8>) -> bool {
        exists|i: int|
            0 <= i < self.states@.len() && (#[trigger] self.states@[i]).0@ == context
                && self.states@[i].1 <= self.applied_index
    }

    /// Whether the read under a context was answered, within what is applied.
    pub fn answered(&self, context: &[u8]) -> (answered: bool)
        ensures
            answered == self.answers(context@),
    {
        let mut i: usize = 0;
        while i < self.states.len()
            invariant
                i <= self.states.len(),
                forall|j: int|
                    0 <= j < i ==> !((#[trigger] self.states@[j]).0@ == context@
                        && self.states@[j].1 <= self.applied_index),
            decreases self.states.len() - i,
        {
            if self.states[i].1 <= self.applied_index && same_bytes(
                self.states[i].0.as_slice(),
                context,
            ) {
                assert(self.states@[i as int].0@ == context@);
                return true;
            }
            i += 1;
        }
        false
    }
}

/// Two reads under different numbers have different contexts, whatever else
/// they share.
pub proof fn contexts_differ(purpose: Seq<char>, a: u64, b: u64)
    requires
        a != b,
    ensures
        context_of(purpose, a) != context_of(purpose, b),
{
    if context_of(purpose, a) == context_of(purpose, b) {
        let n = encode_utf8(purpose).len() as int;
        assert forall|i: int| 0 <= i < 8 implies be_bytes(a)[i] == be_bytes(b)[i] by {
            assert(context_of(purpose, a)[n + i] == be_bytes(a)[i]);
            assert(context_of(purpose, b)[n + i] == be_bytes(b)[i]);
        }
        crate::ids::big_endian_is_one_to_one(a, b);
    }
}

/// The reads of two requests differ where their numbers, their principals or the
/// requests do.
pub proof fn requests_have_their_own_contexts(
    purpose: Seq<char>,
    a: (u64, [u8; 16], [u8; 16]),
    b: (u64, [u8; 16], [u8; 16]),
)
    requires
        request_context_of(purpose, a.0, a.1, a.2) == request_context_of(purpose, b.0, b.1, b.2),
    ensures
        a.0 == b.0,
        a.1@ == b.1@,
        a.2@ == b.2@,
{
    let (x, y) = (
        request_context_of(purpose, a.0, a.1, a.2),
        request_context_of(purpose, b.0, b.1, b.2),
    );
    let n = encode_utf8(purpose).len() as int;
    assert(x.take(n + 8) =~= context_of(purpose, a.0));
    assert(y.take(n + 8) =~= context_of(purpose, b.0));
    if a.0 != b.0 {
        contexts_differ(purpose, a.0, b.0);
    }
    assert(x.subrange(n + 8, n + 24) =~= a.1@);
    assert(y.subrange(n + 8, n + 24) =~= b.1@);
    assert(x.skip(n + 24) =~= a.2@);
    assert(y.skip(n + 24) =~= b.2@);
}

} // verus!
