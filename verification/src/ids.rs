//! Identities of tenants, sessions and the ledgers they own.
use crate::hashing::same_16;
use vstd::arithmetic::div_mod::lemma_div_denominator;
use vstd::prelude::*;

verus! {

/// A session's ledger: the tenant that owns it and the session.
#[derive(Debug, Clone, Copy, PartialEq, Eq, PartialOrd, Ord, Hash)]
pub struct LedgerId {
    pub tenant: [u8; 16],
    pub session: [u8; 16],
}

impl LedgerId {
    /// Whether two ledgers are the same.
    pub fn same(&self, other: &Self) -> (same: bool)
        ensures
            same == (*self == *other),
    {
        same_16(&self.tenant, &other.tenant) && same_16(&self.session, &other.session)
    }

    /// Whether a ledger stands before another: by tenant, then by session.
    pub open spec fn below(self, other: Self) -> bool {
        id_before(self.tenant, other.tenant, 0) || (self.tenant == other.tenant && id_before(
            self.session,
            other.session,
            0,
        ))
    }

    /// Whether a ledger stands before another.
    pub fn is_below(&self, other: &Self) -> (below: bool)
        ensures
            below == self.below(*other),
    {
        is_before(&self.tenant, &other.tenant) || (same_16(&self.tenant, &other.tenant)
            && is_before(&self.session, &other.session))
    }
}

/// Whether an identity stands before another, byte by byte from `from` on.
pub open spec fn id_before(a: [u8; 16], b: [u8; 16], from: int) -> bool
    decreases 16 - from,
{
    if from < 0 || from >= 16 {
        false
    } else if a@[from] != b@[from] {
        a@[from] < b@[from]
    } else {
        id_before(a, b, from + 1)
    }
}

/// Whether an identity stands before another.
pub fn is_before(a: &[u8; 16], b: &[u8; 16]) -> (before: bool)
    ensures
        before == id_before(*a, *b, 0),
{
    let mut i: usize = 0;
    while i < 16
        invariant
            i <= 16,
            id_before(*a, *b, 0) == id_before(*a, *b, i as int),
        decreases 16 - i,
    {
        if a[i] != b[i] {
            assert(a@[i as int] != b@[i as int]);
            return a[i] < b[i];
        }
        assert(a@[i as int] == b@[i as int]);
        i += 1;
    }
    false
}

/// Standing before is a total order.
pub proof fn lemma_order(a: [u8; 16], b: [u8; 16], c: [u8; 16], from: int)
    requires
        0 <= from <= 16,
    ensures
        id_before(a, b, from) ==> !id_before(b, a, from),
        !id_before(b, a, from) && !id_before(c, b, from) ==> !id_before(c, a, from),
        !id_before(a, b, from) && !id_before(b, a, from) ==> forall|i: int|
            from <= i < 16 ==> a@[i] == b@[i],
    decreases 16 - from,
{
    if from < 16 {
        lemma_order(a, b, c, from + 1);
    }
}


/// Ledgers are totally ordered.
pub proof fn ledgers_are_ordered(a: LedgerId, b: LedgerId, c: LedgerId)
    ensures
        !a.below(a),
        a.below(b) ==> !b.below(a),
        a.below(b) && b.below(c) ==> a.below(c),
        a != b ==> a.below(b) || b.below(a),
{
    lemma_order(a.tenant, b.tenant, c.tenant, 0);
    lemma_order(b.tenant, a.tenant, c.tenant, 0);
    lemma_order(c.tenant, b.tenant, a.tenant, 0);
    lemma_order(b.tenant, c.tenant, a.tenant, 0);
    lemma_order(a.tenant, a.tenant, a.tenant, 0);
    lemma_order(a.session, b.session, c.session, 0);
    lemma_order(b.session, a.session, c.session, 0);
    lemma_order(c.session, b.session, a.session, 0);
    lemma_order(b.session, c.session, a.session, 0);
    lemma_order(a.session, a.session, a.session, 0);
    if !id_before(a.tenant, b.tenant, 0) && !id_before(b.tenant, a.tenant, 0) {
        assert(a.tenant =~= b.tenant);
    }
    if !id_before(a.session, b.session, 0) && !id_before(b.session, a.session, 0) {
        assert(a.session =~= b.session);
    }
    if !id_before(a.tenant, c.tenant, 0) && !id_before(c.tenant, a.tenant, 0) {
        lemma_order(a.tenant, c.tenant, a.tenant, 0);
        assert(a.tenant =~= c.tenant);
    }
    if !id_before(a.session, c.session, 0) && !id_before(c.session, a.session, 0) {
        lemma_order(a.session, c.session, a.session, 0);
        assert(a.session =~= c.session);
    }
}

/// A number's bytes, most significant first.
pub open spec fn be_bytes(x: u64) -> Seq<u8> {
    seq![
        (x / 0x100_0000_0000_0000) as u8,
        (x / 0x1_0000_0000_0000 % 0x100) as u8,
        (x / 0x100_0000_0000 % 0x100) as u8,
        (x / 0x1_0000_0000 % 0x100) as u8,
        (x / 0x100_0000 % 0x100) as u8,
        (x / 0x1_0000 % 0x100) as u8,
        (x / 0x100 % 0x100) as u8,
        (x % 0x100) as u8,
    ]
}

/// A number's bytes are its own.
pub proof fn big_endian_is_one_to_one(a: u64, b: u64)
    requires
        forall|i: int| 0 <= i < 8 ==> be_bytes(a)[i] == be_bytes(b)[i],
    ensures
        a == b,
{
    let (x, y) = (be_bytes(a), be_bytes(b));
    lemma_quotients(a);
    lemma_quotients(b);
    assert(x[0] == y[0]);
    assert(x[1] == y[1]);
    assert(x[2] == y[2]);
    assert(x[3] == y[3]);
    assert(x[4] == y[4]);
    assert(x[5] == y[5]);
    assert(x[6] == y[6]);
    assert(x[7] == y[7]);
}

proof fn lemma_quotients(x: u64)
    ensures
        x == x / 0x100 * 0x100 + x % 0x100,
        x / 0x100 == x / 0x1_0000 * 0x100 + x / 0x100 % 0x100,
        x / 0x1_0000 == x / 0x100_0000 * 0x100 + x / 0x1_0000 % 0x100,
        x / 0x100_0000 == x / 0x1_0000_0000 * 0x100 + x / 0x100_0000 % 0x100,
        x / 0x1_0000_0000 == x / 0x100_0000_0000 * 0x100 + x / 0x1_0000_0000 % 0x100,
        x / 0x100_0000_0000 == x / 0x1_0000_0000_0000 * 0x100 + x / 0x100_0000_0000 % 0x100,
        x / 0x1_0000_0000_0000 == x / 0x100_0000_0000_0000 * 0x100 + x / 0x1_0000_0000_0000 % 0x100,
        x / 0x100_0000_0000_0000 < 0x100,
{
    lemma_div_denominator(x as int, 0x100, 0x100);
    lemma_div_denominator(x as int, 0x1_0000, 0x100);
    lemma_div_denominator(x as int, 0x100_0000, 0x100);
    lemma_div_denominator(x as int, 0x1_0000_0000, 0x100);
    lemma_div_denominator(x as int, 0x100_0000_0000, 0x100);
    lemma_div_denominator(x as int, 0x1_0000_0000_0000, 0x100);
}

/// Append a number, most significant byte first.
pub fn append_be(out: &mut Vec<u8>, x: u64)
    ensures
        final(out)@ == old(out)@ + be_bytes(x),
{
    out.push((x / 0x100_0000_0000_0000) as u8);
    out.push((x / 0x1_0000_0000_0000 % 0x100) as u8);
    out.push((x / 0x100_0000_0000 % 0x100) as u8);
    out.push((x / 0x1_0000_0000 % 0x100) as u8);
    out.push((x / 0x100_0000 % 0x100) as u8);
    out.push((x / 0x1_0000 % 0x100) as u8);
    out.push((x / 0x100 % 0x100) as u8);
    out.push((x % 0x100) as u8);
    assert(out@ =~= old(out)@ + be_bytes(x));
}

/// The number of eight bytes, most significant first.
pub open spec fn be_value(b: Seq<u8>) -> int {
    b[0] * 0x100_0000_0000_0000 + b[1] * 0x1_0000_0000_0000 + b[2] * 0x100_0000_0000 + b[3]
        * 0x1_0000_0000 + b[4] * 0x100_0000 + b[5] * 0x1_0000 + b[6] * 0x100 + b[7]
}

/// Read a number at the front of an identity, most significant byte first.
pub fn front_number(id: &[u8; 16]) -> (x: u64)
    ensures
        x == be_value(id@),
{
    id[0] as u64 * 0x100_0000_0000_0000 + id[1] as u64 * 0x1_0000_0000_0000 + id[2] as u64
        * 0x100_0000_0000 + id[3] as u64 * 0x1_0000_0000 + id[4] as u64 * 0x100_0000 + id[5] as u64
        * 0x1_0000 + id[6] as u64 * 0x100 + id[7] as u64
}

/// A number is read back from its big-endian bytes.
pub proof fn a_number_is_read_back_from_its_bytes(x: u64)
    ensures
        be_bytes(x).len() == 8,
        be_value(be_bytes(x)) == x,
{
    lemma_quotients(x);
}

/// Identities are ordered by the first byte in which they differ.
pub proof fn the_first_difference_decides(a: [u8; 16], b: [u8; 16], from: int, at: int)
    requires
        0 <= from <= at < 16,
        forall|i: int| from <= i < at ==> a@[i] == b@[i],
        a@[at] != b@[at],
    ensures
        id_before(a, b, from) <==> a@[at] < b@[at],
    decreases at - from,
{
    if from < at {
        the_first_difference_decides(a, b, from + 1, at);
    }
}

/// Ledgers are ordered by tenant, and those of one tenant by session.
pub proof fn ledgers_are_ordered_by_tenant(a: LedgerId, b: LedgerId)
    ensures
        a.tenant != b.tenant ==> (a.below(b) <==> id_before(a.tenant, b.tenant, 0)),
        a.tenant == b.tenant ==> (a.below(b) <==> id_before(a.session, b.session, 0)),
{
    lemma_order(a.tenant, b.tenant, a.tenant, 0);
}

} // verus!
