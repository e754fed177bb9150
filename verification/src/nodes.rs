//! Sets of nodes, walked in ascending order.
use std::collections::BTreeSet;
use vstd::prelude::*;

verus! {

broadcast use vstd::std_specs::btree::group_btree_axioms;

/// Strictly ascending numbers.
pub open spec fn ascending(list: Seq<u64>) -> bool {
    forall|i: int, j: int| 0 <= i < j < list.len() ==> #[trigger] list[i] < #[trigger] list[j]
}

/// Whether a list names exactly a set's members, ascending.
pub open spec fn lists(list: Seq<u64>, set: Set<u64>) -> bool {
    &&& ascending(list)
    &&& forall|i: int| 0 <= i < list.len() ==> set.contains(#[trigger] list[i])
    &&& forall|n: u64| #[trigger] set.contains(n) ==> list.contains(n)
}

/// A set's members, ascending.
pub open spec fn in_order(set: Set<u64>) -> Seq<u64> {
    choose|list: Seq<u64>| lists(list, set)
}

/// Every finite set can be listed.
pub proof fn a_finite_set_is_listed(set: Set<u64>)
    requires
        set.finite(),
    ensures
        lists(in_order(set), set),
    decreases set.len(),
{
    let list = a_listing(set);
    assert(lists(list, set));
}

proof fn a_listing(set: Set<u64>) -> (list: Seq<u64>)
    requires
        set.finite(),
    ensures
        lists(list, set),
    decreases set.len(),
{
    if set.len() == 0 {
        assert(set =~= Set::empty());
        Seq::empty()
    } else {
        let top = a_greatest(set);
        let front = a_listing(set.remove(top));
        let list = front.push(top);
        assert forall|n: u64| #[trigger] set.contains(n) implies list.contains(n) by {
            if n == top {
                assert(list[front.len() as int] == top);
            } else {
                assert(set.remove(top).contains(n));
                let k = choose|k: int| 0 <= k < front.len() && front[k] == n;
                assert(list[k] == n);
            }
        }
        assert forall|i: int, j: int| 0 <= i < j < list.len() implies #[trigger] list[i]
            < #[trigger] list[j] by {
            if j == front.len() {
                assert(set.remove(top).contains(front[i]));
            }
        }
        list
    }
}

proof fn a_greatest(set: Set<u64>) -> (top: u64)
    requires
        set.finite(),
        set.len() > 0,
    ensures
        set.contains(top),
        forall|n: u64| #[trigger] set.contains(n) ==> n <= top,
    decreases set.len(),
{
    let one = set.choose();
    assert(set.contains(one));
    let rest = set.remove(one);
    if rest.len() == 0 {
        assert(rest =~= Set::empty());
        assert forall|n: u64| #[trigger] set.contains(n) implies n <= one by {
            assert(!rest.contains(n));
        }
        one
    } else {
        let other = a_greatest(rest);
        let top = if one < other {
            other
        } else {
            one
        };
        assert forall|n: u64| #[trigger] set.contains(n) implies n <= top by {
            if n != one {
                assert(rest.contains(n));
            }
        }
        top
    }
}

/// A set is listed in one way only.
pub proof fn a_list_is_unique(a: Seq<u64>, b: Seq<u64>, set: Set<u64>)
    requires
        lists(a, set),
        lists(b, set),
    ensures
        a == b,
    decreases a.len(),
{
    if a.len() == 0 {
        if b.len() > 0 {
            assert(set.contains(b[0]));
            assert(a.contains(b[0]));
        }
        assert(a =~= b);
    } else {
        assert(set.contains(a.last()));
        assert(b.contains(a.last()));
        let at = choose|i: int| 0 <= i < b.len() && b[i] == a.last();
        assert(set.contains(b.last()));
        assert(a.contains(b.last()));
        let back = choose|i: int| 0 <= i < a.len() && a[i] == b.last();
        if at < b.len() - 1 {
            assert(b[at] < b[b.len() - 1]);
        }
        if back < a.len() - 1 {
            assert(a[back] < a[a.len() - 1]);
        }
        assert(a.last() == b.last());
        let rest = set.remove(a.last());
        assert(lists(a.drop_last(), rest)) by {
            lemma_lists_front(a, set);
        }
        assert(lists(b.drop_last(), rest)) by {
            lemma_lists_front(b, set);
        }
        a_list_is_unique(a.drop_last(), b.drop_last(), rest);
        assert(a =~= a.drop_last().push(a.last()));
        assert(b =~= b.drop_last().push(b.last()));
    }
}

proof fn lemma_lists_front(a: Seq<u64>, set: Set<u64>)
    requires
        lists(a, set),
        a.len() > 0,
    ensures
        lists(a.drop_last(), set.remove(a.last())),
{
    let front = a.drop_last();
    let rest = set.remove(a.last());
    assert forall|i: int| 0 <= i < front.len() implies rest.contains(#[trigger] front[i]) by {
        assert(front[i] == a[i]);
        assert(a[i] < a[a.len() - 1]);
    }
    assert forall|n: u64| #[trigger] rest.contains(n) implies front.contains(n) by {
        assert(a.contains(n));
        let i = choose|i: int| 0 <= i < a.len() && a[i] == n;
        assert(front[i] == n);
    }
}

/// Insert a number in its place.
fn place(list: &mut Vec<u64>, n: u64)
    requires
        ascending(old(list)@),
        !old(list)@.contains(n),
    ensures
        ascending(final(list)@),
        final(list)@.len() == old(list)@.len() + 1,
        forall|m: u64| #[trigger] final(list)@.contains(m) <==> old(list)@.contains(m) || m == n,
{
    let mut at: usize = 0;
    while at < list.len() && list[at] < n
        invariant
            at <= list.len(),
            forall|j: int| 0 <= j < at ==> #[trigger] list@[j] < n,
        decreases list.len() - at,
    {
        at += 1;
    }
    let ghost before = list@;
    proof {
        assert forall|j: int| at <= j < before.len() implies n < #[trigger] before[j] by {
            assert(before[at as int] >= n);
            assert(before.contains(before[at as int]));
            if j > at {
                assert(before[at as int] < before[j]);
            }
        }
    }
    list.insert(at, n);
    proof {
        assert(list@ =~= before.insert(at as int, n));
        assert(list@[at as int] == n);
        assert forall|i: int, j: int| 0 <= i < j < list@.len() implies #[trigger] list@[i]
            < #[trigger] list@[j] by {
            let a = if i < at {
                i
            } else {
                i - 1
            };
            let b = if j < at {
                j
            } else {
                j - 1
            };
            if i != at && j != at {
                assert(list@[i] == before[a] && list@[j] == before[b]);
            } else if i == at {
                assert(list@[j] == before[b]);
            } else {
                assert(list@[i] == before[a]);
            }
        }
        assert forall|m: u64| #[trigger] list@.contains(m) <==> before.contains(m) || m == n by {
            if list@.contains(m) {
                let i = choose|i: int| 0 <= i < list@.len() && list@[i] == m;
                if i < at {
                    assert(before[i] == m);
                } else if i > at {
                    assert(before[i - 1] == m);
                }
            }
            if before.contains(m) {
                let i = choose|i: int| 0 <= i < before.len() && before[i] == m;
                if i < at {
                    assert(list@[i] == m);
                } else {
                    assert(list@[i + 1] == m);
                }
            }
        }
    }
}

/// The members of a set, ascending.
pub fn members(set: &BTreeSet<u64>) -> (list: Vec<u64>)
    ensures
        lists(list@, set@),
        list@ == in_order(set@),
        list@.len() == set@.len(),
{
    let mut list: Vec<u64> = Vec::new();
    let ghost keys = vstd::std_specs::iter::IteratorSpec::remaining(
        &vstd::std_specs::btree::spec_btree_keys_iter(set),
    );
    for n in it: set.iter()
        invariant
            it.seq() == keys,
            keys.no_duplicates(),
            ascending(list@),
            list@.len() == it.index(),
            forall|m: u64|
                #[trigger] list@.contains(m) <==> exists|i: int|
                    0 <= i < it.index() && *keys[i] == m,
    {
        let ghost at = it.index() as int;
        let ghost before = list@;
        proof {
            assert(*n == *keys[at]);
            if before.contains(*n) {
                let i = choose|i: int| 0 <= i < at && *keys[i] == *n;
                assert(keys[i] == keys[at]);
            }
        }
        place(&mut list, *n);
        proof {
            assert forall|m: u64| #[trigger] list@.contains(m) <==> exists|i: int|
                0 <= i < at + 1 && *keys[i] == m by {
                if before.contains(m) {
                    let i = choose|i: int| 0 <= i < at && *keys[i] == m;
                    assert(0 <= i < at + 1 && *keys[i] == m);
                }
                if m == *n {
                    assert(*keys[at] == m);
                }
            }
        }
    }
    proof {
        let all = keys.unref();
        assert forall|i: int| 0 <= i < list@.len() implies set@.contains(#[trigger] list@[i]) by {
            assert(list@.contains(list@[i]));
            let k = choose|k: int| 0 <= k < keys.len() && *keys[k] == list@[i];
            assert(all[k] == list@[i]);
            assert(all.to_set().contains(all[k]));
        }
        assert forall|n: u64| #[trigger] set@.contains(n) implies list@.contains(n) by {
            assert(all.to_set().contains(n));
            let k = choose|k: int| 0 <= k < all.len() && all[k] == n;
            assert(*keys[k] == n);
        }
        assert(lists(list@, set@));
        a_list_is_unique(list@, in_order(set@), set@);
    }
    list
}

/// Whether every member of a set is a member of another.
pub fn is_subset(a: &BTreeSet<u64>, b: &BTreeSet<u64>) -> (subset: bool)
    ensures
        subset == a@.subset_of(b@),
{
    let list = members(a);
    let mut i: usize = 0;
    while i < list.len()
        invariant
            i <= list.len(),
            lists(list@, a@),
            forall|j: int| 0 <= j < i ==> b@.contains(#[trigger] list@[j]),
        decreases list.len() - i,
    {
        if !b.contains(&list[i]) {
            assert(a@.contains(list@[i as int]));
            return false;
        }
        i += 1;
    }
    assert forall|n: u64| a@.contains(n) implies b@.contains(n) by {
        assert(list@.contains(n));
    }
    true
}

/// Whether two sets have the same members.
pub fn same_set(a: &BTreeSet<u64>, b: &BTreeSet<u64>) -> (same: bool)
    ensures
        same == (a@ == b@),
{
    let same = is_subset(a, b) && is_subset(b, a);
    proof {
        if same {
            assert(a@ =~= b@);
        }
    }
    same
}

/// The members of either set.
pub fn union(a: &BTreeSet<u64>, b: &BTreeSet<u64>) -> (all: BTreeSet<u64>)
    ensures
        all@ == a@.union(b@),
{
    let mut all = a.clone();
    let list = members(b);
    let mut i: usize = 0;
    while i < list.len()
        invariant
            i <= list.len(),
            lists(list@, b@),
            forall|n: u64|
                #[trigger] all@.contains(n) <==> a@.contains(n) || list@.take(i as int).contains(n),
        decreases list.len() - i,
    {
        let ghost before = all@;
        all.insert(list[i]);
        proof {
            let next = list@.take(i + 1);
            let done = list@.take(i as int);
            assert(next =~= done.push(list@[i as int]));
            assert forall|n: u64| #[trigger] all@.contains(n) <==> a@.contains(n) || next.contains(
                n,
            ) by {
                if next.contains(n) {
                    let k = choose|k: int| 0 <= k < next.len() && next[k] == n;
                    if k < i {
                        assert(done[k] == n);
                    }
                }
                if done.contains(n) {
                    let k = choose|k: int| 0 <= k < done.len() && done[k] == n;
                    assert(next[k] == n);
                }
                assert(next[i as int] == list@[i as int]);
                assert(before.contains(n) <==> a@.contains(n) || done.contains(n));
            }
        }
        i += 1;
    }
    proof {
        assert(list@.take(list@.len() as int) =~= list@);
        assert(all@ =~= a@.union(b@));
    }
    all
}

/// The members of one set that another lacks, ascending.
pub fn difference(a: &BTreeSet<u64>, b: &BTreeSet<u64>) -> (list: Vec<u64>)
    ensures
        lists(list@, a@.difference(b@)),
        list@ == in_order(a@.difference(b@)),
        list@.len() == 0 <==> a@.subset_of(b@),
{
    let all = members(a);
    let mut list: Vec<u64> = Vec::new();
    let mut i: usize = 0;
    while i < all.len()
        invariant
            i <= all.len(),
            lists(all@, a@),
            ascending(list@),
            forall|j: int|
                0 <= j < list@.len() ==> a@.contains(#[trigger] list@[j]) && !b@.contains(list@[j]),
            forall|j: int| 0 <= j < list@.len() && i < all@.len() ==> #[trigger] list@[j] < all@[i as int],
            forall|k: int|
                0 <= k < i && !b@.contains(#[trigger] all@[k]) ==> list@.contains(all@[k]),
        decreases all.len() - i,
    {
        let n: u64 = all[i];
        assert(a@.contains(all@[i as int]));
        if !b.contains(&n) {
            let ghost before = list@;
            list.push(n);
            proof {
                assert(list@.last() == n);
                assert forall|k: int|
                    0 <= k < i + 1 && !b@.contains(#[trigger] all@[k]) implies list@.contains(
                    all@[k],
                ) by {
                    if k < i {
                        assert(before.contains(all@[k]));
                        let m = choose|m: int| 0 <= m < before.len() && before[m] == all@[k];
                        assert(list@[m] == all@[k]);
                    } else {
                        assert(list@[list@.len() - 1] == n);
                    }
                }
            }
        }
        i += 1;
    }
    proof {
        let gap = a@.difference(b@);
        assert forall|n: u64| #[trigger] gap.contains(n) implies list@.contains(n) by {
            assert(all@.contains(n));
            let k = choose|k: int| 0 <= k < all@.len() && all@[k] == n;
            assert(!b@.contains(all@[k]));
        }
        assert(lists(list@, gap));
        a_list_is_unique(list@, in_order(gap), gap);
        if list@.len() == 0 {
            assert forall|n: u64| a@.contains(n) implies b@.contains(n) by {
                if !b@.contains(n) {
                    assert(gap.contains(n));
                }
            }
        } else {
            assert(gap.contains(list@[0]));
        }
    }
    list
}

/// Whether two lists name the same nodes in the same order.
pub fn same_list(a: &Vec<u64>, b: &Vec<u64>) -> (same: bool)
    ensures
        same == (a@ == b@),
{
    if a.len() != b.len() {
        return false;
    }
    let mut i: usize = 0;
    while i < a.len()
        invariant
            i <= a.len() == b.len(),
            forall|j: int| 0 <= j < i ==> a@[j] == b@[j],
        decreases a.len() - i,
    {
        if a[i] != b[i] {
            assert(a@[i as int] != b@[i as int]);
            return false;
        }
        i += 1;
    }
    assert(a@ =~= b@);
    true
}

} // verus!
