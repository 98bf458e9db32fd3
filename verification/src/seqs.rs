//! Small sequence operations on id lists.
use vstd::prelude::*;
use vstd::std_specs::iter::IteratorSpec;

verus! {

/// `s` with every occurrence of `x` taken out, the rest in order.
pub open spec fn seq_without<T>(s: Seq<T>, x: T) -> Seq<T>
    decreases s.len(),
{
    if s.len() == 0 {
        s
    } else if s.last() == x {
        seq_without(s.drop_last(), x)
    } else {
        seq_without(s.drop_last(), x).push(s.last())
    }
}

/// Whatever `seq_without` keeps is in `s` and differs from `x`.
pub proof fn lemma_seq_without_members<T>(s: Seq<T>, x: T)
    ensures
        forall|y: T| seq_without(s, x).contains(y) <==> (s.contains(y) && y != x),
    decreases s.len(),
{
    if s.len() > 0 {
        lemma_seq_without_members(s.drop_last(), x);
        assert forall|y: T| s.contains(y) <==> (s.drop_last().contains(y) || y == s.last()) by {
            if s.contains(y) {
                let i = choose|i: int| 0 <= i < s.len() && s[i] == y;
                if i < s.len() - 1 {
                    assert(s.drop_last()[i] == y);
                }
            }
            if s.drop_last().contains(y) {
                let i = choose|i: int| 0 <= i < s.drop_last().len() && s.drop_last()[i] == y;
                assert(s[i] == y);
            }
            if y == s.last() {
                assert(s[s.len() - 1] == y);
            }
        }
        let r = seq_without(s.drop_last(), x);
        if s.last() != x {
            assert forall|y: T| r.push(s.last()).contains(y) <==> (r.contains(y) || y == s.last()) by {
                if r.push(s.last()).contains(y) {
                    let i = choose|i: int| 0 <= i < r.push(s.last()).len() && r.push(s.last())[i] == y;
                    if i < r.len() {
                        assert(r[i] == y);
                    }
                }
                if r.contains(y) {
                    let i = choose|i: int| 0 <= i < r.len() && r[i] == y;
                    assert(r.push(s.last())[i] == y);
                }
                if y == s.last() {
                    assert(r.push(s.last())[r.len() as int] == y);
                }
            }
        }
        assert forall|y: T| seq_without(s, x).contains(y) <==> (s.contains(y) && y != x) by {
            assert(r.contains(y) <==> (s.drop_last().contains(y) && y != x));
        }
    }
}

/// A copy of `v` with every `x` taken out, the rest in order (what
/// `retain(|e| e != x)` leaves).
pub fn vec_without(v: &Vec<u32>, x: u32) -> (r: Vec<u32>)
    ensures
        r@ == seq_without(v@, x),
{
    let mut out: Vec<u32> = Vec::new();
    let mut i: usize = 0;
    while i < v.len()
        invariant
            i <= v.len(),
            out@ == seq_without(v@.take(i as int), x),
        decreases v.len() - i,
    {
        assert(v@.take(i as int + 1).drop_last() == v@.take(i as int));
        if v[i] != x {
            out.push(v[i]);
        }
        i += 1;
    }
    assert(v@.take(v.len() as int) == v@);
    out
}

/// A copy of `v` with every `x` taken out (u128 ids).
pub fn vec_without_u128(v: &Vec<u128>, x: u128) -> (r: Vec<u128>)
    ensures
        r@ == seq_without(v@, x),
{
    let mut out: Vec<u128> = Vec::new();
    let mut i: usize = 0;
    while i < v.len()
        invariant
            i <= v.len(),
            out@ == seq_without(v@.take(i as int), x),
        decreases v.len() - i,
    {
        assert(v@.take(i as int + 1).drop_last() == v@.take(i as int));
        if v[i] != x {
            out.push(v[i]);
        }
        i += 1;
    }
    assert(v@.take(v.len() as int) == v@);
    out
}

/// Whether `x` occurs in `v`.
pub fn contains_u32(v: &Vec<u32>, x: u32) -> (r: bool)
    ensures
        r == v@.contains(x),
{
    let mut i: usize = 0;
    while i < v.len()
        invariant
            i <= v.len(),
            forall|j: int| 0 <= j < i ==> v@[j] != x,
        decreases v.len() - i,
    {
        if v[i] == x {
            return true;
        }
        i += 1;
    }
    false
}

/// Whether `x` occurs in `v` (u128 ids).
pub fn contains_u128(v: &Vec<u128>, x: u128) -> (r: bool)
    ensures
        r == v@.contains(x),
{
    let mut i: usize = 0;
    while i < v.len()
        invariant
            i <= v.len(),
            forall|j: int| 0 <= j < i ==> v@[j] != x,
        decreases v.len() - i,
    {
        if v[i] == x {
            return true;
        }
        i += 1;
    }
    false
}

/// The elements of `s` in order, keeping only those in `dom` and not in
/// `taken`, each at its first occurrence.
pub open spec fn first_occurrences<T>(s: Seq<T>, dom: Set<T>, taken: Set<T>) -> Seq<T>
    decreases s.len(),
{
    if s.len() == 0 {
        Seq::empty()
    } else {
        let r = first_occurrences(s.drop_last(), dom, taken);
        let x = s.last();
        if dom.contains(x) && !taken.contains(x) && !r.contains(x) {
            r.push(x)
        } else {
            r
        }
    }
}

/// `first_occurrences` keeps exactly the elements of `s` that are in `dom`
/// and not in `taken`, each once.
pub proof fn lemma_first_occurrences<T>(s: Seq<T>, dom: Set<T>, taken: Set<T>)
    ensures
        first_occurrences(s, dom, taken).no_duplicates(),
        forall|x: T| #[trigger] first_occurrences(s, dom, taken).contains(x)
            <==> (s.contains(x) && dom.contains(x) && !taken.contains(x)),
    decreases s.len(),
{
    if s.len() > 0 {
        let r = first_occurrences(s.drop_last(), dom, taken);
        lemma_first_occurrences(s.drop_last(), dom, taken);
        let x = s.last();
        assert forall|y: T| s.contains(y) <==> (s.drop_last().contains(y) || y == x) by {
            if s.contains(y) {
                let i = choose|i: int| 0 <= i < s.len() && s[i] == y;
                if i < s.len() - 1 {
                    assert(s.drop_last()[i] == y);
                }
            }
            if s.drop_last().contains(y) {
                let i = choose|i: int| 0 <= i < s.drop_last().len() && s.drop_last()[i] == y;
                assert(s[i] == y);
            }
            if y == x {
                assert(s[s.len() - 1] == y);
            }
        }
        if dom.contains(x) && !taken.contains(x) && !r.contains(x) {
            assert forall|y: T| r.push(x).contains(y) <==> (r.contains(y) || y == x) by {
                if r.push(x).contains(y) {
                    let i = choose|i: int| 0 <= i < r.push(x).len() && r.push(x)[i] == y;
                    if i < r.len() {
                        assert(r[i] == y);
                    }
                }
                if r.contains(y) {
                    let i = choose|i: int| 0 <= i < r.len() && r[i] == y;
                    assert(r.push(x)[i] == y);
                }
                if y == x {
                    assert(r.push(x)[r.len() as int] == y);
                }
            }
            assert(r.push(x).no_duplicates()) by {
                assert forall|i: int, j: int| 0 <= i < r.push(x).len() && 0 <= j < r.push(x).len() && i != j
                    implies r.push(x)[i] != r.push(x)[j] by {
                    if i < r.len() && j < r.len() {
                        assert(r[i] != r[j]);
                    } else if i < r.len() {
                        assert(r.contains(r[i]));
                    } else if j < r.len() {
                        assert(r.contains(r[j]));
                    }
                }
            }
        }
        assert forall|y: T| #[trigger] first_occurrences(s, dom, taken).contains(y)
            <==> (s.contains(y) && dom.contains(y) && !taken.contains(y)) by {
            assert(r.contains(y) <==> (s.drop_last().contains(y) && dom.contains(y) && !taken.contains(y)));
        }
    }
}

/// Elements that are all taken contribute nothing to `first_occurrences`.
pub proof fn lemma_first_occurrences_all_taken<T>(s: Seq<T>, dom: Set<T>, taken: Set<T>)
    requires
        forall|i: int| 0 <= i < s.len() ==> taken.contains(#[trigger] s[i]),
    ensures
        first_occurrences(s, dom, taken) == Seq::<T>::empty(),
    decreases s.len(),
{
    if s.len() > 0 {
        assert forall|i: int| 0 <= i < s.drop_last().len() implies taken.contains(#[trigger] s.drop_last()[i]) by {
            assert(s.drop_last()[i] == s[i]);
        }
        lemma_first_occurrences_all_taken(s.drop_last(), dom, taken);
        assert(taken.contains(s[s.len() - 1]));
    }
}

/// A prefix whose elements are all taken does not change
/// `first_occurrences` of what follows it.
pub proof fn lemma_first_occurrences_taken_prefix<T>(s: Seq<T>, t: Seq<T>, dom: Set<T>, taken: Set<T>)
    requires
        forall|i: int| 0 <= i < s.len() ==> taken.contains(#[trigger] s[i]),
    ensures
        first_occurrences(s + t, dom, taken) == first_occurrences(t, dom, taken),
    decreases t.len(),
{
    if t.len() == 0 {
        assert(s + t =~= s);
        lemma_first_occurrences_all_taken(s, dom, taken);
    } else {
        lemma_first_occurrences_taken_prefix(s, t.drop_last(), dom, taken);
        assert((s + t).drop_last() =~= s + t.drop_last());
        assert((s + t).last() == t.last());
    }
}

/// A list of distinct elements of `dom`, none taken, is its own
/// `first_occurrences`.
pub proof fn lemma_first_occurrences_fixed<T>(b: Seq<T>, dom: Set<T>, taken: Set<T>)
    requires
        b.no_duplicates(),
        forall|i: int| 0 <= i < b.len() ==> dom.contains(#[trigger] b[i]) && !taken.contains(b[i]),
    ensures
        first_occurrences(b, dom, taken) == b,
    decreases b.len(),
{
    if b.len() > 0 {
        let p = b.drop_last();
        assert forall|i: int| 0 <= i < p.len() implies dom.contains(#[trigger] p[i]) && !taken.contains(p[i]) by {
            assert(p[i] == b[i]);
        }
        assert(p.no_duplicates()) by {
            assert forall|i: int, j: int| 0 <= i < p.len() && 0 <= j < p.len() && i != j implies p[i] != p[j] by {
                assert(b[i] != b[j]);
            }
        }
        lemma_first_occurrences_fixed(p, dom, taken);
        let x = b.last();
        assert(!p.contains(x)) by {
            if p.contains(x) {
                let i = choose|i: int| 0 <= i < p.len() && p[i] == x;
                assert(b[i] == b[b.len() - 1]);
            }
        }
        assert(dom.contains(b[b.len() - 1]));
        assert(p.push(x) =~= b);
    }
}

/// std's `sort` on a list of ids: the same ids, ascending.
#[verifier::external_body]
pub(crate) fn sort_u128(v: &mut Vec<u128>)
    ensures
        final(v)@.len() == old(v)@.len(),
        final(v)@.to_multiset() == old(v)@.to_multiset(),
        forall|i: int, j: int| 0 <= i < j < final(v)@.len() ==> final(v)@[i] <= final(v)@[j],
{
    v.sort();
}

/// The members of a set of ids, each once, in no particular order.
pub fn set_to_vec(s: &std::collections::HashSet<u32>) -> (r: Vec<u32>)
    ensures
        r@.no_duplicates(),
        r@.to_set() == s@,
{
    broadcast use vstd::std_specs::hash::group_hash_axioms;
    let mut out: Vec<u32> = Vec::new();
    let ghost keys = vstd::std_specs::hash::spec_hash_keys_iter(s).remaining();
    for k in it: s.iter()
        invariant
            it.seq() == keys,
            keys.no_duplicates(),
            keys.unref().to_set() == s@,
            out@ == keys.unref().take(it.index()),
    {
        assert(keys.unref().take(it.index() + 1) == keys.unref().take(it.index()).push(*k));
        out.push(*k);
    }
    assert(keys.unref().take(keys.len() as int) =~= keys.unref());
    assert(out@.no_duplicates()) by {
        assert forall|i: int, j: int| 0 <= i < out@.len() && 0 <= j < out@.len() && i != j implies out@[i] != out@[j] by {
            assert(out@[i] == *keys[i]);
            assert(out@[j] == *keys[j]);
        }
    }
    out
}

} // verus!
