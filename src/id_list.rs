//! Lists of milestone ids: membership, removal, and what removal keeps.
use vstd::prelude::*;

verus! {

/// `v` with every occurrence of `x` taken out, order kept.
pub open spec fn without(v: Seq<u128>, x: u128) -> Seq<u128> {
    v.filter(|y: u128| y != x)
}

pub fn contains_id(v: &Vec<u128>, x: u128) -> (r: bool)
    ensures
        r == v@.contains(x),
{
    let mut i: usize = 0;
    while i < v.len()
        invariant
            0 <= i <= v.len(),
            forall|j: int| 0 <= j < i ==> v@[j] != x,
        decreases v.len() - i,
    {
        if v[i] == x {
            assert(v@[i as int] == x);
            return true;
        }
        i += 1;
    }
    false
}

pub proof fn lemma_push_contains(s: Seq<u128>, e: u128, y: u128)
    ensures
        s.push(e).contains(y) <==> (s.contains(y) || y == e),
{
    if s.push(e).contains(y) {
        let j = choose|j: int| 0 <= j < s.len() + 1 && s.push(e)[j] == y;
        if j < s.len() {
            assert(s[j] == y);
        }
    }
    if s.contains(y) {
        let j = choose|j: int| 0 <= j < s.len() && s[j] == y;
        assert(s.push(e)[j] == y);
    }
    if y == e {
        assert(s.push(e)[s.len() as int] == y);
    }
}

pub proof fn lemma_push_no_dup(s: Seq<u128>, e: u128)
    requires
        s.no_duplicates(),
        !s.contains(e),
    ensures
        s.push(e).no_duplicates(),
{
    assert forall|a: int, b: int|
        0 <= a < s.len() + 1 && 0 <= b < s.len() + 1 && a != b implies s.push(e)[a] != s.push(e)[b] by {
        if a < s.len() && b < s.len() {
        } else if a < s.len() {
            assert(s.contains(s[a]));
        } else {
            assert(s.contains(s[b]));
        }
    }
}

pub proof fn lemma_without(v: Seq<u128>, x: u128)
    ensures
        forall|y: u128| #[trigger] without(v, x).contains(y) <==> (v.contains(y) && y != x),
        v.no_duplicates() ==> without(v, x).no_duplicates(),
    decreases v.len(),
{
    reveal(Seq::filter);
    if v.len() > 0 {
        let d = v.drop_last();
        let e = v.last();
        lemma_without(d, x);
        assert(v =~= d.push(e));
        let w = without(d, x);
        if e != x {
            assert(without(v, x) =~= w.push(e));
            assert forall|y: u128| #[trigger] without(v, x).contains(y) <==> (v.contains(y) && y != x) by {
                lemma_push_contains(d, e, y);
                lemma_push_contains(w, e, y);
            }
            if v.no_duplicates() {
                assert(d.no_duplicates());
                assert(!d.contains(e)) by {
                    if d.contains(e) {
                        let j = choose|j: int| 0 <= j < d.len() && d[j] == e;
                        assert(v[j] == v[v.len() - 1]);
                    }
                }
                lemma_push_no_dup(w, e);
            }
        } else {
            assert(without(v, x) =~= w);
            assert forall|y: u128| #[trigger] without(v, x).contains(y) <==> (v.contains(y) && y != x) by {
                lemma_push_contains(d, e, y);
            }
            if v.no_duplicates() {
                assert(d.no_duplicates());
            }
        }
    } else {
        assert(without(v, x) =~= v);
    }
}

pub proof fn lemma_without_absent(v: Seq<u128>, x: u128)
    requires
        !v.contains(x),
    ensures
        without(v, x) == v,
    decreases v.len(),
{
    reveal(Seq::filter);
    if v.len() > 0 {
        let d = v.drop_last();
        assert(!d.contains(x)) by {
            if d.contains(x) {
                let j = choose|j: int| 0 <= j < d.len() && d[j] == x;
                assert(v[j] == x);
            }
        }
        lemma_without_absent(d, x);
        assert(v.last() != x) by {
            assert(v[v.len() - 1] == v.last());
        }
        assert(v =~= d.push(v.last()));
    }
}

/// A copy of `v` without `x`.
pub fn remove_id(v: &Vec<u128>, x: u128) -> (r: Vec<u128>)
    ensures
        r@ == without(v@, x),
{
    let mut out: Vec<u128> = Vec::new();
    let mut i: usize = 0;
    while i < v.len()
        invariant
            0 <= i <= v.len(),
            out@ == without(v@.take(i as int), x),
        decreases v.len() - i,
    {
        proof {
            assert(v@.take(i as int + 1).drop_last() =~= v@.take(i as int));
            assert(v@.take(i as int + 1).last() == v@[i as int]);
            reveal(Seq::filter);
        }
        if v[i] != x {
            out.push(v[i]);
        }
        i += 1;
    }
    assert(v@.take(v.len() as int) =~= v@);
    out
}

} // verus!
