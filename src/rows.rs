//! Generic facts and operations on the row sequences that make up a table.
use vstd::prelude::*;

verus! {

broadcast use vstd::seq_lib::group_seq_properties;

/// No two positions of `s` carry the same key.
pub open spec fn unique_keys<A>(s: Seq<A>, key: spec_fn(A) -> int) -> bool {
    forall|i: int, j: int|
        0 <= i < s.len() && 0 <= j < s.len() && i != j ==> key(#[trigger] s[i]) != key(
            #[trigger] s[j],
        )
}

/// Every key of `s` lies in `1 .. next`.
pub open spec fn keys_below<A>(s: Seq<A>, key: spec_fn(A) -> int, next: int) -> bool {
    forall|x: A| #[trigger] s.contains(x) ==> 0 < key(x) < next
}

/// Appending a row whose key is above every key keeps the keys unique.
pub proof fn lemma_push_unique<A>(s: Seq<A>, x: A, key: spec_fn(A) -> int, next: int)
    requires
        unique_keys(s, key),
        keys_below(s, key, next),
        0 < next <= key(x),
    ensures
        unique_keys(s.push(x), key),
        keys_below(s.push(x), key, key(x) + 1),
{
    let t = s.push(x);
    assert forall|i: int, j: int|
        0 <= i < t.len() && 0 <= j < t.len() && i != j implies key(#[trigger] t[i]) != key(
            #[trigger] t[j],
        ) by {
        if i < s.len() {
            assert(s.contains(s[i]));
        }
        if j < s.len() {
            assert(s.contains(s[j]));
        }
    }
    assert forall|y: A| #[trigger] t.contains(y) implies 0 < key(y) < key(x) + 1 by {
        if y != x {
            let k = choose|k: int| 0 <= k < t.len() && t[k] == y;
            assert(s.contains(s[k]));
        }
    }
}

/// Filtering a table keeps its keys unique.
pub proof fn lemma_filter_unique<A>(s: Seq<A>, pred: spec_fn(A) -> bool, key: spec_fn(A) -> int)
    requires
        unique_keys(s, key),
    ensures
        unique_keys(s.filter(pred), key),
    decreases s.len(),
{
    reveal(Seq::filter);
    if s.len() > 0 {
        let rest = s.drop_last();
        assert(unique_keys(rest, key)) by {
            assert forall|i: int, j: int|
                0 <= i < rest.len() && 0 <= j < rest.len() && i != j implies key(
                    #[trigger] rest[i],
                ) != key(#[trigger] rest[j]) by {
                assert(rest[i] == s[i] && rest[j] == s[j]);
            }
        }
        lemma_filter_unique(rest, pred, key);
        let f = rest.filter(pred);
        if pred(s.last()) {
            let g = f.push(s.last());
            assert forall|i: int, j: int|
                0 <= i < g.len() && 0 <= j < g.len() && i != j implies key(#[trigger] g[i]) != key(
                    #[trigger] g[j],
                ) by {
                if i == g.len() - 1 || j == g.len() - 1 {
                    let k = if i == g.len() - 1 { j } else { i };
                    assert(g[k] == f[k]);
                    assert(f.contains(f[k]));
                    rest.lemma_filter_contains_rev(pred, f[k]);
                    let m = choose|m: int| 0 <= m < rest.len() && rest[m] == f[k];
                    assert(s[m] == rest[m]);
                    assert(key(s[m]) != key(s[s.len() - 1]));
                    assert(g[g.len() - 1] == s[s.len() - 1]);
                }
            }
        }
    }
}

/// Removes from `v` every element that `keep` rejects, preserving the order
/// of the others.
pub(crate) fn retain_where<T, F: Fn(&T) -> bool>(v: &mut Vec<T>, f: F, Ghost(keep): Ghost<spec_fn(T) -> bool>)
    requires
        forall|x: &T| #[trigger] f.requires((x,)),
        forall|x: &T, b: bool| f.ensures((x,), b) ==> b == keep(*x),
    ensures
        final(v)@ == old(v)@.filter(keep),
{
    let ghost orig = v@;
    let mut i: usize = 0;
    let ghost mut j: int = 0;
    while i < v.len()
        invariant
            0 <= i <= v.len(),
            0 <= j <= orig.len(),
            v.len() - i == orig.len() - j,
            v@.subrange(0, i as int) == orig.subrange(0, j).filter(keep),
            v@.subrange(i as int, v@.len() as int) == orig.subrange(j, orig.len() as int),
            forall|x: &T| #[trigger] f.requires((x,)),
            forall|x: &T, b: bool| f.ensures((x,), b) ==> b == keep(*x),
        decreases v.len() - i,
    {
        let ghost before = v@;
        assert(before[i as int] == orig[j]) by {
            assert(before.subrange(i as int, before.len() as int)[0] == before[i as int]);
            assert(orig.subrange(j, orig.len() as int)[0] == orig[j]);
        }
        assert(orig.subrange(0, j + 1) =~= orig.subrange(0, j).push(orig[j]));
        proof {
            orig.subrange(0, j).lemma_filter_push(orig[j], keep);
        }
        if f(&v[i]) {
            assert(v@.subrange(0, i + 1) =~= before.subrange(0, i as int).push(before[i as int]));
            i = i + 1;
            assert(v@.subrange(i as int, v@.len() as int) =~= orig.subrange(j + 1, orig.len() as int))
                by {
                assert(before.subrange(i as int, before.len() as int) =~= before.subrange(
                    i - 1,
                    before.len() as int,
                ).subrange(1, before.len() - i + 1));
            }
        } else {
            v.remove(i);
            assert(v@.subrange(0, i as int) =~= before.subrange(0, i as int));
            assert(v@.subrange(i as int, v@.len() as int) =~= before.subrange(
                i + 1,
                before.len() as int,
            ));
            assert(v@.subrange(i as int, v@.len() as int) =~= orig.subrange(j + 1, orig.len() as int))
                by {
                assert(before.subrange(i + 1, before.len() as int) =~= before.subrange(
                    i as int,
                    before.len() as int,
                ).subrange(1, before.len() - i));
            }
        }
        proof {
            j = j + 1;
        }
    }
    assert(v@ =~= v@.subrange(0, i as int));
    assert(orig.subrange(0, j) =~= orig) by {
        assert(orig.subrange(j, orig.len() as int).len() == 0);
    }
}

} // verus!
