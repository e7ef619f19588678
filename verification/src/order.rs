//! Facts about sequences kept in order: pairwise relations, filtering,
//! insertion at the place a key belongs, and newest-first selection.

use vstd::prelude::*;

verus! {

broadcast use vstd::seq_lib::group_seq_properties;

/// Every earlier element stands in relation `r` to every later one.
pub open spec fn pairwise<A>(s: Seq<A>, r: spec_fn(A, A) -> bool) -> bool {
    forall|i: int, j: int| 0 <= i < j < s.len() ==> #[trigger] r(s[i], s[j])
}

/// Filtering keeps a pairwise relation.
pub proof fn lemma_pairwise_filter<A>(s: Seq<A>, r: spec_fn(A, A) -> bool, p: spec_fn(A) -> bool)
    requires
        pairwise(s, r),
    ensures
        pairwise(s.filter(p), r),
    decreases s.len(),
{
    reveal(Seq::filter);
    if s.len() > 0 {
        let d = s.drop_last();
        assert(pairwise(d, r)) by {
            assert forall|i: int, j: int| 0 <= i < j < d.len() implies #[trigger] r(d[i], d[j]) by {
                assert(d[i] == s[i] && d[j] == s[j]);
            }
        }
        lemma_pairwise_filter(d, r, p);
        let f = d.filter(p);
        if p(s.last()) {
            let g = f.push(s.last());
            assert(s.filter(p) == g);
            assert forall|i: int, j: int| 0 <= i < j < g.len() implies #[trigger] r(g[i], g[j]) by {
                if j == f.len() {
                    assert(f.contains(f[i]));
                    d.lemma_filter_contains_rev(p, f[i]);
                    let k = choose|k: int| 0 <= k < d.len() && d[k] == f[i];
                    assert(r(s[k], s[s.len() - 1]));
                } else {
                    assert(g[i] == f[i] && g[j] == f[j]);
                }
            }
        }
    }
}

/// Filtering one more element of a prefix.
pub proof fn lemma_filter_step<A>(s: Seq<A>, i: int, p: spec_fn(A) -> bool)
    requires
        0 <= i < s.len(),
    ensures
        s.take(i + 1).filter(p) == if p(s[i]) {
            s.take(i).filter(p).push(s[i])
        } else {
            s.take(i).filter(p)
        },
{
    assert(s.take(i + 1) =~= s.take(i).push(s[i]));
    s.take(i).lemma_filter_push(s[i], p);
}

/// A property of every element holds of every element that filtering keeps.
pub proof fn lemma_filter_all<A>(s: Seq<A>, p: spec_fn(A) -> bool, q: spec_fn(A) -> bool)
    requires
        forall|i: int| 0 <= i < s.len() ==> q(#[trigger] s[i]),
    ensures
        forall|i: int| 0 <= i < s.filter(p).len() ==> q(#[trigger] s.filter(p)[i]) && p(s.filter(p)[i]),
{
    broadcast use vstd::seq_lib::group_filter_ensures;
    assert forall|i: int| 0 <= i < s.filter(p).len() implies q(#[trigger] s.filter(p)[i]) && p(s.filter(p)[i]) by {
        let x = s.filter(p)[i];
        assert(s.filter(p).contains(x));
        s.lemma_filter_contains_rev(p, x);
        let k = choose|k: int| 0 <= k < s.len() && s[k] == x;
        assert(q(s[k]));
    }
}

/// Filtering drops something exactly when some element fails the predicate.
pub proof fn lemma_filter_shrinks<A>(s: Seq<A>, p: spec_fn(A) -> bool)
    ensures
        s.filter(p).len() <= s.len(),
        (s.filter(p).len() < s.len()) <==> (exists|i: int| 0 <= i < s.len() && !p(#[trigger] s[i])),
    decreases s.len(),
{
    reveal(Seq::filter);
    if s.len() > 0 {
        let d = s.drop_last();
        lemma_filter_shrinks(d, p);
        if exists|i: int| 0 <= i < d.len() && !p(#[trigger] d[i]) {
            let i = choose|i: int| 0 <= i < d.len() && !p(#[trigger] d[i]);
            assert(s[i] == d[i]);
        }
        if exists|i: int| 0 <= i < s.len() && !p(#[trigger] s[i]) {
            let i = choose|i: int| 0 <= i < s.len() && !p(#[trigger] s[i]);
            if i < s.len() - 1 {
                assert(d[i] == s[i]);
            }
        }
    }
}

/// Inserting an element that relates properly to the elements before and
/// after it keeps a pairwise relation.
pub proof fn lemma_pairwise_insert<A>(s: Seq<A>, r: spec_fn(A, A) -> bool, pos: int, x: A)
    requires
        pairwise(s, r),
        0 <= pos <= s.len(),
        forall|i: int| 0 <= i < pos ==> #[trigger] r(s[i], x),
        forall|i: int| pos <= i < s.len() ==> #[trigger] r(x, s[i]),
    ensures
        pairwise(s.insert(pos, x), r),
{
    s.insert_ensures(pos, x);
    let t = s.insert(pos, x);
    assert forall|i: int, j: int| 0 <= i < j < t.len() implies #[trigger] r(t[i], t[j]) by {
        if j < pos {
            assert(t[i] == s[i] && t[j] == s[j]);
        } else if j == pos {
            assert(t[i] == s[i]);
        } else if i < pos {
            assert(t[i] == s[i] && t[j] == s[j - 1]);
        } else if i == pos {
            assert(t[j] == s[j - 1]);
        } else {
            assert(t[i] == s[i - 1] && t[j] == s[j - 1]);
        }
    }
}

/// Replacing an element by one that relates properly to the others keeps a
/// pairwise relation.
pub proof fn lemma_pairwise_update<A>(s: Seq<A>, r: spec_fn(A, A) -> bool, pos: int, x: A)
    requires
        pairwise(s, r),
        0 <= pos < s.len(),
        forall|i: int| 0 <= i < pos ==> #[trigger] r(s[i], x),
        forall|i: int| pos < i < s.len() ==> #[trigger] r(x, s[i]),
    ensures
        pairwise(s.update(pos, x), r),
{
    let t = s.update(pos, x);
    assert forall|i: int, j: int| 0 <= i < j < t.len() implies #[trigger] r(t[i], t[j]) by {
        if i != pos && j != pos {
            assert(t[i] == s[i] && t[j] == s[j]);
        }
    }
}

/// Where an element with key `k` goes in a sequence ordered by `key`: after
/// every element whose key is at most `k`.
pub open spec fn sorted_pos<A>(s: Seq<A>, key: spec_fn(A) -> int, k: int) -> int
    decreases s.len(),
{
    if s.len() == 0 {
        0
    } else if key(s.last()) <= k {
        s.len() as int
    } else {
        sorted_pos(s.drop_last(), key, k)
    }
}

/// The sequence ordered by `key`, not decreasing.
pub open spec fn key_sorted<A>(s: Seq<A>, key: spec_fn(A) -> int) -> bool {
    forall|i: int, j: int| 0 <= i < j < s.len() ==> key(#[trigger] s[i]) <= key(#[trigger] s[j])
}

/// In an ordered sequence, the elements before `sorted_pos` have keys at most
/// `k` and those from it on have larger keys.
pub proof fn lemma_sorted_pos<A>(s: Seq<A>, key: spec_fn(A) -> int, k: int)
    requires
        key_sorted(s, key),
    ensures
        0 <= sorted_pos(s, key, k) <= s.len(),
        forall|i: int| 0 <= i < sorted_pos(s, key, k) ==> key(#[trigger] s[i]) <= k,
        forall|i: int| sorted_pos(s, key, k) <= i < s.len() ==> key(#[trigger] s[i]) > k,
    decreases s.len(),
{
    if s.len() > 0 {
        if key(s.last()) <= k {
            assert forall|i: int| 0 <= i < s.len() implies key(#[trigger] s[i]) <= k by {
                if i < s.len() - 1 {
                    assert(key(s[i]) <= key(s[s.len() - 1]));
                }
            }
        } else {
            let d = s.drop_last();
            assert(key_sorted(d, key)) by {
                assert forall|i: int, j: int| 0 <= i < j < d.len() implies key(#[trigger] d[i]) <= key(#[trigger] d[j]) by {
                    assert(d[i] == s[i] && d[j] == s[j]);
                }
            }
            lemma_sorted_pos(d, key, k);
            assert forall|i: int| sorted_pos(s, key, k) <= i < s.len() implies key(#[trigger] s[i]) > k by {
                if i < s.len() - 1 {
                    assert(s[i] == d[i]);
                }
            }
            assert forall|i: int| 0 <= i < sorted_pos(s, key, k) implies key(#[trigger] s[i]) <= k by {
                assert(s[i] == d[i]);
            }
        }
    }
}

/// The newest (last) `limit` elements satisfying `p`, newest first.
pub open spec fn newest_first<A>(s: Seq<A>, p: spec_fn(A) -> bool, limit: nat) -> Seq<A>
    decreases s.len(),
{
    if s.len() == 0 || limit == 0 {
        Seq::empty()
    } else if p(s.last()) {
        seq![s.last()] + newest_first(s.drop_last(), p, (limit - 1) as nat)
    } else {
        newest_first(s.drop_last(), p, limit)
    }
}

/// What `newest_first` selects satisfies `p`, comes from `s`, and numbers at
/// most `limit`.
pub proof fn lemma_newest_first<A>(s: Seq<A>, p: spec_fn(A) -> bool, limit: nat)
    ensures
        newest_first(s, p, limit).len() <= limit,
        newest_first(s, p, limit).len() <= s.filter(p).len(),
        forall|i: int| 0 <= i < newest_first(s, p, limit).len()
            ==> p(#[trigger] newest_first(s, p, limit)[i]) && s.contains(newest_first(s, p, limit)[i]),
    decreases s.len(),
{
    reveal(Seq::filter);
    if s.len() > 0 && limit > 0 {
        let d = s.drop_last();
        if p(s.last()) {
            lemma_newest_first(d, p, (limit - 1) as nat);
        } else {
            lemma_newest_first(d, p, limit);
        }
        let n = newest_first(s, p, limit);
        assert forall|i: int| 0 <= i < n.len() implies p(#[trigger] n[i]) && s.contains(n[i]) by {
            if p(s.last()) {
                if i == 0 {
                    assert(s[s.len() - 1] == n[i]);
                } else {
                    let m = newest_first(d, p, (limit - 1) as nat);
                    assert(n[i] == m[i - 1]);
                    let k = choose|k: int| 0 <= k < d.len() && d[k] == m[i - 1];
                    assert(s[k] == n[i]);
                }
            } else {
                let k = choose|k: int| 0 <= k < d.len() && d[k] == n[i];
                assert(s[k] == n[i]);
            }
        }
    }
}

/// `newest_first` lists later elements first, so a pairwise relation of the
/// sequence holds, flipped, of what it selects.
pub proof fn lemma_newest_first_pairwise<A>(s: Seq<A>, p: spec_fn(A) -> bool, limit: nat, r: spec_fn(A, A) -> bool)
    requires
        pairwise(s, r),
    ensures
        forall|i: int, j: int| 0 <= i < j < newest_first(s, p, limit).len()
            ==> #[trigger] r(newest_first(s, p, limit)[j], newest_first(s, p, limit)[i]),
    decreases s.len(),
{
    if s.len() > 0 && limit > 0 {
        let d = s.drop_last();
        assert(pairwise(d, r)) by {
            assert forall|i: int, j: int| 0 <= i < j < d.len() implies #[trigger] r(d[i], d[j]) by {
                assert(d[i] == s[i] && d[j] == s[j]);
            }
        }
        let n = newest_first(s, p, limit);
        if p(s.last()) {
            let m = newest_first(d, p, (limit - 1) as nat);
            assert(n == seq![s.last()] + m);
            lemma_newest_first_pairwise(d, p, (limit - 1) as nat, r);
            lemma_newest_first(d, p, (limit - 1) as nat);
            assert forall|i: int, j: int| 0 <= i < j < n.len() implies #[trigger] r(n[j], n[i]) by {
                if i == 0 {
                    assert(n[j] == m[j - 1]);
                    assert(d.contains(m[j - 1]));
                    let k = choose|k: int| 0 <= k < d.len() && d[k] == m[j - 1];
                    assert(r(s[k], s[s.len() - 1]));
                } else {
                    assert(n[i] == m[i - 1] && n[j] == m[j - 1]);
                }
            }
        } else {
            lemma_newest_first_pairwise(d, p, limit, r);
            assert(n == newest_first(d, p, limit));
        }
    }
}

/// Filtering by a predicate every element satisfies changes nothing.
pub proof fn lemma_filter_identity<A>(s: Seq<A>, p: spec_fn(A) -> bool)
    requires
        forall|i: int| 0 <= i < s.len() ==> p(#[trigger] s[i]),
    ensures
        s.filter(p) == s,
    decreases s.len(),
{
    reveal(Seq::filter);
    if s.len() > 0 {
        let d = s.drop_last();
        assert forall|i: int| 0 <= i < d.len() implies p(#[trigger] d[i]) by {
            assert(d[i] == s[i]);
        }
        lemma_filter_identity(d, p);
        assert(p(s[s.len() - 1]));
        assert(d.push(s.last()) =~= s);
    }
}

/// Filtering out an inserted element that fails the predicate gives the
/// same as filtering before the insertion.
pub proof fn lemma_filter_insert<A>(s: Seq<A>, pos: int, x: A, p: spec_fn(A) -> bool)
    requires
        0 <= pos <= s.len(),
        !p(x),
    ensures
        s.insert(pos, x).filter(p) == s.filter(p),
{
    let a = s.subrange(0, pos);
    let b = s.subrange(pos, s.len() as int);
    assert(s.insert(pos, x) == a.push(x) + b);
    Seq::filter_distributes_over_add(a.push(x), b, p);
    a.lemma_filter_push(x, p);
    Seq::filter_distributes_over_add(a, b, p);
    assert(a + b =~= s);
}

/// `sorted_pos` lies within the sequence, whatever its order.
pub proof fn lemma_sorted_pos_bounds<A>(s: Seq<A>, key: spec_fn(A) -> int, k: int)
    ensures
        0 <= sorted_pos(s, key, k) <= s.len(),
    decreases s.len(),
{
    if s.len() > 0 {
        lemma_sorted_pos_bounds(s.drop_last(), key, k);
    }
}

/// Filtering by a predicate and by its negation splits a sequence.
pub proof fn lemma_filter_complement<A>(s: Seq<A>, p: spec_fn(A) -> bool, q: spec_fn(A) -> bool)
    requires
        forall|x: A| #[trigger] p(x) == !q(x),
    ensures
        s.filter(p).len() + s.filter(q).len() == s.len(),
    decreases s.len(),
{
    reveal(Seq::filter);
    if s.len() > 0 {
        lemma_filter_complement(s.drop_last(), p, q);
    }
}

} // verus!
