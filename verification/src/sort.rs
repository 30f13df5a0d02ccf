//! Stable insertion sort of (key, value) string pairs by key.

use vstd::prelude::*;

use crate::headers::{distinct_names, entry_views};
use crate::text::{chars_lt, copy_string, lemma_chars_lt_strict_total_order, str_lt};

verus! {

/// `s` with `x` put in front of the first entry whose key is greater than
/// the key of `x`.
pub open spec fn sorted_insert(x: (Seq<char>, Seq<char>), s: Seq<(Seq<char>, Seq<char>)>) -> Seq<
    (Seq<char>, Seq<char>),
>
    decreases s.len(),
{
    if s.len() == 0 {
        seq![x]
    } else if chars_lt(x.0, s[0].0) {
        seq![x] + s
    } else {
        seq![s[0]] + sorted_insert(x, s.drop_first())
    }
}

/// `s` sorted by key; entries with equal keys keep their order.
pub open spec fn sort_by_key(s: Seq<(Seq<char>, Seq<char>)>) -> Seq<(Seq<char>, Seq<char>)>
    decreases s.len(),
{
    if s.len() == 0 {
        Seq::empty()
    } else {
        sorted_insert(s.last(), sort_by_key(s.drop_last()))
    }
}

proof fn lemma_sorted_insert_at(x: (Seq<char>, Seq<char>), s: Seq<(Seq<char>, Seq<char>)>, p: int)
    requires
        0 <= p <= s.len(),
        forall|j: int| 0 <= j < p ==> !chars_lt(x.0, #[trigger] s[j].0),
        p < s.len() ==> chars_lt(x.0, s[p].0),
    ensures
        sorted_insert(x, s) == s.take(p).push(x) + s.skip(p),
    decreases p,
{
    if p == 0 {
        assert(s.take(0).push(x) + s.skip(0) =~= seq![x] + s);
    } else {
        let t = s.drop_first();
        assert forall|j: int| 0 <= j < p - 1 implies !chars_lt(x.0, #[trigger] t[j].0) by {
            assert(t[j] == s[j + 1]);
        }
        lemma_sorted_insert_at(x, t, p - 1);
        assert(seq![s[0]] + (t.take(p - 1).push(x) + t.skip(p - 1)) =~= s.take(p).push(x)
            + s.skip(p));
    }
}

fn insert_position(out: &Vec<(String, String)>, key: &str) -> (p: usize)
    ensures
        p <= out@.len(),
        forall|j: int| 0 <= j < p ==> !chars_lt(key@, #[trigger] entry_views(out@)[j].0),
        p < out@.len() ==> chars_lt(key@, entry_views(out@)[p as int].0),
{
    let ghost s = entry_views(out@);
    for p in 0..out.len()
        invariant
            s == entry_views(out@),
            forall|j: int| 0 <= j < p ==> !chars_lt(key@, #[trigger] s[j].0),
    {
        proof {
            assert(s[p as int].0 == out@[p as int].0@);
        }
        if str_lt(key, out[p].0.as_str()) {
            return p;
        }
    }
    out.len()
}

fn insert_sorted(out: &mut Vec<(String, String)>, x: (String, String))
    ensures
        entry_views(final(out)@) == sorted_insert((x.0@, x.1@), entry_views(old(out)@)),
{
    let ghost s = entry_views(out@);
    let ghost xv = (x.0@, x.1@);
    let p = insert_position(out, x.0.as_str());
    proof {
        lemma_sorted_insert_at(xv, s, p as int);
    }
    out.insert(p, x);
    proof {
        assert(entry_views(out@) =~= s.take(p as int).push(xv) + s.skip(p as int));
    }
}

/// The entries of `v` sorted by key; entries with equal keys keep their order.
pub fn sort_entries(v: &Vec<(String, String)>) -> (res: Vec<(String, String)>)
    ensures
        entry_views(res@) == sort_by_key(entry_views(v@)),
{
    let mut out: Vec<(String, String)> = Vec::new();
    for i in 0..v.len()
        invariant
            entry_views(out@) == sort_by_key(entry_views(v@).take(i as int)),
    {
        let x = (copy_string(v[i].0.as_str()), copy_string(v[i].1.as_str()));
        proof {
            let t = entry_views(v@).take(i + 1);
            assert(t.drop_last() =~= entry_views(v@).take(i as int));
            assert(t.last() == (x.0@, x.1@));
        }
        insert_sorted(&mut out, x);
    }
    proof {
        assert(entry_views(v@).take(v@.len() as int) =~= entry_views(v@));
    }
    out
}

// ---------------------------------------------------------------------------
// What sorting keeps
// ---------------------------------------------------------------------------

/// Keys never decrease along `s`.
pub open spec fn is_sorted_by_key(s: Seq<(Seq<char>, Seq<char>)>) -> bool {
    forall|i: int, j: int| 0 <= i < j < s.len() ==> !chars_lt(#[trigger] s[j].0, #[trigger] s[i].0)
}

/// Keys strictly increase along `s`.
pub open spec fn is_strictly_sorted_by_key(s: Seq<(Seq<char>, Seq<char>)>) -> bool {
    forall|i: int, j: int| 0 <= i < j < s.len() ==> chars_lt(#[trigger] s[i].0, #[trigger] s[j].0)
}

/// Where `sorted_insert` puts `x`.
proof fn sorted_insert_position(x: (Seq<char>, Seq<char>), s: Seq<(Seq<char>, Seq<char>)>) -> (p: int)
    ensures
        0 <= p <= s.len(),
        forall|j: int| 0 <= j < p ==> !chars_lt(x.0, #[trigger] s[j].0),
        p < s.len() ==> chars_lt(x.0, s[p].0),
        sorted_insert(x, s) == s.take(p).push(x) + s.skip(p),
    decreases s.len(),
{
    if s.len() == 0 || chars_lt(x.0, s[0].0) {
        lemma_sorted_insert_at(x, s, 0);
        0
    } else {
        let t = s.drop_first();
        let q = sorted_insert_position(x, t);
        assert forall|j: int| 0 <= j < q + 1 implies !chars_lt(x.0, #[trigger] s[j].0) by {
            if j > 0 {
                assert(s[j] == t[j - 1]);
            }
        }
        if q + 1 < s.len() {
            assert(s[q + 1] == t[q]);
        }
        lemma_sorted_insert_at(x, s, q + 1);
        q + 1
    }
}

proof fn lemma_sorted_insert_sorted(x: (Seq<char>, Seq<char>), s: Seq<(Seq<char>, Seq<char>)>)
    requires
        is_sorted_by_key(s),
    ensures
        is_sorted_by_key(sorted_insert(x, s)),
{
    let p = sorted_insert_position(x, s);
    let r = sorted_insert(x, s);
    assert forall|i: int, j: int| 0 <= i < j < r.len() implies !chars_lt(
        #[trigger] r[j].0,
        #[trigger] r[i].0,
    ) by {
        if j < p {
            assert(r[i] == s[i] && r[j] == s[j]);
        } else if j == p {
            assert(r[j] == x && r[i] == s[i]);
        } else if i == p {
            assert(r[i] == x && r[j] == s[j - 1]);
            if chars_lt(s[j - 1].0, x.0) {
                lemma_chars_lt_strict_total_order(s[j - 1].0, x.0, s[p].0);
                if j - 1 > p {
                    assert(!chars_lt(s[j - 1].0, s[p].0));
                }
                lemma_chars_lt_strict_total_order(s[p].0, s[p].0, s[p].0);
            }
        } else if i < p {
            assert(r[i] == s[i] && r[j] == s[j - 1]);
        } else {
            assert(r[i] == s[i - 1] && r[j] == s[j - 1]);
        }
    }
}

/// Sorting puts keys in non-decreasing order.
pub proof fn lemma_sort_sorted(s: Seq<(Seq<char>, Seq<char>)>)
    ensures
        is_sorted_by_key(sort_by_key(s)),
    decreases s.len(),
{
    if s.len() > 0 {
        lemma_sort_sorted(s.drop_last());
        lemma_sorted_insert_sorted(s.last(), sort_by_key(s.drop_last()));
    }
}

/// Sorting keeps the entries: the result is a permutation of `s`.
pub proof fn lemma_sort_permutation(s: Seq<(Seq<char>, Seq<char>)>)
    ensures
        sort_by_key(s).to_multiset() == s.to_multiset(),
    decreases s.len(),
{
    broadcast use vstd::seq_lib::group_to_multiset_ensures;

    if s.len() > 0 {
        let t = s.drop_last();
        let r = sort_by_key(t);
        lemma_sort_permutation(t);
        let p = sorted_insert_position(s.last(), r);
        vstd::seq_lib::lemma_multiset_commutative(r.take(p).push(s.last()), r.skip(p));
        vstd::seq_lib::lemma_multiset_commutative(r.take(p), r.skip(p));
        assert(r.take(p) + r.skip(p) =~= r);
        assert(t.push(s.last()) =~= s);
        assert(sort_by_key(s).to_multiset() =~= s.to_multiset());
    }
}

/// Every entry of `s` is in `sort_by_key(s)` and the other way round.
pub proof fn lemma_sort_same_entries(s: Seq<(Seq<char>, Seq<char>)>, e: (Seq<char>, Seq<char>))
    ensures
        sort_by_key(s).contains(e) <==> s.contains(e),
{
    broadcast use vstd::seq_lib::group_to_multiset_ensures;

    lemma_sort_permutation(s);
    assert(sort_by_key(s).to_multiset().count(e) == s.to_multiset().count(e));
}

/// With distinct keys, sorting makes keys strictly increase and keeps them
/// distinct.
pub proof fn lemma_sort_distinct(s: Seq<(Seq<char>, Seq<char>)>)
    requires
        distinct_names(s),
    ensures
        distinct_names(sort_by_key(s)),
        is_strictly_sorted_by_key(sort_by_key(s)),
    decreases s.len(),
{
    if s.len() > 0 {
        let t = s.drop_last();
        let x = s.last();
        let r = sort_by_key(t);
        assert(distinct_names(t));
        lemma_sort_distinct(t);
        let p = sorted_insert_position(x, r);
        assert forall|k: int| 0 <= k < r.len() implies r[k].0 != x.0 by {
            lemma_sort_same_entries(t, r[k]);
            assert(r.contains(r[k]));
            let m = choose|m: int| 0 <= m < t.len() && t[m] == r[k];
            assert(s[m] == t[m]);
            assert(s[s.len() - 1] == x);
        }
        let q = sort_by_key(s);
        assert(q == r.take(p).push(x) + r.skip(p));
        assert forall|i: int, j: int| 0 <= i < q.len() && 0 <= j < q.len() && i != j implies q[i].0
            != q[j].0 by {
            let ri = if i < p { i } else { i - 1 };
            let rj = if j < p { j } else { j - 1 };
            if i != p && j != p {
                assert(q[i] == r[ri] && q[j] == r[rj]);
            } else if i == p {
                assert(q[i] == x && q[j] == r[rj]);
            } else {
                assert(q[j] == x && q[i] == r[ri]);
            }
        }
        lemma_sort_sorted(s);
        assert forall|i: int, j: int| 0 <= i < j < q.len() implies chars_lt(
            #[trigger] q[i].0,
            #[trigger] q[j].0,
        ) by {
            assert(!chars_lt(q[j].0, q[i].0));
            lemma_chars_lt_strict_total_order(q[i].0, q[j].0, q[j].0);
        }
    }
}

} // verus!
