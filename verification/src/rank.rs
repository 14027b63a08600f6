//! Ranking of merged results: a stable sort by score, descending.
//!
//! The sort is pinned to the spec function [`sort_desc`], an insertion sort
//! that inserts each element after every element whose score is at least its
//! own.  Three laws follow: the output is sorted by score descending, it is a
//! permutation of the input, and for every score value the subsequence of
//! elements carrying that score is exactly the input's — which is stability:
//! elements of equal score keep their relative order.

use vstd::prelude::*;
use crate::search::SearchResult;

verus! {

/// Scores never increase along the sequence.
pub open spec fn sorted_desc(s: Seq<SearchResult>) -> bool {
    forall|i: int, j: int| 0 <= i < j < s.len() ==> s[i].score >= s[j].score
}

/// `x` inserted into `s` after every element whose score is `>= x.score`.
pub open spec fn insert_desc(s: Seq<SearchResult>, x: SearchResult) -> Seq<SearchResult>
    decreases s.len(),
{
    if s.len() == 0 {
        seq![x]
    } else if s[0].score >= x.score {
        seq![s[0]] + insert_desc(s.drop_first(), x)
    } else {
        seq![x] + s
    }
}

/// The stable descending sort of `s`: elements are inserted left to right,
/// each after all elements with a score at least its own.
pub open spec fn sort_desc(s: Seq<SearchResult>) -> Seq<SearchResult>
    decreases s.len(),
{
    if s.len() == 0 {
        Seq::<SearchResult>::empty()
    } else {
        insert_desc(sort_desc(s.drop_last()), s.last())
    }
}

/// Inserting adds exactly one element.
pub proof fn lemma_insert_desc_len(s: Seq<SearchResult>, x: SearchResult)
    ensures
        insert_desc(s, x).len() == s.len() + 1,
    decreases s.len(),
{
    if s.len() > 0 && s[0].score >= x.score {
        lemma_insert_desc_len(s.drop_first(), x);
    }
}

/// Sorting keeps the length.
pub proof fn lemma_sort_desc_len(s: Seq<SearchResult>)
    ensures
        sort_desc(s).len() == s.len(),
    decreases s.len(),
{
    if s.len() > 0 {
        lemma_sort_desc_len(s.drop_last());
        lemma_insert_desc_len(sort_desc(s.drop_last()), s.last());
    }
}

/// Inserting into a sorted sequence keeps it sorted.
pub proof fn lemma_insert_desc_sorted(s: Seq<SearchResult>, x: SearchResult)
    requires
        sorted_desc(s),
    ensures
        sorted_desc(insert_desc(s, x)),
    decreases s.len(),
{
    lemma_insert_desc_len(s, x);
    if s.len() == 0 {
    } else if s[0].score >= x.score {
        let rest = s.drop_first();
        assert(sorted_desc(rest));
        lemma_insert_desc_sorted(rest, x);
        lemma_insert_desc_len(rest, x);
        let r = seq![s[0]] + insert_desc(rest, x);
        assert forall|i: int, j: int| 0 <= i < j < r.len() implies r[i].score >= r[j].score by {
            if i == 0 {
                lemma_insert_desc_head_bound(rest, x, s[0].score, j - 1);
            }
        }
    } else {
        let r = seq![x] + s;
        assert forall|i: int, j: int| 0 <= i < j < r.len() implies r[i].score >= r[j].score by {
            if i == 0 && j > 0 {
                if j - 1 > 0 {
                    assert(s[0].score >= s[j - 1].score);
                }
            }
        }
    }
}

/// Every element of `insert_desc(s, x)` has a score bounded by `b` whenever
/// `x` and every element of `s` do.
proof fn lemma_insert_desc_head_bound(s: Seq<SearchResult>, x: SearchResult, b: u32, k: int)
    requires
        b >= x.score,
        forall|i: int| 0 <= i < s.len() ==> b >= #[trigger] s[i].score,
        0 <= k < insert_desc(s, x).len(),
    ensures
        b >= insert_desc(s, x)[k].score,
    decreases s.len(),
{
    lemma_insert_desc_len(s, x);
    if s.len() == 0 {
    } else if s[0].score >= x.score {
        if k > 0 {
            let rest = s.drop_first();
            lemma_insert_desc_head_bound(rest, x, b, k - 1);
        }
    }
}

/// Inserting adds the element to the multiset of the sequence.
pub proof fn lemma_insert_desc_multiset(s: Seq<SearchResult>, x: SearchResult)
    ensures
        insert_desc(s, x).to_multiset() == s.to_multiset().insert(x),
    decreases s.len(),
{
    broadcast use vstd::seq_lib::group_to_multiset_ensures;

    if s.len() == 0 {
        assert(seq![x] =~= Seq::<SearchResult>::empty().push(x));
        assert(insert_desc(s, x).to_multiset() =~= s.to_multiset().insert(x));
    } else if s[0].score >= x.score {
        let rest = s.drop_first();
        lemma_insert_desc_multiset(rest, x);
        let r = seq![s[0]] + insert_desc(rest, x);
        vstd::seq_lib::lemma_multiset_commutative(seq![s[0]], insert_desc(rest, x));
        vstd::seq_lib::lemma_multiset_commutative(seq![s[0]], rest);
        assert(s =~= seq![s[0]] + rest);
        assert(r.to_multiset() =~= s.to_multiset().insert(x));
    } else {
        let r = seq![x] + s;
        vstd::seq_lib::lemma_multiset_commutative(seq![x], s);
        assert(r.to_multiset() =~= s.to_multiset().insert(x));
    }
}

/// The sort permutes its input: the multiset of elements is unchanged.
pub proof fn lemma_sort_desc_permutes(s: Seq<SearchResult>)
    ensures
        sort_desc(s).to_multiset() == s.to_multiset(),
    decreases s.len(),
{
    broadcast use vstd::seq_lib::group_to_multiset_ensures;

    if s.len() > 0 {
        lemma_sort_desc_permutes(s.drop_last());
        lemma_insert_desc_multiset(sort_desc(s.drop_last()), s.last());
        assert(s =~= s.drop_last().push(s.last()));
        assert(s.to_multiset() =~= s.drop_last().to_multiset().insert(s.last()));
    }
}

/// The sort's output is sorted by score, descending.
pub proof fn lemma_sort_desc_sorted(s: Seq<SearchResult>)
    ensures
        sorted_desc(sort_desc(s)),
    decreases s.len(),
{
    if s.len() > 0 {
        lemma_sort_desc_sorted(s.drop_last());
        lemma_insert_desc_sorted(sort_desc(s.drop_last()), s.last());
    }
}

/// In a sorted sequence whose head's score is below `sc`, no element carries
/// score `sc`: filtering for it yields the empty sequence.
proof fn lemma_sorted_below_filter_empty(s: Seq<SearchResult>, sc: u32)
    requires
        sorted_desc(s),
        s.len() == 0 || s[0].score < sc,
    ensures
        s.filter(|r: SearchResult| r.score == sc) =~= Seq::<SearchResult>::empty(),
{
    broadcast use vstd::seq_lib::group_filter_ensures;

    let pred = |r: SearchResult| r.score == sc;
    if s.filter(pred).len() > 0 {
        let f = s.filter(pred);
        assert(s.filter(pred).contains(f[0]));
        s.lemma_filter_contains_rev(pred, f[0]);
        let i = choose|i: int| 0 <= i < s.len() && s[i] == f[0];
        assert(pred(f[0]));
        assert(s[i].score == sc);
        assert(s[0].score >= s[i].score || i == 0);
    }
}

/// Inserting `x` appends it to the subsequence of elements with its score and
/// leaves every other score's subsequence unchanged, provided `s` is sorted.
proof fn lemma_insert_desc_filter(s: Seq<SearchResult>, x: SearchResult, sc: u32)
    requires
        sorted_desc(s),
    ensures
        x.score == sc ==> insert_desc(s, x).filter(|r: SearchResult| r.score == sc) =~= s.filter(
            |r: SearchResult| r.score == sc,
        ).push(x),
        x.score != sc ==> insert_desc(s, x).filter(|r: SearchResult| r.score == sc) =~= s.filter(
            |r: SearchResult| r.score == sc,
        ),
    decreases s.len(),
{
    broadcast use vstd::seq_lib::group_filter_ensures;

    let pred = |r: SearchResult| r.score == sc;
    if s.len() == 0 {
        assert(seq![x] =~= Seq::<SearchResult>::empty() + seq![x]);
        Seq::<SearchResult>::filter_distributes_over_add(Seq::<SearchResult>::empty(), seq![x], pred);
        lemma_filter_singleton(x, sc);
    } else if s[0].score >= x.score {
        let rest = s.drop_first();
        assert(sorted_desc(rest));
        lemma_insert_desc_filter(rest, x, sc);
        let r = seq![s[0]] + insert_desc(rest, x);
        Seq::<SearchResult>::filter_distributes_over_add(seq![s[0]], insert_desc(rest, x), pred);
        assert(s =~= seq![s[0]] + rest);
        Seq::<SearchResult>::filter_distributes_over_add(seq![s[0]], rest, pred);
        lemma_filter_singleton(s[0], sc);
    } else {
        // x goes in front; since s is sorted and its head is below x.score,
        // no element of s carries x.score.
        let r = seq![x] + s;
        Seq::<SearchResult>::filter_distributes_over_add(seq![x], s, pred);
        lemma_filter_singleton(x, sc);
        if x.score == sc {
            lemma_sorted_below_filter_empty(s, sc);
            assert(seq![x].filter(pred) =~= seq![x]);
            assert(r.filter(pred) =~= seq![x] + Seq::<SearchResult>::empty());
            assert(r.filter(pred) =~= s.filter(pred).push(x));
        }
    }
}

/// What a one-element sequence filters to, for the score predicate.
proof fn lemma_filter_singleton(x: SearchResult, sc: u32)
    ensures
        x.score == sc ==> seq![x].filter(|r: SearchResult| r.score == sc) =~= seq![x],
        x.score != sc ==> seq![x].filter(|r: SearchResult| r.score == sc) =~= Seq::<
            SearchResult,
        >::empty(),
{
    reveal_with_fuel(Seq::filter, 2);
    assert(seq![x].drop_last() =~= Seq::<SearchResult>::empty());
}

/// Stability: for every score value, the subsequence of elements carrying
/// that score is the same before and after sorting, so elements of equal
/// score keep their relative order.
pub proof fn lemma_sort_desc_stable(s: Seq<SearchResult>, sc: u32)
    ensures
        sort_desc(s).filter(|r: SearchResult| r.score == sc) == s.filter(
            |r: SearchResult| r.score == sc,
        ),
    decreases s.len(),
{
    broadcast use vstd::seq_lib::group_filter_ensures;

    let pred = |r: SearchResult| r.score == sc;
    if s.len() == 0 {
    } else {
        let init = s.drop_last();
        let x = s.last();
        lemma_sort_desc_stable(init, sc);
        lemma_sort_desc_sorted(init);
        lemma_insert_desc_filter(sort_desc(init), x, sc);
        assert(s =~= init + seq![x]);
        Seq::<SearchResult>::filter_distributes_over_add(init, seq![x], pred);
        lemma_filter_singleton(x, sc);
        if x.score == sc {
            assert(s.filter(pred) =~= init.filter(pred).push(x));
        } else {
            assert(s.filter(pred) =~= init.filter(pred));
        }
        assert(sort_desc(s).filter(pred) =~= s.filter(pred));
    }
}

/// Every element of the sorted output occurs in the input.
pub proof fn lemma_sort_desc_membership(s: Seq<SearchResult>, k: int)
    requires
        0 <= k < sort_desc(s).len(),
    ensures
        s.contains(sort_desc(s)[k]),
{
    broadcast use vstd::seq_lib::group_to_multiset_ensures;

    lemma_sort_desc_permutes(s);
    let x = sort_desc(s)[k];
    assert(sort_desc(s).contains(x));
    assert(sort_desc(s).to_multiset().count(x) > 0);
    assert(s.to_multiset().count(x) > 0);
}

/// `insert_desc(s, x)` laid out around the first index `i` of `s` whose score
/// is below `x.score`: the prefix, then `x`, then the rest.
proof fn lemma_insert_desc_split(s: Seq<SearchResult>, x: SearchResult, i: int)
    requires
        0 <= i <= s.len(),
        forall|k: int| 0 <= k < i ==> #[trigger] s[k].score >= x.score,
        i < s.len() ==> s[i].score < x.score,
    ensures
        insert_desc(s, x) =~= s.subrange(0, i) + seq![x] + s.subrange(i, s.len() as int),
    decreases s.len(),
{
    if s.len() == 0 {
        assert(insert_desc(s, x) =~= seq![x]);
        assert(s.subrange(0, 0) =~= Seq::<SearchResult>::empty());
    } else if i == 0 {
        assert(s[0].score < x.score);
        assert(s.subrange(0, 0) =~= Seq::<SearchResult>::empty());
        assert(s.subrange(0, s.len() as int) =~= s);
    } else {
        assert(s[0].score >= x.score);
        let rest = s.drop_first();
        assert forall|k: int| 0 <= k < i - 1 implies #[trigger] rest[k].score >= x.score by {
            assert(s[k + 1].score >= x.score);
        }
        lemma_insert_desc_split(rest, x, i - 1);
        assert(rest.subrange(0, i - 1) =~= s.subrange(1, i));
        assert(rest.subrange(i - 1, rest.len() as int) =~= s.subrange(i, s.len() as int));
        assert(insert_desc(s, x) =~= seq![s[0]] + insert_desc(rest, x));
    }
}

/// The sort, executable form: a stable insertion sort by score, descending.
pub fn sort_by_score_desc(v: Vec<SearchResult>) -> (r: Vec<SearchResult>)
    ensures
        r@ == sort_desc(v@),
{
    let ghost orig = v@;
    let mut rest = v;
    let mut out: Vec<SearchResult> = Vec::new();
    let ghost mut done: int = 0;
    proof {
        assert(orig.take(0) =~= Seq::<SearchResult>::empty());
    }
    while rest.len() > 0
        invariant
            0 <= done <= orig.len(),
            rest@ =~= orig.skip(done),
            out@ == sort_desc(orig.take(done)),
        decreases rest@.len(),
    {
        let x = rest.remove(0);
        assert(x == orig[done]);
        let ghost before = out@;
        let mut idx: usize = 0;
        while idx < out.len() && out[idx].score >= x.score
            invariant
                idx <= out@.len(),
                out@ == before,
                forall|k: int| 0 <= k < idx ==> #[trigger] out@[k].score >= x.score,
            decreases out@.len() - idx,
        {
            idx += 1;
        }
        assert(idx < out@.len() ==> out@[idx as int].score < x.score);
        out.insert(idx, x);
        proof {
            lemma_insert_desc_split(before, x, idx as int);
            assert(out@ =~= insert_desc(before, x));
            let next = orig.take(done + 1);
            assert(next.drop_last() =~= orig.take(done));
            assert(next.last() == orig[done]);
            assert(out@ == sort_desc(next));
            done = done + 1;
            assert(rest@ =~= orig.skip(done));
        }
    }
    proof {
        assert(done == orig.len());
        assert(orig.take(done) =~= orig);
    }
    out
}

/// `v` cut down to at most `limit` elements.
pub fn truncate_results(v: &mut Vec<SearchResult>, limit: usize)
    ensures
        final(v)@ == if old(v)@.len() <= limit {
            old(v)@
        } else {
            old(v)@.subrange(0, limit as int)
        },
{
    if v.len() > limit {
        v.truncate(limit);
    }
}

} // verus!
