//! Fuzzy matching: substring and subsequence scoring of a query against a
//! target, plus bracket highlighting of the matched characters.
//!
//! Both strings are ASCII-case-folded before matching.  A verbatim substring
//! occurrence scores from a base of 100, with a bonus of 50 when the target
//! starts with the query and 30 when the query follows a space, minus twice
//! the length difference.  A mere in-order subsequence occurrence scores from
//! a base of 50, plus ten per character of the longest greedy consecutive run,
//! minus five per position of the first matched character, plus a length-ratio
//! reward.  Every stage is clamped to the `u32` range.

use vstd::prelude::*;
use crate::strutil::{
    chars_of, contains_seq, fold, fold_char, folded_chars_of, is_prefix,
    is_subsequence, is_subsequence_of, is_substring, lemma_fold_idempotent, starts_with_seq,
    string_from_chars,
};

verus! {

/// `x` clamped to the range of `u32`.
pub open spec fn clamp_u32(x: int) -> int {
    if x < 0 {
        0
    } else if x > u32::MAX {
        u32::MAX as int
    } else {
        x
    }
}

/// State machine of the greedy consecutive-run count: walking the target from
/// index `ti` with the next query index `qi`, current run `cur` and best run
/// `mx`, the final best run.
pub open spec fn consecutive_from(
    q: Seq<char>,
    t: Seq<char>,
    ti: int,
    qi: int,
    cur: int,
    mx: int,
) -> int
    decreases t.len() - ti,
{
    if ti < 0 || ti >= t.len() {
        if cur > mx {
            cur
        } else {
            mx
        }
    } else if 0 <= qi && qi < q.len() && t[ti] == q[qi] {
        consecutive_from(q, t, ti + 1, qi + 1, cur + 1, mx)
    } else {
        consecutive_from(q, t, ti + 1, qi, 0, if cur > mx {
            cur
        } else {
            mx
        })
    }
}

/// The longest run found by the greedy left-to-right scan that matches
/// consecutive query characters in order.
pub open spec fn consecutive_run(q: Seq<char>, t: Seq<char>) -> int {
    consecutive_from(q, t, 0, 0, 0, 0)
}

/// The index of the first occurrence of `c` in `t`, or `t.len()` if absent.
pub open spec fn first_index_of(t: Seq<char>, c: char) -> int
    decreases t.len(),
{
    if t.len() == 0 {
        0
    } else if t[0] == c {
        0
    } else {
        1 + first_index_of(t.drop_first(), c)
    }
}

/// Where the first character of the query first occurs in the target; 0 for
/// an empty query, `t.len()` when the character is absent.
pub open spec fn first_match_position(q: Seq<char>, t: Seq<char>) -> int {
    if q.len() == 0 {
        0
    } else {
        first_index_of(t, q[0])
    }
}

/// Score of a verbatim substring occurrence of `q` in `t`.
pub open spec fn contain_score(q: Seq<char>, t: Seq<char>) -> int {
    let base = 100 + (if is_prefix(q, t) {
        50int
    } else {
        0int
    }) + (if is_substring(seq![' '] + q, t) {
        30int
    } else {
        0int
    });
    clamp_u32(base - 2 * (t.len() - q.len()))
}

/// Score of an in-order subsequence occurrence of `q` in `t`.
pub open spec fn subsequence_score(q: Seq<char>, t: Seq<char>) -> int {
    let with_run = clamp_u32(50 + 10 * consecutive_run(q, t));
    let with_pos = clamp_u32(with_run - 5 * first_match_position(q, t));
    let ratio = if t.len() > 0 {
        20 * q.len() as int / t.len() as int
    } else {
        0int
    };
    clamp_u32(with_pos + ratio)
}

/// What `fuzzy_match` returns on already-folded sequences: whether the query
/// matches the target, and with which score.
pub open spec fn fuzzy_spec(q: Seq<char>, t: Seq<char>) -> (bool, int) {
    if q.len() == 0 {
        (true, 0int)
    } else if is_substring(q, t) {
        (true, contain_score(q, t))
    } else if is_subsequence(q, t) {
        (true, subsequence_score(q, t))
    } else {
        (false, 0int)
    }
}

/// A substring occurrence needs the query to be no longer than the target.
pub proof fn lemma_substring_len(q: Seq<char>, t: Seq<char>)
    requires
        is_substring(q, t),
    ensures
        q.len() <= t.len(),
{
    let i = choose|i: int|
        0 <= i <= t.len() - q.len() && #[trigger] t.subrange(i, i + q.len() as int) =~= q;
    assert(0 <= i <= t.len() - q.len());
}

/// A nonempty subsequence occurrence needs a nonempty target.
pub proof fn lemma_subsequence_nonempty(q: Seq<char>, t: Seq<char>)
    requires
        is_subsequence(q, t),
        q.len() > 0,
    ensures
        t.len() > 0,
{
}

/// Matching is insensitive to the case of its inputs: folding the inputs
/// before the match changes nothing, because folding is idempotent.
pub proof fn lemma_fuzzy_match_case_insensitive(q: Seq<char>, t: Seq<char>)
    ensures
        fuzzy_spec(fold(q), fold(t)) == fuzzy_spec(fold(fold(q)), fold(fold(t))),
{
    lemma_fold_idempotent(q);
    lemma_fold_idempotent(t);
}

/// Score of a substring occurrence of `query` in `target`, both taken as
/// given (the caller folds them first).
pub fn calculate_contain_score(query: &str, target: &str) -> (r: u32)
    requires
        is_substring(query@, target@),
    ensures
        r as int == contain_score(query@, target@),
{
    let q = chars_of(query);
    let t = chars_of(target);
    proof {
        lemma_substring_len(query@, target@);
    }
    let mut base: u128 = 100;
    if starts_with_seq(&t, &q) {
        base += 50;
    }
    let mut space_q: Vec<char> = Vec::new();
    space_q.push(' ');
    let mut i: usize = 0;
    while i < q.len()
        invariant
            i <= q@.len(),
            space_q@ == seq![' '] + q@.take(i as int),
        decreases q@.len() - i,
    {
        space_q.push(q[i]);
        i += 1;
        assert(space_q@ =~= seq![' '] + q@.take(i as int));
    }
    assert(space_q@ =~= seq![' '] + q@);
    if contains_seq(&t, &space_q) {
        base += 30;
    }
    let pen: u128 = 2 * ((t.len() - q.len()) as u128);
    let score: u128 = if pen >= base {
        0
    } else {
        base - pen
    };
    assert(score <= 180);
    score as u32
}

/// Whether every character of `query` occurs in `target` in order.
pub fn fuzzy_char_match(query: &str, target: &str) -> (r: bool)
    ensures
        r == is_subsequence(query@, target@),
{
    let q = chars_of(query);
    let t = chars_of(target);
    is_subsequence_of(&q, &t)
}

/// The greedy consecutive-run count, executable form.
pub fn count_consecutive_matches(query: &str, target: &str) -> (r: usize)
    ensures
        r as int == consecutive_run(query@, target@),
{
    let q = chars_of(query);
    let t = chars_of(target);
    let mut cur: usize = 0;
    let mut mx: usize = 0;
    let mut qi: usize = 0;
    let mut ti: usize = 0;
    while ti < t.len()
        invariant
            ti <= t@.len(),
            qi <= q@.len(),
            cur <= ti,
            mx <= ti,
            q@ == query@,
            t@ == target@,
            consecutive_run(query@, target@) == consecutive_from(
                query@,
                target@,
                ti as int,
                qi as int,
                cur as int,
                mx as int,
            ),
        decreases t@.len() - ti,
    {
        if qi < q.len() && t[ti] == q[qi] {
            cur += 1;
            qi += 1;
        } else {
            if cur > mx {
                mx = cur;
            }
            cur = 0;
        }
        ti += 1;
    }
    if cur > mx {
        mx = cur;
    }
    mx
}

/// The index in `target` of the first occurrence of the query's first
/// character, executable form.
pub fn find_first_match_position(query: &str, target: &str) -> (r: usize)
    ensures
        r as int == first_match_position(query@, target@),
{
    let q = chars_of(query);
    let t = chars_of(target);
    if q.len() == 0 {
        return 0;
    }
    let c = q[0];
    let mut i: usize = 0;
    assert(target@.skip(0) =~= target@);
    while i < t.len()
        invariant
            i <= t@.len(),
            t@ == target@,
            c == query@[0],
            query@.len() > 0,
            first_index_of(target@, c) == i + first_index_of(target@.skip(i as int), c),
        decreases t@.len() - i,
    {
        let ghost ts = target@.skip(i as int);
        if t[i] == c {
            assert(ts[0] == c);
            return i;
        }
        assert(ts[0] != c);
        assert(ts.drop_first() =~= target@.skip(i + 1));
        i += 1;
    }
    assert(target@.skip(i as int) =~= Seq::<char>::empty());
    i
}

/// Score of a subsequence occurrence of `query` in `target`, both taken as
/// given (the caller folds them first).
pub fn calculate_fuzzy_score(query: &str, target: &str) -> (r: u32)
    requires
        is_subsequence(query@, target@),
        query@.len() > 0,
    ensures
        r as int == subsequence_score(query@, target@),
{
    proof {
        lemma_subsequence_nonempty(query@, target@);
    }
    let run = count_consecutive_matches(query, target);
    let pos = find_first_match_position(query, target);
    let qn = chars_of(query).len();
    let tn = chars_of(target).len();
    let with_run128: u128 = 50 + 10 * (run as u128);
    let with_run: u128 = if with_run128 > 0xffff_ffff {
        0xffff_ffff
    } else {
        with_run128
    };
    let pos5: u128 = 5 * (pos as u128);
    let with_pos: u128 = if pos5 >= with_run {
        0
    } else {
        with_run - pos5
    };
    let ratio: u128 = 20 * (qn as u128) / (tn as u128);
    let total128: u128 = with_pos + ratio;
    let total: u128 = if total128 > 0xffff_ffff {
        0xffff_ffff
    } else {
        total128
    };
    total as u32
}

/// Whether `query` fuzzily matches `target`, and with which score.  Both are
/// case-folded first; an empty query matches everything with score zero.
pub fn fuzzy_match(query: &str, target: &str) -> (r: (bool, u32))
    ensures
        r.0 == fuzzy_spec(fold(query@), fold(target@)).0,
        r.1 as int == fuzzy_spec(fold(query@), fold(target@)).1,
{
    let fq = folded_chars_of(query);
    let ft = folded_chars_of(target);
    if fq.len() == 0 {
        return (true, 0);
    }
    let fqs = string_from_chars(&fq);
    let fts = string_from_chars(&ft);
    if contains_seq(&ft, &fq) {
        let score = calculate_contain_score(fqs.as_str(), fts.as_str());
        return (true, score);
    }
    if fuzzy_char_match(fqs.as_str(), fts.as_str()) {
        let score = calculate_fuzzy_score(fqs.as_str(), fts.as_str());
        return (true, score);
    }
    (false, 0)
}

/// The highlighted form of `t` under the greedy left-to-right match against
/// the folded query `fq`: each matched target character is wrapped in `[`
/// and `]`, unmatched characters pass through unchanged.
pub open spec fn highlight(fq: Seq<char>, t: Seq<char>) -> Seq<char>
    decreases t.len(),
{
    if t.len() == 0 {
        Seq::<char>::empty()
    } else if fq.len() > 0 && fold_char(t[0]) == fq[0] {
        seq!['[', t[0], ']'] + highlight(fq.drop_first(), t.drop_first())
    } else {
        seq![t[0]] + highlight(fq, t.drop_first())
    }
}

/// `s` with every `[` and `]` removed.
pub open spec fn strip_brackets(s: Seq<char>) -> Seq<char> {
    s.filter(|c: char| c != '[' && c != ']')
}

/// Stripping all brackets from the highlighted form reproduces the target,
/// whenever the target itself holds no bracket characters.
pub proof fn lemma_highlight_strip_roundtrip(fq: Seq<char>, t: Seq<char>)
    requires
        forall|i: int| 0 <= i < t.len() ==> t[i] != '[' && t[i] != ']',
    ensures
        strip_brackets(highlight(fq, t)) == t,
    decreases t.len(),
{
    broadcast use vstd::seq_lib::group_filter_ensures;

    let pred = |c: char| c != '[' && c != ']';
    if t.len() == 0 {
        assert(strip_brackets(highlight(fq, t)) =~= t);
    } else if fq.len() > 0 && fold_char(t[0]) == fq[0] {
        lemma_highlight_strip_roundtrip(fq.drop_first(), t.drop_first());
        let head = seq!['[', t[0], ']'];
        Seq::<char>::filter_distributes_over_add(
            head,
            highlight(fq.drop_first(), t.drop_first()),
            pred,
        );
        assert(head.filter(pred) =~= seq![t[0]]) by {
            reveal_with_fuel(Seq::filter, 4);
            assert(head.drop_last() =~= seq!['[', t[0]]);
            assert(head.drop_last().drop_last() =~= seq!['[']);
            assert(head.drop_last().drop_last().drop_last() =~= Seq::<char>::empty());
        }
        assert(strip_brackets(highlight(fq, t)) =~= t);
    } else {
        lemma_highlight_strip_roundtrip(fq, t.drop_first());
        let head = seq![t[0]];
        Seq::<char>::filter_distributes_over_add(
            head,
            highlight(fq, t.drop_first()),
            pred,
        );
        assert(head.filter(pred) =~= seq![t[0]]) by {
            reveal_with_fuel(Seq::filter, 2);
            assert(head.drop_last() =~= Seq::<char>::empty());
        }
        assert(strip_brackets(highlight(fq, t)) =~= t);
    }
}

/// `target` with every character that the greedy match against `query`
/// consumes wrapped in `[` and `]`.  An empty query highlights nothing.
pub fn highlight_matches(query: &str, target: &str) -> (r: String)
    ensures
        query@.len() == 0 ==> r@ == target@,
        query@.len() > 0 ==> r@ == highlight(fold(query@), target@),
{
    if query.is_empty() {
        return concat_empty(target);
    }
    let fq = folded_chars_of(query);
    let t = chars_of(target);
    let mut out: Vec<char> = Vec::new();
    let mut qi: usize = 0;
    let mut ti: usize = 0;
    assert(fq@.skip(0) =~= fq@);
    assert(t@.skip(0) =~= t@);
    while ti < t.len()
        invariant
            ti <= t@.len(),
            qi <= fq@.len(),
            t@ == target@,
            fq@ == fold(query@),
            highlight(fq@, t@) == out@ + highlight(fq@.skip(qi as int), t@.skip(ti as int)),
        decreases t@.len() - ti,
    {
        let ghost qs = fq@.skip(qi as int);
        let ghost ts = t@.skip(ti as int);
        assert(ts[0] == t@[ti as int]);
        if qi < fq.len() && lower_char_eq(t[ti], fq[qi]) {
            assert(qs[0] == fq@[qi as int]);
            out.push('[');
            out.push(t[ti]);
            out.push(']');
            assert(qs.drop_first() =~= fq@.skip(qi + 1));
            assert(ts.drop_first() =~= t@.skip(ti + 1));
            assert(highlight(qs, ts) == seq!['[', ts[0], ']'] + highlight(
                fq@.skip(qi + 1),
                t@.skip(ti + 1),
            ));
            qi += 1;
        } else {
            assert(!(qs.len() > 0 && fold_char(ts[0]) == qs[0]));
            out.push(t[ti]);
            assert(ts.drop_first() =~= t@.skip(ti + 1));
            assert(highlight(qs, ts) == seq![ts[0]] + highlight(qs, t@.skip(ti + 1)));
        }
        ti += 1;
        assert(highlight(fq@, t@) =~= out@ + highlight(fq@.skip(qi as int), t@.skip(ti as int)));
    }
    assert(t@.skip(ti as int) =~= Seq::<char>::empty());
    assert(highlight(fq@, t@) =~= out@);
    string_from_chars(&out)
}

/// Whether `c` folds to the already-folded character `f`.
fn lower_char_eq(c: char, f: char) -> (r: bool)
    ensures
        r == (fold_char(c) == f),
{
    crate::strutil::lower_char(c) == f
}

/// A fresh copy of `s` as a `String`.
fn concat_empty(s: &str) -> (r: String)
    ensures
        r@ == s@,
{
    let v = chars_of(s);
    string_from_chars(&v)
}

} // verus!
