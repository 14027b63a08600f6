//! Character-level string utilities: ASCII case folding, conversion between
//! `&str` and `Vec<char>`, and substring / prefix / subsequence predicates.
//!
//! All matching in this crate is done over sequences of characters, case-folded
//! ASCII-wise: `'A'..='Z'` map to `'a'..='z'` and every other character is kept
//! unchanged.

use vstd::prelude::*;
use vstd::string::*;

verus! {

/// ASCII case folding of one character.
pub open spec fn fold_char(c: char) -> char {
    if 65 <= c as u32 && c as u32 <= 90 {
        (((c as u32) + 32) as u8) as char
    } else {
        c
    }
}

/// ASCII case folding of a character sequence, element by element.
pub open spec fn fold(s: Seq<char>) -> Seq<char> {
    s.map_values(|c: char| fold_char(c))
}

/// Folding is idempotent on single characters.
pub proof fn lemma_fold_char_idempotent(c: char)
    ensures
        fold_char(fold_char(c)) == fold_char(c),
{
    if 65 <= c as u32 && c as u32 <= 90 {
        assert(fold_char(c) as u32 == c as u32 + 32);
    }
}

/// Folding is idempotent on sequences.
pub proof fn lemma_fold_idempotent(s: Seq<char>)
    ensures
        fold(fold(s)) == fold(s),
{
    assert forall|i: int| 0 <= i < s.len() implies fold(fold(s))[i] == fold(s)[i] by {
        lemma_fold_char_idempotent(s[i]);
    }
    assert(fold(fold(s)) =~= fold(s));
}

/// Case folding of one character, executable form.
pub fn lower_char(c: char) -> (r: char)
    ensures
        r == fold_char(c),
{
    let u = c as u32;
    if 65 <= u && u <= 90 {
        ((u + 32) as u8) as char
    } else {
        c
    }
}

/// The characters of a string, as a vector.
pub fn chars_of(s: &str) -> (v: Vec<char>)
    ensures
        v@ == s@,
{
    let n = s.unicode_len();
    let mut v: Vec<char> = Vec::new();
    let mut i: usize = 0;
    while i < n
        invariant
            i <= n,
            n == s@.len(),
            v@ == s@.take(i as int),
        decreases n - i,
    {
        v.push(s.get_char(i));
        i += 1;
        assert(v@ =~= s@.take(i as int));
    }
    assert(v@ =~= s@);
    v
}

/// The case-folded characters of a string.
pub fn folded_chars_of(s: &str) -> (v: Vec<char>)
    ensures
        v@ == fold(s@),
{
    let cs = chars_of(s);
    let mut v: Vec<char> = Vec::new();
    let mut i: usize = 0;
    while i < cs.len()
        invariant
            i <= cs.len(),
            cs@ == s@,
            v@ == fold(s@.take(i as int)),
        decreases cs.len() - i,
    {
        v.push(lower_char(cs[i]));
        i += 1;
        assert(v@ =~= fold(s@.take(i as int)));
    }
    assert(v@ =~= fold(s@));
    v
}

/// Relies on std's `FromIterator<&char> for String`: collecting characters
/// yields the string made of exactly those characters, in order.
#[verifier::external_body]
pub fn string_from_chars(v: &Vec<char>) -> (s: String)
    ensures
        s@ == v@,
{
    v.iter().collect()
}

/// Whether `q` occurs in `t` as a contiguous substring.
pub open spec fn is_substring(q: Seq<char>, t: Seq<char>) -> bool {
    exists|i: int| 0 <= i <= t.len() - q.len() && #[trigger] t.subrange(i, i + q.len() as int)
        =~= q
}

/// Whether `q` is a prefix of `t`.
pub open spec fn is_prefix(q: Seq<char>, t: Seq<char>) -> bool {
    q.len() <= t.len() && t.subrange(0, q.len() as int) =~= q
}

/// Whether the characters of `q` all occur in `t`, in the same relative order
/// though not necessarily contiguously, as found by a greedy left-to-right
/// scan that consumes at most one query character per target character.
pub open spec fn is_subsequence(q: Seq<char>, t: Seq<char>) -> bool
    decreases t.len(),
{
    if q.len() == 0 {
        true
    } else if t.len() == 0 {
        false
    } else if t[0] == q[0] {
        is_subsequence(q.drop_first(), t.drop_first())
    } else {
        is_subsequence(q, t.drop_first())
    }
}

/// Whether `q` equals the slice of `t` that starts at `at`.
pub fn matches_at(t: &Vec<char>, q: &Vec<char>, at: usize) -> (r: bool)
    requires
        at + q@.len() <= t@.len(),
    ensures
        r == (t@.subrange(at as int, at + q@.len()) =~= q@),
{
    let qn = q.len();
    let tn = t.len();
    let mut j: usize = 0;
    while j < qn
        invariant
            j <= qn,
            qn == q@.len(),
            tn == t@.len(),
            at + qn <= tn,
            forall|k: int| 0 <= k < j ==> t@[at + k] == q@[k],
        decreases qn - j,
    {
        if t[at + j] != q[j] {
            assert(t@.subrange(at as int, at + q@.len())[j as int] != q@[j as int]);
            return false;
        }
        j += 1;
    }
    assert forall|k: int| 0 <= k < q@.len() implies t@.subrange(at as int, at + q@.len())[k]
        == q@[k] by {}
    true
}

/// Whether `q` occurs in `t` as a contiguous substring, executable form.
pub fn contains_seq(t: &Vec<char>, q: &Vec<char>) -> (r: bool)
    ensures
        r == is_substring(q@, t@),
{
    if q.len() > t.len() {
        assert(!is_substring(q@, t@));
        return false;
    }
    let qn = q.len();
    let tn = t.len();
    let mut i: usize = 0;
    while i <= tn - qn
        invariant
            qn == q@.len(),
            tn == t@.len(),
            qn <= tn,
            i <= tn - qn + 1,
            forall|k: int| 0 <= k < i ==> !(#[trigger] t@.subrange(k, k + q@.len()) =~= q@),
        decreases tn - qn + 1 - i,
    {
        if matches_at(t, q, i) {
            assert(is_substring(q@, t@));
            return true;
        }
        i += 1;
    }
    assert(!is_substring(q@, t@));
    false
}

/// Whether `q` is a prefix of `t`, executable form.
pub fn starts_with_seq(t: &Vec<char>, q: &Vec<char>) -> (r: bool)
    ensures
        r == is_prefix(q@, t@),
{
    if q.len() > t.len() {
        return false;
    }
    matches_at(t, q, 0)
}

/// Whether the characters of `q` appear in order within `t`, executable form.
pub fn is_subsequence_of(q: &Vec<char>, t: &Vec<char>) -> (r: bool)
    ensures
        r == is_subsequence(q@, t@),
{
    let mut qi: usize = 0;
    let mut ti: usize = 0;
    assert(q@.skip(0) =~= q@);
    assert(t@.skip(0) =~= t@);
    while ti < t.len() && qi < q.len()
        invariant
            qi <= q@.len(),
            ti <= t@.len(),
            is_subsequence(q@, t@) == is_subsequence(q@.skip(qi as int), t@.skip(ti as int)),
        decreases t@.len() - ti,
    {
        let ghost qs = q@.skip(qi as int);
        let ghost ts = t@.skip(ti as int);
        if t[ti] == q[qi] {
            assert(ts[0] == qs[0]);
            assert(qs.drop_first() =~= q@.skip(qi + 1));
            assert(ts.drop_first() =~= t@.skip(ti + 1));
            qi += 1;
        } else {
            assert(ts[0] != qs[0]);
            assert(ts.drop_first() =~= t@.skip(ti + 1));
        }
        ti += 1;
    }
    if qi == q.len() {
        assert(q@.skip(qi as int) =~= Seq::<char>::empty());
        assert(is_subsequence(q@, t@));
        true
    } else {
        assert(t@.skip(ti as int) =~= Seq::<char>::empty());
        assert(!is_subsequence(q@, t@));
        false
    }
}

/// The index of the first occurrence of `pat` in `t`, or `-1` if there is
/// none; the empty pattern occurs at 0.
pub open spec fn first_sub_index(t: Seq<char>, pat: Seq<char>) -> int
    decreases t.len(),
{
    if pat.len() > t.len() {
        -1
    } else if t.take(pat.len() as int) == pat {
        0
    } else if t.len() == 0 {
        -1
    } else {
        let r = first_sub_index(t.drop_first(), pat);
        if r < 0 {
            -1
        } else {
            1 + r
        }
    }
}

/// The first occurrence index stays in range.
pub proof fn lemma_first_sub_index(t: Seq<char>, pat: Seq<char>)
    ensures
        first_sub_index(t, pat) == -1 || (0 <= first_sub_index(t, pat) && first_sub_index(t, pat)
            + pat.len() <= t.len()),
    decreases t.len(),
{
    if pat.len() > t.len() {
    } else if t.take(pat.len() as int) == pat {
    } else if t.len() == 0 {
    } else {
        lemma_first_sub_index(t.drop_first(), pat);
    }
}

/// `t` with every occurrence of `pat` replaced by `rep`, scanning left to
/// right; an empty pattern replaces nothing.
pub open spec fn replace_all_spec(t: Seq<char>, pat: Seq<char>, rep: Seq<char>) -> Seq<char>
    decreases t.len(),
{
    if pat.len() == 0 {
        t
    } else {
        let i = first_sub_index(t, pat);
        if i < 0 || i + pat.len() > t.len() {
            t
        } else {
            t.take(i) + rep + replace_all_spec(t.skip(i + pat.len()), pat, rep)
        }
    }
}

/// One scan step of the replacement: a match at the front substitutes, a
/// mismatch carries one character over.
proof fn lemma_replace_step(t: Seq<char>, pat: Seq<char>, rep: Seq<char>)
    requires
        pat.len() > 0,
        t.len() > 0,
    ensures
        (pat.len() <= t.len() && t.take(pat.len() as int) == pat) ==> replace_all_spec(
            t,
            pat,
            rep,
        ) == rep + replace_all_spec(t.skip(pat.len() as int), pat, rep),
        !(pat.len() <= t.len() && t.take(pat.len() as int) == pat) ==> replace_all_spec(
            t,
            pat,
            rep,
        ) == seq![t[0]] + replace_all_spec(t.drop_first(), pat, rep),
{
    lemma_first_sub_index(t, pat);
    lemma_first_sub_index(t.drop_first(), pat);
    if pat.len() <= t.len() && t.take(pat.len() as int) == pat {
        assert(first_sub_index(t, pat) == 0);
        assert(t.take(0) =~= Seq::<char>::empty());
        assert(Seq::<char>::empty() + rep =~= rep);
        assert(replace_all_spec(t, pat, rep) =~= rep + replace_all_spec(
            t.skip(pat.len() as int),
            pat,
            rep,
        ));
    } else {
        let i = first_sub_index(t, pat);
        let r = first_sub_index(t.drop_first(), pat);
        if i < 0 {
            assert(r < 0 || i == 1 + r);
            assert(replace_all_spec(t.drop_first(), pat, rep) == t.drop_first());
            assert(seq![t[0]] + t.drop_first() =~= t);
        } else {
            assert(i == 1 + r && r >= 0);
            assert(t.drop_first().take(r) =~= t.take(i).drop_first());
            assert(seq![t[0]] + t.drop_first().take(r) =~= t.take(i));
            assert(t.drop_first().skip(r + pat.len()) =~= t.skip(i + pat.len()));
            assert(seq![t[0]] + (t.drop_first().take(r) + rep + replace_all_spec(
                t.drop_first().skip(r + pat.len()),
                pat,
                rep,
            )) =~= t.take(i) + rep + replace_all_spec(t.skip(i + pat.len()), pat, rep));
        }
    }
}

/// `t` with every occurrence of `pat` replaced by `rep`, executable form.
pub fn replace_all(t: &Vec<char>, pat: &Vec<char>, rep: &Vec<char>) -> (r: Vec<char>)
    ensures
        r@ == replace_all_spec(t@, pat@, rep@),
{
    if pat.len() == 0 {
        return clone_chars(t);
    }
    let mut out: Vec<char> = Vec::new();
    let mut i: usize = 0;
    proof {
        assert(t@.skip(0) =~= t@);
    }
    while i < t.len()
        invariant
            i <= t@.len(),
            pat@.len() > 0,
            replace_all_spec(t@, pat@, rep@) == out@ + replace_all_spec(
                t@.skip(i as int),
                pat@,
                rep@,
            ),
        decreases t@.len() - i,
    {
        let ghost ts = t@.skip(i as int);
        let is_match = if pat.len() <= t.len() - i {
            matches_at(t, pat, i)
        } else {
            false
        };
        proof {
            if is_match {
                assert(t@.subrange(i as int, i + pat@.len()) =~= ts.take(pat@.len() as int));
            } else {
                if i + pat@.len() <= t@.len() {
                    assert(t@.subrange(i as int, i + pat@.len()) =~= ts.take(pat@.len() as int));
                }
            }
            lemma_replace_step(ts, pat@, rep@);
        }
        if is_match {
            let mut k: usize = 0;
            let ghost before = out@;
            while k < rep.len()
                invariant
                    k <= rep@.len(),
                    out@ == before + rep@.take(k as int),
                decreases rep@.len() - k,
            {
                out.push(rep[k]);
                k += 1;
                assert(out@ =~= before + rep@.take(k as int));
            }
            assert(out@ =~= before + rep@);
            i += pat.len();
            assert(ts.skip(pat@.len() as int) =~= t@.skip(i as int));
        } else {
            out.push(t[i]);
            assert(ts[0] == t@[i as int]);
            assert(ts.drop_first() =~= t@.skip(i + 1));
            i += 1;
        }
    }
    proof {
        assert(t@.skip(i as int) =~= Seq::<char>::empty());
    }
    out
}

/// Whether `c` occurs in `v`.
pub fn contains_char(v: &Vec<char>, c: char) -> (r: bool)
    ensures
        r == v@.contains(c),
{
    let mut i: usize = 0;
    while i < v.len()
        invariant
            i <= v@.len(),
            forall|j: int| 0 <= j < i ==> v@[j] != c,
        decreases v@.len() - i,
    {
        if v[i] == c {
            return true;
        }
        i += 1;
    }
    false
}

/// Whether two character vectors hold the same characters.
pub fn chars_eq(a: &Vec<char>, b: &Vec<char>) -> (r: bool)
    ensures
        r == (a@ == b@),
{
    if a.len() != b.len() {
        return false;
    }
    let r = matches_at(a, b, 0);
    proof {
        if r {
            assert(a@.subrange(0, b@.len() as int) =~= a@);
        }
    }
    r
}

/// The slice of `v` from `from` up to `to`.
pub fn subrange_chars(v: &Vec<char>, from: usize, to: usize) -> (r: Vec<char>)
    requires
        from <= to <= v@.len(),
    ensures
        r@ == v@.subrange(from as int, to as int),
{
    let mut r: Vec<char> = Vec::new();
    let mut i: usize = from;
    while i < to
        invariant
            from <= i <= to <= v@.len(),
            r@ == v@.subrange(from as int, i as int),
        decreases to - i,
    {
        r.push(v[i]);
        i += 1;
        assert(r@ =~= v@.subrange(from as int, i as int));
    }
    r
}

/// A copy of `v`; character vectors are cloned element by element.
pub fn clone_chars(v: &Vec<char>) -> (r: Vec<char>)
    ensures
        r@ == v@,
{
    let mut r: Vec<char> = Vec::new();
    let mut i: usize = 0;
    while i < v.len()
        invariant
            i <= v@.len(),
            r@ == v@.take(i as int),
        decreases v@.len() - i,
    {
        r.push(v[i]);
        i += 1;
        assert(r@ =~= v@.take(i as int));
    }
    assert(r@ =~= v@);
    r
}

/// The index of the first occurrence of `c` in `t`, or `t.len()` if absent.
pub open spec fn first_index_of(t: Seq<char>, c: char) -> int
    decreases t.len(),
{
    if t.len() == 0 {
        0
    } else if t[0] == c {
        0
    } else {
        1 + first_index_of(t.drop_first(), c)
    }
}

/// The first index never exceeds the length, and it points at the character
/// when the character is there.
pub proof fn lemma_first_index_of(t: Seq<char>, c: char)
    ensures
        0 <= first_index_of(t, c) <= t.len(),
        first_index_of(t, c) < t.len() ==> t[first_index_of(t, c)] == c,
    decreases t.len(),
{
    if t.len() > 0 && t[0] != c {
        lemma_first_index_of(t.drop_first(), c);
    }
}

/// The index of the last occurrence of `c` in `t`, or `-1` if absent.
pub open spec fn last_index_of(t: Seq<char>, c: char) -> int
    decreases t.len(),
{
    if t.len() == 0 {
        -1
    } else if t.last() == c {
        t.len() - 1
    } else {
        last_index_of(t.drop_last(), c)
    }
}

/// The last index stays in range, and it points at the character when the
/// character is there.
pub proof fn lemma_last_index_of(t: Seq<char>, c: char)
    ensures
        -1 <= last_index_of(t, c) < t.len(),
        last_index_of(t, c) >= 0 ==> t[last_index_of(t, c)] == c,
        forall|j: int| last_index_of(t, c) < j < t.len() ==> t[j] != c,
    decreases t.len(),
{
    if t.len() > 0 && t.last() != c {
        lemma_last_index_of(t.drop_last(), c);
        assert forall|j: int| last_index_of(t, c) < j < t.len() implies t[j] != c by {
            if j < t.len() - 1 {
                assert(t.drop_last()[j] != c);
            }
        }
    }
}

/// The index of the last occurrence of `c` in `v`, executable form.
pub fn rfind_char(v: &Vec<char>, c: char) -> (r: Option<usize>)
    ensures
        r matches Some(i) ==> i as int == last_index_of(v@, c),
        r is None ==> last_index_of(v@, c) == -1,
{
    let mut i: usize = v.len();
    proof {
        assert(v@.take(i as int) =~= v@);
    }
    while i > 0
        invariant
            i <= v@.len(),
            last_index_of(v@, c) == last_index_of(v@.take(i as int), c),
        decreases i,
    {
        i -= 1;
        let ghost before = v@.take(i + 1);
        assert(before.last() == v@[i as int]);
        assert(before.drop_last() =~= v@.take(i as int));
        if v[i] == c {
            return Option::Some(i);
        }
    }
    assert(v@.take(0) =~= Seq::<char>::empty());
    Option::None
}

/// `s` split at every occurrence of `sep`; separators are dropped, empty
/// pieces are kept.
pub open spec fn split_char(s: Seq<char>, sep: char) -> Seq<Seq<char>>
    decreases s.len(),
{
    let i = first_index_of(s, sep);
    if i < 0 || i >= s.len() {
        seq![s]
    } else {
        seq![s.take(i)] + split_char(s.skip(i + 1), sep)
    }
}

/// `parts` glued back together with `sep` between each two pieces.
pub open spec fn join_char(parts: Seq<Seq<char>>, sep: char) -> Seq<char>
    decreases parts.len(),
{
    if parts.len() == 0 {
        Seq::<char>::empty()
    } else if parts.len() == 1 {
        parts[0]
    } else {
        parts[0] + seq![sep] + join_char(parts.drop_first(), sep)
    }
}

/// A split is never empty.
pub proof fn lemma_split_char_len(s: Seq<char>, sep: char)
    ensures
        split_char(s, sep).len() >= 1,
{
    broadcast use vstd::seq_lib::group_seq_properties;

    let i = first_index_of(s, sep);
    if i < s.len() {
    }
}

/// Joining the pieces of a split reproduces the string.
pub proof fn lemma_join_split_roundtrip(s: Seq<char>, sep: char)
    ensures
        join_char(split_char(s, sep), sep) == s,
    decreases s.len(),
{
    lemma_first_index_of(s, sep);
    let i = first_index_of(s, sep);
    if i >= s.len() {
    } else {
        let rest = s.skip(i + 1);
        lemma_join_split_roundtrip(rest, sep);
        lemma_split_char_len(rest, sep);
        let parts = seq![s.take(i)] + split_char(rest, sep);
        assert(parts.len() >= 2);
        assert(parts.drop_first() =~= split_char(rest, sep));
        assert(join_char(parts, sep) == s.take(i) + seq![sep] + rest);
        assert(s.take(i) + seq![sep] + rest =~= s);
    }
}

/// `s` split at the first `sep`: the piece before it, and, when a separator
/// is there, everything after it.
pub fn split_once_at(v: &Vec<char>, sep: char) -> (r: (Vec<char>, Option<Vec<char>>))
    ensures
        r.0@ == v@.take(first_index_of(v@, sep)),
        first_index_of(v@, sep) >= v@.len() ==> r.1 is None,
        first_index_of(v@, sep) < v@.len() ==> (r.1 matches Some(rest) && rest@ == v@.skip(
            first_index_of(v@, sep) + 1,
        )),
{
    let mut head: Vec<char> = Vec::new();
    let mut i: usize = 0;
    proof {
        assert(v@.skip(0) =~= v@);
    }
    while i < v.len()
        invariant
            i <= v@.len(),
            head@ == v@.take(i as int),
            first_index_of(v@, sep) == i + first_index_of(v@.skip(i as int), sep),
            forall|k: int| 0 <= k < i ==> v@[k] != sep,
        decreases v@.len() - i,
    {
        let ghost vs = v@.skip(i as int);
        if v[i] == sep {
            assert(vs[0] == sep);
            let mut rest: Vec<char> = Vec::new();
            let mut j: usize = i + 1;
            while j < v.len()
                invariant
                    i + 1 <= j <= v@.len(),
                    rest@ == v@.skip(i + 1).take(j - i - 1),
                decreases v@.len() - j,
            {
                rest.push(v[j]);
                j += 1;
                assert(rest@ =~= v@.skip(i + 1).take(j - i - 1));
            }
            assert(rest@ =~= v@.skip(i + 1));
            return (head, Option::Some(rest));
        }
        assert(vs[0] != sep);
        assert(vs.drop_first() =~= v@.skip(i + 1));
        head.push(v[i]);
        i += 1;
        assert(head@ =~= v@.take(i as int));
    }
    assert(v@.skip(i as int) =~= Seq::<char>::empty());
    assert(head@ =~= v@.take(first_index_of(v@, sep)));
    (head, Option::None)
}

/// `s` split at every `sep`, as strings.
pub fn split_all_at(v: &Vec<char>, sep: char) -> (r: Vec<String>)
    ensures
        r@.map_values(|p: String| p@) == split_char(v@, sep),
    decreases v@.len(),
{
    let (head, tail) = split_once_at(v, sep);
    proof {
        lemma_first_index_of(v@, sep);
    }
    let head_s = string_from_chars(&head);
    match tail {
        Option::None => {
            let mut r: Vec<String> = Vec::new();
            r.push(head_s);
            assert(v@.take(first_index_of(v@, sep)) =~= v@);
            assert(r@.map_values(|p: String| p@) =~= split_char(v@, sep));
            r
        },
        Option::Some(rest) => {
            let mut r: Vec<String> = Vec::new();
            r.push(head_s);
            let mut more = split_all_at(&rest, sep);
            let ghost more_view = more@;
            let mut k: usize = 0;
            while k < more.len()
                invariant
                    k <= more@.len(),
                    more@ == more_view,
                    r@ == seq![head_s].add(more_view.take(k as int)),
                decreases more@.len() - k,
            {
                let p = clone_string_local(&more[k]);
                r.push(p);
                k += 1;
                assert(r@ =~= seq![head_s].add(more_view.take(k as int)));
            }
            assert(r@ =~= seq![head_s].add(more_view));
            assert(r@.map_values(|p: String| p@) =~= split_char(v@, sep));
            r
        },
    }
}

/// An exact copy of one string.
fn clone_string_local(s: &String) -> (r: String)
    ensures
        r == *s,
{
    s.clone()
}

/// Filtering after a push appends the element exactly when it satisfies the
/// predicate.
pub proof fn lemma_filter_push<A>(s: Seq<A>, x: A, pred: spec_fn(A) -> bool)
    ensures
        pred(x) ==> s.push(x).filter(pred) =~= s.filter(pred).push(x),
        !pred(x) ==> s.push(x).filter(pred) =~= s.filter(pred),
{
    assert(s.push(x) =~= s + seq![x]);
    Seq::<A>::filter_distributes_over_add(s, seq![x], pred);
    reveal_with_fuel(Seq::filter, 2);
    assert(seq![x].drop_last() =~= Seq::<A>::empty());
}

/// A filtered prefix is a prefix of the filtered whole.
pub proof fn lemma_filter_take_prefix<A>(s: Seq<A>, i: int, pred: spec_fn(A) -> bool)
    requires
        0 <= i <= s.len(),
    ensures
        s.filter(pred).len() >= s.take(i).filter(pred).len(),
        forall|j: int|
            0 <= j < s.take(i).filter(pred).len() ==> s.filter(pred)[j] == s.take(i).filter(
                pred,
            )[j],
{
    assert(s =~= s.take(i) + s.skip(i));
    Seq::<A>::filter_distributes_over_add(s.take(i), s.skip(i), pred);
}

/// The concatenation of two strings.
pub fn concat_str(a: &str, b: &str) -> (r: String)
    ensures
        r@ == a@ + b@,
{
    let mut r = String::from_str(a);
    r.append(b);
    r
}

} // verus!
