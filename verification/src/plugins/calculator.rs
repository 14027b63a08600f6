//! Calculator provider: an integer expression evaluator over `+`, `-`, `*`,
//! `/` and parentheses.
//!
//! The evaluator works textually, in scan order: the first parenthesised
//! group is evaluated and substituted back as digits, then the expression is
//! split at the first `+`, the last inner `-`, the first `*` and the first
//! `/`, in that order — addition before multiplication, deliberately kept as
//! the scan-order policy.  Arithmetic is exact on `i64`; a result outside
//! that range, or a division by zero, yields no answer.  The evaluator is
//! pinned to a fuelled spec mirror of itself.

use vstd::prelude::*;
use crate::numfmt::{int_chars, i64_to_string, parse_i64_chars, parse_i64_spec};
use crate::plugin::{lemma_scoped_id_owned, owned_by, scoped_id, Plugin, PluginError};
use crate::search::{clone_string, ActionData, ExecOutcome, ResultType, SearchResult};
use crate::strutil::{
    chars_of, first_index_of, last_index_of, lemma_filter_push, lemma_first_index_of,
    lemma_last_index_of, rfind_char, string_from_chars, subrange_chars,
};

verus! {

/// The provider.
pub struct CalculatorPlugin {
    pub enabled: bool,
}

/// `Some(v)` when `v` is within the `i64` range.
pub open spec fn clamp_i64(v: int) -> Option<int> {
    if -0x8000_0000_0000_0000 <= v <= 0x7fff_ffff_ffff_ffff {
        Some(v)
    } else {
        None
    }
}

/// Division truncating toward zero, with magnitudes divided as naturals.
pub open spec fn trunc_div(a: int, b: int) -> int {
    let ma = if a < 0 {
        -a
    } else {
        a
    };
    let mb = if b < 0 {
        -b
    } else {
        b
    };
    if (a < 0) == (b < 0) {
        ma / mb
    } else {
        -(ma / mb)
    }
}

/// The value of the expression `s`, by the scan-order policy, with `fuel`
/// bounding the substitution depth.
pub open spec fn eval_expr(s: Seq<char>, fuel: nat) -> Option<int>
    decreases fuel, 1int,
{
    if fuel == 0 {
        None
    } else {
        let lp = first_index_of(s, '(');
        let rp = last_index_of(s, ')');
        if 0 <= lp < s.len() && lp < rp < s.len() {
            match eval_expr(s.subrange(lp + 1, rp), (fuel - 1) as nat) {
                Some(v) => eval_expr(
                    s.take(lp) + int_chars(v) + s.skip(rp + 1),
                    (fuel - 1) as nat,
                ),
                None => eval_ops(s, fuel),
            }
        } else {
            eval_ops(s, fuel)
        }
    }
}

/// The value of a parenthesis-free step: split at the first `+`, else the
/// last inner `-`, else the first `*`, else the first `/`, else a number.
pub open spec fn eval_ops(s: Seq<char>, fuel: nat) -> Option<int>
    decreases fuel, 0int,
{
    if fuel == 0 {
        None
    } else {
        let plus = first_index_of(s, '+');
        let minus = last_index_of(s, '-');
        let times = first_index_of(s, '*');
        let slash = first_index_of(s, '/');
        if plus < s.len() {
            match (eval_expr(s.take(plus), (fuel - 1) as nat), eval_expr(
                s.skip(plus + 1),
                (fuel - 1) as nat,
            )) {
                (Some(l), Some(r)) => clamp_i64(l + r),
                _ => None,
            }
        } else if minus > 0 {
            match (eval_expr(s.take(minus), (fuel - 1) as nat), eval_expr(
                s.skip(minus + 1),
                (fuel - 1) as nat,
            )) {
                (Some(l), Some(r)) => clamp_i64(l - r),
                _ => None,
            }
        } else if times < s.len() {
            match (eval_expr(s.take(times), (fuel - 1) as nat), eval_expr(
                s.skip(times + 1),
                (fuel - 1) as nat,
            )) {
                (Some(l), Some(r)) => clamp_i64(l * r),
                _ => None,
            }
        } else if slash < s.len() {
            match (eval_expr(s.take(slash), (fuel - 1) as nat), eval_expr(
                s.skip(slash + 1),
                (fuel - 1) as nat,
            )) {
                (Some(l), Some(r)) => if r != 0 {
                    clamp_i64(trunc_div(l, r))
                } else {
                    parse_i64_spec(s)
                },
                _ => None,
            }
        } else {
            parse_i64_spec(s)
        }
    }
}

/// The expression with every space removed.
pub open spec fn strip_spaces(s: Seq<char>) -> Seq<char> {
    s.filter(|c: char| c != ' ')
}

/// What the calculator computes for a query: spaces are dropped, a bare
/// number stands for itself, anything else goes through the evaluator with
/// fuel one beyond the expression's length.
pub open spec fn calc_eval(q: Seq<char>) -> Option<int> {
    let e = strip_spaces(q);
    match parse_i64_spec(e) {
        Some(v) => Some(v),
        None => eval_expr(e, vstd::math::min(e.len() as int + 1, usize::MAX as int) as nat),
    }
}

/// Whether the query looks like arithmetic: after dropping spaces it holds
/// an operator or parenthesis, or parses as a number.
pub open spec fn is_expression_spec(q: Seq<char>) -> bool {
    let e = strip_spaces(q);
    e.contains('+') || e.contains('-') || e.contains('*') || e.contains('/') || e.contains('(')
        || e.contains(')') || parse_i64_spec(e) is Some
}

/// Whether `r` is the result the calculator renders for query `q` and value
/// `v`.
pub open spec fn is_calc_result(pid: Seq<char>, q: Seq<char>, v: int, r: SearchResult) -> bool {
    &&& r.id@ == pid + seq![':'] + q
    &&& r.title@ == q + " = "@ + int_chars(v)
    &&& r.description@ == "Press Enter to copy the result"@
    &&& r.icon is None
    &&& r.result_type is Calculator
    &&& r.score == 1000
    &&& r.action matches ActionData::CopyToClipboard { text } && text@ == int_chars(v)
}

/// The expression with every space removed, executable form.
fn remove_spaces(v: &Vec<char>) -> (r: Vec<char>)
    ensures
        r@ == strip_spaces(v@),
{
    let ghost pred = |c: char| c != ' ';
    let mut r: Vec<char> = Vec::new();
    let mut i: usize = 0;
    proof {
        assert(v@.take(0) =~= Seq::<char>::empty());
    }
    while i < v.len()
        invariant
            i <= v@.len(),
            r@ == v@.take(i as int).filter(pred),
            pred == |c: char| c != ' ',
        decreases v@.len() - i,
    {
        let ghost taken = v@.take(i as int);
        proof {
            assert(v@.take(i + 1) =~= taken.push(v@[i as int]));
            lemma_filter_push(taken, v@[i as int], pred);
        }
        if v[i] != ' ' {
            r.push(v[i]);
        }
        i += 1;
    }
    proof {
        assert(v@.take(i as int) =~= v@);
    }
    r
}

/// The index of the first occurrence of `c`, or the length when absent.
fn find_char_or_len(v: &Vec<char>, c: char) -> (r: usize)
    ensures
        r as int == first_index_of(v@, c),
{
    proof {
        lemma_first_index_of(v@, c);
        assert(v@.skip(0) =~= v@);
    }
    let mut i: usize = 0;
    while i < v.len()
        invariant
            i <= v@.len(),
            first_index_of(v@, c) == i + first_index_of(v@.skip(i as int), c),
        decreases v@.len() - i,
    {
        let ghost ts = v@.skip(i as int);
        if v[i] == c {
            assert(ts[0] == c);
            return i;
        }
        assert(ts[0] != c);
        assert(ts.drop_first() =~= v@.skip(i + 1));
        i += 1;
    }
    assert(v@.skip(i as int) =~= Seq::<char>::empty());
    i
}

/// `Some` exactly within the `i64` range, executable form over `i128`.
fn clamp_to_i64(v: i128) -> (r: Option<i64>)
    ensures
        clamp_i64(v as int) matches Some(x) ==> (r matches Some(y) && y as int == x),
        clamp_i64(v as int) is None ==> r is None,
{
    if v >= -0x8000_0000_0000_0000i128 && v <= 0x7fff_ffff_ffff_ffffi128 {
        Option::Some(v as i64)
    } else {
        Option::None
    }
}

/// The product within the `i64` range, executable form.
fn mul_to_i64(l: i64, r: i64) -> (res: Option<i64>)
    ensures
        clamp_i64((l as int) * (r as int)) matches Some(x) ==> (res matches Some(y) && y as int
            == x),
        clamp_i64((l as int) * (r as int)) is None ==> res is None,
{
    proof {
        assert((l as int) * (r as int) <= 0x4000_0000_0000_0000_0000_0000_0000_0000 && (l as int)
            * (r as int) >= -0x4000_0000_0000_0000_0000_0000_0000_0000) by (nonlinear_arith)
            requires
                -0x8000_0000_0000_0000 <= l as int <= 0x7fff_ffff_ffff_ffff,
                -0x8000_0000_0000_0000 <= r as int <= 0x7fff_ffff_ffff_ffff,
        ;
    }
    let p: i128 = (l as i128) * (r as i128);
    clamp_to_i64(p)
}

/// Division truncating toward zero, executable form.
fn trunc_div_i64(a: i64, b: i64) -> (r: Option<i64>)
    requires
        b != 0,
    ensures
        clamp_i64(trunc_div(a as int, b as int)) matches Some(x) ==> (r matches Some(y) && y as int
            == x),
        clamp_i64(trunc_div(a as int, b as int)) is None ==> r is None,
{
    let ma: u64 = if a < 0 {
        if a == i64::MIN {
            9223372036854775808u64
        } else {
            (-a) as u64
        }
    } else {
        a as u64
    };
    let mb: u64 = if b < 0 {
        if b == i64::MIN {
            9223372036854775808u64
        } else {
            (-b) as u64
        }
    } else {
        b as u64
    };
    let q: u64 = ma / mb;
    if (a < 0) == (b < 0) {
        if q <= 0x7fff_ffff_ffff_ffffu64 {
            Option::Some(q as i64)
        } else {
            Option::None
        }
    } else {
        if q <= 0x8000_0000_0000_0000u64 {
            if q == 0x8000_0000_0000_0000u64 {
                Option::Some(i64::MIN)
            } else {
                Option::Some(-(q as i64))
            }
        } else {
            Option::None
        }
    }
}

/// The evaluator, executable form: a faithful mirror of [`eval_expr`].
fn eval_expr_chars(s: &Vec<char>, fuel: usize) -> (r: Option<i64>)
    ensures
        eval_expr(s@, fuel as nat) matches Some(x) ==> (r matches Some(y) && y as int == x),
        eval_expr(s@, fuel as nat) is None ==> r is None,
    decreases fuel, 1int,
{
    if fuel == 0 {
        return Option::None;
    }
    proof {
        lemma_first_index_of(s@, '(');
        lemma_last_index_of(s@, ')');
    }
    let lp = find_char_or_len(s, '(');
    if lp < s.len() {
        if let Option::Some(rp) = rfind_char(s, ')') {
            if lp < rp {
                let inner = subrange_chars(s, lp + 1, rp);
                match eval_expr_chars(&inner, fuel - 1) {
                    Option::Some(v) => {
                        let mut rebuilt = subrange_chars(s, 0, lp);
                        let vs = i64_to_string(v);
                        let vv = chars_of(vs.as_str());
                        let mut k: usize = 0;
                        let ghost head = rebuilt@;
                        while k < vv.len()
                            invariant
                                k <= vv@.len(),
                                rebuilt@ == head + vv@.take(k as int),
                            decreases vv@.len() - k,
                        {
                            rebuilt.push(vv[k]);
                            k += 1;
                            assert(rebuilt@ =~= head + vv@.take(k as int));
                        }
                        assert(rebuilt@ =~= head + vv@);
                        let tail = subrange_chars(s, rp + 1, s.len());
                        let mut t: usize = 0;
                        let ghost mid = rebuilt@;
                        while t < tail.len()
                            invariant
                                t <= tail@.len(),
                                rebuilt@ == mid + tail@.take(t as int),
                            decreases tail@.len() - t,
                        {
                            rebuilt.push(tail[t]);
                            t += 1;
                            assert(rebuilt@ =~= mid + tail@.take(t as int));
                        }
                        proof {
                            assert(rebuilt@ =~= mid + tail@);
                            assert(s@.take(lp as int) =~= s@.subrange(0, lp as int));
                            assert(tail@ =~= s@.skip(rp + 1));
                            assert(rebuilt@ =~= s@.take(lp as int) + int_chars(v as int)
                                + s@.skip(rp + 1));
                        }
                        return eval_expr_chars(&rebuilt, fuel - 1);
                    },
                    Option::None => {
                        return eval_ops_chars(s, fuel);
                    },
                }
            }
        }
    }
    eval_ops_chars(s, fuel)
}

/// The operator step, executable form: a faithful mirror of [`eval_ops`].
fn eval_ops_chars(s: &Vec<char>, fuel: usize) -> (r: Option<i64>)
    requires
        fuel >= 1,
    ensures
        eval_ops(s@, fuel as nat) matches Some(x) ==> (r matches Some(y) && y as int == x),
        eval_ops(s@, fuel as nat) is None ==> r is None,
    decreases fuel, 0int,
{
    proof {
        lemma_first_index_of(s@, '+');
        lemma_last_index_of(s@, '-');
        lemma_first_index_of(s@, '*');
        lemma_first_index_of(s@, '/');
    }
    let plus = find_char_or_len(s, '+');
    if plus < s.len() {
        let left = subrange_chars(s, 0, plus);
        let right = subrange_chars(s, plus + 1, s.len());
        proof {
            assert(left@ =~= s@.take(plus as int));
            assert(right@ =~= s@.skip(plus + 1));
        }
        let lv = eval_expr_chars(&left, fuel - 1);
        let rv = eval_expr_chars(&right, fuel - 1);
        return match (lv, rv) {
            (Option::Some(l), Option::Some(r)) => clamp_to_i64((l as i128) + (r as i128)),
            _ => Option::None,
        };
    }
    let minus_opt = rfind_char(s, '-');
    if let Option::Some(minus) = minus_opt {
        if minus > 0 {
            let left = subrange_chars(s, 0, minus);
            let right = subrange_chars(s, minus + 1, s.len());
            proof {
                assert(left@ =~= s@.take(minus as int));
                assert(right@ =~= s@.skip(minus + 1));
            }
            let lv = eval_expr_chars(&left, fuel - 1);
            let rv = eval_expr_chars(&right, fuel - 1);
            return match (lv, rv) {
                (Option::Some(l), Option::Some(r)) => clamp_to_i64((l as i128) - (r as i128)),
                _ => Option::None,
            };
        }
    }
    let times = find_char_or_len(s, '*');
    if times < s.len() {
        let left = subrange_chars(s, 0, times);
        let right = subrange_chars(s, times + 1, s.len());
        proof {
            assert(left@ =~= s@.take(times as int));
            assert(right@ =~= s@.skip(times + 1));
        }
        let lv = eval_expr_chars(&left, fuel - 1);
        let rv = eval_expr_chars(&right, fuel - 1);
        return match (lv, rv) {
            (Option::Some(l), Option::Some(r)) => mul_to_i64(l, r),
            _ => Option::None,
        };
    }
    let slash = find_char_or_len(s, '/');
    if slash < s.len() {
        let left = subrange_chars(s, 0, slash);
        let right = subrange_chars(s, slash + 1, s.len());
        proof {
            assert(left@ =~= s@.take(slash as int));
            assert(right@ =~= s@.skip(slash + 1));
        }
        let lv = eval_expr_chars(&left, fuel - 1);
        let rv = eval_expr_chars(&right, fuel - 1);
        return match (lv, rv) {
            (Option::Some(l), Option::Some(r)) => {
                if r != 0 {
                    trunc_div_i64(l, r)
                } else {
                    parse_i64_chars(s)
                }
            },
            _ => Option::None,
        };
    }
    parse_i64_chars(s)
}

impl CalculatorPlugin {
    /// The provider, enabled.
    pub fn new() -> (r: CalculatorPlugin)
        ensures
            r.plugin_enabled(),
    {
        CalculatorPlugin { enabled: true }
    }

    /// The value of the query, if the calculator can work it out.
    pub fn evaluate(&self, expression: &str) -> (r: Option<i64>)
        ensures
            calc_eval(expression@) matches Some(x) ==> (r matches Some(y) && y as int == x),
            calc_eval(expression@) is None ==> r is None,
    {
        let qv = chars_of(expression);
        let e = remove_spaces(&qv);
        match parse_i64_chars(&e) {
            Option::Some(v) => Option::Some(v),
            Option::None => {
                let fuel = if e.len() < usize::MAX {
                    e.len() + 1
                } else {
                    usize::MAX
                };
                eval_expr_chars(&e, fuel)
            },
        }
    }

    /// The value of the query, rendered in decimal.
    pub fn format_result(&self, value: i64) -> (r: String)
        ensures
            r@ == int_chars(value as int),
    {
        i64_to_string(value)
    }

    /// Whether the query looks like arithmetic.
    pub fn is_expression(&self, query: &str) -> (r: bool)
        ensures
            r == is_expression_spec(query@),
    {
        let qv = chars_of(query);
        let e = remove_spaces(&qv);
        if crate::strutil::contains_char(&e, '+') || crate::strutil::contains_char(&e, '-')
            || crate::strutil::contains_char(&e, '*') || crate::strutil::contains_char(&e, '/')
            || crate::strutil::contains_char(&e, '(') || crate::strutil::contains_char(&e, ')') {
            return true;
        }
        match parse_i64_chars(&e) {
            Option::Some(_) => true,
            Option::None => false,
        }
    }
}

impl Plugin for CalculatorPlugin {
    open spec fn plugin_id(&self) -> Seq<char> {
        "calculator"@
    }

    open spec fn plugin_enabled(&self) -> bool {
        self.enabled
    }

    /// Search always succeeds: one calculator result scoring 1000 exactly
    /// when the query looks like arithmetic, the evaluator finds a value,
    /// and the limit admits a result; nothing otherwise.
    open spec fn search_ens(
        &self,
        query: Seq<char>,
        limit: int,
        r: Result<Vec<SearchResult>, PluginError>,
    ) -> bool {
        match r {
            Ok(v) => {
                if is_expression_spec(query) && calc_eval(query) is Some && limit >= 1 {
                    v@.len() == 1 && is_calc_result(
                        self.plugin_id(),
                        query,
                        calc_eval(query)->Some_0,
                        v@[0],
                    )
                } else {
                    v@.len() == 0
                }
            },
            Err(_) => false,
        }
    }

    /// Executing a calculator result resolves to placing the rendered value
    /// on the clipboard; any other payload resolves to no outside work.
    open spec fn execute_ens(&self, res: SearchResult, r: Result<ExecOutcome, PluginError>) -> bool {
        match res.action {
            ActionData::CopyToClipboard { text } => r matches Ok(o) && o matches
                ExecOutcome::CopyText { text: t2 } && t2 == text,
            _ => r == Result::<ExecOutcome, PluginError>::Ok(ExecOutcome::NoEffect),
        }
    }

    fn id(&self) -> (r: &str) {
        "calculator"
    }

    fn name(&self) -> (r: &str) {
        "Calculator"
    }

    fn description(&self) -> (r: &str) {
        "Work out arithmetic expressions"
    }

    fn version(&self) -> (r: &str) {
        "0.1.0"
    }

    fn is_enabled(&self) -> (r: bool) {
        self.enabled
    }

    fn set_enabled(&mut self, enabled: bool) {
        self.enabled = enabled;
    }

    fn initialize(&mut self) -> (r: Result<(), PluginError>) {
        Result::Ok(())
    }

    fn search(&self, query: &str, limit: usize) -> (r: Result<Vec<SearchResult>, PluginError>) {
        let mut results: Vec<SearchResult> = Vec::new();
        if limit >= 1 && self.is_expression(query) {
            if let Option::Some(value) = self.evaluate(query) {
                let shown = self.format_result(value);
                let rid = scoped_id(self.id(), query);
                proof {
                    lemma_scoped_id_owned(self.plugin_id(), query@);
                }
                let mut title = String::from_str(query);
                title.append(" = ");
                title.append(shown.as_str());
                proof {
                    reveal_strlit(" = ");
                    assert(title@ =~= query@ + " = "@ + int_chars(value as int));
                }
                let res = SearchResult::new(
                    rid,
                    title,
                    String::from_str("Press Enter to copy the result"),
                    ResultType::Calculator,
                    1000,
                    ActionData::CopyToClipboard { text: shown },
                );
                results.push(res);
            }
        }
        Result::Ok(results)
    }

    fn execute(&self, result: &SearchResult) -> (r: Result<ExecOutcome, PluginError>) {
        match &result.action {
            ActionData::CopyToClipboard { text } => Result::Ok(
                ExecOutcome::CopyText { text: clone_string(text) },
            ),
            _ => Result::Ok(ExecOutcome::NoEffect),
        }
    }

    fn refresh(&mut self) -> (r: Result<(), PluginError>) {
        Result::Ok(())
    }
}

} // verus!
