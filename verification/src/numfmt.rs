//! Decimal and hexadecimal digits: formatting integers as strings and
//! parsing strings back, pinned to recursive digit specs.

use vstd::prelude::*;
use crate::strutil::string_from_chars;

verus! {

/// The decimal digit character for `d` (0 to 9).
pub open spec fn dec_digit(d: int) -> char {
    ((d + 48) as u8) as char
}

/// The decimal digits of `n`, most significant first.
pub open spec fn dec_digits(n: int) -> Seq<char>
    decreases n,
{
    if n < 10 {
        seq![dec_digit(if n < 0 {
            0
        } else {
            n
        })]
    } else {
        dec_digits(n / 10).push(dec_digit(n % 10))
    }
}

/// The decimal form of `n`, with a leading `-` when negative.
pub open spec fn int_chars(n: int) -> Seq<char> {
    if n < 0 {
        seq!['-'] + dec_digits(-n)
    } else {
        dec_digits(n)
    }
}

/// The decimal digits of `n`, executable form.
pub fn u64_to_dec(n: u64) -> (r: Vec<char>)
    ensures
        r@ == dec_digits(n as int),
    decreases n,
{
    if n < 10 {
        let mut v: Vec<char> = Vec::new();
        v.push(((n as u8) + 48) as char);
        assert(v@ =~= dec_digits(n as int));
        v
    } else {
        let mut v = u64_to_dec(n / 10);
        let d = (n % 10) as u8;
        v.push((d + 48) as char);
        v
    }
}

/// The decimal form of `n`, as a string.
pub fn u64_to_string(n: u64) -> (r: String)
    ensures
        r@ == dec_digits(n as int),
{
    let v = u64_to_dec(n);
    string_from_chars(&v)
}

/// The decimal form of `n`, with a leading `-` when negative.
pub fn i64_to_string(n: i64) -> (r: String)
    ensures
        r@ == int_chars(n as int),
{
    if n >= 0 {
        let r = u64_to_string(n as u64);
        r
    } else {
        let mag: u64 = if n == i64::MIN {
            9223372036854775808u64
        } else {
            (-n) as u64
        };
        let digits = u64_to_dec(mag);
        let mut v: Vec<char> = Vec::new();
        v.push('-');
        let mut i: usize = 0;
        while i < digits.len()
            invariant
                i <= digits@.len(),
                v@ == seq!['-'] + digits@.take(i as int),
            decreases digits@.len() - i,
        {
            v.push(digits[i]);
            i += 1;
            assert(v@ =~= seq!['-'] + digits@.take(i as int));
        }
        assert(v@ =~= seq!['-'] + digits@);
        assert(v@ =~= int_chars(n as int));
        string_from_chars(&v)
    }
}

/// Whether `c` is a decimal digit.
pub open spec fn is_dec_digit_char(c: char) -> bool {
    48 <= c as u32 && c as u32 <= 57
}

/// Whether every character of `s` is a decimal digit and there is at least
/// one.
pub open spec fn all_dec_digits(s: Seq<char>) -> bool {
    s.len() > 0 && forall|i: int| 0 <= i < s.len() ==> is_dec_digit_char(#[trigger] s[i])
}

/// The number the digit string `s` denotes.
pub open spec fn digits_value(s: Seq<char>) -> int
    decreases s.len(),
{
    if s.len() == 0 {
        0
    } else {
        digits_value(s.drop_last()) * 10 + (s.last() as u32 - 48)
    }
}

/// The value of a nonempty digit string, when it is one and it is at most
/// `bound`; parsing rejects anything else.
pub open spec fn parse_dec_spec(s: Seq<char>, bound: int) -> Option<int> {
    if all_dec_digits(s) && digits_value(s) <= bound {
        Some(digits_value(s))
    } else {
        None
    }
}

/// Parses `s` as an unsigned decimal number of at most `bound`, where
/// `bound` is at most `u64::MAX`.  Exactly the strings that are nonempty,
/// all digits, and in range are accepted.
pub fn parse_dec_bounded(s: &Vec<char>, bound: u64) -> (r: Option<u64>)
    ensures
        parse_dec_spec(s@, bound as int) matches Some(v) ==> (r matches Some(u) && u == v),
        parse_dec_spec(s@, bound as int) is None ==> r is None,
{
    if s.len() == 0 {
        return Option::None;
    }
    let mut acc: u64 = 0;
    let mut i: usize = 0;
    proof {
        assert(s@.take(0) =~= Seq::<char>::empty());
    }
    while i < s.len()
        invariant
            i <= s@.len(),
            forall|j: int| 0 <= j < i ==> is_dec_digit_char(#[trigger] s@[j]),
            acc as int == digits_value(s@.take(i as int)),
            acc <= bound,
            bound <= u64::MAX,
        decreases s@.len() - i,
    {
        let c = s[i];
        let u = c as u32;
        if u < 48 || u > 57 {
            assert(!is_dec_digit_char(s@[i as int]));
            assert(parse_dec_spec(s@, bound as int) is None);
            return Option::None;
        }
        let d = (u - 48) as u64;
        proof {
            assert(s@.take(i + 1).drop_last() =~= s@.take(i as int));
            assert(s@.take(i + 1).last() == s@[i as int]);
            vstd::arithmetic::div_mod::lemma_fundamental_div_mod(bound as int, 10);
        }
        let ghost b10 = bound as int / 10;
        let ghost bm = bound as int % 10;
        if acc > bound / 10 || (acc == bound / 10 && d > bound % 10) {
            // The value exceeds the bound already; anything that follows
            // only makes it larger.
            proof {
                assert(d as int == s@[i as int] as u32 - 48);
                assert(acc as int == digits_value(s@.take(i as int)));
                assert(digits_value(s@.take(i + 1)) == digits_value(s@.take(i as int)) * 10 + (
                s@[i as int] as u32 - 48));
                assert(digits_value(s@.take(i + 1)) == acc as int * 10 + (d as int));
                if acc as int > b10 {
                    assert(acc as int * 10 + d as int > b10 * 10 + bm) by (nonlinear_arith)
                        requires
                            acc as int > b10,
                            d as int >= 0,
                            bm < 10,
                    ;
                }
                assert(digits_value(s@.take(i + 1)) > bound);
                lemma_digits_prefix_monotonic(s@, i + 1, bound as int);
            }
            return Option::None;
        }
        proof {
            if (acc as int) < b10 {
                assert(acc as int * 10 + d as int <= b10 * 10 + bm) by (nonlinear_arith)
                    requires
                        (acc as int) < b10,
                        d as int <= 9,
                        bm >= 0,
                ;
            }
            assert(acc as int * 10 + d as int <= bound as int);
        }
        acc = acc * 10 + d;
        i += 1;
    }
    proof {
        assert(s@.take(i as int) =~= s@);
    }
    Option::Some(acc)
}

/// Once a digit prefix exceeds the bound, the whole digit string does.
proof fn lemma_digits_prefix_monotonic(s: Seq<char>, i: int, bound: int)
    requires
        0 <= i <= s.len(),
        digits_value(s.take(i)) > bound,
        bound >= 0,
        forall|j: int| 0 <= j < i ==> is_dec_digit_char(#[trigger] s[j]),
    ensures
        !all_dec_digits(s) || digits_value(s) > bound,
    decreases s.len() - i,
{
    if i < s.len() {
        if is_dec_digit_char(s[i]) {
            assert(s.take(i + 1).drop_last() =~= s.take(i));
            assert(s.take(i + 1).last() == s[i]);
            assert(digits_value(s.take(i + 1)) == digits_value(s.take(i)) * 10 + (s[i] as u32
                - 48));
            assert(digits_value(s.take(i + 1)) > bound);
            lemma_digits_prefix_monotonic(s, i + 1, bound);
        }
    } else {
        assert(s.take(i) =~= s);
    }
}

/// A signed decimal number: an optional leading minus, then digits, within
/// the positive `i64` range either way.
pub open spec fn parse_i64_spec(s: Seq<char>) -> Option<int> {
    if s.len() >= 1 && s[0] == '-' {
        match parse_dec_spec(s.skip(1), 0x7fff_ffff_ffff_ffff) {
            Some(v) => Some(-v),
            None => None,
        }
    } else {
        parse_dec_spec(s, 0x7fff_ffff_ffff_ffff)
    }
}

/// Parses a signed decimal number, executable form.
pub fn parse_i64_chars(v: &Vec<char>) -> (r: Option<i64>)
    ensures
        parse_i64_spec(v@) matches Some(x) ==> (r matches Some(y) && y as int == x),
        parse_i64_spec(v@) is None ==> r is None,
{
    if v.len() >= 1 && v[0] == '-' {
        let mut rest: Vec<char> = Vec::new();
        let mut i: usize = 1;
        while i < v.len()
            invariant
                1 <= i <= v@.len(),
                v@.len() >= 1,
                rest@ == v@.skip(1).take(i - 1),
            decreases v@.len() - i,
        {
            rest.push(v[i]);
            i += 1;
            assert(rest@ =~= v@.skip(1).take(i - 1));
        }
        assert(rest@ =~= v@.skip(1));
        match parse_dec_bounded(&rest, 0x7fff_ffff_ffff_ffff) {
            Option::Some(m) => Option::Some(-(m as i64)),
            Option::None => Option::None,
        }
    } else {
        match parse_dec_bounded(v, 0x7fff_ffff_ffff_ffff) {
            Option::Some(m) => Option::Some(m as i64),
            Option::None => Option::None,
        }
    }
}

/// The hexadecimal value of `c`, for either case, or 16 when `c` is no hex
/// digit.
pub open spec fn hex_digit_value(c: char) -> int {
    if 48 <= c as u32 && c as u32 <= 57 {
        c as u32 - 48
    } else if 65 <= c as u32 && c as u32 <= 70 {
        c as u32 - 55
    } else if 97 <= c as u32 && c as u32 <= 102 {
        c as u32 - 87
    } else {
        16
    }
}

/// The hexadecimal value of `c`, or 16 when `c` is no hex digit.
pub fn hex_digit_of(c: char) -> (r: u8)
    ensures
        r as int == hex_digit_value(c),
{
    let u = c as u32;
    if 48 <= u && u <= 57 {
        (u - 48) as u8
    } else if 65 <= u && u <= 70 {
        (u - 55) as u8
    } else if 97 <= u && u <= 102 {
        (u - 87) as u8
    } else {
        16
    }
}

/// The value of the two hex digits at `a` and `b`, when both are digits.
pub open spec fn hex_byte_value(a: char, b: char) -> int {
    hex_digit_value(a) * 16 + hex_digit_value(b)
}

/// Parses a two-digit hexadecimal byte.
pub fn parse_hex_byte(a: char, b: char) -> (r: Option<u8>)
    ensures
        (hex_digit_value(a) < 16 && hex_digit_value(b) < 16) ==> (r matches Some(v) && v as int
            == hex_byte_value(a, b)),
        (hex_digit_value(a) == 16 || hex_digit_value(b) == 16) ==> r is None,
{
    let da = hex_digit_of(a);
    let db = hex_digit_of(b);
    if da == 16 || db == 16 {
        return Option::None;
    }
    Option::Some(da * 16 + db)
}

/// The upper-case hex digit character for `d` (0 to 15).
pub open spec fn hex_digit_upper(d: int) -> char {
    if d < 10 {
        ((d + 48) as u8) as char
    } else {
        ((d + 55) as u8) as char
    }
}

/// The two upper-case hex digits of a byte.
pub open spec fn hex_byte_chars(b: int) -> Seq<char> {
    seq![hex_digit_upper(b / 16), hex_digit_upper(b % 16)]
}

/// Appends the two upper-case hex digits of `b`.
pub fn push_hex_byte(v: &mut Vec<char>, b: u8)
    ensures
        final(v)@ == old(v)@ + hex_byte_chars(b as int),
{
    let hi = b / 16;
    let lo = b % 16;
    let c1: char = if hi < 10 {
        ((hi + 48) as u8) as char
    } else {
        ((hi + 55) as u8) as char
    };
    let c2: char = if lo < 10 {
        ((lo + 48) as u8) as char
    } else {
        ((lo + 55) as u8) as char
    };
    v.push(c1);
    v.push(c2);
    assert(v@ =~= old(v)@ + hex_byte_chars(b as int));
}

} // verus!
