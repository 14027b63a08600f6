//! Colour picker provider: it reads a colour written as hex, `rgb(...)` or
//! `hsl(...)`, names it, and offers its three notations for copying.
//!
//! The colour-space conversions are integer arithmetic throughout: lightness
//! and saturation are percentages, hue is in degrees, and the
//! hue-to-channel ramp works in thousandths, every division truncating.

use vstd::prelude::*;
use crate::numfmt::{
    dec_digits, hex_byte_chars, hex_digit_value, hex_digit_of, parse_dec_bounded, parse_dec_spec,
    push_hex_byte,
};
use crate::plugin::{lemma_scoped_id_owned, owned_by, scoped_id, Plugin, PluginError};
use crate::search::{clone_string, ActionData, ExecOutcome, ResultType, SearchResult};
use crate::strutil::{
    chars_of, first_index_of, is_prefix, split_char, split_all_at, starts_with_seq,
    string_from_chars, subrange_chars,
};

verus! {

/// One recognised colour, in all three notations.
#[derive(Debug)]
pub struct ColorValue {
    pub hex: String,
    pub rgb: (u8, u8, u8),
    pub hsl: (u16, u8, u8),
    pub name: String,
}

impl Clone for ColorValue {
    /// An exact copy of the colour.
    fn clone(&self) -> (r: Self)
        ensures
            r == *self,
    {
        ColorValue {
            hex: clone_string(&self.hex),
            rgb: self.rgb,
            hsl: self.hsl,
            name: clone_string(&self.name),
        }
    }
}

/// The provider.
pub struct ColorPickerPlugin {
    pub enabled: bool,
}

/// `s` without leading spaces.
pub open spec fn trim_left(s: Seq<char>) -> Seq<char>
    decreases s.len(),
{
    if s.len() > 0 && s[0] == ' ' {
        trim_left(s.drop_first())
    } else {
        s
    }
}

/// `s` without trailing spaces.
pub open spec fn trim_right(s: Seq<char>) -> Seq<char>
    decreases s.len(),
{
    if s.len() > 0 && s.last() == ' ' {
        trim_right(s.drop_last())
    } else {
        s
    }
}

/// `s` without leading or trailing spaces.
pub open spec fn trim_spaces(s: Seq<char>) -> Seq<char> {
    trim_right(trim_left(s))
}

/// `s` without trailing percent signs.
pub open spec fn trim_pct(s: Seq<char>) -> Seq<char>
    decreases s.len(),
{
    if s.len() > 0 && s.last() == '%' {
        trim_pct(s.drop_last())
    } else {
        s
    }
}

/// ASCII upper-casing of one character.
pub open spec fn raise_char(c: char) -> char {
    if 97 <= c as u32 && c as u32 <= 122 {
        (((c as u32) - 32) as u8) as char
    } else {
        c
    }
}

/// ASCII upper-casing of a sequence.
pub open spec fn raise(s: Seq<char>) -> Seq<char> {
    s.map_values(|c: char| raise_char(c))
}

/// The six hex digits a colour body denotes: a three-digit body doubles
/// each digit, a six-digit body stands as it is.
pub open spec fn hex_body(h: Seq<char>) -> Seq<char> {
    if h.len() == 3 {
        seq![h[0], h[0], h[1], h[1], h[2], h[2]]
    } else {
        h
    }
}

/// The channels a hex colour query denotes, if it is one: trimmed, raised,
/// an optional `#`, then three or six hex digits.
pub open spec fn parse_hex_spec(input: Seq<char>) -> Option<(int, int, int)> {
    let u = raise(trim_spaces(input));
    let h = if u.len() > 0 && u[0] == '#' {
        u.drop_first()
    } else {
        u
    };
    let h6 = hex_body(h);
    if h6.len() != 6 {
        None
    } else if hex_digit_value(h6[0]) == 16 || hex_digit_value(h6[1]) == 16 || hex_digit_value(
        h6[2],
    ) == 16 || hex_digit_value(h6[3]) == 16 || hex_digit_value(h6[4]) == 16 || hex_digit_value(
        h6[5],
    ) == 16 {
        None
    } else {
        Some(
            (
                hex_digit_value(h6[0]) * 16 + hex_digit_value(h6[1]),
                hex_digit_value(h6[2]) * 16 + hex_digit_value(h6[3]),
                hex_digit_value(h6[4]) * 16 + hex_digit_value(h6[5]),
            ),
        )
    }
}

/// The greater of two numbers.
pub open spec fn max2(a: int, b: int) -> int {
    if a >= b {
        a
    } else {
        b
    }
}

/// The smaller of two numbers.
pub open spec fn min2(a: int, b: int) -> int {
    if a <= b {
        a
    } else {
        b
    }
}

/// Hue, saturation and lightness of a channel triple: degrees up to 360 and
/// two percentages, all divisions truncating.
pub open spec fn rgb_to_hsl_spec(r: int, g: int, b: int) -> (int, int, int) {
    let mx = max2(r, max2(g, b));
    let mn = min2(r, min2(g, b));
    let l = (mx + mn) * 100 / 510;
    if mx == mn {
        (0, 0, l)
    } else {
        let d = mx - mn;
        let s = if mx + mn > 255 {
            d * 100 / (510 - (mx + mn))
        } else {
            d * 100 / (mx + mn)
        };
        let h = if mx == r {
            if g >= b {
                (g - b) * 60 / d
            } else {
                360 - (b - g) * 60 / d
            }
        } else if mx == g {
            if b >= r {
                120 + (b - r) * 60 / d
            } else {
                120 - (r - b) * 60 / d
            }
        } else {
            if r >= g {
                240 + (r - g) * 60 / d
            } else {
                240 - (g - r) * 60 / d
            }
        };
        (h, s, l)
    }
}

/// The hue ramp in thousandths: how far along `t` sits between the inner
/// value `p` and the outer value `q`.
pub open spec fn hue_ramp(p: int, q: int, t0: int) -> int {
    let t = if t0 < 0 {
        t0 + 1000
    } else if t0 > 1000 {
        t0 - 1000
    } else {
        t0
    };
    if t < 167 {
        p + (q - p) * 6 * t / 1000
    } else if t < 500 {
        q
    } else if t < 667 {
        p + (q - p) * (667 - t) * 6 / 1000
    } else {
        p
    }
}

/// A thousandth-scale value cut to one byte's range.
pub open spec fn to_channel(v: int) -> int {
    let c = v * 255 / 1000;
    if c < 0 {
        0
    } else if c > 255 {
        255
    } else {
        c
    }
}

/// The channel triple of hue, saturation and lightness, in the same integer
/// arithmetic as the forward conversion.
pub open spec fn hsl_to_rgb_spec(h: int, s: int, l: int) -> (int, int, int) {
    let l1 = l * 10;
    let s1 = s * 10;
    if s1 == 0 {
        let v = to_channel(l1);
        (v, v, v)
    } else {
        let q = if l1 < 500 {
            l1 * (1000 + s1) / 1000
        } else {
            l1 + s1 - l1 * s1 / 1000
        };
        let p = if 2 * l1 - q < 0 {
            0
        } else {
            2 * l1 - q
        };
        let h1 = h * 1000 / 360;
        (
            to_channel(hue_ramp(p, q, h1 + 333)),
            to_channel(hue_ramp(p, q, h1)),
            to_channel(hue_ramp(p, q, h1 - 333)),
        )
    }
}

/// The name the picker gives a channel triple, by simple thresholds.
pub open spec fn color_name_spec(r: int, g: int, b: int) -> Seq<char> {
    if r > 200 && g > 200 && b > 200 {
        "White"@
    } else if r < 50 && g < 50 && b < 50 {
        "Black"@
    } else if r > g && r > b {
        if r > 150 && g < 100 && b < 100 {
            "Red"@
        } else {
            "Reddish"@
        }
    } else if g > r && g > b {
        if g > 150 && r < 100 && b < 100 {
            "Green"@
        } else {
            "Greenish"@
        }
    } else if b > r && b > g {
        if b > 150 && r < 100 && g < 100 {
            "Blue"@
        } else {
            "Bluish"@
        }
    } else if r > 150 && g > 150 && b < 100 {
        "Yellow"@
    } else if r > 150 && g < 100 && b > 150 {
        "Purple"@
    } else if r < 100 && g > 150 && b > 150 {
        "Cyan"@
    } else if r > 150 && g > 100 && b < 100 {
        "Orange"@
    } else {
        "Custom colour"@
    }
}

/// The `#RRGGBB` form of a channel triple.
pub open spec fn hex_text(r: int, g: int, b: int) -> Seq<char> {
    seq!['#'] + hex_byte_chars(r) + hex_byte_chars(g) + hex_byte_chars(b)
}

/// The channels an `rgb(...)` query denotes, if it is one.
pub open spec fn parse_rgb_spec(input: Seq<char>) -> Option<(int, int, int)> {
    let t = trim_spaces(input);
    let inner = if is_prefix("rgb("@, t) && t.len() >= 5 && t.last() == ')' {
        Some(t.subrange("rgb("@.len() as int, t.len() - 1))
    } else if is_prefix("rgb"@, t) {
        Some(t.skip("rgb"@.len() as int))
    } else {
        None
    };
    match inner {
        None => None,
        Some(body) => {
            let parts = split_char(body, ',');
            if parts.len() != 3 {
                None
            } else {
                match (
                    parse_dec_spec(trim_spaces(parts[0]), 255),
                    parse_dec_spec(trim_spaces(parts[1]), 255),
                    parse_dec_spec(trim_spaces(parts[2]), 255),
                ) {
                    (Some(r), Some(g), Some(b)) => Some((r, g, b)),
                    _ => None,
                }
            }
        },
    }
}

/// The hue, saturation and lightness an `hsl(...)` query denotes, if it is
/// one: hue up to 360 degrees, the other two percentages.
pub open spec fn parse_hsl_spec(input: Seq<char>) -> Option<(int, int, int)> {
    let t = trim_spaces(input);
    let inner = if is_prefix("hsl("@, t) && t.len() >= 5 && t.last() == ')' {
        Some(t.subrange("hsl("@.len() as int, t.len() - 1))
    } else if is_prefix("hsl"@, t) {
        Some(t.skip("hsl"@.len() as int))
    } else {
        None
    };
    match inner {
        None => None,
        Some(body) => {
            let parts = split_char(body, ',');
            if parts.len() != 3 {
                None
            } else {
                match (
                    parse_dec_spec(trim_pct(trim_spaces(parts[0])), 65535),
                    parse_dec_spec(trim_pct(trim_spaces(parts[1])), 255),
                    parse_dec_spec(trim_pct(trim_spaces(parts[2])), 255),
                ) {
                    (Some(h), Some(s), Some(l)) => if h > 360 || s > 100 || l > 100 {
                        None
                    } else {
                        Some((h, s, l))
                    },
                    _ => None,
                }
            }
        },
    }
}

/// Whether every character of the trimmed query is a hex digit.
pub open spec fn all_hex(t: Seq<char>) -> bool {
    forall|i: int| 0 <= i < t.len() ==> hex_digit_value(#[trigger] t[i]) != 16
}

/// The colour a query denotes, as channels and as hue, saturation and
/// lightness: `rgb(...)` and hex queries convert forward, `hsl(...)`
/// queries convert back.
pub open spec fn color_model(q: Seq<char>) -> Option<((int, int, int), (int, int, int))> {
    let t = trim_spaces(q);
    if is_prefix("rgb"@, t) {
        match parse_rgb_spec(q) {
            Some((r, g, b)) => Some(((r, g, b), rgb_to_hsl_spec(r, g, b))),
            None => None,
        }
    } else if is_prefix("hsl"@, t) {
        match parse_hsl_spec(q) {
            Some((h, s, l)) => Some((hsl_to_rgb_spec(h, s, l), (h, s, l))),
            None => None,
        }
    } else if (t.len() > 0 && t[0] == '#') || all_hex(t) {
        match parse_hex_spec(q) {
            Some((r, g, b)) => Some(((r, g, b), rgb_to_hsl_spec(r, g, b))),
            None => None,
        }
    } else {
        None
    }
}

/// Whether `cv` is the colour value the query denotes.
pub open spec fn is_color_value(q: Seq<char>, cv: ColorValue) -> bool {
    match color_model(q) {
        Some(((r, g, b), (h, s, l))) => {
            &&& cv.rgb.0 as int == r && cv.rgb.1 as int == g && cv.rgb.2 as int == b
            &&& cv.hsl.0 as int == h && cv.hsl.1 as int == s && cv.hsl.2 as int == l
            &&& cv.hex@ == hex_text(r, g, b)
            &&& cv.name@ == color_name_spec(r, g, b)
        },
        None => false,
    }
}

/// The `rgb(r, g, b)` rendering of a channel triple.
pub open spec fn rgb_call_text(r: int, g: int, b: int) -> Seq<char> {
    "rgb("@ + dec_digits(r) + ", "@ + dec_digits(g) + ", "@ + dec_digits(b) + ")"@
}

/// The `RGB(r, g, b)` rendering of a channel triple.
pub open spec fn rgb_title_text(r: int, g: int, b: int) -> Seq<char> {
    "RGB("@ + dec_digits(r) + ", "@ + dec_digits(g) + ", "@ + dec_digits(b) + ")"@
}

/// The `hsl(h, s%, l%)` rendering.
pub open spec fn hsl_call_text(h: int, s: int, l: int) -> Seq<char> {
    "hsl("@ + dec_digits(h) + ", "@ + dec_digits(s) + "%, "@ + dec_digits(l) + "%)"@
}

/// The `HSL(h, s%, l%)` rendering.
pub open spec fn hsl_title_text(h: int, s: int, l: int) -> Seq<char> {
    "HSL("@ + dec_digits(h) + ", "@ + dec_digits(s) + "%, "@ + dec_digits(l) + "%)"@
}

/// Whether `res` is the overview result for colour `cv`: the name, all
/// three notations, and the hex form to copy.
pub open spec fn is_color_main(pid: Seq<char>, cv: ColorValue, res: SearchResult) -> bool {
    &&& res.id@ == pid + seq![':'] + cv.hex@
    &&& res.title == cv.name
    &&& res.description@ == "HEX: "@ + cv.hex@ + " | "@ + rgb_title_text(
        cv.rgb.0 as int,
        cv.rgb.1 as int,
        cv.rgb.2 as int,
    ) + " | "@ + hsl_title_text(cv.hsl.0 as int, cv.hsl.1 as int, cv.hsl.2 as int)
    &&& res.result_type matches ResultType::Custom(k) && k@ == "color"@
    &&& res.score == 1000
    &&& res.action matches ActionData::CopyToClipboard { text } && text == cv.hex
}

/// Whether `res` is the copy-the-RGB-value result for colour `cv`.
pub open spec fn is_color_rgb(pid: Seq<char>, cv: ColorValue, res: SearchResult) -> bool {
    &&& res.id@ == pid + seq![':'] + ("rgb:"@ + cv.hex@)
    &&& res.title@ == rgb_title_text(cv.rgb.0 as int, cv.rgb.1 as int, cv.rgb.2 as int)
    &&& res.description@ == "Press Enter to copy the RGB value"@
    &&& res.result_type matches ResultType::Custom(k) && k@ == "color"@
    &&& res.score == 950
    &&& res.action matches ActionData::CopyToClipboard { text } && text@ == rgb_call_text(
        cv.rgb.0 as int,
        cv.rgb.1 as int,
        cv.rgb.2 as int,
    )
}

/// Whether `res` is the copy-the-HSL-value result for colour `cv`.
pub open spec fn is_color_hsl(pid: Seq<char>, cv: ColorValue, res: SearchResult) -> bool {
    &&& res.id@ == pid + seq![':'] + ("hsl:"@ + cv.hex@)
    &&& res.title@ == hsl_title_text(cv.hsl.0 as int, cv.hsl.1 as int, cv.hsl.2 as int)
    &&& res.description@ == "Press Enter to copy the HSL value"@
    &&& res.result_type matches ResultType::Custom(k) && k@ == "color"@
    &&& res.score == 940
    &&& res.action matches ActionData::CopyToClipboard { text } && text@ == hsl_call_text(
        cv.hsl.0 as int,
        cv.hsl.1 as int,
        cv.hsl.2 as int,
    )
}

/// Whether `res` is the copy-the-hex-value result for colour `cv`.
pub open spec fn is_color_hex(pid: Seq<char>, cv: ColorValue, res: SearchResult) -> bool {
    &&& res.id@ == pid + seq![':'] + ("hex:"@ + cv.hex@)
    &&& res.title == cv.hex
    &&& res.description@ == "Press Enter to copy the HEX value"@
    &&& res.result_type matches ResultType::Custom(k) && k@ == "color"@
    &&& res.score == 960
    &&& res.action matches ActionData::CopyToClipboard { text } && text == cv.hex
}

/// `a * k / d` stays between 0 and `k` when `a` is between 0 and `d`.
proof fn lemma_scaled_ratio_le(a: int, k: int, d: int)
    requires
        0 <= a <= d,
        0 < d,
        0 <= k,
    ensures
        0 <= a * k / d <= k,
{
    assert(a * k <= d * k && a * k >= 0) by (nonlinear_arith)
        requires
            0 <= a <= d,
            0 <= k,
    ;
    vstd::arithmetic::div_mod::lemma_div_is_ordered(a * k, d * k, d);
    vstd::arithmetic::div_mod::lemma_div_multiples_vanish(k, d);
    vstd::arithmetic::div_mod::lemma_div_pos_is_pos(a * k, d);
}

/// `s` without leading or trailing spaces, executable form.
fn trim_chars(v: &Vec<char>) -> (r: Vec<char>)
    ensures
        r@ == trim_spaces(v@),
{
    let mut start: usize = 0;
    proof {
        assert(v@.skip(0) =~= v@);
    }
    while start < v.len() && v[start] == ' '
        invariant
            start <= v@.len(),
            trim_left(v@) == trim_left(v@.skip(start as int)),
        decreases v@.len() - start,
    {
        let ghost ts = v@.skip(start as int);
        assert(ts[0] == ' ');
        assert(ts.drop_first() =~= v@.skip(start + 1));
        start += 1;
    }
    proof {
        let ts = v@.skip(start as int);
        if ts.len() > 0 {
            assert(ts[0] != ' ');
        }
        assert(trim_left(v@) == v@.skip(start as int));
    }
    let mut end: usize = v.len();
    proof {
        assert(v@.subrange(start as int, end as int) =~= v@.skip(start as int));
    }
    while end > start && v[end - 1] == ' '
        invariant
            start <= end <= v@.len(),
            trim_right(trim_left(v@)) == trim_right(v@.subrange(start as int, end as int)),
        decreases end,
    {
        let ghost sub = v@.subrange(start as int, end as int);
        assert(sub.last() == ' ');
        assert(sub.drop_last() =~= v@.subrange(start as int, end - 1));
        end -= 1;
    }
    proof {
        let sub = v@.subrange(start as int, end as int);
        if sub.len() > 0 {
            assert(sub.last() != ' ');
        }
        assert(trim_spaces(v@) == v@.subrange(start as int, end as int));
    }
    subrange_chars(v, start, end)
}

/// `s` without trailing percent signs, executable form.
fn trim_pct_chars(v: &Vec<char>) -> (r: Vec<char>)
    ensures
        r@ == trim_pct(v@),
{
    let mut end: usize = v.len();
    proof {
        assert(v@.subrange(0, end as int) =~= v@);
    }
    while end > 0 && v[end - 1] == '%'
        invariant
            end <= v@.len(),
            trim_pct(v@) == trim_pct(v@.subrange(0, end as int)),
        decreases end,
    {
        let ghost sub = v@.subrange(0, end as int);
        assert(sub.last() == '%');
        assert(sub.drop_last() =~= v@.subrange(0, end - 1));
        end -= 1;
    }
    proof {
        let sub = v@.subrange(0, end as int);
        if sub.len() > 0 {
            assert(sub.last() != '%');
        }
        assert(trim_pct(v@) == v@.subrange(0, end as int));
    }
    subrange_chars(v, 0, end)
}

/// ASCII upper-casing, executable form.
fn raise_chars(v: &Vec<char>) -> (r: Vec<char>)
    ensures
        r@ == raise(v@),
{
    let mut r: Vec<char> = Vec::new();
    let mut i: usize = 0;
    while i < v.len()
        invariant
            i <= v@.len(),
            r@ == raise(v@.take(i as int)),
        decreases v@.len() - i,
    {
        let c = v[i];
        let u = c as u32;
        let up: char = if 97 <= u && u <= 122 {
            ((u - 32) as u8) as char
        } else {
            c
        };
        assert(up == raise_char(v@[i as int]));
        r.push(up);
        i += 1;
        assert(r@ =~= raise(v@.take(i as int)));
    }
    assert(r@ =~= raise(v@));
    r
}

impl ColorPickerPlugin {
    /// The provider, enabled.
    pub fn new() -> (r: ColorPickerPlugin)
        ensures
            r.plugin_enabled(),
    {
        ColorPickerPlugin { enabled: true }
    }

    /// The channels of a hex colour query, if it is one.
    pub fn parse_hex(&self, input: &str) -> (r: Option<(u8, u8, u8)>)
        ensures
            parse_hex_spec(input@) matches Some((a, b, c)) ==> (r matches Some(t) && t.0 as int
                == a && t.1 as int == b && t.2 as int == c),
            parse_hex_spec(input@) is None ==> r is None,
    {
        let iv = chars_of(input);
        let trimmed = trim_chars(&iv);
        let up = raise_chars(&trimmed);
        let h: Vec<char> = if up.len() > 0 && up[0] == '#' {
            let t = subrange_chars(&up, 1, up.len());
            proof {
                assert(t@ =~= raise(trim_spaces(input@)).drop_first());
            }
            t
        } else {
            up
        };
        let h6: Vec<char> = if h.len() == 3 {
            let mut w: Vec<char> = Vec::new();
            w.push(h[0]);
            w.push(h[0]);
            w.push(h[1]);
            w.push(h[1]);
            w.push(h[2]);
            w.push(h[2]);
            assert(w@ =~= hex_body(h@));
            w
        } else {
            h
        };
        if h6.len() != 6 {
            return Option::None;
        }
        let d0 = hex_digit_of(h6[0]);
        let d1 = hex_digit_of(h6[1]);
        let d2 = hex_digit_of(h6[2]);
        let d3 = hex_digit_of(h6[3]);
        let d4 = hex_digit_of(h6[4]);
        let d5 = hex_digit_of(h6[5]);
        if d0 == 16 || d1 == 16 || d2 == 16 || d3 == 16 || d4 == 16 || d5 == 16 {
            return Option::None;
        }
        Option::Some((d0 * 16 + d1, d2 * 16 + d3, d4 * 16 + d5))
    }

    /// The channels of an `rgb(...)` query, if it is one.
    pub fn parse_rgb(&self, input: &str) -> (r: Option<(u8, u8, u8)>)
        ensures
            parse_rgb_spec(input@) matches Some((a, b, c)) ==> (r matches Some(t) && t.0 as int
                == a && t.1 as int == b && t.2 as int == c),
            parse_rgb_spec(input@) is None ==> r is None,
    {
        let iv = chars_of(input);
        let t = trim_chars(&iv);
        let rgb_open = chars_of("rgb(");
        let rgb_bare = chars_of("rgb");
        let body: Vec<char> = if starts_with_seq(&t, &rgb_open) && t.len() >= 5 && t[t.len() - 1]
            == ')' {
            proof {
                reveal_strlit("rgb(");
                assert(t@.last() == ')');
            }
            subrange_chars(&t, 4, t.len() - 1)
        } else if starts_with_seq(&t, &rgb_bare) {
            proof {
                reveal_strlit("rgb");
                reveal_strlit("rgb(");
            }
            let b = subrange_chars(&t, 3, t.len());
            proof {
                assert(b@ =~= t@.skip(3));
            }
            b
        } else {
            proof {
                reveal_strlit("rgb");
                reveal_strlit("rgb(");
            }
            return Option::None;
        };
        proof {
            reveal_strlit("rgb");
            reveal_strlit("rgb(");
        }
        let parts = split_all_at(&body, ',');
        if parts.len() != 3 {
            return Option::None;
        }
        let p0 = trim_chars(&chars_of(parts[0].as_str()));
        let p1 = trim_chars(&chars_of(parts[1].as_str()));
        let p2 = trim_chars(&chars_of(parts[2].as_str()));
        proof {
            let sp = split_char(body@, ',');
            assert(p0@ == trim_spaces(sp[0]));
            assert(p1@ == trim_spaces(sp[1]));
            assert(p2@ == trim_spaces(sp[2]));
        }
        match (
            parse_dec_bounded(&p0, 255),
            parse_dec_bounded(&p1, 255),
            parse_dec_bounded(&p2, 255),
        ) {
            (Option::Some(a), Option::Some(b), Option::Some(c)) => Option::Some(
                (a as u8, b as u8, c as u8),
            ),
            _ => Option::None,
        }
    }

    /// The hue, saturation and lightness of an `hsl(...)` query, if it is
    /// one.
    pub fn parse_hsl(&self, input: &str) -> (r: Option<(u16, u8, u8)>)
        ensures
            parse_hsl_spec(input@) matches Some((a, b, c)) ==> (r matches Some(t) && t.0 as int
                == a && t.1 as int == b && t.2 as int == c),
            parse_hsl_spec(input@) is None ==> r is None,
    {
        let iv = chars_of(input);
        let t = trim_chars(&iv);
        let hsl_open = chars_of("hsl(");
        let hsl_bare = chars_of("hsl");
        let body: Vec<char> = if starts_with_seq(&t, &hsl_open) && t.len() >= 5 && t[t.len() - 1]
            == ')' {
            proof {
                reveal_strlit("hsl(");
                assert(t@.last() == ')');
            }
            subrange_chars(&t, 4, t.len() - 1)
        } else if starts_with_seq(&t, &hsl_bare) {
            proof {
                reveal_strlit("hsl");
                reveal_strlit("hsl(");
            }
            let b = subrange_chars(&t, 3, t.len());
            proof {
                assert(b@ =~= t@.skip(3));
            }
            b
        } else {
            proof {
                reveal_strlit("hsl");
                reveal_strlit("hsl(");
            }
            return Option::None;
        };
        proof {
            reveal_strlit("hsl");
            reveal_strlit("hsl(");
        }
        let parts = split_all_at(&body, ',');
        if parts.len() != 3 {
            return Option::None;
        }
        let p0 = trim_pct_chars(&trim_chars(&chars_of(parts[0].as_str())));
        let p1 = trim_pct_chars(&trim_chars(&chars_of(parts[1].as_str())));
        let p2 = trim_pct_chars(&trim_chars(&chars_of(parts[2].as_str())));
        proof {
            let sp = split_char(body@, ',');
            assert(p0@ == trim_pct(trim_spaces(sp[0])));
            assert(p1@ == trim_pct(trim_spaces(sp[1])));
            assert(p2@ == trim_pct(trim_spaces(sp[2])));
        }
        match (
            parse_dec_bounded(&p0, 65535),
            parse_dec_bounded(&p1, 255),
            parse_dec_bounded(&p2, 255),
        ) {
            (Option::Some(h), Option::Some(s), Option::Some(l)) => {
                if h > 360 || s > 100 || l > 100 {
                    Option::None
                } else {
                    Option::Some((h as u16, s as u8, l as u8))
                }
            },
            _ => Option::None,
        }
    }

    /// Hue, saturation and lightness of a channel triple.
    pub fn rgb_to_hsl(&self, r: u8, g: u8, b: u8) -> (t: (u16, u8, u8))
        ensures
            (t.0 as int, t.1 as int, t.2 as int) == rgb_to_hsl_spec(r as int, g as int, b as int),
    {
        let ri = r as u32;
        let gi = g as u32;
        let bi = b as u32;
        let mx = if ri >= gi && ri >= bi {
            ri
        } else if gi >= bi {
            gi
        } else {
            bi
        };
        let mn = if ri <= gi && ri <= bi {
            ri
        } else if gi <= bi {
            gi
        } else {
            bi
        };
        proof {
            lemma_scaled_ratio_le((mx + mn) as int, 100, 510);
        }
        let l = (mx + mn) * 100 / 510;
        if mx == mn {
            return (0, 0, l as u8);
        }
        let d = mx - mn;
        let den = if mx + mn > 255 {
            510 - (mx + mn)
        } else {
            mx + mn
        };
        proof {
            lemma_scaled_ratio_le(d as int, 100, den as int);
        }
        let s = d * 100 / den;
        let h: u32 = if mx == ri {
            if gi >= bi {
                proof {
                    lemma_scaled_ratio_le((gi - bi) as int, 60, d as int);
                }
                (gi - bi) * 60 / d
            } else {
                proof {
                    lemma_scaled_ratio_le((bi - gi) as int, 60, d as int);
                }
                360 - (bi - gi) * 60 / d
            }
        } else if mx == gi {
            if bi >= ri {
                proof {
                    lemma_scaled_ratio_le((bi - ri) as int, 60, d as int);
                }
                120 + (bi - ri) * 60 / d
            } else {
                proof {
                    lemma_scaled_ratio_le((ri - bi) as int, 60, d as int);
                }
                120 - (ri - bi) * 60 / d
            }
        } else {
            if ri >= gi {
                proof {
                    lemma_scaled_ratio_le((ri - gi) as int, 60, d as int);
                }
                240 + (ri - gi) * 60 / d
            } else {
                proof {
                    lemma_scaled_ratio_le((gi - ri) as int, 60, d as int);
                }
                240 - (gi - ri) * 60 / d
            }
        };
        (h as u16, s as u8, l as u8)
    }

    /// The channel triple of hue, saturation and lightness.
    pub fn hsl_to_rgb(&self, h: u16, s: u8, l: u8) -> (t: (u8, u8, u8))
        requires
            h <= 360,
            s <= 100,
            l <= 100,
        ensures
            (t.0 as int, t.1 as int, t.2 as int) == hsl_to_rgb_spec(h as int, s as int, l as int),
    {
        let l1: u64 = (l as u64) * 10;
        let s1: u64 = (s as u64) * 10;
        if s1 == 0 {
            let v = channel_of(l1);
            return (v, v, v);
        }
        proof {
            lemma_scaled_ratio_le(l1 as int, s1 as int, 1000);
            assert((l1 as int) * (1000 + s1 as int) <= 2000000 && (l1 as int) * (s1 as int)
                <= 2000000) by (nonlinear_arith)
                requires
                    0 <= l1 as int <= 1000,
                    0 <= s1 as int <= 1000,
            ;
        }
        let q: u64 = if l1 < 500 {
            l1 * (1000 + s1) / 1000
        } else {
            l1 + s1 - l1 * s1 / 1000
        };
        let p: u64 = if 2 * l1 < q {
            0
        } else {
            2 * l1 - q
        };
        proof {
            lemma_q_range(l1 as int, s1 as int);
        }
        let h1: u64 = (h as u64) * 1000 / 360;
        proof {
            lemma_scaled_ratio_le(h as int, 1000, 360);
        }
        let cr = channel_of(hue_ramp_exec(p, q, (h1 as i64) + 333));
        let cg = channel_of(hue_ramp_exec(p, q, h1 as i64));
        let cb = channel_of(hue_ramp_exec(p, q, (h1 as i64) - 333));
        (cr, cg, cb)
    }

    /// The colour a query denotes, with its name, if it denotes one.
    pub fn parse_color(&self, input: &str) -> (r: Option<ColorValue>)
        ensures
            color_model(input@) is Some ==> (r matches Some(cv) && is_color_value(input@, cv)),
            color_model(input@) is None ==> r is None,
    {
        let iv = chars_of(input);
        let t = trim_chars(&iv);
        let rgb_bare = chars_of("rgb");
        let hsl_bare = chars_of("hsl");
        if starts_with_seq(&t, &rgb_bare) {
            match self.parse_rgb(input) {
                Option::Some((a, b, c)) => Option::Some(self.make_value(a, b, c)),
                Option::None => Option::None,
            }
        } else if starts_with_seq(&t, &hsl_bare) {
            match self.parse_hsl(input) {
                Option::Some((h, s, l)) => {
                    let (a, b, c) = self.hsl_to_rgb(h, s, l);
                    let mut cv = self.make_value(a, b, c);
                    cv.hsl = (h, s, l);
                    Option::Some(cv)
                },
                Option::None => Option::None,
            }
        } else {
            let leading_hash = t.len() > 0 && t[0] == '#';
            let mut hexish = true;
            let mut i: usize = 0;
            while i < t.len()
                invariant
                    i <= t@.len(),
                    hexish == (forall|j: int|
                        0 <= j < i ==> hex_digit_value(#[trigger] t@[j]) != 16),
                decreases t@.len() - i,
            {
                if hex_digit_of(t[i]) == 16 {
                    hexish = false;
                }
                i += 1;
            }
            if leading_hash || hexish {
                match self.parse_hex(input) {
                    Option::Some((a, b, c)) => Option::Some(self.make_value(a, b, c)),
                    Option::None => Option::None,
                }
            } else {
                Option::None
            }
        }
    }

    /// The colour value of a channel triple: hex form, derived hue
    /// coordinates, and a name.
    fn make_value(&self, r: u8, g: u8, b: u8) -> (cv: ColorValue)
        ensures
            cv.rgb.0 == r && cv.rgb.1 == g && cv.rgb.2 == b,
            (cv.hsl.0 as int, cv.hsl.1 as int, cv.hsl.2 as int) == rgb_to_hsl_spec(
                r as int,
                g as int,
                b as int,
            ),
            cv.hex@ == hex_text(r as int, g as int, b as int),
            cv.name@ == color_name_spec(r as int, g as int, b as int),
    {
        let mut hv: Vec<char> = Vec::new();
        hv.push('#');
        push_hex_byte(&mut hv, r);
        push_hex_byte(&mut hv, g);
        push_hex_byte(&mut hv, b);
        assert(hv@ =~= hex_text(r as int, g as int, b as int));
        ColorValue {
            hex: string_from_chars(&hv),
            rgb: (r, g, b),
            hsl: self.rgb_to_hsl(r, g, b),
            name: self.get_color_name(r, g, b),
        }
    }

    /// The name the picker gives a channel triple.
    pub fn get_color_name(&self, r: u8, g: u8, b: u8) -> (name: String)
        ensures
            name@ == color_name_spec(r as int, g as int, b as int),
    {
        if r > 200 && g > 200 && b > 200 {
            String::from_str("White")
        } else if r < 50 && g < 50 && b < 50 {
            String::from_str("Black")
        } else if r > g && r > b {
            if r > 150 && g < 100 && b < 100 {
                String::from_str("Red")
            } else {
                String::from_str("Reddish")
            }
        } else if g > r && g > b {
            if g > 150 && r < 100 && b < 100 {
                String::from_str("Green")
            } else {
                String::from_str("Greenish")
            }
        } else if b > r && b > g {
            if b > 150 && r < 100 && g < 100 {
                String::from_str("Blue")
            } else {
                String::from_str("Bluish")
            }
        } else if r > 150 && g > 150 && b < 100 {
            String::from_str("Yellow")
        } else if r > 150 && g < 100 && b > 150 {
            String::from_str("Purple")
        } else if r < 100 && g > 150 && b > 150 {
            String::from_str("Cyan")
        } else if r > 150 && g > 100 && b < 100 {
            String::from_str("Orange")
        } else {
            String::from_str("Custom colour")
        }
    }
}

/// The outer ramp value is within range and at least the inner one.
proof fn lemma_q_range(l1: int, s1: int)
    requires
        0 <= l1 <= 1000,
        1 <= s1 <= 1000,
    ensures
        l1 < 500 ==> l1 <= l1 * (1000 + s1) / 1000 <= 1000,
        l1 >= 500 ==> l1 <= l1 + s1 - l1 * s1 / 1000 <= 1000,
{
    if l1 < 500 {
        assert(1000 * l1 <= l1 * (1000 + s1) <= 1000 * (2 * l1)) by (nonlinear_arith)
            requires
                0 <= l1,
                0 <= s1 <= 1000,
        ;
        vstd::arithmetic::div_mod::lemma_div_is_ordered(1000 * l1, l1 * (1000 + s1), 1000);
        vstd::arithmetic::div_mod::lemma_div_is_ordered(l1 * (1000 + s1), 1000 * (2 * l1), 1000);
        vstd::arithmetic::div_mod::lemma_div_multiples_vanish(l1, 1000);
        vstd::arithmetic::div_mod::lemma_div_multiples_vanish(2 * l1, 1000);
    } else {
        lemma_scaled_ratio_le(l1, s1, 1000);
        // The product bound that keeps the ramp under one thousand.
        assert(1000 * (l1 + s1 - 1000) <= l1 * s1) by (nonlinear_arith)
            requires
                l1 <= 1000,
                s1 <= 1000,
        ;
        vstd::arithmetic::div_mod::lemma_div_is_ordered(1000 * (l1 + s1 - 1000), l1 * s1, 1000);
        vstd::arithmetic::div_mod::lemma_div_multiples_vanish(l1 + s1 - 1000, 1000);
    }
}

/// The hue ramp, executable form.
fn hue_ramp_exec(p: u64, q: u64, t0: i64) -> (r: u64)
    requires
        p <= q,
        q <= 1000,
        -1000 <= t0 <= 2333,
    ensures
        r as int == hue_ramp(p as int, q as int, t0 as int),
        r <= 3000,
{
    let t: u64 = if t0 < 0 {
        (t0 + 1000) as u64
    } else if t0 > 1000 {
        (t0 - 1000) as u64
    } else {
        t0 as u64
    };
    if t < 167 {
        proof {
            assert(((q - p) as int) * 6 * (t as int) <= 1000 * 2000) by (nonlinear_arith)
                requires
                    0 <= ((q - p) as int) <= 1000,
                    0 <= (t as int) < 167,
            ;
            assert(((q - p) as int) * 6 * (t as int) >= 0) by (nonlinear_arith)
                requires
                    0 <= ((q - p) as int),
                    0 <= (t as int),
            ;
        }
        let add = (q - p) * 6 * t / 1000;
        proof {
            vstd::arithmetic::div_mod::lemma_div_is_ordered(
                ((q as int) - (p as int)) * 6 * (t as int),
                2000000int,
                1000,
            );
            vstd::arithmetic::div_mod::lemma_div_multiples_vanish(2000, 1000);
        }
        p + add
    } else if t < 500 {
        q
    } else if t < 667 {
        proof {
            assert(((q - p) as int) * ((667 - t) as int) * 6 <= 1000 * 2000) by (nonlinear_arith)
                requires
                    0 <= ((q - p) as int) <= 1000,
                    0 <= ((667 - t) as int) <= 167,
            ;
            assert(((q - p) as int) * ((667 - t) as int) * 6 >= 0) by (nonlinear_arith)
                requires
                    0 <= ((q - p) as int),
                    0 <= ((667 - t) as int),
            ;
        }
        let add = (q - p) * (667 - t) * 6 / 1000;
        proof {
            vstd::arithmetic::div_mod::lemma_div_is_ordered(
                ((q as int) - (p as int)) * (667 - (t as int)) * 6,
                2000000int,
                1000,
            );
            vstd::arithmetic::div_mod::lemma_div_multiples_vanish(2000, 1000);
        }
        p + add
    } else {
        p
    }
}

/// A thousandth-scale value cut to one byte, executable form.
fn channel_of(v: u64) -> (r: u8)
    requires
        v <= 100000,
    ensures
        r as int == to_channel(v as int),
{
    let c = v * 255 / 1000;
    if c > 255 {
        255
    } else {
        c as u8
    }
}

impl Plugin for ColorPickerPlugin {
    open spec fn plugin_id(&self) -> Seq<char> {
        "color_picker"@
    }

    open spec fn plugin_enabled(&self) -> bool {
        self.enabled
    }

    /// Search always succeeds: for a query that denotes a colour, up to four
    /// results within the limit — the named overview scoring 1000, then the
    /// RGB, HSL and hex forms to copy, scoring 950, 940 and 960; nothing for
    /// any other query.
    open spec fn search_ens(
        &self,
        query: Seq<char>,
        limit: int,
        r: Result<Vec<SearchResult>, PluginError>,
    ) -> bool {
        match r {
            Ok(v) => match color_model(query) {
                Some(_) => {
                    let n = vstd::math::min(limit, 4);
                    &&& v@.len() == n
                    &&& exists|cv: ColorValue|
                        {
                            &&& #[trigger] is_color_value(query, cv)
                            &&& n > 0 ==> is_color_main(self.plugin_id(), cv, v@[0])
                            &&& n > 1 ==> is_color_rgb(self.plugin_id(), cv, v@[1])
                            &&& n > 2 ==> is_color_hsl(self.plugin_id(), cv, v@[2])
                            &&& n > 3 ==> is_color_hex(self.plugin_id(), cv, v@[3])
                        }
                },
                None => v@.len() == 0,
            },
            Err(_) => false,
        }
    }

    /// Executing a colour result resolves to placing the chosen notation on
    /// the clipboard; any other payload resolves to no outside work.
    open spec fn execute_ens(&self, res: SearchResult, r: Result<ExecOutcome, PluginError>) -> bool {
        match res.action {
            ActionData::CopyToClipboard { text } => r matches Ok(o) && o matches
                ExecOutcome::CopyText { text: t2 } && t2 == text,
            _ => r == Result::<ExecOutcome, PluginError>::Ok(ExecOutcome::NoEffect),
        }
    }

    fn id(&self) -> (r: &str) {
        "color_picker"
    }

    fn name(&self) -> (r: &str) {
        "Colour picker"
    }

    fn description(&self) -> (r: &str) {
        "Read a colour value and copy its notations"
    }

    fn version(&self) -> (r: &str) {
        "0.1.0"
    }

    fn is_enabled(&self) -> (r: bool) {
        self.enabled
    }

    fn set_enabled(&mut self, enabled: bool) {
        self.enabled = enabled;
    }

    fn initialize(&mut self) -> (r: Result<(), PluginError>) {
        Result::Ok(())
    }

    fn search(&self, query: &str, limit: usize) -> (r: Result<Vec<SearchResult>, PluginError>) {
        let mut results: Vec<SearchResult> = Vec::new();
        match self.parse_color(query) {
            Option::None => Result::Ok(results),
            Option::Some(cv) => {
                let (cr, cg, cb) = cv.rgb;
                let (hh, hs, hl) = cv.hsl;
                let rgb_title = render_rgb_title(cr, cg, cb);
                let hsl_title = render_hsl_title(hh, hs, hl);
                if results.len() < limit {
                    let rid = scoped_id(self.id(), cv.hex.as_str());
                    proof {
                        lemma_scoped_id_owned(self.plugin_id(), cv.hex@);
                    }
                    let mut description = String::from_str("HEX: ");
                    description.append(cv.hex.as_str());
                    description.append(" | ");
                    description.append(rgb_title.as_str());
                    description.append(" | ");
                    description.append(hsl_title.as_str());
                    proof {
                        reveal_strlit("HEX: ");
                        reveal_strlit(" | ");
                    }
                    results.push(
                        SearchResult::new(
                            rid,
                            clone_string(&cv.name),
                            description,
                            ResultType::Custom(String::from_str("color")),
                            1000,
                            ActionData::CopyToClipboard { text: clone_string(&cv.hex) },
                        ),
                    );
                }
                if results.len() < limit {
                    let mut suffix = String::from_str("rgb:");
                    suffix.append(cv.hex.as_str());
                    proof {
                        reveal_strlit("rgb:");
                    }
                    let rid = scoped_id(self.id(), suffix.as_str());
                    proof {
                        lemma_scoped_id_owned(self.plugin_id(), suffix@);
                    }
                    results.push(
                        SearchResult::new(
                            rid,
                            clone_string(&rgb_title),
                            String::from_str("Press Enter to copy the RGB value"),
                            ResultType::Custom(String::from_str("color")),
                            950,
                            ActionData::CopyToClipboard { text: render_rgb_call(cr, cg, cb) },
                        ),
                    );
                }
                if results.len() < limit {
                    let mut suffix = String::from_str("hsl:");
                    suffix.append(cv.hex.as_str());
                    proof {
                        reveal_strlit("hsl:");
                    }
                    let rid = scoped_id(self.id(), suffix.as_str());
                    proof {
                        lemma_scoped_id_owned(self.plugin_id(), suffix@);
                    }
                    results.push(
                        SearchResult::new(
                            rid,
                            clone_string(&hsl_title),
                            String::from_str("Press Enter to copy the HSL value"),
                            ResultType::Custom(String::from_str("color")),
                            940,
                            ActionData::CopyToClipboard { text: render_hsl_call(hh, hs, hl) },
                        ),
                    );
                }
                if results.len() < limit {
                    let mut suffix = String::from_str("hex:");
                    suffix.append(cv.hex.as_str());
                    proof {
                        reveal_strlit("hex:");
                    }
                    let rid = scoped_id(self.id(), suffix.as_str());
                    proof {
                        lemma_scoped_id_owned(self.plugin_id(), suffix@);
                    }
                    results.push(
                        SearchResult::new(
                            rid,
                            clone_string(&cv.hex),
                            String::from_str("Press Enter to copy the HEX value"),
                            ResultType::Custom(String::from_str("color")),
                            960,
                            ActionData::CopyToClipboard { text: clone_string(&cv.hex) },
                        ),
                    );
                }
                Result::Ok(results)
            },
        }
    }

    fn execute(&self, result: &SearchResult) -> (r: Result<ExecOutcome, PluginError>) {
        match &result.action {
            ActionData::CopyToClipboard { text } => Result::Ok(
                ExecOutcome::CopyText { text: clone_string(text) },
            ),
            _ => Result::Ok(ExecOutcome::NoEffect),
        }
    }

    fn refresh(&mut self) -> (r: Result<(), PluginError>) {
        Result::Ok(())
    }
}

/// The `RGB(r, g, b)` rendering, executable form.
fn render_rgb_title(r: u8, g: u8, b: u8) -> (s: String)
    ensures
        s@ == rgb_title_text(r as int, g as int, b as int),
{
    let mut s = String::from_str("RGB(");
    s.append(crate::numfmt::u64_to_string(r as u64).as_str());
    s.append(", ");
    s.append(crate::numfmt::u64_to_string(g as u64).as_str());
    s.append(", ");
    s.append(crate::numfmt::u64_to_string(b as u64).as_str());
    s.append(")");
    proof {
        reveal_strlit("RGB(");
        reveal_strlit(", ");
        reveal_strlit(")");
    }
    s
}

/// The `rgb(r, g, b)` rendering, executable form.
fn render_rgb_call(r: u8, g: u8, b: u8) -> (s: String)
    ensures
        s@ == rgb_call_text(r as int, g as int, b as int),
{
    let mut s = String::from_str("rgb(");
    s.append(crate::numfmt::u64_to_string(r as u64).as_str());
    s.append(", ");
    s.append(crate::numfmt::u64_to_string(g as u64).as_str());
    s.append(", ");
    s.append(crate::numfmt::u64_to_string(b as u64).as_str());
    s.append(")");
    proof {
        reveal_strlit("rgb(");
        reveal_strlit(", ");
        reveal_strlit(")");
    }
    s
}

/// The `HSL(h, s%, l%)` rendering, executable form.
fn render_hsl_title(h: u16, s: u8, l: u8) -> (out: String)
    ensures
        out@ == hsl_title_text(h as int, s as int, l as int),
{
    let mut out = String::from_str("HSL(");
    out.append(crate::numfmt::u64_to_string(h as u64).as_str());
    out.append(", ");
    out.append(crate::numfmt::u64_to_string(s as u64).as_str());
    out.append("%, ");
    out.append(crate::numfmt::u64_to_string(l as u64).as_str());
    out.append("%)");
    proof {
        reveal_strlit("HSL(");
        reveal_strlit(", ");
        reveal_strlit("%, ");
        reveal_strlit("%)");
    }
    out
}

/// The `hsl(h, s%, l%)` rendering, executable form.
fn render_hsl_call(h: u16, s: u8, l: u8) -> (out: String)
    ensures
        out@ == hsl_call_text(h as int, s as int, l as int),
{
    let mut out = String::from_str("hsl(");
    out.append(crate::numfmt::u64_to_string(h as u64).as_str());
    out.append(", ");
    out.append(crate::numfmt::u64_to_string(s as u64).as_str());
    out.append("%, ");
    out.append(crate::numfmt::u64_to_string(l as u64).as_str());
    out.append("%)");
    proof {
        reveal_strlit("hsl(");
        reveal_strlit(", ");
        reveal_strlit("%, ");
        reveal_strlit("%)");
    }
    out
}

} // verus!
