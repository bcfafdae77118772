use crate::model::{ColorFamily, Hsl, Rgb};
use vstd::arithmetic::div_mod::lemma_hoist_over_denominator;
use vstd::prelude::*;

verus! {

/// A character is one of `0-9`, `a-f` or `A-F`.
pub open spec fn is_hex_digit(c: char) -> bool {
    ('0' <= c && c <= '9') || ('a' <= c && c <= 'f') || ('A' <= c && c <= 'F')
}

/// The value of a hexadecimal digit.
pub open spec fn hex_digit_value(c: char) -> int {
    if '0' <= c && c <= '9' {
        c as int - '0' as int
    } else if 'a' <= c && c <= 'f' {
        c as int - 'a' as int + 10
    } else {
        c as int - 'A' as int + 10
    }
}

/// The digits of a hex color: the text with one leading `#` removed.
pub open spec fn hex_body(s: Seq<char>) -> Seq<char> {
    if s.len() > 0 && s[0] == '#' {
        s.skip(1)
    } else {
        s
    }
}

/// The byte written by the two hex digits at `i` and `i + 1`.
pub open spec fn hex_pair_value(d: Seq<char>, i: int) -> int {
    16 * hex_digit_value(d[i]) + hex_digit_value(d[i + 1])
}

/// The color a hex string denotes: exactly six hex digits after an optional
/// leading `#`, two per channel, in red, green, blue order.
pub open spec fn parse_hex(s: Seq<char>) -> Option<Rgb> {
    let d = hex_body(s);
    if d.len() == 6 && forall|i: int| 0 <= i < 6 ==> #[trigger] is_hex_digit(d[i]) {
        Some(
            Rgb {
                r: hex_pair_value(d, 0) as u8,
                g: hex_pair_value(d, 2) as u8,
                b: hex_pair_value(d, 4) as u8,
            },
        )
    } else {
        None
    }
}

/// The lowercase hex digit of a value below 16.
pub open spec fn hex_char(v: int) -> char {
    if v < 10 {
        (v + 48) as char
    } else {
        (v - 10 + 97) as char
    }
}

/// A character with `A-F` lowered to `a-f`.
pub open spec fn lower_hex_digit(c: char) -> char {
    if 'A' <= c && c <= 'F' {
        (c as int + 32) as char
    } else {
        c
    }
}

/// The six lowercase hex digits of a color, two per channel.
pub open spec fn format_hex(c: Rgb) -> Seq<char> {
    seq![
        hex_char(c.r as int / 16),
        hex_char(c.r as int % 16),
        hex_char(c.g as int / 16),
        hex_char(c.g as int % 16),
        hex_char(c.b as int / 16),
        hex_char(c.b as int % 16),
    ]
}

/// A hex color written again from its parsed channels gives back its digits,
/// lowered, without the leading `#`.
pub proof fn lemma_hex_round_trip(s: Seq<char>)
    requires
        parse_hex(s) is Some,
    ensures
        format_hex(parse_hex(s)->0) == hex_body(s).map_values(|c: char| lower_hex_digit(c)),
{
    let d = hex_body(s);
    let c = parse_hex(s)->0;
    assert forall|i: int| 0 <= i < 6 implies hex_char(hex_digit_value(d[i])) == lower_hex_digit(
        d[i],
    ) && 0 <= hex_digit_value(d[i]) < 16 by {
        assert(is_hex_digit(d[i]));
    }
    lemma_pair_digits(hex_digit_value(d[0]), hex_digit_value(d[1]));
    lemma_pair_digits(hex_digit_value(d[2]), hex_digit_value(d[3]));
    lemma_pair_digits(hex_digit_value(d[4]), hex_digit_value(d[5]));
    assert(format_hex(c) =~= d.map_values(|c: char| lower_hex_digit(c)));
}

/// Two hex digits make one byte, and the byte splits back into them.
proof fn lemma_pair_digits(hi: int, lo: int)
    requires
        0 <= hi < 16,
        0 <= lo < 16,
    ensures
        (16 * hi + lo) as u8 as int == 16 * hi + lo,
        (16 * hi + lo) / 16 == hi,
        (16 * hi + lo) % 16 == lo,
{
    assert((16 * hi + lo) / 16 == hi && (16 * hi + lo) % 16 == lo) by (nonlinear_arith)
        requires
            0 <= hi < 16,
            0 <= lo < 16,
    ;
}

/// A string whose part after the optional `#` is not six characters long
/// is no hex color.
pub proof fn lemma_wrong_length_rejected(s: Seq<char>)
    requires
        hex_body(s).len() != 6,
    ensures
        parse_hex(s) is None,
{
}

/// The value of an ASCII hex digit byte, if it is one.
fn hex_digit_byte(b: u8) -> (r: Option<u8>)
    ensures
        is_hex_digit(b as char) <==> r is Some,
        r matches Some(v) ==> v as int == hex_digit_value(b as char) && v < 16,
{
    if b >= 48 && b <= 57 {
        Some(b - 48)
    } else if b >= 97 && b <= 102 {
        Some(b - 87)
    } else if b >= 65 && b <= 70 {
        Some(b - 55)
    } else {
        None
    }
}

/// Parses a hex color such as `#ff8000` or `FF8000`.
pub fn hex_to_rgb(hex: &str) -> (r: Option<Rgb>)
    ensures
        r == parse_hex(hex@),
{
    broadcast use vstd::string::is_ascii_spec_bytes;

    if !hex.is_ascii() {
        proof {
            let s = hex@;
            let j = choose|j: int| 0 <= j < s.len() && !('\0' <= s[j] && s[j] <= '\u{7f}');
            if hex_body(s).len() == 6 {
                if s.len() > 0 && s[0] == '#' {
                    assert(hex_body(s)[j - 1] == s[j]);
                    assert(!is_hex_digit(hex_body(s)[j - 1]));
                } else {
                    assert(!is_hex_digit(hex_body(s)[j]));
                }
            }
        }
        return None;
    }
    let bytes = hex.as_bytes();
    let start: usize = if bytes.len() > 0 && bytes[0] == 35 { 1 } else { 0 };
    if bytes.len() - start != 6 {
        return None;
    }
    let ghost d = hex_body(hex@);
    assert(d.len() == 6);
    assert forall|k: int| 0 <= k < 6 implies d[k] == (bytes@[start + k] as char) by {
        assert(d[k] == hex@[start + k]);
        assert(hex@[start + k] <= '\u{7f}');
        assert(bytes@[start + k] == hex@[start + k] as u8);
    }
    let mut vals: Vec<u8> = Vec::new();
    let mut i: usize = 0;
    while i < 6
        invariant
            0 <= i <= 6,
            start + 6 == bytes@.len(),
            d == hex_body(hex@),
            d.len() == 6,
            start <= 1,
            forall|k: int| 0 <= k < 6 ==> d[k] == (bytes@[start + k] as char),
            vals@.len() == i,
            forall|k: int| 0 <= k < i ==> is_hex_digit(#[trigger] d[k]),
            forall|k: int|
                0 <= k < i ==> vals@[k] as int == hex_digit_value(#[trigger] d[k]) && vals@[k]
                    < 16,
        decreases 6 - i,
    {
        match hex_digit_byte(bytes[start + i]) {
            Some(v) => {
                vals.push(v);
            },
            None => {
                assert(!is_hex_digit(d[i as int]));
                return None;
            },
        }
        i = i + 1;
    }
    Some(Rgb { r: vals[0] * 16 + vals[1], g: vals[2] * 16 + vals[3], b: vals[4] * 16 + vals[5] })
}

/// The largest of three channel values.
pub open spec fn max3(a: int, b: int, c: int) -> int {
    if a >= b && a >= c {
        a
    } else if b >= c {
        b
    } else {
        c
    }
}

/// The smallest of three channel values.
pub open spec fn min3(a: int, b: int, c: int) -> int {
    if a <= b && a <= c {
        a
    } else if b <= c {
        b
    } else {
        c
    }
}

/// Lightness in thousandths of a percent, rounded down: `(max + min) / 2`
/// of the channels taken in `[0, 1]`.
pub open spec fn lightness_of(c: Rgb) -> int {
    let mx = max3(c.r as int, c.g as int, c.b as int);
    let mn = min3(c.r as int, c.g as int, c.b as int);
    100000 * (mx + mn) / 510
}

/// Saturation in thousandths of a percent, rounded down: zero for a gray,
/// else `delta / (1 - |2L - 1|)` of the channels taken in `[0, 1]`.
pub open spec fn saturation_of(c: Rgb) -> int {
    let mx = max3(c.r as int, c.g as int, c.b as int);
    let mn = min3(c.r as int, c.g as int, c.b as int);
    let delta = mx - mn;
    if delta == 0 {
        0
    } else {
        let sum = mx + mn;
        let span = if sum <= 255 { sum } else { 510 - sum };
        100000 * delta / span
    }
}

/// Hue in thousandths of a degree, rounded down: zero for a gray, else the
/// 60-degree sector formula picked by the channel that holds the maximum
/// (red first, then green), brought into `[0, 360)`.
pub open spec fn hue_of(c: Rgb) -> int {
    let (r, g, b) = (c.r as int, c.g as int, c.b as int);
    let mx = max3(r, g, b);
    let delta = mx - min3(r, g, b);
    if delta == 0 {
        0
    } else if mx == r {
        let x = 60000 * (g - b) / delta;
        if x < 0 {
            x + 360000
        } else {
            x
        }
    } else if mx == g {
        60000 * (b - r) / delta + 120000
    } else {
        60000 * (r - g) / delta + 240000
    }
}

/// The HSL form of a color, in the fixed point of `Hsl`.
pub open spec fn hsl_of(c: Rgb) -> Hsl {
    Hsl { h: hue_of(c) as u32, s: saturation_of(c) as u32, l: lightness_of(c) as u32 }
}

/// The hue in thousandths of a degree, exactly, times the channel spread:
/// the sector formula's numerator, with a full turn added where the formula
/// is negative.
pub open spec fn hue_numerator(c: Rgb) -> int {
    let (r, g, b) = (c.r as int, c.g as int, c.b as int);
    let mx = max3(r, g, b);
    let delta = mx - min3(r, g, b);
    if mx == r {
        if g >= b {
            60000 * (g - b)
        } else {
            60000 * (g - b) + 360000 * delta
        }
    } else if mx == g {
        60000 * (b - r) + 120000 * delta
    } else {
        60000 * (r - g) + 240000 * delta
    }
}

/// `x / d` rounded down lies within one unit below the exact quotient.
proof fn lemma_floor_bounds(x: int, d: int)
    requires
        d > 0,
    ensures
        d * (x / d) <= x < d * (x / d) + d,
{
    vstd::arithmetic::div_mod::lemma_fundamental_div_mod(x, d);
    vstd::arithmetic::div_mod::lemma_mod_bound(x, d);
}

/// Each component of the HSL form is the exact value of the formula, in
/// thousandths, rounded down: never above it and less than a thousandth
/// below it. Lightness is `(max + min) / 510` of the full scale, saturation
/// `delta / span`, hue `hue_numerator / delta`.
pub proof fn lemma_hsl_within_a_thousandth(c: Rgb)
    ensures
        ({
            let mx = max3(c.r as int, c.g as int, c.b as int);
            let mn = min3(c.r as int, c.g as int, c.b as int);
            let delta = mx - mn;
            let sum = mx + mn;
            let span = if sum <= 255 { sum } else { 510 - sum };
            &&& 510 * lightness_of(c) <= 100000 * sum < 510 * lightness_of(c) + 510
            &&& delta == 0 ==> saturation_of(c) == 0 && hue_of(c) == 0
            &&& delta > 0 ==> span * saturation_of(c) <= 100000 * delta < span * saturation_of(c)
                + span
            &&& delta > 0 ==> delta * hue_of(c) <= hue_numerator(c) < delta * hue_of(c) + delta
        }),
{
    let (r, g, b) = (c.r as int, c.g as int, c.b as int);
    let mx = max3(r, g, b);
    let mn = min3(r, g, b);
    let delta = mx - mn;
    let sum = mx + mn;
    lemma_floor_bounds(100000 * sum, 510);
    if delta > 0 {
        let span = if sum <= 255 { sum } else { 510 - sum };
        lemma_floor_bounds(100000 * delta, span);
        if mx == r {
            let x = 60000 * (g - b);
            lemma_floor_bounds(x, delta);
            if x / delta < 0 {
                assert(delta * (x / delta + 360000) == delta * (x / delta) + 360000 * delta)
                    by (nonlinear_arith);
                assert(g < b) by (nonlinear_arith)
                    requires
                        x == 60000 * (g - b),
                        x / delta < 0,
                        delta > 0,
                ;
            } else {
                assert(g >= b) by (nonlinear_arith)
                    requires
                        x == 60000 * (g - b),
                        x / delta >= 0,
                        delta > 0,
                ;
            }
        } else if mx == g {
            let x = 60000 * (b - r);
            lemma_floor_bounds(x, delta);
            assert(delta * (x / delta + 120000) == delta * (x / delta) + 120000 * delta)
                by (nonlinear_arith);
        } else {
            let x = 60000 * (r - g);
            lemma_floor_bounds(x, delta);
            assert(delta * (x / delta + 240000) == delta * (x / delta) + 240000 * delta)
                by (nonlinear_arith);
        }
    }
}

/// Converts a color to hue, saturation and lightness, each rounded down to
/// thousandths.
pub fn rgb_to_hsl(rgb: &Rgb) -> (r: Hsl)
    ensures
        r == hsl_of(*rgb),
        r.in_range(),
{
    let r = rgb.r as u32;
    let g = rgb.g as u32;
    let b = rgb.b as u32;
    let mx = if r >= g && r >= b {
        r
    } else if g >= b {
        g
    } else {
        b
    };
    let mn = if r <= g && r <= b {
        r
    } else if g <= b {
        g
    } else {
        b
    };
    let delta = mx - mn;
    let sum = mx + mn;
    let l = 100000 * sum / 510;
    let s = if delta == 0 {
        0
    } else {
        let span = if sum <= 255 {
            sum
        } else {
            510 - sum
        };
        assert(delta <= span);
        assert(100000 * (delta as int) / (span as int) <= 100000) by (nonlinear_arith)
            requires
                delta <= span,
                span > 0,
        ;
        100000 * delta / span
    };
    let h = if delta == 0 {
        0
    } else if mx == r {
        if g >= b {
            assert(60000 * ((g - b) as int) / (delta as int) <= 60000) by (nonlinear_arith)
                requires
                    g - b <= delta,
                    delta > 0,
            ;
            60000 * (g - b) / delta
        } else {
            proof {
                let (gi, bi, di) = (g as int, b as int, delta as int);
                lemma_hoist_over_denominator(60000 * (gi - bi), 360000, di as nat);
                assert(60000 * (gi - bi) / di < 0) by (nonlinear_arith)
                    requires
                        gi < bi,
                        di > 0,
                ;
                assert(60000 * (bi - gi) <= 60000 * di) by (nonlinear_arith)
                    requires
                        bi - gi <= di,
                ;
            }
            (360000 * delta - 60000 * (b - g)) / delta
        }
    } else if mx == g {
        proof {
            let (bi, ri, di) = (b as int, r as int, delta as int);
            lemma_hoist_over_denominator(60000 * (bi - ri), 120000, di as nat);
            assert((60000 * (bi - ri) + 120000 * di) / di <= 180000) by (nonlinear_arith)
                requires
                    bi - ri <= di,
                    di > 0,
            ;
        }
        (120000 * delta + 60000 * b - 60000 * r) / delta
    } else {
        proof {
            let (ri, gi, di) = (r as int, g as int, delta as int);
            lemma_hoist_over_denominator(60000 * (ri - gi), 240000, di as nat);
            assert((60000 * (ri - gi) + 240000 * di) / di <= 300000) by (nonlinear_arith)
                requires
                    ri - gi <= di,
                    di > 0,
            ;
        }
        (240000 * delta + 60000 * r - 60000 * g) / delta
    };
    Hsl { h, s, l }
}

/// The family of a color by the ordered rules, the first that applies
/// deciding: neutral for low saturation or extreme lightness, brown for
/// dull dark reds and oranges, else a bucket of the hue circle.
pub open spec fn family_of(hsl: Hsl) -> ColorFamily {
    if hsl.s < 10000 || hsl.l < 5000 || hsl.l > 95000 {
        ColorFamily::Neutral
    } else if hsl.s < 50000 && hsl.l < 50000 && (hsl.h < 40000 || hsl.h > 340000) {
        ColorFamily::Brown
    } else {
        hue_family(hsl.h as int)
    }
}

/// The family of a hue angle, in thousandths of a degree, on the hue circle.
pub open spec fn hue_family(h: int) -> ColorFamily {
    if h < 15000 {
        ColorFamily::Red
    } else if h < 45000 {
        ColorFamily::Orange
    } else if h < 70000 {
        ColorFamily::Yellow
    } else if h < 150000 {
        ColorFamily::Green
    } else if h < 190000 {
        ColorFamily::Cyan
    } else if h < 260000 {
        ColorFamily::Blue
    } else if h < 290000 {
        ColorFamily::Purple
    } else if h < 340000 {
        ColorFamily::Pink
    } else {
        ColorFamily::Red
    }
}

/// Classifies a color given in HSL form into its family.
pub fn classify_family(hsl: &Hsl) -> (r: ColorFamily)
    ensures
        r == family_of(*hsl),
{
    if hsl.s < 10000 || hsl.l < 5000 || hsl.l > 95000 {
        return ColorFamily::Neutral;
    }
    if hsl.s < 50000 && hsl.l < 50000 && (hsl.h < 40000 || hsl.h > 340000) {
        return ColorFamily::Brown;
    }
    let h = hsl.h;
    if h < 15000 {
        ColorFamily::Red
    } else if h < 45000 {
        ColorFamily::Orange
    } else if h < 70000 {
        ColorFamily::Yellow
    } else if h < 150000 {
        ColorFamily::Green
    } else if h < 190000 {
        ColorFamily::Cyan
    } else if h < 260000 {
        ColorFamily::Blue
    } else if h < 290000 {
        ColorFamily::Purple
    } else if h < 340000 {
        ColorFamily::Pink
    } else {
        ColorFamily::Red
    }
}

} // verus!
