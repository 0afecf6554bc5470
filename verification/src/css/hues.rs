//! What the notations of colors say.
use crate::css::color::{self, Color, ColorModel, Notation, PartModel, Space};
use crate::css::lengths;
use crate::css::number;
use crate::text;
use vstd::prelude::*;

verus! {

/// The value of a hexadecimal digit, in either case.
pub open spec fn nibble(c: char) -> int {
    if '0' <= c <= '9' {
        c as int - 48
    } else if 'a' <= c <= 'f' {
        c as int - 87
    } else if 'A' <= c <= 'F' {
        c as int - 55
    } else {
        -1
    }
}

/// Hexadecimal digits behind a hash are the channels red, green, blue and
/// alpha: pairs of digits, or single ones that count twice. Without alpha the
/// color is opaque. Any other number of digits, or another character, is no
/// color.
pub proof fn law_hexadecimal_colors(s: Seq<char>)
    requires
        s.len() > 0,
        !text::is_space(s.last()),
    ensures
        ({
            let hex = forall|i: int| 0 <= i < s.len() ==> nibble(#[trigger] s[i]) >= 0;
            let model = color::color_model(seq!['#'] + s);
            &&& hex && s.len() == 6 ==> (model matches Some(ColorModel::Srgb(c)) && c.r == 16
                * nibble(s[0]) + nibble(s[1]) && c.g == 16 * nibble(s[2]) + nibble(s[3]) && c.b == 16
                * nibble(s[4]) + nibble(s[5]) && c.a == 255)
            &&& hex && s.len() == 8 ==> (model matches Some(ColorModel::Srgb(c)) && c.r == 16
                * nibble(s[0]) + nibble(s[1]) && c.g == 16 * nibble(s[2]) + nibble(s[3]) && c.b == 16
                * nibble(s[4]) + nibble(s[5]) && c.a == 16 * nibble(s[6]) + nibble(s[7]))
            &&& hex && s.len() == 3 ==> (model matches Some(ColorModel::Srgb(c)) && c.r == 17
                * nibble(s[0]) && c.g == 17 * nibble(s[1]) && c.b == 17 * nibble(s[2]) && c.a == 255)
            &&& hex && s.len() == 4 ==> (model matches Some(ColorModel::Srgb(c)) && c.r == 17
                * nibble(s[0]) && c.g == 17 * nibble(s[1]) && c.b == 17 * nibble(s[2]) && c.a == 17
                * nibble(s[3]))
            &&& !hex ==> model is None
            &&& s.len() != 3 && s.len() != 4 && s.len() != 6 && s.len() != 8 ==> model is None
        }),
{
    reveal_strlit("#");
    assert("#"@ =~= seq!['#']);
    let all = seq!['#'] + s;
    assert(all[0] == '#' && all.last() == s.last());
    lengths::lemma_untrimmed(all);
    assert(all.skip(1) =~= s);
    text::law_prefixes(s, "#"@);
    assert forall|i: int| 0 <= i < s.len() implies {
        &&& (nibble(s[i]) >= 0) == (#[trigger] color::hex_digit(s[i]) is Some)
        &&& nibble(s[i]) >= 0 ==> color::hex_digit(s[i])->0 == nibble(s[i]) && nibble(s[i]) < 16
    } by {}
    let hex = forall|i: int| 0 <= i < s.len() ==> nibble(#[trigger] s[i]) >= 0;
    if hex {
        assert forall|i: int| 0 <= i < s.len() implies (#[trigger] color::hex_digit(
            s[i],
        )) is Some by {
            assert(nibble(s[i]) >= 0);
        }
    } else {
        let i = choose|i: int| 0 <= i < s.len() && nibble(#[trigger] s[i]) < 0;
        assert(color::hex_digit(s[i]) is None);
    }
    assert(s.len() > 0 ==> color::hex_digit(s[0]) == color::hex_digit(s[0]));
    if s.len() >= 3 && hex {
        assert(nibble(s[0]) >= 0 && nibble(s[1]) >= 0 && nibble(s[2]) >= 0);
        assert(color::hex_digit(s[0]) is Some && color::hex_digit(s[1]) is Some
            && color::hex_digit(s[2]) is Some);
        assert(s.len() >= 4 ==> nibble(s[3]) >= 0 && color::hex_digit(s[3]) is Some);
        assert(s.len() >= 6 ==> nibble(s[4]) >= 0 && color::hex_digit(s[4]) is Some && nibble(s[5])
            >= 0 && color::hex_digit(s[5]) is Some);
        assert(s.len() >= 8 ==> nibble(s[6]) >= 0 && color::hex_digit(s[6]) is Some && nibble(s[7])
            >= 0 && color::hex_digit(s[7]) is Some);
    }
}

/// A text that starts with `p` does not start with a word that differs from it
/// at place `k`.
proof fn lemma_other_start(p: Seq<char>, rest: Seq<char>, w: Seq<char>, k: int)
    requires
        0 <= k < p.len(),
        k < w.len(),
        p[k] != w[k],
    ensures
        color::call_body(p + rest, w) is None,
        !text::starts(p + rest, w),
{
    if text::starts(p + rest, w) {
        assert((p + rest).take(w.len() as int)[k] == p[k]);
    }
}

proof fn lemma_call(p: Seq<char>, body: Seq<char>)
    ensures
        color::call_body(p + body + seq![')'], p) == Some(body),
{
    reveal_strlit(")");
    assert(")"@ =~= seq![')']);
    assert(p + body + seq![')'] =~= p + (body + seq![')']));
    text::law_prefixes(body + seq![')'], p);
    text::law_suffixes(body, ")"@);
}

/// `rgba(` and a closing parenthesis hold the body of that notation.
pub proof fn law_rgba_is_read_as_such(body: Seq<char>)
    ensures
        color::color_model("rgba("@ + body + seq![')']) == color::rgb_body(body),
{
    reveal_strlit("#");
    reveal_strlit("rgba(");
    let p = "rgba("@;
    let all = p + body + seq![')'];
    assert(p.len() == 5);
    assert(p[0] == 'r');
    assert(all[0] == p[0] && all.last() == ')');
    lengths::lemma_untrimmed(all);
    lemma_call(p, body);
    assert(all =~= p + (body + seq![')']));
    assert(p[0] == 'r' && "#"@[0] == '#');
    lemma_other_start(p, body + seq![')'], "#"@, 0);
}

/// `rgb(` and a closing parenthesis hold the body of that notation.
pub proof fn law_rgb_is_read_as_such(body: Seq<char>)
    ensures
        color::color_model("rgb("@ + body + seq![')']) == color::rgb_body(body),
{
    reveal_strlit("#");
    reveal_strlit("rgba(");
    reveal_strlit("rgb(");
    let p = "rgb("@;
    let all = p + body + seq![')'];
    assert(p.len() == 4);
    assert(p[0] == 'r');
    assert(all[0] == p[0] && all.last() == ')');
    lengths::lemma_untrimmed(all);
    lemma_call(p, body);
    assert(all =~= p + (body + seq![')']));
    assert(p[0] == 'r' && "#"@[0] == '#');
    lemma_other_start(p, body + seq![')'], "#"@, 0);
    assert(p[3] == '(' && "rgba("@[3] == 'a');
    lemma_other_start(p, body + seq![')'], "rgba("@, 3);
}

/// `hsla(` and a closing parenthesis hold the body of that notation.
pub proof fn law_hsla_is_read_as_such(body: Seq<char>)
    ensures
        color::color_model("hsla("@ + body + seq![')']) == color::hsl_body(body),
{
    reveal_strlit("#");
    reveal_strlit("rgba(");
    reveal_strlit("rgb(");
    reveal_strlit("hsla(");
    let p = "hsla("@;
    let all = p + body + seq![')'];
    assert(p.len() == 5);
    assert(p[0] == 'h');
    assert(all[0] == p[0] && all.last() == ')');
    lengths::lemma_untrimmed(all);
    lemma_call(p, body);
    assert(all =~= p + (body + seq![')']));
    assert(p[0] == 'h' && "#"@[0] == '#');
    lemma_other_start(p, body + seq![')'], "#"@, 0);
    assert(p[0] == 'h' && "rgba("@[0] == 'r');
    lemma_other_start(p, body + seq![')'], "rgba("@, 0);
    assert(p[0] == 'h' && "rgb("@[0] == 'r');
    lemma_other_start(p, body + seq![')'], "rgb("@, 0);
}

/// `hsl(` and a closing parenthesis hold the body of that notation.
pub proof fn law_hsl_is_read_as_such(body: Seq<char>)
    ensures
        color::color_model("hsl("@ + body + seq![')']) == color::hsl_body(body),
{
    reveal_strlit("#");
    reveal_strlit("rgba(");
    reveal_strlit("rgb(");
    reveal_strlit("hsla(");
    reveal_strlit("hsl(");
    let p = "hsl("@;
    let all = p + body + seq![')'];
    assert(p.len() == 4);
    assert(p[0] == 'h');
    assert(all[0] == p[0] && all.last() == ')');
    lengths::lemma_untrimmed(all);
    lemma_call(p, body);
    assert(all =~= p + (body + seq![')']));
    assert(p[0] == 'h' && "#"@[0] == '#');
    lemma_other_start(p, body + seq![')'], "#"@, 0);
    assert(p[0] == 'h' && "rgba("@[0] == 'r');
    lemma_other_start(p, body + seq![')'], "rgba("@, 0);
    assert(p[0] == 'h' && "rgb("@[0] == 'r');
    lemma_other_start(p, body + seq![')'], "rgb("@, 0);
    assert(p[3] == '(' && "hsla("@[3] == 'a');
    lemma_other_start(p, body + seq![')'], "hsla("@, 3);
}

/// `hwb(` and a closing parenthesis hold the body of that notation.
pub proof fn law_hwb_is_read_as_such(body: Seq<char>)
    ensures
        color::color_model("hwb("@ + body + seq![')']) == color::hwb_body(body),
{
    reveal_strlit("#");
    reveal_strlit("rgba(");
    reveal_strlit("rgb(");
    reveal_strlit("hsla(");
    reveal_strlit("hsl(");
    reveal_strlit("hwb(");
    let p = "hwb("@;
    let all = p + body + seq![')'];
    assert(p.len() == 4);
    assert(p[0] == 'h');
    assert(all[0] == p[0] && all.last() == ')');
    lengths::lemma_untrimmed(all);
    lemma_call(p, body);
    assert(all =~= p + (body + seq![')']));
    assert(p[0] == 'h' && "#"@[0] == '#');
    lemma_other_start(p, body + seq![')'], "#"@, 0);
    assert(p[0] == 'h' && "rgba("@[0] == 'r');
    lemma_other_start(p, body + seq![')'], "rgba("@, 0);
    assert(p[0] == 'h' && "rgb("@[0] == 'r');
    lemma_other_start(p, body + seq![')'], "rgb("@, 0);
    assert(p[1] == 'w' && "hsla("@[1] == 's');
    lemma_other_start(p, body + seq![')'], "hsla("@, 1);
    assert(p[1] == 'w' && "hsl("@[1] == 's');
    lemma_other_start(p, body + seq![')'], "hsl("@, 1);
}

/// `oklch(` and a closing parenthesis hold the body of that notation.
pub proof fn law_oklch_is_read_as_such(body: Seq<char>)
    ensures
        color::color_model("oklch("@ + body + seq![')']) == color::perceptual_body(body, Space::Oklch),
{
    reveal_strlit("#");
    reveal_strlit("rgba(");
    reveal_strlit("rgb(");
    reveal_strlit("hsla(");
    reveal_strlit("hsl(");
    reveal_strlit("hwb(");
    reveal_strlit("oklch(");
    let p = "oklch("@;
    let all = p + body + seq![')'];
    assert(p.len() == 6);
    assert(p[0] == 'o');
    assert(all[0] == p[0] && all.last() == ')');
    lengths::lemma_untrimmed(all);
    lemma_call(p, body);
    assert(all =~= p + (body + seq![')']));
    assert(p[0] == 'o' && "#"@[0] == '#');
    lemma_other_start(p, body + seq![')'], "#"@, 0);
    assert(p[0] == 'o' && "rgba("@[0] == 'r');
    lemma_other_start(p, body + seq![')'], "rgba("@, 0);
    assert(p[0] == 'o' && "rgb("@[0] == 'r');
    lemma_other_start(p, body + seq![')'], "rgb("@, 0);
    assert(p[0] == 'o' && "hsla("@[0] == 'h');
    lemma_other_start(p, body + seq![')'], "hsla("@, 0);
    assert(p[0] == 'o' && "hsl("@[0] == 'h');
    lemma_other_start(p, body + seq![')'], "hsl("@, 0);
    assert(p[0] == 'o' && "hwb("@[0] == 'h');
    lemma_other_start(p, body + seq![')'], "hwb("@, 0);
}

/// `oklab(` and a closing parenthesis hold the body of that notation.
pub proof fn law_oklab_is_read_as_such(body: Seq<char>)
    ensures
        color::color_model("oklab("@ + body + seq![')']) == color::perceptual_body(body, Space::Oklab),
{
    reveal_strlit("#");
    reveal_strlit("rgba(");
    reveal_strlit("rgb(");
    reveal_strlit("hsla(");
    reveal_strlit("hsl(");
    reveal_strlit("hwb(");
    reveal_strlit("oklch(");
    reveal_strlit("oklab(");
    let p = "oklab("@;
    let all = p + body + seq![')'];
    assert(p.len() == 6);
    assert(p[0] == 'o');
    assert(all[0] == p[0] && all.last() == ')');
    lengths::lemma_untrimmed(all);
    lemma_call(p, body);
    assert(all =~= p + (body + seq![')']));
    assert(p[0] == 'o' && "#"@[0] == '#');
    lemma_other_start(p, body + seq![')'], "#"@, 0);
    assert(p[0] == 'o' && "rgba("@[0] == 'r');
    lemma_other_start(p, body + seq![')'], "rgba("@, 0);
    assert(p[0] == 'o' && "rgb("@[0] == 'r');
    lemma_other_start(p, body + seq![')'], "rgb("@, 0);
    assert(p[0] == 'o' && "hsla("@[0] == 'h');
    lemma_other_start(p, body + seq![')'], "hsla("@, 0);
    assert(p[0] == 'o' && "hsl("@[0] == 'h');
    lemma_other_start(p, body + seq![')'], "hsl("@, 0);
    assert(p[0] == 'o' && "hwb("@[0] == 'h');
    lemma_other_start(p, body + seq![')'], "hwb("@, 0);
    assert(p[3] == 'a' && "oklch("@[3] == 'c');
    lemma_other_start(p, body + seq![')'], "oklch("@, 3);
}

/// `lch(` and a closing parenthesis hold the body of that notation.
pub proof fn law_lch_is_read_as_such(body: Seq<char>)
    ensures
        color::color_model("lch("@ + body + seq![')']) == color::perceptual_body(body, Space::Lch),
{
    reveal_strlit("#");
    reveal_strlit("rgba(");
    reveal_strlit("rgb(");
    reveal_strlit("hsla(");
    reveal_strlit("hsl(");
    reveal_strlit("hwb(");
    reveal_strlit("oklch(");
    reveal_strlit("oklab(");
    reveal_strlit("lch(");
    let p = "lch("@;
    let all = p + body + seq![')'];
    assert(p.len() == 4);
    assert(p[0] == 'l');
    assert(all[0] == p[0] && all.last() == ')');
    lengths::lemma_untrimmed(all);
    lemma_call(p, body);
    assert(all =~= p + (body + seq![')']));
    assert(p[0] == 'l' && "#"@[0] == '#');
    lemma_other_start(p, body + seq![')'], "#"@, 0);
    assert(p[0] == 'l' && "rgba("@[0] == 'r');
    lemma_other_start(p, body + seq![')'], "rgba("@, 0);
    assert(p[0] == 'l' && "rgb("@[0] == 'r');
    lemma_other_start(p, body + seq![')'], "rgb("@, 0);
    assert(p[0] == 'l' && "hsla("@[0] == 'h');
    lemma_other_start(p, body + seq![')'], "hsla("@, 0);
    assert(p[0] == 'l' && "hsl("@[0] == 'h');
    lemma_other_start(p, body + seq![')'], "hsl("@, 0);
    assert(p[0] == 'l' && "hwb("@[0] == 'h');
    lemma_other_start(p, body + seq![')'], "hwb("@, 0);
    assert(p[0] == 'l' && "oklch("@[0] == 'o');
    lemma_other_start(p, body + seq![')'], "oklch("@, 0);
    assert(p[0] == 'l' && "oklab("@[0] == 'o');
    lemma_other_start(p, body + seq![')'], "oklab("@, 0);
}

/// `lab(` and a closing parenthesis hold the body of that notation.
pub proof fn law_lab_is_read_as_such(body: Seq<char>)
    ensures
        color::color_model("lab("@ + body + seq![')']) == color::perceptual_body(body, Space::Lab),
{
    reveal_strlit("#");
    reveal_strlit("rgba(");
    reveal_strlit("rgb(");
    reveal_strlit("hsla(");
    reveal_strlit("hsl(");
    reveal_strlit("hwb(");
    reveal_strlit("oklch(");
    reveal_strlit("oklab(");
    reveal_strlit("lch(");
    reveal_strlit("lab(");
    let p = "lab("@;
    let all = p + body + seq![')'];
    assert(p.len() == 4);
    assert(p[0] == 'l');
    assert(all[0] == p[0] && all.last() == ')');
    lengths::lemma_untrimmed(all);
    lemma_call(p, body);
    assert(all =~= p + (body + seq![')']));
    assert(p[0] == 'l' && "#"@[0] == '#');
    lemma_other_start(p, body + seq![')'], "#"@, 0);
    assert(p[0] == 'l' && "rgba("@[0] == 'r');
    lemma_other_start(p, body + seq![')'], "rgba("@, 0);
    assert(p[0] == 'l' && "rgb("@[0] == 'r');
    lemma_other_start(p, body + seq![')'], "rgb("@, 0);
    assert(p[0] == 'l' && "hsla("@[0] == 'h');
    lemma_other_start(p, body + seq![')'], "hsla("@, 0);
    assert(p[0] == 'l' && "hsl("@[0] == 'h');
    lemma_other_start(p, body + seq![')'], "hsl("@, 0);
    assert(p[0] == 'l' && "hwb("@[0] == 'h');
    lemma_other_start(p, body + seq![')'], "hwb("@, 0);
    assert(p[0] == 'l' && "oklch("@[0] == 'o');
    lemma_other_start(p, body + seq![')'], "oklch("@, 0);
    assert(p[0] == 'l' && "oklab("@[0] == 'o');
    lemma_other_start(p, body + seq![')'], "oklab("@, 0);
    assert(p[1] == 'a' && "lch("@[1] == 'c');
    lemma_other_start(p, body + seq![')'], "lch("@, 1);
}

/// Digits of at most 255, with an optional plus sign, are a channel as they
/// count; digits with a percent sign are a share; and nothing else is one.
pub proof fn law_channels(digits: Seq<char>)
    requires
        digits.len() > 0,
        number::all_digits(digits),
    ensures
        number::nat_of(digits) <= 255 ==> color::channel_part(digits) == Some(
            PartModel::Byte(number::nat_of(digits) as u8),
        ) && color::channel_part(seq!['+'] + digits) == Some(
            PartModel::Byte(number::nat_of(digits) as u8),
        ),
        number::nat_of(digits) > 255 ==> color::channel_part(digits) is None,
        number::float_model(digits) is Some ==> color::channel_part(digits + seq!['%']) == Some(
            PartModel::Percent(digits),
        ),
{
    reveal_strlit("%");
    assert("%"@ =~= seq!['%']);
    text::law_suffixes(digits, "%"@);
    assert(text::is_digit(digits[0]));
    assert(text::is_digit(digits[digits.len() - 1]));
    lengths::lemma_no_suffix(digits, "%"@, 1);
    let plus = seq!['+'] + digits;
    assert(plus[0] == '+' && plus.last() == digits.last());
    lengths::lemma_no_suffix(plus, "%"@, 1);
    assert(plus.skip(1) =~= digits);
}

/// The three components of a body stand between commas, with white space
/// around them left out; a fourth one is the alpha.
pub proof fn law_bodies_are_cut_at_commas(
    a: Seq<char>,
    b: Seq<char>,
    c: Seq<char>,
    d: Seq<char>,
)
    requires
        !a.contains(',') && !b.contains(',') && !c.contains(',') && !d.contains(','),
        !a.contains('/') && !b.contains('/') && !c.contains('/') && !d.contains('/'),
    ensures
        color::legacy_body(a + seq![','] + (b + seq![','] + c)) == Some(
            (
                seq![text::trimmed(a), text::trimmed(b), text::trimmed(c)],
                None::<Seq<char>>,
            ),
        ),
        color::legacy_body(a + seq![','] + (b + seq![','] + (c + seq![','] + d))) matches Some((
            parts,
            alpha,
        )) && parts[0] == text::trimmed(a) && parts[1] == text::trimmed(b) && parts[2]
            == text::trimmed(c) && alpha == Some(text::trimmed(d)),
{
    let three = a + seq![','] + (b + seq![','] + c);
    let four = a + seq![','] + (b + seq![','] + (c + seq![','] + d));
    text::law_splitting_cuts_at_separators(a, ',', b + seq![','] + c);
    text::law_splitting_cuts_at_separators(b, ',', c);
    text::law_splitting_cuts_at_separators(c, ',', d);
    text::law_splitting_cuts_at_separators(d, ',', d);
    text::law_splitting_cuts_at_separators(a, ',', b + seq![','] + (c + seq![','] + d));
    text::law_splitting_cuts_at_separators(b, ',', c + seq![','] + d);
    assert(text::split_all(three, ',') =~= seq![a, b, c]);
    assert(text::split_all(four, ',') =~= seq![a, b, c, d]);
    assert(three[a.len() as int] == ',');
    assert(four[a.len() as int] == ',');
    text::lemma_find_char(three, ',', 0);
    text::lemma_find_char(four, ',', 0);
    text::law_first_cut(three, '/');
    text::law_first_cut(four, '/');
    assert(!three.contains('/')) by {
        if three.contains('/') {
            let i = choose|i: int| 0 <= i < three.len() && three[i] == '/';
            let x = a.len() as int;
            let y = b.len() as int;
            if i < x {
                assert(a[i] == '/');
            } else if x < i < x + 1 + y {
                assert(b[i - x - 1] == '/');
            } else if i > x + 1 + y {
                assert(c[i - x - y - 2] == '/');
            }
        }
    }
    assert(!four.contains('/')) by {
        if four.contains('/') {
            let i = choose|i: int| 0 <= i < four.len() && four[i] == '/';
            let x = a.len() as int;
            let y = b.len() as int;
            let z = c.len() as int;
            if i < x {
                assert(a[i] == '/');
            } else if x < i < x + 1 + y {
                assert(b[i - x - 1] == '/');
            } else if x + 1 + y < i < x + y + z + 2 {
                assert(c[i - x - y - 2] == '/');
            } else if i > x + y + z + 2 {
                assert(d[i - x - y - z - 3] == '/');
            }
        }
    }
    assert(color::body_parts(three) =~= seq![text::trimmed(a), text::trimmed(b), text::trimmed(c)]);
    assert(color::body_parts(four) =~= seq![
        text::trimmed(a),
        text::trimmed(b),
        text::trimmed(c),
        text::trimmed(d),
    ]);
}

proof fn lemma_digit_run(s: Seq<char>)
    requires
        s.len() > 0,
        number::all_digits(s),
    ensures
        text::trimmed(s) == s,
        !s.contains(','),
        !s.contains('/'),
{
    assert(text::is_digit(s[0]));
    assert(text::is_digit(s[s.len() - 1]));
    lengths::lemma_untrimmed(s);
    assert forall|i: int| 0 <= i < s.len() implies s[i] != ',' && s[i] != '/' by {
        assert(text::is_digit(s[i]));
    }
}

proof fn lemma_three_bytes(body: Seq<char>, r: Seq<char>, g: Seq<char>, b: Seq<char>, c: Color)
    requires
        color::legacy_body(body) == Some((seq![r, g, b], None::<Seq<char>>)),
        color::channel_part(r) == Some(PartModel::Byte(c.r)),
        color::channel_part(g) == Some(PartModel::Byte(c.g)),
        color::channel_part(b) == Some(PartModel::Byte(c.b)),
        c.a == 255,
    ensures
        color::rgb_body(body) == Some(ColorModel::Srgb(c)),
{
    let parts = seq![r, g, b];
    assert(parts[0] == r && parts[1] == g && parts[2] == b);
}

/// Three whole channels of at most 255 between commas are an opaque color of
/// red, green and blue, in this order.
#[verifier::rlimit(60)]
pub proof fn law_whole_channels_are_a_color(r: Seq<char>, g: Seq<char>, b: Seq<char>)
    requires
        r.len() > 0 && g.len() > 0 && b.len() > 0,
        number::all_digits(r) && number::all_digits(g) && number::all_digits(b),
        number::nat_of(r) <= 255 && number::nat_of(g) <= 255 && number::nat_of(b) <= 255,
    ensures
        color::color_model("rgb("@ + (r + seq![','] + (g + seq![','] + b)) + seq![')']) == Some(
            ColorModel::Srgb(
                Color {
                    r: number::nat_of(r) as u8,
                    g: number::nat_of(g) as u8,
                    b: number::nat_of(b) as u8,
                    a: 255,
                },
            ),
        ),
{
    lemma_digit_run(r);
    lemma_digit_run(g);
    lemma_digit_run(b);
    law_bodies_are_cut_at_commas(r, g, b, b);
    law_channels(r);
    law_channels(g);
    law_channels(b);
    let c = Color {
        r: number::nat_of(r) as u8,
        g: number::nat_of(g) as u8,
        b: number::nat_of(b) as u8,
        a: 255,
    };
    let body = r + seq![','] + (g + seq![','] + b);
    lemma_three_bytes(body, r, g, b, c);
    law_rgb_is_read_as_such(body);
}

/// Hue, saturation and lightness stand in this order, the hue as a number with
/// or without `deg`, the others as percentages.
pub proof fn law_hues_come_first(
    body: Seq<char>,
    h: Seq<char>,
    s: Seq<char>,
    l: Seq<char>,
)
    requires
        color::legacy_body(body) == Some((seq![h, s + seq!['%'], l + seq!['%']], None::<Seq<char>>)),
        number::float_model(h) is Some && number::float_model(s) is Some && number::float_model(
            l,
        ) is Some,
        text::before_suffix(h, "deg"@) is None,
    ensures
        color::hsl_body(body) == Some(
            ColorModel::Components {
                notation: Notation::Hsl,
                parts: (
                    PartModel::Angle(h, color::AngleUnit::Deg),
                    PartModel::Percent(s),
                    PartModel::Percent(l),
                ),
                alpha: None,
            },
        ),
{
    reveal_strlit("%");
    assert("%"@ =~= seq!['%']);
    text::law_suffixes(s, "%"@);
    text::law_suffixes(l, "%"@);
    let parts = seq![h, s + seq!['%'], l + seq!['%']];
    assert(parts[0] == h && parts[1] == s + seq!['%'] && parts[2] == l + seq!['%']);
    assert(color::degree_part(h) == Some(PartModel::Angle(h, color::AngleUnit::Deg)));
    assert(color::bare_percent(s + seq!['%']) == Some(PartModel::Percent(s)));
    assert(color::bare_percent(l + seq!['%']) == Some(PartModel::Percent(l)));
}

/// The units of angles: degrees, gradians, radians and turns; without a unit
/// they are degrees.
pub proof fn law_angles_have_units(n: Seq<char>)
    requires
        n.len() > 0,
        '0' <= n.last() <= '9',
    ensures
        color::angle_split(n + "deg"@) == (n, color::AngleUnit::Deg),
        color::angle_split(n + "grad"@) == (n, color::AngleUnit::Grad),
        color::angle_split(n + "rad"@) == (n, color::AngleUnit::Rad),
        color::angle_split(n + "turn"@) == (n, color::AngleUnit::Turn),
        color::angle_split(n) == (n, color::AngleUnit::Deg),
{
    reveal_strlit("deg");
    reveal_strlit("grad");
    reveal_strlit("rad");
    reveal_strlit("turn");
    assert("deg"@.len() == 3 && "grad"@.len() == 4 && "rad"@.len() == 3 && "turn"@.len() == 4);
    assert("deg"@[2] == 'g' && "grad"@[3] == 'd' && "rad"@[2] == 'd' && "turn"@[3] == 'n');
    assert("grad"@[0] == 'g');
    text::law_suffixes(n, "deg"@);
    text::law_suffixes(n, "grad"@);
    text::law_suffixes(n, "rad"@);
    text::law_suffixes(n, "turn"@);
    let g = n + "grad"@;
    let r = n + "rad"@;
    let t = n + "turn"@;
    assert(g.last() == 'd' && r.last() == 'd' && t.last() == 'n');
    lengths::lemma_no_suffix(g, "deg"@, 1);
    lengths::lemma_no_suffix(r, "deg"@, 1);
    assert(r[r.len() - 4] == n.last());
    lengths::lemma_no_suffix(r, "grad"@, 4);
    lengths::lemma_no_suffix(t, "deg"@, 1);
    lengths::lemma_no_suffix(t, "grad"@, 1);
    lengths::lemma_no_suffix(t, "rad"@, 1);
    lengths::lemma_no_suffix(n, "deg"@, 1);
    lengths::lemma_no_suffix(n, "grad"@, 1);
    lengths::lemma_no_suffix(n, "rad"@, 1);
    lengths::lemma_no_suffix(n, "turn"@, 1);
}

/// `none`, in any case, is a missing component in the modern notations.
pub proof fn law_none_is_missing(s: Seq<char>)
    requires
        text::lowered(s) == "none"@,
    ensures
        color::percent_part(s) == Some(PartModel::Missing),
        color::scaled_part(s) == Some(PartModel::Missing),
        color::hue_part(s) == Some(PartModel::Missing),
        color::modern_alpha(s) == Some(PartModel::Missing),
{
    reveal_strlit("none");
    assert(text::lowered("none"@) =~= "none"@);
    assert("none"@.len() == 4 && "none"@[0] == 'n' && "none"@[3] == 'e');
    assert(text::lowered(s)[0] == text::lower(s[0]));
    assert(text::lowered(s)[3] == text::lower(s[3]));
    lengths::lemma_untrimmed(s);
}

proof fn lemma_three_digits(m: nat)
    requires
        m < 1000,
    ensures
        text::digits_value(
            seq![
                text::digit_char(m / 100),
                text::digit_char(m / 10 % 10),
                text::digit_char(m % 10),
            ],
        ) == m,
{
    let x = text::digit_char(m / 100);
    let y = text::digit_char(m / 10 % 10);
    let z = text::digit_char(m % 10);
    let d = seq![x, y, z];
    assert(d.drop_last() =~= seq![x, y]);
    assert(seq![x, y].drop_last() =~= seq![x]);
    assert(seq![x].drop_last() =~= Seq::<char>::empty());
    assert(text::digits_value(Seq::<char>::empty()) == 0);
    assert(text::digits_value(seq![x]) == m / 100);
    assert(text::digits_value(seq![x, y]) == 10 * (m / 100) + m / 10 % 10);
    assert(text::digits_value(d) == 10 * (10 * (m / 100) + m / 10 % 10) + m % 10);
}

/// A color that is not opaque is written with its channels in decimal and its
/// alpha in thousandths, rounded to the nearest.
pub proof fn law_clear_colors_are_written_in_decimal(c: Color)
    requires
        c.a < 255,
    ensures
        ({
            let m = color::alpha_thousandths(c.a);
            &&& 510 * m <= 2000 * c.a + 255
            &&& 2000 * c.a + 255 < 510 * m + 510
            &&& exists|digits: Seq<char>|
                {
                    &&& #[trigger] text::digits_value(digits) == m
                    &&& digits.len() == 3
                    &&& color::color_text(c) == seq!['r', 'g', 'b', 'a', '('] + text::decimal(
                        c.r as nat,
                    ) + seq![','] + text::decimal(c.g as nat) + seq![','] + text::decimal(
                        c.b as nat,
                    ) + seq![',', '0', '.'] + digits + seq![')']
                }
        }),
{
    reveal_strlit("rgba(");
    reveal_strlit(",");
    reveal_strlit(",0.");
    reveal_strlit(")");
    assert("rgba("@ =~= seq!['r', 'g', 'b', 'a', '(']);
    assert(","@ =~= seq![',']);
    assert(",0."@ =~= seq![',', '0', '.']);
    assert(")"@ =~= seq![')']);
    let m = color::alpha_thousandths(c.a);
    lemma_three_digits(m);
    let digits = seq![
        text::digit_char(m / 100),
        text::digit_char(m / 10 % 10),
        text::digit_char(m % 10),
    ];
    assert(text::digits_value(digits) == m);
}

} // verus!
