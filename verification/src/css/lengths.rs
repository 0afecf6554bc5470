//! What numbers with a unit read as.
use crate::css::number::{self, NumberModel, Scale};
use crate::css::value::{self, Unit, ValueModel};
use crate::text;
use vstd::prelude::*;

verus! {

/// A decimal literal.
pub open spec fn is_decimal(n: Seq<char>) -> bool {
    number::float_model(n) is Some && number::float_model(n)->0 is Decimal
}

pub proof fn lemma_suffix(n: Seq<char>, w: Seq<char>)
    ensures
        text::before_suffix(n + w, w) == Some(n),
{
    let s = n + w;
    assert(s.skip(s.len() - w.len()) =~= w);
    assert(s.take(s.len() - w.len()) =~= n);
}

/// A text whose `k`-th character from the end is another one does not end so.
pub proof fn lemma_no_suffix(s: Seq<char>, w: Seq<char>, k: int)
    requires
        1 <= k <= w.len(),
        s.len() >= k ==> s[s.len() - k] != w[w.len() - k],
    ensures
        text::before_suffix(s, w) is None,
{
    if text::ends(s, w) {
        assert(s.skip(s.len() - w.len())[w.len() - k] == s[s.len() - k]);
    }
}

pub proof fn lemma_untrimmed(s: Seq<char>)
    requires
        s.len() > 0,
        !text::is_space(s[0]),
        !text::is_space(s.last()),
    ensures
        text::trimmed(s) == s,
{
    assert(s.skip(0) =~= s);
    assert(text::trim_back(s, s.len() as int) == s.len());
    assert(s.take(s.len() as int) =~= s);
}

pub proof fn lemma_no_prefix(s: Seq<char>, w: Seq<char>)
    requires
        w.len() > 0,
        s.len() > 0 ==> s[0] != w[0],
    ensures
        !text::starts(s, w),
{
    if text::starts(s, w) {
        assert(s.take(w.len() as int)[0] == s[0]);
    }
}

/// A component that starts like a number and holds no parenthesis is read as a
/// number, a length or a word.
pub proof fn lemma_plain(s: Seq<char>)
    requires
        s.len() > 0,
        ('0' <= s[0] <= '9') || s[0] == '+' || s[0] == '-' || s[0] == '.',
        !text::is_space(s.last()),
        forall|i: int| 0 <= i < s.len() ==> s[i] != '(',
    ensures
        value::inner_model(s) == value::plain_model(s),
{
    reveal_strlit("auto");
    reveal_strlit("url(");
    reveal_strlit("\"");
    reveal_strlit("'");
    reveal_strlit("#");
    reveal_strlit("rgb(");
    reveal_strlit("rgba(");
    reveal_strlit("hsl(");
    reveal_strlit("hsla(");
    reveal_strlit("hwb(");
    reveal_strlit("lab(");
    reveal_strlit("lch(");
    reveal_strlit("oklab(");
    reveal_strlit("oklch(");
    reveal_strlit("color-mix(");
    lemma_untrimmed(s);
    if text::eq_ci(s, "auto"@) {
        assert(text::lowered(s)[0] == s[0]);
        assert(text::lowered(s).len() == s.len());
        assert(text::lowered("auto"@)[0] == 'a');
    }
    if value::is_url(s) {
        assert(text::lowered(s.take(4))[0] == s[0]);
        assert(text::lowered("url("@)[0] == 'u');
    }
    text::lemma_find_char(s, '(', 0);
    lemma_no_prefix(s, "\""@);
    lemma_no_prefix(s, "'"@);
    lemma_no_prefix(s, "#"@);
    lemma_no_prefix(s, "rgb("@);
    lemma_no_prefix(s, "rgba("@);
    lemma_no_prefix(s, "hsl("@);
    lemma_no_prefix(s, "hsla("@);
    lemma_no_prefix(s, "hwb("@);
    lemma_no_prefix(s, "lab("@);
    lemma_no_prefix(s, "lch("@);
    lemma_no_prefix(s, "oklab("@);
    lemma_no_prefix(s, "oklch("@);
    lemma_no_prefix(s, "color-mix("@);
}

proof fn lemma_finite_length(s: Seq<char>, n: NumberModel, unit: Unit)
    requires
        value::inner_model(s) == Some(ValueModel::Length(n, unit)),
        number::finite(n.literal, n.scale),
    ensures
        value::component_model(s) == Some(ValueModel::Length(n, unit)),
{
}

/// A literal with a unit behind it is read as one, without the white space
/// that it does not have.
pub proof fn lemma_measure(n: Seq<char>, unit: Seq<char>)
    requires
        is_decimal(n),
        unit.len() > 0 ==> !text::is_space(unit.last()),
        forall|i: int| 0 <= i < unit.len() ==> unit[i] != '(',
    ensures
        n.len() > 0,
        value::inner_model(n + unit) == value::plain_model(n + unit),
        text::trimmed(n) == n,
        forall|k: int|
            1 <= k <= unit.len() ==> (n + unit)[(n + unit).len() - k] == #[trigger] unit[unit.len()
                - k],
        ('0' <= n.last() <= '9') || n.last() == '.',
        (n + unit)[n.len() - 1] == n.last(),
        !text::is_space(n[0]),
{
    number::law_decimal_literals(n);
    let s = n + unit;
    lemma_untrimmed(n);
    assert(s[0] == n[0]);
    if unit.len() == 0 {
        assert(s =~= n);
    } else {
        assert(s.last() == unit.last());
    }
    assert forall|i: int| 0 <= i < s.len() implies s[i] != '(' by {
        if i < n.len() {
            assert(s[i] == n[i]);
            assert(number::decimal_char(n[i]));
        } else {
            assert(s[i] == unit[i - n.len()]);
        }
    }
    lemma_plain(s);
}

#[verifier::rlimit(50)]
proof fn lemma_plain_px(n: Seq<char>)
    requires
        is_decimal(n),
    ensures
        value::plain_model(n + "px"@) == Some(
            ValueModel::Length(NumberModel { literal: n, scale: Scale::One }, Unit::Px),
        ),
{
    reveal_strlit("px");
    let s = n + "px"@;
    lemma_measure(n, "px"@);
    lemma_suffix(n, "px"@);
}

#[verifier::rlimit(50)]
proof fn lemma_plain_rem(n: Seq<char>)
    requires
        is_decimal(n),
    ensures
        value::plain_model(n + "rem"@) == Some(
            ValueModel::Length(NumberModel { literal: n, scale: Scale::One }, Unit::Rem),
        ),
{
    reveal_strlit("rem");
    let s = n + "rem"@;
    lemma_measure(n, "rem"@);
    lemma_suffix(n, "rem"@);
    assert(text::before_suffix(s, "px"@) is None) by {
        reveal_strlit("px");
        lemma_no_suffix(s, "px"@, 1);
    }
}

#[verifier::rlimit(50)]
proof fn lemma_plain_em(n: Seq<char>)
    requires
        is_decimal(n),
    ensures
        value::plain_model(n + "em"@) == Some(
            ValueModel::Length(NumberModel { literal: n, scale: Scale::One }, Unit::Em),
        ),
{
    reveal_strlit("em");
    let s = n + "em"@;
    lemma_measure(n, "em"@);
    lemma_suffix(n, "em"@);
    assert(text::before_suffix(s, "px"@) is None) by {
        reveal_strlit("px");
        lemma_no_suffix(s, "px"@, 1);
    }
    assert(text::before_suffix(s, "rem"@) is None) by {
        reveal_strlit("rem");
        lemma_no_suffix(s, "rem"@, 3);
    }
}

#[verifier::rlimit(50)]
proof fn lemma_plain_pt(n: Seq<char>)
    requires
        is_decimal(n),
    ensures
        value::plain_model(n + "pt"@) == Some(
            ValueModel::Length(NumberModel { literal: n, scale: Scale::Pt }, Unit::Px),
        ),
{
    reveal_strlit("pt");
    let s = n + "pt"@;
    lemma_measure(n, "pt"@);
    lemma_suffix(n, "pt"@);
    assert(text::before_suffix(s, "px"@) is None) by {
        reveal_strlit("px");
        lemma_no_suffix(s, "px"@, 1);
    }
    assert(text::before_suffix(s, "rem"@) is None) by {
        reveal_strlit("rem");
        lemma_no_suffix(s, "rem"@, 1);
    }
    assert(text::before_suffix(s, "em"@) is None) by {
        reveal_strlit("em");
        lemma_no_suffix(s, "em"@, 1);
    }
}

#[verifier::rlimit(50)]
proof fn lemma_plain_pc(n: Seq<char>)
    requires
        is_decimal(n),
    ensures
        value::plain_model(n + "pc"@) == Some(
            ValueModel::Length(NumberModel { literal: n, scale: Scale::Pc }, Unit::Px),
        ),
{
    reveal_strlit("pc");
    let s = n + "pc"@;
    lemma_measure(n, "pc"@);
    lemma_suffix(n, "pc"@);
    assert(text::before_suffix(s, "px"@) is None) by {
        reveal_strlit("px");
        lemma_no_suffix(s, "px"@, 1);
    }
    assert(text::before_suffix(s, "rem"@) is None) by {
        reveal_strlit("rem");
        lemma_no_suffix(s, "rem"@, 1);
    }
    assert(text::before_suffix(s, "em"@) is None) by {
        reveal_strlit("em");
        lemma_no_suffix(s, "em"@, 1);
    }
    assert(text::before_suffix(s, "pt"@) is None) by {
        reveal_strlit("pt");
        lemma_no_suffix(s, "pt"@, 1);
    }
}

#[verifier::rlimit(50)]
proof fn lemma_plain_cm(n: Seq<char>)
    requires
        is_decimal(n),
    ensures
        value::plain_model(n + "cm"@) == Some(
            ValueModel::Length(NumberModel { literal: n, scale: Scale::Cm }, Unit::Px),
        ),
{
    reveal_strlit("cm");
    let s = n + "cm"@;
    lemma_measure(n, "cm"@);
    lemma_suffix(n, "cm"@);
    assert(text::before_suffix(s, "px"@) is None) by {
        reveal_strlit("px");
        lemma_no_suffix(s, "px"@, 1);
    }
    assert(text::before_suffix(s, "rem"@) is None) by {
        reveal_strlit("rem");
        lemma_no_suffix(s, "rem"@, 2);
    }
    assert(text::before_suffix(s, "em"@) is None) by {
        reveal_strlit("em");
        lemma_no_suffix(s, "em"@, 2);
    }
    assert(text::before_suffix(s, "pt"@) is None) by {
        reveal_strlit("pt");
        lemma_no_suffix(s, "pt"@, 1);
    }
    assert(text::before_suffix(s, "pc"@) is None) by {
        reveal_strlit("pc");
        lemma_no_suffix(s, "pc"@, 1);
    }
}

#[verifier::rlimit(50)]
proof fn lemma_plain_mm(n: Seq<char>)
    requires
        is_decimal(n),
    ensures
        value::plain_model(n + "mm"@) == Some(
            ValueModel::Length(NumberModel { literal: n, scale: Scale::Mm }, Unit::Px),
        ),
{
    reveal_strlit("mm");
    let s = n + "mm"@;
    lemma_measure(n, "mm"@);
    lemma_suffix(n, "mm"@);
    assert(text::before_suffix(s, "px"@) is None) by {
        reveal_strlit("px");
        lemma_no_suffix(s, "px"@, 1);
    }
    assert(text::before_suffix(s, "rem"@) is None) by {
        reveal_strlit("rem");
        lemma_no_suffix(s, "rem"@, 2);
    }
    assert(text::before_suffix(s, "em"@) is None) by {
        reveal_strlit("em");
        lemma_no_suffix(s, "em"@, 2);
    }
    assert(text::before_suffix(s, "pt"@) is None) by {
        reveal_strlit("pt");
        lemma_no_suffix(s, "pt"@, 1);
    }
    assert(text::before_suffix(s, "pc"@) is None) by {
        reveal_strlit("pc");
        lemma_no_suffix(s, "pc"@, 1);
    }
    assert(text::before_suffix(s, "cm"@) is None) by {
        reveal_strlit("cm");
        lemma_no_suffix(s, "cm"@, 2);
    }
}

#[verifier::rlimit(50)]
proof fn lemma_plain_in(n: Seq<char>)
    requires
        is_decimal(n),
    ensures
        value::plain_model(n + "in"@) == Some(
            ValueModel::Length(NumberModel { literal: n, scale: Scale::In }, Unit::Px),
        ),
{
    reveal_strlit("in");
    let s = n + "in"@;
    lemma_measure(n, "in"@);
    lemma_suffix(n, "in"@);
    assert(text::before_suffix(s, "px"@) is None) by {
        reveal_strlit("px");
        lemma_no_suffix(s, "px"@, 1);
    }
    assert(text::before_suffix(s, "rem"@) is None) by {
        reveal_strlit("rem");
        lemma_no_suffix(s, "rem"@, 1);
    }
    assert(text::before_suffix(s, "em"@) is None) by {
        reveal_strlit("em");
        lemma_no_suffix(s, "em"@, 1);
    }
    assert(text::before_suffix(s, "pt"@) is None) by {
        reveal_strlit("pt");
        lemma_no_suffix(s, "pt"@, 1);
    }
    assert(text::before_suffix(s, "pc"@) is None) by {
        reveal_strlit("pc");
        lemma_no_suffix(s, "pc"@, 1);
    }
    assert(text::before_suffix(s, "cm"@) is None) by {
        reveal_strlit("cm");
        lemma_no_suffix(s, "cm"@, 1);
    }
    assert(text::before_suffix(s, "mm"@) is None) by {
        reveal_strlit("mm");
        lemma_no_suffix(s, "mm"@, 1);
    }
}

#[verifier::rlimit(50)]
proof fn lemma_plain_q(n: Seq<char>)
    requires
        is_decimal(n),
    ensures
        value::plain_model(n + "q"@) == Some(
            ValueModel::Length(NumberModel { literal: n, scale: Scale::Q }, Unit::Px),
        ),
{
    reveal_strlit("q");
    let s = n + "q"@;
    lemma_measure(n, "q"@);
    lemma_suffix(n, "q"@);
    assert(text::before_suffix(s, "px"@) is None) by {
        reveal_strlit("px");
        lemma_no_suffix(s, "px"@, 1);
    }
    assert(text::before_suffix(s, "rem"@) is None) by {
        reveal_strlit("rem");
        lemma_no_suffix(s, "rem"@, 1);
    }
    assert(text::before_suffix(s, "em"@) is None) by {
        reveal_strlit("em");
        lemma_no_suffix(s, "em"@, 1);
    }
    assert(text::before_suffix(s, "pt"@) is None) by {
        reveal_strlit("pt");
        lemma_no_suffix(s, "pt"@, 1);
    }
    assert(text::before_suffix(s, "pc"@) is None) by {
        reveal_strlit("pc");
        lemma_no_suffix(s, "pc"@, 1);
    }
    assert(text::before_suffix(s, "cm"@) is None) by {
        reveal_strlit("cm");
        lemma_no_suffix(s, "cm"@, 1);
    }
    assert(text::before_suffix(s, "mm"@) is None) by {
        reveal_strlit("mm");
        lemma_no_suffix(s, "mm"@, 1);
    }
    assert(text::before_suffix(s, "in"@) is None) by {
        reveal_strlit("in");
        lemma_no_suffix(s, "in"@, 1);
    }
}

#[verifier::rlimit(50)]
proof fn lemma_plain_ch(n: Seq<char>)
    requires
        is_decimal(n),
    ensures
        value::plain_model(n + "ch"@) == Some(
            ValueModel::Length(NumberModel { literal: n, scale: Scale::Half }, Unit::Em),
        ),
{
    reveal_strlit("ch");
    let s = n + "ch"@;
    lemma_measure(n, "ch"@);
    lemma_suffix(n, "ch"@);
    assert(text::before_suffix(s, "px"@) is None) by {
        reveal_strlit("px");
        lemma_no_suffix(s, "px"@, 1);
    }
    assert(text::before_suffix(s, "rem"@) is None) by {
        reveal_strlit("rem");
        lemma_no_suffix(s, "rem"@, 1);
    }
    assert(text::before_suffix(s, "em"@) is None) by {
        reveal_strlit("em");
        lemma_no_suffix(s, "em"@, 1);
    }
    assert(text::before_suffix(s, "pt"@) is None) by {
        reveal_strlit("pt");
        lemma_no_suffix(s, "pt"@, 1);
    }
    assert(text::before_suffix(s, "pc"@) is None) by {
        reveal_strlit("pc");
        lemma_no_suffix(s, "pc"@, 1);
    }
    assert(text::before_suffix(s, "cm"@) is None) by {
        reveal_strlit("cm");
        lemma_no_suffix(s, "cm"@, 1);
    }
    assert(text::before_suffix(s, "mm"@) is None) by {
        reveal_strlit("mm");
        lemma_no_suffix(s, "mm"@, 1);
    }
    assert(text::before_suffix(s, "in"@) is None) by {
        reveal_strlit("in");
        lemma_no_suffix(s, "in"@, 1);
    }
    assert(text::before_suffix(s, "q"@) is None) by {
        reveal_strlit("q");
        lemma_no_suffix(s, "q"@, 1);
    }
}

#[verifier::rlimit(50)]
proof fn lemma_plain_ex(n: Seq<char>)
    requires
        is_decimal(n),
    ensures
        value::plain_model(n + "ex"@) == Some(
            ValueModel::Length(NumberModel { literal: n, scale: Scale::Half }, Unit::Em),
        ),
{
    reveal_strlit("ex");
    let s = n + "ex"@;
    lemma_measure(n, "ex"@);
    lemma_suffix(n, "ex"@);
    assert(text::before_suffix(s, "px"@) is None) by {
        reveal_strlit("px");
        lemma_no_suffix(s, "px"@, 2);
    }
    assert(text::before_suffix(s, "rem"@) is None) by {
        reveal_strlit("rem");
        lemma_no_suffix(s, "rem"@, 1);
    }
    assert(text::before_suffix(s, "em"@) is None) by {
        reveal_strlit("em");
        lemma_no_suffix(s, "em"@, 1);
    }
    assert(text::before_suffix(s, "pt"@) is None) by {
        reveal_strlit("pt");
        lemma_no_suffix(s, "pt"@, 1);
    }
    assert(text::before_suffix(s, "pc"@) is None) by {
        reveal_strlit("pc");
        lemma_no_suffix(s, "pc"@, 1);
    }
    assert(text::before_suffix(s, "cm"@) is None) by {
        reveal_strlit("cm");
        lemma_no_suffix(s, "cm"@, 1);
    }
    assert(text::before_suffix(s, "mm"@) is None) by {
        reveal_strlit("mm");
        lemma_no_suffix(s, "mm"@, 1);
    }
    assert(text::before_suffix(s, "in"@) is None) by {
        reveal_strlit("in");
        lemma_no_suffix(s, "in"@, 1);
    }
    assert(text::before_suffix(s, "q"@) is None) by {
        reveal_strlit("q");
        lemma_no_suffix(s, "q"@, 1);
    }
    assert(text::before_suffix(s, "ch"@) is None) by {
        reveal_strlit("ch");
        lemma_no_suffix(s, "ch"@, 1);
    }
}

#[verifier::rlimit(50)]
proof fn lemma_plain_vmin(n: Seq<char>)
    requires
        is_decimal(n),
    ensures
        value::plain_model(n + "vmin"@) == Some(
            ValueModel::Length(NumberModel { literal: n, scale: Scale::One }, Unit::Vmin),
        ),
{
    reveal_strlit("vmin");
    reveal_strlit("vm");
    reveal_strlit("in");
    let s = n + "vmin"@;
    lemma_measure(n, "vmin"@);
    lemma_suffix(n, "vmin"@);
    assert(text::before_suffix(s, "px"@) is None) by {
        reveal_strlit("px");
        lemma_no_suffix(s, "px"@, 1);
    }
    assert(text::before_suffix(s, "rem"@) is None) by {
        reveal_strlit("rem");
        lemma_no_suffix(s, "rem"@, 1);
    }
    assert(text::before_suffix(s, "em"@) is None) by {
        reveal_strlit("em");
        lemma_no_suffix(s, "em"@, 1);
    }
    assert(text::before_suffix(s, "pt"@) is None) by {
        reveal_strlit("pt");
        lemma_no_suffix(s, "pt"@, 1);
    }
    assert(text::before_suffix(s, "pc"@) is None) by {
        reveal_strlit("pc");
        lemma_no_suffix(s, "pc"@, 1);
    }
    assert(text::before_suffix(s, "cm"@) is None) by {
        reveal_strlit("cm");
        lemma_no_suffix(s, "cm"@, 1);
    }
    assert(text::before_suffix(s, "mm"@) is None) by {
        reveal_strlit("mm");
        lemma_no_suffix(s, "mm"@, 1);
    }
    let inner = n + "vm"@;
    assert(s =~= inner + "in"@);
    lemma_suffix(inner, "in"@);
    assert(inner[n.len() as int] == 'v');
    lemma_untrimmed(inner);
    number::lemma_no_float(inner, n.len() as int);
    assert(text::before_suffix(s, "q"@) is None) by {
        reveal_strlit("q");
        lemma_no_suffix(s, "q"@, 1);
    }
    assert(text::before_suffix(s, "ch"@) is None) by {
        reveal_strlit("ch");
        lemma_no_suffix(s, "ch"@, 1);
    }
    assert(text::before_suffix(s, "ex"@) is None) by {
        reveal_strlit("ex");
        lemma_no_suffix(s, "ex"@, 1);
    }
}

#[verifier::rlimit(50)]
proof fn lemma_plain_vmax(n: Seq<char>)
    requires
        is_decimal(n),
    ensures
        value::plain_model(n + "vmax"@) == Some(
            ValueModel::Length(NumberModel { literal: n, scale: Scale::One }, Unit::Vmax),
        ),
{
    reveal_strlit("vmax");
    let s = n + "vmax"@;
    lemma_measure(n, "vmax"@);
    lemma_suffix(n, "vmax"@);
    assert(text::before_suffix(s, "px"@) is None) by {
        reveal_strlit("px");
        lemma_no_suffix(s, "px"@, 2);
    }
    assert(text::before_suffix(s, "rem"@) is None) by {
        reveal_strlit("rem");
        lemma_no_suffix(s, "rem"@, 1);
    }
    assert(text::before_suffix(s, "em"@) is None) by {
        reveal_strlit("em");
        lemma_no_suffix(s, "em"@, 1);
    }
    assert(text::before_suffix(s, "pt"@) is None) by {
        reveal_strlit("pt");
        lemma_no_suffix(s, "pt"@, 1);
    }
    assert(text::before_suffix(s, "pc"@) is None) by {
        reveal_strlit("pc");
        lemma_no_suffix(s, "pc"@, 1);
    }
    assert(text::before_suffix(s, "cm"@) is None) by {
        reveal_strlit("cm");
        lemma_no_suffix(s, "cm"@, 1);
    }
    assert(text::before_suffix(s, "mm"@) is None) by {
        reveal_strlit("mm");
        lemma_no_suffix(s, "mm"@, 1);
    }
    assert(text::before_suffix(s, "in"@) is None) by {
        reveal_strlit("in");
        lemma_no_suffix(s, "in"@, 1);
    }
    assert(text::before_suffix(s, "q"@) is None) by {
        reveal_strlit("q");
        lemma_no_suffix(s, "q"@, 1);
    }
    assert(text::before_suffix(s, "ch"@) is None) by {
        reveal_strlit("ch");
        lemma_no_suffix(s, "ch"@, 1);
    }
    assert(text::before_suffix(s, "ex"@) is None) by {
        reveal_strlit("ex");
        lemma_no_suffix(s, "ex"@, 2);
    }
    assert(text::before_suffix(s, "vmin"@) is None) by {
        reveal_strlit("vmin");
        lemma_no_suffix(s, "vmin"@, 1);
    }
}

#[verifier::rlimit(50)]
proof fn lemma_plain_vw(n: Seq<char>)
    requires
        is_decimal(n),
    ensures
        value::plain_model(n + "vw"@) == Some(
            ValueModel::Length(NumberModel { literal: n, scale: Scale::One }, Unit::Vw),
        ),
{
    reveal_strlit("vw");
    let s = n + "vw"@;
    lemma_measure(n, "vw"@);
    lemma_suffix(n, "vw"@);
    assert(text::before_suffix(s, "px"@) is None) by {
        reveal_strlit("px");
        lemma_no_suffix(s, "px"@, 1);
    }
    assert(text::before_suffix(s, "rem"@) is None) by {
        reveal_strlit("rem");
        lemma_no_suffix(s, "rem"@, 1);
    }
    assert(text::before_suffix(s, "em"@) is None) by {
        reveal_strlit("em");
        lemma_no_suffix(s, "em"@, 1);
    }
    assert(text::before_suffix(s, "pt"@) is None) by {
        reveal_strlit("pt");
        lemma_no_suffix(s, "pt"@, 1);
    }
    assert(text::before_suffix(s, "pc"@) is None) by {
        reveal_strlit("pc");
        lemma_no_suffix(s, "pc"@, 1);
    }
    assert(text::before_suffix(s, "cm"@) is None) by {
        reveal_strlit("cm");
        lemma_no_suffix(s, "cm"@, 1);
    }
    assert(text::before_suffix(s, "mm"@) is None) by {
        reveal_strlit("mm");
        lemma_no_suffix(s, "mm"@, 1);
    }
    assert(text::before_suffix(s, "in"@) is None) by {
        reveal_strlit("in");
        lemma_no_suffix(s, "in"@, 1);
    }
    assert(text::before_suffix(s, "q"@) is None) by {
        reveal_strlit("q");
        lemma_no_suffix(s, "q"@, 1);
    }
    assert(text::before_suffix(s, "ch"@) is None) by {
        reveal_strlit("ch");
        lemma_no_suffix(s, "ch"@, 1);
    }
    assert(text::before_suffix(s, "ex"@) is None) by {
        reveal_strlit("ex");
        lemma_no_suffix(s, "ex"@, 1);
    }
    assert(text::before_suffix(s, "vmin"@) is None) by {
        reveal_strlit("vmin");
        lemma_no_suffix(s, "vmin"@, 1);
    }
    assert(text::before_suffix(s, "vmax"@) is None) by {
        reveal_strlit("vmax");
        lemma_no_suffix(s, "vmax"@, 1);
    }
}

#[verifier::rlimit(50)]
proof fn lemma_plain_vh(n: Seq<char>)
    requires
        is_decimal(n),
    ensures
        value::plain_model(n + "vh"@) == Some(
            ValueModel::Length(NumberModel { literal: n, scale: Scale::One }, Unit::Vh),
        ),
{
    reveal_strlit("vh");
    let s = n + "vh"@;
    lemma_measure(n, "vh"@);
    lemma_suffix(n, "vh"@);
    assert(text::before_suffix(s, "px"@) is None) by {
        reveal_strlit("px");
        lemma_no_suffix(s, "px"@, 1);
    }
    assert(text::before_suffix(s, "rem"@) is None) by {
        reveal_strlit("rem");
        lemma_no_suffix(s, "rem"@, 1);
    }
    assert(text::before_suffix(s, "em"@) is None) by {
        reveal_strlit("em");
        lemma_no_suffix(s, "em"@, 1);
    }
    assert(text::before_suffix(s, "pt"@) is None) by {
        reveal_strlit("pt");
        lemma_no_suffix(s, "pt"@, 1);
    }
    assert(text::before_suffix(s, "pc"@) is None) by {
        reveal_strlit("pc");
        lemma_no_suffix(s, "pc"@, 1);
    }
    assert(text::before_suffix(s, "cm"@) is None) by {
        reveal_strlit("cm");
        lemma_no_suffix(s, "cm"@, 1);
    }
    assert(text::before_suffix(s, "mm"@) is None) by {
        reveal_strlit("mm");
        lemma_no_suffix(s, "mm"@, 1);
    }
    assert(text::before_suffix(s, "in"@) is None) by {
        reveal_strlit("in");
        lemma_no_suffix(s, "in"@, 1);
    }
    assert(text::before_suffix(s, "q"@) is None) by {
        reveal_strlit("q");
        lemma_no_suffix(s, "q"@, 1);
    }
    assert(text::before_suffix(s, "ch"@) is None) by {
        reveal_strlit("ch");
        lemma_no_suffix(s, "ch"@, 2);
    }
    assert(text::before_suffix(s, "ex"@) is None) by {
        reveal_strlit("ex");
        lemma_no_suffix(s, "ex"@, 1);
    }
    assert(text::before_suffix(s, "vmin"@) is None) by {
        reveal_strlit("vmin");
        lemma_no_suffix(s, "vmin"@, 1);
    }
    assert(text::before_suffix(s, "vmax"@) is None) by {
        reveal_strlit("vmax");
        lemma_no_suffix(s, "vmax"@, 1);
    }
    assert(text::before_suffix(s, "vw"@) is None) by {
        reveal_strlit("vw");
        lemma_no_suffix(s, "vw"@, 1);
    }
}

#[verifier::rlimit(50)]
proof fn lemma_plain_percent(n: Seq<char>)
    requires
        is_decimal(n),
    ensures
        value::plain_model(n + "%"@) == Some(
            ValueModel::Length(NumberModel { literal: n, scale: Scale::One }, Unit::Percent),
        ),
{
    reveal_strlit("%");
    let s = n + "%"@;
    lemma_measure(n, "%"@);
    lemma_suffix(n, "%"@);
    assert(text::before_suffix(s, "px"@) is None) by {
        reveal_strlit("px");
        lemma_no_suffix(s, "px"@, 1);
    }
    assert(text::before_suffix(s, "rem"@) is None) by {
        reveal_strlit("rem");
        lemma_no_suffix(s, "rem"@, 1);
    }
    assert(text::before_suffix(s, "em"@) is None) by {
        reveal_strlit("em");
        lemma_no_suffix(s, "em"@, 1);
    }
    assert(text::before_suffix(s, "pt"@) is None) by {
        reveal_strlit("pt");
        lemma_no_suffix(s, "pt"@, 1);
    }
    assert(text::before_suffix(s, "pc"@) is None) by {
        reveal_strlit("pc");
        lemma_no_suffix(s, "pc"@, 1);
    }
    assert(text::before_suffix(s, "cm"@) is None) by {
        reveal_strlit("cm");
        lemma_no_suffix(s, "cm"@, 1);
    }
    assert(text::before_suffix(s, "mm"@) is None) by {
        reveal_strlit("mm");
        lemma_no_suffix(s, "mm"@, 1);
    }
    assert(text::before_suffix(s, "in"@) is None) by {
        reveal_strlit("in");
        lemma_no_suffix(s, "in"@, 1);
    }
    assert(text::before_suffix(s, "q"@) is None) by {
        reveal_strlit("q");
        lemma_no_suffix(s, "q"@, 1);
    }
    assert(text::before_suffix(s, "ch"@) is None) by {
        reveal_strlit("ch");
        lemma_no_suffix(s, "ch"@, 1);
    }
    assert(text::before_suffix(s, "ex"@) is None) by {
        reveal_strlit("ex");
        lemma_no_suffix(s, "ex"@, 1);
    }
    assert(text::before_suffix(s, "vmin"@) is None) by {
        reveal_strlit("vmin");
        lemma_no_suffix(s, "vmin"@, 1);
    }
    assert(text::before_suffix(s, "vmax"@) is None) by {
        reveal_strlit("vmax");
        lemma_no_suffix(s, "vmax"@, 1);
    }
    assert(text::before_suffix(s, "vw"@) is None) by {
        reveal_strlit("vw");
        lemma_no_suffix(s, "vw"@, 1);
    }
    assert(text::before_suffix(s, "vh"@) is None) by {
        reveal_strlit("vh");
        lemma_no_suffix(s, "vh"@, 1);
    }
}

#[verifier::rlimit(50)]
proof fn lemma_reads_px(n: Seq<char>)
    requires
        is_decimal(n),
        number::finite(n, Scale::One),
    ensures
        value::component_model(n + "px"@) == Some(
            ValueModel::Length(NumberModel { literal: n, scale: Scale::One }, Unit::Px),
        ),
{
    reveal_strlit("px");
    lemma_measure(n, "px"@);
    lemma_plain_px(n);
    lemma_finite_length(n + "px"@, NumberModel { literal: n, scale: Scale::One }, Unit::Px);
}

#[verifier::rlimit(50)]
proof fn lemma_reads_rem(n: Seq<char>)
    requires
        is_decimal(n),
        number::finite(n, Scale::One),
    ensures
        value::component_model(n + "rem"@) == Some(
            ValueModel::Length(NumberModel { literal: n, scale: Scale::One }, Unit::Rem),
        ),
{
    reveal_strlit("rem");
    lemma_measure(n, "rem"@);
    lemma_plain_rem(n);
    lemma_finite_length(n + "rem"@, NumberModel { literal: n, scale: Scale::One }, Unit::Rem);
}

#[verifier::rlimit(50)]
proof fn lemma_reads_em(n: Seq<char>)
    requires
        is_decimal(n),
        number::finite(n, Scale::One),
    ensures
        value::component_model(n + "em"@) == Some(
            ValueModel::Length(NumberModel { literal: n, scale: Scale::One }, Unit::Em),
        ),
{
    reveal_strlit("em");
    lemma_measure(n, "em"@);
    lemma_plain_em(n);
    lemma_finite_length(n + "em"@, NumberModel { literal: n, scale: Scale::One }, Unit::Em);
}

#[verifier::rlimit(50)]
proof fn lemma_reads_pt(n: Seq<char>)
    requires
        is_decimal(n),
        number::finite(n, Scale::Pt),
    ensures
        value::component_model(n + "pt"@) == Some(
            ValueModel::Length(NumberModel { literal: n, scale: Scale::Pt }, Unit::Px),
        ),
{
    reveal_strlit("pt");
    lemma_measure(n, "pt"@);
    lemma_plain_pt(n);
    lemma_finite_length(n + "pt"@, NumberModel { literal: n, scale: Scale::Pt }, Unit::Px);
}

#[verifier::rlimit(50)]
proof fn lemma_reads_pc(n: Seq<char>)
    requires
        is_decimal(n),
        number::finite(n, Scale::Pc),
    ensures
        value::component_model(n + "pc"@) == Some(
            ValueModel::Length(NumberModel { literal: n, scale: Scale::Pc }, Unit::Px),
        ),
{
    reveal_strlit("pc");
    lemma_measure(n, "pc"@);
    lemma_plain_pc(n);
    lemma_finite_length(n + "pc"@, NumberModel { literal: n, scale: Scale::Pc }, Unit::Px);
}

#[verifier::rlimit(50)]
proof fn lemma_reads_cm(n: Seq<char>)
    requires
        is_decimal(n),
        number::finite(n, Scale::Cm),
    ensures
        value::component_model(n + "cm"@) == Some(
            ValueModel::Length(NumberModel { literal: n, scale: Scale::Cm }, Unit::Px),
        ),
{
    reveal_strlit("cm");
    lemma_measure(n, "cm"@);
    lemma_plain_cm(n);
    lemma_finite_length(n + "cm"@, NumberModel { literal: n, scale: Scale::Cm }, Unit::Px);
}

#[verifier::rlimit(50)]
proof fn lemma_reads_mm(n: Seq<char>)
    requires
        is_decimal(n),
        number::finite(n, Scale::Mm),
    ensures
        value::component_model(n + "mm"@) == Some(
            ValueModel::Length(NumberModel { literal: n, scale: Scale::Mm }, Unit::Px),
        ),
{
    reveal_strlit("mm");
    lemma_measure(n, "mm"@);
    lemma_plain_mm(n);
    lemma_finite_length(n + "mm"@, NumberModel { literal: n, scale: Scale::Mm }, Unit::Px);
}

#[verifier::rlimit(50)]
proof fn lemma_reads_in(n: Seq<char>)
    requires
        is_decimal(n),
        number::finite(n, Scale::In),
    ensures
        value::component_model(n + "in"@) == Some(
            ValueModel::Length(NumberModel { literal: n, scale: Scale::In }, Unit::Px),
        ),
{
    reveal_strlit("in");
    lemma_measure(n, "in"@);
    lemma_plain_in(n);
    lemma_finite_length(n + "in"@, NumberModel { literal: n, scale: Scale::In }, Unit::Px);
}

#[verifier::rlimit(50)]
proof fn lemma_reads_q(n: Seq<char>)
    requires
        is_decimal(n),
        number::finite(n, Scale::Q),
    ensures
        value::component_model(n + "q"@) == Some(
            ValueModel::Length(NumberModel { literal: n, scale: Scale::Q }, Unit::Px),
        ),
{
    reveal_strlit("q");
    lemma_measure(n, "q"@);
    lemma_plain_q(n);
    lemma_finite_length(n + "q"@, NumberModel { literal: n, scale: Scale::Q }, Unit::Px);
}

#[verifier::rlimit(50)]
proof fn lemma_reads_ch(n: Seq<char>)
    requires
        is_decimal(n),
        number::finite(n, Scale::Half),
    ensures
        value::component_model(n + "ch"@) == Some(
            ValueModel::Length(NumberModel { literal: n, scale: Scale::Half }, Unit::Em),
        ),
{
    reveal_strlit("ch");
    lemma_measure(n, "ch"@);
    lemma_plain_ch(n);
    lemma_finite_length(n + "ch"@, NumberModel { literal: n, scale: Scale::Half }, Unit::Em);
}

#[verifier::rlimit(50)]
proof fn lemma_reads_ex(n: Seq<char>)
    requires
        is_decimal(n),
        number::finite(n, Scale::Half),
    ensures
        value::component_model(n + "ex"@) == Some(
            ValueModel::Length(NumberModel { literal: n, scale: Scale::Half }, Unit::Em),
        ),
{
    reveal_strlit("ex");
    lemma_measure(n, "ex"@);
    lemma_plain_ex(n);
    lemma_finite_length(n + "ex"@, NumberModel { literal: n, scale: Scale::Half }, Unit::Em);
}

#[verifier::rlimit(50)]
proof fn lemma_reads_vmin(n: Seq<char>)
    requires
        is_decimal(n),
        number::finite(n, Scale::One),
    ensures
        value::component_model(n + "vmin"@) == Some(
            ValueModel::Length(NumberModel { literal: n, scale: Scale::One }, Unit::Vmin),
        ),
{
    reveal_strlit("vmin");
    lemma_measure(n, "vmin"@);
    lemma_plain_vmin(n);
    lemma_finite_length(n + "vmin"@, NumberModel { literal: n, scale: Scale::One }, Unit::Vmin);
}

#[verifier::rlimit(50)]
proof fn lemma_reads_vmax(n: Seq<char>)
    requires
        is_decimal(n),
        number::finite(n, Scale::One),
    ensures
        value::component_model(n + "vmax"@) == Some(
            ValueModel::Length(NumberModel { literal: n, scale: Scale::One }, Unit::Vmax),
        ),
{
    reveal_strlit("vmax");
    lemma_measure(n, "vmax"@);
    lemma_plain_vmax(n);
    lemma_finite_length(n + "vmax"@, NumberModel { literal: n, scale: Scale::One }, Unit::Vmax);
}

#[verifier::rlimit(50)]
proof fn lemma_reads_vw(n: Seq<char>)
    requires
        is_decimal(n),
        number::finite(n, Scale::One),
    ensures
        value::component_model(n + "vw"@) == Some(
            ValueModel::Length(NumberModel { literal: n, scale: Scale::One }, Unit::Vw),
        ),
{
    reveal_strlit("vw");
    lemma_measure(n, "vw"@);
    lemma_plain_vw(n);
    lemma_finite_length(n + "vw"@, NumberModel { literal: n, scale: Scale::One }, Unit::Vw);
}

#[verifier::rlimit(50)]
proof fn lemma_reads_vh(n: Seq<char>)
    requires
        is_decimal(n),
        number::finite(n, Scale::One),
    ensures
        value::component_model(n + "vh"@) == Some(
            ValueModel::Length(NumberModel { literal: n, scale: Scale::One }, Unit::Vh),
        ),
{
    reveal_strlit("vh");
    lemma_measure(n, "vh"@);
    lemma_plain_vh(n);
    lemma_finite_length(n + "vh"@, NumberModel { literal: n, scale: Scale::One }, Unit::Vh);
}

#[verifier::rlimit(50)]
proof fn lemma_reads_percent(n: Seq<char>)
    requires
        is_decimal(n),
        number::finite(n, Scale::One),
    ensures
        value::component_model(n + "%"@) == Some(
            ValueModel::Length(NumberModel { literal: n, scale: Scale::One }, Unit::Percent),
        ),
{
    reveal_strlit("%");
    lemma_measure(n, "%"@);
    lemma_plain_percent(n);
    lemma_finite_length(n + "%"@, NumberModel { literal: n, scale: Scale::One }, Unit::Percent);
}

/// A number with a unit behind it is the length of that number in that unit.
/// Pixels, font and viewport units and percents are units of their own; the
/// absolute units are pixels at their scale, and `ch` and `ex` are half an em.
pub proof fn law_lengths_read_their_unit(n: Seq<char>)
    requires
        is_decimal(n),
    ensures
        number::finite(n, Scale::One) ==> value::component_model(n + "px"@) == Some(
            ValueModel::Length(NumberModel { literal: n, scale: Scale::One }, Unit::Px),
        ),
        number::finite(n, Scale::One) ==> value::component_model(n + "rem"@) == Some(
            ValueModel::Length(NumberModel { literal: n, scale: Scale::One }, Unit::Rem),
        ),
        number::finite(n, Scale::One) ==> value::component_model(n + "em"@) == Some(
            ValueModel::Length(NumberModel { literal: n, scale: Scale::One }, Unit::Em),
        ),
        number::finite(n, Scale::Pt) ==> value::component_model(n + "pt"@) == Some(
            ValueModel::Length(NumberModel { literal: n, scale: Scale::Pt }, Unit::Px),
        ),
        number::finite(n, Scale::Pc) ==> value::component_model(n + "pc"@) == Some(
            ValueModel::Length(NumberModel { literal: n, scale: Scale::Pc }, Unit::Px),
        ),
        number::finite(n, Scale::Cm) ==> value::component_model(n + "cm"@) == Some(
            ValueModel::Length(NumberModel { literal: n, scale: Scale::Cm }, Unit::Px),
        ),
        number::finite(n, Scale::Mm) ==> value::component_model(n + "mm"@) == Some(
            ValueModel::Length(NumberModel { literal: n, scale: Scale::Mm }, Unit::Px),
        ),
        number::finite(n, Scale::In) ==> value::component_model(n + "in"@) == Some(
            ValueModel::Length(NumberModel { literal: n, scale: Scale::In }, Unit::Px),
        ),
        number::finite(n, Scale::Q) ==> value::component_model(n + "q"@) == Some(
            ValueModel::Length(NumberModel { literal: n, scale: Scale::Q }, Unit::Px),
        ),
        number::finite(n, Scale::Half) ==> value::component_model(n + "ch"@) == Some(
            ValueModel::Length(NumberModel { literal: n, scale: Scale::Half }, Unit::Em),
        ),
        number::finite(n, Scale::Half) ==> value::component_model(n + "ex"@) == Some(
            ValueModel::Length(NumberModel { literal: n, scale: Scale::Half }, Unit::Em),
        ),
        number::finite(n, Scale::One) ==> value::component_model(n + "vmin"@) == Some(
            ValueModel::Length(NumberModel { literal: n, scale: Scale::One }, Unit::Vmin),
        ),
        number::finite(n, Scale::One) ==> value::component_model(n + "vmax"@) == Some(
            ValueModel::Length(NumberModel { literal: n, scale: Scale::One }, Unit::Vmax),
        ),
        number::finite(n, Scale::One) ==> value::component_model(n + "vw"@) == Some(
            ValueModel::Length(NumberModel { literal: n, scale: Scale::One }, Unit::Vw),
        ),
        number::finite(n, Scale::One) ==> value::component_model(n + "vh"@) == Some(
            ValueModel::Length(NumberModel { literal: n, scale: Scale::One }, Unit::Vh),
        ),
        number::finite(n, Scale::One) ==> value::component_model(n + "%"@) == Some(
            ValueModel::Length(NumberModel { literal: n, scale: Scale::One }, Unit::Percent),
        ),
{
    if number::finite(n, Scale::One) {
        lemma_reads_px(n);
    }
    if number::finite(n, Scale::One) {
        lemma_reads_rem(n);
    }
    if number::finite(n, Scale::One) {
        lemma_reads_em(n);
    }
    if number::finite(n, Scale::Pt) {
        lemma_reads_pt(n);
    }
    if number::finite(n, Scale::Pc) {
        lemma_reads_pc(n);
    }
    if number::finite(n, Scale::Cm) {
        lemma_reads_cm(n);
    }
    if number::finite(n, Scale::Mm) {
        lemma_reads_mm(n);
    }
    if number::finite(n, Scale::In) {
        lemma_reads_in(n);
    }
    if number::finite(n, Scale::Q) {
        lemma_reads_q(n);
    }
    if number::finite(n, Scale::Half) {
        lemma_reads_ch(n);
    }
    if number::finite(n, Scale::Half) {
        lemma_reads_ex(n);
    }
    if number::finite(n, Scale::One) {
        lemma_reads_vmin(n);
    }
    if number::finite(n, Scale::One) {
        lemma_reads_vmax(n);
    }
    if number::finite(n, Scale::One) {
        lemma_reads_vw(n);
    }
    if number::finite(n, Scale::One) {
        lemma_reads_vh(n);
    }
    if number::finite(n, Scale::One) {
        lemma_reads_percent(n);
    }
}

} // verus!
