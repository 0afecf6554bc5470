//! What single components read as, and how a value is cut into them.
use crate::css::lengths;
use crate::css::number::{self, NumberModel, Scale};
use crate::css::value::{self, Unit, ValueModel};
use crate::text;
use vstd::prelude::*;

verus! {

/// `auto`, in any case, stands for itself; a blank component for nothing.
pub proof fn law_auto_stands_for_itself(s: Seq<char>)
    requires
        text::lowered(s) == "auto"@,
    ensures
        value::component_model(s) == Some(ValueModel::Auto),
        value::component_model(Seq::empty()) is None,
{
    reveal_strlit("auto");
    assert(text::lowered("auto"@) =~= "auto"@);
    assert("auto"@.len() == 4 && "auto"@[0] == 'a' && "auto"@[3] == 'o');
    assert(text::lowered(s)[0] == text::lower(s[0]));
    assert(text::lowered(s)[3] == text::lower(s[3]));
    lengths::lemma_untrimmed(s);
}

/// A decimal number without a unit is a number as it is written, but for zero,
/// which is a length of no pixels.
#[verifier::rlimit(40)]
pub proof fn law_bare_numbers(n: Seq<char>)
    requires
        lengths::is_decimal(n),
        number::finite(n, Scale::One),
    ensures
        !number::zero(n, Scale::One) ==> value::component_model(n) == Some(
            ValueModel::Number(NumberModel { literal: n, scale: Scale::One }),
        ),
        number::zero(n, Scale::One) ==> value::component_model(n) == Some(
            ValueModel::Length(NumberModel { literal: seq!['0'], scale: Scale::One }, Unit::Px),
        ),
{
    number::law_large_numbers_do_not_fit(seq!['0'], Scale::One);
    lengths::lemma_measure(n, Seq::empty());
    assert(n + Seq::<char>::empty() =~= n);
    reveal_strlit("px");
    reveal_strlit("rem");
    reveal_strlit("em");
    reveal_strlit("pt");
    reveal_strlit("pc");
    reveal_strlit("cm");
    reveal_strlit("mm");
    reveal_strlit("in");
    reveal_strlit("q");
    reveal_strlit("ch");
    reveal_strlit("ex");
    reveal_strlit("vmin");
    reveal_strlit("vmax");
    reveal_strlit("vw");
    reveal_strlit("vh");
    reveal_strlit("%");
    reveal_strlit("0");
    assert("0"@ =~= seq!['0']);
    lengths::lemma_no_suffix(n, "px"@, 1);
    lengths::lemma_no_suffix(n, "rem"@, 1);
    lengths::lemma_no_suffix(n, "em"@, 1);
    lengths::lemma_no_suffix(n, "pt"@, 1);
    lengths::lemma_no_suffix(n, "pc"@, 1);
    lengths::lemma_no_suffix(n, "cm"@, 1);
    lengths::lemma_no_suffix(n, "mm"@, 1);
    lengths::lemma_no_suffix(n, "in"@, 1);
    lengths::lemma_no_suffix(n, "q"@, 1);
    lengths::lemma_no_suffix(n, "ch"@, 1);
    lengths::lemma_no_suffix(n, "ex"@, 1);
    lengths::lemma_no_suffix(n, "vmin"@, 1);
    lengths::lemma_no_suffix(n, "vmax"@, 1);
    lengths::lemma_no_suffix(n, "vw"@, 1);
    lengths::lemma_no_suffix(n, "vh"@, 1);
    lengths::lemma_no_suffix(n, "%"@, 1);
    assert(value::plain_model(n) == value::word_model(n));
}

/// What stands between two quotes of one kind is a string as it is written.
pub proof fn law_strings_are_quoted(s: Seq<char>, quote: char)
    requires
        quote == '"' || quote == '\'',
    ensures
        value::component_model(seq![quote] + s + seq![quote]) == Some(ValueModel::String(s)),
{
    let q = seq![quote];
    let all = q + s + q;
    assert(all[0] == quote && all.last() == quote);
    lengths::lemma_untrimmed(all);
    reveal_strlit("auto");
    reveal_strlit("url(");
    reveal_strlit("\"");
    reveal_strlit("'");
    reveal_strlit(")");
    assert("\""@ =~= seq!['"']);
    assert("'"@ =~= seq!['\'']);
    assert("auto"@[0] == 'a');
    assert("url("@[0] == 'u');
    assert(text::lowered(all)[0] == quote);
    assert(text::lowered("auto"@)[0] == 'a');
    assert(!text::eq_ci(all, "auto"@));
    assert(text::lowered("url("@)[0] == 'u');
    if value::is_url(all) {
        assert(text::lowered(all.take(4))[0] == text::lower(all[0]));
    }
    lengths::lemma_no_suffix(all, ")"@, 1);
    assert(value::function_parts(all) is None);
    assert(all =~= q + (s + q));
    text::law_prefixes(s + q, q);
    text::law_suffixes(s, q);
    assert(value::quoted(all, q) == Some(s));
    if quote == '\'' {
        lengths::lemma_no_prefix(all, "\""@);
    }
}

/// `url(` in any case and a closing parenthesis hold an address: as it is
/// written, or between quotes, with white space around it left out.
pub proof fn law_addresses_stand_in_url(head: Seq<char>, target: Seq<char>, quote: char)
    requires
        text::lowered(head) == "url("@,
        target.len() > 0,
        !text::is_space(target[0]) && target[0] != '"' && target[0] != '\'',
        !text::is_space(target.last()),
        quote == '"' || quote == '\'',
    ensures
        value::component_model(head + target + seq![')']) == Some(ValueModel::Url(target)),
        value::component_model(head + (seq![quote] + target + seq![quote]) + seq![')']) == Some(
            ValueModel::Url(target),
        ),
{
    reveal_strlit("url(");
    reveal_strlit(")");
    reveal_strlit("auto");
    reveal_strlit("\"");
    reveal_strlit("'");
    assert(")"@ =~= seq![')']);
    assert("\""@ =~= seq!['"']);
    assert("'"@ =~= seq!['\'']);
    assert("url("@.len() == 4 && "url("@[0] == 'u' && "auto"@[0] == 'a');
    assert(text::lowered("url("@) =~= "url("@);
    assert(text::lowered("auto"@)[0] == 'a');
    assert(head.len() == 4);
    assert(text::lowered(head)[0] == text::lower(head[0]));
    let q = seq![quote];
    let inner = q + target + q;
    lemma_url_reads(head, target);
    lemma_url_reads(head, inner);
    lengths::lemma_untrimmed(target);
    lengths::lemma_untrimmed(inner);
    lengths::lemma_no_prefix(target, "\""@);
    lengths::lemma_no_prefix(target, "'"@);
    assert(value::any_quoted(target) is None);
    assert(inner =~= q + (target + q));
    text::law_prefixes(target + q, q);
    text::law_suffixes(target, q);
    if quote == '\'' {
        assert(inner[0] == '\'');
        lengths::lemma_no_prefix(inner, "\""@);
    }
    assert(value::any_quoted(inner) == Some(target));
}

proof fn lemma_url_reads(head: Seq<char>, inner: Seq<char>)
    requires
        text::lowered(head) == "url("@,
    ensures
        value::component_model(head + inner + seq![')']) == Some(
            ValueModel::Url(
                match value::any_quoted(text::trimmed(inner)) {
                    Some(target) => target,
                    None => text::trimmed(inner),
                },
            ),
        ),
{
    reveal_strlit("url(");
    reveal_strlit(")");
    reveal_strlit("auto");
    assert(")"@ =~= seq![')']);
    assert("url("@.len() == 4 && "url("@[0] == 'u' && "auto"@[0] == 'a');
    assert(text::lowered("url("@) =~= "url("@);
    assert(text::lowered("auto"@)[0] == 'a');
    assert(text::lowered(head)[0] == text::lower(head[0]));
    let all = head + inner + seq![')'];
    assert(all[0] == head[0] && all.last() == ')');
    lengths::lemma_untrimmed(all);
    assert(all.take(4) =~= head);
    text::law_suffixes(head + inner, ")"@);
    assert(all.subrange(4, all.len() - 1) =~= inner);
    assert(text::lowered(all)[0] == text::lower(all[0]));
}

/// A name and arguments in parentheses are a function, its name in lower case
/// and its arguments as they are written, unless the name is `url` or that of
/// a color.
pub proof fn law_functions_keep_their_arguments(name: Seq<char>, arguments: Seq<char>)
    requires
        name.len() > 0,
        name.len() != 3,
        forall|i: int|
            0 <= i < name.len() ==> ('a' <= #[trigger] name[i] <= 'z') || ('A' <= name[i] <= 'Z')
                || ('0' <= name[i] <= '9') || name[i] == '-',
        !value::is_color_function(text::lowered(name)),
    ensures
        value::component_model(name + seq!['('] + arguments + seq![')']) == Some(
            ValueModel::Function(text::lowered(name), arguments),
        ),
{
    reveal_strlit("url(");
    reveal_strlit(")");
    reveal_strlit("auto");
    assert(")"@ =~= seq![')']);
    let n = name.len() as int;
    let all = name + seq!['('] + arguments + seq![')'];
    assert(all[0] == name[0] && all.last() == ')' && all[n] == '(');
    lengths::lemma_untrimmed(all);
    text::law_suffixes(name + seq!['('] + arguments, ")"@);
    assert("auto"@.len() == 4 && "auto"@[3] == 'o');
    if text::eq_ci(all, "auto"@) {
        assert(text::lowered(all).len() == 4);
        assert(text::lowered(all)[3] == ')');
        assert(text::lowered("auto"@)[3] == 'o');
    }
    assert("url("@.len() == 4 && "url("@[3] == '(');
    if value::is_url(all) {
        assert(text::lowered(all.take(4))[3] == text::lower(all[3]));
        assert(text::lowered("url("@)[3] == '(');
        if n > 3 {
            assert(all[3] == name[3]);
        } else {
            assert(text::lowered(all.take(4))[n] == text::lower(all[n]));
            assert(text::lowered("url("@)[n] == text::lower("url("@[n]));
            assert("url("@[1] == 'r' && "url("@[2] == 'l');
        }
    }
    text::lemma_find_char(all, '(', 0);
    let open = text::find_char(all, '(', 0);
    if open < n {
        assert(all[open] == name[open]);
    }
    assert(open == n);
    assert(all.take(n) =~= name);
    assert forall|i: int| 0 <= i < name.len() implies text::is_ascii_alnum(#[trigger] name[i])
        || name[i] == '-' by {}
    assert(all.subrange(n + 1, all.len() - 1) =~= arguments);
}

/// A text of a value is written as CSS writes it: words as they are, strings
/// between double quotes, addresses in `url(`, functions with their arguments.
pub proof fn law_values_are_written_out(s: Seq<char>, arguments: Seq<char>)
    ensures
        value::display_model(ValueModel::Keyword(s)) == Some(s),
        value::display_model(ValueModel::Unresolved(s)) == Some(s),
        value::display_model(ValueModel::String(s)) == Some(seq!['"'] + s + seq!['"']),
        value::display_model(ValueModel::Url(s)) == Some(
            seq!['u', 'r', 'l', '('] + s + seq![')'],
        ),
        value::display_model(ValueModel::Function(s, arguments)) == Some(
            s + seq!['('] + arguments + seq![')'],
        ),
        value::display_model(ValueModel::Auto) == Some(seq!['a', 'u', 't', 'o']),
        value::raw_model(ValueModel::String(s)) == Some(s),
        value::raw_model(ValueModel::Keyword(s)) == Some(s),
{
    reveal_strlit("\"");
    reveal_strlit("url(");
    reveal_strlit(")");
    reveal_strlit("(");
    reveal_strlit("auto");
    assert("\""@ =~= seq!['"']);
    assert("url("@ =~= seq!['u', 'r', 'l', '(']);
    assert(")"@ =~= seq![')']);
    assert("("@ =~= seq!['(']);
    assert("auto"@ =~= seq!['a', 'u', 't', 'o']);
}

/// Two words that stay together have a space between them.
pub proof fn law_words_stay_together(a: Seq<char>, b: Seq<char>)
    ensures
        value::joined_model(seq![ValueModel::Keyword(a), ValueModel::Keyword(b)])
            == ValueModel::Keyword(a + seq![' '] + b),
        value::joined_model(seq![ValueModel::Keyword(a)]) == ValueModel::Keyword(a),
{
    reveal_strlit(" ");
    assert(" "@ =~= seq![' ']);
    let two = seq![ValueModel::Keyword(a), ValueModel::Keyword(b)];
    assert(value::all_shown(two));
    assert(value::shown_texts(two) =~= seq![a].push(b));
    text::law_joining(seq![a], b, " "@);
    assert(text::joined(seq![a], " "@) == a);
    let one = seq![ValueModel::Keyword(a)];
    assert(value::all_shown(one));
    assert(value::shown_texts(one) =~= seq![a]);
}

/// A character that neither cuts a value nor protects what follows.
pub open spec fn is_plain(c: char) -> bool {
    !text::is_space(c) && c != '"' && c != '\'' && c != '(' && c != ')'
}

proof fn lemma_plain_run(s: Seq<char>, i: int, end: int, current: Seq<char>, depth: nat)
    requires
        0 <= i <= end <= s.len(),
        forall|j: int| i <= j < end ==> is_plain(#[trigger] s[j]),
    ensures
        value::components_from(s, i, current, depth, None) == value::components_from(
            s,
            end,
            current + s.subrange(i, end),
            depth,
            None,
        ),
    decreases end - i,
{
    if i < end {
        assert(is_plain(s[i]));
        lemma_plain_run(s, i + 1, end, current.push(s[i]), depth);
        assert(current.push(s[i]) + s.subrange(i + 1, end) =~= current + s.subrange(i, end));
    } else {
        assert(current + s.subrange(i, end) =~= current);
    }
}

proof fn lemma_components_shift(
    s: Seq<char>,
    t: Seq<char>,
    d: int,
    i: int,
    current: Seq<char>,
    depth: nat,
    quote: Option<char>,
)
    requires
        0 <= d,
        0 <= i <= t.len(),
        s.len() == d + t.len(),
        s.skip(d) == t,
    ensures
        value::components_from(s, d + i, current, depth, quote) == value::components_from(
            t,
            i,
            current,
            depth,
            quote,
        ),
    decreases t.len() - i,
{
    if i < t.len() {
        assert(t[i] == s.skip(d)[i]);
        let c = t[i];
        match quote {
            Some(open) => {
                let next: Option<char> = if c == open {
                    None
                } else {
                    quote
                };
                lemma_components_shift(s, t, d, i + 1, current.push(c), depth, next);
            },
            None => {
                if c == '"' || c == '\'' {
                    lemma_components_shift(s, t, d, i + 1, current.push(c), depth, Some(c));
                } else if c == '(' || c == ')' {
                    lemma_components_shift(
                        s,
                        t,
                        d,
                        i + 1,
                        current.push(c),
                        text::depth_after(depth, c),
                        None,
                    );
                } else if text::is_space(c) && depth == 0 {
                    lemma_components_shift(s, t, d, i + 1, seq![], depth, None);
                } else {
                    lemma_components_shift(s, t, d, i + 1, current.push(c), depth, None);
                }
            },
        }
    }
}

/// A value is cut at white space: a word before it is one component, followed
/// by those of the rest, and leading white space adds none.
pub proof fn law_values_are_cut_at_white_space(word: Seq<char>, c: char, rest: Seq<char>)
    requires
        word.len() > 0,
        forall|j: int| 0 <= j < word.len() ==> is_plain(#[trigger] word[j]),
        text::is_space(c),
    ensures
        value::components(Seq::empty()).len() == 0,
        value::components(word) == seq![word],
        value::components(seq![c] + rest) == value::components(rest),
        value::components(word + seq![c] + rest) == seq![word] + value::components(rest),
{
    let none = Seq::<char>::empty();
    let n = word.len() as int;
    lemma_plain_run(word, 0, n, none, 0);
    assert(none + word.subrange(0, n) =~= word);
    let lead = seq![c] + rest;
    assert(lead[0] == c);
    assert(lead.skip(1) =~= rest);
    lemma_components_shift(lead, rest, 1, 0, none, 0, None);
    assert(value::flushed(none) + value::components(rest) =~= value::components(rest));
    let all = word + seq![c] + rest;
    assert forall|j: int| 0 <= j < n implies is_plain(#[trigger] all[j]) by {
        assert(all[j] == word[j]);
    }
    lemma_plain_run(all, 0, n, none, 0);
    assert(none + all.subrange(0, n) =~= word);
    assert(all[n] == c);
    assert(all.skip(n + 1) =~= rest);
    lemma_components_shift(all, rest, n + 1, 0, none, 0, None);
}

proof fn lemma_call_run(s: Seq<char>, i: int, end: int, current: Seq<char>)
    requires
        0 <= i <= end < s.len(),
        forall|j: int|
            i <= j < end ==> #[trigger] s[j] != '(' && s[j] != ')' && s[j] != '"' && s[j] != '\'',
        s[end] == ')',
    ensures
        value::components_from(s, i, current, 1, None) == value::components_from(
            s,
            end + 1,
            current + s.subrange(i, end + 1),
            0,
            None,
        ),
    decreases end - i,
{
    if i < end {
        lemma_call_run(s, i + 1, end, current.push(s[i]));
        assert(current.push(s[i]) + s.subrange(i + 1, end + 1) =~= current + s.subrange(
            i,
            end + 1,
        ));
    } else {
        assert(current.push(s[i]) =~= current + s.subrange(i, end + 1));
    }
}

/// White space inside a function's parentheses does not cut it.
pub proof fn law_functions_stay_in_one_piece(name: Seq<char>, arguments: Seq<char>)
    requires
        forall|j: int| 0 <= j < name.len() ==> is_plain(#[trigger] name[j]),
        forall|j: int|
            0 <= j < arguments.len() ==> #[trigger] arguments[j] != '(' && arguments[j] != ')'
                && arguments[j] != '"' && arguments[j] != '\'',
    ensures
        value::components(name + seq!['('] + arguments + seq![')']) == seq![
            name + seq!['('] + arguments + seq![')'],
        ],
{
    let none = Seq::<char>::empty();
    let n = name.len() as int;
    let all = name + seq!['('] + arguments + seq![')'];
    let end = all.len() - 1;
    assert forall|j: int| 0 <= j < n implies is_plain(#[trigger] all[j]) by {
        assert(all[j] == name[j]);
    }
    lemma_plain_run(all, 0, n, none, 0);
    assert(none + all.subrange(0, n) =~= name);
    assert(all[n] == '(');
    let head = name.push('(');
    assert(value::components_from(all, n, name, 0, None) == value::components_from(
        all,
        n + 1,
        head,
        1,
        None,
    ));
    assert forall|j: int| n + 1 <= j < end implies #[trigger] all[j] != '(' && all[j] != ')'
        && all[j] != '"' && all[j] != '\'' by {
        assert(all[j] == arguments[j - n - 1]);
    }
    assert(all[end] == ')');
    lemma_call_run(all, n + 1, end, head);
    assert(head + all.subrange(n + 1, end + 1) =~= all);
    assert(value::flushed(all) =~= seq![all]);
}

} // verus!
