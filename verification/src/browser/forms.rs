//! Form-control state and behavior: live values, checkables, selects (single
//! and multiple), constraint validation, and submission.
use crate::browser::document::{self, Document, DocumentModel, ElementModel, NodeId};
use crate::browser::editor;
use crate::css::number::{self, Order};
use crate::text;
use std::collections::HashMap;
use vstd::prelude::*;

verus! {

broadcast use vstd::std_specs::hash::group_hash_axioms;

// ---------------------------------------------------------------------------
// Percent encoding
// ---------------------------------------------------------------------------
/// The bytes that stand for themselves.
pub open spec fn is_unreserved(b: u8) -> bool {
    ||| 65 <= b <= 90
    ||| 97 <= b <= 122
    ||| 48 <= b <= 57
    ||| b == 45
    ||| b == 95
    ||| b == 46
    ||| b == 126
}

/// An uppercase hexadecimal digit.
pub open spec fn upper_hex(n: nat) -> char {
    if n < 10 {
        text::digit_char(n)
    } else {
        ('A' as u32 + n - 10) as char
    }
}

pub open spec fn encoded_byte(b: u8) -> Seq<char> {
    if is_unreserved(b) {
        seq![b as char]
    } else if b == 32 {
        seq!['+']
    } else {
        seq!['%', upper_hex(b as nat / 16), upper_hex(b as nat % 16)]
    }
}

/// Bytes in `application/x-www-form-urlencoded` form.
pub open spec fn encoded_bytes(bytes: Seq<u8>) -> Seq<char>
    decreases bytes.len(),
{
    if bytes.len() == 0 {
        seq![]
    } else {
        encoded_bytes(bytes.drop_last()) + encoded_byte(bytes.last())
    }
}

/// A text in `application/x-www-form-urlencoded` form.
pub open spec fn url_encoded(s: Seq<char>) -> Seq<char> {
    encoded_bytes(vstd::utf8::encode_utf8(s))
}

fn to_upper_hex(n: u8) -> (c: char)
    requires
        n < 16,
    ensures
        c == upper_hex(n as nat),
{
    if n < 10 {
        text::to_digit(n)
    } else {
        (65u8 + (n - 10)) as char
    }
}

/// Minimal application/x-www-form-urlencoded percent encoding.
pub fn url_encode(input: &str) -> (r: String)
    ensures
        r@ == url_encoded(input@),
{
    let bytes = input.as_bytes();
    let ghost all = vstd::utf8::encode_utf8(input@);
    let mut output = String::new();
    let mut i: usize = 0;
    assert(output@ =~= encoded_bytes(all.take(0)));
    while i < bytes.len()
        invariant
            i <= bytes@.len(),
            bytes@ == all,
            output@ == encoded_bytes(all.take(i as int)),
        decreases bytes@.len() - i,
    {
        let b: u8 = bytes[i];
        let ghost before = output@;
        if (65 <= b && b <= 90) || (97 <= b && b <= 122) || (48 <= b && b <= 57) || b == 45 || b
            == 95 || b == 46 || b == 126 {
            output.push(b as char);
        } else if b == 32 {
            output.push('+');
        } else {
            output.push('%');
            output.push(to_upper_hex(b / 16));
            output.push(to_upper_hex(b % 16));
        }
        i = i + 1;
        proof {
            let t = all.take(i as int);
            assert(t.drop_last() =~= all.take(i - 1));
            assert(t.last() == b);
            assert(output@ =~= before + encoded_byte(b));
        }
    }
    assert(all.take(all.len() as int) =~= all);
    output
}

/// What one uppercase hexadecimal digit stands for.
pub open spec fn upper_value(c: char) -> nat {
    if '0' <= c <= '9' {
        (c as u32 - '0' as u32) as nat
    } else {
        (c as u32 - 'A' as u32 + 10) as nat
    }
}

/// The bytes that an encoded text stands for.
pub open spec fn decoded(r: Seq<char>) -> Seq<u8>
    decreases r.len(),
{
    if r.len() == 0 {
        seq![]
    } else if r[0] == '+' {
        seq![32u8] + decoded(r.skip(1))
    } else if r[0] == '%' && r.len() >= 3 {
        seq![(upper_value(r[1]) * 16 + upper_value(r[2])) as u8] + decoded(r.skip(3))
    } else {
        seq![r[0] as u8] + decoded(r.skip(1))
    }
}

/// Encoding loses nothing: the encoded text decodes to the bytes.
pub proof fn law_encoding_is_reversible(bytes: Seq<u8>)
    ensures
        decoded(encoded_bytes(bytes)) == bytes,
    decreases bytes.len(),
{
    if bytes.len() == 0 {
        assert(decoded(encoded_bytes(bytes)) =~= bytes);
    } else {
        lemma_encoded_first(bytes);
        let b = bytes[0];
        let rest = encoded_bytes(bytes.skip(1));
        let whole = encoded_byte(b) + rest;
        law_encoding_is_reversible(bytes.skip(1));
        lemma_decode_byte(b, rest);
        assert(seq![b] + bytes.skip(1) =~= bytes);
    }
}

proof fn lemma_encoded_first(bytes: Seq<u8>)
    requires
        bytes.len() > 0,
    ensures
        encoded_bytes(bytes) == encoded_byte(bytes[0]) + encoded_bytes(bytes.skip(1)),
    decreases bytes.len(),
{
    if bytes.len() == 1 {
        assert(bytes.drop_last() =~= seq![]);
        assert(bytes.skip(1) =~= seq![]);
        assert(encoded_bytes(bytes) =~= encoded_byte(bytes[0]) + encoded_bytes(bytes.skip(1)));
    } else {
        lemma_encoded_first(bytes.drop_last());
        assert(bytes.drop_last().skip(1) =~= bytes.skip(1).drop_last());
        assert(bytes.skip(1).last() == bytes.last());
        assert(encoded_bytes(bytes) =~= encoded_byte(bytes[0]) + encoded_bytes(bytes.skip(1)));
    }
}

proof fn lemma_decode_byte(b: u8, rest: Seq<char>)
    ensures
        decoded(encoded_byte(b) + rest) == seq![b] + decoded(rest),
{
    let whole = encoded_byte(b) + rest;
    if is_unreserved(b) || b == 32 {
        assert(whole.skip(1) =~= rest);
        assert(whole[0] == encoded_byte(b)[0]);
    } else {
        assert(whole.skip(3) =~= rest);
        assert(whole[0] == '%' && whole[1] == upper_hex(b as nat / 16) && whole[2] == upper_hex(
            b as nat % 16,
        ));
        assert(upper_value(whole[1]) == b as nat / 16);
        assert(upper_value(whole[2]) == b as nat % 16);
    }
}

/// An encoded text holds nothing that would end a name, a value or a query.
pub proof fn law_encoding_is_safe(bytes: Seq<u8>)
    ensures
        forall|i: int|
            0 <= i < encoded_bytes(bytes).len() ==> {
                let c = #[trigger] encoded_bytes(bytes)[i];
                text::is_ascii_alnum(c) || c == '-' || c == '_' || c == '.' || c == '~' || c == '+'
                    || c == '%'
            },
    decreases bytes.len(),
{
    if bytes.len() > 0 {
        law_encoding_is_safe(bytes.drop_last());
        let front = encoded_bytes(bytes.drop_last());
        let back = encoded_byte(bytes.last());
        assert forall|i: int| 0 <= i < encoded_bytes(bytes).len() implies {
            let c = #[trigger] encoded_bytes(bytes)[i];
            text::is_ascii_alnum(c) || c == '-' || c == '_' || c == '.' || c == '~' || c == '+' || c
                == '%'
        } by {
            if i < front.len() {
                assert(encoded_bytes(bytes)[i] == front[i]);
            } else {
                assert(encoded_bytes(bytes)[i] == back[i - front.len()]);
            }
        }
    }
}

// ---------------------------------------------------------------------------
// State
// ---------------------------------------------------------------------------
/// A constraint that a control's value does not meet.
#[derive(Debug, PartialEq, Eq)]
pub struct FormViolation {
    pub node: NodeId,
    pub message: String,
}

/// Live form-control state over the parsed attributes.
#[derive(Debug)]
pub struct FormState {
    /// Live control values (overriding the parsed attributes).
    pub values: HashMap<NodeId, String>,
    /// Live checkbox/radio state.
    pub checked: HashMap<NodeId, bool>,
    /// The constraint violation that blocked the last submit attempt.
    pub violation: Option<FormViolation>,
}

pub struct FormModel {
    pub values: Map<NodeId, Seq<char>>,
    pub checked: Map<NodeId, bool>,
}

pub open spec fn value_models(values: Map<NodeId, String>) -> Map<NodeId, Seq<char>> {
    values.map_values(|s: String| s@)
}

/// The values and checks. The violation that the last submission met is no
/// part of it: contracts name that field beside the view.
impl View for FormState {
    type V = FormModel;

    open spec fn view(&self) -> FormModel {
        FormModel { values: value_models(self.values@), checked: self.checked@ }
    }
}

// ---------------------------------------------------------------------------
// Controls
// ---------------------------------------------------------------------------
pub open spec fn empty_if_none(v: Option<Seq<char>>) -> Seq<char> {
    match v {
        Some(v) => v,
        None => Seq::empty(),
    }
}

/// The current value of a control: the live one, else a textarea's text or
/// the `value` attribute.
pub open spec fn value_of(doc: DocumentModel, f: FormModel, node: NodeId) -> Seq<char> {
    if f.values.contains_key(node) {
        f.values[node]
    } else if document::has_tag(doc, node, "textarea"@) {
        document::text_at(doc, node)
    } else {
        empty_if_none(document::attribute_at(doc, node, "value"@))
    }
}

/// Whether a checkbox or radio is checked: the live state, else the
/// attribute.
pub open spec fn checked_at(doc: DocumentModel, f: FormModel, node: NodeId) -> bool {
    if f.checked.contains_key(node) {
        f.checked[node]
    } else {
        document::attribute_at(doc, node, "checked"@) is Some
    }
}

/// Whether an option is selected: the live state, else the attribute.
pub open spec fn selected_at(doc: DocumentModel, f: FormModel, option: NodeId) -> bool {
    if f.checked.contains_key(option) {
        f.checked[option]
    } else {
        document::attribute_at(doc, option, "selected"@) is Some
    }
}

pub open spec fn is_text_kind(kind: Seq<char>) -> bool {
    ||| kind == "text"@
    ||| kind == "search"@
    ||| kind == "email"@
    ||| kind == "url"@
    ||| kind == "password"@
    ||| kind == "tel"@
    ||| kind == "number"@
}

pub open spec fn text_input_at(doc: DocumentModel, node: NodeId) -> bool {
    document::element_at(doc, node) matches Some(e) && e.tag_name == "input"@ && is_text_kind(
        e.get_or("type"@, "text"@),
    )
}

pub open spec fn number_input_at(doc: DocumentModel, node: NodeId) -> bool {
    document::element_at(doc, node) matches Some(e) && e.tag_name == "input"@ && e.get("type"@)
        == Some("number"@)
}

fn text_kind(kind: &str) -> (r: bool)
    ensures
        r == is_text_kind(kind@),
{
    text::same_str(kind, "text") || text::same_str(kind, "search") || text::same_str(kind, "email")
        || text::same_str(kind, "url") || text::same_str(kind, "password") || text::same_str(
        kind,
        "tel",
    ) || text::same_str(kind, "number")
}

/// Whether a node is an editable text-ish input.
pub fn is_text_input(doc: &Document, node: NodeId) -> (r: bool)
    ensures
        r == text_input_at(doc@, node),
{
    match doc.element(node) {
        Some(e) => e.is_tag("input") && text_kind(e.get_or("type", "text").as_str()),
        None => false,
    }
}

/// Whether a node is an `<input type=number>` (arrow keys step it).
pub fn is_number_input(doc: &Document, node: NodeId) -> (r: bool)
    ensures
        r == number_input_at(doc@, node),
{
    match doc.element(node) {
        Some(e) => e.is_tag("input") && e.attribute_is("type", "number"),
        None => false,
    }
}

/// Whether a node is a multiline textarea.
pub fn is_textarea(doc: &Document, node: NodeId) -> (r: bool)
    ensures
        r == document::has_tag(doc@, node, "textarea"@),
{
    doc.is_tag(node, "textarea")
}

/// Whether a select allows multiple selections (rendered inline as a
/// list box instead of a dropdown).
pub fn is_multiple_select(doc: &Document, node: NodeId) -> (r: bool)
    ensures
        r == (document::has_tag(doc@, node, "select"@) && document::attribute_at(
            doc@,
            node,
            "multiple"@,
        ) is Some),
{
    match doc.element(node) {
        Some(e) => e.is_tag("select") && e.contains("multiple"),
        None => false,
    }
}

/// What a text control displays for a value: an emptied field shows its
/// placeholder again; without one, a lone space keeps the line box (and the
/// control's height) alive.
pub open spec fn control_display(doc: DocumentModel, node: NodeId, value: Seq<char>) -> Seq<char> {
    if value.len() == 0 {
        let placeholder = empty_if_none(document::attribute_at(doc, node, "placeholder"@));
        if placeholder.len() == 0 {
            " "@
        } else {
            placeholder
        }
    } else {
        editor::display_model(
            document::attribute_at(doc, node, "type"@) == Some("password"@),
            value,
        )
    }
}

/// The text that a control displays for a value.
pub fn display_for(doc: &Document, node: NodeId, value: &str) -> (r: String)
    ensures
        r@ == control_display(doc@, node, value@),
{
    if value.is_empty() {
        if let Some(placeholder) = doc.attribute(node, "placeholder") {
            if !placeholder.as_str().is_empty() {
                return placeholder.clone();
            }
        }
        return " ".to_owned();
    }
    let password = match doc.attribute(node, "type") {
        Some(kind) => text::same_str(kind.as_str(), "password"),
        None => false,
    };
    editor::control_display_text(password, value)
}

// ---------------------------------------------------------------------------
// Options
// ---------------------------------------------------------------------------
/// The `<option>`s among the first `n` nodes of a list.
pub open spec fn options_among(doc: DocumentModel, list: Seq<NodeId>, n: int) -> Seq<NodeId>
    decreases n,
{
    if n <= 0 {
        seq![]
    } else if document::has_tag(doc, list[n - 1], "option"@) {
        options_among(doc, list, n - 1).push(list[n - 1])
    } else {
        options_among(doc, list, n - 1)
    }
}

/// The options of the first `n` children of a select, flattening
/// `<optgroup>`s.
pub open spec fn options_below(doc: DocumentModel, list: Seq<NodeId>, n: int) -> Seq<NodeId>
    decreases n,
{
    if n <= 0 {
        seq![]
    } else {
        let before = options_below(doc, list, n - 1);
        let child = list[n - 1];
        if document::has_tag(doc, child, "option"@) {
            before.push(child)
        } else if document::has_tag(doc, child, "optgroup"@) {
            let kids = document::children_at(doc, child);
            before + options_among(doc, kids, kids.len() as int)
        } else {
            before
        }
    }
}

pub open spec fn options_of(doc: DocumentModel, select: NodeId) -> Seq<NodeId> {
    let kids = document::children_at(doc, select);
    options_below(doc, kids, kids.len() as int)
}

/// A select's `<option>` elements in order, flattening `<optgroup>`s.
pub fn option_nodes(doc: &Document, select: NodeId) -> (r: Vec<NodeId>)
    ensures
        r@ == options_of(doc@, select),
{
    let mut nodes: Vec<NodeId> = Vec::new();
    let kids = doc.children(select);
    let mut i: usize = 0;
    while i < kids.len()
        invariant
            i <= kids@.len(),
            nodes@ == options_below(doc@, kids@, i as int),
        decreases kids@.len() - i,
    {
        let child = kids[i];
        if doc.is_tag(child, "option") {
            nodes.push(child);
        } else if doc.is_tag(child, "optgroup") {
            let ghost before = nodes@;
            let inner = doc.children(child);
            let mut j: usize = 0;
            assert(nodes@ =~= before + options_among(doc@, inner@, 0));
            while j < inner.len()
                invariant
                    j <= inner@.len(),
                    nodes@ == before + options_among(doc@, inner@, j as int),
                decreases inner@.len() - j,
            {
                if doc.is_tag(inner[j], "option") {
                    nodes.push(inner[j]);
                }
                j = j + 1;
                assert(nodes@ =~= before + options_among(doc@, inner@, j as int));
            }
        }
        i = i + 1;
    }
    nodes
}

/// An option's label: its text without the white space around it.
pub open spec fn option_label(doc: DocumentModel, option: NodeId) -> Seq<char> {
    text::trimmed(document::text_at(doc, option))
}

/// An option's submit value: the `value` attribute, else its label.
pub open spec fn option_value_model(doc: DocumentModel, option: NodeId) -> Seq<char> {
    match document::attribute_at(doc, option, "value"@) {
        Some(v) => v,
        None => option_label(doc, option),
    }
}

fn label_of(doc: &Document, option: NodeId) -> (r: String)
    ensures
        r@ == option_label(doc@, option),
{
    let content = doc.text_content(option);
    let chars = text::chars_of(content.as_str());
    text::text_of(text::trim(chars.as_slice()))
}

/// An option's submit value: the `value` attribute, else its label text.
pub fn option_value(doc: &Document, option: NodeId) -> (r: String)
    ensures
        r@ == option_value_model(doc@, option),
{
    match doc.attribute(option, "value") {
        Some(v) => v.clone(),
        None => label_of(doc, option),
    }
}

/// The (value, label) pairs of a select's options.
pub open spec fn option_pairs(doc: DocumentModel, options: Seq<NodeId>) -> Seq<
    (Seq<char>, Seq<char>),
> {
    Seq::new(
        options.len(),
        |i: int| (option_value_model(doc, options[i]), option_label(doc, options[i])),
    )
}

/// The first option, from place `i` on, with this value.
pub open spec fn place_of_value(
    doc: DocumentModel,
    options: Seq<NodeId>,
    value: Seq<char>,
    i: int,
) -> Option<int>
    decreases options.len() - i,
{
    if i < 0 || i >= options.len() {
        None
    } else if option_value_model(doc, options[i]) == value {
        Some(i)
    } else {
        place_of_value(doc, options, value, i + 1)
    }
}

/// The first option, from place `i` on, with a `selected` attribute.
pub open spec fn place_of_selected(doc: DocumentModel, options: Seq<NodeId>, i: int) -> Option<int>
    decreases options.len() - i,
{
    if i < 0 || i >= options.len() {
        None
    } else if document::attribute_at(doc, options[i], "selected"@) is Some {
        Some(i)
    } else {
        place_of_selected(doc, options, i + 1)
    }
}

/// The place of the selected option: the live value's, else the first with
/// the attribute, else the first.
pub open spec fn selected_place(doc: DocumentModel, f: FormModel, select: NodeId) -> int {
    let options = options_of(doc, select);
    let live = if f.values.contains_key(select) {
        place_of_value(doc, options, f.values[select], 0)
    } else {
        None
    };
    match live {
        Some(i) => i,
        None => match place_of_selected(doc, options, 0) {
            Some(i) => i,
            None => 0,
        },
    }
}

// ---------------------------------------------------------------------------
// Toggling
// ---------------------------------------------------------------------------
/// The radio buttons of one group among the first `n` nodes of a list.
pub open spec fn radio_peers(
    doc: DocumentModel,
    list: Seq<NodeId>,
    group: Option<Seq<char>>,
    n: int,
) -> Seq<NodeId>
    decreases n,
{
    if n <= 0 {
        seq![]
    } else {
        let before = radio_peers(doc, list, group, n - 1);
        if is_radio_of(doc, list[n - 1], group) {
            before.push(list[n - 1])
        } else {
            before
        }
    }
}

pub open spec fn is_radio_of(doc: DocumentModel, node: NodeId, group: Option<Seq<char>>) -> bool {
    document::element_at(doc, node) matches Some(e) && e.tag_name == "input"@ && e.get("type"@)
        == Some("radio"@) && e.get("name"@) == group
}

/// The state with the first `n` nodes of a list cleared, but for `chosen`,
/// which is set.
pub open spec fn only_chosen(
    checked: Map<NodeId, bool>,
    list: Seq<NodeId>,
    chosen: NodeId,
    n: int,
) -> Map<NodeId, bool>
    decreases n,
{
    if n <= 0 {
        checked
    } else {
        only_chosen(checked, list, chosen, n - 1).insert(list[n - 1], list[n - 1] == chosen)
    }
}

/// Whether, of the first `n` radio buttons of a list, `chosen` is checked and
/// no other.
pub open spec fn only_checked(
    doc: DocumentModel,
    f: FormModel,
    list: Seq<NodeId>,
    chosen: NodeId,
    n: int,
) -> bool {
    forall|i: int|
        0 <= i < n ==> checked_at(doc, f, #[trigger] list[i]) == (list[i] == chosen)
}

/// The live state that a click on a checkable leaves; none where the node is
/// no checkable.
pub open spec fn toggled(doc: DocumentModel, f: FormModel, node: NodeId) -> Option<
    Map<NodeId, bool>,
> {
    match document::element_at(doc, node) {
        Some(e) => if e.tag_name != "input"@ {
            None
        } else if e.get_or("type"@, "text"@) == "checkbox"@ {
            Some(f.checked.insert(node, !checked_at(doc, f, node)))
        } else if e.get_or("type"@, "text"@) == "radio"@ {
            let all = document::descendants_of(doc, 0);
            let peers = radio_peers(doc, all, e.get("name"@), all.len() as int);
            Some(only_chosen(f.checked, peers, node, peers.len() as int))
        } else {
            None
        },
        None => None,
    }
}

/// The form after a click on a node.
pub open spec fn after_toggle(doc: DocumentModel, f: FormModel, node: NodeId) -> FormModel {
    match toggled(doc, f, node) {
        Some(checked) => FormModel { checked, ..f },
        None => f,
    }
}

/// Whether a click on a node changes anything: some box is checked after it
/// that was not before, or the other way round.
pub open spec fn toggle_changes(doc: DocumentModel, f: FormModel, node: NodeId) -> bool {
    exists|x: NodeId| #[trigger]
        checked_at(doc, after_toggle(doc, f, node), x) != checked_at(doc, f, x)
}

/// The live state that a click on an option of a multiple select leaves; none
/// where the select has no such option.
pub open spec fn option_clicked(
    doc: DocumentModel,
    f: FormModel,
    select: NodeId,
    option: NodeId,
    toggle: bool,
) -> Option<Map<NodeId, bool>> {
    let options = options_of(doc, select);
    if !options.contains(option) {
        None
    } else if toggle {
        Some(f.checked.insert(option, !selected_at(doc, f, option)))
    } else {
        Some(only_chosen(f.checked, options, option, options.len() as int))
    }
}

/// Choosing one box of a list changes something exactly where it was not the
/// only one checked.
proof fn lemma_choice_changes(
    doc: DocumentModel,
    f: FormModel,
    list: Seq<NodeId>,
    chosen: NodeId,
)
    ensures
        ({
            let checked = only_chosen(f.checked, list, chosen, list.len() as int);
            let after = FormModel { checked, ..f };
            only_checked(doc, f, list, chosen, list.len() as int) <==> forall|x: NodeId| #[trigger]
                checked_at(doc, after, x) == checked_at(doc, f, x)
        }),
{
    let checked = only_chosen(f.checked, list, chosen, list.len() as int);
    let after = FormModel { checked, ..f };
    lemma_only_chosen(f.checked, list, chosen, list.len() as int);
    assert(list.take(list.len() as int) =~= list);
    if only_checked(doc, f, list, chosen, list.len() as int) {
        assert forall|x: NodeId| #[trigger] checked_at(doc, after, x) == checked_at(doc, f, x) by {
            if list.contains(x) {
                let i = choose|i: int| 0 <= i < list.len() && list[i] == x;
                assert(checked_at(doc, f, list[i]) == (list[i] == chosen));
            } else {
                assert(checked.contains_key(x) == f.checked.contains_key(x));
            }
        }
    } else {
        let i = choose|i: int|
            0 <= i < list.len() && checked_at(doc, f, #[trigger] list[i]) != (list[i] == chosen);
        assert(checked_at(doc, after, list[i]) != checked_at(doc, f, list[i]));
    }
}

proof fn lemma_only_chosen(
    checked: Map<NodeId, bool>,
    list: Seq<NodeId>,
    chosen: NodeId,
    n: int,
)
    requires
        0 <= n <= list.len(),
    ensures
        forall|i: int|
            0 <= i < n ==> only_chosen(checked, list, chosen, n).contains_key(#[trigger] list[i])
                && only_chosen(checked, list, chosen, n)[list[i]] == (list[i] == chosen),
        forall|k: NodeId|
            !list.take(n).contains(k) ==> (#[trigger] only_chosen(
                checked,
                list,
                chosen,
                n,
            ).contains_key(k) == checked.contains_key(k)) && (checked.contains_key(k)
                ==> only_chosen(checked, list, chosen, n)[k] == checked[k]),
    decreases n,
{
    if n > 0 {
        lemma_only_chosen(checked, list, chosen, n - 1);
        let before = only_chosen(checked, list, chosen, n - 1);
        let after = only_chosen(checked, list, chosen, n);
        assert forall|i: int| 0 <= i < n implies after.contains_key(#[trigger] list[i])
            && after[list[i]] == (list[i] == chosen) by {
            if i < n - 1 {
                assert(before[list[i]] == (list[i] == chosen));
            }
        }
        assert forall|k: NodeId| !list.take(n).contains(k) implies (#[trigger] after.contains_key(
            k,
        ) == checked.contains_key(k)) && (checked.contains_key(k) ==> after[k] == checked[k]) by {
            assert(list.take(n)[n - 1] == list[n - 1]);
            if list.take(n - 1).contains(k) {
                let front = list.take(n - 1);
                let j = choose|j: int| 0 <= j < front.len() && front[j] == k;
                assert(list.take(n)[j] == k);
            }
            assert(before.contains_key(k) == checked.contains_key(k));
        }
    }
}

proof fn lemma_radio_peers(
    doc: DocumentModel,
    list: Seq<NodeId>,
    group: Option<Seq<char>>,
    n: int,
    peer: NodeId,
)
    requires
        0 <= n <= list.len(),
        list.take(n).contains(peer),
        is_radio_of(doc, peer, group),
    ensures
        radio_peers(doc, list, group, n).contains(peer),
    decreases n,
{
    let front = list.take(n);
    let j = choose|j: int| 0 <= j < front.len() && front[j] == peer;
    let after = radio_peers(doc, list, group, n);
    if j == n - 1 {
        assert(after[after.len() - 1] == peer);
    } else {
        assert(list.take(n - 1)[j] == peer);
        lemma_radio_peers(doc, list, group, n - 1, peer);
        let before = radio_peers(doc, list, group, n - 1);
        let k = choose|k: int| 0 <= k < before.len() && before[k] == peer;
        assert(after[k] == peer);
    }
}

/// Of a group of radio buttons, clicking one leaves that one checked and the
/// others clear.
pub proof fn law_radio_groups_are_exclusive(
    doc: DocumentModel,
    f: FormModel,
    node: NodeId,
    peer: NodeId,
)
    requires
        document::element_at(doc, node) is Some,
        is_radio_of(doc, node, document::attribute_at(doc, node, "name"@)),
        is_radio_of(doc, peer, document::attribute_at(doc, node, "name"@)),
        document::descendants_of(doc, 0).contains(peer),
    ensures
        checked_at(doc, after_toggle(doc, f, node), peer) == (peer == node),
{
    reveal_strlit("radio");
    reveal_strlit("checkbox");
    let e = document::element_at(doc, node)->0;
    assert("radio"@.len() != "checkbox"@.len());
    let all = document::descendants_of(doc, 0);
    let group = e.get("name"@);
    let peers = radio_peers(doc, all, group, all.len() as int);
    assert(all.take(all.len() as int) =~= all);
    lemma_radio_peers(doc, all, group, all.len() as int, peer);
    lemma_only_chosen(f.checked, peers, node, peers.len() as int);
    let k = choose|k: int| 0 <= k < peers.len() && peers[k] == peer;
    assert(peers[k] == peer);
}

/// Clicking a checkbox twice leaves it as it was.
pub proof fn law_checkbox_toggles_back(doc: DocumentModel, f: FormModel, node: NodeId)
    requires
        document::element_at(doc, node) matches Some(e) && e.tag_name == "input"@ && e.get_or(
            "type"@,
            "text"@,
        ) == "checkbox"@,
    ensures
        ({
            let once = after_toggle(doc, f, node);
            &&& toggle_changes(doc, f, node)
            &&& checked_at(doc, once, node) != checked_at(doc, f, node)
            &&& checked_at(doc, after_toggle(doc, once, node), node) == checked_at(doc, f, node)
        }),
{
    let once = after_toggle(doc, f, node);
    assert(checked_at(doc, once, node) != checked_at(doc, f, node));
}

// ---------------------------------------------------------------------------
// Submission
// ---------------------------------------------------------------------------
/// The name and value pairs that one control submits.
pub open spec fn control_pairs(doc: DocumentModel, f: FormModel, node: NodeId) -> Seq<
    (Seq<char>, Seq<char>),
> {
    match document::element_at(doc, node) {
        Some(e) => match e.get("name"@) {
            Some(name) => if e.tag_name == "select"@ {
                let options = options_of(doc, node);
                if e.get("multiple"@) is Some {
                    selected_pairs(doc, f, name, options, options.len() as int)
                } else {
                    let i = selected_place(doc, f, node);
                    if 0 <= i < options.len() {
                        seq![(name, option_value_model(doc, options[i]))]
                    } else {
                        seq![]
                    }
                }
            } else if e.tag_name == "textarea"@ {
                seq![(name, value_of(doc, f, node))]
            } else if e.tag_name == "input"@ {
                let kind = e.get_or("type"@, "text"@);
                if kind == "checkbox"@ || kind == "radio"@ {
                    if checked_at(doc, f, node) {
                        seq![(name, e.get_or("value"@, "on"@))]
                    } else {
                        seq![]
                    }
                } else if kind == "hidden"@ {
                    seq![(name, e.get_or("value"@, ""@))]
                } else if kind == "submit"@ || kind == "button"@ || kind == "reset"@ {
                    seq![]
                } else {
                    seq![(name, value_of(doc, f, node))]
                }
            } else {
                seq![]
            },
            None => seq![],
        },
        None => seq![],
    }
}

/// A pair for every selected option among the first `n`.
pub open spec fn selected_pairs(
    doc: DocumentModel,
    f: FormModel,
    name: Seq<char>,
    options: Seq<NodeId>,
    n: int,
) -> Seq<(Seq<char>, Seq<char>)>
    decreases n,
{
    if n <= 0 {
        seq![]
    } else {
        let before = selected_pairs(doc, f, name, options, n - 1);
        if selected_at(doc, f, options[n - 1]) {
            before.push((name, option_value_model(doc, options[n - 1])))
        } else {
            before
        }
    }
}

/// The pairs that the first `n` nodes of a list submit.
pub open spec fn submitted_pairs(doc: DocumentModel, f: FormModel, list: Seq<NodeId>, n: int) -> Seq<
    (Seq<char>, Seq<char>),
>
    decreases n,
{
    if n <= 0 {
        seq![]
    } else {
        submitted_pairs(doc, f, list, n - 1) + control_pairs(doc, f, list[n - 1])
    }
}

/// Pairs as `name=value`, percent-encoded.
pub open spec fn encoded_pairs(pairs: Seq<(Seq<char>, Seq<char>)>) -> Seq<Seq<char>> {
    Seq::new(
        pairs.len(),
        |i: int| url_encoded(pairs[i].0) + "="@ + url_encoded(pairs[i].1),
    )
}

pub open spec fn fill_message() -> Seq<char> {
    "Please fill out this field."@
}

pub open spec fn above_message(max: Seq<char>) -> Seq<char> {
    "Value must be less than or equal to "@ + max + "."@
}

pub open spec fn below_message(min: Seq<char>) -> Seq<char> {
    "Value must be greater than or equal to "@ + min + "."@
}

/// The bound that a number does not keep, as a message.
pub open spec fn range_message(e: ElementModel, value: Seq<char>) -> Option<Seq<char>> {
    let max = e.get_or("max"@, ""@);
    let min = e.get_or("min"@, ""@);
    if number::literal_order(value, max) == Some(Order::Greater) {
        Some(above_message(max))
    } else if number::literal_order(value, min) == Some(Order::Less) {
        Some(below_message(min))
    } else {
        None
    }
}

/// What is wrong with a control's value: a required text is missing, or a
/// number is out of its range.
pub open spec fn control_violation(doc: DocumentModel, f: FormModel, node: NodeId) -> Option<
    Seq<char>,
> {
    match document::element_at(doc, node) {
        Some(e) => if e.get("required"@) is Some && (e.tag_name == "textarea"@ || text_input_at(
            doc,
            node,
        )) && value_of(doc, f, node).len() == 0 {
            Some(fill_message())
        } else if number_input_at(doc, node) {
            range_message(e, text::trimmed(value_of(doc, f, node)))
        } else {
            None
        },
        None => None,
    }
}

/// The first violation, from place `i` of a list on.
pub open spec fn first_violation(doc: DocumentModel, f: FormModel, list: Seq<NodeId>, i: int) -> Option<
    (NodeId, Seq<char>),
>
    decreases list.len() - i,
{
    if i < 0 || i >= list.len() {
        None
    } else if control_violation(doc, f, list[i]) is Some {
        Some((list[i], control_violation(doc, f, list[i])->0))
    } else {
        first_violation(doc, f, list, i + 1)
    }
}

/// The form around a node.
pub open spec fn form_around(doc: DocumentModel, node: NodeId) -> Option<NodeId> {
    document::find_tag(doc, document::chain_of(doc, node), "form"@, 0)
}

/// What a submit attempt comes to.
#[derive(Debug, PartialEq, Eq)]
pub enum Submission {
    /// No form encloses the node.
    NoForm,
    /// A control's value does not meet its constraint.
    Blocked,
    /// The pairs become the action URL's query; without pairs it has none.
    Get { action: String, query: Option<String> },
    /// The pairs travel as an urlencoded body, not in the URL.
    Post { action: String, content_type: String, body: String },
}

pub enum SubmissionModel {
    NoForm,
    Blocked,
    Get { action: Seq<char>, query: Option<Seq<char>> },
    Post { action: Seq<char>, content_type: Seq<char>, body: Seq<char> },
}

impl View for Submission {
    type V = SubmissionModel;

    open spec fn view(&self) -> SubmissionModel {
        match self {
            Submission::NoForm => SubmissionModel::NoForm,
            Submission::Blocked => SubmissionModel::Blocked,
            Submission::Get { action, query } => SubmissionModel::Get {
                action: action@,
                query: text::opt_text(*query),
            },
            Submission::Post { action, content_type, body } => SubmissionModel::Post {
                action: action@,
                content_type: content_type@,
                body: body@,
            },
        }
    }
}

/// The violation that blocks a submit from `node`, if any.
pub open spec fn blocking(doc: DocumentModel, f: FormModel, node: NodeId) -> Option<
    (NodeId, Seq<char>),
> {
    match form_around(doc, node) {
        Some(form) => first_violation(doc, f, document::descendants_of(doc, form), 0),
        None => None,
    }
}

/// Whether a form's method is POST, in any case; it is GET where none is
/// given.
pub open spec fn posts(doc: DocumentModel, form: NodeId) -> bool {
    document::attribute_at(doc, form, "method"@) matches Some(method) && text::lowered(method)
        == "post"@
}

/// What a submit attempt from `node` comes to.
pub open spec fn submission_model(doc: DocumentModel, f: FormModel, node: NodeId) -> SubmissionModel {
    match form_around(doc, node) {
        Some(form) => if blocking(doc, f, node) is Some {
            SubmissionModel::Blocked
        } else {
            let list = document::descendants_of(doc, form);
            let pairs = submitted_pairs(doc, f, list, list.len() as int);
            let encoded = text::joined(encoded_pairs(pairs), "&"@);
            let action = empty_if_none(document::attribute_at(doc, form, "action"@));
            if posts(doc, form) {
                SubmissionModel::Post {
                    action,
                    content_type: "application/x-www-form-urlencoded"@,
                    body: encoded,
                }
            } else {
                SubmissionModel::Get {
                    action,
                    query: if encoded.len() == 0 {
                        None
                    } else {
                        Some(encoded)
                    },
                }
            }
        },
        None => SubmissionModel::NoForm,
    }
}

pub open spec fn violation_model(v: Option<FormViolation>) -> Option<(NodeId, Seq<char>)> {
    match v {
        Some(v) => Some((v.node, v.message@)),
        None => None,
    }
}

impl FormState {
    pub fn new() -> (r: FormState)
        ensures
            r@.values == Map::<NodeId, Seq<char>>::empty(),
            r@.checked == Map::<NodeId, bool>::empty(),
            r.violation is None,
    {
        let r = FormState { values: HashMap::new(), checked: HashMap::new(), violation: None };
        assert(r@.values =~= Map::<NodeId, Seq<char>>::empty());
        assert(r@.checked =~= Map::<NodeId, bool>::empty());
        r
    }

    /// Forgets everything: a new document has new node numbers.
    pub fn reset(&mut self)
        ensures
            final(self)@.values == Map::<NodeId, Seq<char>>::empty(),
            final(self)@.checked == Map::<NodeId, bool>::empty(),
            final(self).violation is None,
    {
        self.values.clear();
        self.checked.clear();
        self.violation = None;
        assert(self@.values =~= Map::<NodeId, Seq<char>>::empty());
        assert(self@.checked =~= Map::<NodeId, bool>::empty());
    }

    /// Sets a control's live value.
    pub fn set_value(&mut self, node: NodeId, value: String)
        ensures
            final(self)@ == (FormModel {
                values: old(self)@.values.insert(node, value@),
                ..old(self)@
            }),
            final(self).violation == old(self).violation,
    {
        self.values.insert(node, value);
        assert(self@.values =~= old(self)@.values.insert(node, value@));
    }

    /// The current value of a form control (live edits over the parsed
    /// attribute/placeholder).
    pub fn form_value(&self, doc: &Document, node: NodeId) -> (r: String)
        ensures
            r@ == value_of(doc@, self@, node),
    {
        if let Some(value) = self.values.get(&node) {
            return value.clone();
        }
        if is_textarea(doc, node) {
            return doc.text_content(node);
        }
        match doc.attribute(node, "value") {
            Some(value) => value.clone(),
            None => {
                let r = String::new();
                assert(r@ =~= Seq::<char>::empty());
                r
            },
        }
    }

    /// Whether a checkbox/radio is currently checked.
    pub fn is_checked(&self, doc: &Document, node: NodeId) -> (r: bool)
        ensures
            r == checked_at(doc@, self@, node),
    {
        match self.checked.get(&node) {
            Some(live) => *live,
            None => doc.attribute(node, "checked").is_some(),
        }
    }

    /// Whether an option is currently selected (live toggles win over the
    /// parsed `selected` attribute).
    pub fn option_selected(&self, doc: &Document, option: NodeId) -> (r: bool)
        ensures
            r == selected_at(doc@, self@, option),
    {
        match self.checked.get(&option) {
            Some(live) => *live,
            None => doc.attribute(option, "selected").is_some(),
        }
    }

    /// A select's options as (value, label) pairs (optgroups flattened),
    /// plus the index of the currently selected one.
    pub fn select_options(&self, doc: &Document, node: NodeId) -> (r: (
        Vec<(String, String)>,
        usize,
    ))
        ensures
            document::pair_models(r.0@) == option_pairs(doc@, options_of(doc@, node)),
            r.1 == selected_place(doc@, self@, node),
    {
        let nodes = option_nodes(doc, node);
        let ghost options = options_of(doc@, node);
        let mut pairs: Vec<(String, String)> = Vec::new();
        let mut i: usize = 0;
        while i < nodes.len()
            invariant
                i <= nodes@.len(),
                nodes@ == options,
                pairs@.len() == i,
                forall|j: int|
                    0 <= j < i ==> (#[trigger] pairs@[j]).0@ == option_value_model(doc@, options[j])
                        && pairs@[j].1@ == option_label(doc@, options[j]),
            decreases nodes@.len() - i,
        {
            let label = label_of(doc, nodes[i]);
            let value = option_value(doc, nodes[i]);
            pairs.push((value, label));
            i = i + 1;
        }
        assert(document::pair_models(pairs@) =~= option_pairs(doc@, options));
        if let Some(live) = self.values.get(&node) {
            let mut k: usize = 0;
            while k < nodes.len()
                invariant
                    k <= nodes@.len(),
                    nodes@ == options,
                    pairs@.len() == nodes@.len(),
                    forall|j: int|
                        0 <= j < pairs@.len() ==> (#[trigger] pairs@[j]).0@ == option_value_model(
                            doc@,
                            options[j],
                        ),
                    place_of_value(doc@, options, live@, k as int) == place_of_value(
                        doc@,
                        options,
                        live@,
                        0,
                    ),
                    document::pair_models(pairs@) == option_pairs(doc@, options),
                    self@.values.contains_key(node),
                    self@.values[node] == live@,
                    options == options_of(doc@, node),
                decreases nodes@.len() - k,
            {
                if text::same_str(pairs[k].0.as_str(), live.as_str()) {
                    return (pairs, k);
                }
                k = k + 1;
            }
        }
        let mut k: usize = 0;
        while k < nodes.len()
            invariant
                k <= nodes@.len(),
                nodes@ == options,
                document::pair_models(pairs@) == option_pairs(doc@, options),
                options == options_of(doc@, node),
                place_of_selected(doc@, options, k as int) == place_of_selected(doc@, options, 0),
                self@.values.contains_key(node) ==> place_of_value(
                    doc@,
                    options,
                    self@.values[node],
                    0,
                ) is None,
            decreases nodes@.len() - k,
        {
            if doc.attribute(nodes[k], "selected").is_some() {
                return (pairs, k);
            }
            k = k + 1;
        }
        (pairs, 0)
    }

    /// Selects an option by index. Gives the label to display, if there is
    /// such an option.
    pub fn set_selected_option(&mut self, doc: &Document, node: NodeId, index: usize) -> (r: Option<
        String,
    >)
        ensures
            ({
                let options = options_of(doc@, node);
                if index < options.len() {
                    &&& text::opt_text(r) == Some(option_label(doc@, options[index as int]))
                    &&& final(self)@ == (FormModel {
                        values: old(self)@.values.insert(
                            node,
                            option_value_model(doc@, options[index as int]),
                        ),
                        ..old(self)@
                    })
                } else {
                    r is None && final(self)@ == old(self)@
                }
            }),
            final(self).violation == old(self).violation,
    {
        let nodes = option_nodes(doc, node);
        if index >= nodes.len() {
            return None;
        }
        let value = option_value(doc, nodes[index]);
        let label = label_of(doc, nodes[index]);
        self.set_value(node, value);
        Some(label)
    }

    fn choose_only(&mut self, list: &Vec<NodeId>, chosen: NodeId)
        ensures
            final(self)@ == (FormModel {
                checked: only_chosen(old(self)@.checked, list@, chosen, list@.len() as int),
                ..old(self)@
            }),
            final(self).violation == old(self).violation,
    {
        let ghost start = self@.checked;
        let ghost values = self.values@;
        let mut i: usize = 0;
        while i < list.len()
            invariant
                i <= list@.len(),
                self.values@ == values,
                self.violation == old(self).violation,
                self@.checked == only_chosen(start, list@, chosen, i as int),
            decreases list@.len() - i,
        {
            self.checked.insert(list[i], list[i] == chosen);
            i = i + 1;
        }
    }

    /// Clicks an option in a multiple select: a plain click selects just
    /// that option, a toggling click (Cmd/Ctrl) flips it and keeps the
    /// rest. Returns whether the select has that option.
    pub fn click_option(
        &mut self,
        doc: &Document,
        select: NodeId,
        option: NodeId,
        toggle: bool,
    ) -> (r: bool)
        ensures
            match option_clicked(doc@, old(self)@, select, option, toggle) {
                Some(checked) => r && final(self)@ == (FormModel { checked, ..old(self)@ }),
                None => !r && final(self)@ == old(self)@,
            },
            final(self).violation == old(self).violation,
    {
        let options = option_nodes(doc, select);
        let mut known = false;
        let mut i: usize = 0;
        while i < options.len()
            invariant
                i <= options@.len(),
                known == options@.take(i as int).contains(option),
            decreases options@.len() - i,
        {
            if options[i] == option {
                known = true;
            }
            i = i + 1;
            proof {
                let t = options@.take(i as int);
                assert(t.drop_last() =~= options@.take(i - 1));
                assert(t[i - 1] == options@[i - 1]);
                let front = options@.take(i - 1);
                if front.contains(option) {
                    let j = choose|j: int| 0 <= j < front.len() && front[j] == option;
                    assert(t[j] == option);
                }
                if t.contains(option) && options@[i - 1] != option {
                    let j = choose|j: int| 0 <= j < t.len() && t[j] == option;
                    assert(front[j] == option);
                }
            }
        }
        assert(options@.take(options@.len() as int) =~= options@);
        if !known {
            return false;
        }
        if toggle {
            let current = self.option_selected(doc, option);
            self.checked.insert(option, !current);
        } else {
            self.choose_only(&options, option);
        }
        true
    }

    /// Toggles a checkbox (or selects a radio, clearing its name group).
    /// Returns whether anything changed.
    pub fn toggle_checkable(&mut self, doc: &Document, node: NodeId) -> (r: bool)
        ensures
            r == toggle_changes(doc@, old(self)@, node),
            final(self)@ == after_toggle(doc@, old(self)@, node),
            final(self).violation == old(self).violation,
    {
        let e = match doc.element(node) {
            Some(e) => e,
            None => {
                return false;
            },
        };
        if !e.is_tag("input") {
            return false;
        }
        let kind = e.get_or("type", "text");
        if text::same_str(kind.as_str(), "checkbox") {
            let current = self.is_checked(doc, node);
            self.checked.insert(node, !current);
            proof {
                let after = after_toggle(doc@, old(self)@, node);
                assert(self@ == after);
                assert(checked_at(doc@, after, node) != checked_at(doc@, old(self)@, node));
            }
            return true;
        }
        if !text::same_str(kind.as_str(), "radio") {
            return false;
        }
        let group = e.get("name");
        let ghost gv = e@.get("name"@);
        let all = doc.descendants(0);
        let mut peers: Vec<NodeId> = Vec::new();
        let mut i: usize = 0;
        while i < all.len()
            invariant
                i <= all@.len(),
                gv == (match group {
                    Some(g) => Some(g@),
                    None => None,
                }),
                peers@ == radio_peers(doc@, all@, gv, i as int),
            decreases all@.len() - i,
        {
            if let Some(peer) = doc.element(all[i]) {
                let same_group = match (peer.get("name"), group) {
                    (Some(a), Some(b)) => text::same_str(a.as_str(), b.as_str()),
                    (None, None) => true,
                    _ => false,
                };
                if peer.is_tag("input") && peer.attribute_is("type", "radio") && same_group {
                    peers.push(all[i]);
                }
            }
            i = i + 1;
        }
        let mut changed = false;
        let mut k: usize = 0;
        while k < peers.len()
            invariant
                k <= peers@.len(),
                self@ == old(self)@,
                changed == !only_checked(doc@, self@, peers@, node, k as int),
            decreases peers@.len() - k,
        {
            let wanted = peers[k] == node;
            if self.is_checked(doc, peers[k]) != wanted {
                assert(checked_at(doc@, self@, peers@[k as int]) != (peers@[k as int] == node));
                changed = true;
            }
            k = k + 1;
        }
        self.choose_only(&peers, node);
        proof {
            lemma_choice_changes(doc@, old(self)@, peers@, node);
            assert(self@ == after_toggle(doc@, old(self)@, node));
        }
        changed
    }

    fn push_selected(
        &self,
        doc: &Document,
        name: &str,
        options: &Vec<NodeId>,
        pairs: &mut Vec<(String, String)>,
    )
        ensures
            document::pair_models(final(pairs)@) == document::pair_models(old(pairs)@)
                + selected_pairs(doc@, self@, name@, options@, options@.len() as int),
    {
        let ghost start = document::pair_models(pairs@);
        let mut i: usize = 0;
        assert(start + selected_pairs(doc@, self@, name@, options@, 0) =~= start);
        while i < options.len()
            invariant
                i <= options@.len(),
                document::pair_models(pairs@) == start + selected_pairs(
                    doc@,
                    self@,
                    name@,
                    options@,
                    i as int,
                ),
            decreases options@.len() - i,
        {
            if self.option_selected(doc, options[i]) {
                push_pair(pairs, name, option_value(doc, options[i]));
            }
            i = i + 1;
            assert(document::pair_models(pairs@) =~= start + selected_pairs(
                doc@,
                self@,
                name@,
                options@,
                i as int,
            ));
        }
    }

    fn push_control(&self, doc: &Document, node: NodeId, pairs: &mut Vec<(String, String)>)
        ensures
            document::pair_models(final(pairs)@) == document::pair_models(old(pairs)@)
                + control_pairs(doc@, self@, node),
    {
        let ghost start = document::pair_models(pairs@);
        assert(start + Seq::<(Seq<char>, Seq<char>)>::empty() =~= start);
        let e = match doc.element(node) {
            Some(e) => e,
            None => {
                return;
            },
        };
        let name: String = match e.get("name") {
            Some(name) => name.clone(),
            None => {
                return;
            },
        };
        let name_text = name.as_str();
        if e.is_tag("select") {
            let options = option_nodes(doc, node);
            if e.contains("multiple") {
                self.push_selected(doc, name_text, &options, pairs);
            } else {
                let (_, selected) = self.select_options(doc, node);
                if selected < options.len() {
                    push_pair(pairs, name_text, option_value(doc, options[selected]));
                }
            }
        } else if e.is_tag("textarea") {
            push_pair(pairs, name_text, self.form_value(doc, node));
        } else if e.is_tag("input") {
            let kind = e.get_or("type", "text");
            let k = kind.as_str();
            if text::same_str(k, "checkbox") || text::same_str(k, "radio") {
                if self.is_checked(doc, node) {
                    push_pair(pairs, name_text, e.get_or("value", "on"));
                }
            } else if text::same_str(k, "hidden") {
                push_pair(pairs, name_text, e.get_or("value", ""));
            } else if text::same_str(k, "submit") || text::same_str(k, "button") || text::same_str(
                k,
                "reset",
            ) {
            } else {
                push_pair(pairs, name_text, self.form_value(doc, node));
            }
        }
        assert(document::pair_models(pairs@) =~= start + control_pairs(doc@, self@, node));
    }

    /// The pairs that the controls of a list submit, in order.
    pub fn collect_pairs(&self, doc: &Document, list: &Vec<NodeId>) -> (r: Vec<(String, String)>)
        ensures
            document::pair_models(r@) == submitted_pairs(doc@, self@, list@, list@.len() as int),
    {
        let mut pairs: Vec<(String, String)> = Vec::new();
        let mut i: usize = 0;
        assert(document::pair_models(pairs@) =~= submitted_pairs(doc@, self@, list@, 0));
        while i < list.len()
            invariant
                i <= list@.len(),
                document::pair_models(pairs@) == submitted_pairs(doc@, self@, list@, i as int),
            decreases list@.len() - i,
        {
            self.push_control(doc, list[i], &mut pairs);
            i = i + 1;
        }
        pairs
    }

    fn violation_of(&self, doc: &Document, node: NodeId) -> (r: Option<String>)
        ensures
            text::opt_text(r) == control_violation(doc@, self@, node),
    {
        let e = match doc.element(node) {
            Some(e) => e,
            None => {
                return None;
            },
        };
        let value = self.form_value(doc, node);
        if e.contains("required") && (e.is_tag("textarea") || is_text_input(doc, node))
            && value.as_str().is_empty() {
            return Some("Please fill out this field.".to_owned());
        }
        if !is_number_input(doc, node) {
            return None;
        }
        let chars = text::chars_of(value.as_str());
        let literal = text::trim(chars.as_slice());
        let max = e.get_or("max", "");
        let min = e.get_or("min", "");
        let max_chars = text::chars_of(max.as_str());
        let min_chars = text::chars_of(min.as_str());
        if let Some(Order::Greater) = number::compare_literals(literal, max_chars.as_slice()) {
            let mut message = text::concat("Value must be less than or equal to ", max.as_str());
            text::push_text(&mut message, ".");
            return Some(message);
        }
        if let Some(Order::Less) = number::compare_literals(literal, min_chars.as_slice()) {
            let mut message = text::concat(
                "Value must be greater than or equal to ",
                min.as_str(),
            );
            text::push_text(&mut message, ".");
            return Some(message);
        }
        None
    }

    /// The first violation among the controls of a list.
    pub fn find_violation(&self, doc: &Document, list: &Vec<NodeId>) -> (r: Option<FormViolation>)
        ensures
            violation_model(r) == first_violation(doc@, self@, list@, 0),
    {
        let mut i: usize = 0;
        while i < list.len()
            invariant
                i <= list@.len(),
                first_violation(doc@, self@, list@, i as int) == first_violation(
                    doc@,
                    self@,
                    list@,
                    0,
                ),
            decreases list@.len() - i,
        {
            if let Some(message) = self.violation_of(doc, list[i]) {
                return Some(FormViolation { node: list[i], message });
            }
            i = i + 1;
        }
        None
    }

    /// Submits the form containing `node`: the name=value pairs of its
    /// controls become the action URL's query, or a POST body. A control
    /// whose value does not meet its constraint blocks the submission.
    pub fn submit_form(&mut self, doc: &Document, node: NodeId) -> (r: Submission)
        ensures
            r@ == submission_model(doc@, old(self)@, node),
            final(self)@ == old(self)@,
            form_around(doc@, node) is Some ==> violation_model(final(self).violation) == blocking(
                doc@,
                old(self)@,
                node,
            ),
            form_around(doc@, node) is None ==> final(self).violation == old(self).violation,
    {
        let chain = doc.chain(node);
        let form = match doc.first_with_tag(&chain, "form") {
            Some(form) => form,
            None => {
                return Submission::NoForm;
            },
        };
        let list = doc.descendants(form);
        let violation = self.find_violation(doc, &list);
        let blocked = violation.is_some();
        self.violation = violation;
        assert(self@ == old(self)@);
        if blocked {
            return Submission::Blocked;
        }
        let action: String = match doc.attribute(form, "action") {
            Some(action) => action.clone(),
            None => {
                let r = String::new();
                assert(r@ =~= Seq::<char>::empty());
                r
            },
        };
        let post = match doc.attribute(form, "method") {
            Some(method) => {
                let chars = text::chars_of(method.as_str());
                text::is_word(text::to_lowered(chars.as_slice()).as_slice(), "post")
            },
            None => false,
        };
        let pairs = self.collect_pairs(doc, &list);
        let encoded = encode_pairs(&pairs);
        if post {
            return Submission::Post {
                action,
                content_type: "application/x-www-form-urlencoded".to_owned(),
                body: encoded,
            };
        }
        let query = if encoded.as_str().is_empty() {
            None
        } else {
            Some(encoded)
        };
        Submission::Get { action, query }
    }
}

fn push_pair(pairs: &mut Vec<(String, String)>, name: &str, value: String)
    ensures
        document::pair_models(final(pairs)@) == document::pair_models(old(pairs)@).push(
            (name@, value@),
        ),
{
    pairs.push((name.to_owned(), value));
    assert(document::pair_models(pairs@) =~= document::pair_models(old(pairs)@).push(
        (name@, value@),
    ));
}

/// Pairs as `name=value`, percent-encoded and joined by `&`.
pub fn encode_pairs(pairs: &Vec<(String, String)>) -> (r: String)
    ensures
        r@ == text::joined(encoded_pairs(document::pair_models(pairs@)), "&"@),
{
    let ghost pv = document::pair_models(pairs@);
    let mut parts: Vec<String> = Vec::new();
    let mut i: usize = 0;
    while i < pairs.len()
        invariant
            i <= pairs@.len(),
            pv == document::pair_models(pairs@),
            parts@.len() == i,
            forall|j: int| 0 <= j < i ==> (#[trigger] parts@[j])@ == encoded_pairs(pv)[j],
        decreases pairs@.len() - i,
    {
        let name = url_encode(pairs[i].0.as_str());
        let value = url_encode(pairs[i].1.as_str());
        let mut part = text::concat(name.as_str(), "=");
        text::push_text(&mut part, value.as_str());
        parts.push(part);
        i = i + 1;
    }
    assert(text::texts(parts@) =~= encoded_pairs(pv));
    text::join(parts.as_slice(), "&")
}

proof fn lemma_first_violation(doc: DocumentModel, f: FormModel, list: Seq<NodeId>, i: int)
    requires
        0 <= i <= list.len(),
    ensures
        match first_violation(doc, f, list, i) {
            Some((node, message)) => exists|k: int|
                i <= k < list.len() && #[trigger] list[k] == node && control_violation(
                    doc,
                    f,
                    node,
                ) == Some(message) && forall|j: int|
                    i <= j < k ==> control_violation(doc, f, #[trigger] list[j]) is None,
            None => forall|j: int|
                i <= j < list.len() ==> control_violation(doc, f, #[trigger] list[j]) is None,
        },
    decreases list.len() - i,
{
    if i < list.len() {
        if control_violation(doc, f, list[i]) is Some {
            assert(first_violation(doc, f, list, i) == Some(
                (list[i], control_violation(doc, f, list[i])->0),
            ));
        } else {
            lemma_first_violation(doc, f, list, i + 1);
            if let Some((node, message)) = first_violation(doc, f, list, i + 1) {
                let k = choose|k: int|
                    i + 1 <= k < list.len() && #[trigger] list[k] == node && control_violation(
                        doc,
                        f,
                        node,
                    ) == Some(message) && forall|j: int|
                        i + 1 <= j < k ==> control_violation(doc, f, #[trigger] list[j]) is None;
                assert(list[k] == node);
            }
        }
    }
}

/// A form is submitted exactly where every control in it meets its
/// constraint; otherwise the first one in document order that does not is
/// what blocks it.
pub proof fn law_first_violation_blocks(doc: DocumentModel, f: FormModel, node: NodeId, form: NodeId)
    requires
        form_around(doc, node) == Some(form),
    ensures
        ({
            let list = document::descendants_of(doc, form);
            &&& (submission_model(doc, f, node) is Blocked) == (exists|k: int|
                0 <= k < list.len() && control_violation(doc, f, #[trigger] list[k]) is Some)
            &&& blocking(doc, f, node) matches Some((control, message)) ==> exists|k: int|
                0 <= k < list.len() && #[trigger] list[k] == control && control_violation(
                    doc,
                    f,
                    control,
                ) == Some(message) && forall|j: int|
                    0 <= j < k ==> control_violation(doc, f, #[trigger] list[j]) is None
        }),
{
    let list = document::descendants_of(doc, form);
    lemma_first_violation(doc, f, list, 0);
}

// ---------------------------------------------------------------------------
// What forms submit
// ---------------------------------------------------------------------------
/// A method is `post` in any letter case, and nothing else is: the pairs of
/// such a form travel as its body, those of any other form in its query.
pub proof fn law_method_is_read_in_any_case(
    doc: DocumentModel,
    f: FormModel,
    node: NodeId,
    form: NodeId,
)
    requires
        form_around(doc, node) == Some(form),
        !(submission_model(doc, f, node) is Blocked),
    ensures
        ({
            let m = document::attribute_at(doc, form, "method"@);
            let r = submission_model(doc, f, node);
            let post = m is Some && m->0.len() == 4 && (m->0[0] == 'p' || m->0[0] == 'P') && (
            m->0[1] == 'o' || m->0[1] == 'O') && (m->0[2] == 's' || m->0[2] == 'S') && (m->0[3]
                == 't' || m->0[3] == 'T');
            &&& r is Post <==> post
            &&& r is Get <==> !post
        }),
{
    reveal_strlit("post");
    if let Some(m) = document::attribute_at(doc, form, "method"@) {
        let low = text::lowered(m);
        if m.len() == 4 {
            assert(low[0] == text::lower(m[0]) && low[1] == text::lower(m[1]) && low[2]
                == text::lower(m[2]) && low[3] == text::lower(m[3]));
            if low == "post"@ {
                assert(low[0] == 'p' && low[1] == 'o' && low[2] == 's' && low[3] == 't');
            }
            if text::lower(m[0]) == 'p' && text::lower(m[1]) == 'o' && text::lower(m[2]) == 's'
                && text::lower(m[3]) == 't' {
                assert(low =~= "post"@);
            }
        } else {
            assert(low.len() != "post"@.len());
        }
    }
}

/// Two forms whose methods are the same up to letter case are sent the same
/// way.
pub proof fn law_methods_ignore_case(
    doc: DocumentModel,
    f: FormModel,
    node: NodeId,
    form: NodeId,
    other_doc: DocumentModel,
    other_form: NodeId,
)
    requires
        document::attribute_at(doc, form, "method"@) matches Some(m) && (document::attribute_at(
            other_doc,
            other_form,
            "method"@,
        ) matches Some(n) && text::eq_ci(m, n)),
        form_around(doc, node) == Some(form),
        form_around(other_doc, node) == Some(other_form),
        !(submission_model(doc, f, node) is Blocked),
        !(submission_model(other_doc, f, node) is Blocked),
    ensures
        submission_model(doc, f, node) is Post <==> submission_model(other_doc, f, node) is Post,
{
}

/// What a form sends goes to its action, or to the page itself without one: a
/// body is what the query would have been, and a query that would be empty is
/// left out.
pub proof fn law_submissions_carry_the_pairs(
    doc: DocumentModel,
    f: FormModel,
    node: NodeId,
    form: NodeId,
)
    requires
        form_around(doc, node) == Some(form),
        !(submission_model(doc, f, node) is Blocked),
    ensures
        ({
            let list = document::descendants_of(doc, form);
            let pairs = submitted_pairs(doc, f, list, list.len() as int);
            let encoded = text::joined(encoded_pairs(pairs), seq!['&']);
            let action = document::attribute_at(doc, form, "action"@);
            match submission_model(doc, f, node) {
                SubmissionModel::Get { action: to, query } => {
                    &&& action is Some ==> to == action->0
                    &&& action is None ==> to.len() == 0
                    &&& encoded.len() == 0 ==> query is None
                    &&& encoded.len() > 0 ==> query == Some(encoded)
                },
                SubmissionModel::Post { action: to, content_type, body } => {
                    &&& action is Some ==> to == action->0
                    &&& action is None ==> to.len() == 0
                    &&& content_type == "application/x-www-form-urlencoded"@
                    &&& body == encoded
                },
                _ => false,
            }
        }),
{
    reveal_strlit("&");
    assert("&"@ =~= seq!['&']);
}

/// Pairs are written in their order as `name=value`, with `&` between each
/// two.
pub proof fn law_pairs_are_written_in_order(
    pairs: Seq<(Seq<char>, Seq<char>)>,
    name: Seq<char>,
    value: Seq<char>,
)
    ensures
        text::joined(encoded_pairs(Seq::empty()), "&"@).len() == 0,
        ({
            let before = text::joined(encoded_pairs(pairs), "&"@);
            let after = text::joined(encoded_pairs(pairs.push((name, value))), "&"@);
            let pair = url_encoded(name) + seq!['='] + url_encoded(value);
            if pairs.len() == 0 {
                after == pair
            } else {
                after == before + seq!['&'] + pair
            }
        }),
{
    reveal_strlit("&");
    reveal_strlit("=");
    assert("&"@ =~= seq!['&']);
    assert("="@ =~= seq!['=']);
    let all = encoded_pairs(pairs.push((name, value)));
    assert(all =~= encoded_pairs(pairs).push(
        url_encoded(name) + seq!['='] + url_encoded(value),
    ));
    assert(all.drop_last() =~= encoded_pairs(pairs));
}

/// Letters, digits and `-_.~` stand for themselves, a space is a plus sign and
/// every other byte is a percent sign with the two digits of its code.
pub proof fn law_bytes_are_percent_encoded(bytes: Seq<u8>, b: u8)
    ensures
        encoded_bytes(Seq::empty()).len() == 0,
        ({
            let before = encoded_bytes(bytes);
            let after = encoded_bytes(bytes.push(b));
            let c = b as char;
            if ('A' <= c <= 'Z') || ('a' <= c <= 'z') || ('0' <= c <= '9') || c == '-' || c == '_'
                || c == '.' || c == '~' {
                after == before.push(c)
            } else if c == ' ' {
                after == before.push('+')
            } else {
                &&& after.len() == before.len() + 3
                &&& after.take(before.len() as int) == before
                &&& after[before.len() as int] == '%'
                &&& after[before.len() as int + 1] == "0123456789ABCDEF"@[b as int / 16]
                &&& after[before.len() as int + 2] == "0123456789ABCDEF"@[b as int % 16]
            }
        }),
{
    let all = bytes.push(b);
    let before = encoded_bytes(bytes);
    assert(all.drop_last() =~= bytes);
    let c = b as char;
    let after = encoded_bytes(all);
    if is_unreserved(b) {
        assert(after =~= before.push(c));
    } else if b == 32 {
        assert(after =~= before.push('+'));
    } else {
        assert(after.take(before.len() as int) =~= before);
        lemma_upper_digits(b as nat / 16);
        lemma_upper_digits(b as nat % 16);
    }
}

proof fn lemma_upper_digits(n: nat)
    requires
        n < 16,
    ensures
        upper_hex(n) == "0123456789ABCDEF"@[n as int],
{
    reveal_strlit("0123456789ABCDEF");
    assert(n == 0 || n == 1 || n == 2 || n == 3 || n == 4 || n == 5 || n == 6 || n == 7 || n == 8
        || n == 9 || n == 10 || n == 11 || n == 12 || n == 13 || n == 14 || n == 15);
}

/// Only named inputs, selects and textareas submit anything; buttons do not.
pub proof fn law_only_named_controls_submit(doc: DocumentModel, f: FormModel, node: NodeId)
    ensures
        document::element_at(doc, node) is None ==> control_pairs(doc, f, node).len() == 0,
        document::element_at(doc, node) matches Some(e) ==> {
            &&& e.get("name"@) is None ==> control_pairs(doc, f, node).len() == 0
            &&& e.tag_name != "input"@ && e.tag_name != "select"@ && e.tag_name != "textarea"@
                ==> control_pairs(doc, f, node).len() == 0
            &&& e.tag_name == "input"@ && (e.get("type"@) == Some("submit"@) || e.get("type"@)
                == Some("button"@) || e.get("type"@) == Some("reset"@)) ==> control_pairs(
                doc,
                f,
                node,
            ).len() == 0
            &&& forall|i: int|
                0 <= i < control_pairs(doc, f, node).len() ==> Some(
                    (#[trigger] control_pairs(doc, f, node)[i]).0,
                ) == e.get("name"@)
        },
{
    lemma_kinds_differ();
    if let Some(e) = document::element_at(doc, node) {
        if let Some(name) = e.get("name"@) {
            let options = options_of(doc, node);
            lemma_selected_pairs(doc, f, name, options, options.len() as int);
        }
    }
}

proof fn lemma_kinds_differ()
    ensures
        "input"@ != "select"@,
        "input"@ != "textarea"@,
        "select"@ != "textarea"@,
        "submit"@ != "checkbox"@ && "submit"@ != "radio"@ && "submit"@ != "hidden"@,
        "button"@ != "checkbox"@ && "button"@ != "radio"@ && "button"@ != "hidden"@,
        "reset"@ != "checkbox"@ && "reset"@ != "radio"@ && "reset"@ != "hidden"@,
        "hidden"@ != "checkbox"@ && "hidden"@ != "radio"@,
        "text"@ != "checkbox"@ && "text"@ != "radio"@ && "text"@ != "hidden"@ && "text"@
            != "submit"@ && "text"@ != "button"@ && "text"@ != "reset"@,
        "checkbox"@ != "radio"@,
{
    reveal_strlit("input");
    reveal_strlit("select");
    reveal_strlit("textarea");
    reveal_strlit("submit");
    reveal_strlit("button");
    reveal_strlit("reset");
    reveal_strlit("checkbox");
    reveal_strlit("radio");
    reveal_strlit("hidden");
    reveal_strlit("text");
    assert("select"@.len() == 6 && "textarea"@.len() == 8 && "text"@.len() == 4 && "input"@.len()
        == 5 && "checkbox"@.len() == 8 && "radio"@.len() == 5 && "hidden"@.len() == 6
        && "submit"@.len() == 6 && "button"@.len() == 6 && "reset"@.len() == 5);
    assert("submit"@[0] == 's' && "hidden"@[0] == 'h' && "button"@[0] == 'b' && "reset"@[1] == 'e'
        && "radio"@[1] == 'a');
}

proof fn lemma_selected_pairs(
    doc: DocumentModel,
    f: FormModel,
    name: Seq<char>,
    options: Seq<NodeId>,
    n: int,
)
    requires
        0 <= n <= options.len(),
    ensures
        forall|i: int|
            0 <= i < selected_pairs(doc, f, name, options, n).len() ==> (
            #[trigger] selected_pairs(doc, f, name, options, n)[i]).0 == name,
    decreases n,
{
    if n > 0 {
        lemma_selected_pairs(doc, f, name, options, n - 1);
        let before = selected_pairs(doc, f, name, options, n - 1);
        let after = selected_pairs(doc, f, name, options, n);
        assert forall|i: int| 0 <= i < after.len() implies (#[trigger] after[i]).0 == name by {
            if i < before.len() {
                assert(after[i] == before[i]);
            }
        }
    }
}

/// A box submits its `value`, or `on` without one, exactly while it is
/// checked.
pub proof fn law_checked_boxes_submit(
    doc: DocumentModel,
    f: FormModel,
    node: NodeId,
    e: ElementModel,
    name: Seq<char>,
)
    requires
        document::element_at(doc, node) == Some(e),
        e.tag_name == "input"@,
        e.get("name"@) == Some(name),
        e.get("type"@) == Some("checkbox"@) || e.get("type"@) == Some("radio"@),
    ensures
        !checked_at(doc, f, node) ==> control_pairs(doc, f, node).len() == 0,
        checked_at(doc, f, node) ==> control_pairs(doc, f, node).len() == 1,
        checked_at(doc, f, node) && e.get("value"@) is Some ==> control_pairs(doc, f, node)[0] == (
            name,
            e.get("value"@)->0,
        ),
        checked_at(doc, f, node) && e.get("value"@) is None ==> control_pairs(doc, f, node)[0] == (
            name,
            "on"@,
        ),
{
    lemma_kinds_differ();
}

/// A text control submits what was typed into it, and else what the page
/// gave it; a hidden input submits its attribute whatever else is set.
pub proof fn law_texts_submit_their_value(
    doc: DocumentModel,
    f: FormModel,
    node: NodeId,
    e: ElementModel,
    name: Seq<char>,
)
    requires
        document::element_at(doc, node) == Some(e),
        e.get("name"@) == Some(name),
    ensures
        ({
            let pairs = control_pairs(doc, f, node);
            let kind = e.get("type"@);
            let textual = e.tag_name == "input"@ && (kind is None || kind == Some("text"@));
            &&& textual || e.tag_name == "textarea"@ ==> pairs.len() == 1
            &&& (textual || e.tag_name == "textarea"@) && f.values.contains_key(node) ==> pairs[0]
                == (name, f.values[node])
            &&& textual && !f.values.contains_key(node) && e.get("value"@) is Some ==> pairs[0] == (
                name,
                e.get("value"@)->0,
            )
            &&& textual && !f.values.contains_key(node) && e.get("value"@) is None ==> pairs[0].0
                == name && pairs[0].1.len() == 0
            &&& e.tag_name == "textarea"@ && !f.values.contains_key(node) ==> pairs[0] == (
                name,
                document::text_at(doc, node),
            )
            &&& e.tag_name == "input"@ && kind == Some("hidden"@) && e.get("value"@) is Some
                ==> pairs == seq![(name, e.get("value"@)->0)]
        }),
{
    lemma_kinds_differ();
}

/// A dropdown submits the one option that is selected in it: the one whose
/// value was chosen, else the first that the page selects, else the first.
pub proof fn law_dropdowns_submit_one_option(
    doc: DocumentModel,
    f: FormModel,
    node: NodeId,
    e: ElementModel,
    name: Seq<char>,
    i: int,
)
    requires
        document::element_at(doc, node) == Some(e),
        e.tag_name == "select"@,
        e.get("name"@) == Some(name),
        e.get("multiple"@) is None,
        0 <= i < options_of(doc, node).len(),
        ({
            let options = options_of(doc, node);
            let unset = !f.values.contains_key(node) || forall|k: int|
                0 <= k < options.len() ==> option_value_model(doc, #[trigger] options[k])
                    != f.values[node];
            ||| f.values.contains_key(node) && option_value_model(doc, options[i])
                == f.values[node] && forall|k: int|
                0 <= k < i ==> option_value_model(doc, #[trigger] options[k]) != f.values[node]
            ||| unset && document::attribute_at(doc, options[i], "selected"@) is Some && forall|
                k: int,
            |
                0 <= k < i ==> document::attribute_at(
                    doc,
                    #[trigger] options[k],
                    "selected"@,
                ) is None
            ||| unset && i == 0 && forall|k: int|
                0 <= k < options.len() ==> document::attribute_at(
                    doc,
                    #[trigger] options[k],
                    "selected"@,
                ) is None
        }),
    ensures
        selected_place(doc, f, node) == i,
        control_pairs(doc, f, node) == seq![(name, option_value_model(doc, options_of(doc, node)[i]))],
{
    let options = options_of(doc, node);
    if f.values.contains_key(node) {
        lemma_place_of_value(doc, options, f.values[node], 0);
    }
    lemma_place_of_selected(doc, options, 0);
    assert(options[i] == options[i]);
    if let Some(p) = place_of_selected(doc, options, 0) {
        assert(options[p] == options[p]);
    }
}

proof fn lemma_place_of_value(doc: DocumentModel, options: Seq<NodeId>, value: Seq<char>, i: int)
    requires
        0 <= i <= options.len(),
    ensures
        match place_of_value(doc, options, value, i) {
            Some(p) => i <= p < options.len() && option_value_model(doc, options[p]) == value
                && forall|k: int|
                i <= k < p ==> option_value_model(doc, #[trigger] options[k]) != value,
            None => forall|k: int|
                i <= k < options.len() ==> option_value_model(doc, #[trigger] options[k]) != value,
        },
    decreases options.len() - i,
{
    if i < options.len() && option_value_model(doc, options[i]) != value {
        lemma_place_of_value(doc, options, value, i + 1);
    }
}

proof fn lemma_place_of_selected(doc: DocumentModel, options: Seq<NodeId>, i: int)
    requires
        0 <= i <= options.len(),
    ensures
        match place_of_selected(doc, options, i) {
            Some(p) => i <= p < options.len() && document::attribute_at(
                doc,
                options[p],
                "selected"@,
            ) is Some && forall|k: int|
                i <= k < p ==> document::attribute_at(
                    doc,
                    #[trigger] options[k],
                    "selected"@,
                ) is None,
            None => forall|k: int|
                i <= k < options.len() ==> document::attribute_at(
                    doc,
                    #[trigger] options[k],
                    "selected"@,
                ) is None,
        },
    decreases options.len() - i,
{
    if i < options.len() && document::attribute_at(doc, options[i], "selected"@) is None {
        lemma_place_of_selected(doc, options, i + 1);
    }
}

/// A list box submits one pair for each option that is selected in it, in
/// their order.
pub proof fn law_list_boxes_submit_each_selected(
    doc: DocumentModel,
    f: FormModel,
    name: Seq<char>,
    options: Seq<NodeId>,
    n: int,
)
    requires
        0 <= n < options.len(),
    ensures
        selected_pairs(doc, f, name, options, 0).len() == 0,
        ({
            let before = selected_pairs(doc, f, name, options, n);
            let after = selected_pairs(doc, f, name, options, n + 1);
            let live = f.checked.contains_key(options[n]);
            let given = document::attribute_at(doc, options[n], "selected"@) is Some;
            if (live && f.checked[options[n]]) || (!live && given) {
                after == before.push((name, option_value_model(doc, options[n])))
            } else {
                after == before
            }
        }),
{
}

/// An option's value is its `value` attribute, even an empty one, and else its
/// label.
pub proof fn law_option_values(doc: DocumentModel, option: NodeId)
    ensures
        document::attribute_at(doc, option, "value"@) is Some ==> option_value_model(doc, option)
            == document::attribute_at(doc, option, "value"@)->0,
        document::attribute_at(doc, option, "value"@) is None ==> option_value_model(doc, option)
            == text::trimmed(document::text_at(doc, option)),
{
}

proof fn lemma_options_among(doc: DocumentModel, list: Seq<NodeId>, n: int, x: NodeId)
    requires
        0 <= n <= list.len(),
    ensures
        options_among(doc, list, n).contains(x) <==> list.take(n).contains(x) && document::has_tag(
            doc,
            x,
            "option"@,
        ),
    decreases n,
{
    let after = options_among(doc, list, n);
    if n > 0 {
        lemma_options_among(doc, list, n - 1, x);
        let before = options_among(doc, list, n - 1);
        let front = list.take(n - 1);
        let whole = list.take(n);
        assert(whole =~= front.push(list[n - 1]));
        if front.contains(x) {
            let k = choose|k: int| 0 <= k < front.len() && front[k] == x;
            assert(whole[k] == x);
        }
        assert(whole[n - 1] == list[n - 1]);
        if whole.contains(x) && x != list[n - 1] {
            let k = choose|k: int| 0 <= k < whole.len() && whole[k] == x;
            assert(front[k] == x);
        }
        if before.contains(x) {
            let k = choose|k: int| 0 <= k < before.len() && before[k] == x;
            assert(after[k] == x);
        }
        if document::has_tag(doc, list[n - 1], "option"@) {
            assert(after[after.len() - 1] == list[n - 1]);
        }
        if after.contains(x) && !before.contains(x) {
            let k = choose|k: int| 0 <= k < after.len() && after[k] == x;
            assert(x == list[n - 1]) by {
                if k < before.len() {
                    assert(before[k] == x);
                }
            }
        }
    }
}

/// A select's options are the options among its children and among the
/// children of its option groups, and nothing else.
pub proof fn law_options_come_from_the_select(
    doc: DocumentModel,
    list: Seq<NodeId>,
    n: int,
    x: NodeId,
)
    requires
        0 <= n <= list.len(),
    ensures
        options_below(doc, list, n).contains(x) <==> document::has_tag(doc, x, "option"@) && (
        list.take(n).contains(x) || exists|k: int|
            0 <= k < n && document::has_tag(doc, #[trigger] list[k], "optgroup"@)
                && document::children_at(doc, list[k]).contains(x)),
    decreases n,
{
    reveal_strlit("option");
    reveal_strlit("optgroup");
    assert("option"@.len() != "optgroup"@.len());
    let after = options_below(doc, list, n);
    if n > 0 {
        law_options_come_from_the_select(doc, list, n - 1, x);
        let before = options_below(doc, list, n - 1);
        let child = list[n - 1];
        let kids = document::children_at(doc, child);
        let inner = options_among(doc, kids, kids.len() as int);
        lemma_options_among(doc, kids, kids.len() as int, x);
        assert(kids.take(kids.len() as int) =~= kids);
        let front = list.take(n - 1);
        let whole = list.take(n);
        assert(whole =~= front.push(child));
        if front.contains(x) {
            let k = choose|k: int| 0 <= k < front.len() && front[k] == x;
            assert(whole[k] == x);
        }
        assert(whole[n - 1] == child);
        if whole.contains(x) && x != child {
            let k = choose|k: int| 0 <= k < whole.len() && whole[k] == x;
            assert(front[k] == x);
        }
        if before.contains(x) {
            let k = choose|k: int| 0 <= k < before.len() && before[k] == x;
            assert(after[k] == x);
        }
        if document::has_tag(doc, child, "option"@) {
            assert(after[after.len() - 1] == child);
            if after.contains(x) && !before.contains(x) {
                let k = choose|k: int| 0 <= k < after.len() && after[k] == x;
                if k < before.len() {
                    assert(before[k] == x);
                }
            }
        } else if document::has_tag(doc, child, "optgroup"@) {
            if inner.contains(x) {
                let k = choose|k: int| 0 <= k < inner.len() && inner[k] == x;
                assert(after[before.len() + k] == x);
            }
            if after.contains(x) && !before.contains(x) {
                let k = choose|k: int| 0 <= k < after.len() && after[k] == x;
                if k < before.len() {
                    assert(before[k] == x);
                } else {
                    assert(inner[k - before.len()] == x);
                }
            }
        }
    }
}

/// A plain click on an option selects it alone, a toggling one turns it round
/// and leaves the others; one on a foreign option does nothing.
pub proof fn law_option_clicks(
    doc: DocumentModel,
    f: FormModel,
    select: NodeId,
    option: NodeId,
    toggle: bool,
    other: NodeId,
)
    ensures
        ({
            let options = options_of(doc, select);
            match option_clicked(doc, f, select, option, toggle) {
                Some(checked) => {
                    let after = FormModel { checked, ..f };
                    &&& options.contains(option)
                    &&& toggle ==> selected_at(doc, after, option) != selected_at(doc, f, option)
                    &&& toggle && other != option ==> selected_at(doc, after, other)
                        == selected_at(doc, f, other)
                    &&& !toggle ==> selected_at(doc, after, option)
                    &&& !toggle && options.contains(other) && other != option ==> !selected_at(
                        doc,
                        after,
                        other,
                    )
                    &&& !options.contains(other) ==> selected_at(doc, after, other) == selected_at(
                        doc,
                        f,
                        other,
                    )
                },
                None => !options.contains(option),
            }
        }),
{
    let options = options_of(doc, select);
    let n = options.len() as int;
    lemma_only_chosen(f.checked, options, option, n);
    assert(options.take(n) =~= options);
    if options.contains(option) {
        let k = choose|k: int| 0 <= k < n && options[k] == option;
        assert(options[k] == option);
    }
    if options.contains(other) {
        let k = choose|k: int| 0 <= k < n && options[k] == other;
        assert(options[k] == other);
    }
    let chosen = only_chosen(f.checked, options, option, n);
    assert(!options.contains(other) ==> chosen.contains_key(other) == f.checked.contains_key(
        other,
    ));
}

/// A click on a checkbox turns it round and leaves every other node; one on
/// anything but a checkbox or a radio button does nothing.
pub proof fn law_clicks_touch_only_their_box(
    doc: DocumentModel,
    f: FormModel,
    node: NodeId,
    other: NodeId,
)
    requires
        other != node,
    ensures
        ({
            let e = document::element_at(doc, node);
            let input = e is Some && e->0.tag_name == "input"@;
            let after = after_toggle(doc, f, node);
            &&& after.values == f.values
            &&& input && e->0.get("type"@) == Some("checkbox"@) ==> checked_at(doc, after, node)
                != checked_at(doc, f, node) && checked_at(doc, after, other) == checked_at(
                doc,
                f,
                other,
            )
            &&& !input || (e->0.get("type"@) != Some("checkbox"@) && e->0.get("type"@) != Some(
                "radio"@,
            )) ==> after == f
            &&& input && e->0.get("type"@) == Some("radio"@) && !is_radio_of(
                doc,
                other,
                e->0.get("name"@),
            ) ==> checked_at(doc, after, other) == checked_at(doc, f, other)
        }),
{
    lemma_kinds_differ();
    if let Some(e) = document::element_at(doc, node) {
        let all = document::descendants_of(doc, 0);
        let group = e.get("name"@);
        let peers = radio_peers(doc, all, group, all.len() as int);
        lemma_only_chosen(f.checked, peers, node, peers.len() as int);
        assert(peers.take(peers.len() as int) =~= peers);
        lemma_peers_are_radios(doc, all, group, all.len() as int);
        if peers.contains(other) {
            let k = choose|k: int| 0 <= k < peers.len() && peers[k] == other;
            assert(is_radio_of(doc, peers[k], group));
        }
        let chosen = only_chosen(f.checked, peers, node, peers.len() as int);
        assert(!peers.contains(other) ==> chosen.contains_key(other) == f.checked.contains_key(
            other,
        ));
    }
}

proof fn lemma_peers_are_radios(
    doc: DocumentModel,
    list: Seq<NodeId>,
    group: Option<Seq<char>>,
    n: int,
)
    requires
        0 <= n <= list.len(),
    ensures
        forall|k: int|
            0 <= k < radio_peers(doc, list, group, n).len() ==> is_radio_of(
                doc,
                #[trigger] radio_peers(doc, list, group, n)[k],
                group,
            ),
    decreases n,
{
    if n > 0 {
        lemma_peers_are_radios(doc, list, group, n - 1);
        let before = radio_peers(doc, list, group, n - 1);
        let after = radio_peers(doc, list, group, n);
        assert forall|k: int| 0 <= k < after.len() implies is_radio_of(
            doc,
            #[trigger] after[k],
            group,
        ) by {
            if k < before.len() {
                assert(after[k] == before[k]);
            }
        }
    }
}

/// Two radio buttons are of one group where both are radio inputs with the
/// same name, or both without one.
pub proof fn law_radio_groups_share_a_name(doc: DocumentModel, node: NodeId, e: ElementModel)
    requires
        document::element_at(doc, node) == Some(e),
    ensures
        is_radio_of(doc, node, e.get("name"@)) <==> e.tag_name == "input"@ && e.get("type"@)
            == Some("radio"@),
        forall|other: Option<Seq<char>>| #[trigger]
            is_radio_of(doc, node, other) ==> other == e.get("name"@),
{
}

/// A control shows its value, or bullets for a password. An empty one shows
/// its placeholder, and without that a single space.
pub proof fn law_controls_show_their_value(doc: DocumentModel, node: NodeId, value: Seq<char>)
    ensures
        ({
            let placeholder = document::attribute_at(doc, node, "placeholder"@);
            let password = document::attribute_at(doc, node, "type"@) == Some("password"@);
            let shown = control_display(doc, node, value);
            &&& value.len() > 0 && !password ==> shown == value
            &&& value.len() > 0 && password ==> shown.len() == value.len() && forall|i: int|
                0 <= i < shown.len() ==> shown[i] == '\u{2022}'
            &&& value.len() == 0 && placeholder is Some && placeholder->0.len() > 0 ==> shown
                == placeholder->0
            &&& value.len() == 0 && (placeholder is None || placeholder->0.len() == 0) ==> shown
                == seq![' ']
        }),
{
    reveal_strlit(" ");
    assert(" "@ =~= seq![' ']);
}

/// A required text that is empty keeps its form from being sent, and so does a
/// number above its `max` or below its `min`; nothing else does.
pub proof fn law_constraints(doc: DocumentModel, f: FormModel, node: NodeId, e: ElementModel)
    requires
        document::element_at(doc, node) == Some(e),
    ensures
        ({
            let kind = e.get("type"@);
            let value = value_of(doc, f, node);
            let number = e.tag_name == "input"@ && kind == Some("number"@);
            let textual = e.tag_name == "textarea"@ || (e.tag_name == "input"@ && (kind is None
                || kind == Some("text"@) || kind == Some("search"@) || kind == Some("email"@) || kind
                == Some("url"@) || kind == Some("password"@) || kind == Some("tel"@) || kind
                == Some("number"@)));
            let missing = e.get("required"@) is Some && textual && value.len() == 0;
            let high = number && number::literal_order(
                text::trimmed(value),
                e.get_or("max"@, ""@),
            ) == Some(Order::Greater);
            let low = number && number::literal_order(
                text::trimmed(value),
                e.get_or("min"@, ""@),
            ) == Some(Order::Less);
            let violation = control_violation(doc, f, node);
            &&& violation is Some <==> missing || high || low
            &&& missing ==> violation == Some("Please fill out this field."@)
            &&& !missing && high ==> violation == Some(
                "Value must be less than or equal to "@ + e.get_or("max"@, ""@) + "."@,
            )
            &&& !missing && !high && low ==> violation == Some(
                "Value must be greater than or equal to "@ + e.get_or("min"@, ""@) + "."@,
            )
        }),
{
}

/// The form of a node is the innermost `<form>` that it is or lies in.
pub proof fn law_the_innermost_form_is_sent(
    doc: DocumentModel,
    node: NodeId,
    list: Seq<NodeId>,
    k: int,
)
    requires
        list == seq![node] + document::ancestors_of(doc, node),
        0 <= k < list.len(),
        document::has_tag(doc, list[k], "form"@),
        forall|j: int| 0 <= j < k ==> !document::has_tag(doc, #[trigger] list[j], "form"@),
    ensures
        form_around(doc, node) == Some(list[k]),
{
    document::lemma_find_tag(doc, list, "form"@, 0);
}

/// A form is kept back by the first of its controls, in document order, that
/// breaks a constraint, and by none where none does.
pub proof fn law_the_first_violation_counts(
    doc: DocumentModel,
    f: FormModel,
    list: Seq<NodeId>,
    i: int,
    k: int,
)
    requires
        0 <= i <= k <= list.len(),
        forall|j: int| i <= j < k ==> control_violation(doc, f, #[trigger] list[j]) is None,
        k < list.len() ==> control_violation(doc, f, list[k]) is Some,
    ensures
        k < list.len() ==> first_violation(doc, f, list, i) == Some(
            (list[k], control_violation(doc, f, list[k])->0),
        ),
        k == list.len() ==> first_violation(doc, f, list, i) is None,
    decreases k - i,
{
    if i < k {
        assert(control_violation(doc, f, list[i]) is None);
        law_the_first_violation_counts(doc, f, list, i + 1, k);
    }
}

/// The inputs that take text: those without a type and those of a textual
/// type. A number input is one of them.
pub proof fn law_inputs_that_take_text(doc: DocumentModel, node: NodeId, e: ElementModel)
    requires
        document::element_at(doc, node) == Some(e),
        e.tag_name == "input"@,
    ensures
        text_input_at(doc, node) <==> (match e.get("type"@) {
            None => true,
            Some(kind) => kind == "text"@ || kind == "search"@ || kind == "email"@ || kind == "url"@
                || kind == "password"@ || kind == "tel"@ || kind == "number"@,
        }),
        number_input_at(doc, node) <==> e.get("type"@) == Some("number"@),
{
}

/// A live state counts before the page's own.
pub proof fn law_live_states_come_first(doc: DocumentModel, f: FormModel, node: NodeId)
    ensures
        f.checked.contains_key(node) ==> checked_at(doc, f, node) == f.checked[node] && selected_at(
            doc,
            f,
            node,
        ) == f.checked[node],
        !f.checked.contains_key(node) ==> (checked_at(doc, f, node) <==> document::attribute_at(
            doc,
            node,
            "checked"@,
        ) is Some) && (selected_at(doc, f, node) <==> document::attribute_at(
            doc,
            node,
            "selected"@,
        ) is Some),
{
}

} // verus!
