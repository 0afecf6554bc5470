//! The laws of the library, each on concrete values.
use lumen::browser::animation::{
    frame_segment, plan_transitions, ActiveTransition, Animated, Animations, Progress, StyleChange,
};
use lumen::browser::controls::TextUpdate;
use lumen::browser::cookies::{default_path, CookieJar};
use lumen::browser::cors::{
    custom_headers, needs_preflight, safelisted_header, same_origin, simple_content_type,
    CorsCheck, CorsGrant, ScriptCredentials,
};
use lumen::browser::damage::{union_all, union_damage, Rect, RepaintDamage};
use lumen::browser::document::{Document, Element, Node, NodeId, NodeKind};
use lumen::browser::editor::{
    caret_line, control_display_text, slide_window, EditOp, EditResult, Motion, TextBuffer,
};
use lumen::browser::forms::{encode_pairs, url_encode, FormState, Submission};
use lumen::browser::history::{History, LoadError};
use lumen::browser::page_load::{plan_images, usable_font, MAX_IMAGES_PER_PAGE};
use lumen::browser::request::{ResourceRequest, ResourceResponse};
use lumen::browser::session::{HoverImpact, Reaction, Session};
use lumen::browser::storage::{origin_key, parse_map, serialize_map, WebStorage};
use lumen::browser::string_map::StringMap;
use lumen::browser::url::Url;
use lumen::css::color::{Color, ColorForm};
use lumen::css::declaration::push_declaration;
use lumen::css::media::{tighten_max, tighten_min, MediaQuery};
use lumen::css::number::{compare_literals, Number, Order, Scale};
use lumen::css::selector::{PseudoClass, PseudoElement};
use lumen::css::shorthand::{expand_declaration, Declaration};
use lumen::css::stylesheet::{sort_keyframes, SheetBuilder};
use lumen::css::value::CssValue;
use lumen::scripting::attributes::{
    class_add, class_contains, class_remove, class_toggle, dataset_attribute, kebab,
    set_attribute, style_decls, style_get, style_set,
};
use lumen::scripting::bridge::{Bridge, FetchCall, XhrCall};
use lumen::scripting::dom;
use lumen::scripting::errors::{ErrorReport, ErrorTally, MAX_DISTINCT_ERRORS};
use lumen::scripting::events::{
    has_inline_handlers, inline_function, Dispatch, Handler, InlineHandler, InlineHandlers,
    Listeners, Registration,
};
use lumen::scripting::jobs::{after_round, JobBudget, JobStep, MAX_JOBS_PER_TICK};
use lumen::scripting::loading::{
    needs_world, prepare_module_request, schedule, ImportStep, ModuleRun, ModuleSources,
    RoundResult, RoundStep, ScriptEntry, MAX_MODULE_ROUNDS,
};
use lumen::scripting::natives::{
    fetch_credentials, pair_headers, platform, settle_xhr, write_cookie, xhr_body, xhr_method,
};
use lumen::scripting::network::{NetworkQueue, Start, Task};
use lumen::scripting::page::{PageScripts, MAX_PUMP_ROUNDS};
use lumen::scripting::pump::Round;
use lumen::scripting::reads::{ProbeStep, ReadFailure, ReadStart, Reads, SettleTarget};
use lumen::scripting::timers::{Timer, Timers};

fn url(scheme: &str, host: &str, port: Option<u16>, path: &str) -> Url {
    let known = match scheme {
        "http" => Some(80),
        "https" => Some(443),
        _ => None,
    };
    let authority = match port {
        Some(port) => format!("{host}:{port}"),
        None => host.to_string(),
    };
    let origin =
        if scheme == "file" { "null".to_string() } else { format!("{scheme}://{authority}") };
    Url {
        text: format!("{scheme}://{authority}{path}"),
        scheme: scheme.to_string(),
        host: if host.is_empty() { None } else { Some(host.to_string()) },
        port: port.or(known),
        path: path.to_string(),
        unicode_origin: origin.clone(),
        origin,
    }
}

fn https(path: &str) -> Url {
    url("https", "a.test", None, path)
}

fn element(tag: &str, attributes: &[(&str, &str)]) -> NodeKind {
    NodeKind::Element(Element {
        tag_name: tag.to_string(),
        attributes: attributes
            .iter()
            .map(|(name, value)| (name.to_string(), value.to_string()))
            .collect(),
    })
}

/// A document whose nodes hang under the ones they name.
fn tree(nodes: Vec<(usize, NodeKind)>) -> Document {
    let mut list = vec![Node { kind: NodeKind::Other, parent: None, children: Vec::new() }];
    for (parent, kind) in nodes {
        let id = list.len();
        list.push(Node { kind, parent: Some(parent), children: Vec::new() });
        list[parent].children.push(id);
    }
    Document { nodes: list }
}

fn session_on(document: Document, at: &Url) -> Session {
    let mut session = Session::new();
    session.begin_page(at);
    session.apply_stylesheet(false, HoverImpact::Nothing);
    session.queue_images(Vec::new());
    session.show_page(document, at);
    session.load(Ok(at.clone())).unwrap();
    session
}

fn pair(name: &str, value: &str) -> (String, String) {
    (name.to_string(), value.to_string())
}

// ---------------------------------------------------------------------------
// Style sheets
// ---------------------------------------------------------------------------

#[test]
fn color_names_are_found_in_any_case() {
    let red = Some(Color::rgb(255, 0, 0));
    assert_eq!(Color::from_named("red"), red);
    assert_eq!(Color::from_named("ReD"), red);
    assert_eq!(Color::from_named("no color"), None);
}

#[test]
fn opaque_colors_read_back_from_their_text() {
    for color in [Color::rgb(0, 0, 0), Color::rgb(18, 171, 255), Color::rgb(9, 160, 16)] {
        assert!(matches!(Color::parse(&color.to_text()), Some(ColorForm::Srgb(c)) if c == color));
    }
    assert_eq!(Color::rgb(18, 171, 255).to_text(), "#12abff");
    assert_eq!(Color::rgba(1, 2, 3, 51).to_text(), "rgba(1,2,3,0.200)");
}

fn declarations(name: &str, source: &str) -> Vec<Declaration> {
    let mut output = Vec::new();
    push_declaration(name, source, &mut output);
    output
}

fn keywords(list: &[Declaration]) -> Vec<(&str, &str)> {
    list.iter()
        .map(|declaration| {
            (declaration.name.as_str(), declaration.value.as_keyword().unwrap_or("?"))
        })
        .collect()
}

#[test]
fn missing_edges_mirror_their_opposite() {
    let one = declarations("border-style", "solid");
    assert!(one.iter().all(|declaration| declaration.value.as_keyword() == Some("solid")));
    let two = declarations("border-style", "solid dotted");
    assert_eq!(
        keywords(&two),
        vec![
            ("border-top-style", "solid"),
            ("border-right-style", "dotted"),
            ("border-bottom-style", "solid"),
            ("border-left-style", "dotted"),
        ]
    );
    let three = declarations("border-style", "solid dotted dashed");
    assert_eq!(three[3].value.as_keyword(), Some("dotted"));
}

#[test]
fn importance_reaches_every_longhand() {
    for (name, source) in [
        ("margin", "1px 2px ! IMPORTANT"),
        ("font", "bold 12px serif !important"),
        ("background", "red url(a.png) !important"),
        ("border", "1px solid red !important"),
    ] {
        let list = declarations(name, source);
        assert!(list.len() > 1);
        assert!(list.iter().all(|declaration| declaration.important), "{name}");
    }
    assert!(declarations("margin", "1px").iter().all(|declaration| !declaration.important));
}

#[test]
fn importance_changes_nothing_else() {
    for (name, source) in [
        ("margin", "1px 2px"),
        ("color", "rgb(1 2 3)"),
        ("width", "calc(1px + 2px"),
        ("font", "italic 12px/2 \"Helvetica Neue\", serif"),
        ("font", "bold 12px \"Helvetica"),
        ("font", "bold menu"),
        ("font-family", "'A  b', c"),
        ("background", "red url(a.png) no-repeat, none 1px 2px"),
        ("background", "\"a, b\""),
        ("transition", "color 1s"),
        ("--gap", " 1px "),
        ("height", "var(--gap)"),
        ("margin", ""),
    ] {
        let plain = declarations(name, source);
        let flagged = declarations(name, &format!("{source} !important"));
        assert_eq!(flagged.len(), plain.len(), "{name}: {source}");
        for (with, without) in flagged.iter().zip(&plain) {
            assert!(with.important && !without.important);
            assert_eq!((&with.name, &with.value), (&without.name, &without.value));
        }
    }
}

#[test]
fn a_bare_background_is_a_color() {
    let red = || CssValue::parse_component("red").unwrap();
    let mut output = Vec::new();
    expand_declaration("background", &vec![red()], &mut output);
    assert_eq!(output.len(), 1);
    assert_eq!(output[0].name, "background-color");
    assert_eq!(output[0].value, red());
    assert!(!output[0].important);
}

#[test]
fn tightened_bounds_are_all_met() {
    let mut query = MediaQuery::all();
    assert!(query.matches(-5) && query.matches(5));
    tighten_min(&mut query, 10, false);
    tighten_min(&mut query, 10, true);
    tighten_min(&mut query, 4, false);
    tighten_max(&mut query, 20, false);
    tighten_max(&mut query, 30, true);
    assert!(!query.matches(10));
    assert!(query.matches(11) && query.matches(20));
    assert!(!query.matches(21));
}

#[test]
fn filtered_sheets_stay_filtered() {
    let narrow = MediaQuery {
        min_width: None,
        max_width: Some(500),
        min_exclusive: false,
        max_exclusive: false,
    };
    let mut builder = SheetBuilder::new();
    builder.push_rule(vec![0], declarations("color", "red"), None);
    builder.push_rule(vec![1], declarations("color", "blue"), Some(narrow));
    builder.push_rule(vec![2], declarations("color", "lime"), None);
    let sheet = builder.finish();
    let wide = sheet.for_width(600);
    assert_eq!(wide.rules.iter().map(|rule| rule.source_order).collect::<Vec<_>>(), vec![0, 2]);
    assert_eq!(wide.for_width(600), wide);
    assert_eq!(sheet.for_width(400), sheet);
}

#[test]
fn frames_are_ordered_by_their_offset() {
    let block = sort_keyframes(
        "k".to_string(),
        vec![(30, Vec::new()), (10, declarations("opacity", "1")), (30, declarations("top", "0"))],
    );
    assert_eq!(block.frames.iter().map(|frame| frame.0).collect::<Vec<_>>(), vec![10, 30, 30]);
    // Equal offsets keep their order.
    assert!(block.frames[1].1.is_empty());
}

#[test]
fn pseudo_names_read_back() {
    for class in [PseudoClass::Hover, PseudoClass::FocusWithin, PseudoClass::Checked] {
        assert_eq!(PseudoClass::parse(class.name()), Some(class));
    }
    for part in [PseudoElement::Before, PseudoElement::Selection, PseudoElement::FirstLetter] {
        assert_eq!(PseudoElement::parse(part.name()), Some(part));
    }
    assert_eq!(PseudoClass::parse("HOVER"), Some(PseudoClass::Hover));
    assert_eq!(PseudoClass::parse("bogus"), None);
    assert_eq!(PseudoElement::parse("marker"), None);
}

fn chars(text: &str) -> Vec<char> {
    text.chars().collect()
}

#[test]
fn literals_compare_as_the_numbers_they_are() {
    let order = |a: &str, b: &str| compare_literals(&chars(a), &chars(b));
    assert_eq!(order("1.50", "15e-1"), Some(Order::Equal));
    assert_eq!(order("-0", "0.000"), Some(Order::Equal));
    assert_eq!(order("99.9", "100"), Some(Order::Less));
    assert_eq!(order("1e30", "-1e31"), Some(Order::Greater));
    assert_eq!(order("x", "1"), None);
}

#[test]
fn numbers_are_read_as_single_precision_reads_them() {
    let read = |text: &str, scale: Scale| Number::read(&chars(text), scale);
    assert!(read("1e38", Scale::One).is_some_and(|n| n.is_finite()));
    assert!(!read("1e39", Scale::One).is_some_and(|n| n.is_finite()));
    assert!(Number::new("0.00").is_zero());
    assert!(!Number::new("1e-40").is_zero());
    assert!(Number::new("100").reaches_hundred());
    assert!(!Number::new("99.9").reaches_hundred());
}

#[test]
fn values_show_what_they_hold() {
    let shown = |source: &str| CssValue::parse_component(source).unwrap().display_text();
    assert_eq!(shown("auto"), Some("auto".to_string()));
    assert_eq!(shown("#f00"), Some("#ff0000".to_string()));
    assert_eq!(shown("12px"), None);
}

// ---------------------------------------------------------------------------
// Editing
// ---------------------------------------------------------------------------

fn buffer(text: &str, anchor: usize, caret: usize) -> TextBuffer {
    TextBuffer { text: text.to_string(), anchor, caret }
}

#[test]
fn backspace_undoes_typing() {
    let mut edited = buffer("ağaç", 2, 2);
    edited.insert("ç");
    assert_eq!((edited.text.as_str(), edited.caret), ("ağçaç", 3));
    edited.backspace();
    assert_eq!((edited.text.as_str(), edited.caret), ("ağaç", 2));
}

#[test]
fn typing_replaces_the_selection() {
    let mut edited = buffer("merhaba", 1, 4);
    assert_eq!(edited.selected_text(), "erh");
    edited.insert("x");
    assert_eq!((edited.text.as_str(), edited.caret, edited.anchor), ("mxaba", 2, 2));
}

#[test]
fn positions_stay_in_the_text() {
    let mut edited = buffer("ab cd", 0, 0);
    for op in [
        EditOp::Move { motion: Motion::WordRight, select: true },
        EditOp::Move { motion: Motion::LineEnd, select: false },
        EditOp::Move { motion: Motion::Right, select: false },
        EditOp::Backspace { word: true },
        EditOp::DeleteForward,
        EditOp::Move { motion: Motion::LineStart, select: true },
        EditOp::SelectAll,
        EditOp::Backspace { word: false },
        EditOp::Backspace { word: false },
    ] {
        edited.apply(&op);
        assert!(edited.caret <= edited.char_count() && edited.anchor <= edited.char_count());
    }
    assert_eq!(edited.text, "");
    assert_eq!(edited.apply(&EditOp::SelectAll), EditResult::Moved);
}

#[test]
fn an_edit_that_leaves_the_text_only_moves() {
    for (text, caret, op) in [
        ("ab", 0, EditOp::Backspace { word: false }),
        ("ab", 0, EditOp::Backspace { word: true }),
        ("ab", 2, EditOp::DeleteForward),
        ("ab", 1, EditOp::Insert(String::new())),
        ("ab", 1, EditOp::Move { motion: Motion::Left, select: true }),
    ] {
        let mut edited = buffer(text, caret, caret);
        assert_eq!(edited.apply(&op), EditResult::Moved);
        assert_eq!(edited.text, text);
    }
    for op in [
        EditOp::Insert("x".to_string()),
        EditOp::Backspace { word: false },
        EditOp::DeleteForward,
    ] {
        let mut edited = buffer("ab", 1, 1);
        assert_eq!(edited.apply(&op), EditResult::Edited);
        assert_ne!(edited.text, "ab");
    }
    // Typing over a selection with the same letters changes nothing.
    let mut edited = buffer("ab", 0, 2);
    assert_eq!(edited.apply(&EditOp::Insert("ab".to_string())), EditResult::Moved);
    assert_eq!((edited.text.as_str(), edited.caret, edited.anchor), ("ab", 2, 2));
}

#[test]
fn words_are_made_of_letters_and_digits() {
    let edited = buffer("ağ1 - çöp", 0, 9);
    assert_eq!(edited.previous_word(), 6);
    assert_eq!(buffer("ağ1 - çöp", 0, 0).next_word(), 3);
    assert_eq!(buffer("ağ1 - çöp", 0, 3).next_word(), 9);
}

#[test]
fn the_window_keeps_the_caret_in_sight() {
    // Four characters fit.
    let fits = |from: usize, to: usize| to.saturating_sub(from) <= 4;
    assert_eq!(slide_window(0, 3, 10, fits), 0);
    assert_eq!(slide_window(0, 9, 10, fits), 5);
    assert_eq!(slide_window(5, 2, 10, fits), 2);
    // Room that became free is used.
    assert_eq!(slide_window(5, 6, 6, fits), 2);
}

#[test]
fn passwords_are_shown_as_dots() {
    assert_eq!(control_display_text(true, "şifre"), "\u{2022}\u{2022}\u{2022}\u{2022}\u{2022}");
    assert_eq!(control_display_text(false, "şifre"), "şifre");
    assert_eq!(caret_line("a\nb\nc", 4), 2);
}

// ---------------------------------------------------------------------------
// Storage
// ---------------------------------------------------------------------------

#[test]
fn maps_read_back_what_was_written() {
    let mut map = StringMap::new();
    map.insert("b".to_string(), "1".to_string());
    map.insert("a".to_string(), "2".to_string());
    map.insert("b".to_string(), "3".to_string());
    assert_eq!(map.get("b"), Some(&"3".to_string()));
    assert_eq!(map.get("a"), Some(&"2".to_string()));
    // Keys are in order, each once.
    assert_eq!((map.key(0).unwrap().as_str(), map.key(1).unwrap().as_str()), ("a", "b"));
    map.remove("a");
    assert_eq!(map.get("a"), None);
    assert_eq!(map.len(), 1);
}

#[test]
fn stored_maps_survive_any_text() {
    let mut map = StringMap::new();
    map.insert("\u{0}\u{1f}\"\\/\n\t".to_string(), "\u{1f980} ç \u{7f}".to_string());
    let text = serialize_map(&map);
    assert_eq!(serialize_map(&parse_map(&text).unwrap()), text);
}

#[test]
fn only_written_texts_are_read() {
    let read = parse_map("{\"a\\u001f\":\"b\\n\",\"c\":\"\"}").unwrap();
    assert_eq!(read.get("a\u{1f}"), Some(&"b\n".to_string()));
    assert_eq!(read.get("c"), Some(&String::new()));
    for text in [
        "",
        "{ }",
        " {}",
        "{}\n",
        "{\"a\": \"b\"}",
        "{\"a\":\"b\",}",
        "{\"a\":\"\\/\"}",
        "{\"a\":\"\\b\"}",
        "{\"a\":\"\\f\"}",
        "{\"a\":\"\\u0041\"}",
        "{\"a\":\"\\u001F\"}",
        "{\"a\":\"\\u000a\"}",
        "{\"a\":\"\\u+01f\"}",
        "{\"a\":\"\\ud83e\\udd80\"}",
        "{\"a\":\"\n\"}",
        "{\"b\":\"\",\"a\":\"\"}",
        "{\"a\":\"1\",\"a\":\"2\"}",
    ] {
        assert!(parse_map(text).is_err(), "{text}");
    }
}

#[test]
fn hex_colors_hold_only_digits() {
    let read = |text: &str| CssValue::parse_component(text).is_some();
    assert!(read("#012") && read("#00112233"));
    assert!(!read("#+12") && !read("#-12") && !read("#+11223") && !read("#12"));
}

#[test]
fn system_fonts_declare_nothing() {
    for source in ["menu", "bold menu", "italic bold 700 Caption", "status-bar !important"] {
        assert_eq!(declarations("font", source).len(), 0, "{source}");
    }
    let names = |source: &str| -> Vec<String> {
        declarations("font", source).into_iter().map(|declared| declared.name).collect()
    };
    assert_eq!(names("bold"), vec!["font-weight"]);
    assert_eq!(names("bold 12px menu"), vec!["font-weight", "font-size", "font-family"]);
}

#[test]
fn loads_see_the_last_save() {
    let mut storage = WebStorage::new(true);
    let mut map = StringMap::new();
    map.insert("k".to_string(), "v".to_string());
    assert_eq!(storage.save("https://a.test", &map), Some("{\"k\":\"v\"}".to_string()));
    // Memory wins over whatever a file says.
    let again = storage.load("https://a.test", Some("{}"));
    assert_eq!(again.get("k"), Some(&"v".to_string()));
    assert_eq!(storage.load("https://b.test", Some("broken")).len(), 0);
    assert_eq!(origin_key(&url("file", "", None, "/x")), "file://");
}

// ---------------------------------------------------------------------------
// Cookies
// ---------------------------------------------------------------------------

#[test]
fn set_cookies_come_back_to_their_url() {
    let mut jar = CookieJar::new();
    let at = https("/a/b");
    jar.store(&at, "sid = abc ");
    assert_eq!(jar.header_for_http(&at).as_deref(), Some("sid=abc"));
    assert_eq!(jar.header_for(&at).as_deref(), Some("sid=abc"));
    assert_eq!(default_path(&at), "/a");
    // Not above its path.
    assert_eq!(jar.header_for_http(&https("/")), None);
}

#[test]
fn the_jar_holds_one_of_each_cookie() {
    let mut jar = CookieJar::new();
    let at = https("/");
    jar.store(&at, "a=1");
    jar.store(&at, "b=2");
    jar.store(&at, "a=3");
    assert_eq!(jar.header_for_http(&at).as_deref(), Some("b=2; a=3"));
    jar.store(&at, "b=; Max-Age=0");
    assert_eq!(jar.header_for_http(&at).as_deref(), Some("a=3"));
    jar.store(&at, "a=4; Expires=Thu, 01 Jan 1970 00:00:00 GMT");
    assert_eq!(jar.header_for_http(&at), None);
}

#[test]
fn refused_cookies_change_nothing() {
    let mut jar = CookieJar::new();
    jar.store(&url("http", "a.test", None, "/"), "s=1; Secure");
    jar.store(&https("/"), "d=1; Domain=b.test");
    jar.store(&https("/"), "no pair");
    jar.store(&https("/"), "=empty name");
    jar.store(&url("file", "", None, "/x"), "f=1");
    assert!(jar.cookies.is_empty());
}

#[test]
fn cookies_stay_where_they_belong() {
    let mut jar = CookieJar::new();
    jar.store(&https("/"), "h=1; HttpOnly; Path=/");
    jar.store(&https("/"), "s=2; Secure; Path=/; Domain=.A.test");
    assert_eq!(jar.header_for(&https("/x")).as_deref(), Some("s=2"));
    assert_eq!(jar.header_for_http(&https("/x")).as_deref(), Some("h=1; s=2"));
    assert_eq!(jar.header_for_http(&url("http", "a.test", None, "/x")).as_deref(), Some("h=1"));
    let sub = url("https", "sub.a.test", None, "/");
    assert_eq!(jar.header_for_http(&sub).as_deref(), Some("s=2"));
    assert_eq!(jar.header_for_http(&url("https", "xa.test", None, "/")), None);
}

// ---------------------------------------------------------------------------
// Forms and controls
// ---------------------------------------------------------------------------

fn decoded(text: &str) -> String {
    let mut bytes = Vec::new();
    let mut rest = text.bytes();
    while let Some(byte) = rest.next() {
        match byte {
            b'+' => bytes.push(b' '),
            b'%' => {
                let pair = [rest.next().unwrap(), rest.next().unwrap()];
                let pair = String::from_utf8(pair.to_vec()).unwrap();
                bytes.push(u8::from_str_radix(&pair, 16).unwrap());
            }
            other => bytes.push(other),
        }
    }
    String::from_utf8(bytes).unwrap()
}

#[test]
fn encoded_values_are_safe_and_read_back() {
    for value in ["", "a b&c=d", "ğ%+\u{1f980}", "~-_.*"] {
        let encoded = url_encode(value);
        assert_eq!(decoded(&encoded), value);
        assert!(!encoded.contains(['&', '=', ' ', '#']));
    }
    assert_eq!(url_encode("a b&c"), "a+b%26c");
    let pairs = vec![pair("q", "x y"), pair("hl", "tr")];
    assert_eq!(encode_pairs(&pairs), "q=x+y&hl=tr");
}

fn boxes() -> Document {
    tree(vec![
        (0, element("form", &[("action", "/go")])),
        (1, element("input", &[("type", "radio"), ("name", "r"), ("value", "a"), ("checked", "")])),
        (1, element("input", &[("type", "radio"), ("name", "r"), ("value", "b")])),
        (1, element("input", &[("type", "checkbox"), ("name", "c"), ("value", "1")])),
    ])
}

#[test]
fn one_radio_of_a_group_is_checked() {
    let document = boxes();
    let mut forms = FormState::new();
    assert!(forms.is_checked(&document, 2) && !forms.is_checked(&document, 3));
    assert!(forms.toggle_checkable(&document, 3));
    assert!(!forms.is_checked(&document, 2) && forms.is_checked(&document, 3));
    assert_eq!(
        forms.submit_form(&document, 3),
        Submission::Get { action: "/go".to_string(), query: Some("r=b".to_string()) }
    );
}

#[test]
fn a_click_on_the_checked_radio_changes_nothing() {
    let document = boxes();
    let mut forms = FormState::new();
    assert!(!forms.toggle_checkable(&document, 2));
    assert!(forms.is_checked(&document, 2) && !forms.is_checked(&document, 3));
    assert!(forms.toggle_checkable(&document, 3));
    assert!(!forms.toggle_checkable(&document, 3));
    assert!(!forms.is_checked(&document, 2) && forms.is_checked(&document, 3));
    // Nor is anything painted again.
    let mut session = session_on(boxes(), &https("/"));
    session.note_rasterized();
    let damage = session.repaint_damage();
    assert!(!session.toggle_checkable(2));
    assert_eq!(session.repaint_damage(), damage);
    assert!(session.toggle_checkable(3));
    assert_eq!(session.repaint_damage(), RepaintDamage::Full);
}

#[test]
fn clicked_options_belong_to_their_select() {
    let document = tree(vec![
        (0, element("select", &[("multiple", "")])),
        (1, element("option", &[("selected", "")])),
        (1, element("option", &[])),
    ]);
    let mut forms = FormState::new();
    assert!(forms.click_option(&document, 1, 2, false));
    assert!(forms.option_selected(&document, 2) && !forms.option_selected(&document, 3));
    assert!(forms.click_option(&document, 1, 3, true));
    assert!(forms.option_selected(&document, 2) && forms.option_selected(&document, 3));
    assert!(forms.click_option(&document, 1, 3, false));
    assert!(!forms.option_selected(&document, 2) && forms.option_selected(&document, 3));
    assert!(!forms.click_option(&document, 1, 1, false));
}

#[test]
fn a_checkbox_toggles_back() {
    let document = boxes();
    let mut forms = FormState::new();
    assert!(forms.toggle_checkable(&document, 4));
    assert!(forms.is_checked(&document, 4));
    assert!(forms.toggle_checkable(&document, 4));
    assert!(!forms.is_checked(&document, 4));
    // A form is no box.
    assert!(!forms.toggle_checkable(&document, 1));
}

#[test]
fn the_first_violation_blocks_a_form() {
    let document = tree(vec![
        (0, element("form", &[])),
        (1, element("input", &[("type", "text"), ("name", "t"), ("required", "")])),
        (1, element("input", &[("type", "number"), ("max", "9"), ("value", "10")])),
        (0, element("p", &[])),
    ]);
    let mut forms = FormState::new();
    assert_eq!(forms.submit_form(&document, 3), Submission::Blocked);
    assert_eq!(forms.violation.as_ref().unwrap().node, 2);
    forms.set_value(2, "x".to_string());
    assert_eq!(forms.submit_form(&document, 3), Submission::Blocked);
    assert_eq!(forms.violation.as_ref().unwrap().node, 3);
    forms.set_value(3, "9".to_string());
    assert!(matches!(forms.submit_form(&document, 3), Submission::Get { .. }));
    assert_eq!(forms.submit_form(&document, 4), Submission::NoForm);
}

fn field() -> Document {
    tree(vec![
        (0, element("form", &[])),
        (1, element("input", &[("type", "text"), ("value", "abc")])),
        (1, element("textarea", &[])),
        (3, NodeKind::Text("uzun".to_string())),
    ])
}

#[test]
fn controls_read_back_their_values() {
    let mut session = session_on(field(), &https("/"));
    assert_eq!(session.form_value(2), "abc");
    session.set_form_value(2, "x");
    assert_eq!(session.form_value(2), "x");
    assert_eq!(session.form_value(3), "uzun");
}

#[test]
fn scripts_read_back_the_values_they_set() {
    let mut session = session_on(field(), &https("/"));
    assert_eq!(session.script_value(2), "abc");
    // A textarea's text is not its value attribute.
    assert_eq!(session.script_value(3), "");
    let shown = session.set_script_value(2, String::new());
    assert!(matches!(shown, Some(TextUpdate::Generated(text)) if text == " "));
    let shown = session.set_script_value(3, "y".to_string());
    assert!(matches!(shown, Some(TextUpdate::Content(text)) if text == "y"));
    assert_eq!((session.script_value(2), session.script_value(3)), (String::new(), "y".into()));
    assert_eq!(session.form_value(3), "y");
}

#[test]
fn editing_begins_with_everything_selected() {
    let mut session = session_on(field(), &https("/"));
    for (node, text) in [(2, "abc"), (3, "uzun")] {
        assert!(session.begin_edit(node, None, None).0);
        assert_eq!(session.edit_buffer().unwrap().selected_text(), text);
        assert_eq!(session.edit_buffer().unwrap().caret, text.len());
    }
    // A click places the caret in a single-line control only.
    assert!(session.begin_edit(3, Some(1), None).0);
    assert_eq!(session.edit_buffer().unwrap().selected_text(), "uzun");
    assert!(session.begin_edit(2, Some(1), None).0);
    assert_eq!((session.edit_buffer().unwrap().caret, session.edit_buffer().unwrap().anchor), (1, 1));
    assert!(!session.begin_edit(1, None, None).0);
}

#[test]
fn edits_become_values_and_outlive_the_edit() {
    let mut session = session_on(field(), &https("/"));
    assert!(session.begin_edit(2, None, None).0);
    assert_eq!(session.edit(&EditOp::Insert("yeni".to_string())), EditResult::Edited);
    session.sync_edit_display(true, |from, to| to - from <= 2);
    assert_eq!(session.form_value(2), "yeni");
    assert_eq!(session.edit(&EditOp::DeleteForward), EditResult::Moved);
    session.end_edit(None);
    assert_eq!(session.editing(), None);
    assert_eq!(session.form_value(2), "yeni");
}

// ---------------------------------------------------------------------------
// History
// ---------------------------------------------------------------------------

fn history(paths: &[&str]) -> History {
    let mut history = History::new();
    for path in paths {
        history.load(Ok(https(path))).unwrap();
    }
    history
}

#[test]
fn back_and_forward_undo_each_other() {
    let mut history = history(&["/1", "/2", "/3"]);
    history.back(Ok(())).unwrap();
    assert_eq!(history.current_url().unwrap().path, "/2");
    history.forward(Ok(())).unwrap();
    assert_eq!(history.current_url().unwrap().path, "/3");
    assert!(!history.can_go_forward());
    // A traversal that fails changes nothing.
    assert!(history.back(Err(LoadError::Http("500".to_string()))).is_err());
    assert_eq!(history.current_url().unwrap().path, "/3");
}

#[test]
fn navigating_drops_what_was_ahead() {
    let mut history = history(&["/1", "/2"]);
    history.back(Ok(())).unwrap();
    history.load(Ok(https("/4"))).unwrap();
    assert_eq!((history.history_len(), history.can_go_forward()), (2, false));
    assert!(history.forward_target().is_err());
    assert!(history.load(Err(LoadError::Http("404".to_string()))).is_err());
    assert_eq!(history.current_url().unwrap().path, "/4");
}

#[test]
fn states_belong_to_their_entries() {
    let mut history = history(&["/1"]);
    history.push_state(https("/2"), Some("{}".to_string()));
    assert_eq!((history.history_len(), history.history_state()), (2, Some("{}".to_string())));
    history.replace_state(https("/3"), None);
    assert_eq!((history.history_len(), history.history_state()), (2, None));
    history.back(Ok(())).unwrap();
    assert_eq!(history.current_url().unwrap().path, "/1");
    assert!(history.take_traversed());
    assert!(!history.take_traversed());
}

// ---------------------------------------------------------------------------
// Reading across origins
// ---------------------------------------------------------------------------

#[test]
fn origins_are_scheme_host_and_port() {
    let here = https("/x");
    assert!(same_origin(&here, &here));
    assert!(same_origin(&here, &url("https", "a.test", Some(443), "/y")));
    assert!(same_origin(&url("https", "a.test", Some(443), "/y"), &here));
    assert!(!same_origin(&here, &url("http", "a.test", None, "/x")));
    assert!(!same_origin(&here, &url("https", "b.test", None, "/x")));
}

fn check(credentialed: bool) -> CorsCheck {
    CorsCheck { page_origin: "https://a.test".to_string(), credentialed, preflight: None }
}

#[test]
fn reads_need_a_grant_and_credentials_a_named_one() {
    let (none, star) = (None, Some("*".to_string()));
    let own = Some("https://a.test".to_string());
    assert!(check(false).blocks(&none));
    assert!(!check(false).blocks(&star));
    assert!(check(true).blocks(&star));
    assert!(!check(true).blocks(&own));
    assert!(check(false).blocks(&Some("https://evil.test".to_string())));
}

#[test]
fn simple_requests_have_nothing_to_ask_for() {
    let simple = vec![pair("Accept", "*/*"), pair("Content-Type", "text/plain;charset=utf-8")];
    assert!(!needs_preflight("GET", &None, &simple));
    assert!(custom_headers(&simple).is_empty());
    let custom = vec![pair("X-Token", "1"), pair("x-token", "2")];
    assert!(needs_preflight("GET", &None, &custom));
    assert!(custom_headers(&custom).iter().all(|name| name == "x-token"));
    assert!(needs_preflight("PUT", &None, &Vec::new()));
    assert!(simple_content_type("application/x-www-form-urlencoded"));
    assert!(!simple_content_type("application/json"));
    assert!(!safelisted_header("Content-Type", "application/json"));
}

fn grant(origin: &str, methods: &[&str], headers: &[&str]) -> CorsGrant {
    CorsGrant {
        allow_origin: Some(origin.to_string()),
        allow_methods: methods.iter().map(|name| name.to_string()).collect(),
        allow_headers: headers.iter().map(|name| name.to_string()).collect(),
    }
}

fn other() -> Url {
    url("http", "a.test", Some(8080), "/data")
}

fn probed_read(session: &Session) -> (ResourceRequest, Option<CorsCheck>) {
    let headers = vec![pair("X-Token", "1")];
    session
        .prepare_script_read(other(), None, ScriptCredentials::SameOrigin, "GET", &headers)
        .unwrap()
}

#[test]
fn cached_grants_skip_the_probe() {
    let mut session = session_on(field(), &https("/"));
    let (_, check) = probed_read(&session);
    assert!(check.unwrap().preflight.is_some());
    session.cache_preflight("https://a.test", &other());
    let (_, check) = probed_read(&session);
    assert!(check.unwrap().preflight.is_none());
    let (_, check) = session
        .prepare_script_read(https("/own"), None, ScriptCredentials::SameOrigin, "PUT", &Vec::new())
        .unwrap();
    assert!(check.is_none());
}

#[test]
fn cookies_cross_origins_only_on_request() {
    let mut session = session_on(field(), &https("/"));
    session.cookies.store(&https("/"), "sid=1; Path=/");
    let read = |credentials| {
        let none = Vec::new();
        session.prepare_script_read(other(), None, credentials, "GET", &none).unwrap().0.cookie
    };
    assert_eq!(read(ScriptCredentials::SameOrigin), None);
    assert_eq!(read(ScriptCredentials::Include), Some("sid=1".to_string()));
}

#[test]
fn remote_pages_reach_no_file() {
    let mut session = session_on(field(), &https("/"));
    let file = url("file", "", None, "/etc/passwd");
    assert!(session.prepare_request(file.clone(), None).is_err());
    session.queue_images(vec![(2, Some(file.clone())), (3, None), (3, Some(https("/i.png")))]);
    assert_eq!(session.take_pending_images().len(), 1);
    assert!(prepare_module_request(Some(&https("/")), "sid=1", &file).is_none());
    let local = session_on(field(), &url("file", "", None, "/x.html"));
    assert!(local.prepare_request(file, None).is_ok());
}

#[test]
fn module_requests_carry_cookies_at_home_only() {
    let home = prepare_module_request(Some(&https("/")), "sid=1", &https("/m.js")).unwrap();
    assert_eq!(home.cookie, Some("sid=1".to_string()));
    let away = prepare_module_request(Some(&https("/")), "sid=1", &other()).unwrap();
    assert_eq!(away.cookie, None);
    assert_eq!(prepare_module_request(None, "sid=1", &other()).unwrap().cookie, None);
}

// ---------------------------------------------------------------------------
// Painting
// ---------------------------------------------------------------------------

fn rect(left: i64, top: i64, right: i64, bottom: i64) -> Rect {
    Rect { left, top, right, bottom }
}

#[test]
fn damage_only_grows() {
    let (a, b) = (Some(rect(0, 0, 2, 2)), Some(rect(5, -1, 6, 1)));
    assert_eq!(union_damage(a, b), Some(rect(0, -1, 6, 2)));
    assert_eq!(union_damage(a, b), union_damage(b, a));
    assert_eq!(union_damage(a, None), a);
    assert_eq!(union_all(&vec![None, a, b]), Some(rect(0, -1, 6, 2)));
    let mut damage = RepaintDamage::Region(None);
    damage.extend(a);
    damage.extend(b);
    assert_eq!(damage, RepaintDamage::Region(Some(rect(0, -1, 6, 2))));
    let mut full = RepaintDamage::Full;
    full.extend(a);
    assert_eq!(full, RepaintDamage::Full);
}

#[test]
fn reactions_need_a_cause() {
    let mut session = session_on(field(), &https("/"));
    session.apply_stylesheet(false, HoverImpact::Layout);
    assert_eq!(session.set_hovered(Some(2), true), Reaction::Relayout);
    assert_eq!(session.set_hovered(Some(2), true), Reaction::Ignored);
    assert_eq!(session.set_active(Some(2), false), Reaction::Ignored);
    session.apply_stylesheet(false, HoverImpact::Nothing);
    assert_eq!(session.set_focused(Some(2), true), Reaction::Ignored);
}

#[test]
fn images_are_capped_and_backgrounds_ordered() {
    let sources: Vec<(NodeId, String)> = vec![(9, "i.png".to_string())];
    let backgrounds = vec![(5, "b".to_string()), (3, "a".to_string())];
    let planned: Vec<NodeId> =
        plan_images(&sources, &backgrounds).into_iter().map(|image| image.0).collect();
    assert_eq!(planned, vec![9, 3, 5]);
    let many: Vec<(NodeId, String)> = (0..99).map(|node| (node, String::new())).collect();
    assert_eq!(plan_images(&many, &backgrounds).len(), MAX_IMAGES_PER_PAGE);
}

#[test]
fn fonts_are_known_by_hint_or_extension() {
    assert!(usable_font("x", &Some("truetype".to_string())));
    assert!(usable_font("x.OTF", &None));
    assert!(usable_font("x.woff", &None) && usable_font("x.woff2", &None));
    assert!(usable_font("x", &Some("woff2".to_string())));
    assert!(usable_font("x", &Some("woff".to_string())));
    assert!(!usable_font("x.eot", &None));
    assert!(!usable_font("x.ttf", &Some("svg".to_string())));
}

#[test]
fn segments_hold_their_place() {
    let offsets = vec![0, 50, 100];
    assert_eq!(frame_segment(&offsets, 0), (0, 0));
    assert_eq!(frame_segment(&offsets, 60), (1, 2));
    assert_eq!(frame_segment(&offsets, 999), (2, 2));
}

#[test]
fn a_started_transition_replaces_the_running_one() {
    let mut animations = Animations::new();
    let transition =
        |property, key| ActiveTransition { node: 4, property, key };
    animations.start_transition(transition(Animated::Color, 1));
    animations.start_transition(transition(Animated::Opacity, 2));
    animations.start_transition(transition(Animated::Color, 3));
    let keys: Vec<u64> = animations.transitions.iter().map(|running| running.key).collect();
    assert_eq!(keys, vec![2, 3]);
    assert!(!animations.start_animation(4, Vec::new(), 0));
}

#[test]
fn ended_transitions_need_no_frame() {
    let mut session = session_on(boxes(), &https("/"));
    for key in [1, 2] {
        session.animations.start_transition(ActiveTransition {
            node: key as NodeId,
            property: Animated::Color,
            key,
        });
    }
    let runs = Progress { running: true, kept: true };
    let ended = Progress { running: false, kept: false };
    assert!(session.tick(&vec![ended, runs], &Vec::new()).any_active);
    let keys: Vec<u64> =
        session.animations.transitions.iter().map(|running| running.key).collect();
    assert_eq!(keys, vec![2]);
    let plan = session.tick(&vec![ended], &Vec::new());
    assert!(!plan.any_active);
    assert_eq!(plan.damaged, vec![2]);
    assert!(session.animations.transitions.is_empty());
    session.note_rasterized();
    let damage = session.repaint_damage();
    let plan = session.tick(&Vec::new(), &Vec::new());
    assert!(!plan.any_active && !plan.full_repaint && plan.damaged.is_empty());
    session.finish_tick(&plan, &Vec::new());
    assert_eq!(session.repaint_damage(), damage);
}

#[test]
fn transitions_follow_what_changed() {
    let red = Color::rgb(255, 0, 0);
    let change = StyleChange {
        opacity: true,
        color: (red, Color::rgb(0, 0, 255)),
        background: (None, None),
        transform: false,
    };
    let names = vec!["color".to_string(), "transform".to_string()];
    assert_eq!(plan_transitions(&names, &change), vec![(0, Animated::Color)]);
    let all = plan_transitions(&vec!["all".to_string()], &change);
    assert_eq!(all, vec![(0, Animated::Opacity), (0, Animated::Color)]);
}

// ---------------------------------------------------------------------------
// What scripts find and change
// ---------------------------------------------------------------------------

fn page() -> Document {
    tree(vec![
        (0, element("body", &[])),
        (1, element("p", &[("id", "one"), ("class", "a b")])),
        (1, NodeKind::Text("t".to_string())),
        (1, element("p", &[("id", "two"), ("onclick", "go()")])),
        (4, element("b", &[("class", "a")])),
    ])
}

#[test]
fn siblings_are_inverse() {
    let document = page();
    for node in [2, 3, 4] {
        if let Some(next) = dom::next_sibling(&document, node) {
            assert_eq!(dom::previous_sibling(&document, next), Some(node));
        }
    }
    assert_eq!(dom::sibling_position(&document, 4), Some((1, 2)));
    assert_eq!(dom::parent_element(&document, 5), Some(4));
    assert_eq!(dom::element_children(&document, 1), vec![2, 4]);
}

#[test]
fn queries_find_what_matches() {
    let document = page();
    assert_eq!(dom::query_selector_all(&document, ".a", None), vec![2, 5]);
    assert_eq!(dom::query_selector_all(&document, " p ", None), vec![2, 4]);
    assert_eq!(dom::query_selector(&document, "p.b", None), Some(2));
    assert_eq!(dom::query_selector_all(&document, "#two", Some(4)), Vec::<NodeId>::new());
    assert_eq!(dom::query_selector_all(&document, ".a", Some(4)), vec![5]);
    assert_eq!(dom::get_elements_by_class_name(&document, "b"), vec![2]);
    assert_eq!(dom::closest(&document, 5, "p"), Some(4));
    assert_eq!(dom::handle_node(Some(&document), 6), Err(()));
    assert_eq!(dom::handle_node(Some(&document), 5), Ok(5));
}

#[test]
fn class_lists_do_what_they_say() {
    assert_eq!(class_add(" a  b ", "c"), "a b c");
    assert_eq!(class_add("a b", "a"), "a b");
    assert_eq!(class_remove("a b a", "a"), "b");
    assert_eq!(class_toggle("a b", "b"), ("a".to_string(), false));
    let (added, on) = class_toggle("a", "b");
    assert!(on && class_contains(&added, "b"));
    assert!(!class_contains("ab", "a"));
}

#[test]
fn styles_read_back_what_was_written() {
    assert_eq!(kebab("backgroundColor"), "background-color");
    assert_eq!(dataset_attribute("userId"), "data-user-id");
    let style = style_set("color: red; top: 1px", "color", "blue");
    assert_eq!(style, "top: 1px; color: blue");
    assert_eq!(style_get(&style, "color"), "blue");
    assert_eq!(style_get(&style, "cssText"), style);
    assert_eq!(style_set(&style, "color", ""), "top: 1px");
    assert_eq!(style_decls(" a : b ;; c"), vec![pair("a", "b")]);
    assert_eq!(style_get("color: red; color: lime", "color"), "lime");
    let written = set_attribute("style.color", "red", "top: 0");
    assert_eq!(written, pair("style", "top: 0; color: red"));
    assert_eq!(set_attribute("id", "x", ""), pair("id", "x"));
}

#[test]
fn rewritten_cookies_do_not_pile_up() {
    assert_eq!(write_cookie("a=1; b=2", "a = 3; Path=/"), "b=2; a = 3");
    assert_eq!(write_cookie("", "a=1"), "a=1");
    assert_eq!(write_cookie("a=1", " ; Path=/"), "a=1");
}

#[test]
fn requests_say_what_scripts_asked_for() {
    let items: Vec<String> = ["A", "1", "B"].iter().map(|item| item.to_string()).collect();
    assert_eq!(pair_headers(&items), vec![pair("A", "1"), pair("B", "")]);
    assert_eq!(xhr_method("pOst"), "POST");
    assert_eq!(xhr_body("GET", &Vec::new(), &Some("x".to_string())), None);
    let headers = vec![pair("content-TYPE", "text/x")];
    assert_eq!(
        xhr_body("PUT", &headers, &Some("ç".to_string())),
        Some(("text/x".to_string(), "ç".as_bytes().to_vec()))
    );
    let (kind, bytes) = xhr_body("POST", &Vec::new(), &None).unwrap();
    assert_eq!((kind.as_str(), bytes.len()), ("text/plain;charset=UTF-8", 0));
    assert!(fetch_credentials(Some("include")));
    assert!(!fetch_credentials(Some("omit")) && !fetch_credentials(None));
    assert_eq!(settle_xhr(Ok("t".to_string())).handler, "onload");
    assert_eq!(settle_xhr(Err(ReadFailure::NotReadable)).status, 0);
    assert_eq!(platform("windows"), "Win32");
    assert_eq!(platform("plan9"), "");
}

// ---------------------------------------------------------------------------
// Events and timers
// ---------------------------------------------------------------------------

fn listener(node: NodeId, event: &str, callback: u64) -> Registration {
    Registration { node, event: event.to_string(), callback, once: false }
}

#[test]
fn removal_is_exact() {
    let mut listeners = Listeners::new();
    listeners.register(listener(2, "click", 1));
    listeners.register(listener(2, "click", 2));
    listeners.register(listener(2, "load", 1));
    listeners.register(listener(3, "click", 1));
    listeners.remove_listener(2, "click", 1);
    let left: Vec<(NodeId, u64)> =
        listeners.list.iter().map(|entry| (entry.node, entry.callback)).collect();
    assert_eq!(left, vec![(2, 2), (2, 1), (3, 1)]);
    assert!(listeners.has_listener(2, "click"));
    listeners.remove_listener(2, "click", 2);
    assert!(!listeners.has_listener(2, "click"));
}

#[test]
fn inline_handlers_follow_their_attribute() {
    let mut handlers = InlineHandlers::new();
    let compiled = |source: &str, callback: Option<u64>| InlineHandler {
        node: 4,
        event: "click".to_string(),
        source: source.to_string(),
        callback,
    };
    handlers.remember(compiled("go()", Some(7)));
    assert_eq!(handlers.cached(4, "click", "go()"), Some(Some(7)));
    assert_eq!(handlers.cached(4, "click", "stop()"), None);
    handlers.remember(compiled("stop()", Some(8)));
    assert_eq!(handlers.cached(4, "click", "stop()"), Some(Some(8)));
    // One that does not parse is known as such, and not compiled again.
    handlers.remember(compiled("go(", None));
    assert_eq!(handlers.cached(4, "click", "go("), Some(None));
    assert_eq!(handlers.list.len(), 1);
    assert_eq!(inline_function("go()"), "(function (event) {\ngo()\n})");
    assert!(has_inline_handlers(&page()) && !has_inline_handlers(&field()));
}

#[test]
fn only_handlers_that_run_handle_an_event() {
    let document = page();
    let mut listeners = Listeners::new();
    // The one handler does not compile: nothing handles the event.
    let mut plan = Dispatch::plan(&document, &listeners, 4, "click");
    assert!(plan.has_handlers());
    plan.skip();
    assert!(plan.next_handler().is_none());
    let outcome = plan.outcome(true);
    assert!(!outcome.handled && !outcome.prevented);
    // A listener behind it does.
    listeners.register(listener(1, "click", 5));
    let mut plan = Dispatch::plan(&document, &listeners, 4, "click");
    plan.skip();
    assert!(matches!(plan.next_handler(), Some((1, Handler::Listener { callback: 5, .. }))));
    plan.ran(false, &mut listeners);
    let outcome = plan.outcome(true);
    assert!(outcome.handled && outcome.prevented);
}

fn timer(id: u64, due: i64, repeats: bool) -> Timer {
    Timer { id, due, repeats, callback: id * 10 }
}

#[test]
fn timers_fire_once_and_intervals_again() {
    let mut timers = Timers::new();
    timers.set(timer(1, 5, false));
    timers.set(timer(2, 3, true));
    timers.set(timer(3, 9, false));
    assert_eq!(timers.due(5), vec![1, 2]);
    assert_eq!(timers.next_due(), Some(3));
    assert_eq!(timers.fire(1, 99), Some(10));
    assert_eq!(timers.fire(1, 99), None);
    assert_eq!(timers.repeats(2), Some(true));
    assert_eq!(timers.fire(2, 8), Some(20));
    assert_eq!(timers.next_due(), Some(8));
    timers.clear(2);
    assert_eq!(timers.fire(2, 8), None);
    timers.clear(3);
    assert!(!timers.has_timers());
    assert_eq!(timers.next_due(), None);
}

// ---------------------------------------------------------------------------
// Loading and jobs
// ---------------------------------------------------------------------------

#[test]
fn every_script_is_scheduled() {
    let entries = vec![
        ScriptEntry::Deferred("d".to_string()),
        ScriptEntry::Now("a".to_string()),
        ScriptEntry::Module { key: "k".to_string(), source: "m".to_string() },
        ScriptEntry::Now("b".to_string()),
    ];
    assert!(needs_world(&entries, None));
    let order: Vec<String> = schedule(entries)
        .into_iter()
        .map(|entry| match entry {
            ScriptEntry::Now(source) | ScriptEntry::Deferred(source) => source,
            ScriptEntry::Module { source, .. } => source,
        })
        .collect();
    assert_eq!(order, vec!["a", "b", "d", "m"]);
    assert!(needs_world(&Vec::new(), Some(&page())));
    assert!(!needs_world(&Vec::new(), Some(&field())));
}

#[test]
fn modules_are_served_and_parsed_once() {
    let mut modules = ModuleSources::new();
    assert!(matches!(modules.import("k"), ImportStep::Missing));
    assert!(matches!(modules.import("k"), ImportStep::Missing));
    assert_eq!(modules.take_misses(), vec!["k"]);
    modules.give_source("k", "source");
    assert!(matches!(modules.import("k"), ImportStep::Parse(source) if source == "source"));
    modules.note_parsed("k");
    assert!(matches!(modules.import("k"), ImportStep::Cached));
    modules.enable_queue_fetch();
    assert!(matches!(modules.import("other"), ImportStep::Fetch));
    assert!(modules.take_misses().is_empty());
}

#[test]
fn deep_module_graphs_give_up() {
    let mut run = ModuleRun::new();
    for _ in 1..MAX_MODULE_ROUNDS {
        assert_eq!(run.step(RoundResult::Fetched), RoundStep::Again);
    }
    assert_eq!(run.step(RoundResult::Fetched), RoundStep::GiveUp);
    assert_eq!(ModuleRun::new().step(RoundResult::ParseError), RoundStep::Done);
    assert_eq!(ModuleRun::new().step(RoundResult::FetchFailed), RoundStep::Done);
}

#[test]
fn drains_end() {
    let mut budget = JobBudget::new();
    let mut rounds = 0;
    while budget.begins(false) {
        budget.ran(3000);
        rounds += 1;
    }
    assert_eq!((rounds, budget.left), (4, 0));
    assert!(!JobBudget::new().begins(true));
    assert_eq!(JobBudget::new().left, MAX_JOBS_PER_TICK);
    assert_eq!(after_round(true, false), JobStep::Again);
    assert_eq!(after_round(false, true), JobStep::Nap);
    assert_eq!(after_round(false, false), JobStep::Stop);
}

#[test]
fn distinct_errors_are_bounded() {
    let mut tally = ErrorTally::new();
    assert_eq!(tally.tally_error("first"), ErrorReport::Print);
    for index in 0..MAX_DISTINCT_ERRORS {
        tally.tally_error(&format!("error {index}"));
    }
    // The tally was reset on the way, so the count begins anew.
    for _ in 0..3 {
        assert_eq!(tally.tally_error("first"), ErrorReport::Print);
    }
    assert_eq!(tally.tally_error("first"), ErrorReport::LastOne);
}

// ---------------------------------------------------------------------------
// Script reads
// ---------------------------------------------------------------------------

#[test]
fn loads_get_ids_of_their_own() {
    let mut queue = NetworkQueue::manual();
    let request = || ResourceRequest { url: other(), body: None, cookie: None };
    let (first, start) = queue.submit(request());
    assert!(matches!(start, Start::Parked));
    let (second, _) = queue.submit(request());
    let (slot, _) = queue.submit_module(request());
    assert!(first != second && second != slot);
    assert!(queue.module_activity());
    assert_eq!(queue.drive().len(), 3);
    queue.module_landed();
    assert!(!queue.module_activity() && queue.drive().is_empty());
    let (_, start) = NetworkQueue::threaded().submit(request());
    assert!(matches!(start, Start::Thread(Task::Fetch { .. })));
}

fn token_call(xhr: u64) -> XhrCall {
    XhrCall {
        method: "GET".to_string(),
        url: "http://a.test:8080/data".to_string(),
        headers: vec![pair("X-Token", "1")],
        body: None,
        with_credentials: false,
        xhr,
    }
}

fn response(text: &str, allowed: Option<&str>) -> Result<ResourceResponse, LoadError> {
    Ok(ResourceResponse {
        final_url: other(),
        text: text.to_string(),
        set_cookies: Vec::new(),
        access_control_allow_origin: allowed.map(str::to_string),
    })
}

#[test]
fn probed_reads_wait_for_their_grant() {
    let mut session = session_on(field(), &https("/"));
    let mut network = NetworkQueue::inline();
    let mut reads = Reads::new();
    let started = reads.start_xhr(&session, &mut network, &token_call(5), Ok(other()));
    let ReadStart::Started(Start::Now(Task::Preflight { id, probe })) = started else {
        panic!("the probe goes first: {started:?}");
    };
    assert_eq!(probe.headers, vec!["x-token"]);
    assert!(reads.has_pending_network());
    let answer = Ok(grant("*", &["get"], &["x-token"]));
    let step = reads.answer_probe(&mut session, &mut network, id, answer);
    let ProbeStep::Resubmitted(Start::Now(Task::Fetch { id, .. })) = step else {
        panic!("the request goes out: {step:?}");
    };
    let settled = reads.complete(&mut session, id, response("body", Some("*")));
    assert!(matches!(settled, Some((SettleTarget::Xhr(5), Ok(text))) if text == "body"));
    assert!(!reads.has_pending_network());
    // The grant is remembered.
    let started = reads.start_xhr(&session, &mut network, &token_call(6), Ok(other()));
    assert!(matches!(started, ReadStart::Started(Start::Now(Task::Fetch { .. }))));
}

#[test]
fn refused_probes_and_unreadable_responses_fail() {
    let mut session = session_on(field(), &https("/"));
    let mut network = NetworkQueue::inline();
    let mut reads = Reads::new();
    let started = reads.start_xhr(&session, &mut network, &token_call(1), Ok(other()));
    let ReadStart::Started(Start::Now(Task::Preflight { id, .. })) = started else {
        panic!("the probe goes first: {started:?}");
    };
    let refused = Ok(grant("*", &["get"], &[]));
    let step = reads.answer_probe(&mut session, &mut network, id, refused);
    let ProbeStep::Settled(SettleTarget::Xhr(1), failure) = step else {
        panic!("the read fails: {step:?}");
    };
    assert_eq!(failure.message(), "CORS preflight refused the request");
    let unknown = reads.answer_probe(&mut session, &mut network, id, Ok(grant("*", &[], &[])));
    assert!(matches!(unknown, ProbeStep::Unknown));
    let call = FetchCall { target: String::new(), with_credentials: false, settle: 2 };
    let started = reads.start_fetch(&session, &mut network, &call, Ok(other()));
    let ReadStart::Started(Start::Now(Task::Fetch { id, .. })) = started else {
        panic!("a plain read goes out: {started:?}");
    };
    let settled = reads.complete(&mut session, id, response("secret", None));
    let Some((SettleTarget::Fetch(2), Err(failure))) = settled else {
        panic!("not readable: {settled:?}");
    };
    assert_eq!(failure.message(), "CORS: cross-origin response is not readable by this page");
    assert!(reads.complete(&mut session, id, response("secret", None)).is_none());
}

#[test]
fn reads_fail_at_once_where_they_cannot_go_out() {
    let mut network = NetworkQueue::inline();
    let mut reads = Reads::new();
    let call = FetchCall { target: String::new(), with_credentials: false, settle: 0 };
    let failed = reads.start_fetch(&Session::new(), &mut network, &call, Ok(other()));
    assert!(matches!(failed, ReadStart::Failed(ReadFailure::NoPage)));
    let session = session_on(field(), &https("/"));
    let failed = reads.start_fetch(&session, &mut network, &call, Err("bad".to_string()));
    assert!(matches!(failed, ReadStart::Failed(ReadFailure::BadTarget(text)) if text == "bad"));
    let file = url("file", "", None, "/x");
    let failed = reads.start_fetch(&session, &mut network, &call, Ok(file));
    assert!(matches!(failed, ReadStart::Failed(ReadFailure::Load(_))));
    assert_eq!(ReadFailure::NoPage.message(), "no page");
}

// ---------------------------------------------------------------------------
// Entries
// ---------------------------------------------------------------------------

#[test]
fn idle_entries_change_nothing() {
    let mut session = session_on(field(), &https("/"));
    session.note_rasterized();
    session.cookies.store(&https("/"), "h=1; HttpOnly");
    session.cookies.store(&https("/"), "s=2");
    let (mut page, mut bridge) = (PageScripts::new(), Bridge::new());
    let mut storage = WebStorage::new(true);
    page.check_in(&mut bridge, &session, StringMap::new());
    assert_eq!(bridge.cookie_header, "s=2");
    assert!(page.check_out(&mut bridge, &mut session, &mut storage).is_none());
    assert_eq!(session.repaint_damage(), RepaintDamage::Region(None));
    assert_eq!((session.history_len(), session.cookies.cookies.len()), (1, 2));
    assert!(page.take_navigation().is_none() && page.take_focus_request().is_none());
}

#[test]
fn entries_collect_what_scripts_asked_for() {
    let mut session = session_on(field(), &https("/"));
    let (mut page, mut bridge) = (PageScripts::new(), Bridge::new());
    let mut storage = WebStorage::new(true);
    page.check_in(&mut bridge, &session, StringMap::new());
    bridge.session_set("k".to_string(), "v".to_string());
    bridge.local_set("l".to_string(), "w".to_string());
    bridge.set_cookie("c=1".to_string());
    bridge.request_focus(Some(2));
    bridge.traverse(-1);
    bridge.mark_dirty();
    assert!(!bridge.update_history(Some(other()), None, false));
    let write = page.check_out(&mut bridge, &mut session, &mut storage).unwrap();
    assert_eq!((write.origin.as_str(), write.text.as_str()), ("https://a.test", "{\"l\":\"w\"}"));
    assert_eq!(page.take_navigation().as_deref(), Some("::back"));
    assert_eq!(page.take_focus_request(), Some(Some(2)));
    assert_eq!(session.repaint_damage(), RepaintDamage::Full);
    assert_eq!(session.cookies.header_for(&https("/")).as_deref(), Some("c=1"));
    // sessionStorage is there at the next entry.
    page.check_in(&mut bridge, &session, StringMap::new());
    assert_eq!(bridge.session_get("k").as_deref(), Some("v"));
    assert_eq!(bridge.local_get("l"), None);
}

#[test]
fn history_stays_on_its_origin() {
    let session = session_on(field(), &https("/"));
    let (mut page, mut bridge) = (PageScripts::new(), Bridge::new());
    page.check_in(&mut bridge, &session, StringMap::new());
    assert!(!bridge.update_history(Some(other()), None, true));
    assert!(!bridge.update_history(None, None, true));
    assert!(bridge.update_history(Some(https("/yeni")), Some("1".to_string()), false));
    assert_eq!(bridge.history_length, 2);
    assert!(!Bridge::new().update_history(Some(https("/")), None, true));
}

#[test]
fn pumps_end() {
    let mut page = PageScripts::new();
    let call = FetchCall { target: "/x".to_string(), with_credentials: false, settle: 0 };
    page.pending_fetches.push(call);
    assert!(page.pump_again(1, true));
    assert!(!page.pump_again(1, false));
    assert_eq!(page.pending_fetches.len(), 1);
    assert!(!page.pump_again(MAX_PUMP_ROUNDS, true));
    assert!(page.pending_fetches.is_empty());
}

#[test]
fn rounds_settle_fetches_before_xhrs_and_lose_no_read() {
    let mut session = session_on(field(), &https("/"));
    let mut network = NetworkQueue::inline();
    let mut reads = Reads::new();
    let mut round = Round::new();
    let fetch = |settle| FetchCall { target: String::new(), with_credentials: false, settle };
    let starts = round.start(
        &mut reads,
        &session,
        &mut network,
        vec![(fetch(1), Ok(other())), (fetch(2), Err("no URL".to_string()))],
        vec![(token_call(3), Ok(other())), (token_call(4), Err("bad".to_string()))],
    );
    let [Start::Now(Task::Fetch { id: fetched, .. }), Start::Now(Task::Preflight { id, .. })] =
        &starts[..]
    else {
        panic!("a load and a probe: {starts:?}");
    };
    // Two reads wait, two have failed.
    assert_eq!((reads.in_flight.len(), reads.preflights.len()), (1, 1));
    assert_eq!((round.fetches.len(), round.xhrs.len()), (1, 1));
    let answers = vec![(*id, Ok(grant("*", &["get"], &["x-token"]))), (99, Ok(grant("*", &[], &[])))];
    let resent = round.answer(&mut reads, &mut session, &mut network, answers);
    let [Start::Now(Task::Fetch { id: sent, .. })] = &resent[..] else {
        panic!("the probed read goes out: {resent:?}");
    };
    let landed = vec![
        (*sent, response("xhr", Some("*"))),
        (*fetched, response("fetch", Some("*"))),
        (77, response("nobody", Some("*"))),
    ];
    round.complete(&mut reads, &mut session, landed);
    assert!(!reads.has_pending_network());
    let settled = round.finish();
    let targets: Vec<SettleTarget> = settled.iter().map(|settlement| settlement.0).collect();
    assert_eq!(
        targets,
        [SettleTarget::Fetch(2), SettleTarget::Fetch(1), SettleTarget::Xhr(4), SettleTarget::Xhr(3)]
    );
    assert!(matches!(&settled[0].1, Err(failure) if failure.message() == "no URL"));
    assert!(matches!(&settled[1].1, Ok(text) if text == "fetch"));
    assert!(matches!(&settled[3].1, Ok(text) if text == "xhr"));
}

#[test]
fn document_changes_read_back() {
    let mut page = field();
    let root = page.root();
    let first = page.create_element("P");
    let second = page.create_element("span");
    assert!(page.is_tag(first, "p") && page.nodes[first].parent.is_none());
    page.insert_before(root, first, None);
    page.insert_before(root, second, Some(first));
    let kids = page.children(root);
    let at = kids.iter().position(|node| *node == second).unwrap();
    assert_eq!(kids[at + 1], first);
    assert_eq!(kids.last(), Some(&first));
    // A node does not move into what it holds, nor into itself.
    page.insert_before(second, first, None);
    page.insert_before(first, second, None);
    page.insert_before(first, first, None);
    assert_eq!(dom::parent_node(&page, first), Some(second));
    assert_eq!(dom::parent_node(&page, second), Some(root));
    page.set_attribute(first, "id", "a");
    page.set_attribute(first, "class", "c");
    page.set_attribute(first, "id", "b");
    assert_eq!(page.attribute(first, "id").unwrap(), "b");
    assert_eq!(page.attribute(first, "class").unwrap(), "c");
    page.set_text_content(second, "one");
    assert_eq!(page.text_content(second), "one");
    assert_eq!(dom::parent_node(&page, first), None);
    page.set_text_content(second, "two");
    assert_eq!(page.text_content(second), "two");
    page.detach(second);
    assert!(!page.children(root).contains(&second));
    // Numbers that are no node change nothing.
    let before = page.nodes.len();
    page.set_attribute(999, "id", "x");
    page.set_text_content(999, "x");
    page.detach(999);
    page.insert_before(999, first, None);
    assert_eq!(page.nodes.len(), before);
}
