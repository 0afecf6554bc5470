//! The names that selectors are made of: the pseudo-classes the engine can
//! answer and the pseudo-elements it styles.
use crate::text;
use vstd::prelude::*;

verus! {

/// An owned identifier/string inside a parsed selector (tag, class, id,
/// attribute name/value).
#[derive(Debug, PartialEq, Eq, Hash)]
pub struct Ident(pub String);

impl Clone for Ident {
    fn clone(&self) -> (r: Ident)
        ensures
            r == *self,
    {
        Ident(self.0.clone())
    }
}

impl Ident {
    pub fn as_str(&self) -> (r: &str)
        ensures
            r@ == self.0@,
    {
        self.0.as_str()
    }
}

/// The selector vocabulary: plain owned strings, no namespaces, the
/// pseudo-class and pseudo-element sets of this module.
#[derive(Debug, Clone, Copy, PartialEq, Eq, Hash)]
pub struct Selectors;

/// The non-tree-structural pseudo-classes the engine can match.
#[derive(Debug, Clone, Copy, PartialEq, Eq, Hash, Structural)]
pub enum PseudoClass {
    /// Matches the engine's hover chain.
    Hover,
    /// Matches while the pointer is pressed on the element (chain).
    Active,
    /// Matches the focused element.
    Focus,
    /// Matches the focused element's chain.
    FocusWithin,
    /// Unvisited link (element with `href` not in the visited set).
    Link,
    /// Visited link (engine's visited set).
    Visited,
    /// Form control without a `disabled` attribute.
    Enabled,
    /// Form control with a `disabled` attribute.
    Disabled,
    /// Checked checkbox/radio (state supplied by the shell).
    Checked,
}

/// The pseudo-elements the engine generates/styles.
#[derive(Debug, Clone, Copy, PartialEq, Eq, Hash, Structural)]
pub enum PseudoElement {
    Before,
    After,
    /// Rules with `::selection` style the selection overlay of the
    /// matched element, not the element itself.
    Selection,
    /// `::first-letter`: styles the first letter of the matched block.
    FirstLetter,
    /// `::first-line`: styles the first formatted line of the block.
    FirstLine,
}

/// The pseudo-class that a name stands for; `focus-visible` counts as
/// `focus`.
pub open spec fn pseudo_class(name: Seq<char>) -> Option<PseudoClass> {
    if text::eq_ci(name, "hover"@) {
        Some(PseudoClass::Hover)
    } else if text::eq_ci(name, "active"@) {
        Some(PseudoClass::Active)
    } else if text::eq_ci(name, "focus"@) || text::eq_ci(name, "focus-visible"@) {
        Some(PseudoClass::Focus)
    } else if text::eq_ci(name, "focus-within"@) {
        Some(PseudoClass::FocusWithin)
    } else if text::eq_ci(name, "link"@) {
        Some(PseudoClass::Link)
    } else if text::eq_ci(name, "visited"@) {
        Some(PseudoClass::Visited)
    } else if text::eq_ci(name, "enabled"@) {
        Some(PseudoClass::Enabled)
    } else if text::eq_ci(name, "disabled"@) {
        Some(PseudoClass::Disabled)
    } else if text::eq_ci(name, "checked"@) {
        Some(PseudoClass::Checked)
    } else {
        None
    }
}

/// The pseudo-element that a name stands for.
pub open spec fn pseudo_element(name: Seq<char>) -> Option<PseudoElement> {
    if text::eq_ci(name, "before"@) {
        Some(PseudoElement::Before)
    } else if text::eq_ci(name, "after"@) {
        Some(PseudoElement::After)
    } else if text::eq_ci(name, "selection"@) {
        Some(PseudoElement::Selection)
    } else if text::eq_ci(name, "first-letter"@) {
        Some(PseudoElement::FirstLetter)
    } else if text::eq_ci(name, "first-line"@) {
        Some(PseudoElement::FirstLine)
    } else {
        None
    }
}

pub open spec fn class_name(class: PseudoClass) -> Seq<char> {
    match class {
        PseudoClass::Hover => "hover"@,
        PseudoClass::Active => "active"@,
        PseudoClass::Focus => "focus"@,
        PseudoClass::FocusWithin => "focus-within"@,
        PseudoClass::Link => "link"@,
        PseudoClass::Visited => "visited"@,
        PseudoClass::Enabled => "enabled"@,
        PseudoClass::Disabled => "disabled"@,
        PseudoClass::Checked => "checked"@,
    }
}

pub open spec fn element_name(element: PseudoElement) -> Seq<char> {
    match element {
        PseudoElement::Before => "before"@,
        PseudoElement::After => "after"@,
        PseudoElement::Selection => "selection"@,
        PseudoElement::FirstLetter => "first-letter"@,
        PseudoElement::FirstLine => "first-line"@,
    }
}

impl PseudoClass {
    /// Reads a pseudo-class name in any case; `None` where it is unsupported.
    pub fn parse(name: &str) -> (r: Option<PseudoClass>)
        ensures
            r == pseudo_class(name@),
    {
        let chars = text::chars_of(name);
        let n = chars.as_slice();
        if text::is_word_ci(n, "hover") {
            Some(PseudoClass::Hover)
        } else if text::is_word_ci(n, "active") {
            Some(PseudoClass::Active)
        } else if text::is_word_ci(n, "focus") || text::is_word_ci(n, "focus-visible") {
            Some(PseudoClass::Focus)
        } else if text::is_word_ci(n, "focus-within") {
            Some(PseudoClass::FocusWithin)
        } else if text::is_word_ci(n, "link") {
            Some(PseudoClass::Link)
        } else if text::is_word_ci(n, "visited") {
            Some(PseudoClass::Visited)
        } else if text::is_word_ci(n, "enabled") {
            Some(PseudoClass::Enabled)
        } else if text::is_word_ci(n, "disabled") {
            Some(PseudoClass::Disabled)
        } else if text::is_word_ci(n, "checked") {
            Some(PseudoClass::Checked)
        } else {
            None
        }
    }

    /// The name that writes the pseudo-class.
    pub fn name(&self) -> (r: &'static str)
        ensures
            r@ == class_name(*self),
    {
        match self {
            PseudoClass::Hover => "hover",
            PseudoClass::Active => "active",
            PseudoClass::Focus => "focus",
            PseudoClass::FocusWithin => "focus-within",
            PseudoClass::Link => "link",
            PseudoClass::Visited => "visited",
            PseudoClass::Enabled => "enabled",
            PseudoClass::Disabled => "disabled",
            PseudoClass::Checked => "checked",
        }
    }

    pub fn is_active_or_hover(&self) -> (r: bool)
        ensures
            r == (*self == PseudoClass::Active || *self == PseudoClass::Hover),
    {
        match self {
            PseudoClass::Active | PseudoClass::Hover => true,
            _ => false,
        }
    }

    pub fn is_user_action_state(&self) -> (r: bool)
        ensures
            r == (*self == PseudoClass::Active || *self == PseudoClass::Hover || *self
                == PseudoClass::Focus || *self == PseudoClass::FocusWithin),
    {
        match self {
            PseudoClass::Active
            | PseudoClass::Hover
            | PseudoClass::Focus
            | PseudoClass::FocusWithin => true,
            _ => false,
        }
    }
}

impl PseudoElement {
    /// Reads a pseudo-element name in any case; `None` where it is
    /// unsupported.
    pub fn parse(name: &str) -> (r: Option<PseudoElement>)
        ensures
            r == pseudo_element(name@),
    {
        let chars = text::chars_of(name);
        let n = chars.as_slice();
        if text::is_word_ci(n, "before") {
            Some(PseudoElement::Before)
        } else if text::is_word_ci(n, "after") {
            Some(PseudoElement::After)
        } else if text::is_word_ci(n, "selection") {
            Some(PseudoElement::Selection)
        } else if text::is_word_ci(n, "first-letter") {
            Some(PseudoElement::FirstLetter)
        } else if text::is_word_ci(n, "first-line") {
            Some(PseudoElement::FirstLine)
        } else {
            None
        }
    }

    /// The name that writes the pseudo-element, without its colons.
    pub fn name(&self) -> (r: &'static str)
        ensures
            r@ == element_name(*self),
    {
        match self {
            PseudoElement::Before => "before",
            PseudoElement::After => "after",
            PseudoElement::Selection => "selection",
            PseudoElement::FirstLetter => "first-letter",
            PseudoElement::FirstLine => "first-line",
        }
    }
}

proof fn lemma_differ(a: Seq<char>, b: Seq<char>)
    requires
        a.len() != b.len() || exists|i: int|
            0 <= i < a.len() && text::lower(#[trigger] a[i]) != text::lower(b[i]),
    ensures
        !text::eq_ci(a, b),
{
    if a.len() != b.len() {
        assert(text::lowered(a).len() != text::lowered(b).len());
    } else {
        let i = choose|i: int|
            0 <= i < a.len() && text::lower(#[trigger] a[i]) != text::lower(b[i]);
        assert(text::lowered(a)[i] != text::lowered(b)[i]);
    }
}

/// Reading what a pseudo-class or pseudo-element writes gives it back.
pub proof fn law_pseudo_names_round_trip(class: PseudoClass, element: PseudoElement)
    ensures
        pseudo_class(class_name(class)) == Some(class),
        pseudo_element(element_name(element)) == Some(element),
{
    reveal_strlit("hover");
    reveal_strlit("active");
    reveal_strlit("focus");
    reveal_strlit("focus-visible");
    reveal_strlit("focus-within");
    reveal_strlit("link");
    reveal_strlit("visited");
    reveal_strlit("enabled");
    reveal_strlit("disabled");
    reveal_strlit("checked");
    reveal_strlit("before");
    reveal_strlit("after");
    reveal_strlit("selection");
    reveal_strlit("first-letter");
    reveal_strlit("first-line");
    let n = class_name(class);
    if class != PseudoClass::Hover {
        if n.len() == "hover"@.len() {
            assert(text::lower(n[0]) != text::lower("hover"@[0]));
        }
        lemma_differ(n, "hover"@);
        if class != PseudoClass::Active {
            lemma_differ(n, "active"@);
            if class != PseudoClass::Focus {
                lemma_differ(n, "focus"@);
                if n.len() == "focus-visible"@.len() {
                    assert(text::lower(n[6]) != text::lower("focus-visible"@[6]));
                }
                lemma_differ(n, "focus-visible"@);
                if class != PseudoClass::FocusWithin {
                    lemma_differ(n, "focus-within"@);
                    if class != PseudoClass::Link {
                        lemma_differ(n, "link"@);
                        if class != PseudoClass::Visited {
                            assert(n.len() == 7 ==> text::lower(n[0]) != text::lower(
                                "visited"@[0],
                            ));
                            lemma_differ(n, "visited"@);
                            if class != PseudoClass::Enabled {
                                assert(n.len() == 7 ==> text::lower(n[0]) != text::lower(
                                    "enabled"@[0],
                                ));
                                lemma_differ(n, "enabled"@);
                                if class != PseudoClass::Disabled {
                                    lemma_differ(n, "disabled"@);
                                }
                            }
                        }
                    }
                }
            }
        }
    }
    let e = element_name(element);
    if element != PseudoElement::Before {
        lemma_differ(e, "before"@);
        if element != PseudoElement::After {
            lemma_differ(e, "after"@);
            if element != PseudoElement::Selection {
                lemma_differ(e, "selection"@);
                if element != PseudoElement::FirstLetter {
                    lemma_differ(e, "first-letter"@);
                }
            }
        }
    }
}

// ---------------------------------------------------------------------------
// What the names stand for
// ---------------------------------------------------------------------------
/// Each pseudo-class has its name, in any case; `focus-visible` is a second
/// name of `focus`, and no other name is one.
#[verifier::rlimit(40)]
pub proof fn law_pseudo_classes_go_by_name(name: Seq<char>)
    ensures
        text::lowered(name) == "hover"@ ==> pseudo_class(name) == Some(PseudoClass::Hover),
        text::lowered(name) == "active"@ ==> pseudo_class(name) == Some(PseudoClass::Active),
        text::lowered(name) == "focus"@ ==> pseudo_class(name) == Some(PseudoClass::Focus),
        text::lowered(name) == "focus-visible"@ ==> pseudo_class(name) == Some(PseudoClass::Focus),
        text::lowered(name) == "focus-within"@ ==> pseudo_class(name) == Some(PseudoClass::FocusWithin),
        text::lowered(name) == "link"@ ==> pseudo_class(name) == Some(PseudoClass::Link),
        text::lowered(name) == "visited"@ ==> pseudo_class(name) == Some(PseudoClass::Visited),
        text::lowered(name) == "enabled"@ ==> pseudo_class(name) == Some(PseudoClass::Enabled),
        text::lowered(name) == "disabled"@ ==> pseudo_class(name) == Some(PseudoClass::Disabled),
        text::lowered(name) == "checked"@ ==> pseudo_class(name) == Some(PseudoClass::Checked),
        pseudo_class(name) is Some ==> text::lowered(name) == "hover"@ || text::lowered(name) == "active"@ || text::lowered(name) == "focus"@ || text::lowered(name) == "focus-visible"@ || text::lowered(name) == "focus-within"@ || text::lowered(name) == "link"@ || text::lowered(name) == "visited"@ || text::lowered(name) == "enabled"@ || text::lowered(name) == "disabled"@ || text::lowered(name) == "checked"@,
{
    reveal_strlit("hover");
    reveal_strlit("active");
    reveal_strlit("focus");
    reveal_strlit("focus-visible");
    reveal_strlit("focus-within");
    reveal_strlit("link");
    reveal_strlit("visited");
    reveal_strlit("enabled");
    reveal_strlit("disabled");
    reveal_strlit("checked");
    assert("hover"@.len() == 5);
    assert("active"@.len() == 6);
    assert("focus"@.len() == 5);
    assert("focus-visible"@.len() == 13);
    assert("focus-within"@.len() == 12);
    assert("link"@.len() == 4);
    assert("visited"@.len() == 7);
    assert("enabled"@.len() == 7);
    assert("disabled"@.len() == 8);
    assert("checked"@.len() == 7);
    assert("hover"@[0] == 'h');
    assert("focus"@[0] == 'f');
    assert("visited"@[0] == 'v');
    assert("enabled"@[0] == 'e');
    assert("checked"@[0] == 'c');
    assert(text::lowered("hover"@) =~= "hover"@);
    assert(text::lowered("active"@) =~= "active"@);
    assert(text::lowered("focus"@) =~= "focus"@);
    assert(text::lowered("focus-visible"@) =~= "focus-visible"@);
    assert(text::lowered("focus-within"@) =~= "focus-within"@);
    assert(text::lowered("link"@) =~= "link"@);
    assert(text::lowered("visited"@) =~= "visited"@);
    assert(text::lowered("enabled"@) =~= "enabled"@);
    assert(text::lowered("disabled"@) =~= "disabled"@);
    assert(text::lowered("checked"@) =~= "checked"@);
}

/// Each pseudo-element has its name, in any case, and no other name is one.
#[verifier::rlimit(40)]
pub proof fn law_pseudo_elements_go_by_name(name: Seq<char>)
    ensures
        text::lowered(name) == "before"@ ==> pseudo_element(name) == Some(PseudoElement::Before),
        text::lowered(name) == "after"@ ==> pseudo_element(name) == Some(PseudoElement::After),
        text::lowered(name) == "selection"@ ==> pseudo_element(name) == Some(PseudoElement::Selection),
        text::lowered(name) == "first-letter"@ ==> pseudo_element(name) == Some(PseudoElement::FirstLetter),
        text::lowered(name) == "first-line"@ ==> pseudo_element(name) == Some(PseudoElement::FirstLine),
        pseudo_element(name) is Some ==> text::lowered(name) == "before"@ || text::lowered(name) == "after"@ || text::lowered(name) == "selection"@ || text::lowered(name) == "first-letter"@ || text::lowered(name) == "first-line"@,
{
    reveal_strlit("before");
    reveal_strlit("after");
    reveal_strlit("selection");
    reveal_strlit("first-letter");
    reveal_strlit("first-line");
    assert("before"@.len() == 6);
    assert("after"@.len() == 5);
    assert("selection"@.len() == 9);
    assert("first-letter"@.len() == 12);
    assert("first-line"@.len() == 10);
    assert(text::lowered("before"@) =~= "before"@);
    assert(text::lowered("after"@) =~= "after"@);
    assert(text::lowered("selection"@) =~= "selection"@);
    assert(text::lowered("first-letter"@) =~= "first-letter"@);
    assert(text::lowered("first-line"@) =~= "first-line"@);
}

} // verus!
