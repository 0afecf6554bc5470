//! The form controls of a session's page: live values, checkables, selects,
//! and the editing of the focused text control.
use crate::browser::damage::RepaintDamage;
use crate::browser::document::{self, DocumentModel, NodeId};
use crate::browser::editor::{self, BufferModel, EditOp, EditResult, TextBuffer, TextEdit};
use crate::browser::forms::{self, FormModel, FormViolation, Submission, SubmissionModel};
use crate::browser::history::{self, LoadError, LoadErrorModel};
use crate::browser::mutation;
use crate::browser::session::{self, EditModel, Session, SessionModel};
use crate::text;
use vstd::prelude::*;
use vstd::slice::slice_subrange;

verus! {

/// What a control's node shows now.
#[derive(Debug, PartialEq, Eq)]
pub enum TextUpdate {
    /// The node's own text (a textarea).
    Content(String),
    /// The generated value text of an input.
    Generated(String),
}

pub enum TextUpdateModel {
    Content(Seq<char>),
    Generated(Seq<char>),
}

impl View for TextUpdate {
    type V = TextUpdateModel;

    open spec fn view(&self) -> TextUpdateModel {
        match self {
            TextUpdate::Content(s) => TextUpdateModel::Content(s@),
            TextUpdate::Generated(s) => TextUpdateModel::Generated(s@),
        }
    }
}

pub open spec fn opt_update(update: Option<TextUpdate>) -> Option<TextUpdateModel> {
    match update {
        Some(u) => Some(u@),
        None => None,
    }
}

/// What a control shows for a value.
pub open spec fn shown(doc: DocumentModel, node: NodeId, value: Seq<char>) -> TextUpdateModel {
    if document::has_tag(doc, node, "textarea"@) {
        TextUpdateModel::Content(value)
    } else {
        TextUpdateModel::Generated(forms::control_display(doc, node, value))
    }
}

/// The value of a control as scripts read it: the live one, else the `value`
/// attribute.
pub open spec fn script_value_of(doc: DocumentModel, f: FormModel, node: NodeId) -> Seq<char> {
    if f.values.contains_key(node) {
        f.values[node]
    } else {
        match document::attribute_at(doc, node, "value"@) {
            Some(value) => value,
            None => Seq::empty(),
        }
    }
}

/// What a control shows for a value that a script set: a lone space keeps the
/// line box of an emptied one alive.
pub open spec fn script_shown(doc: DocumentModel, node: NodeId, value: Seq<char>) -> TextUpdateModel {
    if document::has_tag(doc, node, "textarea"@) {
        TextUpdateModel::Content(value)
    } else if value.len() == 0 {
        TextUpdateModel::Generated(" "@)
    } else {
        TextUpdateModel::Generated(value)
    }
}

/// The session with a live value; the page is laid out again.
pub open spec fn with_value(s: SessionModel, node: NodeId, value: Seq<char>) -> SessionModel {
    SessionModel {
        forms: FormModel { values: s.forms.values.insert(node, value), ..s.forms },
        repaint_damage: RepaintDamage::Full,
        ..s
    }
}

pub open spec fn with_checked(s: SessionModel, checked: Option<Map<NodeId, bool>>) -> SessionModel {
    match checked {
        Some(checked) => SessionModel {
            forms: FormModel { checked, ..s.forms },
            repaint_damage: RepaintDamage::Full,
            ..s
        },
        None => s,
    }
}

pub open spec fn submit_result(r: Result<Submission, LoadError>) -> Result<
    SubmissionModel,
    LoadErrorModel,
> {
    match r {
        Ok(s) => Ok(s@),
        Err(e) => Err(e@),
    }
}

/// What a submit attempt comes to.
pub open spec fn submitted(s: SessionModel, node: NodeId) -> Result<SubmissionModel, LoadErrorModel> {
    if s.history.current() is None {
        Err(history::no_page())
    } else if s.page is None {
        Err(LoadErrorModel::InvalidUrl("no page"@))
    } else if forms::form_around(s.document(), node) is None {
        Err(LoadErrorModel::InvalidUrl("no enclosing form"@))
    } else {
        Ok(forms::submission_model(s.document(), s.forms, node))
    }
}

impl Session {
    /// The current value of a form control (live edits over the parsed
    /// attribute/placeholder).
    pub fn form_value(&self, node: NodeId) -> (r: String)
        ensures
            r@ == forms::value_of(self@.document(), self@.forms, node),
    {
        let empty = session::no_document();
        match &self.page {
            Some(doc) => self.forms.form_value(doc, node),
            None => self.forms.form_value(&empty, node),
        }
    }

    /// Whether a node is a multiline textarea.
    pub fn is_textarea(&self, node: NodeId) -> (r: bool)
        ensures
            r == document::has_tag(self@.document(), node, "textarea"@),
    {
        let empty = session::no_document();
        match &self.page {
            Some(doc) => forms::is_textarea(doc, node),
            None => forms::is_textarea(&empty, node),
        }
    }

    /// Whether a node is an editable text-ish input.
    pub fn is_text_input(&self, node: NodeId) -> (r: bool)
        ensures
            r == forms::text_input_at(self@.document(), node),
    {
        let empty = session::no_document();
        match &self.page {
            Some(doc) => forms::is_text_input(doc, node),
            None => forms::is_text_input(&empty, node),
        }
    }

    /// Whether a node is an `<input type=number>` (arrow keys step it).
    pub fn is_number_input(&self, node: NodeId) -> (r: bool)
        ensures
            r == forms::number_input_at(self@.document(), node),
    {
        let empty = session::no_document();
        match &self.page {
            Some(doc) => forms::is_number_input(doc, node),
            None => forms::is_number_input(&empty, node),
        }
    }

    /// Whether a select allows multiple selections (rendered inline as a
    /// list box instead of a dropdown).
    pub fn is_multiple_select(&self, node: NodeId) -> (r: bool)
        ensures
            r == (document::has_tag(self@.document(), node, "select"@) && document::attribute_at(
                self@.document(),
                node,
                "multiple"@,
            ) is Some),
    {
        let empty = session::no_document();
        match &self.page {
            Some(doc) => forms::is_multiple_select(doc, node),
            None => forms::is_multiple_select(&empty, node),
        }
    }

    /// A select's options as (value, label) pairs (optgroups flattened),
    /// plus the index of the currently selected one.
    pub fn select_options(&self, node: NodeId) -> (r: (Vec<(String, String)>, usize))
        ensures
            document::pair_models(r.0@) == forms::option_pairs(
                self@.document(),
                forms::options_of(self@.document(), node),
            ),
            r.1 == forms::selected_place(self@.document(), self@.forms, node),
    {
        let empty = session::no_document();
        match &self.page {
            Some(doc) => self.forms.select_options(doc, node),
            None => self.forms.select_options(&empty, node),
        }
    }

    /// Whether an option is currently selected (live toggles win over the
    /// parsed `selected` attribute).
    pub fn option_selected(&self, option: NodeId) -> (r: bool)
        ensures
            r == forms::selected_at(self@.document(), self@.forms, option),
    {
        let empty = session::no_document();
        match &self.page {
            Some(doc) => self.forms.option_selected(doc, option),
            None => self.forms.option_selected(&empty, option),
        }
    }

    /// Whether a checkbox/radio is currently checked.
    pub fn is_checked(&self, node: NodeId) -> (r: bool)
        ensures
            r == forms::checked_at(self@.document(), self@.forms, node),
    {
        let empty = session::no_document();
        match &self.page {
            Some(doc) => self.forms.is_checked(doc, node),
            None => self.forms.is_checked(&empty, node),
        }
    }

    /// Clicks an option in a multiple select: a plain click selects just
    /// that option, a toggling click (Cmd/Ctrl) flips it and keeps the
    /// rest. Returns whether the select has that option: the page is then laid
    /// out again, also where it was selected already.
    pub fn click_option(&mut self, select: NodeId, option: NodeId, toggle: bool) -> (r: bool)
        ensures
            r == (forms::option_clicked(
                old(self)@.document(),
                old(self)@.forms,
                select,
                option,
                toggle,
            ) is Some),
            final(self)@ == with_checked(
                old(self)@,
                forms::option_clicked(
                    old(self)@.document(),
                    old(self)@.forms,
                    select,
                    option,
                    toggle,
                ),
            ),
    {
        let empty = session::no_document();
        let doc = match &self.page {
            Some(doc) => doc,
            None => &empty,
        };
        let known = self.forms.click_option(doc, select, option, toggle);
        if known {
            self.repaint_damage = RepaintDamage::Full;
        }
        known
    }

    /// Toggles a checkbox (or selects a radio, clearing its name group).
    /// Returns whether anything changed (the page is then laid out again).
    pub fn toggle_checkable(&mut self, node: NodeId) -> (r: bool)
        ensures
            r == forms::toggle_changes(old(self)@.document(), old(self)@.forms, node),
            final(self)@ == (SessionModel {
                forms: forms::after_toggle(old(self)@.document(), old(self)@.forms, node),
                repaint_damage: if r {
                    RepaintDamage::Full
                } else {
                    old(self)@.repaint_damage
                },
                ..old(self)@
            }),
    {
        let empty = session::no_document();
        let doc = match &self.page {
            Some(doc) => doc,
            None => &empty,
        };
        let changed = self.forms.toggle_checkable(doc, node);
        if changed {
            self.repaint_damage = RepaintDamage::Full;
        }
        changed
    }

    /// Selects an option by index: the live value and the displayed label
    /// both update. Gives the label to show, if there is such an option.
    pub fn set_selected_option(&mut self, node: NodeId, index: usize) -> (r: Option<String>)
        ensures
            ({
                let doc = old(self)@.document();
                let options = forms::options_of(doc, node);
                if index < options.len() {
                    &&& text::opt_text(r) == Some(forms::option_label(doc, options[index as int]))
                    &&& final(self)@ == with_value(
                        old(self)@,
                        node,
                        forms::option_value_model(doc, options[index as int]),
                    )
                } else {
                    r is None && final(self)@ == old(self)@
                }
            }),
    {
        let empty = session::no_document();
        let doc = match &self.page {
            Some(doc) => doc,
            None => &empty,
        };
        let label = self.forms.set_selected_option(doc, node, index);
        if label.is_some() {
            self.repaint_damage = RepaintDamage::Full;
        }
        label
    }

    /// Sets a text control's live value. Gives what the control shows now.
    pub fn set_form_value(&mut self, node: NodeId, value: &str) -> (r: Option<TextUpdate>)
        ensures
            final(self)@ == with_value(old(self)@, node, value@),
            opt_update(r) == (match old(self)@.page {
                Some(doc) => Some(shown(doc, node, value@)),
                None => None,
            }),
    {
        self.forms.set_value(node, value.to_owned());
        self.repaint_damage = RepaintDamage::Full;
        match &self.page {
            Some(doc) => {
                if forms::is_textarea(doc, node) {
                    Some(TextUpdate::Content(value.to_owned()))
                } else {
                    Some(TextUpdate::Generated(forms::display_for(doc, node, value)))
                }
            },
            None => None,
        }
    }

    /// [`Session::set_form_value`] with an explicit display text: the
    /// horizontal window into a long single-line value.
    pub fn set_form_value_display(&mut self, node: NodeId, value: &str, display: String) -> (r: Option<
        TextUpdate,
    >)
        ensures
            final(self)@ == with_value(old(self)@, node, value@),
            opt_update(r) == (if old(self)@.page is Some {
                Some(TextUpdateModel::Generated(display@))
            } else {
                None
            }),
    {
        self.forms.set_value(node, value.to_owned());
        self.repaint_damage = RepaintDamage::Full;
        if self.page.is_some() {
            Some(TextUpdate::Generated(display))
        } else {
            None
        }
    }

    /// `el.value`.
    pub fn script_value(&self, node: NodeId) -> (r: String)
        ensures
            r@ == script_value_of(self@.document(), self@.forms, node),
    {
        if let Some(value) = self.forms.values.get(&node) {
            return value.clone();
        }
        let found = match &self.page {
            Some(doc) => match doc.attribute(node, "value") {
                Some(value) => Some(value.clone()),
                None => None,
            },
            None => None,
        };
        match found {
            Some(value) => value,
            None => {
                let r = String::new();
                assert(r@ =~= Seq::<char>::empty());
                r
            },
        }
    }

    /// `el.value = value`. Gives what the control shows now; the entry lays
    /// the page out again when it ends.
    pub fn set_script_value(&mut self, node: NodeId, value: String) -> (r: Option<TextUpdate>)
        ensures
            final(self)@ == (SessionModel {
                forms: FormModel {
                    values: old(self)@.forms.values.insert(node, value@),
                    ..old(self)@.forms
                },
                ..old(self)@
            }),
            opt_update(r) == (match old(self)@.page {
                Some(doc) => Some(script_shown(doc, node, value@)),
                None => None,
            }),
    {
        let update = match &self.page {
            Some(doc) => {
                if forms::is_textarea(doc, node) {
                    Some(TextUpdate::Content(value.clone()))
                } else if value.as_str().is_empty() {
                    Some(TextUpdate::Generated(" ".to_owned()))
                } else {
                    Some(TextUpdate::Generated(value.clone()))
                }
            },
            None => None,
        };
        self.forms.set_value(node, value);
        update
    }

    /// Sets the value of a color or range input: the `value` attribute drives
    /// what it paints. Returns whether there is a page to set it on.
    pub fn set_color_value(&mut self, node: NodeId, value: &str) -> (r: bool)
        ensures
            r == (old(self)@.page is Some),
            final(self)@ == (match old(self)@.page {
                Some(doc) => SessionModel {
                    page: Some(mutation::with_attribute(doc, node, "value"@, value@)),
                    ..with_value(old(self)@, node, value@)
                },
                None => old(self)@,
            }),
    {
        match &mut self.page {
            Some(doc) => {
                doc.set_attribute(node, "value", value);
            },
            None => {
                return false;
            },
        }
        self.forms.set_value(node, value.to_owned());
        self.repaint_damage = RepaintDamage::Full;
        true
    }

    /// The constraint violation that blocked the last submit attempt.
    pub fn form_violation(&self) -> (r: Option<&FormViolation>)
        ensures
            match r {
                Some(v) => self@.violation == Some((v.node, v.message@)),
                None => self@.violation is None,
            },
    {
        self.forms.violation.as_ref()
    }

    /// Submits the form containing `node`: the name=value pairs of its
    /// controls go to the form's action, unless a control's value does not
    /// meet its constraint.
    pub fn submit_form(&mut self, node: NodeId) -> (r: Result<Submission, LoadError>)
        requires
            old(self)@.history.wf(),
        ensures
            submit_result(r) == submitted(old(self)@, node),
            final(self)@ == (SessionModel {
                violation: if submitted(old(self)@, node) is Ok {
                    forms::blocking(old(self)@.document(), old(self)@.forms, node)
                } else {
                    old(self)@.violation
                },
                ..old(self)@
            }),
    {
        match self.history.require_current() {
            Ok(_) => {},
            Err(e) => {
                return Err(e);
            },
        }
        let doc = match &self.page {
            Some(doc) => doc,
            None => {
                return Err(LoadError::InvalidUrl("no page".to_owned()));
            },
        };
        let submission = self.forms.submit_form(doc, node);
        match submission {
            Submission::NoForm => Err(LoadError::InvalidUrl("no enclosing form".to_owned())),
            other => Ok(other),
        }
    }
}

// ---------------------------------------------------------------------------
// Editing
// ---------------------------------------------------------------------------
/// The literals of a number input's `min` and `max` attributes.
pub open spec fn bounds_of(doc: DocumentModel, node: NodeId) -> Option<
    (Option<Seq<char>>, Option<Seq<char>>),
> {
    if forms::number_input_at(doc, node) {
        Some(
            (
                document::attribute_at(doc, node, "min"@),
                document::attribute_at(doc, node, "max"@),
            ),
        )
    } else {
        None
    }
}

pub open spec fn bounds_model(b: Option<(Option<String>, Option<String>)>) -> Option<
    (Option<Seq<char>>, Option<Seq<char>>),
> {
    match b {
        Some((min, max)) => Some((text::opt_text(min), text::opt_text(max))),
        None => None,
    }
}

/// Whether a node takes text.
pub open spec fn editable(doc: DocumentModel, node: NodeId) -> bool {
    forms::text_input_at(doc, node) || document::has_tag(doc, node, "textarea"@)
}

/// The window that editing a node begins with: re-clicking the control that
/// is already edited keeps it.
pub open spec fn first_window(s: SessionModel, node: NodeId) -> usize {
    match s.editor {
        Some(e) => if e.node == node {
            e.window
        } else {
            0
        },
        None => 0,
    }
}

/// The buffer that editing begins with: everything is selected with the caret
/// at the end, unless a click placed the caret in a single-line control.
pub open spec fn first_buffer(s: SessionModel, node: NodeId, caret: Option<usize>) -> BufferModel {
    let value = forms::value_of(s.document(), s.forms, node);
    let all = BufferModel { text: value, caret: value.len() as int, anchor: 0 };
    match caret {
        Some(index) => if document::has_tag(s.document(), node, "textarea"@) {
            all
        } else {
            all.moved(index as int, false)
        },
        None => all,
    }
}

/// The session after editing ended: the whole value shows again where only a
/// window of it did, or where it was brought into bounds.
pub open spec fn ended(s: SessionModel, bounded: Option<Seq<char>>) -> SessionModel {
    match s.editor {
        Some(e) => {
            let after = SessionModel { editor: None, ..s };
            match bounded {
                Some(value) => with_value(after, e.node, value),
                None => if e.window != 0 {
                    with_value(after, e.node, e.buffer.text)
                } else {
                    after
                },
            }
        },
        None => s,
    }
}

/// What the end of editing shows.
pub open spec fn ended_update(s: SessionModel, bounded: Option<Seq<char>>) -> Option<
    TextUpdateModel,
> {
    match (s.editor, s.page) {
        (Some(e), Some(doc)) => match bounded {
            Some(value) => Some(shown(doc, e.node, value)),
            None => if e.window != 0 {
                Some(shown(doc, e.node, e.buffer.text))
            } else {
                None
            },
        },
        _ => None,
    }
}

/// The value that a synchronisation hands to the page, with its display text
/// where only a window of it shows.
pub enum SyncModel {
    Nothing,
    Value(Seq<char>),
    Windowed(Seq<char>, Seq<char>),
}

/// The display of a single-line control after an edit: the window follows the
/// caret, and the page changes where the text or the window did.
pub open spec fn synced(
    s: SessionModel,
    e: EditModel,
    text_changed: bool,
    p: spec_fn(int, int) -> bool,
) -> (usize, SyncModel) {
    if document::has_tag(s.document(), e.node, "textarea"@) {
        if text_changed {
            (e.window, SyncModel::Value(e.buffer.text))
        } else {
            (e.window, SyncModel::Nothing)
        }
    } else if e.buffer.text.len() == 0 {
        if text_changed {
            (0usize, SyncModel::Value(Seq::empty()))
        } else {
            (0usize, SyncModel::Nothing)
        }
    } else {
        let display = display_of(s, e);
        let start = editor::window_start(
            p,
            e.window as int,
            e.buffer.caret,
            display.len() as int,
        );
        if text_changed || start != e.window {
            (
                start as usize,
                SyncModel::Windowed(e.buffer.text, display.skip(start)),
            )
        } else {
            (start as usize, SyncModel::Nothing)
        }
    }
}

/// What the edited control displays for its text.
pub open spec fn display_of(s: SessionModel, e: EditModel) -> Seq<char> {
    editor::display_model(
        document::attribute_at(s.document(), e.node, "type"@) == Some("password"@),
        e.buffer.text,
    )
}

/// The session after a synchronisation.
pub open spec fn after_sync(s: SessionModel, e: EditModel, sync: (usize, SyncModel)) -> SessionModel {
    let moved = SessionModel { editor: Some(EditModel { window: sync.0, ..e }), ..s };
    match sync.1 {
        SyncModel::Nothing => moved,
        SyncModel::Value(value) => with_value(moved, e.node, value),
        SyncModel::Windowed(value, display) => with_value(moved, e.node, value),
    }
}

pub open spec fn sync_update(s: SessionModel, e: EditModel, sync: SyncModel) -> Option<
    TextUpdateModel,
> {
    match s.page {
        Some(doc) => match sync {
            SyncModel::Nothing => None,
            SyncModel::Value(value) => Some(shown(doc, e.node, value)),
            SyncModel::Windowed(value, display) => Some(TextUpdateModel::Generated(display)),
        },
        None => None,
    }
}

impl Session {
    /// Begins editing a text control. `caret` is the index under a click on
    /// a single-line control; without one everything is selected with the
    /// caret at the end. The edit before it ends, as [`Session::end_edit`]
    /// ends it with `bounded`. Returns whether editing began, and what the
    /// control that was edited before shows now, where that changes.
    pub fn begin_edit(&mut self, node: NodeId, caret: Option<usize>, bounded: Option<String>) -> (r: (
        bool,
        Option<TextUpdate>,
    ))
        ensures
            r.0 == editable(old(self)@.document(), node),
            final(self)@ == (if r.0 {
                SessionModel {
                    editor: Some(
                        EditModel {
                            node,
                            buffer: first_buffer(old(self)@, node, caret),
                            window: first_window(old(self)@, node),
                        },
                    ),
                    ..ended(old(self)@, text::opt_text(bounded))
                }
            } else {
                old(self)@
            }),
            opt_update(r.1) == (if r.0 {
                ended_update(old(self)@, text::opt_text(bounded))
            } else {
                None
            }),
    {
        if !self.is_text_input(node) && !self.is_textarea(node) {
            return (false, None);
        }
        let mut buffer = TextBuffer::with_all_selected(self.form_value(node));
        let window: usize = match &self.editor {
            Some(edit) => if edit.node == node {
                edit.window
            } else {
                0
            },
            None => 0,
        };
        let update = self.end_edit(bounded);
        if let Some(index) = caret {
            if !self.is_textarea(node) {
                buffer.move_to(index, false);
            }
        }
        self.editor = Some(TextEdit { node, buffer, window });
        (true, update)
    }

    /// Ends editing. `bounded` is the text of a number input's value where
    /// it had to be brought into its range. Gives what the control shows now,
    /// where that changes.
    pub fn end_edit(&mut self, bounded: Option<String>) -> (r: Option<TextUpdate>)
        ensures
            final(self)@ == ended(old(self)@, text::opt_text(bounded)),
            opt_update(r) == ended_update(old(self)@, text::opt_text(bounded)),
    {
        let edit = match self.editor.take() {
            Some(edit) => edit,
            None => {
                return None;
            },
        };
        match bounded {
            Some(value) => self.set_form_value(edit.node, value.as_str()),
            None => {
                if edit.window != 0 {
                    self.set_form_value(edit.node, edit.buffer.text.as_str())
                } else {
                    None
                }
            },
        }
    }

    /// The node being edited, if any.
    pub fn editing(&self) -> (r: Option<NodeId>)
        ensures
            r == (match self@.editor {
                Some(e) => Some(e.node),
                None => None,
            }),
    {
        match &self.editor {
            Some(edit) => Some(edit.node),
            None => None,
        }
    }

    /// The live edit buffer (for clipboard access).
    pub fn edit_buffer(&self) -> (r: Option<&TextBuffer>)
        ensures
            match r {
                Some(buffer) => self@.editor matches Some(e) && e.buffer == buffer@,
                None => self@.editor is None,
            },
    {
        match &self.editor {
            Some(edit) => Some(&edit.buffer),
            None => None,
        }
    }

    /// Applies one editing operation to the focused control. The display
    /// follows with [`Session::sync_edit_display`].
    pub fn edit(&mut self, op: &EditOp) -> (r: EditResult)
        requires
            old(self)@.editor matches Some(e) ==> e.buffer.caret < usize::MAX && (
            op matches EditOp::Insert(input) ==> e.buffer.end() + input@.len() <= usize::MAX),
        ensures
            match old(self)@.editor {
                Some(e) => {
                    &&& r == editor::edit_result(e.buffer, *op)
                    &&& final(self)@ == (SessionModel {
                        editor: Some(EditModel { buffer: editor::edited(e.buffer, *op), ..e }),
                        ..old(self)@
                    })
                },
                None => r == EditResult::Ignored && final(self)@ == old(self)@,
            },
    {
        match self.editor.take() {
            Some(mut edit) => {
                let result = edit.buffer.apply(op);
                self.editor = Some(edit);
                result
            },
            None => EditResult::Ignored,
        }
    }

    /// Puts a text into the edit buffer, with the caret at its end: a value
    /// that was stepped, or that had to be brought below its maximum.
    pub fn replace_edit_text(&mut self, value: String)
        ensures
            final(self)@ == (SessionModel {
                editor: match old(self)@.editor {
                    Some(e) => Some(
                        EditModel {
                            buffer: BufferModel {
                                text: value@,
                                caret: value@.len() as int,
                                anchor: value@.len() as int,
                            },
                            ..e
                        },
                    ),
                    None => None,
                },
                ..old(self)@
            }),
    {
        if let Some(mut edit) = self.editor.take() {
            edit.buffer.text = value;
            edit.buffer.move_to(usize::MAX, false);
            let total: usize = edit.buffer.char_count();
            assert(total <= usize::MAX);
            self.editor = Some(edit);
        }
    }

    /// Drag-selects: extends the selection to a caret index. A textarea does
    /// not follow. Returns whether it did.
    pub fn edit_drag_to(&mut self, index: usize) -> (r: bool)
        ensures
            match old(self)@.editor {
                Some(e) => if document::has_tag(old(self)@.document(), e.node, "textarea"@) {
                    !r && final(self)@ == old(self)@
                } else {
                    r && final(self)@ == (SessionModel {
                        editor: Some(
                            EditModel { buffer: e.buffer.moved(index as int, true), ..e },
                        ),
                        ..old(self)@
                    })
                },
                None => !r && final(self)@ == old(self)@,
            },
    {
        let node = match self.editing() {
            Some(node) => node,
            None => {
                return false;
            },
        };
        if self.is_textarea(node) {
            return false;
        }
        if let Some(mut edit) = self.editor.take() {
            edit.buffer.move_to(index, true);
            self.editor = Some(edit);
        }
        true
    }

    /// The `min` and `max` literals of a number input, `None` for any other
    /// node.
    pub fn number_bounds(&self, node: NodeId) -> (r: Option<(Option<String>, Option<String>)>)
        ensures
            bounds_model(r) == bounds_of(self@.document(), node),
    {
        if !self.is_number_input(node) {
            return None;
        }
        match &self.page {
            Some(doc) => {
                let min = match doc.attribute(node, "min") {
                    Some(v) => Some(v.clone()),
                    None => None,
                };
                let max = match doc.attribute(node, "max") {
                    Some(v) => Some(v.clone()),
                    None => None,
                };
                Some((min, max))
            },
            None => None,
        }
    }

    /// What a control renders for a value: passwords display bullets.
    pub fn control_display_text(&self, node: NodeId, value: &str) -> (r: String)
        ensures
            r@ == editor::display_model(
                document::attribute_at(self@.document(), node, "type"@) == Some("password"@),
                value@,
            ),
    {
        let password = match &self.page {
            Some(doc) => match doc.attribute(node, "type") {
                Some(kind) => text::same_str(kind.as_str(), "password"),
                None => false,
            },
            None => false,
        };
        editor::control_display_text(password, value)
    }

    /// Pushes the edited value into the page. Single-line inputs keep
    /// the caret visible by rendering a windowed tail of the value, where
    /// `fits` tells whether the display text between two positions fits the
    /// control. Gives what the control shows now, where that changes.
    pub fn sync_edit_display<F: Fn(usize, usize) -> bool>(
        &mut self,
        text_changed: bool,
        fits: F,
    ) -> (r: Option<TextUpdate>)
        requires
            forall|a: usize, b: usize| call_requires(fits, (a, b)),
            old(self)@.editor matches Some(e) ==> e.buffer.well_formed(),
        ensures
            old(self)@.editor is None ==> r is None && final(self)@ == old(self)@,
            forall|p: spec_fn(int, int) -> bool| #[trigger]
                editor::agrees(fits, p) ==> (old(self)@.editor matches Some(e) ==> {
                    let sync = synced(old(self)@, e, text_changed, p);
                    &&& final(self)@ == after_sync(old(self)@, e, sync)
                    &&& opt_update(r) == sync_update(old(self)@, e, sync.1)
                }),
    {
        let mut edit = match self.editor.take() {
            Some(edit) => edit,
            None => {
                return None;
            },
        };
        let ghost e = EditModel { node: edit.node, buffer: edit.buffer@, window: edit.window };
        let node = edit.node;
        let value = edit.buffer.text.clone();
        if self.is_textarea(node) {
            self.editor = Some(edit);
            if text_changed {
                return self.set_form_value(node, value.as_str());
            }
            return None;
        }
        if value.as_str().is_empty() {
            edit.window = 0;
            self.editor = Some(edit);
            if text_changed {
                assert(""@ =~= Seq::<char>::empty()) by {
                    reveal_strlit("");
                }
                return self.set_form_value(node, "");
            }
            return None;
        }
        let display = self.control_display_text(node, value.as_str());
        let chars = text::chars_of(display.as_str());
        let previous: usize = edit.window;
        let start = editor::slide_window(previous, edit.buffer.caret, chars.len(), fits);
        edit.window = start;
        self.editor = Some(edit);
        assert(chars@.len() == e.buffer.text.len());
        if text_changed || start != previous {
            let tail = slice_subrange(chars.as_slice(), start, chars.len());
            assert(tail@ =~= display@.skip(start as int));
            self.set_form_value_display(node, value.as_str(), text::text_of(tail))
        } else {
            None
        }
    }
}

// ---------------------------------------------------------------------------
// Laws
// ---------------------------------------------------------------------------
/// A control reads as the value that it was last set to; other controls keep
/// theirs.
pub proof fn law_value_reads_back(
    s: SessionModel,
    node: NodeId,
    value: Seq<char>,
    other: NodeId,
)
    ensures
        forms::value_of(s.document(), with_value(s, node, value).forms, node) == value,
        other != node ==> forms::value_of(s.document(), with_value(s, node, value).forms, other)
            == forms::value_of(s.document(), s.forms, other),
{
}

/// Scripts read back the value that they set, and so does the form.
pub proof fn law_script_values_read_back(
    doc: DocumentModel,
    f: FormModel,
    node: NodeId,
    value: Seq<char>,
)
    ensures
        script_value_of(
            doc,
            (FormModel { values: f.values.insert(node, value), ..f }),
            node,
        ) == value,
        forms::value_of(doc, (FormModel { values: f.values.insert(node, value), ..f }), node)
            == value,
{
}

/// Nothing is lost by ending an edit: the control still has its value,
/// however much of it was in the window.
pub proof fn law_ending_keeps_the_value(s: SessionModel)
    requires
        s.editor matches Some(e) && forms::value_of(s.document(), s.forms, e.node) == e.buffer.text,
    ensures
        ended(s, None).editor is None,
        s.editor matches Some(e) && forms::value_of(s.document(), ended(s, None).forms, e.node)
            == e.buffer.text,
{
}

/// After a change of its text is synchronised, the edited control has the
/// buffer's text as its value.
pub proof fn law_edited_text_becomes_the_value(
    s: SessionModel,
    e: EditModel,
    p: spec_fn(int, int) -> bool,
)
    ensures
        forms::value_of(
            s.document(),
            after_sync(s, e, synced(s, e, true, p)).forms,
            e.node,
        ) == e.buffer.text,
{
    assert(e.buffer.text.len() == 0 ==> e.buffer.text =~= Seq::<char>::empty());
}

/// A submit attempt fails without a page in the history, without a document
/// and outside any form, each with its own message; inside a form it comes to
/// the form's submission.
pub proof fn law_submitting_needs_a_form(s: SessionModel, node: NodeId)
    ensures
        s.history.index is None ==> submitted(s, node) == Err::<SubmissionModel, LoadErrorModel>(
            LoadErrorModel::InvalidUrl("no page loaded"@),
        ),
        s.history.index is Some && s.page is None ==> submitted(s, node) == Err::<
            SubmissionModel,
            LoadErrorModel,
        >(LoadErrorModel::InvalidUrl("no page"@)),
        s.history.index is Some && s.page is Some && forms::form_around(s.document(), node) is None
            ==> submitted(s, node) == Err::<SubmissionModel, LoadErrorModel>(
            LoadErrorModel::InvalidUrl("no enclosing form"@),
        ),
        s.history.index is Some && s.page is Some && forms::form_around(s.document(), node) is Some
            ==> submitted(s, node) is Ok,
{
}

/// A text area shows a value as its content, other controls as generated text;
/// a value set by a script shows as it is, an empty one as a lone space.
pub proof fn law_what_controls_show(doc: DocumentModel, node: NodeId, value: Seq<char>)
    ensures
        document::has_tag(doc, node, "textarea"@) ==> shown(doc, node, value)
            == TextUpdateModel::Content(value) && script_shown(doc, node, value)
            == TextUpdateModel::Content(value),
        !document::has_tag(doc, node, "textarea"@) ==> shown(doc, node, value) is Generated,
        !document::has_tag(doc, node, "textarea"@) && value.len() > 0 ==> script_shown(
            doc,
            node,
            value,
        ) == TextUpdateModel::Generated(value),
        !document::has_tag(doc, node, "textarea"@) && value.len() == 0 ==> script_shown(
            doc,
            node,
            value,
        ) == TextUpdateModel::Generated(seq![' ']),
{
    reveal_strlit(" ");
    assert(" "@ =~= seq![' ']);
}

/// Scripts read the live value of a control where there is one, and else its
/// `value` attribute, which may be missing.
pub proof fn law_script_values(doc: DocumentModel, f: FormModel, node: NodeId)
    ensures
        f.values.contains_key(node) ==> script_value_of(doc, f, node) == f.values[node],
        !f.values.contains_key(node) && document::attribute_at(doc, node, "value"@) is Some
            ==> script_value_of(doc, f, node) == document::attribute_at(doc, node, "value"@)->0,
        !f.values.contains_key(node) && document::attribute_at(doc, node, "value"@) is None
            ==> script_value_of(doc, f, node).len() == 0,
{
}

/// Setting a value changes that of one control, and asks for a full repaint;
/// the rest of the session stays.
pub proof fn law_values_are_set_one_by_one(
    s: SessionModel,
    node: NodeId,
    other: NodeId,
    value: Seq<char>,
)
    requires
        other != node,
    ensures
        ({
            let next = with_value(s, node, value);
            &&& next.forms.values.contains_key(node) && next.forms.values[node] == value
            &&& next.forms.values.contains_key(other) == s.forms.values.contains_key(other)
            &&& s.forms.values.contains_key(other) ==> next.forms.values[other]
                == s.forms.values[other]
            &&& next.forms.checked == s.forms.checked
            &&& next.repaint_damage is Full
            &&& next.history == s.history && next.page == s.page && next.cookies == s.cookies
            &&& next.editor == s.editor && next.focused == s.focused
        }),
{
}

/// Editing begins with everything selected and the caret at the end; a click
/// in a single-line control places the caret there, and in a text area selects
/// everything as well.
pub proof fn law_editing_begins_selected(s: SessionModel, node: NodeId, index: usize)
    requires
        index <= forms::value_of(s.document(), s.forms, node).len(),
    ensures
        ({
            let value = forms::value_of(s.document(), s.forms, node);
            let all = first_buffer(s, node, None);
            let at = first_buffer(s, node, Some(index));
            &&& all.text == value && all.caret == value.len() && all.anchor == 0
            &&& at.text == value
            &&& document::has_tag(s.document(), node, "textarea"@) ==> at == all
            &&& !document::has_tag(s.document(), node, "textarea"@) ==> at.caret == index
                && at.anchor == index
        }),
{
}

/// Clicking into the control that is being edited keeps its window; any other
/// control begins at its first character.
pub proof fn law_windows_begin_at_the_start(s: SessionModel, node: NodeId)
    ensures
        s.editor is None ==> first_window(s, node) == 0,
        s.editor matches Some(e) ==> (if e.node == node {
            first_window(s, node) == e.window
        } else {
            first_window(s, node) == 0
        }),
{
}

/// The end of editing closes the editor. A value that was brought into bounds
/// becomes the control's, and so does the text where only a window of it
/// showed; without either no value changes.
pub proof fn law_ending_closes_the_editor(s: SessionModel, e: EditModel, bounded: Option<Seq<char>>)
    requires
        s.editor == Some(e),
    ensures
        ended(s, bounded).editor is None,
        bounded matches Some(value) ==> ended(s, bounded).forms.values.contains_key(e.node)
            && ended(s, bounded).forms.values[e.node] == value,
        bounded is None && e.window != 0 ==> ended(s, bounded).forms.values.contains_key(e.node)
            && ended(s, bounded).forms.values[e.node] == e.buffer.text,
        bounded is None && e.window == 0 ==> ended(s, bounded).forms == s.forms
            && ended(s, bounded).repaint_damage == s.repaint_damage,
        bounded is None && e.window == 0 ==> ended_update(s, bounded) is None,
        (bounded is Some || e.window != 0) && s.page is Some ==> ended_update(s, bounded) is Some,
{
}

/// A number input's bounds are its `min` and `max` attributes, in this order;
/// other controls have none.
pub proof fn law_number_inputs_have_bounds(doc: DocumentModel, node: NodeId)
    ensures
        forms::number_input_at(doc, node) <==> bounds_of(doc, node) is Some,
        bounds_of(doc, node) matches Some((min, max)) ==> min == document::attribute_at(
            doc,
            node,
            "min"@,
        ) && max == document::attribute_at(doc, node, "max"@),
{
}

/// In a text area an edit hands over the text where it changed. In a
/// single-line control an emptied one shows from its start, and where the text
/// or the window changed the text goes over with what shows of it.
pub proof fn law_edits_are_synchronised(
    s: SessionModel,
    e: EditModel,
    text_changed: bool,
    p: spec_fn(int, int) -> bool,
)
    ensures
        ({
            let area = document::has_tag(s.document(), e.node, "textarea"@);
            let (window, sync) = synced(s, e, text_changed, p);
            &&& area ==> window == e.window && (if text_changed {
                sync == SyncModel::Value(e.buffer.text)
            } else {
                sync is Nothing
            })
            &&& !area && e.buffer.text.len() == 0 ==> window == 0 && (if text_changed {
                sync matches SyncModel::Value(v) && v.len() == 0
            } else {
                sync is Nothing
            })
            &&& !area && e.buffer.text.len() > 0 && text_changed ==> (sync matches SyncModel::Windowed(
                value,
                display,
            ) && value == e.buffer.text)
            &&& !text_changed && window == e.window && !area && e.buffer.text.len() > 0
                && 0 <= editor::window_start(
                p,
                e.window as int,
                e.buffer.caret,
                display_of(s, e).len() as int,
            ) <= usize::MAX ==> sync is Nothing
        }),
{
}

} // verus!
