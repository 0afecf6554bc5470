//! Event listeners and the order in which a dispatch runs them.
use crate::browser::document::{self, Document, DocumentModel, NodeId};
use crate::text;
use vstd::prelude::*;

verus! {

/// One addEventListener registration. Callbacks are numbers under which the
/// shell keeps the functions: equal numbers are the same function.
#[derive(Debug)]
pub struct Registration {
    pub node: NodeId,
    pub event: String,
    pub callback: u64,
    /// The `once` option: the listener goes after it ran.
    pub once: bool,
}

pub struct RegistrationModel {
    pub node: NodeId,
    pub event: Seq<char>,
    pub callback: u64,
    pub once: bool,
}

impl View for Registration {
    type V = RegistrationModel;

    open spec fn view(&self) -> RegistrationModel {
        RegistrationModel {
            node: self.node,
            event: self.event@,
            callback: self.callback,
            once: self.once,
        }
    }
}

pub type ListenerSeq = Seq<RegistrationModel>;

pub open spec fn listener_models(list: Seq<Registration>) -> ListenerSeq {
    Seq::new(list.len(), |i: int| list[i]@)
}

/// Event listeners in registration order.
#[derive(Debug)]
pub struct Listeners {
    pub list: Vec<Registration>,
}

impl View for Listeners {
    type V = ListenerSeq;

    open spec fn view(&self) -> ListenerSeq {
        listener_models(self.list@)
    }
}

/// Whether a registration is for an event at a node.
pub open spec fn is_for(r: RegistrationModel, node: NodeId, event: Seq<char>) -> bool {
    r.node == node && r.event == event
}

/// Whether one of the first `n` listeners is for an event at a node.
pub open spec fn any_for(list: ListenerSeq, node: NodeId, event: Seq<char>, n: int) -> bool
    decreases n,
{
    n > 0 && (any_for(list, node, event, n - 1) || is_for(list[n - 1], node, event))
}

/// The listeners, from place `i` on, without those of one callback for an
/// event at a node.
pub open spec fn unregistered(
    list: ListenerSeq,
    node: NodeId,
    event: Seq<char>,
    callback: u64,
    i: int,
) -> ListenerSeq
    decreases list.len() - i,
{
    if i < 0 || i >= list.len() {
        seq![]
    } else if is_for(list[i], node, event) && list[i].callback == callback {
        unregistered(list, node, event, callback, i + 1)
    } else {
        seq![list[i]] + unregistered(list, node, event, callback, i + 1)
    }
}

impl Listeners {
    pub fn new() -> (r: Listeners)
        ensures
            r@ == Seq::<RegistrationModel>::empty(),
    {
        let r = Listeners { list: Vec::new() };
        assert(r@ =~= Seq::<RegistrationModel>::empty());
        r
    }

    /// Adds a registration behind the others.
    pub fn register(&mut self, registration: Registration)
        ensures
            final(self)@ == old(self)@.push(registration@),
    {
        self.list.push(registration);
        assert(self@ =~= old(self)@.push(registration@));
    }

    /// Drops a callback from the listeners for an event at a node — the
    /// removeEventListener primitive, also used for `once` listeners that
    /// just ran.
    pub fn remove_listener(&mut self, node: NodeId, event: &str, callback: u64)
        ensures
            final(self)@ == unregistered(old(self)@, node, event@, callback, 0),
    {
        let ghost all = self@;
        let mut i: usize = self.list.len();
        assert(all.take(i as int) + unregistered(all, node, event@, callback, i as int) =~= all);
        while i > 0
            invariant
                i <= all.len(),
                self@ == all.take(i as int) + unregistered(
                    all,
                    node,
                    event@,
                    callback,
                    i as int,
                ),
            decreases i,
        {
            i = i - 1;
            let ghost now = self.list@;
            let ghost tail = unregistered(all, node, event@, callback, i + 1);
            assert(listener_models(now).len() == now.len());
            assert(listener_models(now)[i as int] == all[i as int]);
            assert(now[i as int]@ == all[i as int]);
            if self.list[i].node == node && text::same_str(self.list[i].event.as_str(), event)
                && self.list[i].callback == callback {
                self.list.remove(i);
                assert(self@ =~= listener_models(now).remove(i as int));
            }
            assert(self@ =~= all.take(i as int) + unregistered(
                all,
                node,
                event@,
                callback,
                i as int,
            ));
        }
        assert(self@ =~= unregistered(all, node, event@, callback, 0));
    }

    /// Whether any listener is registered for (node, event).
    pub fn has_listener(&self, node: NodeId, event: &str) -> (r: bool)
        ensures
            r == any_for(self@, node, event@, self@.len() as int),
    {
        let ghost all = self@;
        let mut found = false;
        let mut i: usize = 0;
        while i < self.list.len()
            invariant
                i <= self.list@.len(),
                all == self@,
                found == any_for(all, node, event@, i as int),
            decreases self.list@.len() - i,
        {
            assert(all[i as int] == self.list@[i as int]@);
            if self.list[i].node == node && text::same_str(self.list[i].event.as_str(), event) {
                found = true;
            }
            i = i + 1;
        }
        found
    }
}

// ---------------------------------------------------------------------------
// Dispatch
// ---------------------------------------------------------------------------
/// One callback in a dispatch: an `addEventListener` registration or
/// the source of an inline `on*` attribute.
#[derive(Debug)]
pub enum Handler {
    Listener { callback: u64, once: bool },
    Inline(String),
}

pub enum HandlerModel {
    Listener { callback: u64, once: bool },
    Inline(Seq<char>),
}

impl View for Handler {
    type V = HandlerModel;

    open spec fn view(&self) -> HandlerModel {
        match self {
            Handler::Listener { callback, once } => HandlerModel::Listener {
                callback: *callback,
                once: *once,
            },
            Handler::Inline(source) => HandlerModel::Inline(source@),
        }
    }
}

pub type HandlerSeq = Seq<(NodeId, HandlerModel)>;

pub open spec fn handler_models(list: Seq<(NodeId, Handler)>) -> HandlerSeq {
    Seq::new(list.len(), |i: int| (list[i].0, list[i].1@))
}

/// The inline handler of a node, if it has one.
pub open spec fn inline_at(doc: DocumentModel, node: NodeId, event: Seq<char>) -> HandlerSeq {
    match document::attribute_at(doc, node, "on"@ + event) {
        Some(source) => seq![(node, HandlerModel::Inline(source))],
        None => seq![],
    }
}

/// The handlers of the first `n` listeners for an event at a node.
pub open spec fn listening(list: ListenerSeq, node: NodeId, event: Seq<char>, n: int) -> HandlerSeq
    decreases n,
{
    if n <= 0 {
        seq![]
    } else {
        let before = listening(list, node, event, n - 1);
        if is_for(list[n - 1], node, event) {
            before.push(
                (
                    node,
                    HandlerModel::Listener {
                        callback: list[n - 1].callback,
                        once: list[n - 1].once,
                    },
                ),
            )
        } else {
            before
        }
    }
}

/// The handlers of the first `n` targets: at each the inline handler, then
/// the listeners in registration order.
pub open spec fn bubbling(
    doc: DocumentModel,
    list: ListenerSeq,
    targets: Seq<NodeId>,
    event: Seq<char>,
    n: int,
) -> HandlerSeq
    decreases n,
{
    if n <= 0 {
        seq![]
    } else {
        bubbling(doc, list, targets, event, n - 1) + inline_at(doc, targets[n - 1], event)
            + listening(list, targets[n - 1], event, list.len() as int)
    }
}

/// The handlers that a lifecycle event at the document root runs first: the
/// classic `<body on*>`.
pub open spec fn body_handler(doc: DocumentModel, node: NodeId, event: Seq<char>) -> HandlerSeq {
    if node == 0 {
        match document::find_tag(doc, document::descendants_of(doc, 0), "body"@, 0) {
            Some(body) => inline_at(doc, body, event),
            None => seq![],
        }
    } else {
        seq![]
    }
}

/// The handlers that an event at a node runs, in order: it bubbles from the
/// node to its ancestors.
pub open spec fn planned(
    doc: DocumentModel,
    list: ListenerSeq,
    node: NodeId,
    event: Seq<char>,
) -> HandlerSeq {
    let targets = document::chain_of(doc, node);
    body_handler(doc, node, event) + bubbling(doc, list, targets, event, targets.len() as int)
}

fn push_inline(doc: &Document, node: NodeId, event: &str, output: &mut Vec<(NodeId, Handler)>)
    ensures
        handler_models(final(output)@) == handler_models(old(output)@) + inline_at(
            doc@,
            node,
            event@,
        ),
{
    let name = text::concat("on", event);
    if let Some(source) = doc.attribute(node, name.as_str()) {
        output.push((node, Handler::Inline(source.clone())));
    }
    assert(handler_models(output@) =~= handler_models(old(output)@) + inline_at(
        doc@,
        node,
        event@,
    ));
}

fn push_listening(
    listeners: &Listeners,
    node: NodeId,
    event: &str,
    output: &mut Vec<(NodeId, Handler)>,
)
    ensures
        handler_models(final(output)@) == handler_models(old(output)@) + listening(
            listeners@,
            node,
            event@,
            listeners@.len() as int,
        ),
{
    let ghost start = handler_models(output@);
    let ghost all = listeners@;
    let mut i: usize = 0;
    assert(start + listening(all, node, event@, 0) =~= start);
    while i < listeners.list.len()
        invariant
            i <= listeners.list@.len(),
            all == listeners@,
            handler_models(output@) == start + listening(all, node, event@, i as int),
        decreases listeners.list@.len() - i,
    {
        let r = &listeners.list[i];
        let ghost before = handler_models(output@);
        assert(all[i as int] == r@);
        if r.node == node && text::same_str(r.event.as_str(), event) {
            let handler = Handler::Listener { callback: r.callback, once: r.once };
            output.push((node, handler));
            assert(handler_models(output@) =~= before.push((node, handler@)));
        }
        i = i + 1;
        assert(handler_models(output@) =~= start + listening(all, node, event@, i as int));
    }
}

/// A running dispatch: the handlers in order and the place of the next one.
#[derive(Debug)]
pub struct Dispatch {
    pub event: String,
    pub handlers: Vec<(NodeId, Handler)>,
    pub next: usize,
    /// Whether a handler ran.
    pub handled: bool,
}

/// What an event dispatch did.
#[derive(Debug, Clone, Copy, PartialEq, Eq, Structural)]
pub struct DispatchOutcome {
    /// At least one handler ran (the page may have re-rendered).
    pub handled: bool,
    /// A handler called `event.preventDefault()` — skip the default
    /// action (navigation, submit, toggle...).
    pub prevented: bool,
}

impl Dispatch {
    /// The handlers that are still to run.
    pub open spec fn remaining(self) -> HandlerSeq {
        if self.next < self.handlers@.len() {
            handler_models(self.handlers@).skip(self.next as int)
        } else {
            Seq::empty()
        }
    }

    /// Plans the dispatch of an event at `node`, bubbling to its ancestors.
    /// Per bubble target the inline `on*` attribute handler (if any) runs
    /// first — the attribute was set when the HTML was parsed, before any
    /// `addEventListener` call; registered listeners follow in registration
    /// order.
    pub fn plan(doc: &Document, listeners: &Listeners, node: NodeId, event: &str) -> (r: Dispatch)
        ensures
            handler_models(r.handlers@) == planned(doc@, listeners@, node, event@),
            r.remaining() == planned(doc@, listeners@, node, event@),
            r.event@ == event@,
            r.next == 0,
            !r.handled,
    {
        let mut handlers: Vec<(NodeId, Handler)> = Vec::new();
        if node == 0 {
            let all = doc.descendants(0);
            if let Some(body) = doc.first_with_tag(&all, "body") {
                push_inline(doc, body, event, &mut handlers);
            }
        }
        assert(handler_models(handlers@) =~= body_handler(doc@, node, event@));
        let ghost start = handler_models(handlers@);
        let targets = doc.chain(node);
        let mut i: usize = 0;
        assert(start + bubbling(doc@, listeners@, targets@, event@, 0) =~= start);
        while i < targets.len()
            invariant
                i <= targets@.len(),
                handler_models(handlers@) == start + bubbling(
                    doc@,
                    listeners@,
                    targets@,
                    event@,
                    i as int,
                ),
            decreases targets@.len() - i,
        {
            push_inline(doc, targets[i], event, &mut handlers);
            push_listening(listeners, targets[i], event, &mut handlers);
            i = i + 1;
            assert(handler_models(handlers@) =~= start + bubbling(
                doc@,
                listeners@,
                targets@,
                event@,
                i as int,
            ));
        }
        let ghost hv = handler_models(handlers@);
        assert(hv.skip(0) =~= hv);
        assert(hv.len() == 0 ==> hv =~= Seq::empty());
        Dispatch { event: event.to_owned(), handlers, next: 0, handled: false }
    }

    /// Whether any handler is planned at all.
    pub fn has_handlers(&self) -> (r: bool)
        ensures
            r == (self.handlers@.len() > 0),
    {
        self.handlers.len() > 0
    }

    /// What the dispatch did, when it is over: where no handler ran nothing
    /// was prevented.
    pub fn outcome(&self, prevented: bool) -> (r: DispatchOutcome)
        ensures
            r.handled == self.handled,
            r.prevented == (self.handled && prevented),
    {
        DispatchOutcome { handled: self.handled, prevented: self.handled && prevented }
    }

    /// The target and handler to run next.
    pub fn next_handler(&self) -> (r: Option<&(NodeId, Handler)>)
        ensures
            match r {
                Some(h) => self.remaining().len() > 0 && (h.0, h.1@) == self.remaining()[0],
                None => self.remaining().len() == 0,
            },
    {
        if self.next < self.handlers.len() {
            assert(handler_models(self.handlers@)[self.next as int] == (
                self.handlers@[self.next as int].0,
                self.handlers@[self.next as int].1@,
            ));
            Some(&self.handlers[self.next])
        } else {
            None
        }
    }

    /// Takes the handler that is next off the plan without running it: it did
    /// not compile.
    pub fn skip(&mut self)
        ensures
            final(self).remaining() == (if old(self).remaining().len() == 0 {
                Seq::empty()
            } else {
                old(self).remaining().skip(1)
            }),
            final(self).handled == old(self).handled,
            final(self).handlers == old(self).handlers,
            final(self).event == old(self).event,
    {
        let ghost all = handler_models(self.handlers@);
        if self.next < self.handlers.len() {
            self.next = self.next + 1;
            assert(all.skip(self.next as int) =~= all.skip(self.next - 1).skip(1));
            if self.next == self.handlers.len() {
                assert(all.skip(self.next - 1).skip(1) =~= Seq::empty());
            }
        } else {
            assert(self.remaining() =~= Seq::empty());
        }
    }

    /// Takes the handler that ran off the plan; one that stopped the
    /// propagation ends the dispatch. A `once` listener goes from the
    /// registry.
    pub fn ran(&mut self, stopped: bool, listeners: &mut Listeners)
        ensures
            final(self).remaining() == (if stopped || old(self).remaining().len() == 0 {
                Seq::empty()
            } else {
                old(self).remaining().skip(1)
            }),
            final(self).handled == (old(self).handled || old(self).remaining().len() > 0),
            final(self).handlers == old(self).handlers,
            final(self).event == old(self).event,
            final(listeners)@ == (if old(self).remaining().len() > 0 {
                match old(self).remaining()[0] {
                    (target, HandlerModel::Listener { callback, once }) => if once {
                        unregistered(
                            old(listeners)@,
                            target,
                            old(self).event@,
                            callback,
                            0,
                        )
                    } else {
                        old(listeners)@
                    },
                    _ => old(listeners)@,
                }
            } else {
                old(listeners)@
            }),
    {
        let ghost all = handler_models(self.handlers@);
        if self.next < self.handlers.len() {
            assert(all[self.next as int] == (
                self.handlers@[self.next as int].0,
                self.handlers@[self.next as int].1@,
            ));
            let target: NodeId = self.handlers[self.next].0;
            if let Handler::Listener { callback, once } = &self.handlers[self.next].1 {
                if *once {
                    listeners.remove_listener(target, self.event.as_str(), *callback);
                }
            }
            self.handled = true;
            if stopped {
                self.next = self.handlers.len();
            } else {
                self.next = self.next + 1;
                assert(all.skip(self.next as int) =~= all.skip(self.next - 1).skip(1));
                if self.next == self.handlers.len() {
                    assert(all.skip(self.next - 1).skip(1) =~= Seq::empty());
                }
            }
        } else {
            assert(self.remaining() =~= Seq::empty());
        }
    }
}

// ---------------------------------------------------------------------------
// Inline handlers
// ---------------------------------------------------------------------------
/// Whether one of the first `n` attributes is an inline `on*` handler.
pub open spec fn has_on(attributes: Seq<(Seq<char>, Seq<char>)>, n: int) -> bool
    decreases n,
{
    n > 0 && (has_on(attributes, n - 1) || text::starts(attributes[n - 1].0, "on"@))
}

/// Whether one of the first `n` nodes of a list has an inline handler.
pub open spec fn any_inline(doc: DocumentModel, list: Seq<NodeId>, n: int) -> bool
    decreases n,
{
    n > 0 && (any_inline(doc, list, n - 1) || (document::element_at(doc, list[n - 1]) matches Some(
        e,
    ) && has_on(e.attributes, e.attributes.len() as int)))
}

/// Whether any element carries an inline `on*` handler attribute — such
/// a page needs a script world even without a single `<script>` tag.
pub fn has_inline_handlers(doc: &Document) -> (r: bool)
    ensures
        r == any_inline(
            doc@,
            document::descendants_of(doc@, 0),
            document::descendants_of(doc@, 0).len() as int,
        ),
{
    let all = doc.descendants(0);
    let mut found = false;
    let mut i: usize = 0;
    while i < all.len()
        invariant
            i <= all@.len(),
            found == any_inline(doc@, all@, i as int),
        decreases all@.len() - i,
    {
        if let Some(e) = doc.element(all[i]) {
            let ghost av = document::pair_models(e.attributes@);
            let mut own = false;
            let mut k: usize = 0;
            while k < e.attributes.len()
                invariant
                    k <= e.attributes@.len(),
                    av == document::pair_models(e.attributes@),
                    own == has_on(av, k as int),
                decreases e.attributes@.len() - k,
            {
                assert(av[k as int].0 == e.attributes@[k as int].0@);
                let name = text::chars_of(e.attributes[k].0.as_str());
                if text::starts_with(name.as_slice(), "on") {
                    own = true;
                }
                k = k + 1;
            }
            if own {
                found = true;
            }
        }
        i = i + 1;
    }
    found
}

/// The function that an inline `on*` attribute is compiled as.
pub open spec fn function_text(source: Seq<char>) -> Seq<char> {
    "(function (event) {\n"@ + source + "\n})"@
}

/// The function that an inline `on*` attribute is compiled as.
pub fn inline_function(source: &str) -> (r: String)
    ensures
        r@ == function_text(source@),
{
    let mut r = text::concat("(function (event) {\n", source);
    text::push_text(&mut r, "\n})");
    r
}

/// A compiled inline handler: the attribute text it was compiled from and
/// the callback it became; none where the text does not parse.
#[derive(Debug)]
pub struct InlineHandler {
    pub node: NodeId,
    pub event: String,
    pub source: String,
    pub callback: Option<u64>,
}

pub struct InlineModel {
    pub node: NodeId,
    pub event: Seq<char>,
    pub source: Seq<char>,
    pub callback: Option<u64>,
}

impl View for InlineHandler {
    type V = InlineModel;

    open spec fn view(&self) -> InlineModel {
        InlineModel {
            node: self.node,
            event: self.event@,
            source: self.source@,
            callback: self.callback,
        }
    }
}

pub open spec fn inline_models(list: Seq<InlineHandler>) -> Seq<InlineModel> {
    Seq::new(list.len(), |i: int| list[i]@)
}

/// The place of the compiled handler of an event at a node, from `i` on.
pub open spec fn compiled_place(
    list: Seq<InlineModel>,
    node: NodeId,
    event: Seq<char>,
    i: int,
) -> Option<int>
    decreases list.len() - i,
{
    if i < 0 || i >= list.len() {
        None
    } else if list[i].node == node && list[i].event == event {
        Some(i)
    } else {
        compiled_place(list, node, event, i + 1)
    }
}

/// What exactly this attribute text was compiled to, if it was compiled.
pub open spec fn compiled(
    list: Seq<InlineModel>,
    node: NodeId,
    event: Seq<char>,
    source: Seq<char>,
) -> Option<Option<u64>> {
    match compiled_place(list, node, event, 0) {
        Some(i) => if list[i].source == source {
            Some(list[i].callback)
        } else {
            None
        },
        None => None,
    }
}

/// The cache with a handler compiled from an attribute text.
pub open spec fn recompiled(list: Seq<InlineModel>, h: InlineModel) -> Seq<InlineModel> {
    match compiled_place(list, h.node, h.event, 0) {
        Some(i) => list.update(i, h),
        None => list.push(h),
    }
}

/// Compiled inline `on*` attribute handlers, one per (node, event); a changed
/// attribute recompiles on the next dispatch. A handler that does not parse
/// is reported once and skipped.
#[derive(Debug)]
pub struct InlineHandlers {
    pub list: Vec<InlineHandler>,
}

impl View for InlineHandlers {
    type V = Seq<InlineModel>;

    open spec fn view(&self) -> Seq<InlineModel> {
        inline_models(self.list@)
    }
}

impl InlineHandlers {
    pub fn new() -> (r: InlineHandlers)
        ensures
            r@ == Seq::<InlineModel>::empty(),
    {
        let r = InlineHandlers { list: Vec::new() };
        assert(r@ =~= Seq::<InlineModel>::empty());
        r
    }

    fn place(&self, node: NodeId, event: &str) -> (r: Option<usize>)
        ensures
            match compiled_place(self@, node, event@, 0) {
                Some(i) => r is Some && r->0 == i && 0 <= i < self@.len(),
                None => r is None,
            },
    {
        let ghost all = self@;
        let mut i: usize = 0;
        while i < self.list.len()
            invariant
                i <= self.list@.len(),
                all == self@,
                compiled_place(all, node, event@, i as int) == compiled_place(
                    all,
                    node,
                    event@,
                    0,
                ),
            decreases self.list@.len() - i,
        {
            assert(all[i as int] == self.list@[i as int]@);
            if self.list[i].node == node && text::same_str(self.list[i].event.as_str(), event) {
                return Some(i);
            }
            i = i + 1;
        }
        None
    }

    /// What exactly this attribute text was compiled to, if it was compiled:
    /// its callback, or none where it does not parse. One that does not parse
    /// is thus compiled, and reported, once.
    pub fn cached(&self, node: NodeId, event: &str, source: &str) -> (r: Option<Option<u64>>)
        ensures
            r == compiled(self@, node, event@, source@),
    {
        match self.place(node, event) {
            Some(i) => {
                assert(self@[i as int] == self.list@[i as int]@);
                if text::same_str(self.list[i].source.as_str(), source) {
                    Some(self.list[i].callback)
                } else {
                    None
                }
            },
            None => None,
        }
    }

    /// Remembers what an attribute text was compiled to.
    pub fn remember(&mut self, handler: InlineHandler)
        ensures
            final(self)@ == recompiled(old(self)@, handler@),
    {
        let ghost all = self@;
        match self.place(handler.node, handler.event.as_str()) {
            Some(i) => {
                self.list.set(i, handler);
                assert(self@ =~= all.update(i as int, handler@));
            },
            None => {
                self.list.push(handler);
                assert(self@ =~= all.push(handler@));
            },
        }
    }
}

// ---------------------------------------------------------------------------
// Laws
// ---------------------------------------------------------------------------
proof fn lemma_unregistered(
    list: ListenerSeq,
    node: NodeId,
    event: Seq<char>,
    callback: u64,
    i: int,
    k: int,
)
    requires
        0 <= i <= list.len(),
        0 <= k < unregistered(list, node, event, callback, i).len(),
    ensures
        ({
            let r = unregistered(list, node, event, callback, i)[k];
            !(is_for(r, node, event) && r.callback == callback) && list.contains(r)
        }),
    decreases list.len() - i,
{
    if i < list.len() {
        if is_for(list[i], node, event) && list[i].callback == callback {
            lemma_unregistered(list, node, event, callback, i + 1, k);
        } else if k > 0 {
            lemma_unregistered(list, node, event, callback, i + 1, k - 1);
        } else {
            assert(list.contains(list[i]));
        }
    }
}

proof fn lemma_kept(
    list: ListenerSeq,
    node: NodeId,
    event: Seq<char>,
    callback: u64,
    i: int,
    k: int,
)
    requires
        0 <= i <= k < list.len(),
        !(is_for(list[k], node, event) && list[k].callback == callback),
    ensures
        unregistered(list, node, event, callback, i).contains(list[k]),
    decreases k - i,
{
    let r = unregistered(list, node, event, callback, i);
    if i == k {
        assert(r[0] == list[k]);
    } else {
        lemma_kept(list, node, event, callback, i + 1, k);
        let tail = unregistered(list, node, event, callback, i + 1);
        let j = choose|j: int| 0 <= j < tail.len() && tail[j] == list[k];
        if !(is_for(list[i], node, event) && list[i].callback == callback) {
            assert(r[j + 1] == list[k]);
        } else {
            assert(r[j] == list[k]);
        }
    }
}

/// A removed listener is gone, and every other registration stays.
pub proof fn law_removal_is_exact(
    list: ListenerSeq,
    node: NodeId,
    event: Seq<char>,
    callback: u64,
    r: RegistrationModel,
)
    ensures
        unregistered(list, node, event, callback, 0).contains(r) == (list.contains(r) && !(is_for(
            r,
            node,
            event,
        ) && r.callback == callback)),
{
    let after = unregistered(list, node, event, callback, 0);
    if after.contains(r) {
        let k = choose|k: int| 0 <= k < after.len() && after[k] == r;
        lemma_unregistered(list, node, event, callback, 0, k);
    }
    if list.contains(r) && !(is_for(r, node, event) && r.callback == callback) {
        let k = choose|k: int| 0 <= k < list.len() && list[k] == r;
        lemma_kept(list, node, event, callback, 0, k);
    }
}

proof fn lemma_compiled_place(list: Seq<InlineModel>, node: NodeId, event: Seq<char>, i: int)
    requires
        0 <= i <= list.len(),
    ensures
        match compiled_place(list, node, event, i) {
            Some(k) => i <= k < list.len() && list[k].node == node && list[k].event == event
                && forall|j: int|
                i <= j < k ==> !((#[trigger] list[j]).node == node && list[j].event == event),
            None => forall|j: int|
                i <= j < list.len() ==> !((#[trigger] list[j]).node == node && list[j].event
                    == event),
        },
    decreases list.len() - i,
{
    if i < list.len() && !(list[i].node == node && list[i].event == event) {
        lemma_compiled_place(list, node, event, i + 1);
    }
}

/// A compiled handler is found again for the attribute text it came from, and
/// for no other text.
pub proof fn law_inline_handlers_follow_their_attribute(
    list: Seq<InlineModel>,
    h: InlineModel,
    source: Seq<char>,
)
    ensures
        compiled(recompiled(list, h), h.node, h.event, source) == (if source == h.source {
            Some(h.callback)
        } else {
            None
        }),
{
    let after = recompiled(list, h);
    lemma_compiled_place(list, h.node, h.event, 0);
    lemma_compiled_place(after, h.node, h.event, 0);
    match compiled_place(list, h.node, h.event, 0) {
        Some(i) => {
            assert(after[i] == h);
            let k = compiled_place(after, h.node, h.event, 0)->0;
            if k < i {
                assert(after[k] == list[k]);
            }
        },
        None => {
            let n = list.len() as int;
            assert(after[n] == h);
            let k = compiled_place(after, h.node, h.event, 0)->0;
            if k < n {
                assert(after[k] == list[k]);
            }
        },
    }
}

proof fn lemma_listening(list: ListenerSeq, node: NodeId, event: Seq<char>, n: int, k: int)
    requires
        0 <= k < n <= list.len(),
        list[k].node == node,
        list[k].event == event,
    ensures
        listening(list, node, event, n).contains(
            (node, HandlerModel::Listener { callback: list[k].callback, once: list[k].once }),
        ),
    decreases n,
{
    let before = listening(list, node, event, n - 1);
    let after = listening(list, node, event, n);
    let x = (node, HandlerModel::Listener { callback: list[k].callback, once: list[k].once });
    if k == n - 1 {
        assert(after[before.len() as int] == x);
    } else {
        lemma_listening(list, node, event, n - 1, k);
        let j = choose|j: int| 0 <= j < before.len() && before[j] == x;
        assert(after[j] == x);
    }
}

/// A listener runs for events of its own name at its own node; others do not.
pub proof fn law_listeners_hear_their_event(
    list: ListenerSeq,
    node: NodeId,
    event: Seq<char>,
    n: int,
    k: int,
)
    requires
        0 <= n <= list.len(),
    ensures
        0 <= k < n && list[k].node == node && list[k].event == event ==> listening(
            list,
            node,
            event,
            n,
        ).contains(
            (node, HandlerModel::Listener { callback: list[k].callback, once: list[k].once }),
        ),
        (forall|i: int|
            0 <= i < n ==> (#[trigger] list[i]).node != node || list[i].event != event)
            ==> listening(list, node, event, n).len() == 0,
        listening(list, node, event, n).len() <= n,
    decreases n,
{
    if 0 <= k < n && list[k].node == node && list[k].event == event {
        lemma_listening(list, node, event, n, k);
    }
    if n > 0 {
        law_listeners_hear_their_event(list, node, event, n - 1, -1);
        if forall|i: int|
            0 <= i < n ==> (#[trigger] list[i]).node != node || list[i].event != event {
            assert(list[n - 1].node != node || list[n - 1].event != event);
        }
    }
}

/// Listeners run in the order in which they were registered: a later one goes
/// behind the earlier ones.
pub proof fn law_listeners_run_in_order(
    list: ListenerSeq,
    r: RegistrationModel,
    node: NodeId,
    event: Seq<char>,
)
    requires
        r.node == node,
        r.event == event,
    ensures
        listening(list.push(r), node, event, list.len() as int + 1) == listening(
            list,
            node,
            event,
            list.len() as int,
        ).push((node, HandlerModel::Listener { callback: r.callback, once: r.once })),
{
    lemma_listening_prefix(list, r, node, event, list.len() as int);
}

proof fn lemma_listening_prefix(
    list: ListenerSeq,
    r: RegistrationModel,
    node: NodeId,
    event: Seq<char>,
    n: int,
)
    requires
        0 <= n <= list.len(),
    ensures
        listening(list.push(r), node, event, n) == listening(list, node, event, n),
    decreases n,
{
    if n > 0 {
        lemma_listening_prefix(list, r, node, event, n - 1);
        assert(list.push(r)[n - 1] == list[n - 1]);
    }
}

/// An inline handler is the attribute called `on` and the event's name.
pub proof fn law_inline_handlers_are_attributes(
    doc: DocumentModel,
    node: NodeId,
    event: Seq<char>,
)
    ensures
        document::attribute_at(doc, node, seq!['o', 'n'] + event) matches Some(source)
            ==> inline_at(doc, node, event) == seq![(node, HandlerModel::Inline(source))],
        document::attribute_at(doc, node, seq!['o', 'n'] + event) is None ==> inline_at(
            doc,
            node,
            event,
        ).len() == 0,
{
    reveal_strlit("on");
    assert("on"@ =~= seq!['o', 'n']);
}

/// An event bubbles: the handlers of a node, its inline one first, run before
/// those of the nodes around it.
pub proof fn law_events_bubble(
    doc: DocumentModel,
    list: ListenerSeq,
    targets: Seq<NodeId>,
    event: Seq<char>,
    n: int,
)
    requires
        0 < n <= targets.len(),
    ensures
        bubbling(doc, list, targets, event, n) == bubbling(doc, list, targets, event, n - 1) + (
        inline_at(doc, targets[n - 1], event) + listening(
            list,
            targets[n - 1],
            event,
            list.len() as int,
        )),
        bubbling(doc, list, targets, event, 0).len() == 0,
{
    let a = bubbling(doc, list, targets, event, n - 1);
    let b = inline_at(doc, targets[n - 1], event);
    let c = listening(list, targets[n - 1], event, list.len() as int);
    assert(a + b + c =~= a + (b + c));
}

/// An event at a node other than the root runs what bubbles from it to its
/// ancestors; at the root the handler of the body runs first.
pub proof fn law_events_at_the_root_reach_the_body(
    doc: DocumentModel,
    list: ListenerSeq,
    node: NodeId,
    event: Seq<char>,
)
    ensures
        ({
            let targets = document::chain_of(doc, node);
            let bubbles = bubbling(doc, list, targets, event, targets.len() as int);
            let body = document::find_tag(doc, document::descendants_of(doc, 0), "body"@, 0);
            &&& node != 0 ==> planned(doc, list, node, event) == bubbles
            &&& node == 0 && body is None ==> planned(doc, list, node, event) == bubbles
            &&& node == 0 && body is Some ==> planned(doc, list, node, event) == inline_at(
                doc,
                body->0,
                event,
            ) + bubbles
        }),
{
    let targets = document::chain_of(doc, node);
    let bubbles = bubbling(doc, list, targets, event, targets.len() as int);
    assert(Seq::<(NodeId, HandlerModel)>::empty() + bubbles =~= bubbles);
}

/// An inline handler is the body of a function of the event, on lines of its
/// own.
pub proof fn law_inline_handlers_are_functions(source: Seq<char>)
    ensures
        text::starts(function_text(source), "(function (event) {\n"@),
        text::ends(function_text(source), "\n})"@),
        function_text(source).len() == 23 + source.len(),
        function_text(source).subrange(20, source.len() as int + 20) == source,
{
    reveal_strlit("(function (event) {\n");
    reveal_strlit("\n})");
    let head = "(function (event) {\n"@;
    let tail = "\n})"@;
    assert(head.len() == 20 && tail.len() == 3);
    assert(function_text(source) =~= head + (source + tail));
    text::law_prefixes(source + tail, head);
    text::law_suffixes(head + source, tail);
    assert(function_text(source).subrange(20, source.len() as int + 20) =~= source);
}

} // verus!
