//! Pages with scripts, run on a JavaScript engine over canned responses.
use boa_engine::builtins::promise::PromiseState;
use boa_engine::context::time::JsInstant;
use boa_engine::job::{GenericJob, Job, JobExecutor, NativeAsyncJob, PromiseJob, TimeoutJob};
use boa_engine::module::{ModuleLoader, Referrer};
use boa_engine::object::builtins::{JsArray, JsFunction, JsPromise};
use boa_engine::object::{FunctionObjectBuilder, ObjectInitializer};
use boa_engine::property::Attribute;
use boa_engine::{
    Context, JsError, JsNativeError, JsObject, JsResult, JsString, JsValue, Module, NativeFunction,
    Source,
};
use futures_concurrency::future::FutureGroup;
use futures_lite::{future, StreamExt};
use lumen::browser::controls::TextUpdate;
use lumen::browser::cors::{CorsGrant, CorsPreflight};
use lumen::browser::document::{Document, Element, Node, NodeId, NodeKind};
use lumen::browser::history::LoadError;
use lumen::browser::request::{ResourceRequest, ResourceResponse};
use lumen::browser::session::{HoverImpact, Session};
use lumen::browser::storage::{origin_key, WebStorage};
use lumen::browser::string_map::StringMap;
use lumen::browser::url::Url;
use lumen::scripting::attributes;
use lumen::scripting::bridge::{Bridge, FetchCall, XhrCall};
use lumen::scripting::dom;
use lumen::scripting::errors::{ErrorReport, ErrorTally};
use lumen::scripting::events::{
    inline_function, DispatchOutcome, Handler, InlineHandler, Registration,
};
use lumen::scripting::jobs::{after_round, JobBudget, JobStep, LOOP_ITERATION_BUDGET};
use lumen::scripting::loading::{
    classify_scripts, find_scripts, lifecycle_events, needs_world, prepare_module_request,
    schedule, Fetched, ImportStep, ModuleRun, ModuleSources, RoundResult, RoundStep, ScriptEntry,
};
use lumen::scripting::natives;
use lumen::scripting::network::{NetworkQueue, Start, Task};
use lumen::scripting::page::PageScripts;
use lumen::scripting::pump::{Round, Settlement};
use lumen::scripting::reads::{ReadFailure, SettleTarget};
use std::cell::RefCell;
use std::collections::{BTreeMap, HashMap, VecDeque};
use std::path::Path;
use std::rc::Rc;

// ---------------------------------------------------------------------------
// URLs and documents
// ---------------------------------------------------------------------------

fn url(text: &str) -> Url {
    let (scheme, rest) = text.split_once("://").expect("absolute URL");
    let cut = rest.find(['/', '?', '#']).unwrap_or(rest.len());
    let (authority, tail) = rest.split_at(cut);
    let tail = if tail.starts_with('/') { tail.to_string() } else { format!("/{tail}") };
    let (host, written) = match authority.split_once(':') {
        Some((host, port)) => (host, Some(port.parse().unwrap())),
        None => (authority, None),
    };
    let known = match scheme {
        "http" => Some(80),
        "https" => Some(443),
        _ => None,
    };
    let origin = match (scheme, written) {
        ("file", _) => "null".to_string(),
        (_, Some(port)) if Some(port) != known => format!("{scheme}://{host}:{port}"),
        _ => format!("{scheme}://{host}"),
    };
    let path = tail.split(['?', '#']).next().unwrap().to_string();
    Url {
        text: format!("{scheme}://{authority}{tail}"),
        scheme: scheme.to_string(),
        host: if host.is_empty() { None } else { Some(host.to_string()) },
        port: written.or(known),
        path,
        unicode_origin: origin.clone(),
        origin,
    }
}

fn join(base: &Url, target: &str) -> Url {
    if target.contains("://") {
        return url(target);
    }
    let authority = base.text.split_once("://").unwrap().1.split('/').next().unwrap();
    if target.starts_with('/') {
        return url(&format!("{}://{}{}", base.scheme, authority, target));
    }
    let target = target.strip_prefix("./").unwrap_or(target);
    let directory = &base.path[..base.path.rfind('/').unwrap() + 1];
    url(&format!("{}://{}{}{}", base.scheme, authority, directory, target))
}

fn push_node(nodes: &mut Vec<Node>, parent: NodeId, kind: NodeKind) -> NodeId {
    let id = nodes.len();
    nodes.push(Node { kind, parent: Some(parent), children: Vec::new() });
    nodes[parent].children.push(id);
    id
}

fn attribute_list(source: &str) -> Vec<(String, String)> {
    let mut list = Vec::new();
    let mut rest = source.trim();
    while !rest.is_empty() {
        let end = rest.find(|c: char| c == '=' || c.is_whitespace()).unwrap_or(rest.len());
        let name = rest[..end].to_ascii_lowercase();
        rest = &rest[end..];
        let mut value = String::new();
        if let Some(after) = rest.strip_prefix('=') {
            let quote = after.chars().next().unwrap();
            if quote == '"' || quote == '\'' {
                let close = after[1..].find(quote).unwrap();
                value = after[1..1 + close].to_string();
                rest = &after[close + 2..];
            } else {
                let close = after.find(char::is_whitespace).unwrap_or(after.len());
                value = after[..close].to_string();
                rest = &after[close..];
            }
        }
        list.push((name, value));
        rest = rest.trim_start();
    }
    list
}

/// The length of a tag up to its `>`, which may also stand in a quoted value.
fn tag_length(source: &str) -> usize {
    let mut quote = None;
    for (at, c) in source.char_indices() {
        match quote {
            Some(open) if c == open => quote = None,
            Some(_) => {}
            None if c == '"' || c == '\'' => quote = Some(c),
            None if c == '>' => return at,
            None => {}
        }
    }
    panic!("unclosed tag: {source}");
}

/// A document from well-formed markup.
fn html(source: &str) -> Document {
    let mut nodes = vec![Node { kind: NodeKind::Other, parent: None, children: Vec::new() }];
    let mut open: Vec<NodeId> = vec![0];
    let mut rest = source;
    while !rest.is_empty() {
        let parent = *open.last().unwrap();
        if let Some(after) = rest.strip_prefix("</") {
            rest = &after[after.find('>').unwrap() + 1..];
            open.pop();
        } else if let Some(after) = rest.strip_prefix('<') {
            let close = tag_length(after);
            let tag = &after[..close];
            rest = &after[close + 1..];
            let end = tag.find(char::is_whitespace).unwrap_or(tag.len());
            let name = tag[..end].to_ascii_lowercase();
            let element =
                Element { tag_name: name.clone(), attributes: attribute_list(&tag[end..]) };
            let id = push_node(&mut nodes, parent, NodeKind::Element(element));
            if name == "style" || name == "script" {
                let stop = rest.find(&format!("</{name}>")).unwrap();
                push_node(&mut nodes, id, NodeKind::Text(rest[..stop].to_string()));
                rest = &rest[stop + name.len() + 3..];
            } else if !["input", "img", "link", "br"].contains(&name.as_str()) {
                open.push(id);
            }
        } else {
            let stop = rest.find('<').unwrap_or(rest.len());
            push_node(&mut nodes, parent, NodeKind::Text(rest[..stop].to_string()));
            rest = &rest[stop..];
        }
    }
    Document { nodes }
}

// ---------------------------------------------------------------------------
// The state behind the natives
// ---------------------------------------------------------------------------

/// A server with canned responses.
#[derive(Default)]
struct Server {
    pages: HashMap<String, String>,
    acao: HashMap<String, String>,
    grants: HashMap<String, CorsGrant>,
    serve_cookies: HashMap<String, Vec<String>>,
    /// Requested URLs, bodies and cookies, in order.
    loads: Vec<String>,
    bodies: Vec<Option<String>>,
    cookies: Vec<Option<String>>,
    probes: Vec<(String, String, Vec<String>)>,
}

impl Server {
    fn new(pages: &[(&str, &str)]) -> Self {
        Server {
            pages: pages.iter().map(|(url, text)| (url.to_string(), text.to_string())).collect(),
            ..Server::default()
        }
    }

    fn with_acao(mut self, url: &str, value: &str) -> Self {
        self.acao.insert(url.to_string(), value.to_string());
        self
    }

    fn with_grant(mut self, url: &str, grant: CorsGrant) -> Self {
        self.grants.insert(url.to_string(), grant);
        self
    }

    fn with_cookies(mut self, url: &str, cookies: &[&str]) -> Self {
        let cookies = cookies.iter().map(|cookie| cookie.to_string()).collect();
        self.serve_cookies.insert(url.to_string(), cookies);
        self
    }

    fn load(&mut self, request: ResourceRequest) -> Result<ResourceResponse, LoadError> {
        let text = request.url.text.clone();
        self.loads.push(text.clone());
        self.bodies.push(
            request.body.as_ref().map(|(_, bytes)| String::from_utf8_lossy(bytes).into_owned()),
        );
        self.cookies.push(request.cookie.clone());
        match self.pages.get(&text) {
            Some(body) => Ok(ResourceResponse {
                text: body.clone(),
                set_cookies: self.serve_cookies.get(&text).cloned().unwrap_or_default(),
                access_control_allow_origin: self.acao.get(&text).cloned(),
                final_url: request.url,
            }),
            None => Err(LoadError::Http(format!("404: {text}"))),
        }
    }

    fn preflight(&mut self, probe: CorsPreflight) -> Result<CorsGrant, LoadError> {
        let text = probe.url.text.clone();
        self.probes.push((text.clone(), probe.method, probe.headers));
        match self.grants.get(&text) {
            Some(grant) => Ok(CorsGrant {
                allow_origin: grant.allow_origin.clone(),
                allow_methods: grant.allow_methods.clone(),
                allow_headers: grant.allow_headers.clone(),
            }),
            None => Err(LoadError::Http(format!("no canned grant: {text}"))),
        }
    }
}

struct State {
    session: Session,
    bridge: Bridge,
    page: PageScripts,
    storage: WebStorage,
    files: HashMap<String, String>,
    network: NetworkQueue,
    modules: ModuleSources,
    server: Server,
    /// Finished loads, probes and module loads.
    landed: Vec<(u64, Result<ResourceResponse, LoadError>)>,
    probed: Vec<(u64, Result<CorsGrant, LoadError>)>,
    slots: HashMap<u64, Result<ResourceResponse, LoadError>>,
    /// What the numbers in the library stand for.
    callbacks: Vec<JsObject>,
    promises: Vec<(JsObject, JsObject)>,
    xhrs: Vec<JsObject>,
    parsed: HashMap<String, Module>,
    intervals: HashMap<u64, f64>,
    errors: ErrorTally,
    now_ms: f64,
}

impl State {
    fn callback(&mut self, callback: &JsObject) -> u64 {
        let known = self.callbacks.iter().position(|other| JsObject::equals(other, callback));
        let index = known.unwrap_or_else(|| {
            self.callbacks.push(callback.clone());
            self.callbacks.len() - 1
        });
        index as u64
    }

    fn document(&mut self) -> Option<&mut Document> {
        self.session.page.as_mut()
    }

    fn attribute(&self, node: NodeId, name: &str) -> Option<String> {
        self.session.page().and_then(|document| document.attribute(node, name).cloned())
    }

    fn fetch(&mut self, url: Url) -> Result<ResourceResponse, LoadError> {
        let request = self.session.prepare_request(url, None)?;
        let response = self.server.load(request)?;
        self.session.store_response_cookies(&response.final_url, &response.set_cookies);
        Ok(response)
    }

    fn render(&mut self, target: Url) -> Result<Url, LoadError> {
        let response = self.fetch(target)?;
        let base = response.final_url;
        self.session.begin_page(&base);
        self.session.apply_stylesheet(false, HoverImpact::Nothing);
        self.session.show_page(html(&response.text), &base);
        Ok(base)
    }

    fn run_task(&mut self, task: Task) {
        match task {
            Task::Fetch { id, request } => {
                let result = self.server.load(request);
                self.landed.push((id, result));
            }
            Task::Preflight { id, probe } => {
                let result = self.server.preflight(probe);
                self.probed.push((id, result));
            }
            Task::Module { slot, request } => {
                let result = self.server.load(request);
                self.slots.insert(slot, result);
                self.network.module_landed();
            }
        }
    }

    fn begin(&mut self, start: Start) {
        match start {
            Start::Now(task) | Start::Thread(task) => self.run_task(task),
            Start::Parked => {}
        }
    }

    fn drive(&mut self) {
        for task in self.network.drive() {
            self.run_task(task);
        }
    }

    fn report(&mut self, error: &JsError) {
        let message = error.to_string();
        match self.errors.tally_error(&message) {
            ErrorReport::Print => println!("[js] script error: {message}"),
            ErrorReport::LastOne => println!("[js] script error: {message} (repeated)"),
            ErrorReport::Silent => {}
        }
    }
}

#[derive(Clone, Copy)]
struct World(&'static RefCell<State>);

impl World {
    fn new(server: Server) -> World {
        World(Box::leak(Box::new(RefCell::new(State {
            session: Session::new(),
            bridge: Bridge::new(),
            page: PageScripts::new(),
            storage: WebStorage::new(true),
            files: HashMap::new(),
            network: NetworkQueue::inline(),
            modules: ModuleSources::new(),
            server,
            landed: Vec::new(),
            probed: Vec::new(),
            slots: HashMap::new(),
            callbacks: Vec::new(),
            promises: Vec::new(),
            xhrs: Vec::new(),
            parsed: HashMap::new(),
            intervals: HashMap::new(),
            errors: ErrorTally::new(),
            now_ms: 0.0,
        }))))
    }

    fn with<R>(self, action: impl FnOnce(&mut State) -> R) -> R {
        action(&mut self.0.borrow_mut())
    }

    fn load(self, target: &str) {
        self.with(|state| {
            let loaded = state.render(url(target));
            state.session.load(loaded).unwrap();
        });
    }

    fn by_id(self, id: &str) -> NodeId {
        self.with(|state| dom::get_element_by_id(state.session.page().unwrap(), id).unwrap())
    }

    fn out_text(self) -> String {
        let out = self.by_id("out");
        self.with(|state| state.session.page().unwrap().text_content(out))
    }

    fn current(self) -> String {
        self.with(|state| state.session.current_url().unwrap().text.clone())
    }
}

/// Times are ordered as the ordinals that stand for them.
fn ordinal(ms: f64) -> i64 {
    let bits = ms.to_bits() as i64;
    bits ^ (((bits >> 63) as u64) >> 1) as i64
}

fn milliseconds(ordinal: i64) -> f64 {
    f64::from_bits((ordinal ^ (((ordinal >> 63) as u64) >> 1) as i64) as u64)
}

// ---------------------------------------------------------------------------
// Natives
// ---------------------------------------------------------------------------

type Native = fn(World, &JsValue, &[JsValue], &mut Context) -> JsResult<JsValue>;

fn js(text: &str) -> JsString {
    JsString::from(text)
}

fn text_value(text: &str) -> JsValue {
    JsValue::from(js(text))
}

fn native(world: World, action: Native) -> NativeFunction {
    NativeFunction::from_copy_closure(move |this, args, context| {
        action(world, this, args, context)
    })
}

fn function(world: World, action: Native, context: &Context) -> JsFunction {
    native(world, action).to_js_function(context.realm())
}

fn type_error(message: &str) -> JsError {
    JsNativeError::typ().with_message(message.to_string()).into()
}

fn string_arg(args: &[JsValue], index: usize, context: &mut Context) -> String {
    args.get(index)
        .and_then(|value| value.to_string(context).ok())
        .map(|value| value.to_std_string_escaped())
        .unwrap_or_default()
}

/// The node behind an element wrapper.
fn this_node(world: World, this: &JsValue, context: &mut Context) -> JsResult<Option<NodeId>> {
    let Some(object) = this.as_object() else {
        return Ok(None);
    };
    let Ok(value) = object.get(js("__node"), context) else {
        return Ok(None);
    };
    let Some(number) = value.as_number() else {
        return Ok(None);
    };
    let whole = number.is_finite() && number >= 0.0 && number.fract() == 0.0;
    let node = world.with(|state| dom::handle_node(state.session.page(), number as NodeId));
    match node {
        Ok(node) if whole => Ok(Some(node)),
        _ => Err(type_error("element handle points outside the document")),
    }
}

fn element_or_null(world: World, node: Option<NodeId>, context: &mut Context) -> JsValue {
    match node {
        Some(node) => element_object(world, node, context).into(),
        None => JsValue::null(),
    }
}

fn element_list(world: World, nodes: Vec<NodeId>, context: &mut Context) -> JsValue {
    let items: Vec<JsValue> =
        nodes.into_iter().map(|node| element_object(world, node, context).into()).collect();
    JsArray::from_iter(items, context).into()
}

/// A node found from this wrapper's node.
fn lookup(
    world: World,
    this: &JsValue,
    context: &mut Context,
    find: impl FnOnce(&Document, NodeId) -> Option<NodeId>,
) -> JsResult<JsValue> {
    let Some(node) = this_node(world, this, context)? else {
        return Ok(JsValue::null());
    };
    let found = world.with(|state| state.session.page().and_then(|document| find(document, node)));
    Ok(element_or_null(world, found, context))
}

/// A change of the document at this wrapper's node.
fn change(
    world: World,
    this: &JsValue,
    context: &mut Context,
    action: impl FnOnce(&mut Document, NodeId),
) -> JsResult<JsValue> {
    if let Some(node) = this_node(world, this, context)? {
        world.with(|state| {
            if let Some(document) = state.document() {
                action(document, node);
                state.bridge.mark_dirty();
            }
        });
    }
    Ok(JsValue::undefined())
}

fn attribute_of(
    world: World,
    this: &JsValue,
    name: &str,
    context: &mut Context,
) -> JsResult<String> {
    Ok(match this_node(world, this, context)? {
        Some(node) => world.with(|state| state.attribute(node, name)).unwrap_or_default(),
        None => String::new(),
    })
}

fn register(world: World, node: NodeId, args: &[JsValue], context: &mut Context) {
    let event = string_arg(args, 0, context);
    let Some(callback) = args.get(1).and_then(JsValue::as_callable) else {
        return;
    };
    let once = args
        .get(2)
        .and_then(JsValue::as_object)
        .and_then(|options| options.get(js("once"), context).ok())
        .is_some_and(|value| value.to_boolean());
    world.with(|state| {
        let callback = state.callback(&callback);
        state.bridge.register_listener(Registration { node, event, callback, once });
    });
}

fn unregister(world: World, node: NodeId, args: &[JsValue], context: &mut Context) {
    let event = string_arg(args, 0, context);
    if let Some(callback) = args.get(1).and_then(JsValue::as_callable) {
        world.with(|state| {
            let callback = state.callback(&callback);
            state.bridge.unregister_listener(node, event, callback);
        });
    }
}

fn proxy(target: JsObject, get: JsFunction, set: JsFunction, context: &mut Context) -> JsObject {
    let handler = ObjectInitializer::new(context)
        .property(js("get"), get, Attribute::all())
        .property(js("set"), set, Attribute::all())
        .build();
    let constructor = context.intrinsics().constructors().proxy().constructor();
    constructor.construct(&[target.into(), handler.into()], None, context).expect("a proxy")
}

/// A proxy whose traps see the element's node.
fn node_proxy(
    world: World,
    node: NodeId,
    get: Native,
    set: Native,
    context: &mut Context,
) -> JsObject {
    let target = ObjectInitializer::new(context)
        .property(js("__node"), JsValue::from(node as f64), Attribute::empty())
        .build();
    let (get, set) = (function(world, get, context), function(world, set, context));
    proxy(target, get, set, context)
}

fn style_get(
    world: World,
    _this: &JsValue,
    args: &[JsValue],
    context: &mut Context,
) -> JsResult<JsValue> {
    let target = args.first().cloned().unwrap_or_default();
    let style = attribute_of(world, &target, "style", context)?;
    let key = string_arg(args, 1, context);
    Ok(text_value(&attributes::style_get(&style, &key)))
}

fn style_set(
    world: World,
    _this: &JsValue,
    args: &[JsValue],
    context: &mut Context,
) -> JsResult<JsValue> {
    let target = args.first().cloned().unwrap_or_default();
    let style = attribute_of(world, &target, "style", context)?;
    let (key, value) = (string_arg(args, 1, context), string_arg(args, 2, context));
    let merged = attributes::style_set(&style, &key, &value);
    change(world, &target, context, |document, node| {
        document.set_attribute(node, "style", &merged)
    })?;
    Ok(JsValue::from(true))
}

fn dataset_get(
    world: World,
    _this: &JsValue,
    args: &[JsValue],
    context: &mut Context,
) -> JsResult<JsValue> {
    let target = args.first().cloned().unwrap_or_default();
    let name = attributes::dataset_attribute(&string_arg(args, 1, context));
    let Some(node) = this_node(world, &target, context)? else {
        return Ok(JsValue::undefined());
    };
    let value = world.with(|state| state.attribute(node, &name));
    Ok(value.map_or(JsValue::undefined(), |value| text_value(&value)))
}

fn dataset_set(
    world: World,
    _this: &JsValue,
    args: &[JsValue],
    context: &mut Context,
) -> JsResult<JsValue> {
    let target = args.first().cloned().unwrap_or_default();
    let name = attributes::dataset_attribute(&string_arg(args, 1, context));
    let value = string_arg(args, 2, context);
    change(world, &target, context, |document, node| {
        document.set_attribute(node, &name, &value)
    })?;
    Ok(JsValue::from(true))
}

fn class_list(world: World, node: NodeId, context: &mut Context) -> JsObject {
    let add: Native = |world, this, args, context| {
        let class = string_arg(args, 0, context);
        let after = attributes::class_add(&attribute_of(world, this, "class", context)?, &class);
        change(world, this, context, |document, node| {
            document.set_attribute(node, "class", &after)
        })?;
        Ok(JsValue::from(true))
    };
    let remove: Native = |world, this, args, context| {
        let class = string_arg(args, 0, context);
        let after = attributes::class_remove(&attribute_of(world, this, "class", context)?, &class);
        change(world, this, context, |document, node| {
            document.set_attribute(node, "class", &after)
        })?;
        Ok(JsValue::from(true))
    };
    let toggle: Native = |world, this, args, context| {
        let class = string_arg(args, 0, context);
        let before = attribute_of(world, this, "class", context)?;
        let (after, on) = attributes::class_toggle(&before, &class);
        change(world, this, context, |document, node| {
            document.set_attribute(node, "class", &after)
        })?;
        Ok(JsValue::from(on))
    };
    let contains: Native = |world, this, args, context| {
        let class = string_arg(args, 0, context);
        let classes = attribute_of(world, this, "class", context)?;
        Ok(JsValue::from(attributes::class_contains(&classes, &class)))
    };
    ObjectInitializer::new(context)
        .property(js("__node"), JsValue::from(node as f64), Attribute::empty())
        .function(native(world, add), js("add"), 1)
        .function(native(world, remove), js("remove"), 1)
        .function(native(world, toggle), js("toggle"), 1)
        .function(native(world, contains), js("contains"), 1)
        .build()
}

/// Where `insertBefore` and `appendChild` put a child.
fn insert(
    world: World,
    this: &JsValue,
    args: &[JsValue],
    next: Option<NodeId>,
    context: &mut Context,
) -> JsResult<JsValue> {
    let argument = args.first().cloned().unwrap_or_default();
    if let Some(child) = this_node(world, &argument, context)? {
        change(world, this, context, |document, parent| {
            document.insert_before(parent, child, next)
        })?;
    }
    Ok(argument)
}

/// The JS wrapper for a DOM node.
fn element_object(world: World, node: NodeId, context: &mut Context) -> JsObject {
    let style = node_proxy(world, node, style_get, style_set, context);
    let dataset = node_proxy(world, node, dataset_get, dataset_set, context);
    let classes = class_list(world, node, context);
    let getters: [(&str, Native); 13] = [
        ("id", |world, this, _, context| {
            Ok(text_value(&attribute_of(world, this, "id", context)?))
        }),
        ("parentNode", |world, this, _, context| lookup(world, this, context, dom::parent_node)),
        ("parentElement", |world, this, _, context| {
            lookup(world, this, context, dom::parent_element)
        }),
        ("firstChild", |world, this, _, context| lookup(world, this, context, dom::first_child)),
        ("lastChild", |world, this, _, context| lookup(world, this, context, dom::last_child)),
        ("nextSibling", |world, this, _, context| lookup(world, this, context, dom::next_sibling)),
        ("previousSibling", |world, this, _, context| {
            lookup(world, this, context, dom::previous_sibling)
        }),
        ("children", |world, this, _, context| {
            let Some(node) = this_node(world, this, context)? else {
                return Ok(JsValue::undefined());
            };
            let nodes = world.with(|state| {
                state.session.page().map(|document| dom::element_children(document, node))
            });
            Ok(element_list(world, nodes.unwrap_or_default(), context))
        }),
        ("childNodes", |world, this, _, context| {
            let Some(node) = this_node(world, this, context)? else {
                return Ok(JsValue::undefined());
            };
            let nodes =
                world.with(|state| state.session.page().map(|document| document.children(node)));
            Ok(element_list(world, nodes.unwrap_or_default(), context))
        }),
        ("contentDocument", |_, _, _, _| Ok(JsValue::null())),
        ("contentWindow", |_, _, _, _| Ok(JsValue::null())),
        ("tagName", |world, this, _, context| {
            let Some(node) = this_node(world, this, context)? else {
                return Ok(JsValue::undefined());
            };
            let tag = world.with(|state| {
                let element = state.session.page().and_then(|document| document.element(node));
                element.map(|element| element.tag_name.clone())
            });
            Ok(text_value(&tag.unwrap_or_default()))
        }),
        ("offsetWidth", |_, _, _, _| Ok(JsValue::from(0))),
    ];
    let accessors: [(&str, Native, Native); 3] = [
        (
            "textContent",
            |world, this, _, context| {
                let Some(node) = this_node(world, this, context)? else {
                    return Ok(JsValue::undefined());
                };
                let text = world
                    .with(|state| state.session.page().map(|document| document.text_content(node)));
                Ok(text_value(&text.unwrap_or_default()))
            },
            |world, this, args, context| {
                let text = string_arg(args, 0, context);
                change(world, this, context, |document, node| {
                    document.set_text_content(node, &text)
                })
            },
        ),
        (
            "value",
            |world, this, _, context| {
                let Some(node) = this_node(world, this, context)? else {
                    return Ok(JsValue::undefined());
                };
                Ok(text_value(&world.with(|state| state.session.script_value(node))))
            },
            |world, this, args, context| {
                let value = string_arg(args, 0, context);
                if let Some(node) = this_node(world, this, context)? {
                    world.with(|state| match state.session.set_script_value(node, value) {
                        Some(TextUpdate::Content(text)) => {
                            state.session.page.as_mut().unwrap().set_text_content(node, &text);
                            state.bridge.mark_dirty();
                        }
                        Some(TextUpdate::Generated(_)) => state.bridge.mark_dirty(),
                        None => {}
                    });
                }
                Ok(JsValue::undefined())
            },
        ),
        (
            "className",
            |world, this, _, context| {
                Ok(text_value(&attribute_of(world, this, "class", context)?))
            },
            |world, this, args, context| {
                let classes = string_arg(args, 0, context);
                change(world, this, context, |document, node| {
                    document.set_attribute(node, "class", &classes)
                })
            },
        ),
    ];
    let methods: [(&str, Native); 14] = [
        ("addEventListener", |world, this, args, context| {
            if let Some(node) = this_node(world, this, context)? {
                register(world, node, args, context);
            }
            Ok(JsValue::undefined())
        }),
        ("removeEventListener", |world, this, args, context| {
            if let Some(node) = this_node(world, this, context)? {
                unregister(world, node, args, context);
            }
            Ok(JsValue::undefined())
        }),
        ("appendChild", |world, this, args, context| insert(world, this, args, None, context)),
        ("insertBefore", |world, this, args, context| {
            let next = match args.get(1) {
                Some(value) if !value.is_null_or_undefined() => this_node(world, value, context)?,
                _ => None,
            };
            insert(world, this, args, next, context)
        }),
        ("removeChild", |world, this, args, context| {
            let argument = args.first().cloned().unwrap_or_default();
            let parent = this_node(world, this, context)?;
            let child = this_node(world, &argument, context)?;
            if let (Some(parent), Some(child)) = (parent, child) {
                world.with(|state| {
                    if let Some(document) = state.document() {
                        if dom::is_child_of(document, child, parent) {
                            document.detach(child);
                            state.bridge.mark_dirty();
                        }
                    }
                });
            }
            Ok(argument)
        }),
        ("remove", |world, this, _, context| change(world, this, context, Document::detach)),
        ("focus", |world, this, _, context| {
            if let Some(node) = this_node(world, this, context)? {
                world.with(|state| state.bridge.request_focus(Some(node)));
            }
            Ok(JsValue::undefined())
        }),
        ("blur", |world, _, _, _| {
            world.with(|state| state.bridge.request_focus(None));
            Ok(JsValue::undefined())
        }),
        ("closest", |world, this, args, context| {
            let selector = string_arg(args, 0, context);
            lookup(world, this, context, |document, node| dom::closest(document, node, &selector))
        }),
        ("getAttribute", |world, this, args, context| {
            let name = string_arg(args, 0, context);
            let Some(node) = this_node(world, this, context)? else {
                return Ok(JsValue::undefined());
            };
            let value = world.with(|state| state.attribute(node, &name));
            Ok(value.map_or(JsValue::null(), |value| text_value(&value)))
        }),
        ("setAttribute", |world, this, args, context| {
            let (name, value) = (string_arg(args, 0, context), string_arg(args, 1, context));
            let style = attribute_of(world, this, "style", context)?;
            let (name, value) = attributes::set_attribute(&name, &value, &style);
            change(world, this, context, |document, node| {
                document.set_attribute(node, &name, &value)
            })
        }),
        ("querySelector", |world, this, args, context| {
            let selector = string_arg(args, 0, context);
            lookup(world, this, context, |document, node| {
                dom::query_selector(document, &selector, Some(node))
            })
        }),
        ("querySelectorAll", |world, this, args, context| {
            let selector = string_arg(args, 0, context);
            let Some(node) = this_node(world, this, context)? else {
                return Ok(JsValue::undefined());
            };
            let nodes = world.with(|state| {
                let page = state.session.page();
                page.map(|document| dom::query_selector_all(document, &selector, Some(node)))
            });
            Ok(element_list(world, nodes.unwrap_or_default(), context))
        }),
        ("toString", |_, _, _, _| Ok(text_value("[object Element]"))),
    ];
    let getters: Vec<_> = getters
        .into_iter()
        .map(|(name, get)| (name, function(world, get, context), None))
        .chain(accessors.into_iter().map(|(name, get, set)| {
            (name, function(world, get, context), Some(function(world, set, context)))
        }))
        .collect();
    let mut object = ObjectInitializer::new(context);
    object.property(js("__node"), JsValue::from(node as f64), Attribute::empty());
    for (name, get, set) in getters {
        object.accessor(js(name), Some(get), set, Attribute::all());
    }
    for (name, method) in methods {
        object.function(native(world, method), js(name), 1);
    }
    object
        .property(js("style"), style, Attribute::all())
        .property(js("dataset"), dataset, Attribute::all())
        .property(js("classList"), classes, Attribute::all())
        .build()
}

// ---------------------------------------------------------------------------
// Globals
// ---------------------------------------------------------------------------

fn find_in_page(
    world: World,
    context: &mut Context,
    find: impl FnOnce(&Document) -> Option<NodeId>,
) -> JsValue {
    let found = world.with(|state| state.session.page().and_then(find));
    element_or_null(world, found, context)
}

fn list_in_page(
    world: World,
    context: &mut Context,
    find: impl FnOnce(&Document) -> Vec<NodeId>,
) -> JsValue {
    let found = world.with(|state| state.session.page().map(find));
    element_list(world, found.unwrap_or_default(), context)
}

fn document_object(world: World, context: &mut Context) -> JsObject {
    let getters: [(&str, Native); 4] = [
        ("body", |world, _, _, context| {
            Ok(find_in_page(world, context, |document| {
                Some(dom::element_or_root(document, "body"))
            }))
        }),
        ("head", |world, _, _, context| {
            Ok(find_in_page(world, context, |document| dom::first_element_by_tag(document, "head")))
        }),
        ("documentElement", |world, _, _, context| {
            Ok(find_in_page(world, context, |document| {
                Some(dom::element_or_root(document, "html"))
            }))
        }),
        ("readyState", |_, _, _, _| Ok(text_value("complete"))),
    ];
    let methods: [(&str, Native); 8] = [
        ("getElementById", |world, _, args, context| {
            let id = string_arg(args, 0, context);
            Ok(find_in_page(world, context, |document| dom::get_element_by_id(document, &id)))
        }),
        ("querySelector", |world, _, args, context| {
            let selector = string_arg(args, 0, context);
            Ok(find_in_page(world, context, |document| {
                dom::query_selector(document, &selector, None)
            }))
        }),
        ("querySelectorAll", |world, _, args, context| {
            let selector = string_arg(args, 0, context);
            Ok(list_in_page(world, context, |document| {
                dom::query_selector_all(document, &selector, None)
            }))
        }),
        ("getElementsByClassName", |world, _, args, context| {
            let class = string_arg(args, 0, context);
            Ok(list_in_page(world, context, |document| {
                dom::get_elements_by_class_name(document, &class)
            }))
        }),
        ("getElementsByTagName", |world, _, args, context| {
            let tag = string_arg(args, 0, context);
            Ok(list_in_page(world, context, |document| {
                dom::get_elements_by_tag_name(document, &tag)
            }))
        }),
        ("createElement", |world, _, args, context| {
            let tag = string_arg(args, 0, context);
            let node = world
                .with(|state| state.document().map(|document| document.create_element(&tag)));
            Ok(element_or_null(world, node, context))
        }),
        ("addEventListener", |world, _, args, context| {
            register(world, 0, args, context);
            Ok(JsValue::undefined())
        }),
        ("removeEventListener", |world, _, args, context| {
            unregister(world, 0, args, context);
            Ok(JsValue::undefined())
        }),
    ];
    let cookie_get: Native =
        |world, _, _, _| Ok(text_value(&world.with(|state| state.bridge.cookie_header.clone())));
    let cookie_set: Native = |world, _, args, context| {
        let header = string_arg(args, 0, context);
        world.with(|state| state.bridge.set_cookie(header));
        Ok(JsValue::undefined())
    };
    let cookie_get = function(world, cookie_get, context);
    let cookie_set = function(world, cookie_set, context);
    let getters: Vec<_> = getters
        .into_iter()
        .map(|(name, get)| (name, function(world, get, context)))
        .collect();
    let mut object = ObjectInitializer::new(context);
    object.property(js("__node"), JsValue::from(0.0), Attribute::empty());
    for (name, get) in getters {
        object.accessor(js(name), Some(get), None, Attribute::all());
    }
    for (name, method) in methods {
        object.function(native(world, method), js(name), 1);
    }
    object.accessor(js("cookie"), Some(cookie_get), Some(cookie_set), Attribute::all()).build()
}

fn queue_timer(world: World, args: &[JsValue], repeats: bool, context: &mut Context) -> JsValue {
    let Some(callback) = args.first().and_then(JsValue::as_object) else {
        return JsValue::undefined();
    };
    let delay =
        args.get(1).and_then(|value| value.to_number(context).ok()).unwrap_or(0.0).max(0.0);
    let id = world.with(|state| {
        let callback = state.callback(&callback);
        let due = ordinal(state.now_ms + delay);
        let id = state.bridge.queue_timer(due, repeats, callback);
        state.intervals.insert(id, delay.max(1.0));
        id
    });
    JsValue::from(id as f64)
}

fn json_method(name: &str, context: &mut Context) -> JsResult<JsObject> {
    let json = context.global_object().get(js("JSON"), context)?;
    let json = json.as_object().ok_or_else(|| type_error("JSON missing"))?;
    let method = json.get(js(name), context)?;
    method.as_callable().ok_or_else(|| type_error("JSON method missing"))
}

fn update_history(
    world: World,
    args: &[JsValue],
    replace: bool,
    context: &mut Context,
) -> JsResult<JsValue> {
    let state = match args.first() {
        Some(value) if !value.is_null_or_undefined() => json_method("stringify", context)?
            .call(&JsValue::undefined(), std::slice::from_ref(value), context)
            .ok()
            .and_then(|text| text.as_string().map(|text| text.to_std_string_escaped())),
        _ => None,
    };
    let target = match args.get(2) {
        Some(value) if !value.is_null_or_undefined() => Some(string_arg(args, 2, context)),
        _ => None,
    };
    let applied = world.with(|world| {
        let base = world.bridge.url.clone();
        let url = match (&base, &target) {
            (Some(base), Some(target)) => Some(join(base, target)),
            (base, _) => base.clone(),
        };
        world.bridge.update_history(url, state, replace)
    });
    if applied {
        Ok(JsValue::undefined())
    } else {
        Err(type_error("SecurityError: history URL must be same-origin with the page"))
    }
}

fn history_object(world: World, context: &mut Context) -> JsObject {
    let methods: [(&str, Native); 5] = [
        ("pushState", |world, _, args, context| update_history(world, args, false, context)),
        ("replaceState", |world, _, args, context| update_history(world, args, true, context)),
        ("back", |world, _, _, _| {
            world.with(|state| state.bridge.traverse(-1));
            Ok(JsValue::undefined())
        }),
        ("forward", |world, _, _, _| {
            world.with(|state| state.bridge.traverse(1));
            Ok(JsValue::undefined())
        }),
        ("go", |world, _, args, context| {
            let step = args.first().and_then(|value| value.to_number(context).ok());
            world.with(|state| state.bridge.traverse(step.unwrap_or(0.0).signum() as i8));
            Ok(JsValue::undefined())
        }),
    ];
    let length: Native = |world, _, _, _| {
        Ok(JsValue::from(world.with(|state| state.bridge.history_length) as f64))
    };
    let current: Native = |world, _, _, context| {
        let Some(text) = world.with(|state| state.bridge.history_state.clone()) else {
            return Ok(JsValue::null());
        };
        let parse = json_method("parse", context)?;
        Ok(parse.call(&JsValue::undefined(), &[text_value(&text)], context).unwrap_or_default())
    };
    let (length, current) = (function(world, length, context), function(world, current, context));
    let mut object = ObjectInitializer::new(context);
    for (name, method) in methods {
        object.function(native(world, method), js(name), 3);
    }
    object
        .accessor(js("length"), Some(length), None, Attribute::all())
        .accessor(js("state"), Some(current), None, Attribute::all())
        .build()
}

fn location_object(world: World, context: &mut Context) -> JsObject {
    let get: Native = |world, _, _, _| {
        let text = world.with(|state| state.bridge.url.as_ref().map(|url| url.text.clone()));
        Ok(text_value(&text.unwrap_or_default()))
    };
    let set: Native = |world, _, args, context| {
        let target = string_arg(args, 0, context);
        world.with(|state| state.bridge.navigate(target));
        Ok(JsValue::undefined())
    };
    let reload: Native = |world, _, _, _| {
        world.with(|state| state.bridge.reload());
        Ok(JsValue::undefined())
    };
    let (get, set) = (function(world, get, context), function(world, set, context));
    ObjectInitializer::new(context)
        .accessor(js("href"), Some(get), Some(set), Attribute::all())
        .function(native(world, reload), js("reload"), 0)
        .build()
}

fn navigator_object(context: &mut Context) -> JsObject {
    let languages = JsArray::from_iter([text_value("tr-TR"), text_value("en")], context);
    ObjectInitializer::new(context)
        .property(js("userAgent"), js(natives::USER_AGENT), Attribute::all())
        .property(js("language"), js("tr-TR"), Attribute::all())
        .property(js("languages"), languages, Attribute::all())
        .property(js("platform"), js(natives::platform("linux")), Attribute::all())
        .property(js("onLine"), true, Attribute::all())
        .build()
}

/// The natives of one kind of storage.
struct StorageNatives {
    get: Native,
    set: Native,
    remove: Native,
    clear: Native,
    length: Native,
    get_trap: Native,
    set_trap: Native,
}

fn stored(value: Option<String>, missing: JsValue) -> JsValue {
    value.map_or(missing, |value| text_value(&value))
}

/// The own property of a storage object that a name is, if it is one.
fn storage_method(args: &[JsValue], context: &mut Context) -> JsResult<Option<JsValue>> {
    let target = args.first().and_then(JsValue::as_object);
    let name = js(&string_arg(args, 1, context));
    match target {
        Some(target) if target.has_property(name.clone(), context)? => {
            Ok(Some(target.get(name, context)?))
        }
        _ => Ok(None),
    }
}

fn local_storage() -> StorageNatives {
    StorageNatives {
        get: |world, _, args, context| {
            let key = string_arg(args, 0, context);
            Ok(stored(world.with(|state| state.bridge.local_get(&key)), JsValue::null()))
        },
        set: |world, _, args, context| {
            let (key, value) = (string_arg(args, 0, context), string_arg(args, 1, context));
            world.with(|state| state.bridge.local_set(key, value));
            Ok(JsValue::undefined())
        },
        remove: |world, _, args, context| {
            let key = string_arg(args, 0, context);
            world.with(|state| state.bridge.local_remove(&key));
            Ok(JsValue::undefined())
        },
        clear: |world, _, _, _| {
            world.with(|state| state.bridge.local_clear());
            Ok(JsValue::undefined())
        },
        length: |world, _, _, _| {
            Ok(JsValue::from(world.with(|state| state.bridge.local_storage.len()) as f64))
        },
        get_trap: |world, _, args, context| {
            if let Some(own) = storage_method(args, context)? {
                return Ok(own);
            }
            let key = string_arg(args, 1, context);
            Ok(stored(world.with(|state| state.bridge.local_get(&key)), JsValue::undefined()))
        },
        set_trap: |world, _, args, context| {
            let (key, value) = (string_arg(args, 1, context), string_arg(args, 2, context));
            world.with(|state| state.bridge.local_set(key, value));
            Ok(JsValue::from(true))
        },
    }
}

fn session_storage() -> StorageNatives {
    StorageNatives {
        get: |world, _, args, context| {
            let key = string_arg(args, 0, context);
            Ok(stored(world.with(|state| state.bridge.session_get(&key)), JsValue::null()))
        },
        set: |world, _, args, context| {
            let (key, value) = (string_arg(args, 0, context), string_arg(args, 1, context));
            world.with(|state| state.bridge.session_set(key, value));
            Ok(JsValue::undefined())
        },
        remove: |world, _, args, context| {
            let key = string_arg(args, 0, context);
            world.with(|state| state.bridge.session_remove(&key));
            Ok(JsValue::undefined())
        },
        clear: |world, _, _, _| {
            world.with(|state| state.bridge.session_clear());
            Ok(JsValue::undefined())
        },
        length: |world, _, _, _| {
            Ok(JsValue::from(world.with(|state| state.bridge.session_storage.len()) as f64))
        },
        get_trap: |world, _, args, context| {
            if let Some(own) = storage_method(args, context)? {
                return Ok(own);
            }
            let key = string_arg(args, 1, context);
            Ok(stored(world.with(|state| state.bridge.session_get(&key)), JsValue::undefined()))
        },
        set_trap: |world, _, args, context| {
            let (key, value) = (string_arg(args, 1, context), string_arg(args, 2, context));
            world.with(|state| state.bridge.session_set(key, value));
            Ok(JsValue::from(true))
        },
    }
}

fn storage_object(world: World, natives: StorageNatives, context: &mut Context) -> JsObject {
    let length = function(world, natives.length, context);
    let target = ObjectInitializer::new(context)
        .function(native(world, natives.get), js("getItem"), 1)
        .function(native(world, natives.set), js("setItem"), 2)
        .function(native(world, natives.remove), js("removeItem"), 1)
        .function(native(world, natives.clear), js("clear"), 0)
        .accessor(js("length"), Some(length), None, Attribute::all())
        .build();
    let get = function(world, natives.get_trap, context);
    let set = function(world, natives.set_trap, context);
    proxy(target, get, set, context)
}

// ---------------------------------------------------------------------------
// fetch and XMLHttpRequest
// ---------------------------------------------------------------------------

fn fetch(
    world: World,
    _this: &JsValue,
    args: &[JsValue],
    context: &mut Context,
) -> JsResult<JsValue> {
    let target = string_arg(args, 0, context);
    let option = args
        .get(1)
        .and_then(JsValue::as_object)
        .and_then(|options| options.get(js("credentials"), context).ok())
        .and_then(|value| value.to_string(context).ok())
        .map(|value| value.to_std_string_escaped());
    let with_credentials = natives::fetch_credentials(option.as_deref());
    let (promise, resolvers) = JsPromise::new_pending(context);
    world.with(|state| {
        state.promises.push((resolvers.resolve.into(), resolvers.reject.into()));
        let settle = state.promises.len() as u64 - 1;
        state.bridge.queue_fetch(FetchCall { target, with_credentials, settle });
    });
    Ok(promise.into())
}

fn response_object(world: World, body: &str, context: &mut Context) -> JsObject {
    let text: Native = |_, this, _, context| {
        let object = this.as_object().ok_or_else(|| type_error("no response"))?;
        let body = object.get(js("__body"), context)?;
        Ok(JsPromise::resolve(body, context).into())
    };
    let json: Native = |_, this, _, context| {
        let object = this.as_object().ok_or_else(|| type_error("no response"))?;
        let body = object.get(js("__body"), context)?;
        let parse = json_method("parse", context)?;
        Ok(match parse.call(&JsValue::undefined(), &[body], context) {
            Ok(value) => JsPromise::resolve(value, context).into(),
            Err(error) => JsPromise::reject(error, context).into(),
        })
    };
    ObjectInitializer::new(context)
        .property(js("ok"), true, Attribute::all())
        .property(js("status"), 200, Attribute::all())
        .property(js("__body"), js(body), Attribute::empty())
        .function(native(world, text), js("text"), 0)
        .function(native(world, json), js("json"), 0)
        .build()
}

fn property_text(object: &JsObject, name: &str, context: &mut Context) -> String {
    object
        .get(js(name), context)
        .ok()
        .and_then(|value| value.to_string(context).ok())
        .map(|value| value.to_std_string_escaped())
        .unwrap_or_default()
}

fn xml_http_request(
    world: World,
    _this: &JsValue,
    _args: &[JsValue],
    context: &mut Context,
) -> JsResult<JsValue> {
    let open: Native = |_, this, args, context| {
        let object = this.as_object().ok_or_else(|| type_error("open on a non-xhr"))?;
        let method = natives::xhr_method(&string_arg(args, 0, context));
        let target = string_arg(args, 1, context);
        let headers = JsArray::new(context);
        object.set(js("__method"), js(&method), false, context)?;
        object.set(js("__url"), js(&target), false, context)?;
        object.set(js("__headers"), JsValue::from(headers), false, context)?;
        object.set(js("readyState"), 1, false, context)?;
        Ok(JsValue::undefined())
    };
    let set_header: Native = |_, this, args, context| {
        let object = this.as_object().ok_or_else(|| type_error("header of a non-xhr"))?;
        let headers = object.get(js("__headers"), context)?;
        let headers = headers.as_object().ok_or_else(|| type_error("no headers"))?;
        let headers = JsArray::from_object(headers)?;
        headers.push(text_value(&string_arg(args, 0, context)), context)?;
        headers.push(text_value(&string_arg(args, 1, context)), context)?;
        Ok(JsValue::undefined())
    };
    let send: Native = |world, this, args, context| {
        let object = this.as_object().ok_or_else(|| type_error("send on a non-xhr"))?;
        let url = property_text(&object, "__url", context);
        let method = property_text(&object, "__method", context);
        let headers = object.get(js("__headers"), context)?;
        let headers = headers.as_object().ok_or_else(|| type_error("no headers"))?;
        let headers = JsArray::from_object(headers)?;
        let mut items = Vec::new();
        for index in 0..headers.length(context)? {
            let item = headers.get(index, context)?;
            items.push(item.to_string(context)?.to_std_string_escaped());
        }
        let body = match args.first() {
            Some(value) if !value.is_null_or_undefined() => Some(string_arg(args, 0, context)),
            _ => None,
        };
        let with_credentials = object.get(js("withCredentials"), context)?.to_boolean();
        let sent = world.with(|state| {
            state.xhrs.push(object.clone());
            state.bridge.send_xhr(XhrCall {
                method,
                url,
                headers: natives::pair_headers(&items),
                body,
                with_credentials,
                xhr: state.xhrs.len() as u64 - 1,
            })
        });
        if sent {
            Ok(JsValue::undefined())
        } else {
            Err(type_error("XMLHttpRequest.send called before open"))
        }
    };
    let headers = JsArray::new(context);
    Ok(ObjectInitializer::new(context)
        .property(js("readyState"), 0, Attribute::all())
        .property(js("status"), 0, Attribute::all())
        .property(js("responseText"), js(""), Attribute::all())
        .property(js("response"), js(""), Attribute::all())
        .property(js("withCredentials"), false, Attribute::all())
        .property(js("__headers"), JsValue::from(headers), Attribute::empty())
        .function(native(world, open), js("open"), 2)
        .function(native(world, set_header), js("setRequestHeader"), 2)
        .function(native(world, send), js("send"), 1)
        .build()
        .into())
}

fn fire(world: World, xhr: &JsObject, handler: &str, event: &str, context: &mut Context) {
    let Some(callback) = xhr.get(js(handler), context).ok().and_then(|value| value.as_callable())
    else {
        return;
    };
    let event = ObjectInitializer::new(context)
        .property(js("type"), js(event), Attribute::all())
        .property(js("target"), xhr.clone(), Attribute::all())
        .build();
    if let Err(error) = callback.call(&xhr.clone().into(), &[event.into()], context) {
        world.with(|state| state.report(&error));
    }
}

fn settle_xhr(
    world: World,
    xhr: &JsObject,
    result: Result<String, ReadFailure>,
    context: &mut Context,
) {
    let settled = natives::settle_xhr(result);
    let _ = xhr.set(js("status"), settled.status, false, context);
    if let Some(text) = &settled.text {
        let _ = xhr.set(js("responseText"), js(text), false, context);
        let _ = xhr.set(js("response"), js(text), false, context);
    }
    let _ = xhr.set(js("readyState"), 4, false, context);
    fire(world, xhr, "onreadystatechange", "readystatechange", context);
    fire(world, xhr, settled.handler, settled.event, context);
}

fn install_globals(world: World, context: &mut Context) {
    let log: Native = |_, _, args, context| {
        let words: Vec<String> =
            (0..args.len()).map(|index| string_arg(args, index, context)).collect();
        println!("[js] {}", words.join(" "));
        Ok(JsValue::undefined())
    };
    let console = ObjectInitializer::new(context)
        .function(native(world, log), js("log"), 1)
        .function(native(world, log), js("warn"), 1)
        .function(native(world, log), js("error"), 1)
        .build();
    let xhr = FunctionObjectBuilder::new(context.realm(), native(world, xml_http_request))
        .name(js("XMLHttpRequest"))
        .length(0)
        .constructor(true)
        .build();
    let globals: [(&str, JsValue); 10] = [
        ("console", console.into()),
        ("document", document_object(world, context).into()),
        ("location", location_object(world, context).into()),
        ("XMLHttpRequest", xhr.into()),
        ("history", history_object(world, context).into()),
        ("navigator", navigator_object(context).into()),
        ("localStorage", storage_object(world, local_storage(), context).into()),
        ("sessionStorage", storage_object(world, session_storage(), context).into()),
        ("window", context.global_object().into()),
        ("self", context.global_object().into()),
    ];
    for (name, value) in globals {
        context.register_global_property(js(name), value, Attribute::all()).unwrap();
    }
    let functions: [(&str, Native); 7] = [
        ("addEventListener", |world, _, args, context| {
            register(world, 0, args, context);
            Ok(JsValue::undefined())
        }),
        ("removeEventListener", |world, _, args, context| {
            unregister(world, 0, args, context);
            Ok(JsValue::undefined())
        }),
        ("setTimeout", |world, _, args, context| Ok(queue_timer(world, args, false, context))),
        ("setInterval", |world, _, args, context| Ok(queue_timer(world, args, true, context))),
        ("clearTimeout", clear_timer),
        ("clearInterval", clear_timer),
        ("fetch", fetch),
    ];
    for (name, action) in functions {
        context.register_global_builtin_callable(js(name), 2, native(world, action)).unwrap();
    }
}

fn clear_timer(
    world: World,
    _this: &JsValue,
    args: &[JsValue],
    context: &mut Context,
) -> JsResult<JsValue> {
    if let Some(id) = args.first().and_then(|value| value.to_number(context).ok()) {
        world.with(|state| state.bridge.clear_timer(id as u64));
    }
    Ok(JsValue::undefined())
}

// ---------------------------------------------------------------------------
// Jobs and modules
// ---------------------------------------------------------------------------

/// Drains the job queues within the budget of one entry.
struct Jobs {
    world: World,
    promise: RefCell<VecDeque<PromiseJob>>,
    parked: RefCell<VecDeque<NativeAsyncJob>>,
    timeout: RefCell<BTreeMap<JsInstant, TimeoutJob>>,
    generic: RefCell<VecDeque<GenericJob>>,
}

impl Jobs {
    fn new(world: World) -> Self {
        Jobs {
            world,
            promise: RefCell::new(VecDeque::new()),
            parked: RefCell::new(VecDeque::new()),
            timeout: RefCell::new(BTreeMap::new()),
            generic: RefCell::new(VecDeque::new()),
        }
    }

    fn clear(&self) {
        self.promise.borrow_mut().clear();
        self.parked.borrow_mut().clear();
        self.timeout.borrow_mut().clear();
        self.generic.borrow_mut().clear();
    }

    /// Runs what is queued now; gives how many jobs ran.
    fn run_queued(&self, context: &RefCell<&mut Context>) -> JsResult<usize> {
        let now = context.borrow().clock().now();
        let mut waiting = self.timeout.borrow_mut().split_off(&now);
        waiting.retain(|_, job| !job.is_cancelled());
        let due = std::mem::replace(&mut *self.timeout.borrow_mut(), waiting);
        let mut ran = 0;
        for job in due.into_values() {
            ran += 1;
            job.call(&mut context.borrow_mut())?;
        }
        let jobs = std::mem::take(&mut *self.promise.borrow_mut());
        for job in jobs {
            ran += 1;
            job.call(&mut context.borrow_mut())?;
        }
        let jobs = std::mem::take(&mut *self.generic.borrow_mut());
        for job in jobs {
            ran += 1;
            job.call(&mut context.borrow_mut())?;
        }
        Ok(ran)
    }
}

impl JobExecutor for Jobs {
    fn enqueue_job(self: Rc<Self>, job: Job, context: &mut Context) {
        match job {
            Job::PromiseJob(job) => self.promise.borrow_mut().push_back(job),
            Job::AsyncJob(job) => self.parked.borrow_mut().push_back(job),
            Job::TimeoutJob(job) => {
                let now = context.clock().now();
                self.timeout.borrow_mut().insert(now + job.timeout(), job);
            }
            Job::GenericJob(job) => self.generic.borrow_mut().push_back(job),
            _ => {}
        }
    }

    fn run_jobs(self: Rc<Self>, context: &mut Context) -> JsResult<()> {
        future::block_on(self.run_jobs_async(&RefCell::new(context)))
    }

    async fn run_jobs_async(self: Rc<Self>, context: &RefCell<&mut Context>) -> JsResult<()> {
        let mut group = FutureGroup::new();
        let mut budget = JobBudget::new();
        loop {
            let drained = std::mem::take(&mut *self.parked.borrow_mut());
            let mut progressed = !drained.is_empty();
            for job in drained {
                group.insert(job.call(context));
            }
            let now = context.borrow().clock().now();
            let idle = self.promise.borrow().is_empty()
                && self.parked.borrow().is_empty()
                && self.generic.borrow().is_empty()
                && !self.timeout.borrow().keys().any(|due| &now >= due)
                && group.is_empty();
            if !budget.begins(idle) {
                return Ok(());
            }
            match future::poll_once(group.next()).await {
                Some(Some(Err(error))) => {
                    self.clear();
                    return Err(error);
                }
                Some(Some(Ok(_))) => progressed = true,
                Some(None) | None => {}
            }
            match self.run_queued(context) {
                Ok(ran) => {
                    budget.ran(ran);
                    progressed |= ran > 0;
                }
                Err(error) => {
                    self.clear();
                    return Err(error);
                }
            }
            context.borrow_mut().clear_kept_objects();
            let activity = self.world.with(|state| state.network.module_activity());
            if after_round(progressed, activity) == JobStep::Stop {
                return Ok(());
            }
            future::yield_now().await;
        }
    }
}

/// Serves imports from fetched sources and, at run time, from the network.
struct Loader {
    world: World,
}

impl Loader {
    fn parse(&self, key: &str, source: &str, context: &mut Context) -> JsResult<Module> {
        let text = Source::from_bytes(source.as_bytes()).with_path(Path::new(key));
        let module = Module::parse(text, None, context)?;
        self.world.with(|state| {
            state.modules.note_parsed(key);
            state.parsed.insert(key.to_string(), module.clone());
        });
        Ok(module)
    }

    async fn load_over_network(
        &self,
        target: &Url,
        context: &RefCell<&mut Context>,
    ) -> JsResult<Module> {
        let slot = self.world.with(|state| {
            let page = state.bridge.url.as_ref();
            let request = prepare_module_request(page, &state.bridge.cookie_header, target)?;
            let (slot, start) = state.network.submit_module(request);
            state.begin(start);
            Some(slot)
        });
        let slot = slot.ok_or_else(|| type_error("module fetch blocked"))?;
        let response = loop {
            if let Some(outcome) = self.world.with(|state| state.slots.remove(&slot)) {
                break outcome;
            }
            future::yield_now().await;
        };
        let response = response.map_err(|_| type_error("module fetch failed"))?;
        self.world.with(|state| {
            state.network.note_module_cookies(response.final_url, response.set_cookies);
            state.modules.give_source(&target.text, &response.text);
        });
        self.parse(&target.text, &response.text, &mut context.borrow_mut())
    }
}

impl ModuleLoader for Loader {
    async fn load_imported_module(
        self: Rc<Self>,
        referrer: Referrer,
        specifier: JsString,
        context: &RefCell<&mut Context>,
    ) -> JsResult<Module> {
        let base = referrer
            .path()
            .and_then(|path| path.to_str())
            .ok_or_else(|| type_error("import without a referrer URL"))?;
        let target = join(&url(base), &specifier.to_std_string_escaped());
        match self.world.with(|state| state.modules.import(&target.text)) {
            ImportStep::Cached => {
                Ok(self.world.with(|state| state.parsed[&target.text].clone()))
            }
            ImportStep::Parse(source) => {
                self.parse(&target.text, &source, &mut context.borrow_mut())
            }
            ImportStep::Fetch => self.load_over_network(&target, context).await,
            ImportStep::Missing => {
                Err(type_error(&format!("module not fetched: {}", target.text)))
            }
        }
    }
}

// ---------------------------------------------------------------------------
// A page's script world
// ---------------------------------------------------------------------------

struct Scripts {
    world: World,
    context: Context,
}

impl Scripts {
    fn new(world: World) -> Option<Scripts> {
        Scripts::with_network(world, NetworkQueue::inline())
    }

    fn with_network(world: World, network: NetworkQueue) -> Option<Scripts> {
        let entries = world.with(|state| {
            let base = state.session.current_url().unwrap().clone();
            let found = find_scripts(state.session.page().unwrap());
            let fetched: Vec<Fetched> = found
                .iter()
                .map(|script| {
                    let target = join(&base, script.src.as_ref()?);
                    let response = state.fetch(target.clone()).ok()?;
                    Some((target.text, response.text))
                })
                .collect();
            let entries = classify_scripts(&found, &fetched, &base.text);
            if !needs_world(&entries, state.session.page()) {
                return None;
            }
            state.network = network;
            state.page = PageScripts::new();
            state.modules = ModuleSources::new();
            state.parsed.clear();
            Some(schedule(entries))
        })?;
        let mut context = Context::builder()
            .module_loader(Rc::new(Loader { world }))
            .job_executor(Rc::new(Jobs::new(world)))
            .build()
            .unwrap();
        context.runtime_limits_mut().set_loop_iteration_limit(LOOP_ITERATION_BUDGET);
        install_globals(world, &mut context);
        let mut scripts = Scripts { world, context };
        for entry in entries {
            match entry {
                ScriptEntry::Now(source) | ScriptEntry::Deferred(source) => {
                    scripts.eval_classic(&source)
                }
                ScriptEntry::Module { key, source } => scripts.run_module(&key, &source),
            }
        }
        world.with(|state| state.modules.enable_queue_fetch());
        scripts.pump();
        let traversed = world.with(|state| state.session.history.take_traversed());
        for event in lifecycle_events(traversed) {
            scripts.dispatch(0, &event);
        }
        Some(scripts)
    }

    fn enter(&mut self, action: impl FnOnce(&mut Context)) {
        self.world.with(|state| {
            let origin = state.session.current_url().map(origin_key);
            let local = match origin {
                Some(origin) => {
                    let file = state.files.get(&origin).map(String::as_str);
                    state.storage.load(&origin, file)
                }
                None => StringMap::new(),
            };
            state.page.check_in(&mut state.bridge, &state.session, local);
        });
        action(&mut self.context);
        if let Err(error) = self.context.run_jobs() {
            self.world.with(|state| state.report(&error));
        }
        self.world.with(|state| {
            let write =
                state.page.check_out(&mut state.bridge, &mut state.session, &mut state.storage);
            if let Some(write) = write {
                state.files.insert(write.origin, write.text);
            }
        });
    }

    fn eval_classic(&mut self, source: &str) {
        let world = self.world;
        let path = world.current();
        self.enter(|context| {
            let text = Source::from_bytes(source.as_bytes()).with_path(Path::new(&path));
            if let Err(error) = context.eval(text) {
                world.with(|state| state.report(&error));
            }
        });
    }

    fn run_module(&mut self, key: &str, source: &str) {
        self.world.with(|state| state.modules.give_source(key, source));
        let mut run = ModuleRun::new();
        loop {
            let mut promise = None;
            self.enter(|context| {
                let text = Source::from_bytes(source.as_bytes()).with_path(Path::new(key));
                match Module::parse(text, None, context) {
                    Ok(module) => promise = Some(module.load_link_evaluate(context)),
                    Err(error) => println!("[js] module parse error ({key}): {error}"),
                }
            });
            let result = match &promise {
                None => RoundResult::ParseError,
                Some(_) => self.world.with(|state| {
                    let misses = state.modules.take_misses();
                    if misses.is_empty() {
                        return RoundResult::Settled;
                    }
                    let mut result = RoundResult::Fetched;
                    for miss in misses {
                        match state.fetch(url(&miss)) {
                            Ok(response) => state.modules.give_source(&miss, &response.text),
                            Err(_) => result = RoundResult::FetchFailed,
                        }
                    }
                    result
                }),
            };
            if let (RoundResult::Settled, Some(promise)) = (result, &promise) {
                if let PromiseState::Rejected(_) = promise.state() {
                    println!("[js] module error ({key})");
                }
            }
            if run.step(result) != RoundStep::Again {
                return;
            }
        }
    }

    fn inline_handler(&mut self, node: NodeId, event: &str, source: &str) -> Option<JsObject> {
        let world = self.world;
        let known = world.with(|state| {
            let cached = state.page.inline_handlers.cached(node, event, source);
            cached.map(|known| known.map(|callback| state.callbacks[callback as usize].clone()))
        });
        if let Some(known) = known {
            return known;
        }
        let wrapped = inline_function(source);
        let mut compiled = None;
        self.enter(|context| match context.eval(Source::from_bytes(wrapped.as_bytes())) {
            Ok(value) => compiled = value.as_object(),
            Err(error) => println!("[js] inline handler error ({event}): {error}"),
        });
        world.with(|state| {
            let callback = compiled.as_ref().map(|object| state.callback(object));
            state.page.inline_handlers.remember(InlineHandler {
                node,
                event: event.to_string(),
                source: source.to_string(),
                callback,
            });
        });
        compiled
    }

    fn dispatch(&mut self, node: NodeId, event: &str) -> DispatchOutcome {
        let world = self.world;
        let mut plan = world.with(|state| state.page.dispatch(state.session.page(), node, event));
        if !plan.has_handlers() {
            return plan.outcome(false);
        }
        world.with(|state| state.bridge.begin_dispatch());
        while let Some((target, handler)) = plan.next_handler() {
            let target = *target;
            let resolved = match handler {
                Handler::Listener { callback, .. } => {
                    let callback = *callback as usize;
                    Some((world.with(|state| state.callbacks[callback].clone()), None))
                }
                Handler::Inline(source) => {
                    let source = source.clone();
                    self.inline_handler(target, event, &source)
                        .map(|callback| (callback, Some(target)))
                }
            };
            let Some((callback, this)) = resolved else {
                plan.skip();
                continue;
            };
            self.enter(|context| call_handler(world, &callback, this, target, event, context));
            let stopped = world.with(|state| state.bridge.stopped);
            world.with(|state| plan.ran(stopped, &mut state.page.listeners));
        }
        let prevented = world.with(|state| state.bridge.prevented);
        self.pump();
        plan.outcome(prevented)
    }

    fn tick(&mut self, now_ms: f64) -> bool {
        let world = self.world;
        let due = world.with(|state| {
            state.now_ms = now_ms;
            state.page.timers.due(ordinal(now_ms))
        });
        let mut ran = false;
        for id in due {
            let callback = world.with(|state| {
                let next = ordinal(now_ms + state.intervals[&id]);
                let callback = state.page.timers.fire(id, next)?;
                Some(state.callbacks[callback as usize].clone())
            });
            let Some(callback) = callback else {
                continue;
            };
            self.enter(|context| {
                if let Err(error) = callback.call(&JsValue::undefined(), &[], context) {
                    world.with(|state| state.report(&error));
                }
            });
            ran = true;
        }
        if ran {
            self.pump();
        }
        ran
    }

    /// Starts what scripts queued, and settles what has finished.
    fn pump(&mut self) {
        let world = self.world;
        let mut rounds = 0;
        loop {
            let settled = world.with(pump_round);
            rounds += 1;
            let any = !settled.is_empty();
            if any {
                self.enter(|context| settle(world, settled, context));
            }
            if !world.with(|state| state.page.pump_again(rounds, any)) {
                return;
            }
        }
    }

    fn next_due_ms(&self) -> Option<f64> {
        self.world.with(|state| state.page.timers.next_due().map(milliseconds))
    }

    fn has_timers(&self) -> bool {
        self.world.with(|state| state.page.has_timers())
    }

    fn has_pending_network(&self) -> bool {
        self.world.with(|state| state.page.has_pending_network())
    }

    fn has_listener(&self, node: NodeId, event: &str) -> bool {
        self.world.with(|state| state.page.has_listener(node, event))
    }

    fn take_navigation(&mut self) -> Option<String> {
        self.world.with(|state| state.page.take_navigation())
    }

    fn take_focus_request(&mut self) -> Option<Option<NodeId>> {
        self.world.with(|state| state.page.take_focus_request())
    }
}

fn call_handler(
    world: World,
    callback: &JsObject,
    this: Option<NodeId>,
    target: NodeId,
    event: &str,
    context: &mut Context,
) {
    let this = match this {
        Some(node) => JsValue::from(element_object(world, node, context)),
        None => JsValue::undefined(),
    };
    let prevented: Native =
        |world, _, _, _| Ok(JsValue::from(world.with(|state| state.bridge.prevented)));
    let prevent: Native = |world, _, _, _| {
        world.with(|state| state.bridge.prevent_default());
        Ok(JsValue::undefined())
    };
    let stop: Native = |world, _, _, _| {
        world.with(|state| state.bridge.stop_propagation());
        Ok(JsValue::undefined())
    };
    let prevented = function(world, prevented, context);
    let target = element_object(world, target, context);
    let event = ObjectInitializer::new(context)
        .property(js("type"), js(event), Attribute::all())
        .property(js("target"), target, Attribute::all())
        .accessor(js("defaultPrevented"), Some(prevented), None, Attribute::all())
        .function(native(world, prevent), js("preventDefault"), 0)
        .function(native(world, stop), js("stopPropagation"), 0)
        .build();
    if let Err(error) = callback.call(&this, &[event.into()], context) {
        world.with(|state| state.report(&error));
    }
}

/// One round of a pump: what it settles, in order.
fn pump_round(state: &mut State) -> Vec<Settlement> {
    for (url, headers) in state.network.take_module_cookies() {
        state.session.store_response_cookies(&url, &headers);
    }
    let (fetches, xhrs) = state.page.take_pending_reads();
    let base = state.session.current_url().cloned();
    let resolve = |target: &str| match &base {
        Some(base) => Ok(join(base, target)),
        None => Err("no page".to_string()),
    };
    let fetches = fetches.into_iter().map(|call| {
        let resolved = resolve(&call.target);
        (call, resolved)
    });
    let xhrs = xhrs.into_iter().map(|call| {
        let resolved = resolve(&call.url);
        (call, resolved)
    });
    let mut round = Round::new();
    let starts = round.start(
        &mut state.page.reads,
        &state.session,
        &mut state.network,
        fetches.collect(),
        xhrs.collect(),
    );
    for start in starts {
        state.begin(start);
    }
    let probed = std::mem::take(&mut state.probed);
    let reads = &mut state.page.reads;
    for start in round.answer(reads, &mut state.session, &mut state.network, probed) {
        state.begin(start);
    }
    let landed = std::mem::take(&mut state.landed);
    round.complete(&mut state.page.reads, &mut state.session, landed);
    round.finish()
}

fn settle(world: World, settled: Vec<Settlement>, context: &mut Context) {
    for (target, result) in settled {
        match target {
            SettleTarget::Fetch(settle) => {
                let (resolve, reject) =
                    world.with(|state| state.promises[settle as usize].clone());
                let outcome = match result {
                    Ok(body) => {
                        let response = response_object(world, &body, context);
                        resolve.call(&JsValue::undefined(), &[response.into()], context)
                    }
                    Err(failure) => {
                        let message = text_value(&failure.message());
                        reject.call(&JsValue::undefined(), &[message], context)
                    }
                };
                if let Err(error) = outcome {
                    world.with(|state| state.report(&error));
                }
            }
            SettleTarget::Xhr(xhr) => {
                let xhr = world.with(|state| state.xhrs[xhr as usize].clone());
                settle_xhr(world, &xhr, result, context);
            }
        }
    }
}

/// A loaded page with its subresources.
fn files(files: &[(&str, &str)]) -> World {
    let world = World::new(Server::new(files));
    world.load("https://a.test/");
    world
}

fn page(source: &str) -> World {
    files(&[("https://a.test/", source)])
}

/// A loaded page whose server grants cross-origin reads.
fn acao_files(files: &[(&str, &str)], acao: &[(&str, &str)]) -> World {
    let mut server = Server::new(files);
    for (url, value) in acao {
        server = server.with_acao(url, value);
    }
    let world = World::new(server);
    world.load("https://a.test/");
    world
}

#[test]
fn repeated_script_errors_are_throttled_after_the_budget() {
    let message = "TypeError: cannot convert 'null' or 'undefined' to object (throttle test)";
    let mut tally = ErrorTally::new();
    assert_eq!(tally.tally_error(message), ErrorReport::Print);
    assert_eq!(tally.tally_error(message), ErrorReport::Print);
    assert_eq!(tally.tally_error(message), ErrorReport::Print);
    assert_eq!(tally.tally_error(message), ErrorReport::LastOne);
    assert_eq!(tally.tally_error(message), ErrorReport::Silent);
    assert_eq!(tally.tally_error(message), ErrorReport::Silent);
}

#[test]
fn zero_delay_timer_chains_run_once_per_tick() {
    let world = page(
        "<p id='out'>0</p><script>\
         let n = 0;\
         const out = document.getElementById('out');\
         function again() {\
           n++; out.textContent = String(n);\
           if (n < 3) { setTimeout(again, 0); }\
         }\
         setTimeout(again, 0);\
         </script>",
    );
    let mut scripts = Scripts::new(world).expect("page has scripts");
    // One tick runs only the snapshot: a setTimeout(f, 0) chain must
    // not spin forever inside a single tick.
    assert!(scripts.tick(0.0));
    assert_eq!(world.out_text(), "1");
    assert!(scripts.tick(0.0));
    assert_eq!(world.out_text(), "2");
    assert!(scripts.tick(0.0));
    assert_eq!(world.out_text(), "3");
    assert!(!scripts.has_timers());
}

#[test]
fn clearing_a_due_sibling_inside_a_tick_skips_it() {
    let world = page(
        "<p id='out'>-</p><script>\
         const out = document.getElementById('out');\
         let second;\
         setTimeout(() => { clearTimeout(second); out.textContent = 'birinci'; }, 0);\
         second = setTimeout(() => { out.textContent = 'ikinci'; }, 0);\
         </script>",
    );
    let mut scripts = Scripts::new(world).expect("page has scripts");
    assert!(scripts.tick(0.0));
    assert_eq!(world.out_text(), "birinci");
    assert!(!scripts.has_timers());
}

#[test]
fn forged_node_handles_raise_type_errors() {
    let world = page(
        "<p id='out'>-</p><script>\
         const out = document.getElementById('out');\
         const getter = Object.getOwnPropertyDescriptor(out, 'textContent').get;\
         try {\
           getter.call({__node: 1e9});\
           out.textContent = 'no-throw';\
         } catch (error) {\
           out.textContent = (error instanceof TypeError) ? 'type-error' : 'other-error';\
         }\
         </script>",
    );
    Scripts::new(world).expect("page has scripts");
    // A fake {__node: 1e9} handle must not panic the arena index.
    assert_eq!(world.out_text(), "type-error");
}

#[test]
fn cookie_writes_replace_the_same_name() {
    let world = page(
        "<p id='out'>-</p><script>\
         document.cookie = 'a=1';\
         document.cookie = 'b=1';\
         document.cookie = 'a=2';\
         document.getElementById('out').textContent = document.cookie;\
         </script>",
    );
    Scripts::new(world).expect("page has scripts");
    // The rewrite of `a` replaced its pair instead of duplicating it.
    assert_eq!(world.out_text(), "b=1; a=2");
}

#[test]
fn next_timer_due_reports_the_earliest_deadline() {
    let world = page(
        "<script>\
         setTimeout(() => {}, 50);\
         setTimeout(() => {}, 10);\
         </script>",
    );
    let mut scripts = Scripts::new(world).expect("page has scripts");
    assert_eq!(scripts.next_due_ms(), Some(10.0));
    assert!(scripts.tick(20.0));
    assert_eq!(scripts.next_due_ms(), Some(50.0));
    assert!(scripts.tick(60.0));
    assert_eq!(scripts.next_due_ms(), None);
}

#[test]
fn dispatch_bubbles_in_registration_order() {
    let world = page(
        "<div id='outer'><button id='inner'>x</button></div><p id='out'></p><script>\
         const out = document.getElementById('out');\
         const inner = document.getElementById('inner');\
         const outer = document.getElementById('outer');\
         outer.addEventListener('click', () => { out.textContent += 'o1'; });\
         inner.addEventListener('click', () => { out.textContent += 'i1'; });\
         inner.addEventListener('click', () => { out.textContent += 'i2'; });\
         outer.addEventListener('click', () => { out.textContent += 'o2'; });\
         </script>",
    );
    let mut scripts = Scripts::new(world).expect("page has scripts");
    let inner = world.by_id("inner");
    let outer = world.by_id("outer");
    assert!(scripts.has_listener(inner, "click"));
    assert!(scripts.has_listener(outer, "click"));
    assert!(!scripts.has_listener(inner, "submit"));
    let outcome = scripts.dispatch(inner, "click");
    assert!(outcome.handled);
    // Target first (registration order), then the bubbling ancestors.
    assert_eq!(world.out_text(), "i1i2o1o2");
}

#[test]
fn module_graph_loads_links_and_runs() {
    let world = files(
        &[
            (
                "https://a.test/",
                "<p id='out'>-</p><script type='module' src='/a.js'></script>",
            ),
            (
                "https://a.test/a.js",
                "import { value } from './b.js';\
                 document.getElementById('out').textContent = value;",
            ),
            ("https://a.test/b.js", "export const value = 'mod-ok';"),
        ],
    );
    Scripts::new(world).expect("page has scripts");
    assert_eq!(world.out_text(), "mod-ok");
}

#[test]
fn modules_share_the_global_with_classic_scripts() {
    let world = files(
        &[
            (
                "https://a.test/",
                "<p id='out'>-</p>\
                 <script>window.answer = 42;</script>\
                 <script type='module'>window.fromModule = 'm' + String(answer);</script>\
                 <script defer src='/after.js'></script>",
            ),
            (
                "https://a.test/after.js",
                "document.getElementById('out').textContent = fromModule;",
            ),
        ],
    );
    Scripts::new(world).expect("page has scripts");
    // The module saw the classic script's global, and the deferred
    // classic script (running after the module) saw the module's.
    assert_eq!(world.out_text(), "m42");
}

#[test]
fn a_broken_import_spares_the_other_modules() {
    let world = files(
        &[
            (
                "https://a.test/",
                "<p id='out'>-</p>\
                 <script type='module' src='/bad.js'></script>\
                 <script type='module'>document.getElementById('out').textContent = 'survived';</script>",
            ),
            ("https://a.test/bad.js", "import './missing.js';"),
        ],
    );
    Scripts::new(world).expect("page has scripts");
    assert_eq!(world.out_text(), "survived");
}

#[test]
fn a_runaway_loop_errors_and_later_scripts_run() {
    let world = page(
        "<p id='out'>-</p>\
         <script>while (true) {}</script>\
         <script>document.getElementById('out').textContent = 'after';</script>",
    );
    Scripts::new(world).expect("page has scripts");
    assert_eq!(world.out_text(), "after");
}

#[test]
fn a_self_chaining_promise_does_not_block_the_page() {
    let world = page(
        "<p id='out'>-</p><script>\
         function f() { Promise.resolve().then(f); }\
         f();\
         document.getElementById('out').textContent = 'done';\
         </script>",
    );
    // run_jobs must return instead of draining the chain forever.
    Scripts::new(world).expect("page has scripts");
    assert_eq!(world.out_text(), "done");
}

#[test]
fn defer_and_modules_run_after_parsing_in_document_order() {
    let world = files(
        &[
            (
                "https://a.test/",
                "<p id='out'>-</p>\
                 <script defer src='/d1.js'></script>\
                 <script>document.getElementById('out').textContent += 'A';</script>\
                 <script type='module'>document.getElementById('out').textContent += 'M';</script>\
                 <script defer src='/d2.js'></script>\
                 <script>document.getElementById('out').textContent += 'B';</script>",
            ),
            (
                "https://a.test/d1.js",
                "document.getElementById('out').textContent += 'D1';",
            ),
            (
                "https://a.test/d2.js",
                "document.getElementById('out').textContent += 'D2';",
            ),
        ],
    );
    Scripts::new(world).expect("page has scripts");
    // Immediate classics first (A, B), then the post-parse queue in
    // document order: D1, the module, D2.
    assert_eq!(world.out_text(), "-ABD1MD2");
}

#[test]
fn inline_onclick_runs_with_element_this_and_event() {
    let world = page(
        "<button id='btn' onclick='document.getElementById(\"out\").textContent = this.id + \":\" + event.type;'>x</button>\
         <p id='out'>-</p>",
    );
    let mut scripts = Scripts::new(world).expect("page has scripts");
    let button = world.by_id("btn");
    let outcome = scripts.dispatch(button, "click");
    assert!(outcome.handled);
    assert_eq!(world.out_text(), "btn:click");
}

#[test]
fn inline_handler_prevent_default_cancels_the_default_action() {
    let world = page(
        "<a id='lnk' href='/x' onclick='event.preventDefault(); document.getElementById(\"out\").textContent = String(event.defaultPrevented);'>go</a>\
         <p id='out'>-</p>",
    );
    let mut scripts = Scripts::new(world).expect("page has scripts");
    let link = world.by_id("lnk");
    let outcome = scripts.dispatch(link, "click");
    // The shell skips navigation when the click is prevented.
    assert!(outcome.handled && outcome.prevented);
    assert_eq!(world.out_text(), "true");
}

#[test]
fn body_onload_fires_on_the_load_event() {
    let world = page(
        "<body onload='document.getElementById(\"out\").textContent = \"loaded\";'>\
         <p id='out'>-</p></body>",
    );
    Scripts::new(world).expect("page has scripts");
    assert_eq!(world.out_text(), "loaded");
}

#[test]
fn xhr_loads_text_and_fires_handlers() {
    let world = files(
        &[
            (
                "https://a.test/",
                "<p id='out'>-</p><script>\
                 const states = [];\
                 const xhr = new XMLHttpRequest();\
                 xhr.open('GET', '/data.txt');\
                 xhr.onreadystatechange = () => { states.push(xhr.readyState); };\
                 xhr.onload = () => {\
                   document.getElementById('out').textContent =\
                     states.join(',') + '|' + xhr.status + '|' + xhr.readyState + '|' + xhr.responseText;\
                 };\
                 xhr.send();\
                 </script>",
            ),
            ("https://a.test/data.txt", "merhaba"),
        ],
    );
    Scripts::new(world).expect("page has scripts");
    assert_eq!(world.out_text(), "4|200|4|merhaba");
}

#[test]
fn xhr_failure_fires_onerror() {
    let world = page(
        "<p id='out'>-</p><script>\
         const xhr = new XMLHttpRequest();\
         xhr.open('GET', '/missing');\
         xhr.onerror = () => {\
           document.getElementById('out').textContent = 'error:' + xhr.status;\
         };\
         xhr.onload = () => {\
           document.getElementById('out').textContent = 'unexpected';\
         };\
         xhr.send();\
         </script>",
    );
    Scripts::new(world).expect("page has scripts");
    assert_eq!(world.out_text(), "error:0");
}

#[test]
fn xhr_post_sends_the_body() {
    let world = files(
        &[
            (
                "https://a.test/",
                "<p id='out'>-</p><script>\
                 const xhr = new XMLHttpRequest();\
                 xhr.open('POST', '/echo');\
                 xhr.setRequestHeader('Content-Type', 'text/plain');\
                 xhr.onload = () => {\
                   document.getElementById('out').textContent = xhr.responseText;\
                 };\
                 xhr.send('payload');\
                 </script>",
            ),
            ("https://a.test/echo", "ok"),
        ],
    );
    Scripts::new(world).expect("page has scripts");
    assert_eq!(world.out_text(), "ok");
    // Page load GET (None) then the XHR POST with its body.
    assert_eq!(
        world.with(|state| state.server.bodies.clone()),
        vec![None, Some("payload".to_string())]
    );
}

#[test]
fn push_state_rewrites_the_url_without_reloading() {
    let world = page(
        "<p id='out'>-</p><script>\
         history.pushState({ derinlik: 1 }, '', '/yeni');\
         document.getElementById('out').textContent =\
           location.href + '|' + history.length + '|' + history.state.derinlik;\
         </script>",
    );
    Scripts::new(world).expect("page has scripts");
    assert_eq!(world.out_text(), "https://a.test/yeni|2|1");
    assert_eq!(
        world.current(),
        "https://a.test/yeni"
    );
    // No reload: the loader only ever saw the initial page fetch.
    assert_eq!(
        world.with(|state| state.server.loads.clone()),
        vec!["https://a.test/"]
    );
}

#[test]
fn replace_state_keeps_the_history_length() {
    let world = page(
        "<p id='out'>-</p><script>\
         history.replaceState(null, '', '/rep');\
         document.getElementById('out').textContent = location.href + '|' + history.length;\
         </script>",
    );
    Scripts::new(world).expect("page has scripts");
    assert_eq!(world.out_text(), "https://a.test/rep|1");
    assert_eq!(
        world.current(),
        "https://a.test/rep"
    );
}

#[test]
fn cross_origin_push_state_throws() {
    let world = page(
        "<p id='out'>-</p><script>\
         try {\
           history.pushState({}, '', 'https://evil.test/');\
           document.getElementById('out').textContent = 'no-throw';\
         } catch (error) {\
           document.getElementById('out').textContent = 'thrown';\
         }\
         </script>",
    );
    Scripts::new(world).expect("page has scripts");
    assert_eq!(world.out_text(), "thrown");
    assert_eq!(world.current(), "https://a.test/");
}

#[test]
fn history_back_traverses_and_fires_popstate() {
    let world = files(
        &[
            (
                "https://a.test/",
                "<p id='out'>-</p><script>\
                 window.addEventListener('popstate', () => {\
                   document.getElementById('out').textContent = 'popped';\
                 });\
                 </script>",
            ),
            (
                "https://a.test/iki",
                "<p>iki</p><script>history.back();</script>",
            ),
        ],
    );
    let _first = Scripts::new(world).expect("page has scripts");
    world.load("https://a.test/iki");
    let mut second = Scripts::new(world).expect("page has scripts");
    // history.back() surfaces as a traversal request for the shell.
    assert_eq!(second.take_navigation().as_deref(), Some("::back"));
    world.with(|state| {
        let target = state.session.history.back_target().unwrap();
        let outcome = state.render(target).map(|_| ());
        state.session.back(outcome).unwrap();
    });
    assert_eq!(world.current(), "https://a.test/");
    // The fresh world of the traversed-to page gets popstate.
    let _third = Scripts::new(world).expect("page has scripts");
    assert_eq!(world.out_text(), "popped");
}

#[test]
fn navigator_reports_identity() {
    let world = page(
        "<p id='out'>-</p><script>\
         document.getElementById('out').textContent =\
           navigator.userAgent + '|' + navigator.language + '|' +\
           navigator.platform + '|' + String(navigator.onLine) + '|' +\
           navigator.languages.join(',');\
         </script>",
    );
    Scripts::new(world).expect("page has scripts");
    let text = world.out_text();
    assert!(text.starts_with("Lumen/"), "userAgent: {text}");
    assert!(text.contains("|tr-TR|"), "language: {text}");
    assert!(text.ends_with("|true|tr-TR,en"), "rest: {text}");
}

#[test]
fn local_storage_round_trip() {
    let world = page(
        "<p id='out'>-</p><script>\
         localStorage.setItem('a', '1');\
         const { getItem } = localStorage;\
         localStorage.x = 'prop';\
         let result = [getItem('a'), localStorage.x, localStorage.length].join('|');\
         localStorage.removeItem('a');\
         result += '|' + String(getItem('a'));\
         localStorage.clear();\
         result += '|' + localStorage.length + '|' + String(getItem('x'));\
         document.getElementById('out').textContent = result;\
         </script>",
    );
    Scripts::new(world).expect("page has scripts");
    // Unbound getItem, named-property access, length all work.
    assert_eq!(world.out_text(), "1|prop|2|null|0|null");
}

#[test]
fn local_storage_persists_between_sessions() {
    let world = page("<script>localStorage.setItem('k', 'kalıcı');</script>");
    Scripts::new(world).expect("page has scripts");
    let files = world.with(|state| state.files.clone());
    // A brand-new session (fresh WebStorage) on the same origin and
    // with the same files sees the earlier session's write.
    let world = page(
        "<p id='out'>-</p><script>\
         document.getElementById('out').textContent = localStorage.getItem('k');\
         </script>",
    );
    world.with(|state| state.files = files);
    Scripts::new(world).expect("page has scripts");
    assert_eq!(world.out_text(), "kalıcı");
}

#[test]
fn session_storage_lives_in_the_world_only() {
    // Set within one script, read back from a later timer entry of
    // the SAME script world: still there.
    let world = page(
        "<p id='out'>-</p><script>\
         sessionStorage.setItem('k', 'oturum');\
         setTimeout(() => {\
           document.getElementById('out').textContent = sessionStorage.getItem('k');\
         }, 0);\
         </script>",
    );
    let mut scripts = Scripts::new(world).expect("page has scripts");
    assert!(scripts.tick(0.0));
    assert_eq!(world.out_text(), "oturum");
    let files = world.with(|state| state.files.clone());
    // But a new session's world starts empty.
    let world = page(
        "<p id='out'>-</p><script>\
         document.getElementById('out').textContent = String(sessionStorage.getItem('k'));\
         </script>",
    );
    world.with(|state| state.files = files);
    Scripts::new(world).expect("page has scripts");
    assert_eq!(world.out_text(), "null");
}

#[test]
fn fetch_settles_within_the_entry_with_the_inline_queue() {
    let world = files(
        &[
            (
                "https://a.test/",
                "<p id='out'>-</p><script>\
                 fetch('/data.txt')\
                   .then(r => r.text())\
                   .then(t => { document.getElementById('out').textContent = t; });\
                 </script>",
            ),
            ("https://a.test/data.txt", "inline-ok"),
        ],
    );
    // With the inline queue a fetch settles within the entry.
    Scripts::new(world).expect("page has scripts");
    assert_eq!(world.out_text(), "inline-ok");
}

#[test]
fn fetch_stays_pending_until_the_network_is_driven() {
    let world = files(
        &[
            (
                "https://a.test/",
                "<p id='out'>-</p><script>\
                 fetch('/data.txt')\
                   .then(r => r.text())\
                   .then(t => { document.getElementById('out').textContent = t; });\
                 </script>",
            ),
            ("https://a.test/data.txt", "async-ok"),
        ],
    );
    let mut scripts = Scripts::with_network(world, NetworkQueue::manual()).expect("page has scripts");
    // Submitted but parked on the queue: the promise is pending
    // across whole entries — the async behavior the threaded
    // shell sees, made deterministic.
    assert_eq!(world.out_text(), "-");
    assert!(scripts.has_pending_network());
    world.with(|state| state.drive());
    // Driven, but settlement still needs a pump on this thread.
    assert_eq!(world.out_text(), "-");
    scripts.pump();
    assert_eq!(world.out_text(), "async-ok");
    assert!(!scripts.has_pending_network());
}

#[test]
fn fetch_rejection_reaches_catch_after_the_drive() {
    let world = page(
        "<p id='out'>-</p><script>\
         fetch('/missing')\
           .then(() => { document.getElementById('out').textContent = 'unexpected'; })\
           .catch(() => { document.getElementById('out').textContent = 'caught'; });\
         </script>",
    );
    let mut scripts = Scripts::with_network(world, NetworkQueue::manual()).expect("page has scripts");
    assert_eq!(world.out_text(), "-");
    world.with(|state| state.drive());
    scripts.pump();
    assert_eq!(world.out_text(), "caught");
}

#[test]
fn same_origin_fetch_sends_cookies_and_reads() {
    let world = files(
        &[
            (
                "https://a.test/",
                "<p id='out'>-</p><script>\
                 document.cookie = 'sid=1';\
                 fetch('/data.txt')\
                   .then(r => r.text())\
                   .then(t => { document.getElementById('out').textContent = t; });\
                 </script>",
            ),
            ("https://a.test/data.txt", "same-origin-ok"),
        ],
    );
    Scripts::new(world).expect("page has scripts");
    assert_eq!(world.out_text(), "same-origin-ok");
    // The page load had no cookie yet; the fetch carried the jar's.
    let cookies = world.with(|state| state.server.cookies.clone());
    assert_eq!(cookies.len(), 2);
    assert_eq!(cookies[1].as_deref(), Some("sid=1"));
}

#[test]
fn cross_origin_fetch_goes_cookieless_and_rejects_without_a_grant() {
    // Same host but another scheme+port: cross-origin, yet the
    // jar's cookie WOULD domain-match — so an observed None proves
    // the policy stripped it, not the jar.
    let world = files(
        &[
            (
                "https://a.test/",
                "<p id='out'>-</p><script>\
                 document.cookie = 'sid=1';\
                 fetch('http://a.test:8080/data')\
                   .then(() => { document.getElementById('out').textContent = 'unexpected'; })\
                   .catch(() => { document.getElementById('out').textContent = 'caught'; });\
                 </script>",
            ),
            ("http://a.test:8080/data", "secret"),
        ],
    );
    Scripts::new(world).expect("page has scripts");
    // No Access-Control-Allow-Origin on the response: a network
    // error for JS, even though the load did go out.
    assert_eq!(world.out_text(), "caught");
    let cookies = world.with(|state| state.server.cookies.clone());
    assert_eq!(cookies.len(), 2);
    assert_eq!(cookies[1], None);
}

#[test]
fn cross_origin_fetch_resolves_with_a_wildcard_grant() {
    let world = acao_files(
        &[
            (
                "https://a.test/",
                "<p id='out'>-</p><script>\
                 document.cookie = 'sid=1';\
                 fetch('http://a.test:8080/data')\
                   .then(r => r.text())\
                   .then(t => { document.getElementById('out').textContent = t; });\
                 </script>",
            ),
            ("http://a.test:8080/data", "wild-ok"),
        ],
        &[("http://a.test:8080/data", "*")],
    );
    Scripts::new(world).expect("page has scripts");
    assert_eq!(world.out_text(), "wild-ok");
    let cookies = world.with(|state| state.server.cookies.clone());
    assert_eq!(cookies[1], None);
}

#[test]
fn cross_origin_fetch_resolves_only_with_the_pages_exact_origin() {
    let world = acao_files(
        &[
            (
                "https://a.test/",
                "<p id='out'>-</p><script>\
                 const out = document.getElementById('out');\
                 fetch('http://a.test:8080/exact')\
                   .then(r => r.text())\
                   .then(t => { out.textContent += '|' + t; })\
                   .catch(() => { out.textContent += '|exact-caught'; });\
                 fetch('http://a.test:8080/foreign')\
                   .then(() => { out.textContent += '|foreign-ok'; })\
                   .catch(() => { out.textContent += '|foreign-caught'; });\
                 </script>",
            ),
            ("http://a.test:8080/exact", "exact-ok"),
            ("http://a.test:8080/foreign", "foreign-body"),
        ],
        &[
            ("http://a.test:8080/exact", "https://a.test"),
            ("http://a.test:8080/foreign", "https://evil.test"),
        ],
    );
    Scripts::new(world).expect("page has scripts");
    // The exact-origin grant resolves; the foreign one rejects
    // (settlement order varies with the promise-chain lengths).
    let text = world.out_text();
    assert!(text.contains("exact-ok"), "{text}");
    assert!(text.contains("foreign-caught"), "{text}");
    assert!(!text.contains("exact-caught"), "{text}");
    assert!(!text.contains("foreign-ok"), "{text}");
}

#[test]
fn credentials_include_sends_cookies_but_rejects_a_wildcard_grant() {
    let world = acao_files(
        &[
            (
                "https://a.test/",
                "<p id='out'>-</p><script>\
                 document.cookie = 'sid=1';\
                 const out = document.getElementById('out');\
                 fetch('http://a.test:8080/star', { credentials: 'include' })\
                   .then(() => { out.textContent += '|star-ok'; })\
                   .catch(() => { out.textContent += '|star-caught'; });\
                 fetch('http://a.test:8080/exact', { credentials: 'include' })\
                   .then(r => r.text())\
                   .then(t => { out.textContent += '|' + t; })\
                   .catch(() => { out.textContent += '|exact-caught'; });\
                 </script>",
            ),
            ("http://a.test:8080/star", "star-body"),
            ("http://a.test:8080/exact", "inc-ok"),
        ],
        &[
            ("http://a.test:8080/star", "*"),
            ("http://a.test:8080/exact", "https://a.test"),
        ],
    );
    Scripts::new(world).expect("page has scripts");
    // '*' + credentials is an invalid grant (spec): rejected. The
    // exact-origin grant lets the credentialed read through.
    let text = world.out_text();
    assert!(text.contains("star-caught"), "{text}");
    assert!(text.contains("inc-ok"), "{text}");
    assert!(!text.contains("star-ok"), "{text}");
    assert!(!text.contains("exact-caught"), "{text}");
    // credentials: include DID send the cookie cross-origin, on both.
    let cookies = world.with(|state| state.server.cookies.clone());
    assert_eq!(cookies.len(), 3);
    assert_eq!(cookies[1].as_deref(), Some("sid=1"));
    assert_eq!(cookies[2].as_deref(), Some("sid=1"));
}

#[test]
fn cross_origin_xhr_follows_the_same_policy() {
    let world = acao_files(
        &[
            (
                "https://a.test/",
                "<p id='out'>-</p><script>\
                 document.cookie = 'sid=1';\
                 const out = document.getElementById('out');\
                 const blocked = new XMLHttpRequest();\
                 blocked.open('GET', 'http://a.test:8080/blocked');\
                 blocked.onload = () => { out.textContent += '|blocked-ok'; };\
                 blocked.onerror = () => { out.textContent += '|blocked-err'; };\
                 blocked.send();\
                 const granted = new XMLHttpRequest();\
                 granted.open('GET', 'http://a.test:8080/granted');\
                 granted.onload = () => { out.textContent += '|' + granted.responseText; };\
                 granted.onerror = () => { out.textContent += '|granted-err'; };\
                 granted.send();\
                 </script>",
            ),
            ("http://a.test:8080/blocked", "blocked-body"),
            ("http://a.test:8080/granted", "xhr-ok"),
        ],
        &[("http://a.test:8080/granted", "*")],
    );
    Scripts::new(world).expect("page has scripts");
    // No grant: onerror (status 0, like a network error). Wildcard
    // grant: onload with the body.
    assert_eq!(world.out_text(), "-|blocked-err|xhr-ok");
    // Both requests went out without the jar's cookie.
    let cookies = world.with(|state| state.server.cookies.clone());
    assert_eq!(cookies.len(), 3);
    assert_eq!(cookies[1], None);
    assert_eq!(cookies[2], None);
}

#[test]
fn xhr_with_credentials_sends_cookies_and_rejects_a_wildcard_grant() {
    let world = acao_files(
        &[
            (
                "https://a.test/",
                "<p id='out'>-</p><script>\
                 document.cookie = 'sid=1';\
                 const out = document.getElementById('out');\
                 const star = new XMLHttpRequest();\
                 star.open('GET', 'http://a.test:8080/star');\
                 star.withCredentials = true;\
                 star.onload = () => { out.textContent += '|star-ok'; };\
                 star.onerror = () => { out.textContent += '|star-err'; };\
                 star.send();\
                 const exact = new XMLHttpRequest();\
                 exact.open('GET', 'http://a.test:8080/exact');\
                 exact.withCredentials = true;\
                 exact.onload = () => { out.textContent += '|' + exact.responseText; };\
                 exact.onerror = () => { out.textContent += '|exact-err'; };\
                 exact.send();\
                 </script>",
            ),
            ("http://a.test:8080/star", "star-body"),
            ("http://a.test:8080/exact", "wc-ok"),
        ],
        &[
            ("http://a.test:8080/star", "*"),
            ("http://a.test:8080/exact", "https://a.test"),
        ],
    );
    Scripts::new(world).expect("page has scripts");
    // '*' + withCredentials is an invalid grant (spec): onerror.
    // The exact-origin grant lets the credentialed read through.
    assert_eq!(world.out_text(), "-|star-err|wc-ok");
    // withCredentials DID send the jar's cookie cross-origin, on both.
    let cookies = world.with(|state| state.server.cookies.clone());
    assert_eq!(cookies.len(), 3);
    assert_eq!(cookies[1].as_deref(), Some("sid=1"));
    assert_eq!(cookies[2].as_deref(), Some("sid=1"));
}

#[test]
fn preflight_probes_a_non_simple_request_then_sends_it() {
    let grant = CorsGrant {
        allow_origin: Some("*".to_string()),
        allow_methods: vec!["get".to_string()],
        allow_headers: vec!["x-token".to_string()],
    };
    let mut server = Server::new(&[
        (
            "https://a.test/",
            "<p id='out'>-</p><script>\
             const out = document.getElementById('out');\
             const ask = (label, next) => {\
               const xhr = new XMLHttpRequest();\
               xhr.open('GET', 'http://a.test:8080/data');\
               xhr.setRequestHeader('X-Token', 'abc');\
               xhr.onload = () => {\
                 out.textContent += '|' + label + ':' + xhr.responseText;\
                 if (next) { next(); }\
               };\
               xhr.onerror = () => { out.textContent += '|' + label + ':err'; };\
               xhr.send();\
             };\
             ask('bir', () => ask('iki', null));\
             </script>",
        ),
        ("http://a.test:8080/data", "pre-ok"),
    ]);
    server = server.with_acao("http://a.test:8080/data", "*");
    server = server.with_grant("http://a.test:8080/data", grant);
    let world = World::new(server);
    world.load("https://a.test/");
    Scripts::new(world).expect("page has scripts");
    // The custom header made both reads non-simple: OPTIONS probe,
    // grant, then the actual request. The second read starts in the
    // first one's onload — a later entry, so the session cache
    // answers it: ONE probe for two requests.
    assert_eq!(world.out_text(), "-|bir:pre-ok|iki:pre-ok");
    let probes = world.with(|state| state.server.probes.clone());
    assert_eq!(
        probes,
        vec![(
            "http://a.test:8080/data".to_string(),
            "GET".to_string(),
            vec!["x-token".to_string()]
        )]
    );
    let loads = world.with(|state| state.server.loads.clone());
    assert_eq!(
        loads,
        vec![
            "https://a.test/",
            "http://a.test:8080/data",
            "http://a.test:8080/data"
        ]
    );
}

#[test]
fn a_refused_preflight_keeps_the_request_from_going_out() {
    // The grant names the page origin but does NOT cover the custom
    // header: the read must fail without the request ever leaving.
    let grant = CorsGrant {
        allow_origin: Some("https://a.test".to_string()),
        allow_methods: vec!["get".to_string()],
        allow_headers: Vec::new(),
    };
    let mut server = Server::new(&[
        (
            "https://a.test/",
            "<p id='out'>-</p><script>\
             const xhr = new XMLHttpRequest();\
             xhr.open('GET', 'http://a.test:8080/data');\
             xhr.setRequestHeader('X-Token', 'abc');\
             xhr.onload = () => { document.getElementById('out').textContent = 'unexpected'; };\
             xhr.onerror = () => { document.getElementById('out').textContent = 'refused'; };\
             xhr.send();\
             </script>",
        ),
        ("http://a.test:8080/data", "secret"),
    ]);
    server = server.with_grant("http://a.test:8080/data", grant);
    let world = World::new(server);
    world.load("https://a.test/");
    Scripts::new(world).expect("page has scripts");
    assert_eq!(world.out_text(), "refused");
    // The probe went out; the actual request never did.
    assert_eq!(world.with(|state| state.server.probes.len()), 1);
    assert_eq!(
        world.with(|state| state.server.loads.clone()),
        vec!["https://a.test/"]
    );
}

#[test]
fn runtime_module_fetch_stores_set_cookie_in_the_jar() {
    let server = Server::new(&[
        (
            "https://a.test/",
            "<button id='btn'>x</button><p id='out'>-</p><script>\
             document.getElementById('btn').addEventListener('click', () => {\
               import('/lazy.js').then(m => {\
                 document.getElementById('out').textContent = m.value;\
               });\
             });\
             </script>",
        ),
        ("https://a.test/lazy.js", "export const value = 'lazy-ok';"),
    ])
    .with_cookies("https://a.test/lazy.js", &["mod=1"]);
    let world = World::new(server);
    world.load("https://a.test/");
    let mut scripts = Scripts::new(world).expect("page has scripts");
    let button = world.by_id("btn");
    scripts.dispatch(button, "click");
    assert_eq!(world.out_text(), "lazy-ok");
    // The Set-Cookie of the import reached the session's jar.
    assert_eq!(
        world.with(|state| state.session.cookies.header_for(&url("https://a.test/lazy.js")))
            .as_deref(),
        Some("mod=1")
    );
}

#[test]
fn static_module_fetch_stores_set_cookie_in_the_jar() {
    // The static graph fetches through the session directly.
    let server = Server::new(&[
        (
            "https://a.test/",
            "<p id='out'>-</p><script type='module' src='/m.js'></script>",
        ),
        (
            "https://a.test/m.js",
            "document.getElementById('out').textContent = 'm-ok';",
        ),
    ])
    .with_cookies("https://a.test/m.js", &["stat=1"]);
    let world = World::new(server);
    world.load("https://a.test/");
    Scripts::new(world).expect("page has scripts");
    assert_eq!(world.out_text(), "m-ok");
    assert_eq!(
        world.with(|state| state.session.cookies.header_for(&url("https://a.test/m.js")))
            .as_deref(),
        Some("stat=1")
    );
}

#[test]
fn cross_origin_script_src_still_loads() {
    // Subresource loads are no-cors: a cross-origin <script src>
    // fetches and runs without any Access-Control-Allow-Origin.
    let world = files(
        &[
            (
                "https://a.test/",
                "<p id='out'>-</p><script src='https://b.test/x.js'></script>",
            ),
            (
                "https://b.test/x.js",
                "document.getElementById('out').textContent = 'cross-script-ok';",
            ),
        ],
    );
    Scripts::new(world).expect("page has scripts");
    assert_eq!(world.out_text(), "cross-script-ok");
}

#[test]
fn xhr_waits_for_the_network_like_fetch() {
    let world = files(
        &[
            (
                "https://a.test/",
                "<p id='out'>-</p><script>\
                 const xhr = new XMLHttpRequest();\
                 xhr.open('GET', '/data.txt');\
                 xhr.onload = () => {\
                   document.getElementById('out').textContent = xhr.responseText;\
                 };\
                 xhr.send();\
                 </script>",
            ),
            ("https://a.test/data.txt", "xhr-async"),
        ],
    );
    let mut scripts = Scripts::with_network(world, NetworkQueue::manual()).expect("page has scripts");
    assert_eq!(world.out_text(), "-");
    world.with(|state| state.drive());
    scripts.pump();
    assert_eq!(world.out_text(), "xhr-async");
}

#[test]
fn dynamic_import_fetches_new_urls_at_runtime() {
    let world = files(
        &[
            (
                "https://a.test/",
                "<button id='btn'>x</button><p id='out'>-</p><script>\
                 document.getElementById('btn').addEventListener('click', () => {\
                   import('/lazy.js').then(m => {\
                     document.getElementById('out').textContent = m.value;\
                   });\
                 });\
                 </script>",
            ),
            ("https://a.test/lazy.js", "export const value = 'lazy-ok';"),
        ],
    );
    let mut scripts = Scripts::new(world).expect("page has scripts");
    let button = world.by_id("btn");
    scripts.dispatch(button, "click");
    // The module came over the network queue.
    assert_eq!(world.out_text(), "lazy-ok");
}

#[test]
fn gtm_pattern_get_elements_parent_node_insert_before() {
    // The Google Tag Manager bootstrap: find the first <script>,
    // then insertBefore a new one next to it.
    let world = page(
        "<p id='out'>-</p><script id='f'>\
         const f = document.getElementsByTagName('script')[0];\
         const j = document.createElement('script');\
         j.setAttribute('id', 'j');\
         f.parentNode.insertBefore(j, f);\
         const tail = document.createElement('span');\
         tail.setAttribute('id', 's');\
         f.parentNode.insertBefore(tail, null);\
         document.getElementById('out').textContent = [\
           f.parentNode.childNodes.length,\
           f.previousSibling.id,\
           j.nextSibling.id,\
           f.parentNode.firstChild.id,\
           f.parentNode.lastChild.id\
         ].join('|');\
         </script>",
    );
    Scripts::new(world).expect("page has scripts");
    // body children: <p>, the inserted <script id=j>, <script id=f>;
    // the null reference appended the span at the end.
    assert_eq!(world.out_text(), "4|j|f|out|s");
}

#[test]
fn parent_node_remove_child_detaches_it() {
    let world = page(
        "<div id='parent'><span id='kid'>x</span></div><p id='out'>-</p><script>\
         const parent = document.getElementById('parent');\
         const kid = document.getElementById('kid');\
         const removed = parent.removeChild(kid);\
         document.getElementById('out').textContent = [\
           parent.childNodes.length,\
           String(kid.parentNode),\
           removed.id\
         ].join('|');\
         </script>",
    );
    Scripts::new(world).expect("page has scripts");
    assert_eq!(world.out_text(), "0|null|kid");
}

#[test]
fn checker_pattern_add_event_listener_tolerates_null_and_options() {
    // The WP Rocket browser checker: null listeners and a full
    // options object (capture/passive/once) must not throw.
    let world = page(
        "<p id='out'>-</p><script>\
         window.addEventListener('test', null, { capture: true, passive: true });\
         window.addEventListener('test', undefined, true);\
         window.removeEventListener('test', null);\
         window.addEventListener('test', () => {\
           document.getElementById('out').textContent += 't';\
         }, { capture: false, passive: true, once: false });\
         </script>",
    );
    let mut scripts = Scripts::new(world).expect("page has scripts");
    assert!(scripts.has_listener(0, "test"));
    scripts.dispatch(0, "test");
    scripts.dispatch(0, "test");
    assert_eq!(world.out_text(), "-tt");
}

#[test]
fn remove_event_listener_drops_the_registration() {
    let world = page(
        "<button id='btn'>x</button><p id='out'>-</p><script>\
         const out = document.getElementById('out');\
         const handler = () => { out.textContent += 'h'; };\
         const btn = document.getElementById('btn');\
         btn.addEventListener('click', handler, true);\
         btn.removeEventListener('click', handler);\
         btn.removeEventListener('click', null);\
         </script>",
    );
    let mut scripts = Scripts::new(world).expect("page has scripts");
    let button = world.by_id("btn");
    assert!(!scripts.has_listener(button, "click"));
    let outcome = scripts.dispatch(button, "click");
    assert!(!outcome.handled);
    assert_eq!(world.out_text(), "-");
}

#[test]
fn once_listeners_run_a_single_time() {
    let world = page(
        "<button id='btn'>x</button><p id='out'>-</p><script>\
         const out = document.getElementById('out');\
         const btn = document.getElementById('btn');\
         btn.addEventListener('click', () => { out.textContent += '1'; }, { once: true });\
         btn.addEventListener('click', () => { out.textContent += 'k'; });\
         </script>",
    );
    let mut scripts = Scripts::new(world).expect("page has scripts");
    let button = world.by_id("btn");
    scripts.dispatch(button, "click");
    scripts.dispatch(button, "click");
    // The once listener fired only on the first dispatch.
    assert_eq!(world.out_text(), "-1kk");
}

#[test]
fn event_target_closest_walks_the_ancestor_chain() {
    let world = page(
        "<a id='lnk'><span id='inner'>x</span></a><p id='out'>-</p><script>\
         document.getElementById('lnk').addEventListener('click', (e) => {\
           document.getElementById('out').textContent =\
             e.target.closest('a').id + '|' + String(e.target.closest('table'));\
         });\
         </script>",
    );
    let mut scripts = Scripts::new(world).expect("page has scripts");
    let inner = world.by_id("inner");
    scripts.dispatch(inner, "click");
    // e.target is an element wrapper: closest('a') climbs to the
    // link; a selector nothing matches yields null.
    assert_eq!(world.out_text(), "lnk|null");
}

#[test]
fn document_exposes_head_root_and_ready_state() {
    let world = page(
        "<html><head><title>t</title></head><body><p id='out'>-</p><script>\
         document.getElementById('out').textContent = [\
           document.head !== null,\
           document.documentElement !== null,\
           document.body !== null,\
           document.readyState\
         ].join('|');\
         </script></body></html>",
    );
    Scripts::new(world).expect("page has scripts");
    assert_eq!(world.out_text(), "true|true|true|complete");
}

#[test]
fn an_iframe_browsing_context_is_null_not_undefined() {
    // Cloudflare's challenge checks `iframe.contentDocument ===
    // null` to bail out; undefined would crash it instead.
    let world = page(
        "<p id='out'>-</p><script>\
         const frame = document.createElement('iframe');\
         document.body.appendChild(frame);\
         document.getElementById('out').textContent =\
           String(frame.contentDocument) + '|' + String(frame.contentWindow);\
         </script>",
    );
    Scripts::new(world).expect("page has scripts");
    assert_eq!(world.out_text(), "null|null");
}

#[test]
fn page_scripts_run_listen_and_time() {
    let world = World::new(
        Server::new(&[(
            "https://a.test/",
            "<button id='b'>Art\u{131}r</button><p id='out'>0</p>\
             <script>\
             let n = 0;\
             const out = document.getElementById('out');\
             out.textContent = 'haz\u{131}r';\
             document.getElementById('b').addEventListener('click', () => {\
               n++; out.textContent = 'n=' + n;\
             });\
             setTimeout(() => { out.textContent = out.textContent + '!'; }, 100);\
             </script>",
        )]),
    );
    world.load("https://a.test/");
    // The shell builds the script world after navigation.
    let mut scripts = Scripts::new(world).expect("page has scripts");
    // The load-time script already ran.
    assert_eq!(world.out_text(), "haz\u{131}r");
    // Click dispatch reaches the listener and the page re-renders.
    let button = world.by_id("b");
    assert!(scripts.has_listener(button, "click"));
    assert!(scripts.dispatch(button, "click").handled);
    assert!(scripts.dispatch(button, "click").handled);
    assert_eq!(world.out_text(), "n=2");
    // Timers fire on tick.
    assert!(scripts.has_timers());
    assert!(!scripts.tick(50.0));
    assert!(scripts.tick(150.0));
    assert_eq!(world.out_text(), "n=2!");
    assert!(!scripts.has_timers());
}

#[test]
fn document_cookie_reads_and_writes_the_jar() {
    let world = World::new(
        Server::new(&[(
            "https://a.test/",
            "<p id='out'>-</p>\
             <script>\
             document.cookie = 'tema=koyu; Path=/';\
             document.getElementById('out').textContent = document.cookie;\
             </script>",
        )])
        .with_cookies("https://a.test/", &["sid=abc; Path=/"]),
    );
    world.load("https://a.test/");
    Scripts::new(world).expect("page has scripts");
        // The script saw the network cookie plus its own write.
    assert_eq!(world.out_text(), "sid=abc; tema=koyu");
    // And the write landed in the jar for future requests.
    assert_eq!(
        world.with(|state| state.session.cookies.header_for_http(&url("https://a.test/x")))
            .unwrap(),
        "sid=abc; tema=koyu"
    );
}

#[test]
fn http_only_cookies_are_hidden_from_document_cookie() {
    let world = World::new(
        Server::new(&[(
            "https://a.test/",
            "<p id='out'>-</p>\
             <script>\
             document.getElementById('out').textContent = document.cookie;\
             </script>",
        )])
        .with_cookies("https://a.test/", &["sid=abc; HttpOnly; Path=/", "tema=koyu; Path=/"]),
    );
    world.load("https://a.test/");
    Scripts::new(world).expect("page has scripts");
        // The script only saw the script-visible cookie…
    assert_eq!(world.out_text(), "tema=koyu");
    // …but the HttpOnly one still rides HTTP requests.
    assert_eq!(
        world.with(|state| state.session.cookies.header_for_http(&url("https://a.test/x")))
            .unwrap(),
        "sid=abc; tema=koyu"
    );
}

#[test]
fn document_cookie_cannot_write_secure_over_http() {
    let world = World::new(
        Server::new(&[(
            "http://a.test/",
            "<script>document.cookie = 's=1; Secure; Path=/';</script>",
        )]),
    );
    world.load("http://a.test/");
    Scripts::new(world).expect("page has scripts");
    assert!(
        world.with(|state| state.session.cookies.header_for_http(&url("http://a.test/")))
            .is_none()
    );
}

#[test]
fn scripts_request_focus_changes() {
    let world = World::new(
        Server::new(&[(
            "https://a.test/",
            "<input id='alan'>\
             <script>document.getElementById('alan').focus();</script>",
        )]),
    );
    world.load("https://a.test/");
    let mut scripts = Scripts::new(world).expect("page has scripts");
    let field = world.by_id("alan");
    assert_eq!(scripts.take_focus_request(), Some(Some(field)));
    assert_eq!(scripts.take_focus_request(), None);
}

#[test]
fn prevent_default_reaches_the_dispatcher() {
    let world = World::new(
        Server::new(&[(
            "https://a.test/",
            "<a id='l' href='/x'>git</a><a id='m' href='/y'>serbest</a>\
             <script>\
             document.getElementById('l').addEventListener('click', (e) => {\
               e.preventDefault();\
             });\
             document.getElementById('m').addEventListener('click', () => {});\
             </script>",
        )]),
    );
    world.load("https://a.test/");
    let mut scripts = Scripts::new(world).expect("page has scripts");
    let blocked = world.by_id("l");
    let free = world.by_id("m");
    let outcome = scripts.dispatch(blocked, "click");
    assert!(outcome.handled && outcome.prevented);
    let outcome = scripts.dispatch(free, "click");
    assert!(outcome.handled && !outcome.prevented);
}

#[test]
fn fetch_resolves_with_page_relative_resources() {
    let world = World::new(
        Server::new(&[
            (
                "https://a.test/",
                "<p id='out'>bekliyor</p>\
                 <script>\
                 fetch('/veri.json')\
                   .then((response) => response.json())\
                   .then((data) => {\
                     document.getElementById('out').textContent =\
                       data.ad + ' ' + data.sayilar.length;\
                   });\
                 </script>",
            ),
            (
                "https://a.test/veri.json",
                "{\"ad\": \"lumen\", \"sayilar\": [1, 2, 3]}",
            ),
        ]),
    );
    world.load("https://a.test/");
    Scripts::new(world).expect("page has scripts");
        assert_eq!(world.out_text(), "lumen 3");
}

#[test]
fn scripts_request_navigation_via_location() {
    let world = World::new(
        Server::new(&[(
            "https://a.test/",
            "<button id='git'>git</button>\
             <script>\
             console.log(location.href);\
             document.getElementById('git').addEventListener('click', () => {\
               location.href = '/sonraki';\
             });\
             </script>",
        )]),
    );
    world.load("https://a.test/");
    let mut scripts = Scripts::new(world).expect("page has scripts");
    assert!(scripts.take_navigation().is_none());
    let button = world.by_id("git");
    scripts.dispatch(button, "click");
    assert_eq!(scripts.take_navigation().as_deref(), Some("/sonraki"));
}


/// The text of a list with the marker that layout puts before each item.
fn marked_text(document: &Document, list: NodeId) -> String {
    let items = dom::element_children(document, list).into_iter();
    items.map(|item| format!("\u{2022} {}", document.text_content(item))).collect()
}

#[test]
fn scripts_create_append_and_remove_elements() {
    let world = page(
        "<ul id='list'><li id='eski'>eski</li></ul>\
         <script>\
         const list = document.getElementById('list');\
         const li = document.createElement('li');\
         li.textContent = 'yeni';\
         list.appendChild(li);\
         document.getElementById('eski').remove();\
         </script>",
    );
    let _scripts = Scripts::new(world).expect("page has scripts");
    let list = world.by_id("list");
    world.with(|state| {
        let document = state.session.page().unwrap();
        assert_eq!(marked_text(document, list).trim(), "\u{2022} yeni");
        assert_eq!(document.children(list).len(), 1);
        // The removed node left the tree entirely.
        assert!(dom::get_element_by_id(document, "eski").is_none());
    });
}
