//! Loading a page's scripts: which `<script>` elements run, when, and how the
//! import graph of a module is fetched.
use crate::browser::document::{self, Document, DocumentModel, NodeId};
use crate::browser::request::{RequestModel, ResourceRequest};
use crate::browser::string_map::{self, StringMap};
use crate::browser::url::{Url, UrlModel};
use crate::scripting::events;
use crate::text;
use vstd::prelude::*;

verus! {

/// Import graphs deeper than this many fetch rounds give up (each
/// round resolves one level; cycles are served from the cache).
pub const MAX_MODULE_ROUNDS: u32 = 64;

// ---------------------------------------------------------------------------
// Script elements
// ---------------------------------------------------------------------------
/// A `<script>` element that is to run.
#[derive(Debug)]
pub struct FoundScript {
    pub module: bool,
    pub defer: bool,
    pub src: Option<String>,
    pub inline: String,
}

pub struct FoundModel {
    pub module: bool,
    pub defer: bool,
    pub src: Option<Seq<char>>,
    pub inline: Seq<char>,
}

impl View for FoundScript {
    type V = FoundModel;

    open spec fn view(&self) -> FoundModel {
        FoundModel {
            module: self.module,
            defer: self.defer,
            src: text::opt_text(self.src),
            inline: self.inline@,
        }
    }
}

pub open spec fn found_models(list: Seq<FoundScript>) -> Seq<FoundModel> {
    Seq::new(list.len(), |i: int| list[i]@)
}

pub open spec fn is_classic(kind: Seq<char>) -> bool {
    ||| kind.len() == 0
    ||| kind == "text/javascript"@
    ||| kind == "application/javascript"@
    ||| kind == "application/ecmascript"@
}

/// The script of a node. Classic JavaScript and modules run; JSON-LD,
/// templates and import maps are skipped.
pub open spec fn script_at(doc: DocumentModel, node: NodeId) -> Option<FoundModel> {
    match document::element_at(doc, node) {
        Some(e) => if e.tag_name != "script"@ {
            None
        } else {
            let kind = text::trimmed(e.get_or("type"@, ""@));
            if kind == "module"@ || is_classic(kind) {
                Some(
                    FoundModel {
                        module: kind == "module"@,
                        defer: kind != "module"@ && e.get("defer"@) is Some,
                        src: e.get("src"@),
                        inline: document::text_at(doc, node),
                    },
                )
            } else {
                None
            }
        },
        None => None,
    }
}

/// The scripts among the first `n` nodes of a list.
pub open spec fn scripts_among(doc: DocumentModel, list: Seq<NodeId>, n: int) -> Seq<FoundModel>
    decreases n,
{
    if n <= 0 {
        seq![]
    } else {
        let before = scripts_among(doc, list, n - 1);
        match script_at(doc, list[n - 1]) {
            Some(script) => before.push(script),
            None => before,
        }
    }
}

fn read_script(doc: &Document, node: NodeId) -> (r: Option<FoundScript>)
    ensures
        match r {
            Some(script) => script_at(doc@, node) == Some(script@),
            None => script_at(doc@, node) is None,
        },
{
    let e = match doc.element(node) {
        Some(e) => e,
        None => {
            return None;
        },
    };
    if !e.is_tag("script") {
        return None;
    }
    let attribute = e.get_or("type", "");
    let chars = text::chars_of(attribute.as_str());
    let kind = text::trim(chars.as_slice());
    let module = text::is_word(kind, "module");
    let classic = kind.len() == 0 || text::is_word(kind, "text/javascript") || text::is_word(
        kind,
        "application/javascript",
    ) || text::is_word(kind, "application/ecmascript");
    if !module && !classic {
        return None;
    }
    let src = match e.get("src") {
        Some(src) => Some(src.clone()),
        None => None,
    };
    Some(
        FoundScript {
            module,
            defer: !module && e.contains("defer"),
            src,
            inline: doc.text_content(node),
        },
    )
}

/// The page's `<script>` elements that are to run, in document order.
pub fn find_scripts(doc: &Document) -> (r: Vec<FoundScript>)
    ensures
        found_models(r@) == scripts_among(
            doc@,
            document::descendants_of(doc@, 0),
            document::descendants_of(doc@, 0).len() as int,
        ),
{
    let all = doc.descendants(0);
    let mut list: Vec<FoundScript> = Vec::new();
    let mut i: usize = 0;
    assert(found_models(list@) =~= scripts_among(doc@, all@, 0));
    while i < all.len()
        invariant
            i <= all@.len(),
            found_models(list@) == scripts_among(doc@, all@, i as int),
        decreases all@.len() - i,
    {
        let ghost before = found_models(list@);
        if let Some(script) = read_script(doc, all[i]) {
            list.push(script);
            assert(found_models(list@) =~= before.push(script@));
        }
        i = i + 1;
    }
    list
}

/// One `<script>` element, classified by how it is scheduled.
#[derive(Debug)]
pub enum ScriptEntry {
    /// Runs in document order as encountered: classic inline scripts,
    /// classic `src=` scripts and `async` ones.
    Now(String),
    /// `<script defer>`: after the document parse, in document order
    /// together with modules. Inline `defer` (no `src`) is meaningless
    /// and stays a `Now` entry.
    Deferred(String),
    /// `<script type="module">`: always deferred, in document order
    /// together with `defer` scripts. `key` is the module's canonical
    /// URL — the resolved `src`, or a synthetic fragment on the page
    /// URL for inline modules so their relative imports still resolve.
    Module { key: String, source: String },
}

pub enum EntryModel {
    Now(Seq<char>),
    Deferred(Seq<char>),
    Module { key: Seq<char>, source: Seq<char> },
}

impl View for ScriptEntry {
    type V = EntryModel;

    open spec fn view(&self) -> EntryModel {
        match self {
            ScriptEntry::Now(source) => EntryModel::Now(source@),
            ScriptEntry::Deferred(source) => EntryModel::Deferred(source@),
            ScriptEntry::Module { key, source } => EntryModel::Module {
                key: key@,
                source: source@,
            },
        }
    }
}

pub open spec fn entry_models(list: Seq<ScriptEntry>) -> Seq<EntryModel> {
    Seq::new(list.len(), |i: int| list[i]@)
}

/// What the fetch of a `src=` brought: the resolved URL and the text; none
/// where it did not resolve or load.
pub type Fetched = Option<(String, String)>;

pub type FetchedModel = Option<(Seq<char>, Seq<char>)>;

pub open spec fn fetched_model(f: Fetched) -> FetchedModel {
    match f {
        Some((url, source)) => Some((url@, source@)),
        None => None,
    }
}

pub open spec fn fetched_models(list: Seq<Fetched>) -> Seq<FetchedModel> {
    Seq::new(list.len(), |i: int| fetched_model(list[i]))
}

/// The key of the `k`th inline module of a page.
pub open spec fn inline_key(base: Seq<char>, k: nat) -> Seq<char> {
    base + "#inline-module-"@ + text::decimal(k)
}

/// The entry of one script, where `k` inline modules came before it; none
/// where its `src` did not load.
pub open spec fn entry_of(script: FoundModel, fetched: FetchedModel, base: Seq<char>, k: nat) -> Option<
    EntryModel,
> {
    match script.src {
        Some(_) => match fetched {
            Some((url, source)) => if script.module {
                Some(EntryModel::Module { key: url, source })
            } else if script.defer {
                Some(EntryModel::Deferred(source))
            } else {
                Some(EntryModel::Now(source))
            },
            None => None,
        },
        None => if script.module {
            Some(EntryModel::Module { key: inline_key(base, k), source: script.inline })
        } else {
            Some(EntryModel::Now(script.inline))
        },
    }
}

/// How many of the first `n` scripts are inline modules.
pub open spec fn inline_modules(scripts: Seq<FoundModel>, n: int) -> nat
    decreases n,
{
    if n <= 0 {
        0
    } else if scripts[n - 1].module && scripts[n - 1].src is None {
        inline_modules(scripts, n - 1) + 1
    } else {
        inline_modules(scripts, n - 1)
    }
}

/// The entries of the first `n` scripts.
pub open spec fn entries_of(
    scripts: Seq<FoundModel>,
    fetched: Seq<FetchedModel>,
    base: Seq<char>,
    n: int,
) -> Seq<EntryModel>
    decreases n,
{
    if n <= 0 {
        seq![]
    } else {
        let before = entries_of(scripts, fetched, base, n - 1);
        match entry_of(scripts[n - 1], fetched[n - 1], base, inline_modules(scripts, n - 1)) {
            Some(entry) => before.push(entry),
            None => before,
        }
    }
}

/// The page's scripts in document order, with their `src=` bodies (a failed
/// fetch drops just that script).
pub fn classify_scripts(
    scripts: &Vec<FoundScript>,
    fetched: &Vec<Fetched>,
    base: &str,
) -> (r: Vec<ScriptEntry>)
    requires
        fetched@.len() == scripts@.len(),
    ensures
        entry_models(r@) == entries_of(
            found_models(scripts@),
            fetched_models(fetched@),
            base@,
            scripts@.len() as int,
        ),
{
    let ghost sv = found_models(scripts@);
    let ghost fv = fetched_models(fetched@);
    let mut list: Vec<ScriptEntry> = Vec::new();
    let mut inline_count: u64 = 0;
    let mut i: usize = 0;
    assert(entry_models(list@) =~= entries_of(sv, fv, base@, 0));
    while i < scripts.len()
        invariant
            i <= scripts@.len(),
            fetched@.len() == scripts@.len(),
            sv == found_models(scripts@),
            fv == fetched_models(fetched@),
            inline_count == inline_modules(sv, i as int),
            inline_count <= i,
            entry_models(list@) == entries_of(sv, fv, base@, i as int),
        decreases scripts@.len() - i,
    {
        let ghost before = entry_models(list@);
        assert(sv[i as int] == scripts@[i as int]@);
        assert(fv[i as int] == fetched_model(fetched@[i as int]));
        let script = &scripts[i];
        let entry = match &script.src {
            Some(_) => match &fetched[i] {
                Some((url, source)) => {
                    if script.module {
                        Some(ScriptEntry::Module { key: url.clone(), source: source.clone() })
                    } else if script.defer {
                        Some(ScriptEntry::Deferred(source.clone()))
                    } else {
                        Some(ScriptEntry::Now(source.clone()))
                    }
                },
                None => None,
            },
            None => {
                if script.module {
                    let mut key = text::concat(base, "#inline-module-");
                    text::push_decimal(&mut key, inline_count);
                    inline_count = inline_count + 1;
                    Some(ScriptEntry::Module { key, source: script.inline.clone() })
                } else {
                    Some(ScriptEntry::Now(script.inline.clone()))
                }
            },
        };
        if let Some(entry) = entry {
            list.push(entry);
            assert(entry_models(list@) =~= before.push(entry@));
        }
        i = i + 1;
    }
    list
}

/// The entries among the first `n` that run as encountered.
pub open spec fn immediate(entries: Seq<EntryModel>, n: int) -> Seq<EntryModel>
    decreases n,
{
    if n <= 0 {
        seq![]
    } else if entries[n - 1] is Now {
        immediate(entries, n - 1).push(entries[n - 1])
    } else {
        immediate(entries, n - 1)
    }
}

/// The entries among the first `n` that wait for the end of the parse.
pub open spec fn deferred(entries: Seq<EntryModel>, n: int) -> Seq<EntryModel>
    decreases n,
{
    if n <= 0 {
        seq![]
    } else if entries[n - 1] is Now {
        deferred(entries, n - 1)
    } else {
        deferred(entries, n - 1).push(entries[n - 1])
    }
}

/// The order in which a page's scripts run: classic scripts first, then the
/// post-parse queue of `defer` scripts and modules, each in document order.
pub fn schedule(entries: Vec<ScriptEntry>) -> (r: Vec<ScriptEntry>)
    ensures
        entry_models(r@) == immediate(entry_models(entries@), entries@.len() as int) + deferred(
            entry_models(entries@),
            entries@.len() as int,
        ),
{
    let ghost ev = entry_models(entries@);
    let mut first: Vec<ScriptEntry> = Vec::new();
    let mut last: Vec<ScriptEntry> = Vec::new();
    let mut i: usize = 0;
    assert(entry_models(first@) =~= immediate(ev, 0));
    assert(entry_models(last@) =~= deferred(ev, 0));
    while i < entries.len()
        invariant
            i <= entries@.len(),
            ev == entry_models(entries@),
            entry_models(first@) == immediate(ev, i as int),
            entry_models(last@) == deferred(ev, i as int),
        decreases entries@.len() - i,
    {
        let ghost a = entry_models(first@);
        let ghost b = entry_models(last@);
        assert(ev[i as int] == entries@[i as int]@);
        match &entries[i] {
            ScriptEntry::Now(source) => {
                let entry = ScriptEntry::Now(source.clone());
                first.push(entry);
                assert(entry_models(first@) =~= a.push(entry@));
            },
            ScriptEntry::Deferred(source) => {
                let entry = ScriptEntry::Deferred(source.clone());
                last.push(entry);
                assert(entry_models(last@) =~= b.push(entry@));
            },
            ScriptEntry::Module { key, source } => {
                let entry = ScriptEntry::Module { key: key.clone(), source: source.clone() };
                last.push(entry);
                assert(entry_models(last@) =~= b.push(entry@));
            },
        }
        i = i + 1;
    }
    let ghost a = entry_models(first@);
    let ghost b = entry_models(last@);
    first.append(&mut last);
    assert(entry_models(first@) =~= a + b);
    first
}

/// Whether a page needs a script world: it has a script to run, or an inline
/// handler.
pub fn needs_world(entries: &Vec<ScriptEntry>, page: Option<&Document>) -> (r: bool)
    ensures
        r == (entries@.len() > 0 || (page matches Some(doc) && events::any_inline(
            doc@,
            document::descendants_of(doc@, 0),
            document::descendants_of(doc@, 0).len() as int,
        ))),
{
    if entries.len() > 0 {
        return true;
    }
    match page {
        Some(doc) => events::has_inline_handlers(doc),
        None => false,
    }
}

/// The lifecycle events that fire on the document root once the scripts ran:
/// a page that was reached by a traversal hears of it after the load.
pub open spec fn lifecycle(traversed: bool) -> Seq<Seq<char>> {
    if traversed {
        seq!["DOMContentLoaded"@, "load"@, "popstate"@]
    } else {
        seq!["DOMContentLoaded"@, "load"@]
    }
}

/// The lifecycle events that fire on the document root once the scripts ran.
pub fn lifecycle_events(traversed: bool) -> (r: Vec<String>)
    ensures
        text::texts(r@) == lifecycle(traversed),
{
    let mut list: Vec<String> = Vec::new();
    list.push("DOMContentLoaded".to_owned());
    list.push("load".to_owned());
    if traversed {
        list.push("popstate".to_owned());
        assert(text::texts(list@) =~= seq!["DOMContentLoaded"@, "load"@, "popstate"@]);
    } else {
        assert(text::texts(list@) =~= seq!["DOMContentLoaded"@, "load"@]);
    }
    list
}

// ---------------------------------------------------------------------------
// Modules
// ---------------------------------------------------------------------------
/// What a fetch round of a module brought.
#[derive(Debug, Clone, Copy, PartialEq, Eq, Structural)]
pub enum RoundResult {
    /// The source does not parse.
    ParseError,
    /// Imports were missing and all of them were fetched.
    Fetched,
    /// Imports were missing and one of them could not be fetched.
    FetchFailed,
    /// Nothing was missing: the module ran.
    Settled,
}

/// What follows a fetch round.
#[derive(Debug, Clone, Copy, PartialEq, Eq, Structural)]
pub enum RoundStep {
    /// Resolve one more level of the import graph.
    Again,
    Done,
    /// The import graph is too deep.
    GiveUp,
}

/// What follows the result of a round, where it was the `rounds`th.
pub open spec fn round_step(result: RoundResult, rounds: int) -> RoundStep {
    if result != RoundResult::Fetched {
        RoundStep::Done
    } else if rounds < MAX_MODULE_ROUNDS {
        RoundStep::Again
    } else {
        RoundStep::GiveUp
    }
}

/// The fetch-retry loop of one module.
#[derive(Debug, Clone, Copy, PartialEq, Eq, Structural)]
pub struct ModuleRun {
    pub rounds: u32,
}

impl ModuleRun {
    pub fn new() -> (r: ModuleRun)
        ensures
            r.rounds == 0,
    {
        ModuleRun { rounds: 0 }
    }

    /// Takes the result of a round.
    pub fn step(&mut self, result: RoundResult) -> (r: RoundStep)
        requires
            old(self).rounds < MAX_MODULE_ROUNDS,
        ensures
            final(self).rounds == old(self).rounds + 1,
            r == round_step(result, final(self).rounds as int),
    {
        self.rounds = self.rounds + 1;
        if result != RoundResult::Fetched {
            RoundStep::Done
        } else if self.rounds < MAX_MODULE_ROUNDS {
            RoundStep::Again
        } else {
            RoundStep::GiveUp
        }
    }
}

/// How an import is served.
#[derive(Debug)]
pub enum ImportStep {
    /// From the module that was parsed before.
    Cached,
    /// By parsing a source that was fetched before.
    Parse(String),
    /// By a fetch over the network queue.
    Fetch,
    /// Not yet: it is reported as missing.
    Missing,
}

pub enum ImportModel {
    Cached,
    Parse(Seq<char>),
    Fetch,
    Missing,
}

impl View for ImportStep {
    type V = ImportModel;

    open spec fn view(&self) -> ImportModel {
        match self {
            ImportStep::Cached => ImportModel::Cached,
            ImportStep::Parse(source) => ImportModel::Parse(source@),
            ImportStep::Fetch => ImportModel::Fetch,
            ImportStep::Missing => ImportModel::Missing,
        }
    }
}

/// Serves `import` specifiers from fetched sources — never from the
/// filesystem.
#[derive(Debug)]
pub struct ModuleSources {
    /// Resolved URL to fetched source text.
    pub sources: StringMap,
    /// URLs of the modules that are parsed: one instance per URL, so cyclic
    /// imports and duplicate tags share a single evaluation.
    pub parsed: Vec<String>,
    /// URLs requested without a known source since the last drain, each once.
    pub misses: Vec<String>,
    /// Runtime mode: misses are fetched through the queue instead of
    /// being reported for the page-load retry loop.
    pub queue_fetch: bool,
}

pub struct SourcesModel {
    pub sources: string_map::Entries,
    pub parsed: Seq<Seq<char>>,
    pub misses: Seq<Seq<char>>,
    pub queue_fetch: bool,
}

impl View for ModuleSources {
    type V = SourcesModel;

    open spec fn view(&self) -> SourcesModel {
        SourcesModel {
            sources: self.sources@,
            parsed: text::texts(self.parsed@),
            misses: text::texts(self.misses@),
            queue_fetch: self.queue_fetch,
        }
    }
}

/// How an import of a URL is served.
pub open spec fn import_model(m: SourcesModel, key: Seq<char>) -> ImportModel {
    if m.parsed.contains(key) {
        ImportModel::Cached
    } else {
        match string_map::lookup(m.sources, key) {
            Some(source) => ImportModel::Parse(source),
            None => if m.queue_fetch {
                ImportModel::Fetch
            } else {
                ImportModel::Missing
            },
        }
    }
}

pub open spec fn with_key(list: Seq<Seq<char>>, key: Seq<char>) -> Seq<Seq<char>> {
    if list.contains(key) {
        list
    } else {
        list.push(key)
    }
}

fn has_key(list: &Vec<String>, key: &str) -> (r: bool)
    ensures
        r == text::texts(list@).contains(key@),
{
    let ghost lv = text::texts(list@);
    let mut i: usize = 0;
    while i < list.len()
        invariant
            i <= list@.len(),
            lv == text::texts(list@),
            forall|j: int| 0 <= j < i ==> #[trigger] lv[j] != key@,
        decreases list@.len() - i,
    {
        if text::same_str(list[i].as_str(), key) {
            assert(lv[i as int] == key@);
            return true;
        }
        i = i + 1;
    }
    false
}

fn push_key(list: &mut Vec<String>, key: &str)
    ensures
        text::texts(final(list)@) == with_key(text::texts(old(list)@), key@),
{
    if !has_key(list, key) {
        let item = key.to_owned();
        proof {
            text::lemma_texts_push(list@, item);
        }
        list.push(item);
    }
}

impl ModuleSources {
    pub fn new() -> (r: ModuleSources)
        ensures
            r@.sources == Seq::<(Seq<char>, Seq<char>)>::empty(),
            r@.parsed == Seq::<Seq<char>>::empty(),
            r@.misses == Seq::<Seq<char>>::empty(),
            !r@.queue_fetch,
    {
        let r = ModuleSources {
            sources: StringMap::new(),
            parsed: Vec::new(),
            misses: Vec::new(),
            queue_fetch: false,
        };
        assert(r@.parsed =~= Seq::<Seq<char>>::empty());
        assert(r@.misses =~= Seq::<Seq<char>>::empty());
        r
    }

    /// From here on the static module graph is settled: a runtime import of a
    /// never-fetched URL goes through the network queue.
    pub fn enable_queue_fetch(&mut self)
        ensures
            final(self)@ == (SourcesModel { queue_fetch: true, ..old(self)@ }),
    {
        self.queue_fetch = true;
    }

    /// Makes a source known.
    pub fn give_source(&mut self, url: &str, source: &str)
        ensures
            final(self)@ == (SourcesModel {
                sources: string_map::put(old(self)@.sources, url@, source@),
                ..old(self)@
            }),
    {
        self.sources.insert(url.to_owned(), source.to_owned());
    }

    /// Remembers that a URL's module is parsed.
    pub fn note_parsed(&mut self, url: &str)
        ensures
            final(self)@ == (SourcesModel {
                parsed: with_key(old(self)@.parsed, url@),
                ..old(self)@
            }),
    {
        push_key(&mut self.parsed, url);
    }

    /// The URLs that were requested without a known source, taken out.
    pub fn take_misses(&mut self) -> (r: Vec<String>)
        ensures
            text::texts(r@) == old(self)@.misses,
            final(self)@ == (SourcesModel { misses: Seq::empty(), ..old(self)@ }),
    {
        let mut taken: Vec<String> = Vec::new();
        std::mem::swap(&mut taken, &mut self.misses);
        assert(self@.misses =~= Seq::empty());
        taken
    }

    /// How an import of a URL is served; a missing one is noted, once.
    pub fn import(&mut self, key: &str) -> (r: ImportStep)
        ensures
            r@ == import_model(old(self)@, key@),
            final(self)@ == (SourcesModel {
                misses: if import_model(old(self)@, key@) is Missing {
                    with_key(old(self)@.misses, key@)
                } else {
                    old(self)@.misses
                },
                ..old(self)@
            }),
    {
        if has_key(&self.parsed, key) {
            return ImportStep::Cached;
        }
        if let Some(source) = self.sources.get(key) {
            return ImportStep::Parse(source.clone());
        }
        if self.queue_fetch {
            return ImportStep::Fetch;
        }
        push_key(&mut self.misses, key);
        ImportStep::Missing
    }
}

/// Whether two URLs have one tuple origin: an opaque origin, written `null`,
/// is the same as none.
pub open spec fn shares_origin(page: UrlModel, url: UrlModel) -> bool {
    page.origin == url.origin && url.origin != "null"@
}

/// The request for a module that is imported at run time: a remote page reads
/// no local file, and the page's cookies ride only within its origin.
pub open spec fn module_request(page: Option<UrlModel>, cookie: Seq<char>, url: UrlModel) -> Option<
    RequestModel,
> {
    if url.scheme == "file"@ && (page matches Some(p) && (p.scheme == "http"@ || p.scheme
        == "https"@)) {
        None
    } else {
        Some(
            RequestModel {
                url,
                body: None,
                cookie: if (page matches Some(p) && shares_origin(p, url)) && cookie.len() > 0 {
                    Some(cookie)
                } else {
                    None
                },
            },
        )
    }
}

/// The request for a module that is imported at run time; none where a remote
/// page asks for a local file.
pub fn prepare_module_request(page: Option<&Url>, cookie: &str, url: &Url) -> (r: Option<
    ResourceRequest,
>)
    ensures
        match r {
            Some(request) => module_request(
                match page {
                    Some(p) => Some(p@),
                    None => None,
                },
                cookie@,
                url@,
            ) == Some(request@),
            None => module_request(
                match page {
                    Some(p) => Some(p@),
                    None => None,
                },
                cookie@,
                url@,
            ) is None,
        },
{
    let remote = match page {
        Some(p) => text::same_str(p.scheme.as_str(), "http") || text::same_str(
            p.scheme.as_str(),
            "https",
        ),
        None => false,
    };
    if remote && text::same_str(url.scheme.as_str(), "file") {
        return None;
    }
    let home = match page {
        Some(p) => text::same_str(p.origin.as_str(), url.origin.as_str()) && !text::same_str(
            url.origin.as_str(),
            "null",
        ),
        None => false,
    };
    let cookie = if home && !cookie.is_empty() {
        Some(cookie.to_owned())
    } else {
        None
    };
    Some(ResourceRequest { url: url.clone(), body: None, cookie })
}

// ---------------------------------------------------------------------------
// Laws
// ---------------------------------------------------------------------------
/// Every entry is scheduled once: what runs first and what waits are together
/// as many as there are, and nothing that runs first waits.
pub proof fn law_every_script_is_scheduled(entries: Seq<EntryModel>, n: int)
    requires
        0 <= n <= entries.len(),
    ensures
        immediate(entries, n).len() + deferred(entries, n).len() == n,
        forall|i: int| 0 <= i < immediate(entries, n).len() ==> (#[trigger] immediate(entries, n)[i])
            is Now,
        forall|i: int| 0 <= i < deferred(entries, n).len() ==> !((#[trigger] deferred(entries, n)[i])
            is Now),
    decreases n,
{
    if n > 0 {
        law_every_script_is_scheduled(entries, n - 1);
    }
}

/// A source that was given is parsed on the next import of its URL, unless
/// its module was parsed before.
pub proof fn law_given_sources_are_served(m: SourcesModel, key: Seq<char>, source: Seq<char>)
    requires
        !m.parsed.contains(key),
    ensures
        import_model(
            (SourcesModel { sources: string_map::put(m.sources, key, source), ..m }),
            key,
        ) == ImportModel::Parse(source),
{
    string_map::law_read_after_write(m.sources, key, source, key);
}

/// A module is parsed once: after it was, its imports come from the cache.
pub proof fn law_modules_are_parsed_once(m: SourcesModel, key: Seq<char>)
    ensures
        import_model((SourcesModel { parsed: with_key(m.parsed, key), ..m }), key)
            == ImportModel::Cached,
{
    if !m.parsed.contains(key) {
        assert(m.parsed.push(key)[m.parsed.len() as int] == key);
    }
}

/// A remote page imports no local file, and a module from another origin gets
/// no cookies.
pub proof fn law_module_requests_stay_home(page: UrlModel, cookie: Seq<char>, url: UrlModel)
    ensures
        url.scheme == "file"@ && (page.scheme == "http"@ || page.scheme == "https"@)
            ==> module_request(Some(page), cookie, url) is None,
        page.origin != url.origin ==> (module_request(Some(page), cookie, url) matches Some(r)
            ==> r.cookie is None),
{
}

/// A script element runs where its type is empty, a JavaScript type or
/// `module`; a module is never deferred by its attribute, a classic script is
/// where it has one. Any other type does not run, nor does any other element.
pub proof fn law_scripts_run_by_their_type(doc: DocumentModel, node: NodeId)
    ensures
        ({
            let kind = match document::attribute_at(doc, node, "type"@) {
                Some(t) => text::trimmed(t),
                None => text::trimmed(""@),
            };
            let script = document::has_tag(doc, node, "script"@);
            let classic = kind.len() == 0 || kind == "text/javascript"@ || kind
                == "application/javascript"@ || kind == "application/ecmascript"@;
            &&& script_at(doc, node) is Some <==> script && (classic || kind == "module"@)
            &&& script && kind == "module"@ ==> script_at(doc, node)->0.module && !script_at(
                doc,
                node,
            )->0.defer
            &&& script && classic ==> !script_at(doc, node)->0.module && (script_at(
                doc,
                node,
            )->0.defer <==> document::attribute_at(doc, node, "defer"@) is Some)
            &&& script_at(doc, node) matches Some(found) ==> found.src == document::attribute_at(
                doc,
                node,
                "src"@,
            ) && found.inline == document::text_at(doc, node)
        }),
{
    reveal_strlit("module");
    reveal_strlit("text/javascript");
    reveal_strlit("application/javascript");
    reveal_strlit("application/ecmascript");
    assert("module"@.len() == 6 && "text/javascript"@.len() == 15);
    assert("application/javascript"@.len() == 22 && "application/ecmascript"@.len() == 22);
}

/// A script with an address runs what was fetched, and not at all where the
/// fetch failed; one without runs its text. Modules go by their address, and
/// inline ones by the page's address and their number.
pub proof fn law_scripts_become_entries(
    script: FoundModel,
    url: Seq<char>,
    source: Seq<char>,
    base: Seq<char>,
    k: nat,
)
    ensures
        script.src is Some ==> entry_of(script, None, base, k) is None,
        script.src is Some && script.module ==> entry_of(script, Some((url, source)), base, k)
            == Some(EntryModel::Module { key: url, source }),
        script.src is Some && !script.module && script.defer ==> entry_of(
            script,
            Some((url, source)),
            base,
            k,
        ) == Some(EntryModel::Deferred(source)),
        script.src is Some && !script.module && !script.defer ==> entry_of(
            script,
            Some((url, source)),
            base,
            k,
        ) == Some(EntryModel::Now(source)),
        script.src is None && !script.module ==> entry_of(script, None, base, k) == Some(
            EntryModel::Now(script.inline),
        ),
        script.src is None && script.module ==> entry_of(script, None, base, k) == Some(
            EntryModel::Module {
                key: base + "#inline-module-"@ + text::decimal(k),
                source: script.inline,
            },
        ),
{
}

/// What runs as it is met runs before what waits, and each keeps its order:
/// an entry goes to the end of its own queue.
pub proof fn law_queues_keep_their_order(entries: Seq<EntryModel>, n: int)
    requires
        0 < n <= entries.len(),
    ensures
        entries[n - 1] is Now ==> immediate(entries, n) == immediate(entries, n - 1).push(
            entries[n - 1],
        ) && deferred(entries, n) == deferred(entries, n - 1),
        !(entries[n - 1] is Now) ==> deferred(entries, n) == deferred(entries, n - 1).push(
            entries[n - 1],
        ) && immediate(entries, n) == immediate(entries, n - 1),
        immediate(entries, 0).len() == 0,
        deferred(entries, 0).len() == 0,
{
}

/// A module that was parsed is not parsed again; one whose source is known is
/// parsed from it; of the others those are fetched that may be, and the rest
/// are missing.
pub proof fn law_imports_are_served(m: SourcesModel, key: Seq<char>)
    ensures
        m.parsed.contains(key) ==> import_model(m, key) is Cached,
        !m.parsed.contains(key) && string_map::lookup(m.sources, key) is Some ==> import_model(
            m,
            key,
        ) == ImportModel::Parse(string_map::lookup(m.sources, key)->0),
        !m.parsed.contains(key) && string_map::lookup(m.sources, key) is None && m.queue_fetch
            ==> import_model(m, key) is Fetch,
        !m.parsed.contains(key) && string_map::lookup(m.sources, key) is None && !m.queue_fetch
            ==> import_model(m, key) is Missing,
{
}

/// A module request is refused exactly where a page from the web asks for a
/// local file. It has no body, and carries the page's cookies exactly within
/// one origin that is not opaque, where there are any.
pub proof fn law_module_requests(page: UrlModel, cookie: Seq<char>, url: UrlModel)
    ensures
        module_request(Some(page), cookie, url) is None <==> url.scheme == "file"@ && (page.scheme
            == "http"@ || page.scheme == "https"@),
        module_request(Some(page), cookie, url) matches Some(request) ==> request.url == url
            && request.body is None && (request.cookie is Some <==> page.origin == url.origin
            && url.origin != "null"@ && cookie.len() > 0) && (request.cookie is Some
            ==> request.cookie == Some(cookie)),
        module_request(None, cookie, url) matches Some(request) && request.url == url
            && request.body is None && request.cookie is None,
{
}

/// Every page hears that its content is loaded and then that it is; only one
/// that was reached by a traversal hears of that, last.
pub proof fn law_lifecycle(traversed: bool)
    ensures
        lifecycle(traversed)[0] == "DOMContentLoaded"@,
        lifecycle(traversed)[1] == "load"@,
        traversed ==> lifecycle(traversed).len() == 3 && lifecycle(traversed)[2] == "popstate"@,
        !traversed ==> lifecycle(traversed).len() == 2,
{
}

/// A module's imports are fetched for as long as a round fetched something new,
/// and given up where the graph is too deep.
pub proof fn law_rounds_go_on_while_they_fetch(rounds: int)
    ensures
        round_step(RoundResult::ParseError, rounds) is Done,
        round_step(RoundResult::FetchFailed, rounds) is Done,
        round_step(RoundResult::Settled, rounds) is Done,
        rounds < MAX_MODULE_ROUNDS ==> round_step(RoundResult::Fetched, rounds) is Again,
        rounds >= MAX_MODULE_ROUNDS ==> round_step(RoundResult::Fetched, rounds) is GiveUp,
        MAX_MODULE_ROUNDS == 64,
{
}

} // verus!
