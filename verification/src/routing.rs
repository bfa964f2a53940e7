//! The actions of the protocol: what each request asks for, and what it is answered.

use crate::envelope;
use crate::envelope::{RequestEnvelope, ResponseEnvelope};
use crate::catalog;
use crate::graph;
use crate::graph::GraphCallsResult;
use crate::json;
use crate::json::Json;
use crate::paths;
use crate::rank;
use crate::symbols;
use crate::symbols::{FuzzySymbolMatch, RepoMap, SymbolLocation};
use crate::text;
use crate::textmap::TextMap;
use crate::warmup;
use crate::warmup::Snapshots;
use vstd::prelude::*;

verus! {

broadcast use vstd::string::group_string_axioms;

// ---------------------------------------------------------------------------
// State
// ---------------------------------------------------------------------------

/// What the adapter remembers from request to request: whether it is warmed up, the active
/// project of each context, and the snapshot of each project.
#[derive(Debug)]
pub struct AdapterState {
    warmed_up: bool,
    projects: TextMap<String>,
    snapshots: Snapshots,
}

/// What the adapter remembers.
pub struct StateView {
    pub warmed_up: bool,
    pub projects: Map<Seq<char>, Seq<char>>,
    pub snapshots: Map<Seq<char>, Map<Seq<char>, u64>>,
}

impl View for AdapterState {
    type V = StateView;

    closed spec fn view(&self) -> StateView {
        StateView {
            warmed_up: self.warmed_up,
            projects: self.projects@.map_values(|s: String| s@),
            snapshots: self.snapshots@,
        }
    }
}

/// The active project of a request's context.
pub open spec fn active_project(state: StateView, req: envelope::RequestView) -> Option<
    Seq<char>,
> {
    let key = envelope::context_key(req);
    if state.projects.contains_key(key) {
        Some(state.projects[key])
    } else {
        None
    }
}

/// The state after `root` became the active project of a request's context.
pub open spec fn with_project(
    state: StateView,
    req: envelope::RequestView,
    root: Seq<char>,
) -> StateView {
    StateView { projects: state.projects.insert(envelope::context_key(req), root), ..state }
}

/// The project that a request is about: the one that it names, or else the active one.
pub open spec fn project_of(state: StateView, req: envelope::RequestView) -> Option<Seq<char>> {
    match envelope::root_in(req.payload) {
        Some(root) => Some(root),
        None => active_project(state, req),
    }
}

impl AdapterState {
    /// The state at the start.
    pub fn new() -> (r: AdapterState)
        ensures
            !r@.warmed_up,
            r@.projects == Map::<Seq<char>, Seq<char>>::empty(),
            r@.snapshots == Map::<Seq<char>, Map<Seq<char>, u64>>::empty(),
    {
        let r = AdapterState {
            warmed_up: false,
            projects: TextMap::new(),
            snapshots: Snapshots::new(),
        };
        assert(r@.projects =~= Map::<Seq<char>, Seq<char>>::empty());
        r
    }

    /// Whether the adapter is warmed up.
    pub fn is_warmed_up(&self) -> (r: bool)
        ensures
            r == self@.warmed_up,
    {
        self.warmed_up
    }

    /// The active project of a request's context.
    pub fn active_project_for_request(&self, req: &RequestEnvelope) -> (r: Option<String>)
        ensures
            paths::text_option(r) == active_project(self@, req@),
    {
        let key = envelope::context_key_for_request(req);
        match self.projects.get(key.as_str()) {
            Some(root) => Some(root.clone()),
            None => None,
        }
    }

    /// The active project of some context, if any context has one.
    pub fn any_active_project(&self) -> (r: Option<String>)
        ensures
            match r {
                Some(root) => exists|key: Seq<char>| #[trigger]
                    self@.projects.contains_key(key) && self@.projects[key] == root@,
                None => forall|key: Seq<char>| !#[trigger] self@.projects.contains_key(key),
            },
    {
        if self.projects.len() == 0 {
            assert forall|key: Seq<char>| !#[trigger] self@.projects.contains_key(key) by {
                assert(self.projects@.contains_key(key) <==> self.projects.keys().contains(key));
            }
            None
        } else {
            let root = self.projects.value_at(0);
            assert(self@.projects.contains_key(self.projects.keys()[0]));
            Some(root.clone())
        }
    }

    /// Makes `root` the active project of a request's context.
    pub fn register_active_project(&mut self, req: &RequestEnvelope, root: &str)
        ensures
            final(self)@ == with_project(old(self)@, req@, root@),
    {
        let key = envelope::context_key_for_request(req);
        let value = root.to_string();
        self.projects.insert(key, value);
        assert(self@.projects =~= old(self)@.projects.insert(key@, root@));
    }

    /// The project that a request is about.
    pub fn resolve_project_root_for_action(&self, req: &RequestEnvelope) -> (r: Option<String>)
        ensures
            paths::text_option(r) == project_of(self@, req@),
    {
        match envelope::extract_root_path(&req.payload) {
            Some(root) => Some(root),
            None => self.active_project_for_request(req),
        }
    }
}

// ---------------------------------------------------------------------------
// Steps
// ---------------------------------------------------------------------------

/// Work outside the library that a request needs.
#[derive(Debug)]
pub enum Effect {
    /// Take a snapshot of a project.
    Snapshot { project_root: String },
    /// Map the symbols of a repository.
    MapRepo { root: String },
    /// Look up a symbol.
    Lookup { root: String, symbol: String },
    /// Look up the symbols that match.
    LookupFuzzy { root: String, symbol: String, limit: usize },
    /// Look whether a workspace has TypeScript sources.
    ProbeLanguage { root: String, symbol: String, depth: usize },
    /// Query the calls of a TypeScript symbol.
    GraphCalls { root: String, symbol: String, depth: usize },
    /// Replace a text in a file.
    ApplyPatch { target: String, search: String, replace: String },
}

/// Work outside the library that a request needs.
pub enum EffectView {
    Snapshot { project_root: Seq<char> },
    MapRepo { root: Seq<char> },
    Lookup { root: Seq<char>, symbol: Seq<char> },
    LookupFuzzy { root: Seq<char>, symbol: Seq<char>, limit: usize },
    ProbeLanguage { root: Seq<char>, symbol: Seq<char>, depth: usize },
    GraphCalls { root: Seq<char>, symbol: Seq<char>, depth: usize },
    ApplyPatch { target: Seq<char>, search: Seq<char>, replace: Seq<char> },
}

impl View for Effect {
    type V = EffectView;

    open spec fn view(&self) -> EffectView {
        match self {
            Effect::Snapshot { project_root } => EffectView::Snapshot {
                project_root: project_root@,
            },
            Effect::MapRepo { root } => EffectView::MapRepo { root: root@ },
            Effect::Lookup { root, symbol } => EffectView::Lookup { root: root@, symbol: symbol@ },
            Effect::LookupFuzzy { root, symbol, limit } => EffectView::LookupFuzzy {
                root: root@,
                symbol: symbol@,
                limit: *limit,
            },
            Effect::ProbeLanguage { root, symbol, depth } => EffectView::ProbeLanguage {
                root: root@,
                symbol: symbol@,
                depth: *depth,
            },
            Effect::GraphCalls { root, symbol, depth } => EffectView::GraphCalls {
                root: root@,
                symbol: symbol@,
                depth: *depth,
            },
            Effect::ApplyPatch { target, search, replace } => EffectView::ApplyPatch {
                target: target@,
                search: search@,
                replace: replace@,
            },
        }
    }
}

/// What a request comes to next: its response, or work after which it goes on.
#[derive(Debug)]
pub enum RouteStep {
    Respond(ResponseEnvelope),
    Perform(RequestEnvelope, Effect),
}

/// What a request comes to next.
pub enum RouteStepView {
    Respond(envelope::ResponseView),
    Perform(envelope::RequestView, EffectView),
}

impl View for RouteStep {
    type V = RouteStepView;

    open spec fn view(&self) -> RouteStepView {
        match self {
            RouteStep::Respond(response) => RouteStepView::Respond(response@),
            RouteStep::Perform(req, effect) => RouteStepView::Perform(req@, effect@),
        }
    }
}

/// The step that answers with `data`.
pub open spec fn ok(req: envelope::RequestView, data: json::JsonView) -> RouteStepView {
    RouteStepView::Respond(envelope::ok_with(req, data))
}

/// The step that answers with an error.
pub open spec fn fail(req: envelope::RequestView, error: envelope::ErrorView) -> RouteStepView {
    RouteStepView::Respond(envelope::failed_with(req, error))
}

// ---------------------------------------------------------------------------
// What actions ask for
// ---------------------------------------------------------------------------

/// Whether `action` looks up one symbol.
pub open spec fn is_lookup(action: Seq<char>) -> bool {
    ||| action == "symbol.lookup"@
    ||| action == "symbol.lookup.static"@
    ||| action == "symbol.resolve"@
}

/// Whether `action` is refused until the adapter is warmed up and the request has a project.
pub open spec fn is_guarded(action: Seq<char>) -> bool {
    is_lookup(action) || action == "symbol.lookup.fuzzy"@ || action == "graph.calls"@
}

/// The project and the symbol that a guarded request is about, or why it is refused: the warmup
/// is missing, then the project, then the symbol.
pub open spec fn guarded_query(state: StateView, req: envelope::RequestView) -> Result<
    (Seq<char>, Seq<char>),
    envelope::ErrorView,
> {
    if !state.warmed_up {
        Err(envelope::warmup_required(req.action))
    } else {
        match project_of(state, req) {
            None => Err(envelope::project_required(req.action)),
            Some(root) => match req.payload.text_at("symbol"@) {
                None => Err(envelope::bad_request("missing payload.symbol"@)),
                Some(symbol) => Ok((root, symbol)),
            },
        }
    }
}

/// What a lookup details.
pub open spec fn symbol_details(symbol: Seq<char>) -> json::JsonView {
    json::JsonView::object().with("symbol"@, json::JsonView::Text(symbol))
}

/// The error of a lookup that was asked to time out.
pub open spec fn simulated_timeout(symbol: Seq<char>) -> envelope::ErrorView {
    envelope::ErrorView {
        code: "ALSP_LSP_TIMEOUT"@,
        message: "simulated lsp timeout"@,
        retryable: true,
        node: "Analyze"@,
        details: symbol_details(symbol),
    }
}

/// The error of a lookup that found nothing.
pub open spec fn symbol_not_found(symbol: Seq<char>) -> envelope::ErrorView {
    envelope::ErrorView {
        code: "ALSP_SYMBOL_NOT_FOUND"@,
        message: "symbol not found"@,
        retryable: false,
        node: "Analyze"@,
        details: symbol_details(symbol),
    }
}

/// What a lookup of one symbol comes to.
pub open spec fn lookup_step(state: StateView, req: envelope::RequestView) -> RouteStepView {
    match guarded_query(state, req) {
        Err(e) => fail(req, e),
        Ok((root, symbol)) => if req.action == "symbol.lookup"@ && req.payload.flag_at(
            "force_lsp_timeout"@,
        ) {
            fail(req, simulated_timeout(symbol))
        } else {
            RouteStepView::Perform(req, EffectView::Lookup { root, symbol })
        },
    }
}

/// What a fuzzy lookup comes to.
pub open spec fn fuzzy_step(state: StateView, req: envelope::RequestView) -> RouteStepView {
    match guarded_query(state, req) {
        Err(e) => fail(req, e),
        Ok((root, symbol)) => RouteStepView::Perform(
            req,
            EffectView::LookupFuzzy {
                root,
                symbol,
                limit: envelope::limit_in(req.payload, 10, 50),
            },
        ),
    }
}

/// The answer of a graph query in a language without a provider.
pub open spec fn no_provider(
    symbol: Seq<char>,
    depth: usize,
    language: Seq<char>,
) -> json::JsonView {
    json::JsonView::object().with("symbol"@, json::JsonView::Text(symbol)).with(
        "depth"@,
        json::JsonView::Number(depth as u64),
    ).with("calls"@, json::JsonView::Array(Seq::empty())).with(
        "provider"@,
        json::JsonView::Text("alsp.graph.calls.v0"@),
    ).with("language"@, json::JsonView::Text(language)).with(
        "truncated"@,
        json::JsonView::Bool(false),
    )
}

/// What a graph query in a known language comes to.
pub open spec fn graph_in(
    req: envelope::RequestView,
    root: Seq<char>,
    symbol: Seq<char>,
    depth: usize,
    language: Seq<char>,
) -> RouteStepView {
    if language == "typescript"@ {
        RouteStepView::Perform(req, EffectView::GraphCalls { root, symbol, depth })
    } else {
        ok(req, no_provider(symbol, depth, language))
    }
}

/// What a graph query comes to.
pub open spec fn graph_step(state: StateView, req: envelope::RequestView) -> RouteStepView {
    match guarded_query(state, req) {
        Err(e) => fail(req, e),
        Ok((root, symbol)) => {
            let depth = envelope::depth_in(req.payload);
            match envelope::language_in(req.payload) {
                Some(language) => graph_in(req, root, symbol, depth, language),
                None => RouteStepView::Perform(
                    req,
                    EffectView::ProbeLanguage { root, symbol, depth },
                ),
            }
        },
    }
}

/// The first block of a patch.
pub open spec fn first_block(payload: json::JsonView) -> Option<json::JsonView> {
    match payload.get("search_replace_blocks"@) {
        Some(v) => match v.as_items() {
            Some(items) => if items.len() > 0 {
                Some(items[0])
            } else {
                None
            },
            None => None,
        },
        None => None,
    }
}

/// The text under `key` of a block, or the empty text.
pub open spec fn block_text(block: json::JsonView, key: Seq<char>) -> Seq<char> {
    match block.text_at(key) {
        Some(s) => s,
        None => Seq::empty(),
    }
}

/// An error of a patch.
pub open spec fn patch_error(
    code: Seq<char>,
    message: Seq<char>,
    retryable: bool,
    target: Seq<char>,
    search: Seq<char>,
) -> envelope::ErrorView {
    envelope::ErrorView {
        code,
        message,
        retryable,
        node: "Execute"@,
        details: json::JsonView::object().with("file"@, json::JsonView::Text(target)).with(
            "search_excerpt"@,
            json::JsonView::Text(search),
        ),
    }
}

/// What a patch comes to.
pub open spec fn patch_step(req: envelope::RequestView) -> RouteStepView {
    match req.payload.text_at("target"@) {
        None => fail(req, envelope::bad_request("missing payload.target"@)),
        Some(target) => match first_block(req.payload) {
            None => fail(
                req,
                envelope::bad_request("missing payload.search_replace_blocks[0]"@),
            ),
            Some(block) => {
                let search = block_text(block, "search"@);
                let replace = block_text(block, "replace"@);
                if search.len() == 0 {
                    fail(req, envelope::bad_request("empty search pattern"@))
                } else if req.payload.flag_at("force_patch_conflict"@) {
                    fail(
                        req,
                        patch_error(
                            "PATCHLET_CONFLICT"@,
                            "simulated patch conflict"@,
                            false,
                            target,
                            search,
                        ),
                    )
                } else {
                    RouteStepView::Perform(
                        req,
                        EffectView::ApplyPatch { target, search, replace },
                    )
                }
            },
        },
    }
}

/// The answer of an activation.
pub open spec fn activated(req: envelope::RequestView, root: Seq<char>) -> json::JsonView {
    json::JsonView::object().with("status"@, json::JsonView::Text("ok"@)).with(
        "active_project"@,
        json::JsonView::Text(root),
    ).with("context_key"@, json::JsonView::Text(envelope::context_key(req)))
}

/// The error of a request for an action that there is not.
pub open spec fn unsupported_action() -> envelope::ErrorView {
    envelope::ErrorView {
        code: "ADAPTER_ROUTE_FAILED"@,
        message: "unsupported action"@,
        retryable: true,
        node: "Adapter"@,
        details: json::JsonView::object(),
    }
}

/// The state after a request came in, and what the request comes to.
pub open spec fn route(state: StateView, req: envelope::RequestView) -> (
    StateView,
    RouteStepView,
) {
    if req.action == "system.health"@ {
        (state, ok(req, catalog::health(state.warmed_up, active_project(state, req))))
    } else if req.action == "project.activate"@ {
        match envelope::root_in(req.payload) {
            Some(root) => (with_project(state, req, root), ok(req, activated(req, root))),
            None => (
                state,
                fail(
                    req,
                    envelope::root_required(
                        "project.activate requires explicit project_root/path"@,
                        "project.activate"@,
                    ),
                ),
            ),
        }
    } else if req.action == "system.warmup"@ {
        match envelope::root_in(req.payload) {
            Some(root) => (
                with_project(state, req, root),
                RouteStepView::Perform(req, EffectView::Snapshot { project_root: root }),
            ),
            None => (
                state,
                fail(
                    req,
                    envelope::root_required(
                        "system.warmup requires explicit project_root/path"@,
                        "system.warmup"@,
                    ),
                ),
            ),
        }
    } else if req.action == "repo.map"@ {
        let root = match envelope::root_in(req.payload) {
            Some(root) => root,
            None => "."@,
        };
        (state, RouteStepView::Perform(req, EffectView::MapRepo { root }))
    } else if is_lookup(req.action) {
        (state, lookup_step(state, req))
    } else if req.action == "symbol.lookup.fuzzy"@ {
        (state, fuzzy_step(state, req))
    } else if req.action == "graph.calls"@ {
        (state, graph_step(state, req))
    } else if req.action == "patch.apply"@ {
        (state, patch_step(req))
    } else {
        (state, fail(req, unsupported_action()))
    }
}

/// The error of a request in another version of the protocol.
pub open spec fn unsupported_version(version: Seq<char>) -> envelope::ErrorView {
    envelope::ErrorView {
        code: "COMMON_BAD_REQUEST"@,
        message: "unsupported version: "@ + version,
        retryable: false,
        node: "Adapter"@,
        details: json::JsonView::object().with(
            "supported_version"@,
            json::JsonView::Text("v0"@),
        ),
    }
}

/// The state after a request came in, and what the request comes to. Only one version of the
/// protocol is spoken.
pub open spec fn handle(state: StateView, req: envelope::RequestView) -> (
    StateView,
    RouteStepView,
) {
    if req.version != "v0"@ {
        (state, fail(req, unsupported_version(req.version)))
    } else {
        route(state, req)
    }
}

/// The project and the symbol of a guarded request, or the request and why it is refused.
enum Guarded {
    Granted(RequestEnvelope, String, String),
    Refused(ResponseEnvelope),
}

fn guard(state: &AdapterState, req: RequestEnvelope) -> (r: Guarded)
    ensures
        match r {
            Guarded::Granted(same, root, symbol) => same == req && guarded_query(state@, req@)
                == Ok::<(Seq<char>, Seq<char>), envelope::ErrorView>((root@, symbol@)),
            Guarded::Refused(response) => guarded_query(state@, req@) matches Err(e) && response@
                == envelope::failed_with(req@, e),
        },
{
    let action = req.action.clone();
    if !state.warmed_up {
        return Guarded::Refused(
            envelope::precondition_required_response(req, action.as_str()),
        );
    }
    let root = match state.resolve_project_root_for_action(&req) {
        Some(root) => root,
        None => {
            return Guarded::Refused(
                envelope::project_activation_required_response(req, action.as_str()),
            );
        },
    };
    let symbol = match req.payload.text_at("symbol") {
        Some(s) => s.to_string(),
        None => {
            return Guarded::Refused(
                envelope::bad_request_response(req, "missing payload.symbol"),
            );
        },
    };
    Guarded::Granted(req, root, symbol)
}

fn symbol_details_json(symbol: &str) -> (r: Json)
    ensures
        r@ == symbol_details(symbol@),
{
    Json::object().with("symbol", Json::text(symbol))
}

fn route_lookup(state: &AdapterState, req: RequestEnvelope) -> (r: RouteStep)
    ensures
        r@ == lookup_step(state@, req@),
{
    match guard(state, req) {
        Guarded::Refused(response) => RouteStep::Respond(response),
        Guarded::Granted(req, root, symbol) => {
            if text::same_text(req.action.as_str(), "symbol.lookup") && req.payload.flag_at(
                "force_lsp_timeout",
            ) {
                let details = symbol_details_json(symbol.as_str());
                return RouteStep::Respond(
                    envelope::error_response(
                        req,
                        "ALSP_LSP_TIMEOUT",
                        "simulated lsp timeout",
                        true,
                        "Analyze",
                        details,
                    ),
                );
            }
            RouteStep::Perform(req, Effect::Lookup { root, symbol })
        },
    }
}

fn route_fuzzy(state: &AdapterState, req: RequestEnvelope) -> (r: RouteStep)
    ensures
        r@ == fuzzy_step(state@, req@),
{
    match guard(state, req) {
        Guarded::Refused(response) => RouteStep::Respond(response),
        Guarded::Granted(req, root, symbol) => {
            let limit = envelope::parse_limit(&req.payload, 10, 50);
            RouteStep::Perform(req, Effect::LookupFuzzy { root, symbol, limit })
        },
    }
}

fn graph_in_language(
    req: RequestEnvelope,
    root: String,
    symbol: String,
    depth: usize,
    language: String,
) -> (r: RouteStep)
    ensures
        r@ == graph_in(req@, root@, symbol@, depth, language@),
{
    if text::same_text(language.as_str(), "typescript") {
        RouteStep::Perform(req, Effect::GraphCalls { root, symbol, depth })
    } else {
        let calls: Vec<Json> = Vec::new();
        assert(rank::views(calls@) =~= Seq::empty());
        let data = Json::object().with("symbol", Json::text(symbol.as_str())).with(
            "depth",
            Json::Number(depth as u64),
        ).with("calls", Json::array(calls)).with(
            "provider",
            Json::text("alsp.graph.calls.v0"),
        ).with("language", Json::text(language.as_str())).with("truncated", Json::Bool(false));
        RouteStep::Respond(envelope::ok_response(req, data))
    }
}

fn route_graph(state: &AdapterState, req: RequestEnvelope) -> (r: RouteStep)
    ensures
        r@ == graph_step(state@, req@),
{
    match guard(state, req) {
        Guarded::Refused(response) => RouteStep::Respond(response),
        Guarded::Granted(req, root, symbol) => {
            let depth = envelope::parse_depth(&req.payload);
            match envelope::explicit_language(&req.payload) {
                Some(language) => graph_in_language(req, root, symbol, depth, language),
                None => RouteStep::Perform(req, Effect::ProbeLanguage { root, symbol, depth }),
            }
        },
    }
}

fn patch_error_response(
    req: RequestEnvelope,
    code: &str,
    message: &str,
    retryable: bool,
    target: &str,
    search: &str,
) -> (r: ResponseEnvelope)
    ensures
        r@ == envelope::failed_with(
            req@,
            patch_error(code@, message@, retryable, target@, search@),
        ),
{
    let details = Json::object().with("file", Json::text(target)).with(
        "search_excerpt",
        Json::text(search),
    );
    envelope::error_response(req, code, message, retryable, "Execute", details)
}

fn find_first_block(payload: &Json) -> (r: Option<&Json>)
    ensures
        crate::lsp::option_json(r) == first_block(payload@),
{
    match payload.get("search_replace_blocks") {
        Some(v) => match v.as_array() {
            Some(items) => {
                if items.len() > 0 {
                    Some(&items[0])
                } else {
                    None
                }
            },
            None => None,
        },
        None => None,
    }
}

fn text_in_block(block: &Json, key: &str) -> (r: String)
    ensures
        r@ == block_text(block@, key@),
{
    match block.text_at(key) {
        Some(s) => s.to_string(),
        None => String::new(),
    }
}

fn route_patch(req: RequestEnvelope) -> (r: RouteStep)
    ensures
        r@ == patch_step(req@),
{
    let target = match req.payload.text_at("target") {
        Some(s) => s.to_string(),
        None => {
            return RouteStep::Respond(
                envelope::bad_request_response(req, "missing payload.target"),
            );
        },
    };
    let (search, replace) = match find_first_block(&req.payload) {
        Some(block) => (text_in_block(block, "search"), text_in_block(block, "replace")),
        None => {
            return RouteStep::Respond(
                envelope::bad_request_response(req, "missing payload.search_replace_blocks[0]"),
            );
        },
    };
    if search.as_str().is_empty() {
        return RouteStep::Respond(envelope::bad_request_response(req, "empty search pattern"));
    }
    if req.payload.flag_at("force_patch_conflict") {
        return RouteStep::Respond(
            patch_error_response(
                req,
                "PATCHLET_CONFLICT",
                "simulated patch conflict",
                false,
                target.as_str(),
                search.as_str(),
            ),
        );
    }
    RouteStep::Perform(req, Effect::ApplyPatch { target, search, replace })
}

/// Takes a request in, and says what it comes to.
pub fn route_action(state: &mut AdapterState, req: RequestEnvelope) -> (r: RouteStep)
    ensures
        (final(state)@, r@) == route(old(state)@, req@),
{
    let action = req.action.clone();
    let action = action.as_str();
    if text::same_text(action, "system.health") {
        let active = state.active_project_for_request(&req);
        let data = match &active {
            Some(root) => catalog::system_health_payload(state.warmed_up, Some(root.as_str())),
            None => catalog::system_health_payload(state.warmed_up, None),
        };
        RouteStep::Respond(envelope::ok_response(req, data))
    } else if text::same_text(action, "project.activate") {
        match envelope::extract_root_path(&req.payload) {
            Some(root) => {
                state.register_active_project(&req, root.as_str());
                let key = envelope::context_key_for_request(&req);
                let data = Json::object().with("status", Json::text("ok")).with(
                    "active_project",
                    Json::text(root.as_str()),
                ).with("context_key", Json::text(key.as_str()));
                RouteStep::Respond(envelope::ok_response(req, data))
            },
            None => RouteStep::Respond(
                envelope::root_required_response(
                    req,
                    "project.activate requires explicit project_root/path",
                    "project.activate",
                ),
            ),
        }
    } else if text::same_text(action, "system.warmup") {
        match envelope::extract_root_path(&req.payload) {
            Some(root) => {
                state.register_active_project(&req, root.as_str());
                RouteStep::Perform(req, Effect::Snapshot { project_root: root })
            },
            None => RouteStep::Respond(
                envelope::root_required_response(
                    req,
                    "system.warmup requires explicit project_root/path",
                    "system.warmup",
                ),
            ),
        }
    } else if text::same_text(action, "repo.map") {
        let root = match envelope::extract_root_path(&req.payload) {
            Some(root) => root,
            None => ".".to_string(),
        };
        RouteStep::Perform(req, Effect::MapRepo { root })
    } else if text::same_text(action, "symbol.lookup") || text::same_text(
        action,
        "symbol.lookup.static",
    ) || text::same_text(action, "symbol.resolve") {
        route_lookup(state, req)
    } else if text::same_text(action, "symbol.lookup.fuzzy") {
        route_fuzzy(state, req)
    } else if text::same_text(action, "graph.calls") {
        route_graph(state, req)
    } else if text::same_text(action, "patch.apply") {
        route_patch(req)
    } else {
        RouteStep::Respond(
            envelope::error_response(
                req,
                "ADAPTER_ROUTE_FAILED",
                "unsupported action",
                true,
                "Adapter",
                Json::object(),
            ),
        )
    }
}

/// Takes a request in, and says what it comes to. Only one version of the protocol is spoken.
pub fn handle_request(state: &mut AdapterState, req: RequestEnvelope) -> (r: RouteStep)
    ensures
        (final(state)@, r@) == handle(old(state)@, req@),
{
    if !text::same_text(req.version.as_str(), "v0") {
        let mut message = "unsupported version: ".to_string();
        message.append(req.version.as_str());
        let details = Json::object().with("supported_version", Json::text("v0"));
        return RouteStep::Respond(
            envelope::error_response(
                req,
                "COMMON_BAD_REQUEST",
                message.as_str(),
                false,
                "Adapter",
                details,
            ),
        );
    }
    route_action(state, req)
}

// ---------------------------------------------------------------------------
// What the work brought
// ---------------------------------------------------------------------------

/// What a patch did.
#[derive(Debug)]
pub struct PatchReport {
    pub replacements: usize,
    pub report: Json,
}

/// What the work for a request brought.
#[derive(Debug)]
pub enum Completed {
    Snapshot { project_root: String, snapshot: Result<TextMap<u64>, String>, duration_ms: u64 },
    MapRepo { map: Result<RepoMap, String> },
    Lookup { symbol: String, found: Result<Option<SymbolLocation>, String> },
    LookupFuzzy { symbol: String, limit: usize, matches: Result<Vec<FuzzySymbolMatch>, String> },
    ProbeLanguage { root: String, symbol: String, depth: usize, has_ts_files: bool },
    GraphCalls { root: String, symbol: String, calls: Result<GraphCallsResult, String> },
    ApplyPatch { target: String, search: String, outcome: Result<PatchReport, String> },
}

/// What the work for a request brought.
pub enum CompletedView {
    Snapshot {
        project_root: Seq<char>,
        snapshot: Result<Map<Seq<char>, u64>, Seq<char>>,
        duration_ms: u64,
    },
    MapRepo { map: Result<symbols::RepoView, Seq<char>> },
    Lookup { symbol: Seq<char>, found: Result<Option<symbols::LocationView>, Seq<char>> },
    LookupFuzzy {
        symbol: Seq<char>,
        limit: usize,
        matches: Result<Seq<symbols::MatchView>, Seq<char>>,
    },
    ProbeLanguage { root: Seq<char>, symbol: Seq<char>, depth: usize, has_ts_files: bool },
    GraphCalls {
        root: Seq<char>,
        symbol: Seq<char>,
        calls: Result<graph::CallsView, Seq<char>>,
    },
    ApplyPatch {
        target: Seq<char>,
        search: Seq<char>,
        outcome: Result<(usize, json::JsonView), Seq<char>>,
    },
}

impl View for Completed {
    type V = CompletedView;

    open spec fn view(&self) -> CompletedView {
        match self {
            Completed::Snapshot { project_root, snapshot, duration_ms } => CompletedView::Snapshot {
                project_root: project_root@,
                snapshot: match snapshot {
                    Ok(s) => Ok(s@),
                    Err(e) => Err(e@),
                },
                duration_ms: *duration_ms,
            },
            Completed::MapRepo { map } => CompletedView::MapRepo {
                map: match map {
                    Ok(map) => Ok(map@),
                    Err(e) => Err(e@),
                },
            },
            Completed::Lookup { symbol, found } => CompletedView::Lookup {
                symbol: symbol@,
                found: match found {
                    Ok(Some(found)) => Ok(Some(found@)),
                    Ok(None) => Ok(None),
                    Err(e) => Err(e@),
                },
            },
            Completed::LookupFuzzy { symbol, limit, matches } => CompletedView::LookupFuzzy {
                symbol: symbol@,
                limit: *limit,
                matches: match matches {
                    Ok(items) => Ok(rank::views(items@)),
                    Err(e) => Err(e@),
                },
            },
            Completed::ProbeLanguage { root, symbol, depth, has_ts_files } =>
            CompletedView::ProbeLanguage {
                root: root@,
                symbol: symbol@,
                depth: *depth,
                has_ts_files: *has_ts_files,
            },
            Completed::GraphCalls { root, symbol, calls } => CompletedView::GraphCalls {
                root: root@,
                symbol: symbol@,
                calls: match calls {
                    Ok(calls) => Ok(calls@),
                    Err(e) => Err(e@),
                },
            },
            Completed::ApplyPatch { target, search, outcome } => CompletedView::ApplyPatch {
                target: target@,
                search: search@,
                outcome: match outcome {
                    Ok(report) => Ok((report.replacements, report.report@)),
                    Err(e) => Err(e@),
                },
            },
        }
    }
}

/// Texts as a JSON array.
pub open spec fn texts_json(texts: Seq<Seq<char>>) -> json::JsonView {
    json::JsonView::Array(texts.map_values(|s: Seq<char>| json::JsonView::Text(s)))
}

/// The answer of a warmup.
pub open spec fn warmed(
    project_root: Seq<char>,
    changed: Seq<Seq<char>>,
    duration_ms: u64,
) -> json::JsonView {
    json::JsonView::object().with("status"@, json::JsonView::Text("ready"@)).with(
        "adapter"@,
        json::JsonView::Text("alsp_adapter"@),
    ).with("message"@, json::JsonView::Text("internal warmup completed"@)).with(
        "project_root"@,
        json::JsonView::Text(project_root),
    ).with("changed_files"@, texts_json(changed)).with(
        "reindexed_files"@,
        json::JsonView::Number(changed.len() as u64),
    ).with("duration_ms"@, json::JsonView::Number(duration_ms))
}

/// The answer of a fuzzy lookup.
pub open spec fn fuzzy_found(
    symbol: Seq<char>,
    limit: usize,
    items: Seq<symbols::MatchView>,
) -> json::JsonView {
    json::JsonView::object().with("symbol"@, json::JsonView::Text(symbol)).with(
        "limit"@,
        json::JsonView::Number(limit as u64),
    ).with(
        "items"@,
        json::JsonView::Array(items.map_values(|m: symbols::MatchView| m.json())),
    )
}

/// The error of an action that failed inside.
pub open spec fn action_failed(action: Seq<char>, reason: Seq<char>) -> envelope::ErrorView {
    envelope::internal_error(action + " failed: "@ + reason)
}

/// The error of a graph query that the language server failed.
pub open spec fn server_error(
    code: Seq<char>,
    message: Seq<char>,
    root: Seq<char>,
    symbol: Seq<char>,
) -> envelope::ErrorView {
    envelope::ErrorView {
        code,
        message,
        retryable: true,
        node: "Analyze"@,
        details: json::JsonView::object().with(
            "language"@,
            json::JsonView::Text("typescript"@),
        ).with("symbol"@, json::JsonView::Text(symbol)).with(
            "project_root"@,
            json::JsonView::Text(root),
        ),
    }
}

/// The error of a graph query that failed for `reason`: the server cannot be had, it did not
/// answer, or something else.
pub open spec fn graph_error(
    root: Seq<char>,
    symbol: Seq<char>,
    reason: Seq<char>,
) -> envelope::ErrorView {
    if text::occurs_in(reason, "LSP_UNAVAILABLE"@) {
        server_error(
            "ALSP_LSP_UNAVAILABLE"@,
            "typescript language server unavailable"@,
            root,
            symbol,
        )
    } else if text::occurs_in(reason, "LSP_TIMEOUT"@) {
        server_error("ALSP_LSP_TIMEOUT"@, "typescript language server timeout"@, root, symbol)
    } else {
        action_failed("graph.calls"@, reason)
    }
}

/// The state after the work for a request is done, and what the request comes to.
pub open spec fn complete(
    state: StateView,
    req: envelope::RequestView,
    done: CompletedView,
) -> (StateView, RouteStepView) {
    match done {
        CompletedView::Snapshot { project_root, snapshot, duration_ms } => match snapshot {
            Ok(current) => {
                let changed = warmup::changed_paths(
                    warmup::snapshot_at(state.snapshots, project_root),
                    current,
                );
                (
                    StateView {
                        warmed_up: true,
                        snapshots: state.snapshots.insert(project_root, current),
                        ..state
                    },
                    ok(req, warmed(project_root, changed, duration_ms)),
                )
            },
            Err(reason) => (
                StateView { warmed_up: true, ..state },
                fail(req, action_failed("system.warmup"@, reason)),
            ),
        },
        CompletedView::MapRepo { map } => (
            state,
            match map {
                Ok(map) => ok(req, map.json()),
                Err(reason) => fail(req, action_failed("repo.map"@, reason)),
            },
        ),
        CompletedView::Lookup { symbol, found } => (
            state,
            match found {
                Ok(Some(found)) => ok(req, found.json()),
                Ok(None) => fail(req, symbol_not_found(symbol)),
                Err(reason) => fail(req, action_failed("symbol.lookup"@, reason)),
            },
        ),
        CompletedView::LookupFuzzy { symbol, limit, matches } => (
            state,
            match matches {
                Ok(items) => if items.len() > 0 {
                    ok(req, fuzzy_found(symbol, limit, items))
                } else {
                    fail(req, symbol_not_found(symbol))
                },
                Err(reason) => fail(req, action_failed("symbol.lookup.fuzzy"@, reason)),
            },
        ),
        CompletedView::ProbeLanguage { root, symbol, depth, has_ts_files } => (
            state,
            graph_in(
                req,
                root,
                symbol,
                depth,
                envelope::graph_language(req.payload, has_ts_files),
            ),
        ),
        CompletedView::GraphCalls { root, symbol, calls } => (
            state,
            match calls {
                Ok(calls) => ok(req, calls.json()),
                Err(reason) => fail(req, graph_error(root, symbol, reason)),
            },
        ),
        CompletedView::ApplyPatch { target, search, outcome } => (
            state,
            match outcome {
                Ok((replacements, report)) => if replacements == 0 {
                    fail(
                        req,
                        patch_error(
                            "PATCHLET_SEARCH_MISS"@,
                            "search block not found in target file"@,
                            false,
                            target,
                            search,
                        ),
                    )
                } else {
                    ok(req, report)
                },
                Err(reason) => fail(
                    req,
                    patch_error(
                        "PATCHLET_APPLY_FAILED"@,
                        "patch apply failed: "@ + reason,
                        true,
                        target,
                        search,
                    ),
                ),
            },
        ),
    }
}

fn text_items(texts: &Vec<String>) -> (r: Json)
    ensures
        r@ == texts_json(rank::views(texts@)),
{
    let mut items: Vec<Json> = Vec::new();
    let mut i: usize = 0;
    while i < texts.len()
        invariant
            i <= texts@.len(),
            items@.len() == i,
            forall|j: int| 0 <= j < i ==> (#[trigger] items@[j])@ == json::JsonView::Text(
                texts@[j]@,
            ),
        decreases texts@.len() - i,
    {
        items.push(Json::text(texts[i].as_str()));
        i += 1;
    }
    assert(rank::views(items@) =~= rank::views(texts@).map_values(
        |s: Seq<char>| json::JsonView::Text(s),
    ));
    Json::array(items)
}

fn match_items(matches: &Vec<FuzzySymbolMatch>) -> (r: Json)
    ensures
        r@ == json::JsonView::Array(
            rank::views(matches@).map_values(|m: symbols::MatchView| m.json()),
        ),
{
    let mut items: Vec<Json> = Vec::new();
    let mut i: usize = 0;
    while i < matches.len()
        invariant
            i <= matches@.len(),
            items@.len() == i,
            forall|j: int| 0 <= j < i ==> (#[trigger] items@[j])@ == matches@[j]@.json(),
        decreases matches@.len() - i,
    {
        items.push(matches[i].to_json());
        i += 1;
    }
    assert(rank::views(items@) =~= rank::views(matches@).map_values(
        |m: symbols::MatchView| m.json(),
    ));
    Json::array(items)
}

fn not_found_response(req: RequestEnvelope, symbol: &str) -> (r: RouteStep)
    ensures
        r@ == fail(req@, symbol_not_found(symbol@)),
{
    let details = symbol_details_json(symbol);
    RouteStep::Respond(
        envelope::error_response(
            req,
            "ALSP_SYMBOL_NOT_FOUND",
            "symbol not found",
            false,
            "Analyze",
            details,
        ),
    )
}

fn graph_error_response(req: RequestEnvelope, root: &str, symbol: &str, reason: &str) -> (r:
    ResponseEnvelope)
    ensures
        r@ == envelope::failed_with(req@, graph_error(root@, symbol@, reason@)),
{
    let details = Json::object().with("language", Json::text("typescript")).with(
        "symbol",
        Json::text(symbol),
    ).with("project_root", Json::text(root));
    if text::contains(reason, "LSP_UNAVAILABLE") {
        envelope::error_response(
            req,
            "ALSP_LSP_UNAVAILABLE",
            "typescript language server unavailable",
            true,
            "Analyze",
            details,
        )
    } else if text::contains(reason, "LSP_TIMEOUT") {
        envelope::error_response(
            req,
            "ALSP_LSP_TIMEOUT",
            "typescript language server timeout",
            true,
            "Analyze",
            details,
        )
    } else {
        envelope::internal_error_response(req, "graph.calls", reason)
    }
}

fn complete_warmup(
    state: &mut AdapterState,
    req: RequestEnvelope,
    project_root: String,
    current: TextMap<u64>,
    duration_ms: u64,
) -> (r: RouteStep)
    ensures
        (final(state)@, r@) == complete(
            old(state)@,
            req@,
            CompletedView::Snapshot {
                project_root: project_root@,
                snapshot: Ok(current@),
                duration_ms,
            },
        ),
{
    state.warmed_up = true;
    let (changed, count) = state.snapshots.compute_incremental_warmup(
        project_root.as_str(),
        current,
    );
    let data = Json::object().with("status", Json::text("ready")).with(
        "adapter",
        Json::text("alsp_adapter"),
    ).with("message", Json::text("internal warmup completed")).with(
        "project_root",
        Json::text(project_root.as_str()),
    ).with("changed_files", text_items(&changed)).with(
        "reindexed_files",
        Json::Number(count as u64),
    ).with("duration_ms", Json::Number(duration_ms));
    RouteStep::Respond(envelope::ok_response(req, data))
}

/// Takes what the work for a request brought, and says what the request comes to.
pub fn complete_action(state: &mut AdapterState, req: RequestEnvelope, done: Completed) -> (r:
    RouteStep)
    ensures
        (final(state)@, r@) == complete(old(state)@, req@, done@),
{
    match done {
        Completed::Snapshot { project_root, snapshot, duration_ms } => match snapshot {
            Ok(current) => complete_warmup(state, req, project_root, current, duration_ms),
            Err(reason) => {
                state.warmed_up = true;
                RouteStep::Respond(
                    envelope::internal_error_response(req, "system.warmup", reason.as_str()),
                )
            },
        },
        Completed::MapRepo { map } => match map {
            Ok(map) => RouteStep::Respond(envelope::ok_response(req, map.to_json())),
            Err(reason) => RouteStep::Respond(
                envelope::internal_error_response(req, "repo.map", reason.as_str()),
            ),
        },
        Completed::Lookup { symbol, found } => match found {
            Ok(Some(found)) => RouteStep::Respond(envelope::ok_response(req, found.to_json())),
            Ok(None) => not_found_response(req, symbol.as_str()),
            Err(reason) => RouteStep::Respond(
                envelope::internal_error_response(req, "symbol.lookup", reason.as_str()),
            ),
        },
        Completed::LookupFuzzy { symbol, limit, matches } => match matches {
            Ok(items) => {
                if items.len() > 0 {
                    let data = Json::object().with("symbol", Json::text(symbol.as_str())).with(
                        "limit",
                        Json::Number(limit as u64),
                    ).with("items", match_items(&items));
                    RouteStep::Respond(envelope::ok_response(req, data))
                } else {
                    not_found_response(req, symbol.as_str())
                }
            },
            Err(reason) => RouteStep::Respond(
                envelope::internal_error_response(req, "symbol.lookup.fuzzy", reason.as_str()),
            ),
        },
        Completed::ProbeLanguage { root, symbol, depth, has_ts_files } => {
            let language = envelope::detect_graph_language(&req.payload, has_ts_files);
            graph_in_language(req, root, symbol, depth, language)
        },
        Completed::GraphCalls { root, symbol, calls } => match calls {
            Ok(calls) => RouteStep::Respond(envelope::ok_response(req, calls.to_json())),
            Err(reason) => RouteStep::Respond(
                graph_error_response(req, root.as_str(), symbol.as_str(), reason.as_str()),
            ),
        },
        Completed::ApplyPatch { target, search, outcome } => match outcome {
            Ok(report) => {
                if report.replacements == 0 {
                    RouteStep::Respond(
                        patch_error_response(
                            req,
                            "PATCHLET_SEARCH_MISS",
                            "search block not found in target file",
                            false,
                            target.as_str(),
                            search.as_str(),
                        ),
                    )
                } else {
                    RouteStep::Respond(envelope::ok_response(req, report.report))
                }
            },
            Err(reason) => {
                let mut message = "patch apply failed: ".to_string();
                message.append(reason.as_str());
                RouteStep::Respond(
                    patch_error_response(
                        req,
                        "PATCHLET_APPLY_FAILED",
                        message.as_str(),
                        true,
                        target.as_str(),
                        search.as_str(),
                    ),
                )
            },
        },
    }
}

} // verus!
