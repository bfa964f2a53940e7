//! Laws of requests: what each action asks for, and when it is refused.

use crate::envelope;
use crate::json;
use crate::laws::texts;
use crate::laws::values;
use crate::laws::words;
use crate::routing;
use crate::routing::{EffectView, RouteStepView, StateView};
use crate::text;
use vstd::prelude::*;

verus! {

// ---------------------------------------------------------------------------
// Steps
// ---------------------------------------------------------------------------

/// The data that a step answers with.
pub open spec fn data_of(step: RouteStepView) -> Option<json::JsonView> {
    match step {
        RouteStepView::Respond(response) => response.data,
        RouteStepView::Perform(_, _) => None,
    }
}

/// The error that a step answers with.
pub open spec fn error_of(step: RouteStepView) -> Option<envelope::ErrorView> {
    match step {
        RouteStepView::Respond(response) => response.error,
        RouteStepView::Perform(_, _) => None,
    }
}

/// Whether a step answers with an error of the given code, message and node, which may or may not
/// be worth another try.
pub open spec fn fails_with(
    step: RouteStepView,
    code: Seq<char>,
    message: Seq<char>,
    retryable: bool,
    node: Seq<char>,
) -> bool {
    error_of(step) matches Some(e) && e.code == code && e.message == message && e.retryable
        == retryable && e.node == node
}

/// Whether a step answers that a request cannot be understood, with no details.
pub open spec fn is_bad_request(step: RouteStepView, message: Seq<char>) -> bool {
    fails_with(step, "COMMON_BAD_REQUEST"@, message, false, "Adapter"@) && (error_of(
        step,
    )->0).details == json::JsonView::Object(Seq::empty())
}

/// Whether `v` is a request for `action` that names a project.
pub open spec fn shows_request_for(v: Option<json::JsonView>, action: Seq<char>) -> bool {
    v matches Some(example) && {
        &&& values::members_in(example) == 2
        &&& example.text_at("action"@) == Some(action)
        &&& example.get("payload"@) matches Some(payload) && values::members_in(payload) == 1
            && payload.text_at("project_root"@) == Some("<project-root>"@)
    }
}

/// Whether a step refuses a request for `action` until `next` was asked for, and shows how.
pub open spec fn asks_first_for(
    step: RouteStepView,
    message: Seq<char>,
    action: Seq<char>,
    next: Seq<char>,
) -> bool {
    &&& fails_with(step, "COMMON_PRECONDITION_REQUIRED"@, message, false, "Adapter"@)
    &&& values::members_in((error_of(step)->0).details) == 3
    &&& (error_of(step)->0).details.text_at("action"@) == Some(action)
    &&& (error_of(step)->0).details.text_at("next_action"@) == Some(next)
    &&& shows_request_for((error_of(step)->0).details.get("example"@), next)
}

/// Whether a step refuses a request for `action` because it names no project, and shows how to.
pub open spec fn asks_for_root(
    step: RouteStepView,
    message: Seq<char>,
    action: Seq<char>,
) -> bool {
    &&& fails_with(step, "COMMON_BAD_REQUEST"@, message, false, "Adapter"@)
    &&& values::members_in((error_of(step)->0).details) == 2
    &&& (error_of(step)->0).details.get("required"@) matches Some(json::JsonView::Array(items))
        && items.len() == 1 && items[0] == json::JsonView::Text("project_root|path"@)
    &&& shows_request_for((error_of(step)->0).details.get("example"@), action)
}

// ---------------------------------------------------------------------------
// Payloads
// ---------------------------------------------------------------------------

/// A payload names its root by the text under `path`. Without one there it is the text under
/// `project_root`, and without either there is none.
pub proof fn law_root_of_payload(payload: json::JsonView, root: Seq<char>)
    ensures
        payload.get("path"@) == Some(json::JsonView::Text(root)) ==> envelope::root_in(payload)
            == Some(root),
        !(payload.get("path"@) matches Some(json::JsonView::Text(_))) && payload.get(
            "project_root"@,
        ) == Some(json::JsonView::Text(root)) ==> envelope::root_in(payload) == Some(root),
        !(payload.get("path"@) matches Some(json::JsonView::Text(_))) && !(payload.get(
            "project_root"@,
        ) matches Some(json::JsonView::Text(_))) ==> envelope::root_in(payload) is None,
{
}

/// The limit of a payload is the number under `limit`, from one up to the maximum; a higher number
/// gives the maximum. Zero, what is no number from zero up, and nothing give the default, and so
/// does a number that is too large to be a length.
pub proof fn law_limit_of_payload(payload: json::JsonView, default: usize, max: usize)
    ensures
        match payload.get("limit"@) {
            Some(json::JsonView::Number(n)) => {
                &&& n == 0 ==> envelope::limit_in(payload, default, max) == default
                &&& 1 <= n <= usize::MAX && n <= max ==> envelope::limit_in(payload, default, max)
                    == n
                &&& 1 <= n <= usize::MAX && n > max ==> envelope::limit_in(payload, default, max)
                    == max
                &&& n > usize::MAX ==> envelope::limit_in(payload, default, max) == default
            },
            _ => envelope::limit_in(payload, default, max) == default,
        },
{
}

/// The depth of a payload is the number under `depth`, whatever it is. What is no number from zero
/// up, and nothing, gives one, and so does a number that is too large to be a length.
pub proof fn law_depth_of_payload(payload: json::JsonView)
    ensures
        match payload.get("depth"@) {
            Some(json::JsonView::Number(n)) => envelope::depth_in(payload) == (if n
                <= usize::MAX {
                n as int
            } else {
                1
            }),
            _ => envelope::depth_in(payload) == 1,
        },
{
}

/// The language of a payload is the text under `language`, with its capitals brought down and
/// without the white space around it. White space, what is no text, and nothing name no language:
/// then it is TypeScript where the workspace has sources of it, and Java otherwise.
pub proof fn law_language_of_payload(
    payload: json::JsonView,
    front: Seq<char>,
    name: Seq<char>,
    back: Seq<char>,
    has_ts_files: bool,
)
    requires
        texts::all_space(front),
        texts::all_space(back),
        name.len() > 0 ==> !text::is_space(name[0]) && !text::is_space(name.last()),
    ensures
        payload.get("language"@) == Some(json::JsonView::Text(front + name + back)) ==> if
            name.len() > 0 {
            &&& envelope::language_in(payload) == Some(text::ascii_lowered(name))
            &&& envelope::graph_language(payload, has_ts_files) == text::ascii_lowered(name)
        } else {
            &&& envelope::language_in(payload) is None
            &&& envelope::graph_language(payload, true) == "typescript"@
            &&& envelope::graph_language(payload, false) == "java"@
        },
        !(payload.get("language"@) matches Some(json::JsonView::Text(_))) ==> {
            &&& envelope::language_in(payload) is None
            &&& envelope::graph_language(payload, true) == "typescript"@
            &&& envelope::graph_language(payload, false) == "java"@
        },
{
    texts::law_trimming(front, name, back);
}

/// The project of a request is kept under its session, without the white space around it. It is
/// kept under its trace where the session is white space or none.
pub proof fn law_context_of_request(
    req: envelope::RequestView,
    front: Seq<char>,
    session: Seq<char>,
    back: Seq<char>,
)
    requires
        texts::all_space(front),
        texts::all_space(back),
        session.len() > 0 ==> !text::is_space(session[0]) && !text::is_space(session.last()),
    ensures
        req.session_id == Some(front + session + back) ==> envelope::context_key(req) == (
        if session.len() > 0 {
            session
        } else {
            req.trace_id
        }),
        req.session_id is None ==> envelope::context_key(req) == req.trace_id,
{
    texts::law_trimming(front, session, back);
}

/// A request is about the project that its payload names. Without one it is about the project that
/// is kept for its context, and without that about none.
pub proof fn law_project_of_request(state: StateView, req: envelope::RequestView)
    ensures
        ({
            let key = envelope::context_key(req);
            match envelope::root_in(req.payload) {
                Some(root) => routing::project_of(state, req) == Some(root),
                None => {
                    &&& state.projects.contains_key(key) ==> routing::project_of(state, req)
                        == Some(state.projects[key])
                    &&& !state.projects.contains_key(key) ==> routing::project_of(state, req)
                        is None
                },
            }
        }),
{
}

// ---------------------------------------------------------------------------
// Versions and actions
// ---------------------------------------------------------------------------

/// A request in the version that is spoken is routed by its action. Any other is refused, whatever
/// it asks for: the refusal tells both versions, and nothing changes.
pub proof fn law_one_version_is_spoken(state: StateView, req: envelope::RequestView)
    ensures
        req.version == "v0"@ ==> routing::handle(state, req) == routing::route(state, req),
        req.version != "v0"@ ==> {
            let (after, step) = routing::handle(state, req);
            &&& after == state
            &&& fails_with(
                step,
                "COMMON_BAD_REQUEST"@,
                "unsupported version: "@ + req.version,
                false,
                "Adapter"@,
            )
            &&& values::members_in((error_of(step)->0).details) == 1
            &&& (error_of(step)->0).details.text_at("supported_version"@) == Some("v0"@)
        },
{
    broadcast use values::law_object_with_member;

    words::lemma_keys();
}

/// Whether `action` is one of those that are served.
pub open spec fn is_served(action: Seq<char>) -> bool {
    ||| action == "system.health"@
    ||| action == "project.activate"@
    ||| action == "system.warmup"@
    ||| action == "repo.map"@
    ||| action == "symbol.lookup"@
    ||| action == "symbol.lookup.static"@
    ||| action == "symbol.resolve"@
    ||| action == "symbol.lookup.fuzzy"@
    ||| action == "graph.calls"@
    ||| action == "patch.apply"@
}

/// A request for an action that is not served is refused, and nothing changes.
pub proof fn law_other_actions_are_refused(state: StateView, req: envelope::RequestView)
    requires
        !is_served(req.action),
    ensures
        ({
            let (after, step) = routing::route(state, req);
            &&& after == state
            &&& fails_with(
                step,
                "ADAPTER_ROUTE_FAILED"@,
                "unsupported action"@,
                true,
                "Adapter"@,
            )
            &&& (error_of(step)->0).details == json::JsonView::Object(Seq::empty())
        }),
{
}

// ---------------------------------------------------------------------------
// Projects
// ---------------------------------------------------------------------------

/// A request to activate a project that it names makes that the project of its context, and changes
/// nothing else. The answer tells the project and the context. A request that names none is
/// refused.
pub proof fn law_activation(state: StateView, req: envelope::RequestView)
    requires
        req.action == "project.activate"@,
    ensures
        ({
            let (after, step) = routing::route(state, req);
            match envelope::root_in(req.payload) {
                Some(root) => {
                    &&& after.warmed_up == state.warmed_up
                    &&& after.snapshots == state.snapshots
                    &&& after.projects == state.projects.insert(envelope::context_key(req), root)
                    &&& data_of(step) matches Some(data) && {
                        &&& values::members_in(data) == 3
                        &&& data.text_at("status"@) == Some("ok"@)
                        &&& data.text_at("active_project"@) == Some(root)
                        &&& data.text_at("context_key"@) == Some(envelope::context_key(req))
                    }
                },
                None => {
                    &&& after == state
                    &&& asks_for_root(
                        step,
                        "project.activate requires explicit project_root/path"@,
                        "project.activate"@,
                    )
                },
            }
        }),
{
    broadcast use values::law_object_with_member;

    words::lemma_keys();
    words::lemma_actions();
}

/// A request for a warmup of a project that it names makes that the project of its context, and
/// takes a snapshot of it. A request that names none is refused.
pub proof fn law_warmup_request(state: StateView, req: envelope::RequestView)
    requires
        req.action == "system.warmup"@,
    ensures
        ({
            let (after, step) = routing::route(state, req);
            match envelope::root_in(req.payload) {
                Some(root) => {
                    &&& after.warmed_up == state.warmed_up
                    &&& after.snapshots == state.snapshots
                    &&& after.projects == state.projects.insert(envelope::context_key(req), root)
                    &&& step == RouteStepView::Perform(
                        req,
                        EffectView::Snapshot { project_root: root },
                    )
                },
                None => {
                    &&& after == state
                    &&& asks_for_root(
                        step,
                        "system.warmup requires explicit project_root/path"@,
                        "system.warmup"@,
                    )
                },
            }
        }),
{
    broadcast use values::law_object_with_member;

    words::lemma_keys();
    words::lemma_actions();
}

/// A request for a map maps the repository that it names, or else the current directory. No warmup
/// has to come first, and nothing changes.
pub proof fn law_map_request(state: StateView, req: envelope::RequestView)
    requires
        req.action == "repo.map"@,
    ensures
        routing::route(state, req) == (
            state,
            RouteStepView::Perform(
                req,
                EffectView::MapRepo {
                    root: match envelope::root_in(req.payload) {
                        Some(root) => root,
                        None => "."@,
                    },
                },
            ),
        ),
{
    words::lemma_actions();
}

// ---------------------------------------------------------------------------
// Queries
// ---------------------------------------------------------------------------

/// Whether `action` looks up one symbol.
pub open spec fn looks_up_one(action: Seq<char>) -> bool {
    action == "symbol.lookup"@ || action == "symbol.lookup.static"@ || action == "symbol.resolve"@
}

/// Whether `action` asks about a symbol.
pub open spec fn asks_about_symbol(action: Seq<char>) -> bool {
    looks_up_one(action) || action == "symbol.lookup.fuzzy"@ || action == "graph.calls"@
}

/// A request about a symbol is refused before the warmup; after it, where there is no project; and
/// then where its payload has no text under `symbol`. Each refusal says what is missing. Nothing
/// changes.
pub proof fn law_query_is_refused(state: StateView, req: envelope::RequestView)
    requires
        asks_about_symbol(req.action),
    ensures
        routing::route(state, req).0 == state,
        !state.warmed_up ==> asks_first_for(
            routing::route(state, req).1,
            "method requires warmup before use"@,
            req.action,
            "system.warmup"@,
        ),
        state.warmed_up && routing::project_of(state, req) is None ==> asks_first_for(
            routing::route(state, req).1,
            "method requires active project context"@,
            req.action,
            "project.activate"@,
        ),
        state.warmed_up && routing::project_of(state, req) is Some && !(req.payload.get(
            "symbol"@,
        ) matches Some(json::JsonView::Text(_))) ==> is_bad_request(
            routing::route(state, req).1,
            "missing payload.symbol"@,
        ),
{
    broadcast use values::law_object_with_member;

    words::lemma_keys();
    words::lemma_actions();
}

/// Whether a request is about `symbol` in the project at `root`, and the adapter is warmed up.
pub open spec fn is_granted(
    state: StateView,
    req: envelope::RequestView,
    root: Seq<char>,
    symbol: Seq<char>,
) -> bool {
    &&& state.warmed_up
    &&& routing::project_of(state, req) == Some(root)
    &&& req.payload.get("symbol"@) == Some(json::JsonView::Text(symbol))
}

/// A granted lookup looks the symbol up in the project. Only `symbol.lookup` can be told to time
/// out, by the flag `force_lsp_timeout`; it then answers with the timeout, and names the symbol.
pub proof fn law_lookup_request(
    state: StateView,
    req: envelope::RequestView,
    root: Seq<char>,
    symbol: Seq<char>,
)
    requires
        looks_up_one(req.action),
        is_granted(state, req, root, symbol),
    ensures
        ({
            let (after, step) = routing::route(state, req);
            let forced = req.payload.get("force_lsp_timeout"@) == Some(json::JsonView::Bool(true));
            &&& after == state
            &&& if req.action == "symbol.lookup"@ && forced {
                &&& fails_with(
                    step,
                    "ALSP_LSP_TIMEOUT"@,
                    "simulated lsp timeout"@,
                    true,
                    "Analyze"@,
                )
                &&& values::members_in((error_of(step)->0).details) == 1
                &&& (error_of(step)->0).details.text_at("symbol"@) == Some(symbol)
            } else {
                step == RouteStepView::Perform(req, EffectView::Lookup { root, symbol })
            }
        }),
{
    broadcast use values::law_object_with_member;

    words::lemma_keys();
    words::lemma_actions();
}

/// A granted fuzzy lookup looks for the symbol in the project, and asks for as many matches as the
/// payload says: ten where it does not say, and never more than fifty.
pub proof fn law_fuzzy_request(
    state: StateView,
    req: envelope::RequestView,
    root: Seq<char>,
    symbol: Seq<char>,
)
    requires
        req.action == "symbol.lookup.fuzzy"@,
        is_granted(state, req, root, symbol),
    ensures
        routing::route(state, req).0 == state,
        routing::route(state, req).1 matches RouteStepView::Perform(
            same,
            EffectView::LookupFuzzy { root: place, symbol: name, limit },
        ) && same == req && place == root && name == symbol && match req.payload.get("limit"@) {
            Some(json::JsonView::Number(n)) => {
                &&& 1 <= n <= 50 ==> limit == n
                &&& 50 < n <= usize::MAX ==> limit == 50
                &&& n == 0 || n > usize::MAX ==> limit == 10
            },
            _ => limit == 10,
        },
{
    words::lemma_actions();
}

/// Whether a step answers that there is no provider of calls for a language: the symbol, the depth
/// and the language, and no calls, not truncated.
pub open spec fn has_no_provider(
    step: RouteStepView,
    symbol: Seq<char>,
    depth: usize,
    language: Seq<char>,
) -> bool {
    data_of(step) matches Some(data) && {
        &&& values::members_in(data) == 6
        &&& data.text_at("symbol"@) == Some(symbol)
        &&& data.number_at("depth"@) == Some(depth as u64)
        &&& data.get("calls"@) == Some(json::JsonView::Array(Seq::empty()))
        &&& data.text_at("provider"@) == Some("alsp.graph.calls.v0"@)
        &&& data.text_at("language"@) == Some(language)
        &&& data.get("truncated"@) == Some(json::JsonView::Bool(false))
    }
}

/// A granted graph query asks the TypeScript provider where the payload names that language, and is
/// answered without calls where it names another. Where it names none, the workspace is looked at
/// first. The depth is the one of the payload.
pub proof fn law_graph_request(
    state: StateView,
    req: envelope::RequestView,
    root: Seq<char>,
    symbol: Seq<char>,
)
    requires
        req.action == "graph.calls"@,
        is_granted(state, req, root, symbol),
    ensures
        ({
            let (after, step) = routing::route(state, req);
            let depth = envelope::depth_in(req.payload);
            &&& after == state
            &&& match envelope::language_in(req.payload) {
                None => step == RouteStepView::Perform(
                    req,
                    EffectView::ProbeLanguage { root, symbol, depth },
                ),
                Some(language) => if language == "typescript"@ {
                    step == RouteStepView::Perform(
                        req,
                        EffectView::GraphCalls { root, symbol, depth },
                    )
                } else {
                    has_no_provider(step, symbol, depth, language)
                },
            }
        }),
{
    broadcast use values::law_object_with_member;

    words::lemma_keys();
    words::lemma_actions();
}

// ---------------------------------------------------------------------------
// Patches
// ---------------------------------------------------------------------------

/// Whether the payload of a patch has `block` as its first block.
pub open spec fn has_first_block(payload: json::JsonView, block: json::JsonView) -> bool {
    payload.get("search_replace_blocks"@) matches Some(json::JsonView::Array(items)) && items.len()
        > 0 && items[0] == block
}

/// A patch with a target, and a first block with something to search for, replaces in the target
/// what the block has under `search` by what it has under `replace`, or by nothing where it has no
/// text there. Nothing has to come first, and nothing changes. A patch that is told to conflict, by
/// the flag `force_patch_conflict`, answers with the conflict, the target and the search text.
pub proof fn law_patch_request(
    state: StateView,
    req: envelope::RequestView,
    target: Seq<char>,
    block: json::JsonView,
    search: Seq<char>,
)
    requires
        req.action == "patch.apply"@,
        req.payload.get("target"@) == Some(json::JsonView::Text(target)),
        has_first_block(req.payload, block),
        block.get("search"@) == Some(json::JsonView::Text(search)),
        search.len() > 0,
    ensures
        ({
            let (after, step) = routing::route(state, req);
            &&& after == state
            &&& if req.payload.get("force_patch_conflict"@) == Some(json::JsonView::Bool(true)) {
                &&& fails_with(
                    step,
                    "PATCHLET_CONFLICT"@,
                    "simulated patch conflict"@,
                    false,
                    "Execute"@,
                )
                &&& values::members_in((error_of(step)->0).details) == 2
                &&& (error_of(step)->0).details.text_at("file"@) == Some(target)
                &&& (error_of(step)->0).details.text_at("search_excerpt"@) == Some(search)
            } else {
                step matches RouteStepView::Perform(
                    same,
                    EffectView::ApplyPatch { target: file, search: from, replace: to },
                ) && same == req && file == target && from == search && match block.get(
                    "replace"@,
                ) {
                    Some(json::JsonView::Text(replace)) => to == replace,
                    _ => to.len() == 0,
                }
            }
        }),
{
    broadcast use values::law_object_with_member;

    words::lemma_keys();
    words::lemma_actions();
}

/// A patch without a text under `target` is refused; then one without a first block; then one whose
/// block has nothing under `search` to look for.
pub proof fn law_patch_is_refused(state: StateView, req: envelope::RequestView)
    requires
        req.action == "patch.apply"@,
    ensures
        ({
            let (after, step) = routing::route(state, req);
            let has_target = req.payload.get("target"@) matches Some(json::JsonView::Text(_));
            let has_block = req.payload.get("search_replace_blocks"@) matches Some(
                json::JsonView::Array(items),
            ) && items.len() > 0;
            &&& after == state
            &&& !has_target ==> is_bad_request(step, "missing payload.target"@)
            &&& has_target && !has_block ==> is_bad_request(
                step,
                "missing payload.search_replace_blocks[0]"@,
            )
            &&& has_target ==> forall|block: json::JsonView|
                #[trigger] has_first_block(req.payload, block) && (match block.get("search"@) {
                    Some(json::JsonView::Text(search)) => search.len() == 0,
                    _ => true,
                }) ==> is_bad_request(step, "empty search pattern"@)
        }),
{
    words::lemma_actions();
}

} // verus!
