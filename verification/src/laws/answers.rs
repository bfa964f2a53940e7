//! Laws of answers: what responses say, read as their receiver reads them.

use crate::catalog;
use crate::envelope;
use crate::graph;
use crate::http;
use crate::json;
use crate::laws::protocol;
use crate::laws::requests;
use crate::laws::texts;
use crate::laws::values;
use crate::laws::words;
use crate::routing;
use crate::routing::{CompletedView, EffectView, RouteStepView, StateView};
use crate::symbols;
use crate::text;
use crate::warmup;
use vstd::prelude::*;

verus! {

// ---------------------------------------------------------------------------
// Envelopes
// ---------------------------------------------------------------------------

/// Whether a response to the request with the given numbers is one that carries data: with the
/// version that is spoken, the numbers, the status `ok`, and a cost of one millisecond.
pub open spec fn carries(
    response: envelope::ResponseView,
    request_id: Seq<char>,
    trace_id: Seq<char>,
    data: json::JsonView,
) -> bool {
    &&& response.version == "v0"@
    &&& response.request_id == request_id
    &&& response.trace_id == trace_id
    &&& response.status == "ok"@
    &&& response.data == Some(data)
    &&& response.error is None
    &&& !response.fallback_used
    &&& values::members_in(response.cost) == 1
    &&& response.cost.number_at("duration_ms"@) == Some(1u64)
}

/// Whether a response to the request with the given numbers is one that reports an error: with the
/// version that is spoken, the numbers, the status `error`, and no cost.
pub open spec fn reports(
    response: envelope::ResponseView,
    request_id: Seq<char>,
    trace_id: Seq<char>,
    error: envelope::ErrorView,
) -> bool {
    &&& response.version == "v0"@
    &&& response.request_id == request_id
    &&& response.trace_id == trace_id
    &&& response.status == "error"@
    &&& response.data is None
    &&& response.error == Some(error)
    &&& !response.fallback_used
    &&& values::members_in(response.cost) == 1
    &&& response.cost.number_at("duration_ms"@) == Some(0u64)
}

/// A response to a request carries the numbers of the request, and the data or the error that it
/// was made for. One to a line that is no request has no numbers, and says why it is none.
pub proof fn law_responses_carry_what_they_are_made_for(
    req: envelope::RequestView,
    data: json::JsonView,
    error: envelope::ErrorView,
    reason: Seq<char>,
)
    ensures
        carries(envelope::ok_with(req, data), req.request_id, req.trace_id, data),
        reports(envelope::failed_with(req, error), req.request_id, req.trace_id, error),
        ({
            let response = envelope::not_a_request(reason);
            &&& response.error matches Some(e) && reports(response, "unknown"@, "unknown"@, e)
                && e.code == "COMMON_BAD_REQUEST"@ && e.message == "invalid json request: "@
                + reason && !e.retryable && e.node == "Adapter"@ && e.details
                == json::JsonView::Object(Seq::empty())
        }),
{
    broadcast use values::law_object_with_member;

    words::lemma_keys();
}

/// Whether a step that answers does so with data or with an error, in a response of its own
/// request.
pub open spec fn is_sealed(step: RouteStepView, req: envelope::RequestView) -> bool {
    step matches RouteStepView::Respond(response) ==> match response.data {
        Some(data) => carries(response, req.request_id, req.trace_id, data),
        None => response.error matches Some(error) && reports(
            response,
            req.request_id,
            req.trace_id,
            error,
        ),
    }
}

/// Every answer is a response of its own request, with data or with an error.
pub proof fn law_answers_are_sealed(
    state: StateView,
    req: envelope::RequestView,
    done: CompletedView,
)
    ensures
        is_sealed(routing::handle(state, req).1, req),
        is_sealed(routing::route(state, req).1, req),
        is_sealed(routing::complete(state, req, done).1, req),
{
    broadcast use values::law_object_with_member;

    words::lemma_keys();
}

/// The errors that requests are refused with: what cannot be understood, what failed inside, what
/// came before a warmup or without a project, and what names no project.
pub proof fn law_refusals_say_what_is_missing(
    req: envelope::RequestView,
    message: Seq<char>,
    action: Seq<char>,
)
    ensures
        requests::is_bad_request(
            routing::fail(req, envelope::bad_request(message)),
            message,
        ),
        requests::fails_with(
            routing::fail(req, envelope::internal_error(message)),
            "COMMON_INTERNAL"@,
            message,
            true,
            "Adapter"@,
        ),
        envelope::internal_error(message).details == json::JsonView::Object(Seq::empty()),
        requests::asks_first_for(
            routing::fail(req, envelope::warmup_required(action)),
            "method requires warmup before use"@,
            action,
            "system.warmup"@,
        ),
        requests::asks_first_for(
            routing::fail(req, envelope::project_required(action)),
            "method requires active project context"@,
            action,
            "project.activate"@,
        ),
        requests::asks_for_root(
            routing::fail(req, envelope::root_required(message, action)),
            message,
            action,
        ),
{
    broadcast use values::law_object_with_member;

    words::lemma_keys();
}

// ---------------------------------------------------------------------------
// Warmups
// ---------------------------------------------------------------------------

/// Whether `v` is an array of the texts of `all`, in their order.
pub open spec fn tells_texts(v: Option<json::JsonView>, all: Seq<Seq<char>>) -> bool {
    v matches Some(json::JsonView::Array(items)) && items.len() == all.len() && forall|i: int|
        0 <= i < all.len() ==> #[trigger] items[i] == json::JsonView::Text(all[i])
}

/// The snapshot that was taken of a project before, if one was.
pub open spec fn taken_before(state: StateView, root: Seq<char>) -> Option<
    Map<Seq<char>, u64>,
> {
    if state.snapshots.contains_key(root) {
        Some(state.snapshots[root])
    } else {
        None
    }
}

/// A warmup whose snapshot was taken warms the adapter up, and keeps the snapshot for the project.
/// It is answered with the project, the paths that changed since the snapshot before, their number,
/// and the time that it took.
pub proof fn law_warmup_answer(
    state: StateView,
    req: envelope::RequestView,
    project_root: Seq<char>,
    current: Map<Seq<char>, u64>,
    duration_ms: u64,
)
    ensures
        ({
            let done = CompletedView::Snapshot { project_root, snapshot: Ok(current), duration_ms };
            let (after, step) = routing::complete(state, req, done);
            let changed = warmup::changed_paths(taken_before(state, project_root), current);
            &&& after.warmed_up
            &&& after.projects == state.projects
            &&& after.snapshots == state.snapshots.insert(project_root, current)
            &&& requests::data_of(step) matches Some(data) && {
                &&& values::members_in(data) == 7
                &&& data.text_at("status"@) == Some("ready"@)
                &&& data.text_at("adapter"@) == Some("alsp_adapter"@)
                &&& data.text_at("message"@) == Some("internal warmup completed"@)
                &&& data.text_at("project_root"@) == Some(project_root)
                &&& tells_texts(data.get("changed_files"@), changed)
                &&& data.number_at("reindexed_files"@) == Some(changed.len() as u64)
                &&& data.number_at("duration_ms"@) == Some(duration_ms)
            }
        }),
{
    broadcast use values::law_object_with_member;

    words::lemma_keys();
}

/// Whether a step answers that `action` failed inside, and why.
pub open spec fn failed_inside(
    step: RouteStepView,
    action: Seq<char>,
    reason: Seq<char>,
) -> bool {
    requests::fails_with(
        step,
        "COMMON_INTERNAL"@,
        action + " failed: "@ + reason,
        true,
        "Adapter"@,
    ) && (requests::error_of(step)->0).details == json::JsonView::Object(Seq::empty())
}

/// A warmup whose snapshot could not be taken warms the adapter up all the same, and keeps nothing.
/// Work that failed is answered with the action and the reason, and otherwise changes nothing.
pub proof fn law_failed_work_answer(
    state: StateView,
    req: envelope::RequestView,
    project_root: Seq<char>,
    duration_ms: u64,
    symbol: Seq<char>,
    limit: usize,
    reason: Seq<char>,
)
    ensures
        ({
            let (after, step) = routing::complete(
                state,
                req,
                CompletedView::Snapshot { project_root, snapshot: Err(reason), duration_ms },
            );
            &&& after.warmed_up
            &&& after.projects == state.projects
            &&& after.snapshots == state.snapshots
            &&& failed_inside(step, "system.warmup"@, reason)
        }),
        ({
            let (after, step) = routing::complete(
                state,
                req,
                CompletedView::MapRepo { map: Err(reason) },
            );
            after == state && failed_inside(step, "repo.map"@, reason)
        }),
        ({
            let (after, step) = routing::complete(
                state,
                req,
                CompletedView::Lookup { symbol, found: Err(reason) },
            );
            after == state && failed_inside(step, "symbol.lookup"@, reason)
        }),
        ({
            let (after, step) = routing::complete(
                state,
                req,
                CompletedView::LookupFuzzy { symbol, limit, matches: Err(reason) },
            );
            after == state && failed_inside(step, "symbol.lookup.fuzzy"@, reason)
        }),
{
}

// ---------------------------------------------------------------------------
// Maps and lookups
// ---------------------------------------------------------------------------

/// A map is answered whole: its root, its language, and each file in the order of the map, with
/// each of its classes and methods.
pub proof fn law_map_answer(
    state: StateView,
    req: envelope::RequestView,
    map: symbols::RepoView,
)
    ensures
        ({
            let (after, step) = routing::complete(
                state,
                req,
                CompletedView::MapRepo { map: Ok(map) },
            );
            &&& after == state
            &&& requests::data_of(step) matches Some(data) && values::tells_repo(data, map)
        }),
{
    values::law_repo_map_is_told_whole(map);
}

/// Whether a step answers that `symbol` was not found.
pub open spec fn is_not_found(step: RouteStepView, symbol: Seq<char>) -> bool {
    &&& requests::fails_with(
        step,
        "ALSP_SYMBOL_NOT_FOUND"@,
        "symbol not found"@,
        false,
        "Analyze"@,
    )
    &&& values::members_in((requests::error_of(step)->0).details) == 1
    &&& (requests::error_of(step)->0).details.text_at("symbol"@) == Some(symbol)
}

/// A lookup that found a location is answered with it: the symbol under `symbol`, the file under
/// `file`, the line under `line`, the signature under `signature` and the kind under `kind`. One
/// that found nothing is answered so, with the symbol.
pub proof fn law_lookup_answer(
    state: StateView,
    req: envelope::RequestView,
    symbol: Seq<char>,
    found: Option<symbols::LocationView>,
)
    ensures
        ({
            let (after, step) = routing::complete(
                state,
                req,
                CompletedView::Lookup { symbol, found: Ok(found) },
            );
            &&& after == state
            &&& match found {
                Some(loc) => requests::data_of(step) matches Some(data) && {
                    &&& values::members_in(data) == 5
                    &&& data.text_at("symbol"@) == Some(loc.symbol)
                    &&& data.text_at("file"@) == Some(loc.file)
                    &&& data.number_at("line"@) == Some(loc.line as u64)
                    &&& data.text_at("signature"@) == Some(loc.signature)
                    &&& data.text_at("kind"@) == Some(loc.kind)
                },
                None => is_not_found(step, symbol),
            }
        }),
{
    broadcast use values::law_object_with_member;

    words::lemma_keys();
    if let Some(loc) = found {
        values::law_location_is_told_whole(loc);
    }
}

/// A fuzzy lookup with matches is answered with the symbol, the limit, and all of the matches in
/// their order: each with its symbol, file, line, signature, kind, score and kind of match. One
/// without matches is answered so, with the symbol.
pub proof fn law_fuzzy_answer(
    state: StateView,
    req: envelope::RequestView,
    symbol: Seq<char>,
    limit: usize,
    matches: Seq<symbols::MatchView>,
)
    ensures
        ({
            let (after, step) = routing::complete(
                state,
                req,
                CompletedView::LookupFuzzy { symbol, limit, matches: Ok(matches) },
            );
            &&& after == state
            &&& if matches.len() > 0 {
                requests::data_of(step) matches Some(data) && {
                    &&& values::members_in(data) == 3
                    &&& data.text_at("symbol"@) == Some(symbol)
                    &&& data.number_at("limit"@) == Some(limit as u64)
                    &&& data.get("items"@) matches Some(json::JsonView::Array(items))
                        && items.len() == matches.len() && forall|i: int|
                        0 <= i < matches.len() ==> {
                            let item = #[trigger] items[i];
                            &&& values::members_in(item) == 7
                            &&& item.text_at("symbol"@) == Some(matches[i].symbol)
                            &&& item.text_at("file"@) == Some(matches[i].file)
                            &&& item.number_at("line"@) == Some(matches[i].line as u64)
                            &&& item.text_at("signature"@) == Some(matches[i].signature)
                            &&& item.text_at("kind"@) == Some(matches[i].kind)
                            &&& values::integer(item.get("score"@)) == Some(
                                matches[i].score as int,
                            )
                            &&& item.text_at("match_type"@) == Some(matches[i].match_type)
                        }
                }
            } else {
                is_not_found(step, symbol)
            }
        }),
{
    broadcast use values::law_object_with_member;

    words::lemma_keys();
    if matches.len() > 0 {
        let items = matches.map_values(|m: symbols::MatchView| m.json());
        assert forall|i: int| 0 <= i < matches.len() implies values::tells_match(
            #[trigger] items[i],
            matches[i],
        ) by {
            values::law_match_is_told_whole(matches[i]);
        }
    }
}

// ---------------------------------------------------------------------------
// Graphs
// ---------------------------------------------------------------------------

/// Once the workspace was looked at, a graph query asks the TypeScript provider where its language
/// is that one, and is answered without calls otherwise.
pub proof fn law_probed_graph_query_goes_on(
    state: StateView,
    req: envelope::RequestView,
    root: Seq<char>,
    symbol: Seq<char>,
    depth: usize,
    has_ts_files: bool,
)
    ensures
        ({
            let (after, step) = routing::complete(
                state,
                req,
                CompletedView::ProbeLanguage { root, symbol, depth, has_ts_files },
            );
            let language = envelope::graph_language(req.payload, has_ts_files);
            &&& after == state
            &&& if language == "typescript"@ {
                step == RouteStepView::Perform(
                    req,
                    EffectView::GraphCalls { root, symbol, depth },
                )
            } else {
                requests::has_no_provider(step, symbol, depth, language)
            }
        }),
{
    broadcast use values::law_object_with_member;

    words::lemma_keys();
}

/// A graph query with calls is answered with all of them in their order, and with the symbol, the
/// depth, the provider, and whether they are truncated.
pub proof fn law_graph_answer(
    state: StateView,
    req: envelope::RequestView,
    root: Seq<char>,
    symbol: Seq<char>,
    calls: graph::CallsView,
)
    ensures
        ({
            let (after, step) = routing::complete(
                state,
                req,
                CompletedView::GraphCalls { root, symbol, calls: Ok(calls) },
            );
            &&& after == state
            &&& requests::data_of(step) matches Some(data) && values::tells_calls(data, calls)
        }),
{
    values::law_calls_are_told_whole(calls);
}

/// Whether a step answers that the language server failed a query for `symbol` in the project at
/// `root`.
pub open spec fn server_failed(
    step: RouteStepView,
    code: Seq<char>,
    message: Seq<char>,
    root: Seq<char>,
    symbol: Seq<char>,
) -> bool {
    &&& requests::fails_with(step, code, message, true, "Analyze"@)
    &&& values::members_in((requests::error_of(step)->0).details) == 3
    &&& (requests::error_of(step)->0).details.text_at("language"@) == Some("typescript"@)
    &&& (requests::error_of(step)->0).details.text_at("symbol"@) == Some(symbol)
    &&& (requests::error_of(step)->0).details.text_at("project_root"@) == Some(root)
}

/// A graph query that failed says why: the server cannot be had, where the reason has
/// `LSP_UNAVAILABLE` in it; it did not answer in time, where the reason has `LSP_TIMEOUT` in it;
/// and otherwise the reason as it is.
pub proof fn law_failed_graph_answer(
    state: StateView,
    req: envelope::RequestView,
    root: Seq<char>,
    symbol: Seq<char>,
    reason: Seq<char>,
)
    ensures
        ({
            let (after, step) = routing::complete(
                state,
                req,
                CompletedView::GraphCalls { root, symbol, calls: Err(reason) },
            );
            let unavailable = text::occurs_in(reason, "LSP_UNAVAILABLE"@);
            let late = text::occurs_in(reason, "LSP_TIMEOUT"@);
            &&& after == state
            &&& unavailable ==> server_failed(
                step,
                "ALSP_LSP_UNAVAILABLE"@,
                "typescript language server unavailable"@,
                root,
                symbol,
            )
            &&& !unavailable && late ==> server_failed(
                step,
                "ALSP_LSP_TIMEOUT"@,
                "typescript language server timeout"@,
                root,
                symbol,
            )
            &&& !unavailable && !late ==> failed_inside(step, "graph.calls"@, reason)
        }),
{
    broadcast use values::law_object_with_member;

    words::lemma_keys();
}

// ---------------------------------------------------------------------------
// Patches
// ---------------------------------------------------------------------------

/// A patch that replaced something is answered with its report. One that found nothing to replace,
/// and one that failed, are answered with an error that tells the file and what was searched for.
pub proof fn law_patch_answer(
    state: StateView,
    req: envelope::RequestView,
    target: Seq<char>,
    search: Seq<char>,
    replacements: usize,
    report: json::JsonView,
    reason: Seq<char>,
)
    ensures
        ({
            let (after, step) = routing::complete(
                state,
                req,
                CompletedView::ApplyPatch { target, search, outcome: Ok((replacements, report)) },
            );
            &&& after == state
            &&& replacements > 0 ==> requests::data_of(step) == Some(report)
            &&& replacements == 0 ==> {
                &&& requests::fails_with(
                    step,
                    "PATCHLET_SEARCH_MISS"@,
                    "search block not found in target file"@,
                    false,
                    "Execute"@,
                )
                &&& values::members_in((requests::error_of(step)->0).details) == 2
                &&& (requests::error_of(step)->0).details.text_at("file"@) == Some(target)
                &&& (requests::error_of(step)->0).details.text_at("search_excerpt"@) == Some(search)
            }
        }),
        ({
            let (after, step) = routing::complete(
                state,
                req,
                CompletedView::ApplyPatch { target, search, outcome: Err(reason) },
            );
            &&& after == state
            &&& requests::fails_with(
                step,
                "PATCHLET_APPLY_FAILED"@,
                "patch apply failed: "@ + reason,
                true,
                "Execute"@,
            )
            &&& values::members_in((requests::error_of(step)->0).details) == 2
            &&& (requests::error_of(step)->0).details.text_at("file"@) == Some(target)
            &&& (requests::error_of(step)->0).details.text_at("search_excerpt"@) == Some(search)
        }),
{
    broadcast use values::law_object_with_member;

    words::lemma_keys();
}

// ---------------------------------------------------------------------------
// Health
// ---------------------------------------------------------------------------

/// Whether `v` lists the methods of the protocol, in their order.
pub open spec fn tells_methods(v: Option<json::JsonView>) -> bool {
    v matches Some(json::JsonView::Array(items)) && items.len() == catalog::methods().len()
        && forall|i: int|
        0 <= i < items.len() ==> values::tells_method(#[trigger] items[i], catalog::methods()[i])
}

/// Whether `v` counts the methods of the protocol: ten, five of which need a warmup, and five a
/// project.
pub open spec fn counts_methods(v: Option<json::JsonView>) -> bool {
    v matches Some(counts) && {
        &&& values::members_in(counts) == 3
        &&& counts.number_at("total_methods"@) == Some(10u64)
        &&& counts.number_at("requires_warmup_methods"@) == Some(5u64)
        &&& counts.number_at("requires_project_activation_methods"@) == Some(5u64)
    }
}

/// Whether `v` is the project, or null for none.
pub open spec fn tells_project(v: Option<json::JsonView>, project: Option<Seq<char>>) -> bool {
    match project {
        Some(root) => v == Some(json::JsonView::Text(root)),
        None => v == Some(json::JsonView::Null),
    }
}

proof fn lemma_catalog_is_told()
    ensures
        tells_methods(Some(catalog::methods_as_json())),
        counts_methods(Some(catalog::summary())),
{
    broadcast use values::law_object_with_member;

    words::lemma_keys();
    protocol::law_catalog_counts();
    let all = catalog::methods();
    let items = all.map_values(|m: catalog::MethodView| m.json());
    assert forall|i: int| 0 <= i < items.len() implies values::tells_method(
        #[trigger] items[i],
        all[i],
    ) by {
        values::law_method_is_told_whole(all[i]);
    }
}

/// A request for the health is answered in any state, and changes nothing: the service, the
/// version, whether the adapter is warmed up, the project that is kept for the context of the
/// request, and the methods with their number.
pub proof fn law_health_answer(state: StateView, req: envelope::RequestView)
    requires
        req.action == "system.health"@,
    ensures
        ({
            let (after, step) = routing::route(state, req);
            let key = envelope::context_key(req);
            &&& after == state
            &&& requests::data_of(step) matches Some(data) && {
                &&& values::members_in(data) == 7
                &&& data.text_at("status"@) == Some("ok"@)
                &&& data.text_at("service"@) == Some("lesscoder-alsp-adapter"@)
                &&& data.text_at("protocol_version"@) == Some("v0"@)
                &&& data.get("warmed_up"@) == Some(json::JsonView::Bool(state.warmed_up))
                &&& tells_project(
                    data.get("active_project"@),
                    if state.projects.contains_key(key) {
                        Some(state.projects[key])
                    } else {
                        None
                    },
                )
                &&& tells_methods(data.get("methods"@))
                &&& counts_methods(data.get("summary"@))
            }
        }),
{
    broadcast use values::law_object_with_member;

    words::lemma_keys();
    words::lemma_actions();
    lemma_catalog_is_told();
}

/// Each method of the catalog is available. Those of the system and of projects belong to
/// `system`, the map and the lookups to `context`, the patch to `edit`, and the calls to `graph`.
/// Those about a symbol need a warmup and a project, and no others do.
pub proof fn law_methods_of_the_catalog(i: int)
    requires
        0 <= i < catalog::methods().len(),
    ensures
        ({
            let m = catalog::methods()[i];
            let a = m.action;
            &&& m.available
            &&& m.requires_warmup == requests::asks_about_symbol(a)
            &&& m.requires_project_activation == requests::asks_about_symbol(a)
            &&& requests::is_served(a)
            &&& a == "system.health"@ || a == "project.activate"@ || a == "system.warmup"@
                ==> m.category == "system"@
            &&& a == "repo.map"@ || requests::looks_up_one(a) || a == "symbol.lookup.fuzzy"@
                ==> m.category == "context"@
            &&& a == "patch.apply"@ ==> m.category == "edit"@
            &&& a == "graph.calls"@ ==> m.category == "graph"@
            &&& a == "system.health"@ ==> m.description == "service health and capability listing"@
            &&& a == "project.activate"@ ==> m.description
                == "bind active project root to current session/trace context"@
            &&& a == "system.warmup"@ ==> m.description == "preheat runtime and semantic index"@
            &&& a == "repo.map"@ ==> m.description == "repository skeleton map"@
            &&& a == "symbol.lookup"@ ==> m.description == "symbol resolution (LSP preferred)"@
            &&& a == "symbol.lookup.static"@ ==> m.description
                == "symbol resolution from static index"@
            &&& a == "symbol.resolve"@ ==> m.description == "canonical symbol resolve alias"@
            &&& a == "symbol.lookup.fuzzy"@ ==> m.description
                == "fuzzy symbol lookup (prefix/contains ranking)"@
            &&& a == "patch.apply"@ ==> m.description == "apply search/replace patch"@
            &&& a == "graph.calls"@ ==> m.description == "call graph query"@
        }),
{
    words::lemma_actions();
}

// ---------------------------------------------------------------------------
// Inspection
// ---------------------------------------------------------------------------

/// At `/health` the answer tells the service, the version, and whether the adapter is warmed up. At
/// `/methods` it lists and counts the methods, and tells the project. Anywhere else it says that
/// there is nothing, and which places there are. What follows a question mark makes no difference.
pub proof fn law_inspection_answers(
    warmed_up: bool,
    active_project: Option<Seq<char>>,
    place: Seq<char>,
    query: Seq<char>,
)
    requires
        !place.contains('?'),
    ensures
        http::http_answer(warmed_up, active_project, place + seq!['?'] + query)
            == http::http_answer(warmed_up, active_project, place),
        ({
            let (status, body) = http::http_answer(warmed_up, active_project, place);
            &&& place == "/health"@ ==> {
                &&& status == 200
                &&& values::members_in(body) == 4
                &&& body.text_at("status"@) == Some("ok"@)
                &&& body.text_at("service"@) == Some("lesscoder-alsp-adapter"@)
                &&& body.text_at("protocol_version"@) == Some("v0"@)
                &&& body.get("warmed_up"@) == Some(json::JsonView::Bool(warmed_up))
            }
            &&& place == "/methods"@ ==> {
                &&& status == 200
                &&& values::members_in(body) == 5
                &&& body.text_at("status"@) == Some("ok"@)
                &&& tells_methods(body.get("methods"@))
                &&& counts_methods(body.get("summary"@))
                &&& body.get("warmed_up"@) == Some(json::JsonView::Bool(warmed_up))
                &&& tells_project(body.get("active_project"@), active_project)
            }
            &&& place != "/health"@ && place != "/methods"@ ==> {
                &&& status == 404
                &&& values::members_in(body) == 4
                &&& body.text_at("status"@) == Some("error"@)
                &&& body.text_at("error_code"@) == Some("HTTP_NOT_FOUND"@)
                &&& body.text_at("message"@) == Some("endpoint not found"@)
                &&& tells_texts(body.get("available"@), seq!["/health"@, "/methods"@])
            }
        }),
{
    broadcast use values::law_object_with_member;

    words::lemma_keys();
    lemma_catalog_is_told();
    texts::law_before(place, '?', query);
    reveal_strlit("/health");
    reveal_strlit("/methods");
    assert("/health"@.len() == 7 && "/methods"@.len() == 8);
}

proof fn lemma_line_is_cut(line: Seq<char>, rest: Seq<char>)
    requires
        !line.contains('\n'),
    ensures
        text::lines_of(line + "\r\n"@ + rest) == seq![line] + text::lines_of(rest),
{
    reveal_strlit("\r\n");
    texts::law_lines(line, rest);
    assert(line + "\r\n"@ + rest =~= line + seq!['\r'] + seq!['\n'] + rest);
}

/// The first line of a response with the given status.
pub open spec fn status_line(status: u16) -> Seq<char> {
    "HTTP/1.1 "@ + text::decimal(status as nat) + (if status == 200 {
        " OK"@
    } else {
        " Not Found"@
    })
}

/// An HTTP response is a head of four lines, an empty line, and the body. The head tells the status
/// with its reason, that the body is JSON in UTF-8, the length of the body in bytes, and that the
/// connection closes.
pub proof fn law_http_response_has_head_and_body(status: u16, body: Seq<char>)
    ensures
        ({
            let length = "Content-Length: "@ + text::decimal(
                vstd::utf8::encode_utf8(body).len() as usize as nat,
            );
            let head = status_line(status) + "\r\n"@
                + "Content-Type: application/json; charset=utf-8"@ + "\r\n"@ + length + "\r\n"@
                + "Connection: close"@;
            &&& http::http_message(status, body) == head + "\r\n\r\n"@ + body
            &&& text::lines_of(head) == seq![
                status_line(status),
                "Content-Type: application/json; charset=utf-8"@,
                length,
                "Connection: close"@,
            ]
        }),
{
    reveal_strlit("HTTP/1.1 ");
    reveal_strlit(" ");
    reveal_strlit("OK");
    reveal_strlit(" OK");
    reveal_strlit("Not Found");
    reveal_strlit(" Not Found");
    reveal_strlit("\r\nContent-Type: application/json; charset=utf-8\r\nContent-Length: ");
    reveal_strlit("\r\n");
    reveal_strlit("\r\n\r\n");
    reveal_strlit("Content-Type: application/json; charset=utf-8");
    reveal_strlit("Content-Length: ");
    reveal_strlit("\r\nConnection: close\r\n\r\n");
    reveal_strlit("Connection: close");
    let n = vstd::utf8::encode_utf8(body).len() as usize as nat;
    let first = status_line(status);
    let kind = "Content-Type: application/json; charset=utf-8"@;
    let length = "Content-Length: "@ + text::decimal(n);
    let close = "Connection: close"@;
    let head = first + "\r\n"@ + kind + "\r\n"@ + length + "\r\n"@ + close;
    assert("\r\nContent-Type: application/json; charset=utf-8\r\nContent-Length: "@ =~= "\r\n"@
        + kind + "\r\n"@ + "Content-Length: "@);
    assert("\r\nConnection: close\r\n\r\n"@ =~= "\r\n"@ + close + "\r\n\r\n"@);
    assert(" "@ + "OK"@ =~= " OK"@);
    assert(" "@ + "Not Found"@ =~= " Not Found"@);
    assert(http::http_message(status, body) =~= head + "\r\n\r\n"@ + body);
    text::lemma_decimal_reads_back(status as nat);
    text::lemma_decimal_reads_back(n);
    assert(!first.contains('\n')) by {
        assert forall|i: int| 0 <= i < first.len() implies first[i] != '\n' by {
            let d = text::decimal(status as nat);
            if 9 <= i < 9 + d.len() {
                assert(text::is_digit(d[i - 9]));
            }
        }
    }
    assert(!length.contains('\n')) by {
        assert forall|i: int| 0 <= i < length.len() implies length[i] != '\n' by {
            let d = text::decimal(n);
            if 16 <= i {
                assert(text::is_digit(d[i - 16]));
            }
        }
    }
    assert(!kind.contains('\n'));
    assert(!close.contains('\n'));
    assert(head =~= first + "\r\n"@ + (kind + "\r\n"@ + (length + "\r\n"@ + close)));
    lemma_line_is_cut(first, kind + "\r\n"@ + (length + "\r\n"@ + close));
    lemma_line_is_cut(kind, length + "\r\n"@ + close);
    lemma_line_is_cut(length, close);
    texts::law_lines(close, Seq::empty());
    assert(text::lines_of(head) =~= seq![first, kind, length, close]);
}

/// The path of an HTTP request is the second word of its first line, and the root where there is no
/// second word. White space before the first word, and whatever follows the second, makes no
/// difference.
pub proof fn law_requested_path(
    front: Seq<char>,
    first: Seq<char>,
    gap: Seq<char>,
    path: Seq<char>,
    rest: Seq<char>,
)
    requires
        texts::all_space(front),
        texts::no_space(first),
        texts::all_space(gap),
        texts::no_space(path),
        first.len() > 0,
        gap.len() > 0,
        path.len() > 0,
        rest.len() > 0 ==> text::is_space(rest[0]),
    ensures
        http::requested_path(front + first + gap + path + rest) == path,
        http::requested_path(front + first + gap) == "/"@,
        http::requested_path(front + first) == "/"@,
{
    texts::law_second_word(front, first, gap, path, rest);
}

} // verus!
