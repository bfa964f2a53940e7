//! Laws of the local protocol.

use crate::catalog;
use crate::envelope;
use crate::http;
use crate::json;
use crate::laws::snapshots;
use crate::laws::texts;
use crate::rank;
use crate::routing;
use crate::routing::{CompletedView, RouteStepView, StateView};
use crate::symbols;
use crate::text;
use vstd::prelude::*;

verus! {

// ---------------------------------------------------------------------------
// The catalog
// ---------------------------------------------------------------------------

/// Whether the catalog lists `action`.
pub open spec fn is_listed(action: Seq<char>) -> bool {
    exists|i: int| 0 <= i < catalog::methods().len() && (#[trigger] catalog::methods()[i]).action
        == action
}

proof fn lemma_listed(action: Seq<char>)
    ensures
        is_listed(action) <==> {
            ||| action == "system.health"@
            ||| action == "project.activate"@
            ||| action == "system.warmup"@
            ||| action == "repo.map"@
            ||| action == "symbol.lookup"@
            ||| action == "symbol.lookup.static"@
            ||| action == "symbol.resolve"@
            ||| action == "symbol.lookup.fuzzy"@
            ||| action == "patch.apply"@
            ||| action == "graph.calls"@
        },
{
    let m = catalog::methods();
    assert(m.len() == 10);
    assert(m[0].action == "system.health"@);
    assert(m[1].action == "project.activate"@);
    assert(m[2].action == "system.warmup"@);
    assert(m[3].action == "repo.map"@);
    assert(m[4].action == "symbol.lookup"@);
    assert(m[5].action == "symbol.lookup.static"@);
    assert(m[6].action == "symbol.resolve"@);
    assert(m[7].action == "symbol.lookup.fuzzy"@);
    assert(m[8].action == "patch.apply"@);
    assert(m[9].action == "graph.calls"@);
}

/// The actions that are served are those that the catalog lists.
pub proof fn law_catalog_lists_what_is_served(state: StateView, req: envelope::RequestView)
    ensures
        is_listed(req.action) <==> routing::route(state, req).1 != routing::fail(
            req,
            routing::unsupported_action(),
        ),
{
    lemma_listed(req.action);
    reveal_strlit("ADAPTER_ROUTE_FAILED");
    reveal_strlit("COMMON_BAD_REQUEST");
    reveal_strlit("COMMON_PRECONDITION_REQUIRED");
    reveal_strlit("ALSP_LSP_TIMEOUT");
    reveal_strlit("PATCHLET_CONFLICT");
    assert("ADAPTER_ROUTE_FAILED"@.len() == 20);
    assert("COMMON_BAD_REQUEST"@.len() == 18);
    assert("COMMON_PRECONDITION_REQUIRED"@.len() == 28);
    assert("ALSP_LSP_TIMEOUT"@.len() == 16);
    assert("PATCHLET_CONFLICT"@.len() == 17);
}

proof fn lemma_action_names_differ()
    ensures
        !routing::is_guarded("system.health"@),
        !routing::is_guarded("project.activate"@),
        !routing::is_guarded("system.warmup"@),
        !routing::is_guarded("repo.map"@),
        !routing::is_guarded("patch.apply"@),
{
    reveal_strlit("system.health");
    reveal_strlit("project.activate");
    reveal_strlit("system.warmup");
    reveal_strlit("repo.map");
    reveal_strlit("patch.apply");
    reveal_strlit("symbol.lookup");
    reveal_strlit("symbol.lookup.static");
    reveal_strlit("symbol.resolve");
    reveal_strlit("symbol.lookup.fuzzy");
    reveal_strlit("graph.calls");
    assert("symbol.lookup"@[1] == 'y' && "symbol.lookup"@[2] == 'm');
    assert("symbol.lookup.static"@[2] == 'm');
    assert("symbol.resolve"@[2] == 'm');
    assert("symbol.lookup.fuzzy"@[2] == 'm');
    assert("graph.calls"@[2] == 'a');
    assert("system.health"@[2] == 's');
    assert("project.activate"@[2] == 'o');
    assert("system.warmup"@[2] == 's');
    assert("repo.map"@[2] == 'p');
    assert("patch.apply"@[2] == 't');
}

/// The catalog marks exactly the actions that are refused before a warmup and without a project.
pub proof fn law_catalog_marks_the_guarded_actions(i: int)
    requires
        0 <= i < catalog::methods().len(),
    ensures
        catalog::methods()[i].requires_warmup == routing::is_guarded(catalog::methods()[i].action),
        catalog::methods()[i].requires_project_activation == routing::is_guarded(
            catalog::methods()[i].action,
        ),
{
    lemma_action_names_differ();
}

proof fn lemma_count_one_more(
    all: Seq<catalog::MethodView>,
    p: spec_fn(catalog::MethodView) -> bool,
    n: int,
)
    requires
        0 <= n < all.len(),
    ensures
        all.take(n + 1).filter(p).len() == all.take(n).filter(p).len() + (if p(all[n]) {
            1nat
        } else {
            0nat
        }),
{
    assert(all.take(n + 1) =~= all.take(n).push(all[n]));
    rank::lemma_filter_push(all.take(n), all[n], p);
}

/// The summary counts ten methods, five of which need a warmup and a project.
pub proof fn law_catalog_counts()
    ensures
        catalog::methods().len() == 10,
        catalog::warmup_count(catalog::methods()) == 5,
        catalog::activation_count(catalog::methods()) == 5,
{
    let all = catalog::methods();
    let warm = |m: catalog::MethodView| m.requires_warmup;
    let active = |m: catalog::MethodView| m.requires_project_activation;
    reveal(Seq::filter);
    assert(all.take(0) =~= Seq::empty());
    assert(all.take(10) =~= all);
    lemma_count_one_more(all, warm, 0);
    lemma_count_one_more(all, warm, 1);
    lemma_count_one_more(all, warm, 2);
    lemma_count_one_more(all, warm, 3);
    lemma_count_one_more(all, warm, 4);
    lemma_count_one_more(all, warm, 5);
    lemma_count_one_more(all, warm, 6);
    lemma_count_one_more(all, warm, 7);
    lemma_count_one_more(all, warm, 8);
    lemma_count_one_more(all, warm, 9);
    lemma_count_one_more(all, active, 0);
    lemma_count_one_more(all, active, 1);
    lemma_count_one_more(all, active, 2);
    lemma_count_one_more(all, active, 3);
    lemma_count_one_more(all, active, 4);
    lemma_count_one_more(all, active, 5);
    lemma_count_one_more(all, active, 6);
    lemma_count_one_more(all, active, 7);
    lemma_count_one_more(all, active, 8);
    lemma_count_one_more(all, active, 9);
}

// ---------------------------------------------------------------------------
// Refusals
// ---------------------------------------------------------------------------

/// Whether a step refuses a request because something else has to come first.
pub open spec fn asks_for_precondition(step: RouteStepView) -> bool {
    step matches RouteStepView::Respond(response) && response.error matches Some(e) && e.code
        == "COMMON_PRECONDITION_REQUIRED"@
}

/// Before the warmup a guarded action is refused, and the refusal says to warm up. Nothing
/// changes.
pub proof fn law_guarded_action_needs_warmup(state: StateView, req: envelope::RequestView)
    requires
        routing::is_guarded(req.action),
        !state.warmed_up,
    ensures
        routing::route(state, req) == (
            state,
            routing::fail(req, envelope::warmup_required(req.action)),
        ),
        asks_for_precondition(routing::route(state, req).1),
{
    lemma_action_names_differ();
}

/// Without a project a guarded action is refused, and the refusal says to activate one. Nothing
/// changes.
pub proof fn law_guarded_action_needs_project(state: StateView, req: envelope::RequestView)
    requires
        routing::is_guarded(req.action),
        state.warmed_up,
        routing::project_of(state, req) is None,
    ensures
        routing::route(state, req) == (
            state,
            routing::fail(req, envelope::project_required(req.action)),
        ),
        asks_for_precondition(routing::route(state, req).1),
{
    lemma_action_names_differ();
}

/// A guarded action with a warmup and a project, and any other action in any state, is never
/// asked for something that has to come first.
pub proof fn law_nothing_else_needs_a_precondition(state: StateView, req: envelope::RequestView)
    requires
        routing::is_guarded(req.action) ==> state.warmed_up && routing::project_of(
            state,
            req,
        ) is Some,
    ensures
        !asks_for_precondition(routing::route(state, req).1),
{
    lemma_action_names_differ();
    reveal_strlit("ADAPTER_ROUTE_FAILED");
    reveal_strlit("COMMON_BAD_REQUEST");
    reveal_strlit("COMMON_PRECONDITION_REQUIRED");
    reveal_strlit("ALSP_LSP_TIMEOUT");
    reveal_strlit("PATCHLET_CONFLICT");
    assert("ADAPTER_ROUTE_FAILED"@.len() == 20);
    assert("COMMON_BAD_REQUEST"@.len() == 18);
    assert("COMMON_PRECONDITION_REQUIRED"@.len() == 28);
    assert("ALSP_LSP_TIMEOUT"@.len() == 16);
    assert("PATCHLET_CONFLICT"@.len() == 17);
}

/// A request that is refused changes nothing.
pub proof fn law_refused_request_changes_nothing(state: StateView, req: envelope::RequestView)
    requires
        routing::handle(state, req).1 matches RouteStepView::Respond(response)
            && response.error is Some,
    ensures
        routing::handle(state, req).0 == state,
{
}

/// A request in another version of the protocol is refused whatever it asks for.
pub proof fn law_other_versions_are_refused(state: StateView, req: envelope::RequestView)
    requires
        req.version != "v0"@,
    ensures
        routing::handle(state, req) == (
            state,
            routing::fail(req, routing::unsupported_version(req.version)),
        ),
{
}

// ---------------------------------------------------------------------------
// Responses
// ---------------------------------------------------------------------------

/// Whether a step belongs to a request: a response carries its numbers, and either data or an
/// error; work is done for the request itself.
pub open spec fn belongs_to(step: RouteStepView, req: envelope::RequestView) -> bool {
    match step {
        RouteStepView::Respond(response) => {
            &&& response.version == "v0"@
            &&& response.request_id == req.request_id
            &&& response.trace_id == req.trace_id
            &&& response.data is Some <==> response.error is None
            &&& response.status == "ok"@ <==> response.data is Some
            &&& response.status == "error"@ <==> response.error is Some
        },
        RouteStepView::Perform(same, _) => same == req,
    }
}

/// Every response belongs to the request that it answers.
pub proof fn law_responses_belong_to_their_requests(
    state: StateView,
    req: envelope::RequestView,
    done: CompletedView,
)
    ensures
        belongs_to(routing::handle(state, req).1, req),
        belongs_to(routing::complete(state, req, done).1, req),
{
    reveal_strlit("ok");
    reveal_strlit("error");
    assert("ok"@.len() == 2 && "error"@.len() == 5);
}

// ---------------------------------------------------------------------------
// Projects
// ---------------------------------------------------------------------------

/// Whether `req` names `root` and makes it the active project.
pub open spec fn activates(req: envelope::RequestView, root: Seq<char>) -> bool {
    (req.action == "project.activate"@ || req.action == "system.warmup"@) && envelope::root_in(
        req.payload,
    ) == Some(root)
}

/// After a project is activated, or warmed up, later requests of the same session or trace that
/// name no project are about it. Requests of other sessions are about what they were about.
pub proof fn law_activated_project_is_used(
    state: StateView,
    activation: envelope::RequestView,
    root: Seq<char>,
    req: envelope::RequestView,
)
    requires
        activates(activation, root),
        envelope::root_in(req.payload) is None,
    ensures
        routing::project_of(routing::route(state, activation).0, req) == (
        if envelope::context_key(req) == envelope::context_key(activation) {
            Some(root)
        } else {
            routing::project_of(state, req)
        }),
{
    reveal_strlit("system.health");
    reveal_strlit("project.activate");
    reveal_strlit("system.warmup");
    assert("system.health"@[7] == 'h');
    assert("system.warmup"@[7] == 'w');
    assert("project.activate"@[0] == 'p');
    assert("system.health"@[0] == 's');
}

/// A project that a request names goes before the active one.
pub proof fn law_named_project_goes_first(
    state: StateView,
    req: envelope::RequestView,
    root: Seq<char>,
)
    requires
        envelope::root_in(req.payload) == Some(root),
    ensures
        routing::project_of(state, req) == Some(root),
{
}

/// After a warmup has gone through, a guarded request of the same session that names no project
/// is granted: it is about the project that was warmed up.
pub proof fn law_warmup_opens_guarded_actions(
    state: StateView,
    warmup_req: envelope::RequestView,
    root: Seq<char>,
    snapshot: Result<Map<Seq<char>, u64>, Seq<char>>,
    duration_ms: u64,
    req: envelope::RequestView,
    symbol: Seq<char>,
)
    requires
        warmup_req.action == "system.warmup"@,
        envelope::root_in(warmup_req.payload) == Some(root),
        envelope::context_key(req) == envelope::context_key(warmup_req),
        envelope::root_in(req.payload) is None,
        req.payload.text_at("symbol"@) == Some(symbol),
    ensures
        ({
            let (begun, step) = routing::route(state, warmup_req);
            let done = CompletedView::Snapshot { project_root: root, snapshot, duration_ms };
            let (warm, _) = routing::complete(begun, warmup_req, done);
            &&& step == RouteStepView::Perform(
                warmup_req,
                routing::EffectView::Snapshot { project_root: root },
            )
            &&& warm.warmed_up
            &&& routing::guarded_query(warm, req) == Ok::<
                (Seq<char>, Seq<char>),
                envelope::ErrorView,
            >((root, symbol))
        }),
{
    reveal_strlit("system.health");
    reveal_strlit("project.activate");
    reveal_strlit("system.warmup");
    assert("system.health"@[7] == 'h');
    assert("system.warmup"@[7] == 'w');
    assert("project.activate"@[0] == 'p');
    assert("system.warmup"@[0] == 's');
}

/// A lookup that is granted asks for the symbol in the project, and is answered with where the
/// symbol is, or that it was not found.
pub proof fn law_granted_lookup_is_answered(
    state: StateView,
    req: envelope::RequestView,
    root: Seq<char>,
    symbol: Seq<char>,
    found: Option<symbols::LocationView>,
)
    requires
        routing::is_lookup(req.action),
        routing::guarded_query(state, req) == Ok::<(Seq<char>, Seq<char>), envelope::ErrorView>(
            (root, symbol),
        ),
        !(req.action == "symbol.lookup"@ && req.payload.flag_at("force_lsp_timeout"@)),
    ensures
        routing::route(state, req) == (
            state,
            RouteStepView::Perform(req, routing::EffectView::Lookup { root, symbol }),
        ),
        routing::complete(state, req, CompletedView::Lookup { symbol, found: Ok(found) }) == (
            state,
            match found {
                Some(loc) => routing::ok(req, loc.json()),
                None => routing::fail(req, routing::symbol_not_found(symbol)),
            },
        ),
{
    lemma_action_names_differ();
}

/// A fuzzy lookup that is granted asks for at most fifty matches in the project, and is answered
/// with the matches, or that there are none.
pub proof fn law_granted_fuzzy_lookup_is_answered(
    state: StateView,
    req: envelope::RequestView,
    root: Seq<char>,
    symbol: Seq<char>,
    matches: Seq<symbols::MatchView>,
)
    requires
        req.action == "symbol.lookup.fuzzy"@,
        routing::guarded_query(state, req) == Ok::<(Seq<char>, Seq<char>), envelope::ErrorView>(
            (root, symbol),
        ),
    ensures
        ({
            let limit = envelope::limit_in(req.payload, 10, 50);
            let done = CompletedView::LookupFuzzy { symbol, limit, matches: Ok(matches) };
            &&& 1 <= limit <= 50
            &&& routing::route(state, req) == (
                state,
                RouteStepView::Perform(
                    req,
                    routing::EffectView::LookupFuzzy { root, symbol, limit },
                ),
            )
            &&& routing::complete(state, req, done) == (
                state,
                if matches.len() == 0 {
                    routing::fail(req, routing::symbol_not_found(symbol))
                } else {
                    routing::ok(req, routing::fuzzy_found(symbol, limit, matches))
                },
            )
        }),
{
    lemma_action_names_differ();
    reveal_strlit("symbol.lookup");
    reveal_strlit("symbol.lookup.static");
    reveal_strlit("symbol.resolve");
    reveal_strlit("symbol.lookup.fuzzy");
    assert("symbol.lookup"@.len() == 13);
    assert("symbol.lookup.static"@.len() == 20);
    assert("symbol.resolve"@.len() == 14);
    assert("symbol.lookup.fuzzy"@.len() == 19);
}

/// Only a finished warmup warms the adapter up, and nothing cools it down.
pub proof fn law_only_warmup_warms_up(
    state: StateView,
    req: envelope::RequestView,
    done: CompletedView,
)
    ensures
        routing::handle(state, req).0.warmed_up == state.warmed_up,
        routing::complete(state, req, done).0.warmed_up == (state.warmed_up || done is Snapshot),
{
}

/// A second warmup of a project that did not change reports no files.
pub proof fn law_second_warmup_reports_nothing(
    state: StateView,
    first: envelope::RequestView,
    second: envelope::RequestView,
    root: Seq<char>,
    snapshot: Map<Seq<char>, u64>,
    first_ms: u64,
    second_ms: u64,
)
    requires
        snapshot.dom().finite(),
    ensures
        ({
            let once = CompletedView::Snapshot {
                project_root: root,
                snapshot: Ok(snapshot),
                duration_ms: first_ms,
            };
            let twice = CompletedView::Snapshot {
                project_root: root,
                snapshot: Ok(snapshot),
                duration_ms: second_ms,
            };
            routing::complete(routing::complete(state, first, once).0, second, twice).1
                == routing::ok(second, routing::warmed(root, Seq::empty(), second_ms))
        }),
{
    snapshots::law_same_snapshot_has_no_changes(snapshot);
}

// ---------------------------------------------------------------------------
// Payloads and inspection
// ---------------------------------------------------------------------------

/// The limit of a lookup lies between one and the maximum.
pub proof fn law_limit_is_bounded(payload: json::JsonView, default: usize, max: usize)
    requires
        1 <= default <= max,
    ensures
        1 <= envelope::limit_in(payload, default, max) <= max,
{
}

/// The query of an HTTP request does not change its answer.
pub proof fn law_query_string_is_ignored(
    warmed_up: bool,
    active_project: Option<Seq<char>>,
    path: Seq<char>,
    query: Seq<char>,
)
    requires
        !path.contains('?'),
    ensures
        http::http_answer(warmed_up, active_project, path + seq!['?'] + query)
            == http::http_answer(warmed_up, active_project, path),
{
    texts::law_before(path, '?', query);
}

/// An HTTP path other than the two that are served is not found.
pub proof fn law_other_paths_are_not_found(
    warmed_up: bool,
    active_project: Option<Seq<char>>,
    path: Seq<char>,
)
    requires
        !path.contains('?'),
    ensures
        http::http_answer(warmed_up, active_project, path).0 == 200 <==> path == "/health"@ || path
            == "/methods"@,
        http::http_answer(warmed_up, active_project, path).0 != 200 ==> http::http_answer(
            warmed_up,
            active_project,
            path,
        ) == (404u16, http::not_found_body()),
{
    texts::law_before(path, '?', Seq::empty());
}

// ---------------------------------------------------------------------------
// Connections
// ---------------------------------------------------------------------------

/// Where a connection stands after it read `lines`.
pub open spec fn after_lines(
    state: http::ConnectionStateView,
    lines: Seq<Seq<char>>,
) -> http::ConnectionStateView
    decreases lines.len(),
{
    if lines.len() == 0 {
        state
    } else {
        http::connection_step(after_lines(state, lines.drop_last()), Some(lines.last())).0
    }
}

/// Whether `line` is only white space.
pub open spec fn is_blank(line: Seq<char>) -> bool {
    text::trimmed(line).len() == 0
}

proof fn lemma_headers_are_passed_over(path: Seq<char>, headers: Seq<Seq<char>>)
    requires
        forall|i: int| 0 <= i < headers.len() ==> !is_blank(#[trigger] headers[i]),
    ensures
        after_lines(http::ConnectionStateView::Headers(path), headers)
            == http::ConnectionStateView::Headers(path),
    decreases headers.len(),
{
    if headers.len() > 0 {
        assert forall|i: int| 0 <= i < headers.drop_last().len() implies !is_blank(
            #[trigger] headers.drop_last()[i],
        ) by {
            assert(!is_blank(headers[i]));
        }
        assert(!is_blank(headers[headers.len() - 1]));
        lemma_headers_are_passed_over(path, headers.drop_last());
    }
}

/// An HTTP request is answered for the path that its first line names, when its headers end in a
/// blank line or with the stream, whatever the headers are. After the answer the connection closes
/// and reads no further line.
pub proof fn law_http_request_is_answered(
    first: Seq<char>,
    headers: Seq<Seq<char>>,
    end: Option<Seq<char>>,
    next: Option<Seq<char>>,
)
    requires
        "GET "@.is_prefix_of(first),
        forall|i: int| 0 <= i < headers.len() ==> !is_blank(#[trigger] headers[i]),
        end matches Some(line) ==> is_blank(line),
    ensures
        ({
            let (begun, action) = http::connection_step(
                http::ConnectionStateView::Ready,
                Some(first),
            );
            let (ended, answer) = http::connection_step(after_lines(begun, headers), end);
            &&& action is Read
            &&& answer == http::ConnectionActionView::AnswerHttp(http::requested_path(first))
            &&& http::connection_step(ended, next) == (ended, http::ConnectionActionView::Close)
        }),
{
    reveal_strlit("GET ");
    assert(first.subrange(0, 4)[0] == 'G');
    text::lemma_word_is_kept(first);
    lemma_headers_are_passed_over(http::requested_path(first), headers);
}

/// A connection passes blank lines over, and handles every other line that is no HTTP request.
pub proof fn law_lines_are_requests(line: Seq<char>)
    ensures
        http::connection_step(http::ConnectionStateView::Ready, Some(line)).1 is Handle
            <==> !is_blank(line) && !"GET "@.is_prefix_of(line),
        is_blank(line) ==> http::connection_step(http::ConnectionStateView::Ready, Some(line)) == (
            http::ConnectionStateView::Ready,
            http::ConnectionActionView::Read,
        ),
{
}

/// A connection that handled a line is ready for the next. The end of the stream closes it. Within
/// the headers of an HTTP request a line that is not blank is passed over. A closed connection
/// stays closed.
pub proof fn law_connection_goes_on(
    path: Seq<char>,
    line: Seq<char>,
    next: Option<Seq<char>>,
)
    ensures
        !is_blank(line) && !"GET "@.is_prefix_of(line) ==> http::connection_step(
            http::ConnectionStateView::Ready,
            Some(line),
        ) == (http::ConnectionStateView::Ready, http::ConnectionActionView::Handle),
        http::connection_step(http::ConnectionStateView::Ready, None) == (
            http::ConnectionStateView::Closed,
            http::ConnectionActionView::Close,
        ),
        !is_blank(line) ==> http::connection_step(
            http::ConnectionStateView::Headers(path),
            Some(line),
        ) == (http::ConnectionStateView::Headers(path), http::ConnectionActionView::Read),
        is_blank(line) ==> http::connection_step(
            http::ConnectionStateView::Headers(path),
            Some(line),
        ) == (http::ConnectionStateView::Closed, http::ConnectionActionView::AnswerHttp(path)),
        http::connection_step(http::ConnectionStateView::Headers(path), None) == (
            http::ConnectionStateView::Closed,
            http::ConnectionActionView::AnswerHttp(path),
        ),
        http::connection_step(http::ConnectionStateView::Closed, next) == (
            http::ConnectionStateView::Closed,
            http::ConnectionActionView::Close,
        ),
{
}

} // verus!
