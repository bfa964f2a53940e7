//! The local protocol, on an adapter whose work is done in memory.

use alsp::catalog::{method_catalog, system_health_payload};
use alsp::envelope::{
    context_key_for_request, detect_graph_language, invalid_request_response, parse_depth,
    parse_limit, RequestEnvelope, ResponseEnvelope,
};
use alsp::http::{
    http_response_body, http_response_text, next_connection_step, ConnectionAction,
    ConnectionState,
};
use alsp::java::SourceFile;
use alsp::json::Json;
use alsp::routing::{
    complete_action, handle_request, route_action, AdapterState, Completed, Effect, PatchReport,
    RouteStep,
};
use alsp::textmap::TextMap;
use alsp::warmup::{diff_changed_files, is_snapshot_source, Snapshots};
use alsp::{build_java_repo_map, lookup_java_symbol, lookup_java_symbol_fuzzy};

const ROOT: &str = "../../../fixtures/java-sample";

/// What lies outside the adapter: the files of each project, and what the tools say.
struct World {
    files: Vec<(String, String, u64)>,
    unreadable: bool,
    has_ts_files: bool,
    graph: Result<alsp::GraphCallsResult, String>,
    patch: Result<usize, String>,
}

fn world() -> World {
    World {
        files: vec![
            (
                r"src\main\java\com\acme\NameService.java".to_string(),
                "package com.acme;\n\npublic class NameService {\n    public String normalizeName(String input) {\n    }\n}\n".to_string(),
                100,
            ),
            ("src/Other.java".to_string(), "class Other {}\n".to_string(), 100),
        ],
        unreadable: false,
        has_ts_files: false,
        graph: Err("unused".to_string()),
        patch: Ok(1),
    }
}

fn sources(world: &World) -> Vec<SourceFile> {
    world
        .files
        .iter()
        .map(|(path, content, _)| SourceFile { path: path.clone(), content: content.clone() })
        .collect()
}

fn perform(world: &World, effect: Effect) -> Completed {
    match effect {
        Effect::Snapshot { project_root } => {
            let mut snapshot = TextMap::new();
            for (path, _, time) in &world.files {
                snapshot.insert(path.clone(), *time);
            }
            Completed::Snapshot {
                project_root,
                snapshot: if world.unreadable {
                    Err("read_dir failed for x: denied".to_string())
                } else {
                    Ok(snapshot)
                },
                duration_ms: 12,
            }
        }
        Effect::MapRepo { root } => Completed::MapRepo {
            map: if world.unreadable {
                Err("denied".to_string())
            } else {
                Ok(build_java_repo_map(&root, &sources(world)).expect("patterns"))
            },
        },
        Effect::Lookup { root, symbol } => {
            let found = if world.unreadable {
                Err("denied".to_string())
            } else {
                Ok(lookup_java_symbol(&root, &sources(world), &symbol).expect("patterns"))
            };
            Completed::Lookup { symbol, found }
        }
        Effect::LookupFuzzy { root, symbol, limit } => {
            let matches = if world.unreadable {
                Err("denied".to_string())
            } else {
                Ok(lookup_java_symbol_fuzzy(&root, &sources(world), &symbol, limit)
                    .expect("patterns"))
            };
            Completed::LookupFuzzy { symbol, limit, matches }
        }
        Effect::ProbeLanguage { root, symbol, depth } => {
            Completed::ProbeLanguage { root, symbol, depth, has_ts_files: world.has_ts_files }
        }
        Effect::GraphCalls { root, symbol, .. } => {
            Completed::GraphCalls { root, symbol, calls: world.graph.clone() }
        }
        Effect::ApplyPatch { target, search, .. } => Completed::ApplyPatch {
            target,
            search,
            outcome: world.patch.clone().map(|replacements| PatchReport {
                replacements,
                report: Json::object().with("replacements", Json::Number(replacements as u64)),
            }),
        },
    }
}

fn finish(state: &mut AdapterState, world: &World, mut step: RouteStep) -> ResponseEnvelope {
    loop {
        match step {
            RouteStep::Respond(response) => return response,
            RouteStep::Perform(req, effect) => {
                let done = perform(world, effect);
                step = complete_action(state, req, done);
            }
        }
    }
}

fn routed(state: &mut AdapterState, world: &World, req: RequestEnvelope) -> ResponseEnvelope {
    let step = route_action(state, req);
    finish(state, world, step)
}

fn req(action: &str) -> RequestEnvelope {
    RequestEnvelope {
        version: "v0".to_string(),
        request_id: "req_001".to_string(),
        trace_id: "tr_001".to_string(),
        session_id: None,
        source: "test".to_string(),
        target: "adapter".to_string(),
        action: action.to_string(),
        payload: Json::object(),
        meta: None,
    }
}

fn with_payload(action: &str, payload: Json) -> RequestEnvelope {
    let mut r = req(action);
    r.payload = payload;
    r
}

fn texts(pairs: &[(&str, &str)]) -> Json {
    let mut payload = Json::object();
    for (key, value) in pairs {
        payload = payload.with(key, Json::text(value));
    }
    payload
}

fn warm(root: &str) -> AdapterState {
    let mut state = AdapterState::new();
    let resp =
        routed(&mut state, &world(), with_payload("system.warmup", texts(&[("project_root", root)])));
    assert_eq!(resp.status, "ok");
    state
}

/// A warmed-up adapter without a project in the default context.
fn warm_elsewhere() -> AdapterState {
    let mut state = AdapterState::new();
    let mut r = with_payload("system.warmup", texts(&[("project_root", "/elsewhere")]));
    r.session_id = Some("another".to_string());
    let resp = routed(&mut state, &world(), r);
    assert_eq!(resp.status, "ok");
    state
}

fn method<'a>(methods: &'a Vec<Json>, action: &str) -> &'a Json {
    methods.iter().find(|m| m.text_at("action") == Some(action)).expect("method missing")
}

#[test]
fn system_health_returns_method_catalog_with_warmup_flags() {
    let mut state = AdapterState::new();
    let resp = routed(&mut state, &world(), req("system.health"));
    assert_eq!(resp.status, "ok");
    let data = resp.data.expect("system.health should return data");
    let methods = data.get("methods").and_then(|v| v.as_array()).expect("methods must be array");
    assert!(!methods.is_empty());
    let symbol_lookup = method(methods, "symbol.lookup");
    assert_eq!(
        symbol_lookup.get("requires_warmup").and_then(|v| v.as_bool()).unwrap_or(false),
        true
    );
    let patch_apply = method(methods, "patch.apply");
    assert_eq!(
        patch_apply.get("requires_warmup").and_then(|v| v.as_bool()).unwrap_or(true),
        false
    );
    let project_activate = method(methods, "project.activate");
    assert_eq!(
        project_activate
            .get("requires_project_activation")
            .and_then(|v| v.as_bool())
            .unwrap_or(true),
        false
    );
}

#[test]
fn symbol_lookup_requires_warmup_before_use() {
    let mut state = AdapterState::new();
    let lookup_req =
        with_payload("symbol.lookup", texts(&[("path", "."), ("symbol", "normalizeName")]));
    let resp = routed(&mut state, &world(), lookup_req);
    assert_eq!(resp.status, "error");
    let err = resp.error.expect("error body expected");
    assert_eq!(err.code, "COMMON_PRECONDITION_REQUIRED");
    assert_eq!(err.details.text_at("next_action"), Some("system.warmup"));
}

#[test]
fn symbol_lookup_after_warmup_is_not_blocked_by_precondition() {
    let mut state = AdapterState::new();
    let warmup_req = with_payload("system.warmup", texts(&[("project_root", ".")]));
    let warmup_resp = routed(&mut state, &world(), warmup_req);
    assert_eq!(warmup_resp.status, "ok");
    let lookup_req =
        with_payload("symbol.lookup", texts(&[("path", "."), ("symbol", "normalizeName")]));
    let resp = routed(&mut state, &world(), lookup_req);
    assert!(resp.error.as_ref().map(|e| e.code.as_str()) != Some("COMMON_PRECONDITION_REQUIRED"));
}

#[test]
fn fuzzy_lookup_requires_warmup_before_use() {
    let mut state = AdapterState::new();
    let lookup_req =
        with_payload("symbol.lookup.fuzzy", texts(&[("path", "."), ("symbol", "Name")]));
    let resp = routed(&mut state, &world(), lookup_req);
    assert_eq!(resp.status, "error");
    let err = resp.error.expect("error body expected");
    assert_eq!(err.code, "COMMON_PRECONDITION_REQUIRED");
}

#[test]
fn fuzzy_lookup_after_warmup_returns_ranked_items() {
    let mut state = AdapterState::new();
    let warmup_req = with_payload("system.warmup", texts(&[("project_root", ROOT)]));
    let warmup_resp = routed(&mut state, &world(), warmup_req);
    assert_eq!(warmup_resp.status, "ok");
    let payload =
        texts(&[("project_root", ROOT), ("symbol", "Name")]).with("limit", Json::Number(10));
    let resp = routed(&mut state, &world(), with_payload("symbol.lookup.fuzzy", payload));
    assert_eq!(resp.status, "ok");
    let data = resp.data.expect("fuzzy data expected");
    let items = data.get("items").and_then(|v| v.as_array()).expect("items should be array");
    assert!(!items.is_empty());
    let first = items.first().expect("first item");
    assert!(first.get("score").is_some());
    assert!(first.get("match_type").is_some());
}

#[test]
fn graph_calls_requires_warmup_before_use() {
    let mut state = AdapterState::new();
    let req_graph = with_payload("graph.calls", texts(&[("symbol", "normalizeName")]));
    let resp = routed(&mut state, &world(), req_graph);
    assert_eq!(resp.status, "error");
    let err = resp.error.expect("error body expected");
    assert_eq!(err.code, "COMMON_PRECONDITION_REQUIRED");
}

#[test]
fn graph_calls_after_warmup_returns_ok_shape() {
    let mut state = AdapterState::new();
    let warmup_req = with_payload("system.warmup", texts(&[("project_root", ".")]));
    let warmup_resp = routed(&mut state, &world(), warmup_req);
    assert_eq!(warmup_resp.status, "ok");
    let payload =
        texts(&[("symbol", "normalizeName"), ("language", "java")]).with("depth", Json::Number(2));
    let resp = routed(&mut state, &world(), with_payload("graph.calls", payload));
    assert_eq!(resp.status, "ok");
    let data = resp.data.expect("graph.calls data expected");
    assert_eq!(data.text_at("provider"), Some("alsp.graph.calls.v0"));
}

#[test]
fn warmup_incremental_reports_only_changed_java_files() {
    let mut state = AdapterState::new();
    let mut outside = world();
    outside.files = vec![("/tmp/w/A.java".to_string(), "class A {}".to_string(), 50)];
    let warmup = || with_payload("system.warmup", texts(&[("project_root", "/tmp/w")]));
    let changed = |resp: ResponseEnvelope| {
        assert_eq!(resp.status, "ok");
        let data = resp.data.expect("warmup data expected");
        let files = data
            .get("changed_files")
            .and_then(|v| v.as_array())
            .expect("changed_files must be array")
            .len();
        (files, data.number_at("reindexed_files").unwrap_or(0))
    };
    let (changed_1, _) = changed(routed(&mut state, &outside, warmup()));
    assert!(changed_1 > 0);
    let (changed_2, _) = changed(routed(&mut state, &outside, warmup()));
    assert_eq!(changed_2, 0);
    outside.files[0].2 = 51;
    let (changed_3, reindexed_3) = changed(routed(&mut state, &outside, warmup()));
    assert_eq!(changed_3, 1);
    assert_eq!(reindexed_3, 1);
}

#[test]
fn symbol_lookup_requires_active_project_when_no_root_provided() {
    let mut state = warm_elsewhere();
    let lookup_req = with_payload("symbol.lookup", texts(&[("symbol", "normalizeName")]));
    let resp = routed(&mut state, &world(), lookup_req);
    assert_eq!(resp.status, "error");
    let err = resp.error.expect("error body expected");
    assert_eq!(err.code, "COMMON_PRECONDITION_REQUIRED");
    assert_eq!(err.details.text_at("next_action"), Some("project.activate"));
}

#[test]
fn project_activate_sets_context_for_followup_symbol_lookup() {
    let mut state = warm_elsewhere();
    let activate_req = with_payload("project.activate", texts(&[("project_root", ROOT)]));
    let activate_resp = routed(&mut state, &world(), activate_req);
    assert_eq!(activate_resp.status, "ok");
    let lookup_req = with_payload("symbol.lookup", texts(&[("symbol", "normalizeName")]));
    let resp = routed(&mut state, &world(), lookup_req);
    assert_eq!(resp.status, "ok");
}

#[test]
fn http_health_endpoint_returns_ok() {
    let (status, payload) = http_response_body(false, None, "/health");
    assert_eq!(status, 200);
    assert_eq!(payload.text_at("status"), Some("ok"));
}

#[test]
fn http_methods_endpoint_returns_method_list() {
    let (status, payload) = http_response_body(false, None, "/methods");
    assert_eq!(status, 200);
    assert!(payload
        .get("methods")
        .and_then(|v| v.as_array())
        .is_some_and(|arr| !arr.is_empty()));
}

#[test]
fn http_unknown_endpoint_returns_404() {
    let (status, payload) = http_response_body(false, None, "/unknown");
    assert_eq!(status, 404);
    assert_eq!(payload.text_at("error_code"), Some("HTTP_NOT_FOUND"));
}

// ---------------------------------------------------------------------------
// Routing
// ---------------------------------------------------------------------------

fn error_of(resp: ResponseEnvelope) -> (String, String, bool, String) {
    assert_eq!(resp.status, "error");
    assert!(resp.data.is_none());
    let e = resp.error.expect("error body");
    (e.code, e.message, e.retryable, e.node)
}

fn expected(code: &str, message: &str, retryable: bool, node: &str) -> (String, String, bool, String) {
    (code.to_string(), message.to_string(), retryable, node.to_string())
}

#[test]
fn responses_carry_the_numbers_of_their_requests() {
    let mut state = AdapterState::new();
    let resp = routed(&mut state, &world(), req("system.health"));
    assert_eq!((resp.version.as_str(), resp.request_id.as_str(), resp.trace_id.as_str()), ("v0", "req_001", "tr_001"));
    assert!(!resp.fallback_used);
    assert_eq!(resp.cost.number_at("duration_ms"), Some(1));
    let refused = routed(&mut state, &world(), req("no.such.action"));
    assert_eq!(refused.request_id, "req_001");
    assert_eq!(refused.cost.number_at("duration_ms"), Some(0));
    assert_eq!(
        error_of(refused),
        expected("ADAPTER_ROUTE_FAILED", "unsupported action", true, "Adapter")
    );
}

#[test]
fn other_versions_are_refused() {
    let mut state = AdapterState::new();
    let mut r = req("system.health");
    r.version = "v1".to_string();
    let step = handle_request(&mut state, r);
    let resp = finish(&mut state, &world(), step);
    let details = resp.error.as_ref().expect("error").details.text_at("supported_version").map(|s| s.to_string());
    assert_eq!(details, Some("v0".to_string()));
    assert_eq!(
        error_of(resp),
        expected("COMMON_BAD_REQUEST", "unsupported version: v1", false, "Adapter")
    );
    let step = handle_request(&mut state, req("system.health"));
    assert_eq!(finish(&mut state, &world(), step).status, "ok");
}

#[test]
fn lines_that_are_no_requests_are_refused() {
    let resp = invalid_request_response("EOF");
    assert_eq!(resp.request_id, "unknown");
    assert_eq!(
        error_of(resp),
        expected("COMMON_BAD_REQUEST", "invalid json request: EOF", false, "Adapter")
    );
}

#[test]
fn activation_and_warmup_need_a_root() {
    let mut state = AdapterState::new();
    for action in ["project.activate", "system.warmup"] {
        let resp = routed(&mut state, &world(), req(action));
        let details = &resp.error.as_ref().expect("error").details;
        let required = details.get("required").and_then(|v| v.as_array()).expect("required");
        assert_eq!(required[0].as_str(), Some("project_root|path"));
        let example = details.get("example").expect("example");
        assert_eq!(example.text_at("action"), Some(action));
        let message = format!("{action} requires explicit project_root/path");
        assert_eq!(error_of(resp), expected("COMMON_BAD_REQUEST", &message, false, "Adapter"));
    }
    assert!(!state.is_warmed_up());
    assert!(state.any_active_project().is_none());
}

#[test]
fn warmup_is_reported_whole() {
    let mut state = AdapterState::new();
    let resp =
        routed(&mut state, &world(), with_payload("system.warmup", texts(&[("path", "/w")])));
    let data = resp.data.expect("data");
    assert_eq!(data.text_at("status"), Some("ready"));
    assert_eq!(data.text_at("adapter"), Some("alsp_adapter"));
    assert_eq!(data.text_at("message"), Some("internal warmup completed"));
    assert_eq!(data.text_at("project_root"), Some("/w"));
    assert_eq!(data.number_at("reindexed_files"), Some(2));
    assert_eq!(data.number_at("duration_ms"), Some(12));
    assert!(state.is_warmed_up());
}

#[test]
fn failed_warmup_still_warms_up() {
    let mut state = AdapterState::new();
    let mut outside = world();
    outside.unreadable = true;
    let resp =
        routed(&mut state, &outside, with_payload("system.warmup", texts(&[("path", "/w")])));
    assert_eq!(
        error_of(resp),
        expected(
            "COMMON_INTERNAL",
            "system.warmup failed: read_dir failed for x: denied",
            true,
            "Adapter"
        )
    );
    assert!(state.is_warmed_up());
    assert_eq!(state.active_project_for_request(&req("x")), Some("/w".to_string()));
}

#[test]
fn work_that_fails_is_an_internal_error() {
    let mut outside = world();
    outside.unreadable = true;
    let mut state = warm("/w");
    let symbol = || texts(&[("symbol", "Other")]);
    let cases = [
        ("repo.map", "repo.map failed: denied"),
        ("symbol.lookup", "symbol.lookup failed: denied"),
        ("symbol.lookup.static", "symbol.lookup failed: denied"),
        ("symbol.resolve", "symbol.lookup failed: denied"),
        ("symbol.lookup.fuzzy", "symbol.lookup.fuzzy failed: denied"),
    ];
    for (action, message) in cases {
        let resp = routed(&mut state, &outside, with_payload(action, symbol()));
        assert_eq!(error_of(resp), expected("COMMON_INTERNAL", message, true, "Adapter"));
    }
}

#[test]
fn repo_map_needs_no_warmup() {
    let mut state = AdapterState::new();
    match route_action(&mut state, req("repo.map")) {
        RouteStep::Perform(_, Effect::MapRepo { root }) => assert_eq!(root, "."),
        _ => panic!("should map"),
    }
    let resp = routed(&mut state, &world(), with_payload("repo.map", texts(&[("path", "/w")])));
    let data = resp.data.expect("data");
    assert_eq!(data.text_at("root"), Some("/w"));
    assert_eq!(data.text_at("language"), Some("java"));
    assert_eq!(data.get("files").and_then(|v| v.as_array()).map(|a| a.len()), Some(2));
}

#[test]
fn lookups_answer_with_a_location() {
    let mut state = warm("/w");
    for action in ["symbol.lookup", "symbol.lookup.static", "symbol.resolve"] {
        let found =
            routed(&mut state, &world(), with_payload(action, texts(&[("symbol", "normalizeName")])));
        let data = found.data.expect("data");
        assert_eq!(data.text_at("kind"), Some("method"));
        assert_eq!(data.number_at("line"), Some(4));
        let missing = routed(&mut state, &world(), with_payload(action, texts(&[("symbol", "no")])));
        assert_eq!(
            missing.error.as_ref().expect("error").details.text_at("symbol"),
            Some("no")
        );
        assert_eq!(
            error_of(missing),
            expected("ALSP_SYMBOL_NOT_FOUND", "symbol not found", false, "Analyze")
        );
        let blank = routed(&mut state, &world(), req(action));
        assert_eq!(
            error_of(blank),
            expected("COMMON_BAD_REQUEST", "missing payload.symbol", false, "Adapter")
        );
    }
}

#[test]
fn only_symbol_lookup_can_be_made_to_time_out() {
    let mut state = warm("/w");
    let payload = || texts(&[("symbol", "Other")]).with("force_lsp_timeout", Json::Bool(true));
    let resp = routed(&mut state, &world(), with_payload("symbol.lookup", payload()));
    assert_eq!(
        error_of(resp),
        expected("ALSP_LSP_TIMEOUT", "simulated lsp timeout", true, "Analyze")
    );
    let resp = routed(&mut state, &world(), with_payload("symbol.resolve", payload()));
    assert_eq!(resp.status, "ok");
}

#[test]
fn fuzzy_lookup_without_matches_is_not_found() {
    let mut state = warm("/w");
    let found =
        routed(&mut state, &world(), with_payload("symbol.lookup.fuzzy", texts(&[("symbol", "name")])));
    let data = found.data.expect("data");
    assert_eq!(data.number_at("limit"), Some(10));
    let items = data.get("items").and_then(|v| v.as_array()).expect("items");
    assert_eq!(items[0].number_at("score"), Some(9_993));
    let missing =
        routed(&mut state, &world(), with_payload("symbol.lookup.fuzzy", texts(&[("symbol", "qq")])));
    assert_eq!(
        error_of(missing),
        expected("ALSP_SYMBOL_NOT_FOUND", "symbol not found", false, "Analyze")
    );
}

fn calls() -> alsp::GraphCallsResult {
    alsp::GraphCallsResult {
        symbol: "greet".to_string(),
        depth: 1,
        provider: "ts.lsp.calls.v1".to_string(),
        calls: vec![],
        truncated: false,
    }
}

#[test]
fn graph_language_is_named_or_found() {
    let mut state = warm("/w");
    let mut outside = world();
    outside.graph = Ok(calls());
    let symbol = || texts(&[("symbol", "greet")]);
    let java = routed(&mut state, &outside, with_payload("graph.calls", symbol()));
    let data = java.data.expect("data");
    assert_eq!(data.text_at("language"), Some("java"));
    assert_eq!(data.number_at("depth"), Some(1));
    outside.has_ts_files = true;
    let found = routed(&mut state, &outside, with_payload("graph.calls", symbol()));
    assert_eq!(found.data.expect("data").text_at("provider"), Some("ts.lsp.calls.v1"));
    let named = symbol().with("language", Json::text(" TypeScript "));
    outside.has_ts_files = false;
    let resp = routed(&mut state, &outside, with_payload("graph.calls", named));
    assert_eq!(resp.data.expect("data").text_at("provider"), Some("ts.lsp.calls.v1"));
    let other = symbol().with("language", Json::text("Go"));
    let resp = routed(&mut state, &outside, with_payload("graph.calls", other));
    assert_eq!(resp.data.expect("data").text_at("language"), Some("go"));
}

#[test]
fn server_failures_are_told_apart() {
    let mut state = warm("/w");
    let mut outside = world();
    let cases = [
        (
            "LSP_UNAVAILABLE: failed to spawn",
            expected("ALSP_LSP_UNAVAILABLE", "typescript language server unavailable", true, "Analyze"),
        ),
        (
            "LSP_TIMEOUT: unexpected EOF",
            expected("ALSP_LSP_TIMEOUT", "typescript language server timeout", true, "Analyze"),
        ),
        (
            "LSP_INTERNAL: x",
            expected("COMMON_INTERNAL", "graph.calls failed: LSP_INTERNAL: x", true, "Adapter"),
        ),
    ];
    for (reason, error) in cases {
        outside.graph = Err(reason.to_string());
        let payload = texts(&[("symbol", "greet"), ("language", "typescript")]);
        let resp = routed(&mut state, &outside, with_payload("graph.calls", payload));
        assert_eq!(error_of(resp), error);
    }
}

fn patch(search: &str) -> Json {
    let block = texts(&[("search", search), ("replace", "new")]);
    texts(&[("target", "a.txt")]).with("search_replace_blocks", Json::array(vec![block]))
}

#[test]
fn patches_are_checked_then_applied() {
    let mut state = AdapterState::new();
    let mut outside = world();
    let resp = routed(&mut state, &outside, with_payload("patch.apply", patch("old")));
    assert_eq!(resp.data.expect("data").number_at("replacements"), Some(1));
    outside.patch = Ok(0);
    let resp = routed(&mut state, &outside, with_payload("patch.apply", patch("old")));
    assert_eq!(resp.error.as_ref().expect("error").details.text_at("search_excerpt"), Some("old"));
    assert_eq!(
        error_of(resp),
        expected("PATCHLET_SEARCH_MISS", "search block not found in target file", false, "Execute")
    );
    outside.patch = Err("denied".to_string());
    let resp = routed(&mut state, &outside, with_payload("patch.apply", patch("old")));
    assert_eq!(
        error_of(resp),
        expected("PATCHLET_APPLY_FAILED", "patch apply failed: denied", true, "Execute")
    );
    let forced = patch("old").with("force_patch_conflict", Json::Bool(true));
    let resp = routed(&mut state, &outside, with_payload("patch.apply", forced));
    assert_eq!(
        error_of(resp),
        expected("PATCHLET_CONFLICT", "simulated patch conflict", false, "Execute")
    );
}

#[test]
fn broken_patches_are_refused() {
    let mut state = AdapterState::new();
    let bad = |payload: Json, message: &str, state: &mut AdapterState| {
        let resp = routed(state, &world(), with_payload("patch.apply", payload));
        assert_eq!(error_of(resp), expected("COMMON_BAD_REQUEST", message, false, "Adapter"));
    };
    bad(Json::object(), "missing payload.target", &mut state);
    let target = || texts(&[("target", "a.txt")]);
    bad(target(), "missing payload.search_replace_blocks[0]", &mut state);
    bad(
        target().with("search_replace_blocks", Json::array(vec![])),
        "missing payload.search_replace_blocks[0]",
        &mut state,
    );
    bad(patch("").with("force_patch_conflict", Json::Bool(true)), "empty search pattern", &mut state);
    bad(
        target().with("search_replace_blocks", Json::array(vec![Json::Null])),
        "empty search pattern",
        &mut state,
    );
}

#[test]
fn sessions_keep_their_own_projects() {
    let mut state = warm_elsewhere();
    let mut mine = with_payload("project.activate", texts(&[("path", "/mine"), ("project_root", "/not")]));
    mine.session_id = Some(" s1 ".to_string());
    let resp = routed(&mut state, &world(), mine);
    let data = resp.data.expect("data");
    assert_eq!(data.text_at("active_project"), Some("/mine"));
    assert_eq!(data.text_at("context_key"), Some("s1"));
    let mut again = req("system.health");
    again.session_id = Some("s1".to_string());
    assert_eq!(context_key_for_request(&again), "s1");
    assert_eq!(state.resolve_project_root_for_action(&again), Some("/mine".to_string()));
    let resp = routed(&mut state, &world(), again);
    assert_eq!(resp.data.expect("data").text_at("active_project"), Some("/mine"));
    assert_eq!(state.active_project_for_request(&req("x")), None);
    let mut blank = req("x");
    blank.session_id = Some("  ".to_string());
    assert_eq!(context_key_for_request(&blank), "tr_001");
    assert!(state.any_active_project().is_some());
    let named = with_payload("x", texts(&[("project_root", "/named")]));
    assert_eq!(state.resolve_project_root_for_action(&named), Some("/named".to_string()));
    state.register_active_project(&req("x"), "/later");
    assert_eq!(state.active_project_for_request(&req("x")), Some("/later".to_string()));
}

#[test]
fn payload_numbers_have_bounds() {
    let limit = |v: Json| parse_limit(&Json::object().with("limit", v), 10, 50);
    assert_eq!(limit(Json::Number(1)), 1);
    assert_eq!(limit(Json::Number(50)), 50);
    assert_eq!(limit(Json::Number(51)), 50);
    assert_eq!(limit(Json::Number(0)), 10);
    assert_eq!(limit(Json::Negative(-1)), 10);
    assert_eq!(limit(Json::Real), 10);
    assert_eq!(limit(Json::text("7")), 10);
    assert_eq!(parse_limit(&Json::Null, 10, 50), 10);
    assert_eq!(parse_depth(&Json::object()), 1);
    assert_eq!(parse_depth(&Json::object().with("depth", Json::Number(0))), 0);
    assert_eq!(parse_depth(&Json::object().with("depth", Json::Number(4))), 4);
    let language = |v: &str| detect_graph_language(&texts(&[("language", v)]), true);
    assert_eq!(language(" Java\n"), "java");
    assert_eq!(language("  "), "typescript");
}

#[test]
fn catalog_counts_its_methods() {
    let all = method_catalog();
    assert_eq!(all.len(), 10);
    assert_eq!(all.iter().filter(|m| m.requires_warmup).count(), 5);
    assert!(all.iter().all(|m| m.available));
    let health = system_health_payload(true, Some("/w"));
    assert_eq!(health.text_at("service"), Some("lesscoder-alsp-adapter"));
    assert_eq!(health.text_at("protocol_version"), Some("v0"));
    assert!(health.flag_at("warmed_up"));
    assert_eq!(health.text_at("active_project"), Some("/w"));
    let summary = health.get("summary").expect("summary");
    assert_eq!(summary.number_at("total_methods"), Some(10));
    assert_eq!(summary.number_at("requires_warmup_methods"), Some(5));
    assert_eq!(summary.number_at("requires_project_activation_methods"), Some(5));
}

#[test]
fn catalog_and_routing_agree() {
    for m in method_catalog() {
        let mut state = AdapterState::new();
        let resp = routed(&mut state, &world(), req(&m.action));
        let code = resp.error.map(|e| e.code);
        assert_ne!(code, Some("ADAPTER_ROUTE_FAILED".to_string()));
        assert_eq!(code == Some("COMMON_PRECONDITION_REQUIRED".to_string()), m.requires_warmup);
    }
}

// ---------------------------------------------------------------------------
// Connections
// ---------------------------------------------------------------------------

#[test]
fn http_answers_are_written_out() {
    let (status, body) = http_response_body(true, Some("/w"), "/methods?x=1");
    assert_eq!(status, 200);
    assert_eq!(body.text_at("active_project"), Some("/w"));
    assert!(body.flag_at("warmed_up"));
    let (_, none) = http_response_body(false, None, "/methods");
    assert!(matches!(none.get("active_project"), Some(Json::Null)));
    assert_eq!(
        http_response_text(200, "{\"\u{e4}\":1}"),
        "HTTP/1.1 200 OK\r\nContent-Type: application/json; charset=utf-8\r\nContent-Length: 8\r\nConnection: close\r\n\r\n{\"\u{e4}\":1}"
    );
    assert!(http_response_text(404, "").starts_with("HTTP/1.1 404 Not Found\r\n"));
}

#[test]
fn connection_reads_requests_and_http() {
    let (state, action) = next_connection_step(ConnectionState::Ready, Some("  "));
    assert!(matches!(action, ConnectionAction::Read));
    let (state, action) = next_connection_step(state, Some("{\"version\":\"v0\"}"));
    assert!(matches!(action, ConnectionAction::Handle));
    let (state, action) = next_connection_step(state, Some("GET /health HTTP/1.1"));
    assert!(matches!(action, ConnectionAction::Read));
    let (state, action) = next_connection_step(state, Some("Host: x"));
    assert!(matches!(action, ConnectionAction::Read));
    let (state, action) = next_connection_step(state, Some(""));
    match action {
        ConnectionAction::AnswerHttp(path) => assert_eq!(path, "/health"),
        _ => panic!("should answer"),
    }
    let (state, action) = next_connection_step(state, Some("{}"));
    assert!(matches!(state, ConnectionState::Closed));
    assert!(matches!(action, ConnectionAction::Close));
    let (state, action) = next_connection_step(ConnectionState::Ready, None);
    assert!(matches!(state, ConnectionState::Closed));
    assert!(matches!(action, ConnectionAction::Close));
    let (state, _) = next_connection_step(ConnectionState::Ready, Some("GET  "));
    match next_connection_step(state, None).1 {
        ConnectionAction::AnswerHttp(path) => assert_eq!(path, "/"),
        _ => panic!("should answer"),
    }
}

// ---------------------------------------------------------------------------
// Snapshots
// ---------------------------------------------------------------------------

fn snapshot(files: &[(&str, u64)]) -> TextMap<u64> {
    let mut map = TextMap::new();
    for (path, time) in files {
        map.insert(path.to_string(), *time);
    }
    map
}

#[test]
fn changes_are_listed_in_order() {
    let before = snapshot(&[("c", 1), ("a", 1), ("b", 1)]);
    let after = snapshot(&[("d", 1), ("b", 2), ("a", 1)]);
    assert_eq!(diff_changed_files(Some(&before), &after), vec!["b", "c", "d"]);
    assert_eq!(diff_changed_files(Some(&after), &before), vec!["b", "c", "d"]);
    assert_eq!(diff_changed_files(None, &after), vec!["a", "b", "d"]);
    assert!(diff_changed_files(Some(&after), &after).is_empty());
    let mut all = Snapshots::new();
    assert_eq!(all.compute_incremental_warmup("/w", before).1, 3);
    assert_eq!(all.compute_incremental_warmup("/v", snapshot(&[("x", 1)])).0, vec!["x"]);
    assert_eq!(all.compute_incremental_warmup("/w", after).0, vec!["b", "c", "d"]);
    assert!(is_snapshot_source(Some("JAVA")));
    assert!(!is_snapshot_source(Some("jav")));
    assert!(!is_snapshot_source(None));
}
