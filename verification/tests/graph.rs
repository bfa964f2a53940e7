//! Call graph queries, and the language server protocol under them.

use alsp::graph::{
    calls_from_references, compute_ts_workspace_signature, find_enclosing_ts_symbol, is_ts_source,
    reference_place, select_candidate, GraphAction, GraphStep, ReferenceSite, TsGraphCache,
    TsPatterns, TsStamp,
};
use alsp::json::Json;
use alsp::lsp::{
    classify_reply, compute_symbol_query_score, frame_message, initialize_params,
    notification_message, parse_references, parse_workspace_symbols, references_params,
    workspace_symbol_params, HeaderReader, HeaderStep, LspLocation, LspReply, LspSession,
    WorkspaceSymbolCandidate,
};
use alsp::{graph_calls_typescript_lsp, GraphCallsResult};

const SOURCE: &str = "import x from 'y';\nexport async function load(id) {\n  if (id) {\n    return greet(id);\n  }\n}\nconst again = async (name) => {\n  greet(name);\n};\nclass Page {\n  private render(a, b) {\n    greet(a);\n  }\n}\n";

fn start(cache: &mut TsGraphCache, symbol: &str, depth: usize) -> GraphAction {
    let step = GraphStep::Start {
        root: "/work".to_string(),
        symbol: symbol.to_string(),
        depth,
    };
    graph_calls_typescript_lsp(cache, step)
}

fn candidate(name: &str, score: i32) -> WorkspaceSymbolCandidate {
    WorkspaceSymbolCandidate {
        name: name.to_string(),
        uri: "file:///work/a.ts".to_string(),
        line: 3,
        character: 4,
        score,
    }
}

/// Runs a query to its end in a workspace with the given signature, candidates and references.
fn run(
    cache: &mut TsGraphCache,
    symbol: &str,
    depth: usize,
    signed: u128,
    has_sources: bool,
    offered: Vec<WorkspaceSymbolCandidate>,
    references: Vec<ReferenceSite>,
) -> (GraphCallsResult, usize) {
    let mut asked: usize = 0;
    let mut offered = Some(offered);
    let mut references = Some(references);
    let mut action = start(cache, symbol, depth);
    loop {
        asked += 1;
        let step = match action {
            GraphAction::Finish(result) => return (result, asked),
            GraphAction::Sign { query } => GraphStep::Signed { query, signature: signed },
            GraphAction::Probe { query, signature } => {
                GraphStep::Probed { query, signature, has_ts_files: has_sources }
            }
            GraphAction::List { query, signature } => GraphStep::Listed {
                query,
                signature,
                candidates: offered.take().expect("asked once"),
            },
            GraphAction::Refer { query, signature, target } => GraphStep::Referenced {
                query,
                signature,
                target: target.name,
                sites: references.take().expect("asked once"),
            },
        };
        action = graph_calls_typescript_lsp(cache, step);
    }
}

fn site(file: &str, line: usize, content: Option<&str>) -> ReferenceSite {
    ReferenceSite { file: file.to_string(), line, content: content.map(|s| s.to_string()) }
}

#[test]
fn ts_graph_calls_returns_empty_when_workspace_has_no_ts_files() {
    let mut cache = TsGraphCache::new();
    let (res, _) = run(&mut cache, "normalizeName", 2, 1, false, vec![], vec![]);
    assert_eq!(res.provider, "ts.lsp.calls.v1");
    assert!(res.calls.is_empty());
    assert!(res.truncated);
}

#[test]
fn blank_symbol_is_answered_at_once() {
    let mut cache = TsGraphCache::new();
    let (res, asked) = run(&mut cache, " \t", 3, 1, true, vec![], vec![]);
    assert_eq!(asked, 1);
    assert_eq!(res.symbol, "");
    assert_eq!(res.depth, 3);
    assert!(res.calls.is_empty());
    assert!(!res.truncated);
}

#[test]
fn references_become_sorted_calls_without_duplicates() {
    let mut cache = TsGraphCache::new();
    let references = vec![
        site("b.ts", 11, Some(SOURCE)),
        site("a.ts", 3, Some(SOURCE)),
        site("a.ts", 3, Some(SOURCE)),
        site("a.ts", 0, Some(SOURCE)),
        site("gone.ts", 5, None),
        site("a.ts", 7, Some(SOURCE)),
    ];
    let (res, _) =
        run(&mut cache, "  greet ", 1, 1, true, vec![candidate("greet", 20_000)], references);
    assert_eq!(res.symbol, "greet");
    assert!(!res.truncated);
    let calls: Vec<(&str, &str, usize)> =
        res.calls.iter().map(|c| (c.caller.as_str(), c.file.as_str(), c.line)).collect();
    assert_eq!(
        calls,
        vec![
            ("<module>", "a.ts", 1),
            ("<module>", "gone.ts", 6),
            ("again", "a.ts", 8),
            ("load", "a.ts", 4),
            ("render", "b.ts", 12),
        ]
    );
    assert!(res.calls.iter().all(|c| c.callee == "greet"));
}

#[test]
fn symbol_without_candidates_has_no_calls() {
    let mut cache = TsGraphCache::new();
    let (res, asked) = run(&mut cache, "greet", 2, 1, true, vec![], vec![]);
    assert_eq!(asked, 4);
    assert_eq!(res.symbol, "greet");
    assert!(res.calls.is_empty());
    assert!(res.truncated);
}

#[test]
fn cached_answer_holds_while_the_signature_does() {
    let mut cache = TsGraphCache::new();
    let offered = vec![candidate("greet", 20_000)];
    let (first, _) =
        run(&mut cache, "greet", 1, 5, true, offered, vec![site("a.ts", 3, Some(SOURCE))]);
    assert_eq!(first.calls.len(), 1);
    let (again, asked) = run(&mut cache, "greet", 1, 5, true, vec![], vec![]);
    assert_eq!(asked, 2);
    assert_eq!(again.calls.len(), 1);
    let (deeper, _) = run(&mut cache, "greet", 2, 5, true, vec![], vec![]);
    assert!(deeper.calls.is_empty());
    let (changed, asked) = run(&mut cache, "greet", 1, 6, true, vec![], vec![]);
    assert_eq!(asked, 4);
    assert!(changed.calls.is_empty());
}

#[test]
fn best_candidate_has_the_highest_score_and_the_shortest_name() {
    let pick = |all: Vec<WorkspaceSymbolCandidate>| select_candidate(all).map(|c| c.name);
    assert_eq!(pick(vec![]), None);
    assert_eq!(pick(vec![candidate("aa", 1), candidate("bb", 3), candidate("cc", 2)]), Some("bb".to_string()));
    assert_eq!(pick(vec![candidate("long", 3), candidate("abc", 3)]), Some("abc".to_string()));
    assert_eq!(pick(vec![candidate("abc", 3), candidate("long", 3)]), Some("abc".to_string()));
    assert_eq!(pick(vec![candidate("abc", 3), candidate("xyz", 3)]), Some("xyz".to_string()));
}

#[test]
fn enclosing_symbol_is_the_last_one_opened() {
    let ts = TsPatterns::compile().expect("patterns");
    let at = |line: usize| find_enclosing_ts_symbol(SOURCE, line, &ts);
    assert_eq!(at(0), None);
    assert_eq!(at(1), Some("load".to_string()));
    assert_eq!(at(4), Some("load".to_string()));
    assert_eq!(at(6), Some("again".to_string()));
    assert_eq!(at(9), Some("again".to_string()));
    assert_eq!(at(10), Some("render".to_string()));
    assert_eq!(at(1_000), Some("render".to_string()));
    assert_eq!(find_enclosing_ts_symbol("", 0, &ts), None);
}

#[test]
fn calls_need_no_order_of_references() {
    let sites = vec![site("z.ts", 3, Some(SOURCE)), site("a.ts", 3, Some(SOURCE))];
    let calls = calls_from_references(&sites, "greet");
    assert_eq!(calls[0].file, "a.ts");
    assert_eq!(calls[1].file, "z.ts");
}

#[test]
fn signature_follows_the_stamps() {
    assert_eq!(compute_ts_workspace_signature(&vec![]), 14695981039346656037u128);
    let stamp = TsStamp { modified_unix_ms: 1_700_000_000_123, size_bytes: 42 };
    let mut expected: u128 = 14695981039346656037;
    expected ^= stamp.modified_unix_ms.wrapping_mul(1099511628211);
    expected = expected.rotate_left(13) ^ 42;
    assert_eq!(compute_ts_workspace_signature(&vec![stamp]), expected);
    let huge = TsStamp { modified_unix_ms: u128::MAX - 5, size_bytes: u64::MAX };
    expected ^= huge.modified_unix_ms.wrapping_mul(1099511628211);
    expected = expected.rotate_left(13) ^ (u64::MAX as u128);
    assert_eq!(compute_ts_workspace_signature(&vec![stamp, huge]), expected);
}

#[test]
fn four_extensions_are_sources() {
    for e in ["ts", "tsx", "js", "jsx"] {
        assert!(is_ts_source(Some(e)));
    }
    assert!(!is_ts_source(Some("TS")));
    assert!(!is_ts_source(Some("mjs")));
    assert!(!is_ts_source(None));
}

#[test]
fn references_are_placed_below_the_root() {
    let at = LspLocation { uri: "file:///work/src/a%20b.ts".to_string(), line: 3, character: 1 };
    let place = reference_place("/work", &at, false);
    assert_eq!(place.path, "/work/src/a b.ts");
    assert_eq!(place.file, "src/a b.ts");
    assert_eq!(place.line, 3);
    assert_eq!(reference_place("/work/", &at, false).file, "src/a b.ts");
    let other = LspLocation { uri: "file:///lib/c.ts".to_string(), line: 0, character: 0 };
    assert_eq!(reference_place("/work", &other, false).file, "/lib/c.ts");
}

#[test]
fn result_is_written_as_json() {
    let mut cache = TsGraphCache::new();
    let offered = vec![candidate("greet", 20_000)];
    let (res, _) =
        run(&mut cache, "greet", 1, 5, true, offered, vec![site("a.ts", 3, Some(SOURCE))]);
    let data = res.to_json();
    assert_eq!(data.text_at("symbol"), Some("greet"));
    assert_eq!(data.number_at("depth"), Some(1));
    assert!(!data.flag_at("truncated"));
    let calls = data.get("calls").and_then(|v| v.as_array()).expect("calls");
    assert_eq!(calls[0].text_at("caller"), Some("load"));
    assert_eq!(calls[0].number_at("line"), Some(4));
}

// ---------------------------------------------------------------------------
// The language server protocol
// ---------------------------------------------------------------------------

fn read(lines: &[&str]) -> HeaderStep {
    let mut reader = HeaderReader::new();
    for line in lines {
        match reader.read(Some(line)) {
            HeaderStep::More => {}
            other => return other,
        }
    }
    reader.read(None)
}

#[test]
fn frame_is_read_back() {
    let framed = frame_message(&b"{\"a\":1}".to_vec());
    assert_eq!(framed, b"Content-Length: 7\r\n\r\n{\"a\":1}".to_vec());
    let header = String::from_utf8(framed[..21].to_vec()).expect("ascii");
    let lines: Vec<&str> = header.split_inclusive('\n').collect();
    assert!(matches!(read(&lines), HeaderStep::Body(7)));
}

#[test]
fn headers_are_read_in_any_case_and_order() {
    let step = read(&["Content-Type: x\r\n", "CONTENT-LENGTH:   12 \r\n", "\r\n"]);
    assert!(matches!(step, HeaderStep::Body(12)));
    let last = read(&["content-length: 3\n", "content-length: +4\n", " \n"]);
    assert!(matches!(last, HeaderStep::Body(4)));
}

#[test]
fn broken_headers_fail() {
    let failed = |step: HeaderStep| match step {
        HeaderStep::Failed(e) => e,
        _ => panic!("should fail"),
    };
    assert_eq!(failed(read(&["\r\n"])), "LSP_INTERNAL: invalid content-length");
    assert_eq!(
        failed(read(&["Content-Length: ten\r\n", "\r\n"])),
        "LSP_INTERNAL: invalid content-length"
    );
    assert_eq!(
        failed(read(&["Content-Length: 99999999999999999999999\r\n", "\r\n"])),
        "LSP_INTERNAL: invalid content-length"
    );
    assert_eq!(
        failed(read(&["Content-Length: 5\r\n"])),
        "LSP_TIMEOUT: unexpected EOF from language server"
    );
}

#[test]
fn requests_are_numbered() {
    let mut session = LspSession::new();
    let (first, message) = session.request("workspace/symbol", workspace_symbol_params("greet"));
    let (second, _) = session.request("shutdown", Json::Null);
    assert_eq!((first, second), (1, 2));
    assert_eq!(message.text_at("jsonrpc"), Some("2.0"));
    assert_eq!(message.number_at("id"), Some(1));
    assert_eq!(message.text_at("method"), Some("workspace/symbol"));
    assert_eq!(message.get("params").and_then(|p| p.text_at("query")), Some("greet"));
    let note = notification_message("initialized", Json::object());
    assert!(note.get("id").is_none());
    assert_eq!(note.text_at("method"), Some("initialized"));
}

#[test]
fn parameters_have_their_shape() {
    let init = initialize_params(77, "file:///work", None);
    assert_eq!(init.number_at("processId"), Some(77));
    assert_eq!(init.text_at("rootUri"), Some("file:///work"));
    let folders = init.get("workspaceFolders").and_then(|v| v.as_array()).expect("folders");
    assert_eq!(folders.len(), 1);
    assert_eq!(folders[0].text_at("name"), Some("workspace"));
    let named = initialize_params(1, "file:///work", Some("app"));
    let folders = named.get("workspaceFolders").and_then(|v| v.as_array()).expect("folders");
    assert_eq!(folders[0].text_at("name"), Some("app"));
    let refs = references_params("file:///a.ts", 3, 9);
    let position = refs.get("position").expect("position");
    assert_eq!(position.number_at("line"), Some(3));
    assert_eq!(position.number_at("character"), Some(9));
    let context = refs.get("context").expect("context");
    assert_eq!(context.get("includeDeclaration").and_then(|v| v.as_bool()), Some(false));
}

#[test]
fn replies_are_matched_by_number() {
    let reply = |id: u64| Json::object().with("id", Json::Number(id));
    assert!(matches!(classify_reply(1, reply(2)), LspReply::Unrelated));
    assert!(matches!(classify_reply(1, Json::object()), LspReply::Unrelated));
    assert!(matches!(classify_reply(1, reply(1)), LspReply::Completed(Json::Null)));
    match classify_reply(1, reply(1).with("result", Json::Bool(true))) {
        LspReply::Completed(v) => assert_eq!(v.as_bool(), Some(true)),
        _ => panic!("should complete"),
    }
    let both = reply(1).with("result", Json::Null).with("error", Json::text("no"));
    match classify_reply(1, both) {
        LspReply::Failed(e) => assert_eq!(e.as_str(), Some("no")),
        _ => panic!("should fail"),
    }
}

fn place(uri: &str, line: u64) -> Json {
    Json::object().with("uri", Json::text(uri)).with(
        "range",
        Json::object().with(
            "start",
            Json::object().with("line", Json::Number(line)).with("character", Json::Number(2)),
        ),
    )
}

#[test]
fn symbol_reply_offers_candidates() {
    let item = |name: &str, uri: &str| {
        Json::object().with("name", Json::text(name)).with("location", place(uri, 8))
    };
    let reply = Json::array(vec![
        item("Greet", "file:///a.ts"),
        item("other", "file:///a.ts"),
        item("", "file:///a.ts"),
        item("greet", ""),
        Json::object().with("name", Json::text("greeter")).with(
            "location",
            Json::object().with("uri", Json::text("file:///b.ts")),
        ),
        Json::Null,
    ]);
    let all = parse_workspace_symbols(&reply, "greet");
    assert_eq!(all.len(), 2);
    assert_eq!((all[0].name.as_str(), all[0].line, all[0].score), ("Greet", 8, 20_000));
    assert_eq!((all[1].name.as_str(), all[1].line, all[1].score), ("greeter", 0, 9_998));
    assert!(parse_workspace_symbols(&Json::Null, "greet").is_empty());
}

#[test]
fn references_reply_names_places() {
    let reply = Json::array(vec![place("file:///a.ts", 5), place("", 6), Json::object()]);
    let all = parse_references(&reply);
    assert_eq!(all.len(), 1);
    assert_eq!((all[0].uri.as_str(), all[0].line, all[0].character), ("file:///a.ts", 5, 2));
    assert!(parse_references(&Json::text("x")).is_empty());
}

#[test]
fn query_scores_are_exact() {
    assert_eq!(compute_symbol_query_score("GREET", "greet"), 20_000);
    assert_eq!(compute_symbol_query_score("greeter", "Greet"), 9_998);
    assert_eq!(compute_symbol_query_score("doGreet", "greet"), 998);
    assert_eq!(compute_symbol_query_score("wave", "greet"), 0);
}
