//! The laws of the library, on chosen values.

use alsp::graph::{
    compute_ts_workspace_signature, find_enclosing_ts_symbol, GraphAction, GraphStep,
    TsGraphCache, TsPatterns, TsStamp,
};
use alsp::java::{SourceFile, StampedFile};
use alsp::lookup::score_symbol_match;
use alsp::lsp::{frame_message, HeaderReader, HeaderStep};
use alsp::paths::{file_uri_to_path, path_to_file_uri, percent_decode, to_rel_or_abs};
use alsp::rank::stable_sort;
use alsp::{
    build_java_repo_map, build_java_repo_map_incremental, graph_calls_typescript_lsp, lookup_java_symbol,
    lookup_java_symbol_fuzzy, FuzzySymbolMatch,
};

const FILES: [(&str, &str); 3] = [
    ("A.java", "class A {\n  int one(int x) {\n  }\n}\n"),
    ("B.java", "// nothing here\n"),
    ("C.java", "interface C {\n"),
];

fn sources() -> Vec<SourceFile> {
    FILES
        .iter()
        .map(|(p, c)| SourceFile { path: p.to_string(), content: c.to_string() })
        .collect()
}

fn stamped() -> Vec<StampedFile> {
    FILES
        .iter()
        .map(|(p, c)| StampedFile {
            path: p.to_string(),
            modified_unix_ms: 5,
            size_bytes: c.len() as u64,
            content: c.to_string(),
        })
        .collect()
}

#[test]
fn indexing_again_agrees_with_mapping_anew() {
    let full = build_java_repo_map("r", &sources()).expect("map");
    let first = build_java_repo_map_incremental("r", &stamped(), None).expect("build");
    assert_eq!(first.stats.reused_files, 0);
    let second = build_java_repo_map_incremental("r", &stamped(), Some(&first.cache)).expect("build");
    assert_eq!(second.stats.reused_files, 3);
    assert_eq!(format!("{:?}", second.cache), format!("{:?}", first.cache));
    let declaring: Vec<String> = second
        .map
        .files
        .iter()
        .filter(|f| !f.classes.is_empty() || !f.methods.is_empty())
        .map(|f| format!("{f:?}"))
        .collect();
    let expected: Vec<String> = full.files.iter().map(|f| format!("{f:?}")).collect();
    assert_eq!(declaring, expected);
    assert_eq!(declaring.len(), 2);
}

#[test]
fn every_symbol_stands_on_its_line() {
    let full = build_java_repo_map("r", &sources()).expect("map");
    for file in &full.files {
        let content = FILES.iter().find(|(p, _)| *p == file.path).expect("file").1;
        let lines: Vec<&str> = content.lines().collect();
        for c in &file.classes {
            assert_eq!(c.signature, lines[c.line - 1].trim());
        }
        for m in &file.methods {
            assert_eq!(m.signature, lines[m.line - 1].trim());
        }
    }
}

#[test]
fn closer_length_scores_higher() {
    let score = |name: &str| score_symbol_match(name, "ab").expect("matches").0;
    assert!(score("ab") > score("abc"));
    assert!(score("abc") > score("abcd"));
    assert!(score("xab") > score("xaby"));
    assert!(score("abcdefgh") > score("xab"));
}

#[test]
fn lower_limit_gives_the_beginning() {
    let source = vec![SourceFile {
        path: "A.java".to_string(),
        content: "class Ab {\nclass Abc {\nclass XAb {\nclass Abcd {\n".to_string(),
    }];
    let names = |limit: usize| -> Vec<String> {
        lookup_java_symbol_fuzzy("r", &source, "ab", limit)
            .expect("lookup")
            .into_iter()
            .map(|m| m.symbol)
            .collect()
    };
    assert_eq!(names(9), vec!["Ab", "Abc", "Abcd", "XAb"]);
    for n in 0..5usize {
        assert_eq!(names(n), names(9)[..n.min(4)].to_vec());
    }
}

#[test]
fn exact_find_is_a_top_match() {
    let all = sources();
    for name in ["A", "one", "C"] {
        let loc = lookup_java_symbol("r", &all, name).expect("lookup").expect("found");
        let hits = lookup_java_symbol_fuzzy("r", &all, name, usize::MAX).expect("lookup");
        assert!(hits.iter().any(|h| h.symbol == name
            && h.file == loc.file
            && h.line == loc.line
            && h.kind == loc.kind
            && h.signature == loc.signature
            && h.score == 10_000
            && h.match_type == "prefix"));
        assert_eq!(hits[0].score, 10_000);
        assert!(hits.iter().all(|h| h.score <= 10_000));
    }
}

#[test]
fn same_needle_finds_the_same() {
    let all = sources();
    let find = |symbol: &str| {
        format!("{:?}", lookup_java_symbol_fuzzy("r", &all, symbol, 10).expect("lookup"))
    };
    assert_eq!(find(" ONE\t"), find("one"));
    assert_eq!(find(""), find(" \n"));
    assert_ne!(find("one"), find("a"));
}

#[test]
fn names_are_identifiers_in_their_signatures() {
    let full = build_java_repo_map("r", &sources()).expect("map");
    for file in &full.files {
        let named = file
            .classes
            .iter()
            .map(|c| (&c.name, &c.signature))
            .chain(file.methods.iter().map(|m| (&m.name, &m.signature)));
        for (name, signature) in named {
            assert!(signature.contains(name.as_str()));
            assert!(!name.starts_with(|c: char| c.is_ascii_digit()));
            assert!(name.chars().all(|c| c.is_ascii_alphanumeric() || c == '_'));
        }
    }
}

#[test]
fn question_asked_again_is_answered_alike() {
    let mut cache = TsGraphCache::new();
    let ask = |cache: &mut TsGraphCache, symbol: &str, sources: bool| -> (bool, usize) {
        let mut asked: usize = 0;
        let mut action = graph_calls_typescript_lsp(
            cache,
            GraphStep::Start { root: "/w".to_string(), symbol: symbol.to_string(), depth: 1 },
        );
        loop {
            asked += 1;
            let step = match action {
                GraphAction::Finish(result) => return (result.calls.is_empty(), asked),
                GraphAction::Sign { query } => GraphStep::Signed { query, signature: 3 },
                GraphAction::Probe { query, signature } => {
                    GraphStep::Probed { query, signature, has_ts_files: sources }
                }
                GraphAction::List { query, signature } => {
                    GraphStep::Listed { query, signature, candidates: vec![] }
                }
                GraphAction::Refer { .. } => panic!("no candidates were offered"),
            };
            action = graph_calls_typescript_lsp(cache, step);
        }
    };
    assert_eq!(ask(&mut cache, "greet", false), (true, 3));
    assert_eq!(ask(&mut cache, "other", true), (true, 4));
    assert_eq!(ask(&mut cache, "third", false), (true, 3));
    assert_eq!(ask(&mut cache, "  greet\n", true), (true, 2));
}

#[test]
fn framed_message_reads_back() {
    for body in ["{}", "{\"\u{e4}\":\"\u{1f600}\"}", "\r\n\r\n"] {
        let mut stream = frame_message(&body.as_bytes().to_vec());
        stream.extend_from_slice(b"Content-Length: 2\r\n\r\n[]");
        let mut reader = HeaderReader::new();
        let mut at: usize = 0;
        let length = loop {
            let end = at + stream[at..].iter().position(|b| *b == b'\n').expect("line") + 1;
            let line = String::from_utf8(stream[at..end].to_vec()).expect("text");
            at = end;
            match reader.read(Some(&line)) {
                HeaderStep::More => {}
                HeaderStep::Body(n) => break n,
                HeaderStep::Failed(e) => panic!("{e}"),
            }
        };
        assert_eq!(&stream[at..at + length], body.as_bytes());
        assert_eq!(&stream[at + length..], b"Content-Length: 2\r\n\r\n[]");
    }
}

#[test]
fn records_that_tie_keep_their_order() {
    let record = |score: i32, kind: &str| FuzzySymbolMatch {
        symbol: "s".to_string(),
        file: "f".to_string(),
        line: 1,
        signature: String::new(),
        kind: kind.to_string(),
        score,
        match_type: "prefix".to_string(),
    };
    let sorted = stable_sort(vec![
        record(1, "a"),
        record(2, "b"),
        record(1, "c"),
        record(2, "d"),
        record(1, "e"),
    ]);
    let kinds: Vec<&str> = sorted.iter().map(|m| m.kind.as_str()).collect();
    assert_eq!(kinds, vec!["b", "d", "a", "c", "e"]);
}

#[test]
fn enclosing_symbol_depends_on_no_later_line() {
    let ts = TsPatterns::compile().expect("patterns");
    let short = "function a() {\n  b();\n";
    let long = "function a() {\n  b();\n}\nfunction c() {\n}\n";
    assert_eq!(find_enclosing_ts_symbol(short, 1, &ts), Some("a".to_string()));
    assert_eq!(find_enclosing_ts_symbol(long, 1, &ts), Some("a".to_string()));
}

#[test]
fn one_changed_stamp_changes_the_signature() {
    let stamps: Vec<TsStamp> =
        (1..4u64).map(|n| TsStamp { modified_unix_ms: n as u128 * 1_000, size_bytes: n }).collect();
    let signature = compute_ts_workspace_signature(&stamps);
    for i in 0..stamps.len() {
        let mut later = stamps.clone();
        later[i].modified_unix_ms += 1;
        assert_ne!(compute_ts_workspace_signature(&later), signature);
        let mut grown = stamps.clone();
        grown[i].size_bytes += 1;
        assert_ne!(compute_ts_workspace_signature(&grown), signature);
    }
}

#[test]
fn uris_lose_only_what_is_escaped_or_not_ascii() {
    for path in ["/a/b.ts", "/x y/z", "/100%", "/%g1"] {
        assert_eq!(file_uri_to_path(&path_to_file_uri(path), false), path);
    }
    for path in [r"C:\a\b.ts", r"d:\x y\z", r"C:", r"\\?\C:\a", r"\\host\share", r"\a\"] {
        assert_eq!(file_uri_to_path(&path_to_file_uri(path), true), path);
    }
    assert_eq!(file_uri_to_path(&path_to_file_uri("/%41"), false), "/A");
    assert_eq!(file_uri_to_path(&path_to_file_uri("/a "), false), "/a");
    assert_ne!(file_uri_to_path(&path_to_file_uri("/\u{e4}"), false), "/\u{e4}");
    for value in 0..=255u8 {
        let decoded = percent_decode(&format!("%{value:02X}x"));
        assert_eq!(decoded, format!("{}x", value as char));
    }
}

#[test]
fn relative_paths_join_back() {
    let rest = to_rel_or_abs("/work", "/work/a/b");
    assert_eq!(format!("/work/{rest}"), "/work/a/b");
}
