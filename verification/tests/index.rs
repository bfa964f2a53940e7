//! The Java index and its lookups, on a small repository.

use alsp::java::{is_java_source, walked_source, CacheIndex, JavaPatterns, SourceFile, StampedFile};
use alsp::lookup::{delta_of_lengths, find_matches, find_symbol, score_lowered, score_symbol_match};
use alsp::lookup::stable_fuzzy_ordering;
use alsp::{
    build_java_repo_map, build_java_repo_map_incremental, lookup_java_symbol,
    lookup_java_symbol_fuzzy, FuzzySymbolMatch, JavaRepoIndexCache,
};
use std::cmp::Ordering;

const ROOT: &str = "../../../fixtures/java-sample";

const NAME_SERVICE: &str = "package com.acme;\n\npublic class NameService {\n    public String normalizeName(String input) {\n        if (input == null) {\n            return \"\";\n        }\n        return input.trim().toLowerCase();\n    }\n}\n";

const NAME_SERVICE_TEST: &str = "package com.acme;\n\nclass ServiceNameTest {\n    void trimsInput() {\n        for (int i = 0; i < 3; i++) {\n        }\n    }\n}\n";

fn sample() -> Vec<SourceFile> {
    let files = [
        (r"src\main\java\com\acme\NameService.java", NAME_SERVICE),
        (r"src\test\java\com\acme\ServiceNameTest.java", NAME_SERVICE_TEST),
        (r"src\main\java\com\acme\package-info.java", "package com.acme;\n"),
    ];
    files
        .iter()
        .map(|(path, content)| walked_source(ROOT, &format!("{ROOT}/{path}"), content.to_string()))
        .collect()
}

fn stamped(stamp: u128) -> Vec<StampedFile> {
    sample()
        .into_iter()
        .map(|s| StampedFile {
            size_bytes: s.content.len() as u64,
            modified_unix_ms: stamp,
            path: s.path,
            content: s.content,
        })
        .collect()
}

#[test]
fn should_build_repo_map_for_java_fixture() {
    let map = build_java_repo_map(ROOT, &sample()).expect("repo map build failed");
    assert!(!map.files.is_empty());
    let joined = format!("{:?}", map.to_json());
    assert!(joined.contains("NameService"));
    assert!(joined.contains("normalizeName"));
}

#[test]
fn should_lookup_method_symbol_for_java_fixture() {
    let hit = lookup_java_symbol(ROOT, &sample(), "normalizeName")
        .expect("lookup should not fail")
        .expect("symbol should exist");
    assert_eq!(hit.kind, "method");
    assert_eq!(hit.file, r"src\main\java\com\acme\NameService.java");
    assert_eq!(hit.line, 4);
}

#[test]
fn should_lookup_class_symbol_for_java_fixture() {
    let hit = lookup_java_symbol(ROOT, &sample(), "NameService")
        .expect("lookup should not fail")
        .expect("symbol should exist");
    assert_eq!(hit.kind, "class");
    assert_eq!(hit.file, r"src\main\java\com\acme\NameService.java");
    assert_eq!(hit.line, 3);
}

#[test]
fn should_return_none_for_unknown_symbol() {
    let hit =
        lookup_java_symbol(ROOT, &sample(), "NotExistingSymbol").expect("lookup should not fail");
    assert!(hit.is_none());
}

#[test]
fn should_reuse_unchanged_files_in_incremental_mode() {
    let first = build_java_repo_map_incremental(ROOT, &stamped(7), None).expect("first build");
    assert!(first.stats.rebuilt_files > 0);
    let second = build_java_repo_map_incremental(ROOT, &stamped(7), Some(&first.cache))
        .expect("second build");
    assert_eq!(second.stats.rebuilt_files, 0);
    assert!(second.stats.reused_files >= 2);
}

#[test]
fn should_rebuild_changed_file_in_incremental_mode() {
    let path = "src/main/java/com/acme/NameService.java".to_string();
    let before = "package com.acme;\npublic class NameService {\npublic String normalizeName(String input) {\nreturn input;\n}\n}\n";
    let after = "package com.acme;\npublic class NameService {\npublic String normalizeName(String input) {\nreturn input.trim();\n}\n}\n";
    let file = |content: &str, stamp: u128| {
        vec![StampedFile {
            path: path.clone(),
            modified_unix_ms: stamp,
            size_bytes: content.len() as u64,
            content: content.to_string(),
        }]
    };
    let first =
        build_java_repo_map_incremental("java-sample", &file(before, 100), None).expect("first build");
    assert_eq!(first.stats.rebuilt_files, 1);
    let second =
        build_java_repo_map_incremental("java-sample", &file(after, 120), Some(&first.cache))
            .expect("second build");
    assert_eq!(second.stats.rebuilt_files, 1);
    assert_eq!(second.stats.reused_files, 0);
}

#[test]
fn fuzzy_lookup_should_prioritize_prefix_over_contains() {
    let hits = lookup_java_symbol_fuzzy(ROOT, &sample(), "Name", 10).expect("fuzzy lookup");
    assert!(!hits.is_empty());
    assert_eq!(hits[0].symbol, "NameService");
    assert_eq!(hits[0].match_type, "prefix");
}

#[test]
fn fuzzy_lookup_should_apply_limit_and_stable_sort() {
    let first = lookup_java_symbol_fuzzy(ROOT, &sample(), "Name", 1).expect("first fuzzy");
    let second = lookup_java_symbol_fuzzy(ROOT, &sample(), "Name", 1).expect("second fuzzy");
    assert_eq!(first.len(), 1);
    assert_eq!(second.len(), 1);
    assert_eq!(first[0].symbol, second[0].symbol);
    assert_eq!(first[0].file, second[0].file);
}

#[test]
fn fuzzy_lookup_should_return_empty_for_unknown_symbol() {
    let hits = lookup_java_symbol_fuzzy(ROOT, &sample(), "TotallyUnknownKeyword", 10)
        .expect("fuzzy lookup");
    assert!(hits.is_empty());
}

#[test]
fn map_leaves_out_files_that_declare_nothing() {
    let map = build_java_repo_map(ROOT, &sample()).expect("map");
    assert_eq!(map.root, ROOT);
    assert_eq!(map.language, "java");
    assert_eq!(map.files.len(), 2);
    let again = build_java_repo_map_incremental(ROOT, &stamped(1), None).expect("build");
    assert_eq!(again.map.files.len(), 3);
    assert_eq!(again.stats.scanned_files, 3);
}

#[test]
fn signatures_are_lines_without_white_space_around_them() {
    let map = build_java_repo_map(ROOT, &sample()).expect("map");
    let file = &map.files[0];
    assert_eq!(file.classes.len(), 1);
    assert_eq!(file.classes[0].signature, "public class NameService {");
    assert_eq!(file.methods.len(), 1);
    assert_eq!(file.methods[0].signature, "public String normalizeName(String input) {");
    assert_eq!(file.methods[0].line, 4);
}

#[test]
fn control_flow_is_no_method() {
    let content = "class A {\n  int run(int x) {\n    else if (x) {\n    }\n    do while (x) {\n    }\n    x for (y) {\n    x switch (y) {\n    x catch (y) {\n  }\n}\n";
    let java = JavaPatterns::compile().expect("patterns");
    let file = alsp::java::parse_java_file("A.java", content, &java);
    let names: Vec<&str> = file.methods.iter().map(|m| m.name.as_str()).collect();
    assert_eq!(names, vec!["run"]);
    assert_eq!(file.path, "A.java");
}

#[test]
fn several_kinds_of_types_are_classes() {
    let content = "interface Shape {}\r\n  enum Color { RED }\r\n// class in a comment\r\nint subclass = 1;\n";
    let java = JavaPatterns::compile().expect("patterns");
    let file = alsp::java::parse_java_file("T.java", content, &java);
    let found: Vec<(String, usize)> =
        file.classes.iter().map(|c| (c.name.clone(), c.line)).collect();
    assert_eq!(
        found,
        vec![("Shape".to_string(), 1), ("Color".to_string(), 2), ("in".to_string(), 3)]
    );
    assert_eq!(file.classes[1].signature, "enum Color { RED }");
}

#[test]
fn class_goes_before_method_of_the_same_name() {
    let sources = vec![
        SourceFile {
            path: "a.java".to_string(),
            content: "  void Same(int x) {\n  }\nclass Same {\n".to_string(),
        },
        SourceFile { path: "b.java".to_string(), content: "class Same {\n".to_string() },
    ];
    let hit = lookup_java_symbol("r", &sources, "Same").expect("lookup").expect("found");
    assert_eq!((hit.file.as_str(), hit.line, hit.kind.as_str()), ("a.java", 3, "class"));
    let map = build_java_repo_map("r", &sources).expect("map");
    assert_eq!(find_symbol(&map, "Same").expect("found").file, "a.java");
    assert!(find_symbol(&map, "same").is_none());
}

#[test]
fn stamps_decide_what_is_reused() {
    let first = build_java_repo_map_incremental(ROOT, &stamped(7), None).expect("build");
    let mut files = stamped(7);
    files[0].content = "class Other {}\n".to_string();
    files[1].modified_unix_ms = 8;
    files[2].size_bytes += 1;
    let second =
        build_java_repo_map_incremental(ROOT, &files, Some(&first.cache)).expect("build");
    assert_eq!(second.stats.scanned_files, 3);
    assert_eq!(second.stats.reused_files, 1);
    assert_eq!(second.stats.rebuilt_files, 2);
    assert_eq!(second.map.files[0].classes[0].name, "NameService");
    assert_eq!(second.cache.files[1].modified_unix_ms, 8);
    let index = CacheIndex::new(Some(&first.cache));
    let path = r"src\main\java\com\acme\NameService.java";
    let size = NAME_SERVICE.len() as u64;
    assert!(index.find(path, 7, size).is_some());
    assert!(index.find(path, 8, size).is_none());
    assert!(index.find(path, 7, size + 1).is_none());
    assert!(index.find("elsewhere", 7, size).is_none());
    assert!(CacheIndex::new(None).find(path, 7, size).is_none());
    assert!(CacheIndex::new(Some(&JavaRepoIndexCache::default())).find(path, 7, size).is_none());
}

#[test]
fn last_entry_of_a_path_counts() {
    let first = build_java_repo_map_incremental(ROOT, &stamped(7), None).expect("build");
    let mut cache = first.cache.clone();
    let mut twin = cache.files[0].clone();
    twin.modified_unix_ms = 9;
    cache.files.push(twin);
    let index = CacheIndex::new(Some(&cache));
    let path = r"src\main\java\com\acme\NameService.java";
    let size = NAME_SERVICE.len() as u64;
    assert!(index.find(path, 7, size).is_none());
    assert!(index.find(path, 9, size).is_some());
}

#[test]
fn only_the_java_extension_is_a_java_source() {
    assert!(is_java_source(Some("java")));
    assert!(!is_java_source(Some("Java")));
    assert!(!is_java_source(Some("kt")));
    assert!(!is_java_source(None));
}

#[test]
fn scores_are_exact() {
    assert_eq!(score_symbol_match("NameService", "name"), Some((9_993, "prefix".to_string())));
    assert_eq!(score_symbol_match("normalizeName", "name"), Some((991, "contains".to_string())));
    assert_eq!(score_symbol_match("Name", "name"), Some((10_000, "prefix".to_string())));
    assert_eq!(score_symbol_match("Service", "name"), None);
    assert_eq!(score_symbol_match("\u{c4}PFEL", "\u{e4}pfel"), Some((10_000, "prefix".to_string())));
    assert_eq!(score_lowered("x\u{e4}", "x"), Some((9_998, "prefix".to_string())));
    assert_eq!(score_lowered("NAME", "name"), None);
    assert_eq!(delta_of_lengths(3, 10), 7);
    assert_eq!(delta_of_lengths(10, 3), 7);
}

#[test]
fn prefix_far_longer_than_the_needle_falls_behind() {
    let long = "name".to_string() + &"x".repeat(9_010);
    let (prefix, _) = score_symbol_match(&long, "name").expect("matches");
    let (contains, _) = score_symbol_match("aname", "name").expect("matches");
    assert_eq!(prefix, 990);
    assert_eq!(contains, 999);
}

fn found(symbol: &str, file: &str, line: usize, score: i32) -> FuzzySymbolMatch {
    FuzzySymbolMatch {
        symbol: symbol.to_string(),
        file: file.to_string(),
        line,
        signature: String::new(),
        kind: "class".to_string(),
        score,
        match_type: "prefix".to_string(),
    }
}

#[test]
fn matches_are_ordered_by_score_symbol_file_and_line() {
    let a = found("a", "f", 1, 10);
    assert_eq!(stable_fuzzy_ordering(&a, &found("a", "f", 1, 9)), Ordering::Less);
    assert_eq!(stable_fuzzy_ordering(&a, &found("a", "f", 1, 11)), Ordering::Greater);
    assert_eq!(stable_fuzzy_ordering(&a, &found("b", "f", 1, 10)), Ordering::Less);
    assert_eq!(stable_fuzzy_ordering(&a, &found("a", "e", 1, 10)), Ordering::Greater);
    assert_eq!(stable_fuzzy_ordering(&a, &found("a", "f", 2, 10)), Ordering::Less);
    assert_eq!(stable_fuzzy_ordering(&a, &found("a", "f", 1, 10)), Ordering::Equal);
}

#[test]
fn fuzzy_lookup_orders_limits_and_deduplicates() {
    let sources = vec![SourceFile {
        path: "a.java".to_string(),
        content: "class Name {\nclass Name {\nclass NameTwo {\nclass MyName {\n  void name(int x) {\n"
            .to_string(),
    }];
    let hits = lookup_java_symbol_fuzzy("r", &sources, "  NAME \t", 10).expect("lookup");
    let seen: Vec<(String, usize, String)> =
        hits.iter().map(|h| (h.symbol.clone(), h.line, h.kind.clone())).collect();
    assert_eq!(
        seen,
        vec![
            ("Name".to_string(), 1, "class".to_string()),
            ("name".to_string(), 5, "method".to_string()),
            ("NameTwo".to_string(), 3, "class".to_string()),
            ("MyName".to_string(), 4, "class".to_string()),
        ]
    );
    let two = lookup_java_symbol_fuzzy("r", &sources, "name", 2).expect("lookup");
    assert_eq!(two.len(), 2);
    assert_eq!(two[1].symbol, "name");
    assert!(lookup_java_symbol_fuzzy("r", &sources, "name", 0).expect("lookup").is_empty());
    assert!(lookup_java_symbol_fuzzy("r", &sources, " \n", 10).expect("lookup").is_empty());
    let map = build_java_repo_map("r", &sources).expect("map");
    assert_eq!(find_matches(&map, "two", 5).len(), 1);
}

#[test]
fn walked_sources_are_relative_to_the_root() {
    let inside = walked_source("/work/app", "/work/app/src/A.java", "class A {}".to_string());
    assert_eq!(inside.path, "src/A.java");
    assert_eq!(inside.content, "class A {}");
    let here = walked_source(".", "./src/A.java", String::new());
    assert_eq!(here.path, "src/A.java");
    let outside = walked_source("/work/app", "/elsewhere/B.java", String::new());
    assert_eq!(outside.path, "/elsewhere/B.java");
}
