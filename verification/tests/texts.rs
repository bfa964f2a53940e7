//! Text primitives, paths, JSON values and sorted maps, against what the standard library does.

use alsp::json::Json;
use alsp::paths::{file_uri_to_path, path_to_file_uri, percent_decode, rel_or_abs, to_rel_or_abs};
use alsp::rank::{compare_text, is_before, stable_sort};
use alsp::text::{
    chars_of, contains, eq_ignore_ascii_case, is_whitespace, lines, nth_word_1, parse_usize,
    replace_char, same_text, split_before, starts_with, strip_prefix, to_ascii_lowercase,
    to_decimal, trim,
};
use alsp::textmap::TextMap;

const SAMPLES: [&str; 14] = [
    "",
    " ",
    "a",
    " a b ",
    "\t\u{a0}x\u{3000}\n",
    "one\ntwo\r\nthree",
    "\n\n",
    "tail\r",
    "tail\r\n",
    "GET /health HTTP/1.1",
    "ABC\u{c4}xyz",
    "aaab",
    "\u{1f600}z",
    "a?b?c",
];

#[test]
fn white_space_is_what_unicode_says() {
    for n in 0..=0x10FFFFu32 {
        if let Some(c) = char::from_u32(n) {
            assert_eq!(is_whitespace(c), c.is_whitespace());
        }
    }
}

#[test]
fn primitives_agree_with_the_standard_library() {
    for s in SAMPLES {
        assert_eq!(trim(s), s.trim());
        assert_eq!(lines(s), s.lines().collect::<Vec<&str>>());
        assert_eq!(to_ascii_lowercase(s), s.to_ascii_lowercase());
        assert_eq!(nth_word_1(s), s.split_whitespace().nth(1));
        assert_eq!(chars_of(s), s.chars().collect::<Vec<char>>());
        assert_eq!(split_before(s, '?'), s.split('?').next().unwrap_or(s));
        assert_eq!(replace_char(s, 'a', '\u{e4}'), s.replace('a', "\u{e4}"));
        for t in SAMPLES {
            assert_eq!(same_text(s, t), s == t);
            assert_eq!(starts_with(s, t), s.starts_with(t));
            assert_eq!(contains(s, t), s.contains(t));
            assert_eq!(strip_prefix(s, t), s.strip_prefix(t));
            assert_eq!(compare_text(s, t), s.cmp(t));
            assert_eq!(is_before(s, t), s < t);
            assert_eq!(eq_ignore_ascii_case(s, t), s.eq_ignore_ascii_case(t));
        }
    }
    assert!(contains("aaab", "aab"));
}

#[test]
fn numbers_are_written_and_read() {
    for n in [0u64, 9, 10, 101, 65_535, u64::MAX] {
        assert_eq!(to_decimal(n), n.to_string());
    }
    for s in ["0", "007", "+5", "+", "", "-1", "1 ", "18446744073709551615", "18446744073709551616", "x"] {
        assert_eq!(parse_usize(s), s.parse::<usize>().ok());
    }
}

#[test]
fn escapes_are_decoded_by_bytes() {
    assert_eq!(percent_decode("/a%20b"), "/a b");
    assert_eq!(percent_decode("%2f%2F"), "//");
    assert_eq!(percent_decode("100%"), "100%");
    assert_eq!(percent_decode("%4"), "%4");
    assert_eq!(percent_decode("%41"), "A");
    assert_eq!(percent_decode("%zz"), "%zz");
    assert_eq!(percent_decode("%%41"), "%A");
    assert_eq!(percent_decode("\u{e4}"), "\u{c3}\u{a4}");
    assert_eq!(percent_decode("%C3%A4"), "\u{c3}\u{a4}");
}

#[test]
fn file_uris_read_back() {
    assert_eq!(path_to_file_uri("/work/a.ts"), "file:///work/a.ts");
    assert_eq!(file_uri_to_path("file:///work/a.ts", false), "/work/a.ts");
    assert_eq!(path_to_file_uri(r"C:\work\a.ts"), "file:///C:/work/a.ts");
    assert_eq!(file_uri_to_path("file:///C:/work/a.ts", true), r"C:\work\a.ts");
    assert_eq!(file_uri_to_path(" file:///a%20b ", false), "/a b");
    assert_eq!(file_uri_to_path("/plain", false), "/plain");
    assert_eq!(file_uri_to_path("/plain/x", true), r"\plain\x");
    assert_eq!(path_to_file_uri("rel"), "file:///rel");
    assert_eq!(path_to_file_uri(""), "file:///");
}

#[test]
fn paths_below_a_root_are_relative() {
    assert_eq!(to_rel_or_abs("/work", "/work/src/a.ts"), "src/a.ts");
    assert_eq!(to_rel_or_abs("work", "work/a"), "a");
    assert_eq!(to_rel_or_abs("/work", "/workshop/a"), "/workshop/a");
    assert_eq!(to_rel_or_abs("/work", "/work"), "");
    assert_eq!(to_rel_or_abs(".", "./src/A.java"), "src/A.java");
    assert_eq!(to_rel_or_abs(".", "src/A.java"), "src/A.java");
    assert_eq!(to_rel_or_abs(".", "../A.java"), "../A.java");
    assert_eq!(to_rel_or_abs("./", "./src/A.java"), "src/A.java");
    assert_eq!(to_rel_or_abs("..", "../src/A.java"), "src/A.java");
    assert_eq!(to_rel_or_abs("../../../fixtures/x", "../../../fixtures/x/A.java"), "A.java");
    assert_eq!(to_rel_or_abs("/work/", "/work/.hidden/a b.ts"), ".hidden/a b.ts");
    assert_eq!(to_rel_or_abs("/work/", "/work"), "");
    assert_eq!(to_rel_or_abs("/", "/a/b"), "a/b");
    assert_eq!(to_rel_or_abs("/", "a/b"), "a/b");
    assert_eq!(to_rel_or_abs("", "/a/b"), "/a/b");
    assert_eq!(to_rel_or_abs("", "./a"), "./a");
    assert_eq!(to_rel_or_abs("\u{e4} b", "\u{e4} b/\u{f6}.java"), "\u{f6}.java");
    assert_eq!(to_rel_or_abs("./a", "./a/b"), "b");
    assert_eq!(to_rel_or_abs("./a", "a/b"), "a/b");
    assert_eq!(to_rel_or_abs("a", "./a/b"), "./a/b");
    for root in ["a//b", "a/./b", "a/.", "./.", "a/b//", "a/..", "/.", "/a//"] {
        let joined =
            if root.ends_with('/') { format!("{root}x/y") } else { format!("{root}/x/y") };
        assert_eq!(to_rel_or_abs(root, &joined), "x/y");
    }
    assert_eq!(to_rel_or_abs("/work", "/work/a:b/c:d.ts"), "a:b/c:d.ts");
    assert_eq!(to_rel_or_abs("ab:c", "ab:c/d"), "d");
    assert_eq!(to_rel_or_abs("/work", "/else:where/x"), "/else:where/x");
    for outside in ["b//c", "./a/b", "/a/b", "../a", "ab/c", "", "b/./a"] {
        assert_eq!(to_rel_or_abs("a", outside), outside);
    }
    for (root, path) in
        [("a", "a//b"), ("a//", "a/b"), ("./a/.", "././a/b"), ("/", "/./b"), ("", "b")]
    {
        assert_eq!(to_rel_or_abs(root, path), "b");
    }
    for root in ["a", "..", ".", r"C:\work", "../x/java-sample", r"a\."] {
        let path = format!(r"{root}\src\A.java");
        let shown = to_rel_or_abs(root, &path);
        assert!(shown == path || shown == r"src\A.java");
    }
    assert_eq!(rel_or_abs(None, "p"), "p");
    assert_eq!(rel_or_abs(Some("q".to_string()), "p"), "q");
}

#[test]
fn sorting_is_stable_and_ordered() {
    let sorted = stable_sort(vec!["b".to_string(), "a".to_string(), "ab".to_string(), String::new()]);
    assert_eq!(sorted, vec!["", "a", "ab", "b"]);
    let none: Vec<String> = Vec::new();
    assert!(stable_sort(none).is_empty());
    let many: Vec<String> = (0..200u32).map(|n| (n * 7919 % 200).to_string()).collect();
    let mut expected = many.clone();
    expected.sort();
    assert_eq!(stable_sort(many), expected);
}

#[test]
fn maps_keep_their_keys_in_order() {
    let mut map = TextMap::new();
    assert_eq!(map.len(), 0);
    for (i, key) in ["m", "a", "z", "m", "b"].iter().enumerate() {
        map.insert(key.to_string(), i);
    }
    assert_eq!(map.len(), 4);
    let keys: Vec<&str> = (0..map.len()).map(|i| map.key_at(i)).collect();
    assert_eq!(keys, vec!["a", "b", "m", "z"]);
    assert_eq!(map.get("m"), Some(&3));
    assert_eq!(*map.value_at(0), 1);
    assert_eq!(map.get("q"), None);
}

#[test]
fn json_values_are_looked_into() {
    let v = Json::object()
        .with("t", Json::text("x"))
        .with("n", Json::signed(-4))
        .with("p", Json::signed(4))
        .with("b", Json::Bool(true))
        .with("a", Json::array(vec![Json::Null]));
    assert_eq!(v.text_at("t"), Some("x"));
    assert_eq!(v.text_at("p"), None);
    assert_eq!(v.number_at("p"), Some(4));
    assert_eq!(v.number_at("n"), None);
    assert!(v.flag_at("b"));
    assert!(!v.flag_at("t"));
    assert!(!v.flag_at("missing"));
    assert_eq!(v.get("a").and_then(|a| a.as_array()).map(|a| a.len()), Some(1));
    assert!(Json::Null.get("t").is_none());
    assert!(matches!(Json::text_or_null(None), Json::Null));
    assert!(matches!(v.take("b"), Some(Json::Bool(true))));
}
