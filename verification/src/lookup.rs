//! Exact and fuzzy lookup of Java symbols.

use crate::java;
use crate::java::SourceFile;
use crate::laws::searching;
use crate::patterns::PatternError;
use crate::rank;
use crate::rank::Ranked;
use crate::symbols;
use crate::symbols::{ClassSymbol, FuzzySymbolMatch, MethodSymbol, RepoMap, SymbolLocation};
use crate::text;
use std::cmp::Ordering;
use vstd::prelude::*;

verus! {

broadcast use vstd::string::group_string_axioms;

// ---------------------------------------------------------------------------
// Exact lookup
// ---------------------------------------------------------------------------

/// The first of `all` that is named `name`.
pub open spec fn first_named(all: Seq<symbols::SymbolView>, name: Seq<char>) -> Option<
    symbols::SymbolView,
>
    decreases all.len(),
{
    if all.len() == 0 {
        None
    } else if all[0].name == name {
        Some(all[0])
    } else {
        first_named(all.skip(1), name)
    }
}

/// The location of a symbol.
pub open spec fn location(
    file: Seq<char>,
    symbol: symbols::SymbolView,
    kind: Seq<char>,
) -> symbols::LocationView {
    symbols::LocationView {
        symbol: symbol.name,
        file,
        line: symbol.line,
        signature: symbol.signature,
        kind,
    }
}

/// Where `file` declares `name`: as a class, or else as a method.
pub open spec fn declared_in(file: symbols::FileView, name: Seq<char>) -> Option<
    symbols::LocationView,
> {
    match first_named(file.classes, name) {
        Some(c) => Some(location(file.path, c, "class"@)),
        None => match first_named(file.methods, name) {
            Some(m) => Some(location(file.path, m, "method"@)),
            None => None,
        },
    }
}

/// Where the first of `files` that declares `name` declares it.
pub open spec fn declared(files: Seq<symbols::FileView>, name: Seq<char>) -> Option<
    symbols::LocationView,
>
    decreases files.len(),
{
    if files.len() == 0 {
        None
    } else {
        match declared_in(files[0], name) {
            Some(loc) => Some(loc),
            None => declared(files.skip(1), name),
        }
    }
}

fn first_class(all: &Vec<ClassSymbol>, name: &str) -> (r: Option<usize>)
    ensures
        match r {
            Some(i) => i < all@.len() && first_named(rank::views(all@), name@) == Some(
                all@[i as int]@,
            ),
            None => first_named(rank::views(all@), name@) is None,
        },
{
    let ghost s = rank::views(all@);
    let mut i: usize = 0;
    assert(s.skip(0) =~= s);
    while i < all.len()
        invariant
            i <= all@.len(),
            s == rank::views(all@),
            first_named(s, name@) == first_named(s.skip(i as int), name@),
        decreases all@.len() - i,
    {
        if text::same_text(all[i].name.as_str(), name) {
            return Some(i);
        }
        assert(s.skip(i as int).skip(1) =~= s.skip(i + 1));
        i += 1;
    }
    None
}

fn first_method(all: &Vec<MethodSymbol>, name: &str) -> (r: Option<usize>)
    ensures
        match r {
            Some(i) => i < all@.len() && first_named(rank::views(all@), name@) == Some(
                all@[i as int]@,
            ),
            None => first_named(rank::views(all@), name@) is None,
        },
{
    let ghost s = rank::views(all@);
    let mut i: usize = 0;
    assert(s.skip(0) =~= s);
    while i < all.len()
        invariant
            i <= all@.len(),
            s == rank::views(all@),
            first_named(s, name@) == first_named(s.skip(i as int), name@),
        decreases all@.len() - i,
    {
        if text::same_text(all[i].name.as_str(), name) {
            return Some(i);
        }
        assert(s.skip(i as int).skip(1) =~= s.skip(i + 1));
        i += 1;
    }
    None
}

proof fn lemma_first_named(all: Seq<symbols::SymbolView>, name: Seq<char>)
    ensures
        first_named(all, name) matches Some(s) ==> s.name == name && all.contains(s),
    decreases all.len(),
{
    if all.len() > 0 {
        if all[0].name != name {
            lemma_first_named(all.skip(1), name);
            if let Some(s) = first_named(all.skip(1), name) {
                let i = all.skip(1).index_of(s);
                assert(all[i + 1] == s);
            }
        } else {
            assert(all.contains(all[0]));
        }
    }
}

/// Finds where `map` declares `symbol`.
pub fn find_symbol(map: &RepoMap, symbol: &str) -> (r: Option<SymbolLocation>)
    ensures
        match r {
            Some(loc) => declared(map@.files, symbol@) == Some(loc@),
            None => declared(map@.files, symbol@) is None,
        },
{
    let ghost files = map@.files;
    let mut i: usize = 0;
    assert(files.skip(0) =~= files);
    while i < map.files.len()
        invariant
            i <= map.files@.len(),
            files == map@.files,
            declared(files, symbol@) == declared(files.skip(i as int), symbol@),
        decreases map.files@.len() - i,
    {
        let file = &map.files[i];
        assert(files.skip(i as int)[0] == file@);
        proof {
            lemma_first_named(file@.classes, symbol@);
            lemma_first_named(file@.methods, symbol@);
        }
        if let Some(c) = first_class(&file.classes, symbol) {
            return Some(
                SymbolLocation {
                    symbol: symbol.to_string(),
                    file: file.path.clone(),
                    line: file.classes[c].line,
                    signature: file.classes[c].signature.clone(),
                    kind: "class".to_string(),
                },
            );
        }
        if let Some(m) = first_method(&file.methods, symbol) {
            return Some(
                SymbolLocation {
                    symbol: symbol.to_string(),
                    file: file.path.clone(),
                    line: file.methods[m].line,
                    signature: file.methods[m].signature.clone(),
                    kind: "method".to_string(),
                },
            );
        }
        assert(files.skip(i as int).skip(1) =~= files.skip(i + 1));
        i += 1;
    }
    None
}

proof fn lemma_declared_name(files: Seq<symbols::FileView>, name: Seq<char>)
    requires
        java::files_are_named(files),
    ensures
        declared(files, name) is Some ==> text::is_identifier(name),
    decreases files.len(),
{
    if files.len() > 0 {
        let file = files[0];
        assert(java::file_is_named(file));
        lemma_first_named(file.classes, name);
        lemma_first_named(file.methods, name);
        assert forall|i: int| 0 <= i < files.skip(1).len() implies java::file_is_named(
            #[trigger] files.skip(1)[i],
        ) by {
            assert(java::file_is_named(files[i + 1]));
        }
        lemma_declared_name(files.skip(1), name);
    }
}

/// Finds where `sources` declare `symbol`. Only identifiers are declared.
pub fn lookup_java_symbol(root: &str, sources: &Vec<SourceFile>, symbol: &str) -> (r: Result<
    Option<SymbolLocation>,
    PatternError,
>)
    ensures
        r is Ok,
        r matches Ok(found) ==> match found {
            Some(loc) => declared(java::declaring_files(rank::views(sources@)), symbol@) == Some(
                loc@,
            ),
            None => declared(java::declaring_files(rank::views(sources@)), symbol@) is None,
        },
        r matches Ok(Some(loc)) ==> text::is_identifier(symbol@),
{
    match java::build_java_repo_map(root, sources) {
        Ok(map) => {
            proof {
                lemma_declared_name(map@.files, symbol@);
            }
            Ok(find_symbol(&map, symbol))
        },
        Err(e) => Err(e),
    }
}

// ---------------------------------------------------------------------------
// Scores
// ---------------------------------------------------------------------------

/// The number of bytes of `s` in UTF-8.
pub open spec fn byte_len(s: Seq<char>) -> usize {
    vstd::utf8::encode_utf8(s).len() as usize
}

/// The distance of two lengths, in 32-bit arithmetic that wraps around.
pub open spec fn length_delta(a: usize, b: usize) -> i32 {
    let d = (a as i32).wrapping_sub(b as i32);
    if d < 0 {
        0i32.wrapping_sub(d)
    } else {
        d
    }
}

/// The distance of two lengths, in 32-bit arithmetic that wraps around.
pub fn delta_of_lengths(a: usize, b: usize) -> (r: i32)
    ensures
        r == length_delta(a, b),
{
    let d = (#[verifier::truncate] (a as i32)).wrapping_sub(#[verifier::truncate] (b as i32));
    if d < 0 {
        0i32.wrapping_sub(d)
    } else {
        d
    }
}

/// The score of a lowered name against a lowered needle, and the kind of the match: the name
/// begins with the needle, or holds it. Closer lengths score higher.
pub open spec fn fuzzy_score(name: Seq<char>, needle: Seq<char>) -> Option<(i32, Seq<char>)> {
    let delta = length_delta(byte_len(name), byte_len(needle));
    if needle.is_prefix_of(name) {
        Some((10_000i32.wrapping_sub(delta), "prefix"@))
    } else if text::occurs_in(name, needle) {
        Some((1_000i32.wrapping_sub(delta), "contains"@))
    } else {
        None
    }
}

/// What a score stands for.
pub open spec fn score_view(score: Option<(i32, String)>) -> Option<(i32, Seq<char>)> {
    match score {
        Some((n, kind)) => Some((n, kind@)),
        None => None,
    }
}

/// The score of a lowered name against a lowered needle.
pub fn score_lowered(name_lower: &str, needle_lower: &str) -> (r: Option<(i32, String)>)
    ensures
        score_view(r) == fuzzy_score(name_lower@, needle_lower@),
{
    let delta = delta_of_lengths(name_lower.len(), needle_lower.len());
    if text::starts_with(name_lower, needle_lower) {
        return Some((10_000i32.wrapping_sub(delta), "prefix".to_string()));
    }
    if text::contains(name_lower, needle_lower) {
        return Some((1_000i32.wrapping_sub(delta), "contains".to_string()));
    }
    None
}

/// The score of a name against a lowered needle.
pub fn score_symbol_match(candidate: &str, needle_lower: &str) -> (r: Option<(i32, String)>)
    ensures
        score_view(r) == fuzzy_score(text::lowercase(candidate@), needle_lower@),
        text::lowers_as_ascii(candidate@),
{
    let name_lower = text::to_lowercase(candidate);
    score_lowered(name_lower.as_str(), needle_lower)
}

// ---------------------------------------------------------------------------
// The order of matches
// ---------------------------------------------------------------------------

/// How `a` stands to `b` among matches: by score from the highest down, then by symbol, file and
/// line.
pub open spec fn match_order(a: symbols::MatchView, b: symbols::MatchView) -> Ordering {
    if a.score > b.score {
        Ordering::Less
    } else if a.score < b.score {
        Ordering::Greater
    } else if rank::text_order(a.symbol, b.symbol) != Ordering::Equal {
        rank::text_order(a.symbol, b.symbol)
    } else if rank::text_order(a.file, b.file) != Ordering::Equal {
        rank::text_order(a.file, b.file)
    } else if a.line < b.line {
        Ordering::Less
    } else if a.line > b.line {
        Ordering::Greater
    } else {
        Ordering::Equal
    }
}

/// How `a` stands to `b` among matches.
pub fn stable_fuzzy_ordering(a: &FuzzySymbolMatch, b: &FuzzySymbolMatch) -> (r: Ordering)
    ensures
        r == match_order(a@, b@),
{
    if a.score > b.score {
        return Ordering::Less;
    }
    if a.score < b.score {
        return Ordering::Greater;
    }
    match rank::compare_text(a.symbol.as_str(), b.symbol.as_str()) {
        Ordering::Equal => {},
        other => {
            return other;
        },
    }
    match rank::compare_text(a.file.as_str(), b.file.as_str()) {
        Ordering::Equal => {},
        other => {
            return other;
        },
    }
    if a.line < b.line {
        Ordering::Less
    } else if a.line > b.line {
        Ordering::Greater
    } else {
        Ordering::Equal
    }
}

impl Ranked for FuzzySymbolMatch {
    open spec fn no_later(a: symbols::MatchView, b: symbols::MatchView) -> bool {
        match_order(a, b) != Ordering::Greater
    }

    proof fn lemma_total(a: symbols::MatchView, b: symbols::MatchView) {
        rank::lemma_text_order_flips(a.symbol, b.symbol);
        rank::lemma_text_order_flips(a.file, b.file);
    }

    proof fn lemma_transitive(
        a: symbols::MatchView,
        b: symbols::MatchView,
        c: symbols::MatchView,
    ) {
        rank::lemma_text_order_equal(a.symbol, b.symbol);
        rank::lemma_text_order_equal(b.symbol, c.symbol);
        rank::lemma_text_order_equal(a.symbol, c.symbol);
        rank::lemma_text_order_equal(a.file, b.file);
        rank::lemma_text_order_equal(b.file, c.file);
        rank::lemma_text_order_equal(a.file, c.file);
        if rank::text_before(a.symbol, b.symbol) && rank::text_before(b.symbol, c.symbol) {
            rank::lemma_text_order_transitive(a.symbol, b.symbol, c.symbol);
        }
        if rank::text_before(a.file, b.file) && rank::text_before(b.file, c.file) {
            rank::lemma_text_order_transitive(a.file, b.file, c.file);
        }
    }

    fn is_no_later(&self, other: &Self) -> (r: bool) {
        match stable_fuzzy_ordering(self, other) {
            Ordering::Greater => false,
            _ => true,
        }
    }
}

// ---------------------------------------------------------------------------
// Fuzzy lookup
// ---------------------------------------------------------------------------

/// Whether `found` holds a match for the same name, of the same kind, in the same file.
pub open spec fn already_found(
    found: Seq<symbols::MatchView>,
    file: Seq<char>,
    name: Seq<char>,
    kind: Seq<char>,
) -> bool {
    exists|i: int|
        0 <= i < found.len() && (#[trigger] found[i]).file == file && found[i].symbol == name
            && found[i].kind == kind
}

/// `found` with `symbol`, if it matches the needle and was not found before.
pub open spec fn add_symbol(
    found: Seq<symbols::MatchView>,
    file: Seq<char>,
    symbol: symbols::SymbolView,
    kind: Seq<char>,
    needle: Seq<char>,
) -> Seq<symbols::MatchView> {
    match fuzzy_score(text::lowercase(symbol.name), needle) {
        Some((score, match_type)) => if already_found(found, file, symbol.name, kind) {
            found
        } else {
            found.push(
                symbols::MatchView {
                    symbol: symbol.name,
                    file,
                    line: symbol.line,
                    signature: symbol.signature,
                    kind,
                    score,
                    match_type,
                },
            )
        },
        None => found,
    }
}

/// `found` with those of `all` that match the needle.
pub open spec fn add_symbols(
    found: Seq<symbols::MatchView>,
    file: Seq<char>,
    all: Seq<symbols::SymbolView>,
    kind: Seq<char>,
    needle: Seq<char>,
) -> Seq<symbols::MatchView>
    decreases all.len(),
{
    if all.len() == 0 {
        found
    } else {
        add_symbol(
            add_symbols(found, file, all.drop_last(), kind, needle),
            file,
            all.last(),
            kind,
            needle,
        )
    }
}

/// The symbols of `files` that match the needle, classes of a file before its methods, each name
/// once per file and kind.
pub open spec fn matches_in(files: Seq<symbols::FileView>, needle: Seq<char>) -> Seq<
    symbols::MatchView,
>
    decreases files.len(),
{
    if files.len() == 0 {
        Seq::empty()
    } else {
        let before = matches_in(files.drop_last(), needle);
        let file = files.last();
        let classes = add_symbols(before, file.path, file.classes, "class"@, needle);
        add_symbols(classes, file.path, file.methods, "method"@, needle)
    }
}

/// At most `limit` of the symbols of `files` that match the needle, the best ones first.
pub open spec fn best_matches(
    files: Seq<symbols::FileView>,
    needle: Seq<char>,
    limit: nat,
) -> Seq<symbols::MatchView> {
    let all = rank::ranked::<FuzzySymbolMatch>(matches_in(files, needle));
    if all.len() > limit {
        all.take(limit as int)
    } else {
        all
    }
}

/// What a fuzzy lookup looks for: the text without white space around it, lowered.
pub open spec fn needle_of(symbol: Seq<char>) -> Seq<char> {
    text::lowercase(text::trimmed(symbol))
}

/// What a fuzzy lookup of `symbol` finds in `files`: nothing for white space.
pub open spec fn fuzzy_matches(
    files: Seq<symbols::FileView>,
    symbol: Seq<char>,
    limit: nat,
) -> Seq<symbols::MatchView> {
    if needle_of(symbol).len() == 0 {
        Seq::empty()
    } else {
        best_matches(files, needle_of(symbol), limit)
    }
}

/// The match of a symbol that stands at `loc`, with the given score and kind of match.
pub open spec fn match_at(
    loc: symbols::LocationView,
    score: i32,
    match_type: Seq<char>,
) -> symbols::MatchView {
    symbols::MatchView {
        symbol: loc.symbol,
        file: loc.file,
        line: loc.line,
        signature: loc.signature,
        kind: loc.kind,
        score,
        match_type,
    }
}

/// Whether what stands at `loc` is found with the score ten thousand, which is the first score and
/// the highest.
pub open spec fn is_top_match(items: Seq<symbols::MatchView>, loc: symbols::LocationView) -> bool {
    &&& items.contains(match_at(loc, 10_000, "prefix"@))
    &&& items[0].score == 10_000
    &&& forall|i: int| 0 <= i < items.len() ==> (#[trigger] items[i]).score <= 10_000
}

/// Whether no two of `files` are at the same path.
pub open spec fn file_paths_differ(files: Seq<symbols::FileView>) -> bool {
    forall|i: int, j: int|
        0 <= i < j < files.len() ==> (#[trigger] files[i]).path != (#[trigger] files[j]).path
}

/// Whether the names of `all` are short enough for their lengths to be an `i32`.
pub open spec fn names_are_short(all: Seq<symbols::SymbolView>) -> bool {
    forall|i: int| 0 <= i < all.len() ==> (#[trigger] all[i]).name.len() <= i32::MAX
}

/// Whether the names of the symbols of `files` are short enough for their lengths to be an `i32`.
pub open spec fn files_have_short_names(files: Seq<symbols::FileView>) -> bool {
    forall|i: int|
        0 <= i < files.len() ==> names_are_short((#[trigger] files[i]).classes) && names_are_short(
            files[i].methods,
        )
}

/// Whether the names of all that was found are lowered as ASCII is.
pub open spec fn all_lower_as_ascii(found: Seq<symbols::MatchView>) -> bool {
    forall|i: int| 0 <= i < found.len() ==> text::lowers_as_ascii((#[trigger] found[i]).symbol)
}

fn is_already_found(found: &Vec<FuzzySymbolMatch>, file: &str, name: &str, kind: &str) -> (r: bool)
    ensures
        r == already_found(rank::views(found@), file@, name@, kind@),
{
    let ghost s = rank::views(found@);
    let mut i: usize = 0;
    while i < found.len()
        invariant
            i <= found@.len(),
            s == rank::views(found@),
            forall|j: int|
                0 <= j < i ==> !((#[trigger] s[j]).file == file@ && s[j].symbol == name@
                    && s[j].kind == kind@),
        decreases found@.len() - i,
    {
        let m = &found[i];
        assert(s[i as int] == m@);
        if text::same_text(m.symbol.as_str(), name) && text::same_text(m.kind.as_str(), kind)
            && text::same_text(m.file.as_str(), file) {
            return true;
        }
        i += 1;
    }
    false
}

fn offer(
    found: &mut Vec<FuzzySymbolMatch>,
    file: &str,
    name: &String,
    signature: &String,
    line: usize,
    kind: &str,
    needle: &str,
)
    ensures
        rank::views(final(found)@) == add_symbol(
            rank::views(old(found)@),
            file@,
            (symbols::SymbolView { name: name@, signature: signature@, line }),
            kind@,
            needle@,
        ),
        all_lower_as_ascii(rank::views(old(found)@)) ==> all_lower_as_ascii(
            rank::views(final(found)@),
        ),
{
    if let Some((score, match_type)) = score_symbol_match(name.as_str(), needle) {
        if !is_already_found(found, file, name.as_str(), kind) {
            let ghost before = found@;
            found.push(
                FuzzySymbolMatch {
                    symbol: name.clone(),
                    file: file.to_string(),
                    line,
                    signature: signature.clone(),
                    kind: kind.to_string(),
                    score,
                    match_type,
                },
            );
            assert(rank::views(found@) =~= rank::views(before).push(found@.last()@));
        }
    }
}

/// Finds at most `limit` symbols of `map` that match a lowered needle, the best ones first.
pub fn find_matches(map: &RepoMap, needle_lower: &str, limit: usize) -> (r: Vec<FuzzySymbolMatch>)
    ensures
        rank::views(r@) == best_matches(map@.files, needle_lower@, limit as nat),
        matches_in(map@.files, needle_lower@).len() <= usize::MAX,
        all_lower_as_ascii(matches_in(map@.files, needle_lower@)),
{
    let ghost files = map@.files;
    let mut found: Vec<FuzzySymbolMatch> = Vec::new();
    let mut i: usize = 0;
    assert(rank::views(found@) =~= Seq::empty());
    while i < map.files.len()
        invariant
            i <= map.files@.len(),
            files == map@.files,
            rank::views(found@) == matches_in(files.take(i as int), needle_lower@),
            all_lower_as_ascii(rank::views(found@)),
        decreases map.files@.len() - i,
    {
        let file = &map.files[i];
        let path = file.path.as_str();
        let ghost before = rank::views(found@);
        let ghost classes = file@.classes;
        let ghost methods = file@.methods;
        let mut j: usize = 0;
        while j < file.classes.len()
            invariant
                j <= file.classes@.len(),
                path@ == file.path@,
                classes == file@.classes,
                rank::views(found@) == add_symbols(
                    before,
                    path@,
                    classes.take(j as int),
                    "class"@,
                    needle_lower@,
                ),
                all_lower_as_ascii(rank::views(found@)),
            decreases file.classes@.len() - j,
        {
            let c = &file.classes[j];
            offer(&mut found, path, &c.name, &c.signature, c.line, "class", needle_lower);
            assert(classes.take(j + 1).drop_last() =~= classes.take(j as int));
            j += 1;
        }
        assert(classes.take(j as int) =~= classes);
        let ghost between = rank::views(found@);
        let mut k: usize = 0;
        while k < file.methods.len()
            invariant
                k <= file.methods@.len(),
                path@ == file.path@,
                methods == file@.methods,
                rank::views(found@) == add_symbols(
                    between,
                    path@,
                    methods.take(k as int),
                    "method"@,
                    needle_lower@,
                ),
                all_lower_as_ascii(rank::views(found@)),
            decreases file.methods@.len() - k,
        {
            let m = &file.methods[k];
            offer(&mut found, path, &m.name, &m.signature, m.line, "method", needle_lower);
            assert(methods.take(k + 1).drop_last() =~= methods.take(k as int));
            k += 1;
        }
        assert(methods.take(k as int) =~= methods);
        assert(files.take(i + 1).drop_last() =~= files.take(i as int));
        assert(files.take(i + 1).last() == file@);
        i += 1;
    }
    assert(files.take(i as int) =~= files);
    assert(rank::views(found@).len() == found.len());
    let mut out = rank::stable_sort(found);
    if out.len() > limit {
        let ghost all = rank::views(out@);
        out.truncate(limit);
        assert(rank::views(out@) =~= all.take(limit as int));
    }
    out
}

/// Finds at most `limit` symbols of `sources` that match `symbol`, the best ones first. Nothing
/// matches a symbol that is only white space. What an exact lookup finds is among the matches, with
/// the highest score, where the limit leaves none out.
pub fn lookup_java_symbol_fuzzy(
    root: &str,
    sources: &Vec<SourceFile>,
    symbol: &str,
    limit: usize,
) -> (r: Result<Vec<FuzzySymbolMatch>, PatternError>)
    ensures
        r is Ok,
        text::trimmed(symbol@).len() == 0 ==> (r matches Ok(items) && items@.len() == 0),
        r matches Ok(items) ==> rank::views(items@) == fuzzy_matches(
            java::declaring_files(rank::views(sources@)),
            symbol@,
            limit as nat,
        ),
        r matches Ok(items) ==> {
            let files = java::declaring_files(rank::views(sources@));
            let all = matches_in(files, needle_of(symbol@));
            text::is_identifier(symbol@) && declared(files, symbol@) is Some && file_paths_differ(
                files,
            ) && files_have_short_names(files) && (limit == usize::MAX || all.len() <= limit)
                ==> is_top_match(rank::views(items@), declared(files, symbol@)->0)
        },
{
    let needle = text::to_lowercase(text::trim(symbol));
    proof {
        if text::is_identifier(symbol@) {
            text::lemma_identifier(symbol@);
        }
    }
    if needle.as_str().is_empty() {
        let none: Vec<FuzzySymbolMatch> = Vec::new();
        assert(rank::views(none@) =~= Seq::empty());
        return Ok(none);
    }
    match java::build_java_repo_map(root, sources) {
        Ok(map) => {
            let items = find_matches(&map, needle.as_str(), limit);
            proof {
                let files = map@.files;
                let all = matches_in(files, needle_of(symbol@));
                if text::is_identifier(symbol@) && declared(files, symbol@) is Some
                    && file_paths_differ(files) && files_have_short_names(files) && (limit
                    == usize::MAX || all.len() <= limit) {
                    searching::law_exact_find_is_a_top_match(files, symbol@, limit as nat);
                }
            }
            Ok(items)
        },
        Err(e) => Err(e),
    }
}

} // verus!
