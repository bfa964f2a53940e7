//! Laws of exact and fuzzy lookup.

use crate::java;
use crate::laws::texts;
use crate::lookup;
use crate::rank;
use crate::symbols;
use crate::symbols::FuzzySymbolMatch;
use crate::text;
use vstd::prelude::*;

verus! {

// ---------------------------------------------------------------------------
// Exact lookup
// ---------------------------------------------------------------------------

/// Whether any of `all` is named `name`.
pub open spec fn names(all: Seq<symbols::SymbolView>, name: Seq<char>) -> bool {
    exists|i: int| 0 <= i < all.len() && (#[trigger] all[i]).name == name
}

/// The first symbol of a name is the one before which no symbol has the name.
pub proof fn law_first_named(all: Seq<symbols::SymbolView>, name: Seq<char>)
    ensures
        match lookup::first_named(all, name) {
            Some(s) => exists|i: int|
                0 <= i < all.len() && #[trigger] all[i] == s && s.name == name && (forall|j: int|
                    0 <= j < i ==> (#[trigger] all[j]).name != name),
            None => !names(all, name),
        },
    decreases all.len(),
{
    if all.len() > 0 {
        if all[0].name == name {
            assert(all[0] == lookup::first_named(all, name)->0);
        } else {
            let rest = all.skip(1);
            law_first_named(rest, name);
            match lookup::first_named(rest, name) {
                Some(s) => {
                    let i = choose|i: int|
                        0 <= i < rest.len() && #[trigger] rest[i] == s && s.name == name && (forall|
                            j: int,
                        |
                            0 <= j < i ==> (#[trigger] rest[j]).name != name);
                    assert(all[i + 1] == s);
                    assert forall|j: int| 0 <= j < i + 1 implies (#[trigger] all[j]).name
                        != name by {
                        if j > 0 {
                            assert(rest[j - 1] == all[j]);
                        }
                    }
                },
                None => {
                    assert forall|i: int| 0 <= i < all.len() implies (#[trigger] all[i]).name
                        != name by {
                        if i > 0 {
                            assert(rest[i - 1] == all[i]);
                        }
                    }
                },
            }
        }
    }
}

/// Whether `loc` is where one of `all` stands, as a `kind` of the file at `path`.
pub open spec fn locates(
    loc: symbols::LocationView,
    path: Seq<char>,
    all: Seq<symbols::SymbolView>,
    kind: Seq<char>,
) -> bool {
    &&& loc.file == path
    &&& loc.kind == kind
    &&& exists|i: int|
        0 <= i < all.len() && (#[trigger] all[i]).name == loc.symbol && all[i].line == loc.line
            && all[i].signature == loc.signature
}

/// A file declares a name where a class or a method of it has the name. A class goes before a
/// method. The location gives the name and the file back, and the line and the signature of the
/// symbol.
pub proof fn law_declared_in_file(file: symbols::FileView, name: Seq<char>)
    ensures
        match lookup::declared_in(file, name) {
            Some(loc) => loc.symbol == name && if names(file.classes, name) {
                locates(loc, file.path, file.classes, "class"@)
            } else {
                names(file.methods, name) && locates(loc, file.path, file.methods, "method"@)
            },
            None => !names(file.classes, name) && !names(file.methods, name),
        },
{
    law_first_named(file.classes, name);
    law_first_named(file.methods, name);
}

/// A lookup finds a name in the first file that declares it, and fails only where no file does.
pub proof fn law_lookup_finds_the_first_declaration(
    files: Seq<symbols::FileView>,
    name: Seq<char>,
)
    ensures
        match lookup::declared(files, name) {
            Some(loc) => exists|i: int|
                0 <= i < files.len() && lookup::declared_in(#[trigger] files[i], name) == Some(loc)
                    && (forall|j: int|
                    0 <= j < i ==> lookup::declared_in(#[trigger] files[j], name) is None),
            None => forall|i: int|
                0 <= i < files.len() ==> lookup::declared_in(#[trigger] files[i], name) is None,
        },
    decreases files.len(),
{
    if files.len() > 0 {
        let rest = files.skip(1);
        law_lookup_finds_the_first_declaration(rest, name);
        if lookup::declared_in(files[0], name) is None {
            match lookup::declared(rest, name) {
                Some(loc) => {
                    let i = choose|i: int|
                        0 <= i < rest.len() && lookup::declared_in(#[trigger] rest[i], name)
                            == Some(loc) && (forall|j: int|
                            0 <= j < i ==> lookup::declared_in(#[trigger] rest[j], name) is None);
                    assert(files[i + 1] == rest[i]);
                    assert forall|j: int| 0 <= j < i + 1 implies lookup::declared_in(
                        #[trigger] files[j],
                        name,
                    ) is None by {
                        if j > 0 {
                            assert(rest[j - 1] == files[j]);
                        }
                    }
                },
                None => {
                    assert forall|i: int| 0 <= i < files.len() implies lookup::declared_in(
                        #[trigger] files[i],
                        name,
                    ) is None by {
                        if i > 0 {
                            assert(rest[i - 1] == files[i]);
                        }
                    }
                },
            }
        } else {
            assert(lookup::declared_in(files[0], name) == lookup::declared(files, name));
        }
    }
}

/// Whether none of the classes and methods of `file` is named `name`.
pub open spec fn does_not_name(file: symbols::FileView, name: Seq<char>) -> bool {
    !names(file.classes, name) && !names(file.methods, name)
}

proof fn lemma_first_named_at(all: Seq<symbols::SymbolView>, k: int)
    requires
        0 <= k < all.len(),
        forall|j: int| 0 <= j < k ==> (#[trigger] all[j]).name != all[k].name,
    ensures
        lookup::first_named(all, all[k].name) == Some(all[k]),
    decreases k,
{
    if k > 0 {
        assert(all[0].name != all[k].name);
        let rest = all.skip(1);
        assert forall|j: int| 0 <= j < k - 1 implies (#[trigger] rest[j]).name
            != rest[k - 1].name by {
            assert(all[j + 1].name != all[k].name);
        }
        lemma_first_named_at(rest, k - 1);
    }
}

proof fn lemma_declared_from(files: Seq<symbols::FileView>, name: Seq<char>, f: int)
    requires
        0 <= f < files.len(),
        forall|g: int| 0 <= g < f ==> does_not_name(#[trigger] files[g], name),
        !does_not_name(files[f], name),
    ensures
        lookup::declared(files, name) == lookup::declared_in(files[f], name),
    decreases f,
{
    law_declared_in_file(files[0], name);
    if f > 0 {
        assert(does_not_name(files[0], name));
        let rest = files.skip(1);
        assert forall|g: int| 0 <= g < f - 1 implies does_not_name(#[trigger] rest[g], name) by {
            assert(does_not_name(files[g + 1], name));
        }
        lemma_declared_from(rest, name, f - 1);
    }
}

/// A class is what a lookup of its name finds, with its file, line and signature, where it is the
/// first class of the name in its file, and no file before that names it.
pub proof fn law_class_is_found(files: Seq<symbols::FileView>, f: int, k: int)
    requires
        0 <= f < files.len(),
        0 <= k < files[f].classes.len(),
        forall|j: int|
            0 <= j < k ==> (#[trigger] files[f].classes[j]).name != files[f].classes[k].name,
        forall|g: int|
            0 <= g < f ==> does_not_name(#[trigger] files[g], files[f].classes[k].name),
    ensures
        lookup::declared(files, files[f].classes[k].name) == Some(
            symbols::LocationView {
                symbol: files[f].classes[k].name,
                file: files[f].path,
                line: files[f].classes[k].line,
                signature: files[f].classes[k].signature,
                kind: "class"@,
            },
        ),
{
    let name = files[f].classes[k].name;
    assert(names(files[f].classes, name));
    lemma_first_named_at(files[f].classes, k);
    lemma_declared_from(files, name, f);
}

/// A method is what a lookup of its name finds, with its file, line and signature, where it is the
/// first method of the name in its file, no class of that file has the name, and no file before
/// that names it.
pub proof fn law_method_is_found(files: Seq<symbols::FileView>, f: int, k: int)
    requires
        0 <= f < files.len(),
        0 <= k < files[f].methods.len(),
        !names(files[f].classes, files[f].methods[k].name),
        forall|j: int|
            0 <= j < k ==> (#[trigger] files[f].methods[j]).name != files[f].methods[k].name,
        forall|g: int|
            0 <= g < f ==> does_not_name(#[trigger] files[g], files[f].methods[k].name),
    ensures
        lookup::declared(files, files[f].methods[k].name) == Some(
            symbols::LocationView {
                symbol: files[f].methods[k].name,
                file: files[f].path,
                line: files[f].methods[k].line,
                signature: files[f].methods[k].signature,
                kind: "method"@,
            },
        ),
{
    let name = files[f].methods[k].name;
    assert(names(files[f].methods, name));
    law_first_named(files[f].classes, name);
    lemma_first_named_at(files[f].methods, k);
    lemma_declared_from(files, name, f);
}

/// A lookup finds nothing exactly where no file names what is looked for.
pub proof fn law_nothing_is_found_where_nothing_is_named(
    files: Seq<symbols::FileView>,
    name: Seq<char>,
)
    ensures
        lookup::declared(files, name) is None <==> forall|f: int|
            0 <= f < files.len() ==> does_not_name(#[trigger] files[f], name),
{
    law_lookup_finds_the_first_declaration(files, name);
    assert forall|f: int| 0 <= f < files.len() implies (does_not_name(#[trigger] files[f], name)
        <==> lookup::declared_in(files[f], name) is None) by {
        law_declared_in_file(files[f], name);
    }
}

// ---------------------------------------------------------------------------
// Scores
// ---------------------------------------------------------------------------

/// Whether a text is short enough for its length to be an `i32`.
pub open spec fn is_short(s: Seq<char>) -> bool {
    vstd::utf8::encode_utf8(s).len() <= i32::MAX
}

/// The distance of the lengths of two texts in bytes.
pub open spec fn distance(a: Seq<char>, b: Seq<char>) -> int {
    let x = vstd::utf8::encode_utf8(a).len() as int;
    let y = vstd::utf8::encode_utf8(b).len() as int;
    if x < y {
        y - x
    } else {
        x - y
    }
}

/// The distance that scores are made of is the distance of the lengths.
pub proof fn law_length_delta(a: Seq<char>, b: Seq<char>)
    requires
        is_short(a),
        is_short(b),
    ensures
        lookup::length_delta(lookup::byte_len(a), lookup::byte_len(b)) == distance(a, b),
{
    let x = lookup::byte_len(a);
    let y = lookup::byte_len(b);
    assert(x as i32 == x && y as i32 == y);
}

/// A name matches a needle where it begins with it or holds it. The score is ten thousand for a
/// prefix, one thousand for any other part, less the distance of the lengths.
pub proof fn law_fuzzy_score(name: Seq<char>, needle: Seq<char>)
    requires
        is_short(name),
        is_short(needle),
    ensures
        lookup::fuzzy_score(name, needle) is Some <==> text::occurs_in(name, needle),
        lookup::fuzzy_score(name, needle) matches Some((score, kind)) ==> {
            if needle.is_prefix_of(name) {
                kind == "prefix"@ && score == 10_000 - distance(name, needle)
            } else {
                kind == "contains"@ && score == 1_000 - distance(name, needle)
            }
        },
{
    law_length_delta(name, needle);
    if needle.is_prefix_of(name) {
        assert(text::stands_at(name, needle, 0));
    }
}

/// Whatever its length, a name matches a needle where it has it in it: as a prefix where it begins
/// with it, and as a part otherwise.
pub proof fn law_kind_of_match(name: Seq<char>, needle: Seq<char>)
    ensures
        lookup::fuzzy_score(name, needle) is Some <==> text::occurs_in(name, needle),
        lookup::fuzzy_score(name, needle) matches Some((_, kind)) ==> kind == (
        if needle.is_prefix_of(name) {
            "prefix"@
        } else {
            "contains"@
        }),
{
    if needle.is_prefix_of(name) {
        assert(text::stands_at(name, needle, 0));
    }
}

/// A name that begins with the needle scores higher than one that only holds it, unless it is
/// longer by nine thousand bytes or more.
pub proof fn law_prefix_outranks_contains(a: Seq<char>, b: Seq<char>, needle: Seq<char>)
    requires
        is_short(a),
        is_short(b),
        is_short(needle),
        needle.is_prefix_of(a),
        text::occurs_in(b, needle),
        !needle.is_prefix_of(b),
        distance(a, needle) < distance(b, needle) + 9_000,
    ensures
        (lookup::fuzzy_score(a, needle)->0).0 > (lookup::fuzzy_score(b, needle)->0).0,
{
    law_length_delta(a, needle);
    law_length_delta(b, needle);
    law_fuzzy_score(a, needle);
    law_fuzzy_score(b, needle);
}

/// Of two names that match in the same way, the one of the closer length scores higher.
pub proof fn law_closer_length_scores_higher(a: Seq<char>, b: Seq<char>, needle: Seq<char>)
    requires
        is_short(a),
        is_short(b),
        is_short(needle),
        text::occurs_in(a, needle),
        text::occurs_in(b, needle),
        needle.is_prefix_of(a) == needle.is_prefix_of(b),
        distance(a, needle) < distance(b, needle),
    ensures
        (lookup::fuzzy_score(a, needle)->0).0 > (lookup::fuzzy_score(b, needle)->0).0,
{
    law_fuzzy_score(a, needle);
    law_fuzzy_score(b, needle);
}

/// The needle itself scores as high as any name.
pub proof fn law_needle_scores_highest(name: Seq<char>, needle: Seq<char>)
    requires
        is_short(name),
        is_short(needle),
    ensures
        lookup::fuzzy_score(needle, needle) == Some((10_000i32, "prefix"@)),
        lookup::fuzzy_score(name, needle) matches Some((score, _)) ==> score <= 10_000,
{
    assert(needle.is_prefix_of(needle));
    law_fuzzy_score(needle, needle);
    law_fuzzy_score(name, needle);
}

// ---------------------------------------------------------------------------
// Fuzzy lookup
// ---------------------------------------------------------------------------

/// Whether `m` is the match of a symbol of `all`, as a `kind` of the file at `path`.
pub open spec fn is_match_among(
    m: symbols::MatchView,
    path: Seq<char>,
    all: Seq<symbols::SymbolView>,
    kind: Seq<char>,
    needle: Seq<char>,
) -> bool {
    &&& m.file == path
    &&& m.kind == kind
    &&& lookup::fuzzy_score(text::lowercase(m.symbol), needle) == Some((m.score, m.match_type))
    &&& exists|i: int|
        0 <= i < all.len() && (#[trigger] all[i]).name == m.symbol && all[i].line == m.line
            && all[i].signature == m.signature
}

/// Whether `m` is the match of a symbol of `files`.
pub open spec fn is_match_in(
    m: symbols::MatchView,
    files: Seq<symbols::FileView>,
    needle: Seq<char>,
) -> bool {
    exists|i: int|
        0 <= i < files.len() && (is_match_among(
            m,
            (#[trigger] files[i]).path,
            files[i].classes,
            "class"@,
            needle,
        ) || is_match_among(m, files[i].path, files[i].methods, "method"@, needle))
}

/// Whether no two of `found` are the same name, of the same kind, in the same file.
pub open spec fn all_differ(found: Seq<symbols::MatchView>) -> bool {
    forall|i: int, j: int|
        0 <= i < j < found.len() ==> !((#[trigger] found[i]).file == (#[trigger] found[j]).file
            && found[i].symbol == found[j].symbol && found[i].kind == found[j].kind)
}

proof fn lemma_add_symbols(
    found: Seq<symbols::MatchView>,
    path: Seq<char>,
    all: Seq<symbols::SymbolView>,
    kind: Seq<char>,
    needle: Seq<char>,
)
    requires
        all_differ(found),
    ensures
        ({
            let r = lookup::add_symbols(found, path, all, kind, needle);
            &&& all_differ(r)
            &&& found.is_prefix_of(r)
            &&& forall|i: int|
                found.len() <= i < r.len() ==> is_match_among(
                    #[trigger] r[i],
                    path,
                    all,
                    kind,
                    needle,
                )
            &&& forall|k: int|
                0 <= k < all.len() && lookup::fuzzy_score(
                    text::lowercase((#[trigger] all[k]).name),
                    needle,
                ) is Some ==> lookup::already_found(r, path, all[k].name, kind)
        }),
    decreases all.len(),
{
    let r = lookup::add_symbols(found, path, all, kind, needle);
    if all.len() > 0 {
        let front = all.drop_last();
        let last = all.last();
        let before = lookup::add_symbols(found, path, front, kind, needle);
        lemma_add_symbols(found, path, front, kind, needle);
        assert forall|i: int| found.len() <= i < r.len() implies is_match_among(
            #[trigger] r[i],
            path,
            all,
            kind,
            needle,
        ) by {
            if i < before.len() {
                assert(is_match_among(before[i], path, front, kind, needle));
                let k = choose|k: int|
                    0 <= k < front.len() && (#[trigger] front[k]).name == before[i].symbol
                        && front[k].line == before[i].line && front[k].signature
                        == before[i].signature;
                assert(all[k] == front[k]);
            } else {
                assert(all[all.len() - 1] == last);
            }
        }
        assert forall|k: int|
            0 <= k < all.len() && lookup::fuzzy_score(
                text::lowercase((#[trigger] all[k]).name),
                needle,
            ) is Some implies lookup::already_found(r, path, all[k].name, kind) by {
            if k < front.len() {
                assert(all[k] == front[k]);
                assert(lookup::already_found(before, path, front[k].name, kind));
                let i = choose|i: int|
                    0 <= i < before.len() && (#[trigger] before[i]).file == path
                        && before[i].symbol == front[k].name && before[i].kind == kind;
                assert(r[i] == before[i]);
            } else if lookup::already_found(before, path, last.name, kind) {
            } else {
                assert(r[r.len() - 1].symbol == last.name);
            }
        }
    }
}

proof fn lemma_matches_in(files: Seq<symbols::FileView>, needle: Seq<char>)
    ensures
        ({
            let r = lookup::matches_in(files, needle);
            &&& all_differ(r)
            &&& forall|i: int| 0 <= i < r.len() ==> is_match_in(#[trigger] r[i], files, needle)
            &&& forall|f: int, k: int|
                #![trigger files[f].classes[k]]
                0 <= f < files.len() && 0 <= k < files[f].classes.len() && lookup::fuzzy_score(
                    text::lowercase(files[f].classes[k].name),
                    needle,
                ) is Some ==> lookup::already_found(
                    r,
                    files[f].path,
                    files[f].classes[k].name,
                    "class"@,
                )
            &&& forall|f: int, k: int|
                #![trigger files[f].methods[k]]
                0 <= f < files.len() && 0 <= k < files[f].methods.len() && lookup::fuzzy_score(
                    text::lowercase(files[f].methods[k].name),
                    needle,
                ) is Some ==> lookup::already_found(
                    r,
                    files[f].path,
                    files[f].methods[k].name,
                    "method"@,
                )
        }),
    decreases files.len(),
{
    let r = lookup::matches_in(files, needle);
    if files.len() > 0 {
        let front = files.drop_last();
        let file = files.last();
        let before = lookup::matches_in(front, needle);
        lemma_matches_in(front, needle);
        let classes = lookup::add_symbols(before, file.path, file.classes, "class"@, needle);
        lemma_add_symbols(before, file.path, file.classes, "class"@, needle);
        lemma_add_symbols(classes, file.path, file.methods, "method"@, needle);
        assert(forall|i: int| 0 <= i < before.len() ==> before[i] == classes[i]);
        assert(forall|i: int| 0 <= i < classes.len() ==> classes[i] == r[i]);
        assert forall|i: int| 0 <= i < r.len() implies is_match_in(
            #[trigger] r[i],
            files,
            needle,
        ) by {
            if i < before.len() {
                assert(is_match_in(before[i], front, needle));
                let f = choose|f: int|
                    0 <= f < front.len() && (is_match_among(
                        before[i],
                        (#[trigger] front[f]).path,
                        front[f].classes,
                        "class"@,
                        needle,
                    ) || is_match_among(
                        before[i],
                        front[f].path,
                        front[f].methods,
                        "method"@,
                        needle,
                    ));
                assert(files[f] == front[f]);
            } else {
                assert(files[files.len() - 1] == file);
                if i < classes.len() {
                    assert(is_match_among(classes[i], file.path, file.classes, "class"@, needle));
                }
            }
        }
        assert forall|f: int, k: int|
            #![trigger files[f].classes[k]]
            0 <= f < files.len() && 0 <= k < files[f].classes.len() && lookup::fuzzy_score(
                text::lowercase(files[f].classes[k].name),
                needle,
            ) is Some implies lookup::already_found(
            r,
            files[f].path,
            files[f].classes[k].name,
            "class"@,
        ) by {
            let name = files[f].classes[k].name;
            if f < front.len() {
                assert(front[f] == files[f]);
                assert(front[f].classes[k].name == name);
                lemma_found_stays(before, r, files[f].path, name, "class"@);
            } else {
                assert(file.classes[k].name == name);
                lemma_found_stays(classes, r, files[f].path, name, "class"@);
            }
        }
        assert forall|f: int, k: int|
            #![trigger files[f].methods[k]]
            0 <= f < files.len() && 0 <= k < files[f].methods.len() && lookup::fuzzy_score(
                text::lowercase(files[f].methods[k].name),
                needle,
            ) is Some implies lookup::already_found(
            r,
            files[f].path,
            files[f].methods[k].name,
            "method"@,
        ) by {
            let name = files[f].methods[k].name;
            if f < front.len() {
                assert(front[f] == files[f]);
                assert(front[f].methods[k].name == name);
                lemma_found_stays(before, r, files[f].path, name, "method"@);
            } else {
                assert(file.methods[k].name == name);
            }
        }
    }
}

proof fn lemma_found_stays(
    before: Seq<symbols::MatchView>,
    after: Seq<symbols::MatchView>,
    path: Seq<char>,
    name: Seq<char>,
    kind: Seq<char>,
)
    requires
        lookup::already_found(before, path, name, kind),
        before.len() <= after.len(),
        forall|i: int| 0 <= i < before.len() ==> before[i] == after[i],
    ensures
        lookup::already_found(after, path, name, kind),
{
    let i = choose|i: int|
        0 <= i < before.len() && (#[trigger] before[i]).file == path && before[i].symbol == name
            && before[i].kind == kind;
    assert(after[i] == before[i]);
}

/// What matches the needle is what is found, before the limit: each match is of a symbol that
/// matches, each symbol that matches is found, and none is found twice.
pub proof fn law_matches_are_the_symbols_that_match(
    files: Seq<symbols::FileView>,
    needle: Seq<char>,
)
    ensures
        ({
            let r = lookup::matches_in(files, needle);
            &&& all_differ(r)
            &&& forall|i: int| 0 <= i < r.len() ==> is_match_in(#[trigger] r[i], files, needle)
            &&& forall|f: int, k: int|
                #![trigger files[f].classes[k]]
                0 <= f < files.len() && 0 <= k < files[f].classes.len() && lookup::fuzzy_score(
                    text::lowercase(files[f].classes[k].name),
                    needle,
                ) is Some ==> lookup::already_found(
                    r,
                    files[f].path,
                    files[f].classes[k].name,
                    "class"@,
                )
            &&& forall|f: int, k: int|
                #![trigger files[f].methods[k]]
                0 <= f < files.len() && 0 <= k < files[f].methods.len() && lookup::fuzzy_score(
                    text::lowercase(files[f].methods[k].name),
                    needle,
                ) is Some ==> lookup::already_found(
                    r,
                    files[f].path,
                    files[f].methods[k].name,
                    "method"@,
                )
        }),
{
    lemma_matches_in(files, needle);
}

proof fn lemma_all_differ_is_no_duplicates(s: Seq<symbols::MatchView>)
    requires
        all_differ(s),
    ensures
        s.no_duplicates(),
{
    assert forall|i: int, j: int| 0 <= i < s.len() && 0 <= j < s.len() && i != j implies s[i]
        != s[j] by {
        if i < j {
            assert(!(s[i].file == s[j].file && s[i].symbol == s[j].symbol && s[i].kind
                == s[j].kind));
        } else {
            assert(!(s[j].file == s[i].file && s[j].symbol == s[i].symbol && s[j].kind
                == s[i].kind));
        }
    }
}

proof fn lemma_ranked_differs(s: Seq<symbols::MatchView>)
    requires
        all_differ(s),
    ensures
        all_differ(rank::ranked::<FuzzySymbolMatch>(s)),
        rank::ranked::<FuzzySymbolMatch>(s).len() == s.len(),
        forall|m: symbols::MatchView|
            rank::ranked::<FuzzySymbolMatch>(s).contains(m) <==> s.contains(m),
{
    broadcast use vstd::seq_lib::group_to_multiset_ensures;

    let r = rank::ranked::<FuzzySymbolMatch>(s);
    rank::law_ranked::<FuzzySymbolMatch>(s);
    lemma_all_differ_is_no_duplicates(s);
    s.lemma_multiset_has_no_duplicates();
    assert forall|x: symbols::MatchView| r.to_multiset().contains(x) implies r.to_multiset().count(
        x,
    ) == 1 by {
        assert(s.to_multiset().contains(x));
    }
    r.lemma_multiset_has_no_duplicates_conv();
    assert forall|m: symbols::MatchView| r.contains(m) <==> s.contains(m) by {
        assert(r.to_multiset().count(m) == s.to_multiset().count(m));
    }
    assert forall|i: int, j: int| 0 <= i < j < r.len() implies !((#[trigger] r[i]).file == (
    #[trigger] r[j]).file && r[i].symbol == r[j].symbol && r[i].kind == r[j].kind) by {
        assert(r.contains(r[i]) && r.contains(r[j]));
        let a = s.index_of(r[i]);
        let b = s.index_of(r[j]);
        assert(r[i] != r[j]);
        assert(a != b);
        if a < b {
            assert(!(s[a].file == s[b].file && s[a].symbol == s[b].symbol && s[a].kind
                == s[b].kind));
        } else {
            assert(!(s[b].file == s[a].file && s[b].symbol == s[a].symbol && s[b].kind
                == s[a].kind));
        }
    }
}

/// A fuzzy lookup gives at most as many matches as the limit, and as many as it can; none twice;
/// the best first; and none that was left out comes before one that was given.
pub proof fn law_best_matches(files: Seq<symbols::FileView>, needle: Seq<char>, limit: nat)
    ensures
        ({
            let all = lookup::matches_in(files, needle);
            let best = lookup::best_matches(files, needle, limit);
            &&& best.len() == (if all.len() < limit {
                all.len()
            } else {
                limit
            })
            &&& all_differ(best)
            &&& rank::in_order::<FuzzySymbolMatch>(best)
            &&& forall|i: int| 0 <= i < best.len() ==> all.contains(#[trigger] best[i])
            &&& forall|i: int, m: symbols::MatchView|
                #![trigger best[i], all.contains(m)]
                0 <= i < best.len() && all.contains(m) && !best.contains(m)
                    ==> <FuzzySymbolMatch as rank::Ranked>::no_later(best[i], m)
        }),
{
    let all = lookup::matches_in(files, needle);
    let sorted = rank::ranked::<FuzzySymbolMatch>(all);
    let best = lookup::best_matches(files, needle, limit);
    lemma_matches_in(files, needle);
    lemma_ranked_differs(all);
    rank::law_ranked::<FuzzySymbolMatch>(all);
    assert(forall|i: int| 0 <= i < best.len() ==> best[i] == sorted[i]);
    assert forall|i: int| 0 <= i < best.len() implies all.contains(#[trigger] best[i]) by {
        assert(sorted.contains(sorted[i]));
    }
    assert forall|i: int, m: symbols::MatchView|
        #![trigger best[i], all.contains(m)]
        0 <= i < best.len() && all.contains(m) && !best.contains(
            m,
        ) implies <FuzzySymbolMatch as rank::Ranked>::no_later(best[i], m) by {
        assert(sorted.contains(m));
        let k = sorted.index_of(m);
        if k < best.len() {
            assert(best[k] == m);
        }
        assert(<FuzzySymbolMatch as rank::Ranked>::no_later(sorted[i], sorted[k]));
    }
}

/// Whether `a` stands before `b` or with it: the higher score first, then by symbol, by file and by
/// line.
pub open spec fn stands_no_later(a: symbols::MatchView, b: symbols::MatchView) -> bool {
    ||| a.score > b.score
    ||| a.score == b.score && rank::text_before(a.symbol, b.symbol)
    ||| a.score == b.score && a.symbol == b.symbol && rank::text_before(a.file, b.file)
    ||| a.score == b.score && a.symbol == b.symbol && a.file == b.file && a.line <= b.line
}

proof fn lemma_stands_no_later(all: Seq<symbols::MatchView>, i: int, j: int)
    requires
        rank::in_order::<FuzzySymbolMatch>(all),
        0 <= i <= j < all.len(),
    ensures
        stands_no_later(all[i], all[j]),
{
    texts::law_text_order(all[i].symbol, all[j].symbol);
    texts::law_text_order(all[i].file, all[j].file);
}

/// The matches that are given stand in order: by score from the highest down, then by symbol, by
/// file and by line. A match that was left out stands behind all of them.
pub proof fn law_matches_stand_in_order(
    files: Seq<symbols::FileView>,
    needle: Seq<char>,
    limit: nat,
)
    ensures
        ({
            let all = lookup::matches_in(files, needle);
            let best = lookup::best_matches(files, needle, limit);
            &&& forall|i: int, j: int|
                0 <= i < j < best.len() ==> stands_no_later(#[trigger] best[i], #[trigger] best[j])
            &&& forall|i: int, m: symbols::MatchView|
                #![trigger best[i], all.contains(m)]
                0 <= i < best.len() && all.contains(m) && !best.contains(m) ==> stands_no_later(
                    best[i],
                    m,
                )
        }),
{
    let all = lookup::matches_in(files, needle);
    let sorted = rank::ranked::<FuzzySymbolMatch>(all);
    let best = lookup::best_matches(files, needle, limit);
    law_matches_are_the_symbols_that_match(files, needle);
    lemma_ranked_differs(all);
    rank::law_ranked::<FuzzySymbolMatch>(all);
    assert(forall|i: int| 0 <= i < best.len() ==> best[i] == sorted[i]);
    assert forall|i: int, j: int| 0 <= i < j < best.len() implies stands_no_later(
        #[trigger] best[i],
        #[trigger] best[j],
    ) by {
        lemma_stands_no_later(sorted, i, j);
    }
    assert forall|i: int, m: symbols::MatchView|
        #![trigger best[i], all.contains(m)]
        0 <= i < best.len() && all.contains(m) && !best.contains(m) implies stands_no_later(
        best[i],
        m,
    ) by {
        assert(sorted.contains(m));
        let k = sorted.index_of(m);
        if k < best.len() {
            assert(best[k] == m);
        }
        lemma_stands_no_later(sorted, i, k);
    }
}

/// A fuzzy lookup looks for its symbol in lower case, without the white space around it. Where
/// nothing is left of it, it finds nothing.
pub proof fn law_fuzzy_lookup_looks_for_the_needle(
    files: Seq<symbols::FileView>,
    front: Seq<char>,
    symbol: Seq<char>,
    back: Seq<char>,
    limit: nat,
)
    requires
        texts::all_space(front),
        texts::all_space(back),
        symbol.len() > 0 ==> !text::is_space(symbol[0]) && !text::is_space(symbol.last()),
    ensures
        ({
            let found = lookup::fuzzy_matches(files, front + symbol + back, limit);
            if text::lowercase(symbol).len() == 0 {
                found.len() == 0
            } else {
                found == lookup::best_matches(files, text::lowercase(symbol), limit)
            }
        }),
{
    texts::law_trimming(front, symbol, back);
}

proof fn lemma_first_of_name_is_matched(
    files: Seq<symbols::FileView>,
    needle: Seq<char>,
    f: int,
    all: Seq<symbols::SymbolView>,
    k: int,
    kind: Seq<char>,
)
    requires
        lookup::file_paths_differ(files),
        0 <= f < files.len(),
        (all == files[f].classes && kind == "class"@) || (all == files[f].methods && kind
            == "method"@),
        0 <= k < all.len(),
        forall|j: int| 0 <= j < k ==> (#[trigger] all[j]).name != all[k].name,
        lookup::fuzzy_score(text::lowercase(all[k].name), needle) is Some,
    ensures
        ({
            let (score, match_type) = lookup::fuzzy_score(
                text::lowercase(all[k].name),
                needle,
            )->0;
            lookup::matches_in(files, needle).contains(
                symbols::MatchView {
                    symbol: all[k].name,
                    file: files[f].path,
                    line: all[k].line,
                    signature: all[k].signature,
                    kind,
                    score,
                    match_type,
                },
            )
        }),
    decreases files.len(),
{
    let (score, match_type) = lookup::fuzzy_score(text::lowercase(all[k].name), needle)->0;
    let m = symbols::MatchView {
        symbol: all[k].name,
        file: files[f].path,
        line: all[k].line,
        signature: all[k].signature,
        kind,
        score,
        match_type,
    };
    let front = files.drop_last();
    let file = files.last();
    let before = lookup::matches_in(front, needle);
    let classes = lookup::add_symbols(before, file.path, file.classes, "class"@, needle);
    let r = lookup::matches_in(files, needle);
    lemma_matches_in(front, needle);
    lemma_add_symbols(before, file.path, file.classes, "class"@, needle);
    lemma_add_symbols(classes, file.path, file.methods, "method"@, needle);
    assert(forall|i: int| 0 <= i < before.len() ==> before[i] == classes[i]);
    assert(forall|i: int| 0 <= i < classes.len() ==> classes[i] == r[i]);
    if f < front.len() {
        assert(lookup::file_paths_differ(front)) by {
            assert forall|i: int, j: int| 0 <= i < j < front.len() implies (
            #[trigger] front[i]).path != (#[trigger] front[j]).path by {
                assert(files[i].path != files[j].path);
            }
        }
        assert(front[f] == files[f]);
        lemma_first_of_name_is_matched(front, needle, f, all, k, kind);
        assert(r[before.index_of(m)] == m);
    } else {
        assert forall|i: int| 0 <= i < before.len() implies (#[trigger] before[i]).file
            != file.path by {
            assert(is_match_in(before[i], front, needle));
            let g = choose|g: int|
                0 <= g < front.len() && (is_match_among(
                    before[i],
                    (#[trigger] front[g]).path,
                    front[g].classes,
                    "class"@,
                    needle,
                ) || is_match_among(before[i], front[g].path, front[g].methods, "method"@, needle));
            assert(files[g].path != files[f].path);
        }
        if all == files[f].classes && kind == "class"@ {
            lemma_first_is_added(before, file.path, file.classes, "class"@, needle, k);
            assert(r[classes.index_of(m)] == m);
        } else {
            reveal_strlit("class");
            reveal_strlit("method");
            assert("class"@.len() == 5 && "method"@.len() == 6);
            assert(!lookup::already_found(classes, file.path, all[k].name, "method"@)) by {
                assert forall|i: int| 0 <= i < classes.len() implies !((#[trigger] classes[i]).file
                    == file.path && classes[i].kind == "method"@) by {
                    if i >= before.len() {
                        assert(is_match_among(
                            classes[i],
                            file.path,
                            file.classes,
                            "class"@,
                            needle,
                        ));
                    }
                }
            }
            lemma_first_is_added(classes, file.path, file.methods, "method"@, needle, k);
        }
    }
}

/// Whether `m` is the match of `symbol`, a `kind` of the file at `path`: with its line and its
/// signature, and the score of its name.
pub open spec fn is_match_of(
    m: symbols::MatchView,
    path: Seq<char>,
    symbol: symbols::SymbolView,
    kind: Seq<char>,
    needle: Seq<char>,
) -> bool {
    &&& m.symbol == symbol.name
    &&& m.file == path
    &&& m.line == symbol.line
    &&& m.signature == symbol.signature
    &&& m.kind == kind
    &&& lookup::fuzzy_score(text::lowercase(symbol.name), needle) == Some((m.score, m.match_type))
}

/// Of the classes of a file that have the same name, and match, the first is found, and likewise of
/// the methods.
pub proof fn law_first_of_a_name_is_matched(
    files: Seq<symbols::FileView>,
    needle: Seq<char>,
    f: int,
    k: int,
)
    requires
        lookup::file_paths_differ(files),
        0 <= f < files.len(),
    ensures
        ({
            let all = files[f].classes;
            0 <= k < all.len() && (forall|j: int|
                0 <= j < k ==> (#[trigger] all[j]).name != all[k].name) && text::occurs_in(
                text::lowercase(all[k].name),
                needle,
            ) ==> exists|i: int|
                0 <= i < lookup::matches_in(files, needle).len() && is_match_of(
                    #[trigger] lookup::matches_in(files, needle)[i],
                    files[f].path,
                    all[k],
                    "class"@,
                    needle,
                )
        }),
        ({
            let all = files[f].methods;
            0 <= k < all.len() && (forall|j: int|
                0 <= j < k ==> (#[trigger] all[j]).name != all[k].name) && text::occurs_in(
                text::lowercase(all[k].name),
                needle,
            ) ==> exists|i: int|
                0 <= i < lookup::matches_in(files, needle).len() && is_match_of(
                    #[trigger] lookup::matches_in(files, needle)[i],
                    files[f].path,
                    all[k],
                    "method"@,
                    needle,
                )
        }),
{
    let r = lookup::matches_in(files, needle);
    let classes = files[f].classes;
    let methods = files[f].methods;
    if 0 <= k < classes.len() && (forall|j: int|
        0 <= j < k ==> (#[trigger] classes[j]).name != classes[k].name) && text::occurs_in(
        text::lowercase(classes[k].name),
        needle,
    ) {
        lemma_first_of_name_is_matched(files, needle, f, classes, k, "class"@);
        let (score, match_type) = lookup::fuzzy_score(
            text::lowercase(classes[k].name),
            needle,
        )->0;
        let m = symbols::MatchView {
            symbol: classes[k].name,
            file: files[f].path,
            line: classes[k].line,
            signature: classes[k].signature,
            kind: "class"@,
            score,
            match_type,
        };
        assert(is_match_of(r[r.index_of(m)], files[f].path, classes[k], "class"@, needle));
    }
    if 0 <= k < methods.len() && (forall|j: int|
        0 <= j < k ==> (#[trigger] methods[j]).name != methods[k].name) && text::occurs_in(
        text::lowercase(methods[k].name),
        needle,
    ) {
        lemma_first_of_name_is_matched(files, needle, f, methods, k, "method"@);
        let (score, match_type) = lookup::fuzzy_score(
            text::lowercase(methods[k].name),
            needle,
        )->0;
        let m = symbols::MatchView {
            symbol: methods[k].name,
            file: files[f].path,
            line: methods[k].line,
            signature: methods[k].signature,
            kind: "method"@,
            score,
            match_type,
        };
        assert(is_match_of(r[r.index_of(m)], files[f].path, methods[k], "method"@, needle));
    }
}

/// Among the matches of a fuzzy lookup, one that begins with the needle stands before one that
/// only holds it, unless its name is longer by nine thousand bytes or more.
pub proof fn law_prefix_stands_before_contains(
    files: Seq<symbols::FileView>,
    needle: Seq<char>,
    limit: nat,
    i: int,
    j: int,
)
    requires
        ({
            let best = lookup::best_matches(files, needle, limit);
            let a = text::lowercase(best[i].symbol);
            let b = text::lowercase(best[j].symbol);
            &&& 0 <= i < best.len()
            &&& 0 <= j < best.len()
            &&& is_short(a)
            &&& is_short(b)
            &&& is_short(needle)
            &&& needle.is_prefix_of(a)
            &&& !needle.is_prefix_of(b)
            &&& distance(a, needle) < distance(b, needle) + 9_000
        }),
    ensures
        i < j,
{
    let all = lookup::matches_in(files, needle);
    let best = lookup::best_matches(files, needle, limit);
    let a = text::lowercase(best[i].symbol);
    let b = text::lowercase(best[j].symbol);
    law_best_matches(files, needle, limit);
    lemma_matches_in(files, needle);
    assert(all.contains(best[i]) && all.contains(best[j]));
    assert(is_match_in(all[all.index_of(best[i])], files, needle));
    assert(is_match_in(all[all.index_of(best[j])], files, needle));
    law_fuzzy_score(a, needle);
    law_fuzzy_score(b, needle);
    law_prefix_outranks_contains(a, b, needle);
    if j <= i {
        assert(<FuzzySymbolMatch as rank::Ranked>::no_later(best[j], best[i]));
    }
}

// ---------------------------------------------------------------------------
// Exact and fuzzy lookup together
// ---------------------------------------------------------------------------

proof fn lemma_first_is_added(
    found: Seq<symbols::MatchView>,
    path: Seq<char>,
    all: Seq<symbols::SymbolView>,
    kind: Seq<char>,
    needle: Seq<char>,
    i: int,
)
    requires
        all_differ(found),
        0 <= i < all.len(),
        forall|j: int| 0 <= j < i ==> (#[trigger] all[j]).name != all[i].name,
        !lookup::already_found(found, path, all[i].name, kind),
        lookup::fuzzy_score(text::lowercase(all[i].name), needle) is Some,
    ensures
        ({
            let (score, match_type) = lookup::fuzzy_score(
                text::lowercase(all[i].name),
                needle,
            )->0;
            lookup::add_symbols(found, path, all, kind, needle).contains(
                lookup::match_at(lookup::location(path, all[i], kind), score, match_type),
            )
        }),
    decreases all.len(),
{
    let (score, match_type) = lookup::fuzzy_score(text::lowercase(all[i].name), needle)->0;
    let m = lookup::match_at(lookup::location(path, all[i], kind), score, match_type);
    let front = all.drop_last();
    let before = lookup::add_symbols(found, path, front, kind, needle);
    let r = lookup::add_symbols(found, path, all, kind, needle);
    lemma_add_symbols(found, path, front, kind, needle);
    if i == all.len() - 1 {
        assert(!lookup::already_found(before, path, all[i].name, kind)) by {
            if lookup::already_found(before, path, all[i].name, kind) {
                let k = choose|k: int|
                    0 <= k < before.len() && (#[trigger] before[k]).file == path
                        && before[k].symbol == all[i].name && before[k].kind == kind;
                if k < found.len() {
                    assert(found[k] == before[k]);
                } else {
                    assert(is_match_among(before[k], path, front, kind, needle));
                    let j = choose|j: int|
                        0 <= j < front.len() && (#[trigger] front[j]).name == before[k].symbol
                            && front[j].line == before[k].line && front[j].signature
                            == before[k].signature;
                    assert(all[j].name == all[i].name);
                }
            }
        }
        assert(r[before.len() as int] == m);
    } else {
        assert forall|j: int| 0 <= j < i implies (#[trigger] front[j]).name != front[i].name by {
            assert(all[j].name != all[i].name);
        }
        lemma_first_is_added(found, path, front, kind, needle, i);
        let k = before.index_of(m);
        assert(r[k] == m);
    }
}

proof fn lemma_declaration_is_matched(
    files: Seq<symbols::FileView>,
    name: Seq<char>,
    needle: Seq<char>,
    f: int,
)
    requires
        lookup::file_paths_differ(files),
        0 <= f < files.len(),
        lookup::declared_in(files[f], name) is Some,
        lookup::fuzzy_score(text::lowercase(name), needle) is Some,
    ensures
        ({
            let (score, match_type) = lookup::fuzzy_score(text::lowercase(name), needle)->0;
            lookup::matches_in(files, needle).contains(
                lookup::match_at(lookup::declared_in(files[f], name)->0, score, match_type),
            )
        }),
    decreases files.len(),
{
    let (score, match_type) = lookup::fuzzy_score(text::lowercase(name), needle)->0;
    let m = lookup::match_at(lookup::declared_in(files[f], name)->0, score, match_type);
    let front = files.drop_last();
    let file = files.last();
    let before = lookup::matches_in(front, needle);
    let classes = lookup::add_symbols(before, file.path, file.classes, "class"@, needle);
    let r = lookup::matches_in(files, needle);
    lemma_matches_in(front, needle);
    lemma_add_symbols(before, file.path, file.classes, "class"@, needle);
    lemma_add_symbols(classes, file.path, file.methods, "method"@, needle);
    assert(forall|i: int| 0 <= i < before.len() ==> before[i] == classes[i]);
    assert(forall|i: int| 0 <= i < classes.len() ==> classes[i] == r[i]);
    if f < front.len() {
        assert(lookup::file_paths_differ(front)) by {
            assert forall|i: int, j: int| 0 <= i < j < front.len() implies (
            #[trigger] front[i]).path != (#[trigger] front[j]).path by {
                assert(files[i].path != files[j].path);
            }
        }
        assert(front[f] == files[f]);
        lemma_declaration_is_matched(front, name, needle, f);
        assert(r[before.index_of(m)] == m);
    } else {
        assert forall|i: int| 0 <= i < before.len() implies (#[trigger] before[i]).file
            != file.path by {
            assert(is_match_in(before[i], front, needle));
            let k = choose|k: int|
                0 <= k < front.len() && (is_match_among(
                    before[i],
                    (#[trigger] front[k]).path,
                    front[k].classes,
                    "class"@,
                    needle,
                ) || is_match_among(before[i], front[k].path, front[k].methods, "method"@, needle));
            assert(files[k].path != files[f].path);
        }
        law_first_named(file.classes, name);
        law_first_named(file.methods, name);
        match lookup::first_named(file.classes, name) {
            Some(s) => {
                let i = choose|i: int|
                    0 <= i < file.classes.len() && #[trigger] file.classes[i] == s && s.name == name
                        && (forall|j: int|
                        0 <= j < i ==> (#[trigger] file.classes[j]).name != name);
                lemma_first_is_added(before, file.path, file.classes, "class"@, needle, i);
                assert(r[classes.index_of(m)] == m);
            },
            None => {
                let s = lookup::first_named(file.methods, name)->0;
                let i = choose|i: int|
                    0 <= i < file.methods.len() && #[trigger] file.methods[i] == s && s.name == name
                        && (forall|j: int|
                        0 <= j < i ==> (#[trigger] file.methods[j]).name != name);
                reveal_strlit("class");
                reveal_strlit("method");
                assert("class"@.len() == 5 && "method"@.len() == 6);
                assert(!lookup::already_found(classes, file.path, name, "method"@)) by {
                    assert forall|k: int| 0 <= k < classes.len() implies !((
                    #[trigger] classes[k]).file == file.path && classes[k].kind == "method"@) by {
                        if k >= before.len() {
                            assert(is_match_among(
                                classes[k],
                                file.path,
                                file.classes,
                                "class"@,
                                needle,
                            ));
                        }
                    }
                }
                lemma_first_is_added(classes, file.path, file.methods, "method"@, needle, i);
            },
        }
    }
}

proof fn lemma_short_identifier(name: Seq<char>)
    requires
        text::is_identifier(name),
        text::lowers_as_ascii(name),
        name.len() <= i32::MAX,
    ensures
        is_short(text::lowercase(name)),
        text::lowercase(name).len() > 0,
{
    text::lemma_identifier(name);
    let lower = text::ascii_lowered(name);
    assert forall|i: int| 0 <= i < lower.len() implies '\0' <= #[trigger] lower[i] <= '\u{7f}' by {
        assert('\0' <= name[i] <= '\u{7f}');
    }
    assert(vstd::utf8::is_ascii_chars(lower));
    vstd::utf8::is_ascii_chars_encode_utf8(lower);
}

proof fn lemma_match_is_short(
    m: symbols::MatchView,
    files: Seq<symbols::FileView>,
    needle: Seq<char>,
)
    requires
        is_match_in(m, files, needle),
        java::files_are_named(files),
        lookup::files_have_short_names(files),
        text::lowers_as_ascii(m.symbol),
    ensures
        is_short(text::lowercase(m.symbol)),
{
    let f = choose|f: int|
        0 <= f < files.len() && (is_match_among(
            m,
            (#[trigger] files[f]).path,
            files[f].classes,
            "class"@,
            needle,
        ) || is_match_among(m, files[f].path, files[f].methods, "method"@, needle));
    let file = files[f];
    assert(java::file_is_named(file));
    assert(lookup::names_are_short(file.classes) && lookup::names_are_short(file.methods));
    if is_match_among(m, file.path, file.classes, "class"@, needle) {
        let i = choose|i: int|
            0 <= i < file.classes.len() && (#[trigger] file.classes[i]).name == m.symbol
                && file.classes[i].line == m.line && file.classes[i].signature == m.signature;
        assert(java::is_named(file.classes[i]));
    } else {
        let i = choose|i: int|
            0 <= i < file.methods.len() && (#[trigger] file.methods[i]).name == m.symbol
                && file.methods[i].line == m.line && file.methods[i].signature == m.signature;
        assert(java::is_named(file.methods[i]));
    }
    lemma_short_identifier(m.symbol);
}

/// What an exact lookup finds is among the matches of a fuzzy lookup of the same name whose limit
/// leaves none out: the same symbol, at the same place, as a prefix with the score ten thousand.
/// The first match has that score, and none has a higher one. That the files are named by
/// identifiers, and how these are lowered, is what the functions that build and search the map
/// state of them.
pub proof fn law_exact_find_is_a_top_match(
    files: Seq<symbols::FileView>,
    symbol: Seq<char>,
    limit: nat,
)
    requires
        lookup::declared(files, symbol) is Some,
        java::files_are_named(files),
        lookup::file_paths_differ(files),
        lookup::files_have_short_names(files),
        lookup::matches_in(files, lookup::needle_of(symbol)).len() <= limit,
        text::lowers_as_ascii(symbol),
        lookup::all_lower_as_ascii(lookup::matches_in(files, lookup::needle_of(symbol))),
    ensures
        (lookup::declared(files, symbol)->0).symbol == symbol,
        lookup::is_top_match(
            lookup::fuzzy_matches(files, symbol, limit),
            lookup::declared(files, symbol)->0,
        ),
{
    let loc = lookup::declared(files, symbol)->0;
    law_lookup_finds_the_first_declaration(files, symbol);
    let f = choose|f: int|
        0 <= f < files.len() && lookup::declared_in(#[trigger] files[f], symbol) == Some(loc) && (
        forall|j: int| 0 <= j < f ==> lookup::declared_in(#[trigger] files[j], symbol) is None);
    let file = files[f];
    law_declared_in_file(file, symbol);
    assert(java::file_is_named(file));
    assert(lookup::names_are_short(file.classes) && lookup::names_are_short(file.methods));
    assert(text::is_identifier(symbol) && symbol.len() <= i32::MAX) by {
        if names(file.classes, symbol) {
            let i = choose|i: int|
                0 <= i < file.classes.len() && (#[trigger] file.classes[i]).name == symbol;
            assert(java::is_named(file.classes[i]));
        } else {
            let i = choose|i: int|
                0 <= i < file.methods.len() && (#[trigger] file.methods[i]).name == symbol;
            assert(java::is_named(file.methods[i]));
        }
    }
    text::lemma_identifier(symbol);
    lemma_short_identifier(symbol);
    let needle = lookup::needle_of(symbol);
    assert(needle == text::lowercase(symbol));
    let all = lookup::matches_in(files, needle);
    let best = lookup::best_matches(files, needle, limit);
    let m = lookup::match_at(loc, 10_000, "prefix"@);
    law_needle_scores_highest(needle, needle);
    lemma_declaration_is_matched(files, symbol, needle, f);
    lemma_matches_in(files, needle);
    lemma_ranked_differs(all);
    law_best_matches(files, needle, limit);
    assert(best.contains(m));
    assert forall|i: int| 0 <= i < best.len() implies (#[trigger] best[i]).score <= 10_000 by {
        assert(all.contains(best[i]));
        let k = all.index_of(best[i]);
        assert(is_match_in(all[k], files, needle));
        lemma_match_is_short(all[k], files, needle);
        law_needle_scores_highest(text::lowercase(all[k].symbol), needle);
    }
    let k = best.index_of(m);
    assert(<FuzzySymbolMatch as rank::Ranked>::no_later(best[0], best[k]));
}

/// Two symbols that are the same once they are trimmed and lowered find the same matches, scores
/// and all.
pub proof fn law_same_needle_finds_the_same(
    files: Seq<symbols::FileView>,
    a: Seq<char>,
    b: Seq<char>,
    limit: nat,
)
    requires
        text::lowercase(text::trimmed(a)) == text::lowercase(text::trimmed(b)),
    ensures
        lookup::fuzzy_matches(files, a, limit) == lookup::fuzzy_matches(files, b, limit),
{
}

/// A lower limit gives the beginning of what a higher limit gives.
pub proof fn law_limit_cuts_from_behind(
    files: Seq<symbols::FileView>,
    needle: Seq<char>,
    low: nat,
    high: nat,
)
    requires
        low <= high,
    ensures
        lookup::best_matches(files, needle, low).is_prefix_of(
            lookup::best_matches(files, needle, high),
        ),
{
    let a = lookup::best_matches(files, needle, low);
    let b = lookup::best_matches(files, needle, high);
    assert(a =~= b.subrange(0, a.len() as int));
}

} // verus!
