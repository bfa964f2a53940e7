//! Laws of the Java index.

use crate::java;
use crate::java::{SourceView, StampedView};
use crate::patterns;
use crate::patterns::{JAVA_CLASS, JAVA_METHOD};
use crate::rank;
use crate::symbols;
use crate::symbols::JavaRepoIndexCache;
use crate::text;
use vstd::prelude::*;

verus! {

/// Whether `s` stands on a line of its own among `lines`: the line that its number counts from
/// one, which is its signature but for the white space around it.
pub open spec fn stands_on_its_line(s: symbols::SymbolView, lines: Seq<Seq<char>>) -> bool {
    1 <= s.line <= lines.len() && s.signature == text::trimmed(lines[s.line - 1])
}

/// Whether the line numbers of `all` go up.
pub open spec fn lines_go_up(all: Seq<symbols::SymbolView>) -> bool {
    forall|i: int, j: int|
        0 <= i < j < all.len() ==> (#[trigger] all[i]).line < (#[trigger] all[j]).line
}

proof fn lemma_classes_in(lines: Seq<Seq<char>>)
    requires
        lines.len() <= usize::MAX,
    ensures
        forall|i: int|
            0 <= i < java::classes_in(lines).len() ==> stands_on_its_line(
                #[trigger] java::classes_in(lines)[i],
                lines,
            ),
        lines_go_up(java::classes_in(lines)),
    decreases lines.len(),
{
    if lines.len() > 0 {
        lemma_classes_in(lines.drop_last());
        let before = java::classes_in(lines.drop_last());
        assert forall|i: int| 0 <= i < java::classes_in(lines).len() implies stands_on_its_line(
            #[trigger] java::classes_in(lines)[i],
            lines,
        ) by {
            if i < before.len() {
                assert(stands_on_its_line(before[i], lines.drop_last()));
            }
        }
        let all = java::classes_in(lines);
        assert forall|i: int, j: int| 0 <= i < j < all.len() implies (#[trigger] all[i]).line < (
        #[trigger] all[j]).line by {
            assert(stands_on_its_line(before[i], lines.drop_last()));
            if j < before.len() {
                assert(before[i].line < before[j].line);
            }
        }
    }
}

proof fn lemma_methods_in(lines: Seq<Seq<char>>)
    requires
        lines.len() <= usize::MAX,
    ensures
        forall|i: int|
            0 <= i < java::methods_in(lines).len() ==> stands_on_its_line(
                #[trigger] java::methods_in(lines)[i],
                lines,
            ) && !java::is_control_word(java::methods_in(lines)[i].name),
        lines_go_up(java::methods_in(lines)),
    decreases lines.len(),
{
    if lines.len() > 0 {
        lemma_methods_in(lines.drop_last());
        let before = java::methods_in(lines.drop_last());
        assert forall|i: int| 0 <= i < java::methods_in(lines).len() implies stands_on_its_line(
            #[trigger] java::methods_in(lines)[i],
            lines,
        ) && !java::is_control_word(java::methods_in(lines)[i].name) by {
            if i < before.len() {
                assert(stands_on_its_line(before[i], lines.drop_last()));
            }
        }
        let all = java::methods_in(lines);
        assert forall|i: int, j: int| 0 <= i < j < all.len() implies (#[trigger] all[i]).line < (
        #[trigger] all[j]).line by {
            assert(stands_on_its_line(before[i], lines.drop_last()));
            if j < before.len() {
                assert(before[i].line < before[j].line);
            }
        }
    }
}

/// Each symbol of a file stands on the line that it gives, and has that line for its signature.
/// Classes come in the order of their lines, and so do methods.
pub proof fn law_symbols_stand_on_their_lines(path: Seq<char>, content: Seq<char>)
    requires
        text::lines_of(content).len() <= usize::MAX,
    ensures
        ({
            let file = java::java_file(path, content);
            let lines = text::lines_of(content);
            &&& forall|i: int|
                0 <= i < file.classes.len() ==> stands_on_its_line(
                    #[trigger] file.classes[i],
                    lines,
                )
            &&& forall|i: int|
                0 <= i < file.methods.len() ==> stands_on_its_line(
                    #[trigger] file.methods[i],
                    lines,
                )
            &&& lines_go_up(file.classes)
            &&& lines_go_up(file.methods)
        }),
{
    lemma_classes_in(text::lines_of(content));
    lemma_methods_in(text::lines_of(content));
}

/// No method is named by a word that opens a block of control flow.
pub proof fn law_no_method_is_control_flow(path: Seq<char>, content: Seq<char>)
    requires
        text::lines_of(content).len() <= usize::MAX,
    ensures
        forall|i: int|
            0 <= i < java::java_file(path, content).methods.len() ==> !java::is_control_word(
                (#[trigger] java::java_file(path, content).methods[i]).name,
            ),
{
    lemma_methods_in(text::lines_of(content));
}

/// Whether `name` is none of the words that open a block of control flow.
pub open spec fn is_no_control_word(name: Seq<char>) -> bool {
    name != "if"@ && name != "for"@ && name != "while"@ && name != "switch"@ && name != "catch"@
}

/// The patterns of classes and methods, as they are written.
pub proof fn law_java_patterns()
    ensures
        JAVA_CLASS@ == r"\b(class|interface|enum)\s+([A-Za-z_][A-Za-z0-9_]*)"@,
        JAVA_METHOD@
            == r"^\s*(public|protected|private)?\s*(static\s+)?([A-Za-z0-9_<>\[\], ?]+)\s+([A-Za-z_][A-Za-z0-9_]*)\s*\(([^)]*)\)\s*\{\s*$"@,
{
}

/// The words of control flow are the five that are asked for, and no others.
pub proof fn law_control_words(name: Seq<char>)
    ensures
        java::is_control_word(name) <==> !is_no_control_word(name),
{
}

proof fn lemma_every_class_is_listed(lines: Seq<Seq<char>>, i: int)
    requires
        lines.len() <= usize::MAX,
        0 <= i < lines.len(),
    ensures
        match patterns::regex_group(JAVA_CLASS@, lines[i], 2) {
            Some(group) => java::classes_in(lines).contains(
                symbols::SymbolView {
                    name: match group {
                        Some(name) => name,
                        None => "Unknown"@,
                    },
                    signature: text::trimmed(lines[i]),
                    line: (i + 1) as usize,
                },
            ),
            None => true,
        },
    decreases lines.len(),
{
    let all = java::classes_in(lines);
    let before = java::classes_in(lines.drop_last());
    if let Some(group) = patterns::regex_group(JAVA_CLASS@, lines[i], 2) {
        let s = symbols::SymbolView {
            name: match group {
                Some(name) => name,
                None => "Unknown"@,
            },
            signature: text::trimmed(lines[i]),
            line: (i + 1) as usize,
        };
        if i == lines.len() - 1 {
            assert(all[all.len() - 1] == s);
        } else {
            lemma_every_class_is_listed(lines.drop_last(), i);
            assert(all[before.index_of(s)] == s);
        }
    }
}

proof fn lemma_every_method_is_listed(lines: Seq<Seq<char>>, i: int)
    requires
        lines.len() <= usize::MAX,
        0 <= i < lines.len(),
    ensures
        match patterns::regex_group(JAVA_METHOD@, lines[i], 4) {
            Some(group) => {
                let name = match group {
                    Some(name) => name,
                    None => "unknown"@,
                };
                is_no_control_word(name) ==> java::methods_in(lines).contains(
                    symbols::SymbolView {
                        name,
                        signature: text::trimmed(lines[i]),
                        line: (i + 1) as usize,
                    },
                )
            },
            None => true,
        },
    decreases lines.len(),
{
    let all = java::methods_in(lines);
    let before = java::methods_in(lines.drop_last());
    if let Some(group) = patterns::regex_group(JAVA_METHOD@, lines[i], 4) {
        let name = match group {
            Some(name) => name,
            None => "unknown"@,
        };
        let s = symbols::SymbolView {
            name,
            signature: text::trimmed(lines[i]),
            line: (i + 1) as usize,
        };
        if is_no_control_word(name) {
            if i == lines.len() - 1 {
                assert(all[all.len() - 1] == s);
            } else {
                lemma_every_method_is_listed(lines.drop_last(), i);
                assert(all[before.index_of(s)] == s);
            }
        }
    }
}

/// Each line of a file on which the class pattern matches is listed among the classes of the file,
/// and each line on which the method pattern matches, with a name that is no word of control flow,
/// is listed among its methods: under the name that the pattern captured, with the number of the
/// line and the line for the signature. Other lines may stand before and after it.
pub proof fn law_every_declaration_is_listed(path: Seq<char>, content: Seq<char>, i: int)
    requires
        text::lines_of(content).len() <= usize::MAX,
        0 <= i < text::lines_of(content).len(),
    ensures
        ({
            let file = java::java_file(path, content);
            let line = text::lines_of(content)[i];
            &&& match patterns::regex_group(JAVA_CLASS@, line, 2) {
                Some(group) => file.classes.contains(
                    symbols::SymbolView {
                        name: match group {
                            Some(name) => name,
                            None => "Unknown"@,
                        },
                        signature: text::trimmed(line),
                        line: (i + 1) as usize,
                    },
                ),
                None => true,
            }
            &&& match patterns::regex_group(JAVA_METHOD@, line, 4) {
                Some(group) => {
                    let name = match group {
                        Some(name) => name,
                        None => "unknown"@,
                    };
                    is_no_control_word(name) ==> file.methods.contains(
                        symbols::SymbolView {
                            name,
                            signature: text::trimmed(line),
                            line: (i + 1) as usize,
                        },
                    )
                },
                None => true,
            }
        }),
{
    lemma_every_class_is_listed(text::lines_of(content), i);
    lemma_every_method_is_listed(text::lines_of(content), i);
}

/// Whether a pattern that captured `group` gives the name `name`, which is `otherwise` where the
/// pattern matched without a name.
pub open spec fn gives_name(
    group: Option<Option<Seq<char>>>,
    name: Seq<char>,
    otherwise: Seq<char>,
) -> bool {
    match group {
        Some(Some(captured)) => name == captured,
        Some(None) => name == otherwise,
        None => false,
    }
}

proof fn lemma_every_class_is_declared(lines: Seq<Seq<char>>, k: int)
    requires
        lines.len() <= usize::MAX,
        0 <= k < java::classes_in(lines).len(),
    ensures
        ({
            let s = java::classes_in(lines)[k];
            &&& stands_on_its_line(s, lines)
            &&& gives_name(
                patterns::regex_group(JAVA_CLASS@, lines[s.line - 1], 2),
                s.name,
                "Unknown"@,
            )
        }),
    decreases lines.len(),
{
    let before = java::classes_in(lines.drop_last());
    if k < before.len() {
        lemma_every_class_is_declared(lines.drop_last(), k);
    }
}

proof fn lemma_every_method_is_declared(lines: Seq<Seq<char>>, k: int)
    requires
        lines.len() <= usize::MAX,
        0 <= k < java::methods_in(lines).len(),
    ensures
        ({
            let s = java::methods_in(lines)[k];
            &&& stands_on_its_line(s, lines)
            &&& is_no_control_word(s.name)
            &&& gives_name(
                patterns::regex_group(JAVA_METHOD@, lines[s.line - 1], 4),
                s.name,
                "unknown"@,
            )
        }),
    decreases lines.len(),
{
    let before = java::methods_in(lines.drop_last());
    if k < before.len() {
        lemma_every_method_is_declared(lines.drop_last(), k);
    }
}

/// Each class of a file is named as the class pattern captured it on the line of the class, and
/// each method as the method pattern captured it on its line, where it is no word of control flow.
/// The file is at the path that it was read from.
pub proof fn law_every_symbol_is_declared(path: Seq<char>, content: Seq<char>)
    requires
        text::lines_of(content).len() <= usize::MAX,
    ensures
        ({
            let file = java::java_file(path, content);
            let lines = text::lines_of(content);
            &&& file.path == path
            &&& forall|k: int|
                0 <= k < file.classes.len() ==> {
                    let s = #[trigger] file.classes[k];
                    stands_on_its_line(s, lines) && gives_name(
                        patterns::regex_group(JAVA_CLASS@, lines[s.line - 1], 2),
                        s.name,
                        "Unknown"@,
                    )
                }
            &&& forall|k: int|
                0 <= k < file.methods.len() ==> {
                    let s = #[trigger] file.methods[k];
                    stands_on_its_line(s, lines) && is_no_control_word(s.name) && gives_name(
                        patterns::regex_group(JAVA_METHOD@, lines[s.line - 1], 4),
                        s.name,
                        "unknown"@,
                    )
                }
        }),
{
    let file = java::java_file(path, content);
    let lines = text::lines_of(content);
    assert forall|k: int| 0 <= k < file.classes.len() implies ({
        let s = #[trigger] file.classes[k];
        stands_on_its_line(s, lines) && gives_name(
            patterns::regex_group(JAVA_CLASS@, lines[s.line - 1], 2),
            s.name,
            "Unknown"@,
        )
    }) by {
        lemma_every_class_is_declared(lines, k);
    }
    assert forall|k: int| 0 <= k < file.methods.len() implies ({
        let s = #[trigger] file.methods[k];
        stands_on_its_line(s, lines) && is_no_control_word(s.name) && gives_name(
            patterns::regex_group(JAVA_METHOD@, lines[s.line - 1], 4),
            s.name,
            "unknown"@,
        )
    }) by {
        lemma_every_method_is_declared(lines, k);
    }
}

/// The map of a repository is at the root that was asked for, and in Java. The sources of two
/// walks one after the other give the files of the first, then those of the second. One source
/// gives its file where it has a class or a method, and nothing otherwise.
pub proof fn law_map_takes_sources_one_by_one(
    root: Seq<char>,
    first: Seq<SourceView>,
    second: Seq<SourceView>,
    source: SourceView,
)
    ensures
        java::java_map(root, first).root == root,
        java::java_map(root, first).language == "java"@,
        java::java_map(root, first + second).files == java::java_map(root, first).files
            + java::java_map(root, second).files,
        java::java_map(root, seq![source]).files == ({
            let file = java::java_file(source.path, source.content);
            if file.classes.len() == 0 && file.methods.len() == 0 {
                Seq::empty()
            } else {
                seq![file]
            }
        }),
{
    let parse = |s: SourceView| java::java_file(s.path, s.content);
    let keep = |f: symbols::FileView| java::declares(f);
    assert((first + second).map_values(parse) =~= first.map_values(parse) + second.map_values(
        parse,
    ));
    lemma_filter_concat(first.map_values(parse), second.map_values(parse), keep);
    let one = seq![source].map_values(parse);
    let file = java::java_file(source.path, source.content);
    assert(one =~= Seq::empty().push(file));
    rank::lemma_filter_push(Seq::empty(), file, keep);
    reveal(Seq::filter);
    assert(Seq::<symbols::FileView>::empty().filter(keep) =~= Seq::empty());
    assert(java::java_map(root, seq![source]).files =~= ({
        if file.classes.len() == 0 && file.methods.len() == 0 {
            Seq::empty()
        } else {
            seq![file]
        }
    }));
}

proof fn lemma_filter_concat<A>(a: Seq<A>, b: Seq<A>, p: spec_fn(A) -> bool)
    ensures
        (a + b).filter(p) == a.filter(p) + b.filter(p),
    decreases b.len(),
{
    reveal(Seq::filter);
    if b.len() == 0 {
        assert(a + b =~= a);
        assert(a.filter(p) + b.filter(p) =~= a.filter(p));
    } else {
        lemma_filter_concat(a, b.drop_last(), p);
        assert((a + b).drop_last() =~= a + b.drop_last());
        assert((a + b).filter(p) =~= a.filter(p) + b.filter(p));
    }
}

/// A repository map holds exactly the sources that declare anything.
pub proof fn law_map_holds_the_declaring_files(sources: Seq<SourceView>, file: symbols::FileView)
    ensures
        java::declaring_files(sources).contains(file) <==> java::declares(file) && (exists|i: int|
            0 <= i < sources.len() && file == java::java_file(
                (#[trigger] sources[i]).path,
                sources[i].content,
            )),
    decreases sources.len(),
{
    let parse = |s: SourceView| java::java_file(s.path, s.content);
    let keep = |f: symbols::FileView| java::declares(f);
    let parsed = sources.map_values(parse);
    let kept = parsed.filter(keep);
    broadcast use Seq::lemma_filter_contains_rev;

    if kept.contains(file) {
        let i = kept.index_of(file);
        parsed.lemma_filter_pred(keep, i);
        assert(parsed.contains(file));
        let j = parsed.index_of(file);
        assert(file == java::java_file(sources[j].path, sources[j].content));
    }
    if java::declares(file) && (exists|i: int|
        0 <= i < sources.len() && file == java::java_file(
            (#[trigger] sources[i]).path,
            sources[i].content,
        )) {
        let i = choose|i: int|
            0 <= i < sources.len() && file == java::java_file(
                (#[trigger] sources[i]).path,
                sources[i].content,
            );
        assert(parsed[i] == file);
        parsed.lemma_filter_contains(keep, i);
    }
}

// ---------------------------------------------------------------------------
// Indexing again
// ---------------------------------------------------------------------------

/// Whether no two of `files` are at the same path.
pub open spec fn paths_differ(files: Seq<StampedView>) -> bool {
    forall|i: int, j: int|
        0 <= i < j < files.len() ==> (#[trigger] files[i]).path != (#[trigger] files[j]).path
}

/// Whether `a` and `b` are the same files with the same stamps, whatever they hold.
pub open spec fn same_stamps(a: Seq<StampedView>, b: Seq<StampedView>) -> bool {
    &&& a.len() == b.len()
    &&& forall|i: int|
        0 <= i < a.len() ==> (#[trigger] a[i]).path == b[i].path && a[i].modified_unix_ms
            == b[i].modified_unix_ms && a[i].size_bytes == b[i].size_bytes
}

proof fn lemma_last_at_only(entries: Seq<symbols::CachedFileView>, path: Seq<char>, i: int)
    requires
        0 <= i < entries.len(),
        entries[i].path == path,
        forall|j: int| i < j < entries.len() ==> (#[trigger] entries[j]).path != path,
    ensures
        java::last_at(entries, path) == Some(i),
    decreases entries.len(),
{
    if i < entries.len() - 1 {
        assert(entries[entries.len() - 1].path != path);
        lemma_last_at_only(entries.drop_last(), path, i);
    }
}

proof fn lemma_entry_keeps_stamp(entries: Seq<symbols::CachedFileView>, file: StampedView)
    ensures
        java::entry_for(entries, file).path == file.path,
        java::entry_for(entries, file).modified_unix_ms == file.modified_unix_ms,
        java::entry_for(entries, file).size_bytes == file.size_bytes,
{
    java::lemma_last_at(entries, file.path);
}

/// Files that are indexed again with the cache of the last run, and whose stamps did not change,
/// are all reused, and the cache stays as it is.
pub proof fn law_unchanged_files_are_reused(
    entries: Seq<symbols::CachedFileView>,
    files: Seq<StampedView>,
    again: Seq<StampedView>,
)
    requires
        paths_differ(files),
        same_stamps(files, again),
    ensures
        java::reused_count(java::next_entries(entries, files), again) == again.len(),
        java::next_entries(java::next_entries(entries, files), again) == java::next_entries(
            entries,
            files,
        ),
{
    let cache = java::next_entries(entries, files);
    let hit = |f: StampedView| java::is_reusable(cache, f);
    assert forall|i: int| 0 <= i < again.len() implies java::reusable(
        cache,
        (#[trigger] again[i]).path,
        again[i].modified_unix_ms,
        again[i].size_bytes,
    ) == Some(cache[i]) by {
        lemma_entry_keeps_stamp(entries, files[i]);
        assert(files[i].path == again[i].path);
        assert forall|j: int| i < j < cache.len() implies (#[trigger] cache[j]).path
            != again[i].path by {
            lemma_entry_keeps_stamp(entries, files[j]);
            assert(files[i].path != files[j].path);
        }
        lemma_last_at_only(cache, again[i].path, i);
    }
    assert(java::next_entries(cache, again) =~= cache);
    lemma_filter_all(again, hit);
}

proof fn lemma_filter_all<A>(s: Seq<A>, p: spec_fn(A) -> bool)
    requires
        forall|i: int| 0 <= i < s.len() ==> p(#[trigger] s[i]),
    ensures
        s.filter(p) == s,
    decreases s.len(),
{
    reveal(Seq::filter);
    if s.len() > 0 {
        assert forall|i: int| 0 <= i < s.drop_last().len() implies p(
            #[trigger] s.drop_last()[i],
        ) by {
            assert(p(s[i]));
        }
        lemma_filter_all(s.drop_last(), p);
        assert(p(s[s.len() - 1]));
        assert(s =~= s.drop_last().push(s.last()));
    } else {
        assert(s.filter(p) =~= s);
    }
}

/// Whether entry `j` is the last of `entries` at `path`.
pub open spec fn is_last_at(
    entries: Seq<symbols::CachedFileView>,
    path: Seq<char>,
    j: int,
) -> bool {
    &&& 0 <= j < entries.len()
    &&& entries[j].path == path
    &&& forall|k: int| j < k < entries.len() ==> (#[trigger] entries[k]).path != path
}

/// Indexing again gives one entry for each file, in the order of the files, with the path and the
/// stamp of the file. The entry has the symbols of the last earlier entry at that path, where that
/// one has the stamp of the file, and the symbols of what the file holds otherwise.
pub proof fn law_each_file_has_its_entry(
    entries: Seq<symbols::CachedFileView>,
    files: Seq<StampedView>,
    i: int,
)
    requires
        0 <= i < files.len(),
    ensures
        ({
            let next = java::next_entries(entries, files);
            let file = files[i];
            let fresh = java::java_file(file.path, file.content);
            &&& next.len() == files.len()
            &&& next[i].path == file.path
            &&& next[i].modified_unix_ms == file.modified_unix_ms
            &&& next[i].size_bytes == file.size_bytes
            &&& forall|j: int|
                is_last_at(entries, file.path, j) && #[trigger] entries[j].modified_unix_ms
                    == file.modified_unix_ms && entries[j].size_bytes == file.size_bytes
                    ==> next[i].classes == entries[j].classes && next[i].methods
                    == entries[j].methods
            &&& (forall|j: int|
                is_last_at(entries, file.path, j) ==> #[trigger] entries[j].modified_unix_ms
                    != file.modified_unix_ms || entries[j].size_bytes != file.size_bytes)
                ==> next[i].classes == fresh.classes && next[i].methods == fresh.methods
        }),
{
    let file = files[i];
    lemma_entry_keeps_stamp(entries, file);
    lemma_last_at_is_last(entries, file.path);
    assert forall|j: int| is_last_at(entries, file.path, j) implies java::last_at(
        entries,
        file.path,
    ) == Some(j) by {
        lemma_last_at_only(entries, file.path, j);
    }
}

proof fn lemma_last_at_is_last(entries: Seq<symbols::CachedFileView>, path: Seq<char>)
    ensures
        java::last_at(entries, path) matches Some(j) ==> is_last_at(entries, path, j),
        java::last_at(entries, path) is None ==> forall|j: int|
            0 <= j < entries.len() ==> (#[trigger] entries[j]).path != path,
    decreases entries.len(),
{
    java::lemma_last_at(entries, path);
    if entries.len() > 0 && entries.last().path != path {
        let front = entries.drop_last();
        lemma_last_at_is_last(front, path);
        if let Some(j) = java::last_at(front, path) {
            assert forall|k: int| j < k < entries.len() implies (#[trigger] entries[k]).path
                != path by {
                if k < front.len() {
                    assert(front[k].path != path);
                }
            }
        }
    }
}

/// An earlier cache is taken with all of its entries, in their order. Without one there are none.
pub proof fn law_earlier_cache_is_taken_whole(cache: &JavaRepoIndexCache)
    ensures
        java::earlier(Some(cache)) == cache@,
        java::earlier(None) == Seq::<symbols::CachedFileView>::empty(),
{
}

/// The symbols of an entry are listed as they are: at its path, its classes as classes and its
/// methods as methods.
pub proof fn law_entry_is_listed_as_it_is(entry: symbols::CachedFileView)
    ensures
        java::symbols_of(entry).path == entry.path,
        java::symbols_of(entry).classes == entry.classes,
        java::symbols_of(entry).methods == entry.methods,
{
}

/// The files that are reused are counted one by one: a file counts where the last earlier entry at
/// its path has its stamp.
pub proof fn law_reused_files_are_counted(
    entries: Seq<symbols::CachedFileView>,
    files: Seq<StampedView>,
    file: StampedView,
)
    ensures
        java::reused_count(entries, Seq::empty()) == 0,
        java::reused_count(entries, files.push(file)) == java::reused_count(entries, files) + (
        if exists|j: int|
            is_last_at(entries, file.path, j) && #[trigger] entries[j].modified_unix_ms
                == file.modified_unix_ms && entries[j].size_bytes == file.size_bytes {
            1nat
        } else {
            0nat
        }),
{
    let hit = |f: StampedView| java::is_reusable(entries, f);
    reveal(Seq::filter);
    rank::lemma_filter_push(files, file, hit);
    lemma_last_at_is_last(entries, file.path);
    if exists|j: int|
        is_last_at(entries, file.path, j) && #[trigger] entries[j].modified_unix_ms
            == file.modified_unix_ms && entries[j].size_bytes == file.size_bytes {
        let j = choose|j: int|
            is_last_at(entries, file.path, j) && #[trigger] entries[j].modified_unix_ms
                == file.modified_unix_ms && entries[j].size_bytes == file.size_bytes;
        lemma_last_at_only(entries, file.path, j);
    }
}

/// A file whose last entry has another stamp, or that has no entry, is indexed from what it
/// holds.
pub proof fn law_changed_file_is_rebuilt(
    entries: Seq<symbols::CachedFileView>,
    file: StampedView,
)
    requires
        forall|i: int|
            0 <= i < entries.len() && (#[trigger] entries[i]).path == file.path ==> (
            entries[i].modified_unix_ms != file.modified_unix_ms || entries[i].size_bytes
                != file.size_bytes),
    ensures
        !java::is_reusable(entries, file),
        java::symbols_of(java::entry_for(entries, file)) == java::java_file(
            file.path,
            file.content,
        ),
{
    java::lemma_last_at(entries, file.path);
}

/// Without an earlier cache every file is rebuilt.
pub proof fn law_first_index_rebuilds_all(files: Seq<StampedView>)
    ensures
        java::reused_count(Seq::empty(), files) == 0,
    decreases files.len(),
{
    let hit = |f: StampedView| java::is_reusable(Seq::empty(), f);
    reveal(Seq::filter);
    if files.len() > 0 {
        law_first_index_rebuilds_all(files.drop_last());
        assert(files =~= files.drop_last().push(files.last()));
        rank::lemma_filter_push(files.drop_last(), files.last(), hit);
    }
}

/// What a file is when its stamp is left aside.
pub open spec fn unstamped(files: Seq<StampedView>) -> Seq<SourceView> {
    files.map_values(|f: StampedView| SourceView { path: f.path, content: f.content })
}

/// Whether each entry that can stand for a file has the symbols of what the file holds.
pub open spec fn entries_are_faithful(
    entries: Seq<symbols::CachedFileView>,
    files: Seq<StampedView>,
) -> bool {
    forall|i: int|
        0 <= i < files.len() && java::is_reusable(entries, #[trigger] files[i])
            ==> java::symbols_of(java::entry_for(entries, files[i])) == java::java_file(
            files[i].path,
            files[i].content,
        )
}

/// While the cache is faithful to the files, indexing again gives the same files as mapping the
/// repository anew, but for the files that declare nothing, which only the full map leaves out.
pub proof fn law_incremental_agrees_with_full_map(
    entries: Seq<symbols::CachedFileView>,
    files: Seq<StampedView>,
)
    requires
        entries_are_faithful(entries, files),
    ensures
        java::next_entries(entries, files).map_values(
            |e: symbols::CachedFileView| java::symbols_of(e),
        ).filter(|f: symbols::FileView| java::declares(f)) == java::declaring_files(
            unstamped(files),
        ),
{
    let indexed = java::next_entries(entries, files).map_values(
        |e: symbols::CachedFileView| java::symbols_of(e),
    );
    let parsed = unstamped(files).map_values(|s: SourceView| java::java_file(s.path, s.content));
    assert forall|i: int| 0 <= i < files.len() implies #[trigger] indexed[i] == parsed[i] by {
        let f = files[i];
        if java::is_reusable(entries, f) {
        }
    }
    assert(indexed =~= parsed);
}

/// A cache that was built from the files themselves is faithful to them, so that it stays so as
/// long as no file changes without its stamp.
pub proof fn law_built_cache_is_faithful(
    entries: Seq<symbols::CachedFileView>,
    files: Seq<StampedView>,
)
    requires
        paths_differ(files),
        entries_are_faithful(entries, files),
    ensures
        entries_are_faithful(java::next_entries(entries, files), files),
{
    law_unchanged_files_are_reused(entries, files, files);
    let cache = java::next_entries(entries, files);
    assert forall|i: int| 0 <= i < files.len() implies java::symbols_of(
        java::entry_for(cache, #[trigger] files[i]),
    ) == java::java_file(files[i].path, files[i].content) by {
        assert(java::next_entries(cache, files)[i] == cache[i]);
        if java::is_reusable(entries, files[i]) {
        }
    }
}

/// A walked file is a Java source where its extension is `java`, in this case.
pub proof fn law_java_sources(extension: Option<&str>, r: bool)
    requires
        call_ensures(java::is_java_source, (extension,), r),
    ensures
        r <==> (extension matches Some(e) && e@ == seq!['j', 'a', 'v', 'a']),
{
    reveal_strlit("java");
    assert("java"@ =~= seq!['j', 'a', 'v', 'a']);
}

} // verus!
