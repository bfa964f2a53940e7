//! The symbols of Java sources: of a file, of a repository, and of a repository that is indexed
//! again after some of its files changed.

use crate::paths;
use crate::patterns;
use crate::patterns::{PatternError, JAVA_CLASS, JAVA_METHOD};
use crate::rank;
use crate::symbols;
use crate::symbols::{
    ClassSymbol, FileMap, IncrementalBuildStats, IncrementalRepoMapResult, JavaFileCache,
    JavaRepoIndexCache, MethodSymbol, RepoMap,
};
use crate::text;
use crate::textmap::TextMap;
use regex::Regex;
use vstd::prelude::*;

verus! {

broadcast use vstd::string::group_string_axioms;

// ---------------------------------------------------------------------------
// One line
// ---------------------------------------------------------------------------

/// What a group captured, or `otherwise`.
pub open spec fn group_or(group: Option<Seq<char>>, otherwise: Seq<char>) -> Seq<char> {
    match group {
        Some(s) => s,
        None => otherwise,
    }
}

/// The words that open a block as a method does, and name none.
pub open spec fn is_control_word(name: Seq<char>) -> bool {
    ||| name == "if"@
    ||| name == "for"@
    ||| name == "while"@
    ||| name == "switch"@
    ||| name == "catch"@
}

/// The class that line `number` declares, where the class pattern captured `group`.
pub open spec fn class_on(
    group: Option<Option<Seq<char>>>,
    line: Seq<char>,
    number: usize,
) -> Option<symbols::SymbolView> {
    match group {
        Some(name) => Some(
            symbols::SymbolView {
                name: group_or(name, "Unknown"@),
                signature: text::trimmed(line),
                line: number,
            },
        ),
        None => None,
    }
}

/// The method that line `number` declares, where the method pattern captured `group`.
pub open spec fn method_on(
    group: Option<Option<Seq<char>>>,
    line: Seq<char>,
    number: usize,
) -> Option<symbols::SymbolView> {
    match group {
        Some(name) => if is_control_word(group_or(name, "unknown"@)) {
            None
        } else {
            Some(
                symbols::SymbolView {
                    name: group_or(name, "unknown"@),
                    signature: text::trimmed(line),
                    line: number,
                },
            )
        },
        None => None,
    }
}

/// Whether `name` opens a block as a method does, and names none.
pub fn control_word(name: &str) -> (r: bool)
    ensures
        r == is_control_word(name@),
{
    text::same_text(name, "if") || text::same_text(name, "for") || text::same_text(name, "while")
        || text::same_text(name, "switch") || text::same_text(name, "catch")
}

/// The class that line `number` declares, where the class pattern captured `group`.
pub fn class_symbol(group: Option<Option<String>>, line: &str, number: usize) -> (r: Option<
    ClassSymbol,
>)
    ensures
        match r {
            Some(c) => class_on(patterns::captured(group), line@, number) == Some(c@),
            None => class_on(patterns::captured(group), line@, number) is None,
        },
{
    match group {
        Some(name) => {
            let name = match name {
                Some(s) => s,
                None => "Unknown".to_string(),
            };
            Some(ClassSymbol { name, signature: text::trim(line).to_string(), line: number })
        },
        None => None,
    }
}

/// The method that line `number` declares, where the method pattern captured `group`.
pub fn method_symbol(group: Option<Option<String>>, line: &str, number: usize) -> (r: Option<
    MethodSymbol,
>)
    ensures
        match r {
            Some(m) => method_on(patterns::captured(group), line@, number) == Some(m@),
            None => method_on(patterns::captured(group), line@, number) is None,
        },
{
    match group {
        Some(name) => {
            let name = match name {
                Some(s) => s,
                None => "unknown".to_string(),
            };
            if control_word(name.as_str()) {
                None
            } else {
                Some(MethodSymbol { name, signature: text::trim(line).to_string(), line: number })
            }
        },
        None => None,
    }
}

// ---------------------------------------------------------------------------
// One file
// ---------------------------------------------------------------------------

/// The classes that `lines` declare. Lines are counted from one.
pub open spec fn classes_in(lines: Seq<Seq<char>>) -> Seq<symbols::SymbolView>
    decreases lines.len(),
{
    if lines.len() == 0 {
        Seq::empty()
    } else {
        rank::push_some(
            classes_in(lines.drop_last()),
            class_on(
                patterns::regex_group(JAVA_CLASS@, lines.last(), 2),
                lines.last(),
                lines.len() as usize,
            ),
        )
    }
}

/// The methods that `lines` declare. Lines are counted from one.
pub open spec fn methods_in(lines: Seq<Seq<char>>) -> Seq<symbols::SymbolView>
    decreases lines.len(),
{
    if lines.len() == 0 {
        Seq::empty()
    } else {
        rank::push_some(
            methods_in(lines.drop_last()),
            method_on(
                patterns::regex_group(JAVA_METHOD@, lines.last(), 4),
                lines.last(),
                lines.len() as usize,
            ),
        )
    }
}

/// The symbols of a file at `path` that holds `content`.
pub open spec fn java_file(path: Seq<char>, content: Seq<char>) -> symbols::FileView {
    symbols::FileView {
        path,
        classes: classes_in(text::lines_of(content)),
        methods: methods_in(text::lines_of(content)),
    }
}

/// The compiled Java line patterns.
#[derive(Debug)]
pub struct JavaPatterns {
    class_re: Regex,
    method_re: Regex,
}

impl JavaPatterns {
    #[verifier::type_invariant]
    spec fn well_formed(self) -> bool {
        &&& patterns::regex_pattern(self.class_re) == JAVA_CLASS@
        &&& patterns::regex_pattern(self.method_re) == JAVA_METHOD@
    }

    /// Compiles the patterns.
    pub fn compile() -> (r: Result<JavaPatterns, PatternError>)
        ensures
            r is Ok,
    {
        match patterns::compile_line_pattern(JAVA_CLASS) {
            Ok(class_re) => match patterns::compile_line_pattern(JAVA_METHOD) {
                Ok(method_re) => Ok(JavaPatterns { class_re, method_re }),
                Err(e) => Err(e),
            },
            Err(e) => Err(e),
        }
    }
}

/// Whether a symbol is named by an identifier that stands in its signature.
pub open spec fn is_named(s: symbols::SymbolView) -> bool {
    text::is_identifier(s.name) && text::occurs_in(s.signature, s.name)
}

/// Whether each symbol of a file is named by an identifier that stands in its signature.
pub open spec fn file_is_named(file: symbols::FileView) -> bool {
    &&& forall|i: int| 0 <= i < file.classes.len() ==> is_named(#[trigger] file.classes[i])
    &&& forall|i: int| 0 <= i < file.methods.len() ==> is_named(#[trigger] file.methods[i])
}

/// Whether each symbol of `files` is named by an identifier that stands in its signature.
pub open spec fn files_are_named(files: Seq<symbols::FileView>) -> bool {
    forall|i: int| 0 <= i < files.len() ==> file_is_named(#[trigger] files[i])
}

proof fn lemma_named(name: Seq<char>, line: Seq<char>)
    requires
        patterns::is_name_on(Some(name), line),
    ensures
        text::is_identifier(name),
        text::occurs_in(text::trimmed(line), name),
{
    text::lemma_identifier(name);
    text::lemma_word_stays(line, name);
}

/// The symbols of a file at `path` that holds `content`. Each is named by an identifier that
/// stands in its signature.
pub fn parse_java_file(path: &str, content: &str, java: &JavaPatterns) -> (r: FileMap)
    ensures
        r@ == java_file(path@, content@),
        file_is_named(r@),
{
    proof {
        use_type_invariant(java);
    }
    let lines = text::lines(content);
    let ghost all = text::lines_of(content@);
    let mut classes: Vec<ClassSymbol> = Vec::new();
    let mut methods: Vec<MethodSymbol> = Vec::new();
    let mut i: usize = 0;
    assert(rank::views(classes@) =~= Seq::empty());
    assert(rank::views(methods@) =~= Seq::empty());
    while i < lines.len()
        invariant
            i <= lines@.len(),
            all == lines@.map_values(|l: &str| l@),
            rank::views(classes@) == classes_in(all.take(i as int)),
            rank::views(methods@) == methods_in(all.take(i as int)),
            forall|j: int| 0 <= j < classes@.len() ==> is_named((#[trigger] classes@[j])@),
            forall|j: int| 0 <= j < methods@.len() ==> is_named((#[trigger] methods@[j])@),
            patterns::regex_pattern(java.class_re) == JAVA_CLASS@,
            patterns::regex_pattern(java.method_re) == JAVA_METHOD@,
        decreases lines@.len() - i,
    {
        let line = lines[i];
        let ghost c0 = classes@;
        let ghost m0 = methods@;
        proof {
            assert(all[i as int] == line@);
            assert(all.take(i + 1).drop_last() =~= all.take(i as int));
            assert(all.take(i + 1).last() == line@);
        }
        if let Some(c) = class_symbol(patterns::capture(&java.class_re, line, 2), line, i + 1) {
            classes.push(c);
            assert(rank::views(classes@) =~= rank::views(c0).push(c@));
            proof {
                lemma_named(c@.name, line@);
            }
        }
        if let Some(m) = method_symbol(patterns::capture(&java.method_re, line, 4), line, i + 1) {
            methods.push(m);
            assert(rank::views(methods@) =~= rank::views(m0).push(m@));
            proof {
                lemma_named(m@.name, line@);
            }
        }
        i += 1;
    }
    assert(all.take(i as int) =~= all);
    FileMap { path: path.to_string(), classes, methods }
}

// ---------------------------------------------------------------------------
// A repository
// ---------------------------------------------------------------------------

/// A source file: its path below the root, and what it holds.
#[derive(Debug)]
pub struct SourceFile {
    pub path: String,
    pub content: String,
}

/// A source file.
pub struct SourceView {
    pub path: Seq<char>,
    pub content: Seq<char>,
}

impl View for SourceFile {
    type V = SourceView;

    open spec fn view(&self) -> SourceView {
        SourceView { path: self.path@, content: self.content@ }
    }
}

/// The source file that was found at `path` in a walk of `root`, and holds `content`.
pub fn walked_source(root: &str, path: &str, content: String) -> (r: SourceFile)
    ensures
        paths::is_shown_below(root@, path@, r.path@),
        r.content@ == content@,
{
    SourceFile { path: paths::to_rel_or_abs(root, path), content }
}

/// Whether a walked file is a Java source, by the extension of its path.
pub fn is_java_source(extension: Option<&str>) -> (r: bool)
    ensures
        r <==> (extension matches Some(e) && e@ == "java"@),
{
    match extension {
        Some(e) => text::same_text(e, "java"),
        None => false,
    }
}

/// Whether a file declares anything.
pub open spec fn declares(file: symbols::FileView) -> bool {
    file.classes.len() > 0 || file.methods.len() > 0
}

/// The files that declare anything, in the order of `sources`.
pub open spec fn declaring_files(sources: Seq<SourceView>) -> Seq<symbols::FileView> {
    sources.map_values(|s: SourceView| java_file(s.path, s.content)).filter(
        |f: symbols::FileView| declares(f),
    )
}

/// The map of a repository at `root` with the given sources.
pub open spec fn java_map(root: Seq<char>, sources: Seq<SourceView>) -> symbols::RepoView {
    symbols::RepoView { root, language: "java"@, files: declaring_files(sources) }
}

/// Maps the symbols of `sources`, leaving out files that declare none. Each symbol is named by an
/// identifier that stands in its signature.
pub fn build_java_repo_map(root: &str, sources: &Vec<SourceFile>) -> (r: Result<
    RepoMap,
    PatternError,
>)
    ensures
        r is Ok,
        r matches Ok(map) ==> map@ == java_map(root@, rank::views(sources@)) && files_are_named(
            map@.files,
        ),
{
    let java = match JavaPatterns::compile() {
        Ok(p) => p,
        Err(e) => {
            return Err(e);
        },
    };
    let ghost all = rank::views(sources@);
    let ghost parse = |s: SourceView| java_file(s.path, s.content);
    let ghost keep = |f: symbols::FileView| declares(f);
    let mut files: Vec<FileMap> = Vec::new();
    let mut i: usize = 0;
    proof {
        reveal(Seq::filter);
        assert(all.take(0).map_values(parse) =~= Seq::empty());
        assert(rank::views(files@) =~= all.take(0).map_values(parse).filter(keep));
    }
    while i < sources.len()
        invariant
            i <= sources@.len(),
            all == rank::views(sources@),
            parse == (|s: SourceView| java_file(s.path, s.content)),
            keep == (|f: symbols::FileView| declares(f)),
            rank::views(files@) == all.take(i as int).map_values(parse).filter(keep),
            forall|j: int| 0 <= j < files@.len() ==> file_is_named((#[trigger] files@[j])@),
        decreases sources@.len() - i,
    {
        let file = parse_java_file(sources[i].path.as_str(), sources[i].content.as_str(), &java);
        let ghost f0 = files@;
        proof {
            assert(all.take(i + 1).map_values(parse) =~= all.take(i as int).map_values(parse).push(
                file@,
            ));
            rank::lemma_filter_push(all.take(i as int).map_values(parse), file@, keep);
        }
        if file.classes.len() > 0 || file.methods.len() > 0 {
            files.push(file);
            assert(rank::views(files@) =~= rank::views(f0).push(file@));
        }
        i += 1;
    }
    assert(all.take(i as int) =~= all);
    Ok(RepoMap { root: root.to_string(), language: "java".to_string(), files })
}

// ---------------------------------------------------------------------------
// A repository that is indexed again
// ---------------------------------------------------------------------------

/// A source file with its stamp. What it holds is looked at only where the cache has no entry
/// under the stamp.
#[derive(Debug)]
pub struct StampedFile {
    pub path: String,
    pub modified_unix_ms: u128,
    pub size_bytes: u64,
    pub content: String,
}

/// A source file with its stamp.
pub struct StampedView {
    pub path: Seq<char>,
    pub modified_unix_ms: u128,
    pub size_bytes: u64,
    pub content: Seq<char>,
}

impl View for StampedFile {
    type V = StampedView;

    open spec fn view(&self) -> StampedView {
        StampedView {
            path: self.path@,
            modified_unix_ms: self.modified_unix_ms,
            size_bytes: self.size_bytes,
            content: self.content@,
        }
    }
}

/// The entries of an earlier cache, or none.
pub open spec fn earlier(previous: Option<&JavaRepoIndexCache>) -> Seq<symbols::CachedFileView> {
    match previous {
        Some(cache) => cache@,
        None => Seq::empty(),
    }
}

/// The index of the last of `entries` at `path`.
pub open spec fn last_at(entries: Seq<symbols::CachedFileView>, path: Seq<char>) -> Option<int>
    decreases entries.len(),
{
    if entries.len() == 0 {
        None
    } else if entries.last().path == path {
        Some(entries.len() - 1)
    } else {
        last_at(entries.drop_last(), path)
    }
}

/// The entry that can stand for a file at `path` with the given stamp: the last one at the path,
/// if it has the same stamp.
pub open spec fn reusable(
    entries: Seq<symbols::CachedFileView>,
    path: Seq<char>,
    modified_unix_ms: u128,
    size_bytes: u64,
) -> Option<symbols::CachedFileView> {
    match last_at(entries, path) {
        Some(i) => if entries[i].modified_unix_ms == modified_unix_ms && entries[i].size_bytes
            == size_bytes {
            Some(entries[i])
        } else {
            None
        },
        None => None,
    }
}

/// The entry of `file`: the one that can stand for it, or what the file holds.
pub open spec fn entry_for(
    entries: Seq<symbols::CachedFileView>,
    file: StampedView,
) -> symbols::CachedFileView {
    match reusable(entries, file.path, file.modified_unix_ms, file.size_bytes) {
        Some(entry) => entry,
        None => {
            let parsed = java_file(file.path, file.content);
            symbols::CachedFileView {
                path: file.path,
                modified_unix_ms: file.modified_unix_ms,
                size_bytes: file.size_bytes,
                classes: parsed.classes,
                methods: parsed.methods,
            }
        },
    }
}

/// The symbols of an entry.
pub open spec fn symbols_of(entry: symbols::CachedFileView) -> symbols::FileView {
    symbols::FileView { path: entry.path, classes: entry.classes, methods: entry.methods }
}

/// Whether each symbol of `entries` is named by an identifier that stands in its signature.
pub open spec fn entries_are_named(entries: Seq<symbols::CachedFileView>) -> bool {
    forall|i: int| 0 <= i < entries.len() ==> file_is_named(symbols_of(#[trigger] entries[i]))
}

/// Whether an entry can stand for `file`.
pub open spec fn is_reusable(entries: Seq<symbols::CachedFileView>, file: StampedView) -> bool {
    reusable(entries, file.path, file.modified_unix_ms, file.size_bytes) is Some
}

/// The entries of `files`.
pub open spec fn next_entries(
    entries: Seq<symbols::CachedFileView>,
    files: Seq<StampedView>,
) -> Seq<symbols::CachedFileView> {
    files.map_values(|f: StampedView| entry_for(entries, f))
}

/// The number of `files` for which an entry can stand.
pub open spec fn reused_count(
    entries: Seq<symbols::CachedFileView>,
    files: Seq<StampedView>,
) -> nat {
    files.filter(|f: StampedView| is_reusable(entries, f)).len()
}

/// The last entry at a path is at that path, and there is one if any entry is.
pub proof fn lemma_last_at(entries: Seq<symbols::CachedFileView>, path: Seq<char>)
    ensures
        match last_at(entries, path) {
            Some(i) => 0 <= i < entries.len() && entries[i].path == path,
            None => forall|j: int| 0 <= j < entries.len() ==> (#[trigger] entries[j]).path != path,
        },
    decreases entries.len(),
{
    if entries.len() > 0 {
        lemma_last_at(entries.drop_last(), path);
        if last_at(entries, path) is None {
            assert forall|j: int| 0 <= j < entries.len() implies (#[trigger] entries[j]).path
                != path by {
                if j < entries.len() - 1 {
                    assert(entries.drop_last()[j].path != path);
                }
            }
        }
    }
}

/// An earlier cache, ready to be asked by path.
#[derive(Debug)]
pub struct CacheIndex<'a> {
    previous: Option<&'a JavaRepoIndexCache>,
    last: TextMap<usize>,
}

impl<'a> CacheIndex<'a> {
    /// The entries of the cache.
    pub closed spec fn entries(&self) -> Seq<symbols::CachedFileView> {
        earlier(self.previous)
    }

    #[verifier::type_invariant]
    spec fn well_formed(self) -> bool {
        forall|p: Seq<char>|
            match last_at(earlier(self.previous), p) {
                Some(i) => #[trigger] self.last@.contains_key(p) && self.last@[p] == i,
                None => !self.last@.contains_key(p),
            }
    }

    /// Indexes an earlier cache.
    pub fn new(previous: Option<&'a JavaRepoIndexCache>) -> (r: CacheIndex<'a>)
        ensures
            r.entries() == earlier(previous),
    {
        let mut last: TextMap<usize> = TextMap::new();
        if let Some(cache) = previous {
            let ghost all = cache@;
            let mut i: usize = 0;
            while i < cache.files.len()
                invariant
                    i <= cache.files@.len(),
                    all == cache@,
                    forall|p: Seq<char>|
                        match last_at(all.take(i as int), p) {
                            Some(k) => #[trigger] last@.contains_key(p) && last@[p] == k,
                            None => !last@.contains_key(p),
                        },
                decreases cache.files@.len() - i,
            {
                let ghost last0 = last@;
                last.insert(cache.files[i].path.clone(), i);
                proof {
                    assert(all.take(i + 1).drop_last() =~= all.take(i as int));
                    assert forall|p: Seq<char>|
                        match last_at(all.take(i + 1), p) {
                            Some(k) => #[trigger] last@.contains_key(p) && last@[p] == k,
                            None => !last@.contains_key(p),
                        } by {
                        assert(last0.contains_key(p) || !last0.contains_key(p));
                    }
                }
                i += 1;
            }
            assert(all.take(i as int) =~= all);
        }
        CacheIndex { previous, last }
    }

    /// The entry that can stand for a file at `path` with the given stamp.
    pub fn find(&self, path: &str, modified_unix_ms: u128, size_bytes: u64) -> (r: Option<
        &'a JavaFileCache,
    >)
        ensures
            match r {
                Some(entry) => reusable(self.entries(), path@, modified_unix_ms, size_bytes)
                    == Some(entry@),
                None => reusable(self.entries(), path@, modified_unix_ms, size_bytes) is None,
            },
    {
        proof {
            use_type_invariant(self);
            lemma_last_at(self.entries(), path@);
        }
        match self.last.get(path) {
            Some(i) => match self.previous {
                Some(cache) => {
                    let entry = &cache.files[*i];
                    if entry.modified_unix_ms == modified_unix_ms && entry.size_bytes
                        == size_bytes {
                        Some(entry)
                    } else {
                        None
                    }
                },
                None => None,
            },
            None => None,
        }
    }
}

/// Maps the symbols of `files`, taking those of unchanged files from an earlier cache. Where each
/// symbol in that cache is named by an identifier that stands in its signature, so is each symbol
/// here.
pub fn build_java_repo_map_incremental(
    root: &str,
    files: &Vec<StampedFile>,
    previous: Option<&JavaRepoIndexCache>,
) -> (r: Result<IncrementalRepoMapResult, PatternError>)
    ensures
        r is Ok,
        r matches Ok(out) ==> {
            let entries = next_entries(earlier(previous), rank::views(files@));
            let reused = reused_count(earlier(previous), rank::views(files@));
            &&& out.cache@ == entries
            &&& out.map@ == symbols::RepoView {
                root: root@,
                language: "java"@,
                files: entries.map_values(|e: symbols::CachedFileView| symbols_of(e)),
            }
            &&& out.stats.scanned_files == files@.len()
            &&& out.stats.reused_files == reused
            &&& out.stats.rebuilt_files == files@.len() - reused
            &&& entries_are_named(earlier(previous)) ==> entries_are_named(out.cache@)
                && files_are_named(out.map@.files)
        },
{
    let java = match JavaPatterns::compile() {
        Ok(p) => p,
        Err(e) => {
            return Err(e);
        },
    };
    let index = CacheIndex::new(previous);
    let ghost old_entries = earlier(previous);
    let ghost all = rank::views(files@);
    let ghost hit = |f: StampedView| is_reusable(old_entries, f);
    let mut next: Vec<JavaFileCache> = Vec::new();
    let mut mapped: Vec<FileMap> = Vec::new();
    let mut reused: usize = 0;
    let mut i: usize = 0;
    proof {
        reveal(Seq::filter);
        assert(all.take(0) =~= Seq::empty());
        assert(rank::views(next@) =~= next_entries(old_entries, all.take(0)));
        assert(all.take(0).filter(hit) =~= Seq::empty());
    }
    while i < files.len()
        invariant
            i <= files@.len(),
            all == rank::views(files@),
            index.entries() == old_entries,
            hit == (|f: StampedView| is_reusable(old_entries, f)),
            rank::views(next@) == next_entries(old_entries, all.take(i as int)),
            mapped@.len() == next@.len(),
            forall|j: int| 0 <= j < mapped@.len() ==> (#[trigger] mapped@[j])@ == symbols_of(
                next@[j]@,
            ),
            reused == all.take(i as int).filter(hit).len(),
            reused <= i,
            entries_are_named(old_entries) ==> forall|j: int|
                0 <= j < mapped@.len() ==> file_is_named((#[trigger] mapped@[j])@),
        decreases files@.len() - i,
    {
        let file = &files[i];
        let ghost n0 = next@;
        let ghost entry = entry_for(old_entries, file@);
        proof {
            assert(all.take(i + 1) =~= all.take(i as int).push(file@));
            rank::lemma_filter_push(all.take(i as int), file@, hit);
            assert(next_entries(old_entries, all.take(i + 1)) =~= next_entries(
                old_entries,
                all.take(i as int),
            ).push(entry));
        }
        match index.find(file.path.as_str(), file.modified_unix_ms, file.size_bytes) {
            Some(cached) => {
                proof {
                    lemma_last_at(old_entries, file.path@);
                }
                reused += 1;
                let copy = FileMap {
                    path: cached.path.clone(),
                    classes: symbols::copy_classes(&cached.classes),
                    methods: symbols::copy_methods(&cached.methods),
                };
                next.push(cached.clone());
                mapped.push(copy);
            },
            None => {
                let parsed = parse_java_file(file.path.as_str(), file.content.as_str(), &java);
                next.push(
                    JavaFileCache {
                        path: parsed.path.clone(),
                        modified_unix_ms: file.modified_unix_ms,
                        size_bytes: file.size_bytes,
                        classes: symbols::copy_classes(&parsed.classes),
                        methods: symbols::copy_methods(&parsed.methods),
                    },
                );
                mapped.push(parsed);
            },
        }
        assert(rank::views(next@) =~= rank::views(n0).push(entry));
        i += 1;
    }
    assert(all.take(i as int) =~= all);
    let ghost listed = mapped@;
    let map = RepoMap { root: root.to_string(), language: "java".to_string(), files: mapped };
    let ghost entries = next_entries(old_entries, all);
    assert(map@.files =~= entries.map_values(|e: symbols::CachedFileView| symbols_of(e)));
    proof {
        if entries_are_named(old_entries) {
            assert forall|j: int| 0 <= j < entries.len() implies file_is_named(
                symbols_of(#[trigger] entries[j]),
            ) by {
                assert(file_is_named(listed[j]@));
            }
        }
    }
    Ok(
        IncrementalRepoMapResult {
            map,
            cache: JavaRepoIndexCache { files: next },
            stats: IncrementalBuildStats {
                scanned_files: files.len(),
                reused_files: reused,
                rebuilt_files: files.len() - reused,
            },
        },
    )
}

} // verus!
