//! The records of a repository index.

use crate::json;
use crate::json::Json;
use crate::rank;
use vstd::prelude::*;

verus! {

broadcast use vstd::string::group_string_axioms;

/// A class, interface or enum that a file declares.
#[derive(Debug)]
pub struct ClassSymbol {
    pub name: String,
    pub signature: String,
    pub line: usize,
}

/// A method that a file declares.
#[derive(Debug)]
pub struct MethodSymbol {
    pub name: String,
    pub signature: String,
    pub line: usize,
}

/// The symbols of one file.
#[derive(Debug)]
pub struct FileMap {
    pub path: String,
    pub classes: Vec<ClassSymbol>,
    pub methods: Vec<MethodSymbol>,
}

/// The symbols of a repository.
#[derive(Debug)]
pub struct RepoMap {
    pub root: String,
    pub language: String,
    pub files: Vec<FileMap>,
}

/// Where a symbol is declared.
#[derive(Debug)]
pub struct SymbolLocation {
    pub symbol: String,
    pub file: String,
    pub line: usize,
    pub signature: String,
    pub kind: String,
}

/// A symbol that a fuzzy lookup found.
#[derive(Debug)]
pub struct FuzzySymbolMatch {
    pub symbol: String,
    pub file: String,
    pub line: usize,
    pub signature: String,
    pub kind: String,
    pub score: i32,
    pub match_type: String,
}

/// The symbols of one file, with the stamp that they were read under.
#[derive(Debug)]
pub struct JavaFileCache {
    pub path: String,
    pub modified_unix_ms: u128,
    pub size_bytes: u64,
    pub classes: Vec<ClassSymbol>,
    pub methods: Vec<MethodSymbol>,
}

/// The symbols of a repository, with the stamps that they were read under.
#[derive(Debug)]
pub struct JavaRepoIndexCache {
    pub files: Vec<JavaFileCache>,
}

/// What an incremental build did.
#[derive(Debug, Clone, Copy)]
pub struct IncrementalBuildStats {
    pub scanned_files: usize,
    pub reused_files: usize,
    pub rebuilt_files: usize,
}

/// What an incremental build yields.
#[derive(Debug)]
pub struct IncrementalRepoMapResult {
    pub map: RepoMap,
    pub cache: JavaRepoIndexCache,
    pub stats: IncrementalBuildStats,
}

// ---------------------------------------------------------------------------
// What the records stand for
// ---------------------------------------------------------------------------

/// A declared symbol.
pub struct SymbolView {
    pub name: Seq<char>,
    pub signature: Seq<char>,
    pub line: usize,
}

/// The symbols of one file.
pub struct FileView {
    pub path: Seq<char>,
    pub classes: Seq<SymbolView>,
    pub methods: Seq<SymbolView>,
}

/// The symbols of a repository.
pub struct RepoView {
    pub root: Seq<char>,
    pub language: Seq<char>,
    pub files: Seq<FileView>,
}

/// Where a symbol is declared.
pub struct LocationView {
    pub symbol: Seq<char>,
    pub file: Seq<char>,
    pub line: usize,
    pub signature: Seq<char>,
    pub kind: Seq<char>,
}

/// A symbol that a fuzzy lookup found.
pub struct MatchView {
    pub symbol: Seq<char>,
    pub file: Seq<char>,
    pub line: usize,
    pub signature: Seq<char>,
    pub kind: Seq<char>,
    pub score: i32,
    pub match_type: Seq<char>,
}

/// The symbols of one file, with their stamp.
pub struct CachedFileView {
    pub path: Seq<char>,
    pub modified_unix_ms: u128,
    pub size_bytes: u64,
    pub classes: Seq<SymbolView>,
    pub methods: Seq<SymbolView>,
}

impl View for ClassSymbol {
    type V = SymbolView;

    open spec fn view(&self) -> SymbolView {
        SymbolView { name: self.name@, signature: self.signature@, line: self.line }
    }
}

impl View for MethodSymbol {
    type V = SymbolView;

    open spec fn view(&self) -> SymbolView {
        SymbolView { name: self.name@, signature: self.signature@, line: self.line }
    }
}

impl View for FileMap {
    type V = FileView;

    open spec fn view(&self) -> FileView {
        FileView {
            path: self.path@,
            classes: rank::views(self.classes@),
            methods: rank::views(self.methods@),
        }
    }
}

impl View for RepoMap {
    type V = RepoView;

    open spec fn view(&self) -> RepoView {
        RepoView { root: self.root@, language: self.language@, files: rank::views(self.files@) }
    }
}

impl View for SymbolLocation {
    type V = LocationView;

    open spec fn view(&self) -> LocationView {
        LocationView {
            symbol: self.symbol@,
            file: self.file@,
            line: self.line,
            signature: self.signature@,
            kind: self.kind@,
        }
    }
}

impl View for FuzzySymbolMatch {
    type V = MatchView;

    open spec fn view(&self) -> MatchView {
        MatchView {
            symbol: self.symbol@,
            file: self.file@,
            line: self.line,
            signature: self.signature@,
            kind: self.kind@,
            score: self.score,
            match_type: self.match_type@,
        }
    }
}

impl View for JavaFileCache {
    type V = CachedFileView;

    open spec fn view(&self) -> CachedFileView {
        CachedFileView {
            path: self.path@,
            modified_unix_ms: self.modified_unix_ms,
            size_bytes: self.size_bytes,
            classes: rank::views(self.classes@),
            methods: rank::views(self.methods@),
        }
    }
}

impl View for JavaRepoIndexCache {
    type V = Seq<CachedFileView>;

    open spec fn view(&self) -> Seq<CachedFileView> {
        rank::views(self.files@)
    }
}

// ---------------------------------------------------------------------------
// Copies
// ---------------------------------------------------------------------------

impl Clone for ClassSymbol {
    fn clone(&self) -> (r: Self)
        ensures
            r@ == self@,
    {
        ClassSymbol {
            name: self.name.clone(),
            signature: self.signature.clone(),
            line: self.line,
        }
    }
}

impl Clone for MethodSymbol {
    fn clone(&self) -> (r: Self)
        ensures
            r@ == self@,
    {
        MethodSymbol {
            name: self.name.clone(),
            signature: self.signature.clone(),
            line: self.line,
        }
    }
}

/// A copy of `classes`.
pub fn copy_classes(classes: &Vec<ClassSymbol>) -> (r: Vec<ClassSymbol>)
    ensures
        rank::views(r@) == rank::views(classes@),
{
    let r = classes.clone();
    assert(rank::views(r@) =~= rank::views(classes@));
    r
}

/// A copy of `methods`.
pub fn copy_methods(methods: &Vec<MethodSymbol>) -> (r: Vec<MethodSymbol>)
    ensures
        rank::views(r@) == rank::views(methods@),
{
    let r = methods.clone();
    assert(rank::views(r@) =~= rank::views(methods@));
    r
}

impl Clone for SymbolLocation {
    fn clone(&self) -> (r: Self)
        ensures
            r@ == self@,
    {
        SymbolLocation {
            symbol: self.symbol.clone(),
            file: self.file.clone(),
            line: self.line,
            signature: self.signature.clone(),
            kind: self.kind.clone(),
        }
    }
}

impl Clone for FuzzySymbolMatch {
    fn clone(&self) -> (r: Self)
        ensures
            r@ == self@,
    {
        FuzzySymbolMatch {
            symbol: self.symbol.clone(),
            file: self.file.clone(),
            line: self.line,
            signature: self.signature.clone(),
            kind: self.kind.clone(),
            score: self.score,
            match_type: self.match_type.clone(),
        }
    }
}

impl Clone for JavaFileCache {
    fn clone(&self) -> (r: Self)
        ensures
            r@ == self@,
    {
        JavaFileCache {
            path: self.path.clone(),
            modified_unix_ms: self.modified_unix_ms,
            size_bytes: self.size_bytes,
            classes: copy_classes(&self.classes),
            methods: copy_methods(&self.methods),
        }
    }
}

impl Clone for JavaRepoIndexCache {
    fn clone(&self) -> (r: Self)
        ensures
            r@ == self@,
    {
        let files = self.files.clone();
        assert(rank::views(files@) =~= rank::views(self.files@));
        JavaRepoIndexCache { files }
    }
}

impl Default for JavaRepoIndexCache {
    fn default() -> (r: Self)
        ensures
            r@ == Seq::<CachedFileView>::empty(),
    {
        let r = JavaRepoIndexCache { files: Vec::new() };
        assert(r@ =~= Seq::<CachedFileView>::empty());
        r
    }
}

// ---------------------------------------------------------------------------
// The records as JSON
// ---------------------------------------------------------------------------

impl SymbolView {
    /// The symbol as a JSON object.
    pub open spec fn json(self) -> json::JsonView {
        json::JsonView::object().with("name"@, json::JsonView::Text(self.name)).with(
            "signature"@,
            json::JsonView::Text(self.signature),
        ).with("line"@, json::JsonView::Number(self.line as u64))
    }
}

/// Symbols as a JSON array.
pub open spec fn symbols_json(symbols: Seq<SymbolView>) -> json::JsonView {
    json::JsonView::Array(symbols.map_values(|s: SymbolView| s.json()))
}

impl FileView {
    /// The file as a JSON object.
    pub open spec fn json(self) -> json::JsonView {
        json::JsonView::object().with("path"@, json::JsonView::Text(self.path)).with(
            "classes"@,
            symbols_json(self.classes),
        ).with("methods"@, symbols_json(self.methods))
    }
}

impl RepoView {
    /// The map as a JSON object.
    pub open spec fn json(self) -> json::JsonView {
        json::JsonView::object().with("root"@, json::JsonView::Text(self.root)).with(
            "language"@,
            json::JsonView::Text(self.language),
        ).with("files"@, json::JsonView::Array(self.files.map_values(|f: FileView| f.json())))
    }
}

impl LocationView {
    /// The location as a JSON object.
    pub open spec fn json(self) -> json::JsonView {
        json::JsonView::object().with("symbol"@, json::JsonView::Text(self.symbol)).with(
            "file"@,
            json::JsonView::Text(self.file),
        ).with("line"@, json::JsonView::Number(self.line as u64)).with(
            "signature"@,
            json::JsonView::Text(self.signature),
        ).with("kind"@, json::JsonView::Text(self.kind))
    }
}

impl MatchView {
    /// The match as a JSON object.
    pub open spec fn json(self) -> json::JsonView {
        json::JsonView::object().with("symbol"@, json::JsonView::Text(self.symbol)).with(
            "file"@,
            json::JsonView::Text(self.file),
        ).with("line"@, json::JsonView::Number(self.line as u64)).with(
            "signature"@,
            json::JsonView::Text(self.signature),
        ).with("kind"@, json::JsonView::Text(self.kind)).with(
            "score"@,
            json::signed(self.score as i64),
        ).with("match_type"@, json::JsonView::Text(self.match_type))
    }
}

/// A symbol as a JSON object.
fn symbol_json(name: &String, signature: &String, line: usize) -> (r: Json)
    ensures
        r@ == (SymbolView { name: name@, signature: signature@, line }).json(),
{
    Json::object().with("name", Json::text(name.as_str())).with(
        "signature",
        Json::text(signature.as_str()),
    ).with("line", Json::Number(line as u64))
}

impl FileMap {
    /// The file as a JSON object.
    pub fn to_json(&self) -> (r: Json)
        ensures
            r@ == self@.json(),
    {
        let mut classes: Vec<Json> = Vec::new();
        let mut i: usize = 0;
        while i < self.classes.len()
            invariant
                i <= self.classes@.len(),
                classes@.len() == i,
                forall|j: int| 0 <= j < i ==> (#[trigger] classes@[j])@ == self.classes@[j]@.json(),
            decreases self.classes@.len() - i,
        {
            let c = &self.classes[i];
            classes.push(symbol_json(&c.name, &c.signature, c.line));
            i += 1;
        }
        let mut methods: Vec<Json> = Vec::new();
        let mut i: usize = 0;
        while i < self.methods.len()
            invariant
                i <= self.methods@.len(),
                methods@.len() == i,
                forall|j: int| 0 <= j < i ==> (#[trigger] methods@[j])@ == self.methods@[j]@.json(),
            decreases self.methods@.len() - i,
        {
            let m = &self.methods[i];
            methods.push(symbol_json(&m.name, &m.signature, m.line));
            i += 1;
        }
        assert(rank::views(classes@) =~= self@.classes.map_values(|s: SymbolView| s.json()));
        assert(rank::views(methods@) =~= self@.methods.map_values(|s: SymbolView| s.json()));
        Json::object().with("path", Json::text(self.path.as_str())).with(
            "classes",
            Json::array(classes),
        ).with("methods", Json::array(methods))
    }
}

impl RepoMap {
    /// The map as a JSON object.
    pub fn to_json(&self) -> (r: Json)
        ensures
            r@ == self@.json(),
    {
        let mut files: Vec<Json> = Vec::new();
        let mut i: usize = 0;
        while i < self.files.len()
            invariant
                i <= self.files@.len(),
                files@.len() == i,
                forall|j: int| 0 <= j < i ==> (#[trigger] files@[j])@ == self.files@[j]@.json(),
            decreases self.files@.len() - i,
        {
            files.push(self.files[i].to_json());
            i += 1;
        }
        assert(rank::views(files@) =~= self@.files.map_values(|f: FileView| f.json()));
        Json::object().with("root", Json::text(self.root.as_str())).with(
            "language",
            Json::text(self.language.as_str()),
        ).with("files", Json::array(files))
    }
}

impl SymbolLocation {
    /// The location as a JSON object.
    pub fn to_json(&self) -> (r: Json)
        ensures
            r@ == self@.json(),
    {
        Json::object().with("symbol", Json::text(self.symbol.as_str())).with(
            "file",
            Json::text(self.file.as_str()),
        ).with("line", Json::Number(self.line as u64)).with(
            "signature",
            Json::text(self.signature.as_str()),
        ).with("kind", Json::text(self.kind.as_str()))
    }
}

impl FuzzySymbolMatch {
    /// The match as a JSON object.
    pub fn to_json(&self) -> (r: Json)
        ensures
            r@ == self@.json(),
    {
        Json::object().with("symbol", Json::text(self.symbol.as_str())).with(
            "file",
            Json::text(self.file.as_str()),
        ).with("line", Json::Number(self.line as u64)).with(
            "signature",
            Json::text(self.signature.as_str()),
        ).with("kind", Json::text(self.kind.as_str())).with(
            "score",
            Json::signed(self.score as i64),
        ).with("match_type", Json::text(self.match_type.as_str()))
    }
}

} // verus!
