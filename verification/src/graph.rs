//! Call graphs of TypeScript workspaces: who refers to a symbol, as a language server tells it.

use crate::java;
use crate::json;
use crate::json::Json;
use crate::laws::calls;
use crate::lookup;
use crate::lsp;
use crate::lsp::{LspLocation, WorkspaceSymbolCandidate};
use crate::paths;
use crate::patterns;
use crate::patterns::{PatternError, TS_ARROW, TS_FUNCTION, TS_METHOD};
use crate::rank;
use crate::rank::Ranked;
use crate::text;
use crate::textmap::TextMap;
use regex::Regex;
use std::cmp::Ordering;
use vstd::prelude::*;

verus! {

broadcast use vstd::string::group_string_axioms;

// ---------------------------------------------------------------------------
// Results
// ---------------------------------------------------------------------------

/// A call: `caller` refers to `callee` at a line of a file.
#[derive(Debug)]
pub struct GraphCallEdge {
    pub caller: String,
    pub callee: String,
    pub file: String,
    pub line: usize,
}

/// The calls of a symbol.
#[derive(Debug)]
pub struct GraphCallsResult {
    pub symbol: String,
    pub depth: usize,
    pub provider: String,
    pub calls: Vec<GraphCallEdge>,
    pub truncated: bool,
}

/// A call.
pub struct EdgeView {
    pub caller: Seq<char>,
    pub callee: Seq<char>,
    pub file: Seq<char>,
    pub line: usize,
}

/// The calls of a symbol.
pub struct CallsView {
    pub symbol: Seq<char>,
    pub depth: usize,
    pub provider: Seq<char>,
    pub calls: Seq<EdgeView>,
    pub truncated: bool,
}

impl View for GraphCallEdge {
    type V = EdgeView;

    open spec fn view(&self) -> EdgeView {
        EdgeView {
            caller: self.caller@,
            callee: self.callee@,
            file: self.file@,
            line: self.line,
        }
    }
}

impl View for GraphCallsResult {
    type V = CallsView;

    open spec fn view(&self) -> CallsView {
        CallsView {
            symbol: self.symbol@,
            depth: self.depth,
            provider: self.provider@,
            calls: rank::views(self.calls@),
            truncated: self.truncated,
        }
    }
}

impl Clone for GraphCallEdge {
    fn clone(&self) -> (r: Self)
        ensures
            r@ == self@,
    {
        GraphCallEdge {
            caller: self.caller.clone(),
            callee: self.callee.clone(),
            file: self.file.clone(),
            line: self.line,
        }
    }
}

impl Clone for GraphCallsResult {
    fn clone(&self) -> (r: Self)
        ensures
            r@ == self@,
    {
        let calls = self.calls.clone();
        assert(rank::views(calls@) =~= rank::views(self.calls@));
        GraphCallsResult {
            symbol: self.symbol.clone(),
            depth: self.depth,
            provider: self.provider.clone(),
            calls,
            truncated: self.truncated,
        }
    }
}

impl EdgeView {
    /// The call as a JSON object.
    pub open spec fn json(self) -> json::JsonView {
        json::JsonView::object().with("caller"@, json::JsonView::Text(self.caller)).with(
            "callee"@,
            json::JsonView::Text(self.callee),
        ).with("file"@, json::JsonView::Text(self.file)).with(
            "line"@,
            json::JsonView::Number(self.line as u64),
        )
    }
}

impl CallsView {
    /// The calls as a JSON object.
    pub open spec fn json(self) -> json::JsonView {
        json::JsonView::object().with("symbol"@, json::JsonView::Text(self.symbol)).with(
            "depth"@,
            json::JsonView::Number(self.depth as u64),
        ).with("provider"@, json::JsonView::Text(self.provider)).with(
            "calls"@,
            json::JsonView::Array(self.calls.map_values(|e: EdgeView| e.json())),
        ).with("truncated"@, json::JsonView::Bool(self.truncated))
    }
}

impl GraphCallEdge {
    /// The call as a JSON object.
    pub fn to_json(&self) -> (r: Json)
        ensures
            r@ == self@.json(),
    {
        Json::object().with("caller", Json::text(self.caller.as_str())).with(
            "callee",
            Json::text(self.callee.as_str()),
        ).with("file", Json::text(self.file.as_str())).with("line", Json::Number(self.line as u64))
    }
}

impl GraphCallsResult {
    /// The calls as a JSON object.
    pub fn to_json(&self) -> (r: Json)
        ensures
            r@ == self@.json(),
    {
        let mut calls: Vec<Json> = Vec::new();
        let mut i: usize = 0;
        while i < self.calls.len()
            invariant
                i <= self.calls@.len(),
                calls@.len() == i,
                forall|j: int| 0 <= j < i ==> (#[trigger] calls@[j])@ == self.calls@[j]@.json(),
            decreases self.calls@.len() - i,
        {
            calls.push(self.calls[i].to_json());
            i += 1;
        }
        assert(rank::views(calls@) =~= self@.calls.map_values(|e: EdgeView| e.json()));
        Json::object().with("symbol", Json::text(self.symbol.as_str())).with(
            "depth",
            Json::Number(self.depth as u64),
        ).with("provider", Json::text(self.provider.as_str())).with(
            "calls",
            Json::array(calls),
        ).with("truncated", Json::Bool(self.truncated))
    }
}

// ---------------------------------------------------------------------------
// The order of calls
// ---------------------------------------------------------------------------

/// How `a` stands to `b` among calls: by caller, file and line.
pub open spec fn edge_order(a: EdgeView, b: EdgeView) -> Ordering {
    if rank::text_order(a.caller, b.caller) != Ordering::Equal {
        rank::text_order(a.caller, b.caller)
    } else if rank::text_order(a.file, b.file) != Ordering::Equal {
        rank::text_order(a.file, b.file)
    } else if a.line < b.line {
        Ordering::Less
    } else if a.line > b.line {
        Ordering::Greater
    } else {
        Ordering::Equal
    }
}

impl Ranked for GraphCallEdge {
    open spec fn no_later(a: EdgeView, b: EdgeView) -> bool {
        edge_order(a, b) != Ordering::Greater
    }

    proof fn lemma_total(a: EdgeView, b: EdgeView) {
        rank::lemma_text_order_flips(a.caller, b.caller);
        rank::lemma_text_order_flips(a.file, b.file);
    }

    proof fn lemma_transitive(a: EdgeView, b: EdgeView, c: EdgeView) {
        rank::lemma_text_order_equal(a.caller, b.caller);
        rank::lemma_text_order_equal(b.caller, c.caller);
        rank::lemma_text_order_equal(a.caller, c.caller);
        rank::lemma_text_order_equal(a.file, b.file);
        rank::lemma_text_order_equal(b.file, c.file);
        rank::lemma_text_order_equal(a.file, c.file);
        if rank::text_before(a.caller, b.caller) && rank::text_before(b.caller, c.caller) {
            rank::lemma_text_order_transitive(a.caller, b.caller, c.caller);
        }
        if rank::text_before(a.file, b.file) && rank::text_before(b.file, c.file) {
            rank::lemma_text_order_transitive(a.file, b.file, c.file);
        }
    }

    fn is_no_later(&self, other: &Self) -> (r: bool) {
        match rank::compare_text(self.caller.as_str(), other.caller.as_str()) {
            Ordering::Less => {
                return true;
            },
            Ordering::Greater => {
                return false;
            },
            Ordering::Equal => {},
        }
        match rank::compare_text(self.file.as_str(), other.file.as_str()) {
            Ordering::Less => {
                return true;
            },
            Ordering::Greater => {
                return false;
            },
            Ordering::Equal => {},
        }
        self.line <= other.line
    }
}

// ---------------------------------------------------------------------------
// The enclosing symbol
// ---------------------------------------------------------------------------

/// The symbol that a line is in, after one was `last` before it: the function, arrow function or
/// method that opens on the line, where the three patterns captured the given groups, or `last`.
pub open spec fn symbol_after(
    last: Option<Seq<char>>,
    function: Option<Option<Seq<char>>>,
    arrow: Option<Option<Seq<char>>>,
    method: Option<Option<Seq<char>>>,
) -> Option<Seq<char>> {
    match function {
        Some(name) => name,
        None => match arrow {
            Some(name) => name,
            None => match method {
                Some(Some(name)) => if java::is_control_word(name) {
                    last
                } else {
                    Some(name)
                },
                _ => last,
            },
        },
    }
}

/// The symbol that the last of `lines` is in.
pub open spec fn symbol_at_end(lines: Seq<Seq<char>>) -> Option<Seq<char>>
    decreases lines.len(),
{
    if lines.len() == 0 {
        None
    } else {
        symbol_after(
            symbol_at_end(lines.drop_last()),
            patterns::regex_group(TS_FUNCTION@, lines.last(), 3),
            patterns::regex_group(TS_ARROW@, lines.last(), 3),
            patterns::regex_group(TS_METHOD@, lines.last(), 3),
        )
    }
}

/// The symbol that line `line` of `content` is in. Lines are counted from zero.
pub open spec fn enclosing_symbol(content: Seq<char>, line: nat) -> Option<Seq<char>> {
    let lines = text::lines_of(content);
    if line < lines.len() {
        symbol_at_end(lines.take(line as int + 1))
    } else {
        symbol_at_end(lines)
    }
}

/// The symbol that a line is in, where the three patterns captured the given groups.
pub fn next_symbol(
    last: Option<String>,
    function: Option<Option<String>>,
    arrow: Option<Option<String>>,
    method: Option<Option<String>>,
) -> (r: Option<String>)
    ensures
        paths::text_option(r) == symbol_after(
            paths::text_option(last),
            patterns::captured(function),
            patterns::captured(arrow),
            patterns::captured(method),
        ),
{
    match function {
        Some(name) => name,
        None => match arrow {
            Some(name) => name,
            None => match method {
                Some(Some(name)) => if java::control_word(name.as_str()) {
                    last
                } else {
                    Some(name)
                },
                _ => last,
            },
        },
    }
}

/// The compiled TypeScript line patterns.
#[derive(Debug)]
pub struct TsPatterns {
    function_re: Regex,
    arrow_re: Regex,
    method_re: Regex,
}

impl TsPatterns {
    #[verifier::type_invariant]
    spec fn well_formed(self) -> bool {
        &&& patterns::regex_pattern(self.function_re) == TS_FUNCTION@
        &&& patterns::regex_pattern(self.arrow_re) == TS_ARROW@
        &&& patterns::regex_pattern(self.method_re) == TS_METHOD@
    }

    /// Compiles the patterns.
    pub fn compile() -> (r: Result<TsPatterns, PatternError>)
        ensures
            r is Ok,
    {
        let function_re = match patterns::compile_line_pattern(TS_FUNCTION) {
            Ok(re) => re,
            Err(e) => {
                return Err(e);
            },
        };
        let arrow_re = match patterns::compile_line_pattern(TS_ARROW) {
            Ok(re) => re,
            Err(e) => {
                return Err(e);
            },
        };
        let method_re = match patterns::compile_line_pattern(TS_METHOD) {
            Ok(re) => re,
            Err(e) => {
                return Err(e);
            },
        };
        Ok(TsPatterns { function_re, arrow_re, method_re })
    }
}

/// The symbol that line `zero_based_line` of `content` is in. It is an identifier. There is none
/// only if no line up to that one opens a symbol.
pub fn find_enclosing_ts_symbol(content: &str, zero_based_line: usize, ts: &TsPatterns) -> (r:
    Option<String>)
    ensures
        paths::text_option(r) == enclosing_symbol(content@, zero_based_line as nat),
        r matches Some(name) ==> text::is_identifier(name@),
        r is None ==> forall|j: int, name: Seq<char>|
            0 <= j <= zero_based_line && j < text::lines_of(content@).len() ==> !#[trigger]
                calls::opens(text::lines_of(content@)[j], name),
{
    proof {
        use_type_invariant(ts);
    }
    let lines = text::lines(content);
    let ghost all = text::lines_of(content@);
    let mut last: Option<String> = None;
    let mut i: usize = 0;
    assert(all.take(0) =~= Seq::empty());
    while i < lines.len() && i <= zero_based_line
        invariant
            i <= lines@.len(),
            i <= zero_based_line + 1,
            all == lines@.map_values(|l: &str| l@),
            paths::text_option(last) == symbol_at_end(all.take(i as int)),
            last matches Some(name) ==> text::is_identifier(name@),
            forall|j: int| 0 <= j < i ==> calls::is_named_where_matched(#[trigger] all[j]),
            patterns::regex_pattern(ts.function_re) == TS_FUNCTION@,
            patterns::regex_pattern(ts.arrow_re) == TS_ARROW@,
            patterns::regex_pattern(ts.method_re) == TS_METHOD@,
        decreases lines@.len() - i,
    {
        let line = lines[i];
        proof {
            assert(all[i as int] == line@);
            assert(all.take(i + 1).drop_last() =~= all.take(i as int));
            assert(all.take(i + 1).last() == line@);
        }
        let function = patterns::capture(&ts.function_re, line, 3);
        let arrow = patterns::capture(&ts.arrow_re, line, 3);
        let method = patterns::capture(&ts.method_re, line, 3);
        last = next_symbol(last, function, arrow, method);
        i += 1;
    }
    proof {
        if zero_based_line < all.len() {
            assert(i == zero_based_line + 1);
        } else {
            assert(all.take(i as int) =~= all);
        }
        if i > 0 {
            let end = (i - 1) as nat;
            calls::law_other_line_is_in_what_came_before(content@, zero_based_line as nat);
            calls::law_enclosing_symbol_is_the_last_that_opened(content@, end);
            assert(enclosing_symbol(content@, zero_based_line as nat) == enclosing_symbol(
                content@,
                end,
            ));
        }
    }
    last
}

// ---------------------------------------------------------------------------
// Calls from references
// ---------------------------------------------------------------------------

/// A reference, with the file that it is in: its path below the root, the line from zero, and
/// what the file holds, if it can be read.
#[derive(Debug)]
pub struct ReferenceSite {
    pub file: String,
    pub line: usize,
    pub content: Option<String>,
}

/// A reference.
pub struct SiteView {
    pub file: Seq<char>,
    pub line: usize,
    pub content: Option<Seq<char>>,
}

impl View for ReferenceSite {
    type V = SiteView;

    open spec fn view(&self) -> SiteView {
        SiteView {
            file: self.file@,
            line: self.line,
            content: paths::text_option(self.content),
        }
    }
}

/// The symbol that a reference is in, or the module.
pub open spec fn caller_of(site: SiteView) -> Seq<char> {
    match site.content {
        Some(content) => match enclosing_symbol(content, site.line as nat) {
            Some(name) => name,
            None => "<module>"@,
        },
        None => "<module>"@,
    }
}

/// The call that a reference to `callee` is.
pub open spec fn edge_of(site: SiteView, callee: Seq<char>) -> EdgeView {
    EdgeView {
        caller: caller_of(site),
        callee,
        file: site.file,
        line: (site.line + 1) as usize,
    }
}

/// The calls that references to `callee` are, each once, in the order of `sites`.
pub open spec fn edges_of(sites: Seq<SiteView>, callee: Seq<char>) -> Seq<EdgeView>
    decreases sites.len(),
{
    if sites.len() == 0 {
        Seq::empty()
    } else {
        let before = edges_of(sites.drop_last(), callee);
        let edge = edge_of(sites.last(), callee);
        if before.contains(edge) {
            before
        } else {
            before.push(edge)
        }
    }
}

/// Whether each line can be counted from one.
pub open spec fn lines_countable(sites: Seq<ReferenceSite>) -> bool {
    forall|i: int| 0 <= i < sites.len() ==> (#[trigger] sites[i]).line < usize::MAX
}

fn has_edge(edges: &Vec<GraphCallEdge>, edge: &GraphCallEdge) -> (r: bool)
    ensures
        r == rank::views(edges@).contains(edge@),
{
    let ghost all = rank::views(edges@);
    let mut i: usize = 0;
    while i < edges.len()
        invariant
            i <= edges@.len(),
            all == rank::views(edges@),
            forall|j: int| 0 <= j < i ==> all[j] != edge@,
        decreases edges@.len() - i,
    {
        let e = &edges[i];
        assert(all[i as int] == e@);
        if e.line == edge.line && text::same_text(e.caller.as_str(), edge.caller.as_str())
            && text::same_text(e.file.as_str(), edge.file.as_str()) && text::same_text(
            e.callee.as_str(),
            edge.callee.as_str(),
        ) {
            assert(all[i as int] == edge@);
            return true;
        }
        i += 1;
    }
    false
}

/// The calls that references to `callee` are, sorted by caller, file and line.
pub fn calls_from_references(sites: &Vec<ReferenceSite>, callee: &str) -> (r: Vec<GraphCallEdge>)
    requires
        lines_countable(sites@),
    ensures
        rank::views(r@) == rank::ranked::<GraphCallEdge>(
            edges_of(rank::views(sites@), callee@),
        ),
{
    let compiled = TsPatterns::compile();
    let ghost all = rank::views(sites@);
    let mut edges: Vec<GraphCallEdge> = Vec::new();
    let mut i: usize = 0;
    assert(rank::views(edges@) =~= Seq::empty());
    while i < sites.len()
        invariant
            i <= sites@.len(),
            lines_countable(sites@),
            all == rank::views(sites@),
            compiled is Ok,
            rank::views(edges@) == edges_of(all.take(i as int), callee@),
        decreases sites@.len() - i,
    {
        let site = &sites[i];
        let mut found: Option<String> = None;
        if let Ok(ts) = &compiled {
            if let Some(content) = &site.content {
                found = find_enclosing_ts_symbol(content.as_str(), site.line, ts);
            }
        }
        let caller = match found {
            Some(name) => name,
            None => "<module>".to_string(),
        };
        assert(caller@ == caller_of(site@));
        let edge = GraphCallEdge {
            caller,
            callee: callee.to_string(),
            file: site.file.clone(),
            line: site.line + 1,
        };
        let ghost before = edges@;
        assert(all.take(i + 1).drop_last() =~= all.take(i as int));
        assert(all.take(i + 1).last() == site@);
        if !has_edge(&edges, &edge) {
            edges.push(edge);
            assert(rank::views(edges@) =~= rank::views(before).push(edge@));
        }
        i += 1;
    }
    assert(all.take(i as int) =~= all);
    rank::stable_sort(edges)
}

// ---------------------------------------------------------------------------
// The symbol to ask about
// ---------------------------------------------------------------------------

/// Whether `a` is at least as good a candidate as `b`: by score, then by the shorter name.
pub open spec fn no_worse(a: lsp::CandidateView, b: lsp::CandidateView) -> bool {
    a.score > b.score || (a.score == b.score && lookup::byte_len(a.name) <= lookup::byte_len(
        b.name,
    ))
}

/// The best candidate, the last one among equals.
pub open spec fn best_candidate(all: Seq<lsp::CandidateView>) -> Option<lsp::CandidateView>
    decreases all.len(),
{
    if all.len() == 0 {
        None
    } else {
        match best_candidate(all.drop_last()) {
            Some(best) => if no_worse(all.last(), best) {
                Some(all.last())
            } else {
                Some(best)
            },
            None => Some(all.last()),
        }
    }
}

/// The best candidate, the last one among equals.
pub fn select_candidate(candidates: Vec<WorkspaceSymbolCandidate>) -> (r: Option<
    WorkspaceSymbolCandidate,
>)
    ensures
        match r {
            Some(c) => best_candidate(rank::views(candidates@)) == Some(c@),
            None => best_candidate(rank::views(candidates@)) is None,
        },
{
    let ghost all = rank::views(candidates@);
    if candidates.len() == 0 {
        return None;
    }
    let mut best: usize = 0;
    let mut i: usize = 1;
    assert(all.take(1).drop_last() =~= Seq::empty());
    assert(best_candidate(all.take(1).drop_last()) is None);
    while i < candidates.len()
        invariant
            best < i <= candidates@.len(),
            all == rank::views(candidates@),
            best_candidate(all.take(i as int)) == Some(candidates@[best as int]@),
        decreases candidates@.len() - i,
    {
        let a = &candidates[i];
        let b = &candidates[best];
        assert(all.take(i + 1).drop_last() =~= all.take(i as int));
        assert(all.take(i + 1).last() == a@);
        if a.score > b.score || (a.score == b.score && a.name.as_str().len()
            <= b.name.as_str().len()) {
            best = i;
        }
        i += 1;
    }
    assert(all.take(i as int) =~= all);
    let mut rest = candidates;
    Some(rest.swap_remove(best))
}

// ---------------------------------------------------------------------------
// Workspaces
// ---------------------------------------------------------------------------

/// Whether a walked file is a TypeScript or JavaScript source, by the extension of its path.
pub fn is_ts_source(extension: Option<&str>) -> (r: bool)
    ensures
        r <==> (extension matches Some(e) && (e@ == "ts"@ || e@ == "tsx"@ || e@ == "js"@ || e@
            == "jsx"@)),
{
    match extension {
        Some(e) => text::same_text(e, "ts") || text::same_text(e, "tsx") || text::same_text(
            e,
            "js",
        ) || text::same_text(e, "jsx"),
        None => false,
    }
}

/// The stamp of a source: when it was modified, in milliseconds, and its size.
#[derive(Debug, Clone, Copy)]
pub struct TsStamp {
    pub modified_unix_ms: u128,
    pub size_bytes: u64,
}

/// `x` rotated to the left by 13 bits.
pub open spec fn rotated_13(x: u128) -> u128 {
    (x << 13u128) | (x >> 115u128)
}

/// The signature of a workspace, from the stamps of its sources in the order of the walk.
pub open spec fn signature_of(stamps: Seq<TsStamp>) -> u128
    decreases stamps.len(),
{
    if stamps.len() == 0 {
        14695981039346656037u128
    } else {
        let acc = signature_of(stamps.drop_last());
        let s = stamps.last();
        rotated_13(acc ^ s.modified_unix_ms.wrapping_mul(1099511628211u128)) ^ (s.size_bytes
            as u128)
    }
}

/// The signature of a workspace.
pub fn compute_ts_workspace_signature(stamps: &Vec<TsStamp>) -> (r: u128)
    ensures
        r == signature_of(stamps@),
{
    let mut acc: u128 = 14695981039346656037u128;
    let mut i: usize = 0;
    while i < stamps.len()
        invariant
            i <= stamps@.len(),
            acc == signature_of(stamps@.take(i as int)),
        decreases stamps@.len() - i,
    {
        let s = stamps[i];
        assert(stamps@.take(i + 1).drop_last() =~= stamps@.take(i as int));
        acc = acc ^ s.modified_unix_ms.wrapping_mul(1099511628211u128);
        acc = ((acc << 13u128) | (acc >> 115u128)) ^ (s.size_bytes as u128);
        i += 1;
    }
    assert(stamps@.take(i as int) =~= stamps@);
    acc
}

/// The place of a reference: the path to read, and the path below the root to show.
#[derive(Debug)]
pub struct ReferencePlace {
    pub path: String,
    pub file: String,
    pub line: usize,
}

/// Where to read the file of a reference, and how to show it.
pub fn reference_place(root: &str, location: &LspLocation, windows: bool) -> (r: ReferencePlace)
    ensures
        r.path@ == paths::uri_target(location.uri@, windows),
        paths::is_shown_below(root@, r.path@, r.file@),
        r.line == location.line,
{
    let path = paths::file_uri_to_path(location.uri.as_str(), windows);
    let file = paths::to_rel_or_abs(root, path.as_str());
    ReferencePlace { path, file, line: location.line }
}

// ---------------------------------------------------------------------------
// The query
// ---------------------------------------------------------------------------

/// A result with its signature.
#[derive(Debug)]
pub struct TsGraphCacheEntry {
    pub signature: u128,
    pub result: GraphCallsResult,
}

/// The results of earlier queries, each with the signature that its workspace had.
#[derive(Debug)]
pub struct TsGraphCache {
    entries: TextMap<TsGraphCacheEntry>,
}

impl View for TsGraphCache {
    type V = Map<Seq<char>, (u128, CallsView)>;

    closed spec fn view(&self) -> Map<Seq<char>, (u128, CallsView)> {
        self.entries@.map_values(|e: TsGraphCacheEntry| (e.signature, e.result@))
    }
}

impl TsGraphCache {
    /// The cache without results.
    pub fn new() -> (r: TsGraphCache)
        ensures
            r@ == Map::<Seq<char>, (u128, CallsView)>::empty(),
    {
        let r = TsGraphCache { entries: TextMap::new() };
        assert(r@ =~= Map::<Seq<char>, (u128, CallsView)>::empty());
        r
    }

    fn get(&self, key: &str) -> (r: Option<&TsGraphCacheEntry>)
        ensures
            match r {
                Some(e) => self@.contains_key(key@) && self@[key@] == (e.signature, e.result@),
                None => !self@.contains_key(key@),
            },
    {
        self.entries.get(key)
    }

    fn put(&mut self, key: String, signature: u128, result: GraphCallsResult)
        ensures
            final(self)@ == old(self)@.insert(key@, (signature, result@)),
    {
        self.entries.insert(key, TsGraphCacheEntry { signature, result });
        assert(self@ =~= old(self)@.insert(key@, (signature, result@)));
    }
}

/// A query on its way: the root as shown, the symbol without white space around it, and the
/// depth.
#[derive(Debug)]
pub struct GraphQuery {
    pub root: String,
    pub symbol: String,
    pub depth: usize,
}

/// A query on its way.
pub struct QueryView {
    pub root: Seq<char>,
    pub symbol: Seq<char>,
    pub depth: usize,
}

impl View for GraphQuery {
    type V = QueryView;

    open spec fn view(&self) -> QueryView {
        QueryView { root: self.root@, symbol: self.symbol@, depth: self.depth }
    }
}

/// What is known of a query: the question, then what each action brought.
#[derive(Debug)]
pub enum GraphStep {
    /// The question.
    Start { root: String, symbol: String, depth: usize },
    /// The signature of the workspace.
    Signed { query: GraphQuery, signature: u128 },
    /// Whether the workspace has sources.
    Probed { query: GraphQuery, signature: u128, has_ts_files: bool },
    /// The candidates that the server offers.
    Listed { query: GraphQuery, signature: u128, candidates: Vec<WorkspaceSymbolCandidate> },
    /// The references to the target.
    Referenced {
        query: GraphQuery,
        signature: u128,
        target: String,
        sites: Vec<ReferenceSite>,
    },
}

/// What is known of a query.
pub enum GraphStepView {
    Start { root: Seq<char>, symbol: Seq<char>, depth: usize },
    Signed { query: QueryView, signature: u128 },
    Probed { query: QueryView, signature: u128, has_ts_files: bool },
    Listed { query: QueryView, signature: u128, candidates: Seq<lsp::CandidateView> },
    Referenced {
        query: QueryView,
        signature: u128,
        target: Seq<char>,
        sites: Seq<SiteView>,
    },
}

impl View for GraphStep {
    type V = GraphStepView;

    open spec fn view(&self) -> GraphStepView {
        match self {
            GraphStep::Start { root, symbol, depth } => GraphStepView::Start {
                root: root@,
                symbol: symbol@,
                depth: *depth,
            },
            GraphStep::Signed { query, signature } => GraphStepView::Signed {
                query: query@,
                signature: *signature,
            },
            GraphStep::Probed { query, signature, has_ts_files } => GraphStepView::Probed {
                query: query@,
                signature: *signature,
                has_ts_files: *has_ts_files,
            },
            GraphStep::Listed { query, signature, candidates } => GraphStepView::Listed {
                query: query@,
                signature: *signature,
                candidates: rank::views(candidates@),
            },
            GraphStep::Referenced { query, signature, target, sites } => GraphStepView::Referenced {
                query: query@,
                signature: *signature,
                target: target@,
                sites: rank::views(sites@),
            },
        }
    }
}

/// What to do next for a query.
#[derive(Debug)]
pub enum GraphAction {
    /// Answer.
    Finish(GraphCallsResult),
    /// Compute the signature of the workspace.
    Sign { query: GraphQuery },
    /// Look whether the workspace has sources.
    Probe { query: GraphQuery, signature: u128 },
    /// Start the server and ask it for the symbol.
    List { query: GraphQuery, signature: u128 },
    /// Ask the server for the references to the target.
    Refer { query: GraphQuery, signature: u128, target: WorkspaceSymbolCandidate },
}

/// What to do next for a query.
pub enum GraphActionView {
    Finish(CallsView),
    Sign { query: QueryView },
    Probe { query: QueryView, signature: u128 },
    List { query: QueryView, signature: u128 },
    Refer { query: QueryView, signature: u128, target: lsp::CandidateView },
}

impl View for GraphAction {
    type V = GraphActionView;

    open spec fn view(&self) -> GraphActionView {
        match self {
            GraphAction::Finish(result) => GraphActionView::Finish(result@),
            GraphAction::Sign { query } => GraphActionView::Sign { query: query@ },
            GraphAction::Probe { query, signature } => GraphActionView::Probe {
                query: query@,
                signature: *signature,
            },
            GraphAction::List { query, signature } => GraphActionView::List {
                query: query@,
                signature: *signature,
            },
            GraphAction::Refer { query, signature, target } => GraphActionView::Refer {
                query: query@,
                signature: *signature,
                target: target@,
            },
        }
    }
}

/// The key of a query in the cache.
pub open spec fn cache_key(query: QueryView) -> Seq<char> {
    query.root + "|"@ + query.symbol + "|"@ + text::decimal(query.depth as nat)
}

/// A result of the TypeScript provider. Calls of calls are not followed: a query that asks for
/// them gets a truncated result.
pub open spec fn ts_result(
    symbol: Seq<char>,
    depth: usize,
    calls: Seq<EdgeView>,
) -> CallsView {
    CallsView { symbol, depth, provider: "ts.lsp.calls.v1"@, calls, truncated: depth > 1 }
}

/// The answer `result` to a query, which the cache keeps under the signature.
pub open spec fn answered(
    cache: Map<Seq<char>, (u128, CallsView)>,
    query: QueryView,
    signature: u128,
    result: CallsView,
) -> (Map<Seq<char>, (u128, CallsView)>, GraphActionView) {
    (cache.insert(cache_key(query), (signature, result)), GraphActionView::Finish(result))
}

/// What a query does next, and the cache after it: nothing is asked for white space, a cached
/// result answers while the workspace has its signature, a workspace without sources and a
/// symbol without candidates have no calls, and the references to the best candidate are its
/// calls.
pub open spec fn graph_step(
    cache: Map<Seq<char>, (u128, CallsView)>,
    step: GraphStepView,
) -> (Map<Seq<char>, (u128, CallsView)>, GraphActionView) {
    match step {
        GraphStepView::Start { root, symbol, depth } => if text::trimmed(symbol).len() == 0 {
            (
                cache,
                GraphActionView::Finish(
                    CallsView {
                        symbol: Seq::empty(),
                        depth,
                        provider: "ts.lsp.calls.v1"@,
                        calls: Seq::empty(),
                        truncated: false,
                    },
                ),
            )
        } else {
            (
                cache,
                GraphActionView::Sign {
                    query: QueryView { root, symbol: text::trimmed(symbol), depth },
                },
            )
        },
        GraphStepView::Signed { query, signature } => if cache.contains_key(cache_key(query))
            && cache[cache_key(query)].0 == signature {
            (cache, GraphActionView::Finish(cache[cache_key(query)].1))
        } else {
            (cache, GraphActionView::Probe { query, signature })
        },
        GraphStepView::Probed { query, signature, has_ts_files } => if has_ts_files {
            (cache, GraphActionView::List { query, signature })
        } else {
            answered(
                cache,
                query,
                signature,
                ts_result(query.symbol, query.depth, Seq::empty()),
            )
        },
        GraphStepView::Listed { query, signature, candidates } => match best_candidate(
            candidates,
        ) {
            Some(target) => (cache, GraphActionView::Refer { query, signature, target }),
            None => answered(
                cache,
                query,
                signature,
                ts_result(query.symbol, query.depth, Seq::empty()),
            ),
        },
        GraphStepView::Referenced { query, signature, target, sites } => answered(
            cache,
            query,
            signature,
            ts_result(
                target,
                query.depth,
                rank::ranked::<GraphCallEdge>(edges_of(sites, target)),
            ),
        ),
    }
}

fn key_of(query: &GraphQuery) -> (r: String)
    ensures
        r@ == cache_key(query@),
{
    let mut key = query.root.clone();
    key.append("|");
    key.append(query.symbol.as_str());
    key.append("|");
    let depth = text::to_decimal(query.depth as u64);
    key.append(depth.as_str());
    key
}

fn no_calls() -> (r: Vec<GraphCallEdge>)
    ensures
        rank::views(r@) == Seq::<EdgeView>::empty(),
{
    let r: Vec<GraphCallEdge> = Vec::new();
    assert(rank::views(r@) =~= Seq::<EdgeView>::empty());
    r
}

fn answer(
    cache: &mut TsGraphCache,
    query: GraphQuery,
    signature: u128,
    symbol: String,
    calls: Vec<GraphCallEdge>,
) -> (r: GraphAction)
    ensures
        (final(cache)@, r@) == answered(
            old(cache)@,
            query@,
            signature,
            ts_result(symbol@, query.depth, rank::views(calls@)),
        ),
{
    let key = key_of(&query);
    let result = GraphCallsResult {
        symbol,
        depth: query.depth,
        provider: "ts.lsp.calls.v1".to_string(),
        calls,
        truncated: query.depth > 1,
    };
    cache.put(key, signature, result.clone());
    GraphAction::Finish(result)
}

/// Takes what is known of a query, and says what to do next for it.
pub fn graph_calls_typescript_lsp(cache: &mut TsGraphCache, step: GraphStep) -> (r: GraphAction)
    requires
        step matches GraphStep::Referenced { sites, .. } ==> lines_countable(sites@),
    ensures
        (final(cache)@, r@) == graph_step(old(cache)@, step@),
{
    match step {
        GraphStep::Start { root, symbol, depth } => {
            let sanitized = text::trim(symbol.as_str());
            if sanitized.is_empty() {
                GraphAction::Finish(
                    GraphCallsResult {
                        symbol: String::new(),
                        depth,
                        provider: "ts.lsp.calls.v1".to_string(),
                        calls: no_calls(),
                        truncated: false,
                    },
                )
            } else {
                GraphAction::Sign {
                    query: GraphQuery { root, symbol: sanitized.to_string(), depth },
                }
            }
        },
        GraphStep::Signed { query, signature } => {
            let key = key_of(&query);
            if let Some(hit) = cache.get(key.as_str()) {
                if hit.signature == signature {
                    return GraphAction::Finish(hit.result.clone());
                }
            }
            GraphAction::Probe { query, signature }
        },
        GraphStep::Probed { query, signature, has_ts_files } => {
            if has_ts_files {
                GraphAction::List { query, signature }
            } else {
                let symbol = query.symbol.clone();
                answer(cache, query, signature, symbol, no_calls())
            }
        },
        GraphStep::Listed { query, signature, candidates } => match select_candidate(candidates) {
            Some(target) => GraphAction::Refer { query, signature, target },
            None => {
                let symbol = query.symbol.clone();
                answer(cache, query, signature, symbol, no_calls())
            },
        },
        GraphStep::Referenced { query, signature, target, sites } => {
            let calls = calls_from_references(&sites, target.as_str());
            answer(cache, query, signature, target, calls)
        },
    }
}

} // verus!
