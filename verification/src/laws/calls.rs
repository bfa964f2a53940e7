//! Laws of call graph queries.

use crate::graph;
use crate::graph::{GraphCallEdge, TsStamp};
use crate::laws::indexing;
use crate::laws::texts;
use crate::lsp;
use crate::patterns;
use crate::patterns::{TS_ARROW, TS_FUNCTION, TS_METHOD};
use crate::rank;
use crate::text;
use vstd::prelude::*;

verus! {

proof fn lemma_edges_of(sites: Seq<graph::SiteView>, callee: Seq<char>)
    ensures
        graph::edges_of(sites, callee).no_duplicates(),
        forall|e: graph::EdgeView|
            graph::edges_of(sites, callee).contains(e) <==> (exists|i: int|
                0 <= i < sites.len() && graph::edge_of(#[trigger] sites[i], callee) == e),
    decreases sites.len(),
{
    let all = graph::edges_of(sites, callee);
    if sites.len() == 0 {
        assert forall|e: graph::EdgeView| !all.contains(e) by {}
    } else {
        let front = sites.drop_last();
        let before = graph::edges_of(front, callee);
        let last = graph::edge_of(sites.last(), callee);
        lemma_edges_of(front, callee);
        assert forall|e: graph::EdgeView|
            all.contains(e) <==> (exists|i: int|
                0 <= i < sites.len() && graph::edge_of(#[trigger] sites[i], callee) == e) by {
            assert(all.contains(e) <==> before.contains(e) || e == last) by {
                if before.contains(e) {
                    assert(all[before.index_of(e)] == e);
                }
                if e == last && !before.contains(last) {
                    assert(all[all.len() - 1] == e);
                }
                if all.contains(e) {
                    let k = all.index_of(e);
                    if k < before.len() {
                        assert(before[k] == e);
                    }
                }
            }
            if before.contains(e) {
                let i = choose|i: int|
                    0 <= i < front.len() && graph::edge_of(#[trigger] front[i], callee) == e;
                assert(graph::edge_of(sites[i], callee) == e);
            }
            if e == last {
                assert(graph::edge_of(sites[sites.len() - 1], callee) == e);
            }
            if exists|i: int|
                0 <= i < sites.len() && graph::edge_of(#[trigger] sites[i], callee) == e {
                let i = choose|i: int|
                    0 <= i < sites.len() && graph::edge_of(#[trigger] sites[i], callee) == e;
                if i < front.len() {
                    assert(graph::edge_of(front[i], callee) == e);
                }
            }
        }
    }
}

/// The calls of a symbol are its references, each once, in order of caller, file and line.
pub proof fn law_calls_are_the_references(sites: Seq<graph::SiteView>, callee: Seq<char>)
    ensures
        ({
            let calls = rank::ranked::<GraphCallEdge>(graph::edges_of(sites, callee));
            &&& rank::in_order::<GraphCallEdge>(calls)
            &&& calls.no_duplicates()
            &&& forall|e: graph::EdgeView|
                calls.contains(e) <==> (exists|i: int|
                    0 <= i < sites.len() && graph::edge_of(#[trigger] sites[i], callee) == e)
        }),
{
    broadcast use vstd::seq_lib::group_to_multiset_ensures;

    let edges = graph::edges_of(sites, callee);
    let calls = rank::ranked::<GraphCallEdge>(edges);
    lemma_edges_of(sites, callee);
    rank::law_ranked::<GraphCallEdge>(edges);
    edges.lemma_multiset_has_no_duplicates();
    assert forall|x: graph::EdgeView| calls.to_multiset().contains(
        x,
    ) implies calls.to_multiset().count(x) == 1 by {
        assert(edges.to_multiset().contains(x));
    }
    calls.lemma_multiset_has_no_duplicates_conv();
    assert forall|e: graph::EdgeView|
        calls.contains(e) <==> (exists|i: int|
            0 <= i < sites.len() && graph::edge_of(#[trigger] sites[i], callee) == e) by {
        assert(calls.to_multiset().count(e) == edges.to_multiset().count(e));
        assert(calls.contains(e) <==> edges.contains(e));
    }
}

/// The symbol that a line is in depends on no later line.
pub proof fn law_enclosing_symbol_looks_back(a: Seq<char>, b: Seq<char>, line: nat)
    requires
        line < text::lines_of(a).len(),
        line < text::lines_of(b).len(),
        text::lines_of(a).take(line as int + 1) == text::lines_of(b).take(line as int + 1),
    ensures
        graph::enclosing_symbol(a, line) == graph::enclosing_symbol(b, line),
{
}

/// The candidate that is chosen is no worse than any other, and better than each that comes after
/// it. One is chosen if there is any.
pub proof fn law_best_candidate(all: Seq<lsp::CandidateView>)
    ensures
        match graph::best_candidate(all) {
            Some(best) => exists|i: int|
                0 <= i < all.len() && #[trigger] all[i] == best && (forall|j: int|
                    0 <= j < all.len() ==> graph::no_worse(best, #[trigger] all[j])) && (forall|
                    j: int,
                |
                    i < j < all.len() ==> !graph::no_worse(#[trigger] all[j], best)),
            None => all.len() == 0,
        },
    decreases all.len(),
{
    if all.len() > 0 {
        let front = all.drop_last();
        let last = all.last();
        law_best_candidate(front);
        let n = all.len() - 1;
        assert(all[n] == last);
        match graph::best_candidate(front) {
            Some(old_best) => {
                let i = choose|i: int|
                    0 <= i < front.len() && #[trigger] front[i] == old_best && (forall|j: int|
                        0 <= j < front.len() ==> graph::no_worse(old_best, #[trigger] front[j]))
                        && (forall|j: int|
                        i < j < front.len() ==> !graph::no_worse(#[trigger] front[j], old_best));
                assert(all[i] == old_best);
                if graph::no_worse(last, old_best) {
                    assert forall|j: int| 0 <= j < all.len() implies graph::no_worse(
                        last,
                        #[trigger] all[j],
                    ) by {
                        if j < n {
                            assert(graph::no_worse(old_best, front[j]));
                        }
                    }
                } else {
                    assert forall|j: int| 0 <= j < all.len() implies graph::no_worse(
                        old_best,
                        #[trigger] all[j],
                    ) by {
                        if j < n {
                            assert(graph::no_worse(old_best, front[j]));
                        }
                    }
                    assert forall|j: int| i < j < all.len() implies !graph::no_worse(
                        #[trigger] all[j],
                        old_best,
                    ) by {
                        if j < n {
                            assert(!graph::no_worse(front[j], old_best));
                        }
                    }
                }
            },
            None => {},
        }
    }
}

// ---------------------------------------------------------------------------
// The enclosing symbol
// ---------------------------------------------------------------------------

/// The patterns of functions, arrow functions and methods, as they are written.
pub proof fn law_ts_patterns()
    ensures
        TS_FUNCTION@ == r"^\s*(export\s+)?(async\s+)?function\s+([A-Za-z_][A-Za-z0-9_]*)\s*\("@,
        TS_ARROW@
            == r"^\s*(export\s+)?(const|let|var)\s+([A-Za-z_][A-Za-z0-9_]*)\s*=\s*(async\s*)?\([^)]*\)\s*=>"@,
        TS_METHOD@
            == r"^\s*(public|private|protected)?\s*(async\s+)?([A-Za-z_][A-Za-z0-9_]*)\s*\([^)]*\)\s*\{"@,
{
}

/// Whether `line` opens `name`: the function pattern captures it; or that one does not match and
/// the arrow pattern captures it; or neither matches, the method pattern captures it, and it is no
/// word of control flow.
pub open spec fn opens(line: Seq<char>, name: Seq<char>) -> bool {
    let function = patterns::regex_group(TS_FUNCTION@, line, 3);
    let arrow = patterns::regex_group(TS_ARROW@, line, 3);
    let method = patterns::regex_group(TS_METHOD@, line, 3);
    ||| function == Some(Some(name))
    ||| function is None && arrow == Some(Some(name))
    ||| function is None && arrow is None && method == Some(Some(name))
        && indexing::is_no_control_word(name)
}

/// Whether the function pattern and the arrow pattern capture a name on `line` where they match,
/// as they do on every text.
pub open spec fn is_named_where_matched(line: Seq<char>) -> bool {
    &&& patterns::regex_group(TS_FUNCTION@, line, 3) != Some(None::<Seq<char>>)
    &&& patterns::regex_group(TS_ARROW@, line, 3) != Some(None::<Seq<char>>)
}

/// A line that opens a function, an arrow function, or a method that is named by no word of control
/// flow is in what it opens, whatever stands on the lines before it.
pub proof fn law_line_is_in_what_it_opens(content: Seq<char>, i: nat, name: Seq<char>)
    requires
        i < text::lines_of(content).len(),
        opens(text::lines_of(content)[i as int], name),
    ensures
        graph::enclosing_symbol(content, i) == Some(name),
{
    let lines = text::lines_of(content);
    assert(lines.take(i as int + 1).last() == lines[i as int]);
}

/// A line on which the function pattern matches without a name, or the arrow pattern where that
/// one does not match, is in nothing.
pub proof fn law_line_without_a_name_is_in_nothing(content: Seq<char>, i: nat)
    requires
        i < text::lines_of(content).len(),
        ({
            let line = text::lines_of(content)[i as int];
            let function = patterns::regex_group(TS_FUNCTION@, line, 3);
            let arrow = patterns::regex_group(TS_ARROW@, line, 3);
            function == Some(None::<Seq<char>>) || (function is None && arrow == Some(
                None::<Seq<char>>,
            ))
        }),
    ensures
        graph::enclosing_symbol(content, i) is None,
{
    let lines = text::lines_of(content);
    assert(lines.take(i as int + 1).last() == lines[i as int]);
}

/// A line that opens nothing is in what the line before it is in, and the first line in nothing.
/// Behind the last line nothing changes.
pub proof fn law_other_line_is_in_what_came_before(content: Seq<char>, i: nat)
    ensures
        ({
            let lines = text::lines_of(content);
            i < lines.len() && is_named_where_matched(lines[i as int]) && (forall|name: Seq<char>|
                !#[trigger] opens(lines[i as int], name)) ==> graph::enclosing_symbol(content, i)
                == (if i == 0 {
                None
            } else {
                graph::enclosing_symbol(content, (i - 1) as nat)
            })
        }),
        ({
            let lines = text::lines_of(content);
            i >= lines.len() ==> graph::enclosing_symbol(content, i) == (if lines.len() == 0 {
                None
            } else {
                graph::enclosing_symbol(content, (lines.len() - 1) as nat)
            })
        }),
{
    let lines = text::lines_of(content);
    if i < lines.len() {
        let line = lines[i as int];
        assert(lines.take(i as int + 1).last() == line);
        assert(lines.take(i as int + 1).drop_last() =~= lines.take(i as int));
        if forall|name: Seq<char>| !#[trigger] opens(line, name) {
            if let Some(Some(name)) = patterns::regex_group(TS_FUNCTION@, line, 3) {
                assert(opens(line, name));
            }
            if let Some(Some(name)) = patterns::regex_group(TS_ARROW@, line, 3) {
                assert(patterns::regex_group(TS_FUNCTION@, line, 3) is None ==> opens(line, name));
            }
            if let Some(Some(name)) = patterns::regex_group(TS_METHOD@, line, 3) {
                assert(!opens(line, name));
            }
        }
        let before = graph::symbol_at_end(lines.take(i as int));
        if i == 0 {
            assert(lines.take(0) =~= Seq::empty());
            assert(before is None);
        } else {
            assert((i - 1) as nat as int + 1 == i);
            assert(before == graph::enclosing_symbol(content, (i - 1) as nat));
        }
        assert(graph::enclosing_symbol(content, i) == graph::symbol_after(
            before,
            patterns::regex_group(TS_FUNCTION@, line, 3),
            patterns::regex_group(TS_ARROW@, line, 3),
            patterns::regex_group(TS_METHOD@, line, 3),
        ));
    } else if lines.len() > 0 {
        assert(lines.take(lines.len() - 1 + 1) =~= lines);
    }
}

/// Whether line `j` opens `symbol`, and no line from there up to line `i` opens anything.
pub open spec fn is_last_to_open(
    lines: Seq<Seq<char>>,
    i: nat,
    j: int,
    symbol: Seq<char>,
) -> bool {
    &&& 0 <= j <= i
    &&& opens(lines[j], symbol)
    &&& forall|k: int, name: Seq<char>| j < k <= i ==> !#[trigger] opens(lines[k], name)
}

/// A line is in nothing only if no line up to it opens anything; and in something only if a line up
/// to it opens that, and no line between opens anything else.
pub proof fn law_enclosing_symbol_is_the_last_that_opened(content: Seq<char>, i: nat)
    requires
        i < text::lines_of(content).len(),
        forall|j: int|
            0 <= j <= i ==> is_named_where_matched(#[trigger] text::lines_of(content)[j]),
    ensures
        ({
            let lines = text::lines_of(content);
            match graph::enclosing_symbol(content, i) {
                None => forall|j: int, name: Seq<char>|
                    0 <= j <= i ==> !#[trigger] opens(lines[j], name),
                Some(symbol) => exists|j: int| #[trigger] is_last_to_open(lines, i, j, symbol),
            }
        }),
    decreases i,
{
    let lines = text::lines_of(content);
    let line = lines[i as int];
    assert(is_named_where_matched(line));
    if exists|name: Seq<char>| #[trigger] opens(line, name) {
        let name = choose|name: Seq<char>| #[trigger] opens(line, name);
        law_line_is_in_what_it_opens(content, i, name);
        assert(opens(lines[i as int], name));
        let symbol = graph::enclosing_symbol(content, i)->0;
        assert(symbol == name);
        assert(is_last_to_open(lines, i, i as int, symbol));
    } else {
        assert forall|other: Seq<char>| !#[trigger] opens(lines[i as int], other) by {}
        law_other_line_is_in_what_came_before(content, i);
        if i > 0 {
            let before = (i - 1) as nat;
            assert(graph::enclosing_symbol(content, i) == graph::enclosing_symbol(content, before));
            law_enclosing_symbol_is_the_last_that_opened(content, before);
            match graph::enclosing_symbol(content, before) {
                Some(symbol) => {
                    let j = choose|j: int| #[trigger] is_last_to_open(lines, before, j, symbol);
                    assert forall|k: int, name: Seq<char>| j < k <= i implies !#[trigger] opens(
                        lines[k],
                        name,
                    ) by {
                        if k < i {
                            assert(!opens(lines[k], name));
                        }
                    }
                    assert(is_last_to_open(lines, i, j, symbol));
                },
                None => {
                    assert forall|j: int, name: Seq<char>| 0 <= j <= i implies !#[trigger] opens(
                        lines[j],
                        name,
                    ) by {
                        if j < i {
                            assert(!opens(lines[j], name));
                        }
                    }
                },
            }
        } else {
            assert(graph::enclosing_symbol(content, i) is None);
            assert forall|j: int, name: Seq<char>| 0 <= j <= i implies !#[trigger] opens(
                lines[j],
                name,
            ) by {
                assert(j == i);
            }
        }
    }
}

// ---------------------------------------------------------------------------
// Calls
// ---------------------------------------------------------------------------

/// A reference is a call of what is referred to, in the file of the reference, on its line as
/// counted from one. The caller is the symbol that the line is in. Where it is in none, and where
/// the file cannot be read, it is the module.
pub proof fn law_reference_is_a_call(site: graph::SiteView, callee: Seq<char>)
    requires
        site.line < usize::MAX,
    ensures
        ({
            let edge = graph::edge_of(site, callee);
            &&& edge.callee == callee
            &&& edge.file == site.file
            &&& edge.line == site.line + 1
            &&& site.content is None ==> edge.caller == "<module>"@
            &&& site.content matches Some(content) ==> (match graph::enclosing_symbol(
                content,
                site.line as nat,
            ) {
                Some(name) => edge.caller == name,
                None => edge.caller == "<module>"@,
            })
        }),
{
}

/// Whether `a` stands before `b` or with it, by the caller, then the file, then the line.
pub open spec fn stands_no_later(a: graph::EdgeView, b: graph::EdgeView) -> bool {
    ||| rank::text_before(a.caller, b.caller)
    ||| a.caller == b.caller && rank::text_before(a.file, b.file)
    ||| a.caller == b.caller && a.file == b.file && a.line <= b.line
}

proof fn lemma_stands_no_later(calls: Seq<graph::EdgeView>, i: int, j: int)
    requires
        rank::in_order::<GraphCallEdge>(calls),
        0 <= i < j < calls.len(),
    ensures
        stands_no_later(calls[i], calls[j]),
{
    texts::law_text_order(calls[i].caller, calls[j].caller);
    texts::law_text_order(calls[i].file, calls[j].file);
}

/// The answer to a query whose references are known: about the target and the depth of the query,
/// from the TypeScript provider, truncated where calls of calls were asked for. Its calls are the
/// references, each once, and ordered by caller, then by file, then by line.
pub proof fn law_references_are_answered(
    cache: Map<Seq<char>, (u128, graph::CallsView)>,
    query: graph::QueryView,
    signature: u128,
    target: Seq<char>,
    sites: Seq<graph::SiteView>,
)
    ensures
        graph::graph_step(
            cache,
            graph::GraphStepView::Referenced { query, signature, target, sites },
        ).1 matches graph::GraphActionView::Finish(result) && {
            &&& result.symbol == target
            &&& result.depth == query.depth
            &&& result.provider == "ts.lsp.calls.v1"@
            &&& result.truncated <==> query.depth > 1
            &&& result.calls.no_duplicates()
            &&& forall|i: int|
                0 <= i < sites.len() ==> result.calls.contains(
                    graph::edge_of(#[trigger] sites[i], target),
                )
            &&& forall|k: int|
                0 <= k < result.calls.len() ==> exists|i: int|
                    0 <= i < sites.len() && graph::edge_of(sites[i], target)
                        == #[trigger] result.calls[k]
            &&& forall|i: int, j: int|
                0 <= i < j < result.calls.len() ==> stands_no_later(
                    #[trigger] result.calls[i],
                    #[trigger] result.calls[j],
                )
        },
{
    let calls = rank::ranked::<GraphCallEdge>(graph::edges_of(sites, target));
    law_calls_are_the_references(sites, target);
    assert forall|i: int, j: int| 0 <= i < j < calls.len() implies stands_no_later(
        #[trigger] calls[i],
        #[trigger] calls[j],
    ) by {
        lemma_stands_no_later(calls, i, j);
    }
    assert forall|k: int| 0 <= k < calls.len() implies exists|i: int|
        0 <= i < sites.len() && graph::edge_of(sites[i], target) == #[trigger] calls[k] by {
        assert(calls.contains(calls[k]));
        let i = choose|i: int|
            0 <= i < sites.len() && graph::edge_of(#[trigger] sites[i], target) == calls[k];
        assert(graph::edge_of(sites[i], target) == calls[k]);
    }
    assert forall|i: int| 0 <= i < sites.len() implies calls.contains(
        graph::edge_of(#[trigger] sites[i], target),
    ) by {}
}

// ---------------------------------------------------------------------------
// The target
// ---------------------------------------------------------------------------

/// The length of a name in bytes.
pub open spec fn bytes_in(name: Seq<char>) -> usize {
    vstd::utf8::encode_utf8(name).len() as usize
}

/// The target of a query is one of the candidates: none has a higher score; of those with its score
/// none has a shorter name in bytes; and of those with its score and length it is the last. Without
/// candidates the query is answered without calls.
pub proof fn law_target_is_the_best_candidate(
    cache: Map<Seq<char>, (u128, graph::CallsView)>,
    query: graph::QueryView,
    signature: u128,
    candidates: Seq<lsp::CandidateView>,
)
    ensures
        ({
            let (after, action) = graph::graph_step(
                cache,
                graph::GraphStepView::Listed { query, signature, candidates },
            );
            if candidates.len() > 0 {
                &&& after == cache
                &&& action matches graph::GraphActionView::Refer {
                    query: same,
                    signature: stamp,
                    target,
                } && same == query && stamp == signature && exists|i: int|
                    0 <= i < candidates.len() && #[trigger] candidates[i] == target && (forall|
                        j: int,
                    |
                        0 <= j < candidates.len() ==> {
                            let other = #[trigger] candidates[j];
                            ||| other.score < target.score
                            ||| other.score == target.score && bytes_in(other.name) > bytes_in(
                                target.name,
                            )
                            ||| other.score == target.score && bytes_in(other.name) == bytes_in(
                                target.name,
                            ) && j <= i
                        })
            } else {
                action matches graph::GraphActionView::Finish(result) && result.symbol
                    == query.symbol && result.depth == query.depth && result.provider
                    == "ts.lsp.calls.v1"@ && result.calls.len() == 0 && (result.truncated
                    <==> query.depth > 1)
            }
        }),
{
    law_best_candidate(candidates);
    if candidates.len() > 0 {
        let target = graph::best_candidate(candidates)->0;
        let i = choose|i: int|
            0 <= i < candidates.len() && #[trigger] candidates[i] == target && (forall|j: int|
                0 <= j < candidates.len() ==> graph::no_worse(target, #[trigger] candidates[j]))
                && (forall|j: int|
                i < j < candidates.len() ==> !graph::no_worse(#[trigger] candidates[j], target));
        assert(candidates[i] == target);
        assert forall|j: int| 0 <= j < candidates.len() implies ({
            let other = #[trigger] candidates[j];
            ||| other.score < target.score
            ||| other.score == target.score && bytes_in(other.name) > bytes_in(target.name)
            ||| other.score == target.score && bytes_in(other.name) == bytes_in(target.name) && j
                <= i
        }) by {
            assert(graph::no_worse(target, candidates[j]));
            if j > i {
                assert(!graph::no_worse(candidates[j], target));
            }
        }
    }
}

// ---------------------------------------------------------------------------
// The course of a query
// ---------------------------------------------------------------------------

/// A query that names a symbol first asks for the signature of the workspace: in the root, for the
/// symbol without the white space around it, at the depth that was asked for. One that names only
/// white space is answered at once: no symbol, the depth, no calls, not truncated.
pub proof fn law_query_begins_with_the_signature(
    cache: Map<Seq<char>, (u128, graph::CallsView)>,
    root: Seq<char>,
    front: Seq<char>,
    symbol: Seq<char>,
    back: Seq<char>,
    depth: usize,
)
    requires
        texts::all_space(front),
        texts::all_space(back),
        symbol.len() > 0 ==> !text::is_space(symbol[0]) && !text::is_space(symbol.last()),
    ensures
        ({
            let (after, action) = graph::graph_step(
                cache,
                graph::GraphStepView::Start { root, symbol: front + symbol + back, depth },
            );
            &&& after == cache
            &&& symbol.len() > 0 ==> action == graph::GraphActionView::Sign {
                query: graph::QueryView { root, symbol, depth },
            }
            &&& symbol.len() == 0 ==> (action matches graph::GraphActionView::Finish(result)
                && result.symbol.len() == 0 && result.depth == depth && result.provider
                == "ts.lsp.calls.v1"@ && result.calls.len() == 0 && !result.truncated)
        }),
{
    texts::law_trimming(front, symbol, back);
}

/// A query that the cache does not answer looks whether the workspace has sources; one whose
/// workspace has sources asks the server. Nothing changes on the way, and the query stays what it
/// is.
pub proof fn law_unanswered_query_goes_on(
    cache: Map<Seq<char>, (u128, graph::CallsView)>,
    query: graph::QueryView,
    signature: u128,
)
    ensures
        (forall|key: Seq<char>| #[trigger] cache.contains_key(key) ==> cache[key].0 != signature)
            ==> graph::graph_step(cache, graph::GraphStepView::Signed { query, signature }) == (
            cache,
            graph::GraphActionView::Probe { query, signature },
        ),
        graph::graph_step(
            cache,
            graph::GraphStepView::Probed { query, signature, has_ts_files: true },
        ) == (cache, graph::GraphActionView::List { query, signature }),
{
}

/// Every answer that a query comes to after its signature is kept: asked again under that signature
/// the query is answered alike, and under another one the workspace is looked at again.
pub proof fn law_every_answer_is_kept(
    cache: Map<Seq<char>, (u128, graph::CallsView)>,
    query: graph::QueryView,
    signature: u128,
    candidates: Seq<lsp::CandidateView>,
    target: Seq<char>,
    sites: Seq<graph::SiteView>,
    step: graph::GraphStepView,
    later: u128,
)
    requires
        ({
            ||| step == graph::GraphStepView::Probed { query, signature, has_ts_files: false }
            ||| step == graph::GraphStepView::Listed { query, signature, candidates }
            ||| step == graph::GraphStepView::Referenced { query, signature, target, sites }
        }),
    ensures
        ({
            let (after, action) = graph::graph_step(cache, step);
            action is Finish ==> {
                &&& graph::graph_step(after, graph::GraphStepView::Signed { query, signature }) == (
                    after,
                    action,
                )
                &&& later != signature ==> graph::graph_step(
                    after,
                    graph::GraphStepView::Signed { query, signature: later },
                ) == (after, graph::GraphActionView::Probe { query, signature: later })
            }
        }),
{
}

proof fn lemma_key_ends_in_depth(key: Seq<char>, front: Seq<char>, depth: nat)
    requires
        key == front + "|"@ + text::decimal(depth),
    ensures
        ({
            let n = text::decimal(depth).len() as int;
            &&& 0 < n < key.len()
            &&& key[key.len() - n - 1] == '|'
            &&& forall|i: int| key.len() - n <= i < key.len() ==> text::is_digit(#[trigger] key[i])
            &&& key.skip(key.len() - n) == text::decimal(depth)
            &&& key.take(key.len() - n - 1) == front
        }),
{
    reveal_strlit("|");
    text::lemma_decimal_reads_back(depth);
    let d = text::decimal(depth);
    let n = d.len() as int;
    assert forall|i: int| key.len() - n <= i < key.len() implies text::is_digit(
        #[trigger] key[i],
    ) by {
        assert(text::is_digit(d[i - (key.len() - n)]));
    }
    assert(key.skip(key.len() - n) =~= d);
    assert(key.take(key.len() - n - 1) =~= front);
}

/// Queries that differ in their depth, or in their symbol alone, or in their root alone, are kept
/// apart: an answer to one is not taken for the other.
pub proof fn law_queries_are_kept_apart(a: graph::QueryView, b: graph::QueryView)
    requires
        a.depth != b.depth || (a.root == b.root && a.symbol != b.symbol) || (a.symbol == b.symbol
            && a.root != b.root),
    ensures
        graph::cache_key(a) != graph::cache_key(b),
{
    let x = graph::cache_key(a);
    let y = graph::cache_key(b);
    let s = a.root + "|"@ + a.symbol;
    let t = b.root + "|"@ + b.symbol;
    reveal_strlit("|");
    lemma_key_ends_in_depth(x, s, a.depth as nat);
    lemma_key_ends_in_depth(y, t, b.depth as nat);
    if x == y {
        let n = text::decimal(a.depth as nat).len() as int;
        let m = text::decimal(b.depth as nat).len() as int;
        if n < m {
            assert(text::is_digit(y[x.len() - n - 1]));
        }
        if m < n {
            assert(text::is_digit(x[y.len() - m - 1]));
        }
        text::lemma_decimal_reads_back(a.depth as nat);
        text::lemma_decimal_reads_back(b.depth as nat);
        assert(a.depth == b.depth);
        assert(s == t);
        let k = a.root.len() as int;
        if a.root == b.root {
            assert(s.skip(k + 1) =~= a.symbol);
            assert(t.skip(k + 1) =~= b.symbol);
        } else {
            let l = a.symbol.len() as int;
            assert(s.take(s.len() - l - 1) =~= a.root);
            assert(t.take(t.len() - l - 1) =~= b.root);
        }
    }
}

// ---------------------------------------------------------------------------
// Signatures
// ---------------------------------------------------------------------------

/// The signature of no sources is the offset basis of the FNV hash. Each further source is folded
/// into the signature of those before it: its time, times the prime of that hash, is mixed in, the
/// bits go round by thirteen places, and its size is mixed in.
pub proof fn law_signature_takes_sources_one_by_one(stamps: Seq<TsStamp>, stamp: TsStamp)
    ensures
        graph::signature_of(Seq::empty()) == 0xcbf2_9ce4_8422_2325u128,
        ({
            let time = stamp.modified_unix_ms.wrapping_mul(0x100_0000_01b3u128);
            let mixed = graph::signature_of(stamps) ^ time;
            graph::signature_of(stamps.push(stamp)) == ((mixed << 13u128) | (mixed >> 115u128)) ^ (
            stamp.size_bytes as u128)
        }),
{
    assert(stamps.push(stamp).drop_last() =~= stamps);
}

/// Whether `a` and `b` are the same stamps but for the one at `i`, of which either the time or
/// the size differs.
pub open spec fn one_part_differs(a: Seq<TsStamp>, b: Seq<TsStamp>, i: int) -> bool {
    &&& a.len() == b.len()
    &&& 0 <= i < a.len()
    &&& forall|j: int| 0 <= j < a.len() && j != i ==> #[trigger] a[j] == b[j]
    &&& (a[i].modified_unix_ms == b[i].modified_unix_ms) != (a[i].size_bytes == b[i].size_bytes)
}

/// The factor of the signature is odd, so that it has an inverse among the 128-bit numbers:
/// different times stay different under it.
proof fn lemma_scaled_times_differ(a: u128, b: u128)
    requires
        a != b,
    ensures
        a.wrapping_mul(1099511628211u128) != b.wrapping_mul(1099511628211u128),
{
    let range: int = 0x1_0000_0000_0000_0000_0000_0000_0000_0000int;
    let x: int = a * 1099511628211;
    let y: int = b * 1099511628211;
    let t: int = x / range - y / range;
    if x % range == y % range {
        assert(x - y == t * range);
        let u: int = t * 189191985666918745110368690608729920891 - (a - b) * 611312276000;
        assert(a - b == range * u);
        assert(u == 0);
    }
}

proof fn lemma_signature_step(acc: u128, other: u128, time: u128, later: u128, size: u128, grown:
    u128)
    ensures
        acc != other ==> graph::rotated_13(acc ^ time) ^ size != graph::rotated_13(other ^ time)
            ^ size,
        time != later ==> graph::rotated_13(acc ^ time) ^ size != graph::rotated_13(acc ^ later)
            ^ size,
        size != grown ==> graph::rotated_13(acc ^ time) ^ size != graph::rotated_13(acc ^ time)
            ^ grown,
{
    assert(acc != other ==> (((acc ^ time) << 13u128) | ((acc ^ time) >> 115u128)) ^ size != (((
    other ^ time) << 13u128) | ((other ^ time) >> 115u128)) ^ size) by (bit_vector);
    assert(time != later ==> (((acc ^ time) << 13u128) | ((acc ^ time) >> 115u128)) ^ size != (((acc
        ^ later) << 13u128) | ((acc ^ later) >> 115u128)) ^ size) by (bit_vector);
    let left = graph::rotated_13(acc ^ time);
    assert(size != grown ==> left ^ size != left ^ grown) by (bit_vector);
}

/// When the time of one source changes, or its size, the signature of the workspace changes, so
/// that no answer from before is given.
pub proof fn law_changed_stamp_changes_signature(a: Seq<TsStamp>, b: Seq<TsStamp>, i: int)
    requires
        one_part_differs(a, b, i),
    ensures
        graph::signature_of(a) != graph::signature_of(b),
    decreases a.len(),
{
    let n = a.len() - 1;
    let x = a.last();
    let y = b.last();
    let acc = graph::signature_of(a.drop_last());
    let other = graph::signature_of(b.drop_last());
    let time = x.modified_unix_ms.wrapping_mul(1099511628211u128);
    let later = y.modified_unix_ms.wrapping_mul(1099511628211u128);
    let size = x.size_bytes as u128;
    let grown = y.size_bytes as u128;
    lemma_signature_step(acc, other, time, later, size, grown);
    if i < n {
        assert(a[n] == b[n]);
        assert(one_part_differs(a.drop_last(), b.drop_last(), i));
        law_changed_stamp_changes_signature(a.drop_last(), b.drop_last(), i);
    } else {
        assert(a.drop_last() =~= b.drop_last());
        if x.modified_unix_ms != y.modified_unix_ms {
            lemma_scaled_times_differ(x.modified_unix_ms, y.modified_unix_ms);
        }
    }
}

// ---------------------------------------------------------------------------
// The cache
// ---------------------------------------------------------------------------

/// An answer that the cache took is given again as long as the workspace has the same signature.
/// Under another signature the workspace is looked at again.
pub proof fn law_answer_is_cached(
    cache: Map<Seq<char>, (u128, graph::CallsView)>,
    query: graph::QueryView,
    signature: u128,
    result: graph::CallsView,
    later: u128,
)
    ensures
        ({
            let kept = graph::answered(cache, query, signature, result).0;
            let step = graph::GraphStepView::Signed { query, signature: later };
            graph::graph_step(kept, step) == (
                kept,
                if later == signature {
                    graph::GraphActionView::Finish(result)
                } else {
                    graph::GraphActionView::Probe { query, signature: later }
                },
            )
        }),
{
}

/// Whether `step` may put an answer in the cache under `key`.
pub open spec fn may_write(step: graph::GraphStepView, key: Seq<char>) -> bool {
    match step {
        graph::GraphStepView::Start { .. } => false,
        graph::GraphStepView::Signed { .. } => false,
        graph::GraphStepView::Probed { query, .. } => graph::cache_key(query) == key,
        graph::GraphStepView::Listed { query, .. } => graph::cache_key(query) == key,
        graph::GraphStepView::Referenced { query, .. } => graph::cache_key(query) == key,
    }
}

/// The cache after a number of steps, of one query or of many.
pub open spec fn after_steps(
    cache: Map<Seq<char>, (u128, graph::CallsView)>,
    steps: Seq<graph::GraphStepView>,
) -> Map<Seq<char>, (u128, graph::CallsView)>
    decreases steps.len(),
{
    if steps.len() == 0 {
        cache
    } else {
        graph::graph_step(after_steps(cache, steps.drop_last()), steps.last()).0
    }
}

/// The steps of queries under other keys leave an answer as it is.
pub proof fn law_other_queries_leave_an_answer(
    cache: Map<Seq<char>, (u128, graph::CallsView)>,
    steps: Seq<graph::GraphStepView>,
    key: Seq<char>,
)
    requires
        cache.contains_key(key),
        forall|i: int| 0 <= i < steps.len() ==> !may_write(#[trigger] steps[i], key),
    ensures
        after_steps(cache, steps).contains_key(key),
        after_steps(cache, steps)[key] == cache[key],
    decreases steps.len(),
{
    if steps.len() > 0 {
        let front = steps.drop_last();
        assert forall|i: int| 0 <= i < front.len() implies !may_write(#[trigger] front[i], key) by {
            assert(!may_write(steps[i], key));
        }
        law_other_queries_leave_an_answer(cache, front, key);
        assert(!may_write(steps[steps.len() - 1], key));
    }
}

/// A question that was answered is answered alike when it is asked again, with other white space
/// around the symbol and after any number of queries under other keys, as long as the workspace
/// has the signature that it had: the question leads to the signature, and the signature to the
/// answer. Neither the workspace nor the server is asked for anything else.
pub proof fn law_question_asked_again_is_answered_alike(
    cache: Map<Seq<char>, (u128, graph::CallsView)>,
    root: Seq<char>,
    symbol: Seq<char>,
    again: Seq<char>,
    depth: usize,
    signature: u128,
    result: graph::CallsView,
    steps: Seq<graph::GraphStepView>,
)
    requires
        text::trimmed(symbol).len() > 0,
        text::trimmed(again) == text::trimmed(symbol),
        forall|i: int|
            0 <= i < steps.len() ==> !may_write(
                #[trigger] steps[i],
                graph::cache_key(
                    (graph::QueryView { root, symbol: text::trimmed(symbol), depth }),
                ),
            ),
    ensures
        ({
            let query = graph::QueryView { root, symbol: text::trimmed(symbol), depth };
            let kept = graph::answered(cache, query, signature, result).0;
            let later = after_steps(kept, steps);
            &&& graph::graph_step(
                later,
                graph::GraphStepView::Start { root, symbol: again, depth },
            ) == (later, graph::GraphActionView::Sign { query })
            &&& graph::graph_step(later, graph::GraphStepView::Signed { query, signature }) == (
                later,
                graph::GraphActionView::Finish(result),
            )
        }),
{
    let query = graph::QueryView { root, symbol: text::trimmed(symbol), depth };
    let kept = graph::answered(cache, query, signature, result).0;
    law_other_queries_leave_an_answer(kept, steps, graph::cache_key(query));
}

/// Whether a result is one of the TypeScript provider for a symbol: it names the provider, and is
/// truncated where the query asked for calls of calls.
pub open spec fn is_provided(result: graph::CallsView) -> bool {
    result.provider == "ts.lsp.calls.v1"@ && result.truncated == (result.depth > 1)
}

/// Whether each result in the cache is one of the TypeScript provider.
pub open spec fn cache_is_sound(cache: Map<Seq<char>, (u128, graph::CallsView)>) -> bool {
    forall|key: Seq<char>| #[trigger] cache.contains_key(key) ==> is_provided(cache[key].1)
}

/// Every step keeps the cache sound, and every answer to a query that names a symbol is a result
/// of the TypeScript provider.
pub proof fn law_cache_stays_sound(
    cache: Map<Seq<char>, (u128, graph::CallsView)>,
    step: graph::GraphStepView,
)
    requires
        cache_is_sound(cache),
    ensures
        cache_is_sound(graph::graph_step(cache, step).0),
        graph::graph_step(cache, step).1 matches graph::GraphActionView::Finish(result) ==> (
        step is Start || is_provided(result)),
{
    let after = graph::graph_step(cache, step).0;
    assert forall|key: Seq<char>| #[trigger] after.contains_key(key) implies is_provided(
        after[key].1,
    ) by {
        assert(cache.contains_key(key) ==> is_provided(cache[key].1));
    }
}

/// A query for white space is answered at once, without calls and without looking at anything.
pub proof fn law_blank_symbol_has_no_calls(
    cache: Map<Seq<char>, (u128, graph::CallsView)>,
    root: Seq<char>,
    symbol: Seq<char>,
    depth: usize,
)
    requires
        text::trimmed(symbol).len() == 0,
    ensures
        ({
            let (after, action) = graph::graph_step(
                cache,
                graph::GraphStepView::Start { root, symbol, depth },
            );
            &&& after == cache
            &&& action matches graph::GraphActionView::Finish(result) && result.calls.len() == 0
                && !result.truncated
        }),
{
}

/// In a workspace without sources a symbol has no calls, and the server is not asked.
pub proof fn law_no_sources_no_calls(
    cache: Map<Seq<char>, (u128, graph::CallsView)>,
    query: graph::QueryView,
    signature: u128,
)
    ensures
        graph::graph_step(
            cache,
            graph::GraphStepView::Probed { query, signature, has_ts_files: false },
        ).1 matches graph::GraphActionView::Finish(result) && result.calls.len() == 0
            && result.symbol == query.symbol && result.truncated == (query.depth > 1),
{
}

/// A walked file is a TypeScript or JavaScript source where its extension is `ts` or `js`, with or
/// without an `x` behind it.
pub proof fn law_ts_sources(extension: Option<&str>, r: bool)
    requires
        call_ensures(graph::is_ts_source, (extension,), r),
    ensures
        r <==> (extension matches Some(e) && {
            let n = e@.len();
            &&& n == 2 || n == 3 && e@[2] == 'x'
            &&& e@[0] == 't' || e@[0] == 'j'
            &&& e@[1] == 's'
        }),
{
    reveal_strlit("ts");
    reveal_strlit("tsx");
    reveal_strlit("js");
    reveal_strlit("jsx");
    assert("ts"@ =~= seq!['t', 's']);
    assert("js"@ =~= seq!['j', 's']);
    assert("tsx"@ =~= seq!['t', 's', 'x']);
    assert("jsx"@ =~= seq!['j', 's', 'x']);
    if let Some(e) = extension {
        assert(e@.len() == 2 ==> e@ =~= seq![e@[0], e@[1]]);
        assert(e@.len() == 3 ==> e@ =~= seq![e@[0], e@[1], e@[2]]);
    }
}

} // verus!
