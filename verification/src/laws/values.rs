//! Laws of JSON values, and of the records that are written as such.

use crate::catalog;
use crate::graph;
use crate::json;
use crate::laws::words;
use crate::symbols;
use vstd::prelude::*;

verus! {

// ---------------------------------------------------------------------------
// Values
// ---------------------------------------------------------------------------

/// The number of members of an object. What is no object has none.
pub open spec fn members_in(v: json::JsonView) -> nat {
    match v {
        json::JsonView::Object(members) => members.len(),
        _ => 0,
    }
}

proof fn lemma_member_pushed(
    members: Seq<(Seq<char>, json::JsonView)>,
    key: Seq<char>,
    value: json::JsonView,
    other: Seq<char>,
)
    ensures
        json::member(members.push((key, value)), other) == (match json::member(members, other) {
            Some(v) => Some(v),
            None => if key == other {
                Some(value)
            } else {
                None
            },
        }),
    decreases members.len(),
{
    let all = members.push((key, value));
    if members.len() == 0 {
        assert(all.skip(1) =~= Seq::empty());
        assert(json::member(all.skip(1), other) is None);
    } else {
        assert(all.skip(1) =~= members.skip(1).push((key, value)));
        lemma_member_pushed(members.skip(1), key, value, other);
    }
}

/// An object with one more member has what it had, and the new value under the new key if it had
/// nothing there.
pub broadcast proof fn law_object_with_member(
    o: json::JsonView,
    key: Seq<char>,
    value: json::JsonView,
    other: Seq<char>,
)
    requires
        o is Object,
    ensures
        o.with(key, value) is Object,
        members_in(o.with(key, value)) == members_in(o) + 1,
        (#[trigger] o.with(key, value).get(other)) == (match o.get(other) {
            Some(v) => Some(v),
            None => if key == other {
                Some(value)
            } else {
                None
            },
        }),
{
    lemma_member_pushed(o->Object_0, key, value, other);
}

/// The members of an object are found by their keys, the first of a key before later ones. What is
/// no object has none.
pub proof fn law_members_are_found(
    members: Seq<(Seq<char>, json::JsonView)>,
    key: Seq<char>,
)
    ensures
        match json::JsonView::Object(members).get(key) {
            Some(v) => exists|i: int|
                0 <= i < members.len() && #[trigger] members[i] == (key, v) && (forall|j: int|
                    0 <= j < i ==> (#[trigger] members[j]).0 != key),
            None => forall|i: int| 0 <= i < members.len() ==> (#[trigger] members[i]).0 != key,
        },
    decreases members.len(),
{
    if members.len() > 0 {
        let rest = members.skip(1);
        law_members_are_found(rest, key);
        if members[0].0 == key {
            assert(members[0] == (key, members[0].1));
        } else {
            match json::JsonView::Object(rest).get(key) {
                Some(v) => {
                    let i = choose|i: int|
                        0 <= i < rest.len() && #[trigger] rest[i] == (key, v) && (forall|j: int|
                            0 <= j < i ==> (#[trigger] rest[j]).0 != key);
                    assert(members[i + 1] == rest[i]);
                    assert forall|j: int| 0 <= j < i + 1 implies (#[trigger] members[j]).0
                        != key by {
                        if j > 0 {
                            assert(rest[j - 1] == members[j]);
                        }
                    }
                },
                None => {
                    assert forall|i: int| 0 <= i < members.len() implies (#[trigger] members[i]).0
                        != key by {
                        if i > 0 {
                            assert(rest[i - 1] == members[i]);
                        }
                    }
                },
            }
        }
    }
}

/// What is no object has no members; each kind of value is read as what it is, and as nothing
/// else.
pub proof fn law_values_are_read_as_what_they_are(
    v: json::JsonView,
    key: Seq<char>,
    other: json::JsonView,
)
    ensures
        !(v is Object) ==> v.get(key) is None,
        v.as_text() == (match v {
            json::JsonView::Text(s) => Some(s),
            _ => None,
        }),
        v.as_number() == (match v {
            json::JsonView::Number(n) => Some(n),
            _ => None,
        }),
        v.as_bool() == (match v {
            json::JsonView::Bool(b) => Some(b),
            _ => None,
        }),
        v.items_or_none() == (match v {
            json::JsonView::Array(items) => items,
            _ => Seq::empty(),
        }),
        v.text_at(key) matches Some(s) ==> v.get(key) == Some(json::JsonView::Text(s)),
        v.get(key) matches Some(json::JsonView::Text(s)) ==> v.text_at(key) == Some(s),
        v.number_at(key) matches Some(n) ==> v.get(key) == Some(json::JsonView::Number(n)),
        v.get(key) matches Some(json::JsonView::Number(n)) ==> v.number_at(key) == Some(n),
        v.flag_at(key) <==> v.get(key) == Some(json::JsonView::Bool(true)),
        !(v is Object) ==> v.with(key, other) == v,
        json::JsonView::object() == json::JsonView::Object(Seq::empty()),
{
}

// ---------------------------------------------------------------------------
// Records
// ---------------------------------------------------------------------------

/// The number that a JSON value is, whatever its sign.
pub open spec fn integer(v: Option<json::JsonView>) -> Option<int> {
    match v {
        Some(json::JsonView::Number(n)) => Some(n as int),
        Some(json::JsonView::Negative(n)) => Some(n as int),
        _ => None,
    }
}

/// Whether `v` tells a symbol, and nothing else: its name, its signature and its line, each under
/// its key.
pub open spec fn tells_symbol(v: json::JsonView, s: symbols::SymbolView) -> bool {
    &&& members_in(v) == 3
    &&& v.text_at("name"@) == Some(s.name)
    &&& v.text_at("signature"@) == Some(s.signature)
    &&& v.number_at("line"@) == Some(s.line as u64)
}

/// Whether `v` is an array that tells `all`, in their order.
pub open spec fn tells_symbols(v: Option<json::JsonView>, all: Seq<symbols::SymbolView>) -> bool {
    v matches Some(json::JsonView::Array(items)) && items.len() == all.len() && forall|i: int|
        0 <= i < all.len() ==> tells_symbol(#[trigger] items[i], all[i])
}

/// Whether `v` tells a file: its path, its classes and its methods, each under its key.
pub open spec fn tells_file(v: json::JsonView, f: symbols::FileView) -> bool {
    &&& members_in(v) == 3
    &&& v.text_at("path"@) == Some(f.path)
    &&& tells_symbols(v.get("classes"@), f.classes)
    &&& tells_symbols(v.get("methods"@), f.methods)
}

/// Whether `v` tells a repository: its root, its language and its files in their order.
pub open spec fn tells_repo(v: json::JsonView, map: symbols::RepoView) -> bool {
    &&& members_in(v) == 3
    &&& v.text_at("root"@) == Some(map.root)
    &&& v.text_at("language"@) == Some(map.language)
    &&& v.get("files"@) matches Some(json::JsonView::Array(items)) && items.len()
        == map.files.len() && forall|i: int|
        0 <= i < map.files.len() ==> tells_file(#[trigger] items[i], map.files[i])
}

/// Whether `v` tells a location: its symbol, file, line, signature and kind, each under its key.
pub open spec fn tells_location(v: json::JsonView, loc: symbols::LocationView) -> bool {
    &&& members_in(v) == 5
    &&& v.text_at("symbol"@) == Some(loc.symbol)
    &&& v.text_at("file"@) == Some(loc.file)
    &&& v.number_at("line"@) == Some(loc.line as u64)
    &&& v.text_at("signature"@) == Some(loc.signature)
    &&& v.text_at("kind"@) == Some(loc.kind)
}

/// Whether `v` tells a match: its symbol, file, line, signature, kind, score and kind of match,
/// each under its key.
pub open spec fn tells_match(v: json::JsonView, m: symbols::MatchView) -> bool {
    &&& members_in(v) == 7
    &&& v.text_at("symbol"@) == Some(m.symbol)
    &&& v.text_at("file"@) == Some(m.file)
    &&& v.number_at("line"@) == Some(m.line as u64)
    &&& v.text_at("signature"@) == Some(m.signature)
    &&& v.text_at("kind"@) == Some(m.kind)
    &&& integer(v.get("score"@)) == Some(m.score as int)
    &&& v.text_at("match_type"@) == Some(m.match_type)
}

/// Whether `v` tells a call: its caller, callee, file and line, each under its key.
pub open spec fn tells_call(v: json::JsonView, e: graph::EdgeView) -> bool {
    &&& members_in(v) == 4
    &&& v.text_at("caller"@) == Some(e.caller)
    &&& v.text_at("callee"@) == Some(e.callee)
    &&& v.text_at("file"@) == Some(e.file)
    &&& v.number_at("line"@) == Some(e.line as u64)
}

/// Whether `v` tells the calls of a symbol: the symbol, the depth, the provider, the calls in
/// their order, and whether they are truncated.
pub open spec fn tells_calls(v: json::JsonView, c: graph::CallsView) -> bool {
    &&& members_in(v) == 5
    &&& v.text_at("symbol"@) == Some(c.symbol)
    &&& v.number_at("depth"@) == Some(c.depth as u64)
    &&& v.text_at("provider"@) == Some(c.provider)
    &&& v.flag_at("truncated"@) == c.truncated
    &&& v.get("truncated"@) is Some
    &&& v.get("calls"@) matches Some(json::JsonView::Array(items)) && items.len()
        == c.calls.len() && forall|i: int|
        0 <= i < c.calls.len() ==> tells_call(#[trigger] items[i], c.calls[i])
}

/// Whether `v` tells a method of the protocol.
pub open spec fn tells_method(v: json::JsonView, m: catalog::MethodView) -> bool {
    &&& members_in(v) == 6
    &&& v.text_at("action"@) == Some(m.action)
    &&& v.text_at("category"@) == Some(m.category)
    &&& v.get("requires_warmup"@) == Some(json::JsonView::Bool(m.requires_warmup))
    &&& v.get("requires_project_activation"@) == Some(
        json::JsonView::Bool(m.requires_project_activation),
    )
    &&& v.get("available"@) == Some(json::JsonView::Bool(m.available))
    &&& v.text_at("description"@) == Some(m.description)
}

proof fn lemma_symbol_is_told(s: symbols::SymbolView)
    ensures
        tells_symbol(s.json(), s),
{
    broadcast use law_object_with_member;

    words::lemma_keys();
}

/// A file is told whole by its JSON object: its path, and each of its classes and methods with its
/// name, signature and line, in their order.
pub proof fn law_file_is_told_whole(f: symbols::FileView)
    ensures
        tells_file(f.json(), f),
{
    broadcast use law_object_with_member;

    words::lemma_keys();
    assert forall|i: int| 0 <= i < f.classes.len() implies tells_symbol(
        (#[trigger] f.classes[i]).json(),
        f.classes[i],
    ) by {
        lemma_symbol_is_told(f.classes[i]);
    }
    assert forall|i: int| 0 <= i < f.methods.len() implies tells_symbol(
        (#[trigger] f.methods[i]).json(),
        f.methods[i],
    ) by {
        lemma_symbol_is_told(f.methods[i]);
    }
}

/// A repository map is told whole by its JSON object: the root, the language, and each file in the
/// order of the map.
pub proof fn law_repo_map_is_told_whole(map: symbols::RepoView)
    ensures
        tells_repo(map.json(), map),
{
    broadcast use law_object_with_member;

    words::lemma_keys();
    assert forall|i: int| 0 <= i < map.files.len() implies tells_file(
        (#[trigger] map.files[i]).json(),
        map.files[i],
    ) by {
        law_file_is_told_whole(map.files[i]);
    }
}

/// A location is told whole by its JSON object.
pub proof fn law_location_is_told_whole(loc: symbols::LocationView)
    ensures
        tells_location(loc.json(), loc),
{
    broadcast use law_object_with_member;

    words::lemma_keys();
}

/// A match is told whole by its JSON object.
pub proof fn law_match_is_told_whole(m: symbols::MatchView)
    ensures
        tells_match(m.json(), m),
{
    broadcast use law_object_with_member;

    words::lemma_keys();
}

/// The calls of a symbol are told whole by their JSON object, each with its caller, callee, file
/// and line, in their order.
pub proof fn law_calls_are_told_whole(c: graph::CallsView)
    ensures
        tells_calls(c.json(), c),
{
    broadcast use law_object_with_member;

    words::lemma_keys();
    assert forall|i: int| 0 <= i < c.calls.len() implies tells_call(
        (#[trigger] c.calls[i]).json(),
        c.calls[i],
    ) by {
        lemma_call_is_told(c.calls[i]);
    }
}

proof fn lemma_call_is_told(e: graph::EdgeView)
    ensures
        tells_call(e.json(), e),
{
    broadcast use law_object_with_member;

    words::lemma_keys();
}

/// A method of the protocol is told whole by its JSON object.
pub proof fn law_method_is_told_whole(m: catalog::MethodView)
    ensures
        tells_method(m.json(), m),
{
    broadcast use law_object_with_member;

    words::lemma_keys();
}

} // verus!
