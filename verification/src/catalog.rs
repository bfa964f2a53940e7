//! The methods of the protocol, and the health report that lists them.

use crate::json;
use crate::json::Json;
use crate::rank;
use vstd::prelude::*;

verus! {

broadcast use vstd::string::group_string_axioms;

/// A method of the protocol.
#[derive(Debug)]
pub struct MethodInfo {
    pub action: String,
    pub category: String,
    pub requires_warmup: bool,
    pub requires_project_activation: bool,
    pub available: bool,
    pub description: String,
}

/// A method of the protocol.
pub struct MethodView {
    pub action: Seq<char>,
    pub category: Seq<char>,
    pub requires_warmup: bool,
    pub requires_project_activation: bool,
    pub available: bool,
    pub description: Seq<char>,
}

impl View for MethodInfo {
    type V = MethodView;

    open spec fn view(&self) -> MethodView {
        MethodView {
            action: self.action@,
            category: self.category@,
            requires_warmup: self.requires_warmup,
            requires_project_activation: self.requires_project_activation,
            available: self.available,
            description: self.description@,
        }
    }
}

/// A method that is available. Methods that need a warmup need a project too.
pub open spec fn method(
    action: Seq<char>,
    category: Seq<char>,
    guarded: bool,
    description: Seq<char>,
) -> MethodView {
    MethodView {
        action,
        category,
        requires_warmup: guarded,
        requires_project_activation: guarded,
        available: true,
        description,
    }
}

/// The methods of the protocol.
pub open spec fn methods() -> Seq<MethodView> {
    seq![
        method("system.health"@, "system"@, false, "service health and capability listing"@),
        method(
            "project.activate"@,
            "system"@,
            false,
            "bind active project root to current session/trace context"@,
        ),
        method("system.warmup"@, "system"@, false, "preheat runtime and semantic index"@),
        method("repo.map"@, "context"@, false, "repository skeleton map"@),
        method("symbol.lookup"@, "context"@, true, "symbol resolution (LSP preferred)"@),
        method("symbol.lookup.static"@, "context"@, true, "symbol resolution from static index"@),
        method("symbol.resolve"@, "context"@, true, "canonical symbol resolve alias"@),
        method(
            "symbol.lookup.fuzzy"@,
            "context"@,
            true,
            "fuzzy symbol lookup (prefix/contains ranking)"@,
        ),
        method("patch.apply"@, "edit"@, false, "apply search/replace patch"@),
        method("graph.calls"@, "graph"@, true, "call graph query"@),
    ]
}

impl MethodView {
    /// The method as a JSON object.
    pub open spec fn json(self) -> json::JsonView {
        json::JsonView::object().with("action"@, json::JsonView::Text(self.action)).with(
            "category"@,
            json::JsonView::Text(self.category),
        ).with("requires_warmup"@, json::JsonView::Bool(self.requires_warmup)).with(
            "requires_project_activation"@,
            json::JsonView::Bool(self.requires_project_activation),
        ).with("available"@, json::JsonView::Bool(self.available)).with(
            "description"@,
            json::JsonView::Text(self.description),
        )
    }
}

/// The methods as a JSON array.
pub open spec fn methods_as_json() -> json::JsonView {
    json::JsonView::Array(methods().map_values(|m: MethodView| m.json()))
}

/// The number of methods that need a warmup.
pub open spec fn warmup_count(all: Seq<MethodView>) -> nat {
    all.filter(|m: MethodView| m.requires_warmup).len()
}

/// The number of methods that need a project.
pub open spec fn activation_count(all: Seq<MethodView>) -> nat {
    all.filter(|m: MethodView| m.requires_project_activation).len()
}

/// The summary of the methods.
pub open spec fn summary() -> json::JsonView {
    json::JsonView::object().with(
        "total_methods"@,
        json::JsonView::Number(methods().len() as u64),
    ).with(
        "requires_warmup_methods"@,
        json::JsonView::Number(warmup_count(methods()) as u64),
    ).with(
        "requires_project_activation_methods"@,
        json::JsonView::Number(activation_count(methods()) as u64),
    )
}

/// The health report.
pub open spec fn health(warmed_up: bool, active_project: Option<Seq<char>>) -> json::JsonView {
    json::JsonView::object().with("status"@, json::JsonView::Text("ok"@)).with(
        "service"@,
        json::JsonView::Text("lesscoder-alsp-adapter"@),
    ).with("protocol_version"@, json::JsonView::Text("v0"@)).with(
        "warmed_up"@,
        json::JsonView::Bool(warmed_up),
    ).with("active_project"@, json::text_or_null(active_project)).with(
        "methods"@,
        methods_as_json(),
    ).with("summary"@, summary())
}

fn info(action: &str, category: &str, guarded: bool, description: &str) -> (r: MethodInfo)
    ensures
        r@ == method(action@, category@, guarded, description@),
{
    MethodInfo {
        action: action.to_string(),
        category: category.to_string(),
        requires_warmup: guarded,
        requires_project_activation: guarded,
        available: true,
        description: description.to_string(),
    }
}

/// The methods of the protocol.
pub fn method_catalog() -> (r: Vec<MethodInfo>)
    ensures
        rank::views(r@) == methods(),
{
    let mut all: Vec<MethodInfo> = Vec::new();
    all.push(info("system.health", "system", false, "service health and capability listing"));
    all.push(
        info(
            "project.activate",
            "system",
            false,
            "bind active project root to current session/trace context",
        ),
    );
    all.push(info("system.warmup", "system", false, "preheat runtime and semantic index"));
    all.push(info("repo.map", "context", false, "repository skeleton map"));
    all.push(info("symbol.lookup", "context", true, "symbol resolution (LSP preferred)"));
    all.push(info("symbol.lookup.static", "context", true, "symbol resolution from static index"));
    all.push(info("symbol.resolve", "context", true, "canonical symbol resolve alias"));
    all.push(
        info(
            "symbol.lookup.fuzzy",
            "context",
            true,
            "fuzzy symbol lookup (prefix/contains ranking)",
        ),
    );
    all.push(info("patch.apply", "edit", false, "apply search/replace patch"));
    all.push(info("graph.calls", "graph", true, "call graph query"));
    assert(rank::views(all@) =~= methods());
    all
}

impl MethodInfo {
    /// The method as a JSON object.
    pub fn to_json(&self) -> (r: Json)
        ensures
            r@ == self@.json(),
    {
        Json::object().with("action", Json::text(self.action.as_str())).with(
            "category",
            Json::text(self.category.as_str()),
        ).with("requires_warmup", Json::Bool(self.requires_warmup)).with(
            "requires_project_activation",
            Json::Bool(self.requires_project_activation),
        ).with("available", Json::Bool(self.available)).with(
            "description",
            Json::text(self.description.as_str()),
        )
    }
}

/// The methods as a JSON array, and their summary.
pub fn catalog_json() -> (r: (Json, Json))
    ensures
        r.0@ == methods_as_json(),
        r.1@ == summary(),
{
    let all = method_catalog();
    let ghost listed = rank::views(all@);
    let ghost warm = |m: MethodView| m.requires_warmup;
    let ghost active = |m: MethodView| m.requires_project_activation;
    let mut items: Vec<Json> = Vec::new();
    let mut warmup: usize = 0;
    let mut activation: usize = 0;
    let mut i: usize = 0;
    proof {
        reveal(Seq::filter);
        assert(listed.take(0).filter(warm) =~= Seq::empty());
        assert(listed.take(0).filter(active) =~= Seq::empty());
    }
    while i < all.len()
        invariant
            i <= all@.len(),
            listed == rank::views(all@),
            warm == (|m: MethodView| m.requires_warmup),
            active == (|m: MethodView| m.requires_project_activation),
            items@.len() == i,
            forall|j: int| 0 <= j < i ==> (#[trigger] items@[j])@ == listed[j].json(),
            warmup == listed.take(i as int).filter(warm).len(),
            activation == listed.take(i as int).filter(active).len(),
            warmup <= i,
            activation <= i,
        decreases all@.len() - i,
    {
        let m = &all[i];
        proof {
            assert(listed[i as int] == m@);
            assert(listed.take(i + 1) =~= listed.take(i as int).push(m@));
            rank::lemma_filter_push(listed.take(i as int), m@, warm);
            rank::lemma_filter_push(listed.take(i as int), m@, active);
        }
        items.push(m.to_json());
        if m.requires_warmup {
            warmup += 1;
        }
        if m.requires_project_activation {
            activation += 1;
        }
        i += 1;
    }
    assert(listed.take(i as int) =~= listed);
    assert(rank::views(items@) =~= listed.map_values(|m: MethodView| m.json()));
    let counts = Json::object().with("total_methods", Json::Number(all.len() as u64)).with(
        "requires_warmup_methods",
        Json::Number(warmup as u64),
    ).with("requires_project_activation_methods", Json::Number(activation as u64));
    (Json::array(items), counts)
}

/// The health report.
pub fn system_health_payload(warmed_up: bool, active_project: Option<&str>) -> (r: Json)
    ensures
        r@ == health(
            warmed_up,
            match active_project {
                Some(s) => Some(s@),
                None => None,
            },
        ),
{
    let (listed, counts) = catalog_json();
    Json::object().with("status", Json::text("ok")).with(
        "service",
        Json::text("lesscoder-alsp-adapter"),
    ).with("protocol_version", Json::text("v0")).with("warmed_up", Json::Bool(warmed_up)).with(
        "active_project",
        Json::text_or_null(active_project),
    ).with("methods", listed).with("summary", counts)
}

} // verus!
