//! Requests and responses of the local protocol.

use crate::json;
use crate::json::Json;
use crate::paths;
use crate::rank;
use crate::text;
use vstd::prelude::*;

verus! {

broadcast use vstd::string::group_string_axioms;

/// A request.
#[derive(Debug)]
pub struct RequestEnvelope {
    pub version: String,
    pub request_id: String,
    pub trace_id: String,
    pub session_id: Option<String>,
    pub source: String,
    pub target: String,
    pub action: String,
    pub payload: Json,
    pub meta: Option<Json>,
}

/// What a response says of an error.
#[derive(Debug)]
pub struct ErrorBody {
    pub code: String,
    pub message: String,
    pub retryable: bool,
    pub node: String,
    pub details: Json,
}

/// A response.
#[derive(Debug)]
pub struct ResponseEnvelope {
    pub version: String,
    pub request_id: String,
    pub trace_id: String,
    pub status: String,
    pub data: Option<Json>,
    pub error: Option<ErrorBody>,
    pub fallback_used: bool,
    pub cost: Json,
}

/// What of a request decides its response.
pub struct RequestView {
    pub version: Seq<char>,
    pub request_id: Seq<char>,
    pub trace_id: Seq<char>,
    pub session_id: Option<Seq<char>>,
    pub action: Seq<char>,
    pub payload: json::JsonView,
}

/// What a response says of an error.
pub struct ErrorView {
    pub code: Seq<char>,
    pub message: Seq<char>,
    pub retryable: bool,
    pub node: Seq<char>,
    pub details: json::JsonView,
}

/// A response.
pub struct ResponseView {
    pub version: Seq<char>,
    pub request_id: Seq<char>,
    pub trace_id: Seq<char>,
    pub status: Seq<char>,
    pub data: Option<json::JsonView>,
    pub error: Option<ErrorView>,
    pub fallback_used: bool,
    pub cost: json::JsonView,
}

impl View for RequestEnvelope {
    type V = RequestView;

    open spec fn view(&self) -> RequestView {
        RequestView {
            version: self.version@,
            request_id: self.request_id@,
            trace_id: self.trace_id@,
            session_id: paths::text_option(self.session_id),
            action: self.action@,
            payload: self.payload@,
        }
    }
}

impl View for ErrorBody {
    type V = ErrorView;

    open spec fn view(&self) -> ErrorView {
        ErrorView {
            code: self.code@,
            message: self.message@,
            retryable: self.retryable,
            node: self.node@,
            details: self.details@,
        }
    }
}

impl View for ResponseEnvelope {
    type V = ResponseView;

    open spec fn view(&self) -> ResponseView {
        ResponseView {
            version: self.version@,
            request_id: self.request_id@,
            trace_id: self.trace_id@,
            status: self.status@,
            data: match self.data {
                Some(d) => Some(d@),
                None => None,
            },
            error: match self.error {
                Some(e) => Some(e@),
                None => None,
            },
            fallback_used: self.fallback_used,
            cost: self.cost@,
        }
    }
}

// ---------------------------------------------------------------------------
// What responses say
// ---------------------------------------------------------------------------

/// What a response cost.
pub open spec fn cost(duration_ms: u64) -> json::JsonView {
    json::JsonView::object().with("duration_ms"@, json::JsonView::Number(duration_ms))
}

/// The response that carries `data`.
pub open spec fn ok_with(req: RequestView, data: json::JsonView) -> ResponseView {
    ResponseView {
        version: "v0"@,
        request_id: req.request_id,
        trace_id: req.trace_id,
        status: "ok"@,
        data: Some(data),
        error: None,
        fallback_used: false,
        cost: cost(1),
    }
}

/// The response that reports `error`.
pub open spec fn failed_with(req: RequestView, error: ErrorView) -> ResponseView {
    ResponseView {
        version: "v0"@,
        request_id: req.request_id,
        trace_id: req.trace_id,
        status: "error"@,
        data: None,
        error: Some(error),
        fallback_used: false,
        cost: cost(0),
    }
}

/// The error of a request that cannot be understood.
pub open spec fn bad_request(message: Seq<char>) -> ErrorView {
    ErrorView {
        code: "COMMON_BAD_REQUEST"@,
        message,
        retryable: false,
        node: "Adapter"@,
        details: json::JsonView::object(),
    }
}

/// The error of a request that failed inside.
pub open spec fn internal_error(message: Seq<char>) -> ErrorView {
    ErrorView {
        code: "COMMON_INTERNAL"@,
        message,
        retryable: true,
        node: "Adapter"@,
        details: json::JsonView::object(),
    }
}

/// A request for `action` on a project.
pub open spec fn example_of(action: Seq<char>) -> json::JsonView {
    json::JsonView::object().with("action"@, json::JsonView::Text(action)).with(
        "payload"@,
        json::JsonView::object().with("project_root"@, json::JsonView::Text("<project-root>"@)),
    )
}

/// The error of a request for `action` that came before `next_action`.
pub open spec fn precondition(
    message: Seq<char>,
    action: Seq<char>,
    next_action: Seq<char>,
) -> ErrorView {
    ErrorView {
        code: "COMMON_PRECONDITION_REQUIRED"@,
        message,
        retryable: false,
        node: "Adapter"@,
        details: json::JsonView::object().with("action"@, json::JsonView::Text(action)).with(
            "next_action"@,
            json::JsonView::Text(next_action),
        ).with("example"@, example_of(next_action)),
    }
}

/// The error of a request for `action` that came before the warmup.
pub open spec fn warmup_required(action: Seq<char>) -> ErrorView {
    precondition("method requires warmup before use"@, action, "system.warmup"@)
}

/// The error of a request for `action` that came without a project.
pub open spec fn project_required(action: Seq<char>) -> ErrorView {
    precondition("method requires active project context"@, action, "project.activate"@)
}

/// The error of a request for `action` that does not name its project.
pub open spec fn root_required(message: Seq<char>, action: Seq<char>) -> ErrorView {
    ErrorView {
        code: "COMMON_BAD_REQUEST"@,
        message,
        retryable: false,
        node: "Adapter"@,
        details: json::JsonView::object().with(
            "required"@,
            json::JsonView::Array(seq![json::JsonView::Text("project_root|path"@)]),
        ).with("example"@, example_of(action)),
    }
}

/// The response to a line that is no request.
pub open spec fn not_a_request(reason: Seq<char>) -> ResponseView {
    ResponseView {
        version: "v0"@,
        request_id: "unknown"@,
        trace_id: "unknown"@,
        status: "error"@,
        data: None,
        error: Some(bad_request("invalid json request: "@ + reason)),
        fallback_used: false,
        cost: cost(0),
    }
}

fn cost_json(duration_ms: u64) -> (r: Json)
    ensures
        r@ == cost(duration_ms),
{
    Json::object().with("duration_ms", Json::Number(duration_ms))
}

/// The response that carries `data`.
pub fn ok_response(req: RequestEnvelope, data: Json) -> (r: ResponseEnvelope)
    ensures
        r@ == ok_with(req@, data@),
{
    ResponseEnvelope {
        version: "v0".to_string(),
        request_id: req.request_id,
        trace_id: req.trace_id,
        status: "ok".to_string(),
        data: Some(data),
        error: None,
        fallback_used: false,
        cost: cost_json(1),
    }
}

/// The response that reports an error.
pub fn error_response(
    req: RequestEnvelope,
    code: &str,
    message: &str,
    retryable: bool,
    node: &str,
    details: Json,
) -> (r: ResponseEnvelope)
    ensures
        r@ == failed_with(
            req@,
            (ErrorView {
                code: code@,
                message: message@,
                retryable,
                node: node@,
                details: details@,
            }),
        ),
{
    ResponseEnvelope {
        version: "v0".to_string(),
        request_id: req.request_id,
        trace_id: req.trace_id,
        status: "error".to_string(),
        data: None,
        error: Some(
            ErrorBody {
                code: code.to_string(),
                message: message.to_string(),
                retryable,
                node: node.to_string(),
                details,
            },
        ),
        fallback_used: false,
        cost: cost_json(0),
    }
}

/// The response to a request that cannot be understood.
pub fn bad_request_response(req: RequestEnvelope, message: &str) -> (r: ResponseEnvelope)
    ensures
        r@ == failed_with(req@, bad_request(message@)),
{
    error_response(req, "COMMON_BAD_REQUEST", message, false, "Adapter", Json::object())
}

/// The response to a request that failed inside: `action`, and why.
pub fn internal_error_response(req: RequestEnvelope, action: &str, reason: &str) -> (r:
    ResponseEnvelope)
    ensures
        r@ == failed_with(req@, internal_error(action@ + " failed: "@ + reason@)),
{
    let mut message = action.to_string();
    message.append(" failed: ");
    message.append(reason);
    error_response(req, "COMMON_INTERNAL", message.as_str(), true, "Adapter", Json::object())
}

fn example_json(action: &str) -> (r: Json)
    ensures
        r@ == example_of(action@),
{
    Json::object().with("action", Json::text(action)).with(
        "payload",
        Json::object().with("project_root", Json::text("<project-root>")),
    )
}

fn precondition_response(
    req: RequestEnvelope,
    message: &str,
    action: &str,
    next_action: &str,
) -> (r: ResponseEnvelope)
    ensures
        r@ == failed_with(req@, precondition(message@, action@, next_action@)),
{
    let details = Json::object().with("action", Json::text(action)).with(
        "next_action",
        Json::text(next_action),
    ).with("example", example_json(next_action));
    error_response(req, "COMMON_PRECONDITION_REQUIRED", message, false, "Adapter", details)
}

/// The response to a request that came before the warmup.
pub fn precondition_required_response(req: RequestEnvelope, action: &str) -> (r: ResponseEnvelope)
    ensures
        r@ == failed_with(req@, warmup_required(action@)),
{
    precondition_response(req, "method requires warmup before use", action, "system.warmup")
}

/// The response to a request that came without a project.
pub fn project_activation_required_response(req: RequestEnvelope, action: &str) -> (r:
    ResponseEnvelope)
    ensures
        r@ == failed_with(req@, project_required(action@)),
{
    precondition_response(
        req,
        "method requires active project context",
        action,
        "project.activate",
    )
}

/// The response to a request that does not name its project.
pub fn root_required_response(req: RequestEnvelope, message: &str, action: &str) -> (r:
    ResponseEnvelope)
    ensures
        r@ == failed_with(req@, root_required(message@, action@)),
{
    let mut required: Vec<Json> = Vec::new();
    required.push(Json::text("project_root|path"));
    assert(rank::views(required@) =~= seq![json::JsonView::Text("project_root|path"@)]);
    let details = Json::object().with("required", Json::array(required)).with(
        "example",
        example_json(action),
    );
    error_response(req, "COMMON_BAD_REQUEST", message, false, "Adapter", details)
}

/// The response to a line that is no request.
pub fn invalid_request_response(reason: &str) -> (r: ResponseEnvelope)
    ensures
        r@ == not_a_request(reason@),
{
    let mut message = "invalid json request: ".to_string();
    message.append(reason);
    ResponseEnvelope {
        version: "v0".to_string(),
        request_id: "unknown".to_string(),
        trace_id: "unknown".to_string(),
        status: "error".to_string(),
        data: None,
        error: Some(
            ErrorBody {
                code: "COMMON_BAD_REQUEST".to_string(),
                message,
                retryable: false,
                node: "Adapter".to_string(),
                details: Json::object(),
            },
        ),
        fallback_used: false,
        cost: cost_json(0),
    }
}

// ---------------------------------------------------------------------------
// What requests ask
// ---------------------------------------------------------------------------

/// The root that a payload names, as `path` or else as `project_root`.
pub open spec fn root_in(payload: json::JsonView) -> Option<Seq<char>> {
    match payload.text_at("path"@) {
        Some(s) => Some(s),
        None => payload.text_at("project_root"@),
    }
}

/// The root that a payload names.
pub fn extract_root_path(payload: &Json) -> (r: Option<String>)
    ensures
        paths::text_option(r) == root_in(payload@),
{
    match payload.text_at("path") {
        Some(s) => Some(s.to_string()),
        None => match payload.text_at("project_root") {
            Some(s) => Some(s.to_string()),
            None => None,
        },
    }
}

/// The limit that a payload asks for, from one up to `max`; `default` where it asks for none.
pub open spec fn limit_in(payload: json::JsonView, default: usize, max: usize) -> usize {
    match payload.number_at("limit"@) {
        Some(n) => if 1 <= n <= usize::MAX {
            if n < max {
                n as usize
            } else {
                max
            }
        } else {
            default
        },
        None => default,
    }
}

/// The limit that a payload asks for.
pub fn parse_limit(payload: &Json, default_limit: usize, max_limit: usize) -> (r: usize)
    ensures
        r == limit_in(payload@, default_limit, max_limit),
{
    match payload.number_at("limit") {
        Some(n) => if 1 <= n && n <= usize::MAX as u64 {
            if n < max_limit as u64 {
                n as usize
            } else {
                max_limit
            }
        } else {
            default_limit
        },
        None => default_limit,
    }
}

/// The depth that a payload asks for, or one.
pub open spec fn depth_in(payload: json::JsonView) -> usize {
    match payload.number_at("depth"@) {
        Some(n) => if n <= usize::MAX {
            n as usize
        } else {
            1
        },
        None => 1,
    }
}

/// The depth that a payload asks for, or one.
pub fn parse_depth(payload: &Json) -> (r: usize)
    ensures
        r == depth_in(payload@),
{
    match payload.number_at("depth") {
        Some(n) => if n <= usize::MAX as u64 {
            n as usize
        } else {
            1
        },
        None => 1,
    }
}

/// The language that a payload names, lowered and without white space around it, if anything is
/// left of it.
pub open spec fn language_in(payload: json::JsonView) -> Option<Seq<char>> {
    match payload.text_at("language"@) {
        Some(s) => {
            let normalized = text::ascii_lowered(text::trimmed(s));
            if normalized.len() == 0 {
                None
            } else {
                Some(normalized)
            }
        },
        None => None,
    }
}

/// The language that a payload names.
pub fn explicit_language(payload: &Json) -> (r: Option<String>)
    ensures
        paths::text_option(r) == language_in(payload@),
{
    match payload.text_at("language") {
        Some(s) => {
            let normalized = text::to_ascii_lowercase(text::trim(s));
            if normalized.as_str().is_empty() {
                None
            } else {
                Some(normalized)
            }
        },
        None => None,
    }
}

/// The language of a graph query: the one that the payload names, or else the one that the
/// workspace shows.
pub open spec fn graph_language(payload: json::JsonView, has_ts_files: bool) -> Seq<char> {
    match language_in(payload) {
        Some(language) => language,
        None => if has_ts_files {
            "typescript"@
        } else {
            "java"@
        },
    }
}

/// The language of a graph query.
pub fn detect_graph_language(payload: &Json, has_ts_files: bool) -> (r: String)
    ensures
        r@ == graph_language(payload@, has_ts_files),
{
    match explicit_language(payload) {
        Some(language) => language,
        None => if has_ts_files {
            "typescript".to_string()
        } else {
            "java".to_string()
        },
    }
}

/// What a request's project is kept under: its session, or else its trace.
pub open spec fn context_key(req: RequestView) -> Seq<char> {
    match req.session_id {
        Some(s) => if text::trimmed(s).len() == 0 {
            req.trace_id
        } else {
            text::trimmed(s)
        },
        None => req.trace_id,
    }
}

/// What a request's project is kept under.
pub fn context_key_for_request(req: &RequestEnvelope) -> (r: String)
    ensures
        r@ == context_key(req@),
{
    match &req.session_id {
        Some(s) => {
            let trimmed = text::trim(s.as_str());
            if trimmed.is_empty() {
                req.trace_id.clone()
            } else {
                trimmed.to_string()
            }
        },
        None => req.trace_id.clone(),
    }
}

} // verus!
