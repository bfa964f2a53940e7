//! Connections: the lines of the local protocol, and plain HTTP for inspection.

use crate::catalog;
use crate::json;
use crate::json::Json;
use crate::lookup;
use crate::rank;
use crate::text;
use vstd::prelude::*;

verus! {

broadcast use vstd::string::group_string_axioms;

// ---------------------------------------------------------------------------
// Inspection
// ---------------------------------------------------------------------------

/// The body at `/health`.
pub open spec fn health_body(warmed_up: bool) -> json::JsonView {
    json::JsonView::object().with("status"@, json::JsonView::Text("ok"@)).with(
        "service"@,
        json::JsonView::Text("lesscoder-alsp-adapter"@),
    ).with("protocol_version"@, json::JsonView::Text("v0"@)).with(
        "warmed_up"@,
        json::JsonView::Bool(warmed_up),
    )
}

/// The body at `/methods`.
pub open spec fn methods_body(
    warmed_up: bool,
    active_project: Option<Seq<char>>,
) -> json::JsonView {
    json::JsonView::object().with("status"@, json::JsonView::Text("ok"@)).with(
        "methods"@,
        catalog::methods_as_json(),
    ).with("summary"@, catalog::summary()).with(
        "warmed_up"@,
        json::JsonView::Bool(warmed_up),
    ).with("active_project"@, json::text_or_null(active_project))
}

/// The body anywhere else.
pub open spec fn not_found_body() -> json::JsonView {
    json::JsonView::object().with("status"@, json::JsonView::Text("error"@)).with(
        "error_code"@,
        json::JsonView::Text("HTTP_NOT_FOUND"@),
    ).with("message"@, json::JsonView::Text("endpoint not found"@)).with(
        "available"@,
        json::JsonView::Array(
            seq![json::JsonView::Text("/health"@), json::JsonView::Text("/methods"@)],
        ),
    )
}

/// The status and the body at `path`, whatever follows a question mark in it.
pub open spec fn http_answer(
    warmed_up: bool,
    active_project: Option<Seq<char>>,
    path: Seq<char>,
) -> (u16, json::JsonView) {
    let place = text::before(path, '?');
    if place == "/health"@ {
        (200, health_body(warmed_up))
    } else if place == "/methods"@ {
        (200, methods_body(warmed_up, active_project))
    } else {
        (404, not_found_body())
    }
}

/// The status and the body at `path`.
pub fn http_response_body(warmed_up: bool, active_project: Option<&str>, path: &str) -> (r: (
    u16,
    Json,
))
    ensures
        (r.0, r.1@) == http_answer(
            warmed_up,
            match active_project {
                Some(s) => Some(s@),
                None => None,
            },
            path@,
        ),
{
    let place = text::split_before(path, '?');
    if text::same_text(place, "/health") {
        let body = Json::object().with("status", Json::text("ok")).with(
            "service",
            Json::text("lesscoder-alsp-adapter"),
        ).with("protocol_version", Json::text("v0")).with("warmed_up", Json::Bool(warmed_up));
        (200, body)
    } else if text::same_text(place, "/methods") {
        let (listed, counts) = catalog::catalog_json();
        let body = Json::object().with("status", Json::text("ok")).with("methods", listed).with(
            "summary",
            counts,
        ).with("warmed_up", Json::Bool(warmed_up)).with(
            "active_project",
            Json::text_or_null(active_project),
        );
        (200, body)
    } else {
        let mut available: Vec<Json> = Vec::new();
        available.push(Json::text("/health"));
        available.push(Json::text("/methods"));
        assert(rank::views(available@) =~= seq![
            json::JsonView::Text("/health"@),
            json::JsonView::Text("/methods"@),
        ]);
        let body = Json::object().with("status", Json::text("error")).with(
            "error_code",
            Json::text("HTTP_NOT_FOUND"),
        ).with("message", Json::text("endpoint not found")).with(
            "available",
            Json::array(available),
        );
        (404, body)
    }
}

/// The reason phrase of a status.
pub open spec fn reason_of(status: u16) -> Seq<char> {
    if status == 200 {
        "OK"@
    } else {
        "Not Found"@
    }
}

/// An HTTP response with a JSON body, after which the connection closes.
pub open spec fn http_message(status: u16, body: Seq<char>) -> Seq<char> {
    "HTTP/1.1 "@ + text::decimal(status as nat) + " "@ + reason_of(status)
        + "\r\nContent-Type: application/json; charset=utf-8\r\nContent-Length: "@ + text::decimal(
        lookup::byte_len(body) as nat,
    ) + "\r\nConnection: close\r\n\r\n"@ + body
}

/// An HTTP response with a JSON body, after which the connection closes.
pub fn http_response_text(status: u16, body: &str) -> (r: String)
    ensures
        r@ == http_message(status, body@),
{
    let mut out = "HTTP/1.1 ".to_string();
    let code = text::to_decimal(status as u64);
    out.append(code.as_str());
    out.append(" ");
    if status == 200 {
        out.append("OK");
    } else {
        out.append("Not Found");
    }
    out.append("\r\nContent-Type: application/json; charset=utf-8\r\nContent-Length: ");
    let length = text::to_decimal(body.len() as u64);
    out.append(length.as_str());
    out.append("\r\nConnection: close\r\n\r\n");
    out.append(body);
    out
}

// ---------------------------------------------------------------------------
// Lines
// ---------------------------------------------------------------------------

/// Where a connection stands.
#[derive(Debug)]
pub enum ConnectionState {
    /// Before a request.
    Ready,
    /// Within the headers of an HTTP request for a path.
    Headers(String),
    /// At its end: an HTTP request was answered, or the stream ended.
    Closed,
}

/// Where a connection stands.
pub enum ConnectionStateView {
    Ready,
    Headers(Seq<char>),
    Closed,
}

impl View for ConnectionState {
    type V = ConnectionStateView;

    open spec fn view(&self) -> ConnectionStateView {
        match self {
            ConnectionState::Ready => ConnectionStateView::Ready,
            ConnectionState::Headers(path) => ConnectionStateView::Headers(path@),
            ConnectionState::Closed => ConnectionStateView::Closed,
        }
    }
}

/// What a connection does next.
#[derive(Debug)]
pub enum ConnectionAction {
    /// Read a line.
    Read,
    /// Handle the line as a request of the protocol, then read on.
    Handle,
    /// Answer an HTTP request for a path, then close.
    AnswerHttp(String),
    /// Close.
    Close,
}

/// What a connection does next.
pub enum ConnectionActionView {
    Read,
    Handle,
    AnswerHttp(Seq<char>),
    Close,
}

impl View for ConnectionAction {
    type V = ConnectionActionView;

    open spec fn view(&self) -> ConnectionActionView {
        match self {
            ConnectionAction::Read => ConnectionActionView::Read,
            ConnectionAction::Handle => ConnectionActionView::Handle,
            ConnectionAction::AnswerHttp(path) => ConnectionActionView::AnswerHttp(path@),
            ConnectionAction::Close => ConnectionActionView::Close,
        }
    }
}

/// The path that an HTTP request line asks for.
pub open spec fn requested_path(line: Seq<char>) -> Seq<char> {
    match text::second_word(line) {
        Some(path) => path,
        None => "/"@,
    }
}

/// What a connection does with a line, or with the end of the stream: blank lines are passed
/// over, an HTTP request is answered once its headers end, and other lines are requests of the
/// protocol. After an HTTP answer, and at the end of the stream, the connection stays closed.
pub open spec fn connection_step(
    state: ConnectionStateView,
    line: Option<Seq<char>>,
) -> (ConnectionStateView, ConnectionActionView) {
    match state {
        ConnectionStateView::Ready => match line {
            None => (ConnectionStateView::Closed, ConnectionActionView::Close),
            Some(line) => if text::trimmed(line).len() == 0 {
                (state, ConnectionActionView::Read)
            } else if "GET "@.is_prefix_of(line) {
                (ConnectionStateView::Headers(requested_path(line)), ConnectionActionView::Read)
            } else {
                (state, ConnectionActionView::Handle)
            },
        },
        ConnectionStateView::Headers(path) => match line {
            Some(line) => if text::trimmed(line).len() == 0 {
                (ConnectionStateView::Closed, ConnectionActionView::AnswerHttp(path))
            } else {
                (state, ConnectionActionView::Read)
            },
            None => (ConnectionStateView::Closed, ConnectionActionView::AnswerHttp(path)),
        },
        ConnectionStateView::Closed => (state, ConnectionActionView::Close),
    }
}

/// What a connection does with a line, or with the end of the stream.
pub fn next_connection_step(state: ConnectionState, line: Option<&str>) -> (r: (
    ConnectionState,
    ConnectionAction,
))
    ensures
        (r.0@, r.1@) == connection_step(
            state@,
            match line {
                Some(l) => Some(l@),
                None => None,
            },
        ),
{
    match state {
        ConnectionState::Ready => match line {
            None => (ConnectionState::Closed, ConnectionAction::Close),
            Some(line) => {
                if text::trim(line).is_empty() {
                    (ConnectionState::Ready, ConnectionAction::Read)
                } else if text::starts_with(line, "GET ") {
                    let path = match text::nth_word_1(line) {
                        Some(p) => p.to_string(),
                        None => "/".to_string(),
                    };
                    (ConnectionState::Headers(path), ConnectionAction::Read)
                } else {
                    (ConnectionState::Ready, ConnectionAction::Handle)
                }
            },
        },
        ConnectionState::Headers(path) => match line {
            Some(line) => {
                if text::trim(line).is_empty() {
                    (ConnectionState::Closed, ConnectionAction::AnswerHttp(path))
                } else {
                    (ConnectionState::Headers(path), ConnectionAction::Read)
                }
            },
            None => (ConnectionState::Closed, ConnectionAction::AnswerHttp(path)),
        },
        ConnectionState::Closed => (ConnectionState::Closed, ConnectionAction::Close),
    }
}

} // verus!
