//! The language server protocol: framing, messages, and what replies say.

use crate::json;
use crate::json::Json;
use crate::lookup;
use crate::rank;
use crate::text;
use vstd::prelude::*;

verus! {

broadcast use vstd::string::group_string_axioms;

// ---------------------------------------------------------------------------
// Framing
// ---------------------------------------------------------------------------

/// The header line that announces a body of `length` bytes, with its line end.
pub open spec fn length_line(length: nat) -> Seq<char> {
    "Content-Length: "@ + text::decimal(length) + "\r\n"@
}

/// The header of a body of `length` bytes: the length line and an empty line.
pub open spec fn frame_header(length: nat) -> Seq<char> {
    length_line(length) + "\r\n"@
}

/// A message as it goes over the wire: the header, then the body.
pub fn frame_message(body: &Vec<u8>) -> (r: Vec<u8>)
    ensures
        r@ == vstd::utf8::encode_utf8(frame_header(body@.len())) + body@,
{
    let mut header = "Content-Length: ".to_string();
    let length = text::to_decimal(body.len() as u64);
    header.append(length.as_str());
    header.append("\r\n");
    header.append("\r\n");
    assert(header@ =~= frame_header(body@.len()));
    let mut out = header.as_str().as_bytes_vec();
    let ghost head = out@;
    let mut i: usize = 0;
    assert(body@.take(0) =~= Seq::empty());
    while i < body.len()
        invariant
            i <= body@.len(),
            out@ == head + body@.take(i as int),
        decreases body@.len() - i,
    {
        out.push(body[i]);
        i += 1;
        assert(body@.take(i as int) =~= body@.take(i - 1).push(body@[i - 1]));
    }
    assert(body@.take(i as int) =~= body@);
    out
}

/// A reader of message headers: the length that was announced so far, or zero.
#[derive(Debug)]
pub struct HeaderReader {
    pub content_length: usize,
}

/// What a header reader asks for next.
#[derive(Debug)]
pub enum HeaderStep {
    /// One more header line.
    More,
    /// So many bytes of body.
    Body(usize),
    /// Nothing: the header cannot be read.
    Failed(String),
}

/// What a header reader asks for next.
pub enum HeaderStepView {
    More,
    Body(usize),
    Failed(Seq<char>),
}

impl View for HeaderStep {
    type V = HeaderStepView;

    open spec fn view(&self) -> HeaderStepView {
        match self {
            HeaderStep::More => HeaderStepView::More,
            HeaderStep::Body(n) => HeaderStepView::Body(*n),
            HeaderStep::Failed(e) => HeaderStepView::Failed(e@),
        }
    }
}

/// The length that a header line announces, if it announces one. What does not read as a number
/// announces zero.
pub open spec fn announced(line: Seq<char>) -> Option<usize> {
    let lower = text::ascii_lowered(text::trimmed(line));
    if "content-length:"@.is_prefix_of(lower) {
        let value = text::trimmed(lower.skip("content-length:"@.len() as int));
        Some(
            match text::unsigned_value(value, usize::MAX as nat) {
                Some(n) => n as usize,
                None => 0,
            },
        )
    } else {
        None
    }
}

/// What follows a header line, or the end of the stream, after `length` was announced: the
/// length from then on, and what to read next. An empty line ends the header.
pub open spec fn header_step(length: usize, line: Option<Seq<char>>) -> (usize, HeaderStepView) {
    match line {
        None => (
            length,
            HeaderStepView::Failed("LSP_TIMEOUT: unexpected EOF from language server"@),
        ),
        Some(line) => if text::trimmed(line).len() == 0 {
            if length == 0 {
                (length, HeaderStepView::Failed("LSP_INTERNAL: invalid content-length"@))
            } else {
                (length, HeaderStepView::Body(length))
            }
        } else {
            match announced(line) {
                Some(n) => (n, HeaderStepView::More),
                None => (length, HeaderStepView::More),
            }
        },
    }
}

impl HeaderReader {
    /// A reader before the first line.
    pub fn new() -> (r: HeaderReader)
        ensures
            r.content_length == 0,
    {
        HeaderReader { content_length: 0 }
    }

    /// Takes a header line, or the end of the stream.
    pub fn read(&mut self, line: Option<&str>) -> (r: HeaderStep)
        ensures
            (final(self).content_length, r@) == header_step(
                old(self).content_length,
                match line {
                    Some(l) => Some(l@),
                    None => None,
                },
            ),
    {
        let line = match line {
            Some(l) => l,
            None => {
                return HeaderStep::Failed(
                    "LSP_TIMEOUT: unexpected EOF from language server".to_string(),
                );
            },
        };
        let trimmed = text::trim(line);
        if trimmed.is_empty() {
            if self.content_length == 0 {
                return HeaderStep::Failed("LSP_INTERNAL: invalid content-length".to_string());
            }
            return HeaderStep::Body(self.content_length);
        }
        let lower = text::to_ascii_lowercase(trimmed);
        if let Some(rest) = text::strip_prefix(lower.as_str(), "content-length:") {
            self.content_length =
            match text::parse_usize(text::trim(rest)) {
                Some(n) => n,
                None => 0,
            };
        }
        HeaderStep::More
    }
}

// ---------------------------------------------------------------------------
// Messages
// ---------------------------------------------------------------------------

/// A request.
pub open spec fn request(
    id: u64,
    method: Seq<char>,
    params: json::JsonView,
) -> json::JsonView {
    json::JsonView::object().with("jsonrpc"@, json::JsonView::Text("2.0"@)).with(
        "id"@,
        json::JsonView::Number(id),
    ).with("method"@, json::JsonView::Text(method)).with("params"@, params)
}

/// A notification.
pub open spec fn notification(method: Seq<char>, params: json::JsonView) -> json::JsonView {
    json::JsonView::object().with("jsonrpc"@, json::JsonView::Text("2.0"@)).with(
        "method"@,
        json::JsonView::Text(method),
    ).with("params"@, params)
}

/// The requests of a client: each has a number of its own.
#[derive(Debug)]
pub struct LspSession {
    pub next_id: u64,
}

impl LspSession {
    /// A session before its first request.
    pub fn new() -> (r: LspSession)
        ensures
            r.next_id == 1,
    {
        LspSession { next_id: 1 }
    }

    /// The next request, and its number.
    pub fn request(&mut self, method: &str, params: Json) -> (r: (u64, Json))
        requires
            old(self).next_id < u64::MAX,
        ensures
            final(self).next_id == old(self).next_id + 1,
            r.0 == old(self).next_id,
            r.1@ == request(old(self).next_id, method@, params@),
    {
        let id = self.next_id;
        self.next_id = id + 1;
        let message = Json::object().with("jsonrpc", Json::text("2.0")).with(
            "id",
            Json::Number(id),
        ).with("method", Json::text(method)).with("params", params);
        (id, message)
    }
}

/// A notification.
pub fn notification_message(method: &str, params: Json) -> (r: Json)
    ensures
        r@ == notification(method@, params@),
{
    Json::object().with("jsonrpc", Json::text("2.0")).with("method", Json::text(method)).with(
        "params",
        params,
    )
}

/// The folder of a workspace.
pub open spec fn workspace_folder(root_uri: Seq<char>, name: Option<Seq<char>>) -> json::JsonView {
    json::JsonView::object().with("uri"@, json::JsonView::Text(root_uri)).with(
        "name"@,
        json::JsonView::Text(
            match name {
                Some(n) => n,
                None => "workspace"@,
            },
        ),
    )
}

/// The parameters of the request that opens a session.
pub open spec fn initialize_with(
    process_id: u32,
    root_uri: Seq<char>,
    name: Option<Seq<char>>,
) -> json::JsonView {
    json::JsonView::object().with("processId"@, json::JsonView::Number(process_id as u64)).with(
        "rootUri"@,
        json::JsonView::Text(root_uri),
    ).with("capabilities"@, json::JsonView::object()).with(
        "workspaceFolders"@,
        json::JsonView::Array(seq![workspace_folder(root_uri, name)]),
    )
}

/// The parameters of the request that opens a session on the workspace at `root_uri`.
pub fn initialize_params(process_id: u32, root_uri: &str, name: Option<&str>) -> (r: Json)
    ensures
        r@ == initialize_with(
            process_id,
            root_uri@,
            match name {
                Some(n) => Some(n@),
                None => None,
            },
        ),
{
    let name = match name {
        Some(n) => n,
        None => "workspace",
    };
    let folder = Json::object().with("uri", Json::text(root_uri)).with("name", Json::text(name));
    let mut folders: Vec<Json> = Vec::new();
    folders.push(folder);
    assert(rank::views(folders@) =~= seq![folder@]);
    Json::object().with("processId", Json::Number(process_id as u64)).with(
        "rootUri",
        Json::text(root_uri),
    ).with("capabilities", Json::object()).with("workspaceFolders", Json::array(folders))
}

/// The parameters of a symbol query.
pub fn workspace_symbol_params(query: &str) -> (r: Json)
    ensures
        r@ == json::JsonView::object().with("query"@, json::JsonView::Text(query@)),
{
    Json::object().with("query", Json::text(query))
}

/// The parameters of a request for the references to what stands at a position, without its
/// declaration.
pub open spec fn references_of(uri: Seq<char>, line: usize, character: usize) -> json::JsonView {
    json::JsonView::object().with(
        "textDocument"@,
        json::JsonView::object().with("uri"@, json::JsonView::Text(uri)),
    ).with(
        "position"@,
        json::JsonView::object().with("line"@, json::JsonView::Number(line as u64)).with(
            "character"@,
            json::JsonView::Number(character as u64),
        ),
    ).with(
        "context"@,
        json::JsonView::object().with("includeDeclaration"@, json::JsonView::Bool(false)),
    )
}

/// The parameters of a request for the references to what stands at a position.
pub fn references_params(uri: &str, line: usize, character: usize) -> (r: Json)
    ensures
        r@ == references_of(uri@, line, character),
{
    Json::object().with("textDocument", Json::object().with("uri", Json::text(uri))).with(
        "position",
        Json::object().with("line", Json::Number(line as u64)).with(
            "character",
            Json::Number(character as u64),
        ),
    ).with("context", Json::object().with("includeDeclaration", Json::Bool(false)))
}

// ---------------------------------------------------------------------------
// Replies
// ---------------------------------------------------------------------------

/// What a message is to a request that waits for its reply.
#[derive(Debug)]
pub enum LspReply {
    /// Not its reply.
    Unrelated,
    /// Its reply, which reports an error.
    Failed(Json),
    /// Its reply, with the result.
    Completed(Json),
}

/// What a message is to a request that waits for its reply.
pub enum LspReplyView {
    Unrelated,
    Failed(json::JsonView),
    Completed(json::JsonView),
}

impl View for LspReply {
    type V = LspReplyView;

    open spec fn view(&self) -> LspReplyView {
        match self {
            LspReply::Unrelated => LspReplyView::Unrelated,
            LspReply::Failed(e) => LspReplyView::Failed(e@),
            LspReply::Completed(v) => LspReplyView::Completed(v@),
        }
    }
}

/// What `message` is to the request number `id`. A reply without a result has the result null.
pub open spec fn reply_to(id: u64, message: json::JsonView) -> LspReplyView {
    if message.number_at("id"@) == Some(id) {
        match message.get("error"@) {
            Some(e) => LspReplyView::Failed(e),
            None => LspReplyView::Completed(
                match message.get("result"@) {
                    Some(v) => v,
                    None => json::JsonView::Null,
                },
            ),
        }
    } else {
        LspReplyView::Unrelated
    }
}

/// What `message` is to the request number `id`.
pub fn classify_reply(id: u64, message: Json) -> (r: LspReply)
    ensures
        r@ == reply_to(id, message@),
{
    let mine = match message.number_at("id") {
        Some(n) => n == id,
        None => false,
    };
    if !mine {
        return LspReply::Unrelated;
    }
    if message.get("error").is_some() {
        match message.take("error") {
            Some(e) => LspReply::Failed(e),
            None => LspReply::Unrelated,
        }
    } else {
        match message.take("result") {
            Some(v) => LspReply::Completed(v),
            None => LspReply::Completed(Json::Null),
        }
    }
}

/// The value under `key`, if there is a value to look into.
pub open spec fn get_in(value: Option<json::JsonView>, key: Seq<char>) -> Option<json::JsonView> {
    match value {
        Some(v) => v.get(key),
        None => None,
    }
}

fn json_in<'a>(value: Option<&'a Json>, key: &str) -> (r: Option<&'a Json>)
    ensures
        option_json(r) == get_in(option_json(value), key@),
{
    match value {
        Some(v) => v.get(key),
        None => None,
    }
}

/// What an optional value stands for.
pub open spec fn option_json(value: Option<&Json>) -> Option<json::JsonView> {
    match value {
        Some(v) => Some(v@),
        None => None,
    }
}

/// The text, or the empty text.
pub open spec fn text_or_empty(value: Option<json::JsonView>) -> Seq<char> {
    match value {
        Some(json::JsonView::Text(s)) => s,
        _ => Seq::empty(),
    }
}

/// The number, or zero.
pub open spec fn number_or_zero(value: Option<json::JsonView>) -> usize {
    match value {
        Some(json::JsonView::Number(n)) => n as usize,
        _ => 0,
    }
}

fn text_from(value: Option<&Json>) -> (r: String)
    ensures
        r@ == text_or_empty(option_json(value)),
{
    match value {
        Some(v) => match v.as_str() {
            Some(s) => s.to_string(),
            None => String::new(),
        },
        None => String::new(),
    }
}

fn number_from(value: Option<&Json>) -> (r: usize)
    ensures
        r == number_or_zero(option_json(value)),
{
    match value {
        Some(v) => match v.as_u64() {
            Some(n) => #[verifier::truncate] (n as usize),
            None => 0,
        },
        None => 0,
    }
}

/// A symbol that a server offers for a query.
#[derive(Debug)]
pub struct WorkspaceSymbolCandidate {
    pub name: String,
    pub uri: String,
    pub line: usize,
    pub character: usize,
    pub score: i32,
}

/// A symbol that a server offers for a query.
pub struct CandidateView {
    pub name: Seq<char>,
    pub uri: Seq<char>,
    pub line: usize,
    pub character: usize,
    pub score: i32,
}

impl View for WorkspaceSymbolCandidate {
    type V = CandidateView;

    open spec fn view(&self) -> CandidateView {
        CandidateView {
            name: self.name@,
            uri: self.uri@,
            line: self.line,
            character: self.character,
            score: self.score,
        }
    }
}

/// The score of a lowered name against a lowered query: the same, the beginning, a part, or
/// nothing of it. Closer lengths score higher.
pub open spec fn query_score(name: Seq<char>, query: Seq<char>) -> i32 {
    let delta = lookup::length_delta(lookup::byte_len(name), lookup::byte_len(query));
    if name == query {
        20_000i32.wrapping_sub(delta)
    } else if query.is_prefix_of(name) {
        10_000i32.wrapping_sub(delta)
    } else if text::occurs_in(name, query) {
        1_000i32.wrapping_sub(delta)
    } else {
        0
    }
}

/// The score of a lowered name against a lowered query.
pub fn query_score_lowered(name_lower: &str, query_lower: &str) -> (r: i32)
    ensures
        r == query_score(name_lower@, query_lower@),
{
    let delta = lookup::delta_of_lengths(name_lower.len(), query_lower.len());
    if text::same_text(name_lower, query_lower) {
        return 20_000i32.wrapping_sub(delta);
    }
    if text::starts_with(name_lower, query_lower) {
        return 10_000i32.wrapping_sub(delta);
    }
    if text::contains(name_lower, query_lower) {
        return 1_000i32.wrapping_sub(delta);
    }
    0
}

/// The score of a name against a query, without regard to case.
pub fn compute_symbol_query_score(name: &str, query: &str) -> (r: i32)
    ensures
        r == query_score(text::lowercase(name@), text::lowercase(query@)),
{
    let n = text::to_lowercase(name);
    let q = text::to_lowercase(query);
    query_score_lowered(n.as_str(), q.as_str())
}

/// The candidate that an item of a symbol reply offers: one with a name, a place and a score.
pub open spec fn candidate_of(item: json::JsonView, query: Seq<char>) -> Option<CandidateView> {
    let place = item.get("location"@);
    let start = get_in(get_in(place, "range"@), "start"@);
    let name = text_or_empty(item.get("name"@));
    let uri = text_or_empty(get_in(place, "uri"@));
    let score = query_score(text::lowercase(name), text::lowercase(query));
    if name.len() == 0 || uri.len() == 0 || score <= 0 {
        None
    } else {
        Some(
            CandidateView {
                name,
                uri,
                line: number_or_zero(get_in(start, "line"@)),
                character: number_or_zero(get_in(start, "character"@)),
                score,
            },
        )
    }
}

/// The candidates that the items of a symbol reply offer.
pub open spec fn candidates_of(items: Seq<json::JsonView>, query: Seq<char>) -> Seq<CandidateView>
    decreases items.len(),
{
    if items.len() == 0 {
        Seq::empty()
    } else {
        rank::push_some(
            candidates_of(items.drop_last(), query),
            candidate_of(items.last(), query),
        )
    }
}

fn read_candidate(item: &Json, query: &str) -> (r: Option<WorkspaceSymbolCandidate>)
    ensures
        match r {
            Some(c) => candidate_of(item@, query@) == Some(c@),
            None => candidate_of(item@, query@) is None,
        },
{
    let place = item.get("location");
    let start = json_in(json_in(place, "range"), "start");
    let name = text_from(item.get("name"));
    let uri = text_from(json_in(place, "uri"));
    let line = number_from(json_in(start, "line"));
    let character = number_from(json_in(start, "character"));
    if name.as_str().is_empty() || uri.as_str().is_empty() {
        return None;
    }
    let score = compute_symbol_query_score(name.as_str(), query);
    if score <= 0 {
        return None;
    }
    Some(WorkspaceSymbolCandidate { name, uri, line, character, score })
}

/// The candidates that a symbol reply offers. What is no array offers none.
pub fn parse_workspace_symbols(reply: &Json, query: &str) -> (r: Vec<WorkspaceSymbolCandidate>)
    ensures
        rank::views(r@) == candidates_of(reply@.items_or_none(), query@),
{
    let mut out: Vec<WorkspaceSymbolCandidate> = Vec::new();
    assert(rank::views(out@) =~= Seq::empty());
    if let Some(items) = reply.as_array() {
        let ghost all = rank::views(items@);
        let mut i: usize = 0;
        assert(all.take(0) =~= Seq::empty());
        while i < items.len()
            invariant
                i <= items@.len(),
                all == rank::views(items@),
                rank::views(out@) == candidates_of(all.take(i as int), query@),
            decreases items@.len() - i,
        {
            let ghost before = out@;
            assert(all.take(i + 1).drop_last() =~= all.take(i as int));
            if let Some(c) = read_candidate(&items[i], query) {
                out.push(c);
                assert(rank::views(out@) =~= rank::views(before).push(c@));
            }
            i += 1;
        }
        assert(all.take(i as int) =~= all);
    }
    out
}

/// A place in a document.
#[derive(Debug)]
pub struct LspLocation {
    pub uri: String,
    pub line: usize,
    pub character: usize,
}

/// A place in a document.
pub struct PlaceView {
    pub uri: Seq<char>,
    pub line: usize,
    pub character: usize,
}

impl View for LspLocation {
    type V = PlaceView;

    open spec fn view(&self) -> PlaceView {
        PlaceView { uri: self.uri@, line: self.line, character: self.character }
    }
}

/// The place that an item of a references reply names.
pub open spec fn place_of(item: json::JsonView) -> Option<PlaceView> {
    let start = get_in(item.get("range"@), "start"@);
    let uri = text_or_empty(item.get("uri"@));
    if uri.len() == 0 {
        None
    } else {
        Some(
            PlaceView {
                uri,
                line: number_or_zero(get_in(start, "line"@)),
                character: number_or_zero(get_in(start, "character"@)),
            },
        )
    }
}

/// The places that the items of a references reply name.
pub open spec fn places_of(items: Seq<json::JsonView>) -> Seq<PlaceView>
    decreases items.len(),
{
    if items.len() == 0 {
        Seq::empty()
    } else {
        rank::push_some(places_of(items.drop_last()), place_of(items.last()))
    }
}

fn read_place(item: &Json) -> (r: Option<LspLocation>)
    ensures
        match r {
            Some(p) => place_of(item@) == Some(p@),
            None => place_of(item@) is None,
        },
{
    let start = json_in(item.get("range"), "start");
    let uri = text_from(item.get("uri"));
    let line = number_from(json_in(start, "line"));
    let character = number_from(json_in(start, "character"));
    if uri.as_str().is_empty() {
        None
    } else {
        Some(LspLocation { uri, line, character })
    }
}

/// The places that a references reply names. What is no array names none.
pub fn parse_references(reply: &Json) -> (r: Vec<LspLocation>)
    ensures
        rank::views(r@) == places_of(reply@.items_or_none()),
{
    let mut out: Vec<LspLocation> = Vec::new();
    assert(rank::views(out@) =~= Seq::empty());
    if let Some(items) = reply.as_array() {
        let ghost all = rank::views(items@);
        let mut i: usize = 0;
        assert(all.take(0) =~= Seq::empty());
        while i < items.len()
            invariant
                i <= items@.len(),
                all == rank::views(items@),
                rank::views(out@) == places_of(all.take(i as int)),
            decreases items@.len() - i,
        {
            let ghost before = out@;
            assert(all.take(i + 1).drop_last() =~= all.take(i as int));
            if let Some(p) = read_place(&items[i]) {
                out.push(p);
                assert(rank::views(out@) =~= rank::views(before).push(p@));
            }
            i += 1;
        }
        assert(all.take(i as int) =~= all);
    }
    out
}

} // verus!
