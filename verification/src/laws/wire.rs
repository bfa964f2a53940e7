//! Laws of the language server protocol.

use crate::json;
use crate::laws::searching;
use crate::laws::texts;
use crate::laws::values;
use crate::laws::words;
use crate::lsp;
use crate::text;
use vstd::prelude::*;

verus! {

proof fn lemma_trimmed_start_none(s: Seq<char>)
    requires
        s.len() > 0 ==> !text::is_space(s[0]),
    ensures
        text::trimmed_start(s) == s,
{
}

proof fn lemma_trimmed_end_drops(s: Seq<char>, n: int)
    requires
        0 <= n <= s.len(),
        n > 0 ==> !text::is_space(s[n - 1]),
        forall|i: int| n <= i < s.len() ==> text::is_space(#[trigger] s[i]),
    ensures
        text::trimmed_end(s) == s.take(n),
    decreases s.len(),
{
    if n < s.len() {
        assert(text::is_space(s[s.len() - 1]));
        lemma_trimmed_end_drops(s.drop_last(), n);
        assert(s.drop_last().take(n) =~= s.take(n));
    } else {
        assert(s.take(n) =~= s);
    }
}

proof fn lemma_digits_stay(s: Seq<char>)
    requires
        forall|i: int| 0 <= i < s.len() ==> text::is_digit(#[trigger] s[i]),
    ensures
        text::ascii_lowered(s) == s,
        text::trimmed(s) == s,
{
    assert(text::ascii_lowered(s) =~= s);
    if s.len() > 0 {
        assert(text::is_digit(s[0]) && text::is_digit(s[s.len() - 1]));
    }
    lemma_trimmed_start_none(s);
    lemma_trimmed_end_drops(s, s.len() as int);
    assert(s.take(s.len() as int) =~= s);
}

/// A length line announces its length.
pub proof fn law_length_line_announces(length: nat)
    requires
        length <= usize::MAX,
    ensures
        lsp::announced(lsp::length_line(length)) == Some(length as usize),
{
    reveal_strlit("Content-Length: ");
    reveal_strlit("content-length:");
    reveal_strlit("\r\n");
    let digits = text::decimal(length);
    text::lemma_decimal_reads_back(length);
    lemma_digits_stay(digits);
    let line = lsp::length_line(length);
    let kept = "Content-Length: "@ + digits;
    lemma_trimmed_start_none(line);
    assert(line[kept.len() - 1] == digits[digits.len() - 1]);
    assert(text::is_digit(digits[digits.len() - 1]));
    lemma_trimmed_end_drops(line, kept.len() as int);
    assert(line.take(kept.len() as int) =~= kept);
    let lower = text::ascii_lowered(kept);
    assert(lower =~= "content-length:"@ + seq![' '] + digits) by {
        assert forall|i: int| 0 <= i < lower.len() implies lower[i] == ("content-length:"@ + seq![
            ' ',
        ] + digits)[i] by {
            if i >= 16 {
                assert(text::is_digit(digits[i - 16]));
            }
        }
    }
    assert("content-length:"@.is_prefix_of(lower));
    let rest = lower.skip("content-length:"@.len() as int);
    assert(rest =~= seq![' '] + digits);
    assert(rest.skip(1) =~= digits);
    lemma_trimmed_start_none(digits);
    assert(text::trimmed_start(rest) == text::trimmed_start(rest.skip(1)));
    assert(text::trimmed(rest) == text::trimmed(digits));
    assert(text::unsigned_digits(digits) == digits) by {
        assert(text::is_digit(digits[0]));
    }
}

/// Whether `s` is one line with its end: a line feed stands at its end and nowhere else.
pub open spec fn is_one_line(s: Seq<char>) -> bool {
    s.len() > 0 && s.last() == '\n' && forall|i: int|
        0 <= i < s.len() - 1 ==> #[trigger] s[i] != '\n'
}

/// What a frame header says is read back from it: it is two lines, and these, read one after the
/// other, ask for a body of the length that the header was made for. A body of no bytes is
/// refused.
pub proof fn law_frame_header_reads_back(length: nat, before: usize)
    requires
        length <= usize::MAX,
    ensures
        lsp::frame_header(length) == lsp::length_line(length) + "\r\n"@,
        is_one_line(lsp::length_line(length)),
        is_one_line("\r\n"@),
        lsp::header_step(before, Some(lsp::length_line(length))) == (
            length as usize,
            lsp::HeaderStepView::More,
        ),
        lsp::header_step(length as usize, Some("\r\n"@)) == (
            length as usize,
            if length == 0 {
                lsp::HeaderStepView::Failed("LSP_INTERNAL: invalid content-length"@)
            } else {
                lsp::HeaderStepView::Body(length as usize)
            },
        ),
{
    reveal_strlit("Content-Length: ");
    reveal_strlit("\r\n");
    law_length_line_announces(length);
    let line = lsp::length_line(length);
    assert(line[0] == 'C');
    assert(is_one_line(line)) by {
        let digits = text::decimal(length);
        text::lemma_decimal_reads_back(length);
        assert forall|i: int| 0 <= i < line.len() - 1 implies #[trigger] line[i] != '\n' by {
            if 16 <= i < 16 + digits.len() {
                assert(text::is_digit(digits[i - 16]));
            }
        }
    }
    text::lemma_word_is_kept(line);
    let end = "\r\n"@;
    assert(end.skip(1).skip(1) =~= Seq::empty());
    assert(text::trimmed_start(end.skip(1)) == text::trimmed_start(end.skip(1).skip(1)));
    assert(text::trimmed_start(end) == text::trimmed_start(end.skip(1)));
    assert(text::trimmed(end).len() == 0);
}

/// The bytes of `stream` up to and with its first line feed, or all of them.
pub open spec fn first_line(stream: Seq<u8>) -> Seq<u8>
    decreases stream.len(),
{
    if stream.len() == 0 {
        Seq::empty()
    } else if stream[0] == 10 {
        seq![stream[0]]
    } else {
        seq![stream[0]] + first_line(stream.skip(1))
    }
}

/// What a client that follows the steps of a header reader takes from `stream` after `length` was
/// announced: the bytes of a body, and the bytes behind it. Nothing, if a line is no text, the
/// reader fails, or the stream ends too early.
pub open spec fn take_message(stream: Seq<u8>, length: usize) -> Option<(Seq<u8>, Seq<u8>)>
    decreases stream.len(),
{
    let line = first_line(stream);
    let rest = stream.skip(line.len() as int);
    if stream.len() == 0 || !vstd::utf8::valid_utf8(line) {
        None
    } else {
        match lsp::header_step(length, Some(vstd::utf8::decode_utf8(line))) {
            (next, lsp::HeaderStepView::More) => if line.len() > 0 && line.len() <= stream.len() {
                take_message(rest, next)
            } else {
                None
            },
            (_, lsp::HeaderStepView::Body(n)) => if n <= rest.len() {
                Some((rest.take(n as int), rest.skip(n as int)))
            } else {
                None
            },
            (_, lsp::HeaderStepView::Failed(_)) => None,
        }
    }
}

proof fn lemma_first_line(line: Seq<u8>, rest: Seq<u8>)
    requires
        line.len() > 0,
        line.last() == 10,
        forall|i: int| 0 <= i < line.len() - 1 ==> #[trigger] line[i] != 10,
    ensures
        first_line(line + rest) == line,
        (line + rest).skip(line.len() as int) == rest,
    decreases line.len(),
{
    let stream = line + rest;
    assert(stream.skip(line.len() as int) =~= rest);
    if line.len() == 1 {
        assert(first_line(stream) =~= line);
    } else {
        let tail = line.skip(1);
        assert(line[0] != 10);
        assert forall|i: int| 0 <= i < tail.len() - 1 implies #[trigger] tail[i] != 10 by {
            assert(line[i + 1] != 10);
        }
        assert(tail.last() == line.last());
        lemma_first_line(tail, rest);
        assert(stream.skip(1) =~= tail + rest);
        assert(seq![line[0]] + tail =~= line);
    }
}

proof fn lemma_line_bytes(line: Seq<char>)
    requires
        vstd::utf8::is_ascii_chars(line),
        is_one_line(line),
    ensures
        ({
            let bytes = vstd::utf8::encode_utf8(line);
            &&& bytes.len() == line.len()
            &&& bytes.last() == 10
            &&& forall|i: int| 0 <= i < bytes.len() - 1 ==> #[trigger] bytes[i] != 10
            &&& vstd::utf8::valid_utf8(bytes)
            &&& vstd::utf8::decode_utf8(bytes) == line
        }),
{
    let bytes = vstd::utf8::encode_utf8(line);
    vstd::utf8::is_ascii_chars_encode_utf8(line);
    vstd::utf8::encode_utf8_valid_utf8(line);
    vstd::utf8::encode_utf8_decode_utf8(line);
    assert(line[line.len() - 1] as u8 == bytes[line.len() - 1]);
    assert forall|i: int| 0 <= i < bytes.len() - 1 implies #[trigger] bytes[i] != 10 by {
        assert(line[i] as u8 == bytes[i]);
        assert('\0' <= line[i] <= '\u{7f}');
        assert(line[i] != '\n');
    }
}

/// A framed message is taken from a stream whole: the body that was framed, whatever bytes it is
/// made of, and behind it exactly what stood behind the frame. The length counts bytes.
pub proof fn law_framed_message_reads_back(body: Seq<u8>, rest: Seq<u8>)
    requires
        0 < body.len() <= usize::MAX,
    ensures
        take_message(
            vstd::utf8::encode_utf8(lsp::frame_header(body.len())) + body + rest,
            0,
        ) == Some((body, rest)),
{
    let n = body.len();
    let line = lsp::length_line(n);
    let end = "\r\n"@;
    reveal_strlit("Content-Length: ");
    reveal_strlit("\r\n");
    law_frame_header_reads_back(n, 0);
    let digits = text::decimal(n);
    text::lemma_decimal_reads_back(n);
    assert(vstd::utf8::is_ascii_chars(line)) by {
        assert forall|i: int| 0 <= i < line.len() implies '\0' <= #[trigger] line[i]
            <= '\u{7f}' by {
            if 16 <= i < 16 + digits.len() {
                assert(text::is_digit(digits[i - 16]));
            }
        }
    }
    assert(vstd::utf8::is_ascii_chars(end));
    let header = lsp::frame_header(n);
    assert(vstd::utf8::is_ascii_chars(header)) by {
        assert forall|i: int| 0 <= i < header.len() implies '\0' <= #[trigger] header[i]
            <= '\u{7f}' by {
            if i < line.len() {
                assert('\0' <= line[i] <= '\u{7f}');
            } else {
                assert('\0' <= end[i - line.len()] <= '\u{7f}');
            }
        }
    }
    let a = vstd::utf8::encode_utf8(line);
    let b = vstd::utf8::encode_utf8(end);
    let h = vstd::utf8::encode_utf8(header);
    vstd::utf8::is_ascii_chars_encode_utf8(header);
    vstd::utf8::is_ascii_chars_encode_utf8(line);
    vstd::utf8::is_ascii_chars_encode_utf8(end);
    assert(h =~= a + b) by {
        assert forall|i: int| 0 <= i < h.len() implies h[i] == (a + b)[i] by {
            assert(header[i] as u8 == h[i]);
            if i < line.len() {
                assert(line[i] as u8 == a[i]);
            } else {
                assert(end[i - line.len()] as u8 == b[i - line.len()]);
            }
        }
    }
    lemma_line_bytes(line);
    lemma_line_bytes(end);
    let behind = body + rest;
    let stream = h + body + rest;
    assert(stream =~= a + (b + behind));
    lemma_first_line(a, b + behind);
    lemma_first_line(b, behind);
    assert(take_message(b + behind, n as usize) == Some((behind.take(n as int), behind.skip(
        n as int,
    ))));
    assert(behind.take(n as int) =~= body);
    assert(behind.skip(n as int) =~= rest);
}

/// A message without the number of a request is not its reply. With the number, it is, and an
/// error goes before a result.
pub proof fn law_reply_is_matched_by_number(id: u64, message: json::JsonView)
    ensures
        lsp::reply_to(id, message) is Unrelated <==> message.number_at("id"@) != Some(id),
        lsp::reply_to(id, message) is Failed <==> message.number_at("id"@) == Some(id)
            && message.get("error"@) is Some,
{
}

/// A reply that carries a number and a result completes the request of that number with it, and
/// no other request.
pub proof fn law_result_completes_its_request(id: u64, other: u64, result: json::JsonView)
    ensures
        ({
            let reply = json::JsonView::object().with("id"@, json::JsonView::Number(id)).with(
                "result"@,
                result,
            );
            &&& lsp::reply_to(id, reply) == lsp::LspReplyView::Completed(result)
            &&& other != id ==> lsp::reply_to(other, reply) is Unrelated
        }),
{
    reveal_strlit("id");
    reveal_strlit("error");
    reveal_strlit("result");
    assert("id"@.len() == 2 && "error"@.len() == 5 && "result"@.len() == 6);
    let members = seq![("id"@, json::JsonView::Number(id)), ("result"@, result)];
    let reply = json::JsonView::object().with("id"@, json::JsonView::Number(id)).with(
        "result"@,
        result,
    );
    assert(reply == json::JsonView::Object(members)) by {
        assert(Seq::<(Seq<char>, json::JsonView)>::empty().push(
            ("id"@, json::JsonView::Number(id)),
        ).push(("result"@, result)) =~= members);
    }
    assert(members.skip(1) =~= seq![("result"@, result)]);
    assert(members.skip(1).skip(1) =~= Seq::empty());
    reveal_with_fuel(json::member, 3);
}

/// The same name scores twenty thousand, and no other name as high.
pub proof fn law_same_name_scores_highest(name: Seq<char>, query: Seq<char>)
    requires
        searching::is_short(name),
        searching::is_short(query),
    ensures
        lsp::query_score(query, query) == 20_000,
        name != query ==> lsp::query_score(name, query) <= 10_000,
{
    searching::law_length_delta(query, query);
    searching::law_length_delta(name, query);
}

proof fn lemma_candidates(items: Seq<json::JsonView>, query: Seq<char>)
    ensures
        forall|c: lsp::CandidateView| #[trigger]
            lsp::candidates_of(items, query).contains(c) <==> (exists|i: int|
                0 <= i < items.len() && lsp::candidate_of(#[trigger] items[i], query) == Some(c)),
    decreases items.len(),
{
    let all = lsp::candidates_of(items, query);
    if items.len() > 0 {
        let front = items.drop_last();
        let before = lsp::candidates_of(front, query);
        let last = lsp::candidate_of(items.last(), query);
        lemma_candidates(front, query);
        assert forall|c: lsp::CandidateView| #[trigger]
            all.contains(c) <==> (exists|i: int|
                0 <= i < items.len() && lsp::candidate_of(#[trigger] items[i], query) == Some(
                    c,
                )) by {
            if all.contains(c) {
                let k = all.index_of(c);
                if k < before.len() {
                    assert(before[k] == c);
                    assert(before.contains(c));
                    let i = choose|i: int|
                        0 <= i < front.len() && lsp::candidate_of(#[trigger] front[i], query)
                            == Some(c);
                    assert(items[i] == front[i]);
                } else {
                    assert(items[items.len() - 1] == items.last());
                }
            }
            if exists|i: int|
                0 <= i < items.len() && lsp::candidate_of(#[trigger] items[i], query) == Some(c) {
                let i = choose|i: int|
                    0 <= i < items.len() && lsp::candidate_of(#[trigger] items[i], query) == Some(
                        c,
                    );
                if i < front.len() {
                    assert(front[i] == items[i]);
                    assert(before.contains(c));
                    assert(all[before.index_of(c)] == c);
                } else {
                    assert(all[all.len() - 1] == c);
                }
            }
        }
    }
}

/// The candidates of a reply are what its items offer. Each has a name, a place, and the positive
/// score of its name.
pub proof fn law_candidates_have_scores(
    items: Seq<json::JsonView>,
    query: Seq<char>,
    c: lsp::CandidateView,
)
    ensures
        lsp::candidates_of(items, query).contains(c) <==> (exists|i: int|
            0 <= i < items.len() && lsp::candidate_of(#[trigger] items[i], query) == Some(c)),
        lsp::candidates_of(items, query).contains(c) ==> c.name.len() > 0 && c.uri.len() > 0
            && c.score > 0 && c.score == lsp::query_score(
            text::lowercase(c.name),
            text::lowercase(query),
        ),
{
    lemma_candidates(items, query);
}

// ---------------------------------------------------------------------------
// Header lines
// ---------------------------------------------------------------------------

/// A header line announces a length where it begins with the name of the length header, in any
/// case, whatever white space stands around it: the number behind the colon, whatever white space
/// stands around that, or zero where there is none or it does not read as one. Any other line
/// announces none.
pub proof fn law_announced_length(
    front: Seq<char>,
    name: Seq<char>,
    gap: Seq<char>,
    value: Seq<char>,
    back: Seq<char>,
    other: Seq<char>,
)
    requires
        texts::all_space(front),
        texts::all_space(gap),
        texts::all_space(back),
        text::ascii_lowered(name) == "content-length:"@,
        value.len() > 0,
        texts::no_space(value),
    ensures
        lsp::announced(front + (name + gap + value) + back) == Some(
            match text::unsigned_value(text::ascii_lowered(value), usize::MAX as nat) {
                Some(n) => n as usize,
                None => 0usize,
            },
        ),
        lsp::announced(front + name + back) == Some(0usize),
        !"content-length:"@.is_prefix_of(text::ascii_lowered(text::trimmed(other)))
            ==> lsp::announced(other) is None,
{
    reveal_strlit("content-length:");
    let kept = name + gap + value;
    assert(name.len() == 15);
    assert(!text::is_space(name[0])) by {
        assert(text::ascii_lowered(name)[0] == 'c');
        texts::law_ascii_lowered(name, 0);
    }
    assert(kept[0] == name[0]);
    assert(kept.last() == value[value.len() - 1]);
    texts::law_trimming(front, kept, back);
    let lower = text::ascii_lowered(kept);
    let spaces = text::ascii_lowered(gap);
    let digits = text::ascii_lowered(value);
    assert(lower =~= "content-length:"@ + spaces + digits) by {
        assert forall|i: int| 0 <= i < lower.len() implies lower[i] == ("content-length:"@ + spaces
            + digits)[i] by {
            if i < 15 {
                assert(text::ascii_lowered(name)[i] == text::ascii_lower(name[i]));
            }
        }
    }
    assert("content-length:"@.is_prefix_of(lower)) by {
        assert(lower.subrange(0, 15) =~= "content-length:"@);
    }
    assert(texts::all_space(spaces)) by {
        assert forall|i: int| 0 <= i < spaces.len() implies text::is_space(
            #[trigger] spaces[i],
        ) by {
            assert(text::is_space(gap[i]));
        }
    }
    let rest = lower.skip("content-length:"@.len() as int);
    let none = Seq::<char>::empty();
    assert(rest =~= spaces + digits + none);
    assert(!text::is_space(digits[0]) && !text::is_space(digits[digits.len() - 1])) by {
        assert(!text::is_space(value[0]) && !text::is_space(value[value.len() - 1]));
    }
    texts::law_trimming(spaces, digits, none);
    assert(!text::is_space(name.last())) by {
        assert(text::ascii_lowered(name)[14] == ':');
        texts::law_ascii_lowered(name, 14);
    }
    texts::law_trimming(front, name, back);
    assert("content-length:"@.is_prefix_of(text::ascii_lowered(name))) by {
        assert(text::ascii_lowered(name).subrange(0, 15) =~= "content-length:"@);
    }
    assert(text::ascii_lowered(name).skip(15) =~= none);
    texts::law_trimming(none, none, none);
    assert(none + none + none =~= none);
    texts::law_unsigned_numbers(none, usize::MAX as nat);
}

/// A header is read line by line. A line that announces a length gives it; any other line that is
/// not blank leaves the length. A blank line ends the header: a body of the length is read, or the
/// header is refused where no length was announced. The end of the stream is a failure.
pub proof fn law_header_is_read_line_by_line(length: usize, line: Seq<char>)
    ensures
        lsp::header_step(length, None) == (
            length,
            lsp::HeaderStepView::Failed("LSP_TIMEOUT: unexpected EOF from language server"@),
        ),
        texts::all_space(line) ==> lsp::header_step(length, Some(line)) == (
            length,
            if length > 0 {
                lsp::HeaderStepView::Body(length)
            } else {
                lsp::HeaderStepView::Failed("LSP_INTERNAL: invalid content-length"@)
            },
        ),
        !texts::all_space(line) ==> lsp::header_step(length, Some(line)) == (
            match lsp::announced(line) {
                Some(n) => n,
                None => length,
            },
            lsp::HeaderStepView::More,
        ),
{
    let none = Seq::<char>::empty();
    if texts::all_space(line) {
        texts::law_trimming(line, none, none);
        assert(line + none + none =~= line);
    } else {
        lemma_something_is_kept(line);
    }
}

proof fn lemma_something_is_kept(s: Seq<char>)
    requires
        !texts::all_space(s),
    ensures
        text::trimmed(s).len() > 0,
    decreases s.len(),
{
    let i = choose|i: int| 0 <= i < s.len() && !text::is_space(#[trigger] s[i]);
    if text::is_space(s[0]) {
        assert(s.skip(1)[i - 1] == s[i]);
        lemma_something_is_kept(s.skip(1));
        assert(text::trimmed(s) == text::trimmed(s.skip(1)));
    } else {
        text::lemma_word_is_kept(s);
    }
}

// ---------------------------------------------------------------------------
// Messages
// ---------------------------------------------------------------------------

/// A request carries the version of the protocol, its number, its method and its parameters. A
/// notification carries the same, but for a number.
pub proof fn law_messages_carry_what_they_say(
    id: u64,
    method: Seq<char>,
    params: json::JsonView,
)
    ensures
        ({
            let message = lsp::request(id, method, params);
            &&& values::members_in(message) == 4
            &&& message.text_at("jsonrpc"@) == Some("2.0"@)
            &&& message.number_at("id"@) == Some(id)
            &&& message.text_at("method"@) == Some(method)
            &&& message.get("params"@) == Some(params)
        }),
        ({
            let message = lsp::notification(method, params);
            &&& values::members_in(message) == 3
            &&& message.text_at("jsonrpc"@) == Some("2.0"@)
            &&& message.get("id"@) is None
            &&& message.text_at("method"@) == Some(method)
            &&& message.get("params"@) == Some(params)
        }),
{
    broadcast use values::law_object_with_member;

    words::lemma_keys();
}

/// A session is opened for the process, on one folder: the root under its name, or under
/// `workspace` where it has none. No capabilities are claimed.
pub proof fn law_session_is_opened_on_the_root(
    process_id: u32,
    root_uri: Seq<char>,
    name: Option<Seq<char>>,
)
    ensures
        ({
            let params = lsp::initialize_with(process_id, root_uri, name);
            &&& values::members_in(params) == 4
            &&& params.number_at("processId"@) == Some(process_id as u64)
            &&& params.text_at("rootUri"@) == Some(root_uri)
            &&& params.get("capabilities"@) == Some(json::JsonView::Object(Seq::empty()))
            &&& params.get("workspaceFolders"@) matches Some(json::JsonView::Array(folders))
                && folders.len() == 1 && values::members_in(folders[0]) == 2 && folders[0].text_at(
                "uri"@,
            ) == Some(root_uri) && folders[0].text_at("name"@) == (match name {
                Some(n) => Some(n),
                None => Some("workspace"@),
            })
        }),
{
    broadcast use values::law_object_with_member;

    words::lemma_keys();
}

/// References are asked for at a line and a character of a document, without the declaration.
pub proof fn law_references_are_asked_for_at_a_place(
    uri: Seq<char>,
    line: usize,
    character: usize,
)
    ensures
        ({
            let params = lsp::references_of(uri, line, character);
            &&& values::members_in(params) == 3
            &&& params.get("textDocument"@) matches Some(document) && values::members_in(
                document,
            ) == 1 && document.text_at("uri"@)
                == Some(uri)
            &&& params.get("position"@) matches Some(position) && values::members_in(
                position,
            ) == 2 && position.number_at("line"@)
                == Some(line as u64) && position.number_at("character"@) == Some(character as u64)
            &&& params.get("context"@) matches Some(context) && values::members_in(
                context,
            ) == 1 && context.get("includeDeclaration"@)
                == Some(json::JsonView::Bool(false))
        }),
{
    broadcast use values::law_object_with_member;

    words::lemma_keys();
}

// ---------------------------------------------------------------------------
// Replies
// ---------------------------------------------------------------------------

/// A reply to a request gives the error, where it has one, and else the result, or null where it
/// has none.
pub proof fn law_reply_gives_error_or_result(id: u64, message: json::JsonView)
    requires
        message.get("id"@) == Some(json::JsonView::Number(id)),
    ensures
        match message.get("error"@) {
            Some(e) => lsp::reply_to(id, message) == lsp::LspReplyView::Failed(e),
            None => match message.get("result"@) {
                Some(v) => lsp::reply_to(id, message) == lsp::LspReplyView::Completed(v),
                None => lsp::reply_to(id, message) == lsp::LspReplyView::Completed(
                    json::JsonView::Null,
                ),
            },
        },
{
}

/// A name scores twenty thousand where it is the query, ten thousand where it begins with it, and
/// one thousand where it has it in it, less the distance of the lengths in bytes. Any other name
/// scores nothing.
pub proof fn law_query_score(name: Seq<char>, query: Seq<char>)
    requires
        searching::is_short(name),
        searching::is_short(query),
    ensures
        name == query ==> lsp::query_score(name, query) == 20_000,
        name != query && query.is_prefix_of(name) ==> lsp::query_score(name, query) == 10_000
            - searching::distance(name, query),
        !query.is_prefix_of(name) && text::occurs_in(name, query) ==> lsp::query_score(name, query)
            == 1_000 - searching::distance(name, query),
        !text::occurs_in(name, query) ==> lsp::query_score(name, query) == 0,
{
    searching::law_length_delta(name, query);
    if query.is_prefix_of(name) {
        assert(text::stands_at(name, query, 0));
    }
    if name == query {
        assert(query.is_prefix_of(name)) by {
            assert(name.subrange(0, name.len() as int) =~= name);
        }
    }
}

/// The text under `key` of `v`, where there is one.
pub open spec fn text_under(v: Option<json::JsonView>, key: Seq<char>) -> Option<Seq<char>> {
    match v {
        Some(v) => v.text_at(key),
        None => None,
    }
}

/// Whether `n` is the number under `key` of the start of the range of `v`, or zero where no such
/// number is told.
pub open spec fn starts_at(v: Option<json::JsonView>, key: Seq<char>, n: usize) -> bool {
    ||| v matches Some(place) && place.get("range"@) matches Some(range) && range.get("start"@)
        matches Some(start) && start.number_at(key) matches Some(told) && n == told as usize
    ||| n == 0 && !(v matches Some(place) && place.get("range"@) matches Some(range) && range.get(
        "start"@,
    ) matches Some(start) && start.number_at(key) is Some)
}

/// An item of a symbol reply offers a candidate where it has a name, its location has a URI, and
/// the name scores above zero. The candidate has these, and the line and the character at which the
/// range of the location starts, or zero where that is not told.
pub proof fn law_candidate_of_item(item: json::JsonView, query: Seq<char>)
    ensures
        ({
            let place = item.get("location"@);
            match lsp::candidate_of(item, query) {
                Some(c) => {
                    &&& item.text_at("name"@) == Some(c.name)
                    &&& c.name.len() > 0
                    &&& text_under(place, "uri"@) == Some(c.uri)
                    &&& c.uri.len() > 0
                    &&& starts_at(place, "line"@, c.line)
                    &&& starts_at(place, "character"@, c.character)
                    &&& c.score == lsp::query_score(text::lowercase(c.name), text::lowercase(query))
                    &&& c.score > 0
                },
                None => {
                    ||| !(item.text_at("name"@) matches Some(name) && name.len() > 0)
                    ||| !(text_under(place, "uri"@) matches Some(uri) && uri.len() > 0)
                    ||| item.text_at("name"@) matches Some(name) && lsp::query_score(
                        text::lowercase(name),
                        text::lowercase(query),
                    ) <= 0
                },
            }
        }),
{
}

/// An item of a references reply names a place where it has a URI: that, and the line and the
/// character at which its range starts, or zero where that is not told.
pub proof fn law_place_of_item(item: json::JsonView)
    ensures
        match lsp::place_of(item) {
            Some(place) => {
                &&& item.text_at("uri"@) == Some(place.uri)
                &&& place.uri.len() > 0
                &&& starts_at(Some(item), "line"@, place.line)
                &&& starts_at(Some(item), "character"@, place.character)
            },
            None => !(item.text_at("uri"@) matches Some(uri) && uri.len() > 0),
        },
{
}

/// The items of a reply are read one by one, in their order: each gives what it offers or names,
/// and nothing where it does not.
pub proof fn law_items_are_read_one_by_one(
    items: Seq<json::JsonView>,
    item: json::JsonView,
    query: Seq<char>,
)
    ensures
        lsp::candidates_of(Seq::empty(), query).len() == 0,
        lsp::candidates_of(items.push(item), query) == (match lsp::candidate_of(item, query) {
            Some(c) => lsp::candidates_of(items, query).push(c),
            None => lsp::candidates_of(items, query),
        }),
        lsp::places_of(Seq::empty()).len() == 0,
        lsp::places_of(items.push(item)) == (match lsp::place_of(item) {
            Some(p) => lsp::places_of(items).push(p),
            None => lsp::places_of(items),
        }),
{
    assert(items.push(item).drop_last() =~= items);
}

/// A framed message is its length line, an empty line, and the body. The length is the number of
/// bytes of the body.
pub proof fn law_frame_is_header_and_body(body: &Vec<u8>, frame: Vec<u8>)
    requires
        call_ensures(lsp::frame_message, (body,), frame),
    ensures
        frame@ == vstd::utf8::encode_utf8(
            "Content-Length: "@ + text::decimal(body@.len()) + "\r\n"@ + "\r\n"@,
        ) + body@,
{
}

/// A symbol query asks for its text, and for nothing else.
pub proof fn law_symbol_query_asks_for_its_text(query: &str, params: json::Json)
    requires
        call_ensures(lsp::workspace_symbol_params, (query,), params),
    ensures
        values::members_in(params@) == 1,
        params@.text_at("query"@) == Some(query@),
{
    broadcast use values::law_object_with_member;

    words::lemma_keys();
}

} // verus!
