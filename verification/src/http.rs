//! The requests and responses of the bridge that a browser talks to: when a request is complete,
//! what it asks for, and the text of a response.

use crate::json::{Json, JsonView};
use crate::{json, json_text, text};
use vstd::prelude::*;
use vstd::string::*;

verus! {

/// The greatest size of a request whose head is not complete, in bytes.
pub const HEAD_LIMIT: usize = 1_048_576;

/// The message about a request that exceeds that size.
pub const TOO_LARGE: &'static str = "request too large";

// ===== The head of a request =====

/// Whether the head of a request ends at position `i`: with an empty line.
pub open spec fn ends_head(bytes: Seq<u8>, i: int) -> bool {
    &&& 4 <= i <= bytes.len()
    &&& bytes[i - 4] == 13 && bytes[i - 3] == 10 && bytes[i - 2] == 13 && bytes[i - 1] == 10
}

/// Whether the head of a request ends at position `i` and not before.
pub open spec fn first_ends_head(bytes: Seq<u8>, i: int) -> bool {
    &&& ends_head(bytes, i)
    &&& forall|j: int| 0 <= j < i ==> !#[trigger] ends_head(bytes, j)
}

/// The first line of a text, without the line feed and the carriage return before it that end it.
pub open spec fn first_line(s: Seq<char>) -> Seq<char> {
    match text::find_text(s, seq!['\n']) {
        Some(i) => if i > 0 && s[i - 1] == '\r' {
            s.take(i - 1)
        } else {
            s.take(i)
        },
        None => s,
    }
}

/// What follows the first line of a text.
pub open spec fn later_lines(s: Seq<char>) -> Seq<char> {
    match text::find_text(s, seq!['\n']) {
        Some(i) => s.skip(i + 1),
        None => Seq::empty(),
    }
}

/// The length that a line of a head gives to the body, where it is the line for that and holds a
/// number.
pub open spec fn length_in_line(line: Seq<char>) -> Option<nat> {
    match text::find_text(line, seq![':']) {
        Some(i) => if text::lower(line.take(i)) == "content-length"@ {
            text::parse_unsigned(text::trim(line.skip(i + 1)), usize::MAX as nat)
        } else {
            None
        },
        None => None,
    }
}

/// The length that the first line to give one gives to the body, or zero.
pub open spec fn body_length(head: Seq<char>) -> nat
    decreases head.len(),
{
    if head.len() == 0 {
        0
    } else {
        match length_in_line(first_line(head)) {
            Some(length) => length,
            None => {
                proof {
                    text::lemma_find(head, seq!['\n']);
                }
                body_length(later_lines(head))
            },
        }
    }
}

/// Where the head of a request ends, and the length of the body that it announces.
pub open spec fn is_head(bytes: Seq<u8>, end: int, length: nat) -> bool {
    &&& first_ends_head(bytes, end)
    &&& length == body_length(text::lossy_text(bytes.take(end)))
}

/// Whether bytes that are UTF-8 are read as the text that they encode.
pub open spec fn reads_utf8(bytes: Seq<u8>) -> bool {
    vstd::utf8::valid_utf8(bytes) ==> text::lossy_text(bytes) == vstd::utf8::decode_utf8(bytes)
}

/// Where the head ends.
fn find_head_end(bytes: &[u8]) -> (result: Option<usize>)
    ensures
        match result {
            Some(end) => first_ends_head(bytes@, end as int),
            None => forall|i: int| !#[trigger] ends_head(bytes@, i),
        },
{
    let mut end: usize = 4;
    while end <= bytes.len()
        invariant
            4 <= end,
            end <= bytes@.len() + 1 || end == 4,
            forall|i: int| i < end ==> !#[trigger] ends_head(bytes@, i),
        decreases bytes@.len() + 4 - end,
    {
        if bytes[end - 4] == 13 && bytes[end - 3] == 10 && bytes[end - 2] == 13 && bytes[end - 1]
            == 10 {
            return Some(end);
        }
        if end == bytes.len() {
            return None;
        }
        end = end + 1;
    }
    None
}

/// The first line of a text, and what follows it.
fn cut_line(s: &str) -> (result: (String, String))
    ensures
        result.0@ == first_line(s@),
        result.1@ == later_lines(s@),
{
    let chars = text::chars_of(s);
    let total = chars.len();
    proof {
        reveal_strlit("\n");
        assert("\n"@ =~= seq!['\n']);
    }
    match text::find(s, "\n") {
        Some(i) => {
            let end = if i > 0 && chars[i - 1] == '\r' {
                i - 1
            } else {
                i
            };
            proof {
                assert(s@.subrange(0, end as int) =~= s@.take(end as int));
                assert(s@.subrange(i + 1, s@.len() as int) =~= s@.skip(i + 1));
            }
            (text::slice_text(s, 0, end), text::slice_text(s, i + 1, total))
        },
        None => (s.to_owned(), String::new()),
    }
}

/// The length that a line of a head gives to the body.
fn read_length(line: &str) -> (result: Option<usize>)
    ensures
        match result {
            Some(length) => length_in_line(line@) == Some(length as nat),
            None => length_in_line(line@) is None,
        },
{
    proof {
        reveal_strlit(":");
        assert(":"@ =~= seq![':']);
    }
    match text::find(line, ":") {
        Some(i) => {
            let total = text::chars_of(line).len();
            proof {
                assert(line@.subrange(0, i as int) =~= line@.take(i as int));
                assert(line@.subrange(i + 1, line@.len() as int) =~= line@.skip(i + 1));
                reveal_strlit("content-length");
            }
            let name = text::slice_text(line, 0, i);
            let wanted = "content-length";
            if i != 14 || !text::ends_with_lower(&name, wanted) {
                proof {
                    if text::lower(name@) == wanted@ {
                        assert(text::lower(name@).len() == name@.len());
                        assert(wanted@.is_suffix_of(text::lower(name@)));
                    }
                }
                return None;
            }
            proof {
                assert(text::lower(name@) =~= wanted@);
            }
            let value = text::trim_text(&text::slice_text(line, i + 1, total));
            match text::parse_unsigned_text(&value, usize::MAX as u64) {
                Some(length) => Some(length as usize),
                None => None,
            }
        },
        None => None,
    }
}

/// The length that the first line to give one gives to the body, or zero.
fn read_body_length(head: String) -> (result: usize)
    ensures
        result == body_length(head@),
{
    let ghost whole = head@;
    let mut rest = head;
    while !rest.as_str().is_empty()
        invariant
            whole == head@,
            body_length(whole) == body_length(rest@),
        decreases rest@.len(),
    {
        let (line, later) = cut_line(&rest);
        if let Some(length) = read_length(&line) {
            return length;
        }
        proof {
            text::lemma_find(rest@, seq!['\n']);
        }
        rest = later;
    }
    0
}

/// Where the head of a request ends, and the length of the body that it announces.
pub fn parse_http_head(bytes: &[u8]) -> (result: Option<(usize, usize)>)
    ensures
        match result {
            Some((end, length)) => is_head(bytes@, end as int, length as nat) && reads_utf8(
                bytes@.take(end as int),
            ),
            None => forall|i: int| !#[trigger] ends_head(bytes@, i),
        },
{
    match find_head_end(bytes) {
        Some(end) => {
            let head = vstd::slice::slice_subrange(bytes, 0, end);
            assert(head@ =~= bytes@.take(end as int));
            let length = read_body_length(text::decode_lossy(head));
            Some((end, length))
        },
        None => None,
    }
}

/// A head that is complete stays as it is when more bytes follow.
pub proof fn law_head_is_stable(bytes: Seq<u8>, more: Seq<u8>, end: int, length: nat)
    requires
        is_head(bytes, end, length),
    ensures
        is_head(bytes + more, end, length),
{
    assert((bytes + more).take(end) =~= bytes.take(end));
    assert forall|j: int| 0 <= j < end implies !#[trigger] ends_head(bytes + more, j) by {
        assert(!ends_head(bytes, j));
    }
}

/// A request has one head.
proof fn lemma_one_head(bytes: Seq<u8>, end: int, length: nat, other_end: int, other_length: nat)
    requires
        is_head(bytes, end, length),
        is_head(bytes, other_end, other_length),
    ensures
        end == other_end,
        length == other_length,
{
    if end < other_end {
        assert(!ends_head(bytes, end));
    } else if other_end < end {
        assert(!ends_head(bytes, other_end));
    }
}

// ===== Reading a request =====

/// What to do with a request of which some bytes have come.
#[derive(Debug, Clone, Copy, PartialEq, Eq, Structural)]
pub enum ReadStep {
    /// Read on, unless the sender has closed the connection.
    More,
    /// Answer it.
    Complete,
    /// Give up: it is too large.
    TooLarge,
}

/// Whether a head is complete.
pub open spec fn has_head(bytes: Seq<u8>) -> bool {
    exists|end: int| ends_head(bytes, end)
}

/// Whether a request is complete: it has its head, and its body has the length announced.
pub open spec fn is_complete(bytes: Seq<u8>) -> bool {
    exists|end: int, length: nat| #[trigger] is_head(bytes, end, length) && end + length <= bytes.len()
}

/// What to do with a request of which `bytes` have come.
pub open spec fn read_step(bytes: Seq<u8>) -> ReadStep {
    if is_complete(bytes) {
        ReadStep::Complete
    } else if !has_head(bytes) && bytes.len() > HEAD_LIMIT {
        ReadStep::TooLarge
    } else {
        ReadStep::More
    }
}

/// A request while it is read.
pub struct RequestReader {
    bytes: Vec<u8>,
    head: Option<(usize, usize)>,
}

impl View for RequestReader {
    type V = Seq<u8>;

    closed spec fn view(&self) -> Seq<u8> {
        self.bytes@
    }
}

impl RequestReader {
    /// Whether what is remembered of the head is true.
    pub closed spec fn wf(self) -> bool {
        match self.head {
            Some((end, length)) => is_head(self.bytes@, end as int, length as nat) && reads_utf8(
                self.bytes@.take(end as int),
            ),
            None => !has_head(self.bytes@),
        }
    }

    /// No bytes have come.
    pub fn new() -> (result: RequestReader)
        ensures
            result@ == Seq::<u8>::empty(),
            result.wf(),
    {
        RequestReader { bytes: Vec::new(), head: None }
    }

    /// Takes the bytes that came next.
    pub fn feed(&mut self, chunk: &[u8]) -> (step: ReadStep)
        requires
            old(self).wf(),
        ensures
            final(self)@ == old(self)@ + chunk@,
            final(self).wf(),
            step == read_step(final(self)@),
            forall|end: int| #[trigger]
                first_ends_head(final(self)@, end) ==> reads_utf8(final(self)@.take(end)),
    {
        let ghost before = self.bytes@;
        self.bytes.extend_from_slice(chunk);
        assert(self.bytes@ =~= before + chunk@);
        match self.head {
            Some((end, length)) => {
                proof {
                    law_head_is_stable(before, chunk@, end as int, length as nat);
                    assert((before + chunk@).take(end as int) =~= before.take(end as int));
                }
            },
            None => {
                self.head = parse_http_head(self.bytes.as_slice());
            },
        }
        match self.head {
            Some((end, length)) => {
                proof {
                    assert forall|e: int, l: nat| #[trigger] is_head(
                        self.bytes@,
                        e,
                        l,
                    ) implies e == end && l == length by {
                        lemma_one_head(self.bytes@, end as int, length as nat, e, l);
                    }
                    assert(ends_head(self.bytes@, end as int));
                    assert forall|e: int| #[trigger] first_ends_head(
                        self.bytes@,
                        e,
                    ) implies reads_utf8(self.bytes@.take(e)) by {
                        assert(is_head(
                            self.bytes@,
                            e,
                            body_length(text::lossy_text(self.bytes@.take(e))),
                        ));
                    }
                }
                if self.bytes.len() - end < length {
                    ReadStep::More
                } else {
                    ReadStep::Complete
                }
            },
            None => {
                proof {
                    assert forall|e: int, l: nat| !#[trigger] is_head(self.bytes@, e, l) by {
                        assert(!ends_head(self.bytes@, e));
                    }
                }
                if self.bytes.len() > HEAD_LIMIT {
                    ReadStep::TooLarge
                } else {
                    ReadStep::More
                }
            },
        }
    }

    /// What the request asks for.
    pub fn route(&self) -> (result: Route)
        ensures
            result@ == route_of(text::lossy_text(self@)),
            reads_utf8(self@),
    {
        route_request(&text::decode_lossy(self.bytes.as_slice()))
    }
}

/// A request that is complete stays so when more bytes follow, and one that has its head is never
/// too large.
pub proof fn law_reading_goes_forward(bytes: Seq<u8>, more: Seq<u8>)
    ensures
        read_step(bytes) == ReadStep::Complete ==> read_step(bytes + more) == ReadStep::Complete,
        has_head(bytes) ==> read_step(bytes + more) != ReadStep::TooLarge,
{
    if is_complete(bytes) {
        let (end, length) = choose|end: int, length: nat| #[trigger]
            is_head(bytes, end, length) && end + length <= bytes.len();
        law_head_is_stable(bytes, more, end, length);
        assert(is_head(bytes + more, end, length));
    }
    if has_head(bytes) {
        let end = choose|end: int| ends_head(bytes, end);
        assert(ends_head(bytes + more, end));
    }
}

// ===== What a request asks for =====

/// What a request asks for.
#[derive(Debug, PartialEq, Eq)]
pub enum Route {
    /// Whether the bridge is there.
    Health,
    /// The next command; the body tells of the tabs.
    Poll(String),
    /// To take the result of a command, which the body tells.
    Result(String),
    /// Something that the bridge does not know.
    Unknown,
}

/// What a request asks for.
pub enum RouteView {
    Health,
    Poll(Seq<char>),
    Result(Seq<char>),
    Unknown,
}

impl View for Route {
    type V = RouteView;

    open spec fn view(&self) -> RouteView {
        match *self {
            Route::Health => RouteView::Health,
            Route::Poll(body) => RouteView::Poll(body@),
            Route::Result(body) => RouteView::Result(body@),
            Route::Unknown => RouteView::Unknown,
        }
    }
}

/// The second word of a line.
pub open spec fn second_word(line: Seq<char>) -> Seq<char> {
    let behind_first = text::trim_start_by(
        text::trim_start_by(line, text::space()),
        text::visible(),
    );
    text::take_while(text::trim_start_by(behind_first, text::space()), text::visible())
}

/// The path that a request names: the second word of its first line, or the root.
pub open spec fn path_of(request: Seq<char>) -> Seq<char> {
    let word = second_word(first_line(request));
    if word.len() == 0 {
        "/"@
    } else {
        word
    }
}

/// The body of a request: what follows the first empty line.
pub open spec fn body_of(request: Seq<char>) -> Seq<char> {
    match text::find_text(request, "\r\n\r\n"@) {
        Some(i) => request.skip(i + "\r\n\r\n"@.len()),
        None => Seq::empty(),
    }
}

/// What the text of a request asks for.
pub open spec fn route_of(request: Seq<char>) -> RouteView {
    if path_of(request) == "/health"@ {
        RouteView::Health
    } else if path_of(request) == "/api/poll"@ {
        RouteView::Poll(body_of(request))
    } else if path_of(request) == "/api/result"@ {
        RouteView::Result(body_of(request))
    } else {
        RouteView::Unknown
    }
}

/// The position from `from` on of the first character that is white space, or that is not, as
/// `space` tells.
fn skip_run(chars: &Vec<char>, from: usize, space: bool) -> (result: usize)
    requires
        from <= chars@.len(),
    ensures
        from <= result <= chars@.len(),
        forall|i: int| from <= i < result ==> text::is_whitespace(#[trigger] chars@[i]) == space,
        result < chars@.len() ==> text::is_whitespace(chars@[result as int]) != space,
{
    let mut i: usize = from;
    while i < chars.len() && text::whitespace(chars[i]) == space
        invariant
            from <= i <= chars@.len(),
            forall|j: int| from <= j < i ==> text::is_whitespace(#[trigger] chars@[j]) == space,
        decreases chars@.len() - i,
    {
        i = i + 1;
    }
    i
}

/// The second word of a line.
fn find_second_word(line: &str) -> (result: String)
    ensures
        result@ == second_word(line@),
{
    let chars = text::chars_of(line);
    let first = skip_run(&chars, 0, true);
    let behind = skip_run(&chars, first, false);
    let second = skip_run(&chars, behind, true);
    let end = skip_run(&chars, second, false);
    proof {
        let s = line@;
        text::lemma_trim_start(s, text::space(), first as int);
        text::lemma_trim_start(s.skip(first as int), text::visible(), behind - first);
        assert(s.skip(first as int).skip(behind - first) =~= s.skip(behind as int));
        text::lemma_trim_start(s.skip(behind as int), text::space(), second - behind);
        assert(s.skip(behind as int).skip(second - behind) =~= s.skip(second as int));
        text::lemma_trim_start(s.skip(second as int), text::visible(), end - second);
        assert(s.skip(second as int).skip(end - second) =~= s.skip(end as int));
        assert(s.skip(second as int).take(end - second) =~= s.subrange(second as int, end as int));
    }
    text::slice_text(line, second, end)
}

/// What the text of a request asks for.
pub fn route_request(request: &str) -> (result: Route)
    ensures
        result@ == route_of(request@),
{
    let (line, _) = cut_line(request);
    let word = find_second_word(&line);
    let path = if word.as_str().is_empty() {
        "/".to_owned()
    } else {
        word
    };
    let body = match text::find(request, "\r\n\r\n") {
        Some(i) => {
            let total = text::chars_of(request).len();
            let start = i + text::chars_of("\r\n\r\n").len();
            assert(request@.subrange(start as int, total as int) =~= request@.skip(start as int));
            text::slice_text(request, start, total)
        },
        None => String::new(),
    };
    if text::same_text(&path, "/health") {
        Route::Health
    } else if text::same_text(&path, "/api/poll") {
        Route::Poll(body)
    } else if text::same_text(&path, "/api/result") {
        Route::Result(body)
    } else {
        Route::Unknown
    }
}

// ===== Responses =====

/// The answer that all is well.
pub open spec fn ok_json() -> JsonView {
    json::empty_object().with("ok"@, JsonView::Bool(true))
}

/// The answer to a request that the bridge does not know.
pub open spec fn not_found_json() -> JsonView {
    json::empty_object().with("ok"@, JsonView::Bool(false)).with(
        "error"@,
        JsonView::Str("not found"@),
    )
}

/// The answer that all is well.
pub fn ok_reply() -> (result: Json)
    ensures
        result@ == ok_json(),
{
    Json::object().with("ok", Json::Bool(true))
}

/// The answer to a request that the bridge does not know.
pub fn not_found_reply() -> (result: Json)
    ensures
        result@ == not_found_json(),
{
    Json::object().with("ok", Json::Bool(false)).with("error", Json::string("not found"))
}

/// A line with the line feed and the carriage return that end it.
pub open spec fn ended_line(line: Seq<char>) -> Seq<char> {
    line + "\r\n"@
}

/// The head of a response whose body has so many bytes.
pub open spec fn response_head(length: nat) -> Seq<char> {
    ended_line("HTTP/1.1 200 OK"@) + ended_line("Content-Type: application/json; charset=utf-8"@)
        + ended_line("Access-Control-Allow-Origin: *"@) + ended_line(
        "Content-Length: "@ + text::decimal(length),
    ) + ended_line("Connection: close"@) + ended_line(""@)
}

/// The text of a response with a body: its head, which tells the length of the body in bytes, and
/// the body.
pub open spec fn response_text(body: Seq<char>) -> Seq<char> {
    response_head(text::utf8_len(body)) + body
}

/// Appends a line to a text.
fn push_line(text: &mut String, line: &str)
    ensures
        final(text)@ == old(text)@ + ended_line(line@),
{
    let ghost before = text@;
    text.append(line);
    text.append("\r\n");
    assert(text@ =~= before + ended_line(line@));
}

/// The text of a response with a body.
pub fn write_response(body: &str) -> (result: String)
    ensures
        result@ == response_text(body@),
{
    let length = text::decimal_text(body.as_bytes().len() as u64);
    let mut response = String::new();
    push_line(&mut response, "HTTP/1.1 200 OK");
    push_line(&mut response, "Content-Type: application/json; charset=utf-8");
    push_line(&mut response, "Access-Control-Allow-Origin: *");
    push_line(&mut response, &"Content-Length: ".to_owned().concat(&length));
    push_line(&mut response, "Connection: close");
    push_line(&mut response, "");
    assert(response@ =~= response_head(text::utf8_len(body@)));
    response.append(body);
    response
}

/// The text of a response that carries a value.
pub fn write_json_response(value: &Json) -> (result: String)
    ensures
        result@ == response_text(json_text::printed_json(value@)),
{
    write_response(&json_text::write_json(value))
}

// ===== What holds of responses =====

/// Whether a text is one line: it has no line feed and no carriage return.
spec fn is_line(s: Seq<char>) -> bool {
    forall|i: int| 0 <= i < s.len() ==> #[trigger] s[i] != '\r' && s[i] != '\n'
}

/// The first line of a text that starts with an ended line is that line.
proof fn lemma_first_line(line: Seq<char>, rest: Seq<char>)
    requires
        is_line(line),
    ensures
        first_line(ended_line(line) + rest) == line,
        later_lines(ended_line(line) + rest) == rest,
{
    reveal_strlit("\r\n");
    let whole = ended_line(line) + rest;
    let end = line.len() as int + 1;
    let feed = seq!['\n'];
    assert(whole.subrange(end, end + 1) =~= feed);
    assert forall|j: int| 0 <= j < end implies !#[trigger] text::occurs_at(whole, feed, j) by {
        if text::occurs_at(whole, feed, j) {
            assert(whole.subrange(j, j + 1)[0] == whole[j]);
            if j < line.len() {
                assert(whole[j] == line[j]);
            }
        }
    }
    text::lemma_find_first(whole, feed, end);
    assert(whole[end - 1] == '\r');
    assert(whole.take(end - 1) =~= line);
    assert(whole.skip(end + 1) =~= rest);
}

/// An empty line is looked for behind an ended line that is followed by another line.
proof fn lemma_find_behind_line(line: Seq<char>, rest: Seq<char>, i: int)
    requires
        is_line(line),
        rest.len() > 0 && rest[0] != '\r',
        text::find_text(rest, "\r\n\r\n"@) == Some(i),
    ensures
        text::find_text(ended_line(line) + rest, "\r\n\r\n"@) == Some(line.len() + 2 + i),
{
    reveal_strlit("\r\n");
    reveal_strlit("\r\n\r\n");
    let marker = "\r\n\r\n"@;
    let whole = ended_line(line) + rest;
    let shift = line.len() as int + 2;
    text::lemma_find(rest, marker);
    assert(whole.subrange(shift + i, shift + i + 4) =~= rest.subrange(i, i + 4));
    assert forall|j: int| 0 <= j < shift + i implies !#[trigger] text::occurs_at(
        whole,
        marker,
        j,
    ) by {
        if text::occurs_at(whole, marker, j) {
            let found = whole.subrange(j, j + 4);
            assert(found[0] == whole[j] && found[2] == whole[j + 2]);
            if j < line.len() {
                assert(whole[j] == line[j]);
            } else if j == line.len() {
                assert(whole[j + 2] == rest[0]);
            } else if j == line.len() + 1 {
                assert(whole[j] == '\n');
            } else {
                assert(rest.subrange(j - shift, j - shift + 4) =~= found);
                assert(text::occurs_at(rest, marker, j - shift));
            }
        }
    }
    text::lemma_find_first(whole, marker, shift + i);
}

/// A line whose name has another length than that of the wanted one gives no length.
proof fn lemma_other_line(line: Seq<char>, colon: int)
    requires
        0 <= colon < line.len(),
        line[colon] == ':',
        forall|i: int| 0 <= i < colon ==> #[trigger] line[i] != ':',
        colon != 14,
    ensures
        length_in_line(line) is None,
{
    reveal_strlit("content-length");
    assert(line.subrange(colon, colon + 1) =~= seq![':']);
    assert forall|j: int| 0 <= j < colon implies !#[trigger] text::occurs_at(
        line,
        seq![':'],
        j,
    ) by {
        assert(line.subrange(j, j + 1)[0] == line[j]);
    }
    text::lemma_find_first(line, seq![':'], colon);
    assert(text::lower(line.take(colon)).len() == colon);
}

/// The line that tells a length gives that length.
proof fn lemma_length_line(length: nat)
    requires
        length <= usize::MAX,
    ensures
        length_in_line("Content-Length: "@ + text::decimal(length)) == Some(length),
        is_line("Content-Length: "@ + text::decimal(length)),
{
    reveal_strlit("Content-Length: ");
    reveal_strlit("content-length");
    let digits = text::decimal(length);
    let line = "Content-Length: "@ + digits;
    text::lemma_decimal_round_trip(length);
    assert forall|i: int| 0 <= i < line.len() implies #[trigger] line[i] != '\r' && line[i]
        != '\n' by {
        if i >= 16 {
            assert(text::is_digit(digits[i - 16]));
        }
    }
    let colon = seq![':'];
    assert(line.subrange(14, 15) =~= colon);
    assert forall|j: int| 0 <= j < 14 implies !#[trigger] text::occurs_at(line, colon, j) by {
        assert(line.subrange(j, j + 1)[0] == line[j]);
    }
    text::lemma_find_first(line, colon, 14);
    assert(text::lower(line.take(14)) =~= "content-length"@);
    let value = line.skip(15);
    assert(value =~= seq![' '] + digits);
    assert(text::is_digit(digits[0]));
    assert(text::is_digit(digits[digits.len() - 1]));
    text::lemma_trim_start(value, text::space(), 1);
    assert(value.skip(1) =~= digits);
    text::lemma_trim_end(digits, text::space(), digits.len() as int);
    assert(digits.take(digits.len() as int) =~= digits);
    assert(text::trim(value) == digits);
}

/// The other lines of the head of a response give no length.
proof fn lemma_plain_lines()
    ensures
        is_line("HTTP/1.1 200 OK"@),
        length_in_line("HTTP/1.1 200 OK"@) is None,
        is_line("Content-Type: application/json; charset=utf-8"@),
        length_in_line("Content-Type: application/json; charset=utf-8"@) is None,
        is_line("Access-Control-Allow-Origin: *"@),
        length_in_line("Access-Control-Allow-Origin: *"@) is None,
        is_line("Connection: close"@),
{
    reveal_strlit("HTTP/1.1 200 OK");
    reveal_strlit("Content-Type: application/json; charset=utf-8");
    reveal_strlit("Access-Control-Allow-Origin: *");
    reveal_strlit("Connection: close");
    let status = "HTTP/1.1 200 OK"@;
    text::lemma_find(status, seq![':']);
    if let Some(i) = text::find_text(status, seq![':']) {
        assert(status.subrange(i, i + 1)[0] == status[i]);
    }
    lemma_other_line("Content-Type: application/json; charset=utf-8"@, 12);
    lemma_other_line("Access-Control-Allow-Origin: *"@, 27);
}

/// A response can be read: its body is what follows its first empty line, and its head tells the
/// length of the body in bytes.
pub proof fn law_response_is_framed(body: Seq<char>)
    requires
        text::utf8_len(body) <= usize::MAX,
    ensures
        body_of(response_text(body)) == body,
        body_length(response_head(text::utf8_len(body))) == text::utf8_len(body),
{
    let length = text::utf8_len(body);
    let status = "HTTP/1.1 200 OK"@;
    let kind = "Content-Type: application/json; charset=utf-8"@;
    let origin = "Access-Control-Allow-Origin: *"@;
    let size = "Content-Length: "@ + text::decimal(length);
    let close = "Connection: close"@;
    lemma_plain_lines();
    lemma_length_line(length);
    let behind_size = ended_line(close) + ended_line(""@);
    let behind_origin = ended_line(size) + behind_size;
    let behind_kind = ended_line(origin) + behind_origin;
    let behind_status = ended_line(kind) + behind_kind;
    assert(response_head(length) =~= ended_line(status) + behind_status);
    assert(body_length(response_head(length)) == length) by {
        lemma_first_line(status, behind_status);
        lemma_first_line(kind, behind_kind);
        lemma_first_line(origin, behind_origin);
        lemma_first_line(size, behind_size);
        reveal_with_fuel(body_length, 5);
        reveal_strlit("\r\n");
    }
    let last = ended_line(close) + (ended_line(""@) + body);
    reveal_strlit("\r\n");
    reveal_strlit("\r\n\r\n");
    reveal_strlit("");
    reveal_strlit("Connection: close");
    reveal_strlit("Content-Length: ");
    reveal_strlit("Access-Control-Allow-Origin: *");
    reveal_strlit("Content-Type: application/json; charset=utf-8");
    let marker = "\r\n\r\n"@;
    assert(last =~= close + marker + body);
    assert(!text::contains_text(close + marker.drop_last(), marker)) by {
        let before = close + marker.drop_last();
        if text::contains_text(before, marker) {
            let i = choose|i: int| text::occurs_at(before, marker, i);
            assert(before.subrange(i, i + 4)[0] == before[i]);
        }
    }
    text::lemma_find_behind(close, marker, body);
    let a = ended_line(size) + last;
    let b = ended_line(origin) + a;
    let c = ended_line(kind) + b;
    lemma_find_behind_line(size, last, close.len() as int);
    lemma_find_behind_line(origin, a, (size.len() + 2 + close.len()) as int);
    lemma_find_behind_line(kind, b, (origin.len() + 2 + size.len() + 2 + close.len()) as int);
    lemma_find_behind_line(
        status,
        c,
        (kind.len() + 2 + origin.len() + 2 + size.len() + 2 + close.len()) as int,
    );
    assert(response_text(body) =~= ended_line(status) + c);
    let head = response_head(length);
    assert(response_text(body).skip(head.len() as int) =~= body);
}

}
