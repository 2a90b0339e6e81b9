//! What holds of the requests and responses of the bridge, stated on their bytes and texts.

use crate::http::{ReadStep, Route, RouteView};
use crate::json::JsonView;
use crate::{http, text, text_laws};
use vstd::prelude::*;
use vstd::string::*;

verus! {

// ===== The head of a request =====

/// The four bytes of the empty line that ends a head.
pub open spec fn empty_line() -> Seq<u8> {
    seq![13u8, 10u8, 13u8, 10u8]
}

/// Whether the empty line that ends a head stands in bytes.
pub open spec fn has_empty_line(bytes: Seq<u8>) -> bool {
    exists|i: int| empty_line_at(bytes, i)
}

/// Whether the empty line that ends a head stands at a position.
pub open spec fn empty_line_at(bytes: Seq<u8>, i: int) -> bool {
    0 <= i && i + 4 <= bytes.len() && bytes.subrange(i, i + 4) == empty_line()
}

/// A head ends behind an empty line.
proof fn lemma_ends_head(bytes: Seq<u8>, i: int)
    ensures
        http::ends_head(bytes, i + 4) <==> empty_line_at(bytes, i),
{
    if 0 <= i && i + 4 <= bytes.len() {
        let part = bytes.subrange(i, i + 4);
        assert(part[0] == bytes[i] && part[1] == bytes[i + 1] && part[2] == bytes[i + 2] && part[3]
            == bytes[i + 3]);
        if http::ends_head(bytes, i + 4) {
            assert(part =~= empty_line());
        }
    }
}

/// No head ends before its first empty line does.
proof fn lemma_no_earlier_end(before: Seq<u8>, rest: Seq<u8>, j: int)
    requires
        !has_empty_line(before + seq![13u8, 10u8, 13u8]),
        0 <= j < before.len() + 4,
    ensures
        !http::ends_head(before + empty_line() + rest, j),
{
    let bytes = before + empty_line() + rest;
    let short = before + seq![13u8, 10u8, 13u8];
    if http::ends_head(bytes, j) {
        lemma_ends_head(bytes, j - 4);
        assert(short.subrange(j - 4, j) =~= bytes.subrange(j - 4, j));
        assert(empty_line_at(short, j - 4));
    }
}

/// The head of a request ends behind its first empty line, and announces the length that its text
/// tells.
pub proof fn law_head_ends_with_the_empty_line(
    before: Seq<u8>,
    rest: Seq<u8>,
    end: int,
    length: nat,
)
    requires
        !has_empty_line(before + seq![13u8, 10u8, 13u8]),
    ensures
        http::is_head(before + empty_line() + rest, end, length) <==> end == before.len() + 4
            && length == http::body_length(text::lossy_text(before + empty_line())),
{
    let bytes = before + empty_line() + rest;
    let n = before.len() as int;
    assert(http::ends_head(bytes, n + 4));
    assert forall|j: int| 0 <= j < n + 4 implies !#[trigger] http::ends_head(bytes, j) by {
        lemma_no_earlier_end(before, rest, j);
    }
    assert(http::first_ends_head(bytes, n + 4));
    assert(bytes.take(n + 4) =~= before + empty_line());
    if http::first_ends_head(bytes, end) {
        if end > n + 4 {
            assert(!http::ends_head(bytes, n + 4));
        } else if end < n + 4 {
            assert(!http::ends_head(bytes, end));
        }
    }
}

/// A request without an empty line has no head yet.
pub proof fn law_no_head_without_empty_line(bytes: Seq<u8>)
    ensures
        http::has_head(bytes) <==> has_empty_line(bytes),
{
    if http::has_head(bytes) {
        let end = choose|end: int| http::ends_head(bytes, end);
        lemma_ends_head(bytes, end - 4);
        assert(empty_line_at(bytes, end - 4));
    }
    if has_empty_line(bytes) {
        let i = choose|i: int| empty_line_at(bytes, i);
        lemma_ends_head(bytes, i);
        assert(http::ends_head(bytes, i + 4));
    }
}

/// A request is answered exactly when its head and as many further bytes have come as the head
/// announces. Without a head it is given up when more than a mebibyte has come. Else more is read.
pub proof fn law_request_is_read_to_its_end(
    before: Seq<u8>,
    rest: Seq<u8>,
    headless: Seq<u8>,
)
    requires
        !has_empty_line(before + seq![13u8, 10u8, 13u8]),
        !has_empty_line(headless),
    ensures
        ({
            let length = http::body_length(text::lossy_text(before + empty_line()));
            let step = http::read_step(before + empty_line() + rest);
            &&& length <= rest.len() ==> step == ReadStep::Complete
            &&& length > rest.len() ==> step == ReadStep::More
        }),
        headless.len() > 1_048_576 ==> http::read_step(headless) == ReadStep::TooLarge,
        headless.len() <= 1_048_576 ==> http::read_step(headless) == ReadStep::More,
{
    let bytes = before + empty_line() + rest;
    let length = http::body_length(text::lossy_text(before + empty_line()));
    let end = before.len() as int + 4;
    law_head_ends_with_the_empty_line(before, rest, end, length);
    assert(http::is_head(bytes, end, length));
    assert(http::ends_head(bytes, end));
    if http::is_complete(bytes) {
        let (e, l) = choose|e: int, l: nat| #[trigger]
            http::is_head(bytes, e, l) && e + l <= bytes.len();
        law_head_ends_with_the_empty_line(before, rest, e, l);
    }
    law_no_head_without_empty_line(headless);
    if http::is_complete(headless) {
        let (e, l) = choose|e: int, l: nat| #[trigger]
            http::is_head(headless, e, l) && e + l <= headless.len();
        assert(http::ends_head(headless, e));
    }
}

// ===== Lines =====

/// Whether a text has no line feed.
pub open spec fn is_one_line(s: Seq<char>) -> bool {
    forall|i: int| 0 <= i < s.len() ==> #[trigger] s[i] != '\n'
}

/// A line ends with a line feed, or with a carriage return and a line feed, which do not belong to
/// it. A text without a line feed is one line.
pub proof fn law_lines_end_with_a_line_feed(line: Seq<char>, rest: Seq<char>)
    requires
        is_one_line(line),
    ensures
        line.len() > 0 && line.last() == '\r' ==> http::first_line(line + seq!['\n'] + rest)
            == line.drop_last(),
        !(line.len() > 0 && line.last() == '\r') ==> http::first_line(line + seq!['\n'] + rest)
            == line,
        http::later_lines(line + seq!['\n'] + rest) == rest,
        http::first_line(line) == line,
        http::later_lines(line).len() == 0,
{
    let feed = seq!['\n'];
    let whole = line + feed + rest;
    let n = line.len() as int;
    assert(whole.subrange(n, n + 1) =~= feed);
    assert forall|j: int| 0 <= j < n implies !#[trigger] text::occurs_at(whole, feed, j) by {
        assert(whole.subrange(j, j + 1)[0] == line[j]);
    }
    text::lemma_find_first(whole, feed, n);
    assert(whole.take(n) =~= line);
    assert(whole.skip(n + 1) =~= rest);
    if n > 0 {
        assert(whole[n - 1] == line.last());
        assert(whole.take(n - 1) =~= line.drop_last());
    }
    text::lemma_find(line, feed);
    if let Some(i) = text::find_text(line, feed) {
        assert(line.subrange(i, i + 1)[0] == line[i]);
    }
}

/// A line gives a length where the name before its first colon is `content-length`, whatever the
/// case of its letters, and a number stands behind the colon, with or without white space around
/// it.
pub proof fn law_length_stands_behind_its_name(name: Seq<char>, value: Seq<char>)
    requires
        forall|i: int| 0 <= i < name.len() ==> #[trigger] name[i] != ':',
    ensures
        text::lower(name) == "content-length"@ ==> http::length_in_line(name + seq![':'] + value)
            == text::parse_unsigned(text::trim(value), usize::MAX as nat),
        text::lower(name) != "content-length"@ ==> http::length_in_line(
            name + seq![':'] + value,
        ) is None,
        http::length_in_line(name) is None,
{
    let colon = seq![':'];
    let line = name + colon + value;
    let n = name.len() as int;
    assert(line.subrange(n, n + 1) =~= colon);
    assert forall|j: int| 0 <= j < n implies !#[trigger] text::occurs_at(line, colon, j) by {
        assert(line.subrange(j, j + 1)[0] == name[j]);
    }
    text::lemma_find_first(line, colon, n);
    assert(line.take(n) =~= name);
    assert(line.skip(n + 1) =~= value);
    text::lemma_find(name, colon);
    if let Some(i) = text::find_text(name, colon) {
        assert(name.subrange(i, i + 1)[0] == name[i]);
    }
}

/// The length of a body is the one that the first line to give one gives, and zero without such a
/// line.
pub proof fn law_first_length_counts(line: Seq<char>, rest: Seq<char>)
    requires
        is_one_line(line),
    ensures
        ({
            let whole = line + seq!['\n'] + rest;
            let own = http::length_in_line(http::first_line(whole));
            &&& own matches Some(length) ==> http::body_length(whole) == length
            &&& own is None ==> http::body_length(whole) == http::body_length(rest)
        }),
        line.len() > 0 ==> (http::length_in_line(line) matches Some(length) ==> http::body_length(
            line,
        ) == length),
        line.len() > 0 && http::length_in_line(line) is None ==> http::body_length(line) == 0,
        http::body_length(Seq::empty()) == 0,
{
    reveal_with_fuel(http::body_length, 2);
    law_lines_end_with_a_line_feed(line, rest);
}

// ===== What a request asks for =====

/// Whether a text is characters other than white space.
pub open spec fn is_word(s: Seq<char>) -> bool {
    forall|i: int| 0 <= i < s.len() ==> !text::is_whitespace(#[trigger] s[i])
}

/// The second word of a line is what stands behind the first word and the white space behind that,
/// up to the next white space.
pub proof fn law_second_word(
    before: Seq<char>,
    first: Seq<char>,
    between: Seq<char>,
    second: Seq<char>,
    rest: Seq<char>,
)
    requires
        text_laws::is_blank(before),
        is_word(first),
        first.len() > 0,
        text_laws::is_blank(between),
        between.len() > 0,
        is_word(second),
        rest.len() > 0 ==> text::is_whitespace(rest[0]),
        second.len() == 0 ==> rest.len() == 0,
    ensures
        http::second_word(before + first + between + second + rest) == second,
{
    let line = before + first + between + second + rest;
    let a = before.len() as int;
    let b = a + first.len();
    let c = b + between.len();
    let d = c + second.len();
    assert forall|i: int| 0 <= i < a implies text::space()(#[trigger] line[i]) by {
        assert(line[i] == before[i]);
    }
    assert(line[a] == first[0]);
    text::lemma_trim_start(line, text::space(), a);
    let from_first = line.skip(a);
    assert forall|i: int| 0 <= i < first.len() implies text::visible()(#[trigger] from_first[i]) by {
        assert(from_first[i] == first[i]);
    }
    assert(from_first[first.len() as int] == between[0]);
    text::lemma_trim_start(from_first, text::visible(), first.len() as int);
    assert(from_first.skip(first.len() as int) =~= line.skip(b));
    let from_between = line.skip(b);
    assert forall|i: int| 0 <= i < between.len() implies text::space()(
        #[trigger] from_between[i],
    ) by {
        assert(from_between[i] == between[i]);
    }
    if second.len() > 0 {
        assert(from_between[between.len() as int] == second[0]);
    }
    text::lemma_trim_start(from_between, text::space(), between.len() as int);
    assert(from_between.skip(between.len() as int) =~= line.skip(c));
    let from_second = line.skip(c);
    assert forall|i: int| 0 <= i < second.len() implies text::visible()(
        #[trigger] from_second[i],
    ) by {
        assert(from_second[i] == second[i]);
    }
    if rest.len() > 0 {
        assert(from_second[second.len() as int] == rest[0]);
    }
    text::lemma_trim_start(from_second, text::visible(), second.len() as int);
    assert(from_second.take(second.len() as int) =~= second);
    assert(from_second.skip(second.len() as int) =~= line.skip(d));
}

/// A line of one word, or of none, has no second word.
pub proof fn law_no_second_word(before: Seq<char>, only: Seq<char>)
    requires
        text_laws::is_blank(before),
        is_word(only),
    ensures
        http::second_word(before + only).len() == 0,
{
    let line = before + only;
    let a = before.len() as int;
    assert forall|i: int| 0 <= i < a implies text::space()(#[trigger] line[i]) by {
        assert(line[i] == before[i]);
    }
    if only.len() > 0 {
        assert(line[a] == only[0]);
    }
    text::lemma_trim_start(line, text::space(), a);
    assert(line.skip(a) =~= only);
    text::lemma_trim_start(only, text::visible(), only.len() as int);
    let nothing = only.skip(only.len() as int);
    assert(nothing =~= Seq::empty());
    text::lemma_trim_start(nothing, text::space(), 0);
    assert(nothing.skip(0) =~= nothing);
    text::lemma_trim_start(nothing, text::visible(), 0);
}

/// The path is the second word of the first line, or the root.
pub proof fn law_path_is_the_second_word(request: Seq<char>)
    ensures
        ({
            let word = http::second_word(http::first_line(request));
            &&& word.len() > 0 ==> http::path_of(request) == word
            &&& word.len() == 0 ==> http::path_of(request) == "/"@
        }),
{
}

/// The body is what follows the first empty line. Without an empty line there is none.
pub proof fn law_body_follows_the_empty_line(
    head: Seq<char>,
    body: Seq<char>,
    headless: Seq<char>,
)
    requires
        !text::contains_text(head + "\r\n\r\n"@.drop_last(), "\r\n\r\n"@),
        !text::contains_text(headless, "\r\n\r\n"@),
    ensures
        http::body_of(head + "\r\n\r\n"@ + body) == body,
        http::body_of(headless).len() == 0,
{
    reveal_strlit("\r\n\r\n");
    let marker = "\r\n\r\n"@;
    text::lemma_find_behind(head, marker, body);
    assert((head + marker + body).skip(head.len() as int + 4) =~= body);
    text::lemma_find(headless, marker);
}

/// What a request asks for goes by its path alone, and its body is handed on as it is.
pub proof fn law_path_tells_what_is_asked_for(request: Seq<char>)
    ensures
        http::path_of(request) == "/health"@ ==> http::route_of(request) is Health,
        http::path_of(request) == "/api/poll"@ ==> http::route_of(request) == RouteView::Poll(
            http::body_of(request),
        ),
        http::path_of(request) == "/api/result"@ ==> http::route_of(request) == RouteView::Result(
            http::body_of(request),
        ),
        http::path_of(request) != "/health"@ && http::path_of(request) != "/api/poll"@
            && http::path_of(request) != "/api/result"@ ==> http::route_of(request) is Unknown,
{
    reveal_strlit("/health");
    reveal_strlit("/api/poll");
    reveal_strlit("/api/result");
    assert("/health"@.len() == 7 && "/api/poll"@.len() == 9 && "/api/result"@.len() == 11);
}

/// What a request asks for is what it holds.
pub proof fn law_route_is_its_contents(body: String)
    ensures
        Route::Health@ is Health,
        Route::Poll(body)@ == RouteView::Poll(body@),
        Route::Result(body)@ == RouteView::Result(body@),
        Route::Unknown@ is Unknown,
{
}

// ===== Responses =====

/// The answers of the bridge itself, with all their fields.
pub proof fn law_answers_have_these_fields()
    ensures
        http::ok_json() == JsonView::Object(map!["ok"@ => JsonView::Bool(true)]),
        http::not_found_json() == JsonView::Object(
            map!["ok"@ => JsonView::Bool(false), "error"@ => JsonView::Str("not found"@)],
        ),
{
}

/// The text of a response, line by line. It tells the length of the body in bytes.
pub proof fn law_response_reads_so(body: Seq<char>)
    ensures
        http::response_text(body) == "HTTP/1.1 200 OK"@ + "\r\n"@
            + "Content-Type: application/json; charset=utf-8"@ + "\r\n"@
            + "Access-Control-Allow-Origin: *"@ + "\r\n"@ + "Content-Length: "@ + text::decimal(
            vstd::utf8::encode_utf8(body).len(),
        ) + "\r\n"@ + "Connection: close"@ + "\r\n"@ + "\r\n"@ + body,
{
    reveal_strlit("");
    assert(http::response_text(body) =~= "HTTP/1.1 200 OK"@ + "\r\n"@
        + "Content-Type: application/json; charset=utf-8"@ + "\r\n"@
        + "Access-Control-Allow-Origin: *"@ + "\r\n"@ + "Content-Length: "@ + text::decimal(
        vstd::utf8::encode_utf8(body).len(),
    ) + "\r\n"@ + "Connection: close"@ + "\r\n"@ + "\r\n"@ + body);
}

}
