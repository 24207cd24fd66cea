//! The heads of HTTP messages: the head of a response that is sent, and the head of one that is
//! received.
use crate::failure::{fail, Failure, FailureKind};
use crate::number::{
    decimal, decimal_string, law_number_reads_back, lemma_digits_only, parse_number, parse_unsigned,
};
use crate::text::{
    begins_with, char_index, first_word, is_white, is_word, law_white_space_is_trimmed,
    lemma_char_index, lemma_first_word, lemma_trimmed_stays, lines, lines_of, lower, lowered, next_word, split_once, split_once_at,
    starts_with, str_eq, text_view, texts, trim, trim_start, trimmed,
};
use vstd::prelude::*;
use vstd::string::*;
use vstd::utf8::encode_utf8;

verus! {

/// The media type of JSON text.
pub const JSON_CONTENT_TYPE: &'static str = "application/json; charset=utf-8";

/// The media type of a whole stream of events.
pub const EVENTS_CONTENT_TYPE: &'static str = "text/event-stream; charset=utf-8";

/// The phrase that goes with a status.
pub open spec fn phrase(status: u16) -> Seq<char> {
    if status == 204 {
        "No Content"@
    } else if status == 400 {
        "Bad Request"@
    } else if status == 401 {
        "Unauthorized"@
    } else if status == 403 {
        "Forbidden"@
    } else if status == 404 {
        "Not Found"@
    } else if status == 405 {
        "Method Not Allowed"@
    } else if status == 429 {
        "Too Many Requests"@
    } else if status == 500 {
        "Internal Server Error"@
    } else if status == 502 {
        "Bad Gateway"@
    } else {
        "OK"@
    }
}

/// The phrase that goes with a status; `OK` for one that has none.
pub fn reason_phrase(status: u16) -> (r: &'static str)
    ensures
        r@ == phrase(status),
{
    match status {
        200 => "OK",
        204 => "No Content",
        400 => "Bad Request",
        401 => "Unauthorized",
        403 => "Forbidden",
        404 => "Not Found",
        405 => "Method Not Allowed",
        429 => "Too Many Requests",
        500 => "Internal Server Error",
        502 => "Bad Gateway",
        _ => "OK",
    }
}

/// The first line of a response.
pub open spec fn status_text(status: u16) -> Seq<char> {
    "HTTP/1.1 "@ + decimal(status as nat) + " "@ + phrase(status) + "\r\n"@
}

/// The first line of a response.
pub fn status_line(status: u16) -> (r: String)
    ensures
        r@ == status_text(status),
{
    let mut out = String::new();
    out.append("HTTP/1.1 ");
    out.append(decimal_string(status as u64).as_str());
    out.append(" ");
    out.append(reason_phrase(status));
    out.append("\r\n");
    proof {
        assert(out@ =~= status_text(status));
    }
    out
}

/// The fields that every response has: the connection closes, and pages of any origin may ask.
pub open spec fn fixed_fields() -> Seq<char> {
    "Connection: close\r\nAccess-Control-Allow-Origin: *\r\n"@
        + "Access-Control-Allow-Headers: Authorization, Content-Type, X-WebClaw-License-Token, X-WebClaw-Usage-Mode\r\n"@
        + "Access-Control-Allow-Methods: GET, POST, OPTIONS\r\n"@
}

/// The field for the media type, where there is one.
pub open spec fn type_field(content_type: Option<Seq<char>>) -> Seq<char> {
    match content_type {
        Some(t) => "Content-Type: "@ + t + "\r\n"@,
        None => Seq::empty(),
    }
}

/// The field for the length of the body, where it is known.
pub open spec fn length_field(content_length: Option<nat>) -> Seq<char> {
    match content_length {
        Some(n) => "Content-Length: "@ + decimal(n) + "\r\n"@,
        None => Seq::empty(),
    }
}

/// The fields of a response, with the empty line that ends them.
pub open spec fn fields_text(content_type: Option<Seq<char>>, content_length: Option<nat>) -> Seq<
    char,
> {
    fixed_fields() + type_field(content_type) + length_field(content_length) + "\r\n"@
}

/// A length as a number.
pub open spec fn length_view(n: Option<usize>) -> Option<nat> {
    match n {
        Some(n) => Some(n as nat),
        None => None,
    }
}

/// The fields of a response, with the empty line that ends them.
pub fn common_headers(content_type: Option<String>, content_length: Option<usize>) -> (r: String)
    ensures
        r@ == fields_text(text_view(content_type), length_view(content_length)),
{
    let mut out = String::new();
    out.append("Connection: close\r\nAccess-Control-Allow-Origin: *\r\n");
    out.append(
        "Access-Control-Allow-Headers: Authorization, Content-Type, X-WebClaw-License-Token, X-WebClaw-Usage-Mode\r\n",
    );
    out.append("Access-Control-Allow-Methods: GET, POST, OPTIONS\r\n");
    match &content_type {
        Some(t) => {
            out.append("Content-Type: ");
            out.append(t.as_str());
            out.append("\r\n");
        },
        None => {},
    }
    proof {
        assert(out@ =~= fixed_fields() + type_field(text_view(content_type)));
    }
    match content_length {
        Some(n) => {
            out.append("Content-Length: ");
            out.append(decimal_string(n as u64).as_str());
            out.append("\r\n");
        },
        None => {},
    }
    out.append("\r\n");
    proof {
        assert(out@ =~= fields_text(text_view(content_type), length_view(content_length)));
    }
    out
}

/// The head of a response.
pub open spec fn head_text(
    status: u16,
    content_type: Option<Seq<char>>,
    content_length: Option<nat>,
) -> Seq<char> {
    status_text(status) + fields_text(content_type, content_length)
}

/// The head of a response.
pub fn response_head(
    status: u16,
    content_type: Option<String>,
    content_length: Option<usize>,
) -> (r: String)
    ensures
        r@ == head_text(status, text_view(content_type), length_view(content_length)),
{
    let mut out = status_line(status);
    out.append(common_headers(content_type, content_length).as_str());
    out
}

/// A whole response whose body is text: its length is that of its UTF-8 bytes.
pub open spec fn text_response(status: u16, content_type: Seq<char>, body: Seq<char>) -> Seq<char> {
    head_text(status, Some(content_type), Some(encode_utf8(body).len())) + body
}

/// A whole response of the given media type whose body is text.
fn make_text_response(status: u16, content_type: &str, body: &str) -> (r: String)
    ensures
        r@ == text_response(status, content_type@, body@),
{
    let mut out = response_head(
        status,
        Some(content_type.to_owned()),
        Some(body.as_bytes().len()),
    );
    out.append(body);
    out
}

/// A whole response whose body is JSON text.
pub fn json_response(status: u16, body: &str) -> (r: String)
    ensures
        r@ == text_response(status, JSON_CONTENT_TYPE@, body@),
{
    make_text_response(status, JSON_CONTENT_TYPE, body)
}

/// A whole response whose body is a stream of events.
pub fn events_response(body: &str) -> (r: String)
    ensures
        r@ == text_response(200, EVENTS_CONTENT_TYPE@, body@),
{
    make_text_response(200, EVENTS_CONTENT_TYPE, body)
}

/// A whole response without a body.
pub fn empty_response(status: u16) -> (r: String)
    ensures
        r@ == head_text(status, None, Some(0)),
{
    response_head(status, None, Some(0))
}

/// The status that the first line of a response gives; 200 where it gives none.
pub open spec fn status_in(line: Seq<char>) -> nat {
    match first_word(line) {
        Some((_, rest)) => match first_word(rest) {
            Some((word, _)) => match parse_unsigned(word, 10, 65535) {
                Some(n) => n,
                None => 200,
            },
            None => 200,
        },
        None => 200,
    }
}

/// The status that the first line of a response gives; 200 where it gives none.
fn status_of_line(line: &str) -> (r: u16)
    ensures
        r == status_in(line@),
{
    match next_word(line) {
        Some((_, rest)) => match next_word(rest.as_str()) {
            Some((word, _)) => match parse_number(word.as_str(), 10, 65535) {
                Some(n) => n as u16,
                None => 200,
            },
            None => 200,
        },
        None => 200,
    }
}

/// What one line of a head adds to what the lines before it gave.
pub open spec fn head_step(
    state: (nat, Option<Seq<char>>),
    line: Seq<char>,
) -> (nat, Option<Seq<char>>) {
    let t = trim(line);
    if starts_with(t, "HTTP/"@) {
        (status_in(t), state.1)
    } else {
        match split_once_at(t, ':') {
            Some((name, value)) => if lower(trim(name)) == "content-type"@ {
                (state.0, Some(trim(value)))
            } else {
                state
            },
            None => state,
        }
    }
}

/// The status and the media type that the lines of a head give: of several, the last.
pub open spec fn head_of_lines(list: Seq<Seq<char>>) -> (nat, Option<Seq<char>>)
    decreases list.len(),
{
    if list.len() == 0 {
        (200, None)
    } else {
        head_step(head_of_lines(list.drop_last()), list.last())
    }
}

/// The status and the media type that the head of a response gives. Where one head follows another,
/// as after a redirect, the last counts.
pub fn parse_header_block(headers_raw: &str) -> (r: (u16, Option<String>))
    ensures
        (r.0 as nat, text_view(r.1)) == head_of_lines(lines_of(headers_raw@)),
{
    let mut status_code: u16 = 200;
    let mut content_type: Option<String> = None;
    let list = lines(headers_raw);
    let ghost all = texts(list@);
    let mut i: usize = 0;
    while i < list.len()
        invariant
            i <= list@.len(),
            all == texts(list@),
            (status_code as nat, text_view(content_type)) == head_of_lines(all.take(i as int)),
        decreases list@.len() - i,
    {
        proof {
            assert(all.take(i + 1).drop_last() =~= all.take(i as int));
            assert(all.take(i + 1).last() == list@[i as int]@);
        }
        let line = trimmed(list[i].as_str());
        if begins_with(line.as_str(), "HTTP/") {
            status_code = status_of_line(line.as_str());
        } else {
            match split_once(line.as_str(), ':') {
                Some((name, value)) => {
                    let low = lowered(trimmed(name.as_str()).as_str());
                    if str_eq(low.as_str(), "content-type") {
                        content_type = Some(trimmed(value.as_str()));
                    }
                },
                None => {},
            }
        }
        i = i + 1;
    }
    proof {
        assert(all.take(i as int) =~= all);
    }
    (status_code, content_type)
}

/// Whether bytes read so far end with the empty line after a head: a line feed and another right
/// at the start, or an empty line anywhere.
pub open spec fn head_ends(b: Seq<u8>) -> bool {
    ||| b =~= seq![10u8, 10u8]
    ||| b.len() >= 4 && b.skip(b.len() - 4) =~= seq![13u8, 10u8, 13u8, 10u8]
}

/// The length of the shortest beginning, at least `from` bytes long, that ends a head.
pub open spec fn head_length(b: Seq<u8>, from: nat) -> Option<nat>
    decreases b.len() + 1 - from,
{
    if from > b.len() {
        None
    } else if head_ends(b.take(from as int)) {
        Some(from)
    } else {
        head_length(b, from + 1)
    }
}

/// Whether the bytes read so far end a head.
pub fn headers_end(seen: &Vec<u8>) -> (r: bool)
    ensures
        r == head_ends(seen@),
{
    let n = seen.len();
    if n == 2 && seen[0] == 10 && seen[1] == 10 {
        return true;
    }
    n >= 4 && seen[n - 4] == 13 && seen[n - 3] == 10 && seen[n - 2] == 13 && seen[n - 1] == 10
}

/// Reads a head from the bytes of `input`: they are put to `output` up to the end of the head, or,
/// where no head ends, all of them.
pub fn read_http_headers(input: &Vec<u8>, output: &mut Vec<u8>) -> (r: Result<(), Failure>)
    ensures
        match head_length(input@, 0) {
            Some(n) => r is Ok && final(output)@ == old(output)@ + input@.take(n as int),
            None => {
                &&& r is Err
                &&& r->Err_0@ == (
                    FailureKind::UnexpectedEof,
                    "upstream closed before sending headers"@,
                )
                &&& final(output)@ == old(output)@ + input@
            },
        },
{
    let mut seen: Vec<u8> = Vec::new();
    let mut i: usize = 0;
    proof {
        assert(!head_ends(input@.take(0)));
        assert(head_length(input@, 1) == head_length(input@, 0));
        assert(output@ =~= old(output)@ + input@.take(0));
        assert(seen@ =~= input@.take(0));
    }
    while i < input.len()
        invariant
            i <= input@.len(),
            seen@ == input@.take(i as int),
            output@ == old(output)@ + input@.take(i as int),
            head_length(input@, 0) == head_length(input@, (i + 1) as nat),
        decreases input@.len() - i,
    {
        output.push(input[i]);
        seen.push(input[i]);
        i = i + 1;
        proof {
            assert(seen@ =~= input@.take(i as int));
            assert(output@ =~= old(output)@ + input@.take(i as int));
        }
        if headers_end(&seen) {
            return Ok(());
        }
    }
    proof {
        assert(input@.take(i as int) =~= input@);
    }
    Err(fail(FailureKind::UnexpectedEof, "upstream closed before sending headers"))
}

/// The first line of a response is read as it was written.
pub proof fn law_status_line_is_read(before: (nat, Option<Seq<char>>), status: u16)
    ensures
        head_step(before, "HTTP/1.1 "@ + decimal(status as nat) + " "@ + phrase(status)) == (
            status as nat,
            before.1,
        ),
{
    reveal_strlit("HTTP/");
    reveal_strlit("HTTP/1.1");
    reveal_strlit("HTTP/1.1 ");
    reveal_strlit(" ");
    lemma_phrase_ends(status);
    lemma_digits_only(status as nat, 10);
    law_number_reads_back(status as nat, 10, 65535);
    let number = decimal(status as nat);
    let end = " "@ + phrase(status);
    let rest = seq![' '] + number + end;
    let version = "HTTP/1.1"@;
    let line = "HTTP/1.1 "@ + number + " "@ + phrase(status);
    assert("HTTP/1.1 "@ =~= version + seq![' ']);
    assert(line =~= version + rest);
    assert(line[0] == 'H' && line.last() == phrase(status).last());
    lemma_trimmed_stays(line);
    assert(line.subrange(0, 5) =~= "HTTP/"@);
    assert(is_word(version)) by {
        assert forall|i: int| 0 <= i < version.len() implies !is_white(#[trigger] version[i]) by {
            assert(i == 0 || i == 1 || i == 2 || i == 3 || i == 4 || i == 5 || i == 6 || i == 7);
        }
    }
    lemma_first_word(version, rest);
    lemma_first_word(number, end);
}

/// No phrase ends with white space.
proof fn lemma_phrase_ends(status: u16)
    ensures
        phrase(status).len() > 0,
        !is_white(phrase(status).last()),
{
    reveal_strlit("OK");
    reveal_strlit("No Content");
    reveal_strlit("Bad Request");
    reveal_strlit("Unauthorized");
    reveal_strlit("Forbidden");
    reveal_strlit("Not Found");
    reveal_strlit("Method Not Allowed");
    reveal_strlit("Too Many Requests");
    reveal_strlit("Internal Server Error");
    reveal_strlit("Bad Gateway");
}

/// The media type of a response is read as it was written.
pub proof fn law_type_field_is_read(before: (nat, Option<Seq<char>>), content_type: Seq<char>)
    requires
        content_type.len() > 0,
        !is_white(content_type[0]),
        !is_white(content_type.last()),
    ensures
        head_step(before, "Content-Type: "@ + content_type) == (before.0, Some(content_type)),
{
    reveal_strlit("HTTP/");
    reveal_strlit("Content-Type");
    reveal_strlit("Content-Type: ");
    reveal_strlit("content-type");
    let name = "Content-Type"@;
    let line = "Content-Type: "@ + content_type;
    assert(line[0] == 'C' && line.last() == content_type.last());
    lemma_trimmed_stays(line);
    assert(!starts_with(line, "HTTP/"@)) by {
        assert(line.subrange(0, 5)[0] == 'C');
        assert("HTTP/"@[0] == 'H');
    }
    lemma_char_index(line, ':');
    assert(line[12] == ':');
    assert(char_index(line, ':') == 12) by {
        let k = char_index(line, ':') as int;
        if k < 12 {
            assert(k == 0 || k == 1 || k == 2 || k == 3 || k == 4 || k == 5 || k == 6 || k == 7 || k
                == 8 || k == 9 || k == 10 || k == 11);
        }
    }
    assert(line.take(12) =~= name);
    lemma_trimmed_stays(name);
    assert(lower(name) =~= "content-type"@);
    let value = line.skip(13);
    assert(value =~= seq![' '] + content_type);
    assert(value.drop_first() =~= content_type);
    assert(trim_start(value) == trim_start(content_type));
    lemma_trimmed_stays(content_type);
}

/// A whole response begins with its status and ends with the length of its body, in bytes, an empty
/// line and the body itself; its media type is told in a field of its own.
#[verifier::rlimit(50)]
pub proof fn law_response_is_framed(status: u16, content_type: Seq<char>, body: Seq<char>)
    ensures
        ({
            let response = text_response(status, content_type, body);
            let start = "HTTP/1.1 "@ + decimal(status as nat) + " "@;
            let end = "Content-Length: "@ + decimal(encode_utf8(body).len()) + "\r\n\r\n"@ + body;
            let field = "\r\nContent-Type: "@ + content_type + "\r\n"@;
            &&& start.len() <= response.len() && response.take(start.len() as int) == start
            &&& end.len() <= response.len() && response.skip(response.len() - end.len()) == end
            &&& exists|i: int|
                0 <= i && i + field.len() <= response.len() && #[trigger] response.subrange(
                    i,
                    i + field.len(),
                ) == field
        }),
{
    reveal_strlit("\r\n");
    reveal_strlit("\r\n\r\n");
    reveal_strlit("\r\nContent-Type: ");
    reveal_strlit("Content-Type: ");
    reveal_strlit("Access-Control-Allow-Methods: GET, POST, OPTIONS\r\n");
    let response = text_response(status, content_type, body);
    let start = "HTTP/1.1 "@ + decimal(status as nat) + " "@;
    let end = "Content-Length: "@ + decimal(encode_utf8(body).len()) + "\r\n\r\n"@ + body;
    let field = "\r\nContent-Type: "@ + content_type + "\r\n"@;
    assert("\r\n\r\n"@ =~= "\r\n"@ + "\r\n"@);
    assert("\r\nContent-Type: "@ =~= "\r\n"@ + "Content-Type: "@);
    let before = status_text(status) + fixed_fields();
    let typed = type_field(Some(content_type));
    assert(response =~= before + typed + end);
    assert(response.take(start.len() as int) =~= start);
    assert(response.skip(response.len() - end.len()) =~= end);
    let methods = "Access-Control-Allow-Methods: GET, POST, OPTIONS\r\n"@;
    assert(methods.len() == 50 && methods[48] == '\r' && methods[49] == '\n');
    assert(methods.skip(48) =~= "\r\n"@);
    let i = before.len() - 2;
    assert(before.skip(i) =~= "\r\n"@) by {
        assert(before.skip(i) =~= methods.skip(48));
    }
    assert(response.subrange(i, i + field.len()) =~= field) by {
        assert(response.subrange(i, i + field.len()) =~= before.skip(i) + typed);
    }
}

/// A response without a body says so; one whose length is not known says nothing of it.
pub proof fn law_length_is_told_where_it_is_known(status: u16, content_type: Seq<char>)
    ensures
        ({
            let empty = head_text(status, None, Some(0));
            let end = "Content-Length: 0\r\n\r\n"@;
            let open = head_text(status, Some(content_type), None);
            let last = "Content-Type: "@ + content_type + "\r\n\r\n"@;
            &&& end.len() <= empty.len() && empty.skip(empty.len() - end.len()) == end
            &&& last.len() <= open.len() && open.skip(open.len() - last.len()) == last
        }),
{
    reveal_strlit("\r\n");
    reveal_strlit("\r\n\r\n");
    reveal_strlit("Content-Length: ");
    reveal_strlit("Content-Length: 0\r\n\r\n");
    let empty = head_text(status, None, Some(0));
    let end = "Content-Length: 0\r\n\r\n"@;
    assert(decimal(0) =~= seq!['0']);
    assert(end =~= "Content-Length: "@ + seq!['0'] + "\r\n"@ + "\r\n"@);
    assert(empty =~= status_text(status) + fixed_fields() + end);
    assert(empty.skip(empty.len() - end.len()) =~= end);
    let open = head_text(status, Some(content_type), None);
    let last = "Content-Type: "@ + content_type + "\r\n\r\n"@;
    assert("\r\n\r\n"@ =~= "\r\n"@ + "\r\n"@);
    assert(open =~= status_text(status) + fixed_fields() + last);
    assert(open.skip(open.len() - last.len()) =~= last);
}

/// The lines of a head count one after the other, from status 200 and no media type on: a line with
/// a status changes the status, a line with a media type the media type, and any other field
/// nothing.
#[verifier::rlimit(50)]
pub proof fn law_head_lines_count(
    list: Seq<Seq<char>>,
    status: u16,
    name: Seq<char>,
    value: Seq<char>,
)
    requires
        name.len() > 0,
        is_word(name),
        !name.contains(':'),
        value.len() > 0,
        !is_white(value[0]),
        !is_white(value.last()),
        !starts_with(name + ": "@ + value, "HTTP/"@),
    ensures
        head_of_lines(Seq::empty()) == (200nat, None::<Seq<char>>),
        head_of_lines(
            list.push("HTTP/1.1 "@ + decimal(status as nat) + " "@ + phrase(status)),
        ) == (status as nat, head_of_lines(list).1),
        lower(name) == "content-type"@ ==> head_of_lines(list.push(name + ": "@ + value)) == (
            head_of_lines(list).0,
            Some(value),
        ),
        lower(name) != "content-type"@ ==> head_of_lines(list.push(name + ": "@ + value))
            == head_of_lines(list),
{
    let first = "HTTP/1.1 "@ + decimal(status as nat) + " "@ + phrase(status);
    assert(list.push(first).drop_last() =~= list);
    law_status_line_is_read(head_of_lines(list), status);
    reveal_strlit(": ");
    let line = name + ": "@ + value;
    assert(list.push(line).drop_last() =~= list);
    assert(line[0] == name[0] && line.last() == value.last());
    lemma_trimmed_stays(line);
    lemma_char_index(line, ':');
    assert(line[name.len() as int] == ':');
    assert(char_index(line, ':') == name.len()) by {
        let k = char_index(line, ':') as int;
        if k < name.len() {
            assert(line[k] == name[k]);
            assert(name.contains(name[k]));
        }
    }
    assert(line.take(name.len() as int) =~= name);
    lemma_trimmed_stays(name);
    let after = line.skip((name.len() + 1) as int);
    assert(after =~= seq![' '] + value);
    assert(after.drop_first() =~= value);
    assert(trim_start(after) == trim_start(value));
    lemma_trimmed_stays(value);
}

/// A head is cut after its first empty line: what is read ends there, and no shorter beginning ends
/// a head.
pub proof fn law_head_ends_at_first_empty_line(b: Seq<u8>, n: nat)
    requires
        4 <= n <= b.len(),
        b.subrange(n - 4, n as int) == seq![13u8, 10u8, 13u8, 10u8],
        forall|k: int|
            4 <= k < n ==> #[trigger] b.subrange(k - 4, k) != seq![13u8, 10u8, 13u8, 10u8],
        b.take(2) != seq![10u8, 10u8],
    ensures
        head_length(b, 0) == Some(n),
{
    assert forall|k: int| 0 <= k < n implies !head_ends(#[trigger] b.take(k)) by {
        if k == 2 {
            assert(b.take(2) != seq![10u8, 10u8]);
        }
        if k >= 4 {
            assert(b.take(k).skip(k - 4) =~= b.subrange(k - 4, k));
        }
    }
    assert(b.take(n as int).skip(n - 4) =~= b.subrange(n - 4, n as int));
    lemma_head_length(b, 0, n);
}

/// The first beginning that ends a head is the one that is found.
proof fn lemma_head_length(b: Seq<u8>, from: nat, n: nat)
    requires
        from <= n <= b.len(),
        head_ends(b.take(n as int)),
        forall|k: int| from <= k < n ==> !head_ends(#[trigger] b.take(k)),
    ensures
        head_length(b, from) == Some(n),
    decreases n - from,
{
    if from < n {
        assert(!head_ends(b.take(from as int)));
        lemma_head_length(b, from + 1, n);
    }
}

/// Two statuses that are told by the same phrase are one status, or both are told as `OK`; success
/// is, and the statuses of refusals and failures that are answered here are not.
pub proof fn law_statuses_have_their_phrases(a: u16, b: u16)
    ensures
        phrase(a) == phrase(b) ==> a == b || phrase(a) == "OK"@,
        200 <= a < 300 && a != 204 ==> phrase(a) == "OK"@,
        (a == 400 || a == 401 || a == 403 || a == 404 || a == 405 || a == 429 || a == 500 || a
            == 502) ==> phrase(a) != "OK"@,
        phrase(204) == "No Content"@,
        phrase(400) == "Bad Request"@,
        phrase(401) == "Unauthorized"@,
        phrase(403) == "Forbidden"@,
        phrase(404) == "Not Found"@,
        phrase(405) == "Method Not Allowed"@,
        phrase(429) == "Too Many Requests"@,
        phrase(500) == "Internal Server Error"@,
        phrase(502) == "Bad Gateway"@,
{
    reveal_strlit("No Content");
    reveal_strlit("Bad Request");
    reveal_strlit("Unauthorized");
    reveal_strlit("Forbidden");
    reveal_strlit("Not Found");
    reveal_strlit("Method Not Allowed");
    reveal_strlit("Too Many Requests");
    reveal_strlit("Internal Server Error");
    reveal_strlit("Bad Gateway");
    reveal_strlit("OK");
    assert("No Content"@.len() == 10 && "Bad Request"@.len() == 11);
    assert("Unauthorized"@.len() == 12 && "Forbidden"@.len() == 9 && "Not Found"@.len() == 9);
    assert("Method Not Allowed"@.len() == 18 && "Too Many Requests"@.len() == 17);
    assert("Internal Server Error"@.len() == 21 && "Bad Gateway"@.len() == 11);
    assert("OK"@.len() == 2 && "Bad Request"@[4] == 'R' && "Bad Gateway"@[4] == 'G');
    assert("Forbidden"@[0] == 'F' && "Not Found"@[0] == 'N');
}

/// White space around a line of a head is of no matter.
pub proof fn law_head_lines_are_trimmed(
    state: (nat, Option<Seq<char>>),
    before: Seq<char>,
    line: Seq<char>,
    after: Seq<char>,
)
    requires
        forall|i: int| 0 <= i < before.len() ==> is_white(#[trigger] before[i]),
        forall|i: int| 0 <= i < after.len() ==> is_white(#[trigger] after[i]),
        line.len() > 0 ==> !is_white(line[0]) && !is_white(line.last()),
    ensures
        head_step(state, before + line + after) == head_step(state, line),
{
    law_white_space_is_trimmed(before, line, after);
    lemma_trimmed_stays(line);
}

} // verus!
