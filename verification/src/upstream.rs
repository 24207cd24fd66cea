//! The calls of `curl` that reach the models, and what comes back from them.
use crate::bytes::{loose_text, text_lossy};
use crate::codec::json_parse_bytes;
use crate::failure::{fail, is_setup_failure, should_retry_stream_setup, Failure, FailureKind};
use crate::http::{head_of_lines, head_text, parse_header_block, response_head, JSON_CONTENT_TYPE};
use crate::text::{or_text, joined, lines_of, text_view, texts, trim, trimmed};
use crate::usage::{extract_usage_from_json_bytes, usage_if_read, RequestUsage};
use vstd::prelude::*;
use vstd::string::*;

verus! {

/// The media type of a stream of events that names none.
pub const STREAM_CONTENT_TYPE: &'static str = "text/event-stream";

/// A response from upstream that was read as a whole.
#[derive(Debug)]
pub struct CurlResponse {
    pub status_code: u16,
    pub content_type: Option<String>,
    pub body: Vec<u8>,
    pub usage: Option<RequestUsage>,
}

/// The header field with the key for the models.
pub open spec fn key_field(api_key: Seq<char>) -> Seq<char> {
    "Authorization: Bearer "@ + api_key
}

/// The address of the models.
pub open spec fn chat_url(base_url: Seq<char>) -> Seq<char> {
    base_url + "/chat/completions"@
}

/// The arguments of a call for a response as a whole: its head goes to one file, its body to
/// another. What is sent comes from the standard input.
pub open spec fn whole_call(
    api_key: Seq<char>,
    base_url: Seq<char>,
    head_file: Seq<char>,
    body_file: Seq<char>,
) -> Seq<Seq<char>> {
    seq![
        "-sS"@,
        "--http1.1"@,
        "-X"@,
        "POST"@,
        "-H"@,
        key_field(api_key),
        "-H"@,
        "Content-Type: application/json"@,
        "-H"@,
        "Accept: application/json"@,
        "-D"@,
        head_file,
        "-o"@,
        body_file,
        chat_url(base_url),
        "--data-binary"@,
        "@-"@,
    ]
}

/// The arguments of a call for a response as a whole.
pub fn buffered_args(api_key: &str, base_url: &str, head_file: &str, body_file: &str) -> (r: Vec<
    String,
>)
    ensures
        texts(r@) == whole_call(api_key@, base_url@, head_file@, body_file@),
{
    let r = vec![
        "-sS".to_owned(),
        "--http1.1".to_owned(),
        "-X".to_owned(),
        "POST".to_owned(),
        "-H".to_owned(),
        joined("Authorization: Bearer ", api_key),
        "-H".to_owned(),
        "Content-Type: application/json".to_owned(),
        "-H".to_owned(),
        "Accept: application/json".to_owned(),
        "-D".to_owned(),
        head_file.to_owned(),
        "-o".to_owned(),
        body_file.to_owned(),
        joined(base_url, "/chat/completions"),
        "--data-binary".to_owned(),
        "@-".to_owned(),
    ];
    proof {
        assert(texts(r@) =~= whole_call(api_key@, base_url@, head_file@, body_file@));
    }
    r
}

/// The arguments of a call for a stream: its head and its body come from the standard output, as
/// they arrive.
pub open spec fn stream_call(api_key: Seq<char>, base_url: Seq<char>) -> Seq<Seq<char>> {
    seq![
        "-sS"@,
        "-N"@,
        "--http1.1"@,
        "-X"@,
        "POST"@,
        "-H"@,
        key_field(api_key),
        "-H"@,
        "Content-Type: application/json"@,
        "-H"@,
        "Accept: text/event-stream"@,
        "-D"@,
        "-"@,
        chat_url(base_url),
        "--data-binary"@,
        "@-"@,
    ]
}

/// The arguments of a call for a stream.
pub fn streaming_args(api_key: &str, base_url: &str) -> (r: Vec<String>)
    ensures
        texts(r@) == stream_call(api_key@, base_url@),
{
    let r = vec![
        "-sS".to_owned(),
        "-N".to_owned(),
        "--http1.1".to_owned(),
        "-X".to_owned(),
        "POST".to_owned(),
        "-H".to_owned(),
        joined("Authorization: Bearer ", api_key),
        "-H".to_owned(),
        "Content-Type: application/json".to_owned(),
        "-H".to_owned(),
        "Accept: text/event-stream".to_owned(),
        "-D".to_owned(),
        "-".to_owned(),
        joined(base_url, "/chat/completions"),
        "--data-binary".to_owned(),
        "@-".to_owned(),
    ];
    proof {
        assert(texts(r@) =~= stream_call(api_key@, base_url@));
    }
    r
}

/// The failure of a call that gave no response.
pub fn call_failure() -> (r: Failure)
    ensures
        r@ == (FailureKind::Other, "curl upstream request failed"@),
{
    fail(FailureKind::Other, "curl upstream request failed")
}

/// The response that the head and the body make.
pub fn buffered_response(headers_raw: &str, body: Vec<u8>) -> (r: CurlResponse)
    ensures
        (r.status_code as nat, text_view(r.content_type)) == head_of_lines(
            lines_of(headers_raw@),
        ),
        r.body@ == body@,
        r.usage == usage_if_read(json_parse_bytes(body@)),
{
    let (status_code, content_type) = parse_header_block(headers_raw);
    let usage = extract_usage_from_json_bytes(body.as_slice());
    CurlResponse { status_code, content_type, body, usage }
}

/// The head with which a response from upstream is passed on.
pub fn upstream_head(response: &CurlResponse) -> (r: String)
    ensures
        r@ == head_text(
            response.status_code,
            Some(or_text(text_view(response.content_type), JSON_CONTENT_TYPE@)),
            Some(response.body@.len()),
        ),
{
    let content_type = match &response.content_type {
        Some(t) => t.clone(),
        None => JSON_CONTENT_TYPE.to_owned(),
    };
    response_head(response.status_code, Some(content_type), Some(response.body.len()))
}

/// The head with which a stream is passed on, for the head that came from upstream.
pub open spec fn stream_head_text(head: Seq<u8>) -> Seq<char> {
    let (status, content_type) = head_of_lines(lines_of(loose_text(head)));
    head_text(status as u16, Some(or_text(content_type, STREAM_CONTENT_TYPE@)), None)
}

/// The head with which a stream is passed on, for the head that came from upstream.
pub fn stream_head(head: &Vec<u8>) -> (r: String)
    ensures
        r@ == stream_head_text(head@),
{
    let text = text_lossy(head.as_slice());
    let (status, content_type) = parse_header_block(text.as_str());
    let content_type = match content_type {
        Some(t) => t,
        None => STREAM_CONTENT_TYPE.to_owned(),
    };
    response_head(status, Some(content_type), None)
}

/// What a failure to get the head of a stream says, with what `curl` said of it.
pub open spec fn setup_detail(message: Seq<char>, stderr: Seq<u8>) -> Seq<char> {
    let said = trim(loose_text(stderr));
    if said.len() == 0 {
        message
    } else {
        message + "; curl stderr: "@ + said
    }
}

/// A failure to get the head of a stream, with what `curl` said of it.
pub fn setup_failure(err: &Failure, stderr: &[u8]) -> (r: Failure)
    ensures
        r@ == (err.kind, setup_detail(err.message@, stderr@)),
{
    let said = trimmed(text_lossy(stderr).as_str());
    let mut message = err.message.clone();
    if !said.as_str().is_empty() {
        message.append("; curl stderr: ");
        message.append(said.as_str());
    }
    Failure { kind: err.kind, message }
}

/// How long to wait before the call for a stream is made again, in milliseconds; none where it is
/// not made again.
pub open spec fn retry_pause(attempt: u64, err: Failure) -> Option<u64> {
    if attempt < 2 && is_setup_failure(err) {
        Some(200)
    } else {
        None
    }
}

/// How long to wait before the call for a stream is made again, in milliseconds; none where it is
/// not made again. Attempts are counted from 1.
pub fn plan_retry(attempt: u64, err: &Failure) -> (r: Option<u64>)
    ensures
        r == retry_pause(attempt, *err),
{
    if should_retry_stream_setup(err) && attempt < 2 {
        Some(200)
    } else {
        None
    }
}

/// The call for a stream is made twice at most.
pub proof fn law_two_attempts_at_most(attempt: u64, err: Failure)
    requires
        attempt >= 2,
    ensures
        retry_pause(attempt, err) is None,
{
}

/// What `curl` says beside a failure does not keep the call from being made again.
pub proof fn law_detail_keeps_retry(err: Failure, detailed: Failure, stderr: Seq<u8>, attempt: u64)
    requires
        detailed@ == (err.kind, setup_detail(err.message@, stderr)),
        retry_pause(attempt, err) is Some,
    ensures
        retry_pause(attempt, detailed) is Some,
{
    let more = detailed.message@;
    let first = "upstream closed before sending headers"@;
    let second = "Empty reply from server"@;
    assert(more.take(err.message@.len() as int) =~= err.message@);
    if crate::text::has_text(err.message@, first) {
        lemma_longer_text_has(err.message@, more, first);
    }
    if crate::text::has_text(err.message@, second) {
        lemma_longer_text_has(err.message@, more, second);
    }
}

/// What a text holds, a text that begins with it holds too.
proof fn lemma_longer_text_has(short: Seq<char>, long: Seq<char>, pat: Seq<char>)
    requires
        short.len() <= long.len(),
        long.take(short.len() as int) == short,
        crate::text::has_text(short, pat),
    ensures
        crate::text::has_text(long, pat),
{
    crate::text::lemma_find_from(short, pat, 0);
    crate::text::lemma_find_from(long, pat, 0);
    let i = crate::text::find(short, pat)->0 as int;
    assert(crate::text::occurs_at(short, pat, i));
    assert(long.subrange(i, i + pat.len()) =~= short.subrange(i, i + pat.len()));
    assert(crate::text::occurs_at(long, pat, i));
}

/// Whether the arguments of a call hold an option with the given value.
pub open spec fn has_option(call: Seq<Seq<char>>, name: Seq<char>, value: Seq<char>) -> bool {
    exists|i: int|
        0 <= i && i + 1 < call.len() && #[trigger] call[i] == name && call[i + 1] == value
}

/// Both calls post to the address of the models, with the key and as JSON text, what comes from the
/// standard input. One asks for JSON text and has the head and the body written to the files that
/// are given; the other asks for events and has both written to the standard output.
pub proof fn law_calls_carry_key_and_address(
    api_key: Seq<char>,
    base_url: Seq<char>,
    head_file: Seq<char>,
    body_file: Seq<char>,
)
    ensures
        ({
            let whole = whole_call(api_key, base_url, head_file, body_file);
            let stream = stream_call(api_key, base_url);
            &&& has_option(whole, "-X"@, "POST"@)
            &&& has_option(whole, "-H"@, "Authorization: Bearer "@ + api_key)
            &&& has_option(whole, "-H"@, "Content-Type: application/json"@)
            &&& has_option(whole, "-H"@, "Accept: application/json"@)
            &&& has_option(whole, "-D"@, head_file)
            &&& has_option(whole, "-o"@, body_file)
            &&& has_option(whole, "--data-binary"@, "@-"@)
            &&& whole.contains(base_url + "/chat/completions"@)
            &&& has_option(stream, "-X"@, "POST"@)
            &&& has_option(stream, "-H"@, "Authorization: Bearer "@ + api_key)
            &&& has_option(stream, "-H"@, "Content-Type: application/json"@)
            &&& has_option(stream, "-H"@, "Accept: text/event-stream"@)
            &&& has_option(stream, "-D"@, "-"@)
            &&& has_option(stream, "--data-binary"@, "@-"@)
            &&& stream.contains(base_url + "/chat/completions"@)
            &&& stream.contains("-N"@)
        }),
{
    let whole = whole_call(api_key, base_url, head_file, body_file);
    let stream = stream_call(api_key, base_url);
    assert(whole[2] == "-X"@ && whole[3] == "POST"@);
    assert(whole[4] == "-H"@ && whole[5] == "Authorization: Bearer "@ + api_key);
    assert(whole[6] == "-H"@ && whole[7] == "Content-Type: application/json"@);
    assert(whole[8] == "-H"@ && whole[9] == "Accept: application/json"@);
    assert(whole[10] == "-D"@ && whole[11] == head_file);
    assert(whole[12] == "-o"@ && whole[13] == body_file);
    assert(whole[14] == base_url + "/chat/completions"@);
    assert(whole[15] == "--data-binary"@ && whole[16] == "@-"@);
    assert(stream[1] == "-N"@);
    assert(stream[3] == "-X"@ && stream[4] == "POST"@);
    assert(stream[5] == "-H"@ && stream[6] == "Authorization: Bearer "@ + api_key);
    assert(stream[7] == "-H"@ && stream[8] == "Content-Type: application/json"@);
    assert(stream[9] == "-H"@ && stream[10] == "Accept: text/event-stream"@);
    assert(stream[11] == "-D"@ && stream[12] == "-"@);
    assert(stream[13] == base_url + "/chat/completions"@);
    assert(stream[14] == "--data-binary"@ && stream[15] == "@-"@);
}

/// The call for a stream is made again after the first attempt just where the other side closed
/// before it answered, a fifth of a second later.
pub proof fn law_first_attempt_is_repeated(err: Failure)
    ensures
        retry_pause(1, err) is Some <==> err.kind == FailureKind::UnexpectedEof
            || crate::text::has_text(err.message@, "upstream closed before sending headers"@)
            || crate::text::has_text(err.message@, "Empty reply from server"@),
        retry_pause(1, err) matches Some(pause) ==> pause == 200,
{
}

/// A failure to get the head of a stream says what it said before, and after that what `curl` said,
/// where it said anything.
pub proof fn law_detail_is_added(message: Seq<char>, stderr: Seq<u8>)
    ensures
        ({
            let said = trim(loose_text(stderr));
            let detail = setup_detail(message, stderr);
            &&& message.len() <= detail.len() && detail.take(message.len() as int) == message
            &&& said.len() == 0 ==> detail == message
            &&& said.len() > 0 ==> detail.skip(message.len() as int) == "; curl stderr: "@ + said
        }),
{
    let said = trim(loose_text(stderr));
    let detail = setup_detail(message, stderr);
    assert(detail.take(message.len() as int) =~= message);
    if said.len() > 0 {
        assert(detail.skip(message.len() as int) =~= "; curl stderr: "@ + said);
    }
}

/// A stream is passed on with the status and the media type that it came with; one without a media
/// type is passed on as events.
pub proof fn law_stream_keeps_status_and_type(head: Seq<u8>, status: u16, content_type: Seq<char>)
    ensures
        head_of_lines(lines_of(loose_text(head))) == (status as nat, Some(content_type))
            ==> stream_head_text(head) == head_text(status, Some(content_type), None),
        head_of_lines(lines_of(loose_text(head))) == (status as nat, None::<Seq<char>>)
            ==> stream_head_text(head) == head_text(status, Some("text/event-stream"@), None),
{
}

} // verus!
