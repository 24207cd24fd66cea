//! What can go wrong while a request is served, and what the client is told of it.
use crate::codec::{is_reading, parsed};
use crate::json::{no_fields, text_tree, JsonTree};
use crate::json_field::{escape, escape_json, quoted};
use crate::plain::{
    error_fields, error_tree, is_bare, is_clean, is_plain, lemma_bare, lemma_braced,
    lemma_error_fields, lemma_error_words, lemma_fixed_words, member, plain_text, plain_tree,
    plain_value_text, texts_text, texts_tree, PlainValue,
};
use crate::text::{contains_text, has_text};
use vstd::prelude::*;
use vstd::string::*;

verus! {

/// The kinds of failure that are told apart.
#[derive(Clone, Copy, Debug, PartialEq, Eq, Structural)]
pub enum FailureKind {
    InvalidData,
    InvalidInput,
    UnexpectedEof,
    BrokenPipe,
    ConnectionReset,
    PermissionDenied,
    AlreadyExists,
    TimedOut,
    Other,
}

/// A failure, with what it says of itself.
#[derive(Debug)]
pub struct Failure {
    pub kind: FailureKind,
    pub message: String,
}

impl View for Failure {
    type V = (FailureKind, Seq<char>);

    open spec fn view(&self) -> (FailureKind, Seq<char>) {
        (self.kind, self.message@)
    }
}

/// The failure of the given kind and message.
pub(crate) fn fail(kind: FailureKind, message: &str) -> (r: Failure)
    ensures
        r.kind == kind,
        r.message@ == message@,
{
    Failure { kind, message: message.to_owned() }
}

/// Whether the start of a stream is worth another try: the other side closed before it answered.
pub open spec fn is_setup_failure(err: Failure) -> bool {
    ||| err.kind == FailureKind::UnexpectedEof
    ||| has_text(err.message@, "upstream closed before sending headers"@)
    ||| has_text(err.message@, "Empty reply from server"@)
}

/// Whether the start of a stream is worth another try.
pub fn should_retry_stream_setup(err: &Failure) -> (r: bool)
    ensures
        r == is_setup_failure(*err),
{
    err.kind == FailureKind::UnexpectedEof || contains_text(
        err.message.as_str(),
        "upstream closed before sending headers",
    ) || contains_text(err.message.as_str(), "Empty reply from server")
}

/// The status, code and message that a failure is answered with.
pub open spec fn route_error(kind: FailureKind, message: Seq<char>) -> (u16, Seq<char>, Seq<char>) {
    if kind == FailureKind::InvalidData || kind == FailureKind::InvalidInput {
        (400, "invalid_request"@, "request body is invalid"@)
    } else if has_text(message, "status=429"@) {
        (429, "rate_limit"@, "upstream rate limit reached, please retry later"@)
    } else if has_text(message, "upstream closed before sending headers"@) {
        (503, "upstream_unavailable"@, "upstream closed before sending headers, please retry"@)
    } else if has_text(message, "curl upstream request failed"@) {
        (502, "upstream_request_failed"@, "upstream request failed"@)
    } else {
        (502, "upstream_error"@, "proxy request failed"@)
    }
}

/// The status, code and message that a failure is answered with.
pub fn classify_route_error(err: &Failure, message: &str) -> (r: (
    u16,
    &'static str,
    &'static str,
))
    ensures
        (r.0, r.1@, r.2@) == route_error(err.kind, message@),
{
    if err.kind == FailureKind::InvalidData || err.kind == FailureKind::InvalidInput {
        return (400, "invalid_request", "request body is invalid");
    }
    if contains_text(message, "status=429") {
        return (429, "rate_limit", "upstream rate limit reached, please retry later");
    }
    if contains_text(message, "upstream closed before sending headers") {
        return (
            503,
            "upstream_unavailable",
            "upstream closed before sending headers, please retry",
        );
    }
    if contains_text(message, "curl upstream request failed") {
        return (502, "upstream_request_failed", "upstream request failed");
    }
    (502, "upstream_error", "proxy request failed")
}

/// Whether a failure only says that the client has gone.
pub open spec fn is_disconnect(err: Failure) -> bool {
    &&& err.kind == FailureKind::BrokenPipe || err.kind == FailureKind::ConnectionReset || err.kind
        == FailureKind::UnexpectedEof
    &&& !has_text(err.message@, "upstream closed before sending headers"@)
}

/// Whether a failure only says that the client has gone.
pub fn is_client_disconnect(err: &Failure) -> (r: bool)
    ensures
        r == is_disconnect(*err),
{
    (err.kind == FailureKind::BrokenPipe || err.kind == FailureKind::ConnectionReset || err.kind
        == FailureKind::UnexpectedEof) && !contains_text(
        err.message.as_str(),
        "upstream closed before sending headers",
    )
}

/// The JSON text of an error.
pub open spec fn error_body(code: Seq<char>, message: Seq<char>) -> Seq<char> {
    "{\"error\":{\"message\":\""@ + escape(message)
        + "\",\"type\":\"invalid_request_error\",\"code\":\""@ + escape(code) + "\"}}"@
}

/// The JSON text of an error.
pub fn json_error(code: &str, message: &str) -> (r: String)
    ensures
        r@ == error_body(code@, message@),
{
    let mut out = String::new();
    out.append("{\"error\":{\"message\":\"");
    out.append(escape_json(message).as_str());
    out.append("\",\"type\":\"invalid_request_error\",\"code\":\"");
    out.append(escape_json(code).as_str());
    out.append("\"}}");
    proof {
        assert(out@ =~= error_body(code@, message@));
    }
    out
}

/// The JSON text of an error in the shape of Anthropic's API.
pub open spec fn anthropic_error_body(error_type: Seq<char>, message: Seq<char>) -> Seq<char> {
    "{\"type\":\"error\",\"error\":{\"type\":\""@ + error_type + "\",\"message\":\""@ + escape(
        message,
    ) + "\"}}"@
}

/// The JSON text of an error in the shape of Anthropic's API.
pub fn anthropic_error(error_type: &str, message: &str) -> (r: String)
    ensures
        r@ == anthropic_error_body(error_type@, message@),
{
    let mut out = String::new();
    out.append("{\"type\":\"error\",\"error\":{\"type\":\"");
    out.append(error_type);
    out.append("\",\"message\":\"");
    out.append(escape_json(message).as_str());
    out.append("\"}}");
    proof {
        assert(out@ =~= anthropic_error_body(error_type@, message@));
    }
    out
}

/// An answer with a JSON text as its body.
#[derive(Debug)]
pub struct Reply {
    pub status: u16,
    pub body: String,
}

impl View for Reply {
    type V = (u16, Seq<char>);

    open spec fn view(&self) -> (u16, Seq<char>) {
        (self.status, self.body@)
    }
}

/// The answer with the given status and the JSON text of an error.
pub(crate) fn error_reply(status: u16, code: &str, message: &str) -> (r: Reply)
    ensures
        r@ == (status, error_body(code@, message@)),
{
    Reply { status, body: json_error(code, message) }
}

/// The answer to a failure; none where the client has gone.
pub open spec fn failure_answer(err: Failure) -> Option<(u16, Seq<char>)> {
    if is_disconnect(err) {
        None
    } else {
        let (status, code, message) = route_error(err.kind, err.message@);
        Some((status, error_body(code, message)))
    }
}

/// The answer to a failure; none where the client has gone. What the failure says of itself is not
/// shown to the client.
pub fn route_error_reply(err: &Failure) -> (r: Option<Reply>)
    ensures
        match r {
            Some(reply) => failure_answer(*err) == Some(reply@),
            None => failure_answer(*err) == None::<(u16, Seq<char>)>,
        },
{
    if is_client_disconnect(err) {
        return None;
    }
    let (status, code, message) = classify_route_error(err, err.message.as_str());
    Some(error_reply(status, code, message))
}

/// The JSON text of an error is read as the object that it writes, whatever its code and its message
/// hold, but for control characters other than line breaks and tabs: no quote and no backslash in
/// them ends their string.
#[verifier::rlimit(50)]
pub proof fn law_error_text_reads_back(
    code: Seq<char>,
    message: Seq<char>,
    outcome: Result<JsonTree, Seq<char>>,
)
    requires
        is_clean(code),
        is_clean(message),
        is_reading(error_body(code, message), outcome),
    ensures
        outcome == parsed(error_tree(message, "invalid_request_error"@, code)),
{
    reveal_strlit("{\"error\":{\"message\":\"");
    reveal_strlit("\",\"type\":\"invalid_request_error\",\"code\":\"");
    reveal_strlit("\"}}");
    reveal_strlit("error");
    reveal_strlit("message");
    reveal_strlit("type");
    reveal_strlit("code");
    reveal_strlit("invalid_request_error");
    let kind = "invalid_request_error"@;
    lemma_fixed_words();
    lemma_bare(kind);
    lemma_error_fields(message, kind, code);
    assert("{\"error\":{\"message\":\""@ =~= seq!['{'] + quoted("error"@) + seq![':'] + seq!['{']
        + quoted("message"@) + seq![':'] + seq!['"']);
    assert("\",\"type\":\"invalid_request_error\",\"code\":\""@ =~= seq!['"'] + seq![','] + quoted(
        "type"@,
    ) + seq![':'] + quoted(kind) + seq![','] + quoted("code"@) + seq![':'] + seq!['"']);
    assert("\"}}"@ =~= seq!['"'] + seq!['}'] + seq!['}']);
    assert(error_body(code, message) =~= plain_text(error_fields(message, kind, code)));
}

/// The tree of an error in the shape of Anthropic's API.
pub open spec fn anthropic_error_tree(error_type: Seq<char>, message: Seq<char>) -> JsonTree {
    JsonTree::Object(
        no_fields().insert("type"@, text_tree("error"@)).insert(
            "error"@,
            JsonTree::Object(
                no_fields().insert("type"@, text_tree(error_type)).insert(
                    "message"@,
                    text_tree(message),
                ),
            ),
        ),
    )
}

/// The JSON text of an error in the shape of Anthropic's API is read as the object that it writes,
/// for a type that needs no escaping, whatever the message holds, but for control characters other
/// than line breaks and tabs.
#[verifier::rlimit(50)]
pub proof fn law_anthropic_error_text_reads_back(
    error_type: Seq<char>,
    message: Seq<char>,
    outcome: Result<JsonTree, Seq<char>>,
)
    requires
        is_bare(error_type),
        is_clean(message),
        is_reading(anthropic_error_body(error_type, message), outcome),
    ensures
        outcome == parsed(anthropic_error_tree(error_type, message)),
{
    reveal_strlit("{\"type\":\"error\",\"error\":{\"type\":\"");
    reveal_strlit("\",\"message\":\"");
    reveal_strlit("\"}}");
    reveal_strlit("error");
    reveal_strlit("message");
    reveal_strlit("type");
    lemma_error_words();
    lemma_bare("error"@);
    lemma_bare("message"@);
    lemma_bare("type"@);
    lemma_bare(error_type);
    let inner = seq![("type"@, error_type), ("message"@, message)];
    let fields = seq![
        ("type"@, PlainValue::Text("error"@)),
        ("error"@, PlainValue::Object(inner)),
    ];
    let a = member("type"@, quoted(escape(error_type)));
    let b = member("message"@, quoted(escape(message)));
    assert(inner.map_values(|f: (Seq<char>, Seq<char>)| member(f.0, quoted(escape(f.1))))
        =~= seq![a, b]);
    lemma_braced(a, b, b);
    let x = member("type"@, quoted(escape("error"@)));
    let y = member("error"@, texts_text(inner));
    assert(fields.map_values(|f: (Seq<char>, PlainValue)| member(f.0, plain_value_text(f.1)))
        =~= seq![x, y]);
    lemma_braced(x, y, y);
    assert("{\"type\":\"error\",\"error\":{\"type\":\""@ =~= seq!['{'] + quoted("type"@) + seq![':']
        + quoted("error"@) + seq![','] + quoted("error"@) + seq![':'] + seq!['{'] + quoted("type"@)
        + seq![':'] + seq!['"']);
    assert("\",\"message\":\""@ =~= seq!['"'] + seq![','] + quoted("message"@) + seq![':']
        + seq!['"']);
    assert("\"}}"@ =~= seq!['"'] + seq!['}'] + seq!['}']);
    assert(anthropic_error_body(error_type, message) =~= plain_text(fields));
    assert(inner.drop_last() =~= seq![("type"@, error_type)]);
    assert(inner.drop_last().drop_last() =~= Seq::<(Seq<char>, Seq<char>)>::empty());
    reveal_with_fuel(texts_tree, 3);
    assert(fields.drop_last() =~= seq![("type"@, PlainValue::Text("error"@))]);
    assert(fields.drop_last().drop_last() =~= Seq::<(Seq<char>, PlainValue)>::empty());
    reveal_with_fuel(plain_tree, 3);
    assert(is_plain(fields));
}

/// A failure of the request itself is answered with 400. Any other is answered by what it says: 429
/// for a limit upstream, 503 where upstream closed before it answered, and 502 otherwise. So no
/// failure is answered as a success.
pub proof fn law_failures_are_told_apart(kind: FailureKind, message: Seq<char>)
    ensures
        ({
            let status = route_error(kind, message).0;
            let of_request = kind == FailureKind::InvalidData || kind == FailureKind::InvalidInput;
            let limited = has_text(message, "status=429"@);
            let closed = has_text(message, "upstream closed before sending headers"@);
            &&& status == 400 <==> of_request
            &&& status == 429 <==> !of_request && limited
            &&& status == 503 <==> !of_request && !limited && closed
            &&& status == 502 <==> !of_request && !limited && !closed
            &&& of_request ==> route_error(kind, message).1 == "invalid_request"@
            &&& !of_request && limited ==> route_error(kind, message).1 == "rate_limit"@
            &&& !of_request && !limited && closed ==> route_error(kind, message).1
                == "upstream_unavailable"@
            &&& !of_request && !limited && !closed && has_text(
                message,
                "curl upstream request failed"@,
            ) ==> route_error(kind, message).1 == "upstream_request_failed"@
        }),
{
}

/// Only a failure that says that the client has gone is not answered: a broken pipe, a connection
/// that was reset or an input that ended, unless it was upstream that closed. Any other is answered
/// with its status and an error in JSON text, which does not tell what the failure says of itself.
pub proof fn law_failures_are_answered(err: Failure, other: Failure)
    ensures
        ({
            let closed = has_text(err.message@, "upstream closed before sending headers"@);
            let gone = err.kind == FailureKind::BrokenPipe || err.kind
                == FailureKind::ConnectionReset || err.kind == FailureKind::UnexpectedEof;
            let (status, code, words) = route_error(err.kind, err.message@);
            &&& failure_answer(err) is None <==> gone && !closed
            &&& failure_answer(err) matches Some(answer) ==> answer == (
                status,
                error_body(code, words),
            )
        }),
        failure_answer(err) is Some && failure_answer(other) is Some && route_error(
            err.kind,
            err.message@,
        ) == route_error(other.kind, other.message@) ==> failure_answer(err) == failure_answer(
            other,
        ),
{
}

/// The start of a stream is tried again just where the other side closed before it answered.
pub proof fn law_closed_streams_are_tried_again(err: Failure)
    ensures
        is_setup_failure(err) <==> err.kind == FailureKind::UnexpectedEof || has_text(
            err.message@,
            "upstream closed before sending headers"@,
        ) || has_text(err.message@, "Empty reply from server"@),
{
}

} // verus!
