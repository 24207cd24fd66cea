//! The two routes to the models: what is sent upstream for a request, and what is answered.
use crate::anthropic::{convert_anthropic_request_to_openai, openai_request};
use crate::bytes::{loose_text, text_lossy, text_of_bytes, utf8_text};
use crate::codec::{is_reading, json_parse, json_parse_bytes, json_text, parsed};
use crate::completion::{anthropic_message, convert_openai_response_to_anthropic};
use crate::failure::{anthropic_error, anthropic_error_body, fail, Failure, FailureKind, Reply};
use crate::ids::IdSource;
use crate::json::{Json, JsonTree};
use crate::json_field::{
    bool_field, escape, escape_json, extract_json_bool_field, extract_json_string_field, field_says,
    law_replaced_field_reads_back, law_replacing_changes_one_value, law_string_field_is_read,
    law_truth_value_is_read, quoted, replace_json_string_field, string_field, value_at,
    with_string_field,
};
use crate::models::{
    alias_names, find_model, law_only_plan_models_pass, plan_aliases, upstream_name, ModelAlias,
};
use crate::plain::{
    error_head, error_tail, error_tree, is_clean, lemma_bare, lemma_error_fields, lemma_error_text,
    lemma_error_words, lemma_escape_concat, lemma_fixed_words,
};
use crate::quota::{exhausted_body, exhausted_message, law_exhausted_text_reads_back, UsageMode};
use crate::sse::{message_stream, synthesize_anthropic_sse};
use crate::text::{or_empty, or_text, starts_with, text_view};
use vstd::prelude::*;
use vstd::string::*;
use vstd::utf8::{encode_utf8, encode_utf8_decode_utf8, encode_utf8_valid_utf8, valid_utf8};

verus! {

/// The text of a body, or the failure that it is none.
pub open spec fn body_or_failure(body: Seq<u8>, kind: FailureKind) -> Result<
    Seq<char>,
    (FailureKind, Seq<char>),
> {
    match utf8_text(body) {
        Some(text) => Ok(text),
        None => Err((kind, "request body must be utf-8 json"@)),
    }
}

/// The text of a body, or a failure of the given kind where it is none.
pub fn body_text(body: &Vec<u8>, kind: FailureKind) -> (r: Result<String, Failure>)
    ensures
        match r {
            Ok(text) => body_or_failure(body@, kind) == Ok::<Seq<char>, (FailureKind, Seq<char>)>(
                text@,
            ),
            Err(e) => body_or_failure(body@, kind) == Err::<Seq<char>, (FailureKind, Seq<char>)>(
                e@,
            ),
        },
{
    match text_of_bytes(body) {
        Some(text) => Ok(text),
        None => Err(fail(kind, "request body must be utf-8 json")),
    }
}

/// The failure that a body is no JSON text of the expected form.
pub fn invalid_json_body(reason: &str) -> (r: Failure)
    ensures
        r@ == (FailureKind::InvalidInput, "invalid json body: "@ + reason@),
{
    let mut message = "invalid json body: ".to_owned();
    message.append(reason);
    Failure { kind: FailureKind::InvalidInput, message }
}

/// What is done about a request for a chat completion.
#[derive(Debug)]
pub enum ChatPlan {
    /// It is answered at once.
    Answer(Reply),
    /// It is sent upstream.
    Forward {
        /// The model that was asked for.
        model: String,
        /// What is sent.
        body: String,
        /// Whether the response is a stream of events.
        stream: bool,
    },
}

/// What is done about a request for a chat completion, as mathematics sees it.
pub enum ChatView {
    Answer((u16, Seq<char>)),
    Forward { model: Seq<char>, body: Seq<char>, stream: bool },
}

impl View for ChatPlan {
    type V = ChatView;

    open spec fn view(&self) -> ChatView {
        match *self {
            ChatPlan::Answer(reply) => ChatView::Answer(reply@),
            ChatPlan::Forward { model, body, stream } => ChatView::Forward {
                model: model@,
                body: body@,
                stream,
            },
        }
    }
}

/// The JSON text that refuses a model.
pub open spec fn unsupported_body(model: Seq<char>) -> Seq<char> {
    "{\"error\":{\"message\":\"unsupported model: "@ + escape(model)
        + "\",\"type\":\"invalid_request_error\",\"code\":\"model_not_allowed\"}}"@
}

/// The JSON text that refuses a model.
fn make_unsupported_body(model: &str) -> (r: String)
    ensures
        r@ == unsupported_body(model@),
{
    let mut out = String::new();
    out.append("{\"error\":{\"message\":\"unsupported model: ");
    out.append(escape_json(model).as_str());
    out.append("\",\"type\":\"invalid_request_error\",\"code\":\"model_not_allowed\"}}");
    proof {
        assert(out@ =~= unsupported_body(model@));
    }
    out
}

/// What is done about the text of a request for a chat completion: a model that is not listed is
/// refused; for one that is, the upstream name takes the place of its name.
pub open spec fn chat_of_text(text: Seq<char>, aliases: Seq<(Seq<char>, Seq<char>)>) -> Result<
    ChatView,
    (FailureKind, Seq<char>),
> {
    match string_field(text, "model"@) {
        None => Err((FailureKind::InvalidData, "request json missing model"@)),
        Some(model) => match upstream_name(aliases, model) {
            None => Ok(ChatView::Answer((400, unsupported_body(model)))),
            Some(upstream) => match with_string_field(text, "model"@, upstream) {
                None => Err((FailureKind::InvalidData, "failed to rewrite model field"@)),
                Some(body) => Ok(
                    ChatView::Forward {
                        model,
                        body,
                        stream: bool_field(text, "stream"@) == Some(true),
                    },
                ),
            },
        },
    }
}

/// What is done about a request for a chat completion.
pub open spec fn chat_of(body: Seq<u8>, aliases: Seq<(Seq<char>, Seq<char>)>) -> Result<
    ChatView,
    (FailureKind, Seq<char>),
> {
    match body_or_failure(body, FailureKind::InvalidData) {
        Err(e) => Err(e),
        Ok(text) => chat_of_text(text, aliases),
    }
}

/// What is done about a request for a chat completion.
pub fn plan_chat(body: &Vec<u8>, models: &Vec<ModelAlias>) -> (r: Result<ChatPlan, Failure>)
    ensures
        match r {
            Ok(plan) => chat_of(body@, alias_names(models@)) == Ok::<
                ChatView,
                (FailureKind, Seq<char>),
            >(plan@),
            Err(e) => chat_of(body@, alias_names(models@)) == Err::<
                ChatView,
                (FailureKind, Seq<char>),
            >(e@),
        },
{
    let text = match body_text(body, FailureKind::InvalidData) {
        Ok(text) => text,
        Err(e) => return Err(e),
    };
    let model = match extract_json_string_field(text.as_str(), "model") {
        Some(model) => model,
        None => return Err(fail(FailureKind::InvalidData, "request json missing model")),
    };
    let mapped = match find_model(models, model.as_str()) {
        Some(m) => m,
        None => {
            let body = make_unsupported_body(model.as_str());
            return Ok(ChatPlan::Answer(Reply { status: 400, body }));
        },
    };
    let body = match replace_json_string_field(text.as_str(), "model", mapped.upstream_id) {
        Some(body) => body,
        None => return Err(fail(FailureKind::InvalidData, "failed to rewrite model field")),
    };
    let stream = match extract_json_bool_field(text.as_str(), "stream") {
        Some(b) => b,
        None => false,
    };
    Ok(ChatPlan::Forward { model, body, stream })
}

/// The message in a JSON value that tells of an error.
pub open spec fn error_message(value: Result<JsonTree, Seq<char>>) -> Option<Seq<char>> {
    match value {
        Ok(t) => match t.get("error"@) {
            Some(e) => e.str_at("message"@),
            None => None,
        },
        Err(_) => None,
    }
}

/// The message in a JSON value that tells of an error.
fn message_of_error(value: &Json) -> (r: Option<String>)
    ensures
        text_view(r) == error_message(Ok(value.tree())),
{
    match value.get("error") {
        Some(e) => match e.str_at("message") {
            Some(m) => Some(m.to_owned()),
            None => None,
        },
        None => None,
    }
}

/// What a request for a chat completion is answered with where no tokens are left.
pub fn chat_quota_reply(quota_body: String) -> (r: Reply)
    ensures
        r@ == (429u16, quota_body@),
{
    Reply { status: 429, body: quota_body }
}

/// What a request for a message is answered with where no tokens are left; `quota_body` is what
/// other requests are answered with.
pub fn messages_quota_reply(quota_body: String) -> (r: Reply)
    ensures
        r@ == (
            429u16,
            anthropic_error_body(
                "rate_limit_error"@,
                or_text(error_message(json_parse(quota_body@)), quota_body@),
            ),
        ),
        forall|mode: UsageMode, used: u64, total: u64|
            quota_body@ == #[trigger] exhausted_body(mode, used, total) ==> r@ == (
                429u16,
                anthropic_error_body("rate_limit_error"@, exhausted_message(mode, used, total)),
            ),
{
    let read = Json::parse(quota_body.as_str());
    let ghost outcome = json_parse(quota_body@);
    proof {
        assert(is_reading(quota_body@, outcome));
        assert forall|mode: UsageMode, used: u64, total: u64|
            quota_body@ == #[trigger] exhausted_body(mode, used, total) implies error_message(
            outcome,
        ) == Some(exhausted_message(mode, used, total)) by {
            law_exhausted_text_reads_back(mode, used, total, outcome);
            lemma_error_words();
        }
    }
    let found = match read {
        Ok(value) => message_of_error(&value),
        Err(_) => None,
    };
    let message = match found {
        Some(m) => m,
        None => quota_body,
    };
    Reply { status: 429, body: anthropic_error("rate_limit_error", message.as_str()) }
}

/// What is done about a request for a message whose JSON value is given, and the source of
/// identifiers afterwards.
pub open spec fn messages_of_value(
    payload: JsonTree,
    aliases: Seq<(Seq<char>, Seq<char>)>,
    ids: IdSource,
) -> (ChatView, IdSource) {
    let model = or_empty(payload.str_at("model"@));
    match upstream_name(aliases, model) {
        None => (
            ChatView::Answer(
                (
                    400,
                    anthropic_error_body(
                        "invalid_request_error"@,
                        "unsupported model: "@ + model,
                    ),
                ),
            ),
            ids,
        ),
        Some(upstream) => match payload {
            JsonTree::Object(_) => (
                ChatView::Forward {
                    model,
                    body: json_text(openai_request(payload, upstream, ids).0),
                    stream: payload.bool_at("stream"@) == Some(true),
                },
                openai_request(payload, upstream, ids).1,
            ),
            _ => (
                ChatView::Answer(
                    (
                        400,
                        anthropic_error_body(
                            "invalid_request_error"@,
                            "anthropic payload must be an object"@,
                        ),
                    ),
                ),
                ids,
            ),
        },
    }
}

/// What is done about a request for a message.
pub open spec fn messages_of(
    body: Seq<u8>,
    aliases: Seq<(Seq<char>, Seq<char>)>,
    ids: IdSource,
) -> Result<(ChatView, IdSource), (FailureKind, Seq<char>)> {
    match body_or_failure(body, FailureKind::InvalidData) {
        Err(e) => Err(e),
        Ok(text) => match json_parse(text) {
            Err(e) => Err((FailureKind::InvalidData, "invalid anthropic json: "@ + e)),
            Ok(payload) => Ok(messages_of_value(payload, aliases, ids)),
        },
    }
}

/// What is done about a request for a message whose JSON value is given.
pub fn plan_messages_value(payload: Json, models: &Vec<ModelAlias>, ids: &mut IdSource) -> (r:
    ChatPlan)
    ensures
        (r@, *final(ids)) == messages_of_value(
            payload.tree(),
            alias_names(models@),
            *old(ids),
        ),
{
    let mut payload = payload;
    let model = match payload.str_at("model") {
        Some(m) => m.to_owned(),
        None => {
            let none = String::new();
            proof {
                assert(none@ =~= Seq::<char>::empty());
            }
            none
        },
    };
    let stream = match payload.bool_at("stream") {
        Some(b) => b,
        None => false,
    };
    let mapped = match find_model(models, model.as_str()) {
        Some(m) => m,
        None => {
            let mut message = "unsupported model: ".to_owned();
            message.append(model.as_str());
            let body = anthropic_error("invalid_request_error", message.as_str());
            return ChatPlan::Answer(Reply { status: 400, body });
        },
    };
    match convert_anthropic_request_to_openai(&mut payload, mapped.upstream_id, ids) {
        Ok(value) => ChatPlan::Forward { model, body: value.to_text(), stream },
        Err(message) => {
            let body = anthropic_error("invalid_request_error", message.as_str());
            ChatPlan::Answer(Reply { status: 400, body })
        },
    }
}

/// What is done about a request for a message.
pub fn plan_messages(body: &Vec<u8>, models: &Vec<ModelAlias>, ids: &mut IdSource) -> (r: Result<
    ChatPlan,
    Failure,
>)
    ensures
        match r {
            Ok(plan) => messages_of(body@, alias_names(models@), *old(ids)) == Ok::<
                (ChatView, IdSource),
                (FailureKind, Seq<char>),
            >((plan@, *final(ids))),
            Err(e) => messages_of(body@, alias_names(models@), *old(ids)) == Err::<
                (ChatView, IdSource),
                (FailureKind, Seq<char>),
            >(e@) && *final(ids) == *old(ids),
        },
{
    let text = match body_text(body, FailureKind::InvalidData) {
        Ok(text) => text,
        Err(e) => return Err(e),
    };
    match Json::parse(text.as_str()) {
        Ok(payload) => Ok(plan_messages_value(payload, models, ids)),
        Err(e) => {
            let mut message = "invalid anthropic json: ".to_owned();
            message.append(e.as_str());
            Err(Failure { kind: FailureKind::InvalidData, message })
        },
    }
}

/// What a request for a message is answered with.
#[derive(Debug)]
pub enum MessagesAnswer {
    /// JSON text.
    Reply(Reply),
    /// A stream of events, as one text.
    Events(String),
}

/// What a request for a message is answered with, as mathematics sees it.
pub enum AnswerView {
    Reply((u16, Seq<char>)),
    Events(Seq<char>),
}

impl View for MessagesAnswer {
    type V = AnswerView;

    open spec fn view(&self) -> AnswerView {
        match *self {
            MessagesAnswer::Reply(reply) => AnswerView::Reply(reply@),
            MessagesAnswer::Events(text) => AnswerView::Events(text@),
        }
    }
}

/// What a request for a message is answered with, for the value of a response that is no error.
pub open spec fn answer_of_value(
    value: JsonTree,
    model: Seq<char>,
    stream: bool,
    ids: IdSource,
) -> (AnswerView, IdSource) {
    let (message, after) = anthropic_message(value, model, ids);
    if stream {
        let (text, last) = message_stream(message, after);
        (AnswerView::Events(text), last)
    } else {
        (AnswerView::Reply((200, json_text(message))), after)
    }
}

/// What a request for a message is answered with, for the value of a response that is no error.
pub fn answer_messages_value(value: &Json, model: &str, stream: bool, ids: &mut IdSource) -> (r:
    MessagesAnswer)
    ensures
        (r@, *final(ids)) == answer_of_value(value.tree(), model@, stream, *old(ids)),
{
    let message = convert_openai_response_to_anthropic(value, model, ids);
    if stream {
        MessagesAnswer::Events(synthesize_anthropic_sse(&message, ids))
    } else {
        MessagesAnswer::Reply(Reply { status: 200, body: message.to_text() })
    }
}

/// What a request for a message is answered with, by the response from upstream. An error keeps
/// its status, and its message where it has one.
pub open spec fn messages_answer(
    status: u16,
    body: Seq<u8>,
    model: Seq<char>,
    stream: bool,
    ids: IdSource,
) -> Result<(AnswerView, IdSource), (FailureKind, Seq<char>)> {
    if status >= 400 {
        let message = or_text(error_message(json_parse_bytes(body)), loose_text(body));
        Ok((AnswerView::Reply((status, anthropic_error_body("api_error"@, message))), ids))
    } else {
        match json_parse_bytes(body) {
            Ok(value) => Ok(answer_of_value(value, model, stream, ids)),
            Err(e) => Err(
                (FailureKind::InvalidData, "invalid upstream chat response json: "@ + e),
            ),
        }
    }
}

/// What a request for a message is answered with, by the response from upstream.
pub fn answer_messages(
    status: u16,
    body: &Vec<u8>,
    model: &str,
    stream: bool,
    ids: &mut IdSource,
) -> (r: Result<MessagesAnswer, Failure>)
    ensures
        match r {
            Ok(answer) => messages_answer(status, body@, model@, stream, *old(ids)) == Ok::<
                (AnswerView, IdSource),
                (FailureKind, Seq<char>),
            >((answer@, *final(ids))),
            Err(e) => messages_answer(status, body@, model@, stream, *old(ids)) == Err::<
                (AnswerView, IdSource),
                (FailureKind, Seq<char>),
            >(e@) && *final(ids) == *old(ids),
        },
{
    let read = Json::parse_bytes(body.as_slice());
    if status >= 400 {
        let found = match read {
            Ok(value) => message_of_error(&value),
            Err(_) => None,
        };
        let message = match found {
            Some(m) => m,
            None => text_lossy(body.as_slice()),
        };
        let body = anthropic_error("api_error", message.as_str());
        return Ok(MessagesAnswer::Reply(Reply { status, body }));
    }
    match read {
        Ok(value) => Ok(answer_messages_value(&value, model, stream, ids)),
        Err(e) => {
            let mut message = "invalid upstream chat response json: ".to_owned();
            message.append(e.as_str());
            Err(Failure { kind: FailureKind::InvalidData, message })
        },
    }
}

/// A request for a model that is not listed is not sent upstream: it is answered with status 400.
pub proof fn law_unlisted_model_is_refused(text: Seq<char>, model: Seq<char>)
    requires
        string_field(text, "model"@) == Some(model),
        forall|i: int| 0 <= i < plan_aliases().len() ==> (#[trigger] plan_aliases()[i]).0 != model,
    ensures
        chat_of_text(text, plan_aliases()) == Ok::<ChatView, (FailureKind, Seq<char>)>(
            ChatView::Answer((400, unsupported_body(model))),
        ),
{
    law_only_plan_models_pass(model);
    if let Some(name) = upstream_name(plan_aliases(), model) {
        let i = choose|i: int|
            0 <= i < plan_aliases().len() && plan_aliases()[i] == (model, name);
        assert(plan_aliases()[i].0 != model);
    }
}

/// What is sent upstream names a model of the plan by its upstream name: the name that was asked
/// for is the name of the plan and that name.
pub proof fn law_forwarded_body_names_upstream(text: Seq<char>)
    ensures
        chat_of_text(text, plan_aliases()) matches Ok(
            ChatView::Forward { model, body, .. },
        ) ==> {
            &&& string_field(text, "model"@) == Some(model)
            &&& upstream_name(plan_aliases(), model) is Some
            &&& string_field(body, "model"@) == upstream_name(plan_aliases(), model)
            &&& model == "zai-coding-plan/"@ + string_field(body, "model"@)->0
        },
{
    if let Ok(ChatView::Forward { model, body, .. }) = chat_of_text(text, plan_aliases()) {
        let upstream = upstream_name(plan_aliases(), model)->0;
        law_replaced_field_reads_back(text, "model"@, upstream);
        law_only_plan_models_pass(model);
    }
}

/// A request for a message is sent upstream under the upstream name, and never as a stream.
pub proof fn law_converted_request_names_upstream(
    payload: JsonTree,
    upstream: Seq<char>,
    ids: IdSource,
)
    ensures
        openai_request(payload, upstream, ids).0.str_at("model"@) == Some(upstream),
        openai_request(payload, upstream, ids).0.bool_at("stream"@) == Some(false),
{
    reveal_strlit("model");
    reveal_strlit("messages");
    reveal_strlit("stream");
    reveal_strlit("max_tokens");
    reveal_strlit("temperature");
    reveal_strlit("top_p");
    reveal_strlit("tools");
    reveal_strlit("tool_choice");
    assert("model"@[0] == 'm' && "top_p"@[0] == 't' && "tools"@[0] == 't');
    assert("stream"@.len() == 6 && "model"@.len() == 5 && "messages"@.len() == 8);
    assert("max_tokens"@.len() == 10 && "temperature"@.len() == 11 && "tool_choice"@.len() == 11);
    assert("top_p"@.len() == 5 && "tools"@.len() == 5);
}

/// The parts of the JSON text that refuses a model.
#[verifier::rlimit(50)]
proof fn lemma_refusal_parts()
    ensures
        "{\"error\":{\"message\":\"unsupported model: "@ == error_head() + "unsupported model: "@,
        "\",\"type\":\"invalid_request_error\",\"code\":\"model_not_allowed\"}}"@ == error_tail(
            "invalid_request_error"@,
            "model_not_allowed"@,
        ),
{
    assert("{\"error\":{\"message\":\"unsupported model: "@ =~= error_head()
        + "unsupported model: "@) by {
        reveal_strlit("error");
        reveal_strlit("message");
        reveal_strlit("unsupported model: ");
        reveal_strlit("{\"error\":{\"message\":\"unsupported model: ");
    }
    assert("\",\"type\":\"invalid_request_error\",\"code\":\"model_not_allowed\"}}"@
        =~= error_tail("invalid_request_error"@, "model_not_allowed"@)) by {
        reveal_strlit("type");
        reveal_strlit("code");
        reveal_strlit("invalid_request_error");
        reveal_strlit("model_not_allowed");
        reveal_strlit("\",\"type\":\"invalid_request_error\",\"code\":\"model_not_allowed\"}}");
    }
}

/// The JSON text that refuses a model is read as the object that it writes, whatever the name of the
/// model holds, but for control characters other than line breaks and tabs.
#[verifier::rlimit(50)]
pub proof fn law_refused_model_text_reads_back(
    model: Seq<char>,
    outcome: Result<JsonTree, Seq<char>>,
)
    requires
        is_clean(model),
        is_reading(unsupported_body(model), outcome),
    ensures
        outcome == parsed(
            error_tree(
                "unsupported model: "@ + model,
                "invalid_request_error"@,
                "model_not_allowed"@,
            ),
        ),
{
    let start = "unsupported model: "@;
    let kind = "invalid_request_error"@;
    let code = "model_not_allowed"@;
    let message = start + model;
    lemma_fixed_words();
    lemma_bare(start);
    lemma_bare(kind);
    lemma_bare(code);
    lemma_escape_concat(start, model);
    assert forall|i: int| 0 <= i < message.len() implies #[trigger] message[i] >= ' ' || message[i]
        == '\n' || message[i] == '\r' || message[i] == '\t' by {
        if i < start.len() {
            assert(message[i] == start[i]);
        } else {
            assert(message[i] == model[i - start.len()]);
        }
    }
    lemma_error_fields(message, kind, code);
    lemma_error_text(message, kind, code);
    lemma_refusal_parts();
    assert(unsupported_body(model) =~= error_head() + escape(message) + error_tail(kind, code));
}

/// A forwarded request is for a stream just where its text says so: the value of its first field
/// `stream` begins with the word `true`. With the word `false`, and without such a field, it is not.
pub proof fn law_stream_is_asked_for(text: Seq<char>, aliases: Seq<(Seq<char>, Seq<char>)>)
    ensures
        chat_of_text(text, aliases) matches Ok(ChatView::Forward { stream, .. }) ==> {
            &&& stream <==> field_says(text, "stream"@, "true"@)
            &&& field_says(text, "stream"@, "false"@) ==> !stream
            &&& (forall|j: int|
                0 <= j && j + 8 <= text.len() ==> #[trigger] text.subrange(j, j + 8) != seq!['"']
                    + "stream"@ + seq!['"']) ==> !stream
        },
{
    law_truth_value_is_read(text, "stream"@);
    reveal_strlit("stream");
    assert("stream"@.len() == 6);
    law_string_field_is_read(text, "stream"@, 0, 0, 0, Seq::empty());
    if forall|j: int|
        0 <= j && j + 8 <= text.len() ==> #[trigger] text.subrange(j, j + 8) != seq!['"']
            + "stream"@ + seq!['"'] {
        assert forall|j: int| 0 <= j && j + 6 + 2 <= text.len() implies #[trigger] text.subrange(
            j,
            j + 6 + 2,
        ) != seq!['"'] + "stream"@ + seq!['"'] by {
            assert(text.subrange(j, j + 8) != seq!['"'] + "stream"@ + seq!['"']);
        }
        assert(bool_field(text, "stream"@) is None);
    }
}

/// A request that names a listed model is sent upstream with the upstream name in the place of the
/// name; all the rest of its text stays, character for character.
pub proof fn law_listed_model_is_forwarded(
    text: Seq<char>,
    aliases: Seq<(Seq<char>, Seq<char>)>,
    at: int,
    colon: int,
    start: int,
    model: Seq<char>,
    upstream: Seq<char>,
)
    requires
        value_at(text, "model"@, at, colon, start),
        starts_with(text.skip(start), quoted(escape(model))),
        forall|j: int|
            at + 7 <= j < start && j != colon ==> crate::json_field::is_json_blank(
                #[trigger] text[j],
            ),
        upstream_name(aliases, model) == Some(upstream),
    ensures
        chat_of_text(text, aliases) matches Ok(ChatView::Forward { model: asked, body, .. })
            && asked == model && body == text.take(start) + quoted(escape(upstream)) + text.skip(
            start + quoted(escape(model)).len(),
        ),
{
    reveal_strlit("model");
    assert("model"@.len() == 5);
    law_string_field_is_read(text, "model"@, at, colon, start, model);
    law_replacing_changes_one_value(text, "model"@, at, colon, start, model, upstream);
}

/// A request that names no model is a failure.
pub proof fn law_model_has_to_be_named(text: Seq<char>, aliases: Seq<(Seq<char>, Seq<char>)>)
    requires
        forall|j: int|
            0 <= j && j + 7 <= text.len() ==> #[trigger] text.subrange(j, j + 7) != seq!['"']
                + "model"@ + seq!['"'],
    ensures
        chat_of_text(text, aliases) == Err::<ChatView, (FailureKind, Seq<char>)>(
            (FailureKind::InvalidData, "request json missing model"@),
        ),
{
    reveal_strlit("model");
    assert("model"@.len() == 5);
    assert forall|j: int| 0 <= j && j + 5 + 2 <= text.len() implies #[trigger] text.subrange(
        j,
        j + 5 + 2,
    ) != seq!['"'] + "model"@ + seq!['"'] by {
        assert(text.subrange(j, j + 7) != seq!['"'] + "model"@ + seq!['"']);
    }
    law_string_field_is_read(text, "model"@, 0, 0, 0, Seq::empty());
}

/// A request for a message is sent upstream where its model is listed and it is an object, and is
/// told as a stream just where its field `stream` is true; a model that is not listed is refused by
/// name, and so is what is no object.
pub proof fn law_message_request_is_planned(
    payload: JsonTree,
    aliases: Seq<(Seq<char>, Seq<char>)>,
    ids: IdSource,
    model: Seq<char>,
    upstream: Seq<char>,
)
    ensures
        payload.str_at("model"@) == Some(model) && upstream_name(aliases, model) == Some(upstream)
            ==> {
            &&& messages_of_value(payload, aliases, ids).0 matches ChatView::Forward {
                model: asked,
                body,
                stream,
            }
            &&& asked == model
            &&& body == json_text(openai_request(payload, upstream, ids).0)
            &&& stream <==> payload.bool_at("stream"@) == Some(true)
        },
        payload.str_at("model"@) == Some(model) && upstream_name(aliases, model) is None
            ==> messages_of_value(payload, aliases, ids) == (
            ChatView::Answer(
                (
                    400,
                    anthropic_error_body("invalid_request_error"@, "unsupported model: "@ + model),
                ),
            ),
            ids,
        ),
        payload.str_at("model"@) is None && upstream_name(aliases, Seq::empty()) is None
            ==> messages_of_value(payload, aliases, ids).0 matches ChatView::Answer((400, _)),
{
}

/// An error from upstream keeps its status, and its message where it has one; any other response is
/// answered with the message that it becomes, as a stream of events just where one was asked for.
pub proof fn law_message_is_answered(
    status: u16,
    body: Seq<u8>,
    model: Seq<char>,
    stream: bool,
    ids: IdSource,
    value: JsonTree,
    error: JsonTree,
    words: Seq<char>,
)
    ensures
        status >= 400 && json_parse_bytes(body) == parsed(value) && value.get("error"@) == Some(
            error,
        ) && error.str_at("message"@) == Some(words) ==> messages_answer(
            status,
            body,
            model,
            stream,
            ids,
        ) == Ok::<(AnswerView, IdSource), (FailureKind, Seq<char>)>(
            (AnswerView::Reply((status, anthropic_error_body("api_error"@, words))), ids),
        ),
        status >= 400 && (json_parse_bytes(body) is Err || json_parse_bytes(body) == parsed(value)
            && value.get("error"@) is None) ==> messages_answer(status, body, model, stream, ids)
            == Ok::<(AnswerView, IdSource), (FailureKind, Seq<char>)>(
            (AnswerView::Reply((status, anthropic_error_body("api_error"@, loose_text(body)))), ids),
        ),
        status < 400 && json_parse_bytes(body) is Err ==> (messages_answer(
            status,
            body,
            model,
            stream,
            ids,
        ) matches Err((FailureKind::InvalidData, _))),
        status < 400 && json_parse_bytes(body) == parsed(value) ==> {
            let message = anthropic_message(value, model, ids).0;
            let after = anthropic_message(value, model, ids).1;
            &&& messages_answer(status, body, model, stream, ids) matches Ok((answer, _))
            &&& !stream ==> answer == AnswerView::Reply((200, json_text(message)))
            &&& stream ==> answer == AnswerView::Events(message_stream(message, after).0)
        },
{
}

/// A body is its text: what is done about a request is decided by the characters that its bytes
/// encode. Bytes that encode none are a failure of the request.
pub proof fn law_body_is_its_text(
    text: Seq<char>,
    bytes: Seq<u8>,
    aliases: Seq<(Seq<char>, Seq<char>)>,
    ids: IdSource,
    payload: JsonTree,
    kind: FailureKind,
)
    ensures
        chat_of(encode_utf8(text), aliases) == chat_of_text(text, aliases),
        json_parse(text) == parsed(payload) ==> messages_of(encode_utf8(text), aliases, ids) == Ok::<
            (ChatView, IdSource),
            (FailureKind, Seq<char>),
        >(messages_of_value(payload, aliases, ids)),
        json_parse(text) is Err ==> (messages_of(encode_utf8(text), aliases, ids) matches Err(
            (FailureKind::InvalidData, _),
        )),
        !valid_utf8(bytes) ==> body_or_failure(bytes, kind) == Err::<
            Seq<char>,
            (FailureKind, Seq<char>),
        >((kind, "request body must be utf-8 json"@)),
        body_or_failure(encode_utf8(text), kind) == Ok::<Seq<char>, (FailureKind, Seq<char>)>(text),
        !valid_utf8(bytes) ==> (chat_of(bytes, aliases) matches Err((FailureKind::InvalidData, _)))
            && (messages_of(bytes, aliases, ids) matches Err((FailureKind::InvalidData, _))),
{
    encode_utf8_valid_utf8(text);
    encode_utf8_decode_utf8(text);
}

} // verus!
