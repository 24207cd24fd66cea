//! What calls of the functions of the library give: laws on the functions themselves, over what
//! they are given and what they return.
use crate::accounts::{
    add_paid_tokens, get_user_email, load_user_purchased_tokens, sync_user_email, takes_fields,
};
use crate::anthropic::{
    convert_anthropic_request_to_openai, law_assistant_message_is_passed_on,
    law_every_message_is_sent, law_settings_are_passed_on, law_system_prompt_leads,
    law_tool_choice_is_passed_on, law_tool_results_reach_the_model, law_tools_are_offered,
    law_user_message_is_passed_on, openai_request, says,
};
use crate::auth::{
    auth_outcome, authorize, authorize_internal, internal_auth_reply, law_bearer_token_is_read,
    law_internal_key_opens_internal_routes, law_key_lets_its_user_in, law_other_keys_name_nobody,
    law_who_is_let_in, screen, Admission, AuthContext,
};
use crate::chat::{
    answer_messages, chat_quota_reply, law_body_is_its_text, law_listed_model_is_forwarded,
    law_message_is_answered, law_message_request_is_planned, law_stream_is_asked_for,
    messages_quota_reply, plan_chat, plan_messages_value, ChatPlan, MessagesAnswer,
};
use crate::codec::{json_parse, json_parse_bytes, json_text, parsed};
use crate::completion::{
    convert_openai_response_to_anthropic, law_completion_is_accounted_for, law_completion_is_told,
    law_stop_reason_is_told,
};
use crate::config::{
    law_access_is_the_one_that_is_set, law_address_is_the_one_that_is_set,
    law_endpoint_is_the_one_that_is_set, law_keys_are_those_that_are_set, load_config, AppConfig,
};
use crate::failure::{
    anthropic_error_body, law_failures_are_answered, law_failures_are_told_apart, route_error_reply,
    Failure, FailureKind, Reply,
};
use crate::grants::{
    check_grant, check_sync, grant_record, granted_reply, law_grant_is_told,
    law_grant_request_is_checked, law_new_order_is_not_granted, law_order_is_granted_once,
    law_sync_is_told, plan_grant, sync_reply, GrantPlan, GrantTokensRequest, PaidGrantRecord,
    SyncUserRequest,
};
use crate::http::{events_response, head_of_lines, head_text, json_response, law_response_is_framed};
use crate::ids::IdSource;
use crate::json::{Json, JsonTree};
use crate::json_field::{escape, field_says, quoted, value_at};
use crate::login::{
    check_claims, check_header, claims_error, law_accepted_token_is_in_order,
    law_claims_are_accepted, law_header_is_accepted, law_signature_is_by_the_key,
    law_token_has_three_parts, signature_result, verify_login_token, JwtHeader, LoginTokenClaims,
};
use crate::models::{
    alias_names, allowed_models, find_model, law_listed_models_are_found, law_models_are_listed,
    law_only_plan_models_pass, model_reply, upstream_name, ModelAlias,
};
use crate::number::decimal;
use crate::pairs::pair_map;
use crate::quota::{
    auto_resolve_usage_mode, check_login_quota, decide_quota, exhausted_body,
    law_bought_tokens_come_first, law_mode_is_asked_for_by_name,
    law_request_is_decided_by_its_tokens, law_tokens_decide, requested_mode, usage_path,
    usage_record, UsageMode,
};
use crate::report::{
    account_usage, internal_usage, law_internal_report_adds_up, law_report_adds_up,
    law_report_is_about_its_user, ok_reply, report_mode, tells_tokens, usage_report, AccountUsage,
};
use crate::request::{
    law_header_field_is_read, law_request_line_is_read, HttpRequest, RequestReader, Stage,
};
use crate::route::{
    law_models_are_not_open, law_routes_have_their_paths, needs_client, route, Route,
};
use crate::sse::{
    ends_message, law_stream_tells_the_message, opens_message, synthesize_anthropic_sse, tell_block,
    told,
};
use crate::text::{
    has_text, is_white, is_word, lines_of, lower, starts_with, text_view, texts, trim,
};
use crate::upstream::{
    buffered_args, buffered_response, has_option, law_calls_carry_key_and_address,
    law_first_attempt_is_repeated, law_two_attempts_at_most, plan_retry, streaming_args,
    upstream_head, CurlResponse,
};
use crate::usage::{
    consumed, extract_usage_from_value, law_event_line_is_read, law_last_day_counts,
    law_record_counts_for_its_user, law_reported_tokens_are_read, load_user_consumed_tokens,
    note_sse_line, RequestUsage, UsageRecord,
};
use vstd::prelude::*;
use vstd::string::*;
use vstd::utf8::{encode_utf8, encode_utf8_decode_utf8, encode_utf8_valid_utf8};

verus! {

/// A conversation that is turned into a request for a chat completion keeps its messages: each text
/// of a user and each text of an assistant is there, under its role, and so is the result of each
/// tool, under the identifier of the tool use. The system prompt comes first.
#[verifier::rlimit(50)]
pub proof fn law_converted_conversation_is_whole(
    payload: &mut Json,
    model: &str,
    ids: &mut IdSource,
    r: Result<Json, String>,
    i: int,
    j: int,
    id: Seq<char>,
    s: Seq<char>,
)
    requires
        call_ensures(convert_anthropic_request_to_openai, (payload, model, ids), r),
        old(payload).tree() is Object,
    ensures
        r is Ok,
        ({
            let asked = old(payload).tree();
            let messages = asked.items_at("messages"@);
            let sent = r->Ok_0.tree().items_at("messages"@);
            let blocks = messages[i].items_at("content"@);
            &&& r->Ok_0.tree().str_at("model"@) == Some(model@)
            &&& r->Ok_0.tree().bool_at("stream"@) == Some(false)
            &&& r->Ok_0.tree().u64_at("max_tokens"@) == asked.u64_at("max_tokens"@)
            &&& asked.get("system"@) == Some(JsonTree::Str(s)) && trim(s).len() > 0 ==> sent.len() > 0
                && says(sent[0], "system"@, s)
            &&& 0 <= i < messages.len() && messages[i].str_at("role"@) != Some("assistant"@)
                && messages[i].get("content"@) == Some(JsonTree::Str(s)) && trim(s).len() > 0
                ==> exists|k: int| 0 <= k < sent.len() && says(#[trigger] sent[k], "user"@, s)
            &&& 0 <= i < messages.len() && messages[i].str_at("role"@) == Some("assistant"@)
                && messages[i].get("content"@) == Some(JsonTree::Str(s)) ==> exists|k: int|
                0 <= k < sent.len() && says(#[trigger] sent[k], "assistant"@, s)
            &&& 0 <= i < messages.len() && messages[i].str_at("role"@) != Some("assistant"@) && 0
                <= j < blocks.len() && blocks[j].str_at("type"@) == Some("tool_result"@)
                && blocks[j].str_at("tool_use_id"@) == Some(id) && id.len() > 0 && blocks[j].get(
                "content"@,
            ) == Some(JsonTree::Str(s)) ==> exists|k: int|
                0 <= k < sent.len() && (#[trigger] sent[k]).str_at("tool_call_id"@) == Some(id)
                    && says(
                    sent[k],
                    "tool"@,
                    if blocks[j].bool_at("is_error"@) == Some(true) {
                        "Tool execution failed.\n"@ + s
                    } else {
                        s
                    },
                )
        }),
{
    let asked = payload.tree();
    let messages = asked.items_at("messages"@);
    let sent = r->Ok_0.tree().items_at("messages"@);
    let blocks = messages[i].items_at("content"@);
    law_settings_are_passed_on(asked, model@, *ids, 0, 0, Seq::empty());
    law_system_prompt_leads(asked, s, model@, *ids);
    if 0 <= i < messages.len() {
        let at = law_every_message_is_sent(asked, model@, *ids, i);
        let ids1 = crate::anthropic::converted_messages(messages.take(i), *ids).1;
        law_user_message_is_passed_on(s, Seq::empty(), JsonTree::Null);
        law_assistant_message_is_passed_on(s, Seq::empty(), ids1);
        if messages[i].get("content"@) == Some(JsonTree::Str(s)) {
            if messages[i].str_at("role"@) == Some("assistant"@) {
                assert(sent.subrange(at, at + 1)[0] == sent[at]);
                assert(says(sent[at], "assistant"@, s));
            } else if trim(s).len() > 0 {
                assert(sent.subrange(at, at + 1)[0] == sent[at]);
                assert(says(sent[at], "user"@, s));
            }
        }
        if messages[i].str_at("role"@) != Some("assistant"@) && 0 <= j < blocks.len()
            && blocks[j].str_at("type"@) == Some("tool_result"@) && blocks[j].str_at("tool_use_id"@)
            == Some(id) && id.len() > 0 && blocks[j].get("content"@) == Some(JsonTree::Str(s)) {
            law_tool_results_reach_the_model(asked, model@, *ids, i, j, id, s);
        }
    }
}

/// The tools of a request are offered to the model, each in its place with its own name, description
/// and schema, and the choice of a tool is passed on.
pub proof fn law_converted_request_offers_its_tools(
    payload: &mut Json,
    model: &str,
    ids: &mut IdSource,
    r: Result<Json, String>,
    i: int,
    name: Seq<char>,
    description: Seq<char>,
    schema: JsonTree,
)
    requires
        call_ensures(convert_anthropic_request_to_openai, (payload, model, ids), r),
        old(payload).tree() is Object,
        old(payload).tree().get("tools"@) matches Some(JsonTree::Array(_)),
    ensures
        ({
            let tools = old(payload).tree().items_at("tools"@);
            let offered = r->Ok_0.tree().items_at("tools"@);
            &&& offered.len() == tools.len()
            &&& 0 <= i < tools.len() && tools[i].str_at("name"@) == Some(name) && tools[i].str_at(
                "description"@,
            ) == Some(description) && tools[i].get("input_schema"@) == Some(schema) ==> {
                &&& offered[i].str_at("type"@) == Some("function"@)
                &&& offered[i].get("function"@) matches Some(function)
                &&& function.str_at("name"@) == Some(name)
                &&& function.str_at("description"@) == Some(description)
                &&& function.get("parameters"@) == Some(schema)
            }
        }),
        ({
            let made = r->Ok_0.tree().get("tool_choice"@);
            let choice = old(payload).tree().get("tool_choice"@);
            &&& choice is None ==> made is None
            &&& choice is Some && choice->0.str_at("type"@) == Some("any"@) ==> made == Some(
                JsonTree::Str("required"@),
            )
            &&& choice is Some && choice->0.str_at("type"@) == Some("auto"@) ==> made == Some(
                JsonTree::Str("auto"@),
            )
            &&& choice is Some && choice->0.str_at("type"@) == Some("tool"@) && choice->0.str_at(
                "name"@,
            ) == Some(name) ==> made is Some && made->0.get("function"@) is Some && made->0.get(
                "function"@,
            )->0.str_at("name"@) == Some(name)
        }),
{
    let asked = payload.tree();
    law_tools_are_offered(asked, model@, *ids, i, name, description, schema);
    if let Some(c) = asked.get("tool_choice"@) {
        law_tool_choice_is_passed_on(asked, model@, *ids, c, name);
    } else {
        law_tool_choice_is_passed_on(asked, model@, *ids, JsonTree::Null, name);
    }
}

/// A stream of events tells the whole message that it was made from: it can be cut into events, of
/// which the first opens the message, three tell each of its blocks, with the identifier, the name
/// and the input of a tool use and the text of any other block, and the last ones end it.
pub proof fn law_synthesized_stream_tells_the_message(
    message: &Json,
    ids: &mut IdSource,
    r: String,
) -> (events: Seq<(Seq<char>, JsonTree)>)
    requires
        call_ensures(synthesize_anthropic_sse, (message, ids), r),
        message.tree().items_at("content"@).len() <= u64::MAX,
    ensures
        ({
            let blocks = message.tree().items_at("content"@);
            let n = blocks.len() as int;
            &&& r@ == told(events) + "data: [DONE]\n\n"@
            &&& events.len() == 3 * n + 3
            &&& opens_message(events[0], message.tree())
            &&& forall|i: int|
                #![trigger blocks[i]]
                0 <= i < n ==> tell_block(events.subrange(3 * i + 1, 3 * i + 4), i, blocks[i])
            &&& ends_message(events[3 * n + 1], message.tree())
            &&& events[3 * n + 2].0 == "message_stop"@
        }),
{
    law_stream_tells_the_message(message.tree(), *ids)
}

/// A completion is turned into the message that it holds: the text and the tool calls of its first
/// choice, the reason why it ended, and the tokens that it counts.
pub proof fn law_converted_completion_is_whole(
    openai: &Json,
    model: &str,
    ids: &mut IdSource,
    r: Json,
    chat: JsonTree,
    i: int,
    usage: JsonTree,
    n: u64,
)
    requires
        call_ensures(convert_openai_response_to_anthropic, (openai, model, ids), r),
        openai.tree().items_at("choices"@).len() > 0,
        openai.tree().items_at("choices"@)[0].get("message"@) == Some(chat),
    ensures
        ({
            let message = r.tree();
            let content = message.items_at("content"@);
            let calls = chat.items_at("tool_calls"@);
            let lead: int = if chat.str_at("content"@) is Some && chat.str_at("content"@)->0.len()
                > 0 {
                1
            } else {
                0
            };
            let reason = openai.tree().items_at("choices"@)[0].str_at("finish_reason"@);
            &&& content.len() == lead + calls.len()
            &&& lead == 1 ==> content[0].str_at("text"@) == chat.str_at("content"@)
            &&& 0 <= i < calls.len() ==> content[lead + i].str_at("type"@) == Some("tool_use"@)
            &&& 0 <= i < calls.len() && calls[i].str_at("id"@) is Some ==> content[lead + i].str_at(
                "id"@,
            ) == calls[i].str_at("id"@)
            &&& 0 <= i < calls.len() && calls[i].get("function"@) is Some
                && calls[i].get("function"@)->0.str_at("name"@) is Some ==> content[lead
                + i].str_at("name"@) == calls[i].get("function"@)->0.str_at("name"@)
            &&& message.str_at("stop_reason"@) == Some("tool_use"@) <==> reason == Some(
                "tool_calls"@,
            )
            &&& message.str_at("stop_reason"@) == Some("max_tokens"@) <==> reason == Some("length"@)
            &&& trim(model@).len() > 0 ==> message.str_at("model"@) == Some(model@)
            &&& openai.tree().get("usage"@) == Some(usage) && usage.u64_at("prompt_tokens"@) == Some(
                n,
            ) ==> message.get("usage"@) is Some && message.get("usage"@)->0.u64_at("input_tokens"@)
                == Some(n)
            &&& openai.tree().get("usage"@) == Some(usage) && usage.u64_at("completion_tokens"@)
                == Some(n) ==> message.get("usage"@) is Some && message.get("usage"@)->0.u64_at(
                "output_tokens"@,
            ) == Some(n)
        }),
{
    law_completion_is_told(openai.tree(), model@, *ids, chat, i);
    law_stop_reason_is_told(openai.tree(), model@, *ids);
    law_completion_is_accounted_for(openai.tree(), model@, *ids, usage, Seq::empty(), n);
}

/// A request for a chat completion with a listed model is sent upstream: the upstream name takes the
/// place of the name, all the rest of the body stays, and the answer is a stream just where the body
/// says so.
pub proof fn law_chat_request_is_forwarded(
    body: &Vec<u8>,
    models: &Vec<ModelAlias>,
    r: Result<ChatPlan, Failure>,
    text: Seq<char>,
    at: int,
    colon: int,
    start: int,
    model: Seq<char>,
    upstream: Seq<char>,
)
    requires
        call_ensures(plan_chat, (body, models), r),
        body@ == encode_utf8(text),
    ensures
        r matches Ok(ChatPlan::Forward { stream, .. }) ==> {
            &&& stream <==> field_says(text, "stream"@, "true"@)
            &&& field_says(text, "stream"@, "false"@) ==> !stream
        },
        value_at(text, "model"@, at, colon, start) && starts_with(
            text.skip(start),
            quoted(escape(model)),
        ) && (forall|j: int|
            at + 7 <= j < start && j != colon ==> crate::json_field::is_json_blank(
                #[trigger] text[j],
            )) && upstream_name(alias_names(models@), model) == Some(upstream) ==> {
            &&& r matches Ok(ChatPlan::Forward { model: asked, body: sent, .. })
            &&& asked@ == model
            &&& sent@ == text.take(start) + quoted(escape(upstream)) + text.skip(
                start + quoted(escape(model)).len(),
            )
        },
{
    let aliases = alias_names(models@);
    law_body_is_its_text(text, body@, aliases, arbitrary(), JsonTree::Null, FailureKind::Other);
    law_stream_is_asked_for(text, aliases);
    if value_at(text, "model"@, at, colon, start) && starts_with(
        text.skip(start),
        quoted(escape(model)),
    ) && (forall|j: int|
        at + 7 <= j < start && j != colon ==> crate::json_field::is_json_blank(#[trigger] text[j]))
        && upstream_name(aliases, model) == Some(upstream) {
        law_listed_model_is_forwarded(text, aliases, at, colon, start, model, upstream);
    }
}

/// A request for a message with a listed model is sent upstream, and is answered as a stream just
/// where its field `stream` is true; one with another model is refused with status 400.
pub proof fn law_message_request_is_forwarded(
    payload: Json,
    models: &Vec<ModelAlias>,
    ids: &mut IdSource,
    r: ChatPlan,
    model: Seq<char>,
    upstream: Seq<char>,
)
    requires
        call_ensures(plan_messages_value, (payload, models, ids), r),
        payload.tree().str_at("model"@) == Some(model),
    ensures
        upstream_name(alias_names(models@), model) == Some(upstream) ==> {
            &&& r matches ChatPlan::Forward { model: asked, body, stream }
            &&& asked@ == model
            &&& body@ == json_text(openai_request(payload.tree(), upstream, *old(ids)).0)
            &&& stream <==> payload.tree().bool_at("stream"@) == Some(true)
        },
        upstream_name(alias_names(models@), model) is None ==> (r matches ChatPlan::Answer(reply)
            && reply.status == 400 && reply.body@ == anthropic_error_body(
            "invalid_request_error"@,
            "unsupported model: "@ + model,
        )),
{
    law_message_request_is_planned(
        payload.tree(),
        alias_names(models@),
        *ids,
        model,
        upstream,
    );
}

/// A request for a message is answered by the response from upstream: an error keeps its status and
/// its message, and any other response is told as a stream just where one was asked for.
pub proof fn law_message_request_is_answered(
    status: u16,
    body: &Vec<u8>,
    model: &str,
    stream: bool,
    ids: &mut IdSource,
    r: Result<MessagesAnswer, Failure>,
    value: JsonTree,
    error: JsonTree,
    words: Seq<char>,
)
    requires
        call_ensures(answer_messages, (status, body, model, stream, ids), r),
        json_parse_bytes(body@) == parsed(value),
    ensures
        status >= 400 && value.get("error"@) == Some(error) && error.str_at("message"@) == Some(
            words,
        ) ==> (r matches Ok(MessagesAnswer::Reply(reply)) && reply.status == status && reply.body@
            == anthropic_error_body("api_error"@, words)),
        status < 400 && stream ==> r is Ok && r->Ok_0 is Events,
        status < 400 && !stream ==> (r matches Ok(MessagesAnswer::Reply(reply)) && reply.status
            == 200),
{
    law_message_is_answered(status, body@, model@, stream, *ids, value, error, words);
}

/// A request that is refused for want of tokens is answered with status 429 on both ways to the
/// models: with the text that says so, or with an error that says the same.
pub proof fn law_refused_requests_are_told(
    body: String,
    chat: Reply,
    message: Reply,
    mode: UsageMode,
    used: u64,
    total: u64,
)
    requires
        call_ensures(chat_quota_reply, (body,), chat),
        call_ensures(messages_quota_reply, (body,), message),
        body@ == exhausted_body(mode, used, total),
    ensures
        chat.status == 429,
        chat.body@ == body@,
        message.status == 429,
        message.body@ == anthropic_error_body(
            "rate_limit_error"@,
            crate::quota::exhausted_message(mode, used, total),
        ),
{
}

/// A request that asks for no mode is served from bought tokens just where its user, by key or by
/// login token, has bought more than is used up; and a user is refused just where as many tokens are
/// used up as there are.
pub proof fn law_tokens_are_used_in_their_order(
    auth: &AuthContext,
    purchased: u64,
    used: u64,
    mode: UsageMode,
    asked: UsageMode,
    total: u64,
    refusal: Option<String>,
)
    requires
        call_ensures(auto_resolve_usage_mode, (auth, purchased, used), mode),
        call_ensures(check_login_quota, (auth, asked, total, used), refusal),
    ensures
        mode == UsageMode::PaidBalance <==> (*auth is Login || *auth is ApiToken) && purchased
            > used,
        refusal is Some <==> (*auth is Login || *auth is ApiToken) && used >= total,
        refusal matches Some(body) ==> body@ == exhausted_body(asked, used, total),
{
    law_bought_tokens_come_first(*auth, *auth, purchased, used);
    law_tokens_decide(*auth, asked, total, used);
}

/// What is decided of a request of a user, where it is known what the user has bought and has used
/// up: the mode that the header field asks for, or else that of the bought tokens while there are
/// any; and a refusal just where the tokens of that mode are used up.
pub proof fn law_quota_is_decided<
    P: Fn(u64) -> Result<u64, Failure>,
    U: Fn(UsageMode, u64) -> Result<u64, Failure>,
>(
    auth: &AuthContext,
    user: u64,
    headers: &Vec<(String, String)>,
    free_total: u64,
    purchased: P,
    used: U,
    bought: u64,
    free_used: u64,
    paid_used: u64,
    r: Result<(UsageMode, Option<String>), Failure>,
)
    requires
        call_ensures(
            decide_quota::<P, U>,
            (auth, headers, free_total, purchased, used),
            r,
        ),
        *auth is ApiToken && auth->ApiToken_0 == user || *auth is Login && auth->Login_0.user_id
            == user,
        forall|n: u64| #[trigger]
            call_ensures(purchased, (user,), Ok::<u64, Failure>(n)) ==> n == bought,
        forall|n: u64| #[trigger]
            call_ensures(used, (UsageMode::FreeTrial, user), Ok::<u64, Failure>(n)) ==> n
                == free_used,
        forall|n: u64| #[trigger]
            call_ensures(used, (UsageMode::PaidBalance, user), Ok::<u64, Failure>(n)) ==> n
                == paid_used,
    ensures
        r matches Ok((mode, refusal)) ==> {
            let fields = pair_map(headers@);
            let name = "x-webclaw-usage-mode"@;
            &&& fields.contains_key(name) && trim(fields[name]) == "paid_balance"@ ==> mode
                == UsageMode::PaidBalance
            &&& fields.contains_key(name) && trim(fields[name]) == "free_trial"@ ==> mode
                == UsageMode::FreeTrial
            &&& !fields.contains_key(name) ==> (mode == UsageMode::PaidBalance <==> bought
                > paid_used)
            &&& mode == UsageMode::FreeTrial ==> (refusal is Some <==> free_used >= free_total)
            &&& mode == UsageMode::PaidBalance ==> (refusal is Some <==> paid_used >= bought)
        },
{
    law_mode_is_asked_for_by_name(pair_map(headers@));
    if let Ok((mode, refusal)) = r {
        law_request_is_decided_by_its_tokens(
            *auth,
            user,
            pair_map(headers@),
            free_total,
            purchased,
            used,
            bought,
            free_used,
            paid_used,
            mode,
            text_view(refusal),
        );
        let fields = pair_map(headers@);
        if !fields.contains_key("x-webclaw-usage-mode"@) {
            assert(requested_mode(fields) is None);
        }
    }
}

/// The use of tokens is recorded just where a user is limited and the response reports tokens, and
/// the record is about that user and those tokens.
pub proof fn law_use_is_recorded(
    auth: &AuthContext,
    known_email: &str,
    usage: Option<RequestUsage>,
    model: &str,
    stream: bool,
    ts: u64,
    r: Option<UsageRecord>,
)
    requires
        call_ensures(usage_record, (auth, known_email, usage, model, stream, ts), r),
    ensures
        r is Some <==> usage is Some && (*auth is Login || *auth is ApiToken),
        r matches Some(record) ==> {
            &&& *auth is ApiToken ==> record.user_id == auth->ApiToken_0 && record.email@
                == known_email@
            &&& *auth is Login ==> record.user_id == auth->Login_0.user_id && record.email@
                == auth->Login_0.email@
            &&& record.total_tokens == usage->0.total_tokens
            &&& record.input_tokens == usage->0.input_tokens
            &&& record.output_tokens == usage->0.output_tokens
            &&& record.model@ == model@ && record.stream == stream && record.ts == ts
        },
{
}

/// The use of free tokens is recorded in one file, and that of bought tokens in the other.
pub proof fn law_use_is_recorded_by_mode(cfg: &AppConfig, free: &str, paid: &str)
    requires
        call_ensures(usage_path, (cfg, UsageMode::FreeTrial), free),
        call_ensures(usage_path, (cfg, UsageMode::PaidBalance), paid),
    ensures
        free@ == cfg.usage_store_path@,
        paid@ == cfg.paid_usage_store_path@,
{
}

/// The account of a user counts the free tokens by one ledger and the bought ones by the other: a
/// record that is added to one of them adds its tokens there, to the whole and, where it is not
/// older than a day, to those of the last day, and changes nothing in the other.
#[verifier::rlimit(50)]
pub proof fn law_account_counts_both_ledgers(
    free: &Vec<Option<UsageRecord>>,
    more: &Vec<Option<UsageRecord>>,
    paid: &Vec<Option<UsageRecord>>,
    record: UsageRecord,
    purchased: u64,
    user: u64,
    now: u64,
    before: AccountUsage,
    after: AccountUsage,
    other: AccountUsage,
    swapped: AccountUsage,
)
    requires
        more@ == free@.push(Some(record)),
        call_ensures(account_usage, (free, paid, purchased, user, now), before),
        call_ensures(account_usage, (more, paid, purchased, user, now), after),
        call_ensures(account_usage, (paid, more, purchased, user, now), other),
        call_ensures(account_usage, (paid, free, purchased, user, now), swapped),
        consumed(more@, user) <= u64::MAX,
    ensures
        ({
            let mine = record.user_id == user;
            let recent = record.ts + 86_400_000 >= now;
            let tokens: int = if mine {
                record.total_tokens as int
            } else {
                0
            };
            let day: int = if recent {
                tokens
            } else {
                0
            };
            let one: int = if mine && recent {
                1
            } else {
                0
            };
            &&& after.free_used == before.free_used + tokens
            &&& after.free_day_tokens == before.free_day_tokens + day
            &&& after.free_day_requests == before.free_day_requests + one
            &&& after.paid_used == before.paid_used
            &&& after.paid_day_tokens == before.paid_day_tokens
            &&& after.paid_day_requests == before.paid_day_requests
            &&& after.purchased == purchased && before.purchased == purchased
            &&& other.paid_used == swapped.paid_used + tokens
            &&& other.paid_day_tokens == swapped.paid_day_tokens + day
            &&& other.paid_day_requests == swapped.paid_day_requests + one
            &&& other.free_used == swapped.free_used
            &&& other.free_day_tokens == swapped.free_day_tokens
            &&& other.free_day_requests == swapped.free_day_requests
        }),
{
    let cutoff = crate::usage::day_before(now);
    law_record_counts_for_its_user(free@, record, user);
    law_last_day_counts(free@, record, user, now);
    crate::usage::law_recent_use_is_part_of_all(more@, user, cutoff);
    crate::usage::law_recent_use_is_part_of_all(free@, user, cutoff);
}

/// A report adds up: what is used and what is left of the tokens of the mode make up the whole of
/// them. It is about the user who asks, in the mode that is asked for.
pub proof fn law_reports_add_up(
    auth: &AuthContext,
    mode: UsageMode,
    free_total: u64,
    allow_anonymous: bool,
    known_email: &str,
    account: &AccountUsage,
    report: Json,
    user: u64,
    internal: Json,
)
    requires
        call_ensures(
            usage_report,
            (auth, mode, free_total, allow_anonymous, known_email, account),
            report,
        ),
        call_ensures(internal_usage, (user, free_total, account), internal),
        *auth is Login || *auth is ApiToken,
    ensures
        ({
            let told = report.tree();
            let (total, used) = match mode {
                UsageMode::FreeTrial => (free_total, account.free_used),
                UsageMode::PaidBalance => (account.purchased, account.paid_used),
            };
            &&& tells_tokens(told, free_total, *account)
            &&& tells_tokens(internal.tree(), free_total, *account)
            &&& internal.tree().u64_at("user_id"@) == Some(user)
            &&& told.u64_at("used_tokens"@) == Some(used)
            &&& told.u64_at("remaining_tokens"@) is Some
            &&& used <= total ==> told.u64_at("remaining_tokens"@)->0 + used == total
            &&& used > total ==> told.u64_at("remaining_tokens"@)->0 == 0
            &&& *auth is ApiToken ==> told.u64_at("user_id"@) == Some(auth->ApiToken_0)
                && told.str_at("email"@) == Some(known_email@)
            &&& *auth is Login ==> told.u64_at("user_id"@) == Some(auth->Login_0.user_id)
                && told.str_at("email"@) == Some(auth->Login_0.email@)
            &&& told.bool_at("is_unlimited"@) == Some(false)
        }),
{
    law_report_adds_up(*auth, mode, free_total, allow_anonymous, known_email@, *account);
    law_report_is_about_its_user(*auth, mode, free_total, allow_anonymous, known_email@, *account);
    law_internal_report_adds_up(user, free_total, *account);
}

/// The mode of a report is the one that is asked for, or the free one; a value is told with status
/// 200 and its JSON text.
pub proof fn law_report_has_the_mode_that_is_asked_for(
    requested: Option<UsageMode>,
    mode: UsageMode,
    value: &Json,
    reply: Reply,
)
    requires
        call_ensures(report_mode, (requested,), mode),
        call_ensures(ok_reply, (value,), reply),
    ensures
        requested matches Some(asked) ==> mode == asked,
        requested is None ==> mode == UsageMode::FreeTrial,
        reply.status == 200,
        reply.body@ == json_text(value.tree()),
{
}

/// The tokens that a ledger records for a user are those of the user's records, one by one.
pub proof fn law_ledger_is_summed_up(
    ledger: &Vec<Option<UsageRecord>>,
    more: &Vec<Option<UsageRecord>>,
    record: UsageRecord,
    user: u64,
    before: u64,
    after: u64,
)
    requires
        more@ == ledger@.push(Some(record)),
        call_ensures(load_user_consumed_tokens, (ledger, user), before),
        call_ensures(load_user_consumed_tokens, (more, user), after),
    ensures
        record.user_id != user ==> after == before,
        record.user_id == user && before + record.total_tokens <= u64::MAX ==> after == before
            + record.total_tokens,
        record.user_id == user && before + record.total_tokens > u64::MAX ==> after == u64::MAX,
        ledger@.len() == 0 ==> before == 0,
{
    law_record_counts_for_its_user(ledger@, record, user);
}

/// What a response reports is read from its field `usage`, and the last line of a stream that
/// reports anything counts.
pub proof fn law_reported_usage_counts(
    value: &Json,
    r: Option<RequestUsage>,
    usage: JsonTree,
    p: u64,
    c: u64,
)
    requires
        call_ensures(extract_usage_from_value, (value,), r),
    ensures
        value.tree().get("usage"@) is None ==> r is None,
        value.tree().get("usage"@) == Some(usage) && usage.u64_at("prompt_tokens"@) == Some(p)
            && usage.u64_at("completion_tokens"@) == Some(c) ==> {
            &&& r is Some
            &&& r->0.input_tokens == p && r->0.output_tokens == c
            &&& usage.u64_at("total_tokens"@) is Some ==> Some(r->0.total_tokens) == usage.u64_at(
                "total_tokens"@,
            )
            &&& usage.u64_at("total_tokens"@) is None && p + c <= u64::MAX ==> r->0.total_tokens
                == p + c
        },
{
    law_reported_tokens_are_read(value.tree(), usage, p);
    law_reported_tokens_are_read(value.tree(), usage, c);
    if let Some(t) = usage.u64_at("total_tokens"@) {
        law_reported_tokens_are_read(value.tree(), usage, t);
    }
}

/// Tokens that are granted are added to what the user has bought, and are found there; nobody else
/// has more or less.
pub proof fn law_granted_tokens_are_bought(
    store: Json,
    user: u64,
    tokens: u64,
    r: (u64, Json),
    content: Option<&str>,
    text: &str,
    before: Result<u64, Failure>,
    after: Result<u64, Failure>,
    other: u64,
    theirs_before: Result<u64, Failure>,
    theirs_after: Result<u64, Failure>,
)
    requires
        takes_fields(store.tree()),
        call_ensures(add_paid_tokens, (store, user, tokens), r),
        content is Some,
        json_parse(content->0@) == parsed(store.tree()),
        json_parse(text@) == parsed(r.1.tree()),
        call_ensures(load_user_purchased_tokens, (content, user), before),
        call_ensures(load_user_purchased_tokens, (Some(text), user), after),
        call_ensures(load_user_purchased_tokens, (content, other), theirs_before),
        call_ensures(load_user_purchased_tokens, (Some(text), other), theirs_after),
        other != user,
    ensures
        before is Ok,
        after == Ok::<u64, Failure>(r.0),
        before->Ok_0 + tokens <= u64::MAX ==> r.0 == before->Ok_0 + tokens,
        before->Ok_0 + tokens > u64::MAX ==> r.0 == u64::MAX,
        theirs_before is Ok && theirs_before == theirs_after,
{
    crate::accounts::law_tokens_go_to_their_user(store.tree(), user, tokens, other);
}

/// An address that is set is the one that is found afterwards.
pub proof fn law_address_is_found_again(
    store: Json,
    user: u64,
    email: &str,
    changed: Json,
    text: &str,
    found: Result<String, Failure>,
)
    requires
        takes_fields(store.tree()),
        call_ensures(sync_user_email, (store, user, email), changed),
        json_parse(text@) == parsed(changed.tree()),
        call_ensures(get_user_email, (Some(text), user), found),
    ensures
        found is Ok && found->Ok_0@ == trim(email@),
{
}

/// One order is granted once: after a request was granted and recorded, every request about its
/// order finds that it was granted, however often it comes and whatever was recorded since, and is
/// answered with what was granted then.
pub proof fn law_order_is_not_granted_twice(
    payload: &GrantTokensRequest,
    grants: &Vec<Option<PaidGrantRecord>>,
    ts: u64,
    balance: u64,
    record: PaidGrantRecord,
    since: &Vec<Option<PaidGrantRecord>>,
    later: Seq<Option<PaidGrantRecord>>,
    again: &GrantTokensRequest,
    plan: GrantPlan,
) -> (answer: JsonTree)
    requires
        call_ensures(plan_grant, (payload, grants), GrantPlan::Grant),
        call_ensures(grant_record, (payload, ts, balance), record),
        since@ == grants@.push(Some(record)) + later,
        trim(again.order_no@) == trim(payload.order_no@),
        call_ensures(plan_grant, (again, since), plan),
    ensures
        plan matches GrantPlan::AlreadyGranted(reply) && reply.status == 200 && reply.body@
            == json_text(answer),
        answer.bool_at("already_granted"@) == Some(true),
        answer.u64_at("user_id"@) == Some(payload.user_id),
        answer.str_at("order_no"@) == Some(trim(payload.order_no@)),
        answer.u64_at("granted_tokens"@) == Some(payload.tokens),
        answer.u64_at("balance_after"@) == Some(balance),
{
    law_order_is_granted_once(grants@, *payload, record, ts, balance, later, *again);
    law_grant_is_told(record, *payload, ts, balance, true)
}

/// A request to grant tokens is granted where it is in order and no record names its order; the
/// answer tells the user, the tokens and the balance.
pub proof fn law_new_order_is_granted(
    payload: &GrantTokensRequest,
    refusal: Option<Reply>,
    grants: &Vec<Option<PaidGrantRecord>>,
    plan: GrantPlan,
    ts: u64,
    balance: u64,
    record: PaidGrantRecord,
    reply: Reply,
) -> (answer: JsonTree)
    requires
        call_ensures(check_grant, (payload,), refusal),
        call_ensures(plan_grant, (payload, grants), plan),
        forall|j: int|
            0 <= j < grants@.len() ==> (#[trigger] grants@[j] matches Some(record)
                ==> record.order_no@ != trim(payload.order_no@)),
        call_ensures(grant_record, (payload, ts, balance), record),
        call_ensures(granted_reply, (&record,), reply),
    ensures
        refusal is None <==> payload.user_id > 0 && payload.tokens > 0 && trim(
            payload.order_no@,
        ).len() > 0 && trim(payload.email@).len() > 0,
        refusal matches Some(refused) ==> refused.status == 400,
        plan is Grant,
        record.user_id == payload.user_id && record.granted_tokens == payload.tokens,
        reply.status == 200 && reply.body@ == json_text(answer),
        answer.bool_at("already_granted"@) == Some(false),
        answer.u64_at("user_id"@) == Some(payload.user_id),
        answer.u64_at("granted_tokens"@) == Some(payload.tokens),
        answer.u64_at("balance_after"@) == Some(balance),
{
    law_grant_request_is_checked(*payload);
    law_new_order_is_not_granted(grants@, trim(payload.order_no@));
    law_grant_is_told(record, *payload, ts, balance, false)
}

/// A request to set an address is in order just where it names a user and an address, and is
/// answered with both.
pub proof fn law_address_request_is_answered(
    payload: &SyncUserRequest,
    refusal: Option<Reply>,
    reply: Reply,
) -> (answer: JsonTree)
    requires
        call_ensures(check_sync, (payload,), refusal),
        call_ensures(sync_reply, (payload,), reply),
    ensures
        refusal is None <==> payload.user_id > 0 && trim(payload.email@).len() > 0,
        reply.status == 200 && reply.body@ == json_text(answer),
        answer.u64_at("user_id"@) == Some(payload.user_id),
        answer.str_at("email"@) == Some(trim(payload.email@)),
{
    law_sync_is_told(payload.user_id, payload.email@);
    crate::grants::sync_tree(payload.user_id, payload.email@)
}

/// A key of a user lets that user in, whatever else is allowed; and the key of the proxy, where it
/// names no user, lets its holder in without a limit.
pub proof fn law_keys_let_in<
    H: Fn(&Vec<u8>) -> Result<JwtHeader, String>,
    C: Fn(&Vec<u8>) -> Result<LoginTokenClaims, String>,
>(
    request: &HttpRequest,
    cfg: &AppConfig,
    pem: &str,
    parse_header: H,
    parse_claims: C,
    r: Result<AuthContext, String>,
    user: u64,
    rest: Seq<char>,
    key: Seq<char>,
)
    requires
        call_ensures(authorize::<H, C>, (request, cfg, pem, parse_header, parse_claims), r),
        rest.len() > 0 && !is_white(rest.last()),
        key.len() > 0 && !is_white(key[0]) && !is_white(key.last()),
    ensures
        ({
            let fields = pair_map(request.headers@);
            let field = fields["authorization"@];
            &&& fields.contains_key("authorization"@) && field == "Bearer "@ + ("sk-webclaw-"@
                + decimal(user as nat) + "-"@ + rest) ==> r == Ok::<AuthContext, String>(
                AuthContext::ApiToken(user),
            )
            &&& fields.contains_key("authorization"@) && field == "Bearer "@ + key && text_view(
                cfg.proxy_api_key,
            ) == Some(key) && (key.len() < 11 || key.take(11) != "sk-webclaw-"@) ==> r == Ok::<
                AuthContext,
                String,
            >(AuthContext::ProxyKey)
            &&& !fields.contains_key("authorization"@) && !fields.contains_key(
                "x-webclaw-license-token"@,
            ) ==> (r == Ok::<AuthContext, String>(AuthContext::Anonymous) <==> cfg.allow_anonymous)
                && (r is Err <==> !cfg.allow_anonymous)
            &&& r matches Ok(AuthContext::Login(_)) ==> fields.contains_key(
                "x-webclaw-license-token"@,
            ) && crate::login::is_signed(trim(fields["x-webclaw-license-token"@]), pem@)
        }),
{
    let fields = pair_map(request.headers@);
    let proxy_key = text_view(cfg.proxy_api_key);
    let login = choose|login: Result<LoginTokenClaims, String>| #[trigger]
        auth_outcome(fields, proxy_key, cfg.allow_anonymous, login, r);
    law_who_is_let_in(fields, proxy_key, cfg.allow_anonymous, login, r);
    if fields.contains_key("authorization"@) {
        let field = fields["authorization"@];
        if field == "Bearer "@ + ("sk-webclaw-"@ + decimal(user as nat) + "-"@ + rest) {
            law_key_lets_its_user_in(
                fields,
                user,
                rest,
                proxy_key,
                cfg.allow_anonymous,
                login,
                r,
            );
        }
        if field == "Bearer "@ + key {
            law_bearer_token_is_read(key, Seq::empty());
            if key.len() < 11 || key.take(11) != "sk-webclaw-"@ {
                law_other_keys_name_nobody(key);
            }
        }
    }
}

/// The internal routes are open to whoever sends their key, and to nobody else; whoever is refused
/// is answered with status 403.
pub proof fn law_internal_key_is_asked_for(
    request: &HttpRequest,
    cfg: &AppConfig,
    r: Result<(), Failure>,
    reply: Reply,
    sent: Seq<char>,
)
    requires
        call_ensures(authorize_internal, (request, cfg), r),
        r is Err ==> call_ensures(internal_auth_reply, (&r->Err_0,), reply),
        sent.len() > 0 ==> !is_white(sent[0]) && !is_white(sent.last()),
        text_view(cfg.internal_api_key) matches Some(key) ==> key.len() > 0,
    ensures
        ({
            let fields = pair_map(request.headers@);
            &&& fields.contains_key("authorization"@) && fields["authorization"@] == "Bearer "@
                + sent ==> (r is Ok <==> text_view(cfg.internal_api_key) == Some(sent))
            &&& !fields.contains_key("authorization"@) ==> r is Err
            &&& cfg.internal_api_key is None ==> r is Err
            &&& r is Err ==> reply.status == 403
        }),
{
    let fields = pair_map(request.headers@);
    let key = match text_view(cfg.internal_api_key) {
        Some(key) => key,
        None => seq!['x'],
    };
    law_internal_key_opens_internal_routes(
        fields,
        key,
        sent,
        Seq::empty(),
        FailureKind::PermissionDenied,
    );
    if let Err(e) = r {
        law_internal_key_opens_internal_routes(
            fields,
            key,
            sent,
            e.message@,
            FailureKind::PermissionDenied,
        );
    }
}

/// The claims of a login token are accepted just where they come from the platform, name a user and
/// an address, have not expired, and were not made more than a minute later; its first part just
/// where it names the algorithm and the type that are used; and a verdict that the signature does
/// not match, or no verdict, is not taken for one that it does.
pub proof fn law_login_tokens_are_checked(
    claims: &LoginTokenClaims,
    now: u64,
    wrong: Option<String>,
    header: &JwtHeader,
    bad: Option<String>,
    verdict: Result<bool, String>,
    r: Result<(), String>,
)
    requires
        call_ensures(check_claims, (claims, now), wrong),
        call_ensures(check_header, (header,), bad),
        call_ensures(signature_result, (verdict,), r),
    ensures
        wrong is None <==> {
            &&& claims.iss is Some && claims.iss->0@ == "webclaw-platform"@
            &&& claims.user_id > 0
            &&& trim(claims.email@).len() > 0
            &&& claims.exp > now
            &&& claims.iat is None || claims.iat->0 <= now + 60
        },
        bad is None <==> header.alg@ == "RS256"@ && (header.typ is None || lower(header.typ->0@)
            == "jwt"@),
        r is Ok <==> verdict == Ok::<bool, String>(true),
{
    law_claims_are_accepted(*claims, now);
    law_header_is_accepted(*header);
}

/// The settings are those that the variables give: the keys without the white space round them, the
/// address for the word that is set, the usual values where nothing is set, and none at all without
/// a key for the models.
pub proof fn law_settings_are_those_given(
    vars: &Vec<(String, String)>,
    r: Result<AppConfig, Failure>,
    tokens: u64,
    port: u16,
)
    requires
        call_ensures(load_config, (vars,), r),
    ensures
        ({
            let v = pair_map(vars@);
            let place = "ZAI_CODING_PLAN_ENDPOINT"@;
            let has_key = v.contains_key("ZAI_API_KEY"@) && trim(v["ZAI_API_KEY"@]).len() > 0;
            &&& r is Ok <==> has_key && (!v.contains_key(place) || lower(trim(v[place]))
                == "global"@ || lower(trim(v[place])) == "cn"@)
            &&& r matches Ok(c) ==> {
                &&& c.zai_api_key@ == trim(v["ZAI_API_KEY"@])
                &&& v.contains_key("HOST"@) ==> c.host@ == v["HOST"@]
                &&& v.contains_key("PORT"@) && v["PORT"@] == decimal(port as nat) ==> c.port == port
                &&& !v.contains_key("PORT"@) ==> c.port == 8787
                &&& c.proxy_api_key is Some <==> v.contains_key("PROXY_API_KEY"@) && trim(
                    v["PROXY_API_KEY"@],
                ).len() > 0
                &&& c.proxy_api_key is Some ==> c.proxy_api_key->0@ == trim(v["PROXY_API_KEY"@])
                &&& c.internal_api_key is Some ==> c.internal_api_key->0@ == trim(
                    v["INTERNAL_API_KEY"@],
                )
                &&& !v.contains_key("ALLOW_ANONYMOUS"@) ==> !c.allow_anonymous
                &&& v.contains_key("FREE_LOGIN_TOTAL_TOKENS"@) && trim(v["FREE_LOGIN_TOTAL_TOKENS"@])
                    == decimal(tokens as nat) ==> c.free_login_total_tokens == tokens
                &&& !v.contains_key("FREE_LOGIN_TOTAL_TOKENS"@) ==> c.free_login_total_tokens
                    == 200_000
                &&& v.contains_key(place) && lower(trim(v[place])) == "cn"@
                    ==> c.upstream_base_url@ == "https://open.bigmodel.cn/api/coding/paas/v4"@
                &&& !v.contains_key(place) ==> c.upstream_base_url@
                    == "https://api.z.ai/api/coding/paas/v4"@
                &&& alias_names(c.allowed_models@) == crate::models::plan_aliases()
            }
        }),
{
    let v = pair_map(vars@);
    match r {
        Ok(c) => {
            law_endpoint_is_the_one_that_is_set(c, v);
            law_address_is_the_one_that_is_set(c, v, port);
            law_keys_are_those_that_are_set(c, v);
            law_access_is_the_one_that_is_set(c, v, tokens);
        },
        Err(_) => {
            law_endpoint_is_the_one_that_is_set(arbitrary(), v);
        },
    }
}

/// A request goes to the handler of its method and path, whatever its query; the ways to the models,
/// the lists of models and the use of tokens are for clients that were let in.
pub proof fn law_requests_go_to_their_handlers(
    method: &str,
    path: &str,
    r: Route,
    needs: bool,
    plain: Seq<char>,
    query: Seq<char>,
)
    requires
        call_ensures(route, (method, path), r),
        call_ensures(needs_client, (&r,), needs),
        !plain.contains('?'),
        path@ == plain || path@ == plain + "?"@ + query,
    ensures
        r is ChatCompletions <==> method@ == "POST"@ && plain == "/v1/chat/completions"@,
        r is AnthropicMessages <==> method@ == "POST"@ && plain == "/api/anthropic/v1/messages"@,
        r is Models <==> method@ == "GET"@ && plain == "/v1/models"@,
        r is Usage <==> method@ == "GET"@ && plain == "/v1/usage"@,
        r is Health <==> method@ == "GET"@ && plain == "/health"@,
        r is UserUsage <==> method@ == "GET"@ && plain == "/internal/user-usage"@,
        r is GrantTokens <==> method@ == "POST"@ && plain == "/internal/grant-tokens"@,
        r is SyncUser <==> method@ == "POST"@ && plain == "/internal/sync-user"@,
        r is Preflight <==> method@ == "OPTIONS"@,
        r is Model <==> method@ == "GET"@ && starts_with(plain, "/v1/models/"@),
        needs <==> !(r is Health || r is UserUsage || r is GrantTokens || r is SyncUser
            || r is Preflight),
{
    law_routes_have_their_paths(method@, plain, query);
}

/// A response with a text as its body begins with its status and ends with the length of the body in
/// bytes, an empty line and the body.
pub proof fn law_responses_are_framed(status: u16, body: &str, json: String, events: String)
    requires
        call_ensures(json_response, (status, body), json),
        call_ensures(events_response, (body,), events),
    ensures
        ({
            let end = "Content-Length: "@ + decimal(encode_utf8(body@).len()) + "\r\n\r\n"@ + body@;
            let start = "HTTP/1.1 "@ + decimal(status as nat) + " "@;
            &&& start.len() <= json@.len() && json@.take(start.len() as int) == start
            &&& end.len() <= json@.len() && json@.skip(json@.len() - end.len()) == end
            &&& end.len() <= events@.len() && events@.skip(events@.len() - end.len()) == end
        }),
{
    law_response_is_framed(status, crate::http::JSON_CONTENT_TYPE@, body@);
    law_response_is_framed(200, crate::http::EVENTS_CONTENT_TYPE@, body@);
}

/// The calls that reach the models carry the key and go to the address of the models.
pub proof fn law_models_are_reached(
    api_key: &str,
    base_url: &str,
    head_file: &str,
    body_file: &str,
    whole: Vec<String>,
    stream: Vec<String>,
)
    requires
        call_ensures(buffered_args, (api_key, base_url, head_file, body_file), whole),
        call_ensures(streaming_args, (api_key, base_url), stream),
    ensures
        has_option(texts(whole@), "-X"@, "POST"@),
        has_option(texts(whole@), "-H"@, "Authorization: Bearer "@ + api_key@),
        has_option(texts(whole@), "-D"@, head_file@),
        has_option(texts(whole@), "-o"@, body_file@),
        has_option(texts(whole@), "--data-binary"@, "@-"@),
        texts(whole@).contains(base_url@ + "/chat/completions"@),
        has_option(texts(stream@), "-X"@, "POST"@),
        has_option(texts(stream@), "-H"@, "Authorization: Bearer "@ + api_key@),
        has_option(texts(stream@), "-H"@, "Accept: text/event-stream"@),
        has_option(texts(stream@), "--data-binary"@, "@-"@),
        texts(stream@).contains(base_url@ + "/chat/completions"@),
{
    law_calls_carry_key_and_address(api_key@, base_url@, head_file@, body_file@);
}

/// A response from upstream is passed on as it came: with its status, its media type or that of JSON
/// text, the length of its body, and its body; its tokens are those that its body reports.
pub proof fn law_upstream_response_is_passed_on(
    headers_raw: &str,
    body: Vec<u8>,
    response: CurlResponse,
    head: String,
    status: u16,
    content_type: Seq<char>,
    value: JsonTree,
)
    requires
        call_ensures(buffered_response, (headers_raw, body), response),
        call_ensures(upstream_head, (&response,), head),
    ensures
        response.body@ == body@,
        json_parse_bytes(body@) == parsed(value) ==> response.usage == crate::usage::usage_in(value),
        json_parse_bytes(body@) is Err ==> response.usage is None,
        head_of_lines(lines_of(headers_raw@)) == (status as nat, Some(content_type))
            ==> response.status_code == status && head@ == head_text(
            status,
            Some(content_type),
            Some(body@.len()),
        ),
        head_of_lines(lines_of(headers_raw@)) == (status as nat, None::<Seq<char>>)
            ==> response.status_code == status && head@ == head_text(
            status,
            Some("application/json; charset=utf-8"@),
            Some(body@.len()),
        ),
{
}

/// The call for a stream is made a second time just where the other side closed before it answered,
/// and never a third time.
pub proof fn law_streams_are_tried_twice(
    err: &Failure,
    first: Option<u64>,
    attempt: u64,
    later: Option<u64>,
)
    requires
        call_ensures(plan_retry, (1u64, err), first),
        call_ensures(plan_retry, (attempt, err), later),
        attempt >= 2,
    ensures
        first is Some <==> err.kind == FailureKind::UnexpectedEof || has_text(
            err.message@,
            "upstream closed before sending headers"@,
        ) || has_text(err.message@, "Empty reply from server"@),
        later is None,
{
    law_first_attempt_is_repeated(*err);
    law_two_attempts_at_most(attempt, *err);
}

/// A model of the list is found under its public name and told with status 200; the models of the
/// plan are asked for by the name of the plan and their upstream name; any other is not found.
pub proof fn law_models_are_found(
    models: Vec<ModelAlias>,
    id: &str,
    found: Option<&ModelAlias>,
    reply: Reply,
)
    requires
        call_ensures(allowed_models, (), models),
        call_ensures(find_model, (&models, id), found),
        call_ensures(model_reply, (&models, id), reply),
    ensures
        found matches Some(m) ==> id@ == "zai-coding-plan/"@ + m.upstream_id@ && reply.status == 200
            && starts_with(reply.body@, "{\"id\":\""@ + escape(id@) + "\""@),
        found is None ==> reply.status == 404,
        exists|i: int| 0 <= i < models@.len() && #[trigger] models@[i].public_id@ == id@ <==> found
            is Some,
{
    let aliases = alias_names(models@);
    law_only_plan_models_pass(id@);
    law_listed_models_are_found(aliases, id@, 0);
    law_models_are_listed(aliases, (id@, Seq::empty()));
    assert forall|i: int| 0 <= i < models@.len() implies aliases[i].0 == #[trigger] models@[
        i
    ].public_id@ by {}
    if found is Some {
        let i = choose|i: int| 0 <= i < aliases.len() && (#[trigger] aliases[i]).0 == id@;
        assert(models@[i].public_id@ == id@);
    }
    if exists|i: int| 0 <= i < models@.len() && #[trigger] models@[i].public_id@ == id@ {
        let i = choose|i: int| 0 <= i < models@.len() && #[trigger] models@[i].public_id@ == id@;
        assert(aliases[i].0 == id@);
    }
}

/// A failure is answered by its kind and by what it says, unless the client has gone.
pub proof fn law_failures_have_their_answers(err: &Failure, r: Option<Reply>)
    requires
        call_ensures(route_error_reply, (err,), r),
    ensures
        ({
            let of_request = err.kind == FailureKind::InvalidData || err.kind
                == FailureKind::InvalidInput;
            let closed = has_text(err.message@, "upstream closed before sending headers"@);
            let gone = (err.kind == FailureKind::BrokenPipe || err.kind
                == FailureKind::ConnectionReset || err.kind == FailureKind::UnexpectedEof)
                && !closed;
            &&& r is None <==> gone
            &&& r is Some && of_request ==> r->0.status == 400
            &&& r is Some && !of_request && has_text(err.message@, "status=429"@) ==> r->0.status
                == 429
            &&& r is Some && !of_request && !has_text(err.message@, "status=429"@) && closed
                ==> r->0.status == 503
            &&& r is Some && !of_request && !has_text(err.message@, "status=429"@) && !closed
                ==> r->0.status == 502
        }),
{
    law_failures_are_told_apart(err.kind, err.message@);
    law_failures_are_answered(*err, *err);
}

/// The values of an object are found under their names by calls as well: a number, a text, a truth
/// value and a list.
pub proof fn law_fields_are_found(
    object: &Json,
    key: &str,
    n: Option<u64>,
    s: Option<&str>,
    b: Option<bool>,
    value: JsonTree,
)
    requires
        call_ensures(Json::u64_at, (object, key), n),
        call_ensures(Json::str_at, (object, key), s),
        call_ensures(Json::bool_at, (object, key), b),
        object.tree().get(key@) == Some(value),
    ensures
        n matches Some(m) ==> value == JsonTree::Number(crate::json::NumberTree::Unsigned(m)),
        s matches Some(t) ==> value == JsonTree::Str(t@),
        b matches Some(t) ==> value == JsonTree::Bool(t),
        value is Str ==> s is Some,
        value is Bool ==> b is Some,
{
}

/// A client reaches the models only after it was let in, and as the one that it was let in as.
#[verifier::rlimit(50)]
pub proof fn law_models_are_for_clients<
    H: Fn(&Vec<u8>) -> Result<JwtHeader, String>,
    C: Fn(&Vec<u8>) -> Result<LoginTokenClaims, String>,
>(
    request: &HttpRequest,
    cfg: &AppConfig,
    pem: &str,
    parse_header: H,
    parse_claims: C,
    r: Admission,
)
    requires
        call_ensures(screen::<H, C>, (request, cfg, pem, parse_header, parse_claims), r),
        !request.path@.contains('?'),
    ensures
        r matches Admission::Open(_) ==> request.path@ != "/v1/chat/completions"@
            && request.path@ != "/api/anthropic/v1/messages"@ && request.path@ != "/v1/models"@
            && request.path@ != "/v1/usage"@ || request.method@ == "OPTIONS"@,
        r matches Admission::Client(route, auth) ==> {
            let fields = pair_map(request.headers@);
            &&& auth is Anonymous ==> cfg.allow_anonymous
            &&& auth is ProxyKey ==> cfg.proxy_api_key is Some && crate::auth::bearer_in(fields)
                == text_view(cfg.proxy_api_key)
            &&& auth is ApiToken ==> fields.contains_key("authorization"@)
            &&& auth is Login ==> fields.contains_key("x-webclaw-license-token"@)
                && crate::login::is_signed(trim(fields["x-webclaw-license-token"@]), pem@)
            &&& request.method@ == "POST"@ && request.path@ == "/v1/chat/completions"@
                ==> route is ChatCompletions
        },
        !cfg.allow_anonymous && !pair_map(request.headers@).contains_key("authorization"@)
            && !pair_map(request.headers@).contains_key("x-webclaw-license-token"@) ==> !(r
            is Client),
{
    let fields = pair_map(request.headers@);
    let proxy_key = text_view(cfg.proxy_api_key);
    law_routes_have_their_paths(request.method@, request.path@, Seq::empty());
    if r is Open {
        let path = request.path@;
        law_models_are_not_open(request.method@, path);
        crate::text::lemma_char_index(path, '?');
        if crate::text::char_index(path, '?') < path.len() {
            assert(path.contains(path[crate::text::char_index(path, '?') as int]));
        }
        assert(crate::route::path_only(path) =~= path);
        reveal_strlit("/v1/chat/completions");
        reveal_strlit("/api/anthropic/v1/messages");
        reveal_strlit("/v1/models");
        reveal_strlit("/v1/usage");
        reveal_strlit("/health");
        reveal_strlit("/internal/user-usage");
        reveal_strlit("/internal/grant-tokens");
        reveal_strlit("/internal/sync-user");
        assert("/v1/chat/completions"@.len() == 20 && "/api/anthropic/v1/messages"@.len() == 26);
        assert("/v1/models"@.len() == 10 && "/v1/usage"@.len() == 9 && "/health"@.len() == 7);
        assert("/internal/user-usage"@.len() == 20 && "/internal/grant-tokens"@.len() == 22);
        assert("/internal/sync-user"@.len() == 19 && "/v1/chat/completions"@[1] == 'v');
        assert("/internal/user-usage"@[1] == 'i');
    }
    if let Admission::Client(route, auth) = r {
        let outcome: Result<AuthContext, String> = Ok(auth);
        let login = choose|login: Result<LoginTokenClaims, String>| #[trigger]
            auth_outcome(fields, proxy_key, cfg.allow_anonymous, login, outcome);
        law_who_is_let_in(fields, proxy_key, cfg.allow_anonymous, login, outcome);
    }
}

/// A login token that is accepted was signed by the key over its first two parts, and its claims,
/// read from the second, are in order.
pub proof fn law_accepted_login_token_was_signed<
    H: Fn(&Vec<u8>) -> Result<JwtHeader, String>,
    C: Fn(&Vec<u8>) -> Result<LoginTokenClaims, String>,
>(
    token: &str,
    pem: &str,
    parse_header: H,
    parse_claims: C,
    r: Result<LoginTokenClaims, String>,
    first: Seq<char>,
    second: Seq<char>,
    signature: Seq<u8>,
)
    requires
        call_ensures(verify_login_token::<H, C>, (token, pem, parse_header, parse_claims), r),
        !first.contains('.'),
        !second.contains('.'),
        !crate::encoding::base64url(signature).contains('.'),
        token@ == first + "."@ + second + "."@ + crate::encoding::base64url(signature),
        r is Ok,
    ensures
        exists|key: Seq<u8>| #[trigger]
            crate::login::pem_holds(encode_utf8(pem@), key) && crate::login::signature_holds(
                key,
                encode_utf8(first + "."@ + second),
                signature,
            ),
        r->Ok_0.user_id > 0,
        trim(r->Ok_0.email@).len() > 0,
        r->Ok_0.iss is Some && r->Ok_0.iss->0@ == "webclaw-platform"@,
{
    let third = crate::encoding::base64url(signature);
    law_token_has_three_parts(first, second, third);
    law_accepted_token_is_in_order(token@, pem@, parse_header, parse_claims, r->Ok_0);
    law_signature_is_by_the_key(pem@, first + "."@ + second, signature);
    let now = choose|now: u64| #[trigger] claims_error(r->Ok_0, now) == None::<Seq<char>>;
    law_claims_are_accepted(r->Ok_0, now);
}

/// The first line of a request, its fields and its body are read as they were sent.
pub proof fn law_requests_are_read(
    reader: &mut RequestReader,
    line: &str,
    r: Result<(), Failure>,
    method: Seq<char>,
    path: Seq<char>,
    version: Seq<char>,
    name: Seq<char>,
    value: Seq<char>,
)
    requires
        call_ensures(RequestReader::take_line, (reader, line), r),
        method.len() > 0 && is_word(method),
        path.len() > 0 && is_word(path),
        is_word(name) && !name.contains(':'),
        value.len() > 0 ==> !is_white(value[0]) && !is_white(value.last()),
    ensures
        old(reader).stage == Stage::Start && line@ == method + " "@ + path + " "@ + version
            + "\r\n"@ ==> r is Ok && final(reader).stage == Stage::Headers
            && final(reader).request.method@ == method && final(reader).request.path@ == path,
        old(reader).stage == Stage::Headers && line@ == name + ": "@ + value + "\r\n"@ ==> r is Ok
            && pair_map(final(reader).request.headers@) == pair_map(
            old(reader).request.headers@,
        ).insert(lower(name), value) && final(reader).request.body@ == old(reader).request.body@,
{
    if old(reader).stage == Stage::Start {
        law_request_line_is_read(method, path, version);
    }
    if old(reader).stage == Stage::Headers {
        law_header_field_is_read(old(reader)@, name, value);
    }
}

/// A line of a stream that reports tokens takes the place of what was reported before; any other
/// line leaves it.
pub proof fn law_stream_lines_are_noted(
    before: Option<RequestUsage>,
    line: &[u8],
    r: Option<RequestUsage>,
    data: Seq<char>,
    value: JsonTree,
)
    requires
        call_ensures(note_sse_line, (before, line), r),
        data.len() > 0 && !is_white(data[0]) && !is_white(data.last()),
        json_parse(data) == parsed(value),
        data != "[DONE]"@,
    ensures
        line@ == encode_utf8("data: "@ + data + "\n"@) && value.get("usage"@) is Some ==> r
            == crate::usage::usage_in(value) && r is Some,
        line@ == encode_utf8("data: "@ + data + "\n"@) && value.get("usage"@) is None ==> r
            == before,
        line@ == encode_utf8("data: [DONE]"@ + "\n"@) ==> r == before,
{
    law_event_line_is_read(data, "\n"@);
    law_reported_tokens_are_read(value, JsonTree::Null, 0);
    encode_utf8_valid_utf8("data: "@ + data + "\n"@);
    encode_utf8_decode_utf8("data: "@ + data + "\n"@);
    encode_utf8_valid_utf8("data: [DONE]"@ + "\n"@);
    encode_utf8_decode_utf8("data: [DONE]"@ + "\n"@);
}

} // verus!
