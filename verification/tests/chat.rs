use zai_proxy::anthropic::{
    block_anthropic_content_to_text, convert_anthropic_request_to_openai, convert_anthropic_tool_choice,
    convert_anthropic_tools, extract_anthropic_system_text, inline_anthropic_content_to_text,
};
use zai_proxy::auth::AuthContext;
use zai_proxy::chat::{
    answer_messages, body_text, chat_quota_reply, invalid_json_body, messages_quota_reply, plan_chat, plan_messages,
    ChatPlan, MessagesAnswer,
};
use zai_proxy::completion::{convert_openai_response_to_anthropic, map_anthropic_stop_reason};
use zai_proxy::failure::FailureKind;
use zai_proxy::ids::IdSource;
use zai_proxy::json::Json;
use zai_proxy::models::allowed_models;
use zai_proxy::quota::{check_login_quota, UsageMode};
use zai_proxy::sse::synthesize_anthropic_sse;

fn ids() -> IdSource {
    IdSource { now_ms: 0xabc, counter: 0 }
}

fn json(text: &str) -> Json {
    Json::parse(text).unwrap()
}

#[test]
fn listed_models_are_forwarded_under_their_upstream_name() {
    for model in allowed_models() {
        let body = format!("{{\"stream\":true,\"model\":\"{}\",\"x\":\"\u{4f60}\"}}", model.public_id);
        match plan_chat(&body.into_bytes(), &allowed_models()).unwrap() {
            ChatPlan::Forward { model: asked, body, stream } => {
                assert_eq!(asked, model.public_id);
                assert_eq!(body, format!("{{\"stream\":true,\"model\":\"{}\",\"x\":\"\u{4f60}\"}}", model.upstream_id));
                assert!(stream);
            }
            ChatPlan::Answer(reply) => panic!("{reply:?}"),
        }
    }
}

#[test]
fn other_models_are_refused() {
    for model in ["glm-5", "zai/glm-5", "gpt-4", ""] {
        match plan_chat(&format!("{{\"model\":\"{model}\"}}").into_bytes(), &allowed_models()).unwrap() {
            ChatPlan::Answer(reply) => {
                assert_eq!(reply.status, 400);
                assert_eq!(
                    reply.body,
                    format!("{{\"error\":{{\"message\":\"unsupported model: {model}\",\"type\":\"invalid_request_error\",\"code\":\"model_not_allowed\"}}}}")
                );
            }
            ChatPlan::Forward { .. } => panic!("{model} was let through"),
        }
    }
}

#[test]
fn requests_that_are_no_chat() {
    let failed = |body: &[u8]| {
        let err = plan_chat(&body.to_vec(), &allowed_models()).unwrap_err();
        assert_eq!(err.kind, FailureKind::InvalidData);
        err.message
    };
    assert_eq!(failed(b"\xff"), "request body must be utf-8 json");
    assert_eq!(failed(b"{}"), "request json missing model");
    assert_eq!(failed(b"{\"model\",:\"zai-coding-plan/glm-5\"}"), "failed to rewrite model field");
    match plan_chat(&b"{\"model\":\"zai-coding-plan/glm-5\"}".to_vec(), &allowed_models()).unwrap() {
        ChatPlan::Forward { stream, .. } => assert!(!stream),
        ChatPlan::Answer(reply) => panic!("{reply:?}"),
    }
    assert_eq!(body_text(&vec![0xff], FailureKind::InvalidInput).unwrap_err().kind, FailureKind::InvalidInput);
    assert_eq!(body_text(&b"a".to_vec(), FailureKind::InvalidInput).unwrap(), "a");
    let err = invalid_json_body("x");
    assert_eq!((err.kind, err.message.as_str()), (FailureKind::InvalidInput, "invalid json body: x"));
}

#[test]
fn messages_become_a_chat() {
    let mut payload = json(
        "{\"model\":\"m\",\"system\":[{\"text\":\"be\"},{\"text\":\"kind\"},{\"x\":1}],\"max_tokens\":10,\"temperature\":1,\"top_p\":0.5,\"stream\":true,\"messages\":[{\"role\":\"user\",\"content\":\"hi\"},{\"role\":\"assistant\",\"content\":[{\"type\":\"text\",\"text\":\"ok\"},{\"type\":\"tool_use\",\"id\":\" \",\"name\":\"f\",\"input\":{\"b\":1,\"a\":2}}]},{\"role\":\"user\",\"content\":[{\"type\":\"tool_result\",\"tool_use_id\":\"t1\",\"content\":[{\"type\":\"text\",\"text\":\"r\"},{\"type\":\"image\"}],\"is_error\":true},{\"type\":\"tool_result\",\"tool_use_id\":\"\"}]}],\"tools\":[{\"name\":\"f\",\"description\":\"d\",\"input_schema\":{\"k\":1}},{}],\"tool_choice\":{\"type\":\"tool\",\"name\":\"f\"}}",
    );
    let mut source = ids();
    let chat = convert_anthropic_request_to_openai(&mut payload, "glm-5", &mut source).unwrap();
    assert_eq!(
        chat.to_text(),
        "{\"max_tokens\":10,\"messages\":[{\"content\":\"be\\n\\nkind\",\"role\":\"system\"},{\"content\":\"hi\",\"role\":\"user\"},{\"content\":\"ok\",\"role\":\"assistant\",\"tool_calls\":[{\"function\":{\"arguments\":\"{\\\"a\\\":2,\\\"b\\\":1}\",\"name\":\"f\"},\"id\":\"toolu_abc0\",\"type\":\"function\"}]},{\"content\":\"Tool execution failed.\\nr\\n\\n{\\\"type\\\":\\\"image\\\"}\",\"role\":\"tool\",\"tool_call_id\":\"t1\"}],\"model\":\"glm-5\",\"stream\":false,\"temperature\":1.0,\"tool_choice\":{\"function\":{\"name\":\"f\"},\"type\":\"function\"},\"tools\":[{\"function\":{\"description\":\"d\",\"name\":\"f\",\"parameters\":{\"k\":1}},\"type\":\"function\"},{\"function\":{\"description\":\"\",\"name\":\"tool\",\"parameters\":{\"properties\":{},\"type\":\"object\"}},\"type\":\"function\"}],\"top_p\":0.5}"
    );
    assert_eq!(source.counter, 1);
    assert!(payload.get("system").is_none());
}

#[test]
fn parts_of_messages() {
    assert_eq!(extract_anthropic_system_text(Some(json("\"s\""))), "s");
    assert_eq!(extract_anthropic_system_text(Some(json("{\"b\":1}"))), "{\"b\":1}");
    assert_eq!(extract_anthropic_system_text(None), "");
    assert_eq!(inline_anthropic_content_to_text(Some(&json("5"))), Some("5".to_string()));
    assert_eq!(inline_anthropic_content_to_text(Some(&json("[{\"type\":\"image\"}]"))), Some(String::new()));
    assert_eq!(inline_anthropic_content_to_text(None), None);
    assert_eq!(block_anthropic_content_to_text(Some(&json("[{\"type\":\"text\"},1]"))), "\n\n1");
    assert_eq!(block_anthropic_content_to_text(Some(&json("\"x\""))), "x");
    assert_eq!(block_anthropic_content_to_text(None), "");
    assert!(convert_anthropic_tools(Some(&json("{}"))).is_none());
    assert_eq!(convert_anthropic_tools(Some(&json("[]"))).unwrap().to_text(), "[]");
    let choice = |text: &str| convert_anthropic_tool_choice(Some(&json(text))).map(|c| c.to_text());
    assert_eq!(choice("{\"type\":\"auto\"}"), Some("\"auto\"".to_string()));
    assert_eq!(choice("{\"type\":\"any\"}"), Some("\"required\"".to_string()));
    assert_eq!(choice("{\"type\":\"tool\"}"), None);
    assert_eq!(choice("{\"type\":\"none\"}"), None);
    assert_eq!(choice("\"auto\""), None);
}

#[test]
fn plans_for_messages() {
    let body = b"{\"model\":\"zai-coding-plan/glm-4.7\",\"stream\":true,\"messages\":[]}".to_vec();
    match plan_messages(&body, &allowed_models(), &mut ids()).unwrap() {
        ChatPlan::Forward { model, body, stream } => {
            assert_eq!(model, "zai-coding-plan/glm-4.7");
            assert_eq!(body, "{\"messages\":[],\"model\":\"glm-4.7\",\"stream\":false}");
            assert!(stream);
        }
        ChatPlan::Answer(reply) => panic!("{reply:?}"),
    }
    match plan_messages(&b"{\"model\":\"x\\\"\"}".to_vec(), &allowed_models(), &mut ids()).unwrap() {
        ChatPlan::Answer(reply) => {
            assert_eq!(reply.status, 400);
            assert_eq!(reply.body, "{\"type\":\"error\",\"error\":{\"type\":\"invalid_request_error\",\"message\":\"unsupported model: x\\\"\"}}");
        }
        ChatPlan::Forward { .. } => panic!("let through"),
    }
    match plan_messages(&b"[]".to_vec(), &allowed_models(), &mut ids()).unwrap() {
        ChatPlan::Answer(reply) => assert!(reply.body.contains("unsupported model: \"")),
        ChatPlan::Forward { .. } => panic!("let through"),
    }
    let err = plan_messages(&b"{".to_vec(), &allowed_models(), &mut ids()).unwrap_err();
    assert_eq!(err.kind, FailureKind::InvalidData);
    assert_eq!(err.message, "invalid anthropic json: EOF while parsing an object at line 1 column 1");
    let err = plan_messages(&vec![0xff], &allowed_models(), &mut ids()).unwrap_err();
    assert_eq!(err.message, "request body must be utf-8 json");
}

#[test]
fn a_payload_that_is_no_object_is_refused() {
    let mut payload = json("[1]");
    let err = convert_anthropic_request_to_openai(&mut payload, "m", &mut ids()).unwrap_err();
    assert_eq!(err, "anthropic payload must be an object");
    assert_eq!(payload.to_text(), "[1]");
}

const RESPONSE: &str = "{\"id\":\"c1\",\"choices\":[{\"finish_reason\":\"tool_calls\",\"message\":{\"content\":\"hi\",\"tool_calls\":[{\"id\":\"t1\",\"function\":{\"name\":\"f\",\"arguments\":\"{\\\"a\\\":1}\"}},{\"function\":{\"arguments\":\"oops\"}}]}}],\"usage\":{\"prompt_tokens\":3,\"completion_tokens\":4}}";

#[test]
fn a_completion_becomes_a_message() {
    let message = convert_openai_response_to_anthropic(&json(RESPONSE), "m", &mut ids());
    assert_eq!(
        message.to_text(),
        "{\"content\":[{\"text\":\"hi\",\"type\":\"text\"},{\"id\":\"t1\",\"input\":{\"a\":1},\"name\":\"f\",\"type\":\"tool_use\"},{\"id\":\"\",\"input\":{},\"name\":\"tool\",\"type\":\"tool_use\"}],\"id\":\"c1\",\"model\":\"m\",\"role\":\"assistant\",\"stop_reason\":\"tool_use\",\"stop_sequence\":null,\"type\":\"message\",\"usage\":{\"input_tokens\":3,\"output_tokens\":4}}"
    );
    let message = convert_openai_response_to_anthropic(&json("{}"), " ", &mut ids());
    assert_eq!(
        message.to_text(),
        "{\"content\":[],\"id\":\"msg_abc0\",\"model\":\"glm\",\"role\":\"assistant\",\"stop_reason\":\"end_turn\",\"stop_sequence\":null,\"type\":\"message\",\"usage\":{\"input_tokens\":0,\"output_tokens\":0}}"
    );
}

#[test]
fn reasons_to_stop() {
    assert_eq!(map_anthropic_stop_reason("tool_calls"), "tool_use");
    assert_eq!(map_anthropic_stop_reason("length"), "max_tokens");
    assert_eq!(map_anthropic_stop_reason("stop"), "end_turn");
}

#[test]
fn a_tool_call_comes_back() {
    let mut payload = json(
        "{\"messages\":[{\"role\":\"assistant\",\"content\":[{\"type\":\"tool_use\",\"id\":\"t9\",\"name\":\"f\",\"input\":{\"q\":[1,2]}}]}]}",
    );
    let chat = convert_anthropic_request_to_openai(&mut payload, "m", &mut ids()).unwrap();
    let sent = chat.array_at("messages").unwrap()[0].to_text();
    let back = convert_openai_response_to_anthropic(&json(&format!("{{\"choices\":[{{\"message\":{sent}}}]}}")), "m", &mut ids());
    assert_eq!(
        back.array_at("content").unwrap()[0].to_text(),
        "{\"id\":\"t9\",\"input\":{\"q\":[1,2]},\"name\":\"f\",\"type\":\"tool_use\"}"
    );
}

#[test]
fn a_message_becomes_a_stream() {
    let message = json("{\"id\":\"c1\",\"model\":\"m\",\"content\":[{\"type\":\"text\",\"text\":\"hi\"},{\"type\":\"tool_use\",\"input\":{\"a\":1}}],\"stop_reason\":\"tool_use\",\"usage\":{\"input_tokens\":3,\"output_tokens\":4}}");
    let mut source = ids();
    assert_eq!(
        synthesize_anthropic_sse(&message, &mut source),
        "event: message_start\ndata: {\"message\":{\"content\":[],\"id\":\"c1\",\"model\":\"m\",\"role\":\"assistant\",\"stop_reason\":null,\"stop_sequence\":null,\"type\":\"message\",\"usage\":{\"input_tokens\":3,\"output_tokens\":0}},\"type\":\"message_start\"}\n\n\
event: content_block_start\ndata: {\"content_block\":{\"text\":\"\",\"type\":\"text\"},\"index\":0,\"type\":\"content_block_start\"}\n\n\
event: content_block_delta\ndata: {\"delta\":{\"text\":\"hi\",\"type\":\"text_delta\"},\"index\":0,\"type\":\"content_block_delta\"}\n\n\
event: content_block_stop\ndata: {\"index\":0,\"type\":\"content_block_stop\"}\n\n\
event: content_block_start\ndata: {\"content_block\":{\"id\":\"toolu_abc0\",\"input\":{},\"name\":\"tool\",\"type\":\"tool_use\"},\"index\":1,\"type\":\"content_block_start\"}\n\n\
event: content_block_delta\ndata: {\"delta\":{\"partial_json\":\"{\\\"a\\\":1}\",\"type\":\"input_json_delta\"},\"index\":1,\"type\":\"content_block_delta\"}\n\n\
event: content_block_stop\ndata: {\"index\":1,\"type\":\"content_block_stop\"}\n\n\
event: message_delta\ndata: {\"delta\":{\"stop_reason\":\"tool_use\",\"stop_sequence\":null},\"type\":\"message_delta\",\"usage\":{\"output_tokens\":4}}\n\n\
event: message_stop\ndata: {\"type\":\"message_stop\"}\n\n\
data: [DONE]\n\n"
    );
    assert_eq!(source.counter, 1);
}

#[test]
fn answers_to_messages() {
    match answer_messages(200, &RESPONSE.as_bytes().to_vec(), "m", false, &mut ids()).unwrap() {
        MessagesAnswer::Reply(reply) => {
            assert_eq!(reply.status, 200);
            assert!(reply.body.contains("\"stop_reason\":\"tool_use\""));
        }
        MessagesAnswer::Events(_) => panic!("a stream"),
    }
    match answer_messages(200, &RESPONSE.as_bytes().to_vec(), "m", true, &mut ids()).unwrap() {
        MessagesAnswer::Events(text) => assert!(text.starts_with("event: message_start\n") && text.ends_with("data: [DONE]\n\n")),
        MessagesAnswer::Reply(_) => panic!("no stream"),
    }
    let failed = |status: u16, body: &[u8]| match answer_messages(status, &body.to_vec(), "m", true, &mut ids()).unwrap() {
        MessagesAnswer::Reply(reply) => (reply.status, reply.body),
        MessagesAnswer::Events(_) => panic!("a stream"),
    };
    assert_eq!(
        failed(429, b"{\"error\":{\"message\":\"slow \\\"down\\\"\"}}"),
        (429, "{\"type\":\"error\",\"error\":{\"type\":\"api_error\",\"message\":\"slow \\\"down\\\"\"}}".to_string())
    );
    assert_eq!(
        failed(500, b"oops\xff"),
        (500, "{\"type\":\"error\",\"error\":{\"type\":\"api_error\",\"message\":\"oops\u{fffd}\"}}".to_string())
    );
    let err = answer_messages(399, &b"x".to_vec(), "m", true, &mut ids()).unwrap_err();
    assert_eq!(err.kind, FailureKind::InvalidData);
    assert_eq!(err.message, "invalid upstream chat response json: expected value at line 1 column 1");
}

#[test]
fn messages_without_tokens_left() {
    let reply = messages_quota_reply("{\"error\":{\"message\":\"free quota exhausted. used 5 of 5 tokens\"}}".to_string());
    assert_eq!(reply.status, 429);
    assert_eq!(
        reply.body,
        "{\"type\":\"error\",\"error\":{\"type\":\"rate_limit_error\",\"message\":\"free quota exhausted. used 5 of 5 tokens\"}}"
    );
    let reply = chat_quota_reply("body".to_string());
    assert_eq!((reply.status, reply.body.as_str()), (429, "body"));
    assert!(messages_quota_reply("plain".to_string()).body.contains("\"message\":\"plain\""));
}

#[test]
fn a_whole_turn_comes_back() {
    let turn = |content: &str| {
        let mut payload = json(&format!("{{\"messages\":[{{\"role\":\"assistant\",\"content\":{content}}}]}}"));
        let chat = convert_anthropic_request_to_openai(&mut payload, "m", &mut ids()).unwrap();
        let sent = chat.array_at("messages").unwrap()[0].to_text();
        let openai = json(&format!("{{\"choices\":[{{\"message\":{sent}}}]}}"));
        convert_openai_response_to_anthropic(&openai, "m", &mut ids()).get("content").unwrap().to_text()
    };
    let uses = "{\"id\":\"t1\",\"input\":{\"q\":[1]},\"name\":\"f\",\"type\":\"tool_use\"},{\"id\":\"t2\",\"input\":{},\"name\":\"g\",\"type\":\"tool_use\"}";
    let whole = format!("[{{\"text\":\"hi\",\"type\":\"text\"}},{uses}]");
    assert_eq!(turn(&whole), whole);
    assert_eq!(turn(&format!("[{uses}]")), format!("[{uses}]"));
    assert_eq!(
        turn(&format!("[{{\"text\":\"a\",\"type\":\"text\"}},{{\"text\":\"b\",\"type\":\"text\"}},{uses}]")),
        format!("[{{\"text\":\"a\\n\\nb\",\"type\":\"text\"}},{uses}]")
    );
}

#[test]
fn a_refused_model_is_named_as_it_was_asked_for() {
    match plan_chat(&b"{\"model\":\"a\\\"b\\\\c\"}".to_vec(), &allowed_models()).unwrap() {
        ChatPlan::Answer(reply) => {
            let read = json(&reply.body);
            assert_eq!(read.get("error").unwrap().str_at("message"), Some("unsupported model: a\"b\\c"));
            assert_eq!(read.get("error").unwrap().str_at("code"), Some("model_not_allowed"));
        }
        ChatPlan::Forward { .. } => panic!("let through"),
    }
}

#[test]
fn the_message_of_a_used_up_quota_is_passed_on() {
    for (mode, words) in [(UsageMode::FreeTrial, "free quota"), (UsageMode::PaidBalance, "paid balance")] {
        let body = check_login_quota(&AuthContext::ApiToken(3), mode, 5, 6).unwrap();
        assert_eq!(
            messages_quota_reply(body).body,
            format!("{{\"type\":\"error\",\"error\":{{\"type\":\"rate_limit_error\",\"message\":\"{words} exhausted. used 6 of 5 tokens\"}}}}")
        );
    }
}
