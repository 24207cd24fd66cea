use zai_proxy::bytes::{text_of_bytes, width_of};
use zai_proxy::ids::{anthropic_unique_id, IdSource};
use zai_proxy::json::{Fields, Json};
use zai_proxy::json_field::{
    escape_json, extract_json_bool_field, extract_json_string_field, parse_json_string,
    replace_json_string_field,
};
use zai_proxy::models::{allowed_models, build_models_payload, encoded_model_reply, find_model, model_reply, models_reply};

#[test]
fn json_text_is_read_and_written() {
    let value = Json::parse(" {\"b\": [1, -2, 1.5, true, null], \"a\": \"x\\u4f60\\n\"} ").unwrap();
    assert_eq!(value.to_text(), "{\"a\":\"x\u{4f60}\\n\",\"b\":[1,-2,1.5,true,null]}");
    assert_eq!(
        String::from_utf8(Json::parse("{\"a\":[1],\"b\":{}}").unwrap().to_pretty()).unwrap(),
        "{\n  \"a\": [\n    1\n  ],\n  \"b\": {}\n}"
    );
}

#[test]
fn json_text_that_is_none_is_refused() {
    assert_eq!(Json::parse("{").unwrap_err(), "EOF while parsing an object at line 1 column 1");
    assert_eq!(Json::parse("nux").unwrap_err(), "expected ident at line 1 column 3");
    assert!(Json::parse_bytes(b"\"\xff\"").is_err());
    assert_eq!(Json::parse_bytes(b"[0]").unwrap().to_text(), "[0]");
}

#[test]
fn values_are_read_by_kind() {
    let value = Json::parse("{\"s\":\"t\",\"n\":7,\"m\":-7,\"f\":7.0,\"b\":true,\"l\":[1,2]}").unwrap();
    assert_eq!(value.str_at("s"), Some("t"));
    assert_eq!(value.u64_at("n"), Some(7));
    assert_eq!(value.u64_at("m"), None);
    assert_eq!(value.u64_at("f"), None);
    assert_eq!(value.bool_at("b"), Some(true));
    assert_eq!(value.array_at("l").unwrap().len(), 2);
    assert!(value.get("x").is_none());
    assert!(Json::parse("[1]").unwrap().get("x").is_none());
    assert_eq!(value.get("n").unwrap().as_float().unwrap().to_text(), "7.0");
    assert_eq!(value.get("f").unwrap().as_float().unwrap().to_text(), "7.0");
    assert!(value.get("s").unwrap().as_float().is_none());
    assert_eq!(value.copy().to_text(), value.to_text());
}

#[test]
fn the_last_field_counts() {
    let mut fields = Fields::new();
    fields.put("a", Json::unsigned(1));
    fields.put("b", Json::text("x"));
    fields.put("a", Json::array(vec![Json::Null]));
    let value = fields.done();
    assert_eq!(value.to_text(), "{\"a\":[null],\"b\":\"x\"}");
    assert!(value.u64_at("a").is_none());
}

#[test]
fn bytes_and_characters() {
    assert_eq!(text_of_bytes(&"\u{4f60}".as_bytes().to_vec()), Some("\u{4f60}".to_string()));
    assert_eq!(text_of_bytes(&vec![0xff]), None);
    for c in ['a', '\u{7f}', '\u{80}', '\u{7ff}', '\u{800}', '\u{ffff}', '\u{10000}'] {
        assert_eq!(width_of(c), c.len_utf8());
    }
}

#[test]
fn strings_are_escaped_and_read_back() {
    let s = "a\"b\\c\nd\re\tf/\u{4f60}";
    assert_eq!(escape_json(s), "a\\\"b\\\\c\\nd\\re\\tf/\u{4f60}");
    let quoted = format!("\"{}\", rest", escape_json(s));
    assert_eq!(parse_json_string(&quoted), Some((s.to_string(), quoted.len() - 6)));
}

#[test]
fn strings_in_json_text() {
    assert_eq!(parse_json_string("\"\\b\\f\\/\\x\"y"), Some(("\u{8}\u{c}/x".to_string(), 10)));
    assert_eq!(parse_json_string("\"\u{4f60}\""), Some(("\u{4f60}".to_string(), 5)));
    assert_eq!(parse_json_string("\"\\u0041\""), None);
    assert_eq!(parse_json_string("\"open"), None);
    assert_eq!(parse_json_string("x\"a\""), None);
    assert_eq!(parse_json_string(""), None);
}

#[test]
fn fields_of_json_text() {
    let body = "{\"messages\":[],\"model\" : \n\"zai-coding-plan/glm-5\",\"stream\": true}";
    assert_eq!(extract_json_string_field(body, "model"), Some("zai-coding-plan/glm-5".to_string()));
    assert_eq!(extract_json_bool_field(body, "stream"), Some(true));
    assert_eq!(extract_json_bool_field("{\"stream\":false}", "stream"), Some(false));
    assert_eq!(extract_json_bool_field("{\"stream\":1}", "stream"), None);
    assert_eq!(extract_json_string_field("{\"model\":5}", "model"), None);
    assert_eq!(extract_json_string_field("{}", "model"), None);
    assert_eq!(extract_json_string_field("\"model\"", "model"), None);
}

#[test]
fn a_field_of_json_text_is_replaced() {
    let body = "{\"model\" : \"zai-coding-plan/glm-5\" ,\"x\":1}";
    let replaced = replace_json_string_field(body, "model", "glm\"5").unwrap();
    assert_eq!(replaced, "{\"model\" : \"glm\\\"5\" ,\"x\":1}");
    assert_eq!(extract_json_string_field(&replaced, "model"), Some("glm\"5".to_string()));
    assert_eq!(replace_json_string_field("{\"model\",:\"a\"}", "model", "b"), None);
    assert_eq!(replace_json_string_field("{\"model\":5}", "model", "b"), None);
    assert_eq!(replace_json_string_field("{}", "model", "b"), None);
    assert_eq!(replace_json_string_field("{\"model\":\"a", "model", "b"), None);
}

#[test]
fn identifiers() {
    assert_eq!(anthropic_unique_id("msg", 0x18bcfe5687b, 10), "msg_18bcfe5687ba");
    let mut ids = IdSource { now_ms: 255, counter: u64::MAX };
    assert_eq!(ids.take_id("toolu"), "toolu_ffffffffffffffffff");
    assert_eq!(ids.take_id("toolu"), "toolu_ff0");
    assert_eq!(ids.take_id("toolu"), "toolu_ff1");
}

#[test]
fn the_models_of_the_plan() {
    let models = allowed_models();
    let names: Vec<_> = models.iter().map(|m| (m.public_id, m.upstream_id)).collect();
    assert_eq!(
        names,
        vec![
            ("zai-coding-plan/glm-5", "glm-5"),
            ("zai-coding-plan/glm-5-turbo", "glm-5-turbo"),
            ("zai-coding-plan/glm-4.7", "glm-4.7"),
            ("zai-coding-plan/glm-4.7-flash", "glm-4.7-flash"),
            ("zai-coding-plan/glm-4.7-flashx", "glm-4.7-flashx"),
        ]
    );
    assert_eq!(find_model(&models, "zai-coding-plan/glm-4.7").unwrap().upstream_id, "glm-4.7");
    assert!(find_model(&models, "glm-4.7").is_none());
    assert!(find_model(&models, "").is_none());
}

#[test]
fn models_are_listed() {
    let models = allowed_models()[..2].to_vec();
    assert_eq!(
        build_models_payload(&models),
        "{\"object\":\"list\",\"data\":[{\"id\":\"zai-coding-plan/glm-5\",\"object\":\"model\",\"created\":0,\"owned_by\":\"zai-coding-plan-proxy\"},{\"id\":\"zai-coding-plan/glm-5-turbo\",\"object\":\"model\",\"created\":0,\"owned_by\":\"zai-coding-plan-proxy\"}]}"
    );
    assert_eq!(models_reply(&models).status, 200);
    assert_eq!(models_reply(&models).body, build_models_payload(&models));
    assert_eq!(build_models_payload(&Vec::new()), "{\"object\":\"list\",\"data\":[]}");
}

#[test]
fn one_model_is_told() {
    let models = allowed_models();
    let reply = encoded_model_reply(&models, "zai-coding-plan%2Fglm-5");
    assert_eq!(reply.status, 200);
    assert_eq!(
        reply.body,
        "{\"id\":\"zai-coding-plan/glm-5\",\"object\":\"model\",\"created\":0,\"owned_by\":\"zai-coding-plan-proxy\"}"
    );
    assert_eq!(model_reply(&models, "zai-coding-plan/glm-5").body, reply.body);
    let reply = model_reply(&models, "gpt-4");
    assert_eq!(reply.status, 404);
    assert_eq!(reply.body, "{\"error\":{\"message\":\"model not found\",\"type\":\"invalid_request_error\",\"code\":\"model_not_found\"}}");
}

#[test]
fn identifiers_of_different_moments_differ() {
    let at = |now_ms: u64, counter: u64| anthropic_unique_id("msg", now_ms, counter);
    assert_ne!(at(0x18bcfe5687b, 1), at(0x18bcfe5687c, 1));
    assert_ne!(at(0x18bcfe5687b, 0x11), at(0x18bcfe5687b, 0x1));
    assert_eq!(at(0x1a, 0xb), at(0x1, 0xab));
}

#[test]
fn a_field_is_replaced_where_it_stands() {
    let mut fields = Fields::new();
    fields.put("b", Json::unsigned(1));
    fields.put("a", Json::unsigned(2));
    fields.put("b", Json::text("x"));
    let object = fields.done();
    assert_eq!(object.to_text(), "{\"a\":2,\"b\":\"x\"}");
    assert_eq!(object.str_at("b"), Some("x"));
    assert_eq!(object.u64_at("a"), Some(2));
}
