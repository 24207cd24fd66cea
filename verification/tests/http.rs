use zai_proxy::failure::{
    anthropic_error, classify_route_error, is_client_disconnect, json_error, route_error_reply,
    should_retry_stream_setup, Failure, FailureKind,
};
use zai_proxy::http::{
    empty_response, events_response, headers_end, json_response, parse_header_block,
    read_http_headers, reason_phrase, response_head, status_line,
};
use zai_proxy::json::Json;
use zai_proxy::request::{HttpRequest, RequestReader, Want};
use zai_proxy::route::{
    health_reply, needs_client, not_found_reply, route, unauthorized_reply, unreadable_reply, without_query,
    Route,
};
use zai_proxy::upstream::{
    buffered_args, buffered_response, call_failure, plan_retry, setup_failure, stream_head,
    streaming_args, upstream_head,
};

fn failure(kind: FailureKind, message: &str) -> Failure {
    Failure { kind, message: message.to_string() }
}

const FIELDS: &str = "Connection: close\r\nAccess-Control-Allow-Origin: *\r\nAccess-Control-Allow-Headers: Authorization, Content-Type, X-WebClaw-License-Token, X-WebClaw-Usage-Mode\r\nAccess-Control-Allow-Methods: GET, POST, OPTIONS\r\n";

#[test]
fn phrases_of_statuses() {
    for (status, phrase) in [
        (200, "OK"),
        (204, "No Content"),
        (400, "Bad Request"),
        (401, "Unauthorized"),
        (403, "Forbidden"),
        (404, "Not Found"),
        (405, "Method Not Allowed"),
        (429, "Too Many Requests"),
        (500, "Internal Server Error"),
        (502, "Bad Gateway"),
        (503, "OK"),
        (0, "OK"),
    ] {
        assert_eq!(reason_phrase(status), phrase);
        assert_eq!(status_line(status), format!("HTTP/1.1 {status} {phrase}\r\n"));
    }
}

#[test]
fn a_json_response_tells_its_length_in_bytes() {
    let expected = format!(
        "HTTP/1.1 200 OK\r\n{FIELDS}Content-Type: application/json; charset=utf-8\r\nContent-Length: 8\r\n\r\n\"\u{4f60}\u{597d}\""
    );
    assert_eq!(json_response(200, "\"\u{4f60}\u{597d}\""), expected);
}

#[test]
fn other_responses() {
    assert_eq!(empty_response(204), format!("HTTP/1.1 204 No Content\r\n{FIELDS}Content-Length: 0\r\n\r\n"));
    assert_eq!(
        events_response("data: x\n\n"),
        format!("HTTP/1.1 200 OK\r\n{FIELDS}Content-Type: text/event-stream; charset=utf-8\r\nContent-Length: 9\r\n\r\ndata: x\n\n")
    );
    assert_eq!(
        response_head(200, Some("text/event-stream".to_string()), None),
        format!("HTTP/1.1 200 OK\r\n{FIELDS}Content-Type: text/event-stream\r\n\r\n")
    );
}

#[test]
fn heads_are_read() {
    assert_eq!(
        parse_header_block("HTTP/1.1 404 Not Found\r\nCONTENT-TYPE :  text/plain \r\nX: y\r\n\r\n"),
        (404, Some("text/plain".to_string()))
    );
    assert_eq!(parse_header_block(""), (200, None));
    assert_eq!(parse_header_block("HTTP/2\r\n"), (200, None));
    assert_eq!(parse_header_block("HTTP/1.1 99999 x"), (200, None));
    assert_eq!(
        parse_header_block("HTTP/1.1 301 Moved\r\nContent-Type: a\r\n\r\nHTTP/1.1 200 OK\r\nContent-Type: b\r\n\r\n"),
        (200, Some("b".to_string()))
    );
}

#[test]
fn a_head_that_is_sent_can_be_read() {
    let head = response_head(429, Some("application/json".to_string()), Some(12));
    assert_eq!(parse_header_block(&head), (429, Some("application/json".to_string())));
    let mut out = Vec::new();
    let mut bytes = head.clone().into_bytes();
    bytes.extend_from_slice(b"rest\r\n\r\n");
    assert!(read_http_headers(&bytes, &mut out).is_ok());
    assert_eq!(out, head.into_bytes());
}

#[test]
fn a_head_ends_with_an_empty_line() {
    let mut out = b"before".to_vec();
    assert!(read_http_headers(&b"HTTP/1.1 200 OK\r\nA: b\r\n\r\nbody".to_vec(), &mut out).is_ok());
    assert_eq!(out, b"beforeHTTP/1.1 200 OK\r\nA: b\r\n\r\n");
    let mut out = Vec::new();
    assert!(read_http_headers(&b"\n\nbody".to_vec(), &mut out).is_ok());
    assert_eq!(out, b"\n\n");
    assert!(headers_end(&b"x\r\n\r\n".to_vec()));
    assert!(!headers_end(&b"x\n\n".to_vec()));
}

#[test]
fn a_head_that_does_not_end_is_a_failure() {
    let mut out = Vec::new();
    let err = read_http_headers(&b"HTTP/1.1 200 OK\n\n".to_vec(), &mut out).unwrap_err();
    assert_eq!(err.kind, FailureKind::UnexpectedEof);
    assert_eq!(err.message, "upstream closed before sending headers");
    assert_eq!(out, b"HTTP/1.1 200 OK\n\n");
}

fn read(lines: &[&str], bytes: &[&[u8]]) -> Result<HttpRequest, Failure> {
    let mut reader = RequestReader::new();
    let mut lines = lines.iter();
    let mut bytes = bytes.iter();
    loop {
        match reader.want() {
            Want::Line => reader.take_line(lines.next().unwrap_or(&"x"))?,
            Want::Exact(n) => {
                let chunk = bytes.next().unwrap().to_vec();
                assert_eq!(chunk.len(), n);
                reader.take_bytes(chunk);
            }
            Want::Nothing => return Ok(reader.finish()),
        }
    }
}

#[test]
fn a_request_without_a_body_is_read() {
    let request = read(&["GET /health HTTP/1.1\r\n", "Host:  a:1 \r\n", "nonsense\r\n", "host: b\r\n", "\r\n"], &[]).unwrap();
    assert_eq!(request.method, "GET");
    assert_eq!(request.path, "/health");
    assert_eq!(request.headers, vec![("host".to_string(), "a:1".to_string()), ("host".to_string(), "b".to_string())]);
    assert!(request.body.is_empty());
}

#[test]
fn a_request_with_a_length_is_read() {
    let request = read(&["POST /x HTTP/1.1\r\n", "CONTENT-LENGTH: 5\r\n", "\r\n"], &[b"hello"]).unwrap();
    assert_eq!(request.body, b"hello");
    let request = read(&["POST /x HTTP/1.1\r\n", "Content-Length: five\r\n", ""], &[]).unwrap();
    assert!(request.body.is_empty());
}

#[test]
fn a_request_in_chunks_is_read() {
    let request = read(
        &["POST /x HTTP/1.1\r\n", "Transfer-Encoding: gzip, Chunked\r\n", "content-length: 3\r\n", "\r\n", "\r\n", " 5;ext=1\r\n", "A\r\n", "0\r\n", "Trailer: x\r\n", "\r\n"],
        &[b"hello", b"\r\n", b" world!!!!", b"\r\n"],
    )
    .unwrap();
    assert_eq!(request.body, b"hello world!!!!");
}

#[test]
fn requests_that_cannot_be_read() {
    let err = read(&["\r\n"], &[]).unwrap_err();
    assert_eq!((err.kind, err.message.as_str()), (FailureKind::UnexpectedEof, "empty request"));
    let err = read(&["GET\r\n"], &[]).unwrap_err();
    assert_eq!((err.kind, err.message.as_str()), (FailureKind::InvalidData, "missing path"));
    let err = read(&["POST / HTTP/1.1\r\n", "transfer-encoding: chunked\r\n", "\r\n", "xyz;a\r\n"], &[]).unwrap_err();
    assert_eq!((err.kind, err.message.as_str()), (FailureKind::InvalidData, "invalid chunk size: xyz"));
}

#[test]
fn routes() {
    let word = |method: &str, path: &str| format!("{:?}", route(method, path));
    assert_eq!(word("GET", "/health"), "Health");
    assert_eq!(word("GET", "/health?x=1"), "Health");
    assert_eq!(word("POST", "/health"), "NotFound");
    assert_eq!(word("OPTIONS", "/anything"), "Preflight");
    assert_eq!(word("GET", "/internal/user-usage?user_id=123"), "UserUsage");
    assert_eq!(word("POST", "/internal/grant-tokens"), "GrantTokens");
    assert_eq!(word("POST", "/internal/sync-user"), "SyncUser");
    assert_eq!(word("GET", "/v1/models"), "Models");
    assert_eq!(word("GET", "/v1/usage"), "Usage");
    assert_eq!(word("GET", "/v1/models/zai-coding-plan%2Fglm-5"), "Model(\"zai-coding-plan%2Fglm-5\")");
    assert_eq!(word("GET", "/v1/models//v1/models/a"), "Model(\"a\")");
    assert_eq!(word("POST", "/v1/chat/completions"), "ChatCompletions");
    assert_eq!(word("POST", "/api/anthropic/v1/messages"), "AnthropicMessages");
    assert_eq!(word("GET", "/v1/chat/completions"), "NotFound");
    assert_eq!(word("DELETE", "/v1/models"), "NotFound");
    assert_eq!(without_query("/a?b?c"), "/a");
    assert_eq!(without_query("/a"), "/a");
}

#[test]
fn only_a_few_routes_are_open() {
    assert!(!needs_client(&Route::Health));
    assert!(!needs_client(&Route::Preflight));
    assert!(!needs_client(&Route::UserUsage));
    assert!(needs_client(&Route::Models));
    assert!(needs_client(&Route::NotFound));
    assert!(needs_client(&Route::ChatCompletions));
}

#[test]
fn fixed_answers() {
    assert_eq!(health_reply().body, "{\"ok\":true,\"provider\":\"zai-coding-plan-openai-proxy\"}");
    assert_eq!(health_reply().status, 200);
    let reply = not_found_reply();
    assert_eq!(reply.status, 404);
    assert_eq!(reply.body, "{\"error\":{\"message\":\"route not found\",\"type\":\"invalid_request_error\",\"code\":\"not_found\"}}");
    assert_eq!(unauthorized_reply("no").status, 401);
    assert_eq!(unreadable_reply("empty request").body, "{\"error\":{\"message\":\"empty request\",\"type\":\"invalid_request_error\",\"code\":\"invalid_request\"}}");
}

#[test]
fn failures_are_classified() {
    let told = |kind: FailureKind, message: &str| {
        let (status, code, _) = classify_route_error(&failure(kind, message), message);
        (status, code)
    };
    assert_eq!(told(FailureKind::InvalidData, "status=429"), (400, "invalid_request"));
    assert_eq!(told(FailureKind::InvalidInput, ""), (400, "invalid_request"));
    assert_eq!(told(FailureKind::Other, "status=429 x"), (429, "rate_limit"));
    assert_eq!(told(FailureKind::UnexpectedEof, "upstream closed before sending headers; curl stderr: x"), (503, "upstream_unavailable"));
    assert_eq!(told(FailureKind::Other, "curl upstream request failed"), (502, "upstream_request_failed"));
    assert_eq!(told(FailureKind::TimedOut, "?"), (502, "upstream_error"));
}

#[test]
fn a_client_that_has_gone_is_told_nothing() {
    assert!(route_error_reply(&failure(FailureKind::BrokenPipe, "x")).is_none());
    assert!(is_client_disconnect(&failure(FailureKind::ConnectionReset, "x")));
    assert!(is_client_disconnect(&failure(FailureKind::UnexpectedEof, "x")));
    assert!(!is_client_disconnect(&failure(FailureKind::Other, "x")));
    let reply = route_error_reply(&failure(FailureKind::UnexpectedEof, "upstream closed before sending headers")).unwrap();
    assert_eq!(reply.status, 503);
    assert_eq!(
        reply.body,
        "{\"error\":{\"message\":\"upstream closed before sending headers, please retry\",\"type\":\"invalid_request_error\",\"code\":\"upstream_unavailable\"}}"
    );
}

#[test]
fn errors_are_escaped() {
    assert_eq!(
        json_error("a\"b", "x\\y\n\r\tz"),
        "{\"error\":{\"message\":\"x\\\\y\\n\\r\\tz\",\"type\":\"invalid_request_error\",\"code\":\"a\\\"b\"}}"
    );
    assert_eq!(
        anthropic_error("api_error", "say \"hi\""),
        "{\"type\":\"error\",\"error\":{\"type\":\"api_error\",\"message\":\"say \\\"hi\\\"\"}}"
    );
}

#[test]
fn the_start_of_a_stream_is_tried_twice() {
    let eof = failure(FailureKind::UnexpectedEof, "x");
    assert!(should_retry_stream_setup(&eof));
    assert!(should_retry_stream_setup(&failure(FailureKind::Other, "curl: (52) Empty reply from server")));
    assert!(!should_retry_stream_setup(&failure(FailureKind::Other, "x")));
    assert_eq!(plan_retry(1, &eof), Some(200));
    assert_eq!(plan_retry(2, &eof), None);
    assert_eq!(plan_retry(1, &failure(FailureKind::BrokenPipe, "x")), None);
}

#[test]
fn what_curl_says_is_added() {
    let eof = failure(FailureKind::UnexpectedEof, "upstream closed before sending headers");
    let told = setup_failure(&eof, b"  curl: (6) no host\n");
    assert_eq!(told.kind, FailureKind::UnexpectedEof);
    assert_eq!(told.message, "upstream closed before sending headers; curl stderr: curl: (6) no host");
    assert_eq!(setup_failure(&eof, b" \n").message, "upstream closed before sending headers");
    assert_eq!(plan_retry(1, &told), Some(200));
    assert_eq!(call_failure().message, "curl upstream request failed");
    assert_eq!(call_failure().kind, FailureKind::Other);
}

#[test]
fn arguments_of_curl() {
    assert_eq!(
        buffered_args("k", "https://api.z.ai/api/coding/paas/v4", "h", "b").join(" "),
        "-sS --http1.1 -X POST -H Authorization: Bearer k -H Content-Type: application/json -H Accept: application/json -D h -o b https://api.z.ai/api/coding/paas/v4/chat/completions --data-binary @-"
    );
    assert_eq!(
        streaming_args("k", "u").join(" "),
        "-sS -N --http1.1 -X POST -H Authorization: Bearer k -H Content-Type: application/json -H Accept: text/event-stream -D - u/chat/completions --data-binary @-"
    );
    assert_eq!(buffered_args("k", "u", "h", "b").len(), 17);
    assert_eq!(streaming_args("k", "u").len(), 16);
}

#[test]
fn a_buffered_response_is_passed_on() {
    let response = buffered_response(
        "HTTP/1.1 201 Created\r\n\r\n",
        b"{\"usage\":{\"prompt_tokens\":3,\"completion_tokens\":4}}".to_vec(),
    );
    assert_eq!(response.status_code, 201);
    assert_eq!(response.content_type, None);
    assert_eq!(response.usage.unwrap().total_tokens, 7);
    assert_eq!(
        upstream_head(&response),
        format!("HTTP/1.1 201 OK\r\n{FIELDS}Content-Type: application/json; charset=utf-8\r\nContent-Length: 51\r\n\r\n")
    );
}

#[test]
fn a_stream_is_passed_on() {
    assert_eq!(
        stream_head(&b"HTTP/1.1 200 OK\r\nContent-Type: text/event-stream;x\r\n\r\n".to_vec()),
        format!("HTTP/1.1 200 OK\r\n{FIELDS}Content-Type: text/event-stream;x\r\n\r\n")
    );
    assert_eq!(
        stream_head(&b"HTTP/1.1 500 \xff\r\n\r\n".to_vec()),
        format!("HTTP/1.1 500 Internal Server Error\r\n{FIELDS}Content-Type: text/event-stream\r\n\r\n")
    );
}

#[test]
fn errors_are_read_as_they_were_written() {
    let message = "no \"x\" in C:\\tmp\r\n\tor \u{4f60} {}";
    let read = Json::parse(&json_error("bad_request", message)).unwrap();
    let error = read.get("error").unwrap();
    assert_eq!(error.str_at("message"), Some(message));
    assert_eq!(error.str_at("type"), Some("invalid_request_error"));
    assert_eq!(error.str_at("code"), Some("bad_request"));
    let read = Json::parse(&anthropic_error("api_error", message)).unwrap();
    assert_eq!(read.str_at("type"), Some("error"));
    assert_eq!(read.get("error").unwrap().str_at("type"), Some("api_error"));
    assert_eq!(read.get("error").unwrap().str_at("message"), Some(message));
}

#[test]
fn control_characters_make_errors_unreadable() {
    assert!(Json::parse(&json_error("bad_request", "a\u{1}b")).is_err());
}
