use zai_proxy::accounts::{
    add_paid_tokens, add_tokens_to_text, can_take_fields, get_user_email, load_user_purchased_tokens,
    open_store, set_email_in_text, sync_user_email, user_email,
};
use zai_proxy::auth::AuthContext;
use zai_proxy::failure::{Failure, FailureKind};
use zai_proxy::grants::{
    check_grant, check_sync, find_grant_record_by_order_no, grant_record, granted_reply, plan_grant,
    sync_reply, GrantPlan, GrantTokensRequest, PaidGrantRecord, SyncUserRequest,
};
use zai_proxy::login::LoginTokenClaims;
use zai_proxy::quota::{
    auto_resolve_usage_mode, check_login_quota, decide_quota, quota_user, requested_usage_mode_from_headers,
    usage_mode_label, usage_record, UsageMode,
};
use zai_proxy::report::{
    account_usage, internal_usage, missing_user_reply, ok_reply, report_mode, requested_user, usage_report, AccountUsage,
};
use zai_proxy::usage::{
    extract_usage_from_json_bytes, extract_usage_from_sse_line, load_user_consumed_tokens,
    load_user_consumed_tokens_last_24h, note_sse_line, RequestUsage, UsageRecord,
};

fn record(ts: u64, user_id: u64, total_tokens: u64) -> Option<UsageRecord> {
    Some(UsageRecord {
        ts,
        user_id,
        email: "a@b.c".to_string(),
        total_tokens,
        input_tokens: 1,
        output_tokens: 2,
        model: "m".to_string(),
        stream: false,
    })
}

fn login() -> AuthContext {
    AuthContext::Login(LoginTokenClaims {
        user_id: 7,
        email: "u@x.y".to_string(),
        pro_status: true,
        exp: 2,
        iat: None,
        iss: None,
    })
}

#[test]
fn use_is_added_up_for_each_user() {
    let mut ledger = vec![record(1, 7, 100), None, record(2, 8, 50), record(3, 7, 11)];
    assert_eq!(load_user_consumed_tokens(&ledger, 7), 111);
    assert_eq!(load_user_consumed_tokens(&ledger, 8), 50);
    assert_eq!(load_user_consumed_tokens(&ledger, 9), 0);
    ledger.push(record(4, 8, 5));
    assert_eq!(load_user_consumed_tokens(&ledger, 7), 111);
    assert_eq!(load_user_consumed_tokens(&ledger, 8), 55);
    ledger.push(record(5, 7, u64::MAX));
    assert_eq!(load_user_consumed_tokens(&ledger, 7), u64::MAX);
}

#[test]
fn use_of_the_last_day() {
    let now = 100_000_000;
    let cutoff = now - 86_400_000;
    let ledger = vec![record(cutoff - 1, 7, 1), record(cutoff, 7, 10), record(now, 7, 100), record(now, 8, 1000), None];
    assert_eq!(load_user_consumed_tokens_last_24h(&ledger, 7, now), (110, 2));
    assert_eq!(load_user_consumed_tokens_last_24h(&ledger, 7, 5), (111, 3));
    assert_eq!(load_user_consumed_tokens_last_24h(&ledger, 9, now), (0, 0));
}

#[test]
fn tokens_in_a_response() {
    let usage = extract_usage_from_json_bytes(b"{\"usage\":{\"prompt_tokens\":3,\"completion_tokens\":4,\"total_tokens\":9}}").unwrap();
    assert_eq!(usage, RequestUsage { total_tokens: 9, input_tokens: 3, output_tokens: 4 });
    let usage = extract_usage_from_json_bytes(b"{\"usage\":{\"input_tokens\":3,\"output_tokens\":4}}").unwrap();
    assert_eq!(usage, RequestUsage { total_tokens: 7, input_tokens: 3, output_tokens: 4 });
    let usage = extract_usage_from_json_bytes(b"{\"usage\":{\"prompt_tokens\":\"3\",\"input_tokens\":5}}").unwrap();
    assert_eq!(usage, RequestUsage { total_tokens: 0, input_tokens: 0, output_tokens: 0 });
    let usage = extract_usage_from_json_bytes(b"{\"usage\":{\"prompt_tokens\":18446744073709551615,\"completion_tokens\":1}}").unwrap();
    assert_eq!(usage.total_tokens, u64::MAX);
    assert_eq!(extract_usage_from_json_bytes(b"{}"), None);
    assert_eq!(extract_usage_from_json_bytes(b"not json"), None);
}

#[test]
fn tokens_in_a_stream() {
    let line = b"data: {\"usage\":{\"total_tokens\":5}}\r\n";
    let usage = extract_usage_from_sse_line(line).unwrap();
    assert_eq!(usage.total_tokens, 5);
    assert_eq!(extract_usage_from_sse_line(b"data: [DONE]\n"), None);
    assert_eq!(extract_usage_from_sse_line(b"data:\n"), None);
    assert_eq!(extract_usage_from_sse_line(b"event: x\n"), None);
    assert_eq!(extract_usage_from_sse_line(b"data: {\n"), None);
    assert_eq!(extract_usage_from_sse_line(b"data: \xff\n"), None);
    assert_eq!(note_sse_line(Some(usage), b"data: [DONE]\n"), Some(usage));
    assert_eq!(note_sse_line(Some(usage), b"data: {\"usage\":{\"total_tokens\":6}}\n").unwrap().total_tokens, 6);
    assert_eq!(note_sse_line(None, b"\n"), None);
}

#[test]
fn what_a_user_has_bought() {
    let store = "{\"123\":500000,\"456\":1200000,\"7\":\"x\"}";
    assert_eq!(load_user_purchased_tokens(Some(store), 123).unwrap(), 500000);
    assert_eq!(load_user_purchased_tokens(Some(store), 456).unwrap(), 1200000);
    assert_eq!(load_user_purchased_tokens(Some(store), 7).unwrap(), 0);
    assert_eq!(load_user_purchased_tokens(Some(store), 12).unwrap(), 0);
    assert_eq!(load_user_purchased_tokens(Some("[]"), 7).unwrap(), 0);
    assert_eq!(load_user_purchased_tokens(None, 7).unwrap(), 0);
    let err = load_user_purchased_tokens(Some("{"), 7).unwrap_err();
    assert_eq!(err.kind, FailureKind::Other);
    assert_eq!(err.message, "parse paid balance store failed: EOF while parsing an object at line 1 column 1");
}

#[test]
fn bought_tokens_are_added_and_read_back() {
    let (next, text) = add_tokens_to_text(Some("{\"123\":500000,\"456\":1200000}"), 123, 11).unwrap();
    assert_eq!(next, 500011);
    let text = String::from_utf8(text).unwrap();
    assert_eq!(text, "{\n  \"123\": 500011,\n  \"456\": 1200000\n}");
    assert_eq!(load_user_purchased_tokens(Some(&text), 123).unwrap(), 500011);
    assert_eq!(load_user_purchased_tokens(Some(&text), 456).unwrap(), 1200000);
    let (next, text) = add_tokens_to_text(Some(&text), 123, u64::MAX).unwrap();
    assert_eq!(next, u64::MAX);
    assert_eq!(load_user_purchased_tokens(Some(std::str::from_utf8(&text).unwrap()), 123).unwrap(), u64::MAX);
}

#[test]
fn a_store_may_be_missing_or_broken() {
    assert_eq!(add_tokens_to_text(None, 1, 2).unwrap(), (2, b"{\n  \"1\": 2\n}".to_vec()));
    assert_eq!(add_tokens_to_text(Some("garbage"), 1, 2).unwrap().0, 2);
    assert_eq!(add_tokens_to_text(Some("null"), 1, 2).unwrap().0, 2);
    assert!(add_tokens_to_text(Some("[1]"), 1, 2).is_none());
    assert!(set_email_in_text(Some("5"), 1, "a").is_none());
    assert!(!can_take_fields(&open_store(Some("true"))));
    let (next, store) = add_paid_tokens(open_store(Some("{\"1\":40}")), 1, 2);
    assert_eq!((next, store.to_text()), (42, "{\"1\":42}".to_string()));
}

#[test]
fn addresses_are_kept() {
    let text = set_email_in_text(Some("{\"8\":\"o@p.q\"}"), 7, "  a@b.c \n").unwrap();
    let text = String::from_utf8(text).unwrap();
    assert_eq!(text, "{\n  \"7\": \"a@b.c\",\n  \"8\": \"o@p.q\"\n}");
    assert_eq!(get_user_email(Some(&text), 7).unwrap(), "a@b.c");
    assert_eq!(get_user_email(Some(&text), 8).unwrap(), "o@p.q");
    assert_eq!(get_user_email(Some(&text), 9).unwrap(), "user-9@example.com");
    assert_eq!(get_user_email(None, 9).unwrap(), "user-9@example.com");
    let err = get_user_email(Some("x"), 9).unwrap_err();
    assert_eq!(err.kind, FailureKind::Other);
    assert!(err.message.starts_with("parse user emails failed: expected value"));
    let store = sync_user_email(open_store(None), 3, " z ");
    assert_eq!(user_email(&store, 3), "z");
}

#[test]
fn modes() {
    let mode = |v: &str| requested_usage_mode_from_headers(&vec![("x-webclaw-usage-mode".to_string(), v.to_string())]);
    assert_eq!(mode(" paid_balance "), Some(UsageMode::PaidBalance));
    assert_eq!(mode("free_trial"), Some(UsageMode::FreeTrial));
    assert_eq!(mode("FREE_TRIAL"), None);
    assert_eq!(requested_usage_mode_from_headers(&Vec::new()), None);
    assert_eq!(usage_mode_label(UsageMode::PaidBalance), "paid_balance");
    assert_eq!(usage_mode_label(UsageMode::FreeTrial), "free_trial");
    assert_eq!(report_mode(None), UsageMode::FreeTrial);
    assert_eq!(report_mode(Some(UsageMode::PaidBalance)), UsageMode::PaidBalance);
    assert_eq!(auto_resolve_usage_mode(&login(), 10, 9), UsageMode::PaidBalance);
    assert_eq!(auto_resolve_usage_mode(&login(), 10, 10), UsageMode::FreeTrial);
    assert_eq!(auto_resolve_usage_mode(&AuthContext::ProxyKey, 10, 0), UsageMode::FreeTrial);
}

#[test]
fn users_are_refused_when_their_tokens_are_used_up() {
    assert_eq!(check_login_quota(&login(), UsageMode::FreeTrial, 200000, 199999), None);
    assert_eq!(
        check_login_quota(&login(), UsageMode::FreeTrial, 200000, 200000).unwrap(),
        "{\"error\":{\"message\":\"free quota exhausted. used 200000 of 200000 tokens\",\"type\":\"insufficient_quota\",\"code\":\"free_quota_exhausted\"}}"
    );
    assert_eq!(
        check_login_quota(&AuthContext::ApiToken(3), UsageMode::PaidBalance, 0, 0).unwrap(),
        "{\"error\":{\"message\":\"paid balance exhausted. used 0 of 0 tokens\",\"type\":\"insufficient_quota\",\"code\":\"paid_balance_exhausted\"}}"
    );
    assert_eq!(check_login_quota(&AuthContext::ProxyKey, UsageMode::FreeTrial, 0, 5), None);
    assert_eq!(check_login_quota(&AuthContext::Anonymous, UsageMode::PaidBalance, 0, 5), None);
    assert_eq!(quota_user(&login()), Some(7));
    assert_eq!(quota_user(&AuthContext::ApiToken(3)), Some(3));
    assert_eq!(quota_user(&AuthContext::ProxyKey), None);
}

#[test]
fn a_request_is_charged_to_the_tokens_that_are_left() {
    let headers = |mode: &str| vec![("x-webclaw-usage-mode".to_string(), mode.to_string())];
    let none = Vec::new();
    let broken = |_: u64| -> Result<u64, Failure> { Err(Failure { kind: FailureKind::Other, message: "broken".to_string() }) };
    let bought = |_: u64| -> Result<u64, Failure> { Ok(10) };
    let used = |mode: UsageMode, _: u64| -> Result<u64, Failure> {
        Ok(match mode {
            UsageMode::FreeTrial => 100,
            UsageMode::PaidBalance => 9,
        })
    };
    let decided = |auth: &AuthContext, headers: &Vec<(String, String)>, total: u64| {
        let (mode, refusal) = decide_quota(auth, headers, total, bought, used).unwrap();
        (mode, refusal.is_some())
    };
    assert_eq!(decided(&login(), &none, 100), (UsageMode::PaidBalance, false));
    assert_eq!(decided(&login(), &headers("free_trial"), 100), (UsageMode::FreeTrial, true));
    assert_eq!(decided(&login(), &headers("free_trial"), 101), (UsageMode::FreeTrial, false));
    assert_eq!(decided(&AuthContext::ProxyKey, &none, 0), (UsageMode::FreeTrial, false));
    assert_eq!(decided(&AuthContext::ProxyKey, &headers("paid_balance"), 0), (UsageMode::PaidBalance, false));
    assert_eq!(decide_quota(&login(), &none, 5, broken, used).unwrap_err().message, "broken");
    assert!(decide_quota(&login(), &headers("free_trial"), 101, broken, used).is_ok());
    assert!(decide_quota(&AuthContext::Anonymous, &none, 5, broken, used).is_ok());
    let lost = |mode: UsageMode, _: u64| -> Result<u64, Failure> {
        Err(Failure { kind: FailureKind::Other, message: format!("lost {}", usage_mode_label(mode)) })
    };
    let failed = |headers: &Vec<(String, String)>| decide_quota(&login(), headers, 5, bought, lost).unwrap_err().message;
    assert_eq!(failed(&headers("free_trial")), "lost free_trial");
    assert_eq!(failed(&headers("paid_balance")), "lost paid_balance");
    assert_eq!(failed(&none), "lost paid_balance");
    for asked in [&headers("paid_balance"), &none] {
        assert_eq!(decide_quota(&login(), asked, 5, broken, lost).unwrap_err().message, "broken");
    }
}

#[test]
fn recorded_use_counts_against_the_quota() {
    let usage = RequestUsage { total_tokens: 60, input_tokens: 20, output_tokens: 40 };
    let mut ledger = vec![record(1, 7, 50)];
    assert_eq!(check_login_quota(&login(), UsageMode::FreeTrial, 100, load_user_consumed_tokens(&ledger, 7)), None);
    ledger.push(usage_record(&login(), "", Some(usage), "m", true, 9));
    assert!(check_login_quota(&login(), UsageMode::FreeTrial, 100, load_user_consumed_tokens(&ledger, 7)).is_some());
}

#[test]
fn records_of_use() {
    let usage = RequestUsage { total_tokens: 9, input_tokens: 3, output_tokens: 4 };
    let made = usage_record(&login(), "other", Some(usage), "m", true, 5).unwrap();
    assert_eq!((made.ts, made.user_id, made.email.as_str()), (5, 7, "u@x.y"));
    assert_eq!((made.total_tokens, made.input_tokens, made.output_tokens), (9, 3, 4));
    assert_eq!((made.model.as_str(), made.stream), ("m", true));
    let made = usage_record(&AuthContext::ApiToken(3), "other", Some(usage), "m", false, 5).unwrap();
    assert_eq!((made.user_id, made.email.as_str(), made.stream), (3, "other", false));
    assert!(usage_record(&AuthContext::ProxyKey, "", Some(usage), "m", true, 5).is_none());
    assert!(usage_record(&login(), "", None, "m", true, 5).is_none());
}

const ACCOUNT: AccountUsage = AccountUsage {
    free_used: 150,
    free_day_tokens: 15,
    free_day_requests: 1,
    purchased: 1000,
    paid_used: 400,
    paid_day_tokens: 40,
    paid_day_requests: 2,
};

#[test]
fn reports_for_users() {
    assert_eq!(
        usage_report(&login(), UsageMode::FreeTrial, 100, false, "", &ACCOUNT).to_text(),
        "{\"auth_mode\":\"login_token\",\"current_source\":\"free_trial\",\"email\":\"u@x.y\",\"free_last_24h_requests\":1,\"free_last_24h_tokens\":15,\"free_login_total_tokens\":100,\"free_tokens_remaining\":0,\"free_tokens_used\":150,\"is_paid\":true,\"is_unlimited\":false,\"last_24h_requests\":1,\"last_24h_tokens\":15,\"message\":\"free trial mode uses gifted tokens\",\"paid_last_24h_requests\":2,\"paid_last_24h_tokens\":40,\"paid_tokens_purchased\":1000,\"paid_tokens_remaining\":600,\"paid_tokens_used\":400,\"remaining_tokens\":0,\"usage_mode_requested\":\"free_trial\",\"used_tokens\":150,\"user_id\":7}"
    );
    assert_eq!(
        usage_report(&AuthContext::ApiToken(3), UsageMode::PaidBalance, 200, false, "e@f.g", &AccountUsage { purchased: 0, ..ACCOUNT }).to_text(),
        "{\"auth_mode\":\"api_token\",\"current_source\":\"paid_balance\",\"email\":\"e@f.g\",\"free_last_24h_requests\":1,\"free_last_24h_tokens\":15,\"free_login_total_tokens\":200,\"free_tokens_remaining\":50,\"free_tokens_used\":150,\"is_paid\":false,\"is_unlimited\":false,\"last_24h_requests\":2,\"last_24h_tokens\":40,\"message\":\"paid balance mode uses purchased tokens\",\"paid_last_24h_requests\":2,\"paid_last_24h_tokens\":40,\"paid_tokens_purchased\":0,\"paid_tokens_remaining\":0,\"paid_tokens_used\":400,\"remaining_tokens\":0,\"usage_mode_requested\":\"paid_balance\",\"used_tokens\":400,\"user_id\":3}"
    );
}

#[test]
fn reports_for_those_without_limits() {
    assert_eq!(
        usage_report(&AuthContext::ProxyKey, UsageMode::PaidBalance, 5, false, "", &ACCOUNT).to_text(),
        "{\"auth_mode\":\"proxy_key\",\"current_source\":\"proxy_key\",\"free_login_total_tokens\":5,\"free_tokens_remaining\":null,\"free_tokens_used\":0,\"is_paid\":true,\"is_unlimited\":true,\"message\":\"proxy api key is not quota-limited by free login allowance\",\"paid_tokens_purchased\":null,\"paid_tokens_remaining\":null,\"paid_tokens_used\":0,\"remaining_tokens\":null,\"usage_mode_requested\":\"paid_balance\",\"used_tokens\":0}"
    );
    let report = usage_report(&AuthContext::Anonymous, UsageMode::FreeTrial, 5, true, "", &ACCOUNT);
    assert_eq!(report.bool_at("is_unlimited"), Some(true));
    assert_eq!(report.bool_at("is_paid"), Some(false));
    assert_eq!(report.str_at("message"), Some("anonymous access is enabled"));
}

#[test]
fn what_the_platform_is_told() {
    let free = vec![record(10, 7, 150)];
    let paid = vec![record(10, 7, 400), record(10, 8, 1)];
    let account = account_usage(&free, &paid, 1000, 7, 100_000_000);
    assert_eq!(
        internal_usage(7, 100, &account).to_text(),
        "{\"free_last_24h_requests\":0,\"free_last_24h_tokens\":0,\"free_login_total_tokens\":100,\"free_tokens_remaining\":0,\"free_tokens_used\":150,\"paid_last_24h_requests\":0,\"paid_last_24h_tokens\":0,\"paid_tokens_purchased\":1000,\"paid_tokens_remaining\":600,\"paid_tokens_used\":400,\"user_id\":7}"
    );
    assert_eq!(requested_user("/internal/user-usage?user_id=123"), Some(123));
    assert_eq!(requested_user("/internal/user-usage?user_id=0"), None);
    assert_eq!(requested_user("/internal/user-usage?user_id=x"), None);
    assert_eq!(requested_user("/internal/user-usage"), None);
    let reply = ok_reply(&internal_usage(7, 100, &account));
    assert_eq!(reply.status, 200);
}

fn grant(user_id: u64, order_no: &str, email: &str, tokens: u64) -> GrantTokensRequest {
    GrantTokensRequest {
        user_id,
        email: email.to_string(),
        order_no: order_no.to_string(),
        product_type: " pack ".to_string(),
        tokens,
    }
}

#[test]
fn grants_that_are_not_in_order() {
    let refused = |payload: GrantTokensRequest| check_grant(&payload).map(|r| (r.status, r.body));
    let body = |message: &str, code: &str| {
        Some((400, format!("{{\"error\":{{\"message\":\"{message}\",\"type\":\"invalid_request_error\",\"code\":\"{code}\"}}}}")))
    };
    assert_eq!(refused(grant(0, "", "", 0)), body("user_id must be greater than 0", "invalid_user_id"));
    assert_eq!(refused(grant(1, "", "", 0)), body("tokens must be greater than 0", "invalid_tokens"));
    assert_eq!(refused(grant(1, " ", "", 1)), body("order_no is required", "invalid_order_no"));
    assert_eq!(refused(grant(1, "o", " \n", 1)), body("email is required", "invalid_email"));
    assert_eq!(refused(grant(1, "o", "e", 1)), None);
}

#[test]
fn an_order_is_granted_once() {
    let mut grants: Vec<Option<PaidGrantRecord>> = vec![None];
    let payload = grant(7, " order-1 ", " u@x.y ", 500);
    assert!(matches!(plan_grant(&payload, &grants), GrantPlan::Grant));
    let made = grant_record(&payload, 99, 1500);
    assert_eq!((made.ts, made.user_id, made.granted_tokens, made.balance_after), (99, 7, 500, 1500));
    assert_eq!((made.email.as_str(), made.order_no.as_str(), made.product_type.as_str()), ("u@x.y", "order-1", "pack"));
    let reply = granted_reply(&made);
    assert_eq!(reply.status, 200);
    assert_eq!(
        reply.body,
        "{\"already_granted\":false,\"balance_after\":1500,\"granted_tokens\":500,\"ok\":true,\"order_no\":\"order-1\",\"user_id\":7}"
    );
    grants.push(Some(made));
    match plan_grant(&grant(8, "order-1\n", "z", 1), &grants) {
        GrantPlan::AlreadyGranted(reply) => {
            assert_eq!(reply.status, 200);
            assert_eq!(
                reply.body,
                "{\"already_granted\":true,\"balance_after\":1500,\"granted_tokens\":500,\"ok\":true,\"order_no\":\"order-1\",\"user_id\":7}"
            );
        }
        GrantPlan::Grant => panic!("granted twice"),
    }
    assert!(matches!(plan_grant(&grant(7, "order-2", "z", 1), &grants), GrantPlan::Grant));
    assert!(find_grant_record_by_order_no(&grants, "order-1").is_some());
    assert!(find_grant_record_by_order_no(&grants, " order-1").is_none());
}

#[test]
fn addresses_are_set_by_the_platform() {
    let payload = SyncUserRequest { user_id: 7, email: " u@x.y ".to_string() };
    assert!(check_sync(&payload).is_none());
    let reply = sync_reply(&payload);
    assert_eq!(reply.body, "{\"email\":\"u@x.y\",\"ok\":true,\"user_id\":7}");
    assert_eq!(check_sync(&SyncUserRequest { user_id: 0, email: "a".to_string() }).unwrap().status, 400);
    assert!(check_sync(&SyncUserRequest { user_id: 1, email: " ".to_string() }).unwrap().body.contains("invalid_email"));
}

#[test]
fn grants_add_up() {
    let (_, store) = add_paid_tokens(open_store(Some("{\"1\":5,\"2\":7}")), 1, 10);
    let (next, store) = add_paid_tokens(store, 1, 20);
    assert_eq!(next, 35);
    assert_eq!(store.to_text(), "{\"1\":35,\"2\":7}");
}

#[test]
fn bought_tokens_lift_a_refusal() {
    let store = open_store(Some("{\"7\":400}"));
    assert!(check_login_quota(&login(), UsageMode::PaidBalance, 400, 400).is_some());
    let (next, _) = add_paid_tokens(store, 7, 1);
    assert_eq!(check_login_quota(&login(), UsageMode::PaidBalance, next, 400), None);
}

#[test]
fn a_report_tells_whether_the_next_request_is_refused() {
    for (mode, total, used) in [
        (UsageMode::FreeTrial, 150, 150),
        (UsageMode::FreeTrial, 151, 150),
        (UsageMode::PaidBalance, 1000, 400),
    ] {
        let report = usage_report(&login(), mode, total, false, "", &ACCOUNT);
        let left = report.u64_at("remaining_tokens").unwrap();
        assert_eq!(left == 0, check_login_quota(&login(), mode, total, used).is_some());
    }
}

#[test]
fn a_query_without_a_user() {
    let reply = missing_user_reply();
    assert_eq!(reply.status, 400);
    assert_eq!(
        reply.body,
        "{\"error\":{\"message\":\"user_id is required\",\"type\":\"invalid_request_error\",\"code\":\"invalid_user_id\"}}"
    );
}
