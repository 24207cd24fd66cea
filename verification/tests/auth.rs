use base64::engine::general_purpose::URL_SAFE_NO_PAD;
use base64::Engine;
use openssl::hash::MessageDigest;
use openssl::pkey::{PKey, Private};
use openssl::rsa::Rsa;
use openssl::sign::Signer;
use zai_proxy::auth::{
    screen, auth_label, authorize, authorize_internal, bearer_token, extract_user_id_from_api_key,
    internal_auth_reply, AuthContext,
};
use zai_proxy::clock::{millis_at, nanos_of, now_ms, now_nanos, now_secs, secs_at};
use zai_proxy::config::{env_bool, load_config, AppConfig};
use zai_proxy::failure::{Failure, FailureKind};
use zai_proxy::login::{check_claims, check_header, check_signature, signature_result, verify_login_token, JwtHeader, LoginTokenClaims};
use zai_proxy::request::HttpRequest;

fn vars(pairs: &[(&str, &str)]) -> Vec<(String, String)> {
    pairs.iter().map(|(a, b)| (a.to_string(), b.to_string())).collect()
}

fn config(pairs: &[(&str, &str)]) -> AppConfig {
    let mut all = vars(&[("ZAI_API_KEY", "k")]);
    all.extend(vars(pairs));
    load_config(&all).unwrap()
}

fn request(headers: &[(&str, &str)]) -> HttpRequest {
    HttpRequest { method: "GET".to_string(), path: "/".to_string(), headers: vars(headers), body: Vec::new() }
}

fn parse_header(bytes: &Vec<u8>) -> Result<JwtHeader, String> {
    let value: serde_json::Value = serde_json::from_slice(bytes).map_err(|e| e.to_string())?;
    Ok(JwtHeader {
        alg: value["alg"].as_str().ok_or("missing field `alg`")?.to_string(),
        typ: value["typ"].as_str().map(str::to_string),
    })
}

fn parse_claims(bytes: &Vec<u8>) -> Result<LoginTokenClaims, String> {
    let value: serde_json::Value = serde_json::from_slice(bytes).map_err(|e| e.to_string())?;
    Ok(LoginTokenClaims {
        user_id: value["userId"].as_u64().ok_or("missing field `userId`")?,
        email: value["email"].as_str().unwrap_or("").to_string(),
        pro_status: value["proStatus"].as_bool().unwrap_or(false),
        exp: value["exp"].as_u64().unwrap_or(0),
        iat: value["iat"].as_u64(),
        iss: value["iss"].as_str().map(str::to_string),
    })
}

fn new_key() -> (PKey<Private>, String) {
    let key = PKey::from_rsa(Rsa::generate(2048).unwrap()).unwrap();
    let pem = String::from_utf8(key.public_key_to_pem().unwrap()).unwrap();
    (key, pem)
}

fn token(key: &PKey<Private>, header: &str, claims: &str) -> String {
    let signed = format!("{}.{}", URL_SAFE_NO_PAD.encode(header), URL_SAFE_NO_PAD.encode(claims));
    let mut signer = Signer::new(MessageDigest::sha256(), key).unwrap();
    signer.update(signed.as_bytes()).unwrap();
    format!("{}.{}", signed, URL_SAFE_NO_PAD.encode(signer.sign_to_vec().unwrap()))
}

const HEADER: &str = "{\"alg\":\"RS256\",\"typ\":\"JWT\"}";
const CLAIMS: &str = "{\"userId\":7,\"email\":\"u@x.y\",\"proStatus\":true,\"exp\":99999999999,\"iat\":1,\"iss\":\"webclaw-platform\"}";

fn refused(pem: &str, token: &str) -> String {
    verify_login_token(token, pem, parse_header, parse_claims).unwrap_err()
}

#[test]
fn a_login_token_names_its_user() {
    let (key, pem) = new_key();
    let claims = verify_login_token(&token(&key, HEADER, CLAIMS), &pem, parse_header, parse_claims).unwrap();
    assert_eq!((claims.user_id, claims.email.as_str(), claims.pro_status), (7, "u@x.y", true));
    let token = token(&key, "{\"alg\":\"RS256\"}", CLAIMS);
    let with = request(&[("x-webclaw-license-token", &format!(" {token} "))]);
    match authorize(&with, &config(&[]), &pem, parse_header, parse_claims).unwrap() {
        AuthContext::Login(claims) => assert_eq!(claims.user_id, 7),
        other => panic!("{other:?}"),
    }
}

#[test]
fn login_tokens_that_are_not_accepted() {
    let (key, pem) = new_key();
    let (other, _) = new_key();
    assert_eq!(refused(&pem, "a.b"), "invalid login token format");
    assert_eq!(refused(&pem, "a.b.c.d"), "invalid login token format");
    assert_eq!(refused(&pem, "*.b.c"), "decode token header failed: Invalid symbol 42, offset 0.");
    assert_eq!(refused(&pem, "e30.b.c"), "parse token header failed: missing field `alg`");
    let none = token(&key, "{\"alg\":\"none\"}", CLAIMS);
    assert_eq!(refused(&pem, &none), "unsupported login token algorithm");
    let typed = token(&key, "{\"alg\":\"RS256\",\"typ\":\"JWS\"}", CLAIMS);
    assert_eq!(refused(&pem, &typed), "invalid login token type");
    let forged = token(&other, HEADER, CLAIMS);
    assert_eq!(refused(&pem, &forged), "invalid login token signature");
    let good = token(&key, HEADER, CLAIMS);
    let head = good.rsplit_once('.').unwrap().0;
    assert_eq!(refused(&pem, &format!("{head}.*")), "decode token signature failed: Invalid symbol 42, offset 0.");
    assert!(refused("no key", &good).starts_with("load public key failed: "));
    let signature = good.rsplit_once('.').unwrap().1;
    let moved = format!("{}.{}.{}", URL_SAFE_NO_PAD.encode(HEADER), URL_SAFE_NO_PAD.encode("{\"userId\":8}"), signature);
    assert_eq!(refused(&pem, &moved), "invalid login token signature");
}

#[test]
fn signed_tokens_with_other_claims() {
    let (key, pem) = new_key();
    let with = |claims: &str| refused(&pem, &token(&key, HEADER, claims));
    assert_eq!(with("{}"), "parse token payload failed: missing field `userId`");
    assert_eq!(with("{\"userId\":7}"), "invalid login token issuer");
    let issued = "{\"userId\":7,\"email\":\"a\",\"exp\":5,\"iss\":\"webclaw-platform\"}";
    assert_eq!(with(issued), "login token expired");
    let signed = format!("{}.*", URL_SAFE_NO_PAD.encode(HEADER));
    let mut signer = Signer::new(MessageDigest::sha256(), &key).unwrap();
    signer.update(signed.as_bytes()).unwrap();
    let odd = format!("{}.{}", signed, URL_SAFE_NO_PAD.encode(signer.sign_to_vec().unwrap()));
    assert_eq!(refused(&pem, &odd), "decode token payload failed: Invalid symbol 42, offset 0.");
}

#[test]
fn signatures_of_messages() {
    let (key, pem) = new_key();
    let mut signer = Signer::new(MessageDigest::sha256(), &key).unwrap();
    signer.update(b"message").unwrap();
    let signature = URL_SAFE_NO_PAD.encode(signer.sign_to_vec().unwrap());
    assert_eq!(check_signature(&pem, "message", &signature), Ok(()));
    assert_eq!(check_signature(&pem, "massage", &signature), Err("invalid login token signature".to_string()));
}

#[test]
fn first_parts_of_tokens() {
    let error = |alg: &str, typ: Option<&str>| check_header(&JwtHeader { alg: alg.to_string(), typ: typ.map(str::to_string) });
    assert_eq!(error("RS256", None), None);
    assert_eq!(error("RS256", Some("jwt")), None);
    assert_eq!(error("rs256", None), Some("unsupported login token algorithm".to_string()));
    assert_eq!(error("RS256", Some("x")), Some("invalid login token type".to_string()));
}

#[test]
fn claims_of_tokens() {
    let claims = |user_id: u64, email: &str, exp: u64, iat: Option<u64>, iss: Option<&str>| LoginTokenClaims {
        user_id,
        email: email.to_string(),
        pro_status: false,
        exp,
        iat,
        iss: iss.map(str::to_string),
    };
    let error = |c: LoginTokenClaims, now: u64| check_claims(&c, now);
    let us = Some("webclaw-platform");
    assert_eq!(error(claims(1, "a", 101, Some(160), us), 100), None);
    assert_eq!(error(claims(1, "a", 101, Some(161), us), 100), Some("login token issued-at time is invalid".to_string()));
    assert_eq!(error(claims(1, "a", u64::MAX, Some(u64::MAX), us), u64::MAX - 1), None);
    assert_eq!(error(claims(1, "a", 100, None, us), 100), Some("login token expired".to_string()));
    assert_eq!(error(claims(0, "a", 101, None, us), 100), Some("login token missing user identity".to_string()));
    assert_eq!(error(claims(1, " ", 101, None, us), 100), Some("login token missing user identity".to_string()));
    assert_eq!(error(claims(1, "a", 101, None, Some("x")), 100), Some("invalid login token issuer".to_string()));
    assert_eq!(error(claims(1, "a", 101, None, None), 100), Some("invalid login token issuer".to_string()));
}

fn who(headers: &[(&str, &str)], pairs: &[(&str, &str)]) -> Result<String, String> {
    authorize(&request(headers), &config(pairs), "no key", parse_header, parse_claims).map(|a| format!("{a:?}"))
}

#[test]
fn keys_let_clients_in() {
    assert_eq!(who(&[("authorization", "Bearer sk-webclaw-42-abc")], &[]), Ok("ApiToken(42)".to_string()));
    assert_eq!(who(&[("authorization", "bearer  p ")], &[("PROXY_API_KEY", " p ")]), Ok("ProxyKey".to_string()));
    assert_eq!(
        who(&[("authorization", "Bearer sk-webclaw-1")], &[("PROXY_API_KEY", "sk-webclaw-1")]),
        Ok("ApiToken(1)".to_string())
    );
    assert_eq!(who(&[], &[("ALLOW_ANONYMOUS", "Yes")]), Ok("Anonymous".to_string()));
}

#[test]
fn strangers_are_refused() {
    let missing = Err("missing api key, proxy key, or valid login token".to_string());
    assert_eq!(who(&[], &[]), missing);
    assert_eq!(who(&[("authorization", "Bearer x")], &[("PROXY_API_KEY", "p")]), missing);
    assert_eq!(who(&[("authorization", "Basic p")], &[("PROXY_API_KEY", "p")]), missing);
    assert_eq!(who(&[("authorization", "Bearer x")], &[]), missing);
    assert_eq!(
        who(&[("x-webclaw-license-token", "x")], &[("ALLOW_ANONYMOUS", "true")]),
        Err("invalid login token format".to_string())
    );
}

#[test]
fn only_clients_reach_the_models() {
    let ask = |path: &str, headers: &[(&str, &str)]| {
        let mut request = request(headers);
        request.path = path.to_string();
        format!("{:?}", screen(&request, &config(&[]), "no key", parse_header, parse_claims))
    };
    assert_eq!(ask("/health", &[]), "Open(Health)");
    assert_eq!(ask("/v1/models", &[]), "Refused(\"missing api key, proxy key, or valid login token\")");
    assert_eq!(ask("/v1/models", &[("authorization", "Bearer sk-webclaw-3")]), "Client(Models, ApiToken(3))");
    assert_eq!(ask("/nowhere", &[("authorization", "Bearer sk-webclaw-3")]), "Client(NotFound, ApiToken(3))");
}

#[test]
fn keys_name_users() {
    assert_eq!(extract_user_id_from_api_key(" sk-webclaw-123-xyz-1 "), Some(123));
    assert_eq!(extract_user_id_from_api_key("sk-webclaw-5"), Some(5));
    assert_eq!(extract_user_id_from_api_key("sk-webclaw--5"), None);
    assert_eq!(extract_user_id_from_api_key("sk-webclaw-x-5"), None);
    assert_eq!(extract_user_id_from_api_key("sk-other-5-x"), None);
    assert_eq!(extract_user_id_from_api_key("SECRET-REDACTED"), None);
    assert_eq!(bearer_token("Bearer  a b "), Some("a b".to_string()));
    assert_eq!(bearer_token("BEARER a"), None);
}

#[test]
fn words_for_clients() {
    assert_eq!(auth_label(&AuthContext::Anonymous), "anonymous");
    assert_eq!(auth_label(&AuthContext::ProxyKey), "proxy-key");
    assert_eq!(auth_label(&AuthContext::ApiToken(1)), "api-token");
}

#[test]
fn internal_routes_have_their_own_key() {
    let refused = |headers: &[(&str, &str)], pairs: &[(&str, &str)]| {
        authorize_internal(&request(headers), &config(pairs)).err().map(|e| {
            assert_eq!(e.kind, FailureKind::PermissionDenied);
            e.message
        })
    };
    assert_eq!(refused(&[("authorization", "Bearer i")], &[("INTERNAL_API_KEY", "i")]), None);
    assert_eq!(refused(&[], &[]), Some("INTERNAL_API_KEY is not configured".to_string()));
    assert_eq!(refused(&[], &[("INTERNAL_API_KEY", "i")]), Some("missing authorization header".to_string()));
    assert_eq!(refused(&[("authorization", "Bearer x")], &[("INTERNAL_API_KEY", "i")]), Some("invalid internal api key".to_string()));
    assert_eq!(refused(&[("authorization", "i")], &[("INTERNAL_API_KEY", "i")]), Some("invalid internal api key".to_string()));
    let reply = internal_auth_reply(&Failure { kind: FailureKind::PermissionDenied, message: "no".to_string() });
    assert_eq!(reply.status, 403);
    assert_eq!(reply.body, "{\"error\":{\"message\":\"no\",\"type\":\"invalid_request_error\",\"code\":\"internal_auth_failed\"}}");
    assert_eq!(internal_auth_reply(&Failure { kind: FailureKind::Other, message: "x".to_string() }).status, 500);
}

#[test]
fn settings_have_defaults() {
    let c = config(&[]);
    assert_eq!((c.host.as_str(), c.port), ("0.0.0.0", 8787));
    assert_eq!(c.upstream_base_url, "https://api.z.ai/api/coding/paas/v4");
    assert_eq!(c.zai_api_key, "k");
    assert!(!c.allow_anonymous);
    assert_eq!(c.free_login_total_tokens, 200000);
    assert_eq!(c.usage_store_path, "./data/free-usage.jsonl");
    assert_eq!(c.paid_usage_store_path, "./data/paid-usage.jsonl");
    assert_eq!(c.paid_balance_store_path, "./data/paid-balances.json");
    assert_eq!(c.paid_grant_store_path, "./data/paid-grants.jsonl");
    assert_eq!(c.user_emails_store_path, "./data/user-emails.json");
    assert_eq!((c.proxy_api_key, c.internal_api_key), (None, None));
    assert_eq!(c.allowed_models.len(), 5);
}

#[test]
fn settings_are_read() {
    let c = config(&[
        ("ZAI_API_KEY", " key "),
        ("HOST", "127.0.0.1"),
        ("PORT", "80"),
        ("ZAI_CODING_PLAN_ENDPOINT", " CN "),
        ("PROXY_API_KEY", "  "),
        ("INTERNAL_API_KEY", " i "),
        ("FREE_LOGIN_TOTAL_TOKENS", " 5 "),
        ("FREE_USAGE_STORE_PATH", " /x "),
        ("PAID_USAGE_STORE_PATH", " "),
    ]);
    assert_eq!((c.host.as_str(), c.port, c.zai_api_key.as_str()), ("127.0.0.1", 80, "key"));
    assert_eq!(c.upstream_base_url, "https://open.bigmodel.cn/api/coding/paas/v4");
    assert_eq!(c.proxy_api_key, None);
    assert_eq!(c.internal_api_key, Some("i".to_string()));
    assert_eq!(c.free_login_total_tokens, 5);
    assert_eq!(c.usage_store_path, " /x ");
    assert_eq!(c.paid_usage_store_path, "./data/paid-usage.jsonl");
    assert_eq!(config(&[("PORT", " 80")]).port, 8787);
    assert_eq!(config(&[("FREE_LOGIN_TOTAL_TOKENS", "-1")]).free_login_total_tokens, 200000);
}

#[test]
fn settings_that_are_refused() {
    let err = load_config(&vars(&[("ZAI_API_KEY", " ")])).unwrap_err();
    assert_eq!((err.kind, err.message.as_str()), (FailureKind::InvalidInput, "ZAI_API_KEY is required"));
    let err = load_config(&vars(&[("ZAI_API_KEY", "k"), ("ZAI_CODING_PLAN_ENDPOINT", " US ")])).unwrap_err();
    assert_eq!((err.kind, err.message.as_str()), (FailureKind::InvalidInput, "unsupported ZAI_CODING_PLAN_ENDPOINT: us"));
}

#[test]
fn yes_and_no() {
    for yes in ["1", "true", " YES ", "On"] {
        assert!(env_bool(Some(yes), false));
    }
    for no in ["", "0", "false", "y"] {
        assert!(!env_bool(Some(no), true));
    }
    assert!(env_bool(None, true));
    assert!(!env_bool(None, false));
}

#[test]
fn times() {
    let epoch = std::time::UNIX_EPOCH;
    let t = epoch + std::time::Duration::new(12, 345_678_901);
    assert_eq!(secs_at(&t), 12);
    assert_eq!(millis_at(&t), 12_345);
    assert_eq!(nanos_of(&t), 12_345_678_901);
    let before = epoch - std::time::Duration::new(1, 0);
    assert_eq!((secs_at(&before), millis_at(&before), nanos_of(&before)), (0, 0, 0));
    let secs = now_secs();
    assert!(secs > 1_600_000_000);
    assert!(now_ms() / 1000 >= secs);
    assert!(now_nanos() / 1_000_000_000 >= u128::from(secs));
}

#[test]
fn verdicts_on_signatures() {
    assert_eq!(signature_result(Ok(true)), Ok(()));
    assert_eq!(signature_result(Ok(false)), Err("invalid login token signature".to_string()));
    assert_eq!(signature_result(Err("e".to_string())), Err("verify token signature failed: e".to_string()));
    assert!(check_signature("no key", "message", "AA").unwrap_err().starts_with("load public key failed: "));
}
