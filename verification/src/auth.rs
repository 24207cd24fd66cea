//! Who may ask: keys and login tokens in the header fields of a request.
use crate::config::AppConfig;
use crate::failure::{error_body, error_reply, fail, Failure, FailureKind, Reply};
use crate::login::{
    is_error, is_signed, login_outcome, verify_login_token, JwtHeader, LoginTokenClaims,
};
use crate::number::{
    decimal, law_number_reads_back, lemma_digits_only, parse_number, parse_unsigned,
};
use crate::pairs::{lookup, pair_map, value_of};
use crate::request::HttpRequest;
use crate::route::{needs_client, route, route_of, wants_client, Route};
use crate::text::{
    after_prefix, char_index, is_white, or_empty, split_once, str_eq, strip_prefix, text_view, trim,
    trim_end, trim_start, trimmed,
};
use vstd::prelude::*;
use vstd::string::*;
use vstd::utf8::encode_utf8;

verus! {

/// The header field with a login token.
pub const LICENSE_TOKEN_HEADER: &'static str = "x-webclaw-license-token";

/// Who asks.
#[derive(Debug)]
pub enum AuthContext {
    /// Anybody.
    Anonymous,
    /// Somebody with the key of the proxy, whose use is not limited.
    ProxyKey,
    /// The user that a key names.
    ApiToken(u64),
    /// The user that a login token names.
    Login(LoginTokenClaims),
}

/// A word for who asks.
pub open spec fn auth_word(auth: AuthContext) -> Seq<char> {
    match auth {
        AuthContext::Anonymous => "anonymous"@,
        AuthContext::ProxyKey => "proxy-key"@,
        AuthContext::ApiToken(_) => "api-token"@,
        AuthContext::Login(_) => "login-token"@,
    }
}

/// A word for who asks.
pub fn auth_label(auth: &AuthContext) -> (r: &'static str)
    ensures
        r@ == auth_word(*auth),
{
    match auth {
        AuthContext::Anonymous => "anonymous",
        AuthContext::ProxyKey => "proxy-key",
        AuthContext::ApiToken(_) => "api-token",
        AuthContext::Login(_) => "login-token",
    }
}

/// What follows the word `Bearer` in a header field, without the white space round it.
pub open spec fn bearer(field: Seq<char>) -> Option<Seq<char>> {
    match after_prefix(field, "Bearer "@) {
        Some(token) => Some(trim(token)),
        None => match after_prefix(field, "bearer "@) {
            Some(token) => Some(trim(token)),
            None => None,
        },
    }
}

/// What follows the word `Bearer` in a header field, without the white space round it.
pub fn bearer_token(field: &str) -> (r: Option<String>)
    ensures
        text_view(r) == bearer(field@),
{
    match strip_prefix(field, "Bearer ") {
        Some(token) => Some(trimmed(token.as_str())),
        None => match strip_prefix(field, "bearer ") {
            Some(token) => Some(trimmed(token.as_str())),
            None => None,
        },
    }
}

/// The user that a key names: the number after `sk-webclaw-`, up to the next hyphen.
pub open spec fn key_user(key: Seq<char>) -> Option<nat> {
    match after_prefix(trim(key), "sk-webclaw-"@) {
        Some(rest) => parse_unsigned(rest.take(char_index(rest, '-') as int), 10, u64::MAX as nat),
        None => None,
    }
}

/// The user that a key names: the number after `sk-webclaw-`, up to the next hyphen.
pub fn extract_user_id_from_api_key(key: &str) -> (r: Option<u64>)
    ensures
        match r {
            Some(id) => key_user(key@) == Some(id as nat),
            None => key_user(key@) == None::<nat>,
        },
{
    match strip_prefix(trimmed(key).as_str(), "sk-webclaw-") {
        Some(rest) => match split_once(rest.as_str(), '-') {
            Some((number, _)) => parse_number(number.as_str(), 10, u64::MAX),
            None => {
                proof {
                    crate::text::lemma_char_index(rest@, '-');
                    assert(rest@.take(rest@.len() as int) =~= rest@);
                }
                parse_number(rest.as_str(), 10, u64::MAX)
            },
        },
        None => None,
    }
}

/// What follows the word `Bearer` in the header fields of a request.
pub open spec fn bearer_in(headers: Map<Seq<char>, Seq<char>>) -> Option<Seq<char>> {
    match value_of(headers, "authorization"@) {
        Some(field) => bearer(field),
        None => None,
    }
}

/// Whether a request has the key of the proxy, and it names no user.
pub open spec fn has_proxy_key(
    headers: Map<Seq<char>, Seq<char>>,
    proxy_key: Option<Seq<char>>,
) -> bool {
    bearer_in(headers) matches Some(token) && key_user(token) is None && proxy_key == Some(token)
}

/// The user that the key in the header fields of a request names.
pub open spec fn user_in(headers: Map<Seq<char>, Seq<char>>) -> Option<nat> {
    match bearer_in(headers) {
        Some(token) => key_user(token),
        None => None,
    }
}

/// What comes of asking with the given header fields, where `login` is what came of the login token
/// among them: a key comes before a login token, and a login token that is refused is not made good
/// by a permission to ask without any.
pub open spec fn auth_outcome(
    headers: Map<Seq<char>, Seq<char>>,
    proxy_key: Option<Seq<char>>,
    allow_anonymous: bool,
    login: Result<LoginTokenClaims, String>,
    r: Result<AuthContext, String>,
) -> bool {
    match user_in(headers) {
        Some(id) => r == Ok::<AuthContext, String>(AuthContext::ApiToken(id as u64)),
        None => if has_proxy_key(headers, proxy_key) {
            r == Ok::<AuthContext, String>(AuthContext::ProxyKey)
        } else if value_of(headers, LICENSE_TOKEN_HEADER@) is Some {
            match login {
                Ok(claims) => r == Ok::<AuthContext, String>(AuthContext::Login(claims)),
                Err(e) => is_error(r, e@),
            }
        } else if allow_anonymous {
            r == Ok::<AuthContext, String>(AuthContext::Anonymous)
        } else {
            is_error(r, "missing api key, proxy key, or valid login token"@)
        },
    }
}

/// Whether a result is what comes of asking with a request: its login token, where it has one that
/// counts, is checked with the key in a PEM text, and names a user only where that key signed it.
pub open spec fn is_auth_outcome<
    H: Fn(&Vec<u8>) -> Result<JwtHeader, String>,
    C: Fn(&Vec<u8>) -> Result<LoginTokenClaims, String>,
>(
    request: HttpRequest,
    cfg: AppConfig,
    pem: Seq<char>,
    parse_header: H,
    parse_claims: C,
    r: Result<AuthContext, String>,
) -> bool {
    let headers = pair_map(request.headers@);
    let proxy_key = text_view(cfg.proxy_api_key);
    let token = value_of(headers, LICENSE_TOKEN_HEADER@);
    &&& exists|login: Result<LoginTokenClaims, String>| #[trigger]
        auth_outcome(headers, proxy_key, cfg.allow_anonymous, login, r) && (token is Some
            && key_holder(headers, proxy_key) is None ==> login_outcome(
            trim(token->0),
            pem,
            parse_header,
            parse_claims,
            login,
        ))
    &&& r matches Ok(AuthContext::Login(_)) ==> token is Some && is_signed(trim(token->0), pem)
}

/// Who asks, by the keys in the header fields alone; none where they hold no key that counts.
pub open spec fn key_holder(
    headers: Map<Seq<char>, Seq<char>>,
    proxy_key: Option<Seq<char>>,
) -> Option<AuthContext> {
    match user_in(headers) {
        Some(id) => Some(AuthContext::ApiToken(id as u64)),
        None => if has_proxy_key(headers, proxy_key) {
            Some(AuthContext::ProxyKey)
        } else {
            None
        },
    }
}

/// Who asks, by the keys in the header fields alone.
fn find_key_holder(headers: &Vec<(String, String)>, proxy_key: &Option<String>) -> (r: Option<
    AuthContext,
>)
    ensures
        r == key_holder(pair_map(headers@), text_view(*proxy_key)),
{
    match lookup(headers, "authorization") {
        Some(field) => match bearer_token(field) {
            Some(token) => {
                match extract_user_id_from_api_key(token.as_str()) {
                    Some(id) => return Some(AuthContext::ApiToken(id)),
                    None => {},
                }
                match proxy_key {
                    Some(expected) => if str_eq(token.as_str(), expected.as_str()) {
                        Some(AuthContext::ProxyKey)
                    } else {
                        None
                    },
                    None => None,
                }
            },
            None => None,
        },
        None => None,
    }
}

/// Decides who asks. The two functions read the JSON text of the first two parts of a login token;
/// `pem` holds the key that such a token is signed with.
pub fn authorize<
    H: Fn(&Vec<u8>) -> Result<JwtHeader, String>,
    C: Fn(&Vec<u8>) -> Result<LoginTokenClaims, String>,
>(request: &HttpRequest, cfg: &AppConfig, pem: &str, parse_header: H, parse_claims: C) -> (r: Result<
    AuthContext,
    String,
>)
    requires
        encode_utf8(pem@).len() <= 0x7fff_ffff,
        forall|bytes: &Vec<u8>| call_requires(parse_header, (bytes,)),
        forall|bytes: &Vec<u8>| call_requires(parse_claims, (bytes,)),
    ensures
        is_auth_outcome(*request, *cfg, pem@, parse_header, parse_claims, r),
{
    let ghost fields = pair_map(request.headers@);
    let ghost proxy_key = text_view(cfg.proxy_api_key);
    let ghost none: Result<LoginTokenClaims, String> = Err(arbitrary());
    match find_key_holder(&request.headers, &cfg.proxy_api_key) {
        Some(auth) => {
            let r = Ok(auth);
            assert(auth_outcome(fields, proxy_key, cfg.allow_anonymous, none, r));
            return r;
        },
        None => {},
    }
    match lookup(&request.headers, LICENSE_TOKEN_HEADER) {
        Some(token) => {
            let token = trimmed(token);
            let login = verify_login_token(token.as_str(), pem, parse_header, parse_claims);
            let ghost outcome = login;
            let r = match login {
                Ok(claims) => Ok(AuthContext::Login(claims)),
                Err(e) => Err(e),
            };
            assert(auth_outcome(fields, proxy_key, cfg.allow_anonymous, outcome, r));
            return r;
        },
        None => {},
    }
    let r = if cfg.allow_anonymous {
        Ok(AuthContext::Anonymous)
    } else {
        Err("missing api key, proxy key, or valid login token".to_owned())
    };
    assert(auth_outcome(fields, proxy_key, cfg.allow_anonymous, none, r));
    r
}

/// What becomes of a request before it is served.
#[derive(Debug)]
pub enum Admission {
    /// It goes to a route that is open to all.
    Open(Route),
    /// It goes to a route for clients, and the client was let in.
    Client(Route, AuthContext),
    /// It goes to a route for clients, and the client was not let in, for the reason given.
    Refused(String),
}

/// Decides where a request goes, and, where it goes to a route for clients, who asks.
pub fn screen<
    H: Fn(&Vec<u8>) -> Result<JwtHeader, String>,
    C: Fn(&Vec<u8>) -> Result<LoginTokenClaims, String>,
>(request: &HttpRequest, cfg: &AppConfig, pem: &str, parse_header: H, parse_claims: C) -> (r:
    Admission)
    requires
        encode_utf8(pem@).len() <= 0x7fff_ffff,
        forall|bytes: &Vec<u8>| call_requires(parse_header, (bytes,)),
        forall|bytes: &Vec<u8>| call_requires(parse_claims, (bytes,)),
    ensures
        ({
            let target = route_of(request.method@, request.path@);
            match r {
                Admission::Open(route) => !wants_client(target) && route@ == target,
                Admission::Client(route, auth) => {
                    &&& wants_client(target) && route@ == target
                    &&& is_auth_outcome(*request, *cfg, pem@, parse_header, parse_claims, Ok(auth))
                },
                Admission::Refused(reason) => {
                    &&& wants_client(target)
                    &&& is_auth_outcome(
                        *request,
                        *cfg,
                        pem@,
                        parse_header,
                        parse_claims,
                        Err(reason),
                    )
                },
            }
        }),
{
    let target = route(request.method.as_str(), request.path.as_str());
    if !needs_client(&target) {
        return Admission::Open(target);
    }
    match authorize(request, cfg, pem, parse_header, parse_claims) {
        Ok(auth) => Admission::Client(target, auth),
        Err(reason) => Admission::Refused(reason),
    }
}

/// Why a request to an internal route is refused.
pub open spec fn internal_refusal(
    headers: Map<Seq<char>, Seq<char>>,
    internal_key: Option<Seq<char>>,
) -> Option<Seq<char>> {
    match internal_key {
        None => Some("INTERNAL_API_KEY is not configured"@),
        Some(expected) => match value_of(headers, "authorization"@) {
            None => Some("missing authorization header"@),
            Some(field) => if or_empty(bearer(field)) != expected {
                Some("invalid internal api key"@)
            } else {
                None
            },
        },
    }
}

/// Decides whether a request may use the internal routes, which have a key of their own.
pub fn authorize_internal(request: &HttpRequest, cfg: &AppConfig) -> (r: Result<(), Failure>)
    ensures
        match internal_refusal(pair_map(request.headers@), text_view(cfg.internal_api_key)) {
            Some(message) => r is Err && r->Err_0@ == (
                FailureKind::PermissionDenied,
                message,
            ),
            None => r is Ok,
        },
{
    let expected = match &cfg.internal_api_key {
        Some(expected) => expected,
        None => return Err(
            fail(FailureKind::PermissionDenied, "INTERNAL_API_KEY is not configured"),
        ),
    };
    let field = match lookup(&request.headers, "authorization") {
        Some(field) => field,
        None => return Err(fail(FailureKind::PermissionDenied, "missing authorization header")),
    };
    let provided = match bearer_token(field) {
        Some(token) => token,
        None => {
            let none = String::new();
            proof {
                assert(none@ =~= Seq::<char>::empty());
            }
            none
        },
    };
    if !str_eq(provided.as_str(), expected.as_str()) {
        return Err(fail(FailureKind::PermissionDenied, "invalid internal api key"));
    }
    Ok(())
}

/// The answer to a request that may not use the internal routes.
pub open spec fn internal_answer(kind: FailureKind, message: Seq<char>) -> (u16, Seq<char>) {
    (
        if kind == FailureKind::PermissionDenied {
            403
        } else {
            500
        },
        error_body("internal_auth_failed"@, message),
    )
}

/// The answer to a request that may not use the internal routes.
pub fn internal_auth_reply(err: &Failure) -> (r: Reply)
    ensures
        r@ == internal_answer(err.kind, err.message@),
{
    let status = if err.kind == FailureKind::PermissionDenied {
        403
    } else {
        500
    };
    error_reply(status, "internal_auth_failed", err.message.as_str())
}

/// Trimming the end of a text keeps its beginning up to any character that is not white.
proof fn lemma_trim_end_keeps(s: Seq<char>, i: int)
    requires
        0 <= i < s.len(),
        !is_white(s[i]),
    ensures
        i < trim_end(s).len() <= s.len(),
        trim_end(s) == s.take(trim_end(s).len() as int),
    decreases s.len(),
{
    if is_white(s.last()) {
        lemma_trim_end_keeps(s.drop_last(), i);
        assert(trim_end(s) =~= s.take(trim_end(s).len() as int));
    } else {
        assert(s.take(s.len() as int) =~= s);
    }
}

/// A key of the form `sk-webclaw-{user}-{anything}` names that user.
pub proof fn law_key_names_its_user(user: u64, rest: Seq<char>)
    ensures
        key_user("sk-webclaw-"@ + decimal(user as nat) + "-"@ + rest) == Some(user as nat),
{
    reveal_strlit("sk-webclaw-");
    reveal_strlit("-");
    let start = "sk-webclaw-"@;
    let number = decimal(user as nat);
    let key = start + number + "-"@ + rest;
    let hyphen = (start.len() + number.len()) as int;
    assert(key[0] == 's');
    assert(trim_start(key) == key);
    assert(key[hyphen] == '-');
    lemma_trim_end_keeps(key, hyphen);
    let t = trim(key);
    assert(t.take(start.len() as int) =~= start);
    assert(t.subrange(0, start.len() as int) =~= start);
    let tail = t.skip(start.len() as int);
    assert(tail[number.len() as int] == '-');
    lemma_digits_only(user as nat, 10);
    crate::text::lemma_char_index(tail, '-');
    assert(char_index(tail, '-') == number.len()) by {
        let k = char_index(tail, '-');
        if k < number.len() {
            assert(tail[k as int] == number[k as int]);
        }
    }
    assert(tail.take(number.len() as int) =~= number);
    law_number_reads_back(user as nat, 10, u64::MAX as nat);
}

/// Without a key, without a login token and without permission to ask without them, nobody gets in.
pub proof fn law_strangers_are_refused(
    headers: Map<Seq<char>, Seq<char>>,
    proxy_key: Option<Seq<char>>,
    login: Result<LoginTokenClaims, String>,
    r: Result<AuthContext, String>,
)
    requires
        value_of(headers, "authorization"@) is None,
        value_of(headers, LICENSE_TOKEN_HEADER@) is None,
        auth_outcome(headers, proxy_key, false, login, r),
    ensures
        is_error(r, "missing api key, proxy key, or valid login token"@),
{
}

/// A login token that is refused lets nobody in, whatever else is allowed, unless a key does.
pub proof fn law_refused_token_is_no_excuse(
    headers: Map<Seq<char>, Seq<char>>,
    proxy_key: Option<Seq<char>>,
    allow_anonymous: bool,
    login: Result<LoginTokenClaims, String>,
    r: Result<AuthContext, String>,
)
    requires
        key_holder(headers, proxy_key) is None,
        value_of(headers, LICENSE_TOKEN_HEADER@) is Some,
        login is Err,
        auth_outcome(headers, proxy_key, allow_anonymous, login, r),
    ensures
        is_error(r, login->Err_0@),
{
}

/// Whoever counts as having the key of the proxy has sent it.
pub proof fn law_proxy_key_is_sent(
    headers: Map<Seq<char>, Seq<char>>,
    proxy_key: Option<Seq<char>>,
    allow_anonymous: bool,
    login: Result<LoginTokenClaims, String>,
    r: Result<AuthContext, String>,
)
    requires
        auth_outcome(headers, proxy_key, allow_anonymous, login, r),
        r == Ok::<AuthContext, String>(AuthContext::ProxyKey),
    ensures
        proxy_key is Some,
        bearer_in(headers) == proxy_key,
{
}

/// The internal routes are open only to those who send their key.
pub proof fn law_internal_routes_need_their_key(
    headers: Map<Seq<char>, Seq<char>>,
    internal_key: Option<Seq<char>>,
)
    requires
        internal_key matches Some(key) ==> key.len() > 0,
    ensures
        internal_refusal(headers, internal_key) is None <==> internal_key is Some && bearer_in(
            headers,
        ) == internal_key,
{
    if let Some(field) = value_of(headers, "authorization"@) {
        if bearer(field) is None {
            assert(or_empty(bearer(field)).len() == 0);
        }
    }
}

/// What follows the word `Bearer`, written with a capital or without, is the token, without the
/// white space round it; a field that begins otherwise holds none.
pub proof fn law_bearer_token_is_read(token: Seq<char>, field: Seq<char>)
    requires
        token.len() > 0 ==> !is_white(token[0]) && !is_white(token.last()),
    ensures
        bearer("Bearer "@ + token) == Some(token),
        bearer("bearer "@ + token) == Some(token),
        bearer(field) is Some ==> field.len() >= 7 && (field.take(7) == "Bearer "@ || field.take(7)
            == "bearer "@),
{
    reveal_strlit("Bearer ");
    reveal_strlit("bearer ");
    crate::text::lemma_trimmed_stays(token);
    let a = "Bearer "@ + token;
    let b = "bearer "@ + token;
    assert(a.subrange(0, 7) =~= "Bearer "@);
    assert(a.skip(7) =~= token);
    assert(b.subrange(0, 7) =~= "bearer "@);
    assert(b.subrange(0, 7)[0] == 'b' && "Bearer "@[0] == 'B');
    assert(b.skip(7) =~= token);
    if field.len() >= 7 {
        assert(field.take(7) =~= field.subrange(0, 7));
    }
}

/// A key lets its user in, whatever else the request holds and whatever is allowed.
pub proof fn law_key_lets_its_user_in(
    headers: Map<Seq<char>, Seq<char>>,
    user: u64,
    rest: Seq<char>,
    proxy_key: Option<Seq<char>>,
    allow_anonymous: bool,
    login: Result<LoginTokenClaims, String>,
    r: Result<AuthContext, String>,
)
    requires
        rest.len() > 0,
        !is_white(rest.last()),
        headers.contains_key("authorization"@),
        headers["authorization"@] == "Bearer "@ + ("sk-webclaw-"@ + decimal(user as nat) + "-"@
            + rest),
        auth_outcome(headers, proxy_key, allow_anonymous, login, r),
    ensures
        r == Ok::<AuthContext, String>(AuthContext::ApiToken(user)),
        key_holder(headers, proxy_key) == Some(AuthContext::ApiToken(user)),
{
    reveal_strlit("sk-webclaw-");
    let key = "sk-webclaw-"@ + decimal(user as nat) + "-"@ + rest;
    assert(key[0] == 's' && key.last() == rest.last());
    law_bearer_token_is_read(key, Seq::empty());
    law_key_names_its_user(user, rest);
}

/// The key of the proxy, where it names no user, lets its holder in without a limit; a login token
/// that is accepted lets its user in, where no key does; and without either of them anybody is let
/// in just where that is allowed.
pub proof fn law_who_is_let_in(
    headers: Map<Seq<char>, Seq<char>>,
    proxy_key: Option<Seq<char>>,
    allow_anonymous: bool,
    login: Result<LoginTokenClaims, String>,
    r: Result<AuthContext, String>,
)
    requires
        auth_outcome(headers, proxy_key, allow_anonymous, login, r),
    ensures
        bearer_in(headers) is Some && bearer_in(headers) == proxy_key && key_user(
            bearer_in(headers)->0,
        ) is None ==> r == Ok::<AuthContext, String>(AuthContext::ProxyKey),
        bearer_in(headers) is None && headers.contains_key("x-webclaw-license-token"@)
            && login is Ok ==> r == Ok::<AuthContext, String>(AuthContext::Login(login->Ok_0)),
        bearer_in(headers) is None && headers.contains_key("x-webclaw-license-token"@)
            && login is Err ==> r is Err,
        bearer_in(headers) is None && !headers.contains_key("x-webclaw-license-token"@) ==> (
        allow_anonymous <==> r == Ok::<AuthContext, String>(AuthContext::Anonymous)) && (
        !allow_anonymous <==> r is Err),
        r matches Ok(AuthContext::ApiToken(id)) ==> bearer_in(headers) is Some && key_user(
            bearer_in(headers)->0,
        ) is Some,
        !headers.contains_key("authorization"@) ==> bearer_in(headers) is None,
{
}

/// A key without the beginning that keys of users have names nobody.
pub proof fn law_other_keys_name_nobody(key: Seq<char>)
    requires
        key.len() > 0,
        !is_white(key[0]),
        !is_white(key.last()),
        key.len() < 11 || key.take(11) != "sk-webclaw-"@,
    ensures
        key_user(key) is None,
{
    reveal_strlit("sk-webclaw-");
    crate::text::lemma_trimmed_stays(key);
    if key.len() >= 11 {
        assert(key.subrange(0, 11) =~= key.take(11));
    }
}

/// A request with the key of the internal routes may use them; one with another key, or with none,
/// or where no key is set, is answered with status 403.
pub proof fn law_internal_key_opens_internal_routes(
    headers: Map<Seq<char>, Seq<char>>,
    key: Seq<char>,
    sent: Seq<char>,
    message: Seq<char>,
    kind: FailureKind,
)
    requires
        key.len() > 0,
        sent.len() > 0 ==> !is_white(sent[0]) && !is_white(sent.last()),
    ensures
        headers.contains_key("authorization"@) && headers["authorization"@] == "Bearer "@ + sent
            ==> (internal_refusal(headers, Some(key)) is None <==> sent == key),
        !headers.contains_key("authorization"@) ==> internal_refusal(headers, Some(key)) is Some,
        internal_refusal(headers, None) is Some,
        internal_answer(FailureKind::PermissionDenied, message) == (
            403u16,
            error_body("internal_auth_failed"@, message),
        ),
        kind != FailureKind::PermissionDenied ==> internal_answer(kind, message) == (
            500u16,
            error_body("internal_auth_failed"@, message),
        ),
{
    law_bearer_token_is_read(sent, Seq::empty());
}

/// A key that ends with the number of its user names that user too.
pub proof fn law_key_may_end_with_the_number(user: u64)
    ensures
        key_user("sk-webclaw-"@ + decimal(user as nat)) == Some(user as nat),
{
    reveal_strlit("sk-webclaw-");
    let start = "sk-webclaw-"@;
    let number = decimal(user as nat);
    let key = start + number;
    lemma_digits_only(user as nat, 10);
    assert(key[0] == 's' && key.last() == number.last());
    crate::text::lemma_trimmed_stays(key);
    assert(key.subrange(0, start.len() as int) =~= start);
    let rest = key.skip(start.len() as int);
    assert(rest =~= number);
    crate::text::lemma_char_index(rest, '-');
    assert(rest.take(rest.len() as int) =~= rest);
    law_number_reads_back(user as nat, 10, u64::MAX as nat);
}

} // verus!
