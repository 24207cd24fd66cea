//! Which tokens a request uses up, and whether there are any left.
use crate::accounts::{bought, law_tokens_go_to_their_user, store_with_tokens, takes_fields};
use crate::auth::AuthContext;
use crate::codec::{is_reading, parsed};
use crate::config::AppConfig;
use crate::failure::Failure;
use crate::json::JsonTree;
use crate::json_field::quoted;
use crate::number::{decimal, decimal_string, lemma_digits_only};
use crate::pairs::{lookup, pair_map, value_of};
use crate::plain::{
    error_head, error_tail, error_text, error_tree, is_bare, lemma_bare, lemma_bare_concat,
    lemma_error_fields, lemma_error_text, lemma_fixed_words,
};
use crate::text::{str_eq, text_view, trim, trimmed};
use crate::usage::{consumed, saturating, RequestUsage, UsageRecord};
use vstd::prelude::*;
use vstd::string::*;

verus! {

/// The header field that says which tokens to use up.
pub const USAGE_MODE_HEADER: &'static str = "x-webclaw-usage-mode";

/// Which tokens a request uses up.
#[derive(Clone, Copy, Debug, PartialEq, Eq, Structural)]
pub enum UsageMode {
    /// Those that a user gets for nothing.
    FreeTrial,
    /// Those that a user has bought.
    PaidBalance,
}

/// The name of a mode.
pub open spec fn mode_name(mode: UsageMode) -> Seq<char> {
    match mode {
        UsageMode::FreeTrial => "free_trial"@,
        UsageMode::PaidBalance => "paid_balance"@,
    }
}

/// The name of a mode.
pub fn usage_mode_label(mode: UsageMode) -> (r: &'static str)
    ensures
        r@ == mode_name(mode),
{
    match mode {
        UsageMode::FreeTrial => "free_trial",
        UsageMode::PaidBalance => "paid_balance",
    }
}

/// The mode that header fields ask for, where they name one.
pub open spec fn requested_mode(headers: Map<Seq<char>, Seq<char>>) -> Option<UsageMode> {
    match value_of(headers, USAGE_MODE_HEADER@) {
        Some(v) => if trim(v) == "paid_balance"@ {
            Some(UsageMode::PaidBalance)
        } else if trim(v) == "free_trial"@ {
            Some(UsageMode::FreeTrial)
        } else {
            None
        },
        None => None,
    }
}

/// The mode that header fields ask for, where they name one.
pub fn requested_usage_mode_from_headers(headers: &Vec<(String, String)>) -> (r: Option<UsageMode>)
    ensures
        r == requested_mode(pair_map(headers@)),
{
    match lookup(headers, USAGE_MODE_HEADER) {
        Some(v) => {
            let t = trimmed(v);
            if str_eq(t.as_str(), "paid_balance") {
                Some(UsageMode::PaidBalance)
            } else if str_eq(t.as_str(), "free_trial") {
                Some(UsageMode::FreeTrial)
            } else {
                None
            }
        },
        None => None,
    }
}

/// The user whose tokens are counted; none for those who are not limited.
pub open spec fn limited_user(auth: AuthContext) -> Option<u64> {
    match auth {
        AuthContext::Login(claims) => Some(claims.user_id),
        AuthContext::ApiToken(id) => Some(id),
        _ => None,
    }
}

/// The user whose tokens are counted; none for those who are not limited.
pub fn quota_user(auth: &AuthContext) -> (r: Option<u64>)
    ensures
        r == limited_user(*auth),
{
    match auth {
        AuthContext::Login(claims) => Some(claims.user_id),
        AuthContext::ApiToken(id) => Some(*id),
        _ => None,
    }
}

/// The mode for a request that asks for none: the tokens that a user has bought come first, as long
/// as there are any left.
pub open spec fn resolved_mode(auth: AuthContext, purchased: u64, used: u64) -> UsageMode {
    if limited_user(auth) is Some && purchased > used {
        UsageMode::PaidBalance
    } else {
        UsageMode::FreeTrial
    }
}

/// The mode for a request that asks for none, by the tokens that the user has bought and those of
/// them that are used up.
pub fn auto_resolve_usage_mode(auth: &AuthContext, purchased: u64, used: u64) -> (r: UsageMode)
    ensures
        r == resolved_mode(*auth, purchased, used),
{
    match quota_user(auth) {
        Some(_) => if purchased > used {
            UsageMode::PaidBalance
        } else {
            UsageMode::FreeTrial
        },
        None => UsageMode::FreeTrial,
    }
}

/// What is said where no tokens are left.
pub open spec fn exhausted_message(mode: UsageMode, used: u64, total: u64) -> Seq<char> {
    match mode {
        UsageMode::FreeTrial => "free quota exhausted. used "@ + decimal(used as nat) + " of "@
            + decimal(total as nat) + " tokens"@,
        UsageMode::PaidBalance => "paid balance exhausted. used "@ + decimal(used as nat) + " of "@
            + decimal(total as nat) + " tokens"@,
    }
}

/// The code that says which tokens are used up.
pub open spec fn exhausted_code(mode: UsageMode) -> Seq<char> {
    match mode {
        UsageMode::FreeTrial => "free_quota_exhausted"@,
        UsageMode::PaidBalance => "paid_balance_exhausted"@,
    }
}

/// The JSON text that says that no tokens are left.
pub open spec fn exhausted_body(mode: UsageMode, used: u64, total: u64) -> Seq<char> {
    match mode {
        UsageMode::FreeTrial => "{\"error\":{\"message\":\"free quota exhausted. used "@ + decimal(
            used as nat,
        ) + " of "@ + decimal(total as nat)
            + " tokens\",\"type\":\"insufficient_quota\",\"code\":\"free_quota_exhausted\"}}"@,
        UsageMode::PaidBalance => "{\"error\":{\"message\":\"paid balance exhausted. used "@
            + decimal(used as nat) + " of "@ + decimal(total as nat)
            + " tokens\",\"type\":\"insufficient_quota\",\"code\":\"paid_balance_exhausted\"}}"@,
    }
}

/// What a request is refused with, by the tokens that there are for its mode and those of them that
/// are used up.
pub open spec fn quota_refusal(auth: AuthContext, mode: UsageMode, total: u64, used: u64) -> Option<
    Seq<char>,
> {
    if limited_user(auth) is Some && used >= total {
        Some(exhausted_body(mode, used, total))
    } else {
        None
    }
}

/// What a request is refused with, by the tokens that there are for its mode and those of them that
/// are used up; none where it is not refused.
pub fn check_login_quota(auth: &AuthContext, usage_mode: UsageMode, total: u64, used: u64) -> (r:
    Option<String>)
    ensures
        text_view(r) == quota_refusal(*auth, usage_mode, total, used),
{
    if quota_user(auth).is_none() || used < total {
        return None;
    }
    let mut body = String::new();
    match usage_mode {
        UsageMode::FreeTrial => {
            body.append("{\"error\":{\"message\":\"free quota exhausted. used ");
        },
        UsageMode::PaidBalance => {
            body.append("{\"error\":{\"message\":\"paid balance exhausted. used ");
        },
    }
    body.append(decimal_string(used).as_str());
    body.append(" of ");
    body.append(decimal_string(total).as_str());
    match usage_mode {
        UsageMode::FreeTrial => {
            body.append(
                " tokens\",\"type\":\"insufficient_quota\",\"code\":\"free_quota_exhausted\"}}",
            );
        },
        UsageMode::PaidBalance => {
            body.append(
                " tokens\",\"type\":\"insufficient_quota\",\"code\":\"paid_balance_exhausted\"}}",
            );
        },
    }
    proof {
        assert(body@ =~= exhausted_body(usage_mode, used, total));
    }
    Some(body)
}

/// Whether a mode is the one for a request: the one that it asks for, or else the one that its user
/// has tokens for, where `purchased` tells what the user has bought, and `used` what is used up of
/// the tokens of a mode.
pub open spec fn is_mode_for<
    P: Fn(u64) -> Result<u64, Failure>,
    U: Fn(UsageMode, u64) -> Result<u64, Failure>,
>(
    auth: AuthContext,
    headers: Map<Seq<char>, Seq<char>>,
    purchased: P,
    used: U,
    mode: UsageMode,
) -> bool {
    match (requested_mode(headers), limited_user(auth)) {
        (Some(requested), _) => mode == requested,
        (None, None) => mode == UsageMode::FreeTrial,
        (None, Some(user)) => exists|p: u64, u: u64| #[trigger]
            resolved_mode(auth, p, u) == mode && call_ensures(purchased, (user,), Ok(p))
                && call_ensures(used, (UsageMode::PaidBalance, user), Ok(u)),
    }
}

/// Whether a request is refused with the given text, or not at all, in the given mode.
pub open spec fn is_refusal_for<
    P: Fn(u64) -> Result<u64, Failure>,
    U: Fn(UsageMode, u64) -> Result<u64, Failure>,
>(
    auth: AuthContext,
    free_total: u64,
    purchased: P,
    used: U,
    mode: UsageMode,
    refusal: Option<Seq<char>>,
) -> bool {
    match limited_user(auth) {
        None => refusal is None,
        Some(user) => exists|total: u64, u: u64| #[trigger]
            quota_refusal(auth, mode, total, u) == refusal && call_ensures(
                used,
                (mode, user),
                Ok(u),
            ) && match mode {
                UsageMode::FreeTrial => total == free_total,
                UsageMode::PaidBalance => call_ensures(purchased, (user,), Ok(total)),
            },
    }
}

/// Whether a failure is one to tell what is needed for a request: what the user has bought is
/// needed unless the request asks for the free tokens, and what is used up is needed of the mode,
/// and of the bought tokens where the request asks for no mode. What is used up of the bought tokens
/// is asked for only once it is known what was bought.
pub open spec fn is_failure_for<
    P: Fn(u64) -> Result<u64, Failure>,
    U: Fn(UsageMode, u64) -> Result<u64, Failure>,
>(
    auth: AuthContext,
    headers: Map<Seq<char>, Seq<char>>,
    purchased: P,
    used: U,
    e: Failure,
) -> bool {
    match limited_user(auth) {
        None => false,
        Some(user) => {
            let bought_fails = call_ensures(purchased, (user,), Err(e));
            let paid_fails = call_ensures(used, (UsageMode::PaidBalance, user), Err(e)) && exists|
                p: u64,
            | #[trigger]
                call_ensures(purchased, (user,), Ok::<u64, Failure>(p));
            let free_fails = call_ensures(used, (UsageMode::FreeTrial, user), Err(e));
            match requested_mode(headers) {
                Some(UsageMode::FreeTrial) => free_fails,
                Some(UsageMode::PaidBalance) => bought_fails || paid_fails,
                None => bought_fails || paid_fails || is_mode_for(
                    auth,
                    headers,
                    purchased,
                    used,
                    UsageMode::FreeTrial,
                ) && free_fails,
            }
        },
    }
}

/// The mode for a request, and what it is refused with where no tokens are left for it. What the
/// user has bought, and what is used up, is asked for only where it is needed; a failure to tell it
/// is passed on.
pub fn decide_quota<
    P: Fn(u64) -> Result<u64, Failure>,
    U: Fn(UsageMode, u64) -> Result<u64, Failure>,
>(
    auth: &AuthContext,
    headers: &Vec<(String, String)>,
    free_total: u64,
    purchased: P,
    used: U,
) -> (r: Result<(UsageMode, Option<String>), Failure>)
    requires
        forall|user: u64| call_requires(purchased, (user,)),
        forall|mode: UsageMode, user: u64| call_requires(used, (mode, user)),
    ensures
        match r {
            Ok((mode, refusal)) => {
                &&& is_mode_for(*auth, pair_map(headers@), purchased, used, mode)
                &&& is_refusal_for(*auth, free_total, purchased, used, mode, text_view(refusal))
            },
            Err(e) => is_failure_for(*auth, pair_map(headers@), purchased, used, e),
        },
{
    let requested = requested_usage_mode_from_headers(headers);
    let user = match quota_user(auth) {
        Some(user) => user,
        None => {
            let mode = match requested {
                Some(mode) => mode,
                None => UsageMode::FreeTrial,
            };
            return Ok((mode, None));
        },
    };
    let mode = match requested {
        Some(mode) => mode,
        None => {
            let p = match purchased(user) {
                Ok(n) => n,
                Err(e) => return Err(e),
            };
            let u = match used(UsageMode::PaidBalance, user) {
                Ok(n) => n,
                Err(e) => return Err(e),
            };
            auto_resolve_usage_mode(auth, p, u)
        },
    };
    let total = match mode {
        UsageMode::FreeTrial => free_total,
        UsageMode::PaidBalance => match purchased(user) {
            Ok(n) => n,
            Err(e) => return Err(e),
        },
    };
    let u = match used(mode, user) {
        Ok(n) => n,
        Err(e) => return Err(e),
    };
    Ok((mode, check_login_quota(auth, mode, total, u)))
}

/// Where the use of the tokens of a mode is recorded.
pub open spec fn ledger_path(cfg: AppConfig, mode: UsageMode) -> Seq<char> {
    match mode {
        UsageMode::FreeTrial => cfg.usage_store_path@,
        UsageMode::PaidBalance => cfg.paid_usage_store_path@,
    }
}

/// Where the use of the tokens of a mode is recorded.
pub fn usage_path(cfg: &AppConfig, mode: UsageMode) -> (r: &str)
    ensures
        r@ == ledger_path(*cfg, mode),
{
    match mode {
        UsageMode::FreeTrial => cfg.usage_store_path.as_str(),
        UsageMode::PaidBalance => cfg.paid_usage_store_path.as_str(),
    }
}

/// Whether a record is the one for a request.
pub open spec fn is_record(
    record: UsageRecord,
    auth: AuthContext,
    known_email: Seq<char>,
    usage: RequestUsage,
    model: Seq<char>,
    stream: bool,
    ts: u64,
) -> bool {
    &&& record.ts == ts
    &&& Some(record.user_id) == limited_user(auth)
    &&& record.email@ == match auth {
        AuthContext::Login(claims) => claims.email@,
        _ => known_email,
    }
    &&& record.total_tokens == usage.total_tokens
    &&& record.input_tokens == usage.input_tokens
    &&& record.output_tokens == usage.output_tokens
    &&& record.model@ == model
    &&& record.stream == stream
}

/// The record of a request: there is one where the user is limited and the response reports its
/// tokens. A login token names the address of its user; that of any other is `known_email`.
pub fn usage_record(
    auth: &AuthContext,
    known_email: &str,
    usage: Option<RequestUsage>,
    model: &str,
    stream: bool,
    ts: u64,
) -> (r: Option<UsageRecord>)
    ensures
        match r {
            Some(record) => usage is Some && is_record(
                record,
                *auth,
                known_email@,
                usage->0,
                model@,
                stream,
                ts,
            ),
            None => usage is None || limited_user(*auth) is None,
        },
{
    let (user_id, email) = match auth {
        AuthContext::Login(claims) => (claims.user_id, claims.email.clone()),
        AuthContext::ApiToken(id) => (*id, known_email.to_owned()),
        _ => return None,
    };
    match usage {
        Some(u) => Some(
            UsageRecord {
                ts,
                user_id,
                email,
                total_tokens: u.total_tokens,
                input_tokens: u.input_tokens,
                output_tokens: u.output_tokens,
                model: model.to_owned(),
                stream,
            },
        ),
        None => None,
    }
}

/// Whoever has the key of the proxy, or asks without any, is not limited.
pub proof fn law_proxy_key_is_not_limited(mode: UsageMode, total: u64, used: u64)
    ensures
        quota_refusal(AuthContext::ProxyKey, mode, total, used) is None,
        quota_refusal(AuthContext::Anonymous, mode, total, used) is None,
{
}

/// A user is refused as soon as as many tokens are used up as there are, and no sooner.
pub proof fn law_refused_when_used_up(auth: AuthContext, mode: UsageMode, total: u64, used: u64)
    requires
        limited_user(auth) is Some,
    ensures
        quota_refusal(auth, mode, total, used) is Some <==> used >= total,
{
}

/// A mode that is chosen because bought tokens are left is not refused for want of them.
pub proof fn law_resolved_balance_suffices(auth: AuthContext, purchased: u64, used: u64)
    requires
        resolved_mode(auth, purchased, used) == UsageMode::PaidBalance,
    ensures
        quota_refusal(auth, UsageMode::PaidBalance, purchased, used) is None,
{
}

/// A request that uses up the last tokens of its user is the last: with its record in the ledger
/// the next one is refused.
pub proof fn law_recorded_use_counts(
    auth: AuthContext,
    mode: UsageMode,
    total: u64,
    ledger: Seq<Option<UsageRecord>>,
    record: UsageRecord,
    known_email: Seq<char>,
    usage: RequestUsage,
    model: Seq<char>,
    stream: bool,
    ts: u64,
)
    requires
        is_record(record, auth, known_email, usage, model, stream, ts),
        consumed(ledger, record.user_id) + usage.total_tokens >= total,
    ensures
        quota_refusal(
            auth,
            mode,
            total,
            saturating(consumed(ledger.push(Some(record)), record.user_id)),
        ) is Some,
{
    crate::usage::law_record_counts_for_its_user(ledger, record, record.user_id);
}

/// Tokens that are bought lift a refusal, as soon as there are more of them than are used up.
pub proof fn law_bought_tokens_lift_a_refusal(
    auth: AuthContext,
    store: JsonTree,
    user: u64,
    tokens: u64,
    used: u64,
)
    requires
        takes_fields(store),
        used < bought(store, user) + tokens,
        used < u64::MAX,
    ensures
        quota_refusal(
            auth,
            UsageMode::PaidBalance,
            bought(store_with_tokens(store, user, tokens), user),
            used,
        ) is None,
{
    law_tokens_go_to_their_user(store, user, tokens, user);
}

/// What is said where no tokens are left needs no escaping.
proof fn lemma_exhausted_is_bare(mode: UsageMode, used: u64, total: u64)
    ensures
        is_bare(exhausted_message(mode, used, total)),
        is_bare("insufficient_quota"@),
        is_bare(exhausted_code(mode)),
{
    lemma_fixed_words();
    lemma_digits_only(used as nat, 10);
    lemma_digits_only(total as nat, 10);
    let start = match mode {
        UsageMode::FreeTrial => "free quota exhausted. used "@,
        UsageMode::PaidBalance => "paid balance exhausted. used "@,
    };
    let a = decimal(used as nat);
    let b = decimal(total as nat);
    lemma_bare_concat(start, a);
    lemma_bare_concat(start + a, " of "@);
    lemma_bare_concat(start + a + " of "@, b);
    lemma_bare_concat(start + a + " of "@ + b, " tokens"@);
}

/// The parts of the JSON text that says that no free tokens are left.
#[verifier::rlimit(50)]
proof fn lemma_free_parts()
    ensures
        "{\"error\":{\"message\":\"free quota exhausted. used "@ == error_head()
            + "free quota exhausted. used "@,
        " tokens\",\"type\":\"insufficient_quota\",\"code\":\"free_quota_exhausted\"}}"@
            == " tokens"@ + error_tail("insufficient_quota"@, "free_quota_exhausted"@),
{
    assert("{\"error\":{\"message\":\"free quota exhausted. used "@ =~= error_head()
        + "free quota exhausted. used "@) by {
        reveal_strlit("error");
        reveal_strlit("message");
        reveal_strlit("free quota exhausted. used ");
        reveal_strlit("{\"error\":{\"message\":\"free quota exhausted. used ");
    }
    assert(" tokens\",\"type\":\"insufficient_quota\",\"code\":\"free_quota_exhausted\"}}"@
        =~= " tokens"@ + error_tail("insufficient_quota"@, "free_quota_exhausted"@)) by {
        reveal_strlit("type");
        reveal_strlit("code");
        reveal_strlit(" tokens");
        reveal_strlit("insufficient_quota");
        reveal_strlit("free_quota_exhausted");
        reveal_strlit(
            " tokens\",\"type\":\"insufficient_quota\",\"code\":\"free_quota_exhausted\"}}",
        );
    }
}

/// The parts of the JSON text that says that no bought tokens are left.
#[verifier::rlimit(50)]
proof fn lemma_paid_parts()
    ensures
        "{\"error\":{\"message\":\"paid balance exhausted. used "@ == error_head()
            + "paid balance exhausted. used "@,
        " tokens\",\"type\":\"insufficient_quota\",\"code\":\"paid_balance_exhausted\"}}"@
            == " tokens"@ + error_tail("insufficient_quota"@, "paid_balance_exhausted"@),
{
    assert("{\"error\":{\"message\":\"paid balance exhausted. used "@ =~= error_head()
        + "paid balance exhausted. used "@) by {
        reveal_strlit("error");
        reveal_strlit("message");
        reveal_strlit("paid balance exhausted. used ");
        reveal_strlit("{\"error\":{\"message\":\"paid balance exhausted. used ");
    }
    assert(" tokens\",\"type\":\"insufficient_quota\",\"code\":\"paid_balance_exhausted\"}}"@
        =~= " tokens"@ + error_tail("insufficient_quota"@, "paid_balance_exhausted"@)) by {
        reveal_strlit("type");
        reveal_strlit("code");
        reveal_strlit(" tokens");
        reveal_strlit("insufficient_quota");
        reveal_strlit("paid_balance_exhausted");
        reveal_strlit(
            " tokens\",\"type\":\"insufficient_quota\",\"code\":\"paid_balance_exhausted\"}}",
        );
    }
}

/// The JSON text that says that no tokens are left is that of an object that tells of an error.
#[verifier::rlimit(50)]
proof fn lemma_exhausted_text(mode: UsageMode, used: u64, total: u64)
    ensures
        exhausted_body(mode, used, total) == error_text(
            exhausted_message(mode, used, total),
            "insufficient_quota"@,
            exhausted_code(mode),
        ),
{
    let message = exhausted_message(mode, used, total);
    let kind = "insufficient_quota"@;
    let code = exhausted_code(mode);
    assert(error_text(message, kind, code) == error_head() + message + error_tail(kind, code)) by {
        lemma_exhausted_is_bare(mode, used, total);
        lemma_bare(message);
        lemma_error_text(message, kind, code);
    }
    lemma_free_parts();
    lemma_paid_parts();
    assert(exhausted_body(mode, used, total) =~= error_head() + message + error_tail(kind, code));
}

/// The JSON text that says that no tokens are left is read as the object that it writes.
pub proof fn law_exhausted_text_reads_back(
    mode: UsageMode,
    used: u64,
    total: u64,
    outcome: Result<JsonTree, Seq<char>>,
)
    requires
        is_reading(exhausted_body(mode, used, total), outcome),
    ensures
        outcome == parsed(
            error_tree(
                exhausted_message(mode, used, total),
                "insufficient_quota"@,
                exhausted_code(mode),
            ),
        ),
{
    let message = exhausted_message(mode, used, total);
    lemma_exhausted_is_bare(mode, used, total);
    lemma_bare(message);
    lemma_bare("insufficient_quota"@);
    lemma_bare(exhausted_code(mode));
    lemma_exhausted_text(mode, used, total);
    lemma_error_fields(message, "insufficient_quota"@, exhausted_code(mode));
}

/// Whose tokens are counted: those of the user that a login token names, and those of the user that
/// a key names; nobody else's.
pub proof fn law_users_are_limited(auth: AuthContext)
    ensures
        auth matches AuthContext::Login(claims) ==> limited_user(auth) == Some(claims.user_id),
        auth matches AuthContext::ApiToken(id) ==> limited_user(auth) == Some(id),
        auth is ProxyKey || auth is Anonymous ==> limited_user(auth) is None,
{
}

/// A request that asks for no mode is served from the bought tokens of its user, by key as well as
/// by login token, as long as there are more of them than are used up; the way in which the user is
/// known makes no difference.
pub proof fn law_bought_tokens_come_first(
    auth: AuthContext,
    other: AuthContext,
    purchased: u64,
    used: u64,
)
    ensures
        auth is Login || auth is ApiToken ==> (resolved_mode(auth, purchased, used)
            == UsageMode::PaidBalance <==> purchased > used),
        auth is ProxyKey || auth is Anonymous ==> resolved_mode(auth, purchased, used)
            == UsageMode::FreeTrial,
        (limited_user(auth) is Some <==> limited_user(other) is Some) ==> resolved_mode(
            auth,
            purchased,
            used,
        ) == resolved_mode(other, purchased, used),
        (auth is Login || auth is ApiToken) && purchased > used ==> quota_refusal(
            auth,
            resolved_mode(auth, purchased, used),
            purchased,
            used,
        ) is None,
{
}

/// A user, by key as well as by login token, is refused in either mode once as many tokens are used
/// up as there are, and not before; nobody else is refused. One token more lifts the refusal of a
/// user who has used up just as many as there are.
pub proof fn law_tokens_decide(auth: AuthContext, mode: UsageMode, total: u64, used: u64)
    ensures
        auth is Login || auth is ApiToken ==> (quota_refusal(auth, mode, total, used) is Some <==> used
            >= total),
        auth is ProxyKey || auth is Anonymous ==> quota_refusal(auth, mode, total, used) is None,
        used == total && total < u64::MAX ==> quota_refusal(auth, mode, (total + 1) as u64, used)
            is None,
{
}

/// What is said where no tokens are left names the mode, then the tokens that are used up, then
/// those that there are.
pub proof fn law_refusal_tells_the_counts(mode: UsageMode, used: u64, total: u64)
    ensures
        ({
            let message = exhausted_message(mode, used, total);
            let head = match mode {
                UsageMode::FreeTrial => "free quota exhausted. used "@,
                UsageMode::PaidBalance => "paid balance exhausted. used "@,
            } + decimal(used as nat) + " of "@;
            let tail = " of "@ + decimal(total as nat) + " tokens"@;
            &&& head.len() <= message.len() && message.take(head.len() as int) == head
            &&& tail.len() <= message.len() && message.skip(message.len() - tail.len()) == tail
            &&& message.len() == head.len() + tail.len() - 4
        }),
        exhausted_code(UsageMode::FreeTrial) == "free_quota_exhausted"@,
        exhausted_code(UsageMode::PaidBalance) == "paid_balance_exhausted"@,
{
    reveal_strlit(" of ");
    let message = exhausted_message(mode, used, total);
    let start = match mode {
        UsageMode::FreeTrial => "free quota exhausted. used "@,
        UsageMode::PaidBalance => "paid balance exhausted. used "@,
    };
    let head = start + decimal(used as nat) + " of "@;
    let tail = " of "@ + decimal(total as nat) + " tokens"@;
    assert(message =~= head + decimal(total as nat) + " tokens"@);
    assert(message =~= start + decimal(used as nat) + tail);
    assert(message.take(head.len() as int) =~= head);
    assert(message.skip(message.len() - tail.len()) =~= tail);
}

/// The header field `x-webclaw-usage-mode` asks for a mode by its name, with white space round it or
/// without; any other value, and no field, asks for none.
pub proof fn law_mode_is_asked_for_by_name(headers: Map<Seq<char>, Seq<char>>)
    ensures
        requested_mode(headers) == Some(UsageMode::PaidBalance) <==> headers.contains_key(
            "x-webclaw-usage-mode"@,
        ) && trim(headers["x-webclaw-usage-mode"@]) == "paid_balance"@,
        requested_mode(headers) == Some(UsageMode::FreeTrial) <==> headers.contains_key(
            "x-webclaw-usage-mode"@,
        ) && trim(headers["x-webclaw-usage-mode"@]) == "free_trial"@,
        forall|mode: UsageMode, v: Seq<char>|
            #![trigger mode_name(mode), headers.insert("x-webclaw-usage-mode"@, v)]
            trim(v) == mode_name(mode) ==> requested_mode(
                headers.insert("x-webclaw-usage-mode"@, v),
            ) == Some(mode),
{
    reveal_strlit("paid_balance");
    reveal_strlit("free_trial");
    assert("paid_balance"@.len() == 12 && "free_trial"@.len() == 10);
}

/// What is decided of a request, where it is known what the user has bought and has used up. A mode
/// that the request asks for is the mode, whatever is left of it; without one it is that of the
/// bought tokens just where some of them are left. The request is refused just where the tokens of
/// the mode are used up.
pub proof fn law_request_is_decided_by_its_tokens<
    P: Fn(u64) -> Result<u64, Failure>,
    U: Fn(UsageMode, u64) -> Result<u64, Failure>,
>(
    auth: AuthContext,
    user: u64,
    headers: Map<Seq<char>, Seq<char>>,
    free_total: u64,
    purchased: P,
    used: U,
    bought: u64,
    free_used: u64,
    paid_used: u64,
    mode: UsageMode,
    refusal: Option<Seq<char>>,
)
    requires
        auth is ApiToken && auth->ApiToken_0 == user || auth is Login && auth->Login_0.user_id
            == user,
        forall|n: u64| #[trigger]
            call_ensures(purchased, (user,), Ok::<u64, Failure>(n)) ==> n == bought,
        forall|n: u64| #[trigger]
            call_ensures(used, (UsageMode::FreeTrial, user), Ok::<u64, Failure>(n)) ==> n
                == free_used,
        forall|n: u64| #[trigger]
            call_ensures(used, (UsageMode::PaidBalance, user), Ok::<u64, Failure>(n)) ==> n
                == paid_used,
        is_mode_for(auth, headers, purchased, used, mode),
        is_refusal_for(auth, free_total, purchased, used, mode, refusal),
    ensures
        requested_mode(headers) matches Some(asked) ==> mode == asked,
        requested_mode(headers) is None ==> (mode == UsageMode::PaidBalance <==> bought
            > paid_used),
        mode == UsageMode::FreeTrial ==> (refusal is Some <==> free_used >= free_total),
        mode == UsageMode::PaidBalance ==> (refusal is Some <==> paid_used >= bought),
        requested_mode(headers) is None && bought > paid_used ==> refusal is None,
{
    let total = match mode {
        UsageMode::FreeTrial => free_total,
        UsageMode::PaidBalance => bought,
    };
    let u = match mode {
        UsageMode::FreeTrial => free_used,
        UsageMode::PaidBalance => paid_used,
    };
    assert(refusal == quota_refusal(auth, mode, total, u));
}

/// Whoever is not limited is not refused: the mode is the one that is asked for, or the free one.
pub proof fn law_unlimited_requests_pass<
    P: Fn(u64) -> Result<u64, Failure>,
    U: Fn(UsageMode, u64) -> Result<u64, Failure>,
>(
    auth: AuthContext,
    headers: Map<Seq<char>, Seq<char>>,
    free_total: u64,
    purchased: P,
    used: U,
    mode: UsageMode,
    refusal: Option<Seq<char>>,
    e: Failure,
)
    requires
        auth is ProxyKey || auth is Anonymous,
        is_mode_for(auth, headers, purchased, used, mode),
        is_refusal_for(auth, free_total, purchased, used, mode, refusal),
    ensures
        refusal is None,
        requested_mode(headers) is None ==> mode == UsageMode::FreeTrial,
        requested_mode(headers) matches Some(asked) ==> mode == asked,
        !is_failure_for(auth, headers, purchased, used, e),
{
}

/// A failure to read a store is passed on only where that store is needed: what was bought is not
/// asked for in the free mode.
pub proof fn law_free_mode_needs_no_balance<
    P: Fn(u64) -> Result<u64, Failure>,
    U: Fn(UsageMode, u64) -> Result<u64, Failure>,
>(
    auth: AuthContext,
    headers: Map<Seq<char>, Seq<char>>,
    purchased: P,
    used: U,
    e: Failure,
)
    requires
        requested_mode(headers) == Some(UsageMode::FreeTrial),
        is_failure_for(auth, headers, purchased, used, e),
    ensures
        exists|user: u64| #[trigger]
            call_ensures(used, (UsageMode::FreeTrial, user), Err::<u64, Failure>(e)) && (auth
                is ApiToken && auth->ApiToken_0 == user || auth is Login && auth->Login_0.user_id
                == user),
{
}

/// The record of a request is about the user who asked, and counts the tokens that were reported.
pub proof fn law_record_tells_of_its_request(
    record: UsageRecord,
    auth: AuthContext,
    known_email: Seq<char>,
    usage: RequestUsage,
    model: Seq<char>,
    stream: bool,
    ts: u64,
    other: u64,
)
    requires
        is_record(record, auth, known_email, usage, model, stream, ts),
    ensures
        auth matches AuthContext::ApiToken(id) ==> record.user_id == id && record.email@
            == known_email,
        auth matches AuthContext::Login(c) ==> record.user_id == c.user_id && record.email@
            == c.email@,
        auth is ApiToken || auth is Login,
        (record.total_tokens, record.input_tokens, record.output_tokens) == (
            usage.total_tokens,
            usage.input_tokens,
            usage.output_tokens,
        ),
        (record.ts, record.model@, record.stream) == (ts, model, stream),
        consumed(seq![Some(record)], record.user_id) == usage.total_tokens,
        other != record.user_id ==> consumed(seq![Some(record)], other) == 0,
{
    let ledger = Seq::<Option<UsageRecord>>::empty();
    assert(ledger.push(Some(record)) =~= seq![Some(record)]);
    crate::usage::law_record_counts_for_its_user(ledger, record, record.user_id);
    crate::usage::law_record_counts_for_its_user(ledger, record, other);
}

/// The use of free tokens and that of bought tokens are recorded in files of their own.
pub proof fn law_modes_have_their_own_ledgers(cfg: AppConfig)
    ensures
        ledger_path(cfg, UsageMode::FreeTrial) == cfg.usage_store_path@,
        ledger_path(cfg, UsageMode::PaidBalance) == cfg.paid_usage_store_path@,
        cfg.usage_store_path@ != cfg.paid_usage_store_path@ ==> ledger_path(
            cfg,
            UsageMode::FreeTrial,
        ) != ledger_path(cfg, UsageMode::PaidBalance),
{
}

/// What was bought is asked for before what is used up of it: where it cannot be told, that failure
/// is the one that is passed on. What is used up of the free tokens is asked for only where they are
/// asked for, or where no bought tokens are left.
pub proof fn law_balance_is_asked_for_first<
    P: Fn(u64) -> Result<u64, Failure>,
    U: Fn(UsageMode, u64) -> Result<u64, Failure>,
>(
    auth: AuthContext,
    user: u64,
    headers: Map<Seq<char>, Seq<char>>,
    purchased: P,
    used: U,
    e: Failure,
)
    requires
        auth is ApiToken && auth->ApiToken_0 == user || auth is Login && auth->Login_0.user_id
            == user,
        requested_mode(headers) != Some(UsageMode::FreeTrial),
        is_failure_for(auth, headers, purchased, used, e),
    ensures
        (forall|p: u64|
            !(#[trigger] call_ensures(purchased, (user,), Ok::<u64, Failure>(p)))) ==> call_ensures(
            purchased,
            (user,),
            Err::<u64, Failure>(e),
        ),
        call_ensures(purchased, (user,), Err::<u64, Failure>(e)) || call_ensures(
            used,
            (UsageMode::PaidBalance, user),
            Err::<u64, Failure>(e),
        ) || requested_mode(headers) is None && call_ensures(
            used,
            (UsageMode::FreeTrial, user),
            Err::<u64, Failure>(e),
        ) && exists|p: u64, u: u64|
            p <= u && #[trigger] call_ensures(purchased, (user,), Ok::<u64, Failure>(p))
                && #[trigger] call_ensures(
                used,
                (UsageMode::PaidBalance, user),
                Ok::<u64, Failure>(u),
            ),
{
}

} // verus!
