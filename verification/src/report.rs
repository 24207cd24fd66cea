//! What users and the platform are told of the tokens that were used.
use crate::auth::AuthContext;
use crate::codec::json_text;
use crate::failure::{error_body, error_reply, Reply};
use crate::json::{no_fields, number, text_tree, Fields, Json, JsonTree};
use crate::number::{
    decimal, law_number_reads_back, lemma_digits_only, parse_number, parse_unsigned,
};
use crate::percent::{
    law_first_parameter_counts, law_plain_text_stays, pairs_are_whole, parameter_form, query_text,
    query_value, request_query_param,
};
use crate::quota::{limited_user, mode_name, quota_refusal, usage_mode_label, UsageMode};
use crate::usage::{
    consumed, day_before, load_user_consumed_tokens, load_user_consumed_tokens_last_24h, requests,
    saturating, since, UsageRecord,
};
use vstd::prelude::*;
use vstd::string::*;
use vstd::utf8::encode_utf8;

verus! {

/// What a user has used, and has bought.
#[derive(Clone, Copy, Debug)]
pub struct AccountUsage {
    pub free_used: u64,
    pub free_day_tokens: u64,
    pub free_day_requests: u64,
    pub purchased: u64,
    pub paid_used: u64,
    pub paid_day_tokens: u64,
    pub paid_day_requests: u64,
}

/// What a user has used, by the two ledgers, at a time in milliseconds.
pub fn account_usage(
    free: &Vec<Option<UsageRecord>>,
    paid: &Vec<Option<UsageRecord>>,
    purchased: u64,
    user_id: u64,
    now: u64,
) -> (r: AccountUsage)
    ensures
        r.free_used == saturating(consumed(free@, user_id)),
        r.free_day_tokens == saturating(consumed(since(free@, day_before(now)), user_id)),
        r.free_day_requests == requests(since(free@, day_before(now)), user_id),
        r.purchased == purchased,
        r.paid_used == saturating(consumed(paid@, user_id)),
        r.paid_day_tokens == saturating(consumed(since(paid@, day_before(now)), user_id)),
        r.paid_day_requests == requests(since(paid@, day_before(now)), user_id),
{
    let free_used = load_user_consumed_tokens(free, user_id);
    let (free_day_tokens, free_day_requests) = load_user_consumed_tokens_last_24h(
        free,
        user_id,
        now,
    );
    let paid_used = load_user_consumed_tokens(paid, user_id);
    let (paid_day_tokens, paid_day_requests) = load_user_consumed_tokens_last_24h(
        paid,
        user_id,
        now,
    );
    AccountUsage {
        free_used,
        free_day_tokens,
        free_day_requests,
        purchased,
        paid_used,
        paid_day_tokens,
        paid_day_requests,
    }
}

/// What is left of a number of tokens.
pub open spec fn left(total: u64, used: u64) -> u64 {
    if used < total {
        (total - used) as u64
    } else {
        0
    }
}

/// The report for those who are not limited.
pub open spec fn unlimited_report(
    auth_mode: Seq<char>,
    is_paid: bool,
    is_unlimited: bool,
    mode: UsageMode,
    free_total: u64,
    message: Seq<char>,
) -> JsonTree {
    JsonTree::Object(
        no_fields().insert("auth_mode"@, text_tree(auth_mode)).insert(
            "current_source"@,
            text_tree(auth_mode),
        ).insert("is_paid"@, JsonTree::Bool(is_paid)).insert(
            "is_unlimited"@,
            JsonTree::Bool(is_unlimited),
        ).insert("usage_mode_requested"@, text_tree(mode_name(mode))).insert(
            "free_login_total_tokens"@,
            number(free_total),
        ).insert("free_tokens_used"@, number(0)).insert(
            "free_tokens_remaining"@,
            JsonTree::Null,
        ).insert("paid_tokens_purchased"@, JsonTree::Null).insert(
            "paid_tokens_used"@,
            number(0),
        ).insert("paid_tokens_remaining"@, JsonTree::Null).insert(
            "used_tokens"@,
            number(0),
        ).insert("remaining_tokens"@, JsonTree::Null).insert("message"@, text_tree(message)),
    )
}

/// The report for those who are not limited.
fn make_unlimited_report(
    auth_mode: &str,
    is_paid: bool,
    is_unlimited: bool,
    mode: UsageMode,
    free_total: u64,
    message: &str,
) -> (r: Json)
    ensures
        r.tree() == unlimited_report(
            auth_mode@,
            is_paid,
            is_unlimited,
            mode,
            free_total,
            message@,
        ),
{
    let mut out = Fields::new();
    out.put("auth_mode", Json::text(auth_mode));
    out.put("current_source", Json::text(auth_mode));
    out.put("is_paid", Json::Bool(is_paid));
    out.put("is_unlimited", Json::Bool(is_unlimited));
    out.put("usage_mode_requested", Json::text(usage_mode_label(mode)));
    out.put("free_login_total_tokens", Json::unsigned(free_total));
    out.put("free_tokens_used", Json::unsigned(0));
    out.put("free_tokens_remaining", Json::Null);
    out.put("paid_tokens_purchased", Json::Null);
    out.put("paid_tokens_used", Json::unsigned(0));
    out.put("paid_tokens_remaining", Json::Null);
    out.put("used_tokens", Json::unsigned(0));
    out.put("remaining_tokens", Json::Null);
    out.put("message", Json::text(message));
    out.done()
}

/// The tokens that there are for a mode.
pub open spec fn mode_total(mode: UsageMode, free_total: u64, account: AccountUsage) -> u64 {
    match mode {
        UsageMode::PaidBalance => account.purchased,
        UsageMode::FreeTrial => free_total,
    }
}

/// The tokens of a mode that are used up.
pub open spec fn mode_used(mode: UsageMode, account: AccountUsage) -> u64 {
    match mode {
        UsageMode::PaidBalance => account.paid_used,
        UsageMode::FreeTrial => account.free_used,
    }
}

/// The fields about free and bought tokens that all reports on a user have.
pub open spec fn token_fields(
    start: Map<Seq<char>, JsonTree>,
    free_total: u64,
    account: AccountUsage,
) -> Map<Seq<char>, JsonTree> {
    start.insert("free_login_total_tokens"@, number(free_total)).insert(
        "free_tokens_used"@,
        number(account.free_used),
    ).insert("free_tokens_remaining"@, number(left(free_total, account.free_used))).insert(
        "free_last_24h_tokens"@,
        number(account.free_day_tokens),
    ).insert("free_last_24h_requests"@, number(account.free_day_requests)).insert(
        "paid_tokens_purchased"@,
        number(account.purchased),
    ).insert("paid_tokens_used"@, number(account.paid_used)).insert(
        "paid_tokens_remaining"@,
        number(left(account.purchased, account.paid_used)),
    ).insert("paid_last_24h_tokens"@, number(account.paid_day_tokens)).insert(
        "paid_last_24h_requests"@,
        number(account.paid_day_requests),
    )
}

/// Sets the fields about free and bought tokens.
fn put_token_fields(out: &mut Fields, free_total: u64, account: &AccountUsage)
    ensures
        final(out)@ == token_fields(old(out)@, free_total, *account),
{
    out.put("free_login_total_tokens", Json::unsigned(free_total));
    out.put("free_tokens_used", Json::unsigned(account.free_used));
    out.put(
        "free_tokens_remaining",
        Json::unsigned(free_total.saturating_sub(account.free_used)),
    );
    out.put("free_last_24h_tokens", Json::unsigned(account.free_day_tokens));
    out.put("free_last_24h_requests", Json::unsigned(account.free_day_requests));
    out.put("paid_tokens_purchased", Json::unsigned(account.purchased));
    out.put("paid_tokens_used", Json::unsigned(account.paid_used));
    out.put(
        "paid_tokens_remaining",
        Json::unsigned(account.purchased.saturating_sub(account.paid_used)),
    );
    out.put("paid_last_24h_tokens", Json::unsigned(account.paid_day_tokens));
    out.put("paid_last_24h_requests", Json::unsigned(account.paid_day_requests));
}

/// The report for a user who is limited. What is used, what is left and what was used of late is
/// told for the mode once more.
pub open spec fn user_report(
    auth_mode: Seq<char>,
    user: u64,
    email: Seq<char>,
    is_paid: bool,
    mode: UsageMode,
    free_total: u64,
    account: AccountUsage,
) -> JsonTree {
    let start = no_fields().insert("auth_mode"@, text_tree(auth_mode)).insert(
        "user_id"@,
        number(user),
    ).insert("email"@, text_tree(email)).insert("is_paid"@, JsonTree::Bool(is_paid)).insert(
        "is_unlimited"@,
        JsonTree::Bool(false),
    ).insert("usage_mode_requested"@, text_tree(mode_name(mode))).insert(
        "current_source"@,
        text_tree(mode_name(mode)),
    );
    let paid = mode == UsageMode::PaidBalance;
    JsonTree::Object(
        token_fields(start, free_total, account).insert(
            "used_tokens"@,
            number(mode_used(mode, account)),
        ).insert(
            "remaining_tokens"@,
            number(left(mode_total(mode, free_total, account), mode_used(mode, account))),
        ).insert(
            "last_24h_tokens"@,
            number(
                if paid {
                    account.paid_day_tokens
                } else {
                    account.free_day_tokens
                },
            ),
        ).insert(
            "last_24h_requests"@,
            number(
                if paid {
                    account.paid_day_requests
                } else {
                    account.free_day_requests
                },
            ),
        ).insert(
            "message"@,
            text_tree(
                if paid {
                    "paid balance mode uses purchased tokens"@
                } else {
                    "free trial mode uses gifted tokens"@
                },
            ),
        ),
    )
}

/// The report for a user who is limited.
fn make_user_report(
    auth_mode: &str,
    user: u64,
    email: &str,
    is_paid: bool,
    mode: UsageMode,
    free_total: u64,
    account: &AccountUsage,
) -> (r: Json)
    ensures
        r.tree() == user_report(auth_mode@, user, email@, is_paid, mode, free_total, *account),
{
    let mut out = Fields::new();
    out.put("auth_mode", Json::text(auth_mode));
    out.put("user_id", Json::unsigned(user));
    out.put("email", Json::text(email));
    out.put("is_paid", Json::Bool(is_paid));
    out.put("is_unlimited", Json::Bool(false));
    out.put("usage_mode_requested", Json::text(usage_mode_label(mode)));
    out.put("current_source", Json::text(usage_mode_label(mode)));
    put_token_fields(&mut out, free_total, account);
    match mode {
        UsageMode::PaidBalance => {
            out.put("used_tokens", Json::unsigned(account.paid_used));
            out.put(
                "remaining_tokens",
                Json::unsigned(account.purchased.saturating_sub(account.paid_used)),
            );
            out.put("last_24h_tokens", Json::unsigned(account.paid_day_tokens));
            out.put("last_24h_requests", Json::unsigned(account.paid_day_requests));
            out.put("message", Json::text("paid balance mode uses purchased tokens"));
        },
        UsageMode::FreeTrial => {
            out.put("used_tokens", Json::unsigned(account.free_used));
            out.put(
                "remaining_tokens",
                Json::unsigned(free_total.saturating_sub(account.free_used)),
            );
            out.put("last_24h_tokens", Json::unsigned(account.free_day_tokens));
            out.put("last_24h_requests", Json::unsigned(account.free_day_requests));
            out.put("message", Json::text("free trial mode uses gifted tokens"));
        },
    }
    out.done()
}

/// The report for whoever asks, in the given mode. A login token names the address of its user;
/// that of any other is `known_email`.
pub open spec fn usage_tree(
    auth: AuthContext,
    mode: UsageMode,
    free_total: u64,
    allow_anonymous: bool,
    known_email: Seq<char>,
    account: AccountUsage,
) -> JsonTree {
    match auth {
        AuthContext::ProxyKey => unlimited_report(
            "proxy_key"@,
            true,
            true,
            mode,
            free_total,
            "proxy api key is not quota-limited by free login allowance"@,
        ),
        AuthContext::Anonymous => unlimited_report(
            "anonymous"@,
            false,
            allow_anonymous,
            mode,
            free_total,
            "anonymous access is enabled"@,
        ),
        AuthContext::Login(claims) => user_report(
            "login_token"@,
            claims.user_id,
            claims.email@,
            claims.pro_status || account.purchased > 0,
            mode,
            free_total,
            account,
        ),
        AuthContext::ApiToken(id) => user_report(
            "api_token"@,
            id,
            known_email,
            account.purchased > 0,
            mode,
            free_total,
            account,
        ),
    }
}

/// The report for whoever asks, in the given mode.
pub fn usage_report(
    auth: &AuthContext,
    mode: UsageMode,
    free_total: u64,
    allow_anonymous: bool,
    known_email: &str,
    account: &AccountUsage,
) -> (r: Json)
    ensures
        r.tree() == usage_tree(
            *auth,
            mode,
            free_total,
            allow_anonymous,
            known_email@,
            *account,
        ),
{
    match auth {
        AuthContext::ProxyKey => make_unlimited_report(
            "proxy_key",
            true,
            true,
            mode,
            free_total,
            "proxy api key is not quota-limited by free login allowance",
        ),
        AuthContext::Anonymous => make_unlimited_report(
            "anonymous",
            false,
            allow_anonymous,
            mode,
            free_total,
            "anonymous access is enabled",
        ),
        AuthContext::Login(claims) => make_user_report(
            "login_token",
            claims.user_id,
            claims.email.as_str(),
            claims.pro_status || account.purchased > 0,
            mode,
            free_total,
            account,
        ),
        AuthContext::ApiToken(id) => make_user_report(
            "api_token",
            *id,
            known_email,
            account.purchased > 0,
            mode,
            free_total,
            account,
        ),
    }
}

/// The mode of a report: the one that is asked for, or the free one.
pub fn report_mode(requested: Option<UsageMode>) -> (r: UsageMode)
    ensures
        r == match requested {
            Some(mode) => mode,
            None => UsageMode::FreeTrial,
        },
{
    match requested {
        Some(mode) => mode,
        None => UsageMode::FreeTrial,
    }
}

/// A successful answer with a value.
pub fn ok_reply(value: &Json) -> (r: Reply)
    ensures
        r@ == (200u16, json_text(value.tree())),
{
    Reply { status: 200, body: value.to_text() }
}

/// The user that the query of a path asks about: a number greater than 0.
pub open spec fn asked_user(path: Seq<char>) -> Option<nat> {
    match query_text(path, "user_id"@) {
        Some(v) => match parse_unsigned(v, 10, u64::MAX as nat) {
            Some(n) => if n > 0 {
                Some(n)
            } else {
                None
            },
            None => None,
        },
        None => None,
    }
}

/// The user that the query of a path asks about: a number greater than 0.
pub fn requested_user(path: &str) -> (r: Option<u64>)
    requires
        query_value(path@, "user_id"@) matches Some(value) ==> pairs_are_whole(encode_utf8(value)),
    ensures
        match r {
            Some(n) => asked_user(path@) == Some(n as nat),
            None => asked_user(path@) == None::<nat>,
        },
{
    match request_query_param(path, "user_id") {
        Some(v) => match parse_number(v.as_str(), 10, u64::MAX) {
            Some(n) => if n > 0 {
                Some(n)
            } else {
                None
            },
            None => None,
        },
        None => None,
    }
}

/// The answer where the query of a path asks about no user.
pub fn missing_user_reply() -> (r: Reply)
    ensures
        r@ == (400u16, error_body("invalid_user_id"@, "user_id is required"@)),
{
    error_reply(400, "invalid_user_id", "user_id is required")
}

/// What the platform is told of a user.
pub open spec fn internal_report(user: u64, free_total: u64, account: AccountUsage) -> JsonTree {
    JsonTree::Object(
        token_fields(no_fields().insert("user_id"@, number(user)), free_total, account),
    )
}

/// What the platform is told of a user.
pub fn internal_usage(user: u64, free_total: u64, account: &AccountUsage) -> (r: Json)
    ensures
        r.tree() == internal_report(user, free_total, *account),
{
    let mut out = Fields::new();
    out.put("user_id", Json::unsigned(user));
    put_token_fields(&mut out, free_total, account);
    out.done()
}

/// What is left of the tokens, as a report tells it, is what decides whether the next request is
/// refused: it is, just where nothing is left.
pub proof fn law_report_agrees_with_quota(
    auth: AuthContext,
    mode: UsageMode,
    free_total: u64,
    allow_anonymous: bool,
    known_email: Seq<char>,
    account: AccountUsage,
)
    requires
        limited_user(auth) is Some,
    ensures
        ({
            let report = usage_tree(
                auth,
                mode,
                free_total,
                allow_anonymous,
                known_email,
                account,
            );
            &&& report.u64_at("remaining_tokens"@) is Some
            &&& report.u64_at("remaining_tokens"@) == Some(0u64) <==> quota_refusal(
                auth,
                mode,
                mode_total(mode, free_total, account),
                mode_used(mode, account),
            ) is Some
        }),
{
    reveal_strlit("remaining_tokens");
    reveal_strlit("last_24h_tokens");
    reveal_strlit("last_24h_requests");
    reveal_strlit("message");
    assert("remaining_tokens"@.len() != "last_24h_tokens"@.len());
    assert("remaining_tokens"@.len() != "last_24h_requests"@.len());
    assert("remaining_tokens"@.len() != "message"@.len());
}

/// Whether a report tells what is used and what is left of the free and of the bought tokens: what
/// is left and what is used make up the whole, or nothing is left where more is used.
pub open spec fn tells_tokens(report: JsonTree, free_total: u64, account: AccountUsage) -> bool {
    &&& report.u64_at("free_login_total_tokens"@) == Some(free_total)
    &&& report.u64_at("free_tokens_used"@) == Some(account.free_used)
    &&& report.u64_at("paid_tokens_purchased"@) == Some(account.purchased)
    &&& report.u64_at("paid_tokens_used"@) == Some(account.paid_used)
    &&& report.u64_at("free_tokens_remaining"@) matches Some(n) && if account.free_used
        <= free_total {
        n + account.free_used == free_total
    } else {
        n == 0
    }
    &&& report.u64_at("paid_tokens_remaining"@) matches Some(n) && if account.paid_used
        <= account.purchased {
        n + account.paid_used == account.purchased
    } else {
        n == 0
    }
    &&& report.u64_at("free_last_24h_tokens"@) == Some(account.free_day_tokens)
    &&& report.u64_at("free_last_24h_requests"@) == Some(account.free_day_requests)
    &&& report.u64_at("paid_last_24h_tokens"@) == Some(account.paid_day_tokens)
    &&& report.u64_at("paid_last_24h_requests"@) == Some(account.paid_day_requests)
}

/// What the platform is told of a user adds up.
#[verifier::rlimit(50)]
pub proof fn law_internal_report_adds_up(user: u64, free_total: u64, account: AccountUsage)
    ensures
        tells_tokens(internal_report(user, free_total, account), free_total, account),
        internal_report(user, free_total, account).u64_at("user_id"@) == Some(user),
{
    reveal_strlit("user_id");
    reveal_strlit("free_login_total_tokens");
    reveal_strlit("free_tokens_used");
    reveal_strlit("free_tokens_remaining");
    reveal_strlit("free_last_24h_tokens");
    reveal_strlit("free_last_24h_requests");
    reveal_strlit("paid_tokens_purchased");
    reveal_strlit("paid_tokens_used");
    reveal_strlit("paid_tokens_remaining");
    reveal_strlit("paid_last_24h_tokens");
    reveal_strlit("paid_last_24h_requests");
    assert("user_id"@.len() == 7 && "free_login_total_tokens"@.len() == 23);
    assert("free_tokens_used"@.len() == 16 && "free_tokens_remaining"@.len() == 21);
    assert("free_last_24h_tokens"@.len() == 20 && "free_last_24h_requests"@.len() == 22);
    assert("paid_tokens_purchased"@.len() == 21 && "paid_tokens_used"@.len() == 16);
    assert("paid_tokens_remaining"@.len() == 21 && "paid_last_24h_tokens"@.len() == 20);
    assert("paid_last_24h_requests"@.len() == 22 && "free_tokens_used"@[0] == 'f');
    assert("paid_tokens_used"@[0] == 'p' && "free_tokens_remaining"@[0] == 'f');
    assert("paid_tokens_purchased"@[0] == 'p' && "paid_tokens_remaining"@[0] == 'p');
    assert("free_last_24h_tokens"@[0] == 'f' && "paid_last_24h_tokens"@[0] == 'p');
    assert("free_last_24h_requests"@[0] == 'f' && "paid_last_24h_requests"@[0] == 'p');
    assert("paid_tokens_purchased"@[12] == 'p' && "paid_tokens_remaining"@[12] == 'r');
}

/// In the report on a user, by key as well as by login token, what is used and what is left of the
/// tokens of the mode make up the whole of them, or nothing is left where more is used: just what
/// the report says of the free tokens in the free mode, and of the bought tokens in the other.
#[verifier::rlimit(50)]
pub proof fn law_report_adds_up(
    auth: AuthContext,
    mode: UsageMode,
    free_total: u64,
    allow_anonymous: bool,
    known_email: Seq<char>,
    account: AccountUsage,
)
    requires
        auth is Login || auth is ApiToken,
    ensures
        ({
            let report = usage_tree(
                auth,
                mode,
                free_total,
                allow_anonymous,
                known_email,
                account,
            );
            let (total, used) = match mode {
                UsageMode::FreeTrial => (free_total, account.free_used),
                UsageMode::PaidBalance => (account.purchased, account.paid_used),
            };
            &&& tells_tokens(report, free_total, account)
            &&& report.u64_at("used_tokens"@) == Some(used)
            &&& report.u64_at("remaining_tokens"@) matches Some(n) && if used <= total {
                n + used == total
            } else {
                n == 0
            }
            &&& mode == UsageMode::FreeTrial ==> {
                &&& report.u64_at("remaining_tokens"@) == report.u64_at("free_tokens_remaining"@)
                &&& report.u64_at("used_tokens"@) == report.u64_at("free_tokens_used"@)
                &&& report.u64_at("last_24h_tokens"@) == Some(account.free_day_tokens)
                &&& report.u64_at("last_24h_requests"@) == Some(account.free_day_requests)
                &&& report.str_at("current_source"@) == Some("free_trial"@)
                &&& report.str_at("usage_mode_requested"@) == Some("free_trial"@)
            }
            &&& mode == UsageMode::PaidBalance ==> {
                &&& report.u64_at("remaining_tokens"@) == report.u64_at("paid_tokens_remaining"@)
                &&& report.u64_at("used_tokens"@) == report.u64_at("paid_tokens_used"@)
                &&& report.u64_at("last_24h_tokens"@) == Some(account.paid_day_tokens)
                &&& report.u64_at("last_24h_requests"@) == Some(account.paid_day_requests)
                &&& report.str_at("current_source"@) == Some("paid_balance"@)
                &&& report.str_at("usage_mode_requested"@) == Some("paid_balance"@)
            }
        }),
{
    reveal_strlit("auth_mode");
    reveal_strlit("user_id");
    reveal_strlit("email");
    reveal_strlit("is_paid");
    reveal_strlit("is_unlimited");
    reveal_strlit("usage_mode_requested");
    reveal_strlit("current_source");
    reveal_strlit("free_login_total_tokens");
    reveal_strlit("free_tokens_used");
    reveal_strlit("free_tokens_remaining");
    reveal_strlit("free_last_24h_tokens");
    reveal_strlit("free_last_24h_requests");
    reveal_strlit("paid_tokens_purchased");
    reveal_strlit("paid_tokens_used");
    reveal_strlit("paid_tokens_remaining");
    reveal_strlit("paid_last_24h_tokens");
    reveal_strlit("paid_last_24h_requests");
    reveal_strlit("used_tokens");
    reveal_strlit("remaining_tokens");
    reveal_strlit("last_24h_tokens");
    reveal_strlit("last_24h_requests");
    reveal_strlit("message");
    assert("auth_mode"@.len() == 9 && "user_id"@.len() == 7 && "email"@.len() == 5);
    assert("is_paid"@.len() == 7 && "is_unlimited"@.len() == 12);
    assert("usage_mode_requested"@.len() == 20 && "current_source"@.len() == 14);
    assert("free_login_total_tokens"@.len() == 23 && "free_tokens_used"@.len() == 16);
    assert("free_tokens_remaining"@.len() == 21 && "free_last_24h_tokens"@.len() == 20);
    assert("free_last_24h_requests"@.len() == 22 && "paid_tokens_purchased"@.len() == 21);
    assert("paid_tokens_used"@.len() == 16 && "paid_tokens_remaining"@.len() == 21);
    assert("paid_last_24h_tokens"@.len() == 20 && "paid_last_24h_requests"@.len() == 22);
    assert("used_tokens"@.len() == 11 && "remaining_tokens"@.len() == 16);
    assert("last_24h_tokens"@.len() == 15 && "last_24h_requests"@.len() == 17);
    assert("message"@.len() == 7 && "user_id"@[0] == 'u' && "is_paid"@[0] == 'i');
    assert("message"@[0] == 'm' && "usage_mode_requested"@[0] == 'u');
    assert("free_last_24h_tokens"@[0] == 'f' && "paid_last_24h_tokens"@[0] == 'p');
    assert("free_tokens_used"@[0] == 'f' && "paid_tokens_used"@[0] == 'p');
    assert("remaining_tokens"@[0] == 'r' && "free_tokens_remaining"@[0] == 'f');
    assert("paid_tokens_purchased"@[0] == 'p' && "paid_tokens_remaining"@[0] == 'p');
    assert("free_last_24h_requests"@[0] == 'f' && "paid_last_24h_requests"@[0] == 'p');
    assert("paid_tokens_purchased"@[12] == 'p' && "paid_tokens_remaining"@[12] == 'r');
}

/// The report on a user says who it is about: the user that a key names, or the one that a login
/// token names, with the address from that token. Whoever has bought tokens has paid, and so has a
/// user whose login token says so.
#[verifier::rlimit(50)]
pub proof fn law_report_is_about_its_user(
    auth: AuthContext,
    mode: UsageMode,
    free_total: u64,
    allow_anonymous: bool,
    known_email: Seq<char>,
    account: AccountUsage,
)
    ensures
        ({
            let report = usage_tree(
                auth,
                mode,
                free_total,
                allow_anonymous,
                known_email,
                account,
            );
            match auth {
                AuthContext::Login(claims) => {
                    &&& report.u64_at("user_id"@) == Some(claims.user_id)
                    &&& report.str_at("email"@) == Some(claims.email@)
                    &&& report.str_at("auth_mode"@) == Some("login_token"@)
                    &&& report.bool_at("is_paid"@) == Some(
                        claims.pro_status || account.purchased > 0,
                    )
                    &&& report.bool_at("is_unlimited"@) == Some(false)
                },
                AuthContext::ApiToken(id) => {
                    &&& report.u64_at("user_id"@) == Some(id)
                    &&& report.str_at("email"@) == Some(known_email)
                    &&& report.str_at("auth_mode"@) == Some("api_token"@)
                    &&& report.bool_at("is_paid"@) == Some(account.purchased > 0)
                    &&& report.bool_at("is_unlimited"@) == Some(false)
                },
                AuthContext::ProxyKey => {
                    &&& report.str_at("auth_mode"@) == Some("proxy_key"@)
                    &&& report.bool_at("is_paid"@) == Some(true)
                    &&& report.bool_at("is_unlimited"@) == Some(true)
                    &&& report.get("remaining_tokens"@) == Some(JsonTree::Null)
                    &&& report.u64_at("used_tokens"@) == Some(0u64)
                    &&& report.u64_at("free_login_total_tokens"@) == Some(free_total)
                },
                AuthContext::Anonymous => {
                    &&& report.str_at("auth_mode"@) == Some("anonymous"@)
                    &&& report.bool_at("is_paid"@) == Some(false)
                    &&& report.bool_at("is_unlimited"@) == Some(allow_anonymous)
                    &&& report.get("remaining_tokens"@) == Some(JsonTree::Null)
                    &&& report.u64_at("used_tokens"@) == Some(0u64)
                    &&& report.u64_at("free_login_total_tokens"@) == Some(free_total)
                },
            }
        }),
{
    reveal_strlit("auth_mode");
    reveal_strlit("user_id");
    reveal_strlit("email");
    reveal_strlit("is_paid");
    reveal_strlit("is_unlimited");
    reveal_strlit("usage_mode_requested");
    reveal_strlit("current_source");
    reveal_strlit("free_login_total_tokens");
    reveal_strlit("free_tokens_used");
    reveal_strlit("free_tokens_remaining");
    reveal_strlit("free_last_24h_tokens");
    reveal_strlit("free_last_24h_requests");
    reveal_strlit("paid_tokens_purchased");
    reveal_strlit("paid_tokens_used");
    reveal_strlit("paid_tokens_remaining");
    reveal_strlit("paid_last_24h_tokens");
    reveal_strlit("paid_last_24h_requests");
    reveal_strlit("used_tokens");
    reveal_strlit("remaining_tokens");
    reveal_strlit("last_24h_tokens");
    reveal_strlit("last_24h_requests");
    reveal_strlit("message");
    assert("auth_mode"@.len() == 9 && "user_id"@.len() == 7 && "email"@.len() == 5);
    assert("is_paid"@.len() == 7 && "is_unlimited"@.len() == 12);
    assert("usage_mode_requested"@.len() == 20 && "current_source"@.len() == 14);
    assert("free_login_total_tokens"@.len() == 23 && "free_tokens_used"@.len() == 16);
    assert("free_tokens_remaining"@.len() == 21 && "free_last_24h_tokens"@.len() == 20);
    assert("free_last_24h_requests"@.len() == 22 && "paid_tokens_purchased"@.len() == 21);
    assert("paid_tokens_used"@.len() == 16 && "paid_tokens_remaining"@.len() == 21);
    assert("paid_last_24h_tokens"@.len() == 20 && "paid_last_24h_requests"@.len() == 22);
    assert("used_tokens"@.len() == 11 && "remaining_tokens"@.len() == 16);
    assert("last_24h_tokens"@.len() == 15 && "last_24h_requests"@.len() == 17);
    assert("message"@.len() == 7 && "user_id"@[0] == 'u' && "is_paid"@[0] == 'i');
    assert("message"@[0] == 'm' && "usage_mode_requested"@[0] == 'u');
    assert("free_last_24h_tokens"@[0] == 'f' && "paid_last_24h_tokens"@[0] == 'p');
    assert("free_tokens_used"@[0] == 'f' && "paid_tokens_used"@[0] == 'p');
    assert("remaining_tokens"@[0] == 'r' && "free_tokens_remaining"@[0] == 'f');
    assert("paid_tokens_purchased"@[0] == 'p' && "paid_tokens_remaining"@[0] == 'p');
    assert("free_last_24h_requests"@[0] == 'f' && "paid_last_24h_requests"@[0] == 'p');
    assert("paid_tokens_purchased"@[12] == 'p' && "paid_tokens_remaining"@[12] == 'r');
}

/// The user that a path asks about is the number that its query gives; 0, and a query without one,
/// asks about nobody.
#[verifier::rlimit(50)]
pub proof fn law_user_is_asked_about(path: Seq<char>, n: u64)
    requires
        !path.contains('?'),
    ensures
        n > 0 ==> asked_user(path + "?user_id="@ + decimal(n as nat)) == Some(n as nat),
        n == 0 ==> asked_user(path + "?user_id="@ + decimal(n as nat)) is None,
        asked_user(path) is None,
{
    reveal_strlit("?user_id=");
    reveal_strlit("user_id");
    let number = decimal(n as nat);
    lemma_digits_only(n as nat, 10);
    let p = ("user_id"@, number);
    let ps = seq![p];
    let form = parameter_form(p);
    assert(!p.0.contains('=')) by {
        if p.0.contains('=') {
            let i = choose|i: int| 0 <= i < p.0.len() && p.0[i] == '=';
            assert(i == 0 || i == 1 || i == 2 || i == 3 || i == 4 || i == 5 || i == 6);
        }
    }
    assert(!form.contains('&')) by {
        if form.contains('&') {
            let i = choose|i: int| 0 <= i < form.len() && form[i] == '&';
            if i > 7 {
                assert(form[i] == number[i - 8]);
            } else {
                assert(i == 0 || i == 1 || i == 2 || i == 3 || i == 4 || i == 5 || i == 6 || i == 7);
            }
        }
    }
    assert(number.contains('%') ==> false) by {
        if number.contains('%') {
            let i = choose|i: int| 0 <= i < number.len() && number[i] == '%';
        }
    }
    assert(number.contains('+') ==> false) by {
        if number.contains('+') {
            let i = choose|i: int| 0 <= i < number.len() && number[i] == '+';
        }
    }
    assert forall|j: int| 0 <= j < ps.len() implies !(#[trigger] ps[j]).0.contains('=')
        && !parameter_form(ps[j]).contains('&') by {
        assert(ps[j] == p);
    }
    law_first_parameter_counts(path, ps, "user_id"@, 0);
    let forms = ps.map_values(|q: (Seq<char>, Seq<char>)| parameter_form(q));
    assert(forms =~= seq![form]);
    assert(path + seq!['?'] + form =~= path + "?user_id="@ + number);
    law_plain_text_stays(number);
    law_number_reads_back(n as nat, 10, u64::MAX as nat);
}

} // verus!
