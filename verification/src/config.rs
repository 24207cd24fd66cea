//! The settings, and how they are read from environment variables.
use crate::failure::{fail, Failure, FailureKind};
use crate::json::str_view;
use crate::models::{alias_names, allowed_models, plan_aliases, ModelAlias};
use crate::number::{decimal, law_number_reads_back, parse_number, parse_unsigned};
use crate::pairs::{lookup, pair_map, value_of};
use crate::text::{
    is_blank, lemma_trimmed_stays, lower, lowered, or_text, str_eq, text_view, trim, trimmed,
};
use vstd::prelude::*;
use vstd::string::*;

verus! {

/// Where requests go by default.
pub const GLOBAL_BASE_URL: &'static str = "https://api.z.ai/api/coding/paas/v4";

/// Where requests go in China.
pub const CN_BASE_URL: &'static str = "https://open.bigmodel.cn/api/coding/paas/v4";

/// The tokens that a user gets for nothing.
pub const DEFAULT_FREE_LOGIN_TOTAL_TOKENS: u64 = 200_000;

/// Where the use of free tokens is recorded.
pub const DEFAULT_USAGE_STORE_PATH: &'static str = "./data/free-usage.jsonl";

/// Where the use of bought tokens is recorded.
pub const DEFAULT_PAID_USAGE_STORE_PATH: &'static str = "./data/paid-usage.jsonl";

/// Where it is kept how many tokens each user has bought.
pub const DEFAULT_PAID_BALANCE_STORE_PATH: &'static str = "./data/paid-balances.json";

/// Where each purchase is recorded.
pub const DEFAULT_PAID_GRANT_STORE_PATH: &'static str = "./data/paid-grants.jsonl";

/// Where the addresses of users are kept.
pub const DEFAULT_USER_EMAILS_STORE_PATH: &'static str = "./data/user-emails.json";

/// The settings.
#[derive(Debug)]
pub struct AppConfig {
    pub host: String,
    pub port: u16,
    pub proxy_api_key: Option<String>,
    pub zai_api_key: String,
    pub upstream_base_url: String,
    pub allowed_models: Vec<ModelAlias>,
    pub allow_anonymous: bool,
    pub free_login_total_tokens: u64,
    pub usage_store_path: String,
    pub paid_usage_store_path: String,
    pub paid_balance_store_path: String,
    pub paid_grant_store_path: String,
    pub user_emails_store_path: String,
    pub internal_api_key: Option<String>,
}

/// The value of a variable without the white space round it, where it has more than that.
pub open spec fn trimmed_value(value: Option<Seq<char>>) -> Option<Seq<char>> {
    match value {
        Some(v) => if trim(v).len() == 0 {
            None
        } else {
            Some(trim(v))
        },
        None => None,
    }
}

/// The value of a variable without the white space round it, where it has more than that.
fn trimmed_var(value: Option<&str>) -> (r: Option<String>)
    ensures
        text_view(r) == trimmed_value(str_view(value)),
{
    match value {
        Some(v) => {
            let t = trimmed(v);
            if t.as_str().is_empty() {
                None
            } else {
                Some(t)
            }
        },
        None => None,
    }
}

/// The value of a variable for a path, or the default where it is blank or not set.
pub open spec fn path_value(value: Option<Seq<char>>, default: Seq<char>) -> Seq<char> {
    match value {
        Some(v) => if trim(v).len() == 0 {
            default
        } else {
            v
        },
        None => default,
    }
}

/// The value of a variable for a path, or the default where it is blank or not set.
fn path_var(value: Option<&str>, default: &str) -> (r: String)
    ensures
        r@ == path_value(str_view(value), default@),
{
    match value {
        Some(v) => if is_blank(v) {
            default.to_owned()
        } else {
            v.to_owned()
        },
        None => default.to_owned(),
    }
}

/// Whether a variable says yes, or the default where it is not set.
pub open spec fn bool_value(value: Option<Seq<char>>, default: bool) -> bool {
    match value {
        Some(v) => {
            let t = lower(trim(v));
            t == "1"@ || t == "true"@ || t == "yes"@ || t == "on"@
        },
        None => default,
    }
}

/// Whether a variable says yes, or the default where it is not set.
pub fn env_bool(value: Option<&str>, default: bool) -> (r: bool)
    ensures
        r == bool_value(str_view(value), default),
{
    match value {
        Some(v) => {
            let t = lowered(trimmed(v).as_str());
            str_eq(t.as_str(), "1") || str_eq(t.as_str(), "true") || str_eq(t.as_str(), "yes")
                || str_eq(t.as_str(), "on")
        },
        None => default,
    }
}

/// The port that a variable gives, or the usual one where it gives none.
pub open spec fn port_value(value: Option<Seq<char>>) -> nat {
    match value {
        Some(v) => match parse_unsigned(v, 10, 65535) {
            Some(n) => n,
            None => 8787,
        },
        None => 8787,
    }
}

/// The number of free tokens that a variable gives, or the usual one where it gives none.
pub open spec fn tokens_value(value: Option<Seq<char>>) -> nat {
    match value {
        Some(v) => match parse_unsigned(trim(v), 10, u64::MAX as nat) {
            Some(n) => n,
            None => DEFAULT_FREE_LOGIN_TOTAL_TOKENS as nat,
        },
        None => DEFAULT_FREE_LOGIN_TOTAL_TOKENS as nat,
    }
}

/// Where requests go, for the value of a variable; none where the value names no place.
pub open spec fn base_url(value: Option<Seq<char>>) -> Option<Seq<char>> {
    let place = lower(trim(or_text(value, "global"@)));
    if place == "global"@ {
        Some(GLOBAL_BASE_URL@)
    } else if place == "cn"@ {
        Some(CN_BASE_URL@)
    } else {
        None
    }
}

/// Why there are no settings, for the values of the variables.
pub open spec fn config_error(vars: Map<Seq<char>, Seq<char>>) -> Option<
    (FailureKind, Seq<char>),
> {
    if trimmed_value(value_of(vars, "ZAI_API_KEY"@)) is None {
        Some((FailureKind::InvalidInput, "ZAI_API_KEY is required"@))
    } else {
        let endpoint = value_of(vars, "ZAI_CODING_PLAN_ENDPOINT"@);
        match base_url(endpoint) {
            Some(_) => None,
            None => Some(
                (
                    FailureKind::InvalidInput,
                    "unsupported ZAI_CODING_PLAN_ENDPOINT: "@ + lower(
                        trim(or_text(endpoint, "global"@)),
                    ),
                ),
            ),
        }
    }
}

/// Whether settings are those that the values of the variables give.
pub open spec fn is_config(c: AppConfig, vars: Map<Seq<char>, Seq<char>>) -> bool {
    &&& c.host@ == or_text(value_of(vars, "HOST"@), "0.0.0.0"@)
    &&& c.port as nat == port_value(value_of(vars, "PORT"@))
    &&& text_view(c.proxy_api_key) == trimmed_value(value_of(vars, "PROXY_API_KEY"@))
    &&& Some(c.zai_api_key@) == trimmed_value(value_of(vars, "ZAI_API_KEY"@))
    &&& Some(c.upstream_base_url@) == base_url(value_of(vars, "ZAI_CODING_PLAN_ENDPOINT"@))
    &&& alias_names(c.allowed_models@) == plan_aliases()
    &&& c.allow_anonymous == bool_value(value_of(vars, "ALLOW_ANONYMOUS"@), false)
    &&& c.free_login_total_tokens as nat == tokens_value(
        value_of(vars, "FREE_LOGIN_TOTAL_TOKENS"@),
    )
    &&& c.usage_store_path@ == path_value(
        value_of(vars, "FREE_USAGE_STORE_PATH"@),
        DEFAULT_USAGE_STORE_PATH@,
    )
    &&& c.paid_usage_store_path@ == path_value(
        value_of(vars, "PAID_USAGE_STORE_PATH"@),
        DEFAULT_PAID_USAGE_STORE_PATH@,
    )
    &&& c.paid_balance_store_path@ == path_value(
        value_of(vars, "PAID_BALANCE_STORE_PATH"@),
        DEFAULT_PAID_BALANCE_STORE_PATH@,
    )
    &&& c.paid_grant_store_path@ == path_value(
        value_of(vars, "PAID_GRANT_STORE_PATH"@),
        DEFAULT_PAID_GRANT_STORE_PATH@,
    )
    &&& c.user_emails_store_path@ == path_value(
        value_of(vars, "USER_EMAILS_STORE_PATH"@),
        DEFAULT_USER_EMAILS_STORE_PATH@,
    )
    &&& text_view(c.internal_api_key) == trimmed_value(value_of(vars, "INTERNAL_API_KEY"@))
}

/// The port that a variable gives, or the usual one where it gives none.
fn port_var(value: Option<&str>) -> (r: u16)
    ensures
        r as nat == port_value(str_view(value)),
{
    match value {
        Some(v) => match parse_number(v, 10, 65535) {
            Some(n) => n as u16,
            None => 8787,
        },
        None => 8787,
    }
}

/// The number of free tokens that a variable gives, or the usual one where it gives none.
fn tokens_var(value: Option<&str>) -> (r: u64)
    ensures
        r as nat == tokens_value(str_view(value)),
{
    match value {
        Some(v) => match parse_number(trimmed(v).as_str(), 10, u64::MAX) {
            Some(n) => n,
            None => DEFAULT_FREE_LOGIN_TOTAL_TOKENS,
        },
        None => DEFAULT_FREE_LOGIN_TOTAL_TOKENS,
    }
}

/// The settings for the values of the variables: pairs of a name and a value.
pub fn load_config(vars: &Vec<(String, String)>) -> (r: Result<AppConfig, Failure>)
    ensures
        match r {
            Ok(c) => config_error(pair_map(vars@)) is None && is_config(c, pair_map(vars@)),
            Err(e) => config_error(pair_map(vars@)) == Some(e@),
        },
{
    let host = match lookup(vars, "HOST") {
        Some(v) => v.to_owned(),
        None => "0.0.0.0".to_owned(),
    };
    let port = port_var(lookup(vars, "PORT"));
    let proxy_api_key = trimmed_var(lookup(vars, "PROXY_API_KEY"));
    let zai_api_key = match trimmed_var(lookup(vars, "ZAI_API_KEY")) {
        Some(v) => v,
        None => return Err(fail(FailureKind::InvalidInput, "ZAI_API_KEY is required")),
    };
    let endpoint = match lookup(vars, "ZAI_CODING_PLAN_ENDPOINT") {
        Some(v) => lowered(trimmed(v).as_str()),
        None => lowered(trimmed("global").as_str()),
    };
    let upstream_base_url = if str_eq(endpoint.as_str(), "global") {
        GLOBAL_BASE_URL.to_owned()
    } else if str_eq(endpoint.as_str(), "cn") {
        CN_BASE_URL.to_owned()
    } else {
        let mut message = "unsupported ZAI_CODING_PLAN_ENDPOINT: ".to_owned();
        message.append(endpoint.as_str());
        return Err(Failure { kind: FailureKind::InvalidInput, message });
    };
    Ok(
        AppConfig {
            host,
            port,
            proxy_api_key,
            zai_api_key,
            upstream_base_url,
            allowed_models: allowed_models(),
            allow_anonymous: env_bool(lookup(vars, "ALLOW_ANONYMOUS"), false),
            free_login_total_tokens: tokens_var(lookup(vars, "FREE_LOGIN_TOTAL_TOKENS")),
            usage_store_path: path_var(
                lookup(vars, "FREE_USAGE_STORE_PATH"),
                DEFAULT_USAGE_STORE_PATH,
            ),
            paid_usage_store_path: path_var(
                lookup(vars, "PAID_USAGE_STORE_PATH"),
                DEFAULT_PAID_USAGE_STORE_PATH,
            ),
            paid_balance_store_path: path_var(
                lookup(vars, "PAID_BALANCE_STORE_PATH"),
                DEFAULT_PAID_BALANCE_STORE_PATH,
            ),
            paid_grant_store_path: path_var(
                lookup(vars, "PAID_GRANT_STORE_PATH"),
                DEFAULT_PAID_GRANT_STORE_PATH,
            ),
            user_emails_store_path: path_var(
                lookup(vars, "USER_EMAILS_STORE_PATH"),
                DEFAULT_USER_EMAILS_STORE_PATH,
            ),
            internal_api_key: trimmed_var(lookup(vars, "INTERNAL_API_KEY")),
        },
    )
}

/// The address and the port that are set are those that are used; the usual ones are used where none
/// are set.
pub proof fn law_address_is_the_one_that_is_set(
    c: AppConfig,
    vars: Map<Seq<char>, Seq<char>>,
    n: u16,
)
    requires
        is_config(c, vars),
    ensures
        vars.contains_key("HOST"@) ==> c.host@ == vars["HOST"@],
        !vars.contains_key("HOST"@) ==> c.host@ == "0.0.0.0"@,
        vars.contains_key("PORT"@) && vars["PORT"@] == decimal(n as nat) ==> c.port == n,
        !vars.contains_key("PORT"@) ==> c.port == 8787,
        vars.contains_key("PORT"@) && parse_unsigned(vars["PORT"@], 10, 65535) is None ==> c.port
            == 8787,
{
    law_number_reads_back(n as nat, 10, 65535);
}

/// The keys that are set are those that count, without the white space round them; a key that is
/// blank counts as none.
pub proof fn law_keys_are_those_that_are_set(c: AppConfig, vars: Map<Seq<char>, Seq<char>>)
    requires
        is_config(c, vars),
    ensures
        vars.contains_key("ZAI_API_KEY"@) && c.zai_api_key@ == trim(vars["ZAI_API_KEY"@])
            && c.zai_api_key@.len() > 0,
        c.proxy_api_key is Some <==> vars.contains_key("PROXY_API_KEY"@) && trim(
            vars["PROXY_API_KEY"@],
        ).len() > 0,
        c.proxy_api_key matches Some(k) ==> k@ == trim(vars["PROXY_API_KEY"@]),
        c.internal_api_key is Some <==> vars.contains_key("INTERNAL_API_KEY"@) && trim(
            vars["INTERNAL_API_KEY"@],
        ).len() > 0,
        c.internal_api_key matches Some(k) ==> k@ == trim(vars["INTERNAL_API_KEY"@]),
{
}

/// Nobody is let in without a key unless the settings say so; the number of free tokens is the one
/// that is set, or the usual one.
pub proof fn law_access_is_the_one_that_is_set(
    c: AppConfig,
    vars: Map<Seq<char>, Seq<char>>,
    n: u64,
)
    requires
        is_config(c, vars),
    ensures
        !vars.contains_key("ALLOW_ANONYMOUS"@) ==> !c.allow_anonymous,
        vars.contains_key("ALLOW_ANONYMOUS"@) ==> {
            let word = lower(trim(vars["ALLOW_ANONYMOUS"@]));
            c.allow_anonymous <==> word == "1"@ || word == "true"@ || word == "yes"@ || word
                == "on"@
        },
        vars.contains_key("FREE_LOGIN_TOTAL_TOKENS"@) && trim(vars["FREE_LOGIN_TOTAL_TOKENS"@])
            == decimal(n as nat) ==> c.free_login_total_tokens == n,
        !vars.contains_key("FREE_LOGIN_TOTAL_TOKENS"@) ==> c.free_login_total_tokens == 200_000,
        vars.contains_key("FREE_LOGIN_TOTAL_TOKENS"@) && parse_unsigned(
            trim(vars["FREE_LOGIN_TOTAL_TOKENS"@]),
            10,
            u64::MAX as nat,
        ) is None ==> c.free_login_total_tokens == 200_000,
{
    law_number_reads_back(n as nat, 10, u64::MAX as nat);
}

/// Requests go where the settings say: to the global address by default and for the word `global`,
/// to the one in China for the word `cn`, in capitals or not and with white space round them or not.
/// Any other word is refused, and so are settings without a key for the models.
pub proof fn law_endpoint_is_the_one_that_is_set(c: AppConfig, vars: Map<Seq<char>, Seq<char>>)
    ensures
        ({
            let name = "ZAI_CODING_PLAN_ENDPOINT"@;
            let word = lower(trim(vars[name]));
            let has_key = vars.contains_key("ZAI_API_KEY"@) && trim(vars["ZAI_API_KEY"@]).len() > 0;
            &&& config_error(vars) is None <==> has_key && (!vars.contains_key(name) || word
                == "global"@ || word == "cn"@)
            &&& is_config(c, vars) && !vars.contains_key(name) ==> c.upstream_base_url@
                == "https://api.z.ai/api/coding/paas/v4"@
            &&& is_config(c, vars) && vars.contains_key(name) && word == "global"@
                ==> c.upstream_base_url@ == "https://api.z.ai/api/coding/paas/v4"@
            &&& is_config(c, vars) && vars.contains_key(name) && word == "cn"@
                ==> c.upstream_base_url@ == "https://open.bigmodel.cn/api/coding/paas/v4"@
        }),
{
    reveal_strlit("global");
    reveal_strlit("cn");
    let g = "global"@;
    assert(g.len() == 6 && "cn"@.len() == 2);
    lemma_trimmed_stays(g);
    assert(lower(g) =~= g);
}

/// Each store is kept in the file that is set for it, or, where that is blank or not set, in a file
/// of its own.
pub proof fn law_stores_are_kept_where_it_is_set(c: AppConfig, vars: Map<Seq<char>, Seq<char>>)
    requires
        is_config(c, vars),
    ensures
        vars.contains_key("FREE_USAGE_STORE_PATH"@) && trim(vars["FREE_USAGE_STORE_PATH"@]).len() > 0
            ==> c.usage_store_path@ == vars["FREE_USAGE_STORE_PATH"@],
        !vars.contains_key("FREE_USAGE_STORE_PATH"@) || trim(vars["FREE_USAGE_STORE_PATH"@]).len() == 0
            ==> c.usage_store_path@ == "./data/free-usage.jsonl"@,
        vars.contains_key("PAID_USAGE_STORE_PATH"@) && trim(vars["PAID_USAGE_STORE_PATH"@]).len() > 0
            ==> c.paid_usage_store_path@ == vars["PAID_USAGE_STORE_PATH"@],
        !vars.contains_key("PAID_USAGE_STORE_PATH"@) || trim(vars["PAID_USAGE_STORE_PATH"@]).len() == 0
            ==> c.paid_usage_store_path@ == "./data/paid-usage.jsonl"@,
        vars.contains_key("PAID_BALANCE_STORE_PATH"@) && trim(vars["PAID_BALANCE_STORE_PATH"@]).len() > 0
            ==> c.paid_balance_store_path@ == vars["PAID_BALANCE_STORE_PATH"@],
        !vars.contains_key("PAID_BALANCE_STORE_PATH"@) || trim(vars["PAID_BALANCE_STORE_PATH"@]).len() == 0
            ==> c.paid_balance_store_path@ == "./data/paid-balances.json"@,
        vars.contains_key("PAID_GRANT_STORE_PATH"@) && trim(vars["PAID_GRANT_STORE_PATH"@]).len() > 0
            ==> c.paid_grant_store_path@ == vars["PAID_GRANT_STORE_PATH"@],
        !vars.contains_key("PAID_GRANT_STORE_PATH"@) || trim(vars["PAID_GRANT_STORE_PATH"@]).len() == 0
            ==> c.paid_grant_store_path@ == "./data/paid-grants.jsonl"@,
        vars.contains_key("USER_EMAILS_STORE_PATH"@) && trim(vars["USER_EMAILS_STORE_PATH"@]).len() > 0
            ==> c.user_emails_store_path@ == vars["USER_EMAILS_STORE_PATH"@],
        !vars.contains_key("USER_EMAILS_STORE_PATH"@) || trim(vars["USER_EMAILS_STORE_PATH"@]).len() == 0
            ==> c.user_emails_store_path@ == "./data/user-emails.json"@,
{
}

} // verus!
