//! Which handler a request goes to.
use crate::failure::{error_body, error_reply, Reply};
use crate::text::{
    begins_with, char_index, chars_of, find_char_from, starts_with, str_eq, strip_prefix,
    text_between,
};
use vstd::prelude::*;
use vstd::string::*;

verus! {

/// What a request asks for.
#[derive(Debug)]
pub enum Route {
    Health,
    UserUsage,
    GrantTokens,
    SyncUser,
    Preflight,
    Models,
    Usage,
    Model(String),
    ChatCompletions,
    AnthropicMessages,
    NotFound,
}

/// A route with its text, as mathematics sees it.
pub enum RouteView {
    Health,
    UserUsage,
    GrantTokens,
    SyncUser,
    Preflight,
    Models,
    Usage,
    Model(Seq<char>),
    ChatCompletions,
    AnthropicMessages,
    NotFound,
}

impl View for Route {
    type V = RouteView;

    open spec fn view(&self) -> RouteView {
        match *self {
            Route::Health => RouteView::Health,
            Route::UserUsage => RouteView::UserUsage,
            Route::GrantTokens => RouteView::GrantTokens,
            Route::SyncUser => RouteView::SyncUser,
            Route::Preflight => RouteView::Preflight,
            Route::Models => RouteView::Models,
            Route::Usage => RouteView::Usage,
            Route::Model(id) => RouteView::Model(id@),
            Route::ChatCompletions => RouteView::ChatCompletions,
            Route::AnthropicMessages => RouteView::AnthropicMessages,
            Route::NotFound => RouteView::NotFound,
        }
    }
}

/// A path without its query.
pub open spec fn path_only(path: Seq<char>) -> Seq<char> {
    path.take(char_index(path, '?') as int)
}

/// A path without its query.
pub fn without_query(path: &str) -> (r: String)
    ensures
        r@ == path_only(path@),
{
    let chars = chars_of(path);
    proof {
        assert(chars@.skip(0) =~= chars@);
    }
    let end = find_char_from(&chars, '?', 0);
    proof {
        assert(chars@.subrange(0, end as int) =~= path@.take(end as int));
    }
    text_between(&chars, 0, end)
}

/// `s` without `prefix` at its beginning, however often it stands there.
pub open spec fn strip_repeated(s: Seq<char>, prefix: Seq<char>) -> Seq<char>
    decreases s.len(),
{
    if prefix.len() > 0 && starts_with(s, prefix) {
        strip_repeated(s.skip(prefix.len() as int), prefix)
    } else {
        s
    }
}

/// `s` without `prefix` at its beginning, however often it stands there.
fn strip_all(s: &str, prefix: &str) -> (r: String)
    requires
        prefix@.len() > 0,
    ensures
        r@ == strip_repeated(s@, prefix@),
{
    let mut rest = s.to_owned();
    loop
        invariant
            prefix@.len() > 0,
            strip_repeated(rest@, prefix@) == strip_repeated(s@, prefix@),
        decreases rest@.len(),
    {
        match strip_prefix(rest.as_str(), prefix) {
            Some(shorter) => {
                rest = shorter;
            },
            None => {
                return rest;
            },
        }
    }
}

/// What a request asks for, by its method and path.
pub open spec fn route_of(method: Seq<char>, path: Seq<char>) -> RouteView {
    let p = path_only(path);
    let get = method == "GET"@;
    let post = method == "POST"@;
    if method == "OPTIONS"@ {
        RouteView::Preflight
    } else if get && p == "/health"@ {
        RouteView::Health
    } else if get && p == "/internal/user-usage"@ {
        RouteView::UserUsage
    } else if post && p == "/internal/grant-tokens"@ {
        RouteView::GrantTokens
    } else if post && p == "/internal/sync-user"@ {
        RouteView::SyncUser
    } else if get && p == "/v1/models"@ {
        RouteView::Models
    } else if get && p == "/v1/usage"@ {
        RouteView::Usage
    } else if get && starts_with(p, "/v1/models/"@) {
        RouteView::Model(strip_repeated(p, "/v1/models/"@))
    } else if post && p == "/v1/chat/completions"@ {
        RouteView::ChatCompletions
    } else if post && p == "/api/anthropic/v1/messages"@ {
        RouteView::AnthropicMessages
    } else {
        RouteView::NotFound
    }
}

/// What a request asks for, by its method and path; the query of the path does not matter.
pub fn route(method: &str, path: &str) -> (r: Route)
    ensures
        r@ == route_of(method@, path@),
{
    let p = without_query(path);
    let get = str_eq(method, "GET");
    let post = str_eq(method, "POST");
    if str_eq(method, "OPTIONS") {
        Route::Preflight
    } else if get && str_eq(p.as_str(), "/health") {
        Route::Health
    } else if get && str_eq(p.as_str(), "/internal/user-usage") {
        Route::UserUsage
    } else if post && str_eq(p.as_str(), "/internal/grant-tokens") {
        Route::GrantTokens
    } else if post && str_eq(p.as_str(), "/internal/sync-user") {
        Route::SyncUser
    } else if get && str_eq(p.as_str(), "/v1/models") {
        Route::Models
    } else if get && str_eq(p.as_str(), "/v1/usage") {
        Route::Usage
    } else if get && begins_with(p.as_str(), "/v1/models/") {
        proof {
            reveal_strlit("/v1/models/");
        }
        Route::Model(strip_all(p.as_str(), "/v1/models/"))
    } else if post && str_eq(p.as_str(), "/v1/chat/completions") {
        Route::ChatCompletions
    } else if post && str_eq(p.as_str(), "/api/anthropic/v1/messages") {
        Route::AnthropicMessages
    } else {
        Route::NotFound
    }
}

/// Whether a route is served only to clients that were let in. The internal routes have a key of
/// their own.
pub open spec fn wants_client(route: RouteView) -> bool {
    match route {
        RouteView::Health | RouteView::UserUsage | RouteView::GrantTokens | RouteView::SyncUser
        | RouteView::Preflight => false,
        _ => true,
    }
}

/// Whether a route is served only to clients that were let in.
pub fn needs_client(route: &Route) -> (r: bool)
    ensures
        r == wants_client(route@),
{
    match route {
        Route::Health | Route::UserUsage | Route::GrantTokens | Route::SyncUser
        | Route::Preflight => false,
        _ => true,
    }
}

/// The answer that the service is there.
pub fn health_reply() -> (r: Reply)
    ensures
        r@ == (
            200u16,
            "{\"ok\":true,\"provider\":\"zai-coding-plan-openai-proxy\"}"@,
        ),
{
    Reply {
        status: 200,
        body: "{\"ok\":true,\"provider\":\"zai-coding-plan-openai-proxy\"}".to_owned(),
    }
}

/// The answer to a request that goes nowhere.
pub fn not_found_reply() -> (r: Reply)
    ensures
        r@ == (404u16, error_body("not_found"@, "route not found"@)),
{
    error_reply(404, "not_found", "route not found")
}

/// The answer to a client that is not let in.
pub fn unauthorized_reply(reason: &str) -> (r: Reply)
    ensures
        r@ == (401u16, error_body("unauthorized"@, reason@)),
{
    error_reply(401, "unauthorized", reason)
}

/// The answer to a request that could not be read.
pub fn unreadable_reply(reason: &str) -> (r: Reply)
    ensures
        r@ == (400u16, error_body("invalid_request"@, reason@)),
{
    error_reply(400, "invalid_request", reason)
}

/// The query of a path has no say in where a request goes.
pub proof fn law_query_does_not_matter(method: Seq<char>, path: Seq<char>, query: Seq<char>)
    requires
        !path.contains('?'),
    ensures
        route_of(method, path + "?"@ + query) == route_of(method, path),
{
    reveal_strlit("?");
    let long = path + "?"@ + query;
    crate::text::lemma_char_index(path, '?');
    crate::text::lemma_char_index(long, '?');
    let k = char_index(long, '?');
    assert(long[path.len() as int] == '?');
    if k < path.len() {
        assert(long[k as int] == path[k as int]);
        assert(path.contains(path[k as int]));
    }
    if char_index(path, '?') < path.len() {
        assert(path.contains(path[char_index(path, '?') as int]));
    }
    assert(path_only(long) =~= path);
    assert(path_only(path) =~= path);
}

/// A request without a method that is known goes nowhere, whatever its path.
pub proof fn law_other_methods_go_nowhere(method: Seq<char>, path: Seq<char>)
    requires
        method != "GET"@,
        method != "POST"@,
        method != "OPTIONS"@,
    ensures
        route_of(method, path) == RouteView::NotFound,
{
}

/// Whoever asks for the models, a model or the use of tokens is a client that was let in: only the
/// sign of life, the answer to browsers and the routes with a key of their own are open.
pub proof fn law_models_are_not_open(method: Seq<char>, path: Seq<char>)
    requires
        !wants_client(route_of(method, path)),
    ensures
        method == "OPTIONS"@ || path_only(path) == "/health"@ || path_only(path)
            == "/internal/user-usage"@ || path_only(path) == "/internal/grant-tokens"@ || path_only(
            path,
        ) == "/internal/sync-user"@,
{
}

/// Each route has its method and its path, and is reached by nothing else, whatever the query of the
/// path is.
#[verifier::rlimit(50)]
pub proof fn law_routes_have_their_paths(method: Seq<char>, path: Seq<char>, query: Seq<char>)
    requires
        !path.contains('?'),
    ensures
        ({
            let target = route_of(method, path);
            let asked = route_of(method, path + "?"@ + query);
            &&& asked == target
            &&& target == RouteView::Preflight <==> method == "OPTIONS"@
            &&& target == RouteView::Health <==> method == "GET"@ && path
                == "/health"@
            &&& target == RouteView::UserUsage <==> method == "GET"@ && path
                == "/internal/user-usage"@
            &&& target == RouteView::GrantTokens <==> method == "POST"@ && path
                == "/internal/grant-tokens"@
            &&& target == RouteView::SyncUser <==> method == "POST"@ && path
                == "/internal/sync-user"@
            &&& target == RouteView::Models <==> method == "GET"@ && path
                == "/v1/models"@
            &&& target == RouteView::Usage <==> method == "GET"@ && path
                == "/v1/usage"@
            &&& target == RouteView::ChatCompletions <==> method == "POST"@ && path
                == "/v1/chat/completions"@
            &&& target == RouteView::AnthropicMessages <==> method == "POST"@ && path
                == "/api/anthropic/v1/messages"@
            &&& target is Model <==> method == "GET"@ && starts_with(path, "/v1/models/"@)
        }),
{
    reveal_strlit("GET");
    reveal_strlit("POST");
    reveal_strlit("OPTIONS");
    assert("GET"@.len() == 3 && "POST"@.len() == 4 && "OPTIONS"@.len() == 7);
    reveal_strlit("/health");
    reveal_strlit("/internal/user-usage");
    reveal_strlit("/internal/grant-tokens");
    reveal_strlit("/internal/sync-user");
    reveal_strlit("/v1/models");
    reveal_strlit("/v1/usage");
    reveal_strlit("/v1/chat/completions");
    reveal_strlit("/api/anthropic/v1/messages");
    reveal_strlit("/v1/models/");
    assert("/health"@.len() == 7 && "/internal/user-usage"@.len() == 20);
    assert("/internal/grant-tokens"@.len() == 22 && "/internal/sync-user"@.len() == 19);
    assert("/v1/models"@.len() == 10 && "/v1/usage"@.len() == 9);
    assert("/v1/chat/completions"@.len() == 20 && "/api/anthropic/v1/messages"@.len() == 26);
    assert("/v1/models/"@.len() == 11 && "/internal/user-usage"@[1] == 'i');
    assert("/v1/chat/completions"@[1] == 'v');
    law_query_does_not_matter(method, path, query);
    crate::text::lemma_char_index(path, '?');
    if char_index(path, '?') < path.len() {
        assert(path.contains(path[char_index(path, '?') as int]));
    }
    assert(path_only(path) =~= path);
    if starts_with(path, "/v1/models/"@) {
        assert(path.subrange(0, 11)[10] == '/');
        assert(path.subrange(0, 11)[9] == 's');
        assert(path.subrange(0, 11)[4] == 'm');
        assert(path[10] == '/' && path[9] == 's' && path[4] == 'm');
    }
}

/// The question for one model is about the model whose name follows in the path.
#[verifier::rlimit(50)]
pub proof fn law_model_is_named_in_the_path(id: Seq<char>)
    requires
        !id.contains('?'),
        !starts_with(id, "/v1/models/"@),
    ensures
        route_of("GET"@, "/v1/models/"@ + id) == RouteView::Model(id),
{
    reveal_strlit("GET");
    reveal_strlit("POST");
    reveal_strlit("OPTIONS");
    assert("GET"@.len() == 3 && "POST"@.len() == 4 && "OPTIONS"@.len() == 7);
    reveal_strlit("/v1/models/");
    assert("/v1/models/"@.len() == 11);
    let path = "/v1/models/"@ + id;
    assert(!path.contains('?')) by {
        if path.contains('?') {
            let i = choose|i: int| 0 <= i < path.len() && path[i] == '?';
            if i < 11 {
                assert(i == 0 || i == 1 || i == 2 || i == 3 || i == 4 || i == 5 || i == 6 || i == 7
                    || i == 8 || i == 9 || i == 10);
            } else {
                assert(id[i - 11] == '?');
            }
        }
    }
    law_routes_have_their_paths("GET"@, path, Seq::empty());
    crate::text::lemma_char_index(path, '?');
    if char_index(path, '?') < path.len() {
        assert(path.contains(path[char_index(path, '?') as int]));
    }
    assert(path_only(path) =~= path);
    assert(path.subrange(0, 11) =~= "/v1/models/"@);
    assert(path.skip(11) =~= id);
    reveal_with_fuel(strip_repeated, 3);
}

/// The models, a model, the use of tokens and both ways to the models are for clients that were let
/// in; so is what goes nowhere. The sign of life, the answer to browsers and the internal routes are
/// not.
pub proof fn law_routes_for_clients(id: Seq<char>)
    ensures
        wants_client(RouteView::Models),
        wants_client(RouteView::Model(id)),
        wants_client(RouteView::Usage),
        wants_client(RouteView::ChatCompletions),
        wants_client(RouteView::AnthropicMessages),
        wants_client(RouteView::NotFound),
        !wants_client(RouteView::Health),
        !wants_client(RouteView::Preflight),
        !wants_client(RouteView::UserUsage),
        !wants_client(RouteView::GrantTokens),
        !wants_client(RouteView::SyncUser),
{
}

} // verus!
