//! The stores of what users have bought and of their addresses: JSON objects with a field for each
//! user.
use crate::codec::{json_parse, json_pretty, nests_within, parsed, reads_back};
use crate::failure::{Failure, FailureKind};
use crate::json::{no_fields, str_view, Fields, Json, JsonTree, NumberTree};
use crate::number::{decimal, decimal_string, law_digits_read_back};
use crate::text::{trim, trimmed};
use crate::usage::saturating;
use vstd::prelude::*;
use vstd::string::*;
use vstd::utf8::{decode_utf8, valid_utf8};

verus! {

/// The tokens that a store says a user has bought.
pub open spec fn bought(store: JsonTree, user: u64) -> u64 {
    match store.u64_at(decimal(user as nat)) {
        Some(n) => n,
        None => 0,
    }
}

/// The tokens that the text of a store says a user has bought; none where there is no store. A
/// text that is no JSON is a failure.
pub open spec fn bought_in_text(content: Option<Seq<char>>, user: u64) -> Result<
    u64,
    (FailureKind, Seq<char>),
> {
    match content {
        None => Ok(0),
        Some(text) => match json_parse(text) {
            Ok(store) => Ok(bought(store, user)),
            Err(e) => Err((FailureKind::Other, "parse paid balance store failed: "@ + e)),
        },
    }
}

/// The tokens that a store says a user has bought.
pub fn purchased_tokens(store: &Json, user_id: u64) -> (r: u64)
    ensures
        r == bought(store.tree(), user_id),
{
    match store.u64_at(decimal_string(user_id).as_str()) {
        Some(n) => n,
        None => 0,
    }
}

/// A failure of no special kind whose message is two texts, one after the other.
fn other_failure(first: &str, second: &str) -> (r: Failure)
    ensures
        r@ == (FailureKind::Other, first@ + second@),
{
    let mut message = first.to_owned();
    message.append(second);
    Failure { kind: FailureKind::Other, message }
}

/// The tokens that the text of a store says a user has bought; none where there is no store.
pub fn load_user_purchased_tokens(content: Option<&str>, user_id: u64) -> (r: Result<u64, Failure>)
    ensures
        match r {
            Ok(n) => bought_in_text(str_view(content), user_id) == Ok::<
                u64,
                (FailureKind, Seq<char>),
            >(n),
            Err(e) => bought_in_text(str_view(content), user_id) == Err::<
                u64,
                (FailureKind, Seq<char>),
            >(e@),
        },
{
    match content {
        None => Ok(0),
        Some(text) => match Json::parse(text) {
            Ok(store) => Ok(purchased_tokens(&store, user_id)),
            Err(e) => Err(other_failure("parse paid balance store failed: ", e.as_str())),
        },
    }
}

/// The value that a store's text stands for: the empty object where there is no store, or where
/// its text is no JSON.
pub open spec fn store_tree(content: Option<Seq<char>>) -> JsonTree {
    match content {
        None => JsonTree::Object(no_fields()),
        Some(text) => match json_parse(text) {
            Ok(store) => store,
            Err(_) => JsonTree::Object(no_fields()),
        },
    }
}

/// The value that a store's text stands for.
pub fn open_store(content: Option<&str>) -> (r: Json)
    ensures
        r.tree() == store_tree(str_view(content)),
{
    match content {
        None => Fields::new().done(),
        Some(text) => match Json::parse(text) {
            Ok(store) => store,
            Err(_) => Fields::new().done(),
        },
    }
}

/// Whether a value can be given a field: an object can, and the null value becomes one.
pub open spec fn takes_fields(t: JsonTree) -> bool {
    t is Object || t is Null
}

/// A value with one of its fields set.
pub open spec fn with_field(t: JsonTree, key: Seq<char>, value: JsonTree) -> JsonTree {
    match t {
        JsonTree::Object(m) => JsonTree::Object(m.insert(key, value)),
        _ => JsonTree::Object(no_fields().insert(key, value)),
    }
}

/// Whether a value can be given a field.
pub fn can_take_fields(store: &Json) -> (r: bool)
    ensures
        r == takes_fields(store.tree()),
{
    match store {
        Json::Object(_) | Json::Null => true,
        _ => false,
    }
}

/// A value with one of its fields set.
fn set_field(store: Json, key: &str, value: Json) -> (r: Json)
    requires
        takes_fields(store.tree()),
    ensures
        r.tree() == with_field(store.tree(), key@, value.tree()),
{
    let mut fields = match store {
        Json::Object(entries) => Fields { entries },
        _ => Fields::new(),
    };
    fields.put(key, value);
    fields.done()
}

/// What a user has bought after buying more, or the largest number where it is more.
pub open spec fn balance_after(store: JsonTree, user: u64, tokens: u64) -> u64 {
    saturating((bought(store, user) + tokens) as nat)
}

/// A store after a user has bought more.
pub open spec fn store_with_tokens(store: JsonTree, user: u64, tokens: u64) -> JsonTree {
    with_field(
        store,
        decimal(user as nat),
        JsonTree::Number(NumberTree::Unsigned(balance_after(store, user, tokens))),
    )
}

/// Adds to what a user has bought: the new sum, and the store with it.
pub fn add_paid_tokens(store: Json, user_id: u64, granted_tokens: u64) -> (r: (u64, Json))
    requires
        takes_fields(store.tree()),
    ensures
        r.0 == balance_after(store.tree(), user_id, granted_tokens),
        r.1.tree() == store_with_tokens(store.tree(), user_id, granted_tokens),
{
    let next = purchased_tokens(&store, user_id).saturating_add(granted_tokens);
    (next, set_field(store, decimal_string(user_id).as_str(), Json::unsigned(next)))
}

/// Adds to what the text of a store says a user has bought: the new sum, and the new text. None
/// where the text is JSON that has no fields to set.
pub fn add_tokens_to_text(content: Option<&str>, user_id: u64, granted_tokens: u64) -> (r: Option<
    (u64, Vec<u8>),
>)
    ensures
        ({
            let store = store_tree(str_view(content));
            match r {
                Some((next, text)) => {
                    let changed = store_with_tokens(store, user_id, granted_tokens);
                    &&& takes_fields(store)
                    &&& next == balance_after(store, user_id, granted_tokens)
                    &&& text@ == json_pretty(changed)
                    &&& valid_utf8(text@)
                    &&& reads_back(changed) ==> json_parse(decode_utf8(text@)) == parsed(changed)
                },
                None => !takes_fields(store),
            }
        }),
{
    let store = open_store(content);
    if !can_take_fields(&store) {
        return None;
    }
    let (next, changed) = add_paid_tokens(store, user_id, granted_tokens);
    Some((next, changed.to_pretty()))
}

/// A store after the address of a user has been set.
pub open spec fn store_with_email(store: JsonTree, user: u64, email: Seq<char>) -> JsonTree {
    with_field(store, decimal(user as nat), JsonTree::Str(trim(email)))
}

/// Sets the address of a user.
pub fn sync_user_email(store: Json, user_id: u64, email: &str) -> (r: Json)
    requires
        takes_fields(store.tree()),
    ensures
        r.tree() == store_with_email(store.tree(), user_id, email@),
{
    set_field(store, decimal_string(user_id).as_str(), Json::Str(trimmed(email)))
}

/// Sets the address of a user in the text of a store: the new text. None where the text is JSON
/// that has no fields to set.
pub fn set_email_in_text(content: Option<&str>, user_id: u64, email: &str) -> (r: Option<Vec<u8>>)
    ensures
        ({
            let store = store_tree(str_view(content));
            match r {
                Some(text) => {
                    let changed = store_with_email(store, user_id, email@);
                    &&& takes_fields(store)
                    &&& text@ == json_pretty(changed)
                    &&& valid_utf8(text@)
                    &&& reads_back(changed) ==> json_parse(decode_utf8(text@)) == parsed(changed)
                },
                None => !takes_fields(store),
            }
        }),
{
    let store = open_store(content);
    if !can_take_fields(&store) {
        return None;
    }
    Some(sync_user_email(store, user_id, email).to_pretty())
}

/// The address that stands for that of a user who has none.
pub open spec fn made_up_email(user: u64) -> Seq<char> {
    "user-"@ + decimal(user as nat) + "@example.com"@
}

/// The address of a user.
pub open spec fn email_in(store: JsonTree, user: u64) -> Seq<char> {
    match store.str_at(decimal(user as nat)) {
        Some(email) => email,
        None => made_up_email(user),
    }
}

/// The address of a user in the text of a store. A text that is no JSON is a failure.
pub open spec fn email_in_text(content: Option<Seq<char>>, user: u64) -> Result<
    Seq<char>,
    (FailureKind, Seq<char>),
> {
    match content {
        None => Ok(made_up_email(user)),
        Some(text) => match json_parse(text) {
            Ok(store) => Ok(email_in(store, user)),
            Err(e) => Err((FailureKind::Other, "parse user emails failed: "@ + e)),
        },
    }
}

/// The address that stands for that of a user who has none.
fn default_email(user_id: u64) -> (r: String)
    ensures
        r@ == made_up_email(user_id),
{
    let mut out = "user-".to_owned();
    out.append(decimal_string(user_id).as_str());
    out.append("@example.com");
    out
}

/// The address of a user.
pub fn user_email(store: &Json, user_id: u64) -> (r: String)
    ensures
        r@ == email_in(store.tree(), user_id),
{
    match store.str_at(decimal_string(user_id).as_str()) {
        Some(email) => email.to_owned(),
        None => default_email(user_id),
    }
}

/// The address of a user in the text of a store; a made-up one where there is none.
pub fn get_user_email(content: Option<&str>, user_id: u64) -> (r: Result<String, Failure>)
    ensures
        match r {
            Ok(email) => email_in_text(str_view(content), user_id) == Ok::<
                Seq<char>,
                (FailureKind, Seq<char>),
            >(email@),
            Err(e) => email_in_text(str_view(content), user_id) == Err::<
                Seq<char>,
                (FailureKind, Seq<char>),
            >(e@),
        },
{
    match content {
        None => Ok(default_email(user_id)),
        Some(text) => match Json::parse(text) {
            Ok(store) => Ok(user_email(&store, user_id)),
            Err(e) => Err(other_failure("parse user emails failed: ", e.as_str())),
        },
    }
}

/// Different numbers are written differently.
proof fn lemma_decimal_differs(a: nat, b: nat)
    requires
        a != b,
    ensures
        decimal(a) != decimal(b),
{
    law_digits_read_back(a, 10);
    law_digits_read_back(b, 10);
}

/// Tokens that are added are what the user then has more, up to the largest number; nobody else
/// has more or less, and no address changes hands.
pub proof fn law_tokens_go_to_their_user(store: JsonTree, user: u64, tokens: u64, other: u64)
    requires
        takes_fields(store),
    ensures
        bought(store_with_tokens(store, user, tokens), user) == saturating(
            (bought(store, user) + tokens) as nat,
        ),
        other != user ==> bought(store_with_tokens(store, user, tokens), other) == bought(
            store,
            other,
        ),
        takes_fields(store_with_tokens(store, user, tokens)),
{
    if other != user {
        lemma_decimal_differs(user as nat, other as nat);
    }
}

/// Tokens that are added and written to a store are there when the text is read again.
pub proof fn law_written_tokens_are_read(
    store: JsonTree,
    user: u64,
    tokens: u64,
    text: Seq<char>,
)
    requires
        takes_fields(store),
        json_parse(text) == parsed(store_with_tokens(store, user, tokens)),
    ensures
        bought_in_text(Some(text), user) == Ok::<u64, (FailureKind, Seq<char>)>(
            saturating((bought(store, user) + tokens) as nat),
        ),
        store_tree(Some(text)) == store_with_tokens(store, user, tokens),
{
    law_tokens_go_to_their_user(store, user, tokens, user);
}

/// A store that has a count for each of its users is sure to be read back after tokens are added.
pub proof fn law_balance_store_reads_back(store: JsonTree, user: u64, tokens: u64)
    requires
        store is Object,
        forall|k: Seq<char>|
            store->Object_0.contains_key(k) ==> (#[trigger] store->Object_0[k]).as_u64() is Some,
    ensures
        reads_back(store_with_tokens(store, user, tokens)),
{
    let changed = store_with_tokens(store, user, tokens)->Object_0;
    assert forall|k: Seq<char>| changed.contains_key(k) implies nests_within(
        #[trigger] changed[k],
        126,
    ) by {
        if k != decimal(user as nat) {
            assert(changed[k] == store->Object_0[k]);
            assert(store->Object_0[k].as_u64() is Some);
        }
    }
}

/// Grants one after the other add up, up to the largest number.
pub proof fn law_grants_add_up(store: JsonTree, user: u64, first: u64, second: u64)
    requires
        takes_fields(store),
    ensures
        bought(
            store_with_tokens(store_with_tokens(store, user, first), user, second),
            user,
        ) == saturating((bought(store, user) + first + second) as nat),
{
    law_tokens_go_to_their_user(store, user, first, user);
    law_tokens_go_to_their_user(store_with_tokens(store, user, first), user, second, user);
}

/// An address that is set is the one that is found, without the white space round it; nobody
/// else's changes.
pub proof fn law_email_is_kept(store: JsonTree, user: u64, email: Seq<char>, other: u64)
    requires
        takes_fields(store),
    ensures
        email_in(store_with_email(store, user, email), user) == trim(email),
        other != user ==> email_in(store_with_email(store, user, email), other) == email_in(
            store,
            other,
        ),
{
    if other != user {
        lemma_decimal_differs(user as nat, other as nat);
    }
}

/// What a user has bought is the number under the user's own number; 0 where there is none. A grant
/// changes that number alone: every other field of the store stays.
pub proof fn law_balance_is_kept_by_user(
    store: JsonTree,
    user: u64,
    tokens: u64,
    n: u64,
    key: Seq<char>,
)
    ensures
        store.u64_at(decimal(user as nat)) == Some(n) ==> bought(store, user) == n,
        store.u64_at(decimal(user as nat)) is None ==> bought(store, user) == 0,
        bought(store, user) + tokens <= u64::MAX ==> balance_after(store, user, tokens) == bought(
            store,
            user,
        ) + tokens,
        bought(store, user) + tokens > u64::MAX ==> balance_after(store, user, tokens) == u64::MAX,
        takes_fields(store) ==> {
            let changed = store_with_tokens(store, user, tokens);
            &&& changed.u64_at(decimal(user as nat)) == Some(balance_after(store, user, tokens))
            &&& key != decimal(user as nat) ==> changed.get(key) == store.get(key)
        },
{
}

/// The text of a store is read: without a store nobody has bought anything, a user has what the
/// store says, and a text that is no JSON is a failure and not an empty store.
pub proof fn law_balance_text_is_read(text: Seq<char>, user: u64, store: JsonTree, e: Seq<char>)
    ensures
        bought_in_text(None, user) == Ok::<u64, (FailureKind, Seq<char>)>(0),
        json_parse(text) == parsed(store) ==> bought_in_text(Some(text), user) == Ok::<
            u64,
            (FailureKind, Seq<char>),
        >(bought(store, user)),
        json_parse(text) == crate::codec::unparsed(e) ==> bought_in_text(Some(text), user) is Err
            && email_in_text(Some(text), user) is Err,
        json_parse(text) == parsed(store) ==> store_tree(Some(text)) == store && email_in_text(
            Some(text),
            user,
        ) == Ok::<Seq<char>, (FailureKind, Seq<char>)>(email_in(store, user)),
        store_tree(None) == JsonTree::Object(Map::empty()),
{
}

/// The address of a user is the text under the user's own number, or a made-up one that names the
/// user; setting it changes no other field of the store.
pub proof fn law_address_is_kept_by_user(
    store: JsonTree,
    user: u64,
    email: Seq<char>,
    key: Seq<char>,
    other: u64,
)
    ensures
        store.str_at(decimal(user as nat)) == Some(email) ==> email_in(store, user) == email,
        store.str_at(decimal(user as nat)) is None ==> email_in(store, user) == "user-"@ + decimal(
            user as nat,
        ) + "@example.com"@,
        takes_fields(store) ==> {
            let changed = store_with_email(store, user, email);
            &&& changed.str_at(decimal(user as nat)) == Some(trim(email))
            &&& key != decimal(user as nat) ==> changed.get(key) == store.get(key)
        },
        other != user ==> made_up_email(other) != made_up_email(user),
{
    if other != user && made_up_email(other) == made_up_email(user) {
        let start = "user-"@;
        let end = "@example.com"@;
        let a = decimal(user as nat);
        let b = decimal(other as nat);
        lemma_decimal_differs(user as nat, other as nat);
        let whole = made_up_email(user);
        assert(whole.len() == start.len() + a.len() + end.len());
        assert(made_up_email(other).len() == start.len() + b.len() + end.len());
        assert(whole.subrange(start.len() as int, (start.len() + a.len()) as int) =~= a);
        assert(made_up_email(other).subrange(start.len() as int, (start.len() + b.len()) as int)
            =~= b);
    }
}

/// A store that is an object, or the null value, can be given fields; no other value can.
pub proof fn law_stores_are_objects(store: JsonTree)
    ensures
        takes_fields(store) <==> store is Object || store == JsonTree::Null,
{
}

} // verus!
