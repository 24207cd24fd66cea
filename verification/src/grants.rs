//! Tokens that users buy: the requests of the platform to grant them, and the records of them.
use crate::codec::json_text;
use crate::failure::{error_body, error_reply, Reply};
use crate::json::{no_fields, number, text_tree, Fields, Json, JsonTree};
use crate::report::ok_reply;
use crate::text::{is_blank, str_eq, trim, trimmed};
use vstd::prelude::*;
use vstd::string::*;

verus! {

/// A purchase, as it is kept.
#[derive(Debug)]
pub struct PaidGrantRecord {
    pub ts: u64,
    pub user_id: u64,
    pub email: String,
    pub order_no: String,
    pub product_type: String,
    pub granted_tokens: u64,
    pub balance_after: u64,
}

/// A request to grant tokens.
#[derive(Debug)]
pub struct GrantTokensRequest {
    pub user_id: u64,
    pub email: String,
    pub order_no: String,
    pub product_type: String,
    pub tokens: u64,
}

/// A request to set the address of a user.
#[derive(Debug)]
pub struct SyncUserRequest {
    pub user_id: u64,
    pub email: String,
}

/// The answer to a request to grant tokens that is not in order.
pub open spec fn grant_refusal(payload: GrantTokensRequest) -> Option<(u16, Seq<char>)> {
    if payload.user_id == 0 {
        Some((400, error_body("invalid_user_id"@, "user_id must be greater than 0"@)))
    } else if payload.tokens == 0 {
        Some((400, error_body("invalid_tokens"@, "tokens must be greater than 0"@)))
    } else if trim(payload.order_no@).len() == 0 {
        Some((400, error_body("invalid_order_no"@, "order_no is required"@)))
    } else if trim(payload.email@).len() == 0 {
        Some((400, error_body("invalid_email"@, "email is required"@)))
    } else {
        None
    }
}

/// An optional answer as a pair.
pub open spec fn answer_view(r: Option<Reply>) -> Option<(u16, Seq<char>)> {
    match r {
        Some(reply) => Some(reply@),
        None => None,
    }
}

/// The answer to a request to grant tokens that is not in order.
pub fn check_grant(payload: &GrantTokensRequest) -> (r: Option<Reply>)
    ensures
        answer_view(r) == grant_refusal(*payload),
{
    if payload.user_id == 0 {
        return Some(error_reply(400, "invalid_user_id", "user_id must be greater than 0"));
    }
    if payload.tokens == 0 {
        return Some(error_reply(400, "invalid_tokens", "tokens must be greater than 0"));
    }
    if is_blank(payload.order_no.as_str()) {
        return Some(error_reply(400, "invalid_order_no", "order_no is required"));
    }
    if is_blank(payload.email.as_str()) {
        return Some(error_reply(400, "invalid_email", "email is required"));
    }
    None
}

/// Whether a line of the list of grants is the record of an order.
pub open spec fn is_for(line: Option<PaidGrantRecord>, order_no: Seq<char>) -> bool {
    line matches Some(record) && record.order_no@ == order_no
}

/// The first record of an order. Lines that are no record are passed over.
pub open spec fn grant_of(grants: Seq<Option<PaidGrantRecord>>, order_no: Seq<char>) -> Option<
    PaidGrantRecord,
>
    decreases grants.len(),
{
    if grants.len() == 0 {
        None
    } else if is_for(grants[0], order_no) {
        grants[0]
    } else {
        grant_of(grants.drop_first(), order_no)
    }
}

/// The first record of an order.
pub fn find_grant_record_by_order_no<'a>(
    grants: &'a Vec<Option<PaidGrantRecord>>,
    order_no: &str,
) -> (r: Option<&'a PaidGrantRecord>)
    ensures
        match r {
            Some(record) => grant_of(grants@, order_no@) == Some(*record),
            None => grant_of(grants@, order_no@) == None::<PaidGrantRecord>,
        },
{
    let mut i: usize = 0;
    proof {
        assert(grants@.skip(0) =~= grants@);
    }
    while i < grants.len()
        invariant
            i <= grants@.len(),
            grant_of(grants@.skip(i as int), order_no@) == grant_of(grants@, order_no@),
        decreases grants@.len() - i,
    {
        proof {
            assert(grants@.skip(i as int)[0] == grants@[i as int]);
            assert(grants@.skip(i as int).drop_first() =~= grants@.skip(i + 1));
        }
        match &grants[i] {
            Some(record) => if str_eq(record.order_no.as_str(), order_no) {
                return Some(record);
            },
            None => {},
        }
        i = i + 1;
    }
    None
}

/// What is done about a request to grant tokens that is in order: the tokens are granted, or, where
/// the order has been seen before, only the answer is given again.
#[derive(Debug)]
pub enum GrantPlan {
    Grant,
    AlreadyGranted(Reply),
}

/// The answer to a request to grant tokens.
pub open spec fn grant_tree(
    already: bool,
    user: u64,
    order_no: Seq<char>,
    tokens: u64,
    balance: u64,
) -> JsonTree {
    JsonTree::Object(
        no_fields().insert("ok"@, JsonTree::Bool(true)).insert(
            "already_granted"@,
            JsonTree::Bool(already),
        ).insert("user_id"@, number(user)).insert("order_no"@, text_tree(order_no)).insert(
            "granted_tokens"@,
            number(tokens),
        ).insert("balance_after"@, number(balance)),
    )
}

/// The answer that a record stands for.
pub open spec fn record_answer(already: bool, record: PaidGrantRecord) -> (u16, Seq<char>) {
    (
        200,
        json_text(
            grant_tree(
                already,
                record.user_id,
                record.order_no@,
                record.granted_tokens,
                record.balance_after,
            ),
        ),
    )
}

/// The answer that a record stands for.
fn record_reply(already: bool, record: &PaidGrantRecord) -> (r: Reply)
    ensures
        r@ == record_answer(already, *record),
{
    let mut out = Fields::new();
    out.put("ok", Json::Bool(true));
    out.put("already_granted", Json::Bool(already));
    out.put("user_id", Json::unsigned(record.user_id));
    out.put("order_no", Json::text(record.order_no.as_str()));
    out.put("granted_tokens", Json::unsigned(record.granted_tokens));
    out.put("balance_after", Json::unsigned(record.balance_after));
    ok_reply(&out.done())
}

/// The order that a request is about: its number without the white space round it.
pub open spec fn order_of(payload: GrantTokensRequest) -> Seq<char> {
    trim(payload.order_no@)
}

/// What is done about a request to grant tokens, by the grants before it.
pub fn plan_grant(payload: &GrantTokensRequest, grants: &Vec<Option<PaidGrantRecord>>) -> (r:
    GrantPlan)
    ensures
        match grant_of(grants@, order_of(*payload)) {
            Some(record) => r matches GrantPlan::AlreadyGranted(reply) && reply@
                == record_answer(true, record),
            None => r is Grant,
        },
{
    match find_grant_record_by_order_no(grants, trimmed(payload.order_no.as_str()).as_str()) {
        Some(record) => GrantPlan::AlreadyGranted(record_reply(true, record)),
        None => GrantPlan::Grant,
    }
}

/// Whether a record is the one for a request that was granted.
pub open spec fn is_grant(
    record: PaidGrantRecord,
    payload: GrantTokensRequest,
    ts: u64,
    balance_after: u64,
) -> bool {
    &&& record.ts == ts
    &&& record.user_id == payload.user_id
    &&& record.email@ == trim(payload.email@)
    &&& record.order_no@ == order_of(payload)
    &&& record.product_type@ == trim(payload.product_type@)
    &&& record.granted_tokens == payload.tokens
    &&& record.balance_after == balance_after
}

/// The record for a request that was granted.
pub fn grant_record(payload: &GrantTokensRequest, ts: u64, balance_after: u64) -> (r:
    PaidGrantRecord)
    ensures
        is_grant(r, *payload, ts, balance_after),
{
    PaidGrantRecord {
        ts,
        user_id: payload.user_id,
        email: trimmed(payload.email.as_str()),
        order_no: trimmed(payload.order_no.as_str()),
        product_type: trimmed(payload.product_type.as_str()),
        granted_tokens: payload.tokens,
        balance_after,
    }
}

/// The answer to a request that was granted, by its record.
pub fn granted_reply(record: &PaidGrantRecord) -> (r: Reply)
    ensures
        r@ == record_answer(false, *record),
{
    record_reply(false, record)
}

/// The answer to a request to set an address that is not in order.
pub open spec fn sync_refusal(payload: SyncUserRequest) -> Option<(u16, Seq<char>)> {
    if payload.user_id == 0 {
        Some((400, error_body("invalid_user_id"@, "user_id must be greater than 0"@)))
    } else if trim(payload.email@).len() == 0 {
        Some((400, error_body("invalid_email"@, "email is required"@)))
    } else {
        None
    }
}

/// The answer to a request to set an address that is not in order.
pub fn check_sync(payload: &SyncUserRequest) -> (r: Option<Reply>)
    ensures
        answer_view(r) == sync_refusal(*payload),
{
    if payload.user_id == 0 {
        return Some(error_reply(400, "invalid_user_id", "user_id must be greater than 0"));
    }
    if is_blank(payload.email.as_str()) {
        return Some(error_reply(400, "invalid_email", "email is required"));
    }
    None
}

/// The answer to a request to set an address.
pub open spec fn sync_tree(user: u64, email: Seq<char>) -> JsonTree {
    JsonTree::Object(
        no_fields().insert("ok"@, JsonTree::Bool(true)).insert("user_id"@, number(user)).insert(
            "email"@,
            text_tree(trim(email)),
        ),
    )
}

/// The answer to a request to set an address.
pub fn sync_reply(payload: &SyncUserRequest) -> (r: Reply)
    ensures
        r@ == (200u16, json_text(sync_tree(payload.user_id, payload.email@))),
{
    let mut out = Fields::new();
    out.put("ok", Json::Bool(true));
    out.put("user_id", Json::unsigned(payload.user_id));
    out.put("email", Json::Str(trimmed(payload.email.as_str())));
    ok_reply(&out.done())
}

/// A record that is added at the end is found, unless there was one of its order before.
proof fn lemma_added_grant_is_found(
    grants: Seq<Option<PaidGrantRecord>>,
    record: PaidGrantRecord,
    order_no: Seq<char>,
)
    ensures
        grant_of(grants.push(Some(record)), order_no) == match grant_of(grants, order_no) {
            Some(before) => Some(before),
            None => if record.order_no@ == order_no {
                Some(record)
            } else {
                None
            },
        },
    decreases grants.len(),
{
    let more = grants.push(Some(record));
    if grants.len() == 0 {
        assert(more.drop_first() =~= Seq::<Option<PaidGrantRecord>>::empty());
        assert(grant_of(more.drop_first(), order_no) == None::<PaidGrantRecord>);
    } else {
        assert(more[0] == grants[0]);
        assert(more.drop_first() =~= grants.drop_first().push(Some(record)));
        lemma_added_grant_is_found(grants.drop_first(), record, order_no);
    }
}

/// One order is granted once: after it was granted and recorded, every request about it, however
/// often it comes and whatever was recorded since, finds the first record, so that nothing is
/// granted again.
pub proof fn law_order_is_granted_once(
    grants: Seq<Option<PaidGrantRecord>>,
    payload: GrantTokensRequest,
    record: PaidGrantRecord,
    ts: u64,
    balance_after: u64,
    later: Seq<Option<PaidGrantRecord>>,
    again: GrantTokensRequest,
)
    requires
        grant_of(grants, order_of(payload)) is None,
        is_grant(record, payload, ts, balance_after),
        order_of(again) == order_of(payload),
    ensures
        grant_of(grants.push(Some(record)) + later, order_of(again)) == Some(record),
    decreases later.len(),
{
    let now = grants.push(Some(record));
    let order = order_of(payload);
    if later.len() == 0 {
        assert(now + later =~= now);
        lemma_added_grant_is_found(grants, record, order);
    } else {
        law_order_is_granted_once(
            grants,
            payload,
            record,
            ts,
            balance_after,
            later.drop_last(),
            again,
        );
        let before = now + later.drop_last();
        assert(now + later =~= before.push(later.last()));
        match later.last() {
            Some(other) => {
                lemma_added_grant_is_found(before, other, order);
            },
            None => {
                lemma_other_line(before, order);
            },
        }
    }
}

/// A line that is no record hides no record.
proof fn lemma_other_line(grants: Seq<Option<PaidGrantRecord>>, order_no: Seq<char>)
    ensures
        grant_of(grants.push(None), order_no) == grant_of(grants, order_no),
    decreases grants.len(),
{
    let more = grants.push(None);
    if grants.len() == 0 {
        assert(more.drop_first() =~= Seq::<Option<PaidGrantRecord>>::empty());
        assert(grant_of(more.drop_first(), order_no) == None::<PaidGrantRecord>);
    } else {
        assert(more[0] == grants[0]);
        assert(more.drop_first() =~= grants.drop_first().push(None));
        lemma_other_line(grants.drop_first(), order_no);
    }
}

/// An order that is granted does not stand in the way of another.
pub proof fn law_orders_are_independent(
    grants: Seq<Option<PaidGrantRecord>>,
    record: PaidGrantRecord,
    order_no: Seq<char>,
)
    requires
        record.order_no@ != order_no,
    ensures
        grant_of(grants.push(Some(record)), order_no) == grant_of(grants, order_no),
{
    lemma_added_grant_is_found(grants, record, order_no);
}

/// A request to grant tokens is in order just where it names a user, some tokens, an order and an
/// address; otherwise it is answered with status 400.
pub proof fn law_grant_request_is_checked(payload: GrantTokensRequest)
    ensures
        grant_refusal(payload) is None <==> payload.user_id > 0 && payload.tokens > 0 && trim(
            payload.order_no@,
        ).len() > 0 && trim(payload.email@).len() > 0,
        grant_refusal(payload) matches Some(answer) ==> answer.0 == 400,
        payload.user_id == 0 ==> grant_refusal(payload) == Some(
            (400u16, error_body("invalid_user_id"@, "user_id must be greater than 0"@)),
        ),
        payload.user_id > 0 && payload.tokens == 0 ==> grant_refusal(payload) == Some(
            (400u16, error_body("invalid_tokens"@, "tokens must be greater than 0"@)),
        ),
        payload.user_id > 0 && payload.tokens > 0 && trim(payload.order_no@).len() == 0
            ==> grant_refusal(payload) == Some(
            (400u16, error_body("invalid_order_no"@, "order_no is required"@)),
        ),
        payload.user_id > 0 && payload.tokens > 0 && trim(payload.order_no@).len() > 0 && trim(
            payload.email@,
        ).len() == 0 ==> grant_refusal(payload) == Some(
            (400u16, error_body("invalid_email"@, "email is required"@)),
        ),
{
}

/// A request to set an address is in order just where it names a user and an address.
pub proof fn law_sync_request_is_checked(payload: SyncUserRequest)
    ensures
        sync_refusal(payload) is None <==> payload.user_id > 0 && trim(payload.email@).len() > 0,
        payload.user_id == 0 ==> sync_refusal(payload) == Some(
            (400u16, error_body("invalid_user_id"@, "user_id must be greater than 0"@)),
        ),
        payload.user_id > 0 && trim(payload.email@).len() == 0 ==> sync_refusal(payload) == Some(
            (400u16, error_body("invalid_email"@, "email is required"@)),
        ),
{
}

/// The record of a grant, and the answer to it, tell of the request: the user and the tokens that it
/// names, its order without the white space round it, and the balance after it.
pub proof fn law_grant_is_told(
    record: PaidGrantRecord,
    payload: GrantTokensRequest,
    ts: u64,
    balance: u64,
    already: bool,
) -> (answer: JsonTree)
    requires
        is_grant(record, payload, ts, balance),
    ensures
        (record.user_id, record.granted_tokens, record.balance_after, record.ts) == (
            payload.user_id,
            payload.tokens,
            balance,
            ts,
        ),
        record.order_no@ == trim(payload.order_no@),
        record.email@ == trim(payload.email@),
        record.product_type@ == trim(payload.product_type@),
        record_answer(already, record) == (200u16, json_text(answer)),
        answer.bool_at("ok"@) == Some(true),
        answer.bool_at("already_granted"@) == Some(already),
        answer.u64_at("user_id"@) == Some(payload.user_id),
        answer.str_at("order_no"@) == Some(trim(payload.order_no@)),
        answer.u64_at("granted_tokens"@) == Some(payload.tokens),
        answer.u64_at("balance_after"@) == Some(balance),
{
    reveal_strlit("ok");
    reveal_strlit("already_granted");
    reveal_strlit("user_id");
    reveal_strlit("order_no");
    reveal_strlit("granted_tokens");
    reveal_strlit("balance_after");
    assert("ok"@.len() == 2 && "already_granted"@.len() == 15 && "user_id"@.len() == 7);
    assert("order_no"@.len() == 8 && "granted_tokens"@.len() == 14);
    assert("balance_after"@.len() == 13);
    grant_tree(
        already,
        record.user_id,
        record.order_no@,
        record.granted_tokens,
        record.balance_after,
    )
}

/// A second request about an order is answered with what was granted the first time, whatever it
/// asks for itself.
pub proof fn law_second_request_gets_the_first_answer(
    grants: Seq<Option<PaidGrantRecord>>,
    i: int,
    order_no: Seq<char>,
)
    requires
        0 <= i < grants.len(),
        grants[i] matches Some(record) && record.order_no@ == order_no,
        forall|j: int|
            0 <= j < i ==> (#[trigger] grants[j] matches Some(record) ==> record.order_no@
                != order_no),
    ensures
        grant_of(grants, order_no) == grants[i],
    decreases i,
{
    if i > 0 {
        let rest = grants.drop_first();
        assert(rest[i - 1] == grants[i]);
        assert forall|j: int| 0 <= j < i - 1 implies (#[trigger] rest[j] matches Some(record)
            ==> record.order_no@ != order_no) by {
            assert(rest[j] == grants[j + 1]);
        }
        law_second_request_gets_the_first_answer(rest, i - 1, order_no);
    }
}

/// An order that no record names has not been granted.
pub proof fn law_new_order_is_not_granted(
    grants: Seq<Option<PaidGrantRecord>>,
    order_no: Seq<char>,
)
    requires
        forall|j: int|
            0 <= j < grants.len() ==> (#[trigger] grants[j] matches Some(record)
                ==> record.order_no@ != order_no),
    ensures
        grant_of(grants, order_no) is None,
    decreases grants.len(),
{
    if grants.len() > 0 {
        let rest = grants.drop_first();
        assert forall|j: int| 0 <= j < rest.len() implies (#[trigger] rest[j] matches Some(record)
            ==> record.order_no@ != order_no) by {
            assert(rest[j] == grants[j + 1]);
        }
        law_new_order_is_not_granted(rest, order_no);
    }
}

/// The answer to a request to set an address tells the user, and the address without the white
/// space round it.
pub proof fn law_sync_is_told(user: u64, email: Seq<char>)
    ensures
        sync_tree(user, email).bool_at("ok"@) == Some(true),
        sync_tree(user, email).u64_at("user_id"@) == Some(user),
        sync_tree(user, email).str_at("email"@) == Some(trim(email)),
{
    reveal_strlit("ok");
    reveal_strlit("user_id");
    reveal_strlit("email");
    assert("ok"@.len() == 2 && "user_id"@.len() == 7 && "email"@.len() == 5);
}

} // verus!
