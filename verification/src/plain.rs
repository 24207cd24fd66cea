//! JSON text that is put together by hand: objects of texts, and of objects of texts.
use crate::json::{no_fields, text_tree, JsonTree};
use crate::json_field::{escape, escape_char, quoted};
use crate::text::join_with;
use vstd::prelude::*;
use vstd::string::*;

verus! {

/// A value in such an object.
pub enum PlainValue {
    Text(Seq<char>),
    Object(Seq<(Seq<char>, Seq<char>)>),
}

/// Whether a text can stand in JSON once it is escaped: of the characters below the space it holds
/// line breaks and tabs alone.
pub open spec fn is_clean(s: Seq<char>) -> bool {
    forall|i: int|
        0 <= i < s.len() ==> #[trigger] s[i] >= ' ' || s[i] == '\n' || s[i] == '\r' || s[i] == '\t'
}

/// A member of an object: its name, and the text of its value.
pub open spec fn member(name: Seq<char>, value: Seq<char>) -> Seq<char> {
    quoted(escape(name)) + seq![':'] + value
}

/// The text of an object with the given members.
pub open spec fn braced(members: Seq<Seq<char>>) -> Seq<char> {
    seq!['{'] + join_with(members, seq![',']) + seq!['}']
}

/// The text of an object of texts.
pub open spec fn texts_text(fields: Seq<(Seq<char>, Seq<char>)>) -> Seq<char> {
    braced(fields.map_values(|f: (Seq<char>, Seq<char>)| member(f.0, quoted(escape(f.1)))))
}

/// The text of a value.
pub open spec fn plain_value_text(v: PlainValue) -> Seq<char> {
    match v {
        PlainValue::Text(s) => quoted(escape(s)),
        PlainValue::Object(fields) => texts_text(fields),
    }
}

/// The text of an object.
pub open spec fn plain_text(fields: Seq<(Seq<char>, PlainValue)>) -> Seq<char> {
    braced(fields.map_values(|f: (Seq<char>, PlainValue)| member(f.0, plain_value_text(f.1))))
}

/// The fields of an object of texts.
pub open spec fn texts_tree(fields: Seq<(Seq<char>, Seq<char>)>) -> Map<Seq<char>, JsonTree>
    decreases fields.len(),
{
    if fields.len() == 0 {
        no_fields()
    } else {
        texts_tree(fields.drop_last()).insert(fields.last().0, text_tree(fields.last().1))
    }
}

/// The tree of a value.
pub open spec fn plain_value_tree(v: PlainValue) -> JsonTree {
    match v {
        PlainValue::Text(s) => text_tree(s),
        PlainValue::Object(fields) => JsonTree::Object(texts_tree(fields)),
    }
}

/// The fields of an object.
pub open spec fn plain_tree(fields: Seq<(Seq<char>, PlainValue)>) -> Map<Seq<char>, JsonTree>
    decreases fields.len(),
{
    if fields.len() == 0 {
        no_fields()
    } else {
        plain_tree(fields.drop_last()).insert(fields.last().0, plain_value_tree(fields.last().1))
    }
}

/// Whether the names and texts of an object of texts are clean, and no name occurs twice.
pub open spec fn is_plain_texts(fields: Seq<(Seq<char>, Seq<char>)>) -> bool {
    &&& forall|i: int|
        0 <= i < fields.len() ==> is_clean((#[trigger] fields[i]).0) && is_clean(fields[i].1)
    &&& forall|i: int, j: int|
        0 <= i < j < fields.len() ==> (#[trigger] fields[i]).0 != (#[trigger] fields[j]).0
}

/// Whether a value is clean.
pub open spec fn is_plain_value(v: PlainValue) -> bool {
    match v {
        PlainValue::Text(s) => is_clean(s),
        PlainValue::Object(fields) => is_plain_texts(fields),
    }
}

/// Whether the names and values of an object are clean, and no name occurs twice.
pub open spec fn is_plain(fields: Seq<(Seq<char>, PlainValue)>) -> bool {
    &&& forall|i: int|
        0 <= i < fields.len() ==> is_clean((#[trigger] fields[i]).0) && is_plain_value(fields[i].1)
    &&& forall|i: int, j: int|
        0 <= i < j < fields.len() ==> (#[trigger] fields[i]).0 != (#[trigger] fields[j]).0
}

/// Whether a text needs no escaping.
pub open spec fn is_bare(s: Seq<char>) -> bool {
    forall|i: int| 0 <= i < s.len() ==> #[trigger] s[i] >= ' ' && s[i] != '"' && s[i] != '\\'
}

/// A text that needs no escaping is its own escaped form.
pub proof fn lemma_bare(s: Seq<char>)
    requires
        is_bare(s),
    ensures
        escape(s) == s,
        is_clean(s),
    decreases s.len(),
{
    if s.len() > 0 {
        let front = s.drop_last();
        assert forall|i: int| 0 <= i < front.len() implies #[trigger] front[i] >= ' ' && front[i]
            != '"' && front[i] != '\\' by {
            assert(front[i] == s[i]);
        }
        lemma_bare(front);
        assert(s[s.len() - 1] >= ' ');
        assert(escape_char(s.last()) =~= seq![s.last()]);
        assert(front + seq![s.last()] =~= s);
    } else {
        assert(escape(s) =~= s);
    }
}

/// Two texts, one after the other, are escaped one after the other.
pub proof fn lemma_escape_concat(a: Seq<char>, b: Seq<char>)
    ensures
        escape(a + b) == escape(a) + escape(b),
    decreases b.len(),
{
    if b.len() == 0 {
        assert(a + b =~= a);
        assert(escape(a) + escape(b) =~= escape(a));
    } else {
        assert((a + b).drop_last() =~= a + b.drop_last());
        lemma_escape_concat(a, b.drop_last());
        assert(escape(a + b) =~= escape(a) + escape(b));
    }
}

/// The texts of objects with one, two and three members.
pub proof fn lemma_braced(a: Seq<char>, b: Seq<char>, c: Seq<char>)
    ensures
        braced(seq![a]) == seq!['{'] + a + seq!['}'],
        braced(seq![a, b]) == seq!['{'] + a + seq![','] + b + seq!['}'],
        braced(seq![a, b, c]) == seq!['{'] + a + seq![','] + b + seq![','] + c + seq!['}'],
{
    let comma = seq![','];
    assert(seq![a, b].drop_last() =~= seq![a]);
    assert(seq![a, b, c].drop_last() =~= seq![a, b]);
    assert(join_with(seq![a], comma) == a);
    assert(join_with(seq![a, b], comma) == a + comma + b);
    assert(join_with(seq![a, b, c], comma) == a + comma + b + comma + c);
    assert(braced(seq![a, b]) =~= seq!['{'] + a + seq![','] + b + seq!['}']);
    assert(braced(seq![a, b, c]) =~= seq!['{'] + a + seq![','] + b + seq![','] + c + seq!['}']);
}

/// Whether the first `n` characters of a text need no escaping.
spec fn is_bare_up_to(s: Seq<char>, n: nat) -> bool
    decreases n,
{
    n == 0 || {
        let c = s[n - 1];
        is_bare_up_to(s, (n - 1) as nat) && c >= ' ' && c != '"' && c != '\\'
    }
}

/// None of the first `n` characters needs escaping where they need none together.
proof fn lemma_bare_up_to(s: Seq<char>, n: nat)
    requires
        is_bare_up_to(s, n),
    ensures
        forall|i: int| 0 <= i < n ==> #[trigger] s[i] >= ' ' && s[i] != '"' && s[i] != '\\',
    decreases n,
{
    if n > 0 {
        lemma_bare_up_to(s, (n - 1) as nat);
    }
}

/// The words in objects that tell of an error need no escaping.
pub proof fn lemma_error_words()
    ensures
        is_bare("error"@),
        is_bare("message"@),
        is_bare("type"@),
        is_bare("code"@),
        "error"@ != "type"@,
        "message"@ != "type"@,
        "message"@ != "code"@,
        "type"@ != "code"@,
{
    reveal_with_fuel(is_bare_up_to, 8);
    assert(is_bare("error"@)) by {
        reveal_strlit("error");
        assert(is_bare_up_to("error"@, 5));
        lemma_bare_up_to("error"@, 5);
    }
    assert(is_bare("message"@)) by {
        reveal_strlit("message");
        assert(is_bare_up_to("message"@, 7));
        lemma_bare_up_to("message"@, 7);
    }
    assert(is_bare("type"@)) by {
        reveal_strlit("type");
        assert(is_bare_up_to("type"@, 4));
        lemma_bare_up_to("type"@, 4);
    }
    assert(is_bare("code"@)) by {
        reveal_strlit("code");
        assert(is_bare_up_to("code"@, 4));
        lemma_bare_up_to("code"@, 4);
    }
    reveal_strlit("error");
    reveal_strlit("message");
    reveal_strlit("type");
    reveal_strlit("code");
    assert("error"@.len() == 5 && "message"@.len() == 7 && "type"@.len() == 4);
    assert("code"@.len() == 4 && "type"@[0] == 't' && "code"@[0] == 'c');
}

/// The fixed words in the messages, types and codes of errors need no escaping.
#[verifier::rlimit(50)]
pub proof fn lemma_fixed_words()
    ensures
        is_bare("free quota exhausted. used "@),
        is_bare("paid balance exhausted. used "@),
        is_bare(" of "@),
        is_bare(" tokens"@),
        is_bare("insufficient_quota"@),
        is_bare("free_quota_exhausted"@),
        is_bare("paid_balance_exhausted"@),
        is_bare("invalid_request_error"@),
        is_bare("unsupported model: "@),
        is_bare("model_not_allowed"@),
{
    reveal_with_fuel(is_bare_up_to, 30);
    assert(is_bare("free quota exhausted. used "@)) by {
        reveal_strlit("free quota exhausted. used ");
        assert(is_bare_up_to("free quota exhausted. used "@, 27));
        lemma_bare_up_to("free quota exhausted. used "@, 27);
    }
    assert(is_bare("paid balance exhausted. used "@)) by {
        reveal_strlit("paid balance exhausted. used ");
        assert(is_bare_up_to("paid balance exhausted. used "@, 29));
        lemma_bare_up_to("paid balance exhausted. used "@, 29);
    }
    assert(is_bare(" of "@)) by {
        reveal_strlit(" of ");
        assert(is_bare_up_to(" of "@, 4));
        lemma_bare_up_to(" of "@, 4);
    }
    assert(is_bare(" tokens"@)) by {
        reveal_strlit(" tokens");
        assert(is_bare_up_to(" tokens"@, 7));
        lemma_bare_up_to(" tokens"@, 7);
    }
    assert(is_bare("insufficient_quota"@)) by {
        reveal_strlit("insufficient_quota");
        assert(is_bare_up_to("insufficient_quota"@, 18));
        lemma_bare_up_to("insufficient_quota"@, 18);
    }
    assert(is_bare("free_quota_exhausted"@)) by {
        reveal_strlit("free_quota_exhausted");
        assert(is_bare_up_to("free_quota_exhausted"@, 20));
        lemma_bare_up_to("free_quota_exhausted"@, 20);
    }
    assert(is_bare("paid_balance_exhausted"@)) by {
        reveal_strlit("paid_balance_exhausted");
        assert(is_bare_up_to("paid_balance_exhausted"@, 22));
        lemma_bare_up_to("paid_balance_exhausted"@, 22);
    }
    assert(is_bare("invalid_request_error"@)) by {
        reveal_strlit("invalid_request_error");
        assert(is_bare_up_to("invalid_request_error"@, 21));
        lemma_bare_up_to("invalid_request_error"@, 21);
    }
    assert(is_bare("unsupported model: "@)) by {
        reveal_strlit("unsupported model: ");
        assert(is_bare_up_to("unsupported model: "@, 19));
        lemma_bare_up_to("unsupported model: "@, 19);
    }
    assert(is_bare("model_not_allowed"@)) by {
        reveal_strlit("model_not_allowed");
        assert(is_bare_up_to("model_not_allowed"@, 17));
        lemma_bare_up_to("model_not_allowed"@, 17);
    }
}

/// Two texts that need no escaping, one after the other, need none.
pub proof fn lemma_bare_concat(a: Seq<char>, b: Seq<char>)
    requires
        is_bare(a),
        is_bare(b),
    ensures
        is_bare(a + b),
{
    let s = a + b;
    assert forall|i: int| 0 <= i < s.len() implies #[trigger] s[i] >= ' ' && s[i] != '"' && s[i]
        != '\\' by {
        if i < a.len() {
            assert(s[i] == a[i]);
        } else {
            assert(s[i] == b[i - a.len()]);
        }
    }
}

/// An object that tells of an error: its message, type and code under one name.
pub open spec fn error_fields(message: Seq<char>, kind: Seq<char>, code: Seq<char>) -> Seq<
    (Seq<char>, PlainValue),
> {
    seq![
        (
            "error"@,
            PlainValue::Object(seq![("message"@, message), ("type"@, kind), ("code"@, code)]),
        ),
    ]
}

/// The tree of an object that tells of an error.
pub open spec fn error_tree(message: Seq<char>, kind: Seq<char>, code: Seq<char>) -> JsonTree {
    JsonTree::Object(
        no_fields().insert(
            "error"@,
            JsonTree::Object(
                no_fields().insert("message"@, text_tree(message)).insert(
                    "type"@,
                    text_tree(kind),
                ).insert("code"@, text_tree(code)),
            ),
        ),
    )
}

/// The text of an object that tells of an error.
pub open spec fn error_text(message: Seq<char>, kind: Seq<char>, code: Seq<char>) -> Seq<char> {
    seq!['{'] + quoted("error"@) + seq![':'] + inner_text(message, kind, code) + seq!['}']
}

/// The text of the object in an object that tells of an error.
pub open spec fn inner_text(message: Seq<char>, kind: Seq<char>, code: Seq<char>) -> Seq<char> {
    seq!['{'] + quoted("message"@) + seq![':'] + quoted(escape(message)) + seq![','] + quoted(
        "type"@,
    ) + seq![':'] + quoted(escape(kind)) + seq![','] + quoted("code"@) + seq![':'] + quoted(
        escape(code),
    ) + seq!['}']
}

/// What stands before the message in the text of an object that tells of an error.
pub open spec fn error_head() -> Seq<char> {
    seq!['{'] + quoted("error"@) + seq![':'] + seq!['{'] + quoted("message"@) + seq![':'] + seq!['"']
}

/// What stands after the message in the text of an object that tells of an error, with a type and a
/// code that need no escaping.
pub open spec fn error_tail(kind: Seq<char>, code: Seq<char>) -> Seq<char> {
    seq!['"'] + seq![','] + quoted("type"@) + seq![':'] + quoted(kind) + seq![','] + quoted("code"@)
        + seq![':'] + quoted(code) + seq!['}'] + seq!['}']
}

/// The text of an object that tells of an error, round its message.
pub proof fn lemma_error_text(message: Seq<char>, kind: Seq<char>, code: Seq<char>)
    requires
        is_bare(kind),
        is_bare(code),
    ensures
        error_text(message, kind, code) == error_head() + escape(message) + error_tail(kind, code),
{
    lemma_bare(kind);
    lemma_bare(code);
    assert(error_text(message, kind, code) =~= error_head() + escape(message) + error_tail(
        kind,
        code,
    ));
}

/// The text of the object in an object that tells of an error.
proof fn lemma_inner_text(message: Seq<char>, kind: Seq<char>, code: Seq<char>)
    ensures
        texts_text(seq![("message"@, message), ("type"@, kind), ("code"@, code)]) == inner_text(
            message,
            kind,
            code,
        ),
{
    lemma_error_words();
    lemma_bare("message"@);
    lemma_bare("type"@);
    lemma_bare("code"@);
    let inner = seq![("message"@, message), ("type"@, kind), ("code"@, code)];
    let a = member("message"@, quoted(escape(message)));
    let b = member("type"@, quoted(escape(kind)));
    let c = member("code"@, quoted(escape(code)));
    assert(inner.map_values(|f: (Seq<char>, Seq<char>)| member(f.0, quoted(escape(f.1))))
        =~= seq![a, b, c]);
    lemma_braced(a, b, c);
    assert(seq!['{'] + a + seq![','] + b + seq![','] + c + seq!['}'] =~= inner_text(
        message,
        kind,
        code,
    ));
}

/// The tree of the object in an object that tells of an error.
proof fn lemma_inner_tree(message: Seq<char>, kind: Seq<char>, code: Seq<char>)
    ensures
        texts_tree(seq![("message"@, message), ("type"@, kind), ("code"@, code)])
            == no_fields().insert("message"@, text_tree(message)).insert(
            "type"@,
            text_tree(kind),
        ).insert("code"@, text_tree(code)),
{
    let three = seq![("message"@, message), ("type"@, kind), ("code"@, code)];
    let two = seq![("message"@, message), ("type"@, kind)];
    let one = seq![("message"@, message)];
    assert(three.drop_last() =~= two);
    assert(two.drop_last() =~= one);
    assert(one.drop_last() =~= Seq::<(Seq<char>, Seq<char>)>::empty());
    assert(texts_tree(one.drop_last()) == no_fields());
    assert(texts_tree(one) == no_fields().insert("message"@, text_tree(message)));
    assert(texts_tree(two) == texts_tree(one).insert("type"@, text_tree(kind)));
    assert(texts_tree(three) == texts_tree(two).insert("code"@, text_tree(code)));
}

/// The text and the tree of an object that tells of an error.
#[verifier::rlimit(50)]
pub proof fn lemma_error_fields(message: Seq<char>, kind: Seq<char>, code: Seq<char>)
    ensures
        plain_text(error_fields(message, kind, code)) == error_text(message, kind, code),
        is_clean(message) && is_clean(kind) && is_clean(code) ==> is_plain(
            error_fields(message, kind, code),
        ),
        JsonTree::Object(plain_tree(error_fields(message, kind, code))) == error_tree(
            message,
            kind,
            code,
        ),
{
    let inner = seq![("message"@, message), ("type"@, kind), ("code"@, code)];
    let fields = error_fields(message, kind, code);
    lemma_error_words();
    lemma_bare("error"@);
    lemma_bare("message"@);
    lemma_bare("type"@);
    lemma_bare("code"@);
    lemma_inner_text(message, kind, code);
    lemma_inner_tree(message, kind, code);
    let whole = member("error"@, texts_text(inner));
    assert(fields.map_values(|f: (Seq<char>, PlainValue)| member(f.0, plain_value_text(f.1)))
        =~= seq![whole]);
    lemma_braced(whole, whole, whole);
    assert(seq!['{'] + whole + seq!['}'] =~= error_text(message, kind, code));
    assert(fields.drop_last() =~= Seq::<(Seq<char>, PlainValue)>::empty());
    assert(plain_tree(fields.drop_last()) == no_fields());
}

} // verus!
