//! The models that may be asked for, and the names that they have upstream.
use crate::anthropic::push_text;
use crate::failure::{error_body, error_reply, Reply};
use crate::json_field::{escape, escape_json};
use crate::percent::{pairs_are_whole, percent_decode, percent_text};
use crate::text::{join, join_with, law_parts_are_joined, starts_with, str_eq, texts};
use vstd::prelude::*;
use vstd::string::*;
use vstd::utf8::encode_utf8;

verus! {

/// A model: the name that clients use, and the name that it has upstream.
#[derive(Clone, Debug)]
pub struct ModelAlias {
    pub public_id: &'static str,
    pub upstream_id: &'static str,
}

/// Both names of each model.
pub open spec fn alias_names(models: Seq<ModelAlias>) -> Seq<(Seq<char>, Seq<char>)> {
    models.map_values(|m: ModelAlias| (m.public_id@, m.upstream_id@))
}

/// The models that may be asked for.
pub open spec fn plan_aliases() -> Seq<(Seq<char>, Seq<char>)> {
    seq![
        ("zai-coding-plan/glm-5"@, "glm-5"@),
        ("zai-coding-plan/glm-5-turbo"@, "glm-5-turbo"@),
        ("zai-coding-plan/glm-4.7"@, "glm-4.7"@),
        ("zai-coding-plan/glm-4.7-flash"@, "glm-4.7-flash"@),
        ("zai-coding-plan/glm-4.7-flashx"@, "glm-4.7-flashx"@),
    ]
}

/// The models that may be asked for.
pub fn allowed_models() -> (r: Vec<ModelAlias>)
    ensures
        alias_names(r@) == plan_aliases(),
{
    let r = vec![
        ModelAlias { public_id: "zai-coding-plan/glm-5", upstream_id: "glm-5" },
        ModelAlias { public_id: "zai-coding-plan/glm-5-turbo", upstream_id: "glm-5-turbo" },
        ModelAlias { public_id: "zai-coding-plan/glm-4.7", upstream_id: "glm-4.7" },
        ModelAlias { public_id: "zai-coding-plan/glm-4.7-flash", upstream_id: "glm-4.7-flash" },
        ModelAlias { public_id: "zai-coding-plan/glm-4.7-flashx", upstream_id: "glm-4.7-flashx" },
    ];
    proof {
        assert(alias_names(r@) =~= plan_aliases());
    }
    r
}

/// The upstream name of the first model with the given public name.
pub open spec fn upstream_name(aliases: Seq<(Seq<char>, Seq<char>)>, id: Seq<char>) -> Option<
    Seq<char>,
>
    decreases aliases.len(),
{
    if aliases.len() == 0 {
        None
    } else if aliases[0].0 == id {
        Some(aliases[0].1)
    } else {
        upstream_name(aliases.drop_first(), id)
    }
}

/// The first model with the given public name.
pub fn find_model<'a>(models: &'a Vec<ModelAlias>, id: &str) -> (r: Option<&'a ModelAlias>)
    ensures
        match r {
            Some(m) => m.public_id@ == id@ && upstream_name(alias_names(models@), id@) == Some(
                m.upstream_id@,
            ),
            None => upstream_name(alias_names(models@), id@) == None::<Seq<char>>,
        },
{
    let mut i: usize = 0;
    let ghost names = alias_names(models@);
    proof {
        assert(names.skip(0) =~= names);
    }
    while i < models.len()
        invariant
            i <= models@.len(),
            names == alias_names(models@),
            upstream_name(names.skip(i as int), id@) == upstream_name(names, id@),
        decreases models@.len() - i,
    {
        if str_eq(models[i].public_id, id) {
            proof {
                assert(names.skip(i as int)[0] == names[i as int]);
            }
            return Some(&models[i]);
        }
        proof {
            assert(names.skip(i as int).drop_first() =~= names.skip(i + 1));
        }
        i = i + 1;
    }
    None
}

/// The JSON text of one model.
pub open spec fn model_entry(id: Seq<char>) -> Seq<char> {
    "{\"id\":\""@ + escape(id)
        + "\",\"object\":\"model\",\"created\":0,\"owned_by\":\"zai-coding-plan-proxy\"}"@
}

/// The JSON text of one model.
fn make_model_entry(id: &str) -> (r: String)
    ensures
        r@ == model_entry(id@),
{
    let mut out = String::new();
    out.append("{\"id\":\"");
    out.append(escape_json(id).as_str());
    out.append("\",\"object\":\"model\",\"created\":0,\"owned_by\":\"zai-coding-plan-proxy\"}");
    proof {
        assert(out@ =~= model_entry(id@));
    }
    out
}

/// The JSON text of the list of models.
pub open spec fn models_payload(aliases: Seq<(Seq<char>, Seq<char>)>) -> Seq<char> {
    "{\"object\":\"list\",\"data\":["@ + join_with(
        aliases.map_values(|a: (Seq<char>, Seq<char>)| model_entry(a.0)),
        ","@,
    ) + "]}"@
}

/// The JSON text of the list of models.
pub fn build_models_payload(models: &Vec<ModelAlias>) -> (r: String)
    ensures
        r@ == models_payload(alias_names(models@)),
{
    let ghost entries = alias_names(models@).map_values(
        |a: (Seq<char>, Seq<char>)| model_entry(a.0),
    );
    let mut parts: Vec<String> = Vec::new();
    let mut i: usize = 0;
    while i < models.len()
        invariant
            i <= models@.len(),
            entries == alias_names(models@).map_values(
                |a: (Seq<char>, Seq<char>)| model_entry(a.0),
            ),
            texts(parts@) == entries.take(i as int),
        decreases models@.len() - i,
    {
        let ghost before = texts(parts@);
        push_text(&mut parts, make_model_entry(models[i].public_id));
        proof {
            assert(entries.take(i + 1) =~= before.push(entries[i as int]));
        }
        i = i + 1;
    }
    proof {
        assert(entries.take(i as int) =~= entries);
    }
    let mut out = String::new();
    out.append("{\"object\":\"list\",\"data\":[");
    out.append(join(&parts, ",").as_str());
    out.append("]}");
    proof {
        assert(out@ =~= models_payload(alias_names(models@)));
    }
    out
}

/// The answer to the question for the models.
pub fn models_reply(models: &Vec<ModelAlias>) -> (r: Reply)
    ensures
        r@ == (200u16, models_payload(alias_names(models@))),
{
    Reply { status: 200, body: build_models_payload(models) }
}

/// The answer to the question for one model.
pub open spec fn model_answer(aliases: Seq<(Seq<char>, Seq<char>)>, id: Seq<char>) -> (
    u16,
    Seq<char>,
) {
    if upstream_name(aliases, id) is Some {
        (200, model_entry(id))
    } else {
        (404, error_body("model_not_found"@, "model not found"@))
    }
}

/// The answer to the question for one model.
pub fn model_reply(models: &Vec<ModelAlias>, id: &str) -> (r: Reply)
    ensures
        r@ == model_answer(alias_names(models@), id@),
{
    match find_model(models, id) {
        Some(m) => Reply { status: 200, body: make_model_entry(m.public_id) },
        None => error_reply(404, "model_not_found", "model not found"),
    }
}

/// The answer to the question for the model whose name, percent-encoded, is given.
pub fn encoded_model_reply(models: &Vec<ModelAlias>, encoded_id: &str) -> (r: Reply)
    requires
        pairs_are_whole(encode_utf8(encoded_id@)),
    ensures
        r@ == model_answer(alias_names(models@), percent_text(encoded_id@)),
{
    model_reply(models, percent_decode(encoded_id).as_str())
}

/// Each model is asked for under its upstream name, put after the name of the plan.
pub proof fn law_alias_is_prefixed_name(i: int)
    requires
        0 <= i < plan_aliases().len(),
    ensures
        plan_aliases()[i].0 == "zai-coding-plan/"@ + plan_aliases()[i].1,
{
    reveal_strlit("zai-coding-plan/");
    reveal_strlit("zai-coding-plan/glm-5");
    reveal_strlit("zai-coding-plan/glm-5-turbo");
    reveal_strlit("zai-coding-plan/glm-4.7");
    reveal_strlit("zai-coding-plan/glm-4.7-flash");
    reveal_strlit("zai-coding-plan/glm-4.7-flashx");
    reveal_strlit("glm-5");
    reveal_strlit("glm-5-turbo");
    reveal_strlit("glm-4.7");
    reveal_strlit("glm-4.7-flash");
    reveal_strlit("glm-4.7-flashx");
    assert("zai-coding-plan/glm-5"@ =~= "zai-coding-plan/"@ + "glm-5"@);
    assert("zai-coding-plan/glm-5-turbo"@ =~= "zai-coding-plan/"@ + "glm-5-turbo"@);
    assert("zai-coding-plan/glm-4.7"@ =~= "zai-coding-plan/"@ + "glm-4.7"@);
    assert("zai-coding-plan/glm-4.7-flash"@ =~= "zai-coding-plan/"@ + "glm-4.7-flash"@);
    assert("zai-coding-plan/glm-4.7-flashx"@ =~= "zai-coding-plan/"@ + "glm-4.7-flashx"@);
}

/// A list that holds a name has an upstream name for it, and that of one of its own entries; for a
/// name that it does not hold it has none.
proof fn lemma_upstream_name(aliases: Seq<(Seq<char>, Seq<char>)>, id: Seq<char>)
    ensures
        match upstream_name(aliases, id) {
            Some(name) => exists|i: int|
                0 <= i < aliases.len() && #[trigger] aliases[i] == (id, name),
            None => forall|i: int| 0 <= i < aliases.len() ==> (#[trigger] aliases[i]).0 != id,
        },
    decreases aliases.len(),
{
    if aliases.len() == 0 {
    } else if aliases[0].0 == id {
        assert(aliases[0] == (id, aliases[0].1));
    } else {
        let rest = aliases.drop_first();
        lemma_upstream_name(rest, id);
        match upstream_name(rest, id) {
            Some(name) => {
                let i = choose|i: int| 0 <= i < rest.len() && #[trigger] rest[i] == (id, name);
                assert(aliases[i + 1] == (id, name));
            },
            None => {
                assert forall|i: int| 0 <= i < aliases.len() implies (#[trigger] aliases[i]).0
                    != id by {
                    if i > 0 {
                        assert(rest[i - 1] == aliases[i]);
                    }
                }
            },
        }
    }
}

/// A model is let through just where its name is the name of the plan followed by the name that
/// goes upstream; no other name is let through.
pub proof fn law_only_plan_models_pass(id: Seq<char>)
    ensures
        match upstream_name(plan_aliases(), id) {
            Some(name) => id == "zai-coding-plan/"@ + name && plan_aliases().contains((id, name)),
            None => forall|i: int|
                0 <= i < plan_aliases().len() ==> (#[trigger] plan_aliases()[i]).0 != id,
        },
{
    lemma_upstream_name(plan_aliases(), id);
    if let Some(name) = upstream_name(plan_aliases(), id) {
        let i = choose|i: int|
            0 <= i < plan_aliases().len() && #[trigger] plan_aliases()[i] == (id, name);
        law_alias_is_prefixed_name(i);
    }
}

/// A model is listed just where it is asked for by its public name; of several with one name the
/// first counts. The question for a model that is listed is answered with 200 and an entry that
/// names it, and for any other with 404.
pub proof fn law_listed_models_are_found(
    aliases: Seq<(Seq<char>, Seq<char>)>,
    id: Seq<char>,
    i: int,
)
    ensures
        0 <= i < aliases.len() && aliases[i].0 == id && (forall|j: int|
            0 <= j < i ==> (#[trigger] aliases[j]).0 != id) ==> upstream_name(aliases, id) == Some(
            aliases[i].1,
        ),
        (forall|j: int| 0 <= j < aliases.len() ==> (#[trigger] aliases[j]).0 != id)
            <==> upstream_name(aliases, id) is None,
        model_answer(aliases, id).0 == 200 <==> upstream_name(aliases, id) is Some,
        model_answer(aliases, id).0 == 404 <==> upstream_name(aliases, id) is None,
    decreases aliases.len(),
{
    lemma_upstream_name(aliases, id);
    if 0 <= i < aliases.len() && aliases[i].0 == id && forall|j: int|
        0 <= j < i ==> (#[trigger] aliases[j]).0 != id {
        if i > 0 {
            let rest = aliases.drop_first();
            assert(rest[i - 1] == aliases[i]);
            assert forall|j: int| 0 <= j < i - 1 implies (#[trigger] rest[j]).0 != id by {
                assert(rest[j] == aliases[j + 1]);
            }
            law_listed_models_are_found(rest, id, i - 1);
        }
    }
}

/// The entry of a model begins with its name, escaped, and the list of models holds the entry of
/// each, in their order, and nothing else.
#[verifier::rlimit(50)]
pub proof fn law_models_are_listed(
    aliases: Seq<(Seq<char>, Seq<char>)>,
    alias: (Seq<char>, Seq<char>),
)
    ensures
        ({
            let start = "{\"id\":\""@ + escape(alias.0) + "\""@;
            let list = models_payload(aliases);
            let more = models_payload(aliases.push(alias));
            &&& starts_with(model_entry(alias.0), start)
            &&& model_answer(aliases.push(alias), alias.0) == (200u16, model_entry(alias.0))
            &&& models_payload(Seq::empty()) == "{\"object\":\"list\",\"data\":[]}"@
            &&& aliases.len() == 0 ==> more == "{\"object\":\"list\",\"data\":["@ + model_entry(
                alias.0,
            ) + "]}"@
            &&& aliases.len() > 0 ==> list.len() >= 2 && more == list.take(list.len() - 2) + ","@
                + model_entry(alias.0) + "]}"@
        }),
{
    reveal_strlit("]}");
    reveal_strlit("\"");
    reveal_strlit("{\"object\":\"list\",\"data\":[");
    reveal_strlit("{\"object\":\"list\",\"data\":[]}");
    reveal_strlit("\",\"object\":\"model\",\"created\":0,\"owned_by\":\"zai-coding-plan-proxy\"}");
    let entry = |a: (Seq<char>, Seq<char>)| model_entry(a.0);
    let start = "{\"id\":\""@ + escape(alias.0) + "\""@;
    assert(model_entry(alias.0).subrange(0, start.len() as int) =~= start);
    let none = Seq::<(Seq<char>, Seq<char>)>::empty();
    assert(none.map_values(entry) =~= Seq::<Seq<char>>::empty());
    law_parts_are_joined(aliases.map_values(entry), model_entry(alias.0), ","@);
    assert(models_payload(none) =~= "{\"object\":\"list\",\"data\":[]}"@);
    assert(aliases.push(alias).map_values(entry) =~= aliases.map_values(entry).push(
        model_entry(alias.0),
    ));
    if aliases.len() == 0 {
        assert(aliases.push(alias).map_values(entry) =~= seq![model_entry(alias.0)]);
    } else {
        let list = models_payload(aliases);
        let open = "{\"object\":\"list\",\"data\":["@;
        assert(list.take(list.len() - 2) =~= open + join_with(aliases.map_values(entry), ","@));
        assert(models_payload(aliases.push(alias)) =~= list.take(list.len() - 2) + ","@
            + model_entry(alias.0) + "]}"@);
    }
    lemma_upstream_name(aliases.push(alias), alias.0);
    assert(aliases.push(alias)[aliases.len() as int] == alias);
}

} // verus!
