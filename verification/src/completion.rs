//! A chat completion turned into a message of Anthropic's API.
use crate::anthropic::{
    assistant_message, is_block, push_json, text_blocks, tool_call, tool_calls, tool_use_id,
};
use crate::codec::{json_parse, json_text, parsed};
use crate::ids::IdSource;
use crate::json::{no_fields, number, text_tree, tree_of, trees, Fields, Json, JsonTree};
use crate::text::{is_blank, join_with, or_empty, or_text, str_eq, trim};
use vstd::prelude::*;
use vstd::string::*;

verus! {

/// Why a message ended, in the words of Anthropic's API.
pub open spec fn stop_reason(finish_reason: Seq<char>) -> Seq<char> {
    if finish_reason == "tool_calls"@ {
        "tool_use"@
    } else if finish_reason == "length"@ {
        "max_tokens"@
    } else {
        "end_turn"@
    }
}

/// Why a message ended, in the words of Anthropic's API.
pub fn map_anthropic_stop_reason(finish_reason: &str) -> (r: &'static str)
    ensures
        r@ == stop_reason(finish_reason@),
{
    if str_eq(finish_reason, "tool_calls") {
        "tool_use"
    } else if str_eq(finish_reason, "length") {
        "max_tokens"
    } else {
        "end_turn"
    }
}

/// The first choice of a completion.
pub open spec fn first_choice(openai: JsonTree) -> Option<JsonTree> {
    let choices = openai.items_at("choices"@);
    if choices.len() > 0 {
        Some(choices[0])
    } else {
        None
    }
}

/// The first choice of a completion.
fn find_first_choice(openai: &Json) -> (r: Option<&Json>)
    ensures
        tree_of(r) == first_choice(openai.tree()),
{
    match openai.array_at("choices") {
        Some(choices) => if choices.len() > 0 {
            proof {
                assert(trees(choices@)[0] == choices@[0].tree());
            }
            Some(&choices[0])
        } else {
            None
        },
        None => None,
    }
}

/// The message of the first choice; an empty object where there is none.
pub open spec fn choice_message(openai: JsonTree) -> JsonTree {
    match first_choice(openai) {
        Some(choice) => match choice.get("message"@) {
            Some(message) => message,
            None => JsonTree::Object(no_fields()),
        },
        None => JsonTree::Object(no_fields()),
    }
}

/// Why the first choice ended; `stop` where it does not say.
pub open spec fn choice_finish_reason(openai: JsonTree) -> Seq<char> {
    match first_choice(openai) {
        Some(choice) => or_text(choice.str_at("finish_reason"@), "stop"@),
        None => "stop"@,
    }
}

/// A text block.
pub open spec fn text_block(text: Seq<char>) -> JsonTree {
    JsonTree::Object(
        no_fields().insert("type"@, text_tree("text"@)).insert("text"@, text_tree(text)),
    )
}

/// The text in a field of the function that a call names.
pub open spec fn function_text(call: JsonTree, key: Seq<char>) -> Option<Seq<char>> {
    match call.get("function"@) {
        Some(function) => function.str_at(key),
        None => None,
    }
}

/// The text in a field of the function that a call names.
fn find_function_text<'a>(call: &'a Json, key: &str) -> (r: Option<&'a str>)
    ensures
        crate::json::str_view(r) == function_text(call.tree(), key@),
{
    match call.get("function") {
        Some(function) => function.str_at(key),
        None => None,
    }
}

/// The arguments of a call as a value; an empty object where they are missing or no JSON.
pub open spec fn call_input(call: JsonTree) -> JsonTree {
    match function_text(call, "arguments"@) {
        Some(text) => match json_parse(text) {
            Ok(input) => input,
            Err(_) => JsonTree::Object(no_fields()),
        },
        None => JsonTree::Object(no_fields()),
    }
}

/// The tool use that a call becomes.
pub open spec fn tool_use(call: JsonTree) -> JsonTree {
    JsonTree::Object(
        no_fields().insert("type"@, text_tree("tool_use"@)).insert(
            "id"@,
            text_tree(or_empty(call.str_at("id"@))),
        ).insert("name"@, text_tree(or_text(function_text(call, "name"@), "tool"@))).insert(
            "input"@,
            call_input(call),
        ),
    )
}

/// The tool use that a call becomes.
fn make_tool_use(call: &Json) -> (r: Json)
    ensures
        r.tree() == tool_use(call.tree()),
{
    let input = match find_function_text(call, "arguments") {
        Some(text) => match Json::parse(text) {
            Ok(value) => value,
            Err(_) => Fields::new().done(),
        },
        None => Fields::new().done(),
    };
    let id = match call.str_at("id") {
        Some(s) => s.to_owned(),
        None => String::new(),
    };
    let name = match find_function_text(call, "name") {
        Some(s) => s,
        None => "tool",
    };
    let mut f = Fields::new();
    f.put("type", Json::text("tool_use"));
    f.put("id", Json::Str(id));
    f.put("name", Json::text(name));
    f.put("input", input);
    f.done()
}

/// The content of the message that a chat message becomes: its text, unless it is empty, then its
/// calls as tool uses.
pub open spec fn message_content(message: JsonTree) -> Seq<JsonTree> {
    let text = or_empty(message.str_at("content"@));
    let lead: Seq<JsonTree> = if text.len() > 0 {
        seq![text_block(text)]
    } else {
        Seq::empty()
    };
    lead + message.items_at("tool_calls"@).map_values(|c: JsonTree| tool_use(c))
}

/// The content of the message that a chat message becomes.
fn make_content(message: &Json) -> (r: Vec<Json>)
    ensures
        trees(r@) == message_content(message.tree()),
{
    let text = match message.str_at("content") {
        Some(s) => s.to_owned(),
        None => String::new(),
    };
    let mut content: Vec<Json> = Vec::new();
    if !text.as_str().is_empty() {
        let mut f = Fields::new();
        f.put("type", Json::text("text"));
        f.put("text", Json::Str(text));
        push_json(&mut content, f.done());
    }
    let ghost lead = trees(content@);
    let ghost calls = message.tree().items_at("tool_calls"@);
    let ghost uses = calls.map_values(|c: JsonTree| tool_use(c));
    proof {
        assert(lead =~= lead + uses.take(0));
        assert(lead + uses =~= message_content(message.tree()));
    }
    match message.array_at("tool_calls") {
        Some(items) => {
            let mut i: usize = 0;
            while i < items.len()
                invariant
                    i <= items@.len(),
                    calls == trees(items@),
                    uses == calls.map_values(|c: JsonTree| tool_use(c)),
                    trees(content@) == lead + uses.take(i as int),
                decreases items@.len() - i,
            {
                push_json(&mut content, make_tool_use(&items[i]));
                proof {
                    assert(trees(content@) =~= lead + uses.take(i + 1));
                }
                i = i + 1;
            }
            proof {
                assert(uses.take(i as int) =~= uses);
            }
        },
        None => {
            proof {
                assert(uses.take(0) =~= uses);
            }
        },
    }
    content
}

/// A token count of a completion; 0 where it is missing.
pub open spec fn usage_count(openai: JsonTree, key: Seq<char>) -> u64 {
    match openai.get("usage"@) {
        Some(usage) => match usage.u64_at(key) {
            Some(n) => n,
            None => 0,
        },
        None => 0,
    }
}

/// A token count of a completion; 0 where it is missing.
pub(crate) fn find_usage_count(openai: &Json, key: &str) -> (r: u64)
    ensures
        r == usage_count(openai.tree(), key@),
{
    match openai.get("usage") {
        Some(usage) => match usage.u64_at(key) {
            Some(n) => n,
            None => 0,
        },
        None => 0,
    }
}

/// Two token counts.
pub open spec fn token_counts(input: u64, output: u64) -> JsonTree {
    JsonTree::Object(
        no_fields().insert("input_tokens"@, number(input)).insert("output_tokens"@, number(output)),
    )
}

/// The identifier of a completion, or a new one where it has none.
pub open spec fn completion_id(openai: JsonTree, ids: IdSource) -> (Seq<char>, IdSource) {
    match openai.str_at("id"@) {
        Some(id) => (id, ids),
        None => (ids.id("msg"@), ids.next()),
    }
}

/// The message that a completion becomes, and where the next identifier comes from.
pub open spec fn anthropic_message(
    openai: JsonTree,
    requested_model: Seq<char>,
    ids: IdSource,
) -> (JsonTree, IdSource) {
    let (id, ids1) = completion_id(openai, ids);
    let model = if trim(requested_model).len() == 0 {
        "glm"@
    } else {
        requested_model
    };
    (
        JsonTree::Object(
            no_fields().insert("id"@, text_tree(id)).insert("type"@, text_tree("message"@)).insert(
                "role"@,
                text_tree("assistant"@),
            ).insert("model"@, text_tree(model)).insert(
                "content"@,
                JsonTree::Array(message_content(choice_message(openai))),
            ).insert(
                "stop_reason"@,
                text_tree(stop_reason(choice_finish_reason(openai))),
            ).insert("stop_sequence"@, JsonTree::Null).insert(
                "usage"@,
                token_counts(
                    usage_count(openai, "prompt_tokens"@),
                    usage_count(openai, "completion_tokens"@),
                ),
            ),
        ),
        ids1,
    )
}

/// Two token counts.
pub(crate) fn make_token_counts(input: u64, output: u64) -> (r: Json)
    ensures
        r.tree() == token_counts(input, output),
{
    let mut f = Fields::new();
    f.put("input_tokens", Json::unsigned(input));
    f.put("output_tokens", Json::unsigned(output));
    f.done()
}

/// The message that a completion becomes, under the name of the model that was asked for.
pub fn convert_openai_response_to_anthropic(
    openai: &Json,
    requested_model: &str,
    ids: &mut IdSource,
) -> (r: Json)
    ensures
        r.tree() == anthropic_message(openai.tree(), requested_model@, *old(ids)).0,
        *final(ids) == anthropic_message(openai.tree(), requested_model@, *old(ids)).1,
{
    let choice = find_first_choice(openai);
    let message = match choice {
        Some(c) => match c.get("message") {
            Some(m) => m.copy(),
            None => Fields::new().done(),
        },
        None => Fields::new().done(),
    };
    let finish_reason = match choice {
        Some(c) => match c.str_at("finish_reason") {
            Some(s) => s,
            None => "stop",
        },
        None => "stop",
    };
    let content = make_content(&message);
    let id = match openai.str_at("id") {
        Some(s) => s.to_owned(),
        None => ids.take_id("msg"),
    };
    let model = if is_blank(requested_model) {
        "glm"
    } else {
        requested_model
    };
    let input = find_usage_count(openai, "prompt_tokens");
    let output = find_usage_count(openai, "completion_tokens");
    let mut f = Fields::new();
    f.put("id", Json::Str(id));
    f.put("type", Json::text("message"));
    f.put("role", Json::text("assistant"));
    f.put("model", Json::text(model));
    f.put("content", Json::array(content));
    f.put("stop_reason", Json::text(map_anthropic_stop_reason(finish_reason)));
    f.put("stop_sequence", Json::Null);
    f.put("usage", make_token_counts(input, output));
    f.done()
}

/// A tool use that is turned into a call and back comes out with the same identifier, name and
/// input, where the text of the input reads back. Its own identifier has to be more than blanks:
/// otherwise it gets a new one.
pub proof fn law_tool_use_comes_back(
    block: JsonTree,
    ids: IdSource,
    id: Seq<char>,
    name: Seq<char>,
    input: JsonTree,
)
    requires
        is_block(block, "tool_use"@),
        block.str_at("id"@) == Some(id),
        trim(id).len() > 0,
        block.str_at("name"@) == Some(name),
        block.get("input"@) == Some(input),
        json_parse(json_text(input)) == parsed(input),
    ensures
        tool_use_id(block, ids) == (id, ids),
        tool_use(tool_call(block, id)).str_at("type"@) == Some("tool_use"@),
        tool_use(tool_call(block, id)).str_at("id"@) == Some(id),
        tool_use(tool_call(block, id)).str_at("name"@) == Some(name),
        tool_use(tool_call(block, id)).get("input"@) == Some(input),
{
    reveal_strlit("id");
    reveal_strlit("type");
    reveal_strlit("name");
    reveal_strlit("input");
    reveal_strlit("function");
    reveal_strlit("arguments");
    assert("id"@.len() == 2);
    assert("type"@.len() == 4);
    assert("name"@.len() == 4);
    assert("type"@[0] == 't' && "name"@[0] == 'n');
    assert("input"@.len() == 5);
    assert("function"@.len() == 8);
    assert("arguments"@.len() == 9);
    let call = tool_call(block, id);
    assert(call.str_at("id"@) == Some(id));
    assert(function_text(call, "name"@) == Some(name));
    assert(function_text(call, "arguments"@) == Some(json_text(input)));
    assert(call_input(call) == input);
}

/// A tool use: its identifier, its name and its input.
pub struct ToolUse {
    pub id: Seq<char>,
    pub name: Seq<char>,
    pub input: JsonTree,
}

/// Whether a tool use keeps its identifier, and the text of its input reads back.
pub open spec fn is_sound(u: ToolUse) -> bool {
    trim(u.id).len() > 0 && json_parse(json_text(u.input)) == parsed(u.input)
}

/// The block of a tool use.
pub open spec fn tool_block(u: ToolUse) -> JsonTree {
    JsonTree::Object(
        no_fields().insert("type"@, text_tree("tool_use"@)).insert("id"@, text_tree(u.id)).insert(
            "name"@,
            text_tree(u.name),
        ).insert("input"@, u.input),
    )
}

/// The blocks of a turn: its texts, then its tool uses.
pub open spec fn turn_blocks(told: Seq<Seq<char>>, uses: Seq<ToolUse>) -> Seq<JsonTree> {
    told.map_values(|t: Seq<char>| text_block(t)) + uses.map_values(|u: ToolUse| tool_block(u))
}

/// What a text block and the block of a tool use hold.
proof fn lemma_blocks(t: Seq<char>, u: ToolUse)
    ensures
        is_block(text_block(t), "text"@),
        !is_block(text_block(t), "tool_use"@),
        text_block(t).str_at("text"@) == Some(t),
        is_block(tool_block(u), "tool_use"@),
        !is_block(tool_block(u), "text"@),
        tool_block(u).str_at("id"@) == Some(u.id),
        tool_block(u).str_at("name"@) == Some(u.name),
        tool_block(u).get("input"@) == Some(u.input),
{
    reveal_strlit("id");
    reveal_strlit("type");
    reveal_strlit("text");
    reveal_strlit("tool_use");
    reveal_strlit("name");
    reveal_strlit("input");
    assert("id"@.len() == 2 && "type"@.len() == 4 && "text"@.len() == 4);
    assert("name"@.len() == 4 && "input"@.len() == 5 && "tool_use"@.len() == 8);
    assert("type"@[1] == 'y' && "text"@[1] == 'e' && "name"@[1] == 'a');
}

/// What the blocks of a turn become.
proof fn lemma_turn(told: Seq<Seq<char>>, uses: Seq<ToolUse>, ids: IdSource)
    requires
        forall|i: int| 0 <= i < uses.len() ==> is_sound(#[trigger] uses[i]),
    ensures
        text_blocks(turn_blocks(told, uses)) == told,
        tool_calls(turn_blocks(told, uses), ids) == (
            uses.map_values(|u: ToolUse| tool_call(tool_block(u), u.id)),
            ids,
        ),
    decreases told.len() + uses.len(),
{
    let blocks = turn_blocks(told, uses);
    let calls = uses.map_values(|u: ToolUse| tool_call(tool_block(u), u.id));
    if uses.len() > 0 {
        let fewer = uses.drop_last();
        let u = uses.last();
        assert forall|i: int| 0 <= i < fewer.len() implies is_sound(#[trigger] fewer[i]) by {
            assert(fewer[i] == uses[i]);
        }
        lemma_turn(told, fewer, ids);
        lemma_blocks(Seq::empty(), u);
        assert(is_sound(uses[uses.len() - 1]));
        assert(blocks.drop_last() =~= turn_blocks(told, fewer));
        assert(blocks.last() == tool_block(u));
        assert(calls =~= fewer.map_values(|w: ToolUse| tool_call(tool_block(w), w.id)).push(
            tool_call(tool_block(u), u.id),
        ));
    } else if told.len() > 0 {
        let fewer = told.drop_last();
        lemma_turn(fewer, uses, ids);
        lemma_blocks(told.last(), arbitrary());
        assert(blocks.drop_last() =~= turn_blocks(fewer, uses));
        assert(blocks.last() == text_block(told.last()));
        assert(told =~= fewer.push(told.last()));
    } else {
        assert(text_blocks(blocks) =~= told);
        assert(tool_calls(blocks, ids).0 =~= calls);
    }
}

/// A turn of an assistant that is sent upstream and comes back as a completion has the same content:
/// its texts, put together in one block, and its tool uses, with the identifiers, names and inputs
/// that they had. A turn of one text, or none, comes back block for block.
#[verifier::rlimit(50)]
pub proof fn law_turn_comes_back(
    told: Seq<Seq<char>>,
    uses: Seq<ToolUse>,
    ids: IdSource,
    openai: JsonTree,
    requested_model: Seq<char>,
    later: IdSource,
)
    requires
        forall|i: int| 0 <= i < uses.len() ==> is_sound(#[trigger] uses[i]),
        choice_message(openai) == assistant_message(
            Some(JsonTree::Array(turn_blocks(told, uses))),
            ids,
        ).0,
    ensures
        ({
            let text = join_with(told, "\n\n"@);
            let content = anthropic_message(openai, requested_model, later).0.items_at("content"@);
            let lead: Seq<Seq<char>> = if text.len() > 0 {
                seq![text]
            } else {
                Seq::empty()
            };
            &&& content == turn_blocks(lead, uses)
            &&& told.len() == 1 && told[0].len() > 0 || told.len() == 0 ==> content == turn_blocks(
                told,
                uses,
            )
        }),
{
    let blocks = turn_blocks(told, uses);
    let content = Some(JsonTree::Array(blocks));
    let message = assistant_message(content, ids).0;
    let text = join_with(told, "\n\n"@);
    let calls = uses.map_values(|u: ToolUse| tool_call(tool_block(u), u.id));
    lemma_turn(told, uses, ids);
    reveal_strlit("role");
    reveal_strlit("content");
    reveal_strlit("tool_calls");
    reveal_strlit("stop_reason");
    reveal_strlit("stop_sequence");
    reveal_strlit("usage");
    assert("role"@.len() == 4 && "content"@.len() == 7 && "tool_calls"@.len() == 10);
    assert("stop_reason"@.len() == 11 && "stop_sequence"@.len() == 13 && "usage"@.len() == 5);
    assert(message.str_at("content"@) == Some(text));
    assert(message.items_at("tool_calls"@) =~= calls);
    let back = calls.map_values(|c: JsonTree| tool_use(c));
    assert forall|i: int| 0 <= i < uses.len() implies #[trigger] back[i] == tool_block(uses[i]) by {
        let u = uses[i];
        lemma_blocks(Seq::empty(), u);
        assert(is_sound(u));
        lemma_tool_use_again(u);
    }
    assert(back =~= uses.map_values(|u: ToolUse| tool_block(u)));
    let lead: Seq<Seq<char>> = if text.len() > 0 {
        seq![text]
    } else {
        Seq::empty()
    };
    assert(message_content(message) =~= turn_blocks(lead, uses));
    if told.len() == 1 && told[0].len() > 0 || told.len() == 0 {
        assert(lead =~= told);
    }
}

/// The call of a tool use becomes the block of that tool use.
proof fn lemma_tool_use_again(u: ToolUse)
    requires
        is_sound(u),
    ensures
        tool_use(tool_call(tool_block(u), u.id)) == tool_block(u),
{
    lemma_blocks(Seq::empty(), u);
    reveal_strlit("id");
    reveal_strlit("type");
    reveal_strlit("name");
    reveal_strlit("function");
    reveal_strlit("arguments");
    assert("id"@.len() == 2 && "type"@.len() == 4 && "name"@.len() == 4);
    assert("function"@.len() == 8 && "arguments"@.len() == 9);
    let call = tool_call(tool_block(u), u.id);
    assert(call.str_at("id"@) == Some(u.id));
    assert(function_text(call, "name"@) == Some(u.name));
    assert(function_text(call, "arguments"@) == Some(json_text(u.input)));
    assert(call_input(call) == u.input);
}

/// The reason why a completion ended is told in the words of Anthropic's API.
pub proof fn law_stop_reason_is_told(openai: JsonTree, requested_model: Seq<char>, ids: IdSource)
    ensures
        ({
            let choices = openai.items_at("choices"@);
            let told = anthropic_message(openai, requested_model, ids).0.str_at("stop_reason"@);
            &&& choices.len() > 0 ==> {
                let reason = choices[0].str_at("finish_reason"@);
                &&& reason == Some("tool_calls"@) <==> told == Some("tool_use"@)
                &&& reason == Some("length"@) <==> told == Some("max_tokens"@)
                &&& reason != Some("tool_calls"@) && reason != Some("length"@) <==> told == Some(
                    "end_turn"@,
                )
            }
            &&& choices.len() == 0 ==> told == Some("end_turn"@)
        }),
{
    lemma_message_fields(openai, requested_model, ids);
    reveal_strlit("stop");
    reveal_strlit("tool_calls");
    reveal_strlit("length");
    reveal_strlit("tool_use");
    reveal_strlit("max_tokens");
    reveal_strlit("end_turn");
    assert("stop"@.len() == 4 && "tool_calls"@.len() == 10 && "length"@.len() == 6);
    assert("tool_use"@.len() == 8 && "max_tokens"@.len() == 10 && "end_turn"@.len() == 8);
    assert("tool_calls"@[0] == 't' && "max_tokens"@[0] == 'm' && "tool_use"@[0] == 't');
    assert("end_turn"@[0] == 'e');
}

/// The fields of the message that a completion becomes.
proof fn lemma_message_fields(openai: JsonTree, requested_model: Seq<char>, ids: IdSource)
    ensures
        ({
            let message = anthropic_message(openai, requested_model, ids).0;
            &&& message.str_at("id"@) == Some(completion_id(openai, ids).0)
            &&& message.str_at("type"@) == Some("message"@)
            &&& message.str_at("role"@) == Some("assistant"@)
            &&& message.str_at("model"@) == Some(
                if trim(requested_model).len() == 0 {
                    "glm"@
                } else {
                    requested_model
                },
            )
            &&& message.get("content"@) == Some(
                JsonTree::Array(message_content(choice_message(openai))),
            )
            &&& message.str_at("stop_reason"@) == Some(stop_reason(choice_finish_reason(openai)))
            &&& message.get("stop_sequence"@) == Some(JsonTree::Null)
            &&& message.get("usage"@) == Some(
                token_counts(
                    usage_count(openai, "prompt_tokens"@),
                    usage_count(openai, "completion_tokens"@),
                ),
            )
        }),
{
    reveal_strlit("id");
    reveal_strlit("type");
    reveal_strlit("role");
    reveal_strlit("model");
    reveal_strlit("content");
    reveal_strlit("stop_reason");
    reveal_strlit("stop_sequence");
    reveal_strlit("usage");
    assert("id"@.len() == 2 && "type"@.len() == 4 && "role"@.len() == 4 && "model"@.len() == 5);
    assert("content"@.len() == 7 && "stop_reason"@.len() == 11 && "stop_sequence"@.len() == 13);
    assert("usage"@.len() == 5 && "type"@[0] == 't' && "role"@[0] == 'r' && "model"@[0] == 'm');
    assert("usage"@[0] == 'u');
}

/// The message that a completion becomes is that of an assistant, under the identifier of the
/// completion and the name of the model that was asked for. Its tokens are those that the completion
/// counts: what was put in, and what was put out.
pub proof fn law_completion_is_accounted_for(
    openai: JsonTree,
    requested_model: Seq<char>,
    ids: IdSource,
    usage: JsonTree,
    id: Seq<char>,
    n: u64,
)
    ensures
        ({
            let message = anthropic_message(openai, requested_model, ids).0;
            &&& message.str_at("type"@) == Some("message"@)
            &&& message.str_at("role"@) == Some("assistant"@)
            &&& message.get("stop_sequence"@) == Some(JsonTree::Null)
            &&& trim(requested_model).len() > 0 ==> message.str_at("model"@) == Some(
                requested_model,
            )
            &&& trim(requested_model).len() == 0 ==> message.str_at("model"@) == Some("glm"@)
            &&& openai.str_at("id"@) == Some(id) ==> message.str_at("id"@) == Some(id)
                && anthropic_message(openai, requested_model, ids).1 == ids
            &&& openai.str_at("id"@) is None ==> message.str_at("id"@) == Some(ids.id("msg"@))
                && anthropic_message(openai, requested_model, ids).1 == ids.next()
            &&& message.get("usage"@) matches Some(told)
            &&& openai.get("usage"@) == Some(usage) ==> {
                &&& usage.u64_at("prompt_tokens"@) == Some(n) ==> told.u64_at("input_tokens"@)
                    == Some(n)
                &&& usage.u64_at("prompt_tokens"@) is None ==> told.u64_at("input_tokens"@) == Some(
                    0u64,
                )
                &&& usage.u64_at("completion_tokens"@) == Some(n) ==> told.u64_at("output_tokens"@)
                    == Some(n)
                &&& usage.u64_at("completion_tokens"@) is None ==> told.u64_at("output_tokens"@)
                    == Some(0u64)
            }
            &&& openai.get("usage"@) is None ==> told.u64_at("input_tokens"@) == Some(0u64)
                && told.u64_at("output_tokens"@) == Some(0u64)
        }),
{
    lemma_message_fields(openai, requested_model, ids);
    reveal_strlit("input_tokens");
    reveal_strlit("output_tokens");
    assert("input_tokens"@.len() == 12 && "output_tokens"@.len() == 13);
}

/// What the first choice of a completion says is what the message says: a text block with its text,
/// unless that is empty, and after it a tool use for each of its calls, in their order, with the
/// identifier and the name of the call, and the value that its arguments write. Other choices do not
/// count.
#[verifier::rlimit(50)]
pub proof fn law_completion_is_told(
    openai: JsonTree,
    requested_model: Seq<char>,
    ids: IdSource,
    chat: JsonTree,
    i: int,
)
    requires
        openai.items_at("choices"@).len() > 0,
        openai.items_at("choices"@)[0].get("message"@) == Some(chat),
    ensures
        ({
            let content = anthropic_message(openai, requested_model, ids).0.items_at("content"@);
            let calls = chat.items_at("tool_calls"@);
            let lead: int = if chat.str_at("content"@) is Some && chat.str_at("content"@)->0.len()
                > 0 {
                1
            } else {
                0
            };
            &&& content.len() == lead + calls.len()
            &&& lead == 1 ==> content[0].str_at("type"@) == Some("text"@) && content[0].str_at(
                "text"@,
            ) == chat.str_at("content"@)
            &&& 0 <= i < calls.len() ==> {
                let block = content[lead + i];
                &&& block.str_at("type"@) == Some("tool_use"@)
                &&& calls[i].str_at("id"@) is Some ==> block.str_at("id"@) == calls[i].str_at("id"@)
                &&& calls[i].str_at("id"@) is None ==> block.str_at("id"@) == Some(
                    Seq::<char>::empty(),
                )
                &&& calls[i].get("function"@) is None ==> block.str_at("name"@) == Some("tool"@)
                    && block.get("input"@) == Some(JsonTree::Object(Map::empty()))
                &&& calls[i].get("function"@) matches Some(function) ==> {
                    &&& function.str_at("name"@) is Some ==> block.str_at("name"@)
                        == function.str_at("name"@)
                    &&& function.str_at("name"@) is None ==> block.str_at("name"@) == Some("tool"@)
                    &&& function.str_at("arguments"@) matches Some(text) ==> match json_parse(text) {
                        Ok(input) => block.get("input"@) == Some(input),
                        Err(_) => block.get("input"@) == Some(JsonTree::Object(Map::empty())),
                    }
                    &&& function.str_at("arguments"@) is None ==> block.get("input"@) == Some(
                        JsonTree::Object(Map::empty()),
                    )
                }
            }
        }),
{
    lemma_message_fields(openai, requested_model, ids);
    reveal_strlit("type");
    reveal_strlit("id");
    reveal_strlit("name");
    reveal_strlit("input");
    reveal_strlit("text");
    assert("type"@.len() == 4 && "id"@.len() == 2 && "name"@.len() == 4 && "input"@.len() == 5);
    assert("text"@.len() == 4 && "type"@[0] == 't' && "name"@[0] == 'n' && "type"@[1] == 'y');
    assert("text"@[1] == 'e' && "text"@[0] == 't');
    let calls = chat.items_at("tool_calls"@);
    let uses = calls.map_values(|c: JsonTree| tool_use(c));
    let content = message_content(chat);
    let text = or_empty(chat.str_at("content"@));
    if text.len() > 0 {
        assert(content[0] == text_block(text));
        if 0 <= i < calls.len() {
            assert(content[1 + i] == uses[i]);
        }
    } else if 0 <= i < calls.len() {
        assert(content[i] == uses[i]);
    }
}

/// A completion without a choice, or whose first choice has no message, becomes a message without
/// content.
pub proof fn law_empty_completion_has_no_content(
    openai: JsonTree,
    requested_model: Seq<char>,
    ids: IdSource,
)
    requires
        openai.items_at("choices"@).len() == 0 || openai.items_at("choices"@)[0].get("message"@)
            is None,
    ensures
        anthropic_message(openai, requested_model, ids).0.get("content"@) == Some(
            JsonTree::Array(Seq::empty()),
        ),
{
    lemma_message_fields(openai, requested_model, ids);
    let chat = choice_message(openai);
    assert(chat == JsonTree::Object(no_fields()));
    assert(message_content(chat) =~= Seq::<JsonTree>::empty());
}

} // verus!
