//! Messages in the shape of Anthropic's API and chat completions in the shape of OpenAI's, turned
//! into each other.
use crate::codec::json_text;
use crate::ids::IdSource;
use crate::json::{
    entries_tree, nearest_double, no_fields, number, text_tree, tree_of, trees, Fields, Json,
    JsonTree, NumberTree,
};
use crate::text::{
    is_blank, join, join_with, law_parts_are_joined, law_white_space_is_trimmed, or_empty, or_text,
    str_eq, text_view, texts, trim,
};
use vstd::prelude::*;
use vstd::string::*;

verus! {

/// The elements of an optional array; none where there is no array.
pub open spec fn items_of(t: Option<JsonTree>) -> Seq<JsonTree> {
    match t {
        Some(JsonTree::Array(items)) => items,
        _ => Seq::empty(),
    }
}

/// Puts one value at the end of a list.
pub(crate) fn push_json(list: &mut Vec<Json>, j: Json)
    ensures
        trees(final(list)@) == trees(old(list)@).push(j.tree()),
        final(list)@ == old(list)@.push(j),
{
    let ghost before = list@;
    list.push(j);
    proof {
        assert(trees(list@) =~= trees(before).push(j.tree()));
    }
}

/// Puts one string at the end of a list.
pub(crate) fn push_text(list: &mut Vec<String>, s: String)
    ensures
        texts(final(list)@) == texts(old(list)@).push(s@),
{
    let ghost before = list@;
    list.push(s);
    proof {
        assert(texts(list@) =~= texts(before).push(s@));
    }
}

/// The `text` fields of those elements that have one.
pub open spec fn text_fields(items: Seq<JsonTree>) -> Seq<Seq<char>>
    decreases items.len(),
{
    if items.len() == 0 {
        Seq::empty()
    } else {
        match items.last().str_at("text"@) {
            Some(t) => text_fields(items.drop_last()).push(t),
            None => text_fields(items.drop_last()),
        }
    }
}

/// The system prompt as one text: a string as it stands, the texts of a list with a blank line
/// between them, and anything else as JSON.
pub open spec fn system_text(system: Option<JsonTree>) -> Seq<char> {
    match system {
        Some(JsonTree::Str(s)) => s,
        Some(JsonTree::Array(items)) => join_with(text_fields(items), "\n\n"@),
        Some(other) => json_text(other),
        None => Seq::empty(),
    }
}

/// The tree of an optional value that is owned.
pub open spec fn owned_tree(j: Option<Json>) -> Option<JsonTree> {
    match j {
        Some(v) => Some(v.tree()),
        None => None,
    }
}

/// The system prompt as one text.
pub fn extract_anthropic_system_text(system: Option<Json>) -> (r: String)
    ensures
        r@ == system_text(owned_tree(system)),
{
    match system {
        None => String::new(),
        Some(value) => match &value {
            Json::Str(s) => s.clone(),
            Json::Array(items) => {
                proof {
                    crate::json::lemma_array_tree(*items);
                }
                let mut parts: Vec<String> = Vec::new();
                let mut i: usize = 0;
                proof {
                    assert(texts(parts@) =~= text_fields(trees(items@).take(0)));
                }
                while i < items.len()
                    invariant
                        i <= items@.len(),
                        texts(parts@) == text_fields(trees(items@).take(i as int)),
                    decreases items@.len() - i,
                {
                    proof {
                        assert(trees(items@).take(i + 1).drop_last() =~= trees(items@).take(
                            i as int,
                        ));
                    }
                    match items[i].str_at("text") {
                        Some(t) => push_text(&mut parts, t.to_owned()),
                        None => {},
                    }
                    i = i + 1;
                }
                proof {
                    assert(trees(items@).take(i as int) =~= trees(items@));
                }
                join(&parts, "\n\n")
            },
            _ => value.to_text(),
        },
    }
}

/// Whether a content block is of the given type.
pub open spec fn is_block(block: JsonTree, kind: Seq<char>) -> bool {
    block.str_at("type"@) == Some(kind)
}

/// Whether a content block is of the given type.
fn block_is(block: &Json, kind: &str) -> (r: bool)
    ensures
        r == is_block(block.tree(), kind@),
{
    match block.str_at("type") {
        Some(t) => str_eq(t, kind),
        None => false,
    }
}

/// The texts of the text blocks among `items`.
pub open spec fn text_blocks(items: Seq<JsonTree>) -> Seq<Seq<char>>
    decreases items.len(),
{
    if items.len() == 0 {
        Seq::empty()
    } else {
        let rest = text_blocks(items.drop_last());
        match items.last().str_at("text"@) {
            Some(t) => if is_block(items.last(), "text"@) {
                rest.push(t)
            } else {
                rest
            },
            None => rest,
        }
    }
}

/// The text of a message: a string as it stands, the text blocks of a list with a blank line
/// between them, and anything else as JSON.
pub open spec fn inline_text(content: Option<JsonTree>) -> Option<Seq<char>> {
    match content {
        Some(JsonTree::Str(s)) => Some(s),
        Some(JsonTree::Array(items)) => Some(join_with(text_blocks(items), "\n\n"@)),
        Some(other) => Some(json_text(other)),
        None => None,
    }
}

/// The text of a message.
pub fn inline_anthropic_content_to_text(content: Option<&Json>) -> (r: Option<String>)
    ensures
        text_view(r) == inline_text(tree_of(content)),
{
    match content {
        None => None,
        Some(value) => match value {
            Json::Str(s) => Some(s.clone()),
            Json::Array(items) => {
                proof {
                    crate::json::lemma_array_tree(*items);
                }
                let mut parts: Vec<String> = Vec::new();
                let mut i: usize = 0;
                proof {
                    assert(texts(parts@) =~= text_blocks(trees(items@).take(0)));
                }
                while i < items.len()
                    invariant
                        i <= items@.len(),
                        texts(parts@) == text_blocks(trees(items@).take(i as int)),
                    decreases items@.len() - i,
                {
                    proof {
                        assert(trees(items@).take(i + 1).drop_last() =~= trees(items@).take(
                            i as int,
                        ));
                    }
                    if block_is(&items[i], "text") {
                        match items[i].str_at("text") {
                            Some(t) => push_text(&mut parts, t.to_owned()),
                            None => {},
                        }
                    }
                    i = i + 1;
                }
                proof {
                    assert(trees(items@).take(i as int) =~= trees(items@));
                }
                Some(join(&parts, "\n\n"))
            },
            _ => Some(value.to_text()),
        },
    }
}

/// The text of one block of a tool result: that of a text block, and anything else as JSON.
pub open spec fn result_block_text(block: JsonTree) -> Seq<char> {
    if is_block(block, "text"@) {
        or_empty(block.str_at("text"@))
    } else {
        json_text(block)
    }
}

/// The content of a tool result as one text.
pub open spec fn result_text(content: Option<JsonTree>) -> Seq<char> {
    match content {
        Some(JsonTree::Str(s)) => s,
        Some(JsonTree::Array(items)) => join_with(
            items.map_values(|b: JsonTree| result_block_text(b)),
            "\n\n"@,
        ),
        Some(other) => json_text(other),
        None => Seq::empty(),
    }
}

/// The content of a tool result as one text: a string as it stands, the blocks of a list with a
/// blank line between them, and anything else as JSON.
pub fn block_anthropic_content_to_text(content: Option<&Json>) -> (r: String)
    ensures
        r@ == result_text(tree_of(content)),
{
    match content {
        None => String::new(),
        Some(value) => match value {
            Json::Str(s) => s.clone(),
            Json::Array(items) => {
                proof {
                    crate::json::lemma_array_tree(*items);
                }
                let ghost model = trees(items@).map_values(|b: JsonTree| result_block_text(b));
                let mut parts: Vec<String> = Vec::new();
                let mut i: usize = 0;
                while i < items.len()
                    invariant
                        i <= items@.len(),
                        model == trees(items@).map_values(|b: JsonTree| result_block_text(b)),
                        texts(parts@) == model.take(i as int),
                    decreases items@.len() - i,
                {
                    let part = if block_is(&items[i], "text") {
                        match items[i].str_at("text") {
                            Some(t) => t.to_owned(),
                            None => String::new(),
                        }
                    } else {
                        items[i].to_text()
                    };
                    let ghost before = texts(parts@);
                    push_text(&mut parts, part);
                    proof {
                        assert(model.take(i + 1) =~= before.push(model[i as int]));
                    }
                    i = i + 1;
                }
                proof {
                    assert(model.take(i as int) =~= model);
                }
                join(&parts, "\n\n")
            },
            _ => value.to_text(),
        },
    }
}

/// A chat message with a text as its content.
pub open spec fn chat_message(role: Seq<char>, content: Seq<char>) -> JsonTree {
    JsonTree::Object(
        no_fields().insert("role"@, text_tree(role)).insert("content"@, text_tree(content)),
    )
}

/// A chat message with a text as its content.
fn make_chat_message(role: &str, content: String) -> (r: Json)
    ensures
        r.tree() == chat_message(role@, content@),
{
    let mut f = Fields::new();
    f.put("role", Json::text(role));
    f.put("content", Json::Str(content));
    f.done()
}

/// The message of role `tool` that a block of type `tool_result` becomes, if it names a tool use.
pub open spec fn tool_message(block: JsonTree) -> Option<JsonTree> {
    let id = or_empty(block.str_at("tool_use_id"@));
    let text = result_text(block.get("content"@));
    if is_block(block, "tool_result"@) && id.len() > 0 {
        Some(
            JsonTree::Object(
                no_fields().insert("role"@, text_tree("tool"@)).insert(
                    "tool_call_id"@,
                    text_tree(id),
                ).insert(
                    "content"@,
                    text_tree(
                        if block.bool_at("is_error"@) == Some(true) {
                            "Tool execution failed.\n"@ + text
                        } else {
                            text
                        },
                    ),
                ),
            ),
        )
    } else {
        None
    }
}

/// The messages of role `tool` that the blocks become.
pub open spec fn tool_messages(blocks: Seq<JsonTree>) -> Seq<JsonTree>
    decreases blocks.len(),
{
    if blocks.len() == 0 {
        Seq::empty()
    } else {
        match tool_message(blocks.last()) {
            Some(m) => tool_messages(blocks.drop_last()).push(m),
            None => tool_messages(blocks.drop_last()),
        }
    }
}

/// The messages that a user message becomes: its text, unless it is blank, then its tool results.
pub open spec fn user_messages(content: Option<JsonTree>) -> Seq<JsonTree> {
    let lead: Seq<JsonTree> = match inline_text(content) {
        Some(t) => if trim(t).len() > 0 {
            seq![chat_message("user"@, t)]
        } else {
            Seq::empty()
        },
        None => Seq::empty(),
    };
    lead + tool_messages(items_of(content))
}

/// The message of role `tool` that a block becomes, if it is a tool result that names a tool use.
fn make_tool_message(block: &Json) -> (r: Option<Json>)
    ensures
        owned_tree(r) == tool_message(block.tree()),
{
    if !block_is(block, "tool_result") {
        return None;
    }
    let id = match block.str_at("tool_use_id") {
        Some(s) => s.to_owned(),
        None => String::new(),
    };
    if id.as_str().is_empty() {
        return None;
    }
    let mut text = block_anthropic_content_to_text(block.get("content"));
    let failed = match block.bool_at("is_error") {
        Some(b) => b,
        None => false,
    };
    if failed {
        let mut marked = String::new();
        marked.append("Tool execution failed.\n");
        marked.append(text.as_str());
        proof {
            assert(marked@ =~= "Tool execution failed.\n"@ + text@);
        }
        text = marked;
    }
    let mut f = Fields::new();
    f.put("role", Json::text("tool"));
    f.put("tool_call_id", Json::Str(id));
    f.put("content", Json::Str(text));
    Some(f.done())
}

/// The array in an optional value.
fn array_of<'a>(content: Option<&'a Json>) -> (r: Option<&'a Vec<Json>>)
    ensures
        match r {
            Some(items) => items_of(tree_of(content)) == trees(items@),
            None => items_of(tree_of(content)) == Seq::<JsonTree>::empty(),
        },
{
    match content {
        Some(value) => value.as_array(),
        None => None,
    }
}

/// Adds the messages that a user message becomes.
pub fn convert_anthropic_user_message(content: Option<&Json>, messages: &mut Vec<Json>)
    ensures
        trees(final(messages)@) == trees(old(messages)@) + user_messages(tree_of(content)),
{
    let ghost start = trees(messages@);
    let ghost blocks = items_of(tree_of(content));
    match inline_anthropic_content_to_text(content) {
        Some(text) => if !is_blank(text.as_str()) {
            push_json(messages, make_chat_message("user", text));
        },
        None => {},
    }
    let ghost lead = trees(messages@);
    proof {
        assert(lead + tool_messages(blocks.take(0)) =~= lead);
        assert(lead + tool_messages(blocks) =~= start + user_messages(tree_of(content)));
    }
    match array_of(content) {
        Some(items) => {
            let mut i: usize = 0;
            while i < items.len()
                invariant
                    i <= items@.len(),
                    blocks == trees(items@),
                    trees(messages@) == lead + tool_messages(blocks.take(i as int)),
                decreases items@.len() - i,
            {
                proof {
                    assert(blocks.take(i + 1).drop_last() =~= blocks.take(i as int));
                }
                let ghost before = trees(messages@);
                match make_tool_message(&items[i]) {
                    Some(m) => {
                        push_json(messages, m);
                        proof {
                            assert(trees(messages@) =~= lead + tool_messages(blocks.take(i + 1)));
                        }
                    },
                    None => {},
                }
                i = i + 1;
            }
            proof {
                assert(blocks.take(i as int) =~= blocks);
            }
        },
        None => {
            proof {
                assert(blocks.take(0) =~= blocks);
            }
        },
    }
}

/// The identifier of a tool use: its own, or a new one where that is missing or blank.
pub open spec fn tool_use_id(block: JsonTree, ids: IdSource) -> (Seq<char>, IdSource) {
    match block.str_at("id"@) {
        Some(id) => if trim(id).len() > 0 {
            (id, ids)
        } else {
            (ids.id("toolu"@), ids.next())
        },
        None => (ids.id("toolu"@), ids.next()),
    }
}

/// The call that a tool use becomes, under the given identifier.
pub open spec fn tool_call(block: JsonTree, id: Seq<char>) -> JsonTree {
    let input = match block.get("input"@) {
        Some(t) => t,
        None => JsonTree::Object(no_fields()),
    };
    JsonTree::Object(
        no_fields().insert("id"@, text_tree(id)).insert("type"@, text_tree("function"@)).insert(
            "function"@,
            JsonTree::Object(
                no_fields().insert(
                    "name"@,
                    text_tree(or_text(block.str_at("name"@), "tool"@)),
                ).insert("arguments"@, text_tree(json_text(input))),
            ),
        ),
    )
}

/// The calls that the tool uses among `blocks` become, and where the next identifier comes from.
pub open spec fn tool_calls(blocks: Seq<JsonTree>, ids: IdSource) -> (Seq<JsonTree>, IdSource)
    decreases blocks.len(),
{
    if blocks.len() == 0 {
        (Seq::empty(), ids)
    } else {
        let (calls, ids1) = tool_calls(blocks.drop_last(), ids);
        if is_block(blocks.last(), "tool_use"@) {
            let (id, ids2) = tool_use_id(blocks.last(), ids1);
            (calls.push(tool_call(blocks.last(), id)), ids2)
        } else {
            (calls, ids1)
        }
    }
}

/// The message that an assistant message becomes: its text, and its tool uses as calls.
pub open spec fn assistant_message(content: Option<JsonTree>, ids: IdSource) -> (
    JsonTree,
    IdSource,
) {
    let (calls, ids1) = tool_calls(items_of(content), ids);
    let plain = no_fields().insert("role"@, text_tree("assistant"@)).insert(
        "content"@,
        text_tree(or_empty(inline_text(content))),
    );
    if calls.len() > 0 {
        (JsonTree::Object(plain.insert("tool_calls"@, JsonTree::Array(calls))), ids1)
    } else {
        (JsonTree::Object(plain), ids1)
    }
}

/// The call that a tool use becomes.
fn make_tool_call(block: &Json, ids: &mut IdSource) -> (r: Json)
    ensures
        r.tree() == tool_call(block.tree(), tool_use_id(block.tree(), *old(ids)).0),
        *final(ids) == tool_use_id(block.tree(), *old(ids)).1,
{
    let id = match block.str_at("id") {
        Some(s) => if is_blank(s) {
            ids.take_id("toolu")
        } else {
            s.to_owned()
        },
        None => ids.take_id("toolu"),
    };
    let name = match block.str_at("name") {
        Some(s) => s,
        None => "tool",
    };
    let arguments = match block.get("input") {
        Some(input) => input.to_text(),
        None => Fields::new().done().to_text(),
    };
    let mut function = Fields::new();
    function.put("name", Json::text(name));
    function.put("arguments", Json::Str(arguments));
    let mut f = Fields::new();
    f.put("id", Json::Str(id));
    f.put("type", Json::text("function"));
    f.put("function", function.done());
    f.done()
}

/// Adds the message that an assistant message becomes.
pub fn convert_anthropic_assistant_message(
    content: Option<&Json>,
    messages: &mut Vec<Json>,
    ids: &mut IdSource,
)
    ensures
        trees(final(messages)@) == trees(old(messages)@).push(
            assistant_message(tree_of(content), *old(ids)).0,
        ),
        *final(ids) == assistant_message(tree_of(content), *old(ids)).1,
{
    let ghost blocks = items_of(tree_of(content));
    let text = match inline_anthropic_content_to_text(content) {
        Some(t) => t,
        None => String::new(),
    };
    let mut calls: Vec<Json> = Vec::new();
    proof {
        assert(trees(calls@) =~= tool_calls(blocks.take(0), *ids).0);
    }
    match array_of(content) {
        Some(items) => {
            let mut i: usize = 0;
            while i < items.len()
                invariant
                    i <= items@.len(),
                    blocks == trees(items@),
                    (trees(calls@), *ids) == tool_calls(blocks.take(i as int), *old(ids)),
                decreases items@.len() - i,
            {
                proof {
                    assert(blocks.take(i + 1).drop_last() =~= blocks.take(i as int));
                }
                if block_is(&items[i], "tool_use") {
                    let call = make_tool_call(&items[i], ids);
                    push_json(&mut calls, call);
                }
                i = i + 1;
            }
            proof {
                assert(blocks.take(i as int) =~= blocks);
            }
        },
        None => {
            proof {
                assert(blocks.take(0) =~= blocks);
            }
        },
    }
    let mut f = Fields::new();
    f.put("role", Json::text("assistant"));
    f.put("content", Json::Str(text));
    if calls.len() > 0 {
        f.put("tool_calls", Json::array(calls));
    }
    push_json(messages, f.done());
}

/// The messages that one message becomes, by its role and content, and where the next identifier
/// comes from.
pub open spec fn converted_message(
    role: Seq<char>,
    content: Option<JsonTree>,
    ids: IdSource,
) -> (Seq<JsonTree>, IdSource) {
    if role == "assistant"@ {
        let (message, ids1) = assistant_message(content, ids);
        (seq![message], ids1)
    } else {
        (user_messages(content), ids)
    }
}

/// Adds the messages that one message becomes: that of an assistant, or those of anyone else, who
/// counts as the user.
pub fn convert_anthropic_message(
    role: &str,
    content: Option<&Json>,
    messages: &mut Vec<Json>,
    ids: &mut IdSource,
)
    ensures
        trees(final(messages)@) == trees(old(messages)@) + converted_message(
            role@,
            tree_of(content),
            *old(ids),
        ).0,
        *final(ids) == converted_message(role@, tree_of(content), *old(ids)).1,
{
    let ghost before = trees(messages@);
    if str_eq(role, "assistant") {
        convert_anthropic_assistant_message(content, messages, ids);
        proof {
            let message = assistant_message(tree_of(content), *old(ids)).0;
            assert(before.push(message) =~= before + seq![message]);
        }
    } else {
        convert_anthropic_user_message(content, messages);
    }
}

/// The messages that a list of messages becomes, and where the next identifier comes from. A
/// message without a role counts as the user's.
pub open spec fn converted_messages(messages: Seq<JsonTree>, ids: IdSource) -> (
    Seq<JsonTree>,
    IdSource,
)
    decreases messages.len(),
{
    if messages.len() == 0 {
        (Seq::empty(), ids)
    } else {
        let (done, ids1) = converted_messages(messages.drop_last(), ids);
        let last = messages.last();
        let (more, ids2) = converted_message(
            or_text(last.str_at("role"@), "user"@),
            last.get("content"@),
            ids1,
        );
        (done + more, ids2)
    }
}

/// The function that a tool description becomes.
pub open spec fn function_tool(tool: JsonTree) -> JsonTree {
    let parameters = match tool.get("input_schema"@) {
        Some(t) => t,
        None => JsonTree::Object(
            no_fields().insert("type"@, text_tree("object"@)).insert(
                "properties"@,
                JsonTree::Object(no_fields()),
            ),
        ),
    };
    JsonTree::Object(
        no_fields().insert("type"@, text_tree("function"@)).insert(
            "function"@,
            JsonTree::Object(
                no_fields().insert("name"@, text_tree(or_text(tool.str_at("name"@), "tool"@))).insert(
                    "description"@,
                    text_tree(or_empty(tool.str_at("description"@))),
                ).insert("parameters"@, parameters),
            ),
        ),
    )
}

/// The functions that a list of tool descriptions becomes.
pub open spec fn function_tools(tools: Option<JsonTree>) -> Option<JsonTree> {
    match tools {
        Some(JsonTree::Array(items)) => Some(
            JsonTree::Array(items.map_values(|t: JsonTree| function_tool(t))),
        ),
        _ => None,
    }
}

/// The function that a tool description becomes.
fn make_function_tool(tool: &Json) -> (r: Json)
    ensures
        r.tree() == function_tool(tool.tree()),
{
    let name = match tool.str_at("name") {
        Some(s) => s,
        None => "tool",
    };
    let description = match tool.str_at("description") {
        Some(s) => s.to_owned(),
        None => String::new(),
    };
    let parameters = match tool.get("input_schema") {
        Some(schema) => schema.copy(),
        None => {
            let mut f = Fields::new();
            f.put("type", Json::text("object"));
            f.put("properties", Fields::new().done());
            f.done()
        },
    };
    let mut function = Fields::new();
    function.put("name", Json::text(name));
    function.put("description", Json::Str(description));
    function.put("parameters", parameters);
    let mut f = Fields::new();
    f.put("type", Json::text("function"));
    f.put("function", function.done());
    f.done()
}

/// The functions that a list of tool descriptions becomes, where there is such a list.
pub fn convert_anthropic_tools(value: Option<&Json>) -> (r: Option<Json>)
    ensures
        owned_tree(r) == function_tools(tree_of(value)),
{
    match value {
        Some(v) => match v.as_array() {
            Some(items) => {
                let ghost model = trees(items@).map_values(|t: JsonTree| function_tool(t));
                let mut out: Vec<Json> = Vec::new();
                let mut i: usize = 0;
                while i < items.len()
                    invariant
                        i <= items@.len(),
                        model == trees(items@).map_values(|t: JsonTree| function_tool(t)),
                        trees(out@) == model.take(i as int),
                    decreases items@.len() - i,
                {
                    let ghost before = trees(out@);
                    push_json(&mut out, make_function_tool(&items[i]));
                    proof {
                        assert(model.take(i + 1) =~= before.push(model[i as int]));
                    }
                    i = i + 1;
                }
                proof {
                    assert(model.take(i as int) =~= model);
                }
                Some(Json::array(out))
            },
            None => None,
        },
        None => None,
    }
}

/// The choice of a tool, put as a chat completion has it.
pub open spec fn function_choice(choice: Option<JsonTree>) -> Option<JsonTree> {
    match choice {
        Some(c) => {
            let kind = c.str_at("type"@);
            if kind == Some("auto"@) {
                Some(text_tree("auto"@))
            } else if kind == Some("any"@) {
                Some(text_tree("required"@))
            } else if kind == Some("tool"@) {
                match c.str_at("name"@) {
                    Some(name) => Some(
                        JsonTree::Object(
                            no_fields().insert("type"@, text_tree("function"@)).insert(
                                "function"@,
                                JsonTree::Object(no_fields().insert("name"@, text_tree(name))),
                            ),
                        ),
                    ),
                    None => None,
                }
            } else {
                None
            }
        },
        None => None,
    }
}

/// The choice of a tool, put as a chat completion has it: any tool the model likes, some tool, or
/// a named one.
pub fn convert_anthropic_tool_choice(value: Option<&Json>) -> (r: Option<Json>)
    ensures
        owned_tree(r) == function_choice(tree_of(value)),
{
    match value {
        Some(choice) => match choice.str_at("type") {
            Some(kind) => if str_eq(kind, "auto") {
                Some(Json::text("auto"))
            } else if str_eq(kind, "any") {
                Some(Json::text("required"))
            } else if str_eq(kind, "tool") {
                match choice.str_at("name") {
                    Some(name) => {
                        let mut function = Fields::new();
                        function.put("name", Json::text(name));
                        let mut f = Fields::new();
                        f.put("type", Json::text("function"));
                        f.put("function", function.done());
                        Some(f.done())
                    },
                    None => None,
                }
            } else {
                None
            },
            None => None,
        },
        None => None,
    }
}

/// An object with one more field, where there is a value for it.
pub open spec fn with_field_if_any(
    fields: Map<Seq<char>, JsonTree>,
    key: Seq<char>,
    value: Option<JsonTree>,
) -> Map<Seq<char>, JsonTree> {
    match value {
        Some(t) => fields.insert(key, t),
        None => fields,
    }
}

/// Sets the field `key`, where there is a value for it.
fn put_optional(f: &mut Fields, key: &str, value: Option<Json>)
    ensures
        final(f)@ == with_field_if_any(old(f)@, key@, owned_tree(value)),
{
    match value {
        Some(v) => f.put(key, v),
        None => {},
    }
}

/// The integer in a field, as a value.
pub open spec fn integer_at(t: JsonTree, key: Seq<char>) -> Option<JsonTree> {
    match t.u64_at(key) {
        Some(n) => Some(number(n)),
        None => None,
    }
}

/// The number in a field, as a double.
pub open spec fn float_at(t: JsonTree, key: Seq<char>) -> Option<JsonTree> {
    match t.get(key) {
        Some(v) => v.as_float(),
        None => None,
    }
}

/// The chat messages of a request: its system prompt, unless it is blank, then its messages.
pub open spec fn request_messages(payload: JsonTree, ids: IdSource) -> (Seq<JsonTree>, IdSource) {
    let system = system_text(payload.get("system"@));
    let lead: Seq<JsonTree> = if trim(system).len() > 0 {
        seq![chat_message("system"@, system)]
    } else {
        Seq::empty()
    };
    let (rest, ids1) = converted_messages(payload.items_at("messages"@), ids);
    (lead + rest, ids1)
}

/// The chat completion request that a messages request becomes, and where the next identifier
/// comes from.
pub open spec fn openai_request(payload: JsonTree, model: Seq<char>, ids: IdSource) -> (
    JsonTree,
    IdSource,
) {
    let (messages, ids1) = request_messages(payload, ids);
    let base = no_fields().insert("model"@, text_tree(model)).insert(
        "messages"@,
        JsonTree::Array(messages),
    ).insert("stream"@, JsonTree::Bool(false));
    let limited = with_field_if_any(base, "max_tokens"@, integer_at(payload, "max_tokens"@));
    let warm = with_field_if_any(limited, "temperature"@, float_at(payload, "temperature"@));
    let sampled = with_field_if_any(warm, "top_p"@, float_at(payload, "top_p"@));
    let tooled = with_field_if_any(sampled, "tools"@, function_tools(payload.get("tools"@)));
    let full = with_field_if_any(tooled, "tool_choice"@, function_choice(payload.get("tool_choice"@)));
    (JsonTree::Object(full), ids1)
}

/// Takes the field `key` out of an object.
fn remove_field(entries: Vec<(String, Json)>, key: &str) -> (r: (Option<Json>, Vec<(String, Json)>))
    ensures
        entries_tree(r.1@) == entries_tree(entries@).remove(key@),
        owned_tree(r.0) == JsonTree::Object(entries_tree(entries@)).get(key@),
{
    let mut kept: Vec<(String, Json)> = Vec::new();
    let mut found: Option<Json> = None;
    let ghost all = entries@;
    proof {
        assert(entries_tree(all.take(0)).remove(key@) =~= no_fields());
    }
    for e in it: entries
        invariant
            it.seq() == all,
            entries_tree(kept@) == entries_tree(all.take(it.index())).remove(key@),
            owned_tree(found) == JsonTree::Object(entries_tree(all.take(it.index()))).get(key@),
    {
        let ghost n = it.index();
        proof {
            assert(all.take(n + 1).drop_last() =~= all.take(n));
            assert(e == all[n]);
        }
        let ghost before = kept@;
        if str_eq(e.0.as_str(), key) {
            proof {
                assert(entries_tree(all.take(n + 1)).remove(key@) =~= entries_tree(
                    all.take(n),
                ).remove(key@));
            }
            found = Some(e.1);
        } else {
            kept.push(e);
            proof {
                assert(kept@.drop_last() =~= before);
                assert(entries_tree(kept@) =~= entries_tree(all.take(n + 1)).remove(key@));
            }
        }
    }
    proof {
        assert(all.take(all.len() as int) =~= all);
    }
    (found, kept)
}

/// The chat completion request that a messages request becomes, for the given model. The system
/// prompt is taken out of the payload. A payload that is no object is refused and stays as it is.
pub fn convert_anthropic_request_to_openai(
    payload: &mut Json,
    upstream_model: &str,
    ids: &mut IdSource,
) -> (r: Result<Json, String>)
    ensures
        match old(payload).tree() {
            JsonTree::Object(fields) => {
                &&& r is Ok
                &&& r->Ok_0.tree() == openai_request(
                    old(payload).tree(),
                    upstream_model@,
                    *old(ids),
                ).0
                &&& *final(ids) == openai_request(
                    old(payload).tree(),
                    upstream_model@,
                    *old(ids),
                ).1
                &&& final(payload).tree() == JsonTree::Object(fields.remove("system"@))
            },
            _ => {
                &&& r is Err
                &&& r->Err_0@ == "anthropic payload must be an object"@
                &&& *final(ids) == *old(ids)
                &&& final(payload).tree() == old(payload).tree()
            },
        },
{
    let ghost whole = payload.tree();
    let mut messages: Vec<Json> = Vec::new();
    let mut taken: Json = Json::Null;
    core::mem::swap(payload, &mut taken);
    let entries = match taken {
        Json::Object(entries) => entries,
        other => {
            *payload = other;
            return Err("anthropic payload must be an object".to_owned());
        },
    };
    let (system, kept) = remove_field(entries, "system");
    let system_text = extract_anthropic_system_text(system);
    *payload = Json::Object(kept);
    if !is_blank(system_text.as_str()) {
        push_json(&mut messages, make_chat_message("system", system_text));
    }
    let ghost lead = trees(messages@);
    let ghost rest = payload.tree();
    proof {
        reveal_strlit("system");
        reveal_strlit("messages");
        reveal_strlit("max_tokens");
        reveal_strlit("temperature");
        reveal_strlit("top_p");
        reveal_strlit("tools");
        reveal_strlit("tool_choice");
        assert("system"@.len() == 6);
        assert("messages"@.len() == 8);
        assert("max_tokens"@.len() == 10);
        assert("temperature"@.len() == 11);
        assert("top_p"@.len() == 5);
        assert("tools"@.len() == 5);
        assert("tool_choice"@.len() == 11);
        assert(rest.get("messages"@) == whole.get("messages"@));
        assert(rest.get("max_tokens"@) == whole.get("max_tokens"@));
        assert(rest.get("temperature"@) == whole.get("temperature"@));
        assert(rest.get("top_p"@) == whole.get("top_p"@));
        assert(rest.get("tools"@) == whole.get("tools"@));
        assert(rest.get("tool_choice"@) == whole.get("tool_choice"@));
    }
    let ghost list = whole.items_at("messages"@);
    proof {
        assert(lead =~= lead + converted_messages(list.take(0), *ids).0);
    }
    match payload.array_at("messages") {
        Some(items) => {
            let mut i: usize = 0;
            while i < items.len()
                invariant
                    i <= items@.len(),
                    list == trees(items@),
                    trees(messages@) == lead + converted_messages(list.take(i as int), *old(ids)).0,
                    *ids == converted_messages(list.take(i as int), *old(ids)).1,
                decreases items@.len() - i,
            {
                proof {
                    assert(list.take(i + 1).drop_last() =~= list.take(i as int));
                }
                let role = match items[i].str_at("role") {
                    Some(s) => s,
                    None => "user",
                };
                convert_anthropic_message(role, items[i].get("content"), &mut messages, ids);
                proof {
                    let done = converted_messages(list.take(i as int), *old(ids));
                    let more = converted_message(
                        role@,
                        items@[i as int].tree().get("content"@),
                        done.1,
                    ).0;
                    assert(lead + done.0 + more =~= lead + (done.0 + more));
                }
                i = i + 1;
            }
            proof {
                assert(list.take(i as int) =~= list);
            }
        },
        None => {
            proof {
                assert(list.take(0) =~= list);
            }
        },
    }
    proof {
        assert(trees(messages@) =~= request_messages(whole, *old(ids)).0);
    }
    let mut openai = Fields::new();
    openai.put("model", Json::text(upstream_model));
    openai.put("messages", Json::array(messages));
    openai.put("stream", Json::Bool(false));
    let max_tokens = match payload.u64_at("max_tokens") {
        Some(n) => Some(Json::unsigned(n)),
        None => None,
    };
    put_optional(&mut openai, "max_tokens", max_tokens);
    let temperature = match payload.get("temperature") {
        Some(v) => v.as_float(),
        None => None,
    };
    put_optional(&mut openai, "temperature", temperature);
    let top_p = match payload.get("top_p") {
        Some(v) => v.as_float(),
        None => None,
    };
    put_optional(&mut openai, "top_p", top_p);
    let tools = convert_anthropic_tools(payload.get("tools"));
    put_optional(&mut openai, "tools", tools);
    let tool_choice = convert_anthropic_tool_choice(payload.get("tool_choice"));
    put_optional(&mut openai, "tool_choice", tool_choice);
    Ok(openai.done())
}

/// Whether a chat message has the given role and the given text as its content.
pub open spec fn says(message: JsonTree, role: Seq<char>, content: Seq<char>) -> bool {
    message.str_at("role"@) == Some(role) && message.str_at("content"@) == Some(content)
}

/// The result of a tool is passed on: the message is of the role `tool`, names the tool use that the
/// block names, and holds the text of the result as it stands, or, where the tool failed, after the
/// words that say so. A block of another type, or one that names no tool use, becomes no message.
pub proof fn law_tool_result_is_passed_on(block: JsonTree, id: Seq<char>, result: Seq<char>)
    ensures
        block.str_at("type"@) == Some("tool_result"@) && block.str_at("tool_use_id"@) == Some(id)
            && id.len() > 0 && block.get("content"@) == Some(JsonTree::Str(result)) ==> {
            &&& tool_message(block) matches Some(message)
            &&& message.str_at("tool_call_id"@) == Some(id)
            &&& block.bool_at("is_error"@) != Some(true) ==> says(message, "tool"@, result)
            &&& block.bool_at("is_error"@) == Some(true) ==> says(
                message,
                "tool"@,
                "Tool execution failed.\n"@ + result,
            )
        },
        block.str_at("type"@) != Some("tool_result"@) || block.str_at("tool_use_id"@) is None
            || block.str_at("tool_use_id"@) == Some(Seq::<char>::empty()) ==> tool_message(block)
            is None,
{
    reveal_strlit("role");
    reveal_strlit("tool_call_id");
    reveal_strlit("content");
    assert("role"@.len() == 4 && "tool_call_id"@.len() == 12 && "content"@.len() == 7);
    if let Some(named) = block.str_at("tool_use_id"@) {
        if named.len() == 0 {
            assert(named =~= Seq::<char>::empty());
        }
    }
}

/// The results of two tool uses are told apart: where their texts differ, so do their messages.
pub proof fn law_different_results_differ(
    first: JsonTree,
    second: JsonTree,
    id: Seq<char>,
    a: Seq<char>,
    b: Seq<char>,
)
    requires
        first.str_at("type"@) == Some("tool_result"@),
        first.str_at("tool_use_id"@) == Some(id),
        first.get("content"@) == Some(JsonTree::Str(a)),
        second.str_at("type"@) == Some("tool_result"@),
        second.str_at("tool_use_id"@) == Some(id),
        second.get("content"@) == Some(JsonTree::Str(b)),
        first.bool_at("is_error"@) == second.bool_at("is_error"@),
        id.len() > 0,
        a != b,
    ensures
        tool_message(first) is Some,
        tool_message(second) is Some,
        tool_message(first) != tool_message(second),
{
    law_tool_result_is_passed_on(first, id, a);
    law_tool_result_is_passed_on(second, id, b);
    let words = "Tool execution failed.\n"@;
    if words + a == words + b {
        assert((words + a).skip(words.len() as int) =~= a);
        assert((words + b).skip(words.len() as int) =~= b);
    }
}

/// The content of a tool result is one text: a string as it stands; the blocks of a list in their
/// order, with a blank line between each two, a text block by its text and any other as JSON text;
/// and any other value as JSON text.
pub proof fn law_result_is_told_as_text(
    items: Seq<JsonTree>,
    block: JsonTree,
    s: Seq<char>,
    value: JsonTree,
)
    ensures
        result_text(Some(JsonTree::Str(s))) == s,
        result_text(None) == Seq::<char>::empty(),
        !(value is Str) && !(value is Array) ==> result_text(Some(value)) == json_text(value),
        result_text(Some(JsonTree::Array(Seq::empty()))) == Seq::<char>::empty(),
        block.str_at("type"@) == Some("text"@) && block.str_at("text"@) == Some(s) ==> result_text(
            Some(JsonTree::Array(seq![block])),
        ) == s,
        block.str_at("type"@) == Some("text"@) && block.str_at("text"@) is None ==> result_text(
            Some(JsonTree::Array(seq![block])),
        ) == Seq::<char>::empty(),
        block.str_at("type"@) != Some("text"@) ==> result_text(Some(JsonTree::Array(seq![block])))
            == json_text(block),
        items.len() > 0 ==> result_text(Some(JsonTree::Array(items.push(block)))) == result_text(
            Some(JsonTree::Array(items)),
        ) + "\n\n"@ + result_text(Some(JsonTree::Array(seq![block]))),
{
    let told = |b: JsonTree| result_block_text(b);
    assert(Seq::<JsonTree>::empty().map_values(told) =~= Seq::<Seq<char>>::empty());
    assert(seq![block].map_values(told) =~= seq![result_block_text(block)]);
    assert(items.push(block).map_values(told) =~= items.map_values(told).push(
        result_block_text(block),
    ));
    law_parts_are_joined(items.map_values(told), result_block_text(block), "\n\n"@);
}

/// Blocks become messages one by one, in their order.
pub proof fn law_tool_results_keep_their_order(first: Seq<JsonTree>, second: Seq<JsonTree>)
    ensures
        tool_messages(first + second) == tool_messages(first) + tool_messages(second),
        first.len() == 1 ==> tool_messages(first) == match tool_message(first[0]) {
            Some(message) => seq![message],
            None => Seq::empty(),
        },
    decreases second.len(),
{
    if second.len() == 0 {
        assert(first + second =~= first);
        assert(tool_messages(first) + tool_messages(second) =~= tool_messages(first));
    } else {
        law_tool_results_keep_their_order(first, second.drop_last());
        assert((first + second).drop_last() =~= first + second.drop_last());
        assert(tool_messages(first + second) =~= tool_messages(first) + tool_messages(second));
    }
    if first.len() == 1 {
        assert(first.drop_last() =~= Seq::<JsonTree>::empty());
        assert(tool_messages(first.drop_last()) =~= Seq::<JsonTree>::empty());
    }
}

/// The texts of a message are those of its text blocks, in their order; nothing else is one.
pub proof fn law_text_blocks_keep_their_order(
    first: Seq<JsonTree>,
    second: Seq<JsonTree>,
    text: Seq<char>,
)
    ensures
        text_blocks(first + second) == text_blocks(first) + text_blocks(second),
        first.len() == 1 && first[0].str_at("type"@) == Some("text"@) && first[0].str_at("text"@)
            == Some(text) ==> text_blocks(first) == seq![text],
        first.len() == 1 && (first[0].str_at("type"@) != Some("text"@) || first[0].str_at("text"@)
            is None) ==> text_blocks(first) == Seq::<Seq<char>>::empty(),
    decreases second.len(),
{
    if second.len() == 0 {
        assert(first + second =~= first);
        assert(text_blocks(first) + text_blocks(second) =~= text_blocks(first));
    } else {
        law_text_blocks_keep_their_order(first, second.drop_last(), text);
        assert((first + second).drop_last() =~= first + second.drop_last());
        assert(text_blocks(first + second) =~= text_blocks(first) + text_blocks(second));
    }
    if first.len() == 1 {
        assert(first.drop_last() =~= Seq::<JsonTree>::empty());
        assert(text_blocks(first.drop_last()) =~= Seq::<Seq<char>>::empty());
    }
}

/// What a user says is passed on: a text as it stands, or the texts of a list of blocks with a blank
/// line between each two, in one message, unless there is nothing but white space; the results of
/// tools follow. Any other value is told as JSON text.
pub proof fn law_user_message_is_passed_on(s: Seq<char>, blocks: Seq<JsonTree>, value: JsonTree)
    ensures
        !(value is Str) && !(value is Array) && trim(json_text(value)).len() > 0 ==> {
            &&& user_messages(Some(value)).len() == 1
            &&& says(user_messages(Some(value))[0], "user"@, json_text(value))
        },
        trim(s).len() > 0 ==> {
            &&& user_messages(Some(JsonTree::Str(s))).len() == 1
            &&& says(user_messages(Some(JsonTree::Str(s)))[0], "user"@, s)
        },
        trim(s).len() == 0 ==> user_messages(Some(JsonTree::Str(s))).len() == 0,
        user_messages(None).len() == 0,
        ({
            let text = join_with(text_blocks(blocks), "\n\n"@);
            let messages = user_messages(Some(JsonTree::Array(blocks)));
            &&& trim(text).len() > 0 ==> messages.len() > 0 && says(messages[0], "user"@, text)
                && messages.skip(1) == tool_messages(blocks)
            &&& trim(text).len() == 0 ==> messages == tool_messages(blocks)
        }),
{
    reveal_strlit("role");
    reveal_strlit("content");
    assert("role"@.len() == 4 && "content"@.len() == 7);
    assert(tool_messages(Seq::empty()) =~= Seq::<JsonTree>::empty());
    let text = join_with(text_blocks(blocks), "\n\n"@);
    let messages = user_messages(Some(JsonTree::Array(blocks)));
    if trim(text).len() > 0 {
        assert(messages.skip(1) =~= tool_messages(blocks));
    } else {
        assert(messages =~= tool_messages(blocks));
    }
}

/// A tool use is passed on as a call of a function: under its identifier, with its name, and with
/// the JSON text of its input as the arguments.
pub proof fn law_tool_use_becomes_a_call(
    block: JsonTree,
    id: Seq<char>,
    name: Seq<char>,
    input: JsonTree,
)
    ensures
        tool_call(block, id).str_at("id"@) == Some(id),
        tool_call(block, id).str_at("type"@) == Some("function"@),
        tool_call(block, id).get("function"@) matches Some(function) && {
            &&& block.str_at("name"@) == Some(name) ==> function.str_at("name"@) == Some(name)
            &&& block.str_at("name"@) is None ==> function.str_at("name"@) == Some("tool"@)
            &&& block.get("input"@) == Some(input) ==> function.str_at("arguments"@) == Some(
                json_text(input),
            )
            &&& block.get("input"@) is None ==> function.str_at("arguments"@) == Some(
                json_text(JsonTree::Object(Map::empty())),
            )
        },
{
    reveal_strlit("id");
    reveal_strlit("type");
    reveal_strlit("function");
    reveal_strlit("name");
    reveal_strlit("arguments");
    assert("id"@.len() == 2 && "type"@.len() == 4 && "function"@.len() == 8);
    assert("name"@.len() == 4 && "arguments"@.len() == 9 && "type"@[0] == 't');
    assert("name"@[0] == 'n');
}

/// Tool uses become calls one by one, in their order, and nothing else becomes one. A tool use that
/// has an identifier keeps it; one that has none, or a blank one, gets the next new one.
pub proof fn law_tool_calls_keep_their_order(
    first: Seq<JsonTree>,
    second: Seq<JsonTree>,
    ids: IdSource,
    id: Seq<char>,
)
    ensures
        tool_calls(first + second, ids).0 == tool_calls(first, ids).0 + tool_calls(
            second,
            tool_calls(first, ids).1,
        ).0,
        tool_calls(first + second, ids).1 == tool_calls(second, tool_calls(first, ids).1).1,
        first.len() == 1 && first[0].str_at("type"@) == Some("tool_use"@) ==> {
            &&& first[0].str_at("id"@) == Some(id) && trim(id).len() > 0 ==> tool_calls(first, ids)
                == (seq![tool_call(first[0], id)], ids)
            &&& first[0].str_at("id"@) is None || first[0].str_at("id"@) == Some(id) && trim(
                id,
            ).len() == 0 ==> tool_calls(first, ids) == (
                seq![tool_call(first[0], ids.id("toolu"@))],
                ids.next(),
            )
        },
        first.len() == 1 && first[0].str_at("type"@) != Some("tool_use"@) ==> tool_calls(first, ids)
            == (Seq::<JsonTree>::empty(), ids),
    decreases second.len(),
{
    if second.len() == 0 {
        assert(first + second =~= first);
        assert(tool_calls(first, ids).0 + Seq::<JsonTree>::empty() =~= tool_calls(first, ids).0);
    } else {
        law_tool_calls_keep_their_order(first, second.drop_last(), ids, id);
        assert((first + second).drop_last() =~= first + second.drop_last());
        assert(tool_calls(first + second, ids).0 =~= tool_calls(first, ids).0 + tool_calls(
            second,
            tool_calls(first, ids).1,
        ).0);
    }
    if first.len() == 1 {
        assert(first.drop_last() =~= Seq::<JsonTree>::empty());
        assert(tool_calls(first.drop_last(), ids) == (Seq::<JsonTree>::empty(), ids));
        assert(Seq::<JsonTree>::empty().push(tool_call(first[0], id)) =~= seq![
            tool_call(first[0], id),
        ]);
        assert(Seq::<JsonTree>::empty().push(tool_call(first[0], ids.id("toolu"@))) =~= seq![
            tool_call(first[0], ids.id("toolu"@)),
        ]);
    }
}

/// What an assistant says is passed on in one message: its text, or the texts of its blocks with a
/// blank line between each two, and its tool uses as calls, where there are any.
pub proof fn law_assistant_message_is_passed_on(
    s: Seq<char>,
    blocks: Seq<JsonTree>,
    ids: IdSource,
)
    ensures
        says(assistant_message(Some(JsonTree::Str(s)), ids).0, "assistant"@, s),
        assistant_message(Some(JsonTree::Str(s)), ids).0.get("tool_calls"@) is None,
        assistant_message(Some(JsonTree::Str(s)), ids).1 == ids,
        ({
            let (message, after) = assistant_message(Some(JsonTree::Array(blocks)), ids);
            let (calls, last) = tool_calls(blocks, ids);
            &&& says(message, "assistant"@, join_with(text_blocks(blocks), "\n\n"@))
            &&& message.items_at("tool_calls"@) == calls
            &&& message.get("tool_calls"@) is Some <==> calls.len() > 0
            &&& after == last
        }),
{
    reveal_strlit("role");
    reveal_strlit("content");
    reveal_strlit("tool_calls");
    assert("role"@.len() == 4 && "content"@.len() == 7 && "tool_calls"@.len() == 10);
    let (calls, _) = tool_calls(blocks, ids);
    if calls.len() == 0 {
        assert(calls =~= Seq::<JsonTree>::empty());
    }
}

/// Messages are converted one by one, in their order: that of an assistant as such, and that of
/// anyone else, or without a role, as the user's.
pub proof fn law_messages_keep_their_order(
    first: Seq<JsonTree>,
    second: Seq<JsonTree>,
    ids: IdSource,
)
    ensures
        converted_messages(first + second, ids).0 == converted_messages(first, ids).0
            + converted_messages(second, converted_messages(first, ids).1).0,
        converted_messages(first + second, ids).1 == converted_messages(
            second,
            converted_messages(first, ids).1,
        ).1,
        first.len() == 1 && first[0].str_at("role"@) == Some("assistant"@) ==> converted_messages(
            first,
            ids,
        ) == (
            seq![assistant_message(first[0].get("content"@), ids).0],
            assistant_message(first[0].get("content"@), ids).1,
        ),
        first.len() == 1 && first[0].str_at("role"@) != Some("assistant"@) ==> converted_messages(
            first,
            ids,
        ) == (user_messages(first[0].get("content"@)), ids),
    decreases second.len(),
{
    let done = converted_messages(first, ids);
    if second.len() == 0 {
        assert(first + second =~= first);
        assert(done.0 + Seq::<JsonTree>::empty() =~= done.0);
    } else {
        law_messages_keep_their_order(first, second.drop_last(), ids);
        assert((first + second).drop_last() =~= first + second.drop_last());
        assert(converted_messages(first + second, ids).0 =~= done.0 + converted_messages(
            second,
            done.1,
        ).0);
    }
    if first.len() == 1 {
        reveal_strlit("user");
        reveal_strlit("assistant");
        assert("user"@.len() == 4 && "assistant"@.len() == 9);
        assert(first.drop_last() =~= Seq::<JsonTree>::empty());
        assert(converted_messages(first.drop_last(), ids) == (Seq::<JsonTree>::empty(), ids));
        let content = first[0].get("content"@);
        assert(Seq::<JsonTree>::empty() + user_messages(content) =~= user_messages(content));
        assert(Seq::<JsonTree>::empty() + seq![assistant_message(content, ids).0] =~= seq![
            assistant_message(content, ids).0,
        ]);
    }
}

/// The system prompt comes first, as a message of its own, unless there is nothing but white space
/// in it; the messages of the conversation follow.
pub proof fn law_system_prompt_leads(
    payload: JsonTree,
    prompt: Seq<char>,
    model: Seq<char>,
    ids: IdSource,
)
    ensures
        ({
            let messages = openai_request(payload, model, ids).0.items_at("messages"@);
            let rest = converted_messages(payload.items_at("messages"@), ids).0;
            &&& payload.get("system"@) == Some(JsonTree::Str(prompt)) && trim(prompt).len() > 0
                ==> messages.len() > 0 && says(messages[0], "system"@, prompt) && messages.skip(1)
                == rest
            &&& payload.get("system"@) == Some(JsonTree::Str(prompt)) && trim(prompt).len() == 0
                ==> messages == rest
            &&& payload.get("system"@) is None ==> messages == rest
            &&& system_text(payload.get("system"@)) == prompt && trim(prompt).len() > 0
                ==> messages.len() > 0 && says(messages[0], "system"@, prompt) && messages.skip(1)
                == rest
        }),
        openai_request(payload, model, ids).1 == converted_messages(
            payload.items_at("messages"@),
            ids,
        ).1,
{
    reveal_strlit("role");
    reveal_strlit("content");
    assert("role"@.len() == 4 && "content"@.len() == 7);
    lemma_request_fields(payload, model, ids);
    let messages = request_messages(payload, ids).0;
    let rest = converted_messages(payload.items_at("messages"@), ids).0;
    let lead = system_text(payload.get("system"@));
    if trim(lead).len() > 0 {
        assert(messages.skip(1) =~= rest);
    } else {
        assert(messages =~= rest);
    }
    law_white_space_is_trimmed(Seq::empty(), Seq::empty(), Seq::empty());
    assert(Seq::<char>::empty() + Seq::<char>::empty() + Seq::<char>::empty() =~= Seq::<
        char,
    >::empty());
}

/// A system prompt in parts is their texts in their order, with a blank line between each two.
pub proof fn law_system_parts_are_joined(
    items: Seq<JsonTree>,
    part: JsonTree,
    text: Seq<char>,
    other: JsonTree,
)
    requires
        part.str_at("text"@) == Some(text),
        other.str_at("text"@) is None,
    ensures
        !(other is Str) && !(other is Array) ==> system_text(Some(other)) == json_text(other),
        system_text(Some(JsonTree::Array(seq![part]))) == text,
        text_fields(items).len() > 0 ==> system_text(Some(JsonTree::Array(items.push(part))))
            == system_text(Some(JsonTree::Array(items))) + "\n\n"@ + text,
        text_fields(items.push(part)).len() == text_fields(items).len() + 1,
        system_text(Some(JsonTree::Array(items.push(other)))) == system_text(
            Some(JsonTree::Array(items)),
        ),
{
    assert(seq![part].drop_last() =~= Seq::<JsonTree>::empty());
    assert(text_fields(seq![part].drop_last()) =~= Seq::<Seq<char>>::empty());
    assert(text_fields(seq![part]) =~= seq![text]);
    assert(items.push(part).drop_last() =~= items);
    assert(items.push(other).drop_last() =~= items);
    law_parts_are_joined(text_fields(items), text, "\n\n"@);
}

/// The fields of a chat completion request.
proof fn lemma_request_fields(payload: JsonTree, model: Seq<char>, ids: IdSource)
    ensures
        ({
            let request = openai_request(payload, model, ids).0;
            &&& request.str_at("model"@) == Some(model)
            &&& request.bool_at("stream"@) == Some(false)
            &&& request.items_at("messages"@) == request_messages(payload, ids).0
            &&& request.get("max_tokens"@) == integer_at(payload, "max_tokens"@)
            &&& request.get("temperature"@) == float_at(payload, "temperature"@)
            &&& request.get("top_p"@) == float_at(payload, "top_p"@)
            &&& request.get("tools"@) == function_tools(payload.get("tools"@))
            &&& request.get("tool_choice"@) == function_choice(payload.get("tool_choice"@))
        }),
{
    reveal_strlit("model");
    reveal_strlit("messages");
    reveal_strlit("stream");
    reveal_strlit("max_tokens");
    reveal_strlit("temperature");
    reveal_strlit("top_p");
    reveal_strlit("tools");
    reveal_strlit("tool_choice");
    assert("model"@.len() == 5 && "messages"@.len() == 8 && "stream"@.len() == 6);
    assert("max_tokens"@.len() == 10 && "temperature"@.len() == 11 && "top_p"@.len() == 5);
    assert("tools"@.len() == 5 && "tool_choice"@.len() == 11 && "model"@[0] == 'm');
    assert("top_p"@[0] == 't' && "tools"@[0] == 't' && "temperature"@[1] == 'e');
    assert("tool_choice"@[1] == 'o' && "top_p"@[2] == 'p' && "tools"@[2] == 'o');
}

/// The limit on tokens and the two numbers that steer the choice of words are passed on, where the
/// request has them, and are missing where it has none. Nothing is sent but what is named here.
pub proof fn law_settings_are_passed_on(
    payload: JsonTree,
    model: Seq<char>,
    ids: IdSource,
    bits: u64,
    n: u64,
    key: Seq<char>,
)
    ensures
        ({
            let request = openai_request(payload, model, ids).0;
            &&& request.get(key) is Some ==> key == "model"@ || key == "messages"@ || key
                == "stream"@ || key == "max_tokens"@ || key == "temperature"@ || key == "top_p"@
                || key == "tools"@ || key == "tool_choice"@
            &&& request.str_at("model"@) == Some(model)
            &&& request.bool_at("stream"@) == Some(false)
            &&& request.u64_at("max_tokens"@) == payload.u64_at("max_tokens"@)
            &&& request.get("max_tokens"@) is Some <==> payload.u64_at("max_tokens"@) is Some
            &&& payload.get("temperature"@) == Some(JsonTree::Number(NumberTree::Float(bits)))
                ==> request.get("temperature"@) == payload.get("temperature"@)
            &&& payload.get("temperature"@) == Some(JsonTree::Number(NumberTree::Unsigned(n)))
                ==> request.get("temperature"@) == Some(
                JsonTree::Number(NumberTree::Float(nearest_double(n as int))),
            )
            &&& request.get("temperature"@) is Some <==> payload.get("temperature"@) is Some
                && payload.get("temperature"@)->0 is Number
            &&& payload.get("top_p"@) == Some(JsonTree::Number(NumberTree::Float(bits)))
                ==> request.get("top_p"@) == payload.get("top_p"@)
            &&& payload.get("top_p"@) == Some(JsonTree::Number(NumberTree::Unsigned(n)))
                ==> request.get("top_p"@) == Some(
                JsonTree::Number(NumberTree::Float(nearest_double(n as int))),
            )
            &&& request.get("top_p"@) is Some <==> payload.get("top_p"@) is Some && payload.get(
                "top_p"@,
            )->0 is Number
        }),
{
    lemma_request_fields(payload, model, ids);
}

/// Every tool is offered to the model as a function, in its place, with its own name, description
/// and schema.
pub proof fn law_tools_are_offered(
    payload: JsonTree,
    model: Seq<char>,
    ids: IdSource,
    i: int,
    name: Seq<char>,
    description: Seq<char>,
    schema: JsonTree,
)
    requires
        payload.get("tools"@) matches Some(JsonTree::Array(_)),
    ensures
        ({
            let tools = payload.items_at("tools"@);
            let offered = openai_request(payload, model, ids).0.items_at("tools"@);
            &&& openai_request(payload, model, ids).0.get("tools"@) is Some
            &&& offered.len() == tools.len()
            &&& 0 <= i < tools.len() ==> {
                &&& offered[i].str_at("type"@) == Some("function"@)
                &&& offered[i].get("function"@) matches Some(function)
                &&& tools[i].str_at("name"@) == Some(name) ==> function.str_at("name"@) == Some(name)
                &&& tools[i].str_at("name"@) is None ==> function.str_at("name"@) == Some("tool"@)
                &&& tools[i].str_at("description"@) == Some(description) ==> function.str_at(
                    "description"@,
                ) == Some(description)
                &&& tools[i].str_at("description"@) is None ==> function.str_at("description"@)
                    == Some(Seq::<char>::empty())
                &&& tools[i].get("input_schema"@) == Some(schema) ==> function.get("parameters"@)
                    == Some(schema)
                &&& tools[i].get("input_schema"@) is None ==> (function.get("parameters"@) matches
                    Some(p) && p.str_at("type"@) == Some("object"@) && p.get("properties"@) == Some(
                    JsonTree::Object(Map::empty()),
                ))
            }
        }),
{
    lemma_request_fields(payload, model, ids);
    let tools = payload.items_at("tools"@);
    let offered = openai_request(payload, model, ids).0.items_at("tools"@);
    assert(offered =~= tools.map_values(|t: JsonTree| function_tool(t)));
    if 0 <= i < tools.len() {
        assert(offered[i] == function_tool(tools[i]));
        reveal_strlit("type");
        reveal_strlit("function");
        reveal_strlit("name");
        reveal_strlit("description");
        reveal_strlit("parameters");
        reveal_strlit("properties");
        assert("type"@.len() == 4 && "function"@.len() == 8 && "name"@.len() == 4);
        assert("description"@.len() == 11 && "parameters"@.len() == 10);
        assert("properties"@.len() == 10 && "type"@[0] == 't' && "name"@[0] == 'n');
        assert("parameters"@[1] == 'a' && "properties"@[1] == 'r');
    }
}

/// The choice of a tool is passed on: `auto` stays, `any` becomes `required`, and a tool that is
/// named is named as a function. Any other choice, and none, is left out.
pub proof fn law_tool_choice_is_passed_on(
    payload: JsonTree,
    model: Seq<char>,
    ids: IdSource,
    choice: JsonTree,
    name: Seq<char>,
)
    ensures
        ({
            let made = openai_request(payload, model, ids).0.get("tool_choice"@);
            &&& payload.get("tool_choice"@) is None ==> made is None
            &&& payload.get("tool_choice"@) == Some(choice) ==> {
                let kind = choice.str_at("type"@);
                &&& kind == Some("auto"@) ==> made == Some(JsonTree::Str("auto"@))
                &&& kind == Some("any"@) ==> made == Some(JsonTree::Str("required"@))
                &&& kind == Some("tool"@) && choice.str_at("name"@) == Some(name) ==> (made matches
                    Some(m) && m.str_at("type"@) == Some("function"@) && (m.get("function"@) matches
                    Some(f) && f.str_at("name"@) == Some(name)))
                &&& kind == Some("tool"@) && choice.str_at("name"@) is None ==> made is None
                &&& kind != Some("auto"@) && kind != Some("any"@) && kind != Some("tool"@)
                    ==> made is None
            }
        }),
{
    lemma_request_fields(payload, model, ids);
    reveal_strlit("auto");
    reveal_strlit("any");
    reveal_strlit("tool");
    reveal_strlit("type");
    reveal_strlit("function");
    reveal_strlit("name");
    assert("auto"@.len() == 4 && "any"@.len() == 3 && "tool"@.len() == 4 && "type"@.len() == 4);
    assert("function"@.len() == 8 && "name"@.len() == 4 && "auto"@[0] == 'a');
    assert("tool"@[0] == 't' && "type"@[0] == 't' && "name"@[0] == 'n' && "tool"@[1] == 'o');
    assert("type"@[1] == 'y');
}

/// The result of every tool reaches the model: for each block of each message of a user that holds
/// one, there is a message in the request that names the tool use and holds the text of the result.
#[verifier::rlimit(50)]
pub proof fn law_tool_results_reach_the_model(
    payload: JsonTree,
    model: Seq<char>,
    ids: IdSource,
    i: int,
    j: int,
    id: Seq<char>,
    result: Seq<char>,
)
    requires
        ({
            let messages = payload.items_at("messages"@);
            let blocks = messages[i].items_at("content"@);
            &&& 0 <= i < messages.len()
            &&& messages[i].str_at("role"@) != Some("assistant"@)
            &&& 0 <= j < blocks.len()
            &&& blocks[j].str_at("type"@) == Some("tool_result"@)
            &&& blocks[j].str_at("tool_use_id"@) == Some(id)
            &&& blocks[j].get("content"@) == Some(JsonTree::Str(result))
            &&& id.len() > 0
        }),
    ensures
        ({
            let sent = openai_request(payload, model, ids).0.items_at("messages"@);
            let failed = payload.items_at("messages"@)[i].items_at("content"@)[j].bool_at(
                "is_error"@,
            ) == Some(true);
            exists|k: int|
                0 <= k < sent.len() && (#[trigger] sent[k]).str_at("tool_call_id"@) == Some(id)
                    && says(
                    sent[k],
                    "tool"@,
                    if failed {
                        "Tool execution failed.\n"@ + result
                    } else {
                        result
                    },
                )
        }),
{
    lemma_request_fields(payload, model, ids);
    let messages = payload.items_at("messages"@);
    let message = messages[i];
    let blocks = message.items_at("content"@);
    let block = blocks[j];
    law_tool_result_is_passed_on(block, id, result);
    let made = tool_message(block)->0;
    // The message among those of its blocks.
    law_tool_results_keep_their_order(blocks.take(j), blocks.skip(j));
    law_tool_results_keep_their_order(seq![block], blocks.skip(j + 1));
    assert(blocks.skip(j) =~= seq![block] + blocks.skip(j + 1));
    assert(blocks =~= blocks.take(j) + blocks.skip(j));
    let told = tool_messages(blocks);
    let a = tool_messages(blocks.take(j)).len() as int;
    assert(told[a] == made);
    let mine = user_messages(message.get("content"@));
    let b = (mine.len() - told.len()) + a;
    assert(mine[b] == made);
    // Those among the messages of the request.
    law_messages_keep_their_order(messages.take(i), messages.skip(i), ids);
    let (before, ids1) = converted_messages(messages.take(i), ids);
    law_messages_keep_their_order(seq![message], messages.skip(i + 1), ids1);
    assert(messages.skip(i) =~= seq![message] + messages.skip(i + 1));
    assert(messages =~= messages.take(i) + messages.skip(i));
    let all = converted_messages(messages, ids).0;
    let c = before.len() + b;
    assert(all[c] == made);
    let sent = openai_request(payload, model, ids).0.items_at("messages"@);
    let d = (sent.len() - all.len()) + c;
    assert(sent[d] == made);
}

/// Every message of a conversation is sent, in its place: what it becomes stands in the request
/// between what the messages before it and those after it become.
#[verifier::rlimit(50)]
pub proof fn law_every_message_is_sent(
    payload: JsonTree,
    model: Seq<char>,
    ids: IdSource,
    i: int,
) -> (at: int)
    requires
        0 <= i < payload.items_at("messages"@).len(),
    ensures
        ({
            let messages = payload.items_at("messages"@);
            let sent = openai_request(payload, model, ids).0.items_at("messages"@);
            let ids1 = converted_messages(messages.take(i), ids).1;
            let content = messages[i].get("content"@);
            let part = if messages[i].str_at("role"@) == Some("assistant"@) {
                seq![assistant_message(content, ids1).0]
            } else {
                user_messages(content)
            };
            0 <= at && at + part.len() <= sent.len() && sent.subrange(at, at + part.len()) == part
        }),
{
    lemma_request_fields(payload, model, ids);
    let messages = payload.items_at("messages"@);
    let message = messages[i];
    law_messages_keep_their_order(messages.take(i), messages.skip(i), ids);
    let (before, ids1) = converted_messages(messages.take(i), ids);
    law_messages_keep_their_order(seq![message], messages.skip(i + 1), ids1);
    assert(messages.skip(i) =~= seq![message] + messages.skip(i + 1));
    assert(messages =~= messages.take(i) + messages.skip(i));
    let part = converted_messages(seq![message], ids1).0;
    let all = converted_messages(messages, ids).0;
    let sent = openai_request(payload, model, ids).0.items_at("messages"@);
    let at = (sent.len() - all.len()) + before.len();
    assert(sent.subrange(at, at + part.len()) =~= part);
    at
}

} // verus!
