//! A whole message told as a stream of server-sent events.
use crate::anthropic::is_block;
use crate::codec::json_text;
use crate::completion::{
    anthropic_message, find_usage_count, make_token_counts, message_content, text_block,
    token_counts, tool_use, usage_count,
};
use crate::ids::IdSource;
use crate::json::{no_fields, number, text_tree, trees, Fields, Json, JsonTree};
use crate::text::{or_empty, starts_with, str_eq};
use vstd::prelude::*;
use vstd::string::*;

verus! {

/// One event: its name on a line, its data on the next, and an empty line.
pub open spec fn sse_event(event: Seq<char>, payload: JsonTree) -> Seq<char> {
    "event: "@ + event + "\n"@ + "data: "@ + json_text(payload) + "\n\n"@
}

/// Adds one event to the stream.
pub fn push_anthropic_sse_event(body: &mut String, event: &str, payload: &Json)
    ensures
        final(body)@ == old(body)@ + sse_event(event@, payload.tree()),
{
    let ghost before = body@;
    body.append("event: ");
    body.append(event);
    body.append("\n");
    body.append("data: ");
    body.append(payload.to_text().as_str());
    body.append("\n\n");
    proof {
        assert(body@ =~= before + sse_event(event@, payload.tree()));
    }
}

/// A value, or a new identifier where there is none.
pub open spec fn value_or_id(value: Option<JsonTree>, prefix: Seq<char>, ids: IdSource) -> (
    JsonTree,
    IdSource,
) {
    match value {
        Some(t) => (t, ids),
        None => (text_tree(ids.id(prefix)), ids.next()),
    }
}

/// A value, or the given one where there is none.
pub open spec fn or_tree(value: Option<JsonTree>, default: JsonTree) -> JsonTree {
    match value {
        Some(t) => t,
        None => default,
    }
}

/// A copy of a value, or a new identifier where there is none.
fn copy_or_id(value: Option<&Json>, prefix: &str, ids: &mut IdSource) -> (r: Json)
    ensures
        r.tree() == value_or_id(crate::json::tree_of(value), prefix@, *old(ids)).0,
        *final(ids) == value_or_id(crate::json::tree_of(value), prefix@, *old(ids)).1,
{
    match value {
        Some(v) => v.copy(),
        None => Json::Str(ids.take_id(prefix)),
    }
}

/// A copy of a value, or the given text where there is none.
fn copy_or_text(value: Option<&Json>, default: &str) -> (r: Json)
    ensures
        r.tree() == or_tree(crate::json::tree_of(value), text_tree(default@)),
{
    match value {
        Some(v) => v.copy(),
        None => Json::text(default),
    }
}

/// The event that opens the stream: the message without content, and with no token put out yet.
pub open spec fn start_event(message: JsonTree, ids: IdSource) -> (JsonTree, IdSource) {
    let (id, ids1) = value_or_id(message.get("id"@), "msg"@, ids);
    let empty = JsonTree::Object(
        no_fields().insert("id"@, id).insert("type"@, text_tree("message"@)).insert(
            "role"@,
            text_tree("assistant"@),
        ).insert("model"@, or_tree(message.get("model"@), text_tree("glm"@))).insert(
            "content"@,
            JsonTree::Array(Seq::empty()),
        ).insert("stop_reason"@, JsonTree::Null).insert("stop_sequence"@, JsonTree::Null).insert(
            "usage"@,
            token_counts(usage_count(message, "input_tokens"@), 0),
        ),
    );
    (
        JsonTree::Object(
            no_fields().insert("type"@, text_tree("message_start"@)).insert("message"@, empty),
        ),
        ids1,
    )
}

/// The event that opens the stream.
fn make_start_event(message: &Json, ids: &mut IdSource) -> (r: Json)
    ensures
        r.tree() == start_event(message.tree(), *old(ids)).0,
        *final(ids) == start_event(message.tree(), *old(ids)).1,
{
    let input = find_usage_count(message, "input_tokens");
    let id = copy_or_id(message.get("id"), "msg", ids);
    let none: Vec<Json> = Vec::new();
    proof {
        assert(trees(none@) =~= Seq::<JsonTree>::empty());
    }
    let mut empty = Fields::new();
    empty.put("id", id);
    empty.put("type", Json::text("message"));
    empty.put("role", Json::text("assistant"));
    empty.put("model", copy_or_text(message.get("model"), "glm"));
    empty.put("content", Json::array(none));
    empty.put("stop_reason", Json::Null);
    empty.put("stop_sequence", Json::Null);
    empty.put("usage", make_token_counts(input, 0));
    let mut f = Fields::new();
    f.put("type", Json::text("message_start"));
    f.put("message", empty.done());
    f.done()
}

/// The event that opens a block.
pub open spec fn block_start(index: u64, block: JsonTree) -> JsonTree {
    JsonTree::Object(
        no_fields().insert("type"@, text_tree("content_block_start"@)).insert(
            "index"@,
            number(index),
        ).insert("content_block"@, block),
    )
}

/// The event that carries what a block holds.
pub open spec fn block_delta(index: u64, delta: JsonTree) -> JsonTree {
    JsonTree::Object(
        no_fields().insert("type"@, text_tree("content_block_delta"@)).insert(
            "index"@,
            number(index),
        ).insert("delta"@, delta),
    )
}

/// The event that closes a block.
pub open spec fn block_stop(index: u64) -> JsonTree {
    JsonTree::Object(
        no_fields().insert("type"@, text_tree("content_block_stop"@)).insert(
            "index"@,
            number(index),
        ),
    )
}

/// The three events of a block: it is opened, what it holds is carried, and it is closed.
pub open spec fn three_events(index: u64, opened: JsonTree, delta: JsonTree) -> Seq<char> {
    sse_event("content_block_start"@, block_start(index, opened)) + sse_event(
        "content_block_delta"@,
        block_delta(index, delta),
    ) + sse_event("content_block_stop"@, block_stop(index))
}

/// Adds the three events of a block.
fn push_block(body: &mut String, index: u64, opened: Json, delta: Json)
    ensures
        final(body)@ == old(body)@ + three_events(index, opened.tree(), delta.tree()),
{
    let ghost before = body@;
    let mut start = Fields::new();
    start.put("type", Json::text("content_block_start"));
    start.put("index", Json::unsigned(index));
    start.put("content_block", opened);
    push_anthropic_sse_event(body, "content_block_start", &start.done());
    let mut carried = Fields::new();
    carried.put("type", Json::text("content_block_delta"));
    carried.put("index", Json::unsigned(index));
    carried.put("delta", delta);
    push_anthropic_sse_event(body, "content_block_delta", &carried.done());
    let mut stop = Fields::new();
    stop.put("type", Json::text("content_block_stop"));
    stop.put("index", Json::unsigned(index));
    push_anthropic_sse_event(body, "content_block_stop", &stop.done());
    proof {
        assert(body@ =~= before + three_events(index, opened.tree(), delta.tree()));
    }
}

/// The opening of a tool use: its input is still empty.
pub open spec fn opened_tool_use(id: JsonTree, name: JsonTree) -> JsonTree {
    JsonTree::Object(
        no_fields().insert("type"@, text_tree("tool_use"@)).insert("id"@, id).insert(
            "name"@,
            name,
        ).insert("input"@, JsonTree::Object(no_fields())),
    )
}

/// The input of a tool use, as a piece of JSON text.
pub open spec fn input_delta(input: JsonTree) -> JsonTree {
    JsonTree::Object(
        no_fields().insert("type"@, text_tree("input_json_delta"@)).insert(
            "partial_json"@,
            text_tree(json_text(input)),
        ),
    )
}

/// The text of a block.
pub open spec fn text_delta(text: Seq<char>) -> JsonTree {
    JsonTree::Object(
        no_fields().insert("type"@, text_tree("text_delta"@)).insert("text"@, text_tree(text)),
    )
}

/// The events of one block, and where the next identifier comes from. What is no tool use is told
/// as text.
pub open spec fn block_events(index: u64, block: JsonTree, ids: IdSource) -> (
    Seq<char>,
    IdSource,
) {
    if is_block(block, "tool_use"@) {
        let (id, ids1) = value_or_id(block.get("id"@), "toolu"@, ids);
        (
            three_events(
                index,
                opened_tool_use(id, or_tree(block.get("name"@), text_tree("tool"@))),
                input_delta(or_tree(block.get("input"@), JsonTree::Object(no_fields()))),
            ),
            ids1,
        )
    } else {
        (
            three_events(
                index,
                text_block(Seq::empty()),
                text_delta(or_empty(block.str_at("text"@))),
            ),
            ids,
        )
    }
}

/// Adds the events of one block.
fn push_block_events(body: &mut String, index: u64, block: &Json, ids: &mut IdSource)
    ensures
        final(body)@ == old(body)@ + block_events(index, block.tree(), *old(ids)).0,
        *final(ids) == block_events(index, block.tree(), *old(ids)).1,
{
    let is_tool_use = match block.str_at("type") {
        Some(t) => str_eq(t, "tool_use"),
        None => false,
    };
    if is_tool_use {
        let mut opened = Fields::new();
        opened.put("type", Json::text("tool_use"));
        opened.put("id", copy_or_id(block.get("id"), "toolu", ids));
        opened.put("name", copy_or_text(block.get("name"), "tool"));
        opened.put("input", Fields::new().done());
        let input_text = match block.get("input") {
            Some(input) => input.to_text(),
            None => Fields::new().done().to_text(),
        };
        let mut delta = Fields::new();
        delta.put("type", Json::text("input_json_delta"));
        delta.put("partial_json", Json::Str(input_text));
        push_block(body, index, opened.done(), delta.done());
    } else {
        let mut opened = Fields::new();
        opened.put("type", Json::text("text"));
        opened.put("text", Json::Str(String::new()));
        let text = match block.str_at("text") {
            Some(s) => s.to_owned(),
            None => String::new(),
        };
        let mut delta = Fields::new();
        delta.put("type", Json::text("text_delta"));
        delta.put("text", Json::Str(text));
        push_block(body, index, opened.done(), delta.done());
    }
}

/// The events of a list of blocks, numbered from 0, and where the next identifier comes from.
pub open spec fn content_events(blocks: Seq<JsonTree>, ids: IdSource) -> (Seq<char>, IdSource)
    decreases blocks.len(),
{
    if blocks.len() == 0 {
        (Seq::empty(), ids)
    } else {
        let (told, ids1) = content_events(blocks.drop_last(), ids);
        let (more, ids2) = block_events((blocks.len() - 1) as u64, blocks.last(), ids1);
        (told + more, ids2)
    }
}

/// The event that says why the message ended and how many tokens were put out.
pub open spec fn end_event(message: JsonTree) -> JsonTree {
    JsonTree::Object(
        no_fields().insert("type"@, text_tree("message_delta"@)).insert(
            "delta"@,
            JsonTree::Object(
                no_fields().insert(
                    "stop_reason"@,
                    or_tree(message.get("stop_reason"@), JsonTree::Null),
                ).insert("stop_sequence"@, JsonTree::Null),
            ),
        ).insert(
            "usage"@,
            JsonTree::Object(
                no_fields().insert(
                    "output_tokens"@,
                    number(usage_count(message, "output_tokens"@)),
                ),
            ),
        ),
    )
}

/// The event that closes the stream.
pub open spec fn stop_event() -> JsonTree {
    JsonTree::Object(no_fields().insert("type"@, text_tree("message_stop"@)))
}

/// What follows the content in the stream.
pub open spec fn stream_tail(message: JsonTree) -> Seq<char> {
    sse_event("message_delta"@, end_event(message)) + sse_event("message_stop"@, stop_event())
        + "data: [DONE]\n\n"@
}

/// The stream that tells a message, and where the next identifier comes from.
pub open spec fn message_stream(message: JsonTree, ids: IdSource) -> (Seq<char>, IdSource) {
    let (start, ids1) = start_event(message, ids);
    let (told, ids2) = content_events(message.items_at("content"@), ids1);
    (sse_event("message_start"@, start) + told + stream_tail(message), ids2)
}

/// Adds what follows the content in the stream.
fn push_tail(body: &mut String, message: &Json)
    ensures
        final(body)@ == old(body)@ + stream_tail(message.tree()),
{
    let ghost before = body@;
    let stop_reason = match message.get("stop_reason") {
        Some(v) => v.copy(),
        None => Json::Null,
    };
    let mut delta = Fields::new();
    delta.put("stop_reason", stop_reason);
    delta.put("stop_sequence", Json::Null);
    let mut usage = Fields::new();
    usage.put("output_tokens", Json::unsigned(find_usage_count(message, "output_tokens")));
    let mut end = Fields::new();
    end.put("type", Json::text("message_delta"));
    end.put("delta", delta.done());
    end.put("usage", usage.done());
    push_anthropic_sse_event(body, "message_delta", &end.done());
    let mut stop = Fields::new();
    stop.put("type", Json::text("message_stop"));
    push_anthropic_sse_event(body, "message_stop", &stop.done());
    body.append("data: [DONE]\n\n");
    proof {
        assert(body@ =~= before + stream_tail(message.tree()));
    }
}

/// The stream that tells a message: it is opened, its blocks are told one after the other, and it
/// is closed.
pub fn synthesize_anthropic_sse(message: &Json, ids: &mut IdSource) -> (r: String)
    ensures
        r@ == message_stream(message.tree(), *old(ids)).0,
        *final(ids) == message_stream(message.tree(), *old(ids)).1,
{
    let mut body = String::new();
    let start = make_start_event(message, ids);
    push_anthropic_sse_event(&mut body, "message_start", &start);
    let ghost head = body@;
    let ghost ids1 = *ids;
    let ghost blocks = message.tree().items_at("content"@);
    proof {
        assert(head =~= sse_event("message_start"@, start.tree()));
        assert(head =~= head + content_events(blocks.take(0), ids1).0);
    }
    match message.array_at("content") {
        Some(items) => {
            let mut i: usize = 0;
            while i < items.len()
                invariant
                    i <= items@.len(),
                    blocks == trees(items@),
                    body@ == head + content_events(blocks.take(i as int), ids1).0,
                    *ids == content_events(blocks.take(i as int), ids1).1,
                decreases items@.len() - i,
            {
                proof {
                    assert(blocks.take(i + 1).drop_last() =~= blocks.take(i as int));
                }
                push_block_events(&mut body, i as u64, &items[i], ids);
                proof {
                    let told = content_events(blocks.take(i as int), ids1);
                    let more = block_events(i as u64, blocks[i as int], told.1).0;
                    assert(head + told.0 + more =~= head + (told.0 + more));
                }
                i = i + 1;
            }
            proof {
                assert(blocks.take(i as int) =~= blocks);
            }
        },
        None => {
            proof {
                assert(blocks.take(0) =~= blocks);
            }
        },
    }
    push_tail(&mut body, message);
    body
}

/// Blocks that need no new identifier leave the source of identifiers as it is.
proof fn lemma_content_keeps_ids(blocks: Seq<JsonTree>, ids: IdSource)
    requires
        forall|i: int|
            0 <= i < blocks.len() && is_block(#[trigger] blocks[i], "tool_use"@) ==> blocks[i].get(
                "id"@,
            ) is Some,
    ensures
        content_events(blocks, ids).1 == ids,
    decreases blocks.len(),
{
    if blocks.len() > 0 {
        let rest = blocks.drop_last();
        assert forall|i: int|
            0 <= i < rest.len() && is_block(#[trigger] rest[i], "tool_use"@) implies rest[i].get(
            "id"@,
        ) is Some by {
            assert(rest[i] == blocks[i]);
        }
        lemma_content_keeps_ids(rest, ids);
        assert(blocks.last() == blocks[blocks.len() - 1]);
    }
}

/// The stream of a message that was made from a completion carries the identifiers of that message
/// and needs no new one.
pub proof fn law_stream_keeps_identifiers(
    openai: JsonTree,
    requested_model: Seq<char>,
    ids: IdSource,
    later: IdSource,
)
    ensures
        ({
            let message = anthropic_message(openai, requested_model, ids).0;
            &&& message.get("id"@) is Some
            &&& start_event(message, later).0.get("message"@) matches Some(opened)
                && opened.get("id"@) == message.get("id"@)
            &&& message_stream(message, later).1 == later
        }),
{
    reveal_strlit("id");
    reveal_strlit("type");
    reveal_strlit("role");
    reveal_strlit("model");
    reveal_strlit("name");
    reveal_strlit("text");
    reveal_strlit("input");
    reveal_strlit("content");
    reveal_strlit("stop_reason");
    reveal_strlit("stop_sequence");
    reveal_strlit("usage");
    reveal_strlit("message");
    reveal_strlit("tool_use");
    assert("id"@.len() == 2);
    assert("type"@.len() == 4 && "type"@[0] == 't' && "type"@[1] == 'y');
    assert("role"@.len() == 4);
    assert("name"@.len() == 4 && "name"@[0] == 'n');
    assert("text"@.len() == 4 && "text"@[1] == 'e');
    assert("model"@.len() == 5);
    assert("usage"@.len() == 5);
    assert("input"@.len() == 5);
    assert("content"@.len() == 7 && "content"@[0] == 'c');
    assert("message"@.len() == 7 && "message"@[0] == 'm');
    assert("stop_reason"@.len() == 11);
    assert("stop_sequence"@.len() == 13);
    assert("tool_use"@.len() == 8);
    let message = anthropic_message(openai, requested_model, ids).0;
    let chat = crate::completion::choice_message(openai);
    let blocks = message_content(chat);
    assert(message.get("content"@) == Some(JsonTree::Array(blocks)));
    assert(message.items_at("content"@) == blocks);
    assert forall|i: int|
        0 <= i < blocks.len() && is_block(#[trigger] blocks[i], "tool_use"@) implies blocks[i].get(
        "id"@,
    ) is Some by {
        let calls = chat.items_at("tool_calls"@);
        let uses = calls.map_values(|c: JsonTree| tool_use(c));
        let text = or_empty(chat.str_at("content"@));
        if text.len() > 0 && i == 0 {
            assert(blocks[i] == text_block(text));
            assert(blocks[i].str_at("type"@) == Some("text"@));
            assert("text"@ != "tool_use"@);
        } else {
            let k = if text.len() > 0 {
                i - 1
            } else {
                i
            };
            assert(blocks[i] == uses[k]);
            assert(blocks[i] == tool_use(calls[k]));
        }
    }
    lemma_content_keeps_ids(blocks, start_event(message, later).1);
}

/// A stream begins with the event that opens the message, and ends with the mark of its end.
pub proof fn law_stream_has_both_ends(message: JsonTree, ids: IdSource)
    ensures
        starts_with(message_stream(message, ids).0, "event: "@ + "message_start"@ + "\n"@),
        ({
            let stream = message_stream(message, ids).0;
            let mark = "data: [DONE]\n\n"@;
            mark.len() <= stream.len() && stream.skip(stream.len() - mark.len()) == mark
        }),
{
    let stream = message_stream(message, ids).0;
    let opening = "event: "@ + "message_start"@ + "\n"@;
    let mark = "data: [DONE]\n\n"@;
    assert(stream.subrange(0, opening.len() as int) =~= opening);
    assert(stream.skip(stream.len() - mark.len()) =~= mark);
}

/// The text of a list of events: each with its name and its data.
pub open spec fn told(events: Seq<(Seq<char>, JsonTree)>) -> Seq<char>
    decreases events.len(),
{
    if events.len() == 0 {
        Seq::empty()
    } else {
        told(events.drop_last()) + "event: "@ + events.last().0 + "\ndata: "@ + json_text(
            events.last().1,
        ) + "\n\n"@
    }
}

/// One more event comes last.
proof fn lemma_told(events: Seq<(Seq<char>, JsonTree)>, name: Seq<char>, data: JsonTree)
    ensures
        told(events.push((name, data))) == told(events) + sse_event(name, data),
{
    reveal_strlit("\n");
    reveal_strlit("data: ");
    reveal_strlit("\ndata: ");
    assert("\ndata: "@ =~= "\n"@ + "data: "@);
    assert(events.push((name, data)).drop_last() =~= events);
    assert(told(events.push((name, data))) =~= told(events) + sse_event(name, data));
}

/// Whether three events tell a block in the given place: it is opened, carried and closed there. A
/// tool use is opened with its identifier and its name, and the JSON text of its input is carried;
/// any other block is opened as an empty text, and its text is carried.
pub open spec fn tell_block(
    events: Seq<(Seq<char>, JsonTree)>,
    index: int,
    block: JsonTree,
) -> bool {
    let (start, delta, stop) = (events[0].1, events[1].1, events[2].1);
    &&& events.len() == 3
    &&& events[0].0 == "content_block_start"@
    &&& events[1].0 == "content_block_delta"@
    &&& events[2].0 == "content_block_stop"@
    &&& start.str_at("type"@) == Some("content_block_start"@)
    &&& delta.str_at("type"@) == Some("content_block_delta"@)
    &&& stop.str_at("type"@) == Some("content_block_stop"@)
    &&& start.u64_at("index"@) matches Some(n) && n == index
    &&& delta.u64_at("index"@) matches Some(n) && n == index
    &&& stop.u64_at("index"@) matches Some(n) && n == index
    &&& start.get("content_block"@) matches Some(opened)
    &&& delta.get("delta"@) matches Some(carried)
    &&& if block.str_at("type"@) == Some("tool_use"@) {
        &&& opened.str_at("type"@) == Some("tool_use"@)
        &&& opened.get("input"@) == Some(JsonTree::Object(Map::empty()))
        &&& opened.get("id"@) is Some
        &&& block.get("id"@) is Some ==> opened.get("id"@) == block.get("id"@)
        &&& block.get("name"@) is Some ==> opened.get("name"@) == block.get("name"@)
        &&& block.get("name"@) is None ==> opened.str_at("name"@) == Some("tool"@)
        &&& carried.str_at("type"@) == Some("input_json_delta"@)
        &&& carried.str_at("partial_json"@) == Some(
            json_text(
                match block.get("input"@) {
                    Some(input) => input,
                    None => JsonTree::Object(Map::empty()),
                },
            ),
        )
    } else {
        &&& opened.str_at("type"@) == Some("text"@)
        &&& opened.str_at("text"@) == Some(Seq::<char>::empty())
        &&& carried.str_at("type"@) == Some("text_delta"@)
        &&& carried.str_at("text"@) == Some(
            match block.str_at("text"@) {
                Some(text) => text,
                None => Seq::empty(),
            },
        )
    }
}

/// The events of one block tell it.
#[verifier::rlimit(50)]
proof fn lemma_block_is_told(
    before: Seq<(Seq<char>, JsonTree)>,
    index: u64,
    block: JsonTree,
    ids: IdSource,
) -> (events: Seq<(Seq<char>, JsonTree)>)
    ensures
        tell_block(events, index as int, block),
        told(before + events) == told(before) + block_events(index, block, ids).0,
        block.str_at("type"@) == Some("tool_use"@) && block.get("id"@) is None ==> events[0].1.get(
            "content_block"@,
        )->0.str_at("id"@) == Some(ids.id("toolu"@)),
{
    reveal_strlit("type");
    reveal_strlit("index");
    reveal_strlit("content_block");
    reveal_strlit("delta");
    reveal_strlit("id");
    reveal_strlit("name");
    reveal_strlit("input");
    reveal_strlit("partial_json");
    reveal_strlit("text");
    assert("type"@.len() == 4 && "index"@.len() == 5 && "content_block"@.len() == 13);
    assert("delta"@.len() == 5 && "id"@.len() == 2 && "name"@.len() == 4 && "input"@.len() == 5);
    assert("partial_json"@.len() == 12 && "text"@.len() == 4 && "type"@[0] == 't');
    assert("name"@[0] == 'n' && "type"@[1] == 'y' && "text"@[1] == 'e' && "index"@[0] == 'i');
    assert("delta"@[0] == 'd' && "index"@[2] == 'd' && "input"@[2] == 'p' && "input"@[0] == 'i');
    assert("text"@[0] == 't');
    let (opened, carried) = if is_block(block, "tool_use"@) {
        (
            opened_tool_use(
                value_or_id(block.get("id"@), "toolu"@, ids).0,
                or_tree(block.get("name"@), text_tree("tool"@)),
            ),
            input_delta(or_tree(block.get("input"@), JsonTree::Object(no_fields()))),
        )
    } else {
        (text_block(Seq::empty()), text_delta(or_empty(block.str_at("text"@))))
    };
    let a = ("content_block_start"@, block_start(index, opened));
    let b = ("content_block_delta"@, block_delta(index, carried));
    let c = ("content_block_stop"@, block_stop(index));
    let events = seq![a, b, c];
    lemma_told(before, a.0, a.1);
    lemma_told(before.push(a), b.0, b.1);
    lemma_told(before.push(a).push(b), c.0, c.1);
    assert(before + events =~= before.push(a).push(b).push(c));
    assert(told(before + events) =~= told(before) + block_events(index, block, ids).0);
    events
}

/// The events of a list of blocks tell each of them in its place.
#[verifier::rlimit(50)]
proof fn lemma_blocks_are_told(
    before: Seq<(Seq<char>, JsonTree)>,
    blocks: Seq<JsonTree>,
    ids: IdSource,
) -> (events: Seq<(Seq<char>, JsonTree)>)
    requires
        blocks.len() <= u64::MAX,
    ensures
        events.len() == 3 * blocks.len(),
        forall|i: int|
            #![trigger blocks[i]]
            0 <= i < blocks.len() ==> tell_block(events.subrange(3 * i, 3 * i + 3), i, blocks[i]),
        told(before + events) == told(before) + content_events(blocks, ids).0,
    decreases blocks.len(),
{
    if blocks.len() == 0 {
        let events = Seq::<(Seq<char>, JsonTree)>::empty();
        assert(before + events =~= before);
        assert(told(before) + Seq::<char>::empty() =~= told(before));
        events
    } else {
        let rest = blocks.drop_last();
        let first = lemma_blocks_are_told(before, rest, ids);
        let ids1 = content_events(rest, ids).1;
        let n = rest.len() as int;
        let last = lemma_block_is_told(before + first, n as u64, blocks.last(), ids1);
        let events = first + last;
        assert(before + events =~= before + first + last);
        assert(told(before + events) =~= told(before) + content_events(blocks, ids).0);
        assert forall|i: int| #![trigger blocks[i]] 0 <= i < blocks.len() implies tell_block(
            events.subrange(3 * i, 3 * i + 3),
            i,
            blocks[i],
        ) by {
            if i < n {
                assert(rest[i] == blocks[i]);
                assert(events.subrange(3 * i, 3 * i + 3) =~= first.subrange(3 * i, 3 * i + 3));
            } else {
                assert(events.subrange(3 * i, 3 * i + 3) =~= last);
            }
        }
        events
    }
}

/// Whether an event opens the stream of a message: with the identifier and the model of the message,
/// where it has them, without content, and with the tokens that were put in.
pub open spec fn opens_message(event: (Seq<char>, JsonTree), message: JsonTree) -> bool {
    &&& event.0 == "message_start"@
    &&& event.1.str_at("type"@) == Some("message_start"@)
    &&& event.1.get("message"@) matches Some(opened)
    &&& opened.str_at("type"@) == Some("message"@)
    &&& opened.str_at("role"@) == Some("assistant"@)
    &&& opened.get("id"@) is Some
    &&& message.get("id"@) is Some ==> opened.get("id"@) == message.get("id"@)
    &&& message.get("model"@) is Some ==> opened.get("model"@) == message.get("model"@)
    &&& message.get("model"@) is None ==> opened.str_at("model"@) == Some("glm"@)
    &&& opened.get("content"@) == Some(JsonTree::Array(Seq::empty()))
    &&& opened.get("stop_reason"@) == Some(JsonTree::Null)
    &&& opened.get("stop_sequence"@) == Some(JsonTree::Null)
    &&& opened.get("usage"@) matches Some(usage)
    &&& usage.u64_at("output_tokens"@) == Some(0u64)
    &&& usage.u64_at("input_tokens"@) matches Some(n) && counts(message, "input_tokens"@, n)
}

/// Whether a number is the count that a message has in its field `usage`; 0 where it has none.
pub open spec fn counts(message: JsonTree, key: Seq<char>, n: u64) -> bool {
    match message.get("usage"@) {
        Some(usage) => match usage.u64_at(key) {
            Some(m) => n == m,
            None => n == 0,
        },
        None => n == 0,
    }
}

/// Whether an event says why a message ended, and how many tokens were put out.
pub open spec fn ends_message(event: (Seq<char>, JsonTree), message: JsonTree) -> bool {
    &&& event.0 == "message_delta"@
    &&& event.1.str_at("type"@) == Some("message_delta"@)
    &&& event.1.get("delta"@) matches Some(delta)
    &&& message.get("stop_reason"@) is Some ==> delta.get("stop_reason"@) == message.get(
        "stop_reason"@,
    )
    &&& message.get("stop_reason"@) is None ==> delta.get("stop_reason"@) == Some(JsonTree::Null)
    &&& delta.get("stop_sequence"@) == Some(JsonTree::Null)
    &&& event.1.get("usage"@) matches Some(usage)
    &&& usage.u64_at("output_tokens"@) matches Some(n) && counts(message, "output_tokens"@, n)
}

/// The stream of a message tells all of it: an event that opens it, three events for each of its
/// blocks, in their places, an event that says why it ended, one that closes it, and the mark of the
/// end. So the blocks of the message can be got back from the events.
#[verifier::rlimit(50)]
pub proof fn law_stream_tells_the_message(message: JsonTree, ids: IdSource) -> (events: Seq<
    (Seq<char>, JsonTree),
>)
    requires
        message.items_at("content"@).len() <= u64::MAX,
    ensures
        ({
            let blocks = message.items_at("content"@);
            let n = blocks.len() as int;
            &&& message_stream(message, ids).0 == told(events) + "data: [DONE]\n\n"@
            &&& events.len() == 3 * n + 3
            &&& opens_message(events[0], message)
            &&& message.get("id"@) is None ==> events[0].1.get("message"@)->0.str_at("id"@) == Some(
                ids.id("msg"@),
            )
            &&& forall|i: int|
                #![trigger blocks[i]]
                0 <= i < n ==> tell_block(events.subrange(3 * i + 1, 3 * i + 4), i, blocks[i])
            &&& ends_message(events[3 * n + 1], message)
            &&& events[3 * n + 2].0 == "message_stop"@
            &&& events[3 * n + 2].1.str_at("type"@) == Some("message_stop"@)
        }),
{
    reveal_strlit("type");
    reveal_strlit("message");
    reveal_strlit("role");
    reveal_strlit("id");
    reveal_strlit("model");
    reveal_strlit("content");
    reveal_strlit("stop_reason");
    reveal_strlit("stop_sequence");
    reveal_strlit("usage");
    reveal_strlit("input_tokens");
    reveal_strlit("output_tokens");
    reveal_strlit("delta");
    assert("type"@.len() == 4 && "message"@.len() == 7 && "role"@.len() == 4 && "id"@.len() == 2);
    assert("model"@.len() == 5 && "content"@.len() == 7 && "stop_reason"@.len() == 11);
    assert("stop_sequence"@.len() == 13 && "usage"@.len() == 5 && "input_tokens"@.len() == 12);
    assert("output_tokens"@.len() == 13 && "delta"@.len() == 5 && "type"@[0] == 't');
    assert("role"@[0] == 'r' && "message"@[0] == 'm' && "content"@[0] == 'c');
    assert("model"@[0] == 'm' && "usage"@[0] == 'u' && "delta"@[0] == 'd');
    assert("stop_sequence"@[0] == 's' && "output_tokens"@[0] == 'o');
    let blocks = message.items_at("content"@);
    let n = blocks.len() as int;
    let (start, ids1) = start_event(message, ids);
    let none = Seq::<(Seq<char>, JsonTree)>::empty();
    let first = ("message_start"@, start);
    lemma_told(none, first.0, first.1);
    assert(none.push(first) =~= seq![first]);
    let body = lemma_blocks_are_told(seq![first], blocks, ids1);
    let so_far = seq![first] + body;
    let end = ("message_delta"@, end_event(message));
    let stop = ("message_stop"@, stop_event());
    lemma_told(so_far, end.0, end.1);
    lemma_told(so_far.push(end), stop.0, stop.1);
    let events = so_far.push(end).push(stop);
    assert(events[0] == first);
    assert(events[3 * n + 1] == end);
    assert(events[3 * n + 2] == stop);
    assert(told(none) =~= Seq::<char>::empty());
    assert(message_stream(message, ids).0 =~= told(events) + "data: [DONE]\n\n"@);
    assert forall|i: int| #![trigger blocks[i]] 0 <= i < n implies tell_block(
        events.subrange(3 * i + 1, 3 * i + 4),
        i,
        blocks[i],
    ) by {
        assert(events.subrange(3 * i + 1, 3 * i + 4) =~= body.subrange(3 * i, 3 * i + 3));
    }
    events
}

} // verus!
