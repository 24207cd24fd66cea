//! The tokens that a response reports, and the records that are kept of them.
use crate::bytes::{loose_text, text_lossy};
use crate::codec::{json_parse, json_parse_bytes};
use crate::json::{Json, JsonTree};
use crate::text::{after_prefix, str_eq, strip_prefix, trim, trimmed};
use vstd::prelude::*;
use vstd::string::*;

verus! {

/// The tokens that a response reports.
#[derive(Clone, Copy, Debug, PartialEq, Eq, Structural)]
pub struct RequestUsage {
    pub total_tokens: u64,
    pub input_tokens: u64,
    pub output_tokens: u64,
}

/// One request of a user, as it is kept.
#[derive(Debug)]
pub struct UsageRecord {
    pub ts: u64,
    pub user_id: u64,
    pub email: String,
    pub total_tokens: u64,
    pub input_tokens: u64,
    pub output_tokens: u64,
    pub model: String,
    pub stream: bool,
}

/// A number, or the largest one that there is room for where it is larger.
pub open spec fn saturating(n: nat) -> u64 {
    if n <= u64::MAX {
        n as u64
    } else {
        u64::MAX
    }
}

/// A count under one name, or, where that name is missing, under another; 0 where what is there is
/// no count.
pub open spec fn count_at(usage: JsonTree, first: Seq<char>, second: Seq<char>) -> u64 {
    let found = match usage.get(first) {
        Some(v) => Some(v),
        None => usage.get(second),
    };
    match found {
        Some(v) => match v.as_u64() {
            Some(n) => n,
            None => 0,
        },
        None => 0,
    }
}

/// A count under one name, or, where that name is missing, under another.
fn count_of(usage: &Json, first: &str, second: &str) -> (r: u64)
    ensures
        r == count_at(usage.tree(), first@, second@),
{
    let found = match usage.get(first) {
        Some(v) => Some(v),
        None => usage.get(second),
    };
    match found {
        Some(v) => match v.as_u64() {
            Some(n) => n,
            None => 0,
        },
        None => 0,
    }
}

/// The tokens that a response reports, where it has a field for them. Without a total it is the
/// sum of the other two.
pub open spec fn usage_in(value: JsonTree) -> Option<RequestUsage> {
    match value.get("usage"@) {
        Some(usage) => {
            let input = count_at(usage, "prompt_tokens"@, "input_tokens"@);
            let output = count_at(usage, "completion_tokens"@, "output_tokens"@);
            let total = match usage.u64_at("total_tokens"@) {
                Some(n) => n,
                None => saturating((input + output) as nat),
            };
            Some(
                RequestUsage { total_tokens: total, input_tokens: input, output_tokens: output },
            )
        },
        None => None,
    }
}

/// The tokens that a response reports, where it has a field for them.
pub fn extract_usage_from_value(value: &Json) -> (r: Option<RequestUsage>)
    ensures
        r == usage_in(value.tree()),
{
    match value.get("usage") {
        Some(usage) => {
            let input_tokens = count_of(usage, "prompt_tokens", "input_tokens");
            let output_tokens = count_of(usage, "completion_tokens", "output_tokens");
            let total_tokens = match usage.u64_at("total_tokens") {
                Some(n) => n,
                None => input_tokens.saturating_add(output_tokens),
            };
            Some(RequestUsage { total_tokens, input_tokens, output_tokens })
        },
        None => None,
    }
}

/// The tokens that a value reports, where it could be read.
pub open spec fn usage_if_read(value: Result<JsonTree, Seq<char>>) -> Option<RequestUsage> {
    match value {
        Ok(t) => usage_in(t),
        Err(_) => None,
    }
}

/// The tokens that the body of a response reports, where it is JSON text that does.
pub fn extract_usage_from_json_bytes(body: &[u8]) -> (r: Option<RequestUsage>)
    ensures
        r == usage_if_read(json_parse_bytes(body@)),
{
    match Json::parse_bytes(body) {
        Ok(value) => extract_usage_from_value(&value),
        Err(_) => None,
    }
}

/// The text that a line of an event stream carries, where it carries any.
pub open spec fn event_data(line: Seq<char>) -> Option<Seq<char>> {
    match after_prefix(trim(line), "data:"@) {
        Some(rest) => {
            let data = trim(rest);
            if data.len() == 0 || data == "[DONE]"@ {
                None
            } else {
                Some(data)
            }
        },
        None => None,
    }
}

/// The text that a line of an event stream carries; none where it carries the mark of the end.
pub fn data_of_line(line: &str) -> (r: Option<String>)
    ensures
        crate::text::text_view(r) == event_data(line@),
{
    match strip_prefix(trimmed(line).as_str(), "data:") {
        Some(rest) => {
            let data = trimmed(rest.as_str());
            if data.as_str().is_empty() || str_eq(data.as_str(), "[DONE]") {
                None
            } else {
                Some(data)
            }
        },
        None => None,
    }
}

/// The tokens that a line of an event stream reports.
pub open spec fn usage_in_line(line: Seq<char>) -> Option<RequestUsage> {
    match event_data(line) {
        Some(data) => usage_if_read(json_parse(data)),
        None => None,
    }
}

/// The tokens that a line of an event stream reports, where it does.
pub fn extract_usage_from_sse_line(line: &[u8]) -> (r: Option<RequestUsage>)
    ensures
        r == usage_in_line(loose_text(line@)),
{
    let text = text_lossy(line);
    match data_of_line(text.as_str()) {
        Some(data) => match Json::parse(data.as_str()) {
            Ok(value) => extract_usage_from_value(&value),
            Err(_) => None,
        },
        None => None,
    }
}

/// What the lines of an event stream report: the last of them that does counts.
pub open spec fn latest_usage(
    before: Option<RequestUsage>,
    found: Option<RequestUsage>,
) -> Option<RequestUsage> {
    match found {
        Some(u) => Some(u),
        None => before,
    }
}

/// What the lines of an event stream have reported, one line further.
pub fn note_sse_line(before: Option<RequestUsage>, line: &[u8]) -> (r: Option<RequestUsage>)
    ensures
        r == latest_usage(before, usage_in_line(loose_text(line@))),
{
    match extract_usage_from_sse_line(line) {
        Some(found) => Some(found),
        None => before,
    }
}

/// What the lines of an event stream report, from the first to the last.
pub open spec fn stream_usage(lines: Seq<Seq<u8>>) -> Option<RequestUsage>
    decreases lines.len(),
{
    if lines.len() == 0 {
        None
    } else {
        latest_usage(stream_usage(lines.drop_last()), usage_in_line(loose_text(lines.last())))
    }
}

/// Of the lines of an event stream that report tokens the last one counts.
pub proof fn law_last_report_counts(lines: Seq<Seq<u8>>, i: int)
    requires
        0 <= i < lines.len(),
        usage_in_line(loose_text(lines[i])) is Some,
        forall|j: int|
            i < j < lines.len() ==> usage_in_line(loose_text(#[trigger] lines[j])) is None,
    ensures
        stream_usage(lines) == usage_in_line(loose_text(lines[i])),
    decreases lines.len(),
{
    if i < lines.len() - 1 {
        let before = lines.drop_last();
        assert forall|j: int| i < j < before.len() implies usage_in_line(
            loose_text(#[trigger] before[j]),
        ) is None by {
            assert(before[j] == lines[j]);
        }
        law_last_report_counts(before, i);
        assert(usage_in_line(loose_text(lines[lines.len() - 1])) is None);
    }
}

/// Whether a line of a ledger records a request of the given user.
pub open spec fn is_of(line: Option<UsageRecord>, user: u64) -> bool {
    line matches Some(record) && record.user_id == user
}

/// The tokens that a ledger records for a user. Lines that are no record do not count.
pub open spec fn consumed(ledger: Seq<Option<UsageRecord>>, user: u64) -> nat
    decreases ledger.len(),
{
    if ledger.len() == 0 {
        0
    } else {
        consumed(ledger.drop_last(), user) + if is_of(ledger.last(), user) {
            ledger.last()->0.total_tokens as nat
        } else {
            0
        }
    }
}

/// The tokens that a ledger records for a user, or the largest number where they are more.
pub fn load_user_consumed_tokens(ledger: &Vec<Option<UsageRecord>>, user_id: u64) -> (r: u64)
    ensures
        r == saturating(consumed(ledger@, user_id)),
{
    let mut total: u64 = 0;
    let mut i: usize = 0;
    while i < ledger.len()
        invariant
            i <= ledger@.len(),
            total == saturating(consumed(ledger@.take(i as int), user_id)),
        decreases ledger@.len() - i,
    {
        proof {
            assert(ledger@.take(i + 1).drop_last() =~= ledger@.take(i as int));
        }
        match &ledger[i] {
            Some(record) => if record.user_id == user_id {
                total = total.saturating_add(record.total_tokens);
            },
            None => {},
        }
        i = i + 1;
    }
    proof {
        assert(ledger@.take(i as int) =~= ledger@);
    }
    total
}

/// The lines of a ledger that record a request at `cutoff` or later; the others count as no record.
pub open spec fn since(ledger: Seq<Option<UsageRecord>>, cutoff: u64) -> Seq<Option<UsageRecord>> {
    ledger.map_values(
        |line: Option<UsageRecord>|
            match line {
                Some(record) => if record.ts >= cutoff {
                    Some(record)
                } else {
                    None
                },
                None => None,
            },
    )
}

/// The number of requests that a ledger records for a user.
pub open spec fn requests(ledger: Seq<Option<UsageRecord>>, user: u64) -> nat
    decreases ledger.len(),
{
    if ledger.len() == 0 {
        0
    } else {
        requests(ledger.drop_last(), user) + if is_of(ledger.last(), user) {
            1nat
        } else {
            0
        }
    }
}

/// The time a day before `now`, in milliseconds; the earliest time where there is none.
pub open spec fn day_before(now: u64) -> u64 {
    if now >= 86_400_000 {
        (now - 86_400_000) as u64
    } else {
        0
    }
}

/// The tokens that a ledger records for a user in the day before `now`, or the largest number
/// where they are more, and the number of requests.
pub fn load_user_consumed_tokens_last_24h(
    ledger: &Vec<Option<UsageRecord>>,
    user_id: u64,
    now: u64,
) -> (r: (u64, u64))
    ensures
        r.0 == saturating(consumed(since(ledger@, day_before(now)), user_id)),
        r.1 == requests(since(ledger@, day_before(now)), user_id),
{
    let cutoff = now.saturating_sub(86_400_000);
    let ghost recent = since(ledger@, cutoff);
    let mut total: u64 = 0;
    let mut count: u64 = 0;
    let mut i: usize = 0;
    while i < ledger.len()
        invariant
            i <= ledger.len(),
            recent == since(ledger@, cutoff),
            total == saturating(consumed(recent.take(i as int), user_id)),
            count == requests(recent.take(i as int), user_id),
            count <= i,
        decreases ledger@.len() - i,
    {
        proof {
            assert(recent.take(i + 1).drop_last() =~= recent.take(i as int));
            assert(recent.take(i + 1).last() == recent[i as int]);
        }
        match &ledger[i] {
            Some(record) => if record.user_id == user_id && record.ts >= cutoff {
                total = total.saturating_add(record.total_tokens);
                count = count.saturating_add(1);
            },
            None => {},
        }
        i = i + 1;
    }
    proof {
        assert(recent.take(i as int) =~= recent);
    }
    (total, count)
}

/// One more record adds its tokens to those of its user, and to those of no other.
pub proof fn law_record_counts_for_its_user(
    ledger: Seq<Option<UsageRecord>>,
    record: UsageRecord,
    user: u64,
)
    ensures
        consumed(ledger.push(Some(record)), user) == consumed(ledger, user) + if record.user_id
            == user {
            record.total_tokens as nat
        } else {
            0
        },
{
    assert(ledger.push(Some(record)).drop_last() =~= ledger);
}

/// A line that is no record changes nothing.
pub proof fn law_other_lines_do_not_count(ledger: Seq<Option<UsageRecord>>, user: u64)
    ensures
        consumed(ledger.push(None), user) == consumed(ledger, user),
{
    assert(ledger.push(None).drop_last() =~= ledger);
}

/// What was used in a part of the time is no more than what was used in all of it.
pub proof fn law_recent_use_is_part_of_all(
    ledger: Seq<Option<UsageRecord>>,
    user: u64,
    cutoff: u64,
)
    ensures
        consumed(since(ledger, cutoff), user) <= consumed(ledger, user),
    decreases ledger.len(),
{
    if ledger.len() > 0 {
        law_recent_use_is_part_of_all(ledger.drop_last(), user, cutoff);
        assert(since(ledger, cutoff).drop_last() =~= since(ledger.drop_last(), cutoff));
    }
}

/// A response reports its tokens in a field `usage`: what was put in under `prompt_tokens` or
/// `input_tokens`, what was put out under `completion_tokens` or `output_tokens`, and the total. A
/// total that is missing is the sum of the two, up to the largest number. A response without that
/// field reports nothing.
pub proof fn law_reported_tokens_are_read(value: JsonTree, usage: JsonTree, n: u64)
    ensures
        value.get("usage"@) is None <==> usage_in(value) is None,
        value.get("usage"@) == Some(usage) ==> {
            &&& usage_in(value) matches Some(r)
            &&& usage.u64_at("prompt_tokens"@) == Some(n) ==> r.input_tokens == n
            &&& usage.get("prompt_tokens"@) is None && usage.u64_at("input_tokens"@) == Some(n)
                ==> r.input_tokens == n
            &&& usage.get("prompt_tokens"@) is None && usage.get("input_tokens"@) is None
                ==> r.input_tokens == 0
            &&& usage.get("prompt_tokens"@) is Some && usage.u64_at("prompt_tokens"@) is None
                ==> r.input_tokens == 0
            &&& usage.get("completion_tokens"@) is Some && usage.u64_at("completion_tokens"@) is None
                ==> r.output_tokens == 0
            &&& usage.u64_at("completion_tokens"@) == Some(n) ==> r.output_tokens == n
            &&& usage.get("completion_tokens"@) is None && usage.u64_at("output_tokens"@) == Some(n)
                ==> r.output_tokens == n
            &&& usage.get("completion_tokens"@) is None && usage.get("output_tokens"@) is None
                ==> r.output_tokens == 0
            &&& usage.u64_at("total_tokens"@) == Some(n) ==> r.total_tokens == n
            &&& usage.u64_at("total_tokens"@) is None && r.input_tokens + r.output_tokens
                <= u64::MAX ==> r.total_tokens == r.input_tokens + r.output_tokens
            &&& usage.u64_at("total_tokens"@) is None && r.input_tokens + r.output_tokens > u64::MAX
                ==> r.total_tokens == u64::MAX
        },
{
}

/// A line `data: ` followed by JSON text reports what that text reports; the mark of the end, and a
/// line that carries nothing, report nothing.
pub proof fn law_event_line_is_read(data: Seq<char>, ending: Seq<char>)
    requires
        data.len() > 0,
        !crate::text::is_white(data[0]),
        !crate::text::is_white(data.last()),
        ending == Seq::<char>::empty() || ending == "\n"@ || ending == "\r\n"@,
    ensures
        data != "[DONE]"@ ==> usage_in_line("data: "@ + data + ending) == match json_parse(data) {
            Ok(value) => usage_in(value),
            Err(_) => None,
        },
        data != "[DONE]"@ ==> usage_in_line("data:"@ + data + ending) == usage_in_line(
            "data: "@ + data + ending,
        ),
        usage_in_line("data: [DONE]"@ + ending) is None,
        usage_in_line("event: "@ + data + ending) is None,
{
    reveal_strlit("data:");
    reveal_strlit("data: ");
    reveal_strlit("event: ");
    reveal_strlit("[DONE]");
    reveal_strlit("data: [DONE]");
    let line = "data: "@ + data;
    lemma_trim_ending(line, ending);
    assert(line.subrange(0, 5) =~= "data:"@);
    assert(line.skip(5) =~= seq![' '] + data);
    crate::text::law_white_space_is_trimmed(seq![' '], data, Seq::empty());
    assert(seq![' '] + data + Seq::<char>::empty() =~= seq![' '] + data);
    let close = "data:"@ + data;
    lemma_trim_ending(close, ending);
    assert(close.subrange(0, 5) =~= "data:"@);
    assert(close.skip(5) =~= data);
    crate::text::lemma_trimmed_stays(data);
    let done = "data: [DONE]"@;
    lemma_trim_ending(done, ending);
    assert(done.subrange(0, 5) =~= "data:"@);
    assert(done.skip(5) =~= seq![' '] + "[DONE]"@);
    crate::text::law_white_space_is_trimmed(seq![' '], "[DONE]"@, Seq::empty());
    assert(seq![' '] + "[DONE]"@ + Seq::<char>::empty() =~= seq![' '] + "[DONE]"@);
    let other = "event: "@ + data;
    lemma_trim_ending(other, ending);
    assert(other.subrange(0, 5)[0] == 'e');
    assert("data:"@[0] == 'd');
}

/// The ending of a line is trimmed away.
proof fn lemma_trim_ending(s: Seq<char>, ending: Seq<char>)
    requires
        s.len() > 0,
        !crate::text::is_white(s[0]),
        !crate::text::is_white(s.last()),
        ending == Seq::<char>::empty() || ending == "\n"@ || ending == "\r\n"@,
    ensures
        trim(s + ending) == s,
{
    reveal_strlit("\n");
    reveal_strlit("\r\n");
    assert forall|i: int| 0 <= i < ending.len() implies crate::text::is_white(
        #[trigger] ending[i],
    ) by {
        assert(i == 0 || i == 1);
    }
    crate::text::law_white_space_is_trimmed(Seq::empty(), s, ending);
    assert(Seq::<char>::empty() + s + ending =~= s + ending);
}

/// Tokens and requests of the last day are those of the records that are not older than a day: a
/// record counts just where its time is at most 86400000 milliseconds before now.
pub proof fn law_last_day_counts(
    ledger: Seq<Option<UsageRecord>>,
    record: UsageRecord,
    user: u64,
    now: u64,
)
    ensures
        ({
            let cutoff = day_before(now);
            let more = ledger.push(Some(record));
            let counts = record.user_id == user && record.ts + 86_400_000 >= now;
            &&& consumed(since(more, cutoff), user) == consumed(since(ledger, cutoff), user)
                + if counts {
                record.total_tokens as nat
            } else {
                0
            }
            &&& requests(since(more, cutoff), user) == requests(since(ledger, cutoff), user)
                + if counts {
                1nat
            } else {
                0
            }
            &&& consumed(since(ledger.push(None), cutoff), user) == consumed(
                since(ledger, cutoff),
                user,
            )
            &&& requests(since(ledger.push(None), cutoff), user) == requests(
                since(ledger, cutoff),
                user,
            )
        }),
        consumed(Seq::empty(), user) == 0,
        requests(Seq::empty(), user) == 0,
{
    let cutoff = day_before(now);
    let before = since(ledger, cutoff);
    let more = since(ledger.push(Some(record)), cutoff);
    let other = since(ledger.push(None), cutoff);
    assert(more.drop_last() =~= before);
    assert(other.drop_last() =~= before);
}

/// The order of the records does not matter: two ledgers, one after the other, count as much as both
/// together.
pub proof fn law_ledgers_add_up(
    first: Seq<Option<UsageRecord>>,
    second: Seq<Option<UsageRecord>>,
    user: u64,
)
    ensures
        consumed(first + second, user) == consumed(first, user) + consumed(second, user),
        requests(first + second, user) == requests(first, user) + requests(second, user),
    decreases second.len(),
{
    if second.len() == 0 {
        assert(first + second =~= first);
    } else {
        law_ledgers_add_up(first, second.drop_last(), user);
        assert((first + second).drop_last() =~= first + second.drop_last());
    }
}

/// A number that there is room for stays; a larger one becomes the largest.
pub proof fn law_sums_stop_at_the_largest(n: nat)
    ensures
        n <= u64::MAX ==> saturating(n) == n,
        n > u64::MAX ==> saturating(n) == u64::MAX,
{
}

/// A stream none of whose lines report tokens reports none.
pub proof fn law_silent_stream_reports_nothing(lines: Seq<Seq<u8>>)
    requires
        forall|j: int|
            0 <= j < lines.len() ==> usage_in_line(loose_text(#[trigger] lines[j])) is None,
    ensures
        stream_usage(lines) is None,
    decreases lines.len(),
{
    if lines.len() > 0 {
        let before = lines.drop_last();
        assert forall|j: int| 0 <= j < before.len() implies usage_in_line(
            loose_text(#[trigger] before[j]),
        ) is None by {
            assert(before[j] == lines[j]);
        }
        law_silent_stream_reports_nothing(before);
        assert(usage_in_line(loose_text(lines[lines.len() - 1])) is None);
    }
}

} // verus!
