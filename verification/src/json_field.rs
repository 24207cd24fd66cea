//! Fields of a JSON text, found, read and replaced in the text itself.
use crate::bytes::{lemma_encode_step, width_of};
use crate::text::{
    char_index, chars_of, find, find_char_from, find_text_from, is_white, starts_with, text_between,
    text_view, trim_start, begins_with, trimmed_start,
};
use vstd::prelude::*;
use vstd::string::*;
use vstd::utf8::encode_utf8;

verus! {

/// How a character stands inside a JSON string.
pub open spec fn escape_char(c: char) -> Seq<char> {
    if c == '"' {
        seq!['\\', '"']
    } else if c == '\\' {
        seq!['\\', '\\']
    } else if c == '\n' {
        seq!['\\', 'n']
    } else if c == '\r' {
        seq!['\\', 'r']
    } else if c == '\t' {
        seq!['\\', 't']
    } else {
        seq![c]
    }
}

/// How a text stands inside a JSON string.
pub open spec fn escape(s: Seq<char>) -> Seq<char>
    decreases s.len(),
{
    if s.len() == 0 {
        Seq::empty()
    } else {
        escape(s.drop_last()) + escape_char(s.last())
    }
}

/// `input` as it stands inside a JSON string: quotes, backslashes, line feeds, carriage returns
/// and tabs are escaped.
pub fn escape_json(input: &str) -> (r: String)
    ensures
        r@ == escape(input@),
{
    let chars = chars_of(input);
    let mut out = String::new();
    let mut i: usize = 0;
    while i < chars.len()
        invariant
            i <= chars@.len(),
            out@ == escape(chars@.take(i as int)),
        decreases chars@.len() - i,
    {
        let c = chars[i];
        proof {
            assert(chars@.take(i + 1).drop_last() =~= chars@.take(i as int));
        }
        let ghost before = out@;
        if c == '"' {
            out.push('\\');
            out.push('"');
        } else if c == '\\' {
            out.push('\\');
            out.push('\\');
        } else if c == '\n' {
            out.push('\\');
            out.push('n');
        } else if c == '\r' {
            out.push('\\');
            out.push('r');
        } else if c == '\t' {
            out.push('\\');
            out.push('t');
        } else {
            out.push(c);
        }
        proof {
            assert(out@ =~= before + escape_char(c));
        }
        i = i + 1;
    }
    proof {
        assert(chars@.take(i as int) =~= chars@);
    }
    out
}

/// What an escaped character stands for.
pub open spec fn unescape_char(c: char) -> char {
    if c == 'b' {
        '\u{0008}'
    } else if c == 'f' {
        '\u{000C}'
    } else if c == 'n' {
        '\n'
    } else if c == 'r' {
        '\r'
    } else if c == 't' {
        '\t'
    } else {
        c
    }
}

/// `t` with `head` put before its text and `n` added to its length.
pub open spec fn prepend(head: Seq<char>, n: nat, t: Option<(Seq<char>, nat)>) -> Option<
    (Seq<char>, nat),
> {
    match t {
        Some((text, len)) => Some((head + text, n + len)),
        None => None,
    }
}

/// What follows the opening quote of a JSON string: the text up to the closing quote, and the
/// number of characters up to and with that quote. Numbered escapes are not read.
pub open spec fn string_rest(s: Seq<char>) -> Option<(Seq<char>, nat)>
    decreases s.len(),
{
    if s.len() == 0 {
        None
    } else if s[0] == '"' {
        Some((Seq::empty(), 1))
    } else if s[0] == '\\' {
        if s.len() < 2 || s[1] == 'u' {
            None
        } else {
            prepend(seq![unescape_char(s[1])], 2, string_rest(s.skip(2)))
        }
    } else {
        prepend(seq![s[0]], 1, string_rest(s.skip(1)))
    }
}

/// The JSON string that `s` begins with: its text, and the number of characters that it takes.
pub open spec fn json_string(s: Seq<char>) -> Option<(Seq<char>, nat)> {
    if s.len() > 0 && s[0] == '"' {
        prepend(Seq::empty(), 1, string_rest(s.skip(1)))
    } else {
        None
    }
}

/// The JSON string that stands at `from`: its text, and the position after it.
fn scan_json_string(chars: &Vec<char>, from: usize) -> (r: Option<(String, usize)>)
    requires
        from <= chars@.len(),
    ensures
        match r {
            Some((text, end)) => from < end <= chars@.len() && json_string(chars@.skip(from as int))
                == Some((text@, (end - from) as nat)),
            None => json_string(chars@.skip(from as int)) == None::<(Seq<char>, nat)>,
        },
{
    if from == chars.len() || chars[from] != '"' {
        return None;
    }
    let ghost whole = chars@.skip(from as int);
    let mut text = String::new();
    let mut i: usize = from + 1;
    proof {
        assert(whole.skip(1) =~= chars@.skip(i as int));
    }
    while i < chars.len()
        invariant
            from < i <= chars@.len(),
            json_string(whole) == prepend(
                text@,
                (i - from) as nat,
                string_rest(chars@.skip(i as int)),
            ),
            whole == chars@.skip(from as int),
        decreases chars@.len() - i,
    {
        let c = chars[i];
        let ghost rest = chars@.skip(i as int);
        let ghost before = text@;
        proof {
            assert(rest.skip(1) =~= chars@.skip(i + 1));
        }
        if c == '"' {
            proof {
                assert(before + Seq::<char>::empty() =~= before);
            }
            return Some((text, i + 1));
        } else if c == '\\' {
            if i + 1 == chars.len() || chars[i + 1] == 'u' {
                return None;
            }
            let e = chars[i + 1];
            let actual = if e == 'b' {
                '\u{0008}'
            } else if e == 'f' {
                '\u{000C}'
            } else if e == 'n' {
                '\n'
            } else if e == 'r' {
                '\r'
            } else if e == 't' {
                '\t'
            } else {
                e
            };
            text.push(actual);
            proof {
                assert(rest.skip(2) =~= chars@.skip(i + 2));
                lemma_prepend(before, seq![actual], string_rest(chars@.skip(i + 2)));
                assert(text@ =~= before + seq![actual]);
            }
            i = i + 2;
        } else {
            text.push(c);
            proof {
                lemma_prepend(before, seq![c], string_rest(chars@.skip(i + 1)));
                assert(text@ =~= before + seq![c]);
            }
            i = i + 1;
        }
    }
    None
}

/// Putting two texts before a third is putting both, joined, before it.
proof fn lemma_prepend(a: Seq<char>, b: Seq<char>, t: Option<(Seq<char>, nat)>)
    ensures
        forall|m: nat, n: nat| #![trigger prepend(a, m, prepend(b, n, t))]
            prepend(a, m, prepend(b, n, t)) == prepend(a + b, m + n, t),
{
    match t {
        Some((text, len)) => {
            assert(a + (b + text) =~= a + b + text);
        },
        None => {},
    }
}

/// The JSON string that `input` begins with: its text, and the number of bytes that it takes.
pub fn parse_json_string(input: &str) -> (r: Option<(String, usize)>)
    ensures
        match r {
            Some((text, consumed)) => exists|k: nat| #![trigger input@.take(k as int)]
                json_string(input@) == Some((text@, k)) && k <= input@.len() && consumed
                    == encode_utf8(input@.take(k as int)).len(),
            None => json_string(input@) == None::<(Seq<char>, nat)>,
        },
{
    let chars = chars_of(input);
    proof {
        assert(chars@.skip(0) =~= chars@);
    }
    match scan_json_string(&chars, 0) {
        Some((text, end)) => {
            let total = input.as_bytes().len();
            let mut consumed: usize = 0;
            let mut i: usize = 0;
            proof {
                assert(input@.take(0) =~= Seq::<char>::empty());
            }
            while i < end
                invariant
                    i <= end <= chars@.len(),
                    chars@ == input@,
                    total == encode_utf8(input@).len(),
                    consumed == encode_utf8(input@.take(i as int)).len(),
                decreases end - i,
            {
                proof {
                    lemma_encode_step(input@, i as int);
                }
                consumed = consumed + width_of(chars[i]);
                i = i + 1;
            }
            Some((text, consumed))
        },
        None => None,
    }
}

/// The name of a field between quotes.
pub open spec fn quoted(field: Seq<char>) -> Seq<char> {
    seq!['"'] + field + seq!['"']
}

/// The name of a field between quotes.
fn quoted_chars(field: &str) -> (r: Vec<char>)
    ensures
        r@ == quoted(field@),
{
    let mut s = String::new();
    s.push('"');
    s.append(field);
    s.push('"');
    proof {
        assert(s@ =~= quoted(field@));
    }
    chars_of(s.as_str())
}

/// What follows the first colon after the first mention of the field, from the first character
/// that is no white space.
pub open spec fn field_value(body: Seq<char>, field: Seq<char>) -> Option<Seq<char>> {
    match find(body, quoted(field)) {
        Some(i) => {
            let rest = body.skip((i + quoted(field).len()) as int);
            let k = char_index(rest, ':') as int;
            if k < rest.len() {
                Some(trim_start(rest.skip(k + 1)))
            } else {
                None
            }
        },
        None => None,
    }
}

/// What follows the first colon after the first mention of the field, without leading white space.
fn find_field_value(body: &str, field: &str) -> (r: Option<String>)
    ensures
        text_view(r) == field_value(body@, field@),
{
    let chars = chars_of(body);
    let pattern = quoted_chars(field);
    match find_text_from(&chars, &pattern, 0) {
        Some(i) => {
            let after: usize = i + pattern.len();
            let colon = find_char_from(&chars, ':', after);
            if colon == chars.len() {
                return None;
            }
            let tail = text_between(&chars, colon + 1, chars.len());
            proof {
                let rest = body@.skip(after as int);
                assert(rest.skip(colon - after + 1) =~= tail@);
            }
            Some(trimmed_start(tail.as_str()))
        },
        None => None,
    }
}

/// The text of a string field.
pub open spec fn string_field(body: Seq<char>, field: Seq<char>) -> Option<Seq<char>> {
    match field_value(body, field) {
        Some(value) => match json_string(value) {
            Some((text, _)) => Some(text),
            None => None,
        },
        None => None,
    }
}

/// The text of the first string field named `field` in the JSON text `body`.
pub fn extract_json_string_field(body: &str, field: &str) -> (r: Option<String>)
    ensures
        text_view(r) == string_field(body@, field@),
{
    match find_field_value(body, field) {
        Some(value) => match parse_json_string(value.as_str()) {
            Some((text, _)) => Some(text),
            None => None,
        },
        None => None,
    }
}

/// The truth value of a field.
pub open spec fn bool_field(body: Seq<char>, field: Seq<char>) -> Option<bool> {
    match field_value(body, field) {
        Some(value) => if starts_with(value, "true"@) {
            Some(true)
        } else if starts_with(value, "false"@) {
            Some(false)
        } else {
            None
        },
        None => None,
    }
}

/// The truth value of the first field named `field` in the JSON text `body`.
pub fn extract_json_bool_field(body: &str, field: &str) -> (r: Option<bool>)
    ensures
        r == bool_field(body@, field@),
{
    match find_field_value(body, field) {
        Some(value) => if begins_with(value.as_str(), "true") {
            Some(true)
        } else if begins_with(value.as_str(), "false") {
            Some(false)
        } else {
            None
        },
        None => None,
    }
}

/// The white space of JSON.
pub open spec fn is_json_blank(c: char) -> bool {
    c == ' ' || c == '\n' || c == '\r' || c == '\t'
}

/// The first position at or after `i` that holds no JSON white space.
pub open spec fn skip_blank(s: Seq<char>, i: nat) -> nat
    decreases s.len() - i,
{
    if i < s.len() && is_json_blank(s[i as int]) {
        skip_blank(s, i + 1)
    } else {
        i
    }
}

/// The first position at or after `from` that holds no JSON white space.
fn skip_json_blank(chars: &Vec<char>, from: usize) -> (r: usize)
    requires
        from <= chars@.len(),
    ensures
        from <= r <= chars@.len(),
        r == skip_blank(chars@, from as nat),
{
    let mut i: usize = from;
    while i < chars.len() && (chars[i] == ' ' || chars[i] == '\n' || chars[i] == '\r' || chars[i]
        == '\t')
        invariant
            from <= i <= chars@.len(),
            skip_blank(chars@, i as nat) == skip_blank(chars@, from as nat),
        decreases chars@.len() - i,
    {
        i = i + 1;
    }
    i
}

/// Where the string value of a field begins: after the first mention of the field come a colon and
/// a quote, with nothing but JSON white space before each.
pub open spec fn string_value_start(body: Seq<char>, field: Seq<char>) -> Option<nat> {
    match find(body, quoted(field)) {
        Some(i) => {
            let colon = skip_blank(body, i + quoted(field).len());
            let quote = skip_blank(body, colon + 1);
            if colon < body.len() && body[colon as int] == ':' && quote < body.len()
                && body[quote as int] == '"' {
                Some(quote)
            } else {
                None
            }
        },
        None => None,
    }
}

/// `body` with the string value of a field replaced.
pub open spec fn with_string_field(
    body: Seq<char>,
    field: Seq<char>,
    replacement: Seq<char>,
) -> Option<Seq<char>> {
    match string_value_start(body, field) {
        Some(at) => match json_string(body.skip(at as int)) {
            Some((_, len)) => Some(
                body.take(at as int) + quoted(escape(replacement)) + body.skip((at + len) as int),
            ),
            None => None,
        },
        None => None,
    }
}

/// `body` with the string value of the first field named `field` replaced; the rest of the text
/// stays as it is.
pub fn replace_json_string_field(body: &str, field: &str, replacement: &str) -> (r: Option<String>)
    ensures
        text_view(r) == with_string_field(body@, field@, replacement@),
{
    let chars = chars_of(body);
    let pattern = quoted_chars(field);
    match find_text_from(&chars, &pattern, 0) {
        Some(i) => {
            let colon = skip_json_blank(&chars, i + pattern.len());
            if colon >= chars.len() || chars[colon] != ':' {
                return None;
            }
            let at = skip_json_blank(&chars, colon + 1);
            if at >= chars.len() || chars[at] != '"' {
                return None;
            }
            match scan_json_string(&chars, at) {
                Some((_, end)) => {
                    let mut rewritten = text_between(&chars, 0, at);
                    rewritten.push('"');
                    rewritten.append(escape_json(replacement).as_str());
                    rewritten.push('"');
                    rewritten.append(text_between(&chars, end, chars.len()).as_str());
                    proof {
                        assert(rewritten@ =~= body@.take(at as int) + quoted(escape(replacement@))
                            + body@.skip(end as int));
                    }
                    Some(rewritten)
                },
                None => None,
            }
        },
        None => None,
    }
}

/// The first character of a text is escaped first.
proof fn lemma_escape_first(s: Seq<char>)
    requires
        s.len() > 0,
    ensures
        escape(s) == escape_char(s[0]) + escape(s.drop_first()),
    decreases s.len(),
{
    if s.len() == 1 {
        assert(s.drop_last() =~= Seq::<char>::empty());
        assert(s.drop_first() =~= Seq::<char>::empty());
        assert(escape(s) =~= escape_char(s[0]) + escape(s.drop_first()));
    } else {
        lemma_escape_first(s.drop_last());
        assert(s.drop_last().drop_first() =~= s.drop_first().drop_last());
        assert(escape(s) =~= escape_char(s[0]) + escape(s.drop_first()));
    }
}

/// What is escaped and closed by a quote reads back.
proof fn lemma_rest_reads_back(s: Seq<char>, rest: Seq<char>)
    ensures
        string_rest(escape(s) + seq!['"'] + rest) == Some((s, escape(s).len() + 1)),
    decreases s.len(),
{
    let whole = escape(s) + seq!['"'] + rest;
    if s.len() == 0 {
        assert(whole[0] == '"');
        assert(s =~= Seq::<char>::empty());
    } else {
        let tail = s.drop_first();
        lemma_escape_first(s);
        lemma_rest_reads_back(tail, rest);
        let inner = escape(tail) + seq!['"'] + rest;
        let w = escape_char(s[0]).len() as int;
        assert(whole =~= escape_char(s[0]) + inner);
        assert(whole.skip(w) =~= inner);
        assert(seq![s[0]] + tail =~= s);
    }
}

/// A text that is escaped and put between quotes is read back as that text, whatever follows.
pub proof fn law_escaped_string_reads_back(s: Seq<char>, rest: Seq<char>)
    ensures
        json_string(quoted(escape(s)) + rest) == Some((s, quoted(escape(s)).len())),
{
    let whole = quoted(escape(s)) + rest;
    assert(whole.skip(1) =~= escape(s) + seq!['"'] + rest);
    lemma_rest_reads_back(s, rest);
    assert(Seq::<char>::empty() + s =~= s);
}

/// Between a position and the next one without JSON white space stands JSON white space alone.
proof fn lemma_skip_blank(s: Seq<char>, i: nat)
    requires
        i <= s.len(),
    ensures
        i <= skip_blank(s, i) <= s.len(),
        forall|j: int| i <= j < skip_blank(s, i) ==> is_json_blank(#[trigger] s[j]),
    decreases s.len() - i,
{
    if i < s.len() && is_json_blank(s[i as int]) {
        lemma_skip_blank(s, i + 1);
    }
}

/// Leading white space, followed by something else, is what `trim_start` takes away.
proof fn lemma_trim_start_at(s: Seq<char>, k: int)
    requires
        0 <= k < s.len(),
        forall|j: int| 0 <= j < k ==> is_white(#[trigger] s[j]),
        !is_white(s[k]),
    ensures
        trim_start(s) == s.skip(k),
    decreases k,
{
    if k > 0 {
        let t = s.drop_first();
        assert forall|j: int| 0 <= j < k - 1 implies is_white(#[trigger] t[j]) by {
            assert(t[j] == s[j + 1]);
        }
        lemma_trim_start_at(t, k - 1);
        assert(t.skip(k - 1) =~= s.skip(k));
    } else {
        assert(s.skip(0) =~= s);
    }
}

/// Two texts that begin alike have the same first mention of a name that ends within what they
/// share.
proof fn lemma_find_in_prefix(a: Seq<char>, b: Seq<char>, pat: Seq<char>, n: nat)
    requires
        n <= a.len(),
        n <= b.len(),
        a.take(n as int) == b.take(n as int),
        find(a, pat) matches Some(i) && i + pat.len() <= n,
    ensures
        find(b, pat) == find(a, pat),
{
    let i = find(a, pat)->0;
    crate::text::lemma_find_from(a, pat, 0);
    crate::text::lemma_find_from(b, pat, 0);
    assert forall|j: int| 0 <= j && j + pat.len() <= n implies crate::text::occurs_at(a, pat, j)
        == crate::text::occurs_at(b, pat, j) by {
        assert(a.subrange(j, j + pat.len()) =~= a.take(n as int).subrange(j, j + pat.len()));
        assert(b.subrange(j, j + pat.len()) =~= b.take(n as int).subrange(j, j + pat.len()));
    }
    assert(crate::text::occurs_at(b, pat, i as int));
    match find(b, pat) {
        Some(m) => {
            if m < i {
                assert(crate::text::occurs_at(a, pat, m as int));
            }
        },
        None => {},
    }
}

/// A field whose string value was replaced is read as the replacement.
pub proof fn law_replaced_field_reads_back(
    body: Seq<char>,
    field: Seq<char>,
    replacement: Seq<char>,
)
    requires
        with_string_field(body, field, replacement) is Some,
    ensures
        string_field(with_string_field(body, field, replacement)->0, field) == Some(replacement),
{
    let new = with_string_field(body, field, replacement)->0;
    let pat = quoted(field);
    let i = find(body, pat)->0;
    let after = i + pat.len();
    let colon = skip_blank(body, after);
    let at = string_value_start(body, field)->0;
    let (_, len) = json_string(body.skip(at as int))->0;
    let tail = body.skip((at + len) as int);
    crate::text::lemma_find_from(body, pat, 0);
    lemma_skip_blank(body, after);
    lemma_skip_blank(body, colon + 1);
    assert(new.take(at as int) =~= body.take(at as int));
    lemma_find_in_prefix(body, new, pat, at);
    assert forall|j: int| 0 <= j < at implies new[j] == body[j] by {
        assert(new.take(at as int)[j] == body.take(at as int)[j]);
    }
    let rest = new.skip(after as int);
    let k = (colon - after) as nat;
    assert(rest[k as int] == ':');
    assert forall|j: int| 0 <= j < k implies rest[j] != ':' by {
        assert(rest[j] == body[j + after]);
    }
    crate::text::lemma_char_index(rest, ':');
    assert(char_index(rest, ':') == k) by {
        let m = char_index(rest, ':');
        if m < k {
            assert(rest[m as int] != ':');
        }
        if k < m {
            assert(rest[k as int] != ':');
        }
    }
    let value = rest.skip((k + 1) as int);
    let gap = at - (colon + 1);
    assert(value =~= new.skip((colon + 1) as int));
    assert forall|j: int| 0 <= j < gap implies is_white(#[trigger] value[j]) by {
        assert(value[j] == body[j + colon + 1]);
    }
    assert(new.skip(at as int) =~= quoted(escape(replacement)) + tail);
    assert(value[gap] == '"');
    lemma_trim_start_at(value, gap);
    assert(value.skip(gap) =~= new.skip(at as int));
    law_escaped_string_reads_back(replacement, tail);
}

/// Whether the value of a field begins at `start`: `at` is the first mention of its name between
/// quotes, `colon` the first colon after it, and between that and `start` stands white space alone.
pub open spec fn value_at(
    text: Seq<char>,
    field: Seq<char>,
    at: int,
    colon: int,
    start: int,
) -> bool {
    let name = seq!['"'] + field + seq!['"'];
    let after = at + name.len();
    &&& 0 <= at && after <= colon < start <= text.len()
    &&& text.subrange(at, after) == name
    &&& forall|j: int| 0 <= j < at ==> #[trigger] text.subrange(j, j + name.len()) != name
    &&& text[colon] == ':'
    &&& forall|j: int| after <= j < colon ==> #[trigger] text[j] != ':'
    &&& forall|j: int| colon < j < start ==> is_white(#[trigger] text[j])
}

/// Whether the value of the first field of that name begins with the given word.
pub open spec fn field_says(text: Seq<char>, field: Seq<char>, word: Seq<char>) -> bool {
    exists|at: int, colon: int, start: int| #[trigger]
        value_at(text, field, at, colon, start) && start + word.len() <= text.len()
            && text.subrange(start, start + word.len()) == word
}

/// Where the value of a field is found.
proof fn lemma_value_found(text: Seq<char>, field: Seq<char>, at: int, colon: int, start: int)
    requires
        value_at(text, field, at, colon, start),
        start < text.len(),
        !is_white(text[start]),
    ensures
        find(text, quoted(field)) == Some(at as nat),
        field_value(text, field) == Some(text.skip(start)),
{
    let pat = quoted(field);
    let after = at + pat.len();
    crate::text::lemma_find_from(text, pat, 0);
    assert(crate::text::occurs_at(text, pat, at));
    if let Some(i) = find(text, pat) {
        if i < at {
            assert(text.subrange(i as int, i as int + pat.len()) != pat);
        }
    }
    let rest = text.skip(after);
    let k = colon - after;
    crate::text::lemma_char_index(rest, ':');
    assert(rest[k] == ':');
    assert(char_index(rest, ':') == k) by {
        let m = char_index(rest, ':') as int;
        if m < k {
            assert(rest[m] == text[after + m]);
        }
    }
    let value = rest.skip(k + 1);
    let gap = start - (colon + 1);
    assert(value =~= text.skip(colon + 1));
    assert forall|j: int| 0 <= j < gap implies is_white(#[trigger] value[j]) by {
        assert(value[j] == text[colon + 1 + j]);
    }
    assert(value[gap] == text[start]);
    lemma_trim_start_at(value, gap);
    assert(value.skip(gap) =~= text.skip(start));
}

/// What leading white space leaves is an end of the text, with white space alone before it.
proof fn lemma_trim_start_is_end(s: Seq<char>)
    ensures
        trim_start(s).len() <= s.len(),
        trim_start(s) == s.skip(s.len() - trim_start(s).len()),
        forall|j: int| 0 <= j < s.len() - trim_start(s).len() ==> is_white(#[trigger] s[j]),
    decreases s.len(),
{
    if s.len() > 0 && is_white(s[0]) {
        let t = s.drop_first();
        lemma_trim_start_is_end(t);
        let n = s.len() - trim_start(s).len();
        assert(t.skip(n - 1) =~= s.skip(n));
        assert forall|j: int| 0 <= j < n implies is_white(#[trigger] s[j]) by {
            if j > 0 {
                assert(t[j - 1] == s[j]);
            }
        }
    } else {
        assert(s.skip(0) =~= s);
    }
}

/// A value that is found stands where the first field of that name has it.
proof fn lemma_found_value(text: Seq<char>, field: Seq<char>)
    requires
        field_value(text, field) is Some,
    ensures
        exists|at: int, colon: int, start: int| #[trigger]
            value_at(text, field, at, colon, start) && field_value(text, field) == Some(
                text.skip(start),
            ),
{
    let pat = quoted(field);
    crate::text::lemma_find_from(text, pat, 0);
    let at = find(text, pat)->0 as int;
    let after = at + pat.len();
    let rest = text.skip(after);
    crate::text::lemma_char_index(rest, ':');
    let k = char_index(rest, ':') as int;
    let colon = after + k;
    let tail = rest.skip(k + 1);
    lemma_trim_start_is_end(tail);
    let n = tail.len() - trim_start(tail).len();
    let start = colon + 1 + n;
    assert(tail.skip(n) =~= text.skip(start));
    assert forall|j: int| 0 <= j < at implies #[trigger] text.subrange(j, j + pat.len()) != pat by {
        assert(!crate::text::occurs_at(text, pat, j));
    }
    assert forall|j: int| after <= j < colon implies #[trigger] text[j] != ':' by {
        assert(rest[j - after] == text[j]);
    }
    assert forall|j: int| colon < j < start implies is_white(#[trigger] text[j]) by {
        assert(tail[j - colon - 1] == text[j]);
    }
    assert(rest[k] == text[colon]);
    assert(value_at(text, field, at, colon, start));
}

/// The truth value of a field is the one that stands after its name: it is found true just where the
/// value begins with the word `true`, and false just where it begins with the word `false`.
pub proof fn law_truth_value_is_read(text: Seq<char>, field: Seq<char>)
    ensures
        bool_field(text, field) == Some(true) <==> field_says(text, field, "true"@),
        bool_field(text, field) == Some(false) <==> field_says(text, field, "false"@),
{
    reveal_strlit("true");
    reveal_strlit("false");
    lemma_word_is_read(text, field, "true"@);
    lemma_word_is_read(text, field, "false"@);
    if let Some(value) = field_value(text, field) {
        if starts_with(value, "true"@) && starts_with(value, "false"@) {
            assert(value.subrange(0, 4)[0] == value.subrange(0, 5)[0]);
        }
    }
}

/// The value of a field begins with a word just where the word stands there.
proof fn lemma_word_is_read(text: Seq<char>, field: Seq<char>, word: Seq<char>)
    requires
        word.len() > 0,
        !is_white(word[0]),
    ensures
        field_says(text, field, word) <==> (field_value(text, field) matches Some(value)
            && starts_with(value, word)),
{
    if field_says(text, field, word) {
        let (at, colon, start) = choose|at: int, colon: int, start: int| #[trigger]
            value_at(text, field, at, colon, start) && start + word.len() <= text.len()
                && text.subrange(start, start + word.len()) == word;
        assert(text.subrange(start, start + word.len())[0] == text[start]);
        lemma_value_found(text, field, at, colon, start);
        assert(text.skip(start).subrange(0, word.len() as int) =~= text.subrange(
            start,
            start + word.len(),
        ));
    }
    if let Some(value) = field_value(text, field) {
        if starts_with(value, word) {
            lemma_found_value(text, field);
            let (at, colon, start) = choose|at: int, colon: int, start: int| #[trigger]
                value_at(text, field, at, colon, start) && field_value(text, field) == Some(
                    text.skip(start),
                );
            assert(text.subrange(start, start + word.len()) =~= value.subrange(
                0,
                word.len() as int,
            ));
        }
    }
}

/// The text of a string field is the one that stands, escaped and between quotes, after its name. A
/// text that does not mention the field has none.
pub proof fn law_string_field_is_read(
    text: Seq<char>,
    field: Seq<char>,
    at: int,
    colon: int,
    start: int,
    s: Seq<char>,
)
    ensures
        value_at(text, field, at, colon, start) && starts_with(
            text.skip(start),
            quoted(escape(s)),
        ) ==> string_field(text, field) == Some(s),
        (forall|j: int|
            0 <= j && j + field.len() + 2 <= text.len() ==> #[trigger] text.subrange(
                j,
                j + field.len() + 2,
            ) != seq!['"'] + field + seq!['"']) ==> string_field(text, field) is None
            && bool_field(text, field) is None,
{
    let form = quoted(escape(s));
    if value_at(text, field, at, colon, start) && starts_with(text.skip(start), form) {
        let value = text.skip(start);
        assert(value.subrange(0, form.len() as int)[0] == '"');
        assert(text[start] == '"');
        lemma_value_found(text, field, at, colon, start);
        law_escaped_string_reads_back(s, value.skip(form.len() as int));
        assert(value =~= form + value.skip(form.len() as int));
    }
    if find(text, quoted(field)) is Some {
        crate::text::lemma_find_from(text, quoted(field), 0);
        let i = find(text, quoted(field))->0 as int;
        assert(quoted(field).len() == field.len() + 2);
        assert(text.subrange(i, i + field.len() + 2) == quoted(field));
    }
}

/// To replace the value of a string field is to put another string in its place: all that stands
/// before it and after it stays, character for character.
pub proof fn law_replacing_changes_one_value(
    text: Seq<char>,
    field: Seq<char>,
    at: int,
    colon: int,
    start: int,
    s: Seq<char>,
    replacement: Seq<char>,
)
    requires
        value_at(text, field, at, colon, start),
        starts_with(text.skip(start), quoted(escape(s))),
        forall|j: int|
            at + field.len() + 2 <= j < start && j != colon ==> is_json_blank(#[trigger] text[j]),
    ensures
        with_string_field(text, field, replacement) == Some(
            text.take(start) + quoted(escape(replacement)) + text.skip(
                start + quoted(escape(s)).len(),
            ),
        ),
{
    let form = quoted(escape(s));
    let value = text.skip(start);
    assert(value.subrange(0, form.len() as int)[0] == '"');
    assert(text[start] == '"');
    lemma_value_found(text, field, at, colon, start);
    let after = (at + quoted(field).len()) as nat;
    lemma_blanks_are_skipped(text, after, colon as nat);
    lemma_blanks_are_skipped(text, (colon + 1) as nat, start as nat);
    law_escaped_string_reads_back(s, value.skip(form.len() as int));
    assert(value =~= form + value.skip(form.len() as int));
}

/// Blanks up to something else are passed over.
proof fn lemma_blanks_are_skipped(s: Seq<char>, i: nat, k: nat)
    requires
        i <= k < s.len(),
        forall|j: int| i <= j < k ==> is_json_blank(#[trigger] s[j]),
        !is_json_blank(s[k as int]),
    ensures
        skip_blank(s, i) == k,
    decreases k - i,
{
    if i < k {
        assert(is_json_blank(s[i as int]));
        lemma_blanks_are_skipped(s, i + 1, k);
    }
}

/// What stands after a backslash in a JSON string: the letters for control characters are read as
/// those, any other character as itself; numbered escapes are not read. Any other character but a
/// quote stands for itself.
pub proof fn law_escapes_are_read(c: char, rest: Seq<char>, s: Seq<char>, n: nat)
    requires
        string_rest(rest) == Some((s, n)),
    ensures
        ({
            let read = string_rest(seq!['\\', c] + rest);
            &&& c == 'n' ==> read == Some((seq!['\n'] + s, n + 2))
            &&& c == 'r' ==> read == Some((seq!['\r'] + s, n + 2))
            &&& c == 't' ==> read == Some((seq!['\t'] + s, n + 2))
            &&& c == 'b' ==> read == Some((seq!['\u{0008}'] + s, n + 2))
            &&& c == 'f' ==> read == Some((seq!['\u{000C}'] + s, n + 2))
            &&& c == '"' || c == '\\' || c == '/' ==> read == Some((seq![c] + s, n + 2))
            &&& c == 'u' ==> read is None
        }),
        c != '"' && c != '\\' ==> string_rest(seq![c] + rest) == Some((seq![c] + s, n + 1)),
        string_rest(seq!['"'] + rest) == Some((Seq::<char>::empty(), 1nat)),
        string_rest(Seq::empty()) is None,
{
    assert((seq!['\\', c] + rest).skip(2) =~= rest);
    assert((seq![c] + rest).skip(1) =~= rest);
}

/// The white space of JSON is the blank, the tab and the two characters that end a line, and no
/// other character: all else between a name and its value counts.
pub proof fn law_json_white_space(c: char)
    ensures
        is_json_blank(c) <==> seq![' ', '\n', '\r', '\t'].contains(c),
{
    let blanks = seq![' ', '\n', '\r', '\t'];
    assert(blanks[0] == ' ' && blanks[1] == '\n' && blanks[2] == '\r' && blanks[3] == '\t');
}

} // verus!
