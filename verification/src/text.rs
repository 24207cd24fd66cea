//! Plain text: white space, searching, splitting and joining, stated over
//! sequences of characters.
use vstd::prelude::*;
use vstd::string::*;

verus! {

/// `String::push` puts one character at the end of the string.
pub assume_specification[ String::push ](s: &mut String, c: char)
    ensures
        final(s)@ == old(s)@.push(c),
;

/// The characters of `s`, in order.
pub fn chars_of(s: &str) -> (r: Vec<char>)
    ensures
        r@ == s@,
{
    let mut out: Vec<char> = Vec::new();
    for c in it: s.chars()
        invariant
            it.seq() == s@,
            out@ == it.seq().take(it.index()),
    {
        out.push(c);
    }
    out
}

/// Whether two texts are the same.
pub fn str_eq(a: &str, b: &str) -> (r: bool)
    ensures
        r == (a@ == b@),
{
    let x = chars_of(a);
    let y = chars_of(b);
    if x.len() != y.len() {
        return false;
    }
    let mut i: usize = 0;
    while i < x.len()
        invariant
            x@ == a@,
            y@ == b@,
            i <= x@.len() == y@.len(),
            forall|j: int| 0 <= j < i ==> x@[j] == y@[j],
        decreases x@.len() - i,
    {
        if x[i] != y[i] {
            return false;
        }
        i = i + 1;
    }
    proof {
        assert(x@ =~= y@);
    }
    true
}

/// The string made of the characters from `from` up to `to`.
pub fn text_between(chars: &Vec<char>, from: usize, to: usize) -> (r: String)
    requires
        from <= to <= chars@.len(),
    ensures
        r@ == chars@.subrange(from as int, to as int),
{
    let mut out = String::new();
    let mut i: usize = from;
    while i < to
        invariant
            from <= i <= to <= chars@.len(),
            out@ == chars@.subrange(from as int, i as int),
        decreases to - i,
    {
        out.push(chars[i]);
        i = i + 1;
    }
    out
}

/// The Unicode property `White_Space`.
pub open spec fn is_white(c: char) -> bool {
    let u = c as u32;
    ||| 0x09 <= u <= 0x0d
    ||| u == 0x20
    ||| u == 0x85
    ||| u == 0xa0
    ||| u == 0x1680
    ||| 0x2000 <= u <= 0x200a
    ||| u == 0x2028
    ||| u == 0x2029
    ||| u == 0x202f
    ||| u == 0x205f
    ||| u == 0x3000
}

/// Whether `c` has the Unicode property `White_Space`.
pub fn is_white_space(c: char) -> (r: bool)
    ensures
        r == is_white(c),
{
    let u = c as u32;
    (0x09 <= u && u <= 0x0d) || u == 0x20 || u == 0x85 || u == 0xa0 || u == 0x1680 || (0x2000 <= u
        && u <= 0x200a) || u == 0x2028 || u == 0x2029 || u == 0x202f || u == 0x205f || u == 0x3000
}

/// `s` without its leading white space.
pub open spec fn trim_start(s: Seq<char>) -> Seq<char>
    decreases s.len(),
{
    if s.len() > 0 && is_white(s[0]) {
        trim_start(s.drop_first())
    } else {
        s
    }
}

/// `s` without its trailing white space.
pub open spec fn trim_end(s: Seq<char>) -> Seq<char>
    decreases s.len(),
{
    if s.len() > 0 && is_white(s.last()) {
        trim_end(s.drop_last())
    } else {
        s
    }
}

/// `s` without leading and trailing white space.
pub open spec fn trim(s: Seq<char>) -> Seq<char> {
    trim_end(trim_start(s))
}

/// The first position at or after `from` that holds no white space (`len` if there is none).
fn skip_white(chars: &Vec<char>, from: usize) -> (r: usize)
    requires
        from <= chars@.len(),
    ensures
        from <= r <= chars@.len(),
        chars@.skip(r as int) == trim_start(chars@.skip(from as int)),
{
    let mut i: usize = from;
    while i < chars.len() && is_white_space(chars[i])
        invariant
            from <= i <= chars@.len(),
            trim_start(chars@.skip(i as int)) == trim_start(chars@.skip(from as int)),
        decreases chars@.len() - i,
    {
        proof {
            assert(chars@.skip(i as int).drop_first() =~= chars@.skip(i + 1));
        }
        i = i + 1;
    }
    i
}

/// `s` without leading and trailing white space.
pub fn trimmed(s: &str) -> (r: String)
    ensures
        r@ == trim(s@),
{
    let chars = chars_of(s);
    proof {
        assert(chars@.skip(0) =~= chars@);
    }
    let start = skip_white(&chars, 0);
    let mut end: usize = chars.len();
    proof {
        assert(chars@.subrange(start as int, end as int) =~= chars@.skip(start as int));
    }
    while start < end && is_white_space(chars[end - 1])
        invariant
            start <= end <= chars@.len(),
            trim_end(chars@.subrange(start as int, end as int)) == trim(s@),
        decreases end,
    {
        proof {
            let cut = chars@.subrange(start as int, end as int);
            assert(cut.drop_last() =~= chars@.subrange(start as int, end - 1));
        }
        end = end - 1;
    }
    text_between(&chars, start, end)
}

/// `s` without its leading white space.
pub fn trimmed_start(s: &str) -> (r: String)
    ensures
        r@ == trim_start(s@),
{
    let chars = chars_of(s);
    proof {
        assert(chars@.skip(0) =~= chars@);
    }
    let start = skip_white(&chars, 0);
    proof {
        assert(chars@.subrange(start as int, chars@.len() as int) =~= chars@.skip(start as int));
    }
    text_between(&chars, start, chars.len())
}

/// The text, or no text at all where there is none.
pub open spec fn or_empty(s: Option<Seq<char>>) -> Seq<char> {
    match s {
        Some(t) => t,
        None => Seq::empty(),
    }
}

/// The text, or the given one where there is none.
pub open spec fn or_text(s: Option<Seq<char>>, default: Seq<char>) -> Seq<char> {
    match s {
        Some(t) => t,
        None => default,
    }
}

/// Two texts, one after the other.
pub(crate) fn joined(first: &str, second: &str) -> (r: String)
    ensures
        r@ == first@ + second@,
{
    let mut out = first.to_owned();
    out.append(second);
    out
}

/// Whether `s` holds nothing but white space.
pub fn is_blank(s: &str) -> (r: bool)
    ensures
        r == (trim(s@).len() == 0),
{
    trimmed(s).as_str().is_empty()
}

/// Whether `pat` stands in `s` at position `i`.
pub open spec fn occurs_at(s: Seq<char>, pat: Seq<char>, i: int) -> bool {
    0 <= i && i + pat.len() <= s.len() && s.subrange(i, i + pat.len()) == pat
}

/// Whether `s` begins with `pat`.
pub open spec fn starts_with(s: Seq<char>, pat: Seq<char>) -> bool {
    occurs_at(s, pat, 0)
}

/// The first position at or after `from` where `pat` stands in `s`.
pub open spec fn find_from(s: Seq<char>, pat: Seq<char>, from: nat) -> Option<nat>
    decreases s.len() + 1 - from,
{
    if from + pat.len() > s.len() {
        None
    } else if occurs_at(s, pat, from as int) {
        Some(from)
    } else {
        find_from(s, pat, from + 1)
    }
}

/// The first position where `pat` stands in `s`.
pub open spec fn find(s: Seq<char>, pat: Seq<char>) -> Option<nat> {
    find_from(s, pat, 0)
}

/// `find_from` gives the least position at or after `from` where `pat` stands, and none only
/// where there is no such position.
pub proof fn lemma_find_from(s: Seq<char>, pat: Seq<char>, from: nat)
    ensures
        match find_from(s, pat, from) {
            Some(i) => from <= i && occurs_at(s, pat, i as int) && forall|j: int|
                from <= j < i ==> !occurs_at(s, pat, j),
            None => forall|j: int| from <= j ==> !occurs_at(s, pat, j),
        },
    decreases s.len() + 1 - from,
{
    if from + pat.len() > s.len() {
    } else if occurs_at(s, pat, from as int) {
    } else {
        lemma_find_from(s, pat, from + 1);
    }
}

/// Whether `pat` stands in `chars` at position `i`.
fn matches_at(chars: &Vec<char>, pat: &Vec<char>, i: usize) -> (r: bool)
    ensures
        r == occurs_at(chars@, pat@, i as int),
{
    if pat.len() > chars.len() || i > chars.len() - pat.len() {
        return false;
    }
    let mut k: usize = 0;
    while k < pat.len()
        invariant
            k <= pat@.len(),
            i + pat@.len() <= chars.len(),
            forall|j: int| 0 <= j < k ==> chars@[i + j] == pat@[j],
        decreases pat@.len() - k,
    {
        if chars[i + k] != pat[k] {
            proof {
                assert(chars@.subrange(i as int, i + pat@.len())[k as int] != pat@[k as int]);
            }
            return false;
        }
        k = k + 1;
    }
    proof {
        assert(chars@.subrange(i as int, i + pat@.len()) =~= pat@);
    }
    true
}

/// The first position at or after `from` where `pat` stands in `chars`.
pub fn find_text_from(chars: &Vec<char>, pat: &Vec<char>, from: usize) -> (r: Option<usize>)
    requires
        from <= chars@.len(),
    ensures
        match r {
            Some(i) => find_from(chars@, pat@, from as nat) == Some(i as nat) && i + pat@.len()
                <= chars.len(),
            None => find_from(chars@, pat@, from as nat) == None::<nat>,
        },
{
    let mut i: usize = from;
    while pat.len() <= chars.len() - i
        invariant
            from <= i <= chars@.len(),
            find_from(chars@, pat@, i as nat) == find_from(chars@, pat@, from as nat),
        decreases chars@.len() - i,
    {
        if matches_at(chars, pat, i) {
            return Some(i);
        }
        proof {
            // An empty pattern stands everywhere.
            if i == chars@.len() {
                assert(chars@.subrange(i as int, i as int) =~= pat@);
            }
        }
        i = i + 1;
    }
    None
}

/// Whether `pat` stands anywhere in `s`.
pub open spec fn has_text(s: Seq<char>, pat: Seq<char>) -> bool {
    exists|i: int| occurs_at(s, pat, i)
}

/// Whether `pat` stands anywhere in `s`.
pub fn contains_text(s: &str, pat: &str) -> (r: bool)
    ensures
        r == has_text(s@, pat@),
{
    let chars = chars_of(s);
    let pat_chars = chars_of(pat);
    proof {
        lemma_find_from(s@, pat@, 0);
    }
    match find_text_from(&chars, &pat_chars, 0) {
        Some(_) => true,
        None => false,
    }
}

/// Whether `s` begins with `prefix`.
pub fn begins_with(s: &str, prefix: &str) -> (r: bool)
    ensures
        r == starts_with(s@, prefix@),
{
    matches_at(&chars_of(s), &chars_of(prefix), 0)
}

/// What follows `prefix` in `s`, where `s` begins with it.
pub open spec fn after_prefix(s: Seq<char>, prefix: Seq<char>) -> Option<Seq<char>> {
    if starts_with(s, prefix) {
        Some(s.skip(prefix.len() as int))
    } else {
        None
    }
}

/// The view of an optional string.
pub open spec fn text_view(s: Option<String>) -> Option<Seq<char>> {
    match s {
        Some(t) => Some(t@),
        None => None,
    }
}

/// What follows `prefix` in `s`, where `s` begins with it.
pub fn strip_prefix(s: &str, prefix: &str) -> (r: Option<String>)
    ensures
        text_view(r) == after_prefix(s@, prefix@),
{
    let chars = chars_of(s);
    let pat = chars_of(prefix);
    if matches_at(&chars, &pat, 0) {
        proof {
            assert(chars@.subrange(pat@.len() as int, chars@.len() as int) =~= chars@.skip(
                pat@.len() as int,
            ));
        }
        Some(text_between(&chars, pat.len(), chars.len()))
    } else {
        None
    }
}

/// The first position of `c` in `s` (the length of `s` if `c` is not there).
pub open spec fn char_index(s: Seq<char>, c: char) -> nat
    decreases s.len(),
{
    if s.len() == 0 || s[0] == c {
        0
    } else {
        1 + char_index(s.drop_first(), c)
    }
}

/// `char_index` is the least position of `c`, or the length where there is none.
pub proof fn lemma_char_index(s: Seq<char>, c: char)
    ensures
        char_index(s, c) <= s.len(),
        char_index(s, c) < s.len() ==> s[char_index(s, c) as int] == c,
        forall|j: int| 0 <= j < char_index(s, c) ==> s[j] != c,
    decreases s.len(),
{
    if s.len() == 0 || s[0] == c {
    } else {
        lemma_char_index(s.drop_first(), c);
        assert forall|j: int| 0 <= j < char_index(s, c) implies s[j] != c by {
            if j > 0 {
                assert(s.drop_first()[j - 1] == s[j]);
            }
        }
    }
}

/// The position `k` is that of the first `c`: it holds `c`, or is the end, and no earlier one does.
proof fn lemma_char_index_is(s: Seq<char>, c: char, k: nat)
    requires
        k <= s.len(),
        k < s.len() ==> s[k as int] == c,
        forall|j: int| 0 <= j < k ==> s[j] != c,
    ensures
        char_index(s, c) == k,
{
    lemma_char_index(s, c);
    let m = char_index(s, c);
    if m < k {
        assert(s[m as int] != c);
    }
    if k < m {
        assert(s[k as int] != c);
    }
}

/// The first position at or after `from` that holds `c` (`len` if there is none).
pub fn find_char_from(chars: &Vec<char>, c: char, from: usize) -> (r: usize)
    requires
        from <= chars@.len(),
    ensures
        from <= r <= chars@.len(),
        r == from + char_index(chars@.skip(from as int), c),
{
    let mut i: usize = from;
    while i < chars.len() && chars[i] != c
        invariant
            from <= i <= chars@.len(),
            forall|j: int| from <= j < i ==> chars@[j] != c,
        decreases chars@.len() - i,
    {
        i = i + 1;
    }
    proof {
        lemma_char_index_is(chars@.skip(from as int), c, (i - from) as nat);
    }
    i
}

/// `s` cut at its first `c`: what stands before it and what follows it.
pub open spec fn split_once_at(s: Seq<char>, c: char) -> Option<(Seq<char>, Seq<char>)> {
    let k = char_index(s, c) as int;
    if k < s.len() {
        Some((s.take(k), s.skip(k + 1)))
    } else {
        None
    }
}

/// `s` cut at its first `c`: what stands before it and what follows it.
pub fn split_once(s: &str, c: char) -> (r: Option<(String, String)>)
    ensures
        match r {
            Some(p) => split_once_at(s@, c) == Some((p.0@, p.1@)),
            None => split_once_at(s@, c) == None::<(Seq<char>, Seq<char>)>,
        },
{
    let chars = chars_of(s);
    proof {
        assert(chars@.skip(0) =~= chars@);
    }
    let k = find_char_from(&chars, c, 0);
    if k < chars.len() {
        proof {
            assert(chars@.subrange(0, k as int) =~= s@.take(k as int));
            assert(chars@.subrange(k + 1, chars@.len() as int) =~= s@.skip(k + 1));
        }
        Some((text_between(&chars, 0, k), text_between(&chars, k + 1, chars.len())))
    } else {
        None
    }
}

/// The pieces of `s` between the separators `c`; there is always at least one.
pub open spec fn split_at(s: Seq<char>, c: char) -> Seq<Seq<char>>
    decreases s.len(),
{
    let k = char_index(s, c) as int;
    if k < s.len() {
        seq![s.take(k)] + split_at(s.skip(k + 1), c)
    } else {
        seq![s]
    }
}

/// The views of a vector of strings.
pub open spec fn texts(v: Seq<String>) -> Seq<Seq<char>> {
    v.map_values(|s: String| s@)
}

/// The pieces of `s` between the separators `c`.
pub fn split(s: &str, c: char) -> (r: Vec<String>)
    ensures
        texts(r@) == split_at(s@, c),
{
    let chars = chars_of(s);
    let mut pieces: Vec<String> = Vec::new();
    let mut start: usize = 0;
    proof {
        assert(chars@.skip(0) =~= chars@);
        assert(texts(pieces@) + split_at(s@, c) =~= split_at(s@, c));
    }
    loop
        invariant
            start <= chars@.len(),
            chars@ == s@,
            texts(pieces@) + split_at(chars@.skip(start as int), c) == split_at(s@, c),
        decreases chars@.len() - start,
    {
        let k = find_char_from(&chars, c, start);
        let ghost rest = chars@.skip(start as int);
        let ghost before = texts(pieces@);
        let piece = text_between(&chars, start, k);
        pieces.push(piece);
        proof {
            assert(piece@ =~= rest.take(k - start));
            assert(texts(pieces@) =~= before.push(piece@));
        }
        if k < chars.len() {
            proof {
                assert(rest.skip(k - start + 1) =~= chars@.skip(k + 1));
                assert(texts(pieces@) + split_at(chars@.skip(k + 1), c) =~= before + split_at(
                    rest,
                    c,
                ));
            }
            start = k + 1;
        } else {
            proof {
                assert(piece@ =~= rest);
                assert(texts(pieces@) =~= before + split_at(rest, c));
            }
            return pieces;
        }
    }
}

/// `s` without one carriage return at its end.
pub open spec fn without_cr(s: Seq<char>) -> Seq<char> {
    if s.len() > 0 && s.last() == '\r' {
        s.drop_last()
    } else {
        s
    }
}

/// The lines of `s`: each ends in a line feed, or in a carriage return and a line feed, and the
/// last one may lack its ending.
pub open spec fn lines_of(s: Seq<char>) -> Seq<Seq<char>>
    decreases s.len(),
{
    let k = char_index(s, '\n') as int;
    if s.len() == 0 {
        Seq::empty()
    } else if k < s.len() {
        seq![without_cr(s.take(k))] + lines_of(s.skip(k + 1))
    } else {
        seq![s]
    }
}

/// The lines of `s`, without their endings.
pub fn lines(s: &str) -> (r: Vec<String>)
    ensures
        texts(r@) == lines_of(s@),
{
    let chars = chars_of(s);
    let mut out: Vec<String> = Vec::new();
    let mut start: usize = 0;
    proof {
        assert(chars@.skip(0) =~= chars@);
        assert(texts(out@) + lines_of(s@) =~= lines_of(s@));
    }
    while start < chars.len()
        invariant
            start <= chars@.len(),
            chars@ == s@,
            texts(out@) + lines_of(chars@.skip(start as int)) == lines_of(s@),
        decreases chars@.len() - start,
    {
        let k = find_char_from(&chars, '\n', start);
        let ghost rest = chars@.skip(start as int);
        let ghost before = texts(out@);
        if k < chars.len() {
            let end = if k > start && chars[k - 1] == '\r' {
                k - 1
            } else {
                k
            };
            let line = text_between(&chars, start, end);
            out.push(line);
            proof {
                assert(line@ =~= without_cr(rest.take(k - start)));
                assert(texts(out@) =~= before.push(line@));
                assert(rest.skip(k - start + 1) =~= chars@.skip(k + 1));
                assert(texts(out@) + lines_of(chars@.skip(k + 1)) =~= before + lines_of(rest));
            }
            start = k + 1;
        } else {
            let line = text_between(&chars, start, k);
            out.push(line);
            proof {
                assert(line@ =~= rest);
                assert(texts(out@) =~= before + lines_of(rest));
                assert(texts(out@) + lines_of(chars@.skip(k as int)) =~= texts(out@));
            }
            start = k;
        }
    }
    proof {
        assert(texts(out@) + lines_of(chars@.skip(start as int)) =~= texts(out@));
    }
    out
}

/// The parts of `list` with `sep` between each two.
pub open spec fn join_with(list: Seq<Seq<char>>, sep: Seq<char>) -> Seq<char>
    decreases list.len(),
{
    if list.len() == 0 {
        Seq::empty()
    } else if list.len() == 1 {
        list[0]
    } else {
        join_with(list.drop_last(), sep) + sep + list.last()
    }
}

/// The parts of `list` with `sep` between each two.
pub fn join(list: &Vec<String>, sep: &str) -> (r: String)
    ensures
        r@ == join_with(texts(list@), sep@),
{
    let mut out = String::new();
    let mut i: usize = 0;
    while i < list.len()
        invariant
            i <= list@.len(),
            out@ == join_with(texts(list@).take(i as int), sep@),
        decreases list@.len() - i,
    {
        proof {
            assert(texts(list@).take(i + 1).drop_last() =~= texts(list@).take(i as int));
        }
        if i > 0 {
            out.append(sep);
        }
        out.append(list[i].as_str());
        i = i + 1;
    }
    proof {
        assert(texts(list@).take(i as int) =~= texts(list@));
    }
    out
}

/// `c` in lower case, where it is an ASCII letter.
pub open spec fn lower_char(c: char) -> char {
    if 'A' <= c && c <= 'Z' {
        (c as u8 + 32) as char
    } else {
        c
    }
}

/// `s` with its ASCII letters in lower case.
pub open spec fn lower(s: Seq<char>) -> Seq<char> {
    s.map_values(|c: char| lower_char(c))
}

/// `s` with its ASCII letters in lower case.
pub fn lowered(s: &str) -> (r: String)
    ensures
        r@ == lower(s@),
{
    let chars = chars_of(s);
    let mut out = String::new();
    let mut i: usize = 0;
    while i < chars.len()
        invariant
            i <= chars@.len(),
            out@ == lower(chars@).take(i as int),
        decreases chars@.len() - i,
    {
        let c = chars[i];
        let ghost before = out@;
        if 'A' <= c && c <= 'Z' {
            out.push((c as u8 + 32) as char);
        } else {
            out.push(c);
        }
        proof {
            assert(lower(chars@).take(i + 1) =~= before.push(lower_char(c)));
        }
        i = i + 1;
    }
    proof {
        assert(lower(chars@).take(i as int) =~= lower(chars@));
    }
    out
}

/// The first word of `s` and what follows it, where `s` holds a word.
pub open spec fn first_word(s: Seq<char>) -> Option<(Seq<char>, Seq<char>)> {
    let t = trim_start(s);
    if t.len() == 0 {
        None
    } else {
        let k = word_len(t) as int;
        Some((t.take(k), t.skip(k)))
    }
}

/// The number of characters before the first white space.
pub open spec fn word_len(s: Seq<char>) -> nat
    decreases s.len(),
{
    if s.len() == 0 || is_white(s[0]) {
        0
    } else {
        1 + word_len(s.drop_first())
    }
}

/// Whether a text holds no white space.
pub open spec fn is_word(s: Seq<char>) -> bool {
    forall|i: int| 0 <= i < s.len() ==> !is_white(#[trigger] s[i])
}

/// A word that white space follows, with white space before it or without, is the first word.
pub proof fn lemma_first_word(word: Seq<char>, rest: Seq<char>)
    requires
        word.len() > 0,
        is_word(word),
        rest.len() > 0,
        is_white(rest[0]),
    ensures
        first_word(word + rest) == Some((word, rest)),
        first_word(seq![' '] + word + rest) == Some((word, rest)),
{
    let s = word + rest;
    lemma_word_ends(word, rest);
    assert(!is_white(word[0]));
    assert(s[0] == word[0]);
    assert(trim_start(s) == s);
    assert(s.take(word.len() as int) =~= word);
    assert(s.skip(word.len() as int) =~= rest);
    let spaced = seq![' '] + word + rest;
    assert(spaced.drop_first() =~= s);
    assert(trim_start(spaced) == s);
}

/// A word that white space follows is as long as it is.
proof fn lemma_word_ends(word: Seq<char>, rest: Seq<char>)
    requires
        is_word(word),
        rest.len() > 0,
        is_white(rest[0]),
    ensures
        word_len(word + rest) == word.len(),
    decreases word.len(),
{
    if word.len() == 0 {
        assert(word + rest =~= rest);
    } else {
        let shorter = word.drop_first();
        assert((word + rest).drop_first() =~= shorter + rest);
        assert forall|i: int| 0 <= i < shorter.len() implies !is_white(#[trigger] shorter[i]) by {
            assert(shorter[i] == word[i + 1]);
        }
        assert((word + rest)[0] == word[0]);
        assert(!is_white(word[0]));
        lemma_word_ends(shorter, rest);
    }
}

/// A text without white space at its ends is what is left when they are trimmed.
pub proof fn lemma_trimmed_stays(s: Seq<char>)
    requires
        s.len() > 0 ==> !is_white(s[0]) && !is_white(s.last()),
    ensures
        trim(s) == s,
{
}

/// The first word of `s` and what follows it, where `s` holds a word.
pub fn next_word(s: &str) -> (r: Option<(String, String)>)
    ensures
        match r {
            Some(p) => first_word(s@) == Some((p.0@, p.1@)),
            None => first_word(s@) == None::<(Seq<char>, Seq<char>)>,
        },
{
    let chars = chars_of(s);
    proof {
        assert(chars@.skip(0) =~= chars@);
    }
    let start = skip_white(&chars, 0);
    if start == chars.len() {
        return None;
    }
    let ghost t = chars@.skip(start as int);
    let mut end: usize = start;
    while end < chars.len() && !is_white_space(chars[end])
        invariant
            start <= end <= chars@.len(),
            t == chars@.skip(start as int),
            word_len(t) == end - start + word_len(chars@.skip(end as int)),
        decreases chars@.len() - end,
    {
        proof {
            assert(chars@.skip(end as int).drop_first() =~= chars@.skip(end + 1));
        }
        end = end + 1;
    }
    proof {
        assert(t.take(end - start) =~= chars@.subrange(start as int, end as int));
        assert(t.skip(end - start) =~= chars@.subrange(end as int, chars@.len() as int));
    }
    Some((text_between(&chars, start, end), text_between(&chars, end, chars.len())))
}

/// White space round a text is what `trim` takes away, and nothing else; white space alone leaves
/// nothing.
pub proof fn law_white_space_is_trimmed(before: Seq<char>, s: Seq<char>, after: Seq<char>)
    requires
        forall|i: int| 0 <= i < before.len() ==> is_white(#[trigger] before[i]),
        forall|i: int| 0 <= i < after.len() ==> is_white(#[trigger] after[i]),
        s.len() > 0 ==> !is_white(s[0]) && !is_white(s.last()),
    ensures
        trim(before + s + after) == s,
{
    let whole = before + s + after;
    if s.len() > 0 {
        lemma_leading_white(before, s + after);
        assert(before + (s + after) =~= whole);
        lemma_trailing_white(s, after);
    } else {
        let white = before + after;
        assert(whole =~= white);
        assert forall|i: int| 0 <= i < white.len() implies is_white(#[trigger] white[i]) by {
            if i < before.len() {
                assert(white[i] == before[i]);
            } else {
                assert(white[i] == after[i - before.len()]);
            }
        }
        lemma_all_white(white);
        assert(trim_end(Seq::<char>::empty()) =~= s);
    }
}

/// Leading white space before something else is taken away.
proof fn lemma_leading_white(before: Seq<char>, s: Seq<char>)
    requires
        forall|i: int| 0 <= i < before.len() ==> is_white(#[trigger] before[i]),
        s.len() > 0,
        !is_white(s[0]),
    ensures
        trim_start(before + s) == s,
    decreases before.len(),
{
    let whole = before + s;
    if before.len() > 0 {
        let rest = before.drop_first();
        assert(whole[0] == before[0]);
        assert forall|i: int| 0 <= i < rest.len() implies is_white(#[trigger] rest[i]) by {
            assert(rest[i] == before[i + 1]);
        }
        lemma_leading_white(rest, s);
        assert(whole.drop_first() =~= rest + s);
    } else {
        assert(whole =~= s);
    }
}

/// Trailing white space after something else is taken away.
proof fn lemma_trailing_white(s: Seq<char>, after: Seq<char>)
    requires
        forall|i: int| 0 <= i < after.len() ==> is_white(#[trigger] after[i]),
        s.len() > 0,
        !is_white(s.last()),
    ensures
        trim_end(s + after) == s,
    decreases after.len(),
{
    let whole = s + after;
    if after.len() > 0 {
        let rest = after.drop_last();
        assert(whole.last() == after[after.len() - 1]);
        assert forall|i: int| 0 <= i < rest.len() implies is_white(#[trigger] rest[i]) by {
            assert(rest[i] == after[i]);
        }
        lemma_trailing_white(s, rest);
        assert(whole.drop_last() =~= s + rest);
    } else {
        assert(whole =~= s);
    }
}

/// White space alone is taken away.
proof fn lemma_all_white(s: Seq<char>)
    requires
        forall|i: int| 0 <= i < s.len() ==> is_white(#[trigger] s[i]),
    ensures
        trim_start(s) == Seq::<char>::empty(),
    decreases s.len(),
{
    if s.len() > 0 {
        let rest = s.drop_first();
        assert(is_white(s[0]));
        assert forall|i: int| 0 <= i < rest.len() implies is_white(#[trigger] rest[i]) by {
            assert(rest[i] == s[i + 1]);
        }
        lemma_all_white(rest);
    } else {
        assert(s =~= Seq::<char>::empty());
    }
}

/// The white space that is trimmed holds the space, the tab and the line breaks, and no visible
/// character of ASCII.
pub proof fn law_plain_white_space(c: char)
    ensures
        c == ' ' || c == '\t' || c == '\n' || c == '\r' ==> is_white(c),
        '!' <= c && c <= '~' ==> !is_white(c),
{
}

/// Parts are joined in their order, with what separates them between each two and nowhere else.
pub proof fn law_parts_are_joined(list: Seq<Seq<char>>, part: Seq<char>, sep: Seq<char>)
    ensures
        join_with(Seq::empty(), sep) == Seq::<char>::empty(),
        join_with(seq![part], sep) == part,
        list.len() > 0 ==> join_with(list.push(part), sep) == join_with(list, sep) + sep + part,
{
    assert(list.push(part).drop_last() =~= list);
}

/// A text is cut at each separator: pieces that hold none, with separators between them, come out
/// again as they were.
pub proof fn law_pieces_are_split(pieces: Seq<Seq<char>>, c: char)
    requires
        pieces.len() > 0,
        forall|i: int| 0 <= i < pieces.len() ==> !(#[trigger] pieces[i]).contains(c),
    ensures
        split_at(join_with(pieces, seq![c]), c) == pieces,
    decreases pieces.len(),
{
    if pieces.len() == 1 {
        let s = pieces[0];
        lemma_char_index(s, c);
        if char_index(s, c) < s.len() {
            assert(s.contains(s[char_index(s, c) as int]));
        }
        assert(split_at(s, c) =~= pieces);
    } else {
        let rest = pieces.drop_first();
        assert forall|i: int| 0 <= i < rest.len() implies !(#[trigger] rest[i]).contains(c) by {
            assert(rest[i] == pieces[i + 1]);
        }
        law_pieces_are_split(rest, c);
        lemma_join_first(pieces, seq![c]);
        let head = pieces[0];
        let tail = join_with(rest, seq![c]);
        let s = head + seq![c] + tail;
        assert(s[head.len() as int] == c);
        lemma_char_index(s, c);
        let k = char_index(s, c) as int;
        if k < head.len() {
            assert(s[k] == head[k]);
            assert(head.contains(head[k]));
        }
        assert(k == head.len());
        assert(s.take(k) =~= head);
        assert(s.skip(k + 1) =~= tail);
        assert(split_at(s, c) =~= pieces);
    }
}

/// The first part comes first.
proof fn lemma_join_first(list: Seq<Seq<char>>, sep: Seq<char>)
    requires
        list.len() > 1,
    ensures
        join_with(list, sep) == list[0] + sep + join_with(list.drop_first(), sep),
    decreases list.len(),
{
    let rest = list.drop_first();
    if list.len() == 2 {
        assert(list.drop_last() =~= seq![list[0]]);
        assert(rest =~= seq![list[1]]);
        assert(join_with(list.drop_last(), sep) == list[0]);
        assert(list.last() == list[1]);
    } else {
        lemma_join_first(list.drop_last(), sep);
        assert(list.drop_last().drop_first() =~= rest.drop_last());
        assert(rest.last() == list.last());
        assert(join_with(list, sep) =~= list[0] + sep + join_with(rest, sep));
    }
}

/// A line that ends in a line feed, with a carriage return before it or without, comes first, and
/// the lines of the rest follow.
pub proof fn law_lines_are_cut(line: Seq<char>, rest: Seq<char>)
    requires
        !line.contains('\n'),
        line.len() > 0 ==> line.last() != '\r',
    ensures
        lines_of(line + "\n"@ + rest) == seq![line] + lines_of(rest),
        lines_of(line + "\r\n"@ + rest) == seq![line] + lines_of(rest),
        line.len() > 0 ==> lines_of(line) == seq![line],
        lines_of(Seq::empty()) == Seq::<Seq<char>>::empty(),
{
    reveal_strlit("\n");
    reveal_strlit("\r\n");
    lemma_line_feed(line, rest);
    let long = line.push('\r');
    assert(!long.contains('\n')) by {
        if long.contains('\n') {
            let i = choose|i: int| 0 <= i < long.len() && long[i] == '\n';
            assert(line[i] == '\n');
        }
    }
    lemma_line_feed(long, rest);
    assert(line + "\n"@ + rest =~= line + seq!['\n'] + rest);
    assert(line + "\r\n"@ + rest =~= long + seq!['\n'] + rest);
    assert(long.drop_last() =~= line);
    lemma_char_index(line, '\n');
    if char_index(line, '\n') < line.len() {
        assert(line.contains(line[char_index(line, '\n') as int]));
    }
}

/// What stands before the first line feed is the first line, but for a carriage return at its end.
proof fn lemma_line_feed(line: Seq<char>, rest: Seq<char>)
    requires
        !line.contains('\n'),
    ensures
        lines_of(line + seq!['\n'] + rest) == seq![without_cr(line)] + lines_of(rest),
{
    let s = line + seq!['\n'] + rest;
    assert(s[line.len() as int] == '\n');
    lemma_char_index(s, '\n');
    let k = char_index(s, '\n') as int;
    if k < line.len() {
        assert(s[k] == line[k]);
        assert(line.contains(line[k]));
    }
    assert(k == line.len());
    assert(s.take(k) =~= line);
    assert(s.skip(k + 1) =~= rest);
}

/// Small letters take the place of capitals, one for one; everything else stays.
pub proof fn law_only_capitals_change(s: Seq<char>, i: int)
    requires
        0 <= i < s.len(),
    ensures
        lower(s).len() == s.len(),
        'A' <= s[i] && s[i] <= 'Z' ==> lower(s)[i] as int == s[i] as int + 32,
        !('A' <= s[i] && s[i] <= 'Z') ==> lower(s)[i] == s[i],
        lower(lower(s)) == lower(s),
{
    assert forall|j: int| 0 <= j < s.len() implies lower(lower(s))[j] == lower(s)[j] by {
        let c = s[j];
        if 'A' <= c && c <= 'Z' {
            assert(lower(s)[j] as int == c as int + 32);
        }
    }
    assert(lower(lower(s)) =~= lower(s));
}

/// White space beyond ASCII: the next line, the spaces of fixed width and the separators count, the
/// joiners of width zero do not.
pub proof fn law_wide_white_space(c: char)
    ensures
        c == '\u{85}' || c == '\u{a0}' || c == '\u{1680}' || '\u{2000}' <= c && c <= '\u{200a}' || c
            == '\u{2028}' || c == '\u{2029}' || c == '\u{202f}' || c == '\u{205f}' || c == '\u{3000}'
            ==> is_white(c),
        c == '\u{200b}' || c == '\u{200d}' || c == '\u{2060}' || c == '\u{feff}' ==> !is_white(c),
        c > '\u{3000}' ==> !is_white(c),
{
}

/// A text is cut where a character stands in it for the first time: what comes of it makes up the
/// text again. A text without that character is not cut.
pub proof fn law_text_is_cut_once(s: Seq<char>, c: char)
    ensures
        split_once_at(s, c) is Some <==> s.contains(c),
        split_once_at(s, c) matches Some(parts) ==> s == parts.0 + seq![c] + parts.1
            && !parts.0.contains(c),
{
    lemma_char_index(s, c);
    let k = char_index(s, c) as int;
    if k < s.len() {
        assert(s[k] == c);
        assert(s =~= s.take(k) + seq![c] + s.skip(k + 1));
    }
}

} // verus!
