//! Percent encoding, and the parameters of a query.
use crate::bytes::{loose_text, text_lossy};
use crate::text::{
    char_index, join_with, law_pieces_are_split, lemma_char_index, split, split_at, split_once,
    split_once_at, str_eq, text_view, texts,
};
use vstd::prelude::*;
use vstd::string::*;
use vstd::utf8::{
    char_is_scalar, encode_scalar, encode_utf8, encode_utf8_decode_utf8, encode_utf8_valid_utf8,
};

verus! {

/// The value of a hexadecimal digit.
pub open spec fn hex_digit(b: u8) -> Option<u8> {
    if 0x30 <= b <= 0x39 {
        Some((b - 0x30) as u8)
    } else if 0x61 <= b <= 0x66 {
        Some((b - 0x61 + 10) as u8)
    } else if 0x41 <= b <= 0x46 {
        Some((b - 0x41 + 10) as u8)
    } else {
        None
    }
}

/// The byte that two characters after a percent sign write: two digits, or a plus and a digit.
pub open spec fn hex_pair(a: u8, b: u8) -> Option<u8> {
    match (hex_digit(a), hex_digit(b)) {
        (Some(high), Some(low)) => Some((high * 16 + low) as u8),
        (None, Some(low)) => if a == 0x2b {
            Some(low)
        } else {
            None
        },
        _ => None,
    }
}

/// The bytes that percent-encoded bytes stand for. A plus stands for a space; a percent sign that
/// no two digits follow stands for itself.
pub open spec fn percent_bytes(b: Seq<u8>) -> Seq<u8>
    decreases b.len(),
{
    if b.len() == 0 {
        Seq::empty()
    } else if b[0] == 0x25 && b.len() > 2 && hex_pair(b[1], b[2]) is Some {
        seq![hex_pair(b[1], b[2])->0] + percent_bytes(b.skip(3))
    } else {
        seq![
            if b[0] == 0x2b {
                0x20u8
            } else {
                b[0]
            },
        ] + percent_bytes(b.skip(1))
    }
}

/// Whether the two bytes after each percent sign are whole characters: the byte after them, where
/// there is one, begins a character.
pub open spec fn pairs_are_whole(b: Seq<u8>) -> bool {
    forall|i: int|
        0 <= i && i + 3 < b.len() && #[trigger] b[i] == 0x25 ==> !(0x80 <= b[i + 3] < 0xc0)
}

/// The text that a percent-encoded text stands for.
pub open spec fn percent_text(s: Seq<char>) -> Seq<char> {
    loose_text(percent_bytes(encode_utf8(s)))
}

/// Whether the two bytes after each percent sign are whole characters, so that the text can be
/// decoded.
pub fn is_percent_decodable(input: &str) -> (r: bool)
    ensures
        r == pairs_are_whole(encode_utf8(input@)),
{
    let bytes = input.as_bytes();
    let mut i: usize = 0;
    while i < bytes.len() && bytes.len() - i > 3
        invariant
            bytes@ == encode_utf8(input@),
            i <= bytes@.len(),
            forall|j: int|
                0 <= j < i && j + 3 < bytes@.len() && #[trigger] bytes@[j] == 0x25 ==> !(0x80
                    <= bytes@[j + 3] < 0xc0),
        decreases bytes@.len() - i,
    {
        if bytes[i] == 0x25 && 0x80 <= bytes[i + 3] && bytes[i + 3] < 0xc0 {
            return false;
        }
        i = i + 1;
    }
    true
}

/// The value of a hexadecimal digit.
fn hex_value(b: u8) -> (r: Option<u8>)
    ensures
        r == hex_digit(b),
        r matches Some(d) ==> d < 16,
{
    if 0x30 <= b && b <= 0x39 {
        Some(b - 0x30)
    } else if 0x61 <= b && b <= 0x66 {
        Some(b - 0x61 + 10)
    } else if 0x41 <= b && b <= 0x46 {
        Some(b - 0x41 + 10)
    } else {
        None
    }
}

/// The byte that two characters after a percent sign write.
fn pair_value(a: u8, b: u8) -> (r: Option<u8>)
    ensures
        r == hex_pair(a, b),
{
    match (hex_value(a), hex_value(b)) {
        (Some(high), Some(low)) => Some(high * 16 + low),
        (None, Some(low)) => if a == 0x2b {
            Some(low)
        } else {
            None
        },
        _ => None,
    }
}

/// The text that a percent-encoded text stands for. Bytes that come out as no UTF-8 are replaced.
pub fn percent_decode(input: &str) -> (r: String)
    requires
        pairs_are_whole(encode_utf8(input@)),
    ensures
        r@ == percent_text(input@),
{
    let bytes = input.as_bytes();
    let mut out: Vec<u8> = Vec::new();
    let mut i: usize = 0;
    proof {
        assert(bytes@.skip(0) =~= bytes@);
        assert(out@ + percent_bytes(bytes@) =~= percent_bytes(bytes@));
    }
    while i < bytes.len()
        invariant
            i <= bytes@.len(),
            out@ + percent_bytes(bytes@.skip(i as int)) == percent_bytes(bytes@),
        decreases bytes@.len() - i,
    {
        let ghost rest = bytes@.skip(i as int);
        let ghost before = out@;
        if bytes[i] == 0x25 && bytes.len() - i > 2 {
            match pair_value(bytes[i + 1], bytes[i + 2]) {
                Some(value) => {
                    out.push(value);
                    proof {
                        assert(rest[1] == bytes@[i + 1] && rest[2] == bytes@[i + 2]);
                        assert(rest.skip(3) =~= bytes@.skip(i + 3));
                        assert(out@ + percent_bytes(bytes@.skip(i + 3)) =~= before + percent_bytes(
                            rest,
                        ));
                    }
                    i = i + 3;
                    continue ;
                },
                None => {},
            }
        }
        if bytes[i] == 0x2b {
            out.push(0x20);
        } else {
            out.push(bytes[i]);
        }
        proof {
            assert(rest[0] == bytes@[i as int]);
            if rest.len() > 2 {
                assert(rest[1] == bytes@[i + 1] && rest[2] == bytes@[i + 2]);
            }
            assert(rest.skip(1) =~= bytes@.skip(i + 1));
            assert(out@ + percent_bytes(bytes@.skip(i + 1)) =~= before + percent_bytes(rest));
        }
        i = i + 1;
    }
    proof {
        assert(out@ + percent_bytes(bytes@.skip(i as int)) =~= out@);
    }
    text_lossy(out.as_slice())
}

/// The name and the value of a parameter; one without an equals sign has an empty value.
pub open spec fn name_and_value(pair: Seq<char>) -> (Seq<char>, Seq<char>) {
    match split_once_at(pair, '=') {
        Some(p) => p,
        None => (pair, Seq::empty()),
    }
}

/// The value, still encoded, of the first of the parameters that has the given name.
pub open spec fn pair_value_of(pairs: Seq<Seq<char>>, key: Seq<char>) -> Option<Seq<char>>
    decreases pairs.len(),
{
    if pairs.len() == 0 {
        None
    } else if name_and_value(pairs[0]).0 == key {
        Some(name_and_value(pairs[0]).1)
    } else {
        pair_value_of(pairs.drop_first(), key)
    }
}

/// The value, still encoded, of the first parameter of that name in the query of a path.
pub open spec fn query_value(path: Seq<char>, key: Seq<char>) -> Option<Seq<char>> {
    match split_once_at(path, '?') {
        Some((_, query)) => pair_value_of(split_at(query, '&'), key),
        None => None,
    }
}

/// The value, still encoded, of the first parameter of that name in the query of a path.
pub fn encoded_query_param(path: &str, key: &str) -> (r: Option<String>)
    ensures
        text_view(r) == query_value(path@, key@),
{
    match split_once(path, '?') {
        Some((_, query)) => {
            let pairs = split(query.as_str(), '&');
            let ghost all = texts(pairs@);
            let mut i: usize = 0;
            proof {
                assert(all.skip(0) =~= all);
            }
            while i < pairs.len()
                invariant
                    i <= pairs@.len(),
                    all == texts(pairs@),
                    pair_value_of(all.skip(i as int), key@) == query_value(path@, key@),
                decreases pairs@.len() - i,
            {
                proof {
                    assert(all.skip(i as int)[0] == pairs@[i as int]@);
                    assert(all.skip(i as int).drop_first() =~= all.skip(i + 1));
                }
                match split_once(pairs[i].as_str(), '=') {
                    Some((name, value)) => if str_eq(name.as_str(), key) {
                        return Some(value);
                    },
                    None => if str_eq(pairs[i].as_str(), key) {
                        return Some(String::new());
                    },
                }
                i = i + 1;
            }
            None
        },
        None => None,
    }
}

/// The value of the first parameter of that name in the query of a path.
pub open spec fn query_text(path: Seq<char>, key: Seq<char>) -> Option<Seq<char>> {
    match query_value(path, key) {
        Some(value) => Some(percent_text(value)),
        None => None,
    }
}

/// The value of the first parameter of that name in the query of a path.
pub fn request_query_param(path: &str, key: &str) -> (r: Option<String>)
    requires
        query_value(path@, key@) matches Some(value) ==> pairs_are_whole(encode_utf8(value)),
    ensures
        text_view(r) == query_text(path@, key@),
{
    match encoded_query_param(path, key) {
        Some(value) => Some(percent_decode(value.as_str())),
        None => None,
    }
}

/// Whether a byte is neither a percent sign nor a plus.
pub open spec fn is_plain(b: u8) -> bool {
    b != 0x25 && b != 0x2b
}

/// Bytes without a percent sign and without a plus stand for themselves.
proof fn lemma_plain_bytes(b: Seq<u8>)
    requires
        forall|i: int| 0 <= i < b.len() ==> is_plain(#[trigger] b[i]),
    ensures
        percent_bytes(b) == b,
    decreases b.len(),
{
    if b.len() > 0 {
        let rest = b.skip(1);
        assert forall|i: int| 0 <= i < rest.len() implies is_plain(#[trigger] rest[i]) by {
            assert(rest[i] == b[i + 1]);
        }
        lemma_plain_bytes(rest);
        assert(is_plain(b[0]));
    }
    assert(percent_bytes(b) =~= b);
}

/// The bytes of a character other than a percent sign and a plus are plain.
proof fn lemma_plain_char(c: char)
    requires
        c != '%',
        c != '+',
    ensures
        forall|i: int|
            0 <= i < encode_scalar(c as u32).len() ==> is_plain(
                #[trigger] encode_scalar(c as u32)[i],
            ),
{
    let v = c as u32;
    char_is_scalar(c);
    assert(v <= 0x7f ==> (v & 0x7f) as u8 == v) by (bit_vector);
    assert((0xc0u8 | ((v >> 6) & 0x1f) as u8) >= 0x80) by (bit_vector);
    assert((0xe0u8 | ((v >> 12) & 0x0f) as u8) >= 0x80) by (bit_vector);
    assert((0xf0u8 | ((v >> 18) & 0x7) as u8) >= 0x80) by (bit_vector);
    assert((0x80u8 | (v & 0x3f) as u8) >= 0x80) by (bit_vector);
    assert((0x80u8 | ((v >> 6) & 0x3f) as u8) >= 0x80) by (bit_vector);
    assert((0x80u8 | ((v >> 12) & 0x3f) as u8) >= 0x80) by (bit_vector);
}

/// The bytes of a text without a percent sign and without a plus are plain.
proof fn lemma_plain_text(s: Seq<char>)
    requires
        !s.contains('%'),
        !s.contains('+'),
    ensures
        forall|i: int| 0 <= i < encode_utf8(s).len() ==> is_plain(#[trigger] encode_utf8(s)[i]),
    decreases s.len(),
{
    if s.len() > 0 {
        let first = encode_scalar(s[0] as u32);
        let rest = s.drop_first();
        assert(s.contains(s[0]));
        lemma_plain_char(s[0]);
        assert forall|c: char| rest.contains(c) implies s.contains(c) by {
            let i = choose|i: int| 0 <= i < rest.len() && rest[i] == c;
            assert(s[i + 1] == c);
        }
        lemma_plain_text(rest);
        let b = encode_utf8(s);
        assert forall|i: int| 0 <= i < b.len() implies is_plain(#[trigger] b[i]) by {
            if i < first.len() {
                assert(b[i] == first[i]);
            } else {
                assert(b[i] == encode_utf8(rest)[i - first.len()]);
            }
        }
    }
}

/// A text without a percent sign and without a plus decodes to itself.
pub proof fn law_plain_text_stays(s: Seq<char>)
    requires
        !s.contains('%'),
        !s.contains('+'),
    ensures
        pairs_are_whole(encode_utf8(s)),
        percent_text(s) == s,
{
    lemma_plain_text(s);
    let b = encode_utf8(s);
    lemma_plain_bytes(b);
    encode_utf8_valid_utf8(s);
    encode_utf8_decode_utf8(s);
    assert forall|i: int| 0 <= i && i + 3 < b.len() && #[trigger] b[i] == 0x25 implies !(0x80
        <= b[i + 3] < 0xc0) by {
        assert(is_plain(b[i]));
    }
}

/// Whether bytes are an encoding of others: each of those is written as a percent sign and two
/// digits, in capital or small letters, or as itself, unless it is a percent sign or a plus; a space
/// may be written as a plus.
pub open spec fn encodes(form: Seq<u8>, b: Seq<u8>) -> bool
    decreases b.len(),
{
    if b.len() == 0 {
        form.len() == 0
    } else {
        ||| form.len() > 0 && form[0] == b[0] && is_plain(b[0]) && encodes(form.skip(1), b.skip(1))
        ||| form.len() > 0 && form[0] == 0x2b && b[0] == 0x20 && encodes(form.skip(1), b.skip(1))
        ||| form.len() > 2 && form[0] == 0x25 && hex_digit(form[1]) == Some((b[0] / 16) as u8)
            && hex_digit(form[2]) == Some((b[0] % 16) as u8) && encodes(form.skip(3), b.skip(1))
    }
}

/// Bytes that are encoded come back.
pub proof fn law_encoded_bytes_come_back(form: Seq<u8>, b: Seq<u8>)
    requires
        encodes(form, b),
    ensures
        percent_bytes(form) == b,
    decreases b.len(),
{
    if b.len() == 0 {
        assert(percent_bytes(form) =~= b);
    } else {
        let rest = b.skip(1);
        assert(seq![b[0]] + rest =~= b);
        if form[0] == 0x25 {
            assert(b[0] / 16 <= 15);
            assert(hex_pair(form[1], form[2]) == Some(b[0]));
            law_encoded_bytes_come_back(form.skip(3), rest);
        } else {
            law_encoded_bytes_come_back(form.skip(1), rest);
        }
    }
}

/// A text whose bytes are encoded comes back. A text that holds an encoding can be decoded.
pub proof fn law_encoded_text_comes_back(form: Seq<char>, s: Seq<char>)
    requires
        encodes(encode_utf8(form), encode_utf8(s)),
    ensures
        pairs_are_whole(encode_utf8(form)),
        percent_text(form) == s,
{
    let f = encode_utf8(form);
    law_encoded_bytes_come_back(f, encode_utf8(s));
    encode_utf8_valid_utf8(s);
    encode_utf8_decode_utf8(s);
    assert forall|i: int| 0 <= i && i + 3 < f.len() && #[trigger] f[i] == 0x25 implies !(0x80
        <= f[i + 3] < 0xc0) by {
        lemma_digits_follow(f, encode_utf8(s), i);
        lemma_character_after_ascii(form, i + 2);
    }
}

/// In an encoding digits follow each percent sign.
proof fn lemma_digits_follow(form: Seq<u8>, b: Seq<u8>, i: int)
    requires
        encodes(form, b),
        0 <= i < form.len(),
        form[i] == 0x25,
    ensures
        i + 2 < form.len(),
        form[i + 2] < 0x80,
    decreases b.len(),
{
    let rest = b.skip(1);
    if form[0] == 0x25 {
        if i > 0 {
            assert(i != 1 && i != 2);
            assert(form.skip(3)[i - 3] == form[i]);
            lemma_digits_follow(form.skip(3), rest, i - 3);
            assert(form.skip(3)[i - 3 + 2] == form[i + 2]);
        }
    } else {
        assert(form.skip(1)[i - 1] == form[i]);
        lemma_digits_follow(form.skip(1), rest, i - 1);
        assert(form.skip(1)[i - 1 + 2] == form[i + 2]);
    }
}

/// After a byte below 0x80 a character begins.
proof fn lemma_character_after_ascii(s: Seq<char>, i: int)
    requires
        0 <= i,
        i + 1 < encode_utf8(s).len(),
        encode_utf8(s)[i] < 0x80,
    ensures
        !(0x80 <= encode_utf8(s)[i + 1] < 0xc0),
    decreases s.len(),
{
    let first = encode_scalar(s[0] as u32);
    let rest = s.drop_first();
    let tail = encode_utf8(rest);
    let b = encode_utf8(s);
    assert(b =~= first + tail);
    lemma_scalar_bytes(s[0]);
    if i >= first.len() {
        assert(b[i] == tail[i - first.len()]);
        assert(b[i + 1] == tail[i - first.len() + 1]);
        lemma_character_after_ascii(rest, i - first.len());
    } else {
        assert(b[i] == first[i]);
        assert(first.len() == 1);
        assert(rest.len() > 0);
        lemma_scalar_bytes(rest[0]);
        let second = encode_scalar(rest[0] as u32);
        assert(tail =~= second + encode_utf8(rest.drop_first()));
        assert(b[i + 1] == second[0]);
    }
}

/// A character is one byte below 0x80, or several from there on, of which the first is from 0xc0 on.
proof fn lemma_scalar_bytes(c: char)
    ensures
        ({
            let b = encode_scalar(c as u32);
            &&& b.len() > 0
            &&& b[0] < 0x80 || b[0] >= 0xc0
            &&& b.len() > 1 ==> forall|i: int| 0 <= i < b.len() ==> #[trigger] b[i] >= 0x80
        }),
{
    let v = c as u32;
    char_is_scalar(c);
    assert((v & 0x7f) as u8 <= 0x7f) by (bit_vector);
    assert((0xc0u8 | ((v >> 6) & 0x1f) as u8) >= 0xc0) by (bit_vector);
    assert((0xe0u8 | ((v >> 12) & 0x0f) as u8) >= 0xc0) by (bit_vector);
    assert((0xf0u8 | ((v >> 18) & 0x7) as u8) >= 0xc0) by (bit_vector);
    assert((0x80u8 | (v & 0x3f) as u8) >= 0x80) by (bit_vector);
    assert((0x80u8 | ((v >> 6) & 0x3f) as u8) >= 0x80) by (bit_vector);
    assert((0x80u8 | ((v >> 12) & 0x3f) as u8) >= 0x80) by (bit_vector);
}

/// The form of a parameter in a query.
pub open spec fn parameter_form(p: (Seq<char>, Seq<char>)) -> Seq<char> {
    p.0 + seq!['='] + p.1
}

/// The query of a path holds its parameters: of those with one name the first counts, and a name
/// that is not there has no value.
pub proof fn law_first_parameter_counts(
    path: Seq<char>,
    parameters: Seq<(Seq<char>, Seq<char>)>,
    key: Seq<char>,
    i: int,
)
    requires
        !path.contains('?'),
        parameters.len() > 0,
        forall|j: int|
            0 <= j < parameters.len() ==> !(#[trigger] parameters[j]).0.contains('=')
                && !parameter_form(parameters[j]).contains('&'),
        forall|j: int| 0 <= j < i ==> (#[trigger] parameters[j]).0 != key,
        0 <= i <= parameters.len(),
        i < parameters.len() ==> parameters[i].0 == key,
    ensures
        ({
            let forms = parameters.map_values(|p: (Seq<char>, Seq<char>)| parameter_form(p));
            let whole = path + seq!['?'] + join_with(forms, seq!['&']);
            &&& i < parameters.len() ==> query_value(whole, key) == Some(parameters[i].1)
            &&& i == parameters.len() ==> query_value(whole, key) is None
        }),
        query_value(path, key) is None,
{
    let forms = parameters.map_values(|p: (Seq<char>, Seq<char>)| parameter_form(p));
    let query = join_with(forms, seq!['&']);
    let whole = path + seq!['?'] + query;
    lemma_char_index(whole, '?');
    assert(whole[path.len() as int] == '?');
    assert(char_index(whole, '?') == path.len()) by {
        let k = char_index(whole, '?') as int;
        if k < path.len() {
            assert(whole[k] == path[k]);
            assert(path.contains(path[k]));
        }
    }
    assert(whole.skip((path.len() + 1) as int) =~= query);
    lemma_char_index(path, '?');
    if char_index(path, '?') < path.len() {
        assert(path.contains(path[char_index(path, '?') as int]));
    }
    assert forall|j: int| 0 <= j < forms.len() implies !(#[trigger] forms[j]).contains('&') by {
        assert(forms[j] == parameter_form(parameters[j]));
    }
    law_pieces_are_split(forms, '&');
    lemma_parameters(parameters, key, i);
}

/// The value of the first parameter of a name.
proof fn lemma_parameters(parameters: Seq<(Seq<char>, Seq<char>)>, key: Seq<char>, i: int)
    requires
        forall|j: int| 0 <= j < parameters.len() ==> !(#[trigger] parameters[j]).0.contains('='),
        forall|j: int| 0 <= j < i ==> (#[trigger] parameters[j]).0 != key,
        0 <= i <= parameters.len(),
        i < parameters.len() ==> parameters[i].0 == key,
    ensures
        ({
            let forms = parameters.map_values(|p: (Seq<char>, Seq<char>)| parameter_form(p));
            pair_value_of(forms, key) == if i < parameters.len() {
                Some(parameters[i].1)
            } else {
                None
            }
        }),
    decreases parameters.len(),
{
    let form = |p: (Seq<char>, Seq<char>)| parameter_form(p);
    let forms = parameters.map_values(form);
    if parameters.len() > 0 {
        let (name, value) = parameters[0];
        let first = forms[0];
        assert(first == parameter_form(parameters[0]));
        lemma_char_index(first, '=');
        assert(first[name.len() as int] == '=');
        assert(char_index(first, '=') == name.len()) by {
            let k = char_index(first, '=') as int;
            if k < name.len() {
                assert(first[k] == name[k]);
                assert(name.contains(name[k]));
            }
        }
        assert(first.take(name.len() as int) =~= name);
        assert(first.skip((name.len() + 1) as int) =~= value);
        if i > 0 {
            let rest = parameters.drop_first();
            assert(parameters[0].0 != key);
            assert forall|j: int| 0 <= j < rest.len() implies !(#[trigger] rest[j]).0.contains(
                '=',
            ) by {
                assert(rest[j] == parameters[j + 1]);
            }
            assert forall|j: int| 0 <= j < i - 1 implies (#[trigger] rest[j]).0 != key by {
                assert(rest[j] == parameters[j + 1]);
            }
            lemma_parameters(rest, key, i - 1);
            assert(forms.drop_first() =~= rest.map_values(form));
        }
    }
}

/// A percent sign that no two digits follow stands for itself, and what follows it is decoded as if
/// it stood alone.
pub proof fn law_lone_percent_sign_stays(rest: Seq<u8>)
    requires
        rest.len() < 2 || hex_pair(rest[0], rest[1]) is None,
    ensures
        percent_bytes(seq![0x25u8] + rest) == seq![0x25u8] + percent_bytes(rest),
        percent_bytes(Seq::empty()) == Seq::<u8>::empty(),
{
    let b = seq![0x25u8] + rest;
    assert(b.skip(1) =~= rest);
    if rest.len() >= 2 {
        assert(b[1] == rest[0] && b[2] == rest[1]);
    }
}

/// Two digits write a byte, in capitals or not; a plus and a digit write the value of the digit, and
/// anything else writes none.
pub proof fn law_two_digits_write_a_byte(a: u8, b: u8, high: u8, low: u8)
    ensures
        hex_digit(a) == Some(high) && hex_digit(b) == Some(low) ==> hex_pair(a, b) == Some(
            (high * 16 + low) as u8,
        ),
        hex_digit(b) is None ==> hex_pair(a, b) is None,
        hex_digit(a) is None && a != 0x2b ==> hex_pair(a, b) is None,
        0x30 <= a <= 0x39 ==> hex_digit(a) == Some((a - 0x30) as u8),
        0x41 <= a <= 0x46 ==> hex_digit(a) == Some((a - 0x41 + 10) as u8) && hex_digit(
            (a + 0x20) as u8,
        ) == hex_digit(a),
        hex_digit(a) matches Some(d) ==> d < 16,
{
}

} // verus!
