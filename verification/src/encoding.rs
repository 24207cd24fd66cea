//! The base64 encoding that is safe in URLs, without padding.
use base64::Engine;
use base64::engine::general_purpose::URL_SAFE_NO_PAD;
use vstd::prelude::*;

verus! {

/// The symbol for a value below 64.
pub open spec fn symbol(v: nat) -> char {
    if v < 26 {
        ('A' as u8 + v) as u8 as char
    } else if v < 52 {
        ('a' as u8 + (v - 26)) as u8 as char
    } else if v < 62 {
        ('0' as u8 + (v - 52)) as u8 as char
    } else if v == 62 {
        '-'
    } else {
        '_'
    }
}

/// The symbols for up to three bytes: six bits of them each, with zero bits at the end.
pub open spec fn group(b: Seq<u8>) -> Seq<char> {
    let first = symbol((b[0] / 4) as nat);
    if b.len() == 1 {
        seq![first, symbol((b[0] % 4 * 16) as nat)]
    } else {
        let second = symbol((b[0] % 4 * 16 + b[1] / 16) as nat);
        if b.len() == 2 {
            seq![first, second, symbol((b[1] % 16 * 4) as nat)]
        } else {
            seq![
                first,
                second,
                symbol((b[1] % 16 * 4 + b[2] / 64) as nat),
                symbol((b[2] % 64) as nat),
            ]
        }
    }
}

/// The encoding of bytes.
pub open spec fn base64url(b: Seq<u8>) -> Seq<char>
    decreases b.len(),
{
    if b.len() == 0 {
        Seq::empty()
    } else if b.len() <= 3 {
        group(b)
    } else {
        group(b.take(3)) + base64url(b.skip(3))
    }
}

/// Whether a text encodes some bytes.
pub open spec fn is_base64url(text: Seq<char>) -> bool {
    exists|b: Seq<u8>| #[trigger] base64url(b) == text
}

/// What the error of `URL_SAFE_NO_PAD.decode` says of a text that encodes no bytes.
pub uninterp spec fn base64_error(text: Seq<char>) -> Seq<char>;

/// `base64`'s `URL_SAFE_NO_PAD.decode`: the bytes that the text encodes. Padding, and bits that no
/// byte takes up, are refused; the text of the error is named.
#[verifier::external_body]
pub(crate) fn base64_decode(text: &str) -> (r: Result<Vec<u8>, String>)
    ensures
        match r {
            Ok(b) => base64url(b@) == text@,
            Err(e) => !is_base64url(text@) && e@ == base64_error(text@),
        },
{
    URL_SAFE_NO_PAD.decode(text.as_bytes()).map_err(|e| e.to_string())
}

/// The bytes that a text encodes, or what is said of one that encodes none.
pub open spec fn decoded(text: Seq<char>) -> Result<Seq<u8>, Seq<char>> {
    if is_base64url(text) {
        Ok(choose|b: Seq<u8>| #[trigger] base64url(b) == text)
    } else {
        Err(base64_error(text))
    }
}

/// The bytes that a text encodes.
pub fn decode_base64url(text: &str) -> (r: Result<Vec<u8>, String>)
    ensures
        match r {
            Ok(b) => decoded(text@) == Ok::<Seq<u8>, Seq<char>>(b@),
            Err(e) => decoded(text@) == Err::<Seq<u8>, Seq<char>>(e@),
        },
{
    match base64_decode(text) {
        Ok(b) => {
            proof {
                let other = choose|c: Seq<u8>| #[trigger] base64url(c) == text@;
                law_encodings_differ(b@, other);
            }
            Ok(b)
        },
        Err(e) => Err(e),
    }
}

/// Symbols are told apart by their values.
proof fn lemma_symbol(a: nat, b: nat)
    requires
        a < 64,
        b < 64,
        symbol(a) == symbol(b),
    ensures
        a == b,
{
}

/// The number of symbols tells the number of bytes in a group.
proof fn lemma_group(a: Seq<u8>, b: Seq<u8>)
    requires
        0 < a.len() <= 3,
        0 < b.len() <= 3,
        group(a) == group(b),
    ensures
        a == b,
{
    let x = group(a);
    let y = group(b);
    assert(x.len() == a.len() + 1);
    assert(y.len() == b.len() + 1);
    assert(x[0] == y[0] && x[1] == y[1]);
    lemma_symbol((a[0] / 4) as nat, (b[0] / 4) as nat);
    if a.len() == 1 {
        lemma_symbol((a[0] % 4 * 16) as nat, (b[0] % 4 * 16) as nat);
    } else {
        lemma_symbol(
            (a[0] % 4 * 16 + a[1] / 16) as nat,
            (b[0] % 4 * 16 + b[1] / 16) as nat,
        );
        assert(x[2] == y[2]);
        if a.len() == 2 {
            lemma_symbol((a[1] % 16 * 4) as nat, (b[1] % 16 * 4) as nat);
        } else {
            assert(x[3] == y[3]);
            lemma_symbol(
                (a[1] % 16 * 4 + a[2] / 64) as nat,
                (b[1] % 16 * 4 + b[2] / 64) as nat,
            );
            lemma_symbol((a[2] % 64) as nat, (b[2] % 64) as nat);
        }
    }
    assert(a =~= b);
}

/// An encoding is longer than what it encodes: by one symbol for each three bytes, rounded up.
proof fn lemma_encoded_length(b: Seq<u8>)
    ensures
        base64url(b).len() == b.len() + (b.len() + 2) / 3,
    decreases b.len(),
{
    if b.len() > 3 {
        lemma_encoded_length(b.skip(3));
    }
}

/// Different bytes have different encodings, so that a text encodes one sequence of bytes at most.
pub proof fn law_encodings_differ(a: Seq<u8>, b: Seq<u8>)
    requires
        base64url(a) == base64url(b),
    ensures
        a == b,
    decreases a.len(),
{
    lemma_encoded_length(a);
    lemma_encoded_length(b);
    assert(a.len() == b.len());
    if a.len() == 0 {
        assert(a =~= b);
    } else if a.len() <= 3 {
        lemma_group(a, b);
    } else {
        let x = base64url(a);
        let y = base64url(b);
        assert(x.take(4) =~= group(a.take(3)));
        assert(y.take(4) =~= group(b.take(3)));
        assert(x.skip(4) =~= base64url(a.skip(3)));
        assert(y.skip(4) =~= base64url(b.skip(3)));
        lemma_group(a.take(3), b.take(3));
        law_encodings_differ(a.skip(3), b.skip(3));
        assert(a =~= a.take(3) + a.skip(3));
        assert(b =~= b.take(3) + b.skip(3));
    }
}

/// Bytes that are encoded are decoded to themselves.
pub proof fn law_encoded_bytes_are_decoded(b: Seq<u8>)
    ensures
        decoded(base64url(b)) == Ok::<Seq<u8>, Seq<char>>(b),
{
    let text = base64url(b);
    let found = choose|c: Seq<u8>| #[trigger] base64url(c) == text;
    assert(is_base64url(text));
    law_encodings_differ(found, b);
}

/// The symbols of the encoding are letters, digits, the hyphen and the underscore.
pub proof fn law_symbols_are_safe(v: nat)
    requires
        v < 64,
    ensures
        ({
            let c = symbol(v);
            'A' <= c <= 'Z' || 'a' <= c <= 'z' || '0' <= c <= '9' || c == '-' || c == '_'
        }),
{
}

} // verus!
