//! Login tokens: three parts in base64, of which the last signs the others.
use crate::clock::{nanos_or_zero, now_secs};
use crate::encoding::{decode_base64url, decoded};
use crate::text::{
    is_blank, join_with, joined, law_pieces_are_split, lower, lowered, split, split_at, str_eq,
    text_view, texts, trim,
};
use openssl::error::ErrorStack;
use openssl::hash::MessageDigest;
use openssl::pkey::{PKey, Public};
use openssl::sign::Verifier;
use std::time::SystemTime;
use vstd::prelude::*;
use vstd::string::*;
use vstd::utf8::encode_utf8;

verus! {

/// Who makes the tokens.
pub const LICENSE_TOKEN_ISSUER: &'static str = "webclaw-platform";

/// The first part of a token.
#[derive(Debug)]
pub struct JwtHeader {
    pub alg: String,
    pub typ: Option<String>,
}

/// The second part of a token.
#[derive(Debug)]
pub struct LoginTokenClaims {
    pub user_id: u64,
    pub email: String,
    pub pro_status: bool,
    pub exp: u64,
    pub iat: Option<u64>,
    pub iss: Option<String>,
}

/// `openssl::pkey::PKey`, carried without looking inside.
#[verifier::external_type_specification]
#[verifier::external_body]
#[verifier::reject_recursive_types(T)]
pub struct ExPKey<T>(openssl::pkey::PKey<T>);

/// `openssl::pkey::Public`, the mark of a key without its private part.
#[verifier::external_type_specification]
#[verifier::external_body]
pub struct ExPublic(openssl::pkey::Public);

/// `openssl::sign::Verifier`, carried without looking inside.
#[verifier::external_type_specification]
#[verifier::external_body]
pub struct ExVerifier<'a>(openssl::sign::Verifier<'a>);

/// `openssl::error::ErrorStack`, carried without looking inside.
#[verifier::external_type_specification]
#[verifier::external_body]
pub struct ExErrorStack(openssl::error::ErrorStack);

/// The key that a `PKey` holds, as the DER bytes of `PKeyRef::public_key_to_der`.
pub uninterp spec fn key_in(key: PKey<Public>) -> Seq<u8>;

/// Whether a key is one that `PKey::public_key_from_pem` gives for the bytes of a PEM text.
pub uninterp spec fn pem_holds(pem: Seq<u8>, key: Seq<u8>) -> bool;

/// The key that a `Verifier` was made with.
pub uninterp spec fn verifier_key(v: Verifier<'_>) -> Seq<u8>;

/// The bytes that a `Verifier` has been fed.
pub uninterp spec fn verifier_input(v: Verifier<'_>) -> Seq<u8>;

/// Whether `Verifier::verify` finds that a signature matches a message, for a key and the digest
/// SHA-256.
pub uninterp spec fn signature_holds(key: Seq<u8>, message: Seq<u8>, signature: Seq<u8>) -> bool;

/// `PKey::public_key_from_pem`: where it gives a key, the key is one that the text holds. It panics
/// on more bytes than a C `int` counts. Nothing is claimed of when it fails: for a text whose header
/// says that it is encrypted, OpenSSL asks for a pass phrase on the terminal.
#[verifier::external_body]
fn read_key(pem: &[u8]) -> (r: Result<PKey<Public>, ErrorStack>)
    requires
        pem@.len() <= 0x7fff_ffff,
    ensures
        match r {
            Ok(key) => pem_holds(pem@, key_in(key)),
            Err(_) => true,
        },
{
    PKey::public_key_from_pem(pem)
}

/// `Verifier::new` with `MessageDigest::sha256`: a verifier for the key that has been fed nothing.
/// Nothing is claimed of when it fails.
#[verifier::external_body]
fn start_verifier(key: &PKey<Public>) -> (r: Result<Verifier<'_>, ErrorStack>)
    ensures
        match r {
            Ok(v) => verifier_key(v) == key_in(*key) && verifier_input(v) == Seq::<u8>::empty(),
            Err(_) => true,
        },
{
    Verifier::new(MessageDigest::sha256(), key)
}

/// `Verifier::update`: the verifier has been fed the bytes after those before them. Nothing is
/// claimed of when it fails.
#[verifier::external_body]
fn feed<'a>(v: Verifier<'a>, bytes: &[u8]) -> (r: Result<Verifier<'a>, ErrorStack>)
    ensures
        match r {
            Ok(fed) => verifier_key(fed) == verifier_key(v) && verifier_input(fed)
                == verifier_input(v) + bytes@,
            Err(_) => true,
        },
{
    let mut fed = v;
    match fed.update(bytes) {
        Ok(()) => Ok(fed),
        Err(e) => Err(e),
    }
}

/// `Verifier::verify`: whether the signature matches what the verifier has been fed. Nothing is
/// claimed of when it fails.
#[verifier::external_body]
fn verdict(v: Verifier<'_>, signature: &[u8]) -> (r: Result<bool, ErrorStack>)
    ensures
        match r {
            Ok(holds) => holds == signature_holds(
                verifier_key(v),
                verifier_input(v),
                signature@,
            ),
            Err(_) => true,
        },
{
    v.verify(signature)
}

/// What an `ErrorStack` displays as. It holds places in the code of OpenSSL, and nothing is claimed
/// of it.
#[verifier::external_body]
fn error_text(e: ErrorStack) -> (r: String) {
    e.to_string()
}

/// What is wrong with the first part of a token, where anything is: it has to name the algorithm,
/// and a type, where it names one.
pub open spec fn header_error(header: JwtHeader) -> Option<Seq<char>> {
    if header.alg@ != "RS256"@ {
        Some("unsupported login token algorithm"@)
    } else {
        match text_view(header.typ) {
            Some(t) => if lower(t) != "jwt"@ {
                Some("invalid login token type"@)
            } else {
                None
            },
            None => None,
        }
    }
}

/// What is wrong with the first part of a token, where anything is.
pub fn check_header(header: &JwtHeader) -> (r: Option<String>)
    ensures
        text_view(r) == header_error(*header),
{
    if !str_eq(header.alg.as_str(), "RS256") {
        return Some("unsupported login token algorithm".to_owned());
    }
    match &header.typ {
        Some(t) => if !str_eq(lowered(t.as_str()).as_str(), "jwt") {
            Some("invalid login token type".to_owned())
        } else {
            None
        },
        None => None,
    }
}

/// What is wrong with the second part of a token at a time, in seconds, where anything is: it comes
/// from the right issuer, names a user, has not expired, and was not made more than a minute later.
pub open spec fn claims_error(claims: LoginTokenClaims, now: u64) -> Option<Seq<char>> {
    if text_view(claims.iss) != Some(LICENSE_TOKEN_ISSUER@) {
        Some("invalid login token issuer"@)
    } else if claims.user_id == 0 || trim(claims.email@).len() == 0 {
        Some("login token missing user identity"@)
    } else if claims.exp <= now {
        Some("login token expired"@)
    } else if claims.iat matches Some(iat) && iat > now + 60 {
        Some("login token issued-at time is invalid"@)
    } else {
        None
    }
}

/// What is wrong with the second part of a token at a time, in seconds, where anything is.
pub fn check_claims(claims: &LoginTokenClaims, now: u64) -> (r: Option<String>)
    ensures
        text_view(r) == claims_error(*claims, now),
{
    let issued = match &claims.iss {
        Some(iss) => str_eq(iss.as_str(), LICENSE_TOKEN_ISSUER),
        None => false,
    };
    if !issued {
        return Some("invalid login token issuer".to_owned());
    }
    if claims.user_id == 0 || is_blank(claims.email.as_str()) {
        return Some("login token missing user identity".to_owned());
    }
    if claims.exp <= now {
        return Some("login token expired".to_owned());
    }
    match claims.iat {
        Some(iat) => if iat > now.saturating_add(60) {
            return Some("login token issued-at time is invalid".to_owned());
        },
        None => {},
    }
    None
}

/// Whether a result is the given error.
pub open spec fn is_error<T>(r: Result<T, String>, message: Seq<char>) -> bool {
    r matches Err(e) && e@ == message
}

/// Calls a function with one argument: the result is one that the function may give for it.
fn ask<A, R, F: Fn(A) -> R>(f: F, a: A) -> (r: R)
    requires
        call_requires(f, (a,)),
    ensures
        call_ensures(f, (a,), r),
{
    f(a)
}

/// Calls a function with two arguments: the result is one that the function may give for them.
fn ask_two<A, B, R, F: Fn(A, B) -> R>(f: F, a: A, b: B) -> (r: R)
    requires
        call_requires(f, (a, b)),
    ensures
        call_ensures(f, (a, b), r),
{
    f(a, b)
}

/// Whether an error is one that OpenSSL gives for reading the key in a PEM text.
pub closed spec fn key_fails(pem: Seq<char>, e: ErrorStack) -> bool {
    exists|bytes: &[u8]|
        bytes@ == encode_utf8(pem) && #[trigger] call_ensures(read_key, (bytes,), Err(e))
}

/// Whether an error is one that OpenSSL gives for a verifier with a key that a PEM text holds.
pub closed spec fn start_fails(pem: Seq<char>, e: ErrorStack) -> bool {
    exists|key: &PKey<Public>|
        pem_holds(encode_utf8(pem), key_in(*key)) && #[trigger] call_ensures(
            start_verifier,
            (key,),
            Err(e),
        )
}

/// Whether an error is one that OpenSSL gives for feeding a message to a new verifier with a key
/// that a PEM text holds.
pub closed spec fn feed_fails(pem: Seq<char>, message: Seq<char>, e: ErrorStack) -> bool {
    exists|v: Verifier<'_>, bytes: &[u8]|
        pem_holds(encode_utf8(pem), verifier_key(v)) && verifier_input(v) == Seq::<u8>::empty()
            && bytes@ == encode_utf8(message) && #[trigger] call_ensures(feed, (v, bytes), Err(e))
}

/// Whether an error is one that OpenSSL gives for verifying a signature with a key that a PEM text
/// holds.
pub closed spec fn verify_fails(
    pem: Seq<char>,
    message: Seq<char>,
    signature: Seq<u8>,
    e: ErrorStack,
) -> bool {
    exists|v: Verifier<'_>, bytes: &[u8]|
        pem_holds(encode_utf8(pem), verifier_key(v)) && verifier_input(v) == encode_utf8(message)
            && bytes@ == signature && #[trigger] call_ensures(verdict, (v, bytes), Err(e))
}

/// Whether a text is what an error of OpenSSL displays as.
pub closed spec fn is_told(e: ErrorStack, text: Seq<char>) -> bool {
    exists|s: String| s@ == text && #[trigger] call_ensures(error_text, (e,), s)
}

/// Whether a text is the given beginning, and after it what an error of OpenSSL displays as.
pub open spec fn is_told_after(e: ErrorStack, start: Seq<char>, text: Seq<char>) -> bool {
    exists|said: Seq<char>| #[trigger] is_told(e, said) && text == start + said
}

/// What an error of OpenSSL displays as.
fn told(e: ErrorStack) -> (r: String)
    ensures
        is_told(e, r@),
{
    ask(error_text, e)
}

/// Whether a text, in base64, is a signature of a message by a key that a PEM text holds.
pub open spec fn is_signature(pem: Seq<char>, message: Seq<char>, signature: Seq<char>) -> bool {
    &&& decoded(signature) is Ok
    &&& exists|key: Seq<u8>| #[trigger]
        pem_holds(encode_utf8(pem), key) && signature_holds(
            key,
            encode_utf8(message),
            decoded(signature)->Ok_0,
        )
}

/// Whether a text, in base64, is not a signature of a message by some key that a PEM text holds.
pub open spec fn is_no_signature(pem: Seq<char>, message: Seq<char>, signature: Seq<char>) -> bool {
    &&& decoded(signature) is Ok
    &&& exists|key: Seq<u8>| #[trigger]
        pem_holds(encode_utf8(pem), key) && !signature_holds(
            key,
            encode_utf8(message),
            decoded(signature)->Ok_0,
        )
}

/// Whether a PEM text holds a key at all.
pub open spec fn holds_a_key(pem: Seq<char>) -> bool {
    exists|key: Seq<u8>| #[trigger] pem_holds(encode_utf8(pem), key)
}

/// Whether a text says why a signature is not accepted: OpenSSL failed to do its part, and gave an
/// error that the text tells, or the signature is not in base64, or it is none.
pub open spec fn signature_error(
    pem: Seq<char>,
    message: Seq<char>,
    signature: Seq<char>,
    text: Seq<char>,
) -> bool {
    match decoded(signature) {
        Err(d) => {
            ||| exists|e: ErrorStack|
                #![trigger key_fails(pem, e)]
                key_fails(pem, e) && is_told_after(e, "load public key failed: "@, text)
            ||| holds_a_key(pem) && text == "decode token signature failed: "@ + d
        },
        Ok(bytes) => {
            ||| exists|e: ErrorStack|
                #![trigger key_fails(pem, e)]
                key_fails(pem, e) && is_told_after(e, "load public key failed: "@, text)
            ||| exists|e: ErrorStack|
                #![trigger start_fails(pem, e)]
                start_fails(pem, e) && is_told_after(e, "init verifier failed: "@, text)
            ||| exists|e: ErrorStack|
                #![trigger feed_fails(pem, message, e)]
                feed_fails(pem, message, e) && is_told_after(e, "feed verifier failed: "@, text)
            ||| exists|e: ErrorStack|
                #![trigger verify_fails(pem, message, bytes, e)]
                verify_fails(pem, message, bytes, e) && is_told_after(
                    e,
                    "verify token signature failed: "@,
                    text,
                )
            ||| is_no_signature(pem, message, signature) && text == "invalid login token signature"@
        },
    }
}

/// What the verdict on a signature comes to: whether it matches, or what was said where there was
/// no verdict.
pub fn signature_result(outcome: Result<bool, String>) -> (r: Result<(), String>)
    ensures
        match outcome {
            Ok(true) => r is Ok,
            Ok(false) => is_error(r, "invalid login token signature"@),
            Err(e) => is_error(r, "verify token signature failed: "@ + e@),
        },
{
    match outcome {
        Ok(true) => Ok(()),
        Ok(false) => Err("invalid login token signature".to_owned()),
        Err(e) => Err(joined("verify token signature failed: ", e.as_str())),
    }
}

/// Checks that a text, in base64, is a signature of a message by the key in a PEM text. An error
/// that tells of a failure of OpenSSL comes only where OpenSSL gave one.
pub fn check_signature(pem: &str, message: &str, signature: &str) -> (r: Result<(), String>)
    requires
        encode_utf8(pem@).len() <= 0x7fff_ffff,
    ensures
        match r {
            Ok(_) => is_signature(pem@, message@, signature@),
            Err(e) => signature_error(pem@, message@, signature@, e@),
        },
{
    let key = match ask(read_key, pem.as_bytes()) {
        Ok(key) => key,
        Err(e) => {
            let ghost error = e;
            let text = told(e);
            proof {
                assert(key_fails(pem@, error));
                assert(is_told(error, text@));
            }
            return Err(joined("load public key failed: ", text.as_str()));
        },
    };
    proof {
        assert(pem_holds(encode_utf8(pem@), key_in(key)));
    }
    let bytes = match decode_base64url(signature) {
        Ok(bytes) => bytes,
        Err(e) => return Err(joined("decode token signature failed: ", e.as_str())),
    };
    let verifier = match ask(start_verifier, &key) {
        Ok(v) => v,
        Err(e) => {
            let ghost error = e;
            let text = told(e);
            proof {
                assert(start_fails(pem@, error));
                assert(is_told(error, text@));
            }
            return Err(joined("init verifier failed: ", text.as_str()));
        },
    };
    let fed = match ask_two(feed, verifier, message.as_bytes()) {
        Ok(v) => v,
        Err(e) => {
            let ghost error = e;
            let text = told(e);
            proof {
                assert(feed_fails(pem@, message@, error));
                assert(is_told(error, text@));
            }
            return Err(joined("feed verifier failed: ", text.as_str()));
        },
    };
    proof {
        assert(verifier_input(fed) =~= encode_utf8(message@));
    }
    match ask_two(verdict, fed, bytes.as_slice()) {
        Ok(holds) => signature_result(Ok(holds)),
        Err(e) => {
            let ghost error = e;
            let text = told(e);
            proof {
                assert(verify_fails(pem@, message@, bytes@, error));
                assert(is_told(error, text@));
            }
            signature_result(Err(text))
        },
    }
}

/// The parts of a token.
pub open spec fn parts_of(token: Seq<char>) -> Seq<Seq<char>> {
    split_at(token, '.')
}

/// What a token signs: its first two parts, with the dot between them.
pub open spec fn signed_part(token: Seq<char>) -> Seq<char> {
    parts_of(token)[0] + "."@ + parts_of(token)[1]
}

/// Whether a token has three parts, of which the last signs the others with a key that a PEM text
/// holds.
pub open spec fn is_signed(token: Seq<char>, pem: Seq<char>) -> bool {
    parts_of(token).len() == 3 && is_signature(pem, signed_part(token), parts_of(token)[2])
}

/// What comes of reading the second part of a token, for the bytes that it holds and what the given
/// function makes of them.
pub open spec fn claims_outcome<C: Fn(&Vec<u8>) -> Result<LoginTokenClaims, String>>(
    token: Seq<char>,
    parse_claims: C,
    r: Result<LoginTokenClaims, String>,
) -> bool {
    match decoded(parts_of(token)[1]) {
        Err(e) => is_error(r, "decode token payload failed: "@ + e),
        Ok(payload) => exists|bytes: Vec<u8>, claims: Result<LoginTokenClaims, String>| #[trigger]
            call_ensures(parse_claims, (&bytes,), claims) && bytes@ == payload && match claims {
                Err(e) => is_error(r, "parse token payload failed: "@ + e@),
                Ok(claims) => exists|t: SystemTime|
                    match claims_error(
                        claims,
                        (#[trigger] nanos_or_zero(t) / 1_000_000_000) as u64,
                    ) {
                        Some(message) => is_error(r, message),
                        None => r == Ok::<LoginTokenClaims, String>(claims),
                    },
            },
    }
}

/// What comes of a token whose first part is in order.
pub open spec fn signed_outcome<C: Fn(&Vec<u8>) -> Result<LoginTokenClaims, String>>(
    token: Seq<char>,
    pem: Seq<char>,
    parse_claims: C,
    r: Result<LoginTokenClaims, String>,
) -> bool {
    ||| r matches Err(e) && signature_error(pem, signed_part(token), parts_of(token)[2], e@)
    ||| is_signature(pem, signed_part(token), parts_of(token)[2]) && claims_outcome(
        token,
        parse_claims,
        r,
    )
}

/// What comes of a token, for what the given functions make of its first two parts, the key in a
/// PEM text, and the time that the clock shows.
pub open spec fn login_outcome<
    H: Fn(&Vec<u8>) -> Result<JwtHeader, String>,
    C: Fn(&Vec<u8>) -> Result<LoginTokenClaims, String>,
>(
    token: Seq<char>,
    pem: Seq<char>,
    parse_header: H,
    parse_claims: C,
    r: Result<LoginTokenClaims, String>,
) -> bool {
    if parts_of(token).len() != 3 {
        is_error(r, "invalid login token format"@)
    } else {
        match decoded(parts_of(token)[0]) {
            Err(e) => is_error(r, "decode token header failed: "@ + e),
            Ok(first) => exists|bytes: Vec<u8>, header: Result<JwtHeader, String>| #[trigger]
                call_ensures(parse_header, (&bytes,), header) && bytes@ == first && match header {
                    Err(e) => is_error(r, "parse token header failed: "@ + e@),
                    Ok(header) => match header_error(header) {
                        Some(message) => is_error(r, message),
                        None => signed_outcome(token, pem, parse_claims, r),
                    },
                },
        }
    }
}

/// Reads the second part of a token, at the time that the clock shows.
fn read_claims<C: Fn(&Vec<u8>) -> Result<LoginTokenClaims, String>>(
    part: &str,
    parse_claims: C,
    Ghost(token): Ghost<Seq<char>>,
) -> (r: Result<LoginTokenClaims, String>)
    requires
        part@ == parts_of(token)[1],
        forall|bytes: &Vec<u8>| call_requires(parse_claims, (bytes,)),
    ensures
        claims_outcome(token, parse_claims, r),
        r matches Ok(claims) ==> exists|now: u64|
            #[trigger] claims_error(claims, now) == None::<Seq<char>>,
{
    let payload = match decode_base64url(part) {
        Ok(bytes) => bytes,
        Err(e) => return Err(joined("decode token payload failed: ", e.as_str())),
    };
    let read = parse_claims(&payload);
    let ghost outcome = read;
    match read {
        Err(e) => {
            let r = Err(joined("parse token payload failed: ", e.as_str()));
            assert(call_ensures(parse_claims, (&payload,), outcome));
            r
        },
        Ok(claims) => {
            let now = now_secs();
            let ghost t = choose|t: SystemTime|
                now as nat == #[trigger] nanos_or_zero(t) / 1_000_000_000;
            assert(now == (nanos_or_zero(t) / 1_000_000_000) as u64);
            assert(call_ensures(parse_claims, (&payload,), outcome));
            match check_claims(&claims, now) {
                Some(message) => Err(message),
                None => {
                    assert(claims_error(claims, now) == None::<Seq<char>>);
                    Ok(claims)
                },
            }
        },
    }
}

/// Checks a login token: the user that it names, or why it is not accepted. The two functions read
/// the JSON text of its first two parts.
pub fn verify_login_token<
    H: Fn(&Vec<u8>) -> Result<JwtHeader, String>,
    C: Fn(&Vec<u8>) -> Result<LoginTokenClaims, String>,
>(token: &str, pem: &str, parse_header: H, parse_claims: C) -> (r: Result<LoginTokenClaims, String>)
    requires
        encode_utf8(pem@).len() <= 0x7fff_ffff,
        forall|bytes: &Vec<u8>| call_requires(parse_header, (bytes,)),
        forall|bytes: &Vec<u8>| call_requires(parse_claims, (bytes,)),
    ensures
        login_outcome(token@, pem@, parse_header, parse_claims, r),
        r is Ok ==> is_signed(token@, pem@),
        r matches Ok(claims) ==> exists|now: u64|
            #[trigger] claims_error(claims, now) == None::<Seq<char>>,
{
    let parts = split(token, '.');
    proof {
        assert(texts(parts@).len() == parts@.len());
    }
    if parts.len() != 3 {
        return Err("invalid login token format".to_owned());
    }
    proof {
        assert(texts(parts@)[0] == parts@[0]@);
        assert(texts(parts@)[1] == parts@[1]@);
        assert(texts(parts@)[2] == parts@[2]@);
    }
    let first = match decode_base64url(parts[0].as_str()) {
        Ok(bytes) => bytes,
        Err(e) => return Err(joined("decode token header failed: ", e.as_str())),
    };
    let read = parse_header(&first);
    let ghost outcome = read;
    proof {
        assert(call_ensures(parse_header, (&first,), outcome));
    }
    let header = match read {
        Ok(header) => header,
        Err(e) => return Err(joined("parse token header failed: ", e.as_str())),
    };
    match check_header(&header) {
        Some(message) => return Err(message),
        None => {},
    }
    let mut signed = joined(parts[0].as_str(), ".");
    signed.append(parts[1].as_str());
    match check_signature(pem, signed.as_str(), parts[2].as_str()) {
        Err(e) => Err(e),
        Ok(_) => read_claims(parts[1].as_str(), parse_claims, Ghost(token@)),
    }
}

/// The first part of a token is accepted just where it names the algorithm `RS256`, and the type
/// `JWT`, in capitals or not, where it names a type.
pub proof fn law_header_is_accepted(header: JwtHeader)
    ensures
        header_error(header) is None <==> header.alg@ == "RS256"@ && (header.typ is None || lower(
            header.typ->0@,
        ) == "jwt"@),
{
}

/// The claims of a token are accepted at a time just where they come from the platform, name a user
/// and an address, expire later, and were not made more than a minute after it.
pub proof fn law_claims_are_accepted(claims: LoginTokenClaims, now: u64)
    ensures
        claims_error(claims, now) is None <==> {
            &&& claims.iss is Some && claims.iss->0@ == "webclaw-platform"@
            &&& claims.user_id > 0
            &&& trim(claims.email@).len() > 0
            &&& claims.exp > now
            &&& claims.iat is None || claims.iat->0 <= now + 60
        },
        claims.iss is Some && claims.iss->0@ == "webclaw-platform"@ && claims.user_id > 0 && trim(
            claims.email@,
        ).len() > 0 && claims.exp <= now ==> claims_error(claims, now) == Some(
            "login token expired"@,
        ),
{
}

/// A token that is accepted stays accepted until it expires, and is refused from then on.
pub proof fn law_token_lasts_until_it_expires(claims: LoginTokenClaims, now: u64, later: u64)
    requires
        claims_error(claims, now) is None,
        now <= later,
    ensures
        claims_error(claims, later) is None <==> later < claims.exp,
{
}

/// A token of three parts with dots between them is signed over the first two and the dot between
/// them; a text with fewer or more parts is no token.
pub proof fn law_token_has_three_parts(first: Seq<char>, second: Seq<char>, third: Seq<char>)
    requires
        !first.contains('.'),
        !second.contains('.'),
        !third.contains('.'),
    ensures
        parts_of(first + "."@ + second + "."@ + third) == seq![first, second, third],
        signed_part(first + "."@ + second + "."@ + third) == first + "."@ + second,
        parts_of(first + "."@ + second).len() == 2,
        parts_of(first).len() == 1,
        forall|pem: Seq<char>|
            #![trigger is_signed(first + "."@ + second + "."@ + third, pem)]
            is_signed(first + "."@ + second + "."@ + third, pem) <==> is_signature(
                pem,
                first + "."@ + second,
                third,
            ),
        forall|pem: Seq<char>| !(#[trigger] is_signed(first + "."@ + second, pem)),
        forall|pem: Seq<char>| !(#[trigger] is_signed(first, pem)),
{
    reveal_strlit(".");
    let dot = seq!['.'];
    assert("."@ =~= dot);
    let three = seq![first, second, third];
    let two = seq![first, second];
    let one = seq![first];
    assert(three.drop_last() =~= two);
    assert(two.drop_last() =~= one);
    reveal_with_fuel(join_with, 4);
    assert(join_with(three, dot) =~= first + dot + second + dot + third);
    assert(join_with(two, dot) =~= first + dot + second);
    law_pieces_are_split(three, '.');
    law_pieces_are_split(two, '.');
    law_pieces_are_split(one, '.');
}

/// A token that is accepted has a first part that is in order, was signed by the key, and holds the
/// claims that were read from its second part; they are in order at the time that the clock showed.
#[verifier::rlimit(50)]
pub proof fn law_accepted_token_is_in_order<
    H: Fn(&Vec<u8>) -> Result<JwtHeader, String>,
    C: Fn(&Vec<u8>) -> Result<LoginTokenClaims, String>,
>(
    token: Seq<char>,
    pem: Seq<char>,
    parse_header: H,
    parse_claims: C,
    claims: LoginTokenClaims,
)
    requires
        login_outcome(token, pem, parse_header, parse_claims, Ok(claims)),
    ensures
        split_at(token, '.').len() == 3,
        is_signature(
            pem,
            split_at(token, '.')[0] + "."@ + split_at(token, '.')[1],
            split_at(token, '.')[2],
        ),
        exists|bytes: Vec<u8>, header: JwtHeader|
            #![trigger call_ensures(parse_header, (&bytes,), Ok::<JwtHeader, String>(header))]
            call_ensures(parse_header, (&bytes,), Ok::<JwtHeader, String>(header)) && decoded(
                split_at(token, '.')[0],
            ) == Ok::<Seq<u8>, Seq<char>>(bytes@) && header.alg@ == "RS256"@,
        exists|bytes: Vec<u8>|
            #![trigger call_ensures(parse_claims, (&bytes,), Ok::<LoginTokenClaims, String>(claims))]
            call_ensures(parse_claims, (&bytes,), Ok::<LoginTokenClaims, String>(claims)) && decoded(
                split_at(token, '.')[1],
            ) == Ok::<Seq<u8>, Seq<char>>(bytes@),
        exists|now: u64|
            claims.exp > now && #[trigger] claims_error(claims, now) == None::<Seq<char>>,
{
    let r: Result<LoginTokenClaims, String> = Ok(claims);
    assert(claims_outcome(token, parse_claims, r));
    let payload = decoded(parts_of(token)[1])->Ok_0;
    let (bytes, read) = choose|bytes: Vec<u8>, read: Result<LoginTokenClaims, String>| #[trigger]
        call_ensures(parse_claims, (&bytes,), read) && bytes@ == payload && match read {
            Err(e) => is_error(r, "parse token payload failed: "@ + e@),
            Ok(found) => exists|t: SystemTime|
                match claims_error(
                    found,
                    (#[trigger] nanos_or_zero(t) / 1_000_000_000) as u64,
                ) {
                    Some(message) => is_error(r, message),
                    None => r == Ok::<LoginTokenClaims, String>(found),
                },
        };
    assert(read == Ok::<LoginTokenClaims, String>(claims));
    let t = choose|t: SystemTime|
        match claims_error(claims, (#[trigger] nanos_or_zero(t) / 1_000_000_000) as u64) {
            Some(message) => is_error(r, message),
            None => true,
        };
    let now = (nanos_or_zero(t) / 1_000_000_000) as u64;
    assert(claims_error(claims, now) == None::<Seq<char>>);
    let first = decoded(parts_of(token)[0])->Ok_0;
    let (head, header) = choose|bytes: Vec<u8>, header: Result<JwtHeader, String>| #[trigger]
        call_ensures(parse_header, (&bytes,), header) && bytes@ == first && match header {
            Err(e) => is_error(r, "parse token header failed: "@ + e@),
            Ok(header) => match header_error(header) {
                Some(message) => is_error(r, message),
                None => signed_outcome(token, pem, parse_claims, r),
            },
        };
    assert(header is Ok);
    assert(call_ensures(parse_header, (&head,), Ok::<JwtHeader, String>(header->Ok_0)));
}

/// A signature that is accepted is one that OpenSSL finds to match the bytes of the message, for a
/// key that the PEM text holds; the bytes of the signature are those that its text encodes.
pub proof fn law_signature_is_by_the_key(
    pem: Seq<char>,
    message: Seq<char>,
    signature: Seq<u8>,
)
    requires
        is_signature(pem, message, crate::encoding::base64url(signature)),
    ensures
        exists|key: Seq<u8>| #[trigger]
            pem_holds(encode_utf8(pem), key) && signature_holds(
                key,
                encode_utf8(message),
                signature,
            ),
{
    crate::encoding::law_encoded_bytes_are_decoded(signature);
}

/// A token whose signature does not match is refused, whatever its claims say.
pub proof fn law_unsigned_token_is_refused<
    H: Fn(&Vec<u8>) -> Result<JwtHeader, String>,
    C: Fn(&Vec<u8>) -> Result<LoginTokenClaims, String>,
>(
    token: Seq<char>,
    pem: Seq<char>,
    parse_header: H,
    parse_claims: C,
    signature: Seq<u8>,
    r: Result<LoginTokenClaims, String>,
)
    requires
        login_outcome(token, pem, parse_header, parse_claims, r),
        split_at(token, '.').len() == 3,
        split_at(token, '.')[2] == crate::encoding::base64url(signature),
        forall|key: Seq<u8>| #[trigger]
            pem_holds(encode_utf8(pem), key) ==> !signature_holds(
                key,
                encode_utf8(split_at(token, '.')[0] + "."@ + split_at(token, '.')[1]),
                signature,
            ),
    ensures
        r is Err,
{
    if let Ok(claims) = r {
        law_accepted_token_is_in_order(token, pem, parse_header, parse_claims, claims);
        law_signature_is_by_the_key(
            pem,
            split_at(token, '.')[0] + "."@ + split_at(token, '.')[1],
            signature,
        );
    }
}

/// What is said of a signature that is not accepted: where OpenSSL fails at none of its parts, a
/// text that is not in base64 is told with the error of its decoding, and any other is no signature
/// by a key in the PEM text. A failure of OpenSSL is told after the part that failed.
pub proof fn law_refused_signature_is_told(
    pem: Seq<char>,
    message: Seq<char>,
    signature: Seq<char>,
    text: Seq<char>,
)
    requires
        signature_error(pem, message, signature, text),
    ensures
        ({
            let key = "load public key failed: "@;
            let start = "init verifier failed: "@;
            let feed = "feed verifier failed: "@;
            let verdict = "verify token signature failed: "@;
            match decoded(signature) {
                Err(d) => {
                    ||| text == "decode token signature failed: "@ + d
                    ||| key.is_prefix_of(text) && exists|e: ErrorStack| #[trigger] key_fails(pem, e)
                },
                Ok(bytes) => {
                    ||| text == "invalid login token signature"@ && exists|k: Seq<u8>|
                        #[trigger] pem_holds(encode_utf8(pem), k) && !signature_holds(
                            k,
                            encode_utf8(message),
                            bytes,
                        )
                    ||| key.is_prefix_of(text) && exists|e: ErrorStack| #[trigger] key_fails(pem, e)
                    ||| start.is_prefix_of(text) && exists|e: ErrorStack|
                        #[trigger] start_fails(pem, e)
                    ||| feed.is_prefix_of(text) && exists|e: ErrorStack|
                        #[trigger] feed_fails(pem, message, e)
                    ||| verdict.is_prefix_of(text) && exists|e: ErrorStack|
                        #[trigger] verify_fails(pem, message, bytes, e)
                },
            }
        }),
{
    assert forall|e: ErrorStack, first: Seq<char>| #[trigger]
        is_told_after(e, first, text) implies first.is_prefix_of(text) by {
        let said = choose|said: Seq<char>| #[trigger] is_told(e, said) && text == first + said;
        assert((first + said).subrange(0, first.len() as int) =~= first);
    }
}

} // verus!
