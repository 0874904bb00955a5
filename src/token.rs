//! Signed session tokens: three base64url segments (header, payload,
//! HMAC-SHA256 signature) joined by dots, and the claims they carry.
//!
//! The payload is the claims' compact JSON. This module writes and signs it,
//! checks a token's signature and hands back the payload, and accepts claims
//! decoded from a payload only when they are exactly what was signed and
//! have not expired.

use vstd::prelude::*;
use vstd::utf8::encode_utf8;

use crate::auth::UserInfo;
use crate::clock::{current_time, latest_timestamp};
use crate::text::{
    copy_texts, find, index_of, join3, lemma_index_from, lemma_signed_decimal_len, occurs_at,
    same_text, signed_decimal, signed_decimal_text,
};

verus! {

#[verifier::external_type_specification]
#[verifier::external_body]
pub struct ExJwtError(jsonwebtoken::errors::Error);

#[verifier::external_type_specification]
#[verifier::external_body]
pub struct ExDecodeError(base64::DecodeError);

#[verifier::external_type_specification]
#[verifier::external_body]
pub struct ExJsonError(serde_json::Error);

/// The character of the URL-safe base64 alphabet for a six-bit value.
pub open spec fn b64_digit(v: u8) -> char {
    if v < 26 {
        ((65 + v) as u8) as char
    } else if v < 52 {
        ((71 + v) as u8) as char
    } else if v < 62 {
        ((v - 4) as u8) as char
    } else if v == 62 {
        '-'
    } else {
        '_'
    }
}

/// URL-safe base64 without padding: each group of three bytes becomes four
/// characters; a last group of one or two bytes becomes two or three.
pub open spec fn b64url(b: Seq<u8>) -> Seq<char>
    decreases b.len(),
{
    if b.len() == 0 {
        Seq::empty()
    } else if b.len() == 1 {
        seq![b64_digit(b[0] >> 2), b64_digit((b[0] & 3) << 4)]
    } else if b.len() == 2 {
        seq![
            b64_digit(b[0] >> 2),
            b64_digit(((b[0] & 3) << 4) | (b[1] >> 4)),
            b64_digit((b[1] & 15) << 2),
        ]
    } else {
        seq![
            b64_digit(b[0] >> 2),
            b64_digit(((b[0] & 3) << 4) | (b[1] >> 4)),
            b64_digit(((b[1] & 15) << 2) | (b[2] >> 6)),
            b64_digit(b[2] & 63),
        ] + b64url(b.subrange(3, b.len() as int))
    }
}

/// The HMAC-SHA256 digest of `message` under `key`.
pub uninterp spec fn hmac_sha256(message: Seq<u8>, key: Seq<u8>) -> Seq<u8>;

/// Relies on base64's `URL_SAFE_NO_PAD` engine: `encode` writes the URL-safe
/// alphabet without padding.
#[verifier::external_body]
fn encode_b64url(bytes: &[u8]) -> (r: String)
    requires
        bytes@.len() <= usize::MAX / 2,
    ensures
        r@ == b64url(bytes@),
{
    base64::Engine::encode(&base64::engine::general_purpose::URL_SAFE_NO_PAD, bytes)
}

/// Relies on base64's `URL_SAFE_NO_PAD` engine: `decode` inverts `encode`,
/// and accepts only what `encode` writes (no padding, no trailing bits).
#[verifier::external_body]
fn decode_b64url(text: &str) -> (r: Result<Vec<u8>, base64::DecodeError>)
    ensures
        r matches Ok(v) ==> b64url(v@) == text@,
        forall|b: Seq<u8>| #[trigger] b64url(b) == text@ ==> (r is Ok && r->Ok_0@ == b),
{
    base64::Engine::decode(&base64::engine::general_purpose::URL_SAFE_NO_PAD, text)
}

/// Relies on `jsonwebtoken::crypto::sign` with `HS256`: the URL-safe base64
/// of the HMAC-SHA256 digest; the HMAC branch always returns `Ok`.
#[verifier::external_body]
fn sign_hs256(message: &[u8], key: &[u8]) -> (r: Result<String, jsonwebtoken::errors::Error>)
    ensures
        r is Ok,
        r is Ok ==> r->Ok_0@ == b64url(hmac_sha256(message@, key@)),
{
    jsonwebtoken::crypto::sign(
        message,
        &jsonwebtoken::EncodingKey::from_secret(key),
        jsonwebtoken::Algorithm::HS256,
    )
}

/// Relies on `jsonwebtoken::crypto::verify` with `HS256`, which signs the
/// message again with the key and compares the two texts.
#[verifier::external_body]
fn verify_hs256(signature: &str, message: &[u8], key: &[u8]) -> (r: Result<
    bool,
    jsonwebtoken::errors::Error,
>)
    ensures
        r is Ok,
        r is Ok ==> r->Ok_0 == (signature@ == b64url(hmac_sha256(message@, key@))),
{
    jsonwebtoken::crypto::verify(
        signature,
        message,
        &jsonwebtoken::DecodingKey::from_secret(key),
        jsonwebtoken::Algorithm::HS256,
    )
}

/// The header segment of every token issued here: the URL-safe base64 of
/// `{"typ":"JWT","alg":"HS256"}`.
pub open spec fn header_segment() -> Seq<char> {
    "eyJ0eXAiOiJKV1QiLCJhbGciOiJIUzI1NiJ9"@
}

/// The text that the signature covers: header and payload segments.
pub open spec fn signing_input(payload: Seq<u8>) -> Seq<char> {
    header_segment() + "."@ + b64url(payload)
}

/// The signature segment for a signing input under `key`.
pub open spec fn signature_of(input: Seq<char>, key: Seq<u8>) -> Seq<char> {
    b64url(hmac_sha256(encode_utf8(input), key))
}

/// The token that carries `payload`, signed with `key`.
pub open spec fn token_text(payload: Seq<u8>, key: Seq<u8>) -> Seq<char> {
    signing_input(payload) + "."@ + signature_of(signing_input(payload), key)
}

/// Why a token was refused, or could not be issued.
#[derive(PartialEq, Eq, Structural, Clone, Copy, Debug)]
pub enum TokenError {
    /// Not three segments, a foreign header, or a payload that is not base64.
    Malformed,
    /// The signature does not match the header and payload under the key.
    InvalidSignature,
    /// The current time is past the token's expiry.
    Expired,
    /// The requested lifetime is not positive or ends past the time range.
    InvalidLifetime,
    /// The claims' JSON is too large to sign.
    Oversized,
    /// The system clock could not be read.
    NoClock,
}

/// The three dot-separated segments of a token, when it has exactly three.
pub open spec fn split_token(t: Seq<char>) -> Option<(Seq<char>, Seq<char>, Seq<char>)> {
    match index_of(t, "."@) {
        None => None,
        Some(i) => {
            let rest = t.subrange(i + 1, t.len() as int);
            match index_of(rest, "."@) {
                None => None,
                Some(j) => {
                    let sig = rest.subrange(j + 1, rest.len() as int);
                    if index_of(sig, "."@) is Some {
                        None
                    } else {
                        Some((t.subrange(0, i), rest.subrange(0, j), sig))
                    }
                },
            }
        },
    }
}

/// What checking a token against `key` gives: the payload bytes, or why the
/// token is refused.
pub open spec fn opened(t: Seq<char>, key: Seq<u8>) -> Result<Seq<u8>, TokenError> {
    match split_token(t) {
        None => Err(TokenError::Malformed),
        Some((h, p, s)) => {
            if h != header_segment() {
                Err(TokenError::Malformed)
            } else if s != signature_of(h + "."@ + p, key) {
                Err(TokenError::InvalidSignature)
            } else if exists|v: Seq<u8>| b64url(v) == p {
                Ok(choose|v: Seq<u8>| b64url(v) == p)
            } else {
                Err(TokenError::Malformed)
            }
        },
    }
}

/// No character of `s` is a dot.
pub open spec fn dot_free(s: Seq<char>) -> bool {
    forall|i: int| 0 <= i < s.len() ==> s[i] != '.'
}

/// The base64url alphabet has no dot.
pub proof fn lemma_b64url_dot_free(b: Seq<u8>)
    ensures
        dot_free(b64url(b)),
    decreases b.len(),
{
    if b.len() >= 3 {
        lemma_b64url_dot_free(b.subrange(3, b.len() as int));
        let head = seq![
            b64_digit(b[0] >> 2),
            b64_digit(((b[0] & 3) << 4) | (b[1] >> 4)),
            b64_digit(((b[1] & 15) << 2) | (b[2] >> 6)),
            b64_digit(b[2] & 63),
        ];
        assert(b64url(b) == head + b64url(b.subrange(3, b.len() as int)));
    }
}

/// In `a.r` with a dot-free `a`, the first dot follows `a`.
proof fn lemma_first_dot(a: Seq<char>, r: Seq<char>)
    requires
        dot_free(a),
    ensures
        index_of(a + "."@ + r, "."@) == Some(a.len() as int),
{
    reveal_strlit(".");
    let s = a + "."@ + r;
    assert(s.subrange(a.len() as int, a.len() as int + 1) =~= "."@);
    assert(occurs_at(s, "."@, a.len() as int));
    lemma_index_from(s, "."@, 0);
    if let Some(i) = index_of(s, "."@) {
        if i < a.len() {
            assert(s.subrange(i, i + 1)[0] == s[i]);
        }
    }
}

/// A dot-free text has no dot to find.
proof fn lemma_no_dot(s: Seq<char>)
    requires
        dot_free(s),
    ensures
        index_of(s, "."@) is None,
{
    reveal_strlit(".");
    lemma_index_from(s, "."@, 0);
    if let Some(i) = index_of(s, "."@) {
        assert(s.subrange(i, i + 1)[0] == s[i]);
    }
}

/// The segments of an issued token are its header, payload and signature.
pub proof fn lemma_split_token_text(payload: Seq<u8>, key: Seq<u8>)
    ensures
        split_token(token_text(payload, key)) == Some(
            (
                header_segment(),
                b64url(payload),
                signature_of(signing_input(payload), key),
            ),
        ),
{
    reveal_strlit("eyJ0eXAiOiJKV1QiLCJhbGciOiJIUzI1NiJ9");
    reveal_strlit(".");
    let h = header_segment();
    let p = b64url(payload);
    let s = signature_of(signing_input(payload), key);
    lemma_b64url_dot_free(payload);
    lemma_b64url_dot_free(hmac_sha256(encode_utf8(signing_input(payload)), key));
    assert(dot_free(h));
    let t = token_text(payload, key);
    assert(t =~= h + "."@ + (p + "."@ + s));
    lemma_first_dot(h, p + "."@ + s);
    let rest = t.subrange(h.len() as int + 1, t.len() as int);
    assert(rest =~= p + "."@ + s);
    lemma_first_dot(p, s);
    assert(rest.subrange(p.len() as int + 1, rest.len() as int) =~= s);
    lemma_no_dot(s);
    assert(t.subrange(0, h.len() as int) =~= h);
    assert(rest.subrange(0, p.len() as int) =~= p);
}

/// A token signed with one secret and checked with another whose signature
/// differs is refused for its signature.
pub proof fn lemma_foreign_secret(payload: Seq<u8>, signed_with: Seq<u8>, checked_with: Seq<u8>)
    requires
        signature_of(signing_input(payload), signed_with) != signature_of(
            signing_input(payload),
            checked_with,
        ),
    ensures
        opened(token_text(payload, signed_with), checked_with) == Err::<Seq<u8>, TokenError>(
            TokenError::InvalidSignature,
        ),
{
    lemma_split_token_text(payload, signed_with);
}

/// Distinct six-bit values have distinct characters.
proof fn lemma_digit_injective(x: u8, y: u8)
    requires
        x < 64,
        y < 64,
        b64_digit(x) == b64_digit(y),
    ensures
        x == y,
{
    let cx = b64_digit(x) as u32;
    let cy = b64_digit(y) as u32;
    assert(cx == cy);
}

/// The length of an encoding is fixed by the length of its input.
proof fn lemma_b64url_len(b: Seq<u8>)
    ensures
        b64url(b).len() == 4 * (b.len() / 3) + if b.len() % 3 == 0 {
            0int
        } else if b.len() % 3 == 1 {
            2int
        } else {
            3int
        },
    decreases b.len(),
{
    if b.len() >= 3 {
        lemma_b64url_len(b.subrange(3, b.len() as int));
    }
}

/// Three bytes are fixed by their four six-bit groups.
proof fn lemma_group_injective(a0: u8, a1: u8, a2: u8, c0: u8, c1: u8, c2: u8)
    requires
        a0 >> 2 == c0 >> 2,
        ((a0 & 3) << 4) | (a1 >> 4) == ((c0 & 3) << 4) | (c1 >> 4),
        ((a1 & 15) << 2) | (a2 >> 6) == ((c1 & 15) << 2) | (c2 >> 6),
        a2 & 63 == c2 & 63,
    ensures
        a0 == c0 && a1 == c1 && a2 == c2,
{
    assert(a0 == c0 && a1 == c1 && a2 == c2) by (bit_vector)
        requires
            a0 >> 2 == c0 >> 2,
            ((a0 & 3) << 4) | (a1 >> 4) == ((c0 & 3) << 4) | (c1 >> 4),
            ((a1 & 15) << 2) | (a2 >> 6) == ((c1 & 15) << 2) | (c2 >> 6),
            a2 & 63 == c2 & 63,
    ;
}

/// The six-bit groups of a byte triple are below 64.
proof fn lemma_groups_small(a0: u8, a1: u8, a2: u8)
    ensures
        a0 >> 2 < 64,
        ((a0 & 3) << 4) | (a1 >> 4) < 64,
        ((a1 & 15) << 2) | (a2 >> 6) < 64,
        a2 & 63 < 64,
        (a0 & 3) << 4 < 64,
        (a1 & 15) << 2 < 64,
{
    assert(a0 >> 2 < 64 && ((a0 & 3) << 4) | (a1 >> 4) < 64 && ((a1 & 15) << 2) | (a2 >> 6) < 64
        && a2 & 63 < 64 && (a0 & 3) << 4 < 64 && (a1 & 15) << 2 < 64) by (bit_vector);
}

/// Different byte sequences have different encodings.
pub proof fn lemma_b64url_injective(a: Seq<u8>, c: Seq<u8>)
    requires
        b64url(a) == b64url(c),
    ensures
        a == c,
    decreases a.len(),
{
    lemma_b64url_len(a);
    lemma_b64url_len(c);
    assert(a.len() == c.len()) by (nonlinear_arith)
        requires
            4 * (a.len() / 3) + (if a.len() % 3 == 0 {
                0int
            } else if a.len() % 3 == 1 {
                2int
            } else {
                3int
            }) == 4 * (c.len() / 3) + (if c.len() % 3 == 0 {
                0int
            } else if c.len() % 3 == 1 {
                2int
            } else {
                3int
            }),
    ;
    let ea = b64url(a);
    if a.len() == 0 {
        assert(a =~= c);
    } else if a.len() == 1 {
        lemma_groups_small(a[0], 0, 0);
        lemma_groups_small(c[0], 0, 0);
        assert(ea[0] == b64url(c)[0]);
        lemma_digit_injective(a[0] >> 2, c[0] >> 2);
        lemma_digit_injective((a[0] & 3) << 4, (c[0] & 3) << 4);
        let (a0, c0) = (a[0], c[0]);
        assert(a0 == c0) by (bit_vector)
            requires
                a0 >> 2 == c0 >> 2,
                (a0 & 3) << 4 == (c0 & 3) << 4,
        ;
        assert(a =~= c);
    } else if a.len() == 2 {
        lemma_groups_small(a[0], a[1], 0);
        lemma_groups_small(c[0], c[1], 0);
        assert(ea[1] == b64url(c)[1]);
        assert(ea[2] == b64url(c)[2]);
        lemma_digit_injective(a[0] >> 2, c[0] >> 2);
        lemma_digit_injective(((a[0] & 3) << 4) | (a[1] >> 4), ((c[0] & 3) << 4) | (c[1] >> 4));
        lemma_digit_injective((a[1] & 15) << 2, (c[1] & 15) << 2);
        let (a0, a1, c0, c1) = (a[0], a[1], c[0], c[1]);
        assert(a0 == c0 && a1 == c1) by (bit_vector)
            requires
                a0 >> 2 == c0 >> 2,
                ((a0 & 3) << 4) | (a1 >> 4) == ((c0 & 3) << 4) | (c1 >> 4),
                (a1 & 15) << 2 == (c1 & 15) << 2,
        ;
        assert(a =~= c);
    } else {
        let (a0, a1, a2, c0, c1, c2) = (a[0], a[1], a[2], c[0], c[1], c[2]);
        lemma_groups_small(a0, a1, a2);
        lemma_groups_small(c0, c1, c2);
        let ec = b64url(c);
        assert(ea[0] == ec[0] && ea[1] == ec[1] && ea[2] == ec[2] && ea[3] == ec[3]);
        lemma_digit_injective(a0 >> 2, c0 >> 2);
        lemma_digit_injective(((a0 & 3) << 4) | (a1 >> 4), ((c0 & 3) << 4) | (c1 >> 4));
        lemma_digit_injective(((a1 & 15) << 2) | (a2 >> 6), ((c1 & 15) << 2) | (c2 >> 6));
        lemma_digit_injective(a2 & 63, c2 & 63);
        lemma_group_injective(a0, a1, a2, c0, c1, c2);
        let ra = a.subrange(3, a.len() as int);
        let rc = c.subrange(3, c.len() as int);
        assert(b64url(ra) =~= ea.subrange(4, ea.len() as int));
        assert(b64url(rc) =~= ec.subrange(4, ec.len() as int));
        lemma_b64url_injective(ra, rc);
        assert(a =~= seq![a0, a1, a2] + ra);
        assert(c =~= seq![c0, c1, c2] + rc);
    }
}

/// A token issued with a key opens under that key to exactly the payload
/// it was issued with.
pub proof fn lemma_round_trip(payload: Seq<u8>, key: Seq<u8>)
    ensures
        opened(token_text(payload, key), key) == Ok::<Seq<u8>, TokenError>(payload),
{
    lemma_split_token_text(payload, key);
    let p = b64url(payload);
    assert(exists|v: Seq<u8>| b64url(v) == p);
    let v = choose|v: Seq<u8>| b64url(v) == p;
    lemma_b64url_injective(v, payload);
}

/// Signs `payload` with `secret`.
pub fn sign_token(payload: &[u8], secret: &str) -> (r: String)
    requires
        payload@.len() <= usize::MAX / 2,
    ensures
        r@ == token_text(payload@, encode_utf8(secret@)),
{
    let header = "eyJ0eXAiOiJKV1QiLCJhbGciOiJIUzI1NiJ9";
    let body = encode_b64url(payload);
    let input = join3(header, ".", body.as_str());
    let signature = match sign_hs256(input.as_str().as_bytes(), secret.as_bytes()) {
        Ok(s) => s,
        Err(_) => String::new(),
    };
    join3(input.as_str(), ".", signature.as_str())
}

/// Checks `token` against `secret` and hands back its payload bytes.
/// A token issued by `sign_token` with the same secret gives back exactly
/// the payload it was issued with.
pub fn open_token(token: &str, secret: &str) -> (r: Result<Vec<u8>, TokenError>)
    ensures
        r is Ok ==> opened(token@, encode_utf8(secret@)) == Ok::<Seq<u8>, TokenError>(
            r->Ok_0@,
        ),
        r is Err ==> opened(token@, encode_utf8(secret@)) == Err::<Seq<u8>, TokenError>(
            r->Err_0,
        ),
        forall|p: Seq<u8>|
            #[trigger] token_text(p, encode_utf8(secret@)) == token@ ==> (r is Ok && r->Ok_0@
                == p),
{
    proof {
        reveal_strlit(".");
        lemma_index_from(token@, "."@, 0);
        assert forall|p: Seq<u8>| #[trigger]
            token_text(p, encode_utf8(secret@)) == token@ implies split_token(token@) is Some by {
            lemma_split_token_text(p, encode_utf8(secret@));
        }
    }
    let n = token.unicode_len();
    let i = match find(token, ".") {
        Some(i) => i,
        None => return Err(TokenError::Malformed),
    };
    let head = token.substring_char(0, i);
    let rest = token.substring_char(i + 1, n);
    proof {
        lemma_index_from(rest@, "."@, 0);
    }
    let m = rest.unicode_len();
    let j = match find(rest, ".") {
        Some(j) => j,
        None => return Err(TokenError::Malformed),
    };
    let body = rest.substring_char(0, j);
    let sig = rest.substring_char(j + 1, m);
    match find(sig, ".") {
        Some(_) => return Err(TokenError::Malformed),
        None => {},
    }
    assert(split_token(token@) == Some((head@, body@, sig@)));
    proof {
        assert forall|p: Seq<u8>| #[trigger]
            token_text(p, encode_utf8(secret@)) == token@ implies head@ == header_segment()
            && body@ == b64url(p) && sig@ == signature_of(head@ + "."@ + body@, encode_utf8(secret@)) by {
            lemma_split_token_text(p, encode_utf8(secret@));
        }
    }
    if !same_text(head, "eyJ0eXAiOiJKV1QiLCJhbGciOiJIUzI1NiJ9") {
        return Err(TokenError::Malformed);
    }
    let input = join3(head, ".", body);
    match verify_hs256(sig, input.as_str().as_bytes(), secret.as_bytes()) {
        Ok(true) => {},
        _ => return Err(TokenError::InvalidSignature),
    }
    match decode_b64url(body) {
        Ok(v) => Ok(v),
        Err(_) => Err(TokenError::Malformed),
    }
}


/// The claims that a session token carries.
pub struct Claims {
    /// Subject: the user's identifier.
    pub sub: String,
    pub name: String,
    pub email: String,
    pub roles: Vec<String>,
    /// Expiry, in seconds since the epoch.
    pub exp: i64,
    /// Issue time, in seconds since the epoch.
    pub iat: i64,
}

/// Seconds in an hour.
pub const SECONDS_PER_HOUR: i64 = 3600;

/// Whether a lifetime of `hours` from `issued_at` can be issued: it is
/// positive and its end is a representable time.
pub open spec fn lifetime_ok(issued_at: i64, hours: i64) -> bool {
    hours > 0 && issued_at + hours * 3600 <= i64::MAX
}

/// `c` carries `u` issued at `issued_at` for `hours` hours.
pub open spec fn claims_for(c: Claims, u: UserInfo, issued_at: i64, hours: i64) -> bool {
    &&& c.sub@ == u.id@
    &&& c.name@ == u.name@
    &&& c.email@ == u.email@
    &&& c.roles.deep_view() == u.roles.deep_view()
    &&& c.iat == issued_at
    &&& c.exp == issued_at + hours * 3600
}

impl Claims {
    /// The claims for `user`, issued at `issued_at` and expiring `hours`
    /// hours later.
    pub fn issue(user: &UserInfo, issued_at: i64, hours: i64) -> (r: Result<Claims, TokenError>)
        ensures
            r is Ok <==> lifetime_ok(issued_at, hours),
            r is Ok ==> claims_for(r->Ok_0, *user, issued_at, hours),
            r is Err ==> r->Err_0 == TokenError::InvalidLifetime,
    {
        if hours <= 0 {
            return Err(TokenError::InvalidLifetime);
        }
        let exp_wide: i128 = issued_at as i128 + hours as i128 * SECONDS_PER_HOUR as i128;
        if exp_wide > i64::MAX as i128 {
            return Err(TokenError::InvalidLifetime);
        }
        Ok(
            Claims {
                sub: user.id.clone(),
                name: user.name.clone(),
                email: user.email.clone(),
                roles: copy_texts(&user.roles),
                exp: exp_wide as i64,
                iat: issued_at,
            },
        )
    }

    /// The claims for `user`, issued now and expiring `hours` hours later.
    /// Fails with `NoClock` when the clock cannot be read.
    pub fn issue_now(user: &UserInfo, hours: i64) -> (r: Result<Claims, TokenError>)
        ensures
            r is Ok ==> claims_for(r->Ok_0, *user, r->Ok_0.iat, hours) && hours > 0,
            r is Ok ==> 0 <= r->Ok_0.iat <= latest_timestamp(),
            r is Err ==> r->Err_0 == TokenError::InvalidLifetime || r->Err_0
                == TokenError::NoClock,
            hours <= 0 ==> r is Err,
            0 < hours <= 1_000_000_000_000 ==> (r is Ok || r->Err_0 == TokenError::NoClock),
    {
        match current_time() {
            Some(now) => Claims::issue(user, now, hours),
            None => Err(TokenError::NoClock),
        }
    }
}

/// The claims, unless `now` is past their expiry. A token stays valid
/// through the second of its expiry.
pub fn check_expiry(claims: Claims, now: i64) -> (r: Result<Claims, TokenError>)
    ensures
        now > claims.exp ==> r == Err::<Claims, TokenError>(TokenError::Expired),
        now <= claims.exp ==> r == Ok::<Claims, TokenError>(claims),
{
    if now > claims.exp {
        Err(TokenError::Expired)
    } else {
        Ok(claims)
    }
}

/// A lower-case hexadecimal digit.
pub open spec fn hex_lower(v: u32) -> char {
    if v < 10 {
        ((48 + v) as u8) as char
    } else {
        ((87 + v) as u8) as char
    }
}

/// How serde_json writes one character inside a string literal: quote and
/// backslash escaped, `\b \f \n \r \t` for those controls, other
/// characters below U+0020 as `\u00xx` in lower-case hex, all else as is.
pub open spec fn json_escape(c: char) -> Seq<char> {
    if c == '"' {
        seq!['\\', '"']
    } else if c == '\\' {
        seq!['\\', '\\']
    } else if c == '\u{08}' {
        seq!['\\', 'b']
    } else if c == '\u{0C}' {
        seq!['\\', 'f']
    } else if c == '\n' {
        seq!['\\', 'n']
    } else if c == '\r' {
        seq!['\\', 'r']
    } else if c == '\t' {
        seq!['\\', 't']
    } else if (c as u32) < 0x20 {
        seq!['\\', 'u', '0', '0', hex_lower((c as u32) / 16), hex_lower((c as u32) % 16)]
    } else {
        seq![c]
    }
}

/// The characters of a text, each escaped for a JSON string literal.
pub open spec fn json_escaped(s: Seq<char>) -> Seq<char>
    decreases s.len(),
{
    if s.len() == 0 {
        Seq::empty()
    } else {
        json_escaped(s.drop_last()) + json_escape(s.last())
    }
}

/// The JSON string literal of a text, as serde_json writes it.
pub open spec fn json_quoted(s: Seq<char>) -> Seq<char> {
    seq!['"'] + json_escaped(s) + seq!['"']
}

/// Escaping at most multiplies the length by six.
pub proof fn lemma_json_quoted_len(s: Seq<char>)
    ensures
        json_quoted(s).len() <= 6 * s.len() + 2,
    decreases s.len(),
{
    lemma_json_escaped_len(s);
}

proof fn lemma_json_escaped_len(s: Seq<char>)
    ensures
        json_escaped(s).len() <= 6 * s.len(),
    decreases s.len(),
{
    if s.len() > 0 {
        lemma_json_escaped_len(s.drop_last());
    }
}

/// Relies on `serde_json::to_string` on a `str`: the JSON string literal of
/// the text, escaped by the `ESCAPE` table of serde_json's `format_escaped_str`.
/// Serializing a `str` into the `Vec` that `to_string` writes to cannot fail.
#[verifier::external_body]
fn quote_json(s: &str) -> (r: Result<String, serde_json::Error>)
    ensures
        r is Ok,
        r is Ok ==> r->Ok_0@ == json_quoted(s@),
{
    serde_json::to_string(s)
}

/// JSON string literals of the texts, joined by commas.
pub open spec fn json_items(items: Seq<Seq<char>>) -> Seq<char>
    decreases items.len(),
{
    if items.len() == 0 {
        Seq::empty()
    } else if items.len() == 1 {
        json_quoted(items[0])
    } else {
        json_items(items.drop_last()) + ","@ + json_quoted(items.last())
    }
}

/// The compact JSON object of the claims, fields in declaration order.
pub open spec fn claims_json(c: Claims) -> Seq<char> {
    "{\"sub\":"@ + json_quoted(c.sub@) + ",\"name\":"@ + json_quoted(c.name@) + ",\"email\":"@
        + json_quoted(c.email@) + ",\"roles\":["@ + json_items(c.roles.deep_view())
        + "],\"exp\":"@ + signed_decimal(c.exp as int) + ",\"iat\":"@ + signed_decimal(
        c.iat as int,
    ) + "}"@
}

/// The bytes a token carries for `c`.
pub open spec fn claims_payload(c: Claims) -> Seq<u8> {
    encode_utf8(claims_json(c))
}

fn quoted(s: &str) -> (r: String)
    ensures
        r@ == json_quoted(s@),
{
    match quote_json(s) {
        Ok(q) => q,
        Err(_) => String::new(),
    }
}

/// The compact JSON object of `c`.
pub fn encode_claims(c: &Claims) -> (r: String)
    ensures
        r@ == claims_json(*c),
{
    let mut r = String::from_str("{\"sub\":");
    r.append(quoted(c.sub.as_str()).as_str());
    r.append(",\"name\":");
    r.append(quoted(c.name.as_str()).as_str());
    r.append(",\"email\":");
    r.append(quoted(c.email.as_str()).as_str());
    r.append(",\"roles\":[");
    let ghost head = r@;
    let mut i: usize = 0;
    while i < c.roles.len()
        invariant
            i <= c.roles.len(),
            r@ == head + json_items(c.roles.deep_view().subrange(0, i as int)),
        decreases c.roles.len() - i,
    {
        let ghost done = c.roles.deep_view().subrange(0, i as int);
        if i > 0 {
            r.append(",");
        }
        r.append(quoted(c.roles[i].as_str()).as_str());
        proof {
            let next = c.roles.deep_view().subrange(0, i as int + 1);
            assert(next.drop_last() =~= done);
            if i == 0 {
                assert(done =~= Seq::<Seq<char>>::empty());
                assert(r@ =~= head + json_items(next));
            } else {
                assert(r@ =~= head + json_items(next));
            }
        }
        i = i + 1;
    }
    assert(c.roles.deep_view().subrange(0, c.roles.len() as int) =~= c.roles.deep_view());
    r.append("],\"exp\":");
    r.append(signed_decimal_text(c.exp).as_str());
    r.append(",\"iat\":");
    r.append(signed_decimal_text(c.iat).as_str());
    r.append("}");
    proof {
        assert(r@ =~= claims_json(*c));
    }
    r
}

/// Limit on the length of each text of claims that are sure to be signed.
pub open spec fn text_limit() -> nat {
    1000
}

/// Claims whose texts, and number of roles, are within `text_limit`: their
/// JSON is always small enough to sign.
pub open spec fn small_claims(c: Claims) -> bool {
    &&& c.sub@.len() <= text_limit()
    &&& c.name@.len() <= text_limit()
    &&& c.email@.len() <= text_limit()
    &&& c.roles.len() <= text_limit()
    &&& forall|i: int| 0 <= i < c.roles.len() ==> #[trigger] c.roles.deep_view()[i].len() <= text_limit()
}

/// The UTF-8 encoding takes at most four bytes per character.
pub proof fn lemma_utf8_len(s: Seq<char>)
    ensures
        encode_utf8(s).len() <= 4 * s.len(),
    decreases s.len(),
{
    if s.len() > 0 {
        lemma_utf8_len(s.drop_first());
    }
}

proof fn lemma_json_items_len(items: Seq<Seq<char>>)
    requires
        forall|i: int| 0 <= i < items.len() ==> #[trigger] items[i].len() <= text_limit(),
    ensures
        json_items(items).len() <= items.len() * 6003,
    decreases items.len(),
{
    if items.len() > 0 {
        let init = items.drop_last();
        assert forall|i: int| 0 <= i < init.len() implies #[trigger] init[i].len() <= text_limit() by {
            assert(init[i] == items[i]);
        }
        lemma_json_items_len(init);
        lemma_json_quoted_len(items.last());
        reveal_strlit(",");
        assert(items.last().len() <= text_limit());
        assert(items.len() * 6003 == init.len() * 6003 + 6003) by (nonlinear_arith)
            requires
                init.len() + 1 == items.len(),
        ;
    }
}

/// The JSON of small claims fits, with room to spare, in what can be signed.
pub proof fn lemma_small_claims_fit(c: Claims)
    requires
        small_claims(c),
    ensures
        claims_payload(c).len() <= 40_000_000,
{
    reveal_strlit("{\"sub\":");
    reveal_strlit(",\"name\":");
    reveal_strlit(",\"email\":");
    reveal_strlit(",\"roles\":[");
    reveal_strlit("],\"exp\":");
    reveal_strlit(",\"iat\":");
    reveal_strlit("}");
    lemma_json_quoted_len(c.sub@);
    lemma_json_quoted_len(c.name@);
    lemma_json_quoted_len(c.email@);
    lemma_json_items_len(c.roles.deep_view());
    lemma_signed_decimal_len(c.exp);
    lemma_signed_decimal_len(c.iat);
    assert(claims_json(c).len() <= 10_000_000);
    lemma_utf8_len(claims_json(c));
}

/// A token for `claims`, signed with `secret`.
pub fn issue_token(claims: &Claims, secret: &str) -> (r: Result<String, TokenError>)
    ensures
        r is Ok <==> claims_payload(*claims).len() <= usize::MAX / 2,
        small_claims(*claims) ==> r is Ok,
        r is Ok ==> r->Ok_0@ == token_text(claims_payload(*claims), encode_utf8(secret@)),
        r is Err ==> r->Err_0 == TokenError::Oversized,
{
    proof {
        if small_claims(*claims) {
            lemma_small_claims_fit(*claims);
        }
    }
    let json = encode_claims(claims);
    let payload = json.as_str().as_bytes();
    if payload.len() > usize::MAX / 2 {
        return Err(TokenError::Oversized);
    }
    Ok(sign_token(payload, secret))
}

/// Whether two byte strings are equal.
fn same_bytes(a: &[u8], b: &[u8]) -> (r: bool)
    ensures
        r == (a@ == b@),
{
    if a.len() != b.len() {
        return false;
    }
    let mut i: usize = 0;
    while i < a.len()
        invariant
            a@.len() == b@.len(),
            i <= a.len(),
            forall|k: int| 0 <= k < i ==> a@[k] == b@[k],
        decreases a.len() - i,
    {
        if a[i] != b[i] {
            return false;
        }
        i = i + 1;
    }
    assert(a@ =~= b@);
    true
}

/// What accepting `claims` decoded from `payload` at time `now` gives:
/// claims that are not exactly the payload are malformed, and claims past
/// their expiry are expired.
pub open spec fn accepted(payload: Seq<u8>, claims: Claims, now: i64) -> Result<Claims, TokenError> {
    if payload != claims_payload(claims) {
        Err(TokenError::Malformed)
    } else if now > claims.exp {
        Err(TokenError::Expired)
    } else {
        Ok(claims)
    }
}

/// The claims decoded from a token's payload, once they are known to be
/// exactly what was signed and the token is still valid at `now`.
pub fn accept_claims(payload: &[u8], claims: Claims, now: i64) -> (r: Result<Claims, TokenError>)
    ensures
        r == accepted(payload@, claims, now),
{
    let json = encode_claims(&claims);
    if !same_bytes(json.as_str().as_bytes(), payload) {
        return Err(TokenError::Malformed);
    }
    check_expiry(claims, now)
}

/// The claims decoded from a token's payload, checked against the payload
/// and the current time. Fails with `NoClock` when the clock cannot be read.
pub fn accept_claims_now(payload: &[u8], claims: Claims) -> (r: Result<Claims, TokenError>)
    ensures
        payload@ != claims_payload(claims) ==> r is Err,
        r == Err::<Claims, TokenError>(TokenError::Malformed) ==> payload@ != claims_payload(
            claims,
        ),
        payload@ == claims_payload(claims) ==> (r == Ok::<Claims, TokenError>(claims) || r
            == Err::<Claims, TokenError>(TokenError::Expired) || r == Err::<Claims, TokenError>(
            TokenError::NoClock,
        )),
        payload@ == claims_payload(claims) && claims.exp >= latest_timestamp() ==> (r == Ok::<
            Claims,
            TokenError,
        >(claims) || r == Err::<Claims, TokenError>(TokenError::NoClock)),
        r == Err::<Claims, TokenError>(TokenError::NoClock) || exists|now: i64|
            0 <= now <= latest_timestamp() && r == accepted(payload@, claims, now),
{
    match current_time() {
        Some(now) => accept_claims(payload, claims, now),
        None => Err(TokenError::NoClock),
    }
}

/// Claims issued with a key come back from their token under that key as
/// the very payload they were issued with, and that payload accepts them
/// unchanged at any time up to their expiry.
pub proof fn lemma_issued_claims_verify(c: Claims, key: Seq<u8>, now: i64)
    requires
        now <= c.exp,
    ensures
        opened(token_text(claims_payload(c), key), key) == Ok::<Seq<u8>, TokenError>(
            claims_payload(c),
        ),
        accepted(claims_payload(c), c, now) == Ok::<Claims, TokenError>(c),
{
    lemma_round_trip(claims_payload(c), key);
}

/// A token whose signature checks out is still refused as expired at any
/// time after its claims' expiry.
pub proof fn lemma_expired_despite_signature(c: Claims, key: Seq<u8>, now: i64)
    requires
        now > c.exp,
    ensures
        opened(token_text(claims_payload(c), key), key) == Ok::<Seq<u8>, TokenError>(
            claims_payload(c),
        ),
        accepted(claims_payload(c), c, now) == Err::<Claims, TokenError>(TokenError::Expired),
{
    lemma_round_trip(claims_payload(c), key);
}

} // verus!
