//! Signed, time-bound bearer tokens.
//!
//! A token is the lowercase hex text of 64 bytes: a 32-byte payload holding the
//! subject id (16 bytes), the issue time and the expiry (8 bytes each, all
//! little-endian), followed by the HMAC-SHA256 tag of that payload under the
//! codec's secret.
use vstd::prelude::*;
use hmac::Mac;
use crate::encoding::{
    from_hex_chars, hex_text, is_hex_text, le_bytes, le_value, lemma_hex_round_trip,
    lemma_le_round_trip, lemma_pow256_values, push_le, read_le, to_hex_chars, unhex,
};

verus! {

/// The claims a token carries: subject user id, issue time and expiry, in seconds.
#[derive(Clone, Copy, Debug, PartialEq, Eq, Structural)]
pub struct Claims {
    pub sub: u128,
    pub iat: u64,
    pub exp: u64,
}

/// Why a token was not accepted.
#[derive(Clone, Copy, Debug, PartialEq, Eq, Structural)]
pub enum TokenError {
    /// Not 128 lowercase hex digits.
    Malformed,
    /// The tag does not match the payload under the secret.
    BadSignature,
    /// The current time is at or past the expiry.
    Expired,
}

/// HMAC-SHA256 of a message under a key.
pub uninterp spec fn hmac_sha256_of(key: Seq<u8>, msg: Seq<u8>) -> Seq<u8>;

/// Relies on hmac's `Hmac<Sha256>`: `new_from_slice` takes a key of any length,
/// and `finalize` gives the 32-byte tag of the message.
#[verifier::external_body]
fn hmac_sha256(key: &Vec<u8>, msg: &Vec<u8>) -> (r: Vec<u8>)
    ensures
        r@ == hmac_sha256_of(key@, msg@),
        r@.len() == 32,
{
    let mut mac = <hmac::Hmac<sha2::Sha256> as Mac>::new_from_slice(key).expect("HMAC takes a key of any length");
    mac.update(msg);
    mac.finalize().into_bytes().to_vec()
}

/// Relies on `str::chars` collected into a `Vec`: the characters of `s` in order.
#[verifier::external_body]
fn chars_of(s: &str) -> (r: Vec<char>)
    ensures
        r@ == s@,
{
    s.chars().collect()
}

/// Relies on collecting characters into a `String`: the string of those characters.
#[verifier::external_body]
pub(crate) fn string_of_chars(v: Vec<char>) -> (r: String)
    ensures
        r@ == v@,
{
    v.into_iter().collect()
}

/// The 32 payload bytes of a set of claims.
pub open spec fn claims_payload(c: Claims) -> Seq<u8> {
    le_bytes(c.sub as nat, 16) + le_bytes(c.iat as nat, 8) + le_bytes(c.exp as nat, 8)
}

/// The claims that a 32-byte payload holds.
pub open spec fn payload_claims(p: Seq<u8>) -> Claims {
    Claims {
        sub: le_value(p.subrange(0, 16)) as u128,
        iat: le_value(p.subrange(16, 24)) as u64,
        exp: le_value(p.subrange(24, 32)) as u64,
    }
}

/// Payload followed by its tag.
pub open spec fn signed_bytes(key: Seq<u8>, c: Claims) -> Seq<u8> {
    claims_payload(c) + hmac_sha256_of(key, claims_payload(c))
}

/// The text of the token for `c` under `key`.
pub open spec fn token_text(key: Seq<u8>, c: Claims) -> Seq<char> {
    hex_text(signed_bytes(key, c))
}

/// The outcome of checking token text `s` under `key` at time `now`.
pub open spec fn verify_outcome(key: Seq<u8>, s: Seq<char>, now: u64) -> Result<Claims, TokenError> {
    if !(s.len() == 128 && is_hex_text(s)) {
        Err(TokenError::Malformed)
    } else {
        let b = unhex(s);
        let p = b.subrange(0, 32);
        if hmac_sha256_of(key, p) != b.subrange(32, 64) {
            Err(TokenError::BadSignature)
        } else if now >= payload_claims(p).exp {
            Err(TokenError::Expired)
        } else {
            Ok(payload_claims(p))
        }
    }
}

/// Issues and checks tokens with a fixed secret and time-to-live.
pub struct TokenCodec {
    secret: Vec<u8>,
    ttl: u64,
}

impl TokenCodec {
    pub closed spec fn key(&self) -> Seq<u8> {
        self.secret@
    }

    pub closed spec fn lifetime(&self) -> u64 {
        self.ttl
    }

    /// A codec for `secret` and a lifetime of `ttl` seconds; `None` when the
    /// secret is empty or the lifetime is zero.
    pub fn new(secret: Vec<u8>, ttl: u64) -> (r: Option<TokenCodec>)
        ensures
            r is Some <==> secret@.len() > 0 && ttl > 0,
            r matches Some(c) ==> c.key() == secret@ && c.lifetime() == ttl,
    {
        if secret.len() == 0 || ttl == 0 {
            None
        } else {
            Some(TokenCodec { secret, ttl })
        }
    }

    /// The lifetime of issued tokens, in seconds.
    pub fn ttl(&self) -> (r: u64)
        ensures
            r == self.lifetime(),
    {
        self.ttl
    }

    /// A token for `sub` issued at `now`, expiring `ttl` seconds later.
    pub fn issue(&self, sub: u128, now: u64) -> (r: String)
        requires
            now + self.lifetime() <= u64::MAX,
        ensures
            r@ == token_text(self.key(), Claims { sub, iat: now, exp: (now + self.lifetime()) as u64 }),
            r@.len() == 128,
    {
        let exp: u64 = now + self.ttl;
        let mut payload: Vec<u8> = Vec::new();
        push_le(&mut payload, sub, 16);
        push_le(&mut payload, now as u128, 8);
        push_le(&mut payload, exp as u128, 8);
        let ghost c = Claims { sub, iat: now, exp };
        assert(payload@ =~= claims_payload(c));
        let mut tag = hmac_sha256(&self.secret, &payload);
        let mut all = payload;
        all.append(&mut tag);
        proof {
            lemma_claims_payload_len(c);
        }
        let chars = to_hex_chars(&all);
        proof {
            lemma_hex_round_trip(all@);
        }
        string_of_chars(chars)
    }

    /// The claims of `token` when it is well formed, its tag matches and it has
    /// not expired at `now`.
    pub fn verify(&self, token: &str, now: u64) -> (r: Result<Claims, TokenError>)
        ensures
            r == verify_outcome(self.key(), token@, now),
    {
        let chars = chars_of(token);
        if chars.len() != 128 {
            return Err(TokenError::Malformed);
        }
        let bytes = match from_hex_chars(&chars) {
            Some(b) => b,
            None => {
                return Err(TokenError::Malformed);
            },
        };
        let ghost b = bytes@;
        let mut payload = bytes;
        let tag = payload.split_off(32);
        assert(payload@ =~= b.subrange(0, 32));
        assert(tag@ =~= b.subrange(32, 64));
        let expected = hmac_sha256(&self.secret, &payload);
        if !same_bytes(&expected, &tag) {
            return Err(TokenError::BadSignature);
        }
        let sub = read_le(&payload, 0, 16);
        let iat = read_le(&payload, 16, 8);
        let exp = read_le(&payload, 24, 8);
        proof {
            lemma_pow256_values();
        }
        let claims = Claims { sub, iat: iat as u64, exp: exp as u64 };
        if now >= claims.exp {
            Err(TokenError::Expired)
        } else {
            Ok(claims)
        }
    }
}

/// Issued text decodes to the payload and its tag, and the payload to the claims.
proof fn lemma_decode_issued(key: Seq<u8>, c: Claims)
    requires
        token_text(key, c).len() == 128,
    ensures
        is_hex_text(token_text(key, c)),
        unhex(token_text(key, c)) == signed_bytes(key, c),
        signed_bytes(key, c).subrange(0, 32) == claims_payload(c),
        signed_bytes(key, c).subrange(32, 64) == hmac_sha256_of(key, claims_payload(c)),
        payload_claims(claims_payload(c)) == c,
{
    let p = claims_payload(c);
    let b = signed_bytes(key, c);
    lemma_claims_payload_len(c);
    lemma_hex_round_trip(b);
    assert(b.subrange(0, 32) =~= p);
    assert(b.subrange(32, 64) =~= hmac_sha256_of(key, p));
    lemma_pow256_values();
    lemma_le_round_trip(c.sub as nat, 16);
    lemma_le_round_trip(c.iat as nat, 8);
    lemma_le_round_trip(c.exp as nat, 8);
    assert(p.subrange(0, 16) =~= le_bytes(c.sub as nat, 16));
    assert(p.subrange(16, 24) =~= le_bytes(c.iat as nat, 8));
    assert(p.subrange(24, 32) =~= le_bytes(c.exp as nat, 8));
}

/// A token issued at `t` with lifetime `ttl` is accepted, with its claims, one
/// second before `t + ttl`, and refused as expired one second after it.
pub proof fn lemma_token_lifetime(key: Seq<u8>, token: Seq<char>, sub: u128, t: u64, ttl: u64)
    requires
        ttl >= 1,
        t + ttl + 1 <= u64::MAX,
        token == token_text(key, Claims { sub, iat: t, exp: (t + ttl) as u64 }),
        token.len() == 128,
    ensures
        verify_outcome(key, token, (t + ttl - 1) as u64) == Ok::<Claims, TokenError>(
            Claims { sub, iat: t, exp: (t + ttl) as u64 },
        ),
        verify_outcome(key, token, (t + ttl + 1) as u64) == Err::<Claims, TokenError>(
            TokenError::Expired,
        ),
{
    lemma_decode_issued(key, Claims { sub, iat: t, exp: (t + ttl) as u64 });
}

/// Changing any payload byte of an issued token makes it fail the signature
/// check at every time, unless the changed payload has the same tag.
pub proof fn lemma_tampered_payload_rejected(
    key: Seq<u8>,
    c: Claims,
    i: int,
    x: u8,
    now: u64,
)
    requires
        token_text(key, c).len() == 128,
        0 <= i < 32,
        x != claims_payload(c)[i],
        hmac_sha256_of(key, claims_payload(c).update(i, x)) != hmac_sha256_of(
            key,
            claims_payload(c),
        ),
    ensures
        verify_outcome(key, hex_text(signed_bytes(key, c).update(i, x)), now) == Err::<
            Claims,
            TokenError,
        >(TokenError::BadSignature),
{
    lemma_decode_issued(key, c);
    let b = signed_bytes(key, c).update(i, x);
    lemma_hex_round_trip(b);
    assert(b.subrange(0, 32) =~= claims_payload(c).update(i, x));
    assert(b.subrange(32, 64) =~= signed_bytes(key, c).subrange(32, 64));
}

proof fn lemma_claims_payload_len(c: Claims)
    ensures
        claims_payload(c).len() == 32,
{
    crate::encoding::lemma_le_bytes_len(c.sub as nat, 16);
    crate::encoding::lemma_le_bytes_len(c.iat as nat, 8);
    crate::encoding::lemma_le_bytes_len(c.exp as nat, 8);
}

/// Compares two equally long byte strings, looking at every byte whatever the
/// earlier ones held.
pub fn same_bytes(a: &Vec<u8>, b: &Vec<u8>) -> (r: bool)
    requires
        a@.len() == b@.len(),
    ensures
        r == (a@ == b@),
{
    let mut acc: u8 = 0;
    let mut i: usize = 0;
    while i < a.len()
        invariant
            a@.len() == b@.len(),
            i <= a@.len(),
            (acc == 0) <==> (forall|k: int| 0 <= k < i ==> a@[k] == b@[k]),
        decreases a@.len() - i,
    {
        let x = a[i];
        let y = b[i];
        assert((acc | (x ^ y)) == 0u8 <==> (acc == 0u8 && x == y)) by (bit_vector);
        acc = acc | (x ^ y);
        i = i + 1;
    }
    if acc == 0 {
        assert(a@ =~= b@);
    }
    acc == 0
}

} // verus!
