//! Identity tokens: who the bearer is and until when, under a tag that
//! only the holder of the signing secret can compute.
//!
//! A token is forty-eight bytes: the user id and the expiry time, eight
//! bytes each and least significant byte first, then the thirty-two byte
//! HMAC-SHA-256 tag of those sixteen bytes.

use crate::crypto::{compute_tag, hmac_sha256};
use crate::error::TokenError;
use crate::secure::constant_time_eq;
use vstd::bytes::{
    lemma_auto_spec_u64_to_from_le_bytes, spec_u64_from_le_bytes, spec_u64_to_le_bytes,
    u64_from_le_bytes, u64_to_le_bytes,
};
use vstd::prelude::*;
use vstd::slice::slice_subrange;

verus! {

/// Length in bytes of the claims at the front of a token.
pub const CLAIMS_LEN: usize = 16;

/// Length in bytes of the tag at the end of a token.
pub const TAG_LEN: usize = 32;

/// Length in bytes of a token.
pub const TOKEN_LEN: usize = 48;

/// What a token says: the user it was minted for, and the time from which
/// it is no longer accepted.
#[derive(Debug, Clone, Copy, PartialEq, Eq, Structural)]
pub struct Claims {
    pub user_id: u64,
    pub expires_at: u64,
}

/// The sixteen bytes that carry the claims.
pub open spec fn claims_bytes(claims: Claims) -> Seq<u8> {
    spec_u64_to_le_bytes(claims.user_id) + spec_u64_to_le_bytes(claims.expires_at)
}

/// The claims that sixteen bytes carry.
pub open spec fn claims_of(bytes: Seq<u8>) -> Claims {
    Claims {
        user_id: spec_u64_from_le_bytes(bytes.subrange(0, 8)),
        expires_at: spec_u64_from_le_bytes(bytes.subrange(8, 16)),
    }
}

/// The tag of `message` under `secret`, as the thirty-two bytes that a
/// token has room for. HMAC-SHA-256 gives that many; an output of another
/// length would stand as zeros.
pub open spec fn tag_of(secret: Seq<u8>, message: Seq<u8>) -> Seq<u8> {
    let tag = hmac_sha256(secret, message);
    if tag.len() == TAG_LEN {
        tag
    } else {
        Seq::new(TAG_LEN as nat, |i: int| 0u8)
    }
}

/// The token that carries `claims` under `secret`.
pub open spec fn token_bytes(secret: Seq<u8>, claims: Claims) -> Seq<u8> {
    claims_bytes(claims) + tag_of(secret, claims_bytes(claims))
}

/// What validation makes of `token` at the time `now`: bytes of the wrong
/// length are malformed; a tag that is not that of the claims is a bad
/// signature; claims whose time is up are expired; anything else names its
/// user.
pub open spec fn validation(secret: Seq<u8>, token: Seq<u8>, now: u64) -> Result<u64, TokenError> {
    if token.len() != TOKEN_LEN {
        Err(TokenError::Malformed)
    } else if token.subrange(CLAIMS_LEN as int, TOKEN_LEN as int) != tag_of(
        secret,
        token.subrange(0, CLAIMS_LEN as int),
    ) {
        Err(TokenError::BadSignature)
    } else if now >= claims_of(token.subrange(0, CLAIMS_LEN as int)).expires_at {
        Err(TokenError::Expired)
    } else {
        Ok(claims_of(token.subrange(0, CLAIMS_LEN as int)).user_id)
    }
}

/// Claims survive being written as bytes and read back.
pub proof fn lemma_claims_round_trip(claims: Claims)
    ensures
        claims_bytes(claims).len() == CLAIMS_LEN,
        claims_of(claims_bytes(claims)) == claims,
{
    lemma_auto_spec_u64_to_from_le_bytes();
    let bytes = claims_bytes(claims);
    assert(bytes.subrange(0, 8) == spec_u64_to_le_bytes(claims.user_id));
    assert(bytes.subrange(8, 16) == spec_u64_to_le_bytes(claims.expires_at));
}

/// A token minted under a secret is accepted under the same secret, for
/// the user it names, at any time before its expiry.
pub proof fn lemma_minted_token_is_valid(secret: Seq<u8>, claims: Claims, now: u64)
    ensures
        token_bytes(secret, claims).len() == TOKEN_LEN,
        now < claims.expires_at ==> validation(secret, token_bytes(secret, claims), now) == Ok::<
            u64,
            TokenError,
        >(claims.user_id),
        now >= claims.expires_at ==> validation(secret, token_bytes(secret, claims), now) == Err::<
            u64,
            TokenError,
        >(TokenError::Expired),
{
    lemma_claims_round_trip(claims);
    let token = token_bytes(secret, claims);
    assert(token.subrange(0, CLAIMS_LEN as int) == claims_bytes(claims));
    assert(token.subrange(CLAIMS_LEN as int, TOKEN_LEN as int) == tag_of(
        secret,
        claims_bytes(claims),
    ));
}

/// Writes the token that carries `claims` under `secret`.
pub fn mint(secret: &[u8], claims: Claims) -> (token: Vec<u8>)
    ensures
        token@ == token_bytes(secret@, claims),
        token@.len() == TOKEN_LEN,
{
    let mut token = u64_to_le_bytes(claims.user_id);
    let mut expiry = u64_to_le_bytes(claims.expires_at);
    token.append(&mut expiry);
    let tag = compute_tag(secret, token.as_slice());
    let ghost front = token@;
    let mut i: usize = 0;
    while i < 32
        invariant
            i <= 32,
            tag@.len() == 32,
            token@ == front + tag@.take(i as int),
        decreases 32 - i,
    {
        token.push(tag[i]);
        assert(tag@.take(i + 1) == tag@.take(i as int).push(tag@[i as int]));
        i = i + 1;
    }
    proof {
        lemma_claims_round_trip(claims);
        assert(tag@.take(32) == tag@);
    }
    token
}

/// Checks `token` against `secret` at the time `now` and names its user.
/// The tag is compared without an early exit, and before the claims are
/// looked at.
pub fn validate(secret: &[u8], token: &[u8], now: u64) -> (outcome: Result<u64, TokenError>)
    ensures
        outcome == validation(secret@, token@, now),
{
    if token.len() != TOKEN_LEN {
        return Err(TokenError::Malformed);
    }
    let claims = slice_subrange(token, 0, CLAIMS_LEN);
    let tag = slice_subrange(token, CLAIMS_LEN, TOKEN_LEN);
    let expected = compute_tag(secret, claims);
    if !constant_time_eq(tag, expected.as_slice()) {
        return Err(TokenError::BadSignature);
    }
    let user_id = u64_from_le_bytes(slice_subrange(claims, 0, 8));
    let expires_at = u64_from_le_bytes(slice_subrange(claims, 8, 16));
    if now >= expires_at {
        return Err(TokenError::Expired);
    }
    Ok(user_id)
}

} // verus!
