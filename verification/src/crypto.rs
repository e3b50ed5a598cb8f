//! The primitives that the service takes from other crates: password
//! stretching, message authentication, fresh randomness and ASCII case
//! folding. Each function here is believed, not proved.

use hmac::Mac;
use vstd::prelude::*;

verus! {

/// Length in bytes of the salt that is drawn for a new user.
pub const SALT_LEN: usize = 16;

/// PBKDF2 with HMAC-SHA-256 as its pseudo-random function, truncated to
/// thirty-two bytes of output.
pub uninterp spec fn pbkdf2_sha256(password: Seq<u8>, salt: Seq<u8>, rounds: u32) -> Seq<u8>;

/// HMAC-SHA-256 of `message` under `key`.
pub uninterp spec fn hmac_sha256(key: Seq<u8>, message: Seq<u8>) -> Seq<u8>;

/// The lower-case form of an ASCII capital letter; any other character
/// stays as it is.
pub open spec fn lower_char(c: char) -> char {
    if 'A' <= c && c <= 'Z' {
        ((c as u8) + 32) as char
    } else {
        c
    }
}

/// A string with each ASCII capital letter replaced by its lower-case form.
pub open spec fn lower_text(s: Seq<char>) -> Seq<char> {
    s.map_values(|c: char| lower_char(c))
}

/// Calls `pbkdf2::pbkdf2_hmac_array` with SHA-256 and a thirty-two byte
/// result. The function is deterministic in the password, the salt and the
/// round count, and accepts any of them; the contract gives its result the
/// name `pbkdf2_sha256`.
#[verifier::external_body]
pub(crate) fn derive_key(password: &[u8], salt: &[u8], rounds: u32) -> (key: [u8; 32])
    ensures
        key@ == pbkdf2_sha256(password@, salt@, rounds),
{
    pbkdf2::pbkdf2_hmac_array::<sha2::Sha256, 32>(password, salt, rounds)
}

/// Runs `hmac::Hmac<sha2::Sha256>` over one message: `new_from_slice`, which
/// accepts a key of any length, then `update` and `finalize`. The contract
/// gives the resulting tag the name `hmac_sha256`.
#[verifier::external_body]
pub(crate) fn compute_tag(key: &[u8], message: &[u8]) -> (tag: [u8; 32])
    ensures
        tag@ == hmac_sha256(key@, message@),
{
    let mut mac = hmac::Hmac::<sha2::Sha256>::new_from_slice(key).expect(
        "HMAC takes a key of any length",
    );
    mac.update(message);
    mac.finalize().into_bytes().into()
}

/// Calls `getrandom::getrandom` on a buffer of `SALT_LEN` bytes. Nothing is
/// claimed of the bytes drawn; `None` stands for a failure of the system's
/// random source.
#[verifier::external_body]
pub(crate) fn random_salt() -> (salt: Option<[u8; 16]>) {
    let mut buf = [0u8; 16];
    match getrandom::getrandom(&mut buf) {
        Ok(()) => Some(buf),
        Err(_) => None,
    }
}

/// Calls `str::to_ascii_lowercase`, which maps the letters `A` to `Z` to
/// `a` to `z` and leaves every other character unchanged.
#[verifier::external_body]
pub(crate) fn ascii_lowercase(s: &str) -> (lowered: String)
    ensures
        lowered@ == lower_text(s@),
{
    s.to_ascii_lowercase()
}

} // verus!
