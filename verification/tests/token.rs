use inventory_backend::bearer::encode_hex;
use inventory_backend::error::TokenError;
use inventory_backend::secure::constant_time_eq;
use inventory_backend::token::{mint, validate, Claims, CLAIMS_LEN, TAG_LEN, TOKEN_LEN};

fn text_of(bytes: &[u8]) -> String {
    String::from_utf8(encode_hex(bytes)).unwrap()
}

#[test]
fn token_layout_is_claims_then_tag() {
    assert_eq!(CLAIMS_LEN, 16);
    assert_eq!(TAG_LEN, 32);
    assert_eq!(TOKEN_LEN, 48);
    let token = mint(b"signing-secret", Claims { user_id: 7, expires_at: 1000 });
    assert_eq!(token.len(), 48);
    assert_eq!(text_of(&token[..16]), "0700000000000000e803000000000000");
}

#[test]
fn tag_is_hmac_sha256_of_the_claims() {
    let token = mint(b"signing-secret", Claims { user_id: 7, expires_at: 1000 });
    assert_eq!(
        text_of(&token[16..]),
        "79ec6cf49005a54ffca5719ea3a1a14a53b010074f92f831f35b2de9cd62a285"
    );
}

#[test]
fn minted_token_validates_until_expiry() {
    let token = mint(b"s", Claims { user_id: 42, expires_at: 100 });
    assert_eq!(validate(b"s", &token, 0), Ok(42));
    assert_eq!(validate(b"s", &token, 99), Ok(42));
    assert_eq!(validate(b"s", &token, 100), Err(TokenError::Expired));
    assert_eq!(validate(b"s", &token, 101), Err(TokenError::Expired));
}

#[test]
fn largest_user_id_survives_the_round_trip() {
    let token = mint(b"s", Claims { user_id: u64::MAX, expires_at: u64::MAX });
    assert_eq!(validate(b"s", &token, u64::MAX - 1), Ok(u64::MAX));
    let token = mint(b"s", Claims { user_id: 0x0102030405060708, expires_at: 9 });
    assert_eq!(validate(b"s", &token, 8), Ok(0x0102030405060708));
    assert_eq!(&token[..8], &[8, 7, 6, 5, 4, 3, 2, 1]);
}

#[test]
fn wrong_length_is_malformed() {
    let token = mint(b"s", Claims { user_id: 1, expires_at: 100 });
    assert_eq!(validate(b"s", &[], 0), Err(TokenError::Malformed));
    assert_eq!(validate(b"s", &token[..47], 0), Err(TokenError::Malformed));
    assert_eq!(validate(b"s", &token[..16], 0), Err(TokenError::Malformed));
    let mut long = token.clone();
    long.push(0);
    assert_eq!(validate(b"s", &long, 0), Err(TokenError::Malformed));
}

#[test]
fn any_changed_byte_is_a_bad_signature() {
    let token = mint(b"s", Claims { user_id: 1, expires_at: 100 });
    for i in 0..token.len() {
        let mut forged = token.clone();
        forged[i] ^= 1;
        assert_eq!(validate(b"s", &forged, 0), Err(TokenError::BadSignature));
    }
}

#[test]
fn signature_is_checked_before_expiry() {
    let token = mint(b"s", Claims { user_id: 1, expires_at: 100 });
    let mut forged = token.clone();
    forged[47] ^= 0x80;
    assert_eq!(validate(b"s", &forged, 500), Err(TokenError::BadSignature));
    assert_eq!(validate(b"other", &token, 500), Err(TokenError::BadSignature));
    assert_eq!(validate(b"s", &token, 500), Err(TokenError::Expired));
}

#[test]
fn empty_secret_is_a_secret_like_any_other() {
    let token = mint(b"", Claims { user_id: 3, expires_at: 10 });
    assert_eq!(validate(b"", &token, 1), Ok(3));
    assert_eq!(validate(b"x", &token, 1), Err(TokenError::BadSignature));
}

#[test]
fn constant_time_eq_compares_contents() {
    assert!(constant_time_eq(b"", b""));
    assert!(constant_time_eq(b"abc", b"abc"));
    assert!(!constant_time_eq(b"abc", b"abd"));
    assert!(!constant_time_eq(b"abc", b"bbc"));
    assert!(!constant_time_eq(b"abc", b"ab"));
    assert!(!constant_time_eq(b"", b"a"));
    assert!(!constant_time_eq(&[0x01, 0x02], &[0x02, 0x01]));
    assert!(!constant_time_eq(&[0xff], &[0x00]));
}
