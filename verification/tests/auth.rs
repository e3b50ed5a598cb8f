use inventory_backend::auth::AuthService;
use inventory_backend::bearer::encode_hex;
use inventory_backend::error::{AuthError, TokenError};

fn auth_service() -> AuthService {
    AuthService::new(b"signing-secret".to_vec(), 3600, 6, 10)
}

fn hex_of(bytes: &[u8]) -> String {
    String::from_utf8(encode_hex(bytes)).unwrap()
}

#[test]
fn register_assigns_ids_from_one() {
    let mut auth = auth_service();
    assert_eq!(auth.register("alice", "secret1"), Ok(1));
    assert_eq!(auth.register("bob", "secret2"), Ok(2));
    assert!(auth.knows(1));
    assert!(auth.knows(2));
    assert!(!auth.knows(3));
    assert!(!auth.knows(0));
}

#[test]
fn register_then_login_then_validate() {
    let mut auth = auth_service();
    let id = auth.register("alice", "secret1").unwrap();
    let token = auth.login("alice", "secret1", 1_000).unwrap();
    assert_eq!(token.len(), 48);
    assert_eq!(auth.validate(&token, 1_000), Ok(id));
    assert_eq!(auth.validate(&token, 4_599), Ok(id));
}

#[test]
fn second_registration_is_refused_whatever_the_password() {
    let mut auth = auth_service();
    assert_eq!(auth.register("alice", "secret1"), Ok(1));
    assert_eq!(auth.register("alice", "secret1"), Err(AuthError::UsernameTaken));
    assert_eq!(auth.register("alice", "another-password"), Err(AuthError::UsernameTaken));
    assert_eq!(auth.register("alice", ""), Err(AuthError::UsernameTaken));
    assert_eq!(auth.register("bob", "secret2"), Ok(2));
}

#[test]
fn usernames_are_folded_to_lower_case() {
    let mut auth = auth_service();
    assert_eq!(auth.register("Alice", "secret1"), Ok(1));
    assert_eq!(auth.register("ALICE", "secret2"), Err(AuthError::UsernameTaken));
    assert_eq!(auth.register("alice", "secret2"), Err(AuthError::UsernameTaken));
    let stored = auth.credentials().lookup_by_username("alice").unwrap();
    assert_eq!(stored.username, "alice");
    assert!(auth.credentials().lookup_by_username("Alice").is_none());
    let token = auth.login("aLiCe", "secret1", 5).unwrap();
    assert_eq!(auth.validate(&token, 5), Ok(1));
}

#[test]
fn non_ascii_letters_are_not_folded() {
    let mut auth = auth_service();
    assert_eq!(auth.register("Éva", "secret1"), Ok(1));
    assert_eq!(auth.register("éva", "secret1"), Ok(2));
    assert_eq!(auth.register("ÉVA", "secret1"), Err(AuthError::UsernameTaken));
}

#[test]
fn weak_password_is_refused() {
    let mut auth = auth_service();
    assert_eq!(auth.register("alice", "12345"), Err(AuthError::WeakPassword));
    assert_eq!(auth.register("alice", ""), Err(AuthError::WeakPassword));
    assert!(auth.credentials().lookup_by_username("alice").is_none());
    assert_eq!(auth.register("alice", "123456"), Ok(1));
}

#[test]
fn password_length_is_counted_in_bytes() {
    let mut auth = auth_service();
    assert_eq!(auth.register("alice", "ééé"), Ok(1));
    assert_eq!(auth.register("bob", "éé"), Err(AuthError::WeakPassword));
}

#[test]
fn login_failures_are_the_same_value() {
    let mut auth = auth_service();
    auth.register("alice", "secret1").unwrap();
    let wrong = auth.login("alice", "secret2", 10);
    let unknown = auth.login("nobody", "secret1", 10);
    assert_eq!(wrong, Err(AuthError::InvalidCredentials));
    assert_eq!(wrong, unknown);
    assert_eq!(auth.login("alice", "", 10), unknown);
    assert_eq!(auth.login("", "", 10), unknown);
}

#[test]
fn stored_key_is_pbkdf2_hmac_sha256() {
    let mut one = AuthService::new(b"k".to_vec(), 60, 1, 1);
    one.register_with_salt("user", "password", b"salt").unwrap();
    let record = one.credentials().lookup_by_username("user").unwrap();
    assert_eq!(
        hex_of(&record.password_hash),
        "120fb6cffcf8b32c43e7225256c4f837a86548c92ccc35480805987cb70be17b"
    );
    assert_eq!(record.salt, b"salt".to_vec());
    assert_eq!(record.rounds, 1);

    let mut two = AuthService::new(b"k".to_vec(), 60, 1, 2);
    two.register_with_salt("user", "password", b"salt").unwrap();
    let record = two.credentials().lookup_by_username("user").unwrap();
    assert_eq!(
        hex_of(&record.password_hash),
        "ae4d0c95af6b46d32d0adff928f06dd02a303f8ef3c251dfd6e2d85a95474c43"
    );
}

#[test]
fn stored_key_depends_on_salt_and_rounds() {
    let mut auth = auth_service();
    let salt: Vec<u8> = (0u8..16).collect();
    auth.register_with_salt("alice", "secret1", &salt).unwrap();
    let record = auth.credentials().lookup_by_username("alice").unwrap();
    assert_eq!(
        hex_of(&record.password_hash),
        "49e5df8fc38f8008d776fcff2045ade619b959f9c843d50e8fa4bd063bc6073e"
    );
    assert_ne!(record.password_hash, b"secret1".to_vec());
}

#[test]
fn password_is_not_stored() {
    let mut auth = auth_service();
    auth.register("alice", "correct horse battery").unwrap();
    let record = auth.credentials().lookup_by_username("alice").unwrap();
    assert_eq!(record.password_hash.len(), 32);
    assert_eq!(record.salt.len(), 16);
    assert_eq!(record.rounds, 10);
    let shown = format!("{:?}", record);
    assert!(!shown.contains("correct horse battery"));
}

#[test]
fn salts_are_drawn_afresh() {
    let mut auth = auth_service();
    auth.register("alice", "secret1").unwrap();
    auth.register("bob", "secret1").unwrap();
    let a = auth.credentials().lookup_by_username("alice").unwrap();
    let b = auth.credentials().lookup_by_username("bob").unwrap();
    assert_ne!(a.salt, b.salt);
    assert_ne!(a.password_hash, b.password_hash);
}

#[test]
fn token_expires_at_login_time_plus_ttl() {
    let mut auth = auth_service();
    let id = auth.register("alice", "secret1").unwrap();
    let token = auth.login("alice", "secret1", 1_000).unwrap();
    assert_eq!(auth.validate(&token, 4_599), Ok(id));
    assert_eq!(auth.validate(&token, 4_600), Err(TokenError::Expired));
    assert_eq!(auth.validate(&token, u64::MAX), Err(TokenError::Expired));
    assert_eq!(auth.validate(&token, 0), Ok(id));
}

#[test]
fn expiry_stops_at_the_largest_time() {
    let mut auth = auth_service();
    let id = auth.register("alice", "secret1").unwrap();
    let token = auth.login("alice", "secret1", u64::MAX - 10).unwrap();
    assert_eq!(&token[8..16], &u64::MAX.to_le_bytes());
    assert_eq!(auth.validate(&token, u64::MAX - 1), Ok(id));
    assert_eq!(auth.validate(&token, u64::MAX), Err(TokenError::Expired));
}

#[test]
fn zero_ttl_gives_a_token_that_is_already_expired() {
    let mut auth = AuthService::new(b"signing-secret".to_vec(), 0, 6, 10);
    auth.register("alice", "secret1").unwrap();
    let token = auth.login("alice", "secret1", 50).unwrap();
    assert_eq!(auth.validate(&token, 50), Err(TokenError::Expired));
    assert_eq!(auth.validate(&token, 49), Ok(1));
}

#[test]
fn token_of_another_secret_is_a_bad_signature() {
    let mut ours = auth_service();
    let mut theirs = AuthService::new(b"another-secret".to_vec(), 3600, 6, 10);
    ours.register("alice", "secret1").unwrap();
    theirs.register("alice", "secret1").unwrap();
    let token = theirs.login("alice", "secret1", 0).unwrap();
    assert_eq!(ours.validate(&token, 0), Err(TokenError::BadSignature));
    assert_eq!(theirs.validate(&token, 0), Ok(1));
}

#[test]
fn validation_needs_no_stored_user() {
    let mut issuer = auth_service();
    issuer.register("alice", "secret1").unwrap();
    let token = issuer.login("alice", "secret1", 0).unwrap();
    let empty = auth_service();
    assert_eq!(empty.validate(&token, 0), Ok(1));
    assert!(!empty.knows(1));
}

#[test]
fn rotating_the_secret_invalidates_earlier_tokens() {
    let mut auth = auth_service();
    let id = auth.register("alice", "secret1").unwrap();
    let before = auth.login("alice", "secret1", 0).unwrap();
    assert_eq!(auth.validate(&before, 1), Ok(id));
    auth.rotate_secret(b"next-secret".to_vec());
    assert_eq!(auth.validate(&before, 1), Err(TokenError::BadSignature));
    let after = auth.login("alice", "secret1", 0).unwrap();
    assert_eq!(auth.validate(&after, 1), Ok(id));
    assert_ne!(before, after);
    assert_eq!(&before[..16], &after[..16]);
}
