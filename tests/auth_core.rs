use blog_auth::account::{change_password, login, prepare_registration};
use blog_auth::dtos::{
    FilterUserDto, LoginUserDto, NameUpdateDto, PostDto, RegisterUserDto, RequestQueryDto,
    UserPasswordUpdateDto,
};
use blog_auth::encoding::{from_hex_chars, push_le, read_le, to_hex_chars};
use blog_auth::error::{AuthError, ValidationIssue};
use blog_auth::identity::{authenticate_request, bearer_token, load_identity, require_role};
use blog_auth::models::{Role, User};
use blog_auth::ownership::{conditional_write_outcome, delete_post_as, update_post_as, PostStore};
use blog_auth::password::{compare_password, hash_password};
use blog_auth::token::{same_bytes, Claims, TokenCodec, TokenError};

fn codec(ttl: u64) -> TokenCodec {
    TokenCodec::new(b"a-process-wide-signing-secret".to_vec(), ttl).unwrap()
}

fn user(id: u128, role: Role, password_hash: &str) -> User {
    User {
        id,
        name: "Ada".to_string(),
        username: "ada".to_string(),
        email: "ada@example.com".to_string(),
        bio: Some("hello".to_string()),
        password: password_hash.to_string(),
        role,
        created_at: 100,
        updated_at: 200,
    }
}

fn flip_hex_digit(token: &str, at: usize) -> String {
    token
        .chars()
        .enumerate()
        .map(|(i, c)| if i == at { if c == '0' { '1' } else { '0' } } else { c })
        .collect()
}

#[test]
fn hash_then_verify_accepts_the_password() {
    let h = hash_password("correct horse").unwrap();
    assert_ne!(h, "correct horse");
    assert_eq!(compare_password(&h, "correct horse"), Ok(true));
}

#[test]
fn two_hashes_of_one_password_differ() {
    let a = hash_password("same password").unwrap();
    let b = hash_password("same password").unwrap();
    assert_ne!(a, b);
    assert_eq!(compare_password(&a, "same password"), Ok(true));
    assert_eq!(compare_password(&b, "same password"), Ok(true));
}

#[test]
fn other_password_does_not_verify() {
    let h = hash_password("password-one").unwrap();
    assert_eq!(compare_password(&h, "password-two"), Ok(false));
}

#[test]
fn empty_and_long_passwords_are_refused() {
    assert_eq!(
        hash_password(""),
        Err(AuthError::Validation(ValidationIssue::EmptyPassword))
    );
    let long = "x".repeat(65);
    assert_eq!(
        hash_password(&long),
        Err(AuthError::Validation(ValidationIssue::PasswordTooLong))
    );
    let max = "é".repeat(64);
    assert!(hash_password(&max).is_ok());
    assert_eq!(
        compare_password("whatever", ""),
        Err(AuthError::Validation(ValidationIssue::EmptyPassword))
    );
}

#[test]
fn malformed_stored_hash_is_a_format_error() {
    assert_eq!(
        compare_password("not a phc string", "secret1"),
        Err(AuthError::InvalidHashFormat)
    );
}

#[test]
fn codec_needs_secret_and_lifetime() {
    assert!(TokenCodec::new(Vec::new(), 10).is_none());
    assert!(TokenCodec::new(vec![1, 2, 3], 0).is_none());
    assert_eq!(codec(3600).ttl(), 3600);
}

#[test]
fn token_valid_until_expiry() {
    let c = codec(3600);
    let t = 1_700_000_000u64;
    let token = c.issue(42, t);
    assert_eq!(token.len(), 128);
    let claims = Claims { sub: 42, iat: t, exp: t + 3600 };
    assert_eq!(c.verify(&token, t), Ok(claims));
    assert_eq!(c.verify(&token, t + 3600 - 1), Ok(claims));
    assert_eq!(c.verify(&token, t + 3600), Err(TokenError::Expired));
    assert_eq!(c.verify(&token, t + 3600 + 1), Err(TokenError::Expired));
}

#[test]
fn large_subject_ids_round_trip() {
    let c = codec(60);
    let sub = 0x0123_4567_89ab_cdef_fedc_ba98_7654_3210u128;
    let token = c.issue(sub, u64::MAX - 60);
    assert_eq!(
        c.verify(&token, 5),
        Ok(Claims { sub, iat: u64::MAX - 60, exp: u64::MAX })
    );
}

#[test]
fn tampered_payload_fails_signature() {
    let c = codec(3600);
    let token = c.issue(7, 1000);
    for at in [0usize, 5, 31, 40, 63] {
        let bad = flip_hex_digit(&token, at);
        assert_eq!(c.verify(&bad, 1000), Err(TokenError::BadSignature));
        assert_eq!(c.verify(&bad, 1_000_000), Err(TokenError::BadSignature));
    }
    let bad_tag = flip_hex_digit(&token, 100);
    assert_eq!(c.verify(&bad_tag, 1000), Err(TokenError::BadSignature));
}

#[test]
fn other_secret_fails_signature() {
    let token = codec(3600).issue(7, 1000);
    let other = TokenCodec::new(b"another-secret".to_vec(), 3600).unwrap();
    assert_eq!(other.verify(&token, 1000), Err(TokenError::BadSignature));
}

#[test]
fn malformed_tokens_are_refused() {
    let c = codec(3600);
    let token = c.issue(7, 1000);
    assert_eq!(c.verify("", 1000), Err(TokenError::Malformed));
    assert_eq!(c.verify(&token[..126], 1000), Err(TokenError::Malformed));
    assert_eq!(c.verify(&token.to_uppercase(), 1000), Err(TokenError::Malformed));
    let mut with_g = token.clone();
    with_g.replace_range(0..1, "g");
    assert_eq!(c.verify(&with_g, 1000), Err(TokenError::Malformed));
}

#[test]
fn hex_and_little_endian_encoding() {
    assert_eq!(to_hex_chars(&vec![0xab, 0x01, 0xf0]), vec!['a', 'b', '0', '1', 'f', '0']);
    assert_eq!(from_hex_chars(&vec!['0', 'f', 'a', '0']), Some(vec![0x0f, 0xa0]));
    assert_eq!(from_hex_chars(&vec!['0', 'f', 'a']), None);
    assert_eq!(from_hex_chars(&vec!['0', 'F']), None);
    let mut out = vec![9u8];
    push_le(&mut out, 0x0102_0304, 4);
    assert_eq!(out, vec![9, 4, 3, 2, 1]);
    assert_eq!(read_le(&out, 1, 4), 0x0102_0304);
    assert!(same_bytes(&vec![1, 2, 3], &vec![1, 2, 3]));
    assert!(!same_bytes(&vec![1, 2, 3], &vec![1, 2, 4]));
}

#[test]
fn missing_credential_requires_authentication() {
    let c = codec(3600);
    assert_eq!(authenticate_request(&c, None, 1000), Err(AuthError::AuthenticationRequired));
    assert_eq!(
        authenticate_request(&c, Some("Basic abc"), 1000),
        Err(AuthError::AuthenticationRequired)
    );
    assert_eq!(
        authenticate_request(&c, Some("Bearer "), 1000),
        Err(AuthError::AuthenticationRequired)
    );
    assert_eq!(AuthError::AuthenticationRequired.status_code(), 401);
}

#[test]
fn bearer_token_is_extracted() {
    assert_eq!(bearer_token("Bearer abc.def"), Some("abc.def".to_string()));
    assert_eq!(bearer_token("bearer abc"), None);
    assert_eq!(bearer_token("Bearer"), None);
}

#[test]
fn bad_or_expired_token_is_rejected() {
    let c = codec(10);
    let token = c.issue(5, 1000);
    let header = format!("Bearer {}", token);
    assert_eq!(authenticate_request(&c, Some(&header), 1005), Ok(5));
    assert_eq!(
        authenticate_request(&c, Some(&header), 1010),
        Err(AuthError::InvalidOrExpiredToken)
    );
    assert_eq!(
        authenticate_request(&c, Some("Bearer nonsense"), 1005),
        Err(AuthError::InvalidOrExpiredToken)
    );
}

#[test]
fn deleted_user_requires_authentication() {
    assert!(matches!(load_identity(5, None), Err(AuthError::AuthenticationRequired)));
    assert!(matches!(
        load_identity(5, Some(user(6, Role::User, "h"))),
        Err(AuthError::AuthenticationRequired)
    ));
    let ctx = load_identity(5, Some(user(5, Role::User, "h"))).unwrap();
    assert_eq!(ctx.user().id, 5);
}

#[test]
fn role_gate_fails_closed() {
    let member = load_identity(1, Some(user(1, Role::User, "h"))).unwrap();
    let admin = load_identity(2, Some(user(2, Role::Admin, "h"))).unwrap();
    assert_eq!(require_role(&member, Role::User), Ok(()));
    assert_eq!(require_role(&member, Role::Admin), Err(AuthError::Forbidden));
    assert_eq!(require_role(&admin, Role::Admin), Ok(()));
    assert_eq!(AuthError::Forbidden.status_code(), 403);
    assert_eq!(Role::from_name("admin"), Some(Role::Admin));
    assert_eq!(Role::from_name("user"), Some(Role::User));
    assert_eq!(Role::from_name("superuser"), None);
    assert_eq!(Role::from_name("Admin"), None);
    assert_eq!(Role::Admin.name(), "admin");
}

fn store_with_post(owner: u128) -> PostStore {
    let mut s = PostStore::new();
    s.create_post(10, owner, "title".to_string(), "body".to_string(), 50).unwrap();
    s
}

#[test]
fn non_owner_cannot_update_or_delete() {
    let mut s = store_with_post(1);
    assert!(matches!(
        s.update_post(10, 2, "x".to_string(), "y".to_string(), 60),
        Err(AuthError::NotFoundOrNotOwned)
    ));
    assert_eq!(s.delete_post(10, 2), Err(AuthError::NotFoundOrNotOwned));
    let p = s.get_post(10).unwrap();
    assert_eq!((p.title.as_str(), p.content.as_str(), p.updated_at), ("title", "body", 50));
    assert!(matches!(
        s.update_post(99, 1, "x".to_string(), "y".to_string(), 60),
        Err(AuthError::NotFoundOrNotOwned)
    ));
    assert_eq!(AuthError::NotFoundOrNotOwned.status_code(), 404);
}

#[test]
fn owner_updates_and_deletes() {
    let mut s = store_with_post(1);
    let p = s.update_post(10, 1, "new".to_string(), "text".to_string(), 70).unwrap();
    assert_eq!((p.id, p.author_id, p.title.as_str(), p.updated_at, p.created_at), (10, 1, "new", 70, 50));
    assert_eq!(s.get_post(10).unwrap().title, "new");
    assert_eq!(s.delete_post(10, 1), Ok(()));
    assert!(s.get_post(10).is_none());
}

#[test]
fn delete_then_update_leaves_one_success() {
    let mut s = store_with_post(1);
    assert_eq!(s.delete_post(10, 1), Ok(()));
    assert!(matches!(
        s.update_post(10, 1, "x".to_string(), "y".to_string(), 60),
        Err(AuthError::NotFoundOrNotOwned)
    ));
    assert!(s.get_post(10).is_none());
}

#[test]
fn update_then_delete_leaves_no_post() {
    let mut s = store_with_post(1);
    assert!(s.update_post(10, 1, "x".to_string(), "y".to_string(), 60).is_ok());
    assert_eq!(s.delete_post(10, 1), Ok(()));
    assert!(s.get_post(10).is_none());
}

#[test]
fn duplicate_post_id_is_a_store_failure() {
    let mut s = store_with_post(1);
    assert!(matches!(
        s.create_post(10, 2, "a".to_string(), "b".to_string(), 1),
        Err(AuthError::BackingStoreFailure)
    ));
    assert_eq!(AuthError::BackingStoreFailure.status_code(), 500);
}

#[test]
fn insufficient_role_is_forbidden_without_mutation() {
    let mut s = store_with_post(1);
    let member = load_identity(1, Some(user(1, Role::User, "h"))).unwrap();
    assert!(matches!(
        update_post_as(&mut s, &member, Role::Admin, 10, "x".to_string(), "y".to_string(), 60),
        Err(AuthError::Forbidden)
    ));
    assert_eq!(delete_post_as(&mut s, &member, Role::Admin, 10), Err(AuthError::Forbidden));
    assert_eq!(s.get_post(10).unwrap().title, "title");
    assert!(update_post_as(&mut s, &member, Role::User, 10, "x".to_string(), "y".to_string(), 60).is_ok());
    assert_eq!(s.get_post(10).unwrap().title, "x");
}

#[test]
fn dto_validation_rules() {
    let mut reg = RegisterUserDto {
        name: "Ada".to_string(),
        username: "ada".to_string(),
        email: "ada@example.com".to_string(),
        bio: None,
        password: "secret1".to_string(),
        password_confirm: "secret1".to_string(),
    };
    assert_eq!(reg.validate(), Ok(()));
    reg.email = "not-an-email".to_string();
    assert_eq!(reg.validate(), Err(AuthError::Validation(ValidationIssue::InvalidEmail)));
    assert_eq!(reg.check_fields(true), Ok(()));
    reg.password_confirm = "secret2".to_string();
    assert_eq!(reg.check_fields(true), Err(AuthError::Validation(ValidationIssue::NotMatching)));
    reg.username = "ad".to_string();
    assert_eq!(reg.check_fields(true), Err(AuthError::Validation(ValidationIssue::TooShort)));
    reg.name = String::new();
    assert_eq!(reg.check_fields(true), Err(AuthError::Validation(ValidationIssue::EmptyValue)));

    let login_body = LoginUserDto { email: "a@b.co".to_string(), password: "12345".to_string() };
    assert_eq!(login_body.validate(), Err(AuthError::Validation(ValidationIssue::TooShort)));

    let q = RequestQueryDto { page: Some(0), limit: None };
    assert_eq!(q.validate(), Err(AuthError::Validation(ValidationIssue::OutOfRange)));
    let q = RequestQueryDto { page: None, limit: Some(51) };
    assert_eq!(q.validate(), Err(AuthError::Validation(ValidationIssue::OutOfRange)));
    let q = RequestQueryDto { page: Some(2), limit: Some(50) };
    assert_eq!(q.validate(), Ok(()));
    let q = RequestQueryDto { page: None, limit: None };
    assert_eq!((q.page_or_default(), q.limit_or_default()), (1, 10));

    let post = PostDto { title: String::new(), content: "c".to_string() };
    assert_eq!(post.validate(), Err(AuthError::Validation(ValidationIssue::EmptyValue)));
    assert_eq!(NameUpdateDto { name: "n".to_string() }.validate(), Ok(()));
    assert_eq!(
        AuthError::Validation(ValidationIssue::EmptyValue).status_code(),
        400
    );
}

#[test]
fn filtered_user_has_no_password() {
    let u = user(3, Role::User, "$argon2id$secret");
    let f: FilterUserDto = FilterUserDto::filter_user(&u);
    assert_eq!((f.id, f.name.as_str(), f.email.as_str(), f.bio.as_deref()), (3, "Ada", "ada@example.com", Some("hello")));
    assert!(!format!("{:?}", f).contains("argon2"));
}

#[test]
fn register_login_and_change_password() {
    let reg = RegisterUserDto {
        name: "Ada".to_string(),
        username: "ada".to_string(),
        email: "ada@example.com".to_string(),
        bio: None,
        password: "secret1".to_string(),
        password_confirm: "secret1".to_string(),
    };
    let h = prepare_registration(&reg).unwrap();
    let c = codec(3600);
    let body = LoginUserDto { email: "ada@example.com".to_string(), password: "secret1".to_string() };
    let resp = login(&c, &body, Some(user(9, Role::User, &h)), 500).unwrap();
    assert_eq!(resp.status, "success");
    assert_eq!(c.verify(&resp.token, 501), Ok(Claims { sub: 9, iat: 500, exp: 4100 }));
    assert!(matches!(login(&c, &body, None, 500), Err(AuthError::CredentialMismatch)));
    let wrong = LoginUserDto { email: "ada@example.com".to_string(), password: "secret2".to_string() };
    assert!(matches!(
        login(&c, &wrong, Some(user(9, Role::User, &h)), 500),
        Err(AuthError::CredentialMismatch)
    ));

    let change = UserPasswordUpdateDto {
        new_password: "secret3".to_string(),
        new_password_confirm: "secret3".to_string(),
        old_password: "secret1".to_string(),
    };
    let h2 = change_password(&h, &change).unwrap();
    assert_eq!(compare_password(&h2, "secret3"), Ok(true));
    let bad = UserPasswordUpdateDto { old_password: "secret9".to_string(), ..change };
    assert_eq!(change_password(&h, &bad), Err(AuthError::CredentialMismatch));
}

#[test]
fn store_outcome_and_paging() {
    assert_eq!(conditional_write_outcome(0), Err(AuthError::NotFoundOrNotOwned));
    assert_eq!(conditional_write_outcome(1), Ok(()));
    assert_eq!(RequestQueryDto::offset(1, 10), 0);
    assert_eq!(RequestQueryDto::offset(3, 10), 20);
    assert_eq!(RequestQueryDto::offset(u32::MAX, u32::MAX), (u32::MAX as u64 - 1) * u32::MAX as u64);
}
