use authcore::AppError;
use authcore::auth::{Auth, ONE_WEEK, TokenError};
use authcore::authentication::{login, login_with_user, prepare_registration, register};
use authcore::authz::{AuthDecision, api_key_authorize, jwt_authorize_at, management_authorize,
    parse_cookie_token, validate_user};
use authcore::inmemory::InMemoryUsersRepo;
use authcore::repo::UsersRepo;
use authcore::schema::{LoginRequest, RegisterRequest};

fn new_auth() -> Auth {
    Auth::new(b"test-signing-secret")
}

#[test]
fn password_hash_round_trip() {
    let auth = new_auth();
    let hash = auth.hash_password("hunter2hunter2").unwrap();
    assert_ne!(hash, "hunter2hunter2");
    assert_eq!(auth.verify_password("hunter2hunter2", &hash).unwrap(), true);
    assert_eq!(auth.verify_password("wrong", &hash).unwrap(), false);
}

#[test]
fn malformed_hash_is_an_error_not_a_panic() {
    let auth = new_auth();
    assert!(auth.verify_password("anything", "not-a-bcrypt-hash").is_err());
}

#[test]
fn token_round_trip_carries_subject_and_expiry() {
    let auth = new_auth();
    let issued: u64 = 1_700_000_000;
    let (token, exp) = auth.create_token_at("alice99", issued).unwrap();
    assert_eq!(exp, issued + ONE_WEEK);
    let claims = auth.decode_token_at(&token, issued + 1).unwrap();
    assert_eq!(claims.sub, "alice99");
    assert_eq!(claims.exp, exp);
}

#[test]
fn token_validity_window_boundary() {
    let auth = new_auth();
    let issued: u64 = 1_700_000_000;
    let (token, exp) = auth.create_token_at("bob", issued).unwrap();
    assert_eq!(exp, issued + ONE_WEEK);
    assert!(auth.decode_token_at(&token, exp - 1).is_ok());
    assert!(matches!(auth.decode_token_at(&token, exp), Err(TokenError::Expired)));
    assert!(matches!(auth.decode_token_at(&token, exp + 1), Err(TokenError::Expired)));
}

#[test]
fn tampered_or_foreign_tokens_are_malformed() {
    let auth = new_auth();
    let (token, _) = auth.create_token_at("carol", 1000).unwrap();
    let mut tampered = token.clone();
    tampered.push('x');
    assert!(matches!(auth.decode_token_at(&tampered, 1001), Err(TokenError::Malformed(_))));

    let other = Auth::new(b"another-secret");
    assert!(matches!(other.decode_token_at(&token, 1001), Err(TokenError::Malformed(_))));

    assert!(matches!(auth.decode_token_at("garbage", 0), Err(TokenError::Malformed(_))));
}

#[test]
fn register_then_login_succeeds_with_normalized_subject() {
    let mut users = InMemoryUsersRepo::new();
    let auth = new_auth();

    let reg = RegisterRequest { user: "Alice99".to_string(), password: "p4ssw0rd!long".to_string() };
    register(&mut users, &auth, true, &reg).unwrap();

    // Stored and looked up under the case-normalized name.
    assert!(users.get_user("alice99").is_ok());
    assert!(users.get_user("Alice99").is_err());

    // Login with different casing of the username succeeds.
    let req = LoginRequest { user: "ALICE99".to_string(), password: "p4ssw0rd!long".to_string() };
    let resp = login(&users, &auth, &req).unwrap();
    let claims = auth.decode_token(&resp.token).unwrap();
    assert_eq!(claims.sub, "alice99");
}

#[test]
fn login_failures_are_uniform_authorization_errors() {
    let mut users = InMemoryUsersRepo::new();
    let auth = new_auth();
    let reg = RegisterRequest {
        user: "validusername".to_string(),
        password: "correct_password".to_string(),
    };
    register(&mut users, &auth, true, &reg).unwrap();

    let wrong_password = LoginRequest {
        user: "validusername".to_string(),
        password: "wrong_password".to_string(),
    };
    assert!(matches!(login(&users, &auth, &wrong_password), Err(AppError::Authorization(_))));

    let unknown_user = LoginRequest {
        user: "neverregistered".to_string(),
        password: "correct_password".to_string(),
    };
    assert!(matches!(login(&users, &auth, &unknown_user), Err(AppError::Authorization(_))));
}

#[test]
fn registering_twice_conflicts_without_partial_state() {
    let mut users = InMemoryUsersRepo::new();
    let auth = new_auth();
    let reg = RegisterRequest { user: "dupuser".to_string(), password: "secret-pw-1".to_string() };
    register(&mut users, &auth, true, &reg).unwrap();

    let again = RegisterRequest { user: "DupUser".to_string(), password: "other-pw-2".to_string() };
    assert!(matches!(register(&mut users, &auth, true, &again), Err(AppError::Conflict(_))));

    // No partial mutation: exactly one stored user, still the original one.
    let listed = users.list_users().unwrap();
    assert_eq!(listed.len(), 1);
    assert_eq!(listed[0].username, "dupuser");
    let stored = users.get_user("dupuser").unwrap();
    assert_eq!(auth.verify_password("secret-pw-1", &stored.password_hash).unwrap(), true);
}

#[test]
fn registration_toggle_rejects_regardless_of_input() {
    let mut users = InMemoryUsersRepo::new();
    let auth = new_auth();
    let reg = RegisterRequest { user: "fineuser".to_string(), password: "finepassword".to_string() };
    assert!(matches!(register(&mut users, &auth, false, &reg), Err(AppError::Authentication(_))));
    assert_eq!(users.list_users().unwrap().len(), 0);
}

#[test]
fn registration_rejects_bad_usernames_with_the_rule_broken() {
    let mut users = InMemoryUsersRepo::new();
    let auth = new_auth();

    let leading_digit = RegisterRequest { user: "9bob".to_string(), password: "pw".to_string() };
    match register(&mut users, &auth, true, &leading_digit) {
        Err(AppError::Validation(m)) => assert_eq!(m, "String cannot start with a digit."),
        other => panic!("expected a validation error, got {:?}", other.is_ok()),
    }

    let too_long = RegisterRequest {
        user: "abcdefghijklmnopqrstuvwxyz".to_string(),
        password: "pw".to_string(),
    };
    match register(&mut users, &auth, true, &too_long) {
        Err(AppError::Validation(m)) => assert!(m.contains("Length limit exceeded")),
        other => panic!("expected a validation error, got {:?}", other.is_ok()),
    }

    assert_eq!(users.list_users().unwrap().len(), 0);
}

#[test]
fn middleware_rejects_deactivated_subject_with_valid_token() {
    let mut users = InMemoryUsersRepo::new();
    let auth = new_auth();
    let reg = RegisterRequest { user: "eve".to_string(), password: "pw-of-eve-1".to_string() };
    register(&mut users, &auth, true, &reg).unwrap();

    let issued: u64 = 1_700_000_000;
    let (token, exp) = auth.create_token_at("eve", issued).unwrap();
    let header = format!("Bearer {}", token);

    // Before deactivation the very same request passes.
    let before = jwt_authorize_at(&users, &auth, "/v1/ws", Some(&header), None, issued + 5);
    assert!(matches!(before, Ok(AuthDecision::Authorized(sub)) if sub == "eve"));

    // Deactivate the principal; the token is still cryptographically valid.
    let mut stored = users.get_user("eve").unwrap();
    stored.deactivated = true;
    users.update_user("eve", stored).unwrap();
    assert!(auth.decode_token_at(&token, issued + 5).is_ok());
    assert!(issued + 5 < exp);

    let after = jwt_authorize_at(&users, &auth, "/v1/ws", Some(&header), None, issued + 5);
    assert!(matches!(after, Err(AppError::Authorization(_))));
    assert!(!validate_user(&users, "eve"));
}

#[test]
fn middleware_token_extraction_rules() {
    let mut users = InMemoryUsersRepo::new();
    let auth = new_auth();
    let reg = RegisterRequest { user: "frank".to_string(), password: "pw-of-frank".to_string() };
    register(&mut users, &auth, true, &reg).unwrap();
    let issued: u64 = 1_700_000_000;
    let (token, _) = auth.create_token_at("frank", issued).unwrap();
    let now = issued + 1;

    // Exempt paths bypass entirely, with or without credentials.
    assert!(matches!(
        jwt_authorize_at(&users, &auth, "/register", None, None, now),
        Ok(AuthDecision::Exempt)
    ));
    assert!(matches!(
        jwt_authorize_at(&users, &auth, "/login", None, None, now),
        Ok(AuthDecision::Exempt)
    ));

    // Missing credential fails.
    assert!(matches!(
        jwt_authorize_at(&users, &auth, "/v1/ws", None, None, now),
        Err(AppError::Authorization(_))
    ));

    // A token cookie works, under either cookie name.
    let cookie = format!("theme=dark; token={}", token);
    assert!(matches!(
        jwt_authorize_at(&users, &auth, "/v1/ws", None, Some(&cookie), now),
        Ok(AuthDecision::Authorized(sub)) if sub == "frank"
    ));
    let jwt_cookie = format!(" jwt={} ", token);
    assert!(matches!(
        jwt_authorize_at(&users, &auth, "/v1/ws", None, Some(&jwt_cookie), now),
        Ok(AuthDecision::Authorized(sub)) if sub == "frank"
    ));

    // The header takes precedence over a cookie carrying a bad token.
    let good_header = format!("Bearer {}", token);
    assert!(matches!(
        jwt_authorize_at(&users, &auth, "/v1/ws", Some(&good_header), Some("token=bad"), now),
        Ok(AuthDecision::Authorized(sub)) if sub == "frank"
    ));

    // A header without the bearer scheme falls back to the cookie.
    assert!(matches!(
        jwt_authorize_at(&users, &auth, "/v1/ws", Some(&token), Some(&cookie), now),
        Ok(AuthDecision::Authorized(sub)) if sub == "frank"
    ));
}

#[test]
fn cookie_parsing_finds_the_first_match() {
    assert_eq!(parse_cookie_token("token=abc"), Some("abc".to_string()));
    assert_eq!(parse_cookie_token("a=b; jwt=xyz"), Some("xyz".to_string()));
    assert_eq!(parse_cookie_token("  token=first ; jwt=second"), Some("first".to_string()));
    assert_eq!(parse_cookie_token("a=b; c=d"), None);
    assert_eq!(parse_cookie_token(""), None);
}

#[test]
fn management_token_check() {
    assert!(management_authorize("mgmt-secret", "/register", None).is_ok());
    assert!(management_authorize("mgmt-secret", "/admin", Some("Bearer mgmt-secret")).is_ok());
    assert!(matches!(
        management_authorize("mgmt-secret", "/admin", Some("Bearer wrong")),
        Err(AppError::Authorization(_))
    ));
    assert!(matches!(
        management_authorize("mgmt-secret", "/admin", None),
        Err(AppError::Authorization(_))
    ));
}

#[test]
fn api_key_allow_list() {
    let keys = vec!["key-one".to_string(), "key-two".to_string()];
    assert!(api_key_authorize(&keys, Some("key-one"), None).is_ok());
    assert!(api_key_authorize(&keys, None, Some("Bearer key-two")).is_ok());
    assert!(api_key_authorize(&keys, None, Some("key-two")).is_ok());
    assert!(matches!(
        api_key_authorize(&keys, Some("stranger"), None),
        Err(AppError::Authorization(_))
    ));
    assert!(matches!(api_key_authorize(&keys, None, None), Err(AppError::Authorization(_))));
    // X-Api-Key wins over the Authorization header.
    assert!(matches!(
        api_key_authorize(&keys, Some("stranger"), Some("Bearer key-one")),
        Err(AppError::Authorization(_))
    ));
}

#[test]
fn registration_decision_builds_the_stored_principal() {
    let auth = new_auth();
    let req = RegisterRequest { user: "NewComer".to_string(), password: "pw-long-enough".to_string() };
    let user = prepare_registration(&auth, true, &req).unwrap();
    assert_eq!(user.username, "newcomer");
    assert!(!user.deactivated);
    assert_eq!(auth.verify_password("pw-long-enough", &user.password_hash).unwrap(), true);

    assert!(matches!(prepare_registration(&auth, false, &req), Err(AppError::Authentication(_))));
    let bad = RegisterRequest { user: "5tart".to_string(), password: "pw".to_string() };
    assert!(matches!(prepare_registration(&auth, true, &bad), Err(AppError::Validation(_))));
}

#[test]
fn login_decision_on_a_fetched_record() {
    let auth = new_auth();
    let req = RegisterRequest { user: "remote1".to_string(), password: "remote-pw".to_string() };
    let mut user = prepare_registration(&auth, true, &req).unwrap();

    let ok = login_with_user(&auth, &user, "remote-pw").unwrap();
    assert_eq!(auth.decode_token(&ok.token).unwrap().sub, "remote1");

    assert!(matches!(login_with_user(&auth, &user, "wrong"), Err(AppError::Authorization(_))));
    user.deactivated = true;
    assert!(matches!(login_with_user(&auth, &user, "remote-pw"), Err(AppError::Authorization(_))));
}

#[test]
fn rejections_are_literally_identical() {
    let users = InMemoryUsersRepo::new();
    let auth = new_auth();
    let now: u64 = 1_700_000_000;

    // No credential vs. a malformed token: same kind, same text.
    let none = jwt_authorize_at(&users, &auth, "/v1/ws", None, None, now);
    let bad = jwt_authorize_at(&users, &auth, "/v1/ws", Some("Bearer nonsense"), None, now);
    match (none, bad) {
        (Err(AppError::Authorization(m1)), Err(AppError::Authorization(m2))) => {
            assert_eq!(m1, m2);
            assert_eq!(m1, "Unauthorized");
        }
        _ => panic!("expected two authorization rejections"),
    }

    // Login failures for different causes carry the same text too.
    let unknown = login(
        &users,
        &auth,
        &LoginRequest { user: "nobody".to_string(), password: "pw".to_string() },
    );
    match unknown {
        Err(AppError::Authorization(m)) => assert_eq!(m, "Unauthorized"),
        _ => panic!("expected an authorization rejection"),
    }
}
