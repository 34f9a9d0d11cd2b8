use boston_drone_school::models::user::{
    CourseProgress, LoginRequest, NewUser, UpdateUser, UserRole,
};
use boston_drone_school::services::auth_service::{
    apply_profile_update, auth_response, authenticate, claims_outcome, credentials_outcome,
    find_user_by_email, get_user_profile, hash_password, hashing_outcome, issue_claims, issue_token, login_user,
    login_user_at, register_user, store_fresh_user, store_user, update_user_profile,
    validate_token, TOKEN_TTL_SECONDS,
};
use boston_drone_school::state::AppState;
use boston_drone_school::utils::error::{AppError, ErrorKind};

fn new_user(name: &str, email: &str, password: &str) -> NewUser {
    NewUser { name: name.to_string(), email: email.to_string(), password: password.to_string() }
}

fn login(email: &str, password: &str) -> LoginRequest {
    LoginRequest { email: email.to_string(), password: password.to_string() }
}

fn claims_of(token: &str, secret: &str) -> serde_json::Value {
    let mut validation = jsonwebtoken::Validation::new(jsonwebtoken::Algorithm::HS256);
    validation.validate_exp = false;
    let decoded = jsonwebtoken::decode::<serde_json::Value>(
        token,
        &jsonwebtoken::DecodingKey::from_secret(secret.as_bytes()),
        &validation,
    )
    .unwrap();
    decoded.claims
}

#[test]
fn register_stores_a_student_and_hides_the_hash() {
    let mut state = AppState::new("secret".to_string());
    let profile =
        register_user(&mut state, new_user("Ada", "ada@example.com", "correct horse")).unwrap();
    assert_eq!(profile.name, "Ada");
    assert_eq!(profile.email, "ada@example.com");
    assert_eq!(profile.role, UserRole::Student);
    assert!(profile.progress.is_empty());
    assert_eq!(uuid::Uuid::from_u128(profile.id).get_version_num(), 4);
    assert_eq!(state.users.len(), 1);
    let stored = state.users.get(&profile.id).unwrap();
    assert_eq!(stored.id, profile.id);
    assert_eq!(stored.email, "ada@example.com");
    assert_ne!(stored.password_hash, "correct horse");
    assert!(bcrypt::verify("correct horse", &stored.password_hash).unwrap());
    assert!(!bcrypt::verify("correct horsf", &stored.password_hash).unwrap());
}

#[test]
fn register_refuses_email_that_differs_only_in_case() {
    let mut state = AppState::new(String::new());
    register_user(&mut state, new_user("Ada", "Ada@Example.com", "password1")).unwrap();
    for _ in 0..2 {
        match register_user(&mut state, new_user("Eve", "aDA@eXAMPLE.COM", "password2")) {
            Err(AppError::BadRequest(message)) => assert_eq!(message, "Email already in use"),
            other => panic!("unexpected result: {:?}", other),
        }
        assert_eq!(state.users.len(), 1);
    }
    match register_user(&mut state, new_user("Eve", "Ada@Example.com", "password2")) {
        Err(AppError::BadRequest(message)) => assert_eq!(message, "Email already in use"),
        other => panic!("unexpected result: {:?}", other),
    }
    assert_eq!(state.users.len(), 1);
}

#[test]
fn register_checks_email_then_password_then_uniqueness() {
    let mut state = AppState::new(String::new());
    store_user(&mut state, 1, new_user("Ada", "ada@example.com", ""), "hash".to_string());
    match register_user(&mut state, new_user("Eve", "not an email", "short")) {
        Err(AppError::BadRequest(message)) => assert_eq!(message, "Invalid email format"),
        other => panic!("unexpected result: {:?}", other),
    }
    match register_user(&mut state, new_user("Eve", "ada@example.com", "short")) {
        Err(AppError::BadRequest(message)) => {
            assert_eq!(message, "Password must be at least 8 characters long")
        }
        other => panic!("unexpected result: {:?}", other),
    }
    match register_user(&mut state, new_user("Eve", "ADA@example.com", "long enough")) {
        Err(AppError::BadRequest(message)) => assert_eq!(message, "Email already in use"),
        other => panic!("unexpected result: {:?}", other),
    }
    assert_eq!(state.users.len(), 1);
}

#[test]
fn find_user_by_email_ignores_ascii_case_only() {
    let mut state = AppState::new(String::new());
    store_user(&mut state, 1, new_user("Ada", "Ada@Example.com", ""), "h".to_string());
    store_user(&mut state, 2, new_user("Zoe", "zo\u{e9}@example.com", ""), "h".to_string());
    assert_eq!(find_user_by_email(&state, "ada@example.COM"), Some(1));
    assert_eq!(find_user_by_email(&state, "Ada@Example.com"), Some(1));
    assert_eq!(find_user_by_email(&state, "ada@example.co"), None);
    assert_eq!(find_user_by_email(&state, "ZO\u{e9}@example.com"), Some(2));
    assert_eq!(find_user_by_email(&state, "zo\u{c9}@example.com"), None);
    assert_eq!(find_user_by_email(&state, ""), None);
}

#[test]
fn login_failures_share_one_message() {
    let mut state = AppState::new("secret".to_string());
    register_user(&mut state, new_user("Ada", "ada@example.com", "password1")).unwrap();
    let wrong_password = login_user(&state, login("ada@example.com", "password2")).unwrap_err();
    let unknown_email = login_user(&state, login("eve@example.com", "password1")).unwrap_err();
    assert_eq!(wrong_password.kind(), ErrorKind::Unauthorized);
    assert_eq!(unknown_email.kind(), ErrorKind::Unauthorized);
    assert_eq!(wrong_password.message(), "Invalid credentials");
    assert_eq!(unknown_email.message(), wrong_password.message());
    assert_eq!(unknown_email.to_string(), wrong_password.to_string());
}

#[test]
fn login_issues_a_token_that_expires_after_an_hour() {
    let mut state = AppState::new("top secret".to_string());
    let profile = register_user(&mut state, new_user("Ada", "ada@example.com", "password1")).unwrap();
    let now: usize = 1_700_000_000;
    let response = login_user_at(&state, login("ADA@example.com", "password1"), now).unwrap();
    assert_eq!(response.user.id, profile.id);
    assert_eq!(response.user.email, "ada@example.com");
    assert_eq!(response.user.name, "Ada");
    assert_eq!(response.token.split('.').count(), 3);
    let claims = claims_of(&response.token, "top secret");
    assert_eq!(claims["sub"].as_str().unwrap(), uuid::Uuid::from_u128(profile.id).to_string());
    assert_eq!(claims["exp"].as_u64().unwrap(), 1_700_003_600);
    let keys: Vec<&String> = claims.as_object().unwrap().keys().collect();
    assert_eq!(keys, vec!["sub", "exp"]);
}

#[test]
fn login_reads_the_clock() {
    let mut state = AppState::new("k".to_string());
    store_user(
        &mut state,
        9,
        new_user("Ada", "ada@example.com", ""),
        bcrypt::hash("password1", 4).unwrap(),
    );
    let before = std::time::SystemTime::now()
        .duration_since(std::time::UNIX_EPOCH)
        .unwrap()
        .as_secs();
    let response = login_user(&state, login("ada@example.com", "password1")).unwrap();
    let after = std::time::SystemTime::now()
        .duration_since(std::time::UNIX_EPOCH)
        .unwrap()
        .as_secs();
    let claims = claims_of(&response.token, "k");
    let exp = claims["exp"].as_u64().unwrap();
    assert!(before + 3600 <= exp && exp <= after + 3600);
    assert_eq!(claims["sub"].as_str().unwrap(), "00000000-0000-0000-0000-000000000009");
}

#[test]
fn login_with_malformed_stored_hash_is_an_internal_error() {
    let mut state = AppState::new("k".to_string());
    store_user(&mut state, 9, new_user("Ada", "ada@example.com", ""), "not a hash".to_string());
    let failed = login_user_at(&state, login("ada@example.com", "password1"), 0).unwrap_err();
    assert_eq!(failed.kind(), ErrorKind::InternalServerError);
    let failed = authenticate(&state, &login("ada@example.com", "password1")).unwrap_err();
    assert_eq!(failed.kind(), ErrorKind::InternalServerError);
}

#[test]
fn authenticate_returns_the_id_of_the_user() {
    let mut state = AppState::new("k".to_string());
    store_user(
        &mut state,
        9,
        new_user("Ada", "ada@example.com", ""),
        bcrypt::hash("password1", 4).unwrap(),
    );
    assert_eq!(authenticate(&state, &login("Ada@example.com", "password1")).unwrap(), 9);
    let refused = authenticate(&state, &login("Ada@example.com", "Password1")).unwrap_err();
    assert_eq!(refused.kind(), ErrorKind::Unauthorized);
    assert_eq!(refused.message(), "Invalid credentials");
}

#[test]
fn token_differs_with_secret_subject_and_time() {
    let mut state = AppState::new("one".to_string());
    store_user(&mut state, 1, new_user("A", "a@example.com", ""), "h".to_string());
    store_user(&mut state, 2, new_user("B", "b@example.com", ""), "h".to_string());
    let base = issue_token(&state, 1, 100).unwrap().token;
    assert_eq!(issue_token(&state, 1, 100).unwrap().token, base);
    assert_ne!(issue_token(&state, 2, 100).unwrap().token, base);
    assert_ne!(issue_token(&state, 1, 101).unwrap().token, base);
    state.jwt_secret = "two".to_string();
    assert_ne!(issue_token(&state, 1, 100).unwrap().token, base);
    assert_eq!(issue_token(&state, 1, 100).unwrap().user.email, "a@example.com");
}

#[test]
fn claims_expire_exactly_an_hour_after_issuance() {
    assert_eq!(TOKEN_TTL_SECONDS, 3600);
    let claims = issue_claims("subject".to_string(), 1000);
    assert_eq!(claims.sub, "subject");
    assert_eq!(claims.exp, 4600);
    let claims = issue_claims(String::new(), 0);
    assert_eq!(claims.exp, 3600);
}

#[test]
fn outcomes_of_the_outside_answers() {
    assert!(credentials_outcome(Ok(true)).is_ok());
    match credentials_outcome(Ok(false)) {
        Err(AppError::Unauthorized(message)) => assert_eq!(message, "Invalid credentials"),
        other => panic!("unexpected result: {:?}", other),
    }
    match credentials_outcome(Err("broken".to_string())) {
        Err(AppError::InternalServerError(message)) => assert_eq!(message, "broken"),
        other => panic!("unexpected result: {:?}", other),
    }
    let mut state = AppState::new(String::new());
    let profile = store_user(&mut state, 1, new_user("A", "a@example.com", ""), "h".to_string());
    let response = auth_response(Ok("token".to_string()), profile.clone()).unwrap();
    assert_eq!(response.token, "token");
    assert_eq!(response.user.id, 1);
    match auth_response(Err("no key".to_string()), profile) {
        Err(AppError::InternalServerError(message)) => assert_eq!(message, "no key"),
        other => panic!("unexpected result: {:?}", other),
    }
}

#[test]
fn profile_of_known_and_unknown_user() {
    let mut state = AppState::new(String::new());
    store_user(&mut state, 1, new_user("Ada", "ada@example.com", ""), "h".to_string());
    state.users.get_mut(&1).unwrap().progress.push(CourseProgress {
        course_id: 1,
        completed_modules: vec![2],
        total_modules: 2,
    });
    let profile = get_user_profile(&state, 1).unwrap();
    assert_eq!(profile.id, 1);
    assert_eq!(profile.name, "Ada");
    assert_eq!(profile.email, "ada@example.com");
    assert_eq!(profile.role, UserRole::Student);
    assert_eq!(profile.progress.len(), 1);
    assert_eq!(profile.progress[0].completed_modules, vec![2]);
    match get_user_profile(&state, 2) {
        Err(AppError::NotFound(message)) => assert_eq!(message, "User not found"),
        other => panic!("unexpected result: {:?}", other),
    }
}

#[test]
fn update_profile_with_empty_name_changes_nothing() {
    let mut state = AppState::new(String::new());
    store_user(&mut state, 1, new_user("Ada", "ada@example.com", ""), "h".to_string());
    for blank in ["", " ", "\t \n"] {
        let refused = update_user_profile(
            &mut state,
            1,
            UpdateUser { name: Some(blank.to_string()), password: Some("new password".to_string()) },
        );
        match refused {
            Err(AppError::BadRequest(message)) => assert_eq!(message, "Name cannot be empty"),
            other => panic!("unexpected result: {:?}", other),
        }
        assert_eq!(state.users.get(&1).unwrap().name, "Ada");
        assert_eq!(state.users.get(&1).unwrap().password_hash, "h");
    }
}

#[test]
fn update_profile_of_unknown_user_is_not_found() {
    let mut state = AppState::new(String::new());
    let missing =
        update_user_profile(&mut state, 1, UpdateUser { name: Some(String::new()), password: None });
    match missing {
        Err(AppError::NotFound(message)) => assert_eq!(message, "User not found"),
        other => panic!("unexpected result: {:?}", other),
    }
    assert!(state.users.is_empty());
}

#[test]
fn update_profile_writes_name_and_password() {
    let mut state = AppState::new(String::new());
    store_user(&mut state, 1, new_user("Ada", "ada@example.com", ""), "h".to_string());
    let profile =
        update_user_profile(&mut state, 1, UpdateUser { name: Some("Ada L.".to_string()), password: None })
            .unwrap();
    assert_eq!(profile.name, "Ada L.");
    assert_eq!(profile.email, "ada@example.com");
    assert_eq!(state.users.get(&1).unwrap().password_hash, "h");
    let profile = update_user_profile(
        &mut state,
        1,
        UpdateUser { name: None, password: Some("new password".to_string()) },
    )
    .unwrap();
    assert_eq!(profile.name, "Ada L.");
    let stored = state.users.get(&1).unwrap();
    assert_eq!(stored.name, "Ada L.");
    assert!(bcrypt::verify("new password", &stored.password_hash).unwrap());
    assert_eq!(state.users.len(), 1);
}

#[test]
fn update_profile_with_weak_password_keeps_the_hash() {
    let mut state = AppState::new(String::new());
    store_user(&mut state, 1, new_user("Ada", "ada@example.com", ""), "h".to_string());
    let refused = update_user_profile(
        &mut state,
        1,
        UpdateUser { name: Some("Grace".to_string()), password: Some("1234567".to_string()) },
    );
    match refused {
        Err(AppError::BadRequest(message)) => {
            assert_eq!(message, "Password must be at least 8 characters long")
        }
        other => panic!("unexpected result: {:?}", other),
    }
    let stored = state.users.get(&1).unwrap();
    assert_eq!(stored.password_hash, "h");
    assert_eq!(stored.name, "Grace");
}

#[test]
fn apply_profile_update_writes_what_is_given() {
    let mut state = AppState::new(String::new());
    store_user(&mut state, 1, new_user("Ada", "ada@example.com", ""), "h".to_string());
    let profile = apply_profile_update(&mut state, 1, None, Some("h2".to_string()));
    assert_eq!(profile.name, "Ada");
    assert_eq!(state.users.get(&1).unwrap().password_hash, "h2");
    let profile = apply_profile_update(&mut state, 1, Some("Eve".to_string()), None);
    assert_eq!(profile.name, "Eve");
    assert_eq!(state.users.get(&1).unwrap().password_hash, "h2");
    assert_eq!(state.users.get(&1).unwrap().email, "ada@example.com");
}

#[test]
fn store_user_replaces_a_user_with_the_same_id() {
    let mut state = AppState::new(String::new());
    store_user(&mut state, 1, new_user("Ada", "ada@example.com", ""), "h".to_string());
    let profile = store_user(&mut state, 1, new_user("Eve", "eve@example.com", ""), "g".to_string());
    assert_eq!(profile.name, "Eve");
    assert_eq!(state.users.len(), 1);
    assert_eq!(state.users.get(&1).unwrap().email, "eve@example.com");
    assert_eq!(state.user_ids(), vec![1]);
}

#[test]
fn login_past_the_last_hour_of_the_clock() {
    let mut state = AppState::new("k".to_string());
    store_user(
        &mut state,
        9,
        new_user("Ada", "ada@example.com", ""),
        bcrypt::hash("password1", 4).unwrap(),
    );
    for late in [usize::MAX, usize::MAX - 3599] {
        match login_user_at(&state, login("ada@example.com", "password1"), late) {
            Err(AppError::InternalServerError(message)) => {
                assert_eq!(message, "Clock out of range")
            }
            other => panic!("unexpected result: {:?}", other),
        }
        let refused =
            login_user_at(&state, login("ada@example.com", "password2"), late).unwrap_err();
        assert_eq!(refused.kind(), ErrorKind::Unauthorized);
        assert_eq!(refused.message(), "Invalid credentials");
        let unknown =
            login_user_at(&state, login("eve@example.com", "password1"), late).unwrap_err();
        assert_eq!(unknown.kind(), ErrorKind::Unauthorized);
        assert_eq!(unknown.message(), "Invalid credentials");
    }
    let last = usize::MAX - 3600;
    let response = login_user_at(&state, login("ada@example.com", "password1"), last).unwrap();
    assert_eq!(claims_of(&response.token, "k")["exp"].as_u64().unwrap(), u64::MAX);
}

#[test]
fn store_fresh_user_refuses_an_id_in_use() {
    let mut state = AppState::new(String::new());
    let first =
        store_fresh_user(&mut state, 1, new_user("Ada", "ada@example.com", ""), "h".to_string())
            .unwrap();
    assert_eq!(first.id, 1);
    assert_eq!(first.name, "Ada");
    match store_fresh_user(&mut state, 1, new_user("Eve", "eve@example.com", ""), "g".to_string())
    {
        Err(AppError::InternalServerError(message)) => {
            assert_eq!(message, "Identifier already in use")
        }
        other => panic!("unexpected result: {:?}", other),
    }
    assert_eq!(state.users.len(), 1);
    assert_eq!(state.users.get(&1).unwrap().email, "ada@example.com");
    assert_eq!(state.users.get(&1).unwrap().password_hash, "h");
    let second =
        store_fresh_user(&mut state, 2, new_user("Eve", "eve@example.com", ""), "g".to_string())
            .unwrap();
    assert_eq!(second.id, 2);
    assert_eq!(state.users.len(), 2);
}

#[test]
fn three_registrations_make_three_users() {
    let mut state = AppState::new(String::new());
    let mut ids = Vec::new();
    for email in ["a@example.com", "b@example.com", "c@example.com"] {
        let profile = register_user(&mut state, new_user("N", email, "password1")).unwrap();
        assert!(!ids.contains(&profile.id));
        ids.push(profile.id);
    }
    assert_eq!(state.users.len(), 3);
}

#[test]
fn hashing_outcome_hands_on_hash_or_failure() {
    assert_eq!(hashing_outcome(Ok("$2b$hash".to_string())).unwrap(), "$2b$hash");
    match hashing_outcome(Err("no random bytes".to_string())) {
        Err(AppError::InternalServerError(message)) => assert_eq!(message, "no random bytes"),
        other => panic!("unexpected result: {:?}", other),
    }
    let hash = hash_password("password1").unwrap();
    assert_ne!(hash, "password1");
    assert!(bcrypt::verify("password1", &hash).unwrap());
}

#[test]
fn validate_token_reads_back_what_login_signed() {
    let mut state = AppState::new("top secret".to_string());
    store_user(&mut state, 9, new_user("Ada", "ada@example.com", ""), "h".to_string());
    let now = std::time::SystemTime::now()
        .duration_since(std::time::UNIX_EPOCH)
        .unwrap()
        .as_secs() as usize;
    let token = issue_token(&state, 9, now).unwrap().token;
    let claims = validate_token(&state, &token).unwrap();
    assert_eq!(claims.sub, "00000000-0000-0000-0000-000000000009");
    assert_eq!(claims.exp, now + 3600);

    let expired = issue_token(&state, 9, 0).unwrap().token;
    assert_eq!(validate_token(&state, &expired).unwrap_err().kind(), ErrorKind::Unauthorized);
    assert_eq!(validate_token(&state, "not.a.token").unwrap_err().kind(), ErrorKind::Unauthorized);
    assert_eq!(validate_token(&state, "").unwrap_err().kind(), ErrorKind::Unauthorized);
    state.jwt_secret = "another".to_string();
    assert_eq!(validate_token(&state, &token).unwrap_err().kind(), ErrorKind::Unauthorized);
}

#[test]
fn claims_outcome_needs_subject_and_expiry() {
    let claims = claims_outcome(Ok((Some("s".to_string()), Some(77)))).unwrap();
    assert_eq!(claims.sub, "s");
    assert_eq!(claims.exp, 77);
    for lacking in [(None, Some(77)), (Some("s".to_string()), None), (None, None)] {
        match claims_outcome(Ok(lacking)) {
            Err(AppError::Unauthorized(message)) => assert_eq!(message, "Invalid token claims"),
            other => panic!("unexpected result: {:?}", other),
        }
    }
    match claims_outcome(Err("ExpiredSignature".to_string())) {
        Err(AppError::Unauthorized(message)) => assert_eq!(message, "ExpiredSignature"),
        other => panic!("unexpected result: {:?}", other),
    }
}

#[test]
fn token_subject_is_the_hyphenated_id() {
    let mut state = AppState::new("k".to_string());
    let id: u128 = 0x0123_4567_89ab_cdef_0123_4567_89ab_cdef;
    store_user(&mut state, id, new_user("Ada", "ada@example.com", ""), "h".to_string());
    store_user(&mut state, u128::MAX, new_user("Eve", "eve@example.com", ""), "h".to_string());
    let token = issue_token(&state, id, 10).unwrap().token;
    assert_eq!(
        claims_of(&token, "k")["sub"].as_str().unwrap(),
        "01234567-89ab-cdef-0123-456789abcdef"
    );
    let token = issue_token(&state, u128::MAX, 10).unwrap().token;
    assert_eq!(
        claims_of(&token, "k")["sub"].as_str().unwrap(),
        "ffffffff-ffff-ffff-ffff-ffffffffffff"
    );
}
