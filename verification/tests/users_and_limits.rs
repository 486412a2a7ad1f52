use game_catalog::common::create_user_from_request;
use game_catalog::common::CreateUserRequest as CommonCreateUserRequest;
use game_catalog::common::ServiceError;
use game_catalog::common::UserRole;
use game_catalog::ratelimit::RateLimiter;
use game_catalog::users::datetime_to_timestamp;
use game_catalog::users::hash_password;
use game_catalog::users::user_service_error_to_status;
use game_catalog::users::UserServiceError;
use game_catalog::validation::validate_create_user_request;
use game_catalog::validation::validate_email;
use game_catalog::validation::validate_password;
use game_catalog::validation::validate_update_user_request;
use game_catalog::validation::validate_username;
use game_catalog::validation::CreateUserRequest;
use game_catalog::validation::UpdateUserRequest;
use regex::Regex;

#[test]
fn email_accepts_well_formed_addresses() {
    for good in [
        "user@example.com",
        "a@b.co",
        "first.last+tag%x@sub.domain-name.org",
        "UPPER@CASE.COM",
        "1@2.ab",
    ] {
        assert!(validate_email(good).is_ok(), "{} should pass", good);
    }
}

#[test]
fn email_rejects_malformed_addresses() {
    for bad in [
        "",
        "plain",
        "@example.com",
        "user@",
        "user@com",
        "user@.com",
        "user@ex.c",
        "user@ex.c0m",
        "us er@ex.com",
        "user@@ex.com",
        "user@ex.com.",
        "user@ex_ample.com",
    ] {
        let r = validate_email(bad);
        assert!(r.is_err(), "{} should fail", bad);
        assert_eq!(r.unwrap_err(), "Invalid email format");
    }
}

#[test]
fn email_agrees_with_the_reference_pattern() {
    let re = Regex::new(r"^[a-zA-Z0-9._%+-]+@[a-zA-Z0-9.-]+\.[a-zA-Z]{2,}$").unwrap();
    let samples = [
        "user@example.com",
        "a@b.co",
        "first.last+tag%x@sub.domain-name.org",
        "user@ex.c",
        "user@.com",
        "@example.com",
        "user@com",
        "us er@ex.com",
        "user@@ex.com",
        "user@ex.com.",
        "x-y_z%9@a-b.c-d.info",
        "dot.only@...ab",
        "tld.digit@ex.a1",
    ];
    for s in samples {
        assert_eq!(
            validate_email(s).is_ok(),
            re.is_match(s),
            "disagreement on {:?}",
            s
        );
    }
}

#[test]
fn password_rules() {
    assert!(validate_password("abcdefgh").is_ok());
    assert_eq!(
        validate_password("short").unwrap_err(),
        "Password must be at least 8 characters"
    );
    assert_eq!(
        validate_password("abcdefg!").unwrap_err(),
        "Password contains forbidden characters"
    );
    assert!(validate_password("with space ok").is_ok());
    assert_eq!(
        validate_password("dotted.pw").unwrap_err(),
        "Password contains forbidden characters"
    );
}

#[test]
fn username_rules() {
    assert!(validate_username("bob").is_ok());
    assert!(validate_username("bob_the_builder_99").is_ok());
    assert_eq!(
        validate_username("ab").unwrap_err(),
        "Username must be between 3 and 30 characters"
    );
    assert_eq!(
        validate_username("x".repeat(31).as_str()).unwrap_err(),
        "Username must be between 3 and 30 characters"
    );
    assert_eq!(
        validate_username("bob smith").unwrap_err(),
        "Username can only contain letters, numbers and underscore"
    );
}

#[test]
fn create_request_checks_fields_in_order() {
    let good = CreateUserRequest {
        email: "user@example.com".to_string(),
        username: "user_1".to_string(),
        password: "longenough".to_string(),
        role: 1,
    };
    assert!(validate_create_user_request(&good).is_ok());
    let bad_email = CreateUserRequest { email: "nope".to_string(), ..clone_req(&good) };
    assert_eq!(
        validate_create_user_request(&bad_email).unwrap_err(),
        "Invalid email format"
    );
    let bad_password = CreateUserRequest { password: "short".to_string(), ..clone_req(&good) };
    assert_eq!(
        validate_create_user_request(&bad_password).unwrap_err(),
        "Password must be at least 8 characters"
    );
    let bad_username = CreateUserRequest { username: "ab".to_string(), ..clone_req(&good) };
    assert_eq!(
        validate_create_user_request(&bad_username).unwrap_err(),
        "Username must be between 3 and 30 characters"
    );
    // A long-enough password still fails on its character set, with the
    // character-set message, once the email has passed.
    let bad_chars = CreateUserRequest { password: "abcdefg!".to_string(), ..clone_req(&good) };
    assert_eq!(
        validate_create_user_request(&bad_chars).unwrap_err(),
        "Password contains forbidden characters"
    );
    let bad_user_chars = CreateUserRequest { username: "bob smith".to_string(), ..clone_req(&good) };
    assert_eq!(
        validate_create_user_request(&bad_user_chars).unwrap_err(),
        "Username can only contain letters, numbers and underscore"
    );
}

fn clone_req(r: &CreateUserRequest) -> CreateUserRequest {
    CreateUserRequest {
        email: r.email.clone(),
        username: r.username.clone(),
        password: r.password.clone(),
        role: r.role,
    }
}

#[test]
fn update_request_rules() {
    let noop = UpdateUserRequest {
        id: "abc".to_string(),
        email: Some(String::new()),
        username: None,
        password: Some(String::new()),
        role: Some(0),
    };
    assert_eq!(
        validate_update_user_request(&noop).unwrap_err(),
        "At least one field must be non-empty and role must not be 0"
    );
    let ok = UpdateUserRequest {
        id: "abc".to_string(),
        email: Some("user@example.com".to_string()),
        username: None,
        password: None,
        role: Some(0),
    };
    assert!(validate_update_user_request(&ok).is_ok());
    let empty_fields_other_role = UpdateUserRequest {
        id: "abc".to_string(),
        email: None,
        username: None,
        password: None,
        role: Some(2),
    };
    assert!(validate_update_user_request(&empty_fields_other_role).is_ok());
    let bad_inner = UpdateUserRequest {
        id: "abc".to_string(),
        email: Some("broken".to_string()),
        username: None,
        password: None,
        role: None,
    };
    assert_eq!(
        validate_update_user_request(&bad_inner).unwrap_err(),
        "Invalid email format"
    );
    let bad_password = UpdateUserRequest {
        id: "abc".to_string(),
        email: None,
        username: None,
        password: Some("short".to_string()),
        role: None,
    };
    assert_eq!(
        validate_update_user_request(&bad_password).unwrap_err(),
        "Password must be at least 8 characters"
    );
    let bad_username = UpdateUserRequest {
        id: "abc".to_string(),
        email: Some("user@example.com".to_string()),
        username: Some("no way".to_string()),
        password: None,
        role: None,
    };
    assert_eq!(
        validate_update_user_request(&bad_username).unwrap_err(),
        "Username can only contain letters, numbers and underscore"
    );
}

#[test]
fn password_hash_is_a_phc_string() {
    let h = hash_password("correct horse").expect("hashing should succeed");
    assert!(h.starts_with('$'));
    assert!(h.len() > 1);
    assert_ne!(h, "correct horse");
    // A fresh salt is drawn each call, so two hashes differ.
    let h2 = hash_password("correct horse").expect("hashing should succeed");
    assert_ne!(h, h2);
}

#[test]
fn user_from_request_copies_fields() {
    let u = create_user_from_request(CommonCreateUserRequest {
        email: "user@example.com".to_string(),
        username: "user_1".to_string(),
        role: UserRole::Developer,
    });
    assert_eq!(u.email, "user@example.com");
    assert_eq!(u.username, "user_1");
    assert!(matches!(u.role, UserRole::Developer));
}

#[test]
fn service_error_messages_render() {
    assert_eq!(
        ServiceError::NotFound("row".to_string()).message(),
        "Not found: row"
    );
    assert_eq!(
        ServiceError::BadRequest("field".to_string()).message(),
        "Bad request: field"
    );
    assert_eq!(
        ServiceError::InternalError("boom".to_string()).message(),
        "Internal error: boom"
    );
    assert_eq!(ServiceError::Unauthorized.message(), "Unauthorized");
}

#[test]
fn rate_limiter_enforces_the_window() {
    let mut rl = RateLimiter::new();
    assert!(rl.check_rate_limit("10.0.0.1", 2, 1000, 0));
    assert!(rl.check_rate_limit("10.0.0.1", 2, 1000, 100));
    assert!(!rl.check_rate_limit("10.0.0.1", 2, 1000, 200));
    // Another caller has its own budget.
    assert!(rl.check_rate_limit("10.0.0.2", 2, 1000, 200));
    // Once the early stamps leave the window, the caller may go again.
    assert!(rl.check_rate_limit("10.0.0.1", 2, 1000, 1500));
}

#[test]
fn rate_limiter_refusal_does_not_consume_budget() {
    let mut rl = RateLimiter::new();
    assert!(rl.check_rate_limit("a", 1, 1000, 0));
    assert!(!rl.check_rate_limit("a", 1, 1000, 1));
    assert!(!rl.check_rate_limit("a", 1, 1000, 2));
    // The refused attempts recorded nothing, so after the window only the
    // first stamp mattered.
    assert!(rl.check_rate_limit("a", 1, 1000, 1001));
}

#[test]
fn error_status_table() {
    let (c, m) = user_service_error_to_status(UserServiceError::UserNotFound);
    assert_eq!((c.as_str(), m.as_str()), ("not_found", "User not found"));
    let (c, m) = user_service_error_to_status(UserServiceError::InvalidUuid);
    assert_eq!((c.as_str(), m.as_str()), ("invalid_argument", "Invalid user ID format"));
    let (c, m) = user_service_error_to_status(UserServiceError::PasswordHash);
    assert_eq!((c.as_str(), m.as_str()), ("internal", "Password processing failed"));
    let (c, m) = user_service_error_to_status(UserServiceError::Database);
    assert_eq!(c.as_str(), "internal");
    let (c, m) = user_service_error_to_status(UserServiceError::ValidationError(
        "bad field".to_string(),
    ));
    assert_eq!((c.as_str(), m.as_str()), ("invalid_argument", "bad field"));
}

#[test]
fn millisecond_stamps_split_like_the_calendar_library() {
    for ms in [0i64, 1, 999, 1000, 1500, -1, -500, -1000, -1500, 1700000000123] {
        let (secs, nanos) = datetime_to_timestamp(ms);
        let dt = chrono::DateTime::from_timestamp_millis(ms).unwrap();
        assert_eq!(secs, dt.timestamp(), "seconds for {}", ms);
        assert_eq!(nanos, dt.timestamp_subsec_nanos(), "nanos for {}", ms);
    }
    assert_eq!(datetime_to_timestamp(1500), (1, 500_000_000));
    assert_eq!(datetime_to_timestamp(-500), (-1, 500_000_000));
}
