use cam_manager::security::{
    is_valid_email, keeps, password_verdict, sanitize_input, validate_password_strength,
    AuditLog, RateLimiter,
};

#[test]
fn sanitize_keeps_letters_numbers_space_and_four_marks() {
    assert_eq!(sanitize_input("hello world"), "hello world");
    assert_eq!(sanitize_input("user@example.com"), "user@example.com");
    assert_eq!(sanitize_input("a-b_c.d"), "a-b_c.d");
    assert_eq!(sanitize_input("Cámara 12"), "Cámara 12");
    assert_eq!(sanitize_input("tab\tand\nline"), "tab\tand\nline");
}

#[test]
fn sanitize_drops_everything_else() {
    assert_eq!(sanitize_input("<script>alert('x')</script>"), "scriptalertxscript");
    assert_eq!(sanitize_input("'; DROP TABLE users; --"), " DROP TABLE users --");
    assert_eq!(sanitize_input("a/b\\c"), "abc");
    assert_eq!(sanitize_input("!#$%^&*()+="), "");
    assert_eq!(sanitize_input(""), "");
}

#[test]
fn keeps_goes_by_the_properties_and_the_four_marks() {
    assert!(keeps('a', true, false));
    assert!(keeps(' ', false, true));
    assert!(keeps('-', false, false));
    assert!(keeps('_', false, false));
    assert!(keeps('@', false, false));
    assert!(keeps('.', false, false));
    assert!(!keeps('<', false, false));
    assert!(!keeps(';', false, false));
}

#[test]
fn email_needs_at_dot_and_six_bytes() {
    assert!(is_valid_email("user@example.com"));
    assert!(is_valid_email("a@b.cd"));
    assert!(!is_valid_email("a@b.c"));
    assert!(!is_valid_email("userexample.com"));
    assert!(!is_valid_email("user@examplecom"));
    assert!(!is_valid_email(""));
    assert!(is_valid_email("@....."));
    assert!(is_valid_email("ñ@b.c"));
}

#[test]
fn password_must_have_eight_bytes() {
    assert_eq!(
        validate_password_strength("Ab1"),
        Err("La contraseña debe tener al menos 8 caracteres".to_string())
    );
    assert_eq!(
        validate_password_strength(""),
        Err("La contraseña debe tener al menos 8 caracteres".to_string())
    );
    assert_eq!(
        validate_password_strength("Abcde1x"),
        Err("La contraseña debe tener al menos 8 caracteres".to_string())
    );
}

#[test]
fn password_must_mix_cases_and_numbers() {
    let plain = Err("La contraseña debe contener mayúsculas, minúsculas y números".to_string());
    assert_eq!(validate_password_strength("abcdefgh1"), plain);
    assert_eq!(validate_password_strength("ABCDEFGH1"), plain);
    assert_eq!(validate_password_strength("Abcdefghi"), plain);
    assert_eq!(validate_password_strength("12345678"), plain);
}

#[test]
fn strong_password_passes() {
    assert_eq!(validate_password_strength("Abcdefg1"), Ok(()));
    assert_eq!(validate_password_strength("S3guridad!"), Ok(()));
    assert_eq!(validate_password_strength("ñÑ1ñÑ"), Ok(()));
}

#[test]
fn verdict_goes_by_length_first() {
    assert_eq!(
        password_verdict(7, true, true, true),
        Err("La contraseña debe tener al menos 8 caracteres".to_string())
    );
    assert_eq!(
        password_verdict(7, false, false, false),
        Err("La contraseña debe tener al menos 8 caracteres".to_string())
    );
    assert_eq!(
        password_verdict(8, true, true, false),
        Err("La contraseña debe contener mayúsculas, minúsculas y números".to_string())
    );
    assert_eq!(password_verdict(8, true, true, true), Ok(()));
}

#[test]
fn limiter_lets_through_up_to_the_maximum() {
    let second: u64 = 1_000_000_000;
    let mut limiter = RateLimiter::new(3, 60);
    assert!(limiter.check_rate_limit("10.0.0.1", 0));
    assert!(limiter.check_rate_limit("10.0.0.1", second));
    assert!(limiter.check_rate_limit("10.0.0.1", 2 * second));
    assert!(!limiter.check_rate_limit("10.0.0.1", 3 * second));
    assert!(!limiter.check_rate_limit("10.0.0.1", 59 * second));
    // another key has its own count
    assert!(limiter.check_rate_limit("10.0.0.2", 3 * second));
    // the first request leaves the window after exactly 60 seconds
    assert!(!limiter.check_rate_limit("10.0.0.1", 60 * second - 1));
    assert!(limiter.check_rate_limit("10.0.0.1", 60 * second));
    assert!(!limiter.check_rate_limit("10.0.0.1", 60 * second));
    assert!(limiter.check_rate_limit("10.0.0.1", 61 * second));
}

#[test]
fn limiter_refusals_are_not_recorded() {
    let second: u64 = 1_000_000_000;
    let mut limiter = RateLimiter::new(1, 10);
    assert!(limiter.check_rate_limit("k", 0));
    for s in 1..10 {
        assert!(!limiter.check_rate_limit("k", s * second));
    }
    assert!(limiter.check_rate_limit("k", 10 * second));
}

#[test]
fn limiter_edge_settings() {
    let mut none = RateLimiter::new(0, 60);
    assert!(!none.check_rate_limit("k", 0));
    let mut no_window = RateLimiter::new(1, 0);
    assert!(no_window.check_rate_limit("k", 5));
    assert!(no_window.check_rate_limit("k", 5));
    let mut forever = RateLimiter::new(1, u64::MAX);
    assert!(forever.check_rate_limit("k", 0));
    assert!(!forever.check_rate_limit("k", u64::MAX));
    // a request stamped later than now counts as made now
    let mut back = RateLimiter::new(1, 1);
    assert!(back.check_rate_limit("k", 5_000_000_000));
    assert!(!back.check_rate_limit("k", 1));
}

#[test]
fn audit_entry_holds_what_it_is_given() {
    let entry = AuditLog::new_at("ana", "CREATE_USER", "user/3", "system", "success", "t".to_string());
    assert_eq!(
        entry,
        AuditLog {
            timestamp: "t".to_string(),
            user: "ana".to_string(),
            action: "CREATE_USER".to_string(),
            resource: "user/3".to_string(),
            ip_address: "system".to_string(),
            status: "success".to_string(),
        }
    );
    let now = AuditLog::new("ana", "LOGIN", "session", "10.0.0.1", "failure");
    assert_eq!(now.user, "ana");
    assert_eq!(now.action, "LOGIN");
    assert_eq!(now.resource, "session");
    assert_eq!(now.ip_address, "10.0.0.1");
    assert_eq!(now.status, "failure");
    assert!(now.timestamp.starts_with("20"));
    assert!(now.timestamp.ends_with('Z'));
    assert_eq!(&now.timestamp[10..11], "T");
}
