use ssh_control::totp::{
    check_code, check_code_at, check_code_by, classify_code, codes_match, generate_secret_base32, otpauth_url,
    verify_enrollment, verify_enrollment_by, CodeCheck,
};

/// The code that an authenticator would show now.
fn current_code(secret: &str) -> String {
    totp_rs::TOTP::new(
        totp_rs::Algorithm::SHA1,
        6,
        1,
        30,
        totp_rs::Secret::Encoded(secret.to_string()).to_bytes().expect("base32"),
        Some("ssh-control".to_string()),
        "vault".to_string(),
    )
    .expect("valid secret should build a TOTP instance")
    .generate_current()
    .expect("system clock should be readable")
}

#[test]
fn generated_secret_round_trips_through_verify() {
    let secret = generate_secret_base32();
    assert!(matches!(check_code(&secret, &current_code(&secret), 0), CodeCheck::Accepted(_)));
}

#[test]
fn wrong_code_is_rejected() {
    let secret = generate_secret_base32();
    // Flip the first digit to guarantee a different, still 6-digit code.
    let mut bytes = current_code(&secret).into_bytes();
    bytes[0] = if bytes[0] == b'0' { b'1' } else { b'0' };
    let wrong = String::from_utf8(bytes).unwrap();

    assert_eq!(check_code(&secret, &wrong, 0), CodeCheck::Invalid);
}

#[test]
fn malformed_secret_is_rejected_not_panicking() {
    assert_eq!(check_code("not valid base32!!", "123456", 0), CodeCheck::Invalid);
}

#[test]
fn a_code_cannot_be_used_twice() {
    let secret = generate_secret_base32();
    let code = current_code(&secret);

    let CodeCheck::Accepted(step) = check_code(&secret, &code, 0) else {
        panic!("a fresh code should be accepted");
    };
    assert_eq!(check_code(&secret, &code, step), CodeCheck::Replayed);
}

#[test]
fn a_rejected_code_yields_no_step_to_store() {
    let secret = generate_secret_base32();
    assert!(matches!(check_code(&secret, "000000", 0), CodeCheck::Invalid | CodeCheck::Replayed));
    // The only variant carrying a step is `Accepted`.
    assert!(matches!(check_code(&secret, &current_code(&secret), 0), CodeCheck::Accepted(_)));
}

#[test]
fn an_older_step_is_treated_as_a_replay_not_a_fresh_code() {
    let secret = generate_secret_base32();
    let code = current_code(&secret);
    // Pretend a far newer step was already accepted, as it would be after a
    // clock jump backwards.
    assert_eq!(check_code(&secret, &code, u64::MAX), CodeCheck::Replayed);
}

#[test]
fn enrollment_accepts_a_live_code_without_replay_history() {
    let secret = generate_secret_base32();
    assert!(verify_enrollment(&secret, &current_code(&secret)));
    assert!(!verify_enrollment(&secret, "000000"));
}

#[test]
fn otpauth_url_contains_issuer_and_secret() {
    let secret = generate_secret_base32();
    let url = otpauth_url(&secret).expect("valid secret should produce a URL");
    assert!(url.starts_with("otpauth://totp/"));
    assert!(url.contains("ssh-control"));
}

#[test]
fn a_url_names_its_own_secret() {
    let url = otpauth_url("JBSWY3DPEHPK3PXPJBSWY3DPEHPK3PXP").expect("a URL");
    assert!(url.contains("secret=JBSWY3DPEHPK3PXPJBSWY3DPEHPK3PXP"));
    assert_eq!(otpauth_url("not valid base32!!"), None);
}

/// The published test secret, "12345678901234567890".
const KNOWN: &str = "GEZDGNBVGY3TQOJQGEZDGNBVGY3TQOJQ";

#[test]
fn the_codes_are_the_published_ones() {
    assert_eq!(check_code_at(KNOWN, "287082", 0, 59), CodeCheck::Accepted(1));
    assert_eq!(check_code_at(KNOWN, "081804", 0, 1_111_111_109), CodeCheck::Accepted(37_037_036));
    assert_eq!(check_code_at(KNOWN, "287082", 1, 59), CodeCheck::Replayed);
    assert_eq!(check_code_at(KNOWN, "287083", 0, 59), CodeCheck::Invalid);
}

#[test]
fn a_code_is_good_for_one_step_around_its_own() {
    assert_eq!(check_code_at(KNOWN, "287082", 0, 59 + 30), CodeCheck::Accepted(1));
    assert_eq!(check_code_at(KNOWN, "287082", 0, 59 + 61), CodeCheck::Invalid);
}

#[test]
fn the_newest_candidates_are_judged_against_the_last_step() {
    let candidates = vec![(4, "111111".to_string()), (5, "222222".to_string()), (6, "333333".to_string())];
    assert_eq!(classify_code(&candidates, "222222", 4), CodeCheck::Accepted(5));
    assert_eq!(classify_code(&candidates, "222222", 5), CodeCheck::Replayed);
    assert_eq!(classify_code(&candidates, "444444", 5), CodeCheck::Invalid);
}

#[test]
fn a_spent_code_stays_spent() {
    assert_eq!(check_code_at(KNOWN, "287082", 0, 59), CodeCheck::Accepted(1));
    for later in [30, 59, 60, 89] {
        assert_eq!(check_code_at(KNOWN, "287082", 1, later), CodeCheck::Replayed);
    }
    assert_eq!(check_code_at(KNOWN, "287082", 1, 90), CodeCheck::Invalid);
}

#[test]
fn every_reading_of_the_clock_has_its_judgement() {
    assert_eq!(check_code_by(KNOWN, "287082", 0, Some(59)), CodeCheck::Accepted(1));
    assert_eq!(check_code_by(KNOWN, "287082", 0, None), CodeCheck::Invalid);
    assert_eq!(check_code_by(KNOWN, "287082", 0, Some(u64::MAX)), CodeCheck::Invalid);
    assert!(verify_enrollment_by(KNOWN, "287082", Some(59)));
    assert!(!verify_enrollment_by(KNOWN, "287083", Some(59)));
    assert!(!verify_enrollment_by(KNOWN, "287082", None));
}

#[test]
fn codes_match_only_whole() {
    assert!(codes_match("123456", "123456"));
    assert!(!codes_match("123456", "123457"));
    assert!(!codes_match("123456", "12345"));
}
