use music_library::utils::{format_duration, hash_password, verify_password};

#[test]
fn format_duration_writes_minutes_and_padded_seconds() {
    assert_eq!(format_duration(0), "0:00");
    assert_eq!(format_duration(5), "0:05");
    assert_eq!(format_duration(59), "0:59");
    assert_eq!(format_duration(60), "1:00");
    assert_eq!(format_duration(185), "3:05");
    assert_eq!(format_duration(3600), "60:00");
    assert_eq!(format_duration(i32::MAX), "35791394:07");
}

#[test]
fn format_duration_of_negative_seconds_rounds_toward_zero() {
    assert_eq!(format_duration(-5), "0:-5");
    assert_eq!(format_duration(-30), "0:-30");
    assert_eq!(format_duration(-90), "-1:-30");
    assert_eq!(format_duration(i32::MIN), "-35791394:-8");
}

#[test]
fn hashed_password_verifies_and_another_does_not() {
    let hash = hash_password("correct horse").unwrap();
    assert_ne!(hash, "correct horse");
    assert_eq!(verify_password("correct horse", &hash), Ok(true));
    assert_eq!(verify_password("battery staple", &hash), Ok(false));
}
