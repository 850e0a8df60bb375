use totp_multiplatform_module::TotpError;
use totp_multiplatform_module::totp::{generate_code, get_pin_number};

const SECRET: &[u8] = b"12345678901234567890";

/// An independently implemented RFC 6238 reference for the same parameters.
fn reference_code(digits: u8, step_seconds: u64, secret: &[u8], time: u64) -> String {
    let reference = totp_rs::Builder::new()
        .with_algorithm(totp_rs::Algorithm::SHA1)
        .with_digits(digits)
        .with_step_duration(step_seconds)
        .with_secret(secret.to_vec())
        .build()
        .unwrap();
    format!("{}", reference.generate(time))
}

fn unix_now() -> u64 {
    std::time::SystemTime::now()
        .duration_since(std::time::UNIX_EPOCH)
        .unwrap()
        .as_secs()
}

#[test]
fn otp_works() {
    let result = get_pin_number(6, 3, 30, "12345678901234567890".to_string()).unwrap();
    println!("OTP {}", result);
    assert_eq!(result.len(), 6);
}

#[test]
fn known_vector_matches_reference() {
    let now = unix_now();
    let counter = now / 30;
    let at_bucket_start = counter * 30;
    let ours = generate_code(6, 3, 30, SECRET, at_bucket_start).unwrap();
    assert_eq!(ours, reference_code(6, 30, SECRET, at_bucket_start));
    let ours_now = generate_code(6, 3, 30, SECRET, now).unwrap();
    assert_eq!(ours_now, reference_code(6, 30, SECRET, now));
}

#[test]
fn rfc_vectors_exact() {
    assert_eq!(generate_code(6, 3, 30, SECRET, 0).unwrap(), "755224");
    assert_eq!(generate_code(6, 3, 30, SECRET, 59).unwrap(), "287082");
    assert_eq!(generate_code(8, 3, 30, SECRET, 59).unwrap(), "94287082");
    assert_eq!(generate_code(8, 3, 30, SECRET, 1111111109).unwrap(), "07081804");
    assert_eq!(generate_code(8, 3, 30, SECRET, 2000000000).unwrap(), "69279037");
}

#[test]
fn same_bucket_same_code() {
    let first = generate_code(6, 3, 30, SECRET, 990).unwrap();
    let again = generate_code(6, 3, 30, SECRET, 1005).unwrap();
    assert_eq!(first, again);
}

#[test]
fn bucket_change() {
    let second_0 = generate_code(6, 3, 30, SECRET, 990).unwrap();
    let second_29 = generate_code(6, 3, 30, SECRET, 990 + 29).unwrap();
    let second_31 = generate_code(6, 3, 30, SECRET, 990 + 31).unwrap();
    assert_eq!(second_0, second_29);
    assert_ne!(second_0, second_31);
}

#[test]
fn length_invariant() {
    for digits in 1usize..=10 {
        let code = generate_code(digits, 0, 30, SECRET, 1234567890).unwrap();
        assert_eq!(code.len(), digits);
    }
}

#[test]
fn digits_only() {
    for digits in 1usize..=10 {
        let code = generate_code(digits, 0, 60, SECRET, 987654321).unwrap();
        assert!(code.chars().all(|c| c.is_ascii_digit()));
    }
}

#[test]
fn leading_zeros_kept() {
    // HOTP counter 2 for this secret truncates to 137359152, which has nine
    // digits, so its ten-digit rendering needs a leading zero.
    let padded = generate_code(10, 0, 30, SECRET, 2 * 30).unwrap();
    assert_eq!(padded, "0137359152");
    let short = generate_code(6, 0, 30, SECRET, 2 * 30).unwrap();
    assert_eq!(short, "359152");
}

#[test]
fn invalid_digit_count_rejected() {
    assert_eq!(
        generate_code(0, 3, 30, SECRET, 59),
        Err(TotpError::InvalidParameters)
    );
    assert_eq!(
        generate_code(11, 3, 30, SECRET, 59),
        Err(TotpError::InvalidParameters)
    );
    assert_eq!(
        get_pin_number(0, 3, 30, "12345678901234567890".to_string()),
        Err(TotpError::InvalidParameters)
    );
}

#[test]
fn invalid_time_step_rejected() {
    assert_eq!(
        generate_code(6, 3, 0, SECRET, 59),
        Err(TotpError::InvalidParameters)
    );
    assert_eq!(
        get_pin_number(6, 3, 0, "12345678901234567890".to_string()),
        Err(TotpError::InvalidParameters)
    );
}

#[test]
fn empty_secret_rejected() {
    assert_eq!(generate_code(6, 3, 30, b"", 59), Err(TotpError::InvalidSecret));
    assert_eq!(
        get_pin_number(6, 3, 30, String::new()),
        Err(TotpError::InvalidSecret)
    );
}

#[test]
fn text_and_raw_secret_agree() {
    // The current instant may cross a bucket boundary between the two calls,
    // so the text-keyed result must match the raw-keyed code of one of the
    // two instants read around it.
    let before = unix_now();
    let via_text = get_pin_number(6, 3, 30, "12345678901234567890".to_string()).unwrap();
    let after = unix_now();
    let raw_before = generate_code(6, 3, 30, SECRET, before).unwrap();
    let raw_after = generate_code(6, 3, 30, SECRET, after).unwrap();
    assert!(via_text == raw_before || via_text == raw_after);
}
