use beltpack::diagnostic::DiagnosticCode;
use beltpack::errors::ValueError;

#[test]
fn diagnostic_code_accepts_base6_digits() {
    let c = DiagnosticCode::new("12-3").unwrap();
    assert_eq!(c.value(), 1 * 36 + 2 * 6 + 3);
}

#[test]
fn diagnostic_code_rejects_non_base6_digit() {
    assert_eq!(
        DiagnosticCode::new("12-6").unwrap_err(),
        ValueError::InvalidInput
    );
    assert_eq!(
        DiagnosticCode::new("92-3").unwrap_err(),
        ValueError::InvalidInput
    );
    assert_eq!(
        DiagnosticCode::new("1a-3").unwrap_err(),
        ValueError::InvalidInput
    );
    assert_eq!(
        DiagnosticCode::new("12-x").unwrap_err(),
        ValueError::InvalidInput
    );
}

#[test]
fn diagnostic_code_rejects_wrong_length() {
    for s in ["", "1", "12", "12-", "12-34", "012-3"] {
        assert_eq!(DiagnosticCode::new(s).unwrap_err(), ValueError::InvalidInput);
    }
}

#[test]
fn diagnostic_code_takes_any_single_byte_separator() {
    assert_eq!(DiagnosticCode::new("12x3").unwrap().value(), 51);
    assert_eq!(DiagnosticCode::new("1203").unwrap().value(), 51);
}

#[test]
fn encode_then_decode_is_not_a_round_trip() {
    // The three base-6 digits 1, 2, 3 encode to 1*36 + 2*6 + 3 = 51;
    // decoding 51 recovers the digits 1, 2, 3 but the display keeps
    // only the first two of them.
    let c = DiagnosticCode::new("12-3").unwrap();
    assert_eq!(c.value(), 51);
    assert_eq!(c.display(), "12");
    assert_ne!(c.display(), "123");
}

#[test]
fn diagnostic_display_keeps_short_codes_whole() {
    // Codes below 36 decode to fewer than three base-6 digits, so
    // nothing is cut off.
    assert_eq!(DiagnosticCode::new("00-0").unwrap().display(), "0");
    assert_eq!(DiagnosticCode::new("00-5").unwrap().display(), "5");
    assert_eq!(DiagnosticCode::new("01-1").unwrap().display(), "11");
    assert_eq!(DiagnosticCode::new("05-5").unwrap().display(), "55");
    assert_eq!(DiagnosticCode::new("55-5").unwrap().display(), "55");
}
