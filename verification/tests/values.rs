use beltpack::errors::error_banner_text;
use beltpack::errors::ValueError;
use beltpack::values::OperatorName;
use beltpack::values::SignalPercent;

#[test]
fn operator_name_accepts_short_ascii() {
    for s in ["", "A", "Alice", "OP-42!", "abcdef"] {
        let name = OperatorName::new(s).unwrap();
        assert_eq!(name.as_text(), s);
    }
}

#[test]
fn operator_name_rejects_long_input() {
    assert_eq!(
        OperatorName::new("toolong").unwrap_err(),
        ValueError::InvalidInput
    );
    assert_eq!(
        OperatorName::new("1234567890").unwrap_err(),
        ValueError::InvalidInput
    );
}

#[test]
fn operator_name_rejects_non_ascii() {
    assert_eq!(
        OperatorName::new("héllo").unwrap_err(),
        ValueError::InvalidInput
    );
    assert_eq!(OperatorName::new("ß").unwrap_err(), ValueError::InvalidInput);
}

#[test]
fn signal_percent_round_trips_every_decimal() {
    for n in 0..=100u8 {
        let text = format!("{}", n);
        let p = SignalPercent::new(&text).unwrap();
        assert_eq!(p.value(), n);
        assert_eq!(p.display(), text);
        assert_eq!(p.label(), format!("{}%", n));
    }
}

#[test]
fn signal_percent_rejects_101_and_above() {
    for s in ["101", "110", "255", "1000", "99999999999999999999"] {
        assert_eq!(SignalPercent::new(s).unwrap_err(), ValueError::InvalidInput);
    }
}

#[test]
fn signal_percent_accepts_leading_zeros() {
    let p = SignalPercent::new("007").unwrap();
    assert_eq!(p.value(), 7);
    assert_eq!(p.display(), "7");
    let q = SignalPercent::new("0100").unwrap();
    assert_eq!(q.value(), 100);
    assert_eq!(q.display(), "100");
}

#[test]
fn signal_percent_rejects_non_numeric() {
    for s in ["", "abc", "5a", "-5", "+5", " 5", "5 "] {
        assert_eq!(SignalPercent::new(s).unwrap_err(), ValueError::InvalidInput);
    }
}

#[test]
fn error_banner_holds_prefix_and_description() {
    let err = ValueError::InvalidInput;
    assert_eq!(err.message(), "Invalid Input");
    assert_eq!(error_banner_text(&err.message()), "ERROR: Invalid Input");
    assert_eq!(error_banner_text("display gone"), "ERROR: display gone");
}
