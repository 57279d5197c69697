use woodforge::units::{parse_dimension_text, DimensionText, InchesText};

fn decimal(t: &InchesText) -> &str {
    match t {
        InchesText::Decimal(d) => d,
        _ => panic!("expected a plain number"),
    }
}

fn mixed(t: &InchesText) -> (&str, &str, &str) {
    match t {
        InchesText::Mixed(w, n, d) => (w, n, d),
        _ => panic!("expected a whole number and a fraction"),
    }
}

fn inches(input: &str) -> InchesText {
    match parse_dimension_text(input) {
        Some(DimensionText::Inches(i)) => i,
        _ => panic!("expected inches"),
    }
}

#[test]
fn test_parse_empty() {
    assert!(parse_dimension_text("").is_none());
    assert!(parse_dimension_text("  ").is_none());
}

#[test]
fn decimal_inches_with_and_without_marks() {
    assert_eq!(decimal(&inches("3.5")), "3.5");
    assert_eq!(decimal(&inches("3.5\"")), "3.5");
    assert_eq!(decimal(&inches("  3.5\"\"  ")), "3.5");
}

#[test]
fn fractional_inches() {
    assert_eq!(mixed(&inches("3-1/2\"")), ("3", "1", "2"));
    assert_eq!(mixed(&inches("3 - 1 / 2")), ("3", "1", "2"));
    match inches("1/2\"") {
        InchesText::Fraction(n, d) => assert_eq!((n.as_str(), d.as_str()), ("1", "2")),
        _ => panic!("expected a fraction"),
    }
    // A `/` only before the `-` leaves no fraction after it.
    assert!(matches!(inches("1/2-3"), InchesText::Malformed));
}

#[test]
fn feet_and_inches() {
    match parse_dimension_text("8'") {
        Some(DimensionText::FeetInches(f, None)) => assert_eq!(f, "8"),
        _ => panic!("expected feet"),
    }
    match parse_dimension_text("8' 6\"") {
        Some(DimensionText::FeetInches(f, Some(i))) => {
            assert_eq!(f, "8");
            assert_eq!(decimal(&i), "6");
        }
        _ => panic!("expected feet and inches"),
    }
    match parse_dimension_text("2ft 6-1/4in") {
        Some(DimensionText::FeetInches(f, Some(i))) => {
            assert_eq!(f, "2");
            assert_eq!(mixed(&i), ("6", "1", "4"));
        }
        _ => panic!("expected feet and inches"),
    }
    // Only the text up to a second mark counts as inches.
    match parse_dimension_text("8'6'7") {
        Some(DimensionText::FeetInches(f, Some(i))) => {
            assert_eq!(f, "8");
            assert_eq!(decimal(&i), "6");
        }
        _ => panic!("expected feet and inches"),
    }
}

#[test]
fn metric_lengths() {
    match parse_dimension_text("88.9mm") {
        Some(DimensionText::Millimeters(t)) => assert_eq!(t, "88.9"),
        _ => panic!("expected millimeters"),
    }
    match parse_dimension_text(" 2.5 m ") {
        Some(DimensionText::Meters(t)) => assert_eq!(t, "2.5"),
        _ => panic!("expected meters"),
    }
    match parse_dimension_text("mm") {
        Some(DimensionText::Millimeters(t)) => assert_eq!(t, ""),
        _ => panic!("expected millimeters"),
    }
}
