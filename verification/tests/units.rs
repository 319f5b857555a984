use gfret::units::Units;
use gfret::units::parse_units;

#[test]
fn units_metric_lower() {
    assert_eq!(parse_units("metric"), Some(Units::Metric));
}

#[test]
fn units_imperial_lower() {
    assert_eq!(parse_units("imperial"), Some(Units::Imperial));
}

#[test]
fn units_ignores_ascii_case() {
    assert_eq!(parse_units("Metric"), Some(Units::Metric));
    assert_eq!(parse_units("IMPERIAL"), Some(Units::Imperial));
    assert_eq!(parse_units("MeTrIc"), Some(Units::Metric));
}

#[test]
fn units_rejects_other_strings() {
    assert_eq!(parse_units(""), None);
    assert_eq!(parse_units("metri"), None);
    assert_eq!(parse_units("metrics"), None);
    assert_eq!(parse_units("inches"), None);
    assert_eq!(parse_units(" metric"), None);
}

#[test]
fn translations_always_succeeds() {
    assert!(gfret::translations().is_ok());
}
