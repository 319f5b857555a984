use gfret::color::Rgba;
use gfret::settings::ParseErrorKind;
use gfret::settings::SettingsStore;
use gfret::units::Units;

fn valid_store() -> SettingsStore {
    SettingsStore {
        units: "metric".to_string(),
        border_width: 2.5f64.to_bits(),
        line_weight: 1.0f64.to_bits(),
        fretline_color: "#ffffff".to_string(),
        fretboard_color: "rgb(10, 20, 30)".to_string(),
        centerline_color: "blue".to_string(),
        specs_font: "Sans 12".to_string(),
    }
}

#[test]
fn settings_all_valid_fields_match() {
    let cfg = valid_store().config().unwrap();
    assert_eq!(cfg.units, Units::Metric);
    assert_eq!(f64::from_bits(cfg.border), 2.5);
    assert_eq!(f64::from_bits(cfg.line_weight), 1.0);
    assert_eq!(cfg.fretline_color, Rgba { red: 255, green: 255, blue: 255, alpha: 255 });
    assert_eq!(cfg.fretboard_color, Rgba { red: 10, green: 20, blue: 30, alpha: 255 });
    assert_eq!(cfg.centerline_color, Some(Rgba { red: 0, green: 0, blue: 255, alpha: 255 }));
    assert_eq!(cfg.font.family, "Sans".to_string());
    assert_eq!(cfg.font.size, 12);
}

#[test]
fn settings_invalid_color_fails_whole_config() {
    let mut store = valid_store();
    store.fretline_color = "xyz".to_string();
    let err = store.config().unwrap_err();
    assert_eq!(err.kind, ParseErrorKind::InvalidColor);
    assert_eq!(err.field, "fretline-color".to_string());
    assert_eq!(err.value, "xyz".to_string());
}

#[test]
fn settings_invalid_units_reported_first() {
    let mut store = valid_store();
    store.units = "furlongs".to_string();
    store.fretboard_color = "also bad".to_string();
    let err = store.config().unwrap_err();
    assert_eq!(err.kind, ParseErrorKind::InvalidUnits);
    assert_eq!(err.field, "units".to_string());
    assert_eq!(err.value, "furlongs".to_string());
}

#[test]
fn settings_centerline_parse_failure_is_fatal() {
    let mut store = valid_store();
    store.centerline_color = "not-a-color".to_string();
    let err = store.config().unwrap_err();
    assert_eq!(err.kind, ParseErrorKind::InvalidColor);
    assert_eq!(err.field, "centerline-color".to_string());
}

#[test]
fn settings_invalid_font_fails() {
    let mut store = valid_store();
    store.specs_font = "   ".to_string();
    let err = store.config().unwrap_err();
    assert_eq!(err.kind, ParseErrorKind::InvalidFont);
    assert_eq!(err.field, "specs-font".to_string());
}
