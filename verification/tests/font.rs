use gfret::font::parse_font;

#[test]
fn font_family_and_size() {
    let f = parse_font("Sans 12").unwrap();
    assert_eq!(f.family, "Sans".to_string());
    assert_eq!(f.size, 12);
}

#[test]
fn font_multi_word_family() {
    let f = parse_font("Sans Bold 12").unwrap();
    assert_eq!(f.family, "Sans Bold".to_string());
    assert_eq!(f.size, 12);
}

#[test]
fn font_without_size() {
    let f = parse_font("Sans").unwrap();
    assert_eq!(f.family, "Sans".to_string());
    assert_eq!(f.size, 0);
}

#[test]
fn font_surrounding_spaces_ignored() {
    let f = parse_font("  Monospace  10 ").unwrap();
    assert_eq!(f.family, "Monospace".to_string());
    assert_eq!(f.size, 10);
}

#[test]
fn font_size_must_be_small_numeral() {
    // Five digits are no size; the text stays part of the family.
    let f = parse_font("Sans 99999").unwrap();
    assert_eq!(f.family, "Sans 99999".to_string());
    assert_eq!(f.size, 0);
    // A suffix with a non-digit is no size either.
    let f = parse_font("Sans 12pt").unwrap();
    assert_eq!(f.family, "Sans 12pt".to_string());
    assert_eq!(f.size, 0);
}

#[test]
fn font_empty_is_rejected() {
    assert!(parse_font("").is_none());
    assert!(parse_font("   ").is_none());
}
