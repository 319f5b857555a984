use gfret::color::Rgba;
use gfret::color::parse_color;

#[test]
fn color_hex_six_digits() {
    assert_eq!(
        parse_color("#000000"),
        Some(Rgba { red: 0, green: 0, blue: 0, alpha: 255 })
    );
    assert_eq!(
        parse_color("#ff8000"),
        Some(Rgba { red: 255, green: 128, blue: 0, alpha: 255 })
    );
    assert_eq!(
        parse_color("#AbCdEf"),
        Some(Rgba { red: 0xab, green: 0xcd, blue: 0xef, alpha: 255 })
    );
}

#[test]
fn color_hex_three_digits_doubles_each() {
    assert_eq!(
        parse_color("#abc"),
        Some(Rgba { red: 0xaa, green: 0xbb, blue: 0xcc, alpha: 255 })
    );
    assert_eq!(
        parse_color("#fff"),
        Some(Rgba { red: 255, green: 255, blue: 255, alpha: 255 })
    );
}

#[test]
fn color_hex_eight_digits_carries_alpha() {
    assert_eq!(
        parse_color("#11223344"),
        Some(Rgba { red: 0x11, green: 0x22, blue: 0x33, alpha: 0x44 })
    );
}

#[test]
fn color_rgb_form() {
    assert_eq!(
        parse_color("rgb(0,0,0)"),
        Some(Rgba { red: 0, green: 0, blue: 0, alpha: 255 })
    );
    assert_eq!(
        parse_color("rgb(255, 128, 0)"),
        Some(Rgba { red: 255, green: 128, blue: 0, alpha: 255 })
    );
    assert_eq!(
        parse_color("rgb( 1 , 2 , 3 )"),
        Some(Rgba { red: 1, green: 2, blue: 3, alpha: 255 })
    );
}

#[test]
fn color_named() {
    assert_eq!(
        parse_color("black"),
        Some(Rgba { red: 0, green: 0, blue: 0, alpha: 255 })
    );
    assert_eq!(
        parse_color("white"),
        Some(Rgba { red: 255, green: 255, blue: 255, alpha: 255 })
    );
    assert_eq!(
        parse_color("green"),
        Some(Rgba { red: 0, green: 128, blue: 0, alpha: 255 })
    );
    assert_eq!(parse_color("gray"), parse_color("grey"));
}

#[test]
fn color_malformed_is_rejected() {
    assert_eq!(parse_color("not-a-color"), None);
    assert_eq!(parse_color("xyz"), None);
    assert_eq!(parse_color(""), None);
    assert_eq!(parse_color("#12345"), None);
    assert_eq!(parse_color("#ggg"), None);
    assert_eq!(parse_color("rgb(256,0,0)"), None);
    assert_eq!(parse_color("rgb(1,2)"), None);
    assert_eq!(parse_color("rgb(1,2,3,4)"), None);
    assert_eq!(parse_color("rgb(1,2,3"), None);
    assert_eq!(parse_color("RED"), None);
    assert_eq!(parse_color("rgb(1,,3)"), None);
}

#[test]
fn color_to_hex_canonical_form() {
    let c = Rgba { red: 0x0c, green: 0x22, blue: 0x38, alpha: 0x4e };
    assert_eq!(c.to_hex(), "#0c22384e".to_string());
}

#[test]
fn color_round_trip_through_hex() {
    let c = Rgba { red: 12, green: 34, blue: 56, alpha: 78 };
    assert_eq!(parse_color(&c.to_hex()), Some(c));
    let opaque = Rgba { red: 255, green: 0, blue: 255, alpha: 255 };
    assert_eq!(parse_color(&opaque.to_hex()), Some(opaque));
}
