use tiny_draw::color::{Color, ColorError};

#[test]
fn rgb_test() {
    let color = Color::rgb(255, 255, 255).unwrap();
    assert_eq!(
        Color {
            r: 255,
            g: 255,
            b: 255,
            a: 255
        },
        color
    );
}

#[test]
fn rgba_test() {
    let color = Color::rgba(255, 255, 255, 255).unwrap();
    assert_eq!(
        Color {
            r: 255,
            g: 255,
            b: 255,
            a: 255
        },
        color
    );
}

#[test]
fn hex_test() {
    let color = Color::hex("#fff").unwrap();
    assert_eq!(
        Color {
            r: 255,
            g: 255,
            b: 255,
            a: 255
        },
        color
    );
    let color = Color::hex("#fff0").unwrap();
    assert_eq!(
        Color {
            r: 255,
            g: 255,
            b: 255,
            a: 0
        },
        color
    );
    let color = Color::hex("#ffffff00").unwrap();
    assert_eq!(
        Color {
            r: 255,
            g: 255,
            b: 255,
            a: 0
        },
        color
    );
}

#[test]
fn to_hex_test() {
    let color = Color::hex("#fff").unwrap();
    assert_eq!("#ffffffff".to_string(), color.to_hex());
}

#[test]
fn to_rgb_test() {
    let color = Color::hex("#fff").unwrap();
    assert_eq!("rgb(255, 255, 255)".to_string(), color.to_rgb());
    let color = Color::hex("#fff0").unwrap();
    assert_eq!("rgba(255, 255, 255, 0)".to_string(), color.to_rgb());
}

#[test]
fn rgb_to_hex_round_trip() {
    let color = Color::rgb(1, 2, 3).unwrap();
    assert_eq!("#010203ff", color.to_hex());
    assert_eq!(color, Color::hex(&color.to_hex()).unwrap());
    let color = Color::rgba(0, 127, 255, 4).unwrap();
    assert_eq!("#007fff04", color.to_hex());
    assert_eq!(color, Color::hex(&color.to_hex()).unwrap());
    let color = Color::rgba(0, 0, 0, 0).unwrap();
    assert_eq!("#00000000", color.to_hex());
    assert_eq!(color, Color::hex(&color.to_hex()).unwrap());
}

#[test]
fn short_and_long_forms_agree() {
    assert_eq!(Color::hex("#fff0").unwrap(), Color::hex("#ffffff00").unwrap());
    assert_eq!(Color::hex("#1a2").unwrap(), Color::hex("#11aa22").unwrap());
    assert_eq!(Color::hex("#1a2b").unwrap(), Color::hex("#11aa22bb").unwrap());
}

#[test]
fn hex_bad_shape_is_invalid_format() {
    assert_eq!(Color::hex("").unwrap_err(), ColorError::InvalidHexChar);
    assert_eq!(Color::hex("#").unwrap_err(), ColorError::InvalidHexChar);
    assert_eq!(Color::hex("#ff").unwrap_err(), ColorError::InvalidHexChar);
    assert_eq!(Color::hex("#fffff").unwrap_err(), ColorError::InvalidHexChar);
    assert_eq!(Color::hex("#ffffffff0").unwrap_err(), ColorError::InvalidHexChar);
    assert_eq!(Color::hex("fff0").unwrap_err(), ColorError::InvalidHexChar);
    assert_eq!(Color::hex("ffffff0").unwrap_err(), ColorError::InvalidHexChar);
}

#[test]
fn hex_bad_digit_is_parse_failure() {
    assert_eq!(Color::hex("#zzz").unwrap_err(), ColorError::ParseErr);
    assert_eq!(Color::hex("#ffg").unwrap_err(), ColorError::ParseErr);
    assert_eq!(Color::hex("#fffffz").unwrap_err(), ColorError::ParseErr);
    assert_eq!(Color::hex("#ffffff0-").unwrap_err(), ColorError::ParseErr);
}

#[test]
fn hex_upper_case_digits_parse() {
    assert_eq!(
        Color::hex("#ABCDEF").unwrap(),
        Color {
            r: 0xab,
            g: 0xcd,
            b: 0xef,
            a: 255
        }
    );
    assert_eq!(Color::hex("#A1b2C3").unwrap(), Color::hex("#a1B2c3").unwrap());
}

#[test]
fn to_rgb_alpha_term_iff_translucent() {
    assert_eq!("rgb(10, 20, 30)", Color::rgb(10, 20, 30).unwrap().to_rgb());
    assert_eq!(
        "rgba(10, 20, 30, 254)",
        Color::rgba(10, 20, 30, 254).unwrap().to_rgb()
    );
    assert_eq!("rgb(0, 0, 0)", Color::rgba(0, 0, 0, 255).unwrap().to_rgb());
    assert_eq!("rgba(255, 255, 255, 0)", Color::rgba(255, 255, 255, 0).unwrap().to_rgb());
}

#[test]
fn to_hex_pads_and_lower_cases() {
    assert_eq!("#0a0b0cff", Color::rgb(10, 11, 12).unwrap().to_hex());
    assert_eq!("#ffffff00", Color::rgba(255, 255, 255, 0).unwrap().to_hex());
    assert_eq!("#00000000", Color::rgba(0, 0, 0, 0).unwrap().to_hex());
}
