use purrmitive::color::Color;
use purrmitive::config::{output_kind, parse_hex_color, validate_mode, validate_size, writes_per_frame, ConfigError, OutputKind};

#[test]
fn hex_color_accepted_forms() {
    assert_eq!(
        parse_hex_color("FF0000"),
        Ok(Color { r: 255, g: 0, b: 0, a: 255 })
    );
    assert_eq!(
        parse_hex_color("#00ff7f"),
        Ok(Color { r: 0, g: 255, b: 127, a: 255 })
    );
    assert_eq!(
        parse_hex_color("0A0b0C"),
        Ok(Color { r: 10, g: 11, b: 12, a: 255 })
    );
}

#[test]
fn hex_color_rejected_forms() {
    assert_eq!(parse_hex_color(""), Err(ConfigError::BadHexColor));
    assert_eq!(parse_hex_color("12345"), Err(ConfigError::BadHexColor));
    assert_eq!(parse_hex_color("1234567"), Err(ConfigError::BadHexColor));
    assert_eq!(parse_hex_color("zzzzzz"), Err(ConfigError::BadHexColor));
    assert_eq!(parse_hex_color("#%FF000"), Err(ConfigError::BadHexColor));
}

#[test]
fn mode_and_size_validation() {
    assert_eq!(validate_mode(0), Ok(0));
    assert_eq!(validate_mode(8), Ok(8));
    assert_eq!(validate_mode(9), Err(ConfigError::BadMode));
    assert_eq!(validate_size(1), Ok(1));
    assert_eq!(validate_size(4096), Ok(4096));
    assert_eq!(validate_size(0), Err(ConfigError::BadSize));
    assert_eq!(validate_size(4097), Err(ConfigError::BadSize));
}

#[test]
fn error_messages() {
    assert_eq!(
        ConfigError::BadHexColor.message(),
        "background color is not a six-digit hex value"
    );
    assert_eq!(ConfigError::BadMode.message(), "unknown shape mode");
    assert_eq!(ConfigError::BadSize.message(), "canvas size out of range");
}

#[test]
fn output_routing() {
    assert_eq!(output_kind("out.svg"), OutputKind::Vector);
    assert_eq!(output_kind("anim.gif"), OutputKind::Animation);
    assert_eq!(output_kind("img.png"), OutputKind::Raster);
    assert_eq!(output_kind("noextension"), OutputKind::Raster);
    assert_eq!(output_kind("dir.svg/file"), OutputKind::Raster);
    assert_eq!(output_kind("double.gif.png"), OutputKind::Raster);
    assert!(writes_per_frame("frames-{}.png"));
    assert!(!writes_per_frame("frames-{}.gif"));
    assert!(!writes_per_frame("single.png"));
}
