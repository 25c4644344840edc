use cascolor::color::CasColor;
use cascolor::color::ColorFormat;
use cascolor::color::format_value;

#[test]
fn test_hex_to_rgb() {
    let color = CasColor::from_hex("#FF5733").unwrap();
    let (r, g, b) = color.to_rgb();
    assert_eq!(r, 255);
    assert_eq!(g, 87);
    assert_eq!(b, 51);
}

#[test]
fn test_hex_to_hex() {
    let color = CasColor::from_hex("#FF5733").unwrap();
    assert_eq!(color.to_hex(), "#FF5733");
}

#[test]
fn test_short_hex() {
    let color = CasColor::from_hex("#F53").unwrap();
    assert_eq!(color.to_hex(), "#FF5533");
}

#[test]
fn test_hex_without_hash() {
    let color = CasColor::from_hex("FF5733").unwrap();
    assert_eq!(color.to_hex(), "#FF5733");
}

#[test]
fn test_hex_lowercase_normalizes() {
    let color = CasColor::from_hex("#abcdef").unwrap();
    assert_eq!(color.to_hex(), "#ABCDEF");
}

#[test]
fn test_rgb_to_hsl() {
    // Pure red: hue 0 degrees, saturation 100%, lightness 50%.
    let color = CasColor::from_rgb(255, 0, 0);
    let (h, s, l) = color.to_hsl();
    assert_eq!(h, 0);
    assert_eq!(s, 10200);
    assert_eq!(l, 5100);
}

#[test]
fn test_hsl_to_rgb() {
    // Red: hue 0, saturation 100%, lightness 50%.
    let color = CasColor::from_hsl(0, 10200, 5100);
    let (r, g, b) = color.to_rgb();
    assert_eq!(r, 255);
    assert!(g < 5);
    assert!(b < 5);
}

#[test]
fn test_rgb_to_hsv() {
    // Pure red: hue 0 degrees, saturation 100%, value 100%.
    let color = CasColor::from_rgb(255, 0, 0);
    let (h, s, v) = color.to_hsv();
    assert_eq!(h, 0);
    assert_eq!(s, 10200);
    assert_eq!(v, 10200);
}

#[test]
fn test_white_color() {
    let color = CasColor::from_rgb(255, 255, 255);
    assert_eq!(color.to_hex(), "#FFFFFF");
    let (_, _, l) = color.to_hsl();
    assert_eq!(l, 10200);
}

#[test]
fn test_black_color() {
    let color = CasColor::from_rgb(0, 0, 0);
    assert_eq!(color.to_hex(), "#000000");
    let (_, _, l) = color.to_hsl();
    assert_eq!(l, 0);
}

#[test]
fn test_gray_color() {
    // Gray should have low saturation; the model reports exactly zero.
    let color = CasColor::from_rgb(128, 128, 128);
    let (_, s, _) = color.to_hsl();
    assert!(s < 102);
    assert_eq!(s, 0);
}

#[test]
fn test_cmyk_conversion() {
    // Red: c = 0%, m = 100%, y = 100%, k = 0%.
    let color = CasColor::from_rgb(255, 0, 0);
    let (c, m, y, k) = color.to_cmyk();
    assert_eq!(c, 0);
    assert_eq!(m, 10200);
    assert_eq!(y, 10200);
    assert_eq!(k, 0);
}

#[test]
fn test_cmyk_black() {
    let color = CasColor::from_rgb(0, 0, 0);
    let (_c, _m, _y, k) = color.to_cmyk();
    assert_eq!(k, 10200);
}

#[test]
fn test_cmyk_black_exact() {
    // The black edge case carries no division-by-zero artifact: the
    // chromatic components are exactly zero and k is exactly one.
    let color = CasColor::from_rgb(0, 0, 0);
    assert_eq!(color.to_cmyk(), (0, 0, 0, 10200));
}

#[test]
fn test_achromatic_midpoint() {
    // Mid gray: saturation below one percent (exactly zero here) and a k
    // strictly between zero and one with equal chromatic components.
    let color = CasColor::from_rgb(128, 128, 128);
    let (_, s, _) = color.to_hsl();
    assert!(s * 100 < 10200);
    let (c, m, y, k) = color.to_cmyk();
    assert!(0 < k && k < 10200);
    assert_eq!(c, m);
    assert_eq!(m, y);
}

#[test]
fn test_color_default() {
    let color = CasColor::default();
    assert_eq!(color.to_hex(), "#000000");
}

#[test]
fn test_invalid_hex() {
    assert!(CasColor::from_hex("#ZZZ").is_err());
    assert!(CasColor::from_hex("#12345").is_err());
    assert!(CasColor::from_hex("").is_err());
}

#[test]
fn test_rgb_clamping() {
    let color = CasColor::from_rgb(255, 0, 128);
    let (r, g, b) = color.to_rgb();
    assert_eq!(r, 255);
    assert_eq!(g, 0);
    assert_eq!(b, 128);
}

#[test]
fn test_roundtrip_hex_rgb() {
    let original = CasColor::from_hex("#ABCDEF").unwrap();
    let (r, g, b) = original.to_rgb();
    let roundtrip = CasColor::from_rgb(r, g, b);
    assert_eq!(original.to_hex(), roundtrip.to_hex());
}

#[test]
fn test_roundtrip_rgb_hsl() {
    let original = CasColor::from_rgb(200, 100, 50);
    let (h, s, l) = original.to_hsl();
    let roundtrip = CasColor::from_hsl(h as i64, s, l);
    let (r1, g1, b1) = original.to_rgb();
    let (r2, g2, b2) = roundtrip.to_rgb();

    // Allow small rounding differences
    assert!((r1 as i32 - r2 as i32).abs() <= 2);
    assert!((g1 as i32 - g2 as i32).abs() <= 2);
    assert!((b1 as i32 - b2 as i32).abs() <= 2);
}

#[test]
fn test_roundtrip_rgb_hsl_many() {
    // The proven tolerance, exercised across the cube.
    for r in (0u16..=255).step_by(17) {
        for g in (0u16..=255).step_by(13) {
            for b in (0u16..=255).step_by(19) {
                let original = CasColor::from_rgb(r as u8, g as u8, b as u8);
                let (h, s, l) = original.to_hsl();
                let back = CasColor::from_hsl(h as i64, s, l);
                let (r2, g2, b2) = back.to_rgb();
                assert!((r as i32 - r2 as i32).abs() <= 2);
                assert!((g as i32 - g2 as i32).abs() <= 2);
                assert!((b as i32 - b2 as i32).abs() <= 2);
            }
        }
    }
}

#[test]
fn test_hue_wraparound() {
    // Any hue is tolerated through modular wraparound: one full turn more
    // or less changes nothing.
    let a = CasColor::from_hsl(9000, 10200, 6120);
    let b = CasColor::from_hsl(9000 + 360000, 10200, 6120);
    let c = CasColor::from_hsl(9000 - 360000, 10200, 6120);
    assert_eq!(a.to_rgb(), b.to_rgb());
    assert_eq!(a.to_rgb(), c.to_rgb());
}

#[test]
fn test_hsv_roundtrip() {
    let original = CasColor::from_rgb(40, 200, 120);
    let (h, s, v) = original.to_hsv();
    let back = CasColor::from_hsv(h as i64, s, v);
    let (r2, g2, b2) = back.to_rgb();
    assert!((40 - r2 as i32).abs() <= 2);
    assert!((200 - g2 as i32).abs() <= 2);
    assert!((120 - b2 as i32).abs() <= 2);
}

#[test]
fn test_format_value_strings() {
    let red = CasColor::from_rgb(255, 0, 0);
    assert_eq!(format_value(ColorFormat::Hex, &red), "#FF0000");
    assert_eq!(format_value(ColorFormat::Rgb, &red), "rgb(255, 0, 0)");
    assert_eq!(format_value(ColorFormat::Hsl, &red), "hsl(0, 100%, 50%)");
    assert_eq!(format_value(ColorFormat::Hsv, &red), "hsv(0, 100%, 100%)");
    assert_eq!(format_value(ColorFormat::Cmyk, &red), "cmyk(0%, 100%, 100%, 0%)");
}

#[test]
fn test_format_labels() {
    assert_eq!(ColorFormat::Hex.label(), "HEX");
    assert_eq!(ColorFormat::Rgb.label(), "RGB");
    assert_eq!(ColorFormat::Hsl.label(), "HSL");
    assert_eq!(ColorFormat::Hsv.label(), "HSV");
    assert_eq!(ColorFormat::Cmyk.label(), "CMYK");
}
