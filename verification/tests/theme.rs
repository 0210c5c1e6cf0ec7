use lodviz_core::number::float::Float;
use lodviz_core::model::theme::{
    auto_text_color, contrast_ratio, generate_palette, interpolate_color, meets_wcag_aa_graphics,
    meets_wcag_aa_text, parse_hex_channels, parse_hex_color, relative_luminance, srgb_to_linear,
    ColorScheme, PLASMA, RD_BU, VIRIDIS,
};

fn fl(x: f64) -> Float {
    Float::from_bits(x.to_bits())
}

fn val(x: Float) -> f64 {
    f64::from_bits(x.to_bits())
}

fn approx_eq(a: f64, b: f64, eps: f64) -> bool {
    (a - b).abs() < eps
}

#[test]
fn test_color_scheme_palettes() {
    assert_eq!(ColorScheme::Ocean.palette().len(), 8);
    assert_eq!(ColorScheme::Categorical.palette().len(), 10);
    assert_eq!(ColorScheme::OkabeIto.palette()[0], "#E69F00");
    assert_eq!(ColorScheme::Viridis.palette()[7], "#443983");
    assert_eq!(ColorScheme::default(), ColorScheme::Ocean);
}

#[test]
fn test_color_scheme_color_at_wraps() {
    assert_eq!(ColorScheme::Ocean.color_at(0), "#e0f3ff");
    assert_eq!(ColorScheme::Ocean.color_at(8), "#e0f3ff");
    assert_eq!(ColorScheme::Ocean.color_at(9), "#b3e0ff");
    assert_eq!(ColorScheme::Categorical.color_at(19), "#17becf");
}

#[test]
fn test_color_scheme_named_colors() {
    assert_eq!(ColorScheme::Sunset.primary(), "#fff5e6");
    assert_eq!(ColorScheme::Sunset.secondary(), "#ff9933");
    assert_eq!(ColorScheme::Sunset.accent(), "#b34700");
    assert_eq!(ColorScheme::Categorical.secondary(), "#8c564b");
    assert_eq!(ColorScheme::DarkMatter.accent(), "#201030");
}

#[test]
fn test_contrast_ratio_black_white() {
    let ratio = val(contrast_ratio("#000000", "#ffffff"));
    assert!(approx_eq(ratio, 21.0, 0.1));
}

#[test]
fn test_contrast_ratio_same_color() {
    let ratio = val(contrast_ratio("#ff0000", "#ff0000"));
    assert!(approx_eq(ratio, 1.0, 0.01));
}

#[test]
fn test_contrast_ratio_invalid_color() {
    assert!(approx_eq(val(contrast_ratio("invalid", "#fff")), 1.0, 0.01));
}

#[test]
fn test_meets_wcag_aa_graphics() {
    // Black on white: 21:1 — passes
    assert!(meets_wcag_aa_graphics("#000000", "#ffffff"));
    // Light gray on white: low contrast — fails
    assert!(!meets_wcag_aa_graphics("#cccccc", "#ffffff"));
}

#[test]
fn test_meets_wcag_aa_text() {
    assert!(meets_wcag_aa_text("#000000", "#ffffff"));
    // Medium gray on white: ~4.5:1 might barely pass
    assert!(!meets_wcag_aa_text("#888888", "#ffffff"));
}

#[test]
fn test_parse_shorthand_hex() {
    // #fff should parse as white
    let ratio = val(contrast_ratio("#000", "#fff"));
    assert!(approx_eq(ratio, 21.0, 0.1));
}

#[test]
fn test_contrast_ratio_with_alpha_hex() {
    // #rrggbbaa — alpha is ignored for contrast
    let ratio = val(contrast_ratio("#000000ff", "#ffffffff"));
    assert!(approx_eq(ratio, 21.0, 0.1));
}

#[test]
fn test_auto_text_color_dark_bg() {
    assert_eq!(auto_text_color("#000000"), "#ffffff");
    assert_eq!(auto_text_color("#100c2a"), "#ffffff");
}

#[test]
fn test_auto_text_color_light_bg() {
    assert_eq!(auto_text_color("#ffffff"), "#1a1a1a");
    assert_eq!(auto_text_color("#fdf6e3"), "#1a1a1a");
}

#[test]
fn test_auto_text_color_invalid_bg() {
    assert_eq!(auto_text_color("white"), "#1a1a1a");
    assert_eq!(auto_text_color(""), "#1a1a1a");
}

#[test]
fn test_interpolate_endpoints() {
    assert_eq!(interpolate_color("#000000", "#ffffff", fl(0.0)), "#000000");
    assert_eq!(interpolate_color("#000000", "#ffffff", fl(1.0)), "#ffffff");
}

#[test]
fn test_interpolate_midpoint() {
    let mid = interpolate_color("#000000", "#ffffff", fl(0.5));
    // Should be approximately #808080 (gray)
    assert_eq!(mid, "#808080");
}

#[test]
fn test_interpolate_clamped() {
    assert_eq!(interpolate_color("#000000", "#ffffff", fl(-1.0)), "#000000");
    assert_eq!(interpolate_color("#000000", "#ffffff", fl(2.0)), "#ffffff");
}

#[test]
fn test_interpolate_invalid_returns_first() {
    assert_eq!(interpolate_color("red", "#ffffff", fl(0.5)), "red");
    assert_eq!(interpolate_color("#102030", "blue", fl(0.5)), "#102030");
    assert_eq!(interpolate_color("#ABC", "#abc", fl(0.3)), "#aabbcc");
    assert_eq!(interpolate_color("#ff000080", "#0000ff", fl(0.25)), "#bf0040");
}

#[test]
fn test_generate_palette_basic() {
    let palette = generate_palette(&["#000000", "#ffffff"], 3);
    assert_eq!(palette.len(), 3);
    assert_eq!(palette[0], "#000000");
    assert_eq!(palette[1], "#808080");
    assert_eq!(palette[2], "#ffffff");
}

#[test]
fn test_generate_palette_single() {
    let palette = generate_palette(&["#ff0000", "#0000ff"], 1);
    assert_eq!(palette.len(), 1);
    assert_eq!(palette[0], "#ff0000");
}

#[test]
fn test_generate_palette_empty() {
    assert!(generate_palette(&["#fff"], 5).is_empty());
    assert!(generate_palette(&["#000", "#fff"], 0).is_empty());
}

#[test]
fn test_generate_palette_over_three_anchors() {
    let palette = generate_palette(&["#000000", "#ff0000", "#ffffff"], 5);
    assert_eq!(palette, vec!["#000000", "#800000", "#ff0000", "#ff8080", "#ffffff"]);
}

#[test]
fn test_parse_hex_color_forms() {
    assert_eq!(parse_hex_channels("#fff"), Some((255, 255, 255)));
    assert_eq!(parse_hex_channels("#1aF"), Some((0x11, 0xaa, 0xff)));
    assert_eq!(parse_hex_channels("#102030"), Some((16, 32, 48)));
    assert_eq!(parse_hex_channels("#AbCdEf99"), Some((0xab, 0xcd, 0xef)));
    assert_eq!(parse_hex_channels("#+f0000"), Some((15, 0, 0)));
    for bad in ["", "#", "fff", "#ffff", "#fffff", "#fffffff", "#ggg", "#-10000", "#+ff", "#ff 000", "#ä1", "#12345é"]
    {
        assert_eq!(parse_hex_channels(bad), None, "{bad:?}");
        assert!(parse_hex_color(bad).is_none());
    }
    let (r, g, b) = parse_hex_color("#ff8000").unwrap();
    assert_eq!((val(r), val(g), val(b)), (1.0, 128.0 / 255.0, 0.0));
}

#[test]
fn test_srgb_to_linear_agrees_with_hardware() {
    for n in (0..=255u8).step_by(5) {
        let c = f64::from(n) / 255.0;
        let expected = if c <= 0.04045 { c / 12.92 } else { ((c + 0.055) / 1.055).powf(2.4) };
        let got = val(srgb_to_linear(fl(c)));
        let distance = (got.to_bits() as i64 - expected.to_bits() as i64).abs();
        assert!(distance <= 1, "channel {n}: {got} against {expected}");
    }
    assert_eq!(val(srgb_to_linear(fl(0.04045))), 0.04045 / 12.92);
    assert_eq!(val(relative_luminance(fl(1.0), fl(1.0), fl(1.0))), 0.2126 + 0.7152 + 0.0722);
    assert_eq!(val(relative_luminance(fl(0.0), fl(0.0), fl(0.0))), 0.0);
}

#[test]
fn test_contrast_ratio_agrees_with_formula() {
    let lum = |r: u8, g: u8, b: u8| {
        let lin = |n: u8| {
            let c = f64::from(n) / 255.0;
            if c <= 0.04045 {
                c / 12.92
            } else {
                ((c + 0.055) / 1.055).powf(2.4)
            }
        };
        0.2126 * lin(r) + 0.7152 * lin(g) + 0.0722 * lin(b)
    };
    let expected = (lum(0xfd, 0xf6, 0xe3) + 0.05) / (lum(0x10, 0x0c, 0x2a) + 0.05);
    let got = val(contrast_ratio("#100c2a", "#fdf6e3"));
    assert!((got - expected).abs() < 1e-12);
    assert_eq!(got, val(contrast_ratio("#fdf6e3", "#100c2a")));
}

#[test]
fn test_sequential_palettes() {
    assert_eq!(VIRIDIS.len(), 8);
    assert_eq!(VIRIDIS[0], "#440154");
    assert_eq!(PLASMA[7], "#f0f921");
    assert_eq!(RD_BU[3], "#fddbc7");
    let palette = generate_palette(&VIRIDIS, 8);
    assert_eq!(palette, VIRIDIS.to_vec());
    assert_eq!(generate_palette(&RD_BU, 2), vec!["#b2182b", "#2166ac"]);
}
