//! Colour schemes and colour arithmetic.

use crate::number::float::{Float, ONE_BITS, ZERO_BITS};
use crate::number::text::{hex_byte, hex_digits};
use vstd::arithmetic::div_mod::lemma_small_mod;
use vstd::prelude::*;
use vstd::string::StringExecFns;

verus! {

/// A named palette of CSS colours.
#[derive(Debug, Clone, Copy, PartialEq, Eq, Structural)]
pub enum ColorScheme {
    /// Blues from light to dark.
    Ocean,
    /// Creams and oranges from light to dark.
    Sunset,
    /// Grey-purples from almost white to almost black.
    DarkMatter,
    /// The Viridis colour map, from yellow to dark blue.
    Viridis,
    /// Ten distinct colours for categories.
    Categorical,
    /// The eight colour-blind-safe colours of Okabe and Ito.
    OkabeIto,
}

impl Default for ColorScheme {
    fn default() -> (r: ColorScheme)
        ensures
            r == ColorScheme::Ocean,
    {
        ColorScheme::Ocean
    }
}

/// The colours of a scheme, in palette order.
pub open spec fn palette_colors(scheme: ColorScheme) -> Seq<Seq<char>> {
    match scheme {
        ColorScheme::Ocean => seq![
            "#e0f3ff"@,
            "#b3e0ff"@,
            "#66b3ff"@,
            "#3399ff"@,
            "#0073e6"@,
            "#005ab3"@,
            "#004080"@,
            "#003366"@,
        ],
        ColorScheme::Sunset => seq![
            "#fff5e6"@,
            "#ffe0b3"@,
            "#ffcc80"@,
            "#ffb84d"@,
            "#ff9933"@,
            "#ff6600"@,
            "#cc5200"@,
            "#b34700"@,
        ],
        ColorScheme::DarkMatter => seq![
            "#f0f0f5"@,
            "#d0d0e0"@,
            "#a0a0c0"@,
            "#7070a0"@,
            "#504080"@,
            "#403060"@,
            "#302040"@,
            "#201030"@,
        ],
        ColorScheme::Viridis => seq![
            "#fde724"@,
            "#b5de2b"@,
            "#6ece58"@,
            "#35b779"@,
            "#1f9e89"@,
            "#26828e"@,
            "#31688e"@,
            "#443983"@,
        ],
        ColorScheme::Categorical => seq![
            "#1f77b4"@,
            "#ff7f0e"@,
            "#2ca02c"@,
            "#d62728"@,
            "#9467bd"@,
            "#8c564b"@,
            "#e377c2"@,
            "#7f7f7f"@,
            "#bcbd22"@,
            "#17becf"@,
        ],
        ColorScheme::OkabeIto => seq![
            "#E69F00"@,
            "#56B4E9"@,
            "#009E73"@,
            "#F0E442"@,
            "#0072B2"@,
            "#D55E00"@,
            "#CC79A7"@,
            "#000000"@,
        ],
    }
}

/// The texts of a list of string slices.
pub open spec fn texts(colors: Seq<&'static str>) -> Seq<Seq<char>> {
    colors.map_values(|c: &'static str| c@)
}

impl ColorScheme {
    /// The colours of the scheme, in palette order.
    pub fn palette(&self) -> (r: Vec<&'static str>)
        ensures
            texts(r@) == palette_colors(*self),
            r@.len() == 8 || r@.len() == 10,
    {
        let r = match self {
            ColorScheme::Ocean => vec![
                "#e0f3ff",
                "#b3e0ff",
                "#66b3ff",
                "#3399ff",
                "#0073e6",
                "#005ab3",
                "#004080",
                "#003366",
            ],
            ColorScheme::Sunset => vec![
                "#fff5e6",
                "#ffe0b3",
                "#ffcc80",
                "#ffb84d",
                "#ff9933",
                "#ff6600",
                "#cc5200",
                "#b34700",
            ],
            ColorScheme::DarkMatter => vec![
                "#f0f0f5",
                "#d0d0e0",
                "#a0a0c0",
                "#7070a0",
                "#504080",
                "#403060",
                "#302040",
                "#201030",
            ],
            ColorScheme::Viridis => vec![
                "#fde724",
                "#b5de2b",
                "#6ece58",
                "#35b779",
                "#1f9e89",
                "#26828e",
                "#31688e",
                "#443983",
            ],
            ColorScheme::Categorical => vec![
                "#1f77b4",
                "#ff7f0e",
                "#2ca02c",
                "#d62728",
                "#9467bd",
                "#8c564b",
                "#e377c2",
                "#7f7f7f",
                "#bcbd22",
                "#17becf",
            ],
            ColorScheme::OkabeIto => vec![
                "#E69F00",
                "#56B4E9",
                "#009E73",
                "#F0E442",
                "#0072B2",
                "#D55E00",
                "#CC79A7",
                "#000000",
            ],
        };
        assert(texts(r@) =~= palette_colors(*self));
        r
    }

    /// The colour at `index`, counting round the palette.
    pub fn color_at(&self, index: usize) -> (r: &'static str)
        ensures
            r@ == palette_colors(*self)[index as int % palette_colors(*self).len() as int],
    {
        let palette = self.palette();
        let r = palette[index % palette.len()];
        assert(r@ == texts(palette@)[index as int % palette@.len() as int]);
        r
    }

    /// The first colour of the palette.
    pub fn primary(&self) -> (r: &'static str)
        ensures
            r@ == palette_colors(*self)[0],
    {
        self.color_at(0)
    }

    /// The colour in the middle of the palette.
    pub fn secondary(&self) -> (r: &'static str)
        ensures
            r@ == palette_colors(*self)[palette_colors(*self).len() as int / 2],
    {
        let palette = self.palette();
        let mid = palette.len() / 2;
        assert(palette_colors(*self).len() == palette@.len()) by {
            assert(texts(palette@).len() == palette@.len());
        }
        proof {
            lemma_small_mod(mid as nat, palette@.len());
        }
        self.color_at(mid)
    }

    /// The last colour of the palette.
    pub fn accent(&self) -> (r: &'static str)
        ensures
            r@ == palette_colors(*self).last(),
    {
        let palette = self.palette();
        let end = palette.len() - 1;
        assert(palette_colors(*self).len() == palette@.len()) by {
            assert(texts(palette@).len() == palette@.len());
        }
        proof {
            lemma_small_mod(end as nat, palette@.len());
        }
        self.color_at(end)
    }
}

/// The Viridis colour map in eight steps, from dark purple to yellow.
pub const VIRIDIS: [&'static str; 8] = [
    "#440154", "#46327e", "#365c8d", "#277f8e", "#1fa187", "#4ac16d", "#9fda3a", "#fde725",
];

/// The Plasma colour map in eight steps, from dark blue to yellow.
pub const PLASMA: [&'static str; 8] = [
    "#0d0887", "#5b02a3", "#9a179b", "#cb4678", "#eb7852", "#fbb32b", "#eff821", "#f0f921",
];

/// A diverging palette in eight steps, from red over white to blue.
pub const RD_BU: [&'static str; 8] = [
    "#b2182b", "#d6604d", "#f4a582", "#fddbc7", "#d1e5f0", "#92c5de", "#4393c3", "#2166ac",
];

/// Bit pattern of 255, the largest value of a colour channel.
pub const CHANNEL_MAX_BITS: u64 = 0x406f_e000_0000_0000;

/// Bit pattern of 0.179, the luminance above which dark text reads better.
pub const DARK_TEXT_LUMINANCE_BITS: u64 = 0x3fc6_e978_d4fd_f3b6;

/// Bit pattern of 0.05, the flare that the contrast ratio adds to both
/// luminances.
pub const FLARE_BITS: u64 = 0x3fa9_9999_9999_999a;

/// Bit pattern of 3, the least contrast ratio of graphics.
pub const GRAPHICS_CONTRAST_BITS: u64 = 0x4008_0000_0000_0000;

/// Bit pattern of 4.5, the least contrast ratio of normal text.
pub const TEXT_CONTRAST_BITS: u64 = 0x4012_0000_0000_0000;

/// Bit pattern of 1, the contrast ratio of a colour with itself and of
/// anything that is no colour.
pub const NO_CONTRAST_BITS: u64 = 0x3ff0_0000_0000_0000;

/// Bit pattern of 0.04045, the share up to which an sRGB channel is linear.
pub const LINEAR_LIMIT_BITS: u64 = 0x3fa4_b5dc_c63f_1412;

/// Bit pattern of 12.92, the slope of the linear part of an sRGB channel.
pub const LINEAR_SLOPE_BITS: u64 = 0x4029_d70a_3d70_a3d7;

/// Bit pattern of 0.055, the offset of the curved part of an sRGB channel.
pub const CURVE_OFFSET_BITS: u64 = 0x3fac_28f5_c28f_5c29;

/// Bit pattern of 1.055, the scale of the curved part of an sRGB channel.
pub const CURVE_SCALE_BITS: u64 = 0x3ff0_e147_ae14_7ae1;

/// Bit pattern of 2.4, the exponent of the curved part of an sRGB channel.
pub const CURVE_POWER_BITS: u64 = 0x4003_3333_3333_3333;

/// Bit pattern of 0.2126, the weight of red in luminance.
pub const RED_WEIGHT_BITS: u64 = 0x3fcb_367a_0f90_96bc;

/// Bit pattern of 0.7152, the weight of green in luminance.
pub const GREEN_WEIGHT_BITS: u64 = 0x3fe6_e2eb_1c43_2ca5;

/// Bit pattern of 0.0722, the weight of blue in luminance.
pub const BLUE_WEIGHT_BITS: u64 = 0x3fb2_7bb2_fec5_6d5d;

/// The value of a hexadecimal digit given as an ASCII byte.
pub open spec fn digit_value(b: u8) -> Option<u8> {
    if 48 <= b <= 57 {
        Some((b - 48) as u8)
    } else if 97 <= b <= 102 {
        Some((b - 87) as u8)
    } else if 65 <= b <= 70 {
        Some((b - 55) as u8)
    } else {
        None
    }
}

/// The value of two hexadecimal digits. A plus sign may stand for the first.
pub open spec fn pair_value(a: u8, b: u8) -> Option<u8> {
    if a == 43 {
        digit_value(b)
    } else {
        match (digit_value(a), digit_value(b)) {
            (Some(x), Some(y)) => Some((16 * x + y) as u8),
            _ => None,
        }
    }
}

/// The red, green and blue of a colour written as `#rgb`, `#rrggbb` or
/// `#rrggbbaa`, each from 0 to 255. A short digit stands for itself twice;
/// the alpha channel is not read.
pub open spec fn channels(b: Seq<u8>) -> Option<(u8, u8, u8)> {
    if b.len() == 4 && b[0] == 35 {
        match (digit_value(b[1]), digit_value(b[2]), digit_value(b[3])) {
            (Some(r), Some(g), Some(bl)) => Some(((17 * r) as u8, (17 * g) as u8, (17 * bl) as u8)),
            _ => None,
        }
    } else if (b.len() == 7 || b.len() == 9) && b[0] == 35 {
        match (pair_value(b[1], b[2]), pair_value(b[3], b[4]), pair_value(b[5], b[6])) {
            (Some(r), Some(g), Some(bl)) => Some((r, g, bl)),
            _ => None,
        }
    } else {
        None
    }
}

/// The bytes of a text of ASCII characters.
pub open spec fn ascii_bytes(s: Seq<char>) -> Seq<u8> {
    Seq::new(s.len(), |i: int| s[i] as u8)
}

/// The channels of the colour that `s` writes down, if it is a colour.
pub open spec fn color_channels(s: &str) -> Option<(u8, u8, u8)> {
    if s.is_ascii() {
        channels(ascii_bytes(s@))
    } else {
        None
    }
}

/// A channel as a share of its largest value.
pub open spec fn channel_share(c: u8) -> Float {
    Float::spec_from_usize(c as usize).spec_div(Float::from_bits(CHANNEL_MAX_BITS))
}

fn digit_of(b: u8) -> (r: Option<u8>)
    ensures
        r == digit_value(b),
        r.is_some() ==> r.unwrap() < 16,
{
    if 48 <= b && b <= 57 {
        Some(b - 48)
    } else if 97 <= b && b <= 102 {
        Some(b - 87)
    } else if 65 <= b && b <= 70 {
        Some(b - 55)
    } else {
        None
    }
}

fn pair_of(a: u8, b: u8) -> (r: Option<u8>)
    ensures
        r == pair_value(a, b),
{
    if a == 43 {
        return digit_of(b);
    }
    match digit_of(a) {
        Some(x) => match digit_of(b) {
            Some(y) => Some(16 * x + y),
            None => None,
        },
        None => None,
    }
}

/// The channels of a colour written in hexadecimal, each from 0 to 255, or
/// `None` for a text that is no such colour.
pub fn parse_hex_channels(hex: &str) -> (r: Option<(u8, u8, u8)>)
    ensures
        r == color_channels(hex),
{
    if !hex.is_ascii() {
        return None;
    }
    let bytes = hex.as_bytes_vec();
    proof {
        vstd::string::is_ascii_spec_bytes(hex);
        assert(bytes@ =~= ascii_bytes(hex@));
    }
    let n = bytes.len();
    if n == 0 || bytes[0] != 35 {
        return None;
    }
    if n == 4 {
        match digit_of(bytes[1]) {
            Some(r) => match digit_of(bytes[2]) {
                Some(g) => match digit_of(bytes[3]) {
                    Some(b) => Some((17 * r, 17 * g, 17 * b)),
                    None => None,
                },
                None => None,
            },
            None => None,
        }
    } else if n == 7 || n == 9 {
        match pair_of(bytes[1], bytes[2]) {
            Some(r) => match pair_of(bytes[3], bytes[4]) {
                Some(g) => match pair_of(bytes[5], bytes[6]) {
                    Some(b) => Some((r, g, b)),
                    None => None,
                },
                None => None,
            },
            None => None,
        }
    } else {
        None
    }
}

/// The red, green and blue of a colour written in hexadecimal, each as a
/// share between 0 and 1.
pub fn parse_hex_color(hex: &str) -> (r: Option<(Float, Float, Float)>)
    ensures
        r == match color_channels(hex) {
            Some(c) => Some((channel_share(c.0), channel_share(c.1), channel_share(c.2))),
            None => None,
        },
{
    match parse_hex_channels(hex) {
        Some(c) => {
            let max = Float::from_bits(CHANNEL_MAX_BITS);
            Some(
                (
                    Float::from_usize(c.0 as usize).div(max),
                    Float::from_usize(c.1 as usize).div(max),
                    Float::from_usize(c.2 as usize).div(max),
                ),
            )
        },
        None => None,
    }
}

/// The share `t` of the way from `a` to `b`, kept within 0 and 1.
pub open spec fn blend(a: Float, b: Float, t: Float) -> Float {
    a.spec_add(b.spec_sub(a).spec_mul(t)).spec_clamp(
        Float::from_bits(ZERO_BITS),
        Float::from_bits(ONE_BITS),
    )
}

/// A share between 0 and 1 as a channel value: 255 times the share, rounded
/// to the nearest whole number and kept within 0 and 255.
pub open spec fn channel_of(share: Float) -> u8 {
    let scaled = share.spec_mul(Float::from_bits(CHANNEL_MAX_BITS)).spec_round().spec_to_usize();
    if scaled > 255 {
        255u8
    } else {
        scaled as u8
    }
}

/// The text of the colour with the given channels: a hash sign and two
/// lower-case hexadecimal digits each for red, green and blue.
pub open spec fn color_text(r: u8, g: u8, b: u8) -> Seq<char> {
    "#"@ + hex_digits(r) + hex_digits(g) + hex_digits(b)
}

/// The colour the share `t` of the way from `c1` to `c2`, channel by
/// channel; `t` is kept within 0 and 1. Where either is no colour, the result
/// is `c1` as it was given.
pub open spec fn interpolated_color(c1: &str, c2: &str, t: Float) -> Seq<char> {
    let t = t.spec_clamp(Float::from_bits(ZERO_BITS), Float::from_bits(ONE_BITS));
    match (color_channels(c1), color_channels(c2)) {
        (Some(a), Some(b)) => color_text(
            channel_of(blend(channel_share(a.0), channel_share(b.0), t)),
            channel_of(blend(channel_share(a.1), channel_share(b.1), t)),
            channel_of(blend(channel_share(a.2), channel_share(b.2), t)),
        ),
        _ => c1@,
    }
}

fn blended_channel(a: Float, b: Float, t: Float) -> (r: u8)
    ensures
        r == channel_of(blend(a, b, t)),
{
    let share = a.add(b.sub(a).mul(t)).clamp(
        Float::from_bits(ZERO_BITS),
        Float::from_bits(ONE_BITS),
    );
    let scaled = share.mul(Float::from_bits(CHANNEL_MAX_BITS)).round().to_usize();
    if scaled > 255 {
        255
    } else {
        scaled as u8
    }
}

/// The colour between two colours written in hexadecimal, in sRGB space.
/// `t` runs from 0, which gives `c1`, to 1, which gives `c2`.
pub fn interpolate_color(c1: &str, c2: &str, t: Float) -> (r: String)
    ensures
        r@ == interpolated_color(c1, c2, t),
{
    let t = t.clamp(Float::from_bits(ZERO_BITS), Float::from_bits(ONE_BITS));
    let first = match parse_hex_color(c1) {
        Some(c) => c,
        None => {
            return c1.to_owned();
        },
    };
    let second = match parse_hex_color(c2) {
        Some(c) => c,
        None => {
            return c1.to_owned();
        },
    };
    let r = hex_byte(blended_channel(first.0, second.0, t));
    let g = hex_byte(blended_channel(first.1, second.1, t));
    let b = hex_byte(blended_channel(first.2, second.2, t));
    let mut out = "#".to_owned();
    out.append(r.as_str());
    out.append(g.as_str());
    out.append(b.as_str());
    assert(out@ =~= interpolated_color(c1, c2, t));
    out
}

/// Colour `i` of a palette of `n` colours spread evenly over the anchors.
pub open spec fn palette_color(anchors: Seq<&str>, n: int, i: int) -> Seq<char> {
    let segments = anchors.len() - 1;
    let t = Float::spec_from_usize(i as usize).spec_div(Float::spec_from_usize((n - 1) as usize));
    let scaled = t.spec_mul(Float::spec_from_usize(segments as usize));
    let raw = scaled.spec_floor().spec_to_usize();
    let seg = if raw < segments - 1 {
        raw as int
    } else {
        segments - 1
    };
    let local = scaled.spec_sub(Float::spec_from_usize(seg as usize));
    interpolated_color(anchors[seg], anchors[seg + 1], local)
}

/// A palette of `n` colours spread evenly over the anchors, which come in
/// hexadecimal. It is empty for fewer than two anchors and for `n == 0`, and
/// for `n == 1` it is the first anchor.
pub fn generate_palette(anchors: &[&str], n: usize) -> (r: Vec<String>)
    ensures
        anchors@.len() < 2 || n == 0 ==> r@.len() == 0,
        anchors@.len() >= 2 && n == 1 ==> r@.len() == 1 && r@[0]@ == anchors@[0]@,
        anchors@.len() >= 2 && n >= 2 ==> r@.len() == n && forall|i: int|
            0 <= i < n ==> (#[trigger] r@[i])@ == palette_color(anchors@, n as int, i),
{
    let mut out: Vec<String> = Vec::new();
    if anchors.len() < 2 || n == 0 {
        return out;
    }
    if n == 1 {
        out.push(anchors[0].to_owned());
        return out;
    }
    let segments = anchors.len() - 1;
    let mut i: usize = 0;
    while i < n
        invariant
            i <= n,
            n >= 2,
            anchors@.len() >= 2,
            segments == anchors@.len() - 1,
            out@.len() == i,
            forall|k: int|
                0 <= k < i ==> (#[trigger] out@[k])@ == palette_color(anchors@, n as int, k),
        decreases n - i,
    {
        let t = Float::from_usize(i).div(Float::from_usize(n - 1));
        let scaled = t.mul(Float::from_usize(segments));
        let raw = scaled.floor().to_usize();
        let seg = if raw < segments - 1 {
            raw
        } else {
            segments - 1
        };
        let local = scaled.sub(Float::from_usize(seg));
        out.push(interpolate_color(anchors[seg], anchors[seg + 1], local));
        i += 1;
    }
    out
}

/// The linear light of an sRGB channel given as a share of its largest
/// value: the share over 12.92 up to 0.04045, and `((c + 0.055) / 1.055)` to
/// the power 2.4 above that.
pub open spec fn spec_srgb_to_linear(c: Float) -> Float {
    if c.spec_le(Float::from_bits(LINEAR_LIMIT_BITS)) {
        c.spec_div(Float::from_bits(LINEAR_SLOPE_BITS))
    } else {
        c.spec_add(Float::from_bits(CURVE_OFFSET_BITS)).spec_div(
            Float::from_bits(CURVE_SCALE_BITS),
        ).spec_powf(Float::from_bits(CURVE_POWER_BITS))
    }
}

/// The linear light of an sRGB channel given as a share of its largest
/// value.
#[verifier::when_used_as_spec(spec_srgb_to_linear)]
pub fn srgb_to_linear(c: Float) -> (r: Float)
    ensures
        r == spec_srgb_to_linear(c),
{
    if c.le(Float::from_bits(LINEAR_LIMIT_BITS)) {
        c.div(Float::from_bits(LINEAR_SLOPE_BITS))
    } else {
        c.add(Float::from_bits(CURVE_OFFSET_BITS)).div(Float::from_bits(CURVE_SCALE_BITS)).powf(
            Float::from_bits(CURVE_POWER_BITS),
        )
    }
}

/// The relative luminance of a colour whose channels are given as shares:
/// 0.2126 of the linear light of its red, 0.7152 of that of its green and
/// 0.0722 of that of its blue.
pub open spec fn spec_relative_luminance(red: Float, green: Float, blue: Float) -> Float {
    Float::from_bits(RED_WEIGHT_BITS).spec_mul(spec_srgb_to_linear(red)).spec_add(
        Float::from_bits(GREEN_WEIGHT_BITS).spec_mul(spec_srgb_to_linear(green)),
    ).spec_add(Float::from_bits(BLUE_WEIGHT_BITS).spec_mul(spec_srgb_to_linear(blue)))
}

/// The relative luminance of a colour, from 0 for black to 1 for white, as
/// WCAG defines it.
#[verifier::when_used_as_spec(spec_relative_luminance)]
pub fn relative_luminance(red: Float, green: Float, blue: Float) -> (r: Float)
    ensures
        r == spec_relative_luminance(red, green, blue),
{
    Float::from_bits(RED_WEIGHT_BITS).mul(srgb_to_linear(red)).add(
        Float::from_bits(GREEN_WEIGHT_BITS).mul(srgb_to_linear(green)),
    ).add(Float::from_bits(BLUE_WEIGHT_BITS).mul(srgb_to_linear(blue)))
}

/// The relative luminance of the colour that `s` writes down, if it is a
/// colour.
pub open spec fn color_luminance(s: &str) -> Option<Float> {
    match color_channels(s) {
        Some(c) => Some(
            spec_relative_luminance(channel_share(c.0), channel_share(c.1), channel_share(c.2)),
        ),
        None => None,
    }
}

/// The contrast ratio of two colours: the luminance of the lighter plus 0.05
/// over that of the darker plus 0.05; 1 where either is no colour.
pub open spec fn spec_contrast_ratio(fg: &str, bg: &str) -> Float {
    match (color_luminance(fg), color_luminance(bg)) {
        (Some(l1), Some(l2)) => l1.spec_max(l2).spec_add(Float::from_bits(FLARE_BITS)).spec_div(
            l1.spec_min(l2).spec_add(Float::from_bits(FLARE_BITS)),
        ),
        _ => Float::from_bits(NO_CONTRAST_BITS),
    }
}

fn luminance_of(hex: &str) -> (r: Option<Float>)
    ensures
        r == color_luminance(hex),
{
    match parse_hex_color(hex) {
        Some(c) => Some(relative_luminance(c.0, c.1, c.2)),
        None => None,
    }
}

/// The contrast ratio of two colours written in hexadecimal, from 1 to 21,
/// as WCAG defines it. It is 1 where either text is no colour.
#[verifier::when_used_as_spec(spec_contrast_ratio)]
pub fn contrast_ratio(fg: &str, bg: &str) -> (r: Float)
    ensures
        r == spec_contrast_ratio(fg, bg),
{
    let l1 = match luminance_of(fg) {
        Some(l) => l,
        None => {
            return Float::from_bits(NO_CONTRAST_BITS);
        },
    };
    let l2 = match luminance_of(bg) {
        Some(l) => l,
        None => {
            return Float::from_bits(NO_CONTRAST_BITS);
        },
    };
    let lighter = l1.max(l2);
    let darker = l1.min(l2);
    lighter.add(Float::from_bits(FLARE_BITS)).div(darker.add(Float::from_bits(FLARE_BITS)))
}

/// Whether the contrast of two colours is enough for graphics by WCAG AA: a
/// ratio of at least 3.
pub fn meets_wcag_aa_graphics(fg: &str, bg: &str) -> (r: bool)
    ensures
        r == spec_contrast_ratio(fg, bg).spec_ge(Float::from_bits(GRAPHICS_CONTRAST_BITS)),
{
    contrast_ratio(fg, bg).ge(Float::from_bits(GRAPHICS_CONTRAST_BITS))
}

/// Whether the contrast of two colours is enough for normal text by WCAG AA:
/// a ratio of at least 4.5.
pub fn meets_wcag_aa_text(fg: &str, bg: &str) -> (r: bool)
    ensures
        r == spec_contrast_ratio(fg, bg).spec_ge(Float::from_bits(TEXT_CONTRAST_BITS)),
{
    contrast_ratio(fg, bg).ge(Float::from_bits(TEXT_CONTRAST_BITS))
}

/// The text colour that reads best on `background`: dark (`#1a1a1a`) on a
/// background of a luminance above 0.179 and on one that is no colour, white
/// (`#ffffff`) on any other.
pub fn auto_text_color(background: &str) -> (r: &'static str)
    ensures
        r@ == match color_luminance(background) {
            Some(lum) => if lum.spec_gt(Float::from_bits(DARK_TEXT_LUMINANCE_BITS)) {
                "#1a1a1a"@
            } else {
                "#ffffff"@
            },
            None => "#1a1a1a"@,
        },
{
    match luminance_of(background) {
        Some(lum) => if lum.gt(Float::from_bits(DARK_TEXT_LUMINANCE_BITS)) {
            "#1a1a1a"
        } else {
            "#ffffff"
        },
        None => "#1a1a1a",
    }
}

} // verus!
