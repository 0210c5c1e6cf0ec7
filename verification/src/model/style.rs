//! Themes and per-chart configuration: plain settings that a renderer reads.

use crate::number::float::{Float, HALF_BITS, TEN_BITS};
use crate::number::text::names;
use vstd::prelude::*;

verus! {

/// Bit pattern of 0.3, the opacity of grid lines.
pub const GRID_OPACITY_BITS: u64 = 0x3fd3_3333_3333_3333;

/// Bit pattern of 5, the radius of points and the width of strokes.
pub const FIVE_BITS: u64 = 0x4014_0000_0000_0000;

/// Bit pattern of 12.
pub const TWELVE_BITS: u64 = 0x4028_0000_0000_0000;

/// Bit pattern of 14.
pub const FOURTEEN_BITS: u64 = 0x402c_0000_0000_0000;

/// Bit pattern of 20.
pub const TWENTY_BITS: u64 = 0x4034_0000_0000_0000;

/// Bit pattern of 50.
pub const FIFTY_BITS: u64 = 0x4049_0000_0000_0000;

/// Bit pattern of 60.
pub const SIXTY_BITS: u64 = 0x404e_0000_0000_0000;

/// How grid lines are drawn.
#[derive(Debug, Clone, PartialEq)]
pub struct GridStyle {
    pub color: String,
    pub opacity: Float,
    pub width: Float,
    pub dash: Option<String>,
    pub show_x: bool,
    pub show_y: bool,
}

/// What a grid style holds, with texts by their characters.
pub struct GridModel {
    pub color: Seq<char>,
    pub opacity: Float,
    pub width: Float,
    pub dash: Option<Seq<char>>,
    pub show_x: bool,
    pub show_y: bool,
}

impl View for GridStyle {
    type V = GridModel;

    open spec fn view(&self) -> GridModel {
        GridModel {
            color: self.color@,
            opacity: self.opacity,
            width: self.width,
            dash: match self.dash {
                Some(d) => Some(d@),
                None => None,
            },
            show_x: self.show_x,
            show_y: self.show_y,
        }
    }
}

/// The grid of the given colour: thin solid lines, faint, along both axes.
pub open spec fn grid_of(color: Seq<char>) -> GridModel {
    GridModel {
        color,
        opacity: Float::from_bits(GRID_OPACITY_BITS),
        width: Float::from_bits(HALF_BITS),
        dash: None,
        show_x: true,
        show_y: true,
    }
}

impl GridStyle {
    /// The grid of the given colour: thin solid lines, faint, along both
    /// axes.
    pub fn of_color(color: &str) -> (r: GridStyle)
        ensures
            r@ == grid_of(color@),
    {
        GridStyle {
            color: color.to_owned(),
            opacity: Float::from_bits(GRID_OPACITY_BITS),
            width: Float::from_bits(HALF_BITS),
            dash: None,
            show_x: true,
            show_y: true,
        }
    }
}

impl Default for GridStyle {
    fn default() -> (r: GridStyle)
        ensures
            r@ == grid_of("#e0e0e0"@),
    {
        GridStyle::of_color("#e0e0e0")
    }
}

/// The colours, fonts and mark sizes of a chart.
#[derive(Debug, Clone, PartialEq)]
pub struct ChartTheme {
    pub background_color: String,
    pub text_color: String,
    pub palette: Vec<String>,
    pub font_family: String,
    pub font_size: Float,
    pub axis_font_size: Float,
    pub grid: GridStyle,
    pub axis_color: String,
    pub point_radius: Float,
    pub stroke_width: Float,
    pub point_opacity: Float,
    pub line_opacity: Float,
    pub area_opacity: Float,
}

/// What a theme holds, with texts by their characters.
pub struct ThemeModel {
    pub background_color: Seq<char>,
    pub text_color: Seq<char>,
    pub palette: Seq<Seq<char>>,
    pub font_family: Seq<char>,
    pub font_size: Float,
    pub axis_font_size: Float,
    pub grid: GridModel,
    pub axis_color: Seq<char>,
    pub point_radius: Float,
    pub stroke_width: Float,
    pub point_opacity: Float,
    pub line_opacity: Float,
    pub area_opacity: Float,
}

impl View for ChartTheme {
    type V = ThemeModel;

    open spec fn view(&self) -> ThemeModel {
        ThemeModel {
            background_color: self.background_color@,
            text_color: self.text_color@,
            palette: names(self.palette@),
            font_family: self.font_family@,
            font_size: self.font_size,
            axis_font_size: self.axis_font_size,
            grid: self.grid@,
            axis_color: self.axis_color@,
            point_radius: self.point_radius,
            stroke_width: self.stroke_width,
            point_opacity: self.point_opacity,
            line_opacity: self.line_opacity,
            area_opacity: self.area_opacity,
        }
    }
}

/// The names of the presets, apart from the light theme.
pub const PRESET_NAMES: [&'static str; 6] = [
    "dark", "nord", "solarized_light", "solarized_dark", "high_contrast", "monokai",
];

/// The themes that come with the library.
#[derive(Debug, Clone, Copy, PartialEq, Eq, Structural)]
pub enum Preset {
    /// The light theme that charts have unless another is chosen.
    Light,
    /// A dark theme.
    Dark,
    /// Muted arctic tones on a dark slate.
    Nord,
    /// Solarized on its light background.
    SolarizedLight,
    /// Solarized on its dark background.
    SolarizedDark,
    /// Bright colours on black, in larger type.
    HighContrast,
    /// The colours of the Monokai editor theme.
    Monokai,
}

/// What sets one preset apart from another.
pub struct PresetColors {
    pub background: Seq<char>,
    pub text: Seq<char>,
    pub palette: Seq<Seq<char>>,
    pub grid: Seq<char>,
    pub axis: Seq<char>,
    pub large_type: bool,
}

/// The colours of a preset.
pub open spec fn preset_colors(preset: Preset) -> PresetColors {
    match preset {
        Preset::Light => PresetColors {
            background: "#ffffff"@,
            text: "#333333"@,
            palette: seq![
                "#5470c6"@,
                "#91cc75"@,
                "#fac858"@,
                "#ee6666"@,
                "#73c0de"@,
                "#3ba272"@,
                "#fc8452"@,
                "#9a60b4"@,
                "#ea7ccc"@,
            ],
            grid: "#e0e0e0"@,
            axis: "#6E7079"@,
            large_type: false,
        },
        Preset::Dark => PresetColors {
            background: "#100c2a"@,
            text: "#eeeeee"@,
            palette: seq![
                "#4992ff"@,
                "#7cffb2"@,
                "#fddd60"@,
                "#ff6e76"@,
                "#58d9f9"@,
                "#05c091"@,
                "#ff8a45"@,
                "#8d48e3"@,
                "#dd79ff"@,
            ],
            grid: "#2b2b2b"@,
            axis: "#B9B8CE"@,
            large_type: false,
        },
        Preset::Nord => PresetColors {
            background: "#2e3440"@,
            text: "#eceff4"@,
            palette: seq![
                "#88c0d0"@,
                "#81a1c1"@,
                "#5e81ac"@,
                "#a3be8c"@,
                "#ebcb8b"@,
                "#d08770"@,
                "#bf616a"@,
                "#b48ead"@,
            ],
            grid: "#3b4252"@,
            axis: "#d8dee9"@,
            large_type: false,
        },
        Preset::SolarizedLight => PresetColors {
            background: "#fdf6e3"@,
            text: "#657b83"@,
            palette: seq![
                "#268bd2"@,
                "#2aa198"@,
                "#859900"@,
                "#b58900"@,
                "#cb4b16"@,
                "#dc322f"@,
                "#d33682"@,
                "#6c71c4"@,
            ],
            grid: "#eee8d5"@,
            axis: "#93a1a1"@,
            large_type: false,
        },
        Preset::SolarizedDark => PresetColors {
            background: "#002b36"@,
            text: "#839496"@,
            palette: seq![
                "#268bd2"@,
                "#2aa198"@,
                "#859900"@,
                "#b58900"@,
                "#cb4b16"@,
                "#dc322f"@,
                "#d33682"@,
                "#6c71c4"@,
            ],
            grid: "#073642"@,
            axis: "#586e75"@,
            large_type: false,
        },
        Preset::HighContrast => PresetColors {
            background: "#000000"@,
            text: "#ffffff"@,
            palette: seq![
                "#ffff00"@,
                "#00ffff"@,
                "#ff00ff"@,
                "#00ff00"@,
                "#ff6600"@,
                "#6666ff"@,
                "#ff0066"@,
                "#66ff66"@,
            ],
            grid: "#333333"@,
            axis: "#ffffff"@,
            large_type: true,
        },
        Preset::Monokai => PresetColors {
            background: "#272822"@,
            text: "#f8f8f2"@,
            palette: seq![
                "#a6e22e"@,
                "#66d9ef"@,
                "#f92672"@,
                "#fd971f"@,
                "#e6db74"@,
                "#ae81ff"@,
                "#a1efe4"@,
                "#f8f8f2"@,
            ],
            grid: "#3e3d32"@,
            axis: "#75715e"@,
            large_type: false,
        },
    }
}

/// The theme of the given colours: sans-serif type of 12 units, 10 on the
/// axes, or 14 and 12 in large type; points of radius 5, strokes of width 5,
/// and marks at half opacity.
pub open spec fn theme_of(colors: PresetColors) -> ThemeModel {
    ThemeModel {
        background_color: colors.background,
        text_color: colors.text,
        palette: colors.palette,
        font_family: "sans-serif"@,
        font_size: if colors.large_type {
            Float::from_bits(FOURTEEN_BITS)
        } else {
            Float::from_bits(TWELVE_BITS)
        },
        axis_font_size: if colors.large_type {
            Float::from_bits(TWELVE_BITS)
        } else {
            Float::from_bits(TEN_BITS)
        },
        grid: grid_of(colors.grid),
        axis_color: colors.axis,
        point_radius: Float::from_bits(FIVE_BITS),
        stroke_width: Float::from_bits(FIVE_BITS),
        point_opacity: Float::from_bits(HALF_BITS),
        line_opacity: Float::from_bits(HALF_BITS),
        area_opacity: Float::from_bits(HALF_BITS),
    }
}

/// The preset of a name; the light theme for a name that no preset has.
pub open spec fn preset_named(name: Seq<char>) -> Preset {
    if name == "dark"@ {
        Preset::Dark
    } else if name == "nord"@ {
        Preset::Nord
    } else if name == "solarized_light"@ {
        Preset::SolarizedLight
    } else if name == "solarized_dark"@ {
        Preset::SolarizedDark
    } else if name == "high_contrast"@ {
        Preset::HighContrast
    } else if name == "monokai"@ {
        Preset::Monokai
    } else {
        Preset::Light
    }
}

/// The texts of a list of string slices.
pub open spec fn slice_texts(items: Seq<&'static str>) -> Seq<Seq<char>> {
    items.map_values(|s: &'static str| s@)
}

/// Owned copies of the given colours.
fn owned_colors(colors: Vec<&'static str>) -> (r: Vec<String>)
    ensures
        names(r@) == slice_texts(colors@),
{
    let n = colors.len();
    let mut out: Vec<String> = Vec::new();
    let mut i: usize = 0;
    while i < n
        invariant
            i <= n,
            n == colors@.len(),
            out@.len() == i,
            forall|k: int| 0 <= k < i ==> (#[trigger] out@[k])@ == colors@[k]@,
        decreases n - i,
    {
        out.push(colors[i].to_owned());
        i += 1;
    }
    assert(names(out@) =~= slice_texts(colors@));
    out
}

/// The theme of the given colours.
fn theme_with(
    background: &str,
    text: &str,
    palette: Vec<&'static str>,
    grid: &str,
    axis: &str,
    large_type: bool,
) -> (r: ChartTheme)
    ensures
        r@ == theme_of(
            PresetColors {
                background: background@,
                text: text@,
                palette: slice_texts(palette@),
                grid: grid@,
                axis: axis@,
                large_type,
            },
        ),
{
    ChartTheme {
        background_color: background.to_owned(),
        text_color: text.to_owned(),
        palette: owned_colors(palette),
        font_family: "sans-serif".to_owned(),
        font_size: if large_type {
            Float::from_bits(FOURTEEN_BITS)
        } else {
            Float::from_bits(TWELVE_BITS)
        },
        axis_font_size: if large_type {
            Float::from_bits(TWELVE_BITS)
        } else {
            Float::from_bits(TEN_BITS)
        },
        grid: GridStyle::of_color(grid),
        axis_color: axis.to_owned(),
        point_radius: Float::from_bits(FIVE_BITS),
        stroke_width: Float::from_bits(FIVE_BITS),
        point_opacity: Float::from_bits(HALF_BITS),
        line_opacity: Float::from_bits(HALF_BITS),
        area_opacity: Float::from_bits(HALF_BITS),
    }
}

impl Default for ChartTheme {
    /// The light theme that charts have unless another is chosen.
    fn default() -> (r: ChartTheme)
        ensures
            r@ == theme_of(preset_colors(Preset::Light)),
    {
        let palette = vec![
            "#5470c6",
            "#91cc75",
            "#fac858",
            "#ee6666",
            "#73c0de",
            "#3ba272",
            "#fc8452",
            "#9a60b4",
            "#ea7ccc",
        ];
        assert(slice_texts(palette@) =~= preset_colors(Preset::Light).palette);
        theme_with("#ffffff", "#333333", palette, "#e0e0e0", "#6E7079", false)
    }
}

impl ChartTheme {
    /// A dark theme.
    pub fn dark() -> (r: ChartTheme)
        ensures
            r@ == theme_of(preset_colors(Preset::Dark)),
    {
        let palette = vec![
            "#4992ff",
            "#7cffb2",
            "#fddd60",
            "#ff6e76",
            "#58d9f9",
            "#05c091",
            "#ff8a45",
            "#8d48e3",
            "#dd79ff",
        ];
        assert(slice_texts(palette@) =~= preset_colors(Preset::Dark).palette);
        theme_with("#100c2a", "#eeeeee", palette, "#2b2b2b", "#B9B8CE", false)
    }

    /// Muted arctic tones on a dark slate.
    pub fn nord() -> (r: ChartTheme)
        ensures
            r@ == theme_of(preset_colors(Preset::Nord)),
    {
        let palette = vec![
            "#88c0d0",
            "#81a1c1",
            "#5e81ac",
            "#a3be8c",
            "#ebcb8b",
            "#d08770",
            "#bf616a",
            "#b48ead",
        ];
        assert(slice_texts(palette@) =~= preset_colors(Preset::Nord).palette);
        theme_with("#2e3440", "#eceff4", palette, "#3b4252", "#d8dee9", false)
    }

    /// Solarized on its light background.
    pub fn solarized_light() -> (r: ChartTheme)
        ensures
            r@ == theme_of(preset_colors(Preset::SolarizedLight)),
    {
        let palette = vec![
            "#268bd2",
            "#2aa198",
            "#859900",
            "#b58900",
            "#cb4b16",
            "#dc322f",
            "#d33682",
            "#6c71c4",
        ];
        assert(slice_texts(palette@) =~= preset_colors(Preset::SolarizedLight).palette);
        theme_with("#fdf6e3", "#657b83", palette, "#eee8d5", "#93a1a1", false)
    }

    /// Solarized on its dark background.
    pub fn solarized_dark() -> (r: ChartTheme)
        ensures
            r@ == theme_of(preset_colors(Preset::SolarizedDark)),
    {
        let palette = vec![
            "#268bd2",
            "#2aa198",
            "#859900",
            "#b58900",
            "#cb4b16",
            "#dc322f",
            "#d33682",
            "#6c71c4",
        ];
        assert(slice_texts(palette@) =~= preset_colors(Preset::SolarizedDark).palette);
        theme_with("#002b36", "#839496", palette, "#073642", "#586e75", false)
    }

    /// Bright colours on black, in larger type.
    pub fn high_contrast() -> (r: ChartTheme)
        ensures
            r@ == theme_of(preset_colors(Preset::HighContrast)),
    {
        let palette = vec![
            "#ffff00",
            "#00ffff",
            "#ff00ff",
            "#00ff00",
            "#ff6600",
            "#6666ff",
            "#ff0066",
            "#66ff66",
        ];
        assert(slice_texts(palette@) =~= preset_colors(Preset::HighContrast).palette);
        theme_with("#000000", "#ffffff", palette, "#333333", "#ffffff", true)
    }

    /// The colours of the Monokai editor theme.
    pub fn monokai() -> (r: ChartTheme)
        ensures
            r@ == theme_of(preset_colors(Preset::Monokai)),
    {
        let palette = vec![
            "#a6e22e",
            "#66d9ef",
            "#f92672",
            "#fd971f",
            "#e6db74",
            "#ae81ff",
            "#a1efe4",
            "#f8f8f2",
        ];
        assert(slice_texts(palette@) =~= preset_colors(Preset::Monokai).palette);
        theme_with("#272822", "#f8f8f2", palette, "#3e3d32", "#75715e", false)
    }

    /// The names of the presets, apart from the light theme.
    pub fn preset_names() -> (r: &'static [&'static str])
        ensures
            slice_texts(r@) == seq![
                "dark"@,
                "nord"@,
                "solarized_light"@,
                "solarized_dark"@,
                "high_contrast"@,
                "monokai"@,
            ],
    {
        let r: &'static [&'static str] = PRESET_NAMES.as_slice();
        assert(slice_texts(r@) =~= seq![
            "dark"@,
            "nord"@,
            "solarized_light"@,
            "solarized_dark"@,
            "high_contrast"@,
            "monokai"@,
        ]);
        r
    }

    /// The preset of the given name, and the light theme for a name that no
    /// preset has.
    pub fn from_preset(name: &str) -> (r: ChartTheme)
        ensures
            r@ == theme_of(preset_colors(preset_named(name@))),
    {
        let wanted = name.to_owned();
        if wanted == "dark".to_owned() {
            ChartTheme::dark()
        } else if wanted == "nord".to_owned() {
            ChartTheme::nord()
        } else if wanted == "solarized_light".to_owned() {
            ChartTheme::solarized_light()
        } else if wanted == "solarized_dark".to_owned() {
            ChartTheme::solarized_dark()
        } else if wanted == "high_contrast".to_owned() {
            ChartTheme::high_contrast()
        } else if wanted == "monokai".to_owned() {
            ChartTheme::monokai()
        } else {
            ChartTheme::default()
        }
    }
}

/// The space round the plot area, in pixels.
#[derive(Debug, Clone, Copy, PartialEq)]
pub struct Margin {
    pub top: Float,
    pub right: Float,
    pub bottom: Float,
    pub left: Float,
}

impl Default for Margin {
    fn default() -> (r: Margin)
        ensures
            r == (Margin {
                top: Float::from_bits(TWENTY_BITS),
                right: Float::from_bits(TWENTY_BITS),
                bottom: Float::from_bits(FIFTY_BITS),
                left: Float::from_bits(SIXTY_BITS),
            }),
    {
        Margin {
            top: Float::from_bits(TWENTY_BITS),
            right: Float::from_bits(TWENTY_BITS),
            bottom: Float::from_bits(FIFTY_BITS),
            left: Float::from_bits(SIXTY_BITS),
        }
    }
}

/// What one chart sets apart from its theme. Whatever is `None` is left to
/// the theme or to the renderer.
#[derive(Debug, Clone, PartialEq)]
pub struct ChartConfig {
    pub theme: Option<ChartTheme>,
    pub title: Option<String>,
    pub grid: Option<GridStyle>,
    pub show_tooltip: Option<bool>,
    pub width: Option<u32>,
    pub height: Option<u32>,
    pub margin: Option<Margin>,
    pub show_legend: Option<bool>,
    pub legend_outside: Option<bool>,
}

impl Default for ChartConfig {
    fn default() -> (r: ChartConfig)
        ensures
            r.is_unset(),
    {
        ChartConfig {
            theme: None,
            title: None,
            grid: None,
            show_tooltip: None,
            width: None,
            height: None,
            margin: None,
            show_legend: None,
            legend_outside: None,
        }
    }
}

impl ChartConfig {
    /// Whether the configuration sets nothing.
    pub open spec fn is_unset(&self) -> bool {
        &&& self.theme.is_none()
        &&& self.title.is_none()
        &&& self.grid.is_none()
        &&& self.show_tooltip.is_none()
        &&& self.width.is_none()
        &&& self.height.is_none()
        &&& self.margin.is_none()
        &&& self.show_legend.is_none()
        &&& self.legend_outside.is_none()
    }

    /// Whether `self` and `other` agree on everything but the title and the
    /// grid.
    pub open spec fn same_but_title_and_grid(&self, other: ChartConfig) -> bool {
        &&& self.theme == other.theme
        &&& self.show_tooltip == other.show_tooltip
        &&& self.width == other.width
        &&& self.height == other.height
        &&& self.margin == other.margin
        &&& self.show_legend == other.show_legend
        &&& self.legend_outside == other.legend_outside
    }

    /// A configuration that sets nothing.
    pub fn new() -> (r: ChartConfig)
        ensures
            r.is_unset(),
    {
        ChartConfig::default()
    }

    /// Sets the title.
    pub fn with_title(self, title: &str) -> (r: ChartConfig)
        ensures
            r.title.is_some(),
            r.title.unwrap()@ == title@,
            r.grid == self.grid,
            r.same_but_title_and_grid(self),
    {
        let mut config = self;
        config.title = Some(title.to_owned());
        config
    }

    /// Sets the grid style.
    pub fn with_grid(self, grid: GridStyle) -> (r: ChartConfig)
        ensures
            r.grid == Some(grid),
            r.title == self.title,
            r.same_but_title_and_grid(self),
    {
        let mut config = self;
        config.grid = Some(grid);
        config
    }

    /// Shows or hides the grid along both axes, keeping the rest of the grid
    /// style, or that of the default grid where none was set.
    pub fn with_grid_visible(self, show: bool) -> (r: ChartConfig)
        ensures
            r.grid.is_some(),
            r.grid.unwrap()@ == (GridModel {
                show_x: show,
                show_y: show,
                ..match self.grid {
                    Some(g) => g@,
                    None => grid_of("#e0e0e0"@),
                }
            }),
            r.title == self.title,
            r.same_but_title_and_grid(self),
    {
        let mut config = self;
        let mut grid = match config.grid {
            Some(g) => g,
            None => GridStyle::default(),
        };
        grid.show_x = show;
        grid.show_y = show;
        config.grid = Some(grid);
        config
    }

    /// Sets the size of the chart in pixels.
    pub fn with_size(self, width: u32, height: u32) -> (r: ChartConfig)
        ensures
            r == (ChartConfig { width: Some(width), height: Some(height), ..self }),
    {
        let mut config = self;
        config.width = Some(width);
        config.height = Some(height);
        config
    }

    /// Shows or hides the legend, whatever the number of series.
    pub fn with_legend(self, show: bool) -> (r: ChartConfig)
        ensures
            r == (ChartConfig { show_legend: Some(show), ..self }),
    {
        let mut config = self;
        config.show_legend = Some(show);
        config
    }

    /// Puts the legend beside the plot area or over it.
    pub fn with_legend_outside(self, outside: bool) -> (r: ChartConfig)
        ensures
            r == (ChartConfig { legend_outside: Some(outside), ..self }),
    {
        let mut config = self;
        config.legend_outside = Some(outside);
        config
    }
}

} // verus!
