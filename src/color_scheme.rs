//! Colour themes: each theme assigns an RGBA colour to every role of the
//! typing screen.

use vstd::prelude::*;

verus! {

/// An RGBA colour, eight bits per channel.
#[derive(Debug, Clone, Copy, PartialEq, Eq, Structural)]
pub struct MyColor {
    pub r: u8,
    pub g: u8,
    pub b: u8,
    pub a: u8,
}

impl MyColor {
    pub fn new(r: u8, g: u8, b: u8, a: u8) -> (c: MyColor)
        ensures
            c == (MyColor { r, g, b, a }),
    {
        MyColor { r, g, b, a }
    }
}

/// Builds a colour in spec code.
pub open spec fn rgba(r: u8, g: u8, b: u8, a: u8) -> MyColor {
    MyColor { r, g, b, a }
}

/// The selectable colour themes.
#[derive(Debug, Clone, Copy, PartialEq, Eq, Structural)]
pub enum ColorScheme {
    Default,
    Dark,
    Light,
    Monochrome,
    Ocean,
    OceanDark,
    Forest,
    ForestDark,
    Pink,
}

/// Every theme, in the order a theme menu lists them.
pub open spec fn all_schemes() -> Seq<ColorScheme> {
    seq![
        ColorScheme::Default,
        ColorScheme::Dark,
        ColorScheme::Light,
        ColorScheme::Monochrome,
        ColorScheme::Ocean,
        ColorScheme::OceanDark,
        ColorScheme::Forest,
        ColorScheme::ForestDark,
        ColorScheme::Pink,
    ]
}

/// The name a theme is shown under.
pub open spec fn scheme_name(s: ColorScheme) -> Seq<char> {
    match s {
        ColorScheme::Default => "Default"@,
        ColorScheme::Dark => "Dark"@,
        ColorScheme::Light => "Light"@,
        ColorScheme::Monochrome => "Monochrome"@,
        ColorScheme::Ocean => "Ocean"@,
        ColorScheme::OceanDark => "Ocean Dark"@,
        ColorScheme::Forest => "Forest"@,
        ColorScheme::ForestDark => "Forest Dark"@,
        ColorScheme::Pink => "Pink"@,
    }
}

/// The colour of frame and border lines.
pub open spec fn spec_border_color(s: ColorScheme) -> MyColor {
    match s {
        ColorScheme::Default => rgba(100, 60, 0, 255),
        ColorScheme::Dark => rgba(60, 60, 60, 255),
        ColorScheme::Light => rgba(200, 180, 160, 255),
        ColorScheme::Monochrome => rgba(200, 255, 255, 255),
        ColorScheme::Ocean => rgba(0, 100, 150, 255),
        ColorScheme::OceanDark => rgba(0, 50, 80, 255),
        ColorScheme::Forest => rgba(50, 100, 50, 255),
        ColorScheme::ForestDark => rgba(60, 120, 60, 255),
        ColorScheme::Pink => rgba(100, 20, 70, 255),
    }
}

/// The colour of reference text not yet typed.
pub open spec fn spec_ref_color(s: ColorScheme) -> MyColor {
    match s {
        ColorScheme::Default => rgba(100, 100, 100, 255),
        ColorScheme::Dark => rgba(80, 80, 80, 255),
        ColorScheme::Light => rgba(120, 120, 120, 255),
        ColorScheme::Monochrome => rgba(80, 80, 80, 255),
        ColorScheme::Ocean => rgba(100, 150, 200, 255),
        ColorScheme::OceanDark => rgba(70, 70, 80, 255),
        ColorScheme::Forest => rgba(100, 150, 100, 255),
        ColorScheme::ForestDark => rgba(70, 80, 70, 255),
        ColorScheme::Pink => rgba(80, 70, 70, 255),
    }
}

/// The colour of background.
pub open spec fn spec_bg_color(s: ColorScheme) -> MyColor {
    match s {
        ColorScheme::Default => rgba(10, 10, 10, 255),
        ColorScheme::Dark => rgba(10, 10, 10, 255),
        ColorScheme::Light => rgba(250, 250, 250, 255),
        ColorScheme::Monochrome => rgba(0, 0, 0, 255),
        ColorScheme::Ocean => rgba(10, 30, 50, 255),
        ColorScheme::OceanDark => rgba(0, 5, 10, 255),
        ColorScheme::Forest => rgba(20, 40, 20, 255),
        ColorScheme::ForestDark => rgba(10, 10, 10, 255),
        ColorScheme::Pink => rgba(7, 0, 2, 255),
    }
}

/// The colour of accents: title, timer, cursor.
pub open spec fn spec_main_color(s: ColorScheme) -> MyColor {
    match s {
        ColorScheme::Default => rgba(255, 155, 0, 255),
        ColorScheme::Dark => rgba(180, 180, 180, 255),
        ColorScheme::Light => rgba(80, 80, 80, 255),
        ColorScheme::Monochrome => rgba(200, 255, 255, 255),
        ColorScheme::Ocean => rgba(100, 200, 255, 255),
        ColorScheme::OceanDark => rgba(80, 180, 230, 255),
        ColorScheme::Forest => rgba(150, 255, 150, 255),
        ColorScheme::ForestDark => rgba(100, 200, 100, 255),
        ColorScheme::Pink => rgba(255, 20, 147, 255),
    }
}

/// The colour of a dimmer shade of the accent colour.
pub open spec fn spec_dimmer_main(s: ColorScheme) -> MyColor {
    match s {
        ColorScheme::Default => rgba(180, 100, 0, 255),
        ColorScheme::Dark => rgba(120, 120, 120, 255),
        ColorScheme::Light => rgba(60, 60, 60, 255),
        ColorScheme::Monochrome => rgba(128, 128, 128, 255),
        ColorScheme::Ocean => rgba(60, 140, 200, 255),
        ColorScheme::OceanDark => rgba(50, 120, 180, 255),
        ColorScheme::Forest => rgba(100, 180, 100, 255),
        ColorScheme::ForestDark => rgba(150, 230, 100, 255),
        ColorScheme::Pink => rgba(200, 10, 120, 255),
    }
}

/// The colour of characters typed correctly on the first try.
pub open spec fn spec_text_color(s: ColorScheme) -> MyColor {
    match s {
        ColorScheme::Default => rgba(200, 200, 200, 255),
        ColorScheme::Dark => rgba(200, 200, 200, 255),
        ColorScheme::Light => rgba(0, 0, 0, 255),
        ColorScheme::Monochrome => rgba(200, 200, 200, 255),
        ColorScheme::Ocean => rgba(200, 230, 255, 255),
        ColorScheme::OceanDark => rgba(180, 220, 255, 255),
        ColorScheme::Forest => rgba(200, 255, 200, 255),
        ColorScheme::ForestDark => rgba(180, 255, 180, 255),
        ColorScheme::Pink => rgba(200, 200, 200, 255),
    }
}

/// The colour of the speed chart.
pub open spec fn spec_chart_color(s: ColorScheme) -> MyColor {
    match s {
        ColorScheme::Default => rgba(150, 80, 0, 255),
        ColorScheme::Dark => rgba(180, 180, 180, 255),
        ColorScheme::Light => rgba(80, 80, 80, 255),
        ColorScheme::Monochrome => rgba(200, 255, 255, 255),
        ColorScheme::Ocean => rgba(100, 200, 255, 255),
        ColorScheme::OceanDark => rgba(80, 180, 230, 255),
        ColorScheme::Forest => rgba(150, 255, 150, 255),
        ColorScheme::ForestDark => rgba(100, 200, 100, 255),
        ColorScheme::Pink => rgba(100, 20, 70, 255),
    }
}

/// The colour of correct characters in the results view.
pub open spec fn spec_correct_color(s: ColorScheme) -> MyColor {
    match s {
        ColorScheme::Default => rgba(210, 200, 200, 255),
        ColorScheme::Dark => rgba(200, 255, 255, 255),
        ColorScheme::Light => rgba(150, 200, 150, 255),
        ColorScheme::Monochrome => rgba(200, 255, 255, 255),
        ColorScheme::Ocean => rgba(200, 255, 255, 255),
        ColorScheme::OceanDark => rgba(200, 255, 255, 255),
        ColorScheme::Forest => rgba(200, 255, 255, 255),
        ColorScheme::ForestDark => rgba(200, 255, 255, 255),
        ColorScheme::Pink => rgba(200, 255, 255, 255),
    }
}

/// The colour of characters typed right after a mistake.
pub open spec fn spec_corrected_color(s: ColorScheme) -> MyColor {
    match s {
        ColorScheme::Default => rgba(255, 155, 0, 255),
        ColorScheme::Dark => rgba(100, 60, 0, 255),
        ColorScheme::Light => rgba(150, 100, 0, 255),
        ColorScheme::Monochrome => rgba(200, 50, 50, 255),
        ColorScheme::Ocean => rgba(180, 100, 255, 255),
        ColorScheme::OceanDark => rgba(180, 100, 255, 255),
        ColorScheme::Forest => rgba(255, 100, 100, 255),
        ColorScheme::ForestDark => rgba(180, 100, 0, 255),
        ColorScheme::Pink => rgba(255, 100, 100, 255),
    }
}

/// The colour of characters typed wrong.
pub open spec fn spec_incorrect_color(s: ColorScheme) -> MyColor {
    match s {
        ColorScheme::Default => rgba(200, 30, 30, 255),
        ColorScheme::Dark => rgba(200, 30, 30, 255),
        ColorScheme::Light => rgba(200, 30, 30, 255),
        ColorScheme::Monochrome => rgba(200, 30, 30, 255),
        ColorScheme::Ocean => rgba(255, 0, 200, 255),
        ColorScheme::OceanDark => rgba(255, 0, 200, 255),
        ColorScheme::Forest => rgba(200, 30, 30, 255),
        ColorScheme::ForestDark => rgba(150, 30, 30, 255),
        ColorScheme::Pink => rgba(255, 30, 30, 255),
    }
}

impl ColorScheme {
    pub fn all() -> (r: Vec<ColorScheme>)
        ensures
            r@ == all_schemes(),
    {
        let r = vec![
            ColorScheme::Default,
            ColorScheme::Dark,
            ColorScheme::Light,
            ColorScheme::Monochrome,
            ColorScheme::Ocean,
            ColorScheme::OceanDark,
            ColorScheme::Forest,
            ColorScheme::ForestDark,
            ColorScheme::Pink,
        ];
        assert(r@ =~= all_schemes());
        r
    }

    pub fn name(&self) -> (r: &'static str)
        ensures
            r@ == scheme_name(*self),
    {
        match self {
            ColorScheme::Default => "Default",
            ColorScheme::Dark => "Dark",
            ColorScheme::Light => "Light",
            ColorScheme::Monochrome => "Monochrome",
            ColorScheme::Ocean => "Ocean",
            ColorScheme::OceanDark => "Ocean Dark",
            ColorScheme::Forest => "Forest",
            ColorScheme::ForestDark => "Forest Dark",
            ColorScheme::Pink => "Pink",
        }
    }

    pub fn border_color(&self) -> (c: MyColor)
        ensures
            c == spec_border_color(*self),
    {
        match self {
            ColorScheme::Default => MyColor::new(100, 60, 0, 255),
            ColorScheme::Dark => MyColor::new(60, 60, 60, 255),
            ColorScheme::Light => MyColor::new(200, 180, 160, 255),
            ColorScheme::Monochrome => MyColor::new(200, 255, 255, 255),
            ColorScheme::Ocean => MyColor::new(0, 100, 150, 255),
            ColorScheme::OceanDark => MyColor::new(0, 50, 80, 255),
            ColorScheme::Forest => MyColor::new(50, 100, 50, 255),
            ColorScheme::ForestDark => MyColor::new(60, 120, 60, 255),
            ColorScheme::Pink => MyColor::new(100, 20, 70, 255),
        }
    }

    pub fn ref_color(&self) -> (c: MyColor)
        ensures
            c == spec_ref_color(*self),
    {
        match self {
            ColorScheme::Default => MyColor::new(100, 100, 100, 255),
            ColorScheme::Dark => MyColor::new(80, 80, 80, 255),
            ColorScheme::Light => MyColor::new(120, 120, 120, 255),
            ColorScheme::Monochrome => MyColor::new(80, 80, 80, 255),
            ColorScheme::Ocean => MyColor::new(100, 150, 200, 255),
            ColorScheme::OceanDark => MyColor::new(70, 70, 80, 255),
            ColorScheme::Forest => MyColor::new(100, 150, 100, 255),
            ColorScheme::ForestDark => MyColor::new(70, 80, 70, 255),
            ColorScheme::Pink => MyColor::new(80, 70, 70, 255),
        }
    }

    pub fn bg_color(&self) -> (c: MyColor)
        ensures
            c == spec_bg_color(*self),
    {
        match self {
            ColorScheme::Default => MyColor::new(10, 10, 10, 255),
            ColorScheme::Dark => MyColor::new(10, 10, 10, 255),
            ColorScheme::Light => MyColor::new(250, 250, 250, 255),
            ColorScheme::Monochrome => MyColor::new(0, 0, 0, 255),
            ColorScheme::Ocean => MyColor::new(10, 30, 50, 255),
            ColorScheme::OceanDark => MyColor::new(0, 5, 10, 255),
            ColorScheme::Forest => MyColor::new(20, 40, 20, 255),
            ColorScheme::ForestDark => MyColor::new(10, 10, 10, 255),
            ColorScheme::Pink => MyColor::new(7, 0, 2, 255),
        }
    }

    pub fn main_color(&self) -> (c: MyColor)
        ensures
            c == spec_main_color(*self),
    {
        match self {
            ColorScheme::Default => MyColor::new(255, 155, 0, 255),
            ColorScheme::Dark => MyColor::new(180, 180, 180, 255),
            ColorScheme::Light => MyColor::new(80, 80, 80, 255),
            ColorScheme::Monochrome => MyColor::new(200, 255, 255, 255),
            ColorScheme::Ocean => MyColor::new(100, 200, 255, 255),
            ColorScheme::OceanDark => MyColor::new(80, 180, 230, 255),
            ColorScheme::Forest => MyColor::new(150, 255, 150, 255),
            ColorScheme::ForestDark => MyColor::new(100, 200, 100, 255),
            ColorScheme::Pink => MyColor::new(255, 20, 147, 255),
        }
    }

    pub fn dimmer_main(&self) -> (c: MyColor)
        ensures
            c == spec_dimmer_main(*self),
    {
        match self {
            ColorScheme::Default => MyColor::new(180, 100, 0, 255),
            ColorScheme::Dark => MyColor::new(120, 120, 120, 255),
            ColorScheme::Light => MyColor::new(60, 60, 60, 255),
            ColorScheme::Monochrome => MyColor::new(128, 128, 128, 255),
            ColorScheme::Ocean => MyColor::new(60, 140, 200, 255),
            ColorScheme::OceanDark => MyColor::new(50, 120, 180, 255),
            ColorScheme::Forest => MyColor::new(100, 180, 100, 255),
            ColorScheme::ForestDark => MyColor::new(150, 230, 100, 255),
            ColorScheme::Pink => MyColor::new(200, 10, 120, 255),
        }
    }

    pub fn text_color(&self) -> (c: MyColor)
        ensures
            c == spec_text_color(*self),
    {
        match self {
            ColorScheme::Default => MyColor::new(200, 200, 200, 255),
            ColorScheme::Dark => MyColor::new(200, 200, 200, 255),
            ColorScheme::Light => MyColor::new(0, 0, 0, 255),
            ColorScheme::Monochrome => MyColor::new(200, 200, 200, 255),
            ColorScheme::Ocean => MyColor::new(200, 230, 255, 255),
            ColorScheme::OceanDark => MyColor::new(180, 220, 255, 255),
            ColorScheme::Forest => MyColor::new(200, 255, 200, 255),
            ColorScheme::ForestDark => MyColor::new(180, 255, 180, 255),
            ColorScheme::Pink => MyColor::new(200, 200, 200, 255),
        }
    }

    pub fn chart_color(&self) -> (c: MyColor)
        ensures
            c == spec_chart_color(*self),
    {
        match self {
            ColorScheme::Default => MyColor::new(150, 80, 0, 255),
            ColorScheme::Dark => MyColor::new(180, 180, 180, 255),
            ColorScheme::Light => MyColor::new(80, 80, 80, 255),
            ColorScheme::Monochrome => MyColor::new(200, 255, 255, 255),
            ColorScheme::Ocean => MyColor::new(100, 200, 255, 255),
            ColorScheme::OceanDark => MyColor::new(80, 180, 230, 255),
            ColorScheme::Forest => MyColor::new(150, 255, 150, 255),
            ColorScheme::ForestDark => MyColor::new(100, 200, 100, 255),
            ColorScheme::Pink => MyColor::new(100, 20, 70, 255),
        }
    }

    pub fn correct_color(&self) -> (c: MyColor)
        ensures
            c == spec_correct_color(*self),
    {
        match self {
            ColorScheme::Default => MyColor::new(210, 200, 200, 255),
            ColorScheme::Dark => MyColor::new(200, 255, 255, 255),
            ColorScheme::Light => MyColor::new(150, 200, 150, 255),
            ColorScheme::Monochrome => MyColor::new(200, 255, 255, 255),
            ColorScheme::Ocean => MyColor::new(200, 255, 255, 255),
            ColorScheme::OceanDark => MyColor::new(200, 255, 255, 255),
            ColorScheme::Forest => MyColor::new(200, 255, 255, 255),
            ColorScheme::ForestDark => MyColor::new(200, 255, 255, 255),
            ColorScheme::Pink => MyColor::new(200, 255, 255, 255),
        }
    }

    pub fn corrected_color(&self) -> (c: MyColor)
        ensures
            c == spec_corrected_color(*self),
    {
        match self {
            ColorScheme::Default => MyColor::new(255, 155, 0, 255),
            ColorScheme::Dark => MyColor::new(100, 60, 0, 255),
            ColorScheme::Light => MyColor::new(150, 100, 0, 255),
            ColorScheme::Monochrome => MyColor::new(200, 50, 50, 255),
            ColorScheme::Ocean => MyColor::new(180, 100, 255, 255),
            ColorScheme::OceanDark => MyColor::new(180, 100, 255, 255),
            ColorScheme::Forest => MyColor::new(255, 100, 100, 255),
            ColorScheme::ForestDark => MyColor::new(180, 100, 0, 255),
            ColorScheme::Pink => MyColor::new(255, 100, 100, 255),
        }
    }

    pub fn incorrect_color(&self) -> (c: MyColor)
        ensures
            c == spec_incorrect_color(*self),
    {
        match self {
            ColorScheme::Default => MyColor::new(200, 30, 30, 255),
            ColorScheme::Dark => MyColor::new(200, 30, 30, 255),
            ColorScheme::Light => MyColor::new(200, 30, 30, 255),
            ColorScheme::Monochrome => MyColor::new(200, 30, 30, 255),
            ColorScheme::Ocean => MyColor::new(255, 0, 200, 255),
            ColorScheme::OceanDark => MyColor::new(255, 0, 200, 255),
            ColorScheme::Forest => MyColor::new(200, 30, 30, 255),
            ColorScheme::ForestDark => MyColor::new(150, 30, 30, 255),
            ColorScheme::Pink => MyColor::new(255, 30, 30, 255),
        }
    }
}

impl Default for ColorScheme {
    fn default() -> (s: ColorScheme)
        ensures
            s == ColorScheme::Default,
    {
        ColorScheme::Default
    }
}

} // verus!
