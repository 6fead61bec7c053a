//! The palette of the sixteen named colors, and the RGB value of a color.

use crate::style::Color;
use crate::style::Rgb;
use crate::text::hex2;
use crate::text::push_hex2;
use vstd::prelude::*;
use vstd::string::*;

verus! {

/// The RGB values of the sixteen named colors, in the order of
/// [`crate::style::AnsiColor`].
#[derive(Clone, Copy, Debug)]
pub struct Palette(pub [Rgb; 16]);

impl View for Palette {
    type V = Seq<Rgb>;

    open spec fn view(&self) -> Seq<Rgb> {
        self.0@
    }
}

/// The colors of the Campbell theme of the Windows 10 console.
pub open spec fn win10_console_colors() -> Seq<Rgb> {
    seq![
        Rgb { r: 12, g: 12, b: 12 },
        Rgb { r: 197, g: 15, b: 31 },
        Rgb { r: 19, g: 161, b: 14 },
        Rgb { r: 193, g: 156, b: 0 },
        Rgb { r: 0, g: 55, b: 218 },
        Rgb { r: 136, g: 23, b: 152 },
        Rgb { r: 58, g: 150, b: 221 },
        Rgb { r: 204, g: 204, b: 204 },
        Rgb { r: 118, g: 118, b: 118 },
        Rgb { r: 231, g: 72, b: 86 },
        Rgb { r: 22, g: 198, b: 12 },
        Rgb { r: 249, g: 241, b: 165 },
        Rgb { r: 59, g: 120, b: 255 },
        Rgb { r: 180, g: 0, b: 158 },
        Rgb { r: 97, g: 214, b: 214 },
        Rgb { r: 242, g: 242, b: 242 },
    ]
}

/// The colors of a PC in VGA text mode.
pub open spec fn vga_colors() -> Seq<Rgb> {
    seq![
        Rgb { r: 0, g: 0, b: 0 },
        Rgb { r: 170, g: 0, b: 0 },
        Rgb { r: 0, g: 170, b: 0 },
        Rgb { r: 170, g: 85, b: 0 },
        Rgb { r: 0, g: 0, b: 170 },
        Rgb { r: 170, g: 0, b: 170 },
        Rgb { r: 0, g: 170, b: 170 },
        Rgb { r: 170, g: 170, b: 170 },
        Rgb { r: 85, g: 85, b: 85 },
        Rgb { r: 255, g: 85, b: 85 },
        Rgb { r: 85, g: 255, b: 85 },
        Rgb { r: 255, g: 255, b: 85 },
        Rgb { r: 85, g: 85, b: 255 },
        Rgb { r: 255, g: 85, b: 255 },
        Rgb { r: 85, g: 255, b: 255 },
        Rgb { r: 255, g: 255, b: 255 },
    ]
}

/// `anstyle_lossy::palette::WIN10_CONSOLE`: the sixteen colors of the
/// Campbell theme, as that constant lists them.
#[verifier::external_body]
pub fn win10_console() -> (palette: Palette)
    ensures
        palette@ == win10_console_colors(),
{
    Palette(anstyle_lossy::palette::WIN10_CONSOLE.0.map(|c| Rgb { r: c.0, g: c.1, b: c.2 }))
}

/// `anstyle_lossy::palette::VGA`: the sixteen colors of VGA text mode, as
/// that constant lists them.
#[verifier::external_body]
pub fn vga() -> (palette: Palette)
    ensures
        palette@ == vga_colors(),
{
    Palette(anstyle_lossy::palette::VGA.0.map(|c| Rgb { r: c.0, g: c.1, b: c.2 }))
}

/// One component of a color of the color cube: nothing at level 0, and
/// from 95 upwards in steps of 40 at the levels 1 to 5.
pub open spec fn cube_level(level: int) -> u8 {
    if level == 0 {
        0u8
    } else {
        (55 + 40 * level) as u8
    }
}

/// The RGB value of an entry of the 256-color table from 16 upwards.
///
/// The entries 16 to 231 are a cube of six levels of red, green and
/// blue, with blue changing fastest. The entries 232 to 255 are a ramp of
/// grays from 8 upwards in steps of 10.
pub open spec fn xterm_rgb(index: u8) -> Rgb
    recommends
        index >= 16,
{
    if index < 232 {
        Rgb {
            r: cube_level((index - 16) / 36),
            g: cube_level(((index - 16) / 6) % 6),
            b: cube_level((index - 16) % 6),
        }
    } else {
        Rgb {
            r: (8 + 10 * (index - 232)) as u8,
            g: (8 + 10 * (index - 232)) as u8,
            b: (8 + 10 * (index - 232)) as u8,
        }
    }
}

/// The RGB value that a color stands for under a palette.
///
/// A named color is looked up in the palette, and so is one of the first
/// sixteen entries of the 256-color table. The other entries have the
/// fixed values of the color cube and the gray ramp. An RGB color stands
/// for itself.
pub open spec fn color_rgb(color: Color, palette: Seq<Rgb>) -> Rgb {
    match color {
        Color::Ansi(c) => palette[c.spec_index() as int],
        Color::Ansi256(i) => if i < 16 {
            palette[i as int]
        } else {
            xterm_rgb(i)
        },
        Color::Rgb(c) => c,
    }
}

/// `anstyle_lossy::color_to_rgb`: a named color and the first sixteen
/// entries of the 256-color table are read from the palette, the other
/// entries from a fixed table, which holds the color cube and the gray
/// ramp, and an RGB color is handed back as it is.
#[verifier::external_body]
pub(crate) fn color_to_rgb(color: Color, palette: &Palette) -> (rgb: Rgb)
    ensures
        rgb == color_rgb(color, palette@),
{
    let table = anstyle_lossy::palette::Palette(palette.0.map(|c| anstyle::RgbColor(c.r, c.g, c.b)));
    let outside = match color {
        Color::Ansi(c) => match anstyle::Ansi256Color(c as u8).into_ansi() {
            Some(named) => anstyle::Color::Ansi(named),
            None => anstyle::Color::Ansi256(anstyle::Ansi256Color(c as u8)),
        },
        Color::Ansi256(i) => anstyle::Color::Ansi256(anstyle::Ansi256Color(i)),
        Color::Rgb(c) => anstyle::Color::Rgb(anstyle::RgbColor(c.r, c.g, c.b)),
    };
    let anstyle::RgbColor(r, g, b) = anstyle_lossy::color_to_rgb(outside, table);
    Rgb { r, g, b }
}

/// An RGB value as CSS writes it: `#` and six hexadecimal digits in upper
/// case.
pub open spec fn rgb_hex(rgb: Rgb) -> Seq<char> {
    seq!['#'] + hex2(rgb.r) + hex2(rgb.g) + hex2(rgb.b)
}

/// The CSS value of a color under a palette.
pub fn rgb_value(color: Color, palette: &Palette) -> (css: String)
    ensures
        css@ == rgb_hex(color_rgb(color, palette@)),
{
    let rgb = color_to_rgb(color, palette);
    let mut css = String::new();
    proof {
        reveal_strlit("#");
    }
    css.append("#");
    push_hex2(&mut css, rgb.r);
    push_hex2(&mut css, rgb.g);
    push_hex2(&mut css, rgb.b);
    assert(css@ =~= rgb_hex(rgb));
    css
}

} // verus!
