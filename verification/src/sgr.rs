//! The numbers of a "select graphic rendition" escape sequence, and the
//! style that they leave.

use crate::style::AnsiColor;
use crate::style::Color;
use crate::style::Effect;
use crate::style::Effects;
use crate::style::Rgb;
use crate::style::Style;
use vstd::prelude::*;

verus! {

/// The named color at a position of the palette, where there is one.
pub open spec fn named_color(index: u16) -> Option<AnsiColor> {
    if index == 0 {
        Some(AnsiColor::Black)
    } else if index == 1 {
        Some(AnsiColor::Red)
    } else if index == 2 {
        Some(AnsiColor::Green)
    } else if index == 3 {
        Some(AnsiColor::Yellow)
    } else if index == 4 {
        Some(AnsiColor::Blue)
    } else if index == 5 {
        Some(AnsiColor::Magenta)
    } else if index == 6 {
        Some(AnsiColor::Cyan)
    } else if index == 7 {
        Some(AnsiColor::White)
    } else if index == 8 {
        Some(AnsiColor::BrightBlack)
    } else if index == 9 {
        Some(AnsiColor::BrightRed)
    } else if index == 10 {
        Some(AnsiColor::BrightGreen)
    } else if index == 11 {
        Some(AnsiColor::BrightYellow)
    } else if index == 12 {
        Some(AnsiColor::BrightBlue)
    } else if index == 13 {
        Some(AnsiColor::BrightMagenta)
    } else if index == 14 {
        Some(AnsiColor::BrightCyan)
    } else if index == 15 {
        Some(AnsiColor::BrightWhite)
    } else {
        None
    }
}

/// The named color at a position of the palette, where there is one.
pub fn ansi_color_at(index: u16) -> (color: Option<AnsiColor>)
    ensures
        color == named_color(index),
        color.is_some() <==> index < 16,
        index < 16 ==> color.unwrap().spec_index() == index,
{
    if index == 0 {
        Some(AnsiColor::Black)
    } else if index == 1 {
        Some(AnsiColor::Red)
    } else if index == 2 {
        Some(AnsiColor::Green)
    } else if index == 3 {
        Some(AnsiColor::Yellow)
    } else if index == 4 {
        Some(AnsiColor::Blue)
    } else if index == 5 {
        Some(AnsiColor::Magenta)
    } else if index == 6 {
        Some(AnsiColor::Cyan)
    } else if index == 7 {
        Some(AnsiColor::White)
    } else if index == 8 {
        Some(AnsiColor::BrightBlack)
    } else if index == 9 {
        Some(AnsiColor::BrightRed)
    } else if index == 10 {
        Some(AnsiColor::BrightGreen)
    } else if index == 11 {
        Some(AnsiColor::BrightYellow)
    } else if index == 12 {
        Some(AnsiColor::BrightBlue)
    } else if index == 13 {
        Some(AnsiColor::BrightMagenta)
    } else if index == 14 {
        Some(AnsiColor::BrightCyan)
    } else if index == 15 {
        Some(AnsiColor::BrightWhite)
    } else {
        None
    }
}

/// The style with one kind of underline, or with none: 0 takes the
/// underline away, 2 makes it double, 3 curly, 4 dotted, 5 dashed, and
/// any other number makes it a single line.
pub open spec fn underlined(style: Style, kind: u16) -> Style {
    let none = Effects {
        underline: false,
        double_underline: false,
        curly_underline: false,
        dotted_underline: false,
        dashed_underline: false,
        ..style.effects
    };
    let effects = if kind == 0 {
        none
    } else if kind == 2 {
        Effects { double_underline: true, ..none }
    } else if kind == 3 {
        Effects { curly_underline: true, ..none }
    } else if kind == 4 {
        Effects { dotted_underline: true, ..none }
    } else if kind == 5 {
        Effects { dashed_underline: true, ..none }
    } else {
        Effects { underline: true, ..none }
    };
    Style { effects: effects, ..style }
}

/// The style with one kind of underline, or with none.
pub fn underline(style: Style, kind: u16) -> (s: Style)
    ensures
        s == underlined(style, kind),
{
    let mut effects = style.effects;
    effects.underline = false;
    effects.double_underline = false;
    effects.curly_underline = false;
    effects.dotted_underline = false;
    effects.dashed_underline = false;
    if kind == 0 {
    } else if kind == 2 {
        effects.double_underline = true;
    } else if kind == 3 {
        effects.curly_underline = true;
    } else if kind == 4 {
        effects.dotted_underline = true;
    } else if kind == 5 {
        effects.dashed_underline = true;
    } else {
        effects.underline = true;
    }
    Style { effects, ..style }
}

/// The style with one more effect.
pub open spec fn with_effect(style: Style, effect: Effect) -> Style {
    Style { effects: style.effects.spec_insert(effect), ..style }
}

/// The style with one effect less.
pub open spec fn without_effect(style: Style, effect: Effect) -> Style {
    Style { effects: style.effects.spec_remove(effect), ..style }
}

/// The color that follows the numbers 38, 48 and 58, and how many
/// numbers it takes: 5 and an entry of the 256-color table, or 2 and the
/// three components of an RGB color. A number above 255 counts modulo
/// 256.
pub open spec fn custom_color(values: Seq<u16>, at: int) -> Option<(Color, int)> {
    if at + 1 < values.len() && values[at] == 5 {
        Some((Color::Ansi256((values[at + 1] % 256) as u8), 2))
    } else if at + 3 < values.len() && values[at] == 2 {
        Some(
            (
                Color::Rgb(
                    Rgb {
                        r: (values[at + 1] % 256) as u8,
                        g: (values[at + 2] % 256) as u8,
                        b: (values[at + 3] % 256) as u8,
                    },
                ),
                4,
            ),
        )
    } else {
        None
    }
}

/// The style after the number at `at`, and how many numbers that took.
///
/// 0 resets the style. 1, 2, 3, 7, 8 and 9 add bold, dimmed, italic,
/// reverse video, hidden and strikethrough, and 22, 23, 27, 28 and 29 take
/// them away again. 4 adds an underline, of the kind that the number
/// grouped with it gives, 21 a double one, 24 takes it away. 30 to 37 and
/// 90 to 97 set a named foreground color, 40 to 47 and 100 to 107 a
/// named background color. 38, 48 and 58 set foreground, background and
/// underline to the color that follows, and where none follows, the rest
/// of the numbers is passed over. 39, 49 and 59 take the color away.
/// Every other number changes nothing.
pub open spec fn rendition_step(style: Style, values: Seq<u16>, grouped: Seq<bool>, at: int) -> (
    Style,
    int,
) {
    let v = values[at];
    if v == 0 {
        (Style::spec_new(), 1)
    } else if v == 1 {
        (with_effect(style, Effect::Bold), 1)
    } else if v == 2 {
        (with_effect(style, Effect::Dimmed), 1)
    } else if v == 3 {
        (with_effect(style, Effect::Italic), 1)
    } else if v == 4 {
        if at + 1 < values.len() && at + 1 < grouped.len() && grouped[at + 1] {
            (underlined(style, values[at + 1]), 2)
        } else {
            (underlined(style, 1), 1)
        }
    } else if v == 7 {
        (with_effect(style, Effect::Invert), 1)
    } else if v == 8 {
        (with_effect(style, Effect::Hidden), 1)
    } else if v == 9 {
        (with_effect(style, Effect::Strikethrough), 1)
    } else if v == 21 {
        (underlined(style, 2), 1)
    } else if v == 22 {
        (without_effect(without_effect(style, Effect::Bold), Effect::Dimmed), 1)
    } else if v == 23 {
        (without_effect(style, Effect::Italic), 1)
    } else if v == 24 {
        (underlined(style, 0), 1)
    } else if v == 27 {
        (without_effect(style, Effect::Invert), 1)
    } else if v == 28 {
        (without_effect(style, Effect::Hidden), 1)
    } else if v == 29 {
        (without_effect(style, Effect::Strikethrough), 1)
    } else if 30 <= v <= 37 {
        (Style { fg: Some(Color::Ansi(named_color((v - 30) as u16).unwrap())), ..style }, 1)
    } else if 40 <= v <= 47 {
        (Style { bg: Some(Color::Ansi(named_color((v - 40) as u16).unwrap())), ..style }, 1)
    } else if 90 <= v <= 97 {
        (Style { fg: Some(Color::Ansi(named_color((v - 82) as u16).unwrap())), ..style }, 1)
    } else if 100 <= v <= 107 {
        (Style { bg: Some(Color::Ansi(named_color((v - 92) as u16).unwrap())), ..style }, 1)
    } else if v == 39 {
        (Style { fg: None, ..style }, 1)
    } else if v == 49 {
        (Style { bg: None, ..style }, 1)
    } else if v == 59 {
        (Style { underline: None, ..style }, 1)
    } else if v == 38 || v == 48 || v == 58 {
        match custom_color(values, at + 1) {
            Some((color, taken)) => (
                if v == 38 {
                    Style { fg: Some(color), ..style }
                } else if v == 48 {
                    Style { bg: Some(color), ..style }
                } else {
                    Style { underline: Some(color), ..style }
                },
                1 + taken,
            ),
            None => (style, values.len() - at),
        }
    } else {
        (style, 1)
    }
}

/// The style after the numbers from `at` on, one after the other.
pub open spec fn rendition_from(style: Style, values: Seq<u16>, grouped: Seq<bool>, at: int) -> Style
    decreases values.len() - at,
{
    if 0 <= at < values.len() {
        let step = rendition_step(style, values, grouped, at);
        rendition_from(step.0, values, grouped, at + step.1)
    } else {
        style
    }
}

/// The style that an escape sequence leaves.
///
/// `values` are the numbers of the sequence, and `grouped` says of each
/// whether it was written after a colon, as part of the number before it.
/// A sequence without a number resets the style.
pub open spec fn rendition(style: Style, values: Seq<u16>, grouped: Seq<bool>) -> Style {
    if values.len() == 0 {
        Style::spec_new()
    } else {
        rendition_from(style, values, grouped, 0)
    }
}

/// The color that follows the numbers 38, 48 and 58, and how many
/// numbers it takes.
fn read_custom_color(values: &[u16], at: usize) -> (found: Option<(Color, usize)>)
    requires
        at <= values.len(),
    ensures
        match found {
            Some((color, taken)) => custom_color(values@, at as int) == Some((color, taken as int))
                && at + taken <= values.len(),
            None => custom_color(values@, at as int).is_none(),
        },
{
    let left = values.len() - at;
    if left >= 2 && values[at] == 5 {
        Some((Color::Ansi256((values[at + 1] % 256) as u8), 2))
    } else if left >= 4 && values[at] == 2 {
        let r = (values[at + 1] % 256) as u8;
        let g = (values[at + 2] % 256) as u8;
        let b = (values[at + 3] % 256) as u8;
        Some((Color::Rgb(Rgb { r, g, b }), 4))
    } else {
        None
    }
}

/// The named color of a number, counted from `base`.
fn named(v: u16, base: u16) -> (color: Color)
    requires
        base <= v,
        v - base < 16,
    ensures
        color == Color::Ansi(named_color((v - base) as u16).unwrap()),
{
    match ansi_color_at(v - base) {
        Some(c) => Color::Ansi(c),
        None => Color::Ansi(AnsiColor::Black),
    }
}

/// The style after the number at `at`, and how many numbers that took.
fn step(style: Style, values: &[u16], grouped: &[bool], at: usize) -> (out: (Style, usize))
    requires
        at < values.len(),
    ensures
        (out.0, out.1 as int) == rendition_step(style, values@, grouped@, at as int),
        1 <= out.1 <= values.len() - at,
{
    let v = values[at];
    if v == 0 {
        (Style::new(), 1)
    } else if v == 1 {
        (style.effects(style.effects.insert(Effect::Bold)), 1)
    } else if v == 2 {
        (style.effects(style.effects.insert(Effect::Dimmed)), 1)
    } else if v == 3 {
        (style.effects(style.effects.insert(Effect::Italic)), 1)
    } else if v == 4 {
        if at + 1 < values.len() && at + 1 < grouped.len() && grouped[at + 1] {
            (underline(style, values[at + 1]), 2)
        } else {
            (underline(style, 1), 1)
        }
    } else if v == 7 {
        (style.effects(style.effects.insert(Effect::Invert)), 1)
    } else if v == 8 {
        (style.effects(style.effects.insert(Effect::Hidden)), 1)
    } else if v == 9 {
        (style.effects(style.effects.insert(Effect::Strikethrough)), 1)
    } else if v == 21 {
        (underline(style, 2), 1)
    } else if v == 22 {
        (style.effects(style.effects.remove(Effect::Bold).remove(Effect::Dimmed)), 1)
    } else if v == 23 {
        (style.effects(style.effects.remove(Effect::Italic)), 1)
    } else if v == 24 {
        (underline(style, 0), 1)
    } else if v == 27 {
        (style.effects(style.effects.remove(Effect::Invert)), 1)
    } else if v == 28 {
        (style.effects(style.effects.remove(Effect::Hidden)), 1)
    } else if v == 29 {
        (style.effects(style.effects.remove(Effect::Strikethrough)), 1)
    } else if 30 <= v && v <= 37 {
        (style.fg_color(Some(named(v, 30))), 1)
    } else if 40 <= v && v <= 47 {
        (style.bg_color(Some(named(v, 40))), 1)
    } else if 90 <= v && v <= 97 {
        (style.fg_color(Some(named(v, 82))), 1)
    } else if 100 <= v && v <= 107 {
        (style.bg_color(Some(named(v, 92))), 1)
    } else if v == 39 {
        (style.fg_color(None), 1)
    } else if v == 49 {
        (style.bg_color(None), 1)
    } else if v == 59 {
        (style.underline_color(None), 1)
    } else if v == 38 || v == 48 || v == 58 {
        match read_custom_color(values, at + 1) {
            Some((color, taken)) => {
                let next = if v == 38 {
                    style.fg_color(Some(color))
                } else if v == 48 {
                    style.bg_color(Some(color))
                } else {
                    style.underline_color(Some(color))
                };
                (next, 1 + taken)
            },
            None => (style, values.len() - at),
        }
    } else {
        (style, 1)
    }
}

/// The style that an escape sequence leaves, given its numbers and
/// which of them were written after a colon.
pub fn graphic_rendition(style: Style, values: &[u16], grouped: &[bool]) -> (out: Style)
    ensures
        out == rendition(style, values@, grouped@),
{
    if values.len() == 0 {
        return Style::new();
    }
    let mut current = style;
    let mut at: usize = 0;
    while at < values.len()
        invariant
            at <= values.len(),
            rendition_from(current, values@, grouped@, at as int) == rendition_from(
                style,
                values@,
                grouped@,
                0,
            ),
        decreases values.len() - at,
    {
        let (next, taken) = step(current, values, grouped, at);
        current = next;
        at = at + taken;
    }
    current
}

} // verus!
