//! The style model: colors, text effects, and the style of one run of text.

use vstd::prelude::*;

verus! {

/// A 24-bit color.
#[derive(Clone, Copy, Debug, PartialEq, Eq, Structural)]
pub struct Rgb {
    pub r: u8,
    pub g: u8,
    pub b: u8,
}

/// The sixteen colors that a terminal names.
#[derive(Clone, Copy, Debug, PartialEq, Eq, Structural)]
pub enum AnsiColor {
    Black,
    Red,
    Green,
    Yellow,
    Blue,
    Magenta,
    Cyan,
    White,
    BrightBlack,
    BrightRed,
    BrightGreen,
    BrightYellow,
    BrightBlue,
    BrightMagenta,
    BrightCyan,
    BrightWhite,
}

impl AnsiColor {
    /// The position of the color in a sixteen-entry palette.
    pub open spec fn spec_index(self) -> u8 {
        match self {
            AnsiColor::Black => 0,
            AnsiColor::Red => 1,
            AnsiColor::Green => 2,
            AnsiColor::Yellow => 3,
            AnsiColor::Blue => 4,
            AnsiColor::Magenta => 5,
            AnsiColor::Cyan => 6,
            AnsiColor::White => 7,
            AnsiColor::BrightBlack => 8,
            AnsiColor::BrightRed => 9,
            AnsiColor::BrightGreen => 10,
            AnsiColor::BrightYellow => 11,
            AnsiColor::BrightBlue => 12,
            AnsiColor::BrightMagenta => 13,
            AnsiColor::BrightCyan => 14,
            AnsiColor::BrightWhite => 15,
        }
    }

    /// The position of the color in a sixteen-entry palette.
    #[verifier::when_used_as_spec(spec_index)]
    pub fn index(self) -> (i: u8)
        ensures
            i == self.spec_index(),
            i < 16,
    {
        match self {
            AnsiColor::Black => 0,
            AnsiColor::Red => 1,
            AnsiColor::Green => 2,
            AnsiColor::Yellow => 3,
            AnsiColor::Blue => 4,
            AnsiColor::Magenta => 5,
            AnsiColor::Cyan => 6,
            AnsiColor::White => 7,
            AnsiColor::BrightBlack => 8,
            AnsiColor::BrightRed => 9,
            AnsiColor::BrightGreen => 10,
            AnsiColor::BrightYellow => 11,
            AnsiColor::BrightBlue => 12,
            AnsiColor::BrightMagenta => 13,
            AnsiColor::BrightCyan => 14,
            AnsiColor::BrightWhite => 15,
        }
    }
}

/// A color as a terminal can ask for it.
#[derive(Clone, Copy, Debug, PartialEq, Eq, Structural)]
pub enum Color {
    /// One of the sixteen named colors.
    Ansi(AnsiColor),
    /// An entry of the 256-color table.
    Ansi256(u8),
    /// A color given by its components.
    Rgb(Rgb),
}

/// One text effect.
#[derive(Clone, Copy, Debug, PartialEq, Eq, Structural)]
pub enum Effect {
    Bold,
    Italic,
    Underline,
    DoubleUnderline,
    CurlyUnderline,
    DottedUnderline,
    DashedUnderline,
    Strikethrough,
    Dimmed,
    Hidden,
    Invert,
}

/// A set of text effects, one flag for each [`Effect`].
#[derive(Clone, Copy, Debug, PartialEq, Eq, Structural)]
pub struct Effects {
    pub bold: bool,
    pub italic: bool,
    pub underline: bool,
    pub double_underline: bool,
    pub curly_underline: bool,
    pub dotted_underline: bool,
    pub dashed_underline: bool,
    pub strikethrough: bool,
    pub dimmed: bool,
    pub hidden: bool,
    pub invert: bool,
}

impl Effects {
    /// Whether `effect` is in the set.
    pub open spec fn has(self, effect: Effect) -> bool {
        match effect {
            Effect::Bold => self.bold,
            Effect::Italic => self.italic,
            Effect::Underline => self.underline,
            Effect::DoubleUnderline => self.double_underline,
            Effect::CurlyUnderline => self.curly_underline,
            Effect::DottedUnderline => self.dotted_underline,
            Effect::DashedUnderline => self.dashed_underline,
            Effect::Strikethrough => self.strikethrough,
            Effect::Dimmed => self.dimmed,
            Effect::Hidden => self.hidden,
            Effect::Invert => self.invert,
        }
    }

    /// The set with no effect in it.
    pub open spec fn spec_plain() -> Effects {
        Effects {
            bold: false,
            italic: false,
            underline: false,
            double_underline: false,
            curly_underline: false,
            dotted_underline: false,
            dashed_underline: false,
            strikethrough: false,
            dimmed: false,
            hidden: false,
            invert: false,
        }
    }

    /// The set with `effect` added.
    pub open spec fn spec_insert(self, effect: Effect) -> Effects {
        self.with(effect, true)
    }

    /// The set with `effect` taken out.
    pub open spec fn spec_remove(self, effect: Effect) -> Effects {
        self.with(effect, false)
    }

    /// The set in which the flag of `effect` is `on` and every other flag is
    /// as in `self`.
    pub open spec fn with(self, effect: Effect, on: bool) -> Effects {
        match effect {
            Effect::Bold => Effects { bold: on, ..self },
            Effect::Italic => Effects { italic: on, ..self },
            Effect::Underline => Effects { underline: on, ..self },
            Effect::DoubleUnderline => Effects { double_underline: on, ..self },
            Effect::CurlyUnderline => Effects { curly_underline: on, ..self },
            Effect::DottedUnderline => Effects { dotted_underline: on, ..self },
            Effect::DashedUnderline => Effects { dashed_underline: on, ..self },
            Effect::Strikethrough => Effects { strikethrough: on, ..self },
            Effect::Dimmed => Effects { dimmed: on, ..self },
            Effect::Hidden => Effects { hidden: on, ..self },
            Effect::Invert => Effects { invert: on, ..self },
        }
    }

    /// The effects that are in `self` or in `other`.
    pub open spec fn spec_union(self, other: Effects) -> Effects {
        Effects {
            bold: self.bold || other.bold,
            italic: self.italic || other.italic,
            underline: self.underline || other.underline,
            double_underline: self.double_underline || other.double_underline,
            curly_underline: self.curly_underline || other.curly_underline,
            dotted_underline: self.dotted_underline || other.dotted_underline,
            dashed_underline: self.dashed_underline || other.dashed_underline,
            strikethrough: self.strikethrough || other.strikethrough,
            dimmed: self.dimmed || other.dimmed,
            hidden: self.hidden || other.hidden,
            invert: self.invert || other.invert,
        }
    }

    /// The set with no effect in it.
    #[verifier::when_used_as_spec(spec_plain)]
    pub fn plain() -> (e: Effects)
        ensures
            e == Effects::spec_plain(),
            forall|x: Effect| !e.has(x),
    {
        Effects {
            bold: false,
            italic: false,
            underline: false,
            double_underline: false,
            curly_underline: false,
            dotted_underline: false,
            dashed_underline: false,
            strikethrough: false,
            dimmed: false,
            hidden: false,
            invert: false,
        }
    }

    /// Whether `effect` is in the set.
    pub fn contains(self, effect: Effect) -> (b: bool)
        ensures
            b == self.has(effect),
    {
        match effect {
            Effect::Bold => self.bold,
            Effect::Italic => self.italic,
            Effect::Underline => self.underline,
            Effect::DoubleUnderline => self.double_underline,
            Effect::CurlyUnderline => self.curly_underline,
            Effect::DottedUnderline => self.dotted_underline,
            Effect::DashedUnderline => self.dashed_underline,
            Effect::Strikethrough => self.strikethrough,
            Effect::Dimmed => self.dimmed,
            Effect::Hidden => self.hidden,
            Effect::Invert => self.invert,
        }
    }

    /// The set with `effect` added.
    #[verifier::when_used_as_spec(spec_insert)]
    pub fn insert(self, effect: Effect) -> (e: Effects)
        ensures
            e == self.spec_insert(effect),
            forall|x: Effect| e.has(x) == (x == effect || self.has(x)),
    {
        let mut e = self;
        match effect {
            Effect::Bold => { e.bold = true; },
            Effect::Italic => { e.italic = true; },
            Effect::Underline => { e.underline = true; },
            Effect::DoubleUnderline => { e.double_underline = true; },
            Effect::CurlyUnderline => { e.curly_underline = true; },
            Effect::DottedUnderline => { e.dotted_underline = true; },
            Effect::DashedUnderline => { e.dashed_underline = true; },
            Effect::Strikethrough => { e.strikethrough = true; },
            Effect::Dimmed => { e.dimmed = true; },
            Effect::Hidden => { e.hidden = true; },
            Effect::Invert => { e.invert = true; },
        }
        e
    }

    /// The set with `effect` taken out.
    #[verifier::when_used_as_spec(spec_remove)]
    pub fn remove(self, effect: Effect) -> (e: Effects)
        ensures
            e == self.spec_remove(effect),
            forall|x: Effect| e.has(x) == (x != effect && self.has(x)),
    {
        let mut e = self;
        match effect {
            Effect::Bold => { e.bold = false; },
            Effect::Italic => { e.italic = false; },
            Effect::Underline => { e.underline = false; },
            Effect::DoubleUnderline => { e.double_underline = false; },
            Effect::CurlyUnderline => { e.curly_underline = false; },
            Effect::DottedUnderline => { e.dotted_underline = false; },
            Effect::DashedUnderline => { e.dashed_underline = false; },
            Effect::Strikethrough => { e.strikethrough = false; },
            Effect::Dimmed => { e.dimmed = false; },
            Effect::Hidden => { e.hidden = false; },
            Effect::Invert => { e.invert = false; },
        }
        e
    }

    /// The effects that are in `self` or in `other`.
    #[verifier::when_used_as_spec(spec_union)]
    pub fn union(self, other: Effects) -> (e: Effects)
        ensures
            e == self.spec_union(other),
            forall|x: Effect| e.has(x) == (self.has(x) || other.has(x)),
    {
        Effects {
            bold: self.bold || other.bold,
            italic: self.italic || other.italic,
            underline: self.underline || other.underline,
            double_underline: self.double_underline || other.double_underline,
            curly_underline: self.curly_underline || other.curly_underline,
            dotted_underline: self.dotted_underline || other.dotted_underline,
            dashed_underline: self.dashed_underline || other.dashed_underline,
            strikethrough: self.strikethrough || other.strikethrough,
            dimmed: self.dimmed || other.dimmed,
            hidden: self.hidden || other.hidden,
            invert: self.invert || other.invert,
        }
    }
}

/// The style of one run of text.
#[derive(Clone, Copy, Debug, PartialEq, Eq, Structural)]
pub struct Style {
    pub fg: Option<Color>,
    pub bg: Option<Color>,
    pub underline: Option<Color>,
    pub effects: Effects,
}

impl Style {
    /// The style with no color and no effect.
    pub open spec fn spec_new() -> Style {
        Style { fg: None, bg: None, underline: None, effects: Effects::spec_plain() }
    }

    /// Whether reverse video has been resolved: the style does not ask for
    /// [`Effect::Invert`].
    pub open spec fn is_resolved(self) -> bool {
        !self.effects.invert
    }

    /// What [`Style::resolve_invert`] returns.
    ///
    /// A style without [`Effect::Invert`] is kept. Otherwise the two colors
    /// change places, a missing one is taken from the other default, and the
    /// effect is taken out.
    pub open spec fn resolved(self, default_fg: Color, default_bg: Color) -> Style {
        if self.effects.invert {
            Style {
                fg: Some(
                    match self.bg {
                        Some(c) => c,
                        None => default_bg,
                    },
                ),
                bg: Some(
                    match self.fg {
                        Some(c) => c,
                        None => default_fg,
                    },
                ),
                underline: self.underline,
                effects: self.effects.spec_remove(Effect::Invert),
            }
        } else {
            self
        }
    }

    /// The style with no color and no effect.
    #[verifier::when_used_as_spec(spec_new)]
    pub fn new() -> (s: Style)
        ensures
            s == Style::spec_new(),
    {
        Style { fg: None, bg: None, underline: None, effects: Effects::plain() }
    }

    /// The style with the foreground color replaced.
    pub fn fg_color(self, color: Option<Color>) -> (s: Style)
        ensures
            s == (Style { fg: color, ..self }),
    {
        Style { fg: color, ..self }
    }

    /// The style with the background color replaced.
    pub fn bg_color(self, color: Option<Color>) -> (s: Style)
        ensures
            s == (Style { bg: color, ..self }),
    {
        Style { bg: color, ..self }
    }

    /// The style with the underline color replaced.
    pub fn underline_color(self, color: Option<Color>) -> (s: Style)
        ensures
            s == (Style { underline: color, ..self }),
    {
        Style { underline: color, ..self }
    }

    /// The style with the set of effects replaced.
    pub fn effects(self, effects: Effects) -> (s: Style)
        ensures
            s == (Style { effects: effects, ..self }),
    {
        Style { effects, ..self }
    }

    /// The foreground color, if one is set.
    pub fn get_fg_color(self) -> (c: Option<Color>)
        ensures
            c == self.fg,
    {
        self.fg
    }

    /// The background color, if one is set.
    pub fn get_bg_color(self) -> (c: Option<Color>)
        ensures
            c == self.bg,
    {
        self.bg
    }

    /// The underline color, if one is set.
    pub fn get_underline_color(self) -> (c: Option<Color>)
        ensures
            c == self.underline,
    {
        self.underline
    }

    /// The set of effects.
    pub fn get_effects(self) -> (e: Effects)
        ensures
            e == self.effects,
    {
        self.effects
    }

    /// Resolves reverse video into concrete colors.
    ///
    /// The result never asks for [`Effect::Invert`], and a style that did not
    /// ask for it comes back unchanged.
    pub fn resolve_invert(self, default_fg: Color, default_bg: Color) -> (s: Style)
        ensures
            s == self.resolved(default_fg, default_bg),
            s.is_resolved(),
            !self.effects.invert ==> s == self,
            forall|x: Effect| s.effects.has(x) == (x != Effect::Invert && self.effects.has(x)),
    {
        if self.effects.contains(Effect::Invert) {
            let fg = match self.bg {
                Some(c) => c,
                None => default_bg,
            };
            let bg = match self.fg {
                Some(c) => c,
                None => default_fg,
            };
            Style {
                fg: Some(fg),
                bg: Some(bg),
                underline: self.underline,
                effects: self.effects.remove(Effect::Invert),
            }
        } else {
            self
        }
    }
}

} // verus!
