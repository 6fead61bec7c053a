//! The settings of the terminal that a document stands for, and the
//! rendering of a document under them.

use crate::classes::color_classes;
use crate::classes::color_styles;
use crate::document::body;
use crate::document::head;
use crate::document::write_body;
use crate::document::write_head;
use crate::element::Element;
use crate::element::ElementView;
use crate::lines::split_lines;
use crate::lines::split_lines_spec;
use crate::palette::color_rgb;
use crate::palette::rgb_hex;
use crate::palette::rgb_value;
use crate::palette::win10_console;
use crate::palette::win10_console_colors;
use crate::palette::Palette;
use crate::style::AnsiColor;
use crate::style::Color;
use crate::style::Effect;
use crate::style::Effects;
use vstd::prelude::*;

verus! {

/// The runs with reverse video resolved in each of their styles.
pub open spec fn resolved_all(
    elements: Seq<ElementView>,
    default_fg: Color,
    default_bg: Color,
) -> Seq<ElementView> {
    Seq::new(
        elements.len(),
        |i: int|
            ElementView { style: elements[i].style.resolved(default_fg, default_bg), ..elements[i] },
    )
}

/// The effects that at least one of the runs has.
pub open spec fn effects_used(elements: Seq<ElementView>) -> Effects
    decreases elements.len(),
{
    if elements.len() == 0 {
        Effects::spec_plain()
    } else {
        effects_used(elements.drop_last()).spec_union(elements.last().style.effects)
    }
}

/// An effect is in use exactly where a run has it.
pub proof fn lemma_effects_used(elements: Seq<ElementView>, effect: Effect)
    ensures
        effects_used(elements).has(effect) <==> exists|i: int|
            0 <= i < elements.len() && (#[trigger] elements[i]).style.effects.has(effect),
    decreases elements.len(),
{
    if elements.len() > 0 {
        let front = elements.drop_last();
        lemma_effects_used(front, effect);
        if effects_used(front).has(effect) {
            let i = choose|i: int| 0 <= i < front.len() && front[i].style.effects.has(effect);
            assert(elements[i].style.effects.has(effect));
        }
        if elements.last().style.effects.has(effect) {
            assert(elements[elements.len() - 1].style.effects.has(effect));
        }
        if exists|i: int|
            0 <= i < elements.len() && (#[trigger] elements[i]).style.effects.has(effect) {
            let i = choose|i: int|
                0 <= i < elements.len() && (#[trigger] elements[i]).style.effects.has(effect);
            if i < front.len() {
                assert(front[i].style.effects.has(effect));
            }
        }
    }
}

/// Resolves reverse video in the style of every run, and gathers the
/// effects that the runs then have.
///
/// Text and link of each run are kept. No style of the result asks for
/// [`Effect::Invert`].
pub fn resolve_styles(elements: &[Element], default_fg: Color, default_bg: Color) -> (out: (
    Vec<Element>,
    Effects,
))
    ensures
        out.0.deep_view() == resolved_all(elements.deep_view(), default_fg, default_bg),
        out.1 == effects_used(out.0.deep_view()),
        forall|i: int| 0 <= i < out.0.len() ==> (#[trigger] out.0[i]).style.is_resolved(),
        !out.1.invert,
{
    let mut runs: Vec<Element> = Vec::new();
    let mut usage = Effects::plain();
    let ghost all = elements.deep_view();
    let ghost goal = resolved_all(all, default_fg, default_bg);
    assert(runs.deep_view() =~= goal.take(0));
    let mut i: usize = 0;
    while i < elements.len()
        invariant
            i <= elements.len(),
            all == elements.deep_view(),
            goal == resolved_all(all, default_fg, default_bg),
            runs.len() == i,
            runs.deep_view() == goal.take(i as int),
            usage == effects_used(goal.take(i as int)),
            forall|j: int| 0 <= j < runs.len() ==> (#[trigger] runs[j]).style.is_resolved(),
            !usage.invert,
        decreases elements.len() - i,
    {
        let element = &elements[i];
        assert(all[i as int] == element@);
        let style = element.style.resolve_invert(default_fg, default_bg);
        let run = element.with_style(style);
        usage = usage.union(style.effects);
        let ghost listed = runs.deep_view();
        runs.push(run);
        proof {
            assert(runs.deep_view() =~= listed.push(run@));
            assert(goal.take(i + 1).drop_last() =~= goal.take(i as int));
            assert(goal.take(i + 1).last() == run@);
            assert(runs.deep_view() =~= goal.take(i + 1));
        }
        i = i + 1;
    }
    assert(goal.take(i as int) =~= goal);
    (runs, usage)
}

/// The settings of the terminal that a document stands for.
#[derive(Clone, Copy, Debug)]
pub struct Term {
    pub palette: Palette,
    pub fg_color: Color,
    pub bg_color: Color,
    pub background: bool,
    pub font_family: &'static str,
    pub min_width_px: usize,
}

/// The document of `elements` under the settings `term`.
///
/// Reverse video is resolved first. The resolved runs are split into
/// lines, the color classes are those of the lines, and the effect rules
/// are those of the effects that the resolved runs have.
pub open spec fn document(term: Term, elements: Seq<ElementView>) -> Seq<char> {
    let runs = resolved_all(elements, term.fg_color, term.bg_color);
    let lines = split_lines_spec(runs);
    head(
        rgb_hex(color_rgb(term.fg_color, term.palette@)),
        rgb_hex(color_rgb(term.bg_color, term.palette@)),
        color_classes(lines, term.palette@),
        effects_used(runs),
        term.font_family@,
    ) + body(term.background, lines)
}

impl Term {
    /// The default settings: the palette of the Windows 10 console, white
    /// on black, with the page background painted.
    pub fn new() -> (term: Term)
        ensures
            term.palette@ == win10_console_colors(),
            term.fg_color == Color::Ansi(AnsiColor::White),
            term.bg_color == Color::Ansi(AnsiColor::Black),
            term.background,
            term.font_family@ == "SFMono-Regular, Consolas, Liberation Mono, Menlo, monospace"@,
            term.min_width_px == 720,
    {
        Term {
            palette: win10_console(),
            fg_color: Color::Ansi(AnsiColor::White),
            bg_color: Color::Ansi(AnsiColor::Black),
            background: true,
            font_family: "SFMono-Regular, Consolas, Liberation Mono, Menlo, monospace",
            min_width_px: 720,
        }
    }

    /// The settings with another palette for the named colors.
    pub fn palette(self, palette: Palette) -> (term: Term)
        ensures
            term == (Term { palette: palette, ..self }),
    {
        Term { palette, ..self }
    }

    /// The settings with another default foreground color.
    pub fn fg_color(self, color: Color) -> (term: Term)
        ensures
            term == (Term { fg_color: color, ..self }),
    {
        Term { fg_color: color, ..self }
    }

    /// The settings with another default background color.
    pub fn bg_color(self, color: Color) -> (term: Term)
        ensures
            term == (Term { bg_color: color, ..self }),
    {
        Term { bg_color: color, ..self }
    }

    /// The settings with the page background painted or not.
    pub fn background(self, yes: bool) -> (term: Term)
        ensures
            term == (Term { background: yes, ..self }),
    {
        Term { background: yes, ..self }
    }

    /// The settings with another least width of the text, in pixels. The
    /// width is kept and does not change the document.
    pub fn min_width_px(self, px: usize) -> (term: Term)
        ensures
            term == (Term { min_width_px: px, ..self }),
    {
        Term { min_width_px: px, ..self }
    }

    /// Renders the runs as one HTML document.
    pub fn render_html(&self, elements: &[Element]) -> (html: String)
        ensures
            html@ == document(*self, elements.deep_view()),
    {
        let (runs, usage) = resolve_styles(elements, self.fg_color, self.bg_color);
        let lines = split_lines(runs.as_slice());
        let classes = color_styles(lines.as_slice(), &self.palette);
        let fg = rgb_value(self.fg_color, &self.palette);
        let bg = rgb_value(self.bg_color, &self.palette);
        let mut buffer = String::new();
        write_head(&mut buffer, fg.as_str(), bg.as_str(), &classes, usage, self.font_family);
        write_body(&mut buffer, self.background, &lines);
        assert(buffer@ =~= document(*self, elements.deep_view()));
        buffer
    }
}

impl Default for Term {
    fn default() -> (term: Term)
        ensures
            term.palette@ == win10_console_colors(),
            term.fg_color == Color::Ansi(AnsiColor::White),
            term.bg_color == Color::Ansi(AnsiColor::Black),
            term.background,
            term.font_family@ == "SFMono-Regular, Consolas, Liberation Mono, Menlo, monospace"@,
            term.min_width_px == 720,
    {
        Term::new()
    }
}

} // verus!
