//! What holds of every document.

use crate::classes::class_name;
use crate::classes::color_classes;
use crate::classes::with_line;
use crate::classes::ColorClassView;
use crate::document::body;
use crate::document::body_start;
use crate::document::color_rules;
use crate::document::effect_rules_of;
use crate::document::fg_rows;
use crate::document::fg_spans;
use crate::document::has_background;
use crate::document::head;
use crate::document::rows;
use crate::document::rule_effect_order;
use crate::document::ruled_effects;
use crate::element::ElementView;
use crate::lines::comes_from;
use crate::lines::joined_text;
use crate::lines::lemma_line_count;
use crate::lines::lemma_lines_come_from;
use crate::lines::lemma_lines_show;
use crate::lines::line_comes_from;
use crate::lines::display_line_count;
use crate::lines::line_shows;
use crate::lines::shows_text;
use crate::lines::split_lines_spec;
use crate::palette::color_rgb;
use crate::palette::rgb_hex;
use crate::spans::bg_classes;
use crate::spans::chosen;
use crate::spans::class_attribute;
use crate::spans::effect_class_names;
use crate::spans::fg_classes;
use crate::spans::fg_span;
use crate::spans::fill_unit;
use crate::spans::lemma_chosen_contains;
use crate::spans::span_effect_order;
use crate::style::Color;
use crate::style::Effect;
use crate::style::Effects;
use crate::style::Rgb;
use crate::style::Style;
use crate::term::document;
use crate::term::effects_used;
use crate::term::lemma_effects_used;
use crate::term::resolved_all;
use crate::term::Term;
use crate::text::escaped;
use crate::text::repeated;
use crate::text::text_width;
use vstd::prelude::*;

verus! {

/// The document depends on the runs, the palette, the two default
/// colors, the page background and the font, and on nothing else: the
/// same input under the same settings gives the same document, whatever
/// the least width.
pub proof fn lemma_same_input_same_document(a: Term, b: Term, elements: Seq<ElementView>)
    requires
        a.palette@ == b.palette@,
        a.fg_color == b.fg_color,
        a.bg_color == b.bg_color,
        a.background == b.background,
        a.font_family@ == b.font_family@,
    ensures
        document(a, elements) == document(b, elements),
{
}

/// Resolving reverse video leaves the text of the runs as it is.
pub proof fn lemma_resolved_text(elements: Seq<ElementView>, default_fg: Color, default_bg: Color)
    ensures
        joined_text(resolved_all(elements, default_fg, default_bg)) == joined_text(elements),
    decreases elements.len(),
{
    if elements.len() > 0 {
        let runs = resolved_all(elements, default_fg, default_bg);
        assert(runs.drop_last() =~= resolved_all(elements.drop_last(), default_fg, default_bg));
        lemma_resolved_text(elements.drop_last(), default_fg, default_bg);
    }
}

/// A document has one row of text for each line of the text of its runs:
/// one for each line feed, and one more where the text goes on after the
/// last line feed. Runs that are all without text have one row.
pub proof fn lemma_rows_are_lines(elements: Seq<ElementView>, default_fg: Color, default_bg: Color)
    ensures
        fg_rows(split_lines_spec(resolved_all(elements, default_fg, default_bg))).len()
            == display_line_count(elements),
{
    lemma_resolved_text(elements, default_fg, default_bg);
    lemma_line_count(resolved_all(elements, default_fg, default_bg));
}

/// No effect is chosen from the empty set.
pub proof fn lemma_chosen_of_plain(order: Seq<Effect>)
    ensures
        chosen(order, Effects::spec_plain()) == Seq::<Effect>::empty(),
    decreases order.len(),
{
    if order.len() > 0 {
        lemma_chosen_of_plain(order.drop_last());
    }
}

/// A style that asks for reverse video and for nothing else is painted
/// with the default colors in each other's place: its background has the
/// class of the default foreground color, its text the class of the
/// default background color, and no other class.
pub proof fn lemma_invert_alone(default_fg: Color, default_bg: Color)
    ensures
        ({
            let style = Style {
                effects: Effects::spec_plain().spec_insert(Effect::Invert),
                ..Style::spec_new()
            };
            let painted = style.resolved(default_fg, default_bg);
            &&& painted.fg == Some(default_bg)
            &&& painted.bg == Some(default_fg)
            &&& painted.effects == Effects::spec_plain()
            &&& bg_classes(painted) == seq![class_name("bg"@, default_fg)]
            &&& fg_classes(painted) == seq![class_name("fg"@, default_bg)]
            &&& fill_unit(painted) == "█"@
        }),
{
    let style = Style {
        effects: Effects::spec_plain().spec_insert(Effect::Invert),
        ..Style::spec_new()
    };
    let painted = style.resolved(default_fg, default_bg);
    lemma_chosen_of_plain(span_effect_order());
    assert(effect_class_names(Seq::<Effect>::empty()) =~= Seq::<Seq<char>>::empty());
    assert(fg_classes(painted) =~= seq![class_name("fg"@, default_bg)]);
}

/// Every effect but reverse video has a class and a rule.
pub proof fn lemma_effect_orders(effect: Effect)
    ensures
        span_effect_order().contains(effect) <==> effect != Effect::Invert,
        rule_effect_order().contains(effect) <==> effect != Effect::Invert,
{
    let spans = span_effect_order();
    let rules = rule_effect_order();
    assert(spans[0] == Effect::Underline && rules[2] == Effect::Underline);
    assert(spans[1] == Effect::DoubleUnderline && rules[3] == Effect::DoubleUnderline);
    assert(spans[2] == Effect::CurlyUnderline && rules[4] == Effect::CurlyUnderline);
    assert(spans[3] == Effect::DottedUnderline && rules[5] == Effect::DottedUnderline);
    assert(spans[4] == Effect::DashedUnderline && rules[6] == Effect::DashedUnderline);
    assert(spans[5] == Effect::Strikethrough && rules[7] == Effect::Strikethrough);
    assert(spans[6] == Effect::Bold && rules[0] == Effect::Bold);
    assert(spans[7] == Effect::Italic && rules[1] == Effect::Italic);
    assert(spans[8] == Effect::Dimmed && rules[8] == Effect::Dimmed);
    assert(spans[9] == Effect::Hidden && rules[9] == Effect::Hidden);
    assert(forall|i: int| 0 <= i < 10 ==> spans[i] != Effect::Invert);
    assert(forall|i: int| 0 <= i < 10 ==> rules[i] != Effect::Invert);
}

/// Whether a span of the rows of text has the class of `effect`: a run
/// that has text has the effect, and the effect has a class.
pub open spec fn span_has_class_of(lines: Seq<Seq<ElementView>>, effect: Effect) -> bool {
    exists|k: int, i: int|
        0 <= k < lines.len() && 0 <= i < lines[k].len() && (#[trigger] lines[k][i]).text.len() > 0
            && chosen(span_effect_order(), lines[k][i].style.effects).contains(effect)
}

/// Whether the style sheet has the rule of `effect` when the runs use
/// `usage`.
pub open spec fn has_rule_of(usage: Effects, effect: Effect) -> bool {
    ruled_effects(usage).contains(effect)
}

/// Whether one of the runs has `effect` and a character to show.
pub open spec fn effect_is_shown(runs: Seq<ElementView>, effect: Effect) -> bool {
    exists|j: int|
        0 <= j < runs.len() && (#[trigger] runs[j]).style.effects.has(effect) && shows_text(
            runs[j].text,
        )
}

/// Where a span has the class of an effect, the style sheet has the rule
/// of that effect.
pub proof fn lemma_span_class_has_rule(runs: Seq<ElementView>, effect: Effect)
    requires
        span_has_class_of(split_lines_spec(runs), effect),
    ensures
        has_rule_of(effects_used(runs), effect),
{
    let lines = split_lines_spec(runs);
    let (k, i) = choose|k: int, i: int|
        0 <= k < lines.len() && 0 <= i < lines[k].len() && (#[trigger] lines[k][i]).text.len() > 0
            && chosen(span_effect_order(), lines[k][i].style.effects).contains(effect);
    let run = lines[k][i];
    lemma_chosen_contains(span_effect_order(), run.style.effects, effect);
    lemma_effect_orders(effect);
    lemma_lines_come_from(runs);
    assert(line_comes_from(lines[k], runs));
    assert(comes_from(run, runs));
    let j = choose|j: int|
        0 <= j < runs.len() && (#[trigger] runs[j]).style == run.style && runs[j].url == run.url;
    assert(runs[j].style.effects.has(effect));
    lemma_effects_used(runs, effect);
    lemma_chosen_contains(rule_effect_order(), effects_used(runs), effect);
}

/// The style sheet has the rule of an effect if and only if a span of
/// the rows of text has the class of that effect.
///
/// This is said of the runs in which an effect that any run has is also
/// had by a run with a character to show: the effects are gathered from
/// all runs, and a run without such a character has no span.
pub proof fn lemma_rule_iff_span_class(runs: Seq<ElementView>, effect: Effect)
    requires
        effect != Effect::Invert && effects_used(runs).has(effect) ==> effect_is_shown(
            runs,
            effect,
        ),
    ensures
        has_rule_of(effects_used(runs), effect) <==> span_has_class_of(
            split_lines_spec(runs),
            effect,
        ),
{
    let lines = split_lines_spec(runs);
    if span_has_class_of(lines, effect) {
        lemma_span_class_has_rule(runs, effect);
    }
    if has_rule_of(effects_used(runs), effect) {
        lemma_chosen_contains(rule_effect_order(), effects_used(runs), effect);
        lemma_effect_orders(effect);
        let j = choose|j: int|
            0 <= j < runs.len() && (#[trigger] runs[j]).style.effects.has(effect) && shows_text(
                runs[j].text,
            );
        let style = runs[j].style;
        lemma_lines_show(runs, j);
        let k = choose|k: int| 0 <= k < lines.len() && line_shows(#[trigger] lines[k], style);
        let i = choose|i: int|
            0 <= i < lines[k].len() && (#[trigger] lines[k][i]).text.len() > 0 && lines[k][i].style
                == style;
        lemma_chosen_contains(span_effect_order(), lines[k][i].style.effects, effect);
    }
}

/// The background of a run is filled with one character for each column
/// that its text takes: full blocks where the run has a background color,
/// spaces where it has none.
pub proof fn lemma_overlay_fill(style: Style, text: Seq<char>)
    ensures
        repeated(fill_unit(style), text_width(text)).len() == text_width(text),
        forall|i: int|
            0 <= i < text_width(text) ==> #[trigger] repeated(
                fill_unit(style),
                text_width(text),
            )[i] == if style.bg.is_some() {
                '█'
            } else {
                ' '
            },
{
    lemma_fill(style, text_width(text));
}

/// `n` fills are `n` characters, each a full block or each a space.
pub proof fn lemma_fill(style: Style, n: nat)
    ensures
        repeated(fill_unit(style), n).len() == n,
        forall|i: int|
            0 <= i < n ==> #[trigger] repeated(fill_unit(style), n)[i] == if style.bg.is_some() {
                '█'
            } else {
                ' '
            },
    decreases n,
{
    reveal_strlit("█");
    reveal_strlit(" ");
    if n > 0 {
        lemma_fill(style, (n - 1) as nat);
    }
}

/// Whether no run has a color, an effect or a link.
pub open spec fn is_plain(elements: Seq<ElementView>) -> bool {
    forall|i: int|
        0 <= i < elements.len() ==> (#[trigger] elements[i]).style == Style::spec_new()
            && elements[i].url.is_none()
}

/// The spans of a line of plain text: the escaped text of each run that
/// has text, in a span without a class.
pub open spec fn plain_spans(line: Seq<ElementView>) -> Seq<char>
    decreases line.len(),
{
    if line.len() == 0 {
        Seq::empty()
    } else if line.last().text.len() == 0 {
        plain_spans(line.drop_last())
    } else {
        plain_spans(line.drop_last()) + "<span>"@ + escaped(line.last().text) + "</span>"@
    }
}

/// The rows of lines of plain text: the spans of each line and a line
/// break.
pub open spec fn plain_rows(lines: Seq<Seq<ElementView>>) -> Seq<char>
    decreases lines.len(),
{
    if lines.len() == 0 {
        Seq::empty()
    } else {
        plain_rows(lines.drop_last()) + plain_spans(lines.last()) + "<br />\n"@
    }
}

/// Plain runs use no effect.
pub proof fn lemma_plain_effects(elements: Seq<ElementView>)
    requires
        is_plain(elements),
    ensures
        effects_used(elements) == Effects::spec_plain(),
    decreases elements.len(),
{
    if elements.len() > 0 {
        let front = elements.drop_last();
        assert forall|i: int| 0 <= i < front.len() implies (#[trigger] front[i]).style
            == Style::spec_new() && front[i].url.is_none() by {
            assert(front[i] == elements[i]);
        }
        lemma_plain_effects(front);
        assert(elements[elements.len() - 1].style == Style::spec_new());
    }
}

/// A line of plain runs adds no color class, and its spans have no class
/// and no anchor.
pub proof fn lemma_plain_line(classes: Seq<ColorClassView>, line: Seq<ElementView>, palette: Seq<Rgb>)
    requires
        is_plain(line),
    ensures
        with_line(classes, line, palette) == classes,
        fg_spans(line) == plain_spans(line),
        !has_background(line),
    decreases line.len(),
{
    if line.len() > 0 {
        let front = line.drop_last();
        assert forall|i: int| 0 <= i < front.len() implies (#[trigger] front[i]).style
            == Style::spec_new() && front[i].url.is_none() by {
            assert(front[i] == line[i]);
        }
        lemma_plain_line(classes, front, palette);
        let run = line[line.len() - 1];
        assert(run.style == Style::spec_new() && run.url.is_none());
        lemma_chosen_of_plain(span_effect_order());
        assert(effect_class_names(Seq::<Effect>::empty()) =~= Seq::<Seq<char>>::empty());
        assert(fg_classes(run.style) =~= Seq::<Seq<char>>::empty());
        reveal_strlit("<span");
        reveal_strlit(">");
        reveal_strlit("<span>");
        assert("<span"@ + class_attribute(fg_classes(run.style)) + ">"@ =~= "<span>"@);
        if run.text.len() > 0 {
            assert(fg_span(run.style, run.url, run.text) =~= "<span>"@ + escaped(run.text)
                + "</span>"@);
            assert(fg_spans(line) =~= plain_spans(line));
        }
    }
}

/// Lines of plain runs have no color class, and their rows are rows of
/// plain text.
pub proof fn lemma_plain_lines(lines: Seq<Seq<ElementView>>, palette: Seq<Rgb>)
    requires
        forall|k: int| 0 <= k < lines.len() ==> is_plain(#[trigger] lines[k]),
    ensures
        color_classes(lines, palette) == Seq::<ColorClassView>::empty(),
        rows(lines) == plain_rows(lines),
    decreases lines.len(),
{
    if lines.len() > 0 {
        let front = lines.drop_last();
        assert forall|k: int| 0 <= k < front.len() implies is_plain(#[trigger] front[k]) by {
            assert(front[k] == lines[k]);
        }
        lemma_plain_lines(front, palette);
        assert(is_plain(lines[lines.len() - 1]));
        lemma_plain_line(color_classes(front, palette), lines.last(), palette);
        assert(rows(lines) =~= plain_rows(lines));
    }
}

/// The document of runs without color, effect or link holds the escaped
/// text of each line in spans without a class, a line break after each
/// line, and in its style sheet no rule of a color class or of an effect.
pub proof fn lemma_plain_document(term: Term, elements: Seq<ElementView>)
    requires
        is_plain(elements),
    ensures
        document(term, elements) == head(
            rgb_hex(color_rgb(term.fg_color, term.palette@)),
            rgb_hex(color_rgb(term.bg_color, term.palette@)),
            Seq::empty(),
            Effects::spec_plain(),
            term.font_family@,
        ) + body_start(term.background) + plain_rows(split_lines_spec(elements))
            + "  </div>\n\n</body>\n</html>\n"@,
        color_rules(Seq::empty()) == Seq::<char>::empty(),
        effect_rules_of(ruled_effects(Effects::spec_plain())) == Seq::<char>::empty(),
{
    let runs = resolved_all(elements, term.fg_color, term.bg_color);
    assert(runs =~= elements);
    lemma_plain_effects(elements);
    let lines = split_lines_spec(elements);
    lemma_lines_come_from(elements);
    assert forall|k: int| 0 <= k < lines.len() implies is_plain(#[trigger] lines[k]) by {
        assert(line_comes_from(lines[k], elements));
        assert forall|i: int| 0 <= i < lines[k].len() implies (#[trigger] lines[k][i]).style
            == Style::spec_new() && lines[k][i].url.is_none() by {
            assert(comes_from(lines[k][i], elements));
        }
    }
    lemma_plain_lines(lines, term.palette@);
    lemma_chosen_of_plain(rule_effect_order());
    assert(body(term.background, lines) =~= body_start(term.background) + plain_rows(lines)
        + "  </div>\n\n</body>\n</html>\n"@);
}

} // verus!
