//! The parts of a document: the style sheet in its head, and the rows of
//! spans in its body.

use crate::classes::ColorClass;
use crate::classes::ColorClassView;
use crate::classes::Role;
use crate::element::Element;
use crate::element::ElementView;
use crate::spans::bg_span;
use crate::spans::chosen;
use crate::spans::fg_span;
use crate::spans::write_bg_span;
use crate::spans::write_fg_span;
use crate::style::Effect;
use crate::style::Effects;
use vstd::prelude::*;
use vstd::string::*;

verus! {

/// The effects that have a rule, in the order in which the style sheet
/// lists them.
pub open spec fn rule_effect_order() -> Seq<Effect> {
    seq![
        Effect::Bold,
        Effect::Italic,
        Effect::Underline,
        Effect::DoubleUnderline,
        Effect::CurlyUnderline,
        Effect::DottedUnderline,
        Effect::DashedUnderline,
        Effect::Strikethrough,
        Effect::Dimmed,
        Effect::Hidden,
    ]
}

/// The rule of the class of an effect. Reverse video has none.
pub open spec fn effect_rule_spec(effect: Effect) -> Seq<char> {
    match effect {
        Effect::Bold => "    .bold { font-weight: bold; }\n"@,
        Effect::Italic => "    .italic { font-style: italic; }\n"@,
        Effect::Underline => "    .underline { text-decoration-line: underline; }\n"@,
        Effect::DoubleUnderline => "    .double-underline { text-decoration-line: underline; text-decoration-style: double; }\n"@,
        Effect::CurlyUnderline => "    .curly-underline { text-decoration-line: underline; text-decoration-style: wavy; }\n"@,
        Effect::DottedUnderline => "    .dotted-underline { text-decoration-line: underline; text-decoration-style: dotted; }\n"@,
        Effect::DashedUnderline => "    .dashed-underline { text-decoration-line: underline; text-decoration-style: dashed; }\n"@,
        Effect::Strikethrough => "    .strikethrough { text-decoration-line: line-through; }\n"@,
        Effect::Dimmed => "    .dimmed { opacity: 0.7; }\n"@,
        Effect::Hidden => "    .hidden { opacity: 0; }\n"@,
        Effect::Invert => ""@,
    }
}

/// The rules of `effects`, one after the other.
pub open spec fn effect_rules_of(effects: Seq<Effect>) -> Seq<char>
    decreases effects.len(),
{
    if effects.len() == 0 {
        Seq::empty()
    } else {
        effect_rules_of(effects.drop_last()) + effect_rule_spec(effects.last())
    }
}

/// The effects whose rules the style sheet holds when the runs use
/// `usage`: those of the order that are in `usage`.
pub open spec fn ruled_effects(usage: Effects) -> Seq<Effect> {
    chosen(rule_effect_order(), usage)
}

/// The rule of the class of a color: the text color for a foreground,
/// a background that cannot be selected, or an underline in that color.
pub open spec fn color_rule(class: ColorClassView) -> Seq<char> {
    match class.role {
        Role::Foreground => "    ."@ + class.name + " { color: "@ + class.rgb + " }\n"@,
        Role::Background => "    ."@ + class.name + " { background: "@ + class.rgb
            + "; user-select: none; }\n"@,
        Role::Underline => "    ."@ + class.name
            + " { text-decoration-line: underline; text-decoration-color: "@ + class.rgb
            + " }\n"@,
    }
}

/// The rules of the classes, one after the other.
pub open spec fn color_rules(classes: Seq<ColorClassView>) -> Seq<char>
    decreases classes.len(),
{
    if classes.len() == 0 {
        Seq::empty()
    } else {
        color_rules(classes.drop_last()) + color_rule(classes.last())
    }
}

/// The document up to the end of its head.
///
/// The style sheet holds the two classes of the default colors, the rule
/// of each color class, the container, the rule of each effect in use,
/// and the font of the spans.
pub open spec fn head(
    fg: Seq<char>,
    bg: Seq<char>,
    classes: Seq<ColorClassView>,
    usage: Effects,
    font_family: Seq<char>,
) -> Seq<char> {
    "<!DOCTYPE html>\n<html>\n<head>\n  <meta charset=\"UTF-8\">\n  <meta name=\"viewport\" content=\"width=device-width, initial-scale=1.0\">\n  <meta http-equiv=\"X-UA-Compatible\" content=\"ie=edge\">\n  <style>\n    .fg { color: "@
        + fg + " }\n    .bg { background: "@ + bg + " }\n"@ + color_rules(classes)
        + "    .container {\n      line-height: 18px;\n    }\n"@ + effect_rules_of(
        ruled_effects(usage),
    ) + "    span {\n      font: 14px "@ + font_family
        + ";\n      white-space: pre;\n      line-height: 18px;\n    }\n  </style>\n</head>\n\n"@
}

/// The spans of the text of a line: one for each run that has text.
pub open spec fn fg_spans(line: Seq<ElementView>) -> Seq<char>
    decreases line.len(),
{
    if line.len() == 0 {
        Seq::empty()
    } else if line.last().text.len() == 0 {
        fg_spans(line.drop_last())
    } else {
        fg_spans(line.drop_last()) + fg_span(
            line.last().style,
            line.last().url,
            line.last().text,
        )
    }
}

/// The spans of the backgrounds of a line: one for each run that has
/// text.
pub open spec fn bg_spans(line: Seq<ElementView>) -> Seq<char>
    decreases line.len(),
{
    if line.len() == 0 {
        Seq::empty()
    } else if line.last().text.len() == 0 {
        bg_spans(line.drop_last())
    } else {
        bg_spans(line.drop_last()) + bg_span(line.last().style, line.last().text)
    }
}

/// Whether a run of the line has a background color.
pub open spec fn has_background(line: Seq<ElementView>) -> bool {
    exists|i: int| 0 <= i < line.len() && (#[trigger] line[i]).style.bg.is_some()
}

/// The row of the text of a line.
pub open spec fn fg_row(line: Seq<ElementView>) -> Seq<char> {
    fg_spans(line) + "<br />\n"@
}

/// The row of the backgrounds of a line.
pub open spec fn bg_row(line: Seq<ElementView>) -> Seq<char> {
    bg_spans(line) + "<br />\n"@
}

/// The rows of a line: the row of its backgrounds where a run has a
/// background color, then the row of its text.
pub open spec fn line_rows(line: Seq<ElementView>) -> Seq<char> {
    if has_background(line) {
        bg_row(line) + fg_row(line)
    } else {
        fg_row(line)
    }
}

/// The rows of text of the lines: one for each line.
pub open spec fn fg_rows(lines: Seq<Seq<ElementView>>) -> Seq<Seq<char>> {
    Seq::new(lines.len(), |k: int| fg_row(lines[k]))
}

/// The rows of the lines, one line after the other.
pub open spec fn rows(lines: Seq<Seq<ElementView>>) -> Seq<char>
    decreases lines.len(),
{
    if lines.len() == 0 {
        Seq::empty()
    } else {
        rows(lines.drop_last()) + line_rows(lines.last())
    }
}

/// The start of the body. With `background` the body has the class of
/// the default background.
pub open spec fn body_start(background: bool) -> Seq<char> {
    if background {
        "<body class=\"bg\">\n\n  <div class=\"container fg\">\n"@
    } else {
        "<body>\n\n  <div class=\"container fg\">\n"@
    }
}

/// The document from its body on.
pub open spec fn body(background: bool, lines: Seq<Seq<ElementView>>) -> Seq<char> {
    body_start(background) + rows(lines) + "  </div>\n\n</body>\n</html>\n"@
}

/// The effect at a position of the order in which the style sheet lists
/// them.
fn rule_effect(i: usize) -> (e: Effect)
    requires
        i < 10,
    ensures
        e == rule_effect_order()[i as int],
        rule_effect_order().len() == 10,
{
    if i == 0 {
        Effect::Bold
    } else if i == 1 {
        Effect::Italic
    } else if i == 2 {
        Effect::Underline
    } else if i == 3 {
        Effect::DoubleUnderline
    } else if i == 4 {
        Effect::CurlyUnderline
    } else if i == 5 {
        Effect::DottedUnderline
    } else if i == 6 {
        Effect::DashedUnderline
    } else if i == 7 {
        Effect::Strikethrough
    } else if i == 8 {
        Effect::Dimmed
    } else {
        Effect::Hidden
    }
}

/// The rule of the class of an effect.
pub fn effect_rule(effect: Effect) -> (rule: &'static str)
    ensures
        rule@ == effect_rule_spec(effect),
{
    match effect {
        Effect::Bold => "    .bold { font-weight: bold; }\n",
        Effect::Italic => "    .italic { font-style: italic; }\n",
        Effect::Underline => "    .underline { text-decoration-line: underline; }\n",
        Effect::DoubleUnderline => "    .double-underline { text-decoration-line: underline; text-decoration-style: double; }\n",
        Effect::CurlyUnderline => "    .curly-underline { text-decoration-line: underline; text-decoration-style: wavy; }\n",
        Effect::DottedUnderline => "    .dotted-underline { text-decoration-line: underline; text-decoration-style: dotted; }\n",
        Effect::DashedUnderline => "    .dashed-underline { text-decoration-line: underline; text-decoration-style: dashed; }\n",
        Effect::Strikethrough => "    .strikethrough { text-decoration-line: line-through; }\n",
        Effect::Dimmed => "    .dimmed { opacity: 0.7; }\n",
        Effect::Hidden => "    .hidden { opacity: 0; }\n",
        Effect::Invert => "",
    }
}

/// Appends the rules of the effects in `usage`, in the order of the
/// style sheet.
pub fn write_effect_rules(buffer: &mut String, usage: Effects)
    ensures
        final(buffer)@ == old(buffer)@ + effect_rules_of(ruled_effects(usage)),
{
    let ghost order = rule_effect_order();
    assert(order.take(0) =~= Seq::empty());
    assert(buffer@ =~= old(buffer)@ + effect_rules_of(chosen(order.take(0), usage)));
    let mut i: usize = 0;
    while i < 10
        invariant
            i <= 10,
            order == rule_effect_order(),
            order.len() == 10,
            buffer@ == old(buffer)@ + effect_rules_of(chosen(order.take(i as int), usage)),
        decreases 10 - i,
    {
        let e = rule_effect(i);
        let ghost picked = chosen(order.take(i as int), usage);
        assert(order.take(i + 1).drop_last() =~= order.take(i as int));
        assert(order.take(i + 1).last() == e);
        if usage.contains(e) {
            buffer.append(effect_rule(e));
            assert(picked.push(e).drop_last() =~= picked);
            assert(buffer@ =~= old(buffer)@ + effect_rules_of(picked.push(e)));
        }
        i = i + 1;
    }
    assert(order.take(10) =~= order);
}

/// Appends the rule of the class of a color.
pub fn write_color_rule(buffer: &mut String, class: &ColorClass)
    ensures
        final(buffer)@ == old(buffer)@ + color_rule(class@),
{
    buffer.append("    .");
    buffer.append(class.name.as_str());
    match class.role {
        Role::Foreground => {
            buffer.append(" { color: ");
            buffer.append(class.rgb.as_str());
            buffer.append(" }\n");
        },
        Role::Background => {
            buffer.append(" { background: ");
            buffer.append(class.rgb.as_str());
            buffer.append("; user-select: none; }\n");
        },
        Role::Underline => {
            buffer.append(" { text-decoration-line: underline; text-decoration-color: ");
            buffer.append(class.rgb.as_str());
            buffer.append(" }\n");
        },
    }
    assert(buffer@ =~= old(buffer)@ + color_rule(class@));
}

/// Appends the document up to the end of its head.
pub fn write_head(
    buffer: &mut String,
    fg: &str,
    bg: &str,
    classes: &Vec<ColorClass>,
    usage: Effects,
    font_family: &str,
)
    ensures
        final(buffer)@ == old(buffer)@ + head(
            fg@,
            bg@,
            classes.deep_view(),
            usage,
            font_family@,
        ),
{
    buffer.append(
        "<!DOCTYPE html>\n<html>\n<head>\n  <meta charset=\"UTF-8\">\n  <meta name=\"viewport\" content=\"width=device-width, initial-scale=1.0\">\n  <meta http-equiv=\"X-UA-Compatible\" content=\"ie=edge\">\n  <style>\n    .fg { color: ",
    );
    buffer.append(fg);
    buffer.append(" }\n    .bg { background: ");
    buffer.append(bg);
    buffer.append(" }\n");
    let ghost start = buffer@;
    let ghost all = classes.deep_view();
    assert(all.take(0) =~= Seq::empty());
    assert(buffer@ =~= start + color_rules(all.take(0)));
    let mut i: usize = 0;
    while i < classes.len()
        invariant
            i <= classes.len(),
            all == classes.deep_view(),
            buffer@ == start + color_rules(all.take(i as int)),
        decreases classes.len() - i,
    {
        write_color_rule(buffer, &classes[i]);
        proof {
            let next = all.take(i + 1);
            assert(next.drop_last() =~= all.take(i as int));
            assert(next.last() == classes[i as int]@);
            assert(buffer@ =~= start + color_rules(next));
        }
        i = i + 1;
    }
    assert(all.take(i as int) =~= all);
    buffer.append("    .container {\n      line-height: 18px;\n    }\n");
    write_effect_rules(buffer, usage);
    buffer.append("    span {\n      font: 14px ");
    buffer.append(font_family);
    buffer.append(
        ";\n      white-space: pre;\n      line-height: 18px;\n    }\n  </style>\n</head>\n\n",
    );
    assert(buffer@ =~= old(buffer)@ + head(fg@, bg@, all, usage, font_family@));
}

/// Whether a run of the line has a background color.
pub fn line_has_background(line: &Vec<Element>) -> (b: bool)
    ensures
        b == has_background(line.deep_view()),
{
    let mut i: usize = 0;
    while i < line.len()
        invariant
            i <= line.len(),
            forall|j: int| 0 <= j < i ==> line.deep_view()[j].style.bg.is_none(),
        decreases line.len() - i,
    {
        if line[i].style.bg.is_some() {
            assert(line.deep_view()[i as int].style.bg.is_some());
            return true;
        }
        i = i + 1;
    }
    false
}

/// Appends the row of the backgrounds of a line.
pub fn write_bg_row(buffer: &mut String, line: &Vec<Element>)
    ensures
        final(buffer)@ == old(buffer)@ + bg_row(line.deep_view()),
{
    let ghost row = line.deep_view();
    assert(row.take(0) =~= Seq::empty());
    assert(buffer@ =~= old(buffer)@ + bg_spans(row.take(0)));
    let mut i: usize = 0;
    while i < line.len()
        invariant
            i <= line.len(),
            row == line.deep_view(),
            buffer@ == old(buffer)@ + bg_spans(row.take(i as int)),
        decreases line.len() - i,
    {
        let element = &line[i];
        proof {
            let next = row.take(i + 1);
            assert(next.drop_last() =~= row.take(i as int));
            assert(next.last() == element@);
        }
        if !element.text.as_str().is_empty() {
            write_bg_span(buffer, &element.style, element.text.as_str());
            assert(buffer@ =~= old(buffer)@ + bg_spans(row.take(i + 1)));
        }
        i = i + 1;
    }
    assert(row.take(i as int) =~= row);
    buffer.append("<br />\n");
    assert(buffer@ =~= old(buffer)@ + bg_row(row));
}

/// Appends the row of the text of a line.
pub fn write_fg_row(buffer: &mut String, line: &Vec<Element>)
    ensures
        final(buffer)@ == old(buffer)@ + fg_row(line.deep_view()),
{
    let ghost row = line.deep_view();
    assert(row.take(0) =~= Seq::empty());
    assert(buffer@ =~= old(buffer)@ + fg_spans(row.take(0)));
    let mut i: usize = 0;
    while i < line.len()
        invariant
            i <= line.len(),
            row == line.deep_view(),
            buffer@ == old(buffer)@ + fg_spans(row.take(i as int)),
        decreases line.len() - i,
    {
        let element = &line[i];
        proof {
            let next = row.take(i + 1);
            assert(next.drop_last() =~= row.take(i as int));
            assert(next.last() == element@);
        }
        if !element.text.as_str().is_empty() {
            write_fg_span(buffer, element, element.text.as_str());
            assert(buffer@ =~= old(buffer)@ + fg_spans(row.take(i + 1)));
        }
        i = i + 1;
    }
    assert(row.take(i as int) =~= row);
    buffer.append("<br />\n");
    assert(buffer@ =~= old(buffer)@ + fg_row(row));
}

/// Appends the document from its body on.
pub fn write_body(buffer: &mut String, background: bool, lines: &Vec<Vec<Element>>)
    ensures
        final(buffer)@ == old(buffer)@ + body(background, lines.deep_view()),
{
    if background {
        buffer.append("<body class=\"bg\">\n\n  <div class=\"container fg\">\n");
    } else {
        buffer.append("<body>\n\n  <div class=\"container fg\">\n");
    }
    let ghost start = buffer@;
    let ghost all = lines.deep_view();
    assert(all.take(0) =~= Seq::empty());
    assert(buffer@ =~= start + rows(all.take(0)));
    let mut k: usize = 0;
    while k < lines.len()
        invariant
            k <= lines.len(),
            all == lines.deep_view(),
            buffer@ == start + rows(all.take(k as int)),
        decreases lines.len() - k,
    {
        let line = &lines[k];
        let ghost so_far = buffer@;
        if line_has_background(line) {
            write_bg_row(buffer, line);
        }
        write_fg_row(buffer, line);
        proof {
            let next = all.take(k + 1);
            assert(next.drop_last() =~= all.take(k as int));
            assert(next.last() == line.deep_view());
            assert(buffer@ =~= so_far + line_rows(line.deep_view()));
            assert(buffer@ =~= start + rows(next));
        }
        k = k + 1;
    }
    assert(all.take(k as int) =~= all);
    buffer.append("  </div>\n\n</body>\n</html>\n");
    assert(buffer@ =~= old(buffer)@ + body(background, all));
}

} // verus!
