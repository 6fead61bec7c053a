//! The `<span>` elements of a document: one for the text of a run, and
//! one that paints the background behind it.

use crate::classes::class_name;
use crate::classes::color_name;
use crate::classes::BG_PREFIX;
use crate::classes::FG_PREFIX;
use crate::classes::UNDERLINE_PREFIX;
use crate::element::Element;
use crate::style::Color;
use crate::style::Effect;
use crate::style::Effects;
use crate::style::Style;
use crate::text::display_width;
use crate::text::escape_text;
use crate::text::escaped;
use crate::text::push_repeated;
use crate::text::repeated;
use crate::text::text_width;
use vstd::prelude::*;
use vstd::string::*;

verus! {

/// The effects that have a class, in the order in which a span lists them.
pub open spec fn span_effect_order() -> Seq<Effect> {
    seq![
        Effect::Underline,
        Effect::DoubleUnderline,
        Effect::CurlyUnderline,
        Effect::DottedUnderline,
        Effect::DashedUnderline,
        Effect::Strikethrough,
        Effect::Bold,
        Effect::Italic,
        Effect::Dimmed,
        Effect::Hidden,
    ]
}

/// The effects of `order` that are in `effects`, in that order.
pub open spec fn chosen(order: Seq<Effect>, effects: Effects) -> Seq<Effect>
    decreases order.len(),
{
    if order.len() == 0 {
        Seq::empty()
    } else if effects.has(order.last()) {
        chosen(order.drop_last(), effects).push(order.last())
    } else {
        chosen(order.drop_last(), effects)
    }
}

/// The name of the class of an effect. Reverse video has none: it is
/// resolved into colors before anything is written.
pub open spec fn effect_class_spec(effect: Effect) -> Seq<char> {
    match effect {
        Effect::Bold => "bold"@,
        Effect::Italic => "italic"@,
        Effect::Underline => "underline"@,
        Effect::DoubleUnderline => "double-underline"@,
        Effect::CurlyUnderline => "curly-underline"@,
        Effect::DottedUnderline => "dotted-underline"@,
        Effect::DashedUnderline => "dashed-underline"@,
        Effect::Strikethrough => "strikethrough"@,
        Effect::Dimmed => "dimmed"@,
        Effect::Hidden => "hidden"@,
        Effect::Invert => ""@,
    }
}

/// The names of the classes of `effects`, in their order.
pub open spec fn effect_class_names(effects: Seq<Effect>) -> Seq<Seq<char>> {
    Seq::new(effects.len(), |i: int| effect_class_spec(effects[i]))
}

/// The class of a color in a role given by its prefix, where there is a
/// color.
pub open spec fn color_class_names(prefix: Seq<char>, color: Option<Color>) -> Seq<Seq<char>> {
    match color {
        Some(c) => seq![class_name(prefix, c)],
        None => Seq::empty(),
    }
}

/// The classes of the span that holds the text of a run: that of the
/// foreground color, that of the underline color, then those of the
/// effects.
pub open spec fn fg_classes(style: Style) -> Seq<Seq<char>> {
    color_class_names("fg"@, style.fg) + color_class_names("underline"@, style.underline)
        + effect_class_names(chosen(span_effect_order(), style.effects))
}

/// The classes of the span that paints the background of a run.
pub open spec fn bg_classes(style: Style) -> Seq<Seq<char>> {
    color_class_names("bg"@, style.bg)
}

/// The parts with a space between each two.
pub open spec fn spaced(parts: Seq<Seq<char>>) -> Seq<char>
    decreases parts.len(),
{
    if parts.len() == 0 {
        Seq::empty()
    } else if parts.len() == 1 {
        parts[0]
    } else {
        spaced(parts.drop_last()) + " "@ + parts.last()
    }
}

/// The `class` attribute of a span, or nothing where it has no class.
pub open spec fn class_attribute(classes: Seq<Seq<char>>) -> Seq<char> {
    if classes.len() == 0 {
        Seq::empty()
    } else {
        " class=\""@ + spaced(classes) + "\""@
    }
}

/// What stands for a run in the row of text: a span with the classes of
/// the run's style around the escaped text, which is inside an anchor
/// where the run is a link.
pub open spec fn fg_span(style: Style, url: Option<Seq<char>>, text: Seq<char>) -> Seq<char> {
    "<span"@ + class_attribute(fg_classes(style)) + ">"@ + match url {
        Some(u) => "<a href=\""@ + u + "\">"@ + escaped(text) + "</a>"@,
        None => escaped(text),
    } + "</span>"@
}

/// What fills the background of a run: full blocks where it has a
/// background color, spaces where it has none.
pub open spec fn fill_unit(style: Style) -> Seq<char> {
    if style.bg.is_some() {
        "█"@
    } else {
        " "@
    }
}

/// What stands for a run in the row of backgrounds: a span with the class
/// of the background color around one fill for each column of the text.
pub open spec fn bg_span(style: Style, text: Seq<char>) -> Seq<char> {
    "<span"@ + class_attribute(bg_classes(style)) + ">"@ + repeated(
        fill_unit(style),
        text_width(text),
    ) + "</span>"@
}

/// The effect at a position of the order in which a span lists them.
fn span_effect(i: usize) -> (e: Effect)
    requires
        i < 10,
    ensures
        e == span_effect_order()[i as int],
        span_effect_order().len() == 10,
{
    if i == 0 {
        Effect::Underline
    } else if i == 1 {
        Effect::DoubleUnderline
    } else if i == 2 {
        Effect::CurlyUnderline
    } else if i == 3 {
        Effect::DottedUnderline
    } else if i == 4 {
        Effect::DashedUnderline
    } else if i == 5 {
        Effect::Strikethrough
    } else if i == 6 {
        Effect::Bold
    } else if i == 7 {
        Effect::Italic
    } else if i == 8 {
        Effect::Dimmed
    } else {
        Effect::Hidden
    }
}

/// The name of the class of an effect.
pub fn effect_class(effect: Effect) -> (name: &'static str)
    ensures
        name@ == effect_class_spec(effect),
{
    match effect {
        Effect::Bold => "bold",
        Effect::Italic => "italic",
        Effect::Underline => "underline",
        Effect::DoubleUnderline => "double-underline",
        Effect::CurlyUnderline => "curly-underline",
        Effect::DottedUnderline => "dotted-underline",
        Effect::DashedUnderline => "dashed-underline",
        Effect::Strikethrough => "strikethrough",
        Effect::Dimmed => "dimmed",
        Effect::Hidden => "hidden",
        Effect::Invert => "",
    }
}

/// An effect is chosen from an order where it stands in the order and in
/// the set.
pub proof fn lemma_chosen_contains(order: Seq<Effect>, effects: Effects, effect: Effect)
    ensures
        chosen(order, effects).contains(effect) <==> order.contains(effect) && effects.has(effect),
    decreases order.len(),
{
    if order.len() > 0 {
        let front = order.drop_last();
        let last = order.last();
        lemma_chosen_contains(front, effects, effect);
        let picked = chosen(front, effects);
        if order.contains(effect) {
            let i = choose|i: int| 0 <= i < order.len() && order[i] == effect;
            if i < front.len() {
                assert(front[i] == effect);
            }
        }
        if front.contains(effect) {
            let i = choose|i: int| 0 <= i < front.len() && front[i] == effect;
            assert(order[i] == effect);
        }
        assert(order[order.len() - 1] == last);
        if effects.has(last) {
            let out = picked.push(last);
            assert(out[out.len() - 1] == last);
            if picked.contains(effect) {
                let i = choose|i: int| 0 <= i < picked.len() && picked[i] == effect;
                assert(out[i] == effect);
            }
            if out.contains(effect) {
                let i = choose|i: int| 0 <= i < out.len() && out[i] == effect;
                if i < picked.len() {
                    assert(picked[i] == effect);
                }
            }
        }
    }
}

/// The classes of the span that holds the text of a run.
pub fn span_classes(style: &Style) -> (classes: Vec<String>)
    ensures
        classes.deep_view() == fg_classes(*style),
{
    let mut classes: Vec<String> = Vec::new();
    assert(classes.deep_view() =~= Seq::empty());
    if let Some(c) = style.fg {
        let name = color_name(FG_PREFIX, c);
        classes.push(name);
        assert(classes.deep_view() =~= color_class_names("fg"@, style.fg));
    }
    let ghost colors_one = classes.deep_view();
    if let Some(c) = style.underline {
        let name = color_name(UNDERLINE_PREFIX, c);
        classes.push(name);
        assert(classes.deep_view() =~= colors_one + color_class_names(
            "underline"@,
            style.underline,
        ));
    }
    let ghost colors = color_class_names("fg"@, style.fg) + color_class_names(
        "underline"@,
        style.underline,
    );
    let ghost order = span_effect_order();
    assert(classes.deep_view() =~= colors);
    assert(order.take(0) =~= Seq::empty());
    assert(classes.deep_view() =~= colors + effect_class_names(
        chosen(order.take(0), style.effects),
    ));
    let mut i: usize = 0;
    while i < 10
        invariant
            i <= 10,
            order == span_effect_order(),
            order.len() == 10,
            classes.deep_view() == colors + effect_class_names(
                chosen(order.take(i as int), style.effects),
            ),
        decreases 10 - i,
    {
        let e = span_effect(i);
        let ghost picked = chosen(order.take(i as int), style.effects);
        assert(order.take(i + 1).drop_last() =~= order.take(i as int));
        assert(order.take(i + 1).last() == e);
        if style.effects.contains(e) {
            let ghost listed = classes.deep_view();
            classes.push(effect_class(e).to_owned());
            assert(classes.deep_view() =~= listed.push(effect_class_spec(e)));
            assert(effect_class_names(picked.push(e)) =~= effect_class_names(picked).push(
                effect_class_spec(e),
            ));
            assert(classes.deep_view() =~= colors + effect_class_names(picked.push(e)));
        }
        i = i + 1;
    }
    assert(order.take(10) =~= order);
    classes
}

/// Appends the `class` attribute of a span, or nothing where it has no
/// class.
pub fn write_class_attribute(buffer: &mut String, classes: &Vec<String>)
    ensures
        final(buffer)@ == old(buffer)@ + class_attribute(classes.deep_view()),
{
    let ghost names = classes.deep_view();
    if classes.len() == 0 {
        assert(buffer@ =~= old(buffer)@ + class_attribute(names));
        return ;
    }
    buffer.append(" class=\"");
    let ghost start = buffer@;
    buffer.append(classes[0].as_str());
    assert(names.take(1).len() == 1);
    assert(names.take(1)[0] == classes[0]@);
    let mut i: usize = 1;
    while i < classes.len()
        invariant
            1 <= i <= classes.len(),
            names == classes.deep_view(),
            buffer@ == start + spaced(names.take(i as int)),
        decreases classes.len() - i,
    {
        buffer.append(" ");
        buffer.append(classes[i].as_str());
        proof {
            let next = names.take(i + 1);
            assert(next.drop_last() =~= names.take(i as int));
            assert(next.last() == classes[i as int]@);
            assert(buffer@ =~= start + spaced(next));
        }
        i = i + 1;
    }
    assert(names.take(i as int) =~= names);
    buffer.append("\"");
    assert(buffer@ =~= old(buffer)@ + class_attribute(names));
}

/// Appends the span that holds the text of a run: its classes, the
/// escaped `fragment`, and an anchor around that where the run is a link.
pub fn write_fg_span(buffer: &mut String, element: &Element, fragment: &str)
    ensures
        final(buffer)@ == old(buffer)@ + fg_span(element@.style, element@.url, fragment@),
{
    let classes = span_classes(&element.style);
    let text = escape_text(fragment);
    buffer.append("<span");
    write_class_attribute(buffer, &classes);
    buffer.append(">");
    match &element.url {
        Some(url) => {
            buffer.append("<a href=\"");
            buffer.append(url.as_str());
            buffer.append("\">");
            buffer.append(text.as_str());
            buffer.append("</a>");
        },
        None => {
            buffer.append(text.as_str());
        },
    }
    buffer.append("</span>");
    assert(buffer@ =~= old(buffer)@ + fg_span(element@.style, element@.url, fragment@));
}

/// Appends the span that paints the background of a run: the class of
/// its background color, and one fill for each column that `fragment`
/// takes.
pub fn write_bg_span(buffer: &mut String, style: &Style, fragment: &str)
    ensures
        final(buffer)@ == old(buffer)@ + bg_span(*style, fragment@),
{
    let mut classes: Vec<String> = Vec::new();
    assert(classes.deep_view() =~= Seq::empty());
    let fill = match style.bg {
        Some(c) => {
            classes.push(color_name(BG_PREFIX, c));
            "█"
        },
        None => " ",
    };
    assert(classes.deep_view() =~= bg_classes(*style));
    let width = display_width(fragment);
    buffer.append("<span");
    write_class_attribute(buffer, &classes);
    buffer.append(">");
    push_repeated(buffer, fill, width);
    buffer.append("</span>");
    assert(buffer@ =~= old(buffer)@ + bg_span(*style, fragment@));
}

} // verus!
