//! The CSS classes of colors: their names, and the sorted list of those
//! that a document uses.

use crate::element::Element;
use crate::element::ElementView;
use crate::palette::color_rgb;
use crate::palette::rgb_hex;
use crate::palette::rgb_value;
use crate::palette::Palette;
use crate::style::AnsiColor;
use crate::style::Color;
use crate::style::Rgb;
use crate::style::Style;
use crate::text::dec3;
use crate::text::hex2;
use crate::text::lemma_lex_less_irreflexive;
use crate::text::lemma_lex_less_total;
use crate::text::lemma_lex_less_transitive;
use crate::text::lex_less;
use crate::text::push_dec3;
use crate::text::push_hex2;
use crate::text::str_less;
use vstd::prelude::*;
use vstd::string::*;

verus! {

/// What a color is used for.
#[derive(Clone, Copy, Debug, PartialEq, Eq, Structural)]
pub enum Role {
    Foreground,
    Background,
    Underline,
}

/// The prefix of the classes of foreground colors.
pub const FG_PREFIX: &'static str = "fg";

/// The prefix of the classes of background colors.
pub const BG_PREFIX: &'static str = "bg";

/// The prefix of the classes of underline colors.
pub const UNDERLINE_PREFIX: &'static str = "underline";

impl Role {
    /// The prefix of the classes of colors in this role.
    pub open spec fn spec_prefix(self) -> Seq<char> {
        match self {
            Role::Foreground => "fg"@,
            Role::Background => "bg"@,
            Role::Underline => "underline"@,
        }
    }

    /// The color that a style gives this role.
    pub open spec fn color_in(self, style: Style) -> Option<Color> {
        match self {
            Role::Foreground => style.fg,
            Role::Background => style.bg,
            Role::Underline => style.underline,
        }
    }

    /// The prefix of the classes of colors in this role.
    pub fn prefix(self) -> (p: &'static str)
        ensures
            p@ == self.spec_prefix(),
    {
        match self {
            Role::Foreground => FG_PREFIX,
            Role::Background => BG_PREFIX,
            Role::Underline => UNDERLINE_PREFIX,
        }
    }
}

/// The name of one of the sixteen named colors, as class names write it.
pub open spec fn ansi_name_spec(color: AnsiColor) -> Seq<char> {
    match color {
        AnsiColor::Black => "black"@,
        AnsiColor::Red => "red"@,
        AnsiColor::Green => "green"@,
        AnsiColor::Yellow => "yellow"@,
        AnsiColor::Blue => "blue"@,
        AnsiColor::Magenta => "magenta"@,
        AnsiColor::Cyan => "cyan"@,
        AnsiColor::White => "white"@,
        AnsiColor::BrightBlack => "bright-black"@,
        AnsiColor::BrightRed => "bright-red"@,
        AnsiColor::BrightGreen => "bright-green"@,
        AnsiColor::BrightYellow => "bright-yellow"@,
        AnsiColor::BrightBlue => "bright-blue"@,
        AnsiColor::BrightMagenta => "bright-magenta"@,
        AnsiColor::BrightCyan => "bright-cyan"@,
        AnsiColor::BrightWhite => "bright-white"@,
    }
}

/// The name of one of the sixteen named colors, as class names write it.
pub fn ansi_name(color: AnsiColor) -> (name: &'static str)
    ensures
        name@ == ansi_name_spec(color),
{
    match color {
        AnsiColor::Black => "black",
        AnsiColor::Red => "red",
        AnsiColor::Green => "green",
        AnsiColor::Yellow => "yellow",
        AnsiColor::Blue => "blue",
        AnsiColor::Magenta => "magenta",
        AnsiColor::Cyan => "cyan",
        AnsiColor::White => "white",
        AnsiColor::BrightBlack => "bright-black",
        AnsiColor::BrightRed => "bright-red",
        AnsiColor::BrightGreen => "bright-green",
        AnsiColor::BrightYellow => "bright-yellow",
        AnsiColor::BrightBlue => "bright-blue",
        AnsiColor::BrightMagenta => "bright-magenta",
        AnsiColor::BrightCyan => "bright-cyan",
        AnsiColor::BrightWhite => "bright-white",
    }
}

/// The name of the class of a color.
///
/// A named color gives the prefix, a hyphen and the color's name. An entry
/// of the 256-color table gives the prefix, `-ansi256-` and the entry's
/// number in three digits. An RGB color gives the prefix, `-rgb-` and six
/// hexadecimal digits in upper case.
pub open spec fn class_name(prefix: Seq<char>, color: Color) -> Seq<char> {
    match color {
        Color::Ansi(c) => prefix + "-"@ + ansi_name_spec(c),
        Color::Ansi256(i) => prefix + "-ansi256-"@ + dec3(i),
        Color::Rgb(c) => prefix + "-rgb-"@ + hex2(c.r) + hex2(c.g) + hex2(c.b),
    }
}

/// The name of the class of a color, after the prefix of its role.
pub fn color_name(prefix: &str, color: Color) -> (name: String)
    ensures
        name@ == class_name(prefix@, color),
{
    let mut name = prefix.to_owned();
    match color {
        Color::Ansi(c) => {
            name.append("-");
            name.append(ansi_name(c));
        },
        Color::Ansi256(i) => {
            name.append("-ansi256-");
            push_dec3(&mut name, i);
        },
        Color::Rgb(c) => {
            name.append("-rgb-");
            push_hex2(&mut name, c.r);
            push_hex2(&mut name, c.g);
            push_hex2(&mut name, c.b);
        },
    }
    name
}

/// The class of one color in one role: its name and its CSS value.
#[derive(Clone, Debug, PartialEq, Eq)]
pub struct ColorClass {
    pub role: Role,
    pub name: String,
    pub rgb: String,
}

/// What a [`ColorClass`] holds, with its strings as sequences of characters.
pub struct ColorClassView {
    pub role: Role,
    pub name: Seq<char>,
    pub rgb: Seq<char>,
}

impl View for ColorClass {
    type V = ColorClassView;

    open spec fn view(&self) -> ColorClassView {
        ColorClassView { role: self.role, name: self.name@, rgb: self.rgb@ }
    }
}

impl DeepView for ColorClass {
    type V = ColorClassView;

    open spec fn deep_view(&self) -> ColorClassView {
        self@
    }
}

/// The class of `color` in `role` under a palette.
pub open spec fn class_entry(role: Role, color: Color, palette: Seq<Rgb>) -> ColorClassView {
    ColorClassView {
        role: role,
        name: class_name(role.spec_prefix(), color),
        rgb: rgb_hex(color_rgb(color, palette)),
    }
}

/// The list with `entry` put at its place in the order of names. An entry
/// of the same name is replaced.
pub open spec fn with_class(classes: Seq<ColorClassView>, entry: ColorClassView) -> Seq<
    ColorClassView,
>
    decreases classes.len(),
{
    if classes.len() == 0 {
        seq![entry]
    } else if lex_less(classes[0].name, entry.name) {
        seq![classes[0]] + with_class(classes.skip(1), entry)
    } else if classes[0].name == entry.name {
        seq![entry] + classes.skip(1)
    } else {
        seq![entry] + classes
    }
}

/// The list with the class of a color, where there is a color.
pub open spec fn with_color(
    classes: Seq<ColorClassView>,
    role: Role,
    color: Option<Color>,
    palette: Seq<Rgb>,
) -> Seq<ColorClassView> {
    match color {
        Some(c) => with_class(classes, class_entry(role, c, palette)),
        None => classes,
    }
}

/// The list with the classes of the three colors of a style.
pub open spec fn with_style(classes: Seq<ColorClassView>, style: Style, palette: Seq<Rgb>) -> Seq<
    ColorClassView,
> {
    with_color(
        with_color(
            with_color(classes, Role::Foreground, style.fg, palette),
            Role::Background,
            style.bg,
            palette,
        ),
        Role::Underline,
        style.underline,
        palette,
    )
}

/// The list with the classes of the colors of every run of a line.
pub open spec fn with_line(
    classes: Seq<ColorClassView>,
    line: Seq<ElementView>,
    palette: Seq<Rgb>,
) -> Seq<ColorClassView>
    decreases line.len(),
{
    if line.len() == 0 {
        classes
    } else {
        with_style(with_line(classes, line.drop_last(), palette), line.last().style, palette)
    }
}

/// The classes of the colors that the runs of `lines` use, each once, in
/// the order of their names.
pub open spec fn color_classes(lines: Seq<Seq<ElementView>>, palette: Seq<Rgb>) -> Seq<
    ColorClassView,
>
    decreases lines.len(),
{
    if lines.len() == 0 {
        Seq::empty()
    } else {
        with_line(color_classes(lines.drop_last(), palette), lines.last(), palette)
    }
}

/// The names go up strictly from each entry to the next.
pub open spec fn is_sorted(classes: Seq<ColorClassView>) -> bool {
    forall|i: int, j: int|
        0 <= i < j < classes.len() ==> lex_less(
            (#[trigger] classes[i]).name,
            (#[trigger] classes[j]).name,
        )
}

/// Whether a run of the line has `color` in `role`.
pub open spec fn line_uses(line: Seq<ElementView>, role: Role, color: Color) -> bool {
    exists|i: int| 0 <= i < line.len() && role.color_in((#[trigger] line[i]).style) == Some(color)
}

/// Whether a run of `lines` has `color` in `role`.
pub open spec fn uses_color(lines: Seq<Seq<ElementView>>, role: Role, color: Color) -> bool {
    exists|k: int| 0 <= k < lines.len() && line_uses(#[trigger] lines[k], role, color)
}

/// Whether the list holds a class of that name.
pub open spec fn has_name(classes: Seq<ColorClassView>, name: Seq<char>) -> bool {
    exists|i: int| 0 <= i < classes.len() && (#[trigger] classes[i]).name == name
}

/// Whether the list is sorted and holds the classes of the colors in
/// `used`, under `palette`, and no other.
pub open spec fn lists_classes_of(
    classes: Seq<ColorClassView>,
    used: Set<(Role, Color)>,
    palette: Seq<Rgb>,
) -> bool {
    &&& is_sorted(classes)
    &&& forall|role: Role, color: Color| #[trigger]
        used.contains((role, color)) ==> has_name(classes, class_name(role.spec_prefix(), color))
    &&& forall|i: int|
        0 <= i < classes.len() ==> exists|role: Role, color: Color|
            used.contains((role, color)) && #[trigger] classes[i] == class_entry(
                role,
                color,
                palette,
            )
}

/// The colors that the runs of `lines` use, each with its role.
pub open spec fn used_colors(lines: Seq<Seq<ElementView>>) -> Set<(Role, Color)> {
    Set::new(|p: (Role, Color)| uses_color(lines, p.0, p.1))
}

/// Putting a class into a sorted list leaves the list sorted, with the
/// new class in it, and with each of the names that it had.
pub proof fn lemma_with_class(classes: Seq<ColorClassView>, entry: ColorClassView)
    requires
        is_sorted(classes),
    ensures
        is_sorted(with_class(classes, entry)),
        with_class(classes, entry).contains(entry),
        forall|i: int|
            0 <= i < with_class(classes, entry).len() ==> {
                let x = #[trigger] with_class(classes, entry)[i];
                x == entry || classes.contains(x)
            },
        forall|j: int|
            0 <= j < classes.len() ==> has_name(
                with_class(classes, entry),
                (#[trigger] classes[j]).name,
            ),
    decreases classes.len(),
{
    let out = with_class(classes, entry);
    if classes.len() == 0 {
        assert(out[0] == entry);
    } else if lex_less(classes[0].name, entry.name) {
        let rest = classes.skip(1);
        let tail = with_class(rest, entry);
        assert forall|i: int, j: int| 0 <= i < j < rest.len() implies lex_less(
            (#[trigger] rest[i]).name,
            (#[trigger] rest[j]).name,
        ) by {
            assert(rest[i] == classes[i + 1] && rest[j] == classes[j + 1]);
        }
        lemma_with_class(rest, entry);
        assert forall|i: int| 0 <= i < out.len() implies ({
            let x = #[trigger] out[i];
            x == entry || classes.contains(x)
        }) by {
            if i == 0 {
                assert(classes[0] == out[0]);
            } else {
                let x = tail[i - 1];
                assert(out[i] == x);
                if x != entry {
                    assert(rest.contains(x));
                    let m = choose|m: int| 0 <= m < rest.len() && rest[m] == x;
                    assert(classes[m + 1] == x);
                }
            }
        }
        assert forall|i: int, j: int| 0 <= i < j < out.len() implies lex_less(
            (#[trigger] out[i]).name,
            (#[trigger] out[j]).name,
        ) by {
            assert(out[j] == tail[j - 1]);
            if i == 0 {
                let x = tail[j - 1];
                if x != entry {
                    assert(rest.contains(x));
                    let m = choose|m: int| 0 <= m < rest.len() && rest[m] == x;
                    assert(classes[m + 1] == x);
                }
            } else {
                assert(out[i] == tail[i - 1]);
            }
        }
        let at = choose|m: int| 0 <= m < tail.len() && tail[m] == entry;
        assert(out[at + 1] == entry);
        assert forall|j: int| 0 <= j < classes.len() implies has_name(
            out,
            (#[trigger] classes[j]).name,
        ) by {
            if j == 0 {
                assert(out[0].name == classes[0].name);
            } else {
                assert(rest[j - 1] == classes[j]);
                assert(has_name(tail, rest[j - 1].name));
                let m = choose|m: int| 0 <= m < tail.len() && tail[m].name == rest[j - 1].name;
                assert(out[m + 1].name == classes[j].name);
            }
        }
    } else if classes[0].name == entry.name {
        assert(out[0] == entry);
        assert forall|i: int| 0 <= i < out.len() implies ({
            let x = #[trigger] out[i];
            x == entry || classes.contains(x)
        }) by {
            if i > 0 {
                assert(out[i] == classes[i]);
            }
        }
        assert forall|i: int, j: int| 0 <= i < j < out.len() implies lex_less(
            (#[trigger] out[i]).name,
            (#[trigger] out[j]).name,
        ) by {
            assert(out[j] == classes[j]);
            if i > 0 {
                assert(out[i] == classes[i]);
            } else {
                assert(lex_less(classes[0].name, classes[j].name));
            }
        }
        assert forall|j: int| 0 <= j < classes.len() implies has_name(
            out,
            (#[trigger] classes[j]).name,
        ) by {
            if j > 0 {
                assert(out[j] == classes[j]);
            }
            assert(out[j].name == classes[j].name);
        }
    } else {
        lemma_lex_less_total(classes[0].name, entry.name);
        assert(out[0] == entry);
        assert forall|i: int| 0 <= i < out.len() implies ({
            let x = #[trigger] out[i];
            x == entry || classes.contains(x)
        }) by {
            if i > 0 {
                assert(out[i] == classes[i - 1]);
            }
        }
        assert forall|i: int, j: int| 0 <= i < j < out.len() implies lex_less(
            (#[trigger] out[i]).name,
            (#[trigger] out[j]).name,
        ) by {
            assert(out[j] == classes[j - 1]);
            if i > 0 {
                assert(out[i] == classes[i - 1]);
            } else if j > 1 {
                assert(lex_less(classes[0].name, classes[j - 1].name));
                lemma_lex_less_transitive(entry.name, classes[0].name, classes[j - 1].name);
            }
        }
        assert forall|j: int| 0 <= j < classes.len() implies has_name(
            out,
            (#[trigger] classes[j]).name,
        ) by {
            assert(out[j + 1] == classes[j]);
        }
    }
}

/// Putting the class of one more color into a list of the classes of
/// `used` gives a list of the classes of `used` and that color.
pub proof fn lemma_with_color(
    classes: Seq<ColorClassView>,
    used: Set<(Role, Color)>,
    role: Role,
    color: Option<Color>,
    palette: Seq<Rgb>,
)
    requires
        lists_classes_of(classes, used, palette),
    ensures
        lists_classes_of(
            with_color(classes, role, color, palette),
            match color {
                Some(c) => used.insert((role, c)),
                None => used,
            },
            palette,
        ),
{
    if let Some(c) = color {
        let entry = class_entry(role, c, palette);
        let out = with_class(classes, entry);
        let all = used.insert((role, c));
        lemma_with_class(classes, entry);
        assert forall|r: Role, x: Color| #[trigger] all.contains((r, x)) implies has_name(
            out,
            class_name(r.spec_prefix(), x),
        ) by {
            if (r, x) == (role, c) {
                let m = choose|m: int| 0 <= m < out.len() && out[m] == entry;
                assert(out[m].name == class_name(r.spec_prefix(), x));
            } else {
                assert(used.contains((r, x)));
                let name = class_name(r.spec_prefix(), x);
                let j = choose|j: int| 0 <= j < classes.len() && classes[j].name == name;
                assert(has_name(out, classes[j].name));
            }
        }
        assert forall|i: int| 0 <= i < out.len() implies exists|r: Role, x: Color|
            all.contains((r, x)) && #[trigger] out[i] == class_entry(r, x, palette) by {
            if out[i] == entry {
                assert(all.contains((role, c)));
            } else {
                assert(classes.contains(out[i]));
                let m = choose|m: int| 0 <= m < classes.len() && classes[m] == out[i];
                let (r, x) = choose|r: Role, x: Color|
                    used.contains((r, x)) && classes[m] == class_entry(r, x, palette);
                assert(all.contains((r, x)));
            }
        }
    }
}

/// The colors that a style uses, each with its role.
pub open spec fn style_colors(style: Style) -> Set<(Role, Color)> {
    Set::new(|p: (Role, Color)| p.0.color_in(style) == Some(p.1))
}

/// The colors that the runs of a line use, each with its role.
pub open spec fn line_colors(line: Seq<ElementView>) -> Set<(Role, Color)> {
    Set::new(|p: (Role, Color)| line_uses(line, p.0, p.1))
}

/// Putting the classes of a style into a list of the classes of `used`
/// gives a list of the classes of `used` and of the colors of the style.
pub proof fn lemma_with_style(
    classes: Seq<ColorClassView>,
    used: Set<(Role, Color)>,
    style: Style,
    palette: Seq<Rgb>,
)
    requires
        lists_classes_of(classes, used, palette),
    ensures
        lists_classes_of(with_style(classes, style, palette), used + style_colors(style), palette),
{
    let one = with_color(classes, Role::Foreground, style.fg, palette);
    let used_one = match style.fg {
        Some(c) => used.insert((Role::Foreground, c)),
        None => used,
    };
    lemma_with_color(classes, used, Role::Foreground, style.fg, palette);
    let two = with_color(one, Role::Background, style.bg, palette);
    let used_two = match style.bg {
        Some(c) => used_one.insert((Role::Background, c)),
        None => used_one,
    };
    lemma_with_color(one, used_one, Role::Background, style.bg, palette);
    let used_three = match style.underline {
        Some(c) => used_two.insert((Role::Underline, c)),
        None => used_two,
    };
    lemma_with_color(two, used_two, Role::Underline, style.underline, palette);
    assert(used_three =~= used + style_colors(style));
}

/// The colors of a line are those of its runs but the last, and those of
/// the last.
pub proof fn lemma_line_colors(line: Seq<ElementView>)
    requires
        line.len() > 0,
    ensures
        line_colors(line) == line_colors(line.drop_last()) + style_colors(line.last().style),
{
    let front = line.drop_last();
    let style = line.last().style;
    assert forall|p: (Role, Color)| line_colors(line).contains(p) <==> line_colors(
        front,
    ).contains(p) || style_colors(style).contains(p) by {
        if line_uses(front, p.0, p.1) {
            let i = choose|i: int|
                0 <= i < front.len() && p.0.color_in((#[trigger] front[i]).style) == Some(p.1);
            assert(line[i] == front[i]);
            assert(line_uses(line, p.0, p.1));
        }
        if p.0.color_in(style) == Some(p.1) {
            assert(p.0.color_in(line[line.len() - 1].style) == Some(p.1));
            assert(line_uses(line, p.0, p.1));
        }
        if line_uses(line, p.0, p.1) {
            let i = choose|i: int|
                0 <= i < line.len() && p.0.color_in((#[trigger] line[i]).style) == Some(p.1);
            if i < front.len() {
                assert(front[i] == line[i]);
                assert(line_uses(front, p.0, p.1));
            }
        }
    }
    assert(line_colors(line) =~= line_colors(front) + style_colors(style));
}

/// Putting the classes of a line into a list of the classes of `used`
/// gives a list of the classes of `used` and of the colors of the line.
pub proof fn lemma_with_line(
    classes: Seq<ColorClassView>,
    used: Set<(Role, Color)>,
    line: Seq<ElementView>,
    palette: Seq<Rgb>,
)
    requires
        lists_classes_of(classes, used, palette),
    ensures
        lists_classes_of(with_line(classes, line, palette), used + line_colors(line), palette),
    decreases line.len(),
{
    if line.len() == 0 {
        assert(line_colors(line) =~= Set::empty()) by {
            assert forall|p: (Role, Color)| !line_colors(line).contains(p) by {
                assert(!line_uses(line, p.0, p.1));
            }
        }
        assert(used + line_colors(line) =~= used);
    } else {
        let front = line.drop_last();
        let style = line.last().style;
        lemma_with_line(classes, used, front, palette);
        lemma_with_style(
            with_line(classes, front, palette),
            used + line_colors(front),
            style,
            palette,
        );
        lemma_line_colors(line);
        assert(used + line_colors(line) =~= used + line_colors(front) + style_colors(style));
    }
}

/// The colors of the lines are those of the lines but the last, and
/// those of the last.
pub proof fn lemma_used_colors(lines: Seq<Seq<ElementView>>)
    requires
        lines.len() > 0,
    ensures
        used_colors(lines) == used_colors(lines.drop_last()) + line_colors(lines.last()),
{
    let front = lines.drop_last();
    let line = lines.last();
    assert forall|p: (Role, Color)| used_colors(lines).contains(p) <==> used_colors(
        front,
    ).contains(p) || line_colors(line).contains(p) by {
        if uses_color(front, p.0, p.1) {
            let k = choose|k: int| 0 <= k < front.len() && line_uses(#[trigger] front[k], p.0, p.1);
            assert(lines[k] == front[k]);
            assert(uses_color(lines, p.0, p.1));
        }
        if line_uses(line, p.0, p.1) {
            assert(line_uses(lines[lines.len() - 1], p.0, p.1));
            assert(uses_color(lines, p.0, p.1));
        }
        if uses_color(lines, p.0, p.1) {
            let k = choose|k: int| 0 <= k < lines.len() && line_uses(#[trigger] lines[k], p.0, p.1);
            if k < front.len() {
                assert(front[k] == lines[k]);
                assert(uses_color(front, p.0, p.1));
            }
        }
    }
    assert(used_colors(lines) =~= used_colors(front) + line_colors(line));
}

/// The list of color classes is sorted by name without a name twice,
/// holds a class for every color that a run uses, and holds no class
/// that no run uses.
pub proof fn lemma_color_classes(lines: Seq<Seq<ElementView>>, palette: Seq<Rgb>)
    ensures
        lists_classes_of(color_classes(lines, palette), used_colors(lines), palette),
    decreases lines.len(),
{
    if lines.len() == 0 {
        assert(used_colors(lines) =~= Set::empty()) by {
            assert forall|p: (Role, Color)| !used_colors(lines).contains(p) by {
                assert(!uses_color(lines, p.0, p.1));
            }
        }
    } else {
        let front = lines.drop_last();
        lemma_color_classes(front, palette);
        lemma_with_line(color_classes(front, palette), used_colors(front), lines.last(), palette);
        lemma_used_colors(lines);
    }
}

/// What follows the prefix in the name of the class of a color.
pub open spec fn class_suffix(color: Color) -> Seq<char> {
    match color {
        Color::Ansi(c) => "-"@ + ansi_name_spec(c),
        Color::Ansi256(i) => "-ansi256-"@ + dec3(i),
        Color::Rgb(c) => "-rgb-"@ + hex2(c.r) + hex2(c.g) + hex2(c.b),
    }
}

/// Two of the sixteen named colors have different names.
pub proof fn lemma_ansi_names_differ(a: AnsiColor, b: AnsiColor)
    requires
        ansi_name_spec(a) == ansi_name_spec(b),
    ensures
        a == b,
{
    reveal_strlit("black");
    reveal_strlit("red");
    reveal_strlit("green");
    reveal_strlit("yellow");
    reveal_strlit("blue");
    reveal_strlit("magenta");
    reveal_strlit("cyan");
    reveal_strlit("white");
    reveal_strlit("bright-black");
    reveal_strlit("bright-red");
    reveal_strlit("bright-green");
    reveal_strlit("bright-yellow");
    reveal_strlit("bright-blue");
    reveal_strlit("bright-magenta");
    reveal_strlit("bright-cyan");
    reveal_strlit("bright-white");
    let x = ansi_name_spec(a);
    let y = ansi_name_spec(b);
    assert(x.len() == y.len());
    assert(x[0] == y[0]);
    if x.len() > 7 {
        assert(x[7] == y[7]);
    }
}

/// The first two characters of the name of a named color: no name
/// begins with `a`, and none but `red` with `r`.
pub proof fn lemma_ansi_name_start(c: AnsiColor)
    ensures
        ansi_name_spec(c).len() >= 3,
        ansi_name_spec(c)[0] != 'a',
        ansi_name_spec(c)[0] == 'r' ==> ansi_name_spec(c)[1] == 'e',
{
    reveal_strlit("black");
    reveal_strlit("red");
    reveal_strlit("green");
    reveal_strlit("yellow");
    reveal_strlit("blue");
    reveal_strlit("magenta");
    reveal_strlit("cyan");
    reveal_strlit("white");
    reveal_strlit("bright-black");
    reveal_strlit("bright-red");
    reveal_strlit("bright-green");
    reveal_strlit("bright-yellow");
    reveal_strlit("bright-blue");
    reveal_strlit("bright-magenta");
    reveal_strlit("bright-cyan");
    reveal_strlit("bright-white");
}

/// Two colors have different names after the prefix.
pub proof fn lemma_class_suffixes_differ(a: Color, b: Color)
    requires
        class_suffix(a) == class_suffix(b),
    ensures
        a == b,
{
    reveal_strlit("-");
    reveal_strlit("-ansi256-");
    reveal_strlit("-rgb-");
    let x = class_suffix(a);
    let y = class_suffix(b);
    assert(x[1] == y[1]);
    assert(x[2] == y[2]);
    match a {
        Color::Ansi(c) => {
            lemma_ansi_name_start(c);
            assert(x[1] == ansi_name_spec(c)[0]);
            assert(x[2] == ansi_name_spec(c)[1]);
        },
        Color::Ansi256(i) => {
            assert(x[1] == 'a');
        },
        Color::Rgb(c) => {
            assert(x[1] == 'r');
            assert(x[2] == 'g');
        },
    }
    match b {
        Color::Ansi(c) => {
            lemma_ansi_name_start(c);
            assert(y[1] == ansi_name_spec(c)[0]);
            assert(y[2] == ansi_name_spec(c)[1]);
        },
        Color::Ansi256(i) => {
            assert(y[1] == 'a');
        },
        Color::Rgb(c) => {
            assert(y[1] == 'r');
            assert(y[2] == 'g');
        },
    }
    match (a, b) {
        (Color::Ansi(c), Color::Ansi(d)) => {
            assert(ansi_name_spec(c) =~= x.skip(1));
            assert(ansi_name_spec(d) =~= y.skip(1));
            lemma_ansi_names_differ(c, d);
        },
        (Color::Ansi256(i), Color::Ansi256(j)) => {
            assert(x[9] == dec3(i)[0] && x[10] == dec3(i)[1] && x[11] == dec3(i)[2]);
            assert(y[9] == dec3(j)[0] && y[10] == dec3(j)[1] && y[11] == dec3(j)[2]);
            assert(i / 100 == j / 100);
            assert((i / 10) % 10 == (j / 10) % 10);
            assert(i % 10 == j % 10);
        },
        (Color::Rgb(c), Color::Rgb(d)) => {
            assert(x[5] == hex2(c.r)[0] && x[6] == hex2(c.r)[1]);
            assert(x[7] == hex2(c.g)[0] && x[8] == hex2(c.g)[1]);
            assert(x[9] == hex2(c.b)[0] && x[10] == hex2(c.b)[1]);
            assert(y[5] == hex2(d.r)[0] && y[6] == hex2(d.r)[1]);
            assert(y[7] == hex2(d.g)[0] && y[8] == hex2(d.g)[1]);
            assert(y[9] == hex2(d.b)[0] && y[10] == hex2(d.b)[1]);
            assert(c.r / 16 == d.r / 16 && c.r % 16 == d.r % 16);
            assert(c.g / 16 == d.g / 16 && c.g % 16 == d.g % 16);
            assert(c.b / 16 == d.b / 16 && c.b % 16 == d.b % 16);
        },
        _ => {},
    }
}

/// The name of a class is the prefix of its role and what stands for
/// its color.
pub proof fn lemma_class_name_parts(prefix: Seq<char>, color: Color)
    ensures
        class_name(prefix, color) == prefix + class_suffix(color),
{
    match color {
        Color::Ansi(c) => {
            assert(prefix + "-"@ + ansi_name_spec(c) =~= prefix + ("-"@ + ansi_name_spec(c)));
        },
        Color::Ansi256(i) => {
            assert(prefix + "-ansi256-"@ + dec3(i) =~= prefix + ("-ansi256-"@ + dec3(i)));
        },
        Color::Rgb(c) => {
            assert(prefix + "-rgb-"@ + hex2(c.r) + hex2(c.g) + hex2(c.b) =~= prefix + ("-rgb-"@
                + hex2(c.r) + hex2(c.g) + hex2(c.b)));
        },
    }
}

/// The prefixes of two roles begin with different characters.
pub proof fn lemma_prefixes_differ(a: Role, b: Role)
    requires
        a.spec_prefix()[0] == b.spec_prefix()[0],
    ensures
        a == b,
        a.spec_prefix().len() > 0,
{
    reveal_strlit("fg");
    reveal_strlit("bg");
    reveal_strlit("underline");
}

/// No two classes share a name: the name of a class tells its role and
/// its color.
pub proof fn lemma_class_names_differ(role_a: Role, a: Color, role_b: Role, b: Color)
    requires
        class_name(role_a.spec_prefix(), a) == class_name(role_b.spec_prefix(), b),
    ensures
        role_a == role_b,
        a == b,
{
    let p = role_a.spec_prefix();
    let q = role_b.spec_prefix();
    let x = p + class_suffix(a);
    let y = q + class_suffix(b);
    lemma_class_name_parts(p, a);
    lemma_class_name_parts(q, b);
    assert(p.len() > 0 && q.len() > 0) by {
        lemma_prefixes_differ(role_a, role_a);
        lemma_prefixes_differ(role_b, role_b);
    }
    assert(x[0] == p[0]);
    assert(y[0] == q[0]);
    lemma_prefixes_differ(role_a, role_b);
    assert(class_suffix(a) =~= x.skip(p.len() as int));
    assert(class_suffix(b) =~= y.skip(p.len() as int));
    lemma_class_suffixes_differ(a, b);
}

/// Each color that a run uses has its class in the list, under its
/// name, with its role and its CSS value.
pub proof fn lemma_class_of_used_color(
    lines: Seq<Seq<ElementView>>,
    palette: Seq<Rgb>,
    role: Role,
    color: Color,
)
    requires
        uses_color(lines, role, color),
    ensures
        color_classes(lines, palette).contains(class_entry(role, color, palette)),
{
    let classes = color_classes(lines, palette);
    lemma_color_classes(lines, palette);
    assert(used_colors(lines).contains((role, color)));
    let name = class_name(role.spec_prefix(), color);
    assert(has_name(classes, name));
    let i = choose|i: int| 0 <= i < classes.len() && (#[trigger] classes[i]).name == name;
    let (r, c) = choose|r: Role, c: Color|
        used_colors(lines).contains((r, c)) && classes[i] == class_entry(r, c, palette);
    lemma_class_names_differ(role, color, r, c);
}

/// In a sorted list no name stands twice.
pub proof fn lemma_sorted_names_differ(classes: Seq<ColorClassView>, i: int, j: int)
    requires
        is_sorted(classes),
        0 <= i < classes.len(),
        0 <= j < classes.len(),
        i != j,
    ensures
        classes[i].name != classes[j].name,
{
    lemma_lex_less_irreflexive(classes[i].name);
    if i < j {
        assert(lex_less(classes[i].name, classes[j].name));
    } else {
        assert(lex_less(classes[j].name, classes[i].name));
    }
}

/// Puts `entry` at its place in the order of names, or in the place of
/// the entry of the same name.
pub fn insert_class(classes: &mut Vec<ColorClass>, entry: ColorClass)
    ensures
        final(classes).deep_view() == with_class(old(classes).deep_view(), entry@),
{
    let ghost before = classes.deep_view();
    let mut i: usize = 0;
    assert(before.skip(0) =~= before);
    assert(before.take(0) + with_class(before, entry@) =~= with_class(before, entry@));
    while i < classes.len() && str_less(classes[i].name.as_str(), entry.name.as_str())
        invariant
            i <= classes.len(),
            before == classes.deep_view(),
            with_class(before, entry@) == before.take(i as int) + with_class(
                before.skip(i as int),
                entry@,
            ),
        decreases classes.len() - i,
    {
        proof {
            let rest = before.skip(i as int);
            assert(rest[0] == before[i as int]);
            assert(rest.skip(1) =~= before.skip(i + 1));
            assert(before.take(i as int) + (seq![rest[0]] + with_class(rest.skip(1), entry@))
                =~= before.take(i + 1) + with_class(before.skip(i + 1), entry@));
        }
        i = i + 1;
    }
    let ghost rest = before.skip(i as int);
    let ghost e = entry@;
    if i < classes.len() && classes[i].name == entry.name {
        assert(rest[0] == before[i as int]);
        classes.set(i, entry);
        assert(classes.deep_view() =~= before.take(i as int) + (seq![e] + rest.skip(1)));
    } else {
        if i < classes.len() {
            assert(rest[0] == before[i as int]);
        }
        classes.insert(i, entry);
        assert(classes.deep_view() =~= before.take(i as int) + (seq![e] + rest));
    }
}

/// Adds the class of `color` in `role`, where there is a color.
fn insert_color(classes: &mut Vec<ColorClass>, role: Role, color: Option<Color>, palette: &Palette)
    ensures
        final(classes).deep_view() == with_color(old(classes).deep_view(), role, color, palette@),
{
    if let Some(c) = color {
        let entry = ColorClass {
            role,
            name: color_name(role.prefix(), c),
            rgb: rgb_value(c, palette),
        };
        insert_class(classes, entry);
    }
}

/// The classes of the colors that the runs of `lines` use.
///
/// Each class stands once, whatever the number of runs that use it, and
/// the names go up strictly from each entry to the next.
pub fn color_styles(lines: &[Vec<Element>], palette: &Palette) -> (classes: Vec<ColorClass>)
    ensures
        classes.deep_view() == color_classes(lines.deep_view(), palette@),
        lists_classes_of(classes.deep_view(), used_colors(lines.deep_view()), palette@),
        forall|role: Role, color: Color| #[trigger]
            uses_color(lines.deep_view(), role, color) ==> classes.deep_view().contains(
                class_entry(role, color, palette@),
            ),
{
    proof {
        lemma_color_classes(lines.deep_view(), palette@);
        assert forall|role: Role, color: Color| #[trigger]
            uses_color(lines.deep_view(), role, color) implies color_classes(
            lines.deep_view(),
            palette@,
        ).contains(class_entry(role, color, palette@)) by {
            lemma_class_of_used_color(lines.deep_view(), palette@, role, color);
        }
    }
    let mut classes: Vec<ColorClass> = Vec::new();
    let ghost all = lines.deep_view();
    assert(classes.deep_view() =~= Seq::empty());
    assert(all.take(0) =~= Seq::empty());
    let mut k: usize = 0;
    while k < lines.len()
        invariant
            k <= lines.len(),
            all == lines.deep_view(),
            classes.deep_view() == color_classes(all.take(k as int), palette@),
        decreases lines.len() - k,
    {
        let line = &lines[k];
        let ghost row = line.deep_view();
        let ghost start = classes.deep_view();
        assert(row == all[k as int]);
        assert(row.take(0) =~= Seq::empty());
        let mut i: usize = 0;
        while i < line.len()
            invariant
                i <= line.len(),
                row == line.deep_view(),
                classes.deep_view() == with_line(start, row.take(i as int), palette@),
            decreases line.len() - i,
        {
            let style = line[i].style;
            assert(row[i as int].style == style);
            insert_color(&mut classes, Role::Foreground, style.fg, palette);
            insert_color(&mut classes, Role::Background, style.bg, palette);
            insert_color(&mut classes, Role::Underline, style.underline, palette);
            assert(row.take(i + 1).drop_last() =~= row.take(i as int));
            assert(row.take(i + 1).last() == row[i as int]);
            i = i + 1;
        }
        assert(row.take(i as int) =~= row);
        assert(all.take(k + 1).drop_last() =~= all.take(k as int));
        assert(all.take(k + 1).last() == row);
        k = k + 1;
    }
    assert(all.take(k as int) =~= all);
    classes
}

} // verus!
