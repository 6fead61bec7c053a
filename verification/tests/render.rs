use anstyle_html::classes::color_name;
use anstyle_html::classes::color_styles;
use anstyle_html::lines::split_lines;
use anstyle_html::palette::rgb_value;
use anstyle_html::palette::vga;
use anstyle_html::palette::win10_console;
use anstyle_html::spans::write_bg_span;
use anstyle_html::spans::write_fg_span;
use anstyle_html::style::AnsiColor;
use anstyle_html::style::Color;
use anstyle_html::style::Effect;
use anstyle_html::style::Effects;
use anstyle_html::style::Rgb;
use anstyle_html::style::Style;
use anstyle_html::term::resolve_styles;
use anstyle_html::Element;
use anstyle_html::Palette;
use anstyle_html::Term;

const HEAD_START: &str = "<!DOCTYPE html>\n<html>\n<head>\n  <meta charset=\"UTF-8\">\n  <meta name=\"viewport\" content=\"width=device-width, initial-scale=1.0\">\n  <meta http-equiv=\"X-UA-Compatible\" content=\"ie=edge\">\n  <style>\n";
const CONTAINER: &str = "    .container {\n      line-height: 18px;\n    }\n";
const HEAD_END: &str = "    span {\n      font: 14px SFMono-Regular, Consolas, Liberation Mono, Menlo, monospace;\n      white-space: pre;\n      line-height: 18px;\n    }\n  </style>\n</head>\n\n";
const DEFAULT_COLORS: &str = "    .fg { color: #CCCCCC }\n    .bg { background: #0C0C0C }\n";
const BODY_START: &str = "<body class=\"bg\">\n\n  <div class=\"container fg\">\n";
const BODY_END: &str = "  </div>\n\n</body>\n</html>\n";

fn page(color_rules: &str, effect_rules: &str, rows: &str) -> String {
    format!(
        "{HEAD_START}{DEFAULT_COLORS}{color_rules}{CONTAINER}{effect_rules}{HEAD_END}{BODY_START}{rows}{BODY_END}"
    )
}

fn fg(color: AnsiColor) -> Style {
    Style::new().fg_color(Some(Color::Ansi(color)))
}

fn bg(color: AnsiColor) -> Style {
    Style::new().bg_color(Some(Color::Ansi(color)))
}

fn only(effect: Effect) -> Style {
    Style::new().effects(Effects::plain().insert(effect))
}

fn body_of(html: &str) -> &str {
    let start = html.find(BODY_START).unwrap() + BODY_START.len();
    let end = html.rfind(BODY_END).unwrap();
    &html[start..end]
}

fn head_of(html: &str) -> &str {
    &html[..html.find("</head>").unwrap()]
}

fn texts(lines: &[Vec<Element>]) -> Vec<Vec<String>> {
    lines.iter().map(|l| l.iter().map(|e| e.text.clone()).collect()).collect()
}

#[test]
fn red_text_gives_one_row_with_one_span() {
    let elements = vec![
        Element::new(fg(AnsiColor::Red), "Hi"),
        Element::new(Style::new(), "\n"),
    ];
    let html = Term::new().render_html(&elements);
    let expected = page(
        "    .fg-red { color: #C50F1F }\n",
        "",
        "<span class=\"fg-red\">Hi</span><br />\n",
    );
    assert_eq!(html, expected);
    assert_eq!(body_of(&html).matches("<br />").count(), 1);
    assert_eq!(body_of(&html).matches("<span").count(), 1);
}

#[test]
fn hyperlink_wraps_the_text_in_an_anchor() {
    let elements = vec![Element::link(Style::new(), "click", "https://example.com/a?b=1")];
    let html = Term::new().render_html(&elements);
    assert_eq!(
        body_of(&html),
        "<span><a href=\"https://example.com/a?b=1\">click</a></span><br />\n"
    );
}

#[test]
fn hyperlink_text_is_escaped_inside_the_anchor() {
    let mut buffer = String::from("x");
    let element = Element::link(only(Effect::Bold), "ignored", "u");
    write_fg_span(&mut buffer, &element, "a<b");
    assert_eq!(buffer, "x<span class=\"bold\"><a href=\"u\">a&lt;b</a></span>");
}

#[test]
fn plain_text_has_no_classes_and_no_color_rules() {
    let elements = vec![Element::new(Style::new(), "a < b\nsecond & last\r\nthird")];
    let html = Term::new().render_html(&elements);
    let expected = page(
        "",
        "",
        "<span>a &lt; b</span><br />\n<span>second &amp; last</span><br />\n<span>third</span><br />\n",
    );
    assert_eq!(html, expected);
    assert!(!body_of(&html).contains("class="));
}

#[test]
fn empty_input_gives_an_empty_container() {
    let html = Term::new().render_html(&[]);
    assert_eq!(html, page("", "", ""));
}

#[test]
fn runs_without_text_give_one_empty_row() {
    let html = Term::new().render_html(&[Element::new(Style::new(), "")]);
    assert_eq!(html, page("", "", "<br />\n"));
    let html = Term::new().render_html(&[Element::new(fg(AnsiColor::Red), "")]);
    assert_eq!(html, page("    .fg-red { color: #C50F1F }\n", "", "<br />\n"));
    let html = Term::new().render_html(&[
        Element::new(bg(AnsiColor::Red), ""),
        Element::new(only(Effect::Bold), ""),
    ]);
    assert_eq!(
        html,
        page(
            "    .bg-red { background: #C50F1F; user-select: none; }\n",
            "    .bold { font-weight: bold; }\n",
            "<br />\n<br />\n"
        )
    );
}

#[test]
fn runs_without_a_line_feed_are_one_line_as_they_are() {
    let cases: [&[&str]; 6] = [&[""], &["", ""], &["a"], &["", "a", ""], &["a\r", "b"], &["\r"]];
    for parts in cases {
        let elements: Vec<Element> = parts
            .iter()
            .enumerate()
            .map(|(i, t)| {
                if i % 2 == 0 {
                    Element::new(fg(AnsiColor::Red), t)
                } else {
                    Element::link(only(Effect::Bold), t, "u")
                }
            })
            .collect();
        assert_eq!(split_lines(&elements), vec![elements.clone()], "{parts:?}");
    }
    let none: Vec<Vec<Element>> = Vec::new();
    assert_eq!(split_lines(&[]), none);
}

#[test]
fn rendering_twice_gives_the_same_bytes() {
    let elements = vec![
        Element::new(fg(AnsiColor::Green).bg_color(Some(Color::Ansi256(200))), "one\ntwo"),
        Element::link(only(Effect::Italic), "three\n", "https://example.com"),
        Element::new(Style::new().underline_color(Some(Color::Rgb(Rgb { r: 1, g: 2, b: 3 }))), "x"),
    ];
    let term = Term::new().background(false);
    let first = term.render_html(&elements);
    let second = term.render_html(&elements);
    assert_eq!(first, second);
    assert_eq!(Term::new().background(false).render_html(&elements.clone()), first);
}

#[test]
fn rows_are_as_many_as_lines() {
    let cases: [(&[&str], usize); 12] = [
        (&[], 0),
        (&[""], 1),
        (&["", ""], 1),
        (&["\n", ""], 1),
        (&["a"], 1),
        (&["a\n"], 1),
        (&["a\nb"], 2),
        (&["a\n\n"], 2),
        (&["\n"], 1),
        (&["a", "\n", "b\n"], 2),
        (&["a\n", ""], 1),
        (&["a\r\nb\r\n", "c"], 3),
    ];
    for (parts, expected) in cases {
        let elements: Vec<Element> =
            parts.iter().map(|t| Element::new(Style::new(), t)).collect();
        let html = Term::new().render_html(&elements);
        assert_eq!(body_of(&html).matches("<br />\n").count(), expected, "{parts:?}");
        assert_eq!(split_lines(&elements).len(), expected, "{parts:?}");
        let whole: String = parts.concat();
        if !whole.is_empty() {
            assert_eq!(whole.lines().count(), expected, "{parts:?}");
        }
    }
}

#[test]
fn split_lines_cuts_at_line_feeds_and_keeps_style_and_link() {
    let style = fg(AnsiColor::Blue);
    let elements = vec![
        Element::link(style, "ab\r\ncd\n", "u"),
        Element::new(Style::new(), "ef"),
    ];
    let lines = split_lines(&elements);
    assert_eq!(
        lines,
        vec![
            vec![Element::link(style, "ab", "u")],
            vec![Element::link(style, "cd", "u")],
            vec![Element::link(style, "", "u"), Element::new(Style::new(), "ef")],
        ]
    );
}

#[test]
fn split_lines_strips_one_carriage_return_before_a_line_feed_only() {
    let elements = vec![Element::new(Style::new(), "a\r\r\nb\rc\r")];
    assert_eq!(texts(&split_lines(&elements)), vec![vec!["a\r"], vec!["b\rc\r"]]);
    let elements = vec![Element::new(Style::new(), "a\r"), Element::new(Style::new(), "\nb")];
    assert_eq!(texts(&split_lines(&elements)), vec![vec!["a\r", ""], vec!["b"]]);
}

#[test]
fn split_lines_leaves_out_a_last_line_that_shows_nothing() {
    let elements = vec![Element::new(Style::new(), "a\n"), Element::new(Style::new(), "")];
    assert_eq!(texts(&split_lines(&elements)), vec![vec!["a"]]);
    let elements = vec![Element::new(Style::new(), "a\n\n")];
    assert_eq!(texts(&split_lines(&elements)), vec![vec!["a"], vec![""]]);
    let none: Vec<Vec<Element>> = Vec::new();
    assert_eq!(split_lines(&[]), none);
    for line in split_lines(&[Element::new(Style::new(), "x\ny\nz")]) {
        for run in line {
            assert!(!run.text.contains('\n'));
        }
    }
}

#[test]
fn invert_without_colors_swaps_the_default_colors() {
    let style = only(Effect::Invert);
    let term = Term::new();
    let resolved = style.resolve_invert(term.fg_color, term.bg_color);
    assert_eq!(resolved.fg, Some(Color::Ansi(AnsiColor::Black)));
    assert_eq!(resolved.bg, Some(Color::Ansi(AnsiColor::White)));
    assert_eq!(resolved.effects, Effects::plain());
    let html = term.render_html(&[Element::new(style, "ab")]);
    let expected = page(
        "    .bg-white { background: #CCCCCC; user-select: none; }\n    .fg-black { color: #0C0C0C }\n",
        "",
        "<span class=\"bg-white\">██</span><br />\n<span class=\"fg-black\">ab</span><br />\n",
    );
    assert_eq!(html, expected);
}

#[test]
fn invert_with_colors_swaps_them_and_keeps_the_rest() {
    let style = fg(AnsiColor::Red)
        .bg_color(Some(Color::Ansi256(17)))
        .underline_color(Some(Color::Ansi(AnsiColor::Cyan)))
        .effects(Effects::plain().insert(Effect::Invert).insert(Effect::Bold));
    let resolved = style.resolve_invert(Color::Ansi(AnsiColor::White), Color::Ansi(AnsiColor::Black));
    assert_eq!(resolved.fg, Some(Color::Ansi256(17)));
    assert_eq!(resolved.bg, Some(Color::Ansi(AnsiColor::Red)));
    assert_eq!(resolved.underline, Some(Color::Ansi(AnsiColor::Cyan)));
    assert_eq!(resolved.effects, Effects::plain().insert(Effect::Bold));
    let plain = fg(AnsiColor::Red);
    assert_eq!(plain.resolve_invert(Color::Ansi256(1), Color::Ansi256(2)), plain);
    let half = only(Effect::Invert).fg_color(Some(Color::Ansi(AnsiColor::Red)));
    let resolved = half.resolve_invert(Color::Ansi256(1), Color::Ansi256(2));
    assert_eq!(resolved.fg, Some(Color::Ansi256(2)));
    assert_eq!(resolved.bg, Some(Color::Ansi(AnsiColor::Red)));
}

#[test]
fn resolve_styles_gathers_the_effects_after_resolution() {
    let elements = vec![
        Element::new(only(Effect::Invert), "a"),
        Element::link(only(Effect::Bold), "", "u"),
        Element::new(Style::new(), "c"),
    ];
    let (runs, usage) =
        resolve_styles(&elements, Color::Ansi(AnsiColor::White), Color::Ansi(AnsiColor::Black));
    assert_eq!(usage, Effects::plain().insert(Effect::Bold));
    assert_eq!(runs.len(), 3);
    assert_eq!(runs[0].text, "a");
    assert_eq!(runs[0].style.bg, Some(Color::Ansi(AnsiColor::White)));
    assert_eq!(runs[1], elements[1]);
    assert_eq!(runs[2], elements[2]);
}

#[test]
fn effect_rules_stand_for_the_effects_in_use_only() {
    let all = [
        (Effect::Bold, "bold", "    .bold { font-weight: bold; }\n"),
        (Effect::Italic, "italic", "    .italic { font-style: italic; }\n"),
        (Effect::Underline, "underline", "    .underline { text-decoration-line: underline; }\n"),
        (Effect::DoubleUnderline, "double-underline", "    .double-underline { text-decoration-line: underline; text-decoration-style: double; }\n"),
        (Effect::CurlyUnderline, "curly-underline", "    .curly-underline { text-decoration-line: underline; text-decoration-style: wavy; }\n"),
        (Effect::DottedUnderline, "dotted-underline", "    .dotted-underline { text-decoration-line: underline; text-decoration-style: dotted; }\n"),
        (Effect::DashedUnderline, "dashed-underline", "    .dashed-underline { text-decoration-line: underline; text-decoration-style: dashed; }\n"),
        (Effect::Strikethrough, "strikethrough", "    .strikethrough { text-decoration-line: line-through; }\n"),
        (Effect::Dimmed, "dimmed", "    .dimmed { opacity: 0.7; }\n"),
        (Effect::Hidden, "hidden", "    .hidden { opacity: 0; }\n"),
    ];
    for (effect, class, rule) in all {
        let html = Term::new().render_html(&[Element::new(only(effect), "x")]);
        let rows = format!("<span class=\"{class}\">x</span><br />\n");
        assert_eq!(html, page("", rule, &rows));
        for (_, _, other) in all {
            assert_eq!(head_of(&html).contains(other), other == rule);
        }
    }
}

#[test]
fn effect_rules_and_span_classes_come_in_their_fixed_orders() {
    let mut effects = Effects::plain();
    for effect in [
        Effect::Hidden,
        Effect::Dimmed,
        Effect::Strikethrough,
        Effect::DashedUnderline,
        Effect::DottedUnderline,
        Effect::CurlyUnderline,
        Effect::DoubleUnderline,
        Effect::Underline,
        Effect::Italic,
        Effect::Bold,
    ] {
        effects = effects.insert(effect);
    }
    let style = Style::new()
        .fg_color(Some(Color::Ansi(AnsiColor::BrightRed)))
        .underline_color(Some(Color::Ansi256(7)))
        .effects(effects);
    let html = Term::new().render_html(&[Element::new(style, "x")]);
    let rules = "    .bold { font-weight: bold; }\n    .italic { font-style: italic; }\n    .underline { text-decoration-line: underline; }\n    .double-underline { text-decoration-line: underline; text-decoration-style: double; }\n    .curly-underline { text-decoration-line: underline; text-decoration-style: wavy; }\n    .dotted-underline { text-decoration-line: underline; text-decoration-style: dotted; }\n    .dashed-underline { text-decoration-line: underline; text-decoration-style: dashed; }\n    .strikethrough { text-decoration-line: line-through; }\n    .dimmed { opacity: 0.7; }\n    .hidden { opacity: 0; }\n";
    let colors = "    .fg-bright-red { color: #E74856 }\n    .underline-ansi256-007 { text-decoration-line: underline; text-decoration-color: #CCCCCC }\n";
    let rows = "<span class=\"fg-bright-red underline-ansi256-007 underline double-underline curly-underline dotted-underline dashed-underline strikethrough bold italic dimmed hidden\">x</span><br />\n";
    assert_eq!(html, page(colors, rules, rows));
}

#[test]
fn an_effect_of_a_run_without_text_has_a_rule_and_no_span() {
    let html = Term::new().render_html(&[
        Element::new(only(Effect::Bold), ""),
        Element::new(Style::new(), "x"),
    ]);
    assert_eq!(html, page("", "    .bold { font-weight: bold; }\n", "<span>x</span><br />\n"));
}

#[test]
fn overlay_fills_as_many_columns_as_the_text_takes() {
    let elements = vec![
        Element::new(bg(AnsiColor::Red), "ab"),
        Element::new(bg(AnsiColor::Blue), "c"),
    ];
    let html = Term::new().render_html(&elements);
    let rows = "<span class=\"bg-red\">██</span><span class=\"bg-blue\">█</span><br />\n<span>ab</span><span>c</span><br />\n";
    let colors = "    .bg-blue { background: #0037DA; user-select: none; }\n    .bg-red { background: #C50F1F; user-select: none; }\n";
    assert_eq!(html, page(colors, "", rows));
    assert_eq!(body_of(&html).matches('█').count(), 3);
}

#[test]
fn overlay_counts_columns_not_bytes_or_characters() {
    let elements = vec![
        Element::new(bg(AnsiColor::Red), "日本"),
        Element::new(Style::new(), "é<"),
        Element::new(bg(AnsiColor::Red), ""),
    ];
    let html = Term::new().render_html(&elements);
    let rows = "<span class=\"bg-red\">████</span><span>  </span><br />\n<span>日本</span><span>é&lt;</span><br />\n";
    assert_eq!(body_of(&html), rows);
}

#[test]
fn background_span_alone() {
    let mut buffer = String::new();
    write_bg_span(&mut buffer, &bg(AnsiColor::Green), "a&b");
    write_bg_span(&mut buffer, &Style::new(), "xy");
    assert_eq!(buffer, "<span class=\"bg-green\">███</span><span>  </span>");
}

#[test]
fn lines_without_background_have_no_overlay_row() {
    let elements = vec![
        Element::new(bg(AnsiColor::Red), "a"),
        Element::new(Style::new(), "\nb\n"),
    ];
    let html = Term::new().render_html(&elements);
    assert_eq!(
        body_of(&html),
        "<span class=\"bg-red\">█</span><br />\n<span>a</span><br />\n<span>b</span><br />\n"
    );
}

#[test]
fn a_run_without_text_still_asks_for_the_overlay_row() {
    let elements = vec![
        Element::new(bg(AnsiColor::Red), "a\n"),
        Element::new(Style::new(), "b\n"),
    ];
    let html = Term::new().render_html(&elements);
    assert_eq!(
        body_of(&html),
        "<span class=\"bg-red\">█</span><br />\n<span>a</span><br />\n<span> </span><br />\n<span>b</span><br />\n"
    );
}

#[test]
fn class_names_of_colors() {
    assert_eq!(color_name("fg", Color::Ansi(AnsiColor::BrightRed)), "fg-bright-red");
    assert_eq!(color_name("bg", Color::Ansi(AnsiColor::Black)), "bg-black");
    assert_eq!(color_name("fg", Color::Ansi256(7)), "fg-ansi256-007");
    assert_eq!(color_name("bg", Color::Ansi256(42)), "bg-ansi256-042");
    assert_eq!(color_name("underline", Color::Ansi256(255)), "underline-ansi256-255");
    assert_eq!(
        color_name("underline", Color::Rgb(Rgb { r: 10, g: 255, b: 0 })),
        "underline-rgb-0AFF00"
    );
    let names = [
        "black", "red", "green", "yellow", "blue", "magenta", "cyan", "white", "bright-black",
        "bright-red", "bright-green", "bright-yellow", "bright-blue", "bright-magenta",
        "bright-cyan", "bright-white",
    ];
    let colors = [
        AnsiColor::Black, AnsiColor::Red, AnsiColor::Green, AnsiColor::Yellow, AnsiColor::Blue,
        AnsiColor::Magenta, AnsiColor::Cyan, AnsiColor::White, AnsiColor::BrightBlack,
        AnsiColor::BrightRed, AnsiColor::BrightGreen, AnsiColor::BrightYellow,
        AnsiColor::BrightBlue, AnsiColor::BrightMagenta, AnsiColor::BrightCyan,
        AnsiColor::BrightWhite,
    ];
    for (i, color) in colors.into_iter().enumerate() {
        assert_eq!(color.index() as usize, i);
        assert_eq!(color_name("fg", Color::Ansi(color)), format!("fg-{}", names[i]));
    }
}

#[test]
fn css_values_of_colors() {
    let palette = win10_console();
    assert_eq!(rgb_value(Color::Ansi(AnsiColor::Red), &palette), "#C50F1F");
    assert_eq!(rgb_value(Color::Ansi(AnsiColor::BrightWhite), &palette), "#F2F2F2");
    assert_eq!(rgb_value(Color::Ansi256(1), &palette), "#C50F1F");
    assert_eq!(rgb_value(Color::Ansi256(15), &palette), "#F2F2F2");
    assert_eq!(rgb_value(Color::Ansi256(16), &palette), "#000000");
    assert_eq!(rgb_value(Color::Ansi256(196), &palette), "#FF0000");
    assert_eq!(rgb_value(Color::Ansi256(255), &palette), "#EEEEEE");
    assert_eq!(rgb_value(Color::Rgb(Rgb { r: 0, g: 9, b: 171 }), &palette), "#0009AB");
    assert_eq!(rgb_value(Color::Ansi(AnsiColor::Red), &vga()), "#AA0000");
    let mut table = [Rgb { r: 0, g: 0, b: 0 }; 16];
    table[3] = Rgb { r: 1, g: 2, b: 3 };
    assert_eq!(rgb_value(Color::Ansi(AnsiColor::Yellow), &Palette(table)), "#010203");
    assert_eq!(rgb_value(Color::Ansi256(3), &Palette(table)), "#010203");
}

#[test]
fn named_colors_are_read_from_their_place_in_the_palette() {
    let mut table = [Rgb { r: 0, g: 0, b: 0 }; 16];
    for i in 0..16u8 {
        table[i as usize] = Rgb { r: i, g: 16 + i, b: 255 - i };
    }
    let palette = Palette(table);
    let colors = [
        AnsiColor::Black, AnsiColor::Red, AnsiColor::Green, AnsiColor::Yellow, AnsiColor::Blue,
        AnsiColor::Magenta, AnsiColor::Cyan, AnsiColor::White, AnsiColor::BrightBlack,
        AnsiColor::BrightRed, AnsiColor::BrightGreen, AnsiColor::BrightYellow,
        AnsiColor::BrightBlue, AnsiColor::BrightMagenta, AnsiColor::BrightCyan,
        AnsiColor::BrightWhite,
    ];
    for i in 0..16u8 {
        let expected = format!("#{:02X}{:02X}{:02X}", i, 16 + i, 255 - i);
        assert_eq!(rgb_value(Color::Ansi(colors[i as usize]), &palette), expected);
        assert_eq!(rgb_value(Color::Ansi256(i), &palette), expected);
    }
}

#[test]
fn css_values_of_the_color_cube_and_the_gray_ramp() {
    let palette = win10_console();
    let level = |k: u8| if k == 0 { 0 } else { 55 + 40 * k };
    for i in 16..=231u8 {
        let j = i - 16;
        let expected =
            format!("#{:02X}{:02X}{:02X}", level(j / 36), level((j / 6) % 6), level(j % 6));
        assert_eq!(rgb_value(Color::Ansi256(i), &palette), expected, "{i}");
        assert_eq!(rgb_value(Color::Ansi256(i), &vga()), expected, "{i}");
    }
    for i in 232..=255u8 {
        let gray = 8 + 10 * (i - 232);
        let expected = format!("#{gray:02X}{gray:02X}{gray:02X}");
        assert_eq!(rgb_value(Color::Ansi256(i), &palette), expected, "{i}");
    }
    assert_eq!(rgb_value(Color::Ansi256(16), &palette), "#000000");
    assert_eq!(rgb_value(Color::Ansi256(17), &palette), "#00005F");
    assert_eq!(rgb_value(Color::Ansi256(22), &palette), "#005F00");
    assert_eq!(rgb_value(Color::Ansi256(52), &palette), "#5F0000");
    assert_eq!(rgb_value(Color::Ansi256(231), &palette), "#FFFFFF");
    assert_eq!(rgb_value(Color::Ansi256(232), &palette), "#080808");
    assert_eq!(rgb_value(Color::Ansi256(244), &palette), "#808080");
}

#[test]
fn palettes_hold_the_colors_of_their_themes() {
    let win = win10_console();
    let expected = anstyle_lossy::palette::WIN10_CONSOLE;
    for i in 0..16 {
        let c = expected.0[i];
        assert_eq!(win.0[i], Rgb { r: c.0, g: c.1, b: c.2 });
    }
    assert_eq!(win.0[0], Rgb { r: 12, g: 12, b: 12 });
    assert_eq!(win.0[1], Rgb { r: 197, g: 15, b: 31 });
    assert_eq!(win.0[15], Rgb { r: 242, g: 242, b: 242 });
    let old = vga();
    assert_eq!(old.0[0], Rgb { r: 0, g: 0, b: 0 });
    assert_eq!(old.0[3], Rgb { r: 170, g: 85, b: 0 });
    assert_eq!(old.0[9], Rgb { r: 255, g: 85, b: 85 });
    assert_eq!(old.0[15], Rgb { r: 255, g: 255, b: 255 });
}

#[test]
fn color_classes_are_sorted_and_stand_once() {
    let red_on_blue = fg(AnsiColor::Red).bg_color(Some(Color::Ansi(AnsiColor::Blue)));
    let lines = vec![
        vec![
            Element::new(red_on_blue, "a"),
            Element::new(Style::new().underline_color(Some(Color::Ansi256(9))), ""),
        ],
        vec![
            Element::new(fg(AnsiColor::Red), "b"),
            Element::new(fg(AnsiColor::Black), "c"),
            Element::new(Style::new().fg_color(Some(Color::Rgb(Rgb { r: 255, g: 0, b: 16 }))), "d"),
            Element::new(Style::new().fg_color(Some(Color::Ansi256(1))), "e"),
        ],
    ];
    let classes = color_styles(&lines, &win10_console());
    let listed: Vec<(&str, &str)> =
        classes.iter().map(|c| (c.name.as_str(), c.rgb.as_str())).collect();
    assert_eq!(
        listed,
        vec![
            ("bg-blue", "#0037DA"),
            ("fg-ansi256-001", "#C50F1F"),
            ("fg-black", "#0C0C0C"),
            ("fg-red", "#C50F1F"),
            ("fg-rgb-FF0010", "#FF0010"),
            ("underline-ansi256-009", "#E74856"),
        ]
    );
    let mut sorted = listed.clone();
    sorted.sort();
    sorted.dedup();
    assert_eq!(listed, sorted);
}

#[test]
fn term_settings() {
    let term = Term::new();
    assert_eq!(term.fg_color, Color::Ansi(AnsiColor::White));
    assert_eq!(term.bg_color, Color::Ansi(AnsiColor::Black));
    assert!(term.background);
    assert_eq!(term.min_width_px, 720);
    assert_eq!(term.font_family, "SFMono-Regular, Consolas, Liberation Mono, Menlo, monospace");
    assert_eq!(term.palette.0, win10_console().0);
    let same = Term::default();
    assert_eq!(same.fg_color, term.fg_color);
    assert_eq!(same.palette.0, term.palette.0);
    let other = term
        .palette(vga())
        .fg_color(Color::Ansi256(200))
        .bg_color(Color::Rgb(Rgb { r: 1, g: 2, b: 3 }))
        .background(false)
        .min_width_px(10);
    assert_eq!(other.palette.0, vga().0);
    assert_eq!(other.fg_color, Color::Ansi256(200));
    assert_eq!(other.bg_color, Color::Rgb(Rgb { r: 1, g: 2, b: 3 }));
    assert!(!other.background);
    assert_eq!(other.min_width_px, 10);
}

#[test]
fn settings_show_in_the_document() {
    let term = Term::new()
        .palette(vga())
        .fg_color(Color::Ansi(AnsiColor::Green))
        .bg_color(Color::Rgb(Rgb { r: 1, g: 2, b: 3 }))
        .background(false);
    let html = term.render_html(&[Element::new(fg(AnsiColor::Red), "x")]);
    let expected = format!(
        "{HEAD_START}    .fg {{ color: #00AA00 }}\n    .bg {{ background: #010203 }}\n    .fg-red {{ color: #AA0000 }}\n{CONTAINER}{HEAD_END}<body>\n\n  <div class=\"container fg\">\n<span class=\"fg-red\">x</span><br />\n{BODY_END}"
    );
    assert_eq!(html, expected);
    assert_eq!(term.min_width_px(1).render_html(&[Element::new(fg(AnsiColor::Red), "x")]), expected);
}

#[test]
fn effects_are_a_set() {
    let e = Effects::plain().insert(Effect::Bold).insert(Effect::Hidden);
    assert!(e.contains(Effect::Bold));
    assert!(e.contains(Effect::Hidden));
    assert!(!e.contains(Effect::Italic));
    assert_eq!(e.remove(Effect::Bold), Effects::plain().insert(Effect::Hidden));
    assert_eq!(e.remove(Effect::Italic), e);
    assert_eq!(e.insert(Effect::Bold), e);
    let f = Effects::plain().insert(Effect::Italic);
    let u = e.union(f);
    assert!(u.contains(Effect::Bold) && u.contains(Effect::Hidden) && u.contains(Effect::Italic));
    assert!(!u.contains(Effect::Invert));
    assert_eq!(Effects::plain().union(Effects::plain()), Effects::plain());
}
