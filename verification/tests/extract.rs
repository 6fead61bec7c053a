use anstyle_html::capture::command_is_hyperlink;
use anstyle_html::capture::hyperlink_address;
use anstyle_html::capture::Capture;
use anstyle_html::sgr::ansi_color_at;
use anstyle_html::sgr::graphic_rendition;
use anstyle_html::sgr::underline;
use anstyle_html::style::AnsiColor;
use anstyle_html::style::Color;
use anstyle_html::style::Effect;
use anstyle_html::style::Effects;
use anstyle_html::style::Rgb;
use anstyle_html::style::Style;
use anstyle_html::Element;
use anstyle_html::Term;

struct Performer {
    capture: Capture,
    runs: Vec<Element>,
}

impl anstyle_parse::Perform for Performer {
    fn print(&mut self, c: char) {
        self.capture.print(c);
    }

    fn execute(&mut self, byte: u8) {
        self.capture.execute(byte);
    }

    fn csi_dispatch(
        &mut self,
        params: &anstyle_parse::Params,
        _intermediates: &[u8],
        ignore: bool,
        action: u8,
    ) {
        let mut values = Vec::new();
        let mut grouped = Vec::new();
        for param in params {
            for (i, value) in param.iter().enumerate() {
                values.push(*value);
                grouped.push(i > 0);
            }
        }
        let run = self.capture.control_sequence(action, ignore, &values, &grouped);
        self.runs.extend(run);
    }

    fn osc_dispatch(&mut self, params: &[&[u8]], _bell_terminated: bool) {
        let params: Vec<Vec<u8>> = params.iter().map(|p| p.to_vec()).collect();
        let run = self.capture.command(&params);
        self.runs.extend(run);
    }
}

fn extract(text: &str) -> Vec<Element> {
    let mut parser = anstyle_parse::Parser::<anstyle_parse::DefaultCharAccumulator>::new();
    let mut performer = Performer { capture: Capture::new(), runs: Vec::new() };
    for byte in text.as_bytes() {
        parser.advance(&mut performer, *byte);
    }
    let last = performer.capture.take_run();
    performer.runs.extend(last);
    performer.runs
}

fn rows(html: &str) -> &str {
    let open = "  <div class=\"container fg\">\n";
    let start = html.find(open).unwrap() + open.len();
    let end = html.rfind("  </div>\n").unwrap();
    &html[start..end]
}

fn params(parts: &[&str]) -> Vec<Vec<u8>> {
    parts.iter().map(|p| p.as_bytes().to_vec()).collect()
}

fn sgr(values: &[u16]) -> Style {
    let grouped = vec![false; values.len()];
    graphic_rendition(Style::new(), values, &grouped)
}

fn effects(list: &[Effect]) -> Effects {
    let mut out = Effects::plain();
    for e in list {
        out = out.insert(*e);
    }
    out
}

#[test]
fn red_escape_sequence_gives_a_red_span() {
    let elements = extract("\x1b[31mHi\x1b[0m\n");
    assert_eq!(
        elements,
        vec![
            Element::new(Style::new().fg_color(Some(Color::Ansi(AnsiColor::Red))), "Hi"),
            Element::new(Style::new(), "\n"),
        ]
    );
    let html = Term::new().render_html(&elements);
    assert_eq!(rows(&html), "<span class=\"fg-red\">Hi</span><br />\n");
    assert!(html.contains("    .fg-red { color: #C50F1F }\n"));
    assert!(!html.contains("█"));
}

#[test]
fn hyperlink_escape_sequence_gives_an_anchor() {
    let elements = extract("\x1b]8;;https://example.com\x1b\\click\x1b]8;;\x1b\\ next");
    assert_eq!(
        elements,
        vec![
            Element::link(Style::new(), "click", "https://example.com"),
            Element::new(Style::new(), " next"),
        ]
    );
    let html = Term::new().render_html(&elements);
    assert_eq!(
        rows(&html),
        "<span><a href=\"https://example.com\">click</a></span><span> next</span><br />\n"
    );
}

#[test]
fn text_without_escape_sequences_is_one_plain_run() {
    let elements = extract("a < b\r\nc\td\n");
    assert_eq!(elements, vec![Element::new(Style::new(), "a < b\r\nc\td\n")]);
    let html = Term::new().render_html(&elements);
    assert_eq!(rows(&html), "<span>a &lt; b</span><br />\n<span>c\td</span><br />\n");
}

#[test]
fn reverse_video_sequence_swaps_the_default_colors() {
    let elements = extract("\x1b[7mab\x1b[m");
    let html = Term::new().render_html(&elements);
    assert_eq!(
        rows(&html),
        "<span class=\"bg-white\">██</span><br />\n<span class=\"fg-black\">ab</span><br />\n"
    );
}

#[test]
fn runs_end_where_the_style_changes() {
    let elements = extract("a\x1b[1mb\x1b[1mc\x1b[22;3md\x1b[0m");
    assert_eq!(
        elements,
        vec![
            Element::new(Style::new(), "a"),
            Element::new(Style::new().effects(effects(&[Effect::Bold])), "bc"),
            Element::new(Style::new().effects(effects(&[Effect::Italic])), "d"),
        ]
    );
    let none: Vec<Element> = Vec::new();
    assert_eq!(extract(""), none);
    assert_eq!(extract("\x1b[1m\x1b[0m"), none);
}

#[test]
fn other_control_sequences_change_nothing() {
    let elements = extract("a\x1b[2Jb\x1b[1;1Hc\x1b]0;title\x07d");
    assert_eq!(elements, vec![Element::new(Style::new(), "abcd")]);
}

#[test]
fn rendition_of_effects() {
    assert_eq!(sgr(&[1]).effects, effects(&[Effect::Bold]));
    assert_eq!(sgr(&[2]).effects, effects(&[Effect::Dimmed]));
    assert_eq!(sgr(&[3]).effects, effects(&[Effect::Italic]));
    assert_eq!(sgr(&[4]).effects, effects(&[Effect::Underline]));
    assert_eq!(sgr(&[7]).effects, effects(&[Effect::Invert]));
    assert_eq!(sgr(&[8]).effects, effects(&[Effect::Hidden]));
    assert_eq!(sgr(&[9]).effects, effects(&[Effect::Strikethrough]));
    assert_eq!(sgr(&[21]).effects, effects(&[Effect::DoubleUnderline]));
    assert_eq!(sgr(&[1, 3, 9]).effects, effects(&[Effect::Bold, Effect::Italic, Effect::Strikethrough]));
    assert_eq!(sgr(&[1, 2, 22]).effects, Effects::plain());
    assert_eq!(sgr(&[3, 23]).effects, Effects::plain());
    assert_eq!(sgr(&[4, 24]).effects, Effects::plain());
    assert_eq!(sgr(&[21, 24]).effects, Effects::plain());
    assert_eq!(sgr(&[7, 27]).effects, Effects::plain());
    assert_eq!(sgr(&[8, 28]).effects, Effects::plain());
    assert_eq!(sgr(&[9, 29]).effects, Effects::plain());
    assert_eq!(sgr(&[1, 31, 0]), Style::new());
    assert_eq!(sgr(&[5]), Style::new());
    assert_eq!(sgr(&[1234]), Style::new());
    let bold = Style::new().effects(effects(&[Effect::Bold]));
    assert_eq!(graphic_rendition(bold, &[], &[]), Style::new());
    assert_eq!(graphic_rendition(bold, &[3], &[false]).effects, effects(&[Effect::Bold, Effect::Italic]));
}

#[test]
fn rendition_of_underline_kinds() {
    let kinds = [
        (0, Effects::plain()),
        (1, effects(&[Effect::Underline])),
        (2, effects(&[Effect::DoubleUnderline])),
        (3, effects(&[Effect::CurlyUnderline])),
        (4, effects(&[Effect::DottedUnderline])),
        (5, effects(&[Effect::DashedUnderline])),
        (6, effects(&[Effect::Underline])),
    ];
    for (kind, expected) in kinds {
        assert_eq!(graphic_rendition(Style::new(), &[4, kind], &[false, true]).effects, expected);
        assert_eq!(underline(Style::new(), kind).effects, expected);
        let before = Style::new().effects(effects(&[Effect::Bold, Effect::CurlyUnderline]));
        assert_eq!(underline(before, kind).effects, expected.insert(Effect::Bold));
    }
    assert_eq!(
        graphic_rendition(Style::new(), &[4, 3], &[false, false]).effects,
        effects(&[Effect::Underline, Effect::Italic])
    );
    assert_eq!(extract("\x1b[4:3mx")[0].style.effects, effects(&[Effect::CurlyUnderline]));
    assert_eq!(extract("\x1b[4;3mx")[0].style.effects, effects(&[Effect::Underline, Effect::Italic]));
}

#[test]
fn rendition_of_colors() {
    assert_eq!(sgr(&[30]).fg, Some(Color::Ansi(AnsiColor::Black)));
    assert_eq!(sgr(&[37]).fg, Some(Color::Ansi(AnsiColor::White)));
    assert_eq!(sgr(&[40]).bg, Some(Color::Ansi(AnsiColor::Black)));
    assert_eq!(sgr(&[44]).bg, Some(Color::Ansi(AnsiColor::Blue)));
    assert_eq!(sgr(&[90]).fg, Some(Color::Ansi(AnsiColor::BrightBlack)));
    assert_eq!(sgr(&[97]).fg, Some(Color::Ansi(AnsiColor::BrightWhite)));
    assert_eq!(sgr(&[100]).bg, Some(Color::Ansi(AnsiColor::BrightBlack)));
    assert_eq!(sgr(&[103]).bg, Some(Color::Ansi(AnsiColor::BrightYellow)));
    assert_eq!(sgr(&[31, 39]), Style::new());
    assert_eq!(sgr(&[41, 49]), Style::new());
    assert_eq!(sgr(&[58, 5, 1, 59]), Style::new());
    assert_eq!(sgr(&[38, 5, 200]).fg, Some(Color::Ansi256(200)));
    assert_eq!(sgr(&[48, 5, 7]).bg, Some(Color::Ansi256(7)));
    assert_eq!(sgr(&[58, 5, 9]).underline, Some(Color::Ansi256(9)));
    assert_eq!(sgr(&[38, 5, 258]).fg, Some(Color::Ansi256(2)));
    assert_eq!(sgr(&[38, 2, 1, 2, 3]).fg, Some(Color::Rgb(Rgb { r: 1, g: 2, b: 3 })));
    assert_eq!(sgr(&[48, 2, 255, 0, 300]).bg, Some(Color::Rgb(Rgb { r: 255, g: 0, b: 44 })));
    let both = sgr(&[38, 5, 1, 1, 48, 2, 9, 8, 7, 3]);
    assert_eq!(both.fg, Some(Color::Ansi256(1)));
    assert_eq!(both.bg, Some(Color::Rgb(Rgb { r: 9, g: 8, b: 7 })));
    assert_eq!(both.effects, effects(&[Effect::Bold, Effect::Italic]));
    assert_eq!(sgr(&[1, 38, 1]), Style::new().effects(effects(&[Effect::Bold])));
    assert_eq!(sgr(&[38, 5]), Style::new());
    assert_eq!(sgr(&[38, 2, 1, 2]), Style::new());
    assert_eq!(sgr(&[38, 9, 1, 3]), Style::new());
}

#[test]
fn hyperlink_address_is_what_follows_the_second_parameter() {
    assert_eq!(hyperlink_address(&params(&["8", "", "a", "b", "", "c"])), b"a;b;;c".to_vec());
    assert_eq!(hyperlink_address(&params(&["8", "x", "a"])), b"a".to_vec());
    assert_eq!(hyperlink_address(&params(&["8", "x"])), b"".to_vec());
    assert_eq!(hyperlink_address(&params(&[])), b"".to_vec());
    assert!(command_is_hyperlink(&params(&["8"])));
    assert!(!command_is_hyperlink(&params(&["80"])));
    assert!(!command_is_hyperlink(&params(&["9", "", "u"])));
    assert!(!command_is_hyperlink(&params(&[])));
    assert!(!command_is_hyperlink(&params(&["", "8"])));

    let mut capture = Capture::new();
    assert_eq!(capture.command(&params(&["8", "", "https://e.org/?a=1", "b=2"])), None);
    assert_eq!(capture.url, Some(String::from("https://e.org/?a=1;b=2")));
    assert_eq!(capture.command(&[b"8".to_vec(), Vec::new(), vec![b'a', 0xff, b'b']]), None);
    assert_eq!(capture.url, Some(String::from("a\u{fffd}b")));
    assert_eq!(capture.command(&params(&["8", "", "\u{e9}\u{65e5}"])), None);
    assert_eq!(capture.url, Some(String::from("\u{e9}\u{65e5}")));
    assert_eq!(capture.command(&params(&["8", ""])), None);
    assert_eq!(capture.url, None);

    let elements = extract("\x1b]8;;https://e.org/?a=1;b=2\x07x\x1b]8;;\x07");
    assert_eq!(elements, vec![Element::link(Style::new(), "x", "https://e.org/?a=1;b=2")]);
}

#[test]
fn named_colors_by_position() {
    assert_eq!(ansi_color_at(0), Some(AnsiColor::Black));
    assert_eq!(ansi_color_at(7), Some(AnsiColor::White));
    assert_eq!(ansi_color_at(8), Some(AnsiColor::BrightBlack));
    assert_eq!(ansi_color_at(15), Some(AnsiColor::BrightWhite));
    assert_eq!(ansi_color_at(16), None);
    for i in 0..16 {
        assert_eq!(ansi_color_at(i).unwrap().index() as u16, i);
    }
}

#[test]
fn capture_hands_out_runs_on_changes_only() {
    let mut capture = Capture::new();
    assert_eq!(capture.take_run(), None);
    capture.print('a');
    capture.execute(b'\n');
    capture.execute(b'\t');
    capture.execute(b'\r');
    capture.execute(b' ');
    capture.execute(0x0c);
    capture.execute(0x07);
    capture.execute(0x1b);
    assert_eq!(capture.printable, "a\n\t\r \x0c");
    assert_eq!(capture.restyle(Style::new()), None);
    assert_eq!(capture.relink(None), None);
    assert_eq!(capture.hyperlink(""), None);
    assert_eq!(capture.command(&params(&["0", "", "title"])), None);
    assert_eq!(capture.command(&params(&["88", "", "u"])), None);
    assert_eq!(capture.command(&params(&[])), None);
    assert_eq!(capture.command(&params(&["8"])), None);
    assert_eq!(capture.command(&params(&["8", "id=1"])), None);
    assert_eq!(capture.command(&params(&["8", "", ""])), None);
    assert_eq!(capture.control_sequence(b'H', false, &[1], &[false]), None);
    assert_eq!(capture.control_sequence(b'm', true, &[1], &[false]), None);
    assert_eq!(capture.printable, "a\n\t\r \x0c");
    let bold = Style::new().effects(effects(&[Effect::Bold]));
    assert_eq!(
        capture.control_sequence(b'm', false, &[1], &[false]),
        Some(Element::new(Style::new(), "a\n\t\r \x0c"))
    );
    assert_eq!(capture.style, bold);
    assert_eq!(capture.printable, "");
    assert_eq!(capture.command(&params(&["8", "", "u"])), None);
    assert_eq!(capture.url, Some(String::from("u")));
    capture.print('b');
    assert_eq!(capture.command(&params(&["8", "id=1", "u"])), None);
    assert_eq!(capture.command(&params(&["8", "", "v"])), Some(Element::link(bold, "b", "u")));
    capture.print('c');
    assert_eq!(capture.hyperlink(""), Some(Element::link(bold, "c", "v")));
    assert_eq!(capture.url, None);
    capture.print('d');
    assert_eq!(capture.select_graphic_rendition(&[1], &[false]), None);
    assert_eq!(capture.take_run(), Some(Element::new(bold, "d")));
    assert_eq!(capture.take_run(), None);
}
