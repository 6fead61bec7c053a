//! Splitting runs of text into display lines.

use crate::element::Element;
use crate::element::ElementView;
use crate::style::Style;
use crate::text::split_once_newline;
use crate::text::trim_carriage_return;
use crate::text::without_carriage_return;
use vstd::prelude::*;

verus! {

/// The lines that are complete, and the line that is still open.
pub struct Split {
    pub closed: Seq<Seq<ElementView>>,
    pub open: Seq<ElementView>,
}

/// The position of the first line feed in `text`, or the length of `text`
/// where it holds none.
pub open spec fn newline_position(text: Seq<char>) -> int
    decreases text.len(),
{
    if text.len() == 0 || text[0] == '\n' {
        0
    } else {
        1 + newline_position(text.skip(1))
    }
}

/// The lines after one more run.
///
/// Each line feed in the run's text closes the open line: the text before
/// it, without a carriage return at its end, becomes the last run of that
/// line. What follows the last line feed, or the whole text where there is
/// none, joins the open line, also where it is empty.
pub open spec fn feed(state: Split, e: ElementView) -> Split
    decreases e.text.len(),
{
    let at = newline_position(e.text);
    if 0 <= at < e.text.len() {
        let piece = e.with_text(without_carriage_return(e.text.take(at)));
        feed(
            Split { closed: state.closed.push(state.open.push(piece)), open: Seq::empty() },
            e.with_text(e.text.skip(at + 1)),
        )
    } else {
        Split { closed: state.closed, open: state.open.push(e) }
    }
}

/// The lines after all of `elements`, in their order.
pub open spec fn feed_all(elements: Seq<ElementView>) -> Split
    decreases elements.len(),
{
    if elements.len() == 0 {
        Split { closed: Seq::empty(), open: Seq::empty() }
    } else {
        feed(feed_all(elements.drop_last()), elements.last())
    }
}

/// Whether a line shows anything: one of its runs has text.
pub open spec fn has_text(line: Seq<ElementView>) -> bool {
    exists|i: int| 0 <= i < line.len() && #[trigger] line[i].text.len() > 0
}

/// Whether the open line is a display line: it shows something, or it
/// holds a run and no line was closed before it.
pub open spec fn keeps_open(state: Split) -> bool {
    has_text(state.open) || (state.open.len() > 0 && state.closed.len() == 0)
}

/// The display lines of `elements`: the lines that a line feed closed,
/// followed by the open line where that is a display line. Only the open
/// line that follows a line feed and shows nothing is left out.
pub open spec fn split_lines_spec(elements: Seq<ElementView>) -> Seq<Seq<ElementView>> {
    let state = feed_all(elements);
    if keeps_open(state) {
        state.closed.push(state.open)
    } else {
        state.closed
    }
}

/// Where the text is `head`, a line feed and `tail`, and `head` holds no
/// line feed, the first line feed stands right after `head`.
pub proof fn lemma_newline_position_split(text: Seq<char>, head: Seq<char>, tail: Seq<char>)
    requires
        text == head + seq!['\n'] + tail,
        !head.contains('\n'),
    ensures
        newline_position(text) == head.len(),
        text.take(head.len() as int) == head,
        text.skip(head.len() as int + 1) == tail,
    decreases head.len(),
{
    assert(text.take(head.len() as int) =~= head);
    assert(text.skip(head.len() as int + 1) =~= tail);
    if head.len() > 0 {
        assert(head[0] == text[0]);
        assert(head.contains(head[0]));
        assert forall|c: char| head.skip(1).contains(c) implies head.contains(c) by {
            let i = choose|i: int| 0 <= i < head.skip(1).len() && head.skip(1)[i] == c;
            assert(head[i + 1] == c);
        }
        assert(text.skip(1) =~= head.skip(1) + seq!['\n'] + tail);
        lemma_newline_position_split(text.skip(1), head.skip(1), tail);
    }
}

/// The position of the first line feed is that of a line feed, with none
/// before it, or the length of a text that holds none.
pub proof fn lemma_newline_position(text: Seq<char>)
    ensures
        0 <= newline_position(text) <= text.len(),
        newline_position(text) < text.len() ==> text[newline_position(text)] == '\n',
        !text.contains('\n') <==> newline_position(text) == text.len(),
        forall|i: int| 0 <= i < newline_position(text) ==> text[i] != '\n',
    decreases text.len(),
{
    if text.len() == 0 {
    } else if text[0] == '\n' {
        assert(text.contains('\n'));
    } else {
        let rest = text.skip(1);
        lemma_newline_position(rest);
        let at = newline_position(rest);
        if at < rest.len() {
            assert(text[at + 1] == rest[at]);
            assert(text.contains('\n'));
        } else {
            if text.contains('\n') {
                let i = choose|i: int| 0 <= i < text.len() && text[i] == '\n';
                assert(rest[i - 1] == '\n');
                assert(rest.contains('\n'));
            }
        }
        assert forall|i: int| 0 <= i < newline_position(text) implies text[i] != '\n' by {
            if i > 0 {
                assert(text[i] == rest[i - 1]);
            }
        }
    }
}

/// The texts of the runs, one after the other.
pub open spec fn joined_text(elements: Seq<ElementView>) -> Seq<char>
    decreases elements.len(),
{
    if elements.len() == 0 {
        Seq::empty()
    } else {
        joined_text(elements.drop_last()) + elements.last().text
    }
}

/// The number of line feeds in a text.
pub open spec fn count_newlines(text: Seq<char>) -> nat
    decreases text.len(),
{
    if text.len() == 0 {
        0
    } else {
        count_newlines(text.drop_last()) + if text.last() == '\n' {
            1nat
        } else {
            0nat
        }
    }
}

/// The number of lines of a text: one for each line feed, and one more for
/// what follows the last line feed, unless nothing follows it.
pub open spec fn line_count(text: Seq<char>) -> nat {
    count_newlines(text) + if text.len() > 0 && text.last() != '\n' {
        1nat
    } else {
        0nat
    }
}

/// No run of the line holds a line feed.
pub open spec fn is_single_line(line: Seq<ElementView>) -> bool {
    forall|i: int| 0 <= i < line.len() ==> !(#[trigger] line[i]).text.contains('\n')
}

/// The line feeds of two texts add up.
pub proof fn lemma_count_newlines_concat(a: Seq<char>, b: Seq<char>)
    ensures
        count_newlines(a + b) == count_newlines(a) + count_newlines(b),
    decreases b.len(),
{
    if b.len() == 0 {
        assert(a + b =~= a);
    } else {
        assert((a + b).drop_last() =~= a + b.drop_last());
        lemma_count_newlines_concat(a, b.drop_last());
    }
}

/// A text holds a line feed if and only if it counts at least one.
pub proof fn lemma_count_newlines_zero(text: Seq<char>)
    ensures
        count_newlines(text) == 0 <==> !text.contains('\n'),
    decreases text.len(),
{
    if text.len() > 0 {
        let front = text.drop_last();
        lemma_count_newlines_zero(front);
        if text.last() == '\n' {
            assert(text[text.len() - 1] == '\n');
        } else if front.contains('\n') {
            let i = choose|i: int| 0 <= i < front.len() && front[i] == '\n';
            assert(text[i] == '\n');
        } else if text.contains('\n') {
            let i = choose|i: int| 0 <= i < text.len() && text[i] == '\n';
            assert(front[i] == '\n');
        }
    }
}

/// One run closes as many lines as its text holds line feeds, and leaves
/// the open line with something to show exactly where its text does not
/// end in a line feed, or holds none and there was something before.
pub proof fn lemma_feed_counts(state: Split, e: ElementView)
    ensures
        feed(state, e).closed.len() == state.closed.len() + count_newlines(e.text),
        has_text(feed(state, e).open) <==> if e.text.contains('\n') {
            e.text.last() != '\n'
        } else {
            has_text(state.open) || e.text.len() > 0
        },
    decreases e.text.len(),
{
    let text = e.text;
    let at = newline_position(text);
    lemma_newline_position(text);
    lemma_count_newlines_zero(text);
    if at < text.len() {
        let head = text.take(at);
        let rest = text.skip(at + 1);
        let piece = e.with_text(without_carriage_return(head));
        let next = Split { closed: state.closed.push(state.open.push(piece)), open: Seq::empty() };
        lemma_feed_counts(next, e.with_text(rest));
        assert(text =~= head + seq!['\n'] + rest);
        lemma_count_newlines_concat(head + seq!['\n'], rest);
        lemma_count_newlines_concat(head, seq!['\n']);
        lemma_count_newlines_zero(head);
        assert(seq!['\n'].drop_last() =~= Seq::<char>::empty());
        assert(count_newlines(seq!['\n']) == 1) by {
            reveal_with_fuel(count_newlines, 2);
        }
        assert(!has_text(next.open));
        if rest.len() > 0 {
            assert(text.last() == rest.last());
            if !rest.contains('\n') {
                assert(rest[rest.len() - 1] != '\n');
            }
        }
    } else {
        let open = state.open.push(e);
        if has_text(state.open) {
            let i = choose|i: int| 0 <= i < state.open.len() && state.open[i].text.len() > 0;
            assert(open[i].text.len() > 0);
        }
        if text.len() > 0 {
            assert(open[open.len() - 1].text.len() > 0);
        }
        if has_text(open) {
            let i = choose|i: int| 0 <= i < open.len() && open[i].text.len() > 0;
            if i < state.open.len() {
                assert(state.open[i].text.len() > 0);
            }
        }
    }
}

/// The lines that are closed are as many as the line feeds, and the open
/// line shows something exactly where the text does not end in a line feed.
pub proof fn lemma_feed_all_counts(elements: Seq<ElementView>)
    ensures
        feed_all(elements).closed.len() == count_newlines(joined_text(elements)),
        has_text(feed_all(elements).open) <==> joined_text(elements).len() > 0 && joined_text(
            elements,
        ).last() != '\n',
    decreases elements.len(),
{
    if elements.len() > 0 {
        let front = elements.drop_last();
        let e = elements.last();
        lemma_feed_all_counts(front);
        lemma_feed_counts(feed_all(front), e);
        lemma_count_newlines_concat(joined_text(front), e.text);
        let whole = joined_text(elements);
        if e.text.len() > 0 {
            assert(whole.last() == e.text.last());
            if !e.text.contains('\n') {
                assert(e.text[e.text.len() - 1] != '\n');
            }
        } else {
            assert(whole =~= joined_text(front));
            assert(!e.text.contains('\n'));
        }
    }
}

/// The number of display lines of the runs: that of the lines of their
/// text, one line for runs that are all without text, and none where
/// there is no run.
pub open spec fn display_line_count(elements: Seq<ElementView>) -> nat {
    if joined_text(elements).len() > 0 {
        line_count(joined_text(elements))
    } else if elements.len() > 0 {
        1
    } else {
        0
    }
}

/// After a run the open line holds a run.
pub proof fn lemma_feed_fills_open(state: Split, e: ElementView)
    ensures
        feed(state, e).open.len() > 0,
    decreases e.text.len(),
{
    let at = newline_position(e.text);
    lemma_newline_position(e.text);
    if at < e.text.len() {
        let piece = e.with_text(without_carriage_return(e.text.take(at)));
        let next = Split { closed: state.closed.push(state.open.push(piece)), open: Seq::empty() };
        lemma_feed_fills_open(next, e.with_text(e.text.skip(at + 1)));
    }
}

/// Runs without a line feed all stay in the open line, as they are.
pub proof fn lemma_feed_all_single(elements: Seq<ElementView>)
    requires
        is_single_line(elements),
    ensures
        feed_all(elements) == (Split { closed: Seq::empty(), open: elements }),
    decreases elements.len(),
{
    if elements.len() == 0 {
        assert(elements =~= Seq::empty());
    } else {
        let front = elements.drop_last();
        let e = elements.last();
        assert forall|i: int| 0 <= i < front.len() implies !(#[trigger] front[i]).text.contains(
            '\n',
        ) by {
            assert(front[i] == elements[i]);
        }
        lemma_feed_all_single(front);
        assert(!elements[elements.len() - 1].text.contains('\n'));
        lemma_newline_position(e.text);
        assert(front.push(e) =~= elements);
    }
}

/// Runs that hold no line feed make one display line, which holds them
/// as they are, whether they have text or not.
pub proof fn lemma_single_line(elements: Seq<ElementView>)
    requires
        elements.len() > 0,
        is_single_line(elements),
    ensures
        split_lines_spec(elements) == seq![elements],
{
    lemma_feed_all_single(elements);
    assert(Seq::<Seq<ElementView>>::empty().push(elements) =~= seq![elements]);
}

/// The number of display lines is the number of lines of the whole text:
/// one for each line feed, and one more where the text goes on after the
/// last line feed. Runs that are all without text make one line.
pub proof fn lemma_line_count(elements: Seq<ElementView>)
    ensures
        split_lines_spec(elements).len() == display_line_count(elements),
{
    let state = feed_all(elements);
    let text = joined_text(elements);
    lemma_feed_all_counts(elements);
    lemma_count_newlines_zero(text);
    if elements.len() > 0 {
        lemma_feed_fills_open(feed_all(elements.drop_last()), elements.last());
    }
    if text.len() > 0 && state.closed.len() == 0 {
        assert(text[text.len() - 1] != '\n');
    }
}

/// Feeding a run keeps line feeds out of the lines.
pub proof fn lemma_feed_single_lines(state: Split, e: ElementView)
    requires
        forall|k: int| 0 <= k < state.closed.len() ==> is_single_line(#[trigger] state.closed[k]),
        is_single_line(state.open),
    ensures
        forall|k: int|
            0 <= k < feed(state, e).closed.len() ==> is_single_line(
                #[trigger] feed(state, e).closed[k],
            ),
        is_single_line(feed(state, e).open),
    decreases e.text.len(),
{
    let text = e.text;
    let at = newline_position(text);
    lemma_newline_position(text);
    if at < text.len() {
        let head = text.take(at);
        let trimmed = without_carriage_return(head);
        let piece = e.with_text(trimmed);
        let line = state.open.push(piece);
        let next = Split { closed: state.closed.push(line), open: Seq::empty() };
        if trimmed.contains('\n') {
            let i = choose|i: int| 0 <= i < trimmed.len() && trimmed[i] == '\n';
            assert(text[i] == '\n');
        }
        assert forall|i: int| 0 <= i < line.len() implies !(#[trigger] line[i]).text.contains(
            '\n',
        ) by {
            if i < state.open.len() {
                assert(line[i] == state.open[i]);
            }
        }
        assert forall|k: int| 0 <= k < next.closed.len() implies is_single_line(
            #[trigger] next.closed[k],
        ) by {
            if k < state.closed.len() {
                assert(next.closed[k] == state.closed[k]);
            }
        }
        lemma_feed_single_lines(next, e.with_text(text.skip(at + 1)));
    } else {
        let open = state.open.push(e);
        assert forall|i: int| 0 <= i < open.len() implies !(#[trigger] open[i]).text.contains(
            '\n',
        ) by {
            if i < state.open.len() {
                assert(open[i] == state.open[i]);
            }
        }
    }
}

/// No run of a display line holds a line feed.
pub proof fn lemma_lines_are_single(elements: Seq<ElementView>)
    ensures
        forall|k: int|
            0 <= k < split_lines_spec(elements).len() ==> is_single_line(
                #[trigger] split_lines_spec(elements)[k],
            ),
        forall|k: int|
            0 <= k < feed_all(elements).closed.len() ==> is_single_line(
                #[trigger] feed_all(elements).closed[k],
            ),
        is_single_line(feed_all(elements).open),
    decreases elements.len(),
{
    if elements.len() > 0 {
        lemma_lines_are_single(elements.drop_last());
        lemma_feed_single_lines(feed_all(elements.drop_last()), elements.last());
    }
    let state = feed_all(elements);
    let lines = split_lines_spec(elements);
    assert forall|k: int| 0 <= k < lines.len() implies is_single_line(#[trigger] lines[k]) by {
        if k < state.closed.len() {
            assert(lines[k] == state.closed[k]);
        }
    }
}

/// Whether `run` has the style and the link of one of `sources`.
pub open spec fn comes_from(run: ElementView, sources: Seq<ElementView>) -> bool {
    exists|j: int|
        0 <= j < sources.len() && (#[trigger] sources[j]).style == run.style && sources[j].url
            == run.url
}

/// Whether every run of the line has the style and the link of one of
/// `sources`.
pub open spec fn line_comes_from(line: Seq<ElementView>, sources: Seq<ElementView>) -> bool {
    forall|i: int| 0 <= i < line.len() ==> comes_from(#[trigger] line[i], sources)
}

/// Whether every run of the lines has the style and the link of one of
/// `sources`.
pub open spec fn lines_come_from(lines: Seq<Seq<ElementView>>, sources: Seq<ElementView>) -> bool {
    forall|k: int| 0 <= k < lines.len() ==> line_comes_from(#[trigger] lines[k], sources)
}

/// Feeding a run brings no style and no link but its own.
pub proof fn lemma_feed_comes_from(state: Split, e: ElementView, sources: Seq<ElementView>)
    requires
        lines_come_from(state.closed, sources),
        line_comes_from(state.open, sources),
        comes_from(e, sources),
    ensures
        lines_come_from(feed(state, e).closed, sources),
        line_comes_from(feed(state, e).open, sources),
    decreases e.text.len(),
{
    let text = e.text;
    let at = newline_position(text);
    lemma_newline_position(text);
    let j = choose|j: int|
        0 <= j < sources.len() && (#[trigger] sources[j]).style == e.style && sources[j].url
            == e.url;
    if at < text.len() {
        let piece = e.with_text(without_carriage_return(text.take(at)));
        let line = state.open.push(piece);
        let next = Split { closed: state.closed.push(line), open: Seq::empty() };
        let rest = e.with_text(text.skip(at + 1));
        assert(sources[j].style == piece.style && sources[j].url == piece.url);
        assert(sources[j].style == rest.style && sources[j].url == rest.url);
        assert forall|i: int| 0 <= i < line.len() implies comes_from(
            #[trigger] line[i],
            sources,
        ) by {
            if i < state.open.len() {
                assert(line[i] == state.open[i]);
            }
        }
        assert forall|k: int| 0 <= k < next.closed.len() implies line_comes_from(
            #[trigger] next.closed[k],
            sources,
        ) by {
            if k < state.closed.len() {
                assert(next.closed[k] == state.closed[k]);
            }
        }
        lemma_feed_comes_from(next, rest, sources);
    } else {
        let open = state.open.push(e);
        assert forall|i: int| 0 <= i < open.len() implies comes_from(
            #[trigger] open[i],
            sources,
        ) by {
            if i < state.open.len() {
                assert(open[i] == state.open[i]);
            }
        }
    }
}

/// Every run of the lines after the first `n` of `elements` has the style
/// and the link of one of `elements`.
pub proof fn lemma_feed_all_comes_from(elements: Seq<ElementView>, n: int)
    requires
        0 <= n <= elements.len(),
    ensures
        lines_come_from(feed_all(elements.take(n)).closed, elements),
        line_comes_from(feed_all(elements.take(n)).open, elements),
    decreases n,
{
    if n > 0 {
        lemma_feed_all_comes_from(elements, n - 1);
        let part = elements.take(n);
        assert(part.drop_last() =~= elements.take(n - 1));
        assert(part.last() == elements[n - 1]);
        lemma_feed_comes_from(feed_all(elements.take(n - 1)), elements[n - 1], elements);
    }
}

/// Every run of a display line has the style and the link of one of the
/// runs that were split.
pub proof fn lemma_lines_come_from(elements: Seq<ElementView>)
    ensures
        lines_come_from(split_lines_spec(elements), elements),
{
    lemma_feed_all_comes_from(elements, elements.len() as int);
    assert(elements.take(elements.len() as int) =~= elements);
    let state = feed_all(elements);
    let lines = split_lines_spec(elements);
    assert forall|k: int| 0 <= k < lines.len() implies line_comes_from(
        #[trigger] lines[k],
        elements,
    ) by {
        if k < state.closed.len() {
            assert(lines[k] == state.closed[k]);
        }
    }
}

/// Whether a text has a character that a line shows: one that is no line
/// feed, and no carriage return right before a line feed.
pub open spec fn shows_text(text: Seq<char>) -> bool {
    exists|p: int|
        0 <= p < text.len() && #[trigger] text[p] != '\n' && !(text[p] == '\r' && p + 1
            < text.len() && text[p + 1] == '\n')
}

/// Whether a run of the line has text and the style `style`.
pub open spec fn line_shows(line: Seq<ElementView>, style: Style) -> bool {
    exists|i: int| 0 <= i < line.len() && (#[trigger] line[i]).text.len() > 0 && line[i].style == style
}

/// Whether a run of the lines has text and the style `style`.
pub open spec fn lines_show(lines: Seq<Seq<ElementView>>, style: Style) -> bool {
    exists|k: int| 0 <= k < lines.len() && line_shows(#[trigger] lines[k], style)
}

/// What the lines show, they show after one more run.
pub proof fn lemma_feed_keeps_shown(state: Split, e: ElementView, style: Style)
    requires
        lines_show(state.closed, style) || line_shows(state.open, style),
    ensures
        lines_show(feed(state, e).closed, style) || line_shows(feed(state, e).open, style),
    decreases e.text.len(),
{
    let text = e.text;
    let at = newline_position(text);
    lemma_newline_position(text);
    if at < text.len() {
        let piece = e.with_text(without_carriage_return(text.take(at)));
        let line = state.open.push(piece);
        let next = Split { closed: state.closed.push(line), open: Seq::empty() };
        if lines_show(state.closed, style) {
            let k = choose|k: int|
                0 <= k < state.closed.len() && line_shows(#[trigger] state.closed[k], style);
            assert(next.closed[k] == state.closed[k]);
        } else {
            let i = choose|i: int|
                0 <= i < state.open.len() && (#[trigger] state.open[i]).text.len() > 0
                    && state.open[i].style == style;
            assert(line[i] == state.open[i]);
            assert(line_shows(line, style));
            assert(next.closed[next.closed.len() - 1] == line);
        }
        lemma_feed_keeps_shown(next, e.with_text(text.skip(at + 1)), style);
    } else {
        if !lines_show(state.closed, style) {
            let i = choose|i: int|
                0 <= i < state.open.len() && (#[trigger] state.open[i]).text.len() > 0
                    && state.open[i].style == style;
            assert(state.open.push(e)[i] == state.open[i]);
        }
    }
}

/// A run with a character to show gives a run with text and its style.
pub proof fn lemma_feed_shows(state: Split, e: ElementView)
    requires
        shows_text(e.text),
    ensures
        lines_show(feed(state, e).closed, e.style) || line_shows(feed(state, e).open, e.style),
    decreases e.text.len(),
{
    let text = e.text;
    let at = newline_position(text);
    lemma_newline_position(text);
    if at < text.len() {
        let head = text.take(at);
        let piece = e.with_text(without_carriage_return(head));
        let line = state.open.push(piece);
        let next = Split { closed: state.closed.push(line), open: Seq::empty() };
        let rest = e.with_text(text.skip(at + 1));
        if piece.text.len() > 0 {
            assert(line[line.len() - 1] == piece);
            assert(line_shows(line, e.style));
            assert(next.closed[next.closed.len() - 1] == line);
            lemma_feed_keeps_shown(next, rest, e.style);
        } else {
            let p = choose|p: int|
                0 <= p < text.len() && #[trigger] text[p] != '\n' && !(text[p] == '\r' && p + 1
                    < text.len() && text[p + 1] == '\n');
            if p < at {
                assert(head[p] == text[p]);
                assert(head.len() == 1 && head.last() == '\r');
            }
            assert(rest.text[p - at - 1] == text[p]);
            if p + 1 < text.len() {
                assert(rest.text[p - at] == text[p + 1]);
            }
            assert(shows_text(rest.text));
            lemma_feed_shows(next, rest);
        }
    } else {
        let open = state.open.push(e);
        assert(open[open.len() - 1] == e);
    }
}

/// A run with a character to show, among the first `n` of `elements`,
/// gives the lines a run with text and its style.
pub proof fn lemma_feed_all_shows(elements: Seq<ElementView>, j: int, n: int)
    requires
        0 <= j < n <= elements.len(),
        shows_text(elements[j].text),
    ensures
        lines_show(feed_all(elements.take(n)).closed, elements[j].style) || line_shows(
            feed_all(elements.take(n)).open,
            elements[j].style,
        ),
    decreases n,
{
    let part = elements.take(n);
    assert(part.drop_last() =~= elements.take(n - 1));
    assert(part.last() == elements[n - 1]);
    if j == n - 1 {
        lemma_feed_shows(feed_all(elements.take(n - 1)), elements[j]);
    } else {
        lemma_feed_all_shows(elements, j, n - 1);
        lemma_feed_keeps_shown(feed_all(elements.take(n - 1)), elements[n - 1], elements[j].style);
    }
}

/// A run with a character to show gives a display line a run with text
/// and its style.
pub proof fn lemma_lines_show(elements: Seq<ElementView>, j: int)
    requires
        0 <= j < elements.len(),
        shows_text(elements[j].text),
    ensures
        lines_show(split_lines_spec(elements), elements[j].style),
{
    lemma_feed_all_shows(elements, j, elements.len() as int);
    assert(elements.take(elements.len() as int) =~= elements);
    let state = feed_all(elements);
    let lines = split_lines_spec(elements);
    let style = elements[j].style;
    if lines_show(state.closed, style) {
        let k = choose|k: int|
            0 <= k < state.closed.len() && line_shows(#[trigger] state.closed[k], style);
        assert(lines[k] == state.closed[k]);
    } else {
        let i = choose|i: int|
            0 <= i < state.open.len() && (#[trigger] state.open[i]).text.len() > 0
                && state.open[i].style == style;
        assert(has_text(state.open));
        assert(lines[lines.len() - 1] == state.open);
    }
}

/// The text with each line feed kept and the carriage return before it
/// taken out.
pub open spec fn without_carriage_returns(text: Seq<char>) -> Seq<char>
    decreases text.len(),
{
    let at = newline_position(text);
    if 0 <= at < text.len() {
        without_carriage_return(text.take(at)) + seq!['\n'] + without_carriage_returns(
            text.skip(at + 1),
        )
    } else {
        text
    }
}

/// The texts of the runs, each without the carriage returns before its
/// line feeds, one after the other.
pub open spec fn source_text(elements: Seq<ElementView>) -> Seq<char>
    decreases elements.len(),
{
    if elements.len() == 0 {
        Seq::empty()
    } else {
        source_text(elements.drop_last()) + without_carriage_returns(elements.last().text)
    }
}

/// The texts of the lines, each with a line feed after it.
pub open spec fn lines_text(lines: Seq<Seq<ElementView>>) -> Seq<char>
    decreases lines.len(),
{
    if lines.len() == 0 {
        Seq::empty()
    } else {
        lines_text(lines.drop_last()) + joined_text(lines.last()) + seq!['\n']
    }
}

/// A text with a line feed at its end: the text itself where it is empty
/// or ends in one.
pub open spec fn terminated(text: Seq<char>) -> Seq<char> {
    if text.len() > 0 && text.last() != '\n' {
        text.push('\n')
    } else {
        text
    }
}

/// What the display lines of the runs spell: the text of the runs without
/// the carriage returns before its line feeds, with a line feed at its
/// end; one line feed, for the one empty line, where there are runs and
/// none has text.
pub open spec fn spelled_text(elements: Seq<ElementView>) -> Seq<char> {
    if source_text(elements).len() == 0 && elements.len() > 0 {
        seq!['\n']
    } else {
        terminated(source_text(elements))
    }
}

/// A line shows something exactly where the texts of its runs are not
/// all empty, and a line without line feeds has none in its text.
pub proof fn lemma_joined_text(line: Seq<ElementView>)
    ensures
        has_text(line) <==> joined_text(line).len() > 0,
        is_single_line(line) ==> !joined_text(line).contains('\n'),
    decreases line.len(),
{
    if line.len() > 0 {
        let front = line.drop_last();
        lemma_joined_text(front);
        if has_text(front) {
            let i = choose|i: int| 0 <= i < front.len() && front[i].text.len() > 0;
            assert(line[i].text.len() > 0);
        }
        if line.last().text.len() > 0 {
            assert(line[line.len() - 1].text.len() > 0);
        }
        if has_text(line) {
            let i = choose|i: int| 0 <= i < line.len() && line[i].text.len() > 0;
            if i < front.len() {
                assert(front[i].text.len() > 0);
            }
        }
        if is_single_line(line) {
            assert forall|i: int| 0 <= i < front.len() implies !(#[trigger] front[i]).text.contains(
                '\n',
            ) by {
                assert(front[i] == line[i]);
            }
            let whole = joined_text(line);
            let tail = line[line.len() - 1].text;
            if whole.contains('\n') {
                let p = choose|p: int| 0 <= p < whole.len() && whole[p] == '\n';
                if p < joined_text(front).len() {
                    assert(joined_text(front)[p] == '\n');
                } else {
                    assert(tail[p - joined_text(front).len()] == '\n');
                }
            }
        }
    }
}

/// One run adds its text to the text of the lines, without the carriage
/// returns before its line feeds.
pub proof fn lemma_feed_text(state: Split, e: ElementView)
    ensures
        lines_text(feed(state, e).closed) + joined_text(feed(state, e).open) == lines_text(
            state.closed,
        ) + joined_text(state.open) + without_carriage_returns(e.text),
    decreases e.text.len(),
{
    let text = e.text;
    let at = newline_position(text);
    lemma_newline_position(text);
    if at < text.len() {
        let piece = e.with_text(without_carriage_return(text.take(at)));
        let line = state.open.push(piece);
        let next = Split { closed: state.closed.push(line), open: Seq::empty() };
        let rest = e.with_text(text.skip(at + 1));
        lemma_feed_text(next, rest);
        assert(line.drop_last() =~= state.open);
        assert(next.closed.drop_last() =~= state.closed);
        assert(lines_text(next.closed) + joined_text(next.open) =~= lines_text(state.closed)
            + joined_text(state.open) + piece.text + seq!['\n']);
        assert(lines_text(feed(state, e).closed) + joined_text(feed(state, e).open) =~= lines_text(
            state.closed,
        ) + joined_text(state.open) + without_carriage_returns(text));
    } else {
        assert(state.open.push(e).drop_last() =~= state.open);
        assert(lines_text(state.closed) + joined_text(state.open.push(e)) =~= lines_text(
            state.closed,
        ) + joined_text(state.open) + text);
    }
}

/// The lines that are closed and the open line hold the text of the
/// runs, without the carriage returns before its line feeds.
pub proof fn lemma_feed_all_text(elements: Seq<ElementView>)
    ensures
        lines_text(feed_all(elements).closed) + joined_text(feed_all(elements).open)
            == source_text(elements),
    decreases elements.len(),
{
    if elements.len() > 0 {
        lemma_feed_all_text(elements.drop_last());
        lemma_feed_text(feed_all(elements.drop_last()), elements.last());
    }
}

/// The display lines spell the text of the runs: their texts, each with
/// a line feed after it, are the text of the runs without the carriage
/// returns before its line feeds, with a line feed at its end.
///
/// As no run of a line holds a line feed, this says where each line
/// begins and ends.
pub proof fn lemma_lines_spell_text(elements: Seq<ElementView>)
    ensures
        lines_text(split_lines_spec(elements)) == spelled_text(elements),
{
    let state = feed_all(elements);
    let lines = split_lines_spec(elements);
    let source = source_text(elements);
    lemma_feed_all_text(elements);
    lemma_lines_are_single(elements);
    lemma_joined_text(state.open);
    let tail = joined_text(state.open);
    if elements.len() > 0 {
        lemma_feed_fills_open(feed_all(elements.drop_last()), elements.last());
    }
    if has_text(state.open) {
        assert(lines.drop_last() =~= state.closed);
        assert(source.last() == tail[tail.len() - 1]);
        assert(lines_text(lines) =~= source.push('\n'));
    } else {
        assert(tail =~= Seq::<char>::empty());
        assert(source =~= lines_text(state.closed));
        if state.closed.len() > 0 {
            assert(source.last() == '\n');
        } else if state.open.len() > 0 {
            assert(lines.drop_last() =~= state.closed);
            assert(lines_text(lines) =~= seq!['\n']);
        }
    }
}

/// Whether one of the runs has text.
pub fn line_has_text(line: &Vec<Element>) -> (b: bool)
    ensures
        b == has_text(line.deep_view()),
{
    let mut i: usize = 0;
    while i < line.len()
        invariant
            i <= line.len(),
            forall|j: int| 0 <= j < i ==> line.deep_view()[j].text.len() == 0,
        decreases line.len() - i,
    {
        if !line[i].text.as_str().is_empty() {
            assert(line.deep_view()[i as int].text.len() > 0);
            return true;
        }
        i = i + 1;
    }
    false
}

/// Splits runs of text into display lines.
///
/// A run whose text holds line feeds is cut at each of them, and the
/// pieces keep its style and link. No run of the result holds a line feed.
/// What follows the last line feed is left out where it shows nothing, so
/// a text that ends in a line feed gets no empty line after it. Runs
/// without any line feed make one line, also where none of them has text.
pub fn split_lines(styled: &[Element]) -> (lines: Vec<Vec<Element>>)
    ensures
        lines.deep_view() == split_lines_spec(styled.deep_view()),
        lines.len() == display_line_count(styled.deep_view()),
        styled@.len() > 0 && is_single_line(styled.deep_view()) ==> lines.deep_view() == seq![
            styled.deep_view(),
        ],
        forall|k: int| 0 <= k < lines.len() ==> is_single_line(#[trigger] lines.deep_view()[k]),
        lines_come_from(lines.deep_view(), styled.deep_view()),
        lines_text(lines.deep_view()) == spelled_text(styled.deep_view()),
{
    let lines = cut_lines(styled);
    proof {
        let all = styled.deep_view();
        assert(lines.deep_view().len() == lines.len());
        lemma_line_count(all);
        if all.len() > 0 && is_single_line(all) {
            lemma_single_line(all);
        }
        lemma_lines_are_single(all);
        lemma_lines_come_from(all);
        lemma_lines_spell_text(all);
    }
    lines
}

/// Cuts the runs at their line feeds and gathers the pieces line by line.
fn cut_lines(styled: &[Element]) -> (lines: Vec<Vec<Element>>)
    ensures
        lines.deep_view() == split_lines_spec(styled.deep_view()),
{
    let mut lines: Vec<Vec<Element>> = Vec::new();
    let mut current: Vec<Element> = Vec::new();
    let ghost all = styled.deep_view();
    let mut k: usize = 0;
    assert(all.take(0) =~= Seq::empty());
    assert(lines.deep_view() =~= Seq::empty());
    assert(current.deep_view() =~= Seq::empty());
    while k < styled.len()
        invariant
            k <= styled.len(),
            all == styled.deep_view(),
            (Split { closed: lines.deep_view(), open: current.deep_view() }) == feed_all(
                all.take(k as int),
            ),
        decreases styled.len() - k,
    {
        let element = &styled[k];
        let mut rest: &str = element.text.as_str();
        let ghost before = feed_all(all.take(k as int));
        assert(element@.with_text(rest@) == element@);
        assert(all[k as int] == element@);
        loop
            invariant
                feed(
                    Split { closed: lines.deep_view(), open: current.deep_view() },
                    element@.with_text(rest@),
                ) == feed(before, element@),
            ensures
                !rest@.contains('\n'),
            decreases rest@.len(),
        {
            match split_once_newline(rest) {
                Some((head, tail)) => {
                    proof {
                        lemma_newline_position_split(rest@, head@, tail@);
                    }
                    let piece = element.with_text(trim_carriage_return(head));
                    let ghost old_lines = lines.deep_view();
                    let ghost old_current = current.deep_view();
                    current.push(piece);
                    assert(current.deep_view() =~= old_current.push(piece@));
                    lines.push(current);
                    assert(lines.deep_view() =~= old_lines.push(old_current.push(piece@)));
                    current = Vec::new();
                    assert(current.deep_view() =~= Seq::empty());
                    assert(element@.with_text(rest@).with_text(tail@) == element@.with_text(tail@));
                    rest = tail;
                },
                None => {
                    break ;
                },
            }
        }
        proof {
            lemma_newline_position(rest@);
        }
        let last = element.with_text(rest);
        let ghost old_current = current.deep_view();
        current.push(last);
        assert(current.deep_view() =~= old_current.push(last@));
        assert(all.take(k + 1).drop_last() =~= all.take(k as int));
        assert(all.take(k + 1).last() == element@);
        k = k + 1;
    }
    assert(all.take(k as int) =~= all);
    let ghost state = Split { closed: lines.deep_view(), open: current.deep_view() };
    assert(state == feed_all(all));
    assert(state.closed.len() == lines.len() && state.open.len() == current.len());
    if line_has_text(&current) || (lines.len() == 0 && current.len() > 0) {
        assert(keeps_open(state));
        lines.push(current);
        assert(lines.deep_view() =~= state.closed.push(state.open));
    } else {
        assert(!keeps_open(state));
    }
    lines
}

} // verus!
