//! Gathering runs of text while a parser of escape sequences reports what
//! it reads: characters, control bytes, changes of style and of link.

use crate::element::Element;
use crate::element::ElementView;
use crate::sgr::graphic_rendition;
use crate::sgr::rendition;
use crate::style::Style;
use crate::text::decode_lossy;
use crate::text::lossy_text;
use crate::text::push_char;
use vstd::prelude::*;

verus! {

/// The style and the link that the next characters get, and the
/// characters that were printed since the last run.
#[derive(Clone, Debug, PartialEq, Eq)]
pub struct Capture {
    pub style: Style,
    pub url: Option<String>,
    pub printable: String,
}

/// What a [`Capture`] holds, with its strings as sequences of characters.
pub struct CaptureView {
    pub style: Style,
    pub url: Option<Seq<char>>,
    pub printable: Seq<char>,
}

impl View for Capture {
    type V = CaptureView;

    open spec fn view(&self) -> CaptureView {
        CaptureView {
            style: self.style,
            url: match self.url {
                Some(u) => Some(u@),
                None => None,
            },
            printable: self.printable@,
        }
    }
}

/// What an optional run holds.
pub open spec fn run_view(run: Option<Element>) -> Option<ElementView> {
    match run {
        Some(e) => Some(e@),
        None => None,
    }
}

/// What an optional string holds.
pub open spec fn url_view(url: Option<String>) -> Option<Seq<char>> {
    match url {
        Some(u) => Some(u@),
        None => None,
    }
}

/// The character that a control byte prints: tab, line feed, form feed,
/// carriage return and space print themselves, the others nothing.
pub open spec fn control_char(byte: u8) -> Option<char> {
    if byte == 9 {
        Some('\t')
    } else if byte == 10 {
        Some('\n')
    } else if byte == 12 {
        Some('\x0C')
    } else if byte == 13 {
        Some('\r')
    } else if byte == 32 {
        Some(' ')
    } else {
        None
    }
}

impl CaptureView {
    /// The run of the characters that were printed, where there are any.
    pub open spec fn pending(self) -> Option<ElementView> {
        if self.printable.len() > 0 {
            Some(ElementView { style: self.style, text: self.printable, url: self.url })
        } else {
            None
        }
    }

    /// The state with no character printed.
    pub open spec fn emptied(self) -> CaptureView {
        CaptureView { printable: Seq::empty(), ..self }
    }
}

/// What each of the parameters holds.
pub open spec fn byte_views(params: Seq<Vec<u8>>) -> Seq<Seq<u8>> {
    Seq::new(params.len(), |i: int| params[i]@)
}

/// The parts with a semicolon between each two.
pub open spec fn joined_bytes(parts: Seq<Seq<u8>>) -> Seq<u8>
    decreases parts.len(),
{
    if parts.len() == 0 {
        Seq::empty()
    } else if parts.len() == 1 {
        parts[0]
    } else {
        joined_bytes(parts.drop_last()) + seq![59u8] + parts.last()
    }
}

/// Whether the parameters are those of a hyperlink: the first is the
/// number 8, written as one digit.
pub open spec fn is_hyperlink(params: Seq<Seq<u8>>) -> bool {
    params.len() > 0 && params[0] == seq![56u8]
}

/// The address of a hyperlink: the parameters from the third on, with
/// the semicolons that parted them.
pub open spec fn link_address(params: Seq<Seq<u8>>) -> Seq<u8> {
    if params.len() > 2 {
        joined_bytes(params.skip(2))
    } else {
        Seq::empty()
    }
}

/// The link after an operating system command: as before where the
/// command is no hyperlink, none where the address is empty, and else the
/// text of the address.
pub open spec fn command_url(params: Seq<Seq<u8>>, before: Option<Seq<char>>) -> Option<
    Seq<char>,
> {
    if !is_hyperlink(params) {
        before
    } else if link_address(params).len() == 0 {
        None
    } else {
        Some(lossy_text(link_address(params)))
    }
}

/// Whether the parameters are those of a hyperlink.
pub fn command_is_hyperlink(params: &[Vec<u8>]) -> (yes: bool)
    ensures
        yes == is_hyperlink(byte_views(params@)),
{
    if params.len() > 0 && params[0].len() == 1 && params[0][0] == 56 {
        assert(params[0]@ =~= seq![56u8]);
        true
    } else {
        if params.len() > 0 && params[0].len() == 1 {
            assert(seq![56u8][0] == 56u8);
        }
        false
    }
}

/// The address of a hyperlink: the parameters from the third on, with
/// the semicolons that parted them.
pub fn hyperlink_address(params: &[Vec<u8>]) -> (bytes: Vec<u8>)
    ensures
        bytes@ == link_address(byte_views(params@)),
{
    let mut bytes: Vec<u8> = Vec::new();
    if params.len() <= 2 {
        return bytes;
    }
    let ghost parts = byte_views(params@).skip(2);
    let mut i: usize = 2;
    assert(parts.take(0) =~= Seq::<Seq<u8>>::empty());
    while i < params.len()
        invariant
            2 <= i <= params.len(),
            parts == byte_views(params@).skip(2),
            bytes@ == joined_bytes(parts.take(i - 2)),
        decreases params.len() - i,
    {
        let ghost so_far = bytes@;
        if i > 2 {
            bytes.push(59);
        }
        let ghost start = bytes@;
        let part = &params[i];
        let mut j: usize = 0;
        while j < part.len()
            invariant
                j <= part.len(),
                bytes@ == start + part@.take(j as int),
            decreases part.len() - j,
        {
            bytes.push(part[j]);
            assert(bytes@ =~= start + part@.take(j + 1));
            j = j + 1;
        }
        proof {
            assert(part@.take(j as int) =~= part@);
            let next = parts.take(i - 1);
            assert(next.drop_last() =~= parts.take(i - 2));
            assert(next.last() == part@);
            if i > 2 {
                assert(bytes@ =~= so_far + seq![59u8] + part@);
            } else {
                assert(bytes@ =~= part@);
            }
        }
        i = i + 1;
    }
    assert(parts.take(i - 2) =~= parts);
    bytes
}

/// Whether two optional strings hold the same.
pub fn same_url(a: &Option<String>, b: &Option<String>) -> (same: bool)
    ensures
        same == (url_view(*a) == url_view(*b)),
{
    match (a, b) {
        (Some(x), Some(y)) => *x == *y,
        (None, None) => true,
        _ => false,
    }
}

impl Capture {
    /// The state before anything was read: no style, no link, nothing
    /// printed.
    pub fn new() -> (c: Capture)
        ensures
            c@ == (CaptureView { style: Style::spec_new(), url: None, printable: Seq::empty() }),
    {
        Capture { style: Style::new(), url: None, printable: String::new() }
    }

    /// A character was printed.
    pub fn print(&mut self, c: char)
        ensures
            final(self)@ == (CaptureView { printable: old(self)@.printable.push(c), ..old(self)@ }),
    {
        push_char(&mut self.printable, c);
    }

    /// A control byte was read. White space is printed, every other byte
    /// is passed over.
    pub fn execute(&mut self, byte: u8)
        ensures
            final(self)@ == match control_char(byte) {
                Some(c) => CaptureView { printable: old(self)@.printable.push(c), ..old(self)@ },
                None => old(self)@,
            },
    {
        if byte == 9 {
            push_char(&mut self.printable, '\t');
        } else if byte == 10 {
            push_char(&mut self.printable, '\n');
        } else if byte == 12 {
            push_char(&mut self.printable, '\x0C');
        } else if byte == 13 {
            push_char(&mut self.printable, '\r');
        } else if byte == 32 {
            push_char(&mut self.printable, ' ');
        }
    }

    /// Hands out the run of the characters that were printed, where
    /// there are any, and starts the next run.
    pub fn take_run(&mut self) -> (run: Option<Element>)
        ensures
            run_view(run) == old(self)@.pending(),
            final(self)@ == old(self)@.emptied(),
    {
        if self.printable.as_str().is_empty() {
            assert(self.printable@ =~= Seq::empty());
            return None;
        }
        let mut text = String::new();
        core::mem::swap(&mut text, &mut self.printable);
        let url = match &self.url {
            Some(u) => Some(u.clone()),
            None => None,
        };
        Some(Element { style: self.style, text, url })
    }

    /// The style changes. Where it is another than before, the
    /// characters that were printed are handed out as a run in the style
    /// that they were printed in.
    pub fn restyle(&mut self, style: Style) -> (run: Option<Element>)
        ensures
            style == old(self)@.style ==> run.is_none() && final(self)@ == old(self)@,
            style != old(self)@.style ==> run_view(run) == old(self)@.pending() && final(self)@ == (
                CaptureView { style: style, ..old(self)@.emptied() }
            ),
    {
        if style == self.style {
            return None;
        }
        let run = self.take_run();
        self.style = style;
        run
    }

    /// The link changes. Where it is another than before, the characters
    /// that were printed are handed out as a run with the link that they
    /// were printed under.
    pub fn relink(&mut self, url: Option<String>) -> (run: Option<Element>)
        ensures
            url_view(url) == old(self)@.url ==> run.is_none() && final(self)@ == old(self)@,
            url_view(url) != old(self)@.url ==> run_view(run) == old(self)@.pending() && final(self)@ == (CaptureView { url: url_view(url), ..old(self)@.emptied() }),
    {
        if same_url(&url, &self.url) {
            return None;
        }
        let run = self.take_run();
        self.url = url;
        run
    }

    /// A "select graphic rendition" sequence was read, with these
    /// numbers, of which those marked in `grouped` stood after a colon.
    pub fn select_graphic_rendition(&mut self, values: &[u16], grouped: &[bool]) -> (run: Option<
        Element,
    >)
        ensures
            ({
                let style = rendition(old(self)@.style, values@, grouped@);
                &&& style == old(self)@.style ==> run.is_none() && final(self)@ == old(self)@
                &&& style != old(self)@.style ==> run_view(run) == old(self)@.pending() && final(self)@ == (CaptureView { style: style, ..old(self)@.emptied() })
            }),
    {
        let style = graphic_rendition(self.style, values, grouped);
        self.restyle(style)
    }

    /// A control sequence was read, with its last byte, whether the
    /// parser gave up on it, and its numbers. Only a sequence that ends in
    /// `m` and that the parser read in full selects a rendition: every
    /// other is passed over.
    pub fn control_sequence(
        &mut self,
        action: u8,
        ignored: bool,
        values: &[u16],
        grouped: &[bool],
    ) -> (run: Option<Element>)
        ensures
            ({
                let style = if action == 109 && !ignored {
                    rendition(old(self)@.style, values@, grouped@)
                } else {
                    old(self)@.style
                };
                &&& style == old(self)@.style ==> run.is_none() && final(self)@ == old(self)@
                &&& style != old(self)@.style ==> run_view(run) == old(self)@.pending()
                    && final(self)@ == (CaptureView { style: style, ..old(self)@.emptied() })
            }),
    {
        if action == 109 && !ignored {
            self.select_graphic_rendition(values, grouped)
        } else {
            None
        }
    }

    /// An operating system command was read, with its parameters. Only
    /// command 8, the hyperlink, changes anything: its address stands from
    /// the third parameter on, and an empty address ends the link.
    pub fn command(&mut self, params: &[Vec<u8>]) -> (run: Option<Element>)
        ensures
            ({
                let url = command_url(byte_views(params@), old(self)@.url);
                &&& url == old(self)@.url ==> run.is_none() && final(self)@ == old(self)@
                &&& url != old(self)@.url ==> run_view(run) == old(self)@.pending()
                    && final(self)@ == (CaptureView { url: url, ..old(self)@.emptied() })
            }),
    {
        if !command_is_hyperlink(params) {
            return None;
        }
        let address = hyperlink_address(params);
        let url = if address.len() == 0 {
            None
        } else {
            Some(decode_lossy(address.as_slice()))
        };
        self.relink(url)
    }

    /// A hyperlink sequence was read. An empty address ends the link.
    pub fn hyperlink(&mut self, address: &str) -> (run: Option<Element>)
        ensures
            ({
                let url = if address@.len() == 0 {
                    None
                } else {
                    Some(address@)
                };
                &&& url == old(self)@.url ==> run.is_none() && final(self)@ == old(self)@
                &&& url != old(self)@.url ==> run_view(run) == old(self)@.pending() && final(self)@ == (CaptureView { url: url, ..old(self)@.emptied() })
            }),
    {
        let url = if address.is_empty() {
            None
        } else {
            Some(address.to_owned())
        };
        self.relink(url)
    }
}

} // verus!
