//! Text as sequences of characters: the order of class names, HTML
//! escaping, display width, line terminators, and the digits of numbers.

use vstd::prelude::*;
use vstd::string::*;

verus! {

/// Whether `a` comes before `b` in the order of strings: character by
/// character, by code point, a proper prefix first.
pub open spec fn lex_less(a: Seq<char>, b: Seq<char>) -> bool
    decreases a.len(),
{
    if b.len() == 0 {
        false
    } else if a.len() == 0 {
        true
    } else if a[0] != b[0] {
        (a[0] as int) < (b[0] as int)
    } else {
        lex_less(a.skip(1), b.skip(1))
    }
}

/// No string comes before itself.
pub proof fn lemma_lex_less_irreflexive(a: Seq<char>)
    ensures
        !lex_less(a, a),
    decreases a.len(),
{
    if a.len() > 0 {
        lemma_lex_less_irreflexive(a.skip(1));
    }
}

/// Of two different strings one comes before the other.
pub proof fn lemma_lex_less_total(a: Seq<char>, b: Seq<char>)
    ensures
        a == b || lex_less(a, b) || lex_less(b, a),
    decreases a.len(),
{
    if a.len() == 0 || b.len() == 0 {
        if a.len() == 0 && b.len() == 0 {
            assert(a =~= b);
        }
    } else if a[0] == b[0] {
        lemma_lex_less_total(a.skip(1), b.skip(1));
        if a.skip(1) == b.skip(1) {
            assert(a =~= seq![a[0]] + a.skip(1));
            assert(b =~= seq![b[0]] + b.skip(1));
        }
    }
}

/// The order of strings is transitive.
pub proof fn lemma_lex_less_transitive(a: Seq<char>, b: Seq<char>, c: Seq<char>)
    requires
        lex_less(a, b),
        lex_less(b, c),
    ensures
        lex_less(a, c),
    decreases a.len(),
{
    if a.len() > 0 && a[0] == b[0] && b[0] == c[0] {
        lemma_lex_less_transitive(a.skip(1), b.skip(1), c.skip(1));
    }
}

/// The comparison `a < b` of `str`: the order of the strings' bytes, which
/// for UTF-8 is the order of their code points.
#[verifier::external_body]
pub(crate) fn str_less(a: &str, b: &str) -> (less: bool)
    ensures
        less == lex_less(a@, b@),
{
    a < b
}

/// What one character becomes in HTML text: `&`, `<` and `>` are replaced
/// by their entities, every other character stands for itself.
pub open spec fn escaped_char(c: char) -> Seq<char> {
    if c == '&' {
        seq!['&', 'a', 'm', 'p', ';']
    } else if c == '<' {
        seq!['&', 'l', 't', ';']
    } else if c == '>' {
        seq!['&', 'g', 't', ';']
    } else {
        seq![c]
    }
}

/// A text with each of its characters escaped for HTML.
pub open spec fn escaped(text: Seq<char>) -> Seq<char>
    decreases text.len(),
{
    if text.len() == 0 {
        Seq::empty()
    } else {
        escaped(text.drop_last()) + escaped_char(text.last())
    }
}

/// `html_escape::encode_text`: the text with every `&`, `<` and `>`
/// replaced by `&amp;`, `&lt;` and `&gt;`, and nothing else changed.
#[verifier::external_body]
pub(crate) fn escape_text(text: &str) -> (out: String)
    ensures
        out@ == escaped(text@),
{
    html_escape::encode_text(text).into_owned()
}

/// The number of terminal columns that a text takes.
pub uninterp spec fn text_width(text: Seq<char>) -> nat;

/// `unicode_width::UnicodeWidthStr::width` on a `str`: the displayed width
/// of the text in columns, which depends on the text alone.
#[verifier::external_body]
pub(crate) fn display_width(text: &str) -> (width: usize)
    ensures
        width == text_width(text@),
{
    unicode_width::UnicodeWidthStr::width(text)
}

/// `str::split_once` at a line feed: the parts before and after the first
/// line feed, or nothing where the text holds none.
#[verifier::external_body]
pub(crate) fn split_once_newline(text: &str) -> (parts: Option<(&str, &str)>)
    ensures
        match parts {
            Some((head, tail)) => text@ == head@ + seq!['\n'] + tail@ && !head@.contains('\n'),
            None => !text@.contains('\n'),
        },
{
    text.split_once('\n')
}

/// `str::strip_suffix` of a carriage return: the text without its last
/// character where that is a carriage return, or nothing.
#[verifier::external_body]
pub(crate) fn strip_carriage_return(text: &str) -> (rest: Option<&str>)
    ensures
        match rest {
            Some(head) => text@ == head@.push('\r'),
            None => text@.len() == 0 || text@.last() != '\r',
        },
{
    text.strip_suffix('\r')
}

/// The text without one carriage return at its end, if it has one there.
pub open spec fn without_carriage_return(text: Seq<char>) -> Seq<char> {
    if text.len() > 0 && text.last() == '\r' {
        text.drop_last()
    } else {
        text
    }
}

/// Removes one carriage return from the end of the text, if it has one
/// there.
pub fn trim_carriage_return(text: &str) -> (out: &str)
    ensures
        out@ == without_carriage_return(text@),
{
    match strip_carriage_return(text) {
        Some(head) => {
            assert(head@.push('\r').drop_last() =~= head@);
            head
        },
        None => text,
    }
}

/// `String::push`: the string with the character added at its end.
#[verifier::external_body]
pub(crate) fn push_char(buffer: &mut String, c: char)
    ensures
        final(buffer)@ == old(buffer)@.push(c),
{
    buffer.push(c)
}

/// The text that bytes stand for, with the replacement character in the
/// place of what is no UTF-8.
pub uninterp spec fn lossy_text(bytes: Seq<u8>) -> Seq<char>;

/// `String::from_utf8_lossy`: the text that the bytes stand for, which
/// depends on the bytes alone, and which is their UTF-8 decoding where
/// they are valid UTF-8.
#[verifier::external_body]
pub(crate) fn decode_lossy(bytes: &[u8]) -> (text: String)
    ensures
        text@ == lossy_text(bytes@),
        vstd::utf8::valid_utf8(bytes@) ==> text@ == vstd::utf8::decode_utf8(bytes@),
{
    String::from_utf8_lossy(bytes).into_owned()
}

/// `unit` written `n` times.
pub open spec fn repeated(unit: Seq<char>, n: nat) -> Seq<char>
    decreases n,
{
    if n == 0 {
        Seq::empty()
    } else {
        repeated(unit, (n - 1) as nat) + unit
    }
}

/// Appends `unit` to `buffer` `n` times.
pub fn push_repeated(buffer: &mut String, unit: &str, n: usize)
    ensures
        final(buffer)@ == old(buffer)@ + repeated(unit@, n as nat),
{
    let mut i: usize = 0;
    while i < n
        invariant
            i <= n,
            buffer@ == old(buffer)@ + repeated(unit@, i as nat),
        decreases n - i,
    {
        buffer.append(unit);
        i = i + 1;
        assert(buffer@ =~= old(buffer)@ + repeated(unit@, i as nat));
    }
}

/// The character of a digit below sixteen, in upper case.
pub open spec fn hex_digit(d: u8) -> char {
    if d == 0 {
        '0'
    } else if d == 1 {
        '1'
    } else if d == 2 {
        '2'
    } else if d == 3 {
        '3'
    } else if d == 4 {
        '4'
    } else if d == 5 {
        '5'
    } else if d == 6 {
        '6'
    } else if d == 7 {
        '7'
    } else if d == 8 {
        '8'
    } else if d == 9 {
        '9'
    } else if d == 10 {
        'A'
    } else if d == 11 {
        'B'
    } else if d == 12 {
        'C'
    } else if d == 13 {
        'D'
    } else if d == 14 {
        'E'
    } else {
        'F'
    }
}

/// A byte as two hexadecimal digits, in upper case.
pub open spec fn hex2(v: u8) -> Seq<char> {
    seq![hex_digit(v / 16), hex_digit(v % 16)]
}

/// A byte as three decimal digits, with leading zeros.
pub open spec fn dec3(v: u8) -> Seq<char> {
    seq![hex_digit(v / 100), hex_digit((v / 10) % 10), hex_digit(v % 10)]
}

/// The text of one digit below sixteen.
fn digit_str(d: u8) -> (s: &'static str)
    requires
        d < 16,
    ensures
        s@ == seq![hex_digit(d)],
{
    proof {
        reveal_strlit("0");
        reveal_strlit("1");
        reveal_strlit("2");
        reveal_strlit("3");
        reveal_strlit("4");
        reveal_strlit("5");
        reveal_strlit("6");
        reveal_strlit("7");
        reveal_strlit("8");
        reveal_strlit("9");
        reveal_strlit("A");
        reveal_strlit("B");
        reveal_strlit("C");
        reveal_strlit("D");
        reveal_strlit("E");
        reveal_strlit("F");
    }
    let s = if d == 0 {
        "0"
    } else if d == 1 {
        "1"
    } else if d == 2 {
        "2"
    } else if d == 3 {
        "3"
    } else if d == 4 {
        "4"
    } else if d == 5 {
        "5"
    } else if d == 6 {
        "6"
    } else if d == 7 {
        "7"
    } else if d == 8 {
        "8"
    } else if d == 9 {
        "9"
    } else if d == 10 {
        "A"
    } else if d == 11 {
        "B"
    } else if d == 12 {
        "C"
    } else if d == 13 {
        "D"
    } else if d == 14 {
        "E"
    } else {
        "F"
    };
    assert(s@ =~= seq![hex_digit(d)]);
    s
}

/// Appends a byte as two hexadecimal digits, in upper case.
pub fn push_hex2(buffer: &mut String, v: u8)
    ensures
        final(buffer)@ == old(buffer)@ + hex2(v),
{
    buffer.append(digit_str(v / 16));
    buffer.append(digit_str(v % 16));
    assert(buffer@ =~= old(buffer)@ + hex2(v));
}

/// Appends a byte as three decimal digits, with leading zeros.
pub fn push_dec3(buffer: &mut String, v: u8)
    ensures
        final(buffer)@ == old(buffer)@ + dec3(v),
{
    buffer.append(digit_str(v / 100));
    buffer.append(digit_str((v / 10) % 10));
    buffer.append(digit_str(v % 10));
    assert(buffer@ =~= old(buffer)@ + dec3(v));
}

} // verus!
