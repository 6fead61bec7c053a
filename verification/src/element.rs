//! Runs of text with one style.

use crate::style::Style;
use vstd::prelude::*;

verus! {

/// A run of text with one style and, where the text is a link, the address
/// it leads to.
#[derive(Clone, Debug, PartialEq, Eq)]
pub struct Element {
    pub style: Style,
    pub text: String,
    pub url: Option<String>,
}

/// What an [`Element`] holds, with its strings as sequences of characters.
pub struct ElementView {
    pub style: Style,
    pub text: Seq<char>,
    pub url: Option<Seq<char>>,
}

impl View for Element {
    type V = ElementView;

    open spec fn view(&self) -> ElementView {
        ElementView {
            style: self.style,
            text: self.text@,
            url: match self.url {
                Some(u) => Some(u@),
                None => None,
            },
        }
    }
}

impl DeepView for Element {
    type V = ElementView;

    open spec fn deep_view(&self) -> ElementView {
        self@
    }
}

impl ElementView {
    /// The same run with another text.
    pub open spec fn with_text(self, text: Seq<char>) -> ElementView {
        ElementView { text: text, ..self }
    }
}

impl Element {
    /// A run of text without a link.
    pub fn new(style: Style, text: &str) -> (e: Element)
        ensures
            e@ == (ElementView { style: style, text: text@, url: None }),
    {
        Element { style, text: text.to_owned(), url: None }
    }

    /// A run of text that links to `url`.
    pub fn link(style: Style, text: &str, url: &str) -> (e: Element)
        ensures
            e@ == (ElementView { style: style, text: text@, url: Some(url@) }),
    {
        Element { style, text: text.to_owned(), url: Some(url.to_owned()) }
    }

    /// The same run with another text: style and link are kept.
    pub fn with_text(&self, text: &str) -> (e: Element)
        ensures
            e@ == self@.with_text(text@),
    {
        let url = match &self.url {
            Some(u) => Some(u.clone()),
            None => None,
        };
        Element { style: self.style, text: text.to_owned(), url }
    }

    /// The same run with another style: text and link are kept.
    pub fn with_style(&self, style: Style) -> (e: Element)
        ensures
            e@ == (ElementView { style: style, ..self@ }),
    {
        let url = match &self.url {
            Some(u) => Some(u.clone()),
            None => None,
        };
        Element { style, text: self.text.clone(), url }
    }
}

} // verus!
