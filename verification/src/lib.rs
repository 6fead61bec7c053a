//! Render styled terminal text as a static HTML document.
//!
//! The text comes as a sequence of [`Element`]s: runs of text that each
//! carry one [`Style`] and an optional hyperlink. [`Capture`] gathers them
//! from what a parser of escape sequences reports. [`Term::render_html`]
//! resolves reverse video, splits the runs into display lines, gathers
//! the CSS classes that the colors need, and writes the document.

pub mod capture;
pub mod classes;
pub mod document;
pub mod element;
pub mod laws;
pub mod lines;
pub mod palette;
pub mod sgr;
pub mod spans;
pub mod style;
pub mod term;
pub mod text;

pub use capture::Capture;
pub use element::Element;
pub use lines::split_lines;
pub use palette::Palette;
pub use style::AnsiColor;
pub use style::Color;
pub use style::Effect;
pub use style::Effects;
pub use style::Rgb;
pub use style::Style;
pub use term::Term;
