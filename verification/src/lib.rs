//! A minifier for HTML-derived template documents.
//!
//! The core is a single-pass scanner over the document text that collapses
//! runs of whitespace, strips HTML comments, reproduces `{{ ... }}` and
//! `{% ... %}` template directives verbatim, keeps the content of `pre` and
//! `textarea` elements untouched, and hands the bodies of `script` and
//! `style` elements to dedicated JS and CSS sub-minifiers.

pub mod chars;
pub mod css;
pub mod js;
pub mod markup;
pub mod paths;
pub mod props;
pub mod strutil;
