//! The CSS sub-minifier.
//!
//! A `style` body is handed to lightningcss, which parses it into a
//! stylesheet, minifies it, and re-serializes it compactly. When any of that
//! fails the original fragment is returned unchanged: correctness takes
//! priority over compaction, and no failure surfaces to the caller.

use vstd::prelude::*;
use vstd::string::*;
use lightningcss::stylesheet::{MinifyOptions, ParserOptions, StyleSheet};
use lightningcss::printer::PrinterOptions;

verus! {

/// What the lightningcss pipeline produces for a fragment: `Some` of the
/// compact serialization when the fragment parses and re-serializes, `None`
/// when it does not. The outcome depends on the fragment text alone.
pub uninterp spec fn css_min_of(s: Seq<char>) -> Option<Seq<char>>;

/// Relies on lightningcss's `StyleSheet::parse`, `StyleSheet::minify` and
/// `StyleSheet::to_css` (with `minify: true`): one deterministic pipeline
/// from the fragment text to its compact serialization, returning `None`
/// exactly when parsing or printing fails. An empty fragment parses as an
/// empty stylesheet, which prints as the empty string.
#[verifier::external_body]
fn css_compact(css_code: &str) -> (r: Option<String>)
    ensures
        r is Some <==> css_min_of(css_code@) is Some,
        r is Some ==> r->0@ == css_min_of(css_code@)->0,
        css_code@.len() == 0 && r is Some ==> r->0@.len() == 0,
{
    match StyleSheet::parse(css_code, ParserOptions::default()) {
        Ok(mut sheet) => {
            sheet.minify(MinifyOptions::default()).ok();
            match sheet.to_css(PrinterOptions { minify: true, ..PrinterOptions::default() }) {
                Ok(output) => Some(output.code),
                Err(_) => None,
            }
        },
        Err(_) => None,
    }
}

/// The proviso under which minification can only shrink a document: the CSS
/// pipeline never returns something longer than the fragment it was given.
/// Nothing ties the name `css_min_of` to a length, so size statements about
/// whole documents are proved under this premise.
pub open spec fn css_never_grows() -> bool {
    forall|b: Seq<char>|
        (#[trigger] css_min_of(b)) is Some ==> (css_min_of(b)->0).len() <= b.len()
}

/// The minified form of a CSS fragment: the compact serialization when the
/// fragment parses, the fragment itself when it does not.
pub open spec fn spec_minify_css(s: Seq<char>) -> Seq<char> {
    if css_min_of(s) is Some {
        css_min_of(s)->0
    } else {
        s
    }
}

/// Minifies a CSS fragment. A fragment that lightningcss cannot parse or
/// print comes back exactly as it went in, and an empty fragment stays
/// empty.
pub fn minify_css(css_code: &str) -> (r: String)
    ensures
        r@ == spec_minify_css(css_code@),
        css_min_of(css_code@) is None ==> r@ == css_code@,
        css_code@.len() == 0 ==> r@.len() == 0,
{
    match css_compact(css_code) {
        Some(m) => m,
        None => css_code.to_owned(),
    }
}

} // verus!
