//! The lightweight-markup transform used for tag text, done by an
//! outside Markdown renderer.

use vstd::prelude::*;

verus! {

/// The HTML that the Markdown renderer produces for the given text.
pub uninterp spec fn html_of_markdown(s: Seq<char>) -> Seq<char>;

/// Relies on markdown::to_html: with its default options it does not
/// fail, and the HTML it hands back depends on the input text alone.
#[verifier::external_body]
pub(crate) fn markdown_to_html(s: &str) -> (r: String)
    ensures
        r@ == html_of_markdown(s@),
{
    markdown::to_html(s)
}

} // verus!
