//! Rendering a document's body to HTML, and cutting a description out of
//! what was rendered.

use crate::text::{chars_of, string_of_range};
use pulldown_cmark::{html, Parser};
use vstd::prelude::*;

verus! {

/// The HTML that `pulldown_cmark::html::push_html` writes for the events
/// of `pulldown_cmark::Parser::new` on `body`.
pub uninterp spec fn markdown_html(body: Seq<char>) -> Seq<char>;

/// Runs `pulldown_cmark::Parser::new` on `body` and lets
/// `pulldown_cmark::html::push_html` write into an empty string. Claimed:
/// the HTML is a function of the body alone.
#[verifier::external_body]
fn push_html_of(body: &str) -> (out: String)
    ensures
        out@ == markdown_html(body@),
{
    let mut out = String::new();
    html::push_html(&mut out, Parser::new(body));
    out
}

/// Renders a body to HTML. Every text renders: markup that is not
/// understood comes out as literal text.
pub fn render_body(body: &str) -> (out: String)
    ensures
        out@ == markdown_html(body@),
{
    push_html_of(body)
}

/// The number of characters of rendered HTML that stand in for a
/// description that the header leaves empty.
pub const EXCERPT_CHARS: usize = 200;

/// The first `count` characters of `text`, all of it where it is shorter.
pub open spec fn leading(text: Seq<char>, count: int) -> Seq<char> {
    if count <= 0 {
        Seq::empty()
    } else if text.len() <= count {
        text
    } else {
        text.take(count)
    }
}

/// Cuts the first `count` characters out of `text`.
pub fn leading_chars(text: &str, count: usize) -> (out: String)
    ensures
        out@ == leading(text@, count as int),
{
    let chars = chars_of(text);
    let end: usize = if chars.len() <= count {
        chars.len()
    } else {
        count
    };
    let out = string_of_range(&chars, 0, end);
    assert(chars@.subrange(0, chars.len() as int) == chars@);
    assert(chars@.subrange(0, 0) == Seq::<char>::empty());
    out
}

/// The description of an entity: the header's own, or the start of the
/// rendered body where the header's is empty.
pub open spec fn description_or_excerpt(description: Seq<char>, html: Seq<char>) -> Seq<
    char,
> {
    if description.len() == 0 {
        leading(html, EXCERPT_CHARS as int)
    } else {
        description
    }
}

/// Fills in an empty description from the rendered body.
pub fn backfill_description(description: String, html: &str) -> (out: String)
    ensures
        out@ == description_or_excerpt(description@, html@),
{
    if description.as_str().is_empty() {
        leading_chars(html, EXCERPT_CHARS)
    } else {
        description
    }
}

} // verus!
