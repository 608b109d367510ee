//! Text conversions made by outside crates: HTML to Markdown, and a URL's
//! `https` form.
use vstd::prelude::*;

verus! {

/// The Markdown that html2md makes of an HTML text.
pub uninterp spec fn markdown_of(html: Seq<char>) -> Seq<char>;

/// The URL text that results from parsing a URL and giving it the `https`
/// scheme, or `None` when the text does not parse or cannot take that scheme.
pub uninterp spec fn https_url_of(url: Seq<char>) -> Option<Seq<char>>;

/// Relies on html2md::parse_html, which turns HTML into Markdown; the result
/// depends on the input text alone.
#[verifier::external_body]
pub(crate) fn html_to_markdown(html: &str) -> (r: String)
    ensures
        r@ == markdown_of(html@),
{
    html2md::parse_html(html)
}

/// Relies on url::Url::parse, then url::Url::set_scheme with "https", then the
/// URL's serialisation: `None` when parsing or the scheme change fails.
#[verifier::external_body]
pub(crate) fn secure_url(url: &str) -> (r: Option<String>)
    ensures
        match r {
            Some(s) => https_url_of(url@) == Some(s@),
            None => https_url_of(url@) is None,
        },
{
    let mut parsed = url::Url::parse(url).ok()?;
    parsed.set_scheme("https").ok()?;
    Some(parsed.into())
}

} // verus!
