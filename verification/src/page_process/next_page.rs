//! Link extractors: which pages follow a visited page.
use vstd::prelude::*;

verus! {

/// Why an extractor gave no links for a page.
#[derive(Debug)]
pub enum ExtractError {
    /// The base URL of the page is no absolute URL.
    BadBase,
    /// Any other reason, in words.
    Other(String),
}

/// A link extractor. The worker hands it each page with the page's base URL
/// and follows the URLs that it returns.
pub trait NextPage: Send + Sync + 'static {
    /// The absolute URLs to follow from a page.
    fn next_page(&self, base_url: &str, html: &scraper::Html) -> Result<Vec<String>, ExtractError>;
}

} // verus!
