//! Page processors: what a visited page is turned into.
use crate::router::RouteParams;
use std::collections::HashMap;
use vstd::prelude::*;

verus! {

/// The texts taken from a page, in their order.
pub struct Contents(pub Vec<String>);

/// What is known about a page: texts under keys.
pub struct Metainfo(pub HashMap<String, Vec<String>>);

/// Why a processor gave nothing for a page.
#[derive(Debug)]
pub struct ProcessError {
    pub message: String,
}

/// A page processor. A route leads to one; the worker hands it each page of
/// that route, with the parameters that the route binds.
pub trait PageProcess: Send + Sync {
    /// The contents of a page.
    fn contents(&self, html: &scraper::Html, params: &RouteParams) -> Result<Contents, ProcessError>;

    /// The metainfo of a page.
    fn metainfo(&self, html: &scraper::Html, params: &RouteParams) -> Result<Metainfo, ProcessError>;
}

/// A boxed processor is a processor, so a router may hold `Box<dyn PageProcess>`.
/// What it gives for a page is what the processor in the box gives for it.
impl<T: PageProcess + ?Sized> PageProcess for Box<T> {
    fn contents(&self, html: &scraper::Html, params: &RouteParams) -> (r: Result<
        Contents,
        ProcessError,
    >)
        ensures
            call_ensures(T::contents, (&**self, html, params), r),
    {
        (**self).contents(html, params)
    }

    fn metainfo(&self, html: &scraper::Html, params: &RouteParams) -> (r: Result<
        Metainfo,
        ProcessError,
    >)
        ensures
            call_ensures(T::metainfo, (&**self, html, params), r),
    {
        (**self).metainfo(html, params)
    }
}

} // verus!
