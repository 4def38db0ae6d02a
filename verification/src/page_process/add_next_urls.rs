//! The link extractor that follows every link that has a route.
use crate::document::{attribute_values, attribute_values_of};
use crate::page_process::next_page::{ExtractError, NextPage};
use crate::router::PageRouter;
use crate::text::texts;
use crate::url_parts::{is_web_scheme, parse_url, parsed_url, resolved, UrlParts};
use std::sync::Arc;
use vstd::prelude::*;

verus! {

broadcast use vstd::string::group_string_axioms;

/// The candidate links of a page: the `href` of its anchors, then the `src`
/// of its images.
pub open spec fn candidates(html: scraper::Html) -> Seq<Seq<char>> {
    attribute_values_of(html, "a"@, "href"@) + attribute_values_of(html, "img"@, "src"@)
}

/// The absolute URL that a candidate is followed under, if it is followed: the
/// candidate resolves against the base, its scheme is `http` or `https`, and
/// the router has a route for it.
pub open spec fn followed_one<P>(router: PageRouter<P>, base: Seq<char>, link: Seq<char>) -> Option<
    Seq<char>,
> {
    match resolved(base, link) {
        Some(u) => if is_web_scheme(u.scheme) && router.lookup(u.text) is Ok {
            Some(u.text)
        } else {
            None
        },
        None => None,
    }
}

/// The URLs that are followed of a list of candidates: those that pass, in
/// their order and as often as they occur.
pub open spec fn followed<P>(router: PageRouter<P>, base: Seq<char>, links: Seq<Seq<char>>) -> Seq<
    Seq<char>,
>
    decreases links.len(),
{
    if links.len() == 0 {
        Seq::empty()
    } else {
        match followed_one(router, base, links.last()) {
            Some(url) => followed(router, base, links.drop_last()).push(url),
            None => followed(router, base, links.drop_last()),
        }
    }
}

/// Follows the links of a page that lead to a route of the router.
pub struct AddNextUrls<P> {
    router: Arc<PageRouter<P>>,
}

impl<P> AddNextUrls<P> {
    /// The router that decides which links are followed.
    pub closed spec fn router(&self) -> PageRouter<P> {
        *self.router
    }

    /// An extractor that follows what `router` has routes for.
    pub fn new(router: Arc<PageRouter<P>>) -> (extractor: Self)
        ensures
            extractor.router() == *router,
    {
        Self { router }
    }

    /// The URLs that are followed of a list of candidate links, for a page
    /// whose base URL is `base_url`.
    pub fn filter_links(&self, base_url: &str, links: &Vec<String>) -> (urls: Vec<String>)
        ensures
            texts(urls@) == followed(self.router(), base_url@, texts(links@)),
    {
        let mut urls: Vec<String> = Vec::new();
        let ghost all = texts(links@);
        let mut i: usize = 0;
        assert(all.take(0) =~= Seq::<Seq<char>>::empty());
        assert(texts(urls@) =~= Seq::<Seq<char>>::empty());
        while i < links.len()
            invariant
                i <= links.len(),
                all == texts(links@),
                texts(urls@) == followed(self.router(), base_url@, all.take(i as int)),
            decreases links.len() - i,
        {
            let ghost before = texts(urls@);
            assert(all.take(i as int + 1).drop_last() =~= all.take(i as int));
            assert(all.take(i as int + 1).last() == links@[i as int]@);
            match UrlParts::resolve(base_url, links[i].as_str()) {
                Some(u) => {
                    if u.has_web_scheme() && self.router.matches(u.text.as_str()) {
                        let ghost url = u.text@;
                        urls.push(u.text);
                        assert(texts(urls@) =~= before.push(url));
                    }
                },
                None => {},
            }
            i += 1;
        }
        assert(all.take(links.len() as int) =~= all);
        urls
    }

    /// The URLs to follow from a page: its candidate links, resolved against
    /// the base URL and kept where the router has a route for them. Fails
    /// where the base is no absolute URL, and only there.
    pub fn links_of(&self, base_url: &str, html: &scraper::Html) -> (r: Result<
        Vec<String>,
        ExtractError,
    >)
        ensures
            match r {
                Ok(urls) => parsed_url(base_url@) is Ok && texts(urls@) == followed(
                    self.router(),
                    base_url@,
                    candidates(*html),
                ),
                Err(e) => parsed_url(base_url@) is Err && e is BadBase,
            },
    {
        if parse_url(base_url).is_err() {
            return Err(ExtractError::BadBase);
        }
        let mut links = attribute_values(html, "a", "href");
        let mut images = attribute_values(html, "img", "src");
        let ghost anchors = texts(links@);
        let ghost sources = texts(images@);
        links.append(&mut images);
        assert(texts(links@) =~= anchors + sources);
        Ok(self.filter_links(base_url, &links))
    }
}

impl<P: Send + Sync + 'static> NextPage for AddNextUrls<P> {
    fn next_page(&self, base_url: &str, html: &scraper::Html) -> (r: Result<
        Vec<String>,
        ExtractError,
    >)
        ensures
            match r {
                Ok(urls) => parsed_url(base_url@) is Ok && texts(urls@) == followed(
                    self.router(),
                    base_url@,
                    candidates(*html),
                ),
                Err(e) => parsed_url(base_url@) is Err && e is BadBase,
            },
    {
        self.links_of(base_url, html)
    }
}

/// Every URL that is followed has a route.
pub proof fn followed_urls_have_routes<P>(
    router: PageRouter<P>,
    base: Seq<char>,
    links: Seq<Seq<char>>,
    i: int,
)
    requires
        0 <= i < followed(router, base, links).len(),
    ensures
        router.lookup(followed(router, base, links)[i]) is Ok,
    decreases links.len(),
{
    if links.len() > 0 {
        let init = followed(router, base, links.drop_last());
        if i < init.len() {
            followed_urls_have_routes(router, base, links.drop_last(), i);
        }
    }
}

/// Nothing is followed that was not a candidate: there are at most as many
/// URLs as links.
pub proof fn followed_is_no_longer<P>(router: PageRouter<P>, base: Seq<char>, links: Seq<Seq<char>>)
    ensures
        followed(router, base, links).len() <= links.len(),
    decreases links.len(),
{
    if links.len() > 0 {
        followed_is_no_longer(router, base, links.drop_last());
    }
}

/// Following goes link by link: the URLs of two lists, one after the other,
/// are the URLs of the first and then those of the second.
pub proof fn followed_of_two_lists<P>(
    router: PageRouter<P>,
    base: Seq<char>,
    first: Seq<Seq<char>>,
    second: Seq<Seq<char>>,
)
    ensures
        followed(router, base, first + second) == followed(router, base, first) + followed(
            router,
            base,
            second,
        ),
    decreases second.len(),
{
    if second.len() == 0 {
        assert(first + second =~= first);
        assert(followed(router, base, first) + followed(router, base, second) =~= followed(
            router,
            base,
            first,
        ));
    } else {
        let whole = first + second;
        assert(whole.drop_last() =~= first + second.drop_last());
        assert(whole.last() == second.last());
        followed_of_two_lists(router, base, first, second.drop_last());
        let head = followed(router, base, first);
        let tail = followed(router, base, second.drop_last());
        match followed_one(router, base, second.last()) {
            Some(url) => {
                assert((head + tail).push(url) =~= head + tail.push(url));
            },
            None => {},
        }
    }
}

} // verus!
