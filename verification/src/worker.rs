//! The crawl of one worker, as a state machine.
//!
//! A worker starts from one seed URL. Fetching is not done here: whoever
//! drives the crawl asks for the next URL, fetches it, and hands the page
//! back, or says that the fetch failed. Everything that is decided on the way
//! is decided here: which URL comes next, which links are followed, which
//! processor gets the page, and when the crawl is over.
use crate::document::{parse_document, parsed_document};
use crate::frontier::{Frontier, FrontierView};
use crate::page_process::next_page::{ExtractError, NextPage};
use crate::page_process::page_process::{Contents, Metainfo, PageProcess, ProcessError};
use crate::router::{PageRouter, RouteParams};
use crate::text::texts;
use crate::url_parts::{parse_url, parsed_url};
use vstd::prelude::*;

verus! {

broadcast use vstd::string::group_string_axioms;

/// Where a crawl stands. `Done` and `Failed` are final.
#[derive(Debug, Clone, Copy, PartialEq, Eq, Structural)]
pub enum WorkerState {
    /// Nothing was asked for yet.
    Idle,
    /// URLs are being fetched.
    Running,
    /// The frontier ran empty.
    Done,
    /// A fatal error ended the crawl.
    Failed,
}

/// The fatal errors of a crawl.
#[derive(Debug)]
pub enum WorkerError {
    /// The page could not be fetched.
    Fetch,
    /// The fetched URL has no route.
    RouteNotFound,
    /// The link extractor failed on the page.
    Extract(ExtractError),
    /// The processor failed on the page.
    Process(ProcessError),
}

/// What a visited page was turned into.
pub struct CrawlRecord {
    pub url: String,
    pub contents: Contents,
    pub metainfo: Metainfo,
}

/// A worker: a number and the seed URL that its crawl starts from.
pub struct Worker {
    pub id: usize,
    init_url: String,
}

/// What a worker holds.
pub struct WorkerView {
    pub id: usize,
    pub init_url: Seq<char>,
}

impl View for Worker {
    type V = WorkerView;

    closed spec fn view(&self) -> WorkerView {
        WorkerView { id: self.id, init_url: self.init_url@ }
    }
}

/// What a crawl holds.
pub struct CrawlView {
    pub state: WorkerState,
    pub seed: Seq<char>,
    pub frontier: FrontierView,
}

impl CrawlView {
    /// The frontier is well formed, only a running crawl has pending URLs,
    /// and an idle one has visited nothing.
    pub open spec fn wf(self) -> bool {
        &&& self.frontier.wf()
        &&& !(self.state is Running) ==> self.frontier.pending.len() == 0
        &&& self.state is Idle ==> self.frontier.visited == Set::<Seq<char>>::empty()
    }

    /// The crawl after the next URL was asked for, and the URL that is
    /// handed out. An idle crawl starts: its seed is scheduled and handed
    /// out at once. A running crawl hands out the URL that was pushed last,
    /// and is done when there is none. A crawl that is over stays as it is.
    pub open spec fn next(self) -> (CrawlView, Option<Seq<char>>) {
        match self.state {
            WorkerState::Idle => (
                CrawlView {
                    state: WorkerState::Running,
                    seed: self.seed,
                    frontier: FrontierView { pending: Seq::empty(), visited: set![self.seed] },
                },
                Some(self.seed),
            ),
            WorkerState::Running => if self.frontier.pending.len() > 0 {
                (
                    CrawlView {
                        state: WorkerState::Running,
                        seed: self.seed,
                        frontier: FrontierView {
                            pending: self.frontier.pending.drop_last(),
                            visited: self.frontier.visited,
                        },
                    },
                    Some(self.frontier.pending.last()),
                )
            } else {
                (CrawlView { state: WorkerState::Done, ..self }, None)
            },
            WorkerState::Done => (self, None),
            WorkerState::Failed => (self, None),
        }
    }

    /// The crawl after links were offered to its frontier.
    pub open spec fn offered(self, links: Seq<Seq<char>>) -> CrawlView {
        CrawlView { state: self.state, seed: self.seed, frontier: self.frontier.offer(links) }
    }

    /// The crawl after a fatal error: it has failed, and what was pending is
    /// dropped.
    pub open spec fn failed(self) -> CrawlView {
        CrawlView {
            state: WorkerState::Failed,
            seed: self.seed,
            frontier: FrontierView { pending: Seq::empty(), visited: self.frontier.visited },
        }
    }
}

/// The crawl of one worker.
pub struct Crawl {
    state: WorkerState,
    seed: String,
    frontier: Frontier,
}

impl View for Crawl {
    type V = CrawlView;

    closed spec fn view(&self) -> CrawlView {
        CrawlView { state: self.state, seed: self.seed@, frontier: self.frontier@ }
    }
}

/// The view of a URL that may be missing.
pub open spec fn optional_text(url: Option<String>) -> Option<Seq<char>> {
    match url {
        Some(u) => Some(u@),
        None => None,
    }
}

impl Worker {
    /// A worker with a number and a seed URL.
    pub fn new(id: usize, init_url: &str) -> (worker: Self)
        ensures
            worker@ == (WorkerView { id, init_url: init_url@ }),
    {
        Self { id, init_url: init_url.to_string() }
    }

    /// The number of the worker.
    pub fn id(&self) -> (id: usize)
        ensures
            id == self@.id,
    {
        self.id
    }

    /// The seed URL.
    pub fn init_url(&self) -> (url: &str)
        ensures
            url@ == self@.init_url,
    {
        self.init_url.as_str()
    }

    /// The crawl of this worker, before anything was asked of it.
    pub fn crawl(&self) -> (crawl: Crawl)
        ensures
            crawl.wf(),
            crawl@.state is Idle,
            crawl@.seed == self@.init_url,
            crawl@.frontier.pending == Seq::<Seq<char>>::empty(),
            crawl@.frontier.visited == Set::<Seq<char>>::empty(),
    {
        Crawl { state: WorkerState::Idle, seed: self.init_url.clone(), frontier: Frontier::new() }
    }
}

/// What the processor of a page leaves of it. A record holds the URL and
/// what the processor's `contents` and `metainfo` gave for the document and
/// the parameters. An error is the processor's own: that of `contents`, or,
/// where `contents` gave something, that of `metainfo`.
pub open spec fn processed<P: PageProcess>(
    processor: P,
    html: scraper::Html,
    params: RouteParams,
    url: Seq<char>,
    r: Result<CrawlRecord, WorkerError>,
) -> bool {
    match r {
        Ok(record) => {
            &&& record.url@ == url
            &&& call_ensures(
                P::contents,
                (&processor, &html, &params),
                Ok::<Contents, ProcessError>(record.contents),
            )
            &&& call_ensures(
                P::metainfo,
                (&processor, &html, &params),
                Ok::<Metainfo, ProcessError>(record.metainfo),
            )
        },
        Err(WorkerError::Process(e)) => {
            ||| call_ensures(
                P::contents,
                (&processor, &html, &params),
                Err::<Contents, ProcessError>(e),
            )
            ||| exists|contents: Contents|
                {
                    &&& #[trigger] call_ensures(
                        P::contents,
                        (&processor, &html, &params),
                        Ok::<Contents, ProcessError>(contents),
                    )
                    &&& call_ensures(
                        P::metainfo,
                        (&processor, &html, &params),
                        Err::<Metainfo, ProcessError>(e),
                    )
                }
        },
        Err(_) => false,
    }
}

/// What is left of a visit once the extractor has answered.
///
/// Where the extractor failed, its error is the crawl's, and nothing was
/// offered. Where it gave links, they were offered to the frontier. Then a
/// URL without a route fails the crawl with `RouteNotFound`; a URL with a
/// route went to the route's processor, with the parameters that the route
/// binds. The crawl has failed whenever an error is returned.
pub open spec fn absorbed<P: PageProcess>(
    before: CrawlView,
    after: CrawlView,
    router: PageRouter<P>,
    url: Seq<char>,
    html: scraper::Html,
    got: Result<Vec<String>, ExtractError>,
    r: Result<CrawlRecord, WorkerError>,
) -> bool {
    match got {
        Err(e) => r == Err::<CrawlRecord, WorkerError>(WorkerError::Extract(e)) && after
            == before.failed(),
        Ok(links) => {
            let offered = before.offered(texts(links@));
            match router.lookup(url) {
                Err(_) => r matches Err(WorkerError::RouteNotFound) && after == offered.failed(),
                Ok(found) => {
                    &&& after == if r is Ok {
                        offered
                    } else {
                        offered.failed()
                    }
                    &&& found.0 < router@.processors.len()
                    &&& exists|params: RouteParams|
                        params@ == found.1 && #[trigger] processed(
                            router@.processors[found.0 as int],
                            html,
                            params,
                            url,
                            r,
                        )
                },
            }
        },
    }
}

/// Hands a page to its processor and puts the record together.
fn process<P: PageProcess>(
    processor: &P,
    html: &scraper::Html,
    params: &RouteParams,
    url: &str,
) -> (r: Result<CrawlRecord, WorkerError>)
    ensures
        processed(*processor, *html, *params, url@, r),
{
    match processor.contents(html, params) {
        Err(e) => Err(WorkerError::Process(e)),
        Ok(contents) => match processor.metainfo(html, params) {
            Err(e) => Err(WorkerError::Process(e)),
            Ok(metainfo) => Ok(CrawlRecord { url: url.to_string(), contents, metainfo }),
        },
    }
}

impl Crawl {
    /// The invariant of the representation.
    pub closed spec fn wf(&self) -> bool {
        &&& self.frontier.wf()
        &&& self@.wf()
    }

    /// A well-formed crawl has a well-formed view.
    pub proof fn wf_of_view(&self)
        requires
            self.wf(),
        ensures
            self@.wf(),
    {
    }

    /// Where the crawl stands.
    pub fn state(&self) -> (state: WorkerState)
        ensures
            state == self@.state,
    {
        self.state
    }

    /// The number of pending URLs.
    pub fn pending(&self) -> (n: usize)
        ensures
            n == self@.frontier.pending.len(),
    {
        self.frontier.len()
    }

    /// Whether a URL was ever scheduled in this crawl.
    pub fn has_visited(&self, url: &str) -> (seen: bool)
        ensures
            seen == self@.frontier.visited.contains(url@),
    {
        self.frontier.has_visited(url)
    }

    /// The next URL to fetch, if the crawl goes on.
    pub fn next_url(&mut self) -> (url: Option<String>)
        requires
            old(self).wf(),
        ensures
            final(self).wf(),
            (final(self)@, optional_text(url)) == old(self)@.next(),
    {
        match self.state {
            WorkerState::Idle => {
                self.state = WorkerState::Running;
                self.frontier = Frontier::seeded(self.seed.as_str());
                let url = self.frontier.pop();
                proof {
                    assert(seq![self.seed@].drop_last() =~= Seq::<Seq<char>>::empty());
                    assert(seq![self.seed@].last() == self.seed@);
                }
                url
            },
            WorkerState::Running => {
                let url = self.frontier.pop();
                if url.is_none() {
                    self.state = WorkerState::Done;
                }
                url
            },
            WorkerState::Done => None,
            WorkerState::Failed => None,
        }
    }

    /// Ends the crawl with a failure: what is pending is dropped.
    fn fail(&mut self)
        requires
            old(self).wf(),
        ensures
            final(self).wf(),
            final(self)@ == old(self)@.failed(),
    {
        self.frontier.clear();
        self.state = WorkerState::Failed;
    }

    /// Says that the URL handed out last could not be fetched. The crawl has
    /// failed.
    pub fn fetch_failed(&mut self) -> (error: WorkerError)
        requires
            old(self).wf(),
            old(self)@.state is Running,
        ensures
            final(self).wf(),
            final(self)@ == old(self)@.failed(),
            error is Fetch,
    {
        self.fail();
        WorkerError::Fetch
    }

    /// Goes on with a visit once the extractor has answered for the page.
    ///
    /// A failure of the extractor fails the crawl. Links are offered to the
    /// frontier. Then the page goes to the processor that the router has for
    /// its URL, with the parameters that the route binds, and the record comes
    /// back. Where the URL has no route or the processor fails, the crawl has
    /// failed, and what was pending is dropped.
    pub fn dispatch<P: PageProcess>(
        &mut self,
        router: &PageRouter<P>,
        url: &str,
        html: &scraper::Html,
        got: Result<Vec<String>, ExtractError>,
    ) -> (r: Result<CrawlRecord, WorkerError>)
        requires
            old(self).wf(),
            old(self)@.state is Running,
        ensures
            final(self).wf(),
            absorbed(old(self)@, final(self)@, *router, url@, *html, got, r),
    {
        let ghost start = self@;
        let links = match got {
            Ok(links) => links,
            Err(e) => {
                self.fail();
                return Err(WorkerError::Extract(e));
            },
        };
        let ghost found_links = texts(links@);
        self.frontier.offer(links);
        proof {
            self.frontier.wf_of_view();
            assert(self@ == start.offered(found_links));
        }
        let found = match router.at(url) {
            Ok(found) => found,
            Err(_) => {
                self.fail();
                return Err(WorkerError::RouteNotFound);
            },
        };
        let r = process(found.value, html, &found.params, url);
        if r.is_err() {
            self.fail();
        }
        proof {
            let place = router.lookup(url@)->Ok_0;
            assert(processed(router@.processors[place.0 as int], *html, found.params, url@, r));
        }
        r
    }

    /// Takes the page that was fetched for the URL handed out last.
    ///
    /// The page is parsed, and the extractor is asked for the links of the
    /// document, with the origin of the page's URL as their base: scheme and
    /// authority, without the path. What the extractor answers is dealt with
    /// as [`Crawl::dispatch`] says. A URL that is no URL fails the crawl at
    /// once, with `RouteNotFound`.
    ///
    /// What the extractor and the processor return is theirs to decide. The
    /// contract says what they are handed and what is made of their answers.
    pub fn visit<P: PageProcess, N: NextPage>(
        &mut self,
        router: &PageRouter<P>,
        extractor: &N,
        url: &str,
        body: &str,
    ) -> (r: Result<CrawlRecord, WorkerError>)
        requires
            old(self).wf(),
            old(self)@.state is Running,
        ensures
            final(self).wf(),
            match parsed_url(url@) {
                Err(_) => r matches Err(WorkerError::RouteNotFound) && final(self)@ == old(
                    self,
                )@.failed(),
                Ok(u) => exists|base: &str, got: Result<Vec<String>, ExtractError>|
                    {
                        &&& base@ == u.origin
                        &&& #[trigger] call_ensures(
                            N::next_page,
                            (extractor, base, &parsed_document(body@)),
                            got,
                        )
                        &&& absorbed(
                            old(self)@,
                            final(self)@,
                            *router,
                            url@,
                            parsed_document(body@),
                            got,
                            r,
                        )
                    },
            },
            exists|links: Seq<Seq<char>>|
                final(self)@ == if r is Ok {
                    #[trigger] old(self)@.offered(links)
                } else {
                    old(self)@.offered(links).failed()
                },
            match r {
                Ok(record) => record.url@ == url@ && router.lookup(url@) is Ok,
                Err(WorkerError::Fetch) => false,
                Err(WorkerError::RouteNotFound) => router.lookup(url@) is Err,
                Err(WorkerError::Extract(_)) => parsed_url(url@) is Ok && final(self)@ == old(
                    self,
                )@.failed(),
                Err(WorkerError::Process(_)) => router.lookup(url@) is Ok,
            },
    {
        let ghost start = self@;
        let ghost none = Seq::<Seq<char>>::empty();
        assert(start.offered(none) == start);
        let html = parse_document(body);
        let base = match parse_url(url) {
            Ok(u) => u.origin,
            Err(_) => {
                self.fail();
                assert(self@ == start.offered(none).failed());
                return Err(WorkerError::RouteNotFound);
            },
        };
        let got = extractor.next_page(base.as_str(), &html);
        let ghost answer = got;
        let r = self.dispatch(router, url, &html, got);
        proof {
            let links = match answer {
                Ok(links) => texts(links@),
                Err(_) => none,
            };
            assert(self@ == if r is Ok {
                start.offered(links)
            } else {
                start.offered(links).failed()
            });
        }
        r
    }
}

/// A crawl that is over stays over: asking for the next URL changes nothing
/// and hands nothing out.
pub proof fn final_states_are_final(crawl: CrawlView)
    requires
        crawl.state is Done || crawl.state is Failed,
    ensures
        crawl.next() == (crawl, None::<Seq<char>>),
{
}

/// Asking for the next URL keeps a crawl well formed.
pub proof fn next_keeps_wf(crawl: CrawlView)
    requires
        crawl.wf(),
    ensures
        crawl.next().0.wf(),
{
    let after = crawl.next().0;
    match crawl.state {
        WorkerState::Idle => {
            assert(after.frontier.pending.no_duplicates());
        },
        WorkerState::Running => {
            if crawl.frontier.pending.len() > 0 {
                let pending = crawl.frontier.pending;
                assert forall|i: int| 0 <= i < after.frontier.pending.len() implies
                    after.frontier.visited.contains(#[trigger] after.frontier.pending[i]) by {
                    assert(after.frontier.pending[i] == pending[i]);
                }
            }
        },
        WorkerState::Done => {},
        WorkerState::Failed => {},
    }
}

/// The traversal is depth-first: after links that are new and differ from
/// each other were offered to a running crawl, the link that was offered last
/// is handed out next, and the others are left pending in their order.
pub proof fn last_offered_link_comes_next(crawl: CrawlView, links: Seq<Seq<char>>)
    requires
        crawl.state is Running,
        links.len() > 0,
        links.no_duplicates(),
        forall|i: int| 0 <= i < links.len() ==> !crawl.frontier.visited.contains(#[trigger] links[i]),
    ensures
        crawl.offered(links).next().1 == Some(links.last()),
        crawl.offered(links).next().0.frontier.pending == crawl.frontier.pending
            + links.drop_last(),
{
    crate::frontier::fresh_links_are_pushed_in_order(crawl.frontier, links);
    assert((crawl.frontier.pending + links).drop_last() =~= crawl.frontier.pending
        + links.drop_last());
}

} // verus!
