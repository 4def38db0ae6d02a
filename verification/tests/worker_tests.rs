use raspy::page_process::add_next_urls::AddNextUrls;
use raspy::page_process::next_page::{ExtractError, NextPage};
use raspy::page_process::page_process::{Contents, Metainfo, PageProcess, ProcessError};
use raspy::router::{PageRouter, RouteParams};
use raspy::worker::{Crawl, CrawlRecord, Worker, WorkerError, WorkerState};
use scraper::Html;
use std::collections::HashMap;
use std::sync::{Arc, Mutex};

/// Gives the `id` of the route as the contents, and the page's first
/// heading as its title.
struct IdPage;

impl PageProcess for IdPage {
    fn contents(&self, _html: &Html, params: &RouteParams) -> Result<Contents, ProcessError> {
        Ok(Contents(params.get("id").map(|id| id.to_string()).into_iter().collect()))
    }

    fn metainfo(&self, html: &Html, _params: &RouteParams) -> Result<Metainfo, ProcessError> {
        let titles = raspy::document::attribute_values(html, "h1", "title");
        let mut info = HashMap::new();
        info.insert("title".to_string(), titles);
        Ok(Metainfo(info))
    }
}

struct FailingContents;

impl PageProcess for FailingContents {
    fn contents(&self, _html: &Html, _params: &RouteParams) -> Result<Contents, ProcessError> {
        Err(ProcessError { message: "no contents".to_string() })
    }

    fn metainfo(&self, _html: &Html, _params: &RouteParams) -> Result<Metainfo, ProcessError> {
        Ok(Metainfo(HashMap::new()))
    }
}

struct FailingMetainfo;

impl PageProcess for FailingMetainfo {
    fn contents(&self, _html: &Html, _params: &RouteParams) -> Result<Contents, ProcessError> {
        Ok(Contents(vec![]))
    }

    fn metainfo(&self, _html: &Html, _params: &RouteParams) -> Result<Metainfo, ProcessError> {
        Err(ProcessError { message: "no metainfo".to_string() })
    }
}

struct FixedLinks(Vec<String>);

impl NextPage for FixedLinks {
    fn next_page(&self, _base_url: &str, _html: &Html) -> Result<Vec<String>, ExtractError> {
        Ok(self.0.clone())
    }
}

struct EchoBase;

impl NextPage for EchoBase {
    fn next_page(&self, base_url: &str, _html: &Html) -> Result<Vec<String>, ExtractError> {
        Ok(vec![base_url.to_string()])
    }
}

struct FailingLinks;

impl NextPage for FailingLinks {
    fn next_page(&self, _base_url: &str, _html: &Html) -> Result<Vec<String>, ExtractError> {
        Err(ExtractError::Other("no links".to_string()))
    }
}

fn site() -> HashMap<String, String> {
    let mut pages = HashMap::new();
    pages.insert(
        "https://example.com/".to_string(),
        r#"<h1 title="home">Home</h1>
           <a href="/p/1">one</a><a href="/p/2">two</a><a href="/other">other</a>"#
            .to_string(),
    );
    pages.insert("https://example.com/p/1".to_string(), r#"<h1 title="one">1</h1>"#.to_string());
    pages.insert("https://example.com/p/2".to_string(), r#"<h1 title="two">2</h1>"#.to_string());
    pages
}

/// Drives a crawl over pages held in memory. Gives the URLs in the order in
/// which they were fetched, the records, and how the crawl ended.
fn run<P: PageProcess, N: NextPage>(
    crawl: &mut Crawl,
    router: &PageRouter<P>,
    extractor: &N,
    pages: &HashMap<String, String>,
) -> (Vec<String>, Vec<CrawlRecord>, Result<(), WorkerError>) {
    let mut fetched = Vec::new();
    let mut records = Vec::new();
    while let Some(url) = crawl.next_url() {
        fetched.push(url.clone());
        let body = match pages.get(&url) {
            Some(body) => body,
            None => return (fetched, records, Err(crawl.fetch_failed())),
        };
        match crawl.visit(router, extractor, &url, body) {
            Ok(record) => records.push(record),
            Err(e) => return (fetched, records, Err(e)),
        }
    }
    (fetched, records, Ok(()))
}

#[test]
fn worker_test() {
    let worker = Worker::new(0, "https://www.google.com/");
    assert_eq!(worker.id, 0);
    assert_eq!(worker.init_url(), "https://www.google.com/");
}

#[test]
fn a_worker_knows_its_number() {
    let worker = Worker::new(7, "https://h.example/");
    assert_eq!(worker.id(), 7);
    assert_eq!(worker.id(), worker.id);
}

#[test]
fn a_crawl_visits_what_has_a_route_depth_first() {
    let router = Arc::new(
        PageRouter::<IdPage>::new()
            .insert("https://example.com/", IdPage)
            .insert("https://example.com/p/:id", IdPage),
    );
    let extractor = AddNextUrls::new(router.clone());
    let mut crawl = Worker::new(0, "https://example.com/").crawl();
    assert_eq!(crawl.state(), WorkerState::Idle);

    let (fetched, records, outcome) = run(&mut crawl, &router, &extractor, &site());

    assert!(outcome.is_ok());
    assert_eq!(crawl.state(), WorkerState::Done);
    assert_eq!(
        fetched,
        vec!["https://example.com/", "https://example.com/p/2", "https://example.com/p/1"]
    );
    assert!(!crawl.has_visited("https://example.com/other"));
    assert_eq!(records.len(), 3);
    assert_eq!(records[0].url, "https://example.com/");
    assert_eq!(records[0].contents.0, Vec::<String>::new());
    assert_eq!(records[1].url, "https://example.com/p/2");
    assert_eq!(records[1].contents.0, vec!["2"]);
    assert_eq!(records[1].metainfo.0["title"], vec!["two"]);
    assert_eq!(records[2].url, "https://example.com/p/1");
    assert_eq!(records[2].contents.0, vec!["1"]);
    assert_eq!(records[2].metainfo.0["title"], vec!["one"]);
}

#[test]
fn two_links_to_one_page_lead_to_one_fetch() {
    let router = Arc::new(
        PageRouter::<IdPage>::new()
            .insert("https://example.com/", IdPage)
            .insert("https://example.com/p/:id", IdPage),
    );
    let extractor = AddNextUrls::new(router.clone());
    let mut pages = site();
    pages.insert(
        "https://example.com/".to_string(),
        r#"<a href="/p/1">one</a><a href="https://example.com/p/1">again</a>"#.to_string(),
    );
    pages.insert(
        "https://example.com/p/1".to_string(),
        r#"<a href="/">home</a><a href="/p/1">self</a>"#.to_string(),
    );
    let mut crawl = Worker::new(0, "https://example.com/").crawl();

    let (fetched, records, outcome) = run(&mut crawl, &router, &extractor, &pages);

    assert!(outcome.is_ok());
    assert_eq!(fetched, vec!["https://example.com/", "https://example.com/p/1"]);
    assert_eq!(records.len(), 2);
}

#[test]
fn the_next_url_is_the_link_found_last() {
    let router = PageRouter::<IdPage>::new().insert("https://h.example/:id", IdPage);
    let extractor =
        FixedLinks(vec!["https://h.example/b".to_string(), "https://h.example/c".to_string()]);
    let mut crawl = Worker::new(0, "https://h.example/a").crawl();

    assert_eq!(crawl.next_url(), Some("https://h.example/a".to_string()));
    assert_eq!(crawl.state(), WorkerState::Running);
    assert_eq!(crawl.pending(), 0);
    assert!(crawl.visit(&router, &extractor, "https://h.example/a", "").is_ok());
    assert_eq!(crawl.pending(), 2);
    assert_eq!(crawl.next_url(), Some("https://h.example/c".to_string()));
    assert!(crawl.visit(&router, &extractor, "https://h.example/c", "").is_ok());
    assert_eq!(crawl.next_url(), Some("https://h.example/b".to_string()));
    assert!(crawl.visit(&router, &extractor, "https://h.example/b", "").is_ok());
    assert_eq!(crawl.next_url(), None);
    assert_eq!(crawl.state(), WorkerState::Done);
}

#[test]
fn a_crawl_that_is_done_stays_done() {
    let router = PageRouter::<IdPage>::new().insert("https://h.example/", IdPage);
    let mut crawl = Worker::new(0, "https://h.example/").crawl();
    let mut pages = HashMap::new();
    pages.insert("https://h.example/".to_string(), String::new());
    let (fetched, _, outcome) = run(&mut crawl, &router, &FixedLinks(vec![]), &pages);
    assert!(outcome.is_ok());
    assert_eq!(fetched, vec!["https://h.example/"]);
    assert_eq!(crawl.state(), WorkerState::Done);
    assert_eq!(crawl.next_url(), None);
    assert_eq!(crawl.state(), WorkerState::Done);
    assert!(crawl.has_visited("https://h.example/"));
}

#[test]
fn a_failed_fetch_ends_the_crawl() {
    let router = Arc::new(
        PageRouter::<IdPage>::new()
            .insert("https://example.com/", IdPage)
            .insert("https://example.com/p/:id", IdPage),
    );
    let extractor = AddNextUrls::new(router.clone());
    let mut pages = site();
    pages.remove("https://example.com/p/2");
    let mut crawl = Worker::new(0, "https://example.com/").crawl();

    let (fetched, records, outcome) = run(&mut crawl, &router, &extractor, &pages);

    assert!(matches!(outcome, Err(WorkerError::Fetch)));
    assert_eq!(fetched, vec!["https://example.com/", "https://example.com/p/2"]);
    assert_eq!(records.len(), 1);
    assert_eq!(crawl.state(), WorkerState::Failed);
    assert_eq!(crawl.pending(), 0);
    assert_eq!(crawl.next_url(), None);
    assert_eq!(crawl.state(), WorkerState::Failed);
}

#[test]
fn a_seed_without_a_route_ends_the_crawl() {
    let router = Arc::new(PageRouter::<IdPage>::new().insert("https://example.com/p/:id", IdPage));
    let extractor = AddNextUrls::new(router.clone());
    let mut crawl = Worker::new(0, "https://example.com/").crawl();

    let (fetched, records, outcome) = run(&mut crawl, &router, &extractor, &site());

    assert!(matches!(outcome, Err(WorkerError::RouteNotFound)));
    assert_eq!(fetched, vec!["https://example.com/"]);
    assert_eq!(records.len(), 0);
    assert_eq!(crawl.state(), WorkerState::Failed);
    assert_eq!(crawl.pending(), 0);
    assert!(crawl.has_visited("https://example.com/p/1"));
}

#[test]
fn a_seed_that_is_no_url_ends_the_crawl() {
    let router = PageRouter::<IdPage>::new().insert("https://example.com/", IdPage);
    let mut crawl = Worker::new(0, "nowhere").crawl();
    assert_eq!(crawl.next_url(), Some("nowhere".to_string()));
    let outcome = crawl.visit(&router, &FixedLinks(vec!["x".to_string()]), "nowhere", "");
    assert!(matches!(outcome, Err(WorkerError::RouteNotFound)));
    assert_eq!(crawl.state(), WorkerState::Failed);
    assert!(!crawl.has_visited("x"));
}

#[test]
fn a_failing_extractor_ends_the_crawl() {
    let router = PageRouter::<IdPage>::new().insert("https://example.com/", IdPage);
    let mut crawl = Worker::new(0, "https://example.com/").crawl();
    let (fetched, records, outcome) = run(&mut crawl, &router, &FailingLinks, &site());
    match outcome {
        Err(WorkerError::Extract(ExtractError::Other(words))) => assert_eq!(words, "no links"),
        _ => panic!("the extractor's error was expected"),
    }
    assert_eq!(fetched, vec!["https://example.com/"]);
    assert_eq!(records.len(), 0);
    assert_eq!(crawl.state(), WorkerState::Failed);
}

#[test]
fn a_failing_processor_ends_the_crawl() {
    let router = PageRouter::<FailingContents>::new().insert("https://h.example/", FailingContents);
    let mut crawl = Worker::new(0, "https://h.example/").crawl();
    assert_eq!(crawl.next_url(), Some("https://h.example/".to_string()));
    let links = FixedLinks(vec!["https://h.example/next".to_string()]);
    match crawl.visit(&router, &links, "https://h.example/", "") {
        Err(WorkerError::Process(e)) => assert_eq!(e.message, "no contents"),
        _ => panic!("the processor's error was expected"),
    }
    assert_eq!(crawl.state(), WorkerState::Failed);
    assert_eq!(crawl.pending(), 0);
    assert!(crawl.has_visited("https://h.example/next"));

    let router = PageRouter::<FailingMetainfo>::new().insert("https://h.example/", FailingMetainfo);
    let mut crawl = Worker::new(0, "https://h.example/").crawl();
    assert_eq!(crawl.next_url(), Some("https://h.example/".to_string()));
    match crawl.visit(&router, &links, "https://h.example/", "") {
        Err(WorkerError::Process(e)) => assert_eq!(e.message, "no metainfo"),
        _ => panic!("the processor's error was expected"),
    }
}

#[test]
fn the_base_of_a_page_is_its_scheme_and_authority() {
    let router = PageRouter::<IdPage>::new().insert("https://h.example/a/:id", IdPage);
    let mut crawl = Worker::new(0, "https://h.example:8443/a/b?q=1").crawl();
    assert_eq!(crawl.next_url(), Some("https://h.example:8443/a/b?q=1".to_string()));
    assert!(crawl.visit(&router, &EchoBase, "https://h.example:8443/a/b?q=1", "").is_ok());
    assert_eq!(crawl.next_url(), Some("https://h.example:8443".to_string()));
}

#[test]
fn processors_of_several_types_share_a_router() {
    let router = PageRouter::<Box<dyn PageProcess>>::new()
        .insert("https://h.example/", Box::new(IdPage))
        .insert("https://h.example/bad", Box::new(FailingContents));
    let mut crawl = Worker::new(0, "https://h.example/").crawl();
    assert_eq!(crawl.next_url(), Some("https://h.example/".to_string()));
    let links = FixedLinks(vec!["https://h.example/bad".to_string()]);
    assert!(crawl.visit(&router, &links, "https://h.example/", "").is_ok());
    assert_eq!(crawl.next_url(), Some("https://h.example/bad".to_string()));
    let outcome = crawl.visit(&router, &links, "https://h.example/bad", "");
    assert!(matches!(outcome, Err(WorkerError::Process(_))));
}

/// Keeps, for each call, the `id` it was handed and the title of the
/// document it was handed.
struct Recorder {
    contents_calls: Arc<Mutex<Vec<(String, Vec<String>)>>>,
    metainfo_calls: Arc<Mutex<Vec<(String, Vec<String>)>>>,
}

fn seen(html: &Html, params: &RouteParams) -> (String, Vec<String>) {
    let id = params.get("id").unwrap_or("").to_string();
    (id, raspy::document::attribute_values(html, "h1", "title"))
}

impl PageProcess for Recorder {
    fn contents(&self, html: &Html, params: &RouteParams) -> Result<Contents, ProcessError> {
        self.contents_calls.lock().unwrap().push(seen(html, params));
        Ok(Contents(vec![]))
    }

    fn metainfo(&self, html: &Html, params: &RouteParams) -> Result<Metainfo, ProcessError> {
        self.metainfo_calls.lock().unwrap().push(seen(html, params));
        Ok(Metainfo(HashMap::new()))
    }
}

#[test]
fn the_processor_of_a_route_gets_its_pages_with_their_parameters() {
    let contents_calls = Arc::new(Mutex::new(Vec::new()));
    let metainfo_calls = Arc::new(Mutex::new(Vec::new()));
    let recorder = Recorder {
        contents_calls: contents_calls.clone(),
        metainfo_calls: metainfo_calls.clone(),
    };
    let router = Arc::new(
        PageRouter::<Box<dyn PageProcess>>::new()
            .insert("https://example.com/", Box::new(IdPage))
            .insert("https://example.com/p/:id", Box::new(recorder)),
    );
    let extractor = AddNextUrls::new(router.clone());
    let mut crawl = Worker::new(0, "https://example.com/").crawl();

    let (_, records, outcome) = run(&mut crawl, &router, &extractor, &site());

    assert!(outcome.is_ok());
    assert_eq!(records.len(), 3);
    let expected = vec![
        ("2".to_string(), vec!["two".to_string()]),
        ("1".to_string(), vec!["one".to_string()]),
    ];
    assert_eq!(*contents_calls.lock().unwrap(), expected);
    assert_eq!(*metainfo_calls.lock().unwrap(), expected);
}

#[test]
fn a_seed_without_a_route_is_fetched_once_and_nothing_is_processed() {
    let contents_calls = Arc::new(Mutex::new(Vec::new()));
    let metainfo_calls = Arc::new(Mutex::new(Vec::new()));
    let recorder = Recorder {
        contents_calls: contents_calls.clone(),
        metainfo_calls: metainfo_calls.clone(),
    };
    let router = PageRouter::<Recorder>::new().insert("https://example.com/p/:id", recorder);
    let links = FixedLinks(vec!["https://example.com/p/1".to_string()]);
    let mut crawl = Worker::new(0, "https://example.com/").crawl();

    let (fetched, records, outcome) = run(&mut crawl, &router, &links, &site());

    assert!(matches!(outcome, Err(WorkerError::RouteNotFound)));
    assert_eq!(fetched, vec!["https://example.com/"]);
    assert_eq!(records.len(), 0);
    assert!(contents_calls.lock().unwrap().is_empty());
    assert!(metainfo_calls.lock().unwrap().is_empty());
    assert_eq!(crawl.next_url(), None);
}

#[test]
fn the_extractor_gets_the_document_of_the_page_and_its_origin() {
    struct Seen(Arc<Mutex<Vec<(String, Vec<String>)>>>);
    impl NextPage for Seen {
        fn next_page(&self, base_url: &str, html: &Html) -> Result<Vec<String>, ExtractError> {
            let titles = raspy::document::attribute_values(html, "h1", "title");
            self.0.lock().unwrap().push((base_url.to_string(), titles));
            Ok(vec![])
        }
    }
    let calls = Arc::new(Mutex::new(Vec::new()));
    let router = PageRouter::<IdPage>::new().insert("https://example.com/p/:id", IdPage);
    let url = "https://example.com:8080/p/2?x=1#frag";
    let mut crawl = Worker::new(0, url).crawl();
    assert_eq!(crawl.next_url(), Some(url.to_string()));
    let body = r#"<h1 title="the body">b</h1>"#;
    assert!(crawl.visit(&router, &Seen(calls.clone()), url, body).is_ok());
    assert_eq!(
        *calls.lock().unwrap(),
        vec![("https://example.com:8080".to_string(), vec!["the body".to_string()])]
    );
}

fn running(seed: &str) -> Crawl {
    let mut crawl = Worker::new(0, seed).crawl();
    assert_eq!(crawl.next_url(), Some(seed.to_string()));
    crawl
}

#[test]
fn dispatch_offers_the_links_and_hands_the_page_to_its_processor() {
    let router = PageRouter::<IdPage>::new().insert("https://h.example/p/:id", IdPage);
    let html = Html::parse_document(r#"<h1 title="five">5</h1>"#);
    let mut crawl = running("https://h.example/p/5");
    let links = vec!["https://h.example/p/6".to_string(), "https://h.example/p/6".to_string()];
    let record = crawl.dispatch(&router, "https://h.example/p/5", &html, Ok(links)).unwrap();
    assert_eq!(record.url, "https://h.example/p/5");
    assert_eq!(record.contents.0, vec!["5"]);
    assert_eq!(record.metainfo.0["title"], vec!["five"]);
    assert_eq!(crawl.state(), WorkerState::Running);
    assert_eq!(crawl.pending(), 1);
    assert_eq!(crawl.next_url(), Some("https://h.example/p/6".to_string()));
}

#[test]
fn dispatch_fails_with_the_error_of_the_extractor() {
    let router = PageRouter::<IdPage>::new().insert("https://h.example/p/:id", IdPage);
    let html = Html::parse_document("");
    let mut crawl = running("https://h.example/p/5");
    let got = Err(ExtractError::Other("broken".to_string()));
    match crawl.dispatch(&router, "https://h.example/p/5", &html, got) {
        Err(WorkerError::Extract(ExtractError::Other(words))) => assert_eq!(words, "broken"),
        _ => panic!("the extractor's error was expected"),
    }
    assert_eq!(crawl.state(), WorkerState::Failed);
    assert_eq!(crawl.pending(), 0);
}

#[test]
fn dispatch_without_a_route_fails_after_the_links_were_offered() {
    let router = PageRouter::<IdPage>::new().insert("https://h.example/p/:id", IdPage);
    let html = Html::parse_document("");
    let mut crawl = running("https://h.example/");
    let links = vec!["https://h.example/p/6".to_string()];
    let outcome = crawl.dispatch(&router, "https://h.example/", &html, Ok(links));
    assert!(matches!(outcome, Err(WorkerError::RouteNotFound)));
    assert_eq!(crawl.state(), WorkerState::Failed);
    assert_eq!(crawl.pending(), 0);
    assert!(crawl.has_visited("https://h.example/p/6"));
}

#[test]
fn dispatch_fails_with_the_error_of_the_processor() {
    let router = PageRouter::<FailingMetainfo>::new().insert("https://h.example/", FailingMetainfo);
    let html = Html::parse_document("");
    let mut crawl = running("https://h.example/");
    match crawl.dispatch(&router, "https://h.example/", &html, Ok(vec![])) {
        Err(WorkerError::Process(e)) => assert_eq!(e.message, "no metainfo"),
        _ => panic!("the processor's error was expected"),
    }
    assert_eq!(crawl.state(), WorkerState::Failed);
}
