//! The orchestrator: one router, the seed URLs, and the workers that share
//! them.
//!
//! Each worker crawls on its own, from the seed that falls to it. Running the
//! workers side by side is left to the caller; which worker gets which seed is
//! decided here.
use crate::page_process::add_next_urls::AddNextUrls;
use crate::raspy_config::RaspyConfig;
use crate::router::PageRouter;
use crate::worker::{Worker, WorkerView};
use std::sync::Arc;
use vstd::prelude::*;

verus! {

broadcast use vstd::string::group_string_axioms;

/// Calls `Arc::clone`.
///
/// Trusted: the new pointer leads to the same value.
#[verifier::external_body]
fn shared<P>(router: &Arc<PageRouter<P>>) -> (again: Arc<PageRouter<P>>)
    ensures
        *again == **router,
{
    router.clone()
}

/// The seed of the worker with the given number: the seeds go round.
pub open spec fn seed_of(urls: Seq<String>, id: int) -> Seq<char>
    recommends
        urls.len() > 0,
        0 <= id,
{
    urls[id % (urls.len() as int)]@
}

/// A crawl that is set up: a router and a configuration.
pub struct Raspy<P> {
    router: Arc<PageRouter<P>>,
    config: RaspyConfig,
}

impl<P> Raspy<P> {
    /// The router that all workers share.
    pub closed spec fn router(&self) -> PageRouter<P> {
        *self.router
    }

    /// The configuration.
    pub closed spec fn config(&self) -> RaspyConfig {
        self.config
    }

    /// Sets up a crawl.
    pub fn new(config: RaspyConfig, router: PageRouter<P>) -> (raspy: Self)
        ensures
            raspy.config() == config,
            raspy.router() == router,
    {
        Self { router: Arc::new(router), config }
    }

    /// The configuration.
    pub fn settings(&self) -> (config: &RaspyConfig)
        ensures
            *config == self.config(),
    {
        &self.config
    }

    /// The router, to share with a worker.
    pub fn shared_router(&self) -> (router: &Arc<PageRouter<P>>)
        ensures
            **router == self.router(),
    {
        &self.router
    }

    /// A link extractor over the router, for one worker.
    pub fn extractor(&self) -> (extractor: AddNextUrls<P>)
        ensures
            extractor.router() == self.router(),
    {
        AddNextUrls::new(shared(&self.router))
    }

    /// The workers of the crawl: as many as the configuration asks for,
    /// numbered from zero, worker `i` with the seed at `i` modulo the number
    /// of seeds. With more workers than seeds, several workers share a seed.
    pub fn workers(&self) -> (workers: Vec<Worker>)
        requires
            self.config().worker_num > 0 ==> self.config().urls@.len() > 0,
        ensures
            workers@.len() == self.config().worker_num,
            forall|i: int|
                0 <= i < workers@.len() ==> (#[trigger] workers@[i])@ == (WorkerView {
                    id: i as usize,
                    init_url: seed_of(self.config().urls@, i),
                }),
    {
        let mut workers: Vec<Worker> = Vec::new();
        let count = self.config.urls.len();
        let mut id: usize = 0;
        while id < self.config.worker_num
            invariant
                id <= self.config.worker_num,
                count == self.config.urls@.len(),
                count > 0 || self.config.worker_num == 0,
                workers@.len() == id,
                forall|i: int|
                    0 <= i < id ==> (#[trigger] workers@[i])@ == (WorkerView {
                        id: i as usize,
                        init_url: seed_of(self.config.urls@, i),
                    }),
            decreases self.config.worker_num - id,
        {
            let seed = self.config.urls[id % count].as_str();
            workers.push(Worker::new(id, seed));
            id += 1;
        }
        workers
    }
}

/// Two workers whose numbers differ by the number of seeds start from the
/// same seed.
pub proof fn seeds_go_round(urls: Seq<String>, id: int)
    requires
        urls.len() > 0,
        0 <= id,
    ensures
        seed_of(urls, id + urls.len()) == seed_of(urls, id),
{
    let n = urls.len() as int;
    assert((id + n) % n == id % n) by (nonlinear_arith)
        requires
            n > 0,
            id >= 0,
    ;
}

/// With no more workers than seeds, worker `i` starts from seed `i`.
pub proof fn first_round_takes_the_seeds_in_order(urls: Seq<String>, id: int)
    requires
        0 <= id < urls.len(),
    ensures
        seed_of(urls, id) == urls[id]@,
{
    let n = urls.len() as int;
    assert(id % n == id) by (nonlinear_arith)
        requires
            0 <= id < n,
    ;
}

} // verus!
