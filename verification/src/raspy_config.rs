//! Crawl configuration and its builder.
use crate::text::{holds, owned, slice_texts, texts};
use vstd::prelude::*;

verus! {

broadcast use vstd::string::group_string_axioms;

/// `s` without the repetitions: of equal items only the first stays, and the
/// items that stay keep their order.
pub open spec fn first_occurrences(s: Seq<Seq<char>>) -> Seq<Seq<char>>
    decreases s.len(),
{
    if s.len() == 0 {
        s
    } else {
        let kept = first_occurrences(s.drop_last());
        if kept.contains(s.last()) {
            kept
        } else {
            kept.push(s.last())
        }
    }
}

/// What a builder lacks to be built.
#[derive(Debug, Clone, Copy, PartialEq, Eq, Structural)]
pub enum BuildError {
    /// No save path was given.
    MissingSavePath,
    /// No seed URLs were given.
    MissingUrls,
}

/// What a builder holds.
pub struct BuilderView {
    pub worker_num: nat,
    pub save_path: Option<Seq<char>>,
    pub urls: Option<Seq<Seq<char>>>,
    pub get_exts: Seq<Seq<char>>,
}

impl BuilderView {
    /// What is missing, the save path first.
    pub open spec fn missing(self) -> Option<BuildError> {
        if self.save_path is None {
            Some(BuildError::MissingSavePath)
        } else if self.urls is None {
            Some(BuildError::MissingUrls)
        } else {
            None
        }
    }

    /// Whether a configuration is the one that is built from this.
    pub open spec fn builds(self, config: RaspyConfig) -> bool {
        &&& config.wf()
        &&& config.worker_num == self.worker_num
        &&& Some(config.save_path@) == self.save_path
        &&& Some(texts(config.urls@)) == self.urls
        &&& texts(config.get_exts@) == first_occurrences(self.get_exts)
    }
}

pub struct RaspyConfigBuilder {
    worker_num: usize,
    save_path: Option<String>,
    urls: Option<Vec<String>>,
    get_exts: Vec<String>,
}

/// A finished configuration. `get_exts` is a set kept in a vector: in a
/// configuration that was built, no extension occurs in it twice.
pub struct RaspyConfig {
    pub worker_num: usize,
    pub save_path: String,
    pub urls: Vec<String>,
    pub get_exts: Vec<String>,
}

impl View for RaspyConfigBuilder {
    type V = BuilderView;

    closed spec fn view(&self) -> BuilderView {
        BuilderView {
            worker_num: self.worker_num as nat,
            save_path: match self.save_path {
                Some(p) => Some(p@),
                None => None,
            },
            urls: match self.urls {
                Some(u) => Some(texts(u@)),
                None => None,
            },
            get_exts: texts(self.get_exts@),
        }
    }
}

/// The items of `list` with every repetition dropped.
fn without_repetitions(list: Vec<String>) -> (out: Vec<String>)
    ensures
        texts(out@) == first_occurrences(texts(list@)),
{
    let mut out: Vec<String> = Vec::new();
    let mut i: usize = 0;
    assert(texts(list@).take(0) =~= Seq::<Seq<char>>::empty());
    assert(texts(out@) =~= Seq::<Seq<char>>::empty());
    while i < list.len()
        invariant
            i <= list.len(),
            texts(out@) == first_occurrences(texts(list@).take(i as int)),
        decreases list.len() - i,
    {
        let ghost before = texts(out@);
        let ghost prefix = texts(list@).take(i as int + 1);
        assert(prefix.drop_last() =~= texts(list@).take(i as int));
        assert(prefix.last() == list@[i as int]@);
        if !holds(&out, &list[i]) {
            out.push(list[i].clone());
            assert(texts(out@) =~= before.push(list@[i as int]@));
        }
        i += 1;
    }
    assert(texts(list@).take(list.len() as int) =~= texts(list@));
    out
}

impl RaspyConfigBuilder {
    /// A builder with one worker, the four image extensions, and neither a
    /// save path nor seed URLs.
    pub fn builder() -> (b: Self)
        ensures
            b@ == (BuilderView {
                worker_num: 1,
                save_path: None,
                urls: None,
                get_exts: seq![".jpg"@, ".png"@, ".gif"@, ".jpeg"@],
            }),
    {
        let mut get_exts: Vec<String> = Vec::new();
        get_exts.push(".jpg".to_string());
        get_exts.push(".png".to_string());
        get_exts.push(".gif".to_string());
        get_exts.push(".jpeg".to_string());
        let b = Self { worker_num: 1, save_path: None, urls: None, get_exts };
        assert(b@.get_exts =~= seq![".jpg"@, ".png"@, ".gif"@, ".jpeg"@]);
        b
    }

    /// Sets the number of workers.
    pub fn worker(self, worker_num: usize) -> (b: Self)
        ensures
            b@ == (BuilderView { worker_num: worker_num as nat, ..self@ }),
    {
        let mut b = self;
        b.worker_num = worker_num;
        b
    }

    /// Sets the directory that downloads are saved to.
    pub fn save_path(self, save_path: &str) -> (b: Self)
        ensures
            b@ == (BuilderView { save_path: Some(save_path@), ..self@ }),
    {
        let mut b = self;
        b.save_path = Some(save_path.to_string());
        b
    }

    /// Sets the seed URLs, in the order given.
    pub fn initial_urls(self, urls: &[&str]) -> (b: Self)
        ensures
            b@ == (BuilderView { urls: Some(slice_texts(urls@)), ..self@ }),
    {
        let mut b = self;
        b.urls = Some(owned(urls));
        b
    }

    /// Replaces the file extensions that are downloaded.
    pub fn get_exts(self, get_exts: &[&str]) -> (b: Self)
        ensures
            b@ == (BuilderView { get_exts: slice_texts(get_exts@), ..self@ }),
    {
        let mut b = self;
        b.get_exts = owned(get_exts);
        b
    }

    /// Whether both the save path and the seed URLs were given, which is what
    /// [`RaspyConfigBuilder::build`] asks for.
    pub fn is_complete(&self) -> (complete: bool)
        ensures
            complete == (self@.save_path is Some && self@.urls is Some),
    {
        self.save_path.is_some() && self.urls.is_some()
    }

    /// The configuration that was built up. The extensions become a set.
    /// The save path and the seed URLs must have been given;
    /// [`RaspyConfigBuilder::try_build`] takes any builder.
    pub fn build(self) -> (config: RaspyConfig)
        requires
            self@.save_path is Some,
            self@.urls is Some,
        ensures
            self@.builds(config),
    {
        let save_path = match self.save_path {
            Some(p) => p,
            None => String::new(),
        };
        let urls = match self.urls {
            Some(u) => u,
            None => Vec::new(),
        };
        proof {
            first_occurrences_are_distinct(texts(self.get_exts@));
        }
        RaspyConfig {
            worker_num: self.worker_num,
            save_path,
            urls,
            get_exts: without_repetitions(self.get_exts),
        }
    }

    /// The configuration that was built up, or what the builder lacks: the
    /// save path, or else the seed URLs.
    pub fn try_build(self) -> (r: Result<RaspyConfig, BuildError>)
        ensures
            match r {
                Ok(config) => self@.missing() is None && self@.builds(config),
                Err(e) => self@.missing() == Some(e),
            },
    {
        if self.save_path.is_none() {
            Err(BuildError::MissingSavePath)
        } else if self.urls.is_none() {
            Err(BuildError::MissingUrls)
        } else {
            Ok(self.build())
        }
    }
}

impl RaspyConfig {
    /// The invariant of a configuration: the extensions are a set, none of
    /// them occurs twice.
    pub open spec fn wf(&self) -> bool {
        texts(self.get_exts@).no_duplicates()
    }

    /// The number of seed URLs.
    pub fn url_num(&self) -> (n: usize)
        ensures
            n == self.urls@.len(),
    {
        self.urls.len()
    }
}

/// What is kept of a list has no item twice.
pub proof fn first_occurrences_are_distinct(s: Seq<Seq<char>>)
    ensures
        first_occurrences(s).no_duplicates(),
    decreases s.len(),
{
    if s.len() > 0 {
        first_occurrences_are_distinct(s.drop_last());
    }
}

/// What is kept of a list holds exactly the items of the list.
pub proof fn first_occurrences_keep_every_item(s: Seq<Seq<char>>, item: Seq<char>)
    ensures
        first_occurrences(s).contains(item) <==> s.contains(item),
    decreases s.len(),
{
    if s.len() > 0 {
        let init = s.drop_last();
        first_occurrences_keep_every_item(init, item);
        let kept = first_occurrences(init);
        if s.contains(item) {
            let k = choose|k: int| 0 <= k < s.len() && s[k] == item;
            if k < s.len() - 1 {
                assert(init[k] == item);
            }
        }
        if init.contains(item) {
            let k = choose|k: int| 0 <= k < init.len() && init[k] == item;
            assert(s[k] == item);
        }
        if !kept.contains(s.last()) {
            let grown = kept.push(s.last());
            assert(grown[kept.len() as int] == s.last());
            if kept.contains(item) {
                let k = choose|k: int| 0 <= k < kept.len() && kept[k] == item;
                assert(grown[k] == item);
            }
        }
        assert(s[s.len() - 1] == s.last());
    }
}

} // verus!
