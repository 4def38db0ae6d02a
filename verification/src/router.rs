//! The route table: one table of path templates per host.
//!
//! A route is registered under a full URL. Its host names the table and its
//! path is the template. Matching a path against the templates of one host is
//! the `matchit` crate's; which table is asked, and what is asked of it, is
//! decided here.
use crate::text::{pair_texts, position, texts};
use crate::url_parts::{parse_url, parsed_url, UrlParts};
use vstd::prelude::*;
use vstd::utf8::is_ascii_chars;

verus! {

broadcast use vstd::string::group_string_axioms;

#[verifier::external_type_specification]
#[verifier::external_body]
#[verifier::reject_recursive_types(T)]
pub struct ExRouter<T>(matchit::Router<T>);

/// The routes that were inserted into a table, oldest first, each with the
/// value it was inserted with.
pub uninterp spec fn table_routes(table: matchit::Router<usize>) -> Seq<(Seq<char>, usize)>;

/// Whether `matchit::Router::insert` takes one more route into a table that
/// holds `routes`.
pub uninterp spec fn insert_accepts(routes: Seq<(Seq<char>, usize)>, route: Seq<char>) -> bool;

/// What `matchit::Router::at` finds for a path in a table that holds `routes`:
/// the value of the matching route and the parameters it binds, by name and
/// in the template's order.
pub uninterp spec fn route_lookup(routes: Seq<(Seq<char>, usize)>, path: Seq<char>) -> Option<
    (usize, Seq<(Seq<char>, Seq<char>)>),
>;

/// The number of colons in a text. Each named parameter of a template starts
/// with one.
pub open spec fn colons(s: Seq<char>) -> nat
    decreases s.len(),
{
    if s.len() == 0 {
        0
    } else {
        colons(s.drop_last()) + if s.last() == ':' {
            1nat
        } else {
            0nat
        }
    }
}

/// The most named parameters that one template may have.
pub const MAX_PARAMETERS: usize = 25;

/// Whether every route of a table is written in ASCII.
pub open spec fn ascii_routes(routes: Seq<(Seq<char>, usize)>) -> bool {
    forall|j: int| 0 <= j < routes.len() ==> is_ascii_chars(#[trigger] routes[j].0)
}

/// Whether every route of a table carries a value below `bound`.
pub open spec fn values_below(routes: Seq<(Seq<char>, usize)>, bound: int) -> bool {
    forall|j: int| 0 <= j < routes.len() ==> (#[trigger] routes[j]).1 < bound
}

/// Calls `matchit::Router::new`.
///
/// Trusted: a new table holds no route.
#[verifier::external_body]
fn new_table() -> (table: matchit::Router<usize>)
    ensures
        table_routes(table) == Seq::<(Seq<char>, usize)>::empty(),
{
    matchit::Router::new()
}

/// Calls `matchit::Router::insert` on a copy of the table and returns the
/// copy where the route was taken.
///
/// Trusted: whether the route is taken depends on the routes in the table and
/// on the new route alone; where it is taken, the copy holds it after the
/// others. Left out are the inputs on which `insert` panics: a template with
/// more than 25 named parameters, and text outside ASCII, which the crate
/// cuts between bytes when it reports a conflict.
#[verifier::external_body]
fn with_route(table: &matchit::Router<usize>, route: &str, value: usize) -> (grown: Option<
    matchit::Router<usize>,
>)
    requires
        is_ascii_chars(route@),
        ascii_routes(table_routes(*table)),
        colons(route@) <= MAX_PARAMETERS,
    ensures
        grown is Some == insert_accepts(table_routes(*table), route@),
        grown matches Some(t) ==> table_routes(t) == table_routes(*table).push((route@, value)),
{
    let mut grown = table.clone();
    match grown.insert(route, value) {
        Ok(()) => Some(grown),
        Err(_) => None,
    }
}

/// Calls `matchit::Router::at` and copies out the value and the parameters
/// of the match.
///
/// Trusted: the answer depends on the routes in the table and on the path
/// alone, and a value that is found is the value of one of the routes.
#[verifier::external_body]
fn lookup_route(table: &matchit::Router<usize>, path: &str) -> (found: Option<
    (usize, Vec<(String, String)>),
>)
    requires
        is_ascii_chars(path@),
        ascii_routes(table_routes(*table)),
    ensures
        match found {
            Some(m) => route_lookup(table_routes(*table), path@) == Some((m.0, pair_texts(m.1@))),
            None => route_lookup(table_routes(*table), path@) is None,
        },
        found matches Some(m) ==> exists|j: int|
            0 <= j < table_routes(*table).len() && (#[trigger] table_routes(*table)[j]).1 == m.0,
{
    match table.at(path) {
        Ok(m) => Some(
            (*m.value, m.params.iter().map(|(k, v)| (k.to_string(), v.to_string())).collect()),
        ),
        Err(_) => None,
    }
}

/// The first value that a list of parameters holds under a name.
pub open spec fn first_value(entries: Seq<(Seq<char>, Seq<char>)>, key: Seq<char>) -> Option<
    Seq<char>,
>
    decreases entries.len(),
{
    if entries.len() == 0 {
        None
    } else if entries[0].0 == key {
        Some(entries[0].1)
    } else {
        first_value(entries.drop_first(), key)
    }
}

/// The parameters that a matched route binds: names and the pieces of the
/// path bound to them, in the template's order.
#[derive(Debug)]
pub struct RouteParams {
    entries: Vec<(String, String)>,
}

impl View for RouteParams {
    type V = Seq<(Seq<char>, Seq<char>)>;

    closed spec fn view(&self) -> Seq<(Seq<char>, Seq<char>)> {
        pair_texts(self.entries@)
    }
}

impl RouteParams {
    /// A list of parameters made of pairs of a name and a value.
    pub fn new(entries: Vec<(String, String)>) -> (params: Self)
        ensures
            params@ == pair_texts(entries@),
    {
        RouteParams { entries }
    }

    /// The number of parameters.
    pub fn len(&self) -> (n: usize)
        ensures
            n == self@.len(),
    {
        self.entries.len()
    }

    /// The name and the value of the parameter at `index`.
    pub fn entry(&self, index: usize) -> (pair: (&str, &str))
        requires
            index < self@.len(),
        ensures
            (pair.0@, pair.1@) == self@[index as int],
    {
        (self.entries[index].0.as_str(), self.entries[index].1.as_str())
    }

    /// The value of the first parameter with the given name.
    pub fn get(&self, key: &str) -> (value: Option<&str>)
        ensures
            match value {
                Some(v) => first_value(self@, key@) == Some(v@),
                None => first_value(self@, key@) is None,
            },
    {
        let wanted = key.to_string();
        let mut i: usize = 0;
        assert(self@.skip(0) =~= self@);
        while i < self.entries.len()
            invariant
                i <= self.entries.len(),
                wanted@ == key@,
                first_value(self@, key@) == first_value(self@.skip(i as int), key@),
            decreases self.entries.len() - i,
        {
            assert(self@.skip(i as int)[0] == self@[i as int]);
            assert(self@.skip(i as int).drop_first() =~= self@.skip(i as int + 1));
            if self.entries[i].0 == wanted {
                return Some(self.entries[i].1.as_str());
            }
            i += 1;
        }
        None
    }
}

/// Why a route is not registered.
#[derive(Debug, Clone, Copy, PartialEq, Eq, Structural)]
pub enum ConfigError {
    /// The pattern is no absolute URL.
    BadPattern,
    /// The pattern is a URL without a host.
    NoHost,
    /// The path template has more named parameters than a template may have.
    TooManyParameters,
    /// The path template is malformed, or conflicts with a template that the
    /// host already has.
    Rejected,
}

/// Why a URL has no route.
#[derive(Debug, Clone, Copy, PartialEq, Eq, Structural)]
pub enum RouteError {
    /// The text is no absolute URL.
    BadUrl,
    /// No table for the URL's host, or no template in it for the URL's path.
    NotFound,
}

/// What a router holds: for each registered host its routes, oldest first,
/// each with the place of its processor; and the processors, in the order in
/// which they were registered.
pub struct RouterView<P> {
    pub tables: Map<Seq<char>, Seq<(Seq<char>, usize)>>,
    pub processors: Seq<P>,
}

/// The route table. `P` is the type of the processors that routes lead to.
pub struct PageRouter<P> {
    hosts: Vec<String>,
    tables: Vec<matchit::Router<usize>>,
    processors: Vec<P>,
}

/// A route that was found: its processor, and what its parameters are bound
/// to.
pub struct RouteMatch<'m, P> {
    pub value: &'m P,
    pub params: RouteParams,
}

impl<P> View for PageRouter<P> {
    type V = RouterView<P>;

    closed spec fn view(&self) -> RouterView<P> {
        RouterView {
            tables: Map::new(
                |h: Seq<char>| texts(self.hosts@).contains(h),
                |h: Seq<char>| table_routes(self.tables@[texts(self.hosts@).index_of(h)]),
            ),
            processors: self.processors@,
        }
    }
}

/// In a list without repetitions, an item is found at its own place.
proof fn found_at_own_place(list: Seq<Seq<char>>, i: int)
    requires
        list.no_duplicates(),
        0 <= i < list.len(),
    ensures
        list.contains(list[i]),
        list.index_of(list[i]) == i,
{
}

/// Counts the colons of an ASCII text.
fn count_colons(s: &str) -> (n: usize)
    requires
        is_ascii_chars(s@),
    ensures
        n == colons(s@),
{
    let bytes = s.as_bytes();
    proof {
        vstd::string::is_ascii_spec_bytes(s);
    }
    let mut n: usize = 0;
    let mut i: usize = 0;
    assert(s@.take(0) =~= Seq::<char>::empty());
    while i < bytes.len()
        invariant
            i <= bytes.len(),
            bytes@.len() == s@.len(),
            is_ascii_chars(s@),
            forall|k: int| 0 <= k < s@.len() ==> bytes@[k] == s@[k] as u8,
            n == colons(s@.take(i as int)),
            n <= i,
        decreases bytes.len() - i,
    {
        assert(s@.take(i as int + 1).drop_last() =~= s@.take(i as int));
        assert(s@.take(i as int + 1).last() == s@[i as int]);
        assert('\0' <= s@[i as int] <= '\u{7f}');
        if bytes[i] == 58u8 {
            n += 1;
        }
        i += 1;
    }
    assert(s@.take(s@.len() as int) =~= s@);
    n
}

impl<P> PageRouter<P> {
    /// The invariant of the representation: one table per host, no host
    /// twice, every route written in ASCII, and every route's value the place
    /// of a processor.
    #[verifier::type_invariant]
    pub closed spec fn wf(&self) -> bool {
        &&& self.hosts@.len() == self.tables@.len()
        &&& texts(self.hosts@).no_duplicates()
        &&& forall|i: int|
            0 <= i < self.tables@.len() ==> ascii_routes(
                table_routes(#[trigger] self.tables@[i]),
            ) && values_below(table_routes(self.tables@[i]), self.processors@.len() as int)
    }

    /// The routes of a host; none where the host has no table.
    pub open spec fn table_for(&self, host: Seq<char>) -> Seq<(Seq<char>, usize)> {
        if self@.tables.contains_key(host) {
            self@.tables[host]
        } else {
            Seq::empty()
        }
    }

    /// Why a pattern cannot be registered, if it cannot.
    pub open spec fn refusal(&self, route: Seq<char>) -> Option<ConfigError> {
        match parsed_url(route) {
            Err(_) => Some(ConfigError::BadPattern),
            Ok(u) => match u.host {
                None => Some(ConfigError::NoHost),
                Some(h) => if colons(u.path) > MAX_PARAMETERS {
                    Some(ConfigError::TooManyParameters)
                } else if !insert_accepts(self.table_for(h), u.path) {
                    Some(ConfigError::Rejected)
                } else {
                    None
                },
            },
        }
    }

    /// What the router holds once a pattern is registered: the pattern's path
    /// is the newest route of its host, and it leads to the new processor.
    pub open spec fn grown(&self, route: Seq<char>, value: P) -> RouterView<P>
        recommends
            self.refusal(route) is None,
    {
        let u = parsed_url(route)->Ok_0;
        let h = u.host->0;
        RouterView {
            tables: self@.tables.insert(
                h,
                self.table_for(h).push((u.path, self@.processors.len() as usize)),
            ),
            processors: self@.processors.push(value),
        }
    }

    /// What a URL leads to: the place of a processor and the parameters that
    /// the route binds, or the reason why there is no route.
    pub open spec fn lookup(&self, url: Seq<char>) -> Result<
        (usize, Seq<(Seq<char>, Seq<char>)>),
        RouteError,
    > {
        match parsed_url(url) {
            Err(_) => Err(RouteError::BadUrl),
            Ok(u) => match u.host {
                None => Err(RouteError::NotFound),
                Some(h) => if !self@.tables.contains_key(h) {
                    Err(RouteError::NotFound)
                } else {
                    match route_lookup(self@.tables[h], u.path) {
                        Some(m) => Ok(m),
                        None => Err(RouteError::NotFound),
                    }
                },
            },
        }
    }

    /// A router without routes.
    pub fn new() -> (router: Self)
        ensures
            router@.tables == Map::<Seq<char>, Seq<(Seq<char>, usize)>>::empty(),
            router@.processors == Seq::<P>::empty(),
    {
        let router = PageRouter { hosts: Vec::new(), tables: Vec::new(), processors: Vec::new() };
        assert(router@.tables =~= Map::<Seq<char>, Seq<(Seq<char>, usize)>>::empty());
        router
    }

    /// The number of registered routes.
    pub fn len(&self) -> (n: usize)
        ensures
            n == self@.processors.len(),
    {
        self.processors.len()
    }

    /// Registers a processor under a pattern: a full URL whose host names the
    /// table and whose path is the template. The pattern must be one that can
    /// be registered; [`PageRouter::try_insert`] takes any, and is the one to
    /// call where nothing has shown that the pattern can be registered.
    pub fn insert(self, route: &str, value: P) -> (out: Self)
        requires
            self.refusal(route@) is None,
        ensures
            out@ == self.grown(route@, value),
    {
        proof {
            use_type_invariant(&self);
        }
        let ghost before = self;
        let PageRouter { hosts, tables, processors } = self;
        let mut hosts = hosts;
        let mut tables = tables;
        let mut processors = processors;
        if let Ok(u) = parse_url(route) {
            let UrlParts { host, path, .. } = u;
            if let Some(h) = host {
                let index = processors.len();
                match position(&hosts, &h) {
                    Some(i) => {
                        proof {
                            assert(texts(before.hosts@)[i as int] == h@);
                            found_at_own_place(texts(before.hosts@), i as int);
                        }
                        if let Some(t) = with_route(&tables[i], path.as_str(), index) {
                            tables.set(i, t);
                            processors.push(value);
                            let out = PageRouter { hosts, tables, processors };
                            proof {
                                assert forall|g: Seq<char>| texts(out.hosts@).contains(g) implies (
                                #[trigger] out@.tables[g]) == before.grown(route@, value).tables[g] by {
                                    let j = texts(out.hosts@).index_of(g);
                                    if g != h@ {
                                        assert(j != i);
                                    }
                                }
                                assert(out@.tables =~= before.grown(route@, value).tables);
                            }
                            return out;
                        }
                    },
                    None => {
                        let empty = new_table();
                        if let Some(t) = with_route(&empty, path.as_str(), index) {
                            hosts.push(h);
                            tables.push(t);
                            processors.push(value);
                            proof {
                                let old_hosts = texts(before.hosts@);
                                let new_hosts = texts(hosts@);
                                assert(new_hosts =~= old_hosts.push(h@));
                                assert(new_hosts.no_duplicates());
                            }
                            let out = PageRouter { hosts, tables, processors };
                            proof {
                                let old_hosts = texts(before.hosts@);
                                let new_hosts = texts(out.hosts@);
                                let last = old_hosts.len() as int;
                                assert(new_hosts[last] == h@);
                                found_at_own_place(new_hosts, last);
                                assert forall|g: Seq<char>| new_hosts.contains(g) implies (
                                #[trigger] out@.tables[g]) == before.grown(route@, value).tables[g] by {
                                    let j = new_hosts.index_of(g);
                                    if g != h@ {
                                        assert(j != last);
                                        assert(old_hosts[j] == g);
                                        found_at_own_place(old_hosts, j);
                                    }
                                }
                                assert forall|g: Seq<char>|
                                    before.grown(route@, value).tables.contains_key(
                                        g,
                                    ) implies new_hosts.contains(g) by {
                                    if g != h@ {
                                        let j = old_hosts.index_of(g);
                                        assert(new_hosts[j] == g);
                                    }
                                }
                                assert(out@.tables =~= before.grown(route@, value).tables);
                            }
                            return out;
                        }
                    },
                }
            }
        }
        // Not reached with a pattern that can be registered.
        PageRouter { hosts, tables, processors }
    }

    /// Registers a processor under a pattern, or says why the pattern cannot
    /// be registered. Nothing is left of the router where it cannot.
    ///
    /// The pattern is tried on a copy of its host's table first, so a table
    /// never sees a route that it does not take.
    pub fn try_insert(self, route: &str, value: P) -> (r: Result<Self, ConfigError>)
        ensures
            match r {
                Ok(out) => self.refusal(route@) is None && out@ == self.grown(route@, value),
                Err(e) => self.refusal(route@) == Some(e),
            },
    {
        proof {
            use_type_invariant(&self);
        }
        match parse_url(route) {
            Err(_) => Err(ConfigError::BadPattern),
            Ok(u) => {
                let UrlParts { host, path, .. } = u;
                match host {
                    None => Err(ConfigError::NoHost),
                    Some(h) => {
                        if count_colons(path.as_str()) > MAX_PARAMETERS {
                            Err(ConfigError::TooManyParameters)
                        } else {
                            let index = self.processors.len();
                            let taken = match position(&self.hosts, &h) {
                                Some(i) => {
                                    proof {
                                        assert(texts(self.hosts@)[i as int] == h@);
                                        found_at_own_place(texts(self.hosts@), i as int);
                                    }
                                    with_route(&self.tables[i], path.as_str(), index).is_some()
                                },
                                None => with_route(&new_table(), path.as_str(), index).is_some(),
                            };
                            if taken {
                                Ok(self.insert(route, value))
                            } else {
                                Err(ConfigError::Rejected)
                            }
                        }
                    },
                }
            },
        }
    }

    /// The processor that a URL leads to, with the parameters that its route
    /// binds.
    pub fn at<'m>(&'m self, url: &str) -> (r: Result<RouteMatch<'m, P>, RouteError>)
        ensures
            match r {
                Ok(m) => self.lookup(url@) matches Ok(found) && found.1 == m.params@ && found.0
                    < self@.processors.len() && *m.value == self@.processors[found.0 as int],
                Err(e) => self.lookup(url@) matches Err(why) && why == e,
            },
    {
        proof {
            use_type_invariant(self);
        }
        match parse_url(url) {
            Err(_) => Err(RouteError::BadUrl),
            Ok(u) => {
                let UrlParts { host, path, .. } = u;
                match host {
                    None => Err(RouteError::NotFound),
                    Some(h) => match position(&self.hosts, &h) {
                        None => Err(RouteError::NotFound),
                        Some(i) => {
                            proof {
                                assert(texts(self.hosts@)[i as int] == h@);
                                found_at_own_place(texts(self.hosts@), i as int);
                            }
                            match lookup_route(&self.tables[i], path.as_str()) {
                                None => Err(RouteError::NotFound),
                                Some((k, entries)) => Ok(
                                    RouteMatch {
                                        value: &self.processors[k],
                                        params: RouteParams::new(entries),
                                    },
                                ),
                            }
                        },
                    },
                }
            },
        }
    }

    /// Whether a URL has a route.
    pub fn matches(&self, url: &str) -> (found: bool)
        ensures
            found == self.lookup(url@) is Ok,
    {
        self.at(url).is_ok()
    }
}

/// A URL whose host has no table has no route, whatever the other hosts
/// hold.
pub proof fn unregistered_host_has_no_route<P>(
    router: PageRouter<P>,
    url: Seq<char>,
    host: Seq<char>,
)
    requires
        parsed_url(url) matches Ok(u) && u.host == Some(host),
        !router@.tables.contains_key(host),
    ensures
        router.lookup(url) == Err::<(usize, Seq<(Seq<char>, Seq<char>)>), _>(RouteError::NotFound),
{
}

/// A template that is registered under one host does not serve another: a
/// URL of a host without a table has no route after the registration either.
pub proof fn route_of_one_host_does_not_serve_another<P>(
    router: PageRouter<P>,
    route: Seq<char>,
    value: P,
    grown: PageRouter<P>,
    url: Seq<char>,
    host: Seq<char>,
)
    requires
        router.refusal(route) is None,
        grown@ == router.grown(route, value),
        parsed_url(url) matches Ok(u) && u.host == Some(host),
        parsed_url(route)->Ok_0.host != Some(host),
        !router@.tables.contains_key(host),
    ensures
        grown.lookup(url) == Err::<(usize, Seq<(Seq<char>, Seq<char>)>), _>(RouteError::NotFound),
{
}

/// Registering a route under one host changes nothing for the URLs of the
/// other hosts.
pub proof fn other_hosts_keep_their_routes<P>(
    router: PageRouter<P>,
    route: Seq<char>,
    value: P,
    grown: PageRouter<P>,
    url: Seq<char>,
)
    requires
        router.refusal(route) is None,
        grown@ == router.grown(route, value),
        parsed_url(url) matches Ok(u) ==> u.host != parsed_url(route)->Ok_0.host,
    ensures
        grown.lookup(url) == router.lookup(url),
{
}

} // verus!
