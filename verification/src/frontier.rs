//! The frontier of one worker: the URLs still to fetch, and those already
//! scheduled.
//!
//! URLs leave the frontier at the end they were pushed on, so the traversal
//! is depth-first. A URL is marked as visited at the moment it is pushed, not
//! when it is popped: nothing is ever pending twice.
use crate::text::{holds, texts};
use vstd::prelude::*;

verus! {

broadcast use vstd::string::group_string_axioms;

/// What a frontier holds: the pending URLs, the next one to fetch last, and
/// the set of the URLs that were ever scheduled.
pub struct FrontierView {
    pub pending: Seq<Seq<char>>,
    pub visited: Set<Seq<char>>,
}

impl FrontierView {
    /// No URL is pending twice, and every pending URL is marked as visited.
    pub open spec fn wf(self) -> bool {
        &&& self.pending.no_duplicates()
        &&& forall|i: int| 0 <= i < self.pending.len() ==> self.visited.contains(#[trigger] self.pending[i])
    }

    /// The frontier after one link was offered: a link that was never
    /// scheduled is marked and pushed, any other changes nothing.
    pub open spec fn offer_one(self, link: Seq<char>) -> FrontierView {
        if self.visited.contains(link) {
            self
        } else {
            FrontierView { pending: self.pending.push(link), visited: self.visited.insert(link) }
        }
    }

    /// The frontier after a list of links was offered, one after the other.
    pub open spec fn offer(self, links: Seq<Seq<char>>) -> FrontierView
        decreases links.len(),
    {
        if links.len() == 0 {
            self
        } else {
            self.offer(links.drop_last()).offer_one(links.last())
        }
    }
}

/// The pending stack and the visited set of one worker.
pub struct Frontier {
    pending: Vec<String>,
    visited: Vec<String>,
}

impl View for Frontier {
    type V = FrontierView;

    closed spec fn view(&self) -> FrontierView {
        FrontierView { pending: texts(self.pending@), visited: texts(self.visited@).to_set() }
    }
}

/// The items of a list with one more are the items of the list and that one.
proof fn set_of_push(list: Seq<Seq<char>>, item: Seq<char>)
    ensures
        list.push(item).to_set() == list.to_set().insert(item),
{
    let grown = list.push(item);
    assert forall|x: Seq<char>| grown.to_set().contains(x) <==> list.to_set().insert(item).contains(
        x,
    ) by {
        if grown.contains(x) {
            let k = choose|k: int| 0 <= k < grown.len() && grown[k] == x;
            if k < list.len() {
                assert(list[k] == x);
            }
        }
        if list.contains(x) {
            let k = choose|k: int| 0 <= k < list.len() && list[k] == x;
            assert(grown[k] == x);
        }
        assert(grown[list.len() as int] == item);
    }
    assert(grown.to_set() =~= list.to_set().insert(item));
}

impl Frontier {
    /// The invariant of the representation: what the view promises, and the
    /// visited set kept as a list without repetitions.
    pub closed spec fn wf(&self) -> bool {
        &&& texts(self.visited@).no_duplicates()
        &&& self@.wf()
    }

    /// A well-formed frontier has a well-formed view.
    pub proof fn wf_of_view(&self)
        requires
            self.wf(),
        ensures
            self@.wf(),
    {
    }

    /// A frontier with nothing pending and nothing visited.
    pub fn new() -> (frontier: Self)
        ensures
            frontier.wf(),
            frontier@.pending == Seq::<Seq<char>>::empty(),
            frontier@.visited == Set::<Seq<char>>::empty(),
    {
        let frontier = Frontier { pending: Vec::new(), visited: Vec::new() };
        assert(texts(frontier.pending@) =~= Seq::<Seq<char>>::empty());
        assert(texts(frontier.visited@) =~= Seq::<Seq<char>>::empty());
        assert(frontier@.visited =~= Set::<Seq<char>>::empty());
        frontier
    }

    /// The frontier that a crawl starts from: the seed is pending, and
    /// visited.
    pub fn seeded(seed: &str) -> (frontier: Self)
        ensures
            frontier.wf(),
            frontier@.pending == seq![seed@],
            frontier@.visited == set![seed@],
    {
        let mut pending: Vec<String> = Vec::new();
        let mut visited: Vec<String> = Vec::new();
        pending.push(seed.to_string());
        visited.push(seed.to_string());
        proof {
            assert(texts(pending@) =~= seq![seed@]);
            assert(texts(visited@) =~= seq![seed@]);
            set_of_push(Seq::<Seq<char>>::empty(), seed@);
            assert(Seq::<Seq<char>>::empty().push(seed@) =~= seq![seed@]);
            assert(Seq::<Seq<char>>::empty().to_set() =~= Set::<Seq<char>>::empty());
            assert(texts(visited@).to_set() =~= set![seed@]);
        }
        Frontier { pending, visited }
    }

    /// The number of pending URLs.
    pub fn len(&self) -> (n: usize)
        ensures
            n == self@.pending.len(),
    {
        self.pending.len()
    }

    /// Whether nothing is pending.
    pub fn is_empty(&self) -> (empty: bool)
        ensures
            empty == (self@.pending.len() == 0),
    {
        self.pending.len() == 0
    }

    /// Whether a URL was ever scheduled.
    pub fn has_visited(&self, url: &str) -> (seen: bool)
        ensures
            seen == self@.visited.contains(url@),
    {
        let wanted = url.to_string();
        holds(&self.visited, &wanted)
    }

    /// Takes the URL that was pushed last. What was visited stays visited.
    pub fn pop(&mut self) -> (url: Option<String>)
        requires
            old(self).wf(),
        ensures
            final(self).wf(),
            final(self)@.visited == old(self)@.visited,
            match url {
                Some(u) => old(self)@.pending.len() > 0 && u@ == old(self)@.pending.last()
                    && final(self)@.pending == old(self)@.pending.drop_last(),
                None => old(self)@.pending.len() == 0 && final(self)@.pending == old(self)@.pending,
            },
    {
        let ghost before = texts(self.pending@);
        let url = self.pending.pop();
        proof {
            if before.len() > 0 {
                assert(texts(self.pending@) =~= before.drop_last());
            } else {
                assert(texts(self.pending@) =~= before);
            }
        }
        url
    }

    /// Drops everything that is pending. What was visited stays visited.
    pub fn clear(&mut self)
        requires
            old(self).wf(),
        ensures
            final(self).wf(),
            final(self)@.pending == Seq::<Seq<char>>::empty(),
            final(self)@.visited == old(self)@.visited,
    {
        self.pending.clear();
        assert(texts(self.pending@) =~= Seq::<Seq<char>>::empty());
    }

    /// Offers one link: it is pushed, and marked as visited, unless it was
    /// ever scheduled before.
    pub fn offer_one(&mut self, link: String)
        requires
            old(self).wf(),
        ensures
            final(self).wf(),
            final(self)@ == old(self)@.offer_one(link@),
    {
        if !holds(&self.visited, &link) {
            let ghost pending = texts(self.pending@);
            let ghost visited = texts(self.visited@);
            proof {
                set_of_push(visited, link@);
                assert forall|i: int| 0 <= i < pending.len() implies pending[i] != link@ by {
                    assert(visited.to_set().contains(pending[i]));
                }
            }
            self.visited.push(link.clone());
            assert(texts(self.visited@) =~= visited.push(link@));
            self.pending.push(link);
            assert(texts(self.pending@) =~= pending.push(link@));
        }
    }

    /// Offers links in their order: each is pushed, and marked as visited,
    /// unless it was ever scheduled before, be it earlier in the same list.
    pub fn offer(&mut self, links: Vec<String>)
        requires
            old(self).wf(),
        ensures
            final(self).wf(),
            final(self)@ == old(self)@.offer(texts(links@)),
    {
        let ghost start = self@;
        let ghost all = texts(links@);
        let mut i: usize = 0;
        assert(all.take(0) =~= Seq::<Seq<char>>::empty());
        while i < links.len()
            invariant
                i <= links.len(),
                all == texts(links@),
                self.wf(),
                self@ == start.offer(all.take(i as int)),
            decreases links.len() - i,
        {
            assert(all.take(i as int + 1).drop_last() =~= all.take(i as int));
            assert(all.take(i as int + 1).last() == links@[i as int]@);
            self.offer_one(links[i].clone());
            i += 1;
        }
        assert(all.take(links.len() as int) =~= all);
    }
}

/// Offering keeps a frontier well formed.
pub proof fn offer_keeps_wf(frontier: FrontierView, links: Seq<Seq<char>>)
    requires
        frontier.wf(),
    ensures
        frontier.offer(links).wf(),
    decreases links.len(),
{
    if links.len() > 0 {
        offer_keeps_wf(frontier, links.drop_last());
    }
}

/// Offering takes nothing away: what was pending stays pending, below what
/// is pushed, and what was visited stays visited.
pub proof fn offer_only_adds(frontier: FrontierView, links: Seq<Seq<char>>)
    ensures
        frontier.pending.is_prefix_of(frontier.offer(links).pending),
        frontier.visited.subset_of(frontier.offer(links).visited),
    decreases links.len(),
{
    if links.len() > 0 {
        offer_only_adds(frontier, links.drop_last());
    }
}

/// After an offer every offered link is visited, and nothing else is new.
pub proof fn offer_marks_the_links(frontier: FrontierView, links: Seq<Seq<char>>)
    ensures
        frontier.offer(links).visited == frontier.visited.union(links.to_set()),
    decreases links.len(),
{
    if links.len() == 0 {
        assert(links.to_set() =~= Set::<Seq<char>>::empty());
        assert(frontier.visited.union(links.to_set()) =~= frontier.visited);
    } else {
        let init = links.drop_last();
        offer_marks_the_links(frontier, init);
        assert(init.push(links.last()) =~= links);
        set_of_push(init, links.last());
        assert(frontier.offer(links).visited =~= frontier.visited.union(links.to_set()));
    }
}

/// A link that is offered several times is pending once: if it was never
/// scheduled before, it is pending after the offer, and nothing is ever
/// pending twice.
pub proof fn offered_link_is_pending_once(
    frontier: FrontierView,
    links: Seq<Seq<char>>,
    link: Seq<char>,
)
    requires
        frontier.wf(),
        links.contains(link),
        !frontier.visited.contains(link),
    ensures
        frontier.offer(links).pending.contains(link),
        frontier.offer(links).pending.no_duplicates(),
        frontier.offer(links).pending.to_multiset().count(link) == 1,
    decreases links.len(),
{
    offer_keeps_wf(frontier, links);
    let init = links.drop_last();
    let before = frontier.offer(init);
    let after = frontier.offer(links);
    if links.last() == link {
        if before.visited.contains(link) {
            offer_marks_the_links(frontier, init);
            assert(init.contains(link));
            offered_link_is_pending_once(frontier, init, link);
        } else {
            assert(after.pending[before.pending.len() as int] == link);
        }
    } else {
        let k = choose|k: int| 0 <= k < links.len() && links[k] == link;
        assert(init[k] == link);
        offered_link_is_pending_once(frontier, init, link);
        let j = choose|j: int| 0 <= j < before.pending.len() && before.pending[j] == link;
        assert(after == before.offer_one(links.last()));
        assert(after.pending[j] == link);
    }
    after.pending.lemma_multiset_has_no_duplicates();
    after.pending.to_multiset_ensures();
}

/// A link that was scheduled before is not pushed again.
pub proof fn visited_link_is_not_pushed(frontier: FrontierView, link: Seq<char>)
    requires
        frontier.visited.contains(link),
    ensures
        frontier.offer_one(link) == frontier,
{
}

/// Links that are new and differ from each other are pushed in their order,
/// on top of what was pending: the last of them is the next to be popped.
pub proof fn fresh_links_are_pushed_in_order(frontier: FrontierView, links: Seq<Seq<char>>)
    requires
        links.no_duplicates(),
        forall|i: int| 0 <= i < links.len() ==> !frontier.visited.contains(#[trigger] links[i]),
    ensures
        frontier.offer(links).pending == frontier.pending + links,
    decreases links.len(),
{
    if links.len() == 0 {
        assert(frontier.pending + links =~= frontier.pending);
    } else {
        let init = links.drop_last();
        fresh_links_are_pushed_in_order(frontier, init);
        offer_marks_the_links(frontier, init);
        if init.contains(links.last()) {
            let k = choose|k: int| 0 <= k < init.len() && init[k] == links.last();
            assert(links[k] == links[links.len() - 1]);
        }
        assert((frontier.pending + init).push(links.last()) =~= frontier.pending + links);
    }
}

} // verus!
