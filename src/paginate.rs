use vstd::prelude::*;
use vstd::string::StringExecFns;

use crate::text::{decimal, push_decimal};

verus! {

/// Where the run takes its names from.
#[derive(Clone, Copy, Debug, PartialEq, Eq, Structural)]
pub enum NameSource {
    /// Walk the portal; write the names to the cache afterwards if asked.
    RemoteFetch { cache_on_success: bool },
    /// Read the names from the cache.
    CachedRead,
}

/// The source for the two switches of a run: reading the cache wins over
/// the portal, and the second switch only matters for the portal.
pub fn select_source(use_cache: bool, create_cache: bool) -> (r: NameSource)
    ensures
        use_cache ==> r == NameSource::CachedRead,
        !use_cache ==> r == (NameSource::RemoteFetch { cache_on_success: create_cache }),
{
    if use_cache {
        NameSource::CachedRead
    } else {
        NameSource::RemoteFetch { cache_on_success: create_cache }
    }
}


/// The address of page `page` of the portal's listing.
pub open spec fn page_url_text(page: nat) -> Seq<char> {
    seq![
        'h', 't', 't', 'p', 's', ':', '/', '/', 'm', 'o', 'd', 's', '.', 'f', 'a', 'c', 't', 'o',
        'r', 'i', 'o', '.', 'c', 'o', 'm', '/', 'a', 'p', 'i', '/', 'm', 'o', 'd', 's', '?', 'p',
        'a', 'g', 'e', '=',
    ] + decimal(page)
}

/// The address to request page `page` from.
pub fn page_url(page: usize) -> (r: String)
    ensures
        r@ == page_url_text(page as nat),
{
    let mut s = String::from_str("https://mods.factorio.com/api/mods?page=");
    proof { reveal_strlit("https://mods.factorio.com/api/mods?page="); }
    push_decimal(&mut s, page as u64);
    s
}

/// One page of the portal's listing, as the server reported it.
#[derive(Debug)]
pub struct PortalPage {
    /// The number of the page that the server says it sent.
    pub page: usize,
    /// The total number of pages that the server reports.
    pub page_count: usize,
    /// The names of the items on the page, in order.
    pub names: Vec<String>,
}

/// Why a walk over the portal stops short.
#[derive(Clone, Copy, Debug, PartialEq, Eq, Structural)]
pub enum PageError {
    /// The server sent another page than the one requested.
    Inconsistent { requested: usize, returned: usize },
    /// The next page number would not fit in a `usize`.
    TooManyPages,
}

/// What the walk asks for after a page.
#[derive(Clone, Copy, Debug, PartialEq, Eq, Structural)]
pub enum Step {
    /// Request this page next.
    Fetch(usize),
    /// The walk is over; write the names to the cache first if `write_cache`.
    Finished { write_cache: bool },
}

/// The page count that a walk goes by once it has received a page
/// reporting `page_count`: the count recorded before, if any.
pub open spec fn recorded_total(total: Option<usize>, page_count: usize) -> usize {
    match total {
        Some(t) => t,
        None => page_count,
    }
}

/// The page to request after page `current` has come in, where the walk
/// goes by the page count `total`; `None` once `current` is that count.
pub open spec fn next_request(current: nat, total: nat) -> Option<nat> {
    if current == total {
        None
    } else {
        Some(current + 1)
    }
}

/// The pages that a walk requests from page `current` on, at most `fuel`
/// of them, when the server answers each request for a page `k` with page
/// `k` and reports `count(k)` pages; `total` is the count recorded so far.
pub open spec fn requests_from(
    current: nat,
    total: Option<usize>,
    count: spec_fn(nat) -> usize,
    fuel: nat,
) -> Seq<nat>
    decreases fuel,
{
    if fuel == 0 {
        seq![]
    } else {
        let t = recorded_total(total, count(current));
        match next_request(current, t as nat) {
            None => seq![current],
            Some(n) => seq![current] + requests_from(n, Some(t), count, (fuel - 1) as nat),
        }
    }
}

proof fn lemma_requests_rest(current: nat, t: usize, count: spec_fn(nat) -> usize, fuel: nat)
    requires
        1 <= current <= t,
        fuel >= t - current + 1,
    ensures
        requests_from(current, Some(t), count, fuel) == Seq::new(
            (t - current + 1) as nat,
            |i: int| (current + i) as nat,
        ),
    decreases t - current,
{
    if current < t {
        lemma_requests_rest(current + 1, t, count, (fuel - 1) as nat);
    }
    assert(requests_from(current, Some(t), count, fuel) =~= Seq::new(
        (t - current + 1) as nat,
        |i: int| (current + i) as nat,
    ));
}

/// A walk against a server that answers each request with the page asked
/// for requests pages 1, 2, ..., N in that order, each once, and then
/// stops, where N is the page count that the first page reports: no
/// request follows page N, whatever the later pages report.
pub proof fn lemma_walk_requests_each_page(count: spec_fn(nat) -> usize, fuel: nat)
    requires
        count(1) >= 1,
        fuel >= count(1),
    ensures
        requests_from(1, None, count, fuel) == Seq::new(count(1) as nat, |i: int| (i + 1) as nat),
{
    let t = count(1);
    if t > 1 {
        lemma_requests_rest(2, t, count, (fuel - 1) as nat);
    }
    assert(requests_from(1, None, count, fuel) =~= Seq::new(t as nat, |i: int| (i + 1) as nat));
}

/// A walk over the portal's pages, from page 1 to the page count that the
/// first page reports.
#[derive(Debug)]
pub struct Paginator {
    /// The page requested and not yet received.
    pub current: usize,
    /// The page count, from the first page received.
    pub total: Option<usize>,
    /// The names received so far, in order.
    pub names: Vec<String>,
    /// Whether the names go to the cache once the walk is over.
    pub cache_on_success: bool,
    /// Whether the last page has been received.
    pub done: bool,
}

impl Paginator {
    /// The page numbers start at 1.
    pub open spec fn wf(&self) -> bool {
        self.current >= 1
    }

    /// The walk is over once the page numbered by the recorded page count
    /// has been received.
    pub open spec fn finished(&self) -> bool {
        self.done
    }

    /// A walk that requests page 1 first and has seen nothing yet.
    pub fn new(cache_on_success: bool) -> (r: Paginator)
        ensures
            r.wf(),
            r.current == 1,
            r.total is None,
            r.names@.len() == 0,
            r.cache_on_success == cache_on_success,
            !r.finished(),
    {
        Paginator { current: 1, total: None, names: Vec::new(), cache_on_success, done: false }
    }

    /// Whether the walk is over.
    pub fn is_finished(&self) -> (r: bool)
        ensures
            r == self.finished(),
    {
        self.done
    }

    /// Takes in the server's answer to the request for `self.current`.
    /// A page with another number stops the walk and changes nothing; else
    /// its names are added, the first page's count is recorded, and the
    /// walk ends where the page is the recorded count or asks for the next.
    pub fn receive(&mut self, page: PortalPage) -> (r: Result<Step, PageError>)
        requires
            old(self).wf(),
            !old(self).finished(),
        ensures
            final(self).wf(),
            final(self).cache_on_success == old(self).cache_on_success,
            page.page != old(self).current ==> r == Err::<Step, PageError>(
                PageError::Inconsistent { requested: old(self).current, returned: page.page },
            ) && *final(self) == *old(self),
            page.page == old(self).current ==> {
                let total = recorded_total(old(self).total, page.page_count);
                match next_request(old(self).current as nat, total as nat) {
                    None => {
                        &&& r == Ok::<Step, PageError>(
                            Step::Finished { write_cache: old(self).cache_on_success },
                        )
                        &&& final(self).finished()
                        &&& final(self).current == old(self).current
                        &&& final(self).total == Some(total)
                        &&& final(self).names@ == old(self).names@ + page.names@
                    },
                    Some(n) => if n > usize::MAX {
                        r == Err::<Step, PageError>(PageError::TooManyPages) && *final(self)
                            == *old(self)
                    } else {
                        &&& r == Ok::<Step, PageError>(Step::Fetch(n as usize))
                        &&& !final(self).finished()
                        &&& final(self).current == n
                        &&& final(self).total == Some(total)
                        &&& final(self).names@ == old(self).names@ + page.names@
                    },
                }
            },
    {
        if page.page != self.current {
            return Err(PageError::Inconsistent { requested: self.current, returned: page.page });
        }
        let total = match self.total {
            Some(t) => t,
            None => page.page_count,
        };
        if self.current != total && self.current == usize::MAX {
            return Err(PageError::TooManyPages);
        }
        let mut names = page.names;
        self.names.append(&mut names);
        self.total = Some(total);
        if self.current == total {
            self.done = true;
            Ok(Step::Finished { write_cache: self.cache_on_success })
        } else {
            self.current = self.current + 1;
            Ok(Step::Fetch(self.current))
        }
    }
}

} // verus!
