//! The depth-bounded crawl schedule. A crawl goes level by level: every URL of
//! the frontier at one depth is fetched (by the caller, all of them at once),
//! the links of each fetched page make the frontier of the next depth, and the
//! crawl ends past the maximum depth or when a frontier is empty. A failed
//! fetch or a malformed link ends only its own branch, and makes the crawl fail.

use vstd::prelude::*;
use crate::token::Token;
use crate::web_url::WebUrl;
use crate::links::{get_links, extracted_links, urls_view};

verus! {

/// Why a branch of a crawl failed.
#[derive(Clone, Debug)]
pub enum CrawlError {
    /// The page could not be fetched; the fetcher's message.
    Fetch(String),
    /// The page holds a link reference that is no URL; the reference.
    MalformedLink(String),
}

/// A crawl failure over views.
pub enum Failure {
    Fetch(Seq<char>),
    MalformedLink(Seq<char>),
}

impl View for CrawlError {
    type V = Failure;

    open spec fn view(&self) -> Failure {
        match self {
            CrawlError::Fetch(m) => Failure::Fetch(m@),
            CrawlError::MalformedLink(h) => Failure::MalformedLink(h@),
        }
    }
}

pub open spec fn failure_view(f: Option<CrawlError>) -> Option<Failure> {
    match f {
        Some(e) => Some(e@),
        None => None,
    }
}

/// A fetched page over views: its tokens, or the fetcher's message.
pub open spec fn page_view(p: Result<Vec<Token>, String>) -> Result<Seq<Token>, Seq<char>> {
    match p {
        Ok(t) => Ok(t@),
        Err(m) => Err(m@),
    }
}

pub open spec fn pages_view(ps: Seq<Result<Vec<Token>, String>>) -> Seq<
    Result<Seq<Token>, Seq<char>>,
> {
    ps.map_values(|p: Result<Vec<Token>, String>| page_view(p))
}

/// One branch: the links of the page fetched for `url`, or why it failed.
pub open spec fn branch(url: Seq<char>, page: Result<Seq<Token>, Seq<char>>) -> Result<
    Seq<Seq<char>>,
    Failure,
> {
    match page {
        Err(m) => Err(Failure::Fetch(m)),
        Ok(toks) => match extracted_links(url, toks) {
            Ok(links) => Ok(links),
            Err(h) => Err(Failure::MalformedLink(h)),
        },
    }
}

/// The first `n` branches of a level: the links that they found, in order,
/// and the first failure among them.
pub open spec fn level(
    urls: Seq<Seq<char>>,
    pages: Seq<Result<Seq<Token>, Seq<char>>>,
    n: int,
) -> (Seq<Seq<char>>, Option<Failure>)
    decreases n,
{
    if n <= 0 {
        (Seq::empty(), None)
    } else {
        let (found, first) = level(urls, pages, n - 1);
        match branch(urls[n - 1], pages[n - 1]) {
            Ok(links) => (found + links, first),
            Err(e) => (found, if first is Some {
                first
            } else {
                Some(e)
            }),
        }
    }
}

/// The state of a crawl over views.
pub struct CrawlView {
    pub max: nat,
    pub depth: nat,
    /// The URLs to fetch at `depth`; empty once the crawl is done.
    pub frontier: Seq<Seq<char>>,
    /// The first failure met so far.
    pub failure: Option<Failure>,
    pub done: bool,
}

pub open spec fn well_formed(v: CrawlView) -> bool {
    &&& v.done ==> v.frontier.len() == 0
    &&& !v.done ==> v.depth <= v.max && v.frontier.len() > 0
}

/// A crawl in progress.
pub struct Crawl {
    max: u8,
    depth: u8,
    frontier: Vec<WebUrl>,
    failure: Option<CrawlError>,
    done: bool,
}

impl View for Crawl {
    type V = CrawlView;

    closed spec fn view(&self) -> CrawlView {
        CrawlView {
            max: self.max as nat,
            depth: self.depth as nat,
            frontier: urls_view(self.frontier@),
            failure: failure_view(self.failure),
            done: self.done,
        }
    }
}

/// Starts a crawl of `pages` at depth `current`, going no deeper than `max`.
/// Past the maximum depth, or with nothing to fetch, the crawl is done at once
/// and has succeeded.
pub fn crawl(pages: Vec<WebUrl>, current: u8, max: u8) -> (c: Crawl)
    ensures
        well_formed(c@),
        c@.max == max,
        c@.failure is None,
        c@.done == (current > max || pages@.len() == 0),
        !c@.done ==> c@.depth == current && c@.frontier == urls_view(pages@),
{
    if current > max || pages.len() == 0 {
        let c = Crawl { max, depth: current, frontier: Vec::new(), failure: None, done: true };
        assert(urls_view(c.frontier@) =~= Seq::<Seq<char>>::empty());
        c
    } else {
        Crawl { max, depth: current, frontier: pages, failure: None, done: false }
    }
}

impl Crawl {
    /// The URLs to fetch now, at the current depth.
    pub fn frontier(&self) -> (r: &Vec<WebUrl>)
        ensures
            urls_view(r@) == self@.frontier,
    {
        &self.frontier
    }

    /// The depth of the current frontier.
    pub fn depth(&self) -> (r: u8)
        ensures
            r == self@.depth,
    {
        self.depth
    }

    /// Whether nothing is left to fetch.
    pub fn is_done(&self) -> (r: bool)
        ensures
            r == self@.done,
    {
        self.done
    }

    /// Success, or the first failure met so far.
    pub fn outcome(&self) -> (r: Result<(), CrawlError>)
        ensures
            match r {
                Ok(_) => self@.failure is None,
                Err(e) => self@.failure == Some(e@),
            },
    {
        match &self.failure {
            None => Ok(()),
            Some(e) => Err(e.duplicate()),
        }
    }

    /// Takes the pages fetched for the frontier, one for each of its URLs in
    /// order. The links of each page make the next frontier, one depth deeper;
    /// a failed fetch or a malformed link fails its branch alone. The crawl is
    /// done when the next depth would pass the maximum or finds nothing.
    pub fn on_level_fetched(&mut self, pages: Vec<Result<Vec<Token>, String>>)
        requires
            well_formed(old(self)@),
            !old(self)@.done,
            pages@.len() == old(self)@.frontier.len(),
        ensures
            ({
                let (found, first) = level(
                    old(self)@.frontier,
                    pages_view(pages@),
                    pages@.len() as int,
                );
                &&& well_formed(final(self)@)
                &&& final(self)@.max == old(self)@.max
                &&& final(self)@.failure == if old(self)@.failure is Some {
                    old(self)@.failure
                } else {
                    first
                }
                &&& if old(self)@.depth < old(self)@.max && found.len() > 0 {
                    &&& !final(self)@.done
                    &&& final(self)@.depth == old(self)@.depth + 1
                    &&& final(self)@.frontier == found
                } else {
                    final(self)@.done
                }
            }),
    {
        let ghost urls = urls_view(self.frontier@);
        let ghost pv = pages_view(pages@);
        let mut next: Vec<WebUrl> = Vec::new();
        let mut first: Option<CrawlError> = None;
        let mut i: usize = 0;
        assert(urls_view(next@) =~= Seq::<Seq<char>>::empty());
        while i < pages.len()
            invariant
                i <= pages@.len(),
                pages@.len() == self.frontier@.len(),
                urls == urls_view(self.frontier@),
                pv == pages_view(pages@),
                (urls_view(next@), failure_view(first)) == level(urls, pv, i as int),
            decreases pages@.len() - i,
        {
            let url = &self.frontier[i];
            assert(urls[i as int] == url@);
            assert(pv[i as int] == page_view(pages@[i as int]));
            match &pages[i] {
                Err(msg) => {
                    if first.is_none() {
                        first = Some(CrawlError::Fetch(msg.clone()));
                    }
                },
                Ok(toks) => {
                    match get_links(url, toks) {
                        Ok(mut links) => {
                            let ghost before = next@;
                            let ghost added = links@;
                            next.append(&mut links);
                            assert(urls_view(next@) =~= urls_view(before) + urls_view(added));
                        },
                        Err(e) => {
                            if first.is_none() {
                                first = Some(CrawlError::MalformedLink(e.href));
                            }
                        },
                    }
                },
            }
            i = i + 1;
        }
        if self.failure.is_none() {
            self.failure = first;
        }
        if self.depth < self.max && next.len() > 0 {
            self.depth = self.depth + 1;
            self.frontier = next;
        } else {
            self.done = true;
            self.frontier = Vec::new();
            assert(urls_view(self.frontier@) =~= Seq::<Seq<char>>::empty());
        }
    }
}

impl CrawlError {
    /// A copy of this error.
    pub fn duplicate(&self) -> (r: CrawlError)
        ensures
            r@ == self@,
    {
        match self {
            CrawlError::Fetch(m) => CrawlError::Fetch(m.clone()),
            CrawlError::MalformedLink(h) => CrawlError::MalformedLink(h.clone()),
        }
    }
}

} // verus!
