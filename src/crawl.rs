//! A crawl run as a state machine. It goes through three stages, one fetch at
//! a time: the search pages, then the result pages they offer, then the
//! listings those link to that are due for a fetch. The caller performs each
//! fetch that `next_url` asks for and hands the page back to `advance`.
use vstd::prelude::*;
use crate::cache::{Cache, is_due, last_seen};
use crate::engine::{
    UrlSet, get_result_urls, get_listing_urls, page_count, page_urls, listing_links, with_new,
};
use crate::error::Error;
use crate::listing::{Listing, ListingView};
use crate::parse::{listing_read, ListingParser};
use crate::site::{Website, site_root};
use crate::text::{views, opt_view};
use crate::time::Timestamp;

verus! {

#[derive(Clone, Copy, Debug, PartialEq, Eq, Structural)]
pub enum Stage {
    /// Fetching the search pages.
    Search,
    /// Fetching the result pages of the searches.
    Results,
    /// Fetching the listings that are due.
    Listings,
    /// Nothing is left to fetch.
    Finished,
}

/// What a fetched page gave.
#[derive(Debug)]
pub enum Event {
    /// Nothing to report.
    Nothing,
    /// A search page without a pagination control: it adds no result pages.
    NoPagination,
    /// A listing page, read into a record or not.
    Parsed(Result<Listing, Error>),
}

/// The state of a crawl.
pub struct CrawlView {
    pub site: Website,
    pub window_days: u32,
    pub force: bool,
    pub stage: Stage,
    /// The position, in the current stage's list, of the next page to fetch.
    pub at: int,
    pub roots: Seq<Seq<char>>,
    pub pages: Seq<Seq<char>>,
    /// The listing addresses found, each once.
    pub links: Seq<Seq<char>>,
    /// The listing addresses that are due for a fetch.
    pub due: Seq<Seq<char>>,
}

/// The addresses of the current stage.
pub open spec fn pending(v: CrawlView) -> Seq<Seq<char>> {
    match v.stage {
        Stage::Search => v.roots,
        Stage::Results => v.pages,
        Stage::Listings => v.due,
        Stage::Finished => Seq::empty(),
    }
}

/// The result pages that a search page adds.
pub open spec fn found_pages(root: Seq<char>, body: Option<Seq<char>>) -> Seq<Seq<char>> {
    match body {
        Some(b) => match page_count(b) {
            Some(n) => page_urls(root, n as nat),
            None => Seq::empty(),
        },
        None => Seq::empty(),
    }
}

/// The listing addresses that a result page adds.
pub open spec fn found_links(site: Website, body: Option<Seq<char>>) -> Seq<Seq<char>> {
    match body {
        Some(b) => match site_root(site) {
            Some(root) => listing_links(root, b),
            None => Seq::empty(),
        },
        None => Seq::empty(),
    }
}

/// The state once the page at the current position was fetched (`None`:
/// the fetch failed) and taken in.
pub open spec fn stepped(v: CrawlView, body: Option<Seq<char>>) -> CrawlView {
    match v.stage {
        Stage::Search => CrawlView {
            pages: v.pages + found_pages(v.roots[v.at], body),
            at: v.at + 1,
            ..v
        },
        Stage::Results => CrawlView {
            links: with_new(v.links, found_links(v.site, body)),
            at: v.at + 1,
            ..v
        },
        Stage::Listings => CrawlView { at: v.at + 1, ..v },
        Stage::Finished => v,
    }
}

/// The state moved past every stage whose list is done. Going from the
/// result pages to the listings, the listings found are filtered by their
/// freshness in the store `rs` at `now`.
pub open spec fn settled(v: CrawlView, rs: Seq<ListingView>, now: Timestamp) -> CrawlView {
    let v1 = if v.stage == Stage::Search && v.at >= v.roots.len() {
        CrawlView { stage: Stage::Results, at: 0, ..v }
    } else {
        v
    };
    let v2 = if v1.stage == Stage::Results && v1.at >= v1.pages.len() {
        CrawlView {
            stage: Stage::Listings,
            at: 0,
            due: v1.links.filter(
                |u: Seq<char>| is_due(last_seen(rs, u), now, v.window_days, v.force),
            ),
            ..v1
        }
    } else {
        v1
    };
    if v2.stage == Stage::Listings && v2.at >= v2.due.len() {
        CrawlView { stage: Stage::Finished, at: 0, ..v2 }
    } else {
        v2
    }
}

pub struct Crawl {
    site: Website,
    window_days: u32,
    force: bool,
    stage: Stage,
    at: usize,
    roots: Vec<String>,
    pages: Vec<String>,
    links: UrlSet,
    due: Vec<String>,
    parser: ListingParser,
}

impl View for Crawl {
    type V = CrawlView;

    closed spec fn view(&self) -> CrawlView {
        CrawlView {
            site: self.site,
            window_days: self.window_days,
            force: self.force,
            stage: self.stage,
            at: self.at as int,
            roots: views(self.roots@),
            pages: views(self.pages@),
            links: self.links.view(),
            due: views(self.due@),
        }
    }
}

impl Crawl {
    /// A next page to fetch, unless the crawl is finished.
    pub closed spec fn wf(&self) -> bool {
        &&& self.links.wf()
        &&& self.parser.wf()
        &&& self.stage == Stage::Finished || 0 <= self@.at < pending(self@).len()
    }

    /// A crawl of `site` from the search pages `roots`, fetching the listings
    /// that are due by the store `cache` (all of them where `force`).
    pub fn new(
        site: Website,
        roots: Vec<String>,
        window_days: u32,
        force: bool,
        cache: &Cache,
        now: &Timestamp,
    ) -> (r: Crawl)
        requires
            cache.wf(),
            now.wf(),
        ensures
            r.wf(),
            r@ == settled(
                CrawlView {
                    site,
                    window_days,
                    force,
                    stage: Stage::Search,
                    at: 0,
                    roots: views(roots@),
                    pages: Seq::empty(),
                    links: Seq::empty(),
                    due: Seq::empty(),
                },
                cache.records(),
                *now,
            ),
    {
        let mut c = Crawl {
            site,
            window_days,
            force,
            stage: Stage::Search,
            at: 0,
            roots,
            pages: Vec::new(),
            links: UrlSet::new(),
            due: Vec::new(),
            parser: ListingParser::new(),
        };
        assert(views(c.pages@) =~= Seq::<Seq<char>>::empty());
        assert(views(c.due@) =~= Seq::<Seq<char>>::empty());
        c.settle(cache, now);
        c
    }

    /// Moves past every stage whose list is done.
    fn settle(&mut self, cache: &Cache, now: &Timestamp)
        requires
            old(self).links.wf(),
            old(self).parser.wf(),
            old(self).stage == Stage::Finished || old(self)@.at <= pending(old(self)@).len(),
            cache.wf(),
            now.wf(),
        ensures
            final(self).wf(),
            final(self)@ == settled(old(self)@, cache.records(), *now),
    {
        let ghost v = self@;
        if self.stage == Stage::Search && self.at >= self.roots.len() {
            self.stage = Stage::Results;
            self.at = 0;
        }
        let ghost v1 = self@;
        if self.stage == Stage::Results && self.at >= self.pages.len() {
            self.stage = Stage::Listings;
            self.at = 0;
            let found = self.links.to_vec();
            self.due = cache.select_due(&found, now, self.window_days, self.force);
        }
        let ghost v2 = self@;
        if self.stage == Stage::Listings && self.at >= self.due.len() {
            self.stage = Stage::Finished;
            self.at = 0;
        }
        assert(self@ == settled(v, cache.records(), *now));
    }

    /// The stage the crawl is in.
    pub fn stage(&self) -> (r: Stage)
        ensures
            r == self@.stage,
    {
        self.stage
    }

    /// The address to fetch next; `None` once the crawl is finished.
    pub fn next_url(&self) -> (r: Option<&String>)
        requires
            self.wf(),
        ensures
            match r {
                None => self@.stage == Stage::Finished,
                Some(u) => self@.stage != Stage::Finished && u@ == pending(self@)[self@.at],
            },
    {
        match self.stage {
            Stage::Search => Some(&self.roots[self.at]),
            Stage::Results => Some(&self.pages[self.at]),
            Stage::Listings => Some(&self.due[self.at]),
            Stage::Finished => None,
        }
    }

    /// Takes in the page fetched from `next_url` (`None` where the fetch
    /// failed, which skips it), at `now`, against the store `cache`.
    pub fn advance(&mut self, body: Option<String>, cache: &Cache, now: &Timestamp) -> (e: Event)
        requires
            old(self).wf(),
            old(self)@.stage != Stage::Finished,
            cache.wf(),
            now.wf(),
        ensures
            final(self).wf(),
            final(self)@ == settled(stepped(old(self)@, opt_view(body)), cache.records(), *now),
            old(self)@.stage == Stage::Search ==> (e matches Event::NoPagination <==> (body matches Some(b) && page_count(b@) is None)),
            old(self)@.stage == Stage::Search && !(e matches Event::NoPagination) ==> e matches Event::Nothing,
            old(self)@.stage == Stage::Results ==> e matches Event::Nothing,
            old(self)@.stage == Stage::Listings ==> match body {
                None => e matches Event::Nothing,
                Some(b) => e matches Event::Parsed(r) && listing_read(
                    old(self)@.site,
                    b@,
                    pending(old(self)@)[old(self)@.at],
                    *now,
                    r,
                ),
            },
    {
        let ghost v = self@;
        assert(self.links.wf());
        assert(0 <= self.at < pending(v).len());
        let len = match self.stage {
            Stage::Search => self.roots.len(),
            Stage::Results => self.pages.len(),
            Stage::Listings => self.due.len(),
            Stage::Finished => 0,
        };
        assert(self.at < len);
        let mut event = Event::Nothing;
        match self.stage {
            Stage::Search => {
                let root = self.roots[self.at].clone();
                match &body {
                    Some(b) => match get_result_urls(root.as_str(), b.as_str()) {
                        Some(urls) => {
                            let mut i: usize = 0;
                            let ghost start = views(self.pages@);
                            let ghost s0 = *self;
                            while i < urls.len()
                                invariant
                                    self.roots == s0.roots,
                                    self.links == s0.links,
                                    self.due == s0.due,
                                    self.at == s0.at,
                                    self.stage == s0.stage,
                                    self.site == s0.site,
                                    self.window_days == s0.window_days,
                                    self.force == s0.force,
                                    self.parser == s0.parser,
                                    i <= urls.len(),
                                    views(self.pages@) == start + views(urls@).take(i as int),
                                decreases urls.len() - i,
                            {
                                let ghost before = views(self.pages@);
                                self.pages.push(urls[i].clone());
                                assert(views(self.pages@) =~= before.push(urls@[i as int]@));
                                assert(views(urls@).take(i + 1) =~= views(urls@).take(i as int).push(urls@[i as int]@));
                                i = i + 1;
                            }
                            assert(views(urls@).take(i as int) == views(urls@));
                        },
                        None => {
                            event = Event::NoPagination;
                            assert(views(self.pages@) =~= views(self.pages@) + Seq::<Seq<char>>::empty());
                        },
                    },
                    None => {
                        assert(views(self.pages@) =~= views(self.pages@) + Seq::<Seq<char>>::empty());
                    },
                }
            },
            Stage::Results => {
                match &body {
                    Some(b) => {
                        let found = get_listing_urls(self.site, b.as_str());
                        self.links.extend(found);
                    },
                    None => {
                        assert(with_new(self.links.view(), Seq::empty()) == self.links.view());
                    },
                }
            },
            Stage::Listings => {
                match &body {
                    Some(b) => {
                        let url = self.due[self.at].clone();
                        let read = self.parser.read(b.as_str(), url.as_str(), &self.site, *now);
                        event = Event::Parsed(read);
                    },
                    None => {},
                }
            },
            Stage::Finished => {},
        }
        self.at = self.at + 1;
        assert(self@ == stepped(v, opt_view(body)));
        self.settle(cache, now);
        event
    }
}

} // verus!
