//! The decisions of a crawl: which result pages a search has, which listings
//! a result page links to, and the set of listing addresses gathered.
use vstd::prelude::*;
use vstd::hash_map::StringHashMap;
use crate::markup::{css_inner, css_attr, select_inner, select_attr};
use crate::site::{Website, site_root};
use crate::text::{views, decimal_digits, decimal_string, string_of, parse_unsigned, parse_unsigned_str};
use crate::web::{parsed_url, joined_url, parse_url, join_url};

verus! {

pub open spec fn pager_selector() -> Seq<char> {
    "a.page-number.js-page-filter"@
}

pub open spec fn title_selector() -> Seq<char> {
    "a.announcement-block__title"@
}

/// The greatest of the numbers that the texts read as.
pub open spec fn greatest_number(s: Seq<Seq<char>>) -> Option<u32>
    decreases s.len(),
{
    if s.len() == 0 {
        None
    } else {
        let rest = greatest_number(s.drop_last());
        match parse_unsigned(s.last(), 0xffff_ffff) {
            None => rest,
            Some(v) => match rest {
                Some(m) => if (v as u32) > m {
                    Some(v as u32)
                } else {
                    Some(m)
                },
                None => Some(v as u32),
            },
        }
    }
}

/// The number of result pages that a search page's pagination control offers.
pub open spec fn page_count(markup: Seq<char>) -> Option<u32> {
    greatest_number(css_inner(markup, pager_selector()))
}

/// The address of page `i` of a search.
pub open spec fn page_url(search: Seq<char>, i: nat) -> Option<Seq<char>> {
    parsed_url(search + "&page="@ + decimal_digits(i))
}

/// The addresses of pages 1 to `n` of a search, leaving out any that does
/// not parse.
pub open spec fn page_urls(search: Seq<char>, n: nat) -> Seq<Seq<char>>
    decreases n,
{
    if n == 0 {
        Seq::empty()
    } else {
        let before = page_urls(search, (n - 1) as nat);
        match page_url(search, n) {
            Some(u) => before.push(u),
            None => before,
        }
    }
}

/// The links resolved against `root`, leaving out absent ones and those that
/// do not resolve.
pub open spec fn resolved(root: Seq<char>, hrefs: Seq<Option<Seq<char>>>) -> Seq<Seq<char>>
    decreases hrefs.len(),
{
    if hrefs.len() == 0 {
        Seq::empty()
    } else {
        let before = resolved(root, hrefs.drop_last());
        match hrefs.last() {
            Some(h) => match joined_url(root, h) {
                Some(u) => before.push(u),
                None => before,
            },
            None => before,
        }
    }
}

/// The addresses of the listings that a result page's titles link to.
pub open spec fn listing_links(root: Seq<char>, markup: Seq<char>) -> Seq<Seq<char>> {
    resolved(root, css_attr(markup, title_selector(), "href"@))
}

/// The number of result pages that a search page offers; `None` where it
/// has no pagination control.
pub fn parse_page_count(markup: &str) -> (r: Option<u32>)
    ensures
        r == page_count(markup@),
{
    let texts = select_inner(markup, "a.page-number.js-page-filter");
    let ghost all = views(texts@);
    let mut greatest: Option<u32> = None;
    let mut i: usize = 0;
    while i < texts.len()
        invariant
            i <= texts.len(),
            all == views(texts@),
            all == css_inner(markup@, pager_selector()),
            greatest == greatest_number(all.take(i as int)),
        decreases texts.len() - i,
    {
        let v = parse_unsigned_str(texts[i].as_str(), 0xffff_ffff);
        assert(all.take(i + 1).drop_last() == all.take(i as int));
        assert(all.take(i + 1).last() == texts@[i as int]@);
        match v {
            Some(n) => {
                greatest = match greatest {
                    Some(m) => if n > m {
                        Some(n)
                    } else {
                        Some(m)
                    },
                    None => Some(n),
                };
            },
            None => {},
        }
        i = i + 1;
    }
    assert(all.take(i as int) == all);
    greatest
}

/// The addresses of the result pages of a search, from its first page's
/// markup: pages 1 to the greatest page number offered. `None` where the page
/// has no pagination control, which adds no pages.
pub fn get_result_urls(search_url: &str, markup: &str) -> (r: Option<Vec<String>>)
    ensures
        match page_count(markup@) {
            None => r is None,
            Some(n) => r matches Some(v) && views(v@) == page_urls(search_url@, n as nat),
        },
{
    let n = match parse_page_count(markup) {
        Some(n) => n,
        None => return None,
    };
    let mut r: Vec<String> = Vec::new();
    let mut i: u32 = 0;
    while i < n
        invariant
            i <= n,
            views(r@) == page_urls(search_url@, i as nat),
        decreases n - i,
    {
        i = i + 1;
        let digits = decimal_string(i as u64);
        let number = string_of(&digits);
        let text = String::from_str(search_url).concat("&page=").concat(number.as_str());
        assert(text@ == search_url@ + "&page="@ + decimal_digits(i as nat));
        match parse_url(text.as_str()) {
            Some(u) => {
                let ghost before = views(r@);
                r.push(u);
                assert(views(r@) =~= before.push(page_url(search_url@, i as nat)->0));
            },
            None => {},
        }
    }
    Some(r)
}

/// The addresses of the listings that a result page of `site` links to; none
/// for a site whose pages are not read.
pub fn get_listing_urls(site: Website, markup: &str) -> (r: Vec<String>)
    ensures
        match site_root(site) {
            Some(root) => views(r@) == listing_links(root, markup@),
            None => r@.len() == 0,
        },
{
    let root = match site.get_root() {
        Some(root) => root,
        None => return Vec::new(),
    };
    let hrefs = select_attr(markup, "a.announcement-block__title", "href");
    let ghost all = crate::text::opt_views(hrefs@);
    let mut r: Vec<String> = Vec::new();
    let mut i: usize = 0;
    while i < hrefs.len()
        invariant
            i <= hrefs.len(),
            all == crate::text::opt_views(hrefs@),
            all == css_attr(markup@, title_selector(), "href"@),
            site_root(site) == Some(root@),
            views(r@) == resolved(root@, all.take(i as int)),
        decreases hrefs.len() - i,
    {
        assert(all.take(i + 1).drop_last() == all.take(i as int));
        assert(all.take(i + 1).last() == crate::text::opt_view(hrefs@[i as int]));
        match &hrefs[i] {
            Some(h) => match join_url(root.as_str(), h.as_str()) {
                Some(u) => {
                    let ghost before = views(r@);
                    r.push(u);
                    assert(views(r@) =~= before.push(joined_url(root@, h@)->0));
                },
                None => {},
            },
            None => {},
        }
        i = i + 1;
    }
    assert(all.take(i as int) == all);
    r
}

/// `s` followed by the items of `t` that are not already before them.
pub open spec fn with_new(s: Seq<Seq<char>>, t: Seq<Seq<char>>) -> Seq<Seq<char>>
    decreases t.len(),
{
    if t.len() == 0 {
        s
    } else {
        let before = with_new(s, t.drop_last());
        if before.contains(t.last()) {
            before
        } else {
            before.push(t.last())
        }
    }
}

/// Addresses, each kept once, in the order they were first added.
pub struct UrlSet {
    urls: Vec<String>,
    seen: StringHashMap<usize>,
}

impl UrlSet {
    pub closed spec fn view(&self) -> Seq<Seq<char>> {
        views(self.urls@)
    }

    pub closed spec fn wf(&self) -> bool {
        &&& self.view().no_duplicates()
        &&& forall|u: Seq<char>| #[trigger] self.seen@.contains_key(u) <==> self.view().contains(u)
    }

    pub fn new() -> (r: UrlSet)
        ensures
            r.wf(),
            r.view() == Seq::<Seq<char>>::empty(),
    {
        let r = UrlSet { urls: Vec::new(), seen: StringHashMap::new() };
        assert(r.view() =~= Seq::<Seq<char>>::empty());
        r
    }

    /// Adds `url` unless it is there already; whether it was added.
    pub fn insert(&mut self, url: String) -> (r: bool)
        requires
            old(self).wf(),
        ensures
            final(self).wf(),
            r == !old(self).view().contains(url@),
            r ==> final(self).view() == old(self).view().push(url@),
            !r ==> final(self).view() == old(self).view(),
    {
        if self.seen.contains_key(url.as_str()) {
            return false;
        }
        let ghost before = self.view();
        let n = self.urls.len();
        self.seen.insert(url.clone(), n);
        self.urls.push(url);
        assert(self.view() =~= before.push(url@));
        proof {
            assert forall|i: int, j: int| 0 <= i < j < self.view().len() implies self.view()[i] != self.view()[j] by {
                if j == before.len() {
                    assert(before.contains(before[i]));
                } else {
                    assert(before[i] != before[j]);
                }
            }
            assert forall|u: Seq<char>| #[trigger] self.seen@.contains_key(u) <==> self.view().contains(u) by {
                if u != url@ {
                    if self.view().contains(u) {
                        let k = choose|k: int| 0 <= k < self.view().len() && self.view()[k] == u;
                        assert(before[k] == u);
                    }
                    if before.contains(u) {
                        let k = choose|k: int| 0 <= k < before.len() && before[k] == u;
                        assert(self.view()[k] == u);
                    }
                } else {
                    assert(self.view()[before.len() as int] == u);
                }
            }
        }
        true
    }

    /// Adds each of `urls` that is not there yet, in order.
    pub fn extend(&mut self, urls: Vec<String>)
        requires
            old(self).wf(),
        ensures
            final(self).wf(),
            final(self).view() == with_new(old(self).view(), views(urls@)),
    {
        let ghost start = self.view();
        let ghost all = views(urls@);
        let mut i: usize = 0;
        while i < urls.len()
            invariant
                self.wf(),
                i <= urls.len(),
                all == views(urls@),
                self.view() == with_new(start, all.take(i as int)),
            decreases urls.len() - i,
        {
            let u = urls[i].clone();
            assert(all.take(i + 1).drop_last() == all.take(i as int));
            assert(all.take(i + 1).last() == u@);
            self.insert(u);
            i = i + 1;
        }
        assert(all.take(i as int) == all);
    }

    pub fn len(&self) -> (r: usize)
        ensures
            r == self.view().len(),
    {
        self.urls.len()
    }

    /// The addresses, in the order they were first added.
    pub fn to_vec(&self) -> (r: Vec<String>)
        ensures
            views(r@) == self.view(),
    {
        let mut r: Vec<String> = Vec::new();
        let mut i: usize = 0;
        while i < self.urls.len()
            invariant
                i <= self.urls.len(),
                views(r@) == self.view().take(i as int),
            decreases self.urls.len() - i,
        {
            let ghost before = views(r@);
            r.push(self.urls[i].clone());
            assert(views(r@) =~= before.push(self.urls@[i as int]@));
            assert(self.view().take(i + 1) =~= self.view().take(i as int).push(self.urls@[i as int]@));
            i = i + 1;
        }
        assert(self.view().take(i as int) == self.view());
        r
    }
}

} // verus!
