//! The in-memory side of the record store: every record read or added, in
//! order, with an index from each URL to the positions of its records.
use vstd::prelude::*;
use vstd::hash_map::StringHashMap;
use crate::listing::{Kind, Listing, ListingView};
use crate::time::{Timestamp, order_key, instant, NANOS_PER_DAY};

verus! {

/// The later of a timestamp seen so far and another one.
pub open spec fn later(a: Option<Timestamp>, t: Timestamp) -> Option<Timestamp> {
    match a {
        None => Some(t),
        Some(x) => if order_key(t) > order_key(x) {
            Some(t)
        } else {
            Some(x)
        },
    }
}

/// The latest timestamp among the records of `url`, if it has any.
pub open spec fn last_seen(rs: Seq<ListingView>, url: Seq<char>) -> Option<Timestamp>
    decreases rs.len(),
{
    if rs.len() == 0 {
        None
    } else {
        let before = last_seen(rs.drop_last(), url);
        if rs.last().url() == url {
            later(before, rs.last().timestamp())
        } else {
            before
        }
    }
}

/// The positions of the records of `url`.
pub open spec fn positions(rs: Seq<ListingView>, url: Seq<char>) -> Set<int> {
    Set::new(|i: int| 0 <= i < rs.len() && rs[i].url() == url)
}

/// `res` is the latest timestamp of the records of `url`, or `None` where
/// there are none.
pub open spec fn is_latest(rs: Seq<ListingView>, url: Seq<char>, res: Option<Timestamp>) -> bool {
    match res {
        None => forall|i: int| 0 <= i < rs.len() ==> #[trigger] rs[i].url() != url,
        Some(t) => {
            &&& exists|i: int| 0 <= i < rs.len() && #[trigger] rs[i].url() == url && rs[i].timestamp() == t
            &&& forall|i: int|
                0 <= i < rs.len() && #[trigger] rs[i].url() == url ==> order_key(rs[i].timestamp())
                    <= order_key(t)
        },
    }
}

/// Whether a listing last seen at `last` is to be fetched again at `now`:
/// always when forced or never seen, else once at least `window_days` whole
/// days have passed.
pub open spec fn is_due(last: Option<Timestamp>, now: Timestamp, window_days: u32, force: bool) -> bool {
    force || match last {
        None => true,
        Some(t) => instant(now) - instant(t) >= window_days * NANOS_PER_DAY,
    }
}

pub open spec fn all_wf(rs: Seq<ListingView>) -> bool {
    forall|i: int| 0 <= i < rs.len() ==> (#[trigger] rs[i]).wf()
}

/// Records, in the order they were read or added, indexed by URL.
pub struct Cache {
    listings: Vec<Listing>,
    urls: StringHashMap<Vec<usize>>,
}

impl Cache {
    /// The records, in order.
    pub closed spec fn records(&self) -> Seq<ListingView> {
        self.listings@.map_values(|l: Listing| l@)
    }

    /// The index lists, for each URL, exactly the positions of its records.
    pub closed spec fn wf(&self) -> bool {
        &&& all_wf(self.records())
        &&& forall|u: Seq<char>, j: int|
            self.urls@.contains_key(u) && 0 <= j < self.urls@[u].len() ==> {
                let p = #[trigger] self.urls@[u]@[j];
                &&& p < self.listings.len()
                &&& self.records()[p as int].url() == u
            }
        &&& forall|i: int|
            0 <= i < self.listings.len() ==> {
                let u = (#[trigger] self.records()[i]).url();
                &&& self.urls@.contains_key(u)
                &&& self.urls@[u]@.contains(i as usize)
            }
    }

    /// An empty store.
    pub fn new() -> (r: Cache)
        ensures
            r.wf(),
            r.records() == Seq::<ListingView>::empty(),
    {
        let r = Cache { listings: Vec::new(), urls: StringHashMap::new() };
        assert(r.records() =~= Seq::<ListingView>::empty());
        r
    }

    /// The number of records.
    pub fn len(&self) -> (r: usize)
        ensures
            r == self.records().len(),
    {
        self.listings.len()
    }

    /// The record at position `i`.
    pub fn get(&self, i: usize) -> (r: &Listing)
        requires
            i < self.records().len(),
        ensures
            r@ == self.records()[i as int],
    {
        &self.listings[i]
    }

    /// Adds a record to the store and to the index of its URL.
    pub fn add(&mut self, listing: Listing)
        requires
            old(self).wf(),
            listing@.wf(),
        ensures
            final(self).wf(),
            final(self).records() == old(self).records().push(listing@),
    {
        let ghost old_rs = self.records();
        let index = self.listings.len();
        let mut entry: Vec<usize> = match self.urls.get(listing.url().as_str()) {
            Some(ps) => ps.clone(),
            None => Vec::new(),
        };
        let ghost before = entry@;
        entry.push(index);
        let key = listing.url().clone();
        let ghost u = listing@.url();
        self.urls.insert(key, entry);
        self.listings.push(listing);
        proof {
            let rs = self.records();
            assert(rs =~= old_rs.push(listing@));
            assert(all_wf(rs)) by {
                assert forall|i: int| 0 <= i < rs.len() implies (#[trigger] rs[i]).wf() by {
                    if i < old_rs.len() {
                        assert(rs[i] == old_rs[i]);
                    }
                }
            }
            assert forall|v: Seq<char>, j: int|
                self.urls@.contains_key(v) && 0 <= j < self.urls@[v].len() implies {
                    let p = #[trigger] self.urls@[v]@[j];
                    &&& p < self.listings.len()
                    &&& self.records()[p as int].url() == v
                } by {
                if v == u {
                    if j < before.len() {
                        assert(self.urls@[v]@[j] == before[j]);
                    }
                }
            }
            assert forall|i: int| 0 <= i < self.listings.len() implies {
                let v = (#[trigger] self.records()[i]).url();
                &&& self.urls@.contains_key(v)
                &&& self.urls@[v]@.contains(i as usize)
            } by {
                let v = rs[i].url();
                if i < old_rs.len() {
                    assert(rs[i] == old_rs[i]);
                    if v == u {
                        let k = choose|k: int| 0 <= k < before.len() && before[k] == i as usize;
                        assert(self.urls@[v]@[k] == i as usize);
                    }
                } else {
                    assert(self.urls@[v]@[before.len() as int] == index);
                }
            }
        }
    }

    /// The positions of the records of `url`.
    pub fn positions(&self, url: &str) -> (r: Vec<usize>)
        requires
            self.wf(),
        ensures
            forall|k: int| 0 <= k < r@.len() ==> positions(self.records(), url@).contains(#[trigger] r@[k] as int),
            forall|i: int| #[trigger] positions(self.records(), url@).contains(i) ==> r@.contains(i as usize),
    {
        match self.urls.get(url) {
            Some(ps) => {
                let r = ps.clone();
                proof {
                    assert forall|k: int| 0 <= k < r@.len() implies positions(
                        self.records(),
                        url@,
                    ).contains(#[trigger] r@[k] as int) by {
                        assert(self.urls@[url@]@[k] == r@[k]);
                    }
                    assert forall|i: int| #[trigger] positions(self.records(), url@).contains(i) implies r@.contains(i as usize) by {
                        assert(self.records()[i].url() == url@);
                    }
                }
                r
            },
            None => {
                let r: Vec<usize> = Vec::new();
                proof {
                    assert forall|i: int| #[trigger] positions(self.records(), url@).contains(i) implies r@.contains(i as usize) by {
                        assert(self.records()[i].url() == url@);
                    }
                }
                r
            },
        }
    }

    /// The latest timestamp of the records of `url`.
    pub fn get_last_timestamp(&self, url: &str) -> (r: Option<Timestamp>)
        requires
            self.wf(),
        ensures
            r == last_seen(self.records(), url@),
    {
        let ghost rs = self.records();
        proof {
            lemma_last_seen_is_latest(rs, url@);
        }
        match self.urls.get(url) {
            None => {
                assert forall|i: int| 0 <= i < rs.len() implies #[trigger] rs[i].url() != url@ by {
                    if rs[i].url() == url@ {
                        assert(self.records()[i].url() == url@);
                    }
                }
                proof {
                    lemma_latest_unique(rs, url@, None, last_seen(rs, url@));
                }
                None
            },
            Some(ps) => {
                let mut latest: Option<Timestamp> = None;
                let mut j: usize = 0;
                while j < ps.len()
                    invariant
                        self.wf(),
                        rs == self.records(),
                        self.urls@.contains_key(url@),
                        *ps == self.urls@[url@],
                        j <= ps.len(),
                        latest is None <==> j == 0,
                        latest matches Some(t) ==> (exists|k: int| 0 <= k < j && rs[ps@[k] as int].timestamp() == t),
                        latest matches Some(t) ==> (forall|k: int| 0 <= k < j ==> order_key(#[trigger] rs[ps@[k] as int].timestamp()) <= order_key(t)),
                        latest matches Some(t) ==> t.wf(),
                    decreases ps.len() - j,
                {
                    let p = ps[j];
                    assert(self.urls@[url@]@[j as int] == p);
                    let t = *self.listings[p].timestamp();
                    assert(rs[p as int] == self.listings@[p as int]@);
                    assert(rs[p as int].wf());
                    latest = match latest {
                        None => Some(t),
                        Some(x) => if t.is_after(&x) {
                            Some(t)
                        } else {
                            Some(x)
                        },
                    };
                    j = j + 1;
                }
                proof {
                    if latest is None {
                        assert forall|i: int| 0 <= i < rs.len() implies #[trigger] rs[i].url() != url@ by {
                            if rs[i].url() == url@ {
                                assert(self.records()[i].url() == url@);
                                assert(self.urls@[url@]@.contains(i as usize));
                            }
                        }
                    } else {
                        let l = latest->0;
                        let k = choose|k: int| 0 <= k < j && rs[ps@[k] as int].timestamp() == l;
                        assert(self.urls@[url@]@[k] == ps@[k]);
                        assert(rs[ps@[k] as int].url() == url@);
                        assert forall|i: int| 0 <= i < rs.len() && #[trigger] rs[i].url() == url@ implies order_key(rs[i].timestamp()) <= order_key(l) by {
                            assert(self.records()[i].url() == url@);
                            assert(self.urls@[url@]@.contains(i as usize));
                            let m = choose|m: int| 0 <= m < ps@.len() && ps@[m] == i as usize;
                            assert(order_key(rs[ps@[m] as int].timestamp()) <= order_key(l));
                        }
                    }
                    lemma_latest_unique(rs, url@, latest, last_seen(rs, url@));
                }
                latest
            },
        }
    }

    /// Whether the listing at `url` is to be fetched at `now`.
    pub fn is_due(&self, url: &str, now: &Timestamp, window_days: u32, force: bool) -> (r: bool)
        requires
            self.wf(),
            now.wf(),
        ensures
            r == is_due(last_seen(self.records(), url@), *now, window_days, force),
    {
        if force {
            return true;
        }
        match self.get_last_timestamp(url) {
            None => true,
            Some(t) => {
                proof {
                    lemma_last_seen_is_latest(self.records(), url@);
                    let i = choose|i: int| 0 <= i < self.records().len() && #[trigger] self.records()[i].url() == url@ && self.records()[i].timestamp() == t;
                    assert(self.records()[i].wf());
                }
                t.is_older_than(now, window_days)
            },
        }
    }

    /// The URLs among `urls` that are due for a fetch at `now`, in order.
    pub fn select_due(&self, urls: &Vec<String>, now: &Timestamp, window_days: u32, force: bool) -> (r: Vec<String>)
        requires
            self.wf(),
            now.wf(),
        ensures
            crate::text::views(r@) == crate::text::views(urls@).filter(
                |u: Seq<char>| is_due(last_seen(self.records(), u), *now, window_days, force),
            ),
    {
        let ghost pred = |u: Seq<char>| is_due(last_seen(self.records(), u), *now, window_days, force);
        let ghost all = crate::text::views(urls@);
        let mut r: Vec<String> = Vec::new();
        let mut i: usize = 0;
        while i < urls.len()
            invariant
                self.wf(),
                now.wf(),
                i <= urls.len(),
                all == crate::text::views(urls@),
                pred == (|u: Seq<char>| is_due(last_seen(self.records(), u), *now, window_days, force)),
                crate::text::views(r@) == all.take(i as int).filter(pred),
            decreases urls.len() - i,
        {
            let due = self.is_due(urls[i].as_str(), now, window_days, force);
            assert(all.take(i + 1).drop_last() == all.take(i as int));
            assert(all.take(i + 1).last() == urls@[i as int]@);
            let ghost old_r = crate::text::views(r@);
            if due {
                r.push(urls[i].clone());
                assert(crate::text::views(r@) =~= old_r.push(urls@[i as int]@));
            }
            assert(pred(urls@[i as int]@) == due);
            proof {
                reveal(Seq::filter);
                assert(all.take(i + 1).filter(pred) == if pred(urls@[i as int]@) {
                    all.take(i as int).filter(pred).push(urls@[i as int]@)
                } else {
                    all.take(i as int).filter(pred)
                });
            }
            i = i + 1;
        }
        assert(all.take(i as int) == all);
        r
    }

}

/// Whether a record file needs a header row before its records: only when
/// it did not exist, so that a file holds one header however many runs
/// append to it.
pub fn needs_header(file_existed: bool) -> (r: bool)
    ensures
        r == !file_existed,
{
    !file_existed
}

/// `last_seen` picks the latest timestamp of the records of `url`.
pub proof fn lemma_last_seen_is_latest(rs: Seq<ListingView>, url: Seq<char>)
    ensures
        is_latest(rs, url, last_seen(rs, url)),
    decreases rs.len(),
{
    if rs.len() > 0 {
        let init = rs.drop_last();
        let n = rs.len() - 1;
        lemma_last_seen_is_latest(init, url);
        let before = last_seen(init, url);
        let res = last_seen(rs, url);
        assert forall|i: int| 0 <= i < init.len() implies #[trigger] rs[i] == init[i] by {}
        if rs[n].url() == url {
            let t = rs[n].timestamp();
            assert(res == later(before, t));
            match before {
                None => {
                    assert(res == Some(t));
                    assert forall|i: int| 0 <= i < rs.len() && #[trigger] rs[i].url() == url implies order_key(rs[i].timestamp()) <= order_key(t) by {
                        if i < n {
                            assert(init[i].url() == url);
                        }
                    }
                },
                Some(x) => {
                    let k = choose|k: int| 0 <= k < init.len() && #[trigger] init[k].url() == url && init[k].timestamp() == x;
                    assert(rs[k] == init[k]);
                    let m = res->0;
                    assert(order_key(x) <= order_key(m));
                    assert(order_key(t) <= order_key(m));
                    assert forall|i: int| 0 <= i < rs.len() && #[trigger] rs[i].url() == url implies order_key(rs[i].timestamp()) <= order_key(m) by {
                        if i < n {
                            assert(init[i].url() == url);
                        }
                    }
                    if m == t {
                        assert(rs[n].url() == url);
                    } else {
                        assert(rs[k].url() == url);
                    }
                },
            }
        } else {
            assert(res == before);
            match before {
                None => {
                    assert forall|i: int| 0 <= i < rs.len() implies #[trigger] rs[i].url() != url by {
                        if i < n {
                            assert(init[i].url() != url);
                        }
                    }
                },
                Some(x) => {
                    let k = choose|k: int| 0 <= k < init.len() && #[trigger] init[k].url() == url && init[k].timestamp() == x;
                    assert(rs[k] == init[k]);
                    assert(rs[k].url() == url);
                    assert forall|i: int| 0 <= i < rs.len() && #[trigger] rs[i].url() == url implies order_key(rs[i].timestamp()) <= order_key(x) by {
                        if i < n {
                            assert(init[i].url() == url);
                        }
                    }
                },
            }
        }
    }
}

/// Of valid timestamps, only equal ones have equal keys.
proof fn lemma_key_injective(a: Timestamp, b: Timestamp)
    requires
        a.wf(),
        b.wf(),
        order_key(a) == order_key(b),
    ensures
        a == b,
{
    let na = a.year * 12 + a.month;
    let nb = b.year * 12 + b.month;
    let da = na * 32 + a.day;
    let db = nb * 32 + b.day;
    let ha = da * 24 + a.hour;
    let hb = db * 24 + b.hour;
    let ma = ha * 60 + a.minute;
    let mb = hb * 60 + b.minute;
    let sa = ma * 60 + a.second;
    let sb = mb * 60 + b.second;
    crate::time::lemma_lex(sa, a.nanosecond as int, sb, b.nanosecond as int, 1_000_000_000);
    crate::time::lemma_lex(ma, a.second as int, mb, b.second as int, 60);
    crate::time::lemma_lex(ha, a.minute as int, hb, b.minute as int, 60);
    crate::time::lemma_lex(da, a.hour as int, db, b.hour as int, 24);
    crate::time::lemma_lex(na, a.day as int, nb, b.day as int, 32);
    crate::time::lemma_lex(a.year as int, a.month - 1, b.year as int, b.month - 1, 12);
}

/// There is one latest timestamp.
proof fn lemma_latest_unique(rs: Seq<ListingView>, url: Seq<char>, a: Option<Timestamp>, b: Option<Timestamp>)
    requires
        all_wf(rs),
        is_latest(rs, url, a),
        is_latest(rs, url, b),
    ensures
        a == b,
{
    match (a, b) {
        (Some(x), Some(y)) => {
            let i = choose|i: int| 0 <= i < rs.len() && #[trigger] rs[i].url() == url && rs[i].timestamp() == x;
            let j = choose|j: int| 0 <= j < rs.len() && #[trigger] rs[j].url() == url && rs[j].timestamp() == y;
            assert(rs[i].wf());
            assert(rs[j].wf());
            lemma_key_injective(x, y);
        },
        (Some(x), None) => {
            let i = choose|i: int| 0 <= i < rs.len() && #[trigger] rs[i].url() == url && rs[i].timestamp() == x;
        },
        (None, Some(y)) => {
            let j = choose|j: int| 0 <= j < rs.len() && #[trigger] rs[j].url() == url && rs[j].timestamp() == y;
        },
        (None, None) => {},
    }
}

/// Adding a record makes the latest timestamp of its URL the later of the
/// one before and its own, so adding the same record twice leaves it there;
/// each addition is one more position under that URL.
pub proof fn lemma_add_twice(rs: Seq<ListingView>, r: ListingView)
    ensures
        last_seen(rs.push(r), r.url()) == later(last_seen(rs, r.url()), r.timestamp()),
        last_seen(rs.push(r).push(r), r.url()) == later(last_seen(rs, r.url()), r.timestamp()),
        positions(rs.push(r).push(r), r.url()) == positions(rs, r.url()).insert(rs.len() as int).insert(
            rs.len() + 1 as int,
        ),
{
    let once = rs.push(r);
    let twice = once.push(r);
    assert(once.drop_last() == rs);
    assert(twice.drop_last() == once);
    let a = last_seen(rs, r.url());
    match a {
        None => {},
        Some(x) => {},
    }
    assert(positions(twice, r.url()) =~= positions(rs, r.url()).insert(rs.len() as int).insert(
        rs.len() + 1 as int,
    )) by {
        assert forall|i: int| 0 <= i < rs.len() implies twice[i] == rs[i] by {}
    }
}

/// A record added for another URL changes nothing for `url`.
pub proof fn lemma_add_other(rs: Seq<ListingView>, r: ListingView, url: Seq<char>)
    requires
        r.url() != url,
    ensures
        last_seen(rs.push(r), url) == last_seen(rs, url),
{
    assert(rs.push(r).drop_last() == rs);
}

} // verus!
