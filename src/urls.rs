//! The table of search addresses that a crawl starts from.
use vstd::prelude::*;
use crate::area::Area;
use crate::error::{Error, ErrorKind};
use crate::listing::Kind;
use crate::site::Website;
use crate::text::views;
use crate::web::{parsed_url, parse_url};

verus! {

/// One search address, with the site, district and kind of listing it lists
/// (`None`: any).
pub type Seed = (Seq<char>, Website, Option<Area>, Option<Kind>);

pub open spec fn seed_table() -> Seq<Seed> {
    seq![
        ("https://www.bazaraki.com/real-estate/houses-and-villas-sale/ammochostos-district/?ordering=newest"@, Website::Bazaraki, Some(Area::Ammochostos), Some(Kind::Property)),
        ("https://www.bazaraki.com/real-estate/houses-and-villas-sale/larnaka-district-larnaca/?ordering=newest"@, Website::Bazaraki, Some(Area::Larnaka), Some(Kind::Property)),
        ("https://www.bazaraki.com/real-estate/houses-and-villas-sale/lefkosia-district-nicosia/?ordering=newest"@, Website::Bazaraki, Some(Area::Lefkosia), Some(Kind::Property)),
        ("https://www.bazaraki.com/real-estate/houses-and-villas-sale/lemesos-district-limassol/?ordering=newest"@, Website::Bazaraki, Some(Area::Limassol), Some(Kind::Property)),
        ("https://www.bazaraki.com/real-estate/houses-and-villas-sale/pafos-district-paphos/?ordering=newest"@, Website::Bazaraki, Some(Area::Paphos), Some(Kind::Property)),
        ("https://www.bazaraki.com/real-estate/land-and-plot/ammochostos-district/?ordering=newest"@, Website::Bazaraki, Some(Area::Ammochostos), Some(Kind::Plot)),
        ("https://www.bazaraki.com/real-estate/land-and-plot/larnaka-district-larnaca/?ordering=newest"@, Website::Bazaraki, Some(Area::Larnaka), Some(Kind::Plot)),
        ("https://www.bazaraki.com/real-estate/land-and-plot/lefkosia-district-nicosia/?ordering=newest"@, Website::Bazaraki, Some(Area::Lefkosia), Some(Kind::Plot)),
        ("https://www.bazaraki.com/real-estate/land-and-plot/lemesos-district-limassol/?ordering=newest"@, Website::Bazaraki, Some(Area::Limassol), Some(Kind::Plot)),
        ("https://www.bazaraki.com/real-estate/land-and-plot/pafos-district-paphos/?ordering=newest"@, Website::Bazaraki, Some(Area::Paphos), Some(Kind::Plot)),
    ]
}

/// Whether a seed passes the filter: each given dimension must agree, and a
/// seed that leaves a dimension open passes any filter on it.
pub open spec fn seed_selected(
    e: Seed,
    website: Option<Website>,
    area: Option<Area>,
    kind: Option<Kind>,
) -> bool {
    &&& (website matches Some(w) ==> e.1 == w)
    &&& (area matches Some(a) ==> (e.2 matches Some(x) ==> x == a))
    &&& (kind matches Some(k) ==> (e.3 matches Some(x) ==> x == k))
}

/// The parsed addresses of the selected seeds among `t`, in table order;
/// `None` where one of them does not parse.
pub open spec fn roots_of(
    t: Seq<Seed>,
    website: Option<Website>,
    area: Option<Area>,
    kind: Option<Kind>,
) -> Option<Seq<Seq<char>>>
    decreases t.len(),
{
    if t.len() == 0 {
        Some(Seq::empty())
    } else {
        match roots_of(t.drop_last(), website, area, kind) {
            None => None,
            Some(before) => if seed_selected(t.last(), website, area, kind) {
                match parsed_url(t.last().0) {
                    Some(u) => Some(before.push(u)),
                    None => None,
                }
            } else {
                Some(before)
            },
        }
    }
}

proof fn lemma_roots_none_stays(
    t: Seq<Seed>,
    i: int,
    website: Option<Website>,
    area: Option<Area>,
    kind: Option<Kind>,
)
    requires
        0 <= i <= t.len(),
        roots_of(t.take(i), website, area, kind) is None,
    ensures
        roots_of(t, website, area, kind) is None,
    decreases t.len() - i,
{
    if i < t.len() {
        assert(t.take(i + 1).drop_last() == t.take(i));
        lemma_roots_none_stays(t, i + 1, website, area, kind);
    } else {
        assert(t.take(i) == t);
    }
}

fn seed_rows() -> (r: Vec<(&'static str, Website, Option<Area>, Option<Kind>)>)
    ensures
        r@.map_values(|e: (&'static str, Website, Option<Area>, Option<Kind>)| (e.0@, e.1, e.2, e.3))
            == seed_table(),
{
    let r = vec![
        ("https://www.bazaraki.com/real-estate/houses-and-villas-sale/ammochostos-district/?ordering=newest", Website::Bazaraki, Some(Area::Ammochostos), Some(Kind::Property)),
        ("https://www.bazaraki.com/real-estate/houses-and-villas-sale/larnaka-district-larnaca/?ordering=newest", Website::Bazaraki, Some(Area::Larnaka), Some(Kind::Property)),
        ("https://www.bazaraki.com/real-estate/houses-and-villas-sale/lefkosia-district-nicosia/?ordering=newest", Website::Bazaraki, Some(Area::Lefkosia), Some(Kind::Property)),
        ("https://www.bazaraki.com/real-estate/houses-and-villas-sale/lemesos-district-limassol/?ordering=newest", Website::Bazaraki, Some(Area::Limassol), Some(Kind::Property)),
        ("https://www.bazaraki.com/real-estate/houses-and-villas-sale/pafos-district-paphos/?ordering=newest", Website::Bazaraki, Some(Area::Paphos), Some(Kind::Property)),
        ("https://www.bazaraki.com/real-estate/land-and-plot/ammochostos-district/?ordering=newest", Website::Bazaraki, Some(Area::Ammochostos), Some(Kind::Plot)),
        ("https://www.bazaraki.com/real-estate/land-and-plot/larnaka-district-larnaca/?ordering=newest", Website::Bazaraki, Some(Area::Larnaka), Some(Kind::Plot)),
        ("https://www.bazaraki.com/real-estate/land-and-plot/lefkosia-district-nicosia/?ordering=newest", Website::Bazaraki, Some(Area::Lefkosia), Some(Kind::Plot)),
        ("https://www.bazaraki.com/real-estate/land-and-plot/lemesos-district-limassol/?ordering=newest", Website::Bazaraki, Some(Area::Limassol), Some(Kind::Plot)),
        ("https://www.bazaraki.com/real-estate/land-and-plot/pafos-district-paphos/?ordering=newest", Website::Bazaraki, Some(Area::Paphos), Some(Kind::Plot)),
    ];
    assert(r@.map_values(|e: (&'static str, Website, Option<Area>, Option<Kind>)| (e.0@, e.1, e.2, e.3)) =~= seed_table());
    r
}

/// The search addresses that a crawl filtered by site, district and kind
/// starts from, in table order.
pub fn get_search_roots(
    website: Option<Website>,
    area: Option<Area>,
    kind: Option<Kind>,
) -> (r: Result<Vec<String>, Error>)
    ensures
        match roots_of(seed_table(), website, area, kind) {
            Some(v) => r matches Ok(u) && views(u@) == v,
            None => r matches Err(e) && e.kind == ErrorKind::Configuration,
        },
{
    let rows = seed_rows();
    let ghost t = seed_table();
    let mut r: Vec<String> = Vec::new();
    let mut i: usize = 0;
    assert(t.take(0) =~= Seq::<Seed>::empty());
    while i < rows.len()
        invariant
            i <= rows.len(),
            t == seed_table(),
            rows@.map_values(|e: (&'static str, Website, Option<Area>, Option<Kind>)| (e.0@, e.1, e.2, e.3)) == t,
            roots_of(t.take(i as int), website, area, kind) == Some(views(r@)),
        decreases rows.len() - i,
    {
        let (text, w, a, k) = rows[i];
        let ghost e = t[i as int];
        assert(e == (text@, w, a, k));
        assert(t.take(i + 1).drop_last() == t.take(i as int));
        assert(t.take(i + 1).last() == e);
        let selected = (match website {
            Some(x) => w == x,
            None => true,
        }) && (match area {
            Some(x) => match a {
                Some(y) => y == x,
                None => true,
            },
            None => true,
        }) && (match kind {
            Some(x) => match k {
                Some(y) => y == x,
                None => true,
            },
            None => true,
        });
        assert(selected == seed_selected(e, website, area, kind));
        if selected {
            match parse_url(text) {
                Some(u) => {
                    let ghost before = views(r@);
                    r.push(u);
                    assert(views(r@) =~= before.push(parsed_url(text@)->0));
                },
                None => {
                    proof {
                        lemma_roots_none_stays(t, i + 1, website, area, kind);
                    }
                    return Err(Error::new(ErrorKind::Configuration, "a search address does not parse"));
                },
            }
        }
        i = i + 1;
    }
    assert(t.take(i as int) == t);
    Ok(r)
}

} // verus!
