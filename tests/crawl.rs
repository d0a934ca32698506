use truffles::area::Area;
use truffles::engine::{get_listing_urls, get_result_urls, parse_page_count, UrlSet};
use truffles::listing::Kind;
use truffles::site::Website;
use truffles::throttle::Throttler;
use truffles::urls::get_search_roots;

#[test]
fn search_roots_by_filter() {
    let all = get_search_roots(None, None, None).unwrap();
    assert_eq!(all.len(), 10);
    let one = get_search_roots(Some(Website::Bazaraki), Some(Area::Limassol), Some(Kind::Plot)).unwrap();
    assert_eq!(
        one,
        vec!["https://www.bazaraki.com/real-estate/land-and-plot/lemesos-district-limassol/?ordering=newest".to_string()]
    );
    let props = get_search_roots(None, None, Some(Kind::Property)).unwrap();
    assert_eq!(props.len(), 5);
    assert!(props.iter().all(|u| u.contains("houses-and-villas-sale")));
    assert_eq!(get_search_roots(Some(Website::Spitogatos), None, None).unwrap().len(), 0);
    assert_eq!(get_search_roots(None, Some(Area::Paphos), None).unwrap().len(), 2);
}

#[test]
fn result_pages() {
    let page = "<html><body><div class=\"pager\">\
                <a class=\"page-number js-page-filter\">1</a>\
                <a class=\"page-number js-page-filter\">3</a>\
                <a class=\"page-number js-page-filter\">2</a>\
                <a class=\"page-number js-page-filter\">next</a></div></body></html>";
    assert_eq!(parse_page_count(page), Some(3));
    let urls = get_result_urls("https://www.bazaraki.com/real-estate/land-and-plot/?ordering=newest", page).unwrap();
    assert_eq!(
        urls,
        vec![
            "https://www.bazaraki.com/real-estate/land-and-plot/?ordering=newest&page=1".to_string(),
            "https://www.bazaraki.com/real-estate/land-and-plot/?ordering=newest&page=2".to_string(),
            "https://www.bazaraki.com/real-estate/land-and-plot/?ordering=newest&page=3".to_string(),
        ]
    );
    assert_eq!(get_result_urls("https://x.org/?a=b", "<html><body>no pages</body></html>"), None);
}

#[test]
fn listing_links() {
    let page = "<html><body>\
                <a class=\"announcement-block__title\" href=\"/adv/1_flat/\">Flat</a>\
                <a class=\"announcement-block__title\">No link</a>\
                <a class=\"announcement-block__title\" href=\"https://www.bazaraki.com/adv/2_house/\">House</a>\
                <a class=\"other\" href=\"/adv/3/\">Other</a></body></html>";
    assert_eq!(
        get_listing_urls(Website::Bazaraki, page),
        vec![
            "https://www.bazaraki.com/adv/1_flat/".to_string(),
            "https://www.bazaraki.com/adv/2_house/".to_string(),
        ]
    );
    assert!(get_listing_urls(Website::Spitogatos, page).is_empty());
    assert_eq!(Website::Bazaraki.get_root(), Some("https://www.bazaraki.com/".to_string()));
    assert_eq!(Website::from_str("BAZARAKI").unwrap(), Website::Bazaraki);
    assert_eq!(Website::ImmobilienScout24.name(), "ImmobilienScout24");
}

#[test]
fn url_set_keeps_each_once() {
    let mut set = UrlSet::new();
    assert!(set.insert("https://a/1".to_string()));
    assert!(!set.insert("https://a/1".to_string()));
    set.extend(vec!["https://a/2".to_string(), "https://a/1".to_string(), "https://a/2".to_string()]);
    assert_eq!(set.len(), 2);
    assert_eq!(set.to_vec(), vec!["https://a/1".to_string(), "https://a/2".to_string()]);
}

#[test]
fn throttler_delays() {
    let mut t = Throttler::new(None);
    assert_eq!(t.interval, 1000);
    assert_eq!(t.delay(5000), 0);
    t.tick(5000);
    assert_eq!(t.delay(5200), 800);
    assert_eq!(t.delay(6000), 0);
    assert_eq!(t.delay(4000), 1000);
    let t = Throttler::new(Some(250));
    assert_eq!(t.interval, 250);
}

use truffles::cache::Cache;
use truffles::crawl::{Crawl, Event, Stage};
use truffles::listing::Listing;
use truffles::time::Timestamp;

const ROOT: &str = "https://www.bazaraki.com/real-estate/houses-and-villas-sale/?ordering=newest";

fn search_page() -> &'static str {
    "<html><body><a class=\"page-number js-page-filter\">1</a>\
     <a class=\"page-number js-page-filter\">2</a></body></html>"
}

fn result_page() -> &'static str {
    "<html><body><a class=\"announcement-block__title\" href=\"/adv/1/\">One</a>\
     <a class=\"announcement-block__title\" href=\"/adv/2/\">Two</a>\
     <a class=\"announcement-block__title\" href=\"/adv/1/\">One again</a></body></html>"
}

fn listing_page() -> &'static str {
    "<html><body><ul class=\"breadcrumbs\"><li>Properties</li></ul>\
     <span itemprop=\"sku\">1</span><meta itemprop=\"price\" content=\"1000\">\
     <span itemprop=\"address\">Nicosia</span>\
     <div class=\"announcement-characteristics\"><ul><li>Villa</li></ul></div>\
     <div class=\"announcement-description\">Nice.</div></body></html>"
}

fn at(day: u32) -> Timestamp {
    Timestamp::new(2021, 3, day, 12, 0, 0, 0).unwrap()
}

#[test]
fn crawl_goes_through_the_stages() {
    let mut cache = Cache::new();
    let now = at(20);
    let mut crawl = Crawl::new(Website::Bazaraki, vec![ROOT.to_string()], 30, false, &cache, &now);
    assert_eq!(crawl.stage(), Stage::Search);
    assert_eq!(crawl.next_url().unwrap(), ROOT);
    assert!(matches!(crawl.advance(Some(search_page().to_string()), &cache, &now), Event::Nothing));
    assert_eq!(crawl.stage(), Stage::Results);
    assert_eq!(crawl.next_url().unwrap(), &format!("{}&page=1", ROOT));
    assert!(matches!(crawl.advance(Some(result_page().to_string()), &cache, &now), Event::Nothing));
    assert_eq!(crawl.next_url().unwrap(), &format!("{}&page=2", ROOT));
    assert!(matches!(crawl.advance(None, &cache, &now), Event::Nothing));
    assert_eq!(crawl.stage(), Stage::Listings);
    assert_eq!(crawl.next_url().unwrap(), "https://www.bazaraki.com/adv/1/");
    match crawl.advance(Some(listing_page().to_string()), &cache, &now) {
        Event::Parsed(Ok(listing)) => {
            assert_eq!(listing.url(), "https://www.bazaraki.com/adv/1/");
            cache.add(listing);
        }
        other => panic!("unexpected {:?}", other),
    }
    assert_eq!(crawl.next_url().unwrap(), "https://www.bazaraki.com/adv/2/");
    match crawl.advance(Some("<html></html>".to_string()), &cache, &now) {
        Event::Parsed(Err(_)) => {}
        other => panic!("unexpected {:?}", other),
    }
    assert_eq!(crawl.stage(), Stage::Finished);
    assert!(crawl.next_url().is_none());
    assert_eq!(cache.len(), 1);
}

#[test]
fn crawl_skips_fresh_listings() {
    let mut cache = Cache::new();
    let page = listing_page();
    let fresh = truffles::parse::parse_bazaraki(page, "https://www.bazaraki.com/adv/1/", at(15)).unwrap();
    cache.add(fresh);
    let now = at(20);
    let mut crawl = Crawl::new(Website::Bazaraki, vec![ROOT.to_string()], 30, false, &cache, &now);
    crawl.advance(Some(search_page().to_string()), &cache, &now);
    crawl.advance(Some(result_page().to_string()), &cache, &now);
    crawl.advance(Some(result_page().to_string()), &cache, &now);
    assert_eq!(crawl.stage(), Stage::Listings);
    assert_eq!(crawl.next_url().unwrap(), "https://www.bazaraki.com/adv/2/");
    crawl.advance(None, &cache, &now);
    assert_eq!(crawl.stage(), Stage::Finished);

    let mut forced = Crawl::new(Website::Bazaraki, vec![ROOT.to_string()], 30, true, &cache, &now);
    forced.advance(Some(search_page().to_string()), &cache, &now);
    forced.advance(Some(result_page().to_string()), &cache, &now);
    forced.advance(None, &cache, &now);
    assert_eq!(forced.next_url().unwrap(), "https://www.bazaraki.com/adv/1/");
}

#[test]
fn crawl_without_pagination() {
    let cache = Cache::new();
    let now = at(20);
    let mut crawl = Crawl::new(Website::Bazaraki, vec![ROOT.to_string()], 30, false, &cache, &now);
    assert!(matches!(
        crawl.advance(Some("<html><body></body></html>".to_string()), &cache, &now),
        Event::NoPagination
    ));
    assert_eq!(crawl.stage(), Stage::Finished);
    let empty = Crawl::new(Website::Bazaraki, Vec::new(), 30, false, &cache, &now);
    assert_eq!(empty.stage(), Stage::Finished);
    let _ = Listing::Plot;
}
