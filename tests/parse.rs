use truffles::area::Area;
use truffles::cache::Cache;
use truffles::cond::Condition;
use truffles::error::{ErrorKind, Part};
use truffles::listing::Listing;
use truffles::lookup::Lookup;
use truffles::parse::{parse_bazaraki, parse_bedrooms, parse_coverage, parse_price, parse_size, parse_year, CoverageParser};
use truffles::plot::Kind as PlotKind;
use truffles::property::Kind as PropertyKind;
use truffles::site::Website;
use truffles::time::Timestamp;

fn property_page(with_price: bool) -> String {
    let price = if with_price {
        "<meta itemprop=\"price\" content=\"250000.00\">"
    } else {
        ""
    };
    format!(
        "<html><head><title>Flat</title></head><body>\
         <ul class=\"breadcrumbs\"><li><a href=\"/real-estate/\">Real estate</a></li>\
         <li><a href=\"/real-estate/houses-and-villas-sale/\">Properties for sale</a></li></ul>\
         <span itemprop=\"sku\">12345</span>{}\
         <span itemprop=\"address\">Limassol, Germasogeia</span>\
         <div class=\"announcement-characteristics\"><ul>\
         <li><span>Property type:</span> <a href=\"#\">Apartment</a></li>\
         <li><span>Condition:</span> <a href=\"#\">Resale</a></li>\
         <li><span>Bedrooms:</span> <a href=\"#\"> 3 </a></li>\
         <li><span>Bathrooms:</span> <span>2</span></li>\
         <li><span>Postal code:</span> <span>4046</span></li>\
         <li><span>Property area:</span> <span>120 m²</span></li>\
         </ul></div>\
         <div class=\"announcement-description\"><p>Built in 1995, renovated in 2018.</p></div>\
         </body></html>",
        price
    )
}

fn plot_page() -> String {
    "<html><body>\
     <ul class=\"breadcrumbs\"><li><a href=\"/real-estate/land-and-plot/\">Land and plot</a></li></ul>\
     <span itemprop=\"sku\">777</span>\
     <meta itemprop=\"price\" content=\"90000\">\
     <span itemprop=\"address\">Pafos, Peyia</span>\
     <div class=\"announcement-characteristics\"><ul>\
     <li><span>Type:</span> <a href=\"#\">Residential</a></li>\
     <li><span>Plot area:</span> <span>600 m²</span></li>\
     </ul></div>\
     <div class=\"announcement-description\">Maximum building coverage factor: 40%</div>\
     </body></html>"
        .to_string()
}

fn now() -> Timestamp {
    Timestamp::new(2021, 3, 4, 5, 6, 7, 0).unwrap()
}

#[test]
fn bazaraki_property_page() {
    let page = property_page(true);
    let listing = parse_bazaraki(&page, "https://www.bazaraki.com/adv/12345/", now()).unwrap();
    match listing {
        Listing::Property(p) => {
            assert_eq!(p.id, "bazaraki_12345");
            assert_eq!(p.url, "https://www.bazaraki.com/adv/12345/");
            assert_eq!(p.website, Website::Bazaraki);
            assert_eq!(p.timestamp, now());
            assert_eq!(p.kind, PropertyKind::Apartment);
            assert_eq!(p.price, 250000);
            assert_eq!(p.area, Area::Limassol);
            assert_eq!(p.size, Some(120));
            assert_eq!(p.cond, Some(Condition::Resale));
            assert_eq!(p.year, Some(1995));
            assert_eq!(p.n_bedrooms, Some(3));
            assert_eq!(p.n_bathrooms, Some(2));
            assert_eq!(p.post_code, Some(4046));
        }
        Listing::Plot(_) => panic!("a property page read as a plot"),
    }
}

#[test]
fn bazaraki_plot_page() {
    let listing = parse_bazaraki(&plot_page(), "https://www.bazaraki.com/adv/777/", now()).unwrap();
    match listing {
        Listing::Plot(p) => {
            assert_eq!(p.id, "bazaraki_777");
            assert_eq!(p.price, 90000);
            assert_eq!(p.area, Area::Paphos);
            assert_eq!(p.kind, Some(PlotKind::Residential));
            assert_eq!(p.size, Some(600));
            assert_eq!(p.coverage, Some(40));
            assert_eq!(p.density, None);
            assert_eq!(p.height, None);
            assert_eq!(p.storeys, None);
        }
        Listing::Property(_) => panic!("a plot page read as a property"),
    }
}

#[test]
fn missing_price_is_a_structural_error() {
    let page = property_page(false);
    let err = parse_bazaraki(&page, "https://www.bazaraki.com/adv/12345/", now()).unwrap_err();
    assert_eq!(err.kind, ErrorKind::Structure(Part::Price));
}

#[test]
fn missing_sku_comes_first() {
    let err = parse_bazaraki("<html><body></body></html>", "https://x.org/", now()).unwrap_err();
    assert_eq!(err.kind, ErrorKind::Structure(Part::Id));
}

#[test]
fn unknown_area_is_a_structural_error() {
    let page = property_page(true).replace("Limassol", "Athens");
    let err = parse_bazaraki(&page, "https://x.org/", now()).unwrap_err();
    assert_eq!(err.kind, ErrorKind::Structure(Part::Address));
}

#[test]
fn other_sites_are_not_read() {
    let page = property_page(true);
    let err = Listing::try_from_html(&page, "https://x.org/", &Website::Spitogatos, now()).unwrap_err();
    assert_eq!(err.kind, ErrorKind::Other);
    assert!(Listing::try_from_html(&page, "https://x.org/", &Website::Bazaraki, now()).is_ok());
}

#[test]
fn studio_has_no_bedrooms() {
    let chars = "<ul><li><span>Type:</span> <a>Studio</a></li><li><span>Bedrooms:</span> <a>2</a></li></ul>";
    assert_eq!(parse_bedrooms(chars), Some(0));
    let chars = "<ul><li><span>Bedrooms:</span> <a>2</a></li></ul>";
    assert_eq!(parse_bedrooms(chars), Some(2));
    let chars = "<ul><li><span>Bedrooms:</span> <a>many</a></li></ul>";
    assert_eq!(parse_bedrooms(chars), None);
    let chars = "<ul><li><span>Bedrooms:</span> 2</li></ul>";
    assert_eq!(parse_bedrooms(chars), None);
    assert_eq!(parse_bedrooms("<ul><li>Kitchen</li></ul>"), None);
}

#[test]
fn coverage_literal_inputs() {
    assert_eq!(parse_coverage("Maximum Building Coverage Factor: 42%"), Some(42));
    assert_eq!(parse_coverage("42% max cover"), Some(42));
    assert_eq!(parse_coverage("Μέγιστος Συντελεστής Κάλυψης: 42%"), Some(42));
    assert_eq!(parse_coverage("no factor given"), None);
    assert_eq!(parse_coverage("coverage 99999999999%"), None);
}

#[test]
fn coverage_parser() {
    let parser = CoverageParser::new();
    for max in vec!["", "max", "maximum"] {
        for build in vec!["", "build", "building"] {
            for cover in vec!["cover", "coverage"] {
                for factor in vec!["", "coefficient", "factor "] {
                    for space in vec!["", " ", "\t"] {
                        for of in vec!["", "of", "is"] {
                            for colon in vec!["", ":"] {
                                let lowercase = format!(
                                    "{} {} {} {} {} {} 42{}%",
                                    max, build, cover, factor, of, colon, space
                                );
                                let uppercase = lowercase.to_uppercase();
                                assert_eq!(parser.parse(&lowercase), Some(42));
                                assert_eq!(parser.parse(&uppercase), Some(42));
                            }
                        }
                        let lowercase = format!("42{}% {} {} {} {}", space, max, build, cover, factor,);
                        let uppercase = lowercase.to_uppercase();
                        assert_eq!(parser.parse(&lowercase), Some(42));
                        assert_eq!(parser.parse(&uppercase), Some(42));
                    }
                }
            }
        }
    }

    for max in vec!["", "μεγιστο", "μέγιστο", "μεγιστος", "μέγιστος"] {
        for factor in vec!["", "συντελεστη", "συντελεστή", "συντελεστης", "συντελεστής"] {
            for cover in vec!["καλυψη", "κάλυψη", "καλυψης", "κάλυψης"] {
                for space in vec!["", " ", "\t"] {
                    for colon in vec!["", ":"] {
                        let lowercase = format!("{} {} {} {} 42{}%", max, factor, cover, colon, space);
                        let uppercase = lowercase.to_uppercase();
                        assert_eq!(parser.parse(&lowercase), Some(42));
                        assert_eq!(parser.parse(&uppercase), Some(42));
                    }
                    let lowercase = format!("42{}% {} {} {}", space, max, factor, cover);
                    let uppercase = lowercase.to_uppercase();
                    assert_eq!(parser.parse(&lowercase), Some(42));
                    assert_eq!(parser.parse(&uppercase), Some(42));
                }
            }
        }
    }
}

#[test]
fn price_text() {
    assert_eq!(parse_price("250000.00"), Some(250000));
    assert_eq!(parse_price("99.99"), Some(99));
    assert_eq!(parse_price("+12"), Some(12));
    assert_eq!(parse_price(".5"), Some(0));
    assert_eq!(parse_price("4294967295"), Some(4294967295));
    assert_eq!(parse_price("4294967296"), None);
    assert_eq!(parse_price(""), None);
    assert_eq!(parse_price("."), None);
    assert_eq!(parse_price("12a"), None);
    assert_eq!(parse_price("++12"), None);
    assert_eq!(parse_price("1e5"), Some(100000));
    assert_eq!(parse_price("1.5E3"), Some(1500));
    assert_eq!(parse_price("12345e-2"), Some(123));
    assert_eq!(parse_price("2.5e+1"), Some(25));
    assert_eq!(parse_price("-0"), Some(0));
    assert_eq!(parse_price("-0.5"), Some(0));
    assert_eq!(parse_price("-5"), None);
    assert_eq!(parse_price("1e10"), None);
    assert_eq!(parse_price("0e99999999999999999999999999"), Some(0));
    assert_eq!(parse_price("5e-99999999999999999999999999"), Some(0));
    assert_eq!(parse_price("1e"), None);
    assert_eq!(parse_price("e5"), None);
    assert_eq!(parse_price("1e5.0"), None);
}

#[test]
fn size_and_year() {
    assert_eq!(parse_size("<span>85 m²</span>"), Some(85));
    assert_eq!(parse_size("<span>85 sq ft</span>"), None);
    assert_eq!(parse_year("Built 2005, renovated 1999 and 2021"), Some(1999));
    assert_eq!(parse_year("No years here, only 1850 and 2045"), None);
}

#[test]
fn area_synonyms() {
    let pairs = [
        ("Nicosia", "Lefkosia", Area::Lefkosia),
        ("Limassol", "Lemesos", Area::Limassol),
        ("Larnaca", "Larnaka", Area::Larnaka),
        ("Paphos", "Pafos", Area::Paphos),
        ("Famagusta", "Ammochostos", Area::Ammochostos),
    ];
    for (a, b, area) in pairs.iter() {
        assert_eq!(Area::lookup(a), Some(*area));
        assert_eq!(Area::lookup(b), Some(*area));
        assert_eq!(Area::lookup(&format!("District of {}", b.to_lowercase())), Some(*area));
        assert_eq!(Area::from_str(a).unwrap(), *area);
        assert_eq!(Area::from_str(&format!("  {}  ", b.to_uppercase())).unwrap(), *area);
    }
    assert_eq!(Area::lookup("Athens"), None);
    assert_eq!(Area::from_str("Athens").unwrap_err().kind, ErrorKind::UnknownName);
}

#[test]
fn property_kind_ignores_case() {
    for text in ["Penthouse", "penthouse", "PENTHOUSE", "Apartment", "aPaRtMeNt"] {
        assert_eq!(PropertyKind::lookup(text), Some(PropertyKind::Apartment));
    }
    for text in ["Semi-Detached", "semi-detached", "SEMI-DETACHED", "SemiDetached"] {
        assert_eq!(PropertyKind::lookup(text), Some(PropertyKind::Duplex));
    }
    assert_eq!(PropertyKind::lookup("Semi-detached house"), Some(PropertyKind::House));
    assert_eq!(PropertyKind::lookup("VILLA"), Some(PropertyKind::Villa));
    assert_eq!(PropertyKind::lookup("Office"), None);
    assert_eq!(PropertyKind::default(), PropertyKind::Villa);
}

#[test]
fn other_lookups() {
    assert_eq!(Condition::lookup("Brand   new"), Some(Condition::New));
    assert_eq!(Condition::lookup("Under construction"), Some(Condition::UnderConstruction));
    assert_eq!(Condition::lookup("resale, brand new"), Some(Condition::Resale));
    assert_eq!(Condition::from(" Used "), Some(Condition::Resale));
    assert_eq!(Condition::from("broken"), None);
    assert_eq!(PlotKind::lookup("Touristic zone"), Some(PlotKind::Touristic));
    assert_eq!(PlotKind::lookup("agricultural"), Some(PlotKind::Agricultural));
    assert_eq!(PlotKind::lookup("Forest"), None);
}

#[test]
fn sibling_listings_unaffected() {
    let mut cache = Cache::new();
    let pages = [
        (property_page(false), "https://www.bazaraki.com/adv/1/"),
        (plot_page(), "https://www.bazaraki.com/adv/2/"),
        (property_page(true), "https://www.bazaraki.com/adv/3/"),
    ];
    for (page, url) in pages.iter() {
        if let Ok(listing) = parse_bazaraki(page, url, now()) {
            cache.add(listing);
        }
    }
    assert_eq!(cache.len(), 2);
    assert!(cache.positions("https://www.bazaraki.com/adv/1/").is_empty());
    assert_eq!(cache.positions("https://www.bazaraki.com/adv/2/"), vec![0]);
    assert_eq!(cache.positions("https://www.bazaraki.com/adv/3/"), vec![1]);
}
