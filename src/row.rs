//! The row format of the record store: one text field per record field, in
//! a fixed order, with an absent optional field written as an empty field.
use vstd::prelude::*;
use crate::area::Area;
use crate::cond::Condition;
use crate::error::{Error, ErrorKind};
use crate::plot::{Kind as PlotKind, Plot, PlotView};
use crate::property::{Kind as PropertyKind, Property, PropertyView};
use crate::site::{Website, website_name};
use crate::text::{
    views, decimal_digits, decimal_value, parse_unsigned, unsigned_digits, is_digit, all_digits,
    decimal_string, string_of, chars_of, chars_equal, parse_unsigned_str,
};
use crate::web::{parsed_url, parse_url};
use crate::time::{Timestamp, timestamp_text, timestamp_of_text, lemma_text_unique};

verus! {

pub open spec fn area_name(a: Area) -> Seq<char> {
    match a {
        Area::Ammochostos => "Ammochostos"@,
        Area::Larnaka => "Larnaka"@,
        Area::Lefkosia => "Lefkosia"@,
        Area::Limassol => "Limassol"@,
        Area::Paphos => "Paphos"@,
    }
}

pub open spec fn area_of_field(s: Seq<char>) -> Option<Area> {
    if s == "Ammochostos"@ {
        Some(Area::Ammochostos)
    } else if s == "Larnaka"@ {
        Some(Area::Larnaka)
    } else if s == "Lefkosia"@ {
        Some(Area::Lefkosia)
    } else if s == "Limassol"@ {
        Some(Area::Limassol)
    } else if s == "Paphos"@ {
        Some(Area::Paphos)
    } else {
        None
    }
}

pub open spec fn website_of_field(s: Seq<char>) -> Option<Website> {
    if s == "Bazaraki"@ {
        Some(Website::Bazaraki)
    } else if s == "Spitogatos"@ {
        Some(Website::Spitogatos)
    } else if s == "ImmobilienScout24"@ {
        Some(Website::ImmobilienScout24)
    } else {
        None
    }
}

pub open spec fn condition_name(c: Condition) -> Seq<char> {
    match c {
        Condition::New => "New"@,
        Condition::Resale => "Resale"@,
        Condition::UnderConstruction => "UnderConstruction"@,
    }
}

pub open spec fn condition_of_field(s: Seq<char>) -> Option<Condition> {
    if s == "New"@ {
        Some(Condition::New)
    } else if s == "Resale"@ {
        Some(Condition::Resale)
    } else if s == "UnderConstruction"@ {
        Some(Condition::UnderConstruction)
    } else {
        None
    }
}

pub open spec fn property_kind_name(k: PropertyKind) -> Seq<char> {
    match k {
        PropertyKind::Apartment => "Apartment"@,
        PropertyKind::Bungalow => "Bungalow"@,
        PropertyKind::Duplex => "Duplex"@,
        PropertyKind::House => "House"@,
        PropertyKind::Maisonette => "Maisonette"@,
        PropertyKind::Villa => "Villa"@,
    }
}

pub open spec fn property_kind_of_field(s: Seq<char>) -> Option<PropertyKind> {
    if s == "Apartment"@ {
        Some(PropertyKind::Apartment)
    } else if s == "Bungalow"@ {
        Some(PropertyKind::Bungalow)
    } else if s == "Duplex"@ {
        Some(PropertyKind::Duplex)
    } else if s == "House"@ {
        Some(PropertyKind::House)
    } else if s == "Maisonette"@ {
        Some(PropertyKind::Maisonette)
    } else if s == "Villa"@ {
        Some(PropertyKind::Villa)
    } else {
        None
    }
}

pub open spec fn plot_kind_name(k: PlotKind) -> Seq<char> {
    match k {
        PlotKind::Agricultural => "Agricultural"@,
        PlotKind::Commercial => "Commercial"@,
        PlotKind::Industrial => "Industrial"@,
        PlotKind::Residential => "Residential"@,
        PlotKind::Touristic => "Touristic"@,
    }
}

pub open spec fn plot_kind_of_field(s: Seq<char>) -> Option<PlotKind> {
    if s == "Agricultural"@ {
        Some(PlotKind::Agricultural)
    } else if s == "Commercial"@ {
        Some(PlotKind::Commercial)
    } else if s == "Industrial"@ {
        Some(PlotKind::Industrial)
    } else if s == "Residential"@ {
        Some(PlotKind::Residential)
    } else if s == "Touristic"@ {
        Some(PlotKind::Touristic)
    } else {
        None
    }
}

/// A URL as the URL parser writes it: text that parses as an absolute URL
/// and reads back unchanged.
pub open spec fn is_absolute_url(s: Seq<char>) -> bool {
    parsed_url(s) == Some(s)
}

/// An optional field: empty for an absent value.
pub open spec fn opt_field<T>(v: Option<T>, name: spec_fn(T) -> Seq<char>) -> Seq<char> {
    match v {
        None => Seq::empty(),
        Some(x) => name(x),
    }
}

/// Reads an optional field: `Some(None)` for an empty one, `None` for one
/// that does not read.
pub open spec fn opt_of_field<T>(s: Seq<char>, read: spec_fn(Seq<char>) -> Option<T>) -> Option<
    Option<T>,
> {
    if s.len() == 0 {
        Some(None)
    } else {
        match read(s) {
            Some(x) => Some(Some(x)),
            None => None,
        }
    }
}

pub open spec fn u32_text(v: u32) -> Seq<char> {
    decimal_digits(v as nat)
}

pub open spec fn u8_text(v: u8) -> Seq<char> {
    decimal_digits(v as nat)
}

pub open spec fn u32_of_field(s: Seq<char>) -> Option<u32> {
    match parse_unsigned(s, 0xffff_ffff) {
        Some(v) => Some(v as u32),
        None => None,
    }
}

pub open spec fn u8_of_field(s: Seq<char>) -> Option<u8> {
    match parse_unsigned(s, 255) {
        Some(v) => Some(v as u8),
        None => None,
    }
}

/// The names of the columns of a property row.
pub open spec fn property_header() -> Seq<Seq<char>> {
    seq![
        "id"@, "url"@, "website"@, "timestamp"@, "kind"@, "price"@, "area"@, "size"@, "cond"@,
        "year"@, "n_bedrooms"@, "n_bathrooms"@, "post_code"@,
    ]
}

/// The names of the columns of a plot row.
pub open spec fn plot_header() -> Seq<Seq<char>> {
    seq![
        "id"@, "url"@, "website"@, "timestamp"@, "price"@, "area"@, "kind"@, "size"@,
        "coverage"@, "density"@, "height"@, "storeys"@,
    ]
}

/// The row of a property record.
pub open spec fn property_row(p: PropertyView) -> Seq<Seq<char>> {
    seq![
        p.id,
        p.url,
        website_name(p.website),
        timestamp_text(p.timestamp),
        property_kind_name(p.kind),
        u32_text(p.price),
        area_name(p.area),
        opt_field(p.size, |v: u32| u32_text(v)),
        opt_field(p.cond, |c: Condition| condition_name(c)),
        opt_field(p.year, |v: u32| u32_text(v)),
        opt_field(p.n_bedrooms, |v: u8| u8_text(v)),
        opt_field(p.n_bathrooms, |v: u8| u8_text(v)),
        opt_field(p.post_code, |v: u32| u32_text(v)),
    ]
}

/// The row of a plot record.
pub open spec fn plot_row(p: PlotView) -> Seq<Seq<char>> {
    seq![
        p.id,
        p.url,
        website_name(p.website),
        timestamp_text(p.timestamp),
        u32_text(p.price),
        area_name(p.area),
        opt_field(p.kind, |k: PlotKind| plot_kind_name(k)),
        opt_field(p.size, |v: u32| u32_text(v)),
        opt_field(p.coverage, |v: u32| u32_text(v)),
        opt_field(p.density, |v: u32| u32_text(v)),
        opt_field(p.height, |v: u32| u32_text(v)),
        opt_field(p.storeys, |v: u32| u32_text(v)),
    ]
}

/// The property record a row holds, if it holds one.
pub open spec fn property_of_row(r: Seq<Seq<char>>) -> Option<PropertyView> {
    if r.len() != 13 {
        None
    } else {
        let website = website_of_field(r[2]);
        let timestamp = timestamp_of_text(r[3]);
        let kind = property_kind_of_field(r[4]);
        let price = u32_of_field(r[5]);
        let area = area_of_field(r[6]);
        let size = opt_of_field(r[7], |s: Seq<char>| u32_of_field(s));
        let cond = opt_of_field(r[8], |s: Seq<char>| condition_of_field(s));
        let year = opt_of_field(r[9], |s: Seq<char>| u32_of_field(s));
        let n_bedrooms = opt_of_field(r[10], |s: Seq<char>| u8_of_field(s));
        let n_bathrooms = opt_of_field(r[11], |s: Seq<char>| u8_of_field(s));
        let post_code = opt_of_field(r[12], |s: Seq<char>| u32_of_field(s));
        if is_absolute_url(r[1]) && website is Some && timestamp is Some && kind is Some && price is Some && area is Some
            && size is Some && cond is Some && year is Some && n_bedrooms is Some && n_bathrooms is Some
            && post_code is Some {
            Some(
                PropertyView {
                    id: r[0],
                    url: r[1],
                    website: website->0,
                    timestamp: timestamp->0,
                    kind: kind->0,
                    price: price->0,
                    area: area->0,
                    size: size->0,
                    cond: cond->0,
                    year: year->0,
                    n_bedrooms: n_bedrooms->0,
                    n_bathrooms: n_bathrooms->0,
                    post_code: post_code->0,
                },
            )
        } else {
            None
        }
    }
}

/// The plot record a row holds, if it holds one.
pub open spec fn plot_of_row(r: Seq<Seq<char>>) -> Option<PlotView> {
    if r.len() != 12 {
        None
    } else {
        let website = website_of_field(r[2]);
        let timestamp = timestamp_of_text(r[3]);
        let price = u32_of_field(r[4]);
        let area = area_of_field(r[5]);
        let kind = opt_of_field(r[6], |s: Seq<char>| plot_kind_of_field(s));
        let size = opt_of_field(r[7], |s: Seq<char>| u32_of_field(s));
        let coverage = opt_of_field(r[8], |s: Seq<char>| u32_of_field(s));
        let density = opt_of_field(r[9], |s: Seq<char>| u32_of_field(s));
        let height = opt_of_field(r[10], |s: Seq<char>| u32_of_field(s));
        let storeys = opt_of_field(r[11], |s: Seq<char>| u32_of_field(s));
        if is_absolute_url(r[1]) && website is Some && timestamp is Some && price is Some && area is Some && kind is Some
            && size is Some && coverage is Some && density is Some && height is Some
            && storeys is Some {
            Some(
                PlotView {
                    id: r[0],
                    url: r[1],
                    website: website->0,
                    timestamp: timestamp->0,
                    price: price->0,
                    area: area->0,
                    kind: kind->0,
                    size: size->0,
                    coverage: coverage->0,
                    density: density->0,
                    height: height->0,
                    storeys: storeys->0,
                },
            )
        } else {
            None
        }
    }
}

proof fn lemma_digit_char(d: nat)
    requires
        d < 10,
    ensures
        is_digit(crate::text::digit_char(d)),
        crate::text::digit_value(crate::text::digit_char(d)) == d,
{
    assert(crate::text::digit_char(d) as nat == d + 48);
}

proof fn lemma_decimal_digits(v: nat)
    ensures
        decimal_digits(v).len() > 0,
        all_digits(decimal_digits(v)),
        decimal_value(decimal_digits(v)) == v,
    decreases v,
{
    lemma_digit_char(v % 10);
    if v >= 10 {
        lemma_decimal_digits(v / 10);
        let d = decimal_digits(v);
        assert(d.drop_last() == decimal_digits(v / 10));
        assert(d.last() == crate::text::digit_char(v % 10));
        assert(decimal_value(d) == decimal_value(d.drop_last()) * 10 + crate::text::digit_value(d.last()));
        assert((v / 10) * 10 + v % 10 == v);
        assert forall|i: int| 0 <= i < d.len() implies is_digit(#[trigger] d[i]) by {
            if i < d.len() - 1 {
                assert(d[i] == d.drop_last()[i]);
            }
        }
    } else {
        lemma_digit_char(v);
        let d = decimal_digits(v);
        assert(d.drop_last() =~= Seq::<char>::empty());
        assert(decimal_value(d) == decimal_value(d.drop_last()) * 10 + crate::text::digit_value(d.last()));
        assert(decimal_value(Seq::<char>::empty()) == 0);
    }
}

/// A number written by the row format reads back as itself.
proof fn lemma_number_round_trip(v: nat, max: nat)
    requires
        v <= max,
    ensures
        parse_unsigned(decimal_digits(v), max) == Some(v),
{
    lemma_decimal_digits(v);
    assert(is_digit(decimal_digits(v)[0]));
    assert(unsigned_digits(decimal_digits(v)) == decimal_digits(v));
}

proof fn lemma_names()
    ensures
        forall|a: Area| #[trigger] area_of_field(area_name(a)) == Some(a),
        forall|w: Website| #[trigger] website_of_field(website_name(w)) == Some(w),
        forall|c: Condition| #[trigger] condition_of_field(condition_name(c)) == Some(c),
        forall|k: PropertyKind| #[trigger] property_kind_of_field(property_kind_name(k)) == Some(k),
        forall|k: PlotKind| #[trigger] plot_kind_of_field(plot_kind_name(k)) == Some(k),
{
    reveal_strlit("Ammochostos");
    reveal_strlit("Larnaka");
    reveal_strlit("Lefkosia");
    reveal_strlit("Limassol");
    reveal_strlit("Paphos");
    reveal_strlit("Bazaraki");
    reveal_strlit("Spitogatos");
    reveal_strlit("ImmobilienScout24");
    reveal_strlit("New");
    reveal_strlit("Resale");
    reveal_strlit("UnderConstruction");
    reveal_strlit("Apartment");
    reveal_strlit("Bungalow");
    reveal_strlit("Duplex");
    reveal_strlit("House");
    reveal_strlit("Maisonette");
    reveal_strlit("Villa");
    reveal_strlit("Agricultural");
    reveal_strlit("Commercial");
    reveal_strlit("Industrial");
    reveal_strlit("Residential");
    reveal_strlit("Touristic");
    assert("Ammochostos"@.len() == 11);
    assert("Larnaka"@.len() == 7);
    assert("Lefkosia"@.len() == 8);
    assert("Limassol"@.len() == 8);
    assert("Paphos"@.len() == 6);
    assert("Lefkosia"@[1] != "Limassol"@[1]);
    assert("Lefkosia"@ != "Limassol"@);
    assert("Bazaraki"@.len() == 8);
    assert("Spitogatos"@.len() == 10);
    assert("ImmobilienScout24"@.len() == 17);
    assert("New"@.len() == 3);
    assert("Resale"@.len() == 6);
    assert("UnderConstruction"@.len() == 17);
    assert("Apartment"@.len() == 9);
    assert("Bungalow"@.len() == 8);
    assert("Duplex"@.len() == 6);
    assert("House"@.len() == 5);
    assert("Maisonette"@.len() == 10);
    assert("Villa"@.len() == 5);
    assert("House"@[0] != "Villa"@[0]);
    assert("House"@ != "Villa"@);
    assert("Agricultural"@.len() == 12);
    assert("Commercial"@.len() == 10);
    assert("Industrial"@.len() == 10);
    assert("Residential"@.len() == 11);
    assert("Touristic"@.len() == 9);
    assert("Commercial"@[0] != "Industrial"@[0]);
    assert("Commercial"@ != "Industrial"@);
    assert forall|a: Area| #[trigger] area_of_field(area_name(a)) == Some(a) by {
        match a {
            _ => {},
        }
    }
    assert forall|w: Website| #[trigger] website_of_field(website_name(w)) == Some(w) by {
        match w {
            _ => {},
        }
    }
    assert forall|c: Condition| #[trigger] condition_of_field(condition_name(c)) == Some(c) by {
        match c {
            _ => {},
        }
    }
    assert forall|k: PropertyKind| #[trigger] property_kind_of_field(property_kind_name(k)) == Some(k) by {
        match k {
            _ => {},
        }
    }
    assert forall|k: PlotKind| #[trigger] plot_kind_of_field(plot_kind_name(k)) == Some(k) by {
        match k {
            _ => {},
        }
    }
}

/// Writing a property record as a row and reading the row back gives the
/// same record, field by field, absent optional fields included.
pub proof fn lemma_property_round_trip(p: PropertyView)
    requires
        p.timestamp.wf(),
        is_absolute_url(p.url),
    ensures
        property_of_row(property_row(p)) == Some(p),
{
    let r = property_row(p);
    lemma_names();
    lemma_text_unique(p.timestamp);
    lemma_number_round_trip(p.price as nat, 0xffff_ffff);
    lemma_decimal_digits(p.price as nat);
    if let Some(v) = p.size {
        lemma_number_round_trip(v as nat, 0xffff_ffff);
        lemma_decimal_digits(v as nat);
    }
    if let Some(v) = p.year {
        lemma_number_round_trip(v as nat, 0xffff_ffff);
        lemma_decimal_digits(v as nat);
    }
    if let Some(v) = p.post_code {
        lemma_number_round_trip(v as nat, 0xffff_ffff);
        lemma_decimal_digits(v as nat);
    }
    if let Some(v) = p.n_bedrooms {
        lemma_number_round_trip(v as nat, 255);
        lemma_decimal_digits(v as nat);
    }
    if let Some(v) = p.n_bathrooms {
        lemma_number_round_trip(v as nat, 255);
        lemma_decimal_digits(v as nat);
    }
    if let Some(c) = p.cond {
        reveal_strlit("New");
        reveal_strlit("Resale");
        reveal_strlit("UnderConstruction");
        assert(condition_name(c).len() > 0);
    }
    let q = property_of_row(r)->0;
    assert(q == p);
}

/// Writing a plot record as a row and reading the row back gives the same
/// record, field by field, absent optional fields included.
pub proof fn lemma_plot_round_trip(p: PlotView)
    requires
        p.timestamp.wf(),
        is_absolute_url(p.url),
    ensures
        plot_of_row(plot_row(p)) == Some(p),
{
    let r = plot_row(p);
    lemma_names();
    lemma_text_unique(p.timestamp);
    lemma_number_round_trip(p.price as nat, 0xffff_ffff);
    if let Some(v) = p.size {
        lemma_number_round_trip(v as nat, 0xffff_ffff);
        lemma_decimal_digits(v as nat);
    }
    if let Some(v) = p.coverage {
        lemma_number_round_trip(v as nat, 0xffff_ffff);
        lemma_decimal_digits(v as nat);
    }
    if let Some(v) = p.density {
        lemma_number_round_trip(v as nat, 0xffff_ffff);
        lemma_decimal_digits(v as nat);
    }
    if let Some(v) = p.height {
        lemma_number_round_trip(v as nat, 0xffff_ffff);
        lemma_decimal_digits(v as nat);
    }
    if let Some(v) = p.storeys {
        lemma_number_round_trip(v as nat, 0xffff_ffff);
        lemma_decimal_digits(v as nat);
    }
    if let Some(k) = p.kind {
        reveal_strlit("Agricultural");
        reveal_strlit("Commercial");
        reveal_strlit("Industrial");
        reveal_strlit("Residential");
        reveal_strlit("Touristic");
        assert(plot_kind_name(k).len() > 0);
    }
    let q = plot_of_row(r)->0;
    assert(q == p);
}

fn text_field(lit: &str) -> (r: String)
    ensures
        r@ == lit@,
{
    String::from_str(lit)
}

fn u32_field(v: u32) -> (r: String)
    ensures
        r@ == u32_text(v),
{
    let d = decimal_string(v as u64);
    string_of(&d)
}

fn opt_u32_field(v: Option<u32>) -> (r: String)
    ensures
        r@ == opt_field(v, |x: u32| u32_text(x)),
{
    match v {
        Some(x) => u32_field(x),
        None => String::new(),
    }
}

fn opt_u8_field(v: Option<u8>) -> (r: String)
    ensures
        r@ == opt_field(v, |x: u8| u8_text(x)),
{
    match v {
        Some(x) => {
            let d = decimal_string(x as u64);
            string_of(&d)
        },
        None => String::new(),
    }
}

fn read_u32(s: &String) -> (r: Option<u32>)
    ensures
        r == u32_of_field(s@),
{
    parse_unsigned_str(s.as_str(), 0xffff_ffff)
}

fn read_u8(s: &String) -> (r: Option<u8>)
    ensures
        r == u8_of_field(s@),
{
    match parse_unsigned_str(s.as_str(), 255) {
        Some(v) => Some(v as u8),
        None => None,
    }
}

fn read_opt_u32(s: &String) -> (r: Option<Option<u32>>)
    ensures
        r == opt_of_field(s@, |x: Seq<char>| u32_of_field(x)),
{
    if s.as_str().is_empty() {
        return Some(None);
    }
    match read_u32(s) {
        Some(v) => Some(Some(v)),
        None => None,
    }
}

fn read_opt_u8(s: &String) -> (r: Option<Option<u8>>)
    ensures
        r == opt_of_field(s@, |x: Seq<char>| u8_of_field(x)),
{
    if s.as_str().is_empty() {
        return Some(None);
    }
    match read_u8(s) {
        Some(v) => Some(Some(v)),
        None => None,
    }
}

fn area_field(a: Area) -> (r: &'static str)
    ensures
        r@ == area_name(a),
{
    match a {
        Area::Ammochostos => "Ammochostos",
        Area::Larnaka => "Larnaka",
        Area::Lefkosia => "Lefkosia",
        Area::Limassol => "Limassol",
        Area::Paphos => "Paphos",
    }
}

fn read_area(s: &String) -> (r: Option<Area>)
    ensures
        r == area_of_field(s@),
{
    let v = chars_of(s.as_str());
    if chars_equal(&v, "Ammochostos") {
        Some(Area::Ammochostos)
    } else if chars_equal(&v, "Larnaka") {
        Some(Area::Larnaka)
    } else if chars_equal(&v, "Lefkosia") {
        Some(Area::Lefkosia)
    } else if chars_equal(&v, "Limassol") {
        Some(Area::Limassol)
    } else if chars_equal(&v, "Paphos") {
        Some(Area::Paphos)
    } else {
        None
    }
}

fn read_website(s: &String) -> (r: Option<Website>)
    ensures
        r == website_of_field(s@),
{
    let v = chars_of(s.as_str());
    if chars_equal(&v, "Bazaraki") {
        Some(Website::Bazaraki)
    } else if chars_equal(&v, "Spitogatos") {
        Some(Website::Spitogatos)
    } else if chars_equal(&v, "ImmobilienScout24") {
        Some(Website::ImmobilienScout24)
    } else {
        None
    }
}

fn condition_field(c: Option<Condition>) -> (r: String)
    ensures
        r@ == opt_field(c, |x: Condition| condition_name(x)),
{
    match c {
        Some(Condition::New) => text_field("New"),
        Some(Condition::Resale) => text_field("Resale"),
        Some(Condition::UnderConstruction) => text_field("UnderConstruction"),
        None => String::new(),
    }
}

fn read_condition(s: &String) -> (r: Option<Option<Condition>>)
    ensures
        r == opt_of_field(s@, |x: Seq<char>| condition_of_field(x)),
{
    let v = chars_of(s.as_str());
    if v.len() == 0 {
        Some(None)
    } else if chars_equal(&v, "New") {
        Some(Some(Condition::New))
    } else if chars_equal(&v, "Resale") {
        Some(Some(Condition::Resale))
    } else if chars_equal(&v, "UnderConstruction") {
        Some(Some(Condition::UnderConstruction))
    } else {
        None
    }
}

fn property_kind_field(k: PropertyKind) -> (r: &'static str)
    ensures
        r@ == property_kind_name(k),
{
    match k {
        PropertyKind::Apartment => "Apartment",
        PropertyKind::Bungalow => "Bungalow",
        PropertyKind::Duplex => "Duplex",
        PropertyKind::House => "House",
        PropertyKind::Maisonette => "Maisonette",
        PropertyKind::Villa => "Villa",
    }
}

fn read_property_kind(s: &String) -> (r: Option<PropertyKind>)
    ensures
        r == property_kind_of_field(s@),
{
    let v = chars_of(s.as_str());
    if chars_equal(&v, "Apartment") {
        Some(PropertyKind::Apartment)
    } else if chars_equal(&v, "Bungalow") {
        Some(PropertyKind::Bungalow)
    } else if chars_equal(&v, "Duplex") {
        Some(PropertyKind::Duplex)
    } else if chars_equal(&v, "House") {
        Some(PropertyKind::House)
    } else if chars_equal(&v, "Maisonette") {
        Some(PropertyKind::Maisonette)
    } else if chars_equal(&v, "Villa") {
        Some(PropertyKind::Villa)
    } else {
        None
    }
}

fn plot_kind_field(k: Option<PlotKind>) -> (r: String)
    ensures
        r@ == opt_field(k, |x: PlotKind| plot_kind_name(x)),
{
    match k {
        Some(PlotKind::Agricultural) => text_field("Agricultural"),
        Some(PlotKind::Commercial) => text_field("Commercial"),
        Some(PlotKind::Industrial) => text_field("Industrial"),
        Some(PlotKind::Residential) => text_field("Residential"),
        Some(PlotKind::Touristic) => text_field("Touristic"),
        None => String::new(),
    }
}

fn read_plot_kind(s: &String) -> (r: Option<Option<PlotKind>>)
    ensures
        r == opt_of_field(s@, |x: Seq<char>| plot_kind_of_field(x)),
{
    let v = chars_of(s.as_str());
    if v.len() == 0 {
        Some(None)
    } else if chars_equal(&v, "Agricultural") {
        Some(Some(PlotKind::Agricultural))
    } else if chars_equal(&v, "Commercial") {
        Some(Some(PlotKind::Commercial))
    } else if chars_equal(&v, "Industrial") {
        Some(Some(PlotKind::Industrial))
    } else if chars_equal(&v, "Residential") {
        Some(Some(PlotKind::Residential))
    } else if chars_equal(&v, "Touristic") {
        Some(Some(PlotKind::Touristic))
    } else {
        None
    }
}

fn timestamp_field(t: &Timestamp) -> (r: String)
    requires
        t.wf(),
    ensures
        r@ == timestamp_text(*t),
{
    let v = t.to_text();
    string_of(&v)
}

fn read_timestamp(s: &String) -> (r: Option<Timestamp>)
    ensures
        r == timestamp_of_text(s@),
{
    let v = chars_of(s.as_str());
    Timestamp::from_text(&v)
}

fn check_url(s: &String) -> (r: bool)
    ensures
        r == is_absolute_url(s@),
{
    match parse_url(s.as_str()) {
        Some(u) => u == *s,
        None => false,
    }
}

fn bad_row() -> (e: Error)
    ensures
        e.kind == ErrorKind::BadRow,
{
    Error::new(ErrorKind::BadRow, "the row does not hold a record")
}

fn header_of(names: &[&str]) -> (r: Vec<String>)
    ensures
        views(r@) == names@.map_values(|n: &str| n@),
{
    let mut r: Vec<String> = Vec::new();
    let mut i: usize = 0;
    while i < names.len()
        invariant
            i <= names.len(),
            views(r@) == names@.take(i as int).map_values(|n: &str| n@),
        decreases names.len() - i,
    {
        let ghost before = views(r@);
        r.push(String::from_str(names[i]));
        assert(views(r@) =~= before.push(names@[i as int]@));
        assert(names@.take(i + 1).map_values(|n: &str| n@) =~= names@.take(i as int).map_values(|n: &str| n@).push(names@[i as int]@));
        i = i + 1;
    }
    assert(names@.take(i as int) == names@);
    r
}

impl Property {
    /// The names of the columns of a property row.
    pub fn header() -> (r: Vec<String>)
        ensures
            views(r@) == property_header(),
    {
        let names: [&str; 13] = [
            "id", "url", "website", "timestamp", "kind", "price", "area", "size", "cond", "year",
            "n_bedrooms", "n_bathrooms", "post_code",
        ];
        let r = header_of(&names);
        assert(names@.map_values(|n: &str| n@) =~= property_header());
        r
    }

    /// The record as a row.
    pub fn to_row(&self) -> (r: Vec<String>)
        requires
            self.wf(),
        ensures
            views(r@) == property_row(self@),
    {
        let r = vec![
            self.id.clone(),
            self.url.clone(),
            text_field(self.website.name()),
            timestamp_field(&self.timestamp),
            text_field(property_kind_field(self.kind)),
            u32_field(self.price),
            text_field(area_field(self.area)),
            opt_u32_field(self.size),
            condition_field(self.cond),
            opt_u32_field(self.year),
            opt_u8_field(self.n_bedrooms),
            opt_u8_field(self.n_bathrooms),
            opt_u32_field(self.post_code),
        ];
        assert(views(r@) =~= property_row(self@));
        r
    }

    /// The property record a row holds.
    pub fn from_row(row: &Vec<String>) -> (r: Result<Property, Error>)
        ensures
            match property_of_row(views(row@)) {
                Some(v) => r matches Ok(p) && p@ == v,
                None => r matches Err(e) && e.kind == ErrorKind::BadRow,
            },
    {
        let ghost rv = views(row@);
        if row.len() != 13 {
            return Err(bad_row());
        }
        assert(forall|i: int| 0 <= i < 13 ==> #[trigger] rv[i] == row@[i]@);
        if !check_url(&row[1]) {
            return Err(bad_row());
        }
        let website = match read_website(&row[2]) {
            Some(w) => w,
            None => return Err(bad_row()),
        };
        let timestamp = match read_timestamp(&row[3]) {
            Some(t) => t,
            None => return Err(bad_row()),
        };
        let kind = match read_property_kind(&row[4]) {
            Some(k) => k,
            None => return Err(bad_row()),
        };
        let price = match read_u32(&row[5]) {
            Some(v) => v,
            None => return Err(bad_row()),
        };
        let area = match read_area(&row[6]) {
            Some(a) => a,
            None => return Err(bad_row()),
        };
        let size = match read_opt_u32(&row[7]) {
            Some(v) => v,
            None => return Err(bad_row()),
        };
        let cond = match read_condition(&row[8]) {
            Some(v) => v,
            None => return Err(bad_row()),
        };
        let year = match read_opt_u32(&row[9]) {
            Some(v) => v,
            None => return Err(bad_row()),
        };
        let n_bedrooms = match read_opt_u8(&row[10]) {
            Some(v) => v,
            None => return Err(bad_row()),
        };
        let n_bathrooms = match read_opt_u8(&row[11]) {
            Some(v) => v,
            None => return Err(bad_row()),
        };
        let post_code = match read_opt_u32(&row[12]) {
            Some(v) => v,
            None => return Err(bad_row()),
        };
        Ok(
            Property::new(
                row[0].clone(),
                row[1].clone(),
                website,
                timestamp,
                kind,
                price,
                area,
                size,
                cond,
                year,
                n_bedrooms,
                n_bathrooms,
                post_code,
            ),
        )
    }
}

impl Plot {
    /// The names of the columns of a plot row.
    pub fn header() -> (r: Vec<String>)
        ensures
            views(r@) == plot_header(),
    {
        let names: [&str; 12] = [
            "id", "url", "website", "timestamp", "price", "area", "kind", "size", "coverage",
            "density", "height", "storeys",
        ];
        let r = header_of(&names);
        assert(names@.map_values(|n: &str| n@) =~= plot_header());
        r
    }

    /// The record as a row.
    pub fn to_row(&self) -> (r: Vec<String>)
        requires
            self.wf(),
        ensures
            views(r@) == plot_row(self@),
    {
        let r = vec![
            self.id.clone(),
            self.url.clone(),
            text_field(self.website.name()),
            timestamp_field(&self.timestamp),
            u32_field(self.price),
            text_field(area_field(self.area)),
            plot_kind_field(self.kind),
            opt_u32_field(self.size),
            opt_u32_field(self.coverage),
            opt_u32_field(self.density),
            opt_u32_field(self.height),
            opt_u32_field(self.storeys),
        ];
        assert(views(r@) =~= plot_row(self@));
        r
    }

    /// The plot record a row holds.
    pub fn from_row(row: &Vec<String>) -> (r: Result<Plot, Error>)
        ensures
            match plot_of_row(views(row@)) {
                Some(v) => r matches Ok(p) && p@ == v,
                None => r matches Err(e) && e.kind == ErrorKind::BadRow,
            },
    {
        let ghost rv = views(row@);
        if row.len() != 12 {
            return Err(bad_row());
        }
        assert(forall|i: int| 0 <= i < 12 ==> #[trigger] rv[i] == row@[i]@);
        if !check_url(&row[1]) {
            return Err(bad_row());
        }
        let website = match read_website(&row[2]) {
            Some(w) => w,
            None => return Err(bad_row()),
        };
        let timestamp = match read_timestamp(&row[3]) {
            Some(t) => t,
            None => return Err(bad_row()),
        };
        let price = match read_u32(&row[4]) {
            Some(v) => v,
            None => return Err(bad_row()),
        };
        let area = match read_area(&row[5]) {
            Some(a) => a,
            None => return Err(bad_row()),
        };
        let kind = match read_plot_kind(&row[6]) {
            Some(v) => v,
            None => return Err(bad_row()),
        };
        let size = match read_opt_u32(&row[7]) {
            Some(v) => v,
            None => return Err(bad_row()),
        };
        let coverage = match read_opt_u32(&row[8]) {
            Some(v) => v,
            None => return Err(bad_row()),
        };
        let density = match read_opt_u32(&row[9]) {
            Some(v) => v,
            None => return Err(bad_row()),
        };
        let height = match read_opt_u32(&row[10]) {
            Some(v) => v,
            None => return Err(bad_row()),
        };
        let storeys = match read_opt_u32(&row[11]) {
            Some(v) => v,
            None => return Err(bad_row()),
        };
        Ok(
            Plot::new(
                row[0].clone(),
                row[1].clone(),
                website,
                timestamp,
                price,
                area,
                kind,
                size,
                coverage,
                density,
                height,
                storeys,
            ),
        )
    }
}

} // verus!
