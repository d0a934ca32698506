//! Built properties: their kinds and their records.
use vstd::prelude::*;
use crate::area::Area;
use crate::cond::Condition;
use crate::lookup::{Lookup, classify, rule_views};
use crate::site::Website;
use crate::time::Timestamp;

verus! {

/// The kind of a built property.
#[derive(Clone, Copy, Debug, PartialEq, Eq, Hash, Structural)]
pub enum Kind {
    Apartment,
    Bungalow,
    Duplex,
    House,
    Maisonette,
    Villa,
}

impl Default for Kind {
    fn default() -> (r: Kind)
        ensures
            r == Kind::Villa,
    {
        Kind::Villa
    }
}

impl Kind {
    pub(crate) fn rule_table() -> (r: Vec<(&'static str, Kind)>)
        ensures
            rule_views(r@) == <Kind as Lookup>::rules(),
    {
        let r = vec![
            ("(?i)apartment|penthouse", Kind::Apartment),
            ("(?i)house", Kind::House),
            ("(?i)semi-*detached", Kind::Duplex),
            ("(?i)maisonette", Kind::Maisonette),
            ("(?i)bungalow", Kind::Bungalow),
            ("(?i)villa", Kind::Villa),
        ];
        assert(rule_views(r@) =~= <Kind as Lookup>::rules());
        r
    }
}

impl Lookup for Kind {
    /// Flats before houses, and the broader names before the narrower ones.
    open spec fn rules() -> Seq<(Seq<char>, Kind)> {
        seq![
            ("(?i)apartment|penthouse"@, Kind::Apartment),
            ("(?i)house"@, Kind::House),
            ("(?i)semi-*detached"@, Kind::Duplex),
            ("(?i)maisonette"@, Kind::Maisonette),
            ("(?i)bungalow"@, Kind::Bungalow),
            ("(?i)villa"@, Kind::Villa),
        ]
    }

    fn lookup(from: &str) -> (r: Option<Kind>) {
        let rules = Kind::rule_table();
        classify(&rules, from)
    }
}

/// The record of a built property offered for sale.
#[derive(Clone, Debug, PartialEq)]
pub struct Property {
    /// Identifier, prefixed with the site's name.
    pub id: String,
    /// The listing's address: the record's key.
    pub url: String,
    pub website: Website,
    /// When the listing was read.
    pub timestamp: Timestamp,
    pub kind: Kind,
    /// Price in euros.
    pub price: u32,
    pub area: Area,
    /// Size in square metres.
    pub size: Option<u32>,
    pub cond: Option<Condition>,
    /// Year of construction.
    pub year: Option<u32>,
    pub n_bedrooms: Option<u8>,
    pub n_bathrooms: Option<u8>,
    pub post_code: Option<u32>,
}

/// A property record with its texts as character sequences.
pub struct PropertyView {
    pub id: Seq<char>,
    pub url: Seq<char>,
    pub website: Website,
    pub timestamp: Timestamp,
    pub kind: Kind,
    pub price: u32,
    pub area: Area,
    pub size: Option<u32>,
    pub cond: Option<Condition>,
    pub year: Option<u32>,
    pub n_bedrooms: Option<u8>,
    pub n_bathrooms: Option<u8>,
    pub post_code: Option<u32>,
}

impl View for Property {
    type V = PropertyView;

    open spec fn view(&self) -> PropertyView {
        PropertyView {
            id: self.id@,
            url: self.url@,
            website: self.website,
            timestamp: self.timestamp,
            kind: self.kind,
            price: self.price,
            area: self.area,
            size: self.size,
            cond: self.cond,
            year: self.year,
            n_bedrooms: self.n_bedrooms,
            n_bathrooms: self.n_bathrooms,
            post_code: self.post_code,
        }
    }
}

impl Property {
    pub open spec fn wf(&self) -> bool {
        self.timestamp.wf()
    }

    pub fn new(
        id: String,
        url: String,
        website: Website,
        timestamp: Timestamp,
        kind: Kind,
        price: u32,
        area: Area,
        size: Option<u32>,
        cond: Option<Condition>,
        year: Option<u32>,
        n_bedrooms: Option<u8>,
        n_bathrooms: Option<u8>,
        post_code: Option<u32>,
    ) -> (r: Property)
        ensures
            r == (Property {
                id,
                url,
                website,
                timestamp,
                kind,
                price,
                area,
                size,
                cond,
                year,
                n_bedrooms,
                n_bathrooms,
                post_code,
            }),
    {
        Property {
            id,
            url,
            website,
            timestamp,
            kind,
            price,
            area,
            size,
            cond,
            year,
            n_bedrooms,
            n_bathrooms,
            post_code,
        }
    }
}

} // verus!
