//! Plots of land: their kinds and their records.
use vstd::prelude::*;
use crate::area::Area;
use crate::lookup::{Lookup, classify, rule_views};
use crate::site::Website;
use crate::time::Timestamp;

verus! {

/// What a plot is zoned for.
#[derive(Clone, Copy, Debug, PartialEq, Eq, Hash, Structural)]
pub enum Kind {
    Agricultural,
    Commercial,
    Industrial,
    Residential,
    Touristic,
}

impl Kind {
    pub(crate) fn rule_table() -> (r: Vec<(&'static str, Kind)>)
        ensures
            rule_views(r@) == <Kind as Lookup>::rules(),
    {
        let r = vec![
            ("(?i)agricultural", Kind::Agricultural),
            ("(?i)commercial", Kind::Commercial),
            ("(?i)industrial", Kind::Industrial),
            ("(?i)residential", Kind::Residential),
            ("(?i)tourist(ic)*", Kind::Touristic),
        ];
        assert(rule_views(r@) =~= <Kind as Lookup>::rules());
        r
    }
}

impl Lookup for Kind {
    open spec fn rules() -> Seq<(Seq<char>, Kind)> {
        seq![
            ("(?i)agricultural"@, Kind::Agricultural),
            ("(?i)commercial"@, Kind::Commercial),
            ("(?i)industrial"@, Kind::Industrial),
            ("(?i)residential"@, Kind::Residential),
            ("(?i)tourist(ic)*"@, Kind::Touristic),
        ]
    }

    fn lookup(from: &str) -> (r: Option<Kind>) {
        let rules = Kind::rule_table();
        classify(&rules, from)
    }
}

/// The record of a plot of land offered for sale.
#[derive(Clone, Debug, PartialEq)]
pub struct Plot {
    /// Identifier, prefixed with the site's name.
    pub id: String,
    /// The listing's address: the record's key.
    pub url: String,
    pub website: Website,
    /// When the listing was read.
    pub timestamp: Timestamp,
    /// Price in euros.
    pub price: u32,
    pub area: Area,
    pub kind: Option<Kind>,
    /// Size in square metres.
    pub size: Option<u32>,
    /// Coverage factor, in percent.
    pub coverage: Option<u32>,
    /// Building density factor, in percent.
    pub density: Option<u32>,
    /// Greatest permitted height, in centimetres.
    pub height: Option<u32>,
    /// Greatest permitted number of storeys.
    pub storeys: Option<u32>,
}

/// A plot record with its texts as character sequences.
pub struct PlotView {
    pub id: Seq<char>,
    pub url: Seq<char>,
    pub website: Website,
    pub timestamp: Timestamp,
    pub price: u32,
    pub area: Area,
    pub kind: Option<Kind>,
    pub size: Option<u32>,
    pub coverage: Option<u32>,
    pub density: Option<u32>,
    pub height: Option<u32>,
    pub storeys: Option<u32>,
}

impl View for Plot {
    type V = PlotView;

    open spec fn view(&self) -> PlotView {
        PlotView {
            id: self.id@,
            url: self.url@,
            website: self.website,
            timestamp: self.timestamp,
            price: self.price,
            area: self.area,
            kind: self.kind,
            size: self.size,
            coverage: self.coverage,
            density: self.density,
            height: self.height,
            storeys: self.storeys,
        }
    }
}

impl Plot {
    pub open spec fn wf(&self) -> bool {
        self.timestamp.wf()
    }

    pub fn new(
        id: String,
        url: String,
        website: Website,
        timestamp: Timestamp,
        price: u32,
        area: Area,
        kind: Option<Kind>,
        size: Option<u32>,
        coverage: Option<u32>,
        density: Option<u32>,
        height: Option<u32>,
        storeys: Option<u32>,
    ) -> (r: Plot)
        ensures
            r == (Plot {
                id,
                url,
                website,
                timestamp,
                price,
                area,
                kind,
                size,
                coverage,
                density,
                height,
                storeys,
            }),
    {
        Plot { id, url, website, timestamp, price, area, kind, size, coverage, density, height, storeys }
    }
}

} // verus!
