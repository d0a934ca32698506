//! A listing's record: a plot or a built property.
use vstd::prelude::*;
use crate::error::{Error, ErrorKind};
use crate::lookup::{Lookup, classify, rule_views};
use crate::plot::{Plot, PlotView};
use crate::property::{Property, PropertyView};
use crate::text::{name_key, name_key_of, chars_equal};
use crate::time::Timestamp;

verus! {

/// Which of the two record kinds a listing is.
#[derive(Clone, Copy, Debug, PartialEq, Eq, Hash, Structural)]
pub enum Kind {
    Plot,
    Property,
}

pub open spec fn kind_of_name(s: Seq<char>) -> Option<Kind> {
    let k = name_key(s);
    if k == "plot"@ {
        Some(Kind::Plot)
    } else if k == "property"@ {
        Some(Kind::Property)
    } else {
        None
    }
}

impl Kind {
    /// Both kinds, plots first.
    pub fn all() -> (r: Vec<Kind>)
        ensures
            r@ == seq![Kind::Plot, Kind::Property],
    {
        vec![Kind::Plot, Kind::Property]
    }

    /// The kind named by `s`, in any ASCII case.
    pub fn from_str(s: &str) -> (r: Result<Kind, Error>)
        ensures
            match kind_of_name(s@) {
                Some(k) => r == Ok::<Kind, Error>(k),
                None => r matches Err(e) && e.kind == ErrorKind::UnknownName,
            },
    {
        let k = name_key_of(s);
        if chars_equal(&k, "plot") {
            Ok(Kind::Plot)
        } else if chars_equal(&k, "property") {
            Ok(Kind::Property)
        } else {
            Err(Error::new(ErrorKind::UnknownName, "not the name of a listing kind"))
        }
    }

    pub(crate) fn rule_table() -> (r: Vec<(&'static str, Kind)>)
        ensures
            rule_views(r@) == <Kind as Lookup>::rules(),
    {
        let r = vec![("(?i)plots*|land", Kind::Plot), ("(?i)propert(y|ies)", Kind::Property)];
        assert(rule_views(r@) =~= <Kind as Lookup>::rules());
        r
    }
}

impl Lookup for Kind {
    /// Land before property.
    open spec fn rules() -> Seq<(Seq<char>, Kind)> {
        seq![("(?i)plots*|land"@, Kind::Plot), ("(?i)propert(y|ies)"@, Kind::Property)]
    }

    fn lookup(from: &str) -> (r: Option<Kind>) {
        let rules = Kind::rule_table();
        classify(&rules, from)
    }
}

/// The record of one listing.
#[derive(Clone, Debug, PartialEq)]
pub enum Listing {
    Plot(Plot),
    Property(Property),
}

/// A listing record with its texts as character sequences.
pub enum ListingView {
    Plot(PlotView),
    Property(PropertyView),
}

impl ListingView {
    pub open spec fn url(&self) -> Seq<char> {
        match self {
            ListingView::Plot(p) => p.url,
            ListingView::Property(p) => p.url,
        }
    }

    pub open spec fn timestamp(&self) -> Timestamp {
        match self {
            ListingView::Plot(p) => p.timestamp,
            ListingView::Property(p) => p.timestamp,
        }
    }

    pub open spec fn kind(&self) -> Kind {
        match self {
            ListingView::Plot(_) => Kind::Plot,
            ListingView::Property(_) => Kind::Property,
        }
    }

    pub open spec fn wf(&self) -> bool {
        self.timestamp().wf()
    }
}

impl View for Listing {
    type V = ListingView;

    open spec fn view(&self) -> ListingView {
        match self {
            Listing::Plot(p) => ListingView::Plot(p@),
            Listing::Property(p) => ListingView::Property(p@),
        }
    }
}

impl Listing {
    pub open spec fn wf(&self) -> bool {
        match self {
            Listing::Plot(p) => p.wf(),
            Listing::Property(p) => p.wf(),
        }
    }

    pub open spec fn kind_spec(&self) -> Kind {
        match self {
            Listing::Plot(_) => Kind::Plot,
            Listing::Property(_) => Kind::Property,
        }
    }

    pub open spec fn timestamp_spec(&self) -> Timestamp {
        match self {
            Listing::Plot(p) => p.timestamp,
            Listing::Property(p) => p.timestamp,
        }
    }

    pub open spec fn url_spec(&self) -> Seq<char> {
        match self {
            Listing::Plot(p) => p.url@,
            Listing::Property(p) => p.url@,
        }
    }

    pub fn kind(&self) -> (r: Kind)
        ensures
            r == self.kind_spec(),
    {
        match self {
            Listing::Plot(_) => Kind::Plot,
            Listing::Property(_) => Kind::Property,
        }
    }

    pub fn timestamp(&self) -> (r: &Timestamp)
        ensures
            *r == self.timestamp_spec(),
    {
        match self {
            Listing::Plot(p) => &p.timestamp,
            Listing::Property(p) => &p.timestamp,
        }
    }

    pub fn url(&self) -> (r: &String)
        ensures
            r@ == self.url_spec(),
    {
        match self {
            Listing::Plot(p) => &p.url,
            Listing::Property(p) => &p.url,
        }
    }
}

} // verus!
