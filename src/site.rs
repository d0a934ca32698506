//! The websites that listings come from.
use vstd::prelude::*;
use crate::error::{Error, ErrorKind};
use crate::text::{name_key, name_key_of, chars_equal};
use crate::web::{parsed_url, parse_url};

verus! {

#[derive(Clone, Copy, Debug, PartialEq, Eq, Hash, Structural)]
pub enum Website {
    Bazaraki,
    Spitogatos,
    ImmobilienScout24,
}

pub open spec fn website_of_name(s: Seq<char>) -> Option<Website> {
    let k = name_key(s);
    if k == "bazaraki"@ {
        Some(Website::Bazaraki)
    } else if k == "spitogatos"@ {
        Some(Website::Spitogatos)
    } else if k == "immobilienscout24"@ {
        Some(Website::ImmobilienScout24)
    } else {
        None
    }
}

/// The address of a site's home page, for the sites that listings are read from.
pub open spec fn root_text(site: Website) -> Option<Seq<char>> {
    match site {
        Website::Bazaraki => Some("https://www.bazaraki.com"@),
        _ => None,
    }
}

/// The site's root address, as the URL parser writes it.
pub open spec fn site_root(site: Website) -> Option<Seq<char>> {
    match root_text(site) {
        Some(t) => parsed_url(t),
        None => None,
    }
}

impl Website {
    /// The site named by `s`, in any ASCII case.
    pub fn from_str(s: &str) -> (r: Result<Website, Error>)
        ensures
            match website_of_name(s@) {
                Some(w) => r == Ok::<Website, Error>(w),
                None => r matches Err(e) && e.kind == ErrorKind::UnknownName,
            },
    {
        let k = name_key_of(s);
        if chars_equal(&k, "bazaraki") {
            Ok(Website::Bazaraki)
        } else if chars_equal(&k, "spitogatos") {
            Ok(Website::Spitogatos)
        } else if chars_equal(&k, "immobilienscout24") {
            Ok(Website::ImmobilienScout24)
        } else {
            Err(Error::new(ErrorKind::UnknownName, "not the name of a website"))
        }
    }

    /// The name of the site, as it is shown and stored.
    pub fn name(&self) -> (r: &'static str)
        ensures
            r@ == website_name(*self),
    {
        match self {
            Website::Bazaraki => "Bazaraki",
            Website::Spitogatos => "Spitogatos",
            Website::ImmobilienScout24 => "ImmobilienScout24",
        }
    }

    /// The root address of the site, against which the links in its pages are
    /// resolved; `None` for a site whose pages are not read.
    pub fn get_root(&self) -> (r: Option<String>)
        ensures
            match r {
                Some(u) => site_root(*self) == Some(u@),
                None => site_root(*self) is None,
            },
    {
        match self {
            Website::Bazaraki => parse_url("https://www.bazaraki.com"),
            _ => None,
        }
    }
}

pub open spec fn website_name(w: Website) -> Seq<char> {
    match w {
        Website::Bazaraki => "Bazaraki"@,
        Website::Spitogatos => "Spitogatos"@,
        Website::ImmobilienScout24 => "ImmobilienScout24"@,
    }
}

} // verus!
