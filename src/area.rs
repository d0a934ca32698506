//! The districts that listings are placed in.
use vstd::prelude::*;
use crate::error::{Error, ErrorKind};
use crate::lookup::{Lookup, classify, rule_views};
use crate::text::{name_key, name_key_of, chars_equal};

verus! {

/// The five districts a listing can be placed in.
#[derive(Clone, Copy, Debug, PartialEq, Eq, Hash, Structural)]
pub enum Area {
    Ammochostos,
    Larnaka,
    Lefkosia,
    Limassol,
    Paphos,
}

/// The district a name stands for: its English or its Greek name, in any
/// ASCII case, with white space around it ignored.
pub open spec fn area_of_name(s: Seq<char>) -> Option<Area> {
    let k = name_key(s);
    if k == "ammochostos"@ || k == "famagusta"@ {
        Some(Area::Ammochostos)
    } else if k == "larnaka"@ || k == "larnaca"@ {
        Some(Area::Larnaka)
    } else if k == "lefkosia"@ || k == "nicosia"@ {
        Some(Area::Lefkosia)
    } else if k == "limassol"@ || k == "lemesos"@ {
        Some(Area::Limassol)
    } else if k == "paphos"@ || k == "pafos"@ {
        Some(Area::Paphos)
    } else {
        None
    }
}

impl Area {
    /// Every district, in a fixed order.
    pub fn all() -> (r: Vec<Area>)
        ensures
            r@ == seq![Area::Ammochostos, Area::Larnaka, Area::Lefkosia, Area::Limassol, Area::Paphos],
    {
        vec![Area::Ammochostos, Area::Larnaka, Area::Lefkosia, Area::Limassol, Area::Paphos]
    }

    /// The district named by `s`.
    pub fn from_str(s: &str) -> (r: Result<Area, Error>)
        ensures
            match area_of_name(s@) {
                Some(a) => r == Ok::<Area, Error>(a),
                None => r matches Err(e) && e.kind == ErrorKind::UnknownName,
            },
    {
        let k = name_key_of(s);
        if chars_equal(&k, "ammochostos") || chars_equal(&k, "famagusta") {
            Ok(Area::Ammochostos)
        } else if chars_equal(&k, "larnaka") || chars_equal(&k, "larnaca") {
            Ok(Area::Larnaka)
        } else if chars_equal(&k, "lefkosia") || chars_equal(&k, "nicosia") {
            Ok(Area::Lefkosia)
        } else if chars_equal(&k, "limassol") || chars_equal(&k, "lemesos") {
            Ok(Area::Limassol)
        } else if chars_equal(&k, "paphos") || chars_equal(&k, "pafos") {
            Ok(Area::Paphos)
        } else {
            Err(Error::new(ErrorKind::UnknownName, "not the name of an area"))
        }
    }

    /// The rule table of `Lookup`, as values.
    pub(crate) fn rule_table() -> (r: Vec<(&'static str, Area)>)
        ensures
            rule_views(r@) == <Area as Lookup>::rules(),
    {
        let r = vec![
            ("(?i)famagusta|ammochostos", Area::Ammochostos),
            ("(?i)larna[kc]a", Area::Larnaka),
            ("(?i)lefkosia|nicosia", Area::Lefkosia),
            ("(?i)limassol|lemesos", Area::Limassol),
            ("(?i)pa(f|ph)os", Area::Paphos),
        ];
        assert(rule_views(r@) =~= <Area as Lookup>::rules());
        r
    }
}

impl Lookup for Area {
    /// English and Greek names, in any letter case.
    open spec fn rules() -> Seq<(Seq<char>, Area)> {
        seq![
            ("(?i)famagusta|ammochostos"@, Area::Ammochostos),
            ("(?i)larna[kc]a"@, Area::Larnaka),
            ("(?i)lefkosia|nicosia"@, Area::Lefkosia),
            ("(?i)limassol|lemesos"@, Area::Limassol),
            ("(?i)pa(f|ph)os"@, Area::Paphos),
        ]
    }

    fn lookup(from: &str) -> (r: Option<Area>) {
        let rules = Area::rule_table();
        classify(&rules, from)
    }
}

} // verus!
