//! The condition a property is sold in.
use vstd::prelude::*;
use crate::lookup::{Lookup, classify, rule_views};
use crate::text::{name_key, name_key_of, chars_equal};

verus! {

#[derive(Clone, Copy, Debug, PartialEq, Eq, Hash, Structural)]
pub enum Condition {
    New,
    Resale,
    UnderConstruction,
}

/// The condition a name stands for, in any letter case, with white space
/// around it ignored.
pub open spec fn condition_of_name(s: Seq<char>) -> Option<Condition> {
    let k = name_key(s);
    if k == "new"@ || k == "brand new"@ {
        Some(Condition::New)
    } else if k == "used"@ || k == "resale"@ {
        Some(Condition::Resale)
    } else if k == "under construction"@ {
        Some(Condition::UnderConstruction)
    } else {
        None
    }
}

impl Condition {
    /// The condition named by `cond`.
    pub fn from(cond: &str) -> (r: Option<Condition>)
        ensures
            r == condition_of_name(cond@),
    {
        let k = name_key_of(cond);
        if chars_equal(&k, "new") || chars_equal(&k, "brand new") {
            Some(Condition::New)
        } else if chars_equal(&k, "used") || chars_equal(&k, "resale") {
            Some(Condition::Resale)
        } else if chars_equal(&k, "under construction") {
            Some(Condition::UnderConstruction)
        } else {
            None
        }
    }

    pub(crate) fn rule_table() -> (r: Vec<(&'static str, Condition)>)
        ensures
            rule_views(r@) == <Condition as Lookup>::rules(),
    {
        let r = vec![
            ("(?i)resale", Condition::Resale),
            ("(?i)brand\\s+new", Condition::New),
            ("(?i)under\\s+construction", Condition::UnderConstruction),
        ];
        assert(rule_views(r@) =~= <Condition as Lookup>::rules());
        r
    }
}

impl Lookup for Condition {
    open spec fn rules() -> Seq<(Seq<char>, Condition)> {
        seq![
            ("(?i)resale"@, Condition::Resale),
            ("(?i)brand\\s+new"@, Condition::New),
            ("(?i)under\\s+construction"@, Condition::UnderConstruction),
        ]
    }

    fn lookup(from: &str) -> (r: Option<Condition>) {
        let rules = Condition::rule_table();
        classify(&rules, from)
    }
}

} // verus!
