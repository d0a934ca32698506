//! Classification of free text into a closed set of values by an ordered
//! table of patterns: the first pattern that matches anywhere wins.
use vstd::prelude::*;
use crate::pattern::{matches_in, finds, Pattern, compiled_from, compile_opt, finds_in};

verus! {

/// The value of the first rule whose pattern matches somewhere in `text`.
pub open spec fn first_match<T>(rules: Seq<(Seq<char>, T)>, text: Seq<char>) -> Option<T>
    decreases rules.len(),
{
    if rules.len() == 0 {
        None
    } else if matches_in(rules[0].0, text) {
        Some(rules[0].1)
    } else {
        first_match(rules.drop_first(), text)
    }
}

pub open spec fn rule_views<T>(rules: Seq<(&str, T)>) -> Seq<(Seq<char>, T)> {
    rules.map_values(|r: (&str, T)| (r.0@, r.1))
}

/// A closed set of values that free text is classified into.
pub trait Lookup: Sized {
    /// The ordered rules: a pattern and the value it stands for.
    spec fn rules() -> Seq<(Seq<char>, Self)>;

    /// The value of the first rule that matches in `from`, if any.
    fn lookup(from: &str) -> (r: Option<Self>)
        ensures
            r == first_match(Self::rules(), from@),
    ;
}

/// Runs an ordered rule table over `text`.
pub fn classify<T: Copy>(rules: &Vec<(&str, T)>, text: &str) -> (r: Option<T>)
    ensures
        r == first_match(rule_views(rules@), text@),
{
    let ghost all = rule_views(rules@);
    let mut i: usize = 0;
    assert(all.skip(0) == all);
    while i < rules.len()
        invariant
            i <= rules.len(),
            all == rule_views(rules@),
            first_match(all, text@) == first_match(all.skip(i as int), text@),
        decreases rules.len() - i,
    {
        let (pattern, value) = rules[i];
        assert(all.skip(i as int)[0] == (pattern@, value));
        assert(all.skip(i as int).drop_first() == all.skip(i + 1));
        if finds(pattern, text) {
            return Some(value);
        }
        i = i + 1;
    }
    None
}

/// A rule table with its patterns compiled once, for classifying many texts.
pub struct Rules<T> {
    compiled: Vec<(Option<Pattern>, T)>,
    table: Ghost<Seq<(Seq<char>, T)>>,
}

impl<T: Copy> Rules<T> {
    /// The rule table the patterns were compiled from.
    pub closed spec fn table(&self) -> Seq<(Seq<char>, T)> {
        self.table@
    }

    pub closed spec fn wf(&self) -> bool {
        &&& self.compiled.len() == self.table@.len()
        &&& forall|i: int|
            0 <= i < self.compiled.len() ==> compiled_from(
                (#[trigger] self.compiled@[i]).0,
                self.table@[i].0,
            ) && self.compiled@[i].1 == self.table@[i].1
    }

    /// Compiles each pattern of `rules`.
    pub fn compile(rules: &Vec<(&str, T)>) -> (r: Rules<T>)
        ensures
            r.wf(),
            r.table() == rule_views(rules@),
    {
        let ghost all = rule_views(rules@);
        let mut compiled: Vec<(Option<Pattern>, T)> = Vec::new();
        let mut i: usize = 0;
        while i < rules.len()
            invariant
                i <= rules.len(),
                all == rule_views(rules@),
                compiled.len() == i,
                forall|j: int|
                    0 <= j < i ==> compiled_from((#[trigger] compiled@[j]).0, all[j].0)
                        && compiled@[j].1 == all[j].1,
            decreases rules.len() - i,
        {
            let (pattern, value) = rules[i];
            let p = compile_opt(pattern);
            compiled.push((p, value));
            i = i + 1;
        }
        Rules { compiled, table: Ghost(all) }
    }

    /// The value of the first rule whose pattern matches in `text`.
    pub fn classify(&self, text: &str) -> (r: Option<T>)
        requires
            self.wf(),
        ensures
            r == first_match(self.table(), text@),
    {
        let ghost all = self.table@;
        let mut i: usize = 0;
        assert(all.skip(0) == all);
        while i < self.compiled.len()
            invariant
                self.wf(),
                i <= self.compiled.len(),
                all == self.table@,
                first_match(all, text@) == first_match(all.skip(i as int), text@),
            decreases self.compiled.len() - i,
        {
            assert(all.skip(i as int)[0] == all[i as int]);
            assert(all.skip(i as int).drop_first() == all.skip(i + 1));
            let hit = finds_in(&self.compiled[i].0, Ghost(all[i as int].0), text);
            if hit {
                return Some(self.compiled[i].1);
            }
            i = i + 1;
        }
        None
    }
}

} // verus!
