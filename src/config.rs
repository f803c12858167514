//! Per-station filters on which shows are processed.
use vstd::prelude::*;
use crate::models::Show;

verus! {

/// Whether `pattern` is a valid regular expression.
pub uninterp spec fn regex_valid(pattern: Seq<char>) -> bool;

/// Whether the regular expression `pattern` matches somewhere in `text`.
pub uninterp spec fn regex_matches(pattern: Seq<char>, text: Seq<char>) -> bool;

/// Relies on `regex::Regex::new`: whether the pattern compiles depends on the pattern alone.
#[verifier::external_body]
fn compiles(pattern: &str) -> (r: bool)
    ensures
        r == regex_valid(pattern@),
{
    regex::Regex::new(pattern).is_ok()
}

/// Relies on `regex::Regex::is_match`: whether the compiled pattern matches the text.
#[verifier::external_body]
fn is_match(pattern: &str, text: &str) -> (r: bool)
    requires
        regex_valid(pattern@),
    ensures
        r == regex_matches(pattern@, text@),
{
    match regex::Regex::new(pattern) {
        Ok(re) => re.is_match(text),
        Err(_) => false,
    }
}

/// The valid patterns among `ps`, in order.
pub open spec fn valid_only(ps: Seq<Seq<char>>) -> Seq<Seq<char>>
    decreases ps.len(),
{
    if ps.len() == 0 {
        ps
    } else if regex_valid(ps.last()) {
        valid_only(ps.drop_last()).push(ps.last())
    } else {
        valid_only(ps.drop_last())
    }
}

/// Whether any of the patterns matches `text`.
pub open spec fn any_matches(ps: Seq<Seq<char>>, text: Seq<char>) -> bool {
    exists|i: int| 0 <= i < ps.len() && regex_matches(#[trigger] ps[i], text)
}

/// The shows whose titles no pattern matches, in order.
pub open spec fn kept_shows(ps: Seq<Seq<char>>, shows: Seq<Show>) -> Seq<Show>
    decreases shows.len(),
{
    if shows.len() == 0 {
        shows
    } else if any_matches(ps, shows.last().title@) {
        kept_shows(ps, shows.drop_last())
    } else {
        kept_shows(ps, shows.drop_last()).push(shows.last())
    }
}

pub open spec fn texts(v: Seq<String>) -> Seq<Seq<char>> {
    v.map_values(|s: String| s@)
}

/// A station's ignore patterns, each a valid regular expression.
#[derive(Debug)]
pub struct StationConfig {
    pub ignore_patterns: Vec<String>,
}

impl StationConfig {
    pub open spec fn wf(&self) -> bool {
        forall|i: int| 0 <= i < self.ignore_patterns@.len() ==> regex_valid(#[trigger] self.ignore_patterns@[i]@)
    }

    /// Keeps the patterns that compile, in order; an invalid one is left out.
    pub fn new(ignores: Vec<String>) -> (r: Result<Self, crate::error::SyncError>)
        ensures
            r is Ok,
            r matches Ok(c) ==> c.wf() && texts(c.ignore_patterns@) == valid_only(texts(ignores@)),
    {
        let mut kept: Vec<String> = Vec::new();
        let mut i: usize = 0;
        while i < ignores.len()
            invariant
                i <= ignores@.len(),
                texts(kept@) == valid_only(texts(ignores@.subrange(0, i as int))),
                forall|j: int| 0 <= j < kept@.len() ==> regex_valid(#[trigger] kept@[j]@),
            decreases ignores@.len() - i,
        {
            assert(texts(ignores@.subrange(0, i + 1)).drop_last() =~= texts(ignores@.subrange(0, i as int)));
            let ghost before = kept@;
            if compiles(ignores[i].as_str()) {
                kept.push(ignores[i].clone());
                assert(texts(kept@) =~= texts(before).push(ignores@[i as int]@));
            }
            i += 1;
        }
        assert(ignores@.subrange(0, ignores@.len() as int) =~= ignores@);
        Ok(StationConfig { ignore_patterns: kept })
    }

    fn matches_any(&self, title: &String) -> (r: bool)
        requires
            self.wf(),
        ensures
            r == any_matches(texts(self.ignore_patterns@), title@),
    {
        let mut i: usize = 0;
        while i < self.ignore_patterns.len()
            invariant
                self.wf(),
                i <= self.ignore_patterns@.len(),
                forall|j: int| 0 <= j < i ==> !regex_matches(#[trigger] texts(self.ignore_patterns@)[j], title@),
            decreases self.ignore_patterns@.len() - i,
        {
            if is_match(self.ignore_patterns[i].as_str(), title.as_str()) {
                assert(regex_matches(texts(self.ignore_patterns@)[i as int], title@));
                return true;
            }
            i += 1;
        }
        false
    }

    /// The shows whose titles none of the ignore patterns matches, in order.
    pub fn filter_shows(&self, shows: Vec<Show>) -> (r: Vec<Show>)
        requires
            self.wf(),
        ensures
            r@ == kept_shows(texts(self.ignore_patterns@), shows@),
    {
        let mut out: Vec<Show> = Vec::new();
        let mut i: usize = 0;
        while i < shows.len()
            invariant
                self.wf(),
                i <= shows@.len(),
                out@ == kept_shows(texts(self.ignore_patterns@), shows@.subrange(0, i as int)),
            decreases shows@.len() - i,
        {
            assert(shows@.subrange(0, i + 1).drop_last() =~= shows@.subrange(0, i as int));
            if !self.matches_any(&shows[i].title) {
                out.push(shows[i].clone());
            }
            i += 1;
        }
        assert(shows@.subrange(0, shows@.len() as int) =~= shows@);
        out
    }
}

} // verus!
