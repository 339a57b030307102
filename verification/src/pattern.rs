//! Regular expressions, as the `regex` crate matches them.
//!
//! Each function here takes the pattern as text and hands back plain values.
//! What the crate finds is a function of the pattern and of the text searched,
//! and is named as such.

use vstd::prelude::*;
use crate::text::optional_text;

verus! {

/// One match of a pattern in a text.
#[derive(Debug, Clone)]
pub struct Found {
    /// The text between the end of the match before, or the start of the
    /// text, and this match.
    pub before: String,
    /// The text of each group of the pattern that took part in the match, or
    /// nothing for one that did not. The whole match comes first.
    pub groups: Vec<Option<String>>,
}

/// All matches of a pattern in a text, in order, and the text after the last.
#[derive(Debug, Clone)]
pub struct Scan {
    pub matches: Vec<Found>,
    pub rest: String,
}

/// A match as mathematical text.
pub struct FoundModel {
    pub before: Seq<char>,
    pub groups: Seq<Option<Seq<char>>>,
}

/// A scan as mathematical text.
pub struct ScanModel {
    pub matches: Seq<FoundModel>,
    pub rest: Seq<char>,
}

impl FoundModel {
    /// The text of the group at position `i`, where there is such a group
    /// and it took part in the match.
    pub open spec fn group(self, i: int) -> Option<Seq<char>> {
        if 0 <= i < self.groups.len() {
            self.groups[i]
        } else {
            None
        }
    }

    /// The text of the whole match.
    pub open spec fn whole(self) -> Seq<char> {
        match self.group(0) {
            Some(text) => text,
            None => Seq::<char>::empty(),
        }
    }

    /// The text of the first capture group.
    pub open spec fn first(self) -> Option<Seq<char>> {
        self.group(1)
    }
}

impl View for Found {
    type V = FoundModel;

    open spec fn view(&self) -> FoundModel {
        FoundModel {
            before: self.before@,
            groups: Seq::new(self.groups@.len(), |i: int| optional_text(self.groups@[i])),
        }
    }
}

impl View for Scan {
    type V = ScanModel;

    open spec fn view(&self) -> ScanModel {
        ScanModel {
            matches: Seq::new(self.matches@.len(), |i: int| self.matches@[i]@),
            rest: self.rest@,
        }
    }
}

impl Found {
    /// The text of the whole match.
    pub fn whole(&self) -> (r: &str)
        ensures
            r@ == self@.whole(),
    {
        proof {
            reveal_strlit("");
            assert(""@ =~= Seq::<char>::empty());
        }
        if self.groups.len() > 0 {
            match &self.groups[0] {
                Some(text) => text.as_str(),
                None => "",
            }
        } else {
            ""
        }
    }

    /// The text of the first capture group.
    pub fn first(&self) -> (r: Option<&String>)
        ensures
            match r {
                Some(text) => self@.first() == Some(text@),
                None => self@.first().is_none(),
            },
    {
        if self.groups.len() > 1 {
            match &self.groups[1] {
                Some(text) => Some(text),
                None => None,
            }
        } else {
            None
        }
    }
}

/// The message with which the `regex` crate refuses `pattern`, or `None` where
/// it accepts it.
pub uninterp spec fn regex_error(pattern: Seq<char>) -> Option<Seq<char>>;

/// The first match of `pattern` in `text`, or `None` where the pattern is
/// refused or matches nowhere.
pub uninterp spec fn regex_first_match(pattern: Seq<char>, text: Seq<char>) -> Option<
    FoundModel,
>;

/// The matches of `pattern` in `text`, or `None` where the pattern is refused.
pub uninterp spec fn regex_scan(pattern: Seq<char>, text: Seq<char>) -> Option<ScanModel>;

/// The view of an optional match.
pub open spec fn optional_found(c: Option<Found>) -> Option<FoundModel> {
    match c {
        Some(c) => Some(c@),
        None => None,
    }
}

/// The view of an optional scan.
pub open spec fn optional_scan(s: Option<Scan>) -> Option<ScanModel> {
    match s {
        Some(s) => Some(s@),
        None => None,
    }
}

/// `Regex::new`: the message of the error that it returns for `pattern`, or
/// `None` where it returns a regular expression.
#[verifier::external_body]
pub(crate) fn pattern_error(pattern: &str) -> (e: Option<String>)
    ensures
        optional_text(e) == regex_error(pattern@),
{
    regex::Regex::new(pattern).err().map(|e| e.to_string())
}

/// `Regex::captures`: the leftmost match of `pattern` in `text`, with the
/// text before it and the text of each group.
#[verifier::external_body]
pub(crate) fn first_match(pattern: &str, text: &str) -> (c: Option<Found>)
    ensures
        optional_found(c) == regex_first_match(pattern@, text@),
{
    let re = regex::Regex::new(pattern).ok()?;
    let caps = re.captures(text)?;
    let before = text[..caps.get_match().start()].to_string();
    let groups = caps.iter().map(|g| g.map(|m| m.as_str().to_string())).collect();
    Some(Found { before, groups })
}

/// `Regex::captures_iter`: the successive matches of `pattern` in `text`,
/// none overlapping another, each with the text since the match before it and
/// the text of each group; and the text after the last match.
#[verifier::external_body]
pub(crate) fn scan(pattern: &str, text: &str) -> (s: Option<Scan>)
    ensures
        optional_scan(s) == regex_scan(pattern@, text@),
{
    let re = regex::Regex::new(pattern).ok()?;
    let mut matches = Vec::new();
    let mut last: usize = 0;
    for caps in re.captures_iter(text) {
        let whole = caps.get_match();
        let before = text[last..whole.start()].to_string();
        let groups = caps.iter().map(|g| g.map(|m| m.as_str().to_string())).collect();
        matches.push(Found { before, groups });
        last = whole.end();
    }
    Some(Scan { matches, rest: text[last..].to_string() })
}

} // verus!
