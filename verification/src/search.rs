//! Text search for the viewer.
//!
//! Search is case-insensitive over the ASCII letters, and deliberately
//! only those: a query matches a stretch of text whenever the two agree
//! character for character after folding `A`..`Z` onto `a`..`z`.
//! Characters outside ASCII compare exactly, so the match relation is a
//! total, verifiable function of the two texts rather than a locale's
//! case tables. Matches are collected left to right and never overlap:
//! scanning resumes right after each match. Positions are character
//! offsets into the searched text.

use vstd::prelude::*;
use crate::text::fold_code;
use crate::text::fold_exec;
use crate::text::str_chars;

verus! {

/// A single match: the character offsets where it starts and (exclusively)
/// ends.
#[derive(Clone, Copy, Debug, PartialEq, Eq, Structural)]
pub struct MatchPosition {
    pub start: usize,
    pub end: usize,
}

/// The query matches the text at character offset `at`.
pub open spec fn match_at(text: Seq<char>, query: Seq<char>, at: int) -> bool {
    &&& 0 <= at
    &&& at + query.len() <= text.len()
    &&& forall|j: int| 0 <= j < query.len() ==> fold_code(text[at + j]) == fold_code(query[j])
}

/// All matches of `query` in `text` from offset `from` on, scanning left
/// to right and resuming after the end of each match found.
pub open spec fn find_spec(text: Seq<char>, query: Seq<char>, from: int) -> Seq<MatchPosition>
    decreases text.len() - from,
{
    if query.len() == 0 || from < 0 || from + query.len() > text.len() {
        Seq::empty()
    } else if match_at(text, query, from) {
        seq![
            MatchPosition { start: from as usize, end: (from + query.len()) as usize },
        ] + find_spec(text, query, from + query.len())
    } else {
        find_spec(text, query, from + 1)
    }
}

/// Some match in `ms` covers the position `pos`.
pub open spec fn covered(ms: Seq<MatchPosition>, pos: usize) -> bool {
    exists|k: int| 0 <= k < ms.len() && (#[trigger] ms[k]).start <= pos < ms[k].end
}

/// Search state: the query, every match of it in the searched text, and
/// which match is currently selected.
#[derive(Clone, Debug)]
pub struct SearchState {
    query: String,
    matches: Vec<MatchPosition>,
    current_index: Option<usize>,
}

impl SearchState {
    /// The query this state was built with.
    pub closed spec fn spec_query(self) -> Seq<char> {
        self.query@
    }

    /// The matches this state holds.
    pub closed spec fn spec_matches(self) -> Seq<MatchPosition> {
        self.matches@
    }

    /// The selected match index, if any.
    pub closed spec fn spec_current(self) -> Option<usize> {
        self.current_index
    }

    /// A selected index always points at a match, and one is selected
    /// exactly when there are matches.
    pub open spec fn wf(self) -> bool {
        &&& (self.spec_current() is Some <==> self.spec_matches().len() > 0)
        &&& (match self.spec_current() {
            Some(i) => i < self.spec_matches().len(),
            None => true,
        })
    }

    /// Build the search state for `query` over `text`: all matches, with
    /// the first one selected. An empty query matches nothing.
    pub fn new(query: String, text: &str) -> (s: Self)
        ensures
            s.spec_query() == query@,
            s.spec_matches() == find_spec(text@, query@, 0),
            s.spec_current() == if s.spec_matches().len() == 0 {
                Option::<usize>::None
            } else {
                Option::<usize>::Some(0)
            },
            s.wf(),
    {
        let qchars = str_chars(query.as_str());
        let matches = if qchars.len() == 0 {
            let v: Vec<MatchPosition> = Vec::new();
            proof {
                assert(v@ =~= find_spec(text@, query@, 0));
            }
            v
        } else {
            let tchars = str_chars(text);
            find_matches(&qchars, &tchars)
        };
        let current_index = if matches.len() == 0 {
            None
        } else {
            Some(0usize)
        };
        SearchState { query, matches, current_index }
    }

    /// The current search query.
    pub fn query(&self) -> (q: &str)
        ensures
            q@ == self.spec_query(),
    {
        self.query.as_str()
    }

    /// All match positions.
    pub fn matches(&self) -> (ms: &[MatchPosition])
        ensures
            ms@ == self.spec_matches(),
    {
        self.matches.as_slice()
    }

    /// The total number of matches.
    pub fn match_count(&self) -> (n: usize)
        ensures
            n == self.spec_matches().len(),
    {
        self.matches.len()
    }

    /// The selected match number, 1-based for display.
    pub fn current_match_number(&self) -> (n: Option<usize>)
        requires
            self.wf(),
        ensures
            n == match self.spec_current() {
                Some(i) => Some((i + 1) as usize),
                None => None,
            },
    {
        let n = self.matches.len();
        match self.current_index {
            Some(i) => {
                assert(i < n);
                Some(i + 1)
            },
            None => None,
        }
    }

    /// The selected match position.
    pub fn current_match(&self) -> (m: Option<&MatchPosition>)
        ensures
            m == match self.spec_current() {
                Some(i) => if i < self.spec_matches().len() {
                    Some(&self.spec_matches()[i as int])
                } else {
                    None
                },
                None => None::<&MatchPosition>,
            },
    {
        match self.current_index {
            Some(i) => self.matches.get(i),
            None => None,
        }
    }

    /// Select the next match, wrapping around to the first.
    pub fn next_match(&mut self)
        ensures
            final(self).spec_query() == old(self).spec_query(),
            final(self).spec_matches() == old(self).spec_matches(),
            final(self).spec_current() == if old(self).spec_matches().len() == 0 {
                old(self).spec_current()
            } else {
                Some(
                    match old(self).spec_current() {
                        Some(i) => if i + 1 < old(self).spec_matches().len() {
                            (i + 1) as usize
                        } else {
                            0usize
                        },
                        None => 0usize,
                    },
                )
            },
            old(self).wf() ==> final(self).wf(),
    {
        if self.matches.len() == 0 {
            return ;
        }
        self.current_index = Some(
            match self.current_index {
                Some(i) => if i < usize::MAX && i + 1 < self.matches.len() {
                    i + 1
                } else {
                    0
                },
                None => 0,
            },
        );
    }

    /// Select the previous match, wrapping around to the last.
    pub fn prev_match(&mut self)
        ensures
            final(self).spec_query() == old(self).spec_query(),
            final(self).spec_matches() == old(self).spec_matches(),
            final(self).spec_current() == if old(self).spec_matches().len() == 0 {
                old(self).spec_current()
            } else {
                Some(
                    match old(self).spec_current() {
                        Some(i) => if i == 0 {
                            (old(self).spec_matches().len() - 1) as usize
                        } else {
                            (i - 1) as usize
                        },
                        None => (old(self).spec_matches().len() - 1) as usize,
                    },
                )
            },
            old(self).wf() ==> final(self).wf(),
    {
        if self.matches.len() == 0 {
            return ;
        }
        self.current_index = Some(
            match self.current_index {
                Some(i) => if i == 0 {
                    self.matches.len() - 1
                } else {
                    i - 1
                },
                None => self.matches.len() - 1,
            },
        );
    }

    /// The position `pos` lies inside some match.
    pub fn is_match_at(&self, pos: usize) -> (r: bool)
        ensures
            r == covered(self.spec_matches(), pos),
    {
        let mut i: usize = 0;
        while i < self.matches.len()
            invariant
                i <= self.matches.len(),
                forall|k: int|
                    0 <= k < i ==> !((#[trigger] self.spec_matches()[k]).start <= pos
                        < self.spec_matches()[k].end),
            decreases self.matches.len() - i,
        {
            let m = &self.matches[i];
            if pos >= m.start && pos < m.end {
                return true;
            }
            i = i + 1;
        }
        false
    }

    /// The position `pos` lies inside the selected match.
    pub fn is_current_match_at(&self, pos: usize) -> (r: bool)
        ensures
            r == match self.spec_current() {
                Some(i) => i < self.spec_matches().len() && self.spec_matches()[i as int].start
                    <= pos < self.spec_matches()[i as int].end,
                None => false,
            },
    {
        match self.current_index {
            Some(i) => match self.matches.get(i) {
                Some(m) => pos >= m.start && pos < m.end,
                None => false,
            },
            None => false,
        }
    }
}

/// Whether `text` matches `query` at character offset `at`, compared with
/// ASCII case folding.
fn match_at_exec(text: &[char], query: &[char], at: usize) -> (r: bool)
    requires
        at + query@.len() <= text@.len(),
        query@.len() > 0,
    ensures
        r == match_at(text@, query@, at as int),
{
    let tlen: usize = text.len();
    let qlen: usize = query.len();
    let mut j: usize = 0;
    while j < qlen
        invariant
            j <= qlen,
            qlen == query@.len(),
            tlen == text@.len(),
            at + qlen <= tlen,
            forall|k: int| 0 <= k < j ==> fold_code(text@[at + k]) == fold_code(query@[k]),
        decreases qlen - j,
    {
        assert(at + j < tlen);
        let tf: u32 = fold_exec(text[at + j]);
        let qf: u32 = fold_exec(query[j]);
        if tf != qf {
            return false;
        }
        j = j + 1;
    }
    true
}

/// Find all case-insensitively matching, non-overlapping occurrences of
/// `query` in `text`, left to right.
pub fn find_matches(query: &[char], text: &[char]) -> (ms: Vec<MatchPosition>)
    requires
        query@.len() > 0,
    ensures
        ms@ == find_spec(text@, query@, 0),
{
    let mut ms: Vec<MatchPosition> = Vec::new();
    let mut start: usize = 0;
    while start <= text.len() && text.len() - start >= query.len()
        invariant
            query@.len() > 0,
            ms@ + find_spec(text@, query@, start as int) == find_spec(text@, query@, 0),
        decreases text@.len() - start,
    {
        if match_at_exec(text, query, start) {
            let m = MatchPosition { start, end: start + query.len() };
            let ghost ms0 = ms@;
            ms.push(m);
            proof {
                assert(ms@ =~= ms0 + seq![m]);
                assert(find_spec(text@, query@, start as int) == seq![m] + find_spec(
                    text@,
                    query@,
                    start + query@.len(),
                ));
                assert(ms@ + find_spec(text@, query@, start + query@.len()) =~= ms0 + find_spec(
                    text@,
                    query@,
                    start as int,
                ));
            }
            start = start + query.len();
        } else {
            proof {
                assert(find_spec(text@, query@, start as int) == find_spec(
                    text@,
                    query@,
                    start + 1,
                ));
            }
            start = start + 1;
        }
    }
    proof {
        assert(find_spec(text@, query@, start as int) =~= Seq::<MatchPosition>::empty());
        assert(ms@ + Seq::<MatchPosition>::empty() =~= ms@);
    }
    ms
}


/// Append a submitted query to the search history: a repeat of the
/// newest entry is dropped, and when the history outgrows `max_items`
/// its oldest entry falls off the front.
pub fn push_search_history(history: &mut Vec<String>, input: &str, max_items: usize)
    ensures
        final(history)@.map_values(|s: String| s@) == ({
            let h = old(history)@.map_values(|s: String| s@);
            if h.len() > 0 && h.last() == input@ {
                h
            } else if h.len() + 1 > max_items {
                h.push(input@).drop_first()
            } else {
                h.push(input@)
            }
        }),
{
    let ghost h = history@.map_values(|s: String| s@);
    let owned = input.to_owned();
    let n = history.len();
    if n > 0 && history[n - 1] == owned {
        proof {
            assert(h.last() == history@[n - 1]@);
            assert(h.last() == input@);
        }
        return ;
    }
    proof {
        if n > 0 {
            assert(h.last() == history@[n - 1]@);
        }
    }
    history.push(owned);
    proof {
        assert(history@.map_values(|s: String| s@) =~= h.push(input@));
    }
    if history.len() > max_items {
        let ghost pushed = history@.map_values(|s: String| s@);
        history.remove(0);
        proof {
            assert(history@.map_values(|s: String| s@) =~= pushed.drop_first());
        }
    }
}

} // verus!
