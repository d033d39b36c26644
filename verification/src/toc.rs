//! Table of contents: the document's headings and which section the
//! current scroll position falls in.
//!
//! The heading list itself comes from whoever parses the markdown; this
//! module owns the rules: only heading levels two to four are listed,
//! source line numbers are stored zero-based, and the current section is
//! the last entry whose line lies at or above the scroll position.

use vstd::prelude::*;

verus! {

/// A single entry in the table of contents.
#[derive(Clone, Debug)]
pub struct TocEntry {
    /// The text content of the heading.
    pub text: String,
    /// Heading level (1-6).
    pub level: u8,
    /// Zero-based line of the heading in the document.
    pub line_number: usize,
}

/// Table of contents for a document: heading entries in document order.
#[derive(Clone, Debug)]
pub struct TableOfContents {
    pub entries: Vec<TocEntry>,
}

/// Levels two to four are listed in the table of contents.
pub open spec fn listed_level(level: u8) -> bool {
    2 <= level <= 4
}

/// Length of the longest prefix of entries whose line lies at or before
/// `cur`.
pub open spec fn prefix_within(entries: Seq<TocEntry>, cur: int) -> int
    decreases entries.len(),
{
    if entries.len() == 0 || entries[0].line_number > cur {
        0
    } else {
        1 + prefix_within(entries.drop_first(), cur)
    }
}

impl TableOfContents {
    /// Create an empty table of contents.
    pub fn new() -> (t: Self)
        ensures
            t.entries@.len() == 0,
    {
        TableOfContents { entries: Vec::new() }
    }

    /// Record one heading found while walking the document: kept only
    /// when its level is listed, with its one-based source line stored
    /// zero-based.
    pub fn push_heading(&mut self, text: String, level: u8, source_line: usize)
        ensures
            final(self).entries@ == if listed_level(level) {
                old(self).entries@.push(
                    TocEntry {
                        text,
                        level,
                        line_number: if source_line > 0 {
                            (source_line - 1) as usize
                        } else {
                            0
                        },
                    },
                )
            } else {
                old(self).entries@
            },
    {
        if 2 <= level && level <= 4 {
            let line_number: usize = if source_line > 0 {
                source_line - 1
            } else {
                0
            };
            self.entries.push(TocEntry { text, level, line_number });
        }
    }

    /// Find the section the scroll position `scroll_y` (pixels) falls
    /// in: positions are nudged 100 px down so a section highlights only
    /// once it is well into view, converted to a line with `line_height`
    /// (pixels), and the last entry at or above that line wins. Entries
    /// are scanned in order and the scan stops at the first entry below
    /// the line.
    pub fn find_current_section(&self, scroll_y: u64, line_height: u64) -> (r: Option<usize>)
        requires
            line_height >= 1,
        ensures
            ({
                let cur = crate::estimate::sadd(scroll_y as int, 100) / line_height as int;
                let p = prefix_within(self.entries@, cur);
                r == if p == 0 {
                    Option::<usize>::None
                } else {
                    Some((p - 1) as usize)
                }
            }),
    {
        let adjusted: u64 = scroll_y.saturating_add(100);
        let current_line: u64 = adjusted / line_height;
        let ghost cur = crate::estimate::sadd(scroll_y as int, 100) / line_height as int;
        let ghost p = prefix_within(self.entries@, cur);
        let mut current_idx: Option<usize> = None;
        let mut i: usize = 0;
        proof {
            assert(self.entries@.skip(0) =~= self.entries@);
            lemma_prefix_bounds(self.entries@, cur);
        }
        while i < self.entries.len()
            invariant
                i <= self.entries.len(),
                line_height >= 1,
                adjusted as int == crate::estimate::sadd(scroll_y as int, 100),
                cur == adjusted as int / line_height as int,
                current_line as int == cur,
                p == prefix_within(self.entries@, cur),
                i as int <= p,
                p == i as int + prefix_within(self.entries@.skip(i as int), cur),
                current_idx == if i == 0 {
                    Option::<usize>::None
                } else {
                    Some((i - 1) as usize)
                },
            decreases self.entries.len() - i,
        {
            proof {
                assert(self.entries@.skip(i as int)[0] == self.entries@[i as int]);
                assert(self.entries@.skip(i as int).drop_first() =~= self.entries@.skip(i + 1));
                lemma_prefix_bounds(self.entries@.skip(i + 1), cur);
            }
            if self.entries[i].line_number as u64 <= current_line {
                proof {
                    assert(self.entries@[i as int].line_number as int <= cur);
                    assert(prefix_within(self.entries@.skip(i as int), cur) == 1 + prefix_within(
                        self.entries@.skip(i as int).drop_first(),
                        cur,
                    ));
                    assert(prefix_within(self.entries@.skip(i as int).drop_first(), cur)
                        == prefix_within(self.entries@.skip(i + 1), cur));
                }
                current_idx = Some(i);
            } else {
                proof {
                    assert(self.entries@[i as int].line_number as int > cur);
                    assert(prefix_within(self.entries@.skip(i as int), cur) == 0);
                    assert(p == i as int);
                    assert(current_idx == if p == 0 {
                        Option::<usize>::None
                    } else {
                        Some((p - 1) as usize)
                    });
                }
                return current_idx;
            }
            i = i + 1;
        }
        proof {
            assert(self.entries@.skip(self.entries@.len() as int) =~= Seq::<TocEntry>::empty());
        }
        current_idx
    }
}

/// The prefix length is a count within the list's bounds.
proof fn lemma_prefix_bounds(entries: Seq<TocEntry>, cur: int)
    ensures
        0 <= prefix_within(entries, cur) <= entries.len(),
    decreases entries.len(),
{
    if entries.len() > 0 && entries[0].line_number <= cur {
        lemma_prefix_bounds(entries.drop_first(), cur);
    }
}

impl Default for TableOfContents {
    fn default() -> (t: Self)
        ensures
            t.entries@.len() == 0,
    {
        TableOfContents::new()
    }
}

} // verus!
