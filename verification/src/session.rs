//! The viewer session: document text, viewport, image cache, table of
//! contents and scroll state, tied together with the navigation
//! operations built on the height estimator.
//!
//! A session owns all the mutable core state. Whenever the document,
//! the viewport or an image's known size changes, the scroll bound is
//! recomputed from the estimator and the current offset re-clamped — it
//! is corrected, never reset.

use vstd::prelude::*;
use crate::cache::ImageCache;
use crate::cache::record_state;
use crate::estimate::LayoutConfig;
use crate::estimate::avg_line_height;
use crate::estimate::cadd;
use crate::estimate::chars_per_line;
use crate::estimate::cmul;
use crate::estimate::content_height_spec;
use crate::estimate::estimate;
use crate::estimate::content_height;
use crate::estimate::sadd;
use crate::estimate::smart_pass;
use crate::estimate::smul;
use crate::estimate::stop_index;
use crate::scroll::ScrollState;
use crate::style::CONTAINER_PADDING_CENTI;
use crate::style::IMAGE_MAX_WIDTH_PX;
use crate::style::IMAGE_VERTICAL_PADDING_CENTI;
use crate::style::TOC_ENTRY_HEIGHT_PX;
use crate::text::dec_digits;
use crate::text::extend_chars;
use crate::text::lines_of;
use crate::text::str_chars;
use crate::text::string_from_chars;
use crate::text::trim_chars;
use crate::text::trim_spec;
use crate::text::trim_start_spec;
use crate::text::u64_to_chars;
use crate::toc::TableOfContents;
use vstd::string::StringExecFns;

verus! {

/// An interactive element that can hold keyboard focus.
#[derive(Clone, Debug)]
pub enum FocusableElement {
    /// A clickable link with its URL.
    Link(String),
    /// A table-of-contents item with its line number.
    TocItem(usize),
    /// The table-of-contents toggle button.
    TocToggleButton,
    /// Copy button for a code block, identified by the code content.
    CopyButton(String),
    /// A bookmark item with its list index.
    BookmarkItem(usize),
    /// Close button for the bookmarks overlay.
    BookmarksCloseButton,
}

/// What activating the focused element asks the host to do, beyond the
/// state changes the session applies itself.
pub enum ActivationOutcome {
    /// Nothing was focused; no action was performed.
    Idle,
    /// The host should open this URL in the browser.
    OpenUrl(String),
    /// The host should copy this code to the clipboard.
    CopyCode(String),
    /// The session handled the activation internally.
    Handled,
}

/// Why a go-to-line request was rejected.
#[derive(Debug)]
pub enum GotoLineError {
    /// Line numbers start at one.
    LineZero,
    /// The requested line lies past the end of the document.
    PastEnd { line_number: usize, total_lines: usize },
}

/// The diagnostic text for a rejected go-to-line request.
pub open spec fn goto_error_message(e: GotoLineError) -> Seq<char> {
    match e {
        GotoLineError::LineZero => "Line number must be greater than 0"@,
        GotoLineError::PastEnd { line_number, total_lines } => "Line number "@ + dec_digits(
            line_number as nat,
        ) + " exceeds total lines ("@ + dec_digits(total_lines as nat) + ")"@,
    }
}

impl GotoLineError {
    /// Render the failure as the diagnostic text shown to the user.
    pub fn message(&self) -> (m: String)
        ensures
            m@ == goto_error_message(*self),
    {
        match self {
            GotoLineError::LineZero => String::from_str("Line number must be greater than 0"),
            GotoLineError::PastEnd { line_number, total_lines } => {
                let mut out = str_chars("Line number ");
                let line_digits = u64_to_chars(*line_number as u64);
                extend_chars(&mut out, line_digits.as_slice());
                let middle = str_chars(" exceeds total lines (");
                extend_chars(&mut out, middle.as_slice());
                let total_digits = u64_to_chars(*total_lines as u64);
                extend_chars(&mut out, total_digits.as_slice());
                let closing = str_chars(")");
                extend_chars(&mut out, closing.as_slice());
                string_from_chars(out.as_slice())
            },
        }
    }
}

/// The numeric value a digit character stands for; zero for anything
/// that is not a digit.
pub open spec fn digit_val(c: char) -> int {
    if '0' <= c && c <= '9' {
        c as int - '0' as int
    } else {
        0
    }
}

/// The decimal value of a digit string.
pub open spec fn dec_value(s: Seq<char>) -> int
    decreases s.len(),
{
    if s.len() == 0 {
        0
    } else {
        dec_value(s.drop_last()) * 10 + digit_val(s.last())
    }
}

/// Every character is a decimal digit.
pub open spec fn all_digits(s: Seq<char>) -> bool {
    forall|j: int| 0 <= j < s.len() ==> '0' <= #[trigger] s[j] && s[j] <= '9'
}

/// The digit part a line-number input stands for: the trimmed input,
/// with one optional leading plus sign removed.
pub open spec fn number_body(input: Seq<char>) -> Seq<char> {
    let t = trim_spec(input);
    if t.len() > 0 && t[0] == '+' {
        t.drop_first()
    } else {
        t
    }
}

/// A valid line-number input: a non-empty digit string (after trimming
/// and an optional plus sign) whose value fits the machine and is not
/// zero.
pub open spec fn parse_line_spec(input: Seq<char>) -> Option<usize> {
    let b = number_body(input);
    if b.len() > 0 && all_digits(b) && dec_value(b) <= usize::MAX && dec_value(b) > 0 {
        Some(dec_value(b) as usize)
    } else {
        None
    }
}

/// Decimal values never shrink.
proof fn lemma_dec_value_nonneg(s: Seq<char>)
    ensures
        dec_value(s) >= 0,
    decreases s.len(),
{
    if s.len() > 0 {
        lemma_dec_value_nonneg(s.drop_last());
    }
}

/// A prefix of a digit string never exceeds the whole string's value.
proof fn lemma_dec_value_prefix(s: Seq<char>, i: int)
    requires
        0 <= i <= s.len(),
    ensures
        dec_value(s.take(i)) <= dec_value(s),
    decreases s.len(),
{
    lemma_dec_value_nonneg(s.take(i));
    if i < s.len() {
        lemma_dec_value_nonneg(s.drop_last());
        assert(s.take(i) =~= s.drop_last().take(i));
        lemma_dec_value_prefix(s.drop_last(), i);
    } else {
        assert(s.take(i) =~= s);
    }
}

/// The state of one viewing session.
pub struct MarkdownViewer {
    /// The document text, as characters.
    pub markdown_content: Vec<char>,
    /// The path of the document, used to resolve relative image paths.
    pub markdown_file_path: Vec<char>,
    /// The scroll offsets and bound.
    pub scroll_state: ScrollState,
    /// The viewport, in pixels.
    pub viewport_width: u32,
    pub viewport_height: u32,
    /// The injected layout parameters.
    pub config: LayoutConfig,
    /// Per-image resolution states, keyed by resolved reference.
    pub image_cache: ImageCache,
    /// Whether the table-of-contents sidebar is shown.
    pub show_toc: bool,
    /// Whether the bookmarks overlay is shown.
    pub show_bookmarks: bool,
    /// The document's table of contents.
    pub toc: TableOfContents,
    /// Sidebar scroll position and bound, in pixels.
    pub toc_scroll_y: u64,
    pub toc_max_scroll_y: u64,
    /// Bookmarked line numbers.
    pub bookmarks: Vec<usize>,
    /// Focus targets collected by the renderer, and the focused one.
    pub focusable_elements: Vec<FocusableElement>,
    pub current_focus_index: Option<usize>,
    /// Whether the document file has been deleted on disk.
    pub file_deleted: bool,
    /// The active text search, if any.
    pub search_state: Option<crate::search::SearchState>,
}

/// The content height, in whole pixels, that one estimator run implies.
pub open spec fn session_content_px(s: MarkdownViewer) -> int {
    let lines = lines_of(s.markdown_content@);
    let cpl = chars_per_line(s.config, s.viewport_width, s.show_toc);
    let avg = avg_line_height(s.config);
    let m = smart_pass(
        lines,
        lines.len() as int,
        cpl,
        avg,
        s.markdown_file_path@,
        s.image_cache.view(),
    );
    let legacy = sadd(
        crate::estimate::legacy_pass(lines, lines.len() as int, avg).1,
        crate::estimate::cache_loaded_sum(s.image_cache.view()),
    );
    content_height_spec(m.height, legacy, m.blocks, m.keys, s.image_cache.view()) / 100
}

impl MarkdownViewer {
    /// Start a session over a document: scrolling begins at the top and
    /// the scroll bound is computed from the initial estimate, before
    /// any image has loaded.
    pub fn new(
        markdown_content: String,
        markdown_file_path: String,
        config: LayoutConfig,
        toc: TableOfContents,
        viewport_width: u32,
        viewport_height: u32,
    ) -> (s: Self)
        ensures
            s.markdown_content@ == markdown_content@,
            s.markdown_file_path@ == markdown_file_path@,
            s.scroll_state.scroll_y == 0,
            s.scroll_state.target_scroll_y == 0,
            !s.scroll_state.is_dragging,
            s.scroll_state.max_scroll_y as int == if session_content_px(s)
                >= s.viewport_height as int {
                session_content_px(s) - s.viewport_height as int
            } else {
                0
            },
            s.scroll_state.wf(),
            s.image_cache.view().len() == 0,
            s.image_cache.wf(),
            s.viewport_width == viewport_width,
            s.viewport_height == viewport_height,
            s.config == config,
            s.toc == toc,
            s.toc_scroll_y == 0,
            s.toc_max_scroll_y as int == toc_bound_spec(toc.entries@.len() as int, viewport_height),
            !s.show_toc,
            !s.show_bookmarks,
            s.bookmarks@.len() == 0,
            s.focusable_elements@.len() == 0,
            s.current_focus_index is None,
            !s.file_deleted,
            s.search_state is None,
    {
        let content = str_chars(markdown_content.as_str());
        let path = str_chars(markdown_file_path.as_str());
        let mut s = MarkdownViewer {
            markdown_content: content,
            markdown_file_path: path,
            scroll_state: ScrollState::new(),
            viewport_width,
            viewport_height,
            config,
            image_cache: ImageCache::new(),
            show_toc: false,
            show_bookmarks: false,
            toc,
            toc_scroll_y: 0,
            toc_max_scroll_y: 0,
            bookmarks: Vec::new(),
            focusable_elements: Vec::new(),
            current_focus_index: None,
            file_deleted: false,
            search_state: None,
        };
        s.recompute_max_scroll();
        s.compute_toc_max_scroll();
        s
    }

    /// Re-run the estimator over the whole document and re-clamp the
    /// scroll offsets against the new bound. Returns the resolved image
    /// keys the pass found, so the caller can start fetches for the
    /// ones it has not seen.
    pub fn recompute_max_scroll(&mut self) -> (keys: Vec<Vec<char>>)
        ensures
            *final(self) == (MarkdownViewer {
                scroll_state: final(self).scroll_state,
                ..*old(self)
            }),
            final(self).scroll_state.max_scroll_y as int == if session_content_px(*old(self))
                >= old(self).viewport_height as int {
                session_content_px(*old(self)) - old(self).viewport_height as int
            } else {
                0
            },
            final(self).scroll_state.scroll_y == vstd::math::min(
                old(self).scroll_state.scroll_y as int,
                final(self).scroll_state.max_scroll_y as int,
            ),
            final(self).scroll_state.target_scroll_y == vstd::math::min(
                old(self).scroll_state.target_scroll_y as int,
                final(self).scroll_state.max_scroll_y as int,
            ),
            final(self).scroll_state.wf(),
            final(self).scroll_state.is_dragging == old(self).scroll_state.is_dragging,
            final(self).scroll_state.drag_start_y == old(self).scroll_state.drag_start_y,
            final(self).scroll_state.drag_start_scroll == old(self).scroll_state.drag_start_scroll,
            keys@.map_values(|k: Vec<char>| k@) == smart_pass(
                lines_of(old(self).markdown_content@),
                lines_of(old(self).markdown_content@).len() as int,
                chars_per_line(old(self).config, old(self).viewport_width, old(self).show_toc),
                avg_line_height(old(self).config),
                old(self).markdown_file_path@,
                old(self).image_cache.view(),
            ).keys,
    {
        let est = estimate(
            self.markdown_content.as_slice(),
            self.viewport_width,
            None,
            self.show_toc,
            self.markdown_file_path.as_slice(),
            &self.config,
            &self.image_cache,
        );
        let h_centi = content_height(&est, &self.image_cache);
        self.scroll_state.set_max_scroll(h_centi / 100, self.viewport_height);
        est.found_image_keys
    }

    /// Compute the scroll bound of the table-of-contents sidebar from
    /// its entry count.
    pub fn compute_toc_max_scroll(&mut self)
        ensures
            *final(self) == (MarkdownViewer {
                toc_max_scroll_y: final(self).toc_max_scroll_y,
                ..*old(self)
            }),
            final(self).toc_max_scroll_y as int == toc_bound_spec(
                old(self).toc.entries@.len() as int,
                old(self).viewport_height,
            ),
    {
        if self.toc.entries.len() == 0 {
            self.toc_max_scroll_y = 0;
            return ;
        }
        let content: u64 = cadd(
            cmul(self.toc.entries.len() as u64, TOC_ENTRY_HEIGHT_PX),
            CONTAINER_PADDING_CENTI / 100,
        );
        self.toc_max_scroll_y = if content >= self.viewport_height as u64 {
            content - self.viewport_height as u64
        } else {
            0
        };
    }

    /// Mark an image key as loading. Returns true exactly when the
    /// caller should start the fetch: the first time the key is seen.
    pub fn load_image(&mut self, key: &[char]) -> (started: bool)
        requires
            old(self).image_cache.wf(),
        ensures
            *final(self) == (MarkdownViewer { image_cache: final(self).image_cache, ..*old(self) }),
            started == !old(self).image_cache.spec_contains(key@),
            final(self).image_cache.view() == if started {
                old(self).image_cache.view().push((key@, crate::cache::EntryState::Loading))
            } else {
                old(self).image_cache.view()
            },
            final(self).image_cache.wf(),
    {
        self.image_cache.ensure_loading(key)
    }

    /// Record the outcome of a finished image fetch — the decoded
    /// dimensions, or failure — and immediately recompute the scroll
    /// bound, so the visible bound is never older than the newest load.
    pub fn record_image_result(&mut self, key: &[char], dims: Option<(u32, u32)>)
        requires
            old(self).image_cache.wf(),
        ensures
            *final(self) == (MarkdownViewer {
                image_cache: final(self).image_cache,
                scroll_state: final(self).scroll_state,
                ..*old(self)
            }),
            final(self).image_cache.wf(),
            crate::cache::spec_find(final(self).image_cache.view(), key@) == Some(
                record_state(dims, IMAGE_MAX_WIDTH_PX as u64),
            ),
            forall|k: Seq<char>|
                k != key@ ==> #[trigger] crate::cache::spec_find(
                    final(self).image_cache.view(),
                    k,
                ) == crate::cache::spec_find(old(self).image_cache.view(), k),
            final(self).image_cache.view().len() == if old(self).image_cache.spec_contains(key@) {
                old(self).image_cache.view().len()
            } else {
                old(self).image_cache.view().len() + 1
            },
            final(self).scroll_state.max_scroll_y as int == if session_content_px(*final(self))
                >= final(self).viewport_height as int {
                session_content_px(*final(self)) - final(self).viewport_height as int
            } else {
                0
            },
            final(self).scroll_state.scroll_y == vstd::math::min(
                old(self).scroll_state.scroll_y as int,
                final(self).scroll_state.max_scroll_y as int,
            ),
            final(self).scroll_state.target_scroll_y == vstd::math::min(
                old(self).scroll_state.target_scroll_y as int,
                final(self).scroll_state.max_scroll_y as int,
            ),
            final(self).scroll_state.wf(),
            final(self).scroll_state.is_dragging == old(self).scroll_state.is_dragging,
            final(self).scroll_state.drag_start_y == old(self).scroll_state.drag_start_y,
            final(self).scroll_state.drag_start_scroll == old(self).scroll_state.drag_start_scroll,
    {
        self.image_cache.record_result(key, dims, IMAGE_MAX_WIDTH_PX);
        let _ = self.recompute_max_scroll();
    }

    /// Replace the document after a reload: the cache is cleared
    /// wholesale, the table of contents is replaced, and the scroll
    /// position is kept and re-clamped against the new bound.
    ///
    /// Open issue: a fetch still in flight from before the reload is
    /// not guarded against; its eventual `record_image_result` writes
    /// into the fresh cache. That late write is harmless for safety —
    /// the bound is recomputed from whatever is cached — but a
    /// generation counter compared at write time would avoid
    /// resurrecting an entry for a document that no longer references
    /// it.
    pub fn reload_content(&mut self, markdown_content: String, toc: TableOfContents)
        ensures
            *final(self) == (MarkdownViewer {
                markdown_content: final(self).markdown_content,
                toc: final(self).toc,
                image_cache: final(self).image_cache,
                scroll_state: final(self).scroll_state,
                toc_max_scroll_y: final(self).toc_max_scroll_y,
                file_deleted: false,
                ..*old(self)
            }),
            final(self).markdown_content@ == markdown_content@,
            final(self).toc == toc,
            final(self).image_cache.view().len() == 0,
            final(self).image_cache.wf(),
            final(self).scroll_state.max_scroll_y as int == if session_content_px(*final(self))
                >= final(self).viewport_height as int {
                session_content_px(*final(self)) - final(self).viewport_height as int
            } else {
                0
            },
            final(self).scroll_state.scroll_y == vstd::math::min(
                old(self).scroll_state.scroll_y as int,
                final(self).scroll_state.max_scroll_y as int,
            ),
            final(self).scroll_state.target_scroll_y == vstd::math::min(
                old(self).scroll_state.target_scroll_y as int,
                final(self).scroll_state.max_scroll_y as int,
            ),
            final(self).scroll_state.wf(),
            final(self).scroll_state.is_dragging == old(self).scroll_state.is_dragging,
            final(self).scroll_state.drag_start_y == old(self).scroll_state.drag_start_y,
            final(self).scroll_state.drag_start_scroll == old(self).scroll_state.drag_start_scroll,
            final(self).toc_max_scroll_y as int == toc_bound_spec(
                toc.entries@.len() as int,
                final(self).viewport_height,
            ),
    {
        self.markdown_content = str_chars(markdown_content.as_str());
        self.toc = toc;
        self.image_cache.clear();
        self.file_deleted = false;
        let _ = self.recompute_max_scroll();
        self.compute_toc_max_scroll();
    }

    /// Take over new viewport dimensions; the bound is recomputed only
    /// when a dimension moved by more than one pixel, to avoid
    /// recompute storms on sub-pixel resize reports.
    pub fn update_viewport(&mut self, width: u32, height: u32)
        ensures
            final(self).viewport_width == if changed_beyond_threshold(
                old(self).viewport_width,
                width,
            ) {
                width
            } else {
                old(self).viewport_width
            },
            final(self).viewport_height == if changed_beyond_threshold(
                old(self).viewport_height,
                height,
            ) {
                height
            } else {
                old(self).viewport_height
            },
            (!changed_beyond_threshold(old(self).viewport_width, width)
                && !changed_beyond_threshold(old(self).viewport_height, height)) ==> *final(self)
                == *old(self),
            (changed_beyond_threshold(old(self).viewport_width, width)
                || changed_beyond_threshold(old(self).viewport_height, height)) ==> ({
                &&& final(self).scroll_state.max_scroll_y as int == if session_content_px(
                    *final(self),
                ) >= final(self).viewport_height as int {
                    session_content_px(*final(self)) - final(self).viewport_height as int
                } else {
                    0
                }
                &&& final(self).scroll_state.scroll_y == vstd::math::min(
                    old(self).scroll_state.scroll_y as int,
                    final(self).scroll_state.max_scroll_y as int,
                )
                &&& final(self).scroll_state.wf()
                &&& *final(self) == (MarkdownViewer {
                    viewport_width: final(self).viewport_width,
                    viewport_height: final(self).viewport_height,
                    scroll_state: final(self).scroll_state,
                    ..*old(self)
                })
            }),
    {
        let mut any = false;
        if (width as u64) > self.viewport_width as u64 + 1 || (width as u64) + 1 < (
        self.viewport_width as u64) {
            self.viewport_width = width;
            any = true;
        }
        if (height as u64) > self.viewport_height as u64 + 1 || (height as u64) + 1 < (
        self.viewport_height as u64) {
            self.viewport_height = height;
            any = true;
        }
        if any {
            let _ = self.recompute_max_scroll();
        }
    }

    /// Parse a line number from user input: decimal digits, optionally
    /// signed with a plus and padded with blanks; zero and anything
    /// else is rejected.
    pub fn parse_line_number(input: &str) -> (r: Option<usize>)
        ensures
            r == parse_line_spec(input@),
    {
        let chars = str_chars(input);
        let t = trim_chars(chars.as_slice());
        let body: Vec<char> = if t.len() > 0 && t[0] == '+' {
            crate::text::subrange_chars(t.as_slice(), 1, t.len())
        } else {
            t
        };
        proof {
            assert(body@ =~= number_body(input@));
        }
        if body.len() == 0 {
            return None;
        }
        let mut value: usize = 0;
        let mut i: usize = 0;
        while i < body.len()
            invariant
                i <= body.len(),
                body@ == number_body(input@),
                all_digits(body@.take(i as int)),
                value as int == dec_value(body@.take(i as int)),
            decreases body.len() - i,
        {
            let c = body[i];
            if !('0' <= c && c <= '9') {
                proof {
                    assert(!all_digits(body@));
                }
                return None;
            }
            let d: usize = (c as u32 - '0' as u32) as usize;
            let scaled = match value.checked_mul(10) {
                Some(v) => v,
                None => {
                    proof {
                        overflow_means_invalid(body@, i as int, value as int, d as int);
                    }
                    return None;
                },
            };
            let next = match scaled.checked_add(d) {
                Some(v) => v,
                None => {
                    proof {
                        overflow_means_invalid(body@, i as int, value as int, d as int);
                    }
                    return None;
                },
            };
            value = next;
            proof {
                assert(body@.take(i + 1).drop_last() =~= body@.take(i as int));
                assert(body@.take(i + 1).last() == body@[i as int]);
            }
            i = i + 1;
        }
        proof {
            assert(body@.take(body@.len() as int) =~= body@);
        }
        if value == 0 {
            return None;
        }
        Some(value)
    }

    /// Check a line number against the document: line numbers start at
    /// one and must not exceed the number of lines.
    pub fn validate_line_number(&self, line_number: usize) -> (r: Result<(), GotoLineError>)
        ensures
            ({
                let total = lines_of(self.markdown_content@).len();
                &&& line_number == 0 ==> (r matches Err(GotoLineError::LineZero))
                &&& (line_number > 0 && line_number > total) ==> (r matches Err(
                    GotoLineError::PastEnd { line_number: l, total_lines: t },
                ) && l == line_number && t == total)
                &&& (0 < line_number <= total) ==> (r matches Ok(()))
            }),
    {
        let lines = crate::text::split_lines(self.markdown_content.as_slice());
        let total_lines = lines.len();
        if line_number == 0 {
            return Err(GotoLineError::LineZero);
        }
        if line_number > total_lines {
            return Err(GotoLineError::PastEnd { line_number, total_lines });
        }
        Ok(())
    }

    /// The estimated y position (pixels) of the start of a zero-based
    /// line: the wrap-aware pass stopped at that line, plus the top
    /// container padding.
    pub fn calculate_y_for_line(&self, line_number: usize) -> (y: u64)
        ensures
            y as int == sadd(
                smart_pass(
                    lines_of(self.markdown_content@),
                    stop_index(
                        Some(line_number),
                        lines_of(self.markdown_content@).len() as int,
                    ),
                    chars_per_line(self.config, self.viewport_width, self.show_toc),
                    avg_line_height(self.config),
                    self.markdown_file_path@,
                    self.image_cache.view(),
                ).height / 100,
                CONTAINER_PADDING_CENTI as int / 100,
            ),
    {
        let est = estimate(
            self.markdown_content.as_slice(),
            self.viewport_width,
            Some(line_number),
            self.show_toc,
            self.markdown_file_path.as_slice(),
            &self.config,
            &self.image_cache,
        );
        cadd(est.smart_height_centi / 100, CONTAINER_PADDING_CENTI / 100)
    }

    /// Scroll so the given one-based line sits centered in the
    /// viewport, clamped into the valid range; rejected when the line
    /// does not exist.
    pub fn scroll_to_line(&mut self, line_number: usize) -> (r: Result<(), GotoLineError>)
        ensures
            *final(self) == (MarkdownViewer {
                scroll_state: final(self).scroll_state,
                ..*old(self)
            }),
            r matches Err(_) ==> *final(self) == *old(self),
            r matches Ok(()) ==> ({
                &&& final(self).scroll_state.scroll_y == vstd::math::min(
                    centered_target(
                        old(self).calculate_y_line_spec((line_number - 1) as usize),
                        old(self).viewport_height,
                    ),
                    old(self).scroll_state.max_scroll_y as int,
                )
                &&& final(self).scroll_state == (ScrollState {
                    scroll_y: final(self).scroll_state.scroll_y,
                    ..old(self).scroll_state
                })
            }),
            ({
                let total = lines_of(old(self).markdown_content@).len();
                &&& line_number == 0 ==> (r matches Err(GotoLineError::LineZero))
                &&& (line_number > 0 && line_number > total) ==> (r matches Err(
                    GotoLineError::PastEnd { .. },
                ))
                &&& (0 < line_number <= total) ==> (r matches Ok(()))
            }),
    {
        match self.validate_line_number(line_number) {
            Err(e) => Err(e),
            Ok(()) => {
                let target_y = self.calculate_y_for_line(line_number - 1);
                let half: u64 = self.viewport_height as u64 / 2;
                let centered: u64 = if target_y >= half {
                    target_y - half
                } else {
                    0
                };
                let clamped: u64 = if centered > self.scroll_state.max_scroll_y {
                    self.scroll_state.max_scroll_y
                } else {
                    centered
                };
                self.scroll_state.scroll_y = clamped;
                Ok(())
            },
        }
    }

    /// The y position a line scrolls to, as the spec sees it.
    pub open spec fn calculate_y_line_spec(self, line_number: usize) -> int {
        sadd(
            smart_pass(
                lines_of(self.markdown_content@),
                stop_index(Some(line_number), lines_of(self.markdown_content@).len() as int),
                chars_per_line(self.config, self.viewport_width, self.show_toc),
                avg_line_height(self.config),
                self.markdown_file_path@,
                self.image_cache.view(),
            ).height / 100,
            CONTAINER_PADDING_CENTI as int / 100,
        )
    }

    /// The one-based line the current scroll position stands at, as
    /// the spec sees it: the offset divided by the average line height
    /// in whole pixels, clipped into the document.
    pub open spec fn current_line_spec(self) -> int {
        let avg_px = avg_line_height(self.config) / 100;
        let avg1 = if avg_px < 1 {
            1int
        } else {
            avg_px
        };
        let total = lines_of(self.markdown_content@).len() as int;
        let idx = self.scroll_state.scroll_y as int / avg1;
        let capped = if idx + 1 < total {
            idx + 1
        } else {
            total
        };
        if capped < 1 {
            1int
        } else {
            capped
        }
    }

    /// The one-based line the current scroll position corresponds to,
    /// by plain division with the average line height.
    pub fn get_current_line_number(&self) -> (n: usize)
        ensures
            n as int == self.current_line_spec(),
    {
        let avg_centi: u64 = cmul(self.config.base_text_size_centi, self.config.line_height_mult_centi)
            / 100;
        let avg_px: u64 = avg_centi / 100;
        let avg1: u64 = if avg_px < 1 {
            1
        } else {
            avg_px
        };
        let idx: u64 = self.scroll_state.scroll_y / avg1;
        let lines = crate::text::split_lines(self.markdown_content.as_slice());
        let total: u64 = lines.len() as u64;
        let capped: u64 = if idx < u64::MAX && idx + 1 < total {
            idx + 1
        } else {
            total
        };
        let n64: u64 = if capped < 1 {
            1
        } else {
            capped
        };
        proof {
            assert(lines@.map_values(|l: Vec<char>| l@).len() == lines_of(
                self.markdown_content@,
            ).len());
        }
        n64 as usize
    }

    /// The estimated y position (pixels) of the byte of text at the
    /// given character offset, by the crude per-line weights: every
    /// full line before the offset is charged its class weight, plus
    /// any image on it whose height is cached under the raw reference
    /// between `](` and `)`. An offset at or past the end of the
    /// document maps to the scroll bound itself.
    pub fn calculate_y_for_offset(&self, target_offset: usize) -> (y: u64)
        ensures
            y as int == self.y_for_offset_spec(target_offset),
    {
        if target_offset >= self.markdown_content.len() {
            return self.scroll_state.max_scroll_y;
        }
        let prefix = crate::text::subrange_chars(
            self.markdown_content.as_slice(),
            0,
            target_offset,
        );
        let lines_to_sum = crate::text::count_char_exec(prefix.as_slice(), '\n');
        proof {
            assert(prefix@ =~= self.markdown_content@.take(target_offset as int));
        }
        let ghost lines_spec = lines_of(self.markdown_content@);
        let lines = crate::text::split_lines(self.markdown_content.as_slice());
        let avg: u64 = cmul(self.config.base_text_size_centi, self.config.line_height_mult_centi)
            / 100;
        let fence_pat = str_chars("```");
        let bang_pat = str_chars("![");
        let close_pat = str_chars("](");
        let paren_pat = str_chars(")");
        let mut in_fence = false;
        let mut y: u64 = 0;
        let mut i: usize = 0;
        let limit: usize = if lines_to_sum < lines.len() {
            lines_to_sum
        } else {
            lines.len()
        };
        proof {
            assert(limit as int == y_limit(lines_spec, lines_to_sum as int));
        }
        while i < limit
            invariant
                i <= limit,
                limit <= lines.len(),
                lines_spec == lines@.map_values(|l: Vec<char>| l@),
                fence_pat@ == "```"@,
                bang_pat@ == "!["@,
                close_pat@ == "]("@,
                paren_pat@ == ")"@,
                avg as int == avg_line_height(self.config),
                (in_fence, y as int) == y_offset_pass_upto(
                    lines_spec,
                    i as int,
                    avg as int,
                    self.image_cache.view(),
                ),
            decreases limit - i,
        {
            proof {
                assert(lines_spec[i as int] == lines@[i as int]@);
            }
            let t = crate::text::trim_start_chars(lines[i].as_slice());
            if crate::text::starts_with(t.as_slice(), fence_pat.as_slice()) {
                in_fence = !in_fence;
            }
            let w: u64 = if in_fence {
                125
            } else if t.len() > 0 && t[0] == '#' {
                160
            } else if t.len() > 0 && t[0] == '>' {
                115
            } else {
                100
            };
            y = cadd(y, cmul(avg, w) / 100);
            let has_bang = crate::estimate::find_sub(t.as_slice(), bang_pat.as_slice(), 0);
            let has_close = crate::estimate::find_sub(t.as_slice(), close_pat.as_slice(), 0);
            match (has_bang, has_close) {
                (Some(_), Some(ae)) => {
                    match crate::estimate::find_sub(t.as_slice(), paren_pat.as_slice(), ae) {
                        Some(ue) => {
                            proof {
                                reveal_strlit("](");
                                reveal_strlit(")");
                                crate::estimate::lemma_first_occur_bounds(t@, "]("@, 0, ae as int);
                                crate::estimate::lemma_first_occur_bounds(
                                    t@,
                                    ")"@,
                                    ae as int,
                                    ue as int,
                                );
                                assert(t@[ae as int] == "]("@[0]);
                                assert(t@[ae + 1] == "]("@[1]);
                                assert(t@[ue as int] == ")"@[0]);
                                assert(ue != ae && ue != ae + 1);
                            }
                            let path = crate::text::subrange_chars(t.as_slice(), ae + 2, ue);
                            match self.image_cache.get(path.as_slice()) {
                                Some(crate::cache::EntryState::Loaded {
                                    display_width: _,
                                    display_height,
                                }) => {
                                    y = cadd(
                                        y,
                                        cadd(
                                            cmul(display_height, 100),
                                            IMAGE_VERTICAL_PADDING_CENTI,
                                        ) / 100,
                                    );
                                },
                                _ => {},
                            }
                        },
                        None => {},
                    }
                },
                _ => {},
            }
            i = i + 1;
        }
        y
    }

    /// The y position the offset pass assigns a character offset, as
    /// the spec sees it: an offset at or past the end of the document
    /// maps to the scroll bound itself.
    pub open spec fn y_for_offset_spec(self, target_offset: usize) -> int {
        if target_offset >= self.markdown_content@.len() {
            self.scroll_state.max_scroll_y as int
        } else {
            y_offset_pass(
                lines_of(self.markdown_content@),
                crate::text::count_char(self.markdown_content@.take(target_offset as int), '\n'),
                avg_line_height(self.config),
                self.image_cache.view(),
            ).1
        }
    }

    /// Scroll so the current search match sits centered in the
    /// viewport, clamped into the valid range; without a current match
    /// nothing moves.
    pub fn scroll_to_current_match(&mut self)
        ensures
            *final(self) == (MarkdownViewer {
                scroll_state: final(self).scroll_state,
                ..*old(self)
            }),
            final(self).scroll_state.max_scroll_y == old(self).scroll_state.max_scroll_y,
            final(self).scroll_state.target_scroll_y == old(self).scroll_state.target_scroll_y,
            final(self).scroll_state.scroll_y == match old(self).search_state {
                Some(st) => match st.spec_current() {
                    Some(i) => {
                        if i < st.spec_matches().len() {
                            vstd::math::min(
                                centered_target(
                                    old(self).y_for_offset_spec(st.spec_matches()[i as int].start),
                                    old(self).viewport_height,
                                ),
                                old(self).scroll_state.max_scroll_y as int,
                            )
                        } else {
                            old(self).scroll_state.scroll_y as int
                        }
                    },
                    None => old(self).scroll_state.scroll_y as int,
                },
                None => old(self).scroll_state.scroll_y as int,
            },
    {
        let start: usize = match &self.search_state {
            Some(st) => match st.current_match() {
                Some(m) => m.start,
                None => {
                    return ;
                },
            },
            None => {
                return ;
            },
        };
        let y = self.calculate_y_for_offset(start);
        let half: u64 = self.viewport_height as u64 / 2;
        let centered: u64 = if y >= half {
            y - half
        } else {
            0
        };
        self.scroll_state.scroll_y = if centered > self.scroll_state.max_scroll_y {
            self.scroll_state.max_scroll_y
        } else {
            centered
        };
    }

    /// Move focus to the next focusable element, wrapping around.
    pub fn focus_next(&mut self)
        ensures
            *final(self) == (MarkdownViewer {
                current_focus_index: final(self).current_focus_index,
                ..*old(self)
            }),
            final(self).current_focus_index == if old(self).focusable_elements@.len() == 0 {
                Option::<usize>::None
            } else {
                Some(
                    match old(self).current_focus_index {
                        None => 0usize,
                        Some(idx) => if idx + 1 < old(self).focusable_elements@.len() {
                            (idx + 1) as usize
                        } else {
                            0usize
                        },
                    },
                )
            },
    {
        if self.focusable_elements.len() == 0 {
            self.current_focus_index = None;
            return ;
        }
        self.current_focus_index = Some(
            match self.current_focus_index {
                None => 0usize,
                Some(idx) => {
                    if idx < usize::MAX && idx + 1 < self.focusable_elements.len() {
                        idx + 1
                    } else {
                        0usize
                    }
                },
            },
        );
    }

    /// Move focus to the previous focusable element, wrapping around.
    pub fn focus_previous(&mut self)
        ensures
            *final(self) == (MarkdownViewer {
                current_focus_index: final(self).current_focus_index,
                ..*old(self)
            }),
            final(self).current_focus_index == if old(self).focusable_elements@.len() == 0 {
                Option::<usize>::None
            } else {
                Some(
                    match old(self).current_focus_index {
                        None => (old(self).focusable_elements@.len() - 1) as usize,
                        Some(idx) => if idx == 0 {
                            (old(self).focusable_elements@.len() - 1) as usize
                        } else {
                            (idx - 1) as usize
                        },
                    },
                )
            },
    {
        if self.focusable_elements.len() == 0 {
            self.current_focus_index = None;
            return ;
        }
        self.current_focus_index = Some(
            match self.current_focus_index {
                None => self.focusable_elements.len() - 1,
                Some(idx) => {
                    if idx == 0 {
                        self.focusable_elements.len() - 1
                    } else {
                        idx - 1
                    }
                },
            },
        );
    }

    /// Activate the focused element: navigation targets scroll the
    /// document, toggles flip their panel, and links and copy buttons
    /// are handed back for the host to perform.
    pub fn activate_focused_element(&mut self) -> (r: ActivationOutcome)
        ensures
            match old(self).current_focus_index {
                Some(idx) => {
                    if idx < old(self).focusable_elements@.len() {
                        match old(self).focusable_elements@[idx as int] {
                            FocusableElement::Link(url) => ({
                                &&& r matches ActivationOutcome::OpenUrl(u) && u@ == url@
                                &&& *final(self) == *old(self)
                            }),
                            FocusableElement::CopyButton(code) => ({
                                &&& r matches ActivationOutcome::CopyCode(c) && c@ == code@
                                &&& *final(self) == *old(self)
                            }),
                            FocusableElement::TocToggleButton => ({
                                &&& r matches ActivationOutcome::Handled
                                &&& final(self).show_toc == !old(self).show_toc
                            }),
                            FocusableElement::BookmarksCloseButton => ({
                                &&& r matches ActivationOutcome::Handled
                                &&& *final(self) == (MarkdownViewer {
                                    show_bookmarks: false,
                                    ..*old(self)
                                })
                            }),
                            FocusableElement::BookmarkItem(line) => ({
                                let total = lines_of(old(self).markdown_content@).len();
                                &&& r matches ActivationOutcome::Handled
                                &&& *final(self) == (MarkdownViewer {
                                    show_bookmarks: false,
                                    scroll_state: final(self).scroll_state,
                                    ..*old(self)
                                })
                                &&& (0 < line <= total) ==> ({
                                    &&& final(self).scroll_state.scroll_y == vstd::math::min(
                                        centered_target(
                                            old(self).calculate_y_line_spec((line - 1) as usize),
                                            old(self).viewport_height,
                                        ),
                                        old(self).scroll_state.max_scroll_y as int,
                                    )
                                    &&& final(self).scroll_state == (ScrollState {
                                        scroll_y: final(self).scroll_state.scroll_y,
                                        ..old(self).scroll_state
                                    })
                                })
                                &&& !(0 < line <= total) ==> final(self).scroll_state == old(
                                    self,
                                ).scroll_state
                            }),
                            FocusableElement::TocItem(line) => ({
                                &&& r matches ActivationOutcome::Handled
                                &&& *final(self) == (MarkdownViewer {
                                    scroll_state: final(self).scroll_state,
                                    ..*old(self)
                                })
                                &&& final(self).scroll_state.scroll_y == vstd::math::min(
                                    old(self).calculate_y_line_spec(line),
                                    old(self).scroll_state.max_scroll_y as int,
                                )
                                &&& final(self).scroll_state == (ScrollState {
                                    scroll_y: final(self).scroll_state.scroll_y,
                                    ..old(self).scroll_state
                                })
                            }),
                        }
                    } else {
                        ({
                            &&& r matches ActivationOutcome::Idle
                            &&& *final(self) == *old(self)
                        })
                    }
                },
                None => ({
                    &&& r matches ActivationOutcome::Idle
                    &&& *final(self) == *old(self)
                }),
            },
    {
        let idx = match self.current_focus_index {
            Some(idx) => idx,
            None => {
                return ActivationOutcome::Idle;
            },
        };
        if idx >= self.focusable_elements.len() {
            return ActivationOutcome::Idle;
        }
        let plan: ActivationPlan = match &self.focusable_elements[idx] {
            FocusableElement::Link(url) => ActivationPlan::GiveUrl(url.clone()),
            FocusableElement::CopyButton(code) => ActivationPlan::GiveCode(code.clone()),
            FocusableElement::TocToggleButton => ActivationPlan::ToggleToc,
            FocusableElement::BookmarksCloseButton => ActivationPlan::CloseBookmarks,
            FocusableElement::BookmarkItem(line) => ActivationPlan::JumpBookmark(*line),
            FocusableElement::TocItem(line) => ActivationPlan::JumpToc(*line),
        };
        match plan {
            ActivationPlan::GiveUrl(u) => ActivationOutcome::OpenUrl(u),
            ActivationPlan::GiveCode(c) => ActivationOutcome::CopyCode(c),
            ActivationPlan::ToggleToc => {
                self.show_toc = !self.show_toc;
                let _ = self.recompute_max_scroll();
                ActivationOutcome::Handled
            },
            ActivationPlan::CloseBookmarks => {
                self.show_bookmarks = false;
                ActivationOutcome::Handled
            },
            ActivationPlan::JumpBookmark(line) => {
                let _ = self.scroll_to_line(line);
                self.show_bookmarks = false;
                ActivationOutcome::Handled
            },
            ActivationPlan::JumpToc(line) => {
                let target = self.calculate_y_for_line(line);
                let clamped = if target > self.scroll_state.max_scroll_y {
                    self.scroll_state.max_scroll_y
                } else {
                    target
                };
                self.scroll_state.scroll_y = clamped;
                ActivationOutcome::Handled
            },
        }
    }

    /// Toggle a bookmark on the line the scroll position stands at:
    /// a line already bookmarked loses its first marker, any other line
    /// gains one at its sorted position.
    pub fn toggle_bookmark(&mut self)
        ensures
            *final(self) == (MarkdownViewer { bookmarks: final(self).bookmarks, ..*old(self) }),
            ({
                let line = old(self).current_line_spec();
                let bs = old(self).bookmarks@;
                final(self).bookmarks@ == if bs.contains(line as usize) {
                    bs.remove(first_index_of(bs, line as usize))
                } else {
                    bs.take(sorted_position(bs, line as usize)).push((line as usize)) + bs.skip(
                        sorted_position(bs, line as usize),
                    )
                }
            }),
    {
        let line = self.get_current_line_number();
        let ghost bs = self.bookmarks@;
        let mut i: usize = 0;
        while i < self.bookmarks.len()
            invariant
                i <= self.bookmarks.len(),
                bs == self.bookmarks@,
                bs == old(self).bookmarks@,
                *self == (MarkdownViewer { bookmarks: self.bookmarks, ..*old(self) }),
                line as int == old(self).current_line_spec(),
                forall|j: int| 0 <= j < i ==> bs[j] != line,
            decreases self.bookmarks.len() - i,
        {
            if self.bookmarks[i] == line {
                proof {
                    assert(bs.contains(line));
                    assert(first_index_of(bs, line) == i as int) by {
                        lemma_first_index_of(bs, line, i as int);
                    }
                    assert((old(self).current_line_spec()) as usize == line);
                }
                self.bookmarks.remove(i);
                proof {
                    assert(self.bookmarks@ =~= bs.remove(
                        first_index_of(bs, (old(self).current_line_spec()) as usize),
                    ));
                    assert(bs.contains((old(self).current_line_spec()) as usize));
                }
                return ;
            }
            i = i + 1;
        }
        proof {
            assert(!bs.contains(line));
            assert((old(self).current_line_spec()) as usize == line);
        }
        let mut k: usize = 0;
        while k < self.bookmarks.len() && self.bookmarks[k] < line
            invariant
                k <= self.bookmarks.len(),
                bs == self.bookmarks@,
                bs == old(self).bookmarks@,
                *self == (MarkdownViewer { bookmarks: self.bookmarks, ..*old(self) }),
                line as int == old(self).current_line_spec(),
                forall|j: int| 0 <= j < k ==> bs[j] < line,
            decreases self.bookmarks.len() - k,
        {
            k = k + 1;
        }
        proof {
            assert(sorted_position(bs, line) == k as int) by {
                lemma_sorted_position(bs, line, k as int);
            }
        }
        self.bookmarks.insert(k, line);
        proof {
            assert((old(self).current_line_spec()) as usize == line);
            assert(self.bookmarks@ =~= bs.take(k as int).push(line) + bs.skip(k as int));
        }
    }

    /// Clear keyboard focus.
    pub fn clear_focus(&mut self)
        ensures
            *final(self) == (MarkdownViewer { current_focus_index: None, ..*old(self) }),
    {
        self.current_focus_index = None;
    }
}

/// The action an activation resolves to before it is applied.
enum ActivationPlan {
    GiveUrl(String),
    GiveCode(String),
    ToggleToc,
    CloseBookmarks,
    JumpBookmark(usize),
    JumpToc(usize),
}

/// How many lines the offset pass walks: every full line before the
/// offset, clipped to the document.
pub open spec fn y_limit(lines: Seq<Seq<char>>, lines_to_sum: int) -> int {
    if lines_to_sum < lines.len() {
        lines_to_sum
    } else {
        lines.len() as int
    }
}

/// One line of the offset pass: the fence flag toggles on a fence
/// marker before the weight is read, the line is charged the crude
/// class weight, and an image whose raw reference between `](` and `)`
/// has a cached height adds that height.
pub open spec fn y_offset_step(
    st: (bool, int),
    l: Seq<char>,
    avg: int,
    cache: Seq<(Seq<char>, crate::cache::EntryState)>,
) -> (bool, int) {
    let t = trim_start_spec(l);
    let fence = if crate::estimate::is_fence(t) {
        !st.0
    } else {
        st.0
    };
    let w: int = if fence {
        125
    } else if crate::estimate::is_heading(t) {
        160
    } else if crate::estimate::is_quote(t) {
        115
    } else {
        100
    };
    let base = sadd(st.1, smul(avg, w) / 100);
    let with_img = if crate::estimate::first_occur(t, "!["@, 0) is Some
        && crate::estimate::first_occur(t, "]("@, 0) is Some {
        let ae = crate::estimate::first_occur(t, "]("@, 0)->Some_0;
        match crate::estimate::first_occur(t, ")"@, ae) {
            Some(ue) => {
                match crate::cache::loaded_height(cache, t.subrange(ae + 2, ue)) {
                    Some(h) => sadd(
                        base,
                        sadd(smul(h as int, 100), IMAGE_VERTICAL_PADDING_CENTI as int) / 100,
                    ),
                    None => base,
                }
            },
            None => base,
        }
    } else {
        base
    };
    (fence, with_img)
}

/// The offset pass over the first `n` lines.
pub open spec fn y_offset_pass_upto(
    lines: Seq<Seq<char>>,
    n: int,
    avg: int,
    cache: Seq<(Seq<char>, crate::cache::EntryState)>,
) -> (bool, int)
    decreases n,
{
    if n <= 0 {
        (false, 0)
    } else {
        y_offset_step(y_offset_pass_upto(lines, n - 1, avg, cache), lines[n - 1], avg, cache)
    }
}

/// The offset pass clipped to the lines before the offset.
pub open spec fn y_offset_pass(
    lines: Seq<Seq<char>>,
    lines_to_sum: int,
    avg: int,
    cache: Seq<(Seq<char>, crate::cache::EntryState)>,
) -> (bool, int) {
    y_offset_pass_upto(lines, y_limit(lines, lines_to_sum), avg, cache)
}

/// The scroll bound of the table-of-contents sidebar: its entries at a
/// fixed height each plus the container padding, less the viewport; an
/// empty table does not scroll.
pub open spec fn toc_bound_spec(n_entries: int, viewport_height: u32) -> int {
    if n_entries == 0 {
        0
    } else {
        let content = sadd(
            smul(n_entries, TOC_ENTRY_HEIGHT_PX as int),
            CONTAINER_PADDING_CENTI as int / 100,
        );
        if content >= viewport_height as int {
            content - viewport_height as int
        } else {
            0
        }
    }
}

/// The first position where `v` holds `x`.
pub open spec fn first_index_of(v: Seq<usize>, x: usize) -> int
    decreases v.len(),
{
    if v.len() == 0 {
        0
    } else if v[0] == x {
        0
    } else {
        1 + first_index_of(v.drop_first(), x)
    }
}

/// The position a value sorts into: the length of the prefix of
/// strictly smaller elements.
pub open spec fn sorted_position(v: Seq<usize>, x: usize) -> int
    decreases v.len(),
{
    if v.len() == 0 || v[0] >= x {
        0
    } else {
        1 + sorted_position(v.drop_first(), x)
    }
}

/// A scan that passes `i` non-hits and stops on a hit pins the first
/// index down.
proof fn lemma_first_index_of(v: Seq<usize>, x: usize, i: int)
    requires
        0 <= i < v.len(),
        v[i] == x,
        forall|j: int| 0 <= j < i ==> v[j] != x,
    ensures
        first_index_of(v, x) == i,
    decreases v.len(),
{
    if i > 0 {
        assert forall|j: int| 0 <= j < i - 1 implies v.drop_first()[j] != x by {
            assert(v.drop_first()[j] == v[j + 1]);
        }
        assert(v.drop_first()[i - 1] == v[i]);
        lemma_first_index_of(v.drop_first(), x, i - 1);
    }
}

/// A scan that passes `k` smaller elements and stops pins the sorted
/// position down.
proof fn lemma_sorted_position(v: Seq<usize>, x: usize, k: int)
    requires
        0 <= k <= v.len(),
        forall|j: int| 0 <= j < k ==> v[j] < x,
        k == v.len() || v[k] >= x,
    ensures
        sorted_position(v, x) == k,
    decreases v.len(),
{
    if k > 0 {
        assert forall|j: int| 0 <= j < k - 1 implies v.drop_first()[j] < x by {
            assert(v.drop_first()[j] == v[j + 1]);
        }
        if k - 1 < v.drop_first().len() {
            assert(v.drop_first()[k - 1] == v[k]);
        }
        lemma_sorted_position(v.drop_first(), x, k - 1);
    }
}

/// A reported viewport dimension differs from the held one by more than
/// one pixel.
pub open spec fn changed_beyond_threshold(held: u32, reported: u32) -> bool {
    reported > held + 1 || reported + 1 < held
}

/// The scroll target that centers a position in the viewport.
pub open spec fn centered_target(y: int, viewport_height: u32) -> int {
    let half = viewport_height as int / 2;
    if y >= half {
        y - half
    } else {
        0
    }
}

/// A parse that overflows the machine range is invalid input.
proof fn overflow_means_invalid(body: Seq<char>, i: int, value: int, d: int)
    requires
        0 <= i < body.len(),
        value == dec_value(body.take(i)),
        d == digit_val(body[i]),
        value * 10 + d > usize::MAX || value * 10 > usize::MAX,
    ensures
        dec_value(body) > usize::MAX,
{
    lemma_dec_value_nonneg(body.take(i));
    assert(body.take(i + 1).drop_last() =~= body.take(i));
    assert(body.take(i + 1).last() == body[i]);
    assert(dec_value(body.take(i + 1)) == value * 10 + d);
    assert(d >= 0);
    lemma_dec_value_prefix(body, i + 1);
}

} // verus!
