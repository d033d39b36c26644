//! Wrap-aware document height estimation.
//!
//! The estimator makes a single forward pass over the document's lines
//! without running a real layout. Each line is classified by its trimmed
//! prefix (fenced code, heading, blockquote, table row, list, blank,
//! normal text), charged a per-class weight of the average line height,
//! and — outside code fences — scanned for image references, which add
//! either their cached display height or a fixed placeholder. A second,
//! deliberately cruder pass (the "legacy" estimate) counts line weights
//! only, ignoring wrapping, plus every loaded image; keeping both lets
//! the caller take the maximum of two estimates that err in opposite
//! directions.
//!
//! All heights are hundredths of a pixel. Arithmetic saturates at the
//! top of the `u64` range instead of overflowing, so the estimator never
//! fails, whatever the document.

use vstd::prelude::*;
use crate::cache::EntryState;
use crate::cache::ImageCache;
use crate::cache::loaded_height;
use crate::files::resolve_image_chars;
use crate::files::resolve_image_spec;
use crate::style::BASE_TEXT_SIZE_CENTI;
use crate::style::CHAR_WIDTH_MULTIPLIER_CENTI;
use crate::style::HORIZONTAL_MARGIN_PX;
use crate::style::IMAGE_VERTICAL_PADDING_CENTI;
use crate::style::LINE_HEIGHT_MULTIPLIER_CENTI;
use crate::style::BLOCK_ELEMENT_SPACING_CENTI;
use crate::style::BOTTOM_SCROLL_PADDING_CENTI;
use crate::style::CONTAINER_PADDING_CENTI;
use crate::style::CONTENT_HEIGHT_SCALE_CENTI;
use crate::style::PLACEHOLDER_HEIGHT_CENTI;
use crate::style::UNLOADED_IMAGE_BUFFER_CENTI;
use crate::style::TOC_WIDTH_PX;
use crate::text::chars_eq;
use crate::text::count_char;
use crate::text::count_char_exec;
use crate::text::is_prefix_of;
use crate::text::is_space;
use crate::text::is_space_exec;
use crate::text::lines_of;
use crate::text::split_lines;
use crate::text::starts_with;
use crate::text::str_chars;
use crate::text::subrange_chars;
use crate::text::trim_chars;
use crate::text::trim_spec;
use crate::text::trim_start_chars;
use crate::text::trim_start_spec;

verus! {

/// Sum capped at the top of the `u64` range.
pub open spec fn sadd(a: int, b: int) -> int {
    if a + b > u64::MAX {
        u64::MAX as int
    } else {
        a + b
    }
}

/// Product capped at the top of the `u64` range.
pub open spec fn smul(a: int, b: int) -> int {
    if a * b > u64::MAX {
        u64::MAX as int
    } else {
        a * b
    }
}

/// Saturating addition.
pub fn cadd(a: u64, b: u64) -> (r: u64)
    ensures
        r == sadd(a as int, b as int),
{
    a.saturating_add(b)
}

/// Saturating multiplication.
pub fn cmul(a: u64, b: u64) -> (r: u64)
    ensures
        r == smul(a as int, b as int),
{
    match a.checked_mul(b) {
        Some(v) => v,
        None => u64::MAX,
    }
}

/// The injected layout parameters the estimator needs: the base text
/// size and the line-height multiplier, both in hundredths.
#[derive(Clone, Copy, Debug, PartialEq, Eq, Structural)]
pub struct LayoutConfig {
    pub base_text_size_centi: u64,
    pub line_height_mult_centi: u64,
}

impl Default for LayoutConfig {
    fn default() -> (c: Self)
        ensures
            c.base_text_size_centi == BASE_TEXT_SIZE_CENTI,
            c.line_height_mult_centi == LINE_HEIGHT_MULTIPLIER_CENTI,
    {
        LayoutConfig {
            base_text_size_centi: BASE_TEXT_SIZE_CENTI,
            line_height_mult_centi: LINE_HEIGHT_MULTIPLIER_CENTI,
        }
    }
}

/// The average line height: text size times multiplier.
pub open spec fn avg_line_height(cfg: LayoutConfig) -> int {
    smul(cfg.base_text_size_centi as int, cfg.line_height_mult_centi as int) / 100
}

/// How many characters fit on one line: the viewport width minus the
/// horizontal margins (and the sidebar when shown) divided by the
/// average character width, but never fewer than 20.
pub open spec fn chars_per_line(cfg: LayoutConfig, viewport_width: u32, show_toc: bool) -> int {
    let margin: int = if show_toc {
        HORIZONTAL_MARGIN_PX + TOC_WIDTH_PX
    } else {
        HORIZONTAL_MARGIN_PX as int
    };
    let eff_px = if viewport_width as int > margin {
        viewport_width as int - margin
    } else {
        0
    };
    let cw = smul(cfg.base_text_size_centi as int, CHAR_WIDTH_MULTIPLIER_CENTI as int) / 100;
    let cw1 = if cw < 1 {
        1int
    } else {
        cw
    };
    let cpl = eff_px * 100 / cw1;
    if cpl < 20 {
        20int
    } else {
        cpl
    }
}

/// First occurrence of `pat` in `s` at or after `from`.
pub open spec fn first_occur(s: Seq<char>, pat: Seq<char>, from: int) -> Option<int>
    decreases s.len() + 1 - from,
{
    if from < 0 || from + pat.len() > s.len() {
        None
    } else if s.subrange(from, from + pat.len()) == pat {
        Some(from)
    } else {
        first_occur(s, pat, from + 1)
    }
}

/// Length of the run of non-blank characters starting the sequence.
pub open spec fn until_space(s: Seq<char>) -> int
    decreases s.len(),
{
    if s.len() == 0 || is_space(s[0]) {
        0
    } else {
        1 + until_space(s.drop_first())
    }
}

/// The first blank-separated token of a sequence.
pub open spec fn first_token(s: Seq<char>) -> Seq<char> {
    let t = trim_start_spec(s);
    t.take(until_space(t))
}

/// One step of the image scan: the next complete `![...](...)` pattern,
/// if the line holds one. Returns the URL token, and the line with the
/// whole pattern replaced by a single blank.
pub open spec fn scan_step(l: Seq<char>) -> Option<(Seq<char>, Seq<char>)> {
    match first_occur(l, "!["@, 0) {
        Some(s1) => match first_occur(l, "]("@, s1) {
            Some(ae) => match first_occur(l, ")"@, ae) {
                Some(ue) => Some(
                    (first_token(l.subrange(ae + 2, ue)), l.take(s1) + seq![' '] + l.subrange(
                        ue + 1,
                        l.len() as int,
                    )),
                ),
                None => None,
            },
            None => None,
        },
        None => None,
    }
}

/// All image URL tokens of a line, in order, and the line text that
/// remains once every complete image pattern is blanked out. Empty
/// URL tokens are blanked out but not collected.
pub open spec fn scan_images(l: Seq<char>) -> (Seq<Seq<char>>, Seq<char>)
    decreases l.len(),
{
    match scan_step(l) {
        Some((url, rest)) => if rest.len() < l.len() {
            let r = scan_images(rest);
            if url.len() > 0 {
                (seq![url] + r.0, r.1)
            } else {
                r
            }
        } else {
            (Seq::empty(), l)
        },
        None => (Seq::empty(), l),
    }
}

/// A heading line: the trimmed line starts with `#`.
pub open spec fn is_heading(t: Seq<char>) -> bool {
    t.len() > 0 && t[0] == '#'
}

/// A blockquote line: the trimmed line starts with `>`.
pub open spec fn is_quote(t: Seq<char>) -> bool {
    t.len() > 0 && t[0] == '>'
}

/// A table row: the trimmed line starts with `|`.
pub open spec fn is_table(t: Seq<char>) -> bool {
    t.len() > 0 && t[0] == '|'
}

/// A list line: a bullet marker, or a digit followed somewhere by `. `.
pub open spec fn is_list(t: Seq<char>) -> bool {
    t.len() > 0 && (t[0] == '-' || t[0] == '*' || t[0] == '+' || ('0' <= t[0] && t[0] <= '9'
        && first_occur(t, ". "@, 0) is Some))
}

/// A fence marker: the trimmed line starts with three backticks.
pub open spec fn is_fence(t: Seq<char>) -> bool {
    is_prefix_of("```"@, t)
}

/// The weight class of a line outside a fence, in hundredths: heading
/// 1.4, blockquote 1.1, table rows growing sub-linearly with their
/// column count, list and normal text 1.0, blank 0.25 (or nothing where
/// an image was the line's only content).
pub open spec fn line_weight(t: Seq<char>, rem: Seq<char>, found: bool) -> int {
    if is_heading(t) {
        140
    } else if is_quote(t) {
        110
    } else if is_table(t) {
        let pipes = if count_char(t, '|') < 2 {
            2int
        } else {
            count_char(t, '|')
        };
        sadd(100, smul(15, pipes - 1))
    } else if is_list(t) {
        100
    } else if trim_spec(rem).len() == 0 {
        if found {
            0
        } else {
            25
        }
    } else {
        100
    }
}

/// The wrapped-line count charged for a line: the remaining text length
/// divided by the characters per line, rounded up; a line whose only
/// content was images is free, and a blank line still counts once.
pub open spec fn visual_lines(rem: Seq<char>, cpl: int, found: bool) -> int {
    let tl = trim_spec(rem).len() as int;
    if tl > 0 {
        (tl + cpl - 1) / cpl
    } else if found {
        0
    } else {
        1
    }
}

/// The height an image reference adds: its cached display height, or
/// the placeholder height while it is unloaded or failed, plus the
/// vertical image padding either way.
pub open spec fn image_contrib(
    url: Seq<char>,
    doc: Seq<char>,
    cache: Seq<(Seq<char>, EntryState)>,
) -> int {
    match loaded_height(cache, resolve_image_spec(url, doc)) {
        Some(h) => sadd(smul(h as int, 100), IMAGE_VERTICAL_PADDING_CENTI as int),
        None => sadd(PLACEHOLDER_HEIGHT_CENTI as int, IMAGE_VERTICAL_PADDING_CENTI as int),
    }
}

/// A key added to the set of seen keys, once.
pub open spec fn insert_key(ks: Seq<Seq<char>>, k: Seq<char>) -> Seq<Seq<char>> {
    if ks.contains(k) {
        ks
    } else {
        ks.push(k)
    }
}

/// Fold a line's image URLs into the accumulated keys and height.
pub open spec fn fold_urls(
    ks: Seq<Seq<char>>,
    h: int,
    urls: Seq<Seq<char>>,
    doc: Seq<char>,
    cache: Seq<(Seq<char>, EntryState)>,
) -> (Seq<Seq<char>>, int)
    decreases urls.len(),
{
    if urls.len() == 0 {
        (ks, h)
    } else {
        fold_urls(
            insert_key(ks, resolve_image_spec(urls[0], doc)),
            sadd(h, image_contrib(urls[0], doc, cache)),
            urls.drop_first(),
            doc,
            cache,
        )
    }
}

/// The running state of the wrap-aware pass: whether the scan is inside
/// a code fence, whether the previous line was blank, the accumulated
/// height, the block-element count, and the image keys seen.
pub struct SmartState {
    pub in_fence: bool,
    pub prev_empty: bool,
    pub height: int,
    pub blocks: int,
    pub keys: Seq<Seq<char>>,
}

/// The state the pass starts from.
pub open spec fn smart_init() -> SmartState {
    SmartState { in_fence: false, prev_empty: true, height: 0, blocks: 0, keys: Seq::empty() }
}

/// One line of the wrap-aware pass.
pub open spec fn smart_step(
    st: SmartState,
    l: Seq<char>,
    cpl: int,
    avg: int,
    doc: Seq<char>,
    cache: Seq<(Seq<char>, EntryState)>,
) -> SmartState {
    let t = trim_start_spec(l);
    let code_h = smul(avg, 120) / 100;
    if is_fence(t) {
        SmartState {
            in_fence: !st.in_fence,
            prev_empty: st.prev_empty,
            height: sadd(st.height, code_h),
            blocks: if st.in_fence {
                sadd(st.blocks, 1)
            } else {
                st.blocks
            },
            keys: st.keys,
        }
    } else if st.in_fence {
        SmartState { height: sadd(st.height, code_h), ..st }
    } else {
        let sc = scan_images(t);
        let urls = sc.0;
        let rem = sc.1;
        let found = urls.len() > 0;
        let folded = fold_urls(st.keys, 0, urls, doc, cache);
        let img_blocks = if found {
            1int
        } else {
            0int
        };
        let struct_blocks = if is_table(t) || is_heading(t) {
            1int
        } else if t.len() > 0 && st.prev_empty && !is_list(t) {
            1int
        } else {
            0int
        };
        let text_h = smul(smul(visual_lines(rem, cpl, found), avg), line_weight(t, rem, found))
            / 100;
        SmartState {
            in_fence: st.in_fence,
            prev_empty: t.len() == 0,
            height: sadd(sadd(st.height, folded.1), text_h),
            blocks: sadd(sadd(st.blocks, img_blocks), struct_blocks),
            keys: folded.0,
        }
    }
}

/// The wrap-aware pass over the first `n` lines.
pub open spec fn smart_pass(
    lines: Seq<Seq<char>>,
    n: int,
    cpl: int,
    avg: int,
    doc: Seq<char>,
    cache: Seq<(Seq<char>, EntryState)>,
) -> SmartState
    decreases n,
{
    if n <= 0 {
        smart_init()
    } else {
        smart_step(smart_pass(lines, n - 1, cpl, avg, doc, cache), lines[n - 1], cpl, avg, doc, cache)
    }
}

/// One line of the crude line-count pass: heading 1.6, blockquote 1.15,
/// list 1.0, blank 0.25, normal 1.0, code lines 1.25 and the fence
/// markers themselves free.
pub open spec fn legacy_step(st: (bool, int), l: Seq<char>, avg: int) -> (bool, int) {
    let t = trim_start_spec(l);
    if is_fence(t) {
        (!st.0, st.1)
    } else if st.0 {
        (st.0, sadd(st.1, smul(avg, 125) / 100))
    } else {
        let w = if is_heading(t) {
            160int
        } else if is_quote(t) {
            115int
        } else if is_list(t) {
            100int
        } else if t.len() == 0 {
            25int
        } else {
            100int
        };
        (st.0, sadd(st.1, smul(avg, w) / 100))
    }
}

/// The crude pass over the first `n` lines.
pub open spec fn legacy_pass(lines: Seq<Seq<char>>, n: int, avg: int) -> (bool, int)
    decreases n,
{
    if n <= 0 {
        (false, 0)
    } else {
        legacy_step(legacy_pass(lines, n - 1, avg), lines[n - 1], avg)
    }
}

/// The summed display heights of every loaded cache entry, each with
/// the vertical image padding.
pub open spec fn cache_loaded_sum(cache: Seq<(Seq<char>, EntryState)>) -> int
    decreases cache.len(),
{
    if cache.len() == 0 {
        0
    } else {
        sadd(
            cache_loaded_sum(cache.drop_last()),
            match cache.last().1 {
                EntryState::Loaded { display_width, display_height } => sadd(
                    smul(display_height as int, 100),
                    IMAGE_VERTICAL_PADDING_CENTI as int,
                ),
                _ => 0,
            },
        )
    }
}

/// How many of the found keys are loaded in the cache.
pub open spec fn loaded_count(keys: Seq<Seq<char>>, cache: Seq<(Seq<char>, EntryState)>) -> int
    decreases keys.len(),
{
    if keys.len() == 0 {
        0
    } else {
        loaded_count(keys.drop_last(), cache) + if loaded_height(cache, keys.last()) is Some {
            1int
        } else {
            0int
        }
    }
}

/// What one estimator run reports: the wrap-aware height, the crude
/// line-count height (loaded images included), the block-element count,
/// and every resolved image key the pass saw, each once.
pub struct HeightEstimate {
    pub smart_height_centi: u64,
    pub legacy_height_centi: u64,
    pub block_count: u64,
    pub found_image_keys: Vec<Vec<char>>,
}

/// The line index an estimate stops before: the whole document, or the
/// requested line clipped to the document's length.
pub open spec fn stop_index(stop_at_line: Option<usize>, total: int) -> int {
    match stop_at_line {
        Some(n) => {
            if (n as int) < total {
                n as int
            } else {
                total
            }
        },
        None => total,
    }
}

/// Whether `ks` holds `k`.
fn keys_contain(ks: &Vec<Vec<char>>, k: &[char]) -> (r: bool)
    ensures
        r == ks@.map_values(|x: Vec<char>| x@).contains(k@),
{
    let ghost m = ks@.map_values(|x: Vec<char>| x@);
    let mut i: usize = 0;
    while i < ks.len()
        invariant
            i <= ks.len(),
            m == ks@.map_values(|x: Vec<char>| x@),
            forall|j: int| 0 <= j < i ==> m[j] != k@,
        decreases ks.len() - i,
    {
        if chars_eq(ks[i].as_slice(), k) {
            proof {
                assert(m[i as int] == k@);
            }
            return true;
        }
        i = i + 1;
    }
    proof {
        assert(forall|j: int| 0 <= j < m.len() ==> m[j] != k@);
    }
    false
}

/// Find the next complete image pattern of a line, executably.
fn scan_step_exec(l: &[char]) -> (r: Option<(Vec<char>, Vec<char>)>)
    ensures
        match r {
            Some((url, rest)) => scan_step(l@) == Some((url@, rest@)) && rest@.len() < l@.len(),
            None => scan_step(l@) is None,
        },
{
    let bang = str_chars("![");
    let close = str_chars("](");
    let paren = str_chars(")");
    match find_sub(l, bang.as_slice(), 0) {
        Some(s1) => match find_sub(l, close.as_slice(), s1) {
            Some(ae) => match find_sub(l, paren.as_slice(), ae) {
                Some(ue) => {
                    proof {
                        reveal_strlit("![");
                        reveal_strlit("](");
                        reveal_strlit(")");
                        lemma_first_occur_bounds(l@, "!["@, 0, s1 as int);
                        lemma_first_occur_bounds(l@, "]("@, s1 as int, ae as int);
                        lemma_first_occur_bounds(l@, ")"@, ae as int, ue as int);
                        assert(l@[s1 as int] == "!["@[0]);
                        assert(l@[ae as int] == "]("@[0]);
                        assert(l@[ae + 1] == "]("@[1]);
                        assert(l@[ue as int] == ")"@[0]);
                        assert(ae != s1);
                        assert(ue != ae && ue != ae + 1);
                        assert(s1 < ae && ae + 2 <= ue && ue < l@.len());
                    }
                    let n: usize = l.len();
                    let url_part = subrange_chars(l, ae + 2, ue);
                    let lead = trim_start_chars(url_part.as_slice());
                    let mut tok_end: usize = 0;
                    while tok_end < lead.len() && !is_space_exec(lead[tok_end])
                        invariant
                            tok_end <= lead.len(),
                            forall|j: int| 0 <= j < tok_end ==> !is_space(lead@[j]),
                        decreases lead.len() - tok_end,
                    {
                        tok_end = tok_end + 1;
                    }
                    proof {
                        lemma_until_space(lead@, tok_end as int);
                    }
                    let url = subrange_chars(lead.as_slice(), 0, tok_end);
                    let mut rest = subrange_chars(l, 0, s1);
                    rest.push(' ');
                    let tail = subrange_chars(l, ue + 1, n);
                    crate::text::extend_chars(&mut rest, tail.as_slice());
                    proof {
                        assert(url@ =~= first_token(l@.subrange(ae + 2, ue as int)));
                        assert(rest@ =~= l@.take(s1 as int) + seq![' '] + l@.subrange(
                            ue + 1,
                            l@.len() as int,
                        ));
                        assert(rest@.len() < l@.len());
                    }
                    Some((url, rest))
                },
                None => None,
            },
            None => None,
        },
        None => None,
    }
}

/// Scan a line for image references, executably.
fn scan_images_exec(l: &[char]) -> (r: (Vec<Vec<char>>, Vec<char>))
    ensures
        (r.0@.map_values(|u: Vec<char>| u@), r.1@) == scan_images(l@),
{
    let mut urls: Vec<Vec<char>> = Vec::new();
    let mut cur: Vec<char> = subrange_chars(l, 0, l.len());
    proof {
        assert(cur@ =~= l@);
    }
    loop
        invariant
            scan_images(l@).0 =~= urls@.map_values(|u: Vec<char>| u@) + scan_images(cur@).0,
            scan_images(l@).1 =~= scan_images(cur@).1,
        decreases cur@.len(),
    {
        match scan_step_exec(cur.as_slice()) {
            Some((url, rest)) => {
                let ghost urls0 = urls@.map_values(|u: Vec<char>| u@);
                if url.len() > 0 {
                    urls.push(url);
                    proof {
                        assert(urls@.map_values(|u: Vec<char>| u@) =~= urls0.push(
                            urls@[urls@.len() - 1]@,
                        ));
                        assert(urls0 + scan_images(cur@).0 =~= urls0.push(urls@[urls@.len() - 1]@)
                            + scan_images(rest@).0);
                    }
                } else {
                    proof {
                        assert(scan_images(cur@).0 =~= scan_images(rest@).0);
                    }
                }
                cur = rest;
            },
            None => {
                proof {
                    assert(scan_images(cur@).0 =~= Seq::<Seq<char>>::empty());
                    assert(urls@.map_values(|u: Vec<char>| u@) + Seq::<Seq<char>>::empty()
                        =~= urls@.map_values(|u: Vec<char>| u@));
                }
                return (urls, cur);
            },
        }
    }
}

/// Find `pat` in `s` at or after `from`, executably.
pub fn find_sub(s: &[char], pat: &[char], from: usize) -> (r: Option<usize>)
    ensures
        match r {
            Some(i) => first_occur(s@, pat@, from as int) == Some(i as int) && from <= i && i
                + pat@.len() <= s@.len(),
            None => first_occur(s@, pat@, from as int) is None,
        },
{
    let n = s.len();
    let plen = pat.len();
    if plen > n || from > n - plen {
        proof {
            lemma_first_occur_none_past(s@, pat@, from as int);
        }
        return None;
    }
    if plen == 0 {
        proof {
            assert(s@.subrange(from as int, from as int) =~= pat@);
        }
        return Some(from);
    }
    let mut i: usize = from;
    while i <= n - plen
        invariant
            from <= i,
            1 <= plen <= n,
            i <= n - plen + 1,
            n == s@.len(),
            plen == pat@.len(),
            first_occur(s@, pat@, from as int) == first_occur(s@, pat@, i as int),
        decreases n - i,
    {
        let cand = subrange_chars(s, i, i + plen);
        if chars_eq(cand.as_slice(), pat) {
            proof {
                assert(s@.subrange(i as int, i + plen) == pat@);
            }
            return Some(i);
        }
        proof {
            assert(s@.subrange(i as int, i + plen) != pat@);
        }
        i = i + 1;
    }
    proof {
        assert(first_occur(s@, pat@, i as int) is None);
    }
    None
}

/// `first_occur` only succeeds inside the bounds of the text.
pub proof fn lemma_first_occur_bounds(s: Seq<char>, pat: Seq<char>, from: int, i: int)
    requires
        first_occur(s, pat, from) == Some(i),
    ensures
        from <= i,
        i + pat.len() <= s.len(),
        s.subrange(i, i + pat.len()) == pat,
    decreases s.len() + 1 - from,
{
    if from < 0 || from + pat.len() > s.len() {
    } else if s.subrange(from, from + pat.len()) == pat {
    } else {
        lemma_first_occur_bounds(s, pat, from + 1, i);
    }
}

/// Past the end of the text nothing is found.
proof fn lemma_first_occur_none_past(s: Seq<char>, pat: Seq<char>, from: int)
    requires
        from + pat.len() > s.len(),
    ensures
        first_occur(s, pat, from) is None,
{
}

/// The first blank (or the end) pins down the token length.
proof fn lemma_until_space(s: Seq<char>, j: int)
    requires
        0 <= j <= s.len(),
        forall|k: int| 0 <= k < j ==> !is_space(s[k]),
        j == s.len() || is_space(s[j]),
    ensures
        until_space(s) == j,
    decreases s.len(),
{
    if j == 0 {
    } else {
        assert(!is_space(s[0]));
        assert forall|k: int| 0 <= k < j - 1 implies !is_space(s.drop_first()[k]) by {
            assert(s.drop_first()[k] == s[k + 1]);
        }
        if j - 1 < s.drop_first().len() {
            assert(s.drop_first()[j - 1] == s[j]);
        }
        lemma_until_space(s.drop_first(), j - 1);
    }
}


/// The executable accumulator of the wrap-aware pass.
pub struct SmartAcc {
    pub in_fence: bool,
    pub prev_empty: bool,
    pub height: u64,
    pub blocks: u64,
    pub keys: Vec<Vec<char>>,
}

impl SmartAcc {
    /// The abstract state this accumulator stands for.
    pub open spec fn view(self) -> SmartState {
        SmartState {
            in_fence: self.in_fence,
            prev_empty: self.prev_empty,
            height: self.height as int,
            blocks: self.blocks as int,
            keys: self.keys@.map_values(|k: Vec<char>| k@),
        }
    }
}

/// Rounding up when dividing never exceeds the dividend.
proof fn lemma_ceil_div_le(tl: int, cpl: int)
    requires
        tl >= 1,
        cpl >= 1,
    ensures
        1 <= (tl + cpl - 1) / cpl <= tl,
{
    assert(1 <= (tl + cpl - 1) / cpl <= tl) by (nonlinear_arith)
        requires
            tl >= 1,
            cpl >= 1,
    ;
}

/// Process one line of the wrap-aware pass.
fn smart_line(
    acc: &mut SmartAcc,
    line: &[char],
    cpl: u64,
    avg: u64,
    doc: &[char],
    cache: &ImageCache,
)
    requires
        cpl >= 1,
    ensures
        final(acc)@ == smart_step(old(acc)@, line@, cpl as int, avg as int, doc@, cache.view()),
{
    let t = trim_start_chars(line);
    let fence = str_chars("```");
    let code_h = cmul(avg, 120) / 100;
    if starts_with(t.as_slice(), fence.as_slice()) {
        if acc.in_fence {
            acc.blocks = cadd(acc.blocks, 1);
        }
        acc.in_fence = !acc.in_fence;
        acc.height = cadd(acc.height, code_h);
        return ;
    }
    if acc.in_fence {
        acc.height = cadd(acc.height, code_h);
        return ;
    }
    let scanned = scan_images_exec(t.as_slice());
    let urls = scanned.0;
    let rem = scanned.1;
    let found = urls.len() > 0;
    let ghost keys0 = acc.keys@.map_values(|k: Vec<char>| k@);
    let ghost urls_v = urls@.map_values(|u: Vec<char>| u@);
    let mut img_h: u64 = 0;
    let mut j: usize = 0;
    proof {
        assert(urls_v.skip(0) =~= urls_v);
    }
    while j < urls.len()
        invariant
            j <= urls.len(),
            urls_v == urls@.map_values(|u: Vec<char>| u@),
            acc.in_fence == old(acc).in_fence,
            acc.prev_empty == old(acc).prev_empty,
            acc.height == old(acc).height,
            acc.blocks == old(acc).blocks,
            fold_urls(keys0, 0, urls_v, doc@, cache.view()) == fold_urls(
                acc.keys@.map_values(|k: Vec<char>| k@),
                img_h as int,
                urls_v.skip(j as int),
                doc@,
                cache.view(),
            ),
        decreases urls.len() - j,
    {
        let ghost ks = acc.keys@.map_values(|k: Vec<char>| k@);
        let resolved = resolve_image_chars(urls[j].as_slice(), doc);
        let piece: u64 = match cache.get(resolved.as_slice()) {
            Some(EntryState::Loaded { display_width: _, display_height }) => cadd(
                cmul(display_height, 100),
                IMAGE_VERTICAL_PADDING_CENTI,
            ),
            _ => cadd(PLACEHOLDER_HEIGHT_CENTI, IMAGE_VERTICAL_PADDING_CENTI),
        };
        proof {
            assert(urls_v.skip(j as int)[0] == urls_v[j as int]);
            assert(piece as int == image_contrib(urls_v[j as int], doc@, cache.view()));
        }
        let already = keys_contain(&acc.keys, resolved.as_slice());
        if !already {
            acc.keys.push(resolved);
            proof {
                assert(acc.keys@.map_values(|k: Vec<char>| k@) =~= ks.push(
                    acc.keys@[acc.keys@.len() - 1]@,
                ));
            }
        }
        img_h = cadd(img_h, piece);
        proof {
            assert(acc.keys@.map_values(|k: Vec<char>| k@) =~= insert_key(
                ks,
                resolve_image_spec(urls_v[j as int], doc@),
            ));
            assert(urls_v.skip(j as int).drop_first() =~= urls_v.skip(j + 1));
        }
        j = j + 1;
    }
    proof {
        assert(urls_v.skip(urls.len() as int) =~= Seq::<Seq<char>>::empty());
        assert(fold_urls(keys0, 0, urls_v, doc@, cache.view()) == (
            acc.keys@.map_values(|k: Vec<char>| k@),
            img_h as int,
        ));
    }
    let is_heading_l = t.len() > 0 && t[0] == '#';
    let is_quote_l = t.len() > 0 && t[0] == '>';
    let is_table_l = t.len() > 0 && t[0] == '|';
    let dot_space = str_chars(". ");
    let is_list_l = t.len() > 0 && (t[0] == '-' || t[0] == '*' || t[0] == '+' || ('0' <= t[0]
        && t[0] <= '9' && find_sub(t.as_slice(), dot_space.as_slice(), 0).is_some()));
    let trimmed_rem = trim_chars(rem.as_slice());
    let tl: usize = trimmed_rem.len();
    let weight: u64 = if is_heading_l {
        140
    } else if is_quote_l {
        110
    } else if is_table_l {
        let p = count_char_exec(t.as_slice(), '|');
        let p2: u64 = if p < 2 {
            2
        } else {
            p as u64
        };
        cadd(100, cmul(15, p2 - 1))
    } else if is_list_l {
        100
    } else if tl == 0 {
        if found {
            0
        } else {
            25
        }
    } else {
        100
    };
    proof {
        assert(weight as int == line_weight(trim_start_spec(line@), scanned.1@, found));
    }
    let visual: u64 = if tl > 0 {
        proof {
            lemma_ceil_div_le(tl as int, cpl as int);
        }
        ((tl as u128 + cpl as u128 - 1) / cpl as u128) as u64
    } else if found {
        0
    } else {
        1
    };
    proof {
        assert(visual as int == visual_lines(scanned.1@, cpl as int, found));
    }
    let text_h: u64 = cmul(cmul(visual, avg), weight) / 100;
    acc.height = cadd(cadd(acc.height, img_h), text_h);
    let img_blocks: u64 = if found {
        1
    } else {
        0
    };
    let struct_blocks: u64 = if is_table_l || is_heading_l {
        1
    } else if t.len() > 0 && acc.prev_empty && !is_list_l {
        1
    } else {
        0
    };
    acc.blocks = cadd(cadd(acc.blocks, img_blocks), struct_blocks);
    acc.prev_empty = t.len() == 0;
}

/// Run the estimator over a document.
///
/// Walks the lines of `text` up to `stop_at_line` (or all of them) with
/// the wrap-aware pass and the whole document with the crude pass, and
/// reports both heights, the block count, and every resolved image key
/// seen, each once, in order of first appearance.
pub fn estimate(
    text: &[char],
    viewport_width: u32,
    stop_at_line: Option<usize>,
    show_toc: bool,
    doc_path: &[char],
    cfg: &LayoutConfig,
    cache: &ImageCache,
) -> (est: HeightEstimate)
    ensures
        ({
            let lines = lines_of(text@);
            let cpl = chars_per_line(*cfg, viewport_width, show_toc);
            let avg = avg_line_height(*cfg);
            let m = smart_pass(
                lines,
                stop_index(stop_at_line, lines.len() as int),
                cpl,
                avg,
                doc_path@,
                cache.view(),
            );
            &&& est.smart_height_centi == m.height
            &&& est.block_count == m.blocks
            &&& est.found_image_keys@.map_values(|k: Vec<char>| k@) == m.keys
            &&& est.legacy_height_centi == sadd(
                legacy_pass(lines, lines.len() as int, avg).1,
                cache_loaded_sum(cache.view()),
            )
        }),
{
    let ghost lines_spec = lines_of(text@);
    let lines = split_lines(text);
    let avg: u64 = cmul(cfg.base_text_size_centi, cfg.line_height_mult_centi) / 100;
    let margin: u64 = if show_toc {
        HORIZONTAL_MARGIN_PX + TOC_WIDTH_PX
    } else {
        HORIZONTAL_MARGIN_PX
    };
    let eff_px: u64 = if viewport_width as u64 > margin {
        viewport_width as u64 - margin
    } else {
        0
    };
    let cw: u64 = cmul(cfg.base_text_size_centi, CHAR_WIDTH_MULTIPLIER_CENTI) / 100;
    let cw1: u64 = if cw < 1 {
        1
    } else {
        cw
    };
    let cpl_raw: u64 = eff_px * 100 / cw1;
    let cpl: u64 = if cpl_raw < 20 {
        20
    } else {
        cpl_raw
    };
    proof {
        assert(avg as int == avg_line_height(*cfg));
        assert(cpl as int == chars_per_line(*cfg, viewport_width, show_toc));
    }
    let limit: usize = match stop_at_line {
        Some(n) => {
            if n < lines.len() {
                n
            } else {
                lines.len()
            }
        },
        None => lines.len(),
    };
    proof {
        assert(limit as int == stop_index(stop_at_line, lines_spec.len() as int));
    }
    let mut acc = SmartAcc {
        in_fence: false,
        prev_empty: true,
        height: 0,
        blocks: 0,
        keys: Vec::new(),
    };
    proof {
        assert(acc@.keys =~= smart_init().keys);
        assert(acc@ == smart_init());
    }
    let mut idx: usize = 0;
    while idx < limit
        invariant
            idx <= limit,
            limit <= lines.len(),
            cpl >= 20,
            lines_spec == lines@.map_values(|l: Vec<char>| l@),
            acc@ == smart_pass(
                lines_spec,
                idx as int,
                cpl as int,
                avg as int,
                doc_path@,
                cache.view(),
            ),
        decreases limit - idx,
    {
        proof {
            assert(lines_spec[idx as int] == lines@[idx as int]@);
        }
        smart_line(&mut acc, lines[idx].as_slice(), cpl, avg, doc_path, cache);
        idx = idx + 1;
    }
    let mut legacy_fence = false;
    let mut legacy_h: u64 = 0;
    let fence = str_chars("```");
    let dot_space = str_chars(". ");
    let mut idx2: usize = 0;
    while idx2 < lines.len()
        invariant
            idx2 <= lines.len(),
            lines_spec == lines@.map_values(|l: Vec<char>| l@),
            (legacy_fence, legacy_h as int) == legacy_pass(lines_spec, idx2 as int, avg as int),
            fence@ == "```"@,
            dot_space@ == ". "@,
        decreases lines.len() - idx2,
    {
        proof {
            assert(lines_spec[idx2 as int] == lines@[idx2 as int]@);
        }
        let t = trim_start_chars(lines[idx2].as_slice());
        if starts_with(t.as_slice(), fence.as_slice()) {
            legacy_fence = !legacy_fence;
        } else if legacy_fence {
            legacy_h = cadd(legacy_h, cmul(avg, 125) / 100);
        } else {
            let w: u64 = if t.len() > 0 && t[0] == '#' {
                160
            } else if t.len() > 0 && t[0] == '>' {
                115
            } else if t.len() > 0 && (t[0] == '-' || t[0] == '*' || t[0] == '+' || ('0' <= t[0]
                && t[0] <= '9' && find_sub(t.as_slice(), dot_space.as_slice(), 0).is_some())) {
                100
            } else if t.len() == 0 {
                25
            } else {
                100
            };
            legacy_h = cadd(legacy_h, cmul(avg, w) / 100);
        }
        idx2 = idx2 + 1;
    }
    let entries = cache.entries();
    let mut img_sum: u64 = 0;
    let mut e: usize = 0;
    while e < entries.len()
        invariant
            e <= entries.len(),
            crate::cache::entry_views(entries@) == cache.view(),
            img_sum as int == cache_loaded_sum(cache.view().take(e as int)),
        decreases entries.len() - e,
    {
        let piece: u64 = match entries[e].1 {
            EntryState::Loaded { display_width: _, display_height } => cadd(
                cmul(display_height, 100),
                IMAGE_VERTICAL_PADDING_CENTI,
            ),
            _ => 0,
        };
        proof {
            assert(cache.view().take(e + 1).drop_last() =~= cache.view().take(e as int));
            assert(cache.view().take(e + 1).last() == cache.view()[e as int]);
            assert(cache.view()[e as int].1 == entries@[e as int].1);
        }
        img_sum = cadd(img_sum, piece);
        e = e + 1;
    }
    proof {
        assert(cache.view().take(cache.view().len() as int) =~= cache.view());
    }
    HeightEstimate {
        smart_height_centi: acc.height,
        legacy_height_centi: cadd(legacy_h, img_sum),
        block_count: acc.blocks,
        found_image_keys: acc.keys,
    }
}


/// The scroll-bound content height, in hundredths of a pixel: the
/// larger of the scaled wrap-aware estimate (plus block spacing) and the
/// crude estimate, plus the container padding, a buffer per image still
/// unloaded, and the bottom safety margin. Taking the maximum of two
/// estimators biased in opposite directions keeps the bound from
/// undershooting.
pub open spec fn content_height_spec(
    smart: int,
    legacy: int,
    blocks: int,
    keys: Seq<Seq<char>>,
    cache: Seq<(Seq<char>, EntryState)>,
) -> int {
    let smart_total = sadd(
        smul(smart, CONTENT_HEIGHT_SCALE_CENTI as int) / 100,
        smul(blocks, BLOCK_ELEMENT_SPACING_CENTI as int),
    );
    let best = if smart_total > legacy {
        smart_total
    } else {
        legacy
    };
    let unloaded = keys.len() - loaded_count(keys, cache);
    sadd(
        sadd(
            sadd(best, CONTAINER_PADDING_CENTI as int),
            smul(unloaded, UNLOADED_IMAGE_BUFFER_CENTI as int),
        ),
        BOTTOM_SCROLL_PADDING_CENTI as int,
    )
}

/// Loaded keys are never more numerous than the keys themselves.
proof fn lemma_loaded_count_le(keys: Seq<Seq<char>>, cache: Seq<(Seq<char>, EntryState)>)
    ensures
        0 <= loaded_count(keys, cache) <= keys.len(),
    decreases keys.len(),
{
    if keys.len() > 0 {
        lemma_loaded_count_le(keys.drop_last(), cache);
    }
}

/// Combine one estimator run with the cache into the content height
/// that bounds scrolling.
pub fn content_height(est: &HeightEstimate, cache: &ImageCache) -> (h: u64)
    ensures
        h as int == content_height_spec(
            est.smart_height_centi as int,
            est.legacy_height_centi as int,
            est.block_count as int,
            est.found_image_keys@.map_values(|k: Vec<char>| k@),
            cache.view(),
        ),
{
    let ghost keys_v = est.found_image_keys@.map_values(|k: Vec<char>| k@);
    let smart_total = cadd(
        cmul(est.smart_height_centi, CONTENT_HEIGHT_SCALE_CENTI) / 100,
        cmul(est.block_count, BLOCK_ELEMENT_SPACING_CENTI),
    );
    let best = if smart_total > est.legacy_height_centi {
        smart_total
    } else {
        est.legacy_height_centi
    };
    let mut loaded: usize = 0;
    let mut i: usize = 0;
    while i < est.found_image_keys.len()
        invariant
            i <= est.found_image_keys.len(),
            keys_v == est.found_image_keys@.map_values(|k: Vec<char>| k@),
            loaded <= i,
            loaded as int == loaded_count(keys_v.take(i as int), cache.view()),
        decreases est.found_image_keys.len() - i,
    {
        let hit = match cache.get(est.found_image_keys[i].as_slice()) {
            Some(EntryState::Loaded { display_width: _, display_height: _ }) => true,
            _ => false,
        };
        proof {
            assert(keys_v.take(i + 1).drop_last() =~= keys_v.take(i as int));
            assert(keys_v.take(i + 1).last() == keys_v[i as int]);
        }
        if hit {
            loaded = loaded + 1;
        }
        i = i + 1;
    }
    proof {
        assert(keys_v.take(keys_v.len() as int) =~= keys_v);
        lemma_loaded_count_le(keys_v, cache.view());
    }
    let unloaded: u64 = (est.found_image_keys.len() - loaded) as u64;
    cadd(
        cadd(
            cadd(best, CONTAINER_PADDING_CENTI),
            cmul(unloaded, UNLOADED_IMAGE_BUFFER_CENTI),
        ),
        BOTTOM_SCROLL_PADDING_CENTI,
    )
}

/// Stopping the wrap-aware pass before the first line yields no height:
/// nothing has been scanned yet.
pub proof fn lemma_estimate_stops_at_zero(
    lines: Seq<Seq<char>>,
    cpl: int,
    avg: int,
    doc: Seq<char>,
    cache: Seq<(Seq<char>, EntryState)>,
)
    ensures
        smart_pass(lines, stop_index(Some(0usize), lines.len() as int), cpl, avg, doc, cache).height
            == 0,
        smart_pass(
            lines,
            stop_index(Some(0usize), lines.len() as int),
            cpl,
            avg,
            doc,
            cache,
        ).blocks == 0,
{
}

/// Stopping the wrap-aware pass at (or past) the last line yields
/// exactly the unbounded pass: the stop only clips, it never adds.
pub proof fn lemma_estimate_stop_at_end_is_full(
    lines: Seq<Seq<char>>,
    n: usize,
    cpl: int,
    avg: int,
    doc: Seq<char>,
    cache: Seq<(Seq<char>, EntryState)>,
)
    requires
        n as int >= lines.len(),
    ensures
        smart_pass(lines, stop_index(Some(n), lines.len() as int), cpl, avg, doc, cache)
            == smart_pass(lines, stop_index(None, lines.len() as int), cpl, avg, doc, cache),
{
}


/// Per-key loaded heights only improve between two caches: a key that
/// was loaded stays loaded at least as tall, and a key that was not
/// loaded either stays unloaded or comes in at or above the height the
/// placeholder stood for.
pub open spec fn heights_nondecreasing(
    c1: Seq<(Seq<char>, EntryState)>,
    c2: Seq<(Seq<char>, EntryState)>,
) -> bool {
    forall|k: Seq<char>|
        match (#[trigger] loaded_height(c1, k), #[trigger] loaded_height(c2, k)) {
            (Option::None, Option::None) => true,
            (Option::None, Option::Some(h2)) => h2 as int * 100 >= PLACEHOLDER_HEIGHT_CENTI as int,
            (Option::Some(h1), Option::Some(h2)) => h1 <= h2,
            (Option::Some(_), Option::None) => false,
        }
}

/// Under non-decreasing heights no image's contribution shrinks.
proof fn lemma_contrib_mono(
    url: Seq<char>,
    doc: Seq<char>,
    c1: Seq<(Seq<char>, EntryState)>,
    c2: Seq<(Seq<char>, EntryState)>,
)
    requires
        heights_nondecreasing(c1, c2),
    ensures
        image_contrib(url, doc, c1) <= image_contrib(url, doc, c2),
{
    let k = resolve_image_spec(url, doc);
    assert(match (loaded_height(c1, k), loaded_height(c2, k)) {
        (Option::None, Option::None) => true,
        (Option::None, Option::Some(h2)) => h2 as int * 100 >= PLACEHOLDER_HEIGHT_CENTI as int,
        (Option::Some(h1), Option::Some(h2)) => h1 <= h2,
        (Option::Some(_), Option::None) => false,
    });
}

/// Folding a line's images under non-decreasing heights keeps the keys
/// and never lowers the height.
proof fn lemma_fold_urls_mono(
    ks: Seq<Seq<char>>,
    h1: int,
    h2: int,
    urls: Seq<Seq<char>>,
    doc: Seq<char>,
    c1: Seq<(Seq<char>, EntryState)>,
    c2: Seq<(Seq<char>, EntryState)>,
)
    requires
        heights_nondecreasing(c1, c2),
        h1 <= h2,
    ensures
        fold_urls(ks, h1, urls, doc, c1).0 == fold_urls(ks, h2, urls, doc, c2).0,
        fold_urls(ks, h1, urls, doc, c1).1 <= fold_urls(ks, h2, urls, doc, c2).1,
    decreases urls.len(),
{
    if urls.len() > 0 {
        lemma_contrib_mono(urls[0], doc, c1, c2);
        lemma_fold_urls_mono(
            insert_key(ks, resolve_image_spec(urls[0], doc)),
            sadd(h1, image_contrib(urls[0], doc, c1)),
            sadd(h2, image_contrib(urls[0], doc, c2)),
            urls.drop_first(),
            doc,
            c1,
            c2,
        );
    }
}

/// Loading images never shrinks the wrap-aware estimate.
///
/// As long as no key's per-image height contribution goes down — in
/// particular, when images move from unloaded (counted at the
/// placeholder height) to loaded at or above it — the pass sees the
/// same keys, blocks and structure, and at least the height it saw
/// before. The full scroll bound can still legitimately shrink when a
/// placeholder overstated an image, which is why both directions are
/// exercised by tests rather than claimed here.
pub proof fn lemma_smart_pass_monotone(
    lines: Seq<Seq<char>>,
    n: int,
    cpl: int,
    avg: int,
    doc: Seq<char>,
    c1: Seq<(Seq<char>, EntryState)>,
    c2: Seq<(Seq<char>, EntryState)>,
)
    requires
        heights_nondecreasing(c1, c2),
    ensures
        smart_pass(lines, n, cpl, avg, doc, c1).in_fence == smart_pass(
            lines,
            n,
            cpl,
            avg,
            doc,
            c2,
        ).in_fence,
        smart_pass(lines, n, cpl, avg, doc, c1).prev_empty == smart_pass(
            lines,
            n,
            cpl,
            avg,
            doc,
            c2,
        ).prev_empty,
        smart_pass(lines, n, cpl, avg, doc, c1).blocks == smart_pass(
            lines,
            n,
            cpl,
            avg,
            doc,
            c2,
        ).blocks,
        smart_pass(lines, n, cpl, avg, doc, c1).keys == smart_pass(
            lines,
            n,
            cpl,
            avg,
            doc,
            c2,
        ).keys,
        smart_pass(lines, n, cpl, avg, doc, c1).height <= smart_pass(
            lines,
            n,
            cpl,
            avg,
            doc,
            c2,
        ).height,
    decreases n,
{
    if n > 0 {
        lemma_smart_pass_monotone(lines, n - 1, cpl, avg, doc, c1, c2);
        let s1 = smart_pass(lines, n - 1, cpl, avg, doc, c1);
        let s2 = smart_pass(lines, n - 1, cpl, avg, doc, c2);
        let l = lines[n - 1];
        let t = trim_start_spec(l);
        if is_fence(t) || s1.in_fence {
        } else {
            let sc = scan_images(t);
            lemma_fold_urls_mono(s1.keys, 0, 0, sc.0, doc, c1, c2);
        }
    }
}


/// A height value far enough below the saturation cap that every step
/// of the content formula computes exactly; any real document is many
/// orders of magnitude below this.
pub open spec fn far_from_cap(v: int) -> bool {
    0 <= v <= 0x10_0000_0000_0000
}

/// The scroll-bound content height never shrinks when one more found
/// image loads at least as tall as the accounting it replaces.
///
/// This is the growing direction of the bound-versus-image-size law:
/// if the wrap-aware estimate gained at least the buffer reserved per
/// unloaded image (pre-scale: the buffer scaled back by the content
/// scale, rounded up), the crude estimate gained at least the buffer
/// itself, and at most one more key counts as loaded, then losing that
/// key's buffer cannot pull the bound down. The hypotheses keep every
/// quantity far from the saturation cap, where the saturating
/// arithmetic flattens gains and the claim fails.
pub proof fn lemma_content_bound_grows(
    smart1: int,
    smart2: int,
    legacy1: int,
    legacy2: int,
    blocks: int,
    keys: Seq<Seq<char>>,
    c1: Seq<(Seq<char>, EntryState)>,
    c2: Seq<(Seq<char>, EntryState)>,
)
    requires
        far_from_cap(smart1) && far_from_cap(smart2),
        far_from_cap(legacy1) && far_from_cap(legacy2),
        far_from_cap(blocks),
        keys.len() <= 0x100_0000_0000,
        smart2 >= smart1 + 49022,
        legacy2 >= legacy1 + UNLOADED_IMAGE_BUFFER_CENTI,
        loaded_count(keys, c2) <= loaded_count(keys, c1) + 1,
    ensures
        content_height_spec(smart2, legacy2, blocks, keys, c2) >= content_height_spec(
            smart1,
            legacy1,
            blocks,
            keys,
            c1,
        ),
{
    lemma_loaded_count_le(keys, c1);
    lemma_loaded_count_le(keys, c2);
    let st1 = sadd(smul(smart1, 102) / 100, smul(blocks, 400));
    let st2 = sadd(smul(smart2, 102) / 100, smul(blocks, 400));
    assert(smul(smart1, 102) == smart1 * 102);
    assert(smul(smart2, 102) == smart2 * 102);
    assert(smul(blocks, 400) == blocks * 400);
    assert(smart2 * 102 >= smart1 * 102 + 5000244);
    assert(smart2 * 102 / 100 >= smart1 * 102 / 100 + 50000) by {
        vstd::arithmetic::div_mod::lemma_div_is_ordered(
            smart1 * 102 + 5000244,
            smart2 * 102,
            100,
        );
        vstd::arithmetic::div_mod::lemma_hoist_over_denominator(smart1 * 102, 50002, 100);
    }
    assert(st2 >= st1 + 50000);
    let best1 = if st1 > legacy1 {
        st1
    } else {
        legacy1
    };
    let best2 = if st2 > legacy2 {
        st2
    } else {
        legacy2
    };
    assert(best2 >= best1 + 50000);
    let u1 = keys.len() - loaded_count(keys, c1);
    let u2 = keys.len() - loaded_count(keys, c2);
    assert(u2 >= u1 - 1);
    assert(smul(u1, 50000) == u1 * 50000);
    assert(smul(u2, 50000) == u2 * 50000);
}

/// The scroll-bound content height never grows when one more found
/// image loads far smaller than the accounting it replaces.
///
/// This is the shrinking direction of the law: when the wrap-aware
/// estimate does not grow, the crude estimate gains at most `gain` (the
/// small image's height plus padding), `gain` is within the buffer
/// reserved per unloaded image, and at least one more key counts as
/// loaded, the freed buffer outweighs every gain and the bound can only
/// come down. The same saturation caps apply.
pub proof fn lemma_content_bound_shrinks(
    smart1: int,
    smart2: int,
    legacy1: int,
    legacy2: int,
    blocks: int,
    keys: Seq<Seq<char>>,
    c1: Seq<(Seq<char>, EntryState)>,
    c2: Seq<(Seq<char>, EntryState)>,
    gain: int,
)
    requires
        far_from_cap(smart1) && far_from_cap(smart2),
        far_from_cap(legacy1) && far_from_cap(legacy2),
        far_from_cap(blocks),
        keys.len() <= 0x100_0000_0000,
        smart2 <= smart1,
        0 <= gain <= UNLOADED_IMAGE_BUFFER_CENTI,
        legacy2 <= legacy1 + gain,
        loaded_count(keys, c2) >= loaded_count(keys, c1) + 1,
        loaded_count(keys, c2) <= keys.len(),
    ensures
        content_height_spec(smart2, legacy2, blocks, keys, c2) <= content_height_spec(
            smart1,
            legacy1,
            blocks,
            keys,
            c1,
        ),
{
    lemma_loaded_count_le(keys, c1);
    lemma_loaded_count_le(keys, c2);
    assert(smul(smart1, 102) == smart1 * 102);
    assert(smul(smart2, 102) == smart2 * 102);
    assert(smul(blocks, 400) == blocks * 400);
    assert(smart2 * 102 / 100 <= smart1 * 102 / 100) by {
        vstd::arithmetic::div_mod::lemma_div_is_ordered(smart2 * 102, smart1 * 102, 100);
    }
    let u1 = keys.len() - loaded_count(keys, c1);
    let u2 = keys.len() - loaded_count(keys, c2);
    assert(u2 <= u1 - 1);
    assert(smul(u1, 50000) == u1 * 50000);
    assert(smul(u2, 50000) == u2 * 50000);
}


/// A key is among a fold's keys exactly when it was already seen or
/// some URL of the line resolves to it.
proof fn lemma_fold_keys_member(
    ks: Seq<Seq<char>>,
    h: int,
    urls: Seq<Seq<char>>,
    doc: Seq<char>,
    cache: Seq<(Seq<char>, EntryState)>,
    k: Seq<char>,
)
    ensures
        fold_urls(ks, h, urls, doc, cache).0.contains(k) <==> (ks.contains(k) || exists|j: int|
            0 <= j < urls.len() && resolve_image_spec(#[trigger] urls[j], doc) == k),
    decreases urls.len(),
{
    if urls.len() == 0 {
    } else {
        let r0 = resolve_image_spec(urls[0], doc);
        let ks1 = insert_key(ks, r0);
        assert(ks1.contains(k) <==> (ks.contains(k) || r0 == k)) by {
            if !ks.contains(r0) {
                assert(ks1 == ks.push(r0));
                assert(forall|i: int| 0 <= i < ks.len() ==> ks.push(r0)[i] == ks[i]);
                assert(ks.push(r0)[ks.len() as int] == r0);
            }
        }
        lemma_fold_keys_member(
            ks1,
            sadd(h, image_contrib(urls[0], doc, cache)),
            urls.drop_first(),
            doc,
            cache,
            k,
        );
        assert forall|j: int|
            0 <= j < urls.drop_first().len() implies #[trigger] urls.drop_first()[j] == urls[j
            + 1] by {}
        if exists|j: int|
            0 <= j < urls.drop_first().len() && resolve_image_spec(
                #[trigger] urls.drop_first()[j],
                doc,
            ) == k {
            let j = choose|j: int|
                0 <= j < urls.drop_first().len() && resolve_image_spec(
                    #[trigger] urls.drop_first()[j],
                    doc,
                ) == k;
            assert(resolve_image_spec(urls[j + 1], doc) == k);
        }
        if exists|j: int|
            0 <= j < urls.len() && resolve_image_spec(#[trigger] urls[j], doc) == k {
            let j = choose|j: int|
                0 <= j < urls.len() && resolve_image_spec(#[trigger] urls[j], doc) == k;
            if j > 0 {
                assert(urls.drop_first()[j - 1] == urls[j]);
            }
        }
    }
}

/// Folding a line's images under a per-key height gain: the keys come
/// out the same, and once the changed key has been seen the height is
/// ahead by at least the gain.
proof fn lemma_fold_urls_quant_gain(
    ks: Seq<Seq<char>>,
    h1: int,
    h2: int,
    urls: Seq<Seq<char>>,
    doc: Seq<char>,
    c1: Seq<(Seq<char>, EntryState)>,
    c2: Seq<(Seq<char>, EntryState)>,
    k: Seq<char>,
    g: int,
    gained: bool,
)
    requires
        0 <= g,
        0 <= h1 <= u64::MAX,
        0 <= h2 <= u64::MAX,
        forall|u: Seq<char>|
            resolve_image_spec(u, doc) == k ==> #[trigger] image_contrib(u, doc, c2) >= sadd(
                image_contrib(u, doc, c1),
                g,
            ),
        forall|u: Seq<char>|
            resolve_image_spec(u, doc) != k ==> #[trigger] image_contrib(u, doc, c2)
                == image_contrib(u, doc, c1),
        forall|u: Seq<char>|
            0 <= #[trigger] image_contrib(u, doc, c1) <= u64::MAX && 0 <= image_contrib(
                u,
                doc,
                c2,
            ) <= u64::MAX,
        gained ==> h2 >= sadd(h1, g),
        !gained ==> h2 == h1,
    ensures
        fold_urls(ks, h2, urls, doc, c2).0 == fold_urls(ks, h1, urls, doc, c1).0,
        (gained || exists|j: int|
            0 <= j < urls.len() && resolve_image_spec(#[trigger] urls[j], doc) == k) ==> fold_urls(
            ks,
            h2,
            urls,
            doc,
            c2,
        ).1 >= sadd(fold_urls(ks, h1, urls, doc, c1).1, g),
        !(gained || exists|j: int|
            0 <= j < urls.len() && resolve_image_spec(#[trigger] urls[j], doc) == k) ==> fold_urls(
            ks,
            h2,
            urls,
            doc,
            c2,
        ).1 == fold_urls(ks, h1, urls, doc, c1).1,
        0 <= fold_urls(ks, h1, urls, doc, c1).1 <= u64::MAX,
        0 <= fold_urls(ks, h2, urls, doc, c2).1 <= u64::MAX,
    decreases urls.len(),
{
    if urls.len() == 0 {
    } else {
        let r0 = resolve_image_spec(urls[0], doc);
        let ca = image_contrib(urls[0], doc, c1);
        let cb = image_contrib(urls[0], doc, c2);
        let gained1 = gained || r0 == k;
        let h1n = sadd(h1, ca);
        let h2n = sadd(h2, cb);
        assert(gained1 ==> h2n >= sadd(h1n, g));
        assert(!gained1 ==> h2n == h1n);
        lemma_fold_urls_quant_gain(
            insert_key(ks, r0),
            h1n,
            h2n,
            urls.drop_first(),
            doc,
            c1,
            c2,
            k,
            g,
            gained1,
        );
        assert forall|j: int|
            0 <= j < urls.drop_first().len() implies #[trigger] urls.drop_first()[j] == urls[j
            + 1] by {}
        if exists|j: int|
            0 <= j < urls.len() && resolve_image_spec(#[trigger] urls[j], doc) == k {
            let j = choose|j: int|
                0 <= j < urls.len() && resolve_image_spec(#[trigger] urls[j], doc) == k;
            if j > 0 {
                assert(urls.drop_first()[j - 1] == urls[j]);
            }
        }
        if exists|j: int|
            0 <= j < urls.drop_first().len() && resolve_image_spec(
                #[trigger] urls.drop_first()[j],
                doc,
            ) == k {
            let j = choose|j: int|
                0 <= j < urls.drop_first().len() && resolve_image_spec(
                    #[trigger] urls.drop_first()[j],
                    doc,
                ) == k;
            assert(resolve_image_spec(urls[j + 1], doc) == k);
        }
    }
}


/// Loading one image taller than it was counted at lifts the wrap-aware
/// pass by at least the difference, provided the pass found its key.
///
/// `g` is the per-occurrence gain of the changed key `k` (for a key
/// moving from unloaded to loaded at height `h`, `h * 100 - 80000`
/// hundredths of a pixel); keys, blocks and the scan structure do not
/// move at all. Together with `lemma_content_bound_grows` and
/// `lemma_content_bound_shrinks` this gives both directions of the
/// bound-versus-image-size law over the content formula.
pub proof fn lemma_smart_pass_gain(
    lines: Seq<Seq<char>>,
    n: int,
    cpl: int,
    avg: int,
    doc: Seq<char>,
    c1: Seq<(Seq<char>, EntryState)>,
    c2: Seq<(Seq<char>, EntryState)>,
    k: Seq<char>,
    g: int,
)
    requires
        0 <= g,
        0 <= avg,
        1 <= cpl,
        forall|u: Seq<char>|
            resolve_image_spec(u, doc) == k ==> #[trigger] image_contrib(u, doc, c2) >= sadd(
                image_contrib(u, doc, c1),
                g,
            ),
        forall|u: Seq<char>|
            resolve_image_spec(u, doc) != k ==> #[trigger] image_contrib(u, doc, c2)
                == image_contrib(u, doc, c1),
        forall|u: Seq<char>|
            0 <= #[trigger] image_contrib(u, doc, c1) <= u64::MAX && 0 <= image_contrib(
                u,
                doc,
                c2,
            ) <= u64::MAX,
    ensures
        smart_pass(lines, n, cpl, avg, doc, c2).in_fence == smart_pass(
            lines,
            n,
            cpl,
            avg,
            doc,
            c1,
        ).in_fence,
        smart_pass(lines, n, cpl, avg, doc, c2).prev_empty == smart_pass(
            lines,
            n,
            cpl,
            avg,
            doc,
            c1,
        ).prev_empty,
        smart_pass(lines, n, cpl, avg, doc, c2).blocks == smart_pass(
            lines,
            n,
            cpl,
            avg,
            doc,
            c1,
        ).blocks,
        smart_pass(lines, n, cpl, avg, doc, c2).keys == smart_pass(
            lines,
            n,
            cpl,
            avg,
            doc,
            c1,
        ).keys,
        smart_pass(lines, n, cpl, avg, doc, c1).keys.contains(k) ==> smart_pass(
            lines,
            n,
            cpl,
            avg,
            doc,
            c2,
        ).height >= sadd(smart_pass(lines, n, cpl, avg, doc, c1).height, g),
        !smart_pass(lines, n, cpl, avg, doc, c1).keys.contains(k) ==> smart_pass(
            lines,
            n,
            cpl,
            avg,
            doc,
            c2,
        ).height == smart_pass(lines, n, cpl, avg, doc, c1).height,
        0 <= smart_pass(lines, n, cpl, avg, doc, c1).height <= u64::MAX,
        0 <= smart_pass(lines, n, cpl, avg, doc, c2).height <= u64::MAX,
    decreases n,
{
    if n <= 0 {
    } else {
        lemma_smart_pass_gain(lines, n - 1, cpl, avg, doc, c1, c2, k, g);
        let s1 = smart_pass(lines, n - 1, cpl, avg, doc, c1);
        let s2 = smart_pass(lines, n - 1, cpl, avg, doc, c2);
        let l = lines[n - 1];
        let t = trim_start_spec(l);
        let code_h = smul(avg, 120) / 100;
        assert(0 <= avg * 120);
        assert(0 <= code_h);
        if is_fence(t) || s1.in_fence {
        } else {
            let sc = scan_images(t);
            let urls = sc.0;
            let rem = sc.1;
            let found = urls.len() > 0;
            lemma_fold_urls_quant_gain(s1.keys, 0, 0, urls, doc, c1, c2, k, g, false);
            lemma_fold_keys_member(s1.keys, 0, urls, doc, c1, k);
            lemma_fold_keys_member(s1.keys, 0, urls, doc, c2, k);
            let f1 = fold_urls(s1.keys, 0, urls, doc, c1);
            let f2 = fold_urls(s1.keys, 0, urls, doc, c2);
            let w = line_weight(t, rem, found);
            let vl = visual_lines(rem, cpl, found);
            let text_h = smul(smul(vl, avg), w) / 100;
            assert(0 <= vl && 0 <= w);
            assert(0 <= vl * avg) by (nonlinear_arith)
                requires
                    0 <= vl,
                    0 <= avg,
            ;
            assert(0 <= smul(vl, avg));
            assert(0 <= smul(vl, avg) * w) by (nonlinear_arith)
                requires
                    0 <= smul(vl, avg),
                    0 <= w,
            ;
            assert(0 <= text_h);
            if smart_pass(lines, n, cpl, avg, doc, c1).keys.contains(k) {
                if s1.keys.contains(k) {
                    assert(s2.height >= sadd(s1.height, g));
                    assert(f2.1 >= f1.1) by {
                        if !(exists|j: int|
                            0 <= j < urls.len() && resolve_image_spec(
                                #[trigger] urls[j],
                                doc,
                            ) == k) {
                            assert(f2.1 == f1.1);
                        }
                    }
                    assert(sadd(sadd(s2.height, f2.1), text_h) >= sadd(
                        sadd(sadd(s1.height, f1.1), text_h),
                        g,
                    ));
                } else {
                    assert(s2.height == s1.height);
                    assert(exists|j: int|
                        0 <= j < urls.len() && resolve_image_spec(#[trigger] urls[j], doc) == k);
                    assert(f2.1 >= sadd(f1.1, g));
                    assert(sadd(sadd(s2.height, f2.1), text_h) >= sadd(
                        sadd(sadd(s1.height, f1.1), text_h),
                        g,
                    ));
                }
            } else {
                assert(!s1.keys.contains(k));
                assert(!(exists|j: int|
                    0 <= j < urls.len() && resolve_image_spec(#[trigger] urls[j], doc) == k));
                assert(s2.height == s1.height);
                assert(f2.1 == f1.1);
            }
        }
    }
}


/// One key moving from unloaded to loaded at display height `h`, with
/// every other key untouched, raises that key's per-occurrence
/// contribution by exactly `h * 100 - 80000` and leaves all others
/// alone.
proof fn lemma_key_load_gives_contrib_gain(
    doc: Seq<char>,
    c1: Seq<(Seq<char>, EntryState)>,
    c2: Seq<(Seq<char>, EntryState)>,
    k: Seq<char>,
    h: u64,
)
    requires
        loaded_height(c1, k) is None,
        loaded_height(c2, k) == Some(h),
        forall|k2: Seq<char>|
            k2 != k ==> #[trigger] loaded_height(c2, k2) == loaded_height(c1, k2),
        800 <= h <= 0x1_0000_0000,
    ensures
        forall|u: Seq<char>|
            resolve_image_spec(u, doc) == k ==> #[trigger] image_contrib(u, doc, c2) >= sadd(
                image_contrib(u, doc, c1),
                h as int * 100 - 80000,
            ),
        forall|u: Seq<char>|
            resolve_image_spec(u, doc) != k ==> #[trigger] image_contrib(u, doc, c2)
                == image_contrib(u, doc, c1),
        forall|u: Seq<char>|
            0 <= #[trigger] image_contrib(u, doc, c1) <= u64::MAX && 0 <= image_contrib(
                u,
                doc,
                c2,
            ) <= u64::MAX,
{
    assert forall|u: Seq<char>| resolve_image_spec(u, doc) == k implies #[trigger] image_contrib(
        u,
        doc,
        c2,
    ) >= sadd(image_contrib(u, doc, c1), h as int * 100 - 80000) by {
        assert(image_contrib(u, doc, c1) == 81600);
        assert(smul(h as int, 100) == h as int * 100);
        assert(image_contrib(u, doc, c2) == h as int * 100 + 1600);
    }
    assert forall|u: Seq<char>|
        0 <= #[trigger] image_contrib(u, doc, c1) <= u64::MAX && 0 <= image_contrib(
            u,
            doc,
            c2,
        ) <= u64::MAX by {
        let r = resolve_image_spec(u, doc);
        match loaded_height(c1, r) {
            Some(h1) => {
                assert(image_contrib(u, doc, c1) == sadd(smul(h1 as int, 100), 1600));
            },
            None => {},
        }
        match loaded_height(c2, r) {
            Some(h2) => {
                assert(image_contrib(u, doc, c2) == sadd(smul(h2 as int, 100), 1600));
            },
            None => {},
        }
    }
}

/// Loading an image at least as tall as the placeholder-plus-buffer
/// accounting it replaces never shrinks the content height.
///
/// This is the growing direction of the bound-versus-image-size law,
/// end to end over the content formula: the key moves from unloaded to
/// loaded at display height `h` with `h >= 1291` px (the placeholder
/// plus the per-image buffer scaled back by the content scale), the
/// pass found the key, the crude estimate gained at least the buffer,
/// and at most one more key counts as loaded. The caps keep every
/// quantity far from saturation, where the capped arithmetic flattens
/// gains and the inequality fails. The opposite direction — a far
/// smaller image shrinking the bound — is `lemma_content_bound_shrinks`
/// with the roles of the two caches swapped.
pub proof fn lemma_bound_grows_for_tall_image(
    lines: Seq<Seq<char>>,
    n: int,
    cpl: int,
    avg: int,
    doc: Seq<char>,
    c1: Seq<(Seq<char>, EntryState)>,
    c2: Seq<(Seq<char>, EntryState)>,
    k: Seq<char>,
    h: u64,
    legacy1: int,
    legacy2: int,
)
    requires
        0 <= avg,
        1 <= cpl,
        loaded_height(c1, k) is None,
        loaded_height(c2, k) == Some(h),
        forall|k2: Seq<char>|
            k2 != k ==> #[trigger] loaded_height(c2, k2) == loaded_height(c1, k2),
        1291 <= h <= 0x1_0000_0000,
        smart_pass(lines, n, cpl, avg, doc, c1).keys.contains(k),
        far_from_cap(smart_pass(lines, n, cpl, avg, doc, c2).height),
        far_from_cap(legacy1) && far_from_cap(legacy2),
        far_from_cap(smart_pass(lines, n, cpl, avg, doc, c1).blocks),
        smart_pass(lines, n, cpl, avg, doc, c1).keys.len() <= 0x100_0000_0000,
        legacy2 >= legacy1 + UNLOADED_IMAGE_BUFFER_CENTI,
        loaded_count(smart_pass(lines, n, cpl, avg, doc, c1).keys, c2) <= loaded_count(
            smart_pass(lines, n, cpl, avg, doc, c1).keys,
            c1,
        ) + 1,
    ensures
        content_height_spec(
            smart_pass(lines, n, cpl, avg, doc, c2).height,
            legacy2,
            smart_pass(lines, n, cpl, avg, doc, c2).blocks,
            smart_pass(lines, n, cpl, avg, doc, c2).keys,
            c2,
        ) >= content_height_spec(
            smart_pass(lines, n, cpl, avg, doc, c1).height,
            legacy1,
            smart_pass(lines, n, cpl, avg, doc, c1).blocks,
            smart_pass(lines, n, cpl, avg, doc, c1).keys,
            c1,
        ),
{
    let g = h as int * 100 - 80000;
    lemma_key_load_gives_contrib_gain(doc, c1, c2, k, h);
    lemma_smart_pass_gain(lines, n, cpl, avg, doc, c1, c2, k, g);
    let s1 = smart_pass(lines, n, cpl, avg, doc, c1);
    let s2 = smart_pass(lines, n, cpl, avg, doc, c2);
    assert(s2.height >= sadd(s1.height, g));
    assert(s2.height >= s1.height + 49022);
    lemma_content_bound_grows(s1.height, s2.height, legacy1, legacy2, s1.blocks, s1.keys, c1, c2);
}


/// Loading an image far smaller than the placeholder-plus-buffer
/// accounting it replaces never grows the content height.
///
/// The shrinking direction of the bound-versus-image-size law, end to
/// end: the key moves from unloaded to loaded at display height `h`
/// with `h <= 484` px (so its height plus padding stays within the
/// freed per-image buffer), the crude estimate gains at most that
/// height plus padding, and one more key counts as loaded. The
/// wrap-aware pass can only lose height — the loaded contribution is
/// below the placeholder — so the freed buffer outweighs every gain.
pub proof fn lemma_bound_shrinks_for_small_image(
    lines: Seq<Seq<char>>,
    n: int,
    cpl: int,
    avg: int,
    doc: Seq<char>,
    c1: Seq<(Seq<char>, EntryState)>,
    c2: Seq<(Seq<char>, EntryState)>,
    k: Seq<char>,
    h: u64,
    legacy1: int,
    legacy2: int,
)
    requires
        0 <= avg,
        1 <= cpl,
        loaded_height(c1, k) is None,
        loaded_height(c2, k) == Some(h),
        forall|k2: Seq<char>|
            k2 != k ==> #[trigger] loaded_height(c2, k2) == loaded_height(c1, k2),
        h <= 484,
        far_from_cap(smart_pass(lines, n, cpl, avg, doc, c1).height),
        far_from_cap(smart_pass(lines, n, cpl, avg, doc, c2).height),
        far_from_cap(legacy1) && far_from_cap(legacy2),
        far_from_cap(smart_pass(lines, n, cpl, avg, doc, c1).blocks),
        smart_pass(lines, n, cpl, avg, doc, c1).keys.len() <= 0x100_0000_0000,
        legacy2 <= legacy1 + h as int * 100 + IMAGE_VERTICAL_PADDING_CENTI,
        loaded_count(smart_pass(lines, n, cpl, avg, doc, c1).keys, c2) >= loaded_count(
            smart_pass(lines, n, cpl, avg, doc, c1).keys,
            c1,
        ) + 1,
        loaded_count(smart_pass(lines, n, cpl, avg, doc, c1).keys, c2) <= smart_pass(
            lines,
            n,
            cpl,
            avg,
            doc,
            c1,
        ).keys.len(),
    ensures
        content_height_spec(
            smart_pass(lines, n, cpl, avg, doc, c2).height,
            legacy2,
            smart_pass(lines, n, cpl, avg, doc, c2).blocks,
            smart_pass(lines, n, cpl, avg, doc, c2).keys,
            c2,
        ) <= content_height_spec(
            smart_pass(lines, n, cpl, avg, doc, c1).height,
            legacy1,
            smart_pass(lines, n, cpl, avg, doc, c1).blocks,
            smart_pass(lines, n, cpl, avg, doc, c1).keys,
            c1,
        ),
{
    assert forall|u: Seq<char>| resolve_image_spec(u, doc) == k implies #[trigger] image_contrib(
        u,
        doc,
        c1,
    ) >= sadd(image_contrib(u, doc, c2), 0) by {
        assert(image_contrib(u, doc, c1) == 81600);
        assert(smul(h as int, 100) == h as int * 100);
        assert(image_contrib(u, doc, c2) == h as int * 100 + 1600);
    }
    assert forall|u: Seq<char>|
        0 <= #[trigger] image_contrib(u, doc, c1) <= u64::MAX && 0 <= image_contrib(
            u,
            doc,
            c2,
        ) <= u64::MAX by {
        let r = resolve_image_spec(u, doc);
        match loaded_height(c1, r) {
            Some(h1) => {
                assert(image_contrib(u, doc, c1) == sadd(smul(h1 as int, 100), 1600));
            },
            None => {},
        }
        match loaded_height(c2, r) {
            Some(h2) => {
                assert(image_contrib(u, doc, c2) == sadd(smul(h2 as int, 100), 1600));
            },
            None => {},
        }
    }
    lemma_smart_pass_gain(lines, n, cpl, avg, doc, c2, c1, k, 0);
    let s1 = smart_pass(lines, n, cpl, avg, doc, c1);
    let s2 = smart_pass(lines, n, cpl, avg, doc, c2);
    assert(s2.height <= s1.height) by {
        if s2.keys.contains(k) {
            assert(s1.height >= sadd(s2.height, 0));
        } else {
            assert(s1.height == s2.height);
        }
    }
    lemma_content_bound_shrinks(
        s1.height,
        s2.height,
        legacy1,
        legacy2,
        s1.blocks,
        s1.keys,
        c1,
        c2,
        h as int * 100 + IMAGE_VERTICAL_PADDING_CENTI as int,
    );
}

} // verus!
