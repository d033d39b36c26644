use markdown_viewer::cache::ImageCache;
use markdown_viewer::search::push_search_history;
use markdown_viewer::estimate::content_height;
use markdown_viewer::estimate::estimate;
use markdown_viewer::estimate::LayoutConfig;
use markdown_viewer::style::BASE_TEXT_SIZE_CENTI;
use markdown_viewer::style::LINE_HEIGHT_MULTIPLIER_CENTI;
use markdown_viewer::MarkdownViewer;
use markdown_viewer::TableOfContents;
use markdown_viewer::TocEntry;

fn chars(s: &str) -> Vec<char> {
    s.chars().collect()
}

fn default_cfg() -> LayoutConfig {
    LayoutConfig {
        base_text_size_centi: BASE_TEXT_SIZE_CENTI,
        line_height_mult_centi: LINE_HEIGHT_MULTIPLIER_CENTI,
    }
}

#[test]
fn three_line_document_height_is_near_the_heading_weights() {
    // A heading, a blank separator and one paragraph land between two
    // and four average line heights.
    let text = chars("# Title\n\nBody text");
    let cache = ImageCache::new();
    let cfg = default_cfg();
    let est = estimate(&text, 800, None, false, &chars("/tmp/doc.md"), &cfg, &cache);
    let avg = BASE_TEXT_SIZE_CENTI * LINE_HEIGHT_MULTIPLIER_CENTI / 100;
    assert!(est.smart_height_centi > 2 * avg);
    assert!(est.smart_height_centi < 4 * avg);
    // The heading and the paragraph each open a block element.
    assert_eq!(est.block_count, 2);
}

#[test]
fn estimate_stopped_at_zero_scans_nothing() {
    let text = chars("# One\ntwo\nthree");
    let cache = ImageCache::new();
    let cfg = default_cfg();
    let est = estimate(&text, 800, Some(0), false, &chars("/d.md"), &cfg, &cache);
    assert_eq!(est.smart_height_centi, 0);
    assert_eq!(est.block_count, 0);
}

#[test]
fn estimate_stopped_at_the_end_equals_the_unbounded_pass() {
    let text = chars("# One\n\ntwo words here\n- a list\n```\ncode\n```");
    let cache = ImageCache::new();
    let cfg = default_cfg();
    let full = estimate(&text, 800, None, false, &chars("/d.md"), &cfg, &cache);
    let stopped = estimate(&text, 800, Some(7), false, &chars("/d.md"), &cfg, &cache);
    assert_eq!(full.smart_height_centi, stopped.smart_height_centi);
    assert_eq!(full.block_count, stopped.block_count);
    // A partial stop scans strictly less.
    let partial = estimate(&text, 800, Some(1), false, &chars("/d.md"), &cfg, &cache);
    assert!(partial.smart_height_centi < full.smart_height_centi);
}

#[test]
fn estimator_finds_each_image_key_once() {
    let text = chars("![a](pics/one.png) and ![b](http://x/two.png)\n![again](pics/one.png)\n");
    let cache = ImageCache::new();
    let cfg = default_cfg();
    let est = estimate(&text, 800, None, false, &chars("/docs/d.md"), &cfg, &cache);
    let keys: Vec<String> = est
        .found_image_keys
        .iter()
        .map(|k| k.iter().collect::<String>())
        .collect();
    assert_eq!(keys, vec!["/docs/pics/one.png".to_string(), "http://x/two.png".to_string()]);
}

#[test]
fn fenced_code_lines_are_weighted_as_code() {
    // Inside a fence every line counts the same, images included.
    let fenced = chars("```\n![not an image](x.png)\n```\n");
    let cache = ImageCache::new();
    let cfg = default_cfg();
    let est = estimate(&fenced, 800, None, false, &chars("/d.md"), &cfg, &cache);
    assert_eq!(est.found_image_keys.len(), 0);
    let avg = BASE_TEXT_SIZE_CENTI * LINE_HEIGHT_MULTIPLIER_CENTI / 100;
    // Three lines, each at the 1.2 code weight.
    assert_eq!(est.smart_height_centi, 3 * (avg * 120 / 100));
}

#[test]
fn loading_an_image_moves_the_bound_in_the_direction_of_its_size() {
    let text = chars("![big](http://x/i.png)\n");
    let doc = chars("/docs/d.md");
    let cfg = default_cfg();
    let key = chars("http://x/i.png");

    let mut cache = ImageCache::new();
    assert!(cache.ensure_loading(&key));
    let est = estimate(&text, 800, None, false, &doc, &cfg, &cache);
    let bound_placeholder = content_height(&est, &cache);

    // Loading an image taller than its placeholder grows the bound.
    cache.record_result(&key, Some((400, 2000)), 800);
    let est_tall = estimate(&text, 800, None, false, &doc, &cfg, &cache);
    let bound_tall = content_height(&est_tall, &cache);
    assert!(bound_tall > bound_placeholder);

    // Loading an image much smaller than its placeholder shrinks it.
    let mut cache_small = ImageCache::new();
    assert!(cache_small.ensure_loading(&key));
    cache_small.record_result(&key, Some((400, 100)), 800);
    let est_small = estimate(&text, 800, None, false, &doc, &cfg, &cache_small);
    let bound_small = content_height(&est_small, &cache_small);
    assert!(bound_small < bound_placeholder);
}

#[test]
fn ensure_loading_starts_a_fetch_exactly_once() {
    let mut cache = ImageCache::new();
    let key = chars("http://x/only.png");
    assert!(cache.ensure_loading(&key));
    // While loading, and after either terminal state, it never starts
    // again.
    assert!(!cache.ensure_loading(&key));
    cache.record_result(&key, Some((10, 10)), 800);
    assert!(!cache.ensure_loading(&key));
    cache.record_result(&key, None, 800);
    assert!(!cache.ensure_loading(&key));
    // Only a wholesale clear forgets the key.
    cache.clear();
    assert!(cache.ensure_loading(&key));
}

#[test]
fn record_result_caps_width_and_keeps_aspect_ratio() {
    let mut cache = ImageCache::new();
    let key = chars("wide.png");
    cache.ensure_loading(&key);
    cache.record_result(&key, Some((1600, 1000)), 800);
    match cache.get(&key) {
        Some(markdown_viewer::EntryState::Loaded { display_width, display_height }) => {
            assert_eq!(display_width, 800);
            assert_eq!(display_height, 500);
        },
        other => panic!("expected a loaded entry, got {:?}", other),
    }
}

#[test]
fn session_clamps_offsets_after_recompute() {
    let mut viewer = MarkdownViewer::new(
        (0..200).map(|i| format!("line {}\n", i)).collect::<String>(),
        "/tmp/doc.md".to_string(),
        default_cfg(),
        TableOfContents::new(),
        800,
        600,
    );
    assert!(viewer.scroll_state.max_scroll_y > 0);
    viewer.scroll_state.scroll_to_bottom();
    let bottom = viewer.scroll_state.scroll_y;
    assert_eq!(bottom, viewer.scroll_state.max_scroll_y);
    // Re-clamping after a recompute keeps the offsets inside the range.
    let _ = viewer.recompute_max_scroll();
    assert!(viewer.scroll_state.scroll_y <= viewer.scroll_state.max_scroll_y);
    assert!(viewer.scroll_state.target_scroll_y <= viewer.scroll_state.max_scroll_y);
}

#[test]
fn scroll_to_line_rejects_out_of_range_lines() {
    let mut viewer = MarkdownViewer::new(
        "a\nb\nc".to_string(),
        "/tmp/doc.md".to_string(),
        default_cfg(),
        TableOfContents::new(),
        800,
        600,
    );
    assert!(viewer.scroll_to_line(0).is_err());
    assert!(viewer.scroll_to_line(4).is_err());
    assert!(viewer.scroll_to_line(2).is_ok());
}

#[test]
fn test_find_current_section() {
    let mut toc = TableOfContents::new();
    toc.entries.push(TocEntry {
        text: "Section 1".to_string(),
        level: 2,
        line_number: 0,
    });
    toc.entries.push(TocEntry {
        text: "Section 2".to_string(),
        level: 2,
        line_number: 10,
    });
    toc.entries.push(TocEntry {
        text: "Section 3".to_string(),
        level: 2,
        line_number: 20,
    });

    // At line 2 (scroll_y = 40), adjusted = 140 (line 7) -> Section 1 (starts at 0)
    assert_eq!(toc.find_current_section(40, 20), Some(0));

    // At line 12 (scroll_y = 240), adjusted = 340 (line 17) -> Section 2 (starts at 10)
    assert_eq!(toc.find_current_section(240, 20), Some(1));

    // At line 22 (scroll_y = 440), adjusted = 540 (line 27) -> Section 3 (starts at 20)
    assert_eq!(toc.find_current_section(440, 20), Some(2));
}

#[test]
fn push_heading_filters_levels_and_rebases_lines() {
    let mut toc = TableOfContents::new();
    toc.push_heading("Ignored Title".to_string(), 1, 1);
    toc.push_heading("Kept".to_string(), 2, 3);
    toc.push_heading("Deep".to_string(), 5, 4);
    toc.push_heading("Also Kept".to_string(), 4, 10);
    assert_eq!(toc.entries.len(), 2);
    assert_eq!(toc.entries[0].text, "Kept");
    assert_eq!(toc.entries[0].line_number, 2);
    assert_eq!(toc.entries[1].level, 4);
    assert_eq!(toc.entries[1].line_number, 9);
}

/// Collect headings the way the host does: walk the markdown syntax
/// tree and hand each heading to the library.
fn toc_from_markdown(markdown: &str) -> TableOfContents {
    fn walk<'a>(
        node: &'a comrak::arena_tree::Node<'a, std::cell::RefCell<comrak::nodes::Ast>>,
        toc: &mut TableOfContents,
    ) {
        let ast = node.data.borrow();
        if let comrak::nodes::NodeValue::Heading(heading) = &ast.value {
            let mut text = String::new();
            for child in node.children() {
                if let comrak::nodes::NodeValue::Text(t) = &child.data.borrow().value {
                    text.push_str(t);
                }
            }
            toc.push_heading(text, heading.level, ast.sourcepos.start.line);
        }
        drop(ast);
        for child in node.children() {
            walk(child, toc);
        }
    }
    let arena = comrak::Arena::new();
    let options = comrak::Options::default();
    let root = comrak::parse_document(&arena, markdown, &options);
    let mut toc = TableOfContents::new();
    walk(root, &mut toc);
    toc
}

#[test]
fn test_empty_document() {
    let toc = toc_from_markdown("");
    assert_eq!(toc.entries.len(), 0);
}

#[test]
fn test_simple_toc() {
    let toc = toc_from_markdown("## Hello World");
    assert_eq!(toc.entries.len(), 1);
    assert_eq!(toc.entries[0].text, "Hello World");
    assert_eq!(toc.entries[0].level, 2);
    // Line 0 (1-based line 1)
    assert_eq!(toc.entries[0].line_number, 0);
}

#[test]
fn test_multiple_headings() {
    let markdown = "\n# Title (Ignored)\n## Subtitle\n### Section\n## Another Subtitle\n##### Too Deep (Ignored)\n";
    let toc = toc_from_markdown(markdown);
    assert_eq!(toc.entries.len(), 3);
    assert_eq!(toc.entries[0].level, 2);
    assert_eq!(toc.entries[1].level, 3);
    assert_eq!(toc.entries[2].level, 2);
}

#[test]
fn toggling_a_bookmark_adds_then_removes_it() {
    let mut viewer = MarkdownViewer::new(
        "a\nb\nc\nd".to_string(),
        "/tmp/doc.md".to_string(),
        default_cfg(),
        TableOfContents::new(),
        800,
        600,
    );
    // At the top of the document the current line is the first one.
    viewer.toggle_bookmark();
    assert_eq!(viewer.bookmarks, vec![1]);
    viewer.bookmarks = vec![2, 5];
    viewer.toggle_bookmark();
    assert_eq!(viewer.bookmarks, vec![1, 2, 5]);
    viewer.toggle_bookmark();
    assert_eq!(viewer.bookmarks, vec![2, 5]);
}

#[test]
fn search_history_drops_repeats_and_oldest_entries() {
    let mut history: Vec<String> = Vec::new();
    push_search_history(&mut history, "alpha", 3);
    push_search_history(&mut history, "alpha", 3);
    assert_eq!(history, vec!["alpha"]);
    push_search_history(&mut history, "beta", 3);
    push_search_history(&mut history, "gamma", 3);
    push_search_history(&mut history, "delta", 3);
    assert_eq!(history, vec!["beta", "gamma", "delta"]);
}
