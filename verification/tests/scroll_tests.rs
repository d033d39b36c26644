use markdown_viewer::ScrollState;
use markdown_viewer::style::BASE_TEXT_SIZE_CENTI;
use markdown_viewer::style::CONTENT_HEIGHT_BUFFER_CENTI;
use markdown_viewer::style::DEFAULT_VIEWPORT_HEIGHT_PX;
use markdown_viewer::style::LINE_HEIGHT_MULTIPLIER_CENTI;

#[test]
fn scroll_state_initializes_correctly() {
    let state = ScrollState::new();
    assert_eq!(state.scroll_y, 0);
    assert_eq!(state.max_scroll_y, 0);
}

#[test]
fn scroll_up_prevents_negative_scroll() {
    let mut state = ScrollState::new();
    state.scroll_up(100);
    assert_eq!(state.scroll_y, 0);
}

#[test]
fn scroll_down_respects_max_scroll() {
    let mut state = ScrollState::new();
    state.set_max_scroll(1000, 500);
    state.scroll_down(1000);
    assert_eq!(state.scroll_y, state.max_scroll_y);
}

#[test]
fn scroll_bounds_are_enforced() {
    let mut state = ScrollState::new();
    state.set_max_scroll(1000, 500);

    // Try to scroll beyond bounds
    state.scroll_down(2000);
    assert!(state.scroll_y <= state.max_scroll_y);

    state.scroll_to_top();
    state.scroll_up(100);
    assert!(state.scroll_y == 0);
}

#[test]
fn page_down_scrolls_by_80_percent_of_page_height() {
    let mut state = ScrollState::new();
    state.set_max_scroll(2000, 800);
    state.page_down(800);
    assert_eq!(state.scroll_y, 640); // 80% of 800
}

#[test]
fn page_up_scrolls_by_80_percent_of_page_height() {
    let mut state = ScrollState::new();
    state.set_max_scroll(2000, 800);
    state.scroll_y = 1000;
    state.page_up(800);
    assert_eq!(state.scroll_y, 360); // 1000 - 640
}

#[test]
fn scroll_to_top_works() {
    let mut state = ScrollState::new();
    state.scroll_y = 500;
    state.scroll_to_top();
    assert_eq!(state.scroll_y, 0);
}

#[test]
fn scroll_to_bottom_works() {
    let mut state = ScrollState::new();
    state.set_max_scroll(1000, 500);
    state.scroll_to_bottom();
    assert_eq!(state.scroll_y, 500);
}

#[test]
fn content_height_estimation_constants_work() {
    // Test that the constants produce reasonable values; heights are in
    // hundredths of a pixel.
    let line_count: u64 = 100;
    let avg_line_height = BASE_TEXT_SIZE_CENTI * LINE_HEIGHT_MULTIPLIER_CENTI / 100;
    let estimated_content_height = line_count * avg_line_height;
    let total_content_height = estimated_content_height + CONTENT_HEIGHT_BUFFER_CENTI;

    // Verify line height is reasonable (should be > base text size)
    assert!(avg_line_height > BASE_TEXT_SIZE_CENTI);
    assert_eq!(avg_line_height, 1920 * 150 / 100); // 28.8 pixels

    // Verify buffer is added correctly
    assert_eq!(
        total_content_height,
        estimated_content_height + CONTENT_HEIGHT_BUFFER_CENTI
    );

    // Verify default viewport height is reasonable
    assert!(DEFAULT_VIEWPORT_HEIGHT_PX > 0);
    assert_eq!(DEFAULT_VIEWPORT_HEIGHT_PX, 800);
}

#[test]
fn scroll_to_line_bounds_checking() {
    // Test that smooth_scroll_to respects bounds (used by scroll_to_line)
    let mut state = ScrollState::new();
    state.set_max_scroll(2000, 500);

    // Test that scrolling beyond max scroll is clamped
    state.smooth_scroll_to(3000);
    assert_eq!(state.target_scroll_y, state.max_scroll_y);

    // Test that scrolling to the top edge is kept exact
    state.smooth_scroll_to(0);
    assert_eq!(state.target_scroll_y, 0);
}

#[test]
fn scroll_down_clamps_exactly_to_max_offset() {
    // Scrolling down by more than the remaining room lands exactly on
    // the bound; scrolling up past the top lands exactly on zero.
    let mut state = ScrollState::new();
    state.set_max_scroll(1500, 500);
    assert_eq!(state.max_scroll_y, 1000);
    state.scroll_down(250);
    assert_eq!(state.scroll_y, 250);
    state.scroll_down(10_000);
    assert_eq!(state.scroll_y, 1000);
    state.scroll_up(99_999);
    assert_eq!(state.scroll_y, 0);
}

#[test]
fn recompute_bounds_keeps_offsets_inside_range() {
    let mut state = ScrollState::new();
    state.set_max_scroll(5000, 500);
    state.scroll_down(4000);
    state.smooth_scroll_to(4100);
    // The document shrinks: both offsets are re-clamped, not reset.
    state.set_max_scroll(1200, 500);
    assert_eq!(state.max_scroll_y, 700);
    assert_eq!(state.scroll_y, 700);
    assert_eq!(state.target_scroll_y, 700);
    // The document grows again: offsets stay where they were.
    state.set_max_scroll(5000, 500);
    assert_eq!(state.scroll_y, 700);
    assert_eq!(state.target_scroll_y, 700);
}

#[test]
fn smooth_scroll_moves_toward_target_and_snaps() {
    let mut state = ScrollState::new();
    state.set_max_scroll(2000, 500);
    state.smooth_scroll_to(1000);
    // A 50 ms tick moves half the distance.
    state.update_smooth_scroll(50);
    assert_eq!(state.scroll_y, 500);
    // A full tick (>= 100 ms) covers the whole remaining distance.
    state.update_smooth_scroll(100);
    assert_eq!(state.scroll_y, 1000);
    // At the target it stays put.
    state.update_smooth_scroll(16);
    assert_eq!(state.scroll_y, 1000);
}

#[test]
fn drag_converts_pointer_delta_to_scroll() {
    let mut state = ScrollState::new();
    state.set_max_scroll(1500, 500);
    state.start_drag(100);
    assert!(state.is_dragging);
    // Dragging the pointer down half a viewport moves the target by
    // half the scroll bound.
    state.update_drag(350, 500);
    assert_eq!(state.target_scroll_y, 500);
    // Dragging above the anchor clamps at the top.
    state.update_drag(0, 500);
    assert_eq!(state.target_scroll_y, 0);
    state.stop_drag();
    assert!(!state.is_dragging);
}
