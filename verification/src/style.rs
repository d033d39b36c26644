//! Layout constants for the height estimator and scroll engine.
//!
//! Vertical distances are expressed in hundredths of a pixel (the
//! `_CENTI` constants) so that fractional text sizes and weights stay
//! exact; horizontal extents are whole pixels.

use vstd::prelude::*;

verus! {

/// Base text size: 19.2 px.
pub const BASE_TEXT_SIZE_CENTI: u64 = 1920;

/// Line height as a multiple of the text size: 1.5, in hundredths.
pub const LINE_HEIGHT_MULTIPLIER_CENTI: u64 = 150;

/// Extra buffer once added on top of plain line counting: 400 px.
pub const CONTENT_HEIGHT_BUFFER_CENTI: u64 = 40000;

/// Average character width as a fraction of the text size: 0.4, in
/// hundredths; used to estimate wrapping.
pub const CHAR_WIDTH_MULTIPLIER_CENTI: u64 = 40;

/// Safety margin kept reachable below the content: 120 px.
pub const BOTTOM_SCROLL_PADDING_CENTI: u64 = 12000;

/// Scale applied to the wrap-aware estimate: 1.02, in hundredths.
pub const CONTENT_HEIGHT_SCALE_CENTI: u64 = 102;

/// Spacing charged per block element: 4 px.
pub const BLOCK_ELEMENT_SPACING_CENTI: u64 = 400;

/// Viewport height assumed when the window size is unknown: 800 px.
pub const DEFAULT_VIEWPORT_HEIGHT_PX: u64 = 800;

/// Width of the table-of-contents sidebar when shown: 300 px.
pub const TOC_WIDTH_PX: u64 = 300;

/// Widest an inline image is drawn: 800 px.
pub const IMAGE_MAX_WIDTH_PX: u64 = 800;

/// Vertical margin around an image: 16 px.
pub const IMAGE_VERTICAL_PADDING_CENTI: u64 = 1600;

/// Height assumed for an image that has not loaded yet: 800 px, the
/// worst case of a square image at the maximum width.
pub const PLACEHOLDER_HEIGHT_CENTI: u64 = 80000;

/// Top and bottom padding of the content container: 32 px.
pub const CONTAINER_PADDING_CENTI: u64 = 3200;

/// Extra scroll room reserved per image that has not loaded: 500 px.
pub const UNLOADED_IMAGE_BUFFER_CENTI: u64 = 50000;

/// Horizontal margins taken off the viewport width for text: 64 px.
pub const HORIZONTAL_MARGIN_PX: u64 = 64;

/// Height of one table-of-contents entry: 30 px.
pub const TOC_ENTRY_HEIGHT_PX: u64 = 30;

} // verus!
