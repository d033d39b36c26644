//! Core engine of a markdown document viewer.
//!
//! The crate covers the document-height estimation and scroll engine of the
//! viewer together with the bookkeeping for asynchronously resolved images:
//!
//! * [`scroll`] owns the scroll offsets and their clamping rules;
//! * [`estimate`] walks the document text and produces the content-height
//!   estimates that bound scrolling, with [`style`] holding its layout
//!   constants;
//! * [`cache`] tracks, per resolved image key, whether its true display
//!   dimensions are known yet;
//! * [`fetch`] decides each step of the fetch-and-decode pipeline and
//!   [`decode`] normalizes the pixel buffers that come out of it;
//! * [`session`] ties document text, viewport, cache and scroll state
//!   together and exposes the navigation operations;
//! * [`search`], [`toc`], [`files`], [`theme`] and [`config`] hold the
//!   remaining document-side logic: text search, table-of-contents
//!   structure, path resolution and configuration values;
//! * [`text`] provides the character-level primitives the rest builds on.
//!
//! All vertical distances are handled in whole pixels or, inside the
//! estimator, hundredths of a pixel, so that every computation is exact.

pub mod cache;
pub mod config;
pub mod decode;
pub mod estimate;
pub mod fetch;
pub mod files;
pub mod scroll;
pub mod search;
pub mod session;
pub mod style;
pub mod text;
pub mod theme;
pub mod toc;

pub use cache::EntryState;
pub use cache::ImageCache;
pub use config::FileConfig;
pub use config::FileWatcherConfig;
pub use config::FileWatcherEvent;
pub use config::LoggingConfig;
pub use decode::DecodeError;
pub use decode::RasterImage;
pub use decode::rgba_to_bgra;
pub use fetch::png_fallback_url;
pub use files::ResolveError;
pub use files::is_supported_extension;
pub use files::resolve_image_path;
pub use files::resolve_markdown_file_path;
pub use scroll::ScrollState;
pub use search::MatchPosition;
pub use search::SearchState;
pub use session::FocusableElement;
pub use session::MarkdownViewer;
pub use theme::ThemeMode;
pub use toc::TableOfContents;
pub use toc::TocEntry;
