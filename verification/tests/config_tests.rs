use markdown_viewer::config::is_valid_log_level;
use markdown_viewer::theme::rgba_bytes_from_hex;
use markdown_viewer::FileConfig;
use markdown_viewer::FileWatcherConfig;
use markdown_viewer::LoggingConfig;
use markdown_viewer::ThemeMode;

#[test]
fn default_file_config() {
    let config = FileConfig::default();
    assert_eq!(config.default_files, vec!["README.md", "TODO.md"]);
    assert_eq!(config.supported_extensions, vec!["md", "markdown", "txt"]);
}

#[test]
fn default_logging_config() {
    let config = LoggingConfig::default();
    assert_eq!(config.default_level, "info");
    assert!(!config.enable_file_logging);
}

#[test]
fn default_file_watcher_config() {
    let config = FileWatcherConfig::default();
    assert!(config.enabled);
    assert_eq!(config.debounce_ms, 100);
}

#[test]
fn log_level_names_are_checked() {
    assert!(is_valid_log_level("trace"));
    assert!(is_valid_log_level("debug"));
    assert!(is_valid_log_level("info"));
    assert!(is_valid_log_level("warn"));
    assert!(is_valid_log_level("error"));
    assert!(!is_valid_log_level("invalid"));
    assert!(!is_valid_log_level("INFO"));
    assert!(!is_valid_log_level(""));
}

#[test]
fn test_full_hex_with_hash() {
    // #11223344 -> r=17,g=34,b=51,a=68
    let (r, g, b, a) = rgba_bytes_from_hex("#11223344");
    assert_eq!(r, 17);
    assert_eq!(g, 34);
    assert_eq!(b, 51);
    assert_eq!(a, 68);
}

#[test]
fn test_six_digit_hex_no_alpha() {
    // FFa500 -> r=255,g=165,b=0, fully opaque
    let (r, g, b, a) = rgba_bytes_from_hex("FFa500");
    assert_eq!(r, 255);
    assert_eq!(g, 165);
    assert_eq!(b, 0);
    assert_eq!(a, 255);
}

#[test]
fn malformed_hex_degrades_to_opaque_black() {
    assert_eq!(rgba_bytes_from_hex(""), (0, 0, 0, 255));
    assert_eq!(rgba_bytes_from_hex("#12"), (0, 0, 0, 255));
    assert_eq!(rgba_bytes_from_hex("zzzzzz"), (0, 0, 0, 255));
}

#[test]
fn theme_mode_names() {
    assert_eq!(ThemeMode::Light.as_str(), "light");
    assert_eq!(ThemeMode::Dark.as_str(), "dark");
    assert_eq!(ThemeMode::Light.syntect_theme(), "base16-ocean.light");
    assert_eq!(ThemeMode::Dark.syntect_theme(), "Solarized (dark)");
    assert_eq!(ThemeMode::Light.toggle(), ThemeMode::Dark);
    assert_eq!(ThemeMode::Dark.toggle(), ThemeMode::Light);
    assert_eq!(ThemeMode::default(), ThemeMode::Light);
}
