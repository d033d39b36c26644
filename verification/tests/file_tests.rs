use markdown_viewer::MarkdownViewer;
use markdown_viewer::is_supported_extension;
use markdown_viewer::resolve_image_path;
use markdown_viewer::resolve_markdown_file_path;

fn supported() -> Vec<String> {
    vec!["md".to_string(), "markdown".to_string(), "txt".to_string()]
}

#[test]
fn is_supported_extension_with_md() {
    let supported = supported();
    assert!(is_supported_extension("file.md", &supported));
}

#[test]
fn is_supported_extension_with_markdown() {
    let supported = supported();
    assert!(is_supported_extension("file.markdown", &supported));
}

#[test]
fn is_supported_extension_with_txt() {
    let supported = supported();
    assert!(is_supported_extension("notes.txt", &supported));
}

#[test]
fn is_supported_extension_case_insensitive() {
    let supported = vec!["md".to_string(), "markdown".to_string()];
    assert!(is_supported_extension("file.MD", &supported));
    assert!(is_supported_extension("file.Md", &supported));
    assert!(is_supported_extension("file.MARKDOWN", &supported));
}

#[test]
fn is_supported_extension_with_unsupported() {
    let supported = supported();
    assert!(!is_supported_extension("file.pdf", &supported));
    assert!(!is_supported_extension("file.docx", &supported));
    assert!(!is_supported_extension("file", &supported)); // No extension
}

#[test]
fn resolve_markdown_file_path_with_nonexistent_file() {
    let supported = supported();
    let result = resolve_markdown_file_path(Some("nonexistent_file.md"), &supported, false, false, false);
    assert!(result.is_err());
    assert!(result.unwrap_err().message().contains("File not found"));
}

#[test]
fn resolve_with_unsupported_extension() {
    let supported = supported();
    let result = resolve_markdown_file_path(Some("test.pdf"), &supported, true, false, false);
    assert!(result.is_err());
    let err_msg = result.unwrap_err().message();
    assert!(err_msg.contains("Unsupported file format"));
    assert!(err_msg.contains("md, markdown, txt"));
}

#[test]
fn resolve_with_markdown_extension() {
    let supported = supported();
    let result = resolve_markdown_file_path(Some("test.markdown"), &supported, true, false, false);
    assert!(result.is_ok());
    assert_eq!(result.unwrap(), "test.markdown");
}

#[test]
fn resolve_with_txt_extension() {
    let supported = supported();
    let result = resolve_markdown_file_path(Some("notes.txt"), &supported, true, false, false);
    assert!(result.is_ok());
    assert_eq!(result.unwrap(), "notes.txt");
}

#[test]
fn resolve_markdown_file_path_with_valid_file() {
    let supported = supported();
    let result = resolve_markdown_file_path(Some("test_file.md"), &supported, true, false, false);
    assert!(result.is_ok());
    assert_eq!(result.unwrap(), "test_file.md");
}

#[test]
fn resolve_markdown_file_path_with_no_path_and_readme_exists() {
    let supported = supported();
    let result = resolve_markdown_file_path(None, &supported, false, true, true);
    assert!(result.is_ok());
    assert_eq!(result.unwrap(), "README.md");
}

#[test]
fn resolve_markdown_file_path_with_no_path_and_todo_fallback() {
    let supported = supported();
    let result = resolve_markdown_file_path(None, &supported, false, false, true);
    assert!(result.is_ok());
    assert_eq!(result.unwrap(), "TODO.md");
}

#[test]
fn resolve_markdown_file_path_with_no_path_and_no_defaults() {
    let supported = supported();
    let result = resolve_markdown_file_path(None, &supported, false, false, false);
    assert!(result.is_err());
    assert!(
        result
            .unwrap_err()
            .message()
            .contains("Default files README.md and TODO.md not found")
    );
}

#[test]
fn resolve_image_path_with_url() {
    let result = resolve_image_path("https://example.com/image.png", "/docs/README.md");
    assert_eq!(result, "https://example.com/image.png");
}

#[test]
fn resolve_image_path_with_http_url() {
    let result = resolve_image_path("http://example.com/photo.jpg", "/docs/README.md");
    assert_eq!(result, "http://example.com/photo.jpg");
}

#[test]
fn resolve_image_path_with_absolute_path() {
    let result = resolve_image_path("/assets/icon.png", "/docs/README.md");
    assert_eq!(result, "/assets/icon.png");
}

#[test]
fn resolve_image_path_with_relative_path() {
    let result = resolve_image_path("./images/logo.png", "/docs/README.md");
    assert_eq!(result, "/docs/images/logo.png");
}

#[test]
fn resolve_image_path_with_parent_relative_path() {
    let result = resolve_image_path("../assets/icon.png", "/docs/sub/README.md");
    assert_eq!(result, "/docs/assets/icon.png");
}

#[test]
fn resolve_image_path_with_nested_relative_path() {
    let result = resolve_image_path("images/icons/logo.png", "/docs/README.md");
    assert_eq!(result, "/docs/images/icons/logo.png");
}

#[test]
fn resolve_image_path_with_no_parent_directory() {
    let result = resolve_image_path("image.png", "README.md");
    assert_eq!(result, "image.png");
}

#[test]
fn validate_line_number_logic() {
    // Test the line counting logic that validate_line_number uses
    let content_100_lines = (0..100)
        .map(|i| format!("Line {}\n", i))
        .collect::<String>();
    let total_lines = content_100_lines.lines().count();
    assert_eq!(total_lines, 100);

    // Test bounds checking logic
    assert!(1 <= total_lines);
    assert!(50 <= total_lines);
    assert!(100 <= total_lines);
    assert!(101 > total_lines);
}

#[test]
fn validate_line_number_against_session() {
    let content = "one\ntwo\nthree".to_string();
    let viewer = MarkdownViewer::new(
        content,
        "/tmp/doc.md".to_string(),
        Default::default(),
        markdown_viewer::TableOfContents::new(),
        800,
        600,
    );
    assert!(viewer.validate_line_number(0).is_err());
    assert!(viewer.validate_line_number(1).is_ok());
    assert!(viewer.validate_line_number(3).is_ok());
    let err = viewer.validate_line_number(4).unwrap_err();
    let msg = err.message();
    assert_eq!(msg, "Line number 4 exceeds total lines (3)");
}

#[test]
fn parse_line_number_with_valid_input() {
    assert_eq!(MarkdownViewer::parse_line_number("1"), Some(1));
    assert_eq!(MarkdownViewer::parse_line_number("42"), Some(42));
    assert_eq!(MarkdownViewer::parse_line_number("100"), Some(100));
    assert_eq!(MarkdownViewer::parse_line_number(" 42 "), Some(42)); // With whitespace
}

#[test]
fn parse_line_number_with_invalid_input() {
    assert_eq!(MarkdownViewer::parse_line_number(""), None);
    assert_eq!(MarkdownViewer::parse_line_number("abc"), None);
    assert_eq!(MarkdownViewer::parse_line_number("0"), None); // Line numbers start at 1
    assert_eq!(MarkdownViewer::parse_line_number("-5"), None); // Negative not allowed
    assert_eq!(MarkdownViewer::parse_line_number("1.5"), None); // Decimals not allowed
}
