use traceview::views::layout::base_layout;
use traceview::{minimal_css, sse_script, theme_script, Markup};

#[test]
fn test_base_layout_renders_valid_html() {
    let content = Markup::pre_escaped("<p>Test content</p>".to_string());
    let result = base_layout("Test Page", content);
    let html_str = result.into_string();

    assert!(html_str.contains("<!DOCTYPE html>"));
    assert!(html_str.contains("<html lang=\"en\" data-theme=\"light\">"));
    assert!(html_str.contains("<title>Test Page - Traceview</title>"));
    assert!(html_str.contains("Test content"));
}

#[test]
fn test_base_layout_includes_header() {
    let content = Markup::empty();
    let result = base_layout("Home", content);
    let html_str = result.into_string();

    // Pico.css uses <nav> for header navigation
    assert!(html_str.contains("<nav"));
    assert!(html_str.contains("Traceview"));
    assert!(html_str.contains("href=\"/\""));
}

#[test]
fn test_base_layout_includes_sse_script() {
    let content = Markup::empty();
    let result = base_layout("Test", content);
    let html_str = result.into_string();

    assert!(html_str.contains("<script>"));
    assert!(html_str.contains("EventSource"));
}

#[test]
fn test_base_layout_includes_styles() {
    let content = Markup::empty();
    let result = base_layout("Test", content);
    let html_str = result.into_string();

    // We use Pico.css from CDN plus minimal custom styles
    assert!(html_str.contains("pico.min.css"));
    assert!(html_str.contains("<style>"));
    assert!(html_str.contains(".span"));
}

#[test]
fn test_base_layout_escapes_title() {
    let content = Markup::empty();
    let result = base_layout("<script>alert('xss')</script>", content);
    let html_str = result.into_string();

    // The title should be escaped
    assert!(!html_str.contains("<script>alert"));
    assert!(html_str.contains("&lt;script&gt;"));
}

#[test]
fn test_layout_includes_clipboard_script() {
    let content = Markup::empty();
    let result = base_layout("Test", content);
    let html_str = result.into_string();

    // Verify clipboard functionality is included
    assert!(html_str.contains("copy-btn"));
    assert!(html_str.contains("navigator.clipboard.writeText"));
    assert!(html_str.contains("copyTarget"));
}

#[test]
fn test_layout_includes_filter_script() {
    let content = Markup::empty();
    let result = base_layout("Test", content);
    let html_str = result.into_string();

    // Verify filter functionality is included
    assert!(html_str.contains("filter-btn"));
    assert!(html_str.contains("dataset.filter"));
    assert!(html_str.contains("dataset.hasError"));
    assert!(html_str.contains("tool_call"));
    assert!(html_str.contains("tool_result"));
}

#[test]
fn test_base_layout_includes_theme_toggle() {
    let content = Markup::empty();
    let result = base_layout("Test", content);
    let html_str = result.into_string();

    // Verify theme toggle button is included
    assert!(html_str.contains("id=\"theme-toggle\""));
    assert!(html_str.contains("class=\"outline contrast\""));
    assert!(html_str.contains("Toggle dark mode"));
}

#[test]
fn test_base_layout_includes_theme_script() {
    let content = Markup::empty();
    let result = base_layout("Test", content);
    let html_str = result.into_string();

    // Verify theme script is included
    assert!(html_str.contains("traceview-theme"));
    assert!(html_str.contains("localStorage"));
    assert!(html_str.contains("dataset.theme"));
}

#[test]
fn base_layout_exact_page_around_content() {
    let content = Markup::pre_escaped("<p>x</p>".to_string());
    let html_str = base_layout("A & B", content).into_string();
    let head = "<!DOCTYPE html><html lang=\"en\" data-theme=\"light\"><head><meta charset=\"utf-8\"><meta name=\"viewport\" content=\"width=device-width, initial-scale=1\"><title>A &amp; B - Traceview</title><link rel=\"stylesheet\" href=\"https://cdn.jsdelivr.net/npm/@picocss/pico@2/css/pico.min.css\"><style>";
    assert!(html_str.starts_with(head));
    assert!(html_str.contains("<main class=\"container\"><p>x</p></main><script>"));
    assert!(html_str.contains("title=\"Toggle dark mode\">\u{1F319}</button>"));
    assert!(html_str.ends_with("</script></body></html>"));
    assert_eq!(html_str.matches("<script>").count(), 2);
}

#[test]
fn layout_scripts_and_styles_are_the_page_assets() {
    let html_str = base_layout("T", Markup::empty()).into_string();
    assert!(html_str.contains(minimal_css()));
    assert!(html_str.contains(theme_script()));
    assert!(html_str.contains(sse_script()));
    assert!(minimal_css().contains(".span.wrapper-span { display: none; }"));
    assert!(theme_script().contains("localStorage.setItem('traceview-theme', next);"));
    assert!(sse_script().contains("new EventSource('/stream')"));
    assert!(sse_script().contains("filter === 'thoughts'"));
    assert!(sse_script().contains("show = kind === 'thinking';"));
}
