use simple_site::engine::BuildConfig;
use simple_site::pages::{process_pages, process_single_file};
use simple_site::store::FileStore;

fn prod_config() -> BuildConfig {
    BuildConfig {
        dev: false,
        ws_port: 0,
        reload_script: String::new(),
        katex_css_disabled: true,
    }
}

fn chars(s: &str) -> Vec<char> {
    s.chars().collect()
}

#[test]
fn independent_pages_survive_one_failing_page() {
    let mut store = FileStore::new();
    store.add_file("pages/a.html", "<p>a</p>");
    store.add_file("pages/b.html", "<p>b</p>");
    store.add_file("pages/sub/c.html", "<p>c</p>");
    let pages = vec![
        chars("pages/a.html"),
        chars("pages/b.html"),
        chars("pages/missing.html"),
        chars("pages/sub/c.html"),
    ];
    let cfg = prod_config();
    let out = process_pages(&store, &cfg, &pages);
    assert_eq!(out.writes.len(), 3);
    assert!(out.writes.iter().any(|w| w.path == "a.html"));
    assert!(out.writes.iter().any(|w| w.path == "b.html"));
    assert!(out.writes.iter().any(|w| w.path == "sub/c.html"));
    assert_eq!(out.errors.len(), 1);
    assert_eq!(out.errors[0].path, "pages/missing.html");
}

#[test]
fn production_output_is_minified() {
    let mut store = FileStore::new();
    store.add_file("pages/x.html", "<p>  spaced   out  </p>\n\n");
    let cfg = prod_config();
    let (writes, errors) = process_single_file(&store, &cfg, &chars("pages/x.html"));
    assert!(errors.is_empty());
    assert_eq!(writes.len(), 1);
    assert_ne!(writes[0].bytes, "<p>  spaced   out  </p>\n\n".as_bytes());
}

#[test]
fn development_output_injects_reload_script_and_port() {
    let mut store = FileStore::new();
    store.add_file("pages/x.html", "<head></head><body></body>");
    let cfg = BuildConfig {
        dev: true,
        ws_port: 1234,
        reload_script: "<script>// * SCRIPT INCLUDED IN DEV MODE\nconnect(__SIMPLE_WS_PORT_PLACEHOLDER__)</script>"
            .to_string(),
        katex_css_disabled: true,
    };
    let (writes, errors) = process_single_file(&store, &cfg, &chars("pages/x.html"));
    assert!(errors.is_empty());
    let text = String::from_utf8(writes[0].bytes.clone()).unwrap();
    assert!(text.contains("// * SCRIPT INCLUDED IN DEV MODE"));
    assert!(text.contains("connect(1234)"));
}

#[test]
fn math_page_gets_stylesheet_injected() {
    let mut store = FileStore::new();
    store.add_file(
        "pages/m.html",
        "<head></head><markdown>\n$x^2$\n</markdown>",
    );
    let cfg = BuildConfig {
        dev: true,
        ws_port: 1,
        reload_script: String::new(),
        katex_css_disabled: false,
    };
    let (writes, _errors) = process_single_file(&store, &cfg, &chars("pages/m.html"));
    let text = String::from_utf8(writes[0].bytes.clone()).unwrap();
    assert!(text.contains("katex.min.css"));
}

#[test]
fn page_outside_pages_directory_reports_io_error() {
    let mut store = FileStore::new();
    store.add_file("stray.html", "<p>x</p>");
    let cfg = prod_config();
    let (_writes, errors) = process_single_file(&store, &cfg, &chars("stray.html"));
    assert_eq!(errors.len(), 1);
    assert!(matches!(
        errors[0].error_type,
        simple_site::error::ErrorType::Io
    ));
}
