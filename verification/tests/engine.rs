use simple_site::engine::{page, BuildConfig};
use simple_site::error::{ErrorType, ProcessError, WithItem};
use simple_site::store::{FileStore, Hist};

fn prod_config() -> BuildConfig {
    BuildConfig {
        dev: false,
        ws_port: 0,
        reload_script: String::new(),
        katex_css_disabled: true,
    }
}

#[test]
fn self_closing_component_resolves() {
    let mut store = FileStore::new();
    store.add_file("components/Hello.component.html", "<p>Hi ${name}</p>");
    let cfg = prod_config();
    let res = page(
        &store,
        &cfg,
        r#"<Hello name="World" />"#.to_string(),
        Hist::empty(),
    );
    assert_eq!(res.output, "<p>Hi World</p>");
    assert!(res.errors.is_empty());
}

#[test]
fn slot_replacement_uses_caller_content() {
    let mut store = FileStore::new();
    store.add_file(
        "components/Wrap.component.html",
        "<b><slot>Empty</slot></b>",
    );
    let cfg = prod_config();
    let res = page(&store, &cfg, "<Wrap>Content</Wrap>".to_string(), Hist::empty());
    assert!(res.output.contains("Content"));
    assert!(!res.output.contains("Empty"));
    assert!(res.errors.is_empty());
}

#[test]
fn slot_fallback_kept_without_caller_content() {
    let mut store = FileStore::new();
    store.add_file(
        "components/Wrap.component.html",
        "<b><slot>Empty</slot></b>",
    );
    let cfg = prod_config();
    let res = page(&store, &cfg, "<Wrap></Wrap>".to_string(), Hist::empty());
    assert!(res.output.contains("Empty"));
    assert!(res.errors.is_empty());
}

#[test]
fn missing_slot_marker_yields_syntax_diagnostic() {
    let mut store = FileStore::new();
    store.add_file("components/NoSlot.component.html", "<b>solid</b>");
    let cfg = prod_config();
    let res = page(&store, &cfg, "<NoSlot>x</NoSlot>".to_string(), Hist::empty());
    assert_eq!(res.errors.len(), 1);
    assert!(matches!(res.errors[0].error_type, ErrorType::Syntax));
    assert_eq!(res.output, "");
}

#[test]
fn self_referencing_component_terminates_with_circular() {
    let mut store = FileStore::new();
    store.add_file("components/Loop.component.html", "<Loop />");
    let cfg = prod_config();
    let res = page(&store, &cfg, "<Loop />".to_string(), Hist::empty());
    assert!(res
        .errors
        .iter()
        .any(|e| matches!(e.error_type, ErrorType::Circular)));
}

#[test]
fn mutually_recursive_components_terminate_with_circular() {
    let mut store = FileStore::new();
    store.add_file("components/A.component.html", "<B />");
    store.add_file("components/B.component.html", "<A />");
    let cfg = prod_config();
    let res = page(&store, &cfg, "<A />".to_string(), Hist::empty());
    assert!(res
        .errors
        .iter()
        .any(|e| matches!(e.error_type, ErrorType::Circular)));
}

#[test]
fn sibling_references_do_not_trip_the_cycle_check() {
    let mut store = FileStore::new();
    store.add_file("components/Twice.component.html", "<p>once</p>");
    let cfg = prod_config();
    let res = page(
        &store,
        &cfg,
        "<Twice /><Twice />".to_string(),
        Hist::empty(),
    );
    assert_eq!(res.output, "<p>once</p><p>once</p>");
    assert!(res.errors.is_empty());
}

#[test]
fn missing_component_yields_not_found_and_empty_splice() {
    let store = FileStore::new();
    let cfg = prod_config();
    let res = page(&store, &cfg, "a<Gone />b".to_string(), Hist::empty());
    assert_eq!(res.output, "ab");
    assert_eq!(res.errors.len(), 1);
    assert!(matches!(res.errors[0].error_type, ErrorType::NotFound));
}

#[test]
fn page_without_markers_resolves_to_itself() {
    let store = FileStore::new();
    let cfg = prod_config();
    let text = "<html><body><p class=\"x\">plain &amp; simple</p></body></html>";
    let res = page(&store, &cfg, text.to_string(), Hist::empty());
    assert_eq!(res.output, text);
    assert!(res.errors.is_empty());
    assert!(res.writes.is_empty());
    assert!(!res.math_used);
}

#[test]
fn namespaced_component_maps_to_nested_directory() {
    let mut store = FileStore::new();
    store.add_file("components/Ui/Card.component.html", "<div>card</div>");
    let cfg = prod_config();
    let res = page(&store, &cfg, "<Ui:Card />".to_string(), Hist::empty());
    assert_eq!(res.output, "<div>card</div>");
    assert!(res.errors.is_empty());
}

#[test]
fn commented_reference_is_not_expanded() {
    let store = FileStore::new();
    let cfg = prod_config();
    let text = "<!--<Gone />-->";
    let res = page(&store, &cfg, text.to_string(), Hist::empty());
    assert_eq!(res.output, text);
    assert!(res.errors.is_empty());
}

#[test]
fn nested_component_expansion() {
    let mut store = FileStore::new();
    store.add_file("components/Outer.component.html", "[<Inner />]");
    store.add_file("components/Inner.component.html", "deep");
    let cfg = prod_config();
    let res = page(&store, &cfg, "<Outer />".to_string(), Hist::empty());
    assert_eq!(res.output, "[deep]");
    assert!(res.errors.is_empty());
}

#[test]
fn unmatched_placeholder_left_verbatim() {
    let mut store = FileStore::new();
    store.add_file("components/P.component.html", "<i>${missing}</i>");
    let cfg = prod_config();
    let res = page(&store, &cfg, "<P />".to_string(), Hist::empty());
    assert_eq!(res.output, "<i>${missing}</i>");
}

#[test]
fn markdown_block_is_rendered() {
    let store = FileStore::new();
    let cfg = prod_config();
    let res = page(
        &store,
        &cfg,
        "<markdown>\n# Title\n</markdown>".to_string(),
        Hist::empty(),
    );
    assert!(res.output.contains("<h1>"));
    assert!(res.output.contains("Title"));
    assert!(!res.output.contains("<markdown>"));
}

#[test]
fn math_span_sets_math_flag() {
    let store = FileStore::new();
    let cfg = prod_config();
    let res = page(
        &store,
        &cfg,
        "<markdown>\nSome $x^2$ math\n</markdown>".to_string(),
        Hist::empty(),
    );
    assert!(res.math_used);
    assert!(res.output.contains("katex"));
}

#[test]
fn describe_renders_each_error_kind() {
    let e = ProcessError {
        error_type: ErrorType::Encoding,
        item: WithItem::File,
        path: "x/y".to_string(),
        message: None,
    };
    assert_eq!(e.describe(), "The file or directory x/y is not valid UTF-8.");
    let e = ProcessError {
        error_type: ErrorType::Syntax,
        item: WithItem::Component,
        path: "c".to_string(),
        message: Some("bad".to_string()),
    };
    assert_eq!(e.describe(), "The component c contains a syntax error. bad");
    let e = ProcessError {
        error_type: ErrorType::Circular,
        item: WithItem::Template,
        path: "t".to_string(),
        message: Some("ignored".to_string()),
    };
    assert_eq!(e.describe(), "The template t contains a circular dependency.");
    let e = ProcessError {
        error_type: ErrorType::Other,
        item: WithItem::NoItem,
        path: "p".to_string(),
        message: Some("m".to_string()),
    };
    assert_eq!(e.describe(), "Error encountered in item p. m");
}

#[test]
fn component_reference_inside_markdown_output_is_expanded() {
    let mut store = FileStore::new();
    store.add_file("components/Badge.component.html", "<span>badge</span>");
    let cfg = prod_config();
    let res = page(
        &store,
        &cfg,
        "<markdown>\nSome text\n\n<Badge />\n</markdown>".to_string(),
        Hist::empty(),
    );
    assert!(res.output.contains("<span>badge</span>"), "{}", res.output);
    assert!(res.errors.is_empty());
}

#[test]
fn template_reference_inside_component_is_expanded() {
    let mut store = FileStore::new();
    store.add_file("components/Listing.component.html", "<ul><-Template{Rows}/></ul>");
    store.add_file("templates/Rows.template.html", "<li>${x}</li>");
    store.add_file("data/Rows.data.json", r#"[{"x":"1"},{"x":"2"}]"#);
    let cfg = prod_config();
    let res = page(&store, &cfg, "<Listing />".to_string(), Hist::empty());
    assert_eq!(res.output, "<ul><li>1</li><li>2</li></ul>");
    assert!(res.errors.is_empty());
}

#[test]
fn wrapping_component_with_attributes_substitutes_them() {
    let mut store = FileStore::new();
    store.add_file(
        "components/Card.component.html",
        "<div class=\"${kind}\"><slot>none</slot></div>",
    );
    let cfg = prod_config();
    let res = page(
        &store,
        &cfg,
        "<Card kind='wide'>inner</Card>".to_string(),
        Hist::empty(),
    );
    assert_eq!(res.output, "<div class=\"wide\">inner</div>");
    assert!(res.errors.is_empty());
}

