use simple_site::engine::{page, BuildConfig};
use simple_site::error::{ErrorType, WithItem};
use simple_site::frontmatter::extract_frontmatter;
use simple_site::store::{FileStore, Hist};

fn prod_config() -> BuildConfig {
    BuildConfig {
        dev: false,
        ws_port: 0,
        reload_script: String::new(),
        katex_css_disabled: true,
    }
}

#[test]
fn template_expands_records_in_order() {
    let mut store = FileStore::new();
    store.add_file("templates/List.template.html", "<li>${item}</li>");
    store.add_file("data/List.data.json", r#"[{"item":"A"},{"item":"B"}]"#);
    let cfg = prod_config();
    let res = page(&store, &cfg, "<-Template{List}/>".to_string(), Hist::empty());
    assert_eq!(res.output, "<li>A</li><li>B</li>");
    assert!(res.errors.is_empty());
}

#[test]
fn malformed_record_is_skipped_at_record_granularity() {
    let mut store = FileStore::new();
    store.add_file("templates/List.template.html", "<li>${item}</li>");
    store.add_file(
        "data/List.data.json",
        r#"[{"item":"A"},{"item":7},{"item":"C"}]"#,
    );
    let cfg = prod_config();
    let res = page(&store, &cfg, "<-Template{List}/>".to_string(), Hist::empty());
    assert_eq!(res.output, "<li>A</li><li>C</li>");
    assert_eq!(res.errors.len(), 1);
    assert!(matches!(res.errors[0].error_type, ErrorType::Syntax));
}

#[test]
fn data_that_is_not_an_array_fails_the_reference() {
    let mut store = FileStore::new();
    store.add_file("templates/List.template.html", "<li>${item}</li>");
    store.add_file("data/List.data.json", r#"{"item":"A"}"#);
    let cfg = prod_config();
    let res = page(&store, &cfg, "<-Template{List}/>".to_string(), Hist::empty());
    assert_eq!(res.output, "");
    assert_eq!(res.errors.len(), 1);
    assert!(matches!(res.errors[0].error_type, ErrorType::Syntax));
}

#[test]
fn unparsable_data_yields_syntax_diagnostic() {
    let mut store = FileStore::new();
    store.add_file("templates/List.template.html", "<li>${item}</li>");
    store.add_file("data/List.data.json", "not json at all");
    let cfg = prod_config();
    let res = page(&store, &cfg, "<-Template{List}/>".to_string(), Hist::empty());
    assert_eq!(res.errors.len(), 1);
    assert!(matches!(res.errors[0].error_type, ErrorType::Syntax));
}

#[test]
fn missing_template_yields_one_diagnostic_per_missing_file() {
    let store = FileStore::new();
    let cfg = prod_config();
    let res = page(&store, &cfg, "<-Template{Gone}/>".to_string(), Hist::empty());
    assert_eq!(res.output, "");
    assert_eq!(res.errors.len(), 2);
    assert!(matches!(res.errors[0].error_type, ErrorType::NotFound));
    assert!(matches!(res.errors[0].item, WithItem::Template));
    assert!(matches!(res.errors[1].error_type, ErrorType::NotFound));
    assert!(matches!(res.errors[1].item, WithItem::Data));
}

#[test]
fn missing_template_with_present_data_yields_only_the_shell_diagnostic() {
    let mut store = FileStore::new();
    store.add_file("data/Gone.data.json", r#"[{"item":"A"}]"#);
    let cfg = prod_config();
    let res = page(&store, &cfg, "<-Template{Gone}/>".to_string(), Hist::empty());
    assert_eq!(res.output, "");
    assert_eq!(res.errors.len(), 1);
    assert!(matches!(res.errors[0].error_type, ErrorType::NotFound));
    assert!(matches!(res.errors[0].item, WithItem::Template));
}

#[test]
fn self_referencing_template_terminates_with_circular() {
    let mut store = FileStore::new();
    store.add_file("templates/Auto.template.html", "<-Template{Auto}/>");
    store.add_file("data/Auto.data.json", "[{}]");
    let cfg = prod_config();
    let res = page(&store, &cfg, "<-Template{Auto}/>".to_string(), Hist::empty());
    assert!(res
        .errors
        .iter()
        .any(|e| matches!(e.error_type, ErrorType::Circular)));
}

#[test]
fn entry_record_writes_standalone_output() {
    let mut store = FileStore::new();
    store.add_file("templates/Post.template.html", "<a>${title}</a>");
    store.add_file(
        "data/Post.data.json",
        r#"[{"title":"T","--entry-path":"Post/one.md","--result-path":"content/one.html"}]"#,
    );
    store.add_file("templates/Post.frame.html", "<main>${--content}</main>");
    store.add_file("data/Post/one.md", "plain body");
    let cfg = prod_config();
    let res = page(&store, &cfg, "<-Template{Post}/>".to_string(), Hist::empty());
    assert_eq!(res.output, "<a>T</a>");
    assert!(res.errors.is_empty(), "{:?}", res.errors);
    assert_eq!(res.writes.len(), 1);
    assert_eq!(res.writes[0].path, "content/one.html");
    let written = String::from_utf8(res.writes[0].bytes.clone()).unwrap();
    assert!(written.contains("plain body"));
}

#[test]
fn entry_with_one_reserved_key_is_a_usage_error() {
    let mut store = FileStore::new();
    store.add_file("templates/Post.template.html", "<a>${title}</a>");
    store.add_file(
        "data/Post.data.json",
        r#"[{"title":"T","--entry-path":"Post/one.md"}]"#,
    );
    let cfg = prod_config();
    let res = page(&store, &cfg, "<-Template{Post}/>".to_string(), Hist::empty());
    assert!(res
        .errors
        .iter()
        .any(|e| matches!(e.error_type, ErrorType::Other)));
    assert!(res.writes.is_empty());
}

#[test]
fn frontmatter_manifest_feeds_template_records() {
    let mut store = FileStore::new();
    store.add_file("templates/Blog.template.html", "<li>${title}</li>");
    store.add_file("data/Blog.data.toml", "files = [\"a.md\"]\n");
    store.add_file("data/Blog/a.md", "---\ntitle: First\n---\nbody text");
    store.add_file("templates/Blog.frame.html", "<main>${--content}</main>");
    let cfg = prod_config();
    let res = page(&store, &cfg, "<-Template{Blog}/>".to_string(), Hist::empty());
    assert!(res.output.contains("<li>First</li>"), "{}", res.output);
    assert!(res.errors.is_empty(), "{:?}", res.errors);
    assert_eq!(res.writes.len(), 1);
    assert_eq!(res.writes[0].path, "content/a.html");
}

#[test]
fn extract_frontmatter_returns_fields_and_rest() {
    let (fields, rest) = extract_frontmatter("---\ntitle: Hi\nkind: post\n---\nBody here").unwrap();
    assert!(fields.contains(&("title".to_string(), "Hi".to_string())));
    assert!(fields.contains(&("kind".to_string(), "post".to_string())));
    assert_eq!(rest, "Body here");
}

#[test]
fn extract_frontmatter_requires_fences_and_title() {
    assert!(extract_frontmatter("no fence").is_err());
    assert!(extract_frontmatter("---\ntitle: x\nnever closed").is_err());
    assert!(extract_frontmatter("---\nkind: post\n---\nbody").is_err());
    assert!(extract_frontmatter("---\n- [\n---\nbody").is_err());
}
