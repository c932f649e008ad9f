use simple_site::engine::{
    get_component_self, get_component_slot, get_template, process_component, process_entry,
    process_template, BuildConfig, ComponentTypes,
};
use simple_site::error::{ErrorType, MapProcErr, WithItem};
use simple_site::katex_assets::{
    get_katex_css_tag, mark_katex_used, reset_katex_flag, was_katex_used,
};
use simple_site::store::{FileStore, Hist};
use simple_site::utils::ProcessResult;

fn prod_config() -> BuildConfig {
    BuildConfig {
        dev: false,
        ws_port: 0,
        reload_script: String::new(),
        katex_css_disabled: true,
    }
}

fn chars(s: &str) -> Vec<char> {
    s.chars().collect()
}

#[test]
fn process_component_expands_one_form_at_a_time() {
    let mut store = FileStore::new();
    store.add_file("components/A.component.html", "self");
    let cfg = prod_config();
    let res = process_component(
        &store,
        &cfg,
        "<A /> and <A>x</A>".to_string(),
        ComponentTypes::SelfClosing,
        Hist::empty(),
    );
    assert!(res.output.starts_with("self and "));
    let res = process_component(
        &store,
        &cfg,
        "plain text".to_string(),
        ComponentTypes::Wrapping,
        Hist::empty(),
    );
    assert_eq!(res.output, "plain text");
}

#[test]
fn process_template_leaves_buffers_without_references_alone() {
    let store = FileStore::new();
    let cfg = prod_config();
    let res = process_template(&store, &cfg, "<p>nothing</p>".to_string(), Hist::empty());
    assert_eq!(res.output, "<p>nothing</p>");
    assert!(res.errors.is_empty());
}

#[test]
fn get_component_self_reports_missing_definition() {
    let store = FileStore::new();
    let cfg = prod_config();
    let res = get_component_self(&store, &cfg, "Gone", Vec::new(), Hist::empty());
    assert_eq!(res.output, "");
    assert_eq!(res.errors.len(), 1);
    assert!(matches!(res.errors[0].error_type, ErrorType::NotFound));
    assert_eq!(res.errors[0].path, "components/Gone.component.html");
}

#[test]
fn get_component_self_reports_cycle_from_history() {
    let mut store = FileStore::new();
    store.add_file("components/Me.component.html", "body");
    let cfg = prod_config();
    let hist = Hist {
        paths: vec![chars("components/Me.component.html")],
    };
    let res = get_component_self(&store, &cfg, "Me", Vec::new(), hist);
    assert_eq!(res.errors.len(), 1);
    assert!(matches!(res.errors[0].error_type, ErrorType::Circular));
}

#[test]
fn get_component_slot_requires_slot_markers() {
    let mut store = FileStore::new();
    store.add_file("components/Bare.component.html", "no markers");
    let cfg = prod_config();
    let res = get_component_slot(
        &store,
        &cfg,
        "Bare",
        Vec::new(),
        Some("content".to_string()),
        Hist::empty(),
    );
    assert_eq!(res.output, "");
    assert_eq!(res.errors.len(), 1);
    assert!(matches!(res.errors[0].error_type, ErrorType::Syntax));
}

#[test]
fn get_component_slot_substitutes_attributes_and_content() {
    let mut store = FileStore::new();
    store.add_file(
        "components/Box.component.html",
        "<div id=\"${id}\"><slot>fallback</slot></div>",
    );
    let cfg = prod_config();
    let res = get_component_slot(
        &store,
        &cfg,
        "Box",
        vec![("id".to_string(), "b1".to_string())],
        Some("inner".to_string()),
        Hist::empty(),
    );
    assert_eq!(res.output, "<div id=\"b1\">inner</div>");
}

#[test]
fn get_template_resolves_shell_and_data() {
    let mut store = FileStore::new();
    store.add_file("templates/T.template.html", "(${v})");
    store.add_file("data/T.data.json", r#"[{"v":"x"}]"#);
    let cfg = prod_config();
    let res = get_template(&store, &cfg, "T", Hist::empty());
    assert_eq!(res.output, "(x)");
}

#[test]
fn process_entry_rejects_one_sided_reserved_keys() {
    let store = FileStore::new();
    let cfg = prod_config();
    let (errors, writes) = process_entry(
        &store,
        &cfg,
        "T",
        "".to_string(),
        "content/out.html".to_string(),
        Vec::new(),
        Hist::empty(),
    );
    assert_eq!(errors.len(), 1);
    assert!(matches!(errors[0].error_type, ErrorType::Other));
    assert!(writes.is_empty());
}

#[test]
fn katex_flag_helpers_track_the_result_flag() {
    let mut r = ProcessResult {
        output: String::new(),
        errors: Vec::new(),
        math_used: false,
        writes: Vec::new(),
    };
    assert!(!was_katex_used(&r));
    mark_katex_used(&mut r);
    assert!(was_katex_used(&r));
    reset_katex_flag(&mut r);
    assert!(!was_katex_used(&r));
    assert!(get_katex_css_tag().contains("katex.min.css"));
}

#[test]
fn map_proc_err_wraps_plain_error_messages() {
    let r: Result<i32, String> = Err("boom".to_string());
    let mapped = r.map_proc_err(WithItem::Data, ErrorType::Io, "some/path", None);
    let e = mapped.unwrap_err();
    assert!(matches!(e.error_type, ErrorType::Io));
    assert_eq!(e.path, "some/path");
    assert_eq!(e.message.as_deref(), Some("boom"));
    let ok: Result<i32, String> = Ok(5);
    let mapped = ok.map_proc_err(WithItem::Data, ErrorType::Io, "p", None);
    assert_eq!(mapped.unwrap(), 5);
}
