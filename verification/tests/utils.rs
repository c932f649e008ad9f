use simple_site::utils::{get_inside, get_targets_kv, kv_replace, unindent};

#[test]
fn test_get_targets_kv() {
    let name = "component";
    let found = r#"<component key1="value1" key2='value2'>"#;
    let result = get_targets_kv(name, found).unwrap();
    assert_eq!(
        result,
        vec![
            ("key1".to_string(), "value1".to_string()),
            ("key2".to_string(), "value2".to_string())
        ]
    );
}

#[test]
fn test_kv_replace() {
    let kv = vec![
        ("v1".to_string(), "k1".to_string()),
        ("something".to_string(), "else".to_string()),
    ];
    let from = "Hello, ${v1}! There is no key for something else.".to_string();
    let result = kv_replace(kv, from);
    assert_eq!(result, "Hello, k1! There is no key for something else.");
}

#[test]
fn test_get_inside() {
    let input = "Hello {world} how are you?".to_string();
    let result = get_inside(input, "{", "}");
    assert_eq!(result, Some("world".to_string()));
}

#[test]
fn test_unindent() {
    let input = "
            Hello
                World
                  How
                Are
            You
            ";
    let expected = "
Hello
    World
      How
    Are
You
";
    let result = unindent(input);
    assert_eq!(result, expected);
}

#[test]
fn attribute_key_without_value_is_a_syntax_error() {
    let err = get_targets_kv("c", "<c plain key='v'>").unwrap_err();
    assert!(matches!(
        err.error_type,
        simple_site::error::ErrorType::Syntax
    ));
    assert_eq!(err.path, "c");
    assert_eq!(err.message.as_deref(), Some("Couldn't split key-value pair."));
}

#[test]
fn attribute_scan_skips_text_that_starts_no_key() {
    let result = get_targets_kv("c", "<c ! key='v' ?>").unwrap();
    assert_eq!(result, vec![("key".to_string(), "v".to_string())]);
}

#[test]
fn test_get_inside_empty_region_is_none() {
    assert_eq!(get_inside("a{}b".to_string(), "{", "}"), None);
    assert_eq!(get_inside("no markers".to_string(), "{", "}"), None);
}

#[test]
fn test_kv_replace_applies_pairs_in_order() {
    let kv = vec![
        ("a".to_string(), "${b}".to_string()),
        ("b".to_string(), "two".to_string()),
    ];
    let result = kv_replace(kv, "${a}".to_string());
    assert_eq!(result, "two");
}

#[test]
fn test_unindent_empty_and_flat() {
    assert_eq!(unindent(""), "");
    assert_eq!(unindent("a\nb"), "a\nb");
}
