use yaml_variable_substitution::keypath::parse_seg_index;
use yaml_variable_substitution::keypath::resolve_node;
use yaml_variable_substitution::keypath::split_key;
use yaml_variable_substitution::node::Node;
use yaml_variable_substitution::node::get_string_from_yaml_object;
use yaml_variable_substitution::node::get_yaml_type;

#[test]
fn yaml_type_names() {
    assert_eq!(get_yaml_type(&Node::Real("1.5".to_string())), "real");
    assert_eq!(get_yaml_type(&Node::Integer(3)), "integer");
    assert_eq!(get_yaml_type(&Node::Str("s".to_string())), "string");
    assert_eq!(get_yaml_type(&Node::Boolean(false)), "boolean");
    assert_eq!(get_yaml_type(&Node::Sequence(vec![])), "array");
    assert_eq!(get_yaml_type(&Node::Mapping(vec![])), "object");
    assert_eq!(get_yaml_type(&Node::Alias(1)), "alias");
    assert_eq!(get_yaml_type(&Node::Null), "null");
    assert_eq!(get_yaml_type(&Node::BadValue), "BAD_YAML_VALUE");
}

#[test]
fn scalars_stringify_and_composites_do_not() {
    assert_eq!(
        get_string_from_yaml_object(&Node::Real("1.5".to_string())).unwrap(),
        "1.5"
    );
    assert_eq!(
        get_string_from_yaml_object(&Node::Integer(-42)).unwrap(),
        "-42"
    );
    assert_eq!(get_string_from_yaml_object(&Node::Integer(0)).unwrap(), "0");
    assert_eq!(
        get_string_from_yaml_object(&Node::Integer(i64::MIN)).unwrap(),
        "-9223372036854775808"
    );
    assert_eq!(
        get_string_from_yaml_object(&Node::Integer(i64::MAX)).unwrap(),
        "9223372036854775807"
    );
    assert_eq!(
        get_string_from_yaml_object(&Node::Str("hi".to_string())).unwrap(),
        "hi"
    );
    assert_eq!(
        get_string_from_yaml_object(&Node::Boolean(true)).unwrap(),
        "true"
    );
    assert_eq!(get_string_from_yaml_object(&Node::Null).unwrap(), "null");
    assert_eq!(get_string_from_yaml_object(&Node::Sequence(vec![])), None);
    assert_eq!(get_string_from_yaml_object(&Node::Mapping(vec![])), None);
    assert_eq!(get_string_from_yaml_object(&Node::Alias(0)), None);
    assert_eq!(get_string_from_yaml_object(&Node::BadValue), None);
}

#[test]
fn segment_index_parsing() {
    assert_eq!(parse_seg_index("0"), Some(0));
    assert_eq!(parse_seg_index("3"), Some(3));
    assert_eq!(parse_seg_index("007"), Some(7));
    assert_eq!(parse_seg_index("+3"), Some(3));
    assert_eq!(parse_seg_index(""), None);
    assert_eq!(parse_seg_index("+"), None);
    assert_eq!(parse_seg_index("12a"), None);
    assert_eq!(parse_seg_index("-1"), None);
    assert_eq!(parse_seg_index("99999999999999999999999999"), None);
}

#[test]
fn dotted_keys_split_on_every_dot() {
    assert_eq!(split_key("a.b.c"), vec!["a", "b", "c"]);
    assert_eq!(split_key("single"), vec!["single"]);
    assert_eq!(split_key(""), vec![""]);
    assert_eq!(split_key("a..b"), vec!["a", "", "b"]);
    assert_eq!(split_key(".x"), vec!["", "x"]);
}

#[test]
fn path_resolution_walks_nested_containers() {
    let doc = Node::Mapping(vec![
        (
            Node::Str("outer".to_string()),
            Node::Mapping(vec![(
                Node::Str("inner".to_string()),
                Node::Sequence(vec![Node::Integer(10), Node::Integer(20)]),
            )]),
        ),
        (Node::Str("flat".to_string()), Node::Str("v".to_string())),
    ]);
    match resolve_node(&doc, "outer.inner.1") {
        Some(Node::Integer(20)) => {}
        _ => panic!("expected the second element"),
    }
    match resolve_node(&doc, "flat") {
        Some(Node::Str(s)) => assert_eq!(s, "v"),
        _ => panic!("expected a string"),
    }
    assert!(resolve_node(&doc, "outer.missing").is_none());
    assert!(resolve_node(&doc, "flat.deeper").is_none());
    assert!(resolve_node(&doc, "outer.inner.9").is_none());
}
