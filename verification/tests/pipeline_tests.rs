use yaml_variable_substitution::context::ArgEnvContext;
use yaml_variable_substitution::context::Context;
use yaml_variable_substitution::context::YamlContext;
use yaml_variable_substitution::context::get_env_str;
use yaml_variable_substitution::node::Node;
use yaml_variable_substitution::pipeline::YamlError;
use yaml_variable_substitution::pipeline::load_yaml_from_str;
use yaml_variable_substitution::pipeline::read_yaml_from_str;
use yaml_variable_substitution::pipeline::read_yaml_string_from_string;

const TEST_YAML: &str = "title: hello ${{ ENV:TITLE }} world
something:
  is:
    here: ${{ segments.1 }}
    and: \"also here: ${{ 0 }}\"
segments: [\"a\", \"b\", \"c\", \"default if arg not provided\"]
some_setting: ${{ segments.3 }}
";

fn test_env() -> Vec<(String, String)> {
    vec![("TITLE".to_string(), "BEAUTIFUL".to_string())]
}

fn test_args() -> Vec<String> {
    vec!["some_arg".to_string(), "other_arg".to_string()]
}

fn doc_value(doc: &Node, key: &str) -> Option<String> {
    let ctx = YamlContext { yaml: doc };
    ctx.get_value_from_key(key)
}

#[test]
fn works() {
    let my_yaml_docs = read_yaml_from_str(TEST_YAML, test_args(), test_env()).unwrap();
    let my_yaml_doc = &my_yaml_docs[0];
    // referencing other fields of the same document
    assert_eq!(doc_value(my_yaml_doc, "something.is.here").unwrap(), "b");
    // referencing cli args by their position
    assert_eq!(
        doc_value(my_yaml_doc, "something.is.and").unwrap(),
        "also here: some_arg"
    );
    // referencing environment variables
    assert_eq!(
        doc_value(my_yaml_doc, "title").unwrap(),
        "hello BEAUTIFUL world"
    );
    // literal defaults survive
    assert_eq!(
        doc_value(my_yaml_doc, "segments.3").unwrap(),
        "default if arg not provided"
    );
}

#[test]
fn getting_doc_as_string_works() {
    let my_yaml_string =
        read_yaml_string_from_string(TEST_YAML, test_args(), test_env()).unwrap();
    assert!(my_yaml_string.contains("title: hello BEAUTIFUL world"));
    assert!(my_yaml_string.contains("and: \"also here: some_arg\""));
    assert!(my_yaml_string.contains("here: b"));
    assert!(my_yaml_string.contains("some_setting: default if arg not provided"));
}

#[test]
fn no_placeholders_is_identity() {
    let text = "title: plain\nitems: [1, 2, 3]\n";
    let out = read_yaml_string_from_string(text, vec![], vec![]).unwrap();
    assert_eq!(out, text);
}

#[test]
fn sequence_indexing_in_range_and_out_of_range() {
    let doc = Node::Mapping(vec![(
        Node::Str("segments".to_string()),
        Node::Sequence(vec![
            Node::Str("a".to_string()),
            Node::Str("b".to_string()),
            Node::Str("c".to_string()),
            Node::Str("d".to_string()),
        ]),
    )]);
    assert_eq!(doc_value(&doc, "segments.3").unwrap(), "d");
    assert_eq!(doc_value(&doc, "segments.9"), None);
}

#[test]
fn env_key_resolves_when_set() {
    let ctx = ArgEnvContext {
        cli_args: vec![],
        env_pairs: test_env(),
    };
    assert_eq!(ctx.get_value_from_key("ENV:TITLE").unwrap(), "BEAUTIFUL");
    assert_eq!(ctx.get_value_from_key("ENV:UNSET_NAME"), None);
}

#[test]
fn unset_env_key_is_left_in_stage_one_and_fatal_in_stage_two() {
    let text = "a: ${{ ENV:NO_SUCH_TITLE }}\n";
    let r = read_yaml_string_from_string(text, vec![], vec![]);
    match r {
        Err(YamlError::UnresolvedKey(k)) => assert_eq!(k, "ENV:NO_SUCH_TITLE"),
        other => panic!("expected an unresolved key, got {:?}", other.is_ok()),
    }
}

#[test]
fn positional_args_resolve_by_index() {
    let ctx = ArgEnvContext {
        cli_args: test_args(),
        env_pairs: vec![],
    };
    assert_eq!(ctx.get_value_from_key("0").unwrap(), "some_arg");
    assert_eq!(ctx.get_value_from_key("1").unwrap(), "other_arg");
    assert_eq!(ctx.get_value_from_key("5"), None);
    assert_eq!(ctx.get_value_from_key("not_a_number"), None);
}

#[test]
fn self_reference_resolves_after_stage_two() {
    let text = "a:\n  b: \"x\"\nc: ${{ a.b }}\n";
    let docs = read_yaml_from_str(text, vec![], vec![]).unwrap();
    assert_eq!(doc_value(&docs[0], "c").unwrap(), "x");
}

#[test]
fn composite_target_is_rejected() {
    let text = "a:\n  b: 1\nc: ${{ a }}\n";
    let r = read_yaml_string_from_string(text, vec![], vec![]);
    match r {
        Err(YamlError::UnresolvedKey(k)) => assert_eq!(k, "a"),
        other => panic!("expected an unresolved key, got {:?}", other.is_ok()),
    }
}

#[test]
fn concrete_scenario_from_the_template() {
    let text = "title: \"hello ${{ ENV:TITLE }} world\"
something: { is: { here: \"${{ 0 }}\", and: \"also here: ${{ 0 }}\" } }
segments: [\"a\",\"b\",\"c\",\"default if arg not provided\"]
";
    let docs = read_yaml_from_str(text, test_args(), test_env()).unwrap();
    let doc = &docs[0];
    assert_eq!(doc_value(doc, "title").unwrap(), "hello BEAUTIFUL world");
    assert_eq!(doc_value(doc, "something.is.here").unwrap(), "some_arg");
    assert_eq!(
        doc_value(doc, "something.is.and").unwrap(),
        "also here: some_arg"
    );
}

#[test]
fn malformed_yaml_is_an_error_not_a_panic() {
    let r = read_yaml_string_from_string("key: [unclosed", vec![], vec![]);
    assert!(matches!(r, Err(YamlError::Malformed(_))));
    let l = load_yaml_from_str("key: [unclosed");
    assert!(matches!(l, Err(YamlError::Malformed(_))));
}

#[test]
fn empty_input_is_an_empty_document_error() {
    let r = read_yaml_string_from_string("", vec![], vec![]);
    assert!(matches!(r, Err(YamlError::EmptyDocument)));
    let l = load_yaml_from_str("");
    assert!(matches!(l, Err(YamlError::EmptyDocument)));
}

#[test]
fn parsing_really_parses_the_text() {
    // fails if the parse handed the raw text back instead of a tree
    let docs = load_yaml_from_str("a: 1\nb: [true, null]\n").unwrap();
    match &docs[0] {
        Node::Mapping(entries) => {
            assert_eq!(entries.len(), 2);
            assert!(matches!(entries[0].1, Node::Integer(1)));
            match &entries[1].1 {
                Node::Sequence(items) => {
                    assert!(matches!(items[0], Node::Boolean(true)));
                    assert!(matches!(items[1], Node::Null));
                }
                _ => panic!("expected a sequence"),
            }
        }
        _ => panic!("expected a mapping"),
    }
}

#[test]
fn scalars_stringify_through_the_document_context() {
    let text = "n: 42\nm: -7\nb: true\nz: null\nc1: ${{ n }}\nc2: ${{ m }}\nc3: ${{ b }}\nc4: ${{ z }}\n";
    let docs = read_yaml_from_str(text, vec![], vec![]).unwrap();
    let doc = &docs[0];
    assert_eq!(doc_value(doc, "c1").unwrap(), "42");
    assert_eq!(doc_value(doc, "c2").unwrap(), "-7");
    assert_eq!(doc_value(doc, "c3").unwrap(), "true");
    assert_eq!(doc_value(doc, "c4").unwrap(), "null");
}

#[test]
fn unclosed_marker_is_kept_verbatim() {
    let text = "a: ${{ unclosed\n";
    let out = read_yaml_string_from_string(text, vec![], vec![]).unwrap();
    assert_eq!(out, text);
}

#[test]
fn keys_are_trimmed_inside_the_markers() {
    let text = "a: ${{    0    }}\n";
    let out = read_yaml_string_from_string(text, vec!["v".to_string()], vec![]).unwrap();
    assert_eq!(out, "a: v\n");
}

#[test]
fn self_reference_to_an_unexpanded_placeholder_is_not_re_expanded() {
    let text = "b: \"x\"\na: \"${{ b }}\"\nc: \"${{ a }}\"\n";
    let out = read_yaml_string_from_string(text, vec![], vec![]).unwrap();
    assert_eq!(out, "b: \"x\"\na: \"x\"\nc: \"${{ b }}\"\n");
}

#[test]
fn env_snapshot_lookup_takes_the_first_match() {
    let pairs = vec![
        ("A".to_string(), "one".to_string()),
        ("B".to_string(), "two".to_string()),
    ];
    assert_eq!(get_env_str(&pairs, "A").unwrap(), "one");
    assert_eq!(get_env_str(&pairs, "B").unwrap(), "two");
    assert_eq!(get_env_str(&pairs, "C"), None);
}
