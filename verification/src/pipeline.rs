use vstd::prelude::*;
use crate::node::Node;
use crate::context::ArgEnvContext;
use crate::context::YamlContext;
use crate::context::arg_env_value;
use crate::context::yaml_key_value;
use crate::context::pair_views;
use crate::keypath::views_of;
use crate::engine::subst_from;
use crate::engine::substitute_ignore;
use crate::engine::substitute_strict;
use crate::engine::resolver_of;

verus! {

/// Why the pipeline stopped.
#[derive(Debug)]
pub enum YamlError {
    /// The text does not parse as YAML; holds the parser's message.
    Malformed(String),
    /// The text parses to zero documents.
    EmptyDocument,
    /// A self-reference the second pass could not resolve; holds the key.
    UnresolvedKey(String),
}

/// The documents the external parser reads out of a text; `None` for
/// text that is not valid YAML.
pub uninterp spec fn yaml_docs_of(text: Seq<char>) -> Option<Seq<Node>>;

#[verifier::external_type_specification]
#[verifier::external_body]
pub struct ExYaml(yaml_rust::Yaml);

/// Converts one parsed yaml_rust node into the library's tree,
/// variant for variant; called only from `load_documents`.
#[verifier::external_body]
fn node_of_yaml(y: &yaml_rust::Yaml) -> Node {
    match y {
        yaml_rust::Yaml::Real(r) => Node::Real(r.clone()),
        yaml_rust::Yaml::Integer(i) => Node::Integer(*i),
        yaml_rust::Yaml::String(s) => Node::Str(s.clone()),
        yaml_rust::Yaml::Boolean(b) => Node::Boolean(*b),
        yaml_rust::Yaml::Array(items) => Node::Sequence(items.iter().map(node_of_yaml).collect()),
        yaml_rust::Yaml::Hash(entries) => Node::Mapping(
            entries.iter().map(|(k, v)| (node_of_yaml(k), node_of_yaml(v))).collect(),
        ),
        yaml_rust::Yaml::Alias(a) => Node::Alias(*a),
        yaml_rust::Yaml::Null => Node::Null,
        yaml_rust::Yaml::BadValue => Node::BadValue,
    }
}

/// Relies on yaml_rust::YamlLoader::load_from_str: parsing is a pure
/// function of the input text, text that is not valid YAML gives a
/// scan error, and an empty stream gives zero documents.
#[verifier::external_body]
fn load_documents(text: &str) -> (r: Result<Vec<Node>, String>)
    ensures
        match r {
            Ok(docs) => yaml_docs_of(text@) == Some(docs@) && (text@.len() == 0 ==> docs@.len()
                == 0),
            Err(_) => yaml_docs_of(text@) is None && text@.len() > 0,
        },
{
    match yaml_rust::YamlLoader::load_from_str(text) {
        Ok(docs) => Ok(docs.iter().map(node_of_yaml).collect()),
        Err(e) => Err(format!("{}", e)),
    }
}

/// Parses a text and demands at least one document.
pub fn load_yaml_from_str(yaml_str: &str) -> (r: Result<Vec<Node>, YamlError>)
    ensures
        match r {
            Ok(docs) => yaml_docs_of(yaml_str@) == Some(docs@) && docs@.len() > 0,
            Err(e) => match e {
                YamlError::Malformed(_) => yaml_docs_of(yaml_str@) is None,
                YamlError::EmptyDocument => yaml_docs_of(yaml_str@) == Some(Seq::<Node>::empty()),
                YamlError::UnresolvedKey(_) => false,
            },
        },
        yaml_str@.len() == 0 ==> (r matches Err(e) && e is EmptyDocument),
{
    match load_documents(yaml_str) {
        Err(msg) => Err(YamlError::Malformed(msg)),
        Ok(docs) => {
            if docs.len() == 0 {
                proof {
                    assert(docs@ =~= Seq::<Node>::empty());
                }
                Err(YamlError::EmptyDocument)
            } else {
                Ok(docs)
            }
        },
    }
}

/// The pipeline's abstract outcome.
pub enum PipelineOutcome {
    Malformed,
    Empty,
    Unresolved(Seq<char>),
}

/// The resolver of the second pass: a fixed document root.
pub open spec fn doc_resolver(root: Node) -> spec_fn(Seq<char>) -> Option<Seq<char>> {
    |k: Seq<char>| yaml_key_value(root, k)
}

/// The resolver of the first pass: arguments and environment.
pub open spec fn external_resolver(
    args: Seq<Seq<char>>,
    env: Seq<(Seq<char>, Seq<char>)>,
) -> spec_fn(Seq<char>) -> Option<Seq<char>> {
    |k: Seq<char>| arg_env_value(args, env, k)
}

/// The first pass's output; the lenient mode never fails.
pub open spec fn stage_one(
    text: Seq<char>,
    args: Seq<Seq<char>>,
    env: Seq<(Seq<char>, Seq<char>)>,
) -> Seq<char> {
    match subst_from(text, 0, external_resolver(args, env), false) {
        Ok(s) => s,
        Err(_) => Seq::empty(),
    }
}

/// What the whole pipeline yields for a text, an argument list and an
/// environment snapshot: the lenient external pass, a parse, then the
/// strict self-reference pass over the first pass's output.
pub open spec fn pipeline_spec(
    text: Seq<char>,
    args: Seq<Seq<char>>,
    env: Seq<(Seq<char>, Seq<char>)>,
) -> Result<Seq<char>, PipelineOutcome> {
    let s1 = stage_one(text, args, env);
    match yaml_docs_of(s1) {
        None => Err(PipelineOutcome::Malformed),
        Some(docs) => if docs.len() == 0 {
            Err(PipelineOutcome::Empty)
        } else {
            match subst_from(s1, 0, doc_resolver(docs[0]), true) {
                Ok(s2) => Ok(s2),
                Err(k) => Err(PipelineOutcome::Unresolved(k)),
            }
        },
    }
}

/// Runs the two passes over a YAML text and returns the final text.
pub fn read_yaml_string_from_string(
    yaml_str: &str,
    cli_args: Vec<String>,
    env_pairs: Vec<(String, String)>,
) -> (r: Result<String, YamlError>)
    ensures
        ({
            let p = pipeline_spec(yaml_str@, views_of(cli_args@), pair_views(env_pairs@));
            match r {
                Ok(s) => p == Ok::<Seq<char>, PipelineOutcome>(s@),
                Err(e) => match e {
                    YamlError::Malformed(_) => p == Err::<Seq<char>, PipelineOutcome>(
                        PipelineOutcome::Malformed,
                    ),
                    YamlError::EmptyDocument => p == Err::<Seq<char>, PipelineOutcome>(
                        PipelineOutcome::Empty,
                    ),
                    YamlError::UnresolvedKey(k) => p == Err::<Seq<char>, PipelineOutcome>(
                        PipelineOutcome::Unresolved(k@),
                    ),
                },
            }
        }),
{
    let arg_and_env_context = ArgEnvContext { cli_args, env_pairs };
    let yaml_out_str = substitute_ignore(yaml_str, &arg_and_env_context);
    proof {
        assert(resolver_of(&arg_and_env_context) =~= external_resolver(
            views_of(arg_and_env_context.cli_args@),
            pair_views(arg_and_env_context.env_pairs@),
        ));
    }
    let docs = match load_yaml_from_str(yaml_out_str.as_str()) {
        Ok(d) => d,
        Err(e) => {
            return Err(e);
        },
    };
    let yaml_context = YamlContext { yaml: &docs[0] };
    proof {
        assert(resolver_of(&yaml_context) =~= doc_resolver(docs@[0]));
    }
    match substitute_strict(yaml_out_str.as_str(), &yaml_context) {
        Ok(s2) => Ok(s2),
        Err(k) => Err(YamlError::UnresolvedKey(k)),
    }
}

/// Runs the two passes and parses the final text into documents.
pub fn read_yaml_from_str(
    yaml_str: &str,
    cli_args: Vec<String>,
    env_pairs: Vec<(String, String)>,
) -> (r: Result<Vec<Node>, YamlError>)
    ensures
        ({
            let p = pipeline_spec(yaml_str@, views_of(cli_args@), pair_views(env_pairs@));
            match r {
                Ok(docs) => (p matches Ok(s2) && yaml_docs_of(s2) == Some(docs@) && docs@.len()
                    > 0),
                Err(e) => match e {
                    YamlError::Malformed(_) => p == Err::<Seq<char>, PipelineOutcome>(
                        PipelineOutcome::Malformed,
                    ) || (p matches Ok(s2) && yaml_docs_of(s2) is None),
                    YamlError::EmptyDocument => p == Err::<Seq<char>, PipelineOutcome>(
                        PipelineOutcome::Empty,
                    ) || (p matches Ok(s2) && yaml_docs_of(s2) == Some(Seq::<Node>::empty())),
                    YamlError::UnresolvedKey(k) => p == Err::<Seq<char>, PipelineOutcome>(
                        PipelineOutcome::Unresolved(k@),
                    ),
                },
            }
        }),
{
    match read_yaml_string_from_string(yaml_str, cli_args, env_pairs) {
        Ok(s) => load_yaml_from_str(s.as_str()),
        Err(e) => Err(e),
    }
}

} // verus!
