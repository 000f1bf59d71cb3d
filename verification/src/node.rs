use vstd::prelude::*;
use crate::numtext::dec_str_int;
use crate::numtext::i64_to_dec;

verus! {

/// One node of a parsed YAML document tree. Mapping entries keep the
/// parser's order; a key may be any node, though only string keys take
/// part in dotted-path lookup.
#[derive(Debug)]
pub enum Node {
    Real(String),
    Integer(i64),
    Str(String),
    Boolean(bool),
    Sequence(Vec<Node>),
    Mapping(Vec<(Node, Node)>),
    Alias(usize),
    Null,
    BadValue,
}

/// True of the nodes that carry a single value with no children.
pub open spec fn is_scalar(n: Node) -> bool {
    match n {
        Node::Real(_) => true,
        Node::Integer(_) => true,
        Node::Str(_) => true,
        Node::Boolean(_) => true,
        Node::Null => true,
        _ => false,
    }
}

/// The short name of a node's kind.
pub open spec fn node_kind_text(n: Node) -> Seq<char> {
    match n {
        Node::Real(_) => "real"@,
        Node::Integer(_) => "integer"@,
        Node::Str(_) => "string"@,
        Node::Boolean(_) => "boolean"@,
        Node::Sequence(_) => "array"@,
        Node::Mapping(_) => "object"@,
        Node::Alias(_) => "alias"@,
        Node::Null => "null"@,
        Node::BadValue => "BAD_YAML_VALUE"@,
    }
}

/// The text a placeholder expands to when it points at this node:
/// scalars have a textual form, composite nodes have none.
pub open spec fn stringify_spec(n: Node) -> Option<Seq<char>> {
    match n {
        Node::Real(r) => Some(r@),
        Node::Integer(i) => Some(dec_str_int(i as int)),
        Node::Str(s) => Some(s@),
        Node::Boolean(b) => Some(if b {
            "true"@
        } else {
            "false"@
        }),
        Node::Null => Some("null"@),
        _ => None,
    }
}

impl Node {
    /// Whether this node is a sequence.
    pub fn is_array(&self) -> (r: bool)
        ensures
            r == (self is Sequence),
    {
        match self {
            Node::Sequence(_) => true,
            _ => false,
        }
    }

    /// Whether this node is the absent-value sentinel.
    pub fn is_badvalue(&self) -> (r: bool)
        ensures
            r == (self is BadValue),
    {
        match self {
            Node::BadValue => true,
            _ => false,
        }
    }
}

/// The short name of a node's kind, as text.
pub fn get_yaml_type(yaml_obj: &Node) -> (r: String)
    ensures
        r@ == node_kind_text(*yaml_obj),
{
    match yaml_obj {
        Node::Real(_) => "real".to_owned(),
        Node::Integer(_) => "integer".to_owned(),
        Node::Str(_) => "string".to_owned(),
        Node::Boolean(_) => "boolean".to_owned(),
        Node::Sequence(_) => "array".to_owned(),
        Node::Mapping(_) => "object".to_owned(),
        Node::Alias(_) => "alias".to_owned(),
        Node::Null => "null".to_owned(),
        Node::BadValue => "BAD_YAML_VALUE".to_owned(),
    }
}

/// The scalar stringifier: the inline text for a scalar node, `None`
/// for sequences, mappings, aliases and the absent-value sentinel.
pub fn get_string_from_yaml_object(yaml_obj: &Node) -> (r: Option<String>)
    ensures
        match r {
            Some(s) => stringify_spec(*yaml_obj) == Some(s@),
            None => stringify_spec(*yaml_obj) is None,
        },
{
    match yaml_obj {
        Node::Real(t) => Some(t.clone()),
        Node::Integer(i) => Some(i64_to_dec(*i)),
        Node::Str(s) => Some(s.clone()),
        Node::Boolean(b) => Some(
            if *b {
                "true".to_owned()
            } else {
                "false".to_owned()
            },
        ),
        Node::Null => Some("null".to_owned()),
        _ => None,
    }
}

} // verus!
