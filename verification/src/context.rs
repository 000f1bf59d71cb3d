use vstd::prelude::*;
use vstd::string::StrSliceExecFns;
use crate::node::Node;
use crate::node::stringify_spec;
use crate::node::get_string_from_yaml_object;
use crate::keypath::resolve_path;
use crate::keypath::resolve_node;
use crate::keypath::parse_index;
use crate::keypath::parse_seg_index;
use crate::keypath::str_eq;
use crate::keypath::views_of;

verus! {

/// A key-to-text resolver. Each context's answers are a function of
/// its captured sources and the key alone.
pub trait Context {
    /// What this context answers for a key.
    spec fn key_value(&self, key: Seq<char>) -> Option<Seq<char>>;

    /// Resolves one key, exactly as `key_value` says.
    fn get_value_from_key(&self, key: &str) -> (r: Option<String>)
        ensures
            match r {
                Some(s) => self.key_value(key@) == Some(s@),
                None => self.key_value(key@) is None,
            },
    ;
}

/// What a document answers for a dotted key: the stringified scalar
/// the path leads to; nothing for composites and absent paths.
pub open spec fn yaml_key_value(root: Node, key: Seq<char>) -> Option<Seq<char>> {
    stringify_spec(resolve_path(root, key))
}

/// The document context of the second pass: dotted keys resolved
/// against a fixed document root.
pub struct YamlContext<'a> {
    pub yaml: &'a Node,
}

impl<'a> Context for YamlContext<'a> {
    open spec fn key_value(&self, key: Seq<char>) -> Option<Seq<char>> {
        yaml_key_value(*self.yaml, key)
    }

    fn get_value_from_key(&self, key: &str) -> (r: Option<String>) {
        match resolve_node(self.yaml, key) {
            None => None,
            Some(found) => {
                if found.is_badvalue() {
                    None
                } else {
                    get_string_from_yaml_object(found)
                }
            },
        }
    }
}

/// The first value paired with a name, searching in order.
pub open spec fn env_lookup(pairs: Seq<(Seq<char>, Seq<char>)>, name: Seq<char>) -> Option<
    Seq<char>,
>
    decreases pairs.len(),
{
    if pairs.len() == 0 {
        None
    } else if pairs[0].0 == name {
        Some(pairs[0].1)
    } else {
        env_lookup(pairs.drop_first(), name)
    }
}

/// The views of an environment snapshot's pairs.
pub open spec fn pair_views(v: Seq<(String, String)>) -> Seq<(Seq<char>, Seq<char>)> {
    Seq::new(v.len(), |i: int| (v[i].0@, v[i].1@))
}

/// Whether a key carries the environment prefix "ENV:".
pub open spec fn has_env_prefix(key: Seq<char>) -> bool {
    key.len() >= 4 && key.subrange(0, 4) == "ENV:"@
}

/// What the external context answers: environment names after the
/// "ENV:" prefix, any other key as a position in the argument list.
pub open spec fn arg_env_value(
    args: Seq<Seq<char>>,
    env: Seq<(Seq<char>, Seq<char>)>,
    key: Seq<char>,
) -> Option<Seq<char>> {
    if has_env_prefix(key) {
        env_lookup(env, key.skip(4))
    } else {
        match parse_index(key) {
            Some(i) => if i < args.len() {
                Some(args[i as int])
            } else {
                None
            },
            None => None,
        }
    }
}

/// Looks a name up in an environment snapshot, first match in order.
pub fn get_env_str(pairs: &Vec<(String, String)>, key: &str) -> (r: Option<String>)
    ensures
        match r {
            Some(s) => env_lookup(pair_views(pairs@), key@) == Some(s@),
            None => env_lookup(pair_views(pairs@), key@) is None,
        },
{
    let m: usize = pairs.len();
    let mut j: usize = 0;
    proof {
        assert(pair_views(pairs@).skip(0) =~= pair_views(pairs@));
    }
    while j < m
        invariant
            m == pairs@.len(),
            j <= m,
            env_lookup(pair_views(pairs@), key@) == env_lookup(
                pair_views(pairs@).skip(j as int),
                key@,
            ),
        decreases m - j,
    {
        proof {
            assert(pair_views(pairs@).skip(j as int)[0] == pair_views(pairs@)[j as int]);
            assert(pair_views(pairs@).skip(j as int).drop_first() =~= pair_views(pairs@).skip(
                j as int + 1,
            ));
        }
        let pair = &pairs[j];
        if str_eq(pair.0.as_str(), key) {
            return Some(pair.1.clone());
        }
        j += 1;
    }
    proof {
        assert(pair_views(pairs@).skip(m as int) =~= Seq::<(Seq<char>, Seq<char>)>::empty());
    }
    None
}

/// The external context of the first pass: CLI arguments by position
/// and an environment snapshot by name.
pub struct ArgEnvContext {
    pub cli_args: Vec<String>,
    pub env_pairs: Vec<(String, String)>,
}

impl Context for ArgEnvContext {
    open spec fn key_value(&self, key: Seq<char>) -> Option<Seq<char>> {
        arg_env_value(views_of(self.cli_args@), pair_views(self.env_pairs@), key)
    }

    fn get_value_from_key(&self, key: &str) -> (r: Option<String>) {
        let n: usize = key.unicode_len();
        let is_env: bool = n >= 4 && key.get_char(0) == 'E' && key.get_char(1) == 'N'
            && key.get_char(2) == 'V' && key.get_char(3) == ':';
        proof {
            reveal_strlit("ENV:");
            if is_env {
                assert(key@.subrange(0, 4) =~= "ENV:"@);
            } else if key@.len() >= 4 {
                assert(key@.subrange(0, 4)[0] == key@[0]);
                assert(key@.subrange(0, 4)[1] == key@[1]);
                assert(key@.subrange(0, 4)[2] == key@[2]);
                assert(key@.subrange(0, 4)[3] == key@[3]);
            }
            assert(has_env_prefix(key@) == is_env);
        }
        if is_env {
            let name = key.substring_char(4, n);
            proof {
                assert(name@ =~= key@.skip(4));
            }
            get_env_str(&self.env_pairs, name)
        } else {
            match parse_seg_index(key) {
                Some(i) => if i < self.cli_args.len() {
                    proof {
                        assert(views_of(self.cli_args@)[i as int] == self.cli_args@[i as int]@);
                    }
                    Some(self.cli_args[i].clone())
                } else {
                    None
                },
                None => None,
            }
        }
    }
}

} // verus!
