use vstd::prelude::*;
use crate::node::Node;
use crate::node::is_scalar;
use crate::numtext::digit_char;
use crate::numtext::dec_str_nat;
use crate::keypath::is_digit;
use crate::keypath::digit_val;
use crate::keypath::all_digits;
use crate::keypath::digits_val;
use crate::keypath::strip_plus;
use crate::keypath::parse_index;
use crate::keypath::step_spec;
use crate::keypath::resolve_path;
use crate::context::yaml_key_value;
use crate::engine::open_at;
use crate::engine::lemma_no_placeholders_identity;
use crate::pipeline::PipelineOutcome;
use crate::pipeline::pipeline_spec;
use crate::pipeline::stage_one;
use crate::pipeline::yaml_docs_of;
use crate::pipeline::external_resolver;
use crate::pipeline::doc_resolver;

verus! {

/// Every character of a decimal rendering is a digit.
proof fn lemma_dec_str_digits(n: nat)
    ensures
        dec_str_nat(n).len() > 0,
        all_digits(dec_str_nat(n)),
    decreases n,
{
    if n < 10 {
        assert(is_digit(digit_char(n)));
        assert(all_digits(dec_str_nat(n)));
    } else {
        lemma_dec_str_digits(n / 10);
        assert(is_digit(digit_char(n % 10)));
        assert(forall|i: int|
            0 <= i < dec_str_nat(n).len() ==> is_digit(#[trigger] dec_str_nat(n)[i]));
    }
}

/// Reading a decimal rendering back gives the value itself.
proof fn lemma_dec_str_value(n: nat)
    ensures
        digits_val(dec_str_nat(n)) == n,
    decreases n,
{
    if n < 10 {
        assert(dec_str_nat(n).drop_last() =~= Seq::<char>::empty());
        assert(dec_str_nat(n).last() == digit_char(n));
        assert(digit_val(digit_char(n)) == n);
        assert(digits_val(Seq::<char>::empty()) == 0);
    } else {
        lemma_dec_str_value(n / 10);
        assert(dec_str_nat(n).drop_last() =~= dec_str_nat(n / 10));
        assert(dec_str_nat(n).last() == digit_char(n % 10));
        assert(digit_val(digit_char(n % 10)) == n % 10);
        assert(digits_val(dec_str_nat(n)) == digits_val(dec_str_nat(n / 10)) * 10 + digit_val(
            digit_char(n % 10),
        ));
        assert(n / 10 * 10 + n % 10 == n) by (nonlinear_arith);
    }
}

/// The round trip of printing and parsing an index: the decimal text
/// of a machine-sized value reads back as exactly that value.
pub proof fn lemma_parse_dec_roundtrip(n: nat)
    requires
        n <= usize::MAX as nat,
    ensures
        parse_index(dec_str_nat(n)) == Some(n),
{
    lemma_dec_str_digits(n);
    lemma_dec_str_value(n);
    assert(is_digit(dec_str_nat(n)[0]));
    assert(dec_str_nat(n)[0] != '+');
    assert(strip_plus(dec_str_nat(n)) =~= dec_str_nat(n));
}

/// Sequence indexing: a sequence node stepped with the decimal text
/// of `i` yields its `i`-th element when there is one, and absence
/// when the index is out of range.
pub proof fn lemma_sequence_indexing(items: Vec<Node>, i: usize)
    ensures
        step_spec(Node::Sequence(items), dec_str_nat(i as nat)) == (if (i as int) < items@.len() {
            items@[i as int]
        } else {
            Node::BadValue
        }),
{
    lemma_parse_dec_roundtrip(i as nat);
}

/// Round trip: a text without a placeholder marker that parses to at
/// least one document comes out of the whole pipeline unchanged,
/// whatever the arguments and the environment hold.
pub proof fn lemma_pipeline_identity(
    text: Seq<char>,
    args: Seq<Seq<char>>,
    env: Seq<(Seq<char>, Seq<char>)>,
)
    requires
        forall|j: int| !open_at(text, j),
        yaml_docs_of(text) matches Some(docs) && docs.len() > 0,
    ensures
        pipeline_spec(text, args, env) == Ok::<Seq<char>, PipelineOutcome>(text),
{
    lemma_no_placeholders_identity(text, external_resolver(args, env), false);
    assert(stage_one(text, args, env) == text);
    match yaml_docs_of(text) {
        Some(docs) => {
            lemma_no_placeholders_identity(text, doc_resolver(docs[0]), true);
        },
        None => {
            assert(false);
        },
    }
}

/// Composite-target rejection: a dotted key whose target is not a
/// scalar never resolves to text, so either pass treats it as an
/// unresolved key.
pub proof fn lemma_composite_target_rejected(root: Node, key: Seq<char>)
    requires
        !is_scalar(resolve_path(root, key)),
    ensures
        yaml_key_value(root, key) is None,
{
}

} // verus!
