use vstd::prelude::*;
use vstd::string::StrSliceExecFns;
use crate::node::Node;

verus! {

/// The views of a vector of strings, in order.
pub open spec fn views_of(v: Seq<String>) -> Seq<Seq<char>> {
    Seq::new(v.len(), |i: int| v[i]@)
}

/// Character-by-character equality of two string slices.
pub fn str_eq(a: &str, b: &str) -> (r: bool)
    ensures
        r == (a@ == b@),
{
    let na: usize = a.unicode_len();
    let nb: usize = b.unicode_len();
    if na != nb {
        return false;
    }
    let mut i: usize = 0;
    while i < na
        invariant
            na == a@.len(),
            nb == b@.len(),
            na == nb,
            i <= na,
            forall|j: int| 0 <= j < i ==> a@[j] == b@[j],
        decreases na - i,
    {
        if a.get_char(i) != b.get_char(i) {
            return false;
        }
        i += 1;
    }
    proof {
        assert(a@ =~= b@);
    }
    true
}

/// Splitting of a dotted key, one character at a time: every '.' ends
/// the segment before it; the empty key is one empty segment.
pub open spec fn split_dots_rec(k: Seq<char>, i: int, cur: Seq<char>) -> Seq<Seq<char>>
    decreases k.len() - i,
{
    if i < 0 || i >= k.len() {
        seq![cur]
    } else if k[i] == '.' {
        seq![cur] + split_dots_rec(k, i + 1, Seq::empty())
    } else {
        split_dots_rec(k, i + 1, cur.push(k[i]))
    }
}

/// The segments of a dotted key.
pub open spec fn split_dots(k: Seq<char>) -> Seq<Seq<char>> {
    split_dots_rec(k, 0, Seq::empty())
}

/// Splits a dotted key on '.' into its segments.
pub fn split_key(k: &str) -> (r: Vec<String>)
    ensures
        views_of(r@) == split_dots(k@),
{
    let n: usize = k.unicode_len();
    let mut segs: Vec<String> = Vec::new();
    let mut start: usize = 0;
    let mut i: usize = 0;
    proof {
        assert(k@.subrange(0, 0) =~= Seq::<char>::empty());
        assert(views_of(segs@) + split_dots_rec(k@, 0, Seq::<char>::empty()) =~= split_dots_rec(
            k@,
            0,
            Seq::<char>::empty(),
        ));
    }
    while i < n
        invariant
            n == k@.len(),
            start <= i && i <= n,
            split_dots(k@) == views_of(segs@) + split_dots_rec(
                k@,
                i as int,
                k@.subrange(start as int, i as int),
            ),
        decreases n - i,
    {
        let c = k.get_char(i);
        if c == '.' {
            let seg = k.substring_char(start, i);
            let ghost old_segs = segs@;
            segs.push(seg.to_owned());
            proof {
                assert(views_of(segs@) =~= views_of(old_segs) + seq![k@.subrange(
                    start as int,
                    i as int,
                )]);
                assert(views_of(old_segs) + (seq![k@.subrange(start as int, i as int)]
                    + split_dots_rec(k@, i as int + 1, Seq::empty())) =~= views_of(segs@)
                    + split_dots_rec(k@, i as int + 1, Seq::empty()));
                assert(k@.subrange(i as int + 1, i as int + 1) =~= Seq::<char>::empty());
            }
            start = i + 1;
        } else {
            proof {
                assert(k@.subrange(start as int, i as int).push(k@[i as int]) =~= k@.subrange(
                    start as int,
                    i as int + 1,
                ));
            }
        }
        i += 1;
    }
    let last = k.substring_char(start, n);
    let ghost old_segs = segs@;
    segs.push(last.to_owned());
    proof {
        assert(views_of(segs@) =~= views_of(old_segs) + seq![k@.subrange(start as int, n as int)]);
    }
    segs
}

/// A decimal digit character.
pub open spec fn is_digit(c: char) -> bool {
    48 <= c as u32 && c as u32 <= 57
}

/// The value of one decimal digit character.
pub open spec fn digit_val(c: char) -> nat {
    (c as u32 - 48) as nat
}

/// True when every character of the text is a decimal digit.
pub open spec fn all_digits(s: Seq<char>) -> bool {
    forall|i: int| 0 <= i < s.len() ==> is_digit(#[trigger] s[i])
}

/// The numeric value of a digit string, most significant digit first.
pub open spec fn digits_val(s: Seq<char>) -> nat
    decreases s.len(),
{
    if s.len() == 0 {
        0
    } else {
        digits_val(s.drop_last()) * 10 + digit_val(s.last())
    }
}

/// The text after an optional leading '+' sign.
pub open spec fn strip_plus(s: Seq<char>) -> Seq<char> {
    if s.len() > 0 && s[0] == '+' {
        s.drop_first()
    } else {
        s
    }
}

/// How a segment reads as a sequence index: an optional leading '+',
/// then one or more decimal digits, rejected when the value is over
/// the machine word's maximum.
pub open spec fn parse_index(s: Seq<char>) -> Option<nat> {
    let d = strip_plus(s);
    if d.len() > 0 && all_digits(d) && digits_val(d) <= usize::MAX as nat {
        Some(digits_val(d))
    } else {
        None
    }
}

/// A longer digit string never has a smaller value.
proof fn lemma_digits_val_prefix(s: Seq<char>, m: int)
    requires
        0 <= m <= s.len(),
    ensures
        digits_val(s) >= digits_val(s.subrange(0, m)),
    decreases s.len() - m,
{
    if m == s.len() {
        assert(s.subrange(0, m) =~= s);
    } else {
        lemma_digits_val_prefix(s, m + 1);
        assert(s.subrange(0, m + 1).drop_last() =~= s.subrange(0, m));
        assert(digits_val(s.subrange(0, m + 1)) >= digits_val(s.subrange(0, m)));
    }
}

/// Reads a segment as a sequence index, as the path resolver does.
pub fn parse_seg_index(s: &str) -> (r: Option<usize>)
    ensures
        match r {
            Some(v) => parse_index(s@) == Some(v as nat),
            None => parse_index(s@) is None,
        },
{
    let n: usize = s.unicode_len();
    let has_plus: bool = n > 0 && s.get_char(0) == '+';
    let start: usize = if has_plus {
        1
    } else {
        0
    };
    proof {
        assert(strip_plus(s@) =~= s@.subrange(start as int, n as int));
    }
    if start == n {
        return None;
    }
    let mut acc: usize = 0;
    let mut i: usize = start;
    while i < n
        invariant
            n == s@.len(),
            start <= i && i <= n,
            start < n,
            strip_plus(s@) =~= s@.subrange(start as int, n as int),
            acc as nat == digits_val(s@.subrange(start as int, i as int)),
            all_digits(s@.subrange(start as int, i as int)),
        decreases n - i,
    {
        let c = s.get_char(i);
        let u: u32 = c as u32;
        if u < 48 || u > 57 {
            proof {
                assert(strip_plus(s@)[i - start as int] == s@[i as int]);
                assert(!all_digits(strip_plus(s@)));
            }
            return None;
        }
        let d: usize = (u - 48) as usize;
        let limit: usize = usize::MAX / 10;
        let rem: usize = usize::MAX % 10;
        if acc > limit || (acc == limit && d > rem) {
            proof {
                let pre = s@.subrange(start as int, i as int + 1);
                assert(pre.drop_last() =~= s@.subrange(start as int, i as int));
                assert(digits_val(pre) > usize::MAX as nat);
                let full = strip_plus(s@);
                assert(pre =~= full.subrange(0, i + 1 - start as int));
                lemma_digits_val_prefix(full, i + 1 - start as int);
            }
            return None;
        }
        let ghost pre = s@.subrange(start as int, i as int + 1);
        proof {
            assert(pre.drop_last() =~= s@.subrange(start as int, i as int));
            assert(forall|j: int| 0 <= j < pre.len() ==> is_digit(#[trigger] pre[j]));
        }
        acc = acc * 10 + d;
        i += 1;
    }
    proof {
        assert(s@.subrange(start as int, n as int).len() > 0);
    }
    Some(acc)
}

/// One step of the walk: a sequence is indexed when the segment reads
/// as a number, a mapping is looked up by string key, and anything
/// else yields the absent-value sentinel.
pub open spec fn lookup_entries(entries: Seq<(Node, Node)>, key: Seq<char>) -> Node
    decreases entries.len(),
{
    if entries.len() == 0 {
        Node::BadValue
    } else {
        match entries[0].0 {
            Node::Str(s) => if s@ == key {
                entries[0].1
            } else {
                lookup_entries(entries.drop_first(), key)
            },
            _ => lookup_entries(entries.drop_first(), key),
        }
    }
}

/// Where one segment leads from a node.
pub open spec fn step_spec(n: Node, seg: Seq<char>) -> Node {
    match n {
        Node::Sequence(items) => match parse_index(seg) {
            Some(i) => if i < items@.len() {
                items@[i as int]
            } else {
                Node::BadValue
            },
            None => Node::BadValue,
        },
        Node::Mapping(entries) => lookup_entries(entries@, seg),
        _ => Node::BadValue,
    }
}

/// Where a whole segment list leads from a node; absence carries
/// forward as the sentinel.
pub open spec fn resolve_segs(n: Node, segs: Seq<Seq<char>>) -> Node
    decreases segs.len(),
{
    if segs.len() == 0 {
        n
    } else {
        resolve_segs(step_spec(n, segs[0]), segs.drop_first())
    }
}

/// The node a dotted key addresses, starting from `root`.
pub open spec fn resolve_path(root: Node, key: Seq<char>) -> Node {
    resolve_segs(root, split_dots(key))
}

/// Once the walk is at the sentinel, it stays there.
pub proof fn lemma_resolve_badvalue(segs: Seq<Seq<char>>)
    ensures
        resolve_segs(Node::BadValue, segs) is BadValue,
    decreases segs.len(),
{
    if segs.len() > 0 {
        lemma_resolve_badvalue(segs.drop_first());
    }
}

fn step_node<'a>(n: &'a Node, seg: &str) -> (r: Option<&'a Node>)
    ensures
        match r {
            Some(p) => *p == step_spec(*n, seg@),
            None => step_spec(*n, seg@) is BadValue,
        },
{
    match n {
        Node::Sequence(items) => match parse_seg_index(seg) {
            Some(i) => if i < items.len() {
                Some(&items[i])
            } else {
                None
            },
            None => None,
        },
        Node::Mapping(entries) => {
            let m: usize = entries.len();
            let mut j: usize = 0;
            proof {
                assert(*n == Node::Mapping(*entries));
                assert(entries@.skip(0) =~= entries@);
            }
            while j < m
                invariant
                    m == entries@.len(),
                    j <= m,
                    *n == Node::Mapping(*entries),
                    lookup_entries(entries@, seg@) == lookup_entries(
                        entries@.skip(j as int),
                        seg@,
                    ),
                decreases m - j,
            {
                proof {
                    assert(entries@.skip(j as int)[0] == entries@[j as int]);
                    assert(entries@.skip(j as int).drop_first() =~= entries@.skip(j as int + 1));
                }
                let entry = &entries[j];
                match &entry.0 {
                    Node::Str(s) => {
                        if str_eq(s.as_str(), seg) {
                            proof {
                                assert(lookup_entries(entries@.skip(j as int), seg@)
                                    == entries@[j as int].1);
                            }
                            return Some(&entry.1);
                        }
                    },
                    _ => {},
                }
                j += 1;
            }
            proof {
                assert(entries@.skip(m as int) =~= Seq::<(Node, Node)>::empty());
            }
            None
        },
        _ => None,
    }
}

/// Walks the tree along the dotted key's segments.
pub fn resolve_node<'a>(root: &'a Node, key: &str) -> (r: Option<&'a Node>)
    ensures
        match r {
            Some(p) => *p == resolve_path(*root, key@),
            None => resolve_path(*root, key@) is BadValue,
        },
{
    let segs = split_key(key);
    let mut cur: &Node = root;
    let m: usize = segs.len();
    let mut i: usize = 0;
    proof {
        assert(views_of(segs@).skip(0) =~= views_of(segs@));
    }
    while i < m
        invariant
            m == segs@.len(),
            i <= m,
            views_of(segs@) == split_dots(key@),
            resolve_path(*root, key@) == resolve_segs(*cur, views_of(segs@).skip(i as int)),
        decreases m - i,
    {
        proof {
            assert(views_of(segs@).skip(i as int)[0] == views_of(segs@)[i as int]);
            assert(views_of(segs@).skip(i as int).drop_first() =~= views_of(segs@).skip(
                i as int + 1,
            ));
        }
        let seg = &segs[i];
        match step_node(cur, seg.as_str()) {
            Some(p) => {
                cur = p;
            },
            None => {
                proof {
                    lemma_resolve_badvalue(views_of(segs@).skip(i as int).drop_first());
                }
                return None;
            },
        }
        i += 1;
    }
    proof {
        assert(views_of(segs@).skip(m as int) =~= Seq::<Seq<char>>::empty());
    }
    Some(cur)
}

} // verus!
