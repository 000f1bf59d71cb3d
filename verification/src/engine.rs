use vstd::prelude::*;
use vstd::string::StrSliceExecFns;
use vstd::string::StringExecFns;
use crate::context::Context;

verus! {

/// Whether a placeholder opens at position `i`: the marker "${{".
pub open spec fn open_at(t: Seq<char>, i: int) -> bool {
    &&& 0 <= i
    &&& i + 3 <= t.len()
    &&& t[i] == '$'
    &&& t[i + 1] == '{'
    &&& t[i + 2] == '{'
}

/// Whether a placeholder closes at position `c`: the marker "}}".
pub open spec fn close_at(t: Seq<char>, c: int) -> bool {
    &&& 0 <= c
    &&& c + 2 <= t.len()
    &&& t[c] == '}'
    &&& t[c + 1] == '}'
}

/// The first position at or after `i` where a placeholder opens.
pub open spec fn find_open(t: Seq<char>, i: int) -> Option<int>
    decreases t.len() - i,
{
    if i + 3 > t.len() {
        None
    } else if open_at(t, i) {
        Some(i)
    } else {
        find_open(t, i + 1)
    }
}

/// The first position at or after `c` where a placeholder closes.
pub open spec fn find_close(t: Seq<char>, c: int) -> Option<int>
    decreases t.len() - c,
{
    if c + 2 > t.len() {
        None
    } else if close_at(t, c) {
        Some(c)
    } else {
        find_close(t, c + 1)
    }
}

/// What `find_open` returns is the first opening marker, in bounds.
pub proof fn lemma_find_open_bounds(t: Seq<char>, i: int)
    ensures
        match find_open(t, i) {
            Some(o) => i <= o && o + 3 <= t.len() && open_at(t, o) && (forall|j: int|
                i <= j < o ==> !open_at(t, j)),
            None => forall|j: int| i <= j ==> !open_at(t, j),
        },
    decreases t.len() - i,
{
    if i + 3 > t.len() {
    } else if open_at(t, i) {
    } else {
        lemma_find_open_bounds(t, i + 1);
    }
}

/// What `find_close` returns is the first closing marker, in bounds.
pub proof fn lemma_find_close_bounds(t: Seq<char>, c: int)
    ensures
        match find_close(t, c) {
            Some(e) => c <= e && e + 2 <= t.len() && close_at(t, e) && (forall|j: int|
                c <= j < e ==> !close_at(t, j)),
            None => forall|j: int| c <= j ==> !close_at(t, j),
        },
    decreases t.len() - c,
{
    if c + 2 > t.len() {
    } else if close_at(t, c) {
    } else {
        lemma_find_close_bounds(t, c + 1);
    }
}

/// The blank characters stripped from both ends of a key.
pub open spec fn is_space(c: char) -> bool {
    c == ' ' || c == '\t' || c == '\n' || c == '\r'
}

/// The text with leading blanks removed.
pub open spec fn trim_left(s: Seq<char>) -> Seq<char>
    decreases s.len(),
{
    if s.len() > 0 && is_space(s[0]) {
        trim_left(s.drop_first())
    } else {
        s
    }
}

/// The text with trailing blanks removed.
pub open spec fn trim_right(s: Seq<char>) -> Seq<char>
    decreases s.len(),
{
    if s.len() > 0 && is_space(s.last()) {
        trim_right(s.drop_last())
    } else {
        s
    }
}

/// The text with blanks removed at both ends.
pub open spec fn trim_spaces(s: Seq<char>) -> Seq<char> {
    trim_right(trim_left(s))
}

/// The resolver a context stands for.
pub open spec fn resolver_of<C: Context>(ctx: &C) -> spec_fn(Seq<char>) -> Option<Seq<char>> {
    |k: Seq<char>| ctx.key_value(k)
}

/// One pass of substitution over the text from position `i` on:
/// each placeholder's trimmed key is put to the resolver; a hit is
/// replaced by the value, scanning on after the closing marker; a
/// miss is the first error in the strict mode and is kept verbatim
/// otherwise. An unclosed opening marker is kept verbatim.
pub open spec fn subst_from(
    t: Seq<char>,
    i: int,
    r: spec_fn(Seq<char>) -> Option<Seq<char>>,
    strict: bool,
) -> Result<Seq<char>, Seq<char>>
    decreases t.len() - i,
        via subst_from_decreases
{
    if !(0 <= i <= t.len()) {
        Ok(Seq::empty())
    } else {
        match find_open(t, i) {
            None => Ok(t.subrange(i, t.len() as int)),
            Some(o) => match find_close(t, o + 3) {
                None => Ok(t.subrange(i, t.len() as int)),
                Some(c) => {
                    let key = trim_spaces(t.subrange(o + 3, c));
                    match r(key) {
                        Some(v) => match subst_from(t, c + 2, r, strict) {
                            Ok(rest) => Ok(t.subrange(i, o) + v + rest),
                            Err(k) => Err(k),
                        },
                        None => if strict {
                            Err(key)
                        } else {
                            match subst_from(t, c + 2, r, strict) {
                                Ok(rest) => Ok(t.subrange(i, c + 2) + rest),
                                Err(k) => Err(k),
                            }
                        },
                    }
                },
            },
        }
    }
}

#[via_fn]
proof fn subst_from_decreases(
    t: Seq<char>,
    i: int,
    r: spec_fn(Seq<char>) -> Option<Seq<char>>,
    strict: bool,
) {
    lemma_find_open_bounds(t, i);
    match find_open(t, i) {
        Some(o) => {
            lemma_find_close_bounds(t, o + 3);
        },
        None => {},
    }
}

/// In the lenient mode no key can fail the pass.
pub proof fn lemma_ignore_total(t: Seq<char>, i: int, r: spec_fn(Seq<char>) -> Option<Seq<char>>)
    ensures
        subst_from(t, i, r, false) is Ok,
    decreases t.len() - i,
{
    if 0 <= i <= t.len() {
        lemma_find_open_bounds(t, i);
        match find_open(t, i) {
            None => {},
            Some(o) => {
                lemma_find_close_bounds(t, o + 3);
                match find_close(t, o + 3) {
                    None => {},
                    Some(c) => {
                        lemma_ignore_total(t, c + 2, r);
                    },
                }
            },
        }
    }
}

/// Text without an opening marker comes back unchanged, in either
/// failure mode: substitution of a placeholder-free document is the
/// identity.
pub proof fn lemma_no_placeholders_identity(
    t: Seq<char>,
    r: spec_fn(Seq<char>) -> Option<Seq<char>>,
    strict: bool,
)
    requires
        forall|j: int| !open_at(t, j),
    ensures
        subst_from(t, 0, r, strict) == Ok::<Seq<char>, Seq<char>>(t),
{
    lemma_find_open_bounds(t, 0);
    match find_open(t, 0) {
        Some(o) => {
            assert(open_at(t, o));
        },
        None => {},
    }
    assert(t.subrange(0, t.len() as int) =~= t);
}

fn is_space_char(c: char) -> (r: bool)
    ensures
        r == is_space(c),
{
    c == ' ' || c == '\t' || c == '\n' || c == '\r'
}

fn find_open_str(t: &str, i: usize) -> (r: Option<usize>)
    requires
        i <= t@.len(),
    ensures
        match r {
            Some(o) => find_open(t@, i as int) == Some(o as int) && i <= o && o + 3 <= t@.len(),
            None => find_open(t@, i as int) is None,
        },
{
    let n: usize = t.unicode_len();
    let mut j: usize = i;
    while n - j >= 3
        invariant
            n == t@.len(),
            i <= j && j <= n,
            find_open(t@, i as int) == find_open(t@, j as int),
        decreases n - j,
    {
        let c0 = t.get_char(j);
        let c1 = t.get_char(j + 1);
        let c2 = t.get_char(j + 2);
        if c0 == '$' && c1 == '{' && c2 == '{' {
            proof {
                assert(open_at(t@, j as int));
            }
            return Some(j);
        }
        proof {
            assert(!open_at(t@, j as int));
        }
        j += 1;
    }
    None
}

fn find_close_str(t: &str, i: usize) -> (r: Option<usize>)
    requires
        i <= t@.len(),
    ensures
        match r {
            Some(c) => find_close(t@, i as int) == Some(c as int) && i <= c && c + 2 <= t@.len(),
            None => find_close(t@, i as int) is None,
        },
{
    let n: usize = t.unicode_len();
    let mut j: usize = i;
    while n - j >= 2
        invariant
            n == t@.len(),
            i <= j && j <= n,
            find_close(t@, i as int) == find_close(t@, j as int),
        decreases n - j,
    {
        let c0 = t.get_char(j);
        let c1 = t.get_char(j + 1);
        if c0 == '}' && c1 == '}' {
            proof {
                assert(close_at(t@, j as int));
            }
            return Some(j);
        }
        proof {
            assert(!close_at(t@, j as int));
        }
        j += 1;
    }
    None
}

fn trim_str(t: &str) -> (r: String)
    ensures
        r@ == trim_spaces(t@),
{
    let n: usize = t.unicode_len();
    let mut start: usize = 0;
    proof {
        assert(t@.subrange(0, n as int) =~= t@);
    }
    while start < n && is_space_char(t.get_char(start))
        invariant
            n == t@.len(),
            start <= n,
            trim_left(t@) == trim_left(t@.subrange(start as int, n as int)),
        decreases n - start,
    {
        proof {
            assert(t@.subrange(start as int, n as int).drop_first() =~= t@.subrange(
                start as int + 1,
                n as int,
            ));
        }
        start += 1;
    }
    proof {
        assert(trim_left(t@) == t@.subrange(start as int, n as int));
    }
    let mut end: usize = n;
    while end > start && is_space_char(t.get_char(end - 1))
        invariant
            n == t@.len(),
            start <= end && end <= n,
            trim_left(t@) == t@.subrange(start as int, n as int),
            trim_right(t@.subrange(start as int, n as int)) == trim_right(
                t@.subrange(start as int, end as int),
            ),
        decreases end,
    {
        proof {
            assert(t@.subrange(start as int, end as int).drop_last() =~= t@.subrange(
                start as int,
                end as int - 1,
            ));
        }
        end -= 1;
    }
    proof {
        assert(trim_spaces(t@) == t@.subrange(start as int, end as int));
    }
    t.substring_char(start, end).to_owned()
}

/// The engine's one pass, from position `i` of the text.
fn subst_from_str<C: Context>(t: &str, i: usize, ctx: &C, strict: bool) -> (res: Result<
    String,
    String,
>)
    requires
        i <= t@.len(),
    ensures
        match res {
            Ok(s) => subst_from(t@, i as int, resolver_of(ctx), strict) == Ok::<
                Seq<char>,
                Seq<char>,
            >(s@),
            Err(k) => subst_from(t@, i as int, resolver_of(ctx), strict) == Err::<
                Seq<char>,
                Seq<char>,
            >(k@),
        },
    decreases t@.len() - i,
{
    let n: usize = t.unicode_len();
    match find_open_str(t, i) {
        None => Ok(t.substring_char(i, n).to_owned()),
        Some(o) => match find_close_str(t, o + 3) {
            None => Ok(t.substring_char(i, n).to_owned()),
            Some(c) => {
                let raw = t.substring_char(o + 3, c);
                let key = trim_str(raw);
                match ctx.get_value_from_key(key.as_str()) {
                    Some(v) => match subst_from_str(t, c + 2, ctx, strict) {
                        Ok(rest) => {
                            let mut out = t.substring_char(i, o).to_owned();
                            out.append(v.as_str());
                            out.append(rest.as_str());
                            proof {
                                assert(out@ =~= t@.subrange(i as int, o as int) + v@ + rest@);
                            }
                            Ok(out)
                        },
                        Err(k) => Err(k),
                    },
                    None => if strict {
                        Err(key)
                    } else {
                        match subst_from_str(t, c + 2, ctx, strict) {
                            Ok(rest) => {
                                let mut out = t.substring_char(i, c + 2).to_owned();
                                out.append(rest.as_str());
                                proof {
                                    assert(out@ =~= t@.subrange(i as int, c as int + 2) + rest@);
                                }
                                Ok(out)
                            },
                            Err(k) => Err(k),
                        }
                    },
                }
            },
        },
    }
}

/// The first, lenient pass: a key the context cannot resolve keeps
/// its placeholder text.
pub fn substitute_ignore<C: Context>(text: &str, ctx: &C) -> (r: String)
    ensures
        subst_from(text@, 0, resolver_of(ctx), false) == Ok::<Seq<char>, Seq<char>>(r@),
{
    proof {
        lemma_ignore_total(text@, 0, resolver_of(ctx));
    }
    match subst_from_str(text, 0, ctx, false) {
        Ok(s) => s,
        Err(k) => {
            proof {
                assert(false);
            }
            k
        },
    }
}

/// The second, strict pass: the first key the context cannot resolve
/// is returned as the error.
pub fn substitute_strict<C: Context>(text: &str, ctx: &C) -> (r: Result<String, String>)
    ensures
        match r {
            Ok(s) => subst_from(text@, 0, resolver_of(ctx), true) == Ok::<Seq<char>, Seq<char>>(
                s@,
            ),
            Err(k) => subst_from(text@, 0, resolver_of(ctx), true) == Err::<Seq<char>, Seq<char>>(
                k@,
            ),
        },
{
    subst_from_str(text, 0, ctx, true)
}

} // verus!
