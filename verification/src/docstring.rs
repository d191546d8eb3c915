//! Docstring extraction: the leading string-literal statement of a body is
//! the docstring; its lines are stripped of the uniform four-space
//! indentation of their nesting level, and the result is trimmed.

use vstd::prelude::*;
use crate::object_ref::line_end_from;
use crate::pymodel::PyStatement;
use crate::text::{char_is_space, chars_to_string, is_space, str_to_chars, trim_range, trimmed};

verus! {

/// `l` without a trailing carriage return.
pub open spec fn strip_cr(l: Seq<char>) -> Seq<char> {
    if l.len() > 0 && l[l.len() - 1] == '\r' {
        l.drop_last()
    } else {
        l
    }
}

/// The lines of `s` from position `p` on, split at line breaks, each
/// without its line break and without a trailing carriage return; a final
/// line break opens no further line.
pub open spec fn split_lines_from(s: Seq<char>, p: int) -> Seq<Seq<char>>
    recommends
        0 <= p,
    decreases s.len() - p,
    via split_lines_from_decreases
{
    if p < 0 || p >= s.len() {
        Seq::empty()
    } else {
        let e = line_end_from(s, p);
        let line = strip_cr(s.subrange(p, e));
        if e >= s.len() {
            seq![line]
        } else {
            seq![line] + split_lines_from(s, e + 1)
        }
    }
}

#[via_fn]
proof fn split_lines_from_decreases(s: Seq<char>, p: int) {
    if 0 <= p && p < s.len() {
        crate::object_ref::lemma_line_end_from_bounds(s, p);
    }
}

/// The lines of `s`, as `str::lines` yields them.
pub open spec fn split_lines(s: Seq<char>) -> Seq<Seq<char>> {
    split_lines_from(s, 0)
}

/// A line dedented by `indent` levels of four spaces: an empty line or one
/// opening with a non-space character is kept; one opening with white space
/// loses the four-space prefix where it is present in full, and is kept
/// unchanged otherwise.
pub open spec fn dedent_line(l: Seq<char>, indent: nat) -> Seq<char> {
    let plen = 4 * (indent as int);
    if l.len() == 0 || !is_space(l[0]) {
        l
    } else if plen <= l.len() && (forall|k: int| 0 <= k < plen ==> l[k] == ' ') {
        l.subrange(plen, l.len() as int)
    } else {
        l
    }
}

/// The lines joined back with line breaks.
pub open spec fn join_lines(ls: Seq<Seq<char>>) -> Seq<char>
    decreases ls.len(),
{
    if ls.len() == 0 {
        Seq::empty()
    } else if ls.len() == 1 {
        ls[0]
    } else {
        join_lines(ls.drop_last()) + seq!['\n'] + ls.last()
    }
}

/// The docstring text produced from the raw string literal `raw` at nesting
/// level `indent`: every line dedented, the lines rejoined, and the whole
/// trimmed.
pub open spec fn dedented_docstring(raw: Seq<char>, indent: nat) -> Seq<char> {
    trimmed(join_lines(split_lines(raw).map_values(|l: Seq<char>| dedent_line(l, indent))))
}

/// The docstring of a statement body: the text of a leading string-literal
/// statement, dedented, or nothing.
pub open spec fn docstring_of_body(body: Seq<PyStatement>, indent: nat) -> Option<Seq<char>> {
    if body.len() > 0 {
        match body[0] {
            PyStatement::StringLiteral(s) => Some(dedented_docstring(s@, indent)),
            _ => None,
        }
    } else {
        None
    }
}

/// The characters `v@.subrange(lo, hi)` as a fresh vector.
pub fn chars_range_to_vec(v: &Vec<char>, lo: usize, hi: usize) -> (r: Vec<char>)
    requires
        lo <= hi <= v@.len(),
    ensures
        r@ == v@.subrange(lo as int, hi as int),
{
    let mut r: Vec<char> = Vec::new();
    let mut i = lo;
    while i < hi
        invariant
            lo <= i <= hi <= v@.len(),
            r@ == v@.subrange(lo as int, i as int),
        decreases hi - i,
    {
        r.push(v[i]);
        i = i + 1;
        assert(r@ =~= v@.subrange(lo as int, i as int));
    }
    assert(r@ =~= v@.subrange(lo as int, hi as int));
    r
}

/// The views of a vector of character vectors.
pub open spec fn line_views(ls: Seq<Vec<char>>) -> Seq<Seq<char>> {
    ls.map_values(|l: Vec<char>| l@)
}

/// Splits `v` into its lines.
pub fn split_into_lines(v: &Vec<char>) -> (ls: Vec<Vec<char>>)
    ensures
        line_views(ls@) == split_lines(v@),
{
    let ghost s = v@;
    let mut ls: Vec<Vec<char>> = Vec::new();
    let mut p: usize = 0;
    while p < v.len()
        invariant
            p <= v@.len(),
            s == v@,
            split_lines(s) == line_views(ls@) + split_lines_from(s, p as int),
        decreases v@.len() - p,
    {
        let e = crate::object_ref::find_line_end(v, p);
        let e2 = if e > p && v[e - 1] == '\r' {
            e - 1
        } else {
            e
        };
        let line = chars_range_to_vec(v, p, e2);
        proof {
            assert(line@ == strip_cr(s.subrange(p as int, e as int)));
        }
        let ghost old_ls = ls@;
        ls.push(line);
        proof {
            assert(line_views(ls@) =~= line_views(old_ls) + seq![line@]);
        }
        if e < v.len() {
            p = e + 1;
        } else {
            p = e;
            assert(split_lines_from(s, p as int) =~= Seq::<Seq<char>>::empty());
        }
    }
    proof {
        assert(split_lines_from(s, p as int) =~= Seq::<Seq<char>>::empty());
        assert(line_views(ls@) =~= line_views(ls@) + Seq::<Seq<char>>::empty());
    }
    ls
}

/// Dedents one line by `indent` levels of four spaces.
pub fn dedent_line_vec(l: &Vec<char>, indent: usize) -> (r: Vec<char>)
    ensures
        r@ == dedent_line(l@, indent as nat),
{
    if l.len() == 0 || !char_is_space(l[0]) {
        return chars_range_to_vec(l, 0, l.len());
    }
    if indent <= l.len() / 4 {
        let plen = 4 * indent;
        if all_spaces_prefix(l, plen) {
            return chars_range_to_vec(l, plen, l.len());
        }
    }
    chars_range_to_vec(l, 0, l.len())
}

/// The first `plen` characters of `l` are all plain spaces.
fn all_spaces_prefix(l: &Vec<char>, plen: usize) -> (r: bool)
    requires
        plen <= l@.len(),
    ensures
        r == (forall|j: int| 0 <= j < plen ==> l@[j] == ' '),
{
    let mut k: usize = 0;
    while k < plen
        invariant
            k <= plen <= l@.len(),
            forall|j: int| 0 <= j < k ==> l@[j] == ' ',
        decreases plen - k,
    {
        if l[k] != ' ' {
            return false;
        }
        k = k + 1;
    }
    true
}

/// Joins lines with line breaks.
pub fn join_line_vecs(ls: &Vec<Vec<char>>) -> (r: Vec<char>)
    ensures
        r@ == join_lines(line_views(ls@)),
{
    let mut out: Vec<char> = Vec::new();
    let mut i: usize = 0;
    while i < ls.len()
        invariant
            i <= ls@.len(),
            out@ == join_lines(line_views(ls@).take(i as int)),
        decreases ls@.len() - i,
    {
        let ghost views = line_views(ls@);
        if i > 0 {
            out.push('\n');
        }
        let line = &ls[i];
        let mut k: usize = 0;
        let ghost out_before = out@;
        while k < line.len()
            invariant
                k <= line@.len(),
                out@ == out_before + line@.subrange(0, k as int),
            decreases line@.len() - k,
        {
            out.push(line[k]);
            k = k + 1;
            assert(out@ =~= out_before + line@.subrange(0, k as int));
        }
        i = i + 1;
        proof {
            assert(line@.subrange(0, line@.len() as int) =~= line@);
            assert(views.take(i as int).drop_last() =~= views.take(i as int - 1));
            assert(views.take(i as int).last() == views[i as int - 1]);
            assert(views[i as int - 1] == line@);
            if i == 1 {
                assert(out@ =~= views.take(1)[0]);
            } else {
                assert(out@ =~= join_lines(views.take(i as int - 1)) + seq!['\n'] + line@);
            }
        }
    }
    proof {
        assert(line_views(ls@).take(ls@.len() as int) =~= line_views(ls@));
    }
    out
}

/// Produces the dedented, trimmed docstring text from a raw string literal.
pub fn dedent_docstring(raw: &str, indent_level: usize) -> (r: String)
    ensures
        r@ == dedented_docstring(raw@, indent_level as nat),
{
    let v = str_to_chars(raw);
    let lines = split_into_lines(&v);
    let mut ded: Vec<Vec<char>> = Vec::new();
    let mut i: usize = 0;
    while i < lines.len()
        invariant
            i <= lines@.len(),
            line_views(lines@) == split_lines(v@),
            line_views(ded@) == split_lines(v@).take(i as int).map_values(
                |l: Seq<char>| dedent_line(l, indent_level as nat),
            ),
        decreases lines@.len() - i,
    {
        let d = dedent_line_vec(&lines[i], indent_level);
        let ghost old_ded = ded@;
        ded.push(d);
        i = i + 1;
        proof {
            assert(line_views(lines@)[i as int - 1] == lines@[i as int - 1]@);
            assert(line_views(ded@) =~= line_views(old_ded) + seq![d@]);
            assert(split_lines(v@).take(i as int).map_values(
                |l: Seq<char>| dedent_line(l, indent_level as nat),
            ) =~= split_lines(v@).take(i as int - 1).map_values(
                |l: Seq<char>| dedent_line(l, indent_level as nat),
            ) + seq![dedent_line(split_lines(v@)[i as int - 1], indent_level as nat)]);
        }
    }
    proof {
        assert(split_lines(v@).take(split_lines(v@).len() as int) =~= split_lines(v@));
    }
    let joined = join_line_vecs(&ded);
    let (a, b) = trim_range(&joined, 0, joined.len());
    proof {
        assert(joined@.subrange(0, joined@.len() as int) =~= joined@);
    }
    chars_to_string(&chars_range_to_vec(&joined, a, b))
}

/// Extracts the docstring of a statement body, if its first statement is a
/// string literal, dedented by `indent_level` levels and trimmed.
pub fn extract_docstring_from_body(body: &Vec<PyStatement>, indent_level: usize) -> (r: Option<
    String,
>)
    ensures
        match r {
            Some(s) => docstring_of_body(body@, indent_level as nat) == Some(s@),
            None => docstring_of_body(body@, indent_level as nat) is None,
        },
{
    if body.len() == 0 {
        return None;
    }
    match &body[0] {
        PyStatement::StringLiteral(s) => Some(dedent_docstring(s.as_str(), indent_level)),
        _ => None,
    }
}

} // verus!
