//! Path-shaped string utilities: splitting a relative file path into
//! segments, stripping a file extension, and joining parts into an import
//! path.

use vstd::prelude::*;
use crate::text::str_to_chars;

verus! {

/// The index of the first occurrence of `c` in `s` at or after `p`, or
/// `s.len()` if there is none.
pub open spec fn scan_to_char(s: Seq<char>, p: int, c: char) -> int
    recommends
        0 <= p <= s.len(),
    decreases s.len() - p,
{
    if p >= s.len() {
        s.len() as int
    } else if s[p] == c {
        p
    } else {
        scan_to_char(s, p + 1, c)
    }
}

pub proof fn lemma_scan_to_char_bounds(s: Seq<char>, p: int, c: char)
    requires
        0 <= p <= s.len(),
    ensures
        p <= scan_to_char(s, p, c) <= s.len(),
    decreases s.len() - p,
{
    if p < s.len() && s[p] != c {
        lemma_scan_to_char_bounds(s, p + 1, c);
    }
}

/// The index of the last occurrence of `c` in `s` within `[lo, hi)`, or
/// `-1` if there is none.
pub open spec fn last_index_of(s: Seq<char>, c: char, lo: int, hi: int) -> int
    recommends
        0 <= lo,
        hi <= s.len(),
    decreases hi - lo,
{
    if hi <= lo {
        -1
    } else if s[hi - 1] == c {
        hi - 1
    } else {
        last_index_of(s, c, lo, hi - 1)
    }
}

/// Searching a subrange for the last occurrence of `c` mirrors searching
/// the underlying text, shifted by the subrange's start.
pub proof fn lemma_last_index_of_subrange(s: Seq<char>, c: char, b0: int, b1: int, h: int)
    requires
        0 <= b0 < b1 <= s.len(),
        h <= b1,
    ensures
        ({
            let g = last_index_of(s, c, b0 + 1, h);
            let r = last_index_of(s.subrange(b0, b1), c, 1, h - b0);
            (g == -1 && r == -1) || (g >= 0 && r == g - b0)
        }),
    decreases h,
{
    if h - 1 >= b0 + 1 {
        assert(s.subrange(b0, b1)[h - 1 - b0] == s[h - 1]);
        if s[h - 1] != c {
            lemma_last_index_of_subrange(s, c, b0, b1, h - 1);
        }
    }
}

/// The non-empty segments of a path-shaped string from `p` on, split at
/// `/` separators.
pub open spec fn path_segments_from(s: Seq<char>, p: int) -> Seq<Seq<char>>
    recommends
        0 <= p,
    decreases s.len() - p, 1int,
    via path_segments_from_decreases
{
    if p < 0 || p >= s.len() {
        Seq::empty()
    } else if s[p] == '/' {
        path_segments_from(s, p + 1)
    } else {
        let e = scan_to_char(s, p, '/');
        seq![s.subrange(p, e)] + path_segments_from(s, e)
    }
}

#[via_fn]
proof fn path_segments_from_decreases(s: Seq<char>, p: int) {
    if 0 <= p && p < s.len() && s[p] != '/' {
        lemma_scan_to_char_bounds(s, p, '/');
        assert(scan_to_char(s, p, '/') == scan_to_char(s, p + 1, '/'));
        lemma_scan_to_char_bounds(s, p + 1, '/');
    }
}

/// The non-empty segments of a path-shaped string.
pub open spec fn path_segments(s: Seq<char>) -> Seq<Seq<char>> {
    path_segments_from(s, 0)
}

/// A file name without its extension: the part before the last `.`, except
/// that a `.` opening the name does not begin an extension.
pub open spec fn stem_of(seg: Seq<char>) -> Seq<char> {
    let d = last_index_of(seg, '.', 1, seg.len() as int);
    if d >= 1 {
        seg.take(d)
    } else {
        seg
    }
}

/// Parts joined with the separator character.
pub open spec fn join_with_char(parts: Seq<Seq<char>>, sep: char) -> Seq<char>
    decreases parts.len(),
{
    if parts.len() == 0 {
        Seq::empty()
    } else if parts.len() == 1 {
        parts[0]
    } else {
        join_with_char(parts.drop_last(), sep) + seq![sep] + parts.last()
    }
}

/// The import path of a module file: the package name joined by `.` with
/// every path segment of the relative file path, the extension of the last
/// segment stripped.
pub open spec fn import_path_of(pkg: Seq<char>, rel: Seq<char>) -> Seq<char> {
    let segs = path_segments(rel);
    let stemmed = if segs.len() == 0 {
        segs
    } else {
        segs.update(segs.len() - 1, stem_of(segs.last()))
    };
    join_with_char(seq![pkg] + stemmed, '.')
}

/// The suffix that marks a file standing for its package.
pub open spec fn init_suffix() -> Seq<char> {
    seq!['.', '_', '_', 'i', 'n', 'i', 't', '_', '_']
}

/// `s` with a trailing `.__init__` removed.
pub open spec fn strip_init_suffix(s: Seq<char>) -> Seq<char> {
    if s.len() >= 9 && s.subrange(s.len() - 9, s.len() as int) == init_suffix() {
        s.take(s.len() - 9)
    } else {
        s
    }
}

/// The import path of a module file with a trailing `.__init__` stripped:
/// the fully-qualified name under which the file's module is indexed.
pub open spec fn module_import_path_of(pkg: Seq<char>, rel: Seq<char>) -> Seq<char> {
    strip_init_suffix(import_path_of(pkg, rel))
}

/// The first occurrence of `c` in `v` at or after `p`, or the length.
pub fn find_char_from(v: &Vec<char>, p: usize, c: char) -> (r: usize)
    requires
        p <= v@.len(),
    ensures
        r == scan_to_char(v@, p as int, c),
        p <= r <= v@.len(),
{
    let mut j = p;
    while j < v.len() && v[j] != c
        invariant
            p <= j <= v@.len(),
            scan_to_char(v@, p as int, c) == scan_to_char(v@, j as int, c),
        decreases v@.len() - j,
    {
        j = j + 1;
    }
    j
}

/// The last occurrence of `c` in `v` within `[lo, hi)`, if any.
pub fn find_last_char(v: &Vec<char>, c: char, lo: usize, hi: usize) -> (r: Option<usize>)
    requires
        hi <= v@.len(),
    ensures
        match r {
            Some(d) => last_index_of(v@, c, lo as int, hi as int) == d as int && lo <= d && d < hi,
            None => last_index_of(v@, c, lo as int, hi as int) == -1,
        },
{
    let mut h = hi;
    while h > lo
        invariant
            h <= hi <= v@.len(),
            last_index_of(v@, c, lo as int, hi as int) == last_index_of(
                v@,
                c,
                lo as int,
                h as int,
            ),
        decreases h,
    {
        if v[h - 1] == c {
            return Some(h - 1);
        }
        h = h - 1;
    }
    None
}

/// The segment ranges of a path-shaped string: the contents of the ranges
/// are exactly its segments, in order.
pub fn collect_segments(v: &Vec<char>) -> (segs: Vec<(usize, usize)>)
    ensures
        segs@.map_values(|r: (usize, usize)| v@.subrange(r.0 as int, r.1 as int))
            == path_segments(v@),
        forall|i: int|
            0 <= i < segs@.len() ==> (#[trigger] segs@[i]).0 <= segs@[i].1 && segs@[i].1
                <= v@.len() && segs@[i].0 < segs@[i].1,
{
    let ghost s = v@;
    let mut segs: Vec<(usize, usize)> = Vec::new();
    let mut p: usize = 0;
    while p < v.len()
        invariant
            p <= v@.len(),
            s == v@,
            path_segments(s) == segs@.map_values(
                |r: (usize, usize)| s.subrange(r.0 as int, r.1 as int),
            ) + path_segments_from(s, p as int),
            forall|i: int|
                0 <= i < segs@.len() ==> (#[trigger] segs@[i]).0 <= segs@[i].1 && segs@[i].1
                    <= v@.len() && segs@[i].0 < segs@[i].1,
        decreases v@.len() - p,
    {
        if v[p] == '/' {
            p = p + 1;
        } else {
            let e = find_char_from(v, p, '/');
            proof {
                assert(scan_to_char(s, p as int, '/') == scan_to_char(s, p as int + 1, '/'));
                lemma_scan_to_char_bounds(s, p as int + 1, '/');
            }
            let ghost old_segs = segs@;
            segs.push((p, e));
            proof {
                let f = |r: (usize, usize)| s.subrange(r.0 as int, r.1 as int);
                assert(segs@.map_values(f) =~= old_segs.map_values(f) + seq![
                    s.subrange(p as int, e as int),
                ]);
            }
            p = e;
        }
    }
    proof {
        assert(path_segments_from(s, p as int) =~= Seq::<Seq<char>>::empty());
        let f = |r: (usize, usize)| s.subrange(r.0 as int, r.1 as int);
        assert(segs@.map_values(f) =~= segs@.map_values(f) + Seq::<Seq<char>>::empty());
    }
    segs
}

/// Builds the import path of a module file as a character vector.
pub fn import_path_chars(pkg_name: &str, rel: &str) -> (out: Vec<char>)
    ensures
        out@ == import_path_of(pkg_name@, rel@),
{
    let v = str_to_chars(rel);
    let segs = collect_segments(&v);
    let mut out = str_to_chars(pkg_name);
    let ghost seg_contents = segs@.map_values(
        |r: (usize, usize)| v@.subrange(r.0 as int, r.1 as int),
    );
    let ghost stemmed = if seg_contents.len() == 0 {
        seg_contents
    } else {
        seg_contents.update(seg_contents.len() - 1, stem_of(seg_contents.last()))
    };
    let ghost parts = seq![pkg_name@] + stemmed;
    proof {
        assert(parts.take(1) =~= seq![pkg_name@]);
        assert(join_with_char(parts.take(1), '.') == pkg_name@);
    }
    let mut i: usize = 0;
    while i < segs.len()
        invariant
            i <= segs@.len(),
            v@.len() >= 0,
            seg_contents == segs@.map_values(
                |r: (usize, usize)| v@.subrange(r.0 as int, r.1 as int),
            ),
            stemmed == (if seg_contents.len() == 0 {
                seg_contents
            } else {
                seg_contents.update(seg_contents.len() - 1, stem_of(seg_contents.last()))
            }),
            parts == seq![pkg_name@] + stemmed,
            forall|k: int|
                0 <= k < segs@.len() ==> (#[trigger] segs@[k]).0 <= segs@[k].1 && segs@[k].1
                    <= v@.len() && segs@[k].0 < segs@[k].1,
            out@ == join_with_char(parts.take(i as int + 1), '.'),
        decreases segs@.len() - i,
    {
        out.push('.');
        let (lo, hi) = segs[i];
        let hi2 = if i == segs.len() - 1 {
            match find_last_char(&v, '.', lo + 1, hi) {
                Some(d) => d,
                None => hi,
            }
        } else {
            hi
        };
        proof {
            if i == segs@.len() - 1 {
                lemma_last_index_of_subrange(v@, '.', lo as int, hi as int, hi as int);
                assert(seg_contents.last() == v@.subrange(lo as int, hi as int));
                assert(v@.subrange(lo as int, hi2 as int) =~= stem_of(seg_contents.last()));
                assert(parts[i as int + 1] == stemmed[i as int]);
            } else {
                assert(parts[i as int + 1] == seg_contents[i as int]);
            }
        }
        let mut k = lo;
        let ghost out_before = out@;
        while k < hi2
            invariant
                lo <= k <= hi2,
                hi2 <= v@.len(),
                out@ == out_before + v@.subrange(lo as int, k as int),
            decreases hi2 - k,
        {
            out.push(v[k]);
            k = k + 1;
            assert(out@ =~= out_before + v@.subrange(lo as int, k as int));
        }
        i = i + 1;
        proof {
            assert(parts.take(i as int + 1).drop_last() =~= parts.take(i as int));
            assert(parts.take(i as int + 1).last() == parts[i as int]);
            assert(out@ =~= join_with_char(parts.take(i as int), '.') + seq!['.'] + parts[
                i as int
            ]);
        }
    }
    proof {
        assert(parts.take(parts.len() as int) =~= parts);
        if segs@.len() == 0 {
            assert(parts =~= seq![pkg_name@]);
        }
    }
    out
}

} // verus!
