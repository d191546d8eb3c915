//! Reference marker parsing: scans free text for `[[target]]` and
//! `[[target|display]]` markers and extracts the target name and optional
//! display text of each, in order of first appearance.
//!
//! A marker opens with `[[` and closes with the last `]]` on the same line;
//! both the target and the display text are trimmed of surrounding white
//! space, and a marker whose target is empty after trimming is dropped as
//! accidental syntax rather than reported.

use vstd::prelude::*;
use crate::text::{str_to_chars, trim_range, trimmed};

verus! {

/// `[[` stands at index `i` of `s`.
pub open spec fn is_open_at(s: Seq<char>, i: int) -> bool {
    0 <= i && i + 2 <= s.len() && s[i] == '[' && s[i + 1] == '['
}

/// `]]` stands at index `i` of `s`.
pub open spec fn is_close_at(s: Seq<char>, i: int) -> bool {
    0 <= i && i + 2 <= s.len() && s[i] == ']' && s[i + 1] == ']'
}

/// The index of the first line break at or after `i`, or `s.len()` if the
/// rest of the text is a single line.
pub open spec fn line_end_from(s: Seq<char>, i: int) -> int
    recommends
        0 <= i <= s.len(),
    decreases s.len() - i,
{
    if i >= s.len() {
        s.len() as int
    } else if s[i] == '\n' {
        i
    } else {
        line_end_from(s, i + 1)
    }
}

/// The greatest index `q` with `i <= q`, `q + 2 <= limit` and `]]` at `q`,
/// or `-1` if there is none.
pub open spec fn last_close_in(s: Seq<char>, i: int, limit: int) -> int
    recommends
        0 <= i,
        limit <= s.len(),
    decreases limit - i,
{
    if limit - 2 < i {
        -1
    } else if s[limit - 2] == ']' && s[limit - 1] == ']' {
        limit - 2
    } else {
        last_close_in(s, i, limit - 1)
    }
}

/// The least index `p` with `i <= p < limit` holding `|`, or `-1`.
pub open spec fn first_pipe_in(s: Seq<char>, i: int, limit: int) -> int
    recommends
        0 <= i,
        limit <= s.len(),
    decreases limit - i,
{
    if i >= limit {
        -1
    } else if s[i] == '|' {
        i
    } else {
        first_pipe_in(s, i + 1, limit)
    }
}

/// A reference marker located in a text: the verbatim occurrence spans
/// `start..end`, `target` is the trimmed target name and `display` the
/// trimmed display text, if a `|` separated one.
pub ghost struct SpecMarker {
    pub start: int,
    pub end: int,
    pub target: Seq<char>,
    pub display: Option<Seq<char>>,
}

/// The marker produced by a match opening at `p` and closing at `q`.
pub open spec fn cooked_marker(s: Seq<char>, p: int, q: int) -> SpecMarker {
    let pp = first_pipe_in(s, p + 2, q);
    if pp >= 0 {
        SpecMarker {
            start: p,
            end: q + 2,
            target: trimmed(s.subrange(p + 2, pp)),
            display: Some(trimmed(s.subrange(pp + 1, q))),
        }
    } else {
        SpecMarker { start: p, end: q + 2, target: trimmed(s.subrange(p + 2, q)), display: None }
    }
}

pub proof fn lemma_line_end_from_bounds(s: Seq<char>, i: int)
    requires
        0 <= i <= s.len(),
    ensures
        i <= line_end_from(s, i) <= s.len(),
    decreases s.len() - i,
{
    if i < s.len() && s[i] != '\n' {
        lemma_line_end_from_bounds(s, i + 1);
    }
}

proof fn lemma_last_close_in_bounds(s: Seq<char>, i: int, limit: int)
    requires
        0 <= i,
    ensures
        last_close_in(s, i, limit) == -1 || (i <= last_close_in(s, i, limit) && last_close_in(
            s,
            i,
            limit,
        ) + 2 <= limit),
    decreases limit - i,
{
    if limit - 2 >= i && !(s[limit - 2] == ']' && s[limit - 1] == ']') {
        lemma_last_close_in_bounds(s, i, limit - 1);
    }
}

/// The markers of `s` from position `p` on: at each position where `[[`
/// opens and some `]]` closes on the same line, the match runs to the last
/// such `]]` (the content is maximal), and scanning resumes after it;
/// markers whose trimmed target is empty are dropped.
pub open spec fn markers_from(s: Seq<char>, p: int) -> Seq<SpecMarker>
    recommends
        0 <= p,
    decreases s.len() - p,
    via markers_from_decreases
{
    if p < 0 || p + 2 > s.len() {
        Seq::empty()
    } else if is_open_at(s, p) && last_close_in(s, p + 2, line_end_from(s, p)) >= 0 {
        let q = last_close_in(s, p + 2, line_end_from(s, p));
        let m = cooked_marker(s, p, q);
        if m.target.len() > 0 {
            seq![m] + markers_from(s, q + 2)
        } else {
            markers_from(s, q + 2)
        }
    } else {
        markers_from(s, p + 1)
    }
}

#[via_fn]
proof fn markers_from_decreases(s: Seq<char>, p: int) {
    if !(p < 0 || p + 2 > s.len()) && is_open_at(s, p) {
        lemma_line_end_from_bounds(s, p);
        let le = line_end_from(s, p);
        lemma_last_close_in_bounds(s, p + 2, le);
    }
}

/// All reference markers of a text, in order of first appearance.
pub open spec fn spec_markers_of(s: Seq<char>) -> Seq<SpecMarker> {
    markers_from(s, 0)
}

/// Every marker lies within the text, spans at least `[[]]`, and markers
/// appear in order without overlap.
pub proof fn lemma_markers_from_ordered(s: Seq<char>, p: int)
    requires
        0 <= p,
    ensures
        forall|i: int|
            0 <= i < markers_from(s, p).len() ==> {
                let m = #[trigger] markers_from(s, p)[i];
                p <= m.start && m.start + 4 <= m.end && m.end <= s.len()
            },
        forall|i: int|
            0 <= i < markers_from(s, p).len() - 1 ==> (#[trigger] markers_from(s, p)[i]).end
                <= markers_from(s, p)[i + 1].start,
    decreases s.len() - p,
{
    if p + 2 > s.len() {
    } else if is_open_at(s, p) && last_close_in(s, p + 2, line_end_from(s, p)) >= 0 {
        let le = line_end_from(s, p);
        let q = last_close_in(s, p + 2, le);
        lemma_line_end_from_bounds(s, p);
        lemma_last_close_in_bounds(s, p + 2, le);
        lemma_markers_from_ordered(s, q + 2);
    } else {
        lemma_markers_from_ordered(s, p + 1);
    }
}

/// The index of the first line break in `v` at or after `i`, or the length
/// of `v` if there is none.
pub fn find_line_end(v: &Vec<char>, i: usize) -> (r: usize)
    requires
        i <= v@.len(),
    ensures
        r == line_end_from(v@, i as int),
        i <= r <= v@.len(),
{
    let mut j = i;
    while j < v.len() && v[j] != '\n'
        invariant
            i <= j <= v@.len(),
            line_end_from(v@, i as int) == line_end_from(v@, j as int),
        decreases v@.len() - j,
    {
        j = j + 1;
    }
    j
}

/// The greatest index `q` with `i <= q`, `q + 2 <= limit` and `]]` at `q`
/// in `v`, if any.
pub fn find_last_close(v: &Vec<char>, i: usize, limit: usize) -> (r: Option<usize>)
    requires
        i <= limit,
        limit <= v@.len(),
    ensures
        match r {
            Some(q) => last_close_in(v@, i as int, limit as int) == q as int && i <= q && q + 2
                <= limit,
            None => last_close_in(v@, i as int, limit as int) == -1,
        },
{
    let mut h = limit;
    loop
        invariant
            i <= h <= limit <= v@.len(),
            last_close_in(v@, i as int, limit as int) == last_close_in(v@, i as int, h as int),
        decreases h,
    {
        if h - i < 2 {
            return None;
        }
        if v[h - 2] == ']' && v[h - 1] == ']' {
            return Some(h - 2);
        }
        h = h - 1;
    }
}

/// The least index holding `|` in `v` between `i` and `limit`, if any.
pub fn find_first_pipe(v: &Vec<char>, i: usize, limit: usize) -> (r: Option<usize>)
    requires
        i <= limit,
        limit <= v@.len(),
    ensures
        match r {
            Some(p) => first_pipe_in(v@, i as int, limit as int) == p as int && i <= p && p
                < limit,
            None => first_pipe_in(v@, i as int, limit as int) == -1,
        },
{
    let mut j = i;
    while j < limit && v[j] != '|'
        invariant
            i <= j <= limit <= v@.len(),
            first_pipe_in(v@, i as int, limit as int) == first_pipe_in(v@, j as int, limit as int),
        decreases limit - j,
    {
        j = j + 1;
    }
    if j < limit {
        Some(j)
    } else {
        None
    }
}

/// An extracted reference marker, with the span of its verbatim occurrence
/// retained so the expansion pass can replace it without re-parsing.
pub struct TextMarker {
    pub start: usize,
    pub end: usize,
    pub target: String,
    pub display: Option<String>,
}

impl View for TextMarker {
    type V = SpecMarker;

    open spec fn view(&self) -> SpecMarker {
        SpecMarker {
            start: self.start as int,
            end: self.end as int,
            target: self.target@,
            display: match self.display {
                Some(d) => Some(d@),
                None => None,
            },
        }
    }
}

/// The views of a sequence of extracted markers.
pub open spec fn marker_views(ms: Seq<TextMarker>) -> Seq<SpecMarker> {
    ms.map_values(|m: TextMarker| m@)
}

/// The string whose characters are `v@.subrange(lo, hi)`.
pub fn chars_range_to_string(v: &Vec<char>, lo: usize, hi: usize) -> (s: String)
    requires
        lo <= hi <= v@.len(),
    ensures
        s@ == v@.subrange(lo as int, hi as int),
{
    let mut s = String::new();
    let mut i = lo;
    while i < hi
        invariant
            lo <= i <= hi <= v@.len(),
            s@ == v@.subrange(lo as int, i as int),
        decreases hi - i,
    {
        s.push(v[i]);
        i = i + 1;
        assert(s@ =~= v@.subrange(lo as int, i as int));
    }
    assert(s@ =~= v@.subrange(lo as int, hi as int));
    s
}

/// Scans `v` and returns every reference marker, in order.
pub fn scan_markers(v: &Vec<char>) -> (res: Vec<TextMarker>)
    ensures
        marker_views(res@) == spec_markers_of(v@),
        forall|i: int|
            0 <= i < res@.len() ==> (#[trigger] res@[i]).start <= res@[i].end && res@[i].end
                <= v@.len(),
{
    let ghost s = v@;
    let mut acc: Vec<TextMarker> = Vec::new();
    let mut p: usize = 0;
    while p < v.len() && p + 1 < v.len()
        invariant
            p <= v@.len(),
            s == v@,
            spec_markers_of(s) == marker_views(acc@) + markers_from(s, p as int),
            forall|i: int|
                0 <= i < acc@.len() ==> (#[trigger] acc@[i]).start <= acc@[i].end && acc@[i].end
                    <= v@.len(),
        decreases v@.len() - p,
    {
        if v[p] == '[' && v[p + 1] == '[' {
            let le = find_line_end(v, p);
            proof {
                assert(line_end_from(s, p as int) == line_end_from(s, p as int + 1));
                assert(line_end_from(s, p as int + 1) == line_end_from(s, p as int + 2));
                lemma_line_end_from_bounds(s, p as int + 2);
            }
            match find_last_close(v, p + 2, le) {
                Some(q) => {
                    proof {
                        lemma_line_end_from_bounds(s, p as int);
                    }
                    let pipe = find_first_pipe(v, p + 2, q);
                    let marker = match pipe {
                        Some(pp) => {
                            let (a, b) = trim_range(v, p + 2, pp);
                            let (c, d) = trim_range(v, pp + 1, q);
                            TextMarker {
                                start: p,
                                end: q + 2,
                                target: chars_range_to_string(v, a, b),
                                display: Some(chars_range_to_string(v, c, d)),
                            }
                        },
                        None => {
                            let (a, b) = trim_range(v, p + 2, q);
                            TextMarker {
                                start: p,
                                end: q + 2,
                                target: chars_range_to_string(v, a, b),
                                display: None,
                            }
                        },
                    };
                    proof {
                        assert(marker@ == cooked_marker(s, p as int, q as int));
                    }
                    if marker.target.unicode_len() > 0 {
                        let ghost old_acc = acc@;
                        acc.push(marker);
                        proof {
                            assert(marker_views(acc@) =~= marker_views(old_acc).push(marker@));
                            assert(marker_views(old_acc).push(marker@) =~= marker_views(old_acc)
                                + seq![marker@]);
                        }
                    } else {
                        proof {
                            assert(markers_from(s, p as int) == markers_from(s, q as int + 2));
                        }
                    }
                    p = q + 2;
                },
                None => {
                    p = p + 1;
                },
            }
        } else {
            p = p + 1;
        }
    }
    proof {
        assert(markers_from(s, p as int) =~= Seq::<SpecMarker>::empty());
        assert(marker_views(acc@) =~= marker_views(acc@) + Seq::<SpecMarker>::empty());
    }
    acc
}

/// A cross reference used by a documentation object: the fully qualified
/// name of the referenced symbol and the optional display text given after
/// the `|` separator.
#[derive(Debug, PartialEq, Eq)]
pub struct ObjectRef {
    pub fully_qualified_name: String,
    pub display_text: Option<String>,
}

/// The name and display text of a marker, without its position.
pub ghost struct SpecRef {
    pub name: Seq<char>,
    pub display: Option<Seq<char>>,
}

impl View for ObjectRef {
    type V = SpecRef;

    open spec fn view(&self) -> SpecRef {
        SpecRef {
            name: self.fully_qualified_name@,
            display: match self.display_text {
                Some(d) => Some(d@),
                None => None,
            },
        }
    }
}

/// The reference denoted by a marker.
pub open spec fn marker_ref(m: SpecMarker) -> SpecRef {
    SpecRef { name: m.target, display: m.display }
}

/// The references of a text, in order of first appearance.
pub open spec fn spec_refs_of(s: Seq<char>) -> Seq<SpecRef> {
    spec_markers_of(s).map_values(|m: SpecMarker| marker_ref(m))
}

impl ObjectRef {
    pub fn new(name: String, display: Option<String>) -> (r: Self)
        ensures
            r.fully_qualified_name == name,
            r.display_text == display,
    {
        Self { fully_qualified_name: name, display_text: display }
    }
}

/// Extracts every reference marker of `text`, in order of first appearance:
/// the result lists exactly the (target, display) pairs of
/// `spec_refs_of(text@)`.
pub fn extract_object_refs(text: &str) -> (res: Vec<ObjectRef>)
    ensures
        res@.map_values(|o: ObjectRef| o@) == spec_refs_of(text@),
{
    let v = str_to_chars(text);
    let markers = scan_markers(&v);
    let mut res: Vec<ObjectRef> = Vec::new();
    let mut i: usize = 0;
    while i < markers.len()
        invariant
            i <= markers@.len(),
            marker_views(markers@) == spec_markers_of(text@),
            res@.map_values(|o: ObjectRef| o@) == spec_markers_of(text@).subrange(
                0,
                i as int,
            ).map_values(|m: SpecMarker| marker_ref(m)),
        decreases markers@.len() - i,
    {
        let m = &markers[i];
        let name = m.target.clone();
        let display = match &m.display {
            Some(d) => Some(d.clone()),
            None => None,
        };
        let ghost old_res = res@;
        res.push(ObjectRef { fully_qualified_name: name, display_text: display });
        i = i + 1;
        proof {
            assert(res@.map_values(|o: ObjectRef| o@) =~= old_res.map_values(|o: ObjectRef| o@)
                + seq![res@[res@.len() - 1]@]);
            assert(spec_markers_of(text@).subrange(0, i as int).map_values(
                |m2: SpecMarker| marker_ref(m2),
            ) =~= spec_markers_of(text@).subrange(0, i as int - 1).map_values(
                |m2: SpecMarker| marker_ref(m2),
            ) + seq![marker_ref(spec_markers_of(text@)[i as int - 1])]);
            assert(marker_views(markers@)[i as int - 1] == markers@[i as int - 1]@);
            assert(res@[res@.len() - 1]@ == marker_ref(spec_markers_of(text@)[i as int - 1]));
        }
    }
    proof {
        assert(spec_markers_of(text@).subrange(0, spec_markers_of(text@).len() as int)
            =~= spec_markers_of(text@));
    }
    res
}

} // verus!
