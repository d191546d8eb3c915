//! Reference expansion: rewrites each internal object's docstring by
//! replacing every `[[target]]` marker with renderer-produced link text,
//! resolving the target through the external mapping. Expansion is a
//! one-way, all-or-nothing pass: either every marker of every object is
//! rewritten, or the index is left untouched.

use vstd::prelude::*;
use vstd::string::*;
use crate::index::{ext_entry_views, lookup_in, Index};
use crate::object::{ObjectDocView, ObjectDocumentation};
use crate::object_ref::{
    lemma_markers_from_ordered, marker_views, scan_markers, spec_markers_of, SpecMarker,
};
use crate::render::{RenderError, Renderer};
use crate::text::str_to_chars;

verus! {

/// The display text handed to the renderer for a marker: its display text,
/// falling back to the target name itself.
pub open spec fn display_or_target(m: SpecMarker) -> Seq<char> {
    match m.display {
        Some(d) => d,
        None => m.target,
    }
}

/// The resolved target of a reference: the external URL where the target
/// is found externally, otherwise the bare fully-qualified name for the
/// renderer to turn into an internal link.
pub open spec fn spec_resolved_target(
    ext: Seq<(Seq<char>, Seq<char>)>,
    target: Seq<char>,
) -> Seq<char> {
    match lookup_in(ext, target) {
        Some(u) => u,
        None => target,
    }
}

/// The text from `from` on with the markers `ms` replaced by their link
/// text, or nothing where the renderer fails on some marker.
pub open spec fn splice_from<R: Renderer>(
    rend: R,
    ext: Seq<(Seq<char>, Seq<char>)>,
    prefix: Seq<char>,
    s: Seq<char>,
    ms: Seq<SpecMarker>,
    from: int,
) -> Option<Seq<char>>
    decreases ms.len(),
{
    if ms.len() == 0 {
        Some(s.subrange(from, s.len() as int))
    } else {
        let m = ms[0];
        match rend.spec_reference(
            Some(display_or_target(m)),
            prefix,
            spec_resolved_target(ext, m.target),
        ) {
            None => None,
            Some(link) => match splice_from(rend, ext, prefix, s, ms.drop_first(), m.end) {
                None => None,
                Some(rest) => Some(s.subrange(from, m.start) + link + rest),
            },
        }
    }
}

/// A docstring with every marker replaced by renderer link text, or
/// nothing where the renderer fails.
pub open spec fn spec_expanded_docstring<R: Renderer>(
    rend: R,
    ext: Seq<(Seq<char>, Seq<char>)>,
    prefix: Seq<char>,
    s: Seq<char>,
) -> Option<Seq<char>> {
    splice_from(rend, ext, prefix, s, spec_markers_of(s), 0)
}

/// An object after reference expansion: its docstring expanded in place,
/// an object without a docstring unchanged; nothing where the renderer
/// fails.
pub open spec fn spec_object_expansion<R: Renderer>(
    rend: R,
    ext: Seq<(Seq<char>, Seq<char>)>,
    prefix: Seq<char>,
    o: ObjectDocView,
) -> Option<ObjectDocView> {
    match o.docstring() {
        Some(d) => match spec_expanded_docstring(rend, ext, prefix, d) {
            Some(nd) => Some(o.with_docstring(Some(nd))),
            None => None,
        },
        None => Some(o),
    }
}

/// Expansion of a text without markers leaves it unchanged: running the
/// expansion pass on already-expanded text is the identity.
pub proof fn lemma_expand_no_markers<R: Renderer>(
    rend: R,
    ext: Seq<(Seq<char>, Seq<char>)>,
    prefix: Seq<char>,
    s: Seq<char>,
)
    requires
        spec_markers_of(s).len() == 0,
    ensures
        spec_expanded_docstring(rend, ext, prefix, s) == Some(s),
{
    assert(s.subrange(0, s.len() as int) =~= s);
}

/// Expansion is the identity on an object whose docstring holds no
/// markers: a second expansion pass over an already-expanded object
/// changes nothing.
pub proof fn lemma_object_expansion_identity<R: Renderer>(
    rend: R,
    ext: Seq<(Seq<char>, Seq<char>)>,
    prefix: Seq<char>,
    o: ObjectDocView,
)
    requires
        match o.docstring() {
            Some(d) => spec_markers_of(d).len() == 0,
            None => true,
        },
    ensures
        spec_object_expansion(rend, ext, prefix, o) == Some(o),
{
    match o.docstring() {
        Some(d) => {
            lemma_expand_no_markers(rend, ext, prefix, d);
            assert(o.with_docstring(Some(d)) == o);
        },
        None => {},
    }
}

/// Appends `v@.subrange(lo, hi)` to `out`.
fn append_char_range(out: &mut Vec<char>, v: &Vec<char>, lo: usize, hi: usize)
    requires
        lo <= hi <= v@.len(),
    ensures
        final(out)@ == old(out)@ + v@.subrange(lo as int, hi as int),
{
    let mut i = lo;
    while i < hi
        invariant
            lo <= i <= hi <= v@.len(),
            out@ == old(out)@ + v@.subrange(lo as int, i as int),
        decreases hi - i,
    {
        out.push(v[i]);
        i = i + 1;
        assert(out@ =~= old(out)@ + v@.subrange(lo as int, i as int));
    }
    assert(out@ =~= old(out)@ + v@.subrange(lo as int, hi as int));
}

/// Appends the characters of `s` to `out`.
fn append_str_chars(out: &mut Vec<char>, s: &str)
    ensures
        final(out)@ == old(out)@ + s@,
{
    let v = str_to_chars(s);
    proof {
        assert(v@.subrange(0, v@.len() as int) =~= v@);
    }
    append_char_range(out, &v, 0, v.len());
}

/// The URL bound to `k` in an external association vector, if any.
pub fn assoc_lookup<'a>(store: &'a Vec<(String, String)>, k: &str) -> (r: Option<&'a String>)
    ensures
        match r {
            Some(u) => lookup_in(ext_entry_views(store@), k@) == Some(u@),
            None => lookup_in(ext_entry_views(store@), k@) is None,
        },
{
    proof {
        assert(ext_entry_views(store@).skip(0) =~= ext_entry_views(store@));
    }
    let mut i: usize = 0;
    while i < store.len()
        invariant
            i <= store@.len(),
            lookup_in(ext_entry_views(store@), k@) == lookup_in(
                ext_entry_views(store@).skip(i as int),
                k@,
            ),
        decreases store@.len() - i,
    {
        if crate::text::str_eq(store[i].0.as_str(), k) {
            proof {
                assert(ext_entry_views(store@).skip(i as int)[0] == ext_entry_views(store@)[
                    i as int
                ]);
            }
            return Some(&store[i].1);
        }
        i = i + 1;
        proof {
            assert(ext_entry_views(store@).skip(i as int - 1).drop_first()
                =~= ext_entry_views(store@).skip(i as int));
            assert(ext_entry_views(store@).skip(i as int - 1)[0] == ext_entry_views(store@)[
                i as int - 1
            ]);
        }
    }
    proof {
        assert(ext_entry_views(store@).skip(ext_entry_views(store@).len() as int)
            =~= Seq::<(Seq<char>, Seq<char>)>::empty());
    }
    None
}

/// Rewrites every marker of `text` into renderer link text, resolving each
/// target through the external mapping.
pub fn expand_text<R: Renderer>(
    text: &str,
    renderer: &R,
    target_prefix: &str,
    external: &Vec<(String, String)>,
) -> (r: Result<String, RenderError>)
    ensures
        match r {
            Ok(s) => spec_expanded_docstring(
                *renderer,
                ext_entry_views(external@),
                target_prefix@,
                text@,
            ) == Some(s@),
            Err(_) => spec_expanded_docstring(
                *renderer,
                ext_entry_views(external@),
                target_prefix@,
                text@,
            ) is None,
        },
{
    let v = str_to_chars(text);
    let markers = scan_markers(&v);
    let ghost ms = spec_markers_of(text@);
    let ghost ext = ext_entry_views(external@);
    proof {
        lemma_markers_from_ordered(v@, 0);
        assert(ms.skip(0) =~= ms);
    }
    let mut out: Vec<char> = Vec::new();
    let mut pos: usize = 0;
    let mut i: usize = 0;
    while i < markers.len()
        invariant
            i <= markers@.len(),
            v@ == text@,
            marker_views(markers@) == ms,
            ms == spec_markers_of(text@),
            ext == ext_entry_views(external@),
            forall|t: int|
                0 <= t < ms.len() ==> 0 <= (#[trigger] ms[t]).start && ms[t].start + 4 <= ms[t].end
                    && ms[t].end <= v@.len(),
            forall|t: int|
                0 <= t < ms.len() - 1 ==> (#[trigger] ms[t]).end <= ms[t + 1].start,
            forall|t: int|
                0 <= t < markers@.len() ==> (#[trigger] markers@[t]).start <= markers@[t].end
                    && markers@[t].end <= v@.len(),
            pos <= v@.len(),
            i < ms.len() ==> pos <= ms[i as int].start,
            splice_from(*renderer, ext, target_prefix@, v@, ms, 0) == (match splice_from(
                *renderer,
                ext,
                target_prefix@,
                v@,
                ms.skip(i as int),
                pos as int,
            ) {
                Some(rest) => Some(out@ + rest),
                None => None::<Seq<char>>,
            }),
        decreases markers@.len() - i,
    {
        let m = &markers[i];
        proof {
            assert(marker_views(markers@)[i as int] == markers@[i as int]@);
            assert(ms.skip(i as int)[0] == ms[i as int]);
            assert(ms.skip(i as int).drop_first() =~= ms.skip(i as int + 1));
        }
        let ghost out_before = out@;
        append_char_range(&mut out, &v, pos, m.start);
        let disp = match &m.display {
            Some(d) => d.clone(),
            None => m.target.clone(),
        };
        let resolved: String = match assoc_lookup(external, m.target.as_str()) {
            Some(u) => u.clone(),
            None => m.target.clone(),
        };
        proof {
            assert(disp@ == display_or_target(ms[i as int]));
            assert(resolved@ == spec_resolved_target(ext, ms[i as int].target));
        }
        match renderer.render_reference(Some(disp), target_prefix, resolved) {
            Ok(link) => {
                append_str_chars(&mut out, link.as_str());
                proof {
                    assert(out@ =~= out_before + v@.subrange(pos as int, ms[i as int].start)
                        + link@);
                }
                pos = m.end;
                i = i + 1;
                proof {
                    if i < ms.len() {
                        assert(ms[i as int - 1].end <= ms[i as int].start);
                    }
                }
            },
            Err(e) => {
                return Err(e);
            },
        }
    }
    proof {
        assert(ms.skip(ms.len() as int) =~= Seq::<SpecMarker>::empty());
        assert(splice_from(
            *renderer,
            ext,
            target_prefix@,
            v@,
            ms.skip(ms.len() as int),
            pos as int,
        ) == Some(v@.subrange(pos as int, v@.len() as int)));
    }
    let ghost tail_before = out@;
    append_char_range(&mut out, &v, pos, v.len());
    let s = crate::text::chars_to_string(&out);
    Ok(s)
}

impl Index {
    /// Rewrites every marker of every internal object's docstring into
    /// renderer link text: the whole pass succeeds and every object moves
    /// to its expanded state, or the renderer fails on some marker and the
    /// index is left untouched.
    pub fn pre_process<R: Renderer>(&mut self, renderer: &R, site_relative_api_path: &str) -> (r:
        Result<(), RenderError>)
        requires
            old(self).wf(),
        ensures
            final(self).external_view() == old(self).external_view(),
            final(self).pkg_name == old(self).pkg_name,
            final(self).skip_undoc == old(self).skip_undoc,
            final(self).skip_private == old(self).skip_private,
            final(self).pkg_root == old(self).pkg_root,
            match r {
                Ok(_) => {
                    &&& final(self).wf()
                    &&& final(self).internal_view().len() == old(self).internal_view().len()
                    &&& forall|k: int|
                        0 <= k < old(self).internal_view().len() ==> (#[trigger] final(
                            self
                        ).internal_view()[k]).0 == old(self).internal_view()[k].0 && Some(
                            final(self).internal_view()[k].1,
                        ) == spec_object_expansion(
                            *renderer,
                            old(self).external_view(),
                            site_relative_api_path@,
                            old(self).internal_view()[k].1,
                        )
                },
                Err(_) => *final(self) == *old(self) && (exists|k: int|
                    0 <= k < old(self).internal_view().len() && spec_object_expansion(
                        *renderer,
                        old(self).external_view(),
                        site_relative_api_path@,
                        (#[trigger] old(self).internal_view()[k]).1,
                    ) is None),
            },
    {
        let ghost old_iv = self.internal_view();
        let ghost ext = self.external_view();
        let mut new_docs: Vec<Option<String>> = Vec::new();
        let mut i: usize = 0;
        while i < self.internal_object_store.len()
            invariant
                i <= self.internal_object_store@.len(),
                *self == *old(self),
                old_iv == self.internal_view(),
                ext == self.external_view(),
                new_docs@.len() == i,
                forall|k: int|
                    0 <= k < i ==> match old_iv[k].1.docstring() {
                        Some(d) => match new_docs@[k] {
                            Some(s) => spec_expanded_docstring(
                                *renderer,
                                ext,
                                site_relative_api_path@,
                                d,
                            ) == Some(s@),
                            None => false,
                        },
                        None => (#[trigger] new_docs@[k]) is None,
                    },
            decreases self.internal_object_store@.len() - i,
        {
            proof {
                assert(old_iv[i as int].1 == self.internal_object_store@[i as int].1@);
            }
            let obj = &self.internal_object_store[i].1;
            match obj.docstring() {
                Some(ds) => {
                    match expand_text(
                        ds.as_str(),
                        renderer,
                        site_relative_api_path,
                        &self.external_object_store,
                    ) {
                        Ok(nd) => {
                            new_docs.push(Some(nd));
                        },
                        Err(e) => {
                            proof {
                                assert(spec_object_expansion(
                                    *renderer,
                                    ext,
                                    site_relative_api_path@,
                                    old_iv[i as int].1,
                                ) is None);
                            }
                            return Err(e);
                        },
                    }
                },
                None => {
                    new_docs.push(None);
                },
            }
            i = i + 1;
        }
        let mut new_store: Vec<(String, ObjectDocumentation)> = Vec::new();
        let mut j: usize = 0;
        while j < self.internal_object_store.len()
            invariant
                j <= self.internal_object_store@.len(),
                *self == *old(self),
                old_iv == self.internal_view(),
                ext == self.external_view(),
                new_docs@.len() == old_iv.len(),
                forall|k: int|
                    0 <= k < old_iv.len() ==> match old_iv[k].1.docstring() {
                        Some(d) => match new_docs@[k] {
                            Some(s) => spec_expanded_docstring(
                                *renderer,
                                ext,
                                site_relative_api_path@,
                                d,
                            ) == Some(s@),
                            None => false,
                        },
                        None => (#[trigger] new_docs@[k]) is None,
                    },
                new_store@.len() == j,
                forall|k: int|
                    0 <= k < j ==> (#[trigger] new_store@[k]).0@ == old_iv[k].0 && Some(
                        new_store@[k].1@,
                    ) == spec_object_expansion(
                        *renderer,
                        ext,
                        site_relative_api_path@,
                        old_iv[k].1,
                    ),
            decreases self.internal_object_store@.len() - j,
        {
            proof {
                assert(old_iv[j as int].0 == self.internal_object_store@[j as int].0@);
                assert(old_iv[j as int].1 == self.internal_object_store@[j as int].1@);
            }
            let key = self.internal_object_store[j].0.clone();
            let mut obj = self.internal_object_store[j].1.duplicate();
            match &new_docs[j] {
                Some(s) => {
                    obj.replace_docstring(s.clone());
                },
                None => (),
            }
            new_store.push((key, obj));
            j = j + 1;
        }
        self.internal_object_store = new_store;
        proof {
            assert(self.internal_view().len() == old_iv.len());
            assert forall|k: int|
                0 <= k < old_iv.len() implies (#[trigger] self.internal_view()[k]).0 == old_iv[k].0
                && Some(self.internal_view()[k].1) == spec_object_expansion(
                *renderer,
                ext,
                site_relative_api_path@,
                old_iv[k].1,
            ) by {
                assert(self.internal_view()[k]
                    == (self.internal_object_store@[k].0@, self.internal_object_store@[k].1@));
            }
            assert forall|a: int, b: int|
                0 <= a < b < self.internal_view().len() implies (
            #[trigger] self.internal_view()[a]).0 != (#[trigger] self.internal_view()[b]).0 by {
                assert(old_iv[a].0 != old_iv[b].0);
            }
        }
        Ok(())
    }
}

} // verus!
