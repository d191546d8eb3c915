//! The symbol index: an internal mapping from fully-qualified name to
//! documentation object, with duplicate rejection, and an external mapping
//! from fully-qualified name to URL, with last-writer-wins overwrite.
//!
//! Both mappings are association vectors with unique keys; the internal one
//! keeps insertion order, so every walk over it is deterministic.

use vstd::prelude::*;
use vstd::string::*;
use crate::class::{ClassDocView, ClassDocumentation};
use crate::function::{FunctionDocView, FunctionDocumentation};
use crate::module::{
    class_included, extract_module_documentation, function_included, module_included,
    spec_extract_module, ModuleDocView, ModuleDocumentation,
};
use crate::object::{ObjectDocView, ObjectDocumentation};
use crate::paths::{
    import_path_chars, import_path_of, init_suffix, module_import_path_of, path_segments, stem_of,
    strip_init_suffix,
};
use crate::pymodel::PyParsedModule;
use crate::text::{chars_to_string, str_eq, str_to_chars};

verus! {

/// The views of the internal mapping's entries.
pub open spec fn entry_views(s: Seq<(String, ObjectDocumentation)>) -> Seq<
    (Seq<char>, ObjectDocView),
> {
    s.map_values(|p: (String, ObjectDocumentation)| (p.0@, p.1@))
}

/// The views of the external mapping's entries.
pub open spec fn ext_entry_views(s: Seq<(String, String)>) -> Seq<(Seq<char>, Seq<char>)> {
    s.map_values(|p: (String, String)| (p.0@, p.1@))
}

/// Some entry of the association sequence has key `k`.
pub open spec fn has_key<V>(s: Seq<(Seq<char>, V)>, k: Seq<char>) -> bool {
    exists|i: int| 0 <= i < s.len() && (#[trigger] s[i]).0 == k
}

/// No two entries share a key.
pub open spec fn keys_unique<V>(s: Seq<(Seq<char>, V)>) -> bool {
    forall|i: int, j: int| 0 <= i < j < s.len() ==> (#[trigger] s[i]).0 != (#[trigger] s[j]).0
}

/// The value bound to `k`, at its first binding.
pub open spec fn lookup_in<V>(s: Seq<(Seq<char>, V)>, k: Seq<char>) -> Option<V>
    decreases s.len(),
{
    if s.len() == 0 {
        None
    } else if s[0].0 == k {
        Some(s[0].1)
    } else {
        lookup_in(s.drop_first(), k)
    }
}

/// The index of the first entry with key `k`, or `-1`.
pub open spec fn first_key_index<V>(s: Seq<(Seq<char>, V)>, k: Seq<char>) -> int
    decreases s.len(),
{
    if s.len() == 0 {
        -1
    } else if s[0].0 == k {
        0
    } else {
        let r = first_key_index(s.drop_first(), k);
        if r == -1 {
            -1
        } else {
            r + 1
        }
    }
}

/// The association sequence after binding `k` to `v`: the first existing
/// binding is overwritten in place, a missing key is appended.
pub open spec fn assoc_overwrite<V>(s: Seq<(Seq<char>, V)>, k: Seq<char>, v: V) -> Seq<
    (Seq<char>, V),
> {
    let i = first_key_index(s, k);
    if i >= 0 {
        s.update(i, (k, v))
    } else {
        s.push((k, v))
    }
}

/// The keys of the association sequence, in order.
pub open spec fn keys_of<V>(s: Seq<(Seq<char>, V)>) -> Seq<Seq<char>> {
    s.map_values(|p: (Seq<char>, V)| p.0)
}

/// The package's logical name derived from its root path: the final path
/// segment with its extension stripped, or nothing if the path has no
/// segment.
pub open spec fn spec_pkg_name(root: Seq<char>) -> Option<Seq<char>> {
    let segs = path_segments(root);
    if segs.len() == 0 {
        None
    } else {
        Some(stem_of(segs.last()))
    }
}

/// An error of the indexing phase.
#[derive(Debug)]
pub enum IndexError {
    /// The package root path has no extractable final name.
    PackageRootName,
    /// The named fully-qualified symbol was inserted twice.
    DuplicateSymbol { key: String },
}

/// The symbol index for one documentation run.
pub struct Index {
    /// The package's logical name, the first component of every
    /// fully-qualified name.
    pub pkg_name: String,
    /// Fully-qualified name to documentation object; keys unique, insertion
    /// order kept.
    pub internal_object_store: Vec<(String, ObjectDocumentation)>,
    /// Fully-qualified name to absolute URL; keys unique, later insertions
    /// overwrite.
    pub external_object_store: Vec<(String, String)>,
    /// Skip symbols without a docstring.
    pub skip_undoc: bool,
    /// Skip symbols whose name starts with the private-name marker.
    pub skip_private: bool,
    /// The package root path the index was built for.
    pub pkg_root: String,
}

impl Index {
    /// Both mappings have unique keys.
    pub open spec fn wf(self) -> bool {
        keys_unique(entry_views(self.internal_object_store@)) && keys_unique(
            ext_entry_views(self.external_object_store@),
        )
    }

    /// The internal mapping, as mathematics.
    pub open spec fn internal_view(self) -> Seq<(Seq<char>, ObjectDocView)> {
        entry_views(self.internal_object_store@)
    }

    /// The external mapping, as mathematics.
    pub open spec fn external_view(self) -> Seq<(Seq<char>, Seq<char>)> {
        ext_entry_views(self.external_object_store@)
    }

    /// A fresh, empty index for the package rooted at `pkg_root`, whose
    /// logical name is the root's final path segment without extension;
    /// fails if the root has no extractable name.
    pub fn new(pkg_root: String, skip_undoc: bool, skip_private: bool) -> (r: Result<
        Index,
        IndexError,
    >)
        ensures
            match r {
                Ok(idx) => {
                    &&& spec_pkg_name(pkg_root@) == Some(idx.pkg_name@)
                    &&& idx.internal_view() == Seq::<(Seq<char>, ObjectDocView)>::empty()
                    &&& idx.external_view() == Seq::<(Seq<char>, Seq<char>)>::empty()
                    &&& idx.skip_undoc == skip_undoc
                    &&& idx.skip_private == skip_private
                    &&& idx.pkg_root@ == pkg_root@
                    &&& idx.wf()
                },
                Err(e) => spec_pkg_name(pkg_root@) is None && e is PackageRootName,
            },
    {
        let v = str_to_chars(pkg_root.as_str());
        let segs = crate::paths::collect_segments(&v);
        if segs.len() == 0 {
            proof {
                assert(path_segments(pkg_root@).len() == 0);
            }
            return Err(IndexError::PackageRootName);
        }
        let (lo, hi) = segs[segs.len() - 1];
        let hi2 = match crate::paths::find_last_char(&v, '.', lo + 1, hi) {
            Some(d) => d,
            None => hi,
        };
        proof {
            crate::paths::lemma_last_index_of_subrange(v@, '.', lo as int, hi as int, hi as int);
            assert(path_segments(pkg_root@).last() == v@.subrange(lo as int, hi as int));
            assert(v@.subrange(lo as int, hi2 as int) =~= stem_of(path_segments(pkg_root@).last()));
        }
        let name = chars_to_string(&crate::docstring::chars_range_to_vec(&v, lo, hi2));
        let idx = Index {
            pkg_name: name,
            internal_object_store: Vec::new(),
            external_object_store: Vec::new(),
            skip_undoc,
            skip_private,
            pkg_root,
        };
        proof {
            assert(idx.internal_view() =~= Seq::<(Seq<char>, ObjectDocView)>::empty());
            assert(idx.external_view() =~= Seq::<(Seq<char>, Seq<char>)>::empty());
        }
        Ok(idx)
    }

    /// The internal mapping holds the key.
    pub fn contains_internal(&self, k: &str) -> (r: bool)
        ensures
            r == has_key(self.internal_view(), k@),
    {
        let mut i: usize = 0;
        while i < self.internal_object_store.len()
            invariant
                i <= self.internal_object_store@.len(),
                forall|j: int| 0 <= j < i ==> (#[trigger] self.internal_view()[j]).0 != k@,
            decreases self.internal_object_store@.len() - i,
        {
            if str_eq(self.internal_object_store[i].0.as_str(), k) {
                proof {
                    assert(self.internal_view()[i as int].0 == k@);
                }
                return true;
            }
            i = i + 1;
        }
        false
    }

    /// The external mapping holds the key.
    pub fn contains_external(&self, k: &str) -> (r: bool)
        ensures
            r == has_key(self.external_view(), k@),
    {
        let mut i: usize = 0;
        while i < self.external_object_store.len()
            invariant
                i <= self.external_object_store@.len(),
                forall|j: int| 0 <= j < i ==> (#[trigger] self.external_view()[j]).0 != k@,
            decreases self.external_object_store@.len() - i,
        {
            if str_eq(self.external_object_store[i].0.as_str(), k) {
                proof {
                    assert(self.external_view()[i as int].0 == k@);
                }
                return true;
            }
            i = i + 1;
        }
        false
    }

    /// The URL bound to `k` in the external mapping, if any.
    pub fn lookup_external(&self, k: &str) -> (r: Option<&String>)
        ensures
            match r {
                Some(u) => lookup_in(self.external_view(), k@) == Some(u@),
                None => lookup_in(self.external_view(), k@) is None,
            },
    {
        proof {
            assert(self.external_view().skip(0) =~= self.external_view());
        }
        let mut i: usize = 0;
        while i < self.external_object_store.len()
            invariant
                i <= self.external_object_store@.len(),
                lookup_in(self.external_view(), k@) == lookup_in(
                    self.external_view().skip(i as int),
                    k@,
                ),
            decreases self.external_object_store@.len() - i,
        {
            if str_eq(self.external_object_store[i].0.as_str(), k) {
                proof {
                    assert(self.external_view().skip(i as int)[0] == self.external_view()[
                        i as int
                    ]);
                }
                return Some(&self.external_object_store[i].1);
            }
            i = i + 1;
            proof {
                assert(self.external_view().skip(i as int - 1).drop_first()
                    =~= self.external_view().skip(i as int));
                assert(self.external_view().skip(i as int - 1)[0] == self.external_view()[
                    i as int - 1
                ]);
            }
        }
        proof {
            assert(self.external_view().skip(self.external_view().len() as int)
                =~= Seq::<(Seq<char>, Seq<char>)>::empty());
        }
        None
    }

    /// The keys of the internal mapping, in insertion order.
    pub fn internal_keys(&self) -> (r: Vec<String>)
        ensures
            r.deep_view() == keys_of(self.internal_view()),
    {
        let mut r: Vec<String> = Vec::new();
        let mut i: usize = 0;
        while i < self.internal_object_store.len()
            invariant
                i <= self.internal_object_store@.len(),
                r@.len() == i,
                forall|k: int| 0 <= k < i ==> (#[trigger] r@[k])@ == self.internal_view()[k].0,
            decreases self.internal_object_store@.len() - i,
        {
            r.push(self.internal_object_store[i].0.clone());
            i = i + 1;
        }
        proof {
            assert forall|k: int|
                0 <= k < r@.len() implies r.deep_view()[k] == keys_of(self.internal_view())[k] by {
                assert(r@[k]@ == self.internal_view()[k].0);
            }
            assert(r.deep_view() =~= keys_of(self.internal_view()));
        }
        r
    }

    /// The keys of the external mapping, in insertion order.
    pub fn external_keys(&self) -> (r: Vec<String>)
        ensures
            r.deep_view() == keys_of(self.external_view()),
    {
        let mut r: Vec<String> = Vec::new();
        let mut i: usize = 0;
        while i < self.external_object_store.len()
            invariant
                i <= self.external_object_store@.len(),
                r@.len() == i,
                forall|k: int| 0 <= k < i ==> (#[trigger] r@[k])@ == self.external_view()[k].0,
            decreases self.external_object_store@.len() - i,
        {
            r.push(self.external_object_store[i].0.clone());
            i = i + 1;
        }
        proof {
            assert forall|k: int|
                0 <= k < r@.len() implies r.deep_view()[k] == keys_of(self.external_view())[k] by {
                assert(r@[k]@ == self.external_view()[k].0);
            }
            assert(r.deep_view() =~= keys_of(self.external_view()));
        }
        r
    }

    /// Binds `key` to `object` in the internal mapping; an existing binding
    /// of the same fully-qualified name is a hard error and nothing is
    /// changed.
    pub fn insert_internal(&mut self, key: String, object: ObjectDocumentation) -> (r: Result<
        (),
        IndexError,
    >)
        ensures
            match r {
                Ok(_) => !has_key(old(self).internal_view(), key@) && final(self).internal_view()
                    == old(self).internal_view().push((key@, object@)),
                Err(e) => has_key(old(self).internal_view(), key@) && *final(self) == *old(self)
                    && (e matches IndexError::DuplicateSymbol { key: k } && k@ == key@),
            },
            final(self).external_view() == old(self).external_view(),
            final(self).pkg_name == old(self).pkg_name,
            final(self).skip_undoc == old(self).skip_undoc,
            final(self).skip_private == old(self).skip_private,
            final(self).pkg_root == old(self).pkg_root,
            old(self).wf() ==> final(self).wf(),
    {
        if self.contains_internal(key.as_str()) {
            return Err(IndexError::DuplicateSymbol { key });
        }
        let ghost old_views = self.internal_view();
        self.internal_object_store.push((key, object));
        proof {
            assert(self.internal_view() =~= old_views.push(
                (self.internal_object_store@.last().0@, self.internal_object_store@.last().1@),
            ));
            if old(self).wf() {
                assert forall|i: int, j: int|
                    0 <= i < j < self.internal_view().len() implies (
                #[trigger] self.internal_view()[i]).0 != (#[trigger] self.internal_view()[j]).0 by {
                    if j == self.internal_view().len() - 1 {
                        assert(!has_key(old_views, self.internal_view()[j].0));
                    }
                }
            }
        }
        Ok(())
    }

    /// Binds `key` to `url` in the external mapping, overwriting any
    /// existing binding: external sources are authoritative per fetch, the
    /// last writer wins.
    pub fn insert_external(&mut self, key: String, url: String)
        ensures
            final(self).external_view() == assoc_overwrite(
                old(self).external_view(),
                key@,
                url@,
            ),
            final(self).internal_view() == old(self).internal_view(),
            final(self).pkg_name == old(self).pkg_name,
            final(self).skip_undoc == old(self).skip_undoc,
            final(self).skip_private == old(self).skip_private,
            final(self).pkg_root == old(self).pkg_root,
            old(self).wf() ==> final(self).wf(),
    {
        let ghost old_ext = self.external_view();
        let mut i: usize = 0;
        while i < self.external_object_store.len()
            invariant
                i <= self.external_object_store@.len(),
                old_ext == self.external_view(),
                old(self).internal_view() == self.internal_view(),
                *old(self) == *self,
                forall|j: int| 0 <= j < i ==> (#[trigger] old_ext[j]).0 != key@,
            decreases self.external_object_store@.len() - i,
        {
            if str_eq(self.external_object_store[i].0.as_str(), key.as_str()) {
                proof {
                    lemma_first_key_index_scan(old_ext, key@, i as int);
                    assert(first_key_index(old_ext, key@) == i);
                }
                self.external_object_store[i] = (key, url);
                proof {
                    assert(self.external_view() =~= old_ext.update(i as int, (key@, url@)));
                    if old(self).wf() {
                        assert forall|a: int, b: int|
                            0 <= a < b < self.external_view().len() implies (
                        #[trigger] self.external_view()[a]).0 != (#[trigger] self.external_view()[
                            b
                        ]).0 by {
                            assert(old_ext[a].0 != old_ext[b].0);
                            if a == i as int {
                                assert(old_ext[a].0 == key@);
                            }
                            if b == i as int {
                                assert(old_ext[b].0 == key@);
                            }
                        }
                    }
                }
                return ;
            }
            i = i + 1;
        }
        proof {
            lemma_first_key_index_scan(old_ext, key@, old_ext.len() as int);
            assert(first_key_index(old_ext, key@) == -1);
        }
        self.external_object_store.push((key, url));
        proof {
            assert(self.external_view() =~= old_ext.push((key@, url@)));
            if old(self).wf() {
                assert forall|a: int, b: int|
                    0 <= a < b < self.external_view().len() implies (
                #[trigger] self.external_view()[a]).0 != (#[trigger] self.external_view()[b]).0 by {
                    if b == self.external_view().len() - 1 {
                        assert(forall|j: int|
                            0 <= j < old_ext.len() ==> (#[trigger] old_ext[j]).0 != key@);
                    }
                }
            }
        }
    }
}

/// Scanning the entries in order decides the first index of a key: if the
/// first `i` keys differ from `k`, a hit at `i` is the first binding, and a
/// scan past the end means the key is absent.
pub proof fn lemma_first_key_index_scan<V>(s: Seq<(Seq<char>, V)>, k: Seq<char>, i: int)
    requires
        0 <= i <= s.len(),
        forall|j: int| 0 <= j < i ==> (#[trigger] s[j]).0 != k,
    ensures
        i < s.len() && s[i].0 == k ==> first_key_index(s, k) == i,
        i == s.len() ==> first_key_index(s, k) == -1,
    decreases s.len(),
{
    if s.len() > 0 && i > 0 {
        assert forall|j: int| 0 <= j < i - 1 implies (#[trigger] s.drop_first()[j]).0 != k by {
            assert(s[j + 1].0 != k);
        }
        lemma_first_key_index_scan(s.drop_first(), k, i - 1);
        if i < s.len() {
            assert(s.drop_first()[i - 1] == s[i]);
        }
    }
}

/// The fully-qualified name `prefix.name`.
pub open spec fn dotted(prefix: Seq<char>, name: Seq<char>) -> Seq<char> {
    prefix + seq!['.'] + name
}

/// Builds the fully-qualified name `prefix.name`.
pub fn dotted_string(prefix: &str, name: &str) -> (r: String)
    ensures
        r@ == dotted(prefix@, name@),
{
    let mut s = String::from_str(prefix);
    s.push('.');
    s.append(name);
    proof {
        assert(s@ =~= dotted(prefix@, name@));
    }
    s
}

/// Builds the import path of a module file: the package name joined with
/// every path segment of the relative file path, extension stripped.
pub fn get_from_import_path(pkg_name: String, relative_module_file_path: &str) -> (r: Result<
    String,
    IndexError,
>)
    ensures
        r matches Ok(s) && s@ == import_path_of(pkg_name@, relative_module_file_path@),
{
    let out = import_path_chars(pkg_name.as_str(), relative_module_file_path);
    Ok(chars_to_string(&out))
}

/// The fully-qualified module path of a file: its import path, with a
/// trailing `.__init__` stripped, since such a file stands for its package.
pub fn derive_import_path(pkg_name: &str, relative_module_file_path: &str) -> (r: String)
    ensures
        r@ == module_import_path_of(pkg_name@, relative_module_file_path@),
{
    let mut out = import_path_chars(pkg_name, relative_module_file_path);
    let n = out.len();
    if n >= 9 && ends_with_init_suffix(&out) {
        out.truncate(n - 9);
        proof {
            assert(out@ =~= strip_init_suffix(import_path_of(
                pkg_name@,
                relative_module_file_path@,
            )));
        }
    }
    chars_to_string(&out)
}

/// The character vector ends with `.__init__`.
fn ends_with_init_suffix(v: &Vec<char>) -> (r: bool)
    requires
        v@.len() >= 9,
    ensures
        r == (v@.subrange(v@.len() - 9, v@.len() as int) == init_suffix()),
{
    let n = v.len();
    let r = v[n - 9] == '.' && v[n - 8] == '_' && v[n - 7] == '_' && v[n - 6] == 'i' && v[n - 5]
        == 'n' && v[n - 4] == 'i' && v[n - 3] == 't' && v[n - 2] == '_' && v[n - 1] == '_';
    proof {
        if r {
            assert(v@.subrange(v@.len() - 9, v@.len() as int) =~= init_suffix());
        } else {
            assert(v@.subrange(v@.len() - 9, v@.len() as int) != init_suffix());
        }
    }
    r
}


/// No entry among the first `n` planned entries collides with the store
/// contents or with an earlier planned entry.
pub open spec fn no_dup_upto(
    base: Seq<(Seq<char>, ObjectDocView)>,
    entries: Seq<(Seq<char>, ObjectDocView)>,
    n: int,
) -> bool {
    forall|j: int| 0 <= j < n ==> !has_key(base + entries.take(j), (#[trigger] entries[j]).0)
}

/// The outcome of inserting every planned entry in order, none colliding.
pub open spec fn insert_run_ok(
    base: Seq<(Seq<char>, ObjectDocView)>,
    entries: Seq<(Seq<char>, ObjectDocView)>,
    result: Seq<(Seq<char>, ObjectDocView)>,
) -> bool {
    no_dup_upto(base, entries, entries.len() as int) && result == base + entries
}

/// The outcome of inserting planned entries in order until the first
/// collision: the entries before it are inserted, the colliding key is
/// reported, and nothing after it is touched.
pub open spec fn insert_run_err(
    base: Seq<(Seq<char>, ObjectDocView)>,
    entries: Seq<(Seq<char>, ObjectDocView)>,
    result: Seq<(Seq<char>, ObjectDocView)>,
    err_key: Seq<char>,
) -> bool {
    exists|dp: int|
        #![trigger entries.take(dp)]
        0 <= dp < entries.len() && no_dup_upto(base, entries, dp) && has_key(
            base + entries.take(dp),
            (entries[dp]).0,
        ) && result == base + entries.take(dp) && err_key == (entries[dp]).0
}

/// The planned entries for a run of function documentations under a
/// prefix: one entry `prefix.name` for each qualifying function, in order.
pub open spec fn planned_function_entries(
    fs: Seq<FunctionDocView>,
    prefix: Seq<char>,
    skip_private: bool,
    skip_undoc: bool,
) -> Seq<(Seq<char>, ObjectDocView)>
    decreases fs.len(),
{
    if fs.len() == 0 {
        Seq::empty()
    } else {
        let rest = planned_function_entries(fs.drop_last(), prefix, skip_private, skip_undoc);
        if function_included(fs.last(), skip_private, skip_undoc) {
            rest.push((dotted(prefix, fs.last().name), ObjectDocView::Function(fs.last())))
        } else {
            rest
        }
    }
}

/// The planned entries for one class under a prefix: the class itself at
/// `prefix.name`, then one entry for each qualifying method under the
/// class's fully-qualified name.
pub open spec fn planned_class_entries(
    c: ClassDocView,
    prefix: Seq<char>,
    skip_private: bool,
    skip_undoc: bool,
) -> Seq<(Seq<char>, ObjectDocView)> {
    seq![(dotted(prefix, c.name), ObjectDocView::Class(c))] + planned_function_entries(
        c.methods,
        dotted(prefix, c.name),
        skip_private,
        skip_undoc,
    )
}

/// The planned entries for a run of classes: the entries of each
/// qualifying class, in order.
pub open spec fn planned_classes_entries(
    cs: Seq<ClassDocView>,
    prefix: Seq<char>,
    skip_private: bool,
    skip_undoc: bool,
) -> Seq<(Seq<char>, ObjectDocView)>
    decreases cs.len(),
{
    if cs.len() == 0 {
        Seq::empty()
    } else {
        let rest = planned_classes_entries(cs.drop_last(), prefix, skip_private, skip_undoc);
        if class_included(cs.last(), skip_private, skip_undoc) {
            rest + planned_class_entries(cs.last(), prefix, skip_private, skip_undoc)
        } else {
            rest
        }
    }
}

/// The planned entries for one file's module documentation: nothing if the
/// module does not qualify; otherwise the module itself under its import
/// path, then every qualifying class with its methods, then every
/// qualifying free function.
pub open spec fn planned_file_entries(
    m: ModuleDocView,
    path: Seq<char>,
    skip_private: bool,
    skip_undoc: bool,
) -> Seq<(Seq<char>, ObjectDocView)> {
    if module_included(m, skip_undoc) {
        seq![(path, ObjectDocView::Module(m))] + planned_classes_entries(
            m.classes,
            path,
            skip_private,
            skip_undoc,
        ) + planned_function_entries(m.functions, path, skip_private, skip_undoc)
    } else {
        Seq::empty()
    }
}

/// The class qualifies for the index under the scope flags.
pub fn should_include_class(
    class_docs: &ClassDocumentation,
    skip_private: bool,
    skip_undoc: bool,
) -> (r: bool)
    ensures
        r == class_included(class_docs@, skip_private, skip_undoc),
{
    let undoc = match &class_docs.docstring {
        Some(_) => false,
        None => true,
    };
    (!skip_undoc || !undoc) && !(skip_private && crate::class::is_private_class(class_docs))
}

/// The function qualifies for the index under the scope flags.
pub fn should_include_function(
    func_docs: &FunctionDocumentation,
    skip_private: bool,
    skip_undoc: bool,
) -> (r: bool)
    ensures
        r == function_included(func_docs@, skip_private, skip_undoc),
{
    let undoc = match &func_docs.docstring {
        Some(_) => false,
        None => true,
    };
    (!skip_undoc || !undoc) && !(skip_private && crate::function::is_private_function(func_docs))
}

/// The module qualifies for the index under the scope flags.
pub fn should_include_module(mod_docs: &ModuleDocumentation, skip_undoc: bool) -> (r: bool)
    ensures
        r == module_included(mod_docs@, skip_undoc),
{
    let doc = match &mod_docs.docstring {
        Some(_) => true,
        None => false,
    };
    !skip_undoc || doc
}

/// Inserts the planned entries in order, stopping at the first collision.
fn insert_entries(index: &mut Index, entries: Vec<(String, ObjectDocumentation)>) -> (r: Result<
    (),
    IndexError,
>)
    requires
        old(index).wf(),
    ensures
        final(index).wf(),
        final(index).external_view() == old(index).external_view(),
        final(index).pkg_name == old(index).pkg_name,
        final(index).skip_undoc == old(index).skip_undoc,
        final(index).skip_private == old(index).skip_private,
        final(index).pkg_root == old(index).pkg_root,
        match r {
            Ok(_) => insert_run_ok(
                old(index).internal_view(),
                entry_views(entries@),
                final(index).internal_view(),
            ),
            Err(e) => e matches IndexError::DuplicateSymbol { key } && insert_run_err(
                old(index).internal_view(),
                entry_views(entries@),
                final(index).internal_view(),
                key@,
            ),
        },
{
    let ghost base = old(index).internal_view();
    let ghost evs = entry_views(entries@);
    proof {
        assert(evs.take(0) =~= Seq::<(Seq<char>, ObjectDocView)>::empty());
        assert(base + evs.take(0) =~= base);
    }
    let mut i: usize = 0;
    while i < entries.len()
        invariant
            i <= entries@.len(),
            evs == entry_views(entries@),
            base == old(index).internal_view(),
            index.wf(),
            index.internal_view() == base + evs.take(i as int),
            no_dup_upto(base, evs, i as int),
            index.external_view() == old(index).external_view(),
            index.pkg_name == old(index).pkg_name,
            index.skip_undoc == old(index).skip_undoc,
            index.skip_private == old(index).skip_private,
            index.pkg_root == old(index).pkg_root,
        decreases entries@.len() - i,
    {
        proof {
            assert(evs[i as int] == (entries@[i as int].0@, entries@[i as int].1@));
        }
        let key = entries[i].0.clone();
        let object = entries[i].1.duplicate();
        proof {
            assert((key@, object@) == evs[i as int]);
        }
        match index.insert_internal(key, object) {
            Ok(_) => {
                proof {
                    assert(evs.take(i as int + 1) =~= evs.take(i as int).push(evs[i as int]));
                    assert(index.internal_view() =~= base + evs.take(i as int + 1));
                    assert(!has_key(base + evs.take(i as int), evs[i as int].0));
                }
            },
            Err(e) => {
                proof {
                    assert(has_key(base + evs.take(i as int), evs[i as int].0));
                    assert((i as int) < evs.len() && no_dup_upto(base, evs, i as int)
                        && has_key(base + evs.take(i as int), (evs[i as int]).0)
                        && index.internal_view() == base + evs.take(i as int));
                    assert(insert_run_err(base, evs, index.internal_view(), (evs[i as int]).0));
                }
                return Err(e);
            },
        }
        i = i + 1;
    }
    proof {
        assert(evs.take(evs.len() as int) =~= evs);
    }
    Ok(())
}

/// Builds the planned entries for one class under a prefix.
fn plan_class_entries(
    c: &ClassDocumentation,
    prefix: &str,
    skip_private: bool,
    skip_undoc: bool,
) -> (v: Vec<(String, ObjectDocumentation)>)
    ensures
        entry_views(v@) == planned_class_entries(c@, prefix@, skip_private, skip_undoc),
{
    let mut v: Vec<(String, ObjectDocumentation)> = Vec::new();
    let class_key = dotted_string(prefix, c.name.as_str());
    let ghost ck = dotted(prefix@, c@.name);
    v.push((class_key.clone(), ObjectDocumentation::Class(c.duplicate())));
    proof {
        assert(entry_views(v@) =~= seq![(ck, ObjectDocView::Class(c@))]);
        assert(planned_function_entries(
            c@.methods.take(0),
            ck,
            skip_private,
            skip_undoc,
        ) =~= Seq::<(Seq<char>, ObjectDocView)>::empty());
        assert(entry_views(v@) =~= seq![(ck, ObjectDocView::Class(c@))]
            + planned_function_entries(c@.methods.take(0), ck, skip_private, skip_undoc));
    }
    let mut i: usize = 0;
    while i < c.methods.len()
        invariant
            i <= c.methods@.len(),
            class_key@ == ck,
            ck == dotted(prefix@, c@.name),
            c@.methods == crate::class::function_doc_views(c.methods@),
            entry_views(v@) == seq![(ck, ObjectDocView::Class(c@))] + planned_function_entries(
                c@.methods.take(i as int),
                ck,
                skip_private,
                skip_undoc,
            ),
        decreases c.methods@.len() - i,
    {
        let m = &c.methods[i];
        proof {
            assert(c@.methods[i as int] == c.methods@[i as int]@);
        }
        if should_include_function(m, skip_private, skip_undoc) {
            let ghost old_evs = entry_views(v@);
            v.push(
                (
                    dotted_string(class_key.as_str(), m.name.as_str()),
                    ObjectDocumentation::Function(m.duplicate()),
                ),
            );
            proof {
                assert(entry_views(v@) =~= old_evs.push(
                    (dotted(ck, c@.methods[i as int].name), ObjectDocView::Function(
                        c@.methods[i as int],
                    )),
                ));
            }
        }
        i = i + 1;
        proof {
            assert(c@.methods.take(i as int).drop_last() =~= c@.methods.take(i as int - 1));
            assert(c@.methods.take(i as int).last() == c@.methods[i as int - 1]);
            assert(entry_views(v@) =~= seq![(ck, ObjectDocView::Class(c@))]
                + planned_function_entries(c@.methods.take(i as int), ck, skip_private, skip_undoc));
        }
    }
    proof {
        assert(c@.methods.take(c@.methods.len() as int) =~= c@.methods);
    }
    v
}

/// Builds the planned entries for one file's module documentation.
fn plan_file_entries(
    mod_docs: &ModuleDocumentation,
    path: &str,
    skip_private: bool,
    skip_undoc: bool,
) -> (v: Vec<(String, ObjectDocumentation)>)
    ensures
        entry_views(v@) == planned_file_entries(mod_docs@, path@, skip_private, skip_undoc),
{
    let mut v: Vec<(String, ObjectDocumentation)> = Vec::new();
    if !should_include_module(mod_docs, skip_undoc) {
        proof {
            assert(entry_views(v@) =~= Seq::<(Seq<char>, ObjectDocView)>::empty());
        }
        return v;
    }
    v.push((String::from_str(path), ObjectDocumentation::Module(mod_docs.duplicate())));
    let ghost head = seq![(path@, ObjectDocView::Module(mod_docs@))];
    proof {
        assert(entry_views(v@) =~= head);
        assert(planned_classes_entries(
            mod_docs@.classes.take(0),
            path@,
            skip_private,
            skip_undoc,
        ) =~= Seq::<(Seq<char>, ObjectDocView)>::empty());
        assert(entry_views(v@) =~= head + planned_classes_entries(
            mod_docs@.classes.take(0),
            path@,
            skip_private,
            skip_undoc,
        ));
    }
    let mut i: usize = 0;
    while i < mod_docs.classes.len()
        invariant
            i <= mod_docs.classes@.len(),
            head == seq![(path@, ObjectDocView::Module(mod_docs@))],
            mod_docs@.classes == crate::module::class_doc_views(mod_docs.classes@),
            entry_views(v@) == head + planned_classes_entries(
                mod_docs@.classes.take(i as int),
                path@,
                skip_private,
                skip_undoc,
            ),
        decreases mod_docs.classes@.len() - i,
    {
        let c = &mod_docs.classes[i];
        proof {
            assert(mod_docs@.classes[i as int] == mod_docs.classes@[i as int]@);
        }
        if should_include_class(c, skip_private, skip_undoc) {
            let ghost old_evs = entry_views(v@);
            let mut ce = plan_class_entries(c, path, skip_private, skip_undoc);
            let ghost ce_views = entry_views(ce@);
            v.append(&mut ce);
            proof {
                assert forall|t: int| 0 <= t < entry_views(v@).len() implies entry_views(v@)[t]
                    == (old_evs + ce_views)[t] by {}
                assert(entry_views(v@) =~= old_evs + ce_views);
            }
        }
        i = i + 1;
        proof {
            assert(mod_docs@.classes.take(i as int).drop_last() =~= mod_docs@.classes.take(
                i as int - 1,
            ));
            assert(mod_docs@.classes.take(i as int).last() == mod_docs@.classes[i as int - 1]);
            assert(entry_views(v@) =~= head + planned_classes_entries(
                mod_docs@.classes.take(i as int),
                path@,
                skip_private,
                skip_undoc,
            ));
        }
    }
    let ghost classes_part = planned_classes_entries(
        mod_docs@.classes,
        path@,
        skip_private,
        skip_undoc,
    );
    proof {
        assert(mod_docs@.classes.take(mod_docs@.classes.len() as int) =~= mod_docs@.classes);
        assert(planned_function_entries(
            mod_docs@.functions.take(0),
            path@,
            skip_private,
            skip_undoc,
        ) =~= Seq::<(Seq<char>, ObjectDocView)>::empty());
        assert(entry_views(v@) =~= head + classes_part + planned_function_entries(
            mod_docs@.functions.take(0),
            path@,
            skip_private,
            skip_undoc,
        ));
    }
    let mut j: usize = 0;
    while j < mod_docs.functions.len()
        invariant
            j <= mod_docs.functions@.len(),
            head == seq![(path@, ObjectDocView::Module(mod_docs@))],
            classes_part == planned_classes_entries(
                mod_docs@.classes,
                path@,
                skip_private,
                skip_undoc,
            ),
            mod_docs@.functions == crate::class::function_doc_views(mod_docs.functions@),
            entry_views(v@) == head + classes_part + planned_function_entries(
                mod_docs@.functions.take(j as int),
                path@,
                skip_private,
                skip_undoc,
            ),
        decreases mod_docs.functions@.len() - j,
    {
        let f = &mod_docs.functions[j];
        proof {
            assert(mod_docs@.functions[j as int] == mod_docs.functions@[j as int]@);
        }
        if should_include_function(f, skip_private, skip_undoc) {
            let ghost old_evs = entry_views(v@);
            v.push(
                (
                    dotted_string(path, f.name.as_str()),
                    ObjectDocumentation::Function(f.duplicate()),
                ),
            );
            proof {
                assert(entry_views(v@) =~= old_evs.push(
                    (dotted(path@, mod_docs@.functions[j as int].name), ObjectDocView::Function(
                        mod_docs@.functions[j as int],
                    )),
                ));
            }
        }
        j = j + 1;
        proof {
            assert(mod_docs@.functions.take(j as int).drop_last() =~= mod_docs@.functions.take(
                j as int - 1,
            ));
            assert(mod_docs@.functions.take(j as int).last() == mod_docs@.functions[j as int - 1]);
            assert(entry_views(v@) =~= head + classes_part + planned_function_entries(
                mod_docs@.functions.take(j as int),
                path@,
                skip_private,
                skip_undoc,
            ));
        }
    }
    proof {
        assert(mod_docs@.functions.take(mod_docs@.functions.len() as int) =~= mod_docs@.functions);
    }
    v
}

/// Inserts one function documentation under `prefix.name`; a duplicate
/// fully-qualified name is a hard error and nothing is changed.
pub fn index_functions(
    index: &mut Index,
    func_docs: &FunctionDocumentation,
    prefix: String,
) -> (r: Result<(), IndexError>)
    requires
        old(index).wf(),
    ensures
        final(index).wf(),
        final(index).external_view() == old(index).external_view(),
        final(index).pkg_name == old(index).pkg_name,
        final(index).skip_undoc == old(index).skip_undoc,
        final(index).skip_private == old(index).skip_private,
        final(index).pkg_root == old(index).pkg_root,
        match r {
            Ok(_) => !has_key(old(index).internal_view(), dotted(prefix@, func_docs@.name))
                && final(index).internal_view() == old(index).internal_view().push(
                (dotted(prefix@, func_docs@.name), ObjectDocView::Function(func_docs@)),
            ),
            Err(e) => has_key(old(index).internal_view(), dotted(prefix@, func_docs@.name))
                && *final(index) == *old(index) && (e matches IndexError::DuplicateSymbol {
                key: k,
            } && k@ == dotted(prefix@, func_docs@.name)),
        },
{
    let key = dotted_string(prefix.as_str(), func_docs.name.as_str());
    index.insert_internal(key, ObjectDocumentation::Function(func_docs.duplicate()))
}

/// Inserts one class and its qualifying methods under `prefix.name`,
/// stopping at the first duplicate fully-qualified name.
pub fn index_class(index: &mut Index, class_docs: &ClassDocumentation, prefix: String) -> (r:
    Result<(), IndexError>)
    requires
        old(index).wf(),
    ensures
        final(index).wf(),
        final(index).external_view() == old(index).external_view(),
        final(index).pkg_name == old(index).pkg_name,
        final(index).skip_undoc == old(index).skip_undoc,
        final(index).skip_private == old(index).skip_private,
        final(index).pkg_root == old(index).pkg_root,
        ({
            let entries = planned_class_entries(
                class_docs@,
                prefix@,
                old(index).skip_private,
                old(index).skip_undoc,
            );
            match r {
                Ok(_) => insert_run_ok(
                    old(index).internal_view(),
                    entries,
                    final(index).internal_view(),
                ),
                Err(e) => e matches IndexError::DuplicateSymbol { key } && insert_run_err(
                    old(index).internal_view(),
                    entries,
                    final(index).internal_view(),
                    key@,
                ),
            }
        }),
{
    let sp = index.skip_private;
    let su = index.skip_undoc;
    let entries = plan_class_entries(class_docs, prefix.as_str(), sp, su);
    insert_entries(index, entries)
}

impl Index {
    /// Indexes one file: derives the file's fully-qualified module path,
    /// extracts its documentation honoring the scope flags, and inserts the
    /// module, its qualifying classes with their qualifying methods, and
    /// its qualifying free functions, stopping at the first duplicate
    /// fully-qualified name.
    pub fn index_file(&mut self, rel_path: &str, parsed: &PyParsedModule) -> (r: Result<
        (),
        IndexError,
    >)
        requires
            old(self).wf(),
        ensures
            final(self).wf(),
            final(self).external_view() == old(self).external_view(),
            final(self).pkg_name == old(self).pkg_name,
            final(self).skip_undoc == old(self).skip_undoc,
            final(self).skip_private == old(self).skip_private,
            final(self).pkg_root == old(self).pkg_root,
            ({
                let m = spec_extract_module(*parsed, old(self).skip_private, old(self).skip_undoc);
                let path = module_import_path_of(old(self).pkg_name@, rel_path@);
                let entries = planned_file_entries(
                    m,
                    path,
                    old(self).skip_private,
                    old(self).skip_undoc,
                );
                match r {
                    Ok(_) => insert_run_ok(
                        old(self).internal_view(),
                        entries,
                        final(self).internal_view(),
                    ),
                    Err(e) => e matches IndexError::DuplicateSymbol { key } && insert_run_err(
                        old(self).internal_view(),
                        entries,
                        final(self).internal_view(),
                        key@,
                    ),
                }
            }),
    {
        let module_import_path = derive_import_path(self.pkg_name.as_str(), rel_path);
        let mod_docs = extract_module_documentation(parsed, self.skip_private, self.skip_undoc);
        let entries = plan_file_entries(
            &mod_docs,
            module_import_path.as_str(),
            self.skip_private,
            self.skip_undoc,
        );
        insert_entries(self, entries)
    }
}


/// A successful indexing run grows the store by exactly one entry per
/// qualifying symbol: the entries it already held stand unchanged, and
/// each planned symbol stands behind them under its derived
/// fully-qualified name.
pub proof fn lemma_successful_run_adds_exactly(
    base: Seq<(Seq<char>, ObjectDocView)>,
    entries: Seq<(Seq<char>, ObjectDocView)>,
    result: Seq<(Seq<char>, ObjectDocView)>,
)
    requires
        insert_run_ok(base, entries, result),
    ensures
        result.len() == base.len() + entries.len(),
        forall|j: int| 0 <= j < base.len() ==> #[trigger] result[j] == base[j],
        forall|j: int| 0 <= j < entries.len() ==> #[trigger] result[base.len() + j] == entries[j],
{
}

/// A successful indexing run never overwrote a binding: all keys of the
/// result, old and newly planned alike, are pairwise distinct.
pub proof fn lemma_successful_run_keys_unique(
    base: Seq<(Seq<char>, ObjectDocView)>,
    entries: Seq<(Seq<char>, ObjectDocView)>,
    result: Seq<(Seq<char>, ObjectDocView)>,
)
    requires
        keys_unique(base),
        insert_run_ok(base, entries, result),
    ensures
        keys_unique(result),
{
    assert forall|a: int, b: int|
        0 <= a < b < result.len() implies (#[trigger] result[a]).0 != (#[trigger] result[b]).0 by {
        if b >= base.len() {
            let j = b - base.len();
            assert(!has_key(base + entries.take(j), entries[j].0));
            assert((base + entries.take(j))[a] == result[a]);
            assert(result[b] == entries[j]);
        }
    }
}

/// A run stopped by a duplicate fully-qualified name reports a key that is
/// already bound, and leaves every entry the store already held in place:
/// the first binding is never silently overwritten.
pub proof fn lemma_failed_run_preserves(
    base: Seq<(Seq<char>, ObjectDocView)>,
    entries: Seq<(Seq<char>, ObjectDocView)>,
    result: Seq<(Seq<char>, ObjectDocView)>,
    k: Seq<char>,
)
    requires
        insert_run_err(base, entries, result, k),
    ensures
        base.len() <= result.len(),
        forall|j: int| 0 <= j < base.len() ==> #[trigger] result[j] == base[j],
        has_key(result, k),
{
    let dp = choose|dp: int|
        #![trigger entries.take(dp)]
        0 <= dp < entries.len() && no_dup_upto(base, entries, dp) && has_key(
            base + entries.take(dp),
            (entries[dp]).0,
        ) && result == base + entries.take(dp) && k == (entries[dp]).0;
    assert(result == base + entries.take(dp));
}

/// Exclusion is transitive through containment: a module excluded by the
/// undocumented rule contributes nothing at all to the index — none of its
/// nested classes, methods or free functions are visited, however
/// documented or public they are individually.
pub proof fn lemma_excluded_module_contributes_nothing(
    m: ModuleDocView,
    path: Seq<char>,
    skip_private: bool,
    skip_undoc: bool,
)
    requires
        !module_included(m, skip_undoc),
    ensures
        planned_file_entries(m, path, skip_private, skip_undoc) == Seq::<
            (Seq<char>, ObjectDocView),
        >::empty(),
{
}

} // verus!
