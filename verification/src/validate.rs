//! Reference validation: walks every internal documentation object,
//! extracts the references its docstring uses, and checks each against both
//! mappings; every unresolved reference in the whole index is reported in
//! one pass, each with a best-effort nearest-match hint.

use vstd::prelude::*;
use crate::function::spec_used_refs;
use crate::index::{has_key, keys_of, Index};
use crate::object::ObjectDocView;
use crate::object_ref::SpecRef;
use crate::suggest::{is_suggestion_outcome, opt_sug_view, suggest};

verus! {

/// The length-proximity bound used when searching for a suggestion.
pub const SUGGESTION_LENGTH_DELTA: usize = 5;

/// The edit-distance cut-off used when searching for a suggestion.
pub const SUGGESTION_EDIT_DISTANCE: usize = 5;

/// One unresolved reference: the object whose docstring uses it, the
/// target that resolved to neither mapping, and a nearest-match hint with
/// its edit distance, where one was found.
#[derive(Debug)]
pub struct ValidationError {
    pub object_key: String,
    pub target: String,
    pub suggestion: Option<(String, usize)>,
}

/// The mathematical value of a validation error.
pub ghost struct ValidationErrorView {
    pub object_key: Seq<char>,
    pub target: Seq<char>,
    pub suggestion: Option<(Seq<char>, int)>,
}

impl View for ValidationError {
    type V = ValidationErrorView;

    open spec fn view(&self) -> ValidationErrorView {
        ValidationErrorView {
            object_key: self.object_key@,
            target: self.target@,
            suggestion: opt_sug_view(self.suggestion),
        }
    }
}

/// The target resolves to neither the internal nor the external mapping.
pub open spec fn target_unresolved(
    iv: Seq<(Seq<char>, ObjectDocView)>,
    ev: Seq<(Seq<char>, Seq<char>)>,
    t: Seq<char>,
) -> bool {
    !has_key(iv, t) && !has_key(ev, t)
}

/// The unresolved targets among the references, in order.
pub open spec fn unresolved_targets(
    refs: Seq<SpecRef>,
    iv: Seq<(Seq<char>, ObjectDocView)>,
    ev: Seq<(Seq<char>, Seq<char>)>,
) -> Seq<Seq<char>>
    decreases refs.len(),
{
    if refs.len() == 0 {
        Seq::empty()
    } else {
        let rest = unresolved_targets(refs.drop_last(), iv, ev);
        if target_unresolved(iv, ev, refs.last().name) {
            rest.push(refs.last().name)
        } else {
            rest
        }
    }
}

/// The (object key, unresolved target) pairs one object contributes.
pub open spec fn object_unresolved_pairs(
    key: Seq<char>,
    o: ObjectDocView,
    iv: Seq<(Seq<char>, ObjectDocView)>,
    ev: Seq<(Seq<char>, Seq<char>)>,
) -> Seq<(Seq<char>, Seq<char>)> {
    unresolved_targets(spec_used_refs(o.docstring()), iv, ev).map_values(
        |t: Seq<char>| (key, t),
    )
}

/// The pairs contributed by the first `n` objects of the store, in store
/// order.
pub open spec fn unresolved_pairs_upto(
    iv: Seq<(Seq<char>, ObjectDocView)>,
    ev: Seq<(Seq<char>, Seq<char>)>,
    n: int,
) -> Seq<(Seq<char>, Seq<char>)>
    decreases n,
{
    if n <= 0 {
        Seq::empty()
    } else {
        unresolved_pairs_upto(iv, ev, n - 1) + object_unresolved_pairs(
            iv[n - 1].0,
            iv[n - 1].1,
            iv,
            ev,
        )
    }
}

/// Every unresolved reference of the whole store, as (object key, target)
/// pairs in walk order.
pub open spec fn spec_unresolved_pairs(
    iv: Seq<(Seq<char>, ObjectDocView)>,
    ev: Seq<(Seq<char>, Seq<char>)>,
) -> Seq<(Seq<char>, Seq<char>)> {
    unresolved_pairs_upto(iv, ev, iv.len() as int)
}

/// The combined hint: the internal candidate is preferred unless the
/// external candidate strictly beats it on edit distance.
pub open spec fn preferred_suggestion(
    internal_out: Option<(Seq<char>, int)>,
    external_out: Option<(Seq<char>, int)>,
) -> Option<(Seq<char>, int)> {
    match (internal_out, external_out) {
        (Some(a), Some(b)) => if b.1 < a.1 {
            Some(b)
        } else {
            Some(a)
        },
        (Some(a), None) => Some(a),
        (None, Some(b)) => Some(b),
        (None, None) => None,
    }
}

/// `out` is the combined hint of a suggestion search over the internal
/// keys and one over the external keys, under the validator's bounds.
pub open spec fn suggestion_ok(
    u: Seq<char>,
    ikeys: Seq<Seq<char>>,
    ekeys: Seq<Seq<char>>,
    out: Option<(Seq<char>, int)>,
) -> bool {
    exists|io: Option<(Seq<char>, int)>, eo: Option<(Seq<char>, int)>|
        {
            &&& #[trigger] is_suggestion_outcome(
                u,
                ikeys,
                SUGGESTION_LENGTH_DELTA as nat,
                SUGGESTION_EDIT_DISTANCE as nat,
                io,
            )
            &&& #[trigger] is_suggestion_outcome(
                u,
                ekeys,
                SUGGESTION_LENGTH_DELTA as nat,
                SUGGESTION_EDIT_DISTANCE as nat,
                eo,
            )
            &&& out == preferred_suggestion(io, eo)
        }
}

impl Index {
    /// Checks every reference of every internal object against both
    /// mappings: success means every reference resolves; otherwise the
    /// full list of unresolved references is returned, one error per
    /// occurrence in walk order, never stopping at the first, each with a
    /// nearest-match hint where either mapping offers one.
    pub fn validate_references(&self) -> (r: Result<(), Vec<ValidationError>>)
        ensures
            ({
                let pairs = spec_unresolved_pairs(self.internal_view(), self.external_view());
                match r {
                    Ok(_) => pairs.len() == 0,
                    Err(errs) => {
                        &&& pairs.len() > 0
                        &&& errs@.len() == pairs.len()
                        &&& forall|j: int|
                            0 <= j < pairs.len() ==> (#[trigger] errs@[j])@.object_key == pairs[j].0
                                && errs@[j]@.target == pairs[j].1
                        &&& forall|j: int|
                            0 <= j < pairs.len() ==> suggestion_ok(
                                (#[trigger] errs@[j])@.target,
                                keys_of(self.internal_view()),
                                keys_of(self.external_view()),
                                errs@[j]@.suggestion,
                            )
                    },
                }
            }),
    {
        let ghost iv = self.internal_view();
        let ghost ev = self.external_view();
        let ikeys = self.internal_keys();
        let ekeys = self.external_keys();
        proof {
            assert forall|k: int|
                0 <= k < ikeys@.len() implies #[trigger] ikeys.deep_view()[k] == ikeys@[k]@ by {}
            assert forall|k: int|
                0 <= k < ekeys@.len() implies #[trigger] ekeys.deep_view()[k] == ekeys@[k]@ by {}
        }
        let mut errs: Vec<ValidationError> = Vec::new();
        let mut i: usize = 0;
        while i < self.internal_object_store.len()
            invariant
                i <= self.internal_object_store@.len(),
                iv == self.internal_view(),
                ev == self.external_view(),
                ikeys.deep_view() == keys_of(iv),
                ekeys.deep_view() == keys_of(ev),
                errs@.len() == unresolved_pairs_upto(iv, ev, i as int).len(),
                forall|j: int|
                    0 <= j < errs@.len() ==> (#[trigger] errs@[j])@.object_key
                        == unresolved_pairs_upto(iv, ev, i as int)[j].0 && errs@[j]@.target
                        == unresolved_pairs_upto(iv, ev, i as int)[j].1,
                forall|j: int|
                    0 <= j < errs@.len() ==> suggestion_ok(
                        (#[trigger] errs@[j])@.target,
                        keys_of(iv),
                        keys_of(ev),
                        errs@[j]@.suggestion,
                    ),
            decreases self.internal_object_store@.len() - i,
        {
            proof {
                assert(iv[i as int]
                    == (self.internal_object_store@[i as int].0@, self.internal_object_store@[
                    i as int
                ].1@));
            }
            let refs = self.internal_object_store[i].1.extract_used_references();
            let ghost refs_views = refs@.map_values(|o: crate::object_ref::ObjectRef| o@);
            let ghost upto_here = unresolved_pairs_upto(iv, ev, i as int);
            let mut j: usize = 0;
            while j < refs.len()
                invariant
                    j <= refs@.len(),
                    iv == self.internal_view(),
                    ev == self.external_view(),
                    ikeys.deep_view() == keys_of(iv),
                    ekeys.deep_view() == keys_of(ev),
                    i < self.internal_object_store@.len(),
                    iv[i as int].0 == self.internal_object_store@[i as int].0@,
                    refs_views == refs@.map_values(|o: crate::object_ref::ObjectRef| o@),
                    refs_views == spec_used_refs(iv[i as int].1.docstring()),
                    upto_here == unresolved_pairs_upto(iv, ev, i as int),
                    errs@.len() == upto_here.len() + unresolved_targets(
                        refs_views.take(j as int),
                        iv,
                        ev,
                    ).len(),
                    forall|t: int|
                        0 <= t < errs@.len() ==> (#[trigger] errs@[t])@.object_key == (upto_here
                            + object_pairs_partial(iv[i as int].0, refs_views.take(j as int), iv, ev))[t].0
                            && errs@[t]@.target == (upto_here + object_pairs_partial(
                            iv[i as int].0,
                            refs_views.take(j as int),
                            iv,
                            ev,
                        ))[t].1,
                    forall|t: int|
                        0 <= t < errs@.len() ==> suggestion_ok(
                            (#[trigger] errs@[t])@.target,
                            keys_of(iv),
                            keys_of(ev),
                            errs@[t]@.suggestion,
                        ),
                decreases refs@.len() - j,
            {
                proof {
                    assert(refs_views[j as int] == refs@[j as int]@);
                }
                let target = &refs[j].fully_qualified_name;
                let in_internal = self.contains_internal(target.as_str());
                let in_external = self.contains_external(target.as_str());
                if !in_internal && !in_external {
                    let si = suggest(
                        target.as_str(),
                        &ikeys,
                        SUGGESTION_LENGTH_DELTA,
                        SUGGESTION_EDIT_DISTANCE,
                    );
                    proof {
                        assert(is_suggestion_outcome(
                            target@,
                            ikeys.deep_view(),
                            SUGGESTION_LENGTH_DELTA as nat,
                            SUGGESTION_EDIT_DISTANCE as nat,
                            opt_sug_view(si),
                        ));
                    }
                    let se = suggest(
                        target.as_str(),
                        &ekeys,
                        SUGGESTION_LENGTH_DELTA,
                        SUGGESTION_EDIT_DISTANCE,
                    );
                    proof {
                        assert(is_suggestion_outcome(
                            target@,
                            ekeys.deep_view(),
                            SUGGESTION_LENGTH_DELTA as nat,
                            SUGGESTION_EDIT_DISTANCE as nat,
                            opt_sug_view(se),
                        ));
                    }
                    let ghost gio = opt_sug_view(si);
                    let ghost geo = opt_sug_view(se);
                    let sug: Option<(String, usize)> = match (si, se) {
                        (Some(a), Some(b)) => if b.1 < a.1 {
                            Some(b)
                        } else {
                            Some(a)
                        },
                        (Some(a), None) => Some(a),
                        (None, Some(b)) => Some(b),
                        (None, None) => None,
                    };
                    proof {
                        assert(opt_sug_view(sug) == preferred_suggestion(gio, geo));
                        assert(suggestion_ok(target@, keys_of(iv), keys_of(ev), opt_sug_view(sug)));
                    }
                    let key_copy = self.internal_object_store[i].0.clone();
                    let ghost errs_before = errs@;
                    errs.push(
                        ValidationError {
                            object_key: key_copy,
                            target: target.clone(),
                            suggestion: sug,
                        },
                    );
                }
                j = j + 1;
                proof {
                    assert(refs_views.take(j as int).drop_last() =~= refs_views.take(j as int - 1));
                    assert(refs_views.take(j as int).last() == refs_views[j as int - 1]);
                }
            }
            proof {
                assert(refs_views.take(refs_views.len() as int) =~= refs_views);
                assert(unresolved_pairs_upto(iv, ev, i as int + 1) =~= upto_here
                    + object_unresolved_pairs(iv[i as int].0, iv[i as int].1, iv, ev));
            }
            i = i + 1;
        }
        proof {
            assert(unresolved_pairs_upto(iv, ev, iv.len() as int) == spec_unresolved_pairs(iv, ev));
        }
        if errs.len() == 0 {
            Ok(())
        } else {
            Err(errs)
        }
    }
}

/// The pairs a prefix of one object's references contributes.
pub open spec fn object_pairs_partial(
    key: Seq<char>,
    refs: Seq<SpecRef>,
    iv: Seq<(Seq<char>, ObjectDocView)>,
    ev: Seq<(Seq<char>, Seq<char>)>,
) -> Seq<(Seq<char>, Seq<char>)> {
    unresolved_targets(refs, iv, ev).map_values(|t: Seq<char>| (key, t))
}


/// A pair one object contributes stands in the run over a longer prefix.
proof fn lemma_upto_contains(
    iv: Seq<(Seq<char>, ObjectDocView)>,
    ev: Seq<(Seq<char>, Seq<char>)>,
    i: int,
    n: int,
    p: (Seq<char>, Seq<char>),
)
    requires
        0 <= i < n <= iv.len(),
        object_unresolved_pairs(iv[i].0, iv[i].1, iv, ev).contains(p),
    ensures
        unresolved_pairs_upto(iv, ev, n).contains(p),
    decreases n,
{
    let pairs = object_unresolved_pairs(iv[i].0, iv[i].1, iv, ev);
    if i == n - 1 {
        let j = choose|j: int| 0 <= j < pairs.len() && pairs[j] == p;
        assert(unresolved_pairs_upto(iv, ev, n)[unresolved_pairs_upto(iv, ev, n - 1).len() + j]
            == p);
    } else {
        lemma_upto_contains(iv, ev, i, n - 1, p);
        let prev = unresolved_pairs_upto(iv, ev, n - 1);
        let j = choose|j: int| 0 <= j < prev.len() && #[trigger] prev[j] == p;
        assert(unresolved_pairs_upto(iv, ev, n)[j] == p);
    }
}

/// Validation is complete: for every object of the store and every
/// unresolved target its docstring uses, the (object, target) pair stands
/// in the report — no unresolved reference stops the walk.
pub proof fn lemma_validation_reports_every_unresolved(
    iv: Seq<(Seq<char>, ObjectDocView)>,
    ev: Seq<(Seq<char>, Seq<char>)>,
    i: int,
    t: Seq<char>,
)
    requires
        0 <= i < iv.len(),
        unresolved_targets(spec_used_refs(iv[i].1.docstring()), iv, ev).contains(t),
    ensures
        spec_unresolved_pairs(iv, ev).contains((iv[i].0, t)),
{
    let targets = unresolved_targets(spec_used_refs(iv[i].1.docstring()), iv, ev);
    let j = choose|j: int| 0 <= j < targets.len() && targets[j] == t;
    assert(object_unresolved_pairs(iv[i].0, iv[i].1, iv, ev)[j] == (iv[i].0, t));
    lemma_upto_contains(iv, ev, i, iv.len() as int, (iv[i].0, t));
}

} // verus!
