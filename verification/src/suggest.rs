//! Best-effort nearest-match suggestions for unresolved references: a cheap
//! length-proximity prefilter followed by an exact edit-distance comparison.

use vstd::prelude::*;
use crate::text::str_to_chars;

verus! {

/// The minimum of three natural numbers.
pub open spec fn min3(x: nat, y: nat, z: nat) -> nat {
    if x <= y && x <= z {
        x
    } else if y <= z {
        y
    } else {
        z
    }
}

/// The Levenshtein edit distance between `a` and `b`: the least number of
/// character insertions, deletions and substitutions turning one into the
/// other.
pub open spec fn lev(a: Seq<char>, b: Seq<char>) -> nat
    decreases a.len() + b.len(),
{
    if a.len() == 0 {
        b.len()
    } else if b.len() == 0 {
        a.len()
    } else {
        let cost: nat = if a.last() == b.last() {
            0
        } else {
            1
        };
        min3(
            lev(a.drop_last(), b) + 1,
            lev(a, b.drop_last()) + 1,
            lev(a.drop_last(), b.drop_last()) + cost,
        )
    }
}

/// The edit distance never exceeds the longer length.
pub proof fn lemma_lev_le_max(a: Seq<char>, b: Seq<char>)
    ensures
        lev(a, b) <= a.len() || lev(a, b) <= b.len(),
        lev(a, b) <= a.len() + b.len(),
    decreases a.len() + b.len(),
{
    if a.len() == 0 || b.len() == 0 {
    } else {
        lemma_lev_le_max(a.drop_last(), b);
        lemma_lev_le_max(a, b.drop_last());
        lemma_lev_le_max(a.drop_last(), b.drop_last());
    }
}

/// The absolute difference of the two lengths.
pub open spec fn length_delta(a: Seq<char>, b: Seq<char>) -> nat {
    if a.len() >= b.len() {
        (a.len() - b.len()) as nat
    } else {
        (b.len() - a.len()) as nat
    }
}

/// A candidate survives the prefilter and the distance cut-off for the
/// unknown name `u`.
pub open spec fn candidate_passes(
    u: Seq<char>,
    c: Seq<char>,
    max_length_delta: nat,
    max_edit_distance: nat,
) -> bool {
    length_delta(u, c) < max_length_delta && lev(u, c) < max_edit_distance
}

/// The Levenshtein edit distance between `a` and `b`, by the usual dynamic
/// program over prefixes.
pub fn edit_distance(a: &Vec<char>, b: &Vec<char>) -> (d: usize)
    ensures
        d as nat == lev(a@, b@),
{
    let m = a.len();
    let n = b.len();
    proof {
        assert(a@.take(0 as int) =~= Seq::<char>::empty());
    }
    // prev[j] holds the distance between the first i - 1 characters of `a`
    // and the first j characters of `b`.
    let mut prev: Vec<usize> = Vec::new();
    prev.push(0);
    let mut j: usize = 0;
    while j < n
        invariant
            j <= n,
            n == b@.len(),
            prev@.len() == j + 1,
            forall|k: int|
                0 <= k < prev@.len() ==> (#[trigger] prev@[k]) as nat == lev(
                    a@.take(0),
                    b@.take(k),
                ),
        decreases n - j,
    {
        proof {
            assert(b@.take(j + 1).len() == j + 1);
            assert(a@.take(0).len() == 0);
        }
        prev.push(j + 1);
        j = j + 1;
    }
    let mut i0: usize = 0;
    while i0 < m
        invariant
            i0 <= m,
            m == a@.len(),
            n == b@.len(),
            prev@.len() == n + 1,
            forall|k: int|
                0 <= k <= n ==> (#[trigger] prev@[k]) as nat == lev(
                    a@.take(i0 as int),
                    b@.take(k),
                ),
        decreases m - i0,
    {
        let mut cur: Vec<usize> = Vec::new();
        proof {
            assert(a@.take(i0 + 1).len() == i0 + 1);
            assert(b@.take(0).len() == 0);
        }
        cur.push(i0 + 1);
        let mut j0: usize = 0;
        while j0 < n
            invariant
                i0 < m,
                j0 <= n,
                m == a@.len(),
                n == b@.len(),
                prev@.len() == n + 1,
                cur@.len() == j0 + 1,
                forall|k: int|
                    0 <= k <= n ==> (#[trigger] prev@[k]) as nat == lev(
                        a@.take(i0 as int),
                        b@.take(k),
                    ),
                forall|k: int|
                    0 <= k <= j0 ==> (#[trigger] cur@[k]) as nat == lev(
                        a@.take(i0 + 1),
                        b@.take(k),
                    ),
            decreases n - j0,
        {
            let cost: usize = if a[i0] == b[j0] {
                0
            } else {
                1
            };
            let up = prev[j0 + 1];
            let left = cur[j0];
            let diag = prev[j0];
            proof {
                lemma_lev_le_max(a@.take(i0 as int), b@.take(j0 as int));
                assert(a@.take(i0 as int).len() == i0);
                assert(b@.take(j0 as int).len() == j0);
            }
            let up1 = if up == usize::MAX {
                up
            } else {
                up + 1
            };
            let left1 = if left == usize::MAX {
                left
            } else {
                left + 1
            };
            let dd = diag + cost;
            let val = if up1 <= left1 && up1 <= dd {
                up1
            } else if left1 <= dd {
                left1
            } else {
                dd
            };
            proof {
                let ai = a@.take(i0 + 1);
                let bj = b@.take(j0 + 1);
                assert(ai.len() == i0 + 1 && bj.len() == j0 + 1);
                assert(ai.drop_last() =~= a@.take(i0 as int));
                assert(bj.drop_last() =~= b@.take(j0 as int));
                assert(ai.last() == a@[i0 as int]);
                assert(bj.last() == b@[j0 as int]);
                lemma_lev_le_max(ai, bj);
                assert(val as nat == lev(ai, bj));
            }
            cur.push(val);
            j0 = j0 + 1;
        }
        prev = cur;
        i0 = i0 + 1;
    }
    proof {
        assert(a@.take(m as int) =~= a@);
        assert(b@.take(n as int) =~= b@);
    }
    prev[n]
}

/// The view of an optional suggestion: the candidate's characters and its
/// edit distance.
pub open spec fn opt_sug_view(o: Option<(String, usize)>) -> Option<(Seq<char>, int)> {
    match o {
        Some(p) => Some((p.0@, p.1 as int)),
        None => None,
    }
}

/// `out` is what the suggestion engine returns for `u` over `cands`:
/// nothing when no candidate survives the filters, else the first
/// candidate with the smallest edit distance below the cut-offs, with that
/// distance.
pub open spec fn is_suggestion_outcome(
    u: Seq<char>,
    cands: Seq<Seq<char>>,
    max_length_delta: nat,
    max_edit_distance: nat,
    out: Option<(Seq<char>, int)>,
) -> bool {
    match out {
        Some(pair) => {
            &&& exists|i: int|
                {
                    &&& 0 <= i < cands.len()
                    &&& #[trigger] cands[i] == pair.0
                    &&& candidate_passes(u, cands[i], max_length_delta, max_edit_distance)
                    &&& pair.1 == lev(u, cands[i])
                    &&& forall|k: int|
                        0 <= k < i && candidate_passes(
                            u,
                            #[trigger] cands[k],
                            max_length_delta,
                            max_edit_distance,
                        ) ==> lev(u, cands[k]) > pair.1
                }
            &&& forall|k: int|
                0 <= k < cands.len() && candidate_passes(
                    u,
                    #[trigger] cands[k],
                    max_length_delta,
                    max_edit_distance,
                ) ==> pair.1 <= lev(u, cands[k])
        },
        None => forall|k: int|
            0 <= k < cands.len() ==> !candidate_passes(
                u,
                #[trigger] cands[k],
                max_length_delta,
                max_edit_distance,
            ),
    }
}

/// The closest candidate to `unknown`, if any: candidates whose length
/// differs by `max_length_delta` or more are discarded without computing a
/// distance, as are candidates whose edit distance is not strictly below
/// `max_edit_distance`; of the remainder, the first candidate with the
/// smallest distance wins.
pub fn suggest(
    unknown: &str,
    candidates: &Vec<String>,
    max_length_delta: usize,
    max_edit_distance: usize,
) -> (r: Option<(String, usize)>)
    ensures
        is_suggestion_outcome(
            unknown@,
            candidates.deep_view(),
            max_length_delta as nat,
            max_edit_distance as nat,
            opt_sug_view(r),
        ),
{
    let ghost dv = candidates.deep_view();
    proof {
        assert forall|k: int|
            0 <= k < candidates@.len() implies #[trigger] dv[k] == candidates@[k]@ by {}
    }
    let u_chars = str_to_chars(unknown);
    let lu = u_chars.len();
    let mut best: Option<(String, usize)> = None;
    let ghost mut best_idx: int = -1;
    let mut i: usize = 0;
    while i < candidates.len()
        invariant
            i <= candidates@.len(),
            dv == candidates.deep_view(),
            dv.len() == candidates@.len(),
            forall|k: int| 0 <= k < candidates@.len() ==> #[trigger] dv[k] == candidates@[k]@,
            u_chars@ == unknown@,
            lu == unknown@.len(),
            match best {
                Some(pair) => {
                    &&& 0 <= best_idx < i
                    &&& dv[best_idx] == pair.0@
                    &&& candidate_passes(
                        unknown@,
                        dv[best_idx],
                        max_length_delta as nat,
                        max_edit_distance as nat,
                    )
                    &&& pair.1 as nat == lev(unknown@, dv[best_idx])
                    &&& forall|k: int|
                        0 <= k < best_idx && candidate_passes(
                            unknown@,
                            #[trigger] dv[k],
                            max_length_delta as nat,
                            max_edit_distance as nat,
                        ) ==> lev(unknown@, dv[k]) > pair.1 as nat
                    &&& forall|k: int|
                        0 <= k < i && candidate_passes(
                            unknown@,
                            #[trigger] dv[k],
                            max_length_delta as nat,
                            max_edit_distance as nat,
                        ) ==> pair.1 as nat <= lev(unknown@, dv[k])
                },
                None => forall|k: int|
                    0 <= k < i ==> !candidate_passes(
                        unknown@,
                        #[trigger] dv[k],
                        max_length_delta as nat,
                        max_edit_distance as nat,
                    ),
            },
        decreases candidates@.len() - i,
    {
        let cand = &candidates[i];
        let c_chars = str_to_chars(cand.as_str());
        proof {
            assert(c_chars@ == dv[i as int]);
        }
        let lc = c_chars.len();
        let delta = if lu >= lc {
            lu - lc
        } else {
            lc - lu
        };
        if delta < max_length_delta {
            let d = edit_distance(&u_chars, &c_chars);
            if d < max_edit_distance {
                let better = match &best {
                    Some(pair) => d < pair.1,
                    None => true,
                };
                if better {
                    best = Some((cand.clone(), d));
                    proof {
                        best_idx = i as int;
                    }
                }
            }
        }
        i = i + 1;
    }
    best
}

} // verus!
