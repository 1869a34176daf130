//! Greedy corpus minimization: compute a minimal covering subset of the
//! enabled corpus from the observation values each entry contributes.

use vstd::prelude::*;
use crate::corpus::SeedId;
use crate::errors::Error;

verus! {

/// One enabled corpus entry as the minimizer sees it: its id, its score
/// under the configured score policy (higher is preferred), and the
/// observation values its execution covers.
pub struct MinimizeCandidate {
    /// The id of the corpus entry.
    pub id: SeedId,
    /// The candidate's score; a higher score is preferred.
    pub score: u64,
    /// The observation values this entry covers.
    pub cover: Vec<u64>,
}

/// The values a candidate covers, as a set.
pub open spec fn cover_set(c: MinimizeCandidate) -> Set<u64> {
    c.cover@.to_set()
}

/// The ids of a sequence of candidates, in order.
pub open spec fn cand_ids(s: Seq<MinimizeCandidate>) -> Seq<SeedId> {
    s.map_values(|c: MinimizeCandidate| c.id)
}

/// The union of the values covered by a sequence of candidates.
pub open spec fn cover_union(cands: Seq<MinimizeCandidate>) -> Set<u64>
    decreases cands.len(),
{
    if cands.len() == 0 {
        Set::empty()
    } else {
        cover_union(cands.drop_last()).union(cover_set(cands.last()))
    }
}

/// Whether a candidate still covers something outside the covered set.
pub open spec fn contributes(c: MinimizeCandidate, covered: Set<u64>) -> bool {
    !cover_set(c).subset_of(covered)
}

/// The preference order of the greedy selection: a higher score wins, and
/// equal scores fall back to the lower insertion-order id.
pub open spec fn better(a: MinimizeCandidate, b: MinimizeCandidate) -> bool {
    a.score > b.score || (a.score == b.score && a.id.0 < b.id.0)
}

/// The position of the preferred contributing candidate, scanning from
/// position `i` with `best` the preferred position seen so far.
pub open spec fn pick_best_from(
    cands: Seq<MinimizeCandidate>,
    covered: Set<u64>,
    i: int,
    best: Option<int>,
) -> Option<int>
    decreases cands.len() - i,
{
    if i < 0 || i >= cands.len() {
        best
    } else {
        let take = contributes(cands[i], covered) && (match best {
            Option::None => true,
            Option::Some(b) => better(cands[i], cands[b]),
        });
        let best2 = if take {
            Some(i)
        } else {
            best
        };
        pick_best_from(cands, covered, i + 1, best2)
    }
}

/// The position of the preferred contributing candidate, if any.
pub open spec fn spec_pick_best(cands: Seq<MinimizeCandidate>, covered: Set<u64>) -> Option<
    int,
> {
    pick_best_from(cands, covered, 0, None)
}

/// The greedy covering selection: repeatedly take the preferred candidate
/// that still contributes uncovered values, until none does.
pub open spec fn spec_greedy(cands: Seq<MinimizeCandidate>, covered: Set<u64>) -> Seq<
    MinimizeCandidate,
>
    decreases cands.len(),
{
    match spec_pick_best(cands, covered) {
        Option::None => Seq::empty(),
        Option::Some(b) => if 0 <= b < cands.len() {
            seq![cands[b]] + spec_greedy(
                cands.remove(b),
                covered.union(cover_set(cands[b])),
            )
        } else {
            Seq::empty()
        },
    }
}

/// The retained set of a minimization run: the selected candidate comes
/// first and is always kept; the greedy selection covers the rest.
pub open spec fn spec_cmin(cands: Seq<MinimizeCandidate>, cur: int) -> Seq<
    MinimizeCandidate,
> {
    seq![cands[cur]] + spec_greedy(cands.remove(cur), cover_set(cands[cur]))
}

/// What the scan accumulator guarantees, of a prefix.
spec fn best_of_prefix(
    cands: Seq<MinimizeCandidate>,
    covered: Set<u64>,
    i: int,
    best: Option<int>,
) -> bool {
    match best {
        Option::None => forall|j: int| 0 <= j < i ==> !contributes(#[trigger] cands[j], covered),
        Option::Some(b) => {
            &&& 0 <= b < i
            &&& contributes(cands[b], covered)
            &&& forall|j: int|
                0 <= j < i && contributes(#[trigger] cands[j], covered) && j != b ==> !better(
                    cands[j],
                    cands[b],
                )
        },
    }
}

/// The scan keeps its accumulator the preferred contributor of the prefix.
proof fn lemma_pick_best_from(
    cands: Seq<MinimizeCandidate>,
    covered: Set<u64>,
    i: int,
    best: Option<int>,
)
    requires
        0 <= i <= cands.len(),
        best_of_prefix(cands, covered, i, best),
    ensures
        best_of_prefix(
            cands,
            covered,
            cands.len() as int,
            pick_best_from(cands, covered, i, best),
        ),
    decreases cands.len() - i,
{
    if i < cands.len() {
        let take = contributes(cands[i], covered) && (match best {
            Option::None => true,
            Option::Some(b) => better(cands[i], cands[b]),
        });
        let best2 = if take {
            Some(i)
        } else {
            best
        };
        assert(best_of_prefix(cands, covered, i + 1, best2));
        lemma_pick_best_from(cands, covered, i + 1, best2);
    }
}

/// At every greedy step the chosen candidate contributes uncovered values,
/// carries a maximal score among the contributing candidates, and among
/// those of equal score the lowest insertion-order id; when no candidate
/// contributes, none is chosen.  This is the deterministic tie-break rule
/// of the minimization.
pub proof fn lemma_pick_best_characterization(cands: Seq<MinimizeCandidate>, covered: Set<u64>)
    ensures
        (match spec_pick_best(cands, covered) {
            Option::None => forall|j: int|
                0 <= j < cands.len() ==> !contributes(#[trigger] cands[j], covered),
            Option::Some(b) => {
                &&& 0 <= b < cands.len()
                &&& contributes(cands[b], covered)
                &&& forall|j: int|
                    0 <= j < cands.len() && contributes(#[trigger] cands[j], covered) && j != b
                        ==> !better(cands[j], cands[b])
            },
        }),
{
    lemma_pick_best_from(cands, covered, 0, None);
}

/// Membership in the union of covers: some candidate covers the value.
proof fn lemma_cover_union_membership(cands: Seq<MinimizeCandidate>, x: u64)
    ensures
        cover_union(cands).contains(x) <==> exists|i: int|
            0 <= i < cands.len() && cover_set(#[trigger] cands[i]).contains(x),
    decreases cands.len(),
{
    if cands.len() == 0 {
    } else {
        lemma_cover_union_membership(cands.drop_last(), x);
        if cover_union(cands).contains(x) {
            if cover_set(cands.last()).contains(x) {
                assert(cover_set(cands[cands.len() - 1]).contains(x));
            } else {
                let i = choose|i: int|
                    0 <= i < cands.drop_last().len() && cover_set(
                        #[trigger] cands.drop_last()[i],
                    ).contains(x);
                assert(cands.drop_last()[i] == cands[i]);
                assert(cover_set(cands[i]).contains(x));
            }
        }
        if exists|i: int| 0 <= i < cands.len() && cover_set(#[trigger] cands[i]).contains(x) {
            let i = choose|i: int|
                0 <= i < cands.len() && cover_set(#[trigger] cands[i]).contains(x);
            if i < cands.len() - 1 {
                assert(cands.drop_last()[i] == cands[i]);
                assert(cover_set(cands.drop_last()[i]).contains(x));
            }
        }
    }
}

/// Removing one candidate splits the union of covers.
proof fn lemma_cover_union_remove(cands: Seq<MinimizeCandidate>, b: int)
    requires
        0 <= b < cands.len(),
    ensures
        cover_union(cands) =~= cover_union(cands.remove(b)).union(cover_set(cands[b])),
{
    cands.remove_ensures(b);
    assert forall|x: u64|
        cover_union(cands).contains(x) == cover_union(cands.remove(b)).union(
            cover_set(cands[b]),
        ).contains(x) by {
        lemma_cover_union_membership(cands, x);
        lemma_cover_union_membership(cands.remove(b), x);
        if cover_union(cands).contains(x) {
            let i = choose|i: int|
                0 <= i < cands.len() && cover_set(#[trigger] cands[i]).contains(x);
            if i < b {
                assert(cands.remove(b)[i] == cands[i]);
                assert(cover_set(cands.remove(b)[i]).contains(x));
            } else if i > b {
                assert(cands.remove(b)[i - 1] == cands[i]);
                assert(cover_set(cands.remove(b)[i - 1]).contains(x));
            }
        }
        if cover_union(cands.remove(b)).contains(x) {
            let i = choose|i: int|
                0 <= i < cands.remove(b).len() && cover_set(
                    #[trigger] cands.remove(b)[i],
                ).contains(x);
            if i < b {
                assert(cands.remove(b)[i] == cands[i]);
                assert(cover_set(cands[i]).contains(x));
            } else {
                assert(cands.remove(b)[i] == cands[i + 1]);
                assert(cover_set(cands[i + 1]).contains(x));
            }
        }
        if cover_set(cands[b]).contains(x) {
            assert(cover_set(cands[b]).contains(x) && 0 <= b < cands.len());
        }
    }
}

/// The union of covers distributes over concatenation.
proof fn lemma_cover_union_concat(a: Seq<MinimizeCandidate>, b: Seq<MinimizeCandidate>)
    ensures
        cover_union(a + b) =~= cover_union(a).union(cover_union(b)),
    decreases b.len(),
{
    if b.len() == 0 {
        assert(a + b =~= a);
    } else {
        lemma_cover_union_concat(a, b.drop_last());
        assert((a + b).drop_last() =~= a + b.drop_last());
        assert((a + b).last() == b.last());
        assert(cover_union(b) == cover_union(b.drop_last()).union(cover_set(b.last())));
    }
}

/// The union of covers of a single candidate is its cover.
proof fn lemma_cover_union_singleton(c: MinimizeCandidate)
    ensures
        cover_union(seq![c]) =~= cover_set(c),
{
    let s = seq![c];
    assert(s.last() == c);
    assert(s.drop_last() =~= Seq::<MinimizeCandidate>::empty());
    assert(cover_union(s) == cover_union(s.drop_last()).union(cover_set(c)));
    assert(cover_union(Seq::<MinimizeCandidate>::empty()) == Set::<u64>::empty());
    assert(Set::<u64>::empty().union(cover_set(c)) =~= cover_set(c));
}

/// The greedy selection covers everything its input covers, over any
/// already-covered base.
proof fn lemma_greedy_union(cands: Seq<MinimizeCandidate>, covered: Set<u64>)
    ensures
        cover_union(spec_greedy(cands, covered)).union(covered) =~= cover_union(
            cands,
        ).union(covered),
    decreases cands.len(),
{
    lemma_pick_best_characterization(cands, covered);
    match spec_pick_best(cands, covered) {
        Option::None => {
            assert forall|x: u64|
                cover_union(spec_greedy(cands, covered)).union(covered).contains(x)
                    == cover_union(cands).union(covered).contains(x) by {
                lemma_cover_union_membership(cands, x);
                lemma_cover_union_membership(spec_greedy(cands, covered), x);
                if cover_union(cands).contains(x) {
                    let i = choose|i: int|
                        0 <= i < cands.len() && cover_set(#[trigger] cands[i]).contains(x);
                    assert(!contributes(cands[i], covered));
                    assert(cover_set(cands[i]).subset_of(covered));
                }
            }
        },
        Option::Some(b) => {
            let rest = cands.remove(b);
            let covered2 = covered.union(cover_set(cands[b]));
            lemma_greedy_union(rest, covered2);
            lemma_cover_union_remove(cands, b);
            lemma_cover_union_concat(seq![cands[b]], spec_greedy(rest, covered2));
            lemma_cover_union_singleton(cands[b]);
            assert(cover_union(spec_greedy(cands, covered)).union(covered) =~= cover_union(
                spec_greedy(rest, covered2),
            ).union(covered2));
            assert(cover_union(rest).union(covered2) =~= cover_union(cands).union(covered));
        },
    }
}

/// Minimization never drops the selected candidate, and the union of the
/// covered values across the retained candidates equals the union across
/// the whole pre-minimization set.
pub proof fn lemma_minimize_preserves_coverage(cands: Seq<MinimizeCandidate>, cur: int)
    requires
        0 <= cur < cands.len(),
    ensures
        spec_cmin(cands, cur).contains(cands[cur]),
        cover_union(spec_cmin(cands, cur)) =~= cover_union(cands),
{
    let kept = spec_cmin(cands, cur);
    assert(kept[0] == cands[cur]);
    assert(kept.contains(kept[0]));
    let rest = cands.remove(cur);
    let cov = cover_set(cands[cur]);
    lemma_greedy_union(rest, cov);
    lemma_cover_union_remove(cands, cur);
    lemma_cover_union_concat(seq![cands[cur]], spec_greedy(rest, cov));
    lemma_cover_union_singleton(cands[cur]);
    assert forall|x: u64| cover_union(kept).contains(x) == cover_union(cands).contains(
        x,
    ) by {
        assert(cover_union(kept) =~= cov.union(cover_union(spec_greedy(rest, cov))));
        assert(cover_union(spec_greedy(rest, cov)).union(cov) =~= cover_union(rest).union(
            cov,
        ));
        assert(cover_union(rest).union(cov) =~= cover_union(cands));
    }
}

/// Every candidate the greedy selection retains comes from its input.
pub proof fn lemma_greedy_subset(cands: Seq<MinimizeCandidate>, covered: Set<u64>)
    ensures
        forall|e: MinimizeCandidate| #[trigger] spec_greedy(cands, covered).contains(e)
            ==> cands.contains(e),
    decreases cands.len(),
{
    lemma_pick_best_characterization(cands, covered);
    match spec_pick_best(cands, covered) {
        Option::None => {
        },
        Option::Some(b) => {
            let rest = cands.remove(b);
            let covered2 = covered.union(cover_set(cands[b]));
            lemma_greedy_subset(rest, covered2);
            cands.remove_ensures(b);
            assert forall|e: MinimizeCandidate| #[trigger] spec_greedy(cands, covered).contains(
                e,
            ) implies cands.contains(e) by {
                let picked = seq![cands[b]] + spec_greedy(rest, covered2);
                let m = choose|m: int| 0 <= m < picked.len() && picked[m] == e;
                if m == 0 {
                    assert(cands.contains(cands[b]));
                } else {
                    assert(spec_greedy(rest, covered2)[m - 1] == e);
                    assert(spec_greedy(rest, covered2).contains(e));
                    assert(rest.contains(e));
                    let k = choose|k: int| 0 <= k < rest.len() && rest[k] == e;
                    if k < b {
                        assert(cands[k] == e);
                        assert(cands.contains(cands[k]));
                    } else {
                        assert(cands[k + 1] == e);
                        assert(cands.contains(cands[k + 1]));
                    }
                }
            }
        },
    }
}

/// Every id the retained selection carries comes from the candidates.
pub proof fn lemma_spec_cmin_ids_subset(cands: Seq<MinimizeCandidate>, cu: int)
    requires
        0 <= cu < cands.len(),
    ensures
        forall|y: SeedId| #[trigger] cand_ids(spec_cmin(cands, cu)).contains(y) ==> cand_ids(
            cands,
        ).contains(y),
{
    let kept = spec_cmin(cands, cu);
    lemma_greedy_subset(cands.remove(cu), cover_set(cands[cu]));
    cands.remove_ensures(cu);
    assert forall|y: SeedId| #[trigger] cand_ids(kept).contains(y) implies cand_ids(
        cands,
    ).contains(y) by {
        let m = choose|m: int| 0 <= m < cand_ids(kept).len() && cand_ids(kept)[m] == y;
        assert(kept[m].id == y);
        let e = kept[m];
        if m == 0 {
            assert(e == cands[cu]);
            assert(cand_ids(cands)[cu] == y);
            assert(cand_ids(cands).contains(cand_ids(cands)[cu]));
        } else {
            assert(spec_greedy(cands.remove(cu), cover_set(cands[cu]))[m - 1] == e);
            assert(spec_greedy(cands.remove(cu), cover_set(cands[cu])).contains(e));
            assert(cands.remove(cu).contains(e));
            let k = choose|k: int| 0 <= k < cands.remove(cu).len() && cands.remove(cu)[k] == e;
            if k < cu {
                assert(cands[k] == e);
                assert(cand_ids(cands)[k] == y);
                assert(cand_ids(cands).contains(cand_ids(cands)[k]));
            } else {
                assert(cands[k + 1] == e);
                assert(cand_ids(cands)[k + 1] == y);
                assert(cand_ids(cands).contains(cand_ids(cands)[k + 1]));
            }
        }
    }
}

/// Minimization is deterministic: the same candidates and the same
/// selection give the same retained sequence, run to run.
pub proof fn lemma_minimize_deterministic(
    a: Seq<MinimizeCandidate>,
    b: Seq<MinimizeCandidate>,
    cur_a: int,
    cur_b: int,
)
    requires
        a == b,
        cur_a == cur_b,
    ensures
        spec_cmin(a, cur_a) == spec_cmin(b, cur_b),
{
}

/// Whether a sequence holds a value.
fn values_contain(s: &Vec<u64>, v: u64) -> (r: bool)
    ensures
        r == s@.contains(v),
{
    let mut i: usize = 0;
    while i < s.len()
        invariant
            i <= s@.len(),
            forall|k: int| 0 <= k < i ==> s@[k] != v,
        decreases s@.len() - i,
    {
        if s[i] == v {
            return true;
        }
        i = i + 1;
    }
    proof {
        if s@.contains(v) {
            let k = choose|k: int| 0 <= k < s@.len() && s@[k] == v;
        }
    }
    false
}

/// Whether every covered value of a candidate already stands in the covered
/// set.
fn covers_subset(cover: &Vec<u64>, covered: &Vec<u64>) -> (r: bool)
    ensures
        r == cover@.to_set().subset_of(covered@.to_set()),
{
    let mut i: usize = 0;
    while i < cover.len()
        invariant
            i <= cover@.len(),
            forall|k: int| 0 <= k < i ==> covered@.contains(#[trigger] cover@[k]),
        decreases cover@.len() - i,
    {
        if !values_contain(covered, cover[i]) {
            proof {
                assert(cover@.to_set().contains(cover@[i as int]));
            }
            return false;
        }
        i = i + 1;
    }
    proof {
        assert forall|x: u64| cover@.to_set().contains(x) implies covered@.to_set().contains(
            x,
        ) by {
            let k = choose|k: int| 0 <= k < cover@.len() && cover@[k] == x;
            assert(covered@.contains(cover@[k]));
        }
    }
    true
}

/// The position of the preferred contributing candidate, under the greedy
/// preference order.
fn find_best(remaining: &Vec<MinimizeCandidate>, covered: &Vec<u64>) -> (r: Option<usize>)
    ensures
        (match r {
            Some(b) => Some(b as int),
            None => None::<int>,
        }) == spec_pick_best(remaining@, covered@.to_set()),
        r matches Some(b) ==> b < remaining@.len(),
    {
    let ghost cov = covered@.to_set();
    let mut best: Option<usize> = None;
    let mut i: usize = 0;
    while i < remaining.len()
        invariant
            i <= remaining@.len(),
            cov == covered@.to_set(),
            (match best {
                Some(b) => b < i,
                None => true,
            }),
            spec_pick_best(remaining@, cov) == pick_best_from(
                remaining@,
                cov,
                i as int,
                match best {
                    Some(b) => Some(b as int),
                    None => None::<int>,
                },
            ),
        decreases remaining@.len() - i,
    {
        let c = &remaining[i];
        let c_contributes = !covers_subset(&c.cover, covered);
        let take = c_contributes && (match best {
            Some(b) => {
                let bc = &remaining[b];
                c.score > bc.score || (c.score == bc.score && c.id.0 < bc.id.0)
            },
            None => true,
        });
        proof {
            let gb = match best {
                Some(b) => Some(b as int),
                None => None::<int>,
            };
            assert(pick_best_from(remaining@, cov, i as int, gb) == pick_best_from(
                remaining@,
                cov,
                i as int + 1,
                if take {
                    Some(i as int)
                } else {
                    gb
                },
            ));
        }
        if take {
            best = Some(i);
        }
        i = i + 1;
    }
    best
}

/// Membership in a concatenation of value sequences.
proof fn lemma_concat_membership_values(a: Seq<u64>, b: Seq<u64>)
    ensures
        forall|x: u64| #[trigger] (a + b).contains(x) == (a.contains(x) || b.contains(x)),
{
    assert forall|x: u64| #[trigger] (a + b).contains(x) == (a.contains(x) || b.contains(
        x,
    )) by {
        if (a + b).contains(x) {
            let k = choose|k: int| 0 <= k < (a + b).len() && (a + b)[k] == x;
            if k < a.len() {
                assert(a[k] == x);
                assert(a.contains(a[k]));
            } else {
                assert(b[k - a.len()] == x);
                assert(b.contains(b[k - a.len()]));
            }
        }
        if a.contains(x) {
            let k = choose|k: int| 0 <= k < a.len() && a[k] == x;
            assert((a + b)[k] == x);
            assert((a + b).contains((a + b)[k]));
        }
        if b.contains(x) {
            let k = choose|k: int| 0 <= k < b.len() && b[k] == x;
            assert((a + b)[a.len() + k] == x);
            assert((a + b).contains((a + b)[a.len() + k]));
        }
    }
}

/// The position of the candidate carrying an id.
fn find_candidate_index(cands: &Vec<MinimizeCandidate>, id: SeedId) -> (r: Option<usize>)
    ensures
        match r {
            Some(i) => i < cands@.len() && cands@[i as int].id == id,
            None => !cand_ids(cands@).contains(id),
        },
{
    let mut i: usize = 0;
    while i < cands.len()
        invariant
            i <= cands@.len(),
            forall|k: int| 0 <= k < i ==> (#[trigger] cands@[k]).id != id,
        decreases cands@.len() - i,
    {
        if cands[i].id.0 == id.0 {
            return Some(i);
        }
        i = i + 1;
    }
    proof {
        if cand_ids(cands@).contains(id) {
            let k = choose|k: int|
                0 <= k < cand_ids(cands@).len() && cand_ids(cands@)[k] == id;
            assert(cands@[k].id == id);
        }
    }
    None
}

/// Compute the ids that a minimization run retains: the selected candidate
/// first, then the greedy covering selection over the rest.
///
/// The retained sequence equals the mathematical greedy selection
/// `spec_cmin` of the inputs, so equal inputs give equal retained sets, run
/// to run.
pub fn compute_retained(cands: Vec<MinimizeCandidate>, current: SeedId) -> (r: Result<
    Vec<SeedId>,
    Error,
>)
    requires
        cand_ids(cands@).no_duplicates(),
    ensures
        r is Ok <==> cand_ids(cands@).contains(current),
        r matches Err(e) ==> e is NotFound,
        r matches Ok(kept) ==> exists|cu: int|
            {
                &&& 0 <= cu < cands@.len()
                &&& (#[trigger] cands@[cu]).id == current
                &&& kept@ == cand_ids(spec_cmin(cands@, cu))
                &&& kept@.len() >= 1
                &&& kept@[0] == current
            },
{
    let ghost cands0 = cands@;
    let mut work = cands;
    let cu = match find_candidate_index(&work, current) {
        Some(c) => c,
        None => {
            return Err(Error::not_found("the selected entry is not among the candidates"));
        },
    };
    proof {
        assert(cand_ids(cands0)[cu as int] == current);
        assert(cand_ids(cands0).contains(current));
    }
    let head = work.remove(cu);
    let mut retained: Vec<SeedId> = Vec::new();
    retained.push(head.id);
    let mut covered: Vec<u64> = head.cover;
    let ghost mut picked_seq: Seq<MinimizeCandidate> = seq![cands0[cu as int]];
    proof {
        assert(work@ == cands0.remove(cu as int));
        assert(covered@.to_set() == cover_set(cands0[cu as int]));
        assert(retained@ =~= cand_ids(picked_seq));
        assert(spec_cmin(cands0, cu as int) =~= picked_seq + spec_greedy(
            work@,
            covered@.to_set(),
        ));
    }
    loop
        invariant_except_break
            retained@ == cand_ids(picked_seq),
            spec_cmin(cands0, cu as int) == picked_seq + spec_greedy(
                work@,
                covered@.to_set(),
            ),
        ensures
            retained@ == cand_ids(picked_seq),
            spec_cmin(cands0, cu as int) == picked_seq + spec_greedy(
                work@,
                covered@.to_set(),
            ),
            spec_pick_best(work@, covered@.to_set()) is None,
        decreases work@.len(),
    {
        let b = match find_best(&work, &covered) {
            Some(b) => b,
            None => {
                break ;
            },
        };
        let ghost work0 = work@;
        let ghost covered0 = covered@;
        let ghost cov0 = covered@.to_set();
        let chosen = work.remove(b);
        retained.push(chosen.id);
        let mut extra = chosen.cover;
        covered.append(&mut extra);
        proof {
            assert(chosen == work0[b as int]);
            assert(spec_greedy(work0, cov0) == seq![work0[b as int]] + spec_greedy(
                work0.remove(b as int),
                cov0.union(cover_set(work0[b as int])),
            ));
            lemma_concat_membership_values(covered0, work0[b as int].cover@);
            assert(covered@ == covered0 + work0[b as int].cover@);
            assert(covered@.to_set() =~= cov0.union(cover_set(work0[b as int])));
            picked_seq = picked_seq.push(chosen);
            assert(retained@ =~= cand_ids(picked_seq));
            assert(picked_seq + spec_greedy(work@, covered@.to_set()) =~= spec_cmin(
                cands0,
                cu as int,
            ));
        }
    }
    proof {
        assert(spec_greedy(work@, covered@.to_set()) =~= Seq::<MinimizeCandidate>::empty());
        assert(spec_cmin(cands0, cu as int) =~= picked_seq);
        assert(spec_cmin(cands0, cu as int)[0] == cands0[cu as int]);
        assert(retained@[0] == cands0[cu as int].id);
    }
    Ok(retained)
}

} // verus!
