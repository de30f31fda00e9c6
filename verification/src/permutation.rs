//! Derivation of the forward permutation that turns a canonical candidate
//! list into a submitted ballot.

use std::collections::HashMap;
use vstd::prelude::*;

verus! {

broadcast use vstd::std_specs::hash::group_hash_axioms;

/// Why a ballot could not be matched against the canonical list.
#[derive(Debug, Clone, Copy, PartialEq, Eq, Structural)]
pub enum PermutationError {
    /// The two sequences differ in length.
    LengthMismatch,
    /// The canonical sequence holds this value more than once.
    DuplicateInReference(u32),
    /// This ballot entry is no canonical value.
    ValueNotFound(u32),
    /// This ballot entry names a canonical value that an earlier entry took.
    DuplicateInBallot(u32),
}

/// The value at position `j` of `s` already stands at an earlier position.
pub open spec fn repeats_at(s: Seq<u32>, j: int) -> bool {
    &&& 0 <= j < s.len()
    &&& exists|i: int| 0 <= i < j && s[i] == s[j]
}

/// `j` is the first position of `s` whose value stood earlier in `s`.
pub open spec fn first_repeat_at(s: Seq<u32>, j: int) -> bool {
    &&& repeats_at(s, j)
    &&& forall|k: int| 0 <= k < j ==> !repeats_at(s, k)
}

/// No value stands twice in `s`.
pub open spec fn distinct(s: Seq<u32>) -> bool {
    forall|j: int| 0 <= j < s.len() ==> !repeats_at(s, j)
}

/// The ballot entry at `i` cannot be placed: it is no canonical value, or an
/// earlier entry holds the same value.
pub open spec fn unplaceable_at(canonical: Seq<u32>, ballot: Seq<u32>, i: int) -> bool {
    &&& 0 <= i < ballot.len()
    &&& (!canonical.contains(ballot[i]) || repeats_at(ballot, i))
}

/// `i` is the first ballot position that cannot be placed.
pub open spec fn first_unplaceable_at(canonical: Seq<u32>, ballot: Seq<u32>, i: int) -> bool {
    &&& unplaceable_at(canonical, ballot, i)
    &&& forall|k: int| 0 <= k < i ==> !unplaceable_at(canonical, ballot, k)
}

/// `sigma` sends each ballot position to the canonical position that holds the
/// same value, and no canonical position is taken twice.
pub open spec fn is_forward_permutation(
    canonical: Seq<u32>,
    ballot: Seq<u32>,
    sigma: Seq<u32>,
) -> bool {
    &&& canonical.len() == ballot.len()
    &&& sigma.len() == ballot.len()
    &&& forall|i: int|
        0 <= i < sigma.len() ==> {
            &&& (#[trigger] sigma[i]) < canonical.len()
            &&& canonical[sigma[i] as int] == ballot[i]
        }
    &&& forall|i: int, j: int| 0 <= i < j < sigma.len() ==> sigma[i] != sigma[j]
}

/// What deriving the permutation of `ballot` over `canonical` yields: the one
/// forward permutation, or the first obstacle met. The canonical sequence is
/// examined first, then the ballot from its first entry on.
pub open spec fn permutation_outcome(
    canonical: Seq<u32>,
    ballot: Seq<u32>,
    outcome: Result<Seq<u32>, PermutationError>,
) -> bool {
    match outcome {
        Err(PermutationError::LengthMismatch) => canonical.len() != ballot.len(),
        Err(PermutationError::DuplicateInReference(v)) => {
            &&& canonical.len() == ballot.len()
            &&& exists|j: int| first_repeat_at(canonical, j) && canonical[j] == v
        },
        Err(PermutationError::ValueNotFound(v)) => {
            &&& canonical.len() == ballot.len()
            &&& distinct(canonical)
            &&& !canonical.contains(v)
            &&& exists|i: int| first_unplaceable_at(canonical, ballot, i) && ballot[i] == v
        },
        Err(PermutationError::DuplicateInBallot(v)) => {
            &&& canonical.len() == ballot.len()
            &&& distinct(canonical)
            &&& canonical.contains(v)
            &&& exists|i: int| first_unplaceable_at(canonical, ballot, i) && ballot[i] == v
        },
        Ok(sigma) => {
            &&& distinct(canonical)
            &&& is_forward_permutation(canonical, ballot, sigma)
        },
    }
}

/// The view of a derivation result: the permutation as a sequence.
pub open spec fn outcome_view(r: Result<Vec<u32>, PermutationError>) -> Result<
    Seq<u32>,
    PermutationError,
> {
    match r {
        Ok(sigma) => Ok(sigma@),
        Err(e) => Err(e),
    }
}

/// A sequence of pairwise distinct 32-bit values has at most 2^32 entries.
pub proof fn lemma_distinct_length_bound(s: Seq<u32>)
    requires
        distinct(s),
    ensures
        s.len() <= 0x1_0000_0000,
{
    let widen = |x: u32| x as int;
    let t = s.map_values(widen);
    assert forall|i: int, j: int| 0 <= i < t.len() && 0 <= j < t.len() && i != j implies t[i]
        != t[j] by {
        if i < j {
            assert(!repeats_at(s, j));
        } else {
            assert(!repeats_at(s, i));
        }
    }
    t.unique_seq_to_set();
    vstd::set_lib::lemma_int_range(0, 0x1_0000_0000);
    assert forall|x: int| t.to_set().contains(x) implies vstd::set_lib::set_int_range(
        0,
        0x1_0000_0000,
    ).contains(x) by {
        let i = choose|i: int| 0 <= i < t.len() && t[i] == x;
        assert(t[i] == s[i] as int);
    }
    vstd::set_lib::lemma_len_subset(t.to_set(), vstd::set_lib::set_int_range(0, 0x1_0000_0000));
}

/// In a sequence of pairwise distinct values, equal values stand at equal
/// positions.
pub proof fn lemma_distinct_positions(s: Seq<u32>, p: int, q: int)
    requires
        distinct(s),
        0 <= p < s.len(),
        0 <= q < s.len(),
        s[p] == s[q],
    ensures
        p == q,
{
    if p < q {
        assert(repeats_at(s, q));
    } else if q < p {
        assert(repeats_at(s, p));
    }
}

/// Where a forward permutation exists over a canonical sequence of distinct
/// values, every ballot entry can be placed.
pub proof fn lemma_permutation_places_all(canonical: Seq<u32>, ballot: Seq<u32>, sigma: Seq<u32>)
    requires
        distinct(canonical),
        is_forward_permutation(canonical, ballot, sigma),
    ensures
        forall|i: int| 0 <= i < ballot.len() ==> !unplaceable_at(canonical, ballot, i),
{
    assert forall|i: int| 0 <= i < ballot.len() implies !unplaceable_at(canonical, ballot, i) by {
        assert(canonical[sigma[i] as int] == ballot[i]);
        assert(canonical.contains(ballot[i]));
        if repeats_at(ballot, i) {
            let k = choose|k: int| 0 <= k < i && ballot[k] == ballot[i];
            lemma_distinct_positions(canonical, sigma[k] as int, sigma[i] as int);
        }
    }
}

/// The derivation has one outcome: two results that both meet
/// `permutation_outcome` for the same sequences are equal.
pub proof fn lemma_outcome_unique(
    canonical: Seq<u32>,
    ballot: Seq<u32>,
    first: Result<Seq<u32>, PermutationError>,
    second: Result<Seq<u32>, PermutationError>,
)
    requires
        permutation_outcome(canonical, ballot, first),
        permutation_outcome(canonical, ballot, second),
    ensures
        first == second,
{
    if canonical.len() != ballot.len() {
    } else if !distinct(canonical) {
        let j1 = choose|j: int| first_repeat_at(canonical, j) && Err::<Seq<u32>, PermutationError>(
            PermutationError::DuplicateInReference(canonical[j]),
        ) == first;
        let j2 = choose|j: int| first_repeat_at(canonical, j) && Err::<Seq<u32>, PermutationError>(
            PermutationError::DuplicateInReference(canonical[j]),
        ) == second;
        assert(j1 == j2) by {
            if j1 < j2 {
                assert(!repeats_at(canonical, j1));
            } else if j2 < j1 {
                assert(!repeats_at(canonical, j2));
            }
        }
    } else {
        lemma_outcome_unique_distinct(canonical, ballot, first, second);
    }
}

/// `lemma_outcome_unique` where the canonical values are pairwise distinct.
proof fn lemma_outcome_unique_distinct(
    canonical: Seq<u32>,
    ballot: Seq<u32>,
    first: Result<Seq<u32>, PermutationError>,
    second: Result<Seq<u32>, PermutationError>,
)
    requires
        canonical.len() == ballot.len(),
        distinct(canonical),
        permutation_outcome(canonical, ballot, first),
        permutation_outcome(canonical, ballot, second),
    ensures
        first == second,
{
    assert(first !is Err || !(first->Err_0 is DuplicateInReference)) by {
        if first is Err && first->Err_0 is DuplicateInReference {
            let j = choose|j: int| first_repeat_at(canonical, j);
            assert(repeats_at(canonical, j));
        }
    }
    assert(second !is Err || !(second->Err_0 is DuplicateInReference)) by {
        if second is Err && second->Err_0 is DuplicateInReference {
            let j = choose|j: int| first_repeat_at(canonical, j);
            assert(repeats_at(canonical, j));
        }
    }
    match (first, second) {
        (Ok(s1), Ok(s2)) => {
            assert forall|i: int| 0 <= i < s1.len() implies s1[i] == s2[i] by {
                lemma_distinct_positions(canonical, s1[i] as int, s2[i] as int);
            }
            assert(s1 =~= s2);
        },
        (Ok(s1), Err(e)) => {
            lemma_permutation_places_all(canonical, ballot, s1);
            let i = choose|i: int| first_unplaceable_at(canonical, ballot, i);
            assert(unplaceable_at(canonical, ballot, i));
        },
        (Err(e), Ok(s2)) => {
            lemma_permutation_places_all(canonical, ballot, s2);
            let i = choose|i: int| first_unplaceable_at(canonical, ballot, i);
            assert(unplaceable_at(canonical, ballot, i));
        },
        (Err(e1), Err(e2)) => {
            let v1 = match e1 {
                PermutationError::ValueNotFound(v) => v,
                PermutationError::DuplicateInBallot(v) => v,
                _ => 0u32,
            };
            let v2 = match e2 {
                PermutationError::ValueNotFound(v) => v,
                PermutationError::DuplicateInBallot(v) => v,
                _ => 0u32,
            };
            let i1 = choose|i: int| first_unplaceable_at(canonical, ballot, i) && ballot[i] == v1;
            let i2 = choose|i: int| first_unplaceable_at(canonical, ballot, i) && ballot[i] == v2;
            assert(i1 == i2) by {
                if i1 < i2 {
                    assert(!unplaceable_at(canonical, ballot, i1));
                } else if i2 < i1 {
                    assert(!unplaceable_at(canonical, ballot, i2));
                }
            }
        },
    }
}

/// Some ballot position is sent to the canonical position `p`.
pub open spec fn takes(sigma: Seq<u32>, p: int) -> bool {
    exists|i: int| 0 <= i < sigma.len() && sigma[i] == p
}

/// A forward permutation takes every canonical position: it is a bijection
/// of the positions.
pub proof fn lemma_permutation_covers(canonical: Seq<u32>, ballot: Seq<u32>, sigma: Seq<u32>)
    requires
        is_forward_permutation(canonical, ballot, sigma),
    ensures
        forall|p: int| 0 <= p < canonical.len() ==> #[trigger] takes(sigma, p),
{
    let n = sigma.len() as int;
    let widen = |x: u32| x as int;
    let t = sigma.map_values(widen);
    assert forall|i: int, j: int| 0 <= i < t.len() && 0 <= j < t.len() && i != j implies t[i]
        != t[j] by {
        assert(t[i] == sigma[i] as int && t[j] == sigma[j] as int);
    }
    t.unique_seq_to_set();
    vstd::set_lib::lemma_int_range(0, n);
    let range = vstd::set_lib::set_int_range(0, n);
    assert forall|x: int| t.to_set().contains(x) implies range.contains(x) by {
        let i = choose|i: int| 0 <= i < t.len() && t[i] == x;
        assert(t[i] == sigma[i] as int);
    }
    vstd::set_lib::lemma_len_subset(t.to_set(), range);
    vstd::set_lib::lemma_subset_equality(t.to_set(), range);
    assert forall|p: int| 0 <= p < canonical.len() implies #[trigger] takes(sigma, p) by {
        assert(range.contains(p));
        assert(t.to_set().contains(p));
        let i = choose|i: int| 0 <= i < t.len() && t[i] == p;
        assert(sigma[i] == p);
    }
}

/// Over a canonical sequence of distinct values the derivation succeeds
/// exactly where the ballot holds canonical values only and none of them
/// twice.
pub proof fn lemma_outcome_success(canonical: Seq<u32>, ballot: Seq<u32>)
    ensures
        (exists|sigma: Seq<u32>| permutation_outcome(canonical, ballot, Ok(sigma))) <==> {
            &&& canonical.len() == ballot.len()
            &&& distinct(canonical)
            &&& forall|i: int| 0 <= i < ballot.len() ==> !unplaceable_at(canonical, ballot, i)
        },
{
    if exists|sigma: Seq<u32>| permutation_outcome(canonical, ballot, Ok(sigma)) {
        let sigma = choose|sigma: Seq<u32>| permutation_outcome(canonical, ballot, Ok(sigma));
        lemma_permutation_places_all(canonical, ballot, sigma);
    }
    if canonical.len() == ballot.len() && distinct(canonical) && (forall|i: int|
        0 <= i < ballot.len() ==> !unplaceable_at(canonical, ballot, i)) {
        lemma_distinct_length_bound(canonical);
        let sigma = Seq::new(ballot.len(), |i: int| canonical.index_of(ballot[i]) as u32);
        assert forall|i: int| 0 <= i < sigma.len() implies (#[trigger] sigma[i])
            < canonical.len() && canonical[sigma[i] as int] == ballot[i] by {
            assert(!unplaceable_at(canonical, ballot, i));
            assert(canonical.contains(ballot[i]));
            let p = canonical.index_of(ballot[i]);
            assert(0 <= p < canonical.len() && canonical[p] == ballot[i]);
        }
        assert forall|i: int, j: int| 0 <= i < j < sigma.len() implies sigma[i] != sigma[j] by {
            if sigma[i] == sigma[j] {
                assert(ballot[i] == canonical[sigma[i] as int]);
                assert(ballot[j] == canonical[sigma[j] as int]);
                assert(repeats_at(ballot, j));
                assert(unplaceable_at(canonical, ballot, j));
            }
        }
        assert(permutation_outcome(canonical, ballot, Ok(sigma)));
    }
}

/// Derives the forward permutation of `ballot` over `canonical`: position `i`
/// of the result is the position of `ballot[i]` in `canonical`.
pub fn find_permutation(canonical: &[u32], ballot: &[u32]) -> (r: Result<
    Vec<u32>,
    PermutationError,
>)
    ensures
        permutation_outcome(canonical@, ballot@, outcome_view(r)),
        r is Ok <==> {
            &&& canonical@.len() == ballot@.len()
            &&& distinct(canonical@)
            &&& forall|i: int| 0 <= i < ballot@.len() ==> !unplaceable_at(canonical@, ballot@, i)
        },
{
    if canonical.len() != ballot.len() {
        return Err(PermutationError::LengthMismatch);
    }
    let n: usize = canonical.len();
    let mut index_of: HashMap<u32, usize> = HashMap::new();
    let mut i: usize = 0;
    while i < n
        invariant
            i <= n,
            n == canonical.len(),
            n == ballot.len(),
            forall|k: int| 0 <= k < i ==> !repeats_at(canonical@, k),
            forall|k: int|
                0 <= k < i ==> {
                    &&& index_of@.contains_key(#[trigger] canonical@[k])
                    &&& index_of@[canonical@[k]] == k
                },
            forall|v: u32| #[trigger]
                index_of@.contains_key(v) ==> index_of@[v] < i && canonical@[index_of@[v] as int]
                    == v,
        decreases n - i,
    {
        let val: u32 = canonical[i];
        let ghost before = index_of@;
        if index_of.insert(val, i).is_some() {
            proof {
                let k = before[val] as int;
                assert(0 <= k < i && canonical@[k] == canonical@[i as int]);
                assert(first_repeat_at(canonical@, i as int));
            }
            return Err(PermutationError::DuplicateInReference(val));
        }
        proof {
            assert(!repeats_at(canonical@, i as int)) by {
                if repeats_at(canonical@, i as int) {
                    let k = choose|k: int| 0 <= k < i && canonical@[k] == canonical@[i as int];
                    assert(before.contains_key(canonical@[k]));
                }
            }
        }
        i += 1;
    }
    proof {
        lemma_distinct_length_bound(canonical@);
    }
    let mut seen: Vec<bool> = vec![false; n];
    let mut sigma: Vec<u32> = Vec::new();
    let mut j: usize = 0;
    while j < n
        invariant
            j <= n,
            n == canonical.len(),
            n == ballot.len(),
            n <= 0x1_0000_0000,
            distinct(canonical@),
            forall|k: int|
                0 <= k < n ==> {
                    &&& index_of@.contains_key(#[trigger] canonical@[k])
                    &&& index_of@[canonical@[k]] == k
                },
            forall|v: u32| #[trigger]
                index_of@.contains_key(v) ==> index_of@[v] < n && canonical@[index_of@[v] as int]
                    == v,
            seen.len() == n,
            sigma.len() == j,
            forall|k: int| 0 <= k < j ==> !unplaceable_at(canonical@, ballot@, k),
            forall|k: int|
                0 <= k < j ==> (#[trigger] sigma@[k]) < n && canonical@[sigma@[k] as int]
                    == ballot@[k],
            forall|p: int|
                0 <= p < n ==> (#[trigger] seen@[p] <==> exists|k: int|
                    0 <= k < j && sigma@[k] == p),
        decreases n - j,
    {
        let val: u32 = ballot[j];
        match index_of.get(&val) {
            None => {
                proof {
                    assert(!canonical@.contains(val)) by {
                        if canonical@.contains(val) {
                            let k = choose|k: int|
                                0 <= k < canonical@.len() && canonical@[k] == val;
                            assert(index_of@.contains_key(canonical@[k]));
                        }
                    }
                    assert(first_unplaceable_at(canonical@, ballot@, j as int));
                }
                return Err(PermutationError::ValueNotFound(val));
            },
            Some(found) => {
                let idx: usize = *found;
                assert(index_of@.contains_key(val) && index_of@[val] == idx);
                assert(canonical@[idx as int] == val);
                assert(canonical@.contains(val));
                if seen[idx] {
                    proof {
                        let k = choose|k: int| 0 <= k < j && sigma@[k] == idx;
                        assert(ballot@[k] == ballot@[j as int]);
                        assert(repeats_at(ballot@, j as int));
                        assert(first_unplaceable_at(canonical@, ballot@, j as int));
                    }
                    return Err(PermutationError::DuplicateInBallot(val));
                }
                proof {
                    assert(!repeats_at(ballot@, j as int)) by {
                        if repeats_at(ballot@, j as int) {
                            let k = choose|k: int| 0 <= k < j && ballot@[k] == ballot@[j as int];
                            let p = sigma@[k] as int;
                            assert(canonical@[p] == canonical@[idx as int]);
                            if p < idx {
                                assert(repeats_at(canonical@, idx as int));
                            } else if idx < p {
                                assert(repeats_at(canonical@, p));
                            }
                            assert(p == idx);
                        }
                    }
                }
                let ghost seen_before = seen@;
                let ghost sigma_before = sigma@;
                seen.set(idx, true);
                sigma.push(idx as u32);
                proof {
                    assert forall|p: int| 0 <= p < n implies (#[trigger] seen@[p] <==> exists|
                        k: int,
                    |
                        0 <= k < j + 1 && sigma@[k] == p) by {
                        if p == idx {
                            assert(sigma@[j as int] == p);
                        } else if seen_before[p] {
                            let k = choose|k: int| 0 <= k < j && sigma_before[k] == p;
                            assert(sigma@[k] == p);
                        } else if exists|k: int| 0 <= k < j + 1 && sigma@[k] == p {
                            let k = choose|k: int| 0 <= k < j + 1 && sigma@[k] == p;
                            assert(k < j);
                            assert(sigma_before[k] == p);
                        }
                    }
                }
            },
        }
        j += 1;
    }
    proof {
        assert forall|a: int, b: int| 0 <= a < b < sigma@.len() implies sigma@[a] != sigma@[b] by {
            if sigma@[a] == sigma@[b] {
                assert(ballot@[a] == ballot@[b]);
                assert(repeats_at(ballot@, b));
                assert(unplaceable_at(canonical@, ballot@, b));
            }
        }
    }
    Ok(sigma)
}

} // verus!
