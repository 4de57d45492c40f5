use vstd::prelude::*;

verus! {

/// Mathematical model of one run of visits against a shared registry.
///
/// A run starts from the set `v0` of identifiers already claimed and visits
/// the identifiers of `oids` in order. A visit whose identifier is absent
/// from the set searches it and claims it; a visit whose identifier is
/// present skips it. `view_at` gives the claimed set before visit `k`,
/// `searched_at` says whether visit `k` searches, and `searches_upto` counts
/// the searches among the first `k` visits.
///
/// The executable walker takes exactly this step whenever an object's bytes
/// could be fetched: every search, reported in full or not, claims its
/// identifier (the `Searched` and `SearchFailed` outcomes of `visit_step`),
/// so the laws below carry over to it. Only a visit whose bytes could not be
/// fetched at all falls outside the model: it searches nothing and claims
/// nothing, and the identifier may be visited again.
pub open spec fn view_at(v0: Set<Seq<u8>>, oids: Seq<Seq<u8>>, k: int) -> Set<Seq<u8>>
    decreases k when 0 <= k
{
    if k <= 0 {
        v0
    } else {
        let prev = view_at(v0, oids, k - 1);
        if prev.contains(oids[k - 1]) {
            prev
        } else {
            prev.insert(oids[k - 1])
        }
    }
}

/// Whether visit `k` of the run searches its identifier (rather than skip it).
pub open spec fn searched_at(v0: Set<Seq<u8>>, oids: Seq<Seq<u8>>, k: int) -> bool {
    !view_at(v0, oids, k).contains(oids[k])
}

/// How many of the first `k` visits search their identifier.
pub open spec fn searches_upto(v0: Set<Seq<u8>>, oids: Seq<Seq<u8>>, k: int) -> nat
    decreases k when 0 <= k
{
    if k <= 0 {
        0
    } else {
        searches_upto(v0, oids, k - 1) + if searched_at(v0, oids, k - 1) {
            1nat
        } else {
            0nat
        }
    }
}

/// A claim never goes away: an identifier present before visit `j` is still
/// present before any later visit.
pub proof fn lemma_claim_persists(
    v0: Set<Seq<u8>>,
    oids: Seq<Seq<u8>>,
    x: Seq<u8>,
    j: int,
    k: int,
)
    requires
        0 <= j <= k,
        view_at(v0, oids, j).contains(x),
    ensures
        view_at(v0, oids, k).contains(x),
    decreases k - j,
{
    if j < k {
        lemma_claim_persists(v0, oids, x, j, k - 1);
    }
}

/// No double search: when two visits of one run carry the same identifier,
/// at most one of them searches it; once the earlier visit has searched and
/// claimed it, every later visit of that identifier skips.
pub proof fn lemma_no_double_search(v0: Set<Seq<u8>>, oids: Seq<Seq<u8>>, i: int, j: int)
    requires
        0 <= i < j < oids.len(),
        oids[i] == oids[j],
        searched_at(v0, oids, i),
    ensures
        !searched_at(v0, oids, j),
{
    assert(view_at(v0, oids, i + 1).contains(oids[i]));
    lemma_claim_persists(v0, oids, oids[i], i + 1, j);
}

/// Everything the claimed set ever holds was either claimed before the run
/// or visited earlier in the run.
pub proof fn lemma_claim_origin(v0: Set<Seq<u8>>, oids: Seq<Seq<u8>>, k: int, x: Seq<u8>)
    requires
        0 <= k,
        view_at(v0, oids, k).contains(x),
    ensures
        v0.contains(x) || exists|l: int| 0 <= l < k && oids[l] == x,
    decreases k,
{
    if k > 0 {
        let prev = view_at(v0, oids, k - 1);
        if prev.contains(x) {
            lemma_claim_origin(v0, oids, k - 1, x);
        } else {
            assert(oids[k - 1] == x);
        }
    }
}

/// Completeness under no sharing: when the visited identifiers are pairwise
/// distinct and none was claimed before the run, every visit searches, so the
/// number of searches equals the number of visits.
pub proof fn lemma_completeness(v0: Set<Seq<u8>>, oids: Seq<Seq<u8>>, k: int)
    requires
        0 <= k <= oids.len(),
        forall|l: int| 0 <= l < oids.len() ==> !v0.contains(#[trigger] oids[l]),
        forall|l: int, m: int| 0 <= l < m < oids.len() ==> oids[l] != oids[m],
    ensures
        searches_upto(v0, oids, k) == k,
    decreases k,
{
    if k > 0 {
        lemma_completeness(v0, oids, k - 1);
        if !searched_at(v0, oids, k - 1) {
            lemma_claim_origin(v0, oids, k - 1, oids[k - 1]);
            assert(false);
        }
    }
}

/// After a run, every visited identifier stands claimed.
pub proof fn lemma_all_claimed(v0: Set<Seq<u8>>, oids: Seq<Seq<u8>>, l: int)
    requires
        0 <= l < oids.len(),
    ensures
        view_at(v0, oids, oids.len() as int).contains(oids[l]),
{
    assert(view_at(v0, oids, l + 1).contains(oids[l]));
    lemma_claim_persists(v0, oids, oids[l], l + 1, oids.len() as int);
}

/// The starting claims are still claimed before any visit.
pub proof fn lemma_start_claimed(v0: Set<Seq<u8>>, oids: Seq<Seq<u8>>, x: Seq<u8>, k: int)
    requires
        0 <= k,
        v0.contains(x),
    ensures
        view_at(v0, oids, k).contains(x),
{
    lemma_claim_persists(v0, oids, x, 0, k);
}

/// Idempotent skip: running the same visits a second time, against the
/// registry state the first run left behind, searches nothing.
pub proof fn lemma_idempotent_skip(v0: Set<Seq<u8>>, oids: Seq<Seq<u8>>, k: int)
    requires
        0 <= k <= oids.len(),
    ensures
        searches_upto(view_at(v0, oids, oids.len() as int), oids, k) == 0,
    decreases k,
{
    let vf = view_at(v0, oids, oids.len() as int);
    if k > 0 {
        lemma_idempotent_skip(v0, oids, k - 1);
        lemma_all_claimed(v0, oids, k - 1);
        lemma_start_claimed(vf, oids, oids[k - 1], k - 1);
        assert(!searched_at(vf, oids, k - 1));
    }
}

} // verus!
