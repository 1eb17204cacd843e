//! Ranking of scored records: descending by score, earlier scan position first
//! among equal scores, cut to the requested number of results.

use crate::models::SearchResult;
use crate::score::{order_key, score_order};
use crate::system::FileEmbeddingSystem;
use vstd::prelude::*;
use vstd::set_lib::{lemma_int_range, lemma_len_subset, lemma_subset_equality, set_int_range};

verus! {

/// The scores of a sequence of results, position by position.
pub open spec fn scores_of(results: Seq<SearchResult>) -> Seq<u32> {
    results.map_values(|r: SearchResult| r.score)
}

/// Whether position `i` comes before position `j` in the ranking of `scores`:
/// its score is higher, or the scores are level and `i` was scanned first.
pub open spec fn outranks(scores: Seq<u32>, i: int, j: int) -> bool {
    ||| score_order(scores[i]) > score_order(scores[j])
    ||| (score_order(scores[i]) == score_order(scores[j]) && i < j)
}

/// Whether `order` lists positions of `scores` so that each outranks all that follow it.
pub open spec fn is_ranked(scores: Seq<u32>, order: Seq<int>) -> bool {
    forall|a: int, b: int| 0 <= a < b < order.len() ==> outranks(scores, order[a], order[b])
}

/// Whether `order` lists each of the positions `0 .. n` exactly once.
pub open spec fn lists_each_once(order: Seq<int>, n: nat) -> bool {
    &&& order.len() == n
    &&& forall|k: int| 0 <= k < order.len() ==> 0 <= #[trigger] order[k] < n
    &&& forall|a: int, b: int| 0 <= a < b < order.len() ==> order[a] != order[b]
}

/// Where `entrant` goes into `order`: before the first position that it outranks,
/// at the end where it outranks none.
pub open spec fn slot(scores: Seq<u32>, order: Seq<int>, entrant: int) -> int
    decreases order.len(),
{
    if order.len() == 0 || outranks(scores, entrant, order.first()) {
        0
    } else {
        1 + slot(scores, order.drop_first(), entrant)
    }
}

/// The positions of `scores` in rank order, built by letting the positions
/// enter one after another in scan order.
pub open spec fn ranking(scores: Seq<u32>) -> Seq<int>
    decreases scores.len(),
{
    if scores.len() == 0 {
        Seq::empty()
    } else {
        let newest = scores.len() - 1;
        let earlier = ranking(scores.drop_last());
        earlier.insert(slot(scores, earlier, newest), newest)
    }
}

/// Number of results of a search over `available` records with limit `limit`.
pub open spec fn result_count(available: nat, limit: nat) -> nat {
    if limit < available {
        limit
    } else {
        available
    }
}

/// The results of a search: the first `limit` of `results` in rank order.
pub open spec fn ranked(results: Seq<SearchResult>, limit: nat) -> Seq<SearchResult> {
    let order = ranking(scores_of(results));
    Seq::new(result_count(results.len(), limit), |k: int| results[order[k]])
}

/// `slot` lies within `order`, every position before it holds its place against
/// the entrant, and the position at it is outranked by the entrant.
pub proof fn lemma_slot_divides(scores: Seq<u32>, order: Seq<int>, entrant: int)
    ensures
        0 <= slot(scores, order, entrant) <= order.len(),
        forall|q: int|
            0 <= q < slot(scores, order, entrant) ==> !outranks(scores, entrant, #[trigger] order[q]),
        slot(scores, order, entrant) < order.len() ==> outranks(
            scores,
            entrant,
            order[slot(scores, order, entrant)],
        ),
    decreases order.len(),
{
    if order.len() == 0 || outranks(scores, entrant, order.first()) {
    } else {
        let rest = order.drop_first();
        lemma_slot_divides(scores, rest, entrant);
        let s = slot(scores, rest, entrant);
        assert forall|q: int| 0 <= q < s + 1 implies !outranks(
            scores,
            entrant,
            #[trigger] order[q],
        ) by {
            if q > 0 {
                assert(order[q] == rest[q - 1]);
            }
        }
        if s < rest.len() {
        }
    }
}

/// The first position that the entrant outranks is its slot.
pub proof fn lemma_slot_is_first_outranked(
    scores: Seq<u32>,
    order: Seq<int>,
    entrant: int,
    p: int,
)
    requires
        0 <= p <= order.len(),
        forall|q: int| 0 <= q < p ==> !outranks(scores, entrant, #[trigger] order[q]),
        p < order.len() ==> outranks(scores, entrant, order[p]),
    ensures
        slot(scores, order, entrant) == p,
{
    lemma_slot_divides(scores, order, entrant);
    let s = slot(scores, order, entrant);
    if s < p {
    }
    if p < s {
    }
}

/// The ranking of `scores` lists each position exactly once, and each listed
/// position outranks all that follow it.
pub proof fn lemma_ranking_is_ranked_permutation(scores: Seq<u32>)
    ensures
        lists_each_once(ranking(scores), scores.len()),
        is_ranked(scores, ranking(scores)),
    decreases scores.len(),
{
    if scores.len() > 0 {
        let newest = scores.len() - 1;
        let before = scores.drop_last();
        let earlier = ranking(before);
        let p = slot(scores, earlier, newest);
        let order = ranking(scores);
        lemma_ranking_is_ranked_permutation(before);
        lemma_slot_divides(scores, earlier, newest);
        assert forall|k: int| 0 <= k < order.len() implies 0 <= #[trigger] order[k]
            < scores.len() by {}
        assert forall|a: int, b: int| 0 <= a < b < order.len() implies outranks(
            scores,
            order[a],
            order[b],
        ) && order[a] != order[b] by {
            let ia = if a < p {
                a
            } else {
                a - 1
            };
            let ib = if b < p {
                b
            } else {
                b - 1
            };
            if a != p && b != p {
                assert(outranks(before, earlier[ia], earlier[ib]));
            } else if a == p && p < ib {
                assert(outranks(before, earlier[p], earlier[ib]));
            }
        }
    }
}

/// Only one order lists each position once with each outranking all that
/// follow it: the ranking.
pub proof fn lemma_ranking_is_unique(scores: Seq<u32>, order: Seq<int>)
    requires
        lists_each_once(order, scores.len()),
        is_ranked(scores, order),
    ensures
        order == ranking(scores),
    decreases scores.len(),
{
    if scores.len() > 0 {
        let n = scores.len() as int;
        let newest = n - 1;
        let before = scores.drop_last();
        lemma_each_listed(order, scores.len(), newest);
        let p = choose|p: int| 0 <= p < order.len() && order[p] == newest;
        let shorter = order.remove(p);
        assert forall|k: int| 0 <= k < shorter.len() implies 0 <= #[trigger] shorter[k] < n
            - 1 by {}
        assert forall|a: int, b: int| 0 <= a < b < shorter.len() implies shorter[a]
            != shorter[b] && outranks(before, shorter[a], shorter[b]) by {
            let wa = if a < p {
                a
            } else {
                a + 1
            };
            let wb = if b < p {
                b
            } else {
                b + 1
            };
            assert(outranks(scores, order[wa], order[wb]));
        }
        lemma_ranking_is_unique(before, shorter);
        assert forall|q: int| 0 <= q < p implies !outranks(
            scores,
            newest,
            #[trigger] shorter[q],
        ) by {
            assert(outranks(scores, order[q], order[p]));
        }
        lemma_slot_is_first_outranked(scores, shorter, newest, p);
    }
}

/// An order that lists each of `0 .. n` exactly once holds every one of them.
pub proof fn lemma_each_listed(order: Seq<int>, n: nat, wanted: int)
    requires
        lists_each_once(order, n),
        0 <= wanted < n,
    ensures
        exists|p: int| 0 <= p < order.len() && order[p] == wanted,
{
    let listed = order.to_set();
    let all = set_int_range(0, n as int);
    order.unique_seq_to_set();
    lemma_int_range(0, n as int);
    assert forall|v: int| listed.contains(v) implies all.contains(v) by {
        let k = choose|k: int| 0 <= k < order.len() && order[k] == v;
    }
    lemma_len_subset(listed, all);
    lemma_subset_equality(listed, all);
    assert(all.contains(wanted));
}

/// A search returns no more results than were asked for and no more than
/// there are records, each result is one of the records, no record is returned
/// twice, and the scores of the results never rise from one to the next.
pub proof fn lemma_results_are_bounded_and_sorted(results: Seq<SearchResult>, limit: nat)
    ensures
        ranked(results, limit).len() <= limit,
        ranked(results, limit).len() <= results.len(),
        forall|k: int|
            0 <= k < ranked(results, limit).len() ==> {
                &&& 0 <= ranking(scores_of(results))[k] < results.len()
                &&& #[trigger] ranked(results, limit)[k] == results[ranking(scores_of(results))[k]]
            },
        forall|a: int, b: int|
            0 <= a < b < ranked(results, limit).len() ==> {
                &&& ranking(scores_of(results))[a] != ranking(scores_of(results))[b]
                &&& score_order(ranked(results, limit)[a].score) >= score_order(
                    ranked(results, limit)[b].score,
                )
            },
{
    let scores = scores_of(results);
    let order = ranking(scores);
    lemma_ranking_is_ranked_permutation(scores);
    assert forall|a: int, b: int| 0 <= a < b < ranked(results, limit).len() implies {
        &&& order[a] != order[b]
        &&& score_order(ranked(results, limit)[a].score) >= score_order(
            ranked(results, limit)[b].score,
        )
    } by {
        assert(outranks(scores, order[a], order[b]));
    }
}

/// The results in reverse.
fn reversed(results: Vec<SearchResult>) -> (turned: Vec<SearchResult>)
    ensures
        turned@ == results@.reverse(),
{
    let ghost input = results@;
    let mut results = results;
    let mut turned: Vec<SearchResult> = Vec::new();
    while results.len() > 0
        invariant
            results@.len() + turned@.len() == input.len(),
            forall|i: int| 0 <= i < results@.len() ==> results@[i] == input[i],
            forall|j: int| 0 <= j < turned@.len() ==> turned@[j] == input[input.len() - 1 - j],
        decreases results@.len(),
    {
        let last = results.pop().unwrap();
        turned.push(last);
    }
    turned
}

/// Where a result with the key `key` enters `kept`, whose keys never rise:
/// behind the last result whose key is not below `key`.
fn entry_point(kept: &Vec<SearchResult>, key: i64) -> (p: usize)
    ensures
        0 <= p <= kept@.len(),
        forall|q: int| p <= q < kept@.len() ==> score_order(kept@[q].score) < key,
        p > 0 ==> score_order(kept@[p - 1].score) >= key,
{
    let mut p: usize = kept.len();
    while p > 0 && order_key(kept[p - 1].score) < key
        invariant
            0 <= p <= kept@.len(),
            forall|q: int| p <= q < kept@.len() ==> score_order(kept@[q].score) < key,
        decreases p,
    {
        p -= 1;
    }
    p
}

impl FileEmbeddingSystem {
    /// Ranks scored records: descending by score, in scan order among equal
    /// scores, cut to the first `limit`. `scored` holds every stored record
    /// with its similarity to the query, in the order of the scan.
    ///
    /// At most `limit` results are held at any time, so the work is
    /// proportional to the number of records times the limit.
    pub fn hybrid_search(&self, scored: Vec<SearchResult>, limit: usize) -> (out: Vec<
        SearchResult,
    >)
        ensures
            out@ == ranked(scored@, limit as nat),
            out@.len() == result_count(scored@.len(), limit as nat),
            out@.len() <= limit,
            out@.len() <= scored@.len(),
            forall|a: int, b: int|
                0 <= a < b < out@.len() ==> score_order(out@[a].score) >= score_order(
                    out@[b].score,
                ),
    {
        let ghost input = scored@;
        let ghost scores = scores_of(input);
        let n: usize = scored.len();
        // Taking from the end of the reversed input yields the scan order.
        let mut pending = reversed(scored);
        let mut out: Vec<SearchResult> = Vec::new();
        let mut taken: usize = 0;
        let ghost order: Seq<int> = Seq::empty();
        while pending.len() > 0
            invariant
                n == input.len(),
                scores == scores_of(input),
                taken + pending@.len() == n,
                forall|j: int| 0 <= j < pending@.len() ==> pending@[j] == input[n - 1 - j],
                order == ranking(scores.take(taken as int)),
                order.len() == taken,
                forall|k: int| 0 <= k < order.len() ==> 0 <= #[trigger] order[k] < taken,
                out@.len() == result_count(taken as nat, limit as nat),
                forall|k: int| 0 <= k < out@.len() ==> out@[k] == input[#[trigger] order[k]],
            decreases pending@.len(),
        {
            let ghost m = taken as int;
            let ghost before = scores.take(m);
            let ghost seen = scores.take(m + 1);
            let entrant = pending.pop().unwrap();
            let p: usize = entry_point(&out, order_key(entrant.score));
            proof {
                lemma_ranking_is_ranked_permutation(before);
                assert forall|k: int| 0 <= k < out@.len() implies seen[#[trigger] order[k]]
                    == out@[k].score by {}
                // The entrant outranks what stands from `p` on.
                assert forall|q: int| p <= q < out@.len() implies outranks(
                    seen,
                    m,
                    #[trigger] order[q],
                ) by {}
                // Nothing before `p` is outranked: the entry at `p - 1` holds
                // its place, and every earlier entry outranks that one.
                assert forall|q: int| 0 <= q < p implies !outranks(
                    seen,
                    m,
                    #[trigger] order[q],
                ) by {
                    let held = p as int - 1;
                    if q < held {
                        assert(outranks(before, order[q], order[held]));
                    }
                }
                lemma_slot_divides(seen, order, m);
                let s = slot(seen, order, m);
                if (p as int) < out@.len() || out@.len() == m {
                    lemma_slot_is_first_outranked(seen, order, m, p as int);
                } else {
                    // `out` is full and the entrant outranks none of it: its
                    // slot lies behind the results that are kept.
                    assert(s >= p);
                }
                assert(seen.drop_last() =~= before);
                order = order.insert(s, m);
                lemma_ranking_is_ranked_permutation(seen);
            }
            if p < limit {
                out.insert(p, entrant);
                if out.len() > limit {
                    out.pop();
                }
            }
            taken = taken + 1;
            assert forall|k: int| 0 <= k < out@.len() implies out@[k] == input[#[trigger] order[k]] by {}
        }
        proof {
            assert(scores.take(n as int) =~= scores);
            lemma_results_are_bounded_and_sorted(input, limit as nat);
        }
        out
    }
}

} // verus!
