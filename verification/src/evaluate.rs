//! The evaluator's decisions: which class an output column names, and how
//! many samples of a set were classified correctly.
//!
//! An output activation is represented by a score: an unsigned integer that
//! orders as the activation does. Only the order of the scores matters here.

use vstd::prelude::*;

verus! {

/// `i` is the position of the first maximum of `scores`: nothing is larger,
/// and everything before it is strictly smaller.
pub open spec fn is_first_max(scores: Seq<u64>, i: int) -> bool {
    &&& 0 <= i < scores.len()
    &&& forall|j: int| 0 <= j < scores.len() ==> scores[j] <= scores[i]
    &&& forall|j: int| 0 <= j < i ==> scores[j] < scores[i]
}

/// The class that an output column names: the position of its first maximum,
/// and 0 for an empty column.
pub open spec fn predicted_class(scores: Seq<u64>) -> int {
    if scores.len() == 0 {
        0
    } else {
        choose|i: int| is_first_max(scores, i)
    }
}

/// A column has at most one first maximum.
pub proof fn lemma_first_max_unique(scores: Seq<u64>, i: int, j: int)
    requires
        is_first_max(scores, i),
        is_first_max(scores, j),
    ensures
        i == j,
{
    if i < j {
        assert(scores[i] < scores[j]);
    } else if j < i {
        assert(scores[j] < scores[i]);
    }
}

/// How many of the first `outputs.len()` samples are classified correctly:
/// those whose predicted class equals their label.
pub open spec fn correct_count(outputs: Seq<Seq<u64>>, labels: Seq<u8>) -> nat
    decreases outputs.len(),
{
    if outputs.len() == 0 || labels.len() == 0 {
        0
    } else {
        let hit: nat = if predicted_class(outputs.last()) == labels.last() {
            1
        } else {
            0
        };
        correct_count(outputs.drop_last(), labels.drop_last()) + hit
    }
}

/// Picks the index of the largest score, the lowest such index when the
/// maximum occurs more than once.
pub fn argmax(scores: &[u64]) -> (best: usize)
    ensures
        best == predicted_class(scores@),
        scores@.len() > 0 ==> is_first_max(scores@, best as int),
        scores@.len() == 0 ==> best == 0,
{
    let mut best: usize = 0;
    if scores.len() == 0 {
        return best;
    }
    let mut i: usize = 1;
    while i < scores.len()
        invariant
            1 <= i <= scores.len(),
            is_first_max(scores@.subrange(0, i as int), best as int),
        decreases scores.len() - i,
    {
        let ghost before = scores@.subrange(0, i as int);
        let ghost after = scores@.subrange(0, i + 1);
        proof {
            assert(forall|j: int| 0 <= j < i ==> after[j] == before[j]);
        }
        if scores[i] > scores[best] {
            proof {
                assert(forall|j: int| 0 <= j < i ==> before[j] <= before[best as int]);
            }
            best = i;
        }
        i += 1;
    }
    proof {
        assert(scores@.subrange(0, i as int) =~= scores@);
        let chosen = choose|k: int| is_first_max(scores@, k);
        lemma_first_max_unique(scores@, best as int, chosen);
    }
    best
}

/// The count of correct samples never exceeds the number of samples.
pub proof fn lemma_correct_count_bounded(outputs: Seq<Seq<u64>>, labels: Seq<u8>)
    ensures
        correct_count(outputs, labels) <= outputs.len(),
    decreases outputs.len(),
{
    if outputs.len() != 0 && labels.len() != 0 {
        lemma_correct_count_bounded(outputs.drop_last(), labels.drop_last());
    }
}

/// When every prediction equals its label, every sample counts as correct:
/// the accuracy is the whole of the set.
pub proof fn lemma_all_correct(outputs: Seq<Seq<u64>>, labels: Seq<u8>)
    requires
        outputs.len() == labels.len(),
        forall|k: int| 0 <= k < outputs.len() ==> predicted_class(#[trigger] outputs[k]) == labels[k],
    ensures
        correct_count(outputs, labels) == outputs.len(),
    decreases outputs.len(),
{
    if outputs.len() != 0 {
        lemma_all_correct(outputs.drop_last(), labels.drop_last());
    }
}

/// When no prediction equals its label, and also on an empty set, nothing
/// counts as correct.
pub proof fn lemma_none_correct(outputs: Seq<Seq<u64>>, labels: Seq<u8>)
    requires
        outputs.len() == labels.len(),
        forall|k: int| 0 <= k < outputs.len() ==> predicted_class(#[trigger] outputs[k]) != labels[k],
    ensures
        correct_count(outputs, labels) == 0,
    decreases outputs.len(),
{
    if outputs.len() != 0 {
        lemma_none_correct(outputs.drop_last(), labels.drop_last());
    }
}

/// Scores a labelled set: `outputs[k]` is the output column that the forward
/// pass produced for sample `k`, `labels[k]` its true class. Returns how many
/// samples were classified correctly.
pub fn count_correct(outputs: &Vec<Vec<u64>>, labels: &[u8]) -> (correct: usize)
    requires
        outputs@.len() == labels@.len(),
    ensures
        correct == correct_count(outputs.deep_view(), labels@),
        correct <= outputs@.len(),
{
    let mut correct: usize = 0;
    let mut k: usize = 0;
    while k < outputs.len()
        invariant
            k <= outputs@.len(),
            outputs@.len() == labels@.len(),
            correct == correct_count(
                outputs.deep_view().subrange(0, k as int),
                labels@.subrange(0, k as int),
            ),
            correct <= k,
        decreases outputs.len() - k,
    {
        let predicted = argmax(outputs[k].as_slice());
        proof {
            let outs = outputs.deep_view().subrange(0, k + 1);
            let labs = labels@.subrange(0, k + 1);
            assert(outs.drop_last() =~= outputs.deep_view().subrange(0, k as int));
            assert(labs.drop_last() =~= labels@.subrange(0, k as int));
            assert(outs.last() == outputs@[k as int]@);
            assert(labs.last() == labels@[k as int]);
        }
        if predicted == labels[k] as usize {
            correct += 1;
        }
        k += 1;
    }
    proof {
        assert(outputs.deep_view().subrange(0, k as int) =~= outputs.deep_view());
        assert(labels@.subrange(0, k as int) =~= labels@);
    }
    correct
}

} // verus!
