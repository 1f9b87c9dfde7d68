//! Winner selection over a row of scores.
//!
//! A score is an unsigned rank: of two scores the greater is the fitter. The
//! winner of a row is the first position that holds the greatest score,
//! provided that score is strictly above a floor; a row in which nothing
//! beats the floor has no winner.

use vstd::prelude::*;

verus! {

/// Position `k` wins the row: its score is above the floor, no score in the
/// row exceeds it, and no earlier position reaches it.
pub open spec fn is_winner(scores: Seq<u32>, floor: u32, k: int) -> bool {
    &&& 0 <= k < scores.len()
    &&& scores[k] > floor
    &&& forall|j: int| 0 <= j < scores.len() ==> scores[j] <= scores[k]
    &&& forall|j: int| 0 <= j < k ==> scores[j] < scores[k]
}

/// No score in the row is above the floor.
pub open spec fn none_beats(scores: Seq<u32>, floor: u32) -> bool {
    forall|j: int| 0 <= j < scores.len() ==> scores[j] <= floor
}

/// The winning position of the row, if it has one.
pub open spec fn winner(scores: Seq<u32>, floor: u32) -> Option<int> {
    if exists|k: int| is_winner(scores, floor, k) {
        Some(choose|k: int| is_winner(scores, floor, k))
    } else {
        None
    }
}

/// A row has at most one winning position.
pub proof fn lemma_winner_unique(scores: Seq<u32>, floor: u32, a: int, b: int)
    requires
        is_winner(scores, floor, a),
        is_winner(scores, floor, b),
    ensures
        a == b,
{
}

/// The first position that holds the greatest score of a row that is not
/// empty.
spec fn first_maximum(scores: Seq<u32>) -> int
    decreases scores.len(),
{
    if scores.len() <= 1 {
        0
    } else {
        let k = first_maximum(scores.drop_last());
        if scores.last() > scores[k] {
            scores.len() - 1
        } else {
            k
        }
    }
}

/// No score of the row exceeds the one at its first maximum, and no earlier
/// score reaches it.
proof fn lemma_first_maximum(scores: Seq<u32>)
    requires
        scores.len() > 0,
    ensures
        0 <= first_maximum(scores) < scores.len(),
        forall|j: int| 0 <= j < scores.len() ==> #[trigger] scores[j] <= scores[first_maximum(scores)],
        forall|j: int|
            0 <= j < first_maximum(scores) ==> #[trigger] scores[j] < scores[first_maximum(scores)],
    decreases scores.len(),
{
    if scores.len() > 1 {
        let front = scores.drop_last();
        lemma_first_maximum(front);
        assert(forall|j: int| 0 <= j < front.len() ==> front[j] == scores[j]);
    }
}

/// A row has a winner exactly when some score beats the floor; the winner
/// then is the one position that wins the row.
pub proof fn lemma_winner_decided(scores: Seq<u32>, floor: u32)
    ensures
        winner(scores, floor) is None <==> none_beats(scores, floor),
        forall|k: int| is_winner(scores, floor, k) <==> winner(scores, floor) == Some(k),
{
    assert forall|k: int| is_winner(scores, floor, k) implies winner(scores, floor) == Some(k) by {
        let c = choose|c: int| is_winner(scores, floor, c);
        lemma_winner_unique(scores, floor, k, c);
    }
    if !none_beats(scores, floor) {
        lemma_first_maximum(scores);
        assert(is_winner(scores, floor, first_maximum(scores)));
    }
}

/// Finds the winner of a row of scores.
pub fn find_winner(scores: &[u32], floor: u32) -> (found: Option<usize>)
    ensures
        found matches Some(k) ==> is_winner(scores@, floor, k as int),
        found is None ==> none_beats(scores@, floor),
        match found {
            Some(k) => winner(scores@, floor) == Some(k as int),
            None => winner(scores@, floor) is None,
        },
{
    let mut found: Option<usize> = None;
    let mut best: u32 = floor;
    let mut i: usize = 0;
    while i < scores.len()
        invariant
            i <= scores.len(),
            found is None ==> best == floor && none_beats(scores@.take(i as int), floor),
            found matches Some(k) ==> best == scores@[k as int] && is_winner(
                scores@.take(i as int),
                floor,
                k as int,
            ),
        decreases scores.len() - i,
    {
        let score = scores[i];
        if score > best {
            found = Some(i);
            best = score;
        }
        i += 1;
    }
    proof {
        assert(scores@.take(i as int) == scores@);
        lemma_winner_decided(scores@, floor);
    }
    found
}

} // verus!
