//! Counting a round's votes.

use vstd::prelude::*;

verus! {

/// `i` is the first position of `votes` that holds its largest counter.
pub open spec fn is_first_max(votes: Seq<u8>, i: int) -> bool {
    &&& 0 <= i < votes.len()
    &&& forall|j: int| 0 <= j < votes.len() ==> votes[j] <= votes[i]
    &&& forall|j: int| 0 <= j < i ==> votes[j] < votes[i]
}

/// The first position of `votes` that holds its largest counter. It means
/// nothing for an empty sequence.
pub open spec fn first_max(votes: Seq<u8>) -> int {
    choose|i: int| is_first_max(votes, i)
}

/// Every sequence of counters that is not empty has a first largest one.
pub proof fn lemma_first_max_exists(votes: Seq<u8>)
    requires
        votes.len() > 0,
    ensures
        is_first_max(votes, first_max(votes)),
    decreases votes.len(),
{
    if votes.len() == 1 {
        assert(is_first_max(votes, 0));
    } else {
        let front = votes.drop_last();
        lemma_first_max_exists(front);
        let p: int = first_max(front);
        let last: int = votes.len() - 1;
        if votes[last] > front[p] {
            assert forall|j: int| 0 <= j < votes.len() implies votes[j] <= votes[last] by {
                if j < last {
                    assert(front[j] <= front[p]);
                }
            }
            assert forall|j: int| 0 <= j < last implies votes[j] < votes[last] by {
                assert(front[j] <= front[p]);
            }
            assert(is_first_max(votes, last));
        } else {
            assert forall|j: int| 0 <= j < votes.len() implies votes[j] <= votes[p] by {
                if j < last {
                    assert(front[j] <= front[p]);
                }
            }
            assert forall|j: int| 0 <= j < p implies votes[j] < votes[p] by {
                assert(front[j] < front[p]);
            }
            assert(is_first_max(votes, p));
        }
    }
}

/// At most one position is the first largest.
pub proof fn lemma_first_max_unique(votes: Seq<u8>, i: int, j: int)
    requires
        is_first_max(votes, i),
        is_first_max(votes, j),
    ensures
        i == j,
{
    if i < j {
        assert(votes[i] < votes[j]);
    } else if j < i {
        assert(votes[j] < votes[i]);
    }
}

/// A position that is the first largest is the one that `first_max` names.
pub proof fn lemma_first_max_is(votes: Seq<u8>, i: int)
    requires
        is_first_max(votes, i),
    ensures
        first_max(votes) == i,
{
    lemma_first_max_unique(votes, i, first_max(votes));
}

/// Finds the seat that a round votes out: the position with the most votes,
/// and the lowest such position where several share the maximum. With no
/// votes cast at all that is position 0, which is also the answer for an
/// empty list.
pub fn most_voted(votes: &Vec<u8>) -> (suspect: usize)
    ensures
        votes@.len() > 0 ==> is_first_max(votes@, suspect as int),
        votes@.len() > 0 ==> suspect as int == first_max(votes@),
        votes@.len() == 0 ==> suspect == 0,
{
    let mut max_votes: u8 = 0;
    let mut suspect: usize = 0;
    let mut i: usize = 0;
    while i < votes.len()
        invariant
            i <= votes@.len(),
            i == 0 ==> suspect == 0 && max_votes == 0,
            i > 0 ==> suspect < i && max_votes == votes@[suspect as int],
            forall|j: int| 0 <= j < i ==> votes@[j] <= max_votes,
            forall|j: int| 0 <= j < suspect ==> votes@[j] < max_votes,
        decreases votes@.len() - i,
    {
        if votes[i] > max_votes {
            max_votes = votes[i];
            suspect = i;
        }
        i += 1;
    }
    proof {
        if votes@.len() > 0 {
            lemma_first_max_is(votes@, suspect as int);
        }
    }
    suspect
}

} // verus!
