//! One pass of ingestion: which heights are fetched and committed, in which
//! order, and when the staker set is fetched with a block.

use crate::table::{heights_after, heights_contiguous, lemma_first_height};
use crate::table::lemma_heights_stay_contiguous;
use crate::types::{BlockHeader, HashVal, HeightInfo};
use vstd::prelude::*;

verus! {

/// The heights from `low` to `high`, both included, in ascending order.
pub open spec fn heights_between(low: u64, high: u64) -> Seq<u64> {
    if low > high {
        Seq::empty()
    } else {
        Seq::new((high - low + 1) as nat, |i: int| (low + i) as u64)
    }
}

/// A list of heights without its first; an empty list stays empty.
pub open spec fn rest_of(heights: Seq<u64>) -> Seq<u64> {
    if heights.len() == 0 {
        heights
    } else {
        heights.skip(1)
    }
}

/// The progress of one pass: the heights still to index and the stakes hash
/// of the block indexed last.
#[derive(Clone, Copy, Debug, PartialEq, Eq)]
pub struct IngestPass {
    next: u64,
    last: u64,
    finished: bool,
    stakes: Option<HashVal>,
}

impl IngestPass {
    /// The heights still to index, in the order in which they are indexed.
    pub closed spec fn remaining(&self) -> Seq<u64> {
        if self.finished {
            Seq::empty()
        } else {
            heights_between(self.next, self.last)
        }
    }

    /// The stakes hash of the block indexed last in this pass.
    pub closed spec fn stakes_seen(&self) -> Option<HashVal> {
        self.stakes
    }

    /// A pass from the highest height of the store to the node's tip, both
    /// included: the highest stored height is indexed again, which changes
    /// nothing in the store.
    pub fn begin(our_highest: u64, their_highest: u64) -> (pass: IngestPass)
        ensures
            pass.remaining() == heights_between(our_highest, their_highest),
            pass.stakes_seen() is None,
    {
        let pass = IngestPass {
            next: our_highest,
            last: their_highest,
            finished: our_highest > their_highest,
            stakes: None,
        };
        proof {
            assert(pass.remaining() =~= heights_between(our_highest, their_highest));
        }
        pass
    }

    /// The height to fetch and commit next; none when the pass is done.
    pub fn next_height(&self) -> (height: Option<u64>)
        ensures
            match height {
                Some(h) => self.remaining().len() > 0 && self.remaining()[0] == h,
                None => self.remaining().len() == 0,
            },
    {
        if self.finished || self.next > self.last {
            None
        } else {
            Some(self.next)
        }
    }

    /// Whether the staker set is to be fetched with a block: it is, unless
    /// the block's stakes hash is that of the block indexed just before.
    pub fn wants_stakers(&self, header: &BlockHeader) -> (wanted: bool)
        ensures
            wanted == (self.stakes_seen() != Some(header.stakes_hash)),
    {
        match &self.stakes {
            Some(seen) => !seen.same(&header.stakes_hash),
            None => true,
        }
    }

    /// Records that the block of the next height was committed.
    pub fn committed(&mut self, header: &BlockHeader)
        ensures
            final(self).remaining() == rest_of(old(self).remaining()),
            final(self).stakes_seen() == Some(header.stakes_hash),
    {
        let ghost before = self.remaining();
        self.stakes = Some(header.stakes_hash);
        if self.finished || self.next >= self.last {
            self.finished = true;
            proof {
                assert(rest_of(before) =~= Seq::<u64>::empty());
            }
        } else {
            self.next = self.next + 1;
            proof {
                assert(self.remaining() =~= rest_of(before));
            }
        }
    }
}

/// The table of heights after the first `n` of a list of blocks were
/// committed in order.
pub open spec fn heights_after_all(heights: Seq<HeightInfo>, infos: Seq<HeightInfo>, n: nat) -> Seq<
    HeightInfo,
>
    decreases n,
{
    if n == 0 {
        heights
    } else {
        heights_after(heights_after_all(heights, infos, (n - 1) as nat), infos[n - 1])
    }
}

/// A pass leaves no gap: where the indexed heights are all the heights from
/// `low` to `start`, or none at all, committing the blocks of the heights
/// from `start` to `end` in order leaves all the heights from `low`, or from
/// `start`, to `end` indexed, each once.
pub proof fn lemma_pass_leaves_no_gap(
    heights: Seq<HeightInfo>,
    infos: Seq<HeightInfo>,
    low: u64,
    start: u64,
    end: u64,
    n: nat,
)
    requires
        start <= end,
        infos.len() == end - start + 1,
        forall|i: int| 0 <= i < infos.len() ==> (#[trigger] infos[i]).height == start + i,
        heights.len() == 0 || heights_contiguous(heights, low, start),
        1 <= n <= infos.len(),
    ensures
        heights_contiguous(
            heights_after_all(heights, infos, n),
            if heights.len() == 0 {
                start
            } else {
                low
            },
            (start + n - 1) as u64,
        ),
    decreases n,
{
    if n == 1 {
        assert(heights_after_all(heights, infos, 0) == heights);
        assert(infos[0].height == start);
        if heights.len() == 0 {
            assert(heights =~= Seq::<HeightInfo>::empty());
            lemma_first_height(infos[0]);
        } else {
            lemma_heights_stay_contiguous(heights, low, start, infos[0]);
        }
    } else {
        lemma_pass_leaves_no_gap(heights, infos, low, start, end, (n - 1) as nat);
        let from = if heights.len() == 0 {
            start
        } else {
            low
        };
        assert(infos[n - 1].height == start + n - 1);
        lemma_heights_stay_contiguous(
            heights_after_all(heights, infos, (n - 1) as nat),
            from,
            (start + n - 2) as u64,
            infos[n - 1],
        );
    }
}

} // verus!
