//! The node's index of the chain: which headers were imported and in what order,
//! which of them are final, and which tip is the one to extend.
//!
//! The index only grows. A header enters it after its parent, finality moves
//! along one branch and never back, and the best block is the longest-chain tip
//! above the last final block, the earlier arrival winning a tie.

use crate::primitives::BlockHash;
use vstd::prelude::*;

verus! {

/// What the index keeps of an imported header.
#[derive(Clone, Copy, Debug, PartialEq, Eq)]
pub struct HeaderRecord {
    pub hash: BlockHash,
    pub parent: BlockHash,
    pub number: u64,
    /// Where the parent stands in the index; the first record points at itself.
    pub parent_index: usize,
    /// The import made this block the best one.
    pub new_best: bool,
}

/// Every record but the first stands after its parent and is numbered one above it.
pub open spec fn linked(records: Seq<HeaderRecord>) -> bool {
    &&& records.len() > 0
    &&& records[0].parent_index == 0
    &&& forall|i: int|
        0 < i < records.len() ==> {
            &&& 0 <= (#[trigger] records[i]).parent_index < i
            &&& records[records[i].parent_index as int].hash == records[i].parent
            &&& records[i].number == records[records[i].parent_index as int].number + 1
        }
}

/// No hash occurs twice.
pub open spec fn distinct_hashes(records: Seq<HeaderRecord>) -> bool {
    forall|i: int, j: int|
        0 <= i < j < records.len() ==> (#[trigger] records[i]).hash != (#[trigger] records[j]).hash
}

/// Some record carries the hash.
pub open spec fn knows(records: Seq<HeaderRecord>, hash: BlockHash) -> bool {
    exists|i: int| 0 <= i < records.len() && (#[trigger] records[i]).hash == hash
}

/// The record at `b` is the one at `a` or has it among its ancestors.
pub open spec fn descends(records: Seq<HeaderRecord>, a: int, b: int) -> bool
    decreases b,
{
    if a == b {
        0 <= b < records.len()
    } else if b <= a || b <= 0 || b >= records.len() {
        false
    } else if !(0 <= records[b].parent_index < b) {
        false
    } else {
        descends(records, a, records[b].parent_index as int)
    }
}

/// Each final block descends from the ones made final before it.
pub open spec fn finality_chain(records: Seq<HeaderRecord>, finalized: Seq<usize>) -> bool {
    &&& finalized.len() > 0
    &&& finalized[0] == 0
    &&& forall|a: int, b: int|
        0 <= a <= b < finalized.len() ==> descends(records, #[trigger] finalized[a] as int, #[trigger] finalized[b] as int)
    &&& forall|a: int, b: int|
        0 <= a < b < finalized.len() ==> #[trigger] finalized[a] != #[trigger] finalized[b]
}

/// The record at `b` is the fork choice above `root`: it descends from `root`, no
/// descendant of `root` has a greater number, and none with the same number
/// arrived before it.
pub open spec fn is_best(records: Seq<HeaderRecord>, root: int, b: int) -> bool {
    &&& descends(records, root, b)
    &&& forall|i: int|
        0 <= i < records.len() && #[trigger] descends(records, root, i) ==> {
            ||| records[i].number < records[b].number
            ||| records[i].number == records[b].number && b <= i
        }
}

/// Descent is transitive.
pub proof fn lemma_descends_transitive(records: Seq<HeaderRecord>, a: int, b: int, c: int)
    requires
        descends(records, a, b),
        descends(records, b, c),
    ensures
        descends(records, a, c),
    decreases c,
{
    if b != c {
        lemma_descends_transitive(records, a, b, records[c].parent_index as int);
        if a == c {
            lemma_descends_index(records, a, b);
            lemma_descends_index(records, b, records[c].parent_index as int);
        }
    }
}

/// The record at `i` stands on a branch that competes with the one through
/// `root`: it neither descends from `root` nor is among its ancestors.
pub open spec fn competes(records: Seq<HeaderRecord>, root: int, i: int) -> bool {
    !descends(records, root, i) && !descends(records, i, root)
}

/// The hashes of the records among the first `n` that stood above `old_root` and
/// that finality at `new_root` leaves on a competing branch, in import order.
pub open spec fn left_behind(records: Seq<HeaderRecord>, old_root: int, new_root: int, n: nat) -> Seq<BlockHash>
    decreases n,
{
    if n == 0 || n > records.len() {
        Seq::<BlockHash>::empty()
    } else if descends(records, old_root, n - 1) && competes(records, new_root, n - 1) {
        left_behind(records, old_root, new_root, (n - 1) as nat).push(records[n - 1].hash)
    } else {
        left_behind(records, old_root, new_root, (n - 1) as nat)
    }
}

/// A descendant stands no earlier than its ancestor.
pub proof fn lemma_descends_index(records: Seq<HeaderRecord>, a: int, b: int)
    requires
        descends(records, a, b),
    ensures
        0 <= a <= b < records.len(),
    decreases b,
{
    if a != b {
        lemma_descends_index(records, a, records[b].parent_index as int);
    }
}

/// Appending a record changes no descent among the records before it.
pub proof fn lemma_descends_push(records: Seq<HeaderRecord>, record: HeaderRecord, a: int, b: int)
    requires
        0 <= b < records.len(),
    ensures
        descends(records.push(record), a, b) == descends(records, a, b),
    decreases b,
{
    let grown = records.push(record);
    assert(grown[b] == records[b]);
    if a != b && !(b <= a || b <= 0) && 0 <= records[b].parent_index < b {
        lemma_descends_push(records, record, a, records[b].parent_index as int);
    }
}

/// The chain index.
#[derive(Clone, Debug, PartialEq, Eq)]
pub struct ChainIndex {
    /// The imported headers in the order of their import, the genesis first.
    pub records: Vec<HeaderRecord>,
    /// The positions made final so far, oldest first, starting with the genesis.
    pub finalized: Vec<usize>,
    /// The position of the block to extend.
    pub best: usize,
}

impl ChainIndex {
    /// The records are linked to their parents, no hash occurs twice, the final
    /// blocks lie on one branch, and the best block is the fork choice above the
    /// last final one.
    pub open spec fn wf(&self) -> bool {
        &&& linked(self.records@)
        &&& distinct_hashes(self.records@)
        &&& finality_chain(self.records@, self.finalized@)
        &&& forall|k: int| 0 <= k < self.finalized@.len() ==> (#[trigger] self.finalized@[k]) < self.records@.len()
        &&& self.best < self.records@.len()
        &&& is_best(self.records@, self.last_final(), self.best as int)
    }

    /// The position of the last block made final.
    pub open spec fn last_final(&self) -> int {
        self.finalized@[self.finalized@.len() - 1] as int
    }

    /// The index that holds the genesis block only, which is final and best.
    pub fn new(genesis: BlockHash, number: u64) -> (c: ChainIndex)
        ensures
            c.wf(),
            c.records@ == seq![
                HeaderRecord { hash: genesis, parent: genesis, number, parent_index: 0, new_best: true },
            ],
            c.finalized@ == seq![0usize],
            c.best == 0,
    {
        let mut records: Vec<HeaderRecord> = Vec::new();
        records.push(HeaderRecord { hash: genesis, parent: genesis, number, parent_index: 0, new_best: true });
        let mut finalized: Vec<usize> = Vec::new();
        finalized.push(0);
        let c = ChainIndex { records, finalized, best: 0 };
        assert(descends(c.records@, 0, 0));
        assert(c.records@ =~= seq![
            HeaderRecord { hash: genesis, parent: genesis, number, parent_index: 0, new_best: true },
        ]);
        c
    }

    /// Where the header with the given hash stands.
    pub fn position(&self, hash: BlockHash) -> (r: Option<usize>)
        ensures
            match r {
                Some(i) => i < self.records@.len() && self.records@[i as int].hash == hash,
                None => !knows(self.records@, hash),
            },
    {
        let n: usize = self.records.len();
        let mut i: usize = 0;
        while i < n
            invariant
                n == self.records.len(),
                i <= n,
                forall|k: int| 0 <= k < i ==> (#[trigger] self.records@[k]).hash != hash,
            decreases n - i,
        {
            if self.records[i].hash == hash {
                return Some(i);
            }
            i = i + 1;
        }
        None
    }

    /// The hash of the block to extend.
    pub fn best_hash(&self) -> (h: BlockHash)
        requires
            self.wf(),
        ensures
            h == self.records@[self.best as int].hash,
    {
        self.records[self.best].hash
    }

    /// The position of the last block made final.
    pub fn finalized_position(&self) -> (p: usize)
        requires
            self.wf(),
        ensures
            p == self.last_final(),
            p < self.records@.len(),
    {
        self.finalized[self.finalized.len() - 1]
    }

    /// The hash of the last block made final.
    pub fn finalized_hash(&self) -> (h: BlockHash)
        requires
            self.wf(),
        ensures
            h == self.records@[self.last_final()].hash,
    {
        let p: usize = self.finalized_position();
        self.records[p].hash
    }

    /// The record of the header with the given hash.
    pub fn header(&self, hash: BlockHash) -> (r: Option<HeaderRecord>)
        ensures
            match r {
                Some(record) => record.hash == hash && self.records@.contains(record),
                None => !knows(self.records@, hash),
            },
    {
        match self.position(hash) {
            Some(i) => Some(self.records[i]),
            None => None,
        }
    }

    /// Whether the record at `b` is the one at `a` or has it among its ancestors.
    pub fn descends_from(&self, a: usize, b: usize) -> (r: bool)
        requires
            linked(self.records@),
            a < self.records@.len(),
            b < self.records@.len(),
        ensures
            r == descends(self.records@, a as int, b as int),
    {
        let mut cur: usize = b;
        while cur > a
            invariant
                linked(self.records@),
                cur < self.records@.len(),
                a < self.records@.len(),
                descends(self.records@, a as int, b as int) == descends(self.records@, a as int, cur as int),
            decreases cur,
        {
            cur = self.records[cur].parent_index;
        }
        cur == a
    }

    /// The fork choice above `root`: the longest chain, the earlier arrival
    /// winning a tie.
    pub fn select_best(&self, root: usize) -> (b: usize)
        requires
            linked(self.records@),
            root < self.records@.len(),
        ensures
            b < self.records@.len(),
            is_best(self.records@, root as int, b as int),
    {
        let n: usize = self.records.len();
        let mut b: usize = root;
        let mut i: usize = root + 1;
        proof {
            assert forall|k: int| 0 <= k < root + 1 && #[trigger] descends(self.records@, root as int, k) implies k
                == root by {
                lemma_descends_index(self.records@, root as int, k);
            }
        }
        while i < n
            invariant
                linked(self.records@),
                n == self.records@.len(),
                root < i <= n,
                b < i,
                descends(self.records@, root as int, b as int),
                forall|k: int|
                    0 <= k < i && #[trigger] descends(self.records@, root as int, k) ==> {
                        ||| self.records@[k].number < self.records@[b as int].number
                        ||| self.records@[k].number == self.records@[b as int].number && b <= k
                    },
            decreases n - i,
        {
            if self.records[i].number > self.records[b].number && self.descends_from(root, i) {
                b = i;
            }
            i = i + 1;
        }
        b
    }

    /// Records a header whose parent stands at `parent_index`, and moves the best
    /// block to it where it is longer than every chain known so far.
    pub fn append(&mut self, hash: BlockHash, parent: BlockHash, number: u64, parent_index: usize) -> (new_best:
        bool)
        requires
            old(self).wf(),
            !knows(old(self).records@, hash),
            parent_index < old(self).records@.len(),
            old(self).records@[parent_index as int].hash == parent,
            number == old(self).records@[parent_index as int].number + 1,
            descends(old(self).records@, old(self).last_final(), parent_index as int),
        ensures
            final(self).wf(),
            final(self).records@ == old(self).records@.push(
                HeaderRecord { hash, parent, number, parent_index, new_best },
            ),
            final(self).finalized@ == old(self).finalized@,
            new_best == (number > old(self).records@[old(self).best as int].number),
            final(self).best == if new_best {
                old(self).records@.len()
            } else {
                old(self).best as nat
            },
    {
        let new_best: bool = number > self.records[self.best].number;
        let ghost before = self.records@;
        let ghost root = self.last_final();
        let record = HeaderRecord { hash, parent, number, parent_index, new_best };
        let position: usize = self.records.len();
        self.records.push(record);
        if new_best {
            self.best = position;
        }
        proof {
            let after = self.records@;
            assert forall|a: int, b: int| 0 <= b < before.len() implies descends(after, a, b) == descends(
                before,
                a,
                b,
            ) by {
                lemma_descends_push(before, record, a, b);
            }
            assert(after[position as int] == record);
            assert forall|i: int| 0 <= i < before.len() implies after[i] == before[i] by {}
            assert(linked(after));
            assert(distinct_hashes(after));
            lemma_descends_index(before, root, parent_index as int);
            assert(descends(after, root, position as int));
            assert(finality_chain(after, self.finalized@));
            assert(is_best(after, root, self.best as int));
        }
        new_best
    }

    /// Makes the record at `target` final and chooses the best block above it.
    /// Returns the blocks that this leaves on competing branches, which can be
    /// pruned: nothing is built on them or made final among them any more.
    pub fn finalize(&mut self, target: usize) -> (pruned: Vec<BlockHash>)
        requires
            old(self).wf(),
            target < old(self).records@.len(),
            target != old(self).last_final(),
            descends(old(self).records@, old(self).last_final(), target as int),
        ensures
            final(self).wf(),
            final(self).records@ == old(self).records@,
            final(self).finalized@ == old(self).finalized@.push(target),
            is_best(final(self).records@, target as int, final(self).best as int),
            pruned@ == left_behind(
                old(self).records@,
                old(self).last_final(),
                target as int,
                old(self).records@.len(),
            ),
    {
        let ghost before = self.finalized@;
        let ghost root = self.last_final();
        let old_root: usize = self.finalized_position();
        let n: usize = self.records.len();
        let mut pruned: Vec<BlockHash> = Vec::new();
        let mut i: usize = 0;
        while i < n
            invariant
                linked(self.records@),
                n == self.records@.len(),
                i <= n,
                old_root < n,
                target < n,
                pruned@ == left_behind(self.records@, old_root as int, target as int, i as nat),
            decreases n - i,
        {
            if self.descends_from(old_root, i) && !self.descends_from(target, i) && !self.descends_from(i, target) {
                pruned.push(self.records[i].hash);
            }
            i = i + 1;
        }
        let best: usize = self.select_best(target);
        self.finalized.push(target);
        self.best = best;
        proof {
            let after = self.finalized@;
            assert forall|a: int, b: int| 0 <= a <= b < after.len() implies descends(
                self.records@,
                #[trigger] after[a] as int,
                #[trigger] after[b] as int,
            ) by {
                if b == before.len() {
                    if a < b {
                        assert(descends(self.records@, before[a] as int, before[before.len() - 1] as int));
                        lemma_descends_transitive(self.records@, before[a] as int, root, target as int);
                    }
                } else {
                    assert(after[a] == before[a] && after[b] == before[b]);
                }
            }
            assert forall|a: int, b: int| 0 <= a < b < after.len() implies #[trigger] after[a] != #[trigger] after[b] by {
                if b == before.len() {
                    assert(descends(self.records@, before[a] as int, before[before.len() - 1] as int));
                    lemma_descends_index(self.records@, before[a] as int, root);
                    lemma_descends_index(self.records@, root, target as int);
                } else {
                    assert(after[a] == before[a] && after[b] == before[b]);
                }
            }
        }
        pruned
    }

    /// The number of the block to extend.
    pub fn best_number(&self) -> (n: u64)
        requires
            self.wf(),
        ensures
            n == self.records@[self.best as int].number,
    {
        self.records[self.best].number
    }
}

/// A block enters the index strictly after its parent: whatever record carries
/// the hash that a later one names as its parent stands before it.
pub proof fn law_parent_imported_first(c: ChainIndex, child: int, parent: int)
    requires
        c.wf(),
        0 < child < c.records@.len(),
        0 <= parent < c.records@.len(),
        c.records@[parent].hash == c.records@[child].parent,
    ensures
        parent < child,
        parent == c.records@[child].parent_index,
        c.records@[child].number == c.records@[parent].number + 1,
{
    let p = c.records@[child].parent_index as int;
    assert(c.records@[p].hash == c.records@[parent].hash);
}

/// Finality is monotonic: every block made final descends from each block made
/// final before it.
pub proof fn law_finality_monotonic(c: ChainIndex, earlier: int, later: int)
    requires
        c.wf(),
        0 <= earlier <= later < c.finalized@.len(),
    ensures
        descends(c.records@, c.finalized@[earlier] as int, c.finalized@[later] as int),
{
}

/// A block on a branch that competes with a final block, being neither its
/// ancestor nor its descendant, is not among the final blocks.
pub proof fn law_competing_branch_never_final(c: ChainIndex, k: int, x: int)
    requires
        c.wf(),
        0 <= k < c.finalized@.len(),
        !descends(c.records@, c.finalized@[k] as int, x),
        !descends(c.records@, x, c.finalized@[k] as int),
    ensures
        forall|m: int| 0 <= m < c.finalized@.len() ==> #[trigger] c.finalized@[m] != x,
{
    assert forall|m: int| 0 <= m < c.finalized@.len() implies #[trigger] c.finalized@[m] != x by {
        if m <= k {
            assert(descends(c.records@, c.finalized@[m] as int, c.finalized@[k] as int));
        } else {
            assert(descends(c.records@, c.finalized@[k] as int, c.finalized@[m] as int));
        }
    }
}

/// The best block stands on the final branch.
pub proof fn law_best_above_final(c: ChainIndex)
    requires
        c.wf(),
    ensures
        descends(c.records@, c.last_final(), c.best as int),
{
}

} // verus!
