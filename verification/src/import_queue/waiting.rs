//! The items that wait: for their turn in the inbox, or parked until an ancestor
//! or an epoch becomes known.

use crate::import_queue::items::{ImportQueueItem, ParkReason, Parked, Payload, Wake};
use crate::primitives::{BlockHash, Origin};
use vstd::prelude::*;

verus! {

/// The news is what the parked item waits for.
pub open spec fn wakes(p: Parked, w: Wake) -> bool {
    match w {
        Wake::Imported(hash) => p.reason is MissingAncestor && p.item.payload is Block
            && p.item.payload->Block_0.header.parent == hash,
        Wake::Epoch => p.reason is EpochDataUnavailable,
    }
}

/// The items among the first `n` parked ones that the news wakes, oldest first.
pub open spec fn released(parked: Seq<Parked>, w: Wake, n: nat) -> Seq<ImportQueueItem>
    decreases n,
{
    if n == 0 || n > parked.len() {
        Seq::<ImportQueueItem>::empty()
    } else if wakes(parked[n - 1], w) {
        released(parked, w, (n - 1) as nat).push(parked[n - 1].item)
    } else {
        released(parked, w, (n - 1) as nat)
    }
}

/// Those among the first `n` parked items that the news leaves waiting.
pub open spec fn kept(parked: Seq<Parked>, w: Wake, n: nat) -> Seq<Parked>
    decreases n,
{
    if n == 0 || n > parked.len() {
        Seq::<Parked>::empty()
    } else if wakes(parked[n - 1], w) {
        kept(parked, w, (n - 1) as nat)
    } else {
        kept(parked, w, (n - 1) as nat).push(parked[n - 1])
    }
}

/// Waking leaves no more items parked than there were.
pub proof fn lemma_kept_shrinks(parked: Seq<Parked>, w: Wake, n: nat)
    requires
        n <= parked.len(),
    ensures
        kept(parked, w, n).len() + released(parked, w, n).len() == n,
    decreases n,
{
    if n > 0 {
        lemma_kept_shrinks(parked, w, (n - 1) as nat);
    }
}

/// The position of the item to take next: the oldest locally produced one, or,
/// where there is none, the oldest one.
pub open spec fn next_position(inbox: Seq<ImportQueueItem>) -> int {
    if exists|i: int| 0 <= i < inbox.len() && (#[trigger] inbox[i]).origin is Local {
        choose|i: int|
            0 <= i < inbox.len() && (#[trigger] inbox[i]).origin is Local && forall|k: int|
                0 <= k < i ==> !((#[trigger] inbox[k]).origin is Local)
    } else {
        0
    }
}

/// Finds the item to take next.
pub fn pick_next(inbox: &Vec<ImportQueueItem>) -> (at: usize)
    requires
        inbox@.len() > 0,
    ensures
        at == next_position(inbox@),
        at < inbox@.len(),
        inbox@[at as int].origin is Local || forall|k: int|
            0 <= k < inbox@.len() ==> !((#[trigger] inbox@[k]).origin is Local),
        forall|k: int| 0 <= k < at ==> !((#[trigger] inbox@[k]).origin is Local),
{
    let n: usize = inbox.len();
    let mut i: usize = 0;
    while i < n
        invariant
            n == inbox@.len(),
            i <= n,
            forall|k: int| 0 <= k < i ==> !((#[trigger] inbox@[k]).origin is Local),
        decreases n - i,
    {
        let local: bool = match inbox[i].origin {
            Origin::Local => true,
            Origin::Peer(_) => false,
        };
        if local {
            proof {
                let c = next_position(inbox@);
                assert(inbox@[i as int].origin is Local);
                if c < i {
                    assert(!(inbox@[c].origin is Local));
                }
                if i < c {
                    assert(!(inbox@[i as int].origin is Local));
                }
            }
            return i;
        }
        i = i + 1;
    }
    0
}

/// The parked items after `p` joined them: the oldest gives way where the limit
/// is reached.
pub open spec fn parked_with(parked: Seq<Parked>, limit: usize, p: Parked) -> Seq<Parked> {
    if parked.len() >= limit {
        parked.remove(0).push(p)
    } else {
        parked.push(p)
    }
}

/// The subject of the item that gives way when another one is parked.
pub open spec fn evicted_by(parked: Seq<Parked>, limit: usize) -> Option<BlockHash> {
    if parked.len() >= limit {
        Some(parked[0].item.subject())
    } else {
        None
    }
}

/// Whether the news is what the parked item waits for.
pub fn is_woken(p: &Parked, w: Wake) -> (r: bool)
    ensures
        r == wakes(*p, w),
{
    match w {
        Wake::Imported(hash) => match p.reason {
            ParkReason::MissingAncestor => match &p.item.payload {
                Payload::Block(b) => b.header.parent == hash,
                Payload::Justification(_) => false,
            },
            ParkReason::EpochDataUnavailable => false,
        },
        Wake::Epoch => match p.reason {
            ParkReason::EpochDataUnavailable => true,
            ParkReason::MissingAncestor => false,
        },
    }
}

/// Parks an item. Where the limit is reached the oldest parked item gives way,
/// and its subject is returned.
pub fn park_into(parked: &mut Vec<Parked>, limit: usize, item: ImportQueueItem, reason: ParkReason) -> (evicted:
    Option<BlockHash>)
    requires
        1 <= limit,
        old(parked)@.len() <= limit,
    ensures
        final(parked)@ == parked_with(old(parked)@, limit, Parked { item, reason }),
        final(parked)@.len() <= limit,
        evicted == evicted_by(old(parked)@, limit),
{
    let evicted: Option<BlockHash> = if parked.len() >= limit {
        let oldest: Parked = parked.remove(0);
        Some(oldest.item.subject_hash())
    } else {
        None
    };
    parked.push(Parked { item, reason });
    evicted
}

/// Moves the parked items that the news wakes to the end of the inbox, oldest
/// first, and says how many they were.
pub fn release_from(parked: &mut Vec<Parked>, inbox: &mut Vec<ImportQueueItem>, w: Wake) -> (n: usize)
    ensures
        final(parked)@ == kept(old(parked)@, w, old(parked)@.len()),
        final(inbox)@ == old(inbox)@ + released(old(parked)@, w, old(parked)@.len()),
        n == released(old(parked)@, w, old(parked)@.len()).len(),
{
    let mut rest: Vec<Parked> = Vec::new();
    core::mem::swap(parked, &mut rest);
    let ghost all = rest@;
    let ghost inbox_before = inbox@;
    let total: usize = rest.len();
    let mut n: usize = 0;
    let mut done: usize = 0;
    assert(all.skip(0) =~= all);
    assert(inbox@ =~= inbox_before + released(all, w, 0));
    while done < total
        invariant
            total == all.len(),
            done <= total,
            n <= done,
            rest@ == all.skip(done as int),
            parked@ == kept(all, w, done as nat),
            inbox@ == inbox_before + released(all, w, done as nat),
            n == released(all, w, done as nat).len(),
        decreases total - done,
    {
        let p: Parked = rest.remove(0);
        assert(p == all[done as int]);
        assert(rest@ =~= all.skip(done + 1));
        if is_woken(&p, w) {
            inbox.push(p.item);
            n = n + 1;
            assert(inbox@ =~= inbox_before + released(all, w, (done + 1) as nat));
        } else {
            parked.push(p);
        }
        done = done + 1;
    }
    n
}

} // verus!
