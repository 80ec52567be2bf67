//! Authority discovery: under which peer each authority can be reached.
//!
//! An authority publishes where it can be reached; a sentry publishes nothing.
//! Both look up the other authorities of the set in force. A lookup that fails
//! leaves that authority unreachable for the epoch and harms nothing else.

use crate::authority::{Authority, AuthoritySet};
use crate::primitives::{AuthorityId, PeerId};
use crate::role::NodeRole;
use crate::service::DiscoveryRole;
use vstd::prelude::*;

verus! {

/// What an authority announces: the peers under which its key can be reached.
#[derive(Clone, Debug, PartialEq, Eq)]
pub struct Publication {
    pub key: AuthorityId,
    pub peers: Vec<PeerId>,
}

/// The work of one interval.
#[derive(Clone, Debug, PartialEq, Eq)]
pub struct DiscoveryPlan {
    /// What to sign and announce, if anything.
    pub publish: Option<Publication>,
    /// The authorities to look up, in the order of the set.
    pub resolve: Vec<AuthorityId>,
}

/// An authority that was found.
#[derive(Clone, Copy, Debug, PartialEq, Eq, Structural)]
pub struct Resolved {
    pub id: AuthorityId,
    pub peer: PeerId,
}

/// The keys of the first `n` members, but for `own`.
pub open spec fn others(members: Seq<Authority>, own: Option<AuthorityId>, n: nat) -> Seq<AuthorityId>
    decreases n,
{
    if n == 0 || n > members.len() {
        Seq::<AuthorityId>::empty()
    } else if own == Some(members[n - 1].id) {
        others(members, own, (n - 1) as nat)
    } else {
        others(members, own, (n - 1) as nat).push(members[n - 1].id)
    }
}

/// Some entry is for the key.
pub open spec fn found(reachable: Seq<Resolved>, id: AuthorityId) -> bool {
    exists|i: int| 0 <= i < reachable.len() && (#[trigger] reachable[i]).id == id
}

/// The table of reachable authorities: each key with the peer it was found under.
pub open spec fn table(reachable: Seq<Resolved>) -> Map<AuthorityId, PeerId> {
    Map::new(
        |id: AuthorityId| found(reachable, id),
        |id: AuthorityId| reachable[choose|i: int| 0 <= i < reachable.len() && (#[trigger] reachable[i]).id == id].peer,
    )
}

/// No key has two entries.
pub open spec fn distinct_entries(reachable: Seq<Resolved>) -> bool {
    forall|i: int, j: int|
        0 <= i < j < reachable.len() ==> (#[trigger] reachable[i]).id != (#[trigger] reachable[j]).id
}

/// With one entry per key, the table holds the peer of the entry at `at`.
pub proof fn lemma_table_entry(reachable: Seq<Resolved>, at: int)
    requires
        distinct_entries(reachable),
        0 <= at < reachable.len(),
    ensures
        table(reachable).contains_key(reachable[at].id),
        table(reachable)[reachable[at].id] == reachable[at].peer,
{
    let id = reachable[at].id;
    let c = choose|i: int| 0 <= i < reachable.len() && (#[trigger] reachable[i]).id == id;
    if c < at {
        assert(reachable[c].id != reachable[at].id);
    }
    if at < c {
        assert(reachable[at].id != reachable[c].id);
    }
}

/// Where the entry for the key stands.
pub open spec fn entry_position(reachable: Seq<Resolved>, id: AuthorityId) -> int {
    choose|i: int| 0 <= i < reachable.len() && (#[trigger] reachable[i]).id == id
}

/// The entries after the answer to a lookup: a peer that was found takes the
/// place of the key's entry or joins at the end; a failed lookup takes the key's
/// entry away.
pub open spec fn answered(reachable: Seq<Resolved>, id: AuthorityId, peer: Option<PeerId>) -> Seq<Resolved> {
    if found(reachable, id) {
        match peer {
            Some(p) => reachable.update(entry_position(reachable, id), Resolved { id, peer: p }),
            None => reachable.remove(entry_position(reachable, id)),
        }
    } else {
        match peer {
            Some(p) => reachable.push(Resolved { id, peer: p }),
            None => reachable,
        }
    }
}

/// With one entry per key, the entry at `at` is where its key is found.
pub proof fn lemma_entry_position(reachable: Seq<Resolved>, at: int)
    requires
        distinct_entries(reachable),
        0 <= at < reachable.len(),
    ensures
        found(reachable, reachable[at].id),
        entry_position(reachable, reachable[at].id) == at,
{
    let c = entry_position(reachable, reachable[at].id);
    if c < at {
        assert(reachable[c].id != reachable[at].id);
    }
    if at < c {
        assert(reachable[at].id != reachable[c].id);
    }
}

/// An answer keeps one entry per key and changes the table for its key only: a
/// peer that was found is what the table then holds for the key, and after a
/// failed lookup the table holds nothing for it. Every entry left is for the
/// key or for a key that had an entry before.
pub proof fn lemma_answered(reachable: Seq<Resolved>, id: AuthorityId, peer: Option<PeerId>)
    requires
        distinct_entries(reachable),
    ensures
        distinct_entries(answered(reachable, id, peer)),
        table(answered(reachable, id, peer)) == match peer {
            Some(p) => table(reachable).insert(id, p),
            None => table(reachable).remove(id),
        },
        forall|i: int|
            0 <= i < answered(reachable, id, peer).len() ==> (#[trigger] answered(reachable, id, peer)[i]).id == id
                || exists|k: int| 0 <= k < reachable.len() && reachable[k].id == answered(reachable, id, peer)[i].id,
{
    let after = answered(reachable, id, peer);
    let at = entry_position(reachable, id);
    // Where the entry at `k` of `after` stood before, if it did.
    let origin = |k: int| if peer is None && found(reachable, id) && k >= at { k + 1 } else { k };
    assert forall|k: int| 0 <= k < after.len() implies (#[trigger] after[k]).id == id || (0 <= origin(k)
        < reachable.len() && reachable[origin(k)] == after[k]) by {}
    assert forall|i: int, j: int| 0 <= i < j < after.len() implies (#[trigger] after[i]).id != (#[trigger] after[j]).id by {
        if after[i].id == id || after[j].id == id {
            if found(reachable, id) {
                if peer is Some {
                    assert(reachable[at].id == id);
                    assert(after[i].id == reachable[i].id || i == at);
                    assert(after[j].id == reachable[j].id || j == at);
                    if i != at {
                        assert(reachable[i].id != reachable[at].id);
                    }
                    if j != at {
                        assert(reachable[j].id != reachable[at].id);
                    }
                } else {
                    assert(reachable[origin(i)].id != reachable[at].id);
                    assert(reachable[origin(j)].id != reachable[at].id);
                }
            } else {
                if i < reachable.len() {
                    assert(reachable[i].id != id);
                }
            }
        } else {
            assert(reachable[origin(i)].id != reachable[origin(j)].id);
        }
    }
    assert forall|i: int| 0 <= i < after.len() implies (#[trigger] after[i]).id == id || exists|k: int|
        0 <= k < reachable.len() && reachable[k].id == after[i].id by {
        if after[i].id != id {
            assert(reachable[origin(i)].id == after[i].id);
        }
    }
    let expected = match peer {
        Some(p) => table(reachable).insert(id, p),
        None => table(reachable).remove(id),
    };
    assert forall|key: AuthorityId| #[trigger] table(after).contains_key(key) <==> expected.contains_key(key) by {
        if found(after, key) {
            let k = choose|k: int| 0 <= k < after.len() && (#[trigger] after[k]).id == key;
            if key != id {
                assert(reachable[origin(k)].id == key);
            } else if peer is None {
                if found(reachable, id) {
                    assert(reachable[origin(k)].id != reachable[at].id);
                } else {
                    assert(reachable[k].id == key);
                }
            }
        }
        if expected.contains_key(key) {
            if key == id {
                if found(reachable, id) {
                    assert(after[at].id == id);
                } else {
                    assert(after[reachable.len() as int].id == id);
                }
            } else {
                let b = choose|b: int| 0 <= b < reachable.len() && (#[trigger] reachable[b]).id == key;
                if peer is None && found(reachable, id) {
                    assert(b != at);
                    let k = if b < at { b } else { b - 1 };
                    assert(after[k].id == key);
                } else {
                    assert(after[b].id == key);
                }
            }
        }
    }
    assert forall|key: AuthorityId| table(after).contains_key(key) implies #[trigger] table(after)[key]
        == expected[key] by {
        let k = choose|k: int| 0 <= k < after.len() && (#[trigger] after[k]).id == key;
        lemma_table_entry(after, k);
        if key != id {
            lemma_table_entry(reachable, origin(k));
        } else {
            if found(reachable, id) {
                assert(after[at].id == id);
                assert(k == at);
            } else {
                assert(after[reachable.len() as int].id == id);
                assert(k == reachable.len());
            }
        }
    }
    assert(table(after) =~= expected);
}

/// The authority-discovery worker.
#[derive(Clone, Debug, PartialEq, Eq)]
pub struct DiscoveryWorker {
    pub role: DiscoveryRole,
    /// The key this node is an authority under; a sentry has none.
    pub own: Option<AuthorityId>,
    /// The peer this node is itself.
    pub own_peer: PeerId,
    /// The sentries that stand in front of this authority.
    pub sentries: Vec<PeerId>,
    /// The generation of the authority set last planned for.
    pub generation: Option<u64>,
    /// The authorities that are being looked up.
    pub wanted: Vec<AuthorityId>,
    /// The authorities found in this epoch, one entry each.
    pub reachable: Vec<Resolved>,
}

impl DiscoveryWorker {
    /// A sentry holds no key, and every entry is for another authority that is
    /// looked for.
    pub open spec fn wf(&self) -> bool {
        &&& self.role is Sentry ==> self.own is None
        &&& distinct_entries(self.reachable@)
        &&& forall|i: int|
            0 <= i < self.reachable@.len() ==> self.wanted@.contains((#[trigger] self.reachable@[i]).id)
    }

    /// A worker that has planned nothing yet. A sentry holds no key, whatever key
    /// is offered.
    pub fn new(role: DiscoveryRole, own: Option<AuthorityId>, own_peer: PeerId, sentries: Vec<PeerId>) -> (w:
        DiscoveryWorker)
        ensures
            w.wf(),
            w.role == role,
            w.own == (if role is Authority {
                own
            } else {
                None
            }),
            w.own_peer == own_peer,
            w.sentries == sentries,
            w.generation is None,
            w.wanted@.len() == 0,
            w.reachable@.len() == 0,
    {
        let own: Option<AuthorityId> = match role {
            DiscoveryRole::Authority => own,
            DiscoveryRole::Sentry => None,
        };
        DiscoveryWorker {
            role,
            own,
            own_peer,
            sentries,
            generation: None,
            wanted: Vec::new(),
            reachable: Vec::new(),
        }
    }

    /// The worker of a node of the given role: none but for an authority, which
    /// holds `own` and is shielded by its sentries, and for a sentry, which holds
    /// no key.
    pub fn for_role(role: NodeRole, own: Option<AuthorityId>, own_peer: PeerId) -> (r: Option<DiscoveryWorker>)
        ensures
            match role {
                NodeRole::Authority { sentry_nodes } => {
                    &&& r is Some
                    &&& r->Some_0.role == DiscoveryRole::Authority
                    &&& r->Some_0.own == own
                    &&& r->Some_0.sentries@ == sentry_nodes@
                },
                NodeRole::Sentry => {
                    &&& r is Some
                    &&& r->Some_0.role == DiscoveryRole::Sentry
                    &&& r->Some_0.own is None
                    &&& r->Some_0.sentries@.len() == 0
                },
                _ => r is None,
            },
            r is Some ==> {
                &&& r->Some_0.wf()
                &&& r->Some_0.own_peer == own_peer
                &&& r->Some_0.generation is None
                &&& r->Some_0.wanted@.len() == 0
                &&& r->Some_0.reachable@.len() == 0
            },
    {
        match role {
            NodeRole::Authority { sentry_nodes } => Some(
                DiscoveryWorker::new(DiscoveryRole::Authority, own, own_peer, sentry_nodes),
            ),
            NodeRole::Sentry => Some(DiscoveryWorker::new(DiscoveryRole::Sentry, own, own_peer, Vec::new())),
            _ => None,
        }
    }

    /// The peers under which this authority announces itself: its sentries where
    /// it has any, else the node itself.
    pub open spec fn announced(&self) -> Seq<PeerId> {
        if self.sentries@.len() > 0 {
            self.sentries@
        } else {
            seq![self.own_peer]
        }
    }

    /// Plans one interval under the given authority set. An authority that is a
    /// member announces itself; every other member is looked up. What was found
    /// under an earlier set is forgotten.
    pub fn plan(&mut self, set: &AuthoritySet) -> (r: DiscoveryPlan)
        requires
            old(self).wf(),
        ensures
            final(self).wf(),
            final(self).role == old(self).role,
            final(self).own == old(self).own,
            final(self).own_peer == old(self).own_peer,
            final(self).sentries == old(self).sentries,
            final(self).generation == Some(set.generation),
            r.resolve@ == others(set.members@, old(self).own, set.members@.len()),
            final(self).wanted@ == r.resolve@,
            final(self).reachable@ == if old(self).generation == Some(set.generation) {
                kept_entries(old(self).reachable@, r.resolve@, old(self).reachable@.len())
            } else {
                Seq::<Resolved>::empty()
            },
            if old(self).role is Authority && old(self).own is Some && crate::authority::has_member(
                set.members@,
                old(self).own->Some_0,
            ) {
                &&& r.publish is Some
                &&& r.publish->Some_0.key == old(self).own->Some_0
                &&& r.publish->Some_0.peers@ == old(self).announced()
            } else {
                r.publish is None
            },
    {
        let n: usize = set.members.len();
        let mut resolve: Vec<AuthorityId> = Vec::new();
        let mut wanted: Vec<AuthorityId> = Vec::new();
        let mut i: usize = 0;
        while i < n
            invariant
                n == set.members@.len(),
                i <= n,
                resolve@ == others(set.members@, self.own, i as nat),
                wanted@ == resolve@,
            decreases n - i,
        {
            let id: AuthorityId = set.members[i].id;
            let own: bool = match self.own {
                Some(k) => k == id,
                None => false,
            };
            if !own {
                resolve.push(id);
                wanted.push(id);
            }
            i = i + 1;
        }
        let same: bool = match self.generation {
            Some(g) => g == set.generation,
            None => false,
        };
        if same {
            let kept: Vec<Resolved> = keep_entries(&self.reachable, &wanted);
            self.reachable = kept;
        } else {
            self.reachable = Vec::new();
        }
        self.generation = Some(set.generation);
        self.wanted = wanted;
        let authority: bool = match self.role {
            DiscoveryRole::Authority => true,
            DiscoveryRole::Sentry => false,
        };
        let publish: Option<Publication> = match self.own {
            Some(key) => {
                if authority && set.position(key).is_some() {
                    let peers: Vec<PeerId> = if self.sentries.len() > 0 {
                        copy_peers(&self.sentries)
                    } else {
                        let mut one: Vec<PeerId> = Vec::new();
                        one.push(self.own_peer);
                        one
                    };
                    Some(Publication { key, peers })
                } else {
                    None
                }
            },
            None => None,
        };
        DiscoveryPlan { publish, resolve }
    }

    /// Takes the answer to a lookup. A peer found for an authority that is looked
    /// for replaces what was known of it, or joins the entries at the end; a
    /// failed lookup leaves that authority unreachable. An answer about any other
    /// key changes nothing.
    pub fn on_resolved(&mut self, id: AuthorityId, peer: Option<PeerId>)
        requires
            old(self).wf(),
        ensures
            final(self).wf(),
            final(self).role == old(self).role,
            final(self).own == old(self).own,
            final(self).own_peer == old(self).own_peer,
            final(self).sentries == old(self).sentries,
            final(self).generation == old(self).generation,
            final(self).wanted == old(self).wanted,
            final(self).reachable@ == if old(self).wanted@.contains(id) {
                answered(old(self).reachable@, id, peer)
            } else {
                old(self).reachable@
            },
    {
        if !contains_key(&self.wanted, id) {
            return ;
        }
        proof {
            lemma_answered(self.reachable@, id, peer);
        }
        let at: Option<usize> = find_entry(&self.reachable, id);
        proof {
            if at is Some {
                lemma_entry_position(self.reachable@, at->Some_0 as int);
            }
        }
        match peer {
            Some(p) => match at {
                Some(i) => {
                    self.reachable.set(i, Resolved { id, peer: p });
                },
                None => {
                    self.reachable.push(Resolved { id, peer: p });
                },
            },
            None => match at {
                Some(i) => {
                    self.reachable.remove(i);
                },
                None => {},
            },
        }
        proof {
            let after = answered(old(self).reachable@, id, peer);
            assert(self.reachable@ == after);
            assert forall|i: int| 0 <= i < after.len() implies self.wanted@.contains((#[trigger] after[i]).id) by {
                let k = choose|k: int| 0 <= k < old(self).reachable@.len() && old(self).reachable@[k].id == after[i].id;
                if after[i].id != id {
                    assert(self.wanted@.contains(old(self).reachable@[k].id));
                }
            }
        }
    }

    /// The peers of the reachable authorities, for the network's peer set.
    pub fn peer_set(&self) -> (peers: Vec<PeerId>)
        ensures
            peers@ == Seq::new(self.reachable@.len(), |i: int| self.reachable@[i].peer),
    {
        let n: usize = self.reachable.len();
        let mut peers: Vec<PeerId> = Vec::new();
        let mut i: usize = 0;
        while i < n
            invariant
                n == self.reachable@.len(),
                i <= n,
                peers@ == Seq::new(i as nat, |k: int| self.reachable@[k].peer),
            decreases n - i,
        {
            peers.push(self.reachable[i].peer);
            assert(peers@ =~= Seq::new((i + 1) as nat, |k: int| self.reachable@[k].peer));
            i = i + 1;
        }
        peers
    }
}

/// Those among the first `n` entries whose key is still looked for.
pub open spec fn kept_entries(reachable: Seq<Resolved>, wanted: Seq<AuthorityId>, n: nat) -> Seq<Resolved>
    decreases n,
{
    if n == 0 || n > reachable.len() {
        Seq::<Resolved>::empty()
    } else if wanted.contains(reachable[n - 1].id) {
        kept_entries(reachable, wanted, (n - 1) as nat).push(reachable[n - 1])
    } else {
        kept_entries(reachable, wanted, (n - 1) as nat)
    }
}

/// The kept entries are wanted, and each is an entry that was there, in order.
pub proof fn lemma_kept_entries(reachable: Seq<Resolved>, wanted: Seq<AuthorityId>, n: nat)
    requires
        distinct_entries(reachable),
        n <= reachable.len(),
    ensures
        distinct_entries(kept_entries(reachable, wanted, n)),
        forall|i: int|
            0 <= i < kept_entries(reachable, wanted, n).len() ==> wanted.contains(
                (#[trigger] kept_entries(reachable, wanted, n)[i]).id,
            ) && exists|k: int| 0 <= k < n && reachable[k] == kept_entries(reachable, wanted, n)[i],
    decreases n,
{
    if n > 0 {
        lemma_kept_entries(reachable, wanted, (n - 1) as nat);
        let rest = kept_entries(reachable, wanted, (n - 1) as nat);
        let all = kept_entries(reachable, wanted, n);
        if wanted.contains(reachable[n - 1].id) {
            assert forall|i: int| 0 <= i < all.len() implies wanted.contains((#[trigger] all[i]).id) && exists|k: int|
                0 <= k < n && reachable[k] == all[i] by {
                if i < rest.len() {
                    assert(all[i] == rest[i]);
                    let k = choose|k: int| 0 <= k < n - 1 && reachable[k] == rest[i];
                    assert(reachable[k] == all[i]);
                } else {
                    assert(reachable[n - 1] == all[i]);
                }
            }
            assert forall|i: int, j: int| 0 <= i < j < all.len() implies (#[trigger] all[i]).id != (#[trigger] all[j]).id by {
                if j < rest.len() {
                    assert(all[i] == rest[i] && all[j] == rest[j]);
                } else {
                    assert(all[i] == rest[i]);
                    let k = choose|k: int| 0 <= k < n - 1 && reachable[k] == rest[i];
                    assert(reachable[k].id != reachable[n - 1].id);
                }
            }
        }
    }
}

/// Keeps the entries whose key is still looked for.
pub fn keep_entries(reachable: &Vec<Resolved>, wanted: &Vec<AuthorityId>) -> (kept: Vec<Resolved>)
    requires
        distinct_entries(reachable@),
    ensures
        kept@ == kept_entries(reachable@, wanted@, reachable@.len()),
        distinct_entries(kept@),
        forall|i: int| 0 <= i < kept@.len() ==> wanted@.contains((#[trigger] kept@[i]).id),
{
    let n: usize = reachable.len();
    let mut kept: Vec<Resolved> = Vec::new();
    let mut i: usize = 0;
    while i < n
        invariant
            n == reachable@.len(),
            i <= n,
            kept@ == kept_entries(reachable@, wanted@, i as nat),
        decreases n - i,
    {
        if contains_key(wanted, reachable[i].id) {
            kept.push(reachable[i]);
        }
        i = i + 1;
    }
    proof {
        lemma_kept_entries(reachable@, wanted@, n as nat);
    }
    kept
}

/// Whether the key is among `keys`.
pub fn contains_key(keys: &Vec<AuthorityId>, id: AuthorityId) -> (r: bool)
    ensures
        r == keys@.contains(id),
{
    let n: usize = keys.len();
    let mut i: usize = 0;
    while i < n
        invariant
            n == keys@.len(),
            i <= n,
            forall|k: int| 0 <= k < i ==> keys@[k] != id,
        decreases n - i,
    {
        if keys[i] == id {
            return true;
        }
        i = i + 1;
    }
    false
}

/// Where the entry for the key stands.
pub fn find_entry(reachable: &Vec<Resolved>, id: AuthorityId) -> (r: Option<usize>)
    ensures
        match r {
            Some(i) => i < reachable@.len() && reachable@[i as int].id == id,
            None => !found(reachable@, id),
        },
{
    let n: usize = reachable.len();
    let mut i: usize = 0;
    while i < n
        invariant
            n == reachable@.len(),
            i <= n,
            forall|k: int| 0 <= k < i ==> (#[trigger] reachable@[k]).id != id,
        decreases n - i,
    {
        if reachable[i].id == id {
            return Some(i);
        }
        i = i + 1;
    }
    None
}

/// A copy of the peers.
pub fn copy_peers(peers: &Vec<PeerId>) -> (copy: Vec<PeerId>)
    ensures
        copy@ == peers@,
{
    let n: usize = peers.len();
    let mut copy: Vec<PeerId> = Vec::new();
    let mut i: usize = 0;
    while i < n
        invariant
            n == peers@.len(),
            i <= n,
            copy@ == peers@.take(i as int),
        decreases n - i,
    {
        copy.push(peers[i]);
        assert(copy@ =~= peers@.take(i + 1));
        i = i + 1;
    }
    assert(peers@.take(n as int) =~= peers@);
    copy
}

} // verus!
