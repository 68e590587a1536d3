//! Parties: groups of players on the server who are friends with each other.
use std::collections::HashMap;
use vstd::prelude::*;

use crate::maps::keys_of;
use crate::player::{friend_ids, two_way, FriendInfo};

verus! {

broadcast use vstd::std_specs::hash::group_hash_axioms;

/// Whether the friends list of `a` is known and names `b`.
pub open spec fn lists(friends: Map<u64, FriendInfo>, a: u64, b: u64) -> bool {
    friends.contains_key(a) && friend_ids(friends[a].friends@).contains(b)
}

/// Whether everything in `a` is in `b`.
pub open spec fn seq_subset(a: Seq<u64>, b: Seq<u64>) -> bool {
    forall|x: u64| #[trigger] a.contains(x) ==> b.contains(x)
}

/// Whether `p` can be a party: two or more players (or a single player who
/// lists itself as a friend), no one twice, everyone connected, and of any
/// two members one lists the other as a friend.
pub open spec fn valid_party(friends: Map<u64, FriendInfo>, connected: Seq<u64>, p: Seq<u64>) -> bool {
    &&& p.len() > 0
    &&& (p.len() >= 2 || lists(friends, p[0], p[0]))
    &&& p.no_duplicates()
    &&& forall|i: int| 0 <= i < p.len() ==> connected.contains(#[trigger] p[i])
    &&& forall|i: int, j: int|
        0 <= i < p.len() && 0 <= j < p.len() && i != j ==> lists(friends, #[trigger] p[i], #[trigger] p[j])
            || lists(friends, p[j], p[i])
}

/// Whether `ps` are the parties among the `connected` players: each is a
/// valid party, none is part of another, every two connected players of
/// whom one lists the other share a party, and every group of connected
/// players who all list each other is within a party.
pub open spec fn parties_found(ps: Seq<Seq<u64>>, friends: Map<u64, FriendInfo>, connected: Seq<u64>) -> bool {
    &&& forall|i: int| 0 <= i < ps.len() ==> valid_party(friends, connected, #[trigger] ps[i])
    &&& forall|i: int, j: int|
        0 <= i < ps.len() && 0 <= j < ps.len() && i != j ==> !seq_subset(#[trigger] ps[i], #[trigger] ps[j])
    &&& forall|a: u64, b: u64|
        connected.contains(a) && connected.contains(b) && #[trigger] lists(friends, a, b) ==> exists|i: int|
            0 <= i < ps.len() && (#[trigger] ps[i]).contains(a) && ps[i].contains(b)
    &&& forall|k: Seq<u64>|
        #[trigger] mutual_group(friends, connected, k) ==> exists|i: int|
            0 <= i < ps.len() && #[trigger] seq_subset(k, ps[i])
}

/// Whether `k` is a group of two or more connected players, no one twice,
/// each of whom lists every other as a friend.
pub open spec fn mutual_group(friends: Map<u64, FriendInfo>, connected: Seq<u64>, k: Seq<u64>) -> bool {
    &&& k.len() >= 2
    &&& k.no_duplicates()
    &&& forall|x: u64| #[trigger] k.contains(x) ==> connected.contains(x)
    &&& forall|x: u64, y: u64|
        #![trigger k.contains(x), k.contains(y)]
        k.contains(x) && k.contains(y) && x != y ==> lists(friends, x, y)
}

/// The contents of each group, in order.
spec fn party_views(cs: Seq<Vec<u64>>) -> Seq<Seq<u64>> {
    cs.map_values(|v: Vec<u64>| v@)
}

/// Whether some member of `k` is in `p`.
spec fn started(k: Seq<u64>, p: Seq<u64>) -> bool {
    exists|y: u64| #[trigger] k.contains(y) && p.contains(y)
}

/// Whether `c` is part of `k`, holds `x`, and holds every member of `k` in `p`.
spec fn covers(c: Seq<u64>, k: Seq<u64>, p: Seq<u64>, x: u64) -> bool {
    &&& seq_subset(c, k)
    &&& c.contains(x)
    &&& forall|y: u64| #[trigger] k.contains(y) && p.contains(y) ==> c.contains(y)
}

/// Whether `s` lists every member of `c`.
spec fn lists_every(friends: Map<u64, FriendInfo>, s: u64, c: Seq<u64>) -> bool {
    forall|y: u64| #[trigger] c.contains(y) ==> lists(friends, s, y)
}

/// Whether `c` holds `s` and `y` and no one else.
spec fn pair_of(c: Seq<u64>, s: u64, y: u64) -> bool {
    &&& c.contains(s)
    &&& c.contains(y)
    &&& forall|z: u64| #[trigger] c.contains(z) ==> z == s || z == y
}

/// What the groups `vs` found after going through the players `p` hold of
/// each mutual group `k`: once a member of `k` has been gone through, for
/// each member `x` not gone through, a group within `k` holds `x` and the
/// members gone through; once all have been, a group holds all of `k`.
spec fn grown(friends: Map<u64, FriendInfo>, connected: Seq<u64>, p: Seq<u64>, vs: Seq<Seq<u64>>) -> bool {
    &&& forall|k: Seq<u64>, x: u64|
        #![trigger mutual_group(friends, connected, k), k.contains(x)]
        mutual_group(friends, connected, k) && k.contains(x) && !p.contains(x) && started(k, p)
            ==> exists|c: int| 0 <= c < vs.len() && #[trigger] covers(vs[c], k, p, x)
    &&& forall|k: Seq<u64>|
        #[trigger] mutual_group(friends, connected, k) && seq_subset(k, p)
            ==> exists|c: int| 0 <= c < vs.len() && #[trigger] seq_subset(k, vs[c])
}

/// Going through one more player `s`: where `s` is connected, the groups
/// `vs` hold, besides those found before (`start`), a copy with `s` added
/// of each one whose members `s` all lists, and a pair of `s` with each
/// connected player it lists.
proof fn lemma_grown_step(
    friends: Map<u64, FriendInfo>,
    connected: Seq<u64>,
    p: Seq<u64>,
    s: u64,
    start: Seq<Seq<u64>>,
    vs: Seq<Seq<u64>>,
)
    requires
        grown(friends, connected, p, start),
        start.len() <= vs.len(),
        forall|i: int| 0 <= i < start.len() ==> #[trigger] vs[i] == start[i],
        connected.contains(s) ==> forall|i: int|
            0 <= i < start.len() && lists_every(friends, s, #[trigger] start[i]) && !start[i].contains(s)
                ==> exists|c: int| 0 <= c < vs.len() && vs[c] == start[i].push(s),
        connected.contains(s) ==> forall|y: u64|
            #[trigger] lists(friends, s, y) && connected.contains(y) ==> exists|c: int|
                0 <= c < vs.len() && #[trigger] pair_of(vs[c], s, y),
    ensures
        grown(friends, connected, p.push(s), vs),
{
    let p1 = p.push(s);
    assert forall|y: u64| #[trigger] p1.contains(y) <==> p.contains(y) || y == s by {
        if p1.contains(y) && y != s {
            let j = choose|j: int| 0 <= j < p1.len() && p1[j] == y;
            assert(p[j] == y);
        }
        if p.contains(y) {
            let j = choose|j: int| 0 <= j < p.len() && p[j] == y;
            assert(p1[j] == y);
        }
        if y == s {
            assert(p1[p.len() as int] == s);
        }
    }
    assert forall|k: Seq<u64>, x: u64|
        mutual_group(friends, connected, k) && k.contains(x) && !p1.contains(x) && started(k, p1)
            implies exists|c: int| 0 <= c < vs.len() && #[trigger] covers(vs[c], k, p1, x) by {
        assert(!p.contains(x));
        if k.contains(s) && !p.contains(s) {
            assert(connected.contains(s));
            if started(k, p) {
                let c0 = choose|c: int| 0 <= c < start.len() && #[trigger] covers(start[c], k, p, x);
                if start[c0].contains(s) {
                    assert(vs[c0] == start[c0]);
                    assert(covers(vs[c0], k, p1, x));
                } else {
                    assert forall|y: u64| #[trigger] start[c0].contains(y) implies lists(friends, s, y) by {
                        assert(k.contains(y));
                        assert(y != s);
                    }
                    assert(lists_every(friends, s, start[c0]));
                    let c1 = choose|c: int| 0 <= c < vs.len() && vs[c] == start[c0].push(s);
                    assert forall|y: u64| #[trigger] vs[c1].contains(y) <==> start[c0].contains(y) || y == s by {
                        if vs[c1].contains(y) && y != s {
                            let j = choose|j: int| 0 <= j < vs[c1].len() && vs[c1][j] == y;
                            assert(start[c0][j] == y);
                        }
                        if start[c0].contains(y) {
                            let j = choose|j: int| 0 <= j < start[c0].len() && start[c0][j] == y;
                            assert(vs[c1][j] == y);
                        }
                        if y == s {
                            assert(vs[c1][start[c0].len() as int] == s);
                        }
                    }
                    assert(covers(vs[c1], k, p1, x));
                }
            } else {
                assert(x != s);
                assert(lists(friends, s, x));
                assert(connected.contains(x));
                let c1 = choose|c: int| 0 <= c < vs.len() && #[trigger] pair_of(vs[c], s, x);
                assert forall|y: u64| #[trigger] k.contains(y) && p1.contains(y) implies vs[c1].contains(y) by {
                    if p.contains(y) {
                        assert(started(k, p));
                    }
                }
                assert(covers(vs[c1], k, p1, x));
            }
        } else {
            let w = choose|y: u64| #[trigger] k.contains(y) && p1.contains(y);
            assert(p.contains(w));
            assert(started(k, p));
            let c0 = choose|c: int| 0 <= c < start.len() && #[trigger] covers(start[c], k, p, x);
            assert(vs[c0] == start[c0]);
            assert(covers(vs[c0], k, p1, x));
        }
    }
    assert forall|k: Seq<u64>|
        #[trigger] mutual_group(friends, connected, k) && seq_subset(k, p1)
            implies exists|c: int| 0 <= c < vs.len() && #[trigger] seq_subset(k, vs[c]) by {
        if seq_subset(k, p) {
            let c0 = choose|c: int| 0 <= c < start.len() && #[trigger] seq_subset(k, start[c]);
            assert(vs[c0] == start[c0]);
        } else {
            let y = choose|y: u64| #[trigger] k.contains(y) && !p.contains(y);
            assert(y == s);
            assert(k.contains(k[0]) && k.contains(k[1]));
            assert(k[0] != k[1]);
            let z = if k[0] != s { k[0] } else { k[1] };
            assert(k.contains(z) && z != s);
            assert(p.contains(z));
            assert(started(k, p));
            let c0 = choose|c: int| 0 <= c < start.len() && #[trigger] covers(start[c], k, p, s);
            assert(vs[c0] == start[c0]);
            assert(seq_subset(k, vs[c0]));
        }
    }
}

/// Where friends lists are two-way, the parties are the largest groups of
/// players who all list each other: a party of two or more is such a group,
/// and any such group that holds a party has no one outside it.
pub proof fn lemma_parties_are_maximal(
    ps: Seq<Seq<u64>>,
    friends: Map<u64, FriendInfo>,
    connected: Seq<u64>,
    i: int,
    k: Seq<u64>,
)
    requires
        parties_found(ps, friends, connected),
        two_way(friends),
        0 <= i < ps.len(),
    ensures
        ps[i].len() >= 2 ==> mutual_group(friends, connected, ps[i]),
        mutual_group(friends, connected, k) && seq_subset(ps[i], k) ==> seq_subset(k, ps[i]),
{
    let p = ps[i];
    assert(valid_party(friends, connected, p));
    assert forall|x: u64| #[trigger] p.contains(x) implies connected.contains(x) by {
        let j = choose|j: int| 0 <= j < p.len() && p[j] == x;
    }
    assert forall|x: u64, y: u64| p.contains(x) && p.contains(y) && x != y implies lists(friends, x, y) by {
        let a = choose|a: int| 0 <= a < p.len() && p[a] == x;
        let b = choose|b: int| 0 <= b < p.len() && p[b] == y;
        assert(lists(friends, p[a], p[b]) || lists(friends, p[b], p[a]));
        if lists(friends, y, x) {
            assert(lists(friends, x, y));
        }
    }
    if mutual_group(friends, connected, k) && seq_subset(p, k) {
        let j = choose|j: int| 0 <= j < ps.len() && #[trigger] seq_subset(k, ps[j]);
        if j != i {
            assert(seq_subset(ps[i], ps[j]));
        }
    }
}

/// The groups of connected players who are friends with each other.
pub struct Parties {
    parties: Vec<Vec<u64>>,
}

impl Parties {
    /// The parties, each a list of SteamIDs.
    pub closed spec fn view_parties(&self) -> Seq<Seq<u64>> {
        self.parties@.map_values(|p: Vec<u64>| p@)
    }

    /// No parties yet.
    pub fn new() -> (p: Parties)
        ensures
            p.view_parties().len() == 0,
    {
        Parties { parties: Vec::new() }
    }

    /// The parties found by the last `find_parties`.
    pub fn parties(&self) -> (ps: &[Vec<u64>])
        ensures
            ps@.map_values(|p: Vec<u64>| p@) == self.view_parties(),
    {
        self.parties.as_slice()
    }

    /// Finds the parties among the `connected` players: every group in which
    /// any two members are friends (one lists the other), that is not part
    /// of a bigger such group that was found. Every two connected players of
    /// whom one lists the other end up in a common party, and every group
    /// of connected players who all list each other within one party (see
    /// `lemma_parties_are_maximal`).
    pub fn find_parties(&mut self, friends: &HashMap<u64, FriendInfo>, connected: &[u64])
        ensures
            parties_found(final(self).view_parties(), friends@, connected@),
    {
        let candidates = gather_candidates(friends, connected);
        let mut out: Vec<Vec<u64>> = Vec::new();
        let mut c: usize = 0;
        while c < candidates.len()
            invariant
                c <= candidates@.len(),
                forall|i: int|
                    0 <= i < candidates@.len() ==> valid_party(
                        friends@,
                        connected@,
                        #[trigger] candidates@[i]@,
                    ),
                forall|i: int|
                    0 <= i < out@.len() ==> valid_party(friends@, connected@, #[trigger] out@[i]@),
                forall|i: int, j: int|
                    0 <= i < out@.len() && 0 <= j < out@.len() && i != j ==> !seq_subset(
                        #[trigger] out@[i]@,
                        #[trigger] out@[j]@,
                    ),
                forall|k: int|
                    0 <= k < c ==> exists|i: int|
                        0 <= i < out@.len() && seq_subset(
                            #[trigger] candidates@[k]@,
                            #[trigger] out@[i]@,
                        ),
            decreases candidates.len() - c,
        {
            let p = &candidates[c];
            let mut covered = false;
            let mut i: usize = 0;
            while i < out.len()
                invariant
                    i <= out@.len(),
                    !covered ==> forall|j: int| 0 <= j < i ==> !seq_subset(p@, #[trigger] out@[j]@),
                    covered ==> exists|j: int| 0 <= j < out@.len() && seq_subset(p@, #[trigger] out@[j]@),
                decreases out.len() - i,
            {
                if is_subset(p, &out[i]) {
                    covered = true;
                }
                i = i + 1;
            }
            if !covered {
                let ghost before = out@;
                let ghost mut idx: Seq<int> = Seq::empty();
                let mut kept: Vec<Vec<u64>> = Vec::new();
                let mut i: usize = 0;
                while i < out.len()
                    invariant
                        i <= out@.len(),
                        out@ == before,
                        kept@.len() == idx.len(),
                        forall|j: int|
                            0 <= j < idx.len() ==> 0 <= #[trigger] idx[j] < i && kept@[j]@
                                == before[idx[j]]@,
                        forall|j1: int, j2: int|
                            0 <= j1 < j2 < idx.len() ==> #[trigger] idx[j1] < #[trigger] idx[j2],
                        forall|j: int| 0 <= j < kept@.len() ==> !seq_subset(#[trigger] kept@[j]@, p@),
                        forall|m: int|
                            0 <= m < i ==> (#[trigger] seq_subset(before[m]@, p@) || exists|j: int|
                                0 <= j < idx.len() && #[trigger] idx[j] == m),
                    decreases out.len() - i,
                {
                    let ghost idx0 = idx;
                    if !is_subset(&out[i], p) {
                        kept.push(copy_party(&out[i]));
                        proof {
                            idx = idx.push(i as int);
                            assert(idx[idx.len() - 1] == i);
                        }
                    }
                    proof {
                        assert forall|m: int| 0 <= m < i + 1 implies (#[trigger] seq_subset(
                            before[m]@,
                            p@,
                        ) || exists|j: int| 0 <= j < idx.len() && #[trigger] idx[j] == m) by {
                            if m < i && !seq_subset(before[m]@, p@) {
                                let j = choose|j: int| 0 <= j < idx0.len() && idx0[j] == m;
                                assert(idx[j] == idx0[j]);
                            }
                            if m == i && !seq_subset(before[m]@, p@) {
                                assert(idx[idx.len() - 1] == m);
                            }
                        }
                    }
                    i = i + 1;
                }
                kept.push(copy_party(p));
                proof {
                    let n = kept@.len() - 1;
                    assert forall|j: int| 0 <= j < kept@.len() implies valid_party(
                        friends@,
                        connected@,
                        #[trigger] kept@[j]@,
                    ) by {
                        if j < n {
                            assert(kept@[j]@ == before[idx[j]]@);
                            assert(valid_party(friends@, connected@, before[idx[j]]@));
                        }
                    }
                    assert forall|j1: int, j2: int|
                        0 <= j1 < kept@.len() && 0 <= j2 < kept@.len() && j1 != j2 implies !seq_subset(
                        #[trigger] kept@[j1]@,
                        #[trigger] kept@[j2]@,
                    ) by {
                        if j1 < n && j2 < n {
                            assert(idx[j1] != idx[j2]) by {
                                if j1 < j2 {
                                    assert(idx[j1] < idx[j2]);
                                } else {
                                    assert(idx[j2] < idx[j1]);
                                }
                            }
                            assert(!seq_subset(before[idx[j1]]@, before[idx[j2]]@));
                        } else if j1 == n {
                            assert(!seq_subset(p@, before[idx[j2]]@));
                        } else {
                            assert(!seq_subset(kept@[j1]@, p@));
                        }
                    }
                    assert forall|k: int| 0 <= k < c + 1 implies exists|i: int|
                        0 <= i < kept@.len() && seq_subset(
                            #[trigger] candidates@[k]@,
                            #[trigger] kept@[i]@,
                        ) by {
                        if k == c {
                            assert(seq_subset(candidates@[k]@, kept@[n]@));
                        } else {
                            let i0 = choose|i: int|
                                0 <= i < before.len() && seq_subset(candidates@[k]@, before[i]@);
                            if seq_subset(before[i0]@, p@) {
                                assert(seq_subset(candidates@[k]@, kept@[n]@));
                            } else {
                                let j = choose|j: int| 0 <= j < idx.len() && idx[j] == i0;
                                assert(kept@[j]@ == before[i0]@);
                                assert(seq_subset(candidates@[k]@, kept@[j]@));
                            }
                        }
                    }
                }
                out = kept;
            }
            c = c + 1;
        }
        self.parties = out;
        proof {
            assert forall|i: int| 0 <= i < self.parties@.len() implies #[trigger] self.view_parties()[i]
                == self.parties@[i]@ by {}
            assert forall|a: u64, b: u64|
                connected@.contains(a) && connected@.contains(b) && #[trigger] lists(friends@, a, b)
                    implies exists|i: int|
                    0 <= i < self.view_parties().len() && (#[trigger] self.view_parties()[i]).contains(
                        a,
                    ) && self.view_parties()[i].contains(b) by {
                let k = choose|k: int|
                    0 <= k < candidates@.len() && candidates@[k]@.contains(a) && candidates@[k]@.contains(b);
                let i = choose|i: int|
                    0 <= i < self.parties@.len() && seq_subset(candidates@[k]@, self.parties@[i]@);
                assert(self.view_parties()[i] == self.parties@[i]@);
                assert(self.view_parties()[i].contains(a) && self.view_parties()[i].contains(b));
            }
            assert forall|k: Seq<u64>| #[trigger] mutual_group(friends@, connected@, k) implies exists|i: int|
                0 <= i < self.view_parties().len() && #[trigger] seq_subset(k, self.view_parties()[i]) by {
                let c = choose|c: int| 0 <= c < candidates@.len() && #[trigger] seq_subset(k, candidates@[c]@);
                let i = choose|i: int|
                    0 <= i < self.parties@.len() && seq_subset(candidates@[c]@, self.parties@[i]@);
                assert(self.view_parties()[i] == self.parties@[i]@);
                assert(seq_subset(k, self.view_parties()[i]));
            }
        }
    }
}

/// Whether everything in `a` is in `b`.
fn is_subset(a: &Vec<u64>, b: &Vec<u64>) -> (r: bool)
    ensures
        r == seq_subset(a@, b@),
{
    let mut i: usize = 0;
    while i < a.len()
        invariant
            i <= a@.len(),
            forall|j: int| 0 <= j < i ==> b@.contains(#[trigger] a@[j]),
        decreases a.len() - i,
    {
        if !contains_id(b, a[i]) {
            proof {
                assert(a@.contains(a@[i as int]));
            }
            return false;
        }
        i = i + 1;
    }
    proof {
        assert forall|x: u64| #[trigger] a@.contains(x) implies b@.contains(x) by {
            let j = choose|j: int| 0 <= j < a@.len() && a@[j] == x;
            assert(b@.contains(a@[j]));
        }
    }
    true
}

/// Whether `id` occurs in `v`.
pub fn contains_id(v: &[u64], id: u64) -> (r: bool)
    ensures
        r == v@.contains(id),
{
    let mut i: usize = 0;
    while i < v.len()
        invariant
            i <= v@.len(),
            forall|j: int| 0 <= j < i ==> v@[j] != id,
        decreases v.len() - i,
    {
        if v[i] == id {
            return true;
        }
        i = i + 1;
    }
    false
}

/// A copy of `p`.
fn copy_party(p: &Vec<u64>) -> (q: Vec<u64>)
    ensures
        q@ == p@,
{
    let mut q: Vec<u64> = Vec::new();
    let mut i: usize = 0;
    while i < p.len()
        invariant
            i <= p@.len(),
            q@ == p@.take(i as int),
        decreases p.len() - i,
    {
        q.push(p[i]);
        i = i + 1;
        assert(q@ =~= p@.take(i as int));
    }
    assert(p@.take(p@.len() as int) =~= p@);
    q
}

/// Every group found by going through the players with a known friends
/// list who are connected: each such player joins a copy of every group
/// found so far whose members it all lists, and forms a pair with each
/// connected player it lists.
fn gather_candidates(friends: &HashMap<u64, FriendInfo>, connected: &[u64]) -> (cs: Vec<Vec<u64>>)
    ensures
        forall|i: int| 0 <= i < cs@.len() ==> valid_party(friends@, connected@, #[trigger] cs@[i]@),
        forall|a: u64, b: u64|
            connected@.contains(a) && connected@.contains(b) && #[trigger] lists(friends@, a, b)
                ==> exists|k: int|
                0 <= k < cs@.len() && (#[trigger] cs@[k]@).contains(a) && cs@[k]@.contains(b),
        forall|k: Seq<u64>|
            #[trigger] mutual_group(friends@, connected@, k) ==> exists|c: int|
                0 <= c < cs@.len() && #[trigger] seq_subset(k, cs@[c]@),
{
    let ks = keys_of(friends);
    proof {
        assert(ks@.take(0) =~= Seq::<u64>::empty());
        assert forall|k: Seq<u64>| #[trigger] mutual_group(friends@, connected@, k) implies !seq_subset(k, ks@.take(0)) by {
            assert(k.contains(k[0]));
        }
    }
    let mut cs: Vec<Vec<u64>> = Vec::new();
    proof {
        assert(party_views(cs@) =~= Seq::<Seq<u64>>::empty());
    }
    let mut n: usize = 0;
    while n < ks.len()
        invariant
            ks@.to_set() == friends@.dom(),
            n <= ks@.len(),
            forall|i: int| 0 <= i < cs@.len() ==> valid_party(friends@, connected@, #[trigger] cs@[i]@),
            grown(friends@, connected@, ks@.take(n as int), party_views(cs@)),
            forall|m: int, b: u64|
                0 <= m < n && connected@.contains(ks@[m]) && connected@.contains(b) && #[trigger] lists(
                    friends@,
                    ks@[m],
                    b,
                ) ==> exists|k: int|
                    0 <= k < cs@.len() && (#[trigger] cs@[k]@).contains(ks@[m]) && cs@[k]@.contains(b),
        decreases ks.len() - n,
    {
        let s = ks[n];
        proof {
            assert(ks@.to_set().contains(s));
        }
        let ghost start = cs@;
        if contains_id(connected, s) {
            let fi = friends.get(&s).unwrap();
            // Copies of the groups whose members `s` all lists, with `s` added.
            let count = cs.len();
            let mut g: usize = 0;
            while g < count
                invariant
                    count == start.len(),
                    g <= count,
                    cs@.len() >= start.len(),
                    forall|i: int| 0 <= i < start.len() ==> #[trigger] cs@[i] == start[i],
                    friends@.contains_key(s),
                    *fi == friends@[s],
                    connected@.contains(s),
                    forall|i: int|
                        0 <= i < cs@.len() ==> valid_party(friends@, connected@, #[trigger] cs@[i]@),
                    forall|i: int|
                        0 <= i < g && lists_every(friends@, s, #[trigger] start[i]@) && !start[i]@.contains(s)
                            ==> exists|c: int| 0 <= c < cs@.len() && cs@[c]@ == start[i]@.push(s),
                decreases count - g,
            {
                let ghost before_copy = cs@;
                let all = lists_all(fi, &cs[g]);
                proof {
                    if lists_every(friends@, s, start[g as int]@) {
                        assert forall|i: int| 0 <= i < cs@[g as int]@.len() implies friend_ids(fi.friends@).contains(
                            #[trigger] cs@[g as int]@[i],
                        ) by {
                            assert(start[g as int]@.contains(start[g as int]@[i]));
                        }
                    }
                }
                if all {
                    let mut q = copy_party(&cs[g]);
                    if !contains_id(&q, s) {
                        let ghost q0 = q@;
                        q.push(s);
                        proof {
                            assert(valid_party(friends@, connected@, q0));
                            assert forall|i: int, j: int|
                                0 <= i < q@.len() && 0 <= j < q@.len() && i != j implies lists(
                                friends@,
                                #[trigger] q@[i],
                                #[trigger] q@[j],
                            ) || lists(friends@, q@[j], q@[i]) by {
                                if i == q0.len() {
                                    assert(friend_ids(fi.friends@).contains(q0[j]));
                                } else if j == q0.len() {
                                    assert(friend_ids(fi.friends@).contains(q0[i]));
                                } else {
                                    assert(q@[i] == q0[i] && q@[j] == q0[j]);
                                }
                            }
                            assert forall|i: int| 0 <= i < q@.len() implies connected@.contains(
                                #[trigger] q@[i],
                            ) by {
                                if i < q0.len() {
                                    assert(q@[i] == q0[i]);
                                }
                            }
                        }
                    }
                    cs.push(q);
                }
                proof {
                    assert forall|i: int|
                        0 <= i < g + 1 && lists_every(friends@, s, #[trigger] start[i]@) && !start[i]@.contains(s)
                            implies exists|c: int| 0 <= c < cs@.len() && cs@[c]@ == start[i]@.push(s) by {
                        if i < g {
                            let c0 = choose|c: int| 0 <= c < before_copy.len() && before_copy[c]@ == start[i]@.push(s);
                            assert(cs@[c0] == before_copy[c0]);
                        } else {
                            assert(cs@[cs@.len() - 1]@ == start[i]@.push(s));
                        }
                    }
                }
                g = g + 1;
            }
            // A pair for each connected player `s` lists.
            let mut f: usize = 0;
            while f < fi.friends.len()
                invariant
                    f <= fi.friends@.len(),
                    cs@.len() >= start.len(),
                    forall|i: int| 0 <= i < start.len() ==> #[trigger] cs@[i] == start[i],
                    friends@.contains_key(s),
                    *fi == friends@[s],
                    connected@.contains(s),
                    forall|i: int|
                        0 <= i < cs@.len() ==> valid_party(friends@, connected@, #[trigger] cs@[i]@),
                    forall|j: int|
                        0 <= j < f && connected@.contains(#[trigger] fi.friends@[j].steamid)
                            ==> exists|k: int|
                            0 <= k < cs@.len() && #[trigger] pair_of(cs@[k]@, s, fi.friends@[j].steamid),
                    forall|i: int|
                        0 <= i < count && lists_every(friends@, s, #[trigger] start[i]@) && !start[i]@.contains(s)
                            ==> exists|c: int| 0 <= c < cs@.len() && cs@[c]@ == start[i]@.push(s),
                    count == start.len(),
                decreases fi.friends.len() - f,
            {
                let s2 = fi.friends[f].steamid;
                if contains_id(connected, s2) {
                    let mut q: Vec<u64> = Vec::new();
                    q.push(s);
                    if s2 != s {
                        q.push(s2);
                    }
                    proof {
                        assert(friend_ids(fi.friends@)[f as int] == s2);
                        assert(q@[0] == s);
                        assert(q@.contains(s) && q@.contains(s2)) by {
                            assert(q@[0] == s);
                            if s2 != s {
                                assert(q@[1] == s2);
                            }
                        }
                        assert forall|i: int, j: int|
                            0 <= i < q@.len() && 0 <= j < q@.len() && i != j implies lists(
                            friends@,
                            #[trigger] q@[i],
                            #[trigger] q@[j],
                        ) || lists(friends@, q@[j], q@[i]) by {
                            assert(lists(friends@, s, s2));
                        }
                    }
                    let ghost before_push = cs@;
                    cs.push(q);
                    proof {
                        assert(cs@[cs@.len() - 1]@.contains(s));
                        assert(pair_of(q@, s, s2)) by {
                            assert forall|z: u64| #[trigger] q@.contains(z) implies z == s || z == s2 by {
                                let j = choose|j: int| 0 <= j < q@.len() && q@[j] == z;
                            }
                        }
                        assert forall|j: int|
                            0 <= j < f + 1 && connected@.contains(#[trigger] fi.friends@[j].steamid)
                                implies exists|k: int|
                                0 <= k < cs@.len() && #[trigger] pair_of(cs@[k]@, s, fi.friends@[j].steamid) by {
                            if j < f {
                                let k = choose|k: int|
                                    0 <= k < before_push.len() && #[trigger] pair_of(before_push[k]@, s, fi.friends@[j].steamid);
                                assert(cs@[k] == before_push[k]);
                            } else {
                                assert(cs@[cs@.len() - 1]@ == q@);
                            }
                        }
                        assert forall|i: int|
                            0 <= i < count && lists_every(friends@, s, #[trigger] start[i]@) && !start[i]@.contains(s)
                                implies exists|c: int| 0 <= c < cs@.len() && cs@[c]@ == start[i]@.push(s) by {
                            let c0 = choose|c: int| 0 <= c < before_push.len() && before_push[c]@ == start[i]@.push(s);
                            assert(cs@[c0] == before_push[c0]);
                        }
                    }
                }
                f = f + 1;
            }
            proof {
                assert forall|b: u64|
                    connected@.contains(s) && connected@.contains(b) && #[trigger] lists(friends@, s, b)
                        implies exists|k: int|
                        0 <= k < cs@.len() && (#[trigger] cs@[k]@).contains(s) && cs@[k]@.contains(b) by {
                    let j = choose|j: int|
                        0 <= j < friend_ids(fi.friends@).len() && friend_ids(fi.friends@)[j] == b;
                    assert(fi.friends@[j].steamid == b);
                    let k = choose|k: int| 0 <= k < cs@.len() && #[trigger] pair_of(cs@[k]@, s, fi.friends@[j].steamid);
                    assert(cs@[k]@.contains(s) && cs@[k]@.contains(b));
                }
                let vs = party_views(cs@);
                let st = party_views(start);
                assert forall|i: int| 0 <= i < st.len() implies #[trigger] vs[i] == st[i] by {
                    assert(cs@[i] == start[i]);
                }
                assert forall|i: int|
                    0 <= i < st.len() && lists_every(friends@, s, #[trigger] st[i]) && !st[i].contains(s)
                        implies exists|c: int| 0 <= c < vs.len() && vs[c] == st[i].push(s) by {
                    assert(st[i] == start[i]@);
                    let c0 = choose|c: int| 0 <= c < cs@.len() && cs@[c]@ == start[i]@.push(s);
                    assert(vs[c0] == cs@[c0]@);
                }
                assert forall|y: u64| #[trigger] lists(friends@, s, y) && connected@.contains(y) implies exists|c: int|
                    0 <= c < vs.len() && #[trigger] pair_of(vs[c], s, y) by {
                    let j = choose|j: int| 0 <= j < friend_ids(fi.friends@).len() && friend_ids(fi.friends@)[j] == y;
                    assert(fi.friends@[j].steamid == y);
                    let k = choose|k: int| 0 <= k < cs@.len() && #[trigger] pair_of(cs@[k]@, s, fi.friends@[j].steamid);
                    assert(vs[k] == cs@[k]@);
                }
                lemma_grown_step(friends@, connected@, ks@.take(n as int), s, st, vs);
            }
        } else {
            proof {
                let st = party_views(start);
                lemma_grown_step(friends@, connected@, ks@.take(n as int), s, st, st);
            }
        }
        proof {
            assert(ks@.take(n as int + 1) =~= ks@.take(n as int).push(s));
            assert forall|m: int, b: u64|
                0 <= m < n + 1 && connected@.contains(ks@[m]) && connected@.contains(b)
                    && #[trigger] lists(friends@, ks@[m], b) implies exists|k: int|
                    0 <= k < cs@.len() && (#[trigger] cs@[k]@).contains(ks@[m]) && cs@[k]@.contains(
                        b,
                    ) by {
                if m < n {
                    let k0 = choose|k: int|
                        0 <= k < start.len() && start[k]@.contains(ks@[m]) && start[k]@.contains(b);
                    assert(cs@[k0] == start[k0]);
                }
            }
        }
        n = n + 1;
    }
    proof {
        assert forall|a: u64, b: u64|
            connected@.contains(a) && connected@.contains(b) && #[trigger] lists(friends@, a, b)
                implies exists|k: int|
                0 <= k < cs@.len() && (#[trigger] cs@[k]@).contains(a) && cs@[k]@.contains(b) by {
            assert(ks@.to_set().contains(a));
            let m = choose|m: int| 0 <= m < ks@.len() && ks@[m] == a;
            assert(lists(friends@, ks@[m], b));
        }
        assert(ks@.take(ks@.len() as int) =~= ks@);
        assert forall|k: Seq<u64>| #[trigger] mutual_group(friends@, connected@, k) implies exists|c: int|
            0 <= c < cs@.len() && #[trigger] seq_subset(k, cs@[c]@) by {
            assert forall|y: u64| #[trigger] k.contains(y) implies ks@.contains(y) by {
                assert(k.contains(k[0]) && k.contains(k[1]) && k[0] != k[1]);
                let z = if k[0] != y { k[0] } else { k[1] };
                assert(lists(friends@, y, z));
                assert(ks@.to_set().contains(y));
            }
            assert(seq_subset(k, ks@.take(ks@.len() as int)));
            let c = choose|c: int| 0 <= c < party_views(cs@).len() && #[trigger] seq_subset(k, party_views(cs@)[c]);
            assert(party_views(cs@)[c] == cs@[c]@);
        }
    }
    cs
}

/// Whether `fi` lists every member of `p`.
fn lists_all(fi: &FriendInfo, p: &Vec<u64>) -> (r: bool)
    ensures
        r == forall|i: int| 0 <= i < p@.len() ==> friend_ids(fi.friends@).contains(#[trigger] p@[i]),
{
    let mut i: usize = 0;
    while i < p.len()
        invariant
            i <= p@.len(),
            forall|j: int| 0 <= j < i ==> friend_ids(fi.friends@).contains(#[trigger] p@[j]),
        decreases p.len() - i,
    {
        if !fi.lists(p[i]) {
            return false;
        }
        i = i + 1;
    }
    true
}

} // verus!
