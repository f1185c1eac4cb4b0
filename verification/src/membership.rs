//! Room membership table.
//!
//! The table keeps the bidirectional relation between connections and rooms:
//! one direction maps a room id to its member connections, the other maps a
//! connection to the rooms it has joined.  Its well-formedness predicate
//! `wf` carries the library's structural invariants: the two directions
//! never diverge, a room listed in the table always has at least one member
//! (emptied rooms are deleted, never left as empty entries), and no key or
//! member is listed twice.

use vstd::prelude::*;

verus! {

/// Some entry of the room-to-members direction lists room `r` with member `c`.
pub open spec fn rooms_has(rs: Seq<(String, Vec<u64>)>, c: u64, r: Seq<char>) -> bool {
    exists|i: int| 0 <= i < rs.len() && (#[trigger] rs[i]).0@ == r && rs[i].1@.contains(c)
}

/// Room `r` is a key of the room-to-members direction.
pub open spec fn rooms_key(rs: Seq<(String, Vec<u64>)>, r: Seq<char>) -> bool {
    exists|i: int| 0 <= i < rs.len() && (#[trigger] rs[i]).0@ == r
}

/// Room keys are pairwise distinct and every member list is duplicate-free
/// and non-empty.
pub open spec fn rooms_wf(rs: Seq<(String, Vec<u64>)>) -> bool {
    &&& forall|i: int, j: int|
        0 <= i < j < rs.len() ==> (#[trigger] rs[i]).0@ != (#[trigger] rs[j]).0@
    &&& forall|i: int| 0 <= i < rs.len() ==> (#[trigger] rs[i]).1@.no_duplicates()
    &&& forall|i: int| 0 <= i < rs.len() ==> (#[trigger] rs[i]).1@.len() > 0
}

/// Some element of `ss` reads `r`.
pub open spec fn str_seq_has(ss: Seq<String>, r: Seq<char>) -> bool {
    exists|j: int| 0 <= j < ss.len() && (#[trigger] ss[j])@ == r
}

/// Some entry of the connection-to-rooms direction lists connection `c`
/// with room `r`.
pub open spec fn conns_has(cs: Seq<(u64, Vec<String>)>, c: u64, r: Seq<char>) -> bool {
    exists|i: int| 0 <= i < cs.len() && (#[trigger] cs[i]).0 == c && str_seq_has(cs[i].1@, r)
}

/// Connection `c` is a key of the connection-to-rooms direction.
pub open spec fn conns_key(cs: Seq<(u64, Vec<String>)>, c: u64) -> bool {
    exists|i: int| 0 <= i < cs.len() && (#[trigger] cs[i]).0 == c
}

/// Connection keys are pairwise distinct and every room list is
/// duplicate-free (by text) and non-empty.
pub open spec fn conns_wf(cs: Seq<(u64, Vec<String>)>) -> bool {
    &&& forall|i: int, j: int| 0 <= i < j < cs.len() ==> (#[trigger] cs[i]).0 != (#[trigger] cs[j]).0
    &&& forall|i: int| 0 <= i < cs.len() ==> (#[trigger] cs[i]).1@.len() > 0
    &&& forall|i: int, p: int, q: int|
        0 <= i < cs.len() && 0 <= p < q < cs[i].1@.len() ==> (#[trigger] cs[i].1@[p])@ != (
        #[trigger] cs[i].1@[q])@
}

/// The bidirectional membership table.
pub struct MembershipTable {
    rooms: Vec<(String, Vec<u64>)>,
    conns: Vec<(u64, Vec<String>)>,
}

impl MembershipTable {
    /// Connection `c` is currently a member of room `r`.
    pub closed spec fn in_room(self, c: u64, r: Seq<char>) -> bool {
        rooms_has(self.rooms@, c, r)
    }

    /// Room `r` currently exists (has an entry in the room direction).
    pub closed spec fn room_exists(self, r: Seq<char>) -> bool {
        rooms_key(self.rooms@, r)
    }

    /// The connection direction lists `r` among the rooms of `c`.
    pub closed spec fn conn_has(self, c: u64, r: Seq<char>) -> bool {
        conns_has(self.conns@, c, r)
    }

    /// Connection `c` has an entry in the connection direction.
    pub closed spec fn conn_listed(self, c: u64) -> bool {
        conns_key(self.conns@, c)
    }

    /// Structural invariants of the table, including the symmetry of its
    /// two directions: `c` is listed under room `r` exactly when `r` is
    /// listed under connection `c`.
    pub closed spec fn wf(self) -> bool {
        &&& rooms_wf(self.rooms@)
        &&& conns_wf(self.conns@)
        &&& forall|c: u64, r: Seq<char>|
            #![trigger rooms_has(self.rooms@, c, r)]
            #![trigger conns_has(self.conns@, c, r)]
            rooms_has(self.rooms@, c, r) <==> conns_has(self.conns@, c, r)
    }

    /// An empty table: no rooms, no connections.
    pub fn new() -> (t: MembershipTable)
        ensures
            t.wf(),
            forall|c: u64, r: Seq<char>| !t.in_room(c, r),
            forall|r: Seq<char>| !t.room_exists(r),
            forall|c: u64| !t.conn_listed(c),
    {
        MembershipTable { rooms: Vec::new(), conns: Vec::new() }
    }

    /// Adds `c` to `room` and `room` to `c`, a no-op when already joined.
    /// The resulting membership relation is the old one plus the single
    /// pair `(c, room)`.
    pub fn join(&mut self, c: u64, room: &String)
        requires
            old(self).wf(),
        ensures
            final(self).wf(),
            join_step(*old(self), *final(self), c, room@),
            final(self).conn_listed(c),
    {
        rooms_add(&mut self.rooms, room, c);
        conns_add(&mut self.conns, c, room);
        proof {
            assert forall|c2: u64, r2: Seq<char>|
                #![trigger final(self).in_room(c2, r2)]
                final(self).in_room(c2, r2) <==> old(self).in_room(c2, r2) || (c2 == c && r2
                    == room@) by {};
        }
    }

    /// Removes `c` from every room it belongs to, deletes rooms left empty,
    /// and drops `c`'s entry from the connection direction.
    pub fn leave_all(&mut self, c: u64)
        requires
            old(self).wf(),
        ensures
            final(self).wf(),
            forall|c2: u64, r2: Seq<char>|
                #![trigger final(self).in_room(c2, r2)]
                final(self).in_room(c2, r2) <==> old(self).in_room(c2, r2) && c2 != c,
            forall|r2: Seq<char>|
                #![trigger final(self).room_exists(r2)]
                final(self).room_exists(r2) <==> exists|c2: u64|
                    old(self).in_room(c2, r2) && c2 != c,
            !final(self).conn_listed(c),
    {
        rooms_remove_conn(&mut self.rooms, c);
        conns_remove(&mut self.conns, c);
        proof {
            assert forall|r2: Seq<char>| #[trigger]
                rooms_key(self.rooms@, r2) implies exists|c2: u64|
                old(self).in_room(c2, r2) && c2 != c by {
                let c2 = choose|c2: u64| rooms_has(old(self).rooms@, c2, r2) && c2 != c;
                assert(old(self).in_room(c2, r2) && c2 != c);
            };
            assert forall|r2: Seq<char>|
                (exists|c2: u64| old(self).in_room(c2, r2) && c2 != c) implies #[trigger]
                rooms_key(self.rooms@, r2) by {
                let c2 = choose|c2: u64| old(self).in_room(c2, r2) && c2 != c;
                assert(rooms_has(old(self).rooms@, c2, r2) && c2 != c);
            };
        }
    }

    /// A snapshot of the current members of `room`, duplicate-free; empty
    /// when the room does not exist.
    pub fn members_of(&self, room: &String) -> (r: Vec<u64>)
        requires
            self.wf(),
        ensures
            r@.no_duplicates(),
            forall|c: u64| #[trigger] r@.contains(c) <==> self.in_room(c, room@),
    {
        match rooms_find(&self.rooms, room) {
            Some(i) => {
                let r = copy_members(&self.rooms[i].1);
                proof {
                    assert forall|c: u64| #[trigger] r@.contains(c) <==> self.in_room(c, room@) by {
                        if r@.contains(c) {
                            assert(rooms_has(self.rooms@, c, room@));
                        }
                        if self.in_room(c, room@) {
                            let k = choose|k: int|
                                0 <= k < self.rooms@.len() && (#[trigger] self.rooms@[k]).0@
                                    == room@ && self.rooms@[k].1@.contains(c);
                            assert(k == i);
                        }
                    };
                }
                r
            },
            None => {
                let r: Vec<u64> = Vec::new();
                proof {
                    assert forall|c: u64| !self.in_room(c, room@) by {
                        if rooms_has(self.rooms@, c, room@) {
                            let k = choose|k: int|
                                0 <= k < self.rooms@.len() && (#[trigger] self.rooms@[k]).0@
                                    == room@ && self.rooms@[k].1@.contains(c);
                        }
                    };
                }
                r
            },
        }
    }

    /// A snapshot of the rooms `c` has joined, duplicate-free by text;
    /// empty when `c` has joined nothing.
    pub fn rooms_of(&self, c: u64) -> (r: Vec<String>)
        requires
            self.wf(),
        ensures
            forall|r2: Seq<char>| #[trigger] str_seq_has(r@, r2) <==> self.in_room(c, r2),
    {
        match conns_find(&self.conns, c) {
            Some(i) => {
                let r = copy_strings(&self.conns[i].1);
                proof {
                    assert forall|r2: Seq<char>| #[trigger] str_seq_has(r@, r2) <==> self.in_room(
                        c,
                        r2,
                    ) by {
                        if str_seq_has(r@, r2) {
                            assert(conns_has(self.conns@, c, r2));
                        }
                        if self.in_room(c, r2) {
                            assert(conns_has(self.conns@, c, r2));
                            let k = choose|k: int|
                                0 <= k < self.conns@.len() && (#[trigger] self.conns@[k]).0 == c
                                    && str_seq_has(self.conns@[k].1@, r2);
                            assert(k == i);
                        }
                    };
                }
                r
            },
            None => {
                let r: Vec<String> = Vec::new();
                proof {
                    assert forall|r2: Seq<char>| !self.in_room(c, r2) by {
                        if conns_has(self.conns@, c, r2) {
                            let k = choose|k: int|
                                0 <= k < self.conns@.len() && (#[trigger] self.conns@[k]).0 == c
                                    && str_seq_has(self.conns@[k].1@, r2);
                        }
                    };
                    assert(r@.len() == 0);
                }
                r
            },
        }
    }

    /// Whether `c` is currently a member of `room`: the delivery guard the
    /// outbound path applies before writing a room-scoped message to a
    /// connection.
    pub fn is_member(&self, c: u64, room: &String) -> (b: bool)
        requires
            self.wf(),
        ensures
            b == self.in_room(c, room@),
    {
        match rooms_find(&self.rooms, room) {
            Some(i) => {
                let b = vec_u64_contains(&self.rooms[i].1, c);
                proof {
                    if !b && rooms_has(self.rooms@, c, room@) {
                        let k = choose|k: int|
                            0 <= k < self.rooms@.len() && (#[trigger] self.rooms@[k]).0@ == room@
                                && self.rooms@[k].1@.contains(c);
                        assert(k == i);
                    }
                    if b {
                        assert(rooms_has(self.rooms@, c, room@));
                    }
                }
                b
            },
            None => {
                proof {
                    if rooms_has(self.rooms@, c, room@) {
                        let k = choose|k: int|
                            0 <= k < self.rooms@.len() && (#[trigger] self.rooms@[k]).0@ == room@
                                && self.rooms@[k].1@.contains(c);
                    }
                }
                false
            },
        }
    }
}

/// How a table after `join(c, r)` relates to the table before: the
/// membership relation gains exactly the pair `(c, r)`, and the set of
/// existing rooms gains exactly `r`.
pub open spec fn join_step(pre: MembershipTable, post: MembershipTable, c: u64, r: Seq<char>) -> bool {
    &&& forall|c2: u64, r2: Seq<char>|
        #![trigger post.in_room(c2, r2)]
        post.in_room(c2, r2) <==> pre.in_room(c2, r2) || (c2 == c && r2 == r)
    &&& forall|r2: Seq<char>|
        #![trigger post.room_exists(r2)]
        post.room_exists(r2) <==> pre.room_exists(r2) || r2 == r
}

/// Membership symmetry: in a well-formed table the two directions agree,
/// for every connection and room.
pub proof fn lemma_membership_symmetry(t: MembershipTable, c: u64, r: Seq<char>)
    requires
        t.wf(),
    ensures
        t.in_room(c, r) <==> t.conn_has(c, r),
{
}

/// Empty-room pruning: a room present in a well-formed table always has at
/// least one member.
pub proof fn lemma_no_empty_rooms(t: MembershipTable, r: Seq<char>)
    requires
        t.wf(),
        t.room_exists(r),
    ensures
        exists|c: u64| t.in_room(c, r),
{
    let i = choose|i: int| 0 <= i < t.rooms@.len() && (#[trigger] t.rooms@[i]).0@ == r;
    let m = t.rooms@[i].1@[0];
    assert(t.rooms@[i].1@.contains(m));
    assert(t.in_room(m, r));
}

/// Idempotent join: joining the same room twice in succession leaves the
/// membership relation and the set of rooms exactly as after the first
/// join.
pub proof fn lemma_join_idempotent(
    t0: MembershipTable,
    t1: MembershipTable,
    t2: MembershipTable,
    c: u64,
    r: Seq<char>,
)
    requires
        join_step(t0, t1, c, r),
        join_step(t1, t2, c, r),
    ensures
        forall|c2: u64, r2: Seq<char>|
            #![trigger t2.in_room(c2, r2)]
            t2.in_room(c2, r2) <==> t1.in_room(c2, r2),
        forall|r2: Seq<char>| #![trigger t2.room_exists(r2)] t2.room_exists(r2) <==> t1.room_exists(r2),
{
}

/// Broadcast scoping: a member snapshot of room `r` taken at publish time
/// admits exactly the connections then in `r`; in particular a connection
/// outside `r` never appears in it, so the fan-out never reaches it.
pub proof fn lemma_broadcast_scoping(t: MembershipTable, ms: Seq<u64>, r: Seq<char>, c: u64)
    requires
        t.wf(),
        forall|c2: u64| #[trigger] ms.contains(c2) <==> t.in_room(c2, r),
        !t.in_room(c, r),
    ensures
        !ms.contains(c),
{
}

/// Finds the entry of `room` in the room direction.
fn rooms_find(rooms: &Vec<(String, Vec<u64>)>, room: &String) -> (r: Option<usize>)
    ensures
        match r {
            Some(i) => i < rooms@.len() && rooms@[i as int].0@ == room@,
            None => forall|t: int| 0 <= t < rooms@.len() ==> (#[trigger] rooms@[t]).0@ != room@,
        },
{
    let mut i: usize = 0;
    while i < rooms.len()
        invariant
            i <= rooms@.len(),
            forall|t: int| 0 <= t < i ==> (#[trigger] rooms@[t]).0@ != room@,
        decreases rooms@.len() - i,
    {
        if rooms[i].0 == *room {
            return Some(i);
        }
        i += 1;
    }
    None
}

/// Finds the entry of `c` in the connection direction.
fn conns_find(conns: &Vec<(u64, Vec<String>)>, c: u64) -> (r: Option<usize>)
    ensures
        match r {
            Some(i) => i < conns@.len() && conns@[i as int].0 == c,
            None => forall|t: int| 0 <= t < conns@.len() ==> (#[trigger] conns@[t]).0 != c,
        },
{
    let mut i: usize = 0;
    while i < conns.len()
        invariant
            i <= conns@.len(),
            forall|t: int| 0 <= t < i ==> (#[trigger] conns@[t]).0 != c,
        decreases conns@.len() - i,
    {
        if conns[i].0 == c {
            return Some(i);
        }
        i += 1;
    }
    None
}

/// Whether `v` contains `c`.
fn vec_u64_contains(v: &Vec<u64>, c: u64) -> (b: bool)
    ensures
        b == v@.contains(c),
{
    let mut k: usize = 0;
    while k < v.len()
        invariant
            k <= v@.len(),
            forall|t: int| 0 <= t < k ==> v@[t] != c,
        decreases v@.len() - k,
    {
        if v[k] == c {
            return true;
        }
        k += 1;
    }
    false
}

/// Whether some element of `v` reads as `s`.
fn str_vec_contains(v: &Vec<String>, s: &String) -> (b: bool)
    ensures
        b == str_seq_has(v@, s@),
{
    let mut k: usize = 0;
    while k < v.len()
        invariant
            k <= v@.len(),
            forall|t: int| 0 <= t < k ==> (#[trigger] v@[t])@ != s@,
        decreases v@.len() - k,
    {
        if v[k] == *s {
            return true;
        }
        k += 1;
    }
    false
}

/// Copies a member list.
fn copy_members(v: &Vec<u64>) -> (r: Vec<u64>)
    ensures
        r@ == v@,
{
    let mut r: Vec<u64> = Vec::new();
    let mut k: usize = 0;
    while k < v.len()
        invariant
            k <= v@.len(),
            r@ == v@.subrange(0, k as int),
        decreases v@.len() - k,
    {
        r.push(v[k]);
        proof {
            assert(r@ =~= v@.subrange(0, k + 1 as int));
        }
        k += 1;
    }
    proof {
        assert(r@ =~= v@);
    }
    r
}

/// Copies a room list.
fn copy_strings(v: &Vec<String>) -> (r: Vec<String>)
    ensures
        r@ =~= v@,
{
    let mut r: Vec<String> = Vec::new();
    let mut k: usize = 0;
    while k < v.len()
        invariant
            k <= v@.len(),
            r@ =~= v@.subrange(0, k as int),
        decreases v@.len() - k,
    {
        r.push(v[k].clone());
        proof {
            assert(r@ =~= v@.subrange(0, k + 1 as int));
        }
        k += 1;
    }
    proof {
        assert(r@ =~= v@);
    }
    r
}

/// Adds `c` to `room`'s member list, creating the room when absent.
fn rooms_add(rooms: &mut Vec<(String, Vec<u64>)>, room: &String, c: u64)
    requires
        rooms_wf(old(rooms)@),
    ensures
        rooms_wf(final(rooms)@),
        forall|c2: u64, r2: Seq<char>|
            #![trigger rooms_has(final(rooms)@, c2, r2)]
            rooms_has(final(rooms)@, c2, r2) <==> rooms_has(old(rooms)@, c2, r2) || (c2 == c && r2
                == room@),
        forall|r2: Seq<char>|
            #![trigger rooms_key(final(rooms)@, r2)]
            rooms_key(final(rooms)@, r2) <==> rooms_key(old(rooms)@, r2) || r2 == room@,
{
    let ghost pre = rooms@;
    match rooms_find(rooms, room) {
        Some(i) => {
            let (rid, mut members) = rooms.remove(i);
            let ghost m0 = members@;
            if !vec_u64_contains(&members, c) {
                members.push(c);
                proof {
                    assert forall|p: int, q: int|
                        0 <= p < q < members@.len() implies members@[p] != members@[q] by {
                        if q == members@.len() - 1 {
                            assert(!m0.contains(members@[q]));
                        }
                    };
                }
            }
            let ghost mseq = members@;
            rooms.push((rid, members));
            proof {
                let s = rooms@;
                let n = s.len();
                // index map between s and pre
                assert(n == pre.len());
                assert(s[n - 1].0 == pre[i as int].0 && s[n - 1].1@ == mseq);
                assert(forall|k: int| 0 <= k < i ==> s[k] == pre[k]);
                assert(forall|k: int| i <= k < n - 1 ==> s[k] == pre[k + 1]);
                assert(forall|x: u64| mseq.contains(x) <==> m0.contains(x) || x == c) by {
                    assert forall|x: u64| mseq.contains(x) implies m0.contains(x) || x == c by {
                        let t = choose|t: int| 0 <= t < mseq.len() && mseq[t] == x;
                        if t < m0.len() {
                            assert(m0[t] == x);
                        }
                    };
                    assert forall|x: u64| m0.contains(x) || x == c implies mseq.contains(x) by {
                        if m0.contains(x) {
                            let t = choose|t: int| 0 <= t < m0.len() && m0[t] == x;
                            assert(mseq[t] == x);
                        } else {
                            assert(mseq[mseq.len() - 1] == c);
                        }
                    };
                };
                assert forall|c2: u64, r2: Seq<char>| #[trigger]
                    rooms_has(s, c2, r2) implies rooms_has(pre, c2, r2) || (c2 == c && r2
                    == room@) by {
                    let k = choose|k: int|
                        0 <= k < s.len() && (#[trigger] s[k]).0@ == r2 && s[k].1@.contains(c2);
                    if k == n - 1 {
                        assert(r2 == pre[i as int].0@);
                        if m0.contains(c2) {
                            assert(pre[i as int].1@.contains(c2));
                            assert(rooms_has(pre, c2, r2));
                        } else {
                            assert(c2 == c);
                        }
                    } else {
                        let k0: int = if k < i {
                            k
                        } else {
                            k + 1
                        };
                        assert(s[k] == pre[k0]);
                        assert(rooms_has(pre, c2, r2));
                    }
                };
                assert forall|c2: u64, r2: Seq<char>|
                    rooms_has(pre, c2, r2) || (c2 == c && r2 == room@) implies #[trigger]
                    rooms_has(s, c2, r2) by {
                    if rooms_has(pre, c2, r2) {
                        let k = choose|k: int|
                            0 <= k < pre.len() && (#[trigger] pre[k]).0@ == r2
                                && pre[k].1@.contains(c2);
                        if k == i {
                            assert(mseq.contains(c2));
                            assert(s[n - 1].0@ == r2 && s[n - 1].1@.contains(c2));
                        } else {
                            let k1: int = if k < i {
                                k
                            } else {
                                k - 1
                            };
                            assert(s[k1] == pre[k]);
                        }
                    } else {
                        assert(mseq.contains(c));
                        assert(s[n - 1].0@ == room@ && s[n - 1].1@.contains(c));
                    }
                };
                assert forall|r2: Seq<char>| #[trigger]
                    rooms_key(s, r2) implies rooms_key(pre, r2) || r2 == room@ by {
                    let k = choose|k: int| 0 <= k < s.len() && (#[trigger] s[k]).0@ == r2;
                    if k == n - 1 {
                        assert(pre[i as int].0@ == r2);
                    } else {
                        let k0: int = if k < i {
                            k
                        } else {
                            k + 1
                        };
                        assert(s[k] == pre[k0]);
                    }
                };
                assert forall|r2: Seq<char>|
                    rooms_key(pre, r2) || r2 == room@ implies #[trigger] rooms_key(s, r2) by {
                    if rooms_key(pre, r2) {
                        let k = choose|k: int| 0 <= k < pre.len() && (#[trigger] pre[k]).0@ == r2;
                        if k == i {
                            assert(s[n - 1].0@ == r2);
                        } else {
                            let k1: int = if k < i {
                                k
                            } else {
                                k - 1
                            };
                            assert(s[k1] == pre[k]);
                        }
                    } else {
                        assert(s[n - 1].0@ == room@);
                    }
                };
                // well-formedness
                assert forall|p: int, q: int|
                    0 <= p < q < s.len() implies (#[trigger] s[p]).0@ != (#[trigger] s[q]).0@ by {
                    let p0: int = if p < i {
                        p
                    } else {
                        p + 1
                    };
                    if q == n - 1 {
                        assert(s[p] == pre[p0]);
                        assert(s[q].0 == pre[i as int].0);
                        assert(p0 != i);
                    } else {
                        let q0: int = if q < i {
                            q
                        } else {
                            q + 1
                        };
                        assert(s[p] == pre[p0] && s[q] == pre[q0]);
                    }
                };
                assert forall|k: int| 0 <= k < s.len() implies (#[trigger] s[k]).1@.no_duplicates()
                    && s[k].1@.len() > 0 by {
                    if k == n - 1 {
                        assert(mseq.len() > 0);
                    } else {
                        let k0: int = if k < i {
                            k
                        } else {
                            k + 1
                        };
                        assert(s[k] == pre[k0]);
                    }
                };
            }
        },
        None => {
            let mut members: Vec<u64> = Vec::new();
            members.push(c);
            rooms.push((room.clone(), members));
            proof {
                let s = rooms@;
                let n = s.len();
                assert(n == pre.len() + 1);
                assert(forall|k: int| 0 <= k < n - 1 ==> s[k] == pre[k]);
                assert(s[n - 1].0@ == room@);
                assert(s[n - 1].1@ =~= seq![c]);
                assert(s[n - 1].1@[0] == c);
                assert(s[n - 1].1@.contains(c));
                assert forall|c2: u64, r2: Seq<char>| #[trigger]
                    rooms_has(s, c2, r2) implies rooms_has(pre, c2, r2) || (c2 == c && r2
                    == room@) by {
                    let k = choose|k: int|
                        0 <= k < s.len() && (#[trigger] s[k]).0@ == r2 && s[k].1@.contains(c2);
                    if k == n - 1 {
                        assert(s[k].1@[0] == c);
                        let t = choose|t: int| 0 <= t < s[k].1@.len() && s[k].1@[t] == c2;
                        assert(t == 0);
                    } else {
                        assert(rooms_has(pre, c2, r2));
                    }
                };
                assert forall|c2: u64, r2: Seq<char>|
                    rooms_has(pre, c2, r2) || (c2 == c && r2 == room@) implies #[trigger]
                    rooms_has(s, c2, r2) by {
                    if rooms_has(pre, c2, r2) {
                        let k = choose|k: int|
                            0 <= k < pre.len() && (#[trigger] pre[k]).0@ == r2
                                && pre[k].1@.contains(c2);
                        assert(s[k] == pre[k]);
                    } else {
                        assert(s[n - 1].0@ == room@ && s[n - 1].1@.contains(c));
                    }
                };
                assert forall|r2: Seq<char>| #[trigger]
                    rooms_key(s, r2) implies rooms_key(pre, r2) || r2 == room@ by {
                    let k = choose|k: int| 0 <= k < s.len() && (#[trigger] s[k]).0@ == r2;
                    if k < n - 1 {
                        assert(rooms_key(pre, r2));
                    }
                };
                assert forall|r2: Seq<char>|
                    rooms_key(pre, r2) || r2 == room@ implies #[trigger] rooms_key(s, r2) by {
                    if rooms_key(pre, r2) {
                        let k = choose|k: int| 0 <= k < pre.len() && (#[trigger] pre[k]).0@ == r2;
                        assert(s[k] == pre[k]);
                    }
                };
                assert forall|p: int, q: int|
                    0 <= p < q < s.len() implies (#[trigger] s[p]).0@ != (#[trigger] s[q]).0@ by {
                    if q == n - 1 {
                        assert(s[p] == pre[p]);
                    } else {
                        assert(s[p] == pre[p] && s[q] == pre[q]);
                    }
                };
                assert forall|k: int| 0 <= k < s.len() implies (#[trigger] s[k]).1@.no_duplicates()
                    && s[k].1@.len() > 0 by {
                    if k < n - 1 {
                        assert(s[k] == pre[k]);
                    }
                };
            }
        },
    }
}

/// Adds `room` to `c`'s room list, creating the entry when absent.
fn conns_add(conns: &mut Vec<(u64, Vec<String>)>, c: u64, room: &String)
    requires
        conns_wf(old(conns)@),
    ensures
        conns_wf(final(conns)@),
        forall|c2: u64, r2: Seq<char>|
            #![trigger conns_has(final(conns)@, c2, r2)]
            conns_has(final(conns)@, c2, r2) <==> conns_has(old(conns)@, c2, r2) || (c2 == c && r2
                == room@),
        conns_key(final(conns)@, c),
        forall|c2: u64|
            #![trigger conns_key(final(conns)@, c2)]
            conns_key(final(conns)@, c2) <==> conns_key(old(conns)@, c2) || c2 == c,
{
    let ghost pre = conns@;
    match conns_find(conns, c) {
        Some(i) => {
            let (cid, mut list) = conns.remove(i);
            let ghost m0 = list@;
            if !str_vec_contains(&list, room) {
                list.push(room.clone());
                proof {
                    assert forall|p: int, q: int|
                        0 <= p < q < list@.len() implies (#[trigger] list@[p])@ != (
                    #[trigger] list@[q])@ by {
                        if q == list@.len() - 1 {
                            assert(!str_seq_has(m0, list@[q]@));
                            assert(m0[p] == list@[p]);
                        }
                    };
                }
            }
            let ghost mseq = list@;
            conns.push((cid, list));
            proof {
                let s = conns@;
                let n = s.len();
                assert(n == pre.len());
                assert(s[n - 1].0 == c && s[n - 1].1@ == mseq);
                assert(forall|k: int| 0 <= k < i ==> s[k] == pre[k]);
                assert(forall|k: int| i <= k < n - 1 ==> s[k] == pre[k + 1]);
                assert(forall|r2: Seq<char>|
                    str_seq_has(mseq, r2) <==> str_seq_has(m0, r2) || r2 == room@) by {
                    assert forall|r2: Seq<char>|
                        str_seq_has(mseq, r2) implies str_seq_has(m0, r2) || r2 == room@ by {
                        let t = choose|t: int| 0 <= t < mseq.len() && (#[trigger] mseq[t])@ == r2;
                        if t < m0.len() {
                            assert(m0[t]@ == r2);
                        } else {
                            assert(mseq[t]@ == room@);
                        }
                    };
                    assert forall|r2: Seq<char>|
                        str_seq_has(m0, r2) || r2 == room@ implies str_seq_has(mseq, r2) by {
                        if str_seq_has(m0, r2) {
                            let t = choose|t: int| 0 <= t < m0.len() && (#[trigger] m0[t])@ == r2;
                            assert(mseq[t]@ == r2);
                        } else {
                            if m0.len() == mseq.len() {
                                assert(str_seq_has(m0, room@));
                                let t = choose|t: int|
                                    0 <= t < m0.len() && (#[trigger] m0[t])@ == room@;
                                assert(mseq[t]@ == r2);
                            } else {
                                assert(mseq[mseq.len() - 1]@ == room@);
                            }
                        }
                    };
                };
                assert forall|c2: u64, r2: Seq<char>| #[trigger]
                    conns_has(s, c2, r2) implies conns_has(pre, c2, r2) || (c2 == c && r2
                    == room@) by {
                    let k = choose|k: int|
                        0 <= k < s.len() && (#[trigger] s[k]).0 == c2 && str_seq_has(s[k].1@, r2);
                    if k == n - 1 {
                        if str_seq_has(m0, r2) {
                            assert(pre[i as int].0 == c2 && str_seq_has(pre[i as int].1@, r2));
                            assert(conns_has(pre, c2, r2));
                        }
                    } else {
                        let k0: int = if k < i {
                            k
                        } else {
                            k + 1
                        };
                        assert(s[k] == pre[k0]);
                        assert(conns_has(pre, c2, r2));
                    }
                };
                assert forall|c2: u64, r2: Seq<char>|
                    conns_has(pre, c2, r2) || (c2 == c && r2 == room@) implies #[trigger]
                    conns_has(s, c2, r2) by {
                    if conns_has(pre, c2, r2) {
                        let k = choose|k: int|
                            0 <= k < pre.len() && (#[trigger] pre[k]).0 == c2 && str_seq_has(
                                pre[k].1@,
                                r2,
                            );
                        if k == i {
                            assert(str_seq_has(mseq, r2));
                            assert(s[n - 1].0 == c2 && str_seq_has(s[n - 1].1@, r2));
                        } else {
                            let k1: int = if k < i {
                                k
                            } else {
                                k - 1
                            };
                            assert(s[k1] == pre[k]);
                        }
                    } else {
                        assert(str_seq_has(mseq, room@));
                        assert(s[n - 1].0 == c && str_seq_has(s[n - 1].1@, room@));
                    }
                };
                assert forall|c2: u64| #[trigger] conns_key(s, c2) implies conns_key(pre, c2) || c2
                    == c by {
                    let k = choose|k: int| 0 <= k < s.len() && (#[trigger] s[k]).0 == c2;
                    if k < n - 1 {
                        let k0: int = if k < i {
                            k
                        } else {
                            k + 1
                        };
                        assert(s[k] == pre[k0]);
                    }
                };
                assert forall|c2: u64|
                    conns_key(pre, c2) || c2 == c implies #[trigger] conns_key(s, c2) by {
                    if c2 == c {
                        assert(s[n - 1].0 == c);
                    } else {
                        let k = choose|k: int| 0 <= k < pre.len() && (#[trigger] pre[k]).0 == c2;
                        assert(k != i);
                        let k1: int = if k < i {
                            k
                        } else {
                            k - 1
                        };
                        assert(s[k1] == pre[k]);
                    }
                };
                // well-formedness
                assert forall|p: int, q: int|
                    0 <= p < q < s.len() implies (#[trigger] s[p]).0 != (#[trigger] s[q]).0 by {
                    let p0: int = if p < i {
                        p
                    } else {
                        p + 1
                    };
                    if q == n - 1 {
                        assert(s[p] == pre[p0]);
                        assert(s[q].0 == pre[i as int].0);
                        assert(p0 != i);
                    } else {
                        let q0: int = if q < i {
                            q
                        } else {
                            q + 1
                        };
                        assert(s[p] == pre[p0] && s[q] == pre[q0]);
                    }
                };
                assert forall|k: int| 0 <= k < s.len() implies (#[trigger] s[k]).1@.len() > 0 by {
                    if k == n - 1 {
                        assert(mseq.len() > 0);
                    } else {
                        let k0: int = if k < i {
                            k
                        } else {
                            k + 1
                        };
                        assert(s[k] == pre[k0]);
                    }
                };
                assert forall|k: int, p: int, q: int|
                    0 <= k < s.len() && 0 <= p < q < s[k].1@.len() implies (
                #[trigger] s[k].1@[p])@ != (#[trigger] s[k].1@[q])@ by {
                    if k == n - 1 {
                        assert(s[k].1@ == mseq);
                    } else {
                        let k0: int = if k < i {
                            k
                        } else {
                            k + 1
                        };
                        assert(s[k] == pre[k0]);
                    }
                };
            }
        },
        None => {
            let mut list: Vec<String> = Vec::new();
            list.push(room.clone());
            conns.push((c, list));
            proof {
                let s = conns@;
                let n = s.len();
                assert(n == pre.len() + 1);
                assert(forall|k: int| 0 <= k < n - 1 ==> s[k] == pre[k]);
                assert(s[n - 1].0 == c);
                assert(s[n - 1].1@.len() == 1 && s[n - 1].1@[0]@ == room@);
                assert(str_seq_has(s[n - 1].1@, room@));
                assert forall|c2: u64, r2: Seq<char>| #[trigger]
                    conns_has(s, c2, r2) implies conns_has(pre, c2, r2) || (c2 == c && r2
                    == room@) by {
                    let k = choose|k: int|
                        0 <= k < s.len() && (#[trigger] s[k]).0 == c2 && str_seq_has(s[k].1@, r2);
                    if k == n - 1 {
                        let t = choose|t: int|
                            0 <= t < s[k].1@.len() && (#[trigger] s[k].1@[t])@ == r2;
                        assert(t == 0);
                    } else {
                        assert(conns_has(pre, c2, r2));
                    }
                };
                assert forall|c2: u64, r2: Seq<char>|
                    conns_has(pre, c2, r2) || (c2 == c && r2 == room@) implies #[trigger]
                    conns_has(s, c2, r2) by {
                    if conns_has(pre, c2, r2) {
                        let k = choose|k: int|
                            0 <= k < pre.len() && (#[trigger] pre[k]).0 == c2 && str_seq_has(
                                pre[k].1@,
                                r2,
                            );
                        assert(s[k] == pre[k]);
                    } else {
                        assert(s[n - 1].0 == c && str_seq_has(s[n - 1].1@, room@));
                    }
                };
                assert forall|c2: u64| #[trigger] conns_key(s, c2) implies conns_key(pre, c2) || c2
                    == c by {
                    let k = choose|k: int| 0 <= k < s.len() && (#[trigger] s[k]).0 == c2;
                    if k < n - 1 {
                        assert(conns_key(pre, c2));
                    }
                };
                assert forall|c2: u64|
                    conns_key(pre, c2) || c2 == c implies #[trigger] conns_key(s, c2) by {
                    if c2 == c {
                        assert(s[n - 1].0 == c);
                    } else {
                        let k = choose|k: int| 0 <= k < pre.len() && (#[trigger] pre[k]).0 == c2;
                        assert(s[k] == pre[k]);
                    }
                };
                assert forall|p: int, q: int|
                    0 <= p < q < s.len() implies (#[trigger] s[p]).0 != (#[trigger] s[q]).0 by {
                    if q == n - 1 {
                        assert(s[p] == pre[p]);
                    } else {
                        assert(s[p] == pre[p] && s[q] == pre[q]);
                    }
                };
                assert forall|k: int| 0 <= k < s.len() implies (#[trigger] s[k]).1@.len() > 0 by {
                    if k < n - 1 {
                        assert(s[k] == pre[k]);
                    }
                };
                assert forall|k: int, p: int, q: int|
                    0 <= k < s.len() && 0 <= p < q < s[k].1@.len() implies (
                #[trigger] s[k].1@[p])@ != (#[trigger] s[k].1@[q])@ by {
                    if k < n - 1 {
                        assert(s[k] == pre[k]);
                    }
                };
            }
        },
    }
}

/// The member list `v` with `c` filtered out.
fn members_without(v: &Vec<u64>, c: u64) -> (r: Vec<u64>)
    requires
        v@.no_duplicates(),
    ensures
        r@.no_duplicates(),
        forall|x: u64| #[trigger] r@.contains(x) <==> v@.contains(x) && x != c,
{
    let mut r: Vec<u64> = Vec::new();
    let mut k: usize = 0;
    while k < v.len()
        invariant
            k <= v@.len(),
            v@.no_duplicates(),
            r@.no_duplicates(),
            forall|x: u64| #[trigger] r@.contains(x) <==> (exists|t: int|
                0 <= t < k && v@[t] == x) && x != c,
        decreases v@.len() - k,
    {
        let ghost r0 = r@;
        if v[k] != c {
            proof {
                if r0.contains(v@[k as int]) {
                    let t = choose|t: int| 0 <= t < k && v@[t] == v@[k as int];
                    assert(false);
                }
            }
            r.push(v[k]);
            proof {
                assert forall|p: int, q: int| 0 <= p < q < r@.len() implies r@[p] != r@[q] by {
                    if q == r@.len() - 1 {
                        assert(r0.contains(r@[p]));
                    }
                };
                assert forall|x: u64| #[trigger] r@.contains(x) <==> (exists|t: int|
                    0 <= t < k + 1 && v@[t] == x) && x != c by {
                    if r@.contains(x) {
                        let t = choose|t: int| 0 <= t < r@.len() && r@[t] == x;
                        if t < r0.len() {
                            assert(r0[t] == x);
                            assert(r0.contains(x));
                        } else {
                            assert(x == v@[k as int]);
                        }
                    }
                    if (exists|t: int| 0 <= t < k + 1 && v@[t] == x) && x != c {
                        let t = choose|t: int| 0 <= t < k + 1 && v@[t] == x;
                        if t < k {
                            assert(r0.contains(x));
                            let u = choose|u: int| 0 <= u < r0.len() && r0[u] == x;
                            assert(r@[u] == x);
                        } else {
                            assert(r@[r@.len() - 1] == x);
                        }
                    }
                };
            }
        } else {
            proof {
                assert forall|x: u64| #[trigger] r@.contains(x) <==> (exists|t: int|
                    0 <= t < k + 1 && v@[t] == x) && x != c by {
                    if (exists|t: int| 0 <= t < k + 1 && v@[t] == x) && x != c {
                        let t = choose|t: int| 0 <= t < k + 1 && v@[t] == x;
                        assert(t < k);
                    }
                };
            }
        }
        k += 1;
    }
    proof {
        assert forall|x: u64| #[trigger] r@.contains(x) <==> v@.contains(x) && x != c by {
            if v@.contains(x) {
                let t = choose|t: int| 0 <= t < v@.len() && v@[t] == x;
            }
        };
    }
    r
}

/// Room `r2` with member `c2` is listed among the first `k` room entries.
pub open spec fn rooms_prefix_has(rs: Seq<(String, Vec<u64>)>, k: int, c: u64, r: Seq<char>) -> bool {
    exists|t: int| 0 <= t < k && (#[trigger] rs[t]).0@ == r && rs[t].1@.contains(c)
}

/// Removes `c` from every member list, dropping rooms left empty.
fn rooms_remove_conn(rooms: &mut Vec<(String, Vec<u64>)>, c: u64)
    requires
        rooms_wf(old(rooms)@),
    ensures
        rooms_wf(final(rooms)@),
        forall|c2: u64, r2: Seq<char>|
            #![trigger rooms_has(final(rooms)@, c2, r2)]
            rooms_has(final(rooms)@, c2, r2) <==> rooms_has(old(rooms)@, c2, r2) && c2 != c,
        forall|r2: Seq<char>|
            #![trigger rooms_key(final(rooms)@, r2)]
            rooms_key(final(rooms)@, r2) <==> exists|c2: u64|
                rooms_has(old(rooms)@, c2, r2) && c2 != c,
{
    let ghost pre = rooms@;
    let mut result: Vec<(String, Vec<u64>)> = Vec::new();
    let mut k: usize = 0;
    while k < rooms.len()
        invariant
            k <= rooms@.len(),
            rooms@ == pre,
            rooms_wf(pre),
            rooms_wf(result@),
            forall|c2: u64, r2: Seq<char>|
                #![trigger rooms_has(result@, c2, r2)]
                rooms_has(result@, c2, r2) <==> rooms_prefix_has(pre, k as int, c2, r2) && c2 != c,
            forall|p: int|
                0 <= p < result@.len() ==> exists|t: int|
                    0 <= t < k && (#[trigger] result@[p]).0@ == pre[t].0@,
        decreases rooms@.len() - k,
    {
        let ghost res0 = result@;
        let filtered = members_without(&rooms[k].1, c);
        if filtered.len() > 0 {
            result.push((rooms[k].0.clone(), filtered));
        }
        proof {
            let s = result@;
            if s.len() > res0.len() {
                // pushed entry for pre[k]
                let n = s.len();
                assert(forall|p: int| 0 <= p < n - 1 ==> s[p] == res0[p]);
                assert(s[n - 1].0@ == pre[k as int].0@);
                // key uniqueness of result
                assert forall|p: int, q: int|
                    0 <= p < q < s.len() implies (#[trigger] s[p]).0@ != (#[trigger] s[q]).0@ by {
                    if q == n - 1 {
                        assert(s[p] == res0[p]);
                        let t = choose|t: int|
                            0 <= t < k && (#[trigger] res0[p]).0@ == pre[t].0@;
                        assert(pre[t].0@ != pre[k as int].0@);
                    } else {
                        assert(s[p] == res0[p] && s[q] == res0[q]);
                    }
                };
                assert forall|p: int| 0 <= p < s.len() implies (#[trigger] s[p]).1@.no_duplicates()
                    && s[p].1@.len() > 0 by {
                    if p < n - 1 {
                        assert(s[p] == res0[p]);
                    }
                };
                assert forall|p: int| 0 <= p < s.len() implies exists|t: int|
                    0 <= t < k + 1 && (#[trigger] s[p]).0@ == pre[t].0@ by {
                    if p < n - 1 {
                        assert(s[p] == res0[p]);
                        let t = choose|t: int|
                            0 <= t < k && (#[trigger] res0[p]).0@ == pre[t].0@;
                        assert(0 <= t < k + 1 && s[p].0@ == pre[t].0@);
                    } else {
                        assert(0 <= k < k + 1 && s[p].0@ == pre[k as int].0@);
                    }
                };
                assert forall|c2: u64, r2: Seq<char>| #[trigger]
                    rooms_has(s, c2, r2) <==> rooms_prefix_has(pre, k + 1 as int, c2, r2) && c2
                    != c by {
                    if rooms_has(s, c2, r2) {
                        let p = choose|p: int|
                            0 <= p < s.len() && (#[trigger] s[p]).0@ == r2 && s[p].1@.contains(c2);
                        if p == n - 1 {
                            assert(pre[k as int].1@.contains(c2) && c2 != c);
                            assert(rooms_prefix_has(pre, k + 1 as int, c2, r2));
                        } else {
                            assert(s[p] == res0[p]);
                            assert(rooms_has(res0, c2, r2));
                            assert(rooms_prefix_has(pre, k as int, c2, r2));
                            let t = choose|t: int|
                                0 <= t < k && (#[trigger] pre[t]).0@ == r2 && pre[t].1@.contains(
                                    c2,
                                );
                            assert(rooms_prefix_has(pre, k + 1 as int, c2, r2));
                        }
                    }
                    if rooms_prefix_has(pre, k + 1 as int, c2, r2) && c2 != c {
                        let t = choose|t: int|
                            0 <= t < k + 1 && (#[trigger] pre[t]).0@ == r2 && pre[t].1@.contains(
                                c2,
                            );
                        if t < k {
                            assert(rooms_prefix_has(pre, k as int, c2, r2));
                            assert(rooms_has(res0, c2, r2));
                            let p = choose|p: int|
                                0 <= p < res0.len() && (#[trigger] res0[p]).0@ == r2
                                    && res0[p].1@.contains(c2);
                            assert(s[p] == res0[p]);
                            assert(rooms_has(s, c2, r2));
                        } else {
                            assert(s[n - 1].1@.contains(c2));
                            assert(rooms_has(s, c2, r2));
                        }
                    }
                };
            } else {
                // entry dropped: every member of pre[k] was c
                assert forall|c2: u64, r2: Seq<char>| #[trigger]
                    rooms_has(s, c2, r2) <==> rooms_prefix_has(pre, k + 1 as int, c2, r2) && c2
                    != c by {
                    if rooms_has(s, c2, r2) {
                        assert(rooms_prefix_has(pre, k as int, c2, r2));
                        let t = choose|t: int|
                            0 <= t < k && (#[trigger] pre[t]).0@ == r2 && pre[t].1@.contains(c2);
                        assert(rooms_prefix_has(pre, k + 1 as int, c2, r2));
                    }
                    if rooms_prefix_has(pre, k + 1 as int, c2, r2) && c2 != c {
                        let t = choose|t: int|
                            0 <= t < k + 1 && (#[trigger] pre[t]).0@ == r2 && pre[t].1@.contains(
                                c2,
                            );
                        if t == k {
                            assert(filtered@.contains(c2));
                            assert(filtered@.len() == 0);
                            let u = choose|u: int|
                                0 <= u < filtered@.len() && filtered@[u] == c2;
                            assert(false);
                        } else {
                            assert(rooms_prefix_has(pre, k as int, c2, r2));
                        }
                    }
                };
                assert forall|p: int| 0 <= p < s.len() implies exists|t: int|
                    0 <= t < k + 1 && (#[trigger] s[p]).0@ == pre[t].0@ by {
                    let t = choose|t: int| 0 <= t < k && (#[trigger] res0[p]).0@ == pre[t].0@;
                    assert(0 <= t < k + 1 && s[p].0@ == pre[t].0@);
                };
            }
        }
        k += 1;
    }
    *rooms = result;
    proof {
        let s = rooms@;
        assert forall|c2: u64, r2: Seq<char>| #[trigger]
            rooms_has(s, c2, r2) <==> rooms_has(pre, c2, r2) && c2 != c by {
            assert(rooms_has(s, c2, r2) <==> rooms_prefix_has(pre, pre.len() as int, c2, r2) && c2
                != c);
            if rooms_has(pre, c2, r2) {
                let t = choose|t: int|
                    0 <= t < pre.len() && (#[trigger] pre[t]).0@ == r2 && pre[t].1@.contains(c2);
                assert(rooms_prefix_has(pre, pre.len() as int, c2, r2));
            }
            if rooms_prefix_has(pre, pre.len() as int, c2, r2) {
                let t = choose|t: int|
                    0 <= t < pre.len() && (#[trigger] pre[t]).0@ == r2 && pre[t].1@.contains(c2);
                assert(rooms_has(pre, c2, r2));
            }
        };
        assert forall|r2: Seq<char>| #[trigger]
            rooms_key(s, r2) <==> exists|c2: u64| rooms_has(pre, c2, r2) && c2 != c by {
            if rooms_key(s, r2) {
                let p = choose|p: int| 0 <= p < s.len() && (#[trigger] s[p]).0@ == r2;
                let m = s[p].1@[0];
                assert(s[p].1@.contains(m));
                assert(rooms_has(s, m, r2));
                assert(rooms_has(pre, m, r2) && m != c);
            }
            if exists|c2: u64| rooms_has(pre, c2, r2) && c2 != c {
                let c2 = choose|c2: u64| rooms_has(pre, c2, r2) && c2 != c;
                assert(rooms_has(s, c2, r2));
                let p = choose|p: int|
                    0 <= p < s.len() && (#[trigger] s[p]).0@ == r2 && s[p].1@.contains(c2);
                assert(rooms_key(s, r2));
            }
        };
    }
}

/// Drops `c`'s entry from the connection direction; a no-op when absent.
fn conns_remove(conns: &mut Vec<(u64, Vec<String>)>, c: u64)
    requires
        conns_wf(old(conns)@),
    ensures
        conns_wf(final(conns)@),
        forall|c2: u64, r2: Seq<char>|
            #![trigger conns_has(final(conns)@, c2, r2)]
            conns_has(final(conns)@, c2, r2) <==> conns_has(old(conns)@, c2, r2) && c2 != c,
        !conns_key(final(conns)@, c),
        forall|c2: u64|
            #![trigger conns_key(final(conns)@, c2)]
            conns_key(final(conns)@, c2) <==> conns_key(old(conns)@, c2) && c2 != c,
{
    let ghost pre = conns@;
    match conns_find(conns, c) {
        Some(i) => {
            conns.remove(i);
            proof {
                let s = conns@;
                let n = s.len();
                assert(n == pre.len() - 1);
                assert(forall|k: int| 0 <= k < i ==> s[k] == pre[k]);
                assert(forall|k: int| i <= k < n ==> s[k] == pre[k + 1]);
                assert forall|c2: u64, r2: Seq<char>| #[trigger]
                    conns_has(s, c2, r2) <==> conns_has(pre, c2, r2) && c2 != c by {
                    if conns_has(s, c2, r2) {
                        let k = choose|k: int|
                            0 <= k < s.len() && (#[trigger] s[k]).0 == c2 && str_seq_has(
                                s[k].1@,
                                r2,
                            );
                        let k0: int = if k < i {
                            k
                        } else {
                            k + 1
                        };
                        assert(s[k] == pre[k0]);
                        assert(conns_has(pre, c2, r2));
                        assert(k0 != i);
                        assert(c2 != c);
                    }
                    if conns_has(pre, c2, r2) && c2 != c {
                        let k = choose|k: int|
                            0 <= k < pre.len() && (#[trigger] pre[k]).0 == c2 && str_seq_has(
                                pre[k].1@,
                                r2,
                            );
                        assert(k != i);
                        let k1: int = if k < i {
                            k
                        } else {
                            k - 1
                        };
                        assert(s[k1] == pre[k]);
                        assert(conns_has(s, c2, r2));
                    }
                };
                assert forall|c2: u64| #[trigger]
                    conns_key(s, c2) <==> conns_key(pre, c2) && c2 != c by {
                    if conns_key(s, c2) {
                        let k = choose|k: int| 0 <= k < s.len() && (#[trigger] s[k]).0 == c2;
                        let k0: int = if k < i {
                            k
                        } else {
                            k + 1
                        };
                        assert(s[k] == pre[k0]);
                        assert(k0 != i);
                    }
                    if conns_key(pre, c2) && c2 != c {
                        let k = choose|k: int| 0 <= k < pre.len() && (#[trigger] pre[k]).0 == c2;
                        assert(k != i);
                        let k1: int = if k < i {
                            k
                        } else {
                            k - 1
                        };
                        assert(s[k1] == pre[k]);
                    }
                };
                assert forall|p: int, q: int|
                    0 <= p < q < s.len() implies (#[trigger] s[p]).0 != (#[trigger] s[q]).0 by {
                    let p0: int = if p < i {
                        p
                    } else {
                        p + 1
                    };
                    let q0: int = if q < i {
                        q
                    } else {
                        q + 1
                    };
                    assert(s[p] == pre[p0] && s[q] == pre[q0]);
                };
                assert forall|k: int| 0 <= k < s.len() implies (#[trigger] s[k]).1@.len() > 0 by {
                    let k0: int = if k < i {
                        k
                    } else {
                        k + 1
                    };
                    assert(s[k] == pre[k0]);
                };
                assert forall|k: int, p: int, q: int|
                    0 <= k < s.len() && 0 <= p < q < s[k].1@.len() implies (
                #[trigger] s[k].1@[p])@ != (#[trigger] s[k].1@[q])@ by {
                    let k0: int = if k < i {
                        k
                    } else {
                        k + 1
                    };
                    assert(s[k] == pre[k0]);
                };
            }
        },
        None => {
            proof {
                assert forall|c2: u64, r2: Seq<char>| #[trigger]
                    conns_has(conns@, c2, r2) <==> conns_has(pre, c2, r2) && c2 != c by {
                    if conns_has(pre, c2, r2) && c2 == c {
                        let k = choose|k: int|
                            0 <= k < pre.len() && (#[trigger] pre[k]).0 == c2 && str_seq_has(
                                pre[k].1@,
                                r2,
                            );
                    }
                };
                if conns_key(conns@, c) {
                    let k = choose|k: int| 0 <= k < conns@.len() && (#[trigger] conns@[k]).0 == c;
                }
            }
        },
    }
}

} // verus!
