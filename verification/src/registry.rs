//! Connection registry.
//!
//! Maps a live connection id to its outbound delivery handle.  The handle
//! type is a parameter: the registry only stores and returns it, it never
//! invokes it — delivery itself is an outbound write the caller performs
//! with the handle looked up here, treating a failed write as a non-fatal
//! signal to skip that recipient.

use vstd::prelude::*;

verus! {

/// The registry lists connection `id` with handle `h`.
pub open spec fn reg_has<H>(es: Seq<(u64, H)>, id: u64, h: H) -> bool {
    exists|i: int| 0 <= i < es.len() && (#[trigger] es[i]).0 == id && es[i].1 == h
}

/// The registry has an entry for connection `id`.
pub open spec fn reg_key<H>(es: Seq<(u64, H)>, id: u64) -> bool {
    exists|i: int| 0 <= i < es.len() && (#[trigger] es[i]).0 == id
}

/// Connection ids are pairwise distinct.
pub open spec fn reg_wf<H>(es: Seq<(u64, H)>) -> bool {
    forall|i: int, j: int| 0 <= i < j < es.len() ==> (#[trigger] es[i]).0 != (#[trigger] es[j]).0
}

/// The connection registry: one outbound handle per live connection.
pub struct ConnectionRegistry<H> {
    entries: Vec<(u64, H)>,
}

impl<H> ConnectionRegistry<H> {
    /// The registry lists `id` with handle `h`.
    pub closed spec fn has_entry(self, id: u64, h: H) -> bool {
        reg_has(self.entries@, id, h)
    }

    /// The registry has an entry for `id`.
    pub closed spec fn contains_id(self, id: u64) -> bool {
        reg_key(self.entries@, id)
    }

    /// Structural invariant: at most one entry per connection id.
    pub closed spec fn wf(self) -> bool {
        reg_wf(self.entries@)
    }

    /// An empty registry.
    pub fn new() -> (r: ConnectionRegistry<H>)
        ensures
            r.wf(),
            forall|id: u64| !r.contains_id(id),
            forall|id: u64, h: H| !r.has_entry(id, h),
    {
        ConnectionRegistry { entries: Vec::new() }
    }

    /// Inserts or replaces the entry for `id`: afterwards `id` maps to `h`
    /// and exactly that, and every other connection's entry is unchanged.
    pub fn register(&mut self, id: u64, h: H)
        requires
            old(self).wf(),
        ensures
            final(self).wf(),
            forall|id2: u64, h2: H|
                #![trigger final(self).has_entry(id2, h2)]
                final(self).has_entry(id2, h2) <==> (old(self).has_entry(id2, h2) && id2 != id) || (
                id2 == id && h2 == h),
            final(self).contains_id(id),
            forall|id2: u64|
                #![trigger final(self).contains_id(id2)]
                final(self).contains_id(id2) <==> old(self).contains_id(id2) || id2 == id,
    {
        let ghost pre = self.entries@;
        match reg_find(&self.entries, id) {
            Some(i) => {
                self.entries.remove(i);
                let ghost mid = self.entries@;
                self.entries.push((id, h));
                proof {
                    let s = self.entries@;
                    let n = s.len();
                    assert(n == pre.len());
                    assert(forall|k: int| 0 <= k < i ==> s[k] == pre[k]);
                    assert(forall|k: int| i <= k < n - 1 ==> s[k] == pre[k + 1]);
                    assert(s[n - 1] == (id, h));
                    assert forall|id2: u64, h2: H| #[trigger]
                        reg_has(s, id2, h2) <==> (reg_has(pre, id2, h2) && id2 != id) || (id2 == id
                        && h2 == h) by {
                        if reg_has(s, id2, h2) {
                            let k = choose|k: int|
                                0 <= k < s.len() && (#[trigger] s[k]).0 == id2 && s[k].1 == h2;
                            if k < n - 1 {
                                let k0: int = if k < i {
                                    k
                                } else {
                                    k + 1
                                };
                                assert(s[k] == pre[k0]);
                                assert(reg_has(pre, id2, h2));
                                assert(k0 != i);
                            }
                        }
                        if reg_has(pre, id2, h2) && id2 != id {
                            let k = choose|k: int|
                                0 <= k < pre.len() && (#[trigger] pre[k]).0 == id2 && pre[k].1
                                    == h2;
                            assert(k != i);
                            let k1: int = if k < i {
                                k
                            } else {
                                k - 1
                            };
                            assert(s[k1] == pre[k]);
                        }
                    };
                    assert forall|id2: u64| #[trigger]
                        reg_key(s, id2) <==> reg_key(pre, id2) || id2 == id by {
                        if reg_key(s, id2) {
                            let k = choose|k: int| 0 <= k < s.len() && (#[trigger] s[k]).0 == id2;
                            if k < n - 1 {
                                let k0: int = if k < i {
                                    k
                                } else {
                                    k + 1
                                };
                                assert(s[k] == pre[k0]);
                            }
                        }
                        if reg_key(pre, id2) && id2 != id {
                            let k = choose|k: int| 0 <= k < pre.len() && (#[trigger] pre[k]).0 == id2;
                            assert(k != i);
                            let k1: int = if k < i {
                                k
                            } else {
                                k - 1
                            };
                            assert(s[k1] == pre[k]);
                        }
                    };
                    assert forall|p: int, q: int|
                        0 <= p < q < s.len() implies (#[trigger] s[p]).0 != (#[trigger] s[q]).0 by {
                        let p0: int = if p < i {
                            p
                        } else {
                            p + 1
                        };
                        if q == n - 1 {
                            assert(s[p] == pre[p0]);
                            assert(p0 != i);
                            assert(pre[p0].0 != pre[i as int].0);
                            assert(pre[i as int].0 == id);
                        } else {
                            let q0: int = if q < i {
                                q
                            } else {
                                q + 1
                            };
                            assert(s[p] == pre[p0] && s[q] == pre[q0]);
                        }
                    };
                }
            },
            None => {
                self.entries.push((id, h));
                proof {
                    let s = self.entries@;
                    let n = s.len();
                    assert(forall|k: int| 0 <= k < n - 1 ==> s[k] == pre[k]);
                    assert(s[n - 1] == (id, h));
                    assert forall|id2: u64, h2: H| #[trigger]
                        reg_has(s, id2, h2) <==> (reg_has(pre, id2, h2) && id2 != id) || (id2 == id
                        && h2 == h) by {
                        if reg_has(s, id2, h2) {
                            let k = choose|k: int|
                                0 <= k < s.len() && (#[trigger] s[k]).0 == id2 && s[k].1 == h2;
                            if k < n - 1 {
                                assert(reg_has(pre, id2, h2));
                                assert(pre[k].0 != id);
                            }
                        }
                        if reg_has(pre, id2, h2) && id2 != id {
                            let k = choose|k: int|
                                0 <= k < pre.len() && (#[trigger] pre[k]).0 == id2 && pre[k].1
                                    == h2;
                            assert(s[k] == pre[k]);
                        }
                    };
                    assert forall|id2: u64| #[trigger]
                        reg_key(s, id2) <==> reg_key(pre, id2) || id2 == id by {
                        if reg_key(s, id2) {
                            let k = choose|k: int| 0 <= k < s.len() && (#[trigger] s[k]).0 == id2;
                            if k < n - 1 {
                                assert(reg_key(pre, id2));
                            }
                        }
                        if reg_key(pre, id2) {
                            let k = choose|k: int| 0 <= k < pre.len() && (#[trigger] pre[k]).0 == id2;
                            assert(s[k] == pre[k]);
                        }
                    };
                    assert forall|p: int, q: int|
                        0 <= p < q < s.len() implies (#[trigger] s[p]).0 != (#[trigger] s[q]).0 by {
                        if q == n - 1 {
                            assert(s[p] == pre[p]);
                            assert(reg_key(pre, pre[p].0));
                        } else {
                            assert(s[p] == pre[p] && s[q] == pre[q]);
                        }
                    };
                }
            },
        }
    }

    /// Removes the entry for `id`; removing an absent id is a no-op, not an
    /// error.
    pub fn deregister(&mut self, id: u64)
        requires
            old(self).wf(),
        ensures
            final(self).wf(),
            forall|id2: u64, h2: H|
                #![trigger final(self).has_entry(id2, h2)]
                final(self).has_entry(id2, h2) <==> old(self).has_entry(id2, h2) && id2 != id,
            !final(self).contains_id(id),
            forall|id2: u64|
                #![trigger final(self).contains_id(id2)]
                final(self).contains_id(id2) <==> old(self).contains_id(id2) && id2 != id,
    {
        let ghost pre = self.entries@;
        match reg_find(&self.entries, id) {
            Some(i) => {
                self.entries.remove(i);
                proof {
                    let s = self.entries@;
                    let n = s.len();
                    assert(forall|k: int| 0 <= k < i ==> s[k] == pre[k]);
                    assert(forall|k: int| i <= k < n ==> s[k] == pre[k + 1]);
                    assert forall|id2: u64, h2: H| #[trigger]
                        reg_has(s, id2, h2) <==> reg_has(pre, id2, h2) && id2 != id by {
                        if reg_has(s, id2, h2) {
                            let k = choose|k: int|
                                0 <= k < s.len() && (#[trigger] s[k]).0 == id2 && s[k].1 == h2;
                            let k0: int = if k < i {
                                k
                            } else {
                                k + 1
                            };
                            assert(s[k] == pre[k0]);
                            assert(reg_has(pre, id2, h2));
                            assert(k0 != i);
                        }
                        if reg_has(pre, id2, h2) && id2 != id {
                            let k = choose|k: int|
                                0 <= k < pre.len() && (#[trigger] pre[k]).0 == id2 && pre[k].1
                                    == h2;
                            assert(k != i);
                            let k1: int = if k < i {
                                k
                            } else {
                                k - 1
                            };
                            assert(s[k1] == pre[k]);
                        }
                    };
                    assert forall|id2: u64| #[trigger]
                        reg_key(s, id2) <==> reg_key(pre, id2) && id2 != id by {
                        if reg_key(s, id2) {
                            let k = choose|k: int| 0 <= k < s.len() && (#[trigger] s[k]).0 == id2;
                            let k0: int = if k < i {
                                k
                            } else {
                                k + 1
                            };
                            assert(s[k] == pre[k0]);
                            assert(k0 != i);
                        }
                        if reg_key(pre, id2) && id2 != id {
                            let k = choose|k: int| 0 <= k < pre.len() && (#[trigger] pre[k]).0 == id2;
                            assert(k != i);
                            let k1: int = if k < i {
                                k
                            } else {
                                k - 1
                            };
                            assert(s[k1] == pre[k]);
                        }
                    };
                    assert forall|p: int, q: int|
                        0 <= p < q < s.len() implies (#[trigger] s[p]).0 != (#[trigger] s[q]).0 by {
                        let p0: int = if p < i {
                            p
                        } else {
                            p + 1
                        };
                        let q0: int = if q < i {
                            q
                        } else {
                            q + 1
                        };
                        assert(s[p] == pre[p0] && s[q] == pre[q0]);
                    };
                }
            },
            None => {
                proof {
                    if reg_key(self.entries@, id) {
                        let k = choose|k: int|
                            0 <= k < self.entries@.len() && (#[trigger] self.entries@[k]).0 == id;
                    }
                    assert forall|id2: u64, h2: H| #[trigger]
                        reg_has(self.entries@, id2, h2) <==> reg_has(pre, id2, h2) && id2 != id by {
                        if reg_has(pre, id2, h2) && id2 == id {
                            let k = choose|k: int|
                                0 <= k < pre.len() && (#[trigger] pre[k]).0 == id2 && pre[k].1
                                    == h2;
                        }
                    };
                }
            },
        }
    }

    /// Looks up the handle of `id`: the registered handle when present,
    /// nothing when `id` is not registered.
    pub fn get(&self, id: u64) -> (r: Option<&H>)
        requires
            self.wf(),
        ensures
            match r {
                Some(h) => self.has_entry(id, *h),
                None => !self.contains_id(id),
            },
    {
        match reg_find(&self.entries, id) {
            Some(i) => {
                let h = &self.entries[i].1;
                proof {
                    assert(reg_has(self.entries@, id, *h));
                }
                Some(h)
            },
            None => {
                proof {
                    if reg_key(self.entries@, id) {
                        let k = choose|k: int|
                            0 <= k < self.entries@.len() && (#[trigger] self.entries@[k]).0 == id;
                    }
                }
                None
            },
        }
    }
}

/// Finds the entry of `id`.
fn reg_find<H>(es: &Vec<(u64, H)>, id: u64) -> (r: Option<usize>)
    ensures
        match r {
            Some(i) => i < es@.len() && es@[i as int].0 == id,
            None => forall|t: int| 0 <= t < es@.len() ==> (#[trigger] es@[t]).0 != id,
        },
{
    let mut i: usize = 0;
    while i < es.len()
        invariant
            i <= es@.len(),
            forall|t: int| 0 <= t < i ==> (#[trigger] es@[t]).0 != id,
        decreases es@.len() - i,
    {
        if es[i].0 == id {
            return Some(i);
        }
        i += 1;
    }
    None
}

} // verus!
