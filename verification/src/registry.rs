//! The session registry: a map from a group key to the subscriber
//! handles currently listening under it, used for broadcast fan-out.
//!
//! A handle carries the session identity `uid`; a cloned handle keeps
//! the uid of its origin, so removing by uid drops every clone of a
//! disconnecting session. A group whose last handle leaves is removed
//! entirely. Delivery itself (pushing a message over a live transport)
//! is the caller's side; `get_all` names the targets of one broadcast,
//! in insertion order.

use vstd::prelude::*;
use crate::text::str_eq;

verus! {

/// An opaque session identity. The push capability it stands for lives
/// with the caller, keyed by this uid.
pub struct SubscriberHandle {
    pub uid: String,
}

struct GroupEntry {
    key: String,
    handles: Vec<SubscriberHandle>,
}

/// The uids of a handle sequence, in order.
pub open spec fn uids_of(hs: Seq<SubscriberHandle>) -> Seq<Seq<char>> {
    hs.map_values(|h: SubscriberHandle| h.uid@)
}

/// `us` with every occurrence of `uid` removed, order kept.
pub open spec fn without_uid(us: Seq<Seq<char>>, uid: Seq<char>) -> Seq<Seq<char>>
    decreases us.len(),
{
    if us.len() == 0 {
        Seq::empty()
    } else {
        let rest = without_uid(us.drop_last(), uid);
        if us.last() == uid {
            rest
        } else {
            rest.push(us.last())
        }
    }
}

spec fn find_idx(gs: Seq<GroupEntry>, g: Seq<char>) -> int
    decreases gs.len(),
{
    if gs.len() == 0 {
        -1
    } else if gs[0].key@ == g {
        0
    } else {
        let r = find_idx(gs.skip(1), g);
        if r < 0 {
            -1
        } else {
            r + 1
        }
    }
}

proof fn lemma_find_idx_props(gs: Seq<GroupEntry>, g: Seq<char>)
    ensures
        -1 <= find_idx(gs, g) < gs.len(),
        find_idx(gs, g) >= 0 ==> gs[find_idx(gs, g)].key@ == g,
        find_idx(gs, g) == -1 ==> forall|i: int| 0 <= i < gs.len() ==> gs[i].key@ != g,
    decreases gs.len(),
{
    if gs.len() > 0 && gs[0].key@ != g {
        lemma_find_idx_props(gs.skip(1), g);
        if find_idx(gs, g) >= 1 {
            assert(gs.skip(1)[find_idx(gs, g) - 1] == gs[find_idx(gs, g)]);
        }
        if find_idx(gs, g) == -1 {
            assert forall|i: int| 0 <= i < gs.len() implies gs[i].key@ != g by {
                if i > 0 {
                    assert(gs.skip(1)[i - 1] == gs[i]);
                }
            }
        }
    }
}

proof fn lemma_find_idx_same_keys(gs1: Seq<GroupEntry>, gs2: Seq<GroupEntry>, g: Seq<char>)
    requires
        gs1.len() == gs2.len(),
        forall|i: int| 0 <= i < gs1.len() ==> gs1[i].key@ == gs2[i].key@,
    ensures
        find_idx(gs1, g) == find_idx(gs2, g),
    decreases gs1.len(),
{
    if gs1.len() > 0 {
        assert(forall|i: int|
            0 <= i < gs1.skip(1).len() ==> gs1.skip(1)[i] == gs1[i + 1] && gs2.skip(1)[i] == gs2[i
                + 1]);
        lemma_find_idx_same_keys(gs1.skip(1), gs2.skip(1), g);
    }
}

proof fn lemma_find_idx_push(gs: Seq<GroupEntry>, e: GroupEntry, g: Seq<char>)
    ensures
        find_idx(gs.push(e), g) == if find_idx(gs, g) >= 0 {
            find_idx(gs, g)
        } else if e.key@ == g {
            gs.len() as int
        } else {
            -1
        },
    decreases gs.len(),
{
    let w = gs.push(e);
    if gs.len() == 0 {
        assert(w.len() == 1);
        assert(w[0] == e);
        assert(find_idx(gs, g) == -1);
        if e.key@ == g {
            assert(find_idx(w, g) == 0);
        } else {
            assert(w.skip(1) =~= Seq::<GroupEntry>::empty());
            assert(find_idx(w.skip(1), g) == -1);
            assert(find_idx(w, g) == -1);
        }
    } else {
        assert(w.len() == gs.len() + 1);
        assert(w[0] == gs[0]);
        assert(w.skip(1) =~= gs.skip(1).push(e));
        lemma_find_idx_push(gs.skip(1), e, g);
        let r1 = find_idx(gs.skip(1), g);
        let rw = find_idx(w.skip(1), g);
        if gs[0].key@ == g {
            assert(find_idx(gs, g) == 0);
            assert(find_idx(w, g) == 0);
        } else {
            assert(find_idx(gs, g) == if r1 < 0 {
                -1int
            } else {
                r1 + 1
            });
            assert(find_idx(w, g) == if rw < 0 {
                -1int
            } else {
                rw + 1
            });
            lemma_find_idx_props(gs.skip(1), g);
        }
    }
}

proof fn lemma_find_idx_remove(gs: Seq<GroupEntry>, at: int, g: Seq<char>)
    requires
        0 <= at < gs.len(),
        forall|i: int, j: int|
            0 <= i < j < gs.len() ==> gs[i].key@ != gs[j].key@,
    ensures
        find_idx(gs.remove(at), g) == if g == gs[at].key@ {
            -1
        } else if find_idx(gs, g) >= 0 && find_idx(gs, g) < at {
            find_idx(gs, g)
        } else if find_idx(gs, g) > at {
            find_idx(gs, g) - 1
        } else {
            -1
        },
    decreases gs.len(),
{
    let w = gs.remove(at);
    lemma_find_idx_props(gs, g);
    lemma_find_idx_props(w, g);
    if at == 0 {
        assert(w =~= gs.skip(1));
        if g == gs[0].key@ {
            if find_idx(w, g) >= 0 {
                assert(gs[find_idx(w, g) + 1].key@ == g);
            }
        }
    } else {
        assert(w[0] == gs[0]);
        assert(w.skip(1) =~= gs.skip(1).remove(at - 1));
        assert(forall|i: int|
            0 <= i < gs.skip(1).len() ==> gs.skip(1)[i] == gs[i + 1]);
        if gs[0].key@ != g {
            lemma_find_idx_remove(gs.skip(1), at - 1, g);
        }
    }
}

/// The registry itself. At most one entry per group key, and no entry
/// without handles.
pub struct SessionRegistry {
    groups: Vec<GroupEntry>,
}

impl SessionRegistry {
    /// Well-formedness: group keys are distinct and no group is empty.
    pub closed spec fn wf(self) -> bool {
        &&& forall|i: int, j: int|
            0 <= i < j < self.groups@.len() ==> self.groups@[i].key@ != self.groups@[j].key@
        &&& forall|i: int|
            0 <= i < self.groups@.len() ==> self.groups@[i].handles@.len() > 0
    }

    /// Whether any handle is registered under `g`.
    pub closed spec fn has_group(self, g: Seq<char>) -> bool {
        find_idx(self.groups@, g) >= 0
    }

    /// The uids registered under `g`, in insertion order; empty when the
    /// group is absent.
    pub closed spec fn spec_handles(self, g: Seq<char>) -> Seq<Seq<char>> {
        let i = find_idx(self.groups@, g);
        if i >= 0 {
            uids_of(self.groups@[i].handles@)
        } else {
            Seq::empty()
        }
    }

    /// An empty registry.
    pub fn new() -> (r: SessionRegistry)
        ensures
            r.wf(),
            forall|g: Seq<char>| r.spec_handles(g) == Seq::<Seq<char>>::empty(),
            forall|g: Seq<char>| !r.has_group(g),
    {
        SessionRegistry { groups: Vec::new() }
    }

    fn find_group(&self, group: &str) -> (r: Option<usize>)
        ensures
            match r {
                Some(i) => i < self.groups@.len() && find_idx(self.groups@, group@) == i,
                None => find_idx(self.groups@, group@) == -1,
            },
    {
        let mut k: usize = 0;
        let n = self.groups.len();
        while k < n
            invariant
                0 <= k <= n,
                n == self.groups@.len(),
                forall|i: int| 0 <= i < k ==> self.groups@[i].key@ != group@,
            decreases n - k,
        {
            if str_eq(self.groups[k].key.as_str(), group) {
                proof {
                    lemma_find_idx_props(self.groups@, group@);
                    lemma_find_idx_first(self.groups@, group@, k as int);
                }
                return Some(k);
            }
            k = k + 1;
        }
        proof {
            lemma_find_idx_props(self.groups@, group@);
        }
        None
    }

    /// Registers `handle` under `group`, creating the group when it is
    /// absent. Other groups are untouched.
    pub fn subscribe(&mut self, group: &str, handle: SubscriberHandle)
        requires
            old(self).wf(),
        ensures
            final(self).wf(),
            final(self).spec_handles(group@) == old(self).spec_handles(group@).push(handle.uid@),
            final(self).has_group(group@),
            forall|g: Seq<char>|
                g != group@ ==> final(self).spec_handles(g) == old(self).spec_handles(g)
                    && final(self).has_group(g) == old(self).has_group(g),
    {
        let found = self.find_group(group);
        match found {
            Some(i) => {
                let ghost pre = self.groups@;
                let entry = &mut self.groups[i];
                entry.handles.push(handle);
                proof {
                    let post = self.groups@;
                    assert(forall|k: int|
                        0 <= k < pre.len() && k != i ==> post[k] == pre[k]);
                    assert(forall|k: int| 0 <= k < pre.len() ==> post[k].key@ == pre[k].key@);
                    assert forall|g: Seq<char>| true implies find_idx(post, g) == find_idx(
                        pre,
                        g,
                    ) by {
                        lemma_find_idx_same_keys(pre, post, g);
                    }
                    assert(uids_of(post[i as int].handles@) =~~= uids_of(
                        pre[i as int].handles@,
                    ).push(handle.uid@));
                    assert forall|g: Seq<char>| g != group@ implies final(self).spec_handles(g)
                        == old(self).spec_handles(g) && final(self).has_group(g) == old(
                        self,
                    ).has_group(g) by {
                        lemma_find_idx_props(pre, g);
                        lemma_find_idx_props(pre, group@);
                        if find_idx(pre, g) >= 0 {
                            assert(post[find_idx(pre, g)] == pre[find_idx(pre, g)]);
                        }
                    }
                }
            },
            None => {
                let ghost pre = self.groups@;
                let mut handles: Vec<SubscriberHandle> = Vec::new();
                handles.push(handle);
                let entry = GroupEntry { key: group.to_owned(), handles };
                self.groups.push(entry);
                proof {
                    let post = self.groups@;
                    let e = post.last();
                    lemma_find_idx_props(pre, group@);
                    assert forall|g: Seq<char>| true implies find_idx(post, g) == (if find_idx(
                        pre,
                        g,
                    ) >= 0 {
                        find_idx(pre, g)
                    } else if e.key@ == g {
                        pre.len() as int
                    } else {
                        -1
                    }) by {
                        assert(post =~= pre.push(e));
                        lemma_find_idx_push(pre, e, g);
                    }
                    assert forall|g: Seq<char>| g != group@ && find_idx(pre, g) >= 0 implies post[find_idx(pre, g)] == pre[find_idx(pre, g)] by {
                        lemma_find_idx_props(pre, g);
                    }
                    assert(uids_of(e.handles@) =~~= Seq::<Seq<char>>::empty().push(
                        e.handles@[0].uid@,
                    ));
                    assert(final(self).spec_handles(group@) =~~= old(self).spec_handles(
                        group@,
                    ).push(e.handles@[0].uid@));
                }
            },
        }
    }

    /// Removes every handle under `group` whose uid equals `uid`; a
    /// group left empty disappears entirely. Other groups are untouched.
    pub fn unsubscribe(&mut self, group: &str, uid: &str)
        requires
            old(self).wf(),
        ensures
            final(self).wf(),
            final(self).spec_handles(group@) == without_uid(
                old(self).spec_handles(group@),
                uid@,
            ),
            final(self).has_group(group@) == (without_uid(
                old(self).spec_handles(group@),
                uid@,
            ).len() > 0),
            forall|g: Seq<char>|
                g != group@ ==> final(self).spec_handles(g) == old(self).spec_handles(g)
                    && final(self).has_group(g) == old(self).has_group(g),
    {
        let found = self.find_group(group);
        let i = match found {
            Some(i) => i,
            None => {
                return ;
            },
        };
        let ghost pre = self.groups@;
        let ghost orig_uids = uids_of(pre[i as int].handles@);
        let n = self.groups[i].handles.len();
        let mut kept: Vec<SubscriberHandle> = Vec::new();
        let mut k: usize = 0;
        while k < n
            invariant
                0 <= k <= n,
                i < self.groups@.len(),
                self.groups@ == pre,
                n == pre[i as int].handles@.len(),
                orig_uids == uids_of(pre[i as int].handles@),
                uids_of(kept@) == without_uid(orig_uids.take(k as int), uid@),
            decreases n - k,
        {
            let h = &self.groups[i].handles[k];
            let keep = !str_eq(h.uid.as_str(), uid);
            proof {
                let t = orig_uids.take(k as int + 1);
                assert(t.drop_last() =~~= orig_uids.take(k as int));
                assert(t.last() == orig_uids[k as int]);
                assert(orig_uids[k as int] == pre[i as int].handles@[k as int].uid@);
            }
            if keep {
                kept.push(SubscriberHandle { uid: h.uid.clone() });
                proof {
                    assert(uids_of(kept@) =~~= without_uid(
                        orig_uids.take(k as int + 1),
                        uid@,
                    ));
                }
            }
            k = k + 1;
        }
        proof {
            assert(orig_uids.take(n as int) =~~= orig_uids);
        }
        if kept.len() > 0 {
            let entry = &mut self.groups[i];
            entry.handles = kept;
            proof {
                let post = self.groups@;
                assert(forall|k2: int|
                    0 <= k2 < pre.len() && k2 != i ==> post[k2] == pre[k2]);
                assert(forall|k2: int| 0 <= k2 < pre.len() ==> post[k2].key@ == pre[k2].key@);
                assert forall|g: Seq<char>| true implies find_idx(post, g) == find_idx(
                    pre,
                    g,
                ) by {
                    lemma_find_idx_same_keys(pre, post, g);
                }
                assert forall|g: Seq<char>| g != group@ implies final(self).spec_handles(g)
                    == old(self).spec_handles(g) && final(self).has_group(g) == old(
                    self,
                ).has_group(g) by {
                    lemma_find_idx_props(pre, g);
                    lemma_find_idx_props(pre, group@);
                    if find_idx(pre, g) >= 0 {
                        assert(post[find_idx(pre, g)] == pre[find_idx(pre, g)]);
                    }
                }
            }
        } else {
            self.groups.remove(i);
            proof {
                let post = self.groups@;
                assert(post =~= pre.remove(i as int));
                assert(forall|k2: int| 0 <= k2 < i ==> post[k2] == pre[k2]);
                assert(forall|k2: int|
                    i <= k2 < post.len() ==> post[k2] == pre[k2 + 1]);
                assert forall|g: Seq<char>| true implies find_idx(post, g) == (if g == pre[i as int].key@ {
                    -1
                } else if find_idx(pre, g) >= 0 && find_idx(pre, g) < i {
                    find_idx(pre, g)
                } else if find_idx(pre, g) > i {
                    find_idx(pre, g) - 1
                } else {
                    -1
                }) by {
                    lemma_find_idx_remove(pre, i as int, g);
                }
                assert forall|g: Seq<char>| g != group@ implies final(self).spec_handles(g)
                    == old(self).spec_handles(g) && final(self).has_group(g) == old(
                    self,
                ).has_group(g) by {
                    lemma_find_idx_props(pre, g);
                    lemma_find_idx_props(pre, group@);
                    if find_idx(pre, g) >= 0 {
                        if find_idx(pre, g) < i {
                            assert(post[find_idx(pre, g)] == pre[find_idx(pre, g)]);
                        } else {
                            assert(post[find_idx(pre, g) - 1] == pre[find_idx(pre, g)]);
                        }
                    }
                }
            }
        }
    }

    /// The handles one broadcast to `group` reaches, in insertion
    /// order: every handle currently registered under the group, and no
    /// other. Empty when the group has no subscribers.
    pub fn get_all(&self, group: &str) -> (r: Vec<SubscriberHandle>)
        ensures
            uids_of(r@) == self.spec_handles(group@),
    {
        let found = self.find_group(group);
        let i = match found {
            Some(i) => i,
            None => {
                let r: Vec<SubscriberHandle> = Vec::new();
                proof {
                    assert(uids_of(r@) =~~= Seq::<Seq<char>>::empty());
                }
                return r;
            },
        };
        let n = self.groups[i].handles.len();
        let mut out: Vec<SubscriberHandle> = Vec::new();
        let mut k: usize = 0;
        while k < n
            invariant
                0 <= k <= n,
                i < self.groups@.len(),
                n == self.groups@[i as int].handles@.len(),
                uids_of(out@) == uids_of(self.groups@[i as int].handles@).take(k as int),
            decreases n - k,
        {
            let ghost prev = out@;
            let ghost hs = self.groups@[i as int].handles@;
            let h = &self.groups[i].handles[k];
            out.push(SubscriberHandle { uid: h.uid.clone() });
            proof {
                assert(out@.last().uid@ == hs[k as int].uid@);
                assert(uids_of(out@) =~~= uids_of(prev).push(hs[k as int].uid@));
                assert(uids_of(hs).take(k as int + 1) =~~= uids_of(hs).take(k as int).push(
                    hs[k as int].uid@,
                ));
            }
            k = k + 1;
        }
        proof {
            assert(uids_of(self.groups@[i as int].handles@).take(n as int) =~~= uids_of(
                self.groups@[i as int].handles@,
            ));
        }
        out
    }
}

/// Fan-out correctness: subscribing handles one after another to a
/// group starting from one with no subscribers leaves exactly those
/// handles registered, in insertion order — and `get_all` promises that
/// one broadcast reaches exactly the registered handles. Each step of
/// `rs` relates to the one before as `subscribe`'s contract states.
pub proof fn lemma_fanout(rs: Seq<SessionRegistry>, g: Seq<char>, us: Seq<Seq<char>>)
    requires
        rs.len() == us.len() + 1,
        rs[0].spec_handles(g).len() == 0,
        forall|k: int|
            0 <= k < us.len() ==> rs[k + 1].spec_handles(g) == rs[k].spec_handles(g).push(
                us[k],
            ),
    ensures
        rs[us.len() as int].spec_handles(g) == us,
    decreases us.len(),
{
    if us.len() == 0 {
        assert(rs[0].spec_handles(g) =~~= us);
    } else {
        let rs1 = rs.drop_last();
        let us1 = us.drop_last();
        assert(rs1[0] == rs[0]);
        assert forall|k: int|
            0 <= k < us1.len() implies rs1[k + 1].spec_handles(g) == rs1[k].spec_handles(
            g,
        ).push(us1[k]) by {
            assert(rs1[k] == rs[k]);
            assert(rs1[k + 1] == rs[k + 1]);
            assert(us1[k] == us[k]);
        }
        lemma_fanout(rs1, g, us1);
        assert(rs1[us1.len() as int] == rs[us.len() - 1]);
        assert(rs[us.len() as int].spec_handles(g) == rs[us.len() - 1].spec_handles(g).push(
            us[us.len() - 1],
        ));
        assert(rs[us.len() as int].spec_handles(g) =~~= us);
    }
}

/// No handle with the removed uid survives an unsubscribe: every
/// element of `without_uid(us, uid)` differs from `uid`, and the
/// others keep their order.
pub proof fn lemma_without_uid_removes_all(us: Seq<Seq<char>>, uid: Seq<char>)
    ensures
        forall|k: int|
            0 <= k < without_uid(us, uid).len() ==> without_uid(us, uid)[k] != uid,
    decreases us.len(),
{
    if us.len() > 0 {
        lemma_without_uid_removes_all(us.drop_last(), uid);
        let rest = without_uid(us.drop_last(), uid);
        if us.last() == uid {
            assert(without_uid(us, uid) == rest);
        } else {
            assert(without_uid(us, uid) == rest.push(us.last()));
            assert forall|k: int|
                0 <= k < without_uid(us, uid).len() implies without_uid(us, uid)[k] != uid by {
                if k < rest.len() {
                    assert(without_uid(us, uid)[k] == rest[k]);
                } else {
                    assert(without_uid(us, uid)[k] == us.last());
                }
            }
        }
    }
}

/// Unsubscribe-by-uid: two handles sharing one uid subscribed to a
/// group with no other subscribers; one `unsubscribe` of that uid
/// removes both and the group entry itself disappears. The
/// registries relate as the contracts of `subscribe` and
/// `unsubscribe` state.
pub proof fn lemma_unsubscribe_clones(
    r0: SessionRegistry,
    r1: SessionRegistry,
    r2: SessionRegistry,
    r3: SessionRegistry,
    g: Seq<char>,
    uid: Seq<char>,
)
    requires
        r0.spec_handles(g).len() == 0,
        r1.spec_handles(g) == r0.spec_handles(g).push(uid),
        r2.spec_handles(g) == r1.spec_handles(g).push(uid),
        r3.spec_handles(g) == without_uid(r2.spec_handles(g), uid),
        r3.has_group(g) == (without_uid(r2.spec_handles(g), uid).len() > 0),
    ensures
        r3.spec_handles(g).len() == 0,
        !r3.has_group(g),
{
    let two = r2.spec_handles(g);
    assert(two.len() == 2);
    assert(two.last() == uid);
    assert(two.drop_last() =~~= r1.spec_handles(g));
    assert(without_uid(two, uid) == without_uid(r1.spec_handles(g), uid));
    assert(r1.spec_handles(g).last() == uid);
    assert(r1.spec_handles(g).drop_last() =~~= r0.spec_handles(g));
    assert(without_uid(r1.spec_handles(g), uid) == without_uid(r0.spec_handles(g), uid));
    assert(r0.spec_handles(g) =~~= Seq::<Seq<char>>::empty());
    assert(without_uid(Seq::<Seq<char>>::empty(), uid) == Seq::<Seq<char>>::empty());
}

proof fn lemma_find_idx_first(gs: Seq<GroupEntry>, g: Seq<char>, i: int)
    requires
        0 <= i < gs.len(),
        gs[i].key@ == g,
        forall|k: int| 0 <= k < i ==> gs[k].key@ != g,
    ensures
        find_idx(gs, g) == i,
    decreases i,
{
    if i > 0 {
        assert(forall|k: int|
            0 <= k < i - 1 ==> gs.skip(1)[k] == gs[k + 1]);
        assert(gs.skip(1)[i - 1] == gs[i]);
        lemma_find_idx_first(gs.skip(1), g, i - 1);
    }
}

} // verus!
