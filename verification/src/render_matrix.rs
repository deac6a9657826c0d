//! The nodes whose render matrix must be computed again: a mark per node
//! slot and the list of the marked nodes.
use vstd::prelude::*;

verus! {

/// The render-matrix bookkeeping.
#[derive(Debug)]
pub struct RenderMatrixSys {
    /// The nodes whose render matrix is to be computed, in the order they were marked.
    pub dirtys: Vec<usize>,
    /// Per node slot: absent for a node that does not exist, else whether it is marked.
    pub dirty_mark: Vec<Option<bool>>,
}

/// The list holds each marked node once and nothing else.
pub open spec fn matrix_marks_exact(dirtys: Seq<usize>, marks: Seq<Option<bool>>) -> bool {
    &&& dirtys.no_duplicates()
    &&& forall|k: int| 0 <= k < dirtys.len() ==> #[trigger] dirtys[k] < marks.len()
    &&& forall|x: int| 0 <= x < marks.len() ==> (#[trigger] marks[x] == Some(true) <==> dirtys.contains(x as usize))
}

/// `r` is `s` without its first occurrence of `id` (and `s` when there is none).
pub open spec fn without_first(s: Seq<usize>, id: usize, r: Seq<usize>) -> bool {
    if s.contains(id) {
        exists|i: int|
            0 <= i < s.len() && s[i] == id && (forall|k: int| 0 <= k < i ==> s[k] != id) && r == s.remove(i)
    } else {
        r == s
    }
}

/// The mark slot of `id`, when it exists.
pub open spec fn mark_at(marks: Seq<Option<bool>>, id: int) -> Option<bool> {
    if 0 <= id < marks.len() {
        marks[id]
    } else {
        None
    }
}

impl RenderMatrixSys {
    /// No node, nothing marked.
    pub fn new() -> (r: Self)
        ensures
            r.dirtys@ == Seq::<usize>::empty(),
            r.dirty_mark@ == Seq::<Option<bool>>::empty(),
    {
        RenderMatrixSys { dirtys: Vec::new(), dirty_mark: Vec::new() }
    }

    /// Node `id` is created: it is marked and listed.
    pub fn on_node_create(&mut self, id: usize)
        requires
            id < usize::MAX,
        ensures
            final(self).dirtys@ == old(self).dirtys@.push(id),
            final(self).dirty_mark@.len() == if id < old(self).dirty_mark@.len() {
                old(self).dirty_mark@.len() as int
            } else {
                id + 1
            },
            forall|x: int|
                0 <= x < final(self).dirty_mark@.len() ==> #[trigger] final(self).dirty_mark@[x] == if x == id {
                    Some(true)
                } else {
                    mark_at(old(self).dirty_mark@, x)
                },
            matrix_marks_exact(old(self).dirtys@, old(self).dirty_mark@) && mark_at(old(self).dirty_mark@, id as int)
                != Some(true) ==> matrix_marks_exact(final(self).dirtys@, final(self).dirty_mark@),
    {
        let ghost m0 = self.dirty_mark@;
        let ghost d0 = self.dirtys@;
        while self.dirty_mark.len() <= id
            invariant
                id < usize::MAX,
                self.dirty_mark@.len() >= m0.len(),
                self.dirty_mark@.len() <= if id < m0.len() { m0.len() as int } else { id + 1 },
                forall|x: int| 0 <= x < self.dirty_mark@.len() ==> #[trigger] self.dirty_mark@[x] == mark_at(m0, x),
                self.dirtys@ == d0,
            decreases id + 1 - self.dirty_mark@.len(),
        {
            self.dirty_mark.push(None);
        }
        self.dirty_mark.set(id, Some(true));
        self.dirtys.push(id);
        proof {
            if matrix_marks_exact(d0, m0) && mark_at(m0, id as int) != Some(true) {
                let d = self.dirtys@;
                let m = self.dirty_mark@;
                assert(!d0.contains(id)) by {
                    if d0.contains(id) {
                        let k = choose|k: int| 0 <= k < d0.len() && d0[k] == id;
                        assert(d0[k] < m0.len());
                        assert(m0[id as int] == Some(true));
                    }
                }
                assert forall|a: int, b: int| 0 <= a < b < d.len() implies d[a] != d[b] by {
                    if b == d0.len() {
                        assert(d0[a] != id);
                    }
                }
                assert forall|x: int| 0 <= x < m.len() implies (#[trigger] m[x] == Some(true) <==> d.contains(
                    x as usize,
                )) by {
                    if x == id {
                        assert(d[d0.len() as int] == id);
                    } else {
                        if d.contains(x as usize) {
                            let k = choose|k: int| 0 <= k < d.len() && d[k] == x as usize;
                            assert(k < d0.len());
                            assert(d0[k] == x as usize);
                        }
                        if x < m0.len() && m0[x] == Some(true) {
                            let k = choose|k: int| 0 <= k < d0.len() && d0[k] == x as usize;
                            assert(d[k] == x as usize);
                        }
                    }
                }
            }
        }
    }

    /// Node `id` is deleted: its mark is removed and, when it was marked, its
    /// first entry in the list too.
    pub fn on_node_delete(&mut self, id: usize)
        requires
            mark_at(old(self).dirty_mark@, id as int) is Some,
        ensures
            final(self).dirty_mark@ == old(self).dirty_mark@.update(id as int, None),
            mark_at(old(self).dirty_mark@, id as int) == Some(true) ==> without_first(
                old(self).dirtys@,
                id,
                final(self).dirtys@,
            ),
            mark_at(old(self).dirty_mark@, id as int) == Some(false) ==> final(self).dirtys@ == old(self).dirtys@,
            matrix_marks_exact(old(self).dirtys@, old(self).dirty_mark@) ==> matrix_marks_exact(
                final(self).dirtys@,
                final(self).dirty_mark@,
            ),
    {
        let ghost d0 = self.dirtys@;
        let ghost m0 = self.dirty_mark@;
        let slots: usize = self.dirty_mark.len();
        proof {
            assert(m0.len() == slots);
        }
        let was = self.dirty_mark[id].unwrap();
        self.dirty_mark.set(id, None);
        if was {
            let mut i: usize = 0;
            while i < self.dirtys.len()
                invariant
                    self.dirtys@ == d0,
                    self.dirty_mark@ == m0.update(id as int, None),
                    d0 == old(self).dirtys@,
                    m0 == old(self).dirty_mark@,
                    mark_at(m0, id as int) == Some(true),
                    m0.len() <= usize::MAX,
                    i <= d0.len(),
                    forall|k: int| 0 <= k < i ==> d0[k] != id,
                decreases d0.len() - i,
            {
                if self.dirtys[i] == id {
                    self.dirtys.remove(i);
                    proof {
                        assert(without_first(d0, id, self.dirtys@));
                        if matrix_marks_exact(d0, m0) {
                            lemma_exact_after_remove(d0, m0, id, i as int, self.dirtys@, self.dirty_mark@);
                        }
                    }
                    return ;
                }
                i = i + 1;
            }
            proof {
                assert(!d0.contains(id)) by {
                    if d0.contains(id) {
                        let k = choose|k: int| 0 <= k < d0.len() && d0[k] == id;
                    }
                }
                if matrix_marks_exact(d0, m0) {
                    assert(m0[id as int] == Some(true));
                    assert(false);
                }
            }
        } else {
            proof {
                if matrix_marks_exact(d0, m0) {
                    let m = self.dirty_mark@;
                    assert forall|x: int| 0 <= x < m.len() implies (#[trigger] m[x] == Some(true) <==> d0.contains(
                        x as usize,
                    )) by {
                        if x == id {
                            assert(m0[x] == Some(false));
                        } else {
                            assert(m[x] == m0[x]);
                        }
                    }
                }
            }
        }
    }

    /// The world matrix of `id` changed: an unmarked node is marked and listed.
    pub fn on_world_matrix_modify(&mut self, id: usize)
        requires
            mark_at(old(self).dirty_mark@, id as int) is Some,
        ensures
            mark_at(old(self).dirty_mark@, id as int) == Some(false) ==> final(self).dirty_mark@ == old(
                self,
            ).dirty_mark@.update(id as int, Some(true)) && final(self).dirtys@ == old(self).dirtys@.push(id),
            mark_at(old(self).dirty_mark@, id as int) == Some(true) ==> final(self).dirty_mark@ == old(
                self,
            ).dirty_mark@ && final(self).dirtys@ == old(self).dirtys@,
            matrix_marks_exact(old(self).dirtys@, old(self).dirty_mark@) ==> matrix_marks_exact(
                final(self).dirtys@,
                final(self).dirty_mark@,
            ),
    {
        let ghost d0 = self.dirtys@;
        let ghost m0 = self.dirty_mark@;
        let slots: usize = self.dirty_mark.len();
        proof {
            assert(m0.len() == slots);
        }
        if self.dirty_mark[id] == Some(false) {
            self.dirty_mark.set(id, Some(true));
            self.dirtys.push(id);
            proof {
                if matrix_marks_exact(d0, m0) {
                    let d = self.dirtys@;
                    let m = self.dirty_mark@;
                    assert(!d0.contains(id));
                    assert forall|a: int, b: int| 0 <= a < b < d.len() implies d[a] != d[b] by {
                        if b == d0.len() {
                            assert(d0[a] != id);
                        }
                    }
                    assert forall|x: int| 0 <= x < m.len() implies (#[trigger] m[x] == Some(true) <==> d.contains(
                        x as usize,
                    )) by {
                        if x == id {
                            assert(d[d0.len() as int] == id);
                        } else {
                            if d.contains(x as usize) {
                                let k = choose|k: int| 0 <= k < d.len() && d[k] == x as usize;
                                assert(k < d0.len());
                                assert(d0[k] == x as usize);
                            }
                            if m0[x] == Some(true) {
                                let k = choose|k: int| 0 <= k < d0.len() && d0[k] == x as usize;
                                assert(d[k] == x as usize);
                            }
                        }
                    }
                }
            }
        }
    }

    /// Takes the listed nodes, in order, whose render matrix the caller
    /// computes: their marks are cleared and the list is emptied.
    pub fn take_dirtys(&mut self) -> (r: Vec<usize>)
        requires
            forall|k: int| 0 <= k < old(self).dirtys@.len() ==> mark_at(old(self).dirty_mark@, #[trigger] old(self).dirtys@[k] as int) is Some,
        ensures
            r@ == old(self).dirtys@,
            final(self).dirtys@ == Seq::<usize>::empty(),
            final(self).dirty_mark@.len() == old(self).dirty_mark@.len(),
            forall|x: int|
                0 <= x < old(self).dirty_mark@.len() ==> #[trigger] final(self).dirty_mark@[x] == if old(
                    self,
                ).dirtys@.contains(x as usize) {
                    Some(false)
                } else {
                    old(self).dirty_mark@[x]
                },
            matrix_marks_exact(old(self).dirtys@, old(self).dirty_mark@) ==> matrix_marks_exact(
                final(self).dirtys@,
                final(self).dirty_mark@,
            ),
    {
        let ghost d0 = self.dirtys@;
        let ghost m0 = self.dirty_mark@;
        let slots: usize = self.dirty_mark.len();
        proof {
            assert(m0.len() == slots);
        }
        let mut i: usize = 0;
        while i < self.dirtys.len()
            invariant
                self.dirtys@ == d0,
                m0.len() <= usize::MAX,
                i <= d0.len(),
                forall|k: int| 0 <= k < d0.len() ==> mark_at(m0, #[trigger] d0[k] as int) is Some,
                self.dirty_mark@.len() == m0.len(),
                forall|x: int|
                    0 <= x < m0.len() ==> #[trigger] self.dirty_mark@[x] == if d0.take(i as int).contains(x as usize) {
                        Some(false)
                    } else {
                        m0[x]
                    },
            decreases d0.len() - i,
        {
            let id = self.dirtys[i];
            proof {
                assert(mark_at(m0, d0[i as int] as int) is Some);
            }
            self.dirty_mark.set(id, Some(false));
            proof {
                assert forall|x: int| 0 <= x < m0.len() implies #[trigger] self.dirty_mark@[x] == (if d0.take(
                    i + 1,
                ).contains(x as usize) {
                    Some(false)
                } else {
                    m0[x]
                }) by {
                    let t1 = d0.take(i + 1);
                    let t0 = d0.take(i as int);
                    assert(t1 =~= t0.push(id));
                    if t1.contains(x as usize) {
                        let k = choose|k: int| 0 <= k < t1.len() && t1[k] == x as usize;
                        if k < i {
                            assert(t0[k] == x as usize);
                        }
                    }
                    if t0.contains(x as usize) {
                        let k = choose|k: int| 0 <= k < t0.len() && t0[k] == x as usize;
                        assert(t1[k] == x as usize);
                    }
                    if x == id {
                        assert(t1[i as int] == id);
                    }
                }
            }
            i = i + 1;
        }
        proof {
            assert(d0.take(d0.len() as int) =~= d0);
        }
        let r = self.dirtys.clone();
        self.dirtys.clear();
        proof {
            if matrix_marks_exact(d0, m0) {
                let m = self.dirty_mark@;
                assert forall|x: int| 0 <= x < m.len() implies (#[trigger] m[x] == Some(true) <==> self.dirtys@.contains(
                    x as usize,
                )) by {
                    if m[x] == Some(true) {
                        assert(!d0.contains(x as usize));
                        assert(m0[x] == Some(true));
                    }
                }
            }
        }
        r
    }
}

/// Removing the only entry of a node whose mark was taken away keeps the list exact.
proof fn lemma_exact_after_remove(
    d0: Seq<usize>,
    m0: Seq<Option<bool>>,
    id: usize,
    i: int,
    d: Seq<usize>,
    m: Seq<Option<bool>>,
)
    requires
        matrix_marks_exact(d0, m0),
        m0.len() <= usize::MAX,
        0 <= i < d0.len(),
        d0[i] == id,
        d == d0.remove(i),
        m == m0.update(id as int, None),
    ensures
        matrix_marks_exact(d, m),
{
    assert forall|a: int, b: int| 0 <= a < b < d.len() implies d[a] != d[b] by {
        let a0 = if a < i { a } else { a + 1 };
        let b0 = if b < i { b } else { b + 1 };
        assert(d[a] == d0[a0] && d[b] == d0[b0]);
    }
    assert forall|k: int| 0 <= k < d.len() implies #[trigger] d[k] < m.len() by {
        let k0 = if k < i { k } else { k + 1 };
        assert(d[k] == d0[k0]);
    }
    assert forall|x: int| 0 <= x < m.len() implies (#[trigger] m[x] == Some(true) <==> d.contains(x as usize)) by {
        if d.contains(x as usize) {
            let k = choose|k: int| 0 <= k < d.len() && d[k] == x as usize;
            let k0 = if k < i { k } else { k + 1 };
            assert(d0[k0] == x as usize);
            assert(k0 != i);
            assert(x != id);
        }
        if x != id && m0[x] == Some(true) {
            let k0 = choose|k: int| 0 <= k < d0.len() && d0[k] == x as usize;
            assert(k0 != i);
            let k = if k0 < i { k0 } else { k0 - 1 };
            assert(d[k] == x as usize);
        }
    }
}

} // verus!
