//! Bounded undo/redo stacks over buffer snapshots, with the linear-history
//! laws: a run of command commits is inverted by the same number of undos,
//! redone by the same number of redos, and the undo stack never holds more
//! than the newest 500 snapshots.

use vstd::prelude::*;

verus! {

/// The most snapshots either stack retains; the oldest entry is evicted
/// beyond this.
pub const MAX_HISTORY: usize = 500;

/// An undo stack after a snapshot is pushed: appended at the top, with the
/// oldest entry evicted if the bound is now exceeded.
pub open spec fn pushed_snapshot(undo: Seq<Seq<char>>, snap: Seq<char>) -> Seq<Seq<char>> {
    let u = undo.push(snap);
    if u.len() > MAX_HISTORY {
        u.drop_first()
    } else {
        u
    }
}

/// An undo stack after a whole sequence of snapshots is pushed in order.
pub open spec fn pushed_all(undo: Seq<Seq<char>>, snaps: Seq<Seq<char>>) -> Seq<Seq<char>>
    decreases snaps.len(),
{
    if snaps.len() == 0 {
        undo
    } else {
        pushed_all(pushed_snapshot(undo, snaps[0]), snaps.drop_first())
    }
}

/// Bounded history: pushing any sequence of snapshots retains exactly the
/// newest `MAX_HISTORY` of the stack-then-snapshots sequence, evicting the
/// oldest ones. In particular 600 pushes onto an empty stack keep the newest
/// 500 and evict the oldest 100.
pub proof fn lemma_bounded_history(undo: Seq<Seq<char>>, snaps: Seq<Seq<char>>)
    requires
        undo.len() <= MAX_HISTORY,
    ensures
        ({
            let full = undo + snaps;
            let cut = if full.len() <= MAX_HISTORY {
                0int
            } else {
                full.len() - MAX_HISTORY
            };
            pushed_all(undo, snaps) == full.skip(cut)
        }),
    decreases snaps.len(),
{
    let full = undo + snaps;
    let cut = if full.len() <= MAX_HISTORY {
        0int
    } else {
        full.len() - MAX_HISTORY
    };
    if snaps.len() == 0 {
        assert(full.skip(cut) =~= undo);
    } else {
        let u1 = pushed_snapshot(undo, snaps[0]);
        assert(u1.len() <= MAX_HISTORY);
        lemma_bounded_history(u1, snaps.drop_first());
        let full1 = u1 + snaps.drop_first();
        let cut1 = if full1.len() <= MAX_HISTORY {
            0int
        } else {
            full1.len() - MAX_HISTORY
        };
        assert(pushed_all(undo, snaps) == full1.skip(cut1));
        assert(full1.skip(cut1) =~= full.skip(cut));
    }
}

/// The abstract state that the history discipline governs: both stacks and
/// the current working buffer.
pub struct HistModel {
    pub undo: Seq<Seq<char>>,
    pub redo: Seq<Seq<char>>,
    pub buffer: Seq<char>,
}

/// A command commit: the pre-mutation buffer is snapshotted onto the undo
/// stack, the redo stack is invalidated, and the buffer becomes `new_buf`.
pub open spec fn committed(m: HistModel, new_buf: Seq<char>) -> HistModel {
    HistModel {
        undo: pushed_snapshot(m.undo, m.buffer),
        redo: Seq::empty(),
        buffer: new_buf,
    }
}

/// The state after a sequence of command commits, in order.
pub open spec fn committed_all(m: HistModel, bufs: Seq<Seq<char>>) -> HistModel
    decreases bufs.len(),
{
    if bufs.len() == 0 {
        m
    } else {
        committed_all(committed(m, bufs[0]), bufs.drop_first())
    }
}

/// One undo: restore the top undo snapshot, saving the current buffer for
/// redo; a no-op when there is nothing to undo.
pub open spec fn undone(m: HistModel) -> HistModel {
    if m.undo.len() == 0 {
        m
    } else {
        HistModel { undo: m.undo.drop_last(), redo: m.redo.push(m.buffer), buffer: m.undo.last() }
    }
}

/// One redo: restore the top redo snapshot, saving the current buffer for
/// undo; a no-op when there is nothing to redo.
pub open spec fn redone(m: HistModel) -> HistModel {
    if m.redo.len() == 0 {
        m
    } else {
        HistModel { undo: m.undo.push(m.buffer), redo: m.redo.drop_last(), buffer: m.redo.last() }
    }
}

pub open spec fn undone_n(m: HistModel, n: nat) -> HistModel
    decreases n,
{
    if n == 0 {
        m
    } else {
        undone_n(undone(m), (n - 1) as nat)
    }
}

pub open spec fn redone_n(m: HistModel, n: nat) -> HistModel
    decreases n,
{
    if n == 0 {
        m
    } else {
        redone_n(redone(m), (n - 1) as nat)
    }
}

proof fn lemma_committed_all_snoc(m: HistModel, bufs: Seq<Seq<char>>)
    requires
        bufs.len() > 0,
    ensures
        committed_all(m, bufs) == committed(committed_all(m, bufs.drop_last()), bufs.last()),
    decreases bufs.len(),
{
    if bufs.len() == 1 {
        assert(bufs.drop_last() =~= Seq::<Seq<char>>::empty());
        assert(bufs.drop_first() =~= Seq::<Seq<char>>::empty());
        assert(committed_all(m, bufs) == committed_all(committed(m, bufs[0]), bufs.drop_first()));
        assert(committed_all(committed(m, bufs[0]), Seq::<Seq<char>>::empty()) == committed(
            m,
            bufs[0],
        ));
        assert(committed_all(m, Seq::<Seq<char>>::empty()) == m);
        assert(bufs.last() == bufs[0]);
    } else {
        lemma_committed_all_snoc(committed(m, bufs[0]), bufs.drop_first());
        assert(bufs.drop_first().drop_last() =~= bufs.drop_last().drop_first());
        assert(bufs.drop_first().last() == bufs.last());
        assert(bufs.drop_last()[0] == bufs[0]);
        assert(committed_all(m, bufs) == committed_all(committed(m, bufs[0]), bufs.drop_first()));
        assert(bufs.drop_last().len() > 0);
        assert(committed_all(m, bufs.drop_last()) == committed_all(
            committed(m, bufs.drop_last()[0]),
            bufs.drop_last().drop_first(),
        ));
    }
}

proof fn lemma_committed_all_undo_len(m: HistModel, bufs: Seq<Seq<char>>)
    requires
        m.undo.len() + bufs.len() <= MAX_HISTORY,
    ensures
        committed_all(m, bufs).undo.len() == m.undo.len() + bufs.len(),
    decreases bufs.len(),
{
    if bufs.len() > 0 {
        lemma_committed_all_undo_len(committed(m, bufs[0]), bufs.drop_first());
    }
}

/// Unwinding: from the state after `bufs` commits (with any redo stack `r`
/// in place), `bufs.len()` undos restore the original stacks and buffer,
/// leaving the undone buffers on the redo stack, newest first.
proof fn lemma_unwind(m: HistModel, bufs: Seq<Seq<char>>, r: Seq<Seq<char>>)
    requires
        m.undo.len() + bufs.len() <= MAX_HISTORY,
    ensures
        ({
            let w = committed_all(m, bufs);
            let v = HistModel { undo: w.undo, redo: r, buffer: w.buffer };
            &&& undone_n(v, bufs.len()).undo == m.undo
            &&& undone_n(v, bufs.len()).buffer == m.buffer
            &&& undone_n(v, bufs.len()).redo == r + bufs.reverse()
        }),
    decreases bufs.len(),
{
    let w = committed_all(m, bufs);
    let v = HistModel { undo: w.undo, redo: r, buffer: w.buffer };
    if bufs.len() == 0 {
        assert(undone_n(v, 0) == v);
        assert(r + bufs.reverse() =~= r);
    } else {
        let head = bufs.drop_last();
        lemma_committed_all_snoc(m, bufs);
        let mm = committed_all(m, head);
        lemma_committed_all_undo_len(m, head);
        assert(w.undo == mm.undo.push(mm.buffer));
        let v1 = undone(v);
        assert(v1.undo =~= mm.undo);
        assert(v1.buffer == mm.buffer);
        assert(v1.redo == r.push(w.buffer));
        lemma_unwind(m, head, r.push(w.buffer));
        assert(undone_n(v, bufs.len()) == undone_n(v1, head.len()));
        assert(r + bufs.reverse() =~= r.push(bufs.last()) + head.reverse());
    }
}

/// Rewinding: with the undone buffers sitting on the redo stack, newest
/// first, the same number of redos replays them in order.
proof fn lemma_rewind(u0: Seq<Seq<char>>, r0: Seq<Seq<char>>, b0: Seq<char>, bufs: Seq<Seq<char>>)
    ensures
        ({
            let st = HistModel { undo: u0, redo: r0 + bufs.reverse(), buffer: b0 };
            let fin = redone_n(st, bufs.len());
            &&& fin.buffer == (if bufs.len() > 0 {
                bufs.last()
            } else {
                b0
            })
            &&& fin.redo == r0
            &&& fin.undo == u0 + (seq![b0] + bufs).drop_last()
        }),
    decreases bufs.len(),
{
    let st = HistModel { undo: u0, redo: r0 + bufs.reverse(), buffer: b0 };
    if bufs.len() == 0 {
        assert(r0 + bufs.reverse() =~= r0);
        assert(redone_n(st, 0) == st);
        assert(u0 + (seq![b0] + bufs).drop_last() =~= u0);
    } else {
        assert((r0 + bufs.reverse()).len() > 0);
        assert((r0 + bufs.reverse()).last() == bufs.reverse()[bufs.len() - 1]);
        assert(bufs.reverse()[bufs.len() - 1] == bufs[0]);
        let st1 = redone(st);
        assert(st1.buffer == bufs[0]);
        assert(st1.undo == u0.push(b0));
        assert(st1.redo =~= r0 + bufs.drop_first().reverse()) by {
            assert((r0 + bufs.reverse()).drop_last() =~= r0 + bufs.drop_first().reverse());
        }
        lemma_rewind(u0.push(b0), r0, bufs[0], bufs.drop_first());
        assert(redone_n(st, bufs.len()) == redone_n(
            HistModel { undo: u0.push(b0), redo: r0 + bufs.drop_first().reverse(), buffer: bufs[0] },
            bufs.drop_first().len(),
        ));
        if bufs.len() > 1 {
            assert(bufs.drop_first().last() == bufs.last());
        }
        assert(u0.push(b0) + (seq![bufs[0]] + bufs.drop_first()).drop_last() =~= u0 + (seq![b0]
            + bufs).drop_last());
    }
}

/// The undo/redo inverse law: starting from any well-formed history state,
/// committing N buffers B1..BN and then undoing N times restores the
/// original buffer (and stacks); redoing N times after that restores BN.
pub proof fn lemma_undo_redo_inverse(m: HistModel, bufs: Seq<Seq<char>>)
    requires
        m.undo.len() + bufs.len() <= MAX_HISTORY,
    ensures
        undone_n(committed_all(m, bufs), bufs.len()).buffer == m.buffer,
        undone_n(committed_all(m, bufs), bufs.len()).undo == m.undo,
        redone_n(undone_n(committed_all(m, bufs), bufs.len()), bufs.len()).buffer == (if bufs.len()
            > 0 {
            bufs.last()
        } else {
            m.buffer
        }),
{
    let w = committed_all(m, bufs);
    assert(w == HistModel { undo: w.undo, redo: w.redo, buffer: w.buffer });
    lemma_unwind(m, bufs, w.redo);
    let u = undone_n(w, bufs.len());
    assert(u == HistModel { undo: m.undo, redo: w.redo + bufs.reverse(), buffer: m.buffer });
    lemma_rewind(m.undo, w.redo, m.buffer, bufs);
}

/// Two bounded stacks of buffer snapshots: the classic linear-history
/// undo/redo design. Any new commit invalidates the redo stack.
pub struct HistoryStack {
    undo_stack: Vec<String>,
    redo_stack: Vec<String>,
}

impl HistoryStack {
    pub closed spec fn undo_view(&self) -> Seq<Seq<char>> {
        self.undo_stack.deep_view()
    }

    pub closed spec fn redo_view(&self) -> Seq<Seq<char>> {
        self.redo_stack.deep_view()
    }

    /// Well-formedness: both stacks together never outgrow the bound, so a
    /// push can evict at most one entry.
    pub open spec fn inv(&self) -> bool {
        self.undo_view().len() + self.redo_view().len() <= MAX_HISTORY
    }

    pub fn new() -> (r: HistoryStack)
        ensures
            r.undo_view() == Seq::<Seq<char>>::empty(),
            r.redo_view() == Seq::<Seq<char>>::empty(),
            r.inv(),
    {
        let r = HistoryStack { undo_stack: Vec::new(), redo_stack: Vec::new() };
        proof {
            assert(r.undo_view() =~~= Seq::<Seq<char>>::empty());
            assert(r.redo_view() =~~= Seq::<Seq<char>>::empty());
        }
        r
    }

    pub fn undo_len(&self) -> (r: usize)
        ensures
            r == self.undo_view().len(),
    {
        self.undo_stack.len()
    }

    pub fn redo_len(&self) -> (r: usize)
        ensures
            r == self.redo_view().len(),
    {
        self.redo_stack.len()
    }

    pub fn undo_at(&self, i: usize) -> (r: &String)
        requires
            i < self.undo_view().len(),
        ensures
            r@ == self.undo_view()[i as int],
    {
        &self.undo_stack[i]
    }

    /// Snapshot `current` onto the undo stack (evicting the oldest entry
    /// beyond the bound) and invalidate the redo stack.
    pub fn push_undo(&mut self, current: &String)
        requires
            old(self).inv(),
        ensures
            final(self).undo_view() == pushed_snapshot(old(self).undo_view(), current@),
            final(self).redo_view() == Seq::<Seq<char>>::empty(),
            final(self).inv(),
    {
        let ghost old_undo = self.undo_stack.deep_view();
        self.undo_stack.push(current.clone());
        proof {
            assert(self.undo_stack.deep_view() =~~= old_undo.push(current@));
        }
        if self.undo_stack.len() > MAX_HISTORY {
            let ghost mid = self.undo_stack.deep_view();
            self.undo_stack.remove(0);
            proof {
                assert(self.undo_stack.deep_view() =~~= mid.drop_first());
            }
        }
        self.redo_stack.clear();
        proof {
            assert(self.redo_stack.deep_view() =~~= Seq::<Seq<char>>::empty());
        }
    }

    /// Pop the newest undo snapshot, saving `current` for redo; `None` (and
    /// no change) when there is nothing to undo.
    pub fn undo(&mut self, current: &String) -> (r: Option<String>)
        ensures
            ({
                let m0 = HistModel {
                    undo: old(self).undo_view(),
                    redo: old(self).redo_view(),
                    buffer: current@,
                };
                let m1 = undone(m0);
                &&& final(self).undo_view() == m1.undo
                &&& final(self).redo_view() == m1.redo
                &&& match r {
                    Some(prev) => old(self).undo_view().len() > 0 && prev@ == m1.buffer,
                    None => old(self).undo_view().len() == 0,
                }
            }),
            old(self).inv() ==> final(self).inv(),
    {
        let ghost old_undo = self.undo_stack.deep_view();
        let ghost old_redo = self.redo_stack.deep_view();
        match self.undo_stack.pop() {
            None => {
                proof {
                    assert(old_undo.len() == 0);
                }
                None
            },
            Some(prev) => {
                proof {
                    assert(self.undo_stack.deep_view() =~~= old_undo.drop_last());
                    assert(prev@ == old_undo.last());
                }
                self.redo_stack.push(current.clone());
                proof {
                    assert(self.redo_stack.deep_view() =~~= old_redo.push(current@));
                }
                Some(prev)
            },
        }
    }

    /// Pop the newest redo snapshot, saving `current` for undo; `None` (and
    /// no change) when there is nothing to redo.
    pub fn redo(&mut self, current: &String) -> (r: Option<String>)
        ensures
            ({
                let m0 = HistModel {
                    undo: old(self).undo_view(),
                    redo: old(self).redo_view(),
                    buffer: current@,
                };
                let m1 = redone(m0);
                &&& final(self).undo_view() == m1.undo
                &&& final(self).redo_view() == m1.redo
                &&& match r {
                    Some(next) => old(self).redo_view().len() > 0 && next@ == m1.buffer,
                    None => old(self).redo_view().len() == 0,
                }
            }),
            old(self).inv() ==> final(self).inv(),
    {
        let ghost old_undo = self.undo_stack.deep_view();
        let ghost old_redo = self.redo_stack.deep_view();
        match self.redo_stack.pop() {
            None => {
                proof {
                    assert(old_redo.len() == 0);
                }
                None
            },
            Some(next) => {
                proof {
                    assert(self.redo_stack.deep_view() =~~= old_redo.drop_last());
                    assert(next@ == old_redo.last());
                }
                self.undo_stack.push(current.clone());
                proof {
                    assert(self.undo_stack.deep_view() =~~= old_undo.push(current@));
                }
                Some(next)
            },
        }
    }
}

} // verus!
