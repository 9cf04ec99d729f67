//! The concrete reader for the first on-disk format revision, with the
//! k-way merge that turns the per-index task logs into one stream
//! ascending by enqueue time.

use vstd::multiset::Multiset;
use vstd::prelude::*;
use vstd::seq_lib::group_to_multiset_ensures;

use crate::error::{Error, Version};
use crate::index::{task_time_of_line, V1IndexReader};
use crate::task::UpdateStatus;

verus! {

broadcast use vstd::multiset::group_multiset_axioms, group_to_multiset_ensures;

/// A task sequence ascending by enqueue time.
pub open spec fn sorted_tasks(s: Seq<UpdateStatus>) -> bool {
    forall|i: int, j: int|
        0 <= i <= j < s.len() ==> #[trigger] s[i].enqueued_at <= #[trigger] s[j].enqueued_at
}

/// `t` is a record of one of the given indexes' logs, at its own
/// enqueue time.
pub open spec fn task_in_logs(t: UpdateStatus, idxs: Seq<V1IndexReader>) -> bool {
    exists|i: int, p: int|
        0 <= i < idxs.len() && 0 <= p < idxs[i].updates@.len() && t.raw@
            == #[trigger] idxs[i].updates@[p]@ && task_time_of_line(idxs[i].updates@[p]@)
            == Some(t.enqueued_at)
}

/// Every task of `v` is a record of one of the given indexes' logs, at
/// its own enqueue time: the merge yields nothing it did not read.
pub open spec fn tasks_from_logs(v: Seq<UpdateStatus>, idxs: Seq<V1IndexReader>) -> bool {
    forall|j: int| 0 <= j < v.len() ==> task_in_logs(#[trigger] v[j], idxs)
}

/// The pair a yielded task carries: its enqueue time and its exact
/// source line.
pub open spec fn task_pair(t: UpdateStatus) -> (u64, Seq<char>) {
    (t.enqueued_at, t.raw@)
}

/// The same pair for the record on line `p` of a task log.
pub open spec fn line_pair(lines: Seq<String>, p: int) -> (u64, Seq<char>) {
    (task_time_of_line(lines[p]@)->Some_0, lines[p]@)
}

/// The records a cursor has not yet yielded: the buffered one, then the
/// unread lines, in log order.
pub open spec fn rem_pairs(c: V1IndexReader) -> Seq<(u64, Seq<char>)> {
    let unread = Seq::new(
        (c.updates@.len() - c.pos) as nat,
        |q: int| line_pair(c.updates@, c.pos + q),
    );
    match c.current_update {
        Some(t) => seq![task_pair(t)] + unread,
        None => unread,
    }
}

/// All records no cursor has yielded yet, as one multiset.
pub open spec fn total_pairs(s: Seq<V1IndexReader>) -> Multiset<(u64, Seq<char>)>
    decreases s.len(),
{
    if s.len() == 0 {
        Multiset::empty()
    } else {
        rem_pairs(s[0]).to_multiset().add(total_pairs(s.drop_first()))
    }
}

/// The pairs of a yielded task sequence, in yield order.
pub open spec fn yielded_pairs(v: Seq<UpdateStatus>) -> Seq<(u64, Seq<char>)> {
    v.map_values(|t: UpdateStatus| task_pair(t))
}

/// Popping the front outstanding record of one cursor removes exactly
/// that record from the outstanding multiset.
proof fn lemma_total_pairs_pop(s: Seq<V1IndexReader>, t: Seq<V1IndexReader>, k: int)
    requires
        s.len() == t.len(),
        0 <= k < s.len(),
        forall|i: int| 0 <= i < s.len() && i != k ==> #[trigger] t[i] == s[i],
        rem_pairs(s[k]).len() > 0,
        rem_pairs(t[k]) == rem_pairs(s[k]).drop_first(),
    ensures
        total_pairs(s).count(rem_pairs(s[k])[0]) > 0,
        total_pairs(t) == total_pairs(s).remove(rem_pairs(s[k])[0]),
    decreases s.len(),
{
    let x = rem_pairs(s[k])[0];
    if k == 0 {
        assert(t.drop_first() =~= s.drop_first());
        let sp = rem_pairs(s[0]);
        assert(sp.remove(0) =~= sp.drop_first());
        assert(sp.remove(0).to_multiset() =~= sp.to_multiset().remove(x));
        assert(sp.contains(x));
        assert(sp.to_multiset().count(x) > 0);
        assert(total_pairs(t) =~= total_pairs(s).remove(x));
    } else {
        lemma_total_pairs_pop(s.drop_first(), t.drop_first(), k - 1);
        assert(s.drop_first()[k - 1] == s[k]);
        assert(t.drop_first()[k - 1] == t[k]);
        assert(t[0] == s[0]);
        assert(total_pairs(t) =~= total_pairs(s).remove(x));
    }
}

/// With every cursor drained nothing is outstanding.
proof fn lemma_total_pairs_empty(s: Seq<V1IndexReader>)
    requires
        forall|i: int| 0 <= i < s.len() ==> rem_pairs(#[trigger] s[i]).len() == 0,
    ensures
        total_pairs(s) == Multiset::<(u64, Seq<char>)>::empty(),
    decreases s.len(),
{
    if s.len() > 0 {
        lemma_total_pairs_empty(s.drop_first());
        assert forall|y: (u64, Seq<char>)| rem_pairs(s[0]).to_multiset().count(y) == 0 by {
            assert(!rem_pairs(s[0]).contains(y));
        }
        assert(total_pairs(s) =~= Multiset::empty());
    }
}

/// Key material never occurs in the first format revision; the field is
/// private and no constructor exists, so no value of this type can be
/// made.
pub struct KeyMaterial {
    never: bool,
}

/// Reader over one whole dump in the first format revision.
pub struct V1Reader {
    pub indexes: Vec<V1IndexReader>,
}

impl V1Reader {
    /// Every per-index cursor is well formed.
    pub open spec fn wf(self) -> bool {
        forall|i: int| 0 <= i < self.indexes@.len() ==> (#[trigger] self.indexes@[i]).wf()
    }

    /// Every cursor has handed out its whole log.
    pub open spec fn all_exhausted(self) -> bool {
        forall|i: int|
            0 <= i < self.indexes@.len() ==> (#[trigger] self.indexes@[i]).current_update is None
    }

    /// Every task log is individually ascending — the on-disk invariant.
    pub open spec fn logs_sorted(self) -> bool {
        forall|i: int| 0 <= i < self.indexes@.len() ==> (#[trigger] self.indexes@[i]).log_sorted()
    }

    /// Every line of every task log parses as a task record.
    pub open spec fn all_logs_ok(self) -> bool {
        forall|i: int| 0 <= i < self.indexes@.len() ==> (#[trigger] self.indexes@[i]).log_all_ok()
    }

    /// Tasks not yet yielded by the merge, over all cursors.
    pub open spec fn total_rem(s: Seq<V1IndexReader>) -> int
        decreases s.len(),
    {
        if s.len() == 0 {
            0
        } else {
            s[0].rem() + Self::total_rem(s.drop_first())
        }
    }

    /// Cursor `k` holds the merge's next task once only the first `n`
    /// cursors are considered: its buffered time is minimal among them,
    /// and it is the first cursor reaching that minimum.
    pub open spec fn selected_upto(s: Seq<V1IndexReader>, k: int, n: int) -> bool {
        &&& 0 <= k < n <= s.len()
        &&& s[k].current_update is Some
        &&& forall|i: int|
            0 <= i < n && (#[trigger] s[i]).current_update is Some
                ==> s[k].current_update->Some_0.enqueued_at
                <= s[i].current_update->Some_0.enqueued_at
        &&& forall|i: int|
            0 <= i < k && (#[trigger] s[i]).current_update is Some
                ==> s[k].current_update->Some_0.enqueued_at
                < s[i].current_update->Some_0.enqueued_at
    }

    /// Cursor `k` holds the merge's next task.
    pub open spec fn selected(s: Seq<V1IndexReader>, k: int) -> bool {
        Self::selected_upto(s, k, s.len() as int)
    }

    /// What one merge pull does once cursor `k` was selected: only `k`
    /// moves, the buffered minimum is yielded and replaced by the next
    /// record of its log, or the pull fails on a malformed next line.
    pub open spec fn merge_step(
        pre: Seq<V1IndexReader>,
        post: Seq<V1IndexReader>,
        k: int,
        r: Result<Option<UpdateStatus>, Error>,
    ) -> bool {
        &&& Self::selected(pre, k)
        &&& post.len() == pre.len()
        &&& forall|i: int| 0 <= i < pre.len() && i != k ==> #[trigger] post[i] == pre[i]
        &&& match r {
            Ok(opt) => {
                &&& opt == pre[k].current_update
                &&& !post[k].failed
                &&& post[k].rem() == pre[k].rem() - 1
                &&& if pre[k].pos < pre[k].updates@.len() {
                    &&& post[k].pos == pre[k].pos + 1
                    &&& post[k].current_update is Some
                    &&& post[k].cur_time() == task_time_of_line(
                        pre[k].updates@[pre[k].pos as int]@,
                    )
                } else {
                    &&& post[k].pos == pre[k].pos
                    &&& post[k].current_update is None
                }
            },
            Err(e) => {
                &&& pre[k].pos < pre[k].updates@.len()
                &&& task_time_of_line(pre[k].updates@[pre[k].pos as int]@) is None
                &&& post[k].pos == pre[k].pos
                &&& post[k].current_update == pre[k].current_update
                &&& post[k].failed
                &&& e == (Error::ParseError { index: pre[k].name, line: pre[k].pos as u64 })
            },
        }
    }

    /// Finds the cursor the merge must pull from: the first one whose
    /// buffered enqueue time is minimal; `None` once all are exhausted.
    fn select(&self) -> (r: Option<usize>)
        ensures
            r is None <==> self.all_exhausted(),
            r matches Some(k) ==> Self::selected(self.indexes@, k as int),
    {
        let mut best: Option<usize> = None;
        let mut best_time: u64 = 0;
        let mut i: usize = 0;
        while i < self.indexes.len()
            invariant
                i <= self.indexes@.len(),
                best is None ==> forall|j: int|
                    0 <= j < i ==> (#[trigger] self.indexes@[j]).current_update is None,
                best matches Some(k) ==> Self::selected_upto(self.indexes@, k as int, i as int)
                    && self.indexes@[k as int].current_update->Some_0.enqueued_at == best_time,
            decreases self.indexes@.len() - i,
        {
            match &self.indexes[i].current_update {
                Some(t) => {
                    let ti = t.enqueued_at;
                    let take = match best {
                        None => true,
                        Some(_) => ti < best_time,
                    };
                    if take {
                        best = Some(i);
                        best_time = ti;
                    }
                },
                None => {},
            }
            i = i + 1;
        }
        best
    }

    /// Replacing one cursor changes the outstanding-task total by that
    /// cursor's difference alone.
    proof fn lemma_total_rem_update(s: Seq<V1IndexReader>, t: Seq<V1IndexReader>, k: int)
        requires
            s.len() == t.len(),
            0 <= k < s.len(),
            forall|i: int| 0 <= i < s.len() && i != k ==> #[trigger] t[i] == s[i],
        ensures
            Self::total_rem(t) == Self::total_rem(s) - s[k].rem() + t[k].rem(),
        decreases s.len(),
    {
        if k == 0 {
            assert(t.drop_first() =~= s.drop_first());
        } else {
            Self::lemma_total_rem_update(s.drop_first(), t.drop_first(), k - 1);
        }
    }

    /// Once every cursor is drained the outstanding-task total is zero.
    proof fn lemma_total_rem_zero(s: Seq<V1IndexReader>)
        requires
            forall|i: int| 0 <= i < s.len() ==> (#[trigger] s[i]).rem() == 0,
        ensures
            Self::total_rem(s) == 0,
        decreases s.len(),
    {
        if s.len() > 0 {
            Self::lemma_total_rem_zero(s.drop_first());
        }
    }

    /// One pull of the merged task stream: yields the buffered task with
    /// the smallest enqueue time across all indexes (ties go to the
    /// index discovered first), advancing only that cursor; `Ok(None)`
    /// exactly when every index's log is exhausted.
    pub fn next_update(&mut self) -> (r: Result<Option<UpdateStatus>, Error>)
        requires
            old(self).wf(),
        ensures
            final(self).wf(),
            final(self).indexes@.len() == old(self).indexes@.len(),
            forall|i: int|
                0 <= i < old(self).indexes@.len() ==> (#[trigger] final(self).indexes@[i]).same_data(
                    old(self).indexes@[i],
                ),
            old(self).all_exhausted() ==> (r matches Ok(o) && o is None && *final(self) == *old(
                self,
            )),
            (r matches Ok(o) && o is None) ==> old(self).all_exhausted(),
            !old(self).all_exhausted() ==> exists|k: int|
                Self::merge_step(old(self).indexes@, final(self).indexes@, k, r),
    {
        match self.select() {
            None => Ok(None),
            Some(k) => {
                let r = self.indexes[k].next_update();
                proof {
                    assert(Self::merge_step(old(self).indexes@, self.indexes@, k as int, r));
                }
                r
            },
        }
    }

    /// With every cursor well formed the outstanding-task total cannot
    /// be negative.
    proof fn lemma_total_rem_nonneg(s: Seq<V1IndexReader>)
        requires
            forall|i: int| 0 <= i < s.len() ==> (#[trigger] s[i]).wf(),
        ensures
            Self::total_rem(s) >= 0,
        decreases s.len(),
    {
        if s.len() > 0 {
            Self::lemma_total_rem_nonneg(s.drop_first());
        }
    }

    /// Drains the merged task stream: exactly the records the logs
    /// still hold, each yielded once, ascending by enqueue time
    /// wherever the on-disk logs were themselves ascending. Fails
    /// exactly when some unread task line fails to parse, with a
    /// `ParseError` naming it.
    pub fn tasks(&mut self) -> (r: Result<Vec<UpdateStatus>, Error>)
        requires
            old(self).wf(),
        ensures
            final(self).wf(),
            final(self).indexes@.len() == old(self).indexes@.len(),
            forall|i: int|
                0 <= i < old(self).indexes@.len() ==> (#[trigger] final(self).indexes@[i]).same_data(
                    old(self).indexes@[i],
                ),
            r is Ok <==> old(self).all_logs_ok(),
            r matches Ok(v) ==> {
                &&& v@.len() == Self::total_rem(old(self).indexes@)
                &&& final(self).all_exhausted()
                &&& tasks_from_logs(v@, old(self).indexes@)
                &&& yielded_pairs(v@).to_multiset() == total_pairs(old(self).indexes@)
                &&& (old(self).logs_sorted() ==> sorted_tasks(v@))
            },
            r matches Err(e) ==> e is ParseError,
    {
        let mut out: Vec<UpdateStatus> = Vec::new();
        proof {
            assert(yielded_pairs(out@) =~= Seq::empty());
            assert forall|y: (u64, Seq<char>)| yielded_pairs(out@).to_multiset().count(y)
                == 0 by {
                assert(!yielded_pairs(out@).contains(y));
            }
            assert(yielded_pairs(out@).to_multiset().add(total_pairs(self.indexes@))
                =~= total_pairs(self.indexes@));
        }
        loop
            invariant
                self.wf(),
                self.indexes@.len() == old(self).indexes@.len(),
                forall|i: int|
                    0 <= i < old(self).indexes@.len() ==> (#[trigger] self.indexes@[i]).same_data(
                        old(self).indexes@[i],
                    ),
                out@.len() + Self::total_rem(self.indexes@) == Self::total_rem(
                    old(self).indexes@,
                ),
                yielded_pairs(out@).to_multiset().add(total_pairs(self.indexes@)) == total_pairs(
                    old(self).indexes@,
                ),
                tasks_from_logs(out@, old(self).indexes@),
                old(self).logs_sorted() ==> {
                    &&& sorted_tasks(out@)
                    &&& forall|j: int, i: int|
                        0 <= j < out@.len() && 0 <= i < self.indexes@.len() && (
                        #[trigger] self.indexes@[i]).current_update is Some ==> (
                        #[trigger] out@[j]).enqueued_at
                            <= self.indexes@[i].current_update->Some_0.enqueued_at
                },
            decreases Self::total_rem(self.indexes@),
        {
            proof {
                Self::lemma_total_rem_nonneg(self.indexes@);
            }
            let ghost pre = *self;
            let step = self.next_update();
            match step {
                Ok(Some(t)) => {
                    proof {
                        assert(!pre.all_exhausted());
                        let k = choose|k: int|
                            Self::merge_step(pre.indexes@, self.indexes@, k, step);
                        assert(Self::merge_step(pre.indexes@, self.indexes@, k, step));
                        Self::lemma_total_rem_update(pre.indexes@, self.indexes@, k);
                        Self::lemma_total_rem_nonneg(self.indexes@);
                        assert(pre.indexes@[k].wf());
                        let p = pre.indexes@[k].pos - 1;
                        assert(old(self).indexes@[k].updates == pre.indexes@[k].updates);
                        assert(t.raw@ == old(self).indexes@[k].updates@[p]@);
                        assert(task_time_of_line(old(self).indexes@[k].updates@[p]@) == Some(
                            t.enqueued_at,
                        ));
                        assert(task_in_logs(t, old(self).indexes@));
                        assert forall|j: int| 0 <= j < out@.push(t).len() implies task_in_logs(
                            #[trigger] out@.push(t)[j],
                            old(self).indexes@,
                        ) by {
                            if j < out@.len() {
                                assert(out@.push(t)[j] == out@[j]);
                            } else {
                                assert(out@.push(t)[j] == t);
                            }
                        }
                        let pk = pre.indexes@[k];
                        let qk = self.indexes@[k];
                        assert(qk.same_data(pk));
                        assert(qk.wf());
                        assert(rem_pairs(pk)[0] == task_pair(t));
                        assert forall|q: int| 0 <= q < rem_pairs(qk).len() implies rem_pairs(qk)[q]
                            == rem_pairs(pk).drop_first()[q] by {
                            if q == 0 && qk.current_update is Some {
                                assert(qk.buffered_matches(qk.current_update->Some_0));
                            }
                        }
                        assert(rem_pairs(qk) =~= rem_pairs(pk).drop_first());
                        lemma_total_pairs_pop(pre.indexes@, self.indexes@, k);
                        let x = task_pair(t);
                        assert(yielded_pairs(out@.push(t)) =~= yielded_pairs(out@).push(x));
                        assert(yielded_pairs(out@.push(t)).to_multiset() =~= yielded_pairs(
                            out@,
                        ).to_multiset().insert(x));
                        assert(yielded_pairs(out@.push(t)).to_multiset().add(
                            total_pairs(self.indexes@),
                        ) =~= yielded_pairs(out@).to_multiset().add(total_pairs(pre.indexes@)));
                        if old(self).logs_sorted() {
                            assert forall|i: int|
                                0 <= i < self.indexes@.len() && (
                                #[trigger] self.indexes@[i]).current_update is Some implies t.enqueued_at
                                <= self.indexes@[i].current_update->Some_0.enqueued_at by {
                                if i == k {
                                    if pre.indexes@[k].pos < pre.indexes@[k].updates@.len() {
                                        let lines = pre.indexes@[k].updates@;
                                        let p = pre.indexes@[k].pos as int;
                                        assert(pre.indexes@[k].log_sorted());
                                        assert(task_time_of_line(lines[p - 1]@) == Some(
                                            t.enqueued_at,
                                        ));
                                        assert(task_time_of_line(lines[p]@) is Some);
                                        assert(task_time_of_line(lines[p - 1]@)->Some_0
                                            <= task_time_of_line(lines[p]@)->Some_0);
                                    }
                                }
                            }
                        }
                    }
                    out.push(t);
                },
                Ok(None) => {
                    proof {
                        assert(pre.all_exhausted());
                        assert forall|i: int| 0 <= i < self.indexes@.len() implies (
                        #[trigger] self.indexes@[i]).rem() == 0 by {
                            assert(self.indexes@[i].wf());
                        }
                        Self::lemma_total_rem_zero(self.indexes@);
                        assert forall|i: int| 0 <= i < self.indexes@.len() implies rem_pairs(
                            #[trigger] self.indexes@[i],
                        ).len() == 0 by {
                            assert(self.indexes@[i].wf());
                        }
                        lemma_total_pairs_empty(self.indexes@);
                        assert(yielded_pairs(out@).to_multiset().add(
                            Multiset::<(u64, Seq<char>)>::empty(),
                        ) =~= yielded_pairs(out@).to_multiset());
                        assert forall|i: int|
                            0 <= i < old(self).indexes@.len() implies (#[trigger] old(
                            self,
                        ).indexes@[i]).log_all_ok() by {
                            let cur = self.indexes@[i];
                            assert(cur.wf());
                            assert(cur.pos == cur.updates@.len());
                            assert(cur.log_all_ok());
                            assert(old(self).indexes@[i].updates == cur.updates);
                        }
                    }
                    return Ok(out);
                },
                Err(e) => {
                    proof {
                        assert(!pre.all_exhausted());
                        let k = choose|k: int|
                            Self::merge_step(pre.indexes@, self.indexes@, k, step);
                        assert(Self::merge_step(pre.indexes@, self.indexes@, k, step));
                        let p = pre.indexes@[k].pos as int;
                        assert(task_time_of_line(pre.indexes@[k].updates@[p]@) is None);
                        assert(old(self).indexes@[k].updates == pre.indexes@[k].updates);
                        assert(!old(self).indexes@[k].log_all_ok());
                        assert(!old(self).all_logs_ok());
                    }
                    return Err(e);
                },
            }
        }
    }

    /// The format revision this reader reads.
    pub fn version(&self) -> (r: Version)
        ensures
            r == Version::V1,
    {
        Version::V1
    }

    /// The dump's creation timestamp; the first format revision never
    /// records one.
    pub fn date(&self) -> (r: Option<i64>)
        ensures
            r is None,
    {
        None
    }

    /// The per-index readers, in the order the dump root listed them.
    pub fn indexes(&self) -> (r: &Vec<V1IndexReader>)
        ensures
            r == &self.indexes,
    {
        &self.indexes
    }

    /// Key material; always empty in the first format revision.
    pub fn keys(&self) -> (r: Vec<KeyMaterial>)
        ensures
            r@.len() == 0,
    {
        Vec::new()
    }
}

} // verus!
