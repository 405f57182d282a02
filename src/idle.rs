use vstd::prelude::*;

verus! {

/// `s` with every entry of callback id `id` taken out, order kept.
pub open spec fn without<C>(s: Seq<(u64, C)>, id: u64) -> Seq<(u64, C)>
    decreases s.len(),
{
    if s.len() == 0 {
        s
    } else {
        let rest = without(s.drop_last(), id);
        if s.last().0 == id {
            rest
        } else {
            rest.push(s.last())
        }
    }
}

/// Whether some entry of `s` has callback id `id`.
pub open spec fn has_id<C>(s: Seq<(u64, C)>, id: u64) -> bool {
    exists|k: int| 0 <= k < s.len() && (#[trigger] s[k]).0 == id
}

pub open spec fn ids_unique<C>(s: Seq<(u64, C)>) -> bool {
    forall|i: int, j: int| 0 <= i < s.len() && 0 <= j < s.len() && i != j ==> (#[trigger] s[i]).0 != (#[trigger] s[j]).0
}

proof fn lemma_without_absent<C>(s: Seq<(u64, C)>, id: u64)
    requires
        !has_id(s, id),
    ensures
        without(s, id) == s,
    decreases s.len(),
{
    if s.len() > 0 {
        assert(!has_id(s.drop_last(), id)) by {
            if has_id(s.drop_last(), id) {
                let k = choose|k: int| 0 <= k < s.drop_last().len() && (#[trigger] s.drop_last()[k]).0 == id;
                assert(s[k].0 == id);
            }
        }
        lemma_without_absent(s.drop_last(), id);
        assert(s.last().0 != id) by {
            assert(s[s.len() - 1].0 == s.last().0);
        }
        assert(s.drop_last().push(s.last()) =~= s);
    }
}

proof fn lemma_without_at<C>(s: Seq<(u64, C)>, id: u64, i: int)
    requires
        0 <= i < s.len(),
        s[i].0 == id,
        ids_unique(s),
    ensures
        without(s, id) == s.remove(i),
    decreases s.len(),
{
    let d = s.drop_last();
    assert(ids_unique(d)) by {
        assert forall|a: int, b: int| 0 <= a < d.len() && 0 <= b < d.len() && a != b implies (#[trigger] d[a]).0 != (#[trigger] d[b]).0 by {
            assert(d[a] == s[a] && d[b] == s[b]);
        }
    }
    if i == s.len() - 1 {
        assert(!has_id(d, id)) by {
            if has_id(d, id) {
                let k = choose|k: int| 0 <= k < d.len() && (#[trigger] d[k]).0 == id;
                assert(s[k].0 == id);
            }
        }
        lemma_without_absent(d, id);
        assert(d =~= s.remove(i));
    } else {
        lemma_without_at(d, id, i);
        assert(s.last().0 != id) by {
            assert(s[s.len() - 1].0 != s[i].0);
        }
        assert(d.remove(i).push(s.last()) =~= s.remove(i));
    }
}

proof fn lemma_without_drops<C>(s: Seq<(u64, C)>, id: u64)
    ensures
        !has_id(without(s, id), id),
    decreases s.len(),
{
    if s.len() > 0 {
        lemma_without_drops(s.drop_last(), id);
        let r = without(s.drop_last(), id);
        if s.last().0 != id && has_id(r.push(s.last()), id) {
            let k = choose|k: int| 0 <= k < r.push(s.last()).len() && (#[trigger] r.push(s.last())[k]).0 == id;
            assert(r.push(s.last())[k] == r[k]);
        }
    }
}

/// Handle of an idle callback, by which it can be cancelled.
///
/// Dropping it does not cancel the callback.
pub struct Idle {
    id: u64,
}

impl Idle {
    /// The id of the callback this handle names.
    pub closed spec fn id(&self) -> u64 {
        self.id
    }

    /// Cancels the callback if it has not run yet; once it ran, this
    /// changes nothing.
    pub fn cancel<C>(self, queue: &mut IdleQueue<C>)
        requires
            old(queue).wf(),
        ensures
            final(queue).wf(),
            final(queue).draining() == without(old(queue).draining(), self.id()),
            final(queue).pending() == without(old(queue).pending(), self.id()),
            final(queue).next_id() == old(queue).next_id(),
            !has_id(final(queue).all(), self.id()),
            !has_id(old(queue).all(), self.id()) ==> final(queue).draining() == old(queue).draining()
                && final(queue).pending() == old(queue).pending(),
    {
        proof {
            old(queue).lemma_parts_unique();
        }
        queue.drop_entry(self.id);
        proof {
            lemma_without_drops(old(queue).draining(), self.id);
            lemma_without_drops(old(queue).pending(), self.id);
            if has_id(queue.all(), self.id) {
                let k = choose|k: int| 0 <= k < queue.all().len() && (#[trigger] queue.all()[k]).0 == self.id;
                if k < queue.draining().len() {
                    assert(queue.draining()[k] == queue.all()[k]);
                } else {
                    assert(queue.pending()[k - queue.draining().len()] == queue.all()[k]);
                }
            }
            if !has_id(old(queue).all(), self.id) {
                let a = old(queue).all();
                let d = old(queue).draining();
                let p = old(queue).pending();
                assert(!has_id(d, self.id)) by {
                    if has_id(d, self.id) {
                        let k = choose|k: int| 0 <= k < d.len() && (#[trigger] d[k]).0 == self.id;
                        assert(a[k] == d[k]);
                    }
                }
                assert(!has_id(p, self.id)) by {
                    if has_id(p, self.id) {
                        let k = choose|k: int| 0 <= k < p.len() && (#[trigger] p[k]).0 == self.id;
                        assert(a[d.len() + k] == p[k]);
                    }
                }
                lemma_without_absent(d, self.id);
                lemma_without_absent(p, self.id);
            }
        }
    }
}

/// Callbacks deferred until the I/O of a cycle is done, run once each, in
/// the order of insertion.
///
/// A drain works on the batch that was pending when it started; callbacks
/// inserted meanwhile wait for the next drain.
pub struct IdleQueue<C> {
    draining: Vec<(u64, C)>,
    pending: Vec<(u64, C)>,
    next_id: u64,
}

impl<C> IdleQueue<C> {
    /// The batch of the drain in progress, next to run first.
    pub closed spec fn draining(&self) -> Seq<(u64, C)> {
        self.draining@
    }

    /// The callbacks inserted since the last drain began.
    pub closed spec fn pending(&self) -> Seq<(u64, C)> {
        self.pending@
    }

    /// The id that the next insertion will give; all ids below it were given.
    pub closed spec fn next_id(&self) -> nat {
        self.next_id as nat
    }

    pub open spec fn all(&self) -> Seq<(u64, C)> {
        self.draining() + self.pending()
    }

    pub open spec fn wf(&self) -> bool {
        &&& ids_unique(self.all())
        &&& forall|k: int| 0 <= k < self.all().len() ==> (#[trigger] self.all()[k]).0 < self.next_id()
    }

    pub fn new() -> (r: IdleQueue<C>)
        ensures
            r.wf(),
            r.draining() == Seq::<(u64, C)>::empty(),
            r.pending() == Seq::<(u64, C)>::empty(),
            r.next_id() == 0,
    {
        let r = IdleQueue { draining: Vec::new(), pending: Vec::new(), next_id: 0 };
        assert(r.all() =~= Seq::<(u64, C)>::empty());
        r
    }

    /// Queues `callback` for the next drain; `None` once every id is spent.
    pub fn insert(&mut self, callback: C) -> (r: Option<Idle>)
        requires
            old(self).wf(),
        ensures
            final(self).wf(),
            final(self).draining() == old(self).draining(),
            r.is_none() <==> old(self).next_id() == u64::MAX,
            match r {
                Some(idle) => {
                    &&& idle.id() == old(self).next_id()
                    &&& !has_id(old(self).all(), idle.id())
                    &&& final(self).pending() == old(self).pending().push((idle.id(), callback))
                    &&& final(self).next_id() == old(self).next_id() + 1
                },
                None => final(self).pending() == old(self).pending() && final(self).next_id()
                    == old(self).next_id(),
            },
    {
        if self.next_id == u64::MAX {
            return None;
        }
        let id = self.next_id;
        proof {
            if has_id(self.all(), id) {
                let k = choose|k: int| 0 <= k < self.all().len() && (#[trigger] self.all()[k]).0 == id;
            }
        }
        let ghost before = self.all();
        self.pending.push((id, callback));
        self.next_id = id + 1;
        assert(self.all() =~= before.push((id, callback)));
        Some(Idle { id })
    }

    /// Begins a drain: everything pending joins the batch.
    pub fn start_drain(&mut self)
        requires
            old(self).wf(),
        ensures
            final(self).wf(),
            final(self).draining() == old(self).draining() + old(self).pending(),
            final(self).pending() == Seq::<(u64, C)>::empty(),
            final(self).next_id() == old(self).next_id(),
    {
        let ghost before = self.all();
        self.draining.append(&mut self.pending);
        assert(self.all() =~= before);
    }

    /// Takes the next callback of the drain in progress.
    pub fn next_idle(&mut self) -> (r: Option<C>)
        requires
            old(self).wf(),
        ensures
            final(self).wf(),
            final(self).pending() == old(self).pending(),
            final(self).next_id() == old(self).next_id(),
            old(self).draining().len() == 0 ==> r.is_none() && final(self).draining() == old(self).draining(),
            old(self).draining().len() > 0 ==> r == Some(old(self).draining()[0].1)
                && final(self).draining() == old(self).draining().drop_first(),
    {
        if self.draining.len() == 0 {
            return None;
        }
        let ghost before = self.all();
        let (_, callback) = self.draining.remove(0);
        assert(self.all() =~= before.drop_first());
        Some(callback)
    }

    /// Whether callbacks wait for a drain, begun or not.
    pub fn is_empty(&self) -> (r: bool)
        ensures
            r == (self.all().len() == 0),
    {
        self.draining.len() == 0 && self.pending.len() == 0
    }

    fn drop_from(v: &mut Vec<(u64, C)>, id: u64)
        requires
            ids_unique(old(v)@),
        ensures
            final(v)@ == without(old(v)@, id),
            ids_unique(final(v)@),
            forall|k: int| 0 <= k < final(v)@.len() ==> #[trigger] old(v)@.contains(final(v)@[k]),
    {
        let mut i: usize = 0;
        while i < v.len()
            invariant
                0 <= i <= v@.len(),
                v@ == old(v)@,
                ids_unique(v@),
                forall|k: int| 0 <= k < i ==> (#[trigger] v@[k]).0 != id,
            decreases v@.len() - i,
        {
            if v[i].0 == id {
                let ghost before = v@;
                proof {
                    lemma_without_at(before, id, i as int);
                }
                v.remove(i);
                assert forall|k: int| 0 <= k < v@.len() implies #[trigger] before.contains(v@[k]) by {
                    if k < i {
                        assert(v@[k] == before[k]);
                    } else {
                        assert(v@[k] == before[k + 1]);
                    }
                }
                assert forall|a: int, b: int| 0 <= a < v@.len() && 0 <= b < v@.len() && a != b implies (#[trigger] v@[a]).0 != (#[trigger] v@[b]).0 by {
                    let a0 = if a < i { a } else { a + 1 };
                    let b0 = if b < i { b } else { b + 1 };
                    assert(v@[a] == before[a0] && v@[b] == before[b0]);
                }
                return;
            }
            i = i + 1;
        }
        proof {
            lemma_without_absent(v@, id);
            assert forall|k: int| 0 <= k < v@.len() implies #[trigger] old(v)@.contains(v@[k]) by {
                assert(old(v)@[k] == v@[k]);
            }
        }
    }

    fn drop_entry(&mut self, id: u64)
        requires
            old(self).wf(),
        ensures
            final(self).wf(),
            final(self).draining() == without(old(self).draining(), id),
            final(self).pending() == without(old(self).pending(), id),
            final(self).next_id() == old(self).next_id(),
    {
        proof {
            self.lemma_parts_unique();
        }
        let ghost d0 = self.draining@;
        let ghost p0 = self.pending@;
        Self::drop_from(&mut self.draining, id);
        Self::drop_from(&mut self.pending, id);
        proof {
            lemma_sub_unique(d0, p0, self.draining@, self.pending@, self.next_id as nat);
        }
    }

    proof fn lemma_parts_unique(&self)
        requires
            self.wf(),
        ensures
            ids_unique(self.draining()),
            ids_unique(self.pending()),
    {
        let d = self.draining();
        let p = self.pending();
        let a = self.all();
        assert forall|i: int, j: int| 0 <= i < d.len() && 0 <= j < d.len() && i != j implies (#[trigger] d[i]).0 != (#[trigger] d[j]).0 by {
            assert(a[i] == d[i] && a[j] == d[j]);
        }
        assert forall|i: int, j: int| 0 <= i < p.len() && 0 <= j < p.len() && i != j implies (#[trigger] p[i]).0 != (#[trigger] p[j]).0 by {
            assert(a[d.len() + i] == p[i] && a[d.len() + j] == p[j]);
        }
    }
}

/// Taking entries out of two parts with unique ids below a bound keeps
/// the ids of the joined parts unique and below it.
proof fn lemma_sub_unique<C>(d0: Seq<(u64, C)>, p0: Seq<(u64, C)>, d: Seq<(u64, C)>, p: Seq<(u64, C)>, bound: nat)
    requires
        ids_unique(d0 + p0),
        forall|k: int| 0 <= k < (d0 + p0).len() ==> (#[trigger] (d0 + p0)[k]).0 < bound,
        ids_unique(d),
        ids_unique(p),
        forall|k: int| 0 <= k < d.len() ==> #[trigger] d0.contains(d[k]),
        forall|k: int| 0 <= k < p.len() ==> #[trigger] p0.contains(p[k]),
    ensures
        ids_unique(d + p),
        forall|k: int| 0 <= k < (d + p).len() ==> (#[trigger] (d + p)[k]).0 < bound,
{
    let a0 = d0 + p0;
    let a = d + p;
    assert forall|k: int| 0 <= k < a.len() implies (#[trigger] a[k]).0 < bound by {
        if k < d.len() {
            assert(d0.contains(d[k]));
            let m = choose|m: int| 0 <= m < d0.len() && d0[m] == d[k];
            assert(a0[m] == d0[m]);
        } else {
            assert(p0.contains(p[k - d.len()]));
            let m = choose|m: int| 0 <= m < p0.len() && p0[m] == p[k - d.len()];
            assert(a0[d0.len() + m] == p0[m]);
        }
    }
    assert forall|i: int, j: int| 0 <= i < a.len() && 0 <= j < a.len() && i != j implies (#[trigger] a[i]).0 != (#[trigger] a[j]).0 by {
        if i < d.len() && j >= d.len() {
            assert(d0.contains(d[i]));
            assert(p0.contains(p[j - d.len()]));
            let m = choose|m: int| 0 <= m < d0.len() && d0[m] == d[i];
            let n = choose|n: int| 0 <= n < p0.len() && p0[n] == p[j - d.len()];
            assert(a0[m] == d0[m] && a0[d0.len() + n] == p0[n]);
        } else if j < d.len() && i >= d.len() {
            assert(d0.contains(d[j]));
            assert(p0.contains(p[i - d.len()]));
            let m = choose|m: int| 0 <= m < d0.len() && d0[m] == d[j];
            let n = choose|n: int| 0 <= n < p0.len() && p0[n] == p[i - d.len()];
            assert(a0[m] == d0[m] && a0[d0.len() + n] == p0[n]);
        } else if i < d.len() {
            assert(a[i] == d[i] && a[j] == d[j]);
        } else {
            assert(a[i] == p[i - d.len()] && a[j] == p[j - d.len()]);
        }
    }
}

/// A callback inserted while a drain is under way does not run in that
/// drain: it waits, pending, and is first in line after the callbacks that
/// were pending with it when the next drain begins.
pub proof fn lemma_idle_inserted_during_drain<C>(
    draining: IdleQueue<C>,
    inserted: IdleQueue<C>,
    next_drain: IdleQueue<C>,
    idle: Idle,
    callback: C,
)
    requires
        draining.wf(),
        inserted.draining() == draining.draining(),
        inserted.pending() == draining.pending().push((idle.id(), callback)),
        idle.id() == draining.next_id(),
        next_drain.draining() == inserted.draining() + inserted.pending(),
    ensures
        !has_id(inserted.draining(), idle.id()),
        has_id(next_drain.draining(), idle.id()),
{
    let d = draining.draining();
    let a = draining.all();
    if has_id(d, idle.id()) {
        let k = choose|k: int| 0 <= k < d.len() && (#[trigger] d[k]).0 == idle.id();
        assert(a[k] == d[k]);
    }
    let n = next_drain.draining();
    let last = n.len() - 1;
    assert(n[last] == (idle.id(), callback));
}

} // verus!
