//! The pending-request table: which waiter is owed the response to which
//! request signature.
use vstd::prelude::*;

verus! {

/// One pending request: its signature and the waiter owed its response.
pub type Entry<W> = (Seq<char>, W);

/// `i` is the position of the first entry whose signature is `k`.
pub open spec fn first_at<W>(t: Seq<Entry<W>>, k: Seq<char>, i: int) -> bool {
    &&& 0 <= i < t.len()
    &&& t[i].0 == k
    &&& forall|j: int| 0 <= j < i ==> t[j].0 != k
}

/// Whether some entry has signature `k`.
pub open spec fn holds<W>(t: Seq<Entry<W>>, k: Seq<char>) -> bool {
    exists|i: int| 0 <= i < t.len() && t[i].0 == k
}

/// No two entries share a signature.
pub open spec fn distinct_keys<W>(t: Seq<Entry<W>>) -> bool {
    forall|i: int, j: int| 0 <= i < t.len() && 0 <= j < t.len() && i != j ==> t[i].0 != t[j].0
}

/// Registering `k`: a new entry at the end, unless `k` is already pending.
pub open spec fn after_register<W>(t: Seq<Entry<W>>, k: Seq<char>, w: W) -> Seq<Entry<W>> {
    if holds(t, k) { t } else { t.push((k, w)) }
}

/// Resolving `k`: the waiter of its entry, and the table without that entry;
/// nothing and the same table when `k` is not pending.
pub open spec fn after_resolve<W>(t: Seq<Entry<W>>, k: Seq<char>) -> (Option<W>, Seq<Entry<W>>) {
    if holds(t, k) {
        let i = choose|i: int| first_at(t, k, i);
        (Some(t[i].1), t.remove(i))
    } else {
        (None, t)
    }
}

/// The waiters of a table, in order of registration.
pub open spec fn waiters<W>(t: Seq<Entry<W>>) -> Seq<W> {
    t.map_values(|e: Entry<W>| e.1)
}

/// Two requests with distinct signatures, registered one after the other,
/// get two entries; resolving the first hands out the first waiter only and
/// leaves the second entry, waiter included, in the table.
pub proof fn lemma_correlation_keeps_requests_apart<W>(
    t: Seq<Entry<W>>,
    a: Seq<char>,
    wa: W,
    b: Seq<char>,
    wb: W,
)
    requires
        distinct_keys(t),
        !holds(t, a),
        !holds(t, b),
        a != b,
    ensures
        distinct_keys(after_register(after_register(t, a, wa), b, wb)),
        after_register(after_register(t, a, wa), b, wb).len() == t.len() + 2,
        after_resolve(after_register(after_register(t, a, wa), b, wb), a) == (Some(wa), t.push((b, wb))),
        after_resolve(after_register(after_register(t, a, wa), b, wb), b) == (Some(wb), t.push((a, wa))),
{
    let t1 = t.push((a, wa));
    assert(!holds(t1, b)) by {
        if holds(t1, b) {
            let i = choose|i: int| 0 <= i < t1.len() && t1[i].0 == b;
            if i < t.len() {
                assert(t[i].0 == b);
            }
        }
    }
    let t2 = t1.push((b, wb));
    assert(after_register(t, a, wa) == t1);
    assert(after_register(t1, b, wb) == t2);
    assert(distinct_keys(t2)) by {
        assert forall|i: int, j: int| 0 <= i < t2.len() && 0 <= j < t2.len() && i != j
            implies t2[i].0 != t2[j].0 by {
            if i < t.len() && j == t.len() { assert(t[i].0 != a); }
            if j < t.len() && i == t.len() { assert(t[j].0 != a); }
            if i < t.len() && j == t.len() + 1 { assert(t[i].0 != b); }
            if j < t.len() && i == t.len() + 1 { assert(t[j].0 != b); }
        }
    }
    let n = t.len() as int;
    assert(first_at(t2, a, n)) by {
        assert forall|j: int| 0 <= j < n implies t2[j].0 != a by {
            assert(t2[j] == t[j]);
        }
    }
    assert(holds(t2, a));
    let ia = choose|i: int| first_at(t2, a, i);
    assert(ia == n) by {
        if ia < n { assert(t2[ia].0 != a); }
        if ia > n { assert(t2[n].0 == a); }
    }
    assert(t2.remove(n) =~= t.push((b, wb)));
    assert(first_at(t2, b, n + 1)) by {
        assert forall|j: int| 0 <= j < n + 1 implies t2[j].0 != b by {
            if j < n { assert(t2[j] == t[j]); }
        }
    }
    assert(holds(t2, b));
    let ib = choose|i: int| first_at(t2, b, i);
    assert(ib == n + 1) by {
        if ib < n + 1 { assert(t2[ib].0 != b); }
    }
    assert(t2.remove(n + 1) =~= t.push((a, wa)));
}

/// A response whose signature matches no pending request finds no waiter
/// and leaves every entry as it was.
pub proof fn lemma_unmapped_response_changes_nothing<W>(t: Seq<Entry<W>>, k: Seq<char>)
    requires
        !holds(t, k),
    ensures
        after_resolve(t, k) == (None::<W>, t),
{
}

/// Draining a table of N entries hands out N waiters, the i-th being the
/// waiter of the i-th entry, so no request is left waiting.
pub proof fn lemma_drain_hands_out_every_waiter<W>(t: Seq<Entry<W>>)
    ensures
        waiters(t).len() == t.len(),
        forall|i: int| 0 <= i < t.len() ==> waiters(t)[i] == t[i].1,
{
}

/// Requests waiting for their response, keyed by request signature.
pub struct PendingTable<W> {
    entries: Vec<(String, W)>,
}

impl<W> View for PendingTable<W> {
    type V = Seq<Entry<W>>;

    closed spec fn view(&self) -> Seq<Entry<W>> {
        self.entries@.map_values(|e: (String, W)| (e.0@, e.1))
    }
}

impl<W> PendingTable<W> {
    /// At most one entry per signature.
    pub open spec fn wf(&self) -> bool {
        distinct_keys(self@)
    }

    pub fn new() -> (r: PendingTable<W>)
        ensures
            r@ == Seq::<Entry<W>>::empty(),
            r.wf(),
    {
        let r = PendingTable { entries: Vec::new() };
        assert(r@ =~= Seq::<Entry<W>>::empty());
        r
    }

    /// The number of requests still waiting for a response.
    pub fn len(&self) -> (r: usize)
        ensures
            r == self@.len(),
    {
        self.entries.len()
    }

    /// Where the first entry for `k` stands.
    fn find(&self, k: &str) -> (r: Option<usize>)
        ensures
            match r {
                Some(i) => first_at(self@, k@, i as int),
                None => !holds(self@, k@),
            },
    {
        let key = k.to_owned();
        let mut i: usize = 0;
        while i < self.entries.len()
            invariant
                key@ == k@,
                i <= self@.len(),
                self@.len() == self.entries@.len(),
                forall|j: int| 0 <= j < i ==> self@[j].0 != k@,
            decreases self@.len() - i,
        {
            assert(self@[i as int].0 == self.entries@[i as int].0@);
            if self.entries[i].0 == key {
                return Some(i);
            }
            i = i + 1;
        }
        None
    }

    /// Whether a request with signature `k` is pending.
    pub fn contains(&self, k: &str) -> (r: bool)
        ensures
            r == holds(self@, k@),
    {
        self.find(k).is_some()
    }

    /// Registers the waiter of request `k`. When `k` is already pending the
    /// table is unchanged and the waiter is handed back.
    pub fn register(&mut self, k: String, w: W) -> (r: Option<W>)
        requires
            old(self).wf(),
        ensures
            final(self).wf(),
            final(self)@ == after_register(old(self)@, k@, w),
            holds(old(self)@, k@) ==> r == Some(w),
            !holds(old(self)@, k@) ==> r is None,
    {
        if self.contains(k.as_str()) {
            return Some(w);
        }
        let ghost before = self@;
        self.entries.push((k, w));
        assert(self@ =~= before.push((k@, w)));
        None
    }

    /// Takes the waiter of request `k` out of the table, if it is pending.
    pub fn resolve(&mut self, k: &str) -> (r: Option<W>)
        requires
            old(self).wf(),
        ensures
            final(self).wf(),
            (r, final(self)@) == after_resolve(old(self)@, k@),
    {
        match self.find(k) {
            Some(i) => {
                let ghost before = self@;
                proof {
                    let c = choose|c: int| first_at(before, k@, c);
                    assert(c == i as int) by {
                        if c < i { assert(before[c].0 != k@); }
                        if i < c { assert(before[i as int].0 != k@); }
                    }
                }
                let (_, w) = self.entries.remove(i);
                assert(self@ =~= before.remove(i as int));
                assert(distinct_keys(self@)) by {
                    assert forall|a: int, b: int| 0 <= a < self@.len() && 0 <= b < self@.len() && a != b
                        implies self@[a].0 != self@[b].0 by {
                        let a2 = if a < i { a } else { a + 1 };
                        let b2 = if b < i { b } else { b + 1 };
                        assert(self@[a] == before[a2]);
                        assert(self@[b] == before[b2]);
                    }
                }
                Some(w)
            },
            None => None,
        }
    }

    /// Empties the table, handing out every waiter in order of registration.
    pub fn drain(&mut self) -> (r: Vec<W>)
        ensures
            r@ == waiters(old(self)@),
            final(self)@ == Seq::<Entry<W>>::empty(),
            final(self).wf(),
    {
        let ghost before = self@;
        let mut out: Vec<W> = Vec::new();
        let mut old_entries: Vec<(String, W)> = Vec::new();
        std::mem::swap(&mut old_entries, &mut self.entries);
        assert(self@ =~= Seq::<Entry<W>>::empty());
        let ghost all = old_entries@;
        let mut rest = old_entries;
        proof {
            assert(before =~= all.map_values(|e: (String, W)| (e.0@, e.1)));
            assert(rest@ =~= all.skip(0));
        }
        while rest.len() > 0
            invariant
                before == all.map_values(|e: (String, W)| (e.0@, e.1)),
                out@.len() <= all.len(),
                rest@ == all.skip(out@.len() as int),
                forall|j: int| 0 <= j < out@.len() ==> out@[j] == all[j].1,
                self@ == Seq::<Entry<W>>::empty(),
            decreases rest@.len(),
        {
            let e = rest.remove(0);
            out.push(e.1);
            assert(rest@ =~= all.skip(out@.len() as int));
        }
        assert(out@ =~= waiters(before));
        out
    }
}

} // verus!
