//! The requests a session has sent and not yet seen answered, each with the
//! waiter that the answer is to be handed to.
use vstd::prelude::*;

use crate::text::str_equal;

verus! {

/// No id occurs twice.
pub open spec fn ids_unique<W>(s: Seq<(String, W)>) -> bool {
    forall|i: int, j: int| 0 <= i < j < s.len() ==> #[trigger] s[i].0@ != #[trigger] s[j].0@
}

/// Some entry has id `k`.
pub open spec fn has_id<W>(s: Seq<(String, W)>, k: Seq<char>) -> bool {
    exists|i: int| 0 <= i < s.len() && #[trigger] s[i].0@ == k
}

/// The waiters by id.
pub open spec fn waiters_by_id<W>(s: Seq<(String, W)>) -> Map<Seq<char>, W> {
    Map::new(
        |k: Seq<char>| has_id(s, k),
        |k: Seq<char>| s[choose|i: int| 0 <= i < s.len() && #[trigger] s[i].0@ == k].1,
    )
}

proof fn lemma_lookup<W>(s: Seq<(String, W)>, i: int)
    requires
        ids_unique(s),
        0 <= i < s.len(),
    ensures
        waiters_by_id(s).contains_key(s[i].0@),
        waiters_by_id(s)[s[i].0@] == s[i].1,
{
    let k = s[i].0@;
    assert(has_id(s, k));
    let c = choose|c: int| 0 <= c < s.len() && #[trigger] s[c].0@ == k;
    if c != i {
        if c < i {
            assert(s[c].0@ != s[i].0@);
        } else {
            assert(s[i].0@ != s[c].0@);
        }
    }
}

proof fn lemma_push<W>(s: Seq<(String, W)>, id: String, w: W)
    requires
        ids_unique(s),
        !has_id(s, id@),
    ensures
        ids_unique(s.push((id, w))),
        waiters_by_id(s.push((id, w))) =~= waiters_by_id(s).insert(id@, w),
{
    let t = s.push((id, w));
    assert forall|i: int, j: int| 0 <= i < j < t.len() implies #[trigger] t[i].0@ != #[trigger] t[j].0@ by {
        if j == s.len() {
            assert(s[i].0@ == t[i].0@);
        } else {
            assert(s[i].0@ != s[j].0@);
        }
    }
    assert forall|k: Seq<char>| has_id(t, k) <==> has_id(s, k) || k == id@ by {
        if has_id(s, k) {
            let i = choose|i: int| 0 <= i < s.len() && #[trigger] s[i].0@ == k;
            assert(t[i].0@ == k);
        }
        if k == id@ {
            assert(t[s.len() as int].0@ == k);
        }
        if has_id(t, k) && k != id@ {
            let i = choose|i: int| 0 <= i < t.len() && #[trigger] t[i].0@ == k;
            assert(s[i].0@ == k);
        }
    }
    assert forall|k: Seq<char>| #[trigger] waiters_by_id(t).contains_key(k) implies waiters_by_id(
        t,
    )[k] == waiters_by_id(s).insert(id@, w)[k] by {
        let i = choose|i: int| 0 <= i < t.len() && #[trigger] t[i].0@ == k;
        lemma_lookup(t, i);
        if i < s.len() {
            lemma_lookup(s, i);
        }
    }
}

proof fn lemma_remove<W>(s: Seq<(String, W)>, i: int)
    requires
        ids_unique(s),
        0 <= i < s.len(),
    ensures
        ids_unique(s.remove(i)),
        waiters_by_id(s.remove(i)) =~= waiters_by_id(s).remove(s[i].0@),
{
    let t = s.remove(i);
    let gone = s[i].0@;
    assert forall|a: int, b: int| 0 <= a < b < t.len() implies #[trigger] t[a].0@ != #[trigger] t[b].0@ by {
        let a0 = if a < i { a } else { a + 1 };
        let b0 = if b < i { b } else { b + 1 };
        assert(s[a0].0@ != s[b0].0@);
    }
    assert forall|k: Seq<char>| has_id(t, k) <==> has_id(s, k) && k != gone by {
        if has_id(t, k) {
            let a = choose|a: int| 0 <= a < t.len() && #[trigger] t[a].0@ == k;
            let a0 = if a < i { a } else { a + 1 };
            assert(s[a0].0@ == k);
            assert(s[a0].0@ != s[i].0@);
        }
        if has_id(s, k) && k != gone {
            let a = choose|a: int| 0 <= a < s.len() && #[trigger] s[a].0@ == k;
            if a < i {
                assert(t[a].0@ == k);
            } else {
                assert(t[a - 1].0@ == k);
            }
        }
    }
    assert forall|k: Seq<char>| #[trigger] waiters_by_id(t).contains_key(k) implies waiters_by_id(
        t,
    )[k] == waiters_by_id(s).remove(gone)[k] by {
        let a = choose|a: int| 0 <= a < t.len() && #[trigger] t[a].0@ == k;
        lemma_lookup(t, a);
        let a0 = if a < i { a } else { a + 1 };
        lemma_lookup(s, a0);
    }
}

/// The requests in flight: for each id, the waiter its answer goes to.
pub struct PendingRequests<W> {
    entries: Vec<(String, W)>,
}

impl<W> View for PendingRequests<W> {
    type V = Map<Seq<char>, W>;

    closed spec fn view(&self) -> Map<Seq<char>, W> {
        waiters_by_id(self.entries@)
    }
}

impl<W> PendingRequests<W> {
    /// No id is held twice.
    #[verifier::type_invariant]
    closed spec fn wf(&self) -> bool {
        ids_unique(self.entries@)
    }

    /// No request in flight.
    pub fn new() -> (r: PendingRequests<W>)
        ensures
            r@ == Map::<Seq<char>, W>::empty(),
    {
        let r = PendingRequests { entries: Vec::new() };
        assert(r@ =~= Map::<Seq<char>, W>::empty());
        r
    }

    /// The number of requests in flight.
    pub fn len(&self) -> (r: usize)
        ensures
            r == self@.len(),
    {
        proof {
            use_type_invariant(self);
            self.lemma_len();
        }
        self.entries.len()
    }

    proof fn lemma_len(&self)
        requires
            ids_unique(self.entries@),
        ensures
            self@.dom().finite(),
            self@.len() == self.entries@.len(),
        decreases self.entries@.len(),
    {
        let s = self.entries@;
        let ks = Seq::new(s.len(), |i: int| s[i].0@);
        assert forall|i: int, j: int| 0 <= i < j < ks.len() implies ks[i] != ks[j] by {
            assert(s[i].0@ != s[j].0@);
        }
        assert(ks.no_duplicates());
        assert forall|k: Seq<char>| self@.dom().contains(k) <==> ks.contains(k) by {
            if has_id(s, k) {
                let i = choose|i: int| 0 <= i < s.len() && #[trigger] s[i].0@ == k;
                assert(ks[i] == k);
            }
            if ks.contains(k) {
                let i = choose|i: int| 0 <= i < ks.len() && ks[i] == k;
                assert(s[i].0@ == k);
            }
        }
        assert(self@.dom() =~= ks.to_set());
        ks.unique_seq_to_set();
    }

    fn find(&self, id: &str) -> (r: Option<usize>)
        ensures
            match r {
                Some(i) => i < self.entries@.len() && self.entries@[i as int].0@ == id@,
                None => !has_id(self.entries@, id@),
            },
    {
        let mut i: usize = 0;
        while i < self.entries.len()
            invariant
                i <= self.entries@.len(),
                forall|j: int| 0 <= j < i ==> #[trigger] self.entries@[j].0@ != id@,
            decreases self.entries@.len() - i,
        {
            if str_equal(self.entries[i].0.as_str(), id) {
                return Some(i);
            }
            i = i + 1;
        }
        None
    }

    /// Records that the answer to `id` goes to `waiter`. A waiter already
    /// recorded for `id` is replaced, and handed back.
    pub fn insert(&mut self, id: String, waiter: W) -> (r: Option<W>)
        ensures
            final(self)@ == old(self)@.insert(id@, waiter),
            r == (if old(self)@.contains_key(id@) {
                Some(old(self)@[id@])
            } else {
                None
            }),
    {
        proof {
            use_type_invariant(&*self);
        }
        let found = self.find(id.as_str());
        let mut entries: Vec<(String, W)> = Vec::new();
        std::mem::swap(&mut entries, &mut self.entries);
        let displaced = match found {
            Some(i) => {
                proof {
                    lemma_lookup(entries@, i as int);
                    lemma_remove(entries@, i as int);
                }
                let (_, displaced) = entries.remove(i);
                proof {
                    assert(!waiters_by_id(entries@).contains_key(id@));
                }
                Some(displaced)
            },
            None => None,
        };
        proof {
            lemma_push(entries@, id, waiter);
        }
        entries.push((id, waiter));
        self.entries = entries;
        assert(self@ =~= old(self)@.insert(id@, waiter));
        displaced
    }

    /// Takes out the waiter recorded for `id`, if any.
    pub fn remove(&mut self, id: &str) -> (r: Option<W>)
        ensures
            final(self)@ == old(self)@.remove(id@),
            r == (if old(self)@.contains_key(id@) {
                Some(old(self)@[id@])
            } else {
                None
            }),
    {
        proof {
            use_type_invariant(&*self);
        }
        match self.find(id) {
            Some(i) => {
                let mut entries: Vec<(String, W)> = Vec::new();
                std::mem::swap(&mut entries, &mut self.entries);
                proof {
                    lemma_lookup(entries@, i as int);
                    lemma_remove(entries@, i as int);
                }
                let (_, w) = entries.remove(i);
                self.entries = entries;
                Some(w)
            },
            None => {
                assert(self@ =~= old(self)@.remove(id@));
                None
            },
        }
    }
}

} // verus!
