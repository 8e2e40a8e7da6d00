//! The registry of open requests: each request that was accepted and not yet
//! answered, with its cancel flag.

use crate::util::ServerError;
use vstd::prelude::*;

verus! {

/// The identifier that a client gave a request: a number or a text.
#[derive(Debug)]
pub enum RequestId {
    Number(i32),
    Text(String),
}

/// What a request identifier stands for.
pub enum Id {
    Number(i32),
    Text(Seq<char>),
}

impl View for RequestId {
    type V = Id;

    open spec fn view(&self) -> Id {
        match self {
            RequestId::Number(n) => Id::Number(*n),
            RequestId::Text(s) => Id::Text(s@),
        }
    }
}

impl RequestId {
    /// Whether two identifiers stand for the same request.
    pub fn same(&self, other: &RequestId) -> (r: bool)
        ensures
            r == (self@ == other@),
    {
        match (self, other) {
            (RequestId::Number(a), RequestId::Number(b)) => *a == *b,
            (RequestId::Text(a), RequestId::Text(b)) => *a == *b,
            _ => false,
        }
    }
}

/// Some entry of `entries` has the identifier `k`.
pub open spec fn listed<C>(entries: Seq<(RequestId, C)>, k: Id) -> bool {
    exists|i: int| 0 <= i < entries.len() && (#[trigger] entries[i]).0@ == k
}

/// The index of an entry of `entries` with the identifier `k`.
pub open spec fn at<C>(entries: Seq<(RequestId, C)>, k: Id) -> int {
    choose|i: int| 0 <= i < entries.len() && (#[trigger] entries[i]).0@ == k
}

/// No two entries of `entries` have the same identifier.
pub open spec fn distinct<C>(entries: Seq<(RequestId, C)>) -> bool {
    forall|i: int, j: int|
        0 <= i < entries.len() && 0 <= j < entries.len() && i != j ==> (#[trigger] entries[i]).0@
            != (#[trigger] entries[j]).0@
}

/// The open requests, each with the cancel flag of type `C` that it was
/// accepted with.
pub struct OpenRequests<C> {
    entries: Vec<(RequestId, C)>,
}

impl<C> View for OpenRequests<C> {
    type V = Map<Id, C>;

    closed spec fn view(&self) -> Map<Id, C> {
        Map::new(|k: Id| listed(self.entries@, k), |k: Id| self.entries@[at(self.entries@, k)].1)
    }
}

impl<C> OpenRequests<C> {
    /// No request is registered twice.
    pub closed spec fn wf(&self) -> bool {
        distinct(self.entries@)
    }

    /// In a registry without repetitions, the entry at an index is the one
    /// that is found under its identifier.
    proof fn lemma_at(entries: Seq<(RequestId, C)>, i: int)
        requires
            distinct(entries),
            0 <= i < entries.len(),
        ensures
            listed(entries, entries[i].0@),
            at(entries, entries[i].0@) == i,
    {
        let k = entries[i].0@;
        assert(listed(entries, k));
        let j = at(entries, k);
        assert(entries[j].0@ == k);
    }

    /// The index of the entry with the identifier `id`.
    fn find(&self, id: &RequestId) -> (r: Option<usize>)
        ensures
            match r {
                Some(i) => i < self.entries@.len() && self.entries@[i as int].0@ == id@,
                None => !listed(self.entries@, id@),
            },
    {
        let mut i: usize = 0;
        while i < self.entries.len()
            invariant
                i <= self.entries.len(),
                forall|j: int| 0 <= j < i ==> (#[trigger] self.entries@[j]).0@ != id@,
            decreases self.entries.len() - i,
        {
            if self.entries[i].0.same(id) {
                return Some(i);
            }
            i = i + 1;
        }
        None
    }

    /// The registry without requests.
    pub fn new() -> (r: Self)
        ensures
            r.wf(),
            r@ == Map::<Id, C>::empty(),
    {
        let r = OpenRequests { entries: Vec::new() };
        assert(r@ =~= Map::<Id, C>::empty());
        r
    }

    /// Removes the entry with the identifier `id`, if there is one, and
    /// returns its flag.
    fn take(&mut self, id: &RequestId) -> (r: Option<C>)
        requires
            old(self).wf(),
        ensures
            final(self).wf(),
            final(self)@ == old(self)@.remove(id@),
            r == if old(self)@.contains_key(id@) {
                Some(old(self)@[id@])
            } else {
                None
            },
    {
        let ghost before = self.entries@;
        match self.find(id) {
            None => {
                assert(self@ =~= self@.remove(id@));
                None
            },
            Some(i) => {
                proof {
                    Self::lemma_at(before, i as int);
                }
                let entry = self.entries.remove(i);
                proof {
                    let after = self.entries@;
                    assert(after == before.remove(i as int));
                    assert(distinct(after)) by {
                        assert forall|a: int, b: int|
                            0 <= a < after.len() && 0 <= b < after.len() && a != b implies (
                        #[trigger] after[a]).0@ != (#[trigger] after[b]).0@ by {
                            let a0 = if a < i { a } else { a + 1 };
                            let b0 = if b < i { b } else { b + 1 };
                            assert(after[a] == before[a0]);
                            assert(after[b] == before[b0]);
                        }
                    }
                    assert forall|k: Id| listed(after, k) == (listed(before, k) && k != id@) by {
                        if listed(after, k) {
                            let a = at(after, k);
                            let a0 = if a < i { a } else { a + 1 };
                            assert(after[a] == before[a0]);
                            assert(before[a0].0@ == k);
                        }
                        if listed(before, k) && k != id@ {
                            let a0 = at(before, k);
                            let a = if a0 < i { a0 } else { a0 - 1 };
                            assert(after[a] == before[a0]);
                            assert(after[a].0@ == k);
                        }
                    }
                    assert forall|k: Id| listed(after, k) implies after[at(after, k)].1 == before[at(
                        before,
                        k,
                    )].1 by {
                        let a = at(after, k);
                        let a0 = if a < i { a } else { a + 1 };
                        assert(after[a] == before[a0]);
                        Self::lemma_at(before, a0);
                    }
                    assert(self@ =~= Map::new(
                        |k: Id| listed(before, k),
                        |k: Id| before[at(before, k)].1,
                    ).remove(id@));
                }
                Some(entry.1)
            },
        }
    }

    /// Registers the request `id` with its flag `cancel`. An entry that was
    /// there under `id` is replaced.
    pub fn accept(&mut self, id: RequestId, cancel: C)
        requires
            old(self).wf(),
        ensures
            final(self).wf(),
            final(self)@ == old(self)@.insert(id@, cancel),
    {
        let ghost start = self@;
        let _ = self.take(&id);
        let ghost before = self.entries@;
        let ghost mid = self@;
        assert(!listed(before, id@)) by {
            assert(!mid.contains_key(id@));
        }
        let ghost key = id@;
        self.entries.push((id, cancel));
        proof {
            let after = self.entries@;
            let n = before.len() as int;
            assert(after[n].0@ == key);
            assert(distinct(after)) by {
                assert forall|a: int, b: int|
                    0 <= a < after.len() && 0 <= b < after.len() && a != b implies (
                #[trigger] after[a]).0@ != (#[trigger] after[b]).0@ by {
                    if a < n {
                        assert(after[a] == before[a]);
                    }
                    if b < n {
                        assert(after[b] == before[b]);
                    }
                }
            }
            assert forall|k: Id| listed(after, k) == (listed(before, k) || k == key) by {
                if listed(after, k) {
                    let a = at(after, k);
                    if a < n {
                        assert(after[a] == before[a]);
                    }
                }
                if listed(before, k) {
                    let a = at(before, k);
                    assert(after[a] == before[a]);
                }
            }
            assert forall|k: Id| listed(after, k) implies after[at(after, k)].1 == (if k == key {
                cancel
            } else {
                before[at(before, k)].1
            }) by {
                let a = at(after, k);
                Self::lemma_at(after, a);
                if k == key {
                    Self::lemma_at(after, n);
                } else {
                    assert(after[a] == before[a]);
                    Self::lemma_at(before, a);
                }
            }
            assert(self@ =~= mid.insert(key, cancel));
            assert(mid.insert(key, cancel) =~= start.insert(key, cancel));
        }
    }

    /// The flag of the request `id`, if it is open.
    pub fn get(&self, id: &RequestId) -> (r: Option<&C>)
        requires
            self.wf(),
        ensures
            match r {
                Some(c) => self@.contains_key(id@) && *c == self@[id@],
                None => !self@.contains_key(id@),
            },
    {
        match self.find(id) {
            None => None,
            Some(i) => {
                proof {
                    Self::lemma_at(self.entries@, i as int);
                }
                Some(&self.entries[i].1)
            },
        }
    }

    /// The flag that a cancellation of `id` has to raise: that of the
    /// request, if it is open. A cancellation of a request that is not open
    /// raises nothing.
    pub fn cancel(&self, id: &RequestId) -> (r: Option<&C>)
        requires
            self.wf(),
        ensures
            match r {
                Some(c) => self@.contains_key(id@) && *c == self@[id@],
                None => !self@.contains_key(id@),
            },
    {
        self.get(id)
    }

    /// The flag that a response of the client to `id` has to raise. A
    /// response to a request that is not open is an error.
    pub fn response(&self, id: &RequestId) -> (r: Result<&C, ServerError>)
        requires
            self.wf(),
        ensures
            match r {
                Ok(c) => self@.contains_key(id@) && *c == self@[id@],
                Err(e) => !self@.contains_key(id@) && e == ServerError::ResponseToUnknownRequest,
            },
    {
        match self.get(id) {
            Some(c) => Ok(c),
            None => Err(ServerError::ResponseToUnknownRequest),
        }
    }

    /// The request `id` has been answered: it leaves the registry, whether
    /// or not it was still there. Returns its flag.
    pub fn finish(&mut self, id: &RequestId) -> (r: Option<C>)
        requires
            old(self).wf(),
        ensures
            final(self).wf(),
            final(self)@ == old(self)@.remove(id@),
            r == if old(self)@.contains_key(id@) {
                Some(old(self)@[id@])
            } else {
                None
            },
    {
        self.take(id)
    }
}

} // verus!
