//! A name-indexed store: elements are kept densely in insertion order and
//! can be fetched either by index or by name.  Inserting a name again makes
//! the later element the one the name resolves to.

use vstd::prelude::*;

verus! {

/// A dense store of values addressable by name or by index.
pub struct Repository<V> {
    names: Vec<String>,
    data: Vec<V>,
}

impl<V> Repository<V> {
    /// Number of stored elements.
    pub closed spec fn len(&self) -> int {
        self.data@.len() as int
    }

    /// The name under which element `i` was inserted.
    pub closed spec fn key_at(&self, i: int) -> Seq<char> {
        self.names@[i]@
    }

    /// The element at index `i`.
    pub closed spec fn at(&self, i: int) -> V {
        self.data@[i]
    }

    /// Names and data always cover the same indices.
    pub closed spec fn wf(&self) -> bool {
        self.names@.len() == self.data@.len()
    }

    /// Whether some element was inserted under `key`.
    pub open spec fn has_key(&self, key: Seq<char>) -> bool {
        exists|i: int| 0 <= i < self.len() && self.key_at(i) == key
    }

    /// The index `key` resolves to: the latest insertion under that name.
    pub open spec fn resolved(&self, key: Seq<char>) -> int {
        choose|i: int|
            0 <= i < self.len() && self.key_at(i) == key && forall|j: int|
                i < j < self.len() ==> self.key_at(j) != key
    }

    /// An empty repository.
    pub fn new() -> (r: Repository<V>)
        ensures
            r.len() == 0,
            r.wf(),
    {
        Repository { names: Vec::new(), data: Vec::new() }
    }

    /// An empty repository; capacity is a hint only and does not affect
    /// observable behavior.
    pub fn with_capacity(cap: usize) -> (r: Repository<V>)
        ensures
            r.len() == 0,
            r.wf(),
    {
        let _ = cap;
        Repository { names: Vec::new(), data: Vec::new() }
    }

    /// Appends an element under a name and returns its index; the name now
    /// resolves to this element.
    pub fn insert(&mut self, name: String, element: V) -> (i: usize)
        requires
            old(self).wf(),
        ensures
            final(self).wf(),
            i == old(self).len(),
            final(self).len() == old(self).len() + 1,
            final(self).at(i as int) == element,
            final(self).key_at(i as int) == name@,
            forall|j: int|
                0 <= j < old(self).len() ==> final(self).at(j) == old(self).at(j) && final(self).key_at(j) == old(self).key_at(j),
    {
        let i = self.data.len();
        self.names.push(name);
        self.data.push(element);
        i
    }

    /// The element at a known index.
    pub fn index(&self, index: usize) -> (r: &V)
        requires
            self.wf(),
            index < self.len(),
        ensures
            *r == self.at(index as int),
    {
        &self.data[index]
    }

    /// The index the name resolves to: the latest insertion under it, or
    /// `None` if the name was never inserted.
    pub fn index_of(&self, name: &String) -> (r: Option<usize>)
        requires
            self.wf(),
        ensures
            match r {
                Some(i) => i < self.len() && self.key_at(i as int) == name@ && (forall|j: int|
                    i < j < self.len() ==> self.key_at(j) != name@),
                None => !self.has_key(name@),
            },
    {
        let mut k = self.names.len();
        while k > 0
            invariant
                self.wf(),
                k <= self.len(),
                forall|j: int| k <= j < self.len() ==> self.key_at(j) != name@,
            decreases k,
        {
            k = k - 1;
            if self.names[k] == *name {
                return Some(k);
            }
        }
        None
    }

    /// The element the name resolves to, if any.
    pub fn name(&self, name: &String) -> (r: Option<&V>)
        requires
            self.wf(),
        ensures
            match r {
                Some(v) => self.has_key(name@) && 0 <= self.resolved(name@) < self.len()
                    && self.key_at(self.resolved(name@)) == name@ && *v == self.at(
                    self.resolved(name@),
                ),
                None => !self.has_key(name@),
            },
    {
        match self.index_of(name) {
            Some(i) => {
                proof {
                    assert(0 <= i < self.len() && self.key_at(i as int) == name@ && forall|j: int|
                        i < j < self.len() ==> self.key_at(j) != name@);
                    let w = choose|w: int|
                        0 <= w < self.len() && self.key_at(w) == name@ && forall|j: int|
                            w < j < self.len() ==> self.key_at(j) != name@;
                    assert(w == i);
                }
                Some(&self.data[i])
            },
            None => None,
        }
    }
}

} // verus!
