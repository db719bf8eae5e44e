//! A byte-keyed store: `get` reads a key (empty when absent), `set` overwrites it.

use vstd::prelude::*;

verus! {

/// Whether two byte strings are equal.
fn bytes_equal(a: &Vec<u8>, b: &Vec<u8>) -> (r: bool)
    ensures
        r == (a@ == b@),
{
    if a.len() != b.len() {
        return false;
    }
    let mut i: usize = 0;
    while i < a.len()
        invariant
            a@.len() == b@.len(),
            0 <= i <= a@.len(),
            forall|j: int| 0 <= j < i ==> a@[j] == b@[j],
        decreases a@.len() - i,
    {
        if a[i] != b[i] {
            return false;
        }
        i = i + 1;
    }
    assert(a@ =~= b@);
    true
}

/// A fresh copy of a byte string.
fn copy_bytes(a: &Vec<u8>) -> (r: Vec<u8>)
    ensures
        r@ == a@,
{
    let mut r: Vec<u8> = Vec::new();
    let mut i: usize = 0;
    while i < a.len()
        invariant
            0 <= i <= a@.len(),
            r@ == a@.subrange(0, i as int),
        decreases a@.len() - i,
    {
        r.push(a[i]);
        i = i + 1;
        assert(r@ =~= a@.subrange(0, i as int));
    }
    assert(a@.subrange(0, a@.len() as int) =~= a@);
    r
}

/// The value stored under `key` in `m`, or the empty string where `key` is absent.
pub open spec fn stored_or_empty(m: Map<Seq<u8>, Seq<u8>>, key: Seq<u8>) -> Seq<u8> {
    if m.contains_key(key) {
        m[key]
    } else {
        Seq::empty()
    }
}

/// A persistent mapping from byte keys to byte values.
pub struct Storage {
    entries: Vec<(Vec<u8>, Vec<u8>)>,
}

impl View for Storage {
    type V = Map<Seq<u8>, Seq<u8>>;

    closed spec fn view(&self) -> Map<Seq<u8>, Seq<u8>> {
        Map::new(
            |k: Seq<u8>| exists|i: int| 0 <= i < self.entries@.len() && #[trigger] self.entries@[i].0@ == k,
            |k: Seq<u8>|
                self.entries@[choose|i: int|
                    0 <= i < self.entries@.len() && #[trigger] self.entries@[i].0@ == k].1@,
        )
    }
}

impl Storage {
    /// No key is held twice.
    pub closed spec fn wf(&self) -> bool {
        forall|i: int, j: int|
            0 <= i < self.entries@.len() && 0 <= j < self.entries@.len() && i != j
                ==> #[trigger] self.entries@[i].0@ != #[trigger] self.entries@[j].0@
    }

    /// An empty store.
    pub fn new() -> (s: Storage)
        ensures
            s.wf(),
            s@ == Map::<Seq<u8>, Seq<u8>>::empty(),
    {
        let s = Storage { entries: Vec::new() };
        assert(s@ =~= Map::<Seq<u8>, Seq<u8>>::empty());
        s
    }

    /// The position of `key`, if it is held.
    fn find(&self, key: &Vec<u8>) -> (r: Option<usize>)
        requires
            self.wf(),
        ensures
            match r {
                Some(i) => i < self.entries@.len() && self.entries@[i as int].0@ == key@,
                None => forall|i: int|
                    0 <= i < self.entries@.len() ==> #[trigger] self.entries@[i].0@ != key@,
            },
    {
        let mut i: usize = 0;
        while i < self.entries.len()
            invariant
                0 <= i <= self.entries@.len(),
                forall|j: int| 0 <= j < i ==> #[trigger] self.entries@[j].0@ != key@,
            decreases self.entries@.len() - i,
        {
            if bytes_equal(&self.entries[i].0, key) {
                return Some(i);
            }
            i = i + 1;
        }
        None
    }

    /// The value stored under `key`; empty where the key is absent.
    pub fn get(&self, key: &Vec<u8>) -> (r: Vec<u8>)
        requires
            self.wf(),
        ensures
            r@ == stored_or_empty(self@, key@),
    {
        match self.find(key) {
            Some(i) => {
                proof {
                    let k = key@;
                    assert(self@.contains_key(k));
                    let j = choose|j: int|
                        0 <= j < self.entries@.len() && #[trigger] self.entries@[j].0@ == k;
                    assert(j == i);
                }
                copy_bytes(&self.entries[i].1)
            },
            None => {
                assert(!self@.contains_key(key@));
                Vec::new()
            },
        }
    }

    /// Stores `value` under `key`, replacing what was there.
    pub fn set(&mut self, key: Vec<u8>, value: Vec<u8>)
        requires
            old(self).wf(),
        ensures
            final(self).wf(),
            final(self)@ == old(self)@.insert(key@, value@),
    {
        let ghost k = key@;
        let ghost v = value@;
        let found = self.find(&key);
        let ghost pos: int = match found {
            Some(i) => i as int,
            None => old(self).entries@.len() as int,
        };
        match found {
            Some(i) => {
                self.entries.set(i, (key, value));
            },
            None => {
                self.entries.push((key, value));
            },
        }
        proof {
            let oe = old(self).entries@;
            let ne = self.entries@;
            assert(ne[pos].0@ == k && ne[pos].1@ == v);
            assert(forall|j: int| 0 <= j < ne.len() && j != pos ==> ne[j] == oe[j]);
            assert forall|q: Seq<u8>|
                #[trigger] self@.contains_key(q) == old(self)@.insert(k, v).contains_key(q) by {
                if self@.contains_key(q) {
                    let j = choose|j: int| 0 <= j < ne.len() && #[trigger] ne[j].0@ == q;
                    if j != pos {
                        assert(oe[j].0@ == q);
                    }
                }
                if old(self)@.contains_key(q) && q != k {
                    let j0 = choose|j: int| 0 <= j < oe.len() && #[trigger] oe[j].0@ == q;
                    assert(ne[j0].0@ == q);
                }
                if q == k {
                    assert(ne[pos].0@ == q);
                }
            }
            assert forall|q: Seq<u8>| #[trigger] self@.contains_key(q) implies self@[q] == old(
                self,
            )@.insert(k, v)[q] by {
                let j = choose|j: int| 0 <= j < ne.len() && #[trigger] ne[j].0@ == q;
                if q == k {
                    assert(ne[pos].0@ == q);
                } else {
                    let j0 = choose|j: int| 0 <= j < oe.len() && #[trigger] oe[j].0@ == q;
                    assert(ne[j0].0@ == q);
                }
            }
            assert(self@ =~= old(self)@.insert(k, v));
        }
    }
}

} // verus!
