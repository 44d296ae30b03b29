//! A decoded frame: a map from measurement keys to decimal text or unit names.

use vstd::prelude::*;

verus! {

/// The mapping a datagram decodes to. Each key occurs at most once.
pub struct Frame {
    keys: Vec<String>,
    values: Vec<String>,
}

impl Frame {
    /// Keys and values pair up, and no key occurs twice.
    pub closed spec fn wf(&self) -> bool {
        &&& self.keys.len() == self.values.len()
        &&& forall|i: int, j: int|
            0 <= i < self.keys.len() && 0 <= j < self.keys.len() && i != j
                ==> self.keys[i]@ != self.keys[j]@
    }

    spec fn slot(&self, k: Seq<char>) -> int {
        choose|i: int| 0 <= i < self.keys.len() && self.keys[i]@ == k
    }
}

impl View for Frame {
    type V = Map<Seq<char>, Seq<char>>;

    closed spec fn view(&self) -> Map<Seq<char>, Seq<char>> {
        Map::new(
            |k: Seq<char>| exists|i: int| 0 <= i < self.keys.len() && self.keys[i]@ == k,
            |k: Seq<char>| self.values[self.slot(k)]@,
        )
    }
}

impl Frame {
    /// An empty frame.
    pub fn new() -> (r: Frame)
        ensures
            r.wf(),
            r@ == Map::<Seq<char>, Seq<char>>::empty(),
    {
        let r = Frame { keys: Vec::new(), values: Vec::new() };
        assert(r@ =~= Map::<Seq<char>, Seq<char>>::empty());
        r
    }

    fn find(&self, key: &String) -> (r: Option<usize>)
        ensures
            match r {
                Some(i) => i < self.keys.len() && self.keys[i as int]@ == key@,
                None => forall|i: int| 0 <= i < self.keys.len() ==> self.keys[i]@ != key@,
            },
    {
        let mut i: usize = 0;
        while i < self.keys.len()
            invariant
                i <= self.keys.len(),
                forall|j: int| 0 <= j < i ==> self.keys[j]@ != key@,
            decreases self.keys.len() - i,
        {
            if self.keys[i] == *key {
                return Some(i);
            }
            i = i + 1;
        }
        None
    }

    /// Sets `key` to `value`, replacing an earlier value of the same key.
    pub fn insert(&mut self, key: String, value: String)
        requires
            old(self).wf(),
        ensures
            final(self).wf(),
            final(self)@ == old(self)@.insert(key@, value@),
    {
        let found = self.find(&key);
        let ghost before = *self;
        match found {
            Some(i) => {
                self.values.set(i, value);
                proof {
                    assert forall|k: Seq<char>| #[trigger] self@.contains_key(k) implies
                        self@[k] == before@.insert(key@, value@)[k] by {
                        let s = self.slot(k);
                        if k == key@ {
                            assert(s == i);
                        } else {
                            assert(before.slot(k) == s);
                        }
                    }
                    assert(self@ =~= before@.insert(key@, value@));
                }
            },
            None => {
                self.keys.push(key);
                self.values.push(value);
                proof {
                    let n = before.keys.len() as int;
                    assert(self.keys[n]@ == key@);
                    assert forall|k: Seq<char>| #[trigger] self@.contains_key(k) implies
                        self@[k] == before@.insert(key@, value@)[k] by {
                        let s = self.slot(k);
                        if k == key@ {
                            assert(s == n);
                        } else {
                            let t = choose|t: int| 0 <= t < self.keys.len() && self.keys[t]@ == k;
                            assert(t < n);
                            assert(before.keys[t]@ == k);
                            assert(before.slot(k) == s);
                        }
                    }
                    assert forall|k: Seq<char>| before@.insert(key@, value@).contains_key(k) implies
                        #[trigger] self@.contains_key(k) by {
                        if k != key@ {
                            let t = choose|t: int| 0 <= t < before.keys.len() && before.keys[t]@ == k;
                            assert(self.keys[t]@ == k);
                        }
                    }
                    assert(self@ =~= before@.insert(key@, value@));
                }
            },
        }
    }

    /// The value stored under `key`, if any.
    pub fn get(&self, key: &str) -> (r: Option<String>)
        requires
            self.wf(),
        ensures
            match r {
                Some(v) => self@.contains_key(key@) && v@ == self@[key@],
                None => !self@.contains_key(key@),
            },
    {
        let k = key.to_owned();
        match self.find(&k) {
            Some(i) => {
                proof { assert(self.slot(key@) == i); }
                Some(self.values[i].clone())
            },
            None => None,
        }
    }

    /// Whether `key` is present.
    pub fn contains_key(&self, key: &str) -> (r: bool)
        requires
            self.wf(),
        ensures
            r == self@.contains_key(key@),
    {
        let k = key.to_owned();
        self.find(&k).is_some()
    }

    /// Whether the frame holds no entry at all.
    pub fn is_empty(&self) -> (r: bool)
        requires
            self.wf(),
        ensures
            r == (self@ == Map::<Seq<char>, Seq<char>>::empty()),
    {
        if self.keys.len() == 0 {
            assert(self@ =~= Map::<Seq<char>, Seq<char>>::empty());
            true
        } else {
            assert(self@.contains_key(self.keys[0]@));
            false
        }
    }
}

} // verus!
