//! Sets of collected shine ids.
use vstd::prelude::*;

verus! {

/// A set of shine ids, kept as a list without repeats.
#[derive(Debug)]
pub struct ShineBag {
    pub ids: Vec<i32>,
}

impl View for ShineBag {
    type V = Set<i32>;

    open spec fn view(&self) -> Set<i32> {
        self.ids@.to_set()
    }
}

impl ShineBag {
    /// No id is listed twice.
    pub open spec fn wf(&self) -> bool {
        self.ids@.no_duplicates()
    }

    pub fn new() -> (r: ShineBag)
        ensures
            r.wf(),
            r@ == Set::<i32>::empty(),
    {
        let r = ShineBag { ids: Vec::new() };
        assert(r.ids@.to_set() =~= Set::<i32>::empty());
        r
    }

    pub fn contains(&self, id: i32) -> (r: bool)
        ensures
            r == self@.contains(id),
    {
        let mut i: usize = 0;
        while i < self.ids.len()
            invariant
                0 <= i <= self.ids@.len(),
                forall|j: int| 0 <= j < i ==> self.ids@[j] != id,
            decreases self.ids@.len() - i,
        {
            if self.ids[i] == id {
                assert(self.ids@.contains(id));
                return true;
            }
            i = i + 1;
        }
        false
    }

    /// Adds an id; returns whether it was new.
    pub fn insert(&mut self, id: i32) -> (r: bool)
        requires
            old(self).wf(),
        ensures
            final(self).wf(),
            final(self)@ == old(self)@.insert(id),
            r == !old(self)@.contains(id),
    {
        if self.contains(id) {
            assert(self@.insert(id) =~= self@);
            false
        } else {
            self.ids.push(id);
            assert(self.ids@.to_set() =~= old(self).ids@.to_set().insert(id)) by {
                assert forall|x: i32| self.ids@.contains(x) <==> (old(self).ids@.contains(x) || x
                    == id) by {
                    if self.ids@.contains(x) {
                        let k = choose|k: int| 0 <= k < self.ids@.len() && self.ids@[k] == x;
                        if k < old(self).ids@.len() {
                            assert(old(self).ids@[k] == x);
                        }
                    }
                    if old(self).ids@.contains(x) {
                        let k = choose|k: int| 0 <= k < old(self).ids@.len() && old(self).ids@[k] == x;
                        assert(self.ids@[k] == x);
                    }
                    if x == id {
                        assert(self.ids@[self.ids@.len() - 1] == x);
                    }
                }
            }
            true
        }
    }

    pub fn clear(&mut self)
        ensures
            final(self).wf(),
            final(self)@ == Set::<i32>::empty(),
    {
        self.ids.clear();
        assert(self.ids@.to_set() =~= Set::<i32>::empty());
    }

    pub fn len(&self) -> (r: usize)
        requires
            self.wf(),
        ensures
            r == self@.len(),
    {
        proof {
            self.ids@.unique_seq_to_set();
        }
        self.ids.len()
    }

    /// The ids of this bag that `other` lacks, each once.
    pub fn missing_from(&self, other: &ShineBag) -> (r: Vec<i32>)
        requires
            self.wf(),
        ensures
            r@.no_duplicates(),
            r@.to_set() == self@.difference(other@),
    {
        let mut out: Vec<i32> = Vec::new();
        let mut i: usize = 0;
        while i < self.ids.len()
            invariant
                0 <= i <= self.ids@.len(),
                self.ids@.no_duplicates(),
                out@.no_duplicates(),
                forall|x: i32| out@.contains(x) <==> (exists|j: int| 0 <= j < i && self.ids@[j] == x)
                    && !other@.contains(x),
            decreases self.ids@.len() - i,
        {
            let id = self.ids[i];
            let ghost prev = out@;
            if !other.contains(id) {
                proof {
                    assert forall|a: int, b: int|
                        0 <= a < b < prev.push(id).len() implies prev.push(id)[a] != prev.push(
                        id,
                    )[b] by {
                        if b == prev.len() && prev[a] == id {
                            assert(prev.contains(id));
                            let j = choose|j: int| 0 <= j < i && self.ids@[j] == id;
                            assert(self.ids@[j] == self.ids@[i as int]);
                        }
                    }
                }
                out.push(id);
            }
            assert forall|x: i32| out@.contains(x) <==> (exists|j: int|
                0 <= j < i + 1 && self.ids@[j] == x) && !other@.contains(x) by {
                if out@.contains(x) {
                    let k = choose|k: int| 0 <= k < out@.len() && out@[k] == x;
                    if k < prev.len() {
                        assert(prev[k] == x);
                        assert(prev.contains(x));
                        let j = choose|j: int| 0 <= j < i && self.ids@[j] == x;
                        assert(0 <= j < i + 1 && self.ids@[j] == x);
                    } else {
                        assert(x == id);
                        assert(self.ids@[i as int] == x);
                    }
                }
                if (exists|j: int| 0 <= j < i + 1 && self.ids@[j] == x) && !other@.contains(x) {
                    let j = choose|j: int| 0 <= j < i + 1 && self.ids@[j] == x;
                    if j < i {
                        assert(prev.contains(x));
                        let k = choose|k: int| 0 <= k < prev.len() && prev[k] == x;
                        assert(out@[k] == x);
                    } else {
                        assert(out@[out@.len() - 1] == x);
                    }
                }
            }
            i = i + 1;
        }
        assert(out@.to_set() =~= self@.difference(other@)) by {
            assert forall|x: i32| out@.contains(x) <==> self.ids@.contains(x) && !other@.contains(
                x,
            ) by {
                if self.ids@.contains(x) {
                    let j = choose|j: int| 0 <= j < self.ids@.len() && self.ids@[j] == x;
                }
            }
        }
        out
    }
}

} // verus!
