//! A store of strings in which no text occurs twice.

use vstd::prelude::*;
use crate::small_string::SmallString;

verus! {

pub struct StringInterner {
    inner: Vec<SmallString>,
}

impl View for StringInterner {
    type V = Set<Seq<char>>;

    closed spec fn view(&self) -> Set<Seq<char>> {
        Set::new(|text: Seq<char>| exists|i: int| 0 <= i < self.inner.len() && self.inner[i]@ == text)
    }
}

impl StringInterner {
    /// No text is stored twice.
    pub closed spec fn wf(&self) -> bool {
        forall|i: int, j: int|
            0 <= i < j < self.inner.len() ==> self.inner[i]@ != self.inner[j]@
    }

    /// An empty store with room for `capacity` strings.
    pub fn with_capacity(capacity: usize) -> (r: StringInterner)
        ensures
            r@ == Set::<Seq<char>>::empty(),
            r.wf(),
    {
        let r = StringInterner { inner: Vec::with_capacity(capacity) };
        assert(r@ =~= Set::<Seq<char>>::empty());
        r
    }

    /// The position of `element` in the store.
    fn find(&self, element: &str) -> (r: Option<usize>)
        ensures
            match r {
                Some(i) => i < self.inner.len() && self.inner[i as int]@ == element@,
                None => !self@.contains(element@),
            },
    {
        let mut i: usize = 0;
        while i < self.inner.len()
            invariant
                i <= self.inner.len(),
                forall|j: int| 0 <= j < i ==> self.inner[j]@ != element@,
            decreases self.inner.len() - i,
        {
            if self.inner[i].has_text(element) {
                return Some(i);
            }
            i += 1;
        }
        None
    }

    /// Adds `element` to the store. Returns whether it was new.
    pub fn insert(&mut self, element: &str) -> (r: bool)
        requires
            old(self).wf(),
        ensures
            final(self).wf(),
            r == !old(self)@.contains(element@),
            final(self)@ == old(self)@.insert(element@),
    {
        match self.find(element) {
            Some(i) => {
                assert(self@.contains(element@));
                assert(self@ =~= self@.insert(element@));
                false
            },
            None => {
                let ghost before = self.inner@;
                let ghost texts = self@;
                self.inner.push(SmallString::new(element));
                assert(self.inner@.drop_last() =~= before);
                assert forall|text: Seq<char>| self@.contains(text) == texts.insert(
                    element@,
                ).contains(text) by {
                    if texts.contains(text) {
                        let i = choose|i: int| 0 <= i < before.len() && before[i]@ == text;
                        assert(self.inner[i]@ == text);
                    }
                    if text == element@ {
                        assert(self.inner[before.len() as int]@ == text);
                    }
                }
                assert(self@ =~= texts.insert(element@));
                true
            },
        }
    }

    /// The stored string with the text of `element`, which is added first
    /// where the store lacks it.
    pub fn get_or_insert(&mut self, element: &str) -> (r: SmallString)
        requires
            old(self).wf(),
        ensures
            final(self).wf(),
            r@ == element@,
            final(self)@ == old(self)@.insert(element@),
    {
        match self.find(element) {
            Some(i) => {
                assert(self@.contains(element@));
                assert(self@ =~= self@.insert(element@));
                self.inner[i].duplicate()
            },
            None => {
                let small = SmallString::new(element);
                let copy = small.duplicate();
                let ghost before = self.inner@;
                let ghost texts = self@;
                self.inner.push(small);
                assert(self.inner@.drop_last() =~= before);
                assert forall|text: Seq<char>| self@.contains(text) == texts.insert(
                    element@,
                ).contains(text) by {
                    if texts.contains(text) {
                        let i = choose|i: int| 0 <= i < before.len() && before[i]@ == text;
                        assert(self.inner[i]@ == text);
                    }
                    if text == element@ {
                        assert(self.inner[before.len() as int]@ == text);
                    }
                }
                assert(self@ =~= texts.insert(element@));
                copy
            },
        }
    }
}

} // verus!
