//! A double-ended list of values.
//!
//! `AList` supports pushing and popping at both ends and an in-place
//! reversal.  Its abstract value is the sequence of elements from front to
//! back; the elements are stored back-to-front so that the front operations,
//! the common case, run in constant time.

use vstd::prelude::*;

verus! {

/// The reversal of a sequence.
pub open spec fn rev_seq<T>(s: Seq<T>) -> Seq<T> {
    Seq::new(s.len(), |i: int| s[s.len() - 1 - i])
}

/// A double-ended list; the view is the sequence of elements front to back.
#[derive(Debug)]
pub struct AList<T> {
    storage: Vec<T>,
}

impl<T> View for AList<T> {
    type V = Seq<T>;

    closed spec fn view(&self) -> Seq<T> {
        rev_seq(self.storage@)
    }
}

impl<T> AList<T> {
    /// An empty list.
    pub fn new() -> (r: Self)
        ensures
            r@ == Seq::<T>::empty(),
    {
        let r = AList { storage: Vec::new() };
        proof {
            assert(r@ =~= Seq::<T>::empty());
        }
        r
    }

    /// A list holding the one given element.
    pub fn from(data: T) -> (r: Self)
        ensures
            r@ =~= seq![data],
    {
        let mut storage = Vec::new();
        storage.push(data);
        let r = AList { storage };
        proof {
            assert(r@ =~= seq![data]);
        }
        r
    }

    /// The number of elements.
    pub fn len(&self) -> (n: usize)
        ensures
            n == self@.len(),
    {
        self.storage.len()
    }

    /// Whether the list holds no element.
    pub fn is_empty(&self) -> (b: bool)
        ensures
            b == (self@.len() == 0),
    {
        self.storage.len() == 0
    }

    /// Applies the closure to the front element, if any, and returns its
    /// result.
    pub fn map_head<C: FnOnce(&T) -> R, R>(&self, closure: C) -> (r: Option<R>)
        requires
            self@.len() > 0 ==> call_requires(closure, (&self@[0],)),
        ensures
            match r {
                Some(y) => self@.len() > 0 && call_ensures(closure, (&self@[0],), y),
                None => self@.len() == 0,
            },
    {
        if self.storage.len() == 0 {
            None
        } else {
            let head = &self.storage[self.storage.len() - 1];
            assert(*head == self@[0]);
            Some(closure(head))
        }
    }

    /// Adds an element at the front.
    pub fn push(&mut self, data: T)
        ensures
            final(self)@ =~= seq![data] + old(self)@,
    {
        self.storage.push(data);
    }

    /// Removes and returns the front element.
    pub fn pop(&mut self) -> (r: Option<T>)
        ensures
            match r {
                Some(x) => old(self)@.len() > 0 && x == old(self)@[0] && final(self)@ =~= old(
                    self,
                )@.drop_first(),
                None => old(self)@.len() == 0 && final(self)@ == old(self)@,
            },
    {
        let r = self.storage.pop();
        proof {
            if old(self)@.len() > 0 {
                assert(self@ =~= old(self)@.drop_first());
            } else {
                assert(self@ =~= old(self)@);
            }
        }
        r
    }

    /// Adds an element at the back.
    pub fn push_back(&mut self, data: T)
        ensures
            final(self)@ =~= old(self)@ + seq![data],
    {
        self.storage.insert(0, data);
    }

    /// Removes and returns the back element.
    pub fn pop_back(&mut self) -> (r: Option<T>)
        ensures
            match r {
                Some(x) => old(self)@.len() > 0 && x == old(self)@.last() && final(self)@ =~= old(
                    self,
                )@.drop_last(),
                None => old(self)@.len() == 0 && final(self)@ == old(self)@,
            },
    {
        if self.storage.len() == 0 {
            proof {
                assert(self@ =~= old(self)@);
            }
            None
        } else {
            let r = self.storage.remove(0);
            proof {
                assert(self@ =~= old(self)@.drop_last());
            }
            Some(r)
        }
    }

    /// Reverses the list in place.
    pub fn reversed(&mut self)
        ensures
            final(self)@ =~= rev_seq(old(self)@),
    {
        let ghost orig = self.storage@;
        let mut flipped: Vec<T> = Vec::new();
        while self.storage.len() > 0
            invariant
                self.storage@ =~= orig.subrange(0, self.storage@.len() as int),
                flipped@ =~= rev_seq(orig).subrange(0, flipped@.len() as int),
                self.storage@.len() + flipped@.len() == orig.len(),
            decreases self.storage@.len(),
        {
            let x = self.storage.pop().unwrap();
            flipped.push(x);
        }
        self.storage = flipped;
        proof {
            assert(self@ =~= rev_seq(old(self)@));
        }
    }

    /// Consumes the list, yielding an iterator-like cursor over its elements.
    pub fn into_iter(self) -> (r: IntoIter<T>)
        ensures
            r@ == self@,
    {
        IntoIter(self)
    }
}

impl<T> Default for AList<T> {
    /// An empty list.
    fn default() -> (r: Self)
        ensures
            r@ == Seq::<T>::empty(),
    {
        AList::new()
    }
}

/// A consuming cursor over an `AList`, from either end.
pub struct IntoIter<T>(AList<T>);

impl<T> View for IntoIter<T> {
    type V = Seq<T>;

    closed spec fn view(&self) -> Seq<T> {
        self.0@
    }
}

impl<T> IntoIter<T> {
    /// Takes the next element from the front.
    pub fn next(&mut self) -> (r: Option<T>)
        ensures
            match r {
                Some(x) => old(self)@.len() > 0 && x == old(self)@[0] && final(self)@ =~= old(
                    self,
                )@.drop_first(),
                None => old(self)@.len() == 0 && final(self)@ == old(self)@,
            },
    {
        self.0.pop()
    }

    /// Takes the next element from the back.
    pub fn next_back(&mut self) -> (r: Option<T>)
        ensures
            match r {
                Some(x) => old(self)@.len() > 0 && x == old(self)@.last() && final(self)@ =~= old(
                    self,
                )@.drop_last(),
                None => old(self)@.len() == 0 && final(self)@ == old(self)@,
            },
    {
        self.0.pop_back()
    }
}

} // verus!
