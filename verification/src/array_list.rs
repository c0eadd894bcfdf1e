//! A sequence that grows and shrinks, kept in a buffer whose size is a
//! power of two.

use crate::array::Array;
use crate::element::{texts, Element};
use crate::error::{out_of_range, ArrayError};
use crate::pow2::{
    get_next_pow2, halved, is_pow2, lemma_next_pow2_bounds, lemma_next_pow2_doubles,
    lemma_next_pow2_fits, lemma_pow2_at_least, next_pow2, pow2_at_least,
};
use crate::text::bracketed;
use vstd::prelude::*;

verus! {

/// The capacity of a list that held `len` elements in `cap` slots, after one
/// more was inserted: the next power of two, once the new length reaches
/// `cap`.
pub open spec fn grown_capacity(len: nat, cap: nat) -> nat {
    if len + 1 >= cap {
        next_pow2(cap)
    } else {
        cap
    }
}

/// The capacity of a list that is left with `len` elements in `cap` slots
/// after one was removed: half of `cap`, but at least 1, once fewer than
/// half the slots are used.
pub open spec fn shrunk_capacity(len: nat, cap: nat) -> nat {
    if len < cap / 2 {
        halved(cap)
    } else {
        cap
    }
}

/// A growable sequence of elements.
pub struct ArrayList<T: Element> {
    arr: Array<T>,
    len: usize,
    cap: usize,
}

impl<T: Element> View for ArrayList<T> {
    type V = Seq<T>;

    /// The elements in order.
    closed spec fn view(&self) -> Seq<T> {
        Seq::new(self.len as nat, |i: int| self.arr@[i])
    }
}

impl<T: Element> ArrayList<T> {
    /// The number of slots of the buffer.
    pub closed spec fn spec_capacity(&self) -> nat {
        self.cap as nat
    }

    /// What holds of every list: the elements fit the buffer, whose size is
    /// a power of two.
    pub closed spec fn wf(&self) -> bool {
        &&& self.len <= self.cap
        &&& self.cap == self.arr@.len()
        &&& is_pow2(self.cap as int)
    }

    /// Whether one more element calls for a larger buffer than the machine
    /// can address.
    pub open spec fn cannot_grow(&self) -> bool {
        self@.len() + 1 >= self.spec_capacity() && self.spec_capacity() > usize::MAX / 2
    }

    /// Why `push` refuses to insert at `index`, if it does.
    pub open spec fn spec_push_error(&self, index: usize) -> Option<ArrayError> {
        if index > self@.len() {
            Some(out_of_range(index, self@.len()))
        } else if self.cannot_grow() {
            Some(ArrayError::AllocationFailure)
        } else {
            None
        }
    }

    /// Why `pop` refuses to remove at `index`, if it does.
    pub open spec fn spec_pop_error(&self, index: usize) -> Option<ArrayError> {
        if self@.len() == 0 {
            Some(ArrayError::EmptyContainer)
        } else if index >= self@.len() {
            Some(out_of_range(index, self@.len()))
        } else {
            None
        }
    }

    /// What `get` returns at `index`.
    pub open spec fn spec_get(&self, index: usize) -> Result<T, ArrayError> {
        if index < self@.len() {
            Ok(self@[index as int])
        } else {
            Err(out_of_range(index, self@.len()))
        }
    }

    /// In every list the length is at most the capacity, and the capacity is
    /// a power of two, so at least 1.
    pub proof fn lemma_length_within_capacity(&self)
        requires
            self.wf(),
        ensures
            0 <= self@.len() <= self.spec_capacity() <= usize::MAX,
            is_pow2(self.spec_capacity() as int),
            self.spec_capacity() >= 1,
    {
    }

    /// A list whose elements are those of `s` has the length of `s`, and
    /// reading it index by index gives the elements of `s` in order, and
    /// nothing behind them.
    pub proof fn lemma_reads_back(&self, s: Seq<T>)
        requires
            self@ == s,
        ensures
            self@.len() == s.len(),
            forall|i: usize| i < s.len() ==> self.spec_get(i) == Ok::<T, ArrayError>(s[i as int]),
            forall|i: usize| i >= s.len() ==> self.spec_get(i) is Err,
    {
    }

    /// Taking out at `index` right after `value` was inserted there is not
    /// refused, gives `value` back, and leaves the elements and their number
    /// as they were before the insertion. Here `self` is the list before
    /// the insertion and `pushed` the list after it.
    pub proof fn lemma_pop_undoes_push(&self, pushed: &Self, index: usize, value: T)
        requires
            index <= self@.len(),
            pushed@ == self@.insert(index as int, value),
        ensures
            pushed.spec_pop_error(index) is None,
            pushed@[index as int] == value,
            pushed@.remove(index as int) == self@,
            pushed@.remove(index as int).len() == self@.len(),
    {
    }

    /// Makes an empty list with one slot.
    pub fn new() -> (list: Self)
        ensures
            list.wf(),
            list@ == Seq::<T>::empty(),
            list.spec_capacity() == 1,
    {
        ArrayList { arr: Array::new(1), len: 0, cap: 1 }
    }

    /// Makes a list of the elements of `v`, in a buffer of the least power of
    /// two that holds them. Fails where no such power of two can be
    /// addressed.
    pub fn from_vec(v: &Vec<T>) -> (r: Result<Self, ArrayError>)
        ensures
            pow2_at_least(v@.len()) <= usize::MAX ==> r is Ok,
            pow2_at_least(v@.len()) > usize::MAX ==> r == Err::<Self, ArrayError>(
                ArrayError::AllocationFailure,
            ),
            r is Ok ==> r->Ok_0.wf(),
            r is Ok ==> r->Ok_0@ == v@,
            r is Ok ==> forall|i: usize|
                i < v@.len() ==> r->Ok_0.spec_get(i) == Ok::<T, ArrayError>(v@[i as int]),
            r is Ok ==> r->Ok_0.spec_capacity() == pow2_at_least(v@.len()),
    {
        let len: usize = v.len();
        proof {
            lemma_pow2_at_least(len as nat);
            if len > 0 {
                lemma_next_pow2_fits((len - 1) as nat);
            }
        }
        if len > 0 && len - 1 > usize::MAX / 2 {
            return Err(ArrayError::AllocationFailure);
        }
        let cap: usize = if len == 0 {
            1
        } else {
            get_next_pow2(len - 1)
        };
        let mut arr = Array::from_vec(v);
        arr.resize(cap);
        let list = ArrayList { arr, len, cap };
        assert(list@ == v@);
        Ok(list)
    }

    /// The number of elements.
    pub fn len(&self) -> (n: usize)
        ensures
            n == self@.len(),
    {
        self.len
    }

    /// The number of slots of the buffer.
    pub fn capacity(&self) -> (n: usize)
        ensures
            n == self.spec_capacity(),
    {
        self.cap
    }

    /// Reads the element at `index`, which must be below the length.
    pub fn get(&self, index: usize) -> (r: Result<T, ArrayError>)
        requires
            self.wf(),
        ensures
            r == self.spec_get(index),
    {
        if index >= self.len {
            Err(ArrayError::IndexOutOfRange { index, bound: self.len })
        } else {
            self.arr.get(index)
        }
    }

    /// Replaces the element at `index`, which must be below the length, by
    /// `value`.
    pub fn set(&mut self, index: usize, value: T) -> (r: Result<(), ArrayError>)
        requires
            old(self).wf(),
        ensures
            final(self).wf(),
            final(self).spec_capacity() == old(self).spec_capacity(),
            index < old(self)@.len() ==> r == Ok::<(), ArrayError>(()),
            index < old(self)@.len() ==> final(self)@ == old(self)@.update(index as int, value),
            index >= old(self)@.len() ==> r == Err::<(), ArrayError>(
                out_of_range(index, old(self)@.len()),
            ),
            index >= old(self)@.len() ==> *final(self) == *old(self),
    {
        if index >= self.len {
            Err(ArrayError::IndexOutOfRange { index, bound: self.len })
        } else {
            let r = self.arr.set(index, value);
            assert(self@ == old(self)@.update(index as int, value));
            r
        }
    }

    /// Inserts `value` so that it becomes the element at `index`; the
    /// elements from `index` on move up by one. An `index` above the length
    /// is refused. Once the new length reaches the capacity, the buffer
    /// first grows to the next power of two; where that cannot be addressed,
    /// the insertion is refused.
    pub fn push(&mut self, index: usize, value: T) -> (r: Result<(), ArrayError>)
        requires
            old(self).wf(),
        ensures
            final(self).wf(),
            old(self).spec_push_error(index) is Some ==> r == Err::<(), ArrayError>(
                old(self).spec_push_error(index)->Some_0,
            ),
            old(self).spec_push_error(index) is Some ==> *final(self) == *old(self),
            old(self).spec_push_error(index) is None ==> r == Ok::<(), ArrayError>(()),
            old(self).spec_push_error(index) is None ==> final(self)@ == old(self)@.insert(
                index as int,
                value,
            ),
            old(self).spec_push_error(index) is None ==> final(self).spec_capacity()
                == grown_capacity(old(self)@.len(), old(self).spec_capacity()),
    {
        if index > self.len {
            return Err(ArrayError::IndexOutOfRange { index, bound: self.len });
        }
        if self.len >= self.cap - 1 {
            proof {
                lemma_next_pow2_doubles(self.cap as nat);
                lemma_next_pow2_bounds(self.cap as nat);
            }
            match self.arr.grow_pow2() {
                Ok(()) => {},
                Err(e) => {
                    return Err(e);
                },
            }
            self.cap = self.arr.len();
        }
        self.arr.shift_from(index, 1);
        let r = self.arr.set(index, value);
        self.len += 1;
        assert(self@ == old(self)@.insert(index as int, value));
        r
    }

    /// Inserts `value` before all elements.
    pub fn push_front(&mut self, value: T) -> (r: Result<(), ArrayError>)
        requires
            old(self).wf(),
        ensures
            final(self).wf(),
            old(self).cannot_grow() ==> r == Err::<(), ArrayError>(ArrayError::AllocationFailure),
            old(self).cannot_grow() ==> *final(self) == *old(self),
            !old(self).cannot_grow() ==> r == Ok::<(), ArrayError>(()),
            !old(self).cannot_grow() ==> final(self)@ == seq![value] + old(self)@,
            !old(self).cannot_grow() ==> final(self).spec_capacity() == grown_capacity(
                old(self)@.len(),
                old(self).spec_capacity(),
            ),
    {
        let r = self.push(0, value);
        assert(old(self)@.insert(0, value) == seq![value] + old(self)@);
        r
    }

    /// Inserts `value` behind all elements.
    pub fn push_back(&mut self, value: T) -> (r: Result<(), ArrayError>)
        requires
            old(self).wf(),
        ensures
            final(self).wf(),
            old(self).cannot_grow() ==> r == Err::<(), ArrayError>(ArrayError::AllocationFailure),
            old(self).cannot_grow() ==> *final(self) == *old(self),
            !old(self).cannot_grow() ==> r == Ok::<(), ArrayError>(()),
            !old(self).cannot_grow() ==> final(self)@ == old(self)@.push(value),
            !old(self).cannot_grow() ==> final(self).spec_capacity() == grown_capacity(
                old(self)@.len(),
                old(self).spec_capacity(),
            ),
    {
        let r = self.push(self.len, value);
        assert(old(self)@.insert(old(self)@.len() as int, value) == old(self)@.push(value));
        r
    }

    /// Takes out the element at `index` and returns it; the elements behind
    /// it move down by one. An empty list has nothing to take, and an
    /// `index` that is not below the length is refused. Once fewer than half
    /// the slots are used, the buffer shrinks to half, but not below one
    /// slot.
    pub fn pop(&mut self, index: usize) -> (r: Result<T, ArrayError>)
        requires
            old(self).wf(),
        ensures
            final(self).wf(),
            old(self).spec_pop_error(index) is Some ==> r == Err::<T, ArrayError>(
                old(self).spec_pop_error(index)->Some_0,
            ),
            old(self).spec_pop_error(index) is Some ==> *final(self) == *old(self),
            old(self).spec_pop_error(index) is None ==> r == Ok::<T, ArrayError>(
                old(self)@[index as int],
            ),
            old(self).spec_pop_error(index) is None ==> final(self)@ == old(self)@.remove(
                index as int,
            ),
            old(self).spec_pop_error(index) is None ==> final(self).spec_capacity()
                == shrunk_capacity((old(self)@.len() - 1) as nat, old(self).spec_capacity()),
    {
        if self.len == 0 {
            return Err(ArrayError::EmptyContainer);
        }
        if index >= self.len {
            return Err(ArrayError::IndexOutOfRange { index, bound: self.len });
        }
        let out = match self.arr.get(index) {
            Ok(value) => value,
            Err(e) => {
                return Err(e);
            },
        };
        self.arr.shift_from(index + 1, -1);
        self.len -= 1;
        assert(self@ == old(self)@.remove(index as int));
        if self.len < self.cap / 2 {
            self.arr.shrink_pow2();
            self.cap = self.arr.len();
            assert(self@ == old(self)@.remove(index as int));
        }
        Ok(out)
    }

    /// Takes out the first element.
    pub fn pop_front(&mut self) -> (r: Result<T, ArrayError>)
        requires
            old(self).wf(),
        ensures
            final(self).wf(),
            old(self)@.len() == 0 ==> r == Err::<T, ArrayError>(ArrayError::EmptyContainer),
            old(self)@.len() == 0 ==> *final(self) == *old(self),
            old(self)@.len() > 0 ==> r == Ok::<T, ArrayError>(old(self)@.first()),
            old(self)@.len() > 0 ==> final(self)@ == old(self)@.drop_first(),
            old(self)@.len() > 0 ==> final(self).spec_capacity() == shrunk_capacity(
                (old(self)@.len() - 1) as nat,
                old(self).spec_capacity(),
            ),
    {
        let r = self.pop(0);
        assert(old(self)@.len() > 0 ==> old(self)@.remove(0) == old(self)@.drop_first());
        r
    }

    /// Takes out the last element.
    pub fn pop_back(&mut self) -> (r: Result<T, ArrayError>)
        requires
            old(self).wf(),
        ensures
            final(self).wf(),
            old(self)@.len() == 0 ==> r == Err::<T, ArrayError>(ArrayError::EmptyContainer),
            old(self)@.len() == 0 ==> *final(self) == *old(self),
            old(self)@.len() > 0 ==> r == Ok::<T, ArrayError>(old(self)@.last()),
            old(self)@.len() > 0 ==> final(self)@ == old(self)@.drop_last(),
            old(self)@.len() > 0 ==> final(self).spec_capacity() == shrunk_capacity(
                (old(self)@.len() - 1) as nat,
                old(self).spec_capacity(),
            ),
    {
        if self.len == 0 {
            return Err(ArrayError::EmptyContainer);
        }
        let r = self.pop(self.len - 1);
        assert(old(self)@.remove(old(self)@.len() - 1) == old(self)@.drop_last());
        r
    }

    /// Finds the first element equal to `value`.
    pub fn index(&self, value: T) -> (r: Result<usize, ArrayError>)
        requires
            self.wf(),
        ensures
            r is Ok ==> r->Ok_0 < self@.len() && self@[r->Ok_0 as int] == value,
            r is Ok ==> forall|j: int| 0 <= j < r->Ok_0 ==> self@[j] != value,
            r is Err ==> r->Err_0 == ArrayError::NotFound,
            r is Err ==> forall|j: int| 0 <= j < self@.len() ==> self@[j] != value,
    {
        let mut index: usize = 0;
        while index < self.len
            invariant
                self.wf(),
                index <= self.len,
                forall|j: int| 0 <= j < index ==> self@[j] != value,
            decreases self.len - index,
        {
            match self.arr.get(index) {
                Ok(found) => {
                    if found.equals(&value) {
                        return Ok(index);
                    }
                },
                Err(_) => {},
            }
            index += 1;
        }
        Err(ArrayError::NotFound)
    }

    /// Counts the elements equal to `value`.
    pub fn count(&self, value: T) -> (n: usize)
        requires
            self.wf(),
        ensures
            n == self@.to_multiset().count(value),
    {
        let mut count: usize = 0;
        let mut index: usize = 0;
        proof {
            self@.take(0).to_multiset_ensures();
        }
        while index < self.len
            invariant
                self.wf(),
                index <= self.len,
                count <= index,
                count == self@.take(index as int).to_multiset().count(value),
            decreases self.len - index,
        {
            proof {
                let before = self@.take(index as int);
                assert(self@.take(index + 1) == before.push(self@[index as int]));
                vstd::seq_lib::to_multiset_build(before, self@[index as int]);
            }
            match self.arr.get(index) {
                Ok(found) => {
                    if found.equals(&value) {
                        count += 1;
                    }
                },
                Err(_) => {},
            }
            index += 1;
        }
        assert(self@.take(self.len as int) == self@);
        count
    }

    /// Writes the elements as a list: `[]` for none, else `[a, b, c]`.
    pub fn render(&self) -> (s: String)
        requires
            self.wf(),
        ensures
            s@ == bracketed(texts(self@)),
    {
        assert(self@ == self.arr@.take(self.len as int));
        self.arr.render_front(self.len)
    }

    /// Gives the list up for a walk over its elements, first to last.
    pub fn into_iter(self) -> (it: ArrayListIter<T>)
        requires
            self.wf(),
        ensures
            it.wf(),
            it.items() == self@,
            it.position() == 0,
    {
        ArrayListIter::new(self)
    }
}

/// A walk over the elements of a list, first to last.
pub struct ArrayListIter<T: Element> {
    list: ArrayList<T>,
    len: usize,
    current: usize,
}

impl<T: Element> ArrayListIter<T> {
    /// The elements that the walk goes over.
    pub closed spec fn items(&self) -> Seq<T> {
        self.list@
    }

    /// The number of elements that the walk has passed.
    pub closed spec fn position(&self) -> nat {
        self.current as nat
    }

    /// What holds of every walk: its list is as every list is, and it has
    /// passed no more elements than there are.
    pub closed spec fn wf(&self) -> bool {
        &&& self.list.wf()
        &&& self.len == self.list@.len()
        &&& self.current <= self.len
    }

    /// Starts a walk at the first element of `list`.
    pub fn new(list: ArrayList<T>) -> (it: Self)
        requires
            list.wf(),
        ensures
            it.wf(),
            it.items() == list@,
            it.position() == 0,
    {
        let len: usize = list.len;
        ArrayListIter { list, len, current: 0 }
    }

    /// Returns the element that the walk stands at and steps past it; at the
    /// end it returns nothing and stays.
    pub fn next(&mut self) -> (r: Option<T>)
        requires
            old(self).wf(),
        ensures
            final(self).wf(),
            final(self).items() == old(self).items(),
            old(self).position() < old(self).items().len() ==> r == Some(
                old(self).items()[old(self).position() as int],
            ),
            old(self).position() < old(self).items().len() ==> final(self).position()
                == old(self).position() + 1,
            old(self).position() >= old(self).items().len() ==> r == None::<T>,
            old(self).position() >= old(self).items().len() ==> *final(self) == *old(self),
    {
        if self.current < self.len {
            self.current += 1;
            match self.list.get(self.current - 1) {
                Ok(value) => Some(value),
                Err(_) => None,
            }
        } else {
            None
        }
    }
}

} // verus!
