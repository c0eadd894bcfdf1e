//! A fixed-capacity buffer whose slots are zero until written, and the
//! gap-shift that opens or closes room at an index.

use crate::element::{texts, Element};
use crate::error::{out_of_range, ArrayError};
use crate::pow2::{get_next_pow2, halved, next_pow2};
use crate::text::{bracketed, joined};
use vstd::prelude::*;
use vstd::string::StringExecFns;

verus! {

/// A buffer of `n` slots that nothing has been written to.
pub open spec fn zeros<T: Element>(n: nat) -> Seq<T> {
    Seq::new(n, |i: int| T::zero_value())
}

/// The contents `s` carried over to a buffer of `n` slots: the front of `s`
/// as far as it fits, zero behind it.
pub open spec fn resized<T: Element>(s: Seq<T>, n: nat) -> Seq<T> {
    Seq::new(
        n,
        |i: int|
            if i < s.len() {
                s[i]
            } else {
                T::zero_value()
            },
    )
}

/// The contents `s` after a gap of `amt` slots was opened (`amt > 0`) or
/// closed (`amt < 0`) at `index`.
///
/// Opening keeps the slots below `index`, moves those from `index` on up by
/// `amt`, dropping what would pass the end, and leaves the gap zero. Closing
/// keeps the slots below `index + amt`, moves those from `index` on down by
/// `-amt`, and leaves the last `-amt` slots zero.
pub open spec fn shifted<T: Element>(s: Seq<T>, index: int, amt: int) -> Seq<T> {
    Seq::new(
        s.len(),
        |i: int|
            if amt >= 0 {
                if i < index {
                    s[i]
                } else if i < index + amt {
                    T::zero_value()
                } else {
                    s[i - amt]
                }
            } else {
                if i < index + amt {
                    s[i]
                } else if i - amt < s.len() {
                    s[i - amt]
                } else {
                    T::zero_value()
                }
            },
    )
}

/// Opening a gap of `amt` slots at `index` keeps the number of slots and the
/// slots below `index`; every slot from `index` on is found `amt` places
/// further up, as far as the buffer reaches; and the gap reads zero.
pub proof fn lemma_shift_opens_gap<T: Element>(s: Seq<T>, index: int, amt: int)
    requires
        0 <= index,
        0 < amt,
    ensures
        shifted(s, index, amt).len() == s.len(),
        forall|i: int| 0 <= i < index && i < s.len() ==> shifted(s, index, amt)[i] == s[i],
        forall|i: int| index <= i && i + amt < s.len() ==> shifted(s, index, amt)[i + amt] == s[i],
        forall|i: int|
            index <= i < index + amt && i < s.len() ==> shifted(s, index, amt)[i]
                == T::zero_value(),
{
}

/// Closing a gap of `-amt` slots at `index`, for an `amt` below zero, keeps
/// the number of slots and the slots below the gap; every slot from `index`
/// on is found `-amt` places further down; and the last `-amt` slots read
/// zero.
pub proof fn lemma_shift_closes_gap<T: Element>(s: Seq<T>, index: int, amt: int)
    requires
        amt < 0,
        -amt <= index <= s.len(),
    ensures
        shifted(s, index, amt).len() == s.len(),
        forall|i: int| 0 <= i < index + amt ==> shifted(s, index, amt)[i] == s[i],
        forall|i: int| index <= i < s.len() ==> shifted(s, index, amt)[i + amt] == s[i],
        forall|i: int|
            s.len() + amt <= i < s.len() ==> shifted(s, index, amt)[i] == T::zero_value(),
{
}

/// The contents `dst` with `count` slots from `to` on replaced by the slots
/// of `src` from `from` on.
spec fn overlaid<T>(dst: Seq<T>, to: int, src: Seq<T>, from: int, count: int) -> Seq<T> {
    Seq::new(
        dst.len(),
        |i: int|
            if to <= i < to + count {
                src[i - to + from]
            } else {
                dst[i]
            },
    )
}

/// A block of slots of a fixed number, each holding a value.
pub struct Array<T: Element> {
    data: Vec<T>,
}

impl<T: Element> View for Array<T> {
    type V = Seq<T>;

    /// The slots in order.
    closed spec fn view(&self) -> Seq<T> {
        self.data@
    }
}

impl<T: Element> Array<T> {
    /// What `get` returns at `index`.
    pub open spec fn spec_get(&self, index: usize) -> Result<T, ArrayError> {
        if index < self@.len() {
            Ok(self@[index as int])
        } else {
            Err(out_of_range(index, self@.len()))
        }
    }

    /// Makes a buffer of `size` zero slots.
    pub fn new(size: usize) -> (a: Self)
        ensures
            a@ == zeros::<T>(size as nat),
    {
        let mut data: Vec<T> = Vec::new();
        let mut i: usize = 0;
        while i < size
            invariant
                i <= size,
                data@ == zeros::<T>(i as nat),
            decreases size - i,
        {
            data.push(T::zero());
            i += 1;
        }
        Array { data }
    }

    /// Makes a buffer that holds the elements of `v`.
    pub fn from_vec(v: &Vec<T>) -> (a: Self)
        ensures
            a@ == v@,
    {
        Self::from_raw_buf(v.as_slice(), v.len())
    }

    /// Makes a buffer that holds the elements of `v`, which is given up.
    pub fn take_vec(v: Vec<T>) -> (a: Self)
        ensures
            a@ == v@,
    {
        Self::from_vec(&v)
    }

    /// Makes a buffer that holds the first `size` elements of `buf`.
    pub fn from_raw_buf(buf: &[T], size: usize) -> (a: Self)
        requires
            size <= buf@.len(),
        ensures
            a@ == buf@.take(size as int),
    {
        let mut data: Vec<T> = Vec::new();
        let mut i: usize = 0;
        while i < size
            invariant
                i <= size <= buf@.len(),
                data@ == buf@.take(i as int),
            decreases size - i,
        {
            data.push(buf[i]);
            i += 1;
        }
        Array { data }
    }

    /// Replaces the block by one of `size` slots that holds the front of the
    /// old contents, as far as it fits, and zero behind it.
    pub fn resize(&mut self, size: usize)
        ensures
            final(self)@ == resized(old(self)@, size as nat),
    {
        let buf = self.copy();
        let mut fresh = Self::new(size);
        let kept: usize = if size < buf.len() {
            size
        } else {
            buf.len()
        };
        fresh.copy_from(0, &buf, 0, kept);
        *self = fresh;
    }

    /// Makes a second buffer with the same contents.
    pub fn copy(&self) -> (a: Self)
        ensures
            a@ == self@,
    {
        let a = Self::from_raw_buf(self.data.as_slice(), self.data.len());
        assert(self.data@.take(self.data@.len() as int) == self.data@);
        a
    }

    /// The number of slots.
    pub fn len(&self) -> (n: usize)
        ensures
            n == self@.len(),
    {
        self.data.len()
    }

    /// Sets every slot to zero.
    pub fn clear(&mut self)
        ensures
            final(self)@ == zeros::<T>(old(self)@.len()),
    {
        let fresh = Self::new(self.data.len());
        *self = fresh;
    }

    /// Reads the slot at `index`.
    pub fn get(&self, index: usize) -> (r: Result<T, ArrayError>)
        ensures
            r == self.spec_get(index),
    {
        if index >= self.data.len() {
            Err(ArrayError::IndexOutOfRange { index, bound: self.data.len() })
        } else {
            Ok(self.data[index])
        }
    }

    /// Writes `value` to the slot at `index`. The buffer does not grow: an
    /// index that is not below the number of slots is refused.
    pub fn set(&mut self, index: usize, value: T) -> (r: Result<(), ArrayError>)
        ensures
            index < old(self)@.len() ==> r == Ok::<(), ArrayError>(()),
            index < old(self)@.len() ==> final(self)@ == old(self)@.update(index as int, value),
            index >= old(self)@.len() ==> r == Err::<(), ArrayError>(
                out_of_range(index, old(self)@.len()),
            ),
            index >= old(self)@.len() ==> *final(self) == *old(self),
    {
        if index >= self.data.len() {
            Err(ArrayError::IndexOutOfRange { index, bound: self.data.len() })
        } else {
            self.data[index] = value;
            Ok(())
        }
    }

    /// Copies `count` slots of `src`, from `from` on, over the slots of this
    /// buffer from `to` on.
    fn copy_from(&mut self, to: usize, src: &Array<T>, from: usize, count: usize)
        requires
            from + count <= src@.len(),
            to + count <= old(self)@.len(),
        ensures
            final(self)@ == overlaid(old(self)@, to as int, src@, from as int, count as int),
    {
        let room: usize = self.data.len();
        let stock: usize = src.data.len();
        let mut done: usize = 0;
        while done < count
            invariant
                done <= count,
                from + count <= stock == src@.len(),
                to + count <= room == self@.len(),
                self@ == overlaid(old(self)@, to as int, src@, from as int, done as int),
            decreases count - done,
        {
            self.data[to + done] = src.data[from + done];
            done += 1;
        }
    }

    /// Opens (`amt > 0`) or closes (`amt < 0`) a gap of `|amt|` slots at
    /// `index`; with `amt == 0` nothing changes. The surviving slots are
    /// copied to their new places in a zeroed block of the same size.
    ///
    /// To close a gap, `index` must be at least `|amt|` and at most the
    /// number of slots. The slot that closing overwrites is lost: a caller
    /// that wants its value reads it first.
    pub fn shift_from(&mut self, index: usize, amt: isize)
        requires
            amt < 0 ==> -amt <= index <= old(self)@.len(),
        ensures
            final(self)@ == shifted(old(self)@, index as int, amt as int),
            amt == 0 ==> final(self)@ == old(self)@,
    {
        if amt == 0 {
            assert(shifted(old(self)@, index as int, 0) == old(self)@);
            return ;
        }
        let buf = self.copy();
        let size: usize = buf.len();
        self.clear();
        if amt < 0 {
            let k: usize = ((-(amt + 1)) as usize) + 1;
            let n: usize = index - k;
            self.copy_from(0, &buf, 0, n);
            self.copy_from(n, &buf, index, size - index);
        } else {
            let k: usize = amt as usize;
            let kept: usize = if index < size {
                index
            } else {
                size
            };
            self.copy_from(0, &buf, 0, kept);
            if index < size && k < size - index {
                self.copy_from(index + k, &buf, index, size - index - k);
            }
        }
    }

    /// Opens a gap of `amt` slots at the front.
    pub fn shift(&mut self, amt: isize)
        requires
            amt >= 0,
        ensures
            final(self)@ == shifted(old(self)@, 0, amt as int),
    {
        self.shift_from(0, amt)
    }

    /// Resizes to the least power of two above the number of slots, unless
    /// that cannot be addressed.
    pub fn grow_pow2(&mut self) -> (r: Result<(), ArrayError>)
        ensures
            old(self)@.len() <= usize::MAX / 2 ==> r == Ok::<(), ArrayError>(()),
            old(self)@.len() <= usize::MAX / 2 ==> final(self)@ == resized(
                old(self)@,
                next_pow2(old(self)@.len()),
            ),
            old(self)@.len() > usize::MAX / 2 ==> r == Err::<(), ArrayError>(
                ArrayError::AllocationFailure,
            ),
            old(self)@.len() > usize::MAX / 2 ==> *final(self) == *old(self),
    {
        if self.data.len() > usize::MAX / 2 {
            return Err(ArrayError::AllocationFailure);
        }
        let size: usize = get_next_pow2(self.data.len());
        self.resize(size);
        Ok(())
    }

    /// Resizes to half the number of slots, but to no less than one slot.
    pub fn shrink_pow2(&mut self)
        ensures
            final(self)@ == resized(old(self)@, halved(old(self)@.len())),
    {
        let size: usize = if self.data.len() > 1 {
            self.data.len() / 2
        } else {
            1
        };
        self.resize(size)
    }

    /// Writes the first `count` slots, or all where there are fewer, as a
    /// list: `[]` for none, else `[a, b, c]`.
    pub fn render_front(&self, count: usize) -> (s: String)
        ensures
            count <= self@.len() ==> s@ == bracketed(texts(self@.take(count as int))),
            count > self@.len() ==> s@ == bracketed(texts(self@)),
    {
        let size: usize = if count < self.data.len() {
            count
        } else {
            self.data.len()
        };
        let ghost shown = texts(self@.take(size as int));
        assert(self@.take(self@.len() as int) == self@);
        proof {
            reveal_strlit("[");
            reveal_strlit("]");
        }
        let mut s = String::from_str("[");
        if size > 0 {
            let first = self.data[0].render();
            s.append(first.as_str());
            assert(shown.take(1) == seq![shown[0]]);
            let mut index: usize = 1;
            while index < size
                invariant
                    1 <= index <= size <= self.data@.len(),
                    shown == texts(self@.take(size as int)),
                    s@ == seq!['['] + joined(shown.take(index as int)),
                decreases size - index,
            {
                let item = self.data[index].render();
                s.append(", ");
                s.append(item.as_str());
                proof {
                    let upto = shown.take(index + 1);
                    assert(upto.drop_last() == shown.take(index as int));
                    assert(upto.last() == self@[index as int].text());
                    reveal_strlit(", ");
                    assert(", "@ =~= seq![',', ' ']);
                }
                index += 1;
            }
            assert(shown.take(size as int) == shown);
        }
        s.append("]");
        s
    }

    /// Writes the slots as a list: `[]` for none, else `[a, b, c]`.
    pub fn render(&self) -> (s: String)
        ensures
            s@ == bracketed(texts(self@)),
    {
        assert(self@.take(self@.len() as int) == self@);
        self.render_front(self.data.len())
    }

    /// Gives the buffer up for a walk over its slots, first to last.
    pub fn into_iter(self) -> (it: ArrayIter<T>)
        ensures
            it.items() == self@,
            it.position() == 0,
    {
        ArrayIter::new(self)
    }

    /// Collects the slots into a vector.
    pub fn to_vec(&self) -> (v: Vec<T>)
        ensures
            v@ == self@,
    {
        let mut dst: Vec<T> = Vec::new();
        let mut offset: usize = 0;
        while offset < self.data.len()
            invariant
                offset <= self.data@.len(),
                dst@ == self.data@.take(offset as int),
            decreases self.data@.len() - offset,
        {
            dst.push(self.data[offset]);
            offset += 1;
        }
        assert(self.data@.take(self.data@.len() as int) == self.data@);
        dst
    }
}

/// A walk over the slots of a buffer, first to last.
pub struct ArrayIter<T: Element> {
    arr: Array<T>,
    offset: usize,
}

impl<T: Element> ArrayIter<T> {
    /// The slots that the walk goes over.
    pub closed spec fn items(&self) -> Seq<T> {
        self.arr@
    }

    /// The number of slots that the walk has passed.
    pub closed spec fn position(&self) -> nat {
        self.offset as nat
    }

    /// Starts a walk at the first slot of `a`.
    pub fn new(a: Array<T>) -> (it: Self)
        ensures
            it.items() == a@,
            it.position() == 0,
    {
        ArrayIter { arr: a, offset: 0 }
    }

    /// Returns the slot that the walk stands at and steps past it; at the
    /// end it returns nothing and stays.
    pub fn next(&mut self) -> (r: Option<T>)
        ensures
            final(self).items() == old(self).items(),
            old(self).position() < old(self).items().len() ==> r == Some(
                old(self).items()[old(self).position() as int],
            ) && final(self).position() == old(self).position() + 1,
            old(self).position() >= old(self).items().len() ==> r == None::<T> && *final(self)
                == *old(self),
    {
        let out: Option<T>;
        if self.offset >= self.arr.len() {
            out = None;
        } else {
            out = Some(self.arr.data[self.offset]);
            self.offset += 1;
        }
        out
    }
}

} // verus!
