//! What a buffer asks of the values it stores, and the whole numbers that
//! meet it.

use crate::text::{decimal_string, int_text};
use vstd::prelude::*;

verus! {

/// A value that can be stored in a buffer: it is copied freely, has a zero
/// that fresh slots hold, can be compared with another of its kind, and can
/// be written as text.
pub trait Element: Copy {
    /// The value of a slot that nothing has been written to.
    spec fn zero_value() -> Self;

    /// The value as it is written in a list.
    spec fn text(self) -> Seq<char>;

    /// Returns the value of a fresh slot.
    fn zero() -> (z: Self)
        ensures
            z == Self::zero_value(),
    ;

    /// Tells whether two values are the same.
    fn equals(&self, other: &Self) -> (same: bool)
        ensures
            same == (*self == *other),
    ;

    /// Writes the value as text.
    fn render(&self) -> (s: String)
        ensures
            s@ == self.text(),
    ;
}

/// The texts of the values of `s`, in order.
pub open spec fn texts<T: Element>(s: Seq<T>) -> Seq<Seq<char>> {
    Seq::new(s.len(), |i: int| s[i].text())
}

impl Element for u8 {
    open spec fn zero_value() -> Self {
        0
    }

    open spec fn text(self) -> Seq<char> {
        int_text(self as int)
    }

    fn zero() -> (z: Self) {
        0
    }

    fn equals(&self, other: &Self) -> (same: bool) {
        *self == *other
    }

    fn render(&self) -> (s: String) {
        decimal_string(false, *self as u64)
    }
}

impl Element for u16 {
    open spec fn zero_value() -> Self {
        0
    }

    open spec fn text(self) -> Seq<char> {
        int_text(self as int)
    }

    fn zero() -> (z: Self) {
        0
    }

    fn equals(&self, other: &Self) -> (same: bool) {
        *self == *other
    }

    fn render(&self) -> (s: String) {
        decimal_string(false, *self as u64)
    }
}

impl Element for u32 {
    open spec fn zero_value() -> Self {
        0
    }

    open spec fn text(self) -> Seq<char> {
        int_text(self as int)
    }

    fn zero() -> (z: Self) {
        0
    }

    fn equals(&self, other: &Self) -> (same: bool) {
        *self == *other
    }

    fn render(&self) -> (s: String) {
        decimal_string(false, *self as u64)
    }
}

impl Element for u64 {
    open spec fn zero_value() -> Self {
        0
    }

    open spec fn text(self) -> Seq<char> {
        int_text(self as int)
    }

    fn zero() -> (z: Self) {
        0
    }

    fn equals(&self, other: &Self) -> (same: bool) {
        *self == *other
    }

    fn render(&self) -> (s: String) {
        decimal_string(false, *self as u64)
    }
}

impl Element for usize {
    open spec fn zero_value() -> Self {
        0
    }

    open spec fn text(self) -> Seq<char> {
        int_text(self as int)
    }

    fn zero() -> (z: Self) {
        0
    }

    fn equals(&self, other: &Self) -> (same: bool) {
        *self == *other
    }

    fn render(&self) -> (s: String) {
        decimal_string(false, *self as u64)
    }
}

impl Element for i8 {
    open spec fn zero_value() -> Self {
        0
    }

    open spec fn text(self) -> Seq<char> {
        int_text(self as int)
    }

    fn zero() -> (z: Self) {
        0
    }

    fn equals(&self, other: &Self) -> (same: bool) {
        *self == *other
    }

    fn render(&self) -> (s: String) {
        if *self < 0 {
            decimal_string(true, (-(*self as i64)) as u64)
        } else {
            decimal_string(false, *self as u64)
        }
    }
}

impl Element for i16 {
    open spec fn zero_value() -> Self {
        0
    }

    open spec fn text(self) -> Seq<char> {
        int_text(self as int)
    }

    fn zero() -> (z: Self) {
        0
    }

    fn equals(&self, other: &Self) -> (same: bool) {
        *self == *other
    }

    fn render(&self) -> (s: String) {
        if *self < 0 {
            decimal_string(true, (-(*self as i64)) as u64)
        } else {
            decimal_string(false, *self as u64)
        }
    }
}

impl Element for i32 {
    open spec fn zero_value() -> Self {
        0
    }

    open spec fn text(self) -> Seq<char> {
        int_text(self as int)
    }

    fn zero() -> (z: Self) {
        0
    }

    fn equals(&self, other: &Self) -> (same: bool) {
        *self == *other
    }

    fn render(&self) -> (s: String) {
        if *self < 0 {
            decimal_string(true, (-(*self as i64)) as u64)
        } else {
            decimal_string(false, *self as u64)
        }
    }
}

impl Element for i64 {
    open spec fn zero_value() -> Self {
        0
    }

    open spec fn text(self) -> Seq<char> {
        int_text(self as int)
    }

    fn zero() -> (z: Self) {
        0
    }

    fn equals(&self, other: &Self) -> (same: bool) {
        *self == *other
    }

    fn render(&self) -> (s: String) {
        if *self < 0 {
            decimal_string(true, ((-(*self + 1)) as u64) + 1)
        } else {
            decimal_string(false, *self as u64)
        }
    }
}

impl Element for isize {
    open spec fn zero_value() -> Self {
        0
    }

    open spec fn text(self) -> Seq<char> {
        int_text(self as int)
    }

    fn zero() -> (z: Self) {
        0
    }

    fn equals(&self, other: &Self) -> (same: bool) {
        *self == *other
    }

    fn render(&self) -> (s: String) {
        if *self < 0 {
            decimal_string(true, ((-(*self + 1)) as u64) + 1)
        } else {
            decimal_string(false, *self as u64)
        }
    }
}

} // verus!
