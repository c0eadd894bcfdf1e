//! A growable sequence container with power-of-two capacity, built on a
//! fixed-capacity buffer whose slots read zero until they are written.
//!
//! * [`array`]: the buffer [`Array`], modelled as the sequence of its slots,
//!   with bounds-checked access, resizing, and the gap shift that opens or
//!   closes room at an index.
//! * [`array_list`]: the list [`ArrayList`], modelled as the sequence of its
//!   elements, with insertion and removal at any index and a capacity that
//!   doubles and halves.
//! * [`pow2`]: powers of two and [`get_next_pow2`].
//! * [`element`]: what a stored value must offer, and the integer types
//!   that offer it.
//! * [`text`]: numbers and lists written as text.
//! * [`error`]: the reasons for which an operation is refused.

pub mod array;
pub mod array_list;
pub mod element;
pub mod error;
pub mod pow2;
pub mod text;

pub use crate::array::{Array, ArrayIter};
pub use crate::array_list::{ArrayList, ArrayListIter};
pub use crate::element::Element;
pub use crate::error::ArrayError;
pub use crate::pow2::get_next_pow2;
