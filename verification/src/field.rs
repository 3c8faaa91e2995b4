//! A record with a bit mask, to try a derived `Debug` on.

use std::fmt::Debug;
use std::marker::PhantomData;
use vstd::prelude::*;

verus! {

/// A named bit mask that is tagged with a type it holds no value of.
#[derive(Debug)]
pub struct Field<T> {
    pub marker: PhantomData<T>,
    pub string: String,
    pub bitmask: u8,
}

/// Accepts exactly the types that can be shown with `{:?}`; does nothing.
pub fn assert_debug<F: Debug>() {
}

} // verus!
