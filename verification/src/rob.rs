//! A value that is either borrowed or owned on the heap.

use vstd::prelude::*;

verus! {

/// Either a reference to a `T` or a boxed `T`; both are read the same way.
#[derive(Debug)]
pub enum Rob<'t, T: ?Sized + 't> {
    /// A borrowed value.
    Referenced(&'t T),
    /// An owned, boxed value.
    Owned(Box<T>),
}

impl<'t, T: ?Sized + 't> Rob<'t, T> {
    /// The value that is held, whichever way it is held.
    pub open spec fn value(&self) -> &T {
        match self {
            Rob::Referenced(r) => *r,
            Rob::Owned(b) => &**b,
        }
    }

    /// Borrows the held value.
    pub fn as_ref(&self) -> (r: &T)
        ensures
            r == self.value(),
    {
        match self {
            Rob::Referenced(r) => *r,
            Rob::Owned(b) => &**b,
        }
    }

    /// Borrows the held value; the same as [`Rob::as_ref`].
    pub fn deref(&self) -> (r: &T)
        ensures
            r == self.value(),
    {
        self.as_ref()
    }

    /// Wraps a reference.
    pub fn from_ref(t: &'t T) -> (r: Self)
        ensures
            r == Rob::Referenced(t),
            r.value() == t,
    {
        Rob::Referenced(t)
    }

    /// Wraps a box.
    pub fn from_box(t: Box<T>) -> (r: Self)
        ensures
            r == Rob::<T>::Owned(t),
            r.value() == &*t,
    {
        Rob::Owned(t)
    }
}

impl<'t, T> Rob<'t, T> {
    /// Moves a value to the heap and wraps it.
    pub fn from_value(t: T) -> (r: Self)
        ensures
            r == Rob::<T>::Owned(Box::new(t)),
            *r.value() == t,
    {
        Rob::Owned(Box::new(t))
    }
}

} // verus!
