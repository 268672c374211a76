//! A read-only pointer to a value that is never freed.
use vstd::prelude::*;

verus! {

/// A read-only pointer to heap data that lives as long as the process.
///
/// The value is moved to the heap and left there, which is what lets the
/// pointer be copied freely and handed to any thread. It is meant for values
/// that are only read: it counts nothing and locks nothing.
pub struct Reon<T: 'static> {
    inner: &'static T,
}

/// Calls `Box::leak`, which gives up the box and hands back a reference to
/// its content that is valid for the rest of the program. The contract claims
/// that the reference points at the value that was in the box.
#[verifier::external_body]
fn leak<T: 'static>(boxed: Box<T>) -> (r: &'static T)
    ensures
        *r == *boxed,
{
    Box::leak(boxed)
}

impl<T> View for Reon<T> {
    type V = T;

    closed spec fn view(&self) -> T {
        *self.inner
    }
}

impl<T> Clone for Reon<T> {
    /// Copies the pointer, not the value.
    fn clone(&self) -> (r: Self)
        ensures
            r == *self,
    {
        Reon { inner: self.inner }
    }
}

impl<T> Copy for Reon<T> {

}

impl<T> core::ops::Deref for Reon<T> {
    type Target = T;

    fn deref(&self) -> (r: &T)
        ensures
            *r == self@,
    {
        self.inner
    }
}

impl<T> Reon<T> {
    /// Constructs a new `Reon<T>` from a given value.
    pub fn new(value: T) -> (r: Self)
        ensures
            r@ == value,
    {
        Reon { inner: leak(Box::new(value)) }
    }

    /// The value that the pointer refers to.
    pub fn as_ref(&self) -> (r: &T)
        ensures
            *r == self@,
    {
        self.inner
    }
}

} // verus!
