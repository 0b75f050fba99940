use vstd::prelude::*;

verus! {

/// The result of a successful parse pass.
///
/// `Complete` is used when the buffer contained the complete value.
/// `Partial` is used when parsing did not reach the end of the expected value,
/// but no invalid data was found.
#[derive(Copy, Clone, PartialEq, Eq, Debug)]
pub enum Status<T> {
    /// The completed result.
    Complete(T),
    /// A partial result.
    Partial,
}

impl<T: View> View for Status<T> {
    type V = Status<T::V>;

    open spec fn view(&self) -> Status<T::V> {
        match self {
            Status::Complete(t) => Status::Complete(t@),
            Status::Partial => Status::Partial,
        }
    }
}

impl<T> Status<T> {
    /// Convenience method to check if status is complete.
    pub fn is_complete(&self) -> (r: bool)
        ensures
            r == self is Complete,
    {
        match *self {
            Status::Complete(..) => true,
            Status::Partial => false,
        }
    }

    /// Convenience method to check if status is partial.
    pub fn is_partial(&self) -> (r: bool)
        ensures
            r == self is Partial,
    {
        match *self {
            Status::Complete(..) => false,
            Status::Partial => true,
        }
    }

    /// Unwraps a `Complete` value; the status must not be `Partial`.
    pub fn unwrap(self) -> (r: T)
        requires
            self is Complete,
        ensures
            self == Status::Complete(r),
    {
        match self {
            Status::Complete(t) => t,
            Status::Partial => unreached(),
        }
    }
}

} // verus!
