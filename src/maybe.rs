use vstd::prelude::*;

verus! {

/// One attempt at producing a value: either a value is present, or it is
/// absent and an absence payload says why.
///
/// `Option<T>` is absent with payload `()`; `Result<T, E>` is absent with its
/// error as payload.
pub trait Maybe: Sized {
    type Unwrap;
    type Or;

    /// The normalized outcome of this attempt.
    spec fn outcome(&self) -> Result<Self::Unwrap, Self::Or>;

    /// Normalizes this attempt into a `Result`.
    fn asr(self) -> (r: Result<Self::Unwrap, Self::Or>)
        ensures
            r == self.outcome(),
    ;
}

impl<T> Maybe for Option<T> {
    type Unwrap = T;
    type Or = ();

    open spec fn outcome(&self) -> Result<T, ()> {
        match self {
            Some(v) => Ok(*v),
            None => Err(()),
        }
    }

    fn asr(self) -> (r: Result<T, ()>) {
        match self {
            Some(v) => Ok(v),
            None => Err(()),
        }
    }
}

impl<T, E> Maybe for Result<T, E> {
    type Unwrap = T;
    type Or = E;

    open spec fn outcome(&self) -> Result<T, E> {
        *self
    }

    fn asr(self) -> (r: Result<T, E>) {
        self
    }
}

} // verus!
