use vstd::prelude::*;

verus! {

/// A cleanup guard: holds one pending action until it is fired or disarmed.
///
/// The action is taken out of the guard before it runs, so it runs at most
/// once, and never after `disarm`. Dropping an armed guard drops the action
/// without running it: a `Drop` impl may neither unwind nor open invariants,
/// and a caller's action may do either, so firing is always explicit.
pub struct OnDrop<F: FnOnce()> {
    f: Option<F>,
}

impl<F: FnOnce()> OnDrop<F> {
    /// The guard still holds its action.
    pub closed spec fn is_armed(&self) -> bool {
        self.f is Some
    }

    /// The action that an armed guard holds.
    pub closed spec fn action(&self) -> F {
        self.f->Some_0
    }

    /// An armed guard holding `x`.
    pub fn guard(x: F) -> (r: Self)
        ensures
            r.is_armed(),
            r.action() == x,
    {
        OnDrop { f: Some(x) }
    }

    /// Drops the action without running it.
    pub fn disarm(&mut self)
        ensures
            !final(self).is_armed(),
    {
        self.f = None;
    }

    /// Runs the action now if the guard is armed, and disarms it.
    pub fn fire(&mut self)
        requires
            old(self).is_armed() ==> call_requires(old(self).action(), ()),
        ensures
            !final(self).is_armed(),
            old(self).is_armed() ==> call_ensures(old(self).action(), (), ()),
    {
        if let Some(f) = self.f.take() {
            f();
        }
    }
}

} // verus!
