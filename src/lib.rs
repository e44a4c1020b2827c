//! Collecting into fixed-size arrays, without heap allocation, from
//! generators and iterators that may fail or run out.
use vstd::prelude::*;
use vstd::std_specs::iter::IteratorSpec;

pub mod error;
pub mod guard;
pub mod maybe;

pub use error::Error;
pub use guard::OnDrop;
pub use error::Error as CollectorError;
pub use maybe::Maybe;

pub use core::array::from_fn;

verus! {

/// An empty slot, used to build the backing buffer.
fn vacant<T>(_i: usize) -> (r: Option<T>)
    ensures
        r is None,
{
    None
}

/// Takes the value out of a slot that is known to be filled.
fn filled<T>(slot: Option<T>) -> (r: T)
    requires
        slot is Some,
    ensures
        slot == Some(r),
{
    slot.unwrap()
}

/// Relies on `core::array::from_fn`: element `i` of the result is what the
/// callback returns for `i`; here the callback always gives an empty slot.
#[verifier::external_body]
fn empty_slots<T, const N: usize>() -> (r: [Option<T>; N])
    ensures
        forall|i: int| 0 <= i < N ==> #[trigger] r@[i] is None,
{
    core::array::from_fn(vacant)
}

/// Relies on `<[T; N]>::map`: element `i` of the result is the callback
/// applied to element `i`; here the callback takes the value out of a filled slot.
#[verifier::external_body]
fn take_filled<T, const N: usize>(buf: [Option<T>; N]) -> (r: [T; N])
    requires
        forall|i: int| 0 <= i < N ==> #[trigger] buf@[i] is Some,
    ensures
        forall|i: int| 0 <= i < N ==> buf@[i] == Some(#[trigger] r@[i]),
{
    buf.map(filled)
}

/// The generator `f` may produce `outcome` when called with index `i`.
pub open spec fn yields<R: Maybe, F: FnMut(usize) -> R>(
    f: F,
    i: usize,
    outcome: Result<R::Unwrap, R::Or>,
) -> bool {
    exists|x: R| #[trigger] call_ensures(f, (i,), x) && x.outcome() == outcome
}

/// The generator `f` may produce a present value when called with index `i`.
pub open spec fn yields_present<R: Maybe, F: FnMut(usize) -> R>(f: F, i: usize) -> bool {
    exists|v: R::Unwrap| yields(f, i, Ok(v))
}

/// `f` may produce present values at every index below `k`, then the
/// absence payload `e` at `k`.
pub open spec fn first_absent_at<R: Maybe, F: FnMut(usize) -> R>(f: F, k: usize, e: R::Or) -> bool {
    &&& forall|i: usize| i < k ==> yields_present(f, i)
    &&& yields(f, k, Err(e))
}

/// Every outcome that `f` can produce at an index below `n` is present.
pub open spec fn always_present<R: Maybe, F: FnMut(usize) -> R>(f: F, n: usize) -> bool {
    forall|i: usize, x: R| i < n && #[trigger] call_ensures(f, (i,), x) ==> x.outcome() is Ok
}

/// Builds `[T; N]` by calling `x` on `0, 1, ..., N - 1` in order, stopping at
/// the first call whose outcome is absent and returning its payload.
///
/// The backing buffer lives on the stack. Elements already built when a call
/// fails are dropped with it, before the error is returned; no call is made
/// for `N == 0`.
pub fn try_from_fn<R: Maybe, const N: usize, F: FnMut(usize) -> R>(x: F) -> (r: Result<
    [R::Unwrap; N],
    R::Or,
>)
    requires
        forall|i: usize| i < N ==> call_requires(x, (i,)),
    ensures
        r matches Ok(a) ==> forall|i: int|
            0 <= i < N ==> yields(x, i as usize, Ok(#[trigger] a@[i])),
        r is Err ==> exists|k: usize| k < N && #[trigger] first_absent_at(x, k, r->Err_0),
        always_present(x, N) ==> r is Ok,
        N == 0 ==> r is Ok,
{
    let mut gen = x;
    let mut out: [Option<R::Unwrap>; N] = empty_slots();
    let mut elem: usize = 0;
    while elem < N
        invariant
            elem <= N,
            gen == x,
            forall|i: usize| i < N ==> call_requires(x, (i,)),
            forall|i: int| elem <= i < N ==> #[trigger] out@[i] is None,
            forall|i: int|
                0 <= i < elem ==> (#[trigger] out@[i] matches Some(v) && yields(
                    x,
                    i as usize,
                    Ok(v),
                )),
        decreases N - elem,
    {
        let produced = gen(elem);
        match produced.asr() {
            Ok(e) => {
                assert(yields(x, elem, Ok(e)));
                out[elem] = Some(e);
                elem = elem + 1;
            },
            Err(p) => {
                assert forall|i: usize| i < elem implies yields_present(x, i) by {
                    assert(out@[i as int] matches Some(v) && yields(x, i, Ok(v)));
                }
                let r: Result<[R::Unwrap; N], R::Or> = Err(p);
                assert(first_absent_at(x, elem, r->Err_0));
                return r;
            },
        }
    }
    let a = take_filled(out);
    assert forall|i: int| 0 <= i < N implies yields(x, i as usize, Ok(#[trigger] a@[i])) by {
        assert(out@[i] == Some(a@[i]));
    }
    Ok(a)
}

/// Collecting the items of an iterator into a fixed-size array, with no heap
/// allocation. Items not needed to fill the array stay in the iterator.
///
/// The contracts speak of `remaining()`, the items that the iterator will
/// yield; they hold of iterators that obey the iterator laws.
pub trait CollectArray: Iterator + Sized {
    /// Collects the next `N` items; the iterator must hold at least `N` more.
    fn collect_array<const N: usize>(&mut self) -> (r: [Self::Item; N])
        requires
            (*old(self)).obeys_prophetic_iter_laws(),
            (*old(self)).remaining().len() >= N,
        ensures
            (*final(self)).obeys_prophetic_iter_laws(),
            r@ == (*old(self)).remaining().take(N as int),
            (*final(self)).remaining() == (*old(self)).remaining().skip(N as int),
            N == 0 ==> *final(self) == *old(self),
    ;

    /// Collects the next `N` items, or reports how many there were when the
    /// iterator runs out first.
    fn collect_array_checked<const N: usize>(&mut self) -> (r: Result<[Self::Item; N], usize>)
        ensures
            (*final(self)).obeys_prophetic_iter_laws() == (*old(self)).obeys_prophetic_iter_laws(),
            (*old(self)).obeys_prophetic_iter_laws() ==> ({
                let rem = (*old(self)).remaining();
                if rem.len() >= N {
                    &&& r matches Ok(a)
                    &&& a@ == rem.take(N as int)
                    &&& (*final(self)).remaining() == rem.skip(N as int)
                } else {
                    &&& r == Err::<[Self::Item; N], usize>(rem.len() as usize)
                    &&& (*final(self)).remaining().len() == 0
                }
            }),
            N == 0 ==> r is Ok && *final(self) == *old(self),
    ;

    /// Collects the next `N` items, each of which is present or absent, into
    /// an array of the present values. Stops at the first absent item, with
    /// its payload, or where the iterator runs out, with no payload.
    fn try_collect_array<const N: usize>(&mut self) -> (r: Result<
        [<Self::Item as Maybe>::Unwrap; N],
        Error<N, <Self::Item as Maybe>::Or>,
    >) where Self::Item: Maybe
        ensures
            (*final(self)).obeys_prophetic_iter_laws() == (*old(self)).obeys_prophetic_iter_laws(),
            (*old(self)).obeys_prophetic_iter_laws() ==> ({
                let rem = (*old(self)).remaining();
                match r {
                    Ok(a) => {
                        &&& rem.len() >= N
                        &&& forall|i: int| 0 <= i < N ==> rem[i].outcome() == Ok::<_, <Self::Item as Maybe>::Or>(#[trigger] a@[i])
                        &&& (*final(self)).remaining() == rem.skip(N as int)
                    },
                    Err(e) => {
                        &&& e.at < N
                        &&& forall|i: int| 0 <= i < e.at ==> (#[trigger] rem[i].outcome()) is Ok
                        &&& if e.at < rem.len() {
                            &&& e.error matches Some(p)
                            &&& rem[e.at as int].outcome() == Err::<<Self::Item as Maybe>::Unwrap, _>(p)
                            &&& (*final(self)).remaining() == rem.skip(e.at + 1)
                        } else {
                            &&& e.at == rem.len()
                            &&& e.error is None
                            &&& (*final(self)).remaining().len() == 0
                        }
                    },
                }
            }),
            N == 0 ==> r is Ok && *final(self) == *old(self),
    ;

    /// Fills an array with the next `N` items, as `Some`, and with `None` once
    /// the iterator has run out.
    fn items<const N: usize>(&mut self) -> (r: [Option<Self::Item>; N])
        ensures
            (*final(self)).obeys_prophetic_iter_laws() == (*old(self)).obeys_prophetic_iter_laws(),
            (*old(self)).obeys_prophetic_iter_laws() ==> ({
                let rem = (*old(self)).remaining();
                &&& forall|i: int| 0 <= i < N ==> #[trigger] r@[i] == (if i < rem.len() { Some(rem[i]) } else { None })
                &&& (*final(self)).remaining() == rem.skip(if rem.len() < N { rem.len() as int } else { N as int })
            }),
            N == 0 ==> *final(self) == *old(self),
    ;
}

impl<I: Iterator> CollectArray for I {
    fn collect_array<const N: usize>(&mut self) -> (r: [Self::Item; N]) {
        self.collect_array_checked().unwrap()
    }

    fn collect_array_checked<const N: usize>(&mut self) -> (r: Result<[Self::Item; N], usize>) {
        let ghost start = *self;
        let mut out: [Option<Self::Item>; N] = empty_slots();
        let mut elem: usize = 0;
        while elem < N
            invariant
                elem <= N,
                start == *old(self),
                elem == 0 ==> *self == start,
                (*self).obeys_prophetic_iter_laws() == start.obeys_prophetic_iter_laws(),
                start.obeys_prophetic_iter_laws() ==> {
                    &&& elem <= start.remaining().len()
                    &&& (*self).remaining() == start.remaining().skip(elem as int)
                    &&& forall|i: int|
                        0 <= i < elem ==> #[trigger] out@[i] == Some(start.remaining()[i])
                },
                forall|i: int| 0 <= i < elem ==> #[trigger] out@[i] is Some,
                forall|i: int| elem <= i < N ==> #[trigger] out@[i] is None,
            decreases N - elem,
        {
            match self.next() {
                Some(v) => {
                    out[elem] = Some(v);
                    elem = elem + 1;
                },
                None => {
                    return Err(elem);
                },
            }
        }
        let a = take_filled(out);
        proof {
            if start.obeys_prophetic_iter_laws() {
                assert(a@ =~= start.remaining().take(N as int));
            }
        }
        Ok(a)
    }

    fn try_collect_array<const N: usize>(&mut self) -> (r: Result<
        [<Self::Item as Maybe>::Unwrap; N],
        Error<N, <Self::Item as Maybe>::Or>,
    >) where Self::Item: Maybe {
        let ghost start = *self;
        let mut out: [Option<<Self::Item as Maybe>::Unwrap>; N] = empty_slots();
        let mut elem: usize = 0;
        while elem < N
            invariant
                elem <= N,
                start == *old(self),
                elem == 0 ==> *self == start,
                (*self).obeys_prophetic_iter_laws() == start.obeys_prophetic_iter_laws(),
                start.obeys_prophetic_iter_laws() ==> {
                    &&& elem <= start.remaining().len()
                    &&& (*self).remaining() == start.remaining().skip(elem as int)
                    &&& forall|i: int|
                        0 <= i < elem ==> start.remaining()[i].outcome() == Ok::<_, <Self::Item as Maybe>::Or>(#[trigger] out@[i]->Some_0)
                },
                forall|i: int| 0 <= i < elem ==> #[trigger] out@[i] is Some,
                forall|i: int| elem <= i < N ==> #[trigger] out@[i] is None,
            decreases N - elem,
        {
            match self.next() {
                Some(v) => {
                    match v.asr() {
                        Ok(e) => {
                            out[elem] = Some(e);
                            elem = elem + 1;
                        },
                        Err(p) => {
                            return Err(Error { error: Some(p), at: elem });
                        },
                    }
                },
                None => {
                    return Err(Error { error: None, at: elem });
                },
            }
        }
        let a = take_filled(out);
        Ok(a)
    }

    fn items<const N: usize>(&mut self) -> (r: [Option<Self::Item>; N]) {
        let ghost start = *self;
        let mut out: [Option<Self::Item>; N] = empty_slots();
        let mut elem: usize = 0;
        while elem < N
            invariant
                elem <= N,
                start == *old(self),
                elem == 0 ==> *self == start,
                (*self).obeys_prophetic_iter_laws() == start.obeys_prophetic_iter_laws(),
                start.obeys_prophetic_iter_laws() ==> {
                    let rem = start.remaining();
                    &&& (*self).remaining() == rem.skip(if rem.len() < elem { rem.len() as int } else { elem as int })
                    &&& forall|i: int|
                        0 <= i < elem ==> #[trigger] out@[i] == (if i < rem.len() { Some(rem[i]) } else { None })
                },
                forall|i: int| elem <= i < N ==> #[trigger] out@[i] is None,
            decreases N - elem,
        {
            out[elem] = self.next();
            elem = elem + 1;
        }
        out
    }
}

} // verus!
