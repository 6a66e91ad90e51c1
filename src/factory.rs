use vstd::prelude::*;

use std::rc::Rc;

verus! {

/// A signal factory with a single owner: each call makes a fresh signal that
/// belongs to the caller.
pub struct BoxSignalFn<F> {
    make: Box<F>,
}

/// A signal factory whose owners share it by reference count; every clone
/// makes fresh signals from the same function.
pub struct RcSignalFn<F> {
    make: Rc<F>,
}

/// Relies on `Rc::clone`: the new handle points to the same value.
#[verifier::external_body]
fn share<F>(rc: &Rc<F>) -> (r: Rc<F>)
    ensures
        *r == **rc,
{
    Rc::clone(rc)
}

/// Stores `f` as a factory with one owner.
pub fn box_signal_fn<S, F: Fn() -> S>(f: F) -> (r: BoxSignalFn<F>)
    ensures
        r.maker() == f,
{
    BoxSignalFn { make: Box::new(f) }
}

/// Stores `f` as a factory that can be shared by cloning.
pub fn rc_signal_fn<S, F: Fn() -> S>(f: F) -> (r: RcSignalFn<F>)
    ensures
        r.maker() == f,
{
    RcSignalFn { make: Rc::new(f) }
}

impl<F> BoxSignalFn<F> {
    /// The function that makes the signals.
    pub closed spec fn maker(&self) -> F {
        *self.make
    }

    /// Makes a new signal, just as a direct call of the function would.
    pub fn call<S>(&self) -> (s: S) where F: Fn() -> S
        requires
            call_requires(self.maker(), ()),
        ensures
            call_ensures(self.maker(), (), s),
    {
        (*self.make)()
    }
}

impl<F> RcSignalFn<F> {
    /// The function that makes the signals.
    pub closed spec fn maker(&self) -> F {
        *self.make
    }

    /// Makes a new signal, just as a direct call of the function would.
    pub fn call<S>(&self) -> (s: S) where F: Fn() -> S
        requires
            call_requires(self.maker(), ()),
        ensures
            call_ensures(self.maker(), (), s),
    {
        (*self.make)()
    }
}

impl<F> Clone for RcSignalFn<F> {
    /// Another handle on the same function.
    fn clone(&self) -> (r: Self)
        ensures
            r.maker() == self.maker(),
    {
        RcSignalFn { make: share(&self.make) }
    }
}

/// From a function whose result is fixed, every signal that a one-owner
/// factory makes is the signal that a direct call of the function makes, so
/// two of them start alike and each is polled on its own.
pub proof fn lemma_box_factory_fresh<S, F: Fn() -> S>(f: F, factory: BoxSignalFn<F>, a: S, b: S, d: S)
    requires
        factory.maker() == f,
        forall|x: S, y: S| #[trigger]
            call_ensures(f, (), x) && #[trigger] call_ensures(f, (), y) ==> x == y,
        call_ensures(factory.maker(), (), a),
        call_ensures(factory.maker(), (), b),
        call_ensures(f, (), d),
    ensures
        a == d,
        b == d,
{
}

/// From a function whose result is fixed, every signal that any clone of a
/// shared factory makes is the signal that a direct call of the function
/// makes, so two of them start alike and each is polled on its own.
pub proof fn lemma_rc_factory_fresh<S, F: Fn() -> S>(
    f: F,
    first: RcSignalFn<F>,
    second: RcSignalFn<F>,
    a: S,
    b: S,
    d: S,
)
    requires
        first.maker() == f,
        second.maker() == first.maker(),
        forall|x: S, y: S| #[trigger]
            call_ensures(f, (), x) && #[trigger] call_ensures(f, (), y) ==> x == y,
        call_ensures(first.maker(), (), a),
        call_ensures(second.maker(), (), b),
        call_ensures(f, (), d),
    ensures
        a == d,
        b == d,
{
}

} // verus!
