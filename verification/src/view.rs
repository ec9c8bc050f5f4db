//! The few parts of the view layer that are plain data.

use vstd::prelude::*;

verus! {

/// What a button tells the state it belongs to.
#[derive(Clone, Copy, Debug)]
pub enum ButtonMessage {
    Clicked(u32, u32),
}

/// A state that changes with the messages it is sent.
pub trait Reducer<M> {
    fn reduce(&mut self, message: M);
}

impl Reducer<()> for () {
    fn reduce(&mut self, _message: ()) {
    }
}

/// A horizontal stack of elements.
#[derive(Debug)]
pub struct HStack;

/// One of two kinds of element, for a place that may hold either.
#[derive(Debug)]
pub enum OneOf<A, B> {
    A(A),
    B(B),
}

/// Turns a value into either side of a [`OneOf`].
pub trait OneOfSwizz<A>: Sized {
    spec fn inner(self) -> A;

    fn left<B>(self) -> (r: OneOf<A, B>)
        ensures
            r == OneOf::<A, B>::A(self.inner()),
    ;

    fn right<B>(self) -> (r: OneOf<B, A>)
        ensures
            r == OneOf::<B, A>::B(self.inner()),
    ;
}

impl<El> OneOfSwizz<El> for El {
    open spec fn inner(self) -> El {
        self
    }

    fn left<B>(self) -> (r: OneOf<El, B>) {
        OneOf::A(self)
    }

    fn right<B>(self) -> (r: OneOf<B, El>) {
        OneOf::B(self)
    }
}

} // verus!
