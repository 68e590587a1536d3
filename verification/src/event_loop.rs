//! The shape of the event loop: messages, where they come from, and how a
//! message of one kind is told apart in a message of many kinds. The loop
//! itself is run by the application.
use vstd::prelude::*;

verus! {

/// A message of the event loop: before the handlers see it, it may read the
/// state to fill itself in; after, it may change the state.
pub trait Message<S>: Sized {
    /// Fills in what the message needs from the state.
    fn preprocess(&mut self, state: &S);

    /// Applies the message to the state.
    fn update_state(self, state: &mut S);
}

/// Something that hands the loop messages.
pub trait MessageSource<M> {
    /// The next message, where one is ready.
    fn next_message(&mut self) -> Option<M>;
}

/// A message type that may hold a message of type `T`.
pub trait Is<T> {
    /// The `T` the message holds, if any.
    spec fn held(&self) -> Option<T>;

    /// Whether it holds a `T`.
    fn is(&self) -> (b: bool)
        ensures
            b == self.held() is Some,
    ;

    /// The `T` it holds, if any.
    fn try_get(&self) -> (r: Option<&T>)
        ensures
            match r {
                Some(x) => self.held() == Some(*x),
                None => self.held() is None,
            },
    ;
}

/// The `T` that `message` holds, if any.
pub fn try_get<T, M: Is<T>>(message: &M) -> (r: Option<&T>)
    ensures
        match r {
            Some(x) => message.held() == Some(*x),
            None => message.held() is None,
        },
{
    message.try_get()
}

} // verus!
