//! The single-use reply slot that carries one answer back to a waiting
//! connection.
use vstd::prelude::*;

verus! {

/// Holds the sender of one reply until it is taken; taking it again yields
/// nothing.
pub struct ReplySlot<T> {
    sender: Option<T>,
}

impl<T> View for ReplySlot<T> {
    type V = Option<T>;

    closed spec fn view(&self) -> Option<T> {
        self.sender
    }
}

/// What taking from a slot holding `s` returns, and what the slot holds
/// afterwards.
pub open spec fn take_spec<T>(s: Option<T>) -> (Option<T>, Option<T>) {
    (s, None)
}

impl<T> ReplySlot<T> {
    /// A slot holding `sender`.
    pub fn new(sender: T) -> (r: ReplySlot<T>)
        ensures
            r@ == Some(sender),
    {
        ReplySlot { sender: Some(sender) }
    }

    /// Takes the sender out, if it is still there.
    pub fn take(&mut self) -> (r: Option<T>)
        ensures
            (r, final(self)@) == take_spec(old(self)@),
    {
        let mut out: Option<T> = None;
        std::mem::swap(&mut out, &mut self.sender);
        out
    }

    /// Whether the sender has been taken.
    pub fn is_spent(&self) -> (r: bool)
        ensures
            r == self@ is None,
    {
        self.sender.is_none()
    }
}

/// Taking from a slot a second time yields nothing and leaves it as it was:
/// one reply at most goes out.
pub proof fn law_second_take_is_noop<T>(s: Option<T>)
    ensures
        take_spec(take_spec(s).1).0 is None,
        take_spec(take_spec(s).1).1 == take_spec(s).1,
{
}

} // verus!
