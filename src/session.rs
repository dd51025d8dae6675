//! The slot that caches the logged-in session: empty, or one session handle.
use vstd::prelude::*;

verus! {

/// Holds at most one session handle. It is filled by the first successful login and
/// emptied by `clear`; a failed login leaves it as it was.
pub struct SessionSlot<H> {
    handle: Option<H>,
}

impl<H> View for SessionSlot<H> {
    type V = Option<H>;

    closed spec fn view(&self) -> Option<H> {
        self.handle
    }
}

impl<H> Default for SessionSlot<H> {
    fn default() -> (r: Self)
        ensures
            r@ == None::<H>,
    {
        SessionSlot::new()
    }
}

impl<H> SessionSlot<H> {
    /// An empty slot.
    pub fn new() -> (r: Self)
        ensures
            r@ == None::<H>,
    {
        SessionSlot { handle: None }
    }

    /// The cached handle, if any.
    pub fn handle(&self) -> (r: Option<&H>)
        ensures
            r.is_some() == self@.is_some(),
            r.is_some() ==> *r.unwrap() == self@.unwrap(),
    {
        match &self.handle {
            Some(h) => Some(h),
            None => None,
        }
    }

    /// Records the outcome of a login. A successful one fills an empty slot; when the
    /// slot was filled meanwhile, the handle already there stays, so that every caller
    /// ends up with the same session. A failed one changes nothing and its error is
    /// handed back, so the next caller tries again.
    pub fn settle<E>(&mut self, login: core::result::Result<H, E>) -> (r: core::result::Result<(), E>)
        ensures
            match login {
                Ok(h) => {
                    &&& r is Ok
                    &&& final(self)@ == (if old(self)@.is_some() {
                        old(self)@
                    } else {
                        Some(h)
                    })
                },
                Err(e) => r == Err::<(), E>(e) && final(self)@ == old(self)@,
            },
    {
        match login {
            Ok(h) => {
                if self.handle.is_none() {
                    self.handle = Some(h);
                }
                Ok(())
            },
            Err(e) => Err(e),
        }
    }

    /// Empties the slot.
    pub fn clear(&mut self)
        ensures
            final(self)@ == None::<H>,
    {
        self.handle = None;
    }
}

} // verus!
