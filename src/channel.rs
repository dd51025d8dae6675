//! The sending half of the progress channel, a tokio unbounded queue of byte counts.
use tokio::sync::mpsc::UnboundedSender;
use vstd::prelude::*;

verus! {

#[verifier::external_type_specification]
#[verifier::external_body]
#[verifier::reject_recursive_types(T)]
pub struct ExUnboundedSender<T>(UnboundedSender<T>);

/// `UnboundedSender::clone`, used by the derived `Clone` of the sender: another handle
/// on the same channel. Nothing is promised of it.
pub assume_specification<T>[ <UnboundedSender<T> as Clone>::clone ](tx: &UnboundedSender<T>) -> UnboundedSender<T>;

/// A progress sender together with the record of the events it has put on the channel.
#[derive(Clone)]
pub struct ProgressSender {
    tx: UnboundedSender<u64>,
    log: Ghost<Seq<u64>>,
}

impl ProgressSender {
    /// The events this sender has put on the channel, in order.
    pub closed spec fn sent(&self) -> Seq<u64> {
        self.log@
    }

    /// A sender that has sent nothing yet.
    pub fn new(tx: UnboundedSender<u64>) -> (r: Self)
        ensures
            r.sent() == Seq::<u64>::empty(),
    {
        ProgressSender { tx, log: Ghost(Seq::empty()) }
    }

    /// Relies on `UnboundedSender::send`: it never blocks, and it puts `n` on the
    /// channel and succeeds unless the receiving half has been closed or dropped, in
    /// which case nothing is queued. Which of the two happens this library cannot see.
    #[verifier::external_body]
    pub(crate) fn send(&mut self, n: u64) -> (ok: bool)
        ensures
            ok ==> final(self).sent() == old(self).sent().push(n),
            !ok ==> final(self).sent() == old(self).sent(),
    {
        self.tx.send(n).is_ok()
    }
}

} // verus!
