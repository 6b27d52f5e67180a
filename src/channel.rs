use vstd::prelude::*;
use tokio::sync::mpsc::UnboundedSender;

verus! {

#[verifier::external_type_specification]
#[verifier::external_body]
#[verifier::reject_recursive_types(T)]
pub struct ExUnboundedSender<T>(UnboundedSender<T>);

/// Relies on uuid's `Uuid::new_v4` and `Uuid::as_u128`: a random version-4
/// identifier, as a 128-bit integer.
#[verifier::external_body]
pub(crate) fn fresh_connection_id() -> (id: u128) {
    uuid::Uuid::new_v4().as_u128()
}

/// The send-only handle to one session's outbound queue of text frames: a
/// tokio unbounded channel, whose other end the session's write loop drains.
#[verifier::external_body]
pub struct Outbound {
    tx: UnboundedSender<String>,
}

/// The frames handed to the queue's `send` through this handle, oldest first.
pub uninterp spec fn handed(o: Outbound) -> Seq<Seq<char>>;

impl Outbound {
    /// The frames offered to this queue since the handle was made, oldest first.
    pub open spec fn offered(&self) -> Seq<Seq<char>> {
        handed(*self)
    }

    /// Relies on tokio's `UnboundedSender`: a handle that has sent nothing yet.
    #[verifier::external_body]
    pub(crate) fn new(tx: UnboundedSender<String>) -> (r: Outbound)
        ensures
            handed(r) == Seq::<Seq<char>>::empty(),
    {
        Outbound { tx }
    }

    /// Relies on tokio's `UnboundedSender::send`: the frame is handed to the
    /// queue without blocking; the result is false only when the receiving
    /// half is gone, in which case the frame is dropped.
    #[verifier::external_body]
    pub(crate) fn offer(&mut self, frame: &String) -> (accepted: bool)
        ensures
            handed(*final(self)) == handed(*old(self)).push(frame@),
    {
        self.tx.send(frame.clone()).is_ok()
    }
}

} // verus!
