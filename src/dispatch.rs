use vstd::prelude::*;
use crate::frame::{encode_frame, frame_text};
use crate::registry::{
    ConnectionRegistry, Delivery, count_in, delivered_to, offer_to_group, recipients,
};
use crate::types::Message;

verus! {

/// What the message store is asked to append for one inbound text frame.
pub struct AppendRequest {
    pub user_id: i32,
    pub group_id: i32,
    pub content: String,
}

/// The message store could not append a message.
pub struct StoreError;

/// What became of one inbound message.
pub enum DispatchOutcome {
    /// Stored, and offered to every connection of the group (the sender's
    /// own included), one report entry per connection.
    Broadcast(Vec<Delivery>),
    /// The store failed: the message reached nobody.
    Dropped,
}

/// Finishes one inbound message once the store has answered: a stored
/// message is serialised into its wire frame and broadcast to `group_id`;
/// a failed append is dropped without touching any queue.
pub fn handle_stored(
    registry: &mut ConnectionRegistry,
    group_id: i32,
    stored: Result<Message, StoreError>,
) -> (outcome: DispatchOutcome)
    requires
        old(registry).wf(),
    ensures
        final(registry).wf(),
        match stored {
            Ok(m) => {
                &&& final(registry)@ == offer_to_group(old(registry)@, group_id, frame_text(m))
                &&& outcome matches DispatchOutcome::Broadcast(report) && {
                    &&& delivered_to(report@).no_duplicates()
                    &&& delivered_to(report@).to_set() == recipients(old(registry)@, group_id)
                    &&& report.len() == count_in(old(registry)@, group_id)
                }
            },
            Err(_) => {
                &&& final(registry)@ == old(registry)@
                &&& outcome is Dropped
            },
        },
{
    match stored {
        Ok(m) => {
            let frame = encode_frame(&m);
            let report = registry.broadcast(group_id, &frame);
            DispatchOutcome::Broadcast(report)
        },
        Err(_) => DispatchOutcome::Dropped,
    }
}

} // verus!
