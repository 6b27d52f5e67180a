use vstd::prelude::*;
use crate::frame::frame_text;
use crate::registry::{
    RegistryView, attach, count_in, detach, is_registered, home_of, offer_to_group, recipients,
    without,
};
use crate::types::Message;

verus! {

/// One operation on the registry's contents.
pub enum RegistryOp {
    Register { group: i32, id: u128, log: Seq<Seq<char>> },
    Deregister { group: i32, id: u128 },
    FanOut { group: i32, frame: Seq<char> },
}

/// The contents after `op`, as `register`, `deregister` and `broadcast`
/// leave them.
pub open spec fn apply_op(m: RegistryView, op: RegistryOp) -> RegistryView {
    match op {
        RegistryOp::Register { group, id, log } => attach(detach(m, id), group, id, log),
        RegistryOp::Deregister { group, id } => without(m, group, id),
        RegistryOp::FanOut { group, frame } => offer_to_group(m, group, frame),
    }
}

/// The contents after `ops`, in order.
pub open spec fn apply_ops(m: RegistryView, ops: Seq<RegistryOp>) -> RegistryView
    decreases ops.len(),
{
    if ops.len() == 0 {
        m
    } else {
        apply_ops(apply_op(m, ops[0]), ops.drop_first())
    }
}

/// Every group present holds a finite, non-empty set of connections.
pub open spec fn groups_nonempty(m: RegistryView) -> bool {
    forall|g: i32| #[trigger] m.contains_key(g) ==> m[g].dom().finite() && m[g].len() > 0
}

proof fn lemma_op_keeps_groups_nonempty(m: RegistryView, op: RegistryOp)
    requires
        groups_nonempty(m),
    ensures
        groups_nonempty(apply_op(m, op)),
{
    match op {
        RegistryOp::Register { group, id, log } => {
            let d = detach(m, id);
            if is_registered(m, id) {
                lemma_without_keeps_groups_nonempty(m, home_of(m, id), id);
            }
            assert(groups_nonempty(d));
            let a = attach(d, group, id, log);
            assert forall|g: i32| #[trigger] a.contains_key(g) implies a[g].dom().finite() && a[g].len() > 0 by {
                if g == group {
                    if d.contains_key(group) {
                        assert(a[g].dom() == d[group].dom().insert(id));
                    } else {
                        assert(a[g].dom() =~= set![id]);
                    }
                    assert(a[g].dom().contains(id));
                }
            }
        },
        RegistryOp::Deregister { group, id } => {
            lemma_without_keeps_groups_nonempty(m, group, id);
        },
        RegistryOp::FanOut { group, frame } => {
            let b = offer_to_group(m, group, frame);
            assert forall|g: i32| #[trigger] b.contains_key(g) implies b[g].dom().finite() && b[g].len() > 0 by {
                if g == group {
                    assert(b[g].dom() =~= m[g].dom());
                }
            }
        },
    }
}

proof fn lemma_without_keeps_groups_nonempty(m: RegistryView, group: i32, id: u128)
    requires
        groups_nonempty(m),
    ensures
        groups_nonempty(without(m, group, id)),
{
    let w = without(m, group, id);
    if m.contains_key(group) && m[group].contains_key(id) {
        let rest = m[group].remove(id);
        if !rest.is_empty() {
            assert forall|g: i32| #[trigger] w.contains_key(g) implies w[g].dom().finite() && w[g].len() > 0 by {
                if g == group {
                    assert(rest.dom() =~= m[group].dom().remove(id));
                    if rest.dom().len() == 0 {
                        rest.dom().lemma_len0_is_empty();
                    }
                }
            }
        }
    }
}

/// For every sequence of registrations, deregistrations and broadcasts, a
/// group key is present exactly while at least one connection is registered
/// under it: an emptied group is pruned at once, never left dangling.
pub proof fn lemma_no_dangling_groups(m: RegistryView, ops: Seq<RegistryOp>)
    requires
        groups_nonempty(m),
    ensures
        groups_nonempty(apply_ops(m, ops)),
        forall|g: i32| #[trigger] apply_ops(m, ops).contains_key(g) <==> count_in(apply_ops(m, ops), g) > 0,
    decreases ops.len(),
{
    if ops.len() > 0 {
        lemma_op_keeps_groups_nonempty(m, ops[0]);
        lemma_no_dangling_groups(apply_op(m, ops[0]), ops.drop_first());
    }
}

/// A broadcast to `group` offers the frame exactly once to each connection
/// registered under `group` and to no other: every other queue, and the set
/// of registered connections, stay as they were.
pub proof fn lemma_fan_out_reaches_exactly_the_group(m: RegistryView, group: i32, frame: Seq<char>)
    ensures
        offer_to_group(m, group, frame).dom() == m.dom(),
        forall|g: i32| #[trigger] m.contains_key(g) ==> offer_to_group(m, group, frame)[g].dom() == m[g].dom(),
        forall|g: i32, c: u128| m.contains_key(g) && #[trigger] m[g].contains_key(c) ==>
            offer_to_group(m, group, frame)[g][c] == if g == group { m[g][c].push(frame) } else { m[g][c] },
{
    let b = offer_to_group(m, group, frame);
    assert(b.dom() =~= m.dom());
    assert forall|g: i32| #[trigger] m.contains_key(g) implies b[g].dom() == m[g].dom() by {
        if g == group {
            assert(b[g].dom() =~= m[g].dom());
        }
    }
}

/// A message stored for `group` reaches every connection registered under
/// the group at broadcast time, its sender's included, as the very same
/// frame text.
pub proof fn lemma_stored_message_reaches_every_member(m: RegistryView, group: i32, msg: Message)
    ensures
        forall|c: u128| #[trigger] recipients(m, group).contains(c) ==> {
            let log = offer_to_group(m, group, frame_text(msg))[group][c];
            &&& log.len() == m[group][c].len() + 1
            &&& log.last() == frame_text(msg)
        },
{
}

/// Once a connection is deregistered from its group, a broadcast to that
/// group does not reach it.
pub proof fn lemma_no_delivery_after_deregister(m: RegistryView, group: i32, id: u128, frame: Seq<char>)
    ensures
        !recipients(without(m, group, id), group).contains(id),
        offer_to_group(without(m, group, id), group, frame).contains_key(group) ==>
            !offer_to_group(without(m, group, id), group, frame)[group].contains_key(id),
{
}

/// Two messages broadcast one after the other to a group reach every
/// connection of the group in the order they were sent.
pub proof fn lemma_sends_keep_their_order(m: RegistryView, group: i32, first: Seq<char>, second: Seq<char>)
    ensures
        forall|c: u128| #[trigger] recipients(m, group).contains(c) ==>
            offer_to_group(offer_to_group(m, group, first), group, second)[group][c]
                == m[group][c] + seq![first, second],
{
    assert forall|c: u128| #[trigger] recipients(m, group).contains(c) implies
        offer_to_group(offer_to_group(m, group, first), group, second)[group][c]
            == m[group][c] + seq![first, second] by {
        assert(m[group][c].push(first).push(second) =~= m[group][c] + seq![first, second]);
    }
}

} // verus!
